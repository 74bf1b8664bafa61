//! Framing: `[u32 length, little-endian][kind id][payload]`, where the length
//! counts the id and the payload. SubmitResult and ProofRate payloads use the
//! binary format in both directions; every other kind uses the hybrid format.

use vstd::prelude::*;
use crate::binary::{binary_decoded, binary_payload, decoded_view, lemma_binary_round_trip, wire_sized};
use bytes::BytesMut;
use crate::buffer::{buf_advance, buf_bytes, buf_extend, buffered};
use crate::bytes_util::{append_bytes, copy_range};
use crate::hybrid::{hybrid_decoded, hybrid_payload};
use crate::le::{le_bytes, le_value, lemma_le_bytes_len, lemma_le_round_trip, lemma_pow256_values, push_le, read_le};
use crate::message::{DecodeError, EncodeError, MessageSpec, ProverMessage, ID_PROOF_RATE, ID_SUBMIT_RESULT};

verus! {

/// The largest length a frame may declare: 128 MiB.
pub const MAX_FRAME_LEN: u32 = 134217728;

/// Whether frames of kind `id` carry the binary payload format.
pub open spec fn uses_binary(id: u8) -> bool {
    id == ID_SUBMIT_RESULT || id == ID_PROOF_RATE
}

/// The payload that a frame of this message carries.
pub open spec fn frame_payload(m: MessageSpec) -> Seq<u8> {
    if uses_binary(m.kind_id()) {
        binary_payload(m)
    } else {
        hybrid_payload(m)
    }
}

/// A frame around `payload` of kind `id`.
pub open spec fn frame_of(id: u8, payload: Seq<u8>) -> Seq<u8> {
    le_bytes(payload.len() + 1, 4) + seq![id] + payload
}

/// What a frame body `[id] ++ payload` decodes to.
pub open spec fn body_decoded(body: Seq<u8>) -> Result<MessageSpec, DecodeError> {
    if body.len() > 0 && uses_binary(body[0]) {
        binary_decoded(body)
    } else {
        hybrid_decoded(body)
    }
}

/// The length that the first four bytes of `buf` declare.
pub open spec fn declared_len(buf: Seq<u8>) -> nat {
    le_value(buf.subrange(0, 4))
}

/// One decoding step on the buffered bytes: the outcome, and what stays buffered.
/// `Ok(None)` asks for more bytes.
pub open spec fn decode_step(buf: Seq<u8>) -> (Result<Option<MessageSpec>, DecodeError>, Seq<u8>) {
    if buf.len() < 4 {
        (Ok(None), buf)
    } else if declared_len(buf) > MAX_FRAME_LEN {
        (Err(DecodeError::MessageTooLong), buf)
    } else if buf.len() < 4 + declared_len(buf) {
        (Ok(None), buf)
    } else {
        let end = 4 + declared_len(buf);
        let rest = buf.subrange(end as int, buf.len() as int);
        match body_decoded(buf.subrange(4, end as int)) {
            Ok(m) => (Ok(Some(m)), rest),
            Err(e) => (Err(e), rest),
        }
    }
}

pub open spec fn step_view(r: Result<Option<ProverMessage>, DecodeError>) -> Result<Option<MessageSpec>, DecodeError> {
    match r {
        Ok(Some(m)) => Ok(Some(m@)),
        Ok(None) => Ok(None),
        Err(e) => Err(e),
    }
}

/// Appends the frame of `item` to `dst`. A frame that would be longer than
/// `MAX_FRAME_LEN` is refused, and `dst` is left as it was.
pub fn encode(item: &ProverMessage, dst: &mut BytesMut) -> (r: Result<(), EncodeError>)
    requires
        buffered(*old(dst)).len() + MAX_FRAME_LEN + 4 <= isize::MAX,
    ensures
        r is Ok ==> buffered(*final(dst)) == buffered(*old(dst)) + frame_of(
            item@.kind_id(),
            frame_payload(item@),
        ),
        r is Err ==> buffered(*final(dst)) == buffered(*old(dst)),
        r is Ok <==> frame_payload(item@).len() + 1 <= MAX_FRAME_LEN,
        r matches Err(e) ==> e == EncodeError::FrameTooLong,
        r is Ok ==> forall|rest: Seq<u8>|
            decode_step(#[trigger] (frame_of(item@.kind_id(), frame_payload(item@)) + rest)) == (
                Ok::<Option<MessageSpec>, DecodeError>(Some(item@)),
                rest,
            ),
{
    let id = item.id();
    let mut payload: Vec<u8> = Vec::new();
    if id == ID_SUBMIT_RESULT || id == ID_PROOF_RATE {
        item.serialize_into(&mut payload);
    } else {
        item.serialize_into_json(&mut payload);
    }
    assert(payload@ =~= frame_payload(item@));
    if payload.len() >= MAX_FRAME_LEN as usize {
        return Err(EncodeError::FrameTooLong);
    }
    assert(body_decoded(seq![id] + payload@) == Ok::<MessageSpec, DecodeError>(item@));
    assert forall|rest: Seq<u8>|
        decode_step(#[trigger] (frame_of(item@.kind_id(), frame_payload(item@)) + rest)) == (
            Ok::<Option<MessageSpec>, DecodeError>(Some(item@)),
            rest,
        ) by {
        lemma_frame_consumed(id, payload@, rest);
    }
    let mut frame: Vec<u8> = Vec::new();
    push_le(&mut frame, (payload.len() + 1) as u64, 4);
    frame.push(id);
    append_bytes(&mut frame, payload.as_slice());
    assert(frame@ =~= frame_of(item@.kind_id(), frame_payload(item@)));
    proof {
        lemma_le_bytes_len((payload.len() + 1) as nat, 4);
    }
    buf_extend(dst, frame.as_slice());
    Ok(())
}

/// Takes one frame off the front of `src` and decodes it.
///
/// Fewer than four bytes, or a frame not yet whole, gives `Ok(None)` and takes
/// nothing. A declared length over `MAX_FRAME_LEN` gives `MessageTooLong` and
/// takes nothing. Otherwise the whole frame is taken, whether or not its body
/// decodes.
pub fn decode(src: &mut BytesMut) -> (r: Result<Option<ProverMessage>, DecodeError>)
    ensures
        (step_view(r), buffered(*final(src))) == decode_step(buffered(*old(src))),
{
    let bytes = buf_bytes(src);
    let n = bytes.len();
    if n < 4 {
        return Ok(None);
    }
    let length = read_le(bytes, 0, 4);
    if length > MAX_FRAME_LEN as u64 {
        return Err(DecodeError::MessageTooLong);
    }
    let length = length as usize;
    if n - 4 < length {
        return Ok(None);
    }
    let end: usize = 4 + length;
    let body = copy_range(bytes, 4, end);
    let result = if length > 0 && (body[0] == ID_SUBMIT_RESULT || body[0] == ID_PROOF_RATE) {
        ProverMessage::deserialize(body.as_slice())
    } else {
        ProverMessage::deserialize_json(body.as_slice())
    };
    assert(decoded_view(result) == body_decoded(body@));
    buf_advance(src, end);
    match result {
        Ok(m) => Ok(Some(m)),
        Err(e) => Err(e),
    }
}

/// A whole frame followed by any bytes: decoding takes exactly the frame and
/// decodes its body.
pub proof fn lemma_frame_consumed(id: u8, payload: Seq<u8>, rest: Seq<u8>)
    requires
        payload.len() + 1 <= MAX_FRAME_LEN,
    ensures
        decode_step(frame_of(id, payload) + rest) == (
            match body_decoded(seq![id] + payload) {
                Ok(m) => Ok(Some(m)),
                Err(e) => Err(e),
            },
            rest,
        ),
{
    let f = frame_of(id, payload);
    let buf = f + rest;
    lemma_le_bytes_len(payload.len() + 1, 4);
    lemma_pow256_values();
    lemma_le_round_trip(payload.len() + 1, 4);
    assert(buf.subrange(0, 4) =~= le_bytes(payload.len() + 1, 4));
    assert(buf.subrange(4, 4 + payload.len() + 1 as int) =~= seq![id] + payload);
    assert(buf.subrange(f.len() as int, buf.len() as int) =~= rest);
}

/// Round trip through a frame, from the specs alone, for the binary kinds and
/// `Canary`: decoding the frame of `m`, followed by any bytes, gives `m` and
/// leaves those bytes. For every kind the same holds of each frame that
/// `encode` writes (see its `ensures`).
pub proof fn lemma_frame_round_trip(m: MessageSpec, rest: Seq<u8>)
    requires
        wire_sized(m),
        uses_binary(m.kind_id()) || m is Canary,
        frame_payload(m).len() + 1 <= MAX_FRAME_LEN,
    ensures
        decode_step(frame_of(m.kind_id(), frame_payload(m)) + rest) == (
            Ok::<Option<MessageSpec>, DecodeError>(Some(m)),
            rest,
        ),
{
    lemma_frame_consumed(m.kind_id(), frame_payload(m), rest);
    lemma_binary_round_trip(m);
    if m is Canary {
        assert((seq![m.kind_id()] + frame_payload(m)).drop_first() =~= Seq::<u8>::empty());
    }
}

/// A frame cut short at any point asks for more bytes and takes nothing;
/// once whole it is taken in one step.
pub proof fn lemma_partial_frame(id: u8, payload: Seq<u8>, k: int)
    requires
        payload.len() + 1 <= MAX_FRAME_LEN,
        0 <= k < frame_of(id, payload).len(),
    ensures
        decode_step(frame_of(id, payload).subrange(0, k)) == (
            Ok::<Option<MessageSpec>, DecodeError>(None),
            frame_of(id, payload).subrange(0, k),
        ),
        decode_step(frame_of(id, payload)).1 == Seq::<u8>::empty(),
        decode_step(frame_of(id, payload)).0 != Ok::<Option<MessageSpec>, DecodeError>(None),
{
    let f = frame_of(id, payload);
    let p = f.subrange(0, k);
    lemma_le_bytes_len(payload.len() + 1, 4);
    lemma_pow256_values();
    lemma_le_round_trip(payload.len() + 1, 4);
    if k >= 4 {
        assert(p.subrange(0, 4) =~= le_bytes(payload.len() + 1, 4));
    }
    lemma_frame_consumed(id, payload, Seq::empty());
    assert(f + Seq::<u8>::empty() =~= f);
}

/// A declared length over the limit is refused, and nothing is taken.
pub proof fn lemma_oversize_rejected(n: nat, tail: Seq<u8>)
    requires
        MAX_FRAME_LEN < n < 0x1_0000_0000,
    ensures
        decode_step(le_bytes(n, 4) + tail) == (
            Err::<Option<MessageSpec>, DecodeError>(DecodeError::MessageTooLong),
            le_bytes(n, 4) + tail,
        ),
{
    lemma_le_bytes_len(n, 4);
    lemma_pow256_values();
    lemma_le_round_trip(n, 4);
    assert((le_bytes(n, 4) + tail).subrange(0, 4) =~= le_bytes(n, 4));
}

/// A frame of an unknown kind is taken whole and reported; the frame after it
/// then decodes as usual.
pub proof fn lemma_unknown_kind_skipped(id: u8, payload: Seq<u8>, m: MessageSpec)
    requires
        id > 6,
        payload.len() + 1 <= MAX_FRAME_LEN,
        wire_sized(m),
        uses_binary(m.kind_id()) || m is Canary,
        frame_payload(m).len() + 1 <= MAX_FRAME_LEN,
    ensures
        decode_step(frame_of(id, payload) + frame_of(m.kind_id(), frame_payload(m))) == (
            Err::<Option<MessageSpec>, DecodeError>(DecodeError::UnknownMessageId(id)),
            frame_of(m.kind_id(), frame_payload(m)),
        ),
        decode_step(frame_of(m.kind_id(), frame_payload(m))) == (
            Ok::<Option<MessageSpec>, DecodeError>(Some(m)),
            Seq::<u8>::empty(),
        ),
{
    lemma_frame_consumed(id, payload, frame_of(m.kind_id(), frame_payload(m)));
    lemma_frame_round_trip(m, Seq::empty());
    assert(frame_of(m.kind_id(), frame_payload(m)) + Seq::<u8>::empty() =~= frame_of(
        m.kind_id(),
        frame_payload(m),
    ));
}

} // verus!
