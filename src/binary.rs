//! The binary payload format: fixed-width little-endian integers, strings and
//! blobs as an eight-byte length followed by their bytes, one-byte flags.

use vstd::prelude::*;
use vstd::utf8::{decode_utf8, encode_utf8, encode_utf8_decode_utf8, encode_utf8_valid_utf8, valid_utf8};
use crate::bytes_util::{append_bytes, copy_range, string_from_utf8, utf8_bytes};
use crate::le::{
    decimal, decimal_bytes, le_bytes, le_value, lemma_decimal_parses, lemma_le_bytes_len,
    lemma_le_round_trip, lemma_le_value_bound, pow256, lemma_pow256_values, parse_decimal,
    parse_decimal_u16, push_le, read_le,
};
use crate::message::{opt_view, Code, DecodeError, MessageSpec, ProverMessage, ID_AUTHORIZE, ID_AUTHORIZE_RESULT, ID_CANARY, ID_NOTIFY, ID_PROOF_RATE, ID_SUBMIT, ID_SUBMIT_RESULT};

verus! {

pub open spec fn blob_field(b: Seq<u8>) -> Seq<u8> {
    le_bytes(b.len(), 8) + b
}

pub open spec fn str_field(s: Seq<char>) -> Seq<u8> {
    blob_field(encode_utf8(s))
}

pub open spec fn flag_byte(b: bool) -> u8 {
    if b {
        1
    } else {
        0
    }
}

pub open spec fn opt_str_field(o: Option<Seq<char>>) -> Seq<u8> {
    match o {
        Some(s) => seq![1u8] + str_field(s),
        None => seq![0u8],
    }
}

/// The binary payload of a message (what follows the kind id).
pub open spec fn binary_payload(m: MessageSpec) -> Seq<u8> {
    match m {
        MessageSpec::Authorize(a, w, p, v) => str_field(a) + str_field(w) + str_field(p)
            + blob_field(decimal(v as nat)),
        MessageSpec::AuthorizeResult(ok, r) => seq![flag_byte(ok)] + opt_str_field(r),
        MessageSpec::Notify(t, target) => blob_field(t) + le_bytes(target as nat, 8),
        MessageSpec::Submit(h, n, p) => le_bytes(h as nat, 4) + blob_field(n) + blob_field(p),
        MessageSpec::SubmitResult(c, r) => le_bytes(c.ordinal() as nat, 4) + opt_str_field(r),
        MessageSpec::ProofRate(r) => le_bytes(r as nat, 8),
        MessageSpec::Canary => Seq::empty(),
    }
}

/// Reads an `n`-byte integer at `pos`; the result holds the value and the position after it.
pub open spec fn take_int(b: Seq<u8>, pos: int, n: nat) -> Option<(nat, int)> {
    if 0 <= pos && pos + n <= b.len() {
        Some((le_value(b.subrange(pos, pos + n)), pos + n))
    } else {
        None
    }
}

pub open spec fn take_blob(b: Seq<u8>, pos: int) -> Option<(Seq<u8>, int)> {
    match take_int(b, pos, 8) {
        Some((n, p)) => if p + n <= b.len() {
            Some((b.subrange(p, p + n), p + n))
        } else {
            None
        },
        None => None,
    }
}

pub open spec fn take_str(b: Seq<u8>, pos: int) -> Option<(Seq<char>, int)> {
    match take_blob(b, pos) {
        Some((s, p)) => if valid_utf8(s) {
            Some((decode_utf8(s), p))
        } else {
            None
        },
        None => None,
    }
}

pub open spec fn take_opt_str(b: Seq<u8>, pos: int) -> Option<(Option<Seq<char>>, int)> {
    if 0 <= pos < b.len() {
        if b[pos] == 1 {
            match take_str(b, pos + 1) {
                Some((s, p)) => Some((Some(s), p)),
                None => None,
            }
        } else {
            Some((None, pos + 1))
        }
    } else {
        None
    }
}

pub open spec fn take_version(b: Seq<u8>, pos: int) -> Option<(u16, int)> {
    match take_blob(b, pos) {
        Some((s, p)) => match parse_decimal_u16(s) {
            Some(v) => Some((v, p)),
            None => None,
        },
        None => None,
    }
}

/// The message that a binary payload of kind `id` holds, if it holds one and nothing after it.
pub open spec fn parse_binary(id: u8, b: Seq<u8>) -> Option<MessageSpec> {
    if id == ID_AUTHORIZE {
        parse_authorize(b)
    } else if id == ID_AUTHORIZE_RESULT {
        parse_authorize_result(b)
    } else if id == ID_NOTIFY {
        parse_notify(b)
    } else if id == ID_SUBMIT {
        parse_submit(b)
    } else if id == ID_SUBMIT_RESULT {
        parse_submit_result(b)
    } else if id == ID_CANARY {
        if b.len() == 0 {
            Some(MessageSpec::Canary)
        } else {
            None
        }
    } else if id == ID_PROOF_RATE {
        parse_proof_rate(b)
    } else {
        None
    }
}

pub open spec fn parse_authorize(b: Seq<u8>) -> Option<MessageSpec> {
    match take_str(b, 0) {
        Some((a, at1)) => match take_str(b, at1) {
            Some((w, at2)) => match take_str(b, at2) {
                Some((pw, at3)) => match take_version(b, at3) {
                    Some((v, at4)) => if at4 == b.len() {
                        Some(MessageSpec::Authorize(a, w, pw, v))
                    } else {
                        None
                    },
                    None => None,
                },
                None => None,
            },
            None => None,
        },
        None => None,
    }
}

pub open spec fn parse_authorize_result(b: Seq<u8>) -> Option<MessageSpec> {
    if b.len() == 0 {
        None
    } else {
        match take_opt_str(b, 1) {
            Some((r, p)) => if p == b.len() {
                Some(MessageSpec::AuthorizeResult(b[0] == 1, r))
            } else {
                None
            },
            None => None,
        }
    }
}

pub open spec fn parse_notify(b: Seq<u8>) -> Option<MessageSpec> {
    match take_blob(b, 0) {
        Some((t, at1)) => match take_int(b, at1, 8) {
            Some((target, at2)) => if at2 == b.len() {
                Some(MessageSpec::Notify(t, target as u64))
            } else {
                None
            },
            None => None,
        },
        None => None,
    }
}

pub open spec fn parse_submit(b: Seq<u8>) -> Option<MessageSpec> {
    match take_int(b, 0, 4) {
        Some((h, at1)) => match take_blob(b, at1) {
            Some((n, at2)) => match take_blob(b, at2) {
                Some((pr, at3)) => if at3 == b.len() {
                    Some(MessageSpec::Submit(h as u32, n, pr))
                } else {
                    None
                },
                None => None,
            },
            None => None,
        },
        None => None,
    }
}

pub open spec fn parse_submit_result(b: Seq<u8>) -> Option<MessageSpec> {
    match take_int(b, 0, 4) {
        Some((c, at1)) => match Code::from_ordinal(c as u32) {
            Some(code) => if c < 4 {
                match take_opt_str(b, at1) {
                    Some((r, at2)) => if at2 == b.len() {
                        Some(MessageSpec::SubmitResult(code, r))
                    } else {
                        None
                    },
                    None => None,
                }
            } else {
                None
            },
            None => None,
        },
        None => None,
    }
}

pub open spec fn parse_proof_rate(b: Seq<u8>) -> Option<MessageSpec> {
    match take_int(b, 0, 8) {
        Some((r, p)) => if p == b.len() {
            Some(MessageSpec::ProofRate(r as u64))
        } else {
            None
        },
        None => None,
    }
}

/// Whether `id` names a message kind.
pub open spec fn known_id(id: u8) -> bool {
    id <= 6
}

/// What decoding `[id] ++ payload` in the binary format gives.
pub open spec fn binary_decoded(body: Seq<u8>) -> Result<MessageSpec, DecodeError> {
    if body.len() == 0 {
        Err(DecodeError::Malformed)
    } else if !known_id(body[0]) {
        Err(DecodeError::UnknownMessageId(body[0]))
    } else {
        match parse_binary(body[0], body.drop_first()) {
            Some(m) => Ok(m),
            None => Err(DecodeError::Malformed),
        }
    }
}

pub open spec fn decoded_view(r: Result<ProverMessage, DecodeError>) -> Result<MessageSpec, DecodeError> {
    match r {
        Ok(m) => Ok(m@),
        Err(e) => Err(e),
    }
}

fn push_blob(out: &mut Vec<u8>, b: &[u8])
    ensures
        final(out)@ == old(out)@ + blob_field(b@),
        b@.len() < pow256(8),
{
    proof {
        lemma_pow256_values();
    }
    push_le(out, b.len() as u64, 8);
    append_bytes(out, b);
    assert(final(out)@ =~= old(out)@ + blob_field(b@));
}

fn push_opt_str(out: &mut Vec<u8>, o: &Option<String>)
    ensures
        final(out)@ == old(out)@ + opt_str_field(opt_view(*o)),
        opt_sized(opt_view(*o)),
{
    match o {
        Some(s) => {
            out.push(1u8);
            push_blob(out, utf8_bytes(s));
        },
        None => {
            out.push(0u8);
        },
    }
    assert(final(out)@ =~= old(out)@ + opt_str_field(opt_view(*o)));
}

impl ProverMessage {
    /// Appends the binary payload of this message to `out`.
    /// Decoding `[id] ++` what it appends gives this message back.
    pub fn serialize_into(&self, out: &mut Vec<u8>)
        ensures
            final(out)@ == old(out)@ + binary_payload(self@),
            binary_decoded(seq![self@.kind_id()] + binary_payload(self@)) == Ok::<
                MessageSpec,
                DecodeError,
            >(self@),
    {
        let ghost start = out@;
        match self {
            ProverMessage::Authorize(account, worker, password, version) => {
                push_blob(out, utf8_bytes(account));
                push_blob(out, utf8_bytes(worker));
                push_blob(out, utf8_bytes(password));
                let v = decimal_bytes(*version as u64);
                push_blob(out, v.as_slice());
            },
            ProverMessage::AuthorizeResult(ok, reason) => {
                out.push(if *ok { 1u8 } else { 0u8 });
                push_opt_str(out, reason);
            },
            ProverMessage::Notify(template, target) => {
                push_blob(out, template.as_slice());
                push_le(out, *target, 8);
            },
            ProverMessage::Submit(height, nonce, proof) => {
                push_le(out, *height as u64, 4);
                push_blob(out, nonce.as_slice());
                push_blob(out, proof.as_slice());
            },
            ProverMessage::SubmitResult(code, reason) => {
                push_le(out, code.to_ordinal() as u64, 4);
                push_opt_str(out, reason);
            },
            ProverMessage::ProofRate(rate) => {
                push_le(out, *rate, 8);
            },
            ProverMessage::Canary => {},
        }
        assert(out@ =~= start + binary_payload(self@));
        proof {
            lemma_binary_round_trip(self@);
        }
    }
}


fn take_int_exec(b: &[u8], pos: usize, n: usize) -> (r: Option<(u64, usize)>)
    requires
        n <= 8,
    ensures
        match r {
            Some((v, p)) => take_int(b@, pos as int, n as nat) == Some((v as nat, p as int)),
            None => take_int(b@, pos as int, n as nat) is None,
        },
{
    if pos > b.len() || n > b.len() - pos {
        return None;
    }
    let v = read_le(b, pos, n);
    Some((v, pos + n))
}

fn take_blob_exec(b: &[u8], pos: usize) -> (r: Option<(Vec<u8>, usize)>)
    ensures
        match r {
            Some((v, p)) => take_blob(b@, pos as int) == Some((v@, p as int)),
            None => take_blob(b@, pos as int) is None,
        },
{
    match take_int_exec(b, pos, 8) {
        Some((n, p)) => {
            if n > (b.len() - p) as u64 {
                None
            } else {
                let end: usize = p + n as usize;
                Some((copy_range(b, p, end), end))
            }
        },
        None => None,
    }
}

fn take_str_exec(b: &[u8], pos: usize) -> (r: Option<(String, usize)>)
    ensures
        match r {
            Some((s, p)) => take_str(b@, pos as int) == Some((s@, p as int)),
            None => take_str(b@, pos as int) is None,
        },
{
    match take_blob_exec(b, pos) {
        Some((v, p)) => match string_from_utf8(v) {
            Some(s) => Some((s, p)),
            None => None,
        },
        None => None,
    }
}

fn take_opt_str_exec(b: &[u8], pos: usize) -> (r: Option<(Option<String>, usize)>)
    ensures
        match r {
            Some((o, p)) => take_opt_str(b@, pos as int) == Some((opt_view(o), p as int)),
            None => take_opt_str(b@, pos as int) is None,
        },
{
    if pos >= b.len() {
        return None;
    }
    if b[pos] == 1 {
        match take_str_exec(b, pos + 1) {
            Some((s, p)) => Some((Some(s), p)),
            None => None,
        }
    } else {
        Some((None, pos + 1))
    }
}

fn take_version_exec(b: &[u8], pos: usize) -> (r: Option<(u16, usize)>)
    ensures
        match r {
            Some((v, p)) => take_version(b@, pos as int) == Some((v, p as int)),
            None => take_version(b@, pos as int) is None,
        },
{
    match take_blob_exec(b, pos) {
        Some((s, p)) => match parse_decimal(s.as_slice()) {
            Some(v) => Some((v, p)),
            None => None,
        },
        None => None,
    }
}

fn parse_binary_exec(id: u8, b: &[u8]) -> (r: Option<ProverMessage>)
    ensures
        match r {
            Some(m) => parse_binary(id, b@) == Some(m@),
            None => parse_binary(id, b@) is None,
        },
{
    let len = b.len();
    if id == ID_AUTHORIZE {
        let (a, at1) = take_str_exec(b, 0)?;
        let (w, at2) = take_str_exec(b, at1)?;
        let (pw, at3) = take_str_exec(b, at2)?;
        let (v, at4) = take_version_exec(b, at3)?;
        if at4 == len {
            Some(ProverMessage::Authorize(a, w, pw, v))
        } else {
            None
        }
    } else if id == ID_AUTHORIZE_RESULT {
        if len == 0 {
            return None;
        }
        let (r, p) = take_opt_str_exec(b, 1)?;
        if p == len {
            Some(ProverMessage::AuthorizeResult(b[0] == 1, r))
        } else {
            None
        }
    } else if id == ID_NOTIFY {
        let (t, at1) = take_blob_exec(b, 0)?;
        let (target, at2) = take_int_exec(b, at1, 8)?;
        if at2 == len {
            Some(ProverMessage::Notify(t, target))
        } else {
            None
        }
    } else if id == ID_SUBMIT {
        let (h, at1) = take_int_exec(b, 0, 4)?;
        let (n, at2) = take_blob_exec(b, at1)?;
        let (pr, at3) = take_blob_exec(b, at2)?;
        proof {
            lemma_le_value_bound(b@.subrange(0, 4));
            lemma_pow256_values();
        }
        if at3 == len {
            Some(ProverMessage::Submit(h as u32, n, pr))
        } else {
            None
        }
    } else if id == ID_SUBMIT_RESULT {
        let (c, at1) = take_int_exec(b, 0, 4)?;
        if c >= 4 {
            return None;
        }
        let code = Code::try_from_ordinal(c as u32)?;
        let (r, at2) = take_opt_str_exec(b, at1)?;
        if at2 == len {
            Some(ProverMessage::SubmitResult(code, r))
        } else {
            None
        }
    } else if id == ID_CANARY {
        if len == 0 {
            Some(ProverMessage::Canary)
        } else {
            None
        }
    } else if id == ID_PROOF_RATE {
        let (r, p) = take_int_exec(b, 0, 8)?;
        if p == len {
            Some(ProverMessage::ProofRate(r))
        } else {
            None
        }
    } else {
        None
    }
}

impl ProverMessage {
    /// Decodes `[id] ++ payload` in the binary format.
    pub fn deserialize(body: &[u8]) -> (r: Result<ProverMessage, DecodeError>)
        ensures
            decoded_view(r) == binary_decoded(body@),
    {
        if body.len() == 0 {
            return Err(DecodeError::Malformed);
        }
        let id = body[0];
        if id > 6 {
            return Err(DecodeError::UnknownMessageId(id));
        }
        let payload = copy_range(body, 1, body.len());
        assert(payload@ =~= body@.drop_first());
        match parse_binary_exec(id, payload.as_slice()) {
            Some(m) => Ok(m),
            None => Err(DecodeError::Malformed),
        }
    }
}

/// Every length that the message's payload writes fits its eight-byte prefix.
pub open spec fn wire_sized(m: MessageSpec) -> bool {
    match m {
        MessageSpec::Authorize(a, w, p, _) => encode_utf8(a).len() < pow256(8) && encode_utf8(w).len()
            < pow256(8) && encode_utf8(p).len() < pow256(8),
        MessageSpec::AuthorizeResult(_, r) => opt_sized(r),
        MessageSpec::Notify(t, _) => t.len() < pow256(8),
        MessageSpec::Submit(_, n, p) => n.len() < pow256(8) && p.len() < pow256(8),
        MessageSpec::SubmitResult(_, r) => opt_sized(r),
        _ => true,
    }
}

pub open spec fn opt_sized(o: Option<Seq<char>>) -> bool {
    match o {
        Some(s) => encode_utf8(s).len() < pow256(8),
        None => true,
    }
}

proof fn lemma_take_int_at(pre: Seq<u8>, v: nat, n: nat, suf: Seq<u8>)
    requires
        v < pow256(n),
    ensures
        take_int(pre + le_bytes(v, n) + suf, pre.len() as int, n) == Some((v, (pre.len() + n) as int)),
{
    let b = pre + le_bytes(v, n) + suf;
    lemma_le_bytes_len(v, n);
    assert(b.subrange(pre.len() as int, pre.len() + n as int) =~= le_bytes(v, n));
    lemma_le_round_trip(v, n);
}

proof fn lemma_take_blob_at(pre: Seq<u8>, x: Seq<u8>, suf: Seq<u8>)
    requires
        x.len() < pow256(8),
    ensures
        take_blob(pre + blob_field(x) + suf, pre.len() as int) == Some((x, (pre.len() + 8 + x.len()) as int)),
{
    let b = pre + blob_field(x) + suf;
    lemma_le_bytes_len(x.len(), 8);
    assert(b =~= pre + le_bytes(x.len(), 8) + (x + suf));
    lemma_take_int_at(pre, x.len(), 8, x + suf);
    assert(b.subrange(pre.len() + 8 as int, pre.len() + 8 + x.len() as int) =~= x);
}

proof fn lemma_take_str_at(pre: Seq<u8>, s: Seq<char>, suf: Seq<u8>)
    requires
        encode_utf8(s).len() < pow256(8),
    ensures
        take_str(pre + str_field(s) + suf, pre.len() as int) == Some(
            (s, (pre.len() + str_field(s).len()) as int),
        ),
{
    lemma_take_blob_at(pre, encode_utf8(s), suf);
    lemma_le_bytes_len(encode_utf8(s).len(), 8);
    encode_utf8_valid_utf8(s);
    encode_utf8_decode_utf8(s);
}

proof fn lemma_take_opt_str_at(pre: Seq<u8>, o: Option<Seq<char>>, suf: Seq<u8>)
    requires
        opt_sized(o),
    ensures
        take_opt_str(pre + opt_str_field(o) + suf, pre.len() as int) == Some(
            (o, (pre.len() + opt_str_field(o).len()) as int),
        ),
{
    let b = pre + opt_str_field(o) + suf;
    assert(b[pre.len() as int] == opt_str_field(o)[0]);
    match o {
        Some(s) => {
            assert(b =~= (pre + seq![1u8]) + str_field(s) + suf);
            lemma_take_str_at(pre + seq![1u8], s, suf);
        },
        None => {},
    }
}

proof fn lemma_take_version_at(pre: Seq<u8>, v: u16, suf: Seq<u8>)
    ensures
        take_version(pre + blob_field(decimal(v as nat)) + suf, pre.len() as int) == Some(
            (v, (pre.len() + blob_field(decimal(v as nat)).len()) as int),
        ),
{
    lemma_decimal_len(v as nat);
    lemma_pow256_values();
    lemma_take_blob_at(pre, decimal(v as nat), suf);
    lemma_le_bytes_len(decimal(v as nat).len(), 8);
    lemma_decimal_parses(v as nat);
}

proof fn lemma_decimal_len(n: nat)
    ensures
        decimal(n).len() <= n + 1,
    decreases n,
{
    if n >= 10 {
        lemma_decimal_len(n / 10);
    }
}

proof fn lemma_authorize_round_trip(a: Seq<char>, w: Seq<char>, p: Seq<char>, v: u16)
    requires
        wire_sized(MessageSpec::Authorize(a, w, p, v)),
    ensures
        parse_authorize(binary_payload(MessageSpec::Authorize(a, w, p, v))) == Some(
            MessageSpec::Authorize(a, w, p, v),
        ),
{
    let e = Seq::<u8>::empty();
    let b = binary_payload(MessageSpec::Authorize(a, w, p, v));
    let f1 = str_field(a);
    let f2 = str_field(w);
    let f3 = str_field(p);
    let f4 = blob_field(decimal(v as nat));
    assert(b =~= e + f1 + (f2 + f3 + f4));
    lemma_take_str_at(e, a, f2 + f3 + f4);
    assert(b =~= f1 + f2 + (f3 + f4));
    lemma_take_str_at(f1, w, f3 + f4);
    assert(b =~= (f1 + f2) + f3 + f4);
    lemma_take_str_at(f1 + f2, p, f4);
    assert(b =~= (f1 + f2 + f3) + f4 + e);
    lemma_take_version_at(f1 + f2 + f3, v, e);
}

proof fn lemma_submit_round_trip(h: u32, n: Seq<u8>, p: Seq<u8>)
    requires
        wire_sized(MessageSpec::Submit(h, n, p)),
    ensures
        parse_submit(binary_payload(MessageSpec::Submit(h, n, p))) == Some(
            MessageSpec::Submit(h, n, p),
        ),
{
    let e = Seq::<u8>::empty();
    let b = binary_payload(MessageSpec::Submit(h, n, p));
    let f1 = le_bytes(h as nat, 4);
    lemma_pow256_values();
    lemma_le_bytes_len(h as nat, 4);
    assert(b =~= e + f1 + (blob_field(n) + blob_field(p)));
    lemma_take_int_at(e, h as nat, 4, blob_field(n) + blob_field(p));
    lemma_le_bytes_len(n.len(), 8);
    lemma_le_bytes_len(p.len(), 8);
    assert(b =~= f1 + blob_field(n) + blob_field(p));
    lemma_take_blob_at(f1, n, blob_field(p));
    assert(b =~= (f1 + blob_field(n)) + blob_field(p) + e);
    lemma_take_blob_at(f1 + blob_field(n), p, e);
}

proof fn lemma_submit_result_round_trip(c: Code, r: Option<Seq<char>>)
    requires
        opt_sized(r),
    ensures
        parse_submit_result(binary_payload(MessageSpec::SubmitResult(c, r))) == Some(
            MessageSpec::SubmitResult(c, r),
        ),
{
    let e = Seq::<u8>::empty();
    let b = binary_payload(MessageSpec::SubmitResult(c, r));
    let f1 = le_bytes(c.ordinal() as nat, 4);
    lemma_pow256_values();
    lemma_le_bytes_len(c.ordinal() as nat, 4);
    assert(b =~= e + f1 + opt_str_field(r));
    lemma_take_int_at(e, c.ordinal() as nat, 4, opt_str_field(r));
    assert(b =~= f1 + opt_str_field(r) + e);
    lemma_take_opt_str_at(f1, r, e);
}

proof fn lemma_other_round_trip(m: MessageSpec)
    requires
        wire_sized(m),
        !(m is Authorize),
        !(m is Submit),
        !(m is SubmitResult),
    ensures
        parse_binary(m.kind_id(), binary_payload(m)) == Some(m),
{
    let e = Seq::<u8>::empty();
    let b = binary_payload(m);
    lemma_pow256_values();
    match m {
        MessageSpec::AuthorizeResult(ok, r) => {
            assert(b =~= seq![flag_byte(ok)] + opt_str_field(r) + e);
            lemma_take_opt_str_at(seq![flag_byte(ok)], r, e);
            assert(b[0] == flag_byte(ok));
            assert((b[0] == 1) == ok);
            assert(b.len() > 0);
            assert(take_opt_str(b, 1) == Some((r, b.len() as int)));
            assert(parse_authorize_result(b) == Some(m));
        },
        MessageSpec::Notify(t, target) => {
            lemma_le_bytes_len(t.len(), 8);
            lemma_le_bytes_len(target as nat, 8);
            assert(b =~= e + blob_field(t) + le_bytes(target as nat, 8));
            lemma_take_blob_at(e, t, le_bytes(target as nat, 8));
            assert(b =~= blob_field(t) + le_bytes(target as nat, 8) + e);
            lemma_take_int_at(blob_field(t), target as nat, 8, e);
            assert(parse_notify(b) == Some(m));
        },
        MessageSpec::ProofRate(r) => {
            lemma_le_bytes_len(r as nat, 8);
            assert(b =~= e + le_bytes(r as nat, 8) + e);
            lemma_take_int_at(e, r as nat, 8, e);
            assert(parse_proof_rate(b) == Some(m));
        },
        _ => {},
    }
}

/// Decoding the binary payload of a message gives the message back.
pub proof fn lemma_binary_round_trip(m: MessageSpec)
    requires
        wire_sized(m),
    ensures
        parse_binary(m.kind_id(), binary_payload(m)) == Some(m),
        binary_decoded(seq![m.kind_id()] + binary_payload(m)) == Ok::<MessageSpec, DecodeError>(m),
{
    match m {
        MessageSpec::Authorize(a, w, p, v) => lemma_authorize_round_trip(a, w, p, v),
        MessageSpec::Submit(h, n, p) => lemma_submit_round_trip(h, n, p),
        MessageSpec::SubmitResult(c, r) => lemma_submit_result_round_trip(c, r),
        _ => lemma_other_round_trip(m),
    }
    assert((seq![m.kind_id()] + binary_payload(m)).drop_first() =~= binary_payload(m));
}

} // verus!
