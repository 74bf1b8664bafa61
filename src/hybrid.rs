//! The hybrid payload format: flags as single bytes, strings and structured
//! fields as JSON text, the protocol version as the JSON string of its decimal
//! digits.

use vstd::prelude::*;
use vstd::utf8::{decode_utf8, decode_utf8_encode_utf8, encode_utf8};
use crate::binary::{decoded_view, flag_byte, known_id};
use crate::bytes_util::{append_bytes, copy_range, string_from_utf8, utf8_bytes};
use crate::le::{
    decimal, decimal_bytes, lemma_decimal_parses, lemma_decimal_utf8, parse_decimal, parse_decimal_u16,
};
use crate::message::{
    opt_view, Code, DecodeError, MessageSpec, ProverMessage, ID_AUTHORIZE, ID_AUTHORIZE_RESULT,
    ID_CANARY, ID_NOTIFY, ID_PROOF_RATE, ID_SUBMIT, ID_SUBMIT_RESULT,
};

verus! {

/// JSON text that serde_json writes for a string.
pub uninterp spec fn json_text_of(s: Seq<char>) -> Seq<u8>;

/// The elements of a JSON array of numbers, without the brackets.
pub open spec fn json_number_list(s: Seq<u8>) -> Seq<u8>
    decreases s.len(),
{
    if s.len() == 0 {
        Seq::empty()
    } else if s.len() == 1 {
        decimal(s[0] as nat)
    } else {
        decimal(s[0] as nat) + seq![44u8] + json_number_list(s.drop_first())
    }
}

/// Compact JSON for a byte vector: an array of numbers.
pub open spec fn json_byte_array(s: Seq<u8>) -> Seq<u8> {
    seq![91u8] + json_number_list(s) + seq![93u8]
}

/// Compact JSON for a tuple of four strings.
pub open spec fn json_quad_of(a: Seq<char>, b: Seq<char>, c: Seq<char>, d: Seq<char>) -> Seq<u8> {
    seq![91u8] + json_text_of(a) + seq![44u8] + json_text_of(b) + seq![44u8] + json_text_of(c)
        + seq![44u8] + json_text_of(d) + seq![93u8]
}

/// Compact JSON for a (byte vector, u64) tuple.
pub open spec fn json_notify_of(t: Seq<u8>, target: u64) -> Seq<u8> {
    seq![91u8] + json_byte_array(t) + seq![44u8] + decimal(target as nat) + seq![93u8]
}

/// Compact JSON for a (u32, byte vector, byte vector) tuple.
pub open spec fn json_submit_of(h: u32, n: Seq<u8>, p: Seq<u8>) -> Seq<u8> {
    seq![91u8] + decimal(h as nat) + seq![44u8] + json_byte_array(n) + seq![44u8] + json_byte_array(p)
        + seq![93u8]
}

/// The string that serde_json reads from a whole JSON text, if it holds one.
pub uninterp spec fn json_text_parsed(b: Seq<u8>) -> Option<Seq<char>>;

/// The four strings that serde_json reads from a whole JSON text, if it holds them.
pub uninterp spec fn json_quad_parsed(b: Seq<u8>) -> Option<(Seq<char>, Seq<char>, Seq<char>, Seq<char>)>;

/// The (byte vector, u64) tuple that serde_json reads from a whole JSON text.
pub uninterp spec fn json_notify_parsed(b: Seq<u8>) -> Option<(Seq<u8>, u64)>;

/// The (u32, byte vector, byte vector) tuple that serde_json reads from a whole JSON text.
pub uninterp spec fn json_submit_parsed(b: Seq<u8>) -> Option<(u32, Seq<u8>, Seq<u8>)>;

/// The u64 that serde_json reads from a whole JSON text.
pub uninterp spec fn json_u64_parsed(b: Seq<u8>) -> Option<u64>;

/// The string that serde_json reads at the start of `b`, and the offset where it ends.
pub uninterp spec fn json_leading_text_parsed(b: Seq<u8>) -> Option<(Seq<char>, nat)>;

/// Relies on `serde_json::to_vec` for a `&str`. Writing a string into a
/// `Vec` cannot fail, and serde_json reads the string back from its text,
/// alone or at the start of any longer input.
#[verifier::external_body]
fn json_text(s: &str) -> (r: Option<Vec<u8>>)
    ensures
        r is Some,
        r matches Some(v) ==> v@ == json_text_of(s@),
        r matches Some(v) ==> json_text_parsed(v@) == Some(s@),
        r matches Some(v) ==> forall|rest: Seq<u8>|
            json_leading_text_parsed(#[trigger] (v@ + rest)) == Some((s@, v@.len())),
{
    serde_json::to_vec(s).ok()
}

/// Relies on `serde_json::to_vec` for a tuple of four `&str`: it cannot fail,
/// it writes a compact array of the four strings, and serde_json reads them
/// back from the text.
#[verifier::external_body]
fn json_quad(a: &str, b: &str, c: &str, d: &str) -> (r: Option<Vec<u8>>)
    ensures
        r is Some,
        r matches Some(v) ==> v@ == json_quad_of(a@, b@, c@, d@),
        r matches Some(v) ==> json_quad_parsed(v@) == Some((a@, b@, c@, d@)),
{
    serde_json::to_vec(&(a, b, c, d)).ok()
}

/// Relies on `serde_json::to_vec` for a `(&Vec<u8>, u64)` tuple: it cannot
/// fail, it writes a compact array (the bytes as an array of numbers), and
/// serde_json reads the tuple back from the text.
#[verifier::external_body]
fn json_notify(t: &Vec<u8>, target: u64) -> (r: Option<Vec<u8>>)
    ensures
        r is Some,
        r matches Some(v) ==> v@ == json_notify_of(t@, target),
        r matches Some(v) ==> json_notify_parsed(v@) == Some((t@, target)),
{
    serde_json::to_vec(&(t, target)).ok()
}

/// Relies on `serde_json::to_vec` for a `(u32, &Vec<u8>, &Vec<u8>)` tuple: it
/// cannot fail, it writes a compact array (byte vectors as arrays of numbers),
/// and serde_json reads the tuple back from the text.
#[verifier::external_body]
fn json_submit(h: u32, n: &Vec<u8>, p: &Vec<u8>) -> (r: Option<Vec<u8>>)
    ensures
        r is Some,
        r matches Some(v) ==> v@ == json_submit_of(h, n@, p@),
        r matches Some(v) ==> json_submit_parsed(v@) == Some((h, n@, p@)),
{
    serde_json::to_vec(&(h, n, p)).ok()
}

/// Relies on `serde_json::from_slice::<String>`.
#[verifier::external_body]
fn parse_json_text(b: &[u8]) -> (r: Option<String>)
    ensures
        opt_view(r) == json_text_parsed(b@),
{
    serde_json::from_slice::<String>(b).ok()
}

/// Relies on `serde_json::from_slice::<(String, String, String, String)>`.
#[verifier::external_body]
fn parse_json_quad(b: &[u8]) -> (r: Option<(String, String, String, String)>)
    ensures
        match r {
            Some((a, w, p, v)) => json_quad_parsed(b@) == Some((a@, w@, p@, v@)),
            None => json_quad_parsed(b@) is None,
        },
{
    serde_json::from_slice::<(String, String, String, String)>(b).ok()
}

/// Relies on `serde_json::from_slice::<(Vec<u8>, u64)>`.
#[verifier::external_body]
fn parse_json_notify(b: &[u8]) -> (r: Option<(Vec<u8>, u64)>)
    ensures
        match r {
            Some((t, target)) => json_notify_parsed(b@) == Some((t@, target)),
            None => json_notify_parsed(b@) is None,
        },
{
    serde_json::from_slice::<(Vec<u8>, u64)>(b).ok()
}

/// Relies on `serde_json::from_slice::<(u32, Vec<u8>, Vec<u8>)>`.
#[verifier::external_body]
fn parse_json_submit(b: &[u8]) -> (r: Option<(u32, Vec<u8>, Vec<u8>)>)
    ensures
        match r {
            Some((h, n, p)) => json_submit_parsed(b@) == Some((h, n@, p@)),
            None => json_submit_parsed(b@) is None,
        },
{
    serde_json::from_slice::<(u32, Vec<u8>, Vec<u8>)>(b).ok()
}

/// Relies on `serde_json::to_vec` for a `u64`: it cannot fail, it writes the
/// decimal digits, and serde_json reads the number back from them.
#[verifier::external_body]
fn json_u64(x: u64) -> (r: Option<Vec<u8>>)
    ensures
        r is Some,
        r matches Some(v) ==> v@ == decimal(x as nat),
        r matches Some(v) ==> json_u64_parsed(v@) == Some(x),
{
    serde_json::to_vec(&x).ok()
}

/// Relies on `serde_json::from_slice::<u64>`.
#[verifier::external_body]
fn parse_json_u64(b: &[u8]) -> (r: Option<u64>)
    ensures
        r == json_u64_parsed(b@),
{
    serde_json::from_slice::<u64>(b).ok()
}

/// Relies on serde_json's `StreamDeserializer`: the first string in `b` and
/// `byte_offset`, the position right after it.
#[verifier::external_body]
fn parse_json_leading_text(b: &[u8]) -> (r: Option<(String, usize)>)
    ensures
        match r {
            Some((s, n)) => json_leading_text_parsed(b@) == Some((s@, n as nat)) && n <= b@.len(),
            None => json_leading_text_parsed(b@) is None,
        },
{
    let mut stream = serde_json::Deserializer::from_slice(b).into_iter::<String>();
    match stream.next() {
        Some(Ok(s)) => Some((s, stream.byte_offset())),
        _ => None,
    }
}

/// The JSON string of a code: its variant name.
pub open spec fn code_name(c: Code) -> Seq<char> {
    match c {
        Code::Success => "Success"@,
        Code::InvalidProof => "InvalidProof"@,
        Code::Stale => "Stale"@,
        Code::ProxyException => "ProxyException"@,
    }
}

pub open spec fn code_of_name(n: Seq<char>) -> Option<Code> {
    if n == "Success"@ {
        Some(Code::Success)
    } else if n == "InvalidProof"@ {
        Some(Code::InvalidProof)
    } else if n == "Stale"@ {
        Some(Code::Stale)
    } else if n == "ProxyException"@ {
        Some(Code::ProxyException)
    } else {
        None
    }
}

pub open spec fn json_opt_field(o: Option<Seq<char>>) -> Seq<u8> {
    match o {
        Some(s) => seq![1u8] + json_text_of(s),
        None => seq![0u8],
    }
}

/// The hybrid payload of a message (what follows the kind id).
pub open spec fn hybrid_payload(m: MessageSpec) -> Seq<u8> {
    match m {
        MessageSpec::Authorize(a, w, p, v) => json_quad_of(a, w, p, decode_utf8(decimal(v as nat))),
        MessageSpec::AuthorizeResult(ok, r) => seq![flag_byte(ok)] + json_opt_field(r),
        MessageSpec::Notify(t, target) => json_notify_of(t, target),
        MessageSpec::Submit(h, n, p) => json_submit_of(h, n, p),
        MessageSpec::SubmitResult(c, r) => json_text_of(code_name(c)) + json_opt_field(r),
        MessageSpec::ProofRate(x) => decimal(x as nat),
        MessageSpec::Canary => Seq::empty(),
    }
}

/// A one-byte presence flag followed by JSON text of a string, or by nothing.
pub open spec fn parse_json_opt(b: Seq<u8>) -> Option<Option<Seq<char>>> {
    if b.len() == 0 {
        None
    } else if b[0] == 1 {
        match json_text_parsed(b.drop_first()) {
            Some(s) => Some(Some(s)),
            None => None,
        }
    } else if b.len() == 1 {
        Some(None)
    } else {
        None
    }
}

/// The message that a hybrid payload of kind `id` holds.
pub open spec fn parse_hybrid(id: u8, b: Seq<u8>) -> Option<MessageSpec> {
    if id == ID_AUTHORIZE {
        match json_quad_parsed(b) {
            Some((a, w, p, v)) => match parse_decimal_u16(encode_utf8(v)) {
                Some(ver) => Some(MessageSpec::Authorize(a, w, p, ver)),
                None => None,
            },
            None => None,
        }
    } else if id == ID_AUTHORIZE_RESULT {
        if b.len() == 0 {
            None
        } else {
            match parse_json_opt(b.drop_first()) {
                Some(r) => Some(MessageSpec::AuthorizeResult(b[0] == 1, r)),
                None => None,
            }
        }
    } else if id == ID_NOTIFY {
        match json_notify_parsed(b) {
            Some((t, target)) => Some(MessageSpec::Notify(t, target)),
            None => None,
        }
    } else if id == ID_SUBMIT {
        match json_submit_parsed(b) {
            Some((h, n, p)) => Some(MessageSpec::Submit(h, n, p)),
            None => None,
        }
    } else if id == ID_SUBMIT_RESULT {
        match json_leading_text_parsed(b) {
            Some((name, off)) => match code_of_name(name) {
                Some(c) => match parse_json_opt(b.subrange(off as int, b.len() as int)) {
                    Some(r) => Some(MessageSpec::SubmitResult(c, r)),
                    None => None,
                },
                None => None,
            },
            None => None,
        }
    } else if id == ID_CANARY {
        if b.len() == 0 {
            Some(MessageSpec::Canary)
        } else {
            None
        }
    } else if id == ID_PROOF_RATE {
        match json_u64_parsed(b) {
            Some(x) => Some(MessageSpec::ProofRate(x)),
            None => None,
        }
    } else {
        None
    }
}

/// What decoding `[id] ++ payload` in the hybrid format gives.
pub open spec fn hybrid_decoded(body: Seq<u8>) -> Result<MessageSpec, DecodeError> {
    if body.len() == 0 {
        Err(DecodeError::Malformed)
    } else if !known_id(body[0]) {
        Err(DecodeError::UnknownMessageId(body[0]))
    } else {
        match parse_hybrid(body[0], body.drop_first()) {
            Some(m) => Ok(m),
            None => Err(DecodeError::Malformed),
        }
    }
}

proof fn lemma_code_name_parses(c: Code)
    ensures
        code_of_name(code_name(c)) == Some(c),
{
    reveal_strlit("Success");
    reveal_strlit("InvalidProof");
    reveal_strlit("Stale");
    reveal_strlit("ProxyException");
    assert("Success"@.len() == 7);
    assert("InvalidProof"@.len() == 12);
    assert("Stale"@.len() == 5);
    assert("ProxyException"@.len() == 14);
}

fn code_name_exec(c: Code) -> (r: &'static str)
    ensures
        r@ == code_name(c),
{
    match c {
        Code::Success => "Success",
        Code::InvalidProof => "InvalidProof",
        Code::Stale => "Stale",
        Code::ProxyException => "ProxyException",
    }
}

fn code_of_name_exec(n: &String) -> (r: Option<Code>)
    ensures
        r == code_of_name(n@),
{
    if *n == "Success".to_owned() {
        Some(Code::Success)
    } else if *n == "InvalidProof".to_owned() {
        Some(Code::InvalidProof)
    } else if *n == "Stale".to_owned() {
        Some(Code::Stale)
    } else if *n == "ProxyException".to_owned() {
        Some(Code::ProxyException)
    } else {
        None
    }
}

fn push_json_opt(out: &mut Vec<u8>, o: &Option<String>)
    ensures
        final(out)@ == old(out)@ + json_opt_field(opt_view(*o)),
        parse_json_opt(json_opt_field(opt_view(*o))) == Some(opt_view(*o)),
{
    match o {
        Some(s) => {
            let j = json_text(s.as_str()).unwrap();
            out.push(1u8);
            append_bytes(out, j.as_slice());
            assert(json_opt_field(opt_view(*o)).drop_first() =~= j@);
        },
        None => {
            out.push(0u8);
        },
    }
    assert(out@ =~= old(out)@ + json_opt_field(opt_view(*o)));
}

fn hybrid_payload_exec(m: &ProverMessage) -> (r: Vec<u8>)
    ensures
        r@ == hybrid_payload(m@),
        parse_hybrid(m@.kind_id(), r@) == Some(m@),
{
    let mut out: Vec<u8> = Vec::new();
    match m {
        ProverMessage::Authorize(account, worker, password, version) => {
            proof {
                lemma_decimal_utf8(*version as nat);
            }
            let v = string_from_utf8(decimal_bytes(*version as u64)).unwrap();
            proof {
                decode_utf8_encode_utf8(decimal(*version as nat));
                lemma_decimal_parses(*version as nat);
            }
            json_quad(account.as_str(), worker.as_str(), password.as_str(), v.as_str()).unwrap()
        },
        ProverMessage::AuthorizeResult(ok, reason) => {
            out.push(if *ok { 1u8 } else { 0u8 });
            push_json_opt(&mut out, reason);
            assert(out@ =~= hybrid_payload(m@));
            assert(out@.drop_first() =~= json_opt_field(opt_view(*reason)));
            out
        },
        ProverMessage::Notify(template, target) => json_notify(template, *target).unwrap(),
        ProverMessage::Submit(height, nonce, proof) => json_submit(*height, nonce, proof).unwrap(),
        ProverMessage::SubmitResult(code, reason) => {
            let j = json_text(code_name_exec(*code)).unwrap();
            append_bytes(&mut out, j.as_slice());
            push_json_opt(&mut out, reason);
            let ghost tail = json_opt_field(opt_view(*reason));
            assert(out@ =~= j@ + tail);
            assert(json_leading_text_parsed(j@ + tail) == Some((code_name(*code), j@.len())));
            assert(out@.subrange(j@.len() as int, out@.len() as int) =~= tail);
            proof {
                lemma_code_name_parses(*code);
            }
            out
        },
        ProverMessage::ProofRate(rate) => json_u64(*rate).unwrap(),
        ProverMessage::Canary => out,
    }
}

fn parse_json_opt_exec(b: &[u8]) -> (r: Option<Option<String>>)
    ensures
        match r {
            Some(o) => parse_json_opt(b@) == Some(opt_view(o)),
            None => parse_json_opt(b@) is None,
        },
{
    if b.len() == 0 {
        None
    } else if b[0] == 1 {
        let rest = copy_range(b, 1, b.len());
        assert(rest@ =~= b@.drop_first());
        match parse_json_text(rest.as_slice()) {
            Some(s) => Some(Some(s)),
            None => None,
        }
    } else if b.len() == 1 {
        Some(None)
    } else {
        None
    }
}

fn parse_hybrid_exec(id: u8, b: &[u8]) -> (r: Option<ProverMessage>)
    ensures
        match r {
            Some(m) => parse_hybrid(id, b@) == Some(m@),
            None => parse_hybrid(id, b@) is None,
        },
{
    if id == ID_AUTHORIZE {
        let (a, w, p, v) = parse_json_quad(b)?;
        let ver = parse_decimal(utf8_bytes(&v))?;
        Some(ProverMessage::Authorize(a, w, p, ver))
    } else if id == ID_AUTHORIZE_RESULT {
        if b.len() == 0 {
            return None;
        }
        let rest = copy_range(b, 1, b.len());
        assert(rest@ =~= b@.drop_first());
        let r = parse_json_opt_exec(rest.as_slice())?;
        Some(ProverMessage::AuthorizeResult(b[0] == 1, r))
    } else if id == ID_NOTIFY {
        let (t, target) = parse_json_notify(b)?;
        Some(ProverMessage::Notify(t, target))
    } else if id == ID_SUBMIT {
        let (h, n, p) = parse_json_submit(b)?;
        Some(ProverMessage::Submit(h, n, p))
    } else if id == ID_SUBMIT_RESULT {
        let (name, off) = parse_json_leading_text(b)?;
        let c = code_of_name_exec(&name)?;
        let rest = copy_range(b, off, b.len());
        let r = parse_json_opt_exec(rest.as_slice())?;
        Some(ProverMessage::SubmitResult(c, r))
    } else if id == ID_CANARY {
        if b.len() == 0 {
            Some(ProverMessage::Canary)
        } else {
            None
        }
    } else if id == ID_PROOF_RATE {
        let x = parse_json_u64(b)?;
        Some(ProverMessage::ProofRate(x))
    } else {
        None
    }
}

impl ProverMessage {
    /// Appends the hybrid payload of this message to `out`. Decoding
    /// `[id] ++` what it appends gives this message back.
    pub fn serialize_into_json(&self, out: &mut Vec<u8>)
        ensures
            final(out)@ == old(out)@ + hybrid_payload(self@),
            hybrid_decoded(seq![self@.kind_id()] + hybrid_payload(self@)) == Ok::<
                MessageSpec,
                DecodeError,
            >(self@),
    {
        let payload = hybrid_payload_exec(self);
        assert((seq![self@.kind_id()] + payload@).drop_first() =~= payload@);
        append_bytes(out, payload.as_slice());
    }

    /// Decodes `[id] ++ payload` in the hybrid format.
    pub fn deserialize_json(body: &[u8]) -> (r: Result<ProverMessage, DecodeError>)
        ensures
            decoded_view(r) == hybrid_decoded(body@),
    {
        if body.len() == 0 {
            return Err(DecodeError::Malformed);
        }
        let id = body[0];
        if id > 6 {
            return Err(DecodeError::UnknownMessageId(id));
        }
        let payload = copy_range(body, 1, body.len());
        assert(payload@ =~= body@.drop_first());
        match parse_hybrid_exec(id, payload.as_slice()) {
            Some(m) => Ok(m),
            None => Err(DecodeError::Malformed),
        }
    }
}

} // verus!
