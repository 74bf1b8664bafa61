//! The message taxonomy of the protocol.

use vstd::prelude::*;

verus! {

/// Outcome of a submission, or a fault of the relay in between.
#[derive(Clone, Copy, Debug, PartialEq, Eq, Structural)]
pub enum Code {
    Success,
    InvalidProof,
    Stale,
    ProxyException,
}

impl Code {
    /// Position of the variant in declaration order; the binary format writes it.
    pub open spec fn ordinal(self) -> u32 {
        match self {
            Code::Success => 0,
            Code::InvalidProof => 1,
            Code::Stale => 2,
            Code::ProxyException => 3,
        }
    }

    pub open spec fn from_ordinal(n: u32) -> Option<Code> {
        if n == 0 {
            Some(Code::Success)
        } else if n == 1 {
            Some(Code::InvalidProof)
        } else if n == 2 {
            Some(Code::Stale)
        } else if n == 3 {
            Some(Code::ProxyException)
        } else {
            None
        }
    }

    pub fn to_ordinal(&self) -> (r: u32)
        ensures
            r == self.ordinal(),
            Code::from_ordinal(r) == Some(*self),
    {
        match self {
            Code::Success => 0,
            Code::InvalidProof => 1,
            Code::Stale => 2,
            Code::ProxyException => 3,
        }
    }

    pub fn try_from_ordinal(n: u32) -> (r: Option<Code>)
        ensures
            r == Code::from_ordinal(n),
    {
        if n == 0 {
            Some(Code::Success)
        } else if n == 1 {
            Some(Code::InvalidProof)
        } else if n == 2 {
            Some(Code::Stale)
        } else if n == 3 {
            Some(Code::ProxyException)
        } else {
            None
        }
    }
}

/// One protocol message. Work templates, nonces and proofs are opaque blobs
/// held in their own byte encoding.
#[derive(Clone, Debug, PartialEq, Eq)]
pub enum ProverMessage {
    /// (identity, worker, password, protocol version)
    Authorize(String, String, String, u16),
    AuthorizeResult(bool, Option<String>),
    /// (work template, pool target)
    Notify(Vec<u8>, u64),
    /// (block height, nonce, proof)
    Submit(u32, Vec<u8>, Vec<u8>),
    /// (code, reason)
    SubmitResult(Code, Option<String>),
    /// Proofs per second times 100.
    ProofRate(u64),
    Canary,
}

/// A message as a mathematical value.
pub enum MessageSpec {
    Authorize(Seq<char>, Seq<char>, Seq<char>, u16),
    AuthorizeResult(bool, Option<Seq<char>>),
    Notify(Seq<u8>, u64),
    Submit(u32, Seq<u8>, Seq<u8>),
    SubmitResult(Code, Option<Seq<char>>),
    ProofRate(u64),
    Canary,
}

pub open spec fn opt_view(o: Option<String>) -> Option<Seq<char>> {
    match o {
        Some(s) => Some(s@),
        None => None,
    }
}

impl View for ProverMessage {
    type V = MessageSpec;

    open spec fn view(&self) -> MessageSpec {
        match self {
            ProverMessage::Authorize(a, w, p, v) => MessageSpec::Authorize(a@, w@, p@, *v),
            ProverMessage::AuthorizeResult(ok, r) => MessageSpec::AuthorizeResult(*ok, opt_view(*r)),
            ProverMessage::Notify(t, target) => MessageSpec::Notify(t@, *target),
            ProverMessage::Submit(h, n, p) => MessageSpec::Submit(*h, n@, p@),
            ProverMessage::SubmitResult(c, r) => MessageSpec::SubmitResult(*c, opt_view(*r)),
            ProverMessage::ProofRate(r) => MessageSpec::ProofRate(*r),
            ProverMessage::Canary => MessageSpec::Canary,
        }
    }
}

/// Why a frame could not be turned into a message.
#[derive(Clone, Copy, Debug, PartialEq, Eq, Structural)]
pub enum DecodeError {
    /// The declared frame length is over the limit; the stream cannot go on.
    MessageTooLong,
    /// The frame names a kind id that no message has.
    UnknownMessageId(u8),
    /// The payload does not hold a message of its kind.
    Malformed,
}

/// Why a message could not be framed.
#[derive(Clone, Copy, Debug, PartialEq, Eq, Structural)]
pub enum EncodeError {
    /// The frame would be longer than a frame may be.
    FrameTooLong,
}

/// The protocol version this client speaks.
pub const VERSION: u16 = 1;

/// Kind ids on the wire.
pub const ID_AUTHORIZE: u8 = 0;
pub const ID_AUTHORIZE_RESULT: u8 = 1;
pub const ID_NOTIFY: u8 = 2;
pub const ID_SUBMIT: u8 = 3;
pub const ID_SUBMIT_RESULT: u8 = 4;
pub const ID_CANARY: u8 = 5;
pub const ID_PROOF_RATE: u8 = 6;

impl MessageSpec {
    pub open spec fn kind_id(self) -> u8 {
        match self {
            MessageSpec::Authorize(..) => 0,
            MessageSpec::AuthorizeResult(..) => 1,
            MessageSpec::Notify(..) => 2,
            MessageSpec::Submit(..) => 3,
            MessageSpec::SubmitResult(..) => 4,
            MessageSpec::Canary => 5,
            MessageSpec::ProofRate(..) => 6,
        }
    }
}

impl ProverMessage {
    pub fn version() -> (r: u16)
        ensures
            r == VERSION,
    {
        VERSION
    }

    /// The kind id written in front of the payload.
    pub fn id(&self) -> (r: u8)
        ensures
            r == self@.kind_id(),
    {
        match self {
            ProverMessage::Authorize(..) => ID_AUTHORIZE,
            ProverMessage::AuthorizeResult(..) => ID_AUTHORIZE_RESULT,
            ProverMessage::Notify(..) => ID_NOTIFY,
            ProverMessage::Submit(..) => ID_SUBMIT,
            ProverMessage::SubmitResult(..) => ID_SUBMIT_RESULT,
            ProverMessage::ProofRate(..) => ID_PROOF_RATE,
            ProverMessage::Canary => ID_CANARY,
        }
    }

    pub fn name(&self) -> (r: &'static str)
        ensures
            r@ == kind_name(self@.kind_id()),
    {
        match self {
            ProverMessage::Authorize(..) => "Authorize",
            ProverMessage::AuthorizeResult(..) => "AuthorizeResult",
            ProverMessage::Notify(..) => "Notify",
            ProverMessage::Submit(..) => "Submit",
            ProverMessage::SubmitResult(..) => "SubmitResult",
            ProverMessage::ProofRate(..) => "ProofRate",
            ProverMessage::Canary => "Canary",
        }
    }
}

/// The name of each kind, for logs.
pub open spec fn kind_name(id: u8) -> Seq<char> {
    if id == 0 {
        "Authorize"@
    } else if id == 1 {
        "AuthorizeResult"@
    } else if id == 2 {
        "Notify"@
    } else if id == 3 {
        "Submit"@
    } else if id == 4 {
        "SubmitResult"@
    } else if id == 5 {
        "Canary"@
    } else {
        "ProofRate"@
    }
}

} // verus!
