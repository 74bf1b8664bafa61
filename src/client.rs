//! The connection manager's decisions: what to send on connecting, how to read
//! each inbound message, when to back off and reconnect.

use vstd::prelude::*;
use crate::message::{Code, DecodeError, MessageSpec, ProverMessage, VERSION, opt_view};

verus! {

/// Outbound messages that may wait at once; producers are held back beyond it.
pub const OUTBOUND_CAPACITY: usize = 1024;

/// Seconds a connection attempt may take.
pub const CONNECT_TIMEOUT_SECS: u64 = 5;

/// Seconds to wait before connecting again.
pub const RETRY_DELAY_SECS: u64 = 5;

/// Where and as whom the client connects. The identity is the account id if
/// there is one, else the public address written as text.
pub struct Client {
    pub account: Option<String>,
    pub worker: Option<String>,
    pub address: Option<String>,
    pub server: String,
}

impl Client {
    pub open spec fn identity(&self) -> Option<Seq<char>> {
        match self.account {
            Some(a) => Some(a@),
            None => opt_view(self.address),
        }
    }

    /// The handshake request this client sends, when it has a worker and an identity.
    pub open spec fn authorization_spec(&self) -> Option<MessageSpec> {
        match (self.identity(), self.worker) {
            (Some(id), Some(w)) => Some(MessageSpec::Authorize(id, w@, Seq::empty(), VERSION)),
            _ => None,
        }
    }

    pub fn init(
        account: Option<String>,
        worker: Option<String>,
        address: Option<String>,
        server: String,
    ) -> (r: Client)
        ensures
            r.account == account,
            r.worker == worker,
            r.address == address,
            r.server == server,
    {
        Client { account, worker, address, server }
    }

    pub fn server(&self) -> (r: &String)
        ensures
            r == &self.server,
    {
        &self.server
    }

    /// `Authorize(identity, worker, "", VERSION)`, or `None` without a worker
    /// or without an identity.
    pub fn authorization(&self) -> (r: Option<ProverMessage>)
        ensures
            match r {
                Some(m) => self.authorization_spec() == Some(m@),
                None => self.authorization_spec() is None,
            },
    {
        let worker = match &self.worker {
            Some(w) => w.clone(),
            None => return None,
        };
        let identity = match &self.account {
            Some(a) => a.clone(),
            None => match &self.address {
                Some(a) => a.clone(),
                None => return None,
            },
        };
        let password = String::new();
        Some(ProverMessage::Authorize(identity, worker, password, ProverMessage::version()))
    }
}

#[derive(Clone, Copy, Debug, PartialEq, Eq, Structural)]
pub enum Phase {
    /// No connection; the next thing to do is connect.
    Connecting,
    /// Connected, handshake sent, reply awaited.
    Authenticating,
    /// Handshake accepted.
    Active,
}

/// What happened outside since the last step.
#[derive(Clone, Debug, PartialEq, Eq)]
pub enum Event {
    Connected,
    /// The attempt failed or timed out.
    ConnectFailed,
    Received(ProverMessage),
    /// An inbound frame did not decode.
    ReadFailed(DecodeError),
    /// The remote end closed the stream.
    Closed,
}

/// What the driver does next, in order.
#[derive(Clone, Debug, PartialEq, Eq)]
pub enum Action {
    /// Write this message to the connection.
    Send(ProverMessage),
    /// Drop every message waiting in the outbound queue, without waiting.
    DiscardPending,
    /// Hand new work (template, pool target) to the prover.
    NewWork(Vec<u8>, u64),
    /// Hand a share result (accepted, reason) to the prover.
    ShareResult(bool, Option<String>),
    /// Wait `RETRY_DELAY_SECS`, then connect again.
    Backoff,
}

pub enum EventSpec {
    Connected,
    ConnectFailed,
    Received(MessageSpec),
    ReadFailed(DecodeError),
    Closed,
}

pub enum ActionSpec {
    Send(MessageSpec),
    DiscardPending,
    NewWork(Seq<u8>, u64),
    ShareResult(bool, Option<Seq<char>>),
    Backoff,
}

impl View for Event {
    type V = EventSpec;

    open spec fn view(&self) -> EventSpec {
        match self {
            Event::Connected => EventSpec::Connected,
            Event::ConnectFailed => EventSpec::ConnectFailed,
            Event::Received(m) => EventSpec::Received(m@),
            Event::ReadFailed(e) => EventSpec::ReadFailed(*e),
            Event::Closed => EventSpec::Closed,
        }
    }
}

impl View for Action {
    type V = ActionSpec;

    open spec fn view(&self) -> ActionSpec {
        match self {
            Action::Send(m) => ActionSpec::Send(m@),
            Action::DiscardPending => ActionSpec::DiscardPending,
            Action::NewWork(t, target) => ActionSpec::NewWork(t@, *target),
            Action::ShareResult(ok, r) => ActionSpec::ShareResult(*ok, opt_view(*r)),
            Action::Backoff => ActionSpec::Backoff,
        }
    }
}

pub open spec fn actions_view(v: Seq<Action>) -> Seq<ActionSpec> {
    v.map_values(|a: Action| a@)
}

/// How an inbound message is handled once connected: the actions it asks for.
pub open spec fn inbound_actions(m: MessageSpec) -> Seq<ActionSpec> {
    match m {
        MessageSpec::Notify(t, target) => seq![ActionSpec::NewWork(t, target)],
        MessageSpec::SubmitResult(c, r) => if c == Code::ProxyException {
            Seq::empty()
        } else {
            seq![ActionSpec::ShareResult(c == Code::Success, r)]
        },
        _ => Seq::empty(),
    }
}

/// The next phase and the actions, from the phase, the handshake request and the event.
pub open spec fn transition(phase: Phase, auth: MessageSpec, e: EventSpec) -> (Phase, Seq<ActionSpec>) {
    match phase {
        Phase::Connecting => match e {
            EventSpec::Connected => (
                Phase::Authenticating,
                seq![ActionSpec::Send(auth), ActionSpec::DiscardPending],
            ),
            EventSpec::ConnectFailed => (Phase::Connecting, seq![ActionSpec::Backoff]),
            _ => (Phase::Connecting, Seq::empty()),
        },
        _ => match e {
            EventSpec::Received(MessageSpec::AuthorizeResult(ok, _)) => if phase
                == Phase::Authenticating {
                if ok {
                    (Phase::Active, Seq::empty())
                } else {
                    (Phase::Connecting, seq![ActionSpec::Backoff])
                }
            } else {
                (phase, Seq::empty())
            },
            EventSpec::Received(m) => (phase, inbound_actions(m)),
            EventSpec::ReadFailed(err) => if err == DecodeError::MessageTooLong {
                (Phase::Connecting, seq![ActionSpec::Backoff])
            } else {
                (phase, Seq::empty())
            },
            EventSpec::Closed => (Phase::Connecting, seq![ActionSpec::Backoff]),
            _ => (phase, Seq::empty()),
        },
    }
}

/// One client's connection state: the phase and the handshake request it sends.
pub struct Session {
    authorization: ProverMessage,
    phase: Phase,
}

impl Session {
    pub closed spec fn auth_spec(&self) -> MessageSpec {
        self.authorization@
    }

    pub closed spec fn phase_spec(&self) -> Phase {
        self.phase
    }

    /// A session for `client`, in `Connecting`; `None` when the client has no
    /// worker or no identity to authorize with.
    pub fn new(client: &Client) -> (r: Option<Session>)
        ensures
            r is Some <==> client.authorization_spec() is Some,
            r matches Some(s) ==> Some(s.auth_spec()) == client.authorization_spec() && s.phase_spec()
                == Phase::Connecting,
    {
        match client.authorization() {
            Some(m) => Some(Session { authorization: m, phase: Phase::Connecting }),
            None => None,
        }
    }

    pub fn phase(&self) -> (r: Phase)
        ensures
            r == self.phase_spec(),
    {
        self.phase
    }

    /// Whether queued outbound messages may be written now: only while connected.
    pub fn may_send(&self) -> (r: bool)
        ensures
            r == (self.phase_spec() != Phase::Connecting),
    {
        match self.phase {
            Phase::Connecting => false,
            _ => true,
        }
    }

    /// Takes one event; returns the actions to perform, in order.
    pub fn step(&mut self, event: Event) -> (r: Vec<Action>)
        ensures
            final(self).auth_spec() == old(self).auth_spec(),
            (final(self).phase_spec(), actions_view(r@)) == transition(
                old(self).phase_spec(),
                old(self).auth_spec(),
                event@,
            ),
    {
        let mut acts: Vec<Action> = Vec::new();
        let ghost e = event@;
        match self.phase {
            Phase::Connecting => match event {
                Event::Connected => {
                    self.phase = Phase::Authenticating;
                    acts.push(Action::Send(self.authorization.clone_message()));
                    acts.push(Action::DiscardPending);
                },
                Event::ConnectFailed => {
                    acts.push(Action::Backoff);
                },
                _ => {},
            },
            _ => match event {
                Event::Received(ProverMessage::AuthorizeResult(ok, reason)) => {
                    if self.phase == Phase::Authenticating {
                        if ok {
                            self.phase = Phase::Active;
                        } else {
                            self.phase = Phase::Connecting;
                            acts.push(Action::Backoff);
                        }
                    }
                },
                Event::Received(ProverMessage::Notify(template, target)) => {
                    acts.push(Action::NewWork(template, target));
                },
                Event::Received(ProverMessage::SubmitResult(code, reason)) => {
                    match code {
                        Code::ProxyException => {},
                        _ => {
                            let accepted = match code {
                                Code::Success => true,
                                _ => false,
                            };
                            acts.push(Action::ShareResult(accepted, reason));
                        },
                    }
                },
                Event::Received(_) => {},
                Event::ReadFailed(err) => {
                    match err {
                        DecodeError::MessageTooLong => {
                            self.phase = Phase::Connecting;
                            acts.push(Action::Backoff);
                        },
                        _ => {},
                    }
                },
                Event::Closed => {
                    self.phase = Phase::Connecting;
                    acts.push(Action::Backoff);
                },
                _ => {},
            },
        }
        assert(actions_view(acts@) =~= transition(old(self).phase_spec(), old(self).auth_spec(), e).1);
        acts
    }
}

impl ProverMessage {
    /// A copy of this message.
    pub fn clone_message(&self) -> (r: ProverMessage)
        ensures
            r@ == self@,
    {
        match self {
            ProverMessage::Authorize(a, w, p, v) => ProverMessage::Authorize(a.clone(), w.clone(), p.clone(), *v),
            ProverMessage::AuthorizeResult(ok, r) => ProverMessage::AuthorizeResult(*ok, clone_opt(r)),
            ProverMessage::Notify(t, target) => ProverMessage::Notify(t.clone(), *target),
            ProverMessage::Submit(h, n, p) => ProverMessage::Submit(*h, n.clone(), p.clone()),
            ProverMessage::SubmitResult(c, r) => ProverMessage::SubmitResult(*c, clone_opt(r)),
            ProverMessage::ProofRate(x) => ProverMessage::ProofRate(*x),
            ProverMessage::Canary => ProverMessage::Canary,
        }
    }
}

fn clone_opt(o: &Option<String>) -> (r: Option<String>)
    ensures
        opt_view(r) == opt_view(*o),
{
    match o {
        Some(s) => Some(s.clone()),
        None => None,
    }
}

/// Leaving `Connecting` happens only on `Connected`, and then the handshake
/// request goes out and every message queued while disconnected is dropped,
/// before any other message can be written.
pub proof fn lemma_reconnect_discards_backlog(auth: MessageSpec, e: EventSpec)
    requires
        transition(Phase::Connecting, auth, e).0 != Phase::Connecting,
    ensures
        e is Connected,
        transition(Phase::Connecting, auth, e) == (
            Phase::Authenticating,
            seq![ActionSpec::Send(auth), ActionSpec::DiscardPending],
        ),
{
}

} // verus!
