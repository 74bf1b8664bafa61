use bytes::BytesMut;
use pool_client::client::{Action, Client, Event, Phase, Session, OUTBOUND_CAPACITY};
use pool_client::codec::{decode, encode};
use pool_client::message::{Code, DecodeError, ProverMessage};

fn client() -> Client {
    Client::init(None, Some("worker1".to_string()), Some("addr1".to_string()), "pool:4000".to_string())
}

fn auth() -> ProverMessage {
    ProverMessage::Authorize("addr1".to_string(), "worker1".to_string(), String::new(), 1)
}

#[test]
fn authorization_prefers_account() {
    let c = Client::init(Some("acct".to_string()), Some("w".to_string()), Some("addr".to_string()), String::new());
    assert_eq!(
        c.authorization(),
        Some(ProverMessage::Authorize("acct".to_string(), "w".to_string(), String::new(), 1))
    );
    assert_eq!(client().authorization(), Some(auth()));
    assert_eq!(client().server(), "pool:4000");
}

#[test]
fn authorization_needs_worker_and_identity() {
    let no_worker = Client::init(Some("a".to_string()), None, None, String::new());
    assert_eq!(no_worker.authorization(), None);
    assert!(Session::new(&no_worker).is_none());
    let no_identity = Client::init(None, Some("w".to_string()), None, String::new());
    assert_eq!(no_identity.authorization(), None);
}

#[test]
fn connect_failure_backs_off() {
    let mut s = Session::new(&client()).unwrap();
    assert_eq!(s.phase(), Phase::Connecting);
    assert!(!s.may_send());
    assert_eq!(s.step(Event::ConnectFailed), vec![Action::Backoff]);
    assert_eq!(s.phase(), Phase::Connecting);
}

#[test]
fn reconnect_drops_backlog_before_sending() {
    let mut s = Session::new(&client()).unwrap();
    assert_eq!(s.step(Event::Connected), vec![Action::Send(auth()), Action::DiscardPending]);
    assert_eq!(s.phase(), Phase::Authenticating);
    assert!(s.may_send());
    assert_eq!(s.step(Event::Closed), vec![Action::Backoff]);
    assert_eq!(s.phase(), Phase::Connecting);
    assert_eq!(s.step(Event::Connected), vec![Action::Send(auth()), Action::DiscardPending]);
}

#[test]
fn rejected_authorization_reconnects() {
    let mut s = Session::new(&client()).unwrap();
    s.step(Event::Connected);
    let r = s.step(Event::Received(ProverMessage::AuthorizeResult(false, Some("no".to_string()))));
    assert_eq!(r, vec![Action::Backoff]);
    assert_eq!(s.phase(), Phase::Connecting);
    s.step(Event::Connected);
    assert_eq!(s.step(Event::Received(ProverMessage::AuthorizeResult(false, None))), vec![Action::Backoff]);
}

#[test]
fn repeated_authorize_result_while_active_is_ignored() {
    let mut s = Session::new(&client()).unwrap();
    s.step(Event::Connected);
    s.step(Event::Received(ProverMessage::AuthorizeResult(true, None)));
    assert_eq!(s.phase(), Phase::Active);
    assert_eq!(s.step(Event::Received(ProverMessage::AuthorizeResult(false, None))), vec![]);
    assert_eq!(s.phase(), Phase::Active);
}

#[test]
fn decode_errors_keep_or_drop_connection() {
    let mut s = Session::new(&client()).unwrap();
    s.step(Event::Connected);
    s.step(Event::Received(ProverMessage::AuthorizeResult(true, None)));
    assert_eq!(s.step(Event::ReadFailed(DecodeError::Malformed)), vec![]);
    assert_eq!(s.step(Event::ReadFailed(DecodeError::UnknownMessageId(9))), vec![]);
    assert_eq!(s.phase(), Phase::Active);
    assert_eq!(s.step(Event::ReadFailed(DecodeError::MessageTooLong)), vec![Action::Backoff]);
    assert_eq!(s.phase(), Phase::Connecting);
}

#[test]
fn unhandled_kinds_are_dropped() {
    let mut s = Session::new(&client()).unwrap();
    s.step(Event::Connected);
    assert_eq!(s.step(Event::Received(ProverMessage::ProofRate(3))), vec![]);
    assert_eq!(s.step(Event::Received(ProverMessage::Canary)), vec![]);
    assert_eq!(s.phase(), Phase::Authenticating);
}

#[test]
fn inbound_before_connecting_is_ignored() {
    let mut s = Session::new(&client()).unwrap();
    assert_eq!(s.step(Event::Received(ProverMessage::Notify(vec![1], 2))), vec![]);
    assert_eq!(s.step(Event::Closed), vec![]);
    assert_eq!(s.phase(), Phase::Connecting);
}

#[test]
fn submit_results_forwarded_except_proxy_faults() {
    let mut s = Session::new(&client()).unwrap();
    s.step(Event::Connected);
    s.step(Event::Received(ProverMessage::AuthorizeResult(true, None)));
    let r = s.step(Event::Received(ProverMessage::SubmitResult(Code::Stale, Some("late".to_string()))));
    assert_eq!(r, vec![Action::ShareResult(false, Some("late".to_string()))]);
    let r = s.step(Event::Received(ProverMessage::SubmitResult(Code::InvalidProof, None)));
    assert_eq!(r, vec![Action::ShareResult(false, None)]);
    let r = s.step(Event::Received(ProverMessage::SubmitResult(Code::ProxyException, None)));
    assert_eq!(r, vec![]);
}

#[test]
fn outbound_queue_capacity_is_enforced() {
    assert_eq!(OUTBOUND_CAPACITY, 1024);
    let (tx, _rx) = tokio::sync::mpsc::channel::<ProverMessage>(OUTBOUND_CAPACITY);
    for i in 0..1024u64 {
        assert!(tx.try_send(ProverMessage::ProofRate(i)).is_ok());
    }
    assert!(tx.try_send(ProverMessage::ProofRate(1024)).is_err());
}

fn over_the_wire(m: ProverMessage) -> ProverMessage {
    let mut buf = BytesMut::new();
    encode(&m, &mut buf).unwrap();
    decode(&mut buf).unwrap().unwrap()
}

#[test]
fn end_to_end_session() {
    let mut s = Session::new(&client()).unwrap();
    let acts = s.step(Event::Connected);
    let sent = match &acts[0] {
        Action::Send(m) => over_the_wire(m.clone()),
        other => panic!("unexpected {:?}", other),
    };
    assert_eq!(sent, ProverMessage::Authorize("addr1".to_string(), "worker1".to_string(), String::new(), 1));
    assert_eq!(acts[1], Action::DiscardPending);

    let reply = over_the_wire(ProverMessage::AuthorizeResult(true, None));
    assert_eq!(s.step(Event::Received(reply)), vec![]);
    assert_eq!(s.phase(), Phase::Active);

    let template_x = vec![0xde, 0xad, 0xbe, 0xef];
    let work = over_the_wire(ProverMessage::Notify(template_x.clone(), 5000));
    assert_eq!(s.step(Event::Received(work)), vec![Action::NewWork(template_x, 5000)]);

    let submit = ProverMessage::Submit(100, vec![1, 2, 3], vec![4, 5, 6]);
    assert_eq!(over_the_wire(submit.clone()), submit);

    let ok = over_the_wire(ProverMessage::SubmitResult(Code::Success, None));
    assert_eq!(s.step(Event::Received(ok)), vec![Action::ShareResult(true, None)]);

    let fault = over_the_wire(ProverMessage::SubmitResult(Code::ProxyException, Some("relay down".to_string())));
    assert_eq!(s.step(Event::Received(fault)), vec![]);
}
