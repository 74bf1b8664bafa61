use bytes::BytesMut;
use pool_client::codec::{decode, encode, MAX_FRAME_LEN};
use pool_client::message::{Code, DecodeError, EncodeError, ProverMessage};

fn samples() -> Vec<ProverMessage> {
    vec![
        ProverMessage::Authorize("addr1".to_string(), "worker1".to_string(), String::new(), 1),
        ProverMessage::Authorize("acct".to_string(), "w\"x\n".to_string(), "pw".to_string(), 65535),
        ProverMessage::AuthorizeResult(true, None),
        ProverMessage::AuthorizeResult(false, Some("denied".to_string())),
        ProverMessage::Notify(vec![1, 2, 3, 255], 5000),
        ProverMessage::Submit(100, vec![7; 32], vec![9, 8, 7]),
        ProverMessage::SubmitResult(Code::Success, None),
        ProverMessage::SubmitResult(Code::InvalidProof, Some("bad".to_string())),
        ProverMessage::SubmitResult(Code::Stale, None),
        ProverMessage::SubmitResult(Code::ProxyException, Some("relay down".to_string())),
        ProverMessage::ProofRate(12345),
        ProverMessage::Canary,
    ]
}

fn body(m: &ProverMessage, payload: Vec<u8>) -> Vec<u8> {
    let mut b = vec![m.id()];
    b.extend_from_slice(&payload);
    b
}

#[test]
fn binary_round_trip_every_kind() {
    for m in samples() {
        let mut payload = Vec::new();
        m.serialize_into(&mut payload);
        assert_eq!(ProverMessage::deserialize(&body(&m, payload)), Ok(m.clone()));
    }
}

#[test]
fn hybrid_round_trip_every_kind() {
    for m in samples() {
        let mut payload = Vec::new();
        m.serialize_into_json(&mut payload);
        assert_eq!(ProverMessage::deserialize_json(&body(&m, payload)), Ok(m.clone()));
    }
}

#[test]
fn frame_round_trip_every_kind() {
    for m in samples() {
        let mut buf = BytesMut::new();
        assert_eq!(encode(&m, &mut buf), Ok(()));
        assert_eq!(decode(&mut buf), Ok(Some(m.clone())));
        assert!(buf.is_empty());
    }
}

#[test]
fn proof_rate_frame_bytes() {
    let mut buf = BytesMut::new();
    encode(&ProverMessage::ProofRate(12345), &mut buf).unwrap();
    assert_eq!(buf.to_vec(), vec![9, 0, 0, 0, 6, 0x39, 0x30, 0, 0, 0, 0, 0, 0]);
}

#[test]
fn submit_result_frame_bytes() {
    let mut buf = BytesMut::new();
    encode(&ProverMessage::SubmitResult(Code::Stale, Some("x".to_string())), &mut buf).unwrap();
    assert_eq!(buf.to_vec(), vec![15, 0, 0, 0, 4, 2, 0, 0, 0, 1, 1, 0, 0, 0, 0, 0, 0, 0, b'x']);
}

#[test]
fn authorize_frame_writes_version_as_text() {
    let m = ProverMessage::Authorize("addr1".to_string(), "worker1".to_string(), String::new(), 1);
    let mut buf = BytesMut::new();
    encode(&m, &mut buf).unwrap();
    let text = br#"["addr1","worker1","","1"]"#;
    assert_eq!(buf[0..4], ((text.len() + 1) as u32).to_le_bytes());
    assert_eq!(buf[4], 0);
    assert_eq!(&buf[5..], &text[..]);
}

#[test]
fn authorize_result_hybrid_bytes() {
    let m = ProverMessage::AuthorizeResult(true, Some("ok".to_string()));
    let mut out = Vec::new();
    m.serialize_into_json(&mut out);
    assert_eq!(out, b"\x01\x01\"ok\"".to_vec());
}

#[test]
fn binary_version_is_decimal_text() {
    let m = ProverMessage::Authorize(String::new(), String::new(), String::new(), 307);
    let mut out = Vec::new();
    m.serialize_into(&mut out);
    assert_eq!(out[24..], [3, 0, 0, 0, 0, 0, 0, 0, b'3', b'0', b'7']);
}

#[test]
fn split_frame_needs_more_until_whole() {
    for m in samples() {
        let mut frame = BytesMut::new();
        encode(&m, &mut frame).unwrap();
        for k in 0..frame.len() {
            let mut buf = BytesMut::from(&frame[..k]);
            assert_eq!(decode(&mut buf), Ok(None));
            assert_eq!(&buf[..], &frame[..k]);
            buf.extend_from_slice(&frame[k..]);
            assert_eq!(decode(&mut buf), Ok(Some(m.clone())));
            assert!(buf.is_empty());
            assert_eq!(decode(&mut buf), Ok(None));
        }
    }
}

#[test]
fn oversize_frame_rejected() {
    let mut buf = BytesMut::from(&(128u32 * 1024 * 1024 + 1).to_le_bytes()[..]);
    buf.extend_from_slice(&[6, 1, 2, 3]);
    let before = buf.clone();
    assert_eq!(decode(&mut buf), Err(DecodeError::MessageTooLong));
    assert_eq!(buf, before);
    let mut max = BytesMut::from(&u32::MAX.to_le_bytes()[..]);
    assert_eq!(decode(&mut max), Err(DecodeError::MessageTooLong));
}

#[test]
fn limit_frame_is_not_oversize() {
    let mut buf = BytesMut::from(&MAX_FRAME_LEN.to_le_bytes()[..]);
    buf.extend_from_slice(&[6]);
    assert_eq!(decode(&mut buf), Ok(None));
    assert_eq!(buf.len(), 5);
}

#[test]
fn unknown_kind_consumed_then_next_frame() {
    let mut buf = BytesMut::from(&[4u8, 0, 0, 0, 9, 0xaa, 0xbb, 0xcc][..]);
    encode(&ProverMessage::ProofRate(7), &mut buf).unwrap();
    assert_eq!(decode(&mut buf), Err(DecodeError::UnknownMessageId(9)));
    assert_eq!(buf.len(), 13);
    assert_eq!(decode(&mut buf), Ok(Some(ProverMessage::ProofRate(7))));
    assert!(buf.is_empty());
}

#[test]
fn malformed_payload_consumed() {
    let mut buf = BytesMut::from(&[3u8, 0, 0, 0, 6, 1, 2][..]);
    buf.extend_from_slice(&[1, 0, 0, 0, 5]);
    assert_eq!(decode(&mut buf), Err(DecodeError::Malformed));
    assert_eq!(decode(&mut buf), Ok(Some(ProverMessage::Canary)));
}

#[test]
fn empty_frame_is_malformed() {
    let mut buf = BytesMut::from(&[0u8, 0, 0, 0][..]);
    assert_eq!(decode(&mut buf), Err(DecodeError::Malformed));
    assert!(buf.is_empty());
}

#[test]
fn bad_code_ordinal_is_malformed() {
    assert_eq!(ProverMessage::deserialize(&[4, 4, 0, 0, 0, 0]), Err(DecodeError::Malformed));
    assert_eq!(ProverMessage::deserialize(&[4, 3, 0, 0, 0, 0]), Ok(ProverMessage::SubmitResult(Code::ProxyException, None)));
}

#[test]
fn invalid_utf8_is_malformed() {
    let body = [1u8, 1, 1, 2, 0, 0, 0, 0, 0, 0, 0, 0xff, 0xfe];
    assert_eq!(ProverMessage::deserialize(&body), Err(DecodeError::Malformed));
}

#[test]
fn bad_json_is_malformed() {
    assert_eq!(ProverMessage::deserialize_json(b"\x00[\"a\",\"b\""), Err(DecodeError::Malformed));
    assert_eq!(ProverMessage::deserialize_json(b"\x00[\"a\",\"b\",\"\",\"x1\"]"), Err(DecodeError::Malformed));
    assert_eq!(ProverMessage::deserialize_json(b""), Err(DecodeError::Malformed));
}

#[test]
fn hybrid_submit_result_reads_code_name() {
    let body = b"\x04\"Stale\"\x01\"late\"";
    assert_eq!(
        ProverMessage::deserialize_json(body),
        Ok(ProverMessage::SubmitResult(Code::Stale, Some("late".to_string())))
    );
    assert_eq!(ProverMessage::deserialize_json(b"\x04\"Nope\"\x00"), Err(DecodeError::Malformed));
}

#[test]
fn unknown_id_in_either_format() {
    assert_eq!(ProverMessage::deserialize(&[7]), Err(DecodeError::UnknownMessageId(7)));
    assert_eq!(ProverMessage::deserialize_json(&[200, 1]), Err(DecodeError::UnknownMessageId(200)));
}

#[test]
fn frame_too_long_refused() {
    let reason = "a".repeat(MAX_FRAME_LEN as usize);
    let mut buf = BytesMut::from(&[1u8, 2][..]);
    let r = encode(&ProverMessage::SubmitResult(Code::Success, Some(reason)), &mut buf);
    assert_eq!(r, Err(EncodeError::FrameTooLong));
    assert_eq!(&buf[..], &[1u8, 2][..]);
}

#[test]
fn ids_and_names() {
    let ids: Vec<u8> = samples().iter().map(|m| m.id()).collect();
    assert_eq!(ids, vec![0, 0, 1, 1, 2, 3, 4, 4, 4, 4, 6, 5]);
    assert_eq!(ProverMessage::ProofRate(1).name(), "ProofRate");
    assert_eq!(ProverMessage::Canary.name(), "Canary");
    assert_eq!(ProverMessage::version(), 1);
}

fn json_of(m: ProverMessage) -> Vec<u8> {
    let mut out = Vec::new();
    m.serialize_into_json(&mut out);
    out
}

#[test]
fn hybrid_payload_bytes() {
    assert_eq!(json_of(ProverMessage::AuthorizeResult(false, Some("x".to_string()))), vec![0, 1, 34, 120, 34]);
    assert_eq!(json_of(ProverMessage::SubmitResult(Code::Success, None)), b"\"Success\"\x00".to_vec());
    assert_eq!(json_of(ProverMessage::ProofRate(100)), b"100".to_vec());
    assert_eq!(json_of(ProverMessage::Canary), Vec::<u8>::new());
    assert_eq!(json_of(ProverMessage::Notify(vec![1, 20], 5000)), b"[[1,20],5000]".to_vec());
    assert_eq!(json_of(ProverMessage::Notify(vec![], 0)), b"[[],0]".to_vec());
    assert_eq!(json_of(ProverMessage::Submit(100, vec![7], vec![8, 9])), b"[100,[7],[8,9]]".to_vec());
}

#[test]
fn small_hybrid_frames() {
    let mut buf = BytesMut::new();
    encode(&ProverMessage::AuthorizeResult(true, None), &mut buf).unwrap();
    assert_eq!(buf.to_vec(), vec![3, 0, 0, 0, 1, 1, 0]);
    let mut buf = BytesMut::new();
    encode(&ProverMessage::Canary, &mut buf).unwrap();
    assert_eq!(buf.to_vec(), vec![1, 0, 0, 0, 5]);
}

#[test]
fn encode_appends_after_pending_bytes() {
    let mut buf = BytesMut::new();
    encode(&ProverMessage::Canary, &mut buf).unwrap();
    encode(&ProverMessage::ProofRate(1), &mut buf).unwrap();
    assert_eq!(buf.to_vec(), vec![1, 0, 0, 0, 5, 9, 0, 0, 0, 6, 1, 0, 0, 0, 0, 0, 0, 0]);
    assert_eq!(decode(&mut buf), Ok(Some(ProverMessage::Canary)));
    assert_eq!(decode(&mut buf), Ok(Some(ProverMessage::ProofRate(1))));
}
