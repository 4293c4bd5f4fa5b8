use ciborium::Value;
use mxc_service::frame::{
    decode_frame, from_le_bytes, payload_length, read_frame, to_le_bytes, write_frame, FrameError,
};
use mxc_service::proto::{
    AddPolicyResponse, GetVersionResponse, PolicyId, RemovePolicyResponse, Response, Rule,
    RuleVerb, ServiceError, Transport, MAX_MESSAGE_BYTES,
};

fn text(s: &str) -> Value {
    Value::Text(s.to_string())
}

fn encode(value: &Value) -> Result<Vec<u8>, String> {
    let mut bytes = Vec::new();
    match ciborium::into_writer(value, &mut bytes) {
        Ok(()) => Ok(bytes),
        Err(e) => Err(e.to_string()),
    }
}

fn decode(payload: &[u8]) -> Result<Value, String> {
    ciborium::from_reader(payload).map_err(|e| e.to_string())
}

#[test]
fn roundtrip_get_version() {
    let req = text("GetVersion");
    let mut buf = Vec::new();
    write_frame(&mut buf, encode(&req)).unwrap();
    let mut pos = 0;
    let payload = read_frame(&buf, &mut pos).unwrap();
    let decoded = decode_frame(decode(&payload)).unwrap();
    assert_eq!(decoded, text("GetVersion"));
    assert_eq!(pos, buf.len());
}

#[test]
fn roundtrip_add_policy() {
    let rule = Value::Map(vec![
        (text("verb"), text("Allow")),
        (text("transport"), text("Tcp")),
        (text("address"), text("140.82.112.0")),
        (text("prefix_length"), Value::Integer(20.into())),
        (text("port"), Value::Integer(443.into())),
    ]);
    let req = Value::Map(vec![(
        text("AddPolicy"),
        Value::Map(vec![
            (text("ac_sid_sddl"), text("S-1-15-2-1-2-3-4-5-6-7")),
            (text("default"), text("Block")),
            (text("rules"), Value::Array(vec![rule])),
            (text("sandbox_pid"), Value::Integer(1234.into())),
        ]),
    )]);
    let mut buf = Vec::new();
    write_frame(&mut buf, encode(&req)).unwrap();
    let mut pos = 0;
    let payload = read_frame(&buf, &mut pos).unwrap();
    let decoded = decode_frame(decode(&payload)).unwrap();
    assert_eq!(decoded, req);
    let body = &decoded.as_map().unwrap()[0];
    assert_eq!(body.0, text("AddPolicy"));
    let fields = body.1.as_map().unwrap();
    assert_eq!(fields[0].1, text("S-1-15-2-1-2-3-4-5-6-7"));
    assert_eq!(fields[2].1.as_array().unwrap().len(), 1);
}

#[test]
fn rejects_oversized_frame() {
    let huge = vec![0u8; MAX_MESSAGE_BYTES + 1];
    let len_prefix = (huge.len() as u32).to_le_bytes();
    let mut buf = Vec::new();
    buf.extend_from_slice(&len_prefix);
    buf.extend_from_slice(&huge);
    let mut pos = 0;
    let err = read_frame(&buf, &mut pos).unwrap_err();
    assert!(matches!(err, FrameError::TooLarge { .. }));
    assert_eq!(err.message(), "payload too large: 65537 bytes (max 65536)");
    assert_eq!(pos, 4);
}

#[test]
fn frame_is_length_then_payload() {
    let mut buf = vec![9u8];
    write_frame(&mut buf, Ok(vec![1, 2, 3])).unwrap();
    assert_eq!(buf, vec![9, 3, 0, 0, 0, 1, 2, 3]);
}

#[test]
fn largest_payload_reads_back() {
    let payload = vec![0xabu8; MAX_MESSAGE_BYTES];
    let mut buf = Vec::new();
    write_frame(&mut buf, Ok(payload.clone())).unwrap();
    buf.push(77);
    let mut pos = 0;
    assert_eq!(read_frame(&buf, &mut pos).unwrap(), payload);
    assert_eq!(pos, MAX_MESSAGE_BYTES + 4);
    assert_eq!(&buf[..4], &[0, 0, 1, 0]);
}

#[test]
fn write_errors_leave_the_buffer_alone() {
    let mut buf = vec![5u8];
    let e = write_frame(&mut buf, Ok(vec![0u8; MAX_MESSAGE_BYTES + 1])).unwrap_err();
    assert!(matches!(e, FrameError::TooLarge { got: 65537 }));
    let e = write_frame(&mut buf, Err("no room".to_string())).unwrap_err();
    assert_eq!(e.message(), "encode: no room");
    assert_eq!(buf, vec![5u8]);
}

#[test]
fn short_frames_are_io_errors() {
    let mut pos = 0;
    let e = read_frame(&[1, 0, 0], &mut pos).unwrap_err();
    assert_eq!(e.message(), "io: failed to fill whole buffer");
    assert_eq!(pos, 3);
    let mut pos = 1;
    let e = read_frame(&[9, 4, 0, 0, 0, 1, 2, 3], &mut pos).unwrap_err();
    assert!(matches!(e, FrameError::Io(_)));
    assert_eq!(pos, 8);
}

#[test]
fn undecodable_payload_is_a_decode_error() {
    let decoded: Result<Value, String> = decode(&[0xff]);
    assert!(decoded.is_err());
    let e = decode_frame::<Value>(Err("bad".to_string())).unwrap_err();
    assert_eq!(e.message(), "decode: bad");
}

#[test]
fn lengths_read_back() {
    for n in [0u32, 1, 255, 256, 65535, 65536, 0x0102_0304, u32::MAX] {
        assert_eq!(to_le_bytes(n), n.to_le_bytes());
        assert_eq!(from_le_bytes(to_le_bytes(n)), n);
    }
    assert_eq!(payload_length([0, 0, 1, 0]).unwrap(), 65536);
    assert!(payload_length([1, 0, 1, 0]).is_err());
}

#[test]
fn policy_id_text_is_hyphenated() {
    let id = PolicyId(0x67e5504410b1426f9247bb680e5fe0c8);
    assert_eq!(id.text(), "67e55044-10b1-426f-9247-bb680e5fe0c8");
}

#[test]
fn random_ids_are_version_four_and_differ() {
    let a = PolicyId::new_random();
    let b = PolicyId::new_random();
    assert_ne!(a, b);
    let t = a.text();
    assert_eq!(t.len(), 36);
    assert_eq!(t.as_bytes()[14], b'4');
    assert!(matches!(t.as_bytes()[19], b'8' | b'9' | b'a' | b'b'));
}

#[test]
fn service_error_messages() {
    let id = PolicyId(0);
    let cases = vec![
        (ServiceError::InvalidAcSid("x".into()), "invalid AppContainer SID: x"),
        (
            ServiceError::InvalidRule { index: 3, reason: "r".into() },
            "invalid rule (rule #3): r",
        ),
        (
            ServiceError::TooManyRules { max: 256, got: 300 },
            "too many rules (max 256, got 300)",
        ),
        (
            ServiceError::UnknownPolicy(id),
            "unknown policy id: 00000000-0000-0000-0000-000000000000",
        ),
        (
            ServiceError::WfpFailure { api: "A".into(), hresult: 5, message: "m".into() },
            "WFP operation failed: A -> 0x00000005 (m)",
        ),
        (ServiceError::Unauthorized("u".into()), "caller authentication failed: u"),
        (ServiceError::Internal("i".into()), "internal service error: i"),
        (ServiceError::ResourceExhausted("e".into()), "resource exhausted: e"),
    ];
    for (e, want) in cases {
        assert_eq!(e.message(), want);
    }
}

#[test]
fn debug_texts_are_those_of_derived_debug() {
    let rule = Rule {
        verb: RuleVerb::Allow,
        transport: Transport::Tcp,
        address: Some("a\"b\u{1}é".into()),
        prefix_length: Some(20),
        port: None,
    };
    assert_eq!(rule.debug_text(), format!("{:?}", rule));
    let bare = Rule {
        verb: RuleVerb::Block,
        transport: Transport::Any,
        address: None,
        prefix_length: None,
        port: Some(443),
    };
    assert_eq!(bare.debug_text(), format!("{:?}", bare));
    let udp = Rule {
        verb: RuleVerb::Block,
        transport: Transport::Udp,
        address: Some("::1".into()),
        prefix_length: None,
        port: Some(53),
    };
    assert_eq!(
        udp.debug_text(),
        "Rule { verb: Block, transport: Udp, address: Some(\"::1\"), prefix_length: None, port: Some(53) }"
    );
}

#[test]
fn response_debug_texts() {
    let id = PolicyId(0x67e5504410b1426f9247bb680e5fe0c8);
    let version = Response::Version(GetVersionResponse {
        service_version: "0.7.0".into(),
        ipc_major: 0,
        ipc_minor: 1,
    });
    assert_eq!(
        version.debug_text(),
        "Version(GetVersionResponse { service_version: \"0.7.0\", ipc_major: 0, ipc_minor: 1 })"
    );
    let added = Response::AddPolicy(AddPolicyResponse { policy_id: id, filters_installed: 3 });
    assert_eq!(
        added.debug_text(),
        "AddPolicy(AddPolicyResponse { policy_id: PolicyId(67e55044-10b1-426f-9247-bb680e5fe0c8), filters_installed: 3 })"
    );
    let removed = Response::RemovePolicy(RemovePolicyResponse { filters_removed: 2 });
    assert_eq!(
        removed.debug_text(),
        "RemovePolicy(RemovePolicyResponse { filters_removed: 2 })"
    );
    for e in [
        ServiceError::InvalidAcSid("x\\".into()),
        ServiceError::InvalidRule { index: 3, reason: "r".into() },
        ServiceError::TooManyRules { max: 256, got: 300 },
        ServiceError::WfpFailure { api: "A".into(), hresult: 5, message: "m".into() },
        ServiceError::Unauthorized("u".into()),
        ServiceError::Internal("i".into()),
        ServiceError::ResourceExhausted("e".into()),
    ] {
        assert_eq!(e.debug_text(), format!("{:?}", e));
        assert_eq!(
            Response::Error(e.clone()).debug_text(),
            format!("Error({:?})", e)
        );
    }
    assert_eq!(
        ServiceError::UnknownPolicy(id).debug_text(),
        "UnknownPolicy(PolicyId(67e55044-10b1-426f-9247-bb680e5fe0c8))"
    );
}
