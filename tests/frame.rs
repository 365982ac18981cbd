use metrics::frame::{Frame, FrameError, FrameType, MAX_FRAME_LEN};

fn json_value(text: &str) -> serde_json::Value {
    serde_json::from_str(text).unwrap()
}

#[test]
fn test_from_json() {
    let value = json_value("{\"result\":true}");

    let frame = Frame::from_json(&value);
    assert_eq!(frame.typ, FrameType::Json);
    assert_eq!(frame.data.len(), 15);
}

#[test]
fn test_as_valid_json() {
    let frame = Frame::new(FrameType::Json, b"{\"result\":true}".to_vec());

    let value = frame.json();
    assert_eq!(value.is_ok(), true);
}

#[test]
fn test_as_valid_json_invalid_frame_type() {
    let frame = Frame::new(FrameType::Invalid, b"{\"result\":true}".to_vec());

    let value = frame.json();
    assert_eq!(value.is_err(), true);
    assert!(matches!(value, Err(FrameError::InvalidFrameType(0))));
}

#[test]
fn test_as_invalid_json() {
    let frame = Frame::new(FrameType::Json, vec![0, 1, 2, 3, 4, 5]);

    let value = frame.json();
    assert_eq!(value.is_err(), true);
    match value {
        Err(FrameError::Json(msg)) => {
            assert_eq!(msg, "Error(\"expected value\", line: 1, column: 1)");
        }
        other => panic!("unexpected result: {:?}", other),
    }
}

#[test]
fn test_deserialize_invalid_frame_type() {
    let frame = Frame::new(FrameType::Invalid, b"{\"source\":\"test_valid\"}".to_vec());

    let body = frame.json_body();
    assert!(matches!(body, Err(FrameError::InvalidFrameType(0))));
}

#[test]
fn json_body_of_json_frame_is_its_data() {
    let frame = Frame::new(FrameType::Json, b"{\"source\":\"test_valid\"}".to_vec());
    assert_eq!(frame.json_body().unwrap(), b"{\"source\":\"test_valid\"}");
}

#[test]
fn frame_type_conversions() {
    assert_eq!(FrameType::from(1u8), FrameType::Json);
    assert_eq!(FrameType::from(0u8), FrameType::Invalid);
    assert_eq!(FrameType::from(7u8), FrameType::Invalid);
    assert_eq!(u8::from(FrameType::Json), 1);
    assert_eq!(u8::from(FrameType::Invalid), 0);
}

#[test]
fn encode_writes_tag_big_endian_length_and_body() {
    let frame = Frame::new(FrameType::Json, b"{\"source\":\"test_source\"}".to_vec());
    let bytes = frame.encode();
    assert_eq!(&bytes[..5], &[1, 0, 0, 0, 0x18]);
    assert_eq!(&bytes[5..], b"{\"source\":\"test_source\"}");

    let big = Frame::new(FrameType::Json, vec![b'x'; 0x0102]);
    assert_eq!(&big.encode()[..5], &[1, 0, 0, 1, 2]);
}

#[test]
fn handshake_ack_frame_bytes() {
    let ack = Frame::from_json(&json_value("{\"ready\":true}"));
    let mut expected = vec![1u8, 0, 0, 0, 0x0E];
    expected.extend_from_slice(b"{\"ready\":true}");
    assert_eq!(ack.encode(), expected);
}

#[test]
fn decode_reads_back_what_encode_wrote() {
    for body in [Vec::new(), b"[]".to_vec(), vec![0xFFu8; 300]] {
        let frame = Frame::new(FrameType::Json, body.clone());
        let mut bytes = frame.encode();
        let used = bytes.len();
        bytes.extend_from_slice(&[1, 2, 3]);
        let (back, n) = Frame::decode(&bytes).unwrap();
        assert_eq!(back.typ, FrameType::Json);
        assert_eq!(back.data, body);
        assert_eq!(n, used);
    }
}

#[test]
fn decode_refuses_unknown_tag() {
    let r = Frame::decode(&[0, 0, 0, 0, 2, b'{', b'}']);
    assert!(matches!(r, Err(FrameError::InvalidFrameType(0))));
    let r = Frame::decode(&[9]);
    assert!(matches!(r, Err(FrameError::InvalidFrameType(9))));
    assert!(matches!(Frame::parse_tag(2), Err(FrameError::InvalidFrameType(2))));
    assert!(matches!(Frame::parse_tag(1), Ok(FrameType::Json)));
}

#[test]
fn decode_refuses_short_input() {
    assert!(matches!(Frame::decode(&[]), Err(FrameError::Truncated)));
    assert!(matches!(Frame::decode(&[1, 0, 0]), Err(FrameError::Truncated)));
    assert!(matches!(Frame::decode(&[1, 0, 0, 0, 3, b'a']), Err(FrameError::Truncated)));
    assert!(matches!(Frame::parse_length(&[0, 0]), Err(FrameError::Truncated)));
}

#[test]
fn decode_refuses_lengths_above_the_ceiling() {
    let n = MAX_FRAME_LEN + 1;
    let head = n.to_be_bytes();
    let r = Frame::decode(&[1, head[0], head[1], head[2], head[3]]);
    match r {
        Err(FrameError::TooLong(m)) => assert_eq!(m, n),
        other => panic!("unexpected result: {:?}", other),
    }
    assert_eq!(Frame::parse_length(&MAX_FRAME_LEN.to_be_bytes()).unwrap(), MAX_FRAME_LEN as usize);
    assert_eq!(Frame::parse_length(&[0, 0, 0, 0x17]).unwrap(), 0x17);
}
