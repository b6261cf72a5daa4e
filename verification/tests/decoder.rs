use std::sync::Arc;

use bytes::BytesMut;
use message_bus::decoder::{parts_of, BodyFrames, MessageBusCodec};
use message_bus::error::{ClientError, DecodeError};
use message_bus::message::{Data, DataError};
use serde_json::Value;

fn text(value: &Value) -> Result<String, String> {
    serde_json::from_value(value.clone()).map_err(|e| e.to_string())
}

fn request_error() -> Arc<reqwest::Error> {
    Arc::new(
        reqwest::Client::new()
            .get("no address")
            .build()
            .unwrap_err(),
    )
}

#[test]
fn decode_takes_one_frame() {
    let mut buf = BytesMut::new();
    buf.extend_from_slice(b"[1]|[2]|[3");
    let mut codec = MessageBusCodec;
    let one = codec.decode(&mut buf).unwrap().unwrap();
    assert_eq!(one, Value::from(vec![1]));
    assert_eq!(&buf[..], b"[2]|[3");
    let two = codec.decode(&mut buf).unwrap().unwrap();
    assert_eq!(two, Value::from(vec![2]));
    assert_eq!(&buf[..], b"[3");
    assert!(codec.decode(&mut buf).unwrap().is_none());
    assert_eq!(&buf[..], b"[3");
}

#[test]
fn decode_drops_a_frame_that_is_no_json() {
    let mut buf = BytesMut::new();
    buf.extend_from_slice(b"oops|true|");
    let mut codec = MessageBusCodec;
    match codec.decode(&mut buf) {
        Err(DecodeError::InvalidData(e)) => {
            assert_eq!(e.to_string(), "expected value at line 1 column 1")
        }
        _ => panic!("a frame that is no JSON is expected"),
    }
    assert_eq!(&buf[..], b"true|");
    assert_eq!(codec.decode(&mut buf).unwrap(), Some(Value::Bool(true)));
    assert!(buf.is_empty());
}

#[test]
fn empty_frame_is_no_json() {
    let mut buf = BytesMut::new();
    buf.extend_from_slice(b"|");
    assert!(MessageBusCodec.decode(&mut buf).is_err());
    assert!(buf.is_empty());
}

#[test]
fn decode_eof_drops_the_rest() {
    let mut buf = BytesMut::new();
    buf.extend_from_slice(b"[1]|");
    assert!(MessageBusCodec.decode_eof(&mut buf).unwrap().is_none());
    assert!(buf.is_empty());
}

#[test]
fn chunks_are_put_together() {
    let mut body = BodyFrames::new();
    assert!(matches!(
        body.next_frame(Ok(b"\"he")),
        Err(ClientError::Incomplete)
    ));
    assert_eq!(body.len(), 3);
    assert_eq!(
        body.next_frame(Ok(b"llo\"|nu")).unwrap(),
        Value::from("hello")
    );
    assert_eq!(body.len(), 2);
    assert_eq!(body.next_frame(Ok(b"ll|")).unwrap(), Value::Null);
    assert_eq!(body.len(), 0);
}

#[test]
fn second_frame_waits_for_the_next_chunk() {
    let mut body = BodyFrames::new();
    assert_eq!(body.next_frame(Ok(b"1|2|")).unwrap(), Value::from(1));
    assert_eq!(body.len(), 2);
    assert_eq!(body.next_frame(Ok(b"")).unwrap(), Value::from(2));
    assert!(matches!(
        body.next_frame(Ok(b"")),
        Err(ClientError::Incomplete)
    ));
}

#[test]
fn failed_chunk_changes_nothing() {
    let mut body = BodyFrames::new();
    assert!(body.next_frame(Ok(b"1")).is_err());
    let error = request_error();
    match body.next_frame(Err(error.clone())) {
        Err(ClientError::RequestError(e)) => assert!(Arc::ptr_eq(&e, &error)),
        _ => panic!("the error of the request is expected"),
    }
    assert_eq!(body.next_frame(Ok(b"|")).unwrap(), Value::from(1));
}

#[test]
fn chunk_gives_messages() {
    let chunk = br#"
                        [
                          {
                            "global_id": 12,
                            "message_id": 1,
                            "channel": "/some/channel/name",
                            "data": "Hi"
                          }
                        ]|
                        "#;
    let mut body = BodyFrames::new();
    let messages = body.next_messages(Ok(&chunk[..]), &text).unwrap();
    assert_eq!(messages.len(), 1);
    match &messages[0] {
        Data::Normal(message) => {
            assert_eq!(message.global_id, 12);
            assert_eq!(message.message_id, 1);
            assert_eq!(message.channel, "/some/channel/name");
            assert_eq!(message.data, "Hi");
        }
        Data::Status(_) => panic!("a user message is expected"),
    }
}

#[test]
fn chunk_without_messages_says_why() {
    let mut body = BodyFrames::new();
    assert!(matches!(
        body.next_messages(Ok(b"["), &text),
        Err(ClientError::Incomplete)
    ));
    match body.next_messages(Ok(b"|"), &text) {
        Err(ClientError::IOError(e)) => match &*e {
            DecodeError::InvalidData(e) => {
                assert_eq!(e.to_string(), "EOF while parsing a list at line 1 column 1")
            }
            DecodeError::InvalidMessages(_) => panic!("the frame is no JSON"),
        },
        _ => panic!("a frame that is no JSON is expected"),
    }
    match body.next_messages(Ok(b"{}|"), &text) {
        Err(ClientError::IOError(e)) => assert!(matches!(
            *e,
            DecodeError::InvalidMessages(DataError::NotAList(_))
        )),
        _ => panic!("a frame that is no list is expected"),
    }
    assert!(matches!(
        body.next_messages(Err(request_error()), &text),
        Err(ClientError::RequestError(_))
    ));
    assert!(body.next_messages(Ok(b"[]|"), &text).unwrap().is_empty());
}

#[test]
fn bad_status_in_a_chunk_is_named() {
    let mut body = BodyFrames::new();
    match body.next_messages(Ok(br#"[[1, 2, "/__status", "Hi"]]|"#), &text) {
        Err(ClientError::IOError(e)) => match &*e {
            DecodeError::InvalidMessages(e) => assert_eq!(
                e.text(),
                "invalid status data format: invalid type: string \"Hi\", expected a map"
            ),
            DecodeError::InvalidData(_) => panic!("the frame is JSON"),
        },
        _ => panic!("an invalid status is expected"),
    }
}

#[test]
fn missing_part_in_a_chunk_is_named() {
    let mut body = BodyFrames::new();
    match body.next_messages(Ok(br#"[{"global_id": 1, "message_id": 2}]|"#), &text) {
        Err(ClientError::IOError(e)) => match &*e {
            DecodeError::InvalidMessages(e) => assert_eq!(e.text(), "missing field `channel`"),
            DecodeError::InvalidData(_) => panic!("the frame is JSON"),
        },
        _ => panic!("an invalid message is expected"),
    }
}

#[test]
fn messages_are_parts() {
    let mut body = BodyFrames::new();
    let chunk = br#"[[1, 1, "/a", "x"], [2, 1, "/__status", {}], [3, 2, "/a", "y"]]|"#;
    let parts = parts_of(body.next_messages(Ok(&chunk[..]), &text));
    assert_eq!(parts.len(), 3);
    assert!(matches!(&parts[0], Some(Data::Normal(m)) if m.data == "x"));
    assert!(matches!(&parts[1], Some(Data::Status(_))));
    assert!(matches!(&parts[2], Some(Data::Normal(m)) if m.data == "y"));
    assert!(parts_of(body.next_messages(Ok(b"[]|"), &text)).is_empty());
    for chunk in [&b"["[..], b"|", b"{}|"] {
        let parts = parts_of(body.next_messages(Ok(chunk), &text));
        assert_eq!(parts.len(), 1);
        assert!(parts[0].is_none());
    }
    let parts = parts_of(body.next_messages(Err(request_error()), &text));
    assert_eq!(parts.len(), 1);
    assert!(parts[0].is_none());
}

#[test]
fn frames_do_not_depend_on_chunks() {
    let bytes = b"[1]|[2]|\"x|";
    for cut in 0..bytes.len() {
        let mut body = BodyFrames::new();
        let mut values = Vec::new();
        for chunk in [&bytes[..cut], &bytes[cut..], b"", b""] {
            match body.next_frame(Ok(chunk)) {
                Ok(value) => values.push(value),
                Err(ClientError::Incomplete) => {}
                Err(ClientError::IOError(_)) => {}
                Err(_) => panic!("no request was made"),
            }
        }
        assert_eq!(values, vec![Value::from(vec![1]), Value::from(vec![2])]);
        assert_eq!(body.len(), 0);
    }
}
