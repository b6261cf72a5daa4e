use message_bus::message::{Data, DataError, Field, MessageFault, RawMessage};
use serde_json::Value;

fn json(text: &str) -> Value {
    serde_json::from_str(text).unwrap()
}

fn number(value: &Value) -> Result<i64, String> {
    serde_json::from_value(value.clone()).map_err(|e| e.to_string())
}

fn any(value: &Value) -> Result<Value, String> {
    Ok(value.clone())
}

fn never(_: &Value) -> Result<i64, String> {
    panic!("the data of a status message is not read")
}

fn one(text: &str) -> Result<Data<i64>, DataError> {
    Data::deserialize(&json(text), &number)
}

fn fault(text: &str) -> MessageFault {
    match one(text) {
        Err(DataError::InvalidMessage(fault)) => fault,
        _ => panic!("no message is expected"),
    }
}

fn wrong(field: Field, cause: &str) -> MessageFault {
    MessageFault::WrongType(field, String::from(cause))
}

#[test]
fn object_is_a_message() {
    match one(r#"{"data": 5, "channel": "/c", "message_id": -2, "global_id": 7, "more": {}}"#) {
        Ok(Data::Normal(message)) => {
            assert_eq!(message.global_id, 7);
            assert_eq!(message.message_id, -2);
            assert_eq!(message.channel, "/c");
            assert_eq!(message.data, 5);
        }
        _ => panic!("a user message is expected"),
    }
}

#[test]
fn array_of_four_is_a_message() {
    match one(r#"[7, 8, "/c", 5]"#) {
        Ok(Data::Normal(message)) => {
            assert_eq!(message.global_id, 7);
            assert_eq!(message.message_id, 8);
            assert_eq!(message.channel, "/c");
            assert_eq!(message.data, 5);
        }
        _ => panic!("a user message is expected"),
    }
    assert_eq!(fault(r#"[7, 8, "/c"]"#), MessageFault::WrongLength(3));
    assert_eq!(fault(r#"[7, 8, "/c", 5, 6]"#), MessageFault::WrongLength(5));
}

#[test]
fn array_is_read_part_by_part() {
    assert_eq!(fault("[]"), MessageFault::WrongLength(0));
    assert_eq!(fault("[7]"), MessageFault::WrongLength(1));
    assert_eq!(fault("[7, 8]"), MessageFault::WrongLength(2));
    assert_eq!(
        fault("[true]"),
        wrong(Field::GlobalId, "invalid type: boolean `true`, expected i64")
    );
    assert_eq!(
        fault("[7, null]"),
        wrong(Field::MessageId, "invalid type: null, expected i64")
    );
    assert_eq!(
        fault("[7, 8, 9, 10, 11]"),
        wrong(Field::Channel, "invalid type: integer `9`, expected a string")
    );
}

#[test]
fn message_needs_its_parts() {
    for (text, field) in [
        (r#"{"message_id": 1, "channel": "/c", "data": 5}"#, Field::GlobalId),
        (r#"{"global_id": 1, "channel": "/c", "data": 5}"#, Field::MessageId),
        (r#"{"global_id": 1, "message_id": 1, "data": 5}"#, Field::Channel),
        (r#"{"global_id": 1, "message_id": 1, "channel": "/c"}"#, Field::Data),
        ("{}", Field::GlobalId),
        (r#"{"global_id": 1}"#, Field::MessageId),
    ] {
        assert_eq!(fault(text), MessageFault::Missing(field));
    }
    assert!(one(
        r#"{"global_id": 1, "message_id": 9223372036854775807, "channel": "/c", "data": 5}"#
    )
    .is_ok());
}

#[test]
fn parts_need_their_types() {
    for (text, field, cause) in [
        (
            r#"{"global_id": "1", "message_id": 1, "channel": "/c", "data": 5}"#,
            Field::GlobalId,
            "invalid type: string \"1\", expected i64",
        ),
        (
            r#"{"global_id": 1, "message_id": 1.0, "channel": "/c", "data": 5}"#,
            Field::MessageId,
            "invalid type: floating point `1.0`, expected i64",
        ),
        (
            r#"{"global_id": 1, "message_id": 9223372036854775808, "channel": "/c", "data": 5}"#,
            Field::MessageId,
            "invalid value: integer `9223372036854775808`, expected i64",
        ),
        (
            r#"{"global_id": 1, "message_id": 1, "channel": null, "data": 5}"#,
            Field::Channel,
            "invalid type: null, expected a string",
        ),
        (
            r#"{"message_id": [], "global_id": {}, "channel": 1}"#,
            Field::Channel,
            "invalid type: integer `1`, expected a string",
        ),
        (
            r#"{"message_id": [], "global_id": {}}"#,
            Field::GlobalId,
            "invalid type: map, expected i64",
        ),
        (
            r#"{"message_id": []}"#,
            Field::MessageId,
            "invalid type: sequence, expected i64",
        ),
    ] {
        assert_eq!(fault(text), wrong(field, cause));
    }
}

#[test]
fn other_values_are_no_messages() {
    for (text, cause) in [
        ("null", "invalid type: null, expected struct RawMessage"),
        ("true", "invalid type: boolean `true`, expected struct RawMessage"),
        ("3", "invalid type: integer `3`, expected struct RawMessage"),
        ("2.5", "invalid type: floating point `2.5`, expected struct RawMessage"),
        (
            "\"a map\"",
            "invalid type: string \"a map\", expected struct RawMessage",
        ),
        (
            "\"gr\u{fc}n\"",
            "invalid type: string \"gr\u{fc}n\", expected struct RawMessage",
        ),
    ] {
        assert_eq!(fault(text), MessageFault::NotAMessage(String::from(cause)));
        assert_eq!(one(text).unwrap_err().text(), cause);
    }
}

#[test]
fn faults_have_words() {
    for (text, words) in [
        (r#"{"global_id": 1}"#, "missing field `message_id`"),
        (r#"{"message_id": 1}"#, "missing field `global_id`"),
        (r#"{"global_id": 1, "message_id": 1}"#, "missing field `channel`"),
        (
            r#"{"global_id": 1, "message_id": 1, "channel": "/c"}"#,
            "missing field `data`",
        ),
        (
            "[1]",
            "invalid length 1, expected struct RawMessage with 4 elements",
        ),
        (
            r#"[1, 2, "/c", 4, 5, 6, 7, 8, 9, 10]"#,
            "invalid length 10, expected fewer elements in array",
        ),
        ("[1, {}]", "invalid type: map, expected i64"),
    ] {
        assert_eq!(one(text).unwrap_err().text(), words);
    }
}

#[test]
fn parts_are_as_serde_reads_them() {
    let value = json(r#"{"global_id": 1, "message_id": 2, "channel": "/c", "data": [3]}"#);
    let raw = RawMessage::parse(&value).unwrap();
    assert_eq!(raw.global_id, 1);
    assert_eq!(raw.message_id, 2);
    assert_eq!(raw.channel, "/c");
    assert_eq!(*raw.data, json("[3]"));
    assert!(!raw.is_status());
}

#[test]
fn status_reports_positions() {
    let value = json(
        r#"{"global_id": -1, "message_id": -1, "channel": "/__status", "data": {"/a": 3, "/b": -1}}"#,
    );
    match Data::deserialize(&value, &never) {
        Ok(Data::Status(positions)) => {
            assert_eq!(positions.get("/a"), Some(&3));
            assert_eq!(positions.get("/b"), Some(&-1));
            assert_eq!(positions.entries().len(), 2);
        }
        _ => panic!("a status message is expected"),
    }
}

#[test]
fn status_needs_integers() {
    for (data, cause) in [
        ("[1]", "invalid type: sequence, expected a map"),
        ("{\"/a\": 1.5}", "invalid type: floating point `1.5`, expected i64"),
        ("{\"/a\": \"1\"}", "invalid type: string \"1\", expected i64"),
        ("5", "invalid type: integer `5`, expected a map"),
        ("null", "invalid type: null, expected a map"),
    ] {
        let value = json(&format!("[-1, -1, \"/__status\", {}]", data));
        let error = Data::deserialize(&value, &never).unwrap_err();
        assert_eq!(error, DataError::InvalidStatus(String::from(cause)));
        assert_eq!(
            error.text(),
            format!("invalid status data format: {}", cause)
        );
    }
}

#[test]
fn bad_status_is_no_user_message() {
    let value =
        json(r#"{"global_id": 1, "message_id": 2, "channel": "/__status", "data": "Hi"}"#);
    match Data::<Value>::deserialize(&value, &any) {
        Err(e) => assert!(e.text().starts_with("invalid status data format: ")),
        Ok(_) => panic!("a status with other data is an error"),
    }
}

#[test]
fn data_has_to_be_of_the_type() {
    let error = one(r#"[1, 2, "/c", "text"]"#).unwrap_err();
    assert_eq!(
        error,
        DataError::InvalidData(String::from("invalid type: string \"text\", expected i64"))
    );
    assert_eq!(
        error.text(),
        "invalid normal data format: invalid type: string \"text\", expected i64"
    );
}

#[test]
fn raw_message_is_resolved() {
    let data = json("8");
    let raw = |channel: &str| RawMessage {
        global_id: 1,
        message_id: 2,
        channel: String::from(channel),
        data: &data,
    };
    assert!(matches!(
        Data::from_raw(raw("/c"), &number),
        Ok(Data::Normal(m)) if m.data == 8 && m.channel == "/c"
    ));
    assert!(matches!(
        Data::from_raw(raw("/__status"), &never),
        Err(DataError::InvalidStatus(_))
    ));
}

#[test]
fn list_is_read_in_order() {
    let value = json(r#"[[1, 1, "/a", 10], [2, 1, "/__status", {"/a": 4}], [3, 2, "/a", 30]]"#);
    let messages: Vec<Data<i64>> = Data::deserialize_all(value, &number).unwrap();
    assert_eq!(messages.len(), 3);
    assert!(matches!(&messages[0], Data::Normal(m) if m.data == 10));
    assert!(matches!(&messages[1], Data::Status(_)));
    assert!(matches!(&messages[2], Data::Normal(m) if m.data == 30));
}

#[test]
fn list_is_read_whole_or_not_at_all() {
    let value = json(r#"[[1, 1, "/a", 10], [2, 1, "/__status", 4], 5]"#);
    assert!(matches!(
        Data::deserialize_all(value, &number),
        Err(DataError::InvalidStatus(_))
    ));
    assert_eq!(
        Data::<i64>::deserialize_all(json("{}"), &number).err(),
        Some(DataError::NotAList(String::from(
            "invalid type: map, expected a sequence"
        )))
    );
    assert!(Data::<i64>::deserialize_all(json("[]"), &number)
        .unwrap()
        .is_empty());
}
