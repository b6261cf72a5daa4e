use message_bus::client_id::{ClientId, ClientIdError};

#[test]
fn from_string() {
    let mut s = String::from("deadbeefdeadbeef");
    assert!(ClientId::try_from(&s).is_ok());
    assert!(ClientId::try_from(s.as_str()).is_ok());
    s = String::from("1234567890abcdef");
    assert!(ClientId::try_from(&s).is_ok());
    assert!(ClientId::try_from(s.as_str()).is_ok());
    s = String::from("wrongcharset1234");
    assert!(ClientId::try_from(&s).is_err());
    assert!(ClientId::try_from(s.as_str()).is_err());
    s = String::from("deadbeefdead");
    assert!(ClientId::try_from(&s).is_err());
    assert!(ClientId::try_from(s.as_str()).is_err());
}

#[test]
fn text_gives_its_value() {
    assert_eq!(
        ClientId::try_from("deadbeefdeadbeef"),
        Ok(ClientId::from(0xdead_beef_dead_beef))
    );
    assert_eq!(
        ClientId::try_from(String::from("ffffffffffffffff")),
        Ok(ClientId::from(u64::MAX))
    );
    assert_eq!(
        ClientId::try_from("DEADbeef00000001"),
        Ok(ClientId::from(0xdead_beef_0000_0001))
    );
}

#[test]
fn plus_sign_takes_the_place_of_a_digit() {
    assert_eq!(
        ClientId::try_from("+00000000000000a"),
        Ok(ClientId::from(10))
    );
    assert_eq!(
        ClientId::try_from("-00000000000000a"),
        Err(ClientIdError::InvalidCharacter)
    );
    assert_eq!(
        ClientId::try_from("0+0000000000000a"),
        Err(ClientIdError::InvalidCharacter)
    );
}

#[test]
fn length_counts_bytes() {
    assert_eq!(ClientId::try_from(""), Err(ClientIdError::InvalidLength));
    assert_eq!(
        ClientId::try_from("00000000000000000"),
        Err(ClientIdError::InvalidLength)
    );
    // Sixteen characters in seventeen bytes.
    assert_eq!(
        ClientId::try_from("00000000000000\u{e9}0"),
        Err(ClientIdError::InvalidLength)
    );
    // Fifteen characters in sixteen bytes.
    assert_eq!(
        ClientId::try_from("0000000000000\u{e9}0"),
        Err(ClientIdError::InvalidCharacter)
    );
}

#[test]
fn written_form_has_sixteen_digits() {
    assert_eq!(ClientId::from(0).to_string(), "0000000000000000");
    assert_eq!(ClientId::from(0xabc).to_string(), "0000000000000abc");
    assert_eq!(ClientId::from(u64::MAX).to_string(), "ffffffffffffffff");
}

#[test]
fn written_form_reads_back() {
    for value in [0, 1, 9, 10, 15, 16, 0x0123_4567_89ab_cdef, u64::MAX - 1, u64::MAX] {
        let id = ClientId::from(value);
        assert_eq!(ClientId::try_from(id.to_string()), Ok(id));
    }
}

#[test]
fn accepted_text_is_the_written_form() {
    let id = ClientId::try_from("+ABCDEF01234567f").unwrap();
    assert_eq!(id.to_string(), "0abcdef01234567f");
}

#[test]
fn fresh_ids_differ() {
    assert_ne!(ClientId::default(), ClientId::default());
}
