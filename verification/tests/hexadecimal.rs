use fritz_log_parser::{Response, SessionId, SessionIdParseError};

#[test]
fn every_byte_is_written_and_read_again() {
    for high in 0..32u16 {
        let mut id = [0u8; 8];
        for (i, byte) in id.iter_mut().enumerate() {
            *byte = (high * 8 + i as u16) as u8;
        }
        let text = SessionId { id }.to_string();
        assert_eq!(text.len(), 16);
        assert!(text.chars().all(|c| c.is_ascii_digit() || ('a'..='f').contains(&c)));
        if id == [0u8; 8] {
            assert_eq!(SessionId::from_str(&text), Err(SessionIdParseError::Zero));
        } else {
            assert_eq!(SessionId::from_str(&text), Ok(SessionId { id }));
            assert_eq!(
                SessionId::from_str(&text.to_uppercase()),
                Ok(SessionId { id })
            );
        }
    }
}

#[test]
fn the_high_digit_comes_first() {
    assert_eq!(
        SessionId { id: [0x01, 0x10, 0xab, 0xba, 0x0f, 0xf0, 0x9a, 0xa9] }.to_string(),
        "0110abba0ff09aa9"
    );
    assert_eq!(
        SessionId::from_str("0110ABba0ff09Aa9").unwrap().id,
        [0x01, 0x10, 0xab, 0xba, 0x0f, 0xf0, 0x9a, 0xa9]
    );
}

#[test]
fn response_text_has_ninety_seven_characters() {
    let response = Response { salt: [0x5a; 16], hash: [0xc3; 32] };
    let text = response.to_string();
    assert_eq!(text.len(), 97);
    assert_eq!(&text[..32], "5a".repeat(16));
    assert_eq!(&text[32..33], "$");
    assert_eq!(&text[33..], "c3".repeat(32));
}
