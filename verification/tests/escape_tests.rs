use smithy_router::escape::{escape_string, unescape_string, Error};

#[test]
fn escape() {
    assert_eq!("", escape_string(""));
    assert_eq!("foo", escape_string("foo"));
    assert_eq!("foo\\r\\n", escape_string("foo\r\n"));
    assert_eq!("foo\\r\\nbar", escape_string("foo\r\nbar"));
    assert_eq!(r#"foo\\bar"#, escape_string(r#"foo\bar"#));
    assert_eq!(r#"\\foobar"#, escape_string(r#"\foobar"#));
    assert_eq!(
        r#"\bf\fo\to\r\n"#,
        escape_string("\u{08}f\u{0C}o\to\r\n")
    );
    assert_eq!("\\\"test\\\"", escape_string("\"test\""));
    assert_eq!("\\u0000", escape_string("\u{0}"));
    assert_eq!("\\u001f", escape_string("\u{1f}"));
}

#[test]
fn unescape_no_escapes() {
    let unescaped = unescape_string("test test").unwrap();
    assert_eq!("test test", unescaped);
}

#[test]
fn unescape() {
    assert_eq!(
        "\x08f\x0Co\to\r\n",
        unescape_string(r#"\bf\fo\to\r\n"#).unwrap()
    );
    assert_eq!("\"test\"", unescape_string(r#"\"test\""#).unwrap());
    assert_eq!("\x00", unescape_string("\\u0000").unwrap());
    assert_eq!("\x1f", unescape_string("\\u001f").unwrap());
    assert_eq!("foo\r\nbar", unescape_string("foo\\r\\nbar").unwrap());
    assert_eq!("foo\r\n", unescape_string("foo\\r\\n").unwrap());
    assert_eq!("\r\nbar", unescape_string("\\r\\nbar").unwrap());
    assert_eq!("\u{10437}", unescape_string("\\uD801\\uDC37").unwrap());

    assert_eq!(Err(Error::UnexpectedEndOfString), unescape_string("\\"));
    assert_eq!(Err(Error::UnexpectedEndOfString), unescape_string("\\u"));
    assert_eq!(Err(Error::UnexpectedEndOfString), unescape_string("\\u00"));
    assert_eq!(
        Err(Error::InvalidEscapeCharacter('z')),
        unescape_string("\\z")
    );

    assert_eq!(
        Err(Error::ExpectedSurrogatePair("\\nasdf".into())),
        unescape_string("\\uD801\\nasdf")
    );
    assert_eq!(
        Err(Error::UnexpectedEndOfString),
        unescape_string("\\uD801\\u00")
    );
    assert_eq!(
        Err(Error::InvalidSurrogatePair(0xD801, 0xC501)),
        unescape_string("\\uD801\\uC501")
    );

    assert_eq!(
        Err(Error::InvalidUnicodeEscape("+04D".into())),
        unescape_string("\\u+04D")
    );
}

#[test]
fn escape_unescape_round_trip() {
    let original = "a \"quoted\" string with \\ controls \u{0}\u{1f}\t\r\n and beyond: 💙";
    let escaped = escape_string(original);
    let unescaped = unescape_string(&escaped).unwrap();
    assert_eq!(original, unescaped);
}

#[test]
fn unescape_unpaired_low_surrogate_is_rejected() {
    assert_eq!(
        Err(Error::InvalidUnicodeEscape("\\uDC37".into())),
        unescape_string("\\uDC37")
    );
}

#[test]
fn error_messages_name_the_failure() {
    assert_eq!(
        Error::InvalidSurrogatePair(0xD801, 0xC501).message(),
        "invalid surrogate pair: \\uD801\\uC501"
    );
    assert_eq!(
        Error::InvalidEscapeCharacter('z').message(),
        "invalid JSON escape: \\z"
    );
    assert_eq!(
        Error::InvalidUnicodeEscape("+04D".into()).message(),
        "invalid JSON Unicode escape: \\u+04D"
    );
    assert_eq!(
        Error::ExpectedSurrogatePair("\\nasdf".into()).message(),
        "expected a UTF-16 surrogate pair, but got \\nasdf as the low word"
    );
    assert_eq!(Error::UnexpectedEndOfString.message(), "unexpected end of string");
}
