use bytes::BytesMut;
use miltr_actions::actions::{Discard, RCode, Reject, Replycode, Skip, Tempfail, XCode};
use miltr_actions::decoding::Parsable;
use miltr_actions::encoding::Writable;
use miltr_actions::error::ProtocolError;

fn parse_reply(bytes: &[u8]) -> Result<Replycode, ProtocolError> {
    Replycode::parse(BytesMut::from(bytes))
}

#[test]
fn reply_code_built_from_numbers() {
    let reply = Replycode::new(RCode::new([5, 2, 1]), XCode::new([5, 5, 4]), "Foobar");
    let mut out = BytesMut::new();
    reply.write(&mut out);
    assert_eq!(out.as_ref(), b"521 5.5.4 Foobar\0");
    assert_eq!(reply.len(), 17);
    assert_eq!(reply.code(), b'y');
    assert!(!reply.is_empty());
    assert_eq!(reply.message(), "Foobar");

    let back = parse_reply(out.as_ref()).expect("parses");
    assert_eq!(back.rcode().code(), [5, 2, 1]);
    assert_eq!(back.xcode().clone().expect("has xcode").code(), [5, 5, 4]);
    assert_eq!(back.message_bytes(), b"Foobar");
}

#[test]
fn reply_without_xcode_writes_message_only() {
    let reply = Replycode::without_xcode(RCode::new([4, 2, 1]), "later");
    let mut out = BytesMut::new();
    reply.write(&mut out);
    assert_eq!(out.as_ref(), b"421 later\0");
    assert_eq!(reply.len(), 10);
}

#[test]
fn reply_code_numbers_spelled_in_decimal() {
    assert_eq!(RCode::new([4, 5, 0]).as_bytes(), b"450");
    assert_eq!(RCode::new([12, 0, 3]).as_bytes(), b"1203");
    assert_eq!(XCode::new([5, 65535, 0]).as_bytes(), b"5.65535.0");
    assert_eq!(XCode::new([2, 10, 100]).len(), 8);
}

#[test]
fn reply_message_with_invalid_utf8_is_replaced() {
    let reply = parse_reply(b"550 bad \xff byte\0").expect("parses");
    assert_eq!(reply.message_bytes(), b"bad \xff byte");
    assert_eq!(reply.message(), "bad \u{fffd} byte");
}

#[test]
fn reply_missing_space_is_not_enough_data() {
    assert!(matches!(parse_reply(b"550"), Err(ProtocolError::NotEnoughData(_))));
    assert!(matches!(parse_reply(b""), Err(ProtocolError::NotEnoughData(_))));
}

#[test]
fn reply_missing_nul_is_not_enough_data() {
    assert!(matches!(parse_reply(b"550 no terminator"), Err(ProtocolError::NotEnoughData(_))));
}

#[test]
fn reply_bad_rcode_is_invalid() {
    assert!(matches!(parse_reply(b"5x0 msg\0"), Err(ProtocolError::InvalidData(_))));
    assert!(matches!(parse_reply(b"5500 msg\0"), Err(ProtocolError::InvalidData(_))));
    assert!(matches!(parse_reply(b"55 msg"), Err(ProtocolError::InvalidData(_))));
}

#[test]
fn reply_trailing_bytes_are_invalid() {
    assert!(matches!(parse_reply(b"550 msg\0x"), Err(ProtocolError::InvalidData(_))));
}

#[test]
fn reply_first_word_not_an_xcode_stays_in_message() {
    let reply = parse_reply(b"550 5.7 denied\0").expect("parses");
    assert!(reply.xcode().is_none());
    assert_eq!(reply.message_bytes(), b"5.7 denied");

    let reply = parse_reply(b"550 5.7.99999 denied\0").expect("parses");
    assert!(reply.xcode().is_none());

    let reply = parse_reply(b"550 5.7.1\0").expect("parses");
    assert!(reply.xcode().is_none());
    assert_eq!(reply.message_bytes(), b"5.7.1");
}

#[test]
fn reply_round_trips_with_empty_message() {
    let input: &[u8] = b"250 2.0.0 \0";
    let reply = parse_reply(input).expect("parses");
    assert_eq!(reply.xcode().clone().expect("has xcode").code(), [2, 0, 0]);
    assert_eq!(reply.message_bytes(), b"");
    let mut out = BytesMut::new();
    reply.write(&mut out);
    assert_eq!(out.as_ref(), input);
}

#[test]
fn xcode_numerals_may_have_leading_zeros() {
    let code = XCode::parse(BytesMut::from(&b"05.007.1"[..])).expect("parses");
    assert_eq!(code.code(), [5, 7, 1]);
    assert_eq!(code.as_bytes(), b"05.007.1");
}

#[test]
fn xcode_rejects_sign_overflow_and_extra_parts() {
    assert!(XCode::parse(BytesMut::from(&b"+5.7.1"[..])).is_err());
    assert!(XCode::parse(BytesMut::from(&b"5.7.65536"[..])).is_err());
    assert!(XCode::parse(BytesMut::from(&b"5.7.1.2"[..])).is_err());
    assert!(XCode::parse(BytesMut::from(&b"5..1"[..])).is_err());
}

#[test]
fn simple_replies_have_empty_payloads() {
    let mut out = BytesMut::new();
    Discard.write(&mut out);
    Reject.write(&mut out);
    Tempfail.write(&mut out);
    Skip.write(&mut out);
    assert!(out.is_empty());
    assert_eq!(Discard.code(), b'd');
    assert_eq!(Reject.code(), b'r');
    assert_eq!(Tempfail.code(), b't');
    assert_eq!(Skip.code(), b's');
    assert_eq!(Discard.len(), 0);
    assert!(Skip.is_empty());
}

#[test]
fn simple_replies_refuse_a_payload() {
    assert!(Discard::parse(BytesMut::new()).is_ok());
    assert!(Reject::parse(BytesMut::new()).is_ok());
    assert!(Tempfail::parse(BytesMut::new()).is_ok());
    assert!(Skip::parse(BytesMut::new()).is_ok());
    assert!(matches!(
        Discard::parse(BytesMut::from(&b"x"[..])),
        Err(ProtocolError::InvalidData(_))
    ));
    assert!(Skip::parse(BytesMut::from(&b"\0"[..])).is_err());
}
