use bytes::BytesMut;
use miltr_actions::actions::{RCode, Replycode, XCode};
use miltr_actions::decoding::Parsable;
use miltr_actions::encoding::Writable;

#[test]
fn test_xcode_valid() {
    let input = BytesMut::from_iter(b"1.20.3");
    let code = XCode::parse(input).expect("Failed parsing input");

    assert_eq!(code.code(), [1, 20, 3]);

    println!("{:?}", code.as_bytes());
    assert_eq!(6, code.as_bytes().len());
}

#[test]
fn test_xcode_invalid() {
    let input = BytesMut::from_iter(b"1.23");
    let _code = XCode::parse(input).expect_err("Parsing did not error on invalid");
}

#[test]
fn test_rcode_valid() {
    let input = BytesMut::from_iter(b"454");
    let code = RCode::parse(input).expect("Failed parsing input");

    assert_eq!(code.code(), [4, 5, 4]);

    println!("{:?}", code.as_bytes());
    assert_eq!(code.as_bytes(), b"454");
}

#[test]
fn test_rcode_invalid() {
    let input = BytesMut::from_iter(b"4.54");
    let _code = RCode::parse(input).expect_err("Parsing did not error on invalid");
}

#[test]
fn test_reply_parse() {
    let input = BytesMut::from_iter(b"501 5.7.0 Client initiated Authentication Exchange\0");
    let reply: Replycode = Parsable::parse(input).expect("Parsing failed");
    assert_eq!(reply.rcode().as_bytes(), b"501");
    assert_eq!(reply.xcode().clone().expect("Parsing failed").as_bytes(), b"5.7.0");
    assert_eq!(reply.message_bytes(), b"Client initiated Authentication Exchange");
}

#[test]
fn test_reply_parse_empty_xcode() {
    let input = BytesMut::from_iter(b"421 Service not available, closing transmission channel\0");
    let reply: Replycode = Parsable::parse(input).expect("Parsing failed");
    assert_eq!(reply.rcode().as_bytes(), b"421");
    assert!(reply.xcode().is_none());
    assert_eq!(
        reply.message_bytes(),
        b"Service not available, closing transmission channel"
    );
}

#[test]
fn test_reply_write() {
    let input = BytesMut::from_iter(b"501 5.7.0 Client initiated Authentication Exchange\0");
    let reply: Replycode = Parsable::parse(input.clone()).expect("Parsing failed");
    let mut output = BytesMut::new();
    reply.write(&mut output);
    assert_eq!(output.as_ref(), input.as_ref());
}

#[test]
fn test_reply_write_with_empty_xcode() {
    let input = BytesMut::from_iter(b"421 Service not available, closing transmission channel\0");
    let reply: Replycode = Parsable::parse(input.clone()).expect("Parsing failed");
    let mut output = BytesMut::new();
    reply.write(&mut output);
    assert_eq!(output.as_ref(), input.as_ref());
}
