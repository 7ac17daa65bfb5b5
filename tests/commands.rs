use bytes::BytesMut;
use miltr_actions::commands::{
    Abort, Command, Body, Connect, Data, EndOfBody, EndOfHeader, Family, Header, Helo, Macro, Mail, Quit, QuitNc,
    Recipient, Unknown,
};
use miltr_actions::decoding::Parsable;
use miltr_actions::encoding::Writable;
use miltr_actions::error::ProtocolError;
use miltr_actions::modification::Modification;
use miltr_actions::optneg::OptNeg;

fn written<W: Writable>(w: &W) -> Vec<u8> {
    let mut out = BytesMut::new();
    w.write(&mut out);
    out.to_vec()
}

fn buf(bytes: &[u8]) -> BytesMut {
    BytesMut::from(bytes)
}

#[test]
fn header_command_round_trips() {
    let input: &[u8] = b"X-Header\0My value\0";
    let header = Header::parse(buf(input)).expect("parses");
    assert_eq!(header.name, b"X-Header".to_vec());
    assert_eq!(header.value, b"My value".to_vec());
    assert_eq!(header.code(), b'L');
    assert_eq!(header.len(), input.len());
    assert_eq!(written(&header), input.to_vec());
}

#[test]
fn header_errors() {
    assert!(matches!(Header::parse(buf(b"X-Header\0My value")), Err(ProtocolError::NotEnoughData(_))));
    assert!(matches!(Header::parse(buf(b"X-Header\0")), Err(ProtocolError::InvalidData(_))));
    assert!(matches!(Header::parse(buf(b"a\0b\0c\0")), Err(ProtocolError::InvalidData(_))));
}

#[test]
fn helo_mail_and_recipient() {
    let helo = Helo::parse(buf(b"mail.example.org\0")).expect("parses");
    assert_eq!(helo.host, b"mail.example.org".to_vec());
    assert_eq!(written(&helo), b"mail.example.org\0".to_vec());
    assert!(Helo::parse(buf(b"a\0b\0")).is_err());

    let mail = Mail::parse(buf(b"<a@b>\0SIZE=10\0BODY=8BITMIME\0")).expect("parses");
    assert_eq!(mail.args.len(), 3);
    assert_eq!(mail.args[1], b"SIZE=10".to_vec());
    assert_eq!(mail.len(), 28);
    assert_eq!(written(&mail), b"<a@b>\0SIZE=10\0BODY=8BITMIME\0".to_vec());
    assert!(matches!(Mail::parse(buf(b"")), Err(ProtocolError::InvalidData(_))));

    let rcpt = Recipient::parse(buf(b"<c@d>\0")).expect("parses");
    assert_eq!(rcpt.args, vec![b"<c@d>".to_vec()]);
    assert_eq!(rcpt.code(), b'R');
    assert!(matches!(Recipient::parse(buf(b"<c@d>")), Err(ProtocolError::NotEnoughData(_))));
}

#[test]
fn body_and_unknown_are_raw() {
    let body = Body::parse(buf(b"line one\r\nline\0two")).expect("parses");
    assert_eq!(body.chunk, b"line one\r\nline\0two".to_vec());
    assert_eq!(written(&body), b"line one\r\nline\0two".to_vec());
    let unknown = Unknown::parse(buf(b"XFOO bar")).expect("parses");
    assert_eq!(unknown.command, b"XFOO bar".to_vec());
    assert_eq!(unknown.code(), b'U');
}

#[test]
fn macro_pairs() {
    let input: &[u8] = b"Cj\0mx.example.org\0{daemon_name}\0smtpd\0";
    let m = Macro::parse(buf(input)).expect("parses");
    assert_eq!(m.code, b'C');
    assert_eq!(m.macros.len(), 2);
    assert_eq!(m.macros[0], (b"j".to_vec(), b"mx.example.org".to_vec()));
    assert_eq!(m.macros[1], (b"{daemon_name}".to_vec(), b"smtpd".to_vec()));
    assert_eq!(m.len(), input.len());
    assert_eq!(written(&m), input.to_vec());
}

#[test]
fn macro_errors() {
    assert!(matches!(Macro::parse(buf(b"Cj\0")), Err(ProtocolError::InvalidData(_))));
    assert!(matches!(Macro::parse(buf(b"")), Err(ProtocolError::NotEnoughData(_))));
    assert!(matches!(Macro::parse(buf(b"Cj\0x")), Err(ProtocolError::NotEnoughData(_))));
    let empty = Macro::parse(buf(b"H")).expect("parses");
    assert_eq!(empty.code, b'H');
    assert!(empty.macros.is_empty());
}

#[test]
fn connect_inet() {
    let input: &[u8] = b"client.example\x004\x01\xbb192.0.2.1\0";
    let c = Connect::parse(buf(input)).expect("parses");
    assert_eq!(c.hostname, b"client.example".to_vec());
    assert_eq!(c.family, Family::Inet);
    assert_eq!(c.port, 443);
    assert_eq!(c.address, b"192.0.2.1".to_vec());
    assert_eq!(c.len(), input.len());
    assert_eq!(written(&c), input.to_vec());
}

#[test]
fn connect_unix_has_no_port() {
    let input: &[u8] = b"localhost\0L/var/run/sock\0";
    let c = Connect::parse(buf(input)).expect("parses");
    assert_eq!(c.family, Family::Unix);
    assert_eq!(c.port, 0);
    assert_eq!(c.address, b"/var/run/sock".to_vec());
    assert_eq!(written(&c), input.to_vec());
}

#[test]
fn connect_errors() {
    assert!(matches!(Connect::parse(buf(b"host")), Err(ProtocolError::NotEnoughData(_))));
    assert!(matches!(Connect::parse(buf(b"host\0")), Err(ProtocolError::NotEnoughData(_))));
    assert!(matches!(Connect::parse(buf(b"host\0X1.2.3.4\0")), Err(ProtocolError::InvalidData(_))));
    assert!(matches!(Connect::parse(buf(b"host\x006\x01")), Err(ProtocolError::NotEnoughData(_))));
    assert!(matches!(Connect::parse(buf(b"host\x004\x00\x19addr")), Err(ProtocolError::NotEnoughData(_))));
    assert!(matches!(Connect::parse(buf(b"host\0Uaddr\0x")), Err(ProtocolError::InvalidData(_))));
}

#[test]
fn empty_commands() {
    assert!(Data::parse(buf(b"")).is_ok());
    assert!(EndOfHeader::parse(buf(b"")).is_ok());
    assert!(EndOfBody::parse(buf(b"")).is_ok());
    assert!(Quit::parse(buf(b"")).is_ok());
    assert!(QuitNc::parse(buf(b"")).is_ok());
    assert!(Abort::parse(buf(b"")).is_ok());
    assert!(matches!(Abort::parse(buf(b"x")), Err(ProtocolError::InvalidData(_))));
    let codes = [Data.code(), EndOfHeader.code(), EndOfBody.code(), Quit.code(), QuitNc.code(), Abort.code()];
    assert_eq!(codes, *b"TNEQKA");
    assert!(written(&Quit).is_empty());
}

#[test]
fn modification_parse_round_trips() {
    let cases: Vec<(u8, &[u8])> = vec![
        (b'+', b"<a@b>\0"),
        (b'2', b"<a@b>\0NOTIFY=NEVER\0"),
        (b'-', b"<a@b>\0"),
        (b'b', b"new body"),
        (b'h', b"X-Spam\0yes\0"),
        (b'm', b"\0\0\0\x02Subject\0\0"),
        (b'i', b"\0\0\0\0name\0value\0"),
        (b'e', b"<s@x>\0"),
        (b'e', b"<s@x>\0SIZE=1\0"),
        (b'q', b"spam\0"),
    ];
    for (code, payload) in cases {
        let m = Modification::parse(code, buf(payload)).expect("parses");
        assert_eq!(m.code(), code);
        assert_eq!(m.payload(), payload.to_vec());
    }
}

#[test]
fn modification_parse_fields_and_errors() {
    match Modification::parse(b'i', buf(b"\0\0\0\x05name\0value\0")).expect("parses") {
        Modification::InsertHeader { index, name, value } => {
            assert_eq!(index, 5);
            assert_eq!(name, b"name".to_vec());
            assert_eq!(value, b"value".to_vec());
        }
        _ => panic!("wrong variant"),
    }
    assert!(matches!(Modification::parse(b'm', buf(b"\0\0")), Err(ProtocolError::NotEnoughData(_))));
    assert!(matches!(Modification::parse(b'h', buf(b"X\0")), Err(ProtocolError::InvalidData(_))));
    assert!(matches!(Modification::parse(b'+', buf(b"<a@b>")), Err(ProtocolError::NotEnoughData(_))));
    assert!(Modification::parse(b'z', buf(b"x\0")).is_err());
    assert!(Modification::parse(b'e', buf(b"a\0b\0c\0")).is_err());
}

#[test]
fn optneg_payload_round_trips() {
    let input: &[u8] = b"\0\0\0\x06\0\0\x01\xff\0\0\0\0\0\0\0\x00j {daemon_name}\0\0\0\0\x02{mail_addr}\0";
    let o = OptNeg::parse(buf(input)).expect("parses");
    assert_eq!(o.version, 6);
    assert_eq!(o.actions, 0x1FF);
    assert_eq!(o.protocol, 0);
    assert_eq!(o.macros.len(), 2);
    assert_eq!(o.macros[0].stage, 0);
    assert_eq!(o.macros[0].names, vec![b"j".to_vec(), b"{daemon_name}".to_vec()]);
    assert_eq!(o.macros[1].stage, 2);
    assert_eq!(o.macros[1].names, vec![b"{mail_addr}".to_vec()]);
    assert_eq!(o.len(), input.len());
    assert_eq!(o.code(), b'O');
    assert_eq!(written(&o), input.to_vec());
}

#[test]
fn optneg_offer_on_the_wire() {
    let o = OptNeg::new(0x1FF, 0);
    assert_eq!(written(&o), b"\0\0\0\x06\0\0\x01\xff\0\0\0\0".to_vec());
}

#[test]
fn optneg_payload_errors() {
    assert!(matches!(OptNeg::parse(buf(b"\0\0\0\x06\0\0")), Err(ProtocolError::NotEnoughData(_))));
    assert!(matches!(
        OptNeg::parse(buf(b"\0\0\0\x06\0\0\x01\xff\0\0\0\0\0\0")),
        Err(ProtocolError::NotEnoughData(_))
    ));
    assert!(matches!(
        OptNeg::parse(buf(b"\0\0\0\x06\0\0\x01\xff\0\0\0\0\0\0\0\x01j")),
        Err(ProtocolError::NotEnoughData(_))
    ));
}

#[test]
fn command_dispatch_by_code() {
    match Command::parse(b'L', buf(b"X-Header\0My value\0")).expect("parses") {
        Command::Header(h) => {
            assert_eq!(h.name, b"X-Header".to_vec());
            assert_eq!(h.value, b"My value".to_vec());
        }
        _ => panic!("wrong command"),
    }
    assert!(matches!(Command::parse(b'Q', buf(b"")), Ok(Command::Quit(_))));
    assert!(matches!(Command::parse(b'D', buf(b"Hj\0x\0")), Ok(Command::Macro(_))));
    assert!(matches!(Command::parse(b'z', buf(b"")), Err(ProtocolError::UnknownCode(b'z'))));
    assert!(matches!(Command::parse(b'H', buf(b"host")), Err(ProtocolError::NotEnoughData(_))));
}
