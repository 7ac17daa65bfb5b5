use miltr_actions::actions::{RCode, Replycode, XCode};
use miltr_actions::frame::{decode_frame, encode_frame, FrameError, MAX_FRAME};
use miltr_actions::error::ProtocolError;
use miltr_actions::modification::{
    Absorbed, Action, Modification, ModificationResponse, ModificationResponseBuilder, ACTION_ADD_HEADER,
    ACTION_CHANGE_HEADER,
};
use miltr_actions::optneg::{NegotiationError, OptNeg};
use miltr_actions::session::{awaits_reply_to, SessionError, State};

fn wire(frames: &[miltr_actions::frame::Frame]) -> Vec<u8> {
    let mut out = Vec::new();
    for f in frames {
        out.extend(encode_frame(f.code, &f.payload));
    }
    out
}

#[test]
fn empty_discard_on_the_wire() {
    let response = ModificationResponseBuilder::new().discard();
    let frames = response.frames(0x1FF);
    assert_eq!(wire(&frames), vec![0x00, 0x00, 0x00, 0x01, 0x64]);
}

#[test]
fn reply_code_frame_length() {
    let reply = Replycode::new(RCode::new([5, 2, 1]), XCode::new([5, 5, 4]), "Foobar");
    let frames = ModificationResponseBuilder::new().build(Action::Replycode(reply)).frames(0);
    let bytes = wire(&frames);
    assert_eq!(&bytes[..4], &[0, 0, 0, 18]);
    assert_eq!(bytes[4], b'y');
    assert_eq!(&bytes[5..], b"521 5.5.4 Foobar\0");
}

#[test]
fn insert_header_payload() {
    let m = Modification::InsertHeader { index: 0, name: b"name".to_vec(), value: b"value".to_vec() };
    assert_eq!(m.code(), b'i');
    assert_eq!(m.payload(), b"\0\0\0\0name\0value\0".to_vec());
    assert_eq!(m.required_action(), ACTION_ADD_HEADER);
}

#[test]
fn change_header_payload_has_big_endian_index() {
    let m = Modification::ChangeHeader { index: 0x0102_0304, name: b"X".to_vec(), value: Vec::new() };
    assert_eq!(m.code(), b'm');
    assert_eq!(m.payload(), b"\x01\x02\x03\x04X\0\0".to_vec());
}

#[test]
fn modification_payloads() {
    let add = Modification::AddRcptPar { recipient: b"<a@b>".to_vec(), args: b"NOTIFY=NEVER".to_vec() };
    assert_eq!(add.code(), b'2');
    assert_eq!(add.payload(), b"<a@b>\0NOTIFY=NEVER\0".to_vec());
    let from = Modification::ChangeFrom { sender: b"<s@x>".to_vec(), parameters: None };
    assert_eq!(from.payload(), b"<s@x>\0".to_vec());
    let body = Modification::ReplBody { chunk: b"new body".to_vec() };
    assert_eq!(body.code(), b'b');
    assert_eq!(body.payload(), b"new body".to_vec());
    let q = Modification::Quarantine { reason: b"spam".to_vec() };
    assert_eq!(q.code(), b'q');
    assert_eq!(q.payload(), b"spam\0".to_vec());
}

#[test]
fn modifications_keep_insertion_order() {
    let mut builder = ModificationResponseBuilder::new();
    builder.push(Modification::AddHeader { name: b"A".to_vec(), value: b"1".to_vec() });
    builder.push(Modification::DelRcpt { recipient: b"<x@y>".to_vec() });
    builder.push(Modification::AddHeader { name: b"B".to_vec(), value: b"2".to_vec() });
    let response = builder.accept();
    let frames = response.frames(0x1FF);
    let codes: Vec<u8> = frames.iter().map(|f| f.code).collect();
    assert_eq!(codes, vec![b'h', b'-', b'h', b'a']);
    assert_eq!(frames[0].payload, b"A\x001\0".to_vec());
    assert_eq!(frames[2].payload, b"B\x002\0".to_vec());
    assert!(frames[3].payload.is_empty());
}

#[test]
fn modifications_without_negotiated_bit_are_dropped() {
    let mut builder = ModificationResponseBuilder::new();
    builder.push(Modification::AddHeader { name: b"A".to_vec(), value: b"1".to_vec() });
    builder.push(Modification::ChangeHeader { index: 1, name: b"B".to_vec(), value: b"2".to_vec() });
    let response = builder.contin();
    let frames = response.frames(ACTION_CHANGE_HEADER);
    let codes: Vec<u8> = frames.iter().map(|f| f.code).collect();
    assert_eq!(codes, vec![b'm', b'c']);
    let frames = response.frames(0);
    assert_eq!(frames.len(), 1);
    assert_eq!(frames[0].code, b'c');
}

#[test]
fn empty_continue_is_one_frame() {
    let response = ModificationResponse::empty_continue();
    assert!(response.modifications().is_empty());
    assert!(matches!(response.get_action(), Action::Continue));
    assert_eq!(wire(&response.frames(0)), vec![0, 0, 0, 1, b'c']);
}

#[test]
fn sealing_actions() {
    let codes: Vec<u8> = vec![
        ModificationResponseBuilder::new().contin(),
        ModificationResponseBuilder::new().accept(),
        ModificationResponseBuilder::new().discard(),
        ModificationResponseBuilder::new().reject(),
        ModificationResponseBuilder::new().tempfail(),
    ]
    .iter()
    .map(|r| r.frames(0)[0].code)
    .collect();
    assert_eq!(codes, b"cadrt".to_vec());
}

#[test]
fn frame_round_trip() {
    let bytes = encode_frame(b'L', b"X-Header\0My value\0");
    assert_eq!(&bytes[..5], &[0, 0, 0, 19, b'L']);
    let (frame, used) = decode_frame(&bytes, MAX_FRAME).expect("decodes");
    assert_eq!(frame.code, b'L');
    assert_eq!(frame.payload, b"X-Header\0My value\0".to_vec());
    assert_eq!(used, bytes.len());
}

#[test]
fn frame_followed_by_more_bytes() {
    let mut bytes = encode_frame(b'c', b"");
    bytes.extend(encode_frame(b'a', b""));
    let (frame, used) = decode_frame(&bytes, MAX_FRAME).expect("decodes");
    assert_eq!(frame.code, b'c');
    assert_eq!(used, 5);
    let (frame, used) = decode_frame(&bytes[used..], MAX_FRAME).expect("decodes");
    assert_eq!(frame.code, b'a');
    assert_eq!(used, 5);
}

#[test]
fn frame_of_largest_size() {
    let payload = vec![7u8; (MAX_FRAME - 1) as usize];
    let bytes = encode_frame(b'b', &payload);
    let (frame, _) = decode_frame(&bytes, MAX_FRAME).expect("decodes");
    assert_eq!(frame.payload.len(), payload.len());
    let payload = vec![7u8; MAX_FRAME as usize];
    let bytes = encode_frame(b'b', &payload);
    assert_eq!(decode_frame(&bytes, MAX_FRAME).err(), Some(FrameError::TooLarge));
}

#[test]
fn frame_errors() {
    assert_eq!(decode_frame(&[], MAX_FRAME).err(), Some(FrameError::EndOfStream));
    assert_eq!(decode_frame(&[0, 0], MAX_FRAME).err(), Some(FrameError::Truncated));
    assert_eq!(decode_frame(&[0, 0, 0, 0], MAX_FRAME).err(), Some(FrameError::ZeroLength));
    assert_eq!(decode_frame(&[0, 0, 0, 3, b'x', 1], MAX_FRAME).err(), Some(FrameError::Truncated));
    assert_eq!(decode_frame(&[0, 1, 0, 1, b'x'], MAX_FRAME).err(), Some(FrameError::TooLarge));
}

#[test]
fn negotiation_intersects_actions() {
    let client = OptNeg::new(0x1FF, 0);
    let server = OptNeg::new(0x00F, 0);
    let merged = server.merge(&client, 0).expect("negotiates");
    assert_eq!(merged.actions, 0x00F);
    assert_eq!(merged.version, 6);
    assert_eq!(merged.protocol, 0);
}

fn offer(version: u32, actions: u32, protocol: u32) -> OptNeg {
    OptNeg { version, actions, protocol, macros: Vec::new() }
}

fn negotiate(a: (u32, u32, u32), b: (u32, u32, u32)) -> (u32, u32, u32) {
    let merged = offer(a.0, a.1, a.2).merge(&offer(b.0, b.1, b.2), 0).expect("negotiates");
    (merged.version, merged.actions, merged.protocol)
}

#[test]
fn negotiation_is_symmetric_and_idempotent() {
    let a = (6, 0x0F0, 0x3);
    let b = (4, 0x0FF, 0x6);
    assert_eq!(negotiate(a, b), (4, 0x0F0, 0x2));
    assert_eq!(negotiate(a, b), negotiate(b, a));
    assert_eq!(negotiate(a, a), a);
    assert_eq!(negotiate(b, b), b);
}

#[test]
fn negotiation_failures() {
    let old = OptNeg { version: 1, actions: 0x1FF, protocol: 0, macros: Vec::new() };
    let new = OptNeg::new(0x1FF, 0);
    assert_eq!(new.merge(&old, 0).err(), Some(NegotiationError::VersionTooOld));
    let client = OptNeg::new(0x01, 0);
    let server = OptNeg::new(0x1FF, 0);
    assert_eq!(server.merge(&client, 0x10).err(), Some(NegotiationError::MissingCapability));
}

#[test]
fn negotiation_keeps_filter_macros() {
    let mut server = OptNeg::new(0x1FF, 0);
    server.macros.push(miltr_actions::optneg::MacroStage { stage: 0, names: vec![b"j".to_vec(), b"_".to_vec()] });
    let client = OptNeg::new(0x1FF, 0);
    let merged = server.merge(&client, 0).expect("negotiates");
    assert_eq!(merged.macros.len(), 1);
    assert_eq!(merged.macros[0].stage, 0);
    assert_eq!(merged.macros[0].names, vec![b"j".to_vec(), b"_".to_vec()]);
}

fn run(codes: &[u8]) -> Result<State, SessionError> {
    let mut state = State::Initial;
    for &c in codes {
        state = state.step(c)?;
    }
    Ok(state)
}

#[test]
fn many_messages_on_one_connection() {
    let first = run(b"OCHMRTLNBE").expect("first message");
    assert_eq!(first, State::EndOfBodySeen);
    assert_eq!(first.step(b'M'), Ok(State::MailFromSeen));
    assert_eq!(run(b"OCHMRTLNBEMRRTNEQ"), Ok(State::Terminal));
}

#[test]
fn commands_out_of_order_are_violations() {
    assert_eq!(
        State::Initial.step(b'C'),
        Err(SessionError::ProtocolViolation { state: State::Initial, code: b'C' })
    );
    assert_eq!(
        State::HeloSeen.step(b'R'),
        Err(SessionError::ProtocolViolation { state: State::HeloSeen, code: b'R' })
    );
    assert_eq!(
        State::HeadersStreaming.step(b'B'),
        Err(SessionError::ProtocolViolation { state: State::HeadersStreaming, code: b'B' })
    );
    assert_eq!(
        State::Terminal.step(b'Q'),
        Err(SessionError::ProtocolViolation { state: State::Terminal, code: b'Q' })
    );
    assert_eq!(State::Connected.step(b'z'), Err(SessionError::UnknownCode(b'z')));
}

#[test]
fn abort_macro_and_quit() {
    assert_eq!(State::BodyStreaming.step(b'A'), Ok(State::HeloSeen));
    assert_eq!(State::Connected.step(b'A'), Ok(State::Connected));
    assert_eq!(State::RcptSeen.step(b'D'), Ok(State::RcptSeen));
    assert_eq!(State::HeadersStreaming.step(b'K'), Ok(State::Terminal));
    assert_eq!(State::Negotiated.step(b'Q'), Ok(State::Terminal));
    assert_eq!(State::RcptSeen.step(b'L'), Ok(State::HeadersStreaming));
}

#[test]
fn no_reply_bits() {
    assert!(awaits_reply_to(0, b'C'));
    assert!(!awaits_reply_to(0x1000, b'C'));
    assert!(!awaits_reply_to(0, b'D'));
    assert!(!awaits_reply_to(0, b'A'));
    assert!(awaits_reply_to(0xFFFF_FFFF, b'E'));
    assert!(!awaits_reply_to(0x80, b'L'));
    assert!(awaits_reply_to(0x80, b'N'));
}

fn absorb_all(frames: &[miltr_actions::frame::Frame]) -> ModificationResponse {
    let mut builder = ModificationResponseBuilder::new();
    for f in frames {
        match builder.absorb(f.code, bytes::BytesMut::from(&f.payload[..])).expect("absorbs") {
            Absorbed::Pending(b) => builder = b,
            Absorbed::Complete(r) => return r,
        }
    }
    panic!("no terminal action")
}

#[test]
fn client_reads_back_a_response() {
    let mut builder = ModificationResponseBuilder::new();
    builder.push(Modification::InsertHeader { index: 0, name: b"name".to_vec(), value: b"value".to_vec() });
    builder.push(Modification::AddRcpt { recipient: b"<r@x>".to_vec() });
    let reply = Replycode::new(RCode::new([4, 5, 1]), XCode::new([4, 7, 1]), "try later");
    let sent = builder.build(Action::Replycode(reply)).frames(0x1FF);
    let received = absorb_all(&sent);
    let mods = received.modifications();
    assert_eq!(mods.len(), 2);
    assert_eq!(mods[0].payload(), b"\0\0\0\0name\0value\0".to_vec());
    assert_eq!(mods[1].code(), b'+');
    match received.get_action() {
        Action::Replycode(r) => {
            assert_eq!(r.rcode().code(), [4, 5, 1]);
            assert_eq!(r.message_bytes(), b"try later");
        }
        _ => panic!("wrong action"),
    }
}

#[test]
fn client_skips_progress_and_refuses_strangers() {
    let builder = ModificationResponseBuilder::new();
    let builder = match builder.absorb(b'p', bytes::BytesMut::new()).expect("progress") {
        Absorbed::Pending(b) => b,
        Absorbed::Complete(_) => panic!("progress completed the response"),
    };
    assert!(matches!(builder.absorb(b'z', bytes::BytesMut::new()), Err(ProtocolError::UnknownCode(b'z'))));
    let builder = ModificationResponseBuilder::new();
    match builder.absorb(b'c', bytes::BytesMut::new()).expect("continue") {
        Absorbed::Complete(r) => {
            assert!(r.modifications().is_empty());
            assert!(matches!(r.get_action(), Action::Continue));
        }
        Absorbed::Pending(_) => panic!("continue did not complete"),
    }
    let builder = ModificationResponseBuilder::new();
    assert!(matches!(
        builder.absorb(b'a', bytes::BytesMut::from(&b"x"[..])),
        Err(ProtocolError::InvalidData(_))
    ));
}

#[test]
fn action_parse_codes() {
    assert!(matches!(Action::parse(b'c', bytes::BytesMut::new()), Ok(Action::Continue)));
    assert!(matches!(Action::parse(b'a', bytes::BytesMut::new()), Ok(Action::Accept)));
    assert!(matches!(Action::parse(b'd', bytes::BytesMut::new()), Ok(Action::Discard)));
    assert!(matches!(Action::parse(b'r', bytes::BytesMut::new()), Ok(Action::Reject)));
    assert!(matches!(Action::parse(b't', bytes::BytesMut::new()), Ok(Action::Tempfail)));
    assert!(matches!(Action::parse(b's', bytes::BytesMut::new()), Ok(Action::Skip)));
    assert!(matches!(Action::parse(b'h', bytes::BytesMut::new()), Err(ProtocolError::UnknownCode(b'h'))));
    assert!(matches!(
        Action::parse(b'y', bytes::BytesMut::from(&b"550 no\0"[..])),
        Ok(Action::Replycode(_))
    ));
}

#[test]
fn intermediate_reply_skips_progress() {
    assert!(matches!(Action::parse_reply(b'p', bytes::BytesMut::new()), Ok(None)));
    assert!(matches!(Action::parse_reply(b'c', bytes::BytesMut::new()), Ok(Some(Action::Continue))));
    match Action::parse_reply(b'y', bytes::BytesMut::from(&b"450 4.7.1 greylisted\0"[..])) {
        Ok(Some(Action::Replycode(r))) => {
            assert_eq!(r.rcode().code(), [4, 5, 0]);
            assert_eq!(r.xcode().clone().expect("has xcode").code(), [4, 7, 1]);
            assert_eq!(r.message(), "greylisted");
        }
        _ => panic!("wrong reply"),
    }
    assert!(matches!(Action::parse_reply(b'+', bytes::BytesMut::new()), Err(ProtocolError::UnknownCode(b'+'))));
}
