//! The reply to the end of a message: modifications in order, then one
//! terminal action.
use vstd::prelude::*;

use bytes::BytesMut;

use crate::actions::Replycode;
use crate::decoding::Parsable;
use crate::buffer::{
    buf_contents, get_u32, joined, lemma_nul_items_joined, new_buffer, nul_items, nul_terminated,
    read_items, to_vec, views,
};
use crate::encoding::Writable;
use crate::error::{InvalidData, NotEnoughData, ProtocolError, STAGE_DECODING};
use crate::frame::{be32_bytes, be32_value, extend_bytes, lemma_be32_bytes_value, Frame};

verus! {

/// Action bit: add headers.
pub const ACTION_ADD_HEADER: u32 = 0x01;

/// Action bit: replace the body.
pub const ACTION_CHANGE_BODY: u32 = 0x02;

/// Action bit: add recipients.
pub const ACTION_ADD_RCPT: u32 = 0x04;

/// Action bit: delete recipients.
pub const ACTION_DELETE_RCPT: u32 = 0x08;

/// Action bit: change or delete headers.
pub const ACTION_CHANGE_HEADER: u32 = 0x10;

/// Action bit: quarantine the message.
pub const ACTION_QUARANTINE: u32 = 0x20;

/// Action bit: change the envelope sender.
pub const ACTION_CHANGE_FROM: u32 = 0x40;

/// Action bit: add recipients with ESMTP arguments.
pub const ACTION_ADD_RCPT_PAR: u32 = 0x80;

/// A change to the message that the filter asks the MTA to make.
pub enum Modification {
    /// `+`: add a recipient.
    AddRcpt { recipient: Vec<u8> },
    /// `2`: add a recipient with ESMTP arguments.
    AddRcptPar { recipient: Vec<u8>, args: Vec<u8> },
    /// `-`: delete a recipient.
    DelRcpt { recipient: Vec<u8> },
    /// `b`: a chunk of the replacement body.
    ReplBody { chunk: Vec<u8> },
    /// `h`: append a header.
    AddHeader { name: Vec<u8>, value: Vec<u8> },
    /// `m`: change the `index`-th (from 1) header of that name; an empty value
    /// deletes it.
    ChangeHeader { index: u32, name: Vec<u8>, value: Vec<u8> },
    /// `i`: insert a header at position `index` (from 0) among the headers.
    InsertHeader { index: u32, name: Vec<u8>, value: Vec<u8> },
    /// `e`: change the envelope sender.
    ChangeFrom { sender: Vec<u8>, parameters: Option<Vec<u8>> },
    /// `q`: quarantine the message, giving a reason.
    Quarantine { reason: Vec<u8> },
}

/// The action bit that the modification with frame code `code` needs.
pub open spec fn required_action(code: u8) -> u32 {
    if code == 43 {
        ACTION_ADD_RCPT
    } else if code == 50 {
        ACTION_ADD_RCPT_PAR
    } else if code == 45 {
        ACTION_DELETE_RCPT
    } else if code == 98 {
        ACTION_CHANGE_BODY
    } else if code == 104 || code == 105 {
        ACTION_ADD_HEADER
    } else if code == 109 {
        ACTION_CHANGE_HEADER
    } else if code == 101 {
        ACTION_CHANGE_FROM
    } else if code == 113 {
        ACTION_QUARANTINE
    } else {
        0
    }
}

/// The frame code of a modification.
pub open spec fn mod_code(m: Modification) -> u8 {
    match m {
        Modification::AddRcpt { .. } => 43,
        Modification::AddRcptPar { .. } => 50,
        Modification::DelRcpt { .. } => 45,
        Modification::ReplBody { .. } => 98,
        Modification::AddHeader { .. } => 104,
        Modification::ChangeHeader { .. } => 109,
        Modification::InsertHeader { .. } => 105,
        Modification::ChangeFrom { .. } => 101,
        Modification::Quarantine { .. } => 113,
    }
}

/// The payload of a modification.
pub open spec fn mod_payload(m: Modification) -> Seq<u8> {
    match m {
        Modification::AddRcpt { recipient } => nul_terminated(recipient@),
        Modification::AddRcptPar { recipient, args } => nul_terminated(recipient@) + nul_terminated(args@),
        Modification::DelRcpt { recipient } => nul_terminated(recipient@),
        Modification::ReplBody { chunk } => chunk@,
        Modification::AddHeader { name, value } => nul_terminated(name@) + nul_terminated(value@),
        Modification::ChangeHeader { index, name, value } => be32_bytes(index) + nul_terminated(name@)
            + nul_terminated(value@),
        Modification::InsertHeader { index, name, value } => be32_bytes(index) + nul_terminated(name@)
            + nul_terminated(value@),
        Modification::ChangeFrom { sender, parameters } => nul_terminated(sender@) + match parameters {
            Some(a) => nul_terminated(a@),
            None => Seq::empty(),
        },
        Modification::Quarantine { reason } => nul_terminated(reason@),
    }
}

/// A modification as a frame: its code and payload.
pub open spec fn mod_frame(m: Modification) -> (u8, Seq<u8>) {
    (mod_code(m), mod_payload(m))
}

/// The negotiated action bits allow the modification.
pub open spec fn permitted(m: Modification, actions: u32) -> bool {
    actions & required_action(mod_code(m)) == required_action(mod_code(m))
}

/// A frame as its code and payload.
pub open spec fn frame_view(f: Frame) -> (u8, Seq<u8>) {
    (f.code, f.payload@)
}

/// The frames that the modifications `mods` put on the wire under the action
/// bits `actions`: those of the permitted ones, in order.
pub open spec fn emitted(mods: Seq<Modification>, actions: u32) -> Seq<(u8, Seq<u8>)> {
    kept(mods, actions).map_values(|m: Modification| mod_frame(m))
}

/// The modifications that the action bits `actions` allow, in order.
pub open spec fn kept(mods: Seq<Modification>, actions: u32) -> Seq<Modification> {
    mods.filter(permitted_under(actions))
}

/// Whether the action bits `actions` allow a modification.
pub open spec fn permitted_under(actions: u32) -> spec_fn(Modification) -> bool {
    |m: Modification| permitted(m, actions)
}

/// The number of NUL-terminated items that the payload of the modification
/// with frame code `code` holds (after the index, for those that have one).
pub open spec fn mod_item_count_ok(code: u8, n: int) -> bool {
    if code == 43 || code == 45 || code == 113 {
        n == 1
    } else if code == 50 || code == 104 || code == 109 || code == 105 {
        n == 2
    } else if code == 101 {
        n == 1 || n == 2
    } else {
        false
    }
}

/// The frame code is that of a modification that starts with a header index.
pub open spec fn has_index(code: u8) -> bool {
    code == 109 || code == 105
}

/// The payload `s` is well formed for the modification with frame code `code`.
pub open spec fn mod_accepts(code: u8, s: Seq<u8>) -> bool {
    if code == 98 {
        true
    } else if has_index(code) {
        s.len() >= 4 && (nul_items(s.skip(4)) matches Some(it) && mod_item_count_ok(code, it.len() as int))
    } else {
        nul_items(s) matches Some(it) && mod_item_count_ok(code, it.len() as int)
    }
}

/// `m` is the modification that frame code `code` and payload `s` stand for.
pub open spec fn mod_parsed(code: u8, s: Seq<u8>, m: Modification) -> bool {
    match m {
        Modification::AddRcpt { recipient } => code == 43 && nul_items(s) == Some(seq![recipient@]),
        Modification::AddRcptPar { recipient, args } => code == 50 && nul_items(s) == Some(
            seq![recipient@, args@],
        ),
        Modification::DelRcpt { recipient } => code == 45 && nul_items(s) == Some(seq![recipient@]),
        Modification::ReplBody { chunk } => code == 98 && chunk@ == s,
        Modification::AddHeader { name, value } => code == 104 && nul_items(s) == Some(seq![name@, value@]),
        Modification::ChangeHeader { index, name, value } => code == 109 && s.len() >= 4 && index
            == be32_value(s) && nul_items(s.skip(4)) == Some(seq![name@, value@]),
        Modification::InsertHeader { index, name, value } => code == 105 && s.len() >= 4 && index
            == be32_value(s) && nul_items(s.skip(4)) == Some(seq![name@, value@]),
        Modification::ChangeFrom { sender, parameters } => code == 101 && match parameters {
            Some(p) => nul_items(s) == Some(seq![sender@, p@]),
            None => nul_items(s) == Some(seq![sender@]),
        },
        Modification::Quarantine { reason } => code == 113 && nul_items(s) == Some(seq![reason@]),
    }
}

/// Joining one item.
proof fn lemma_joined_one(a: Seq<u8>)
    ensures
        joined(seq![a]) == nul_terminated(a),
{
    reveal_with_fuel(joined, 2);
    assert(seq![a].drop_first() =~= Seq::<Seq<u8>>::empty());
    assert(joined(seq![a]) =~= nul_terminated(a));
}

/// Joining two items.
proof fn lemma_joined_two(a: Seq<u8>, b: Seq<u8>)
    ensures
        joined(seq![a, b]) == nul_terminated(a) + nul_terminated(b),
{
    reveal_with_fuel(joined, 3);
    assert(seq![a, b].drop_first() =~= seq![b]);
    assert(seq![b].drop_first() =~= Seq::<Seq<u8>>::empty());
    assert(joined(seq![a, b]) =~= nul_terminated(a) + nul_terminated(b));
}

/// For every modification, a well-formed payload is written back exactly as it
/// was read, under the same frame code.
pub proof fn law_modification_parse_then_write(code: u8, s: Seq<u8>, m: Modification)
    requires
        mod_parsed(code, s, m),
    ensures
        mod_code(m) == code,
        mod_payload(m) == s,
{
    match m {
        Modification::ReplBody { .. } => {},
        Modification::ChangeHeader { index, name, value } => {
            lemma_nul_items_joined(s.skip(4));
            lemma_joined_two(name@, value@);
            lemma_be32_bytes_value(s);
            assert(s =~= s.take(4) + s.skip(4));
        },
        Modification::InsertHeader { index, name, value } => {
            lemma_nul_items_joined(s.skip(4));
            lemma_joined_two(name@, value@);
            lemma_be32_bytes_value(s);
            assert(s =~= s.take(4) + s.skip(4));
        },
        Modification::AddRcptPar { recipient, args } => {
            lemma_nul_items_joined(s);
            lemma_joined_two(recipient@, args@);
        },
        Modification::AddHeader { name, value } => {
            lemma_nul_items_joined(s);
            lemma_joined_two(name@, value@);
        },
        Modification::ChangeFrom { sender, parameters } => {
            lemma_nul_items_joined(s);
            match parameters {
                Some(p) => {
                    lemma_joined_two(sender@, p@);
                },
                None => {
                    lemma_joined_one(sender@);
                    assert(s =~= nul_terminated(sender@) + Seq::<u8>::empty());
                },
            }
        },
        Modification::AddRcpt { recipient } => {
            lemma_nul_items_joined(s);
            lemma_joined_one(recipient@);
        },
        Modification::DelRcpt { recipient } => {
            lemma_nul_items_joined(s);
            lemma_joined_one(recipient@);
        },
        Modification::Quarantine { reason } => {
            lemma_nul_items_joined(s);
            lemma_joined_one(reason@);
        },
    }
}

impl Modification {
    /// Reads the modification that a frame with code `code` carries in its
    /// payload `buffer`.
    pub fn parse(code: u8, buffer: BytesMut) -> (r: Result<Modification, ProtocolError>)
        ensures
            match r {
                Ok(m) => mod_accepts(code, buf_contents(buffer)) && mod_parsed(code, buf_contents(buffer), m),
                Err(_) => !mod_accepts(code, buf_contents(buffer)),
            },
    {
        let mut buffer = buffer;
        let ghost s = buf_contents(buffer);
        if code == 98 {
            return Ok(Modification::ReplBody { chunk: to_vec(&buffer) });
        }
        let index: u32 = if code == 109 || code == 105 {
            match get_u32(&mut buffer) {
                Some(i) => i,
                None => {
                    return Err(
                        ProtocolError::NotEnoughData(
                            NotEnoughData {
                                stage: STAGE_DECODING,
                                item: "Modification",
                                msg: "Missing header index",
                                expected: 4,
                                got: 0,
                                offending_bytes: to_vec(&buffer),
                            },
                        ),
                    );
                },
            }
        } else {
            0
        };
        let mut items = match read_items(&mut buffer) {
            Some(items) => items,
            None => {
                return Err(
                    ProtocolError::NotEnoughData(
                        NotEnoughData {
                            stage: STAGE_DECODING,
                            item: "Modification",
                            msg: "Missing nullbyte delimiter",
                            expected: 1,
                            got: 0,
                            offending_bytes: to_vec(&buffer),
                        },
                    ),
                );
            },
        };
        let ghost all = views(items@);
        let n = items.len();
        let one = code == 43 || code == 45 || code == 113 || (code == 101 && n == 1);
        let two = code == 50 || code == 104 || code == 109 || code == 105 || (code == 101 && n == 2);
        if (one && n != 1) || (two && n != 2) || (!one && !two) {
            return Err(
                ProtocolError::InvalidData(
                    InvalidData { msg: "Payload does not fit the modification", offending_bytes: to_vec(&buffer) },
                ),
            );
        }
        if n == 1 {
            let a = items.pop().unwrap();
            assert(all =~= seq![a@]);
            if code == 43 {
                Ok(Modification::AddRcpt { recipient: a })
            } else if code == 45 {
                Ok(Modification::DelRcpt { recipient: a })
            } else if code == 113 {
                Ok(Modification::Quarantine { reason: a })
            } else {
                Ok(Modification::ChangeFrom { sender: a, parameters: None })
            }
        } else {
            let b = items.pop().unwrap();
            let a = items.pop().unwrap();
            assert(all =~= seq![a@, b@]);
            if code == 50 {
                Ok(Modification::AddRcptPar { recipient: a, args: b })
            } else if code == 104 {
                Ok(Modification::AddHeader { name: a, value: b })
            } else if code == 109 {
                Ok(Modification::ChangeHeader { index, name: a, value: b })
            } else if code == 105 {
                Ok(Modification::InsertHeader { index, name: a, value: b })
            } else {
                Ok(Modification::ChangeFrom { sender: a, parameters: Some(b) })
            }
        }
    }

    /// The frame code of this modification.
    pub fn code(&self) -> (r: u8)
        ensures
            r == mod_code(*self),
    {
        match self {
            Modification::AddRcpt { .. } => 43,
            Modification::AddRcptPar { .. } => 50,
            Modification::DelRcpt { .. } => 45,
            Modification::ReplBody { .. } => 98,
            Modification::AddHeader { .. } => 104,
            Modification::ChangeHeader { .. } => 109,
            Modification::InsertHeader { .. } => 105,
            Modification::ChangeFrom { .. } => 101,
            Modification::Quarantine { .. } => 113,
        }
    }

    /// The action bit that this modification needs.
    pub fn required_action(&self) -> (r: u32)
        ensures
            r == required_action(mod_code(*self)),
    {
        match self {
            Modification::AddRcpt { .. } => ACTION_ADD_RCPT,
            Modification::AddRcptPar { .. } => ACTION_ADD_RCPT_PAR,
            Modification::DelRcpt { .. } => ACTION_DELETE_RCPT,
            Modification::ReplBody { .. } => ACTION_CHANGE_BODY,
            Modification::AddHeader { .. } => ACTION_ADD_HEADER,
            Modification::ChangeHeader { .. } => ACTION_CHANGE_HEADER,
            Modification::InsertHeader { .. } => ACTION_ADD_HEADER,
            Modification::ChangeFrom { .. } => ACTION_CHANGE_FROM,
            Modification::Quarantine { .. } => ACTION_QUARANTINE,
        }
    }

    /// The payload of this modification.
    pub fn payload(&self) -> (r: Vec<u8>)
        ensures
            r@ == mod_payload(*self),
    {
        let mut out: Vec<u8> = Vec::new();
        match self {
            Modification::AddRcpt { recipient } => {
                push_terminated(&mut out, recipient.as_slice());
            },
            Modification::AddRcptPar { recipient, args } => {
                push_terminated(&mut out, recipient.as_slice());
                push_terminated(&mut out, args.as_slice());
            },
            Modification::DelRcpt { recipient } => {
                push_terminated(&mut out, recipient.as_slice());
            },
            Modification::ReplBody { chunk } => {
                extend_bytes(&mut out, chunk.as_slice());
            },
            Modification::AddHeader { name, value } => {
                push_terminated(&mut out, name.as_slice());
                push_terminated(&mut out, value.as_slice());
            },
            Modification::ChangeHeader { index, name, value } => {
                push_be32(&mut out, *index);
                push_terminated(&mut out, name.as_slice());
                push_terminated(&mut out, value.as_slice());
            },
            Modification::InsertHeader { index, name, value } => {
                push_be32(&mut out, *index);
                push_terminated(&mut out, name.as_slice());
                push_terminated(&mut out, value.as_slice());
            },
            Modification::ChangeFrom { sender, parameters } => {
                push_terminated(&mut out, sender.as_slice());
                if let Some(a) = parameters {
                    push_terminated(&mut out, a.as_slice());
                }
            },
            Modification::Quarantine { reason } => {
                push_terminated(&mut out, reason.as_slice());
            },
        }
        assert(out@ =~= mod_payload(*self));
        out
    }
}

/// The action that ends a response.
pub enum Action {
    /// `c`: go on with the message.
    Continue,
    /// `a`: accept the message without further filtering.
    Accept,
    /// `d`: silently drop the message.
    Discard,
    /// `r`: reject the message.
    Reject,
    /// `t`: fail the message temporarily.
    Tempfail,
    /// `s`: skip the rest of this stage (body chunks, say).
    Skip,
    /// `y`: answer the SMTP client with this reply.
    Replycode(Replycode),
}

/// The frame code of an action.
pub open spec fn action_code(a: Action) -> u8 {
    match a {
        Action::Continue => 99,
        Action::Accept => 97,
        Action::Discard => 100,
        Action::Reject => 114,
        Action::Tempfail => 116,
        Action::Skip => 115,
        Action::Replycode(_) => 121,
    }
}

/// The payload of an action.
pub open spec fn action_payload(a: Action) -> Seq<u8> {
    match a {
        Action::Replycode(r) => r.wire(),
        _ => Seq::empty(),
    }
}

/// An action as a frame: its code and payload.
pub open spec fn action_frame(a: Action) -> (u8, Seq<u8>) {
    (action_code(a), action_payload(a))
}

/// `code` is the frame code of a terminal action.
pub open spec fn is_action_code(code: u8) -> bool {
    code == 99 || code == 97 || code == 100 || code == 114 || code == 116 || code == 115 || code == 121
}

/// `code` is the frame code of a modification.
pub open spec fn is_modification_code(code: u8) -> bool {
    code == 43 || code == 50 || code == 45 || code == 98 || code == 104 || code == 109 || code == 105
        || code == 101 || code == 113
}

/// Frame code `p`: the filter is still working.
pub const PROGRESS: u8 = 112;

/// The payload `s` is well formed for the action with frame code `code`.
pub open spec fn action_accepts(code: u8, s: Seq<u8>) -> bool {
    if code == 121 {
        Replycode::accepts(s)
    } else {
        is_action_code(code) && s.len() == 0
    }
}

/// `a` is the action that frame code `code` and payload `s` stand for.
pub open spec fn action_parsed(code: u8, s: Seq<u8>, a: Action) -> bool {
    match a {
        Action::Replycode(r) => code == 121 && Replycode::parsed(s, r),
        _ => action_code(a) == code,
    }
}

impl Action {
    /// Reads the terminal action that a frame with code `code` carries in its
    /// payload `buffer`.
    pub fn parse(code: u8, buffer: BytesMut) -> (r: Result<Action, ProtocolError>)
        ensures
            match r {
                Ok(a) => action_accepts(code, buf_contents(buffer)) && action_parsed(code, buf_contents(buffer), a),
                Err(_) => !action_accepts(code, buf_contents(buffer)),
            },
    {
        if code == 121 {
            return match Replycode::parse(buffer) {
                Ok(reply) => Ok(Action::Replycode(reply)),
                Err(e) => Err(e),
            };
        }
        let bytes = to_vec(&buffer);
        let action = if code == 99 {
            Action::Continue
        } else if code == 97 {
            Action::Accept
        } else if code == 100 {
            Action::Discard
        } else if code == 114 {
            Action::Reject
        } else if code == 116 {
            Action::Tempfail
        } else if code == 115 {
            Action::Skip
        } else {
            return Err(ProtocolError::UnknownCode(code));
        };
        if bytes.len() != 0 {
            return Err(
                ProtocolError::InvalidData(InvalidData { msg: "unexpected payload", offending_bytes: bytes }),
            );
        }
        Ok(action)
    }

    /// Reads the filter's reply to a command other than end-of-body: `None` for a
    /// progress frame, after which the reply is still to come.
    pub fn parse_reply(code: u8, buffer: BytesMut) -> (r: Result<Option<Action>, ProtocolError>)
        ensures
            code == PROGRESS ==> r matches Ok(None),
            code != PROGRESS ==> match r {
                Ok(Some(a)) => action_accepts(code, buf_contents(buffer)) && action_parsed(
                    code,
                    buf_contents(buffer),
                    a,
                ),
                Ok(None) => false,
                Err(_) => !action_accepts(code, buf_contents(buffer)),
            },
    {
        if code == PROGRESS {
            return Ok(None);
        }
        match Action::parse(code, buffer) {
            Ok(a) => Ok(Some(a)),
            Err(e) => Err(e),
        }
    }

    /// This action as a frame.
    pub fn frame(&self) -> (r: Frame)
        requires
            action_payload(*self).len() <= isize::MAX,
        ensures
            frame_view(r) == action_frame(*self),
    {
        match self {
            Action::Continue => Frame { code: 99, payload: Vec::new() },
            Action::Accept => Frame { code: 97, payload: Vec::new() },
            Action::Discard => Frame { code: 100, payload: Vec::new() },
            Action::Reject => Frame { code: 114, payload: Vec::new() },
            Action::Tempfail => Frame { code: 116, payload: Vec::new() },
            Action::Skip => Frame { code: 115, payload: Vec::new() },
            Action::Replycode(reply) => {
                let mut buffer = new_buffer();
                reply.write(&mut buffer);
                assert(buf_contents(buffer) =~= reply.wire());
                Frame { code: 121, payload: to_vec(&buffer) }
            },
        }
    }
}

/// Modifications collected so far; sealing it with an action makes a
/// [`ModificationResponse`], after which nothing can be added.
pub struct ModificationResponseBuilder {
    modifications: Vec<Modification>,
}

/// Modifications in the order they were added, then one terminal action.
pub struct ModificationResponse {
    modifications: Vec<Modification>,
    action: Action,
}

impl ModificationResponseBuilder {
    /// The modifications collected so far, in order.
    pub closed spec fn mods(&self) -> Seq<Modification> {
        self.modifications@
    }

    /// A builder with no modifications.
    pub fn new() -> (r: Self)
        ensures
            r.mods() == Seq::<Modification>::empty(),
    {
        ModificationResponseBuilder { modifications: Vec::new() }
    }

    /// Adds a modification after those already there.
    pub fn push(&mut self, m: Modification)
        ensures
            final(self).mods() == old(self).mods().push(m),
    {
        self.modifications.push(m);
    }

    /// Seals the response with `action`.
    pub fn build(self, action: Action) -> (r: ModificationResponse)
        ensures
            r.mods() == self.mods(),
            r.action() == action,
    {
        ModificationResponse { modifications: self.modifications, action }
    }

    /// Seals the response with Continue.
    pub fn contin(self) -> (r: ModificationResponse)
        ensures
            r.mods() == self.mods(),
            r.action() == Action::Continue,
    {
        self.build(Action::Continue)
    }

    /// Seals the response with Accept.
    pub fn accept(self) -> (r: ModificationResponse)
        ensures
            r.mods() == self.mods(),
            r.action() == Action::Accept,
    {
        self.build(Action::Accept)
    }

    /// Seals the response with Discard.
    pub fn discard(self) -> (r: ModificationResponse)
        ensures
            r.mods() == self.mods(),
            r.action() == Action::Discard,
    {
        self.build(Action::Discard)
    }

    /// Seals the response with Reject.
    pub fn reject(self) -> (r: ModificationResponse)
        ensures
            r.mods() == self.mods(),
            r.action() == Action::Reject,
    {
        self.build(Action::Reject)
    }

    /// Seals the response with Tempfail.
    pub fn tempfail(self) -> (r: ModificationResponse)
        ensures
            r.mods() == self.mods(),
            r.action() == Action::Tempfail,
    {
        self.build(Action::Tempfail)
    }
}

/// Where reading the end-of-body reply stands after one more frame.
pub enum Absorbed {
    /// More frames are to come.
    Pending(ModificationResponseBuilder),
    /// The terminal action came: the response is complete.
    Complete(ModificationResponse),
}

impl ModificationResponseBuilder {
    /// Takes one frame of the reply to end-of-body: a progress frame changes
    /// nothing, a modification is added after the others, and a terminal action
    /// completes the response. Any other code is refused.
    pub fn absorb(self, code: u8, payload: BytesMut) -> (r: Result<Absorbed, ProtocolError>)
        ensures
            code == PROGRESS ==> (r matches Ok(Absorbed::Pending(b)) && b.mods() == self.mods()),
            is_modification_code(code) ==> match r {
                Ok(Absorbed::Pending(b)) => mod_accepts(code, buf_contents(payload)) && b.mods().len()
                    == self.mods().len() + 1 && b.mods().drop_last() == self.mods() && mod_parsed(
                    code,
                    buf_contents(payload),
                    b.mods().last(),
                ),
                Ok(Absorbed::Complete(_)) => false,
                Err(_) => !mod_accepts(code, buf_contents(payload)),
            },
            is_action_code(code) ==> match r {
                Ok(Absorbed::Complete(resp)) => action_accepts(code, buf_contents(payload)) && resp.mods()
                    == self.mods() && action_parsed(code, buf_contents(payload), resp.action()),
                Ok(Absorbed::Pending(_)) => false,
                Err(_) => !action_accepts(code, buf_contents(payload)),
            },
            code != PROGRESS && !is_modification_code(code) && !is_action_code(code) ==> r == Err::<
                Absorbed,
                ProtocolError,
            >(ProtocolError::UnknownCode(code)),
    {
        if code == PROGRESS {
            return Ok(Absorbed::Pending(self));
        }
        if code == 43 || code == 50 || code == 45 || code == 98 || code == 104 || code == 109 || code == 105
            || code == 101 || code == 113 {
            let m = match Modification::parse(code, payload) {
                Ok(m) => m,
                Err(e) => {
                    return Err(e);
                },
            };
            let mut builder = self;
            builder.push(m);
            return Ok(Absorbed::Pending(builder));
        }
        if code == 99 || code == 97 || code == 100 || code == 114 || code == 116 || code == 115 || code == 121 {
            return match Action::parse(code, payload) {
                Ok(a) => Ok(Absorbed::Complete(self.build(a))),
                Err(e) => Err(e),
            };
        }
        Err(ProtocolError::UnknownCode(code))
    }
}

impl ModificationResponse {
    /// The modifications, in the order they were added.
    pub closed spec fn mods(&self) -> Seq<Modification> {
        self.modifications@
    }

    /// The terminal action.
    pub closed spec fn action(&self) -> Action {
        self.action
    }

    /// A response with no modifications that continues.
    pub fn empty_continue() -> (r: Self)
        ensures
            r.mods() == Seq::<Modification>::empty(),
            r.action() == Action::Continue,
    {
        ModificationResponse { modifications: Vec::new(), action: Action::Continue }
    }

    /// The terminal action.
    pub fn get_action(&self) -> (r: &Action)
        ensures
            *r == self.action(),
    {
        &self.action
    }

    /// The modifications, in the order they were added.
    pub fn modifications(&self) -> (r: &[Modification])
        ensures
            r@ == self.mods(),
    {
        self.modifications.as_slice()
    }

    /// The frames that go on the wire under the negotiated action bits
    /// `actions`: each permitted modification in order, a modification whose
    /// action bit was not negotiated left out, and last the terminal action.
    pub fn frames(&self, actions: u32) -> (r: Vec<Frame>)
        requires
            action_payload(self.action()).len() <= isize::MAX,
        ensures
            r@.map_values(|f: Frame| frame_view(f)) == emitted(self.mods(), actions) + seq![
                action_frame(self.action()),
            ],
    {
        let mut out: Vec<Frame> = Vec::new();
        let mut i: usize = 0;
        while i < self.modifications.len()
            invariant
                0 <= i <= self.modifications@.len(),
                out@.map_values(|f: Frame| frame_view(f)) == emitted(self.modifications@.take(i as int), actions),
            decreases self.modifications@.len() - i,
        {
            let m = &self.modifications[i];
            let bit = m.required_action();
            let ghost before = self.modifications@.take(i as int);
            let ghost next = self.modifications@.take(i + 1);
            proof {
                assert(next =~= before.push(*m));
                before.lemma_filter_push(*m, permitted_under(actions));
                assert(kept(next, actions) == if permitted(*m, actions) {
                    kept(before, actions).push(*m)
                } else {
                    kept(before, actions)
                });
            }
            if actions & bit == bit {
                let f = Frame { code: m.code(), payload: m.payload() };
                let ghost shown = out@.map_values(|f: Frame| frame_view(f));
                out.push(f);
                proof {
                    assert(out@.map_values(|f: Frame| frame_view(f)) =~= shown.push(mod_frame(*m)));
                    assert(emitted(next, actions) =~= emitted(before, actions).push(mod_frame(*m)));
                }
            }
            i = i + 1;
            assert(out@.map_values(|f: Frame| frame_view(f)) =~= emitted(next, actions));
        }
        assert(self.modifications@.take(i as int) =~= self.modifications@);
        out.push(self.action.frame());
        assert(out@.map_values(|f: Frame| frame_view(f)) =~= emitted(self.mods(), actions) + seq![
            action_frame(self.action()),
        ]);
        out
    }
}

/// Where the action bits allow every modification, the modifications go on the
/// wire exactly in the order they were added (the terminal action then follows
/// them, as `ModificationResponse::frames` states).
pub proof fn law_modifications_in_order(mods: Seq<Modification>, actions: u32)
    requires
        forall|i: int| 0 <= i < mods.len() ==> permitted(#[trigger] mods[i], actions),
    ensures
        emitted(mods, actions) == mods.map_values(|m: Modification| mod_frame(m)),
    decreases mods.len(),
{
    if mods.len() > 0 {
        let init = mods.drop_last();
        assert forall|i: int| 0 <= i < init.len() implies permitted(#[trigger] init[i], actions) by {
            assert(init[i] == mods[i]);
        }
        law_modifications_in_order(init, actions);
        assert(mods =~= init.push(mods.last()));
        init.lemma_filter_push(mods.last(), permitted_under(actions));
        assert(permitted(mods[mods.len() - 1], actions));
        assert(emitted(mods, actions) =~= emitted(init, actions).push(mod_frame(mods.last())));
        assert(emitted(mods, actions) =~= mods.map_values(|m: Modification| mod_frame(m)));
    } else {
        assert(emitted(mods, actions) =~= mods.map_values(|m: Modification| mod_frame(m)));
    }
}

/// No modification frame goes on the wire unless the action bit that its code
/// needs was negotiated.
pub proof fn law_only_negotiated_modifications(mods: Seq<Modification>, actions: u32)
    ensures
        forall|i: int|
            0 <= i < emitted(mods, actions).len() ==> actions & required_action(
                (#[trigger] emitted(mods, actions)[i]).0,
            ) == required_action(emitted(mods, actions)[i].0),
{
    let k = kept(mods, actions);
    assert forall|i: int|
        0 <= i < emitted(mods, actions).len() implies actions & required_action(
            (#[trigger] emitted(mods, actions)[i]).0,
        ) == required_action(emitted(mods, actions)[i].0) by {
        mods.lemma_filter_pred(permitted_under(actions), i);
        assert(emitted(mods, actions)[i] == mod_frame(k[i]));
    }
}

/// Appends `s` and a NUL to `out`.
fn push_terminated(out: &mut Vec<u8>, s: &[u8])
    ensures
        final(out)@ == old(out)@ + nul_terminated(s@),
{
    extend_bytes(out, s);
    out.push(0);
    assert(final(out)@ =~= old(out)@ + nul_terminated(s@));
}

/// Appends the four big-endian bytes of `n` to `out`.
fn push_be32(out: &mut Vec<u8>, n: u32)
    ensures
        final(out)@ == old(out)@ + be32_bytes(n),
{
    out.push((n >> 24u32) as u8);
    out.push((n >> 16u32) as u8);
    out.push((n >> 8u32) as u8);
    out.push(n as u8);
    assert(final(out)@ =~= old(out)@ + be32_bytes(n));
}

} // verus!
