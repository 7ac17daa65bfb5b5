//! Filter replies that go to the MTA only: discard, reject, tempfail, skip and
//! a custom SMTP reply code.
use bytes::BytesMut;
use vstd::prelude::*;
use vstd::slice::slice_to_vec;
use vstd::string::StringSliceAdditionalSpecFns;
use vstd::utf8::{decode_utf8, valid_utf8};

use crate::buffer::{buf_contents, delimited, first_index, position, put_slice, to_vec};
use crate::decoding::Parsable;
use crate::encoding::Writable;
use crate::error::{InvalidData, NotEnoughData, ProtocolError, STAGE_DECODING};
use crate::numeral::{
    all_digits, decimal, digits_value, is_digit, is_u16_numeral, parse_u16_numeral, push_decimal,
};

verus! {

/// (Silently) discard this mail without forwarding it.
#[derive(Debug, Clone, Copy)]
pub struct Discard;

impl Discard {
    /// The frame code of this reply, `d`.
    pub const CODE: u8 = 100;
}

impl Parsable for Discard {
    open spec fn accepts(bytes: Seq<u8>) -> bool {
        bytes.len() == 0
    }

    open spec fn parsed(bytes: Seq<u8>, v: Self) -> bool {
        true
    }

    open spec fn truncated(bytes: Seq<u8>) -> bool {
        false
    }

    /// The payload is empty; anything in it is an error.
    fn parse(buffer: BytesMut) -> (r: Result<Self, ProtocolError>) {
        let bytes = to_vec(&buffer);
        if bytes.len() == 0 {
            Ok(Discard)
        } else {
            Err(ProtocolError::InvalidData(InvalidData { msg: "unexpected payload", offending_bytes: bytes }))
        }
    }

    proof fn lemma_parse_then_write(bytes: Seq<u8>, v: Self) {
    }
}

impl Writable for Discard {
    open spec fn wire(&self) -> Seq<u8> {
        Seq::empty()
    }

    open spec fn frame_code(&self) -> u8 {
        100
    }

    fn write(&self, buffer: &mut BytesMut) {
        assert(buf_contents(*old(buffer)) + Seq::empty() =~= buf_contents(*old(buffer)));
    }

    fn len(&self) -> (r: usize) {
        0
    }

    fn code(&self) -> (r: u8) {
        Self::CODE
    }

    fn is_empty(&self) -> (r: bool) {
        true
    }
}

/// Reject this mail, informing the SMTP client about it.
#[derive(Debug, Clone, Copy)]
pub struct Reject;

impl Reject {
    /// The frame code of this reply, `r`.
    pub const CODE: u8 = 114;
}

impl Parsable for Reject {
    open spec fn accepts(bytes: Seq<u8>) -> bool {
        bytes.len() == 0
    }

    open spec fn parsed(bytes: Seq<u8>, v: Self) -> bool {
        true
    }

    open spec fn truncated(bytes: Seq<u8>) -> bool {
        false
    }

    /// The payload is empty; anything in it is an error.
    fn parse(buffer: BytesMut) -> (r: Result<Self, ProtocolError>) {
        let bytes = to_vec(&buffer);
        if bytes.len() == 0 {
            Ok(Reject)
        } else {
            Err(ProtocolError::InvalidData(InvalidData { msg: "unexpected payload", offending_bytes: bytes }))
        }
    }

    proof fn lemma_parse_then_write(bytes: Seq<u8>, v: Self) {
    }
}

impl Writable for Reject {
    open spec fn wire(&self) -> Seq<u8> {
        Seq::empty()
    }

    open spec fn frame_code(&self) -> u8 {
        114
    }

    fn write(&self, buffer: &mut BytesMut) {
        assert(buf_contents(*old(buffer)) + Seq::empty() =~= buf_contents(*old(buffer)));
    }

    fn len(&self) -> (r: usize) {
        0
    }

    fn code(&self) -> (r: u8) {
        Self::CODE
    }

    fn is_empty(&self) -> (r: bool) {
        true
    }
}

/// Return a tempfail code to the SMTP client.
#[derive(Debug, Clone, Copy)]
pub struct Tempfail;

impl Tempfail {
    /// The frame code of this reply, `t`.
    pub const CODE: u8 = 116;
}

impl Parsable for Tempfail {
    open spec fn accepts(bytes: Seq<u8>) -> bool {
        bytes.len() == 0
    }

    open spec fn parsed(bytes: Seq<u8>, v: Self) -> bool {
        true
    }

    open spec fn truncated(bytes: Seq<u8>) -> bool {
        false
    }

    /// The payload is empty; anything in it is an error.
    fn parse(buffer: BytesMut) -> (r: Result<Self, ProtocolError>) {
        let bytes = to_vec(&buffer);
        if bytes.len() == 0 {
            Ok(Tempfail)
        } else {
            Err(ProtocolError::InvalidData(InvalidData { msg: "unexpected payload", offending_bytes: bytes }))
        }
    }

    proof fn lemma_parse_then_write(bytes: Seq<u8>, v: Self) {
    }
}

impl Writable for Tempfail {
    open spec fn wire(&self) -> Seq<u8> {
        Seq::empty()
    }

    open spec fn frame_code(&self) -> u8 {
        116
    }

    fn write(&self, buffer: &mut BytesMut) {
        assert(buf_contents(*old(buffer)) + Seq::empty() =~= buf_contents(*old(buffer)));
    }

    fn len(&self) -> (r: usize) {
        0
    }

    fn code(&self) -> (r: u8) {
        Self::CODE
    }

    fn is_empty(&self) -> (r: bool) {
        true
    }
}

/// Skip further processing of this mail.
#[derive(Debug, Clone, Copy)]
pub struct Skip;

impl Skip {
    /// The frame code of this reply, `s`.
    pub const CODE: u8 = 115;
}

impl Parsable for Skip {
    open spec fn accepts(bytes: Seq<u8>) -> bool {
        bytes.len() == 0
    }

    open spec fn parsed(bytes: Seq<u8>, v: Self) -> bool {
        true
    }

    open spec fn truncated(bytes: Seq<u8>) -> bool {
        false
    }

    /// The payload is empty; anything in it is an error.
    fn parse(buffer: BytesMut) -> (r: Result<Self, ProtocolError>) {
        let bytes = to_vec(&buffer);
        if bytes.len() == 0 {
            Ok(Skip)
        } else {
            Err(ProtocolError::InvalidData(InvalidData { msg: "unexpected payload", offending_bytes: bytes }))
        }
    }

    proof fn lemma_parse_then_write(bytes: Seq<u8>, v: Self) {
    }
}

impl Writable for Skip {
    open spec fn wire(&self) -> Seq<u8> {
        Seq::empty()
    }

    open spec fn frame_code(&self) -> u8 {
        115
    }

    fn write(&self, buffer: &mut BytesMut) {
        assert(buf_contents(*old(buffer)) + Seq::empty() =~= buf_contents(*old(buffer)));
    }

    fn len(&self) -> (r: usize) {
        0
    }

    fn code(&self) -> (r: u8) {
        Self::CODE
    }

    fn is_empty(&self) -> (r: bool) {
        true
    }
}

/// Three ASCII digits: the text of an SMTP reply code.
pub open spec fn is_rcode_text(s: Seq<u8>) -> bool {
    s.len() == 3 && all_digits(s)
}

/// The digits of a reply code text, as numbers.
pub open spec fn rcode_digits(s: Seq<u8>) -> Seq<u8> {
    seq![(s[0] - 48) as u8, (s[1] - 48) as u8, (s[2] - 48) as u8]
}

/// How a reply code built from numbers is spelled: their decimal spellings one
/// after another.
pub open spec fn rcode_spelling(c: Seq<u8>) -> Seq<u8> {
    decimal(c[0] as nat) + decimal(c[1] as nat) + decimal(c[2] as nat)
}

/// The three parts of an enhanced status code text, split at its first two dots.
pub open spec fn xcode_parts(s: Seq<u8>) -> Option<(Seq<u8>, Seq<u8>, Seq<u8>)> {
    match first_index(s, 46) {
        None => None,
        Some(i) => {
            let rest = s.skip(i + 1);
            match first_index(rest, 46) {
                None => None,
                Some(k) => Some((s.take(i), rest.take(k), rest.skip(k + 1))),
            }
        },
    }
}

/// Three dot-separated decimal numerals, each of which fits in a `u16`.
pub open spec fn is_xcode_text(s: Seq<u8>) -> bool {
    match xcode_parts(s) {
        Some((a, b, c)) => is_u16_numeral(a) && is_u16_numeral(b) && is_u16_numeral(c),
        None => false,
    }
}

/// The numbers of an enhanced status code text.
pub open spec fn xcode_numbers(s: Seq<u8>) -> Seq<u16> {
    match xcode_parts(s) {
        Some((a, b, c)) => seq![digits_value(a) as u16, digits_value(b) as u16, digits_value(c) as u16],
        None => seq![],
    }
}

/// How an enhanced status code built from numbers is spelled.
pub open spec fn xcode_spelling(c: Seq<u16>) -> Seq<u8> {
    decimal(c[0] as nat) + seq![46u8] + decimal(c[1] as nat) + seq![46u8] + decimal(c[2] as nat)
}

/// The SMTP reply code, such as `550`.
#[derive(Debug, Clone)]
pub struct RCode {
    code: [u8; 3],
    bytes: Vec<u8>,
}

impl RCode {
    /// The code's numbers.
    pub closed spec fn digits(&self) -> Seq<u8> {
        self.code@
    }

    /// The code as it goes on the wire.
    pub closed spec fn text(&self) -> Seq<u8> {
        self.bytes@
    }

    /// A reply code from its numbers.
    pub fn new(code: [u8; 3]) -> (r: Self)
        ensures
            r.digits() == code@,
            r.text() == rcode_spelling(code@),
    {
        let mut bytes: Vec<u8> = Vec::new();
        push_decimal(&mut bytes, code[0] as u16);
        push_decimal(&mut bytes, code[1] as u16);
        push_decimal(&mut bytes, code[2] as u16);
        RCode { code, bytes }
    }

    /// Reads a reply code from its text: exactly three digits.
    pub fn parse(buffer: BytesMut) -> (r: Result<Self, InvalidData>)
        ensures
            match r {
                Ok(c) => is_rcode_text(buf_contents(buffer)) && c.text() == buf_contents(buffer)
                    && c.digits() == rcode_digits(buf_contents(buffer)),
                Err(_) => !is_rcode_text(buf_contents(buffer)),
            },
    {
        let bytes = to_vec(&buffer);
        if bytes.len() != 3 {
            return Err(InvalidData { msg: "Invalid length of code", offending_bytes: bytes });
        }
        let mut code: [u8; 3] = [0u8; 3];
        let mut pos: usize = 0;
        while pos < 3
            invariant
                bytes@ == buf_contents(buffer),
                bytes@.len() == 3,
                0 <= pos <= 3,
                forall|j: int| 0 <= j < pos ==> is_digit(#[trigger] bytes@[j]),
                forall|j: int| 0 <= j < pos ==> code@[j] + 48 == bytes@[j],
                code@.len() == 3,
            decreases 3 - pos,
        {
            let b = bytes[pos];
            if b < 48 || b > 57 {
                return Err(InvalidData { msg: "invalid u8 in code", offending_bytes: bytes });
            }
            code[pos] = b - 48;
            pos = pos + 1;
        }
        assert(code@ =~= rcode_digits(bytes@));
        Ok(RCode { code, bytes })
    }

    /// The code's numbers.
    pub fn code(&self) -> (r: [u8; 3])
        ensures
            r@ == self.digits(),
    {
        self.code
    }

    /// The code as it goes on the wire.
    pub fn as_bytes(&self) -> (r: &[u8])
        ensures
            r@ == self.text(),
    {
        self.bytes.as_slice()
    }

    /// Length of the code's text.
    pub fn len(&self) -> (r: usize)
        ensures
            r == self.text().len(),
    {
        self.bytes.len()
    }
}

/// The enhanced SMTP status code, such as `5.7.1`.
#[derive(Debug, Clone)]
pub struct XCode {
    code: [u16; 3],
    bytes: Vec<u8>,
}

impl XCode {
    /// The code's numbers.
    pub closed spec fn numbers(&self) -> Seq<u16> {
        self.code@
    }

    /// The code as it goes on the wire.
    pub closed spec fn text(&self) -> Seq<u8> {
        self.bytes@
    }

    /// An enhanced status code from its numbers.
    pub fn new(code: [u16; 3]) -> (r: Self)
        ensures
            r.numbers() == code@,
            r.text() == xcode_spelling(code@),
    {
        let mut bytes: Vec<u8> = Vec::new();
        push_decimal(&mut bytes, code[0]);
        bytes.push(46);
        push_decimal(&mut bytes, code[1]);
        bytes.push(46);
        push_decimal(&mut bytes, code[2]);
        proof {
            assert(bytes@ =~= xcode_spelling(code@));
        }
        XCode { code, bytes }
    }

    /// Reads an enhanced status code from its text.
    pub fn parse(buffer: BytesMut) -> (r: Result<Self, InvalidData>)
        ensures
            match r {
                Ok(c) => is_xcode_text(buf_contents(buffer)) && c.text() == buf_contents(buffer)
                    && c.numbers() == xcode_numbers(buf_contents(buffer)),
                Err(_) => !is_xcode_text(buf_contents(buffer)),
            },
    {
        let bytes = to_vec(&buffer);
        XCode::from_text(bytes.as_slice())
    }

    /// Reads an enhanced status code from its text: three decimal numerals
    /// separated by dots.
    pub fn from_text(s: &[u8]) -> (r: Result<Self, InvalidData>)
        ensures
            match r {
                Ok(c) => is_xcode_text(s@) && c.text() == s@ && c.numbers() == xcode_numbers(s@),
                Err(_) => !is_xcode_text(s@),
            },
    {
        let n = s.len();
        let d1 = match position(s, 46) {
            Some(p) => p,
            None => {
                return Err(
                    InvalidData { msg: "missing '.' delimiter in code", offending_bytes: slice_to_vec(s) },
                );
            },
        };
        let rest = &s[d1 + 1..n];
        assert(rest@ =~= s@.skip(d1 + 1));
        let d2 = match position(rest, 46) {
            Some(p) => p,
            None => {
                return Err(
                    InvalidData { msg: "missing '.' delimiter in code", offending_bytes: slice_to_vec(s) },
                );
            },
        };
        let first = &s[0..d1];
        let second = &rest[0..d2];
        let third = &rest[d2 + 1..rest.len()];
        assert(first@ =~= s@.take(d1 as int));
        assert(second@ =~= rest@.take(d2 as int));
        assert(third@ =~= rest@.skip(d2 + 1));
        match (parse_u16_numeral(first), parse_u16_numeral(second), parse_u16_numeral(third)) {
            (Some(a), Some(b), Some(c)) => {
                let mut code: [u16; 3] = [0u16; 3];
                code[0] = a;
                code[1] = b;
                code[2] = c;
                assert(code@ =~= xcode_numbers(s@));
                Ok(XCode { code, bytes: slice_to_vec(s) })
            },
            _ => Err(InvalidData { msg: "invalid u16 in code", offending_bytes: slice_to_vec(s) }),
        }
    }

    /// The code's numbers.
    pub fn code(&self) -> (r: [u16; 3])
        ensures
            r@ == self.numbers(),
    {
        self.code
    }

    /// The code as it goes on the wire.
    pub fn as_bytes(&self) -> (r: &[u8])
        ensures
            r@ == self.text(),
    {
        self.bytes.as_slice()
    }

    /// Length of the code's text.
    pub fn len(&self) -> (r: usize)
        ensures
            r == self.text().len(),
    {
        self.bytes.len()
    }
}


/// The reply code, the raw message and what follows its NUL, where the payload
/// holds a space after the reply code and a NUL after that.
pub open spec fn reply_fields(s: Seq<u8>) -> Option<(Seq<u8>, Seq<u8>, Seq<u8>)> {
    match first_index(s, 32) {
        None => None,
        Some(i) => {
            let rest = s.skip(i + 1);
            match first_index(rest, 0) {
                None => None,
                Some(j) => Some((s.take(i), rest.take(j), rest.skip(j + 1))),
            }
        },
    }
}

/// Position of the space that ends an enhanced status code at the start of a
/// raw message, where the raw message starts with one.
pub open spec fn leading_xcode(raw: Seq<u8>) -> Option<int> {
    match first_index(raw, 32) {
        Some(k) => if is_xcode_text(raw.take(k)) {
            Some(k)
        } else {
            None
        },
        None => None,
    }
}

/// The text that `String::from_utf8_lossy` makes of some bytes.
pub uninterp spec fn lossy_text(b: Seq<u8>) -> Seq<char>;

/// Relies on `String::from_utf8_lossy`: the bytes read as UTF-8, each invalid
/// sequence replaced by U+FFFD; valid UTF-8 is decoded as it stands.
#[verifier::external_body]
fn decode_lossy(b: &[u8]) -> (r: String)
    ensures
        r@ == lossy_text(b@),
        valid_utf8(b@) ==> r@ == decode_utf8(b@),
{
    String::from_utf8_lossy(b).into_owned()
}

/// Return this SMTP status code, enhanced status code and message to the SMTP
/// client.
#[derive(Debug, Clone)]
pub struct Replycode {
    rcode: RCode,
    xcode: Option<XCode>,
    message: Vec<u8>,
}

impl Replycode {
    /// The frame code of this reply, `y`.
    pub const CODE: u8 = 121;

    /// The SMTP reply code.
    pub closed spec fn reply_code(&self) -> RCode {
        self.rcode
    }

    /// The enhanced status code, if any.
    pub closed spec fn status(&self) -> Option<XCode> {
        self.xcode
    }

    /// The message bytes.
    pub closed spec fn text(&self) -> Seq<u8> {
        self.message@
    }

    /// A reply with an enhanced status code.
    pub fn new(rcode: RCode, xcode: XCode, message: &str) -> (r: Self)
        ensures
            r.reply_code() == rcode,
            r.status() == Some(xcode),
            r.text() == message.spec_bytes(),
    {
        Replycode { rcode, xcode: Some(xcode), message: slice_to_vec(message.as_bytes()) }
    }

    /// A reply without an enhanced status code.
    pub fn without_xcode(rcode: RCode, message: &str) -> (r: Self)
        ensures
            r.reply_code() == rcode,
            r.status() is None,
            r.text() == message.spec_bytes(),
    {
        Replycode { rcode, xcode: None, message: slice_to_vec(message.as_bytes()) }
    }

    /// The message, read as UTF-8 with invalid sequences replaced.
    pub fn message(&self) -> (r: String)
        ensures
            r@ == lossy_text(self.text()),
            valid_utf8(self.text()) ==> r@ == decode_utf8(self.text()),
    {
        decode_lossy(self.message.as_slice())
    }

    /// The message bytes.
    pub fn message_bytes(&self) -> (r: &[u8])
        ensures
            r@ == self.text(),
    {
        self.message.as_slice()
    }

    /// The SMTP reply code.
    pub fn rcode(&self) -> (r: &RCode)
        ensures
            *r == self.reply_code(),
    {
        &self.rcode
    }

    /// The enhanced status code, if any.
    pub fn xcode(&self) -> (r: &Option<XCode>)
        ensures
            *r == self.status(),
    {
        &self.xcode
    }
}

impl Parsable for Replycode {
    /// `rcode SP [xcode SP] message NUL`, with nothing after the NUL.
    open spec fn accepts(bytes: Seq<u8>) -> bool {
        match reply_fields(bytes) {
            Some((rc, raw, tail)) => is_rcode_text(rc) && tail.len() == 0,
            None => false,
        }
    }

    /// The first word of the message is the enhanced status code where it reads
    /// as one; otherwise the whole is the message.
    open spec fn parsed(bytes: Seq<u8>, v: Self) -> bool {
        match reply_fields(bytes) {
            Some((rc, raw, tail)) => {
                &&& v.reply_code().text() == rc
                &&& v.reply_code().digits() == rcode_digits(rc)
                &&& match leading_xcode(raw) {
                    Some(k) => match v.status() {
                        Some(x) => x.text() == raw.take(k) && x.numbers() == xcode_numbers(raw.take(k))
                            && v.text() == raw.skip(k + 1),
                        None => false,
                    },
                    None => v.status() is None && v.text() == raw,
                }
            },
            None => false,
        }
    }

    /// No space after a valid reply code, or no NUL after it.
    open spec fn truncated(bytes: Seq<u8>) -> bool {
        match first_index(bytes, 32) {
            None => true,
            Some(i) => is_rcode_text(bytes.take(i)) && first_index(bytes.skip(i + 1), 0) is None,
        }
    }

    fn parse(buffer: BytesMut) -> (r: Result<Self, ProtocolError>) {
        let mut buffer = buffer;
        let ghost s = buf_contents(buffer);
        let rc = match delimited(&mut buffer, 32) {
            Some(head) => head,
            None => {
                return Err(
                    ProtocolError::NotEnoughData(
                        NotEnoughData {
                            stage: STAGE_DECODING,
                            item: "Replycode",
                            msg: "Missing space delimiter after rcode",
                            expected: 1,
                            got: 0,
                            offending_bytes: to_vec(&buffer),
                        },
                    ),
                );
            },
        };
        let rcode = match RCode::parse(rc) {
            Ok(c) => c,
            Err(e) => {
                return Err(ProtocolError::InvalidData(e));
            },
        };
        let raw_buf = match delimited(&mut buffer, 0) {
            Some(head) => head,
            None => {
                return Err(
                    ProtocolError::NotEnoughData(
                        NotEnoughData {
                            stage: STAGE_DECODING,
                            item: "Replycode",
                            msg: "Missing nullbyte delimiter after message",
                            expected: 1,
                            got: 0,
                            offending_bytes: to_vec(&buffer),
                        },
                    ),
                );
            },
        };
        let tail = to_vec(&buffer);
        if tail.len() != 0 {
            return Err(
                ProtocolError::InvalidData(
                    InvalidData { msg: "Trailing bytes after nullbyte", offending_bytes: tail },
                ),
            );
        }
        let mut raw = to_vec(&raw_buf);
        let n = raw.len();
        if let Some(k) = position(raw.as_slice(), 32) {
            let head = &raw.as_slice()[0..k];
            assert(head@ =~= raw@.take(k as int));
            if let Ok(x) = XCode::from_text(head) {
                let ghost whole = raw@;
                let message = raw.split_off(k + 1);
                assert(message@ =~= whole.skip(k + 1));
                return Ok(Replycode { rcode, xcode: Some(x), message });
            }
        }
        Ok(Replycode { rcode, xcode: None, message: raw })
    }

    proof fn lemma_parse_then_write(bytes: Seq<u8>, v: Self) {
        let (rc, raw, tail) = reply_fields(bytes)->0;
        let i = first_index(bytes, 32)->0;
        let j = first_index(bytes.skip(i + 1), 0)->0;
        crate::buffer::lemma_first_index(bytes, 32);
        crate::buffer::lemma_first_index(bytes.skip(i + 1), 0);
        match leading_xcode(raw) {
            Some(k) => {
                crate::buffer::lemma_first_index(raw, 32);
                assert(raw =~= raw.take(k) + seq![32u8] + raw.skip(k + 1));
            },
            None => {},
        }
        assert(bytes =~= rc + seq![32u8] + raw + seq![0u8]);
    }
}

impl Writable for Replycode {
    open spec fn wire(&self) -> Seq<u8> {
        self.reply_code().text() + seq![32u8] + match self.status() {
            Some(x) => x.text() + seq![32u8],
            None => Seq::empty(),
        } + self.text() + seq![0u8]
    }

    open spec fn frame_code(&self) -> u8 {
        121
    }

    fn write(&self, buffer: &mut BytesMut) {
        let ghost start = buf_contents(*buffer);
        put_slice(buffer, self.rcode.as_bytes());
        put_slice(buffer, &[32u8]);
        if let Some(ref xcode) = self.xcode {
            put_slice(buffer, xcode.as_bytes());
            put_slice(buffer, &[32u8]);
        }
        put_slice(buffer, self.message.as_slice());
        put_slice(buffer, &[0u8]);
        assert(buf_contents(*buffer) =~= start + self.wire());
    }

    fn len(&self) -> (r: usize) {
        let x = match &self.xcode {
            Some(code) => code.len() + 1,
            None => 0,
        };
        self.rcode.len() + 1 + x + self.message.len() + 1
    }

    fn code(&self) -> (r: u8) {
        Self::CODE
    }

    fn is_empty(&self) -> (r: bool) {
        false
    }
}

} // verus!
