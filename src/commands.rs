//! Commands that the MTA sends to the filter, and their payloads.
use bytes::BytesMut;
use vstd::prelude::*;

use vstd::slice::slice_to_vec;

use crate::buffer::{
    buf_contents, buf_len, delimited, first_index, get_u8, items_len, joined, lemma_first_index,
    lemma_nul_items_joined, nul_items, nul_terminated, put_items,
    put_slice, put_terminated, read_items, to_vec, views,
};
use crate::decoding::Parsable;
use crate::encoding::Writable;
use crate::error::{InvalidData, NotEnoughData, ProtocolError, STAGE_DECODING};
use crate::optneg::OptNeg;
use crate::session::is_command;

verus! {

/// The error for a payload that ends before a NUL it needs.
fn missing_nul(item: &'static str, rest: &BytesMut) -> (r: ProtocolError)
    ensures
        r is NotEnoughData,
{
    too_short(item, "Missing nullbyte delimiter", 1, rest)
}

/// The error for a payload that ends before a field it needs.
fn too_short(item: &'static str, msg: &'static str, expected: usize, rest: &BytesMut) -> (r: ProtocolError)
    ensures
        r is NotEnoughData,
{
    let offending_bytes = to_vec(rest);
    let got = offending_bytes.len();
    ProtocolError::NotEnoughData(
        NotEnoughData { stage: STAGE_DECODING, item, msg, expected, got, offending_bytes },
    )
}

/// The error for a payload whose items do not fit the command.
fn malformed(msg: &'static str, bytes: Vec<u8>) -> (r: ProtocolError)
    ensures
        r is InvalidData,
{
    ProtocolError::InvalidData(InvalidData { msg, offending_bytes: bytes })
}

/// `H`: the HELO/EHLO argument.
pub struct Helo {
    pub host: Vec<u8>,
}

impl Helo {
    /// The frame code of this command, `H`.
    pub const CODE: u8 = 72;
}

impl Parsable for Helo {
    /// One NUL-terminated item.
    open spec fn accepts(bytes: Seq<u8>) -> bool {
        nul_items(bytes) matches Some(items) && items.len() == 1
    }

    open spec fn parsed(bytes: Seq<u8>, v: Self) -> bool {
        nul_items(bytes) == Some(seq![v.host@])
    }

    open spec fn truncated(bytes: Seq<u8>) -> bool {
        nul_items(bytes) is None
    }

    fn parse(buffer: BytesMut) -> (r: Result<Self, ProtocolError>) {
        let mut buffer = buffer;
        let ghost s = buf_contents(buffer);
        match read_items(&mut buffer) {
            None => Err(missing_nul("Helo", &buffer)),
            Some(items) => {
                let mut items = items;
                if items.len() != 1 {
                    return Err(malformed("Helo needs exactly one item", to_vec(&buffer)));
                }
                let host = items.pop().unwrap();
                assert(nul_items(s)->0 =~= seq![host@]);
                Ok(Helo { host })
            },
        }
    }

    proof fn lemma_parse_then_write(bytes: Seq<u8>, v: Self) {
        lemma_nul_items_joined(bytes);
        let one = seq![v.host@];
        assert(one.drop_first() =~= Seq::<Seq<u8>>::empty());
        reveal_with_fuel(joined, 2);
        assert(joined(one) =~= nul_terminated(v.host@));
    }
}

impl Writable for Helo {
    open spec fn wire(&self) -> Seq<u8> {
        nul_terminated(self.host@)
    }

    open spec fn frame_code(&self) -> u8 {
        72
    }

    fn write(&self, buffer: &mut BytesMut) {
        put_terminated(buffer, self.host.as_slice());
    }

    fn len(&self) -> (r: usize) {
        self.host.len() + 1
    }

    fn code(&self) -> (r: u8) {
        Self::CODE
    }

    fn is_empty(&self) -> (r: bool) {
        false
    }
}

/// `L`: one header of the message.
pub struct Header {
    pub name: Vec<u8>,
    pub value: Vec<u8>,
}

impl Header {
    /// The frame code of this command, `L`.
    pub const CODE: u8 = 76;
}

impl Parsable for Header {
    /// `name NUL value NUL`.
    open spec fn accepts(bytes: Seq<u8>) -> bool {
        nul_items(bytes) matches Some(items) && items.len() == 2
    }

    open spec fn parsed(bytes: Seq<u8>, v: Self) -> bool {
        nul_items(bytes) == Some(seq![v.name@, v.value@])
    }

    open spec fn truncated(bytes: Seq<u8>) -> bool {
        nul_items(bytes) is None
    }

    fn parse(buffer: BytesMut) -> (r: Result<Self, ProtocolError>) {
        let mut buffer = buffer;
        let ghost s = buf_contents(buffer);
        match read_items(&mut buffer) {
            None => Err(missing_nul("Header", &buffer)),
            Some(items) => {
                let mut items = items;
                if items.len() != 2 {
                    return Err(malformed("Header needs a name and a value", to_vec(&buffer)));
                }
                let ghost all = items@;
                let value = items.pop().unwrap();
                let name = items.pop().unwrap();
                assert(all[0] == name && all[1] == value);
                assert(nul_items(s)->0 =~= seq![name@, value@]);
                Ok(Header { name, value })
            },
        }
    }

    proof fn lemma_parse_then_write(bytes: Seq<u8>, v: Self) {
        lemma_nul_items_joined(bytes);
        let two = seq![v.name@, v.value@];
        assert(two.drop_first() =~= seq![v.value@]);
        assert(two.drop_first().drop_first() =~= Seq::<Seq<u8>>::empty());
        reveal_with_fuel(joined, 3);
        assert(joined(two) =~= nul_terminated(v.name@) + nul_terminated(v.value@));
    }
}

impl Writable for Header {
    open spec fn wire(&self) -> Seq<u8> {
        nul_terminated(self.name@) + nul_terminated(self.value@)
    }

    open spec fn frame_code(&self) -> u8 {
        76
    }

    fn write(&self, buffer: &mut BytesMut) {
        put_terminated(buffer, self.name.as_slice());
        put_terminated(buffer, self.value.as_slice());
        assert(buf_contents(*buffer) =~= buf_contents(*old(buffer)) + self.wire());
    }

    fn len(&self) -> (r: usize) {
        self.name.len() + 1 + self.value.len() + 1
    }

    fn code(&self) -> (r: u8) {
        Self::CODE
    }

    fn is_empty(&self) -> (r: bool) {
        false
    }
}

/// `M`: MAIL FROM: the sender and its ESMTP arguments.
pub struct Mail {
    pub args: Vec<Vec<u8>>,
}

impl Mail {
    /// The frame code of this command, `M`.
    pub const CODE: u8 = 77;
}

impl Parsable for Mail {
    /// One or more NUL-terminated items.
    open spec fn accepts(bytes: Seq<u8>) -> bool {
        nul_items(bytes) matches Some(items) && items.len() >= 1
    }

    open spec fn parsed(bytes: Seq<u8>, v: Self) -> bool {
        nul_items(bytes) == Some(views(v.args@))
    }

    open spec fn truncated(bytes: Seq<u8>) -> bool {
        nul_items(bytes) is None
    }

    fn parse(buffer: BytesMut) -> (r: Result<Self, ProtocolError>) {
        let mut buffer = buffer;
        match read_items(&mut buffer) {
            None => Err(missing_nul("Mail", &buffer)),
            Some(args) => {
                if args.len() == 0 {
                    return Err(malformed("Mail needs an address", to_vec(&buffer)));
                }
                Ok(Mail { args })
            },
        }
    }

    proof fn lemma_parse_then_write(bytes: Seq<u8>, v: Self) {
        lemma_nul_items_joined(bytes);
    }
}

impl Writable for Mail {
    open spec fn wire(&self) -> Seq<u8> {
        joined(views(self.args@))
    }

    open spec fn frame_code(&self) -> u8 {
        77
    }

    fn write(&self, buffer: &mut BytesMut) {
        put_items(buffer, &self.args);
    }

    fn len(&self) -> (r: usize) {
        items_len(&self.args)
    }

    fn code(&self) -> (r: u8) {
        Self::CODE
    }

    fn is_empty(&self) -> (r: bool) {
        self.args.len() == 0
    }
}

/// `R`: RCPT TO: the recipient and its ESMTP arguments.
pub struct Recipient {
    pub args: Vec<Vec<u8>>,
}

impl Recipient {
    /// The frame code of this command, `R`.
    pub const CODE: u8 = 82;
}

impl Parsable for Recipient {
    /// One or more NUL-terminated items.
    open spec fn accepts(bytes: Seq<u8>) -> bool {
        nul_items(bytes) matches Some(items) && items.len() >= 1
    }

    open spec fn parsed(bytes: Seq<u8>, v: Self) -> bool {
        nul_items(bytes) == Some(views(v.args@))
    }

    open spec fn truncated(bytes: Seq<u8>) -> bool {
        nul_items(bytes) is None
    }

    fn parse(buffer: BytesMut) -> (r: Result<Self, ProtocolError>) {
        let mut buffer = buffer;
        match read_items(&mut buffer) {
            None => Err(missing_nul("Recipient", &buffer)),
            Some(args) => {
                if args.len() == 0 {
                    return Err(malformed("Recipient needs an address", to_vec(&buffer)));
                }
                Ok(Recipient { args })
            },
        }
    }

    proof fn lemma_parse_then_write(bytes: Seq<u8>, v: Self) {
        lemma_nul_items_joined(bytes);
    }
}

impl Writable for Recipient {
    open spec fn wire(&self) -> Seq<u8> {
        joined(views(self.args@))
    }

    open spec fn frame_code(&self) -> u8 {
        82
    }

    fn write(&self, buffer: &mut BytesMut) {
        put_items(buffer, &self.args);
    }

    fn len(&self) -> (r: usize) {
        items_len(&self.args)
    }

    fn code(&self) -> (r: u8) {
        Self::CODE
    }

    fn is_empty(&self) -> (r: bool) {
        self.args.len() == 0
    }
}

/// `B`: a chunk of the message body, as it stands.
pub struct Body {
    pub chunk: Vec<u8>,
}

impl Body {
    /// The frame code of this command, `B`.
    pub const CODE: u8 = 66;
}

impl Parsable for Body {
    /// Any bytes.
    open spec fn accepts(bytes: Seq<u8>) -> bool {
        true
    }

    open spec fn parsed(bytes: Seq<u8>, v: Self) -> bool {
        v.chunk@ == bytes
    }

    open spec fn truncated(bytes: Seq<u8>) -> bool {
        false
    }

    fn parse(buffer: BytesMut) -> (r: Result<Self, ProtocolError>) {
        Ok(Body { chunk: to_vec(&buffer) })
    }

    proof fn lemma_parse_then_write(bytes: Seq<u8>, v: Self) {
    }
}

impl Writable for Body {
    open spec fn wire(&self) -> Seq<u8> {
        self.chunk@
    }

    open spec fn frame_code(&self) -> u8 {
        66
    }

    fn write(&self, buffer: &mut BytesMut) {
        put_slice(buffer, self.chunk.as_slice());
    }

    fn len(&self) -> (r: usize) {
        self.chunk.len()
    }

    fn code(&self) -> (r: u8) {
        Self::CODE
    }

    fn is_empty(&self) -> (r: bool) {
        self.chunk.len() == 0
    }
}

/// `U`: an SMTP command that the MTA does not know, as it stands.
pub struct Unknown {
    pub command: Vec<u8>,
}

impl Unknown {
    /// The frame code of this command, `U`.
    pub const CODE: u8 = 85;
}

impl Parsable for Unknown {
    /// Any bytes.
    open spec fn accepts(bytes: Seq<u8>) -> bool {
        true
    }

    open spec fn parsed(bytes: Seq<u8>, v: Self) -> bool {
        v.command@ == bytes
    }

    open spec fn truncated(bytes: Seq<u8>) -> bool {
        false
    }

    fn parse(buffer: BytesMut) -> (r: Result<Self, ProtocolError>) {
        Ok(Unknown { command: to_vec(&buffer) })
    }

    proof fn lemma_parse_then_write(bytes: Seq<u8>, v: Self) {
    }
}

impl Writable for Unknown {
    open spec fn wire(&self) -> Seq<u8> {
        self.command@
    }

    open spec fn frame_code(&self) -> u8 {
        85
    }

    fn write(&self, buffer: &mut BytesMut) {
        put_slice(buffer, self.command.as_slice());
    }

    fn len(&self) -> (r: usize) {
        self.command.len()
    }

    fn code(&self) -> (r: u8) {
        Self::CODE
    }

    fn is_empty(&self) -> (r: bool) {
        self.command.len() == 0
    }
}


/// The names and values of macro pairs, one after the other.
pub open spec fn flat_pairs(ps: Seq<(Vec<u8>, Vec<u8>)>) -> Seq<Seq<u8>>
    decreases ps.len(),
{
    if ps.len() == 0 {
        Seq::empty()
    } else {
        flat_pairs(ps.drop_last()) + seq![ps.last().0@, ps.last().1@]
    }
}

/// `D`: macros that the MTA defines for the command that follows.
pub struct Macro {
    /// The code of the command that the macros go with.
    pub code: u8,
    /// Names and values, in order.
    pub macros: Vec<(Vec<u8>, Vec<u8>)>,
}

impl Macro {
    /// The frame code of this command, `D`.
    pub const CODE: u8 = 68;

    /// The names and values as one run of items.
    fn flattened(&self) -> (r: Vec<Vec<u8>>)
        ensures
            views(r@) == flat_pairs(self.macros@),
    {
        let mut out: Vec<Vec<u8>> = Vec::new();
        let mut i: usize = 0;
        while i < self.macros.len()
            invariant
                0 <= i <= self.macros@.len(),
                views(out@) == flat_pairs(self.macros@.take(i as int)),
            decreases self.macros@.len() - i,
        {
            let ghost shown = views(out@);
            let pair = &self.macros[i];
            out.push(slice_to_vec(pair.0.as_slice()));
            out.push(slice_to_vec(pair.1.as_slice()));
            proof {
                assert(self.macros@.take(i + 1).drop_last() =~= self.macros@.take(i as int));
                assert(views(out@) =~= shown + seq![pair.0@, pair.1@]);
            }
            i = i + 1;
        }
        assert(self.macros@.take(i as int) =~= self.macros@);
        out
    }
}

impl Parsable for Macro {
    /// A command code, then NUL-terminated names and values in pairs.
    open spec fn accepts(bytes: Seq<u8>) -> bool {
        bytes.len() >= 1 && (nul_items(bytes.drop_first()) matches Some(items) && items.len() % 2 == 0)
    }

    open spec fn parsed(bytes: Seq<u8>, v: Self) -> bool {
        v.code == bytes[0] && nul_items(bytes.drop_first()) == Some(flat_pairs(v.macros@))
    }

    /// No command code, or no NUL after the last item.
    open spec fn truncated(bytes: Seq<u8>) -> bool {
        bytes.len() == 0 || nul_items(bytes.drop_first()) is None
    }

    fn parse(buffer: BytesMut) -> (r: Result<Self, ProtocolError>) {
        let mut buffer = buffer;
        let code = match get_u8(&mut buffer) {
            Some(c) => c,
            None => {
                return Err(too_short("Macro", "Missing command code", 1, &buffer));
            },
        };
        let items = match read_items(&mut buffer) {
            Some(items) => items,
            None => {
                return Err(missing_nul("Macro", &buffer));
            },
        };
        let n = items.len();
        if n % 2 != 0 {
            return Err(malformed("Macro names and values do not pair up", to_vec(&buffer)));
        }
        let mut macros: Vec<(Vec<u8>, Vec<u8>)> = Vec::new();
        let mut i: usize = 0;
        while i < n / 2
            invariant
                n == items@.len(),
                n % 2 == 0,
                0 <= i <= n / 2,
                flat_pairs(macros@) == views(items@).take(2 * i),
            decreases n / 2 - i,
        {
            let name = slice_to_vec(items[2 * i].as_slice());
            let value = slice_to_vec(items[2 * i + 1].as_slice());
            let ghost before = macros@;
            macros.push((name, value));
            proof {
                assert(macros@.drop_last() =~= before);
                assert(views(items@).take(2 * i + 2) =~= views(items@).take(2 * i) + seq![name@, value@]);
            }
            i = i + 1;
        }
        assert(views(items@).take(2 * i) =~= views(items@));
        Ok(Macro { code, macros })
    }

    proof fn lemma_parse_then_write(bytes: Seq<u8>, v: Self) {
        lemma_nul_items_joined(bytes.drop_first());
        assert(bytes =~= seq![bytes[0]] + bytes.drop_first());
    }
}

impl Writable for Macro {
    open spec fn wire(&self) -> Seq<u8> {
        seq![self.code] + joined(flat_pairs(self.macros@))
    }

    open spec fn frame_code(&self) -> u8 {
        68
    }

    fn write(&self, buffer: &mut BytesMut) {
        let items = self.flattened();
        put_slice(buffer, &[self.code]);
        put_items(buffer, &items);
        assert(buf_contents(*buffer) =~= buf_contents(*old(buffer)) + self.wire());
    }

    fn len(&self) -> (r: usize) {
        let items = self.flattened();
        items_len(&items) + 1
    }

    fn code(&self) -> (r: u8) {
        Self::CODE
    }

    fn is_empty(&self) -> (r: bool) {
        false
    }
}


/// The address family of the SMTP client's connection.
#[derive(Debug, Clone, Copy, PartialEq, Eq, Structural)]
pub enum Family {
    /// `U`: unknown.
    Unknown,
    /// `L`: a Unix socket.
    Unix,
    /// `4`: IPv4.
    Inet,
    /// `6`: IPv6.
    Inet6,
}

/// The byte that stands for a family on the wire.
pub open spec fn family_byte(f: Family) -> u8 {
    match f {
        Family::Unknown => 85,
        Family::Unix => 76,
        Family::Inet => 52,
        Family::Inet6 => 54,
    }
}

/// The family that a byte stands for, if any.
pub open spec fn family_of(b: u8) -> Option<Family> {
    if b == 85 {
        Some(Family::Unknown)
    } else if b == 76 {
        Some(Family::Unix)
    } else if b == 52 {
        Some(Family::Inet)
    } else if b == 54 {
        Some(Family::Inet6)
    } else {
        None
    }
}

/// Connections of this family carry a port.
pub open spec fn has_port(f: Family) -> bool {
    f == Family::Inet || f == Family::Inet6
}

/// The two big-endian bytes of a port.
pub open spec fn be16_bytes(p: u16) -> Seq<u8> {
    seq![(p / 256) as u8, (p % 256) as u8]
}

/// The fields of a connect payload (hostname, family, port, address), or
/// whether it is refused for ending early (`true`) or for being malformed
/// (`false`).
pub open spec fn connect_decoded(s: Seq<u8>) -> Result<(Seq<u8>, Family, u16, Seq<u8>), bool> {
    match first_index(s, 0) {
        None => Err(true),
        Some(i) => {
            let r1 = s.skip(i + 1);
            if r1.len() == 0 {
                Err(true)
            } else {
                match family_of(r1[0]) {
                    None => Err(false),
                    Some(f) => {
                        let r2 = r1.drop_first();
                        if has_port(f) && r2.len() < 2 {
                            Err(true)
                        } else {
                            let port: u16 = if has_port(f) {
                                (r2[0] as int * 256 + r2[1] as int) as u16
                            } else {
                                0
                            };
                            let r3 = if has_port(f) {
                                r2.skip(2)
                            } else {
                                r2
                            };
                            match first_index(r3, 0) {
                                None => Err(true),
                                Some(j) => if r3.skip(j + 1).len() == 0 {
                                    Ok((s.take(i), f, port, r3.take(j)))
                                } else {
                                    Err(false)
                                },
                            }
                        }
                    },
                }
            }
        },
    }
}

/// `C`: the SMTP client's connection.
pub struct Connect {
    /// The client's host name.
    pub hostname: Vec<u8>,
    /// The address family.
    pub family: Family,
    /// The client's port; on the wire for IPv4 and IPv6 only, zero otherwise.
    pub port: u16,
    /// The client's address as text.
    pub address: Vec<u8>,
}

impl Connect {
    /// The frame code of this command, `C`.
    pub const CODE: u8 = 67;
}

impl Parsable for Connect {
    /// `hostname NUL family [port] address NUL`.
    open spec fn accepts(bytes: Seq<u8>) -> bool {
        connect_decoded(bytes) is Ok
    }

    open spec fn parsed(bytes: Seq<u8>, v: Self) -> bool {
        connect_decoded(bytes) == Ok::<(Seq<u8>, Family, u16, Seq<u8>), bool>(
            (v.hostname@, v.family, v.port, v.address@),
        )
    }

    open spec fn truncated(bytes: Seq<u8>) -> bool {
        connect_decoded(bytes) == Err::<(Seq<u8>, Family, u16, Seq<u8>), bool>(true)
    }

    fn parse(buffer: BytesMut) -> (r: Result<Self, ProtocolError>) {
        let mut buffer = buffer;
        let ghost s = buf_contents(buffer);
        proof {
            lemma_first_index(s, 0);
        }
        let hostname = match delimited(&mut buffer, 0) {
            Some(h) => to_vec(&h),
            None => {
                return Err(missing_nul("Connect", &buffer));
            },
        };
        let b = match get_u8(&mut buffer) {
            Some(b) => b,
            None => {
                return Err(too_short("Connect", "Missing address family", 1, &buffer));
            },
        };
        let family = if b == 85 {
            Family::Unknown
        } else if b == 76 {
            Family::Unix
        } else if b == 52 {
            Family::Inet
        } else if b == 54 {
            Family::Inet6
        } else {
            return Err(malformed("Unknown address family", to_vec(&buffer)));
        };
        let ghost r2 = buf_contents(buffer);
        let port: u16 = if family == Family::Inet || family == Family::Inet6 {
            let hi = match get_u8(&mut buffer) {
                Some(x) => x,
                None => {
                    return Err(too_short("Connect", "Missing port", 2, &buffer));
                },
            };
            let lo = match get_u8(&mut buffer) {
                Some(x) => x,
                None => {
                    return Err(too_short("Connect", "Missing port", 2, &buffer));
                },
            };
            assert(buf_contents(buffer) =~= r2.skip(2));
            hi as u16 * 256 + lo as u16
        } else {
            0
        };
        let ghost r3 = buf_contents(buffer);
        proof {
            lemma_first_index(r3, 0);
        }
        let address = match delimited(&mut buffer, 0) {
            Some(a) => to_vec(&a),
            None => {
                return Err(missing_nul("Connect", &buffer));
            },
        };
        if buf_len(&buffer) > 0 {
            return Err(malformed("Trailing bytes after address", to_vec(&buffer)));
        }
        Ok(Connect { hostname, family, port, address })
    }

    proof fn lemma_parse_then_write(bytes: Seq<u8>, v: Self) {
        let i = first_index(bytes, 0)->0;
        lemma_first_index(bytes, 0);
        let r1 = bytes.skip(i + 1);
        let r2 = r1.drop_first();
        let r3 = if has_port(v.family) {
            r2.skip(2)
        } else {
            r2
        };
        let j = first_index(r3, 0)->0;
        lemma_first_index(r3, 0);
        if has_port(v.family) {
            let (hi, lo) = (r2[0], r2[1]);
            let p = v.port;
            assert(p == hi as int * 256 + lo as int);
            assert(p / 256 == hi && p % 256 == lo) by (nonlinear_arith)
                requires
                    p == hi as int * 256 + lo as int,
                    0 <= lo < 256,
            ;
            assert(r2 =~= be16_bytes(p) + r3);
        } else {
            assert(r2 =~= r3);
            assert(r2 =~= Seq::<u8>::empty() + r3);
        }
        assert(r3 =~= nul_terminated(v.address@));
        assert(bytes =~= nul_terminated(v.hostname@) + seq![family_byte(v.family)] + r2);
    }
}

impl Writable for Connect {
    open spec fn wire(&self) -> Seq<u8> {
        nul_terminated(self.hostname@) + seq![family_byte(self.family)] + (if has_port(self.family) {
            be16_bytes(self.port)
        } else {
            Seq::empty()
        }) + nul_terminated(self.address@)
    }

    open spec fn frame_code(&self) -> u8 {
        67
    }

    fn write(&self, buffer: &mut BytesMut) {
        put_terminated(buffer, self.hostname.as_slice());
        let b: u8 = match self.family {
            Family::Unknown => 85,
            Family::Unix => 76,
            Family::Inet => 52,
            Family::Inet6 => 54,
        };
        put_slice(buffer, &[b]);
        if self.family == Family::Inet || self.family == Family::Inet6 {
            put_slice(buffer, &[(self.port / 256) as u8, (self.port % 256) as u8]);
        }
        put_terminated(buffer, self.address.as_slice());
        assert(buf_contents(*buffer) =~= buf_contents(*old(buffer)) + self.wire());
    }

    fn len(&self) -> (r: usize) {
        let port: usize = if self.family == Family::Inet || self.family == Family::Inet6 {
            2
        } else {
            0
        };
        self.hostname.len() + 1 + 1 + port + self.address.len() + 1
    }

    fn code(&self) -> (r: u8) {
        Self::CODE
    }

    fn is_empty(&self) -> (r: bool) {
        false
    }
}

/// `T`: DATA: the message content follows.
#[derive(Debug, Clone, Copy)]
pub struct Data;

impl Data {
    /// The frame code of this command, `T`.
    pub const CODE: u8 = 84;
}

impl Parsable for Data {
    open spec fn accepts(bytes: Seq<u8>) -> bool {
        bytes.len() == 0
    }

    open spec fn parsed(bytes: Seq<u8>, v: Self) -> bool {
        true
    }

    open spec fn truncated(bytes: Seq<u8>) -> bool {
        false
    }

    /// The payload is empty; anything in it is an error.
    fn parse(buffer: BytesMut) -> (r: Result<Self, ProtocolError>) {
        let bytes = to_vec(&buffer);
        if bytes.len() == 0 {
            Ok(Data)
        } else {
            Err(malformed("unexpected payload", bytes))
        }
    }

    proof fn lemma_parse_then_write(bytes: Seq<u8>, v: Self) {
    }
}

impl Writable for Data {
    open spec fn wire(&self) -> Seq<u8> {
        Seq::empty()
    }

    open spec fn frame_code(&self) -> u8 {
        84
    }

    fn write(&self, buffer: &mut BytesMut) {
        assert(buf_contents(*old(buffer)) + Seq::empty() =~= buf_contents(*old(buffer)));
    }

    fn len(&self) -> (r: usize) {
        0
    }

    fn code(&self) -> (r: u8) {
        Self::CODE
    }

    fn is_empty(&self) -> (r: bool) {
        true
    }
}

/// `N`: all headers have been sent.
#[derive(Debug, Clone, Copy)]
pub struct EndOfHeader;

impl EndOfHeader {
    /// The frame code of this command, `N`.
    pub const CODE: u8 = 78;
}

impl Parsable for EndOfHeader {
    open spec fn accepts(bytes: Seq<u8>) -> bool {
        bytes.len() == 0
    }

    open spec fn parsed(bytes: Seq<u8>, v: Self) -> bool {
        true
    }

    open spec fn truncated(bytes: Seq<u8>) -> bool {
        false
    }

    /// The payload is empty; anything in it is an error.
    fn parse(buffer: BytesMut) -> (r: Result<Self, ProtocolError>) {
        let bytes = to_vec(&buffer);
        if bytes.len() == 0 {
            Ok(EndOfHeader)
        } else {
            Err(malformed("unexpected payload", bytes))
        }
    }

    proof fn lemma_parse_then_write(bytes: Seq<u8>, v: Self) {
    }
}

impl Writable for EndOfHeader {
    open spec fn wire(&self) -> Seq<u8> {
        Seq::empty()
    }

    open spec fn frame_code(&self) -> u8 {
        78
    }

    fn write(&self, buffer: &mut BytesMut) {
        assert(buf_contents(*old(buffer)) + Seq::empty() =~= buf_contents(*old(buffer)));
    }

    fn len(&self) -> (r: usize) {
        0
    }

    fn code(&self) -> (r: u8) {
        Self::CODE
    }

    fn is_empty(&self) -> (r: bool) {
        true
    }
}

/// `E`: the whole body has been sent; the filter answers with its modifications.
#[derive(Debug, Clone, Copy)]
pub struct EndOfBody;

impl EndOfBody {
    /// The frame code of this command, `E`.
    pub const CODE: u8 = 69;
}

impl Parsable for EndOfBody {
    open spec fn accepts(bytes: Seq<u8>) -> bool {
        bytes.len() == 0
    }

    open spec fn parsed(bytes: Seq<u8>, v: Self) -> bool {
        true
    }

    open spec fn truncated(bytes: Seq<u8>) -> bool {
        false
    }

    /// The payload is empty; anything in it is an error.
    fn parse(buffer: BytesMut) -> (r: Result<Self, ProtocolError>) {
        let bytes = to_vec(&buffer);
        if bytes.len() == 0 {
            Ok(EndOfBody)
        } else {
            Err(malformed("unexpected payload", bytes))
        }
    }

    proof fn lemma_parse_then_write(bytes: Seq<u8>, v: Self) {
    }
}

impl Writable for EndOfBody {
    open spec fn wire(&self) -> Seq<u8> {
        Seq::empty()
    }

    open spec fn frame_code(&self) -> u8 {
        69
    }

    fn write(&self, buffer: &mut BytesMut) {
        assert(buf_contents(*old(buffer)) + Seq::empty() =~= buf_contents(*old(buffer)));
    }

    fn len(&self) -> (r: usize) {
        0
    }

    fn code(&self) -> (r: u8) {
        Self::CODE
    }

    fn is_empty(&self) -> (r: bool) {
        true
    }
}

/// `Q`: the session ends.
#[derive(Debug, Clone, Copy)]
pub struct Quit;

impl Quit {
    /// The frame code of this command, `Q`.
    pub const CODE: u8 = 81;
}

impl Parsable for Quit {
    open spec fn accepts(bytes: Seq<u8>) -> bool {
        bytes.len() == 0
    }

    open spec fn parsed(bytes: Seq<u8>, v: Self) -> bool {
        true
    }

    open spec fn truncated(bytes: Seq<u8>) -> bool {
        false
    }

    /// The payload is empty; anything in it is an error.
    fn parse(buffer: BytesMut) -> (r: Result<Self, ProtocolError>) {
        let bytes = to_vec(&buffer);
        if bytes.len() == 0 {
            Ok(Quit)
        } else {
            Err(malformed("unexpected payload", bytes))
        }
    }

    proof fn lemma_parse_then_write(bytes: Seq<u8>, v: Self) {
    }
}

impl Writable for Quit {
    open spec fn wire(&self) -> Seq<u8> {
        Seq::empty()
    }

    open spec fn frame_code(&self) -> u8 {
        81
    }

    fn write(&self, buffer: &mut BytesMut) {
        assert(buf_contents(*old(buffer)) + Seq::empty() =~= buf_contents(*old(buffer)));
    }

    fn len(&self) -> (r: usize) {
        0
    }

    fn code(&self) -> (r: u8) {
        Self::CODE
    }

    fn is_empty(&self) -> (r: bool) {
        true
    }
}

/// `K`: the session ends without confirmation.
#[derive(Debug, Clone, Copy)]
pub struct QuitNc;

impl QuitNc {
    /// The frame code of this command, `K`.
    pub const CODE: u8 = 75;
}

impl Parsable for QuitNc {
    open spec fn accepts(bytes: Seq<u8>) -> bool {
        bytes.len() == 0
    }

    open spec fn parsed(bytes: Seq<u8>, v: Self) -> bool {
        true
    }

    open spec fn truncated(bytes: Seq<u8>) -> bool {
        false
    }

    /// The payload is empty; anything in it is an error.
    fn parse(buffer: BytesMut) -> (r: Result<Self, ProtocolError>) {
        let bytes = to_vec(&buffer);
        if bytes.len() == 0 {
            Ok(QuitNc)
        } else {
            Err(malformed("unexpected payload", bytes))
        }
    }

    proof fn lemma_parse_then_write(bytes: Seq<u8>, v: Self) {
    }
}

impl Writable for QuitNc {
    open spec fn wire(&self) -> Seq<u8> {
        Seq::empty()
    }

    open spec fn frame_code(&self) -> u8 {
        75
    }

    fn write(&self, buffer: &mut BytesMut) {
        assert(buf_contents(*old(buffer)) + Seq::empty() =~= buf_contents(*old(buffer)));
    }

    fn len(&self) -> (r: usize) {
        0
    }

    fn code(&self) -> (r: u8) {
        Self::CODE
    }

    fn is_empty(&self) -> (r: bool) {
        true
    }
}

/// `A`: the current message is abandoned.
#[derive(Debug, Clone, Copy)]
pub struct Abort;

impl Abort {
    /// The frame code of this command, `A`.
    pub const CODE: u8 = 65;
}

impl Parsable for Abort {
    open spec fn accepts(bytes: Seq<u8>) -> bool {
        bytes.len() == 0
    }

    open spec fn parsed(bytes: Seq<u8>, v: Self) -> bool {
        true
    }

    open spec fn truncated(bytes: Seq<u8>) -> bool {
        false
    }

    /// The payload is empty; anything in it is an error.
    fn parse(buffer: BytesMut) -> (r: Result<Self, ProtocolError>) {
        let bytes = to_vec(&buffer);
        if bytes.len() == 0 {
            Ok(Abort)
        } else {
            Err(malformed("unexpected payload", bytes))
        }
    }

    proof fn lemma_parse_then_write(bytes: Seq<u8>, v: Self) {
    }
}

impl Writable for Abort {
    open spec fn wire(&self) -> Seq<u8> {
        Seq::empty()
    }

    open spec fn frame_code(&self) -> u8 {
        65
    }

    fn write(&self, buffer: &mut BytesMut) {
        assert(buf_contents(*old(buffer)) + Seq::empty() =~= buf_contents(*old(buffer)));
    }

    fn len(&self) -> (r: usize) {
        0
    }

    fn code(&self) -> (r: u8) {
        Self::CODE
    }

    fn is_empty(&self) -> (r: bool) {
        true
    }
}


/// A command from the MTA, by its frame code.
pub enum Command {
    OptNeg(OptNeg),
    Connect(Connect),
    Helo(Helo),
    Mail(Mail),
    Recipient(Recipient),
    Data(Data),
    Header(Header),
    EndOfHeader(EndOfHeader),
    Body(Body),
    EndOfBody(EndOfBody),
    Quit(Quit),
    QuitNc(QuitNc),
    Abort(Abort),
    Macro(Macro),
    Unknown(Unknown),
}

/// The payload `s` is well formed for the command with frame code `code`.
pub open spec fn command_accepts(code: u8, s: Seq<u8>) -> bool {
    if code == 79 {
        OptNeg::accepts(s)
    } else if code == 67 {
        Connect::accepts(s)
    } else if code == 72 {
        Helo::accepts(s)
    } else if code == 77 {
        Mail::accepts(s)
    } else if code == 82 {
        Recipient::accepts(s)
    } else if code == 84 {
        Data::accepts(s)
    } else if code == 76 {
        Header::accepts(s)
    } else if code == 78 {
        EndOfHeader::accepts(s)
    } else if code == 66 {
        Body::accepts(s)
    } else if code == 69 {
        EndOfBody::accepts(s)
    } else if code == 81 {
        Quit::accepts(s)
    } else if code == 75 {
        QuitNc::accepts(s)
    } else if code == 65 {
        Abort::accepts(s)
    } else if code == 68 {
        Macro::accepts(s)
    } else if code == 85 {
        Unknown::accepts(s)
    } else {
        false
    }
}

/// `c` is the command that frame code `code` and payload `s` stand for.
pub open spec fn command_parsed(code: u8, s: Seq<u8>, c: Command) -> bool {
    match c {
        Command::OptNeg(v) => code == 79 && OptNeg::parsed(s, v),
        Command::Connect(v) => code == 67 && Connect::parsed(s, v),
        Command::Helo(v) => code == 72 && Helo::parsed(s, v),
        Command::Mail(v) => code == 77 && Mail::parsed(s, v),
        Command::Recipient(v) => code == 82 && Recipient::parsed(s, v),
        Command::Data(v) => code == 84 && Data::parsed(s, v),
        Command::Header(v) => code == 76 && Header::parsed(s, v),
        Command::EndOfHeader(v) => code == 78 && EndOfHeader::parsed(s, v),
        Command::Body(v) => code == 66 && Body::parsed(s, v),
        Command::EndOfBody(v) => code == 69 && EndOfBody::parsed(s, v),
        Command::Quit(v) => code == 81 && Quit::parsed(s, v),
        Command::QuitNc(v) => code == 75 && QuitNc::parsed(s, v),
        Command::Abort(v) => code == 65 && Abort::parsed(s, v),
        Command::Macro(v) => code == 68 && Macro::parsed(s, v),
        Command::Unknown(v) => code == 85 && Unknown::parsed(s, v),
    }
}
/// The ill-formed payload `s` of the command with frame code `code` lacks a delimiter.
pub open spec fn command_truncated(code: u8, s: Seq<u8>) -> bool {
    if code == 79 {
        OptNeg::truncated(s)
    } else if code == 67 {
        Connect::truncated(s)
    } else if code == 72 {
        Helo::truncated(s)
    } else if code == 77 {
        Mail::truncated(s)
    } else if code == 82 {
        Recipient::truncated(s)
    } else if code == 84 {
        Data::truncated(s)
    } else if code == 76 {
        Header::truncated(s)
    } else if code == 78 {
        EndOfHeader::truncated(s)
    } else if code == 66 {
        Body::truncated(s)
    } else if code == 69 {
        EndOfBody::truncated(s)
    } else if code == 81 {
        Quit::truncated(s)
    } else if code == 75 {
        QuitNc::truncated(s)
    } else if code == 65 {
        Abort::truncated(s)
    } else if code == 68 {
        Macro::truncated(s)
    } else if code == 85 {
        Unknown::truncated(s)
    } else {
        false
    }
}

impl Command {
    /// Reads the command that a frame with code `code` carries in its payload
    /// `buffer`; a code that no command has is refused as unknown.
    pub fn parse(code: u8, buffer: BytesMut) -> (r: Result<Command, ProtocolError>)
        ensures
            match r {
                Ok(c) => command_accepts(code, buf_contents(buffer)) && command_parsed(
                    code,
                    buf_contents(buffer),
                    c,
                ),
                Err(e) => {
                    &&& !command_accepts(code, buf_contents(buffer))
                    &&& is_command(code) ==> (e is NotEnoughData <==> command_truncated(code, buf_contents(buffer)))
                    &&& !is_command(code) ==> e == ProtocolError::UnknownCode(code)
                },
            },
    {
        if code == 79 {
            match OptNeg::parse(buffer) {
                Ok(v) => Ok(Command::OptNeg(v)),
                Err(e) => Err(e),
            }
        } else if code == 67 {
            match Connect::parse(buffer) {
                Ok(v) => Ok(Command::Connect(v)),
                Err(e) => Err(e),
            }
        } else if code == 72 {
            match Helo::parse(buffer) {
                Ok(v) => Ok(Command::Helo(v)),
                Err(e) => Err(e),
            }
        } else if code == 77 {
            match Mail::parse(buffer) {
                Ok(v) => Ok(Command::Mail(v)),
                Err(e) => Err(e),
            }
        } else if code == 82 {
            match Recipient::parse(buffer) {
                Ok(v) => Ok(Command::Recipient(v)),
                Err(e) => Err(e),
            }
        } else if code == 84 {
            match Data::parse(buffer) {
                Ok(v) => Ok(Command::Data(v)),
                Err(e) => Err(e),
            }
        } else if code == 76 {
            match Header::parse(buffer) {
                Ok(v) => Ok(Command::Header(v)),
                Err(e) => Err(e),
            }
        } else if code == 78 {
            match EndOfHeader::parse(buffer) {
                Ok(v) => Ok(Command::EndOfHeader(v)),
                Err(e) => Err(e),
            }
        } else if code == 66 {
            match Body::parse(buffer) {
                Ok(v) => Ok(Command::Body(v)),
                Err(e) => Err(e),
            }
        } else if code == 69 {
            match EndOfBody::parse(buffer) {
                Ok(v) => Ok(Command::EndOfBody(v)),
                Err(e) => Err(e),
            }
        } else if code == 81 {
            match Quit::parse(buffer) {
                Ok(v) => Ok(Command::Quit(v)),
                Err(e) => Err(e),
            }
        } else if code == 75 {
            match QuitNc::parse(buffer) {
                Ok(v) => Ok(Command::QuitNc(v)),
                Err(e) => Err(e),
            }
        } else if code == 65 {
            match Abort::parse(buffer) {
                Ok(v) => Ok(Command::Abort(v)),
                Err(e) => Err(e),
            }
        } else if code == 68 {
            match Macro::parse(buffer) {
                Ok(v) => Ok(Command::Macro(v)),
                Err(e) => Err(e),
            }
        } else if code == 85 {
            match Unknown::parse(buffer) {
                Ok(v) => Ok(Command::Unknown(v)),
                Err(e) => Err(e),
            }
        } else {
            Err(ProtocolError::UnknownCode(code))
        }
    }
}

} // verus!
