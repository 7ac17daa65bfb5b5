//! Option negotiation: the capabilities that both peers of a session agree on.
use bytes::BytesMut;
use vstd::prelude::*;

use crate::buffer::{
    buf_contents, buf_len, delimited, first_index, get_u32, join_with, joined_with_len, lemma_first_index,
    lemma_split_join, put_joined, put_slice, split_bytes, split_on, to_vec, views,
};
use crate::decoding::Parsable;
use crate::encoding::Writable;
use crate::error::{NotEnoughData, ProtocolError, STAGE_DECODING};
use crate::frame::{be32_bytes, be32_value, lemma_be32_bytes_value};

verus! {

/// The protocol version offered by default.
pub const PROTOCOL_VERSION: u32 = 6;

/// The oldest protocol version that a session can run on.
pub const MIN_VERSION: u32 = 2;

/// The macros that a filter asks for at one stage.
pub struct MacroStage {
    /// The stage, by its number on the wire: connect 0, HELO 1, MAIL 2, RCPT 3,
    /// DATA 4, end of body 5, end of headers 6.
    pub stage: u32,
    /// The names of the macros, in order.
    pub names: Vec<Vec<u8>>,
}

/// One peer's offer, or the outcome of a negotiation.
pub struct OptNeg {
    /// Protocol version.
    pub version: u32,
    /// Action bits: which modifications the filter may send.
    pub actions: u32,
    /// Protocol bits: which commands are skipped and which need no reply.
    pub protocol: u32,
    /// Per-stage macro subscriptions.
    pub macros: Vec<MacroStage>,
}

/// Why two offers could not be reconciled.
#[derive(Debug, Clone, Copy, PartialEq, Eq, Structural)]
pub enum NegotiationError {
    /// The lower of the two versions is below the oldest one supported.
    VersionTooOld,
    /// An action bit that the filter requires is not offered by both sides.
    MissingCapability,
}

/// The smaller of two versions.
pub open spec fn min_version(a: u32, b: u32) -> u32 {
    if a <= b {
        a
    } else {
        b
    }
}

/// The version, action bits and protocol bits that offers `a` and `b` agree on,
/// where `required` holds the action bits without which the session cannot run.
pub open spec fn negotiated(a: OptNeg, b: OptNeg, required: u32) -> Result<(u32, u32, u32), NegotiationError> {
    let version = min_version(a.version, b.version);
    let actions = a.actions & b.actions;
    if version < MIN_VERSION {
        Err(NegotiationError::VersionTooOld)
    } else if actions & required != required {
        Err(NegotiationError::MissingCapability)
    } else {
        Ok((version, actions, a.protocol & b.protocol))
    }
}

impl OptNeg {
    /// The default offer: the current version with the given bits and no
    /// macro subscriptions.
    pub fn new(actions: u32, protocol: u32) -> (r: Self)
        ensures
            r.version == PROTOCOL_VERSION,
            r.actions == actions,
            r.protocol == protocol,
            r.macros@.len() == 0,
    {
        OptNeg { version: PROTOCOL_VERSION, actions, protocol, macros: Vec::new() }
    }

    /// Merges this filter-side offer with the peer's: the lower version and the
    /// intersection of both bit sets. The macro subscriptions are the filter's,
    /// which the MTA obeys.
    pub fn merge(self, peer: &OptNeg, required: u32) -> (r: Result<OptNeg, NegotiationError>)
        ensures
            match r {
                Ok(m) => negotiated(self, *peer, required) == Ok::<(u32, u32, u32), NegotiationError>(
                    (m.version, m.actions, m.protocol),
                ) && m.macros == self.macros,
                Err(e) => negotiated(self, *peer, required) == Err::<(u32, u32, u32), NegotiationError>(e),
            },
    {
        let version = if self.version <= peer.version {
            self.version
        } else {
            peer.version
        };
        let actions = self.actions & peer.actions;
        if version < MIN_VERSION {
            return Err(NegotiationError::VersionTooOld);
        }
        if actions & required != required {
            return Err(NegotiationError::MissingCapability);
        }
        Ok(OptNeg { version, actions, protocol: self.protocol & peer.protocol, macros: self.macros })
    }
}

/// Negotiation does not depend on which side offers first.
pub proof fn law_merge_commutative(a: OptNeg, b: OptNeg, required: u32)
    ensures
        negotiated(a, b, required) == negotiated(b, a, required),
{
    let (x, y) = (a.actions, b.actions);
    let (p, q) = (a.protocol, b.protocol);
    assert(x & y == y & x) by (bit_vector);
    assert(p & q == q & p) by (bit_vector);
}

/// Negotiating an offer with itself gives back its version and bits, wherever
/// that negotiation can succeed at all.
pub proof fn law_merge_idempotent(a: OptNeg, required: u32)
    requires
        a.version >= MIN_VERSION,
        a.actions & required == required,
    ensures
        negotiated(a, a, required) == Ok::<(u32, u32, u32), NegotiationError>((a.version, a.actions, a.protocol)),
{
    let (x, p) = (a.actions, a.protocol);
    assert(x & x == x) by (bit_vector);
    assert(p & p == p) by (bit_vector);
}


/// A stage's entry on the wire: its number, then its macro names separated by
/// spaces and ended by a NUL.
pub open spec fn stage_wire(m: MacroStage) -> Seq<u8> {
    be32_bytes(m.stage) + join_with(views(m.names@), 32) + seq![0u8]
}

/// The entries of stages, one after the other.
pub open spec fn stages_wire(ms: Seq<MacroStage>) -> Seq<u8>
    decreases ms.len(),
{
    if ms.len() == 0 {
        Seq::empty()
    } else {
        stage_wire(ms[0]) + stages_wire(ms.drop_first())
    }
}

/// The stage entries that make up `s` exactly: each stage's number and the
/// text of its names; `None` where `s` ends inside an entry.
pub open spec fn stages_decoded(s: Seq<u8>) -> Option<Seq<(u32, Seq<u8>)>>
    decreases s.len(),
{
    if s.len() == 0 {
        Some(Seq::empty())
    } else if s.len() < 4 {
        None
    } else {
        let r = s.skip(4);
        match first_index(r, 0) {
            None => None,
            Some(j) => if 0 <= j < r.len() {
                match stages_decoded(r.skip(j + 1)) {
                    Some(rest) => Some(seq![(be32_value(s), r.take(j))] + rest),
                    None => None,
                }
            } else {
                None
            },
        }
    }
}

/// `ms` are the stages that the decoded entries `es` stand for.
pub open spec fn stages_match(ms: Seq<MacroStage>, es: Seq<(u32, Seq<u8>)>) -> bool {
    &&& ms.len() == es.len()
    &&& forall|i: int|
        0 <= i < ms.len() ==> (#[trigger] ms[i]).stage == es[i].0 && views(ms[i].names@) == split_on(
            es[i].1,
            32,
        )
}

/// Writing the stages that entries decode to gives the entries back.
proof fn lemma_stages_round_trip(s: Seq<u8>, ms: Seq<MacroStage>)
    requires
        stages_decoded(s) is Some,
        stages_match(ms, stages_decoded(s)->0),
    ensures
        stages_wire(ms) == s,
    decreases s.len(),
{
    if s.len() > 0 {
        let es = stages_decoded(s)->0;
        let r = s.skip(4);
        lemma_first_index(r, 0);
        let j = first_index(r, 0)->0;
        let tail = r.skip(j + 1);
        assert(es.drop_first() =~= stages_decoded(tail)->0);
        assert(stages_match(ms.drop_first(), es.drop_first())) by {
            assert forall|i: int| 0 <= i < ms.drop_first().len() implies (#[trigger] ms.drop_first()[i]).stage
                == es.drop_first()[i].0 && views(ms.drop_first()[i].names@) == split_on(
                es.drop_first()[i].1,
                32,
            ) by {
                assert(ms.drop_first()[i] == ms[i + 1]);
            }
        }
        lemma_stages_round_trip(tail, ms.drop_first());
        assert(ms[0].stage == es[0].0);
        lemma_split_join(r.take(j), 32);
        lemma_be32_bytes_value(s);
        assert(s =~= s.take(4) + r.take(j) + seq![0u8] + tail);
    } else {
        assert(ms.len() == 0);
    }
}

/// The entries of some stages followed by those of others.
proof fn lemma_stages_wire_append(a: Seq<MacroStage>, b: Seq<MacroStage>)
    ensures
        stages_wire(a + b) == stages_wire(a) + stages_wire(b),
    decreases a.len(),
{
    if a.len() > 0 {
        assert((a + b).drop_first() =~= a.drop_first() + b);
        lemma_stages_wire_append(a.drop_first(), b);
        assert(stages_wire(a + b) =~= stages_wire(a) + stages_wire(b));
    } else {
        assert(a + b =~= b);
        assert(stages_wire(a) + stages_wire(b) =~= stages_wire(b));
    }
}

/// The entries of the first `k` stages and those of the one after them.
proof fn lemma_stages_wire_step(ms: Seq<MacroStage>, k: int)
    requires
        0 <= k < ms.len(),
    ensures
        stages_wire(ms.take(k + 1)) == stages_wire(ms.take(k)) + stage_wire(ms[k]),
        stages_wire(ms.take(k + 1)).len() <= stages_wire(ms).len(),
{
    assert(ms.take(k + 1) =~= ms.take(k) + seq![ms[k]]);
    lemma_stages_wire_append(ms.take(k), seq![ms[k]]);
    reveal_with_fuel(stages_wire, 2);
    assert(seq![ms[k]].drop_first() =~= Seq::<MacroStage>::empty());
    assert(stages_wire(seq![ms[k]]) =~= stage_wire(ms[k]));
    assert(ms =~= ms.take(k + 1) + ms.skip(k + 1));
    lemma_stages_wire_append(ms.take(k + 1), ms.skip(k + 1));
}

/// The error for a negotiation payload that ends early.
fn cut_short(msg: &'static str, expected: usize, rest: &BytesMut) -> (r: ProtocolError)
    ensures
        r is NotEnoughData,
{
    let offending_bytes = to_vec(rest);
    let got = offending_bytes.len();
    ProtocolError::NotEnoughData(
        NotEnoughData { stage: STAGE_DECODING, item: "OptNeg", msg, expected, got, offending_bytes },
    )
}

/// Appends the four big-endian bytes of `n`.
fn put_be32(b: &mut BytesMut, n: u32)
    requires
        buf_contents(*old(b)).len() + 4 <= isize::MAX,
    ensures
        buf_contents(*final(b)) == buf_contents(*old(b)) + be32_bytes(n),
{
    put_slice(b, &[(n >> 24u32) as u8, (n >> 16u32) as u8, (n >> 8u32) as u8, n as u8]);
    assert(buf_contents(*b) =~= buf_contents(*old(b)) + be32_bytes(n));
}

impl Parsable for OptNeg {
    /// Version, action bits and protocol bits, four big-endian bytes each, then
    /// whole stage entries.
    open spec fn accepts(bytes: Seq<u8>) -> bool {
        bytes.len() >= 12 && stages_decoded(bytes.skip(12)) is Some
    }

    open spec fn parsed(bytes: Seq<u8>, v: Self) -> bool {
        &&& bytes.len() >= 12
        &&& v.version == be32_value(bytes)
        &&& v.actions == be32_value(bytes.skip(4))
        &&& v.protocol == be32_value(bytes.skip(8))
        &&& stages_decoded(bytes.skip(12)) matches Some(es) && stages_match(v.macros@, es)
    }

    /// Every ill-formed negotiation payload ends early.
    open spec fn truncated(bytes: Seq<u8>) -> bool {
        !(bytes.len() >= 12 && stages_decoded(bytes.skip(12)) is Some)
    }

    fn parse(buffer: BytesMut) -> (r: Result<Self, ProtocolError>) {
        let mut rest = buffer;
        let ghost s = buf_contents(rest);
        let version = match get_u32(&mut rest) {
            Some(x) => x,
            None => {
                return Err(cut_short("Missing version", 12, &rest));
            },
        };
        let actions = match get_u32(&mut rest) {
            Some(x) => x,
            None => {
                return Err(cut_short("Missing action bits", 8, &rest));
            },
        };
        let protocol = match get_u32(&mut rest) {
            Some(x) => x,
            None => {
                return Err(cut_short("Missing protocol bits", 4, &rest));
            },
        };
        assert(buf_contents(rest) =~= s.skip(12));
        assert(s.skip(4) =~= s.subrange(4, s.len() as int));
        let ghost body = buf_contents(rest);
        let mut macros: Vec<MacroStage> = Vec::new();
        let ghost mut es: Seq<(u32, Seq<u8>)> = Seq::empty();
        assert(es + Seq::<(u32, Seq<u8>)>::empty() =~= es);
        proof {
            match stages_decoded(body) {
                Some(all) => {
                    assert(es + all =~= all);
                },
                None => {},
            }
        }
        while buf_len(&rest) > 0
            invariant
                stages_decoded(body) == match stages_decoded(buf_contents(rest)) {
                    Some(rest) => Some(es + rest),
                    None => None::<Seq<(u32, Seq<u8>)>>,
                },
                stages_match(macros@, es),
                s.len() >= 12,
                body == s.skip(12),
                s == buf_contents(buffer),
            decreases buf_contents(rest).len(),
        {
            let ghost before = buf_contents(rest);
            let stage = match get_u32(&mut rest) {
                Some(x) => x,
                None => {
                    assert(stages_decoded(before) is None);
                    return Err(cut_short("Missing stage", 4, &rest));
                },
            };
            let ghost r = buf_contents(rest);
            proof {
                lemma_first_index(r, 0);
            }
            let raw = match delimited(&mut rest, 0) {
                Some(h) => to_vec(&h),
                None => {
                    assert(r == before.skip(4));
                    assert(stages_decoded(before) is None);
                    return Err(cut_short("Missing nullbyte after macro names", 1, &rest));
                },
            };
            let names = split_bytes(raw.as_slice(), 32);
            let ghost old_es = es;
            let ghost old_macros = macros@;
            let entry = MacroStage { stage, names };
            macros.push(entry);
            proof {
                es = es.push((stage, raw@));
                assert(macros@ =~= old_macros.push(entry));
                assert forall|i: int| 0 <= i < macros@.len() implies (#[trigger] macros@[i]).stage == es[i].0
                    && views(macros@[i].names@) == split_on(es[i].1, 32) by {
                    if i < old_macros.len() {
                        assert(macros@[i] == old_macros[i]);
                        assert(es[i] == old_es[i]);
                    }
                }
                match stages_decoded(buf_contents(rest)) {
                    Some(rest) => {
                        assert(old_es + stages_decoded(before)->0 =~= es + rest);
                    },
                    None => {},
                }
            }
        }
        assert(es + Seq::<(u32, Seq<u8>)>::empty() =~= es);
        Ok(OptNeg { version, actions, protocol, macros })
    }

    proof fn lemma_parse_then_write(bytes: Seq<u8>, v: Self) {
        lemma_stages_round_trip(bytes.skip(12), v.macros@);
        lemma_be32_bytes_value(bytes);
        lemma_be32_bytes_value(bytes.skip(4));
        lemma_be32_bytes_value(bytes.skip(8));
        assert(bytes =~= bytes.take(4) + bytes.skip(4).take(4) + bytes.skip(8).take(4) + bytes.skip(12));
    }
}

impl Writable for OptNeg {
    open spec fn wire(&self) -> Seq<u8> {
        be32_bytes(self.version) + be32_bytes(self.actions) + be32_bytes(self.protocol) + stages_wire(
            self.macros@,
        )
    }

    open spec fn frame_code(&self) -> u8 {
        79
    }

    fn write(&self, buffer: &mut BytesMut) {
        let ghost start = buf_contents(*buffer);
        put_be32(buffer, self.version);
        put_be32(buffer, self.actions);
        put_be32(buffer, self.protocol);
        let ghost head = buf_contents(*buffer);
        assert(self.macros@.take(0) =~= Seq::<MacroStage>::empty());
        assert(head =~= head + stages_wire(self.macros@.take(0)));
        let mut i: usize = 0;
        while i < self.macros.len()
            invariant
                0 <= i <= self.macros@.len(),
                head == start + be32_bytes(self.version) + be32_bytes(self.actions) + be32_bytes(self.protocol),
                buf_contents(*buffer) == head + stages_wire(self.macros@.take(i as int)),
                start.len() + self.wire().len() <= isize::MAX,
            decreases self.macros@.len() - i,
        {
            let m = &self.macros[i];
            proof {
                lemma_stages_wire_step(self.macros@, i as int);
            }
            put_be32(buffer, m.stage);
            put_joined(buffer, &m.names, 32);
            put_slice(buffer, &[0u8]);
            i = i + 1;
            assert(buf_contents(*buffer) =~= head + stages_wire(self.macros@.take(i as int)));
        }
        assert(self.macros@.take(i as int) =~= self.macros@);
        assert(buf_contents(*buffer) =~= start + self.wire());
    }

    fn len(&self) -> (r: usize) {
        let mut total: usize = 12;
        let mut i: usize = 0;
        assert(self.macros@.take(0) =~= Seq::<MacroStage>::empty());
        while i < self.macros.len()
            invariant
                0 <= i <= self.macros@.len(),
                total == 12 + stages_wire(self.macros@.take(i as int)).len(),
                self.wire().len() <= usize::MAX,
            decreases self.macros@.len() - i,
        {
            let m = &self.macros[i];
            proof {
                lemma_stages_wire_step(self.macros@, i as int);
            }
            total = total + 4 + joined_with_len(&m.names, 32) + 1;
            i = i + 1;
        }
        assert(self.macros@.take(i as int) =~= self.macros@);
        total
    }

    fn code(&self) -> (r: u8) {
        79
    }

    fn is_empty(&self) -> (r: bool) {
        false
    }
}

} // verus!
