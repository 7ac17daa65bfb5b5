//! The byte buffer that payloads are parsed from and written to.
use bytes::BufMut;
use bytes::BytesMut;
use miltr_utils::ByteParsing;
use vstd::prelude::*;
use vstd::slice::slice_to_vec;

use crate::frame::be32_value;

verus! {

#[verifier::external_type_specification]
#[verifier::external_body]
pub struct ExBytesMut(BytesMut);

/// The bytes that a buffer holds, in order.
pub uninterp spec fn buf_contents(b: BytesMut) -> Seq<u8>;

/// Index of the first occurrence of `d` in `s`, if any.
pub open spec fn first_index(s: Seq<u8>, d: u8) -> Option<int>
    decreases s.len(),
{
    if s.len() == 0 {
        None
    } else if s[0] == d {
        Some(0)
    } else {
        match first_index(s.drop_first(), d) {
            Some(k) => Some(k + 1),
            None => None,
        }
    }
}

/// What `first_index` says, as facts on positions.
pub proof fn lemma_first_index(s: Seq<u8>, d: u8)
    ensures
        match first_index(s, d) {
            Some(i) => 0 <= i < s.len() && s[i] == d && forall|j: int| 0 <= j < i ==> s[j] != d,
            None => forall|j: int| 0 <= j < s.len() ==> s[j] != d,
        },
    decreases s.len(),
{
    if s.len() > 0 && s[0] != d {
        lemma_first_index(s.drop_first(), d);
        match first_index(s.drop_first(), d) {
            Some(k) => {
                assert forall|j: int| 0 <= j < k + 1 implies s[j] != d by {
                    if j > 0 {
                        assert(s[j] == s.drop_first()[j - 1]);
                    }
                }
            },
            None => {
                assert forall|j: int| 0 <= j < s.len() implies s[j] != d by {
                    if j > 0 {
                        assert(s[j] == s.drop_first()[j - 1]);
                    }
                }
            },
        }
    }
}

/// Position of the first `d` in `s`.
pub fn position(s: &[u8], d: u8) -> (r: Option<usize>)
    ensures
        match r {
            Some(p) => first_index(s@, d) == Some(p as int) && p < s@.len() && s@[p as int] == d,
            None => first_index(s@, d) is None,
        },
{
    proof {
        lemma_first_index(s@, d);
    }
    let mut i: usize = 0;
    while i < s.len()
        invariant
            0 <= i <= s@.len(),
            forall|j: int| 0 <= j < i ==> s@[j] != d,
            match first_index(s@, d) {
                Some(k) => 0 <= k < s@.len() && s@[k] == d && forall|j: int| 0 <= j < k ==> s@[j] != d,
                None => forall|j: int| 0 <= j < s@.len() ==> s@[j] != d,
            },
        decreases s@.len() - i,
    {
        if s[i] == d {
            return Some(i);
        }
        i = i + 1;
    }
    None
}

/// Relies on `miltr_utils::ByteParsing::delimited` for `BytesMut`: it finds the
/// first `delimiter`, splits off and returns the bytes before it, and drops the
/// delimiter itself; without a delimiter it returns `None` and leaves the buffer
/// as it was.
#[verifier::external_body]
pub fn delimited(b: &mut BytesMut, delimiter: u8) -> (r: Option<BytesMut>)
    ensures
        match first_index(buf_contents(*old(b)), delimiter) {
            Some(i) => r matches Some(head) && buf_contents(head) == buf_contents(*old(b)).take(i)
                && buf_contents(*final(b)) == buf_contents(*old(b)).skip(i + 1),
            None => r is None && buf_contents(*final(b)) == buf_contents(*old(b)),
        },
{
    b.delimited(delimiter)
}

/// Relies on `miltr_utils::ByteParsing::safe_get_u8` for `BytesMut`: the first
/// byte, taken off the buffer; `None` on an empty buffer, which stays as it was.
#[verifier::external_body]
pub fn get_u8(b: &mut BytesMut) -> (r: Option<u8>)
    ensures
        buf_contents(*old(b)).len() == 0 ==> r is None && buf_contents(*final(b)) == buf_contents(*old(b)),
        buf_contents(*old(b)).len() > 0 ==> r == Some(buf_contents(*old(b))[0]) && buf_contents(*final(b))
            == buf_contents(*old(b)).drop_first(),
{
    b.safe_get_u8()
}

/// Relies on `miltr_utils::ByteParsing::safe_get_u32` for `BytesMut`: the first
/// four bytes read as a big-endian number (`Buf::get_u32`), taken off the
/// buffer; `None` on a shorter buffer, which stays as it was.
#[verifier::external_body]
pub fn get_u32(b: &mut BytesMut) -> (r: Option<u32>)
    ensures
        buf_contents(*old(b)).len() < 4 ==> r is None && buf_contents(*final(b)) == buf_contents(*old(b)),
        buf_contents(*old(b)).len() >= 4 ==> r == Some(be32_value(buf_contents(*old(b))))
            && buf_contents(*final(b)) == buf_contents(*old(b)).skip(4),
{
    b.safe_get_u32()
}

/// Relies on `BytesMut::len`: the number of bytes in the buffer.
#[verifier::external_body]
pub fn buf_len(b: &BytesMut) -> (r: usize)
    ensures
        r == buf_contents(*b).len(),
{
    b.len()
}

/// Bytes followed by a NUL.
pub open spec fn nul_terminated(s: Seq<u8>) -> Seq<u8> {
    s + seq![0u8]
}

/// The NUL-terminated items that make up `s` exactly, or `None` where `s` does
/// not end in a NUL.
pub open spec fn nul_items(s: Seq<u8>) -> Option<Seq<Seq<u8>>>
    decreases s.len(),
{
    if s.len() == 0 {
        Some(Seq::empty())
    } else {
        match first_index(s, 0) {
            Some(i) => if 0 <= i < s.len() {
                match nul_items(s.skip(i + 1)) {
                    Some(rest) => Some(seq![s.take(i)] + rest),
                    None => None,
                }
            } else {
                None
            },
            None => None,
        }
    }
}

/// Items, each followed by a NUL.
pub open spec fn joined(items: Seq<Seq<u8>>) -> Seq<u8>
    decreases items.len(),
{
    if items.len() == 0 {
        Seq::empty()
    } else {
        nul_terminated(items[0]) + joined(items.drop_first())
    }
}

/// Joining two runs of items one after the other.
pub proof fn lemma_joined_append(a: Seq<Seq<u8>>, b: Seq<Seq<u8>>)
    ensures
        joined(a + b) == joined(a) + joined(b),
    decreases a.len(),
{
    if a.len() > 0 {
        assert((a + b).drop_first() =~= a.drop_first() + b);
        lemma_joined_append(a.drop_first(), b);
        assert(joined(a + b) =~= joined(a) + joined(b));
    } else {
        assert(a + b =~= b);
        assert(joined(a) + joined(b) =~= joined(b));
    }
}

/// The contents of byte vectors.
pub open spec fn views(v: Seq<Vec<u8>>) -> Seq<Seq<u8>> {
    v.map_values(|x: Vec<u8>| x@)
}

/// Appends each item of `items` and a NUL after it.
pub fn put_items(b: &mut BytesMut, items: &Vec<Vec<u8>>)
    requires
        buf_contents(*old(b)).len() + joined(views(items@)).len() <= isize::MAX,
    ensures
        buf_contents(*final(b)) == buf_contents(*old(b)) + joined(views(items@)),
{
    let ghost start = buf_contents(*b);
    let mut i: usize = 0;
    while i < items.len()
        invariant
            0 <= i <= items@.len(),
            buf_contents(*b) == start + joined(views(items@.take(i as int))),
            start.len() + joined(views(items@)).len() <= isize::MAX,
        decreases items@.len() - i,
    {
        proof {
            assert(views(items@) =~= views(items@.take(i as int)) + views(items@.skip(i as int)));
            lemma_joined_append(views(items@.take(i as int)), views(items@.skip(i as int)));
            assert(views(items@.skip(i as int)).drop_first() =~= views(items@.skip(i + 1)));
            assert(views(items@.take(i + 1)) =~= views(items@.take(i as int)) + seq![items@[i as int]@]);
            lemma_joined_append(views(items@.take(i as int)), seq![items@[i as int]@]);
            let one = seq![items@[i as int]@];
            assert(one.drop_first() =~= Seq::<Seq<u8>>::empty());
            assert(joined(one) =~= nul_terminated(items@[i as int]@) + joined(Seq::<Seq<u8>>::empty()));
            assert(joined(one) =~= nul_terminated(items@[i as int]@));
        }
        put_slice(b, items[i].as_slice());
        put_slice(b, &[0u8]);
        i = i + 1;
        assert(buf_contents(*b) =~= start + joined(views(items@.take(i as int))));
    }
    assert(items@.take(i as int) =~= items@);
}

/// The length of the items of `items`, each with its NUL.
pub fn items_len(items: &Vec<Vec<u8>>) -> (r: usize)
    requires
        joined(views(items@)).len() <= usize::MAX,
    ensures
        r == joined(views(items@)).len(),
{
    let mut total: usize = 0;
    let mut i: usize = 0;
    while i < items.len()
        invariant
            0 <= i <= items@.len(),
            total == joined(views(items@.take(i as int))).len(),
            joined(views(items@)).len() <= usize::MAX,
        decreases items@.len() - i,
    {
        proof {
            assert(views(items@) =~= views(items@.take(i + 1)) + views(items@.skip(i + 1)));
            lemma_joined_append(views(items@.take(i + 1)), views(items@.skip(i + 1)));
            assert(views(items@.take(i + 1)) =~= views(items@.take(i as int)) + seq![items@[i as int]@]);
            lemma_joined_append(views(items@.take(i as int)), seq![items@[i as int]@]);
            reveal_with_fuel(joined, 2);
            assert(joined(seq![items@[i as int]@]) =~= nul_terminated(items@[i as int]@));
        }
        total = total + items[i].len() + 1;
        i = i + 1;
    }
    assert(items@.take(i as int) =~= items@);
    total
}

/// The parts of `s` between occurrences of `d`; there is always one more part
/// than there are occurrences.
pub open spec fn split_on(s: Seq<u8>, d: u8) -> Seq<Seq<u8>>
    decreases s.len(),
{
    match first_index(s, d) {
        Some(i) => if 0 <= i < s.len() {
            seq![s.take(i)] + split_on(s.skip(i + 1), d)
        } else {
            seq![s]
        },
        None => seq![s],
    }
}

/// Parts with `d` between each two of them.
pub open spec fn join_with(parts: Seq<Seq<u8>>, d: u8) -> Seq<u8>
    decreases parts.len(),
{
    if parts.len() == 0 {
        Seq::empty()
    } else if parts.len() == 1 {
        parts[0]
    } else {
        parts[0] + seq![d] + join_with(parts.drop_first(), d)
    }
}

/// Joining the parts of `s` with the byte it was split on gives `s` back.
pub proof fn lemma_split_join(s: Seq<u8>, d: u8)
    ensures
        split_on(s, d).len() >= 1,
        join_with(split_on(s, d), d) == s,
    decreases s.len(),
{
    lemma_first_index(s, d);
    match first_index(s, d) {
        Some(i) => {
            let rest = s.skip(i + 1);
            lemma_split_join(rest, d);
            let parts = split_on(s, d);
            assert(parts.drop_first() =~= split_on(rest, d));
            assert(s =~= s.take(i) + seq![d] + rest);
        },
        None => {},
    }
}

/// The parts of `s` between occurrences of `d`.
pub fn split_bytes(s: &[u8], d: u8) -> (r: Vec<Vec<u8>>)
    ensures
        views(r@) == split_on(s@, d),
{
    let mut out: Vec<Vec<u8>> = Vec::new();
    let mut start: usize = 0;
    let mut done = false;
    let n = s.len();
    assert(s@.skip(0) =~= s@);
    assert(views(out@) + split_on(s@, d) =~= split_on(s@, d));
    while !done
        invariant
            n == s@.len(),
            0 <= start <= n,
            !done ==> split_on(s@, d) == views(out@) + split_on(s@.skip(start as int), d),
            done ==> split_on(s@, d) == views(out@),
        decreases n - start + (if done {
            0int
        } else {
            1int
        }),
    {
        let rest = &s[start..n];
        assert(rest@ =~= s@.skip(start as int));
        let ghost shown = views(out@);
        match position(rest, d) {
            Some(k) => {
                out.push(slice_to_vec(&rest[0..k]));
                proof {
                    assert(views(out@) =~= shown.push(rest@.take(k as int)));
                    assert(s@.skip(start as int).skip(k + 1) =~= s@.skip(start + k + 1));
                    assert(shown + split_on(rest@, d) =~= views(out@) + split_on(s@.skip(start + k + 1), d));
                }
                start = start + k + 1;
            },
            None => {
                out.push(slice_to_vec(rest));
                proof {
                    assert(views(out@) =~= shown.push(rest@));
                    assert(shown + split_on(rest@, d) =~= views(out@));
                }
                done = true;
            },
        }
    }
    out
}

/// Appends the parts of `parts` with `d` between each two of them.
pub fn put_joined(b: &mut BytesMut, parts: &Vec<Vec<u8>>, d: u8)
    requires
        buf_contents(*old(b)).len() + join_with(views(parts@), d).len() <= isize::MAX,
    ensures
        buf_contents(*final(b)) == buf_contents(*old(b)) + join_with(views(parts@), d),
{
    let ghost start = buf_contents(*b);
    let mut i: usize = 0;
    while i < parts.len()
        invariant
            0 <= i <= parts@.len(),
            buf_contents(*b) == start + join_with(views(parts@.take(i as int)), d),
            start.len() + join_with(views(parts@), d).len() <= isize::MAX,
        decreases parts@.len() - i,
    {
        proof {
            lemma_join_with_push(views(parts@.take(i as int)), parts@[i as int]@, d);
            assert(views(parts@.take(i + 1)) =~= views(parts@.take(i as int)).push(parts@[i as int]@));
            lemma_join_with_prefix_len(views(parts@), i + 1, d);
            assert(views(parts@).take(i + 1) =~= views(parts@.take(i + 1)));
        }
        if i > 0 {
            put_slice(b, &[d]);
        }
        put_slice(b, parts[i].as_slice());
        i = i + 1;
        assert(buf_contents(*b) =~= start + join_with(views(parts@.take(i as int)), d));
    }
    assert(parts@.take(i as int) =~= parts@);
}

/// The length of the parts of `parts` joined with one byte between each two.
pub fn joined_with_len(parts: &Vec<Vec<u8>>, d: u8) -> (r: usize)
    requires
        join_with(views(parts@), d).len() <= usize::MAX,
    ensures
        r == join_with(views(parts@), d).len(),
{
    let mut total: usize = 0;
    let mut i: usize = 0;
    while i < parts.len()
        invariant
            0 <= i <= parts@.len(),
            total == join_with(views(parts@.take(i as int)), d).len(),
            join_with(views(parts@), d).len() <= usize::MAX,
        decreases parts@.len() - i,
    {
        proof {
            lemma_join_with_push(views(parts@.take(i as int)), parts@[i as int]@, d);
            assert(views(parts@.take(i + 1)) =~= views(parts@.take(i as int)).push(parts@[i as int]@));
            lemma_join_with_prefix_len(views(parts@), i + 1, d);
            assert(views(parts@).take(i + 1) =~= views(parts@.take(i + 1)));
        }
        if i > 0 {
            total = total + 1;
        }
        total = total + parts[i].len();
        i = i + 1;
    }
    assert(parts@.take(i as int) =~= parts@);
    total
}

/// Joining one more part at the end.
pub proof fn lemma_join_with_push(parts: Seq<Seq<u8>>, x: Seq<u8>, d: u8)
    ensures
        join_with(parts.push(x), d) == if parts.len() == 0 {
            x
        } else {
            join_with(parts, d) + seq![d] + x
        },
    decreases parts.len(),
{
    if parts.len() == 1 {
        assert(parts.push(x).drop_first() =~= seq![x]);
        assert(join_with(seq![x], d) == x);
    } else if parts.len() > 1 {
        assert(parts.push(x).drop_first() =~= parts.drop_first().push(x));
        lemma_join_with_push(parts.drop_first(), x, d);
    }
}

/// A prefix of the parts never joins to more than all of them.
pub proof fn lemma_join_with_prefix_len(parts: Seq<Seq<u8>>, k: int, d: u8)
    requires
        0 <= k <= parts.len(),
    ensures
        join_with(parts.take(k), d).len() <= join_with(parts, d).len(),
    decreases parts.len() - k,
{
    if k < parts.len() {
        lemma_join_with_prefix_len(parts, k + 1, d);
        assert(parts.take(k + 1) =~= parts.take(k).push(parts[k]));
        lemma_join_with_push(parts.take(k), parts[k], d);
    } else {
        assert(parts.take(k) =~= parts);
    }
}

/// Appends `s` and a NUL after it.
pub fn put_terminated(b: &mut BytesMut, s: &[u8])
    requires
        buf_contents(*old(b)).len() + s@.len() + 1 <= isize::MAX,
    ensures
        buf_contents(*final(b)) == buf_contents(*old(b)) + nul_terminated(s@),
{
    put_slice(b, s);
    put_slice(b, &[0u8]);
    assert(buf_contents(*b) =~= buf_contents(*old(b)) + nul_terminated(s@));
}

/// Joining the items of `s` gives `s` back.
pub proof fn lemma_nul_items_joined(s: Seq<u8>)
    requires
        nul_items(s) is Some,
    ensures
        joined(nul_items(s)->0) == s,
    decreases s.len(),
{
    if s.len() > 0 {
        let i = first_index(s, 0)->0;
        lemma_first_index(s, 0);
        lemma_nul_items_joined(s.skip(i + 1));
        let items = nul_items(s)->0;
        assert(items.drop_first() =~= nul_items(s.skip(i + 1))->0);
        assert(s =~= nul_terminated(s.take(i)) + s.skip(i + 1));
    }
}

/// The items of a buffer that holds NUL-terminated items and nothing else; the
/// buffer is consumed.
pub fn read_items(b: &mut BytesMut) -> (r: Option<Vec<Vec<u8>>>)
    ensures
        match nul_items(buf_contents(*old(b))) {
            Some(items) => r matches Some(v) && views(v@) == items,
            None => r is None,
        },
{
    let ghost whole = buf_contents(*b);
    let mut out: Vec<Vec<u8>> = Vec::new();
    while buf_len(b) > 0
        invariant
            whole == buf_contents(*old(b)),
            nul_items(whole) == match nul_items(buf_contents(*b)) {
                Some(rest) => Some(out@.map_values(|x: Vec<u8>| x@) + rest),
                None => None::<Seq<Seq<u8>>>,
            },
        decreases buf_contents(*b).len(),
    {
        let ghost before = buf_contents(*b);
        proof {
            lemma_first_index(before, 0);
        }
        match delimited(b, 0) {
            Some(head) => {
                let ghost shown = out@.map_values(|x: Vec<u8>| x@);
                out.push(to_vec(&head));
                proof {
                    assert(out@.map_values(|x: Vec<u8>| x@) =~= shown.push(buf_contents(head)));
                    match nul_items(buf_contents(*b)) {
                        Some(rest) => {
                            assert(shown + nul_items(before)->0 =~= shown.push(buf_contents(head)) + rest);
                        },
                        None => {},
                    }
                }
            },
            None => {
                assert(nul_items(before) is None);
                return None;
            },
        }
    }
    assert(out@.map_values(|x: Vec<u8>| x@) + Seq::<Seq<u8>>::empty() =~= out@.map_values(|x: Vec<u8>| x@));
    Some(out)
}

/// Relies on `BytesMut`'s deref to `[u8]` and `<[u8]>::to_vec`: a copy of the
/// buffer's bytes.
#[verifier::external_body]
pub fn to_vec(b: &BytesMut) -> (r: Vec<u8>)
    ensures
        r@ == buf_contents(*b),
{
    b.to_vec()
}

/// Relies on `BytesMut::new`, which makes an empty buffer.
#[verifier::external_body]
pub fn new_buffer() -> (r: BytesMut)
    ensures
        buf_contents(r) == Seq::<u8>::empty(),
{
    BytesMut::new()
}

/// Relies on `BufMut::put_slice` for `BytesMut`, which extends the buffer by
/// the slice's bytes.
#[verifier::external_body]
pub fn put_slice(b: &mut BytesMut, s: &[u8])
    requires
        buf_contents(*old(b)).len() + s@.len() <= isize::MAX,
    ensures
        buf_contents(*final(b)) == buf_contents(*old(b)) + s@,
{
    b.put_slice(s)
}

} // verus!
