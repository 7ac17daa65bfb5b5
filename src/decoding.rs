//! Reading payloads out of a buffer.
use bytes::BytesMut;
use vstd::prelude::*;

use crate::buffer::buf_contents;
use crate::encoding::Writable;
use crate::error::ProtocolError;

verus! {

/// An item that can be read from the payload of a frame.
pub trait Parsable: Sized + Writable {
    /// The payloads that are well formed for this item.
    spec fn accepts(bytes: Seq<u8>) -> bool;

    /// `v` is the item that the well-formed payload `bytes` stands for.
    spec fn parsed(bytes: Seq<u8>, v: Self) -> bool;

    /// The ill-formed payloads that lack a required delimiter (as opposed to
    /// those that hold one but break the item's structure).
    spec fn truncated(bytes: Seq<u8>) -> bool;

    /// Reads the item from a whole payload.
    fn parse(buffer: BytesMut) -> (r: Result<Self, ProtocolError>)
        ensures
            match r {
                Ok(v) => Self::accepts(buf_contents(buffer)) && Self::parsed(buf_contents(buffer), v),
                Err(e) => !Self::accepts(buf_contents(buffer)) && (e is NotEnoughData
                    <==> Self::truncated(buf_contents(buffer))),
            },
    ;

    /// Writing the item that a payload parses to gives the payload back.
    proof fn lemma_parse_then_write(bytes: Seq<u8>, v: Self)
        requires
            Self::accepts(bytes),
            Self::parsed(bytes, v),
        ensures
            v.wire() == bytes,
    ;
}

/// For every kind of item, a well-formed payload is written back exactly as it
/// was read: `write(parse(p)) == p`.
pub proof fn law_parse_then_write<T: Parsable>(bytes: Seq<u8>, v: T)
    requires
        T::accepts(bytes),
        T::parsed(bytes, v),
    ensures
        v.wire() == bytes,
{
    T::lemma_parse_then_write(bytes, v);
}

} // verus!
