//! Writing payloads into a buffer.
use bytes::BytesMut;
use vstd::prelude::*;

use crate::buffer::buf_contents;

verus! {

/// An item that can be written as the payload of a frame.
pub trait Writable {
    /// The payload bytes of this item.
    spec fn wire(&self) -> Seq<u8>;

    /// The frame code that announces this item.
    spec fn frame_code(&self) -> u8;

    /// Appends the payload to `buffer`.
    fn write(&self, buffer: &mut BytesMut)
        requires
            buf_contents(*old(buffer)).len() + self.wire().len() <= isize::MAX,
        ensures
            buf_contents(*final(buffer)) == buf_contents(*old(buffer)) + self.wire(),
    ;

    /// Length of the payload.
    fn len(&self) -> (r: usize)
        requires
            self.wire().len() <= usize::MAX,
        ensures
            r == self.wire().len(),
    ;

    /// The frame code that announces this item.
    fn code(&self) -> (r: u8)
        ensures
            r == self.frame_code(),
    ;

    /// Whether the payload is empty.
    fn is_empty(&self) -> (r: bool)
        ensures
            r == (self.wire().len() == 0),
    ;
}

} // verus!
