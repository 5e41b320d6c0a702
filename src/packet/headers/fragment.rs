//! The header that numbers the fragments of a packet.
use vstd::prelude::*;
use super::{Cursor, HeaderReader, HeaderWriter};
use crate::errors::LaminarError;

verus! {

/// The encoded size of a fragment header.
pub const FRAGMENT_HEADER_SIZE: usize = 2;

/// Identifies one fragment among the fragments of a packet.
#[derive(Copy, Clone, Debug, PartialEq, Eq, Structural, Default)]
pub struct FragmentHeader {
    /// This fragment's index, from zero.
    pub id: u8,
    /// How many fragments the packet was split into.
    pub num_fragments: u8,
}

impl FragmentHeader {
    /// A header for fragment `id` of `num_fragments`.
    pub fn new(id: u8, num_fragments: u8) -> (r: Self)
        ensures
            r.id == id,
            r.num_fragments == num_fragments,
    {
        FragmentHeader { id, num_fragments }
    }

    /// This fragment's index.
    pub fn id(&self) -> (r: u8)
        ensures
            r == self.id,
    {
        self.id
    }

    /// The number of fragments in the packet this fragment belongs to.
    pub fn fragment_count(&self) -> (r: u8)
        ensures
            r == self.num_fragments,
    {
        self.num_fragments
    }
}

impl HeaderWriter for FragmentHeader {
    open spec fn spec_bytes(&self) -> Seq<u8> {
        seq![self.id, self.num_fragments]
    }

    fn write(&self, buffer: &mut Vec<u8>) {
        buffer.push(self.id);
        buffer.push(self.num_fragments);
        assert(buffer@ =~= old(buffer)@ + self.spec_bytes());
    }
}

impl HeaderReader for FragmentHeader {
    open spec fn spec_size() -> nat {
        2
    }

    open spec fn spec_read(bytes: Seq<u8>) -> Result<Self, LaminarError> {
        if bytes.len() < 2 {
            Err(LaminarError::ReceivedDataTooShort)
        } else {
            Ok(FragmentHeader { id: bytes[0], num_fragments: bytes[1] })
        }
    }

    fn read(rdr: &mut Cursor) -> (r: Result<Self, LaminarError>) {
        match rdr.take(FRAGMENT_HEADER_SIZE) {
            Some(b) => Ok(FragmentHeader { id: b[0], num_fragments: b[1] }),
            None => Err(LaminarError::ReceivedDataTooShort),
        }
    }

    fn size(&self) -> (r: usize) {
        FRAGMENT_HEADER_SIZE
    }
}

} // verus!
