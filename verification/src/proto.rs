use vstd::prelude::*;
use vstd::slice::slice_subrange;

verus! {

/// A packet framed as `[0xAA, version, payload.., flag, 0x55]`, read in place.
#[derive(Clone, Copy)]
pub struct Proto<'a>(pub &'a [u8]);

impl<'a> Proto<'a> {
    pub const MAGIC_HEAD: u8 = 0xAA;
    pub const MAGIC_TAIL: u8 = 0x55;
    pub const HEADER_SIZE: usize = 2;
    pub const FOOTER_SIZE: usize = 2;
    pub const MIN_PACKET_SIZE: usize = 4;

    pub fn new(data: &'a [u8]) -> (r: Self)
        ensures
            r.0@ == data@,
    {
        Self(data)
    }

    /// Whether the bytes are long enough for a header and a footer, start with the
    /// head magic and end with the tail magic.
    pub open spec fn is_valid(data: Seq<u8>) -> bool {
        &&& data.len() >= 4
        &&& data[0] == 0xAAu8
        &&& data[data.len() - 1] == 0x55u8
    }

    pub fn valid(&self) -> (r: bool)
        ensures
            r == Self::is_valid(self.0@),
    {
        let data = self.0;
        if data.len() < Self::MIN_PACKET_SIZE {
            return false;
        }
        let first = data[0];
        let last = data[data.len() - 1];
        first == Self::MAGIC_HEAD && last == Self::MAGIC_TAIL
    }

    pub fn version(&self) -> (r: u8)
        requires
            self.0@.len() >= 2,
        ensures
            r == self.0@[1],
    {
        self.0[1]
    }

    pub fn payload(&self) -> (r: &'a [u8])
        requires
            self.0@.len() >= 4,
        ensures
            r@ == self.0@.subrange(2, self.0@.len() - 2),
    {
        let len = self.0.len();
        slice_subrange(self.0, Self::HEADER_SIZE, len - Self::FOOTER_SIZE)
    }

    pub fn footer_flag(&self) -> (r: u8)
        requires
            self.0@.len() >= 2,
        ensures
            r == self.0@[self.0@.len() - 2],
    {
        self.0[self.0.len() - 2]
    }
}

} // verus!
