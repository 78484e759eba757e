use vstd::prelude::*;

verus! {

/// The kinds of notification a server sends to its clients.
#[derive(Debug, Clone, Copy, PartialEq, Eq, Structural)]
pub enum Tag {
    Join,
}

/// The unsigned value of four bytes read little-endian.
pub open spec fn le_value(b: Seq<u8>) -> int {
    b[0] + 256 * b[1] + 65536 * b[2] + 16777216 * b[3]
}

impl Tag {
    /// The number that stands for a tag on the wire.
    pub open spec fn spec_value(self) -> int {
        match self {
            Tag::Join => 1,
        }
    }

    /// The tag's number as four little-endian bytes.
    pub fn into_bytes(self) -> (r: [u8; 4])
        ensures
            le_value(r@) == self.spec_value(),
            r@ == seq![1u8, 0u8, 0u8, 0u8],
    {
        match self {
            Tag::Join => [1u8, 0u8, 0u8, 0u8],
        }
    }

    /// The tag whose number the bytes hold, or that number where no tag has it.
    pub fn try_from_bytes(bytes: [u8; 4]) -> (r: Result<Tag, u32>)
        ensures
            le_value(bytes@) == 1 ==> r == Ok::<Tag, u32>(Tag::Join),
            le_value(bytes@) != 1 ==> r == Err::<Tag, u32>(le_value(bytes@) as u32),
    {
        let value: u32 = bytes[0] as u32 + 256 * (bytes[1] as u32) + 65536 * (bytes[2] as u32)
            + 16777216 * (bytes[3] as u32);
        if value == 1 {
            Ok(Tag::Join)
        } else {
            Err(value)
        }
    }
}

/// The message that announces a new player.
pub struct Join {}

} // verus!
