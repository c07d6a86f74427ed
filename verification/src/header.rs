//! Attribute tags and value representations.

use vstd::prelude::*;

verus! {

/// An attribute tag: the pair of a group number and an element number.
#[derive(Debug, Clone, Copy, PartialEq, Eq, Structural, Hash, PartialOrd, Ord)]
pub struct Tag(pub u16, pub u16);

impl Tag {
    /// The group number of this tag.
    pub fn group(self) -> (g: u16)
        ensures
            g == self.0,
    {
        self.0
    }

    /// The element number of this tag.
    pub fn element(self) -> (e: u16)
        ensures
            e == self.1,
    {
        self.1
    }
}

/// The value representation of an attribute: the type and encoding of its value.
#[derive(Debug, Clone, Copy, PartialEq, Eq, Structural, Hash, PartialOrd, Ord)]
pub enum VR {
    /// Application Entity
    AE,
    /// Age String
    AS,
    /// Attribute Tag
    AT,
    /// Code String
    CS,
    /// Date
    DA,
    /// Decimal String
    DS,
    /// Date Time
    DT,
    /// Floating Point Single
    FL,
    /// Floating Point Double
    FD,
    /// Integer String
    IS,
    /// Long String
    LO,
    /// Long Text
    LT,
    /// Other Byte
    OB,
    /// Other Double
    OD,
    /// Other Float
    OF,
    /// Other Long
    OL,
    /// Other Word
    OW,
    /// Person Name
    PN,
    /// Short String
    SH,
    /// Signed Long
    SL,
    /// Sequence of Items
    SQ,
    /// Signed Short
    SS,
    /// Short Text
    ST,
    /// Time
    TM,
    /// Unlimited Characters
    UC,
    /// Unique Identifier
    UI,
    /// Unsigned Long
    UL,
    /// Unknown
    UN,
    /// Universal Resource Identifier or Locator
    UR,
    /// Unsigned Short
    US,
    /// Unlimited Text
    UT,
}

} // verus!
