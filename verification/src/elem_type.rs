//! The small value types of a node description and the texts that denote them.

use crate::node_store::NodeId;
use crate::text::str_eq;
use vstd::prelude::*;

verus! {

/// A value given on the spot, or the node whose value is meant.
#[derive(Debug, Clone, Copy, PartialEq, Eq)]
pub enum ImmOrPNode<T> {
    Imm(T),
    PNode(NodeId),
}

/// Which accesses a register permits.
#[derive(Debug, Clone, Copy, PartialEq, Eq, Structural)]
pub enum AccessMode {
    /// Read only.
    RO,
    /// Write only.
    WO,
    /// Read and write.
    RW,
}

/// How a value read from or written to a register may be kept.
#[derive(Debug, Clone, Copy, PartialEq, Eq, Structural)]
pub enum CachingMode {
    /// Never kept.
    NoCache,
    /// A write goes to the device and into the cache.
    WriteThrough,
    /// A write goes to the device only and empties the cache.
    WriteAround,
}

/// Whether the content of a register is a signed number.
#[derive(Debug, Clone, Copy, PartialEq, Eq, Structural)]
pub enum Sign {
    Signed,
    Unsigned,
}

/// The byte order of a register.
#[derive(Debug, Clone, Copy, PartialEq, Eq, Structural)]
pub enum Endianness {
    /// Most significant byte first.
    BE,
    /// Least significant byte first.
    LE,
}

/// To whom a node is shown.
#[derive(Debug, Clone, Copy, PartialEq, Eq, Structural)]
pub enum Visibility {
    Beginner,
    Expert,
    Guru,
    Invisible,
}

/// How a number is best shown.
#[derive(Debug, Clone, Copy, PartialEq, Eq, Structural)]
pub enum Representation {
    Linear,
    Logarithmic,
    Boolean,
    PureNumber,
    HexNumber,
    IpV4Address,
    MacAddress,
}

/// The kind of number that a computed node yields.
#[derive(Debug, Clone, Copy, PartialEq, Eq, Structural)]
pub enum NumericKind {
    Integer,
    Real,
}

impl AccessMode {
    /// The access mode that a text denotes.
    pub open spec fn of_text(s: Seq<char>) -> Option<AccessMode> {
        if s == "RO"@ {
            Some(AccessMode::RO)
        } else if s == "WO"@ {
            Some(AccessMode::WO)
        } else if s == "RW"@ {
            Some(AccessMode::RW)
        } else {
            None
        }
    }

    /// Reads an access mode.
    pub fn from_text(s: &str) -> (r: Option<AccessMode>)
        ensures
            r == AccessMode::of_text(s@),
    {
        if str_eq(s, "RO") {
            Some(AccessMode::RO)
        } else if str_eq(s, "WO") {
            Some(AccessMode::WO)
        } else if str_eq(s, "RW") {
            Some(AccessMode::RW)
        } else {
            None
        }
    }
}

impl CachingMode {
    /// The caching mode that a text denotes.
    pub open spec fn of_text(s: Seq<char>) -> Option<CachingMode> {
        if s == "NoCache"@ {
            Some(CachingMode::NoCache)
        } else if s == "WriteThrough"@ {
            Some(CachingMode::WriteThrough)
        } else if s == "WriteAround"@ {
            Some(CachingMode::WriteAround)
        } else {
            None
        }
    }

    /// Reads a caching mode.
    pub fn from_text(s: &str) -> (r: Option<CachingMode>)
        ensures
            r == CachingMode::of_text(s@),
    {
        if str_eq(s, "NoCache") {
            Some(CachingMode::NoCache)
        } else if str_eq(s, "WriteThrough") {
            Some(CachingMode::WriteThrough)
        } else if str_eq(s, "WriteAround") {
            Some(CachingMode::WriteAround)
        } else {
            None
        }
    }
}

impl Sign {
    /// The sign that a text denotes.
    pub open spec fn of_text(s: Seq<char>) -> Option<Sign> {
        if s == "Signed"@ {
            Some(Sign::Signed)
        } else if s == "Unsigned"@ {
            Some(Sign::Unsigned)
        } else {
            None
        }
    }

    /// Reads a sign.
    pub fn from_text(s: &str) -> (r: Option<Sign>)
        ensures
            r == Sign::of_text(s@),
    {
        if str_eq(s, "Signed") {
            Some(Sign::Signed)
        } else if str_eq(s, "Unsigned") {
            Some(Sign::Unsigned)
        } else {
            None
        }
    }
}

impl Endianness {
    /// The byte order that a text denotes.
    pub open spec fn of_text(s: Seq<char>) -> Option<Endianness> {
        if s == "BigEndian"@ {
            Some(Endianness::BE)
        } else if s == "LittleEndian"@ {
            Some(Endianness::LE)
        } else {
            None
        }
    }

    /// Reads a byte order.
    pub fn from_text(s: &str) -> (r: Option<Endianness>)
        ensures
            r == Endianness::of_text(s@),
    {
        if str_eq(s, "BigEndian") {
            Some(Endianness::BE)
        } else if str_eq(s, "LittleEndian") {
            Some(Endianness::LE)
        } else {
            None
        }
    }
}

impl Visibility {
    /// The visibility that a text denotes.
    pub open spec fn of_text(s: Seq<char>) -> Option<Visibility> {
        if s == "Beginner"@ {
            Some(Visibility::Beginner)
        } else if s == "Expert"@ {
            Some(Visibility::Expert)
        } else if s == "Guru"@ {
            Some(Visibility::Guru)
        } else if s == "Invisible"@ {
            Some(Visibility::Invisible)
        } else {
            None
        }
    }

    /// Reads a visibility.
    pub fn from_text(s: &str) -> (r: Option<Visibility>)
        ensures
            r == Visibility::of_text(s@),
    {
        if str_eq(s, "Beginner") {
            Some(Visibility::Beginner)
        } else if str_eq(s, "Expert") {
            Some(Visibility::Expert)
        } else if str_eq(s, "Guru") {
            Some(Visibility::Guru)
        } else if str_eq(s, "Invisible") {
            Some(Visibility::Invisible)
        } else {
            None
        }
    }
}

impl Representation {
    /// The representation that a text denotes.
    pub open spec fn of_text(s: Seq<char>) -> Option<Representation> {
        if s == "Linear"@ {
            Some(Representation::Linear)
        } else if s == "Logarithmic"@ {
            Some(Representation::Logarithmic)
        } else if s == "Boolean"@ {
            Some(Representation::Boolean)
        } else if s == "PureNumber"@ {
            Some(Representation::PureNumber)
        } else if s == "HexNumber"@ {
            Some(Representation::HexNumber)
        } else if s == "IPV4Address"@ {
            Some(Representation::IpV4Address)
        } else if s == "MACAddress"@ {
            Some(Representation::MacAddress)
        } else {
            None
        }
    }

    /// Reads a representation.
    pub fn from_text(s: &str) -> (r: Option<Representation>)
        ensures
            r == Representation::of_text(s@),
    {
        if str_eq(s, "Linear") {
            Some(Representation::Linear)
        } else if str_eq(s, "Logarithmic") {
            Some(Representation::Logarithmic)
        } else if str_eq(s, "Boolean") {
            Some(Representation::Boolean)
        } else if str_eq(s, "PureNumber") {
            Some(Representation::PureNumber)
        } else if str_eq(s, "HexNumber") {
            Some(Representation::HexNumber)
        } else if str_eq(s, "IPV4Address") {
            Some(Representation::IpV4Address)
        } else if str_eq(s, "MACAddress") {
            Some(Representation::MacAddress)
        } else {
            None
        }
    }
}

/// The truth value that a text denotes: `Yes` or `No`.
pub open spec fn yes_no_of(s: Seq<char>) -> Option<bool> {
    if s == "Yes"@ {
        Some(true)
    } else if s == "No"@ {
        Some(false)
    } else {
        None
    }
}

/// Reads `Yes` or `No`.
pub fn yes_no_from_text(s: &str) -> (r: Option<bool>)
    ensures
        r == yes_no_of(s@),
{
    if str_eq(s, "Yes") {
        Some(true)
    } else if str_eq(s, "No") {
        Some(false)
    } else {
        None
    }
}

} // verus!
