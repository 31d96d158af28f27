use crate::error::EOFError;
use vstd::prelude::*;

verus! {

/// The kinds of section a container may declare.
#[derive(Debug, Clone, Copy, PartialEq, Eq, Hash, Structural)]
pub enum SectionKind {
    Type,
    Code,
    /// A nested container.
    Container,
    Data,
}

/// The header byte that ends the list of section headers.
pub const TERMINATOR: u8 = 0x00;

/// The kind that a header byte names, if any.
pub open spec fn kind_of_byte(b: u8) -> Option<SectionKind> {
    if b == 0x01 {
        Some(SectionKind::Type)
    } else if b == 0x02 {
        Some(SectionKind::Code)
    } else if b == 0x03 {
        Some(SectionKind::Container)
    } else if b == 0x04 {
        Some(SectionKind::Data)
    } else {
        None
    }
}

/// The header byte of a kind.
pub open spec fn byte_of_kind(k: SectionKind) -> u8 {
    match k {
        SectionKind::Type => 0x01,
        SectionKind::Code => 0x02,
        SectionKind::Container => 0x03,
        SectionKind::Data => 0x04,
    }
}

/// Position of a kind in the canonical section order `Type, Code, Container, Data`.
pub open spec fn kind_rank(k: SectionKind) -> nat {
    match k {
        SectionKind::Type => 0,
        SectionKind::Code => 1,
        SectionKind::Container => 2,
        SectionKind::Data => 3,
    }
}

/// Only kinds that may appear more than once in a container.
pub open spec fn may_repeat(k: SectionKind) -> bool {
    k == SectionKind::Code || k == SectionKind::Container
}

pub open spec fn decode_kind(b: u8) -> Result<SectionKind, EOFError> {
    match kind_of_byte(b) {
        Some(k) => Ok(k),
        None => Err(EOFError::InvalidSectionKind(b)),
    }
}

impl SectionKind {
    /// Position of this kind in the canonical section order.
    pub fn rank(self) -> (r: u8)
        ensures
            r == kind_rank(self),
    {
        match self {
            SectionKind::Type => 0,
            SectionKind::Code => 1,
            SectionKind::Container => 2,
            SectionKind::Data => 3,
        }
    }

    /// The byte that stands for this kind in a section header.
    pub fn to_byte(self) -> (r: u8)
        ensures
            r == byte_of_kind(self),
            kind_of_byte(r) == Some(self),
    {
        match self {
            SectionKind::Type => 0x01,
            SectionKind::Code => 0x02,
            SectionKind::Container => 0x03,
            SectionKind::Data => 0x04,
        }
    }
}

impl TryFrom<u8> for SectionKind {
    type Error = EOFError;

    fn try_from(value: u8) -> (r: Result<SectionKind, EOFError>) {
        match value {
            0x01 => Ok(SectionKind::Type),
            0x02 => Ok(SectionKind::Code),
            0x03 => Ok(SectionKind::Container),
            0x04 => Ok(SectionKind::Data),
            _ => Err(EOFError::InvalidSectionKind(value)),
        }
    }
}

impl vstd::std_specs::convert::TryFromSpecImpl<u8> for SectionKind {
    open spec fn obeys_try_from_spec() -> bool {
        true
    }

    open spec fn try_from_spec(v: u8) -> Result<SectionKind, EOFError> {
        decode_kind(v)
    }
}

/// Decoding a header byte gives back the kind it was encoded from.
pub proof fn lemma_kind_byte_round_trip(k: SectionKind)
    ensures
        kind_of_byte(byte_of_kind(k)) == Some(k),
        byte_of_kind(k) != TERMINATOR,
{
}

} // verus!
