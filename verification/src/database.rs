//! Identifiers as the relational store keeps them.
//!
//! The store has no unsigned 64-bit column type, so a snowflake is written as
//! the signed integer with the same 64 bits and read back the same way.

use vstd::prelude::*;
use vstd::std_specs::convert::FromSpecImpl;

verus! {

/// The unsigned value whose two's-complement bit pattern is that of `raw`.
pub open spec fn unsigned_bits(raw: i64) -> u64 {
    if raw >= 0 {
        raw as u64
    } else {
        (raw + 0x1_0000_0000_0000_0000) as u64
    }
}

/// The signed value whose two's-complement bit pattern is that of `id`.
pub open spec fn signed_bits(id: u64) -> i64 {
    if id <= 0x7fff_ffff_ffff_ffff {
        id as i64
    } else {
        (id - 0x1_0000_0000_0000_0000) as i64
    }
}

/// A snowflake identifier (guild, user or role).
#[derive(Debug, Clone, Copy, PartialEq, Eq, Structural)]
pub struct Id(pub u64);

impl Id {
    /// Reads an identifier from its stored, signed form.
    pub fn from_stored(raw: i64) -> (id: Id)
        ensures
            id.0 == unsigned_bits(raw),
            signed_bits(id.0) == raw,
    {
        if raw >= 0 {
            Id(raw as u64)
        } else {
            let low: u64 = (raw + 0x7fff_ffff_ffff_ffff + 1) as u64;
            Id(low + 0x8000_0000_0000_0000)
        }
    }

    /// The signed form under which the store keeps this identifier.
    pub fn to_stored(&self) -> (raw: i64)
        ensures
            raw == signed_bits(self.0),
            unsigned_bits(raw) == self.0,
    {
        if self.0 <= 0x7fff_ffff_ffff_ffff {
            self.0 as i64
        } else {
            let low: u64 = self.0 - 0x8000_0000_0000_0000;
            (low as i64) - 0x7fff_ffff_ffff_ffff - 1
        }
    }
}

impl From<i64> for Id {
    /// Reads an identifier from its stored, signed form.
    fn from(id: i64) -> (read: Self) {
        Id::from_stored(id)
    }
}

impl FromSpecImpl<i64> for Id {
    open spec fn obeys_from_spec() -> bool {
        true
    }

    open spec fn from_spec(id: i64) -> Id {
        Id(unsigned_bits(id))
    }
}

} // verus!
