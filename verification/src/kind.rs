//! Value kinds as bit flags, so a parameter schema or a type descriptor can
//! describe a union of kinds cheaply; membership and intersection are the only
//! operations validation needs.

use vstd::prelude::*;

verus! {

pub const BYTES: u16 = 1;
pub const INTEGER: u16 = 2;
pub const FLOAT: u16 = 4;
pub const BOOLEAN: u16 = 8;
pub const TIMESTAMP: u16 = 16;
pub const REGEX: u16 = 32;
pub const ARRAY: u16 = 64;
pub const OBJECT: u16 = 128;
pub const NULL: u16 = 256;

/// Union of every kind: what is known of an expression no static information
/// reaches.
pub const ANY: u16 = 511;

/// The single-kind flags, each a distinct bit below `ANY`.
pub open spec fn is_flag(f: u16) -> bool {
    f == BYTES || f == INTEGER || f == FLOAT || f == BOOLEAN || f == TIMESTAMP
        || f == REGEX || f == ARRAY || f == OBJECT || f == NULL
}

/// Kind-set membership: the flag's bit is set in the union.
pub open spec fn kind_in(kinds: u16, flag: u16) -> bool {
    kinds & flag != 0
}

/// Whether two kind unions share at least one kind.
pub open spec fn kinds_intersect(a: u16, b: u16) -> bool {
    a & b != 0
}

pub fn intersects(a: u16, b: u16) -> (r: bool)
    ensures
        r == kinds_intersect(a, b),
{
    a & b != 0
}

/// A single-kind flag is a member of itself.
pub proof fn lemma_flag_in_itself(f: u16)
    requires
        f != 0,
    ensures
        kind_in(f, f),
{
    assert(f & f == f) by (bit_vector);
}

/// `ANY` contains every single-kind flag.
pub proof fn lemma_any_has_every_flag(f: u16)
    requires
        is_flag(f),
    ensures
        kind_in(ANY, f),
{
    assert(511u16 & 1u16 != 0
        && 511u16 & 2u16 != 0
        && 511u16 & 4u16 != 0
        && 511u16 & 8u16 != 0
        && 511u16 & 16u16 != 0
        && 511u16 & 32u16 != 0
        && 511u16 & 64u16 != 0
        && 511u16 & 128u16 != 0
        && 511u16 & 256u16 != 0) by (bit_vector);
}

} // verus!
