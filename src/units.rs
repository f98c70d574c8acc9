//! Byte units.  Snapshots hold exact byte counts; a count is shown in a
//! larger unit by splitting it into whole units and the bytes left over.
use vstd::prelude::*;

verus! {

pub const BYTES_PER_KIB: u64 = 1024;

pub const BYTES_PER_MIB: u64 = 1048576;

pub const BYTES_PER_GIB: u64 = 1073741824;

/// How many whole `unit`s `bytes` holds, and the bytes left over.
pub open spec fn split_spec(bytes: u128, unit: u128) -> (u128, u128)
    recommends
        unit > 0,
{
    ((bytes / unit) as u128, (bytes % unit) as u128)
}

/// Splits `bytes` into whole `unit`s and the bytes left over.
pub fn split_units(bytes: u128, unit: u128) -> (r: (u128, u128))
    requires
        unit > 0,
    ensures
        r == split_spec(bytes, unit),
        r.0 * unit + r.1 == bytes,
        r.1 < unit,
{
    let r = (bytes / unit, bytes % unit);
    proof {
        vstd::arithmetic::div_mod::lemma_fundamental_div_mod(bytes as int, unit as int);
        assert((bytes / unit) * unit == unit * (bytes / unit)) by (nonlinear_arith);
    }
    r
}

/// Splitting a count into units and joining the parts again gives the count
/// back; a whole number `n` of units splits into exactly `n` and nothing
/// left over.
pub proof fn lemma_split_round_trip(bytes: u128, unit: u128, n: u128)
    requires
        unit > 0,
    ensures
        split_spec(bytes, unit).0 * unit + split_spec(bytes, unit).1 == bytes,
        split_spec(bytes, unit).1 < unit,
        n * unit <= u128::MAX ==> split_spec((n * unit) as u128, unit) == (n, 0u128),
{
    vstd::arithmetic::div_mod::lemma_fundamental_div_mod(bytes as int, unit as int);
    assert((bytes / unit) * unit == unit * (bytes / unit)) by (nonlinear_arith);
    if n * unit <= u128::MAX {
        vstd::arithmetic::div_mod::lemma_div_multiples_vanish(n as int, unit as int);
        vstd::arithmetic::div_mod::lemma_mod_multiples_basic(n as int, unit as int);
        assert(n * unit == unit * n) by (nonlinear_arith);
    }
}

} // verus!
