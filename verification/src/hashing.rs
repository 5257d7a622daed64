//! The Fx hash, 64 bits wide on every machine, as the `fxhash` crate
//! computes it.

use vstd::prelude::*;
use fxhash::FxHasher64;
use std::hash::Hasher;

verus! {

/// `fxhash::FxHasher64`, a hasher that is carried about and never looked
/// into.
#[verifier::external_type_specification]
#[verifier::external_body]
pub struct ExFxHasher64(FxHasher64);

/// The state of a hasher: the 64 bits that it has mixed so far, which
/// are what `finish` would hand out.
pub uninterp spec fn fx_state(h: FxHasher64) -> u64;

/// One round of the hash: rotate the state left by five bits, mix the
/// word in, multiply.
pub open spec fn fx_step(state: u64, word: u64) -> u64 {
    (((state << 5) | (state >> 59)) ^ word).wrapping_mul(0x517cc1b727220a95)
}

/// `FxHasher64::default`: a hasher whose state is 0.
#[verifier::external_body]
pub(crate) fn fx_new() -> (h: FxHasher64)
    ensures
        fx_state(h) == 0,
{
    FxHasher64::default()
}

/// `Hasher::write_u8` of `FxHasher64`: one round with the byte, widened
/// to 64 bits, as the word.
#[verifier::external_body]
pub(crate) fn fx_write_u8(h: &mut FxHasher64, i: u8)
    ensures
        fx_state(*final(h)) == fx_step(fx_state(*old(h)), i as u64),
{
    h.write_u8(i)
}

/// `Hasher::write_u64` of `FxHasher64`: one round with the word.
#[verifier::external_body]
pub(crate) fn fx_write_u64(h: &mut FxHasher64, i: u64)
    ensures
        fx_state(*final(h)) == fx_step(fx_state(*old(h)), i),
{
    h.write_u64(i)
}

/// `Hasher::finish` of `FxHasher64`: the state as it is.
#[verifier::external_body]
pub(crate) fn fx_finish(h: &FxHasher64) -> (r: u64)
    ensures
        r == fx_state(*h),
{
    h.finish()
}

} // verus!
