//! Random variant selection over a resolved table.
//!
//! The drawing itself comes from the rand crate; the library only states
//! what holds of every outcome — the drawn ordinal is valid — and everything
//! downstream of the draw works for any such ordinal.

use vstd::prelude::*;

use crate::resolve::ResolvedEnumMetadata;

verus! {

/// Declares rand's thread-local generator handle to the verifier; values of
/// it are carried through opaquely.
#[verifier::external_type_specification]
#[verifier::external_body]
pub struct ExThreadRng(rand::rngs::ThreadRng);

/// Relies on rand::rng: returns a handle to the thread-local generator.
#[verifier::external_body]
fn fresh_rng() -> rand::rngs::ThreadRng {
    rand::rng()
}

/// Relies on RngExt::random_range: returns a value drawn from the given
/// range. The call panics on an empty range, so a positive bound is
/// required; nothing more is promised of a random draw than its bound.
#[verifier::external_body]
fn draw_below(rng: &mut rand::rngs::ThreadRng, n: usize) -> (r: usize)
    requires
        n > 0,
    ensures
        r < n,
{
    rand::RngExt::random_range(rng, 0..n)
}

impl ResolvedEnumMetadata {
    /// A randomly drawn valid ordinal. Two calls on the same table may
    /// return different ordinals; each is below the variant count.
    pub fn random_ordinal(&self) -> (r: usize)
        requires
            self.variants@.len() > 0,
        ensures
            r < self.variants@.len(),
    {
        let mut rng = fresh_rng();
        draw_below(&mut rng, self.variants.len())
    }
}

} // verus!
