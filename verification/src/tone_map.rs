//! The operator that maps radiance to what a display can show.
//!
//! The operators that do arithmetic on radiance live with the radiance type.
//! This module holds what they have in common and the one operator that
//! needs no arithmetic: the identity.

use vstd::prelude::*;

verus! {

/// A tone-mapping operator on colours of type `C`.
pub trait ToneMap<C>: Send + Sync {
    fn tone_map(&self, color: C) -> C;
}

/// The operator that leaves every colour as it is.
#[derive(Clone, Copy, Debug, Default)]
pub struct NoToneMap;

impl NoToneMap {
    pub fn new() -> (map: Self) {
        NoToneMap
    }
}

impl<C> ToneMap<C> for NoToneMap {
    /// Hands back `color` itself.
    fn tone_map(&self, color: C) -> (out: C)
        ensures
            out == color,
    {
        color
    }
}

} // verus!
