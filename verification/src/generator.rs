//! Interfaces for world generators, which produce the values this codec
//! serializes.

use vstd::prelude::*;

verus! {

/// The seed a world generator is created from.
#[derive(Debug, Clone, Copy, PartialEq, Eq, Structural)]
pub struct Seed(pub u64);

/// A generator that can be constructed from a seed alone.
pub trait GeneratorInit: Sized {
    /// A fresh generator for the given seed.
    fn new(seed: Seed) -> Self;
}

} // verus!
