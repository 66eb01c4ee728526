use vstd::prelude::*;
use ark_relations::r1cs::SynthesisError;

pub mod absorbable;
pub mod field;
pub mod laws;
pub mod sponge;

verus! {

/// A failure reported by the underlying constraint-system substrate while
/// an arithmetic relation was being constructed. Such an error is fatal to
/// the sponge instance it came from: the state may be partially mutated,
/// and the caller must discard the instance.
#[derive(Debug)]
pub enum SubstrateError {
    /// The substrate's own error, carried through unchanged.
    Synthesis(SynthesisError),
}

/// Where the duplex sponge currently stands: taking input in, or giving
/// output out. The index is a cursor into the rate-sized prefix of the
/// sponge state.
#[derive(Clone, Copy)]
pub enum DuplexSpongeMode {
    /// The sponge is accepting input; the next absorbed element is folded
    /// in at `next_absorb_index`.
    Absorbing { next_absorb_index: usize },
    /// The sponge is yielding output; the next output element is read
    /// from `next_squeeze_index`.
    Squeezing { next_squeeze_index: usize },
}

} // verus!
