use vstd::prelude::*;

verus! {

/// Status code reported when an operation is attempted on a store that was
/// not configured for it, such as allocating from a store created without
/// free-index tracking.
pub const EINVAL: i32 = 22;

/// The ways an operation on the store can fail.
///
/// A failure never has a partial effect: whenever one of these is returned,
/// the store is exactly as it was before the call, and any value whose
/// ownership had already been taken has been dropped, not leaked.
#[derive(Debug, Clone, Copy, PartialEq, Eq, Structural)]
pub enum Error {
    /// The index cannot be represented in the store's native index domain.
    /// Detected before anything is mutated.
    ConversionError,
    /// The engine itself reported failure, carrying its status code.
    EngineError(i32),
    /// No free index exists within the requested bounds.
    AllocationExhausted,
}

} // verus!
