//! Flag values passed to `XArray::new` to configure the store.
//!
//! Any subset may be combined with `|`. Only [`TRACK_FREE`] (and the
//! allocating presets that include it) and [`ZERO_BUSY`] change what the
//! store's operations promise; the locking and accounting flags select
//! engine-internal behaviour with no effect on the results of any call.

use vstd::prelude::*;

verus! {

/// Flags accepted by `XArray::new`, any subset combinable.
pub type Flags = u32;

/// Use an interrupt-safe locking variant inside the engine.
pub const LOCK_IRQ: Flags = 1;

/// Use a soft-interrupt-safe locking variant inside the engine.
pub const LOCK_BH: Flags = 2;

/// Track which indices are free, as distinct from merely empty; required
/// for `alloc` and `reserve` to hand out indices.
pub const TRACK_FREE: Flags = 4;

/// Mark index 0 as busy at initialization.
pub const ZERO_BUSY: Flags = 8;

/// Use accounted memory for the engine's internal bookkeeping.
pub const ACCOUNT: Flags = 16;

/// An allocating store handing out indices starting at 0.
pub const ALLOC: Flags = TRACK_FREE;

/// An allocating store handing out indices starting at 1.
pub const ALLOC1: Flags = TRACK_FREE | ZERO_BUSY;

} // verus!
