//! A sparse, ownership-transferring store mapping non-negative integer
//! indices to exclusively owned values.
//!
//! The store hands out indices on demand (`allocate`, `reserve`), moves
//! values in and out without ever leaking or double-freeing them, and lends
//! stored values out through a [`array::Guard`] whose lifetime ties the
//! borrow to the store, so that nothing can move or drop the value while
//! the guard is alive. A [`reservation::Reservation`] is a
//! committed-but-empty index: allocated, so nobody else can claim it, until
//! it is filled or released.

pub mod array;
pub mod error;
pub mod flags;
pub mod laws;
pub mod reservation;
