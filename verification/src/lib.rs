//! Support for a perception pipeline: a pool of buffers that producers and
//! consumers share without a queue, and the image and tensor buffers that
//! the pool's slots hold.
//!
//! A pool lends out one slot at a time. A reader is given the free slot that
//! was written most recently and a writer the free slot that was written
//! longest ago, so a reader never waits for the next item and a writer never
//! overwrites data that is fresher than what it could have overwritten.
//!
//! - `directory`: which slot is free and how old its data is; the choice of
//!   a slot and the bookkeeping of a release.
//! - `custody`: what holds of the handles that are out over every history
//!   of a pool.
//! - `shared_buffer`: the pool itself, its slots and its directory behind
//!   locks.
//! - `data_structures`: image and tensor buffers.
//! - `cam_op`: the values and status codes of the camera SDK.
//! - `sync`, `clock`: what the library uses of `std::sync` and `std::time`.
pub mod cam_op;
pub mod clock;
pub mod custody;
pub mod data_structures;
pub mod directory;
pub mod shared_buffer;
pub mod sync;
