//! Verified index, layout and decision logic of a 4x4 Berreman / Mueller
//! solver for birefringent multilayer stacks.
//!
//! The numeric kernels of the solver work in floating point and live outside
//! this crate; what stands here is every piece of the solver that decides or
//! lays out data on plain values: buffer layouts, grid validation, method and
//! exit-medium decoding, partial-wave ordering, interface-roughness
//! bookkeeping for plain and periodic stacks, the channel map of the
//! roughness dressing, and the shape checks of the dispersion inputs.

pub mod berreman;
pub mod binding;
pub mod cmatrix;
pub mod fields;
pub mod layout;
pub mod materials;
pub mod rotations;
pub mod roughness;
pub mod transfer;
