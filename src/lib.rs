//! Typed encoding of application values into the fixed-width column buffers
//! of a batch binding interface.
//!
//! Each on-wire type is a marker type implementing [`wire::WireType`]; a value
//! type opts into a wire type by implementing [`wire::AsOci`] for it. Column
//! binding is generic over both, so a column is homogeneous by construction.
pub mod adapters;
pub mod column;
pub mod param;
pub mod wire;
