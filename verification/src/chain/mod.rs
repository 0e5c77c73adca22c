//! The pieces of `bdk_chain` that sit on the boundary with `miniscript`'s `bitcoin` version, and
//! the encodings of its changeset collections.
pub mod compat;
pub mod descriptor_ext;
pub mod serde_util;
