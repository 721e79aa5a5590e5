//! A content-addressed store for sparse map edits.
//!
//! Changes to entities on a coordinate grid are identified by a SHA-256
//! digest of their canonical encoding, linked into a directed acyclic
//! graph by parent references, and published to named branches through a
//! step-wise commit protocol that coordinates an external durable backend
//! and a post-commit handler pipeline.

use vstd::prelude::*;

pub mod digest;
pub mod position;
pub mod transport;
pub mod storage;

verus! {

/// Marker for a tile-border description; a concrete border shape carries
/// one flag per side of the tile.
pub trait Borders {}

} // verus!
