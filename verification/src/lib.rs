//! Integer core of a plane-cut fracture pipeline: the pinned hash that drives every cut, the
//! topology of a triangle soup, the combinatorics of clipping a triangle against a plane, the
//! index-buffer bookkeeping of the mesh adapters, the cut scheduler, and the fragment audit record.

pub mod hashing;
pub mod soup;
pub mod clip;
pub mod index_buffer;
pub mod schedule;
pub mod audit;
