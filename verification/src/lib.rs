//! Verified core of a persistent physics-body universe for a voxel world:
//! section keys, command-buffer framing, the tiered body scheduler and its
//! per-tick decisions, the sparse macro-cell index, command flushing,
//! terrain tracking, block geometry bookkeeping, export records, and the
//! serial-callback counts of regions.

pub mod callbacks;
pub mod chunks;
pub mod command;
pub mod export;
pub mod flush;
pub mod geometry;
pub mod geometry_table;
pub mod laws;
pub mod lifecycle;
pub mod native;
pub mod section;
pub mod spatial;
pub mod terrain;
pub mod universe;
