//! Verified core of the hopfion visualizer: presets and their cycles, the
//! line/edge index builders, GPU dispatch arithmetic, the FDTD grid indexing,
//! touch bookkeeping, and the remark log with its JSON text.

pub mod preset;
pub mod json;
pub mod remarks;
pub mod geometry;
pub mod dispatch;
pub mod grid;
pub mod web_preset;
pub mod touch;
pub mod shader;
pub mod transport;
