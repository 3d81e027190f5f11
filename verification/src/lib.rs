//! Verified core of a small mesh renderer: the mesh registry, the queue of
//! draw commands and its per-mesh batching, the growth policy of the
//! instance buffer, the handling of surface-acquisition outcomes and the
//! per-frame draw plan.  GPU and window work is carried out by the caller
//! following the plans that this library computes.

pub mod buffer;
pub mod camera;
pub mod draw;
pub mod frame;
pub mod pipeline;
pub mod state;
pub mod surface;
pub mod upload;
