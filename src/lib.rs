//! Terrain analysis and GPU-resource bookkeeping for a procedural terrain
//! visualizer.
//!
//! The heightmap is read back from the GPU as four-channel texels, reduced
//! to a grid of elevation keys, searched for well separated low points, and
//! every texel gets the offset that points away from its nearest low point.
//! Around that sit the sizes and row pitches of the texture copies, the
//! binding tables shared with the shaders, the surface's resize rule and the
//! keyboard controls' decisions.
pub mod analysis;
pub mod bindings;
pub mod controls;
pub mod grid;
pub mod layout;
pub mod readback;
pub mod surface;
