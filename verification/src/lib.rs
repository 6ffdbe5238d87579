//! A software 3D rasterizer for terminal widgets: the parts of it that are
//! exact, namely the Wavefront OBJ reader, the pixel and depth buffers, the
//! texture grid, and the character ramp of the text display.
use vstd::prelude::*;

pub mod matrix;
pub mod mesh;
pub mod obj_loader;
pub mod raster;
pub mod text;
pub mod texture;
pub mod widget;

verus! {
} // verus!
