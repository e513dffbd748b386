//! A verified software rasterizer core: packed-colour helpers, integer
//! bounding boxes, colour and depth buffers, nearest-neighbour texture
//! sampling, fan triangulation, incremental line drawing, and the
//! depth-tested fragment commit. Floating-point geometry (vertex
//! transforms, homogeneous clipping, barycentric interpolation) lives in
//! the unverified application layer, which hands this crate plain
//! integer values.

pub mod bounding_box;
pub mod clip;
pub mod colour;
pub mod lines;
pub mod raster;
pub mod texture;
