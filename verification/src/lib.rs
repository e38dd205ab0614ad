//! A small path tracer for scenes of diffuse spheres, over any scalar type.
//!
//! `vec3` holds the vector algebra, `ray` and `cam` the rays and the camera,
//! `sphere` the intersection test and nearest-hit resolution, `trace` the
//! bouncing walk that gathers a ray's colour, `render` the sampling of one
//! pixel, and `canvas` the raster that rows of pixels are painted on.
//! `scalar` says what a scalar is and gives the whole numbers as one;
//! `algebra` holds laws of the vector operators on whole numbers.
//!
//! Random numbers come from the caller: every function here is a function
//! of its arguments.

pub mod algebra;
pub mod cam;
pub mod canvas;
pub mod ray;
pub mod render;
pub mod scalar;
pub mod sphere;
pub mod trace;
pub mod vec3;
