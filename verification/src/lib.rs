//! The integer and text logic of a small path tracer: command-line parsing,
//! scene selection, the per-row seeding of the render loop and the index
//! skeleton of the bounding volume hierarchy.
pub mod bvh;
pub mod camera;
pub mod cli;
pub mod scene;
pub mod text;
