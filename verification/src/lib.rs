//! Compiles a kinematic-chain robot description (named links joined by typed
//! joints, each carrying visual and collision geometry) into a scene
//! specification: a rooted kinematic tree with per-link transforms, mesh and
//! material requests, rigid-body data and joint-constraint specifications,
//! together with the per-frame joint controller and contact filter.
//!
//! All scalar quantities are fixed-point numbers: an `i64` holding the value
//! scaled by one million (see the `fixed` module). The host shell converts
//! the description file's floating-point fields into this representation
//! before handing them to the library.

pub mod controller;
pub mod fixed;
pub mod geometry;
pub mod math;
pub mod model;
pub mod physics;
pub mod scene;
pub mod tree;
