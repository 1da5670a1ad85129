//! Tongue-attachment core of a side-scrolling swinging game.
//!
//! A character swings between vertical pillars on an elastic tongue made of
//! jointed rope segments. This library holds the per-frame decision logic:
//! normalizing pointer input into a single intent, selecting the nearest
//! qualifying pillar on the chosen side, partitioning the attachment distance
//! into a jointed chain of rope segments, driving the attach/detach state
//! machine, and tracking the camera. The surrounding engine (windowing,
//! rendering, the physics solver) consumes the plain values these functions
//! produce.
//!
//! All geometry is carried in fixed-point *milliunits*: 1000 milliunits are
//! one world unit. This keeps every computation exact and verifiable.

pub mod camera;
pub mod chain;
pub mod geom;
pub mod input;
pub mod lifecycle;
pub mod selector;
