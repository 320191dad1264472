//! A dot rolling along a network of curve segments joined at branch points.
//!
//! The library holds the segment/joint graph, the choice of exit at a joint,
//! the bookkeeping of equation roots and the decisions of the motion
//! integrator. Real-valued quantities (times, speeds, alignments) reach it as
//! IEEE 754 single-precision bit patterns, which it compares exactly as the
//! hardware would; the arithmetic on them is the caller's.

pub mod builder;
pub mod graph;
pub mod ieee;
pub mod joint;
pub mod motion;
pub mod roots;
pub mod time;
