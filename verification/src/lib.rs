//! Wireframe polyhedra on a character-cell frame buffer.
//!
//! Figures are sets of line segments in space. They are turned about the
//! coordinate axes, projected onto a viewing plane, and walked step by step
//! into a grid of coloured characters, which is then turned into text for a
//! terminal.
//!
//! Coordinates are fixed-point numbers ([`fixed::Fixed`]): every operation of
//! the engine is integer arithmetic with a stated rounding, so that each
//! contract pins its result down to the last unit.

pub mod angle;
pub mod color;
pub mod figure;
pub mod fixed;
pub mod menu;
pub mod raster;
pub mod scene;
pub mod vector;
pub mod window;

pub use angle::Angle;
pub use color::Color;
pub use figure::{Figure, Line};
pub use fixed::Fixed;
pub use vector::Vector;
pub use window::{WinElem, Window, Writemodes};
