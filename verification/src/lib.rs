//! Robots walking a bounded grid, leaving scents where they fall off.
//!
//! A [`Mars`] owns a rectangular [`Grid`], the scents left behind by lost
//! robots and the robots that finished their walk. A [`Turtle`] is one robot:
//! a position, an [`Orientation`] and a flag that says whether it fell off.
//! It obeys [`Direction`]s one at a time.
//!
//! Every type has a mathematical value, its view: [`Point`] for [`Pos`],
//! [`Robot`] for [`Turtle`], [`Bounds`] for [`Grid`] and [`Surface`] for
//! [`Mars`]. The rules of the walk are spec functions on these values, and the
//! contracts of the executable functions are stated over them.

pub mod direction;
pub mod error;
pub mod grid;
pub mod laws;
pub mod mars;
pub mod orientation;
pub mod pos;
pub mod text;
pub mod turtle;

pub use direction::Direction;
pub use error::AppError;
pub use grid::{Bounds, Grid};
pub use mars::{Mars, Surface};
pub use orientation::Orientation;
pub use pos::{Point, Pos};
pub use turtle::{Robot, Turtle};
