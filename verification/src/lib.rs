//! An online photomosaic builder.
//!
//! A large origin image is subdivided into a fixed grid of tiles; candidate
//! images arriving from an unbounded stream are greedily assigned to the tile
//! slot where they improve the overall visual match the most, and every
//! assignment yields a new immutable snapshot of the composite.

pub mod distance;
pub mod error;
pub mod generator;
pub mod image;
pub mod insta;
pub mod piece;
pub mod post;
pub mod size;
pub mod util;
pub mod worker;
