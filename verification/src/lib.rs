//! A minimal drawing abstraction for a character-grid display surface.
//!
//! The `canvas` module defines the `Canvas` contract (primitive drawing
//! operations plus derived text operations) and the `BoundedCanvas` adapter
//! that presents a rectangular window of a parent canvas as an independent,
//! zero-origin canvas. The `cell` module holds the character-plus-attribute
//! value written into grid cells, and `width` the display-width bookkeeping
//! for narrow and wide characters. `buffer` provides an in-memory grid
//! backend implementing the contract.

pub mod cell;

pub mod width;

pub mod canvas;

pub mod buffer;
