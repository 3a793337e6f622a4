//! Painting of styled, variable-width text onto a grid of terminal cells.
pub mod canvas;
pub mod cell;
pub mod drawable;
pub mod paint;
pub mod width;
