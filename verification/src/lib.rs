//! Turns a text payload into a styled, scannable QR-code image: the payload is
//! encoded into a square matrix of dark and light modules, and the matrix is
//! rasterized into a PNG image with an optional center logo, gradient fill and
//! transparent background.

pub mod errors;
pub mod laws;
pub mod matrix;
pub mod options;
pub mod pixmap;
pub mod render;

pub use errors::{CodedError, QrError};
pub use matrix::{encode, SymbolMatrix};
pub use options::{select_logo, RenderOptions};
pub use render::{generate, render};
