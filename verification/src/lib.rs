//! Packs PNG images into a Windows ICO container.
//!
//! An ICO file is a six-byte header, one sixteen-byte directory entry per
//! image, and the images themselves. This crate embeds each PNG unchanged:
//! it reads the few header fields the directory needs, lays the payloads out
//! one after another, and emits the container byte for byte.

pub mod error;
pub mod dimension;
pub mod le;
pub mod layout;
pub mod metadata;
pub mod container;

pub use crate::container::write_ico;
pub use crate::dimension::get_ico_dimension;
pub use crate::error::IcoError;
pub use crate::metadata::{get_png_metadata, record_from_header, PngHeader, PngMetadata};
