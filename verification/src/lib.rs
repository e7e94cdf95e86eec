//! A library for a small command-line image format converter.
//!
//! The verified core covers the policy of the tool: resolving a
//! non-colliding output path from an input path and a target extension,
//! validating the command-line configuration, the exact arithmetic of
//! uniform resizing, dispatching a conversion by target format, and the
//! capability table listing which formats can be read and written.
//! Decoding, resampling and encoding themselves are delegated to an
//! external imaging library behind trusted wrappers.

pub mod converter;
pub mod extensions;
pub mod imaging;
pub mod matcher;
pub mod paths;
pub mod scale;
pub mod text;
