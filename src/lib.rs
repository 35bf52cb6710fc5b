//! Reader and writer for the RPG Maker XYZ image format.
//!
//! An XYZ file is a four-byte magic number, a little-endian width and
//! height, and a zlib stream holding a 256-colour palette followed by one
//! palette index per pixel.
pub mod codec;
pub mod image;
pub mod lemmas;
pub mod zlib;

pub use codec::{body_of, decode, encode, frame, header, parse_body, XyzError, MAGIC_NUMBER};
pub use image::{Image, Rgb};
