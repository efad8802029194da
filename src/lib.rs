//! Parsing of hexadecimal color notation into 8-bit sRGB channels.
//!
//! The floating-point luminance and contrast computations live outside
//! the verified library; everything here works on integers and characters.

pub mod hex;
pub mod color;
pub mod laws;
