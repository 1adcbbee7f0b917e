//! Two independent Base64 text codecs with a shared UTF-8 validation step.
//!
//! `encode3` / `decode3` run on the base64 crate, `encode4` / `decode4` on the
//! fast32 crate. Both are held to one mathematical definition of padded
//! Base64 (`rfc4648`), and both decoders hand their bytes to `validate_utf8`.

pub mod alternate;
pub mod rfc4648;
pub mod standard;
pub mod text;

pub use alternate::{decode4, encode4};
pub use standard::{decode3, encode3};
pub use text::{validate_utf8, CodecError};
