//! Verified core of a Rust-to-WGSL shader macro: token rewriting for
//! `#import`-style references, Rust-to-WGSL type conversion and the
//! decisions taken around WGSL validation.

pub mod tokens;
pub mod sanitize;
pub mod conversions;
pub mod wgsl2;
pub mod items;
