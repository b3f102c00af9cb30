use vstd::prelude::*;

verus! {

/// Errors that can occur while encoding or decoding a PAM file.
#[derive(Debug)]
pub enum Error {
    /// Invalid magic number (not a PAM file).
    InvalidMagic(u32),
    /// PAM version is outside the supported range (1..=6).
    VersionOutOfRange(i32),
    /// A value cannot be represented by the PAM binary field being written.
    ValueOutOfRange { field: &'static str, value: i64 },
    /// A field that the PAM version being written needs is absent.
    MissingRequiredField { field: &'static str },
    /// A transform has the wrong number of components for the PAM version.
    InvalidTransform { field: &'static str, expected: &'static str, actual: usize },
}

} // verus!
