//! Classifying a GL error code: the caller fetches the code from the
//! graphics context and reports the name this mapping gives it.

use vstd::prelude::*;

verus! {

/// What a fetched GL error code means: no error, a known error by name,
/// or an unrecognized code.
#[derive(Clone, PartialEq, Eq, Debug)]
pub enum GlStatus {
    NoError,
    Named(String),
    Unknown(u32),
}

/// The name of a known non-zero GL error code.
pub open spec fn spec_gl_error_name(code: u32) -> Option<Seq<char>> {
    if code == 0x0500 {
        Some("INVALID_ENUM"@)
    } else if code == 0x0501 {
        Some("INVALID_VALUE"@)
    } else if code == 0x0502 {
        Some("INVALID_OPERATION"@)
    } else if code == 0x0503 {
        Some("STACK_OVERFLOW"@)
    } else if code == 0x0504 {
        Some("STACK_UNDERFLOW"@)
    } else if code == 0x0505 {
        Some("OUT_OF_MEMORY"@)
    } else if code == 0x0506 {
        Some("INVALID_FRAMEBUFFER_OPERATION"@)
    } else {
        None
    }
}

/// Classify a GL error code: zero is no error, the known codes carry
/// their names, anything else is handed back unrecognized.
pub fn check_gl_error(code: u32) -> (r: GlStatus)
    ensures
        match r {
            GlStatus::NoError => code == 0,
            GlStatus::Named(s) => code != 0 && spec_gl_error_name(code) == Some(s@),
            GlStatus::Unknown(c) => c == code && code != 0 && spec_gl_error_name(code) is None,
        },
{
    if code == 0 {
        GlStatus::NoError
    } else if code == 0x0500 {
        GlStatus::Named("INVALID_ENUM".to_owned())
    } else if code == 0x0501 {
        GlStatus::Named("INVALID_VALUE".to_owned())
    } else if code == 0x0502 {
        GlStatus::Named("INVALID_OPERATION".to_owned())
    } else if code == 0x0503 {
        GlStatus::Named("STACK_OVERFLOW".to_owned())
    } else if code == 0x0504 {
        GlStatus::Named("STACK_UNDERFLOW".to_owned())
    } else if code == 0x0505 {
        GlStatus::Named("OUT_OF_MEMORY".to_owned())
    } else if code == 0x0506 {
        GlStatus::Named("INVALID_FRAMEBUFFER_OPERATION".to_owned())
    } else {
        GlStatus::Unknown(code)
    }
}

} // verus!
