use vstd::prelude::*;

use crate::text::push_decimal;

verus! {

/// Why a directory could not be scanned.
#[derive(Debug, PartialEq, Eq)]
pub enum ScanError {
    AccessDenied { path: String },
    NotFound { path: String },
    Win32(u32),
    /// An I/O failure, with the message of the underlying error.
    Io(String),
}

/// The message an error is shown with.
pub open spec fn scan_error_text(e: ScanError) -> Seq<char> {
    match e {
        ScanError::AccessDenied { path } => "Access denied: "@ + path@,
        ScanError::NotFound { path } => "Path not found: "@ + path@,
        ScanError::Win32(code) => "Win32 error: "@ + crate::text::decimal(code as nat),
        ScanError::Io(msg) => "IO error: "@ + msg@,
    }
}

impl ScanError {
    /// The message of the error, as its `Display` would write it.
    pub fn message(&self) -> (r: String)
        ensures
            r@ == scan_error_text(*self),
    {
        match self {
            ScanError::AccessDenied { path } => {
                let mut s = String::from_str("Access denied: ");
                s.append(path.as_str());
                s
            },
            ScanError::NotFound { path } => {
                let mut s = String::from_str("Path not found: ");
                s.append(path.as_str());
                s
            },
            ScanError::Win32(code) => {
                let mut s = String::from_str("Win32 error: ");
                push_decimal(&mut s, *code as u64);
                s
            },
            ScanError::Io(msg) => {
                let mut s = String::from_str("IO error: ");
                s.append(msg.as_str());
                s
            },
        }
    }
}

impl Clone for ScanError {
    fn clone(&self) -> (r: Self)
        ensures
            r == *self,
    {
        match self {
            ScanError::AccessDenied { path } => ScanError::AccessDenied { path: path.clone() },
            ScanError::NotFound { path } => ScanError::NotFound { path: path.clone() },
            ScanError::Win32(code) => ScanError::Win32(*code),
            ScanError::Io(msg) => ScanError::Io(msg.clone()),
        }
    }
}

} // verus!
