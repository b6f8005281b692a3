//! The errors of the cleanup, with the messages that users see.
use vstd::prelude::*;
use crate::text::{push_str, string_from_chars};

verus! {

/// A failure of the cleanup. Paths are kept as their displayed text and the
/// underlying operating-system error as its message.
#[derive(Debug, Clone, PartialEq, Eq)]
pub enum CleanupError {
    MissingHome,
    HomeMustBeAbsolute { path: String },
    Inspect { path: String, source: String },
    Read { path: String, source: String },
    Write { path: String, source: String },
    InvalidPackageMetadata { path: String },
    UnsupportedPlatform,
}

/// An error as plain values.
pub enum ErrorView {
    MissingHome,
    HomeMustBeAbsolute { path: Seq<char> },
    Inspect { path: Seq<char>, source: Seq<char> },
    Read { path: Seq<char>, source: Seq<char> },
    Write { path: Seq<char>, source: Seq<char> },
    InvalidPackageMetadata { path: Seq<char> },
    UnsupportedPlatform,
}

pub open spec fn error_view(e: CleanupError) -> ErrorView {
    match e {
        CleanupError::MissingHome => ErrorView::MissingHome,
        CleanupError::HomeMustBeAbsolute { path } => ErrorView::HomeMustBeAbsolute { path: path@ },
        CleanupError::Inspect { path, source } => ErrorView::Inspect { path: path@, source: source@ },
        CleanupError::Read { path, source } => ErrorView::Read { path: path@, source: source@ },
        CleanupError::Write { path, source } => ErrorView::Write { path: path@, source: source@ },
        CleanupError::InvalidPackageMetadata { path } => ErrorView::InvalidPackageMetadata {
            path: path@,
        },
        CleanupError::UnsupportedPlatform => ErrorView::UnsupportedPlatform,
    }
}

/// The message of an error, as `Display` shows it.
pub open spec fn error_message(e: CleanupError) -> Seq<char> {
    match e {
        CleanupError::MissingHome => "HOME is not set to an absolute path"@,
        CleanupError::HomeMustBeAbsolute { path } => "home path must be absolute: "@ + path@,
        CleanupError::Inspect { path, source } => "failed to inspect "@ + path@ + ": "@ + source@,
        CleanupError::Read { path, source } => "failed to read "@ + path@ + ": "@ + source@,
        CleanupError::Write { path, source } => "failed to write "@ + path@ + ": "@ + source@,
        CleanupError::InvalidPackageMetadata { path } => "invalid package metadata at "@ + path@,
        CleanupError::UnsupportedPlatform => "failed to create cmux mirror on this platform"@,
    }
}

impl CleanupError {
    /// The message of the error.
    pub fn message(&self) -> (m: String)
        ensures
            m@ == error_message(*self),
    {
        let mut out: Vec<char> = Vec::new();
        match self {
            CleanupError::MissingHome => {
                push_str(&mut out, "HOME is not set to an absolute path");
            },
            CleanupError::HomeMustBeAbsolute { path } => {
                push_str(&mut out, "home path must be absolute: ");
                push_str(&mut out, path.as_str());
            },
            CleanupError::Inspect { path, source } => {
                push_str(&mut out, "failed to inspect ");
                push_str(&mut out, path.as_str());
                push_str(&mut out, ": ");
                push_str(&mut out, source.as_str());
            },
            CleanupError::Read { path, source } => {
                push_str(&mut out, "failed to read ");
                push_str(&mut out, path.as_str());
                push_str(&mut out, ": ");
                push_str(&mut out, source.as_str());
            },
            CleanupError::Write { path, source } => {
                push_str(&mut out, "failed to write ");
                push_str(&mut out, path.as_str());
                push_str(&mut out, ": ");
                push_str(&mut out, source.as_str());
            },
            CleanupError::InvalidPackageMetadata { path } => {
                push_str(&mut out, "invalid package metadata at ");
                push_str(&mut out, path.as_str());
            },
            CleanupError::UnsupportedPlatform => {
                push_str(&mut out, "failed to create cmux mirror on this platform");
            },
        }
        proof {
            assert(Seq::<char>::empty() + "HOME is not set to an absolute path"@ =~= "HOME is not set to an absolute path"@);
            assert(Seq::<char>::empty() + "failed to create cmux mirror on this platform"@ =~= "failed to create cmux mirror on this platform"@);
            assert(Seq::<char>::empty() + "home path must be absolute: "@ =~= "home path must be absolute: "@);
            assert(Seq::<char>::empty() + "failed to inspect "@ =~= "failed to inspect "@);
            assert(Seq::<char>::empty() + "failed to read "@ =~= "failed to read "@);
            assert(Seq::<char>::empty() + "failed to write "@ =~= "failed to write "@);
            assert(Seq::<char>::empty() + "invalid package metadata at "@ =~= "invalid package metadata at "@);
        }
        string_from_chars(&out)
    }
}

/// The messages users see: what failed and on which path, followed by the
/// operating system's reason where there is one.
pub proof fn law_error_messages(path: String, source: String)
    ensures
        error_message(CleanupError::MissingHome) == "HOME is not set to an absolute path"@,
        error_message(CleanupError::HomeMustBeAbsolute { path }) == "home path must be absolute: "@
            + path@,
        error_message(CleanupError::Inspect { path, source }) == "failed to inspect "@ + path@
            + ": "@ + source@,
        error_message(CleanupError::Read { path, source }) == "failed to read "@ + path@ + ": "@
            + source@,
        error_message(CleanupError::Write { path, source }) == "failed to write "@ + path@ + ": "@
            + source@,
        error_message(CleanupError::InvalidPackageMetadata { path })
            == "invalid package metadata at "@ + path@,
        error_message(CleanupError::UnsupportedPlatform)
            == "failed to create cmux mirror on this platform"@,
{
}

} // verus!
