//! Errors that end a run.

use vstd::prelude::*;
use crate::text::{owned, push_signed_decimal, signed_decimal};

verus! {

/// Why locating, unpacking, validating, converting or exporting failed.
#[derive(Debug, Clone, PartialEq, Eq)]
pub enum PackError {
    /// Development mode found neither the resource folder nor a bundled archive.
    MissingDebugFolder,
    /// The executable carries no archive signature in its scanned prefix.
    NoBundledArchive,
    /// The bundled bytes do not parse as an archive.
    CorruptArchive,
    /// An archive entry could not be decompressed.
    UnreadableEntry { name: String },
    /// An extracted file could not be written.
    WriteFailed { path: String },
    /// The encoder binary is not where the resources are.
    MissingBinary { path: String },
    /// Another filesystem operation failed.
    Io { message: String },
    /// The encoder could not be started.
    SpawnFailed { message: String },
    /// The encoder exited unsuccessfully; `code` is absent when it was killed by a signal.
    EncodeFailed { code: Option<i32> },
    /// The project manifest could not be written.
    ExportFailed { message: String },
}

/// The message shown for error `e`.
pub open spec fn error_text(e: PackError) -> Seq<char> {
    match e {
        PackError::MissingDebugFolder =>
            "No _otterpack folder or embedded ZIP found. In debug mode, place ffmpeg.exe in the _otterpack folder."@,
        PackError::NoBundledArchive =>
            "This executable does not have a bundled ZIP file. Please use a properly packaged version."@,
        PackError::CorruptArchive => "Failed to read ZIP data"@,
        PackError::UnreadableEntry { name } => "Failed to read archive entry: "@ + name@,
        PackError::WriteFailed { path } => "Failed to write file: "@ + path@,
        PackError::MissingBinary { path } => "ffmpeg.exe not found at "@ + path@,
        PackError::Io { message } => message@,
        PackError::SpawnFailed { message } => "Failed to start ffmpeg: "@ + message@,
        PackError::EncodeFailed { code } => match code {
            Some(c) => "ffmpeg failed with exit code "@ + signed_decimal(c as int),
            None => "ffmpeg was terminated before it exited"@,
        },
        PackError::ExportFailed { message } => "Failed to write the project file: "@ + message@,
    }
}

fn prefixed(prefix: &str, rest: &String) -> (r: String)
    ensures
        r@ == prefix@ + rest@,
{
    let mut r = owned(prefix);
    r.append(rest.as_str());
    r
}

impl PackError {
    /// The message shown to the user for this error.
    pub fn message(&self) -> (r: String)
        ensures
            r@ == error_text(*self),
    {
        match self {
            PackError::MissingDebugFolder => owned(
                "No _otterpack folder or embedded ZIP found. In debug mode, place ffmpeg.exe in the _otterpack folder.",
            ),
            PackError::NoBundledArchive => owned(
                "This executable does not have a bundled ZIP file. Please use a properly packaged version.",
            ),
            PackError::CorruptArchive => owned("Failed to read ZIP data"),
            PackError::UnreadableEntry { name } => prefixed("Failed to read archive entry: ", name),
            PackError::WriteFailed { path } => prefixed("Failed to write file: ", path),
            PackError::MissingBinary { path } => prefixed("ffmpeg.exe not found at ", path),
            PackError::Io { message } => message.clone(),
            PackError::SpawnFailed { message } => prefixed("Failed to start ffmpeg: ", message),
            PackError::EncodeFailed { code } => match code {
                Some(c) => {
                    let mut r = owned("ffmpeg failed with exit code ");
                    push_signed_decimal(&mut r, *c);
                    r
                },
                None => owned("ffmpeg was terminated before it exited"),
            },
            PackError::ExportFailed { message } => prefixed("Failed to write the project file: ", message),
        }
    }
}

} // verus!
