//! Finding where the resources live: a development folder, or an archive appended to the
//! running executable.

use vstd::prelude::*;
use crate::error::PackError;

verus! {

/// How far into the executable the archive signature is looked for.
pub const MAX_SEARCH_SIZE: u64 = 10 * 1024 * 1024;

/// Name of the folder, relative to the working directory, used in development builds.
pub const DEBUG_FOLDER_NAME: &'static str = "_otterpack";

/// Where the resources are.
#[derive(Debug, Clone, PartialEq, Eq)]
pub enum PackSource {
    /// A folder whose files are used in place.
    DebugFolder(String),
    /// An archive occupying `zip_size` bytes of `exe_path` from byte `zip_start` on.
    EmbeddedZip { exe_path: String, zip_start: u64, zip_size: u64 },
}

/// Whether the archive signature `50 4B 03 04` starts at position `p` of `b`.
pub open spec fn magic_at(b: Seq<u8>, p: int) -> bool {
    0 <= p && p + 4 <= b.len() && b[p] == 0x50u8 && b[p + 1] == 0x4Bu8 && b[p + 2] == 0x03u8 && b[p + 3] == 0x04u8
}

/// The positions examined in `b`: those below `min(|b|, MAX_SEARCH_SIZE) - 4`.
pub open spec fn scan_end(b: Seq<u8>) -> int {
    (if b.len() < MAX_SEARCH_SIZE {
        b.len() as int
    } else {
        MAX_SEARCH_SIZE as int
    }) - 4
}

/// `p` is the first examined position of `b` where the signature starts.
pub open spec fn first_magic(b: Seq<u8>, p: int) -> bool {
    0 <= p < scan_end(b) && magic_at(b, p) && forall|q: int| 0 <= q < p ==> !magic_at(b, q)
}

/// No examined position of `b` starts the signature.
pub open spec fn no_magic(b: Seq<u8>) -> bool {
    forall|q: int| 0 <= q < scan_end(b) ==> !magic_at(b, q)
}

/// The first examined position of `head` where the archive signature starts, if any.
pub fn find_zip_signature(head: &[u8]) -> (r: Option<usize>)
    ensures
        r matches Some(p) ==> first_magic(head@, p as int),
        r is None ==> no_magic(head@),
{
    let window: usize = if (head.len() as u64) < MAX_SEARCH_SIZE { head.len() } else { MAX_SEARCH_SIZE as usize };
    if window < 4 {
        return None;
    }
    let end: usize = window - 4;
    let mut p: usize = 0;
    while p < end
        invariant
            end == scan_end(head@),
            end + 4 <= head@.len(),
            p <= end,
            forall|q: int| 0 <= q < p ==> !magic_at(head@, q),
        decreases end - p,
    {
        if head[p] == 0x50u8 && head[p + 1] == 0x4Bu8 && head[p + 2] == 0x03u8 && head[p + 3] == 0x04u8 {
            return Some(p);
        }
        p = p + 1;
    }
    None
}

/// Decides where the resources are. `debug_folder` is the development folder when it
/// exists (only looked at in development builds); `head` is the start of the executable
/// `exe_path`, whose length is `file_size`. The first examined position holding the
/// archive signature starts the archive, which runs to the end of the file.
pub fn find_pack_source(
    debug_build: bool,
    debug_folder: Option<String>,
    exe_path: String,
    file_size: u64,
    head: &[u8],
) -> (r: Result<PackSource, PackError>)
    requires
        head@.len() <= file_size,
    ensures
        debug_build && debug_folder is Some ==> r == Ok::<PackSource, PackError>(
            PackSource::DebugFolder(debug_folder->Some_0),
        ),
        !(debug_build && debug_folder is Some) ==> match r {
            Ok(PackSource::EmbeddedZip { exe_path: e, zip_start, zip_size }) => {
                &&& e == exe_path
                &&& first_magic(head@, zip_start as int)
                &&& zip_size == file_size - zip_start
            },
            Err(err) => {
                &&& no_magic(head@)
                &&& err == if debug_build {
                    PackError::MissingDebugFolder
                } else {
                    PackError::NoBundledArchive
                }
            },
            _ => false,
        },
{
    if debug_build {
        if let Some(folder) = debug_folder {
            return Ok(PackSource::DebugFolder(folder));
        }
    }
    match find_zip_signature(head) {
        Some(p) => Ok(
            PackSource::EmbeddedZip { exe_path, zip_start: p as u64, zip_size: file_size - p as u64 },
        ),
        None => if debug_build {
            Err(PackError::MissingDebugFolder)
        } else {
            Err(PackError::NoBundledArchive)
        },
    }
}

} // verus!
