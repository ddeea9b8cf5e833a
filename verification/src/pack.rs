//! Packing: the staged files, archived with tar by the caller, are
//! compressed into a zstd frame named after the time of the run.
use vstd::prelude::*;
use crate::compression::{zstd_decoded, zstd_encode, zstd_frame};
use crate::paths::{path_with_extension, pushed_path, push_path, with_extension};

verus! {

/// Why compressing or decompressing an archive failed.
#[derive(Debug)]
pub enum ArchiveError {
    /// zstd could not compress the archive.
    Compress(std::io::Error),
    /// zstd could not decompress the data.
    Decompress(std::io::Error),
}

/// The compression level the tool uses: zstd's default.
pub const COMPRESSION_LEVEL: i32 = 0;

/// Compresses the tar archive `tar` into a zstd frame at the tool's level.
/// This always succeeds, and decompressing the frame gives `tar` back:
/// `unpack::decompress(frame)` returns `Ok(tar)`.
pub fn compress(tar: &[u8]) -> (r: Result<Vec<u8>, ArchiveError>)
    ensures
        r matches Ok(frame) && frame@ == zstd_frame(tar@, COMPRESSION_LEVEL),
        r matches Ok(frame) && zstd_decoded(frame@) == Some(tar@),
{
    match zstd_encode(tar, COMPRESSION_LEVEL) {
        Ok(frame) => Ok(frame),
        Err(e) => Err(ArchiveError::Compress(e)),
    }
}

/// The path of the archive that a run started at `datetime` writes in the
/// working directory `cwd`.
pub open spec fn archive_path_spec(cwd: Seq<char>, datetime: Seq<char>) -> Seq<char> {
    path_with_extension(pushed_path(cwd, datetime), "tar.zst"@)
}

/// The path of the archive that a run started at `datetime` writes in the
/// working directory `cwd`: `<cwd>/<datetime>` with the extension
/// `tar.zst`.
pub fn archive_path(cwd: &str, datetime: &str) -> (r: String)
    ensures
        r@ == archive_path_spec(cwd@, datetime@),
{
    let p = push_path(cwd, datetime);
    proof {
        reveal_strlit("tar.zst");
    }
    with_extension(p.as_str(), "tar.zst")
}

} // verus!
