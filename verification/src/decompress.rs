//! Restoring through an archive file on disk: the zstd archive
//! `<name>.tar.zst` is decompressed into `<name>.tar` next to it, unpacked
//! below the staging directory, and each file copied back.
use vstd::prelude::*;
use crate::text::{remove_all, remove_matches};

verus! {

/// The path of the tar archive that the compressed archive at `path` is
/// decompressed into: `path` with every `.zst` removed.
pub fn tar_path_for(path: &str) -> (r: String)
    ensures
        r@ == remove_all(path@, ".zst"@),
{
    remove_matches(path, ".zst")
}

/// Where the unpacked file at `entry` is copied to: its path with every
/// occurrence of the unpack directory `root` removed.
pub fn copy_destination(entry: &str, root: &str) -> (r: String)
    ensures
        r@ == remove_all(entry@, root@),
{
    remove_matches(entry, root)
}

} // verus!
