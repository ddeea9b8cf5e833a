//! Unpacking: an archive is decompressed, unpacked below the staging
//! directory by the caller, and each file is copied back to the path it was
//! staged from.
use vstd::prelude::*;
use crate::compression::{zstd_decode, zstd_decoded};
use crate::pack::ArchiveError;
use crate::paths::{path_strip_prefix, pop_path, popped_path, pushed_path, push_path};
use crate::text::{remove_all, remove_matches};

verus! {

/// Decompresses the zstd data `frame` back into the tar archive it holds;
/// it fails exactly where `frame` is no valid zstd data.
pub fn decompress(frame: &[u8]) -> (r: Result<Vec<u8>, ArchiveError>)
    ensures
        match zstd_decoded(frame@) {
            Some(d) => r matches Ok(tar) && tar@ == d,
            None => r matches Err(e) && e is Decompress,
        },
{
    match zstd_decode(frame) {
        Ok(tar) => Ok(tar),
        Err(e) => Err(ArchiveError::Decompress(e)),
    }
}

/// The directory below the staging directory `tmp_path` that an archive is
/// unpacked into.
pub fn unpacked_dir(tmp_path: &str) -> (r: String)
    ensures
        r@ == pushed_path(tmp_path@, "unpacked"@),
{
    push_path(tmp_path, "unpacked")
}

/// Where an unpacked file is restored to: its path with every occurrence of
/// the unpack directory `root` removed.
pub open spec fn restore_path_spec(entry: Seq<char>, root: Seq<char>) -> Seq<char> {
    remove_all(entry, root)
}

/// Where the unpacked file at `entry` is restored to, and the directory that
/// is created first to hold it (the destination after `PathBuf::pop`).
pub fn restore_target(entry: &str, root: &str) -> (r: (String, String))
    ensures
        r.0@ == restore_path_spec(entry@, root@),
        r.1@ == popped_path(restore_path_spec(entry@, root@)),
{
    let dest = remove_matches(entry, root);
    let dir = pop_path(dest.as_str());
    (dest, dir)
}

/// A file unpacked at `<root>/<rel>` is restored to `/<rel>`, the absolute
/// path it was staged from: this holds where the unpack directory `root` is
/// a non-empty path without a trailing `/`, `rel` is relative, and `root`
/// does not occur again in `/<rel>`.
pub proof fn lemma_restore_unpacked_entry(root: Seq<char>, rel: Seq<char>)
    requires
        root.len() > 0,
        root.last() != '/',
        rel.len() == 0 || rel[0] != '/',
        !crate::text::occurs_in(seq!['/'] + rel, root),
    ensures
        restore_path_spec(pushed_path(root, rel), root) == seq!['/'] + rel,
{
    let t = seq!['/'] + rel;
    let entry = pushed_path(root, rel);
    assert(entry =~= root + t);
    assert(entry.subrange(0, root.len() as int) =~= root);
    assert(entry.skip(root.len() as int) =~= t);
    crate::text::lemma_replace_absent(t, root, Seq::empty());
    assert(Seq::<char>::empty() + t =~= t);
}

/// What is backed up from an absolute `source` comes back to `source`:
/// it is staged at `<tmp>/<rel>`, where `rel` is what stripping the root
/// leaves of it; archived under `rel`; unpacked at `<root>/<rel>`; and
/// restored from there to `/<rel>`, which is `source`. This holds where
/// stripping the root leaves the text after the leading `/` (as it does for
/// a path without `//`, `/./` or a trailing `/`), the unpack directory
/// `root` is non-empty without a trailing `/`, and `root` does not occur
/// in `source`.
pub proof fn lemma_restore_returns_staged_source(
    tmp: Seq<char>,
    root: Seq<char>,
    source: Seq<char>,
    rel: Seq<char>,
)
    requires
        source == seq!['/'] + rel,
        path_strip_prefix(source, seq!['/']) == Some(rel),
        rel.len() == 0 || rel[0] != '/',
        root.len() > 0,
        root.last() != '/',
        !crate::text::occurs_in(source, root),
    ensures
        crate::filesystem::staged_path_spec(tmp, source) == Some(pushed_path(tmp, rel)),
        restore_path_spec(pushed_path(root, rel), root) == source,
{
    lemma_restore_unpacked_entry(root, rel);
}

} // verus!
