//! Paths as the tool builds them: Unix paths held as text.
use vstd::prelude::*;
use crate::text::chars_of;

verus! {

/// The path that `PathBuf::push(part)` makes of `base` on Unix: an absolute
/// `part` replaces `base`; a relative one is appended, after a `/` unless
/// `base` is empty or already ends in one.
pub open spec fn pushed_path(base: Seq<char>, part: Seq<char>) -> Seq<char> {
    if part.len() > 0 && part[0] == '/' {
        part
    } else if base.len() == 0 || base.last() == '/' {
        base + part
    } else {
        base + seq!['/'] + part
    }
}

/// `base` with `part` pushed onto it, as `PathBuf::push` does on Unix.
pub fn push_path(base: &str, part: &str) -> (r: String)
    ensures
        r@ == pushed_path(base@, part@),
{
    let b = chars_of(base);
    let p = chars_of(part);
    let mut r = String::new();
    if p.len() > 0 && p[0] == '/' {
        r.append(part);
        assert(r@ =~= part@);
        return r;
    }
    r.append(base);
    if b.len() > 0 && b[b.len() - 1] != '/' {
        crate::text::push_char(&mut r, '/');
    }
    r.append(part);
    assert(r@ =~= pushed_path(base@, part@));
    r
}

/// What `Path::strip_prefix(base)` leaves of `path`, read back as text;
/// `None` where `base` is not a prefix of `path` component by component.
pub uninterp spec fn path_strip_prefix(path: Seq<char>, base: Seq<char>) -> Option<Seq<char>>;

/// What `Path::parent` gives for `path`, read back as text; `None` where the
/// path ends in a root or is empty.
pub uninterp spec fn path_parent(path: Seq<char>) -> Option<Seq<char>>;

/// What `Path::with_extension(ext)` gives for `path`, read back as text.
pub uninterp spec fn path_with_extension(path: Seq<char>, ext: Seq<char>) -> Seq<char>;

/// Trusted: calls `std::path::Path::strip_prefix` and reads the rest back as
/// text. Its result is named: the contract claims that it is a function of
/// the two paths, and, as the documentation says it fails only where `base`
/// is no prefix of `path` component by component, that an absolute path
/// always has the root `/` as prefix.
#[verifier::external_body]
pub(crate) fn strip_path_prefix(path: &str, base: &str) -> (r: Option<String>)
    ensures
        match r {
            Some(rest) => path_strip_prefix(path@, base@) == Some(rest@),
            None => path_strip_prefix(path@, base@) is None,
        },
        path@.len() > 0 && path@[0] == '/' && base@ == seq!['/'] ==> r is Some,
{
    std::path::Path::new(path).strip_prefix(base).ok().map(|rest| rest.to_string_lossy().into_owned())
}

/// Trusted: calls `std::path::Path::parent` and reads the parent back as
/// text. Its result is named, not described: the contract claims only that
/// it is a function of the path.
#[verifier::external_body]
pub(crate) fn parent_path(path: &str) -> (r: Option<String>)
    ensures
        match r {
            Some(p) => path_parent(path@) == Some(p@),
            None => path_parent(path@) is None,
        },
{
    std::path::Path::new(path).parent().map(|p| p.to_string_lossy().into_owned())
}

/// Trusted: calls `std::path::Path::with_extension` and reads the result
/// back as text. Its result is named, not described: the contract claims
/// only that it is a function of the path and the extension. An extension
/// holding a path separator makes the call panic, so it is excluded.
#[verifier::external_body]
pub(crate) fn with_extension(path: &str, ext: &str) -> (r: String)
    requires
        !ext@.contains('/'),
    ensures
        r@ == path_with_extension(path@, ext@),
{
    std::path::Path::new(path).with_extension(ext).to_string_lossy().into_owned()
}

/// What `PathBuf::pop` leaves of `path`: its parent, or the path itself
/// where it has none.
pub open spec fn popped_path(path: Seq<char>) -> Seq<char> {
    match path_parent(path) {
        Some(p) => p,
        None => path,
    }
}

/// `path` after `PathBuf::pop`: its parent, or unchanged where it has none.
pub fn pop_path(path: &str) -> (r: String)
    ensures
        r@ == popped_path(path@),
{
    match parent_path(path) {
        Some(p) => p,
        None => {
            let mut r = String::new();
            r.append(path);
            assert(r@ =~= path@);
            r
        },
    }
}

} // verus!
