//! Staging: each configured path, with `~` standing for the home directory,
//! is copied below the staging directory at its own absolute path.
use vstd::prelude::*;
use crate::paths::{path_strip_prefix, pushed_path, push_path, strip_path_prefix};
use crate::text::{opt_text, replace_all, replace_matches};

verus! {

/// Trusted: calls `home::home_dir()` and reads the directory back as text;
/// `None` where there is no home directory or it is not valid UTF-8. The
/// result comes from the environment, so the contract states nothing of it.
#[verifier::external_body]
fn home_dir_text() -> Option<String> {
    home::home_dir().and_then(|p| p.to_str().map(|s| s.to_string()))
}

/// The home directory of the user, or the empty string where it cannot be
/// found or is not valid UTF-8.
pub fn home_dir_or_default() -> String {
    match home_dir_text() {
        Some(h) => h,
        None => String::new(),
    }
}

/// A configured path with every `~` replaced by the home directory `home`.
pub open spec fn expanded_path(entry: Seq<char>, home: Seq<char>) -> Seq<char> {
    replace_all(entry, seq!['~'], home)
}

/// A configured path `~<rest>` names `<rest>` below the home directory,
/// where `rest` holds no further `~`.
pub proof fn lemma_expand_leading_tilde(rest: Seq<char>, home: Seq<char>)
    requires
        !crate::text::occurs_in(rest, seq!['~']),
    ensures
        expanded_path(seq!['~'] + rest, home) == home + rest,
{
    let entry = seq!['~'] + rest;
    assert(entry.subrange(0, 1) =~= seq!['~']);
    assert(entry.skip(1) =~= rest);
    crate::text::lemma_replace_absent(rest, seq!['~'], home);
}

/// `entry` with every `~` replaced by the home directory `home`.
pub fn expand_home(entry: &str, home: &str) -> (r: String)
    ensures
        r@ == expanded_path(entry@, home@),
{
    proof {
        reveal_strlit("~");
    }
    assert("~"@ =~= seq!['~']);
    replace_matches(entry, "~", home)
}

/// `entry` with every `~` replaced by the home directory of the user.
pub fn format_fs_path(entry: &str) -> (r: String)
    ensures
        exists|home: Seq<char>| r@ == expanded_path(entry@, home),
{
    let home = home_dir_or_default();
    expand_home(entry, home.as_str())
}

/// Where `source` is staged below `tmp_path`: the path of `source` relative
/// to the root `/`, pushed onto `tmp_path`; `None` where `source` is not
/// absolute.
pub open spec fn staged_path_spec(tmp_path: Seq<char>, source: Seq<char>) -> Option<Seq<char>> {
    match path_strip_prefix(source, seq!['/']) {
        Some(rel) => Some(pushed_path(tmp_path, rel)),
        None => None,
    }
}

/// Where `source` is staged below `tmp_path` (see `staged_path_spec`);
/// every absolute path is staged.
pub fn staged_path(tmp_path: &str, source: &str) -> (r: Option<String>)
    ensures
        opt_text(r) == staged_path_spec(tmp_path@, source@),
        source@.len() > 0 && source@[0] == '/' ==> r is Some,
{
    proof {
        reveal_strlit("/");
    }
    assert("/"@ =~= seq!['/']);
    match strip_path_prefix(source, "/") {
        Some(rel) => Some(push_path(tmp_path, rel.as_str())),
        None => None,
    }
}

} // verus!
