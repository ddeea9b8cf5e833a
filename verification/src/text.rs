//! Text: character sequences, comparison, and pattern replacement.
use vstd::prelude::*;

verus! {

/// The texts of a sequence of strings.
pub open spec fn texts(v: Seq<String>) -> Seq<Seq<char>> {
    v.map_values(|s: String| s@)
}

/// The text of an optional string.
pub open spec fn opt_text(s: Option<String>) -> Option<Seq<char>> {
    match s {
        Some(t) => Some(t@),
        None => None,
    }
}

/// Whether `pat` occurs in `s` starting at index `i`.
pub open spec fn occurs_at(s: Seq<char>, pat: Seq<char>, i: int) -> bool {
    0 <= i && i + pat.len() <= s.len() && s.subrange(i, i + pat.len()) == pat
}

/// Whether `pat` occurs anywhere in `s`.
pub open spec fn occurs_in(s: Seq<char>, pat: Seq<char>) -> bool {
    exists|i: int| occurs_at(s, pat, i)
}

/// `s` with every match of the non-empty pattern `pat` replaced by `rep`, as
/// `str::replace` gives it: matches are found from left to right and do not
/// overlap. (For an empty pattern it is left at `s`, which is not what
/// `str::replace` gives; `replace_matches` takes no empty pattern.)
pub open spec fn replace_all(s: Seq<char>, pat: Seq<char>, rep: Seq<char>) -> Seq<char>
    recommends
        pat.len() > 0,
    decreases s.len(),
{
    if pat.len() == 0 || s.len() == 0 {
        s
    } else if occurs_at(s, pat, 0) {
        rep + replace_all(s.skip(pat.len() as int), pat, rep)
    } else {
        seq![s[0]] + replace_all(s.skip(1), pat, rep)
    }
}

/// `s` with every match of `pat` removed, as `String::remove_matches` leaves
/// it; an empty pattern removes nothing.
pub open spec fn remove_all(s: Seq<char>, pat: Seq<char>) -> Seq<char> {
    if pat.len() == 0 {
        s
    } else {
        replace_all(s, pat, Seq::empty())
    }
}

/// Replacing a pattern that does not occur leaves the text as it is.
pub proof fn lemma_replace_absent(s: Seq<char>, pat: Seq<char>, rep: Seq<char>)
    requires
        !occurs_in(s, pat),
    ensures
        replace_all(s, pat, rep) == s,
    decreases s.len(),
{
    if pat.len() > 0 && s.len() > 0 {
        assert(!occurs_at(s, pat, 0));
        assert(!occurs_in(s.skip(1), pat)) by {
            if occurs_in(s.skip(1), pat) {
                let i = choose|i: int| occurs_at(s.skip(1), pat, i);
                assert(s.subrange(i + 1, i + 1 + pat.len()) =~= s.skip(1).subrange(i, i + pat.len()));
                assert(occurs_at(s, pat, i + 1));
            }
        }
        lemma_replace_absent(s.skip(1), pat, rep);
        assert(seq![s[0]] + s.skip(1) =~= s);
    }
}

/// Appends one character to a string.
///
/// Trusted: calls `String::push`, which appends the given `char` to the end
/// of the string.
#[verifier::external_body]
pub(crate) fn push_char(s: &mut String, c: char)
    ensures
        final(s)@ == old(s)@.push(c),
{
    s.push(c);
}

/// The characters of `s`, in order.
pub fn chars_of(s: &str) -> (v: Vec<char>)
    ensures
        v@ == s@,
{
    let mut v: Vec<char> = Vec::new();
    for c in it: s.chars()
        invariant
            v@ == it.seq().take(it.index()),
            it.seq() == s@,
    {
        v.push(c);
    }
    v
}

/// Whether `a` and `b` hold the same text.
pub fn same_text(a: &str, b: &str) -> (r: bool)
    ensures
        r == (a@ == b@),
{
    let x = chars_of(a);
    let y = chars_of(b);
    if x.len() != y.len() {
        return false;
    }
    let mut i: usize = 0;
    while i < x.len()
        invariant
            x@ == a@,
            y@ == b@,
            x.len() == y.len(),
            i <= x.len(),
            forall|k: int| 0 <= k < i ==> x@[k] == y@[k],
        decreases x.len() - i,
    {
        if x[i] != y[i] {
            return false;
        }
        i = i + 1;
    }
    assert(x@ =~= y@);
    true
}

/// A copy of `s`.
pub fn copy_text(s: &str) -> (r: String)
    ensures
        r@ == s@,
{
    let mut r = String::new();
    r.append(s);
    assert(r@ =~= s@);
    r
}

/// Whether `pat` occurs in `s` at index `i`.
fn matches_at(s: &Vec<char>, pat: &Vec<char>, i: usize) -> (b: bool)
    requires
        i <= s.len(),
    ensures
        b == occurs_at(s@, pat@, i as int),
{
    if pat.len() > s.len() - i {
        return false;
    }
    let mut j: usize = 0;
    while j < pat.len()
        invariant
            i + pat.len() <= s.len(),
            j <= pat.len(),
            forall|k: int| 0 <= k < j ==> s@[i + k] == pat@[k],
        decreases pat.len() - j,
    {
        if s[i + j] != pat[j] {
            assert(s@.subrange(i as int, i + pat.len())[j as int] != pat@[j as int]);
            return false;
        }
        j = j + 1;
    }
    assert(s@.subrange(i as int, i + pat.len()) =~= pat@);
    true
}

/// `s` with every match of the non-empty pattern `pat` replaced by `rep`, as
/// `str::replace` gives it (see `replace_all`).
pub fn replace_matches(s: &str, pat: &str, rep: &str) -> (r: String)
    requires
        pat@.len() > 0,
    ensures
        r@ == replace_all(s@, pat@, rep@),
{
    let cs = chars_of(s);
    let ps = chars_of(pat);
    let mut out = String::new();
    let mut i: usize = 0;
    assert(cs@.skip(0) =~= cs@);
    while i < cs.len()
        invariant
            cs@ == s@,
            ps@ == pat@,
            ps.len() > 0,
            i <= cs.len(),
            replace_all(s@, pat@, rep@) == out@ + replace_all(cs@.skip(i as int), pat@, rep@),
        decreases cs.len() - i,
    {
        let ghost rest = cs@.skip(i as int);
        if matches_at(&cs, &ps, i) {
            assert(rest.subrange(0, pat@.len() as int) =~= cs@.subrange(i as int, i + pat@.len()));
            assert(rest.skip(pat@.len() as int) =~= cs@.skip(i + ps.len()));
            out.append(rep);
            i = i + ps.len();
        } else {
            assert(!occurs_at(rest, pat@, 0)) by {
                if occurs_at(rest, pat@, 0) {
                    assert(rest.subrange(0, pat@.len() as int) =~= cs@.subrange(i as int, i + pat@.len()));
                }
            }
            assert(rest.skip(1) =~= cs@.skip(i + 1));
            assert(rest[0] == cs@[i as int]);
            push_char(&mut out, cs[i]);
            i = i + 1;
        }
        assert(out@ + replace_all(cs@.skip(i as int), pat@, rep@) == replace_all(s@, pat@, rep@));
    }
    assert(cs@.skip(i as int) =~= Seq::<char>::empty());
    assert(out@ + Seq::<char>::empty() =~= out@);
    out
}

/// `s` with every match of `pat` removed, as `String::remove_matches` does.
pub fn remove_matches(s: &str, pat: &str) -> (r: String)
    ensures
        r@ == remove_all(s@, pat@),
{
    proof {
        reveal_strlit("");
    }
    assert(""@ =~= Seq::<char>::empty());
    if chars_of(pat).len() == 0 {
        return copy_text(s);
    }
    replace_matches(s, pat, "")
}

} // verus!
