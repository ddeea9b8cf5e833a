//! The environment variables to back up, written one `NAME=value` line each
//! into `envvars.crust` in the staging directory.
use vstd::prelude::*;
use crate::address::{lemma_split_on_extend, lemma_split_on_separator, split_on};
use crate::paths::{pushed_path, push_path};
use crate::text::{copy_text, push_char, same_text, texts};

verus! {

/// The texts of a sequence of `(name, value)` pairs.
pub open spec fn pair_texts(v: Seq<(String, String)>) -> Seq<(Seq<char>, Seq<char>)> {
    v.map_values(|p: (String, String)| (p.0@, p.1@))
}

/// The variables of `vars` whose name is in `wanted`, in the order of
/// `vars`.
pub open spec fn selected_vars(
    vars: Seq<(Seq<char>, Seq<char>)>,
    wanted: Seq<Seq<char>>,
) -> Seq<(Seq<char>, Seq<char>)>
    decreases vars.len(),
{
    if vars.len() == 0 {
        Seq::empty()
    } else if wanted.contains(vars.last().0) {
        selected_vars(vars.drop_last(), wanted).push(vars.last())
    } else {
        selected_vars(vars.drop_last(), wanted)
    }
}

/// The line written for one variable: `NAME=value` and a newline.
pub open spec fn envvar_line(var: (Seq<char>, Seq<char>)) -> Seq<char> {
    var.0 + seq!['='] + var.1 + seq!['\n']
}

/// The lines written for `vars`, in order.
pub open spec fn envvar_lines(vars: Seq<(Seq<char>, Seq<char>)>) -> Seq<char>
    decreases vars.len(),
{
    if vars.len() == 0 {
        Seq::empty()
    } else {
        envvar_lines(vars.drop_last()) + envvar_line(vars.last())
    }
}

/// Whether `name` is one of `wanted`.
fn is_wanted(name: &str, wanted: &Vec<String>) -> (r: bool)
    ensures
        r == texts(wanted@).contains(name@),
{
    let ghost w = texts(wanted@);
    let mut i: usize = 0;
    while i < wanted.len()
        invariant
            w == texts(wanted@),
            i <= wanted.len(),
            forall|k: int| 0 <= k < i ==> w[k] != name@,
        decreases wanted.len() - i,
    {
        if same_text(wanted[i].as_str(), name) {
            assert(w[i as int] == name@);
            return true;
        }
        i = i + 1;
    }
    false
}

/// The variables of `vars` (the environment, as `(name, value)` pairs)
/// whose name is one of `wanted`, in the order of `vars`.
pub fn select_envvars(vars: &Vec<(String, String)>, wanted: &Vec<String>) -> (r: Vec<(String, String)>)
    ensures
        pair_texts(r@) == selected_vars(pair_texts(vars@), texts(wanted@)),
{
    let ghost v = pair_texts(vars@);
    let ghost w = texts(wanted@);
    let mut r: Vec<(String, String)> = Vec::new();
    let mut i: usize = 0;
    while i < vars.len()
        invariant
            v == pair_texts(vars@),
            w == texts(wanted@),
            i <= vars.len(),
            pair_texts(r@) == selected_vars(v.take(i as int), w),
        decreases vars.len() - i,
    {
        assert(v.take(i + 1).drop_last() =~= v.take(i as int));
        assert(v.take(i + 1).last() == v[i as int]);
        if is_wanted(vars[i].0.as_str(), wanted) {
            let ghost before = r@;
            r.push((copy_text(vars[i].0.as_str()), copy_text(vars[i].1.as_str())));
            assert(pair_texts(r@) =~= pair_texts(before).push(v[i as int]));
        }
        i = i + 1;
    }
    assert(v.take(vars.len() as int) =~= v);
    r
}

/// The contents of `envvars.crust` for the variables `vars`.
pub fn envvar_file_contents(vars: &Vec<(String, String)>) -> (r: String)
    ensures
        r@ == envvar_lines(pair_texts(vars@)),
{
    let ghost v = pair_texts(vars@);
    let mut r = String::new();
    let mut i: usize = 0;
    while i < vars.len()
        invariant
            v == pair_texts(vars@),
            i <= vars.len(),
            r@ == envvar_lines(v.take(i as int)),
        decreases vars.len() - i,
    {
        assert(v.take(i + 1).drop_last() =~= v.take(i as int));
        assert(v.take(i + 1).last() == v[i as int]);
        r.append(vars[i].0.as_str());
        push_char(&mut r, '=');
        r.append(vars[i].1.as_str());
        push_char(&mut r, '\n');
        assert(r@ =~= envvar_lines(v.take(i as int)) + envvar_line(v[i as int]));
        i = i + 1;
    }
    assert(v.take(vars.len() as int) =~= v);
    r
}

/// The contents of `envvars.crust`: one line for each variable of `vars`
/// whose name is one of `wanted`, in the order of `vars`.
pub fn envvars_file(vars: &Vec<(String, String)>, wanted: &Vec<String>) -> (r: String)
    ensures
        r@ == envvar_lines(selected_vars(pair_texts(vars@), texts(wanted@))),
{
    let chosen = select_envvars(vars, wanted);
    envvar_file_contents(&chosen)
}

/// The path of `envvars.crust` in the staging directory `tmp_path`.
pub fn envvars_file_path(tmp_path: &str) -> (r: String)
    ensures
        r@ == pushed_path(tmp_path@, "envvars.crust"@),
{
    push_path(tmp_path, "envvars.crust")
}

/// The line written for a variable holds its name, `=`, its whole value
/// as it is, and a newline: where the name has no `=`, the first `=` ends
/// the name and the value reads back unchanged from what follows it.
pub proof fn lemma_envvar_line_reads_back(name: Seq<char>, value: Seq<char>)
    requires
        !name.contains('='),
    ensures
        ({
            let l = envvar_line((name, value));
            &&& l.len() == name.len() + value.len() + 2
            &&& l.take(name.len() as int) == name
            &&& (forall|k: int| 0 <= k < name.len() ==> l[k] != '=')
            &&& l[name.len() as int] == '='
            &&& l.subrange(name.len() + 1int, l.len() - 1) == value
            &&& l.last() == '\n'
        }),
{
    let l = envvar_line((name, value));
    assert(l.take(name.len() as int) =~= name);
    assert(l.subrange(name.len() + 1int, l.len() - 1) =~= value);
    assert forall|k: int| 0 <= k < name.len() implies l[k] != '=' by {
        assert(l[k] == name[k]);
    }
}

/// Split at its newlines, the file gives back, in order, `NAME=value` for
/// every variable written, and nothing after the last newline: no value is
/// cut or changed, where names and values hold no newline.
pub proof fn lemma_envvar_lines_split(vars: Seq<(Seq<char>, Seq<char>)>)
    requires
        forall|i: int|
            0 <= i < vars.len() ==> !(#[trigger] vars[i]).0.contains('\n') && !vars[i].1.contains(
                '\n',
            ),
    ensures
        split_on(envvar_lines(vars), '\n') == vars.map_values(
            |p: (Seq<char>, Seq<char>)| p.0 + seq!['='] + p.1,
        ).push(Seq::<char>::empty()),
    decreases vars.len(),
{
    let f: spec_fn((Seq<char>, Seq<char>)) -> Seq<char> = |p: (Seq<char>, Seq<char>)| p.0
        + seq!['='] + p.1;
    if vars.len() == 0 {
        assert(envvar_lines(vars) =~= Seq::<char>::empty());
        assert(vars.map_values(f).push(Seq::<char>::empty()) =~= seq![Seq::<char>::empty()]);
    } else {
        let dl = vars.drop_last();
        assert forall|i: int| 0 <= i < dl.len() implies !(#[trigger] dl[i]).0.contains('\n')
            && !dl[i].1.contains('\n') by {
            assert(dl[i] == vars[i]);
        }
        lemma_envvar_lines_split(dl);
        let v = vars.last();
        assert(v == vars[vars.len() - 1]);
        let x = f(v);
        assert(!x.contains('\n')) by {
            if x.contains('\n') {
                let k = choose|k: int| 0 <= k < x.len() && x[k] == '\n';
                if k < v.0.len() {
                    assert(v.0[k] == '\n');
                } else if k > v.0.len() {
                    assert(v.1[k - v.0.len() - 1] == '\n');
                }
            }
        }
        let e = envvar_lines(dl);
        assert(envvar_lines(vars) =~= e + x + seq!['\n']);
        lemma_split_on_separator(e + x, '\n');
        lemma_split_on_extend(e, x, '\n');
        let q = split_on(e, '\n');
        assert(q.drop_last() =~= dl.map_values(f));
        assert(q.last() + x =~= x);
        assert(vars.map_values(f) =~= dl.map_values(f).push(x));
    }
}

/// Every variable written is one of the environment's and has a wanted
/// name; every variable of the environment with a wanted name is written.
pub proof fn lemma_selected_vars_exact(
    vars: Seq<(Seq<char>, Seq<char>)>,
    wanted: Seq<Seq<char>>,
)
    ensures
        forall|x: (Seq<char>, Seq<char>)|
            #[trigger] selected_vars(vars, wanted).contains(x) <==> (vars.contains(x)
                && wanted.contains(x.0)),
    decreases vars.len(),
{
    if vars.len() > 0 {
        lemma_selected_vars_exact(vars.drop_last(), wanted);
        let rest = selected_vars(vars.drop_last(), wanted);
        assert forall|x: (Seq<char>, Seq<char>)|
            #[trigger] selected_vars(vars, wanted).contains(x) <==> (vars.contains(x)
                && wanted.contains(x.0)) by {
            if vars.contains(x) {
                let k = choose|k: int| 0 <= k < vars.len() && vars[k] == x;
                if k < vars.len() - 1 {
                    assert(vars.drop_last()[k] == x);
                }
            }
            if vars.drop_last().contains(x) {
                let k = choose|k: int| 0 <= k < vars.drop_last().len() && vars.drop_last()[k] == x;
                assert(vars[k] == x);
            }
            if wanted.contains(vars.last().0) {
                let s = rest.push(vars.last());
                if rest.contains(x) {
                    let k = choose|k: int| 0 <= k < rest.len() && rest[k] == x;
                    assert(s[k] == x);
                }
                if s.contains(x) {
                    let k = choose|k: int| 0 <= k < s.len() && s[k] == x;
                    if k < rest.len() {
                        assert(rest[k] == x);
                    }
                }
                assert(s[rest.len() as int] == vars.last());
            }
        }
    }
}

} // verus!
