//! Garbage collection: the registry of project roots, and which installed toolchains no
//! project, override or default still uses.
use crate::config::{all_dirs_parse, desc_views, installed_descs, Cfg, InstalledToolchain};
use crate::desc::{display, DescView, ToolchainDesc};
use crate::errors::ElanError;
use crate::resolve::eq_chars;
use crate::text::{chars_of, concat, string_of};
use vstd::prelude::*;

verus! {

/// The file that lists the project roots, one per line.
pub fn get_root_file(cfg: &Cfg) -> (r: String)
    ensures
        r@ == cfg.elan_dir@ + "/known-projects"@,
{
    string_of(&concat(&chars_of(cfg.elan_dir.as_str()), &chars_of("/known-projects")))
}

/// The pieces of `s[start..]` between line feeds, scanning from `i`.
pub open spec fn split_from(s: Seq<char>, start: int, i: int) -> Seq<Seq<char>>
    decreases s.len() - i,
{
    if i < start || i >= s.len() {
        seq![s.subrange(start, s.len() as int)]
    } else if s[i] == '\n' {
        seq![s.subrange(start, i)] + split_from(s, i + 1, i + 1)
    } else {
        split_from(s, start, i + 1)
    }
}

/// The registry's lines: the text split at each line feed (an empty text is one empty line).
pub open spec fn split_lines(s: Seq<char>) -> Seq<Seq<char>> {
    split_from(s, 0, 0)
}

/// The views of a list of strings.
pub open spec fn string_views(v: Seq<String>) -> Seq<Seq<char>> {
    v.map_values(|s: String| s@)
}

/// Reads the registry's text into its list of roots.
pub fn parse_roots(text: &str) -> (r: Vec<String>)
    ensures
        string_views(r@) == split_lines(text@),
{
    let s = chars_of(text);
    let n = s.len();
    let mut out: Vec<String> = Vec::new();
    let mut start: usize = 0;
    let mut i: usize = 0;
    while i < n
        invariant
            0 <= start <= i <= n == s@.len(),
            s@ == text@,
            string_views(out@) + split_from(s@, start as int, i as int) == split_lines(s@),
        decreases n - i,
    {
        if s[i] == '\n' {
            let piece = crate::desc::slice_chars(&s, start, i);
            let ghost before = out@;
            out.push(string_of(&piece));
            proof {
                assert(string_views(out@) =~= string_views(before).push(piece@));
                assert(string_views(out@) + split_from(s@, i + 1, i + 1) =~= string_views(before)
                    + split_from(s@, start as int, i as int));
            }
            start = i + 1;
        }
        i = i + 1;
    }
    let piece = crate::desc::slice_chars(&s, start, n);
    let ghost before = out@;
    out.push(string_of(&piece));
    proof {
        assert(string_views(out@) =~= string_views(before) + split_from(s@, start as int, n as int));
    }
    out
}

/// The roots joined by line feeds.
pub open spec fn join_lines(r: Seq<Seq<char>>) -> Seq<char>
    decreases r.len(),
{
    if r.len() == 0 {
        Seq::empty()
    } else if r.len() == 1 {
        r[0]
    } else {
        join_lines(r.drop_last()) + seq!['\n'] + r.last()
    }
}

proof fn lemma_split_single(s: Seq<char>, start: int, i: int)
    requires
        0 <= start <= i <= s.len(),
        forall|j: int| i <= j < s.len() ==> s[j] != '\n',
    ensures
        split_from(s, start, i) == seq![s.subrange(start, s.len() as int)],
    decreases s.len() - i,
{
    if i < s.len() {
        lemma_split_single(s, start, i + 1);
    }
}

proof fn lemma_split_append(x: Seq<char>, y: Seq<char>, start: int, i: int)
    requires
        0 <= start <= i <= x.len(),
        forall|j: int| 0 <= j < y.len() ==> y[j] != '\n',
    ensures
        split_from(x + seq!['\n'] + y, start, i) == split_from(x, start, i) + seq![y],
    decreases x.len() - i,
{
    let s = x + seq!['\n'] + y;
    let n = x.len() as int;
    assert forall|j: int| n + 1 <= j < s.len() implies s[j] != '\n' by {
        assert(s[j] == y[j - n - 1]);
    }
    lemma_split_single(s, n + 1, n + 1);
    assert(s.subrange(n + 1, s.len() as int) =~= y);
    if i == n {
        assert(s[n] == '\n');
        assert(s.subrange(start, n) =~= x.subrange(start, n));
    } else {
        assert(s[i] == x[i]);
        if x[i] == '\n' {
            lemma_split_append(x, y, i + 1, i + 1);
            assert(s.subrange(start, i) =~= x.subrange(start, i));
        } else {
            lemma_split_append(x, y, start, i + 1);
        }
    }
}

/// The registry reads back the roots it was written with, when there is at least one and no
/// root holds a line feed.
pub proof fn lemma_roots_round_trip(r: Seq<Seq<char>>)
    requires
        r.len() > 0,
        forall|i: int, j: int| 0 <= i < r.len() && 0 <= j < r[i].len() ==> r[i][j] != '\n',
    ensures
        split_lines(join_lines(r)) == r,
    decreases r.len(),
{
    if r.len() == 1 {
        assert forall|j: int| 0 <= j < r[0].len() implies r[0][j] != '\n' by {}
        lemma_split_single(r[0], 0, 0);
        assert(r[0].subrange(0, r[0].len() as int) =~= r[0]);
        assert(r =~= seq![r[0]]);
    } else {
        let init = r.drop_last();
        assert forall|i: int, j: int| 0 <= i < init.len() && 0 <= j < init[i].len() implies init[i][j]
            != '\n' by {
            assert(init[i] == r[i]);
        }
        lemma_roots_round_trip(init);
        assert forall|j: int| 0 <= j < r.last().len() implies r.last()[j] != '\n' by {
            assert(r.last() == r[r.len() - 1]);
        }
        lemma_split_append(join_lines(init), r.last(), 0, 0);
        assert(r =~= init.push(r.last()));
    }
}

/// Writes the list of roots as the registry's text.
pub fn join_roots(roots: &Vec<String>) -> (r: String)
    ensures
        r@ == join_lines(string_views(roots@)),
{
    let mut acc: Vec<char> = Vec::new();
    let mut i: usize = 0;
    while i < roots.len()
        invariant
            0 <= i <= roots@.len(),
            acc@ == join_lines(string_views(roots@.take(i as int))),
        decreases roots@.len() - i,
    {
        let ghost prev = string_views(roots@.take(i as int));
        let ghost next = string_views(roots@.take(i + 1));
        proof {
            assert(next.drop_last() =~= prev);
            assert(next.last() == roots@[i as int]@);
        }
        if i > 0 {
            acc.push('\n');
        }
        acc = concat(&acc, &chars_of(roots[i].as_str()));
        proof {
            if i == 0 {
                assert(acc@ =~= next[0]);
            } else {
                assert(acc@ =~= join_lines(prev) + seq!['\n'] + next.last());
            }
        }
        i = i + 1;
    }
    proof {
        assert(roots@.take(i as int) =~= roots@);
    }
    string_of(&acc)
}

/// Records `root` as a project root unless it is listed already; says whether the list grew.
pub fn add_root(roots: &mut Vec<String>, root: &str) -> (r: bool)
    ensures
        r == !string_views(old(roots)@).contains(root@),
        string_views(final(roots)@) == if r {
            string_views(old(roots)@).push(root@)
        } else {
            string_views(old(roots)@)
        },
{
    let k = chars_of(root);
    let mut i: usize = 0;
    while i < roots.len()
        invariant
            0 <= i <= roots@.len(),
            k@ == root@,
            forall|j: int| 0 <= j < i ==> (#[trigger] roots@[j])@ != root@,
        decreases roots@.len() - i,
    {
        if eq_chars(&chars_of(roots[i].as_str()), &k) {
            proof {
                assert(string_views(roots@)[i as int] == root@);
            }
            return false;
        }
        i = i + 1;
    }
    proof {
        assert forall|j: int| 0 <= j < roots@.len() implies string_views(roots@)[j] != root@ by {
            assert(string_views(roots@)[j] == roots@[j]@);
        }
    }
    let ghost before = roots@;
    roots.push(root.to_owned());
    proof {
        assert(string_views(roots@) =~= string_views(before).push(root@));
    }
    true
}

/// Labels and descriptors, as values.
pub open spec fn pair_views(v: Seq<(String, ToolchainDesc)>) -> Seq<(Seq<char>, DescView)> {
    v.map_values(|e: (String, ToolchainDesc)| (e.0@, e.1@))
}

/// The toolchains in use, each with the reason it is: the project roots, the default, the
/// environment's toolchain, then the directory overrides.
pub open spec fn used_spec(
    cfg: Cfg,
    roots: Seq<(String, ToolchainDesc)>,
    default: Option<ToolchainDesc>,
    env: Option<ToolchainDesc>,
) -> Seq<(Seq<char>, DescView)> {
    pair_views(roots) + (match default {
        Some(d) => seq![("default toolchain"@, d@)],
        None => Seq::empty(),
    }) + (match env {
        Some(d) => seq![("ELAN_TOOLCHAIN"@, d@)],
        None => Seq::empty(),
    }) + cfg.settings.overrides@.map_values(
        |e: (String, ToolchainDesc)| (e.0@ + " (override)"@, e.1@),
    )
}

/// Whether some used toolchain is written as `name`.
pub open spec fn named_in(used: Seq<(Seq<char>, DescView)>, name: Seq<char>) -> bool {
    exists|j: int| 0 <= j < used.len() && display((#[trigger] used[j]).1) == name
}

/// An installed toolchain may be collected: a release (not linked), which nothing uses.
pub open spec fn collectable(
    d: DescView,
    entry: InstalledToolchain,
    used: Seq<(Seq<char>, DescView)>,
) -> bool {
    !entry.is_custom && d is Remote && !named_in(used, display(d))
}

/// The collectable toolchains among the first `n` installed, in listing order.
pub open spec fn unused_upto(
    ts: Seq<DescView>,
    inst: Seq<InstalledToolchain>,
    used: Seq<(Seq<char>, DescView)>,
    n: int,
) -> Seq<DescView>
    decreases n,
{
    if n <= 0 {
        Seq::empty()
    } else if collectable(ts[n - 1], inst[n - 1], used) {
        unused_upto(ts, inst, used, n - 1).push(ts[n - 1])
    } else {
        unused_upto(ts, inst, used, n - 1)
    }
}

fn copy_pairs(v: &Vec<(String, ToolchainDesc)>) -> (r: Vec<(String, ToolchainDesc)>)
    ensures
        r@ == v@,
{
    let mut out: Vec<(String, ToolchainDesc)> = Vec::new();
    let mut i: usize = 0;
    while i < v.len()
        invariant
            0 <= i <= v@.len(),
            out@ =~= v@.take(i as int),
        decreases v@.len() - i,
    {
        out.push((v[i].0.clone(), v[i].1.duplicate()));
        i = i + 1;
    }
    assert(v@.take(i as int) =~= v@);
    out
}

fn is_named(used: &Vec<(String, ToolchainDesc)>, name: &Vec<char>) -> (r: bool)
    ensures
        r == named_in(pair_views(used@), name@),
{
    let mut j: usize = 0;
    while j < used.len()
        invariant
            0 <= j <= used@.len(),
            forall|m: int| 0 <= m < j ==> display((#[trigger] pair_views(used@)[m]).1) != name@,
        decreases used@.len() - j,
    {
        let s = used[j].1.to_string();
        if eq_chars(&chars_of(s.as_str()), name) {
            assert(pair_views(used@)[j as int].1 == used@[j as int].1@);
            return true;
        }
        assert(pair_views(used@)[j as int].1 == used@[j as int].1@);
        j = j + 1;
    }
    false
}

/// Sorts the installed toolchains into those nothing uses and those in use. `roots` are the
/// project roots whose pin files still resolve, with what they resolve to; `default` and `env`
/// are the default toolchain and the environment's, when they resolve.
pub fn analyze_toolchains(
    cfg: &Cfg,
    roots: &Vec<(String, ToolchainDesc)>,
    default: Option<ToolchainDesc>,
    env: Option<ToolchainDesc>,
) -> (r: Result<(Vec<ToolchainDesc>, Vec<(String, ToolchainDesc)>), ElanError>)
    ensures
        r is Ok <==> all_dirs_parse(cfg.installed@),
        r is Ok ==> pair_views(r->Ok_0.1@) == used_spec(*cfg, roots@, default, env),
        r is Ok ==> desc_views(r->Ok_0.0@) == unused_upto(
            installed_descs(cfg.installed@),
            cfg.installed@,
            used_spec(*cfg, roots@, default, env),
            cfg.installed@.len() as int,
        ),
{
    let ghost want = used_spec(*cfg, roots@, default, env);
    let ghost default_in = default;
    let ghost env_in = env;
    let mut used = copy_pairs(roots);
    let ghost base = pair_views(used@);
    let ghost d_part = match default {
        Some(ref d) => seq![("default toolchain"@, d@)],
        None => Seq::<(Seq<char>, DescView)>::empty(),
    };
    let ghost e_part = match env {
        Some(ref d) => seq![("ELAN_TOOLCHAIN"@, d@)],
        None => Seq::<(Seq<char>, DescView)>::empty(),
    };
    if let Some(d) = default {
        used.push(("default toolchain".to_owned(), d));
    }
    assert(pair_views(used@) =~= base + d_part);
    if let Some(d) = env {
        used.push(("ELAN_TOOLCHAIN".to_owned(), d));
    }
    assert(pair_views(used@) =~= base + d_part + e_part);
    let ghost mid = pair_views(used@);
    let ghost ov = cfg.settings.overrides@.map_values(
        |e: (String, ToolchainDesc)| (e.0@ + " (override)"@, e.1@),
    );
    let mut i: usize = 0;
    while i < cfg.settings.overrides.len()
        invariant
            0 <= i <= cfg.settings.overrides@.len(),
            ov == cfg.settings.overrides@.map_values(
                |e: (String, ToolchainDesc)| (e.0@ + " (override)"@, e.1@),
            ),
            pair_views(used@) =~= mid + ov.take(i as int),
        decreases cfg.settings.overrides@.len() - i,
    {
        let e = &cfg.settings.overrides[i];
        let label = string_of(&concat(&chars_of(e.0.as_str()), &chars_of(" (override)")));
        let ghost before = pair_views(used@);
        used.push((label, e.1.duplicate()));
        assert(pair_views(used@) =~= before.push(ov[i as int]));
        assert(ov.take(i + 1) =~= ov.take(i as int).push(ov[i as int]));
        i = i + 1;
    }
    assert(ov.take(i as int) =~= ov);
    assert(pair_views(used@) == want);
    let ts = cfg.list_toolchains()?;
    let ghost tv = installed_descs(cfg.installed@);
    assert(tv.len() == cfg.installed@.len()) by {
        reveal(installed_descs);
    }
    assert(desc_views(ts@).len() == ts@.len());
    let mut unused: Vec<ToolchainDesc> = Vec::new();
    let mut k: usize = 0;
    while k < ts.len()
        invariant
            0 <= k <= ts@.len() == cfg.installed@.len(),
            desc_views(ts@) == tv,
            pair_views(used@) == want,
            desc_views(unused@) == unused_upto(tv, cfg.installed@, want, k as int),
        decreases ts@.len() - k,
    {
        let t = &ts[k];
        assert(tv[k as int] == t@);
        let keep = !cfg.installed[k].is_custom && match t {
            ToolchainDesc::Remote { .. } => true,
            _ => false,
        } && !is_named(&used, &chars_of(t.to_string().as_str()));
        if keep {
            let ghost before = unused@;
            unused.push(t.duplicate());
            assert(desc_views(unused@) =~= desc_views(before).push(t@));
        }
        k = k + 1;
    }
    Ok((unused, used))
}

/// A linked toolchain is never collected, even when nothing refers to it: everything
/// collectable is an installed release.
pub proof fn lemma_gc_keeps_linked(
    ts: Seq<DescView>,
    inst: Seq<InstalledToolchain>,
    used: Seq<(Seq<char>, DescView)>,
    n: int,
)
    requires
        0 <= n <= ts.len(),
        n <= inst.len(),
    ensures
        forall|i: int|
            0 <= i < unused_upto(ts, inst, used, n).len() ==> (#[trigger] unused_upto(
                ts,
                inst,
                used,
                n,
            )[i]) is Remote,
    decreases n,
{
    if n > 0 {
        lemma_gc_keeps_linked(ts, inst, used, n - 1);
    }
}

} // verus!
