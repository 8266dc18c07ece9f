//! The state a command works from: the installed toolchains, the settings, and the
//! environment override; and the questions answered from it.
use crate::desc::{copy_opt, decode_dir, parse_desc, DescView, ToolchainDesc};
use crate::resolve::eq_chars;
use crate::text::{
    chars_lt, chars_of, lemma_seq_lt_irreflexive, lemma_seq_lt_total, lemma_seq_lt_transitive, seq_lt,
};
use crate::errors::ElanError;
use vstd::prelude::*;

verus! {

/// Whether telemetry is collected.
#[derive(Debug, Clone, Copy, PartialEq, Eq)]
pub enum TelemetryMode {
    On,
    Off,
}

/// The persisted settings: the default toolchain and the directory overrides.
#[derive(Debug, Clone, PartialEq, Eq)]
pub struct Settings {
    pub version: String,
    pub default_toolchain: Option<String>,
    /// Canonical directory paths and the toolchains they are pinned to; each path once.
    pub overrides: Vec<(String, ToolchainDesc)>,
    pub telemetry: TelemetryMode,
}

/// The settings format this library writes.
pub const DEFAULT_METADATA_VERSION: &'static str = "12";

impl Default for Settings {
    /// Settings with no default toolchain, no overrides and telemetry off.
    fn default() -> (r: Settings)
        ensures
            r.version@ == DEFAULT_METADATA_VERSION@,
            r.default_toolchain is None,
            r.overrides@.len() == 0,
            r.telemetry == TelemetryMode::Off,
            r.wf(),
    {
        Settings {
            version: DEFAULT_METADATA_VERSION.to_owned(),
            default_toolchain: None,
            overrides: Vec::new(),
            telemetry: TelemetryMode::Off,
        }
    }
}

/// An entry of the toolchains directory that is not a plain file.
#[derive(Debug, Clone, PartialEq, Eq)]
pub struct InstalledToolchain {
    pub dir_name: String,
    /// The entry is a link made by `toolchain link`, not an installed release.
    pub is_custom: bool,
}

/// What a command knows of the machine: where the toolchains live and which are there.
#[derive(Debug, Clone, PartialEq, Eq)]
pub struct Cfg {
    pub elan_dir: String,
    pub toolchains_dir: String,
    /// The toolchain named by the environment, if any.
    pub env_override: Option<String>,
    pub settings: Settings,
    /// The entries of the toolchains directory, in the order they are listed.
    pub installed: Vec<InstalledToolchain>,
}

/// No directory has two overrides.
pub open spec fn keys_unique(o: Seq<(String, ToolchainDesc)>) -> bool {
    forall|i: int, j: int|
        0 <= i < o.len() && 0 <= j < o.len() && i != j ==> #[trigger] o[i].0@ != #[trigger] o[j].0@
}

/// The directories of the override table are in ascending order.
pub open spec fn keys_sorted(o: Seq<(String, ToolchainDesc)>) -> bool {
    forall|i: int, j: int|
        0 <= i < j < o.len() ==> seq_lt(#[trigger] o[i].0@, #[trigger] o[j].0@)
}

proof fn lemma_sorted_unique(o: Seq<(String, ToolchainDesc)>)
    requires
        keys_sorted(o),
    ensures
        keys_unique(o),
{
    assert forall|i: int, j: int|
        0 <= i < o.len() && 0 <= j < o.len() && i != j implies #[trigger] o[i].0@ != #[trigger] o[j].0@ by {
        if i < j {
            lemma_seq_lt_irreflexive(o[i].0@);
            assert(seq_lt(o[i].0@, o[j].0@));
        } else {
            lemma_seq_lt_irreflexive(o[j].0@);
            assert(seq_lt(o[j].0@, o[i].0@));
        }
    }
}

impl Settings {
    /// No directory has two overrides, and the directories are in ascending order.
    pub open spec fn wf(&self) -> bool {
        keys_unique(self.overrides@) && keys_sorted(self.overrides@)
    }
}

/// The views of a list of descriptors.
pub open spec fn desc_views(v: Seq<ToolchainDesc>) -> Seq<DescView> {
    v.map_values(|d: ToolchainDesc| d@)
}

/// Every entry of the toolchains directory names a toolchain.
pub open spec fn all_dirs_parse(inst: Seq<InstalledToolchain>) -> bool {
    forall|i: int| 0 <= i < inst.len() ==> (#[trigger] parse_desc(decode_dir(inst[i].dir_name@))) is Some
}

/// The installed toolchains, in listing order, when every entry names one.
#[verifier::opaque]
pub open spec fn installed_descs(inst: Seq<InstalledToolchain>) -> Seq<DescView> {
    Seq::new(inst.len(), |i: int| parse_desc(decode_dir(inst[i].dir_name@))->Some_0)
}

impl Cfg {
    /// The installed toolchains, read from the names of their directories.
    pub fn list_toolchains(&self) -> (r: Result<Vec<ToolchainDesc>, ElanError>)
        ensures
            r is Ok <==> all_dirs_parse(self.installed@),
            r is Ok ==> desc_views(r->Ok_0@) == installed_descs(self.installed@),
            r is Err ==> r->Err_0 is InvalidToolchainName,
    {
        let mut out: Vec<ToolchainDesc> = Vec::new();
        let mut i: usize = 0;
        while i < self.installed.len()
            invariant
                0 <= i <= self.installed@.len(),
                out@.len() == i,
                forall|k: int| 0 <= k < i ==> (#[trigger] parse_desc(decode_dir(self.installed@[k].dir_name@))) is Some,
                forall|k: int|
                    0 <= k < i ==> #[trigger] out@[k]@ == parse_desc(
                        decode_dir(self.installed@[k].dir_name@),
                    )->Some_0,
            decreases self.installed@.len() - i,
        {
            match ToolchainDesc::from_toolchain_dir(self.installed[i].dir_name.as_str()) {
                Ok(d) => out.push(d),
                Err(e) => {
                    return Err(e);
                },
            }
            i = i + 1;
        }
        reveal(installed_descs);
        assert(desc_views(out@) =~= installed_descs(self.installed@));
        Ok(out)
    }

    /// The name of the default toolchain, if one is set.
    pub fn get_default(&self) -> (r: Option<String>)
        ensures
            r == self.settings.default_toolchain,
    {
        copy_opt(&self.settings.default_toolchain)
    }

    /// The directory overrides, in ascending order of directory.
    pub fn get_overrides(&self) -> (r: Vec<(String, ToolchainDesc)>)
        requires
            self.settings.wf(),
        ensures
            r@ == self.settings.overrides@,
            keys_sorted(r@),
    {
        let mut out: Vec<(String, ToolchainDesc)> = Vec::new();
        let mut i: usize = 0;
        while i < self.settings.overrides.len()
            invariant
                0 <= i <= self.settings.overrides@.len(),
                out@ =~= self.settings.overrides@.take(i as int),
            decreases self.settings.overrides@.len() - i,
        {
            let e = &self.settings.overrides[i];
            out.push((e.0.clone(), e.1.duplicate()));
            i = i + 1;
        }
        assert(self.settings.overrides@.take(i as int) =~= self.settings.overrides@);
        out
    }
}

/// The override stored for directory `key`, if any.
pub open spec fn override_of(o: Seq<(String, ToolchainDesc)>, key: Seq<char>) -> Option<DescView> {
    if exists|i: int| 0 <= i < o.len() && (#[trigger] o[i]).0@ == key {
        let i = choose|i: int| 0 <= i < o.len() && (#[trigger] o[i]).0@ == key;
        Some(o[i].1@)
    } else {
        None
    }
}

/// The override table without the entry for `key`.
pub open spec fn without_key(o: Seq<(String, ToolchainDesc)>, key: Seq<char>) -> Seq<
    (String, ToolchainDesc),
> {
    o.filter(not_key(key))
}

/// Entries of the override table for a directory other than `key`.
pub open spec fn not_key(key: Seq<char>) -> spec_fn((String, ToolchainDesc)) -> bool {
    |e: (String, ToolchainDesc)| e.0@ != key
}

proof fn lemma_override_at(o: Seq<(String, ToolchainDesc)>, i: int)
    requires
        keys_unique(o),
        0 <= i < o.len(),
    ensures
        override_of(o, o[i].0@) == Some(o[i].1@),
{
    let j = choose|j: int| 0 <= j < o.len() && (#[trigger] o[j]).0@ == o[i].0@;
    assert(j == i);
}

impl Settings {
    fn find_key(&self, key: &str) -> (r: Option<usize>)
        requires
            self.wf(),
        ensures
            match r {
                Some(i) => i < self.overrides@.len() && self.overrides@[i as int].0@ == key@,
                None => forall|i: int|
                    0 <= i < self.overrides@.len() ==> (#[trigger] self.overrides@[i]).0@ != key@,
            },
    {
        let k = chars_of(key);
        let mut i: usize = 0;
        while i < self.overrides.len()
            invariant
                0 <= i <= self.overrides@.len(),
                k@ == key@,
                forall|j: int| 0 <= j < i ==> (#[trigger] self.overrides@[j]).0@ != key@,
            decreases self.overrides@.len() - i,
        {
            if eq_chars(&chars_of(self.overrides[i].0.as_str()), &k) {
                return Some(i);
            }
            i = i + 1;
        }
        None
    }

    /// The toolchain that the override database pins directory `dir` to.
    pub fn dir_override(&self, dir: &str) -> (r: Option<ToolchainDesc>)
        requires
            self.wf(),
        ensures
            match override_of(self.overrides@, dir@) {
                Some(v) => r is Some && r->Some_0@ == v,
                None => r is None,
            },
    {
        match self.find_key(dir) {
            Some(i) => {
                proof {
                    lemma_override_at(self.overrides@, i as int);
                }
                Some(self.overrides[i].1.duplicate())
            },
            None => None,
        }
    }

    /// Pins directory `dir` to `toolchain`, replacing an earlier override of it.
    pub fn add_override(&mut self, dir: &str, toolchain: ToolchainDesc)
        requires
            old(self).wf(),
        ensures
            final(self).wf(),
            override_of(final(self).overrides@, dir@) == Some(toolchain@),
            forall|k: Seq<char>|
                k != dir@ ==> override_of(final(self).overrides@, k) == override_of(
                    old(self).overrides@,
                    k,
                ),
            final(self).default_toolchain == old(self).default_toolchain,
            final(self).version == old(self).version,
            final(self).telemetry == old(self).telemetry,
    {
        let ghost before = self.overrides@;
        let n = self.overrides.len();
        match self.find_key(dir) {
            Some(i) => {
                self.overrides.set(i, (dir.to_owned(), toolchain));
                proof {
                    let after = self.overrides@;
                    assert(keys_unique(after)) by {
                        assert forall|a: int, b: int|
                            0 <= a < after.len() && 0 <= b < after.len() && a != b implies
                            #[trigger] after[a].0@ != #[trigger] after[b].0@ by {
                            assert(before[a].0@ != before[b].0@);
                        }
                    }
                    lemma_override_at(after, i as int);
                    assert forall|k: Seq<char>| k != dir@ implies override_of(after, k)
                        == override_of(before, k) by {
                        if exists|j: int| 0 <= j < before.len() && (#[trigger] before[j]).0@ == k {
                            let j = choose|j: int| 0 <= j < before.len() && (#[trigger] before[j]).0@ == k;
                            lemma_override_at(before, j);
                            lemma_override_at(after, j);
                        } else {
                            assert forall|j: int| 0 <= j < after.len() implies (#[trigger] after[j]).0@ != k by {
                                if j != i {
                                    assert(after[j] == before[j]);
                                }
                            }
                        }
                    }
                }
            },
            None => {
                let p = self.insert_position(dir);
                self.overrides.insert(p, (dir.to_owned(), toolchain));
                proof {
                    let after = self.overrides@;
                    assert(after.len() == n + 1);
                    assert forall|a: int| 0 <= a < after.len() implies #[trigger] after[a] == if a
                        < p {
                        before[a]
                    } else if a == p {
                        after[p as int]
                    } else {
                        before[a - 1]
                    } by {}
                    assert(keys_sorted(after)) by {
                        assert forall|a: int, b: int|
                            0 <= a < b < after.len() implies seq_lt(
                            #[trigger] after[a].0@,
                            #[trigger] after[b].0@,
                        ) by {
                            if b < p {
                            } else if a < p && b == p {
                            } else if a < p {
                                lemma_seq_lt_transitive(before[a].0@, dir@, before[b - 1].0@);
                            } else if a == p {
                                if b - 1 > p {
                                    lemma_seq_lt_transitive(dir@, before[p as int].0@, before[b - 1].0@);
                                }
                            }
                        }
                    }
                    lemma_sorted_unique(after);
                    lemma_override_at(after, p as int);
                    assert forall|k: Seq<char>| k != dir@ implies override_of(after, k)
                        == override_of(before, k) by {
                        if exists|j: int| 0 <= j < before.len() && (#[trigger] before[j]).0@ == k {
                            let j = choose|j: int| 0 <= j < before.len() && (#[trigger] before[j]).0@ == k;
                            lemma_override_at(before, j);
                            if j < p {
                                lemma_override_at(after, j);
                            } else {
                                assert(after[j + 1] == before[j]);
                                lemma_override_at(after, j + 1);
                            }
                        } else {
                            assert forall|j: int| 0 <= j < after.len() implies (#[trigger] after[j]).0@ != k by {
                                if j < p {
                                    assert(after[j] == before[j]);
                                } else if j > p {
                                    assert(after[j] == before[j - 1]);
                                }
                            }
                        }
                    }
                }
            },
        }
    }

    /// Where a directory that has no override goes in the table: after every smaller key.
    fn insert_position(&self, dir: &str) -> (p: usize)
        requires
            self.wf(),
            forall|i: int| 0 <= i < self.overrides@.len() ==> (#[trigger] self.overrides@[i]).0@ != dir@,
        ensures
            p <= self.overrides@.len(),
            forall|i: int| 0 <= i < p ==> seq_lt(#[trigger] self.overrides@[i].0@, dir@),
            forall|i: int| p <= i < self.overrides@.len() ==> seq_lt(dir@, #[trigger] self.overrides@[i].0@),
    {
        let k = chars_of(dir);
        let mut p: usize = 0;
        while p < self.overrides.len() && !chars_lt(&k, &chars_of(self.overrides[p].0.as_str()))
            invariant
                p <= self.overrides@.len(),
                k@ == dir@,
                forall|i: int| 0 <= i < self.overrides@.len() ==> (#[trigger] self.overrides@[i]).0@ != dir@,
                forall|i: int| 0 <= i < p ==> seq_lt(#[trigger] self.overrides@[i].0@, dir@),
            decreases self.overrides@.len() - p,
        {
            proof {
                lemma_seq_lt_total(dir@, self.overrides@[p as int].0@);
            }
            p = p + 1;
        }
        proof {
            assert forall|i: int| p <= i < self.overrides@.len() implies seq_lt(
                dir@,
                #[trigger] self.overrides@[i].0@,
            ) by {
                if i > p {
                    lemma_seq_lt_transitive(dir@, self.overrides@[p as int].0@, self.overrides@[i].0@);
                }
            }
        }
        p
    }

    /// Drops the override of directory `dir`; says whether there was one.
    pub fn remove_override(&mut self, dir: &str) -> (r: bool)
        requires
            old(self).wf(),
        ensures
            r == (override_of(old(self).overrides@, dir@) is Some),
            final(self).wf(),
            final(self).overrides@ == without_key(old(self).overrides@, dir@),
            override_of(final(self).overrides@, dir@) is None,
            final(self).default_toolchain == old(self).default_toolchain,
            final(self).version == old(self).version,
            final(self).telemetry == old(self).telemetry,
    {
        let ghost before = self.overrides@;
        let k = chars_of(dir);
        let mut kept: Vec<(String, ToolchainDesc)> = Vec::new();
        let mut found = false;
        let mut i: usize = 0;
        while i < self.overrides.len()
            invariant
                0 <= i <= self.overrides@.len(),
                self.overrides@ == before,
                k@ == dir@,
                kept@ == without_key(before.take(i as int), dir@),
                found == exists|j: int| 0 <= j < i && (#[trigger] before[j]).0@ == dir@,
            decreases self.overrides@.len() - i,
        {
            proof {
                assert(before.take(i + 1) =~= before.take(i as int).push(before[i as int]));
                before.take(i as int).lemma_filter_push(before[i as int], not_key(dir@));
            }
            let e = &self.overrides[i];
            if eq_chars(&chars_of(e.0.as_str()), &k) {
                found = true;
            } else {
                kept.push((e.0.clone(), e.1.duplicate()));
            }
            i = i + 1;
        }
        proof {
            assert(before.take(i as int) =~= before);
            let after = kept@;
            assert forall|j: int| 0 <= j < after.len() implies (#[trigger] after[j]).0@ != dir@ by {
                before.filter_lemma(not_key(dir@));
            }
            assert(keys_sorted(after)) by {
                assert forall|a: int, b: int| 0 <= a < b < after.len() implies seq_lt(
                    #[trigger] after[a].0@,
                    #[trigger] after[b].0@,
                ) by {
                    lemma_filter_keys_sorted(before, dir@, a, b);
                }
            }
            lemma_sorted_unique(after);
            if found {
                let j = choose|j: int| 0 <= j < i && (#[trigger] before[j]).0@ == dir@;
                assert(0 <= j < before.len() && before[j].0@ == dir@);
            }
        }
        self.overrides = kept;
        found
    }
}

proof fn lemma_filter_keys_sorted(o: Seq<(String, ToolchainDesc)>, key: Seq<char>, a: int, b: int)
    requires
        keys_sorted(o),
        0 <= a < b < without_key(o, key).len(),
    ensures
        seq_lt(without_key(o, key)[a].0@, without_key(o, key)[b].0@),
    decreases o.len(),
{
    let f = without_key(o, key);
    let pred = not_key(key);
    if o.len() > 0 {
        let init = o.drop_last();
        assert(o =~= init.push(o.last()));
        init.lemma_filter_push(o.last(), pred);
        assert(keys_sorted(init)) by {
            assert forall|x: int, y: int| 0 <= x < y < init.len() implies seq_lt(
                #[trigger] init[x].0@,
                #[trigger] init[y].0@,
            ) by {
                assert(o[x] == init[x] && o[y] == init[y]);
            }
        }
        let fi = without_key(init, key);
        if pred(o.last()) {
            assert(f == fi.push(o.last()));
            if b < fi.len() {
                lemma_filter_keys_sorted(init, key, a, b);
            } else {
                init.filter_lemma(pred);
                assert(fi.contains(fi[a]));
                init.lemma_filter_contains_rev(pred, fi[a]);
                let t = choose|t: int| 0 <= t < init.len() && init[t] == fi[a];
                assert(f[a] == fi[a]);
                assert(f[b] == o.last());
                assert(o[t] == init[t]);
                assert(o[o.len() - 1] == o.last());
                assert(seq_lt(o[t].0@, o[o.len() - 1].0@));
            }
        } else {
            assert(f == fi);
            lemma_filter_keys_sorted(init, key, a, b);
        }
    }
}

} // verus!
