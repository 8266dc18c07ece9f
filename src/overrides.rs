//! Which toolchain governs a directory: the environment, the override database, pin files,
//! package manifests, and toolchain directories themselves, walked from a directory upward.
use crate::config::{override_of, Cfg};
use crate::desc::{decode_dir, parse_desc, DescView, ToolchainDesc, UnresolvedToolchainDesc};
use crate::errors::ElanError;
use crate::resolve::{lookup_unresolved_toolchain_desc, unresolved_of};
use crate::text::{chars_of, first_line, first_line_chars, string_of, trim_chars, trimmed};
use vstd::prelude::*;

verus! {

/// Why a toolchain applies to a directory.
#[derive(Debug, Clone, PartialEq, Eq)]
pub enum OverrideReason {
    /// The environment names the toolchain.
    Environment,
    /// The override database pins this directory.
    OverrideDB(String),
    /// A pin file at this path names the toolchain.
    ToolchainFile(String),
    /// A package manifest at this path names the toolchain.
    LeanpkgFile(String),
    /// The directory is a toolchain's own installation directory.
    InToolchainDirectory(String),
}

pub enum ReasonView {
    Environment,
    OverrideDB(Seq<char>),
    ToolchainFile(Seq<char>),
    LeanpkgFile(Seq<char>),
    InToolchainDirectory(Seq<char>),
}

impl View for OverrideReason {
    type V = ReasonView;

    open spec fn view(&self) -> ReasonView {
        match self {
            OverrideReason::Environment => ReasonView::Environment,
            OverrideReason::OverrideDB(p) => ReasonView::OverrideDB(p@),
            OverrideReason::ToolchainFile(p) => ReasonView::ToolchainFile(p@),
            OverrideReason::LeanpkgFile(p) => ReasonView::LeanpkgFile(p@),
            OverrideReason::InToolchainDirectory(p) => ReasonView::InToolchainDirectory(p@),
        }
    }
}

impl OverrideReason {
    /// A line for the user saying why the toolchain applies.
    pub fn describe(&self) -> (r: String)
        ensures
            r@ == match self@ {
                ReasonView::Environment => "environment override by ELAN_TOOLCHAIN"@,
                ReasonView::OverrideDB(p) => "directory override for '"@ + p + "'"@,
                ReasonView::ToolchainFile(p) => "overridden by '"@ + p + "'"@,
                ReasonView::LeanpkgFile(p) => "overridden by '"@ + p + "'"@,
                ReasonView::InToolchainDirectory(p) => "override because inside toolchain directory '"@
                    + p + "'"@,
            },
    {
        match self {
            OverrideReason::Environment => "environment override by ELAN_TOOLCHAIN".to_owned(),
            OverrideReason::OverrideDB(p) => quoted("directory override for '", p),
            OverrideReason::ToolchainFile(p) => quoted("overridden by '", p),
            OverrideReason::LeanpkgFile(p) => quoted("overridden by '", p),
            OverrideReason::InToolchainDirectory(p) => quoted(
                "override because inside toolchain directory '",
                p,
            ),
        }
    }
}

fn quoted(head: &str, p: &String) -> (r: String)
    ensures
        r@ == head@ + p@ + "'"@,
{
    let a = crate::text::concat(&chars_of(head), &chars_of(p.as_str()));
    string_of(&crate::text::concat(&a, &chars_of("'")))
}

/// What a package manifest says of the toolchain.
#[derive(Debug, Clone, PartialEq, Eq)]
pub enum ManifestField {
    /// The manifest names no toolchain.
    Absent,
    /// The manifest names this toolchain.
    Version(String),
    /// The field holds a value of this other type.
    WrongType(String),
    /// The manifest is not valid TOML; the parser's message.
    Malformed(String),
}

/// The value of a [`ManifestField`].
pub enum FieldView {
    Absent,
    Version(Seq<char>),
    WrongType(Seq<char>),
    Malformed(Seq<char>),
}

impl View for ManifestField {
    type V = FieldView;

    open spec fn view(&self) -> FieldView {
        match self {
            ManifestField::Absent => FieldView::Absent,
            ManifestField::Version(s) => FieldView::Version(s@),
            ManifestField::WrongType(t) => FieldView::WrongType(t@),
            ManifestField::Malformed(m) => FieldView::Malformed(m@),
        }
    }
}

/// What the TOML document `text` holds at `table.key`.
pub uninterp spec fn toml_field(text: Seq<char>, table: Seq<char>, key: Seq<char>) -> FieldView;

/// Relies on the `toml` crate: parsing `text` as a `toml::Table` (its `FromStr`), looking
/// up `table` and then `key` with `get`, and `Value::type_str` for a value that is not a
/// string. The outcome depends on the three texts alone.
#[verifier::external_body]
fn toml_nested_field(text: &str, table: &str, key: &str) -> (r: ManifestField)
    ensures
        r@ == toml_field(text@, table@, key@),
{
    match text.parse::<toml::Table>() {
        Err(e) => ManifestField::Malformed(e.to_string()),
        Ok(doc) => match doc.get(table) {
            None => ManifestField::Absent,
            Some(t) => match t.get(key) {
                None => ManifestField::Absent,
                Some(toml::Value::String(s)) => ManifestField::Version(s.clone()),
                Some(v) => ManifestField::WrongType(v.type_str().to_owned()),
            },
        },
    }
}

/// What one directory of the walk holds.
#[derive(Debug, Clone, PartialEq, Eq)]
pub struct DirProbe {
    /// The directory, canonical.
    pub path: String,
    /// The path of the pin file in it.
    pub pin_path: String,
    /// The pin file's text, if it could be read.
    pub pin_text: Option<String>,
    /// The path of the package manifest in it.
    pub manifest_path: String,
    /// The package manifest's text, if it could be read.
    pub manifest: Option<String>,
    /// The directory above, if any.
    pub parent: Option<String>,
    /// The last component of the path, if it is text.
    pub file_name: Option<String>,
}

/// An override found for a directory.
#[derive(Debug, Clone, PartialEq, Eq)]
pub struct OverrideFound {
    pub desc: UnresolvedToolchainDesc,
    pub reason: OverrideReason,
    /// A directory seen with a pin file, to be recorded as a project root.
    pub project_root: Option<String>,
}

/// The outcome of looking at one directory, or at a whole walk.
pub enum WalkView {
    /// Nothing here: go on upward.
    Next,
    /// This descriptor applies, for this reason; perhaps with a project root to record.
    Found(DescView, ReasonView, Option<Seq<char>>),
    /// A file here is broken, with this failure.
    Fail(FailView),
}

/// Why a walk fails.
pub enum FailView {
    /// The package manifest at this path is not TOML; the parser's message.
    LeanpkgFile(Seq<char>, Seq<char>),
    /// The package manifest at this path holds a value of this type where a name belongs.
    LeanVersion(Seq<char>, Seq<char>),
    /// This text names no toolchain.
    InvalidName(Seq<char>),
}

/// The toolchain a directory's pin file names, if it has a readable, valid one.
pub open spec fn pin_of(cfg: Cfg, p: DirProbe) -> Option<DescView> {
    match p.pin_text {
        Some(t) => match first_line(t@) {
            Some(l) => unresolved_of(cfg, trimmed(l)),
            None => None,
        },
        None => None,
    }
}

/// What a package manifest's toolchain field decides.
pub open spec fn manifest_spec(cfg: Cfg, manifest_path: Seq<char>, f: FieldView) -> WalkView {
    match f {
        FieldView::Malformed(m) => WalkView::Fail(FailView::LeanpkgFile(manifest_path, m)),
        FieldView::WrongType(t) => WalkView::Fail(FailView::LeanVersion(manifest_path, t)),
        FieldView::Version(s) => match unresolved_of(cfg, s) {
            Some(d) => WalkView::Found(d, ReasonView::LeanpkgFile(manifest_path), None),
            None => WalkView::Fail(FailView::InvalidName(s)),
        },
        FieldView::Absent => WalkView::Next,
    }
}

/// What one directory decides: the override database first, then the pin file, then the
/// package manifest's `package.lean_version`, then whether the directory is itself an
/// installed toolchain.
pub open spec fn probe_spec(cfg: Cfg, p: DirProbe) -> WalkView {
    if let Some(d) = override_of(cfg.settings.overrides@, p.path@) {
        WalkView::Found(d, ReasonView::OverrideDB(p.path@), None)
    } else if let Some(d) = pin_of(cfg, p) {
        WalkView::Found(d, ReasonView::ToolchainFile(p.pin_path@), Some(p.path@))
    } else {
        let m = match p.manifest {
            Some(t) => manifest_spec(
                cfg,
                p.manifest_path@,
                toml_field(t@, "package"@, "lean_version"@),
            ),
            None => WalkView::Next,
        };
        match m {
            WalkView::Next => match (p.parent, p.file_name) {
                (Some(up), Some(f)) => if up@ == cfg.toolchains_dir@ {
                    match parse_desc(decode_dir(f@)) {
                        Some(d) => WalkView::Found(
                            d,
                            ReasonView::InToolchainDirectory(p.path@),
                            None,
                        ),
                        None => WalkView::Fail(FailView::InvalidName(decode_dir(f@))),
                    }
                } else {
                    WalkView::Next
                },
                _ => WalkView::Next,
            },
            other => other,
        }
    }
}

/// The walk from `probes[k]` upward: the first directory that decides.
pub open spec fn walk_spec(cfg: Cfg, probes: Seq<DirProbe>, k: int) -> WalkView
    decreases probes.len() - k,
{
    if k < 0 || k >= probes.len() {
        WalkView::Next
    } else {
        match probe_spec(cfg, probes[k]) {
            WalkView::Next => walk_spec(cfg, probes, k + 1),
            other => other,
        }
    }
}

/// How a result stands to the view of a walk.
pub open spec fn found_spec(w: WalkView, r: Result<Option<OverrideFound>, ElanError>) -> bool {
    match w {
        WalkView::Next => r matches Ok(None),
        WalkView::Found(d, why, root) => r matches Ok(Some(f)) && f.desc@ == d && f.reason@ == why
            && crate::desc::opt_view(f.project_root) == root,
        WalkView::Fail(f) => r is Err && fail_matches(f, r->Err_0),
    }
}

/// The error that reports a failure of the walk.
pub open spec fn fail_matches(f: FailView, e: ElanError) -> bool {
    match f {
        FailView::LeanpkgFile(p, m) => e matches ElanError::InvalidLeanpkgFile { path, message }
            && path@ == p && message@ == m,
        FailView::LeanVersion(p, t) => e matches ElanError::InvalidLeanVersion { path, found }
            && path@ == p && found@ == t,
        FailView::InvalidName(n) => e matches ElanError::InvalidToolchainName(m) && m@ == n,
    }
}

fn pin_desc(cfg: &Cfg, p: &DirProbe) -> (r: Option<UnresolvedToolchainDesc>)
    ensures
        match pin_of(*cfg, *p) {
            Some(v) => r is Some && r->Some_0@ == v,
            None => r is None,
        },
{
    match &p.pin_text {
        Some(t) => match first_line_chars(&chars_of(t.as_str())) {
            Some(l) => {
                let name = string_of(&trim_chars(&l));
                match lookup_unresolved_toolchain_desc(cfg, name.as_str()) {
                    Ok(u) => Some(u),
                    Err(_) => None,
                }
            },
            None => None,
        },
        None => None,
    }
}

/// What a package manifest at `manifest_path`, whose toolchain field is `field`, decides.
pub fn leanpkg_override(cfg: &Cfg, manifest_path: &str, field: &ManifestField) -> (r: Result<
    Option<OverrideFound>,
    ElanError,
>)
    ensures
        found_spec(manifest_spec(*cfg, manifest_path@, field@), r),
        r is Err ==> match field@ {
            FieldView::Malformed(m) => r matches Err(ElanError::InvalidLeanpkgFile { path, message })
                && path@ == manifest_path@ && message@ == m,
            FieldView::WrongType(t) => r matches Err(ElanError::InvalidLeanVersion { path, found })
                && path@ == manifest_path@ && found@ == t,
            _ => r matches Err(ElanError::InvalidToolchainName(_)),
        },
{
    match field {
        ManifestField::Malformed(m) => Err(
            ElanError::InvalidLeanpkgFile { path: manifest_path.to_owned(), message: m.clone() },
        ),
        ManifestField::WrongType(t) => Err(
            ElanError::InvalidLeanVersion { path: manifest_path.to_owned(), found: t.clone() },
        ),
        ManifestField::Version(s) => {
            let u = lookup_unresolved_toolchain_desc(cfg, s.as_str())?;
            Ok(
                Some(
                    OverrideFound {
                        desc: u,
                        reason: OverrideReason::LeanpkgFile(manifest_path.to_owned()),
                        project_root: None,
                    },
                ),
            )
        },
        ManifestField::Absent => Ok(None),
    }
}

fn probe(cfg: &Cfg, p: &DirProbe) -> (r: Result<Option<OverrideFound>, ElanError>)
    requires
        cfg.settings.wf(),
    ensures
        found_spec(probe_spec(*cfg, *p), r),
{
    if let Some(d) = cfg.settings.dir_override(p.path.as_str()) {
        return Ok(
            Some(
                OverrideFound {
                    desc: UnresolvedToolchainDesc(d),
                    reason: OverrideReason::OverrideDB(p.path.clone()),
                    project_root: None,
                },
            ),
        );
    }
    if let Some(u) = pin_desc(cfg, p) {
        return Ok(
            Some(
                OverrideFound {
                    desc: u,
                    reason: OverrideReason::ToolchainFile(p.pin_path.clone()),
                    project_root: Some(p.path.clone()),
                },
            ),
        );
    }
    if let Some(text) = &p.manifest {
        let field = toml_nested_field(text.as_str(), "package", "lean_version");
        let r = leanpkg_override(cfg, p.manifest_path.as_str(), &field);
        match r {
            Ok(None) => {},
            _ => {
                return r;
            },
        }
    }
    if let (Some(up), Some(f)) = (&p.parent, &p.file_name) {
        if *up == cfg.toolchains_dir {
            let d = ToolchainDesc::from_toolchain_dir(f.as_str())?;
            return Ok(
                Some(
                    OverrideFound {
                        desc: UnresolvedToolchainDesc(d),
                        reason: OverrideReason::InToolchainDirectory(p.path.clone()),
                        project_root: None,
                    },
                ),
            );
        }
    }
    Ok(None)
}

impl Cfg {
    /// Walks `probes` (a directory and then each directory above it) and returns the first
    /// override that one of them decides.
    pub fn find_override_from_dir_walk(&self, probes: &Vec<DirProbe>) -> (r: Result<
        Option<OverrideFound>,
        ElanError,
    >)
        requires
            self.settings.wf(),
        ensures
            found_spec(walk_spec(*self, probes@, 0), r),
    {
        let mut k: usize = 0;
        while k < probes.len()
            invariant
                0 <= k <= probes@.len(),
                self.settings.wf(),
                walk_spec(*self, probes@, 0) == walk_spec(*self, probes@, k as int),
            decreases probes@.len() - k,
        {
            let r = probe(self, &probes[k]);
            match r {
                Ok(None) => {},
                _ => {
                    return r;
                },
            }
            k = k + 1;
        }
        Ok(None)
    }

    /// The override that governs the directory the walk starts from: the environment's
    /// toolchain if one is named, otherwise the first that the walk finds.
    pub fn find_override(&self, probes: &Vec<DirProbe>) -> (r: Result<
        Option<OverrideFound>,
        ElanError,
    >)
        requires
            self.settings.wf(),
        ensures
            match self.env_override {
                Some(name) => match unresolved_of(*self, name@) {
                    Some(d) => r matches Ok(Some(f)) && f.desc@ == d && f.reason
                        == OverrideReason::Environment && f.project_root is None,
                    None => r matches Err(ElanError::InvalidToolchainName(m)) && m@ == name@,
                },
                None => found_spec(walk_spec(*self, probes@, 0), r),
            },
    {
        if let Some(name) = &self.env_override {
            let u = lookup_unresolved_toolchain_desc(self, name.as_str())?;
            return Ok(
                Some(OverrideFound { desc: u, reason: OverrideReason::Environment, project_root: None }),
            );
        }
        self.find_override_from_dir_walk(probes)
    }
}

/// The override database comes before a pin file in the same directory, and once the
/// directory's entry is removed from the database, the pin file's toolchain governs it.
pub proof fn lemma_override_precedence(
    cfg: Cfg,
    after: Cfg,
    probes: Seq<DirProbe>,
    k: int,
)
    requires
        cfg.settings.wf(),
        0 <= k < probes.len(),
        forall|j: int| 0 <= j < k ==> probe_spec(cfg, #[trigger] probes[j]) is Next,
        forall|j: int| 0 <= j < k ==> probe_spec(after, #[trigger] probes[j]) is Next,
        override_of(cfg.settings.overrides@, probes[k].path@) is Some,
        pin_of(cfg, probes[k]) is Some,
        after.settings.overrides@ == crate::config::without_key(
            cfg.settings.overrides@,
            probes[k].path@,
        ),
        after.installed == cfg.installed,
        after.toolchains_dir == cfg.toolchains_dir,
    ensures
        walk_spec(cfg, probes, 0) == WalkView::Found(
            override_of(cfg.settings.overrides@, probes[k].path@)->Some_0,
            ReasonView::OverrideDB(probes[k].path@),
            None,
        ),
        walk_spec(after, probes, 0) == WalkView::Found(
            pin_of(cfg, probes[k])->Some_0,
            ReasonView::ToolchainFile(probes[k].pin_path@),
            Some(probes[k].path@),
        ),
{
    lemma_walk_skips(cfg, probes, k);
    lemma_walk_skips(after, probes, k);
    lemma_removed_key_absent(cfg.settings.overrides@, probes[k].path@);
    assert(pin_of(after, probes[k]) == pin_of(cfg, probes[k]));
}

proof fn lemma_walk_skips(cfg: Cfg, probes: Seq<DirProbe>, k: int)
    requires
        0 <= k <= probes.len(),
        forall|j: int| 0 <= j < k ==> probe_spec(cfg, #[trigger] probes[j]) is Next,
    ensures
        walk_spec(cfg, probes, 0) == walk_spec(cfg, probes, k),
    decreases k,
{
    if k > 0 {
        lemma_walk_skips(cfg, probes, k - 1);
        assert(probe_spec(cfg, probes[k - 1]) is Next);
    }
}

proof fn lemma_removed_key_absent(o: Seq<(String, ToolchainDesc)>, key: Seq<char>)
    ensures
        override_of(crate::config::without_key(o, key), key) is None,
{
    let f = crate::config::without_key(o, key);
    o.filter_lemma(crate::config::not_key(key));
    assert forall|i: int| 0 <= i < f.len() implies (#[trigger] f[i]).0@ != key by {
        assert(crate::config::not_key(key)(f[i]));
    }
}

} // verus!
