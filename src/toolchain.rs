//! A toolchain as it stands in the toolchains directory, reading pin files, and choosing the
//! toolchain for a directory.
use crate::config::{Cfg, Settings};
use crate::desc::{display, encode_dir, DescView, ToolchainDesc, UnresolvedToolchainDesc};
use crate::errors::{error_text, ElanError};
use crate::manifestation::InstallPhase;
use crate::notifications::Notification;
use crate::overrides::{fail_matches, walk_spec, DirProbe, OverrideReason, ReasonView, WalkView};
use crate::resolve::{
    eq_chars, fetched_spec, lookup_toolchain_desc, lookup_unresolved_toolchain_desc,
    resolve_fetched, resolve_toolchain_desc, step_spec, unresolved_of, PendingFetch, Resolution,
};
use crate::text::{cat3, chars_of, concat, first_line, first_line_chars, string_of, trim_chars, trimmed};
use vstd::prelude::*;

verus! {

/// A toolchain and its place in the toolchains directory.
#[derive(Debug, Clone, PartialEq, Eq)]
pub struct Toolchain {
    pub desc: ToolchainDesc,
    path: String,
    present: bool,
    custom: bool,
}

/// The toolchains directory has an entry of this name.
pub open spec fn has_entry(cfg: Cfg, dir: Seq<char>) -> bool {
    exists|i: int| 0 <= i < cfg.installed@.len() && (#[trigger] cfg.installed@[i]).dir_name@ == dir
}

/// The toolchains directory has a linked entry of this name.
pub open spec fn has_linked_entry(cfg: Cfg, dir: Seq<char>) -> bool {
    exists|i: int|
        0 <= i < cfg.installed@.len() && (#[trigger] cfg.installed@[i]).dir_name@ == dir
            && cfg.installed@[i].is_custom
}

/// Where a toolchain is installed.
pub open spec fn toolchain_path(cfg: Cfg, d: DescView) -> Seq<char> {
    cfg.toolchains_dir@ + seq!['/'] + encode_dir(display(d))
}

impl Toolchain {
    pub closed spec fn spec_desc(&self) -> ToolchainDesc {
        self.desc
    }

    pub closed spec fn spec_path(&self) -> Seq<char> {
        self.path@
    }

    pub closed spec fn spec_exists(&self) -> bool {
        self.present
    }

    pub closed spec fn spec_custom(&self) -> bool {
        self.custom
    }

    /// The toolchain `desc`, looked up in the toolchains directory.
    pub fn from(cfg: &Cfg, desc: &ToolchainDesc) -> (r: Toolchain)
        ensures
            r.spec_desc() == *desc,
            r.spec_path() == toolchain_path(*cfg, desc@),
            r.spec_exists() == has_entry(*cfg, encode_dir(display(desc@))),
            r.spec_custom() == has_linked_entry(*cfg, encode_dir(display(desc@))),
    {
        let dir = desc.dir_name();
        let k = chars_of(dir.as_str());
        let mut base = chars_of(cfg.toolchains_dir.as_str());
        base.push('/');
        let path = string_of(&concat(&base, &k));
        let mut present = false;
        let mut custom = false;
        let mut i: usize = 0;
        while i < cfg.installed.len()
            invariant
                0 <= i <= cfg.installed@.len(),
                k@ == encode_dir(display(desc@)),
                present == exists|j: int|
                    0 <= j < i && (#[trigger] cfg.installed@[j]).dir_name@ == k@,
                custom == exists|j: int|
                    0 <= j < i && (#[trigger] cfg.installed@[j]).dir_name@ == k@
                        && cfg.installed@[j].is_custom,
            decreases cfg.installed@.len() - i,
        {
            if eq_chars(&chars_of(cfg.installed[i].dir_name.as_str()), &k) {
                present = true;
                if cfg.installed[i].is_custom {
                    custom = true;
                }
            }
            i = i + 1;
        }
        Toolchain { desc: desc.duplicate(), path, present, custom }
    }

    /// The toolchain's display name.
    pub fn name(&self) -> (r: String)
        ensures
            r@ == display(self.spec_desc()@),
    {
        self.desc.to_string()
    }

    /// The toolchain's installation directory.
    pub fn path(&self) -> (r: &str)
        ensures
            r@ == self.spec_path(),
    {
        self.path.as_str()
    }

    /// Whether the toolchain directory is there.
    pub fn is_installed(&self) -> (r: bool)
        ensures
            r == self.spec_exists(),
    {
        self.present
    }

    /// Whether the toolchain was linked rather than installed from a release.
    pub fn is_custom(&self) -> (r: bool)
        requires
            self.spec_exists(),
        ensures
            r == self.spec_custom(),
    {
        self.custom
    }

    /// Fails unless the toolchain is installed.
    pub fn verify(&self) -> (r: Result<(), ElanError>)
        ensures
            r is Ok <==> self.spec_exists(),
            r is Err ==> (r matches Err(ElanError::NotInstalled(p)) && p@ == self.spec_path()),
    {
        if self.present {
            Ok(())
        } else {
            Err(ElanError::NotInstalled(self.path.clone()))
        }
    }

    /// Where the toolchain's HTML documentation page `relative` lies.
    pub fn doc_path(&self, relative: &str) -> (r: Result<String, ElanError>)
        ensures
            self.spec_exists() ==> r is Ok && r->Ok_0@ == self.spec_path() + "/share/doc/lean/html/"@
                + relative@,
            !self.spec_exists() ==> (r matches Err(ElanError::NotInstalled(p)) && p@ == self.spec_path()),
    {
        self.verify()?;
        let a = concat(&chars_of(self.path.as_str()), &chars_of("/share/doc/lean/html/"));
        Ok(string_of(&concat(&a, &chars_of(relative))))
    }

    /// Starts an install from a release: an error if the toolchain is already installed,
    /// otherwise the first phase of the install protocol.
    pub fn install_from_dist(&self) -> (r: Result<InstallPhase, ElanError>)
        ensures
            self.spec_exists() ==> (r matches Err(ElanError::AlreadyInstalled(n)) && n@ == display(
                self.spec_desc()@,
            )),
            !self.spec_exists() ==> r == Ok::<InstallPhase, ElanError>(InstallPhase::Start),
    {
        if self.present {
            Err(ElanError::AlreadyInstalled(self.name()))
        } else {
            Ok(InstallPhase::Start)
        }
    }

    /// Starts an install from a release unless the toolchain is already there.
    pub fn install_from_dist_if_not_installed(&self) -> (r: Option<InstallPhase>)
        ensures
            self.spec_exists() ==> r is None,
            !self.spec_exists() ==> r == Some(InstallPhase::Start),
    {
        if self.present {
            None
        } else {
            Some(InstallPhase::Start)
        }
    }

    /// Whether removing the toolchain has a directory to delete, and what to tell the user:
    /// that it is being uninstalled, or that it was not installed (which is no error).
    pub fn remove(&self) -> (r: (bool, Notification))
        ensures
            r.0 == self.spec_exists(),
            r.1 == if self.spec_exists() {
                Notification::UninstallingToolchain(self.spec_desc())
            } else {
                Notification::ToolchainNotInstalled(self.spec_desc())
            },
    {
        if self.present {
            (true, Notification::UninstallingToolchain(self.desc.duplicate()))
        } else {
            (false, Notification::ToolchainNotInstalled(self.desc.duplicate()))
        }
    }

    /// Pins directory `dir` to this toolchain in the settings.
    pub fn make_override(&self, settings: &mut Settings, dir: &str)
        requires
            old(settings).wf(),
        ensures
            final(settings).wf(),
            crate::config::override_of(final(settings).overrides@, dir@) == Some(self.spec_desc()@),
            forall|k: Seq<char>|
                k != dir@ ==> crate::config::override_of(final(settings).overrides@, k)
                    == crate::config::override_of(old(settings).overrides@, k),
            final(settings).default_toolchain == old(settings).default_toolchain,
            final(settings).version == old(settings).version,
            final(settings).telemetry == old(settings).telemetry,
    {
        settings.add_override(dir, self.desc.duplicate());
    }
}

/// The toolchain a pin file's text names: its first line, trimmed.
pub open spec fn pin_text_spec(cfg: Cfg, text: Seq<char>) -> Option<Option<DescView>> {
    match first_line(text) {
        None => None,
        Some(l) => Some(unresolved_of(cfg, trimmed(l))),
    }
}

/// Reads the toolchain that the pin file at `toolchain_file`, whose text is `content`, names.
pub fn read_unresolved_toolchain_desc_from_file(
    cfg: &Cfg,
    toolchain_file: &str,
    content: &str,
) -> (r: Result<UnresolvedToolchainDesc, ElanError>)
    ensures
        match pin_text_spec(*cfg, content@) {
            None => r matches Err(ElanError::EmptyToolchainFile(p)) && p@ == toolchain_file@,
            Some(None) => r matches Err(ElanError::InvalidToolchainName(_)),
            Some(Some(v)) => r is Ok && r->Ok_0@ == v,
        },
{
    match first_line_chars(&chars_of(content)) {
        None => Err(ElanError::EmptyToolchainFile(toolchain_file.to_owned())),
        Some(l) => {
            let name = string_of(&trim_chars(&l));
            lookup_unresolved_toolchain_desc(cfg, name.as_str())
        },
    }
}

/// Reads a pin file and starts resolving the toolchain it names.
pub fn read_toolchain_desc_from_file(cfg: &Cfg, toolchain_file: &str, content: &str) -> (r: Result<
    Resolution,
    ElanError,
>)
    ensures
        match pin_text_spec(*cfg, content@) {
            None => r matches Err(ElanError::EmptyToolchainFile(p)) && p@ == toolchain_file@,
            Some(None) => r matches Err(ElanError::InvalidToolchainName(_)),
            Some(Some(v)) => step_spec(*cfg, v, false, true, 0, r),
        },
{
    let u = read_unresolved_toolchain_desc_from_file(cfg, toolchain_file, content)?;
    resolve_toolchain_desc(cfg, &u)
}

/// The toolchain chosen for a directory, and why.
#[derive(Debug, Clone, PartialEq, Eq)]
pub struct Selection {
    pub desc: UnresolvedToolchainDesc,
    /// The override that chose it; `None` when it is the default toolchain.
    pub reason: Option<OverrideReason>,
    /// A directory seen with a pin file, to be recorded as a project root.
    pub project_root: Option<String>,
}

/// How a selection stands to the override walk and the default toolchain.
pub open spec fn selection_spec(cfg: Cfg, probes: Seq<DirProbe>, r: Result<Option<Selection>, ElanError>) -> bool {
    match cfg.env_override {
        Some(name) => match unresolved_of(cfg, name@) {
            Some(d) => r matches Ok(Some(s)) && s.desc@ == d && s.reason == Some(
                OverrideReason::Environment,
            ) && s.project_root is None,
            None => r matches Err(ElanError::InvalidToolchainName(m)) && m@ == name@,
        },
        None => match walk_spec(cfg, probes, 0) {
            WalkView::Fail(f) => r is Err && fail_matches(f, r->Err_0),
            WalkView::Found(d, why, root) => r matches Ok(Some(s)) && s.desc@ == d && s.reason is Some
                && s.reason->Some_0@ == why && crate::desc::opt_view(s.project_root) == root,
            WalkView::Next => match cfg.settings.default_toolchain {
                None => r matches Ok(None),
                Some(name) => match unresolved_of(cfg, name@) {
                    Some(d) => r matches Ok(Some(s)) && s.desc@ == d && s.reason is None
                        && s.project_root is None,
                    None => r matches Err(ElanError::InvalidToolchainName(m)) && m@ == name@,
                },
            },
        },
    }
}

impl Cfg {
    /// Sets the default toolchain.
    pub fn set_default(&mut self, toolchain: &str)
        ensures
            crate::desc::opt_view(final(self).settings.default_toolchain) == Some(toolchain@),
            final(self).settings.overrides == old(self).settings.overrides,
            final(self).installed == old(self).installed,
            final(self).toolchains_dir == old(self).toolchains_dir,
            final(self).env_override == old(self).env_override,
    {
        self.settings.default_toolchain = Some(toolchain.to_owned());
    }

    /// The toolchain `desc` in this configuration's toolchains directory.
    pub fn get_toolchain(&self, desc: &ToolchainDesc) -> (r: Toolchain)
        ensures
            r.spec_desc() == *desc,
            r.spec_path() == toolchain_path(*self, desc@),
            r.spec_exists() == has_entry(*self, encode_dir(display(desc@))),
            r.spec_custom() == has_linked_entry(*self, encode_dir(display(desc@))),
    {
        Toolchain::from(self, desc)
    }

    /// Starts resolving the default toolchain, if one is set.
    pub fn resolve_default(&self) -> (r: Result<Option<Resolution>, ElanError>)
        ensures
            match self.settings.default_toolchain {
                None => r matches Ok(None),
                Some(name) => match unresolved_of(*self, name@) {
                    Some(v) => match r {
                        Ok(Some(x)) => step_spec(*self, v, false, true, 0, Ok(x)),
                        Ok(None) => false,
                        Err(e) => step_spec(*self, v, false, true, 0, Err(e)),
                    },
                    None => r matches Err(ElanError::InvalidToolchainName(_)),
                },
            },
    {
        match &self.settings.default_toolchain {
            None => Ok(None),
            Some(name) => {
                let x = lookup_toolchain_desc(self, name.as_str());
                match x {
                    Ok(x) => Ok(Some(x)),
                    Err(e) => Err(e),
                }
            },
        }
    }

    /// The toolchain chosen for the directory the probes start from: an override, or else
    /// the default toolchain, not yet resolved.
    pub fn select_toolchain(&self, probes: &Vec<DirProbe>) -> (r: Result<
        Option<Selection>,
        ElanError,
    >)
        requires
            self.settings.wf(),
        ensures
            selection_spec(*self, probes@, r),
    {
        match self.find_override(probes)? {
            Some(f) => Ok(
                Some(Selection { desc: f.desc, reason: Some(f.reason), project_root: f.project_root }),
            ),
            None => match &self.settings.default_toolchain {
                None => Ok(None),
                Some(name) => {
                    let u = lookup_unresolved_toolchain_desc(self, name.as_str())?;
                    Ok(Some(Selection { desc: u, reason: None, project_root: None }))
                },
            },
        }
    }

    fn after_resolution(&self, selection: Selection, res: Result<Resolution, ElanError>) -> (r: Result<
        ForDir,
        ElanError,
    >)
        ensures
            resolution_spec(*self, selection, res, r),
    {
        match res {
            Err(e) => Err(e),
            Ok(Resolution::Fetch(pending)) => Ok(ForDir::Resolving { selection, pending }),
            Ok(Resolution::Resolved(d)) => Ok(self.after_resolved(selection, d, false)),
            Ok(Resolution::Substituted(d)) => Ok(self.after_resolved(selection, d, true)),
        }
    }

    fn after_resolved(&self, selection: Selection, toolchain: ToolchainDesc, stale: bool) -> (r: ForDir)
        ensures
            resolved_spec(*self, selection, toolchain, stale, Ok(r)),
    {
        let present = Toolchain::from(self, &toolchain).is_installed();
        if selection.reason.is_some() && !present {
            ForDir::Installing { selection, toolchain, stale }
        } else {
            ForDir::Ready {
                toolchain,
                reason: selection.reason,
                project_root: selection.project_root,
                stale,
            }
        }
    }

    /// Finds the toolchain for the directory the probes start from: chooses an override or
    /// the default, then starts resolving it. An override's toolchain that is not installed
    /// is to be installed; the default's is not.
    pub fn find_override_toolchain_or_default(&self, probes: &Vec<DirProbe>) -> (r: Result<
        ForDir,
        ElanError,
    >)
        requires
            self.settings.wf(),
        ensures
            exists|sel: Result<Option<Selection>, ElanError>|
                selection_spec(*self, probes@, sel) && start_spec(*self, sel, r),
    {
        let sel = self.select_toolchain(probes);
        let ghost sel_g = sel;
        let r = match sel {
            Err(e) => Err(e),
            Ok(None) => Ok(ForDir::Nothing),
            Ok(Some(s)) => {
                let ghost s_g = s;
                let res = resolve_toolchain_desc(self, &s.desc);
                let ghost res_g = res;
                let r = self.after_resolution(s, res);
                assert(step_spec(*self, s_g.desc@, false, true, 0, res_g) && resolution_spec(
                    *self,
                    s_g,
                    res_g,
                    r,
                ));
                r
            },
        };
        assert(selection_spec(*self, probes@, sel_g) && start_spec(*self, sel_g, r));
        r
    }

    /// Goes on finding the toolchain for a directory once the fetch or the install that
    /// `state` asked for has come back. A failed install of an override's toolchain says which
    /// override asked for it.
    pub fn continue_for_dir(&self, state: ForDir, event: ForDirEvent) -> (r: Result<
        ForDir,
        ElanError,
    >)
        ensures
            for_dir_next(*self, state, event, r),
    {
        match (state, event) {
            (ForDir::Resolving { selection, pending }, ForDirEvent::Fetched(f)) => {
                let ghost s_g = selection;
                let res = resolve_fetched(self, &pending, false, true, f);
                let ghost res_g = res;
                let r = self.after_resolution(selection, res);
                assert(fetched_spec(*self, pending, false, true, f, res_g) && resolution_spec(
                    *self,
                    s_g,
                    res_g,
                    r,
                ));
                r
            },
            (ForDir::Installing { selection, toolchain, stale }, ForDirEvent::Installed(res)) => {
                match res {
                    Ok(()) => Ok(
                        ForDir::Ready {
                            toolchain,
                            reason: selection.reason,
                            project_root: selection.project_root,
                            stale,
                        },
                    ),
                    Err(e) => {
                        let context = match &selection.reason {
                            Some(why) => install_context(why),
                            None => String::new(),
                        };
                        Err(
                            ElanError::OverrideToolchainNotInstalled {
                                toolchain: toolchain.to_string(),
                                context,
                                cause: e.message(),
                            },
                        )
                    },
                }
            },
            (s, _) => Ok(s),
        }
    }

    /// As [`Cfg::find_override_toolchain_or_default`], failing when neither an override nor a
    /// default applies.
    pub fn toolchain_for_dir(&self, probes: &Vec<DirProbe>) -> (r: Result<ForDir, ElanError>)
        requires
            self.settings.wf(),
        ensures
            exists|sel: Result<Option<Selection>, ElanError>|
                selection_spec(*self, probes@, sel) && match sel {
                    Ok(None) => r == Err::<ForDir, ElanError>(ElanError::NoDefaultToolchain),
                    _ => start_spec(*self, sel, r),
                },
    {
        match self.find_override_toolchain_or_default(probes) {
            Ok(ForDir::Nothing) => Err(ElanError::NoDefaultToolchain),
            r => r,
        }
    }
}

/// Where finding the toolchain for a directory stands.
#[derive(Debug, Clone, PartialEq, Eq)]
pub enum ForDir {
    /// Nothing governs the directory.
    Nothing,
    /// The chosen toolchain is being resolved; this fetch is needed.
    Resolving { selection: Selection, pending: PendingFetch },
    /// The chosen toolchain is not installed: run the install protocol for it, then report.
    Installing { selection: Selection, toolchain: ToolchainDesc, stale: bool },
    /// The toolchain to use and why; `stale` when an installed release stands in for a
    /// channel that could not be queried.
    Ready {
        toolchain: ToolchainDesc,
        reason: Option<OverrideReason>,
        /// A directory seen with a pin file, to be recorded as a project root.
        project_root: Option<String>,
        stale: bool,
    },
}

/// What the outside world reports back while the toolchain for a directory is found.
#[derive(Debug, PartialEq, Eq)]
pub enum ForDirEvent {
    /// The outcome of the fetch a `Resolving` state asked for.
    Fetched(Result<String, String>),
    /// The outcome of the install an `Installing` state asked for.
    Installed(Result<(), ElanError>),
}

/// Once the toolchain is known: an override's toolchain that is not installed must be
/// installed; otherwise it is ready.
pub open spec fn resolved_spec(
    cfg: Cfg,
    selection: Selection,
    toolchain: ToolchainDesc,
    stale: bool,
    r: Result<ForDir, ElanError>,
) -> bool {
    if selection.reason is Some && !has_entry(cfg, encode_dir(display(toolchain@))) {
        r == Ok::<ForDir, ElanError>((ForDir::Installing { selection, toolchain, stale }))
    } else {
        r == Ok::<ForDir, ElanError>(
            (ForDir::Ready {
                toolchain,
                reason: selection.reason,
                project_root: selection.project_root,
                stale,
            }),
        )
    }
}

/// What a step of resolution leads to.
pub open spec fn resolution_spec(
    cfg: Cfg,
    selection: Selection,
    res: Result<Resolution, ElanError>,
    r: Result<ForDir, ElanError>,
) -> bool {
    match res {
        Err(e) => r == Err::<ForDir, ElanError>(e),
        Ok(Resolution::Fetch(pending)) => r == Ok::<ForDir, ElanError>(
            (ForDir::Resolving { selection, pending }),
        ),
        Ok(Resolution::Resolved(d)) => resolved_spec(cfg, selection, d, false, r),
        Ok(Resolution::Substituted(d)) => resolved_spec(cfg, selection, d, true, r),
    }
}

/// The first state once a toolchain is chosen: nothing, or the first step of resolving it.
pub open spec fn start_spec(
    cfg: Cfg,
    sel: Result<Option<Selection>, ElanError>,
    r: Result<ForDir, ElanError>,
) -> bool {
    match sel {
        Err(e) => r == Err::<ForDir, ElanError>(e),
        Ok(None) => r == Ok::<ForDir, ElanError>(ForDir::Nothing),
        Ok(Some(s)) => exists|res: Result<Resolution, ElanError>|
            step_spec(cfg, s.desc@, false, true, 0, res) && resolution_spec(cfg, s, res, r),
    }
}

/// Why an override's toolchain was wanted, told when it could not be installed.
pub open spec fn install_context_text(why: ReasonView) -> Seq<char> {
    match why {
        ReasonView::Environment =>
            "the ELAN_TOOLCHAIN environment variable specifies an uninstalled toolchain"@,
        ReasonView::OverrideDB(p) => "the directory override for '"@ + p
            + "' specifies an uninstalled toolchain"@,
        ReasonView::ToolchainFile(p) => "the toolchain file at '"@ + p
            + "' specifies an uninstalled toolchain"@,
        ReasonView::LeanpkgFile(p) => "the leanpkg.toml file at '"@ + p
            + "' specifies an uninstalled toolchain"@,
        ReasonView::InToolchainDirectory(p) => "could not parse toolchain directory at '"@ + p
            + "'"@,
    }
}

fn install_context(why: &OverrideReason) -> (r: String)
    ensures
        r@ == install_context_text(why@),
{
    match why {
        OverrideReason::Environment =>
            "the ELAN_TOOLCHAIN environment variable specifies an uninstalled toolchain".to_owned(),
        OverrideReason::OverrideDB(p) => cat3(
            "the directory override for '",
            p.as_str(),
            "' specifies an uninstalled toolchain",
        ),
        OverrideReason::ToolchainFile(p) => cat3(
            "the toolchain file at '",
            p.as_str(),
            "' specifies an uninstalled toolchain",
        ),
        OverrideReason::LeanpkgFile(p) => cat3(
            "the leanpkg.toml file at '",
            p.as_str(),
            "' specifies an uninstalled toolchain",
        ),
        OverrideReason::InToolchainDirectory(p) => cat3(
            "could not parse toolchain directory at '",
            p.as_str(),
            "'",
        ),
    }
}

/// How finding the toolchain for a directory goes on after an event.
pub open spec fn for_dir_next(
    cfg: Cfg,
    state: ForDir,
    event: ForDirEvent,
    r: Result<ForDir, ElanError>,
) -> bool {
    match (state, event) {
        (ForDir::Resolving { selection, pending }, ForDirEvent::Fetched(f)) => exists|
            res: Result<Resolution, ElanError>,
        | fetched_spec(cfg, pending, false, true, f, res) && resolution_spec(cfg, selection, res, r),
        (ForDir::Installing { selection, toolchain, stale }, ForDirEvent::Installed(res)) => match res {
            Ok(()) => r == Ok::<ForDir, ElanError>(
                (ForDir::Ready {
                    toolchain,
                    reason: selection.reason,
                    project_root: selection.project_root,
                    stale,
                }),
            ),
            Err(e) => r matches Err(ElanError::OverrideToolchainNotInstalled { toolchain: t, context, cause })
                && t@ == display(toolchain@) && context@ == match selection.reason {
                Some(why) => install_context_text(why@),
                None => Seq::empty(),
            } && cause@ == error_text(e),
        },
        (s, _) => r == Ok::<ForDir, ElanError>(s),
    }
}

/// How a toolchain is labelled in a listing: marked when it is the default.
pub open spec fn label_spec(tc: DescView, default_tc: Option<Seq<char>>, resolved: Option<DescView>) -> Seq<char> {
    match resolved {
        Some(d) => if display(d) == display(tc) {
            if Some(display(d)) == default_tc {
                display(tc) + " (default)"@
            } else {
                display(tc) + " (resolved from default '"@ + default_tc.unwrap() + "')"@
            }
        } else {
            display(tc)
        },
        None => display(tc),
    }
}

/// The label of a toolchain in a listing, given the default's name and what it resolved to.
pub fn mk_toolchain_label(
    tc: &ToolchainDesc,
    default_tc: &Option<String>,
    resolved_default_tc: &Option<ToolchainDesc>,
) -> (r: String)
    requires
        resolved_default_tc is Some ==> default_tc is Some,
    ensures
        r@ == label_spec(tc@, crate::desc::opt_view(*default_tc), match resolved_default_tc {
            Some(d) => Some(d@),
            None => None,
        }),
{
    let name = chars_of(tc.to_string().as_str());
    match resolved_default_tc {
        Some(d) => {
            let dn = chars_of(d.to_string().as_str());
            if eq_chars(&dn, &name) {
                let dflt = default_tc.as_ref().unwrap();
                if eq_chars(&dn, &chars_of(dflt.as_str())) {
                    string_of(&concat(&name, &chars_of(" (default)")))
                } else {
                    let a = concat(&name, &chars_of(" (resolved from default '"));
                    let b = concat(&a, &chars_of(dflt.as_str()));
                    string_of(&concat(&b, &chars_of("')")))
                }
            } else {
                string_of(&name)
            }
        },
        None => string_of(&name),
    }
}

/// A path as shown to users: without the `\\?\` prefix of verbatim Windows paths.
pub open spec fn display_path(p: Seq<char>) -> Seq<char> {
    if crate::text::contains_seq(p, seq!['\\', '\\', '?', '\\']) {
        p.skip(4)
    } else {
        p
    }
}

/// A path as shown to users: without the `\\?\` prefix of verbatim Windows paths.
pub fn format_path_for_display(path: &str) -> (r: String)
    ensures
        r@ == display_path(path@),
{
    let s = chars_of(path);
    let unc = vec!['\\', '\\', '?', '\\'];
    assert(unc@ =~= seq!['\\', '\\', '?', '\\']);
    if crate::text::contains(&s, &unc) {
        proof {
            let at = choose|at: int| crate::text::occurs_at(s@, at, unc@);
            assert(s@.len() >= 4);
        }
        string_of(&crate::desc::slice_chars(&s, 4, s.len()))
    } else {
        string_of(&s)
    }
}

/// The version a self-update would bring, if it differs from the running one: the latest
/// release tag without its leading `v`.
pub fn check_self_update(latest_tag: &str, current_version: &str) -> (r: Option<String>)
    requires
        latest_tag@.len() > 0,
    ensures
        latest_tag@.skip(1) == current_version@ ==> r is None,
        latest_tag@.skip(1) != current_version@ ==> r is Some && r->Some_0@ == latest_tag@.skip(1),
{
    let t = chars_of(latest_tag);
    let available = crate::desc::slice_chars(&t, 1, t.len());
    assert(available@ =~= latest_tag@.skip(1));
    if eq_chars(&available, &chars_of(current_version)) {
        None
    } else {
        Some(string_of(&available))
    }
}

} // verus!
