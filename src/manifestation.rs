//! Installing a release: which archive fits this platform, how it is unpacked, and the
//! protocol that takes the lock, unpacks into a staging directory and promotes it at once.
use crate::errors::ElanError;
use crate::resolve::eq_chars;
use crate::text::{chars_of, concat, contains, contains_seq, ends_with, has_suffix, matches_at, occurs_at, string_of};
use vstd::prelude::*;

verus! {

/// Operating systems that releases are built for.
#[derive(Debug, Clone, Copy, PartialEq, Eq)]
pub enum TargetOs {
    Windows,
    Linux,
    MacOs,
    Other,
}

/// Processor architectures that releases are built for.
#[derive(Debug, Clone, Copy, PartialEq, Eq)]
pub enum TargetArch {
    X86_64,
    Aarch64,
    Other,
}

/// The platform's name in release archive names.
pub open spec fn target_name(os: TargetOs, arch: TargetArch) -> Option<Seq<char>> {
    let base = match os {
        TargetOs::Windows => Some("windows"@),
        TargetOs::Linux => Some("linux"@),
        TargetOs::MacOs => Some("darwin"@),
        TargetOs::Other => None,
    };
    match (base, arch) {
        (Some(b), TargetArch::X86_64) => Some(b),
        (Some(b), TargetArch::Aarch64) => Some(b + "_aarch64"@),
        _ => None,
    }
}

/// The platform's name in release archive names: `linux`, `darwin_aarch64`, ...
pub fn informal_target(os: TargetOs, arch: TargetArch) -> (r: Result<String, ElanError>)
    ensures
        match target_name(os, arch) {
            Some(t) => r is Ok && r->Ok_0@ == t,
            None => r matches Err(ElanError::UnsupportedPlatform),
        },
{
    let base = match os {
        TargetOs::Windows => "windows",
        TargetOs::Linux => "linux",
        TargetOs::MacOs => "darwin",
        TargetOs::Other => {
            return Err(ElanError::UnsupportedPlatform);
        },
    };
    match arch {
        TargetArch::X86_64 => Ok(base.to_owned()),
        TargetArch::Aarch64 => Ok(string_of(&concat(&chars_of(base), &chars_of("_aarch64")))),
        TargetArch::Other => Err(ElanError::UnsupportedPlatform),
    }
}

/// What an archive name must hold for the platform: its name and a dot, so that `linux.`
/// does not match `linux_aarch64.`.
pub open spec fn name_marker(target: Seq<char>) -> Seq<char> {
    target + seq!['.']
}

/// An archive of a release as the release feed lists it.
#[derive(Debug, Clone, PartialEq, Eq)]
pub struct AssetInfo {
    /// The archive's file name, when the feed gives one as text.
    pub name: Option<String>,
    pub browser_download_url: String,
}

/// A release as the release feed lists it.
#[derive(Debug, Clone, PartialEq, Eq)]
pub struct ReleaseInfo {
    pub name: String,
    pub assets: Vec<AssetInfo>,
}

/// The first asset whose name holds `marker`.
pub open spec fn asset_index(assets: Seq<AssetInfo>, marker: Seq<char>, i: int) -> bool {
    0 <= i < assets.len() && (match assets[i].name {
        Some(n) => contains_seq(n@, marker),
        None => false,
    }) && forall|j: int|
        0 <= j < i ==> !(match (#[trigger] assets[j]).name {
            Some(n) => contains_seq(n@, marker),
            None => false,
        })
}

/// The first release of the feed called `name`.
pub open spec fn release_index(releases: Seq<ReleaseInfo>, name: Seq<char>, i: int) -> bool {
    0 <= i < releases.len() && releases[i].name@ == name && forall|j: int|
        0 <= j < i ==> (#[trigger] releases[j]).name@ != name
}

/// The download address of `release`'s archive for `target`, from the release feed (every
/// channel's releases, in the feed's order).
pub fn asset_url_from_feed(releases: &Vec<ReleaseInfo>, release: &str, target: &str) -> (r: Result<
    String,
    ElanError,
>)
    ensures
        (exists|i: int| release_index(releases@, release@, i)) || (r matches Err(
            ElanError::NoSuchRelease(m),
        ) && m@ == release@),
        forall|i: int|
            release_index(releases@, release@, i) ==> match r {
                Ok(u) => exists|a: int|
                    asset_index(releases@[i].assets@, name_marker(target@), a) && u@
                        == releases@[i].assets@[a].browser_download_url@,
                Err(e) => (e matches ElanError::AssetNotFoundForPlatform(t) && t@ == target@)
                    && forall|a: int| !asset_index(releases@[i].assets@, name_marker(target@), a),
            },
{
    let want = chars_of(release);
    let mut marker = chars_of(target);
    marker.push('.');
    assert(marker@ =~= name_marker(target@));
    let mut i: usize = 0;
    while i < releases.len()
        invariant
            0 <= i <= releases@.len(),
            want@ == release@,
            marker@ == name_marker(target@),
            forall|j: int| 0 <= j < i ==> (#[trigger] releases@[j]).name@ != release@,
        decreases releases@.len() - i,
    {
        if eq_chars(&chars_of(releases[i].name.as_str()), &want) {
            proof {
                assert(release_index(releases@, release@, i as int));
                assert forall|k: int| release_index(releases@, release@, k) implies k == i by {
                    if k > i {
                        assert(releases@[i as int].name@ != release@);
                    }
                }
            }
            let assets = &releases[i].assets;
            let mut a: usize = 0;
            while a < assets.len()
                invariant
                    0 <= a <= assets@.len(),
                    i < releases@.len(),
                    *assets == releases@[i as int].assets,
                    release_index(releases@, release@, i as int),
                    forall|k: int| release_index(releases@, release@, k) ==> k == i,
                    marker@ == name_marker(target@),
                    forall|j: int|
                        0 <= j < a ==> !(match (#[trigger] assets@[j]).name {
                            Some(n) => contains_seq(n@, name_marker(target@)),
                            None => false,
                        }),
                decreases assets@.len() - a,
            {
                let hit = match &assets[a].name {
                    Some(n) => contains(&chars_of(n.as_str()), &marker),
                    None => false,
                };
                if hit {
                    proof {
                        assert(asset_index(assets@, name_marker(target@), a as int));
                    }
                    return Ok(assets[a].browser_download_url.clone());
                }
                a = a + 1;
            }
            proof {
                assert forall|b: int| !asset_index(assets@, name_marker(target@), b) by {
                    if 0 <= b < assets@.len() && asset_index(assets@, name_marker(target@), b) {
                        assert(!(match assets@[b].name {
                            Some(n) => contains_seq(n@, name_marker(target@)),
                            None => false,
                        }));
                    }
                }
            }
            return Err(ElanError::AssetNotFoundForPlatform(target.to_owned()));
        }
        i = i + 1;
    }
    Err(ElanError::NoSuchRelease(release.to_owned()))
}

/// The page that lists a release's archives, for origins without a release feed.
pub fn release_page_url(origin: &str, release: &str) -> (r: String)
    ensures
        r@ == "https://github.com/"@ + origin@ + "/releases/expanded_assets/"@ + release@,
{
    let a = concat(&chars_of("https://github.com/"), &chars_of(origin));
    let b = concat(&a, &chars_of("/releases/expanded_assets/"));
    string_of(&concat(&b, &chars_of(release)))
}

/// How download links of `origin` begin on a release page.
pub open spec fn link_prefix(origin: Seq<char>) -> Seq<char> {
    seq!['/'] + origin + "/releases/download/"@
}

/// The end of a link that starts its tail at `j`: the next `"` or the end of the page.
pub open spec fn quote_end(s: Seq<char>, j: int) -> int
    decreases s.len() - j,
{
    if j < 0 || j >= s.len() || s[j] == '"' {
        j
    } else {
        quote_end(s, j + 1)
    }
}

/// A download link starts at `i`: the prefix, then at least one character other than `"`.
pub open spec fn link_at(s: Seq<char>, p: Seq<char>, i: int) -> bool {
    occurs_at(s, i, p) && i + p.len() < s.len() && s[i + p.len()] != '"'
}

/// The first link at or after `i` (links found left to right, none overlapping) whose text
/// holds `marker`.
pub open spec fn first_asset_link(s: Seq<char>, p: Seq<char>, marker: Seq<char>, i: int) -> Option<
    Seq<char>,
>
    decreases s.len() - i,
{
    if i < 0 || i >= s.len() {
        None
    } else if link_at(s, p, i) {
        let e = quote_end(s, i + p.len());
        if contains_seq(s.subrange(i, e), marker) {
            Some(s.subrange(i, e))
        } else if i < e <= s.len() {
            first_asset_link(s, p, marker, e)
        } else {
            None
        }
    } else {
        first_asset_link(s, p, marker, i + 1)
    }
}

proof fn lemma_quote_end_bounds(s: Seq<char>, j: int)
    requires
        0 <= j <= s.len(),
    ensures
        j <= quote_end(s, j) <= s.len(),
    decreases s.len() - j,
{
    if j < s.len() && s[j] != '"' {
        lemma_quote_end_bounds(s, j + 1);
    }
}

fn quote_end_from(s: &Vec<char>, from: usize) -> (r: usize)
    requires
        from <= s@.len(),
    ensures
        r == quote_end(s@, from as int),
        from <= r <= s@.len(),
{
    let n = s.len();
    let mut e = from;
    while e < n && s[e] != '"'
        invariant
            from <= e <= n == s@.len(),
            quote_end(s@, from as int) == quote_end(s@, e as int),
        decreases n - e,
    {
        e = e + 1;
    }
    e
}

/// The download address of the archive for `target` on a release page of `origin`.
pub fn asset_url_from_page(page: &str, origin: &str, target: &str) -> (r: Result<
    String,
    ElanError,
>)
    ensures
        match first_asset_link(page@, link_prefix(origin@), name_marker(target@), 0) {
            Some(l) => r is Ok && r->Ok_0@ == "https://github.com"@ + l,
            None => r matches Err(ElanError::AssetNotFoundForPlatform(t)) && t@ == target@,
        },
{
    let s = chars_of(page);
    let n = s.len();
    let mut p = vec!['/'];
    p = concat(&p, &chars_of(origin));
    p = concat(&p, &chars_of("/releases/download/"));
    assert(p@ =~= link_prefix(origin@));
    let mut marker = chars_of(target);
    marker.push('.');
    assert(marker@ =~= name_marker(target@));
    let mut i: usize = 0;
    while i < n
        invariant
            0 <= i <= n == s@.len(),
            s@ == page@,
            p@ == link_prefix(origin@),
            marker@ == name_marker(target@),
            first_asset_link(s@, p@, marker@, 0) == first_asset_link(s@, p@, marker@, i as int),
        decreases n - i,
    {
        if matches_at(&s, i, &p) && n - i > p.len() && s[i + p.len()] != '"' {
            let e = quote_end_from(&s, i + p.len());
            proof {
                lemma_quote_end_bounds(s@, i + p@.len());
            }
            let link = crate::desc::slice_chars(&s, i, e);
            proof {
                assert(link_at(s@, p@, i as int));
                assert(link@ == s@.subrange(i as int, e as int));
            }
            if contains(&link, &marker) {
                assert(first_asset_link(s@, p@, marker@, i as int) == Some(link@));
                let full = concat(&chars_of("https://github.com"), &link);
                return Ok(string_of(&full));
            }
            i = e;
        } else {
            i = i + 1;
        }
    }
    Err(ElanError::AssetNotFoundForPlatform(target.to_owned()))
}

/// The archive formats a release may come in.
#[derive(Debug, Clone, Copy, PartialEq, Eq)]
pub enum ArchiveKind {
    TarGz,
    TarZst,
    Zip,
}

/// The archive format named by the end of `url`.
pub open spec fn archive_kind_of(url: Seq<char>) -> Option<ArchiveKind> {
    if has_suffix(url, ".tar.gz"@) {
        Some(ArchiveKind::TarGz)
    } else if has_suffix(url, ".tar.zst"@) {
        Some(ArchiveKind::TarZst)
    } else if has_suffix(url, ".zip"@) {
        Some(ArchiveKind::Zip)
    } else {
        None
    }
}

/// How the archive at `url` is unpacked.
pub fn archive_kind(url: &str) -> (r: Result<ArchiveKind, ElanError>)
    ensures
        match archive_kind_of(url@) {
            Some(k) => r == Ok::<ArchiveKind, ElanError>(k),
            None => r matches Err(ElanError::ArchiveFormatUnsupported(u)) && u@ == url@,
        },
{
    let s = chars_of(url);
    if ends_with(&s, &chars_of(".tar.gz")) {
        Ok(ArchiveKind::TarGz)
    } else if ends_with(&s, &chars_of(".tar.zst")) {
        Ok(ArchiveKind::TarZst)
    } else if ends_with(&s, &chars_of(".zip")) {
        Ok(ArchiveKind::Zip)
    } else {
        Err(ElanError::ArchiveFormatUnsupported(url.to_owned()))
    }
}

} // verus!

verus! {

/// Where an install of one toolchain stands.
#[derive(Debug, PartialEq, Eq)]
pub enum InstallPhase {
    /// Nothing done yet.
    Start,
    /// Trying to take the install lock; `notified` once the user was told who holds it.
    Locking { notified: bool },
    /// The lock is held; checking whether the toolchain directory is there.
    CheckingRoot,
    /// Finding and downloading the archive.
    Fetching,
    /// Checking for a staging directory left by an interrupted install.
    CheckingStaging,
    /// Removing that stale staging directory.
    RemovingStaging,
    /// Creating an empty staging directory.
    CreatingStaging,
    /// Unpacking the archive into the staging directory.
    Unpacking,
    /// Renaming the staging directory onto the toolchain directory.
    Promoting,
    /// Removing the lock file; the install then ends with `outcome`.
    Releasing { outcome: Result<(), ElanError> },
    /// The install is over.
    Finished,
}

/// What the outside world reports back.
#[derive(Debug, PartialEq, Eq)]
pub enum InstallEvent {
    /// The install is asked for.
    Begin,
    /// An attempt at the lock; `holder` is what the lock file says of its owner.
    LockTried { acquired: bool, holder: String },
    /// Whether the toolchain directory is there.
    RootProbed { is_dir: bool },
    /// The archive was found and downloaded, or not.
    ArchiveFetched(Result<(), ElanError>),
    /// Whether a staging directory is there.
    StagingProbed { is_dir: bool },
    /// The last filesystem step (remove, create, unpack, rename) finished.
    StepDone(Result<(), ElanError>),
    /// The lock file is gone.
    LockReleased,
}

/// What to do next.
#[derive(Debug, PartialEq, Eq)]
pub enum InstallAction {
    /// Try to take the lock without blocking.
    TryLock,
    /// Tell the user who holds the lock (when `holder` is given), wait the poll interval,
    /// then try again.
    WaitForLock { holder: Option<String> },
    /// Check whether the toolchain directory is there.
    ProbeRoot,
    /// Find the archive for this platform and download it.
    FetchArchive,
    /// Check whether a staging directory is there.
    ProbeStaging,
    /// Remove the staging directory.
    RemoveStaging,
    /// Create the staging directory.
    CreateStaging,
    /// Unpack the archive into the staging directory.
    Unpack,
    /// Rename the staging directory onto the toolchain directory.
    Promote,
    /// Remove the lock file.
    ReleaseLock,
    /// The install is over, with this result.
    Finish(Result<(), ElanError>),
    /// The event does not fit the phase; nothing changes.
    Ignore,
}

/// The install protocol: the phase and action that follow an event.
pub open spec fn install_next(phase: InstallPhase, event: InstallEvent) -> (InstallPhase, InstallAction) {
    match (phase, event) {
        (InstallPhase::Start, InstallEvent::Begin) => (
            InstallPhase::Locking { notified: false },
            InstallAction::TryLock,
        ),
        (InstallPhase::Locking { notified }, InstallEvent::LockTried { acquired, holder }) => if acquired {
            (InstallPhase::CheckingRoot, InstallAction::ProbeRoot)
        } else {
            (
                InstallPhase::Locking { notified: true },
                InstallAction::WaitForLock {
                    holder: if notified {
                        None
                    } else {
                        Some(holder)
                    },
                },
            )
        },
        (InstallPhase::CheckingRoot, InstallEvent::RootProbed { is_dir }) => if is_dir {
            (InstallPhase::Releasing { outcome: Ok(()) }, InstallAction::ReleaseLock)
        } else {
            (InstallPhase::Fetching, InstallAction::FetchArchive)
        },
        (InstallPhase::Fetching, InstallEvent::ArchiveFetched(res)) => match res {
            Ok(()) => (InstallPhase::CheckingStaging, InstallAction::ProbeStaging),
            Err(e) => (InstallPhase::Releasing { outcome: Err(e) }, InstallAction::ReleaseLock),
        },
        (InstallPhase::CheckingStaging, InstallEvent::StagingProbed { is_dir }) => if is_dir {
            (InstallPhase::RemovingStaging, InstallAction::RemoveStaging)
        } else {
            (InstallPhase::CreatingStaging, InstallAction::CreateStaging)
        },
        (InstallPhase::RemovingStaging, InstallEvent::StepDone(res)) => match res {
            Ok(()) => (InstallPhase::CreatingStaging, InstallAction::CreateStaging),
            Err(e) => (InstallPhase::Releasing { outcome: Err(e) }, InstallAction::ReleaseLock),
        },
        (InstallPhase::CreatingStaging, InstallEvent::StepDone(res)) => match res {
            Ok(()) => (InstallPhase::Unpacking, InstallAction::Unpack),
            Err(e) => (InstallPhase::Releasing { outcome: Err(e) }, InstallAction::ReleaseLock),
        },
        (InstallPhase::Unpacking, InstallEvent::StepDone(res)) => match res {
            Ok(()) => (InstallPhase::Promoting, InstallAction::Promote),
            Err(e) => (InstallPhase::Releasing { outcome: Err(e) }, InstallAction::ReleaseLock),
        },
        (InstallPhase::Promoting, InstallEvent::StepDone(res)) => (
            InstallPhase::Releasing { outcome: res },
            InstallAction::ReleaseLock,
        ),
        (InstallPhase::Releasing { outcome }, InstallEvent::LockReleased) => (
            InstallPhase::Finished,
            InstallAction::Finish(outcome),
        ),
        (p, _) => (p, InstallAction::Ignore),
    }
}

/// Advances the install protocol by one event.
pub fn install_step(phase: InstallPhase, event: InstallEvent) -> (r: (InstallPhase, InstallAction))
    ensures
        r == install_next(phase, event),
{
    match (phase, event) {
        (InstallPhase::Start, InstallEvent::Begin) => (
            InstallPhase::Locking { notified: false },
            InstallAction::TryLock,
        ),
        (InstallPhase::Locking { notified }, InstallEvent::LockTried { acquired, holder }) => if acquired {
            (InstallPhase::CheckingRoot, InstallAction::ProbeRoot)
        } else {
            (
                InstallPhase::Locking { notified: true },
                InstallAction::WaitForLock {
                    holder: if notified {
                        None
                    } else {
                        Some(holder)
                    },
                },
            )
        },
        (InstallPhase::CheckingRoot, InstallEvent::RootProbed { is_dir }) => if is_dir {
            (InstallPhase::Releasing { outcome: Ok(()) }, InstallAction::ReleaseLock)
        } else {
            (InstallPhase::Fetching, InstallAction::FetchArchive)
        },
        (InstallPhase::Fetching, InstallEvent::ArchiveFetched(res)) => match res {
            Ok(()) => (InstallPhase::CheckingStaging, InstallAction::ProbeStaging),
            Err(e) => (InstallPhase::Releasing { outcome: Err(e) }, InstallAction::ReleaseLock),
        },
        (InstallPhase::CheckingStaging, InstallEvent::StagingProbed { is_dir }) => if is_dir {
            (InstallPhase::RemovingStaging, InstallAction::RemoveStaging)
        } else {
            (InstallPhase::CreatingStaging, InstallAction::CreateStaging)
        },
        (InstallPhase::RemovingStaging, InstallEvent::StepDone(res)) => match res {
            Ok(()) => (InstallPhase::CreatingStaging, InstallAction::CreateStaging),
            Err(e) => (InstallPhase::Releasing { outcome: Err(e) }, InstallAction::ReleaseLock),
        },
        (InstallPhase::CreatingStaging, InstallEvent::StepDone(res)) => match res {
            Ok(()) => (InstallPhase::Unpacking, InstallAction::Unpack),
            Err(e) => (InstallPhase::Releasing { outcome: Err(e) }, InstallAction::ReleaseLock),
        },
        (InstallPhase::Unpacking, InstallEvent::StepDone(res)) => match res {
            Ok(()) => (InstallPhase::Promoting, InstallAction::Promote),
            Err(e) => (InstallPhase::Releasing { outcome: Err(e) }, InstallAction::ReleaseLock),
        },
        (InstallPhase::Promoting, InstallEvent::StepDone(res)) => (
            InstallPhase::Releasing { outcome: res },
            InstallAction::ReleaseLock,
        ),
        (InstallPhase::Releasing { outcome }, InstallEvent::LockReleased) => (
            InstallPhase::Finished,
            InstallAction::Finish(outcome),
        ),
        (p, _) => (p, InstallAction::Ignore),
    }
}

/// The phases in which this process holds the install lock.
pub open spec fn holds_lock(p: InstallPhase) -> bool {
    !(p is Start || p is Locking || p is Finished)
}

/// Actions that look at or change the toolchain's directories.
pub open spec fn touches_toolchain(a: InstallAction) -> bool {
    a is ProbeRoot || a is FetchArchive || a is ProbeStaging || a is RemoveStaging
        || a is CreateStaging || a is Unpack || a is Promote
}

/// Mutual exclusion: every step that looks at or changes the toolchain's directories is taken
/// while the lock is held, and the lock is only ever held after an attempt that acquired it.
pub proof fn lemma_install_exclusive(phase: InstallPhase, event: InstallEvent)
    ensures
        touches_toolchain(install_next(phase, event).1) ==> holds_lock(install_next(phase, event).0),
        holds_lock(install_next(phase, event).0) && !holds_lock(phase) ==> (event is LockTried
            && event->LockTried_acquired),
{
}

/// Idempotence: once the lock is held, a toolchain directory that is already there ends the
/// install successfully without any download, unpacking or renaming.
pub proof fn lemma_install_idempotent()
    ensures
        install_next(InstallPhase::CheckingRoot, (InstallEvent::RootProbed { is_dir: true }))
            == ((InstallPhase::Releasing { outcome: Ok(()) }), InstallAction::ReleaseLock),
        install_next((InstallPhase::Releasing { outcome: Ok(()) }), InstallEvent::LockReleased)
            == (InstallPhase::Finished, InstallAction::Finish(Ok(()))),
{
}

/// Atomicity: the archive is unpacked only into a staging directory just created, which a
/// stale one is removed before; the toolchain directory appears only by the final rename,
/// taken only after unpacking succeeded.
pub proof fn lemma_install_staged(phase: InstallPhase, event: InstallEvent)
    ensures
        install_next(phase, event).1 is CreateStaging ==> (phase is CheckingStaging && event
            == (InstallEvent::StagingProbed { is_dir: false })) || (phase is RemovingStaging && event
            is StepDone && event->StepDone_0 is Ok),
        install_next(phase, event).1 is RemoveStaging ==> phase is CheckingStaging && event
            == (InstallEvent::StagingProbed { is_dir: true }),
        install_next(phase, event).1 is Unpack ==> phase is CreatingStaging && event is StepDone
            && event->StepDone_0 is Ok,
        install_next(phase, event).1 is Promote ==> phase is Unpacking && event is StepDone
            && event->StepDone_0 is Ok,
{
}

} // verus!

verus! {

/// The installation of one toolchain into its directory.
#[derive(Debug, Clone, PartialEq, Eq)]
pub struct Manifestation {
    prefix: String,
}

impl Manifestation {
    pub closed spec fn spec_prefix(&self) -> Seq<char> {
        self.prefix@
    }

    /// The installation into directory `prefix`.
    pub fn open(prefix: String) -> (r: Result<Manifestation, ElanError>)
        ensures
            r is Ok && r->Ok_0.spec_prefix() == prefix@,
    {
        Ok(Manifestation { prefix })
    }

    /// The toolchain directory.
    pub fn prefix(&self) -> (r: &str)
        ensures
            r@ == self.spec_prefix(),
    {
        self.prefix.as_str()
    }
}

/// A part of a release.
#[derive(Debug, Clone, PartialEq, Eq)]
pub struct Component {
    pub pkg: String,
}

impl Component {
    /// The component's name.
    pub fn name(&self) -> (r: String)
        ensures
            r@ == self.pkg@,
    {
        self.pkg.clone()
    }

    /// The component's name, quoted for messages.
    pub fn description(&self) -> (r: String)
        ensures
            r@ == "'"@ + self.pkg@ + "'"@,
    {
        let a = concat(&chars_of("'"), &chars_of(self.pkg.as_str()));
        string_of(&concat(&a, &chars_of("'")))
    }
}

} // verus!

verus! {

/// The first entry of the feed for `channel`.
pub open spec fn channel_index(feed: Seq<(String, Vec<ReleaseInfo>)>, channel: Seq<char>, i: int) -> bool {
    0 <= i < feed.len() && feed[i].0@ == channel && forall|j: int|
        0 <= j < i ==> (#[trigger] feed[j]).0@ != channel
}

/// The newest release the release feed names for `channel`: the first release listed under
/// the channel; `None` when the feed has no such channel or it lists nothing.
pub fn latest_release_in_feed(feed: &Vec<(String, Vec<ReleaseInfo>)>, channel: &str) -> (r: Option<String>)
    ensures
        (exists|i: int| channel_index(feed@, channel@, i)) || r is None,
        forall|i: int|
            channel_index(feed@, channel@, i) ==> if feed@[i].1@.len() > 0 {
                r is Some && r->Some_0@ == feed@[i].1@[0].name@
            } else {
                r is None
            },
{
    let want = chars_of(channel);
    let mut i: usize = 0;
    while i < feed.len()
        invariant
            0 <= i <= feed@.len(),
            want@ == channel@,
            forall|j: int| 0 <= j < i ==> (#[trigger] feed@[j]).0@ != channel@,
        decreases feed@.len() - i,
    {
        if eq_chars(&chars_of(feed[i].0.as_str()), &want) {
            proof {
                assert(channel_index(feed@, channel@, i as int));
                assert forall|k: int| channel_index(feed@, channel@, k) implies k == i by {
                    if k > i {
                        assert(feed@[i as int].0@ != channel@);
                    }
                }
            }
            if feed[i].1.len() > 0 {
                return Some(feed[i].1[0].name.clone());
            } else {
                return None;
            }
        }
        i = i + 1;
    }
    None
}

} // verus!
