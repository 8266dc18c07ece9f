//! From a typed toolchain name to a concrete release: the name grammar, channels, pin files
//! fetched from an origin, and the fallback to a toolchain already installed.
use crate::config::{all_dirs_parse, installed_descs, Cfg};
use crate::desc::{encode_dir, parse_name, split_name, DescView, ToolchainDesc, UnresolvedToolchainDesc};
use crate::errors::ElanError;
use crate::text::{
    cat3, chars_lt, chars_of, concat, ends_with, has_suffix, matches_at, occurs_at, seq_lt, string_of,
    trim_chars, trimmed,
};
use vstd::prelude::*;

verus! {

/// The origin used when a name gives none.
pub const DEFAULT_ORIGIN: &'static str = "leanprover/lean4";

/// The release feed of the default origin.
pub const DEFAULT_ORIGIN_JSON_URL: &'static str = "https://release.lean-lang.org";

/// How many pin files may lead to one another while a name is resolved.
pub const MAX_PIN_DEPTH: u32 = 20;

/// `s` begins with `p`.
pub open spec fn has_prefix(s: Seq<char>, p: Seq<char>) -> bool {
    occurs_at(s, 0, p)
}

/// The release words that float: they name the newest release of a channel.
pub open spec fn is_channel(r: Seq<char>) -> bool {
    r == "stable"@ || r == "beta"@ || r == "nightly"@
}

/// Whether an origin publishes a release feed, and where.
pub open spec fn json_uri(origin: Seq<char>) -> Option<Seq<char>> {
    if origin == DEFAULT_ORIGIN@ || origin == DEFAULT_ORIGIN@ + "-nightly"@ {
        Some(DEFAULT_ORIGIN_JSON_URL@)
    } else {
        None
    }
}

/// The release feed for an origin, if it has one.
pub fn get_json_uri_for_releases(origin: &str) -> (r: Option<&'static str>)
    ensures
        match json_uri(origin@) {
            Some(u) => r is Some && r->Some_0@ == u,
            None => r is None,
        },
{
    let o = chars_of(origin);
    let d = chars_of(DEFAULT_ORIGIN);
    let n = chars_of("-nightly");
    let dn = concat(&d, &n);
    if eq_chars(&o, &d) || eq_chars(&o, &dn) {
        Some(DEFAULT_ORIGIN_JSON_URL)
    } else {
        None
    }
}

pub(crate) fn eq_chars(a: &Vec<char>, b: &Vec<char>) -> (r: bool)
    ensures
        r == (a@ == b@),
{
    if a.len() != b.len() {
        return false;
    }
    let r = matches_at(a, 0, b);
    assert(a@.subrange(0, b@.len() as int) =~= a@);
    r
}

/// The origin a name resolves under: the one given or the default, with `-nightly` added for
/// nightly releases.
pub open spec fn resolved_origin(given: Option<Seq<char>>, release: Seq<char>) -> Seq<char> {
    let base = match given {
        Some(o) => o,
        None => DEFAULT_ORIGIN@,
    };
    if has_prefix(release, "nightly"@) && !has_suffix(base, "-nightly"@) {
        base + "-nightly"@
    } else {
        base
    }
}

/// Tags that begin with a digit get a leading `v`.
pub open spec fn normalized_release(release: Seq<char>) -> Seq<char> {
    if release.len() > 0 && '0' <= release[0] && release[0] <= '9' {
        seq!['v'] + release
    } else {
        release
    }
}

/// Whether the toolchains directory holds a linked toolchain of that name.
pub open spec fn has_local_link(cfg: Cfg, name: Seq<char>) -> bool {
    exists|i: int|
        0 <= i < cfg.installed@.len() && (#[trigger] cfg.installed@[i]).dir_name@ == encode_dir(name)
            && cfg.installed@[i].is_custom
}

/// What a typed name stands for before any channel is resolved.
pub open spec fn unresolved_of(cfg: Cfg, s: Seq<char>) -> Option<DescView> {
    match parse_name(s, true) {
        None => None,
        Some((given, release)) => if has_local_link(cfg, release) {
            Some(DescView::Local { name: release })
        } else {
            Some(
                DescView::Remote {
                    origin: resolved_origin(given, release),
                    release: normalized_release(release),
                    from_channel: if release == "lean-toolchain"@ || is_channel(release) {
                        Some(release)
                    } else {
                        None
                    },
                },
            )
        },
    }
}

fn local_link_index(cfg: &Cfg, name: &Vec<char>) -> (r: bool)
    ensures
        r == has_local_link(*cfg, name@),
{
    let enc = string_of(&encode_name(name));
    let mut i: usize = 0;
    while i < cfg.installed.len()
        invariant
            0 <= i <= cfg.installed@.len(),
            enc@ == encode_dir(name@),
            forall|k: int|
                0 <= k < i ==> !((#[trigger] cfg.installed@[k]).dir_name@ == encode_dir(name@)
                    && cfg.installed@[k].is_custom),
        decreases cfg.installed@.len() - i,
    {
        if cfg.installed[i].is_custom && cfg.installed[i].dir_name == enc {
            return true;
        }
        i = i + 1;
    }
    false
}

fn encode_name(name: &Vec<char>) -> (r: Vec<char>)
    ensures
        r@ == encode_dir(name@),
{
    let d = ToolchainDesc::Local { name: string_of(name) };
    let s = d.dir_name();
    chars_of(s.as_str())
}

/// Parses a typed toolchain name (`[origin:]release`), without resolving channels.
pub fn lookup_unresolved_toolchain_desc(cfg: &Cfg, name: &str) -> (r: Result<
    UnresolvedToolchainDesc,
    ElanError,
>)
    ensures
        match unresolved_of(*cfg, name@) {
            Some(v) => r is Ok && r->Ok_0@ == v,
            None => r matches Err(ElanError::InvalidToolchainName(m)) && m@ == name@,
        },
{
    let s = chars_of(name);
    let (given, release) = match split_name(&s, true) {
        Some(p) => p,
        None => {
            return Err(ElanError::InvalidToolchainName(name.to_owned()));
        },
    };
    let ghost given_view = crate::desc::opt_chars(given);
    if local_link_index(cfg, &release) {
        return Ok(UnresolvedToolchainDesc(ToolchainDesc::Local { name: string_of(&release) }));
    }
    let base = match given {
        Some(o) => o,
        None => chars_of(DEFAULT_ORIGIN),
    };
    let nightly = chars_of("nightly");
    let suffix = chars_of("-nightly");
    let origin = if matches_at(&release, 0, &nightly) && !ends_with(&base, &suffix) {
        concat(&base, &suffix)
    } else {
        base
    };
    let sentinel = chars_of("lean-toolchain");
    let from_channel = if eq_chars(&release, &sentinel) || is_channel_word(&release) {
        Some(string_of(&release))
    } else {
        None
    };
    assert(origin@ == resolved_origin(given_view, release@));
    let tag = if release.len() > 0 && '0' <= release[0] && release[0] <= '9' {
        let v = vec!['v'];
        concat(&v, &release)
    } else {
        release
    };
    assert(tag@ == normalized_release(release@));
    assert(crate::desc::opt_view(from_channel) == if release@ == "lean-toolchain"@ || is_channel(
        release@,
    ) {
        Some(release@)
    } else {
        None
    });
    Ok(
        UnresolvedToolchainDesc(
            ToolchainDesc::Remote {
                origin: string_of(&origin),
                release: string_of(&tag),
                from_channel,
            },
        ),
    )
}

fn is_channel_word(r: &Vec<char>) -> (b: bool)
    ensures
        b == is_channel(r@),
{
    eq_chars(r, &chars_of("stable")) || eq_chars(r, &chars_of("beta")) || eq_chars(
        r,
        &chars_of("nightly"),
    )
}

/// A release tag with every leading `v` removed.
pub open spec fn strip_v(s: Seq<char>) -> Seq<char>
    decreases s.len(),
{
    if s.len() > 0 && s[0] == 'v' {
        strip_v(s.skip(1))
    } else {
        s
    }
}

fn strip_v_chars(s: &Vec<char>) -> (r: String)
    ensures
        r@ == strip_v(s@),
{
    let mut i: usize = 0;
    assert(s@.skip(0) =~= s@);
    while i < s.len() && s[i] == 'v'
        invariant
            0 <= i <= s@.len(),
            strip_v(s@) == strip_v(s@.skip(i as int)),
        decreases s@.len() - i,
    {
        assert(s@.skip(i as int).skip(1) =~= s@.skip(i + 1));
        i = i + 1;
    }
    let t = crate::desc::slice_chars(s, i, s.len());
    assert(t@ =~= s@.skip(i as int));
    string_of(&t)
}

/// Whether `s` parses as a semantic version, and if so whether it is a pre-release.
pub uninterp spec fn semver_pre(s: Seq<char>) -> Option<bool>;

/// Relies on `semver::Version::parse`: `None` when `s` is no version, otherwise whether the
/// version carries a pre-release part.
#[verifier::external_body]
fn parse_semver_pre(s: &str) -> (r: Option<bool>)
    ensures
        r == semver_pre(s@),
{
    match semver::Version::parse(s) {
        Ok(v) => Some(!v.pre.is_empty()),
        Err(_) => None,
    }
}

/// Whether version `a` is higher than version `b` (false unless both parse).
pub uninterp spec fn semver_gt(a: Seq<char>, b: Seq<char>) -> bool;

/// Relies on `semver::Version::parse` and semver's ordering of versions.
#[verifier::external_body]
fn semver_newer(a: &str, b: &str) -> (r: bool)
    ensures
        r == semver_gt(a@, b@),
{
    match (semver::Version::parse(a), semver::Version::parse(b)) {
        (Ok(x), Ok(y)) => x > y,
        _ => false,
    }
}

/// Whether an installed toolchain may stand in for the newest release of `channel`.
pub open spec fn is_candidate(d: DescView, channel: Seq<char>) -> bool {
    match d {
        DescView::Remote { release, .. } => if channel == "nightly"@ {
            has_prefix(release, "nightly-"@)
        } else {
            semver_pre(strip_v(release)) == Some(channel != "stable"@)
        },
        _ => false,
    }
}

/// The release of a descriptor (empty for a linked toolchain).
pub open spec fn release_of(d: DescView) -> Seq<char> {
    match d {
        DescView::Remote { release, .. } => release,
        DescView::Local { .. } => Seq::empty(),
    }
}

/// Whether `a` is a newer release than `b` within `channel`: by tag for nightlies, by version
/// otherwise.
pub open spec fn newer(channel: Seq<char>, a: DescView, b: DescView) -> bool {
    if channel == "nightly"@ {
        seq_lt(release_of(b), release_of(a))
    } else {
        semver_gt(strip_v(release_of(a)), strip_v(release_of(b)))
    }
}

/// `ts[i]` is a candidate of `channel` and no candidate is newer.
pub open spec fn is_latest(ts: Seq<DescView>, i: int, channel: Seq<char>) -> bool {
    0 <= i < ts.len() && is_candidate(ts[i], channel) && forall|j: int|
        0 <= j < ts.len() && is_candidate(#[trigger] ts[j], channel) ==> !newer(channel, ts[j], ts[i])
}

/// The installed toolchain that stands in for `channel`: the last of the newest candidates.
pub open spec fn latest_local(cfg: Cfg, channel: Seq<char>) -> Option<DescView> {
    let ts = installed_descs(cfg.installed@);
    if all_dirs_parse(cfg.installed@) && exists|i: int| is_latest(ts, i, channel) {
        let i = choose|i: int|
            is_latest(ts, i, channel) && forall|j: int| i < j < ts.len() ==> !is_latest(ts, j, channel);
        Some(ts[i])
    } else {
        None
    }
}

fn candidate(d: &ToolchainDesc, channel: &Vec<char>) -> (r: bool)
    ensures
        r == is_candidate(d@, channel@),
{
    match d {
        ToolchainDesc::Remote { release, .. } => {
            let rel = chars_of(release.as_str());
            if eq_chars(channel, &chars_of("nightly")) {
                matches_at(&rel, 0, &chars_of("nightly-"))
            } else {
                let stable = eq_chars(channel, &chars_of("stable"));
                match parse_semver_pre(strip_v_chars(&rel).as_str()) {
                    Some(pre) => pre == !stable,
                    None => false,
                }
            }
        },
        _ => false,
    }
}

fn is_newer(channel: &Vec<char>, a: &ToolchainDesc, b: &ToolchainDesc) -> (r: bool)
    ensures
        r == newer(channel@, a@, b@),
{
    let ra = release_chars(a);
    let rb = release_chars(b);
    if eq_chars(channel, &chars_of("nightly")) {
        chars_lt(&rb, &ra)
    } else {
        semver_newer(strip_v_chars(&ra).as_str(), strip_v_chars(&rb).as_str())
    }
}

fn release_chars(d: &ToolchainDesc) -> (r: Vec<char>)
    ensures
        r@ == release_of(d@),
{
    match d {
        ToolchainDesc::Remote { release, .. } => chars_of(release.as_str()),
        _ => Vec::new(),
    }
}

/// Index of the last of the newest candidates of `channel` in `ts`.
fn latest_index(ts: &Vec<ToolchainDesc>, channel: &Vec<char>) -> (r: Option<usize>)
    ensures
        match r {
            Some(i) => is_latest(crate::config::desc_views(ts@), i as int, channel@) && forall|
                j: int,
            |
                i < j < ts@.len() ==> !is_latest(crate::config::desc_views(ts@), j, channel@),
            None => forall|j: int| !is_latest(crate::config::desc_views(ts@), j, channel@),
        },
{
    let ghost vs = crate::config::desc_views(ts@);
    let n = ts.len();
    let mut i = n;
    while i > 0
        invariant
            0 <= i <= n == ts@.len() == vs.len(),
            vs == crate::config::desc_views(ts@),
            forall|j: int| i <= j < n ==> !is_latest(vs, j, channel@),
        decreases i,
    {
        let k = i - 1;
        assert(vs[k as int] == ts@[k as int]@);
        if candidate(&ts[k], channel) {
            let mut best = true;
            let mut j: usize = 0;
            while j < n
                invariant
                    0 <= j <= n == ts@.len() == vs.len(),
                    k < n,
                    vs == crate::config::desc_views(ts@),
                    is_candidate(vs[k as int], channel@),
                    best == forall|m: int|
                        0 <= m < j && is_candidate(#[trigger] vs[m], channel@) ==> !newer(
                            channel@,
                            vs[m],
                            vs[k as int],
                        ),
                decreases n - j,
            {
                assert(vs[j as int] == ts@[j as int]@);
                assert(vs[k as int] == ts@[k as int]@);
                if candidate(&ts[j], channel) && is_newer(channel, &ts[j], &ts[k]) {
                    best = false;
                }
                j = j + 1;
            }
            if best {
                return Some(k);
            }
        }
        i = k;
    }
    None
}

/// The installed release that stands in for `channel` when the channel cannot be queried.
pub fn find_latest_local_toolchain(cfg: &Cfg, channel: &str) -> (r: Option<ToolchainDesc>)
    ensures
        match latest_local(*cfg, channel@) {
            Some(v) => r is Some && r->Some_0@ == v,
            None => r is None,
        },
{
    let ts = match cfg.list_toolchains() {
        Ok(ts) => ts,
        Err(_) => {
            return None;
        },
    };
    let ch = chars_of(channel);
    let ghost vs = installed_descs(cfg.installed@);
    assert(crate::config::desc_views(ts@) == vs);
    match latest_index(&ts, &ch) {
        Some(i) => {
            proof {
                let c = choose|c: int|
                    is_latest(vs, c, channel@) && forall|j: int| c < j < vs.len() ==> !is_latest(vs, j, channel@);
                assert(c == i);
            }
            Some(ts[i].duplicate())
        },
        None => None,
    }
}

} // verus!

verus! {

/// Something the resolver needs fetched before it can go on.
#[derive(Debug, Clone, PartialEq, Eq)]
pub enum FetchRequest {
    /// The text of the pin file on an origin's default branch.
    PinFile { url: String },
    /// The tag the release feed names as newest for `channel`.
    ReleaseFeed { url: String, channel: String },
    /// The page of an origin's latest release.
    LatestTag { url: String },
}

/// A fetch the resolver waits for, with the descriptor it is resolving.
#[derive(Debug, Clone, PartialEq, Eq)]
pub struct PendingFetch {
    pub desc: UnresolvedToolchainDesc,
    pub request: FetchRequest,
    /// How many pin files led here.
    pub depth: u32,
}

/// Where resolution stands.
#[derive(Debug, Clone, PartialEq, Eq)]
pub enum Resolution {
    /// The concrete toolchain.
    Resolved(ToolchainDesc),
    /// The channel could not be queried; this installed toolchain stands in for it.
    Substituted(ToolchainDesc),
    /// A fetch is needed; hand its outcome to [`resolve_fetched`].
    Fetch(PendingFetch),
}

pub open spec fn pin_url(origin: Seq<char>) -> Seq<char> {
    "https://raw.githubusercontent.com/"@ + origin + "/HEAD/lean-toolchain"@
}

pub open spec fn latest_url(origin: Seq<char>) -> Seq<char> {
    "https://github.com/"@ + origin + "/releases/latest"@
}

/// The outcome when a channel cannot be queried: an installed stand-in if the cache may be
/// used and one exists, otherwise the query's own failure.
pub open spec fn fallback_spec(
    cfg: Cfg,
    channel: Seq<char>,
    use_cache: bool,
    failure: ElanError,
    r: Result<Resolution, ElanError>,
) -> bool {
    match (if use_cache {
        latest_local(cfg, channel)
    } else {
        None
    }) {
        Some(t) => r matches Ok(Resolution::Substituted(d)) && d@ == t,
        None => r == Err::<Resolution, ElanError>(failure),
    }
}

/// The first step of resolving `u`.
#[verifier::opaque]
pub open spec fn step_spec(
    cfg: Cfg,
    u: DescView,
    no_net: bool,
    use_cache: bool,
    depth: u32,
    r: Result<Resolution, ElanError>,
) -> bool {
    match u {
        DescView::Remote { origin, release, from_channel: Some(_) } => if release
            == "lean-toolchain"@ {
            r matches Ok(Resolution::Fetch(p)) && p.desc@ == u && p.depth == depth
                && (p.request matches FetchRequest::PinFile { url } && url@ == pin_url(origin))
        } else if is_channel(release) {
            if json_uri(origin) is None && release == "beta"@ {
                r matches Err(ElanError::UnsupportedChannel { channel, origin: o })
                    && channel@ == release && o@ == origin
            } else if no_net {
                fallback_spec(cfg, release, use_cache, ElanError::NetworkDisabled, r)
            } else {
                r matches Ok(Resolution::Fetch(p)) && p.desc@ == u && p.depth == depth
                    && match json_uri(origin) {
                    Some(f) => (p.request matches FetchRequest::ReleaseFeed { url, channel }
                        && url@ == f && channel@ == release),
                    None => (p.request matches FetchRequest::LatestTag { url } && url@
                        == latest_url(origin)),
                }
            }
        } else {
            r matches Ok(Resolution::Resolved(d)) && d@ == u
        },
        _ => r matches Ok(Resolution::Resolved(d)) && d@ == u,
    }
}

fn fallback(cfg: &Cfg, channel: &str, use_cache: bool, failure: ElanError) -> (r: Result<
    Resolution,
    ElanError,
>)
    ensures
        fallback_spec(*cfg, channel@, use_cache, failure, r),
{
    if use_cache {
        if let Some(t) = find_latest_local_toolchain(cfg, channel) {
            return Ok(Resolution::Substituted(t));
        }
    }
    Err(failure)
}

fn step(
    cfg: &Cfg,
    unresolved: &UnresolvedToolchainDesc,
    no_net: bool,
    use_cache: bool,
    depth: u32,
) -> (r: Result<Resolution, ElanError>)
    ensures
        step_spec(*cfg, unresolved@, no_net, use_cache, depth, r),
{
    reveal(step_spec);
    if let ToolchainDesc::Remote { origin, release, from_channel: Some(_) } = &unresolved.0 {
        let rel = chars_of(release.as_str());
        if eq_chars(&rel, &chars_of("lean-toolchain")) {
            let url = cat3("https://raw.githubusercontent.com/", origin.as_str(), "/HEAD/lean-toolchain");
            return Ok(
                Resolution::Fetch(
                    PendingFetch {
                        desc: UnresolvedToolchainDesc(unresolved.0.duplicate()),
                        request: FetchRequest::PinFile { url },
                        depth,
                    },
                ),
            );
        }
        if is_channel_word(&rel) {
            let feed = get_json_uri_for_releases(origin.as_str());
            if feed.is_none() && eq_chars(&rel, &chars_of("beta")) {
                return Err(
                    ElanError::UnsupportedChannel { channel: release.clone(), origin: origin.clone() },
                );
            }
            if no_net {
                return fallback(cfg, release.as_str(), use_cache, ElanError::NetworkDisabled);
            }
            let request = match feed {
                Some(f) => FetchRequest::ReleaseFeed { url: f.to_owned(), channel: release.clone() },
                None => FetchRequest::LatestTag {
                    url: cat3("https://github.com/", origin.as_str(), "/releases/latest"),
                },
            };
            return Ok(
                Resolution::Fetch(
                    PendingFetch {
                        desc: UnresolvedToolchainDesc(unresolved.0.duplicate()),
                        request,
                        depth,
                    },
                ),
            );
        }
    }
    Ok(Resolution::Resolved(unresolved.0.duplicate()))
}

/// Starts resolving a descriptor: a concrete tag resolves at once; a channel or the pin
/// sentinel asks for a fetch, or falls back to an installed release when the network may not
/// be used.
pub fn resolve_toolchain_desc_ext(
    cfg: &Cfg,
    unresolved: &UnresolvedToolchainDesc,
    no_net: bool,
    use_cache: bool,
) -> (r: Result<Resolution, ElanError>)
    ensures
        step_spec(*cfg, unresolved@, no_net, use_cache, 0, r),
{
    step(cfg, unresolved, no_net, use_cache, 0)
}

/// Starts resolving with the network allowed and the installed releases as fallback.
pub fn resolve_toolchain_desc(cfg: &Cfg, unresolved: &UnresolvedToolchainDesc) -> (r: Result<
    Resolution,
    ElanError,
>)
    ensures
        step_spec(*cfg, unresolved@, false, true, 0, r),
{
    step(cfg, unresolved, false, true, 0)
}

/// Parses a typed name and starts resolving it.
pub fn lookup_toolchain_desc(cfg: &Cfg, name: &str) -> (r: Result<Resolution, ElanError>)
    ensures
        match unresolved_of(*cfg, name@) {
            Some(v) => step_spec(*cfg, v, false, true, 0, r),
            None => r matches Err(ElanError::InvalidToolchainName(m)) && m@ == name@,
        },
{
    let u = lookup_unresolved_toolchain_desc(cfg, name)?;
    resolve_toolchain_desc(cfg, &u)
}

/// Characters of a release tag on a release page.
pub open spec fn tag_char(c: char) -> bool {
    ('a' <= c && c <= 'z') || ('0' <= c && c <= '9') || c == '-' || c == '.'
}

pub open spec fn tag_mark() -> Seq<char> {
    seq!['/', 't', 'a', 'g', '/']
}

/// At `i` the page links a tag: `/tag/` and at least one tag character.
pub open spec fn tag_at(s: Seq<char>, i: int) -> bool {
    occurs_at(s, i, tag_mark()) && i + 5 < s.len() && tag_char(s[i + 5])
}

/// The end of the run of tag characters that starts at `j`.
pub open spec fn tag_end(s: Seq<char>, j: int) -> int
    decreases s.len() - j,
{
    if j < 0 || j >= s.len() || !tag_char(s[j]) {
        j
    } else {
        tag_end(s, j + 1)
    }
}

/// The first tag that the page links, if any.
pub open spec fn latest_tag(s: Seq<char>) -> Option<Seq<char>> {
    if exists|i: int| tag_at(s, i) {
        let i = choose|i: int| tag_at(s, i) && forall|j: int| 0 <= j < i ==> !tag_at(s, j);
        Some(s.subrange(i + 5, tag_end(s, i + 5)))
    } else {
        None
    }
}

/// Reads the release tag from the page of an origin's latest release.
pub fn parse_latest_release_tag(page: &str) -> (r: Result<String, ElanError>)
    ensures
        match latest_tag(page@) {
            Some(t) => r is Ok && r->Ok_0@ == t,
            None => r matches Err(ElanError::MissingReleaseTag),
        },
{
    let s = chars_of(page);
    match first_tag_at(&s) {
        Some(i) => {
            let e = tag_run_end(&s, i + 5);
            proof {
                assert(tag_at(s@, i as int) && forall|j: int| 0 <= j < i ==> !tag_at(s@, j));
                let c = choose|c: int| tag_at(s@, c) && forall|j: int| 0 <= j < c ==> !tag_at(s@, j);
                assert(c == i);
            }
            let t = crate::desc::slice_chars(&s, i + 5, e);
            Ok(string_of(&t))
        },
        None => Err(ElanError::MissingReleaseTag),
    }
}

fn first_tag_at(s: &Vec<char>) -> (r: Option<usize>)
    ensures
        match r {
            Some(i) => tag_at(s@, i as int) && forall|j: int| 0 <= j < i ==> !tag_at(s@, j),
            None => forall|j: int| !tag_at(s@, j),
        },
{
    let n = s.len();
    let mark = vec!['/', 't', 'a', 'g', '/'];
    assert(mark@ =~= tag_mark());
    let mut i: usize = 0;
    while i < n
        invariant
            0 <= i <= n == s@.len(),
            mark@ == tag_mark(),
            forall|j: int| 0 <= j < i ==> !tag_at(s@, j),
        decreases n - i,
    {
        if matches_at(s, i, &mark) && n - i > 5 && is_tag_char(s[i + 5]) {
            return Some(i);
        }
        i = i + 1;
    }
    None
}

fn tag_run_end(s: &Vec<char>, from: usize) -> (r: usize)
    requires
        from <= s@.len(),
    ensures
        from <= r <= s@.len(),
        r == tag_end(s@, from as int),
{
    let n = s.len();
    let mut e = from;
    while e < n && is_tag_char(s[e])
        invariant
            from <= e <= n == s@.len(),
            tag_end(s@, from as int) == tag_end(s@, e as int),
        decreases n - e,
    {
        e = e + 1;
    }
    e
}

fn is_tag_char(c: char) -> (r: bool)
    ensures
        r == tag_char(c),
{
    ('a' <= c && c <= 'z') || ('0' <= c && c <= '9') || c == '-' || c == '.'
}

/// What resolving goes on to once the fetch `p` asked for has come back.
#[verifier::opaque]
pub open spec fn fetched_spec(
    cfg: Cfg,
    p: PendingFetch,
    no_net: bool,
    use_cache: bool,
    fetched: Result<String, String>,
    r: Result<Resolution, ElanError>,
) -> bool {
    match p.request {
        FetchRequest::PinFile { .. } => if p.depth >= MAX_PIN_DEPTH {
            r matches Err(ElanError::RecursionLimit)
        } else {
            match fetched {
                Err(e) => r matches Err(ElanError::RemoteFetchFailed(m)) && m@ == e@,
                Ok(text) => match unresolved_of(cfg, trimmed(text@)) {
                    None => r matches Err(ElanError::InvalidToolchainName(_)),
                    Some(v) => step_spec(cfg, v, no_net, use_cache, (p.depth + 1) as u32, r),
                },
            }
        },
        _ => match p.desc@ {
            DescView::Remote { origin, release, from_channel: Some(ch) } => {
                let tag = match (p.request, fetched) {
                    (FetchRequest::ReleaseFeed { .. }, Ok(t)) => Some(t@),
                    (FetchRequest::LatestTag { .. }, Ok(page)) => latest_tag(page@),
                    _ => None,
                };
                let failure = match fetched {
                    Err(e) => ElanError::RemoteFetchFailed(e),
                    Ok(_) => ElanError::MissingReleaseTag,
                };
                match tag {
                    Some(t) => r matches Ok(Resolution::Resolved(d)) && d@ == DescView::Remote {
                        origin,
                        release: t,
                        from_channel: Some(ch),
                    },
                    None => fallback_spec(cfg, release, use_cache, failure, r),
                }
            },
            _ => r matches Ok(Resolution::Resolved(d)) && d@ == p.desc@,
        },
    }
}

/// Goes on resolving once the fetch that `pending` asked for has come back: a pin file's text
/// is parsed as a new name, a channel's newest tag gives the concrete toolchain, and a failed
/// query falls back to an installed release when allowed.
pub fn resolve_fetched(
    cfg: &Cfg,
    pending: &PendingFetch,
    no_net: bool,
    use_cache: bool,
    fetched: Result<String, String>,
) -> (r: Result<Resolution, ElanError>)
    ensures
        fetched_spec(*cfg, *pending, no_net, use_cache, fetched, r),
{
    reveal(fetched_spec);
    match &pending.request {
        FetchRequest::PinFile { .. } => {
            if pending.depth >= MAX_PIN_DEPTH {
                return Err(ElanError::RecursionLimit);
            }
            match fetched {
                Err(e) => Err(ElanError::RemoteFetchFailed(e)),
                Ok(text) => {
                    let name = string_of(&trim_chars(&chars_of(text.as_str())));
                    match lookup_unresolved_toolchain_desc(cfg, name.as_str()) {
                        Err(e) => Err(e),
                        Ok(u) => step(cfg, &u, no_net, use_cache, pending.depth + 1),
                    }
                },
            }
        },
        request => {
            if let ToolchainDesc::Remote { origin, release, from_channel: Some(ch) } = &pending.desc.0 {
                let tag = match (request, fetched) {
                    (FetchRequest::ReleaseFeed { .. }, Ok(t)) => Ok(t),
                    (FetchRequest::LatestTag { .. }, Ok(page)) => parse_latest_release_tag(page.as_str()),
                    (_, Err(e)) => Err(ElanError::RemoteFetchFailed(e)),
                    _ => Err(ElanError::MissingReleaseTag),
                };
                match tag {
                    Ok(t) => Ok(
                        Resolution::Resolved(
                            ToolchainDesc::Remote {
                                origin: origin.clone(),
                                release: t,
                                from_channel: Some(ch.clone()),
                            },
                        ),
                    ),
                    Err(failure) => fallback(cfg, release.as_str(), use_cache, failure),
                }
            } else {
                Ok(Resolution::Resolved(pending.desc.0.duplicate()))
            }
        },
    }
}

} // verus!

verus! {

proof fn lemma_newest_nightly(ts: Seq<DescView>, n: int) -> (m: int)
    requires
        0 < n <= ts.len(),
        exists|i: int| 0 <= i < n && is_candidate(#[trigger] ts[i], "nightly"@),
    ensures
        0 <= m < n,
        is_candidate(ts[m], "nightly"@),
        forall|j: int|
            0 <= j < n && is_candidate(#[trigger] ts[j], "nightly"@) ==> !seq_lt(
                release_of(ts[m]),
                release_of(ts[j]),
            ),
    decreases n,
{
    let last = n - 1;
    if exists|i: int| 0 <= i < n - 1 && is_candidate(#[trigger] ts[i], "nightly"@) {
        let m0 = lemma_newest_nightly(ts, n - 1);
        if is_candidate(ts[last], "nightly"@) && seq_lt(release_of(ts[m0]), release_of(ts[last])) {
            assert forall|j: int|
                0 <= j < n && is_candidate(#[trigger] ts[j], "nightly"@) implies !seq_lt(
                release_of(ts[last]),
                release_of(ts[j]),
            ) by {
                if j < n - 1 {
                    crate::text::lemma_seq_lt_total(release_of(ts[j]), release_of(ts[m0]));
                    if seq_lt(release_of(ts[j]), release_of(ts[m0])) {
                        crate::text::lemma_seq_lt_transitive(
                            release_of(ts[j]),
                            release_of(ts[m0]),
                            release_of(ts[last]),
                        );
                    }
                    crate::text::lemma_seq_lt_asymmetric(release_of(ts[j]), release_of(ts[last]));
                } else {
                    crate::text::lemma_seq_lt_irreflexive(release_of(ts[last]));
                }
            }
            last
        } else {
            m0
        }
    } else {
        assert forall|j: int|
            0 <= j < n && is_candidate(#[trigger] ts[j], "nightly"@) implies !seq_lt(
            release_of(ts[last]),
            release_of(ts[j]),
        ) by {
            crate::text::lemma_seq_lt_irreflexive(release_of(ts[last]));
        }
        last
    }
}

/// When the newest nightly cannot be fetched and installed releases may stand in, a nightly
/// that is installed is never an error: resolution substitutes an installed nightly whose tag
/// no other installed nightly's tag exceeds.
pub proof fn lemma_nightly_fallback(
    cfg: Cfg,
    pending: PendingFetch,
    no_net: bool,
    fetched: Result<String, String>,
    r: Result<Resolution, ElanError>,
)
    requires
        pending.desc@ matches DescView::Remote { release, from_channel: Some(_), .. } && release
            == "nightly"@,
        !(pending.request is PinFile),
        fetched is Err,
        all_dirs_parse(cfg.installed@),
        exists|i: int|
            0 <= i < cfg.installed@.len() && is_candidate(
                #[trigger] installed_descs(cfg.installed@)[i],
                "nightly"@,
            ),
        fetched_spec(cfg, pending, no_net, true, fetched, r),
    ensures
        r matches Ok(Resolution::Substituted(d)) && exists|i: int|
            is_latest(installed_descs(cfg.installed@), i, "nightly"@) && d@ == installed_descs(
                cfg.installed@,
            )[i],
{
    let ts = installed_descs(cfg.installed@);
    assert(ts.len() == cfg.installed@.len()) by {
        reveal(installed_descs);
    }
    let i0 = choose|i: int|
            0 <= i < cfg.installed@.len() && is_candidate(
                #[trigger] installed_descs(cfg.installed@)[i],
                "nightly"@,
            );
    assert(is_candidate(ts[i0], "nightly"@));
    let m = lemma_newest_nightly(ts, ts.len() as int);
    assert(is_latest(ts, m, "nightly"@));
    lemma_last_latest(ts, "nightly"@, m);
    let i = choose|i: int|
        is_latest(ts, i, "nightly"@) && forall|j: int| i < j < ts.len() ==> !is_latest(ts, j, "nightly"@);
    assert(latest_local(cfg, "nightly"@) == Some(ts[i]));
    lemma_failed_query_falls_back(cfg, pending, no_net, true, fetched, r);
}

proof fn lemma_last_latest(ts: Seq<DescView>, channel: Seq<char>, from: int)
    requires
        is_latest(ts, from, channel),
    ensures
        exists|i: int|
            is_latest(ts, i, channel) && forall|j: int| i < j < ts.len() ==> !is_latest(ts, j, channel),
    decreases ts.len() - from,
{
    if exists|j: int| from < j < ts.len() && is_latest(ts, j, channel) {
        let j = choose|j: int| from < j < ts.len() && is_latest(ts, j, channel);
        lemma_last_latest(ts, channel, j);
    } else {
        assert(forall|j: int| from < j < ts.len() ==> !is_latest(ts, j, channel));
    }
}

proof fn lemma_failed_query_falls_back(
    cfg: Cfg,
    pending: PendingFetch,
    no_net: bool,
    use_cache: bool,
    fetched: Result<String, String>,
    r: Result<Resolution, ElanError>,
)
    requires
        pending.desc@ matches DescView::Remote { from_channel: Some(_), .. },
        !(pending.request is PinFile),
        fetched is Err,
        fetched_spec(cfg, pending, no_net, use_cache, fetched, r),
    ensures
        fallback_spec(
            cfg,
            release_of(pending.desc@),
            use_cache,
            ElanError::RemoteFetchFailed(fetched->Err_0),
            r,
        ),
{
    reveal(fetched_spec);
}

} // verus!
