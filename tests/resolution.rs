use elan::config::{Cfg, InstalledToolchain, Settings, TelemetryMode};
use elan::desc::{ToolchainDesc, UnresolvedToolchainDesc};
use elan::errors::ElanError;
use elan::resolve::{
    find_latest_local_toolchain, get_json_uri_for_releases, lookup_toolchain_desc,
    lookup_unresolved_toolchain_desc, parse_latest_release_tag, resolve_fetched,
    resolve_toolchain_desc, resolve_toolchain_desc_ext, FetchRequest, PendingFetch, Resolution,
};

fn cfg_with(installed: &[(&str, bool)]) -> Cfg {
    Cfg {
        elan_dir: "/home/u/.elan".to_string(),
        toolchains_dir: "/home/u/.elan/toolchains".to_string(),
        env_override: None,
        settings: Settings {
            version: "12".to_string(),
            default_toolchain: None,
            overrides: Vec::new(),
            telemetry: TelemetryMode::Off,
        },
        installed: installed
            .iter()
            .map(|(n, c)| InstalledToolchain { dir_name: n.to_string(), is_custom: *c })
            .collect(),
    }
}

fn remote(origin: &str, release: &str, from_channel: Option<&str>) -> ToolchainDesc {
    ToolchainDesc::Remote {
        origin: origin.to_string(),
        release: release.to_string(),
        from_channel: from_channel.map(|c| c.to_string()),
    }
}

fn unresolved(origin: &str, release: &str, from_channel: Option<&str>) -> UnresolvedToolchainDesc {
    UnresolvedToolchainDesc(remote(origin, release, from_channel))
}

#[test]
fn stable_names_default_origin_and_channel() {
    let cfg = cfg_with(&[]);
    let u = lookup_unresolved_toolchain_desc(&cfg, "stable").unwrap();
    assert_eq!(u, unresolved("leanprover/lean4", "stable", Some("stable")));
    let u = lookup_unresolved_toolchain_desc(&cfg, "leanprover/lean4:stable").unwrap();
    assert_eq!(u, unresolved("leanprover/lean4", "stable", Some("stable")));
}

#[test]
fn nightly_gets_nightly_origin() {
    let cfg = cfg_with(&[]);
    let u = lookup_unresolved_toolchain_desc(&cfg, "nightly-2023-09-06").unwrap();
    assert_eq!(u, unresolved("leanprover/lean4-nightly", "nightly-2023-09-06", None));
    let u = lookup_unresolved_toolchain_desc(&cfg, "me/lean4-nightly:nightly").unwrap();
    assert_eq!(u, unresolved("me/lean4-nightly", "nightly", Some("nightly")));
}

#[test]
fn numeric_tags_get_v_prefix() {
    let cfg = cfg_with(&[]);
    let u = lookup_unresolved_toolchain_desc(&cfg, "4.9.0").unwrap();
    assert_eq!(u, unresolved("leanprover/lean4", "v4.9.0", None));
}

#[test]
fn sentinel_and_underscores() {
    let cfg = cfg_with(&[]);
    let u = lookup_unresolved_toolchain_desc(&cfg, "my_org/my_repo:lean-toolchain").unwrap();
    assert_eq!(u, unresolved("my_org/my_repo", "lean-toolchain", Some("lean-toolchain")));
}

#[test]
fn linked_name_takes_precedence() {
    let cfg = cfg_with(&[("stable", true)]);
    let u = lookup_unresolved_toolchain_desc(&cfg, "stable").unwrap();
    assert_eq!(u, UnresolvedToolchainDesc(ToolchainDesc::Local { name: "stable".to_string() }));
    let cfg = cfg_with(&[("stable", false)]);
    let u = lookup_unresolved_toolchain_desc(&cfg, "stable").unwrap();
    assert_eq!(u, unresolved("leanprover/lean4", "stable", Some("stable")));
}

#[test]
fn invalid_typed_name() {
    let cfg = cfg_with(&[]);
    assert_eq!(
        lookup_unresolved_toolchain_desc(&cfg, "a b"),
        Err(ElanError::InvalidToolchainName("a b".to_string()))
    );
}

#[test]
fn concrete_tag_resolves_without_network() {
    let cfg = cfg_with(&[]);
    let r = lookup_toolchain_desc(&cfg, "v4.9.0").unwrap();
    assert_eq!(r, Resolution::Resolved(remote("leanprover/lean4", "v4.9.0", None)));
}

#[test]
fn channel_of_default_origin_asks_release_feed() {
    let cfg = cfg_with(&[]);
    let u = unresolved("leanprover/lean4", "stable", Some("stable"));
    match resolve_toolchain_desc(&cfg, &u).unwrap() {
        Resolution::Fetch(p) => {
            assert_eq!(p.desc, u);
            assert_eq!(p.depth, 0);
            assert_eq!(
                p.request,
                FetchRequest::ReleaseFeed {
                    url: "https://release.lean-lang.org".to_string(),
                    channel: "stable".to_string()
                }
            );
        }
        other => panic!("unexpected {:?}", other),
    }
}

#[test]
fn channel_of_custom_origin_asks_latest_page() {
    let cfg = cfg_with(&[]);
    let u = unresolved("me/fork", "nightly", Some("nightly"));
    match resolve_toolchain_desc(&cfg, &u).unwrap() {
        Resolution::Fetch(p) => assert_eq!(
            p.request,
            FetchRequest::LatestTag { url: "https://github.com/me/fork/releases/latest".to_string() }
        ),
        other => panic!("unexpected {:?}", other),
    }
}

#[test]
fn beta_on_custom_origin_is_unsupported() {
    let cfg = cfg_with(&[]);
    let u = unresolved("me/fork", "beta", Some("beta"));
    assert_eq!(
        resolve_toolchain_desc(&cfg, &u),
        Err(ElanError::UnsupportedChannel { channel: "beta".to_string(), origin: "me/fork".to_string() })
    );
}

#[test]
fn pin_sentinel_asks_pin_file() {
    let cfg = cfg_with(&[]);
    let u = unresolved("me/proj", "lean-toolchain", Some("lean-toolchain"));
    match resolve_toolchain_desc(&cfg, &u).unwrap() {
        Resolution::Fetch(p) => assert_eq!(
            p.request,
            FetchRequest::PinFile {
                url: "https://raw.githubusercontent.com/me/proj/HEAD/lean-toolchain".to_string()
            }
        ),
        other => panic!("unexpected {:?}", other),
    }
}

#[test]
fn no_net_falls_back_to_newest_nightly() {
    let cfg = cfg_with(&[
        ("leanprover--lean4-nightly---nightly-2023-09-06", false),
        ("leanprover--lean4-nightly---nightly-2024-01-02", false),
        ("leanprover--lean4---v4.9.0", false),
    ]);
    let u = unresolved("leanprover/lean4-nightly", "nightly", Some("nightly"));
    let r = resolve_toolchain_desc_ext(&cfg, &u, true, true).unwrap();
    assert_eq!(
        r,
        Resolution::Substituted(remote("leanprover/lean4-nightly", "nightly-2024-01-02", None))
    );
    assert_eq!(resolve_toolchain_desc_ext(&cfg, &u, true, false), Err(ElanError::NetworkDisabled));
}

#[test]
fn failed_nightly_query_substitutes_greatest_local() {
    let cfg = cfg_with(&[
        ("leanprover--lean4-nightly---nightly-2024-01-02", false),
        ("leanprover--lean4-nightly---nightly-2023-09-06", false),
    ]);
    let p = PendingFetch {
        desc: unresolved("leanprover/lean4-nightly", "nightly", Some("nightly")),
        request: FetchRequest::ReleaseFeed {
            url: "https://release.lean-lang.org".to_string(),
            channel: "nightly".to_string(),
        },
        depth: 0,
    };
    let r = resolve_fetched(&cfg, &p, false, true, Err("unreachable host".to_string())).unwrap();
    assert_eq!(
        r,
        Resolution::Substituted(remote("leanprover/lean4-nightly", "nightly-2024-01-02", None))
    );
}

#[test]
fn failed_query_without_local_release_errors() {
    let cfg = cfg_with(&[]);
    let p = PendingFetch {
        desc: unresolved("leanprover/lean4", "stable", Some("stable")),
        request: FetchRequest::ReleaseFeed {
            url: "https://release.lean-lang.org".to_string(),
            channel: "stable".to_string(),
        },
        depth: 0,
    };
    let r = resolve_fetched(&cfg, &p, false, true, Err("offline".to_string()));
    assert_eq!(r, Err(ElanError::RemoteFetchFailed("offline".to_string())));
}

#[test]
fn fetched_tag_resolves_channel() {
    let cfg = cfg_with(&[]);
    let p = PendingFetch {
        desc: unresolved("me/fork", "stable", Some("stable")),
        request: FetchRequest::LatestTag { url: "https://github.com/me/fork/releases/latest".to_string() },
        depth: 0,
    };
    let page = "<a href=\"/me/fork/releases/tag/v2.1.0\">latest</a>".to_string();
    let r = resolve_fetched(&cfg, &p, false, true, Ok(page)).unwrap();
    assert_eq!(r, Resolution::Resolved(remote("me/fork", "v2.1.0", Some("stable"))));
}

#[test]
fn fetched_pin_text_is_resolved_in_turn() {
    let cfg = cfg_with(&[]);
    let p = PendingFetch {
        desc: unresolved("me/proj", "lean-toolchain", Some("lean-toolchain")),
        request: FetchRequest::PinFile { url: "u".to_string() },
        depth: 0,
    };
    let r = resolve_fetched(&cfg, &p, false, true, Ok("  leanprover/lean4:v4.3.0 \n".to_string()));
    assert_eq!(r, Ok(Resolution::Resolved(remote("leanprover/lean4", "v4.3.0", None))));
    let r = resolve_fetched(&cfg, &p, false, true, Ok("stable\n".to_string())).unwrap();
    match r {
        Resolution::Fetch(next) => assert_eq!(next.depth, 1),
        other => panic!("unexpected {:?}", other),
    }
    let deep = PendingFetch { depth: 20, ..p };
    assert_eq!(
        resolve_fetched(&cfg, &deep, false, true, Ok("stable".to_string())),
        Err(ElanError::RecursionLimit)
    );
}

#[test]
fn release_tag_from_page() {
    assert_eq!(
        parse_latest_release_tag("x /tag/ y /tag/v4.9.0\" z /tag/v5").unwrap(),
        "v4.9.0"
    );
    assert_eq!(parse_latest_release_tag("nothing here"), Err(ElanError::MissingReleaseTag));
}

#[test]
fn stable_and_beta_fallback_by_version() {
    let cfg = cfg_with(&[
        ("leanprover--lean4---v4.10.0", false),
        ("leanprover--lean4---v4.9.0", false),
        ("leanprover--lean4---v4.11.0-rc1", false),
        ("leanprover--lean4---v4.11.0-rc2", false),
    ]);
    assert_eq!(
        find_latest_local_toolchain(&cfg, "stable"),
        Some(remote("leanprover/lean4", "v4.10.0", None))
    );
    assert_eq!(
        find_latest_local_toolchain(&cfg, "beta"),
        Some(remote("leanprover/lean4", "v4.11.0-rc2", None))
    );
    assert_eq!(find_latest_local_toolchain(&cfg, "nightly"), None);
}

#[test]
fn unparsable_latest_page_without_stand_in_fails() {
    let cfg = cfg_with(&[]);
    let p = PendingFetch {
        desc: unresolved("me/fork", "stable", Some("stable")),
        request: FetchRequest::LatestTag { url: "u".to_string() },
        depth: 0,
    };
    assert_eq!(
        resolve_fetched(&cfg, &p, false, true, Ok("no tags".to_string())),
        Err(ElanError::MissingReleaseTag)
    );
}

#[test]
fn release_feed_only_for_default_origin() {
    assert_eq!(get_json_uri_for_releases("leanprover/lean4"), Some("https://release.lean-lang.org"));
    assert_eq!(
        get_json_uri_for_releases("leanprover/lean4-nightly"),
        Some("https://release.lean-lang.org")
    );
    assert_eq!(get_json_uri_for_releases("me/fork"), None);
}
