use elan::config::{Cfg, InstalledToolchain, Settings, TelemetryMode};
use elan::desc::{ToolchainDesc, UnresolvedToolchainDesc};
use elan::errors::ElanError;
use elan::manifestation::InstallPhase;
use elan::notifications::{Notification, NotificationLevel};
use elan::overrides::{DirProbe, OverrideReason};
use elan::resolve::Resolution;
use elan::toolchain::{
    ForDir, ForDirEvent,
    check_self_update, format_path_for_display, mk_toolchain_label,
    read_toolchain_desc_from_file, read_unresolved_toolchain_desc_from_file, Toolchain,
};

fn cfg_with(installed: &[(&str, bool)]) -> Cfg {
    Cfg {
        elan_dir: "/h/.elan".to_string(),
        toolchains_dir: "/h/.elan/toolchains".to_string(),
        env_override: None,
        settings: Settings {
            version: "12".to_string(),
            default_toolchain: None,
            overrides: Vec::new(),
            telemetry: TelemetryMode::Off,
        },
        installed: installed
            .iter()
            .map(|(n, c)| InstalledToolchain { dir_name: n.to_string(), is_custom: *c })
            .collect(),
    }
}

fn remote(origin: &str, release: &str, from_channel: Option<&str>) -> ToolchainDesc {
    ToolchainDesc::Remote {
        origin: origin.to_string(),
        release: release.to_string(),
        from_channel: from_channel.map(|c| c.to_string()),
    }
}

#[test]
fn toolchain_paths_and_presence() {
    let cfg = cfg_with(&[("leanprover--lean4---v4.9.0", false), ("dev", true)]);
    let t = Toolchain::from(&cfg, &remote("leanprover/lean4", "v4.9.0", Some("stable")));
    assert_eq!(t.path(), "/h/.elan/toolchains/leanprover--lean4---v4.9.0");
    assert_eq!(t.name(), "leanprover/lean4:v4.9.0");
    assert!(t.is_installed());
    assert!(!t.is_custom());
    assert_eq!(t.verify(), Ok(()));
    assert_eq!(
        t.doc_path("index.html").unwrap(),
        "/h/.elan/toolchains/leanprover--lean4---v4.9.0/share/doc/lean/html/index.html"
    );
    assert_eq!(
        t.install_from_dist(),
        Err(ElanError::AlreadyInstalled("leanprover/lean4:v4.9.0".to_string()))
    );
    assert_eq!(t.install_from_dist_if_not_installed(), None);
    let linked = cfg.get_toolchain(&ToolchainDesc::Local { name: "dev".to_string() });
    assert!(linked.is_installed() && linked.is_custom());
}

#[test]
fn missing_toolchain() {
    let cfg = cfg_with(&[]);
    let t = Toolchain::from(&cfg, &remote("leanprover/lean4", "v4.9.0", None));
    assert!(!t.is_installed());
    assert_eq!(
        t.verify(),
        Err(ElanError::NotInstalled("/h/.elan/toolchains/leanprover--lean4---v4.9.0".to_string()))
    );
    assert!(t.doc_path("x").is_err());
    assert_eq!(t.install_from_dist(), Ok(InstallPhase::Start));
    assert_eq!(t.install_from_dist_if_not_installed(), Some(InstallPhase::Start));
}

#[test]
fn toolchain_pins_directory() {
    let cfg = cfg_with(&[]);
    let t = Toolchain::from(&cfg, &remote("leanprover/lean4", "v4.9.0", None));
    let mut settings = cfg.settings.clone();
    t.make_override(&mut settings, "/proj");
    assert_eq!(settings.dir_override("/proj"), Some(remote("leanprover/lean4", "v4.9.0", None)));
}

#[test]
fn pin_file_reading() {
    let cfg = cfg_with(&[]);
    assert_eq!(
        read_unresolved_toolchain_desc_from_file(&cfg, "/p/lean-toolchain", " v4.9.0 \r\nignored"),
        Ok(UnresolvedToolchainDesc(remote("leanprover/lean4", "v4.9.0", None)))
    );
    assert_eq!(
        read_unresolved_toolchain_desc_from_file(&cfg, "/p/lean-toolchain", ""),
        Err(ElanError::EmptyToolchainFile("/p/lean-toolchain".to_string()))
    );
    assert!(matches!(
        read_unresolved_toolchain_desc_from_file(&cfg, "/p/lean-toolchain", "bad name\n"),
        Err(ElanError::InvalidToolchainName(_))
    ));
    assert_eq!(
        read_toolchain_desc_from_file(&cfg, "/p/lean-toolchain", "leanprover/lean4:v4.2.0\n"),
        Ok(Resolution::Resolved(remote("leanprover/lean4", "v4.2.0", None)))
    );
}

#[test]
fn default_is_used_when_nothing_overrides() {
    let mut cfg = cfg_with(&[]);
    let probes: Vec<DirProbe> = Vec::new();
    assert_eq!(cfg.select_toolchain(&probes), Ok(None));
    assert_eq!(cfg.find_override_toolchain_or_default(&probes), Ok(ForDir::Nothing));
    assert_eq!(cfg.toolchain_for_dir(&probes), Err(ElanError::NoDefaultToolchain));
    assert_eq!(cfg.resolve_default(), Ok(None));
    cfg.set_default("v4.1.0");
    assert_eq!(cfg.get_default(), Some("v4.1.0".to_string()));
    let s = cfg.select_toolchain(&probes).unwrap().unwrap();
    assert_eq!(s.desc, UnresolvedToolchainDesc(remote("leanprover/lean4", "v4.1.0", None)));
    assert_eq!(s.reason, None);
    assert_eq!(
        cfg.toolchain_for_dir(&probes),
        Ok(ForDir::Ready { toolchain: remote("leanprover/lean4", "v4.1.0", None), reason: None, project_root: None, stale: false })
    );
    assert_eq!(
        cfg.resolve_default(),
        Ok(Some(Resolution::Resolved(remote("leanprover/lean4", "v4.1.0", None))))
    );
    cfg.env_override = Some("v4.5.0".to_string());
    let s = cfg.select_toolchain(&probes).unwrap().unwrap();
    assert_eq!(s.reason, Some(OverrideReason::Environment));
}

#[test]
fn override_toolchain_is_installed_on_demand() {
    let mut cfg = cfg_with(&[]);
    cfg.env_override = Some("v4.5.0".to_string());
    let probes: Vec<DirProbe> = Vec::new();
    let state = cfg.find_override_toolchain_or_default(&probes).unwrap();
    let d = remote("leanprover/lean4", "v4.5.0", None);
    match &state {
        ForDir::Installing { toolchain, selection, stale } => {
            assert_eq!(toolchain, &d);
            assert_eq!(selection.reason, Some(OverrideReason::Environment));
            assert!(!stale);
        }
        other => panic!("unexpected {:?}", other),
    }
    let done = cfg.continue_for_dir(state.clone(), ForDirEvent::Installed(Ok(()))).unwrap();
    assert_eq!(
        done,
        ForDir::Ready { toolchain: d.clone(), reason: Some(OverrideReason::Environment), project_root: None, stale: false }
    );
    let failed = cfg.continue_for_dir(state, ForDirEvent::Installed(Err(ElanError::NoSuchRelease("v4.5.0".to_string()))));
    let e = failed.unwrap_err();
    assert_eq!(
        e,
        ElanError::OverrideToolchainNotInstalled {
            toolchain: "leanprover/lean4:v4.5.0".to_string(),
            context: "the ELAN_TOOLCHAIN environment variable specifies an uninstalled toolchain".to_string(),
            cause: "no such release: 'v4.5.0'".to_string(),
        }
    );
    assert_eq!(
        e.message(),
        "override toolchain 'leanprover/lean4:v4.5.0' is not installed: the ELAN_TOOLCHAIN environment variable specifies an uninstalled toolchain: no such release: 'v4.5.0'"
    );
}

#[test]
fn installed_override_is_ready_and_default_is_not_installed() {
    let mut cfg = cfg_with(&[("leanprover--lean4---v4.5.0", false)]);
    cfg.env_override = Some("v4.5.0".to_string());
    let probes: Vec<DirProbe> = Vec::new();
    assert_eq!(
        cfg.find_override_toolchain_or_default(&probes),
        Ok(ForDir::Ready {
            toolchain: remote("leanprover/lean4", "v4.5.0", None),
            reason: Some(OverrideReason::Environment),
            project_root: None,
            stale: false
        })
    );
    let mut cfg = cfg_with(&[]);
    cfg.set_default("stable");
    let state = cfg.find_override_toolchain_or_default(&probes).unwrap();
    assert!(matches!(state, ForDir::Resolving { .. }));
    let next = cfg.continue_for_dir(state, ForDirEvent::Fetched(Ok("v4.9.0".to_string()))).unwrap();
    assert_eq!(
        next,
        ForDir::Ready { toolchain: remote("leanprover/lean4", "v4.9.0", Some("stable")), reason: None, project_root: None, stale: false }
    );
}

#[test]
fn stand_in_release_is_marked_stale() {
    let mut cfg = cfg_with(&[("leanprover--lean4-nightly---nightly-2024-01-02", false)]);
    cfg.env_override = Some("nightly".to_string());
    let probes: Vec<DirProbe> = Vec::new();
    let state = cfg.find_override_toolchain_or_default(&probes).unwrap();
    let next = cfg.continue_for_dir(state, ForDirEvent::Fetched(Err("offline".to_string()))).unwrap();
    assert_eq!(
        next,
        ForDir::Ready {
            toolchain: remote("leanprover/lean4-nightly", "nightly-2024-01-02", None),
            reason: Some(OverrideReason::Environment),
            project_root: None,
            stale: true
        }
    );
    let state = cfg.find_override_toolchain_or_default(&probes).unwrap();
    let cfg2 = cfg_with(&[]);
    assert_eq!(
        cfg2.continue_for_dir(state, ForDirEvent::Fetched(Err("offline".to_string()))),
        Err(ElanError::RemoteFetchFailed("offline".to_string()))
    );
}

#[test]
fn listing_labels() {
    let tc = remote("leanprover/lean4", "v4.9.0", None);
    let resolved = Some(remote("leanprover/lean4", "v4.9.0", Some("stable")));
    assert_eq!(
        mk_toolchain_label(&tc, &Some("stable".to_string()), &resolved),
        "leanprover/lean4:v4.9.0 (resolved from default 'stable')"
    );
    assert_eq!(
        mk_toolchain_label(&tc, &Some("leanprover/lean4:v4.9.0".to_string()), &resolved),
        "leanprover/lean4:v4.9.0 (default)"
    );
    assert_eq!(
        mk_toolchain_label(&remote("leanprover/lean4", "v4.8.0", None), &Some("stable".to_string()), &resolved),
        "leanprover/lean4:v4.8.0"
    );
    assert_eq!(mk_toolchain_label(&tc, &None, &None), "leanprover/lean4:v4.9.0");
}

#[test]
fn verbatim_prefix_is_hidden() {
    assert_eq!(format_path_for_display("\\\\?\\C:\\lean"), "C:\\lean");
    assert_eq!(format_path_for_display("/home/u"), "/home/u");
}

#[test]
fn self_update_version() {
    assert_eq!(check_self_update("v3.1.1", "3.1.1"), None);
    assert_eq!(check_self_update("v4.0.0", "3.1.1"), Some("4.0.0".to_string()));
}

#[test]
fn notification_levels() {
    let d = remote("a/b", "v1", None);
    assert_eq!(Notification::UsingExistingRelease(d.clone()).level(), NotificationLevel::Warn);
    assert_eq!(Notification::InstallingToolchain(d.clone()).level(), NotificationLevel::Verbose);
    assert_eq!(Notification::SetDefaultToolchain("x".to_string()).level(), NotificationLevel::Info);
    assert_eq!(
        Notification::NonFatalError(ElanError::MissingReleaseTag).level(),
        NotificationLevel::Error
    );
    assert_eq!(
        Notification::WaitingForFileLock("/l".to_string(), "42".to_string()).level(),
        NotificationLevel::Info
    );
}

#[test]
fn notification_messages() {
    let d = remote("leanprover/lean4", "v4.9.0", None);
    assert_eq!(
        Notification::UsingExistingRelease(d.clone()).message(),
        "failed to query latest release, using existing version 'leanprover/lean4:v4.9.0'"
    );
    assert_eq!(
        Notification::SetOverrideToolchain("/p".to_string(), d.clone()).message(),
        "override toolchain for '/p' set to 'leanprover/lean4:v4.9.0'"
    );
    assert_eq!(
        Notification::WaitingForFileLock("/t.lock".to_string(), "42".to_string()).message(),
        "waiting for previous installation request to finish (/t.lock, held by PID 42)"
    );
    assert_eq!(
        Notification::NonFatalError(ElanError::NoSuchRelease("v9".to_string())).message(),
        "no such release: 'v9'"
    );
}

#[test]
fn error_messages() {
    assert_eq!(
        ElanError::InvalidToolchainName("a b".to_string()).message(),
        "invalid toolchain name: 'a b'"
    );
    assert_eq!(
        ElanError::UnsupportedChannel { channel: "beta".to_string(), origin: "me/fork".to_string() }.message(),
        "channel 'beta' is not supported for custom origin 'me/fork'"
    );
    assert_eq!(
        ElanError::AssetNotFoundForPlatform("linux".to_string()).message(),
        "binary package was not provided for 'linux'"
    );
    assert_eq!(
        ElanError::InvalidLeanVersion { path: "/p/leanpkg.toml".to_string(), found: "integer".to_string() }.message(),
        "invalid 'package.lean_version' value in '/p/leanpkg.toml': expected string instead of integer"
    );
}

#[test]
fn removing_toolchains() {
    let cfg = cfg_with(&[("leanprover--lean4---v4.9.0", false)]);
    let d = remote("leanprover/lean4", "v4.9.0", None);
    let (present, note) = Toolchain::from(&cfg, &d).remove();
    assert!(present);
    assert_eq!(note, Notification::UninstallingToolchain(d.clone()));
    let other = remote("leanprover/lean4", "v4.8.0", None);
    let (present, note) = Toolchain::from(&cfg, &other).remove();
    assert!(!present);
    assert_eq!(note, Notification::ToolchainNotInstalled(other));
}

#[test]
fn default_settings() {
    let s = Settings::default();
    assert_eq!(s.version, "12");
    assert_eq!(s.default_toolchain, None);
    assert!(s.overrides.is_empty());
    assert_eq!(s.telemetry, TelemetryMode::Off);
}
