use elan::config::{Cfg, InstalledToolchain, Settings, TelemetryMode};
use elan::desc::{ToolchainDesc, UnresolvedToolchainDesc};
use elan::errors::ElanError;
use elan::gc::add_root;
use elan::overrides::{leanpkg_override, DirProbe, ManifestField, OverrideReason};

fn cfg() -> Cfg {
    Cfg {
        elan_dir: "/home/u/.elan".to_string(),
        toolchains_dir: "/home/u/.elan/toolchains".to_string(),
        env_override: None,
        settings: Settings {
            version: "12".to_string(),
            default_toolchain: None,
            overrides: Vec::new(),
            telemetry: TelemetryMode::Off,
        },
        installed: Vec::<InstalledToolchain>::new(),
    }
}

fn probe(path: &str, parent: Option<&str>, pin: Option<&str>, manifest: Option<&str>) -> DirProbe {
    DirProbe {
        path: path.to_string(),
        pin_path: format!("{}/lean-toolchain", path),
        pin_text: pin.map(|s| s.to_string()),
        manifest_path: format!("{}/leanpkg.toml", path),
        manifest: manifest.map(|s| s.to_string()),
        parent: parent.map(|s| s.to_string()),
        file_name: path.rsplit('/').next().map(|s| s.to_string()),
    }
}

fn remote(origin: &str, release: &str, from_channel: Option<&str>) -> ToolchainDesc {
    ToolchainDesc::Remote {
        origin: origin.to_string(),
        release: release.to_string(),
        from_channel: from_channel.map(|c| c.to_string()),
    }
}

#[test]
fn pin_file_in_parent_governs_subdirectory() {
    let cfg = cfg();
    let probes = vec![
        probe("/proj/sub", Some("/proj"), None, None),
        probe("/proj", Some("/"), Some("leanprover/lean4:stable\n"), None),
        probe("/", None, None, None),
    ];
    let found = cfg.find_override(&probes).unwrap().unwrap();
    assert_eq!(
        found.desc,
        UnresolvedToolchainDesc(remote("leanprover/lean4", "stable", Some("stable")))
    );
    assert_eq!(found.reason, OverrideReason::ToolchainFile("/proj/lean-toolchain".to_string()));
    assert_eq!(found.project_root, Some("/proj".to_string()));
    let mut roots = vec!["/other".to_string()];
    assert!(add_root(&mut roots, found.project_root.as_deref().unwrap()));
    assert_eq!(roots, vec!["/other".to_string(), "/proj".to_string()]);
    assert!(!add_root(&mut roots, "/proj"));
    assert_eq!(roots.len(), 2);
}

#[test]
fn database_entry_beats_pin_file_until_removed() {
    let mut cfg = cfg();
    cfg.settings.add_override("/proj", remote("leanprover/lean4", "v4.0.0", None));
    let probes = vec![probe("/proj", Some("/"), Some("leanprover/lean4:v4.9.0"), None)];
    let found = cfg.find_override(&probes).unwrap().unwrap();
    assert_eq!(found.desc, UnresolvedToolchainDesc(remote("leanprover/lean4", "v4.0.0", None)));
    assert_eq!(found.reason, OverrideReason::OverrideDB("/proj".to_string()));
    assert_eq!(found.project_root, None);
    assert!(cfg.settings.remove_override("/proj"));
    assert!(!cfg.settings.remove_override("/proj"));
    let found = cfg.find_override(&probes).unwrap().unwrap();
    assert_eq!(found.desc, UnresolvedToolchainDesc(remote("leanprover/lean4", "v4.9.0", None)));
    assert_eq!(found.reason, OverrideReason::ToolchainFile("/proj/lean-toolchain".to_string()));
}

#[test]
fn nearer_pin_file_beats_farther_database_entry() {
    let mut cfg = cfg();
    cfg.settings.add_override("/a", remote("leanprover/lean4", "v1.0.0", None));
    let probes = vec![
        probe("/a/b/c", Some("/a/b"), None, None),
        probe("/a/b", Some("/a"), Some("v2.0.0"), None),
        probe("/a", Some("/"), None, None),
    ];
    let found = cfg.find_override(&probes).unwrap().unwrap();
    assert_eq!(found.desc, UnresolvedToolchainDesc(remote("leanprover/lean4", "v2.0.0", None)));
    let probes = vec![probe("/a/b/c", Some("/a/b"), None, None), probe("/a/b", Some("/a"), None, None), probe("/a", Some("/"), None, None)];
    let found = cfg.find_override(&probes).unwrap().unwrap();
    assert_eq!(found.reason, OverrideReason::OverrideDB("/a".to_string()));
}

#[test]
fn environment_comes_first() {
    let mut cfg = cfg();
    cfg.env_override = Some("v3.1.0".to_string());
    let probes = vec![probe("/proj", Some("/"), Some("v4.9.0"), None)];
    let found = cfg.find_override(&probes).unwrap().unwrap();
    assert_eq!(found.desc, UnresolvedToolchainDesc(remote("leanprover/lean4", "v3.1.0", None)));
    assert_eq!(found.reason, OverrideReason::Environment);
}

#[test]
fn invalid_pin_file_is_skipped() {
    let cfg = cfg();
    let probes = vec![
        probe("/p/q", Some("/p"), Some("not a name"), None),
        probe("/p", Some("/"), Some(""), None),
    ];
    assert_eq!(cfg.find_override(&probes), Ok(None));
}

#[test]
fn package_manifest_names_toolchain() {
    let cfg = cfg();
    let text = "[package]\nname = \"demo\"\nlean_version = \"v3.4.2\"\n";
    let probes = vec![probe("/p", Some("/"), None, Some(text))];
    let found = cfg.find_override(&probes).unwrap().unwrap();
    assert_eq!(found.desc, UnresolvedToolchainDesc(remote("leanprover/lean4", "v3.4.2", None)));
    assert_eq!(found.reason, OverrideReason::LeanpkgFile("/p/leanpkg.toml".to_string()));
    let probes = vec![probe("/p", Some("/"), None, Some("[package]\nname = \"demo\"\n"))];
    assert_eq!(cfg.find_override(&probes), Ok(None));
}

#[test]
fn broken_package_manifest_fails() {
    let cfg = cfg();
    let probes = vec![probe("/p", Some("/"), None, Some("[package\n"))];
    assert!(matches!(
        cfg.find_override(&probes),
        Err(ElanError::InvalidLeanpkgFile { .. })
    ));
    let probes = vec![probe("/p", Some("/"), None, Some("[package]\nlean_version = 3\n"))];
    assert_eq!(
        cfg.find_override(&probes),
        Err(ElanError::InvalidLeanVersion { path: "/p/leanpkg.toml".to_string(), found: "integer".to_string() })
    );
}

#[test]
fn manifest_field_decisions() {
    let cfg = cfg();
    assert_eq!(leanpkg_override(&cfg, "/m", &ManifestField::Absent), Ok(None));
    assert_eq!(
        leanpkg_override(&cfg, "/m", &ManifestField::Malformed("bad".to_string())),
        Err(ElanError::InvalidLeanpkgFile { path: "/m".to_string(), message: "bad".to_string() })
    );
    assert_eq!(
        leanpkg_override(&cfg, "/m", &ManifestField::WrongType("array".to_string())),
        Err(ElanError::InvalidLeanVersion { path: "/m".to_string(), found: "array".to_string() })
    );
    let found = leanpkg_override(&cfg, "/m", &ManifestField::Version("stable".to_string())).unwrap().unwrap();
    assert_eq!(found.desc, UnresolvedToolchainDesc(remote("leanprover/lean4", "stable", Some("stable"))));
    assert!(matches!(
        leanpkg_override(&cfg, "/m", &ManifestField::Version("no good".to_string())),
        Err(ElanError::InvalidToolchainName(_))
    ));
}

#[test]
fn inside_toolchain_directory_uses_itself() {
    let cfg = cfg();
    let probes = vec![
        probe("/home/u/.elan/toolchains/leanprover--lean4---v4.9.0/bin", Some("/home/u/.elan/toolchains/leanprover--lean4---v4.9.0"), None, None),
        probe("/home/u/.elan/toolchains/leanprover--lean4---v4.9.0", Some("/home/u/.elan/toolchains"), None, None),
    ];
    let found = cfg.find_override(&probes).unwrap().unwrap();
    assert_eq!(found.desc, UnresolvedToolchainDesc(remote("leanprover/lean4", "v4.9.0", None)));
    assert_eq!(
        found.reason,
        OverrideReason::InToolchainDirectory("/home/u/.elan/toolchains/leanprover--lean4---v4.9.0".to_string())
    );
}

#[test]
fn override_table_replaces_entries() {
    let mut cfg = cfg();
    cfg.settings.add_override("/x", remote("a/b", "v1", None));
    cfg.settings.add_override("/y", remote("a/b", "v2", None));
    cfg.settings.add_override("/x", remote("a/b", "v3", None));
    assert_eq!(cfg.settings.overrides.len(), 2);
    assert_eq!(cfg.settings.dir_override("/x"), Some(remote("a/b", "v3", None)));
    assert_eq!(cfg.settings.dir_override("/y"), Some(remote("a/b", "v2", None)));
    assert_eq!(cfg.settings.dir_override("/z"), None);
    assert_eq!(cfg.get_overrides().len(), 2);
    cfg.settings.add_override("/a", remote("a/b", "v0", None));
    let keys: Vec<String> = cfg.get_overrides().into_iter().map(|(k, _)| k).collect();
    assert_eq!(keys, vec!["/a".to_string(), "/x".to_string(), "/y".to_string()]);
    assert!(cfg.settings.remove_override("/x"));
    let keys: Vec<String> = cfg.get_overrides().into_iter().map(|(k, _)| k).collect();
    assert_eq!(keys, vec!["/a".to_string(), "/y".to_string()]);
}

#[test]
fn reasons_describe_themselves() {
    assert_eq!(OverrideReason::Environment.describe(), "environment override by ELAN_TOOLCHAIN");
    assert_eq!(OverrideReason::OverrideDB("/p".to_string()).describe(), "directory override for '/p'");
    assert_eq!(OverrideReason::ToolchainFile("/p/lean-toolchain".to_string()).describe(), "overridden by '/p/lean-toolchain'");
}
