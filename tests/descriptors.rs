use elan::desc::{ToolchainDesc, UnresolvedToolchainDesc};
use elan::errors::ElanError;

fn remote(origin: &str, release: &str, from_channel: Option<&str>) -> ToolchainDesc {
    ToolchainDesc::Remote {
        origin: origin.to_string(),
        release: release.to_string(),
        from_channel: from_channel.map(|c| c.to_string()),
    }
}

#[test]
fn fork_nightly_encodes_and_decodes() {
    let d = ToolchainDesc::from_resolved_str("my-fork/lean4:nightly-2023-09-06").unwrap();
    assert_eq!(d, remote("my-fork/lean4", "nightly-2023-09-06", None));
    assert_eq!(d.dir_name(), "my-fork--lean4---nightly-2023-09-06");
    let back = ToolchainDesc::from_toolchain_dir("my-fork--lean4---nightly-2023-09-06").unwrap();
    assert_eq!(back, d);
    assert_eq!(back.to_string(), "my-fork/lean4:nightly-2023-09-06");
}

#[test]
fn local_name_round_trips() {
    let d = ToolchainDesc::Local { name: "my-build".to_string() };
    assert_eq!(d.to_string(), "my-build");
    assert_eq!(d.dir_name(), "my-build");
    assert_eq!(ToolchainDesc::from_toolchain_dir(&d.dir_name()).unwrap(), d);
}

#[test]
fn channel_is_forgotten_by_round_trip() {
    let d = remote("leanprover/lean4", "v4.9.0", Some("stable"));
    let back = ToolchainDesc::from_toolchain_dir(&d.dir_name()).unwrap();
    assert_eq!(back, remote("leanprover/lean4", "v4.9.0", None));
    assert!(back.same_toolchain(&d));
    assert!(!back.same_toolchain(&remote("leanprover/lean4", "v4.8.0", None)));
}

#[test]
fn resolved_grammar_rejects_bad_names() {
    assert_eq!(
        ToolchainDesc::from_resolved_str("a/b/c:v1"),
        Err(ElanError::InvalidToolchainName("a/b/c:v1".to_string()))
    );
    assert!(ToolchainDesc::from_resolved_str("").is_err());
    assert!(ToolchainDesc::from_resolved_str("owner:v1").is_err());
    assert!(ToolchainDesc::from_resolved_str("own_er/repo:v1").is_err());
    assert!(ToolchainDesc::from_resolved_str("owner/repo:").is_err());
    assert!(ToolchainDesc::from_resolved_str("foo/bar").is_err());
}

#[test]
fn resolved_grammar_accepts_local_names() {
    assert_eq!(
        ToolchainDesc::from_resolved_str("v4.0.0").unwrap(),
        ToolchainDesc::Local { name: "v4.0.0".to_string() }
    );
}

#[test]
fn directory_name_with_colon_run_decodes_greedily() {
    assert_eq!(
        ToolchainDesc::from_toolchain_dir("a--b---c").unwrap(),
        remote("a/b", "c", None)
    );
    assert_eq!(
        ToolchainDesc::from_toolchain_dir("a----b"),
        Err(ElanError::InvalidToolchainName("a:-b".to_string()))
    );
}

#[test]
fn duplicate_is_equal() {
    let d = remote("o/r", "v1", Some("stable"));
    assert_eq!(d.duplicate(), d);
    let u = UnresolvedToolchainDesc(d.clone());
    assert_eq!(u.0, d);
}

#[test]
fn release_starting_with_dash_round_trips() {
    let d = remote("org/repo", "-rc", None);
    assert_eq!(d.dir_name(), "org--repo----rc");
    assert_eq!(ToolchainDesc::from_toolchain_dir(&d.dir_name()).unwrap(), d);
}
