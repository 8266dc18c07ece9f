use elan::desc::ToolchainDesc;
use elan::download::{Event, Progress};
use elan::install::{InstallMethod, MethodStep};
use elan::errors::ElanError;
use elan::manifestation::{
    latest_release_in_feed,
    archive_kind, asset_url_from_feed, asset_url_from_page, informal_target, install_step,
    release_page_url, ArchiveKind, AssetInfo, Component, InstallAction, InstallEvent,
    InstallPhase, Manifestation, ReleaseInfo, TargetArch, TargetOs,
};

#[test]
fn platform_names() {
    assert_eq!(informal_target(TargetOs::Linux, TargetArch::X86_64).unwrap(), "linux");
    assert_eq!(informal_target(TargetOs::MacOs, TargetArch::Aarch64).unwrap(), "darwin_aarch64");
    assert_eq!(informal_target(TargetOs::Windows, TargetArch::X86_64).unwrap(), "windows");
    assert_eq!(informal_target(TargetOs::Other, TargetArch::X86_64), Err(ElanError::UnsupportedPlatform));
    assert_eq!(informal_target(TargetOs::Linux, TargetArch::Other), Err(ElanError::UnsupportedPlatform));
}

#[test]
fn archive_formats() {
    assert_eq!(archive_kind("https://x/lean-linux.tar.gz"), Ok(ArchiveKind::TarGz));
    assert_eq!(archive_kind("https://x/lean-linux.tar.zst"), Ok(ArchiveKind::TarZst));
    assert_eq!(archive_kind("https://x/lean-windows.zip"), Ok(ArchiveKind::Zip));
    assert_eq!(
        archive_kind("https://x/lean.rar"),
        Err(ElanError::ArchiveFormatUnsupported("https://x/lean.rar".to_string()))
    );
}

fn asset(name: &str, url: &str) -> AssetInfo {
    AssetInfo { name: Some(name.to_string()), browser_download_url: url.to_string() }
}

#[test]
fn feed_asset_selection() {
    let releases = vec![
        ReleaseInfo { name: "v4.8.0".to_string(), assets: vec![asset("lean-4.8.0-linux.zip", "u0")] },
        ReleaseInfo {
            name: "v4.9.0".to_string(),
            assets: vec![
                AssetInfo { name: None, browser_download_url: "none".to_string() },
                asset("lean-4.9.0-linux_aarch64.tar.zst", "u1"),
                asset("lean-4.9.0-linux.tar.zst", "u2"),
            ],
        },
    ];
    assert_eq!(asset_url_from_feed(&releases, "v4.9.0", "linux").unwrap(), "u2");
    assert_eq!(asset_url_from_feed(&releases, "v4.9.0", "linux_aarch64").unwrap(), "u1");
    assert_eq!(
        asset_url_from_feed(&releases, "v4.9.0", "darwin"),
        Err(ElanError::AssetNotFoundForPlatform("darwin".to_string()))
    );
    assert_eq!(
        asset_url_from_feed(&releases, "v5.0.0", "linux"),
        Err(ElanError::NoSuchRelease("v5.0.0".to_string()))
    );
}

#[test]
fn page_asset_selection() {
    let page = [
        "<a href=\"/me/fork/releases/download/v1/lean-v1-linux_aarch64.tar.zst\">a</a>",
        "<a href=\"/other/x/releases/download/v1/lean-v1-linux.tar.zst\">b</a>",
        "<a href=\"/me/fork/releases/download/v1/lean-v1-linux.tar.zst\">c</a>",
    ]
    .join("");
    let page = page.as_str();
    assert_eq!(
        asset_url_from_page(page, "me/fork", "linux").unwrap(),
        "https://github.com/me/fork/releases/download/v1/lean-v1-linux.tar.zst"
    );
    assert_eq!(
        asset_url_from_page(page, "me/fork", "windows"),
        Err(ElanError::AssetNotFoundForPlatform("windows".to_string()))
    );
    assert_eq!(
        release_page_url("me/fork", "v1"),
        "https://github.com/me/fork/releases/expanded_assets/v1"
    );
}

fn run(events: Vec<InstallEvent>) -> Vec<InstallAction> {
    let mut phase = InstallPhase::Start;
    let mut actions = Vec::new();
    for e in events {
        let (p, a) = install_step(phase, e);
        phase = p;
        actions.push(a);
    }
    actions
}

#[test]
fn fresh_install_stages_then_promotes() {
    let actions = run(vec![
        InstallEvent::Begin,
        InstallEvent::LockTried { acquired: true, holder: String::new() },
        InstallEvent::RootProbed { is_dir: false },
        InstallEvent::ArchiveFetched(Ok(())),
        InstallEvent::StagingProbed { is_dir: false },
        InstallEvent::StepDone(Ok(())),
        InstallEvent::StepDone(Ok(())),
        InstallEvent::StepDone(Ok(())),
        InstallEvent::LockReleased,
    ]);
    assert_eq!(
        actions,
        vec![
            InstallAction::TryLock,
            InstallAction::ProbeRoot,
            InstallAction::FetchArchive,
            InstallAction::ProbeStaging,
            InstallAction::CreateStaging,
            InstallAction::Unpack,
            InstallAction::Promote,
            InstallAction::ReleaseLock,
            InstallAction::Finish(Ok(())),
        ]
    );
}

#[test]
fn second_install_is_a_no_op() {
    let actions = run(vec![
        InstallEvent::Begin,
        InstallEvent::LockTried { acquired: true, holder: String::new() },
        InstallEvent::RootProbed { is_dir: true },
        InstallEvent::LockReleased,
    ]);
    assert_eq!(
        actions,
        vec![
            InstallAction::TryLock,
            InstallAction::ProbeRoot,
            InstallAction::ReleaseLock,
            InstallAction::Finish(Ok(())),
        ]
    );
}

#[test]
fn stale_staging_is_removed_first() {
    let actions = run(vec![
        InstallEvent::Begin,
        InstallEvent::LockTried { acquired: true, holder: String::new() },
        InstallEvent::RootProbed { is_dir: false },
        InstallEvent::ArchiveFetched(Ok(())),
        InstallEvent::StagingProbed { is_dir: true },
        InstallEvent::StepDone(Ok(())),
    ]);
    assert_eq!(actions[4], InstallAction::RemoveStaging);
    assert_eq!(actions[5], InstallAction::CreateStaging);
}

#[test]
fn busy_lock_waits_and_tells_once() {
    let actions = run(vec![
        InstallEvent::Begin,
        InstallEvent::LockTried { acquired: false, holder: "4242".to_string() },
        InstallEvent::LockTried { acquired: false, holder: "4242".to_string() },
        InstallEvent::RootProbed { is_dir: true },
        InstallEvent::LockTried { acquired: true, holder: String::new() },
        InstallEvent::RootProbed { is_dir: true },
    ]);
    assert_eq!(actions[1], InstallAction::WaitForLock { holder: Some("4242".to_string()) });
    assert_eq!(actions[2], InstallAction::WaitForLock { holder: None });
    assert_eq!(actions[3], InstallAction::Ignore);
    assert_eq!(actions[4], InstallAction::ProbeRoot);
    assert_eq!(actions[5], InstallAction::ReleaseLock);
}

#[test]
fn failed_unpack_releases_lock_and_fails() {
    let err = ElanError::ArchiveFormatUnsupported("x.rar".to_string());
    let actions = run(vec![
        InstallEvent::Begin,
        InstallEvent::LockTried { acquired: true, holder: String::new() },
        InstallEvent::RootProbed { is_dir: false },
        InstallEvent::ArchiveFetched(Ok(())),
        InstallEvent::StagingProbed { is_dir: false },
        InstallEvent::StepDone(Ok(())),
        InstallEvent::StepDone(Err(err.clone())),
        InstallEvent::LockReleased,
    ]);
    assert_eq!(actions[6], InstallAction::ReleaseLock);
    assert_eq!(actions[7], InstallAction::Finish(Err(err)));
}

#[test]
fn manifestation_and_component() {
    let m = Manifestation::open("/t/x".to_string()).unwrap();
    assert_eq!(m.prefix(), "/t/x");
    let c = Component { pkg: "lean".to_string() };
    assert_eq!(c.name(), "lean");
    assert_eq!(c.description(), "'lean'");
}

#[test]
fn copy_and_link_replace_existing_directory() {
    let copy = InstallMethod::Copy("/src".to_string());
    assert_eq!(copy.run(true), vec![MethodStep::Uninstall, MethodStep::CopyDir("/src".to_string())]);
    assert_eq!(copy.run(false), vec![MethodStep::CopyDir("/src".to_string())]);
    let link = InstallMethod::Link("/b".to_string());
    assert_eq!(link.run(true), vec![MethodStep::Uninstall, MethodStep::SymlinkDir("/b".to_string())]);
    let d = ToolchainDesc::Local { name: "x".to_string() };
    assert_eq!(InstallMethod::Dist(d.clone()).run(true), vec![MethodStep::InstallFromDist(d)]);
}

#[test]
fn download_progress_counts_bytes() {
    let mut p = Progress::new();
    p.handle(&Event::DownloadContentLengthReceived(10));
    p.handle(&Event::DownloadDataReceived(vec![1, 2, 3]));
    p.handle(&Event::DownloadDataReceived(vec![4]));
    assert_eq!(p.total, Some(10));
    assert_eq!(p.received, 4);
    let mut full = Progress { total: None, received: u64::MAX - 1 };
    full.handle(&Event::DownloadDataReceived(vec![0, 0, 0]));
    assert_eq!(full.received, u64::MAX);
}

#[test]
fn newest_release_of_feed_channel() {
    let rel = |n: &str| ReleaseInfo { name: n.to_string(), assets: Vec::new() };
    let feed = vec![
        ("stable".to_string(), vec![rel("v4.9.0"), rel("v4.8.0")]),
        ("beta".to_string(), Vec::new()),
        ("nightly".to_string(), vec![rel("nightly-2024-01-02")]),
    ];
    assert_eq!(latest_release_in_feed(&feed, "stable"), Some("v4.9.0".to_string()));
    assert_eq!(latest_release_in_feed(&feed, "nightly"), Some("nightly-2024-01-02".to_string()));
    assert_eq!(latest_release_in_feed(&feed, "beta"), None);
    assert_eq!(latest_release_in_feed(&feed, "other"), None);
}
