//! Events this library reports to whatever presents them, and how loudly.
use crate::desc::{display, ToolchainDesc};
use crate::errors::{error_text, ElanError};
use crate::text::{cat2, cat3};
use vstd::prelude::*;

verus! {

/// How prominent a notification is.
#[derive(Debug, Clone, Copy, PartialEq, Eq)]
pub enum NotificationLevel {
    Verbose,
    Info,
    Warn,
    Error,
}

/// Something that happened while managing toolchains.
#[derive(Debug, Clone, PartialEq, Eq)]
pub enum Notification {
    SetDefaultToolchain(String),
    SetOverrideToolchain(String, ToolchainDesc),
    LookingForToolchain(ToolchainDesc),
    ToolchainDirectory(String, ToolchainDesc),
    UpdatingToolchain(ToolchainDesc),
    InstallingToolchain(ToolchainDesc),
    InstalledToolchain(ToolchainDesc),
    UsingExistingToolchain(ToolchainDesc),
    UsingExistingRelease(ToolchainDesc),
    UninstallingToolchain(ToolchainDesc),
    UninstallingObsoleteToolchain(String),
    UninstalledToolchain(ToolchainDesc),
    ToolchainNotInstalled(ToolchainDesc),
    UpdateHashMatches,
    UpgradingMetadata(String, String),
    MetadataUpgradeNotNeeded(String),
    WritingMetadataVersion(String),
    ReadMetadataVersion(String),
    NonFatalError(ElanError),
    UpgradeRemovesToolchains,
    MissingFileDuringSelfUninstall(String),
    SetTelemetry(String),
    TelemetryCleanupError(ElanError),
    DownloadingComponent(String),
    InstallingComponent(String),
    NewVersionAvailable(String),
    /// The install lock at this path is held by the process this names.
    WaitingForFileLock(String, String),
}

/// How prominent each notification is.
pub open spec fn level_of(n: Notification) -> NotificationLevel {
    match n {
        Notification::ToolchainDirectory(..)
        | Notification::LookingForToolchain(..)
        | Notification::WritingMetadataVersion(..)
        | Notification::InstallingToolchain(..)
        | Notification::UpdatingToolchain(..)
        | Notification::ReadMetadataVersion(..)
        | Notification::InstalledToolchain(..)
        | Notification::UpdateHashMatches
        | Notification::TelemetryCleanupError(..) => NotificationLevel::Verbose,
        Notification::NonFatalError(..) => NotificationLevel::Error,
        Notification::UpgradeRemovesToolchains
        | Notification::MissingFileDuringSelfUninstall(..)
        | Notification::UsingExistingRelease(..) => NotificationLevel::Warn,
        _ => NotificationLevel::Info,
    }
}

impl Notification {
    /// How prominent this notification is.
    pub fn level(&self) -> (r: NotificationLevel)
        ensures
            r == level_of(*self),
    {
        match self {
            Notification::ToolchainDirectory(..)
            | Notification::LookingForToolchain(..)
            | Notification::WritingMetadataVersion(..)
            | Notification::InstallingToolchain(..)
            | Notification::UpdatingToolchain(..)
            | Notification::ReadMetadataVersion(..)
            | Notification::InstalledToolchain(..)
            | Notification::UpdateHashMatches
            | Notification::TelemetryCleanupError(..) => NotificationLevel::Verbose,
            Notification::NonFatalError(..) => NotificationLevel::Error,
            Notification::UpgradeRemovesToolchains
            | Notification::MissingFileDuringSelfUninstall(..)
            | Notification::UsingExistingRelease(..) => NotificationLevel::Warn,
            _ => NotificationLevel::Info,
        }
    }
}

/// The line shown for a notification.
pub open spec fn notification_text(n: Notification) -> Seq<char> {
    match n {
        Notification::SetDefaultToolchain(name) => "default toolchain set to '"@ + name@ + "'"@,
        Notification::SetOverrideToolchain(path, d) => "override toolchain for '"@ + path@
            + "' set to '"@ + display(d@) + "'"@,
        Notification::LookingForToolchain(d) => "looking for installed toolchain '"@ + display(d@)
            + "'"@,
        Notification::ToolchainDirectory(path, _) => "toolchain directory: '"@ + path@ + "'"@,
        Notification::UpdatingToolchain(d) => "updating existing install for '"@ + display(d@)
            + "'"@,
        Notification::InstallingToolchain(d) => "installing toolchain '"@ + display(d@) + "'"@,
        Notification::InstalledToolchain(d) => "toolchain '"@ + display(d@) + "' installed"@,
        Notification::UsingExistingToolchain(d) => "using existing install for '"@ + display(d@)
            + "'"@,
        Notification::UsingExistingRelease(d) =>
            "failed to query latest release, using existing version '"@ + display(d@) + "'"@,
        Notification::UninstallingToolchain(d) => "uninstalling toolchain '"@ + display(d@) + "'"@,
        Notification::UninstallingObsoleteToolchain(p) => "uninstalling toolchain '"@ + p@
            + "' using obsolete format"@,
        Notification::UninstalledToolchain(d) => "toolchain '"@ + display(d@) + "' uninstalled"@,
        Notification::ToolchainNotInstalled(d) => "no toolchain installed for '"@ + display(d@)
            + "'"@,
        Notification::UpdateHashMatches => "toolchain is already up to date"@,
        Notification::UpgradingMetadata(from, to) => "upgrading metadata version from '"@ + from@
            + "' to '"@ + to@ + "'"@,
        Notification::MetadataUpgradeNotNeeded(v) =>
            "nothing to upgrade: metadata version is already '"@ + v@ + "'"@,
        Notification::WritingMetadataVersion(v) => "writing metadata version: '"@ + v@ + "'"@,
        Notification::ReadMetadataVersion(v) => "read metadata version: '"@ + v@ + "'"@,
        Notification::NonFatalError(e) => error_text(e),
        Notification::UpgradeRemovesToolchains =>
            "this upgrade will remove all existing toolchains. you will need to reinstall them"@,
        Notification::MissingFileDuringSelfUninstall(p) =>
            "expected file does not exist to uninstall: "@ + p@,
        Notification::SetTelemetry(t) => "telemetry set to '"@ + t@ + "'"@,
        Notification::TelemetryCleanupError(e) => "unable to remove old telemetry files: '"@
            + error_text(e) + "'"@,
        Notification::DownloadingComponent(c) => "downloading "@ + c@,
        Notification::InstallingComponent(c) => "installing "@ + c@,
        Notification::NewVersionAvailable(v) => "Version "@ + v@
            + " of elan is available! Use `elan self update` to update."@,
        Notification::WaitingForFileLock(path, pid) =>
            "waiting for previous installation request to finish ("@ + path@ + ", held by PID "@
            + pid@ + ")"@,
    }
}

fn around(head: &str, d: &ToolchainDesc, tail: &str) -> (r: String)
    ensures
        r@ == head@ + display(d@) + tail@,
{
    cat3(head, d.to_string().as_str(), tail)
}

impl Notification {
    /// The line shown for this notification.
    pub fn message(&self) -> (r: String)
        ensures
            r@ == notification_text(*self),
    {
        match self {
            Notification::SetDefaultToolchain(name) => cat3("default toolchain set to '", name.as_str(), "'"),
            Notification::SetOverrideToolchain(path, d) => around(
                cat3("override toolchain for '", path.as_str(), "' set to '").as_str(),
                d,
                "'",
            ),
            Notification::LookingForToolchain(d) => around("looking for installed toolchain '", d, "'"),
            Notification::ToolchainDirectory(path, _) => cat3("toolchain directory: '", path.as_str(), "'"),
            Notification::UpdatingToolchain(d) => around("updating existing install for '", d, "'"),
            Notification::InstallingToolchain(d) => around("installing toolchain '", d, "'"),
            Notification::InstalledToolchain(d) => around("toolchain '", d, "' installed"),
            Notification::UsingExistingToolchain(d) => around("using existing install for '", d, "'"),
            Notification::UsingExistingRelease(d) => around(
                "failed to query latest release, using existing version '",
                d,
                "'",
            ),
            Notification::UninstallingToolchain(d) => around("uninstalling toolchain '", d, "'"),
            Notification::UninstallingObsoleteToolchain(p) => cat3(
                "uninstalling toolchain '",
                p.as_str(),
                "' using obsolete format",
            ),
            Notification::UninstalledToolchain(d) => around("toolchain '", d, "' uninstalled"),
            Notification::ToolchainNotInstalled(d) => around("no toolchain installed for '", d, "'"),
            Notification::UpdateHashMatches => "toolchain is already up to date".to_owned(),
            Notification::UpgradingMetadata(from, to) => cat3(
                cat3("upgrading metadata version from '", from.as_str(), "' to '").as_str(),
                to.as_str(),
                "'",
            ),
            Notification::MetadataUpgradeNotNeeded(v) => cat3(
                "nothing to upgrade: metadata version is already '",
                v.as_str(),
                "'",
            ),
            Notification::WritingMetadataVersion(v) => cat3("writing metadata version: '", v.as_str(), "'"),
            Notification::ReadMetadataVersion(v) => cat3("read metadata version: '", v.as_str(), "'"),
            Notification::NonFatalError(e) => e.message(),
            Notification::UpgradeRemovesToolchains =>
                "this upgrade will remove all existing toolchains. you will need to reinstall them".to_owned(),
            Notification::MissingFileDuringSelfUninstall(p) => cat2(
                "expected file does not exist to uninstall: ",
                p.as_str(),
            ),
            Notification::SetTelemetry(t) => cat3("telemetry set to '", t.as_str(), "'"),
            Notification::TelemetryCleanupError(e) => cat3(
                "unable to remove old telemetry files: '",
                e.message().as_str(),
                "'",
            ),
            Notification::DownloadingComponent(c) => cat2("downloading ", c.as_str()),
            Notification::InstallingComponent(c) => cat2("installing ", c.as_str()),
            Notification::NewVersionAvailable(v) => cat3(
                "Version ",
                v.as_str(),
                " of elan is available! Use `elan self update` to update.",
            ),
            Notification::WaitingForFileLock(path, pid) => cat3(
                cat3("waiting for previous installation request to finish (", path.as_str(), ", held by PID ").as_str(),
                pid.as_str(),
                ")",
            ),
        }
    }
}

} // verus!
