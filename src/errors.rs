//! The failures this library reports.
use crate::text::{cat2, cat3};
use vstd::prelude::*;

verus! {

/// Why an operation of this library failed.
#[derive(Debug, Clone, PartialEq, Eq)]
pub enum ElanError {
    /// The text is not a toolchain name of the accepted grammar.
    InvalidToolchainName(String),
    /// A remote query failed and no usable local toolchain stands in for it.
    RemoteFetchFailed(String),
    /// The channel is not offered for the given origin (`beta` on a custom origin).
    UnsupportedChannel { channel: String, origin: String },
    /// The release feed holds no release of that name.
    NoSuchRelease(String),
    /// The release offers no archive for the platform.
    AssetNotFoundForPlatform(String),
    /// The archive's name has no suffix this library can unpack.
    ArchiveFormatUnsupported(String),
    /// The toolchain directory is already there.
    AlreadyInstalled(String),
    /// The toolchain is not installed.
    NotInstalled(String),
    /// A toolchain pin file has no line.
    EmptyToolchainFile(String),
    /// A package manifest could not be read as TOML.
    InvalidLeanpkgFile { path: String, message: String },
    /// A package manifest's `lean_version` holds something other than a string.
    InvalidLeanVersion { path: String, found: String },
    /// The page of the latest release names no release tag.
    MissingReleaseTag,
    /// Pin files referred to one another more often than allowed.
    RecursionLimit,
    /// The network may not be used, so the channel could not be queried.
    NetworkDisabled,
    /// The toolchain an override asked for could not be installed.
    OverrideToolchainNotInstalled { toolchain: String, context: String, cause: String },
    /// No override applies and no default toolchain is set.
    NoDefaultToolchain,
    /// This platform has no published builds.
    UnsupportedPlatform,
}

/// The message that tells a user what went wrong.
pub open spec fn error_text(e: ElanError) -> Seq<char> {
    match e {
        ElanError::InvalidToolchainName(t) => "invalid toolchain name: '"@ + t@ + "'"@,
        ElanError::RemoteFetchFailed(m) => "could not query the release host: "@ + m@,
        ElanError::UnsupportedChannel { channel, origin } => "channel '"@ + channel@
            + "' is not supported for custom origin '"@ + origin@ + "'"@,
        ElanError::NoSuchRelease(r) => "no such release: '"@ + r@ + "'"@,
        ElanError::AssetNotFoundForPlatform(t) => "binary package was not provided for '"@ + t@
            + "'"@,
        ElanError::ArchiveFormatUnsupported(u) => "unsupported archive format: "@ + u@,
        ElanError::AlreadyInstalled(n) => "'"@ + n@ + "' is already installed"@,
        ElanError::NotInstalled(p) => "toolchain is not installed: '"@ + p@ + "'"@,
        ElanError::EmptyToolchainFile(p) => "empty toolchain file '"@ + p@ + "'"@,
        ElanError::InvalidLeanpkgFile { path, message } => "couldn't parse '"@ + path@ + "': '"@
            + message@ + "'"@,
        ElanError::InvalidLeanVersion { path, found } => "invalid 'package.lean_version' value in '"@
            + path@ + "': expected string instead of "@ + found@,
        ElanError::MissingReleaseTag => "failed to parse latest release tag"@,
        ElanError::RecursionLimit => "toolchain files refer to one another too many times"@,
        ElanError::NetworkDisabled => "network access is disabled"@,
        ElanError::OverrideToolchainNotInstalled { toolchain, context, cause } =>
            "override toolchain '"@ + toolchain@ + "' is not installed: "@ + context@ + ": "@
            + cause@,
        ElanError::NoDefaultToolchain =>
            "no default toolchain configured. run `elan default stable` to install & configure the latest Lean 4 stable release."@,
        ElanError::UnsupportedPlatform => "no releases are built for this platform"@,
    }
}

impl ElanError {
    /// The message that tells a user what went wrong.
    pub fn message(&self) -> (r: String)
        ensures
            r@ == error_text(*self),
    {
        match self {
            ElanError::InvalidToolchainName(t) => cat3("invalid toolchain name: '", t.as_str(), "'"),
            ElanError::RemoteFetchFailed(m) => cat2("could not query the release host: ", m.as_str()),
            ElanError::UnsupportedChannel { channel, origin } => cat3(
                cat3("channel '", channel.as_str(), "' is not supported for custom origin '").as_str(),
                origin.as_str(),
                "'",
            ),
            ElanError::NoSuchRelease(r) => cat3("no such release: '", r.as_str(), "'"),
            ElanError::AssetNotFoundForPlatform(t) => cat3(
                "binary package was not provided for '",
                t.as_str(),
                "'",
            ),
            ElanError::ArchiveFormatUnsupported(u) => cat2("unsupported archive format: ", u.as_str()),
            ElanError::AlreadyInstalled(n) => cat3("'", n.as_str(), "' is already installed"),
            ElanError::NotInstalled(p) => cat3("toolchain is not installed: '", p.as_str(), "'"),
            ElanError::EmptyToolchainFile(p) => cat3("empty toolchain file '", p.as_str(), "'"),
            ElanError::InvalidLeanpkgFile { path, message } => cat3(
                cat3("couldn't parse '", path.as_str(), "': '").as_str(),
                message.as_str(),
                "'",
            ),
            ElanError::InvalidLeanVersion { path, found } => cat2(
                cat3(
                    "invalid 'package.lean_version' value in '",
                    path.as_str(),
                    "': expected string instead of ",
                ).as_str(),
                found.as_str(),
            ),
            ElanError::MissingReleaseTag => "failed to parse latest release tag".to_owned(),
            ElanError::RecursionLimit => "toolchain files refer to one another too many times".to_owned(),
            ElanError::NetworkDisabled => "network access is disabled".to_owned(),
            ElanError::OverrideToolchainNotInstalled { toolchain, context, cause } => cat2(
                cat3(
                    cat3("override toolchain '", toolchain.as_str(), "' is not installed: ").as_str(),
                    context.as_str(),
                    ": ",
                ).as_str(),
                cause.as_str(),
            ),
            ElanError::NoDefaultToolchain =>
                "no default toolchain configured. run `elan default stable` to install & configure the latest Lean 4 stable release.".to_owned(),
            ElanError::UnsupportedPlatform => "no releases are built for this platform".to_owned(),
        }
    }
}

} // verus!
