//! Toolchain version management: naming toolchains, deciding which one governs a directory,
//! resolving channels to releases, planning installs, and finding toolchains no project uses.
pub mod config;
pub mod desc;
pub mod download;
pub mod errors;
pub mod gc;
pub mod install;
pub mod manifestation;
pub mod notifications;
pub mod overrides;
pub mod resolve;
pub mod text;
pub mod toolchain;
