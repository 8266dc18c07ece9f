//! The ways a toolchain directory comes to be: copied, linked, or installed from a release.
use crate::desc::ToolchainDesc;
use vstd::prelude::*;

verus! {

/// How a toolchain is installed.
#[derive(Debug, Clone, PartialEq, Eq)]
pub enum InstallMethod {
    /// Copy a local build from this directory.
    Copy(String),
    /// Link to a local build in this directory.
    Link(String),
    /// Download and unpack this release.
    Dist(ToolchainDesc),
}

/// One filesystem step of an install.
#[derive(Debug, Clone, PartialEq, Eq)]
pub enum MethodStep {
    /// Remove what is at the toolchain directory.
    Uninstall,
    /// Copy this directory to the toolchain directory.
    CopyDir(String),
    /// Make the toolchain directory a link to this directory.
    SymlinkDir(String),
    /// Run the install protocol for this release.
    InstallFromDist(ToolchainDesc),
}

impl InstallMethod {
    /// The steps that install this way, given whether something is already at the toolchain
    /// directory: a copy or a link replaces it; a release install keeps it, since the install
    /// protocol finds an existing toolchain and stops.
    pub fn run(&self, path_exists: bool) -> (r: Vec<MethodStep>)
        ensures
            r@ == (if path_exists && !(*self is Dist) {
                seq![MethodStep::Uninstall]
            } else {
                Seq::empty()
            }) + seq![
                match *self {
                    InstallMethod::Copy(src) => MethodStep::CopyDir(src),
                    InstallMethod::Link(src) => MethodStep::SymlinkDir(src),
                    InstallMethod::Dist(d) => MethodStep::InstallFromDist(d),
                },
            ],
    {
        let mut steps: Vec<MethodStep> = Vec::new();
        let main = match self {
            InstallMethod::Copy(src) => MethodStep::CopyDir(src.clone()),
            InstallMethod::Link(src) => MethodStep::SymlinkDir(src.clone()),
            InstallMethod::Dist(d) => MethodStep::InstallFromDist(d.duplicate()),
        };
        let replace = match self {
            InstallMethod::Dist(_) => false,
            _ => path_exists,
        };
        if replace {
            steps.push(MethodStep::Uninstall);
        }
        steps.push(main);
        proof {
            if replace {
                assert(steps@ =~= seq![MethodStep::Uninstall] + seq![steps@[1]]);
            } else {
                assert(steps@ =~= Seq::<MethodStep>::empty() + seq![steps@[0]]);
            }
        }
        steps
    }
}

} // verus!
