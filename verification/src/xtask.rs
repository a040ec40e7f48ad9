//! Configuration shared by the xtask building blocks.
use vstd::prelude::*;

verus! {

/// Where the workspace lives and how output is written; paths are kept as text.
#[derive(Debug, Clone)]
pub struct XtaskConfig {
    pub root: String,
    pub wrapper_dir: String,
    pub target_namespace: String,
    pub default_aax_sdk_root: Option<String>,
    pub output_language: XtaskOutputLanguage,
}

/// The language of user-facing xtask output.
#[derive(Debug, Clone, Copy, PartialEq, Eq, Structural)]
pub enum XtaskOutputLanguage {
    English,
    Japanese,
}

impl XtaskOutputLanguage {
    /// English is the default output language.
    pub fn default_language() -> (r: XtaskOutputLanguage)
        ensures
            r == XtaskOutputLanguage::English,
    {
        XtaskOutputLanguage::English
    }
}

/// A workspace package that is a WRAC plugin.
#[derive(Debug, Clone)]
pub struct WracPluginPackage {
    pub package_name: String,
    pub artifact_namespace: String,
    pub manifest_path: String,
    pub plugin_root: String,
}

/// Where plugins are installed.
#[derive(Debug, Clone, Copy, PartialEq, Eq, Structural)]
pub enum InstallScope {
    Default,
    User,
    System,
}

/// Which installed copies an uninstall removes.
#[derive(Debug, Clone, Copy, PartialEq, Eq, Structural)]
pub enum UninstallScope {
    All,
    User,
    System,
}

/// The `Debug` text of an install scope.
pub open spec fn install_scope_name(s: InstallScope) -> Seq<char> {
    match s {
        InstallScope::Default => "Default"@,
        InstallScope::User => "User"@,
        InstallScope::System => "System"@,
    }
}

impl InstallScope {
    /// The `Debug` text of the scope.
    pub fn name(self) -> (r: &'static str)
        ensures
            r@ == install_scope_name(self),
    {
        match self {
            InstallScope::Default => "Default",
            InstallScope::User => "User",
            InstallScope::System => "System",
        }
    }
}

} // verus!
