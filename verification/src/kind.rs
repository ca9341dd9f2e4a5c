//! The kinds of blocks, and the policies that each of them offers.
use vstd::prelude::*;

use crate::task::{AuthPolicy, ElevationPolicy, Step};

verus! {

/// Stable identity for every executable block. Display names and canvas
/// positions may change without invalidating bindings or stored schemas.
#[derive(Debug, Clone, Copy, PartialEq, Eq, PartialOrd, Ord, Structural)]
pub enum ActionKind {
    GithubListRepositories,
    GithubPreviewRepositories,
    GithubSelectRepositories,
    SelectArrayItems,
    ForEach,
    ForEachGitCloneIfMissing,
    CreateDirectory,
    InspectPath,
    CopyPath,
    WriteFile,
    RemovePath,
    GitClone,
    GitInspect,
    GitCloneIfMissing,
    GitFetch,
    GitFastForward,
    BrewInstall,
    RunCommand,
    RunScript,
    ConfigurePackageRegistryFiles,
    DownloadFile,
    ExtractArchive,
    InstallDmg,
    InstallPkg,
    MacosRequirements,
    AppStoreInstall,
    BambuStudioRelease,
    ActivateLicense,
}

/// All kinds, in the order in which they are listed.
pub open spec fn all_kinds() -> Seq<ActionKind> {
    seq![
        ActionKind::GithubListRepositories,
        ActionKind::GithubPreviewRepositories,
        ActionKind::GithubSelectRepositories,
        ActionKind::SelectArrayItems,
        ActionKind::ForEach,
        ActionKind::ForEachGitCloneIfMissing,
        ActionKind::CreateDirectory,
        ActionKind::InspectPath,
        ActionKind::CopyPath,
        ActionKind::WriteFile,
        ActionKind::RemovePath,
        ActionKind::GitClone,
        ActionKind::GitInspect,
        ActionKind::GitCloneIfMissing,
        ActionKind::GitFetch,
        ActionKind::GitFastForward,
        ActionKind::BrewInstall,
        ActionKind::RunCommand,
        ActionKind::RunScript,
        ActionKind::ConfigurePackageRegistryFiles,
        ActionKind::DownloadFile,
        ActionKind::ExtractArchive,
        ActionKind::InstallDmg,
        ActionKind::InstallPkg,
        ActionKind::MacosRequirements,
        ActionKind::AppStoreInstall,
        ActionKind::BambuStudioRelease,
        ActionKind::ActivateLicense,
    ]
}

impl ActionKind {
    /// Every kind once.
    pub fn all() -> (res: Vec<ActionKind>)
        ensures
            res@ == all_kinds(),
    {
        vec![
            ActionKind::GithubListRepositories,
            ActionKind::GithubPreviewRepositories,
            ActionKind::GithubSelectRepositories,
            ActionKind::SelectArrayItems,
            ActionKind::ForEach,
            ActionKind::ForEachGitCloneIfMissing,
            ActionKind::CreateDirectory,
            ActionKind::InspectPath,
            ActionKind::CopyPath,
            ActionKind::WriteFile,
            ActionKind::RemovePath,
            ActionKind::GitClone,
            ActionKind::GitInspect,
            ActionKind::GitCloneIfMissing,
            ActionKind::GitFetch,
            ActionKind::GitFastForward,
            ActionKind::BrewInstall,
            ActionKind::RunCommand,
            ActionKind::RunScript,
            ActionKind::ConfigurePackageRegistryFiles,
            ActionKind::DownloadFile,
            ActionKind::ExtractArchive,
            ActionKind::InstallDmg,
            ActionKind::InstallPkg,
            ActionKind::MacosRequirements,
            ActionKind::AppStoreInstall,
            ActionKind::BambuStudioRelease,
            ActionKind::ActivateLicense,
        ]
    }

    pub open spec fn name(self) -> Seq<char> {
        match self {
            ActionKind::GithubListRepositories => "github-list-repositories"@,
            ActionKind::GithubPreviewRepositories => "github-preview-repositories"@,
            ActionKind::GithubSelectRepositories => "github-select-repositories"@,
            ActionKind::SelectArrayItems => "select-array-items"@,
            ActionKind::ForEach => "for-each"@,
            ActionKind::ForEachGitCloneIfMissing => "for-each-git-clone-if-missing"@,
            ActionKind::CreateDirectory => "create-directory"@,
            ActionKind::InspectPath => "inspect-path"@,
            ActionKind::CopyPath => "copy-path"@,
            ActionKind::WriteFile => "write-file"@,
            ActionKind::RemovePath => "remove-path"@,
            ActionKind::GitClone => "git-clone"@,
            ActionKind::GitInspect => "git-inspect"@,
            ActionKind::GitCloneIfMissing => "git-clone-if-missing"@,
            ActionKind::GitFetch => "git-fetch"@,
            ActionKind::GitFastForward => "git-fast-forward"@,
            ActionKind::BrewInstall => "brew-install"@,
            ActionKind::RunCommand => "run-command"@,
            ActionKind::RunScript => "run-script"@,
            ActionKind::ConfigurePackageRegistryFiles => "configure-package-registry-files"@,
            ActionKind::DownloadFile => "download-file"@,
            ActionKind::ExtractArchive => "extract-archive"@,
            ActionKind::InstallDmg => "install-dmg"@,
            ActionKind::InstallPkg => "install-pkg"@,
            ActionKind::MacosRequirements => "macos-requirements"@,
            ActionKind::AppStoreInstall => "app-store-install"@,
            ActionKind::BambuStudioRelease => "bambu-studio-release"@,
            ActionKind::ActivateLicense => "activate-license"@,
        }
    }

    pub fn id(self) -> (res: &'static str)
        ensures
            res@ == self.name(),
    {
        match self {
            ActionKind::GithubListRepositories => "github-list-repositories",
            ActionKind::GithubPreviewRepositories => "github-preview-repositories",
            ActionKind::GithubSelectRepositories => "github-select-repositories",
            ActionKind::SelectArrayItems => "select-array-items",
            ActionKind::ForEach => "for-each",
            ActionKind::ForEachGitCloneIfMissing => "for-each-git-clone-if-missing",
            ActionKind::CreateDirectory => "create-directory",
            ActionKind::InspectPath => "inspect-path",
            ActionKind::CopyPath => "copy-path",
            ActionKind::WriteFile => "write-file",
            ActionKind::RemovePath => "remove-path",
            ActionKind::GitClone => "git-clone",
            ActionKind::GitInspect => "git-inspect",
            ActionKind::GitCloneIfMissing => "git-clone-if-missing",
            ActionKind::GitFetch => "git-fetch",
            ActionKind::GitFastForward => "git-fast-forward",
            ActionKind::BrewInstall => "brew-install",
            ActionKind::RunCommand => "run-command",
            ActionKind::RunScript => "run-script",
            ActionKind::ConfigurePackageRegistryFiles => "configure-package-registry-files",
            ActionKind::DownloadFile => "download-file",
            ActionKind::ExtractArchive => "extract-archive",
            ActionKind::InstallDmg => "install-dmg",
            ActionKind::InstallPkg => "install-pkg",
            ActionKind::MacosRequirements => "macos-requirements",
            ActionKind::AppStoreInstall => "app-store-install",
            ActionKind::BambuStudioRelease => "bambu-studio-release",
            ActionKind::ActivateLicense => "activate-license",
        }
    }

    pub open spec fn graph_action(self) -> bool {
        self != ActionKind::ForEach && self != ActionKind::ForEachGitCloneIfMissing
    }

    /// Whether this registry entry is represented by an executable graph
    /// action node. Legacy foreach entries remain readable for imports, but
    /// graph v3 represents loops structurally with `GraphNode::ForEach`.
    pub fn is_graph_action(self) -> (res: bool)
        ensures
            res == self.graph_action(),
    {
        !matches!(self, ActionKind::ForEach | ActionKind::ForEachGitCloneIfMissing)
    }
}

#[derive(Debug, Clone, Copy, PartialEq, Eq, Structural)]
pub enum PolicyRequirement {
    Forbidden,
    Optional,
    Required,
}

/// How a block is presented in pickers and catalogs.
///
/// Specialized blocks stay executable and searchable. They are hidden from
/// the default picker so vendor-specific and composite actions do not bury
/// the everyday filesystem / git / brew set.
#[derive(Debug, Clone, Copy, PartialEq, Eq, Structural)]
pub enum BlockCatalog {
    Core,
    Specialized,
}

impl Default for PolicyRequirement {
    fn default() -> (res: Self)
        ensures
            res == PolicyRequirement::Forbidden,
    {
        PolicyRequirement::Forbidden
    }
}

impl Default for BlockCatalog {
    fn default() -> (res: Self)
        ensures
            res == BlockCatalog::Core,
    {
        BlockCatalog::Core
    }
}

#[derive(Debug, Clone, Copy, PartialEq, Eq, Structural)]
pub struct BlockPolicyCapabilities {
    pub allow_git_credentials: bool,
    pub allow_sudo: bool,
    pub allow_elevation: bool,
    pub dangerous: PolicyRequirement,
}

/// The policy under which nothing is allowed beyond the ordinary.
pub open spec fn strictest() -> BlockPolicyCapabilities {
    BlockPolicyCapabilities {
        allow_git_credentials: false,
        allow_sudo: false,
        allow_elevation: false,
        dangerous: PolicyRequirement::Forbidden,
    }
}

impl Default for BlockPolicyCapabilities {
    fn default() -> (res: Self)
        ensures
            res == strictest(),
    {
        BlockPolicyCapabilities {
            allow_git_credentials: false,
            allow_sudo: false,
            allow_elevation: false,
            dangerous: PolicyRequirement::Forbidden,
        }
    }
}

impl BlockPolicyCapabilities {
    pub open spec fn auth_allowed(self, auth: AuthPolicy) -> bool {
        match auth {
            AuthPolicy::NoAuth => true,
            AuthPolicy::GitCredential => self.allow_git_credentials,
            AuthPolicy::Sudo => self.allow_sudo,
        }
    }

    pub open spec fn danger_allowed(self, dangerous: bool) -> bool {
        match self.dangerous {
            PolicyRequirement::Forbidden => !dangerous,
            PolicyRequirement::Optional => true,
            PolicyRequirement::Required => dangerous,
        }
    }

    pub open spec fn admits(
        self,
        auth: AuthPolicy,
        elevation: ElevationPolicy,
        dangerous: bool,
    ) -> bool {
        &&& self.auth_allowed(auth)
        &&& self.allow_elevation || elevation == ElevationPolicy::Forbidden
        &&& self.danger_allowed(dangerous)
    }

    pub fn allows_auth(&self, auth: AuthPolicy) -> (res: bool)
        ensures
            res == self.auth_allowed(auth),
    {
        match auth {
            AuthPolicy::NoAuth => true,
            AuthPolicy::GitCredential => self.allow_git_credentials,
            AuthPolicy::Sudo => self.allow_sudo,
        }
    }

    pub fn allows_dangerous(&self, dangerous: bool) -> (res: bool)
        ensures
            res == self.danger_allowed(dangerous),
    {
        match self.dangerous {
            PolicyRequirement::Forbidden => !dangerous,
            PolicyRequirement::Optional => true,
            PolicyRequirement::Required => dangerous,
        }
    }

    pub fn accepts(&self, step: &Step) -> (res: bool)
        ensures
            res == self.admits(step@.auth, step@.allow_elevation, step@.dangerous),
    {
        self.allows_auth(step.auth) && (self.allow_elevation || matches!(
            step.allow_elevation,
            ElevationPolicy::Forbidden
        )) && self.allows_dangerous(step.dangerous)
    }
}

pub open spec fn catalog_of(kind: ActionKind) -> BlockCatalog {
    match kind {
        ActionKind::BambuStudioRelease => BlockCatalog::Specialized,
        ActionKind::ActivateLicense => BlockCatalog::Specialized,
        ActionKind::ConfigurePackageRegistryFiles => BlockCatalog::Specialized,
        ActionKind::GitClone => BlockCatalog::Specialized,
        ActionKind::ForEachGitCloneIfMissing => BlockCatalog::Specialized,
        _ => BlockCatalog::Core,
    }
}

pub fn block_catalog(kind: ActionKind) -> (res: BlockCatalog)
    ensures
        res == catalog_of(kind),
{
    match kind {
        ActionKind::BambuStudioRelease
        | ActionKind::ActivateLicense
        | ActionKind::ConfigurePackageRegistryFiles
        | ActionKind::GitClone
        | ActionKind::ForEachGitCloneIfMissing => BlockCatalog::Specialized,
        _ => BlockCatalog::Core,
    }
}

/// Kinds that touch only data and the user's own files, or a store that asks by
/// itself: they offer no policy beyond the ordinary.
pub open spec fn ordinary(kind: ActionKind) -> bool {
    ||| kind == ActionKind::GithubListRepositories
    ||| kind == ActionKind::GithubPreviewRepositories
    ||| kind == ActionKind::GithubSelectRepositories
    ||| kind == ActionKind::SelectArrayItems
    ||| kind == ActionKind::ForEach
    ||| kind == ActionKind::ForEachGitCloneIfMissing
    ||| kind == ActionKind::CreateDirectory
    ||| kind == ActionKind::InspectPath
    ||| kind == ActionKind::CopyPath
    ||| kind == ActionKind::WriteFile
    ||| kind == ActionKind::RemovePath
    ||| kind == ActionKind::AppStoreInstall
}

pub open spec fn policy_of(kind: ActionKind) -> BlockPolicyCapabilities {
    if ordinary(kind) {
        strictest()
    } else {
        BlockPolicyCapabilities {
            allow_git_credentials: true,
            allow_sudo: true,
            allow_elevation: true,
            dangerous: if kind == ActionKind::RunScript {
                PolicyRequirement::Required
            } else {
                PolicyRequirement::Optional
            },
        }
    }
}

pub fn block_policy_capabilities(kind: ActionKind) -> (res: BlockPolicyCapabilities)
    ensures
        res == policy_of(kind),
{
    match kind {
        ActionKind::GithubListRepositories
        | ActionKind::GithubPreviewRepositories
        | ActionKind::GithubSelectRepositories
        | ActionKind::SelectArrayItems
        | ActionKind::ForEach
        | ActionKind::ForEachGitCloneIfMissing
        | ActionKind::CreateDirectory
        | ActionKind::InspectPath
        | ActionKind::CopyPath
        | ActionKind::WriteFile
        | ActionKind::RemovePath
        | ActionKind::AppStoreInstall => BlockPolicyCapabilities {
            allow_git_credentials: false,
            allow_sudo: false,
            allow_elevation: false,
            dangerous: PolicyRequirement::Forbidden,
        },
        ActionKind::RunScript => BlockPolicyCapabilities {
            allow_git_credentials: true,
            allow_sudo: true,
            allow_elevation: true,
            dangerous: PolicyRequirement::Required,
        },
        _ => BlockPolicyCapabilities {
            allow_git_credentials: true,
            allow_sudo: true,
            allow_elevation: true,
            dangerous: PolicyRequirement::Optional,
        },
    }
}

/// Every kind is listed, and none of them twice.
pub proof fn law_all_kinds_listed(kind: ActionKind)
    ensures
        all_kinds().contains(kind),
        all_kinds().no_duplicates(),
{
    let list = all_kinds();
    assert(list[0] == ActionKind::GithubListRepositories);
    assert(list[1] == ActionKind::GithubPreviewRepositories);
    assert(list[2] == ActionKind::GithubSelectRepositories);
    assert(list[3] == ActionKind::SelectArrayItems);
    assert(list[4] == ActionKind::ForEach);
    assert(list[5] == ActionKind::ForEachGitCloneIfMissing);
    assert(list[6] == ActionKind::CreateDirectory);
    assert(list[7] == ActionKind::InspectPath);
    assert(list[8] == ActionKind::CopyPath);
    assert(list[9] == ActionKind::WriteFile);
    assert(list[10] == ActionKind::RemovePath);
    assert(list[11] == ActionKind::GitClone);
    assert(list[12] == ActionKind::GitInspect);
    assert(list[13] == ActionKind::GitCloneIfMissing);
    assert(list[14] == ActionKind::GitFetch);
    assert(list[15] == ActionKind::GitFastForward);
    assert(list[16] == ActionKind::BrewInstall);
    assert(list[17] == ActionKind::RunCommand);
    assert(list[18] == ActionKind::RunScript);
    assert(list[19] == ActionKind::ConfigurePackageRegistryFiles);
    assert(list[20] == ActionKind::DownloadFile);
    assert(list[21] == ActionKind::ExtractArchive);
    assert(list[22] == ActionKind::InstallDmg);
    assert(list[23] == ActionKind::InstallPkg);
    assert(list[24] == ActionKind::MacosRequirements);
    assert(list[25] == ActionKind::AppStoreInstall);
    assert(list[26] == ActionKind::BambuStudioRelease);
    assert(list[27] == ActionKind::ActivateLicense);
}

/// A step that asks for nothing is accepted under every policy but one that demands it be marked
/// as dangerous, and steps that run scripts must be so marked. Steps that touch only data and the
/// user's own files may ask for nothing; all others may ask for credentials and elevation.
pub proof fn law_policies(kind: ActionKind, auth: AuthPolicy, elevation: ElevationPolicy)
    ensures
        kind != ActionKind::RunScript ==> policy_of(kind).admits(
            AuthPolicy::NoAuth,
            ElevationPolicy::Forbidden,
            false,
        ),
        kind == ActionKind::RunScript ==> !policy_of(kind).admits(auth, elevation, false)
            && policy_of(kind).admits(auth, elevation, true),
        kind == ActionKind::RunCommand ==> policy_of(kind).admits(auth, elevation, true)
            && policy_of(kind).admits(auth, elevation, false),
        (kind == ActionKind::CreateDirectory || kind == ActionKind::RemovePath || kind
            == ActionKind::WriteFile || kind == ActionKind::CopyPath || kind
            == ActionKind::InspectPath || kind == ActionKind::GithubListRepositories) ==> !policy_of(
            kind,
        ).admits(auth, elevation, true) && (policy_of(kind).admits(auth, elevation, false) ==> auth
            == AuthPolicy::NoAuth && elevation == ElevationPolicy::Forbidden),
{
}

} // verus!
