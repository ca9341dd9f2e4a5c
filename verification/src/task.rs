//! Steps of a task: what an action does, and the policies and conditions around it.
use vstd::prelude::*;

use crate::binding::binding_views;
use crate::context::{Binding, BindingView, FieldRef, FieldRefView};
use crate::expr::{clone_texts, ExprView, RuleExprV1};
use crate::json::{clone_values, value_views, Value, ValueView};
use crate::kind::{block_policy_capabilities, policy_of, ActionKind};
use crate::schema::{clone_optional, optional_text, ContextType, TypeView};
use crate::text::{owned, text_views};
use crate::text_map::TextMap;

verus! {

/// Credentials that a step may use.
#[derive(Debug, Clone, Copy, PartialEq, Eq, Structural)]
pub enum AuthPolicy {
    NoAuth,
    GitCredential,
    Sudo,
}

/// Whether a step may ask for elevated rights.
#[derive(Debug, Clone, Copy, PartialEq, Eq, Structural)]
pub enum ElevationPolicy {
    Forbidden,
    Allow,
}

#[derive(Debug, Clone, Copy, PartialEq, Eq, Structural)]
pub enum WriteConflictPolicy {
    Fail,
    Replace,
}

#[derive(Debug, Clone, Copy, PartialEq, Eq, Structural)]
pub enum ShellMode {
    Forbidden,
    Allow,
}

#[derive(Debug, Clone, Copy, PartialEq, Eq, Structural)]
pub enum ScriptInterpreter {
    Sh,
    Bash,
    Powershell,
}

#[derive(Debug, Clone, Copy, PartialEq, Eq, Structural)]
pub enum ArchiveFormat {
    Auto,
    Zip,
    Tar,
    TarGz,
    TarBz2,
    TarXz,
}

#[derive(Debug, Clone, Copy, PartialEq, Eq, Structural)]
pub enum AppStoreOperation {
    Install,
    Get,
}

#[derive(Debug, Clone, Copy, PartialEq, Eq, Structural)]
pub enum ReleaseChannel {
    Release,
    Beta,
}

#[derive(Debug, Clone, Copy, PartialEq, Eq, Structural)]
pub enum LicenseProvider {
    LightBurn,
}

#[derive(Debug, Clone, Copy, PartialEq, Eq, Structural)]
pub enum LicenseMethod {
    VendorUi,
}

/// What stands at a path.
#[derive(Debug, Clone, Copy, PartialEq, Eq, Structural)]
pub enum PathKind {
    File,
    Directory,
    Symlink,
    Other,
}

/// What to do where a rule has no definite answer.
#[derive(Debug, Clone, Copy, PartialEq, Eq, Structural)]
pub enum IndeterminatePolicy {
    Fail,
    Skip,
}

#[derive(Debug, PartialEq)]
pub struct GithubAccountInput {
    pub login: String,
}

pub struct GithubAccountInputView {
    pub login: Seq<char>,
}

impl GithubAccountInput {
    pub open spec fn view(&self) -> GithubAccountInputView {
        GithubAccountInputView {
            login: self.login@,
        }
    }
}

impl Clone for GithubAccountInput {
    fn clone(&self) -> (res: Self)
        ensures
            res@ == self@,
    {
        GithubAccountInput {
            login: self.login.clone(),
        }
    }
}

#[derive(Debug, PartialEq)]
pub struct GithubRepositoryInput {
    pub id: String,
    pub owner: String,
    pub name: String,
    pub full_name: String,
    pub https_url: String,
    pub ssh_url: String,
    pub default_branch: Option<String>,
    pub private: bool,
    pub archived: bool,
}

pub struct GithubRepositoryInputView {
    pub id: Seq<char>,
    pub owner: Seq<char>,
    pub name: Seq<char>,
    pub full_name: Seq<char>,
    pub https_url: Seq<char>,
    pub ssh_url: Seq<char>,
    pub default_branch: Option<Seq<char>>,
    pub private: bool,
    pub archived: bool,
}

impl GithubRepositoryInput {
    pub open spec fn view(&self) -> GithubRepositoryInputView {
        GithubRepositoryInputView {
            id: self.id@,
            owner: self.owner@,
            name: self.name@,
            full_name: self.full_name@,
            https_url: self.https_url@,
            ssh_url: self.ssh_url@,
            default_branch: optional_text(self.default_branch),
            private: self.private,
            archived: self.archived,
        }
    }
}

impl Clone for GithubRepositoryInput {
    fn clone(&self) -> (res: Self)
        ensures
            res@ == self@,
    {
        GithubRepositoryInput {
            id: self.id.clone(),
            owner: self.owner.clone(),
            name: self.name.clone(),
            full_name: self.full_name.clone(),
            https_url: self.https_url.clone(),
            ssh_url: self.ssh_url.clone(),
            default_branch: clone_optional(&self.default_branch),
            private: self.private,
            archived: self.archived,
        }
    }
}

#[derive(Debug, PartialEq)]
pub struct GithubContextInput {
    pub account: GithubAccountInput,
    pub repositories: Vec<GithubRepositoryInput>,
}

pub struct GithubContextInputView {
    pub account: GithubAccountInputView,
    pub repositories: Seq<GithubRepositoryInputView>,
}

impl GithubContextInput {
    pub open spec fn view(&self) -> GithubContextInputView {
        GithubContextInputView {
            account: self.account@,
            repositories: github_repository_input_views(self.repositories@),
        }
    }
}

impl Clone for GithubContextInput {
    fn clone(&self) -> (res: Self)
        ensures
            res@ == self@,
    {
        GithubContextInput {
            account: self.account.clone(),
            repositories: clone_github_repository_inputs(&self.repositories),
        }
    }
}

#[derive(Debug, PartialEq)]
pub struct Checksum {
    pub sha256: String,
}

pub struct ChecksumView {
    pub sha256: Seq<char>,
}

impl Checksum {
    pub open spec fn view(&self) -> ChecksumView {
        ChecksumView {
            sha256: self.sha256@,
        }
    }
}

impl Clone for Checksum {
    fn clone(&self) -> (res: Self)
        ensures
            res@ == self@,
    {
        Checksum {
            sha256: self.sha256.clone(),
        }
    }
}

#[derive(Debug, PartialEq)]
pub struct EncryptedSecretsSpec {
    pub profile: String,
    pub username_env: String,
    pub token_env: String,
}

pub struct EncryptedSecretsSpecView {
    pub profile: Seq<char>,
    pub username_env: Seq<char>,
    pub token_env: Seq<char>,
}

impl EncryptedSecretsSpec {
    pub open spec fn view(&self) -> EncryptedSecretsSpecView {
        EncryptedSecretsSpecView {
            profile: self.profile@,
            username_env: self.username_env@,
            token_env: self.token_env@,
        }
    }
}

impl Clone for EncryptedSecretsSpec {
    fn clone(&self) -> (res: Self)
        ensures
            res@ == self@,
    {
        EncryptedSecretsSpec {
            profile: self.profile.clone(),
            username_env: self.username_env.clone(),
            token_env: self.token_env.clone(),
        }
    }
}

#[derive(Debug, PartialEq)]
pub struct NpmRegistryFileSpec {
    pub scope: String,
    pub registry: String,
}

pub struct NpmRegistryFileSpecView {
    pub scope: Seq<char>,
    pub registry: Seq<char>,
}

impl NpmRegistryFileSpec {
    pub open spec fn view(&self) -> NpmRegistryFileSpecView {
        NpmRegistryFileSpecView {
            scope: self.scope@,
            registry: self.registry@,
        }
    }
}

impl Clone for NpmRegistryFileSpec {
    fn clone(&self) -> (res: Self)
        ensures
            res@ == self@,
    {
        NpmRegistryFileSpec {
            scope: self.scope.clone(),
            registry: self.registry.clone(),
        }
    }
}

#[derive(Debug, PartialEq)]
pub struct NugetRegistryFileSpec {
    pub public_source_name: String,
    pub public_source: String,
    pub source_name: String,
    pub source: String,
    pub package_patterns: Vec<String>,
}

pub struct NugetRegistryFileSpecView {
    pub public_source_name: Seq<char>,
    pub public_source: Seq<char>,
    pub source_name: Seq<char>,
    pub source: Seq<char>,
    pub package_patterns: Seq<Seq<char>>,
}

impl NugetRegistryFileSpec {
    pub open spec fn view(&self) -> NugetRegistryFileSpecView {
        NugetRegistryFileSpecView {
            public_source_name: self.public_source_name@,
            public_source: self.public_source@,
            source_name: self.source_name@,
            source: self.source@,
            package_patterns: text_views(self.package_patterns@),
        }
    }
}

impl Clone for NugetRegistryFileSpec {
    fn clone(&self) -> (res: Self)
        ensures
            res@ == self@,
    {
        NugetRegistryFileSpec {
            public_source_name: self.public_source_name.clone(),
            public_source: self.public_source.clone(),
            source_name: self.source_name.clone(),
            source: self.source.clone(),
            package_patterns: clone_texts(&self.package_patterns),
        }
    }
}

#[derive(Debug, PartialEq)]
pub struct AppBundleIdentity {
    pub bundle_identifier: String,
    pub team_identifier: String,
    pub version: String,
}

pub struct AppBundleIdentityView {
    pub bundle_identifier: Seq<char>,
    pub team_identifier: Seq<char>,
    pub version: Seq<char>,
}

impl AppBundleIdentity {
    pub open spec fn view(&self) -> AppBundleIdentityView {
        AppBundleIdentityView {
            bundle_identifier: self.bundle_identifier@,
            team_identifier: self.team_identifier@,
            version: self.version@,
        }
    }
}

impl Clone for AppBundleIdentity {
    fn clone(&self) -> (res: Self)
        ensures
            res@ == self@,
    {
        AppBundleIdentity {
            bundle_identifier: self.bundle_identifier.clone(),
            team_identifier: self.team_identifier.clone(),
            version: self.version.clone(),
        }
    }
}

#[derive(Debug, PartialEq)]
pub struct PathExpectation {
    pub exists: Option<bool>,
    pub kind: Option<PathKind>,
    pub empty: Option<bool>,
    pub min_size_bytes: Option<u64>,
    pub max_size_bytes: Option<u64>,
    pub modified_at_or_after: Option<String>,
    pub modified_at_or_before: Option<String>,
    pub sha256: Option<String>,
}

pub struct PathExpectationView {
    pub exists: Option<bool>,
    pub kind: Option<PathKind>,
    pub empty: Option<bool>,
    pub min_size_bytes: Option<u64>,
    pub max_size_bytes: Option<u64>,
    pub modified_at_or_after: Option<Seq<char>>,
    pub modified_at_or_before: Option<Seq<char>>,
    pub sha256: Option<Seq<char>>,
}

impl PathExpectation {
    pub open spec fn view(&self) -> PathExpectationView {
        PathExpectationView {
            exists: self.exists,
            kind: self.kind,
            empty: self.empty,
            min_size_bytes: self.min_size_bytes,
            max_size_bytes: self.max_size_bytes,
            modified_at_or_after: optional_text(self.modified_at_or_after),
            modified_at_or_before: optional_text(self.modified_at_or_before),
            sha256: optional_text(self.sha256),
        }
    }
}

impl Clone for PathExpectation {
    fn clone(&self) -> (res: Self)
        ensures
            res@ == self@,
    {
        PathExpectation {
            exists: self.exists,
            kind: self.kind,
            empty: self.empty,
            min_size_bytes: self.min_size_bytes,
            max_size_bytes: self.max_size_bytes,
            modified_at_or_after: clone_optional(&self.modified_at_or_after),
            modified_at_or_before: clone_optional(&self.modified_at_or_before),
            sha256: clone_optional(&self.sha256),
        }
    }
}

#[derive(Debug, PartialEq)]
pub struct CreateDirectoryAction {
    pub path: String,
}

pub struct CreateDirectoryActionView {
    pub path: Seq<char>,
}

impl CreateDirectoryAction {
    pub open spec fn view(&self) -> CreateDirectoryActionView {
        CreateDirectoryActionView {
            path: self.path@,
        }
    }
}

impl Clone for CreateDirectoryAction {
    fn clone(&self) -> (res: Self)
        ensures
            res@ == self@,
    {
        CreateDirectoryAction {
            path: self.path.clone(),
        }
    }
}

#[derive(Debug, PartialEq)]
pub struct InspectPathAction {
    pub path: String,
    pub recursive_size: bool,
    pub sha256: bool,
    pub expect: Option<PathExpectation>,
}

pub struct InspectPathActionView {
    pub path: Seq<char>,
    pub recursive_size: bool,
    pub sha256: bool,
    pub expect: Option<PathExpectationView>,
}

impl InspectPathAction {
    pub open spec fn view(&self) -> InspectPathActionView {
        InspectPathActionView {
            path: self.path@,
            recursive_size: self.recursive_size,
            sha256: self.sha256,
            expect: optional_path_expectation(self.expect),
        }
    }
}

impl Clone for InspectPathAction {
    fn clone(&self) -> (res: Self)
        ensures
            res@ == self@,
    {
        InspectPathAction {
            path: self.path.clone(),
            recursive_size: self.recursive_size,
            sha256: self.sha256,
            expect: clone_optional_path_expectation(&self.expect),
        }
    }
}

#[derive(Debug, PartialEq)]
pub struct CopyPathAction {
    pub src: String,
    pub dest: String,
}

pub struct CopyPathActionView {
    pub src: Seq<char>,
    pub dest: Seq<char>,
}

impl CopyPathAction {
    pub open spec fn view(&self) -> CopyPathActionView {
        CopyPathActionView {
            src: self.src@,
            dest: self.dest@,
        }
    }
}

impl Clone for CopyPathAction {
    fn clone(&self) -> (res: Self)
        ensures
            res@ == self@,
    {
        CopyPathAction {
            src: self.src.clone(),
            dest: self.dest.clone(),
        }
    }
}

#[derive(Debug, PartialEq)]
pub struct WriteFileAction {
    pub path: String,
    pub content: String,
    pub on_conflict: WriteConflictPolicy,
}

pub struct WriteFileActionView {
    pub path: Seq<char>,
    pub content: Seq<char>,
    pub on_conflict: WriteConflictPolicy,
}

impl WriteFileAction {
    pub open spec fn view(&self) -> WriteFileActionView {
        WriteFileActionView {
            path: self.path@,
            content: self.content@,
            on_conflict: self.on_conflict,
        }
    }
}

impl Clone for WriteFileAction {
    fn clone(&self) -> (res: Self)
        ensures
            res@ == self@,
    {
        WriteFileAction {
            path: self.path.clone(),
            content: self.content.clone(),
            on_conflict: self.on_conflict,
        }
    }
}

#[derive(Debug, PartialEq)]
pub struct RemovePathAction {
    pub path: String,
}

pub struct RemovePathActionView {
    pub path: Seq<char>,
}

impl RemovePathAction {
    pub open spec fn view(&self) -> RemovePathActionView {
        RemovePathActionView {
            path: self.path@,
        }
    }
}

impl Clone for RemovePathAction {
    fn clone(&self) -> (res: Self)
        ensures
            res@ == self@,
    {
        RemovePathAction {
            path: self.path.clone(),
        }
    }
}

#[derive(Debug, PartialEq)]
pub struct AppStoreInstallAction {
    pub app_id: u64,
    pub operation: AppStoreOperation,
}

pub struct AppStoreInstallActionView {
    pub app_id: u64,
    pub operation: AppStoreOperation,
}

impl AppStoreInstallAction {
    pub open spec fn view(&self) -> AppStoreInstallActionView {
        AppStoreInstallActionView {
            app_id: self.app_id,
            operation: self.operation,
        }
    }
}

impl Clone for AppStoreInstallAction {
    fn clone(&self) -> (res: Self)
        ensures
            res@ == self@,
    {
        AppStoreInstallAction {
            app_id: self.app_id,
            operation: self.operation,
        }
    }
}

#[derive(Debug, PartialEq)]
pub struct BambuStudioReleaseAction {
    pub channel: ReleaseChannel,
}

pub struct BambuStudioReleaseActionView {
    pub channel: ReleaseChannel,
}

impl BambuStudioReleaseAction {
    pub open spec fn view(&self) -> BambuStudioReleaseActionView {
        BambuStudioReleaseActionView {
            channel: self.channel,
        }
    }
}

impl Clone for BambuStudioReleaseAction {
    fn clone(&self) -> (res: Self)
        ensures
            res@ == self@,
    {
        BambuStudioReleaseAction {
            channel: self.channel,
        }
    }
}

#[derive(Debug, PartialEq)]
pub struct ActivateLicenseAction {
    pub provider: LicenseProvider,
    pub method: LicenseMethod,
}

pub struct ActivateLicenseActionView {
    pub provider: LicenseProvider,
    pub method: LicenseMethod,
}

impl ActivateLicenseAction {
    pub open spec fn view(&self) -> ActivateLicenseActionView {
        ActivateLicenseActionView {
            provider: self.provider,
            method: self.method,
        }
    }
}

impl Clone for ActivateLicenseAction {
    fn clone(&self) -> (res: Self)
        ensures
            res@ == self@,
    {
        ActivateLicenseAction {
            provider: self.provider,
            method: self.method,
        }
    }
}

pub open spec fn optional_app_bundle_identity(x: Option<AppBundleIdentity>) -> Option<AppBundleIdentityView> {
    match x {
        Some(x) => Some(x@),
        None => None,
    }
}

fn clone_optional_app_bundle_identity(x: &Option<AppBundleIdentity>) -> (res: Option<AppBundleIdentity>)
    ensures
        optional_app_bundle_identity(res) == optional_app_bundle_identity(*x),
{
    match x {
        Some(x) => Some(x.clone()),
        None => None,
    }
}

pub open spec fn optional_path_expectation(x: Option<PathExpectation>) -> Option<PathExpectationView> {
    match x {
        Some(x) => Some(x@),
        None => None,
    }
}

fn clone_optional_path_expectation(x: &Option<PathExpectation>) -> (res: Option<PathExpectation>)
    ensures
        optional_path_expectation(res) == optional_path_expectation(*x),
{
    match x {
        Some(x) => Some(x.clone()),
        None => None,
    }
}

pub open spec fn github_repository_input_views(list: Seq<GithubRepositoryInput>) -> Seq<GithubRepositoryInputView> {
    list.map_values(|x: GithubRepositoryInput| x.view())
}

fn clone_github_repository_inputs(list: &Vec<GithubRepositoryInput>) -> (res: Vec<GithubRepositoryInput>)
    ensures
        github_repository_input_views(res@) == github_repository_input_views(list@),
{
    let mut res: Vec<GithubRepositoryInput> = Vec::new();
    let mut i: usize = 0;
    while i < list.len()
        invariant
            i <= list@.len(),
            res@.len() == i,
            forall|j: int| 0 <= j < i ==> (#[trigger] res@[j])@ == list@[j]@,
        decreases list@.len() - i,
    {
        res.push(list[i].clone());
        i = i + 1;
    }
    assert(github_repository_input_views(res@) =~= github_repository_input_views(list@));
    res
}

pub open spec fn optional_ref(x: Option<FieldRef>) -> Option<FieldRefView> {
    match x {
        Some(x) => Some(x@),
        None => None,
    }
}

fn clone_optional_ref(x: &Option<FieldRef>) -> (res: Option<FieldRef>)
    ensures
        optional_ref(res) == optional_ref(*x),
{
    match x {
        Some(x) => Some(x.clone()),
        None => None,
    }
}

pub fn clone_codes(codes: &Vec<u32>) -> (res: Vec<u32>)
    ensures
        res@ == codes@,
{
    let mut res: Vec<u32> = Vec::new();
    let mut i: usize = 0;
    while i < codes.len()
        invariant
            i <= codes@.len(),
            res@ == codes@.take(i as int),
        decreases codes@.len() - i,
    {
        res.push(codes[i]);
        assert(res@ =~= codes@.take(i + 1));
        i = i + 1;
    }
    assert(res@ =~= codes@);
    res
}

pub open spec fn text_entries(entries: Seq<(String, String)>) -> Seq<(Seq<char>, Seq<char>)> {
    entries.map_values(|entry: (String, String)| (entry.0@, entry.1@))
}

pub fn clone_text_map(map: &TextMap<String>) -> (res: TextMap<String>)
    ensures
        text_entries(res.entries@) == text_entries(map.entries@),
{
    let mut entries: Vec<(String, String)> = Vec::new();
    let mut i: usize = 0;
    while i < map.entries.len()
        invariant
            i <= map.entries@.len(),
            entries@.len() == i,
            forall|j: int|
                0 <= j < i ==> (#[trigger] entries@[j]).0@ == map.entries@[j].0@ && entries@[j].1@
                    == map.entries@[j].1@,
        decreases map.entries@.len() - i,
    {
        entries.push((map.entries[i].0.clone(), map.entries[i].1.clone()));
        i = i + 1;
    }
    assert(text_entries(entries@) =~= text_entries(map.entries@));
    TextMap { entries }
}

/// Everything that a step can do.
#[derive(Debug, PartialEq)]
pub enum Action {
    GithubListRepositories,
    GithubPreviewRepositories {
        selected_repositories: Vec<GithubRepositoryInput>,
    },
    GithubSelectRepositories {
        github: GithubContextInput,
        expected_account_login: String,
        repository_ids: Vec<String>,
    },
    SelectArrayItems {
        source: Option<FieldRef>,
        item_type: ContextType,
        selected_items: Vec<Value>,
    },
    ForEach {
        source_step: String,
        array_path: String,
        item: String,
        fields: Vec<String>,
    },
    ForEachGitCloneIfMissing {
        loop_step: String,
        repo: String,
        dest: String,
        branch: Option<String>,
    },
    CreateDirectory(CreateDirectoryAction),
    InspectPath(InspectPathAction),
    CopyPath(CopyPathAction),
    WriteFile(WriteFileAction),
    RemovePath(RemovePathAction),
    GitClone {
        repo: String,
        dest: String,
        branch: Option<String>,
    },
    GitInspect {
        repo: String,
        dest: String,
    },
    GitCloneIfMissing {
        repo: String,
        dest: String,
        branch: Option<String>,
    },
    GitFetch {
        repo: String,
        dest: String,
        branch: String,
    },
    GitFastForward {
        repo: String,
        dest: String,
        branch: String,
    },
    BrewInstall {
        package: String,
        cask: bool,
    },
    RunCommand {
        program: String,
        args: Vec<String>,
        cwd: Option<String>,
        env: TextMap<String>,
        shell: ShellMode,
    },
    RunScript {
        interpreter: ScriptInterpreter,
        script: String,
        args: Vec<String>,
        cwd: Option<String>,
        env: TextMap<String>,
        success_exit_codes: Vec<u32>,
    },
    ConfigurePackageRegistryFiles {
        secrets: EncryptedSecretsSpec,
        npm: NpmRegistryFileSpec,
        nuget: NugetRegistryFileSpec,
    },
    DownloadFile {
        url: String,
        dest: String,
        checksum: Checksum,
    },
    ExtractArchive {
        src: String,
        dest: String,
        format: ArchiveFormat,
        max_unpacked_bytes: u64,
    },
    InstallDmg {
        dmg: String,
        app_name: Option<String>,
        target: Option<String>,
        identity: Option<AppBundleIdentity>,
    },
    InstallPkg {
        pkg: String,
        target: Option<String>,
    },
    MacosRequirements {
        minimum_version: String,
        require_rosetta_on_apple_silicon: bool,
    },
    AppStoreInstall(AppStoreInstallAction),
    BambuStudioRelease(BambuStudioReleaseAction),
    ActivateLicense(ActivateLicenseAction),
}

pub enum ActionView {
    GithubListRepositories,
    GithubPreviewRepositories {
        selected_repositories: Seq<GithubRepositoryInputView>,
    },
    GithubSelectRepositories {
        github: GithubContextInputView,
        expected_account_login: Seq<char>,
        repository_ids: Seq<Seq<char>>,
    },
    SelectArrayItems {
        source: Option<FieldRefView>,
        item_type: TypeView,
        selected_items: Seq<ValueView>,
    },
    ForEach {
        source_step: Seq<char>,
        array_path: Seq<char>,
        item: Seq<char>,
        fields: Seq<Seq<char>>,
    },
    ForEachGitCloneIfMissing {
        loop_step: Seq<char>,
        repo: Seq<char>,
        dest: Seq<char>,
        branch: Option<Seq<char>>,
    },
    CreateDirectory(CreateDirectoryActionView),
    InspectPath(InspectPathActionView),
    CopyPath(CopyPathActionView),
    WriteFile(WriteFileActionView),
    RemovePath(RemovePathActionView),
    GitClone {
        repo: Seq<char>,
        dest: Seq<char>,
        branch: Option<Seq<char>>,
    },
    GitInspect {
        repo: Seq<char>,
        dest: Seq<char>,
    },
    GitCloneIfMissing {
        repo: Seq<char>,
        dest: Seq<char>,
        branch: Option<Seq<char>>,
    },
    GitFetch {
        repo: Seq<char>,
        dest: Seq<char>,
        branch: Seq<char>,
    },
    GitFastForward {
        repo: Seq<char>,
        dest: Seq<char>,
        branch: Seq<char>,
    },
    BrewInstall {
        package: Seq<char>,
        cask: bool,
    },
    RunCommand {
        program: Seq<char>,
        args: Seq<Seq<char>>,
        cwd: Option<Seq<char>>,
        env: Seq<(Seq<char>, Seq<char>)>,
        shell: ShellMode,
    },
    RunScript {
        interpreter: ScriptInterpreter,
        script: Seq<char>,
        args: Seq<Seq<char>>,
        cwd: Option<Seq<char>>,
        env: Seq<(Seq<char>, Seq<char>)>,
        success_exit_codes: Seq<u32>,
    },
    ConfigurePackageRegistryFiles {
        secrets: EncryptedSecretsSpecView,
        npm: NpmRegistryFileSpecView,
        nuget: NugetRegistryFileSpecView,
    },
    DownloadFile {
        url: Seq<char>,
        dest: Seq<char>,
        checksum: ChecksumView,
    },
    ExtractArchive {
        src: Seq<char>,
        dest: Seq<char>,
        format: ArchiveFormat,
        max_unpacked_bytes: u64,
    },
    InstallDmg {
        dmg: Seq<char>,
        app_name: Option<Seq<char>>,
        target: Option<Seq<char>>,
        identity: Option<AppBundleIdentityView>,
    },
    InstallPkg {
        pkg: Seq<char>,
        target: Option<Seq<char>>,
    },
    MacosRequirements {
        minimum_version: Seq<char>,
        require_rosetta_on_apple_silicon: bool,
    },
    AppStoreInstall(AppStoreInstallActionView),
    BambuStudioRelease(BambuStudioReleaseActionView),
    ActivateLicense(ActivateLicenseActionView),
}

impl Action {
    pub open spec fn view(&self) -> ActionView {
        match self {
            Action::GithubListRepositories => ActionView::GithubListRepositories,
            Action::GithubPreviewRepositories { selected_repositories } => ActionView::GithubPreviewRepositories {
                selected_repositories: github_repository_input_views(selected_repositories@),
            },
            Action::GithubSelectRepositories { github, expected_account_login, repository_ids } => ActionView::GithubSelectRepositories {
                github: github@,
                expected_account_login: expected_account_login@,
                repository_ids: text_views(repository_ids@),
            },
            Action::SelectArrayItems { source, item_type, selected_items } => ActionView::SelectArrayItems {
                source: optional_ref(*source),
                item_type: item_type@,
                selected_items: value_views(selected_items@),
            },
            Action::ForEach { source_step, array_path, item, fields } => ActionView::ForEach {
                source_step: source_step@,
                array_path: array_path@,
                item: item@,
                fields: text_views(fields@),
            },
            Action::ForEachGitCloneIfMissing { loop_step, repo, dest, branch } => ActionView::ForEachGitCloneIfMissing {
                loop_step: loop_step@,
                repo: repo@,
                dest: dest@,
                branch: optional_text(*branch),
            },
            Action::CreateDirectory(action) => ActionView::CreateDirectory(action@),
            Action::InspectPath(action) => ActionView::InspectPath(action@),
            Action::CopyPath(action) => ActionView::CopyPath(action@),
            Action::WriteFile(action) => ActionView::WriteFile(action@),
            Action::RemovePath(action) => ActionView::RemovePath(action@),
            Action::GitClone { repo, dest, branch } => ActionView::GitClone {
                repo: repo@,
                dest: dest@,
                branch: optional_text(*branch),
            },
            Action::GitInspect { repo, dest } => ActionView::GitInspect {
                repo: repo@,
                dest: dest@,
            },
            Action::GitCloneIfMissing { repo, dest, branch } => ActionView::GitCloneIfMissing {
                repo: repo@,
                dest: dest@,
                branch: optional_text(*branch),
            },
            Action::GitFetch { repo, dest, branch } => ActionView::GitFetch {
                repo: repo@,
                dest: dest@,
                branch: branch@,
            },
            Action::GitFastForward { repo, dest, branch } => ActionView::GitFastForward {
                repo: repo@,
                dest: dest@,
                branch: branch@,
            },
            Action::BrewInstall { package, cask } => ActionView::BrewInstall {
                package: package@,
                cask: *cask,
            },
            Action::RunCommand { program, args, cwd, env, shell } => ActionView::RunCommand {
                program: program@,
                args: text_views(args@),
                cwd: optional_text(*cwd),
                env: text_entries(env.entries@),
                shell: *shell,
            },
            Action::RunScript { interpreter, script, args, cwd, env, success_exit_codes } => ActionView::RunScript {
                interpreter: *interpreter,
                script: script@,
                args: text_views(args@),
                cwd: optional_text(*cwd),
                env: text_entries(env.entries@),
                success_exit_codes: success_exit_codes@,
            },
            Action::ConfigurePackageRegistryFiles { secrets, npm, nuget } => ActionView::ConfigurePackageRegistryFiles {
                secrets: secrets@,
                npm: npm@,
                nuget: nuget@,
            },
            Action::DownloadFile { url, dest, checksum } => ActionView::DownloadFile {
                url: url@,
                dest: dest@,
                checksum: checksum@,
            },
            Action::ExtractArchive { src, dest, format, max_unpacked_bytes } => ActionView::ExtractArchive {
                src: src@,
                dest: dest@,
                format: *format,
                max_unpacked_bytes: *max_unpacked_bytes,
            },
            Action::InstallDmg { dmg, app_name, target, identity } => ActionView::InstallDmg {
                dmg: dmg@,
                app_name: optional_text(*app_name),
                target: optional_text(*target),
                identity: optional_app_bundle_identity(*identity),
            },
            Action::InstallPkg { pkg, target } => ActionView::InstallPkg {
                pkg: pkg@,
                target: optional_text(*target),
            },
            Action::MacosRequirements { minimum_version, require_rosetta_on_apple_silicon } => ActionView::MacosRequirements {
                minimum_version: minimum_version@,
                require_rosetta_on_apple_silicon: *require_rosetta_on_apple_silicon,
            },
            Action::AppStoreInstall(action) => ActionView::AppStoreInstall(action@),
            Action::BambuStudioRelease(action) => ActionView::BambuStudioRelease(action@),
            Action::ActivateLicense(action) => ActionView::ActivateLicense(action@),
        }
    }

    pub fn kind(&self) -> (res: ActionKind)
        ensures
            res == self@.kind(),
    {
        match self {
            Action::GithubListRepositories => ActionKind::GithubListRepositories,
            Action::GithubPreviewRepositories { .. } => ActionKind::GithubPreviewRepositories,
            Action::GithubSelectRepositories { .. } => ActionKind::GithubSelectRepositories,
            Action::SelectArrayItems { .. } => ActionKind::SelectArrayItems,
            Action::ForEach { .. } => ActionKind::ForEach,
            Action::ForEachGitCloneIfMissing { .. } => ActionKind::ForEachGitCloneIfMissing,
            Action::CreateDirectory(_) => ActionKind::CreateDirectory,
            Action::InspectPath(_) => ActionKind::InspectPath,
            Action::CopyPath(_) => ActionKind::CopyPath,
            Action::WriteFile(_) => ActionKind::WriteFile,
            Action::RemovePath(_) => ActionKind::RemovePath,
            Action::GitClone { .. } => ActionKind::GitClone,
            Action::GitInspect { .. } => ActionKind::GitInspect,
            Action::GitCloneIfMissing { .. } => ActionKind::GitCloneIfMissing,
            Action::GitFetch { .. } => ActionKind::GitFetch,
            Action::GitFastForward { .. } => ActionKind::GitFastForward,
            Action::BrewInstall { .. } => ActionKind::BrewInstall,
            Action::RunCommand { .. } => ActionKind::RunCommand,
            Action::RunScript { .. } => ActionKind::RunScript,
            Action::ConfigurePackageRegistryFiles { .. } => ActionKind::ConfigurePackageRegistryFiles,
            Action::DownloadFile { .. } => ActionKind::DownloadFile,
            Action::ExtractArchive { .. } => ActionKind::ExtractArchive,
            Action::InstallDmg { .. } => ActionKind::InstallDmg,
            Action::InstallPkg { .. } => ActionKind::InstallPkg,
            Action::MacosRequirements { .. } => ActionKind::MacosRequirements,
            Action::AppStoreInstall(_) => ActionKind::AppStoreInstall,
            Action::BambuStudioRelease(_) => ActionKind::BambuStudioRelease,
            Action::ActivateLicense(_) => ActionKind::ActivateLicense,
        }
    }
}

impl ActionView {
    pub open spec fn kind(self) -> ActionKind {
        match self {
            ActionView::GithubListRepositories => ActionKind::GithubListRepositories,
            ActionView::GithubPreviewRepositories { .. } => ActionKind::GithubPreviewRepositories,
            ActionView::GithubSelectRepositories { .. } => ActionKind::GithubSelectRepositories,
            ActionView::SelectArrayItems { .. } => ActionKind::SelectArrayItems,
            ActionView::ForEach { .. } => ActionKind::ForEach,
            ActionView::ForEachGitCloneIfMissing { .. } => ActionKind::ForEachGitCloneIfMissing,
            ActionView::CreateDirectory(_) => ActionKind::CreateDirectory,
            ActionView::InspectPath(_) => ActionKind::InspectPath,
            ActionView::CopyPath(_) => ActionKind::CopyPath,
            ActionView::WriteFile(_) => ActionKind::WriteFile,
            ActionView::RemovePath(_) => ActionKind::RemovePath,
            ActionView::GitClone { .. } => ActionKind::GitClone,
            ActionView::GitInspect { .. } => ActionKind::GitInspect,
            ActionView::GitCloneIfMissing { .. } => ActionKind::GitCloneIfMissing,
            ActionView::GitFetch { .. } => ActionKind::GitFetch,
            ActionView::GitFastForward { .. } => ActionKind::GitFastForward,
            ActionView::BrewInstall { .. } => ActionKind::BrewInstall,
            ActionView::RunCommand { .. } => ActionKind::RunCommand,
            ActionView::RunScript { .. } => ActionKind::RunScript,
            ActionView::ConfigurePackageRegistryFiles { .. } => ActionKind::ConfigurePackageRegistryFiles,
            ActionView::DownloadFile { .. } => ActionKind::DownloadFile,
            ActionView::ExtractArchive { .. } => ActionKind::ExtractArchive,
            ActionView::InstallDmg { .. } => ActionKind::InstallDmg,
            ActionView::InstallPkg { .. } => ActionKind::InstallPkg,
            ActionView::MacosRequirements { .. } => ActionKind::MacosRequirements,
            ActionView::AppStoreInstall(_) => ActionKind::AppStoreInstall,
            ActionView::BambuStudioRelease(_) => ActionKind::BambuStudioRelease,
            ActionView::ActivateLicense(_) => ActionKind::ActivateLicense,
        }
    }
}

impl Clone for Action {
    fn clone(&self) -> (res: Self)
        ensures
            res@ == self@,
    {
        match self {
            Action::GithubListRepositories => Action::GithubListRepositories,
            Action::GithubPreviewRepositories { selected_repositories } => Action::GithubPreviewRepositories {
                selected_repositories: clone_github_repository_inputs(selected_repositories),
            },
            Action::GithubSelectRepositories { github, expected_account_login, repository_ids } => Action::GithubSelectRepositories {
                github: github.clone(),
                expected_account_login: expected_account_login.clone(),
                repository_ids: clone_texts(repository_ids),
            },
            Action::SelectArrayItems { source, item_type, selected_items } => Action::SelectArrayItems {
                source: clone_optional_ref(source),
                item_type: item_type.clone(),
                selected_items: clone_values(selected_items),
            },
            Action::ForEach { source_step, array_path, item, fields } => Action::ForEach {
                source_step: source_step.clone(),
                array_path: array_path.clone(),
                item: item.clone(),
                fields: clone_texts(fields),
            },
            Action::ForEachGitCloneIfMissing { loop_step, repo, dest, branch } => Action::ForEachGitCloneIfMissing {
                loop_step: loop_step.clone(),
                repo: repo.clone(),
                dest: dest.clone(),
                branch: clone_optional(branch),
            },
            Action::CreateDirectory(action) => Action::CreateDirectory(action.clone()),
            Action::InspectPath(action) => Action::InspectPath(action.clone()),
            Action::CopyPath(action) => Action::CopyPath(action.clone()),
            Action::WriteFile(action) => Action::WriteFile(action.clone()),
            Action::RemovePath(action) => Action::RemovePath(action.clone()),
            Action::GitClone { repo, dest, branch } => Action::GitClone {
                repo: repo.clone(),
                dest: dest.clone(),
                branch: clone_optional(branch),
            },
            Action::GitInspect { repo, dest } => Action::GitInspect {
                repo: repo.clone(),
                dest: dest.clone(),
            },
            Action::GitCloneIfMissing { repo, dest, branch } => Action::GitCloneIfMissing {
                repo: repo.clone(),
                dest: dest.clone(),
                branch: clone_optional(branch),
            },
            Action::GitFetch { repo, dest, branch } => Action::GitFetch {
                repo: repo.clone(),
                dest: dest.clone(),
                branch: branch.clone(),
            },
            Action::GitFastForward { repo, dest, branch } => Action::GitFastForward {
                repo: repo.clone(),
                dest: dest.clone(),
                branch: branch.clone(),
            },
            Action::BrewInstall { package, cask } => Action::BrewInstall {
                package: package.clone(),
                cask: *cask,
            },
            Action::RunCommand { program, args, cwd, env, shell } => Action::RunCommand {
                program: program.clone(),
                args: clone_texts(args),
                cwd: clone_optional(cwd),
                env: clone_text_map(env),
                shell: *shell,
            },
            Action::RunScript { interpreter, script, args, cwd, env, success_exit_codes } => Action::RunScript {
                interpreter: *interpreter,
                script: script.clone(),
                args: clone_texts(args),
                cwd: clone_optional(cwd),
                env: clone_text_map(env),
                success_exit_codes: clone_codes(success_exit_codes),
            },
            Action::ConfigurePackageRegistryFiles { secrets, npm, nuget } => Action::ConfigurePackageRegistryFiles {
                secrets: secrets.clone(),
                npm: npm.clone(),
                nuget: nuget.clone(),
            },
            Action::DownloadFile { url, dest, checksum } => Action::DownloadFile {
                url: url.clone(),
                dest: dest.clone(),
                checksum: checksum.clone(),
            },
            Action::ExtractArchive { src, dest, format, max_unpacked_bytes } => Action::ExtractArchive {
                src: src.clone(),
                dest: dest.clone(),
                format: *format,
                max_unpacked_bytes: *max_unpacked_bytes,
            },
            Action::InstallDmg { dmg, app_name, target, identity } => Action::InstallDmg {
                dmg: dmg.clone(),
                app_name: clone_optional(app_name),
                target: clone_optional(target),
                identity: clone_optional_app_bundle_identity(identity),
            },
            Action::InstallPkg { pkg, target } => Action::InstallPkg {
                pkg: pkg.clone(),
                target: clone_optional(target),
            },
            Action::MacosRequirements { minimum_version, require_rosetta_on_apple_silicon } => Action::MacosRequirements {
                minimum_version: minimum_version.clone(),
                require_rosetta_on_apple_silicon: *require_rosetta_on_apple_silicon,
            },
            Action::AppStoreInstall(action) => Action::AppStoreInstall(action.clone()),
            Action::BambuStudioRelease(action) => Action::BambuStudioRelease(action.clone()),
            Action::ActivateLicense(action) => Action::ActivateLicense(action.clone()),
        }
    }
}

/// A precondition for skipping or repeating a step, as its document.
#[derive(Debug, PartialEq)]
pub struct Check {
    pub document: Value,
}

impl Clone for Check {
    fn clone(&self) -> (res: Self)
        ensures
            res.document@ == self.document@,
    {
        Check { document: self.document.clone() }
    }
}

/// What to do where a rule is neither true nor false.
#[derive(Debug, Clone, Copy, PartialEq, Eq, Structural)]
pub struct RuleOutcomePolicy {
    pub indeterminate: IndeterminatePolicy,
}

impl Default for RuleOutcomePolicy {
    fn default() -> (res: Self)
        ensures
            res.indeterminate == IndeterminatePolicy::Fail,
    {
        RuleOutcomePolicy { indeterminate: IndeterminatePolicy::Fail }
    }
}

/// When a step runs, or what it requires.
#[derive(Debug, PartialEq)]
pub enum StepCondition {
    Expression { rule: RuleExprV1, policy: RuleOutcomePolicy },
    All { conditions: Vec<StepCondition> },
    Any { conditions: Vec<StepCondition> },
    Not { condition: Box<StepCondition> },
    ExitCode { step: String, codes: Vec<u32> },
    Path { path: String, expect: PathExpectation },
}

pub enum ConditionView {
    Expression { rule: ExprView, policy: RuleOutcomePolicy },
    All { conditions: Seq<ConditionView> },
    Any { conditions: Seq<ConditionView> },
    Not { condition: Box<ConditionView> },
    ExitCode { step: Seq<char>, codes: Seq<u32> },
    Path { path: Seq<char>, expect: PathExpectationView },
}

impl StepCondition {
    pub open spec fn view(&self) -> ConditionView
        decreases self,
    {
        match self {
            StepCondition::Expression { rule, policy } => ConditionView::Expression {
                rule: rule@,
                policy: *policy,
            },
            StepCondition::All { conditions } => ConditionView::All {
                conditions: condition_views(conditions@),
            },
            StepCondition::Any { conditions } => ConditionView::Any {
                conditions: condition_views(conditions@),
            },
            StepCondition::Not { condition } => ConditionView::Not {
                condition: Box::new(condition.view()),
            },
            StepCondition::ExitCode { step, codes } => ConditionView::ExitCode {
                step: step@,
                codes: codes@,
            },
            StepCondition::Path { path, expect } => ConditionView::Path {
                path: path@,
                expect: expect@,
            },
        }
    }
}

pub open spec fn condition_views(list: Seq<StepCondition>) -> Seq<ConditionView>
    decreases list,
{
    Seq::new(
        list.len(),
        |i: int|
            if 0 <= i < list.len() {
                list[i].view()
            } else {
                arbitrary()
            },
    )
}

impl Clone for StepCondition {
    fn clone(&self) -> (res: Self)
        ensures
            res@ == self@,
        decreases self, 1int,
    {
        match self {
            StepCondition::Expression { rule, policy } => StepCondition::Expression {
                rule: rule.clone(),
                policy: *policy,
            },
            StepCondition::All { conditions } => StepCondition::All {
                conditions: clone_conditions(conditions),
            },
            StepCondition::Any { conditions } => StepCondition::Any {
                conditions: clone_conditions(conditions),
            },
            StepCondition::Not { condition } => {
                let inner: StepCondition = (**condition).clone();
                StepCondition::Not { condition: Box::new(inner) }
            },
            StepCondition::ExitCode { step, codes } => StepCondition::ExitCode {
                step: step.clone(),
                codes: clone_codes(codes),
            },
            StepCondition::Path { path, expect } => StepCondition::Path {
                path: path.clone(),
                expect: expect.clone(),
            },
        }
    }
}

fn clone_conditions(list: &Vec<StepCondition>) -> (res: Vec<StepCondition>)
    ensures
        condition_views(res@) == condition_views(list@),
    decreases list, 0int,
{
    let mut res: Vec<StepCondition> = Vec::new();
    let mut i: usize = 0;
    while i < list.len()
        invariant
            i <= list@.len(),
            res@.len() == i,
            forall|j: int| 0 <= j < i ==> (#[trigger] res@[j])@ == list@[j]@,
        decreases list@.len() - i,
    {
        assert(decreases_to!(list@ => list@[i as int]));
        res.push(list[i].clone());
        i = i + 1;
    }
    assert(condition_views(res@) =~= condition_views(list@));
    res
}

/// One step of a task.
#[derive(Debug, PartialEq)]
pub struct Step {
    pub id: String,
    pub name: String,
    pub bindings: TextMap<Binding>,
    pub auth: AuthPolicy,
    pub check: Option<Check>,
    pub dangerous: bool,
    pub allow_elevation: ElevationPolicy,
    pub when: Option<StepCondition>,
    pub require: Option<StepCondition>,
    pub action: Action,
}

pub struct StepView {
    pub id: Seq<char>,
    pub name: Seq<char>,
    pub bindings: Seq<(Seq<char>, BindingView)>,
    pub auth: AuthPolicy,
    pub check: Option<ValueView>,
    pub dangerous: bool,
    pub allow_elevation: ElevationPolicy,
    pub when: Option<ConditionView>,
    pub require: Option<ConditionView>,
    pub action: ActionView,
}

pub open spec fn optional_check(x: Option<Check>) -> Option<ValueView> {
    match x {
        Some(x) => Some(x.document@),
        None => None,
    }
}

pub open spec fn optional_condition(x: Option<StepCondition>) -> Option<ConditionView> {
    match x {
        Some(x) => Some(x@),
        None => None,
    }
}

impl Step {
    pub open spec fn view(&self) -> StepView {
        StepView {
            id: self.id@,
            name: self.name@,
            bindings: binding_views(self.bindings.entries@),
            auth: self.auth,
            check: optional_check(self.check),
            dangerous: self.dangerous,
            allow_elevation: self.allow_elevation,
            when: optional_condition(self.when),
            require: optional_condition(self.require),
            action: self.action@,
        }
    }
}

pub fn clone_bindings(map: &TextMap<Binding>) -> (res: TextMap<Binding>)
    ensures
        binding_views(res.entries@) == binding_views(map.entries@),
{
    let mut entries: Vec<(String, Binding)> = Vec::new();
    let mut i: usize = 0;
    while i < map.entries.len()
        invariant
            i <= map.entries@.len(),
            entries@.len() == i,
            forall|j: int|
                0 <= j < i ==> (#[trigger] entries@[j]).0@ == map.entries@[j].0@ && entries@[j].1@
                    == map.entries@[j].1@,
        decreases map.entries@.len() - i,
    {
        entries.push((map.entries[i].0.clone(), map.entries[i].1.clone()));
        i = i + 1;
    }
    assert(binding_views(entries@) =~= binding_views(map.entries@));
    TextMap { entries }
}

impl Clone for Step {
    fn clone(&self) -> (res: Self)
        ensures
            res@ == self@,
    {
        Step {
            id: self.id.clone(),
            name: self.name.clone(),
            bindings: clone_bindings(&self.bindings),
            auth: self.auth,
            check: match &self.check {
                Some(check) => Some(check.clone()),
                None => None,
            },
            dangerous: self.dangerous,
            allow_elevation: self.allow_elevation,
            when: match &self.when {
                Some(condition) => Some(condition.clone()),
                None => None,
            },
            require: match &self.require {
                Some(condition) => Some(condition.clone()),
                None => None,
            },
            action: self.action.clone(),
        }
    }
}

impl StepView {
    /// Whether the policies of a step are among those that its block offers.
    pub open spec fn policy_accepted(self) -> bool {
        policy_of(self.action.kind()).admits(self.auth, self.allow_elevation, self.dangerous)
    }
}

impl Step {
    /// Holds the policies of a step against those that its block offers.
    pub fn validate(&self) -> (res: Result<(), String>)
        ensures
            match res {
                Ok(_) => self@.policy_accepted(),
                Err(message) => !self@.policy_accepted() && message@
                    == "step policy is not available for this action"@,
            },
    {
        if block_policy_capabilities(self.action.kind()).accepts(self) {
            Ok(())
        } else {
            Err(owned("step policy is not available for this action"))
        }
    }
}

} // verus!
