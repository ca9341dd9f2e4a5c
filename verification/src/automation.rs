//! Automation packs: ordered lists of set-up steps.
use vstd::prelude::*;

use crate::expr::clone_texts;
use crate::load_error::Platform;
use crate::schema::{clone_optional, optional_text};
use crate::task::{clone_text_map, text_entries};
use crate::text::{owned, text_views};
use crate::text_map;
use crate::text_map::TextMap;

verus! {

// ---------------------------------------------------------------------------
// Steps
// ---------------------------------------------------------------------------
/// Clone a git repository to a local destination.
#[derive(Debug, PartialEq)]
pub struct GitCloneStep {
    pub url: String,
    pub dest: String,
    pub branch: Option<String>,
    /// Shallow clone depth (0 = full).
    pub depth: u32,
}

pub struct GitCloneStepView {
    pub url: Seq<char>,
    pub dest: Seq<char>,
    pub branch: Option<Seq<char>>,
    pub depth: u32,
}

impl GitCloneStep {
    pub open spec fn view(&self) -> GitCloneStepView {
        GitCloneStepView {
            url: self.url@,
            dest: self.dest@,
            branch: optional_text(self.branch),
            depth: self.depth,
        }
    }
}

impl Clone for GitCloneStep {
    fn clone(&self) -> (res: Self)
        ensures
            res@ == self@,
    {
        GitCloneStep {
            url: self.url.clone(),
            dest: self.dest.clone(),
            branch: clone_optional(&self.branch),
            depth: self.depth,
        }
    }
}

/// Install a Homebrew formula.
#[derive(Debug, PartialEq)]
pub struct BrewInstallStep {
    pub package: String,
    /// Optional tap to add before installing (e.g. "user/repo").
    pub tap: Option<String>,
}

pub struct BrewInstallStepView {
    pub package: Seq<char>,
    pub tap: Option<Seq<char>>,
}

impl BrewInstallStep {
    pub open spec fn view(&self) -> BrewInstallStepView {
        BrewInstallStepView {
            package: self.package@,
            tap: optional_text(self.tap),
        }
    }
}

impl Clone for BrewInstallStep {
    fn clone(&self) -> (res: Self)
        ensures
            res@ == self@,
    {
        BrewInstallStep {
            package: self.package.clone(),
            tap: clone_optional(&self.tap),
        }
    }
}

/// Install a Homebrew cask (GUI app).
#[derive(Debug, PartialEq)]
pub struct BrewCaskStep {
    pub package: String,
}

pub struct BrewCaskStepView {
    pub package: Seq<char>,
}

impl BrewCaskStep {
    pub open spec fn view(&self) -> BrewCaskStepView {
        BrewCaskStepView {
            package: self.package@,
        }
    }
}

impl Clone for BrewCaskStep {
    fn clone(&self) -> (res: Self)
        ensures
            res@ == self@,
    {
        BrewCaskStep {
            package: self.package.clone(),
        }
    }
}

/// Run an arbitrary command with optional args, working dir, and env vars.
#[derive(Debug, PartialEq)]
pub struct RunCommandStep {
    pub command: String,
    pub args: Vec<String>,
    pub working_dir: Option<String>,
    pub env: TextMap<String>,
    /// If true, a non-zero exit code does not abort the pack.
    pub ignore_failure: bool,
}

pub struct RunCommandStepView {
    pub command: Seq<char>,
    pub args: Seq<Seq<char>>,
    pub working_dir: Option<Seq<char>>,
    pub env: Seq<(Seq<char>, Seq<char>)>,
    pub ignore_failure: bool,
}

impl RunCommandStep {
    pub open spec fn view(&self) -> RunCommandStepView {
        RunCommandStepView {
            command: self.command@,
            args: text_views(self.args@),
            working_dir: optional_text(self.working_dir),
            env: text_entries(self.env.entries@),
            ignore_failure: self.ignore_failure,
        }
    }
}

impl Clone for RunCommandStep {
    fn clone(&self) -> (res: Self)
        ensures
            res@ == self@,
    {
        RunCommandStep {
            command: self.command.clone(),
            args: clone_texts(&self.args),
            working_dir: clone_optional(&self.working_dir),
            env: clone_text_map(&self.env),
            ignore_failure: self.ignore_failure,
        }
    }
}

/// Download a file from a URL.
#[derive(Debug, PartialEq)]
pub struct DownloadStep {
    pub url: String,
    pub dest: String,
    /// Optional SHA-256 hex digest to verify after download.
    pub sha256: Option<String>,
}

pub struct DownloadStepView {
    pub url: Seq<char>,
    pub dest: Seq<char>,
    pub sha256: Option<Seq<char>>,
}

impl DownloadStep {
    pub open spec fn view(&self) -> DownloadStepView {
        DownloadStepView {
            url: self.url@,
            dest: self.dest@,
            sha256: optional_text(self.sha256),
        }
    }
}

impl Clone for DownloadStep {
    fn clone(&self) -> (res: Self)
        ensures
            res@ == self@,
    {
        DownloadStep {
            url: self.url.clone(),
            dest: self.dest.clone(),
            sha256: clone_optional(&self.sha256),
        }
    }
}

/// Extract an archive (tar, zip, etc.) to a destination directory.
#[derive(Debug, PartialEq)]
pub struct ExtractStep {
    pub src: String,
    pub dest: String,
    /// Number of leading path components to strip (like tar --strip-components).
    pub strip_components: u32,
}

pub struct ExtractStepView {
    pub src: Seq<char>,
    pub dest: Seq<char>,
    pub strip_components: u32,
}

impl ExtractStep {
    pub open spec fn view(&self) -> ExtractStepView {
        ExtractStepView {
            src: self.src@,
            dest: self.dest@,
            strip_components: self.strip_components,
        }
    }
}

impl Clone for ExtractStep {
    fn clone(&self) -> (res: Self)
        ensures
            res@ == self@,
    {
        ExtractStep {
            src: self.src.clone(),
            dest: self.dest.clone(),
            strip_components: self.strip_components,
        }
    }
}

/// Mount a DMG and copy the contained .app bundle to /Applications.
#[derive(Debug, PartialEq)]
pub struct InstallDmgStep {
    pub src: String,
    /// The .app name inside the DMG (e.g. "MyApp.app").
    pub app_name: String,
    /// Destination directory. Defaults to /Applications.
    pub dest_dir: String,
}

pub struct InstallDmgStepView {
    pub src: Seq<char>,
    pub app_name: Seq<char>,
    pub dest_dir: Seq<char>,
}

impl InstallDmgStep {
    pub open spec fn view(&self) -> InstallDmgStepView {
        InstallDmgStepView {
            src: self.src@,
            app_name: self.app_name@,
            dest_dir: self.dest_dir@,
        }
    }
}

impl Clone for InstallDmgStep {
    fn clone(&self) -> (res: Self)
        ensures
            res@ == self@,
    {
        InstallDmgStep {
            src: self.src.clone(),
            app_name: self.app_name.clone(),
            dest_dir: self.dest_dir.clone(),
        }
    }
}

/// Install a macOS .pkg package.
#[derive(Debug, PartialEq)]
pub struct InstallPkgStep {
    pub src: String,
    /// Install target volume. Defaults to "/".
    pub target: String,
}

pub struct InstallPkgStepView {
    pub src: Seq<char>,
    pub target: Seq<char>,
}

impl InstallPkgStep {
    pub open spec fn view(&self) -> InstallPkgStepView {
        InstallPkgStepView {
            src: self.src@,
            target: self.target@,
        }
    }
}

impl Clone for InstallPkgStep {
    fn clone(&self) -> (res: Self)
        ensures
            res@ == self@,
    {
        InstallPkgStep {
            src: self.src.clone(),
            target: self.target.clone(),
        }
    }
}

/// Create a symbolic link.
#[derive(Debug, PartialEq)]
pub struct SymlinkStep {
    pub src: String,
    pub dest: String,
    /// Overwrite an existing symlink or file at dest.
    pub force: bool,
}

pub struct SymlinkStepView {
    pub src: Seq<char>,
    pub dest: Seq<char>,
    pub force: bool,
}

impl SymlinkStep {
    pub open spec fn view(&self) -> SymlinkStepView {
        SymlinkStepView {
            src: self.src@,
            dest: self.dest@,
            force: self.force,
        }
    }
}

impl Clone for SymlinkStep {
    fn clone(&self) -> (res: Self)
        ensures
            res@ == self@,
    {
        SymlinkStep {
            src: self.src.clone(),
            dest: self.dest.clone(),
            force: self.force,
        }
    }
}

/// Write inline text content to a file.
#[derive(Debug, PartialEq)]
pub struct WriteFileStep {
    pub dest: String,
    pub content: String,
    /// Create parent directories if they don't exist.
    pub create_parents: bool,
}

pub struct WriteFileStepView {
    pub dest: Seq<char>,
    pub content: Seq<char>,
    pub create_parents: bool,
}

impl WriteFileStep {
    pub open spec fn view(&self) -> WriteFileStepView {
        WriteFileStepView {
            dest: self.dest@,
            content: self.content@,
            create_parents: self.create_parents,
        }
    }
}

impl Clone for WriteFileStep {
    fn clone(&self) -> (res: Self)
        ensures
            res@ == self@,
    {
        WriteFileStep {
            dest: self.dest.clone(),
            content: self.content.clone(),
            create_parents: self.create_parents,
        }
    }
}

/// Document an environment variable that should be set (no execution).
#[derive(Debug, PartialEq)]
pub struct SetEnvHintStep {
    pub var: String,
    pub value: String,
    /// Human-readable note for why this variable is needed.
    pub note: Option<String>,
}

pub struct SetEnvHintStepView {
    pub var: Seq<char>,
    pub value: Seq<char>,
    pub note: Option<Seq<char>>,
}

impl SetEnvHintStep {
    pub open spec fn view(&self) -> SetEnvHintStepView {
        SetEnvHintStepView {
            var: self.var@,
            value: self.value@,
            note: optional_text(self.note),
        }
    }
}

impl Clone for SetEnvHintStep {
    fn clone(&self) -> (res: Self)
        ensures
            res@ == self@,
    {
        SetEnvHintStep {
            var: self.var.clone(),
            value: self.value.clone(),
            note: clone_optional(&self.note),
        }
    }
}

/// The directory that applications are installed in unless another is named.
pub fn default_applications_dir() -> (res: String)
    ensures
        res@ == "/Applications"@,
{
    owned("/Applications")
}

/// The volume that packages are installed on unless another is named.
pub fn default_pkg_target() -> (res: String)
    ensures
        res@ == "/"@,
{
    owned("/")
}

/// A single automation step.
#[derive(Debug, PartialEq)]
pub enum AutomationStep {
    GitClone(GitCloneStep),
    BrewInstall(BrewInstallStep),
    BrewCask(BrewCaskStep),
    RunCommand(RunCommandStep),
    Download(DownloadStep),
    Extract(ExtractStep),
    InstallDmg(InstallDmgStep),
    InstallPkg(InstallPkgStep),
    Symlink(SymlinkStep),
    WriteFile(WriteFileStep),
    SetEnvHint(SetEnvHintStep),
}

pub enum AutomationStepView {
    GitClone(GitCloneStepView),
    BrewInstall(BrewInstallStepView),
    BrewCask(BrewCaskStepView),
    RunCommand(RunCommandStepView),
    Download(DownloadStepView),
    Extract(ExtractStepView),
    InstallDmg(InstallDmgStepView),
    InstallPkg(InstallPkgStepView),
    Symlink(SymlinkStepView),
    WriteFile(WriteFileStepView),
    SetEnvHint(SetEnvHintStepView),
}

impl AutomationStepView {
    pub open spec fn label(self) -> Seq<char> {
        match self {
            AutomationStepView::GitClone(_) => "git-clone"@,
            AutomationStepView::BrewInstall(_) => "brew-install"@,
            AutomationStepView::BrewCask(_) => "brew-cask"@,
            AutomationStepView::RunCommand(_) => "run-command"@,
            AutomationStepView::Download(_) => "download"@,
            AutomationStepView::Extract(_) => "extract"@,
            AutomationStepView::InstallDmg(_) => "install-dmg"@,
            AutomationStepView::InstallPkg(_) => "install-pkg"@,
            AutomationStepView::Symlink(_) => "symlink"@,
            AutomationStepView::WriteFile(_) => "write-file"@,
            AutomationStepView::SetEnvHint(_) => "set-env-hint"@,
        }
    }
}

impl AutomationStep {
    pub open spec fn view(&self) -> AutomationStepView {
        match self {
            AutomationStep::GitClone(step) => AutomationStepView::GitClone(step@),
            AutomationStep::BrewInstall(step) => AutomationStepView::BrewInstall(step@),
            AutomationStep::BrewCask(step) => AutomationStepView::BrewCask(step@),
            AutomationStep::RunCommand(step) => AutomationStepView::RunCommand(step@),
            AutomationStep::Download(step) => AutomationStepView::Download(step@),
            AutomationStep::Extract(step) => AutomationStepView::Extract(step@),
            AutomationStep::InstallDmg(step) => AutomationStepView::InstallDmg(step@),
            AutomationStep::InstallPkg(step) => AutomationStepView::InstallPkg(step@),
            AutomationStep::Symlink(step) => AutomationStepView::Symlink(step@),
            AutomationStep::WriteFile(step) => AutomationStepView::WriteFile(step@),
            AutomationStep::SetEnvHint(step) => AutomationStepView::SetEnvHint(step@),
        }
    }

    /// A short human-readable label for display and logging.
    pub fn kind_label(&self) -> (res: &'static str)
        ensures
            res@ == self@.label(),
    {
        match self {
            AutomationStep::GitClone(_) => "git-clone",
            AutomationStep::BrewInstall(_) => "brew-install",
            AutomationStep::BrewCask(_) => "brew-cask",
            AutomationStep::RunCommand(_) => "run-command",
            AutomationStep::Download(_) => "download",
            AutomationStep::Extract(_) => "extract",
            AutomationStep::InstallDmg(_) => "install-dmg",
            AutomationStep::InstallPkg(_) => "install-pkg",
            AutomationStep::Symlink(_) => "symlink",
            AutomationStep::WriteFile(_) => "write-file",
            AutomationStep::SetEnvHint(_) => "set-env-hint",
        }
    }
}

impl Clone for AutomationStep {
    fn clone(&self) -> (res: Self)
        ensures
            res@ == self@,
    {
        match self {
            AutomationStep::GitClone(step) => AutomationStep::GitClone(step.clone()),
            AutomationStep::BrewInstall(step) => AutomationStep::BrewInstall(step.clone()),
            AutomationStep::BrewCask(step) => AutomationStep::BrewCask(step.clone()),
            AutomationStep::RunCommand(step) => AutomationStep::RunCommand(step.clone()),
            AutomationStep::Download(step) => AutomationStep::Download(step.clone()),
            AutomationStep::Extract(step) => AutomationStep::Extract(step.clone()),
            AutomationStep::InstallDmg(step) => AutomationStep::InstallDmg(step.clone()),
            AutomationStep::InstallPkg(step) => AutomationStep::InstallPkg(step.clone()),
            AutomationStep::Symlink(step) => AutomationStep::Symlink(step.clone()),
            AutomationStep::WriteFile(step) => AutomationStep::WriteFile(step.clone()),
            AutomationStep::SetEnvHint(step) => AutomationStep::SetEnvHint(step.clone()),
        }
    }
}

pub open spec fn automation_step_views(steps: Seq<AutomationStep>) -> Seq<AutomationStepView> {
    steps.map_values(|s: AutomationStep| s.view())
}

fn clone_automation_steps(steps: &Vec<AutomationStep>) -> (res: Vec<AutomationStep>)
    ensures
        automation_step_views(res@) == automation_step_views(steps@),
{
    let mut res: Vec<AutomationStep> = Vec::new();
    let mut i: usize = 0;
    while i < steps.len()
        invariant
            i <= steps@.len(),
            res@.len() == i,
            forall|j: int| 0 <= j < i ==> (#[trigger] res@[j])@ == steps@[j]@,
        decreases steps@.len() - i,
    {
        res.push(steps[i].clone());
        i = i + 1;
    }
    assert(automation_step_views(res@) =~= automation_step_views(steps@));
    res
}

// ---------------------------------------------------------------------------
// Packs
// ---------------------------------------------------------------------------
/// A named automation pack loaded from a single file.
#[derive(Debug, PartialEq)]
pub struct AutomationPack {
    /// Short identifier (e.g. "dev-setup").
    pub pack: String,
    pub description: String,
    /// Platform filter; defaults to Any.
    pub platform: Platform,
    /// Ordered list of steps to execute.
    pub steps: Vec<AutomationStep>,
    /// Source file path, populated after loading.
    pub source: Option<String>,
}

pub struct AutomationPackView {
    pub pack: Seq<char>,
    pub description: Seq<char>,
    pub platform: Platform,
    pub steps: Seq<AutomationStepView>,
    pub source: Option<Seq<char>>,
}

impl Clone for AutomationPack {
    fn clone(&self) -> (res: Self)
        ensures
            res@ == self@,
    {
        AutomationPack {
            pack: self.pack.clone(),
            description: self.description.clone(),
            platform: self.platform,
            steps: clone_automation_steps(&self.steps),
            source: clone_optional(&self.source),
        }
    }
}

pub open spec fn pack_views(packs: Seq<AutomationPack>) -> Seq<AutomationPackView> {
    packs.map_values(|p: AutomationPack| p.view())
}

/// Packs by name, from the `i`-th on: a later one replaces an earlier one of the
/// same name.
pub open spec fn by_name(
    packs: Seq<AutomationPackView>,
    i: nat,
    done: Seq<(Seq<char>, AutomationPackView)>,
) -> Seq<(Seq<char>, AutomationPackView)>
    decreases packs.len() - i,
{
    if i >= packs.len() {
        done
    } else {
        by_name(packs, i + 1, text_map::stored(done, packs[i as int].pack, packs[i as int]))
    }
}

pub open spec fn named_packs(entries: Seq<(String, AutomationPack)>) -> Seq<
    (Seq<char>, AutomationPackView),
> {
    entries.map_values(|e: (String, AutomationPack)| (e.0@, e.1@))
}

impl AutomationPack {
    pub open spec fn view(&self) -> AutomationPackView {
        AutomationPackView {
            pack: self.pack@,
            description: self.description@,
            platform: self.platform,
            steps: automation_step_views(self.steps@),
            source: optional_text(self.source),
        }
    }

    /// Puts packs together in the order in which they were read, one for each
    /// name. A later pack overrides an earlier one of the same name.
    pub fn load_many(packs: Vec<AutomationPack>) -> (res: Vec<AutomationPack>)
        ensures
            pack_views(res@) == by_name(pack_views(packs@), 0, Seq::empty()).map_values(
                |e: (Seq<char>, AutomationPackView)| e.1,
            ),
    {
        let ghost views = pack_views(packs@);
        let mut map: TextMap<AutomationPack> = TextMap::new();
        let mut i: usize = 0;
        assert(named_packs(map.entries@) =~= Seq::empty());
        while i < packs.len()
            invariant
                i <= packs@.len(),
                views == pack_views(packs@),
                by_name(views, 0, Seq::empty()) == by_name(
                    views,
                    i as nat,
                    named_packs(map.entries@),
                ),
            decreases packs@.len() - i,
        {
            assert(views[i as int] == packs@[i as int]@);
            let pack = packs[i].clone();
            proof {
                let f = |x: AutomationPack| x@;
                text_map::lemma_stored_mapped(map.pairs(), pack.pack@, pack, f);
                assert(text_map::mapped(map.pairs(), f) =~= named_packs(map.entries@));
            }
            map.insert(pack.pack.clone(), pack);
            proof {
                let f = |x: AutomationPack| x@;
                assert(text_map::mapped(map.pairs(), f) =~= named_packs(map.entries@));
            }
            i = i + 1;
        }
        let ghost sorted = named_packs(map.entries@);
        let mut res: Vec<AutomationPack> = Vec::new();
        let mut k: usize = 0;
        while k < map.entries.len()
            invariant
                k <= map.entries@.len(),
                sorted == named_packs(map.entries@),
                res@.len() == k,
                forall|j: int| 0 <= j < k ==> (#[trigger] res@[j])@ == sorted[j].1,
            decreases map.entries@.len() - k,
        {
            assert(sorted[k as int].1 == map.entries@[k as int].1@);
            res.push(map.entries[k].1.clone());
            k = k + 1;
        }
        assert(pack_views(res@) =~= sorted.map_values(|e: (Seq<char>, AutomationPackView)| e.1));
        res
    }

    /// Return steps that apply to a host platform.
    pub fn applicable_steps(&self, host: Platform) -> (res: Vec<AutomationStep>)
        ensures
            automation_step_views(res@) == if self@.platform.suits(host) {
                self@.steps
            } else {
                Seq::empty()
            },
    {
        if self.platform.matches_host(host) {
            clone_automation_steps(&self.steps)
        } else {
            let none: Vec<AutomationStep> = Vec::new();
            assert(automation_step_views(none@) =~= Seq::empty());
            none
        }
    }
}

// ---------------------------------------------------------------------------
// Results
// ---------------------------------------------------------------------------
/// Outcome of executing a single step.
#[derive(Debug, PartialEq, Eq)]
pub enum StepOutcome {
    /// Step was not executed (e.g. wrong platform, dry-run).
    Skipped,
    /// Step completed successfully.
    Success,
    /// Step failed with a message.
    Failure(String),
}

/// Result of running an entire automation pack.
#[derive(Debug, PartialEq, Eq)]
pub struct TaskResult {
    pub pack: String,
    pub outcomes: Vec<(String, StepOutcome)>,
}

/// How many outcomes from the `i`-th on are successes.
pub open spec fn successes(outcomes: Seq<(String, StepOutcome)>, i: nat) -> nat
    decreases outcomes.len() - i,
{
    if i >= outcomes.len() {
        0
    } else {
        successes(outcomes, i + 1) + if outcomes[i as int].1 is Success {
            1nat
        } else {
            0nat
        }
    }
}

/// How many outcomes from the `i`-th on are failures.
pub open spec fn failures(outcomes: Seq<(String, StepOutcome)>, i: nat) -> nat
    decreases outcomes.len() - i,
{
    if i >= outcomes.len() {
        0
    } else {
        failures(outcomes, i + 1) + if outcomes[i as int].1 is Failure {
            1nat
        } else {
            0nat
        }
    }
}

impl TaskResult {
    pub fn new(pack: &str) -> (res: Self)
        ensures
            res.pack@ == pack@,
            res.outcomes@ == Seq::<(String, StepOutcome)>::empty(),
    {
        TaskResult { pack: owned(pack), outcomes: Vec::new() }
    }

    pub fn push(&mut self, kind: String, outcome: StepOutcome)
        ensures
            final(self).pack == old(self).pack,
            final(self).outcomes@ == old(self).outcomes@.push((kind, outcome)),
    {
        self.outcomes.push((kind, outcome));
    }

    pub fn success_count(&self) -> (res: usize)
        ensures
            res == successes(self.outcomes@, 0),
    {
        let n: usize = self.outcomes.len();
        let mut count: usize = 0;
        let mut i: usize = 0;
        while i < n
            invariant
                n == self.outcomes@.len(),
                i <= n,
                count <= i,
                successes(self.outcomes@, 0) == count + successes(self.outcomes@, i as nat),
            decreases n - i,
        {
            if matches!(self.outcomes[i].1, StepOutcome::Success) {
                count = count + 1;
            }
            i = i + 1;
        }
        count
    }

    pub fn failure_count(&self) -> (res: usize)
        ensures
            res == failures(self.outcomes@, 0),
    {
        let n: usize = self.outcomes.len();
        let mut count: usize = 0;
        let mut i: usize = 0;
        while i < n
            invariant
                n == self.outcomes@.len(),
                i <= n,
                count <= i,
                failures(self.outcomes@, 0) == count + failures(self.outcomes@, i as nat),
            decreases n - i,
        {
            if matches!(self.outcomes[i].1, StepOutcome::Failure(_)) {
                count = count + 1;
            }
            i = i + 1;
        }
        count
    }
}

/// How many outcomes from the `i`-th on are of steps that did not run.
pub open spec fn skips(outcomes: Seq<(String, StepOutcome)>, i: nat) -> nat
    decreases outcomes.len() - i,
{
    if i >= outcomes.len() {
        0
    } else {
        skips(outcomes, i + 1) + if outcomes[i as int].1 is Skipped {
            1nat
        } else {
            0nat
        }
    }
}

/// Every outcome is counted once: successes, failures and skipped steps add up
/// to the outcomes.
pub proof fn law_counts_fit(outcomes: Seq<(String, StepOutcome)>, i: nat)
    requires
        i <= outcomes.len(),
    ensures
        successes(outcomes, i) + failures(outcomes, i) + skips(outcomes, i) == outcomes.len() - i,
    decreases outcomes.len() - i,
{
    if i < outcomes.len() {
        law_counts_fit(outcomes, i + 1);
    }
}

/// Each name stands once in what was put together, in order, and the last pack
/// of a name is the one that stays.
pub proof fn law_last_pack_of_a_name_stays(
    packs: Seq<AutomationPackView>,
    i: nat,
    done: Seq<(Seq<char>, AutomationPackView)>,
    k: int,
)
    requires
        text_map::ascending(done),
        i <= k < packs.len(),
        forall|j: int| k < j < packs.len() ==> (#[trigger] packs[j]).pack != packs[k].pack,
    ensures
        text_map::ascending(by_name(packs, i, done)),
        text_map::lookup(by_name(packs, i, done), packs[k].pack) == Some(packs[k]),
    decreases packs.len() - i,
{
    let next = text_map::stored(done, packs[i as int].pack, packs[i as int]);
    text_map::law_stored(done, packs[i as int].pack, packs[i as int]);
    if i < k {
        law_last_pack_of_a_name_stays(packs, i + 1, next, k);
    } else {
        lemma_later_names_differ(packs, i + 1, next, packs[k]);
    }
}

proof fn lemma_later_names_differ(
    packs: Seq<AutomationPackView>,
    i: nat,
    done: Seq<(Seq<char>, AutomationPackView)>,
    kept: AutomationPackView,
)
    requires
        text_map::ascending(done),
        text_map::lookup(done, kept.pack) == Some(kept),
        forall|j: int| i <= j < packs.len() ==> (#[trigger] packs[j]).pack != kept.pack,
    ensures
        text_map::ascending(by_name(packs, i, done)),
        text_map::lookup(by_name(packs, i, done), kept.pack) == Some(kept),
    decreases packs.len() - i,
{
    if i < packs.len() {
        let name = packs[i as int].pack;
        text_map::law_stored(done, name, packs[i as int]);
        let next = text_map::stored(done, name, packs[i as int]);
        assert(text_map::lookup(next, kept.pack) == text_map::lookup(done, kept.pack));
        lemma_later_names_differ(packs, i + 1, next, kept);
    }
}

/// What was put together holds packs that were read, under their names, and what was there.
pub proof fn law_only_packs_that_were_read(
    packs: Seq<AutomationPackView>,
    i: nat,
    done: Seq<(Seq<char>, AutomationPackView)>,
    name: Seq<char>,
)
    requires
        text_map::ascending(done),
    ensures
        text_map::lookup(by_name(packs, i, done), name) matches Some(pack) ==> text_map::lookup(
            done,
            name,
        ) == Some(pack) || exists|k: int|
            i <= k < packs.len() && packs[k] == pack && (#[trigger] packs[k]).pack == name,
    decreases packs.len() - i,
{
    if i < packs.len() {
        let own = packs[i as int];
        text_map::law_stored(done, own.pack, own);
        let next = text_map::stored(done, own.pack, own);
        law_only_packs_that_were_read(packs, i + 1, next, name);
        if name != own.pack {
            assert(text_map::lookup(next, name) == text_map::lookup(done, name));
        }
    }
}

/// The successes that are counted are the outcomes that are successes, and the failures those
/// that are failures.
pub proof fn law_counts_are_of_their_kind(outcomes: Seq<(String, StepOutcome)>, i: nat)
    requires
        i <= outcomes.len(),
    ensures
        successes(outcomes, i) == outcomes.skip(i as int).filter(
            |o: (String, StepOutcome)| o.1 is Success,
        ).len(),
        failures(outcomes, i) == outcomes.skip(i as int).filter(
            |o: (String, StepOutcome)| o.1 is Failure,
        ).len(),
    decreases outcomes.len() - i,
{
    let good = |o: (String, StepOutcome)| o.1 is Success;
    let bad = |o: (String, StepOutcome)| o.1 is Failure;
    let rest = outcomes.skip(i as int);
    reveal(Seq::filter);
    if i < outcomes.len() {
        law_counts_are_of_their_kind(outcomes, i + 1);
        let tail = outcomes.skip(i as int + 1);
        let own = seq![outcomes[i as int]];
        assert(rest =~= own + tail);
        Seq::filter_distributes_over_add(own, tail, good);
        Seq::filter_distributes_over_add(own, tail, bad);
        let none = Seq::<(String, StepOutcome)>::empty();
        assert(own.drop_last() =~= none);
        assert(none.filter(good) =~= none && none.filter(bad) =~= none);
        assert(own.filter(good) =~= if good(own[0]) {
            own
        } else {
            none
        });
        assert(own.filter(bad) =~= if bad(own[0]) {
            own
        } else {
            none
        });
    } else {
        assert(rest =~= Seq::empty());
        assert(rest.filter(good) =~= Seq::empty() && rest.filter(bad) =~= Seq::empty());
    }
}

} // verus!
