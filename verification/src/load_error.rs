//! What can go wrong when task packs are put together.
use vstd::prelude::*;

use crate::text::{joined, owned};

verus! {

/// Where a pack comes from.
#[derive(Debug, Clone, Copy, PartialEq, Eq, Structural)]
pub enum PackTrust {
    Bundled,
    UserConfig,
    External,
}

impl PackTrust {
    pub open spec fn rank(self) -> nat {
        match self {
            PackTrust::External => 0,
            PackTrust::UserConfig => 1,
            PackTrust::Bundled => 2,
        }
    }

    pub open spec fn text(self) -> Seq<char> {
        match self {
            PackTrust::Bundled => "Bundled"@,
            PackTrust::UserConfig => "UserConfig"@,
            PackTrust::External => "External"@,
        }
    }

    pub fn to_text(self) -> (res: String)
        ensures
            res@ == self.text(),
    {
        match self {
            PackTrust::Bundled => owned("Bundled"),
            PackTrust::UserConfig => owned("UserConfig"),
            PackTrust::External => owned("External"),
        }
    }
}

pub fn trust_rank(trust: PackTrust) -> (res: u8)
    ensures
        res == trust.rank(),
{
    match trust {
        PackTrust::External => 0,
        PackTrust::UserConfig => 1,
        PackTrust::Bundled => 2,
    }
}

/// The system that a task is for.
#[derive(Debug, Clone, Copy, PartialEq, Eq, Structural)]
pub enum Platform {
    Any,
    Macos,
    Linux,
    Windows,
}

impl Platform {
    pub open spec fn text(self) -> Seq<char> {
        match self {
            Platform::Any => "any"@,
            Platform::Macos => "macos"@,
            Platform::Linux => "linux"@,
            Platform::Windows => "windows"@,
        }
    }

    pub fn as_str(self) -> (res: &'static str)
        ensures
            res@ == self.text(),
    {
        match self {
            Platform::Any => "any",
            Platform::Macos => "macos",
            Platform::Linux => "linux",
            Platform::Windows => "windows",
        }
    }

    /// Whether something for this platform runs on a host.
    pub open spec fn suits(self, host: Platform) -> bool {
        self == Platform::Any || self == host
    }

    pub fn matches_host(self, host: Platform) -> (res: bool)
        ensures
            res == self.suits(host),
    {
        self == Platform::Any || self == host
    }
}

impl Default for Platform {
    fn default() -> (res: Self)
        ensures
            res == Platform::Any,
    {
        Platform::Any
    }
}

#[derive(Debug, PartialEq, Eq)]
pub enum LoadError {
    UnknownTask { id: String },
    NoProvenance { id: String },
    InvalidTask { id: String, message: String },
    GraphChild { parent: String, child: String },
    Cycle { chain: String },
    TooDeep { chain: String },
    Unavailable { scenario: String, task: String, platform: Platform, chain: String },
    UnknownScenario { scenario: String, task: String, chain: String },
    LessTrusted { task: String, parent_trust: PackTrust, scenario: String, child_trust: PackTrust },
    Repeated { root: String, scenario: String, chain: String },
    TooManySteps { task: String },
    DuplicateStep { task: String, step: String },
    Migration { id: String, message: String },
    NotYaml { file: String },
    Unparsable { file: String, message: String },
    LicenseKey { file: String, field: String },
    NeedsBundled { task: String, file: String },
    NeedsUserConfig { task: String, file: String },
    Blocked { file: String },
    InvalidFile { file: String, message: String },
    DuplicateTask { task: String, file: String },
    Unresolved { id: String, message: String },
}

pub enum LoadFault {
    UnknownTask { id: Seq<char> },
    NoProvenance { id: Seq<char> },
    InvalidTask { id: Seq<char>, message: Seq<char> },
    GraphChild { parent: Seq<char>, child: Seq<char> },
    Cycle { chain: Seq<char> },
    TooDeep { chain: Seq<char> },
    Unavailable { scenario: Seq<char>, task: Seq<char>, platform: Platform, chain: Seq<char> },
    UnknownScenario { scenario: Seq<char>, task: Seq<char>, chain: Seq<char> },
    LessTrusted {
        task: Seq<char>,
        parent_trust: PackTrust,
        scenario: Seq<char>,
        child_trust: PackTrust,
    },
    Repeated { root: Seq<char>, scenario: Seq<char>, chain: Seq<char> },
    TooManySteps { task: Seq<char> },
    DuplicateStep { task: Seq<char>, step: Seq<char> },
    Migration { id: Seq<char>, message: Seq<char> },
    NotYaml { file: Seq<char> },
    Unparsable { file: Seq<char>, message: Seq<char> },
    LicenseKey { file: Seq<char>, field: Seq<char> },
    NeedsBundled { task: Seq<char>, file: Seq<char> },
    NeedsUserConfig { task: Seq<char>, file: Seq<char> },
    Blocked { file: Seq<char> },
    InvalidFile { file: Seq<char>, message: Seq<char> },
    DuplicateTask { task: Seq<char>, file: Seq<char> },
    Unresolved { id: Seq<char>, message: Seq<char> },
}

impl LoadError {
    pub open spec fn view(&self) -> LoadFault {
        match self {
            LoadError::UnknownTask { id } => LoadFault::UnknownTask { id: id@ },
            LoadError::NoProvenance { id } => LoadFault::NoProvenance { id: id@ },
            LoadError::InvalidTask { id, message } => LoadFault::InvalidTask {
                id: id@,
                message: message@,
            },
            LoadError::GraphChild { parent, child } => LoadFault::GraphChild {
                parent: parent@,
                child: child@,
            },
            LoadError::Cycle { chain } => LoadFault::Cycle { chain: chain@ },
            LoadError::TooDeep { chain } => LoadFault::TooDeep { chain: chain@ },
            LoadError::Unavailable { scenario, task, platform, chain } => LoadFault::Unavailable {
                scenario: scenario@,
                task: task@,
                platform: *platform,
                chain: chain@,
            },
            LoadError::UnknownScenario { scenario, task, chain } => LoadFault::UnknownScenario {
                scenario: scenario@,
                task: task@,
                chain: chain@,
            },
            LoadError::LessTrusted { task, parent_trust, scenario, child_trust } =>
                LoadFault::LessTrusted {
                    task: task@,
                    parent_trust: *parent_trust,
                    scenario: scenario@,
                    child_trust: *child_trust,
                },
            LoadError::Repeated { root, scenario, chain } => LoadFault::Repeated {
                root: root@,
                scenario: scenario@,
                chain: chain@,
            },
            LoadError::TooManySteps { task } => LoadFault::TooManySteps { task: task@ },
            LoadError::DuplicateStep { task, step } => LoadFault::DuplicateStep {
                task: task@,
                step: step@,
            },
            LoadError::Migration { id, message } => LoadFault::Migration {
                id: id@,
                message: message@,
            },
            LoadError::NotYaml { file } => LoadFault::NotYaml { file: file@ },
            LoadError::Unparsable { file, message } => LoadFault::Unparsable {
                file: file@,
                message: message@,
            },
            LoadError::LicenseKey { file, field } => LoadFault::LicenseKey {
                file: file@,
                field: field@,
            },
            LoadError::NeedsBundled { task, file } => LoadFault::NeedsBundled {
                task: task@,
                file: file@,
            },
            LoadError::NeedsUserConfig { task, file } => LoadFault::NeedsUserConfig {
                task: task@,
                file: file@,
            },
            LoadError::Blocked { file } => LoadFault::Blocked { file: file@ },
            LoadError::InvalidFile { file, message } => LoadFault::InvalidFile {
                file: file@,
                message: message@,
            },
            LoadError::DuplicateTask { task, file } => LoadFault::DuplicateTask {
                task: task@,
                file: file@,
            },
            LoadError::Unresolved { id, message } => LoadFault::Unresolved {
                id: id@,
                message: message@,
            },
        }
    }

    /// The message that a reader is shown.
    pub fn message(&self) -> (res: String)
        ensures
            res@ == self@.message(),
    {
        match self {
            LoadError::UnknownTask { id } => joined("unknown task id ", id),
            LoadError::NoProvenance { id } => {
                let mut out = joined("scenario ", id);
                out.append(" has no trusted source provenance");
                out
            },
            LoadError::InvalidTask { id, message } => {
                let mut out = joined("validate scenario ", id);
                out.append(": ");
                out.append(message);
                out
            },
            LoadError::GraphChild { parent, child } => {
                let mut out = joined("scenario ", parent);
                out.append(" cannot include graph task ");
                out.append(child);
                out.append("; graph composition must be explicit");
                out
            },
            LoadError::Cycle { chain } => joined("scenario template cycle detected: ", chain),
            LoadError::TooDeep { chain } => joined("scenario template depth exceeds 32: ", chain),
            LoadError::Unavailable { scenario, task, platform, chain } => {
                let mut out = joined("scenario ", scenario);
                out.append(" referenced by ");
                out.append(task);
                out.append(" is unavailable on this host (platform ");
                out.append(platform.as_str());
                out.append("; chain: ");
                out.append(chain);
                out.append(")");
                out
            },
            LoadError::UnknownScenario { scenario, task, chain } => {
                let mut out = joined("unknown scenario ", scenario);
                out.append(" referenced by ");
                out.append(task);
                out.append(" (chain: ");
                out.append(chain);
                out.append(")");
                out
            },
            LoadError::LessTrusted { task, parent_trust, scenario, child_trust } => {
                let mut out = joined("scenario ", task);
                out.append(" from ");
                out.append(&parent_trust.to_text());
                out.append(" trust cannot include less-trusted scenario ");
                out.append(scenario);
                out.append(" from ");
                out.append(&child_trust.to_text());
                out.append(" trust");
                out
            },
            LoadError::Repeated { root, scenario, chain } => {
                let mut out = joined("scenario template ", root);
                out.append(" includes scenario ");
                out.append(scenario);
                out.append(" more than once (again through chain: ");
                out.append(chain);
                out.append(")");
                out
            },
            LoadError::TooManySteps { task } => {
                let mut out = joined("scenario template ", task);
                out.append(" expands beyond 4096 steps");
                out
            },
            LoadError::DuplicateStep { task, step } => {
                let mut out = joined("scenario template ", task);
                out.append(" produces duplicate step id ");
                out.append(step);
                out
            },
            LoadError::Migration { id, message } => {
                let mut out = joined("migrate resolved scenario ", id);
                out.append(" to workflow graph v3: ");
                out.append(message);
                out
            },
            LoadError::NotYaml { file } => {
                let mut out = joined("task file ", file);
                out.append(" must use a .yaml or .yml extension");
                out
            },
            LoadError::Unparsable { file, message } => {
                let mut out = joined("parse task file ", file);
                out.append(": ");
                out.append(message);
                out
            },
            LoadError::LicenseKey { file, field } => {
                let mut out = joined("task file ", file);
                out.append(" contains forbidden field ");
                out.append(field);
                out.append("; enter license keys only in the vendor UI");
                out
            },
            LoadError::NeedsBundled { task, file } => {
                let mut out = joined("task ", task);
                out.append(" in ");
                out.append(file);
                out.append(" requires bundled trust");
                out
            },
            LoadError::NeedsUserConfig { task, file } => {
                let mut out = joined("task ", task);
                out.append(" in ");
                out.append(file);
                out.append(" requires user-config or bundled trust");
                out
            },
            LoadError::Blocked { file } => {
                let mut out = joined("external task pack ", file);
                out.append(" blocked; pass --trust-external-packs to allow it");
                out
            },
            LoadError::InvalidFile { file, message } => {
                let mut out = joined("validate task file ", file);
                out.append(": ");
                out.append(message);
                out
            },
            LoadError::DuplicateTask { task, file } => {
                let mut out = joined("duplicate task id ", task);
                out.append(" in ");
                out.append(file);
                out
            },
            LoadError::Unresolved { id, message } => {
                let mut out = joined("resolve task template ", id);
                out.append(": ");
                out.append(message);
                out
            },
        }
    }
}

impl LoadFault {
    pub open spec fn message(self) -> Seq<char> {
        match self {
            LoadFault::UnknownTask { id } => "unknown task id "@ + id,
            LoadFault::NoProvenance { id } => "scenario "@ + id
                + " has no trusted source provenance"@,
            LoadFault::InvalidTask { id, message } => "validate scenario "@ + id + ": "@ + message,
            LoadFault::GraphChild { parent, child } => "scenario "@ + parent
                + " cannot include graph task "@ + child + "; graph composition must be explicit"@,
            LoadFault::Cycle { chain } => "scenario template cycle detected: "@ + chain,
            LoadFault::TooDeep { chain } => "scenario template depth exceeds 32: "@ + chain,
            LoadFault::Unavailable { scenario, task, platform, chain } => "scenario "@ + scenario
                + " referenced by "@ + task + " is unavailable on this host (platform "@
                + platform.text() + "; chain: "@ + chain + ")"@,
            LoadFault::UnknownScenario { scenario, task, chain } => "unknown scenario "@ + scenario
                + " referenced by "@ + task + " (chain: "@ + chain + ")"@,
            LoadFault::LessTrusted { task, parent_trust, scenario, child_trust } => "scenario "@
                + task + " from "@ + parent_trust.text()
                + " trust cannot include less-trusted scenario "@ + scenario + " from "@
                + child_trust.text() + " trust"@,
            LoadFault::Repeated { root, scenario, chain } => "scenario template "@ + root
                + " includes scenario "@ + scenario + " more than once (again through chain: "@
                + chain + ")"@,
            LoadFault::TooManySteps { task } => "scenario template "@ + task
                + " expands beyond 4096 steps"@,
            LoadFault::DuplicateStep { task, step } => "scenario template "@ + task
                + " produces duplicate step id "@ + step,
            LoadFault::Migration { id, message } => "migrate resolved scenario "@ + id
                + " to workflow graph v3: "@ + message,
            LoadFault::NotYaml { file } => "task file "@ + file
                + " must use a .yaml or .yml extension"@,
            LoadFault::Unparsable { file, message } => "parse task file "@ + file + ": "@ + message,
            LoadFault::LicenseKey { file, field } => "task file "@ + file
                + " contains forbidden field "@ + field
                + "; enter license keys only in the vendor UI"@,
            LoadFault::NeedsBundled { task, file } => "task "@ + task + " in "@ + file
                + " requires bundled trust"@,
            LoadFault::NeedsUserConfig { task, file } => "task "@ + task + " in "@ + file
                + " requires user-config or bundled trust"@,
            LoadFault::Blocked { file } => "external task pack "@ + file
                + " blocked; pass --trust-external-packs to allow it"@,
            LoadFault::InvalidFile { file, message } => "validate task file "@ + file + ": "@
                + message,
            LoadFault::DuplicateTask { task, file } => "duplicate task id "@ + task + " in "@ + file,
            LoadFault::Unresolved { id, message } => "resolve task template "@ + id + ": "@
                + message,
        }
    }
}

} // verus!
