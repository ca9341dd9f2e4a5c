//! Task packs: how tasks are put together and scenarios expanded.
use vstd::prelude::*;

use crate::expr::{clone_texts, saturated};
use crate::faults::all_reported;
use crate::graph::{current, law_upgrade, upgraded, GraphView, WorkflowGraph};
use crate::graph_check::all_faults;
use crate::graph_laws::law_accepted_is_current;
use crate::legacy::{
    imported, join_messages, law_imported_graph_is_valid, messages_text, step_views,
    LegacyTaskImporter,
};
use crate::load_error::{trust_rank, LoadError, LoadFault, PackTrust, Platform};
use crate::names::has_name;
use crate::prefix::{move_step, moved};
use crate::reach::start_views;
use crate::schema::{clone_optional, optional_text};
use crate::task::{Step, StepView};
use crate::text;
use crate::text::{is_blank, joined, owned, quoted, same_text, text_views};
use crate::text_map;
use crate::text_map::TextMap;
use crate::yaml::{
    check_document, document_fault, parse_yaml, parsed_view, yaml_document, Yaml, YamlView,
};

verus! {

pub const MAX_TEMPLATE_DEPTH: usize = 32;

pub const MAX_EXPANDED_STEPS: usize = 4096;

// ---------------------------------------------------------------------------
// Tasks
// ---------------------------------------------------------------------------
/// The packs that a task may come from.
#[derive(Debug, Clone, Copy, PartialEq, Eq, Structural)]
pub enum TrustRequirement {
    BundledOnly,
    UserConfigAllowed,
    ExternalAllowed,
}

/// A task: steps of its own, other scenarios, or a workflow graph.
#[derive(Debug, PartialEq)]
pub struct Task {
    pub id: String,
    pub name: String,
    pub description: String,
    pub platform: Platform,
    pub trust: TrustRequirement,
    pub scenarios: Vec<String>,
    pub resolved_scenarios: Vec<String>,
    pub steps: Vec<Step>,
    pub graph: Option<WorkflowGraph>,
}

pub struct TaskView {
    pub id: Seq<char>,
    pub name: Seq<char>,
    pub description: Seq<char>,
    pub platform: Platform,
    pub trust: TrustRequirement,
    pub scenarios: Seq<Seq<char>>,
    pub resolved_scenarios: Seq<Seq<char>>,
    pub steps: Seq<StepView>,
    pub graph: Option<GraphView>,
}

pub open spec fn graph_view(graph: Option<WorkflowGraph>) -> Option<GraphView> {
    match graph {
        Some(graph) => Some(graph@),
        None => None,
    }
}

pub fn clone_steps(steps: &Vec<Step>) -> (res: Vec<Step>)
    ensures
        step_views(res@) == step_views(steps@),
        res@.len() == steps@.len(),
{
    let mut res: Vec<Step> = Vec::new();
    let mut i: usize = 0;
    while i < steps.len()
        invariant
            i <= steps@.len(),
            res@.len() == i,
            forall|j: int| 0 <= j < i ==> (#[trigger] res@[j])@ == steps@[j]@,
        decreases steps@.len() - i,
    {
        res.push(steps[i].clone());
        i = i + 1;
    }
    assert(step_views(res@) =~= step_views(steps@));
    res
}

impl Clone for Task {
    fn clone(&self) -> (res: Self)
        ensures
            res@ == self@,
    {
        Task {
            id: self.id.clone(),
            name: self.name.clone(),
            description: self.description.clone(),
            platform: self.platform,
            trust: self.trust,
            scenarios: clone_texts(&self.scenarios),
            resolved_scenarios: clone_texts(&self.resolved_scenarios),
            steps: clone_steps(&self.steps),
            graph: match &self.graph {
                Some(graph) => Some(graph.clone()),
                None => None,
            },
        }
    }
}

/// The first step from the `i`-th on whose policies are not on offer.
pub open spec fn step_fault(steps: Seq<StepView>, i: nat) -> Option<Seq<char>>
    decreases steps.len() - i,
{
    if i >= steps.len() {
        None
    } else if !steps[i as int].policy_accepted() {
        Some(
            "step "@ + text::debug_text(steps[i as int].id) + " is invalid: "@
                + "step policy is not available for this action"@,
        )
    } else {
        step_fault(steps, i + 1)
    }
}

impl TaskView {
    /// What is wrong with a task by itself.
    pub open spec fn fault(self) -> Option<Seq<char>> {
        if text::blank(self.id) {
            Some("task id must not be empty"@)
        } else {
            match step_fault(self.steps, 0) {
                Some(message) => Some(message),
                None => match self.graph {
                    None => None,
                    Some(graph) => if all_faults(graph).len() == 0 {
                        None
                    } else {
                        Some(
                            "workflow graph is invalid: "@ + messages_text(
                                all_reported(Seq::empty(), all_faults(graph)),
                            ),
                        )
                    },
                },
            }
        }
    }

    /// A task in the form that is executed: one graph of the current version.
    pub open spec fn in_v3(self) -> Result<TaskView, Seq<char>> {
        if self.steps.len() > 0 {
            match imported(self.steps) {
                Err(fault) => Err(fault.message()),
                Ok(graph) => Ok(
                    TaskView { steps: Seq::empty(), graph: Some(graph), ..self },
                ),
            }
        } else {
            match self.graph {
                None => Ok(self),
                Some(graph) => match upgraded(graph) {
                    Err(fault) => Err(fault.message()),
                    Ok(graph) => Ok(TaskView { graph: Some(graph), ..self }),
                },
            }
        }
    }
}

impl Task {
    pub open spec fn view(&self) -> TaskView {
        TaskView {
            id: self.id@,
            name: self.name@,
            description: self.description@,
            platform: self.platform,
            trust: self.trust,
            scenarios: text_views(self.scenarios@),
            resolved_scenarios: text_views(self.resolved_scenarios@),
            steps: step_views(self.steps@),
            graph: graph_view(self.graph),
        }
    }

    pub fn validate(&self) -> (res: Result<(), String>)
        ensures
            match res {
                Ok(_) => self@.fault() is None,
                Err(message) => self@.fault() == Some(message@),
            },
    {
        if is_blank(&self.id) {
            return Err(owned("task id must not be empty"));
        }
        let ghost views = step_views(self.steps@);
        let mut i: usize = 0;
        while i < self.steps.len()
            invariant
                i <= self.steps@.len(),
                views == step_views(self.steps@),
                !text::blank(self.id@),
                step_fault(views, 0) == step_fault(views, i as nat),
            decreases self.steps@.len() - i,
        {
            assert(views[i as int] == self.steps@[i as int]@);
            match self.steps[i].validate() {
                Ok(_) => {},
                Err(message) => {
                    let mut out = joined("step ", &quoted(&self.steps[i].id));
                    out.append(" is invalid: ");
                    out.append(&message);
                    return Err(out);
                },
            }
            i = i + 1;
        }
        match &self.graph {
            None => Ok(()),
            Some(graph) => match graph.validate() {
                Ok(_) => Ok(()),
                Err(errors) => Err(joined("workflow graph is invalid: ", &join_messages(&errors))),
            },
        }
    }

    /// The task in the form that is executed.
    pub fn into_v3(self) -> (res: Result<Task, String>)
        ensures
            match res {
                Ok(task) => self@.in_v3() == Ok::<TaskView, Seq<char>>(task@),
                Err(message) => self@.in_v3() == Err::<TaskView, Seq<char>>(message@),
            },
    {
        let mut task = self;
        if task.steps.len() > 0 {
            match LegacyTaskImporter::import_steps(&task.steps) {
                Err(e) => Err(e.message()),
                Ok(graph) => {
                    let steps: Vec<Step> = Vec::new();
                    assert(step_views(steps@) =~= Seq::empty());
                    task.steps = steps;
                    task.graph = Some(graph);
                    Ok(task)
                },
            }
        } else {
            match &task.graph {
                None => Ok(task),
                Some(graph) => match graph.to_v3() {
                    Err(e) => Err(e.message()),
                    Ok(graph) => {
                        task.graph = Some(graph);
                        Ok(task)
                    },
                },
            }
        }
    }

    /// The graph of a task, where it has one.
    pub fn workflow_graph(&self) -> (res: Option<&WorkflowGraph>)
        ensures
            match res {
                Some(graph) => self@.graph == Some(graph@),
                None => self@.graph is None,
            },
    {
        match &self.graph {
            Some(graph) => Some(graph),
            None => None,
        }
    }
}

// ---------------------------------------------------------------------------
// Packs
// ---------------------------------------------------------------------------
#[derive(Debug, PartialEq, Eq)]
pub struct TaskSource {
    pub path: String,
    pub trust: PackTrust,
}

#[derive(Debug, PartialEq)]
pub struct TaskPack {
    pub tasks: Vec<Task>,
    pub sources: Vec<TaskSource>,
    pub origins: TextMap<PackTrust>,
    pub unavailable: Vec<(String, Platform)>,
    /// Linear steps, kept only for expanding scenarios. Resolved tasks hold a
    /// graph instead.
    pub legacy_steps: TextMap<Vec<Step>>,
}

pub struct PackView {
    pub tasks: Seq<TaskView>,
    pub sources: Seq<(Seq<char>, PackTrust)>,
    pub origins: Seq<(Seq<char>, PackTrust)>,
    pub unavailable: Seq<(Seq<char>, Platform)>,
    pub legacy: Seq<(Seq<char>, Seq<StepView>)>,
}

pub open spec fn task_views(tasks: Seq<Task>) -> Seq<TaskView> {
    tasks.map_values(|t: Task| t.view())
}

pub open spec fn source_views(sources: Seq<TaskSource>) -> Seq<(Seq<char>, PackTrust)> {
    sources.map_values(|s: TaskSource| (s.path@, s.trust))
}

pub open spec fn unavailable_views(list: Seq<(String, Platform)>) -> Seq<(Seq<char>, Platform)> {
    list.map_values(|u: (String, Platform)| (u.0@, u.1))
}

pub open spec fn legacy_views(entries: Seq<(String, Vec<Step>)>) -> Seq<
    (Seq<char>, Seq<StepView>),
> {
    entries.map_values(|e: (String, Vec<Step>)| (e.0@, step_views(e.1@)))
}

/// A pack with nothing in it.
pub open spec fn no_pack() -> PackView {
    PackView {
        tasks: Seq::empty(),
        sources: Seq::empty(),
        origins: Seq::empty(),
        unavailable: Seq::empty(),
        legacy: Seq::empty(),
    }
}

/// The first task of an identity, from the `i`-th on.
pub open spec fn first_task(tasks: Seq<TaskView>, id: Seq<char>, i: nat) -> Option<nat>
    decreases tasks.len() - i,
{
    if i >= tasks.len() {
        None
    } else if tasks[i as int].id == id {
        Some(i)
    } else {
        first_task(tasks, id, i + 1)
    }
}

/// The last of the first `n` tasks that has an identity.
pub open spec fn last_task(tasks: Seq<TaskView>, id: Seq<char>, n: nat) -> Option<nat>
    decreases n,
{
    if n == 0 || n > tasks.len() {
        None
    } else if tasks[n - 1].id == id {
        Some((n - 1) as nat)
    } else {
        last_task(tasks, id, (n - 1) as nat)
    }
}

// ---------------------------------------------------------------------------
// Expansion
// ---------------------------------------------------------------------------
/// The identities of the tasks on a way from the `i`-th on, and one more, with
/// arrows between them.
pub open spec fn chain_text(p: PackView, way: Seq<int>, i: nat, last: Seq<char>) -> Seq<char>
    decreases way.len() - i,
{
    if i >= way.len() {
        last
    } else {
        p.tasks[way[i as int]].id + " -> "@ + chain_text(p, way, i + 1, last)
    }
}

pub open spec fn first_place(way: Seq<int>, index: int) -> nat
    decreases way.len(),
{
    if way.len() == 0 || way[0] == index {
        0
    } else {
        1 + first_place(way.skip(1), index)
    }
}

pub open spec fn find_unavailable(list: Seq<(Seq<char>, Platform)>, id: Seq<char>) -> Option<
    Platform,
> {
    text_map::lookup(list, id)
}

/// The first step from the `i`-th on whose identity an earlier one has.
pub open spec fn repeated_step(steps: Seq<StepView>, i: nat) -> Option<Seq<char>>
    decreases steps.len() - i,
{
    if i >= steps.len() {
        None
    } else if exists|j: int| 0 <= j < i && (#[trigger] steps[j]).id == steps[i as int].id {
        Some(steps[i as int].id)
    } else {
        repeated_step(steps, i + 1)
    }
}

pub open spec fn own_steps(p: PackView, index: int) -> Seq<StepView> {
    match text_map::lookup(p.legacy, p.tasks[index].id) {
        Some(steps) => steps,
        None => p.tasks[index].steps,
    }
}

/// Why a task may not include a scenario, apart from what is inside it.
pub open spec fn inclusion_fault(
    p: PackView,
    index: int,
    way: Seq<int>,
    seen: Seq<Seq<char>>,
    scenario: Seq<char>,
) -> Option<LoadFault> {
    let task = p.tasks[index];
    match last_task(p.tasks, scenario, p.tasks.len()) {
        None => Some(
            match find_unavailable(p.unavailable, scenario) {
                Some(platform) => LoadFault::Unavailable {
                    scenario,
                    task: task.id,
                    platform,
                    chain: chain_text(p, way, 0, scenario),
                },
                None => LoadFault::UnknownScenario {
                    scenario,
                    task: task.id,
                    chain: chain_text(p, way, 0, scenario),
                },
            },
        ),
        Some(child) => match text_map::lookup(p.origins, task.id) {
            None => Some(LoadFault::NoProvenance { id: task.id }),
            Some(parent_trust) => match text_map::lookup(p.origins, scenario) {
                None => Some(LoadFault::NoProvenance { id: scenario }),
                Some(child_trust) => if child_trust.rank() < parent_trust.rank() {
                    Some(
                        LoadFault::LessTrusted {
                            task: task.id,
                            parent_trust,
                            scenario,
                            child_trust,
                        },
                    )
                } else if !way.contains(child as int) && seen.contains(scenario) {
                    Some(
                        LoadFault::Repeated {
                            root: p.tasks[way[0]].id,
                            scenario,
                            chain: chain_text(p, way, 0, scenario),
                        },
                    )
                } else {
                    None
                },
            },
        },
    }
}

/// The steps of a task, with those of the scenarios that it includes, and the
/// scenarios met so far; `way` leads to the task.
pub open spec fn expanded(p: PackView, index: int, way: Seq<int>, seen: Seq<Seq<char>>) -> Result<
    (Seq<StepView>, Seq<Seq<char>>),
    LoadFault,
>
    decreases MAX_TEMPLATE_DEPTH + 1 - way.len(), 0int, 0int,
{
    let task = p.tasks[index];
    match task.fault() {
        Some(message) => Err(LoadFault::InvalidTask { id: task.id, message }),
        None => if task.graph is Some && own_steps(p, index).len() == 0 {
            if way.len() > 0 {
                Err(LoadFault::GraphChild { parent: p.tasks[way.last()].id, child: task.id })
            } else {
                Ok((Seq::empty(), seen))
            }
        } else if way.contains(index) {
            Err(LoadFault::Cycle { chain: chain_text(p, way, first_place(way, index), task.id) })
        } else if way.len() >= MAX_TEMPLATE_DEPTH {
            Err(LoadFault::TooDeep { chain: chain_text(p, way, 0, task.id) })
        } else {
            let start = if task.scenarios.len() == 0 {
                own_steps(p, index)
            } else {
                Seq::empty()
            };
            match expanded_children(p, index, way.push(index), seen, 0, start) {
                Err(fault) => Err(fault),
                Ok((steps, seen)) => match repeated_step(steps, 0) {
                    Some(step) => Err(LoadFault::DuplicateStep { task: task.id, step }),
                    None => Ok((steps, seen)),
                },
            }
        },
    }
}

/// The scenarios of a task from the `i`-th on, behind the steps already there.
pub open spec fn expanded_children(
    p: PackView,
    index: int,
    way: Seq<int>,
    seen: Seq<Seq<char>>,
    i: nat,
    done: Seq<StepView>,
) -> Result<(Seq<StepView>, Seq<Seq<char>>), LoadFault>
    decreases MAX_TEMPLATE_DEPTH + 1 - way.len(), 1int, p.tasks[index].scenarios.len() - i,
{
    let task = p.tasks[index];
    if i >= task.scenarios.len() {
        Ok((done, seen))
    } else {
        let scenario = task.scenarios[i as int];
        match inclusion_fault(p, index, way, seen, scenario) {
            Some(fault) => Err(fault),
            None => {
                let child = last_task(p.tasks, scenario, p.tasks.len())->0 as int;
                let met = if way.contains(child) {
                    seen
                } else {
                    seen.push(scenario)
                };
                match expanded(p, child, way, met) {
                    Err(fault) => Err(fault),
                    Ok((steps, met)) => if saturated(done.len() + steps.len())
                        > MAX_EXPANDED_STEPS {
                        Err(LoadFault::TooManySteps { task: task.id })
                    } else {
                        expanded_children(
                            p,
                            index,
                            way,
                            met,
                            i + 1,
                            done + steps.map_values(|s: StepView| moved(s, scenario)),
                        )
                    },
                }
            },
        }
    }
}

/// The executable form of a task.
pub open spec fn resolved_task(p: PackView, id: Seq<char>) -> Result<TaskView, LoadFault> {
    match first_task(p.tasks, id, 0) {
        None => Err(LoadFault::UnknownTask { id }),
        Some(index) => if !text_map::has_key(p.origins, id) {
            Err(LoadFault::NoProvenance { id })
        } else {
            match expanded(p, index as int, Seq::empty(), seq![id]) {
                Err(fault) => Err(fault),
                Ok((steps, _)) => {
                    let task = p.tasks[index as int];
                    let plain = TaskView {
                        scenarios: Seq::empty(),
                        resolved_scenarios: task.scenarios,
                        ..task
                    };
                    let whole = if steps.len() > 0 {
                        TaskView { graph: None, steps, ..plain }
                    } else {
                        plain
                    };
                    match whole.in_v3() {
                        Err(message) => Err(LoadFault::Migration { id, message }),
                        Ok(task) => Ok(task),
                    }
                },
            }
        },
    }
}

impl TaskPack {
    pub open spec fn view(&self) -> PackView {
        PackView {
            tasks: task_views(self.tasks@),
            sources: source_views(self.sources@),
            origins: self.origins.pairs(),
            unavailable: unavailable_views(self.unavailable@),
            legacy: legacy_views(self.legacy_steps.entries@),
        }
    }

    fn first_position(&self, id: &str) -> (res: Option<usize>)
        ensures
            match res {
                Some(i) => first_task(self@.tasks, id@, 0) == Some(i as nat) && i
                    < self.tasks@.len(),
                None => first_task(self@.tasks, id@, 0) is None,
            },
    {
        let ghost views = task_views(self.tasks@);
        let mut i: usize = 0;
        while i < self.tasks.len()
            invariant
                i <= self.tasks@.len(),
                views == task_views(self.tasks@),
                first_task(views, id@, 0) == first_task(views, id@, i as nat),
            decreases self.tasks@.len() - i,
        {
            assert(views[i as int] == self.tasks@[i as int]@);
            if same_text(&self.tasks[i].id, id) {
                return Some(i);
            }
            i = i + 1;
        }
        None
    }

    fn last_position(&self, id: &str) -> (res: Option<usize>)
        ensures
            match res {
                Some(i) => last_task(self@.tasks, id@, self@.tasks.len()) == Some(i as nat) && i
                    < self.tasks@.len(),
                None => last_task(self@.tasks, id@, self@.tasks.len()) is None,
            },
    {
        let ghost views = task_views(self.tasks@);
        let mut n: usize = self.tasks.len();
        while n > 0
            invariant
                n <= self.tasks@.len(),
                views == task_views(self.tasks@),
                last_task(views, id@, views.len()) == last_task(views, id@, n as nat),
            decreases n,
        {
            n = n - 1;
            assert(views[n as int] == self.tasks@[n as int]@);
            if same_text(&self.tasks[n].id, id) {
                return Some(n);
            }
        }
        None
    }

    pub fn get(&self, id: &str) -> (res: Option<&Task>)
        ensures
            match res {
                Some(task) => first_task(self@.tasks, id@, 0) matches Some(i)
                    && self@.tasks[i as int] == task@,
                None => first_task(self@.tasks, id@, 0) is None,
            },
    {
        match self.first_position(id) {
            Some(i) => {
                assert(self@.tasks[i as int] == self.tasks@[i as int]@);
                Some(&self.tasks[i])
            },
            None => None,
        }
    }

    fn show_chain(&self, way: &Vec<usize>, from: usize, last: &str) -> (res: String)
        requires
            forall|k: int| 0 <= k < way@.len() ==> (#[trigger] way@[k]) < self.tasks@.len(),
        ensures
            res@ == chain_text(self@, start_views(way@), from as nat, last@),
        decreases way@.len() - from,
    {
        if from >= way.len() {
            return owned(last);
        }
        let rest = self.show_chain(way, from + 1, last);
        assert(start_views(way@)[from as int] == way@[from as int]);
        assert(self@.tasks[way@[from as int] as int] == self.tasks@[way@[from as int] as int]@);
        let mut out = joined(&self.tasks[way[from]].id, " -> ");
        out.append(&rest);
        out
    }

    fn find_origin(&self, id: &str) -> (res: Option<PackTrust>)
        ensures
            res == text_map::lookup(self@.origins, id@),
    {
        match self.origins.get(id) {
            Some(trust) => Some(*trust),
            None => None,
        }
    }

    fn find_platform(&self, id: &str) -> (res: Option<Platform>)
        ensures
            res == find_unavailable(self@.unavailable, id@),
    {
        let ghost views = unavailable_views(self.unavailable@);
        let mut i: usize = 0;
        while i < self.unavailable.len()
            invariant
                i <= self.unavailable@.len(),
                views == unavailable_views(self.unavailable@),
                forall|j: int| 0 <= j < i ==> (#[trigger] views[j]).0 != id@,
            decreases self.unavailable@.len() - i,
        {
            assert(views[i as int] == (
                self.unavailable@[i as int].0@,
                self.unavailable@[i as int].1,
            ));
            if same_text(&self.unavailable[i].0, id) {
                proof {
                    text_map::lemma_index_of(views, id@, i as int);
                }
                return Some(self.unavailable[i].1);
            }
            i = i + 1;
        }
        proof {
            text_map::lemma_index_of(views, id@, views.len() as int);
        }
        None
    }

    fn imported_steps(&self, index: usize) -> (res: Vec<Step>)
        requires
            index < self.tasks@.len(),
        ensures
            step_views(res@) == own_steps(self@, index as int),
            res@.len() == own_steps(self@, index as int).len(),
    {
        let ghost views = legacy_views(self.legacy_steps.entries@);
        let id = &self.tasks[index].id;
        assert(self@.tasks[index as int] == self.tasks@[index as int]@);
        let mut i: usize = 0;
        while i < self.legacy_steps.entries.len()
            invariant
                index < self.tasks@.len(),
                i <= self.legacy_steps.entries@.len(),
                views == legacy_views(self.legacy_steps.entries@),
                id@ == self@.tasks[index as int].id,
                forall|j: int| 0 <= j < i ==> (#[trigger] views[j]).0 != id@,
            decreases self.legacy_steps.entries@.len() - i,
        {
            assert(views[i as int] == (
                self.legacy_steps.entries@[i as int].0@,
                step_views(self.legacy_steps.entries@[i as int].1@),
            ));
            if same_text(&self.legacy_steps.entries[i].0, id) {
                proof {
                    text_map::lemma_index_of(views, id@, i as int);
                }
                return clone_steps(&self.legacy_steps.entries[i].1);
            }
            i = i + 1;
        }
        proof {
            text_map::lemma_index_of(views, id@, views.len() as int);
        }
        clone_steps(&self.tasks[index].steps)
    }

    /// Whether a task may include a scenario, and which task that is.
    fn check_inclusion(
        &self,
        index: usize,
        way: &Vec<usize>,
        seen: &Vec<String>,
        scenario: &str,
    ) -> (res: Result<usize, LoadError>)
        requires
            index < self.tasks@.len(),
            way@.len() > 0,
            forall|k: int| 0 <= k < way@.len() ==> (#[trigger] way@[k]) < self.tasks@.len(),
        ensures
            ({
                let fault = inclusion_fault(
                    self@,
                    index as int,
                    start_views(way@),
                    text_views(seen@),
                    scenario@,
                );
                match res {
                    Ok(child) => fault is None && last_task(
                        self@.tasks,
                        scenario@,
                        self@.tasks.len(),
                    ) == Some(child as nat) && child < self.tasks@.len(),
                    Err(e) => fault == Some(e@),
                }
            }),
    {
        let task = &self.tasks[index];
        assert(self@.tasks[index as int] == task@);
        let child = match self.last_position(scenario) {
            None => {
                let chain = self.show_chain(way, 0, scenario);
                return match self.find_platform(scenario) {
                    Some(platform) => Err(
                        LoadError::Unavailable {
                            scenario: owned(scenario),
                            task: task.id.clone(),
                            platform,
                            chain,
                        },
                    ),
                    None => Err(
                        LoadError::UnknownScenario {
                            scenario: owned(scenario),
                            task: task.id.clone(),
                            chain,
                        },
                    ),
                };
            },
            Some(child) => child,
        };
        let parent_trust = match self.find_origin(&task.id) {
            None => {
                return Err(LoadError::NoProvenance { id: task.id.clone() });
            },
            Some(trust) => trust,
        };
        let child_trust = match self.find_origin(scenario) {
            None => {
                return Err(LoadError::NoProvenance { id: owned(scenario) });
            },
            Some(trust) => trust,
        };
        if trust_rank(child_trust) < trust_rank(parent_trust) {
            return Err(
                LoadError::LessTrusted {
                    task: task.id.clone(),
                    parent_trust,
                    scenario: owned(scenario),
                    child_trust,
                },
            );
        }
        if !on_way(way, child) && has_name(seen, scenario) {
            assert(start_views(way@)[0] == way@[0]);
            assert(self@.tasks[way@[0] as int] == self.tasks@[way@[0] as int]@);
            return Err(
                LoadError::Repeated {
                    root: self.tasks[way[0]].id.clone(),
                    scenario: owned(scenario),
                    chain: self.show_chain(way, 0, scenario),
                },
            );
        }
        Ok(child)
    }

    fn resolve_steps(&self, index: usize, way: &mut Vec<usize>, seen: &mut Vec<String>) -> (res:
        Result<Vec<Step>, LoadError>)
        requires
            index < self.tasks@.len(),
            old(way)@.len() <= MAX_TEMPLATE_DEPTH,
            forall|k: int|
                0 <= k < old(way)@.len() ==> (#[trigger] old(way)@[k]) < self.tasks@.len(),
        ensures
            res is Ok ==> final(way)@ == old(way)@,
            ({
                let want = expanded(
                    self@,
                    index as int,
                    start_views(old(way)@),
                    text_views(old(seen)@),
                );
                match res {
                    Ok(steps) => want == Ok::<(Seq<StepView>, Seq<Seq<char>>), LoadFault>(
                        (step_views(steps@), text_views(final(seen)@)),
                    ),
                    Err(e) => want == Err::<(Seq<StepView>, Seq<Seq<char>>), LoadFault>(e@),
                }
            }),
        decreases MAX_TEMPLATE_DEPTH + 1 - old(way)@.len(), 0int, 0int,
    {
        let task = &self.tasks[index];
        assert(self@.tasks[index as int] == task@);
        match task.validate() {
            Ok(_) => {},
            Err(message) => {
                return Err(LoadError::InvalidTask { id: task.id.clone(), message });
            },
        }
        let own = self.imported_steps(index);
        if task.graph.is_some() && own.len() == 0 {
            if way.len() > 0 {
                let parent: usize = way[way.len() - 1];
                assert(start_views(way@).last() == parent);
                assert(self@.tasks[parent as int] == self.tasks@[parent as int]@);
                return Err(
                    LoadError::GraphChild {
                        parent: self.tasks[parent].id.clone(),
                        child: task.id.clone(),
                    },
                );
            }
            assert(step_views(own@) =~= Seq::empty());
            return Ok(own);
        }
        if on_way(way, index) {
            let from: usize = place_on_way(way, index);
            return Err(LoadError::Cycle { chain: self.show_chain(way, from, &task.id) });
        }
        if way.len() >= MAX_TEMPLATE_DEPTH {
            return Err(LoadError::TooDeep { chain: self.show_chain(way, 0, &task.id) });
        }
        let ghost before = way@;
        way.push(index);
        assert(start_views(way@) =~= start_views(before).push(index as int));
        let start = if task.scenarios.len() == 0 {
            own
        } else {
            let none: Vec<Step> = Vec::new();
            assert(step_views(none@) =~= Seq::empty());
            none
        };
        let resolved = match self.resolve_children(index, way, seen, start) {
            Err(e) => {
                return Err(e);
            },
            Ok(steps) => steps,
        };
        way.pop();
        assert(way@ =~= before);
        match find_repeated(&resolved) {
            Some(step) => Err(LoadError::DuplicateStep { task: task.id.clone(), step }),
            None => Ok(resolved),
        }
    }

    fn resolve_children(
        &self,
        index: usize,
        way: &mut Vec<usize>,
        seen: &mut Vec<String>,
        start: Vec<Step>,
    ) -> (res: Result<Vec<Step>, LoadError>)
        requires
            index < self.tasks@.len(),
            0 < old(way)@.len() <= MAX_TEMPLATE_DEPTH,
            forall|k: int|
                0 <= k < old(way)@.len() ==> (#[trigger] old(way)@[k]) < self.tasks@.len(),
        ensures
            res is Ok ==> final(way)@ == old(way)@,
            ({
                let want = expanded_children(
                    self@,
                    index as int,
                    start_views(old(way)@),
                    text_views(old(seen)@),
                    0,
                    step_views(start@),
                );
                match res {
                    Ok(steps) => want == Ok::<(Seq<StepView>, Seq<Seq<char>>), LoadFault>(
                        (step_views(steps@), text_views(final(seen)@)),
                    ),
                    Err(e) => want == Err::<(Seq<StepView>, Seq<Seq<char>>), LoadFault>(e@),
                }
            }),
        decreases MAX_TEMPLATE_DEPTH + 1 - old(way)@.len(), 1int, 0int,
    {
        let task = &self.tasks[index];
        let ghost p = self@;
        let ghost route = start_views(way@);
        let ghost whole = expanded_children(
            p,
            index as int,
            route,
            text_views(seen@),
            0,
            step_views(start@),
        );
        let mut done = start;
        let mut i: usize = 0;
        while i < task.scenarios.len()
            invariant
                index < self.tasks@.len(),
                i <= task.scenarios@.len(),
                p == self@,
                p.tasks[index as int] == task@,
                way@ == old(way)@,
                route == start_views(way@),
                0 < way@.len() <= MAX_TEMPLATE_DEPTH,
                forall|k: int| 0 <= k < way@.len() ==> (#[trigger] way@[k]) < self.tasks@.len(),
                whole == expanded_children(
                    p,
                    index as int,
                    route,
                    text_views(seen@),
                    i as nat,
                    step_views(done@),
                ),
                whole == expanded_children(
                    self@,
                    index as int,
                    start_views(old(way)@),
                    text_views(old(seen)@),
                    0,
                    step_views(start@),
                ),
            decreases task.scenarios@.len() - i,
        {
            let scenario = &task.scenarios[i];
            assert(task@.scenarios[i as int] == scenario@);
            let child: usize = match self.check_inclusion(index, way, seen, scenario) {
                Err(e) => {
                    return Err(e);
                },
                Ok(child) => child,
            };
            if !on_way(way, child) {
                let ghost met = text_views(seen@);
                seen.push(scenario.clone());
                assert(text_views(seen@) =~= met.push(scenario@));
            }
            let steps = match self.resolve_steps(child, way, seen) {
                Err(e) => {
                    return Err(e);
                },
                Ok(steps) => steps,
            };
            if done.len().saturating_add(steps.len()) > MAX_EXPANDED_STEPS {
                return Err(LoadError::TooManySteps { task: task.id.clone() });
            }
            append_moved(&mut done, &steps, scenario);
            i = i + 1;
        }
        Ok(done)
    }

    /// Resolve a scenario or reusable template into one executable task.
    ///
    /// The returned task keeps the root composition as provenance, while linear
    /// templates are flattened in declaration order. A direct graph is kept
    /// intact. Graph tasks cannot be nested in a linear scenario template:
    /// silently flattening or inferring edges would change their semantics.
    pub fn resolve(&self, id: &str) -> (res: Result<Task, LoadError>)
        ensures
            match res {
                Ok(task) => resolved_task(self@, id@) == Ok::<TaskView, LoadFault>(task@),
                Err(e) => resolved_task(self@, id@) == Err::<TaskView, LoadFault>(e@),
            },
    {
        let index: usize = match self.first_position(id) {
            None => {
                return Err(LoadError::UnknownTask { id: owned(id) });
            },
            Some(index) => index,
        };
        if self.find_origin(id).is_none() {
            return Err(LoadError::NoProvenance { id: owned(id) });
        }
        let mut way: Vec<usize> = Vec::new();
        let mut seen: Vec<String> = Vec::new();
        seen.push(owned(id));
        assert(start_views(way@) =~= Seq::empty());
        assert(text_views(seen@) =~= seq![id@]);
        let steps = match self.resolve_steps(index, &mut way, &mut seen) {
            Err(e) => {
                return Err(e);
            },
            Ok(steps) => steps,
        };
        assert(self@.tasks[index as int] == self.tasks@[index as int]@);
        let mut task = self.tasks[index].clone();
        let none: Vec<String> = Vec::new();
        assert(text_views(none@) =~= Seq::empty());
        task.resolved_scenarios = clone_texts(&task.scenarios);
        task.scenarios = none;
        if steps.len() > 0 {
            task.graph = None;
            task.steps = steps;
        }
        match task.into_v3() {
            Err(message) => Err(LoadError::Migration { id: owned(id), message }),
            Ok(task) => Ok(task),
        }
    }
}

fn on_way(way: &Vec<usize>, index: usize) -> (res: bool)
    ensures
        res == start_views(way@).contains(index as int),
{
    let ghost views = start_views(way@);
    let mut i: usize = 0;
    while i < way.len()
        invariant
            i <= way@.len(),
            views == start_views(way@),
            forall|j: int| 0 <= j < i ==> #[trigger] views[j] != index,
        decreases way@.len() - i,
    {
        assert(views[i as int] == way@[i as int]);
        if way[i] == index {
            return true;
        }
        i = i + 1;
    }
    false
}

proof fn lemma_first_place(way: Seq<int>, index: int, i: nat)
    requires
        i <= way.len(),
        forall|j: int| 0 <= j < i ==> #[trigger] way[j] != index,
        i == way.len() || way[i as int] == index,
    ensures
        first_place(way, index) == i,
    decreases way.len(),
{
    if way.len() > 0 && i > 0 {
        assert(way[0] != index);
        let rest = way.skip(1);
        assert forall|j: int| 0 <= j < i - 1 implies #[trigger] rest[j] != index by {
            assert(rest[j] == way[j + 1]);
        }
        lemma_first_place(rest, index, (i - 1) as nat);
    }
}

fn place_on_way(way: &Vec<usize>, index: usize) -> (at: usize)
    ensures
        at == first_place(start_views(way@), index as int),
{
    let ghost views = start_views(way@);
    let mut i: usize = 0;
    while i < way.len()
        invariant
            i <= way@.len(),
            views == start_views(way@),
            forall|j: int| 0 <= j < i ==> #[trigger] views[j] != index,
        decreases way@.len() - i,
    {
        assert(views[i as int] == way@[i as int]);
        if way[i] == index {
            proof {
                lemma_first_place(views, index as int, i as nat);
            }
            return i;
        }
        i = i + 1;
    }
    proof {
        lemma_first_place(views, index as int, i as nat);
    }
    i
}

fn append_moved(done: &mut Vec<Step>, steps: &Vec<Step>, scenario: &str)
    ensures
        step_views(final(done)@) == step_views(old(done)@) + step_views(steps@).map_values(
            |s: StepView| moved(s, scenario@),
        ),
{
    let ghost start = step_views(done@);
    let ghost all = step_views(steps@).map_values(|s: StepView| moved(s, scenario@));
    let mut i: usize = 0;
    assert(start + all.take(0) =~= start);
    while i < steps.len()
        invariant
            i <= steps@.len(),
            all == step_views(steps@).map_values(|s: StepView| moved(s, scenario@)),
            step_views(done@) == start + all.take(i as int),
        decreases steps@.len() - i,
    {
        let ghost was = step_views(done@);
        let step = move_step(&steps[i], scenario);
        done.push(step);
        proof {
            assert(step_views(steps@)[i as int] == steps@[i as int]@);
            assert(step_views(done@) =~= was.push(all[i as int]));
            assert(was.push(all[i as int]) =~= start + all.take(i + 1));
        }
        i = i + 1;
    }
    assert(all.take(i as int) =~= all);
}

fn find_repeated(steps: &Vec<Step>) -> (res: Option<String>)
    ensures
        match res {
            Some(id) => repeated_step(step_views(steps@), 0) == Some(id@),
            None => repeated_step(step_views(steps@), 0) is None,
        },
{
    let ghost views = step_views(steps@);
    let mut i: usize = 0;
    while i < steps.len()
        invariant
            i <= steps@.len(),
            views == step_views(steps@),
            repeated_step(views, 0) == repeated_step(views, i as nat),
        decreases steps@.len() - i,
    {
        assert(views[i as int] == steps@[i as int]@);
        let mut j: usize = 0;
        while j < i
            invariant
                j <= i < steps@.len(),
                views == step_views(steps@),
                repeated_step(views, 0) == repeated_step(views, i as nat),
                forall|k: int| 0 <= k < j ==> (#[trigger] views[k]).id != views[i as int].id,
            decreases i - j,
        {
            assert(views[j as int] == steps@[j as int]@);
            assert(views[i as int] == steps@[i as int]@);
            if same_text(&steps[j].id, &steps[i].id) {
                return Some(steps[i].id.clone());
            }
            j = j + 1;
        }
        i = i + 1;
    }
    None
}

// ---------------------------------------------------------------------------
// Files
// ---------------------------------------------------------------------------
/// The name of a file in the format of task packs.
pub open spec fn yaml_name(extension: Option<Seq<char>>) -> bool {
    extension == Some("yaml"@) || extension == Some("yml"@)
}

pub fn is_yaml_file(extension: &Option<String>) -> (res: bool)
    ensures
        res == yaml_name(optional_text(*extension)),
{
    match extension {
        Some(extension) => same_text(extension, "yaml") || same_text(extension, "yml"),
        None => false,
    }
}

// ---------------------------------------------------------------------------
// Loading
// ---------------------------------------------------------------------------
/// A task file that has been read: its name, where it comes from, its text, the
/// task in it and the linear steps of that task.
#[derive(Debug, PartialEq)]
pub struct TaskDocument {
    pub file: String,
    pub extension: Option<String>,
    pub trust: PackTrust,
    pub text: String,
    pub task: Task,
    pub legacy_steps: Vec<Step>,
}

pub struct FileView {
    pub file: Seq<char>,
    pub extension: Option<Seq<char>>,
    pub trust: PackTrust,
    pub document: Result<YamlView, Seq<char>>,
    pub task: TaskView,
    pub legacy: Seq<StepView>,
}

impl TaskDocument {
    pub open spec fn view(&self) -> FileView {
        self.parsed_to(yaml_document(self.text@))
    }

    /// The file, given what the parse of its text came to.
    pub open spec fn parsed_to(&self, document: Result<YamlView, Seq<char>>) -> FileView {
        FileView {
            file: self.file@,
            extension: optional_text(self.extension),
            trust: self.trust,
            document,
            task: self.task@,
            legacy: step_views(self.legacy_steps@),
        }
    }
}

/// Why a task may not come from where it comes from.
pub open spec fn trust_fault(f: FileView, allow_external: bool) -> Option<LoadFault> {
    match (f.task.trust, f.trust) {
        (_, PackTrust::Bundled) => None,
        (TrustRequirement::BundledOnly, _) => Some(
            LoadFault::NeedsBundled { task: f.task.id, file: f.file },
        ),
        (TrustRequirement::UserConfigAllowed, PackTrust::External) => Some(
            LoadFault::NeedsUserConfig { task: f.task.id, file: f.file },
        ),
        (TrustRequirement::ExternalAllowed, PackTrust::External) => if allow_external {
            None
        } else {
            Some(LoadFault::Blocked { file: f.file })
        },
        _ => None,
    }
}

/// Why a file is refused, whatever else is in the pack.
pub open spec fn file_fault(f: FileView, allow_external: bool) -> Option<LoadFault> {
    if !yaml_name(f.extension) {
        Some(LoadFault::NotYaml { file: f.file })
    } else {
        match document_fault(f.document, f.file) {
            Some(fault) => Some(fault),
            None => match trust_fault(f, allow_external) {
                Some(fault) => Some(fault),
                None => match f.task.fault() {
                    Some(message) => Some(LoadFault::InvalidFile { file: f.file, message }),
                    None => None,
                },
            },
        }
    }
}

/// A pack without one of its tasks.
pub open spec fn without_task(p: PackView, i: int) -> PackView {
    PackView {
        tasks: p.tasks.remove(i),
        sources: p.sources.remove(i),
        legacy: text_map::removed(p.legacy, p.tasks[i].id),
        ..p
    }
}

pub open spec fn with_task(p: PackView, f: FileView) -> PackView {
    PackView {
        tasks: p.tasks.push(f.task),
        sources: p.sources.push((f.file, f.trust)),
        origins: text_map::stored(p.origins, f.task.id, f.trust),
        legacy: if f.legacy.len() > 0 {
            text_map::stored(p.legacy, f.task.id, f.legacy)
        } else {
            p.legacy
        },
        ..p
    }
}

/// A pack with one more file. A task for another platform is only remembered; a
/// task whose identity is taken replaces the other where that is allowed.
pub open spec fn loaded(
    p: PackView,
    f: FileView,
    allow_external: bool,
    allow_overrides: bool,
    host: Platform,
) -> Result<PackView, LoadFault> {
    match file_fault(f, allow_external) {
        Some(fault) => Err(fault),
        None => if !f.task.platform.suits(host) {
            Ok(
                PackView { unavailable: p.unavailable.push((f.task.id, f.task.platform)), ..p },
            )
        } else {
            match first_task(p.tasks, f.task.id, 0) {
                None => Ok(with_task(p, f)),
                Some(i) => if allow_overrides {
                    Ok(with_task(without_task(p, i as int), f))
                } else {
                    Err(LoadFault::DuplicateTask { task: f.task.id, file: f.file })
                },
            }
        },
    }
}

pub open spec fn file_views(files: Seq<TaskDocument>) -> Seq<FileView> {
    files.map_values(|f: TaskDocument| f.view())
}

/// A pack with the files from the `i`-th on.
pub open spec fn loaded_all(
    p: PackView,
    files: Seq<FileView>,
    allow_external: bool,
    allow_overrides: bool,
    host: Platform,
    i: nat,
) -> Result<PackView, LoadFault>
    decreases files.len() - i,
{
    if i >= files.len() {
        Ok(p)
    } else {
        match loaded(p, files[i as int], allow_external, allow_overrides, host) {
            Err(fault) => Err(fault),
            Ok(p) => loaded_all(p, files, allow_external, allow_overrides, host, i + 1),
        }
    }
}

/// Why a task of a pack cannot be resolved, if it cannot.
#[verifier::opaque]
pub open spec fn template_fault(p: PackView, id: Seq<char>) -> Option<LoadFault> {
    match resolved_task(p, id) {
        Err(fault) => Some(LoadFault::Unresolved { id, message: fault.message() }),
        Ok(_) => None,
    }
}

/// The first task from the `i`-th on that cannot be resolved.
pub open spec fn unresolved(p: PackView, i: nat) -> Option<LoadFault>
    decreases p.tasks.len() - i,
{
    if i >= p.tasks.len() {
        None
    } else {
        match template_fault(p, p.tasks[i as int].id) {
            Some(fault) => Some(fault),
            None => unresolved(p, i + 1),
        }
    }
}

/// The pack that a list of files makes: every template in it can be resolved.
pub open spec fn loaded_pack(
    files: Seq<FileView>,
    allow_external: bool,
    allow_overrides: bool,
    host: Platform,
) -> Result<PackView, LoadFault> {
    match loaded_all(no_pack(), files, allow_external, allow_overrides, host, 0) {
        Err(fault) => Err(fault),
        Ok(p) => match unresolved(p, 0) {
            Some(fault) => Err(fault),
            None => Ok(p),
        },
    }
}

fn check_trust(f: &TaskDocument, allow_external: bool) -> (res: Result<(), LoadError>)
    ensures
        match res {
            Ok(_) => trust_fault(f@, allow_external) is None,
            Err(e) => trust_fault(f@, allow_external) == Some(e@),
        },
{
    match (f.task.trust, f.trust) {
        (_, PackTrust::Bundled) => Ok(()),
        (TrustRequirement::BundledOnly, _) => Err(
            LoadError::NeedsBundled { task: f.task.id.clone(), file: f.file.clone() },
        ),
        (TrustRequirement::UserConfigAllowed, PackTrust::External) => Err(
            LoadError::NeedsUserConfig { task: f.task.id.clone(), file: f.file.clone() },
        ),
        (TrustRequirement::ExternalAllowed, PackTrust::External) => {
            if allow_external {
                Ok(())
            } else {
                Err(LoadError::Blocked { file: f.file.clone() })
            }
        },
        _ => Ok(()),
    }
}

/// Refuses a file for what is in it, given what the parse of its text came to.
pub fn check_file(
    f: &TaskDocument,
    parsed: &Result<Yaml, String>,
    allow_external: bool,
) -> (res: Result<(), LoadError>)
    ensures
        match res {
            Ok(_) => file_fault(f.parsed_to(parsed_view(*parsed)), allow_external) is None,
            Err(e) => file_fault(f.parsed_to(parsed_view(*parsed)), allow_external) == Some(e@),
        },
{
    if !is_yaml_file(&f.extension) {
        return Err(LoadError::NotYaml { file: f.file.clone() });
    }
    match check_document(parsed, &f.file) {
        Err(e) => {
            return Err(e);
        },
        Ok(_) => {},
    }
    match check_trust(f, allow_external) {
        Err(e) => {
            return Err(e);
        },
        Ok(_) => {},
    }
    match f.task.validate() {
        Err(message) => Err(LoadError::InvalidFile { file: f.file.clone(), message }),
        Ok(_) => Ok(()),
    }
}

fn store_legacy(map: &mut TextMap<Vec<Step>>, id: &str, steps: Vec<Step>)
    ensures
        legacy_views(final(map).entries@) == text_map::stored(
            legacy_views(old(map).entries@),
            id@,
            step_views(steps@),
        ),
{
    proof {
        let f = |x: Vec<Step>| step_views(x@);
        text_map::lemma_stored_mapped(map.pairs(), id@, steps, f);
        assert(text_map::mapped(map.pairs(), f) =~= legacy_views(map.entries@));
    }
    map.insert(owned(id), steps);
    proof {
        let f = |x: Vec<Step>| step_views(x@);
        assert(text_map::mapped(map.pairs(), f) =~= legacy_views(map.entries@));
    }
}

proof fn lemma_same_place<A, B>(a: Seq<(Seq<char>, A)>, b: Seq<(Seq<char>, B)>, key: Seq<char>)
    requires
        a.len() == b.len(),
        forall|i: int| 0 <= i < a.len() ==> (#[trigger] a[i]).0 == b[i].0,
    ensures
        text_map::index_of(a, key) == text_map::index_of(b, key),
    decreases a.len(),
{
    if a.len() > 0 {
        assert(a[0].0 == b[0].0);
        assert forall|i: int| 0 <= i < a.len() - 1 implies (#[trigger] a.skip(1)[i]).0 == b.skip(
            1,
        )[i].0 by {
            assert(a.skip(1)[i] == a[i + 1]);
            assert(b.skip(1)[i] == b[i + 1]);
        }
        lemma_same_place(a.skip(1), b.skip(1), key);
    }
}

impl TaskPack {
    pub fn new() -> (res: Self)
        ensures
            res@ == no_pack(),
            res.tasks@.len() == res.sources@.len(),
    {
        let res = TaskPack {
            tasks: Vec::new(),
            sources: Vec::new(),
            origins: TextMap::new(),
            unavailable: Vec::new(),
            legacy_steps: TextMap::new(),
        };
        proof {
            assert(res@.tasks =~= Seq::empty());
            assert(res@.sources =~= Seq::empty());
            assert(res@.origins =~= Seq::empty());
            assert(res@.unavailable =~= Seq::empty());
            assert(res@.legacy =~= Seq::empty());
        }
        res
    }

    fn remove_task(&mut self, i: usize)
        requires
            i < old(self).tasks@.len(),
            old(self).tasks@.len() == old(self).sources@.len(),
        ensures
            final(self)@ == without_task(old(self)@, i as int),
            final(self).tasks@.len() == final(self).sources@.len(),
    {
        let ghost before = self@;
        let ghost old_entries = self.legacy_steps.entries@;
        let id = self.tasks[i].id.clone();
        proof {
            assert(before.tasks[i as int] == self.tasks@[i as int]@);
            lemma_same_place(self.legacy_steps.pairs(), before.legacy, id@);
        }
        self.tasks.remove(i);
        self.sources.remove(i);
        self.legacy_steps.remove(&id);
        proof {
            assert(self@.tasks =~= before.tasks.remove(i as int));
            assert(self@.sources =~= before.sources.remove(i as int));
            assert(self@.legacy =~= text_map::removed(before.legacy, id@));
        }
    }

    fn push_task(&mut self, f: TaskDocument)
        requires
            old(self).tasks@.len() == old(self).sources@.len(),
        ensures
            final(self)@ == with_task(old(self)@, f@),
            final(self).tasks@.len() == final(self).sources@.len(),
    {
        let ghost before = self@;
        let ghost view = f@;
        self.origins.insert(f.task.id.clone(), f.trust);
        if f.legacy_steps.len() > 0 {
            store_legacy(&mut self.legacy_steps, &f.task.id, f.legacy_steps);
        }
        self.tasks.push(f.task);
        self.sources.push(TaskSource { path: f.file, trust: f.trust });
        proof {
            assert(self@.tasks =~= before.tasks.push(view.task));
            assert(self@.sources =~= before.sources.push((view.file, view.trust)));
        }
    }

    /// Adds a file that has been read.
    pub fn add(
        self,
        f: TaskDocument,
        allow_external: bool,
        allow_overrides: bool,
        host: Platform,
    ) -> (res: Result<TaskPack, LoadError>)
        requires
            self.tasks@.len() == self.sources@.len(),
        ensures
            match res {
                Ok(pack) => loaded(self@, f@, allow_external, allow_overrides, host) == Ok::<
                    PackView,
                    LoadFault,
                >(pack@) && pack.tasks@.len() == pack.sources@.len(),
                Err(e) => loaded(self@, f@, allow_external, allow_overrides, host) == Err::<
                    PackView,
                    LoadFault,
                >(e@),
            },
    {
        let parsed = parse_yaml(&f.text);
        self.add_parsed(f, &parsed, allow_external, allow_overrides, host)
    }

    /// Adds a file that has been read, given what the parse of its text came to.
    pub fn add_parsed(
        self,
        f: TaskDocument,
        parsed: &Result<Yaml, String>,
        allow_external: bool,
        allow_overrides: bool,
        host: Platform,
    ) -> (res: Result<TaskPack, LoadError>)
        requires
            self.tasks@.len() == self.sources@.len(),
        ensures
            ({
                let file = f.parsed_to(parsed_view(*parsed));
                match res {
                    Ok(pack) => loaded(self@, file, allow_external, allow_overrides, host) == Ok::<
                        PackView,
                        LoadFault,
                    >(pack@) && pack.tasks@.len() == pack.sources@.len(),
                    Err(e) => loaded(self@, file, allow_external, allow_overrides, host) == Err::<
                        PackView,
                        LoadFault,
                    >(e@),
                }
            }),
    {
        match check_file(&f, parsed, allow_external) {
            Err(e) => {
                return Err(e);
            },
            Ok(_) => {},
        }
        let mut pack = self;
        if !f.task.platform.matches_host(host) {
            let ghost before = pack@.unavailable;
            pack.unavailable.push((f.task.id.clone(), f.task.platform));
            assert(pack@.unavailable =~= before.push((f.task.id@, f.task.platform)));
            return Ok(pack);
        }
        match pack.first_position(&f.task.id) {
            None => {},
            Some(i) => {
                if !allow_overrides {
                    return Err(
                        LoadError::DuplicateTask { task: f.task.id.clone(), file: f.file.clone() },
                    );
                }
                pack.remove_task(i);
            },
        }
        pack.push_task(f);
        Ok(pack)
    }

    fn check_template(&self, id: &str) -> (res: Result<(), LoadError>)
        ensures
            match res {
                Ok(_) => template_fault(self@, id@) is None,
                Err(e) => template_fault(self@, id@) == Some(e@),
            },
    {
        reveal(template_fault);
        match self.resolve(id) {
            Ok(_) => Ok(()),
            Err(e) => Err(LoadError::Unresolved { id: owned(id), message: e.message() }),
        }
    }

    /// Resolves every template, so that broken references, cycles, trust
    /// downgrades, and expansion limits fail before a task can be run.
    pub fn check_templates(&self) -> (res: Result<(), LoadError>)
        ensures
            match res {
                Ok(_) => unresolved(self@, 0) is None,
                Err(e) => unresolved(self@, 0) == Some(e@),
            },
    {
        let ghost p = self@;
        let mut i: usize = 0;
        while i < self.tasks.len()
            invariant
                i <= self.tasks@.len(),
                p == self@,
                unresolved(p, 0) == unresolved(p, i as nat),
            decreases self.tasks@.len() - i,
        {
            assert(p.tasks[i as int] == self.tasks@[i as int]@);
            match self.check_template(&self.tasks[i].id) {
                Ok(_) => {},
                Err(e) => {
                    return Err(e);
                },
            }
            i = i + 1;
        }
        Ok(())
    }

    fn load_sources(
        files: Vec<TaskDocument>,
        allow_external: bool,
        allow_overrides: bool,
        host: Platform,
    ) -> (res: Result<TaskPack, LoadError>)
        ensures
            match res {
                Ok(pack) => loaded_pack(file_views(files@), allow_external, allow_overrides, host)
                    == Ok::<PackView, LoadFault>(pack@),
                Err(e) => loaded_pack(file_views(files@), allow_external, allow_overrides, host)
                    == Err::<PackView, LoadFault>(e@),
            },
    {
        let ghost views = file_views(files@);
        let ghost whole = loaded_all(
            no_pack(),
            views,
            allow_external,
            allow_overrides,
            host,
            0,
        );
        let mut pack = TaskPack::new();
        let mut i: usize = 0;
        while i < files.len()
            invariant
                i <= files@.len(),
                views == file_views(files@),
                pack.tasks@.len() == pack.sources@.len(),
                whole == loaded_all(
                    no_pack(),
                    views,
                    allow_external,
                    allow_overrides,
                    host,
                    0,
                ),
                whole == loaded_all(
                    pack@,
                    views,
                    allow_external,
                    allow_overrides,
                    host,
                    i as nat,
                ),
            decreases files@.len() - i,
        {
            assert(views[i as int] == files@[i as int]@);
            let file = files[i].clone();
            pack =
            match pack.add(file, allow_external, allow_overrides, host) {
                Err(e) => {
                    return Err(e);
                },
                Ok(pack) => pack,
            };
            i = i + 1;
        }
        match pack.check_templates() {
            Err(e) => Err(e),
            Ok(_) => Ok(pack),
        }
    }

    /// Puts files together in order. An identity can be used once.
    pub fn load_many(files: Vec<TaskDocument>, allow_external: bool, host: Platform) -> (res: Result<
        TaskPack,
        LoadError,
    >)
        ensures
            match res {
                Ok(pack) => loaded_pack(file_views(files@), allow_external, false, host) == Ok::<
                    PackView,
                    LoadFault,
                >(pack@),
                Err(e) => loaded_pack(file_views(files@), allow_external, false, host) == Err::<
                    PackView,
                    LoadFault,
                >(e@),
            },
    {
        TaskPack::load_sources(files, allow_external, false, host)
    }

    /// Puts files together in order, allowing a later file to replace a task with
    /// the same id. This is for an explicitly selected user file layered over the
    /// bundled library.
    pub fn load_many_with_overrides(
        files: Vec<TaskDocument>,
        allow_external: bool,
        host: Platform,
    ) -> (res: Result<TaskPack, LoadError>)
        ensures
            match res {
                Ok(pack) => loaded_pack(file_views(files@), allow_external, true, host) == Ok::<
                    PackView,
                    LoadFault,
                >(pack@),
                Err(e) => loaded_pack(file_views(files@), allow_external, true, host) == Err::<
                    PackView,
                    LoadFault,
                >(e@),
            },
    {
        TaskPack::load_sources(files, allow_external, true, host)
    }
}

impl Clone for TaskDocument {
    fn clone(&self) -> (res: Self)
        ensures
            res@ == self@,
    {
        TaskDocument {
            file: self.file.clone(),
            extension: clone_optional(&self.extension),
            trust: self.trust,
            text: self.text.clone(),
            task: self.task.clone(),
            legacy_steps: clone_steps(&self.legacy_steps),
        }
    }
}

// ---------------------------------------------------------------------------
// Laws
// ---------------------------------------------------------------------------
/// A pack that was loaded holds only tasks that can be resolved.
pub proof fn law_loaded_tasks_resolve(
    files: Seq<FileView>,
    allow_external: bool,
    allow_overrides: bool,
    host: Platform,
    i: int,
)
    ensures
        loaded_pack(files, allow_external, allow_overrides, host) matches Ok(p) ==> (0 <= i
            < p.tasks.len() ==> resolved_task(p, p.tasks[i].id) is Ok),
{
    if loaded_pack(files, allow_external, allow_overrides, host) is Ok {
        let p = loaded_pack(files, allow_external, allow_overrides, host)->Ok_0;
        if 0 <= i < p.tasks.len() {
            lemma_all_resolve(p, 0, i);
        }
    }
}

proof fn lemma_all_resolve(p: PackView, from: nat, i: int)
    requires
        unresolved(p, from) is None,
        from <= i < p.tasks.len(),
    ensures
        resolved_task(p, p.tasks[i].id) is Ok,
    decreases p.tasks.len() - from,
{
    reveal(template_fault);
    if from < i {
        lemma_all_resolve(p, from + 1, i);
    }
}

/// A scenario never brings in one that is trusted less than the task that
/// includes it.
pub proof fn law_no_trust_downgrade(
    p: PackView,
    index: int,
    way: Seq<int>,
    seen: Seq<Seq<char>>,
    scenario: Seq<char>,
)
    ensures
        inclusion_fault(p, index, way, seen, scenario) is None ==> {
            &&& text_map::lookup(p.origins, p.tasks[index].id) matches Some(parent)
            &&& text_map::lookup(p.origins, scenario) matches Some(child)
            &&& child.rank() >= parent.rank()
        },
{
}

/// An expansion never yields more steps than the limit, unless the task itself
/// brings them, and never two with one identity.
pub proof fn law_expansion_is_bounded(p: PackView, index: int, way: Seq<int>, seen: Seq<Seq<char>>)
    requires
        p.tasks[index].scenarios.len() > 0,
    ensures
        expanded(p, index, way, seen) matches Ok((steps, _)) ==> steps.len() <= MAX_EXPANDED_STEPS
            && repeated_step(steps, 0) is None,
{
    if expanded(p, index, way, seen) is Ok && way.len() < MAX_TEMPLATE_DEPTH && !(p.tasks[index].graph
        is Some && own_steps(p, index).len() == 0) {
        lemma_children_bounded(p, index, way.push(index), seen, 0, Seq::empty());
    }
    assert(repeated_step(Seq::empty(), 0) is None);
}

proof fn lemma_children_bounded(
    p: PackView,
    index: int,
    way: Seq<int>,
    seen: Seq<Seq<char>>,
    i: nat,
    done: Seq<StepView>,
)
    requires
        done.len() <= MAX_EXPANDED_STEPS,
    ensures
        expanded_children(p, index, way, seen, i, done) matches Ok((steps, _)) ==> steps.len()
            <= MAX_EXPANDED_STEPS,
    decreases p.tasks[index].scenarios.len() - i,
{
    let task = p.tasks[index];
    if i < task.scenarios.len() && expanded_children(p, index, way, seen, i, done) is Ok {
        let scenario = task.scenarios[i as int];
        let child = last_task(p.tasks, scenario, p.tasks.len())->0 as int;
        let met = if way.contains(child) {
            seen
        } else {
            seen.push(scenario)
        };
        let (steps, after) = expanded(p, child, way, met)->Ok_0;
        lemma_children_bounded(
            p,
            index,
            way,
            after,
            i + 1,
            done + steps.map_values(|s: StepView| moved(s, scenario)),
        );
    }
}

proof fn lemma_first_task(tasks: Seq<TaskView>, id: Seq<char>, i: nat)
    ensures
        first_task(tasks, id, i) matches Some(k) ==> i <= k < tasks.len() && tasks[k as int].id
            == id,
    decreases tasks.len() - i,
{
    if i < tasks.len() && tasks[i as int].id != id {
        lemma_first_task(tasks, id, i + 1);
    }
}

/// A resolved task keeps its identity and is executable by its graph alone: it
/// has no steps and no scenarios of its own left, and its graph, where it has
/// one, has the current version throughout.
pub proof fn law_resolved_is_graph_only(p: PackView, id: Seq<char>)
    ensures
        resolved_task(p, id) matches Ok(task) ==> {
            &&& task.id == id
            &&& task.steps.len() == 0
            &&& task.scenarios.len() == 0
            &&& task.graph matches Some(graph) ==> current(graph)
        },
{
    lemma_first_task(p.tasks, id, 0);
    match resolved_task(p, id) {
        Ok(task) => {
            let index = first_task(p.tasks, id, 0)->Some_0 as int;
            let (steps, _) = expanded(p, index, Seq::empty(), seq![id])->Ok_0;
            let own = p.tasks[index];
            let all = if steps.len() > 0 {
                steps
            } else {
                own.steps
            };
            if all.len() > 0 {
                law_imported_graph_is_valid(all);
                law_accepted_is_current(task.graph->Some_0);
            } else {
                match own.graph {
                    Some(graph) => law_upgrade(graph),
                    None => {},
                }
            }
        },
        Err(_) => {},
    }
}

/// Whether steps are those of a scenario of a pack: the expansion of a task of that name.
pub open spec fn expansion_of(
    p: PackView,
    scenario: Seq<char>,
    way: Seq<int>,
    steps: Seq<StepView>,
) -> bool {
    exists|child: int, met: Seq<Seq<char>>|
        0 <= child < p.tasks.len() && p.tasks[child].id == scenario && (#[trigger] expanded(
            p,
            child,
            way,
            met,
        ) matches Ok(found) && found.0 == steps)
}

/// Whether the parts are, one for each scenario from the `i`-th on and in the order of their
/// declaration, the steps of the scenario below its name.
pub open spec fn parts_of(
    p: PackView,
    scenarios: Seq<Seq<char>>,
    i: int,
    way: Seq<int>,
    parts: Seq<Seq<StepView>>,
) -> bool {
    &&& parts.len() == scenarios.len() - i
    &&& forall|k: int|
        0 <= k < parts.len() ==> part_of(p, scenarios[i + k], way, #[trigger] parts[k])
}

pub open spec fn part_of(
    p: PackView,
    scenario: Seq<char>,
    way: Seq<int>,
    part: Seq<StepView>,
) -> bool {
    exists|steps: Seq<StepView>| #[trigger]
        expansion_of(p, scenario, way, steps) && part.len() == steps.len() && forall|k: int|
            0 <= k < steps.len() ==> #[trigger] part[k] == moved(steps[k], scenario)
}

proof fn lemma_children_in_order(
    p: PackView,
    index: int,
    way: Seq<int>,
    seen: Seq<Seq<char>>,
    i: nat,
    done: Seq<StepView>,
)
    requires
        i <= p.tasks[index].scenarios.len(),
    ensures
        expanded_children(p, index, way, seen, i, done) matches Ok((steps, _)) ==> exists|
            parts: Seq<Seq<StepView>>,
        | #[trigger]
            parts_of(p, p.tasks[index].scenarios, i as int, way, parts) && steps == done
                + parts.flatten(),
    decreases p.tasks[index].scenarios.len() - i,
{
    let task = p.tasks[index];
    if expanded_children(p, index, way, seen, i, done) is Ok {
        let all = expanded_children(p, index, way, seen, i, done)->Ok_0.0;
        if i < task.scenarios.len() {
            let scenario = task.scenarios[i as int];
            let child = last_task(p.tasks, scenario, p.tasks.len())->0 as int;
            let met = if way.contains(child) {
                seen
            } else {
                seen.push(scenario)
            };
            let (steps, after) = expanded(p, child, way, met)->Ok_0;
            let part = steps.map_values(|s: StepView| moved(s, scenario));
            lemma_last_task(p.tasks, scenario, p.tasks.len());
            assert(expansion_of(p, scenario, way, steps));
            assert(part_of(p, scenario, way, part));
            lemma_children_in_order(p, index, way, after, i + 1, done + part);
            let rest = choose|parts: Seq<Seq<StepView>>| #[trigger]
                parts_of(p, task.scenarios, i as int + 1, way, parts) && all == done + part
                    + parts.flatten();
            let parts = seq![part] + rest;
            assert(parts.drop_first() =~= rest);
            assert(parts.first() == part);
            assert(done + part + rest.flatten() =~= done + parts.flatten());
            assert forall|k: int| 0 <= k < parts.len() implies part_of(
                p,
                task.scenarios[i + k],
                way,
                #[trigger] parts[k],
            ) by {
                if k > 0 {
                    assert(parts[k] == rest[k - 1]);
                    assert(task.scenarios[i + k] == task.scenarios[i + 1 + (k - 1)]);
                }
            }
            assert(parts_of(p, task.scenarios, i as int, way, parts));
        } else {
            let parts = Seq::<Seq<StepView>>::empty();
            assert(parts_of(p, task.scenarios, i as int, way, parts));
            assert(done + parts.flatten() =~= done);
        }
    }
}

proof fn lemma_last_task(tasks: Seq<TaskView>, id: Seq<char>, n: nat)
    requires
        n <= tasks.len(),
    ensures
        last_task(tasks, id, n) matches Some(k) ==> k < n && tasks[k as int].id == id,
    decreases n,
{
    if n > 0 && tasks[n - 1].id != id {
        lemma_last_task(tasks, id, (n - 1) as nat);
    }
}

/// The steps of a task with scenarios are those of the scenarios, in the order in which the
/// scenarios are declared, each below the name of its own: all of an earlier scenario stand
/// before all of a later one, and there are no others.
pub proof fn law_scenarios_expand_in_order(
    p: PackView,
    index: int,
    way: Seq<int>,
    seen: Seq<Seq<char>>,
)
    requires
        p.tasks[index].scenarios.len() > 0,
        !(p.tasks[index].graph is Some && own_steps(p, index).len() == 0),
    ensures
        expanded(p, index, way, seen) matches Ok((steps, _)) ==> exists|
            parts: Seq<Seq<StepView>>,
        | #[trigger]
            parts_of(p, p.tasks[index].scenarios, 0, way.push(index), parts) && steps
                == parts.flatten(),
{
    lemma_children_in_order(p, index, way.push(index), seen, 0, Seq::empty());
    if expanded(p, index, way, seen) is Ok {
        let steps = expanded(p, index, way, seen)->Ok_0.0;
        let parts = choose|parts: Seq<Seq<StepView>>| #[trigger]
            parts_of(p, p.tasks[index].scenarios, 0, way.push(index), parts) && steps == Seq::<
                StepView,
            >::empty() + parts.flatten();
        assert(Seq::<StepView>::empty() + parts.flatten() =~= parts.flatten());
    }
}

/// A task without scenarios expands to its own steps, as they are.
pub proof fn law_plain_task_expands_to_its_steps(
    p: PackView,
    index: int,
    way: Seq<int>,
    seen: Seq<Seq<char>>,
)
    requires
        p.tasks[index].scenarios.len() == 0,
    ensures
        expanded(p, index, way, seen) matches Ok((steps, after)) ==> after == seen && steps
            == match text_map::lookup(p.legacy, p.tasks[index].id) {
            Some(steps) => steps,
            None => p.tasks[index].steps,
        } || (p.tasks[index].graph is Some && steps.len() == 0),
{
}

/// A resolved task that has steps is the graph of these steps, and it records the scenarios
/// that it was made of; its name, description, platform and trust stay.
pub proof fn law_resolved_is_the_graph_of_the_steps(p: PackView, id: Seq<char>)
    ensures
        resolved_task(p, id) matches Ok(task) ==> exists|index: int, seen: Seq<Seq<char>>| {
            &&& 0 <= index < p.tasks.len()
            &&& p.tasks[index].id == id
            &&& task.name == p.tasks[index].name
            &&& task.description == p.tasks[index].description
            &&& task.platform == p.tasks[index].platform
            &&& task.trust == p.tasks[index].trust
            &&& task.resolved_scenarios == p.tasks[index].scenarios
            &&& #[trigger] expanded(p, index, Seq::empty(), seen) matches Ok((steps, _))
            &&& steps.len() > 0 ==> task.graph is Some && imported(steps) == Ok::<
                GraphView,
                crate::legacy::LinearFault,
            >(task.graph->0)
        },
{
    lemma_first_task(p.tasks, id, 0);
    if resolved_task(p, id) is Ok {
        let index = first_task(p.tasks, id, 0)->Some_0 as int;
        assert(expanded(p, index, Seq::empty(), seq![id]) is Ok);
    }
}

/// Where a task may come from: a bundled pack for every task, the user's configuration for
/// tasks that allow it, and an external pack for tasks that allow it, if external packs are
/// allowed at all.
pub open spec fn may_come_from(
    requirement: TrustRequirement,
    trust: PackTrust,
    allow_external: bool,
) -> bool {
    match trust {
        PackTrust::Bundled => true,
        PackTrust::UserConfig => requirement == TrustRequirement::UserConfigAllowed || requirement
            == TrustRequirement::ExternalAllowed,
        PackTrust::External => requirement == TrustRequirement::ExternalAllowed && allow_external,
    }
}

/// A file is let in if and only if it is named as YAML, its text parses without a forbidden
/// field, its task may come from where it comes from, and the task is valid.
pub proof fn law_files_let_in(f: FileView, allow_external: bool)
    ensures
        file_fault(f, allow_external) is None <==> {
            &&& f.extension == Some("yaml"@) || f.extension == Some("yml"@)
            &&& document_fault(f.document, f.file) is None
            &&& may_come_from(f.task.trust, f.trust, allow_external)
            &&& f.task.fault() is None
        },
{
}

/// A file that is let in adds its task behind those that are there, with where it comes from,
/// if the task is for this host and its identity is free; nothing else is touched.
pub proof fn law_load_adds_a_task(
    p: PackView,
    f: FileView,
    allow_external: bool,
    allow_overrides: bool,
    host: Platform,
)
    requires
        file_fault(f, allow_external) is None,
        f.task.platform == Platform::Any || f.task.platform == host,
        forall|i: int| 0 <= i < p.tasks.len() ==> (#[trigger] p.tasks[i]).id != f.task.id,
        text_map::ascending(p.origins),
    ensures
        loaded(p, f, allow_external, allow_overrides, host) matches Ok(q) && {
            &&& q.tasks == p.tasks.push(f.task)
            &&& q.sources == p.sources.push((f.file, f.trust))
            &&& q.unavailable == p.unavailable
            &&& text_map::lookup(q.origins, f.task.id) == Some(f.trust)
            &&& forall|other: Seq<char>|
                other != f.task.id ==> #[trigger] text_map::lookup(q.origins, other)
                    == text_map::lookup(p.origins, other)
        },
{
    lemma_first_task(p.tasks, f.task.id, 0);
    text_map::law_stored(p.origins, f.task.id, f.trust);
}

/// A task for another platform is remembered as unavailable and not added.
pub proof fn law_load_remembers_other_platforms(
    p: PackView,
    f: FileView,
    allow_external: bool,
    allow_overrides: bool,
    host: Platform,
)
    requires
        file_fault(f, allow_external) is None,
        f.task.platform != Platform::Any && f.task.platform != host,
    ensures
        loaded(p, f, allow_external, allow_overrides, host) matches Ok(q) && {
            &&& q.tasks == p.tasks
            &&& q.sources == p.sources
            &&& q.origins == p.origins
            &&& q.unavailable == p.unavailable.push((f.task.id, f.task.platform))
        },
{
}

pub proof fn lemma_first_task_is(tasks: Seq<TaskView>, id: Seq<char>, k: int, i: nat)
    requires
        i <= k < tasks.len(),
        tasks[k].id == id,
        forall|j: int| i <= j < k ==> (#[trigger] tasks[j]).id != id,
    ensures
        first_task(tasks, id, i) == Some(k as nat),
    decreases k - i,
{
    if i < k {
        lemma_first_task_is(tasks, id, k, i + 1);
    }
}

/// A task whose identity is taken is refused, or, where overrides are allowed, takes the place
/// of the other: that one leaves, the new one stands last, and the rest keep their order.
pub proof fn law_load_overrides(
    p: PackView,
    f: FileView,
    allow_external: bool,
    allow_overrides: bool,
    host: Platform,
    k: int,
)
    requires
        file_fault(f, allow_external) is None,
        f.task.platform == Platform::Any || f.task.platform == host,
        0 <= k < p.tasks.len(),
        p.tasks[k].id == f.task.id,
        forall|j: int| 0 <= j < k ==> (#[trigger] p.tasks[j]).id != f.task.id,
        text_map::ascending(p.origins),
    ensures
        !allow_overrides ==> (loaded(p, f, allow_external, allow_overrides, host) matches Err(e)
            && e is DuplicateTask),
        allow_overrides ==> (loaded(p, f, allow_external, allow_overrides, host) matches Ok(q) && {
            &&& q.tasks == p.tasks.remove(k).push(f.task)
            &&& q.sources == p.sources.remove(k).push((f.file, f.trust))
            &&& text_map::lookup(q.origins, f.task.id) == Some(f.trust)
        }),
{
    lemma_first_task_is(p.tasks, f.task.id, k, 0);
    text_map::law_stored(p.origins, f.task.id, f.trust);
}

/// Whether a file brings a task for a host.
pub open spec fn brings_task(host: Platform) -> spec_fn(FileView) -> bool {
    |f: FileView| f.task.platform == Platform::Any || f.task.platform == host
}

proof fn lemma_loaded_in_order(
    p: PackView,
    files: Seq<FileView>,
    allow_external: bool,
    host: Platform,
    i: nat,
)
    requires
        i <= files.len(),
    ensures
        loaded_all(p, files, allow_external, false, host, i) matches Ok(q) ==> q.tasks == p.tasks
            + files.skip(i as int).filter(brings_task(host)).map_values(|f: FileView| f.task),
    decreases files.len() - i,
{
    let rest = files.skip(i as int);
    let brings = brings_task(host);
    if i < files.len() {
        let f = files[i as int];
        if loaded(p, f, allow_external, false, host) is Ok {
            let q = loaded(p, f, allow_external, false, host)->Ok_0;
            lemma_loaded_in_order(q, files, allow_external, host, i + 1);
            let tail = files.skip(i as int + 1);
            assert(rest =~= seq![f] + tail);
            Seq::filter_distributes_over_add(seq![f], tail, brings);
            reveal(Seq::filter);
            assert(seq![f].drop_last() =~= Seq::<FileView>::empty());
            assert(Seq::<FileView>::empty().filter(brings) =~= Seq::<FileView>::empty());
            let own = seq![f].filter(brings);
            if brings(f) {
                assert(own =~= seq![f]);
            } else {
                assert(own =~= Seq::<FileView>::empty());
            }
            let to_task = |f: FileView| f.task;
            assert((own + tail.filter(brings)).map_values(to_task) =~= own.map_values(to_task)
                + tail.filter(brings).map_values(to_task));
            assert(p.tasks + rest.filter(brings).map_values(to_task) =~= q.tasks + tail.filter(
                brings,
            ).map_values(to_task));
        }
    } else {
        assert(rest =~= Seq::<FileView>::empty());
        reveal(Seq::filter);
        assert(rest.filter(brings) =~= Seq::<FileView>::empty());
        assert(p.tasks + Seq::<TaskView>::empty() =~= p.tasks);
    }
}

/// Without overrides a pack holds the tasks of its files that are for this host, in the order
/// of the files.
pub proof fn law_loaded_in_order(files: Seq<FileView>, allow_external: bool, host: Platform)
    ensures
        loaded_pack(files, allow_external, false, host) matches Ok(p) ==> p.tasks == files.filter(
            brings_task(host),
        ).map_values(|f: FileView| f.task),
{
    lemma_loaded_in_order(no_pack(), files, allow_external, host, 0);
    assert(files.skip(0) =~= files);
    if loaded_pack(files, allow_external, false, host) is Ok {
        let p = loaded_pack(files, allow_external, false, host)->Ok_0;
        assert(no_pack().tasks + files.filter(brings_task(host)).map_values(|f: FileView| f.task)
            =~= files.filter(brings_task(host)).map_values(|f: FileView| f.task));
    }
}

proof fn lemma_step_fault(steps: Seq<StepView>, i: nat)
    ensures
        step_fault(steps, i) is None <==> forall|k: int|
            i <= k < steps.len() ==> (#[trigger] steps[k]).policy_accepted(),
    decreases steps.len() - i,
{
    if i < steps.len() {
        lemma_step_fault(steps, i + 1);
        if steps[i as int].policy_accepted() && step_fault(steps, i + 1) is None {
            assert forall|k: int| i <= k < steps.len() implies (
            #[trigger] steps[k]).policy_accepted() by {
                if k > i {
                    assert(i + 1 <= k);
                }
            }
        }
    }
}

/// A task is valid if and only if it has a name that is not blank, its steps are under policies
/// that their blocks offer, and its graph, where it has one, is accepted.
pub proof fn law_task_validity(task: TaskView)
    ensures
        task.fault() is None <==> {
            &&& !text::blank(task.id)
            &&& forall|k: int|
                0 <= k < task.steps.len() ==> (#[trigger] task.steps[k]).policy_accepted()
            &&& task.graph matches Some(graph) ==> all_faults(graph).len() == 0
        },
{
    lemma_step_fault(task.steps, 0);
}

/// In its executable form a task is the graph of its steps, or its own graph in the current
/// version; with neither it stays as it is.
pub proof fn law_executable_form(task: TaskView)
    ensures
        task.in_v3() matches Ok(out) ==> {
            &&& out.id == task.id
            &&& out.scenarios == task.scenarios
            &&& out.steps.len() == 0
            &&& task.steps.len() > 0 ==> (out.graph matches Some(graph) && imported(task.steps)
                == Ok::<GraphView, crate::legacy::LinearFault>(graph))
            &&& task.steps.len() == 0 ==> (out.graph is Some <==> task.graph is Some)
            &&& task.steps.len() == 0 && task.graph is Some ==> upgraded(task.graph->0) == Ok::<
                GraphView,
                crate::graph::MigrationFault,
            >(out.graph->0)
        },
        task.steps.len() == 0 && task.graph is None ==> task.in_v3() is Ok,
        task.steps.len() > 0 ==> (task.in_v3() is Ok <==> imported(task.steps) is Ok),
{
}

/// A bundled pack is trusted most and an external one least. A task may include a scenario that
/// is there, whose pack is trusted at least as much as its own, and that was not met before on
/// another way.
pub proof fn law_inclusion(
    p: PackView,
    index: int,
    way: Seq<int>,
    seen: Seq<Seq<char>>,
    scenario: Seq<char>,
)
    ensures
        PackTrust::External.rank() < PackTrust::UserConfig.rank(),
        PackTrust::UserConfig.rank() < PackTrust::Bundled.rank(),
        inclusion_fault(p, index, way, seen, scenario) is None <==> {
            &&& last_task(p.tasks, scenario, p.tasks.len()) matches Some(child)
            &&& text_map::lookup(p.origins, p.tasks[index].id) matches Some(own)
            &&& text_map::lookup(p.origins, scenario) matches Some(its)
            &&& its == PackTrust::Bundled || own == PackTrust::External || its == own
            &&& way.contains(child as int) || !seen.contains(scenario)
        },
        last_task(p.tasks, scenario, p.tasks.len()) is None <==> forall|i: int|
            0 <= i < p.tasks.len() ==> (#[trigger] p.tasks[i]).id != scenario,
{
    lemma_last_task_none(p.tasks, scenario, p.tasks.len());
}

proof fn lemma_last_task_none(tasks: Seq<TaskView>, id: Seq<char>, n: nat)
    requires
        n <= tasks.len(),
    ensures
        last_task(tasks, id, n) is None <==> forall|i: int|
            0 <= i < n ==> (#[trigger] tasks[i]).id != id,
    decreases n,
{
    if n > 0 && tasks[n - 1].id != id {
        lemma_last_task_none(tasks, id, (n - 1) as nat);
        if last_task(tasks, id, n) is None {
            assert forall|i: int| 0 <= i < n implies (#[trigger] tasks[i]).id != id by {
                if i < n - 1 {
                    assert(0 <= i < (n - 1) as nat);
                }
            }
        }
    }
}

/// A scenario that includes itself, by whatever way, is refused, and so is one that is included
/// too deep.
pub proof fn law_cycles_are_refused(
    p: PackView,
    index: int,
    way: Seq<int>,
    seen: Seq<Seq<char>>,
)
    ensures
        way.contains(index) ==> expanded(p, index, way, seen) is Err,
        way.len() >= MAX_TEMPLATE_DEPTH ==> expanded(p, index, way, seen) is Err,
        p.tasks[index].fault() is Some ==> expanded(p, index, way, seen) is Err,
{
}

/// A scenario that can be included, and whose steps are few enough, has them put behind those
/// that are there, below its name, before the next scenario is looked at.
pub proof fn law_scenario_is_expanded(
    p: PackView,
    index: int,
    way: Seq<int>,
    seen: Seq<Seq<char>>,
    i: nat,
    done: Seq<StepView>,
    child: int,
    steps: Seq<StepView>,
    after: Seq<Seq<char>>,
)
    requires
        i < p.tasks[index].scenarios.len(),
        inclusion_fault(p, index, way, seen, p.tasks[index].scenarios[i as int]) is None,
        last_task(p.tasks, p.tasks[index].scenarios[i as int], p.tasks.len()) == Some(child as nat),
        0 <= child,
        !way.contains(child),
        expanded(p, child, way, seen.push(p.tasks[index].scenarios[i as int])) == Ok::<
            (Seq<StepView>, Seq<Seq<char>>),
            LoadFault,
        >((steps, after)),
        done.len() + steps.len() <= MAX_EXPANDED_STEPS,
    ensures
        exists|part: Seq<StepView>|
            part.len() == steps.len() && (forall|k: int|
                0 <= k < steps.len() ==> (#[trigger] part[k]).id
                    == p.tasks[index].scenarios[i as int] + "/"@ + steps[k].id)
                && expanded_children(p, index, way, seen, i, done) == #[trigger] expanded_children(
                p,
                index,
                way,
                after,
                i + 1,
                done + part,
            ),
{
    let scenario = p.tasks[index].scenarios[i as int];
    let part = steps.map_values(|s: StepView| moved(s, scenario));
    assert(expanded_children(p, index, way, seen, i, done) == expanded_children(
        p,
        index,
        way,
        after,
        i + 1,
        done + part,
    ));
}

} // verus!
