//! Versioned workflow graphs.
//!
//! The graph is independent from canvas layout. Control-flow nodes own nested
//! graphs, so branch and loop scopes are explicit on the wire and cannot be
//! inferred from editor coordinates.
use vstd::prelude::*;

use crate::binding::binding_views;
use crate::context::{Binding, BindingView};
use crate::expr::{clone_texts, saturated, ExprView, RuleExprV1};
use crate::graph_error::EdgePort;
use crate::json::{clone_values, value_views, Value, ValueView};
use crate::schema::{clone_optional, optional_text};
use crate::task::{clone_bindings, Step, StepView};
use crate::text;
use crate::text::{count_text, decimal_text, joined, owned, text_views};
use crate::text_map::TextMap;
use crate::upgrade::{in_current_form, law_upgrade_changes_versions_only, upgradable};

verus! {

/// Current serialized workflow graph version.
pub const WORKFLOW_GRAPH_VERSION: u32 = 3;

/// Oldest explicit graph wire format that can be migrated without guessing.
pub const MIN_MIGRATABLE_WORKFLOW_GRAPH_VERSION: u32 = 2;

// Validation runs before execution and may receive untrusted task packs. Keep
// recursive work and the quadratic graph algorithms behind a cheap, iterative
// preflight. The total limits permit sizeable composed workflows; the
// local-node cap specifically bounds the search for dominators.
pub const GRAPH_MAX_DEPTH: usize = 32;

pub const GRAPH_MAX_TOTAL_NODES: usize = 4_096;

pub const GRAPH_MAX_LOCAL_NODES: usize = 512;

pub const GRAPH_MAX_TOTAL_EDGES: usize = 8_192;

pub const GRAPH_MAX_ERRORS: usize = 256;

pub const GRAPH_MAX_VALUE_DEPTH: usize = 32;

pub const GRAPH_MAX_VALUE_NODES: usize = 4_096;

pub const GRAPH_MAX_TOTAL_VALUE_NODES: usize = 16_384;

pub const GRAPH_MAX_TOTAL_EXPRESSION_NODES: usize = 16_384;

pub const GRAPH_MAX_TOTAL_TEMPLATE_PARTS: usize = 16_384;

pub const GRAPH_MAX_TOTAL_CONDITION_NODES: usize = 4_096;

pub const GRAPH_MAX_TOTAL_GRAPHS: usize = 4_096;

pub const GRAPH_MAX_TOTAL_ENDPOINTS: usize = 16_384;

pub const GRAPH_MAX_TOTAL_BINDINGS: usize = 16_384;

pub const GRAPH_MAX_TOTAL_SWITCH_CASES: usize = 4_096;

pub const GRAPH_MAX_TOTAL_SWITCH_VALUES: usize = 16_384;

pub const GRAPH_MAX_EXIT_CODES_PER_LIST: usize = 256;

pub const GRAPH_MAX_TOTAL_EXIT_CODES: usize = 4_096;

pub const GRAPH_MAX_LITERAL_STRING_BYTES: usize = 1024 * 1024;

pub const GRAPH_MAX_SERIALIZED_COMPONENT_BYTES: usize = 2 * 1024 * 1024;

pub const GRAPH_MAX_TOTAL_PAYLOAD_BYTES: usize = 16 * 1024 * 1024;

// ---------------------------------------------------------------------------
// Types
// ---------------------------------------------------------------------------
/// An executable, layout-free workflow graph.
///
/// Node IDs are globally unique across this graph and every nested graph. Each
/// nested graph has its own entries and edges; values from a nested graph do
/// not leak into a sibling branch. The owning control node is the stable output
/// boundary for downstream consumers.
#[derive(Debug, PartialEq)]
pub struct WorkflowGraph {
    pub version: u32,
    pub id: Option<String>,
    pub entries: Vec<String>,
    pub exits: Vec<GraphExit>,
    pub nodes: Vec<GraphNode>,
    pub edges: Vec<GraphEdge>,
}

/// One executable or control-flow node.
#[derive(Debug, PartialEq)]
pub enum GraphNode {
    Action(Box<ActionNode>),
    ForEach(ForEachNode),
    If(IfNode),
    Switch(SwitchNode),
    Join(JoinNode),
}

/// Atomic action plus typed bindings for its declared input fields.
#[derive(Debug, PartialEq)]
pub struct ActionNode {
    pub step: Step,
    pub bindings: TextMap<Binding>,
}

#[derive(Debug, Clone, Copy, PartialEq, Eq, Structural)]
pub enum LoopFailurePolicy {
    Stop,
    Continue,
}

/// Iterate a collection in an explicit lexical scope.
#[derive(Debug, PartialEq)]
pub struct ForEachNode {
    pub id: String,
    pub collection: Binding,
    pub item_alias: String,
    pub index_alias: Option<String>,
    pub concurrency: u16,
    pub on_error: LoopFailurePolicy,
    pub body: Box<WorkflowGraph>,
}

/// Select exactly one of two nested branches.
#[derive(Debug, PartialEq)]
pub struct IfNode {
    pub id: String,
    pub condition: RuleExprV1,
    pub then_graph: Box<WorkflowGraph>,
    pub else_graph: Option<Box<WorkflowGraph>>,
}

/// Match one selector against ordered literal cases.
#[derive(Debug, PartialEq)]
pub struct SwitchNode {
    pub id: String,
    pub selector: Binding,
    pub cases: Vec<SwitchCase>,
    pub default: Option<Box<WorkflowGraph>>,
}

#[derive(Debug, PartialEq)]
pub struct SwitchCase {
    pub id: String,
    pub values: Vec<Value>,
    pub graph: Box<WorkflowGraph>,
}

#[derive(Debug, Clone, Copy, PartialEq, Eq, Structural)]
pub enum JoinMode {
    /// Wait for every incoming path.
    All,
    /// Continue after any incoming path completes.
    Any,
    /// Continue after the first successful incoming path.
    FirstSuccessful,
}

/// Merge two or more paths in the current lexical graph.
#[derive(Debug, PartialEq)]
pub struct JoinNode {
    pub id: String,
    pub mode: JoinMode,
}

#[derive(Debug, PartialEq, Eq)]
pub struct EdgeEndpoint {
    pub node: String,
    pub port: EdgePort,
}

#[derive(Debug, PartialEq, Eq)]
pub struct GraphEdge {
    pub from: EdgeEndpoint,
    pub to: EdgeEndpoint,
}

/// Named result of a nested or root graph.
#[derive(Debug, PartialEq, Eq)]
pub struct GraphExit {
    pub name: String,
    pub from: EdgeEndpoint,
}

// ---------------------------------------------------------------------------
// Views
// ---------------------------------------------------------------------------
pub struct EndpointView {
    pub node: Seq<char>,
    pub port: EdgePort,
}

pub struct EdgeView {
    pub from: EndpointView,
    pub to: EndpointView,
}

pub struct ExitView {
    pub name: Seq<char>,
    pub from: EndpointView,
}

pub struct ActionNodeView {
    pub step: StepView,
    pub bindings: Seq<(Seq<char>, BindingView)>,
}

pub struct ForEachView {
    pub id: Seq<char>,
    pub collection: BindingView,
    pub item_alias: Seq<char>,
    pub index_alias: Option<Seq<char>>,
    pub concurrency: u16,
    pub on_error: LoopFailurePolicy,
    pub body: Box<GraphView>,
}

pub struct IfView {
    pub id: Seq<char>,
    pub condition: ExprView,
    pub then_graph: Box<GraphView>,
    pub else_graph: Option<Box<GraphView>>,
}

pub struct SwitchView {
    pub id: Seq<char>,
    pub selector: BindingView,
    pub cases: Seq<CaseView>,
    pub default: Option<Box<GraphView>>,
}

pub struct CaseView {
    pub id: Seq<char>,
    pub values: Seq<ValueView>,
    pub graph: Box<GraphView>,
}

pub struct JoinView {
    pub id: Seq<char>,
    pub mode: JoinMode,
}

pub enum NodeView {
    Action(ActionNodeView),
    ForEach(ForEachView),
    If(IfView),
    Switch(SwitchView),
    Join(JoinView),
}

pub struct GraphView {
    pub version: u32,
    pub id: Option<Seq<char>>,
    pub entries: Seq<Seq<char>>,
    pub exits: Seq<ExitView>,
    pub nodes: Seq<NodeView>,
    pub edges: Seq<EdgeView>,
}

impl EdgeEndpoint {
    pub open spec fn view(&self) -> EndpointView {
        EndpointView { node: self.node@, port: self.port }
    }

    pub fn input(node: &str) -> (res: Self)
        ensures
            res@ == (EndpointView { node: node@, port: EdgePort::Input }),
    {
        EdgeEndpoint { node: owned(node), port: EdgePort::Input }
    }

    pub fn output(node: &str, port: EdgePort) -> (res: Self)
        ensures
            res@ == (EndpointView { node: node@, port }),
    {
        EdgeEndpoint { node: owned(node), port }
    }
}

impl GraphEdge {
    pub open spec fn view(&self) -> EdgeView {
        EdgeView { from: self.from@, to: self.to@ }
    }

    /// An edge from a port of one node to the input of another.
    pub fn new(from: &str, port: EdgePort, to: &str) -> (res: Self)
        ensures
            res@ == EdgeView::new(from@, port, to@),
    {
        GraphEdge { from: EdgeEndpoint::output(from, port), to: EdgeEndpoint::input(to) }
    }
}

impl EdgeView {
    pub open spec fn new(from: Seq<char>, port: EdgePort, to: Seq<char>) -> EdgeView {
        EdgeView {
            from: EndpointView { node: from, port },
            to: EndpointView { node: to, port: EdgePort::Input },
        }
    }
}

impl GraphExit {
    pub open spec fn view(&self) -> ExitView {
        ExitView { name: self.name@, from: self.from@ }
    }
}

impl ActionNode {
    pub open spec fn view(&self) -> ActionNodeView {
        ActionNodeView { step: self.step@, bindings: binding_views(self.bindings.entries@) }
    }
}

impl JoinNode {
    pub open spec fn view(&self) -> JoinView {
        JoinView { id: self.id@, mode: self.mode }
    }
}

pub open spec fn edge_views(list: Seq<GraphEdge>) -> Seq<EdgeView> {
    list.map_values(|x: GraphEdge| x.view())
}

pub open spec fn exit_views(list: Seq<GraphExit>) -> Seq<ExitView> {
    list.map_values(|x: GraphExit| x.view())
}

impl ForEachNode {
    pub open spec fn view(&self) -> ForEachView
        decreases self,
    {
        ForEachView {
            id: self.id@,
            collection: self.collection@,
            item_alias: self.item_alias@,
            index_alias: optional_text(self.index_alias),
            concurrency: self.concurrency,
            on_error: self.on_error,
            body: Box::new(self.body.view()),
        }
    }
}

impl IfNode {
    pub open spec fn view(&self) -> IfView
        decreases self,
    {
        IfView {
            id: self.id@,
            condition: self.condition@,
            then_graph: Box::new(self.then_graph.view()),
            else_graph: match self.else_graph {
                Some(graph) => Some(Box::new(graph.view())),
                None => None,
            },
        }
    }
}

impl SwitchCase {
    pub open spec fn view(&self) -> CaseView
        decreases self,
    {
        CaseView {
            id: self.id@,
            values: value_views(self.values@),
            graph: Box::new(self.graph.view()),
        }
    }
}

pub open spec fn case_views(list: Seq<SwitchCase>) -> Seq<CaseView>
    decreases list,
{
    Seq::new(
        list.len(),
        |i: int|
            if 0 <= i < list.len() {
                list[i].view()
            } else {
                arbitrary()
            },
    )
}

impl SwitchNode {
    pub open spec fn view(&self) -> SwitchView
        decreases self,
    {
        SwitchView {
            id: self.id@,
            selector: self.selector@,
            cases: case_views(self.cases@),
            default: match self.default {
                Some(graph) => Some(Box::new(graph.view())),
                None => None,
            },
        }
    }
}

impl GraphNode {
    pub open spec fn view(&self) -> NodeView
        decreases self,
    {
        match self {
            GraphNode::Action(node) => NodeView::Action(node.view()),
            GraphNode::ForEach(node) => NodeView::ForEach(node.view()),
            GraphNode::If(node) => NodeView::If(node.view()),
            GraphNode::Switch(node) => NodeView::Switch(node.view()),
            GraphNode::Join(node) => NodeView::Join(node.view()),
        }
    }
}

pub open spec fn node_views(list: Seq<GraphNode>) -> Seq<NodeView>
    decreases list,
{
    Seq::new(
        list.len(),
        |i: int|
            if 0 <= i < list.len() {
                list[i].view()
            } else {
                arbitrary()
            },
    )
}

impl WorkflowGraph {
    pub open spec fn view(&self) -> GraphView
        decreases self,
    {
        GraphView {
            version: self.version,
            id: optional_text(self.id),
            entries: text_views(self.entries@),
            exits: exit_views(self.exits@),
            nodes: node_views(self.nodes@),
            edges: edge_views(self.edges@),
        }
    }
}

pub open spec fn optional_graph(graph: Option<Box<WorkflowGraph>>) -> Option<Box<GraphView>> {
    match graph {
        Some(graph) => Some(Box::new(graph.view())),
        None => None,
    }
}

impl NodeView {
    pub open spec fn id(self) -> Seq<char> {
        match self {
            NodeView::Action(node) => node.step.id,
            NodeView::ForEach(node) => node.id,
            NodeView::If(node) => node.id,
            NodeView::Switch(node) => node.id,
            NodeView::Join(node) => node.id,
        }
    }

    pub open spec fn kind_name(self) -> Seq<char> {
        match self {
            NodeView::Action(_) => "action"@,
            NodeView::ForEach(_) => "for-each"@,
            NodeView::If(_) => "if"@,
            NodeView::Switch(_) => "switch"@,
            NodeView::Join(_) => "join"@,
        }
    }

    /// The ports that a node can be left through.
    pub open spec fn emits(self, port: EdgePort) -> bool {
        match self {
            NodeView::Action(_) => port == EdgePort::Success || port == EdgePort::Failure || port
                == EdgePort::Always,
            NodeView::ForEach(_) => port == EdgePort::Completed || port == EdgePort::Empty || port
                == EdgePort::Failure,
            _ => port == EdgePort::Completed || port == EdgePort::Failure,
        }
    }
}

impl GraphNode {
    pub fn id(&self) -> (res: &str)
        ensures
            res@ == self@.id(),
    {
        match self {
            GraphNode::Action(node) => node.step.id.as_str(),
            GraphNode::ForEach(node) => node.id.as_str(),
            GraphNode::If(node) => node.id.as_str(),
            GraphNode::Switch(node) => node.id.as_str(),
            GraphNode::Join(node) => node.id.as_str(),
        }
    }

    pub fn kind_name(&self) -> (res: &'static str)
        ensures
            res@ == self@.kind_name(),
    {
        match self {
            GraphNode::Action(_) => "action",
            GraphNode::ForEach(_) => "for-each",
            GraphNode::If(_) => "if",
            GraphNode::Switch(_) => "switch",
            GraphNode::Join(_) => "join",
        }
    }

    pub fn accepts_output_port(&self, port: EdgePort) -> (res: bool)
        ensures
            res == self@.emits(port),
    {
        match self {
            GraphNode::Action(_) => matches!(
                port,
                EdgePort::Success | EdgePort::Failure | EdgePort::Always
            ),
            GraphNode::ForEach(_) => matches!(
                port,
                EdgePort::Completed | EdgePort::Empty | EdgePort::Failure
            ),
            GraphNode::If(_) | GraphNode::Switch(_) | GraphNode::Join(_) => matches!(
                port,
                EdgePort::Completed | EdgePort::Failure
            ),
        }
    }
}

// ---------------------------------------------------------------------------
// Copies and defaults
// ---------------------------------------------------------------------------
impl Default for LoopFailurePolicy {
    fn default() -> (res: Self)
        ensures
            res == LoopFailurePolicy::Stop,
    {
        LoopFailurePolicy::Stop
    }
}

impl Default for JoinMode {
    fn default() -> (res: Self)
        ensures
            res == JoinMode::All,
    {
        JoinMode::All
    }
}

/// A graph of the current version with nothing in it.
pub open spec fn empty_graph() -> GraphView {
    GraphView {
        version: WORKFLOW_GRAPH_VERSION,
        id: None,
        entries: Seq::empty(),
        exits: Seq::empty(),
        nodes: Seq::empty(),
        edges: Seq::empty(),
    }
}

impl Default for WorkflowGraph {
    fn default() -> (res: Self)
        ensures
            res@ == empty_graph(),
            res.entries@.len() == 0,
            res.exits@.len() == 0,
            res.nodes@.len() == 0,
            res.edges@.len() == 0,
    {
        let res = WorkflowGraph {
            version: WORKFLOW_GRAPH_VERSION,
            id: None,
            entries: Vec::new(),
            exits: Vec::new(),
            nodes: Vec::new(),
            edges: Vec::new(),
        };
        assert(text_views(res.entries@) =~= Seq::empty());
        assert(exit_views(res.exits@) =~= Seq::empty());
        assert(node_views(res.nodes@) =~= Seq::empty());
        assert(edge_views(res.edges@) =~= Seq::empty());
        res
    }
}

impl Clone for EdgeEndpoint {
    fn clone(&self) -> (res: Self)
        ensures
            res@ == self@,
    {
        EdgeEndpoint { node: self.node.clone(), port: self.port }
    }
}

impl Clone for GraphEdge {
    fn clone(&self) -> (res: Self)
        ensures
            res@ == self@,
    {
        GraphEdge { from: self.from.clone(), to: self.to.clone() }
    }
}

impl Clone for GraphExit {
    fn clone(&self) -> (res: Self)
        ensures
            res@ == self@,
    {
        GraphExit { name: self.name.clone(), from: self.from.clone() }
    }
}

impl Clone for ActionNode {
    fn clone(&self) -> (res: Self)
        ensures
            res@ == self@,
    {
        ActionNode { step: self.step.clone(), bindings: clone_bindings(&self.bindings) }
    }
}

fn clone_edges(list: &Vec<GraphEdge>) -> (res: Vec<GraphEdge>)
    ensures
        edge_views(res@) == edge_views(list@),
{
    let mut res: Vec<GraphEdge> = Vec::new();
    let mut i: usize = 0;
    while i < list.len()
        invariant
            i <= list@.len(),
            res@.len() == i,
            forall|j: int| 0 <= j < i ==> (#[trigger] res@[j])@ == list@[j]@,
        decreases list@.len() - i,
    {
        res.push(list[i].clone());
        i = i + 1;
    }
    assert(edge_views(res@) =~= edge_views(list@));
    res
}

fn clone_exits(list: &Vec<GraphExit>) -> (res: Vec<GraphExit>)
    ensures
        exit_views(res@) == exit_views(list@),
{
    let mut res: Vec<GraphExit> = Vec::new();
    let mut i: usize = 0;
    while i < list.len()
        invariant
            i <= list@.len(),
            res@.len() == i,
            forall|j: int| 0 <= j < i ==> (#[trigger] res@[j])@ == list@[j]@,
        decreases list@.len() - i,
    {
        res.push(list[i].clone());
        i = i + 1;
    }
    assert(exit_views(res@) =~= exit_views(list@));
    res
}

impl Clone for WorkflowGraph {
    fn clone(&self) -> (res: Self)
        ensures
            res@ == self@,
        decreases self, 1int,
    {
        WorkflowGraph {
            version: self.version,
            id: clone_optional(&self.id),
            entries: clone_texts(&self.entries),
            exits: clone_exits(&self.exits),
            nodes: copy_nodes(&self.nodes),
            edges: clone_edges(&self.edges),
        }
    }
}

fn copy_nodes(nodes: &Vec<GraphNode>) -> (res: Vec<GraphNode>)
    ensures
        node_views(res@) == node_views(nodes@),
    decreases nodes, 0int,
{
    let mut res: Vec<GraphNode> = Vec::new();
    let mut i: usize = 0;
    while i < nodes.len()
        invariant
            i <= nodes@.len(),
            res@.len() == i,
            forall|j: int| 0 <= j < i ==> (#[trigger] res@[j])@ == nodes@[j]@,
        decreases nodes@.len() - i,
    {
        assert(decreases_to!(nodes@ => nodes@[i as int]));
        let node: GraphNode = nodes[i].clone();
        res.push(node);
        i = i + 1;
    }
    assert(node_views(res@) =~= node_views(nodes@));
    res
}

fn copy_option(graph: &Option<Box<WorkflowGraph>>) -> (res: Option<Box<WorkflowGraph>>)
    ensures
        optional_graph(res) == optional_graph(*graph),
    decreases graph, 1int,
{
    match graph {
        None => None,
        Some(graph) => {
            let copy: WorkflowGraph = (**graph).clone();
            Some(Box::new(copy))
        },
    }
}

fn copy_cases(cases: &Vec<SwitchCase>) -> (res: Vec<SwitchCase>)
    ensures
        case_views(res@) == case_views(cases@),
    decreases cases, 0int,
{
    let mut res: Vec<SwitchCase> = Vec::new();
    let mut i: usize = 0;
    while i < cases.len()
        invariant
            i <= cases@.len(),
            res@.len() == i,
            forall|j: int| 0 <= j < i ==> (#[trigger] res@[j])@ == cases@[j]@,
        decreases cases@.len() - i,
    {
        assert(decreases_to!(cases@ => cases@[i as int]));
        let case = &cases[i];
        let graph: WorkflowGraph = (*case.graph).clone();
        res.push(
            SwitchCase {
                id: case.id.clone(),
                values: clone_values(&case.values),
                graph: Box::new(graph),
            },
        );
        i = i + 1;
    }
    assert(case_views(res@) =~= case_views(cases@));
    res
}

impl Clone for GraphNode {
    fn clone(&self) -> (res: Self)
        ensures
            res@ == self@,
        decreases self, 1int,
    {
        match self {
            GraphNode::Action(action) => {
                let copy: ActionNode = (**action).clone();
                GraphNode::Action(Box::new(copy))
            },
            GraphNode::Join(join) => GraphNode::Join(
                JoinNode { id: join.id.clone(), mode: join.mode },
            ),
            GraphNode::ForEach(control) => {
                let body: WorkflowGraph = (*control.body).clone();
                GraphNode::ForEach(
                    ForEachNode {
                        id: control.id.clone(),
                        collection: control.collection.clone(),
                        item_alias: control.item_alias.clone(),
                        index_alias: clone_optional(&control.index_alias),
                        concurrency: control.concurrency,
                        on_error: control.on_error,
                        body: Box::new(body),
                    },
                )
            },
            GraphNode::If(control) => {
                let then_graph: WorkflowGraph = (*control.then_graph).clone();
                GraphNode::If(
                    IfNode {
                        id: control.id.clone(),
                        condition: control.condition.clone(),
                        then_graph: Box::new(then_graph),
                        else_graph: copy_option(&control.else_graph),
                    },
                )
            },
            GraphNode::Switch(control) => GraphNode::Switch(
                SwitchNode {
                    id: control.id.clone(),
                    selector: control.selector.clone(),
                    cases: copy_cases(&control.cases),
                    default: copy_option(&control.default),
                },
            ),
        }
    }
}

// ---------------------------------------------------------------------------
// Migration
// ---------------------------------------------------------------------------
#[derive(Debug, PartialEq, Eq)]
pub enum WorkflowGraphMigrationError {
    UnsupportedVersion { path: String, found: u32, minimum: u32, current: u32 },
    ResourceLimitExceeded { path: String, resource: String, limit: usize },
}

pub enum MigrationFault {
    UnsupportedVersion { path: Seq<char>, found: u32, minimum: u32, current: u32 },
    ResourceLimitExceeded { path: Seq<char>, resource: Seq<char>, limit: usize },
}

impl WorkflowGraphMigrationError {
    pub open spec fn view(&self) -> MigrationFault {
        match self {
            WorkflowGraphMigrationError::UnsupportedVersion { path, found, minimum, current } =>
                MigrationFault::UnsupportedVersion {
                path: path@,
                found: *found,
                minimum: *minimum,
                current: *current,
            },
            WorkflowGraphMigrationError::ResourceLimitExceeded { path, resource, limit } =>
                MigrationFault::ResourceLimitExceeded {
                path: path@,
                resource: resource@,
                limit: *limit,
            },
        }
    }

    /// The message that a reader is shown.
    pub fn message(&self) -> (res: String)
        ensures
            res@ == self@.message(),
    {
        match self {
            WorkflowGraphMigrationError::UnsupportedVersion { path, found, minimum, current } => {
                let mut out = joined(path, " uses unsupported workflow graph version ");
                out.append(&decimal_text(*found as u64));
                out.append("; migratable versions are ");
                out.append(&decimal_text(*minimum as u64));
                out.append("..=");
                out.append(&decimal_text(*current as u64));
                out
            },
            WorkflowGraphMigrationError::ResourceLimitExceeded { path, resource, limit } => {
                let mut out = joined(path, " exceeds workflow graph migration ");
                out.append(resource);
                out.append(" limit ");
                out.append(&count_text(*limit));
                out
            },
        }
    }
}

impl MigrationFault {
    pub open spec fn message(self) -> Seq<char> {
        match self {
            MigrationFault::UnsupportedVersion { path, found, minimum, current } => path
                + " uses unsupported workflow graph version "@ + text::decimal(found as nat)
                + "; migratable versions are "@ + text::decimal(minimum as nat) + "..="@
                + text::decimal(current as nat),
            MigrationFault::ResourceLimitExceeded { path, resource, limit } => path
                + " exceeds workflow graph migration "@ + resource + " limit "@ + text::decimal(
                limit as nat,
            ),
        }
    }
}

pub open spec fn node_place(path: Seq<char>, i: nat) -> Seq<char> {
    path + ".nodes["@ + text::decimal(i) + "]"@
}

pub open spec fn case_place(path: Seq<char>, i: nat) -> Seq<char> {
    path + ".cases["@ + text::decimal(i) + "]"@
}

/// A graph brought to the current version, with every graph nested in it, and
/// the number of graphs met so far; or the first reason against it.
pub open spec fn migrated(graph: GraphView, path: Seq<char>, depth: nat, count: nat) -> Result<
    (GraphView, nat),
    MigrationFault,
>
    decreases graph, 1int,
{
    let counted = saturated(count + 1);
    if depth > GRAPH_MAX_DEPTH {
        Err(
            MigrationFault::ResourceLimitExceeded {
                path,
                resource: "nesting depth"@,
                limit: GRAPH_MAX_DEPTH,
            },
        )
    } else if counted > GRAPH_MAX_TOTAL_GRAPHS {
        Err(
            MigrationFault::ResourceLimitExceeded {
                path,
                resource: "nested graph count"@,
                limit: GRAPH_MAX_TOTAL_GRAPHS,
            },
        )
    } else if !(MIN_MIGRATABLE_WORKFLOW_GRAPH_VERSION <= graph.version
        <= WORKFLOW_GRAPH_VERSION) {
        Err(
            MigrationFault::UnsupportedVersion {
                path,
                found: graph.version,
                minimum: MIN_MIGRATABLE_WORKFLOW_GRAPH_VERSION,
                current: WORKFLOW_GRAPH_VERSION,
            },
        )
    } else {
        match migrated_nodes(graph.nodes, path, depth, counted, 0, Seq::empty()) {
            Err(fault) => Err(fault),
            Ok((nodes, count)) => Ok(
                (GraphView { version: WORKFLOW_GRAPH_VERSION, nodes, ..graph }, count),
            ),
        }
    }
}

/// The nodes of a graph from the `i`-th on, behind those already brought up.
pub open spec fn migrated_nodes(
    nodes: Seq<NodeView>,
    path: Seq<char>,
    depth: nat,
    count: nat,
    i: nat,
    done: Seq<NodeView>,
) -> Result<(Seq<NodeView>, nat), MigrationFault>
    decreases nodes, nodes.len() - i,
{
    if i >= nodes.len() {
        Ok((done, count))
    } else {
        match migrated_node(nodes[i as int], node_place(path, i), depth, count) {
            Err(fault) => Err(fault),
            Ok((node, count)) => migrated_nodes(nodes, path, depth, count, i + 1, done.push(node)),
        }
    }
}

pub open spec fn migrated_node(node: NodeView, place: Seq<char>, depth: nat, count: nat) -> Result<
    (NodeView, nat),
    MigrationFault,
>
    decreases node, 1int,
{
    match node {
        NodeView::ForEach(control) => match migrated(
            *control.body,
            place + ".body"@,
            depth + 1,
            count,
        ) {
            Err(fault) => Err(fault),
            Ok((body, count)) => Ok(
                (NodeView::ForEach(ForEachView { body: Box::new(body), ..control }), count),
            ),
        },
        NodeView::If(control) => match migrated(
            *control.then_graph,
            place + ".then"@,
            depth + 1,
            count,
        ) {
            Err(fault) => Err(fault),
            Ok((then_graph, count)) => match migrated_option(
                control.else_graph,
                place + ".else"@,
                depth + 1,
                count,
            ) {
                Err(fault) => Err(fault),
                Ok((else_graph, count)) => Ok(
                    (
                        NodeView::If(
                            IfView { then_graph: Box::new(then_graph), else_graph, ..control },
                        ),
                        count,
                    ),
                ),
            },
        },
        NodeView::Switch(control) => match migrated_cases(
            control.cases,
            place,
            depth + 1,
            count,
            0,
            Seq::empty(),
        ) {
            Err(fault) => Err(fault),
            Ok((cases, count)) => match migrated_option(
                control.default,
                place + ".default"@,
                depth + 1,
                count,
            ) {
                Err(fault) => Err(fault),
                Ok((default, count)) => Ok(
                    (NodeView::Switch(SwitchView { cases, default, ..control }), count),
                ),
            },
        },
        _ => Ok((node, count)),
    }
}

pub open spec fn migrated_option(
    graph: Option<Box<GraphView>>,
    path: Seq<char>,
    depth: nat,
    count: nat,
) -> Result<(Option<Box<GraphView>>, nat), MigrationFault>
    decreases graph, 1int,
{
    match graph {
        None => Ok((None, count)),
        Some(graph) => match migrated(*graph, path, depth, count) {
            Err(fault) => Err(fault),
            Ok((graph, count)) => Ok((Some(Box::new(graph)), count)),
        },
    }
}

pub open spec fn migrated_cases(
    cases: Seq<CaseView>,
    place: Seq<char>,
    depth: nat,
    count: nat,
    i: nat,
    done: Seq<CaseView>,
) -> Result<(Seq<CaseView>, nat), MigrationFault>
    decreases cases, cases.len() - i,
{
    if i >= cases.len() {
        Ok((done, count))
    } else {
        match migrated(
            *cases[i as int].graph,
            case_place(place, i) + ".graph"@,
            depth,
            count,
        ) {
            Err(fault) => Err(fault),
            Ok((graph, count)) => migrated_cases(
                cases,
                place,
                depth,
                count,
                i + 1,
                done.push(CaseView { graph: Box::new(graph), ..cases[i as int] }),
            ),
        }
    }
}

pub fn show_node_place(path: &str, i: usize) -> (res: String)
    ensures
        res@ == node_place(path@, i as nat),
{
    let mut out = joined(path, ".nodes[");
    out.append(&count_text(i));
    out.append("]");
    out
}

pub fn show_case_place(path: &str, i: usize) -> (res: String)
    ensures
        res@ == case_place(path@, i as nat),
{
    let mut out = joined(path, ".cases[");
    out.append(&count_text(i));
    out.append("]");
    out
}

pub open spec fn migrates<T, V>(
    res: Result<(T, usize), WorkflowGraphMigrationError>,
    want: Result<(V, nat), MigrationFault>,
    seen: spec_fn(T) -> V,
) -> bool {
    match res {
        Ok((x, n)) => want == Ok::<(V, nat), MigrationFault>((seen(x), n as nat)),
        Err(e) => want == Err::<(V, nat), MigrationFault>(e@),
    }
}

fn migrate_graph(graph: &WorkflowGraph, path: &str, depth: usize, count: usize) -> (res: Result<
    (WorkflowGraph, usize),
    WorkflowGraphMigrationError,
>)
    requires
        depth <= GRAPH_MAX_DEPTH + 1,
    ensures
        migrates(
            res,
            migrated(graph@, path@, depth as nat, count as nat),
            |x: WorkflowGraph| x@,
        ),
    decreases graph, 1int,
{
    if depth > GRAPH_MAX_DEPTH {
        return Err(
            WorkflowGraphMigrationError::ResourceLimitExceeded {
                path: owned(path),
                resource: owned("nesting depth"),
                limit: GRAPH_MAX_DEPTH,
            },
        );
    }
    let counted: usize = count.saturating_add(1);
    if counted > GRAPH_MAX_TOTAL_GRAPHS {
        return Err(
            WorkflowGraphMigrationError::ResourceLimitExceeded {
                path: owned(path),
                resource: owned("nested graph count"),
                limit: GRAPH_MAX_TOTAL_GRAPHS,
            },
        );
    }
    if graph.version < MIN_MIGRATABLE_WORKFLOW_GRAPH_VERSION || graph.version
        > WORKFLOW_GRAPH_VERSION {
        return Err(
            WorkflowGraphMigrationError::UnsupportedVersion {
                path: owned(path),
                found: graph.version,
                minimum: MIN_MIGRATABLE_WORKFLOW_GRAPH_VERSION,
                current: WORKFLOW_GRAPH_VERSION,
            },
        );
    }
    match migrate_nodes(&graph.nodes, path, depth, counted) {
        Err(e) => Err(e),
        Ok((nodes, count)) => Ok(
            (
                WorkflowGraph {
                    version: WORKFLOW_GRAPH_VERSION,
                    id: clone_optional(&graph.id),
                    entries: clone_texts(&graph.entries),
                    exits: clone_exits(&graph.exits),
                    nodes,
                    edges: clone_edges(&graph.edges),
                },
                count,
            ),
        ),
    }
}

fn migrate_nodes(nodes: &Vec<GraphNode>, path: &str, depth: usize, count: usize) -> (res: Result<
    (Vec<GraphNode>, usize),
    WorkflowGraphMigrationError,
>)
    requires
        depth <= GRAPH_MAX_DEPTH,
    ensures
        migrates(
            res,
            migrated_nodes(
                node_views(nodes@),
                path@,
                depth as nat,
                count as nat,
                0,
                Seq::empty(),
            ),
            |x: Vec<GraphNode>| node_views(x@),
        ),
    decreases nodes, 0int,
{
    let ghost views = node_views(nodes@);
    let mut done: Vec<GraphNode> = Vec::new();
    let mut total: usize = count;
    let mut i: usize = 0;
    assert(node_views(done@) =~= Seq::empty());
    while i < nodes.len()
        invariant
            i <= nodes@.len(),
            depth <= GRAPH_MAX_DEPTH,
            views == node_views(nodes@),
            migrated_nodes(views, path@, depth as nat, count as nat, 0, Seq::empty())
                == migrated_nodes(
                views,
                path@,
                depth as nat,
                total as nat,
                i as nat,
                node_views(done@),
            ),
        decreases nodes@.len() - i,
    {
        assert(decreases_to!(nodes@ => nodes@[i as int]));
        assert(views[i as int] == nodes@[i as int]@);
        let place = show_node_place(path, i);
        match migrate_node(&nodes[i], &place, depth, total) {
            Err(e) => {
                return Err(e);
            },
            Ok((node, count)) => {
                let ghost before = node_views(done@);
                let ghost added = node@;
                done.push(node);
                assert(node_views(done@) =~= before.push(added));
                total = count;
            },
        }
        i = i + 1;
    }
    Ok((done, total))
}

fn migrate_node(node: &GraphNode, place: &str, depth: usize, count: usize) -> (res: Result<
    (GraphNode, usize),
    WorkflowGraphMigrationError,
>)
    requires
        depth <= GRAPH_MAX_DEPTH,
    ensures
        migrates(
            res,
            migrated_node(node@, place@, depth as nat, count as nat),
            |x: GraphNode| x@,
        ),
    decreases node, 1int,
{
    match node {
        GraphNode::Action(action) => {
            let copy: ActionNode = (**action).clone();
            Ok((GraphNode::Action(Box::new(copy)), count))
        },
        GraphNode::Join(join) => Ok(
            (GraphNode::Join(JoinNode { id: join.id.clone(), mode: join.mode }), count),
        ),
        GraphNode::ForEach(control) => {
            let below = joined(place, ".body");
            match migrate_graph(&control.body, &below, depth + 1, count) {
                Err(e) => Err(e),
                Ok((body, count)) => Ok(
                    (
                        GraphNode::ForEach(
                            ForEachNode {
                                id: control.id.clone(),
                                collection: control.collection.clone(),
                                item_alias: control.item_alias.clone(),
                                index_alias: clone_optional(&control.index_alias),
                                concurrency: control.concurrency,
                                on_error: control.on_error,
                                body: Box::new(body),
                            },
                        ),
                        count,
                    ),
                ),
            }
        },
        GraphNode::If(control) => {
            let below = joined(place, ".then");
            let (then_graph, count) = match migrate_graph(
                &control.then_graph,
                &below,
                depth + 1,
                count,
            ) {
                Err(e) => {
                    return Err(e);
                },
                Ok(found) => found,
            };
            let below = joined(place, ".else");
            match migrate_option(&control.else_graph, &below, depth + 1, count) {
                Err(e) => Err(e),
                Ok((else_graph, count)) => Ok(
                    (
                        GraphNode::If(
                            IfNode {
                                id: control.id.clone(),
                                condition: control.condition.clone(),
                                then_graph: Box::new(then_graph),
                                else_graph,
                            },
                        ),
                        count,
                    ),
                ),
            }
        },
        GraphNode::Switch(control) => {
            let (cases, count) = match migrate_cases(&control.cases, place, depth + 1, count) {
                Err(e) => {
                    return Err(e);
                },
                Ok(found) => found,
            };
            let below = joined(place, ".default");
            match migrate_option(&control.default, &below, depth + 1, count) {
                Err(e) => Err(e),
                Ok((default, count)) => Ok(
                    (
                        GraphNode::Switch(
                            SwitchNode {
                                id: control.id.clone(),
                                selector: control.selector.clone(),
                                cases,
                                default,
                            },
                        ),
                        count,
                    ),
                ),
            }
        },
    }
}

fn migrate_option(
    graph: &Option<Box<WorkflowGraph>>,
    path: &str,
    depth: usize,
    count: usize,
) -> (res: Result<(Option<Box<WorkflowGraph>>, usize), WorkflowGraphMigrationError>)
    requires
        depth <= GRAPH_MAX_DEPTH + 1,
    ensures
        migrates(
            res,
            migrated_option(optional_graph(*graph), path@, depth as nat, count as nat),
            |x: Option<Box<WorkflowGraph>>| optional_graph(x),
        ),
    decreases graph, 1int,
{
    match graph {
        None => Ok((None, count)),
        Some(graph) => match migrate_graph(graph, path, depth, count) {
            Err(e) => Err(e),
            Ok((graph, count)) => Ok((Some(Box::new(graph)), count)),
        },
    }
}

fn migrate_cases(cases: &Vec<SwitchCase>, place: &str, depth: usize, count: usize) -> (res: Result<
    (Vec<SwitchCase>, usize),
    WorkflowGraphMigrationError,
>)
    requires
        depth <= GRAPH_MAX_DEPTH + 1,
    ensures
        migrates(
            res,
            migrated_cases(
                case_views(cases@),
                place@,
                depth as nat,
                count as nat,
                0,
                Seq::empty(),
            ),
            |x: Vec<SwitchCase>| case_views(x@),
        ),
    decreases cases, 0int,
{
    let ghost views = case_views(cases@);
    let mut done: Vec<SwitchCase> = Vec::new();
    let mut total: usize = count;
    let mut i: usize = 0;
    assert(case_views(done@) =~= Seq::empty());
    while i < cases.len()
        invariant
            i <= cases@.len(),
            depth <= GRAPH_MAX_DEPTH + 1,
            views == case_views(cases@),
            migrated_cases(views, place@, depth as nat, count as nat, 0, Seq::empty())
                == migrated_cases(
                views,
                place@,
                depth as nat,
                total as nat,
                i as nat,
                case_views(done@),
            ),
        decreases cases@.len() - i,
    {
        assert(decreases_to!(cases@ => cases@[i as int]));
        assert(views[i as int] == cases@[i as int]@);
        let case = &cases[i];
        let mut below = show_case_place(place, i);
        below.append(".graph");
        match migrate_graph(&case.graph, &below, depth, total) {
            Err(e) => {
                return Err(e);
            },
            Ok((graph, count)) => {
                let ghost before = case_views(done@);
                let next = SwitchCase {
                    id: case.id.clone(),
                    values: clone_values(&case.values),
                    graph: Box::new(graph),
                };
                let ghost added = next@;
                done.push(next);
                assert(case_views(done@) =~= before.push(added));
                total = count;
            },
        }
        i = i + 1;
    }
    Ok((done, total))
}

/// A whole graph brought to the current version.
pub open spec fn upgraded(graph: GraphView) -> Result<GraphView, MigrationFault> {
    match migrated(graph, "workflow_graph"@, 1, 0) {
        Err(fault) => Err(fault),
        Ok((graph, _)) => Ok(graph),
    }
}

impl WorkflowGraph {
    /// Upgrade a previously explicit graph to the canonical v3 wire format.
    ///
    /// v2 and v3 have the same control-flow topology. The v3 boundary makes
    /// graph ownership canonical at the task level and applies recursively to
    /// every lexical subgraph. Unknown versions are rejected rather than
    /// optimistically interpreted.
    pub fn into_v3(self) -> (res: Result<WorkflowGraph, WorkflowGraphMigrationError>)
        ensures
            match res {
                Ok(graph) => upgraded(self@) == Ok::<GraphView, MigrationFault>(graph@),
                Err(e) => upgraded(self@) == Err::<GraphView, MigrationFault>(e@),
            },
            res is Ok <==> upgradable(self@),
            res matches Ok(graph) ==> graph@ == in_current_form(self@),
    {
        self.to_v3()
    }

    pub fn to_v3(&self) -> (res: Result<WorkflowGraph, WorkflowGraphMigrationError>)
        ensures
            match res {
                Ok(graph) => upgraded(self@) == Ok::<GraphView, MigrationFault>(graph@),
                Err(e) => upgraded(self@) == Err::<GraphView, MigrationFault>(e@),
            },
            res is Ok <==> upgradable(self@),
            res matches Ok(graph) ==> graph@ == in_current_form(self@),
    {
        proof {
            law_upgrade_changes_versions_only(self@);
        }
        match migrate_graph(self, "workflow_graph", 1, 0) {
            Err(e) => Err(e),
            Ok((graph, _)) => Ok(graph),
        }
    }
}

// ---------------------------------------------------------------------------
// Laws
// ---------------------------------------------------------------------------
/// A graph that has the current version, as all have that are nested in it.
pub open spec fn current(graph: GraphView) -> bool
    decreases graph,
{
    graph.version == WORKFLOW_GRAPH_VERSION && forall|i: int|
        0 <= i < graph.nodes.len() ==> current_node(#[trigger] graph.nodes[i])
}

pub open spec fn current_node(node: NodeView) -> bool
    decreases node,
{
    match node {
        NodeView::ForEach(control) => current(*control.body),
        NodeView::If(control) => current(*control.then_graph) && current_option(
            control.else_graph,
        ),
        NodeView::Switch(control) => current_option(control.default) && forall|i: int|
            0 <= i < control.cases.len() ==> current(*(#[trigger] control.cases[i]).graph),
        _ => true,
    }
}

pub open spec fn current_option(graph: Option<Box<GraphView>>) -> bool
    decreases graph,
{
    match graph {
        Some(graph) => current(*graph),
        None => true,
    }
}

proof fn lemma_upgrade(graph: GraphView, path: Seq<char>, depth: nat, count: nat)
    requires
        migrated(graph, path, depth, count) is Ok,
    ensures
        ({
            let (out, after) = migrated(graph, path, depth, count)->Ok_0;
            &&& current(out)
            &&& out == GraphView { version: out.version, nodes: out.nodes, ..graph }
            &&& out.nodes.len() == graph.nodes.len()
            &&& migrated(out, path, depth, count) == Ok::<(GraphView, nat), MigrationFault>(
                (out, after),
            )
        }),
    decreases graph, 1int,
{
    let counted = saturated(count + 1);
    lemma_upgrade_nodes(graph.nodes, path, depth, counted, 0, Seq::empty());
    let (nodes, after) = migrated_nodes(
        graph.nodes,
        path,
        depth,
        counted,
        0,
        Seq::empty(),
    )->Ok_0;
    assert forall|i: int| 0 <= i < nodes.len() implies current_node(#[trigger] nodes[i]) by {}
}

proof fn lemma_upgrade_nodes(
    nodes: Seq<NodeView>,
    path: Seq<char>,
    depth: nat,
    count: nat,
    i: nat,
    done: Seq<NodeView>,
)
    requires
        i <= nodes.len(),
        done.len() == i,
        migrated_nodes(nodes, path, depth, count, i, done) is Ok,
        forall|k: int| 0 <= k < i ==> current_node(#[trigger] done[k]),
    ensures
        ({
            let (out, after) = migrated_nodes(nodes, path, depth, count, i, done)->Ok_0;
            &&& out.len() == nodes.len()
            &&& out.take(i as int) == done
            &&& forall|k: int| 0 <= k < out.len() ==> current_node(#[trigger] out[k])
            &&& migrated_nodes(out, path, depth, count, i, done) == Ok::<
                (Seq<NodeView>, nat),
                MigrationFault,
            >((out, after))
        }),
    decreases nodes, nodes.len() - i,
{
    let (out, after) = migrated_nodes(nodes, path, depth, count, i, done)->Ok_0;
    if i < nodes.len() {
        let place = node_place(path, i);
        lemma_upgrade_node(nodes[i as int], place, depth, count);
        let (node, next) = migrated_node(nodes[i as int], place, depth, count)->Ok_0;
        let more = done.push(node);
        lemma_upgrade_nodes(nodes, path, depth, next, i + 1, more);
        assert(out.take(i as int + 1)[i as int] == node);
        assert(out[i as int] == node);
        assert(out.take(i as int) =~= done) by {
            assert(out.take(i as int + 1).take(i as int) =~= out.take(i as int));
            assert(more.take(i as int) =~= done);
        }
    } else {
        assert(out.take(i as int) =~= done);
    }
}

proof fn lemma_upgrade_node(node: NodeView, place: Seq<char>, depth: nat, count: nat)
    requires
        migrated_node(node, place, depth, count) is Ok,
    ensures
        ({
            let (out, after) = migrated_node(node, place, depth, count)->Ok_0;
            &&& current_node(out)
            &&& migrated_node(out, place, depth, count) == Ok::<(NodeView, nat), MigrationFault>(
                (out, after),
            )
        }),
    decreases node, 1int,
{
    match node {
        NodeView::ForEach(control) => {
            lemma_upgrade(*control.body, place + ".body"@, depth + 1, count);
        },
        NodeView::If(control) => {
            lemma_upgrade(*control.then_graph, place + ".then"@, depth + 1, count);
            let (then_graph, next) = migrated(
                *control.then_graph,
                place + ".then"@,
                depth + 1,
                count,
            )->Ok_0;
            lemma_upgrade_option(control.else_graph, place + ".else"@, depth + 1, next);
        },
        NodeView::Switch(control) => {
            lemma_upgrade_cases(control.cases, place, depth + 1, count, 0, Seq::empty());
            let (cases, next) = migrated_cases(
                control.cases,
                place,
                depth + 1,
                count,
                0,
                Seq::empty(),
            )->Ok_0;
            lemma_upgrade_option(control.default, place + ".default"@, depth + 1, next);
        },
        _ => {},
    }
}

proof fn lemma_upgrade_option(
    graph: Option<Box<GraphView>>,
    path: Seq<char>,
    depth: nat,
    count: nat,
)
    requires
        migrated_option(graph, path, depth, count) is Ok,
    ensures
        ({
            let (out, after) = migrated_option(graph, path, depth, count)->Ok_0;
            &&& current_option(out)
            &&& migrated_option(out, path, depth, count) == Ok::<
                (Option<Box<GraphView>>, nat),
                MigrationFault,
            >((out, after))
        }),
    decreases graph, 1int,
{
    match graph {
        Some(graph) => lemma_upgrade(*graph, path, depth, count),
        None => {},
    }
}

proof fn lemma_upgrade_cases(
    cases: Seq<CaseView>,
    place: Seq<char>,
    depth: nat,
    count: nat,
    i: nat,
    done: Seq<CaseView>,
)
    requires
        i <= cases.len(),
        done.len() == i,
        migrated_cases(cases, place, depth, count, i, done) is Ok,
        forall|k: int| 0 <= k < i ==> current(*(#[trigger] done[k]).graph),
    ensures
        ({
            let (out, after) = migrated_cases(cases, place, depth, count, i, done)->Ok_0;
            &&& out.len() == cases.len()
            &&& out.take(i as int) == done
            &&& forall|k: int| 0 <= k < out.len() ==> current(*(#[trigger] out[k]).graph)
            &&& migrated_cases(out, place, depth, count, i, done) == Ok::<
                (Seq<CaseView>, nat),
                MigrationFault,
            >((out, after))
        }),
    decreases cases, cases.len() - i,
{
    let (out, after) = migrated_cases(cases, place, depth, count, i, done)->Ok_0;
    if i < cases.len() {
        let path = case_place(place, i) + ".graph"@;
        lemma_upgrade(*cases[i as int].graph, path, depth, count);
        let (graph, next) = migrated(*cases[i as int].graph, path, depth, count)->Ok_0;
        let case = CaseView { graph: Box::new(graph), ..cases[i as int] };
        let more = done.push(case);
        lemma_upgrade_cases(cases, place, depth, next, i + 1, more);
        assert(out.take(i as int + 1)[i as int] == case);
        assert(out[i as int] == case);
        assert(out.take(i as int) =~= done) by {
            assert(out.take(i as int + 1).take(i as int) =~= out.take(i as int));
            assert(more.take(i as int) =~= done);
        }
    } else {
        assert(out.take(i as int) =~= done);
    }
}

/// An upgraded graph has the current version throughout, keeps its identity,
/// entries, exits and edges, and stays as it is when it is upgraded again.
pub proof fn law_upgrade(graph: GraphView)
    ensures
        upgraded(graph) matches Ok(out) ==> {
            &&& current(out)
            &&& out.id == graph.id
            &&& out.entries == graph.entries
            &&& out.exits == graph.exits
            &&& out.edges == graph.edges
            &&& out.nodes.len() == graph.nodes.len()
            &&& upgraded(out) == Ok::<GraphView, MigrationFault>(out)
        },
{
    if upgraded(graph) is Ok {
        lemma_upgrade(graph, "workflow_graph"@, 1, 0);
    }
}

} // verus!
