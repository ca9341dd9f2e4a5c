//! Validation of workflow graphs.
use vstd::prelude::*;

use crate::binding::binding_views;
use crate::block::{action_definition, definition_for_action};
use crate::context::{
    same_path, segment_views, Binding, BindingView, ContextPathSegment, FieldRef, FieldRefView,
    ScopeView, SegmentView,
};
use crate::expr::clone_texts;
use crate::faults::{all_reported, fault_if, group_reported, Faults};
use crate::graph::{
    case_place, case_views, edge_views, exit_views, node_place, node_views, optional_graph,
    show_case_place, show_node_place, ActionNode, ActionNodeView, CaseView, EdgeView, ExitView,
    ForEachNode, ForEachView, GraphEdge, GraphExit, GraphNode, GraphView, NodeView, SwitchCase,
    SwitchNode, SwitchView, WorkflowGraph, WORKFLOW_GRAPH_VERSION,
};
use crate::graph_error::{
    error_views, EdgePort, GraphErrorView, GraphFault, GraphValidationError,
    GraphValidationErrorKind,
};
use crate::graph_flow::{
    binding_type, code_views, condition_faults, id_views, input_faults, loop_views,
    optional_codes, rule_faults, schema_views, source_faults, Env, EnvView, Scope, ScopeOf,
};
use crate::json::value_text;
use crate::names::{find_name, has_name, insert_name, place_of, put};
use crate::preflight::{look, preflight};
use crate::reach::{
    compute_dominators, cyclic_nodes, dominates, ends_walk, link_views, reachable,
    reachable_nodes, start_views, within,
};
use crate::rewrite::{alias_fault, alias_views, validate_alias};
use crate::schema::{inferred, ContextType, Sensitivity, TypeView};
use crate::static_type::{
    default_binding_limits, input_field, present, resolve_input_field, selects, static_view,
    switch_types_compatible, StaticBindingType, StaticView,
};
use crate::target::{parse_binding_target, target_path, BindingLimits};
use crate::task::{
    clone_codes, optional_condition, Action, ActionView, ConditionView, StepCondition,
};
use crate::text;
use crate::text::{
    contains_text, count_text, ends_with, is_blank, joined, owned, same_text, text_views,
};
use crate::text_map;
use crate::text_map::TextMap;

verus! {

broadcast use group_reported;

// ---------------------------------------------------------------------------
// All nodes
// ---------------------------------------------------------------------------
pub open spec fn no_env() -> EnvView {
    EnvView { ids: Seq::empty(), schemas: Seq::empty(), codes: Seq::empty() }
}

/// What is wrong with the identity of a node, given those met before it.
pub open spec fn id_faults(env: EnvView, id: Seq<char>, place: Seq<char>) -> Seq<GraphErrorView> {
    if text::blank(id) {
        fault_if(true, place, GraphFault::EmptyNodeId)
    } else if text::has_suffix(id, "::index"@) {
        fault_if(true, place, GraphFault::ReservedNodeId { id })
    } else {
        match text_map::lookup(env.ids, id) {
            Some(first_path) => fault_if(
                true,
                place,
                GraphFault::DuplicateNodeId { id, first_path },
            ),
            None => Seq::empty(),
        }
    }
}

/// What is known once a node has been met: the first node of a name counts.
pub open spec fn with_node(env: EnvView, node: NodeView, place: Seq<char>) -> EnvView {
    let id = node.id();
    let ids = if text::blank(id) || text::has_suffix(id, "::index"@) || text_map::has_key(
        env.ids,
        id,
    ) {
        env.ids
    } else {
        env.ids.push((id, place))
    };
    match node {
        NodeView::Action(action) => EnvView {
            ids,
            schemas: if text_map::has_key(env.schemas, id) {
                env.schemas
            } else {
                env.schemas.push((id, action_definition(action.step.action).output_schema))
            },
            codes: if text_map::has_key(env.codes, id) {
                env.codes
            } else {
                env.codes.push((id, success_codes(action.step.action)))
            },
        },
        _ => EnvView { ids, ..env },
    }
}

pub open spec fn success_codes(action: ActionView) -> Option<Seq<u32>> {
    match action {
        ActionView::RunScript { success_exit_codes, .. } => Some(success_exit_codes),
        _ => None,
    }
}

/// What is known of a graph and of those nested in it, and what is wrong with
/// the identities of their nodes.
pub open spec fn collected(env: EnvView, graph: GraphView, path: Seq<char>) -> (
    EnvView,
    Seq<GraphErrorView>,
)
    decreases graph, 1int,
{
    collected_nodes(env, graph.nodes, path, 0)
}

/// The nodes of a graph from the `i`-th on.
pub open spec fn collected_nodes(env: EnvView, nodes: Seq<NodeView>, path: Seq<char>, i: nat) -> (
    EnvView,
    Seq<GraphErrorView>,
)
    decreases nodes, nodes.len() - i,
{
    if i >= nodes.len() {
        (env, Seq::empty())
    } else {
        let (env, here) = collected_node(env, nodes[i as int], node_place(path, i));
        let (env, more) = collected_nodes(env, nodes, path, i + 1);
        (env, here + more)
    }
}

pub open spec fn collected_node(env: EnvView, node: NodeView, place: Seq<char>) -> (
    EnvView,
    Seq<GraphErrorView>,
)
    decreases node, 1int,
{
    let own = id_faults(env, node.id(), place);
    let env = with_node(env, node, place);
    match node {
        NodeView::ForEach(control) => {
            let (env, body) = collected(env, *control.body, place + ".body"@);
            (env, own + body)
        },
        NodeView::If(control) => {
            let (env, first) = collected(env, *control.then_graph, place + ".then"@);
            let (env, second) = collected_option(env, control.else_graph, place + ".else"@);
            (env, own + first + second)
        },
        NodeView::Switch(control) => {
            let (env, cases) = collected_cases(env, control.cases, place, 0);
            let (env, last) = collected_option(env, control.default, place + ".default"@);
            (env, own + cases + last)
        },
        _ => (env, own),
    }
}

pub open spec fn collected_option(env: EnvView, graph: Option<Box<GraphView>>, path: Seq<char>) -> (
    EnvView,
    Seq<GraphErrorView>,
)
    decreases graph, 1int,
{
    match graph {
        Some(graph) => collected(env, *graph, path),
        None => (env, Seq::empty()),
    }
}

pub open spec fn collected_cases(env: EnvView, cases: Seq<CaseView>, place: Seq<char>, i: nat) -> (
    EnvView,
    Seq<GraphErrorView>,
)
    decreases cases, cases.len() - i,
{
    if i >= cases.len() {
        (env, Seq::empty())
    } else {
        let (env, here) = collected(
            env,
            *cases[i as int].graph,
            case_place(place, i) + ".graph"@,
        );
        let (env, more) = collected_cases(env, cases, place, i + 1);
        (env, here + more)
    }
}

// ---------------------------------------------------------------------------
// The structure of one graph
// ---------------------------------------------------------------------------
/// The names of the nodes from the `i`-th on, put in order behind those found.
pub open spec fn local_ids(nodes: Seq<NodeView>, i: nat, done: Seq<Seq<char>>) -> Seq<Seq<char>>
    decreases nodes.len() - i,
{
    if i >= nodes.len() {
        done
    } else {
        let id = nodes[i as int].id();
        local_ids(
            nodes,
            i + 1,
            if text::blank(id) {
                done
            } else {
                put(done, id)
            },
        )
    }
}

/// The first node of a name, from the `i`-th on.
pub open spec fn node_named(nodes: Seq<NodeView>, id: Seq<char>, i: nat) -> Option<NodeView>
    decreases nodes.len() - i,
{
    if i >= nodes.len() {
        None
    } else if !text::blank(id) && nodes[i as int].id() == id {
        Some(nodes[i as int])
    } else {
        node_named(nodes, id, i + 1)
    }
}

/// One graph as nodes numbered in the order of their names.
pub struct Layout {
    pub ids: Seq<Seq<char>>,
    pub links: Seq<(int, int)>,
    pub starts: Seq<int>,
}

/// The links that the edges from the `i`-th on make between known nodes.
pub open spec fn links_of(ids: Seq<Seq<char>>, edges: Seq<EdgeView>, i: nat) -> Seq<(int, int)>
    decreases edges.len() - i,
{
    if i >= edges.len() {
        Seq::empty()
    } else {
        let from = edges[i as int].from.node;
        let to = edges[i as int].to.node;
        if ids.contains(from) && ids.contains(to) {
            seq![(place_of(ids, from), place_of(ids, to))] + links_of(ids, edges, i + 1)
        } else {
            links_of(ids, edges, i + 1)
        }
    }
}

pub open spec fn starts_of(ids: Seq<Seq<char>>, entries: Seq<Seq<char>>, i: nat) -> Seq<int>
    decreases entries.len() - i,
{
    if i >= entries.len() {
        Seq::empty()
    } else if ids.contains(entries[i as int]) {
        seq![place_of(ids, entries[i as int])] + starts_of(ids, entries, i + 1)
    } else {
        starts_of(ids, entries, i + 1)
    }
}

pub open spec fn layout(graph: GraphView) -> Layout {
    let ids = local_ids(graph.nodes, 0, Seq::empty());
    Layout {
        ids,
        links: links_of(ids, graph.edges, 0),
        starts: starts_of(ids, graph.entries, 0),
    }
}

pub open spec fn head_faults(graph: GraphView, path: Seq<char>) -> Seq<GraphErrorView> {
    fault_if(
        graph.version != WORKFLOW_GRAPH_VERSION,
        path,
        GraphFault::UnsupportedVersion {
            found: graph.version,
            supported: WORKFLOW_GRAPH_VERSION,
        },
    ) + fault_if(
        graph.id matches Some(id) && text::blank(id),
        path,
        GraphFault::EmptyGraphId,
    ) + fault_if(graph.nodes.len() == 0, path, GraphFault::EmptyGraph) + fault_if(
        graph.entries.len() == 0,
        path,
        GraphFault::EmptyEntries,
    )
}

pub open spec fn seen_before<T>(list: Seq<T>, i: nat) -> bool {
    exists|j: int| 0 <= j < i && #[trigger] list[j] == list[i as int]
}

/// What is wrong with where an edge or an exit comes from.
pub open spec fn origin_faults(
    nodes: Seq<NodeView>,
    id: Seq<char>,
    port: EdgePort,
    place: Seq<char>,
) -> Seq<GraphErrorView> {
    match node_named(nodes, id, 0) {
        None => fault_if(true, place, GraphFault::UnknownEndpoint { node: id }),
        Some(node) => fault_if(
            !node.emits(port),
            place,
            GraphFault::InvalidSourcePort { node: id, kind: node.kind_name(), port },
        ),
    }
}

pub open spec fn edge_faults(graph: GraphView, path: Seq<char>, i: nat) -> Seq<GraphErrorView>
    decreases graph.edges.len() - i,
{
    if i >= graph.edges.len() {
        Seq::empty()
    } else {
        let edge = graph.edges[i as int];
        let place = path + ".edges["@ + text::decimal(i) + "]"@;
        let target = match node_named(graph.nodes, edge.to.node, 0) {
            None => fault_if(true, place, GraphFault::UnknownEndpoint { node: edge.to.node }),
            Some(_) => fault_if(
                edge.to.port != EdgePort::Input,
                place,
                GraphFault::InvalidTargetPort { node: edge.to.node, port: edge.to.port },
            ),
        };
        fault_if(seen_before(graph.edges, i), place, GraphFault::DuplicateEdge) + origin_faults(
            graph.nodes,
            edge.from.node,
            edge.from.port,
            place,
        ) + target + edge_faults(graph, path, i + 1)
    }
}

pub open spec fn entered(links: Seq<(int, int)>, k: int) -> bool {
    exists|j: int| 0 <= j < links.len() && (#[trigger] links[j]).1 == k
}

pub open spec fn left(links: Seq<(int, int)>, k: int) -> bool {
    exists|j: int| 0 <= j < links.len() && (#[trigger] links[j]).0 == k
}

pub open spec fn entry_faults(graph: GraphView, g: Layout, path: Seq<char>, i: nat) -> Seq<
    GraphErrorView,
>
    decreases graph.entries.len() - i,
{
    if i >= graph.entries.len() {
        Seq::empty()
    } else {
        let node = graph.entries[i as int];
        let place = path + ".entries["@ + text::decimal(i) + "]"@;
        let own = if !g.ids.contains(node) {
            fault_if(true, place, GraphFault::UnknownEntry { node })
        } else {
            fault_if(
                entered(g.links, place_of(g.ids, node)),
                place,
                GraphFault::EntryHasIncoming { node },
            )
        };
        fault_if(
            seen_before(graph.entries, i),
            place,
            GraphFault::DuplicateEntry { node },
        ) + own + entry_faults(graph, g, path, i + 1)
    }
}

pub open spec fn exit_named_before(exits: Seq<ExitView>, i: nat) -> bool {
    exists|j: int| 0 <= j < i && (#[trigger] exits[j]).name == exits[i as int].name
}

pub open spec fn exit_list_faults(graph: GraphView, path: Seq<char>, i: nat) -> Seq<GraphErrorView>
    decreases graph.exits.len() - i,
{
    if i >= graph.exits.len() {
        Seq::empty()
    } else {
        let exit = graph.exits[i as int];
        let place = path + ".exits["@ + text::decimal(i) + "]"@;
        let named = if text::blank(exit.name) {
            fault_if(true, place, GraphFault::EmptyExitName)
        } else {
            fault_if(
                exit_named_before(graph.exits, i),
                place,
                GraphFault::DuplicateExitName { name: exit.name },
            )
        };
        named + origin_faults(graph.nodes, exit.from.node, exit.from.port, place) + exit_list_faults(
            graph,
            path,
            i + 1,
        )
    }
}

/// Whether some exit leaves a node through a port that the node has.
pub open spec fn exits_from(graph: GraphView, id: Seq<char>) -> bool {
    exists|j: int|
        0 <= j < graph.exits.len() && exit_from(graph, #[trigger] graph.exits[j], id)
}

pub open spec fn exit_from(graph: GraphView, exit: ExitView, id: Seq<char>) -> bool {
    &&& exit.from.node == id
    &&& node_named(graph.nodes, id, 0) matches Some(node) && node.emits(exit.from.port)
}

pub open spec fn unreachable_faults(g: Layout, path: Seq<char>, k: nat) -> Seq<GraphErrorView>
    decreases g.ids.len() - k,
{
    if k >= g.ids.len() {
        Seq::empty()
    } else {
        fault_if(
            !reachable(g.links, g.starts, k as int),
            path,
            GraphFault::UnreachableNode { node: g.ids[k as int] },
        ) + unreachable_faults(g, path, k + 1)
    }
}

/// The names of the nodes from the `k`-th on that lie on a cycle or behind one.
pub open spec fn cycle_names(g: Layout, k: nat) -> Seq<Seq<char>>
    decreases g.ids.len() - k,
{
    if k >= g.ids.len() {
        Seq::empty()
    } else if ends_walk(g.links, g.ids.len(), k as int) {
        seq![g.ids[k as int]] + cycle_names(g, k + 1)
    } else {
        cycle_names(g, k + 1)
    }
}

pub open spec fn cycle_faults(g: Layout, path: Seq<char>) -> Seq<GraphErrorView> {
    fault_if(
        cycle_names(g, 0).len() > 0,
        path,
        GraphFault::Cycle { nodes: cycle_names(g, 0) },
    )
}

pub open spec fn terminal_faults(graph: GraphView, g: Layout, path: Seq<char>, k: nat) -> Seq<
    GraphErrorView,
>
    decreases g.ids.len() - k,
{
    if k >= g.ids.len() {
        Seq::empty()
    } else {
        fault_if(
            reachable(g.links, g.starts, k as int) && !left(g.links, k as int) && !exits_from(
                graph,
                g.ids[k as int],
            ),
            path,
            GraphFault::UnlistedTerminal { node: g.ids[k as int] },
        ) + terminal_faults(graph, g, path, k + 1)
    }
}

/// How many links lead to a node.
pub open spec fn incoming(links: Seq<(int, int)>, k: int, i: nat) -> nat
    decreases links.len() - i,
{
    if i >= links.len() {
        0
    } else {
        incoming(links, k, i + 1) + if links[i as int].1 == k {
            1nat
        } else {
            0nat
        }
    }
}

pub open spec fn named_place(path: Seq<char>, id: Seq<char>) -> Seq<char> {
    path + ".node["@ + id + "]"@
}

pub open spec fn inputs_found(g: Layout, id: Seq<char>) -> nat {
    if g.ids.contains(id) {
        incoming(g.links, place_of(g.ids, id), 0)
    } else {
        0
    }
}

pub open spec fn join_faults(nodes: Seq<NodeView>, g: Layout, path: Seq<char>, i: nat) -> Seq<
    GraphErrorView,
>
    decreases nodes.len() - i,
{
    if i >= nodes.len() {
        Seq::empty()
    } else {
        match nodes[i as int] {
            NodeView::Join(join) => fault_if(
                inputs_found(g, join.id) < 2,
                named_place(path, join.id),
                GraphFault::JoinNeedsMultipleInputs {
                    node: join.id,
                    found: inputs_found(g, join.id) as usize,
                },
            ) + join_faults(nodes, g, path, i + 1),
            _ => join_faults(nodes, g, path, i + 1),
        }
    }
}

/// What a node sees: all that was visible outside, and the nodes from the `d`-th
/// on through which every way to it leads.
pub open spec fn visible_from(
    g: Layout,
    to: int,
    d: nat,
    done: Seq<Seq<char>>,
) -> Seq<Seq<char>>
    decreases g.ids.len() - d,
{
    if d >= g.ids.len() {
        done
    } else {
        visible_from(
            g,
            to,
            d + 1,
            if d != to && dominates(g.links, g.starts, d as int, to) {
                put(done, g.ids[d as int])
            } else {
                done
            },
        )
    }
}

pub open spec fn visible_at(g: Layout, id: Seq<char>, inherited: Seq<Seq<char>>) -> Seq<Seq<char>> {
    let to = place_of(g.ids, id);
    if g.ids.contains(id) && reachable(g.links, g.starts, to) {
        visible_from(g, to, 0, inherited)
    } else {
        inherited
    }
}

/// What is wrong with the structure of one graph.
pub open spec fn structure_faults(graph: GraphView, path: Seq<char>) -> Seq<GraphErrorView> {
    let g = layout(graph);
    let terminals = if graph.exits.len() > 0 {
        terminal_faults(graph, g, path, 0)
    } else {
        Seq::empty()
    };
    head_faults(graph, path) + edge_faults(graph, path, 0) + entry_faults(graph, g, path, 0)
        + exit_list_faults(graph, path, 0) + unreachable_faults(g, path, 0) + cycle_faults(g, path)
        + terminals + join_faults(graph.nodes, g, path, 0)
}

// ---------------------------------------------------------------------------
// The nodes of one graph
// ---------------------------------------------------------------------------
/// The name of the last binding before the `i`-th that writes the same input.
pub open spec fn same_target(
    bindings: Seq<(Seq<char>, BindingView)>,
    path: Seq<SegmentView>,
    i: nat,
) -> Option<Seq<char>>
    decreases i,
{
    if i == 0 || i > bindings.len() {
        None
    } else if target_path(bindings[i - 1].0, default_binding_limits()) == Ok::<
        Seq<SegmentView>,
        crate::bind_error::BindErrView,
    >(path) {
        Some(bindings[i - 1].0)
    } else {
        same_target(bindings, path, (i - 1) as nat)
    }
}

pub open spec fn target_faults(s: ScopeOf, bindings: Seq<(Seq<char>, BindingView)>, i: nat) -> Seq<
    GraphErrorView,
> {
    let name = bindings[i as int].0;
    match target_path(name, default_binding_limits()) {
        Err(_) => Seq::empty(),
        Ok(path) => match same_target(bindings, path, i) {
            None => Seq::empty(),
            Some(first) => fault_if(
                true,
                s.path,
                GraphFault::DuplicateBindingTarget { node: s.consumer, first, duplicate: name },
            ),
        },
    }
}

/// What is wrong with the bindings of an action from the `i`-th on.
pub open spec fn action_binding_faults(s: ScopeOf, node: ActionNodeView, i: nat) -> Seq<
    GraphErrorView,
>
    decreases node.bindings.len() - i,
{
    if i >= node.bindings.len() {
        Seq::empty()
    } else {
        let (name, binding) = node.bindings[i as int];
        let inputs = action_definition(node.step.action).input_schema;
        let own = match input_field(inputs, name) {
            None => fault_if(
                true,
                s.path,
                GraphFault::UnknownBindingField { node: s.consumer, field: name },
            ) + source_faults(s, binding),
            Some(expected) => input_faults(s, name, binding, expected),
        };
        fault_if(
            text::blank(name),
            s.path,
            GraphFault::EmptyBindingName { node: s.consumer },
        ) + target_faults(s, node.bindings, i) + own + action_binding_faults(s, node, i + 1)
    }
}

pub open spec fn optional_condition_faults(s: ScopeOf, c: Option<ConditionView>) -> Seq<
    GraphErrorView,
> {
    match c {
        Some(c) => condition_faults(s, c),
        None => Seq::empty(),
    }
}

pub open spec fn action_faults(s: ScopeOf, node: ActionNodeView) -> Seq<GraphErrorView> {
    fault_if(
        node.step.bindings.len() > 0,
        s.path,
        GraphFault::InvalidAction {
            node: s.consumer,
            message: "graph action embeds linear bindings; move them to action-node bindings"@,
        },
    ) + fault_if(
        !node.step.policy_accepted(),
        s.path,
        GraphFault::InvalidAction {
            node: s.consumer,
            message: "step policy is not available for this action"@,
        },
    ) + fault_if(
        !node.step.action.kind().graph_action(),
        s.path,
        GraphFault::LegacyControlAction { node: s.consumer },
    ) + action_binding_faults(s, node, 0) + optional_condition_faults(s, node.step.when)
        + optional_condition_faults(s, node.step.require)
}

/// The type of the items of a collection, as far as it is known.
pub open spec fn item_type(t: Option<StaticView>) -> Option<TypeView> {
    match t {
        Some(t) => match t.value_type {
            TypeView::Array { items } => Some(*items),
            _ => None,
        },
        None => None,
    }
}

pub open spec fn known_type(t: Option<StaticView>) -> Option<TypeView> {
    match t {
        Some(t) => Some(t.value_type),
        None => None,
    }
}

pub open spec fn index_alias_faults(s: ScopeOf, node: ForEachView) -> Seq<GraphErrorView> {
    match node.index_alias {
        None => Seq::empty(),
        Some(alias) => alias_fault(alias, s.consumer, s.path, s.aliases) + fault_if(
            alias == node.item_alias,
            s.path,
            GraphFault::DuplicateAlias { node: s.consumer, alias },
        ),
    }
}

/// What is wrong with a loop itself.
pub open spec fn loop_faults(s: ScopeOf, node: ForEachView) -> Seq<GraphErrorView> {
    let (t, errors) = binding_type(s, node.collection);
    source_faults(s, node.collection) + errors + fault_if(
        item_type(t) is None,
        s.path,
        GraphFault::ForEachCollectionNotArray { node: s.consumer, actual: known_type(t) },
    ) + fault_if(
        node.concurrency == 0,
        s.path,
        GraphFault::InvalidConcurrency { node: s.consumer },
    ) + alias_fault(node.item_alias, s.consumer, s.path, s.aliases) + index_alias_faults(s, node)
}

pub open spec fn index_scope(id: Seq<char>) -> Seq<char> {
    id + "::index"@
}

pub open spec fn loop_reference(id: Seq<char>) -> FieldRefView {
    FieldRefView { scope: ScopeView::LoopItem { step_id: id }, segments: Seq::empty() }
}

pub open spec fn shown_alias(alias: Option<Seq<char>>) -> Option<Seq<char>> {
    match alias {
        Some(alias) => if text::blank(alias) {
            None
        } else {
            Some(alias)
        },
        None => None,
    }
}

/// The loops that are active inside a loop: its item, and its index where that
/// has a name.
pub open spec fn inner_loops(s: ScopeOf, node: ForEachView) -> Seq<(Seq<char>, StaticView)> {
    let t = binding_type(s, node.collection).0;
    let item = present(
        match item_type(t) {
            Some(items) => items,
            None => TypeView::Any,
        },
        match t {
            Some(t) => t.sensitivity,
            None => Sensitivity::Public,
        },
    );
    let with_item = text_map::stored(s.loops, s.consumer, item);
    match shown_alias(node.index_alias) {
        None => with_item,
        Some(_) => text_map::stored(
            with_item,
            index_scope(s.consumer),
            present(TypeView::Integer, Sensitivity::Public),
        ),
    }
}

pub open spec fn inner_aliases(s: ScopeOf, node: ForEachView) -> Seq<(Seq<char>, FieldRefView)> {
    let with_item = if text::blank(node.item_alias) {
        s.aliases
    } else {
        text_map::stored(s.aliases, node.item_alias, loop_reference(s.consumer))
    };
    match shown_alias(node.index_alias) {
        None => with_item,
        Some(alias) => text_map::stored(
            with_item,
            alias,
            loop_reference(index_scope(s.consumer)),
        ),
    }
}

/// What is wrong with a switch itself, apart from its cases.
pub open spec fn selector_faults(s: ScopeOf, node: SwitchView) -> Seq<GraphErrorView> {
    let (t, errors) = binding_type(s, node.selector);
    source_faults(s, node.selector) + fault_if(
        node.selector matches BindingView::Template { template } && (text::contains(
            template,
            "{{"@,
        ) || text::contains(template, "}}"@)),
        s.path,
        GraphFault::InvalidBindingValue {
            node: s.consumer,
            field: "selector"@,
            message: "legacy selector template contains placeholders"@,
        },
    ) + errors + fault_if(
        t matches Some(t) && t.sensitivity == Sensitivity::Secret,
        s.path,
        GraphFault::SecretBindingFlow { node: s.consumer, field: "selector"@ },
    ) + fault_if(
        node.cases.len() == 0,
        s.path,
        GraphFault::EmptySwitchCases { node: s.consumer },
    )
}

pub open spec fn case_named_before(cases: Seq<CaseView>, i: nat) -> bool {
    exists|j: int| 0 <= j < i && (#[trigger] cases[j]).id == cases[i as int].id
}

pub open spec fn case_head_faults(
    s: ScopeOf,
    cases: Seq<CaseView>,
    i: nat,
    place: Seq<char>,
) -> Seq<GraphErrorView> {
    let case = cases[i as int];
    let named = if text::blank(case.id) {
        fault_if(true, place, GraphFault::EmptySwitchCaseId { node: s.consumer })
    } else {
        fault_if(
            case_named_before(cases, i),
            place,
            GraphFault::DuplicateSwitchCaseId { node: s.consumer, case: case.id },
        )
    };
    named + fault_if(
        case.values.len() == 0,
        place,
        GraphFault::EmptySwitchCaseValues { node: s.consumer, case: case.id },
    )
}

/// What is wrong with the values of a case from the `k`-th on, given the texts
/// of those met before.
pub open spec fn case_value_faults(
    s: ScopeOf,
    selector: Option<StaticView>,
    case: CaseView,
    place: Seq<char>,
    k: nat,
    seen: Seq<Seq<char>>,
) -> (Seq<GraphErrorView>, Seq<Seq<char>>)
    decreases case.values.len() - k,
{
    if k >= case.values.len() {
        (Seq::empty(), seen)
    } else {
        let value = case.values[k as int];
        let fits = match selector {
            Some(selector) => fault_if(
                !selects(selector, inferred(value)),
                place,
                GraphFault::SwitchCaseTypeMismatch {
                    node: s.consumer,
                    case: case.id,
                    selector: selector.value_type,
                    value: inferred(value),
                },
            ),
            None => Seq::empty(),
        };
        let repeated = fault_if(
            seen.contains(value.text()),
            place,
            GraphFault::DuplicateSwitchValue { node: s.consumer, value: value.text() },
        );
        let (more, all) = case_value_faults(
            s,
            selector,
            case,
            place,
            k + 1,
            seen.push(value.text()),
        );
        (fits + repeated + more, all)
    }
}

/// What is wrong with a graph and all that is nested in it, given what is known
/// of all nodes and what is visible from outside.
pub open spec fn graph_faults(
    env: EnvView,
    graph: GraphView,
    path: Seq<char>,
    inherited: Seq<Seq<char>>,
    loops: Seq<(Seq<char>, StaticView)>,
    aliases: Seq<(Seq<char>, FieldRefView)>,
) -> Seq<GraphErrorView>
    decreases graph, 1int,
{
    structure_faults(graph, path) + nodes_faults(
        env,
        graph.nodes,
        layout(graph),
        path,
        inherited,
        loops,
        aliases,
        0,
    )
}

/// The nodes of a graph from the `i`-th on.
pub open spec fn nodes_faults(
    env: EnvView,
    nodes: Seq<NodeView>,
    g: Layout,
    path: Seq<char>,
    inherited: Seq<Seq<char>>,
    loops: Seq<(Seq<char>, StaticView)>,
    aliases: Seq<(Seq<char>, FieldRefView)>,
    i: nat,
) -> Seq<GraphErrorView>
    decreases nodes, nodes.len() - i,
{
    if i >= nodes.len() {
        Seq::empty()
    } else {
        let id = nodes[i as int].id();
        let s = ScopeOf {
            env,
            consumer: id,
            path: named_place(path, id),
            visible: visible_at(g, id, inherited),
            loops,
            aliases,
        };
        node_faults(s, nodes[i as int]) + nodes_faults(
            env,
            nodes,
            g,
            path,
            inherited,
            loops,
            aliases,
            i + 1,
        )
    }
}

pub open spec fn node_faults(s: ScopeOf, node: NodeView) -> Seq<GraphErrorView>
    decreases node, 1int,
{
    match node {
        NodeView::Action(action) => action_faults(s, action),
        NodeView::ForEach(control) => loop_faults(s, control) + graph_faults(
            s.env,
            *control.body,
            s.path + ".body"@,
            s.visible,
            inner_loops(s, control),
            inner_aliases(s, control),
        ),
        NodeView::If(control) => rule_faults(s, control.condition) + graph_faults(
            s.env,
            *control.then_graph,
            s.path + ".then"@,
            s.visible,
            s.loops,
            s.aliases,
        ) + optional_graph_faults(s, control.else_graph, s.path + ".else"@),
        NodeView::Switch(control) => selector_faults(s, control) + cases_faults(
            s,
            binding_type(s, control.selector).0,
            control.cases,
            0,
            Seq::empty(),
        ) + optional_graph_faults(s, control.default, s.path + ".default"@),
        NodeView::Join(_) => Seq::empty(),
    }
}

pub open spec fn optional_graph_faults(
    s: ScopeOf,
    graph: Option<Box<GraphView>>,
    path: Seq<char>,
) -> Seq<GraphErrorView>
    decreases graph, 1int,
{
    match graph {
        Some(graph) => graph_faults(s.env, *graph, path, s.visible, s.loops, s.aliases),
        None => Seq::empty(),
    }
}

/// What is wrong with the cases of a switch from the `i`-th on.
pub open spec fn cases_faults(
    s: ScopeOf,
    selector: Option<StaticView>,
    cases: Seq<CaseView>,
    i: nat,
    seen: Seq<Seq<char>>,
) -> Seq<GraphErrorView>
    decreases cases, cases.len() - i,
{
    if i >= cases.len() {
        Seq::empty()
    } else {
        let place = case_place(s.path, i);
        let (values, all) = case_value_faults(s, selector, cases[i as int], place, 0, seen);
        case_head_faults(s, cases, i, place) + values + graph_faults(
            s.env,
            *cases[i as int].graph,
            place + ".graph"@,
            s.visible,
            s.loops,
            s.aliases,
        ) + cases_faults(s, selector, cases, i + 1, all)
    }
}

/// Everything that is wrong with a graph: where it passes the first look, what
/// is wrong with the identities of its nodes, and then with the rest.
pub open spec fn all_faults(graph: GraphView) -> Seq<GraphErrorView> {
    if look(graph).ok {
        let (env, ids) = collected(no_env(), graph, "graph"@);
        look(graph).errors + ids + graph_faults(
            env,
            graph,
            "graph"@,
            Seq::empty(),
            Seq::empty(),
            Seq::empty(),
        )
    } else {
        look(graph).errors
    }
}

// ---------------------------------------------------------------------------
// Collecting
// ---------------------------------------------------------------------------
fn success_codes_of(action: &Action) -> (res: Option<Vec<u32>>)
    ensures
        optional_codes(res) == success_codes(action@),
{
    match action {
        Action::RunScript { success_exit_codes, .. } => Some(clone_codes(success_exit_codes)),
        _ => None,
    }
}

fn meet_node(env: &mut Env, node: &GraphNode, place: &str, faults: &mut Faults)
    ensures
        final(env)@ == with_node(old(env)@, node@, place@),
        final(faults)@ == all_reported(old(faults)@, id_faults(old(env)@, node@.id(), place@)),
{
    let id = node.id();
    if is_blank(id) {
        faults.report(place, GraphValidationErrorKind::EmptyNodeId);
    } else if ends_with(id, "::index") {
        faults.report(place, GraphValidationErrorKind::ReservedNodeId { id: owned(id) });
    } else {
        match env.find_id(id) {
            Some(first_path) => {
                faults.report(
                    place,
                    GraphValidationErrorKind::DuplicateNodeId { id: owned(id), first_path },
                );
            },
            None => {
                let ghost before = id_views(env.ids@);
                env.ids.push((owned(id), owned(place)));
                assert(id_views(env.ids@) =~= before.push((id@, place@)));
            },
        }
    }
    match node {
        GraphNode::Action(action) => {
            if env.find_schema(id).is_none() {
                let ghost before = schema_views(env.schemas@);
                let schema = definition_for_action(&action.step.action).output_schema;
                let ghost added = (id@, schema@);
                env.schemas.push((owned(id), schema));
                assert(schema_views(env.schemas@) =~= before.push(added));
            }
            if env.find_codes(id).is_none() {
                let ghost before = code_views(env.codes@);
                let codes = success_codes_of(&action.step.action);
                let ghost added = (id@, optional_codes(codes));
                env.codes.push((owned(id), codes));
                assert(code_views(env.codes@) =~= before.push(added));
            }
        },
        _ => {},
    }
}

fn collect_ids(env: &mut Env, graph: &WorkflowGraph, path: &str, faults: &mut Faults)
    ensures
        ({
            let (after, errors) = collected(old(env)@, graph@, path@);
            final(env)@ == after && final(faults)@ == all_reported(old(faults)@, errors)
        }),
    decreases graph, 1int,
{
    collect_nodes(env, &graph.nodes, path, faults);
}

fn collect_nodes(env: &mut Env, nodes: &Vec<GraphNode>, path: &str, faults: &mut Faults)
    ensures
        ({
            let (after, errors) = collected_nodes(old(env)@, node_views(nodes@), path@, 0);
            final(env)@ == after && final(faults)@ == all_reported(old(faults)@, errors)
        }),
    decreases nodes, 0int,
{
    let ghost views = node_views(nodes@);
    let ghost whole = collected_nodes(env@, views, path@, 0);
    let mut i: usize = 0;
    while i < nodes.len()
        invariant
            i <= nodes@.len(),
            views == node_views(nodes@),
            whole.0 == collected_nodes(env@, views, path@, i as nat).0,
            all_reported(old(faults)@, whole.1) == all_reported(
                faults@,
                collected_nodes(env@, views, path@, i as nat).1,
            ),
        decreases nodes@.len() - i,
    {
        assert(decreases_to!(nodes@ => nodes@[i as int]));
        assert(views[i as int] == nodes@[i as int]@);
        let place = show_node_place(path, i);
        collect_node(env, &nodes[i], &place, faults);
        i = i + 1;
    }
}

fn collect_node(env: &mut Env, node: &GraphNode, place: &str, faults: &mut Faults)
    ensures
        ({
            let (after, errors) = collected_node(old(env)@, node@, place@);
            final(env)@ == after && final(faults)@ == all_reported(old(faults)@, errors)
        }),
    decreases node, 1int,
{
    meet_node(env, node, place, faults);
    match node {
        GraphNode::ForEach(control) => {
            let below = joined(place, ".body");
            collect_ids(env, &control.body, &below, faults);
        },
        GraphNode::If(control) => {
            let below = joined(place, ".then");
            collect_ids(env, &control.then_graph, &below, faults);
            let below = joined(place, ".else");
            collect_option(env, &control.else_graph, &below, faults);
        },
        GraphNode::Switch(control) => {
            collect_cases(env, &control.cases, place, faults);
            let below = joined(place, ".default");
            collect_option(env, &control.default, &below, faults);
        },
        _ => {},
    }
}

fn collect_option(env: &mut Env, graph: &Option<Box<WorkflowGraph>>, path: &str, faults: &mut Faults)
    ensures
        ({
            let (after, errors) = collected_option(old(env)@, optional_graph(*graph), path@);
            final(env)@ == after && final(faults)@ == all_reported(old(faults)@, errors)
        }),
    decreases graph, 1int,
{
    match graph {
        Some(graph) => {
            collect_ids(env, graph, path, faults);
        },
        None => {},
    }
}

fn collect_cases(env: &mut Env, cases: &Vec<SwitchCase>, place: &str, faults: &mut Faults)
    ensures
        ({
            let (after, errors) = collected_cases(old(env)@, case_views(cases@), place@, 0);
            final(env)@ == after && final(faults)@ == all_reported(old(faults)@, errors)
        }),
    decreases cases, 0int,
{
    let ghost views = case_views(cases@);
    let ghost whole = collected_cases(env@, views, place@, 0);
    let mut i: usize = 0;
    while i < cases.len()
        invariant
            i <= cases@.len(),
            views == case_views(cases@),
            whole.0 == collected_cases(env@, views, place@, i as nat).0,
            all_reported(old(faults)@, whole.1) == all_reported(
                faults@,
                collected_cases(env@, views, place@, i as nat).1,
            ),
        decreases cases@.len() - i,
    {
        assert(decreases_to!(cases@ => cases@[i as int]));
        assert(views[i as int] == cases@[i as int]@);
        let mut below = show_case_place(place, i);
        below.append(".graph");
        collect_ids(env, &cases[i].graph, &below, faults);
        i = i + 1;
    }
}

// ---------------------------------------------------------------------------
// Structure
// ---------------------------------------------------------------------------
/// One graph as nodes numbered in the order of their names, and what can be
/// reached in it and how.
struct Local {
    ids: Vec<String>,
    links: Vec<(usize, usize)>,
    starts: Vec<usize>,
    reach: Vec<bool>,
    dominated: Vec<Vec<bool>>,
}

impl Local {
    spec fn laid_out(&self, g: Layout) -> bool {
        let n = self.ids@.len() as int;
        &&& g.ids == text_views(self.ids@)
        &&& g.links == link_views(self.links@)
        &&& g.starts == start_views(self.starts@)
        &&& within(g.links, n)
        &&& self.reach@.len() == n
        &&& self.dominated@.len() == n
        &&& forall|d: int| 0 <= d < n ==> (#[trigger] self.dominated@[d])@.len() == n
        &&& forall|i: int|
            0 <= i < n ==> (#[trigger] self.reach@[i] == reachable(g.links, g.starts, i))
        &&& forall|d: int, i: int|
            0 <= d < n && 0 <= i < n ==> (#[trigger] self.dominated@[d]@[i] == dominates(
                g.links,
                g.starts,
                d,
                i,
            ))
    }
}

fn find_ids(nodes: &Vec<GraphNode>) -> (res: Vec<String>)
    ensures
        text_views(res@) == local_ids(node_views(nodes@), 0, Seq::empty()),
{
    let ghost views = node_views(nodes@);
    let mut ids: Vec<String> = Vec::new();
    let mut i: usize = 0;
    assert(text_views(ids@) =~= Seq::empty());
    while i < nodes.len()
        invariant
            i <= nodes@.len(),
            views == node_views(nodes@),
            local_ids(views, 0, Seq::empty()) == local_ids(views, i as nat, text_views(ids@)),
        decreases nodes@.len() - i,
    {
        assert(views[i as int] == nodes@[i as int]@);
        let id = nodes[i].id();
        if !is_blank(id) {
            insert_name(&mut ids, owned(id));
        }
        i = i + 1;
    }
    ids
}

fn find_links(ids: &Vec<String>, edges: &Vec<GraphEdge>) -> (res: Vec<(usize, usize)>)
    ensures
        link_views(res@) == links_of(text_views(ids@), edge_views(edges@), 0),
        within(link_views(res@), ids@.len() as int),
{
    let ghost names = text_views(ids@);
    let ghost views = edge_views(edges@);
    let mut links: Vec<(usize, usize)> = Vec::new();
    let mut i: usize = 0;
    assert(link_views(links@) =~= Seq::empty());
    assert(links_of(names, views, 0) =~= link_views(links@) + links_of(names, views, 0));
    while i < edges.len()
        invariant
            i <= edges@.len(),
            names == text_views(ids@),
            views == edge_views(edges@),
            links_of(names, views, 0) == link_views(links@) + links_of(names, views, i as nat),
            forall|k: int|
                0 <= k < links@.len() ==> (#[trigger] links@[k]).0 < ids@.len() && links@[k].1
                    < ids@.len(),
        decreases edges@.len() - i,
    {
        assert(views[i as int] == edges@[i as int]@);
        let ghost before = link_views(links@);
        let ghost rest = links_of(names, views, (i + 1) as nat);
        let from: usize = find_name(ids, &edges[i].from.node);
        let to: usize = find_name(ids, &edges[i].to.node);
        if from < ids.len() && to < ids.len() {
            links.push((from, to));
            proof {
                let added = (from as int, to as int);
                assert(link_views(links@) =~= before.push(added));
                assert(before + (seq![added] + rest) =~= before.push(added) + rest);
            }
        }
        i = i + 1;
    }
    proof {
        assert(link_views(links@) + Seq::<(int, int)>::empty() =~= link_views(links@));
    }
    links
}

fn find_starts(ids: &Vec<String>, entries: &Vec<String>) -> (res: Vec<usize>)
    ensures
        start_views(res@) == starts_of(text_views(ids@), text_views(entries@), 0),
        forall|k: int| 0 <= k < res@.len() ==> (#[trigger] res@[k]) < ids@.len(),
{
    let ghost names = text_views(ids@);
    let ghost views = text_views(entries@);
    let mut starts: Vec<usize> = Vec::new();
    let mut i: usize = 0;
    assert(starts_of(names, views, 0) =~= start_views(starts@) + starts_of(names, views, 0));
    while i < entries.len()
        invariant
            i <= entries@.len(),
            names == text_views(ids@),
            views == text_views(entries@),
            starts_of(names, views, 0) == start_views(starts@) + starts_of(
                names,
                views,
                i as nat,
            ),
            forall|k: int| 0 <= k < starts@.len() ==> (#[trigger] starts@[k]) < ids@.len(),
        decreases entries@.len() - i,
    {
        assert(views[i as int] == entries@[i as int]@);
        let ghost before = start_views(starts@);
        let ghost rest = starts_of(names, views, (i + 1) as nat);
        let at: usize = find_name(ids, &entries[i]);
        if at < ids.len() {
            starts.push(at);
            proof {
                assert(start_views(starts@) =~= before.push(at as int));
                assert(before + (seq![at as int] + rest) =~= before.push(at as int) + rest);
            }
        }
        i = i + 1;
    }
    proof {
        assert(start_views(starts@) + Seq::<int>::empty() =~= start_views(starts@));
    }
    starts
}

fn lay_out(graph: &WorkflowGraph) -> (res: Local)
    ensures
        res.laid_out(layout(graph@)),
{
    let ids = find_ids(&graph.nodes);
    let links = find_links(&ids, &graph.edges);
    let starts = find_starts(&ids, &graph.entries);
    let n: usize = ids.len();
    let reach = reachable_nodes(n, &links, &starts);
    let dominated = compute_dominators(n, &links, &starts);
    Local { ids, links, starts, reach, dominated }
}

fn find_node<'a>(nodes: &'a Vec<GraphNode>, id: &str) -> (res: Option<&'a GraphNode>)
    ensures
        match res {
            Some(node) => node_named(node_views(nodes@), id@, 0) == Some(node@),
            None => node_named(node_views(nodes@), id@, 0) is None,
        },
{
    let ghost views = node_views(nodes@);
    let blank = is_blank(id);
    let mut i: usize = 0;
    while i < nodes.len()
        invariant
            i <= nodes@.len(),
            views == node_views(nodes@),
            blank == text::blank(id@),
            node_named(views, id@, 0) == node_named(views, id@, i as nat),
        decreases nodes@.len() - i,
    {
        assert(views[i as int] == nodes@[i as int]@);
        if !blank && same_text(nodes[i].id(), id) {
            return Some(&nodes[i]);
        }
        i = i + 1;
    }
    None
}

fn validate_head(graph: &WorkflowGraph, path: &str, faults: &mut Faults)
    ensures
        final(faults)@ == all_reported(old(faults)@, head_faults(graph@, path@)),
{
    if graph.version != WORKFLOW_GRAPH_VERSION {
        faults.report(
            path,
            GraphValidationErrorKind::UnsupportedVersion {
                found: graph.version,
                supported: WORKFLOW_GRAPH_VERSION,
            },
        );
    }
    match &graph.id {
        Some(id) => {
            if is_blank(id) {
                faults.report(path, GraphValidationErrorKind::EmptyGraphId);
            }
        },
        None => {},
    }
    if graph.nodes.len() == 0 {
        faults.report(path, GraphValidationErrorKind::EmptyGraph);
    }
    if graph.entries.len() == 0 {
        faults.report(path, GraphValidationErrorKind::EmptyEntries);
    }
}

fn validate_origin(
    nodes: &Vec<GraphNode>,
    id: &str,
    port: EdgePort,
    place: &str,
    faults: &mut Faults,
)
    ensures
        final(faults)@ == all_reported(
            old(faults)@,
            origin_faults(node_views(nodes@), id@, port, place@),
        ),
{
    match find_node(nodes, id) {
        None => {
            faults.report(place, GraphValidationErrorKind::UnknownEndpoint { node: owned(id) });
        },
        Some(node) => {
            if !node.accepts_output_port(port) {
                faults.report(
                    place,
                    GraphValidationErrorKind::InvalidSourcePort {
                        node: owned(id),
                        kind: owned(node.kind_name()),
                        port,
                    },
                );
            }
        },
    }
}

fn same_endpoint(a: &crate::graph::EdgeEndpoint, b: &crate::graph::EdgeEndpoint) -> (res: bool)
    ensures
        res == (a@ == b@),
{
    same_text(&a.node, &b.node) && a.port == b.port
}

fn edge_seen(edges: &Vec<GraphEdge>, i: usize) -> (res: bool)
    requires
        i < edges@.len(),
    ensures
        res == seen_before(edge_views(edges@), i as nat),
{
    let ghost views = edge_views(edges@);
    let mut j: usize = 0;
    while j < i
        invariant
            j <= i < edges@.len(),
            views == edge_views(edges@),
            forall|k: int| 0 <= k < j ==> #[trigger] views[k] != views[i as int],
        decreases i - j,
    {
        assert(views[j as int] == edges@[j as int]@);
        assert(views[i as int] == edges@[i as int]@);
        if same_endpoint(&edges[j].from, &edges[i].from) && same_endpoint(
            &edges[j].to,
            &edges[i].to,
        ) {
            return true;
        }
        j = j + 1;
    }
    false
}

fn text_seen(list: &Vec<String>, i: usize) -> (res: bool)
    requires
        i < list@.len(),
    ensures
        res == seen_before(text_views(list@), i as nat),
{
    let ghost views = text_views(list@);
    let mut j: usize = 0;
    while j < i
        invariant
            j <= i < list@.len(),
            views == text_views(list@),
            forall|k: int| 0 <= k < j ==> #[trigger] views[k] != views[i as int],
        decreases i - j,
    {
        assert(views[j as int] == list@[j as int]@);
        assert(views[i as int] == list@[i as int]@);
        if same_text(&list[j], &list[i]) {
            return true;
        }
        j = j + 1;
    }
    false
}

fn listed_place(path: &str, list: &str, i: usize) -> (res: String)
    ensures
        res@ == path@ + list@ + text::decimal(i as nat) + "]"@,
{
    let mut out = joined(path, list);
    out.append(&count_text(i));
    out.append("]");
    out
}

fn validate_edges(graph: &WorkflowGraph, path: &str, faults: &mut Faults)
    ensures
        final(faults)@ == all_reported(old(faults)@, edge_faults(graph@, path@, 0)),
{
    let ghost g = graph@;
    let mut i: usize = 0;
    while i < graph.edges.len()
        invariant
            i <= graph.edges@.len(),
            g == graph@,
            all_reported(old(faults)@, edge_faults(g, path@, 0)) == all_reported(
                faults@,
                edge_faults(g, path@, i as nat),
            ),
        decreases graph.edges@.len() - i,
    {
        let edge = &graph.edges[i];
        assert(g.edges[i as int] == edge@);
        let place = listed_place(path, ".edges[", i);
        if edge_seen(&graph.edges, i) {
            faults.report(&place, GraphValidationErrorKind::DuplicateEdge);
        }
        validate_origin(&graph.nodes, &edge.from.node, edge.from.port, &place, faults);
        match find_node(&graph.nodes, &edge.to.node) {
            None => {
                faults.report(
                    &place,
                    GraphValidationErrorKind::UnknownEndpoint { node: edge.to.node.clone() },
                );
            },
            Some(_) => {
                if edge.to.port != EdgePort::Input {
                    faults.report(
                        &place,
                        GraphValidationErrorKind::InvalidTargetPort {
                            node: edge.to.node.clone(),
                            port: edge.to.port,
                        },
                    );
                }
            },
        }
        i = i + 1;
    }
}

fn is_entered(links: &Vec<(usize, usize)>, at: usize) -> (res: bool)
    ensures
        res == entered(link_views(links@), at as int),
{
    let ghost views = link_views(links@);
    let mut j: usize = 0;
    while j < links.len()
        invariant
            j <= links@.len(),
            views == link_views(links@),
            forall|k: int| 0 <= k < j ==> (#[trigger] views[k]).1 != at,
        decreases links@.len() - j,
    {
        assert(views[j as int].1 == links@[j as int].1);
        if links[j].1 == at {
            return true;
        }
        j = j + 1;
    }
    false
}

fn is_left(links: &Vec<(usize, usize)>, at: usize) -> (res: bool)
    ensures
        res == left(link_views(links@), at as int),
{
    let ghost views = link_views(links@);
    let mut j: usize = 0;
    while j < links.len()
        invariant
            j <= links@.len(),
            views == link_views(links@),
            forall|k: int| 0 <= k < j ==> (#[trigger] views[k]).0 != at,
        decreases links@.len() - j,
    {
        assert(views[j as int].0 == links@[j as int].0);
        if links[j].0 == at {
            return true;
        }
        j = j + 1;
    }
    false
}

fn validate_entries(graph: &WorkflowGraph, local: &Local, path: &str, faults: &mut Faults)
    requires
        local.laid_out(layout(graph@)),
    ensures
        final(faults)@ == all_reported(
            old(faults)@,
            entry_faults(graph@, layout(graph@), path@, 0),
        ),
{
    let ghost view = graph@;
    let ghost g = layout(graph@);
    let mut i: usize = 0;
    while i < graph.entries.len()
        invariant
            i <= graph.entries@.len(),
            view == graph@,
            g == layout(view),
            local.laid_out(g),
            all_reported(old(faults)@, entry_faults(view, g, path@, 0)) == all_reported(
                faults@,
                entry_faults(view, g, path@, i as nat),
            ),
        decreases graph.entries@.len() - i,
    {
        let entry = &graph.entries[i];
        assert(view.entries[i as int] == entry@);
        let place = listed_place(path, ".entries[", i);
        if text_seen(&graph.entries, i) {
            faults.report(
                &place,
                GraphValidationErrorKind::DuplicateEntry { node: entry.clone() },
            );
        }
        let at: usize = find_name(&local.ids, entry);
        if at >= local.ids.len() {
            faults.report(&place, GraphValidationErrorKind::UnknownEntry { node: entry.clone() });
        } else if is_entered(&local.links, at) {
            faults.report(
                &place,
                GraphValidationErrorKind::EntryHasIncoming { node: entry.clone() },
            );
        }
        i = i + 1;
    }
}

fn exit_name_seen(exits: &Vec<GraphExit>, i: usize) -> (res: bool)
    requires
        i < exits@.len(),
    ensures
        res == exit_named_before(exit_views(exits@), i as nat),
{
    let ghost views = exit_views(exits@);
    let mut j: usize = 0;
    while j < i
        invariant
            j <= i < exits@.len(),
            views == exit_views(exits@),
            forall|k: int| 0 <= k < j ==> (#[trigger] views[k]).name != views[i as int].name,
        decreases i - j,
    {
        assert(views[j as int] == exits@[j as int]@);
        assert(views[i as int] == exits@[i as int]@);
        if same_text(&exits[j].name, &exits[i].name) {
            return true;
        }
        j = j + 1;
    }
    false
}

fn validate_exits(graph: &WorkflowGraph, path: &str, faults: &mut Faults)
    ensures
        final(faults)@ == all_reported(old(faults)@, exit_list_faults(graph@, path@, 0)),
{
    let ghost g = graph@;
    let mut i: usize = 0;
    while i < graph.exits.len()
        invariant
            i <= graph.exits@.len(),
            g == graph@,
            all_reported(old(faults)@, exit_list_faults(g, path@, 0)) == all_reported(
                faults@,
                exit_list_faults(g, path@, i as nat),
            ),
        decreases graph.exits@.len() - i,
    {
        let exit = &graph.exits[i];
        assert(g.exits[i as int] == exit@);
        let place = listed_place(path, ".exits[", i);
        if is_blank(&exit.name) {
            faults.report(&place, GraphValidationErrorKind::EmptyExitName);
        } else if exit_name_seen(&graph.exits, i) {
            faults.report(
                &place,
                GraphValidationErrorKind::DuplicateExitName { name: exit.name.clone() },
            );
        }
        validate_origin(&graph.nodes, &exit.from.node, exit.from.port, &place, faults);
        i = i + 1;
    }
}

fn validate_reach(graph: &WorkflowGraph, local: &Local, path: &str, faults: &mut Faults)
    requires
        local.laid_out(layout(graph@)),
    ensures
        final(faults)@ == all_reported(
            old(faults)@,
            unreachable_faults(layout(graph@), path@, 0),
        ),
{
    let ghost g = layout(graph@);
    let mut k: usize = 0;
    while k < local.ids.len()
        invariant
            k <= local.ids@.len(),
            local.laid_out(g),
            all_reported(old(faults)@, unreachable_faults(g, path@, 0)) == all_reported(
                faults@,
                unreachable_faults(g, path@, k as nat),
            ),
        decreases local.ids@.len() - k,
    {
        assert(g.ids[k as int] == local.ids@[k as int]@);
        if !local.reach[k] {
            faults.report(
                path,
                GraphValidationErrorKind::UnreachableNode { node: local.ids[k].clone() },
            );
        }
        k = k + 1;
    }
}

fn validate_cycle(graph: &WorkflowGraph, local: &Local, path: &str, faults: &mut Faults)
    requires
        local.laid_out(layout(graph@)),
    ensures
        final(faults)@ == all_reported(old(faults)@, cycle_faults(layout(graph@), path@)),
{
    let ghost g = layout(graph@);
    let n: usize = local.ids.len();
    let cyclic = cyclic_nodes(n, &local.links);
    let mut names: Vec<String> = Vec::new();
    let mut k: usize = 0;
    assert(cycle_names(g, 0) =~= text_views(names@) + cycle_names(g, 0));
    while k < n
        invariant
            k <= n,
            n == local.ids@.len(),
            n == cyclic@.len(),
            local.laid_out(g),
            forall|i: int|
                0 <= i < n ==> (#[trigger] cyclic@[i] == ends_walk(g.links, n as nat, i)),
            cycle_names(g, 0) == text_views(names@) + cycle_names(g, k as nat),
        decreases n - k,
    {
        assert(g.ids[k as int] == local.ids@[k as int]@);
        let ghost before = text_views(names@);
        let ghost rest = cycle_names(g, (k + 1) as nat);
        if cyclic[k] {
            names.push(local.ids[k].clone());
            proof {
                let added = local.ids@[k as int]@;
                assert(text_views(names@) =~= before.push(added));
                assert(before + (seq![added] + rest) =~= before.push(added) + rest);
            }
        }
        k = k + 1;
    }
    assert(text_views(names@) + Seq::<Seq<char>>::empty() =~= text_views(names@));
    if names.len() > 0 {
        faults.report(path, GraphValidationErrorKind::Cycle { nodes: names });
    }
}

fn has_exit_from(graph: &WorkflowGraph, id: &str) -> (res: bool)
    ensures
        res == exits_from(graph@, id@),
{
    let ghost g = graph@;
    let node = find_node(&graph.nodes, id);
    let mut j: usize = 0;
    while j < graph.exits.len()
        invariant
            j <= graph.exits@.len(),
            g == graph@,
            match node {
                Some(node) => node_named(g.nodes, id@, 0) == Some(node@),
                None => node_named(g.nodes, id@, 0) is None,
            },
            forall|k: int| 0 <= k < j ==> !exit_from(g, #[trigger] g.exits[k], id@),
        decreases graph.exits@.len() - j,
    {
        assert(g.exits[j as int] == graph.exits@[j as int]@);
        match node {
            Some(node) => {
                if same_text(&graph.exits[j].from.node, id) && node.accepts_output_port(
                    graph.exits[j].from.port,
                ) {
                    assert(exit_from(g, g.exits[j as int], id@));
                    return true;
                }
            },
            None => {},
        }
        j = j + 1;
    }
    false
}

fn validate_terminals(graph: &WorkflowGraph, local: &Local, path: &str, faults: &mut Faults)
    requires
        local.laid_out(layout(graph@)),
    ensures
        final(faults)@ == all_reported(
            old(faults)@,
            terminal_faults(graph@, layout(graph@), path@, 0),
        ),
{
    let ghost view = graph@;
    let ghost g = layout(graph@);
    let mut k: usize = 0;
    while k < local.ids.len()
        invariant
            k <= local.ids@.len(),
            view == graph@,
            local.laid_out(g),
            all_reported(old(faults)@, terminal_faults(view, g, path@, 0)) == all_reported(
                faults@,
                terminal_faults(view, g, path@, k as nat),
            ),
        decreases local.ids@.len() - k,
    {
        assert(g.ids[k as int] == local.ids@[k as int]@);
        if local.reach[k] && !is_left(&local.links, k) && !has_exit_from(graph, &local.ids[k]) {
            faults.report(
                path,
                GraphValidationErrorKind::UnlistedTerminal { node: local.ids[k].clone() },
            );
        }
        k = k + 1;
    }
}

fn count_incoming(links: &Vec<(usize, usize)>, at: usize) -> (res: usize)
    ensures
        res == incoming(link_views(links@), at as int, 0),
{
    let ghost views = link_views(links@);
    let n: usize = links.len();
    let mut count: usize = 0;
    let mut i: usize = 0;
    while i < n
        invariant
            n == links@.len(),
            i <= n,
            views == link_views(links@),
            incoming(views, at as int, 0) == count + incoming(views, at as int, i as nat),
            count <= i,
        decreases n - i,
    {
        assert(views[i as int].1 == links@[i as int].1);
        if links[i].1 == at {
            count = count + 1;
        }
        i = i + 1;
    }
    count
}

fn show_named_place(path: &str, id: &str) -> (res: String)
    ensures
        res@ == named_place(path@, id@),
{
    let mut out = joined(path, ".node[");
    out.append(id);
    out.append("]");
    out
}

fn validate_joins(graph: &WorkflowGraph, local: &Local, path: &str, faults: &mut Faults)
    requires
        local.laid_out(layout(graph@)),
    ensures
        final(faults)@ == all_reported(
            old(faults)@,
            join_faults(graph@.nodes, layout(graph@), path@, 0),
        ),
{
    let ghost views = graph@.nodes;
    let ghost g = layout(graph@);
    let mut i: usize = 0;
    while i < graph.nodes.len()
        invariant
            i <= graph.nodes@.len(),
            views == graph@.nodes,
            local.laid_out(g),
            all_reported(old(faults)@, join_faults(views, g, path@, 0)) == all_reported(
                faults@,
                join_faults(views, g, path@, i as nat),
            ),
        decreases graph.nodes@.len() - i,
    {
        assert(views[i as int] == graph.nodes@[i as int]@);
        match &graph.nodes[i] {
            GraphNode::Join(join) => {
                let at: usize = find_name(&local.ids, &join.id);
                let found: usize = if at < local.ids.len() {
                    count_incoming(&local.links, at)
                } else {
                    0
                };
                if found < 2 {
                    let place = show_named_place(path, &join.id);
                    faults.report(
                        &place,
                        GraphValidationErrorKind::JoinNeedsMultipleInputs {
                            node: join.id.clone(),
                            found,
                        },
                    );
                }
            },
            _ => {},
        }
        i = i + 1;
    }
}

fn validate_structure(graph: &WorkflowGraph, local: &Local, path: &str, faults: &mut Faults)
    requires
        local.laid_out(layout(graph@)),
    ensures
        final(faults)@ == all_reported(old(faults)@, structure_faults(graph@, path@)),
{
    validate_head(graph, path, faults);
    validate_edges(graph, path, faults);
    validate_entries(graph, local, path, faults);
    validate_exits(graph, path, faults);
    validate_reach(graph, local, path, faults);
    validate_cycle(graph, local, path, faults);
    if graph.exits.len() > 0 {
        validate_terminals(graph, local, path, faults);
    }
    validate_joins(graph, local, path, faults);
}

fn visible_for_child(
    local: &Local,
    g: Ghost<Layout>,
    id: &str,
    inherited: &Vec<String>,
) -> (res: Vec<String>)
    requires
        local.laid_out(g@),
    ensures
        text_views(res@) == visible_at(g@, id@, text_views(inherited@)),
{
    let ghost g = g@;
    let mut done = clone_texts(inherited);
    let n: usize = local.ids.len();
    let to: usize = find_name(&local.ids, id);
    if to >= n || !local.reach[to] {
        return done;
    }
    let ghost start = text_views(inherited@);
    let mut d: usize = 0;
    while d < n
        invariant
            d <= n,
            n == local.ids@.len(),
            to < n,
            local.laid_out(g),
            visible_from(g, to as int, 0, start) == visible_from(
                g,
                to as int,
                d as nat,
                text_views(done@),
            ),
        decreases n - d,
    {
        assert(g.ids[d as int] == local.ids@[d as int]@);
        if d != to && local.dominated[d][to] {
            insert_name(&mut done, local.ids[d].clone());
        }
        d = d + 1;
    }
    done
}

// ---------------------------------------------------------------------------
// Nodes
// ---------------------------------------------------------------------------
fn earlier_target(
    bindings: &TextMap<Binding>,
    path: &Vec<ContextPathSegment>,
    i: usize,
) -> (res: Option<String>)
    requires
        i <= bindings.entries@.len(),
    ensures
        match res {
            Some(name) => same_target(
                binding_views(bindings.entries@),
                segment_views(path@),
                i as nat,
            ) == Some(name@),
            None => same_target(
                binding_views(bindings.entries@),
                segment_views(path@),
                i as nat,
            ) is None,
        },
{
    let ghost views = binding_views(bindings.entries@);
    let ghost wanted = segment_views(path@);
    let mut k: usize = i;
    while k > 0
        invariant
            k <= i <= bindings.entries@.len(),
            views == binding_views(bindings.entries@),
            wanted == segment_views(path@),
            same_target(views, wanted, i as nat) == same_target(views, wanted, k as nat),
        decreases k,
    {
        k = k - 1;
        assert(views[k as int].0 == bindings.entries@[k as int].0@);
        match parse_binding_target(&bindings.entries[k].0, BindingLimits::default()) {
            Ok(other) => {
                if same_path(other.as_slice(), path.as_slice()) {
                    return Some(bindings.entries[k].0.clone());
                }
            },
            Err(_) => {},
        }
    }
    None
}

fn validate_target(s: &Scope, bindings: &TextMap<Binding>, i: usize, faults: &mut Faults)
    requires
        i < bindings.entries@.len(),
    ensures
        final(faults)@ == all_reported(
            old(faults)@,
            target_faults(s@, binding_views(bindings.entries@), i as nat),
        ),
{
    let ghost views = binding_views(bindings.entries@);
    assert(views[i as int].0 == bindings.entries@[i as int].0@);
    match parse_binding_target(&bindings.entries[i].0, BindingLimits::default()) {
        Err(_) => {},
        Ok(path) => match earlier_target(bindings, &path, i) {
            None => {},
            Some(first) => {
                faults.report(
                    s.path,
                    GraphValidationErrorKind::DuplicateBindingTarget {
                        node: owned(s.consumer),
                        first,
                        duplicate: bindings.entries[i].0.clone(),
                    },
                );
            },
        },
    }
}

fn validate_action_bindings(s: &Scope, node: &ActionNode, faults: &mut Faults)
    ensures
        final(faults)@ == all_reported(old(faults)@, action_binding_faults(s@, node@, 0)),
{
    let ghost scope = s@;
    let ghost view = node@;
    let definition = definition_for_action(&node.step.action);
    let mut i: usize = 0;
    while i < node.bindings.entries.len()
        invariant
            i <= node.bindings.entries@.len(),
            scope == s@,
            view == node@,
            definition@ == action_definition(node.step.action@),
            all_reported(old(faults)@, action_binding_faults(scope, view, 0)) == all_reported(
                faults@,
                action_binding_faults(scope, view, i as nat),
            ),
        decreases node.bindings.entries@.len() - i,
    {
        let name = &node.bindings.entries[i].0;
        let binding = &node.bindings.entries[i].1;
        assert(view.bindings[i as int] == (name@, binding@));
        if is_blank(name) {
            faults.report(
                s.path,
                GraphValidationErrorKind::EmptyBindingName { node: owned(s.consumer) },
            );
        }
        validate_target(s, &node.bindings, i, faults);
        match resolve_input_field(&definition.input_schema, name) {
            None => {
                faults.report(
                    s.path,
                    GraphValidationErrorKind::UnknownBindingField {
                        node: owned(s.consumer),
                        field: name.clone(),
                    },
                );
                s.validate_binding(binding, faults);
            },
            Some(expected) => {
                s.validate_typed_action_binding(name, binding, &expected, faults);
            },
        }
        i = i + 1;
    }
}

fn validate_optional_condition(s: &Scope, c: &Option<StepCondition>, faults: &mut Faults)
    ensures
        final(faults)@ == all_reported(
            old(faults)@,
            optional_condition_faults(s@, optional_condition(*c)),
        ),
{
    match c {
        Some(c) => {
            s.validate_step_condition(c, faults);
        },
        None => {},
    }
}

fn validate_action(s: &Scope, node: &ActionNode, faults: &mut Faults)
    ensures
        final(faults)@ == all_reported(old(faults)@, action_faults(s@, node@)),
{
    if node.step.bindings.entries.len() > 0 {
        faults.report(
            s.path,
            GraphValidationErrorKind::InvalidAction {
                node: owned(s.consumer),
                message: owned(
                    "graph action embeds linear bindings; move them to action-node bindings",
                ),
            },
        );
    }
    match node.step.validate() {
        Ok(_) => {},
        Err(message) => {
            faults.report(
                s.path,
                GraphValidationErrorKind::InvalidAction { node: owned(s.consumer), message },
            );
        },
    }
    if !node.step.action.kind().is_graph_action() {
        faults.report(
            s.path,
            GraphValidationErrorKind::LegacyControlAction { node: owned(s.consumer) },
        );
    }
    validate_action_bindings(s, node, faults);
    validate_optional_condition(s, &node.step.when, faults);
    validate_optional_condition(s, &node.step.require, faults);
}

fn clone_loops(loops: &TextMap<StaticBindingType>) -> (res: TextMap<StaticBindingType>)
    ensures
        loop_views(res.entries@) == loop_views(loops.entries@),
{
    let mut entries: Vec<(String, StaticBindingType)> = Vec::new();
    let mut i: usize = 0;
    while i < loops.entries.len()
        invariant
            i <= loops.entries@.len(),
            entries@.len() == i,
            forall|j: int|
                0 <= j < i ==> (#[trigger] entries@[j]).0@ == loops.entries@[j].0@ && entries@[j].1@
                    == loops.entries@[j].1@,
        decreases loops.entries@.len() - i,
    {
        entries.push((loops.entries[i].0.clone(), loops.entries[i].1.clone()));
        i = i + 1;
    }
    assert(loop_views(entries@) =~= loop_views(loops.entries@));
    TextMap { entries }
}

fn clone_aliases(aliases: &TextMap<FieldRef>) -> (res: TextMap<FieldRef>)
    ensures
        alias_views(res.entries@) == alias_views(aliases.entries@),
{
    let mut entries: Vec<(String, FieldRef)> = Vec::new();
    let mut i: usize = 0;
    while i < aliases.entries.len()
        invariant
            i <= aliases.entries@.len(),
            entries@.len() == i,
            forall|j: int|
                0 <= j < i ==> (#[trigger] entries@[j]).0@ == aliases.entries@[j].0@
                    && entries@[j].1@ == aliases.entries@[j].1@,
        decreases aliases.entries@.len() - i,
    {
        entries.push((aliases.entries[i].0.clone(), aliases.entries[i].1.clone()));
        i = i + 1;
    }
    assert(alias_views(entries@) =~= alias_views(aliases.entries@));
    TextMap { entries }
}

fn store_loop(loops: &mut TextMap<StaticBindingType>, id: &str, t: StaticBindingType)
    ensures
        loop_views(final(loops).entries@) == text_map::stored(
            loop_views(old(loops).entries@),
            id@,
            t@,
        ),
{
    proof {
        let f = |x: StaticBindingType| x@;
        text_map::lemma_stored_mapped(loops.pairs(), id@, t, f);
        assert(text_map::mapped(loops.pairs(), f) =~= loop_views(loops.entries@));
    }
    loops.insert(owned(id), t);
    proof {
        let f = |x: StaticBindingType| x@;
        assert(text_map::mapped(loops.pairs(), f) =~= loop_views(loops.entries@));
    }
}

fn store_alias(aliases: &mut TextMap<FieldRef>, name: &str, field: FieldRef)
    ensures
        alias_views(final(aliases).entries@) == text_map::stored(
            alias_views(old(aliases).entries@),
            name@,
            field@,
        ),
{
    proof {
        let f = |x: FieldRef| x@;
        text_map::lemma_stored_mapped(aliases.pairs(), name@, field, f);
        assert(text_map::mapped(aliases.pairs(), f) =~= alias_views(aliases.entries@));
    }
    aliases.insert(owned(name), field);
    proof {
        let f = |x: FieldRef| x@;
        assert(text_map::mapped(aliases.pairs(), f) =~= alias_views(aliases.entries@));
    }
}

/// Checks a loop itself, and what is known inside it.
fn validate_loop(s: &Scope, node: &ForEachNode, faults: &mut Faults) -> (res: (
    TextMap<StaticBindingType>,
    TextMap<FieldRef>,
))
    ensures
        final(faults)@ == all_reported(old(faults)@, loop_faults(s@, node@)),
        loop_views(res.0.entries@) == inner_loops(s@, node@),
        alias_views(res.1.entries@) == inner_aliases(s@, node@),
{
    s.validate_binding(&node.collection, faults);
    let collection = s.binding_static_type(&node.collection, faults);
    let items = match &collection {
        Some(t) => match &t.value_type {
            ContextType::Array { items } => Some((**items).clone()),
            _ => None,
        },
        None => None,
    };
    let item = match items {
        Some(items) => items,
        None => {
            let actual = match &collection {
                Some(t) => Some(t.value_type.clone()),
                None => None,
            };
            faults.report(
                s.path,
                GraphValidationErrorKind::ForEachCollectionNotArray {
                    node: owned(s.consumer),
                    actual,
                },
            );
            ContextType::Any
        },
    };
    if node.concurrency == 0 {
        faults.report(
            s.path,
            GraphValidationErrorKind::InvalidConcurrency { node: owned(s.consumer) },
        );
    }
    validate_alias(&node.item_alias, s.consumer, s.path, s.aliases, faults);
    match &node.index_alias {
        None => {},
        Some(alias) => {
            validate_alias(alias, s.consumer, s.path, s.aliases, faults);
            if same_text(alias, &node.item_alias) {
                faults.report(
                    s.path,
                    GraphValidationErrorKind::DuplicateAlias {
                        node: owned(s.consumer),
                        alias: alias.clone(),
                    },
                );
            }
        },
    }
    let sensitivity = match &collection {
        Some(t) => t.sensitivity,
        None => Sensitivity::Public,
    };
    let mut loops = clone_loops(s.loops);
    store_loop(&mut loops, s.consumer, StaticBindingType::present(item, sensitivity));
    let mut aliases = clone_aliases(s.aliases);
    if !is_blank(&node.item_alias) {
        store_alias(&mut aliases, &node.item_alias, FieldRef::loop_item(s.consumer));
    }
    match &node.index_alias {
        None => {},
        Some(alias) => {
            if !is_blank(alias) {
                let index = joined(s.consumer, "::index");
                store_loop(
                    &mut loops,
                    &index,
                    StaticBindingType::present(ContextType::Integer, Sensitivity::Public),
                );
                store_alias(&mut aliases, alias, FieldRef::loop_item(&index));
            }
        },
    }
    (loops, aliases)
}

fn validate_selector(s: &Scope, node: &SwitchNode, faults: &mut Faults) -> (res: Option<
    StaticBindingType,
>)
    ensures
        final(faults)@ == all_reported(old(faults)@, selector_faults(s@, node@)),
        static_view(res) == binding_type(s@, node@.selector).0,
{
    s.validate_binding(&node.selector, faults);
    match &node.selector {
        Binding::Template { template } => {
            if contains_text(template, "{{") || contains_text(template, "}}") {
                faults.report(
                    s.path,
                    GraphValidationErrorKind::InvalidBindingValue {
                        node: owned(s.consumer),
                        field: owned("selector"),
                        message: owned("legacy selector template contains placeholders"),
                    },
                );
            }
        },
        _ => {},
    }
    let selector = s.binding_static_type(&node.selector, faults);
    let secret = match &selector {
        Some(t) => t.sensitivity.is_secret(),
        None => false,
    };
    if secret {
        faults.report(
            s.path,
            GraphValidationErrorKind::SecretBindingFlow {
                node: owned(s.consumer),
                field: owned("selector"),
            },
        );
    }
    if node.cases.len() == 0 {
        faults.report(
            s.path,
            GraphValidationErrorKind::EmptySwitchCases { node: owned(s.consumer) },
        );
    }
    selector
}

fn case_id_seen(cases: &Vec<SwitchCase>, i: usize) -> (res: bool)
    requires
        i < cases@.len(),
    ensures
        res == case_named_before(case_views(cases@), i as nat),
{
    let ghost views = case_views(cases@);
    let mut j: usize = 0;
    while j < i
        invariant
            j <= i < cases@.len(),
            views == case_views(cases@),
            forall|k: int| 0 <= k < j ==> (#[trigger] views[k]).id != views[i as int].id,
        decreases i - j,
    {
        assert(views[j as int] == cases@[j as int]@);
        assert(views[i as int] == cases@[i as int]@);
        if same_text(&cases[j].id, &cases[i].id) {
            return true;
        }
        j = j + 1;
    }
    false
}

fn validate_case_head(
    s: &Scope,
    cases: &Vec<SwitchCase>,
    i: usize,
    place: &str,
    faults: &mut Faults,
)
    requires
        i < cases@.len(),
    ensures
        final(faults)@ == all_reported(
            old(faults)@,
            case_head_faults(s@, case_views(cases@), i as nat, place@),
        ),
{
    let case = &cases[i];
    assert(case_views(cases@)[i as int] == case@);
    if is_blank(&case.id) {
        faults.report(
            place,
            GraphValidationErrorKind::EmptySwitchCaseId { node: owned(s.consumer) },
        );
    } else if case_id_seen(cases, i) {
        faults.report(
            place,
            GraphValidationErrorKind::DuplicateSwitchCaseId {
                node: owned(s.consumer),
                case: case.id.clone(),
            },
        );
    }
    if case.values.len() == 0 {
        faults.report(
            place,
            GraphValidationErrorKind::EmptySwitchCaseValues {
                node: owned(s.consumer),
                case: case.id.clone(),
            },
        );
    }
}

fn validate_case_values(
    s: &Scope,
    selector: &Option<StaticBindingType>,
    case: &SwitchCase,
    place: &str,
    seen: &mut Vec<String>,
    faults: &mut Faults,
)
    ensures
        ({
            let (errors, all) = case_value_faults(
                s@,
                static_view(*selector),
                case@,
                place@,
                0,
                text_views(old(seen)@),
            );
            &&& final(faults)@ == all_reported(old(faults)@, errors)
            &&& text_views(final(seen)@) == all
        }),
{
    let ghost scope = s@;
    let ghost sel = static_view(*selector);
    let ghost view = case@;
    let ghost whole = case_value_faults(scope, sel, view, place@, 0, text_views(seen@));
    let mut k: usize = 0;
    while k < case.values.len()
        invariant
            k <= case.values@.len(),
            scope == s@,
            sel == static_view(*selector),
            view == case@,
            whole.1 == case_value_faults(
                scope,
                sel,
                view,
                place@,
                k as nat,
                text_views(seen@),
            ).1,
            all_reported(old(faults)@, whole.0) == all_reported(
                faults@,
                case_value_faults(scope, sel, view, place@, k as nat, text_views(seen@)).0,
            ),
        decreases case.values@.len() - k,
    {
        let value = &case.values[k];
        assert(view.values[k as int] == value@);
        match selector {
            Some(selector) => {
                let value_type = ContextType::infer(value);
                if !switch_types_compatible(selector, &value_type) {
                    faults.report(
                        place,
                        GraphValidationErrorKind::SwitchCaseTypeMismatch {
                            node: owned(s.consumer),
                            case: case.id.clone(),
                            selector: selector.value_type.clone(),
                            value: value_type,
                        },
                    );
                }
            },
            None => {},
        }
        let canonical = value_text(value);
        if has_name(seen, &canonical) {
            faults.report(
                place,
                GraphValidationErrorKind::DuplicateSwitchValue {
                    node: owned(s.consumer),
                    value: canonical.clone(),
                },
            );
        }
        let ghost before = text_views(seen@);
        let ghost added = canonical@;
        seen.push(canonical);
        assert(text_views(seen@) =~= before.push(added));
        k = k + 1;
    }
}

fn validate_graph(
    env: &Env,
    graph: &WorkflowGraph,
    path: &str,
    inherited: &Vec<String>,
    loops: &TextMap<StaticBindingType>,
    aliases: &TextMap<FieldRef>,
    faults: &mut Faults,
)
    ensures
        final(faults)@ == all_reported(
            old(faults)@,
            graph_faults(
                env@,
                graph@,
                path@,
                text_views(inherited@),
                loop_views(loops.entries@),
                alias_views(aliases.entries@),
            ),
        ),
    decreases graph, 1int,
{
    let local = lay_out(graph);
    validate_structure(graph, &local, path, faults);
    validate_nodes(
        env,
        &graph.nodes,
        &local,
        Ghost(layout(graph@)),
        path,
        inherited,
        loops,
        aliases,
        faults,
    );
}

fn validate_nodes(
    env: &Env,
    nodes: &Vec<GraphNode>,
    local: &Local,
    g: Ghost<Layout>,
    path: &str,
    inherited: &Vec<String>,
    loops: &TextMap<StaticBindingType>,
    aliases: &TextMap<FieldRef>,
    faults: &mut Faults,
)
    requires
        local.laid_out(g@),
    ensures
        final(faults)@ == all_reported(
            old(faults)@,
            nodes_faults(
                env@,
                node_views(nodes@),
                g@,
                path@,
                text_views(inherited@),
                loop_views(loops.entries@),
                alias_views(aliases.entries@),
                0,
            ),
        ),
    decreases nodes, 0int,
{
    let ghost views = node_views(nodes@);
    let ghost known = env@;
    let ghost outer = text_views(inherited@);
    let ghost active = loop_views(loops.entries@);
    let ghost named = alias_views(aliases.entries@);
    let ghost start = faults@;
    let mut i: usize = 0;
    while i < nodes.len()
        invariant
            i <= nodes@.len(),
            views == node_views(nodes@),
            known == env@,
            outer == text_views(inherited@),
            active == loop_views(loops.entries@),
            named == alias_views(aliases.entries@),
            local.laid_out(g@),
            all_reported(
                start,
                nodes_faults(known, views, g@, path@, outer, active, named, 0),
            ) == all_reported(
                faults@,
                nodes_faults(known, views, g@, path@, outer, active, named, i as nat),
            ),
        decreases nodes@.len() - i,
    {
        assert(decreases_to!(nodes@ => nodes@[i as int]));
        assert(views[i as int] == nodes@[i as int]@);
        let id = nodes[i].id();
        let place = show_named_place(path, id);
        let visible = visible_for_child(local, g, id, inherited);
        let scope = Scope {
            env,
            consumer: id,
            path: place.as_str(),
            visible: &visible,
            loops,
            aliases,
        };
        validate_node(&scope, &nodes[i], faults);
        i = i + 1;
    }
}

fn validate_node(s: &Scope, node: &GraphNode, faults: &mut Faults)
    ensures
        final(faults)@ == all_reported(old(faults)@, node_faults(s@, node@)),
    decreases node, 1int,
{
    match node {
        GraphNode::Action(action) => {
            validate_action(s, action, faults);
        },
        GraphNode::ForEach(control) => {
            let (loops, aliases) = validate_loop(s, control, faults);
            let below = joined(s.path, ".body");
            validate_graph(s.env, &control.body, &below, s.visible, &loops, &aliases, faults);
        },
        GraphNode::If(control) => {
            s.validate_checked_expression(&control.condition, faults);
            let below = joined(s.path, ".then");
            validate_graph(
                s.env,
                &control.then_graph,
                &below,
                s.visible,
                s.loops,
                s.aliases,
                faults,
            );
            let below = joined(s.path, ".else");
            validate_optional_graph(s, &control.else_graph, &below, faults);
        },
        GraphNode::Switch(control) => {
            let selector = validate_selector(s, control, faults);
            validate_cases(s, &selector, &control.cases, faults);
            let below = joined(s.path, ".default");
            validate_optional_graph(s, &control.default, &below, faults);
        },
        GraphNode::Join(_) => {},
    }
}

fn validate_optional_graph(
    s: &Scope,
    graph: &Option<Box<WorkflowGraph>>,
    path: &str,
    faults: &mut Faults,
)
    ensures
        final(faults)@ == all_reported(
            old(faults)@,
            optional_graph_faults(s@, optional_graph(*graph), path@),
        ),
    decreases graph, 1int,
{
    match graph {
        Some(graph) => {
            validate_graph(s.env, graph, path, s.visible, s.loops, s.aliases, faults);
        },
        None => {},
    }
}

fn validate_cases(
    s: &Scope,
    selector: &Option<StaticBindingType>,
    cases: &Vec<SwitchCase>,
    faults: &mut Faults,
)
    ensures
        final(faults)@ == all_reported(
            old(faults)@,
            cases_faults(s@, static_view(*selector), case_views(cases@), 0, Seq::empty()),
        ),
    decreases cases, 0int,
{
    let ghost scope = s@;
    let ghost sel = static_view(*selector);
    let ghost views = case_views(cases@);
    let ghost start = faults@;
    let mut seen: Vec<String> = Vec::new();
    let mut i: usize = 0;
    assert(text_views(seen@) =~= Seq::empty());
    while i < cases.len()
        invariant
            i <= cases@.len(),
            scope == s@,
            sel == static_view(*selector),
            views == case_views(cases@),
            all_reported(start, cases_faults(scope, sel, views, 0, Seq::empty())) == all_reported(
                faults@,
                cases_faults(scope, sel, views, i as nat, text_views(seen@)),
            ),
        decreases cases@.len() - i,
    {
        assert(decreases_to!(cases@ => cases@[i as int]));
        assert(views[i as int] == cases@[i as int]@);
        let place = show_case_place(s.path, i);
        validate_case_head(s, cases, i, &place, faults);
        validate_case_values(s, selector, &cases[i], &place, &mut seen, faults);
        let below = joined(&place, ".graph");
        validate_graph(
            s.env,
            &cases[i].graph,
            &below,
            s.visible,
            s.loops,
            s.aliases,
            faults,
        );
        i = i + 1;
    }
}

impl WorkflowGraph {
    /// Validate graph structure and context visibility without executing it.
    ///
    /// All discoverable errors are returned together so the visual editor can
    /// annotate several nodes in one pass.
    pub fn validate(&self) -> (res: Result<(), Vec<GraphValidationError>>)
        ensures
            match res {
                Ok(_) => all_faults(self@).len() == 0,
                Err(list) => all_faults(self@).len() > 0 && error_views(list@) == all_reported(
                    Seq::empty(),
                    all_faults(self@),
                ),
            },
    {
        let (ok, faults) = preflight(self, Faults::new());
        let mut faults = faults;
        if ok {
            let mut env = Env { ids: Vec::new(), schemas: Vec::new(), codes: Vec::new() };
            proof {
                assert(env@.ids =~= Seq::empty());
                assert(env@.schemas =~= Seq::empty());
                assert(env@.codes =~= Seq::empty());
            }
            collect_ids(&mut env, self, "graph", &mut faults);
            let inherited: Vec<String> = Vec::new();
            let loops: TextMap<StaticBindingType> = TextMap::new();
            let aliases: TextMap<FieldRef> = TextMap::new();
            proof {
                assert(text_views(inherited@) =~= Seq::empty());
                assert(loop_views(loops.entries@) =~= Seq::empty());
                assert(alias_views(aliases.entries@) =~= Seq::empty());
            }
            validate_graph(&env, self, "graph", &inherited, &loops, &aliases, &mut faults);
        }
        proof {
            crate::faults::law_reported_is_capped(all_faults(self@));
        }
        if faults.errors.len() == 0 {
            assert(faults@.len() == 0);
            Ok(())
        } else {
            assert(faults@.len() > 0);
            Err(faults.errors)
        }
    }
}

// ---------------------------------------------------------------------------
// Laws
// ---------------------------------------------------------------------------
proof fn lemma_all_reachable(g: Layout, path: Seq<char>, from: nat, k: int)
    requires
        unreachable_faults(g, path, from).len() == 0,
        from <= k < g.ids.len(),
    ensures
        reachable(g.links, g.starts, k),
    decreases g.ids.len() - from,
{
    if from < k {
        lemma_all_reachable(g, path, from + 1, k);
    }
}

proof fn lemma_none_cyclic(g: Layout, from: nat, k: int)
    requires
        cycle_names(g, from).len() == 0,
        from <= k < g.ids.len(),
    ensures
        !ends_walk(g.links, g.ids.len(), k),
    decreases g.ids.len() - from,
{
    if from < k {
        lemma_none_cyclic(g, from + 1, k);
    }
}

/// A graph whose structure is accepted has the current version, nodes and
/// entries; every node can be reached from an entry, and none lies on a cycle or
/// behind one.
pub proof fn law_accepted_structure(graph: GraphView, path: Seq<char>)
    requires
        structure_faults(graph, path).len() == 0,
    ensures
        graph.version == WORKFLOW_GRAPH_VERSION,
        graph.nodes.len() > 0,
        graph.entries.len() > 0,
        forall|k: int|
            0 <= k < layout(graph).ids.len() ==> #[trigger] reachable(
                layout(graph).links,
                layout(graph).starts,
                k,
            ),
        forall|k: int|
            0 <= k < layout(graph).ids.len() ==> !#[trigger] ends_walk(
                layout(graph).links,
                layout(graph).ids.len(),
                k,
            ),
{
    let g = layout(graph);
    assert(head_faults(graph, path).len() == 0);
    assert(unreachable_faults(g, path, 0).len() == 0);
    assert(cycle_faults(g, path).len() == 0);
    assert forall|k: int| 0 <= k < g.ids.len() implies #[trigger] reachable(
        g.links,
        g.starts,
        k,
    ) by {
        lemma_all_reachable(g, path, 0, k);
    }
    assert forall|k: int| 0 <= k < g.ids.len() implies !#[trigger] ends_walk(
        g.links,
        g.ids.len(),
        k,
    ) by {
        lemma_none_cyclic(g, 0, k);
    }
}

/// What a node sees beyond what was visible outside, every way to the node
/// passes through, and it is not the node itself.
pub open spec fn seen_fairly(g: Layout, to: int, inherited: Seq<Seq<char>>, x: Seq<char>) -> bool {
    inherited.contains(x) || exists|d: int|
        0 <= d < g.ids.len() && d != to && g.ids[d] == x && #[trigger] dominates(
            g.links,
            g.starts,
            d,
            to,
        )
}

proof fn lemma_visible_from(
    g: Layout,
    to: int,
    d: nat,
    done: Seq<Seq<char>>,
    inherited: Seq<Seq<char>>,
)
    requires
        crate::names::ascending(done),
        forall|x: Seq<char>| #[trigger] done.contains(x) ==> seen_fairly(g, to, inherited, x),
        forall|x: Seq<char>| #[trigger] inherited.contains(x) ==> done.contains(x),
    ensures
        crate::names::ascending(visible_from(g, to, d, done)),
        forall|x: Seq<char>| #[trigger]
            visible_from(g, to, d, done).contains(x) ==> seen_fairly(g, to, inherited, x),
        forall|x: Seq<char>| #[trigger]
            inherited.contains(x) ==> visible_from(g, to, d, done).contains(x),
    decreases g.ids.len() - d,
{
    if d < g.ids.len() {
        if d != to && dominates(g.links, g.starts, d as int, to) {
            crate::names::law_put(done, g.ids[d as int]);
            let next = put(done, g.ids[d as int]);
            assert forall|x: Seq<char>| #[trigger] next.contains(x) implies seen_fairly(
                g,
                to,
                inherited,
                x,
            ) by {
                if !done.contains(x) {
                    assert(dominates(g.links, g.starts, d as int, to));
                }
            }
            assert forall|x: Seq<char>| #[trigger] inherited.contains(x) implies next.contains(
                x,
            ) by {
                assert(done.contains(x));
            }
            lemma_visible_from(g, to, d + 1, next, inherited);
        } else {
            lemma_visible_from(g, to, d + 1, done, inherited);
        }
    }
}

/// A node sees only what was visible outside of its graph and the nodes through
/// which every way to it leads; and it sees all that was visible outside.
pub proof fn law_visibility(g: Layout, id: Seq<char>, inherited: Seq<Seq<char>>)
    requires
        crate::names::ascending(inherited),
    ensures
        forall|x: Seq<char>| #[trigger]
            visible_at(g, id, inherited).contains(x) ==> seen_fairly(
                g,
                place_of(g.ids, id),
                inherited,
                x,
            ),
        forall|x: Seq<char>| #[trigger]
            inherited.contains(x) ==> visible_at(g, id, inherited).contains(x),
{
    lemma_visible_from(g, place_of(g.ids, id), 0, inherited, inherited);
}

/// A graph is accepted exactly where nothing is wrong with it, and what is
/// listed otherwise is never empty and never longer than the limit.
pub proof fn law_validation_reports(graph: GraphView)
    ensures
        all_reported(Seq::empty(), all_faults(graph)).len() == 0 <==> all_faults(graph).len() == 0,
        all_reported(Seq::empty(), all_faults(graph)).len() <= crate::graph::GRAPH_MAX_ERRORS,
{
    crate::faults::law_reported_is_capped(all_faults(graph));
}

/// Whether a name can be an alias: it is an identifier, and no loop around has it.
pub open spec fn free_alias(
    alias: Seq<char>,
    aliases: Seq<(Seq<char>, FieldRefView)>,
) -> bool {
    crate::static_type::identifier(alias) && forall|i: int|
        0 <= i < aliases.len() ==> (#[trigger] aliases[i]).0 != alias
}

proof fn lemma_alias(
    alias: Seq<char>,
    node: Seq<char>,
    path: Seq<char>,
    aliases: Seq<(Seq<char>, FieldRefView)>,
)
    ensures
        alias_fault(alias, node, path, aliases).len() == 0 <==> free_alias(alias, aliases),
{
    text_map::lemma_found(aliases, alias);
    if !text_map::has_key(aliases, alias) {
        assert forall|i: int| 0 <= i < aliases.len() implies (#[trigger] aliases[i]).0 != alias by {
            assert(text_map::index_of(aliases, alias) == aliases.len());
        }
    } else {
        assert(aliases[text_map::index_of(aliases, alias) as int].0 == alias);
    }
}

/// A loop itself is accepted if and only if its collection is a sound source of an array type,
/// it runs at least one item at a time, and its aliases are free and differ.
pub proof fn law_loop_is_accepted(s: ScopeOf, node: ForEachView)
    ensures
        loop_faults(s, node).len() == 0 <==> {
            &&& source_faults(s, node.collection).len() == 0
            &&& binding_type(s, node.collection).1.len() == 0
            &&& binding_type(s, node.collection).0 matches Some(t) && t.value_type is Array
            &&& node.concurrency > 0
            &&& free_alias(node.item_alias, s.aliases)
            &&& node.index_alias matches Some(alias) ==> free_alias(alias, s.aliases) && alias
                != node.item_alias
        },
{
    lemma_alias(node.item_alias, s.consumer, s.path, s.aliases);
    match node.index_alias {
        Some(alias) => lemma_alias(alias, s.consumer, s.path, s.aliases),
        None => {},
    }
}

/// Inside a loop its item is known, with the type of the items of its collection and as
/// sensitive as the collection, and so is its index, where that has a name, as an integer; the
/// loops around stay known. The aliases stand for the item and the index.
pub proof fn law_loop_body_sees_the_item(s: ScopeOf, node: ForEachView, other: Seq<char>)
    requires
        text_map::ascending(s.loops),
        text_map::ascending(s.aliases),
        loop_faults(s, node).len() == 0,
        node.index_alias matches Some(alias) ==> !text::blank(alias),
        !text::blank(node.item_alias),
    ensures
        ({
            let inside = inner_loops(s, node);
            let named = inner_aliases(s, node);
            let t = binding_type(s, node.collection).0->0;
            &&& text_map::lookup(inside, s.consumer) matches Some(item) && t.value_type
                == (TypeView::Array { items: Box::new(item.value_type) })
            &&& other != s.consumer && other != index_scope(s.consumer) ==> text_map::lookup(
                inside,
                other,
            ) == text_map::lookup(s.loops, other)
            &&& node.index_alias is Some ==> (text_map::lookup(inside, index_scope(s.consumer))
                matches Some(index) && index.value_type is Integer)
            &&& text_map::lookup(named, node.item_alias) == Some(loop_reference(s.consumer))
            &&& node.index_alias matches Some(alias) ==> text_map::lookup(named, alias) == Some(
                loop_reference(index_scope(s.consumer)),
            )
        }),
{
    law_loop_is_accepted(s, node);
    let t = binding_type(s, node.collection).0;
    let item = present(item_type(t)->0, t->0.sensitivity);
    text_map::law_stored(s.loops, s.consumer, item);
    let with_item = text_map::stored(s.loops, s.consumer, item);
    text_map::law_stored(
        with_item,
        index_scope(s.consumer),
        present(TypeView::Integer, Sensitivity::Public),
    );
    assert(index_scope(s.consumer) != s.consumer) by {
        reveal_strlit("::index");
        assert(index_scope(s.consumer).len() == s.consumer.len() + 7);
    }
    text_map::law_stored(s.aliases, node.item_alias, loop_reference(s.consumer));
    let with_alias = text_map::stored(s.aliases, node.item_alias, loop_reference(s.consumer));
    match node.index_alias {
        Some(alias) => text_map::law_stored(
            with_alias,
            alias,
            loop_reference(index_scope(s.consumer)),
        ),
        None => {},
    }
}

/// The head of a case is accepted if and only if it has a name that no earlier case has, and
/// values.
pub proof fn law_case_head_is_accepted(
    s: ScopeOf,
    cases: Seq<CaseView>,
    i: nat,
    place: Seq<char>,
)
    requires
        i < cases.len(),
    ensures
        case_head_faults(s, cases, i, place).len() == 0 <==> {
            &&& !text::blank(cases[i as int].id)
            &&& forall|j: int| 0 <= j < i ==> (#[trigger] cases[j]).id != cases[i as int].id
            &&& cases[i as int].values.len() > 0
        },
{
}

/// A switch itself is accepted if and only if its selector is a sound source that is not secret
/// and no template with placeholders, and it has cases.
pub proof fn law_selector_is_accepted(s: ScopeOf, node: SwitchView)
    ensures
        selector_faults(s, node).len() == 0 <==> {
            &&& source_faults(s, node.selector).len() == 0
            &&& binding_type(s, node.selector).1.len() == 0
            &&& binding_type(s, node.selector).0 matches Some(t) ==> t.sensitivity
                != Sensitivity::Secret
            &&& node.selector matches BindingView::Template { template } ==> !text::contains(
                template,
                "{{"@,
            ) && !text::contains(template, "}}"@)
            &&& node.cases.len() > 0
        },
{
}

/// A binding is found to write what another wrote if and only if one before it leads to the same
/// place, however the two are spelt.
pub proof fn law_inputs_are_written_once(
    s: ScopeOf,
    bindings: Seq<(Seq<char>, BindingView)>,
    i: nat,
)
    requires
        i < bindings.len(),
        target_path(bindings[i as int].0, default_binding_limits()) is Ok,
    ensures
        target_faults(s, bindings, i).len() == 0 <==> forall|j: int|
            0 <= j < i ==> target_path((#[trigger] bindings[j]).0, default_binding_limits())
                != target_path(bindings[i as int].0, default_binding_limits()),
{
    lemma_same_target(
        bindings,
        target_path(bindings[i as int].0, default_binding_limits())->Ok_0,
        i,
    );
}

proof fn lemma_same_target(
    bindings: Seq<(Seq<char>, BindingView)>,
    path: Seq<SegmentView>,
    i: nat,
)
    requires
        i <= bindings.len(),
    ensures
        same_target(bindings, path, i) is None <==> forall|j: int|
            0 <= j < i ==> target_path((#[trigger] bindings[j]).0, default_binding_limits()) != Ok::<
                Seq<SegmentView>,
                crate::bind_error::BindErrView,
            >(path),
    decreases i,
{
    if i > 0 {
        lemma_same_target(bindings, path, (i - 1) as nat);
        if same_target(bindings, path, i) is None {
            assert forall|j: int| 0 <= j < i implies target_path(
                (#[trigger] bindings[j]).0,
                default_binding_limits(),
            ) != Ok::<Seq<SegmentView>, crate::bind_error::BindErrView>(path) by {
                if j < i - 1 {
                    assert(0 <= j < (i - 1) as nat);
                }
            }
        }
    }
}

} // verus!
