//! What validation promises of a graph that it accepts.
use vstd::prelude::*;

use crate::context::{BindingView, FieldRefView, PartView};
use crate::graph::{
    case_place, current, current_node, current_option, node_place, ActionNodeView, CaseView,
    EdgeView, EndpointView, ForEachView, GraphView, IfView, NodeView, SwitchView,
    WORKFLOW_GRAPH_VERSION,
};
use crate::graph_check::{
    action_binding_faults, action_faults, all_faults, case_value_faults, cases_faults, collected,
    collected_cases, collected_node, collected_nodes, collected_option, edge_faults, entered,
    entry_faults, exit_list_faults, exit_named_before, exits_from, graph_faults, id_faults,
    inner_aliases, inner_loops, inputs_found, join_faults, law_accepted_structure, layout, left,
    named_place, no_env, node_faults, node_named, nodes_faults, optional_graph_faults,
    seen_before, structure_faults, terminal_faults, visible_at, with_node, Layout,
};
use crate::graph_error::EdgePort;
use crate::graph_flow::{
    binding_type, input_faults, part_faults, reference_faults, reference_type, sees, source_faults,
    template_faults, type_faults, EnvView, ScopeOf,
};
use crate::legacy::{binding_refs, part_refs};
use crate::names::place_of;
use crate::preflight::law_refusal_is_reported;
use crate::reach::{ends_walk, reachable};
use crate::resolve::ResolvedView;
use crate::schema::{allowed_accept, Sensitivity};
use crate::static_type::StaticView;
use crate::text;
use crate::text_map;

verus! {

// ---------------------------------------------------------------------------
// Structure
// ---------------------------------------------------------------------------
/// Where an edge or an exit can come from: a node of the graph, through a port
/// that the node has.
pub open spec fn sound_origin(graph: GraphView, from: EndpointView) -> bool {
    node_named(graph.nodes, from.node, 0) matches Some(node) && node.emits(from.port)
}

/// An edge that stays in its graph: from a port that its node has to the input of
/// another.
pub open spec fn sound_edge(graph: GraphView, edge: EdgeView) -> bool {
    &&& sound_origin(graph, edge.from)
    &&& node_named(graph.nodes, edge.to.node, 0) is Some
    &&& edge.to.port == EdgePort::Input
}

/// A node of the graph that no edge leads to.
pub open spec fn sound_entry(graph: GraphView, entry: Seq<char>) -> bool {
    let g = layout(graph);
    g.ids.contains(entry) && !entered(g.links, place_of(g.ids, entry))
}

/// A join has paths to merge.
pub open spec fn sound_join(graph: GraphView, node: NodeView) -> bool {
    node matches NodeView::Join(join) ==> inputs_found(layout(graph), join.id) >= 2
}

/// A graph of the current version with nodes and entries. Its edges stay in it
/// and end in inputs, each once; no edge leads to an entry; exits have names of
/// their own and leave nodes of the graph, and where there are any, they list all
/// nodes that no edge leaves; joins have two inputs or more. Every node can be
/// reached, and none lies on a cycle or behind one.
pub open spec fn well_structured(graph: GraphView) -> bool {
    let g = layout(graph);
    &&& graph.version == WORKFLOW_GRAPH_VERSION
    &&& graph.nodes.len() > 0
    &&& graph.entries.len() > 0
    &&& forall|i: int|
        0 <= i < graph.edges.len() ==> sound_edge(graph, #[trigger] graph.edges[i])
            && !seen_before(graph.edges, i as nat)
    &&& forall|i: int|
        0 <= i < graph.entries.len() ==> sound_entry(graph, #[trigger] graph.entries[i])
            && !seen_before(graph.entries, i as nat)
    &&& forall|i: int|
        0 <= i < graph.exits.len() ==> sound_origin(graph, (#[trigger] graph.exits[i]).from)
            && !text::blank(graph.exits[i].name) && !exit_named_before(graph.exits, i as nat)
    &&& graph.exits.len() > 0 ==> forall|k: int|
        0 <= k < g.ids.len() && !left(g.links, k) ==> exits_from(graph, #[trigger] g.ids[k])
    &&& forall|i: int| 0 <= i < graph.nodes.len() ==> sound_join(graph, #[trigger] graph.nodes[i])
    &&& forall|k: int| 0 <= k < g.ids.len() ==> #[trigger] reachable(g.links, g.starts, k)
    &&& forall|k: int| 0 <= k < g.ids.len() ==> !#[trigger] ends_walk(g.links, g.ids.len(), k)
}

/// A graph that is well structured, as all are that are nested in it.
pub open spec fn well_built(graph: GraphView) -> bool
    decreases graph,
{
    well_structured(graph) && forall|i: int|
        0 <= i < graph.nodes.len() ==> well_built_node(#[trigger] graph.nodes[i])
}

/// An action as a graph can hold it: an executable one, under policies that its
/// block offers, with its bindings on the node.
pub open spec fn well_built_action(node: ActionNodeView) -> bool {
    &&& node.step.action.kind().graph_action()
    &&& node.step.policy_accepted()
    &&& node.step.bindings.len() == 0
}

pub open spec fn well_built_node(node: NodeView) -> bool
    decreases node,
{
    match node {
        NodeView::Action(action) => well_built_action(action),
        NodeView::ForEach(control) => well_built(*control.body),
        NodeView::If(control) => well_built(*control.then_graph) && well_built_option(
            control.else_graph,
        ),
        NodeView::Switch(control) => well_built_option(control.default) && forall|i: int|
            0 <= i < control.cases.len() ==> well_built(*(#[trigger] control.cases[i]).graph),
        _ => true,
    }
}

pub open spec fn well_built_option(graph: Option<Box<GraphView>>) -> bool
    decreases graph,
{
    match graph {
        Some(graph) => well_built(*graph),
        None => true,
    }
}

proof fn lemma_edge(graph: GraphView, path: Seq<char>, i: nat, k: int)
    requires
        edge_faults(graph, path, i).len() == 0,
        i <= k < graph.edges.len(),
    ensures
        sound_edge(graph, graph.edges[k]),
        !seen_before(graph.edges, k as nat),
    decreases k - i,
{
    if i < k {
        lemma_edge(graph, path, i + 1, k);
    }
}

proof fn lemma_entry(graph: GraphView, path: Seq<char>, i: nat, k: int)
    requires
        entry_faults(graph, layout(graph), path, i).len() == 0,
        i <= k < graph.entries.len(),
    ensures
        sound_entry(graph, graph.entries[k]),
        !seen_before(graph.entries, k as nat),
    decreases k - i,
{
    if i < k {
        lemma_entry(graph, path, i + 1, k);
    }
}

proof fn lemma_exit(graph: GraphView, path: Seq<char>, i: nat, k: int)
    requires
        exit_list_faults(graph, path, i).len() == 0,
        i <= k < graph.exits.len(),
    ensures
        sound_origin(graph, graph.exits[k].from),
        !text::blank(graph.exits[k].name),
        !exit_named_before(graph.exits, k as nat),
    decreases k - i,
{
    if i < k {
        lemma_exit(graph, path, i + 1, k);
    }
}

proof fn lemma_join(graph: GraphView, path: Seq<char>, i: nat, k: int)
    requires
        join_faults(graph.nodes, layout(graph), path, i).len() == 0,
        i <= k < graph.nodes.len(),
    ensures
        sound_join(graph, graph.nodes[k]),
    decreases k - i,
{
    if i < k {
        lemma_join(graph, path, i + 1, k);
    }
}

proof fn lemma_terminal(graph: GraphView, path: Seq<char>, i: nat, k: int)
    requires
        terminal_faults(graph, layout(graph), path, i).len() == 0,
        i <= k < layout(graph).ids.len(),
        reachable(layout(graph).links, layout(graph).starts, k),
        !left(layout(graph).links, k),
    ensures
        exits_from(graph, layout(graph).ids[k]),
    decreases k - i,
{
    if i < k {
        lemma_terminal(graph, path, i + 1, k);
    }
}

proof fn lemma_structure(graph: GraphView, path: Seq<char>)
    requires
        structure_faults(graph, path).len() == 0,
    ensures
        well_structured(graph),
{
    let g = layout(graph);
    law_accepted_structure(graph, path);
    assert(edge_faults(graph, path, 0).len() == 0);
    assert(entry_faults(graph, g, path, 0).len() == 0);
    assert(exit_list_faults(graph, path, 0).len() == 0);
    assert(join_faults(graph.nodes, g, path, 0).len() == 0);
    assert forall|i: int| 0 <= i < graph.edges.len() implies sound_edge(
        graph,
        #[trigger] graph.edges[i],
    ) && !seen_before(graph.edges, i as nat) by {
        lemma_edge(graph, path, 0, i);
    }
    assert forall|i: int| 0 <= i < graph.entries.len() implies sound_entry(
        graph,
        #[trigger] graph.entries[i],
    ) && !seen_before(graph.entries, i as nat) by {
        lemma_entry(graph, path, 0, i);
    }
    assert forall|i: int| 0 <= i < graph.exits.len() implies sound_origin(
        graph,
        (#[trigger] graph.exits[i]).from,
    ) && !text::blank(graph.exits[i].name) && !exit_named_before(graph.exits, i as nat) by {
        lemma_exit(graph, path, 0, i);
    }
    if graph.exits.len() > 0 {
        assert(terminal_faults(graph, g, path, 0).len() == 0);
        assert forall|k: int| 0 <= k < g.ids.len() && !left(g.links, k) implies exits_from(
            graph,
            #[trigger] g.ids[k],
        ) by {
            assert(reachable(g.links, g.starts, k));
            lemma_terminal(graph, path, 0, k);
        }
    }
    assert forall|i: int| 0 <= i < graph.nodes.len() implies sound_join(
        graph,
        #[trigger] graph.nodes[i],
    ) by {
        lemma_join(graph, path, 0, i);
    }
}

proof fn lemma_graph(
    env: EnvView,
    graph: GraphView,
    path: Seq<char>,
    inherited: Seq<Seq<char>>,
    loops: Seq<(Seq<char>, StaticView)>,
    aliases: Seq<(Seq<char>, FieldRefView)>,
)
    requires
        graph_faults(env, graph, path, inherited, loops, aliases).len() == 0,
    ensures
        well_built(graph),
    decreases graph, 1int,
{
    assert(structure_faults(graph, path).len() == 0);
    lemma_structure(graph, path);
    lemma_nodes(env, graph.nodes, layout(graph), path, inherited, loops, aliases, 0);
}

proof fn lemma_nodes(
    env: EnvView,
    nodes: Seq<NodeView>,
    g: Layout,
    path: Seq<char>,
    inherited: Seq<Seq<char>>,
    loops: Seq<(Seq<char>, StaticView)>,
    aliases: Seq<(Seq<char>, FieldRefView)>,
    i: nat,
)
    requires
        nodes_faults(env, nodes, g, path, inherited, loops, aliases, i).len() == 0,
    ensures
        forall|k: int| i <= k < nodes.len() ==> well_built_node(#[trigger] nodes[k]),
    decreases nodes, nodes.len() - i,
{
    if i < nodes.len() {
        let id = nodes[i as int].id();
        let s = ScopeOf {
            env,
            consumer: id,
            path: named_place(path, id),
            visible: visible_at(g, id, inherited),
            loops,
            aliases,
        };
        assert(node_faults(s, nodes[i as int]).len() == 0);
        lemma_node(s, nodes[i as int]);
        lemma_nodes(env, nodes, g, path, inherited, loops, aliases, i + 1);
    }
}

proof fn lemma_node(s: ScopeOf, node: NodeView)
    requires
        node_faults(s, node).len() == 0,
    ensures
        well_built_node(node),
    decreases node, 2int,
{
    match node {
        NodeView::Action(action) => lemma_action(s, action),
        NodeView::ForEach(control) => lemma_loop(s, control),
        NodeView::If(control) => lemma_choice(s, control),
        NodeView::Switch(control) => lemma_switch(s, control),
        NodeView::Join(_) => {},
    }
}

#[verifier::spinoff_prover]
proof fn lemma_action(s: ScopeOf, action: ActionNodeView)
    requires
        node_faults(s, NodeView::Action(action)).len() == 0,
    ensures
        well_built_action(action),
{
    assert(action_faults(s, action).len() == 0);
}

#[verifier::spinoff_prover]
proof fn lemma_loop(s: ScopeOf, control: ForEachView)
    requires
        node_faults(s, NodeView::ForEach(control)).len() == 0,
    ensures
        well_built(*control.body),
    decreases control, 1int,
{
    lemma_graph(
        s.env,
        *control.body,
        s.path + ".body"@,
        s.visible,
        inner_loops(s, control),
        inner_aliases(s, control),
    );
}

#[verifier::spinoff_prover]
proof fn lemma_choice(s: ScopeOf, control: IfView)
    requires
        node_faults(s, NodeView::If(control)).len() == 0,
    ensures
        well_built(*control.then_graph),
        well_built_option(control.else_graph),
    decreases control, 1int,
{
    lemma_graph(s.env, *control.then_graph, s.path + ".then"@, s.visible, s.loops, s.aliases);
    lemma_option(s, control.else_graph, s.path + ".else"@);
}

#[verifier::spinoff_prover]
proof fn lemma_switch(s: ScopeOf, control: SwitchView)
    requires
        node_faults(s, NodeView::Switch(control)).len() == 0,
    ensures
        well_built_option(control.default),
        forall|k: int|
            0 <= k < control.cases.len() ==> well_built(*(#[trigger] control.cases[k]).graph),
    decreases control, 1int,
{
    let selector = binding_type(s, control.selector).0;
    lemma_cases(s, selector, control.cases, 0, Seq::empty());
    lemma_option(s, control.default, s.path + ".default"@);
}

proof fn lemma_option(s: ScopeOf, graph: Option<Box<GraphView>>, path: Seq<char>)
    requires
        optional_graph_faults(s, graph, path).len() == 0,
    ensures
        well_built_option(graph),
    decreases graph, 1int,
{
    match graph {
        Some(graph) => lemma_graph(s.env, *graph, path, s.visible, s.loops, s.aliases),
        None => {},
    }
}

proof fn lemma_cases(
    s: ScopeOf,
    selector: Option<StaticView>,
    cases: Seq<CaseView>,
    i: nat,
    seen: Seq<Seq<char>>,
)
    requires
        cases_faults(s, selector, cases, i, seen).len() == 0,
    ensures
        forall|k: int| i <= k < cases.len() ==> well_built(*(#[trigger] cases[k]).graph),
    decreases cases, cases.len() - i,
{
    if i < cases.len() {
        let place = case_place(s.path, i);
        let (values, all) = case_value_faults(s, selector, cases[i as int], place, 0, seen);
        lemma_graph(
            s.env,
            *cases[i as int].graph,
            place + ".graph"@,
            s.visible,
            s.loops,
            s.aliases,
        );
        lemma_cases(s, selector, cases, i + 1, all);
    }
}

proof fn lemma_current(graph: GraphView)
    requires
        well_built(graph),
    ensures
        current(graph),
    decreases graph, 1int,
{
    assert forall|i: int| 0 <= i < graph.nodes.len() implies current_node(
        #[trigger] graph.nodes[i],
    ) by {
        assert(well_built_node(graph.nodes[i]));
        lemma_current_node(graph.nodes[i]);
    }
}

proof fn lemma_current_node(node: NodeView)
    requires
        well_built_node(node),
    ensures
        current_node(node),
    decreases node, 1int,
{
    match node {
        NodeView::ForEach(control) => lemma_current(*control.body),
        NodeView::If(control) => {
            lemma_current(*control.then_graph);
            lemma_current_option(control.else_graph);
        },
        NodeView::Switch(control) => {
            lemma_current_option(control.default);
            assert forall|i: int| 0 <= i < control.cases.len() implies current(
                *(#[trigger] control.cases[i]).graph,
            ) by {
                lemma_current(*control.cases[i].graph);
            }
        },
        _ => {},
    }
}

proof fn lemma_current_option(graph: Option<Box<GraphView>>)
    requires
        well_built_option(graph),
    ensures
        current_option(graph),
    decreases graph, 1int,
{
    match graph {
        Some(graph) => lemma_current(*graph),
        None => {},
    }
}

// ---------------------------------------------------------------------------
// Identities
// ---------------------------------------------------------------------------
/// The names of the nodes of a graph and of all that are nested in it.
pub open spec fn all_ids(graph: GraphView) -> Seq<Seq<char>>
    decreases graph, 1int,
{
    ids_from(graph.nodes, 0)
}

/// The names of the nodes from the `i`-th on, each before those nested in it.
pub open spec fn ids_from(nodes: Seq<NodeView>, i: nat) -> Seq<Seq<char>>
    decreases nodes, nodes.len() - i,
{
    if i >= nodes.len() {
        Seq::empty()
    } else {
        ids_in(nodes[i as int]) + ids_from(nodes, i + 1)
    }
}

pub open spec fn ids_in(node: NodeView) -> Seq<Seq<char>>
    decreases node, 1int,
{
    seq![node.id()] + match node {
        NodeView::ForEach(control) => all_ids(*control.body),
        NodeView::If(control) => all_ids(*control.then_graph) + ids_in_option(control.else_graph),
        NodeView::Switch(control) => ids_in_cases(control.cases, 0) + ids_in_option(
            control.default,
        ),
        _ => Seq::empty(),
    }
}

pub open spec fn ids_in_option(graph: Option<Box<GraphView>>) -> Seq<Seq<char>>
    decreases graph, 1int,
{
    match graph {
        Some(graph) => all_ids(*graph),
        None => Seq::empty(),
    }
}

pub open spec fn ids_in_cases(cases: Seq<CaseView>, i: nat) -> Seq<Seq<char>>
    decreases cases, cases.len() - i,
{
    if i >= cases.len() {
        Seq::empty()
    } else {
        all_ids(*cases[i as int].graph) + ids_in_cases(cases, i + 1)
    }
}

/// A name that a node can have.
pub open spec fn proper_id(id: Seq<char>) -> bool {
    !text::blank(id) && !text::has_suffix(id, "::index"@)
}

/// The names that have been met.
spec fn met(env: EnvView) -> Seq<Seq<char>> {
    env.ids.map_values(|entry: (Seq<char>, Seq<char>)| entry.0)
}

/// What holds of the names that have been met while no fault is found.
spec fn distinct(ids: Seq<Seq<char>>) -> bool {
    ids.no_duplicates() && forall|i: int| 0 <= i < ids.len() ==> proper_id(#[trigger] ids[i])
}

/// More names have been met, all of them proper and each once.
spec fn extends(before: EnvView, after: EnvView, ids: Seq<Seq<char>>) -> bool {
    met(after) == met(before) + ids && distinct(met(after))
}

proof fn lemma_met(env: EnvView, node: NodeView, place: Seq<char>)
    requires
        distinct(met(env)),
        id_faults(env, node.id(), place).len() == 0,
    ensures
        extends(env, with_node(env, node, place), seq![node.id()]),
{
    let id = node.id();
    let after = with_node(env, node, place);
    text_map::lemma_found(env.ids, id);
    assert(!text_map::has_key(env.ids, id));
    assert forall|i: int| 0 <= i < met(env).len() implies #[trigger] met(env)[i] != id by {
        assert(env.ids[i].0 != id);
    }
    assert(met(after) =~= met(env) + seq![id]);
}

proof fn lemma_extends(a: EnvView, b: EnvView, c: EnvView, x: Seq<Seq<char>>, y: Seq<Seq<char>>)
    requires
        extends(a, b, x),
        extends(b, c, y),
    ensures
        extends(a, c, x + y),
{
    assert(met(a) + x + y =~= met(a) + (x + y));
}

proof fn lemma_nothing(env: EnvView)
    requires
        distinct(met(env)),
    ensures
        extends(env, env, Seq::empty()),
{
    assert(met(env) + Seq::<Seq<char>>::empty() =~= met(env));
}

proof fn lemma_collected(env: EnvView, graph: GraphView, path: Seq<char>)
    requires
        distinct(met(env)),
        collected(env, graph, path).1.len() == 0,
    ensures
        extends(env, collected(env, graph, path).0, all_ids(graph)),
    decreases graph, 2int,
{
    lemma_collected_nodes(env, graph.nodes, path, 0);
}

proof fn lemma_collected_nodes(env: EnvView, nodes: Seq<NodeView>, path: Seq<char>, i: nat)
    requires
        distinct(met(env)),
        collected_nodes(env, nodes, path, i).1.len() == 0,
    ensures
        extends(env, collected_nodes(env, nodes, path, i).0, ids_from(nodes, i)),
    decreases nodes, nodes.len() - i,
{
    if i < nodes.len() {
        let (next, here) = collected_node(env, nodes[i as int], node_place(path, i));
        let (last, more) = collected_nodes(next, nodes, path, i + 1);
        assert(here.len() == 0 && more.len() == 0);
        lemma_collected_node(env, nodes[i as int], node_place(path, i));
        lemma_collected_nodes(next, nodes, path, i + 1);
        lemma_extends(env, next, last, ids_in(nodes[i as int]), ids_from(nodes, i + 1));
    } else {
        lemma_nothing(env);
    }
}

proof fn lemma_collected_node(env: EnvView, node: NodeView, place: Seq<char>)
    requires
        distinct(met(env)),
        collected_node(env, node, place).1.len() == 0,
    ensures
        extends(env, collected_node(env, node, place).0, ids_in(node)),
    decreases node, 2int,
{
    let own = id_faults(env, node.id(), place);
    let next = with_node(env, node, place);
    let name = seq![node.id()];
    match node {
        NodeView::ForEach(control) => {
            let (last, body) = collected(next, *control.body, place + ".body"@);
            assert(own.len() == 0 && body.len() == 0);
            lemma_met(env, node, place);
            lemma_collected(next, *control.body, place + ".body"@);
            lemma_extends(env, next, last, name, all_ids(*control.body));
        },
        NodeView::If(control) => {
            let (then_env, first) = collected(next, *control.then_graph, place + ".then"@);
            let (last, second) = collected_option(
                then_env,
                control.else_graph,
                place + ".else"@,
            );
            assert(own.len() == 0 && first.len() == 0 && second.len() == 0);
            lemma_met(env, node, place);
            lemma_collected(next, *control.then_graph, place + ".then"@);
            lemma_collected_option(then_env, control.else_graph, place + ".else"@);
            let then_ids = all_ids(*control.then_graph);
            let else_ids = ids_in_option(control.else_graph);
            lemma_extends(next, then_env, last, then_ids, else_ids);
            lemma_extends(env, next, last, name, then_ids + else_ids);
        },
        NodeView::Switch(control) => {
            let (case_env, cases) = collected_cases(next, control.cases, place, 0);
            let (last, more) = collected_option(
                case_env,
                control.default,
                place + ".default"@,
            );
            assert(own.len() == 0 && cases.len() == 0 && more.len() == 0);
            lemma_met(env, node, place);
            lemma_collected_cases(next, control.cases, place, 0);
            lemma_collected_option(case_env, control.default, place + ".default"@);
            let case_ids = ids_in_cases(control.cases, 0);
            let default_ids = ids_in_option(control.default);
            lemma_extends(next, case_env, last, case_ids, default_ids);
            lemma_extends(env, next, last, name, case_ids + default_ids);
        },
        _ => {
            lemma_met(env, node, place);
            assert(name + Seq::<Seq<char>>::empty() =~= name);
        },
    }
}

proof fn lemma_collected_option(env: EnvView, graph: Option<Box<GraphView>>, path: Seq<char>)
    requires
        distinct(met(env)),
        collected_option(env, graph, path).1.len() == 0,
    ensures
        extends(env, collected_option(env, graph, path).0, ids_in_option(graph)),
    decreases graph, 2int,
{
    match graph {
        Some(graph) => lemma_collected(env, *graph, path),
        None => lemma_nothing(env),
    }
}

proof fn lemma_collected_cases(env: EnvView, cases: Seq<CaseView>, place: Seq<char>, i: nat)
    requires
        distinct(met(env)),
        collected_cases(env, cases, place, i).1.len() == 0,
    ensures
        extends(env, collected_cases(env, cases, place, i).0, ids_in_cases(cases, i)),
    decreases cases, cases.len() - i,
{
    if i < cases.len() {
        let path = case_place(place, i) + ".graph"@;
        let graph = *cases[i as int].graph;
        let (next, here) = collected(env, graph, path);
        let (last, more) = collected_cases(next, cases, place, i + 1);
        assert(here.len() == 0 && more.len() == 0);
        lemma_collected(env, graph, path);
        lemma_collected_cases(next, cases, place, i + 1);
        lemma_extends(env, next, last, all_ids(graph), ids_in_cases(cases, i + 1));
    } else {
        lemma_nothing(env);
    }
}

// ---------------------------------------------------------------------------
// Laws
// ---------------------------------------------------------------------------
/// A graph that validation accepts is well built throughout: it and every graph
/// that is nested in it are well structured, and every action is executable under
/// its policies.
pub proof fn law_accepted_is_well_built(graph: GraphView)
    ensures
        all_faults(graph).len() == 0 ==> well_built(graph),
{
    law_refusal_is_reported(graph);
    if all_faults(graph).len() == 0 {
        let (env, ids) = collected(no_env(), graph, "graph"@);
        lemma_graph(env, graph, "graph"@, Seq::empty(), Seq::empty(), Seq::empty());
    }
}

/// A graph that validation accepts has the current version throughout.
pub proof fn law_accepted_is_current(graph: GraphView)
    ensures
        all_faults(graph).len() == 0 ==> current(graph),
{
    law_accepted_is_well_built(graph);
    if all_faults(graph).len() == 0 {
        lemma_current(graph);
    }
}

/// In a graph that validation accepts no two nodes have one name, wherever they
/// are nested, and no name is empty or reserved for a loop.
pub proof fn law_accepted_ids_are_distinct(graph: GraphView)
    ensures
        all_faults(graph).len() == 0 ==> {
            &&& all_ids(graph).no_duplicates()
            &&& forall|i: int|
                0 <= i < all_ids(graph).len() ==> proper_id(#[trigger] all_ids(graph)[i])
        },
{
    law_refusal_is_reported(graph);
    if all_faults(graph).len() == 0 {
        let (env, ids) = collected(no_env(), graph, "graph"@);
        assert(ids.len() == 0);
        assert(met(no_env()) =~= Seq::empty());
        lemma_collected(no_env(), graph, "graph"@);
        assert(met(no_env()) + all_ids(graph) =~= all_ids(graph));
    }
}

proof fn lemma_part_seen(s: ScopeOf, parts: Seq<PartView>, i: nat, field: FieldRefView)
    requires
        template_faults(s, parts, i).len() == 0,
        part_refs(parts, i).contains(field),
    ensures
        sees(s, field),
    decreases parts.len() - i,
{
    match parts[i as int] {
        PartView::Field { field: here } => {
            assert(part_faults(s, here).len() == 0);
            assert(reference_faults(s, here).len() == 0);
            let k = choose|k: int|
                0 <= k < part_refs(parts, i).len() && part_refs(parts, i)[k] == field;
            if k > 0 {
                assert(part_refs(parts, i + 1)[k - 1] == field);
                lemma_part_seen(s, parts, i + 1, field);
            }
        },
        PartView::Literal { .. } => lemma_part_seen(s, parts, i + 1, field),
    }
}

/// A binding that validation accepts reads only what its node sees: outputs of
/// nodes that every way to it leads through or that were visible outside, and
/// items of the loops around it.
pub proof fn law_accepted_binding_is_visible(
    s: ScopeOf,
    node: ActionNodeView,
    i: nat,
    k: int,
    field: FieldRefView,
)
    requires
        action_binding_faults(s, node, i).len() == 0,
        i <= k < node.bindings.len(),
        binding_refs(node.bindings[k].1).contains(field),
    ensures
        sees(s, field),
    decreases k - i,
{
    if i < k {
        law_accepted_binding_is_visible(s, node, i + 1, k, field);
    } else {
        let (name, binding) = node.bindings[k];
        assert(source_faults(s, binding).len() == 0);
        match binding {
            BindingView::Field { field: here } => {
                assert(reference_faults(s, here).len() == 0);
            },
            BindingView::Interpolated { parts } => lemma_part_seen(s, parts, 0, field),
            _ => {},
        }
    }
}

/// A field that validation accepts for an input fits it: its type can be
/// assigned, a secret goes only to a secret input, and nothing that may be null
/// or missing goes where a value is asked for, but for an index that may lie
/// beyond an array.
pub proof fn law_accepted_binding_fits(
    s: ScopeOf,
    name: Seq<char>,
    field: FieldRefView,
    expected: ResolvedView,
)
    requires
        input_faults(s, name, BindingView::Field { field }, expected).len() == 0,
    ensures
        reference_type(s, field).0 matches Some(actual) ==> {
            &&& expected.value_type.assignable_from(actual.value_type) || (actual.value_type is Null
                && expected.nullable)
            &&& allowed_accept(expected.allowed_values, actual.allowed_values)
            &&& actual.sensitivity == Sensitivity::Secret ==> expected.sensitivity
                == Sensitivity::Secret
            &&& actual.nullable ==> expected.nullable
            &&& expected.required ==> actual.required || actual.positionally_optional
        },
{
    let binding = BindingView::Field { field };
    match reference_type(s, field).0 {
        Some(actual) => {
            assert(type_faults(s, name, binding, expected, actual).len() == 0);
        },
        None => {},
    }
}

} // verus!
