//! When a graph can be brought to the current version, and what comes of it.
use vstd::prelude::*;

use crate::expr::saturated;
use crate::graph::{
    case_place, migrated, migrated_cases, migrated_node, migrated_nodes, migrated_option,
    node_place, upgraded, CaseView, ForEachView, GraphView, IfView, MigrationFault, NodeView,
    SwitchView, GRAPH_MAX_DEPTH, GRAPH_MAX_TOTAL_GRAPHS, MIN_MIGRATABLE_WORKFLOW_GRAPH_VERSION,
    WORKFLOW_GRAPH_VERSION,
};

verus! {

// ---------------------------------------------------------------------------
// Versions
// ---------------------------------------------------------------------------
/// Whether a graph and all that are nested in it have a version that can be
/// brought up.
pub open spec fn known(graph: GraphView) -> bool
    decreases graph, 1int,
{
    MIN_MIGRATABLE_WORKFLOW_GRAPH_VERSION <= graph.version <= WORKFLOW_GRAPH_VERSION && known_from(
        graph.nodes,
        0,
    )
}

pub open spec fn known_from(nodes: Seq<NodeView>, i: nat) -> bool
    decreases nodes, nodes.len() - i,
{
    i < nodes.len() ==> known_in(nodes[i as int]) && known_from(nodes, i + 1)
}

pub open spec fn known_in(node: NodeView) -> bool
    decreases node, 1int,
{
    match node {
        NodeView::ForEach(control) => known(*control.body),
        NodeView::If(control) => known(*control.then_graph) && known_option(control.else_graph),
        NodeView::Switch(control) => known_cases(control.cases, 0) && known_option(
            control.default,
        ),
        _ => true,
    }
}

pub open spec fn known_option(graph: Option<Box<GraphView>>) -> bool
    decreases graph, 1int,
{
    match graph {
        Some(graph) => known(*graph),
        None => true,
    }
}

pub open spec fn known_cases(cases: Seq<CaseView>, i: nat) -> bool
    decreases cases, cases.len() - i,
{
    i < cases.len() ==> known(*cases[i as int].graph) && known_cases(cases, i + 1)
}

// ---------------------------------------------------------------------------
// Number of graphs
// ---------------------------------------------------------------------------
/// How many graphs there are: the graph and all that are nested in it.
pub open spec fn graphs_in(graph: GraphView) -> nat
    decreases graph, 1int,
{
    1 + graphs_from(graph.nodes, 0)
}

pub open spec fn graphs_from(nodes: Seq<NodeView>, i: nat) -> nat
    decreases nodes, nodes.len() - i,
{
    if i >= nodes.len() {
        0
    } else {
        graphs_below(nodes[i as int]) + graphs_from(nodes, i + 1)
    }
}

pub open spec fn graphs_below(node: NodeView) -> nat
    decreases node, 1int,
{
    match node {
        NodeView::ForEach(control) => graphs_in(*control.body),
        NodeView::If(control) => graphs_in(*control.then_graph) + graphs_option(
            control.else_graph,
        ),
        NodeView::Switch(control) => graphs_cases(control.cases, 0) + graphs_option(
            control.default,
        ),
        _ => 0,
    }
}

pub open spec fn graphs_option(graph: Option<Box<GraphView>>) -> nat
    decreases graph, 1int,
{
    match graph {
        Some(graph) => graphs_in(*graph),
        None => 0,
    }
}

pub open spec fn graphs_cases(cases: Seq<CaseView>, i: nat) -> nat
    decreases cases, cases.len() - i,
{
    if i >= cases.len() {
        0
    } else {
        graphs_in(*cases[i as int].graph) + graphs_cases(cases, i + 1)
    }
}

// ---------------------------------------------------------------------------
// Depth
// ---------------------------------------------------------------------------
pub open spec fn larger(a: nat, b: nat) -> nat {
    if a > b {
        a
    } else {
        b
    }
}

/// How deep graphs are nested: 1 for a graph with none in it.
pub open spec fn depth_of(graph: GraphView) -> nat
    decreases graph, 1int,
{
    1 + depth_from(graph.nodes, 0)
}

pub open spec fn depth_from(nodes: Seq<NodeView>, i: nat) -> nat
    decreases nodes, nodes.len() - i,
{
    if i >= nodes.len() {
        0
    } else {
        larger(depth_below(nodes[i as int]), depth_from(nodes, i + 1))
    }
}

pub open spec fn depth_below(node: NodeView) -> nat
    decreases node, 1int,
{
    match node {
        NodeView::ForEach(control) => depth_of(*control.body),
        NodeView::If(control) => larger(
            depth_of(*control.then_graph),
            depth_option(control.else_graph),
        ),
        NodeView::Switch(control) => larger(
            depth_cases(control.cases, 0),
            depth_option(control.default),
        ),
        _ => 0,
    }
}

pub open spec fn depth_option(graph: Option<Box<GraphView>>) -> nat
    decreases graph, 1int,
{
    match graph {
        Some(graph) => depth_of(*graph),
        None => 0,
    }
}

pub open spec fn depth_cases(cases: Seq<CaseView>, i: nat) -> nat
    decreases cases, cases.len() - i,
{
    if i >= cases.len() {
        0
    } else {
        larger(depth_of(*cases[i as int].graph), depth_cases(cases, i + 1))
    }
}

// ---------------------------------------------------------------------------
// The form of the current version
// ---------------------------------------------------------------------------
/// A graph with the current version written into it and into all that are
/// nested in it, and nothing else changed.
pub open spec fn in_current_form(graph: GraphView) -> GraphView
    decreases graph, 1int,
{
    GraphView { version: WORKFLOW_GRAPH_VERSION, nodes: form_from(graph.nodes, 0), ..graph }
}

pub open spec fn form_from(nodes: Seq<NodeView>, i: nat) -> Seq<NodeView>
    decreases nodes, nodes.len() - i,
{
    if i >= nodes.len() {
        Seq::empty()
    } else {
        seq![form_of(nodes[i as int])] + form_from(nodes, i + 1)
    }
}

pub open spec fn form_of(node: NodeView) -> NodeView
    decreases node, 1int,
{
    match node {
        NodeView::ForEach(control) => NodeView::ForEach(
            ForEachView { body: Box::new(in_current_form(*control.body)), ..control },
        ),
        NodeView::If(control) => NodeView::If(
            IfView {
                then_graph: Box::new(in_current_form(*control.then_graph)),
                else_graph: form_option(control.else_graph),
                ..control
            },
        ),
        NodeView::Switch(control) => NodeView::Switch(
            SwitchView {
                cases: form_cases(control.cases, 0),
                default: form_option(control.default),
                ..control
            },
        ),
        _ => node,
    }
}

pub open spec fn form_option(graph: Option<Box<GraphView>>) -> Option<Box<GraphView>>
    decreases graph, 1int,
{
    match graph {
        Some(graph) => Some(Box::new(in_current_form(*graph))),
        None => None,
    }
}

pub open spec fn form_cases(cases: Seq<CaseView>, i: nat) -> Seq<CaseView>
    decreases cases, cases.len() - i,
{
    if i >= cases.len() {
        Seq::empty()
    } else {
        seq![
            CaseView {
                graph: Box::new(in_current_form(*cases[i as int].graph)),
                ..cases[i as int]
            },
        ] + form_cases(cases, i + 1)
    }
}

// ---------------------------------------------------------------------------
// Upgrading
// ---------------------------------------------------------------------------
/// Whether a part of a graph can be brought up: its versions are known, its
/// depth below `depth` stays within the limit, and so does the number of graphs.
spec fn admitted(known: bool, depth: nat, nested: nat, count: nat, graphs: nat) -> bool {
    known && depth + nested <= GRAPH_MAX_DEPTH && count + graphs <= GRAPH_MAX_TOTAL_GRAPHS
}

/// What bringing up a part comes to.
spec fn comes_to<T>(
    res: Result<(T, nat), MigrationFault>,
    admitted: bool,
    form: T,
    count: nat,
) -> bool {
    &&& res is Ok <==> admitted
    &&& res matches Ok((out, after)) ==> out == form && after == count
}

proof fn lemma_graph(graph: GraphView, path: Seq<char>, depth: nat, count: nat)
    requires
        count <= GRAPH_MAX_TOTAL_GRAPHS,
        depth >= 1,
    ensures
        comes_to(
            migrated(graph, path, depth, count),
            admitted(
                known(graph),
                (depth - 1) as nat,
                depth_of(graph),
                count,
                graphs_in(graph),
            ),
            in_current_form(graph),
            count + graphs_in(graph),
        ),
    decreases graph, 2int,
{
    let counted = saturated(count + 1);
    if depth <= GRAPH_MAX_DEPTH && counted <= GRAPH_MAX_TOTAL_GRAPHS {
        lemma_nodes(graph.nodes, path, depth, counted, 0, Seq::empty());
        assert(Seq::<NodeView>::empty() + form_from(graph.nodes, 0) =~= form_from(
            graph.nodes,
            0,
        ));
    }
}

proof fn lemma_nodes(
    nodes: Seq<NodeView>,
    path: Seq<char>,
    depth: nat,
    count: nat,
    i: nat,
    done: Seq<NodeView>,
)
    requires
        count <= GRAPH_MAX_TOTAL_GRAPHS,
        1 <= depth <= GRAPH_MAX_DEPTH,
    ensures
        comes_to(
            migrated_nodes(nodes, path, depth, count, i, done),
            admitted(
                known_from(nodes, i),
                depth,
                depth_from(nodes, i),
                count,
                graphs_from(nodes, i),
            ),
            done + form_from(nodes, i),
            count + graphs_from(nodes, i),
        ),
    decreases nodes, nodes.len() - i,
{
    if i < nodes.len() {
        let node = nodes[i as int];
        let place = node_place(path, i);
        lemma_node(node, place, depth, count);
        match migrated_node(node, place, depth, count) {
            Ok((form, after)) => {
                lemma_nodes(nodes, path, depth, after, i + 1, done.push(form));
                assert(done.push(form) + form_from(nodes, i + 1) =~= done + (seq![form]
                    + form_from(nodes, i + 1)));
            },
            Err(_) => {},
        }
    } else {
        assert(done + form_from(nodes, i) =~= done);
    }
}

proof fn lemma_node(node: NodeView, place: Seq<char>, depth: nat, count: nat)
    requires
        count <= GRAPH_MAX_TOTAL_GRAPHS,
        1 <= depth <= GRAPH_MAX_DEPTH,
    ensures
        comes_to(
            migrated_node(node, place, depth, count),
            admitted(known_in(node), depth, depth_below(node), count, graphs_below(node)),
            form_of(node),
            count + graphs_below(node),
        ),
    decreases node, 2int,
{
    match node {
        NodeView::ForEach(control) => {
            lemma_graph(*control.body, place + ".body"@, depth + 1, count);
        },
        NodeView::If(control) => {
            let path = place + ".then"@;
            lemma_graph(*control.then_graph, path, depth + 1, count);
            match migrated(*control.then_graph, path, depth + 1, count) {
                Ok((_, after)) => {
                    lemma_option(control.else_graph, place + ".else"@, depth + 1, after);
                },
                Err(_) => {},
            }
        },
        NodeView::Switch(control) => {
            lemma_cases(control.cases, place, depth + 1, count, 0, Seq::empty());
            assert(Seq::<CaseView>::empty() + form_cases(control.cases, 0) =~= form_cases(
                control.cases,
                0,
            ));
            match migrated_cases(control.cases, place, depth + 1, count, 0, Seq::empty()) {
                Ok((_, after)) => {
                    lemma_option(control.default, place + ".default"@, depth + 1, after);
                },
                Err(_) => {},
            }
        },
        _ => {},
    }
}

proof fn lemma_option(graph: Option<Box<GraphView>>, path: Seq<char>, depth: nat, count: nat)
    requires
        count <= GRAPH_MAX_TOTAL_GRAPHS,
        1 <= depth <= GRAPH_MAX_DEPTH + 1,
    ensures
        comes_to(
            migrated_option(graph, path, depth, count),
            admitted(
                known_option(graph),
                (depth - 1) as nat,
                depth_option(graph),
                count,
                graphs_option(graph),
            ),
            form_option(graph),
            count + graphs_option(graph),
        ),
    decreases graph, 2int,
{
    match graph {
        Some(graph) => lemma_graph(*graph, path, depth, count),
        None => {},
    }
}

proof fn lemma_cases(
    cases: Seq<CaseView>,
    place: Seq<char>,
    depth: nat,
    count: nat,
    i: nat,
    done: Seq<CaseView>,
)
    requires
        count <= GRAPH_MAX_TOTAL_GRAPHS,
        1 <= depth <= GRAPH_MAX_DEPTH + 1,
    ensures
        comes_to(
            migrated_cases(cases, place, depth, count, i, done),
            admitted(
                known_cases(cases, i),
                (depth - 1) as nat,
                depth_cases(cases, i),
                count,
                graphs_cases(cases, i),
            ),
            done + form_cases(cases, i),
            count + graphs_cases(cases, i),
        ),
    decreases cases, cases.len() - i,
{
    if i < cases.len() {
        let path = case_place(place, i) + ".graph"@;
        let graph = *cases[i as int].graph;
        lemma_graph(graph, path, depth, count);
        match migrated(graph, path, depth, count) {
            Ok((form, after)) => {
                let case = CaseView { graph: Box::new(form), ..cases[i as int] };
                lemma_cases(cases, place, depth, after, i + 1, done.push(case));
                assert(done.push(case) + form_cases(cases, i + 1) =~= done + (seq![case]
                    + form_cases(cases, i + 1)));
            },
            Err(_) => {},
        }
    } else {
        assert(done + form_cases(cases, i) =~= done);
    }
}

// ---------------------------------------------------------------------------
// Laws
// ---------------------------------------------------------------------------
/// Whether a graph can be brought to the current version.
pub open spec fn upgradable(graph: GraphView) -> bool {
    &&& known(graph)
    &&& depth_of(graph) <= GRAPH_MAX_DEPTH
    &&& graphs_in(graph) <= GRAPH_MAX_TOTAL_GRAPHS
}

/// A graph is upgraded exactly where it and all that are nested in it have a
/// known version, and depth and number of graphs stay within their limits. What
/// comes of it is the same graph but for the version, which is the current one
/// at every level.
pub proof fn law_upgrade_changes_versions_only(graph: GraphView)
    ensures
        upgraded(graph) is Ok <==> upgradable(graph),
        upgraded(graph) matches Ok(out) ==> out == in_current_form(graph),
{
    lemma_graph(graph, "workflow_graph"@, 1, 0);
}

} // verus!
