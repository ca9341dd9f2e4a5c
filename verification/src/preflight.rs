//! A cheap, iterative look at a graph before anything recursive is done to it.
use vstd::prelude::*;

use crate::binding::binding_views;
use crate::context::{
    part_views, Binding, BindingView, FieldRef, FieldRefView, PartView, TemplatePart,
};
use crate::expr::{default_limits, saturated, ExprView, ExpressionLimits, ExpressionV1};
use crate::faults::{all_reported, fault, group_reported, reported, Faults};
use crate::graph::{
    case_place, case_views, edge_views, exit_views, node_place, node_views, show_case_place,
    show_node_place, ActionNode, ActionNodeView, CaseView, EdgeView, ExitView, ForEachNode,
    ForEachView, GraphEdge, GraphExit, GraphNode, GraphView, NodeView, SwitchCase, SwitchNode,
    SwitchView, WorkflowGraph, GRAPH_MAX_DEPTH, GRAPH_MAX_EXIT_CODES_PER_LIST,
    GRAPH_MAX_LITERAL_STRING_BYTES, GRAPH_MAX_LOCAL_NODES, GRAPH_MAX_TOTAL_BINDINGS,
    GRAPH_MAX_TOTAL_CONDITION_NODES, GRAPH_MAX_TOTAL_EDGES, GRAPH_MAX_TOTAL_ENDPOINTS,
    GRAPH_MAX_TOTAL_EXIT_CODES, GRAPH_MAX_TOTAL_EXPRESSION_NODES, GRAPH_MAX_TOTAL_GRAPHS,
    GRAPH_MAX_TOTAL_NODES, GRAPH_MAX_TOTAL_PAYLOAD_BYTES, GRAPH_MAX_TOTAL_SWITCH_CASES,
    GRAPH_MAX_TOTAL_SWITCH_VALUES, GRAPH_MAX_TOTAL_TEMPLATE_PARTS, GRAPH_MAX_TOTAL_VALUE_NODES,
};
use crate::graph_error::{GraphErrorView, GraphFault, GraphValidationErrorKind};
use crate::json::{value_views, Value, ValueView};
use crate::stats::{
    document_bytes, expression_size, expression_stats, field_bytes, field_ref_payload_bytes,
    json_size, json_value_stats, serialized_payload_bytes, LimitView, StaticLimitExceeded,
};
use crate::target::BindingLimits;
use crate::task::{
    condition_views, optional_condition, Action, ActionView, ConditionView, StepCondition,
};
use crate::text;
use crate::text::{count_text, joined, owned, quoted, text_len, text_views};
use crate::text_map::TextMap;

verus! {

broadcast use group_reported;

/// What has been counted over a graph and all that is nested in it.
#[derive(Debug, Clone, Copy, PartialEq, Eq, Structural)]
pub struct Budget {
    pub nodes: usize,
    pub edges: usize,
    pub endpoints: usize,
    pub bindings: usize,
    pub switch_cases: usize,
    pub switch_values: usize,
    pub expression_nodes: usize,
    pub value_nodes: usize,
    pub template_parts: usize,
    pub condition_nodes: usize,
    pub exit_codes: usize,
    pub payload_bytes: usize,
}

pub open spec fn untouched() -> Budget {
    Budget {
        nodes: 0,
        edges: 0,
        endpoints: 0,
        bindings: 0,
        switch_cases: 0,
        switch_values: 0,
        expression_nodes: 0,
        value_nodes: 0,
        template_parts: 0,
        condition_nodes: 0,
        exit_codes: 0,
        payload_bytes: 0,
    }
}

/// What looking at a part of a graph comes to: the budget after it, whether the
/// part is acceptable, the faults in it, and the graphs nested in it that are to
/// be looked at later, with their places and depths.
pub struct Look {
    pub budget: Budget,
    pub ok: bool,
    pub errors: Seq<GraphErrorView>,
    pub nested: Seq<(GraphView, Seq<char>, nat)>,
}

pub open spec fn fine(budget: Budget) -> Look {
    Look { budget, ok: true, errors: Seq::empty(), nested: Seq::empty() }
}

pub open spec fn limit_fault(
    path: Seq<char>,
    resource: Seq<char>,
    found: nat,
    limit: nat,
) -> GraphErrorView {
    fault(
        path,
        GraphFault::ResourceLimitExceeded {
            resource,
            found: found as usize,
            limit: limit as usize,
        },
    )
}

pub open spec fn exceeded(
    budget: Budget,
    path: Seq<char>,
    resource: Seq<char>,
    found: nat,
    limit: nat,
) -> Look {
    Look {
        budget,
        ok: false,
        errors: seq![limit_fault(path, resource, found, limit)],
        nested: Seq::empty(),
    }
}

impl Look {
    pub open spec fn and(self, next: Look) -> Look {
        Look {
            budget: next.budget,
            ok: self.ok && next.ok,
            errors: self.errors + next.errors,
            nested: self.nested + next.nested,
        }
    }

    pub open spec fn later(self, graph: GraphView, path: Seq<char>, depth: nat) -> Look {
        Look { nested: self.nested.push((graph, path, depth)), ..self }
    }
}

pub open spec fn capped(n: nat) -> usize {
    saturated(n) as usize
}

// ---------------------------------------------------------------------------
// Parts
// ---------------------------------------------------------------------------
pub open spec fn look_bytes(b: Budget, bytes: nat, path: Seq<char>) -> Look {
    if b.payload_bytes > GRAPH_MAX_TOTAL_PAYLOAD_BYTES {
        Look { ok: false, ..fine(b) }
    } else {
        let after = Budget { payload_bytes: capped(b.payload_bytes as nat + bytes), ..b };
        if after.payload_bytes > GRAPH_MAX_TOTAL_PAYLOAD_BYTES {
            exceeded(
                after,
                path,
                "total graph payload bytes"@,
                after.payload_bytes as nat,
                GRAPH_MAX_TOTAL_PAYLOAD_BYTES as nat,
            )
        } else {
            fine(after)
        }
    }
}

pub open spec fn look_string(b: Budget, s: Seq<char>, path: Seq<char>) -> Look {
    if text::byte_len(s) > GRAPH_MAX_LITERAL_STRING_BYTES {
        exceeded(
            b,
            path,
            "single graph string bytes"@,
            text::byte_len(s),
            GRAPH_MAX_LITERAL_STRING_BYTES as nat,
        )
    } else {
        look_bytes(b, text::byte_len(s), path)
    }
}

pub open spec fn look_measured(b: Budget, size: Result<nat, LimitView>, path: Seq<char>) -> Look {
    match size {
        Ok(bytes) => look_bytes(b, bytes, path),
        Err(e) => exceeded(b, path, e.resource, e.found, e.limit),
    }
}

pub open spec fn look_codes(b: Budget, codes: Seq<u32>, path: Seq<char>) -> Look {
    if codes.len() > GRAPH_MAX_EXIT_CODES_PER_LIST {
        exceeded(
            b,
            path,
            "exit codes in one list"@,
            codes.len(),
            GRAPH_MAX_EXIT_CODES_PER_LIST as nat,
        )
    } else {
        let after = Budget { exit_codes: capped(b.exit_codes as nat + codes.len()), ..b };
        if after.exit_codes > GRAPH_MAX_TOTAL_EXIT_CODES {
            exceeded(
                after,
                path,
                "total exit codes"@,
                after.exit_codes as nat,
                GRAPH_MAX_TOTAL_EXIT_CODES as nat,
            )
        } else {
            fine(after)
        }
    }
}

pub open spec fn look_expression(b: Budget, e: ExprView, path: Seq<char>) -> Look {
    match expression_size(e, default_limits()) {
        Ok((nodes, bytes)) => {
            let after = Budget { expression_nodes: capped(b.expression_nodes as nat + nodes), ..b };
            if after.expression_nodes > GRAPH_MAX_TOTAL_EXPRESSION_NODES {
                exceeded(
                    after,
                    path,
                    "total expression nodes"@,
                    after.expression_nodes as nat,
                    GRAPH_MAX_TOTAL_EXPRESSION_NODES as nat,
                )
            } else {
                look_bytes(after, bytes, path)
            }
        },
        Err(e) => exceeded(b, path, e.resource, e.found, e.limit),
    }
}

pub open spec fn look_value(b: Budget, value: ValueView, path: Seq<char>) -> Look {
    match json_size(value) {
        Ok((nodes, bytes)) => {
            let after = Budget { value_nodes: capped(b.value_nodes as nat + nodes), ..b };
            if after.value_nodes > GRAPH_MAX_TOTAL_VALUE_NODES {
                exceeded(
                    after,
                    path,
                    "total literal value nodes"@,
                    after.value_nodes as nat,
                    GRAPH_MAX_TOTAL_VALUE_NODES as nat,
                )
            } else {
                look_bytes(after, bytes, path)
            }
        },
        Err(e) => exceeded(b, path, e.resource, e.found, e.limit),
    }
}

pub open spec fn look_field(b: Budget, field: FieldRefView, path: Seq<char>, resource: Seq<char>) -> Look {
    if field.segments.len() > 32 {
        exceeded(b, path, resource, field.segments.len(), 32)
    } else {
        look_measured(b, field_bytes(field), path)
    }
}

/// The bytes of the literal parts of a template from the `i`-th on.
pub open spec fn literal_bytes(parts: Seq<PartView>, i: nat, bytes: nat) -> nat
    decreases parts.len() - i,
{
    if i >= parts.len() {
        bytes
    } else {
        literal_bytes(
            parts,
            i + 1,
            match parts[i as int] {
                PartView::Literal { value } => saturated(bytes + text::byte_len(value)),
                PartView::Field { .. } => bytes,
            },
        )
    }
}

pub open spec fn look_parts(b: Budget, parts: Seq<PartView>, path: Seq<char>, i: nat) -> Look
    decreases parts.len() - i,
{
    if i >= parts.len() {
        fine(b)
    } else {
        let here = match parts[i as int] {
            PartView::Field { field } => look_field(
                b,
                field,
                path,
                "template field path segments"@,
            ),
            PartView::Literal { .. } => fine(b),
        };
        here.and(look_parts(here.budget, parts, path, i + 1))
    }
}

pub open spec fn look_template(b: Budget, parts: Seq<PartView>, path: Seq<char>) -> Look {
    let counted = Budget { template_parts: capped(b.template_parts as nat + parts.len()), ..b };
    let long = if parts.len() > 256 {
        exceeded(counted, path, "template parts"@, parts.len(), 256)
    } else {
        fine(counted)
    };
    let total = if counted.template_parts > GRAPH_MAX_TOTAL_TEMPLATE_PARTS {
        exceeded(
            counted,
            path,
            "total template parts"@,
            counted.template_parts as nat,
            GRAPH_MAX_TOTAL_TEMPLATE_PARTS as nat,
        )
    } else {
        fine(counted)
    };
    let bytes = literal_bytes(parts, 0, 0);
    let literal = if bytes > 65536 {
        exceeded(counted, path, "template literal bytes"@, bytes, 65536)
    } else {
        look_bytes(counted, bytes, path)
    };
    long.and(total).and(literal).and(look_parts(literal.budget, parts, path, 0))
}

pub open spec fn look_binding(b: Budget, binding: BindingView, path: Seq<char>) -> Look {
    match binding {
        BindingView::Literal { value } => look_value(b, value, path),
        BindingView::Field { field } => look_field(b, field, path, "binding path segments"@),
        BindingView::Template { template } => if text::byte_len(template) > 65536 {
            exceeded(b, path, "template bytes"@, text::byte_len(template), 65536)
        } else {
            look_bytes(b, text::byte_len(template), path)
        },
        BindingView::Interpolated { parts } => look_template(b, parts, path),
    }
}

/// The conditions that wait to be looked at, the last one first.
pub open spec fn look_conditions(
    b: Budget,
    stack: Seq<(ConditionView, nat)>,
    path: Seq<char>,
    nodes: nat,
) -> Look
    decreases 257 - nodes,
{
    if stack.len() == 0 {
        fine(b)
    } else {
        let (condition, depth) = stack.last();
        let rest = stack.drop_last();
        let after = Budget { condition_nodes: capped(b.condition_nodes as nat + 1), ..b };
        if depth > 32 {
            exceeded(b, path, "condition depth"@, depth, 32)
        } else if nodes + 1 > 256 {
            exceeded(after, path, "condition nodes"@, nodes + 1, 256)
        } else if after.condition_nodes > GRAPH_MAX_TOTAL_CONDITION_NODES {
            exceeded(
                after,
                path,
                "total condition nodes"@,
                after.condition_nodes as nat,
                GRAPH_MAX_TOTAL_CONDITION_NODES as nat,
            )
        } else {
            match condition {
                ConditionView::Expression { rule, .. } => {
                    let here = look_expression(after, rule, path);
                    here.and(look_conditions(here.budget, rest, path, nodes + 1))
                },
                ConditionView::All { conditions } => match group_fault(
                    after,
                    conditions.len(),
                    rest.len(),
                    path,
                    nodes + 1,
                ) {
                    Some(look) => look,
                    None => look_conditions(
                        after,
                        rest + conditions.map_values(|c: ConditionView| (c, depth + 1)),
                        path,
                        nodes + 1,
                    ),
                },
                ConditionView::Any { conditions } => match group_fault(
                    after,
                    conditions.len(),
                    rest.len(),
                    path,
                    nodes + 1,
                ) {
                    Some(look) => look,
                    None => look_conditions(
                        after,
                        rest + conditions.map_values(|c: ConditionView| (c, depth + 1)),
                        path,
                        nodes + 1,
                    ),
                },
                ConditionView::Not { condition } => look_conditions(
                    after,
                    rest.push((*condition, depth + 1)),
                    path,
                    nodes + 1,
                ),
                ConditionView::ExitCode { step, codes } => {
                    let first = look_string(after, step, path);
                    let second = look_codes(first.budget, codes, path);
                    first.and(second).and(look_conditions(second.budget, rest, path, nodes + 1))
                },
                ConditionView::Path { path: place, expect } => {
                    let first = look_string(after, place, path);
                    let second = match expect.sha256 {
                        Some(sha256) => look_string(first.budget, sha256, path),
                        None => fine(first.budget),
                    };
                    first.and(second).and(look_conditions(second.budget, rest, path, nodes + 1))
                },
            }
        }
    }
}

/// Why a group of conditions is too large to be opened, if it is.
pub open spec fn group_fault(
    b: Budget,
    adding: nat,
    pending: nat,
    path: Seq<char>,
    nodes: nat,
) -> Option<Look> {
    let local = saturated(saturated(nodes + pending) + adding);
    let total = saturated(saturated(b.condition_nodes as nat + pending) + adding);
    if local > 256 {
        Some(exceeded(b, path, "condition nodes"@, local, 256))
    } else if total > GRAPH_MAX_TOTAL_CONDITION_NODES {
        Some(
            exceeded(
                b,
                path,
                "total condition nodes"@,
                total,
                GRAPH_MAX_TOTAL_CONDITION_NODES as nat,
            ),
        )
    } else {
        None
    }
}

pub open spec fn look_condition(b: Budget, condition: Option<ConditionView>, path: Seq<char>) -> Look {
    match condition {
        Some(condition) => look_conditions(b, seq![(condition, 1nat)], path, 0),
        None => fine(b),
    }
}

// ---------------------------------------------------------------------------
// Nodes
// ---------------------------------------------------------------------------
/// The bindings of an action from the `i`-th on.
pub open spec fn look_bindings(
    b: Budget,
    bindings: Seq<(Seq<char>, BindingView)>,
    place: Seq<char>,
    i: nat,
) -> Look
    decreases bindings.len() - i,
{
    if i >= bindings.len() {
        fine(b)
    } else {
        let (name, binding) = bindings[i as int];
        let first = look_string(b, name, place + ".bindings.target"@);
        let second = look_binding(
            first.budget,
            binding,
            place + ".bindings["@ + text::debug_text(name) + "]"@,
        );
        first.and(second).and(look_bindings(second.budget, bindings, place, i + 1))
    }
}

pub open spec fn look_action(b: Budget, node: ActionNodeView, place: Seq<char>) -> Look {
    let name = look_string(b, node.step.name, place + ".name"@);
    let check = match node.step.check {
        Some(document) => look_measured(name.budget, document_bytes(document), place + ".check"@),
        None => fine(name.budget),
    };
    let action = look_measured(
        check.budget,
        document_bytes(node.step.action.document()),
        place + ".action"@,
    );
    let codes = match node.step.action {
        ActionView::RunScript { success_exit_codes, .. } => look_codes(
            action.budget,
            success_exit_codes,
            place + ".action.success_exit_codes"@,
        ),
        _ => fine(action.budget),
    };
    let head = name.and(check).and(action).and(codes);
    if node.bindings.len() > 128 {
        head.and(
            exceeded(
                codes.budget,
                place,
                "bindings on one action"@,
                node.bindings.len(),
                128,
            ),
        )
    } else {
        let counted = Budget {
            bindings: capped(codes.budget.bindings as nat + node.bindings.len()),
            ..codes.budget
        };
        let bindings = if counted.bindings > GRAPH_MAX_TOTAL_BINDINGS {
            exceeded(
                counted,
                place,
                "total action bindings"@,
                counted.bindings as nat,
                GRAPH_MAX_TOTAL_BINDINGS as nat,
            )
        } else {
            look_bindings(counted, node.bindings, place, 0)
        };
        let when = look_condition(bindings.budget, node.step.when, place + ".when"@);
        let require = look_condition(when.budget, node.step.require, place + ".require"@);
        head.and(bindings).and(when).and(require)
    }
}

/// The values of a case from the `i`-th on.
pub open spec fn look_values(b: Budget, values: Seq<ValueView>, place: Seq<char>, i: nat) -> Look
    decreases values.len() - i,
{
    if i >= values.len() {
        fine(b)
    } else {
        let here = look_value(
            b,
            values[i as int],
            place + ".values["@ + text::decimal(i) + "]"@,
        );
        here.and(look_values(here.budget, values, place, i + 1))
    }
}

/// One case of a switch, and whether to go on to the next.
pub open spec fn look_case(
    b: Budget,
    case: CaseView,
    place: Seq<char>,
    here: Seq<char>,
    depth: nat,
) -> (Look, bool) {
    let id = look_string(b, case.id, here + ".id"@);
    let counted = Budget {
        switch_values: capped(id.budget.switch_values as nat + case.values.len()),
        ..id.budget
    };
    if counted.switch_values > GRAPH_MAX_TOTAL_SWITCH_VALUES {
        (
            id.and(
                exceeded(
                    counted,
                    place,
                    "total switch case values"@,
                    counted.switch_values as nat,
                    GRAPH_MAX_TOTAL_SWITCH_VALUES as nat,
                ),
            ),
            false,
        )
    } else {
        let values = look_values(counted, case.values, here, 0);
        (id.and(values).later(*case.graph, here + ".graph"@, depth + 1), true)
    }
}

/// The cases of a switch from the `i`-th on.
pub open spec fn look_cases(
    b: Budget,
    cases: Seq<CaseView>,
    place: Seq<char>,
    depth: nat,
    i: nat,
) -> Look
    decreases cases.len() - i,
{
    if i >= cases.len() {
        fine(b)
    } else {
        let (here, more) = look_case(b, cases[i as int], place, case_place(place, i), depth);
        if more {
            here.and(look_cases(here.budget, cases, place, depth, i + 1))
        } else {
            here
        }
    }
}

pub open spec fn with_optional(
    look: Look,
    graph: Option<Box<GraphView>>,
    path: Seq<char>,
    depth: nat,
) -> Look {
    match graph {
        Some(graph) => look.later(*graph, path, depth),
        None => look,
    }
}

pub open spec fn look_switch(b: Budget, node: SwitchView, place: Seq<char>, depth: nat) -> Look {
    let selector = look_binding(b, node.selector, place + ".selector"@);
    let counted = Budget {
        switch_cases: capped(selector.budget.switch_cases as nat + node.cases.len()),
        ..selector.budget
    };
    let cases = if counted.switch_cases > GRAPH_MAX_TOTAL_SWITCH_CASES {
        exceeded(
            counted,
            place,
            "total switch cases"@,
            counted.switch_cases as nat,
            GRAPH_MAX_TOTAL_SWITCH_CASES as nat,
        )
    } else {
        look_cases(counted, node.cases, place, depth, 0)
    };
    with_optional(selector.and(cases), node.default, place + ".default"@, depth + 1)
}

pub open spec fn look_loop(b: Budget, node: ForEachView, place: Seq<char>, depth: nat) -> Look {
    let item = look_string(b, node.item_alias, place + ".item_alias"@);
    let index = match node.index_alias {
        Some(alias) => look_string(item.budget, alias, place + ".index_alias"@),
        None => fine(item.budget),
    };
    let collection = look_binding(index.budget, node.collection, place + ".collection"@);
    item.and(index).and(collection).later(*node.body, place + ".body"@, depth + 1)
}

pub open spec fn look_node(b: Budget, node: NodeView, place: Seq<char>, depth: nat) -> Look {
    let id = look_string(b, node.id(), place + ".id"@);
    id.and(
        match node {
            NodeView::Action(action) => look_action(id.budget, action, place),
            NodeView::ForEach(control) => look_loop(id.budget, control, place, depth),
            NodeView::If(control) => with_optional(
                look_expression(id.budget, control.condition, place + ".condition"@).later(
                    *control.then_graph,
                    place + ".then"@,
                    depth + 1,
                ),
                control.else_graph,
                place + ".else"@,
                depth + 1,
            ),
            NodeView::Switch(control) => look_switch(id.budget, control, place, depth),
            NodeView::Join(_) => fine(id.budget),
        },
    )
}

/// The nodes of a graph from the `i`-th on.
pub open spec fn look_nodes(
    b: Budget,
    nodes: Seq<NodeView>,
    path: Seq<char>,
    depth: nat,
    i: nat,
) -> Look
    decreases nodes.len() - i,
{
    if i >= nodes.len() {
        fine(b)
    } else {
        let here = look_node(b, nodes[i as int], node_place(path, i), depth);
        here.and(look_nodes(here.budget, nodes, path, depth, i + 1))
    }
}

pub open spec fn indexed_place(path: Seq<char>, list: Seq<char>, i: nat, end: Seq<char>) -> Seq<char> {
    path + list + text::decimal(i) + end
}

pub open spec fn look_entries(b: Budget, entries: Seq<Seq<char>>, path: Seq<char>, i: nat) -> Look
    decreases entries.len() - i,
{
    if i >= entries.len() {
        fine(b)
    } else {
        let here = look_string(b, entries[i as int], indexed_place(path, ".entries["@, i, "]"@));
        here.and(look_entries(here.budget, entries, path, i + 1))
    }
}

pub open spec fn look_exits(b: Budget, exits: Seq<ExitView>, path: Seq<char>, i: nat) -> Look
    decreases exits.len() - i,
{
    if i >= exits.len() {
        fine(b)
    } else {
        let name = look_string(
            b,
            exits[i as int].name,
            indexed_place(path, ".exits["@, i, "].name"@),
        );
        let node = look_string(
            name.budget,
            exits[i as int].from.node,
            indexed_place(path, ".exits["@, i, "].from.node"@),
        );
        name.and(node).and(look_exits(node.budget, exits, path, i + 1))
    }
}

pub open spec fn look_edges(b: Budget, edges: Seq<EdgeView>, path: Seq<char>, i: nat) -> Look
    decreases edges.len() - i,
{
    if i >= edges.len() {
        fine(b)
    } else {
        let from = look_string(
            b,
            edges[i as int].from.node,
            indexed_place(path, ".edges["@, i, "].from.node"@),
        );
        let to = look_string(
            from.budget,
            edges[i as int].to.node,
            indexed_place(path, ".edges["@, i, "].to.node"@),
        );
        from.and(to).and(look_edges(to.budget, edges, path, i + 1))
    }
}

/// Everything in one graph, once its counts have passed.
pub open spec fn look_inside(b: Budget, graph: GraphView, path: Seq<char>, depth: nat) -> Look {
    let id = match graph.id {
        Some(id) => look_string(b, id, path + ".id"@),
        None => fine(b),
    };
    let entries = look_entries(id.budget, graph.entries, path, 0);
    let exits = look_exits(entries.budget, graph.exits, path, 0);
    let edges = look_edges(exits.budget, graph.edges, path, 0);
    id.and(entries).and(exits).and(edges).and(look_nodes(edges.budget, graph.nodes, path, depth, 0))
}

/// The counts of one graph, and whether to look inside.
pub open spec fn look_counts(b: Budget, graph: GraphView, path: Seq<char>) -> (Look, bool) {
    let local = if graph.nodes.len() > GRAPH_MAX_LOCAL_NODES {
        exceeded(
            b,
            path,
            "nodes in one lexical graph"@,
            graph.nodes.len(),
            GRAPH_MAX_LOCAL_NODES as nat,
        )
    } else {
        fine(b)
    };
    let counted = Budget { nodes: capped(b.nodes as nat + graph.nodes.len()), ..b };
    let edged = Budget { edges: capped(counted.edges as nat + graph.edges.len()), ..counted };
    let ended = Budget {
        endpoints: capped(
            saturated(edged.endpoints as nat + graph.entries.len()) + graph.exits.len(),
        ),
        ..edged
    };
    if counted.nodes > GRAPH_MAX_TOTAL_NODES {
        let total = exceeded(
            counted,
            path,
            "total nodes"@,
            counted.nodes as nat,
            GRAPH_MAX_TOTAL_NODES as nat,
        );
        (local.and(total), false)
    } else if edged.edges > GRAPH_MAX_TOTAL_EDGES {
        let total = exceeded(
            edged,
            path,
            "total edges"@,
            edged.edges as nat,
            GRAPH_MAX_TOTAL_EDGES as nat,
        );
        (local.and(total), false)
    } else if ended.endpoints > GRAPH_MAX_TOTAL_ENDPOINTS {
        let total = exceeded(
            ended,
            path,
            "total entries and exits"@,
            ended.endpoints as nat,
            GRAPH_MAX_TOTAL_ENDPOINTS as nat,
        );
        (local.and(total), false)
    } else {
        (local.and(fine(ended)), true)
    }
}

/// One graph, and whether to go on to the next. A total that is exceeded ends
/// the look.
pub open spec fn look_graph(b: Budget, graph: GraphView, path: Seq<char>, depth: nat, met: nat) -> (
    Look,
    bool,
) {
    if met > GRAPH_MAX_TOTAL_GRAPHS {
        (
            exceeded(b, path, "nested graph count"@, met, GRAPH_MAX_TOTAL_GRAPHS as nat),
            false,
        )
    } else if depth > GRAPH_MAX_DEPTH {
        (exceeded(b, path, "nesting depth"@, depth, GRAPH_MAX_DEPTH as nat), true)
    } else {
        let (counts, go) = look_counts(b, graph, path);
        if go {
            (counts.and(look_inside(counts.budget, graph, path, depth)), true)
        } else {
            (counts, false)
        }
    }
}

/// The graphs that wait to be looked at, the last one first.
pub open spec fn look_graphs(
    b: Budget,
    stack: Seq<(GraphView, Seq<char>, nat)>,
    met: nat,
) -> Look
    decreases GRAPH_MAX_TOTAL_GRAPHS + 1 - met,
{
    if stack.len() == 0 || met > GRAPH_MAX_TOTAL_GRAPHS {
        fine(b)
    } else {
        let (graph, path, depth) = stack.last();
        let rest = stack.drop_last();
        let (here, go) = look_graph(b, graph, path, depth, met + 1);
        if go {
            here.and(look_graphs(here.budget, rest + here.nested, met + 1))
        } else {
            here
        }
    }
}

/// The look at a whole graph.
pub open spec fn look(graph: GraphView) -> Look {
    look_graphs(untouched(), seq![(graph, "graph"@, 1nat)], 0)
}

// ---------------------------------------------------------------------------
// Looking
// ---------------------------------------------------------------------------
/// A graph that waits to be looked at, its place and its depth.
type Waiting<'a> = (&'a WorkflowGraph, String, usize);

spec fn waiting_views(stack: Seq<Waiting>) -> Seq<(GraphView, Seq<char>, nat)> {
    stack.map_values(|w: Waiting| (w.0@, w.1@, w.2 as nat))
}

pub struct Preflight {
    pub budget: Budget,
    pub faults: Faults,
}

/// How a look in progress relates to the whole: `rest` remains to be done.
spec fn continues(
    before: Seq<GraphErrorView>,
    whole: Look,
    now: Seq<GraphErrorView>,
    valid: bool,
    rest: Look,
) -> bool {
    &&& whole.budget == rest.budget
    &&& whole.ok == (valid && rest.ok)
    &&& all_reported(before, whole.errors) == all_reported(now, rest.errors)
}

impl Preflight {
    /// What a look came to.
    pub open spec fn came_to(&self, before: &Preflight, ok: bool, want: Look) -> bool {
        &&& self.budget == want.budget
        &&& ok == want.ok
        &&& self.faults@ == all_reported(before.faults@, want.errors)
    }

    pub fn new(faults: Faults) -> (res: Self)
        ensures
            res.budget == untouched(),
            res.faults == faults,
    {
        let budget = Budget {
            nodes: 0,
            edges: 0,
            endpoints: 0,
            bindings: 0,
            switch_cases: 0,
            switch_values: 0,
            expression_nodes: 0,
            value_nodes: 0,
            template_parts: 0,
            condition_nodes: 0,
            exit_codes: 0,
            payload_bytes: 0,
        };
        Preflight { budget, faults }
    }

    fn resource_limit(&mut self, path: &str, resource: &str, found: usize, limit: usize)
        ensures
            final(self).budget == old(self).budget,
            final(self).faults@ == reported(
                old(self).faults@,
                limit_fault(path@, resource@, found as nat, limit as nat),
            ),
    {
        self.faults.report(
            path,
            GraphValidationErrorKind::ResourceLimitExceeded {
                resource: owned(resource),
                found,
                limit,
            },
        );
    }

    /// Counts bytes of payload.
    pub fn preflight_payload_bytes(&mut self, bytes: usize, path: &str) -> (ok: bool)
        ensures
            final(self).came_to(old(self), ok, look_bytes(old(self).budget, bytes as nat, path@)),
    {
        if self.budget.payload_bytes > GRAPH_MAX_TOTAL_PAYLOAD_BYTES {
            return false;
        }
        self.budget.payload_bytes = self.budget.payload_bytes.saturating_add(bytes);
        if self.budget.payload_bytes > GRAPH_MAX_TOTAL_PAYLOAD_BYTES {
            self.resource_limit(
                path,
                "total graph payload bytes",
                self.budget.payload_bytes,
                GRAPH_MAX_TOTAL_PAYLOAD_BYTES,
            );
            false
        } else {
            true
        }
    }

    fn look_string(&mut self, s: &str, path: &str) -> (ok: bool)
        ensures
            final(self).came_to(old(self), ok, look_string(old(self).budget, s@, path@)),
    {
        let n: usize = text_len(s);
        if n > GRAPH_MAX_LITERAL_STRING_BYTES {
            self.resource_limit(
                path,
                "single graph string bytes",
                n,
                GRAPH_MAX_LITERAL_STRING_BYTES,
            );
            return false;
        }
        self.preflight_payload_bytes(n, path)
    }

    fn look_measured(&mut self, size: Result<usize, StaticLimitExceeded>, path: &str) -> (ok: bool)
        ensures
            final(self).came_to(
                old(self),
                ok,
                look_measured(old(self).budget, measured(size), path@),
            ),
    {
        match size {
            Ok(bytes) => self.preflight_payload_bytes(bytes, path),
            Err(e) => {
                self.resource_limit(path, &e.resource, e.found, e.limit);
                false
            },
        }
    }

    fn look_codes(&mut self, codes: &Vec<u32>, path: &str) -> (ok: bool)
        ensures
            final(self).came_to(old(self), ok, look_codes(old(self).budget, codes@, path@)),
    {
        let n: usize = codes.len();
        if n > GRAPH_MAX_EXIT_CODES_PER_LIST {
            self.resource_limit(
                path,
                "exit codes in one list",
                n,
                GRAPH_MAX_EXIT_CODES_PER_LIST,
            );
            return false;
        }
        self.budget.exit_codes = self.budget.exit_codes.saturating_add(n);
        if self.budget.exit_codes > GRAPH_MAX_TOTAL_EXIT_CODES {
            self.resource_limit(
                path,
                "total exit codes",
                self.budget.exit_codes,
                GRAPH_MAX_TOTAL_EXIT_CODES,
            );
            false
        } else {
            true
        }
    }

    fn look_expression(&mut self, e: &ExpressionV1, path: &str) -> (ok: bool)
        ensures
            final(self).came_to(old(self), ok, look_expression(old(self).budget, e@, path@)),
    {
        match expression_stats(e, ExpressionLimits::default()) {
            Ok(stats) => {
                self.budget.expression_nodes = self.budget.expression_nodes.saturating_add(
                    stats.nodes,
                );
                if self.budget.expression_nodes > GRAPH_MAX_TOTAL_EXPRESSION_NODES {
                    self.resource_limit(
                        path,
                        "total expression nodes",
                        self.budget.expression_nodes,
                        GRAPH_MAX_TOTAL_EXPRESSION_NODES,
                    );
                    false
                } else {
                    self.preflight_payload_bytes(stats.payload_bytes, path)
                }
            },
            Err(e) => {
                self.resource_limit(path, &e.resource, e.found, e.limit);
                false
            },
        }
    }

    fn look_value(&mut self, value: &Value, path: &str) -> (ok: bool)
        ensures
            final(self).came_to(old(self), ok, look_value(old(self).budget, value@, path@)),
    {
        match json_value_stats(value) {
            Ok(stats) => {
                self.budget.value_nodes = self.budget.value_nodes.saturating_add(stats.nodes);
                if self.budget.value_nodes > GRAPH_MAX_TOTAL_VALUE_NODES {
                    self.resource_limit(
                        path,
                        "total literal value nodes",
                        self.budget.value_nodes,
                        GRAPH_MAX_TOTAL_VALUE_NODES,
                    );
                    false
                } else {
                    self.preflight_payload_bytes(stats.payload_bytes, path)
                }
            },
            Err(e) => {
                self.resource_limit(path, &e.resource, e.found, e.limit);
                false
            },
        }
    }

    fn look_field(&mut self, field: &FieldRef, path: &str, resource: &str) -> (ok: bool)
        ensures
            final(self).came_to(
                old(self),
                ok,
                look_field(old(self).budget, field@, path@, resource@),
            ),
    {
        let n: usize = field.segments.len();
        let most: usize = BindingLimits::default().max_path_segments;
        if n > most {
            self.resource_limit(path, resource, n, most);
            return false;
        }
        let size = field_ref_payload_bytes(field);
        assert(measured(size) == field_bytes(field@));
        self.look_measured(size, path)
    }

    fn look_parts(&mut self, parts: &Vec<TemplatePart>, path: &str) -> (ok: bool)
        ensures
            final(self).came_to(
                old(self),
                ok,
                look_parts(old(self).budget, part_views(parts@), path@, 0),
            ),
    {
        let ghost views = part_views(parts@);
        let ghost whole = look_parts(self.budget, views, path@, 0);
        let mut valid = true;
        let mut i: usize = 0;
        while i < parts.len()
            invariant
                i <= parts@.len(),
                views == part_views(parts@),
                continues(
                    old(self).faults@,
                    whole,
                    self.faults@,
                    valid,
                    look_parts(self.budget, views, path@, i as nat),
                ),
            decreases parts@.len() - i,
        {
            assert(views[i as int] == parts@[i as int]@);
            match &parts[i] {
                TemplatePart::Field { field } => {
                    valid = self.look_field(field, path, "template field path segments") && valid;
                },
                TemplatePart::Literal { .. } => {},
            }
            i = i + 1;
        }
        valid
    }

    fn look_template(&mut self, parts: &Vec<TemplatePart>, path: &str) -> (ok: bool)
        ensures
            final(self).came_to(
                old(self),
                ok,
                look_template(old(self).budget, part_views(parts@), path@),
            ),
    {
        let limits = BindingLimits::default();
        let n: usize = parts.len();
        let mut valid = true;
        self.budget.template_parts = self.budget.template_parts.saturating_add(n);
        if n > limits.max_template_parts {
            self.resource_limit(path, "template parts", n, limits.max_template_parts);
            valid = false;
        }
        if self.budget.template_parts > GRAPH_MAX_TOTAL_TEMPLATE_PARTS {
            self.resource_limit(
                path,
                "total template parts",
                self.budget.template_parts,
                GRAPH_MAX_TOTAL_TEMPLATE_PARTS,
            );
            valid = false;
        }
        let bytes: usize = count_literals(parts);
        if bytes > limits.max_rendered_bytes {
            self.resource_limit(
                path,
                "template literal bytes",
                bytes,
                limits.max_rendered_bytes,
            );
            valid = false;
        } else {
            valid = self.preflight_payload_bytes(bytes, path) && valid;
        }
        self.look_parts(parts, path) && valid
    }

    fn look_binding(&mut self, binding: &Binding, path: &str) -> (ok: bool)
        ensures
            final(self).came_to(old(self), ok, look_binding(old(self).budget, binding@, path@)),
    {
        let limits = BindingLimits::default();
        match binding {
            Binding::Literal { value } => self.look_value(value, path),
            Binding::Field { field } => self.look_field(field, path, "binding path segments"),
            Binding::Template { template } => {
                let n: usize = text_len(template);
                if n > limits.max_rendered_bytes {
                    self.resource_limit(path, "template bytes", n, limits.max_rendered_bytes);
                    false
                } else {
                    self.preflight_payload_bytes(n, path)
                }
            },
            Binding::Interpolated { parts } => self.look_template(parts, path),
        }
    }

    #[verifier::rlimit(40)]
    fn look_condition(&mut self, root: &StepCondition, path: &str) -> (ok: bool)
        ensures
            final(self).came_to(
                old(self),
                ok,
                look_conditions(old(self).budget, seq![(root@, 1nat)], path@, 0),
            ),
    {
        let mut valid = true;
        let mut nodes: usize = 0;
        let mut stack: Vec<(&StepCondition, usize)> = Vec::new();
        stack.push((root, 1));
        assert(condition_items(stack@) =~= seq![(root@, 1nat)]);
        let ghost whole = look_conditions(self.budget, seq![(root@, 1nat)], path@, 0);
        while stack.len() > 0
            invariant
                nodes <= 256,
                continues(
                    old(self).faults@,
                    whole,
                    self.faults@,
                    valid,
                    look_conditions(
                        self.budget,
                        condition_items(stack@),
                        path@,
                        nodes as nat,
                    ),
                ),
                whole == look_conditions(old(self).budget, seq![(root@, 1nat)], path@, 0),
            decreases 257 - nodes,
        {
            let ghost all = condition_items(stack@);
            let (condition, depth) = stack.pop().unwrap();
            assert(all.last() == (condition@, depth as nat));
            assert(all.drop_last() =~= condition_items(stack@));
            if depth > 32 {
                self.resource_limit(path, "condition depth", depth, 32);
                return false;
            }
            nodes = nodes + 1;
            self.budget.condition_nodes = self.budget.condition_nodes.saturating_add(1);
            if nodes > 256 {
                self.resource_limit(path, "condition nodes", nodes, 256);
                return false;
            }
            if self.budget.condition_nodes > GRAPH_MAX_TOTAL_CONDITION_NODES {
                self.resource_limit(
                    path,
                    "total condition nodes",
                    self.budget.condition_nodes,
                    GRAPH_MAX_TOTAL_CONDITION_NODES,
                );
                return false;
            }
            match condition {
                StepCondition::Expression { rule, .. } => {
                    valid = self.look_expression(rule, path) && valid;
                },
                StepCondition::All { conditions } | StepCondition::Any { conditions } => {
                    let n: usize = conditions.len();
                    assert(condition_views(conditions@).len() == n);
                    assert(condition_items(stack@).len() == stack@.len());
                    assert(condition@ == (ConditionView::All {
                        conditions: condition_views(conditions@),
                    }) || condition@ == (ConditionView::Any {
                        conditions: condition_views(conditions@),
                    }));
                    let local: usize = nodes.saturating_add(stack.len()).saturating_add(n);
                    if local > 256 {
                        self.resource_limit(path, "condition nodes", local, 256);
                        return false;
                    }
                    let total: usize = self.budget.condition_nodes.saturating_add(
                        stack.len(),
                    ).saturating_add(n);
                    if total > GRAPH_MAX_TOTAL_CONDITION_NODES {
                        self.resource_limit(
                            path,
                            "total condition nodes",
                            total,
                            GRAPH_MAX_TOTAL_CONDITION_NODES,
                        );
                        return false;
                    }
                    push_conditions(&mut stack, conditions, depth + 1);
                },
                StepCondition::Not { condition } => {
                    let ghost before = condition_items(stack@);
                    stack.push((condition, depth + 1));
                    assert(condition_items(stack@) =~= before.push(
                        (condition@, (depth + 1) as nat),
                    ));
                },
                StepCondition::ExitCode { step, codes } => {
                    valid = self.look_string(step, path) && valid;
                    valid = self.look_codes(codes, path) && valid;
                },
                StepCondition::Path { path: place, expect } => {
                    valid = self.look_string(place, path) && valid;
                    match &expect.sha256 {
                        Some(sha256) => {
                            valid = self.look_string(sha256, path) && valid;
                        },
                        None => {},
                    }
                },
            }
        }
        assert(condition_items(stack@) =~= Seq::empty());
        valid
    }

    fn look_optional_condition(&mut self, condition: &Option<StepCondition>, path: &str) -> (ok:
        bool)
        ensures
            final(self).came_to(
                old(self),
                ok,
                look_condition(old(self).budget, optional_condition(*condition), path@),
            ),
    {
        match condition {
            Some(condition) => self.look_condition(condition, path),
            None => true,
        }
    }

    fn look_bindings(&mut self, bindings: &TextMap<Binding>, place: &str) -> (ok: bool)
        ensures
            final(self).came_to(
                old(self),
                ok,
                look_bindings(old(self).budget, binding_views(bindings.entries@), place@, 0),
            ),
    {
        let ghost views = binding_views(bindings.entries@);
        let ghost whole = look_bindings(self.budget, views, place@, 0);
        let mut valid = true;
        let mut i: usize = 0;
        while i < bindings.entries.len()
            invariant
                i <= bindings.entries@.len(),
                views == binding_views(bindings.entries@),
                continues(
                    old(self).faults@,
                    whole,
                    self.faults@,
                    valid,
                    look_bindings(self.budget, views, place@, i as nat),
                ),
            decreases bindings.entries@.len() - i,
        {
            let name = &bindings.entries[i].0;
            assert(views[i as int] == (name@, bindings.entries@[i as int].1@));
            let target = joined(place, ".bindings.target");
            valid = self.look_string(name, &target) && valid;
            let mut below = joined(place, ".bindings[");
            below.append(&quoted(name));
            below.append("]");
            valid = self.look_binding(&bindings.entries[i].1, &below) && valid;
            i = i + 1;
        }
        valid
    }

    fn look_action(&mut self, node: &ActionNode, place: &str) -> (ok: bool)
        ensures
            final(self).came_to(old(self), ok, look_action(old(self).budget, node@, place@)),
    {
        let below = joined(place, ".name");
        let mut valid = self.look_string(&node.step.name, &below);
        match &node.step.check {
            Some(check) => {
                let below = joined(place, ".check");
                let size = serialized_payload_bytes(&check.document);
                assert(measured(size) == document_bytes(check.document@));
                valid = self.look_measured(size, &below) && valid;
            },
            None => {},
        }
        let below = joined(place, ".action");
        let size = serialized_payload_bytes(&node.step.action.to_value());
        assert(measured(size) == document_bytes(node.step.action@.document()));
        valid = self.look_measured(size, &below) && valid;
        match &node.step.action {
            Action::RunScript { success_exit_codes, .. } => {
                let below = joined(place, ".action.success_exit_codes");
                valid = self.look_codes(success_exit_codes, &below) && valid;
            },
            _ => {},
        }
        let n: usize = node.bindings.entries.len();
        let most: usize = BindingLimits::default().max_bindings;
        if n > most {
            self.resource_limit(place, "bindings on one action", n, most);
            return false;
        }
        self.budget.bindings = self.budget.bindings.saturating_add(n);
        if self.budget.bindings > GRAPH_MAX_TOTAL_BINDINGS {
            self.resource_limit(
                place,
                "total action bindings",
                self.budget.bindings,
                GRAPH_MAX_TOTAL_BINDINGS,
            );
            valid = false;
        } else {
            valid = self.look_bindings(&node.bindings, place) && valid;
        }
        let below = joined(place, ".when");
        valid = self.look_optional_condition(&node.step.when, &below) && valid;
        let below = joined(place, ".require");
        self.look_optional_condition(&node.step.require, &below) && valid
    }

    fn look_values(&mut self, values: &Vec<Value>, place: &str) -> (ok: bool)
        ensures
            final(self).came_to(
                old(self),
                ok,
                look_values(old(self).budget, value_views(values@), place@, 0),
            ),
    {
        let ghost views = value_views(values@);
        let ghost whole = look_values(self.budget, views, place@, 0);
        let mut valid = true;
        let mut i: usize = 0;
        while i < values.len()
            invariant
                i <= values@.len(),
                views == value_views(values@),
                continues(
                    old(self).faults@,
                    whole,
                    self.faults@,
                    valid,
                    look_values(self.budget, views, place@, i as nat),
                ),
            decreases values@.len() - i,
        {
            assert(views[i as int] == values@[i as int]@);
            let mut below = joined(place, ".values[");
            below.append(&count_text(i));
            below.append("]");
            valid = self.look_value(&values[i], &below) && valid;
            i = i + 1;
        }
        valid
    }

    fn look_case<'a>(
        &mut self,
        case: &'a SwitchCase,
        place: &str,
        here: &str,
        depth: usize,
        stack: &mut Vec<Waiting<'a>>,
    ) -> (res: (bool, bool))
        requires
            depth <= GRAPH_MAX_DEPTH,
        ensures
            ({
                let (want, more) = look_case(
                    old(self).budget,
                    case@,
                    place@,
                    here@,
                    depth as nat,
                );
                &&& final(self).came_to(old(self), res.0, want)
                &&& res.1 == more
                &&& waiting_views(final(stack)@) == waiting_views(old(stack)@) + want.nested
            }),
    {
        let ghost want = look_case(self.budget, case@, place@, here@, depth as nat).0;
        let ghost start = waiting_views(stack@);
        let below = joined(here, ".id");
        let valid = self.look_string(&case.id, &below);
        let n: usize = case.values.len();
        self.budget.switch_values = self.budget.switch_values.saturating_add(n);
        if self.budget.switch_values > GRAPH_MAX_TOTAL_SWITCH_VALUES {
            self.resource_limit(
                place,
                "total switch case values",
                self.budget.switch_values,
                GRAPH_MAX_TOTAL_SWITCH_VALUES,
            );
            assert(waiting_views(stack@) =~= start + want.nested);
            return (false, false);
        }
        proof {
            lemma_values_nest_nothing(self.budget, value_views(case.values@), here@, 0);
        }
        let valid = self.look_values(&case.values, here) && valid;
        let below = joined(here, ".graph");
        push_graph(stack, &case.graph, below, depth + 1);
        assert(waiting_views(stack@) =~= start + want.nested);
        (valid, true)
    }

    fn look_cases<'a>(
        &mut self,
        cases: &'a Vec<SwitchCase>,
        place: &str,
        depth: usize,
        stack: &mut Vec<Waiting<'a>>,
    ) -> (ok: bool)
        requires
            depth <= GRAPH_MAX_DEPTH,
        ensures
            ({
                let want = look_cases(
                    old(self).budget,
                    case_views(cases@),
                    place@,
                    depth as nat,
                    0,
                );
                &&& final(self).came_to(old(self), ok, want)
                &&& waiting_views(final(stack)@) == waiting_views(old(stack)@) + want.nested
            }),
    {
        let ghost views = case_views(cases@);
        let ghost whole = look_cases(self.budget, views, place@, depth as nat, 0);
        let ghost start = waiting_views(stack@);
        let mut valid = true;
        let mut i: usize = 0;
        while i < cases.len()
            invariant
                i <= cases@.len(),
                depth <= GRAPH_MAX_DEPTH,
                views == case_views(cases@),
                whole == look_cases(old(self).budget, views, place@, depth as nat, 0),
                start == waiting_views(old(stack)@),
                continues(
                    old(self).faults@,
                    whole,
                    self.faults@,
                    valid,
                    look_cases(self.budget, views, place@, depth as nat, i as nat),
                ),
                start + whole.nested == waiting_views(stack@) + look_cases(
                    self.budget,
                    views,
                    place@,
                    depth as nat,
                    i as nat,
                ).nested,
            decreases cases@.len() - i,
        {
            assert(views[i as int] == cases@[i as int]@);
            let ghost was = waiting_views(stack@);
            let ghost here = look_case(
                self.budget,
                views[i as int],
                place@,
                case_place(place@, i as nat),
                depth as nat,
            ).0;
            let below = show_case_place(place, i);
            let (ok, more) = self.look_case(&cases[i], place, &below, depth, stack);
            valid = ok && valid;
            if !more {
                return valid;
            }
            i = i + 1;
            proof {
                let next = look_cases(self.budget, views, place@, depth as nat, i as nat);
                assert(was + (here.nested + next.nested) =~= waiting_views(stack@) + next.nested);
            }
        }
        assert(waiting_views(stack@) + Seq::<(GraphView, Seq<char>, nat)>::empty()
            =~= waiting_views(stack@));
        valid
    }

    fn look_switch<'a>(
        &mut self,
        node: &'a SwitchNode,
        place: &str,
        depth: usize,
        stack: &mut Vec<Waiting<'a>>,
    ) -> (ok: bool)
        requires
            depth <= GRAPH_MAX_DEPTH,
        ensures
            ({
                let want = look_switch(old(self).budget, node@, place@, depth as nat);
                &&& final(self).came_to(old(self), ok, want)
                &&& waiting_views(final(stack)@) == waiting_views(old(stack)@) + want.nested
            }),
    {
        let ghost want = look_switch(self.budget, node@, place@, depth as nat);
        let ghost start = waiting_views(stack@);
        let below = joined(place, ".selector");
        let mut valid = self.look_binding(&node.selector, &below);
        proof {
            lemma_binding_nests_nothing(old(self).budget, node.selector@, below@);
        }
        let n: usize = node.cases.len();
        self.budget.switch_cases = self.budget.switch_cases.saturating_add(n);
        if self.budget.switch_cases > GRAPH_MAX_TOTAL_SWITCH_CASES {
            self.resource_limit(
                place,
                "total switch cases",
                self.budget.switch_cases,
                GRAPH_MAX_TOTAL_SWITCH_CASES,
            );
            valid = false;
        } else {
            valid = self.look_cases(&node.cases, place, depth, stack) && valid;
        }
        let ghost middle = waiting_views(stack@);
        match &node.default {
            Some(graph) => {
                let below = joined(place, ".default");
                push_graph(stack, graph, below, depth + 1);
            },
            None => {},
        }
        assert(waiting_views(stack@) =~= start + want.nested);
        valid
    }

    fn look_loop<'a>(
        &mut self,
        node: &'a ForEachNode,
        place: &str,
        depth: usize,
        stack: &mut Vec<Waiting<'a>>,
    ) -> (ok: bool)
        requires
            depth <= GRAPH_MAX_DEPTH,
        ensures
            ({
                let want = look_loop(old(self).budget, node@, place@, depth as nat);
                &&& final(self).came_to(old(self), ok, want)
                &&& waiting_views(final(stack)@) == waiting_views(old(stack)@) + want.nested
            }),
    {
        let ghost want = look_loop(self.budget, node@, place@, depth as nat);
        let ghost start = waiting_views(stack@);
        let below = joined(place, ".item_alias");
        let mut valid = self.look_string(&node.item_alias, &below);
        match &node.index_alias {
            Some(alias) => {
                let below = joined(place, ".index_alias");
                valid = self.look_string(alias, &below) && valid;
            },
            None => {},
        }
        let below = joined(place, ".collection");
        proof {
            lemma_binding_nests_nothing(self.budget, node.collection@, below@);
        }
        valid = self.look_binding(&node.collection, &below) && valid;
        let below = joined(place, ".body");
        push_graph(stack, &node.body, below, depth + 1);
        assert(waiting_views(stack@) =~= start + want.nested);
        valid
    }

    fn look_node<'a>(
        &mut self,
        node: &'a GraphNode,
        place: &str,
        depth: usize,
        stack: &mut Vec<Waiting<'a>>,
    ) -> (ok: bool)
        requires
            depth <= GRAPH_MAX_DEPTH,
        ensures
            ({
                let want = look_node(old(self).budget, node@, place@, depth as nat);
                &&& final(self).came_to(old(self), ok, want)
                &&& waiting_views(final(stack)@) == waiting_views(old(stack)@) + want.nested
            }),
    {
        let ghost want = look_node(self.budget, node@, place@, depth as nat);
        let ghost start = waiting_views(stack@);
        let below = joined(place, ".id");
        let valid = self.look_string(node.id(), &below);
        let inner = match node {
            GraphNode::Action(action) => {
                proof {
                    lemma_action_nests_nothing(self.budget, action@, place@);
                }
                self.look_action(action, place)
            },
            GraphNode::ForEach(control) => self.look_loop(control, place, depth, stack),
            GraphNode::If(control) => {
                let below = joined(place, ".condition");
                let ok = self.look_expression(&control.condition, &below);
                let below = joined(place, ".then");
                push_graph(stack, &control.then_graph, below, depth + 1);
                match &control.else_graph {
                    Some(graph) => {
                        let below = joined(place, ".else");
                        push_graph(stack, graph, below, depth + 1);
                    },
                    None => {},
                }
                ok
            },
            GraphNode::Switch(control) => self.look_switch(control, place, depth, stack),
            GraphNode::Join(_) => true,
        };
        assert(waiting_views(stack@) =~= start + want.nested);
        inner && valid
    }

    fn look_nodes<'a>(
        &mut self,
        nodes: &'a Vec<GraphNode>,
        path: &str,
        depth: usize,
        stack: &mut Vec<Waiting<'a>>,
    ) -> (ok: bool)
        requires
            depth <= GRAPH_MAX_DEPTH,
        ensures
            ({
                let want = look_nodes(
                    old(self).budget,
                    node_views(nodes@),
                    path@,
                    depth as nat,
                    0,
                );
                &&& final(self).came_to(old(self), ok, want)
                &&& waiting_views(final(stack)@) == waiting_views(old(stack)@) + want.nested
            }),
    {
        let ghost views = node_views(nodes@);
        let ghost whole = look_nodes(self.budget, views, path@, depth as nat, 0);
        let ghost start = waiting_views(stack@);
        let mut valid = true;
        let mut i: usize = 0;
        while i < nodes.len()
            invariant
                i <= nodes@.len(),
                depth <= GRAPH_MAX_DEPTH,
                views == node_views(nodes@),
                continues(
                    old(self).faults@,
                    whole,
                    self.faults@,
                    valid,
                    look_nodes(self.budget, views, path@, depth as nat, i as nat),
                ),
                start + whole.nested == waiting_views(stack@) + look_nodes(
                    self.budget,
                    views,
                    path@,
                    depth as nat,
                    i as nat,
                ).nested,
            decreases nodes@.len() - i,
        {
            assert(views[i as int] == nodes@[i as int]@);
            let ghost was = waiting_views(stack@);
            let ghost here = look_node(
                self.budget,
                views[i as int],
                node_place(path@, i as nat),
                depth as nat,
            );
            let place = show_node_place(path, i);
            valid = self.look_node(&nodes[i], &place, depth, stack) && valid;
            i = i + 1;
            proof {
                let next = look_nodes(self.budget, views, path@, depth as nat, i as nat);
                assert(was + (here.nested + next.nested) =~= waiting_views(stack@) + next.nested);
            }
        }
        assert(waiting_views(stack@) + Seq::<(GraphView, Seq<char>, nat)>::empty()
            =~= waiting_views(stack@));
        valid
    }

    fn look_entries(&mut self, entries: &Vec<String>, path: &str) -> (ok: bool)
        ensures
            final(self).came_to(
                old(self),
                ok,
                look_entries(old(self).budget, text_views(entries@), path@, 0),
            ),
    {
        let ghost views = text_views(entries@);
        let ghost whole = look_entries(self.budget, views, path@, 0);
        let mut valid = true;
        let mut i: usize = 0;
        while i < entries.len()
            invariant
                i <= entries@.len(),
                views == text_views(entries@),
                continues(
                    old(self).faults@,
                    whole,
                    self.faults@,
                    valid,
                    look_entries(self.budget, views, path@, i as nat),
                ),
            decreases entries@.len() - i,
        {
            assert(views[i as int] == entries@[i as int]@);
            let below = show_indexed_place(path, ".entries[", i, "]");
            valid = self.look_string(&entries[i], &below) && valid;
            i = i + 1;
        }
        valid
    }

    fn look_exits(&mut self, exits: &Vec<GraphExit>, path: &str) -> (ok: bool)
        ensures
            final(self).came_to(
                old(self),
                ok,
                look_exits(old(self).budget, exit_views(exits@), path@, 0),
            ),
    {
        let ghost views = exit_views(exits@);
        let ghost whole = look_exits(self.budget, views, path@, 0);
        let mut valid = true;
        let mut i: usize = 0;
        while i < exits.len()
            invariant
                i <= exits@.len(),
                views == exit_views(exits@),
                continues(
                    old(self).faults@,
                    whole,
                    self.faults@,
                    valid,
                    look_exits(self.budget, views, path@, i as nat),
                ),
            decreases exits@.len() - i,
        {
            assert(views[i as int] == exits@[i as int]@);
            let below = show_indexed_place(path, ".exits[", i, "].name");
            valid = self.look_string(&exits[i].name, &below) && valid;
            let below = show_indexed_place(path, ".exits[", i, "].from.node");
            valid = self.look_string(&exits[i].from.node, &below) && valid;
            i = i + 1;
        }
        valid
    }

    fn look_edges(&mut self, edges: &Vec<GraphEdge>, path: &str) -> (ok: bool)
        ensures
            final(self).came_to(
                old(self),
                ok,
                look_edges(old(self).budget, edge_views(edges@), path@, 0),
            ),
    {
        let ghost views = edge_views(edges@);
        let ghost whole = look_edges(self.budget, views, path@, 0);
        let mut valid = true;
        let mut i: usize = 0;
        while i < edges.len()
            invariant
                i <= edges@.len(),
                views == edge_views(edges@),
                continues(
                    old(self).faults@,
                    whole,
                    self.faults@,
                    valid,
                    look_edges(self.budget, views, path@, i as nat),
                ),
            decreases edges@.len() - i,
        {
            assert(views[i as int] == edges@[i as int]@);
            let below = show_indexed_place(path, ".edges[", i, "].from.node");
            valid = self.look_string(&edges[i].from.node, &below) && valid;
            let below = show_indexed_place(path, ".edges[", i, "].to.node");
            valid = self.look_string(&edges[i].to.node, &below) && valid;
            i = i + 1;
        }
        valid
    }

    fn look_inside<'a>(
        &mut self,
        graph: &'a WorkflowGraph,
        path: &str,
        depth: usize,
        stack: &mut Vec<Waiting<'a>>,
    ) -> (ok: bool)
        requires
            depth <= GRAPH_MAX_DEPTH,
        ensures
            ({
                let want = look_inside(old(self).budget, graph@, path@, depth as nat);
                &&& final(self).came_to(old(self), ok, want)
                &&& waiting_views(final(stack)@) == waiting_views(old(stack)@) + want.nested
            }),
    {
        let ghost want = look_inside(self.budget, graph@, path@, depth as nat);
        let ghost start = waiting_views(stack@);
        let mut valid = true;
        match &graph.id {
            Some(id) => {
                let below = joined(path, ".id");
                valid = self.look_string(id, &below);
            },
            None => {},
        }
        proof {
            lemma_entries_nest_nothing(self.budget, graph@.entries, path@, 0);
        }
        valid = self.look_entries(&graph.entries, path) && valid;
        proof {
            lemma_exits_nest_nothing(self.budget, graph@.exits, path@, 0);
        }
        valid = self.look_exits(&graph.exits, path) && valid;
        proof {
            lemma_edges_nest_nothing(self.budget, graph@.edges, path@, 0);
        }
        valid = self.look_edges(&graph.edges, path) && valid;
        valid = self.look_nodes(&graph.nodes, path, depth, stack) && valid;
        assert(waiting_views(stack@) =~= start + want.nested);
        valid
    }

    fn look_counts(&mut self, graph: &WorkflowGraph, path: &str) -> (res: (bool, bool))
        ensures
            ({
                let (want, go) = look_counts(old(self).budget, graph@, path@);
                final(self).came_to(old(self), res.0, want) && res.1 == go
            }),
    {
        let mut valid = true;
        let n: usize = graph.nodes.len();
        if n > GRAPH_MAX_LOCAL_NODES {
            self.resource_limit(path, "nodes in one lexical graph", n, GRAPH_MAX_LOCAL_NODES);
            valid = false;
        }
        self.budget.nodes = self.budget.nodes.saturating_add(n);
        if self.budget.nodes > GRAPH_MAX_TOTAL_NODES {
            self.resource_limit(path, "total nodes", self.budget.nodes, GRAPH_MAX_TOTAL_NODES);
            return (false, false);
        }
        self.budget.edges = self.budget.edges.saturating_add(graph.edges.len());
        if self.budget.edges > GRAPH_MAX_TOTAL_EDGES {
            self.resource_limit(path, "total edges", self.budget.edges, GRAPH_MAX_TOTAL_EDGES);
            return (false, false);
        }
        self.budget.endpoints = self.budget.endpoints.saturating_add(
            graph.entries.len(),
        ).saturating_add(graph.exits.len());
        if self.budget.endpoints > GRAPH_MAX_TOTAL_ENDPOINTS {
            self.resource_limit(
                path,
                "total entries and exits",
                self.budget.endpoints,
                GRAPH_MAX_TOTAL_ENDPOINTS,
            );
            return (false, false);
        }
        (valid, true)
    }

    fn look_graph<'a>(
        &mut self,
        graph: &'a WorkflowGraph,
        path: &str,
        depth: usize,
        met: usize,
        stack: &mut Vec<Waiting<'a>>,
    ) -> (res: (bool, bool))
        ensures
            ({
                let (want, go) = look_graph(
                    old(self).budget,
                    graph@,
                    path@,
                    depth as nat,
                    met as nat,
                );
                &&& final(self).came_to(old(self), res.0, want)
                &&& res.1 == go
                &&& waiting_views(final(stack)@) == waiting_views(old(stack)@) + want.nested
            }),
    {
        let ghost want = look_graph(
            self.budget,
            graph@,
            path@,
            depth as nat,
            met as nat,
        ).0;
        let ghost start = waiting_views(stack@);
        if met > GRAPH_MAX_TOTAL_GRAPHS {
            self.resource_limit(path, "nested graph count", met, GRAPH_MAX_TOTAL_GRAPHS);
            assert(waiting_views(stack@) =~= start + want.nested);
            return (false, false);
        }
        if depth > GRAPH_MAX_DEPTH {
            self.resource_limit(path, "nesting depth", depth, GRAPH_MAX_DEPTH);
            assert(waiting_views(stack@) =~= start + want.nested);
            return (false, true);
        }
        let (valid, go) = self.look_counts(graph, path);
        if !go {
            assert(waiting_views(stack@) =~= start + want.nested);
            return (valid, false);
        }
        let ok = self.look_inside(graph, path, depth, stack) && valid;
        assert(waiting_views(stack@) =~= start + want.nested);
        (ok, true)
    }
}

spec fn measured(size: Result<usize, StaticLimitExceeded>) -> Result<nat, LimitView> {
    match size {
        Ok(n) => Ok(n as nat),
        Err(e) => Err(e@),
    }
}

spec fn condition_items(stack: Seq<(&StepCondition, usize)>) -> Seq<(ConditionView, nat)> {
    stack.map_values(|c: (&StepCondition, usize)| (c.0.view(), c.1 as nat))
}

fn push_conditions<'a>(
    stack: &mut Vec<(&'a StepCondition, usize)>,
    conditions: &'a Vec<StepCondition>,
    depth: usize,
)
    ensures
        condition_items(final(stack)@) == condition_items(old(stack)@) + condition_views(
            conditions@,
        ).map_values(|c: ConditionView| (c, depth as nat)),
{
    let ghost start = condition_items(stack@);
    let ghost views = condition_views(conditions@);
    let ghost all = views.map_values(|c: ConditionView| (c, depth as nat));
    let mut i: usize = 0;
    assert(start + all.take(0) =~= start);
    while i < conditions.len()
        invariant
            i <= conditions@.len(),
            views == condition_views(conditions@),
            all == views.map_values(|c: ConditionView| (c, depth as nat)),
            condition_items(stack@) == start + all.take(i as int),
        decreases conditions@.len() - i,
    {
        let ghost was = condition_items(stack@);
        stack.push((&conditions[i], depth));
        proof {
            assert(views[i as int] == conditions@[i as int]@);
            assert(condition_items(stack@) =~= was.push(all[i as int]));
            assert(was.push(all[i as int]) =~= start + all.take(i + 1));
        }
        i = i + 1;
    }
    assert(all.take(i as int) =~= all);
}

fn push_graph<'a>(stack: &mut Vec<Waiting<'a>>, graph: &'a WorkflowGraph, path: String, depth: usize)
    ensures
        waiting_views(final(stack)@) == waiting_views(old(stack)@).push(
            (graph@, path@, depth as nat),
        ),
{
    let ghost before = waiting_views(stack@);
    let ghost added = (graph@, path@, depth as nat);
    stack.push((graph, path, depth));
    assert(waiting_views(stack@) =~= before.push(added));
}

fn count_literals(parts: &Vec<TemplatePart>) -> (res: usize)
    ensures
        res == literal_bytes(part_views(parts@), 0, 0),
{
    let ghost views = part_views(parts@);
    let mut bytes: usize = 0;
    let mut i: usize = 0;
    while i < parts.len()
        invariant
            i <= parts@.len(),
            views == part_views(parts@),
            literal_bytes(views, 0, 0) == literal_bytes(views, i as nat, bytes as nat),
        decreases parts@.len() - i,
    {
        assert(views[i as int] == parts@[i as int]@);
        match &parts[i] {
            TemplatePart::Literal { value } => {
                bytes = bytes.saturating_add(text_len(value));
            },
            TemplatePart::Field { .. } => {},
        }
        i = i + 1;
    }
    bytes
}

fn show_indexed_place(path: &str, list: &str, i: usize, end: &str) -> (res: String)
    ensures
        res@ == indexed_place(path@, list@, i as nat, end@),
{
    let mut out = joined(path, list);
    out.append(&count_text(i));
    out.append(end);
    out
}

// Only control nodes nest graphs.
proof fn lemma_parts_nest_nothing(b: Budget, parts: Seq<PartView>, path: Seq<char>, i: nat)
    ensures
        look_parts(b, parts, path, i).nested == Seq::<(GraphView, Seq<char>, nat)>::empty(),
    decreases parts.len() - i,
{
    if i < parts.len() {
        let here = match parts[i as int] {
            PartView::Field { field } => look_field(
                b,
                field,
                path,
                "template field path segments"@,
            ),
            PartView::Literal { .. } => fine(b),
        };
        lemma_parts_nest_nothing(here.budget, parts, path, i + 1);
        assert(look_parts(b, parts, path, i).nested =~= Seq::empty());
    }
}

proof fn lemma_binding_nests_nothing(b: Budget, binding: BindingView, path: Seq<char>)
    ensures
        look_binding(b, binding, path).nested == Seq::<(GraphView, Seq<char>, nat)>::empty(),
{
    match binding {
        BindingView::Interpolated { parts } => {
            let counted = Budget {
                template_parts: capped(b.template_parts as nat + parts.len()),
                ..b
            };
            let bytes = literal_bytes(parts, 0, 0);
            let literal = if bytes > 65536 {
                exceeded(counted, path, "template literal bytes"@, bytes, 65536)
            } else {
                look_bytes(counted, bytes, path)
            };
            lemma_parts_nest_nothing(literal.budget, parts, path, 0);
            assert(look_binding(b, binding, path).nested =~= Seq::empty());
        },
        _ => {},
    }
}

proof fn lemma_bindings_nest_nothing(
    b: Budget,
    bindings: Seq<(Seq<char>, BindingView)>,
    place: Seq<char>,
    i: nat,
)
    ensures
        look_bindings(b, bindings, place, i).nested == Seq::<(GraphView, Seq<char>, nat)>::empty(),
    decreases bindings.len() - i,
{
    if i < bindings.len() {
        let (name, binding) = bindings[i as int];
        let first = look_string(b, name, place + ".bindings.target"@);
        let below = place + ".bindings["@ + text::debug_text(name) + "]"@;
        let second = look_binding(first.budget, binding, below);
        lemma_binding_nests_nothing(first.budget, binding, below);
        lemma_bindings_nest_nothing(second.budget, bindings, place, i + 1);
        assert(look_bindings(b, bindings, place, i).nested =~= Seq::empty());
    }
}

proof fn lemma_conditions_nest_nothing(
    b: Budget,
    stack: Seq<(ConditionView, nat)>,
    path: Seq<char>,
    nodes: nat,
)
    ensures
        look_conditions(b, stack, path, nodes).nested
            == Seq::<(GraphView, Seq<char>, nat)>::empty(),
    decreases 257 - nodes,
{
    let whole = look_conditions(b, stack, path, nodes);
    if stack.len() > 0 {
        let (condition, depth) = stack.last();
        let rest = stack.drop_last();
        let after = Budget { condition_nodes: capped(b.condition_nodes as nat + 1), ..b };
        if depth <= 32 && nodes + 1 <= 256 {
            match condition {
                ConditionView::Expression { rule, .. } => {
                    let here = look_expression(after, rule, path);
                    lemma_conditions_nest_nothing(here.budget, rest, path, nodes + 1);
                },
                ConditionView::All { conditions } => {
                    lemma_conditions_nest_nothing(
                        after,
                        rest + conditions.map_values(|c: ConditionView| (c, depth + 1)),
                        path,
                        nodes + 1,
                    );
                },
                ConditionView::Any { conditions } => {
                    lemma_conditions_nest_nothing(
                        after,
                        rest + conditions.map_values(|c: ConditionView| (c, depth + 1)),
                        path,
                        nodes + 1,
                    );
                },
                ConditionView::Not { condition } => {
                    lemma_conditions_nest_nothing(
                        after,
                        rest.push((*condition, depth + 1)),
                        path,
                        nodes + 1,
                    );
                },
                ConditionView::ExitCode { step, codes } => {
                    let first = look_string(after, step, path);
                    let second = look_codes(first.budget, codes, path);
                    lemma_conditions_nest_nothing(second.budget, rest, path, nodes + 1);
                },
                ConditionView::Path { path: place, expect } => {
                    let first = look_string(after, place, path);
                    let second = match expect.sha256 {
                        Some(sha256) => look_string(first.budget, sha256, path),
                        None => fine(first.budget),
                    };
                    lemma_conditions_nest_nothing(second.budget, rest, path, nodes + 1);
                },
            }
        }
        assert(whole.nested =~= Seq::empty());
    }
}

proof fn lemma_action_nests_nothing(b: Budget, node: ActionNodeView, place: Seq<char>)
    ensures
        look_action(b, node, place).nested == Seq::<(GraphView, Seq<char>, nat)>::empty(),
{
    assert forall|b: Budget, path: Seq<char>, c: Option<ConditionView>| (
    #[trigger] look_condition(b, c, path)).nested =~= Seq::<
        (GraphView, Seq<char>, nat),
    >::empty() by {
        match c {
            Some(c) => {
                lemma_conditions_nest_nothing(b, seq![(c, 1nat)], path, 0);
            },
            None => {},
        }
    }
    assert forall|b: Budget| (#[trigger] look_bindings(b, node.bindings, place, 0)).nested
        =~= Seq::<(GraphView, Seq<char>, nat)>::empty() by {
        lemma_bindings_nest_nothing(b, node.bindings, place, 0);
    }
    assert(look_action(b, node, place).nested =~= Seq::empty());
}

proof fn lemma_values_nest_nothing(b: Budget, values: Seq<ValueView>, place: Seq<char>, i: nat)
    ensures
        look_values(b, values, place, i).nested == Seq::<(GraphView, Seq<char>, nat)>::empty(),
    decreases values.len() - i,
{
    if i < values.len() {
        let here = look_value(
            b,
            values[i as int],
            place + ".values["@ + text::decimal(i) + "]"@,
        );
        lemma_values_nest_nothing(here.budget, values, place, i + 1);
        assert(look_values(b, values, place, i).nested =~= Seq::empty());
    }
}

proof fn lemma_entries_nest_nothing(b: Budget, list: Seq<Seq<char>>, path: Seq<char>, i: nat)
    ensures
        look_entries(b, list, path, i).nested == Seq::<(GraphView, Seq<char>, nat)>::empty(),
    decreases list.len() - i,
{
    if i < list.len() {
        let here = look_string(b, list[i as int], indexed_place(path, ".entries["@, i, "]"@));
        lemma_entries_nest_nothing(here.budget, list, path, i + 1);
        assert(look_entries(b, list, path, i).nested =~= Seq::empty());
    }
}

proof fn lemma_exits_nest_nothing(b: Budget, list: Seq<ExitView>, path: Seq<char>, i: nat)
    ensures
        look_exits(b, list, path, i).nested == Seq::<(GraphView, Seq<char>, nat)>::empty(),
    decreases list.len() - i,
{
    if i < list.len() {
        let name = look_string(
            b,
            list[i as int].name,
            indexed_place(path, ".exits["@, i, "].name"@),
        );
        let node = look_string(
            name.budget,
            list[i as int].from.node,
            indexed_place(path, ".exits["@, i, "].from.node"@),
        );
        lemma_exits_nest_nothing(node.budget, list, path, i + 1);
        assert(look_exits(b, list, path, i).nested =~= Seq::empty());
    }
}

proof fn lemma_edges_nest_nothing(b: Budget, list: Seq<EdgeView>, path: Seq<char>, i: nat)
    ensures
        look_edges(b, list, path, i).nested == Seq::<(GraphView, Seq<char>, nat)>::empty(),
    decreases list.len() - i,
{
    if i < list.len() {
        let from = look_string(
            b,
            list[i as int].from.node,
            indexed_place(path, ".edges["@, i, "].from.node"@),
        );
        let to = look_string(
            from.budget,
            list[i as int].to.node,
            indexed_place(path, ".edges["@, i, "].to.node"@),
        );
        lemma_edges_nest_nothing(to.budget, list, path, i + 1);
        assert(look_edges(b, list, path, i).nested =~= Seq::empty());
    }
}

/// Looks at a graph and all that is nested in it.
pub fn preflight(root: &WorkflowGraph, faults: Faults) -> (res: (bool, Faults))
    ensures
        res.0 == look(root@).ok,
        res.1@ == all_reported(faults@, look(root@).errors),
{
    let ghost before = faults@;
    let mut flight = Preflight::new(faults);
    let mut stack: Vec<Waiting> = Vec::new();
    push_graph(&mut stack, root, owned("graph"), 1);
    assert(waiting_views(stack@) =~= seq![(root@, "graph"@, 1nat)]);
    let ghost whole = look(root@);
    let mut valid = true;
    let mut met: usize = 0;
    while stack.len() > 0
        invariant
            met <= GRAPH_MAX_TOTAL_GRAPHS,
            before == faults@,
            whole == look(root@),
            continues(
                before,
                whole,
                flight.faults@,
                valid,
                look_graphs(flight.budget, waiting_views(stack@), met as nat),
            ),
        decreases GRAPH_MAX_TOTAL_GRAPHS + 1 - met,
    {
        let ghost all = waiting_views(stack@);
        let (graph, path, depth) = stack.pop().unwrap();
        assert(all.last() == (graph@, path@, depth as nat));
        assert(all.drop_last() =~= waiting_views(stack@));
        met = met + 1;
        let (ok, go) = flight.look_graph(graph, &path, depth, met, &mut stack);
        valid = ok && valid;
        if !go {
            return (valid, flight.faults);
        }
    }
    assert(waiting_views(stack@) =~= Seq::empty());
    (valid, flight.faults)
}

// ---------------------------------------------------------------------------
// Laws
// ---------------------------------------------------------------------------
/// A look that is acceptable reports nothing, and one that is not reports
/// something, unless the bytes had run out before it.
pub open spec fn honest(b: Budget, l: Look) -> bool {
    let spent = b.payload_bytes > GRAPH_MAX_TOTAL_PAYLOAD_BYTES;
    &&& l.ok ==> l.errors.len() == 0
    &&& !l.ok ==> l.errors.len() > 0 || spent
    &&& l.budget.payload_bytes > GRAPH_MAX_TOTAL_PAYLOAD_BYTES ==> l.errors.len() > 0 || spent
}

proof fn lemma_honest_parts(b: Budget, parts: Seq<PartView>, path: Seq<char>, i: nat)
    ensures
        honest(b, look_parts(b, parts, path, i)),
    decreases parts.len() - i,
{
    if i < parts.len() {
        let here = match parts[i as int] {
            PartView::Field { field } => look_field(
                b,
                field,
                path,
                "template field path segments"@,
            ),
            PartView::Literal { .. } => fine(b),
        };
        lemma_honest_parts(here.budget, parts, path, i + 1);
    }
}

proof fn lemma_honest_binding(b: Budget, binding: BindingView, path: Seq<char>)
    ensures
        honest(b, look_binding(b, binding, path)),
{
    match binding {
        BindingView::Interpolated { parts } => {
            let counted = Budget {
                template_parts: capped(b.template_parts as nat + parts.len()),
                ..b
            };
            let bytes = literal_bytes(parts, 0, 0);
            let literal = if bytes > 65536 {
                exceeded(counted, path, "template literal bytes"@, bytes, 65536)
            } else {
                look_bytes(counted, bytes, path)
            };
            lemma_honest_parts(literal.budget, parts, path, 0);
        },
        _ => {},
    }
}

proof fn lemma_honest_conditions(
    b: Budget,
    stack: Seq<(ConditionView, nat)>,
    path: Seq<char>,
    nodes: nat,
)
    ensures
        honest(b, look_conditions(b, stack, path, nodes)),
    decreases 257 - nodes,
{
    if stack.len() > 0 {
        let (condition, depth) = stack.last();
        let rest = stack.drop_last();
        let after = Budget { condition_nodes: capped(b.condition_nodes as nat + 1), ..b };
        if depth <= 32 && nodes + 1 <= 256 {
            match condition {
                ConditionView::Expression { rule, .. } => {
                    let here = look_expression(after, rule, path);
                    lemma_honest_conditions(here.budget, rest, path, nodes + 1);
                },
                ConditionView::All { conditions } => {
                    lemma_honest_conditions(
                        after,
                        rest + conditions.map_values(|c: ConditionView| (c, depth + 1)),
                        path,
                        nodes + 1,
                    );
                },
                ConditionView::Any { conditions } => {
                    lemma_honest_conditions(
                        after,
                        rest + conditions.map_values(|c: ConditionView| (c, depth + 1)),
                        path,
                        nodes + 1,
                    );
                },
                ConditionView::Not { condition } => {
                    lemma_honest_conditions(
                        after,
                        rest.push((*condition, depth + 1)),
                        path,
                        nodes + 1,
                    );
                },
                ConditionView::ExitCode { step, codes } => {
                    let first = look_string(after, step, path);
                    let second = look_codes(first.budget, codes, path);
                    lemma_honest_conditions(second.budget, rest, path, nodes + 1);
                },
                ConditionView::Path { path: place, expect } => {
                    let first = look_string(after, place, path);
                    let second = match expect.sha256 {
                        Some(sha256) => look_string(first.budget, sha256, path),
                        None => fine(first.budget),
                    };
                    lemma_honest_conditions(second.budget, rest, path, nodes + 1);
                },
            }
        }
    }
}

proof fn lemma_honest_condition(b: Budget, c: Option<ConditionView>, path: Seq<char>)
    ensures
        honest(b, look_condition(b, c, path)),
{
    match c {
        Some(c) => lemma_honest_conditions(b, seq![(c, 1nat)], path, 0),
        None => {},
    }
}

proof fn lemma_honest_bindings(
    b: Budget,
    bindings: Seq<(Seq<char>, BindingView)>,
    place: Seq<char>,
    i: nat,
)
    ensures
        honest(b, look_bindings(b, bindings, place, i)),
    decreases bindings.len() - i,
{
    if i < bindings.len() {
        let (name, binding) = bindings[i as int];
        let first = look_string(b, name, place + ".bindings.target"@);
        let below = place + ".bindings["@ + text::debug_text(name) + "]"@;
        let second = look_binding(first.budget, binding, below);
        lemma_honest_binding(first.budget, binding, below);
        lemma_honest_bindings(second.budget, bindings, place, i + 1);
    }
}

proof fn lemma_honest_and(b: Budget, first: Look, second: Look)
    requires
        honest(b, first),
        honest(first.budget, second),
    ensures
        honest(b, first.and(second)),
{
}

#[verifier::spinoff_prover]
#[verifier::rlimit(30)]
proof fn lemma_honest_action(b: Budget, node: ActionNodeView, place: Seq<char>)
    ensures
        honest(b, look_action(b, node, place)),
{
    let name = look_string(b, node.step.name, place + ".name"@);
    let check = match node.step.check {
        Some(document) => look_measured(name.budget, document_bytes(document), place + ".check"@),
        None => fine(name.budget),
    };
    let action = look_measured(
        check.budget,
        document_bytes(node.step.action.document()),
        place + ".action"@,
    );
    let codes = match node.step.action {
        ActionView::RunScript { success_exit_codes, .. } => look_codes(
            action.budget,
            success_exit_codes,
            place + ".action.success_exit_codes"@,
        ),
        _ => fine(action.budget),
    };
    let head = name.and(check).and(action).and(codes);
    lemma_honest_and(b, name, check);
    lemma_honest_and(b, name.and(check), action);
    lemma_honest_and(b, name.and(check).and(action), codes);
    let counted = Budget {
        bindings: capped(codes.budget.bindings as nat + node.bindings.len()),
        ..codes.budget
    };
    lemma_honest_bindings(counted, node.bindings, place, 0);
    let bindings = if counted.bindings > GRAPH_MAX_TOTAL_BINDINGS {
        exceeded(
            counted,
            place,
            "total action bindings"@,
            counted.bindings as nat,
            GRAPH_MAX_TOTAL_BINDINGS as nat,
        )
    } else {
        look_bindings(counted, node.bindings, place, 0)
    };
    lemma_honest_condition(bindings.budget, node.step.when, place + ".when"@);
    let when = look_condition(bindings.budget, node.step.when, place + ".when"@);
    lemma_honest_condition(when.budget, node.step.require, place + ".require"@);
    let require = look_condition(when.budget, node.step.require, place + ".require"@);
    lemma_honest_and(b, head, bindings);
    lemma_honest_and(b, head.and(bindings), when);
    lemma_honest_and(b, head.and(bindings).and(when), require);
}

proof fn lemma_honest_values(b: Budget, values: Seq<ValueView>, place: Seq<char>, i: nat)
    ensures
        honest(b, look_values(b, values, place, i)),
    decreases values.len() - i,
{
    if i < values.len() {
        let here = look_value(
            b,
            values[i as int],
            place + ".values["@ + text::decimal(i) + "]"@,
        );
        lemma_honest_values(here.budget, values, place, i + 1);
    }
}

proof fn lemma_honest_cases(
    b: Budget,
    cases: Seq<CaseView>,
    place: Seq<char>,
    depth: nat,
    i: nat,
)
    ensures
        honest(b, look_cases(b, cases, place, depth, i)),
    decreases cases.len() - i,
{
    if i < cases.len() {
        let case = cases[i as int];
        let spot = case_place(place, i);
        let id = look_string(b, case.id, spot + ".id"@);
        let counted = Budget {
            switch_values: capped(id.budget.switch_values as nat + case.values.len()),
            ..id.budget
        };
        lemma_honest_values(counted, case.values, spot, 0);
        let (here, _) = look_case(b, case, place, spot, depth);
        lemma_honest_cases(here.budget, cases, place, depth, i + 1);
    }
}

proof fn lemma_honest_node(b: Budget, node: NodeView, place: Seq<char>, depth: nat)
    ensures
        honest(b, look_node(b, node, place, depth)),
{
    let id = look_string(b, node.id(), place + ".id"@);
    match node {
        NodeView::Action(action) => {
            lemma_honest_action(id.budget, action, place);
        },
        NodeView::ForEach(control) => {
            let item = look_string(id.budget, control.item_alias, place + ".item_alias"@);
            let index = match control.index_alias {
                Some(alias) => look_string(item.budget, alias, place + ".index_alias"@),
                None => fine(item.budget),
            };
            lemma_honest_binding(index.budget, control.collection, place + ".collection"@);
        },
        NodeView::If(_) => {},
        NodeView::Switch(control) => {
            lemma_honest_binding(id.budget, control.selector, place + ".selector"@);
            let selector = look_binding(id.budget, control.selector, place + ".selector"@);
            let counted = Budget {
                switch_cases: capped(selector.budget.switch_cases as nat + control.cases.len()),
                ..selector.budget
            };
            lemma_honest_cases(counted, control.cases, place, depth, 0);
        },
        NodeView::Join(_) => {},
    }
}

proof fn lemma_honest_nodes(
    b: Budget,
    nodes: Seq<NodeView>,
    path: Seq<char>,
    depth: nat,
    i: nat,
)
    ensures
        honest(b, look_nodes(b, nodes, path, depth, i)),
    decreases nodes.len() - i,
{
    if i < nodes.len() {
        let here = look_node(b, nodes[i as int], node_place(path, i), depth);
        lemma_honest_node(b, nodes[i as int], node_place(path, i), depth);
        lemma_honest_nodes(here.budget, nodes, path, depth, i + 1);
    }
}

proof fn lemma_honest_entries(b: Budget, list: Seq<Seq<char>>, path: Seq<char>, i: nat)
    ensures
        honest(b, look_entries(b, list, path, i)),
    decreases list.len() - i,
{
    if i < list.len() {
        let here = look_string(b, list[i as int], indexed_place(path, ".entries["@, i, "]"@));
        lemma_honest_entries(here.budget, list, path, i + 1);
    }
}

proof fn lemma_honest_exits(b: Budget, list: Seq<ExitView>, path: Seq<char>, i: nat)
    ensures
        honest(b, look_exits(b, list, path, i)),
    decreases list.len() - i,
{
    if i < list.len() {
        let name = look_string(
            b,
            list[i as int].name,
            indexed_place(path, ".exits["@, i, "].name"@),
        );
        let node = look_string(
            name.budget,
            list[i as int].from.node,
            indexed_place(path, ".exits["@, i, "].from.node"@),
        );
        lemma_honest_exits(node.budget, list, path, i + 1);
    }
}

proof fn lemma_honest_edges(b: Budget, list: Seq<EdgeView>, path: Seq<char>, i: nat)
    ensures
        honest(b, look_edges(b, list, path, i)),
    decreases list.len() - i,
{
    if i < list.len() {
        let from = look_string(
            b,
            list[i as int].from.node,
            indexed_place(path, ".edges["@, i, "].from.node"@),
        );
        let to = look_string(
            from.budget,
            list[i as int].to.node,
            indexed_place(path, ".edges["@, i, "].to.node"@),
        );
        lemma_honest_edges(to.budget, list, path, i + 1);
    }
}

proof fn lemma_honest_inside(b: Budget, graph: GraphView, path: Seq<char>, depth: nat)
    ensures
        honest(b, look_inside(b, graph, path, depth)),
{
    let id = match graph.id {
        Some(id) => look_string(b, id, path + ".id"@),
        None => fine(b),
    };
    lemma_honest_entries(id.budget, graph.entries, path, 0);
    let entries = look_entries(id.budget, graph.entries, path, 0);
    lemma_honest_exits(entries.budget, graph.exits, path, 0);
    let exits = look_exits(entries.budget, graph.exits, path, 0);
    lemma_honest_edges(exits.budget, graph.edges, path, 0);
    let edges = look_edges(exits.budget, graph.edges, path, 0);
    lemma_honest_nodes(edges.budget, graph.nodes, path, depth, 0);
}

proof fn lemma_honest_graphs(b: Budget, stack: Seq<(GraphView, Seq<char>, nat)>, met: nat)
    requires
        met <= GRAPH_MAX_TOTAL_GRAPHS,
    ensures
        honest(b, look_graphs(b, stack, met)),
    decreases GRAPH_MAX_TOTAL_GRAPHS + 1 - met,
{
    if stack.len() > 0 {
        let (graph, path, depth) = stack.last();
        let rest = stack.drop_last();
        let (here, go) = look_graph(b, graph, path, depth, met + 1);
        let (counts, inside) = look_counts(b, graph, path);
        lemma_honest_inside(counts.budget, graph, path, depth);
        if go {
            lemma_honest_graphs(here.budget, rest + here.nested, met + 1);
        }
    }
}

/// A graph is refused at the first look exactly where something is reported.
pub proof fn law_refusal_is_reported(graph: GraphView)
    ensures
        look(graph).ok <==> look(graph).errors.len() == 0,
{
    lemma_honest_graphs(untouched(), seq![(graph, "graph"@, 1nat)], 0);
}

/// A count that reaches its limit is let in, and one that passes it is refused: the length of a
/// text, the exit codes of a list, and the nodes of a graph.
pub proof fn law_limits_are_reached(
    b: Budget,
    s: Seq<char>,
    codes: Seq<u32>,
    graph: GraphView,
    path: Seq<char>,
)
    ensures
        text::byte_len(s) <= GRAPH_MAX_LITERAL_STRING_BYTES && b.payload_bytes + text::byte_len(s)
            <= GRAPH_MAX_TOTAL_PAYLOAD_BYTES <==> look_string(b, s, path).ok,
        look_string(b, s, path).ok ==> look_string(b, s, path).budget.payload_bytes
            == b.payload_bytes + text::byte_len(s),
        codes.len() <= GRAPH_MAX_EXIT_CODES_PER_LIST && b.exit_codes + codes.len()
            <= GRAPH_MAX_TOTAL_EXIT_CODES <==> look_codes(b, codes, path).ok,
        look_codes(b, codes, path).ok ==> look_codes(b, codes, path).budget.exit_codes
            == b.exit_codes + codes.len(),
        look_counts(b, graph, path).0.ok <==> graph.nodes.len() <= GRAPH_MAX_LOCAL_NODES && b.nodes
            + graph.nodes.len() <= GRAPH_MAX_TOTAL_NODES && b.edges + graph.edges.len()
            <= GRAPH_MAX_TOTAL_EDGES && b.endpoints + graph.entries.len() + graph.exits.len()
            <= GRAPH_MAX_TOTAL_ENDPOINTS,
{
}

/// A graph that lies too deep, or that comes after too many others, is refused.
pub proof fn law_nesting_is_limited(
    b: Budget,
    graph: GraphView,
    path: Seq<char>,
    depth: nat,
    met: nat,
)
    ensures
        met > GRAPH_MAX_TOTAL_GRAPHS || depth > GRAPH_MAX_DEPTH ==> !look_graph(
            b,
            graph,
            path,
            depth,
            met,
        ).0.ok,
        met <= GRAPH_MAX_TOTAL_GRAPHS && depth <= GRAPH_MAX_DEPTH ==> (look_graph(
            b,
            graph,
            path,
            depth,
            met,
        ).0.ok <==> look_counts(b, graph, path).0.ok && look_inside(
            look_counts(b, graph, path).0.budget,
            graph,
            path,
            depth,
        ).ok),
{
}

} // verus!
