use ppduster::block::{block_definition, default_action};
use ppduster::context::{Binding, ContextScope, FieldRef, TemplatePart};
use ppduster::expr::{
    equality_types_compatible, ordering_types_compatible, ComparisonOperator, ExpressionLimits,
    ExpressionType, ExpressionTypeKind, ExpressionV1, ExpressionValue, ReferenceV1,
};
use ppduster::expression::check_rule;
use ppduster::graph::{
    ActionNode, GraphEdge, GraphNode, WorkflowGraph, GRAPH_MAX_ERRORS,
};
use ppduster::graph_error::EdgePort;
use ppduster::json::{Float, Number, Value};
use ppduster::kind::ActionKind;
use ppduster::legacy::LegacyTaskImporter;
use ppduster::numeric::rank_of_integer;
use ppduster::order::sort_refs;
use ppduster::outcome::{RuleEvaluation, SchemaResolutionError};
use ppduster::reach::{compute_dominators, cyclic_nodes, reachable_nodes};
use ppduster::rewrite::rewrite_graph_aliases;
use ppduster::schema::{ContextType, FieldSchema, ObjectSchema, Sensitivity};
use ppduster::store::{ContextProvenance, ContextStore, ContextValue};
use ppduster::target::{parse_binding_target, set_value_at_path, BindingLimits};
use ppduster::task::{Action, AuthPolicy, ElevationPolicy, Step};
use ppduster::text_map::TextMap;

fn converted(value: serde_json::Value) -> Value {
    match value {
        serde_json::Value::Null => Value::Null,
        serde_json::Value::Bool(value) => Value::Bool(value),
        serde_json::Value::Number(number) => Value::Number(match number.as_u64() {
            Some(value) => Number::PosInt(value),
            None => match number.as_i64() {
                Some(value) => Number::NegInt(value),
                None => Number::Float(Float {
                    bits: number.as_f64().expect("a finite number").to_bits(),
                    text: number.to_string(),
                }),
            },
        }),
        serde_json::Value::String(value) => Value::String(value),
        serde_json::Value::Array(items) => {
            Value::Array(items.into_iter().map(converted).collect())
        }
        serde_json::Value::Object(members) => {
            let mut map = TextMap::new();
            for (name, value) in members {
                map.insert(name, converted(value));
            }
            Value::Object(map)
        }
    }
}

fn json(text: &str) -> Value {
    converted(serde_json::from_str(text).expect("valid JSON"))
}

fn conforms(value_type: &ContextType, value: &Value) -> bool {
    let schema = ObjectSchema::new("wrapper").with_field(
        "value",
        FieldSchema::required(value_type.clone()).nullable(),
    );
    let mut members = TextMap::new();
    members.insert("value".to_string(), value.clone());
    schema.validate_value(&Value::Object(members)).is_ok()
}

fn step(id: &str) -> Step {
    Step {
        id: id.into(),
        name: id.into(),
        bindings: TextMap::new(),
        auth: AuthPolicy::NoAuth,
        check: None,
        dangerous: false,
        allow_elevation: ElevationPolicy::Forbidden,
        when: None,
        require: None,
        action: Action::GithubListRepositories,
    }
}

fn action(id: &str) -> GraphNode {
    GraphNode::Action(Box::new(ActionNode {
        step: step(id),
        bindings: TextMap::new(),
    }))
}

#[test]
fn assignable_values_conform() {
    let actual = ContextType::object(
        ObjectSchema::new("actual")
            .with_field("name", FieldSchema::required(ContextType::plain_string()))
            .with_field("size", FieldSchema::required(ContextType::Integer)),
    );
    let expected = ContextType::object(
        ObjectSchema::new("expected")
            .with_field("size", FieldSchema::optional(ContextType::Number))
            .with_additional_fields(ContextType::plain_string()),
    );
    assert!(expected.is_assignable_from(&actual));
    let value = json(r#"{"name": "disk", "size": 3}"#);
    assert!(conforms(&actual, &value));
    assert!(conforms(&expected, &value));
    assert!(!actual.is_assignable_from(&expected));
    let other = json(r#"{"size": 1.5}"#);
    assert!(conforms(&expected, &other));
    assert!(!conforms(&actual, &other));
}

#[test]
fn values_have_their_inferred_types() {
    for text in [
        "null",
        "true",
        "[1, 2.5, 3]",
        r#"[1, "two", null]"#,
        r#"{"a": [{"b": 1}, {"b": 2}], "c": {}}"#,
    ] {
        let value = json(text);
        assert!(conforms(&ContextType::infer(&value), &value), "{text}");
    }
    assert_eq!(
        ContextType::infer(&json("[1, 2.5, 3]")),
        ContextType::array(ContextType::Number)
    );
}

#[test]
fn a_write_leaves_its_neighbours_alone() {
    let path = parse_binding_target("/a/list", BindingLimits::default()).unwrap();
    let root = json(r#"{"a": {"keep": [1, 2], "list": [3]}, "z": true}"#);
    let written = set_value_at_path(root, &path, Value::Null).unwrap();
    assert_eq!(
        written,
        json(r#"{"a": {"keep": [1, 2], "list": null}, "z": true}"#)
    );
}

#[test]
fn an_empty_context_gives_checked_rules_no_surprises() {
    let store = ContextStore::default();
    let rule = ExpressionV1::Not {
        expression: Box::new(ExpressionV1::Compare {
            operator: ComparisonOperator::Equal,
            left: Box::new(ExpressionV1::Literal {
                value: ExpressionValue::Int(1),
            }),
            right: Box::new(ExpressionV1::Literal {
                value: ExpressionValue::UInt(1),
            }),
        }),
    };
    let checked = check_rule(rule, &store, ExpressionLimits::default()).unwrap();
    assert_eq!(checked.evaluate_rule(&store), RuleEvaluation::False);
    assert_eq!(
        checked.result_type(),
        &ExpressionType::required(ExpressionTypeKind::Bool)
    );
}

#[test]
fn compatibility_does_not_depend_on_the_side() {
    let types = [
        ExpressionType::required(ExpressionTypeKind::Integer),
        ExpressionType::nullable(ExpressionTypeKind::Number),
        ExpressionType::required(ExpressionTypeKind::String),
        ExpressionType::null(),
        ExpressionType::list(ExpressionType::bool()),
    ];
    for left in &types {
        for right in &types {
            assert_eq!(
                equality_types_compatible(left, right),
                equality_types_compatible(right, left)
            );
            assert_eq!(
                ordering_types_compatible(left, right),
                ordering_types_compatible(right, left)
            );
        }
    }
    assert!(equality_types_compatible(&types[0], &types[1]));
    assert!(!equality_types_compatible(&types[0], &types[2]));
}

#[test]
fn reported_faults_are_capped() {
    let graph = WorkflowGraph {
        entries: (0..2 * GRAPH_MAX_ERRORS)
            .map(|index| format!("missing-{index}"))
            .collect(),
        nodes: vec![action("only")],
        ..WorkflowGraph::default()
    };
    let errors = graph.validate().unwrap_err();
    assert_eq!(errors.len(), GRAPH_MAX_ERRORS);
}

#[test]
fn reachability_dominance_and_cycles() {
    let links = vec![(0, 1), (0, 2), (1, 3), (2, 3), (4, 4)];
    let reached = reachable_nodes(5, &links, &vec![0]);
    assert_eq!(reached, vec![true, true, true, true, false]);
    let dominators = compute_dominators(5, &links, &vec![0]);
    assert!(dominators[0][3]);
    assert!(!dominators[1][3]);
    assert!(dominators[3][3]);
    assert_eq!(
        cyclic_nodes(5, &links),
        vec![false, false, false, false, true]
    );
}

#[test]
fn integers_beyond_the_exact_ones_have_no_rank() {
    let below = rank_of_integer(9_007_199_254_740_991).unwrap();
    let exact = rank_of_integer(9_007_199_254_740_992).unwrap();
    assert!(below < exact);
    assert_eq!(rank_of_integer(9_007_199_254_740_993), None);
    assert_eq!(exact, 9_007_199_254_740_992.0f64.to_bits() as i128);
    assert_eq!(rank_of_integer(-1), rank_of_integer(1).map(|rank| -rank));
    assert_eq!(rank_of_integer(0), Some(0));
}

#[test]
fn references_are_sorted_and_listed_once() {
    let a = FieldRef::step("a").field("x");
    let b = FieldRef::step("b").field("x");
    let scenario = FieldRef::scenario().field("x");
    let sorted = sort_refs(&vec![b.clone(), a.clone(), b.clone(), scenario.clone()]);
    assert_eq!(sorted, vec![scenario, a, b]);
}

#[test]
fn limit_errors_keep_their_message() {
    let error = SchemaResolutionError::limit_exceeded("too deep");
    assert!(error.is_limit_exceeded());
    assert_eq!(error.diagnostic_message(), "too deep");
    let plain = SchemaResolutionError::new("too deep");
    assert!(!plain.is_limit_exceeded());
    assert_eq!(plain.diagnostic_message(), "too deep");
}

#[test]
fn rewriting_without_aliases_changes_nothing() {
    let rule = ExpressionV1::Exists {
        reference: ReferenceV1::Local {
            binding: "item".into(),
            path: vec!["name".into()],
        },
    };
    let mut bound = Vec::new();
    let same = rewrite_graph_aliases(&rule, &TextMap::new(), &mut bound, 1, 32);
    assert_eq!(same, rule);
    let mut aliases = TextMap::new();
    aliases.insert("item".to_string(), FieldRef::loop_item("loop"));
    let rewritten = rewrite_graph_aliases(&rule, &aliases, &mut bound, 1, 32);
    assert_eq!(
        rewritten,
        ExpressionV1::Exists {
            reference: ReferenceV1::Context {
                field: FieldRef::loop_item("loop").field("name"),
            },
        }
    );
    assert!(bound.is_empty());
}

#[test]
fn redacting_twice_is_redacting_once() {
    let schema = ObjectSchema::new("secrets").with_field(
        "token",
        FieldSchema::required(ContextType::plain_string()).sensitive(Sensitivity::Secret),
    );
    let context = ContextValue::new(
        json(r#"{"token": "t", "name": "n"}"#),
        ContextProvenance::step("s"),
    )
    .with_schema(schema.clone());
    let once = context.redacted_value();
    let again =
        ContextValue::new(once.clone(), ContextProvenance::step("s")).with_schema(schema);
    assert_eq!(again.redacted_value(), once);
    assert_eq!(once, json(r#"{"token": "[REDACTED]", "name": "n"}"#));
}

#[test]
fn steps_are_imported_in_order() {
    let graph = LegacyTaskImporter::import_steps(&vec![step("b"), step("a")]).unwrap();
    assert_eq!(graph.nodes, vec![action("b"), action("a")]);
    assert_eq!(
        graph.edges,
        vec![GraphEdge::new("b", EdgePort::Success, "a")]
    );
    assert!(graph.validate().is_ok());
}

#[test]
fn every_kind_is_listed_once_and_makes_its_own_action() {
    let kinds = ActionKind::all();
    for (index, kind) in kinds.iter().enumerate() {
        assert!(!kinds[index + 1..].contains(kind));
        if let Ok(action) = default_action(*kind) {
            assert_eq!(action.kind(), *kind);
            assert_eq!(block_definition(*kind).kind, *kind);
        }
    }
}

#[test]
fn a_template_is_as_sensitive_as_its_parts() {
    let schema = ObjectSchema::new("parts").with_field(
        "login",
        FieldSchema::required(ContextType::plain_string()).sensitive(Sensitivity::Internal),
    );
    let mut store = ContextStore::default();
    store.insert(
        ContextScope::Scenario,
        ContextValue::new(
            json(r#"{"login": "octocat"}"#),
            ContextProvenance::step("scenario"),
        )
        .with_schema(schema),
    );
    let expected = block_definition(ActionKind::CreateDirectory)
        .input_schema
        .resolve_owned(&parse_binding_target("path", BindingLimits::default()).unwrap())
        .unwrap();
    let resolved = ppduster::binding::resolve_binding(
        &Binding::interpolated(vec![
            TemplatePart::literal("/home/"),
            TemplatePart::field(FieldRef::scenario().field("login")),
        ]),
        &expected,
        &store,
        BindingLimits::default(),
    )
    .unwrap();
    assert_eq!(resolved.value, Value::String("/home/octocat".into()));
    assert_eq!(resolved.sensitivity, Sensitivity::Internal);
}
