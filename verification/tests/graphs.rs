use ppduster::block::{block_definition, default_step};
use ppduster::context::{Binding, FieldRef, TemplatePart};
use ppduster::expr::{
    CollectionQuantifier, ExpressionLimits, ExpressionV1, ExpressionValue, ReferenceV1,
};
use ppduster::faults::Faults;
use ppduster::graph::{
    ActionNode, EdgeEndpoint, ForEachNode, GraphEdge, GraphExit, GraphNode, IfNode, JoinMode,
    JoinNode, LoopFailurePolicy, SwitchCase, SwitchNode, WorkflowGraph,
    WorkflowGraphMigrationError, GRAPH_MAX_EXIT_CODES_PER_LIST,
    GRAPH_MAX_SERIALIZED_COMPONENT_BYTES, GRAPH_MAX_TOTAL_PAYLOAD_BYTES,
    WORKFLOW_GRAPH_VERSION,
};
use ppduster::graph_error::{EdgePort, GraphValidationError, GraphValidationErrorKind};
use ppduster::graph_flow::{Env, Scope};
use ppduster::json::{value_text, Number, Value};
use ppduster::kind::ActionKind;
use ppduster::legacy::{LegacyTaskImporter, LinearMigrationError};
use ppduster::preflight::Preflight;
use ppduster::schema::{ContextType, FieldSchema, ObjectSchema, Sensitivity};
use ppduster::static_type::resolve_input_field;
use ppduster::stats::serialized_payload_bytes;
use ppduster::task::{
    Action, AuthPolicy, CreateDirectoryAction, ElevationPolicy, RuleOutcomePolicy,
    ScriptInterpreter, ShellMode, Step, StepCondition,
};
use ppduster::text_map::TextMap;

fn string(text: &str) -> Value {
    Value::String(text.to_string())
}

fn strings(texts: &[&str]) -> Vec<Value> {
    texts.iter().map(|text| string(text)).collect()
}

fn map<V, const N: usize>(entries: [(String, V); N]) -> TextMap<V> {
    let mut map = TextMap::new();
    for (name, value) in entries {
        map.insert(name, value);
    }
    map
}

fn step(id: &str) -> Step {
    Step {
        id: id.into(),
        name: format!("Step {id}"),
        bindings: TextMap::new(),
        auth: AuthPolicy::NoAuth,
        check: None,
        dangerous: false,
        allow_elevation: ElevationPolicy::Forbidden,
        when: None,
        require: None,
        action: Action::GithubListRepositories,
    }
}

fn action(id: &str) -> GraphNode {
    GraphNode::Action(Box::new(ActionNode {
        step: step(id),
        bindings: TextMap::new(),
    }))
}

fn action_with_ref(id: &str, field: FieldRef) -> GraphNode {
    let mut consumer = step(id);
    consumer.action = Action::GitClone {
        repo: "https://github.com/example/repository.git".into(),
        dest: "/tmp/repository".into(),
        branch: None,
    };
    GraphNode::Action(Box::new(ActionNode {
        step: consumer,
        bindings: map([("repo".into(), Binding::field(field))]),
    }))
}

fn identifier_action_with_ref(id: &str, field: FieldRef) -> GraphNode {
    let mut consumer = step(id);
    consumer.action = Action::BrewInstall {
        package: "placeholder".into(),
        cask: false,
    };
    GraphNode::Action(Box::new(ActionNode {
        step: consumer,
        bindings: map([("package".into(), Binding::field(field))]),
    }))
}

fn graph(entries: &[&str], nodes: Vec<GraphNode>, edges: Vec<GraphEdge>) -> WorkflowGraph {
    WorkflowGraph {
        entries: entries.iter().map(|entry| (*entry).into()).collect(),
        nodes,
        edges,
        ..WorkflowGraph::default()
    }
}

fn has_error(
    result: &Result<(), Vec<GraphValidationError>>,
    predicate: impl Fn(&GraphValidationErrorKind) -> bool,
) -> bool {
    result
        .as_ref()
        .err()
        .is_some_and(|errors| errors.iter().any(|error| predicate(&error.kind)))
}

fn validate_interpreter_source(field: FieldSchema) -> Vec<GraphValidationError> {
    let env = Env {
        ids: vec![
            ("source".into(), "graph.nodes[0]".into()),
            ("script".into(), "graph.nodes[1]".into()),
        ],
        schemas: vec![(
            "source".into(),
            ObjectSchema::new("test.interpreter-source@1").with_field("value", field),
        )],
        codes: Vec::new(),
    };
    let visible = vec!["source".to_string()];
    let loops = TextMap::new();
    let aliases = TextMap::new();
    let scope = Scope {
        env: &env,
        consumer: "script",
        path: "graph.nodes[1].bindings.interpreter",
        visible: &visible,
        loops: &loops,
        aliases: &aliases,
    };
    let inputs = block_definition(ActionKind::RunScript).input_schema;
    let expected = resolve_input_field(&inputs, "interpreter").unwrap();
    let mut faults = Faults::new();
    scope.validate_typed_action_binding(
        "interpreter",
        &Binding::field(FieldRef::step("source").field("value")),
        &expected,
        &mut faults,
    );
    faults.errors
}

#[test]
fn enum_input_requires_a_statically_constrained_source_subset() {
    let unrestricted = validate_interpreter_source(FieldSchema::required(ContextType::plain_string()));
    assert!(has_error(&Err(unrestricted), |kind| matches!(
        kind,
        GraphValidationErrorKind::InvalidBindingValue { node, field, message }
            if node == "script"
                && field == "interpreter"
                && message.contains("not constrained")
    )));

    let constrained = validate_interpreter_source(
        FieldSchema::required(ContextType::plain_string()).with_allowed_values(strings(&["sh", "bash"])),
    );
    assert!(constrained.is_empty(), "{constrained:?}");

    let incompatible = validate_interpreter_source(
        FieldSchema::required(ContextType::plain_string()).with_allowed_values(strings(&["sh", "python"])),
    );
    assert!(has_error(&Err(incompatible), |kind| matches!(
        kind,
        GraphValidationErrorKind::InvalidBindingValue { node, field, .. }
            if node == "script" && field == "interpreter"
    )));
}

#[test]
fn validates_linear_graph_and_dominating_context_reference() {
    let graph = graph(
        &["list"],
        vec![
            action("list"),
            identifier_action_with_ref(
                "clone",
                FieldRef::step("list")
                    .field("github")
                    .field("account")
                    .field("login"),
            ),
        ],
        vec![GraphEdge::new("list", EdgePort::Success, "clone")],
    );
    assert!(graph.validate().is_ok());
}

#[test]
fn required_input_accepts_a_required_leaf_at_a_positional_index() {
    let graph = graph(
        &["list"],
        vec![
            action("list"),
            action_with_ref(
                "inspect",
                FieldRef::step("list")
                    .field("github")
                    .field("repositories")
                    .index(2)
                    .field("https_url"),
            ),
        ],
        vec![GraphEdge::new("list", EdgePort::Success, "inspect")],
    );

    assert!(graph.validate().is_ok());
}

#[test]
fn nullable_leaf_at_a_positional_index_remains_invalid_for_required_input() {
    let mut fetch = step("fetch");
    fetch.action = Action::GitFetch {
        repo: "https://github.com/example/repository.git".into(),
        dest: "/tmp/repository".into(),
        branch: "main".into(),
    };
    let graph = graph(
        &["list"],
        vec![
            action("list"),
            GraphNode::Action(Box::new(ActionNode {
                step: fetch,
                bindings: map([(
                    "branch".into(),
                    Binding::field(
                        FieldRef::step("list")
                            .field("github")
                            .field("repositories")
                            .index(2)
                            .field("default_branch"),
                    ),
                )]),
            })),
        ],
        vec![GraphEdge::new("list", EdgePort::Success, "fetch")],
    );

    let result = graph.validate();
    assert!(has_error(&result, |kind| matches!(
        kind,
        GraphValidationErrorKind::BindingMayBeMissing { node, field }
            if node == "fetch" && field == "branch"
    )));
    assert!(has_error(&result, |kind| matches!(
        kind,
        GraphValidationErrorKind::BindingMayBeNull { node, field }
            if node == "fetch" && field == "branch"
    )));
}

#[test]
fn linear_lowering_moves_step_bindings_to_the_action_node() {
    let producer = step("list");
    let mut consumer = step("inspect");
    consumer.action = Action::GitInspect {
        repo: "https://github.com/example/repository.git".into(),
        dest: "/tmp/repository".into(),
    };
    let expected = Binding::field(
        FieldRef::step("list")
            .field("github")
            .field("repositories")
            .index(2)
            .field("https_url"),
    );
    consumer.bindings.insert("repo".into(), expected.clone());

    let graph = LegacyTaskImporter::import_steps(&vec![producer, consumer]).unwrap();
    let GraphNode::Action(consumer) = &graph.nodes[1] else {
        panic!("expected lowered action node")
    };
    assert!(consumer.step.bindings.is_empty());
    assert_eq!(consumer.bindings.get("repo"), Some(&expected));
}

#[test]
fn linear_lowering_rejects_unknown_and_duplicate_normalized_targets() {
    let mut unknown = step("unknown");
    unknown.action = Action::GitInspect {
        repo: "https://github.com/example/repository.git".into(),
        dest: "/tmp/repository".into(),
    };
    unknown.bindings.insert(
        "repository_url".into(),
        Binding::literal(string("https://github.com/example/other.git")),
    );
    let error = LegacyTaskImporter::import_steps(&vec![unknown]).unwrap_err();
    assert!(matches!(
        error,
        LinearMigrationError::InvalidGeneratedGraph { ref errors }
            if errors.iter().any(|error| matches!(
                error.kind,
                GraphValidationErrorKind::UnknownBindingField { .. }
            ))
    ));

    let mut duplicate = step("duplicate");
    duplicate.action = Action::GitInspect {
        repo: "https://github.com/example/repository.git".into(),
        dest: "/tmp/repository".into(),
    };
    duplicate.bindings = map([
        (
            "repo".into(),
            Binding::literal(string("https://github.com/example/one.git")),
        ),
        (
            "/repo".into(),
            Binding::literal(string("https://github.com/example/two.git")),
        ),
    ]);
    let error = LegacyTaskImporter::import_steps(&vec![duplicate]).unwrap_err();
    assert!(matches!(
        error,
        LinearMigrationError::InvalidGeneratedGraph { ref errors }
            if errors.iter().any(|error| matches!(
                error.kind,
                GraphValidationErrorKind::DuplicateBindingTarget { .. }
            ))
    ));
}

#[test]
fn rejects_context_from_non_dominating_parallel_path() {
    let graph = graph(
        &["left", "right"],
        vec![
            action("left"),
            action("right"),
            identifier_action_with_ref(
                "merge",
                FieldRef::step("left")
                    .field("github")
                    .field("account")
                    .field("login"),
            ),
        ],
        vec![
            GraphEdge::new("left", EdgePort::Success, "merge"),
            GraphEdge::new("right", EdgePort::Success, "merge"),
        ],
    );
    let result = graph.validate();
    assert!(has_error(&result, |kind| matches!(
        kind,
        GraphValidationErrorKind::ContextNotVisible { consumer, producer }
            if consumer == "merge" && producer == "left"
    )));
}

#[test]
fn validates_unicode_alias_and_loop_context_in_nested_body() {
    let body_action = action_with_ref(
        "клонировать",
        FieldRef::loop_item("цикл").field("https_url"),
    );
    let condition = ExpressionV1::Exists {
        reference: ReferenceV1::Local {
            binding: "репозиторий".into(),
            path: vec!["https_url".into()],
        },
    };
    let nested_if = GraphNode::If(IfNode {
        id: "проверка".into(),
        condition,
        then_graph: Box::new(graph(&["выполнить"], vec![action("выполнить")], vec![])),
        else_graph: None,
    });
    let body = graph(
        &["клонировать"],
        vec![body_action, nested_if],
        vec![GraphEdge::new("клонировать", EdgePort::Success, "проверка")],
    );
    let root = graph(
        &["источник"],
        vec![
            action("источник"),
            GraphNode::ForEach(ForEachNode {
                id: "цикл".into(),
                collection: Binding::field(
                    FieldRef::step("источник")
                        .field("github")
                        .field("repositories"),
                ),
                item_alias: "репозиторий".into(),
                index_alias: Some("индекс".into()),
                concurrency: 4,
                on_error: LoopFailurePolicy::Continue,
                body: Box::new(body),
            }),
        ],
        vec![GraphEdge::new("источник", EdgePort::Success, "цикл")],
    );
    assert!(root.validate().is_ok());
}

#[test]
fn rejects_loop_context_outside_its_body() {
    let graph = graph(
        &["consumer"],
        vec![action_with_ref(
            "consumer",
            FieldRef::loop_item("loop").field("name"),
        )],
        vec![],
    );
    let result = graph.validate();
    assert!(has_error(&result, |kind| matches!(
        kind,
        GraphValidationErrorKind::LoopContextNotVisible { loop_node, .. }
            if loop_node == "loop"
    )));
}

#[test]
fn sibling_branch_outputs_do_not_leak() {
    let then_graph = graph(&["then-step"], vec![action("then-step")], vec![]);
    let else_graph = graph(
        &["else-step"],
        vec![identifier_action_with_ref(
            "else-step",
            FieldRef::step("then-step")
                .field("github")
                .field("account")
                .field("login"),
        )],
        vec![],
    );
    let graph = graph(
        &["choice"],
        vec![GraphNode::If(IfNode {
            id: "choice".into(),
            condition: ExpressionV1::Literal {
                value: ExpressionValue::Bool(true),
            },
            then_graph: Box::new(then_graph),
            else_graph: Some(Box::new(else_graph)),
        })],
        vec![],
    );
    let result = graph.validate();
    assert!(has_error(&result, |kind| matches!(
        kind,
        GraphValidationErrorKind::ContextNotVisible { consumer, producer }
            if consumer == "else-step" && producer == "then-step"
    )));
}

#[test]
fn reports_duplicate_node_ids_across_nested_graphs() {
    let graph = graph(
        &["loop"],
        vec![GraphNode::ForEach(ForEachNode {
            id: "loop".into(),
            collection: Binding::literal(Value::Array(Vec::new())),
            item_alias: "item".into(),
            index_alias: None,
            concurrency: 1,
            on_error: LoopFailurePolicy::Stop,
            body: Box::new(graph(&["loop"], vec![action("loop")], vec![])),
        })],
        vec![],
    );
    let result = graph.validate();
    assert!(has_error(&result, |kind| matches!(
        kind,
        GraphValidationErrorKind::DuplicateNodeId { id, .. } if id == "loop"
    )));
}

#[test]
fn detects_cycles_unknown_endpoints_and_invalid_ports() {
    let graph = graph(
        &["a"],
        vec![action("a"), action("b")],
        vec![
            GraphEdge::new("a", EdgePort::Success, "b"),
            GraphEdge::new("b", EdgePort::Success, "a"),
            GraphEdge {
                from: EdgeEndpoint::output("missing", EdgePort::Success),
                to: EdgeEndpoint::output("b", EdgePort::Failure),
            },
        ],
    );
    let result = graph.validate();
    assert!(has_error(&result, |kind| matches!(
        kind,
        GraphValidationErrorKind::Cycle { .. }
    )));
    assert!(has_error(&result, |kind| matches!(
        kind,
        GraphValidationErrorKind::UnknownEndpoint { node } if node == "missing"
    )));
    assert!(has_error(&result, |kind| matches!(
        kind,
        GraphValidationErrorKind::InvalidTargetPort { node, .. } if node == "b"
    )));
}

#[test]
fn join_requires_at_least_two_incoming_paths() {
    let graph = graph(
        &["source"],
        vec![
            action("source"),
            GraphNode::Join(JoinNode {
                id: "join".into(),
                mode: JoinMode::All,
            }),
        ],
        vec![GraphEdge::new("source", EdgePort::Success, "join")],
    );
    let result = graph.validate();
    assert!(has_error(&result, |kind| matches!(
        kind,
        GraphValidationErrorKind::JoinNeedsMultipleInputs { node, found: 1 }
            if node == "join"
    )));
}

#[test]
fn switch_rejects_duplicate_case_ids_and_values() {
    let case = |id: &str| SwitchCase {
        id: id.into(),
        values: vec![Value::String("main".into())],
        graph: Box::new(graph(
            &[&format!("{id}-step")],
            vec![action(&format!("{id}-step"))],
            vec![],
        )),
    };
    let graph = graph(
        &["switch"],
        vec![GraphNode::Switch(SwitchNode {
            id: "switch".into(),
            selector: Binding::literal(string("main")),
            cases: vec![case("same"), case("same")],
            default: None,
        })],
        vec![],
    );
    let result = graph.validate();
    assert!(has_error(&result, |kind| matches!(
        kind,
        GraphValidationErrorKind::DuplicateSwitchCaseId { .. }
    )));
    assert!(has_error(&result, |kind| matches!(
        kind,
        GraphValidationErrorKind::DuplicateSwitchValue { .. }
    )));
}

#[test]
fn explicit_exits_must_cover_terminal_nodes() {
    let mut graph = graph(
        &["source"],
        vec![action("source"), action("terminal")],
        vec![GraphEdge::new("source", EdgePort::Success, "terminal")],
    );
    graph.exits.push(GraphExit {
        name: "done".into(),
        from: EdgeEndpoint::output("source", EdgePort::Failure),
    });
    let result = graph.validate();
    assert!(has_error(&result, |kind| matches!(
        kind,
        GraphValidationErrorKind::UnlistedTerminal { node } if node == "terminal"
    )));
}

#[test]
fn explicit_v2_graph_migrates_nested_graphs_recursively() {
    let mut branch = graph(&["inside"], vec![action("inside")], vec![]);
    branch.version = 2;
    let mut root = graph(
        &["choice"],
        vec![GraphNode::If(IfNode {
            id: "choice".into(),
            condition: ExpressionV1::Literal {
                value: ExpressionValue::Bool(true),
            },
            then_graph: Box::new(branch),
            else_graph: None,
        })],
        vec![],
    );
    root.version = 2;

    let migrated = root.into_v3().unwrap();
    assert_eq!(migrated.version, WORKFLOW_GRAPH_VERSION);
    let GraphNode::If(choice) = &migrated.nodes[0] else {
        panic!("expected if node")
    };
    assert_eq!(choice.then_graph.version, WORKFLOW_GRAPH_VERSION);
    migrated.validate().unwrap();
}

#[test]
fn graph_migration_rejects_unknown_future_versions() {
    let mut root = graph(&["step"], vec![action("step")], vec![]);
    root.version = WORKFLOW_GRAPH_VERSION + 1;
    let error = root.into_v3().unwrap_err();
    assert!(matches!(
        error,
        WorkflowGraphMigrationError::UnsupportedVersion { found, .. }
            if found == WORKFLOW_GRAPH_VERSION + 1
    ));
}

#[test]
fn legacy_foreach_action_is_rejected_inside_v2_graph() {
    let mut legacy = step("legacy");
    legacy.action = Action::ForEach {
        source_step: "source".into(),
        array_path: "items".into(),
        item: "item".into(),
        fields: vec![],
    };
    let graph = graph(
        &["source"],
        vec![
            action("source"),
            GraphNode::Action(Box::new(ActionNode {
                step: legacy,
                bindings: TextMap::new(),
            })),
        ],
        vec![GraphEdge::new("source", EdgePort::Success, "legacy")],
    );
    let result = graph.validate();
    assert!(has_error(&result, |kind| matches!(
        kind,
        GraphValidationErrorKind::LegacyControlAction { node } if node == "legacy"
    )));
}

#[test]
fn action_binding_target_must_exist_in_block_input_schema() {
    let node = GraphNode::Action(Box::new(ActionNode {
        step: step("list"),
        bindings: map([("repository_url".into(), Binding::literal(string("x")))]),
    }));
    let result = graph(&["list"], vec![node], vec![]).validate();
    assert!(has_error(&result, |kind| matches!(
        kind,
        GraphValidationErrorKind::UnknownBindingField { node, field }
            if node == "list" && field == "repository_url"
    )));
}

#[test]
fn direct_field_binding_checks_semantic_format() {
    let root = graph(
        &["list"],
        vec![
            action("list"),
            action_with_ref(
                "clone",
                FieldRef::step("list")
                    .field("github")
                    .field("account")
                    .field("login"),
            ),
        ],
        vec![GraphEdge::new("list", EdgePort::Success, "clone")],
    );
    let result = root.validate();
    assert!(has_error(&result, |kind| matches!(
        kind,
        GraphValidationErrorKind::BindingTypeMismatch { node, field, .. }
            if node == "clone" && field == "repo"
    )));
}

#[test]
fn foreach_collection_must_be_statically_an_array() {
    let body = graph(&["inside"], vec![action("inside")], vec![]);
    let root = graph(
        &["list"],
        vec![
            action("list"),
            GraphNode::ForEach(ForEachNode {
                id: "loop".into(),
                collection: Binding::field(
                    FieldRef::step("list").field("github").field("account"),
                ),
                item_alias: "repository".into(),
                index_alias: None,
                concurrency: 1,
                on_error: LoopFailurePolicy::Stop,
                body: Box::new(body),
            }),
        ],
        vec![GraphEdge::new("list", EdgePort::Success, "loop")],
    );
    let result = root.validate();
    assert!(has_error(&result, |kind| matches!(
        kind,
        GraphValidationErrorKind::ForEachCollectionNotArray { node, .. }
            if node == "loop"
    )));
}

#[test]
fn interpolated_fields_must_be_visible_scalars() {
    let mut consumer = step("directory");
    consumer.action = Action::CreateDirectory(CreateDirectoryAction {
        path: "/tmp/example".into(),
    });
    let node = GraphNode::Action(Box::new(ActionNode {
        step: consumer,
        bindings: map([(
            "path".into(),
            Binding::interpolated(vec![
                TemplatePart::literal("/tmp/"),
                TemplatePart::field(FieldRef::step("list").field("github").field("account")),
            ]),
        )]),
    }));
    let root = graph(
        &["list"],
        vec![action("list"), node],
        vec![GraphEdge::new("list", EdgePort::Success, "directory")],
    );
    let result = root.validate();
    assert!(has_error(&result, |kind| matches!(
        kind,
        GraphValidationErrorKind::InterpolatedFieldNotScalar { consumer, .. }
            if consumer == "directory"
    )));
}

#[test]
fn if_rule_is_type_checked_against_dominating_schema() {
    let choice = GraphNode::If(IfNode {
        id: "choice".into(),
        condition: ExpressionV1::Ref {
            reference: ReferenceV1::Context {
                field: FieldRef::step("list")
                    .field("github")
                    .field("account")
                    .field("login"),
            },
        },
        then_graph: Box::new(graph(&["inside"], vec![action("inside")], vec![])),
        else_graph: None,
    });
    let root = graph(
        &["list"],
        vec![action("list"), choice],
        vec![GraphEdge::new("list", EdgePort::Success, "choice")],
    );

    let result = root.validate();
    assert!(has_error(&result, |kind| matches!(
        kind,
        GraphValidationErrorKind::InvalidExpression { code, .. }
            if code == "ExpectedBoolean"
    )));
}

#[test]
fn expression_rejects_unknown_and_non_dominating_fields() {
    let unknown = GraphNode::If(IfNode {
        id: "unknown".into(),
        condition: ExpressionV1::Exists {
            reference: ReferenceV1::Context {
                field: FieldRef::step("list")
                    .field("github")
                    .field("does_not_exist"),
            },
        },
        then_graph: Box::new(graph(&["inside"], vec![action("inside")], vec![])),
        else_graph: None,
    });
    let unknown_graph = graph(
        &["list"],
        vec![action("list"), unknown],
        vec![GraphEdge::new("list", EdgePort::Success, "unknown")],
    );
    assert!(has_error(&unknown_graph.validate(), |kind| matches!(
        kind,
        GraphValidationErrorKind::InvalidExpression { code, .. }
            if code == "UnknownReference"
    )));

    let parallel = graph(
        &["left", "choice"],
        vec![
            action("left"),
            GraphNode::If(IfNode {
                id: "choice".into(),
                condition: ExpressionV1::Exists {
                    reference: ReferenceV1::Context {
                        field: FieldRef::step("left")
                            .field("github")
                            .field("account")
                            .field("login"),
                    },
                },
                then_graph: Box::new(graph(
                    &["parallel-inside"],
                    vec![action("parallel-inside")],
                    vec![],
                )),
                else_graph: None,
            }),
        ],
        vec![],
    );
    assert!(has_error(&parallel.validate(), |kind| matches!(
        kind,
        GraphValidationErrorKind::InvalidExpression { code, .. }
            if code == "UnknownReference"
    )));
}

#[test]
fn expression_rejects_undeclared_scenario_root() {
    let root = graph(
        &["choice"],
        vec![GraphNode::If(IfNode {
            id: "choice".into(),
            condition: ExpressionV1::Exists {
                reference: ReferenceV1::Context {
                    field: FieldRef::scenario().field("undeclared"),
                },
            },
            then_graph: Box::new(graph(&["inside"], vec![action("inside")], vec![])),
            else_graph: None,
        })],
        vec![],
    );
    assert!(has_error(&root.validate(), |kind| matches!(
        kind,
        GraphValidationErrorKind::InvalidExpression { code, .. }
            if code == "UnknownReference"
    )));
}

#[test]
fn action_when_expression_uses_same_static_checker() {
    let mut consumer = step("consumer");
    consumer.when = Some(StepCondition::Expression {
        rule: ExpressionV1::Ref {
            reference: ReferenceV1::Context {
                field: FieldRef::step("list")
                    .field("github")
                    .field("account")
                    .field("login"),
            },
        },
        policy: RuleOutcomePolicy::default(),
    });
    let root = graph(
        &["list"],
        vec![
            action("list"),
            GraphNode::Action(Box::new(ActionNode {
                step: consumer,
                bindings: TextMap::new(),
            })),
        ],
        vec![GraphEdge::new("list", EdgePort::Success, "consumer")],
    );
    assert!(has_error(&root.validate(), |kind| matches!(
        kind,
        GraphValidationErrorKind::InvalidExpression { code, .. }
            if code == "ExpectedBoolean"
    )));
}

#[test]
fn loop_alias_is_rewritten_with_its_item_type() {
    let typed_condition = ExpressionV1::Contains {
        value: Box::new(ExpressionV1::Ref {
            reference: ReferenceV1::Local {
                binding: "repository".into(),
                path: vec!["private".into()],
            },
        }),
        needle: Box::new(ExpressionV1::Literal {
            value: ExpressionValue::String("yes".into()),
        }),
    };
    let body = graph(
        &["choice"],
        vec![GraphNode::If(IfNode {
            id: "choice".into(),
            condition: typed_condition,
            then_graph: Box::new(graph(&["inside"], vec![action("inside")], vec![])),
            else_graph: None,
        })],
        vec![],
    );
    let root = graph(
        &["list"],
        vec![
            action("list"),
            GraphNode::ForEach(ForEachNode {
                id: "loop".into(),
                collection: Binding::field(
                    FieldRef::step("list").field("github").field("repositories"),
                ),
                item_alias: "repository".into(),
                index_alias: None,
                concurrency: 1,
                on_error: LoopFailurePolicy::Stop,
                body: Box::new(body),
            }),
        ],
        vec![GraphEdge::new("list", EdgePort::Success, "loop")],
    );
    assert!(has_error(&root.validate(), |kind| matches!(
        kind,
        GraphValidationErrorKind::InvalidExpression { code, .. }
            if code == "TypeMismatch"
    )));
}

#[test]
fn quantifier_cannot_shadow_graph_loop_alias() {
    let condition = ExpressionV1::Quantifier {
        quantifier: CollectionQuantifier::Any,
        collection: Box::new(ExpressionV1::Literal {
            value: ExpressionValue::List(vec![ExpressionValue::Bool(true)]),
        }),
        binding: "repository".into(),
        predicate: Box::new(ExpressionV1::Ref {
            reference: ReferenceV1::Local {
                binding: "repository".into(),
                path: Vec::new(),
            },
        }),
    };
    let body = graph(
        &["choice"],
        vec![GraphNode::If(IfNode {
            id: "choice".into(),
            condition,
            then_graph: Box::new(graph(&["inside"], vec![action("inside")], vec![])),
            else_graph: None,
        })],
        vec![],
    );
    let root = graph(
        &["list"],
        vec![
            action("list"),
            GraphNode::ForEach(ForEachNode {
                id: "loop".into(),
                collection: Binding::field(
                    FieldRef::step("list").field("github").field("repositories"),
                ),
                item_alias: "repository".into(),
                index_alias: None,
                concurrency: 1,
                on_error: LoopFailurePolicy::Stop,
                body: Box::new(body),
            }),
        ],
        vec![GraphEdge::new("list", EdgePort::Success, "loop")],
    );
    assert!(has_error(&root.validate(), |kind| matches!(
        kind,
        GraphValidationErrorKind::ShadowedAlias { alias, .. }
            if alias == "repository"
    )));
}

#[test]
fn secret_expression_field_is_rejected_by_schema_resolver() {
    let secret_schema = ObjectSchema::new("test.secret@1").with_field(
        "token",
        FieldSchema::required(ContextType::plain_string()).sensitive(Sensitivity::Secret),
    );
    let env = Env {
        ids: vec![("source".into(), "graph.source".into())],
        schemas: vec![("source".into(), secret_schema)],
        codes: Vec::new(),
    };
    let visible = vec!["source".to_string()];
    let loops = TextMap::new();
    let aliases = TextMap::new();
    let scope = Scope {
        env: &env,
        consumer: "consumer",
        path: "graph.consumer.condition",
        visible: &visible,
        loops: &loops,
        aliases: &aliases,
    };
    let mut faults = Faults::new();
    scope.validate_checked_expression(
        &ExpressionV1::Exists {
            reference: ReferenceV1::Context {
                field: FieldRef::step("source").field("token"),
            },
        },
        &mut faults,
    );
    assert!(faults.errors.iter().any(|error| matches!(
        &error.kind,
        GraphValidationErrorKind::InvalidExpression { message, .. }
            if message.contains("secret context field")
    )));
}

#[test]
fn literal_binding_is_checked_against_semantic_format() {
    let mut clone = step("clone");
    clone.action = Action::GitClone {
        repo: "https://github.com/example/repository.git".into(),
        dest: "/tmp/repository".into(),
        branch: None,
    };
    let root = graph(
        &["clone"],
        vec![GraphNode::Action(Box::new(ActionNode {
            step: clone,
            bindings: map([("repo".into(), Binding::literal(string("not a git url")))]),
        }))],
        vec![],
    );
    assert!(has_error(&root.validate(), |kind| matches!(
        kind,
        GraphValidationErrorKind::InvalidBindingValue { node, field, .. }
            if node == "clone" && field == "repo"
    )));
}

#[test]
fn valid_formatted_literal_binding_is_accepted() {
    let mut clone = step("clone");
    clone.action = Action::GitClone {
        repo: "https://github.com/example/repository.git".into(),
        dest: "/tmp/repository".into(),
        branch: None,
    };
    let root = graph(
        &["clone"],
        vec![GraphNode::Action(Box::new(ActionNode {
            step: clone,
            bindings: map([(
                "repo".into(),
                Binding::literal(string("https://github.com/example/other.git")),
            )]),
        }))],
        vec![],
    );
    assert!(root.validate().is_ok());
}

#[test]
fn formatted_input_allows_structural_interpolation_when_value_is_dynamic() {
    let mut clone = step("clone");
    clone.action = Action::GitClone {
        repo: "https://github.com/example/repository.git".into(),
        dest: "/tmp/repository".into(),
        branch: None,
    };
    let body = graph(
        &["clone"],
        vec![GraphNode::Action(Box::new(ActionNode {
            step: clone,
            bindings: map([(
                "repo".into(),
                Binding::interpolated(vec![TemplatePart::field(
                    FieldRef::loop_item("loop").field("https_url"),
                )]),
            )]),
        }))],
        vec![],
    );
    let root = graph(
        &["list"],
        vec![
            action("list"),
            GraphNode::ForEach(ForEachNode {
                id: "loop".into(),
                collection: Binding::field(
                    FieldRef::step("list").field("github").field("repositories"),
                ),
                item_alias: "repository".into(),
                index_alias: None,
                concurrency: 1,
                on_error: LoopFailurePolicy::Stop,
                body: Box::new(body),
            }),
        ],
        vec![GraphEdge::new("list", EdgePort::Success, "loop")],
    );
    assert!(root.validate().is_ok());
}

#[test]
fn optional_source_can_omit_an_optional_input_override() {
    let mut clone = step("clone");
    clone.action = Action::GitClone {
        repo: "https://github.com/example/repository.git".into(),
        dest: "/tmp/repository".into(),
        branch: None,
    };
    let body = graph(
        &["clone"],
        vec![GraphNode::Action(Box::new(ActionNode {
            step: clone,
            bindings: map([(
                "branch".into(),
                Binding::field(FieldRef::loop_item("loop").field("default_branch")),
            )]),
        }))],
        vec![],
    );
    let root = graph(
        &["list"],
        vec![
            action("list"),
            GraphNode::ForEach(ForEachNode {
                id: "loop".into(),
                collection: Binding::field(
                    FieldRef::step("list").field("github").field("repositories"),
                ),
                item_alias: "repository".into(),
                index_alias: None,
                concurrency: 1,
                on_error: LoopFailurePolicy::Stop,
                body: Box::new(body),
            }),
        ],
        vec![GraphEdge::new("list", EdgePort::Success, "loop")],
    );

    // Runtime binding materialization treats a missing source as "omit"
    // only when the destination input is optional, preserving the action
    // literal/default. Required destinations remain fail-closed.
    root.validate().unwrap();
}

#[test]
fn undeclared_scenario_binding_is_rejected_statically() {
    let clone = default_step(ActionKind::GitCloneIfMissing, "clone").unwrap();
    let root = graph(
        &["clone"],
        vec![GraphNode::Action(Box::new(ActionNode {
            step: clone,
            bindings: map([(
                "branch".into(),
                Binding::field(FieldRef::scenario().field("branch")),
            )]),
        }))],
        vec![],
    );

    assert!(has_error(&root.validate(), |kind| matches!(
        kind,
        GraphValidationErrorKind::UnknownContextField { producer, field, .. }
            if producer == "scenario input" && field == "branch"
    )));
}

#[test]
fn indexed_action_input_target_is_rejected_statically() {
    let run = default_step(ActionKind::RunCommand, "run").unwrap();
    let root = graph(
        &["run"],
        vec![GraphNode::Action(Box::new(ActionNode {
            step: run,
            bindings: map([("args.0".into(), Binding::literal(string("--version")))]),
        }))],
        vec![],
    );

    assert!(has_error(&root.validate(), |kind| matches!(
        kind,
        GraphValidationErrorKind::UnknownBindingField { node, field }
            if node == "run" && field == "args.0"
    )));
}

#[test]
fn switch_cases_must_match_selector_type() {
    let case = SwitchCase {
        id: "text".into(),
        values: vec![Value::String("one".into())],
        graph: Box::new(graph(&["inside"], vec![action("inside")], vec![])),
    };
    let root = graph(
        &["switch"],
        vec![GraphNode::Switch(SwitchNode {
            id: "switch".into(),
            selector: Binding::literal(Value::Number(Number::PosInt(1))),
            cases: vec![case],
            default: None,
        })],
        vec![],
    );
    assert!(has_error(&root.validate(), |kind| matches!(
        kind,
        GraphValidationErrorKind::SwitchCaseTypeMismatch { node, .. }
            if node == "switch"
    )));
}

#[test]
fn exit_code_condition_requires_run_script_and_success_code() {
    let mut wrong_consumer = step("wrong-consumer");
    wrong_consumer.when = Some(StepCondition::ExitCode {
        step: "list".into(),
        codes: vec![0],
    });
    let wrong_source = graph(
        &["list"],
        vec![
            action("list"),
            GraphNode::Action(Box::new(ActionNode {
                step: wrong_consumer,
                bindings: TextMap::new(),
            })),
        ],
        vec![GraphEdge::new("list", EdgePort::Success, "wrong-consumer")],
    );
    assert!(has_error(&wrong_source.validate(), |kind| matches!(
        kind,
        GraphValidationErrorKind::ExitCodeSourceNotRunScript { producer, .. }
            if producer == "list"
    )));

    let mut script = step("script");
    script.dangerous = true;
    script.action = Action::RunScript {
        interpreter: ScriptInterpreter::Bash,
        script: "scripts/probe.sh".into(),
        args: Vec::new(),
        cwd: None,
        env: TextMap::new(),
        success_exit_codes: vec![0],
    };
    let mut consumer = step("consumer");
    consumer.when = Some(StepCondition::ExitCode {
        step: "script".into(),
        codes: vec![1],
    });
    let invalid_code = graph(
        &["script"],
        vec![
            GraphNode::Action(Box::new(ActionNode {
                step: script,
                bindings: TextMap::new(),
            })),
            GraphNode::Action(Box::new(ActionNode {
                step: consumer,
                bindings: TextMap::new(),
            })),
        ],
        vec![GraphEdge::new("script", EdgePort::Success, "consumer")],
    );
    assert!(has_error(&invalid_code.validate(), |kind| matches!(
        kind,
        GraphValidationErrorKind::ExitCodeNotSuccessful { producer, code: 1, .. }
            if producer == "script"
    )));
}

#[test]
fn exit_code_preflight_accepts_bounded_lists() {
    let codes = (0..GRAPH_MAX_EXIT_CODES_PER_LIST as u32).collect::<Vec<_>>();
    let mut script = step("script");
    script.dangerous = true;
    script.action = Action::RunScript {
        interpreter: ScriptInterpreter::Bash,
        script: "scripts/probe.sh".into(),
        args: Vec::new(),
        cwd: None,
        env: TextMap::new(),
        success_exit_codes: codes.clone(),
    };
    let mut consumer = step("consumer");
    consumer.when = Some(StepCondition::ExitCode {
        step: "script".into(),
        codes,
    });
    let root = graph(
        &["script"],
        vec![
            GraphNode::Action(Box::new(ActionNode {
                step: script,
                bindings: TextMap::new(),
            })),
            GraphNode::Action(Box::new(ActionNode {
                step: consumer,
                bindings: TextMap::new(),
            })),
        ],
        vec![GraphEdge::new("script", EdgePort::Success, "consumer")],
    );

    assert!(root.validate().is_ok());
}

#[test]
fn exit_code_preflight_rejects_oversized_lists() {
    let mut script = step("script");
    script.dangerous = true;
    script.action = Action::RunScript {
        interpreter: ScriptInterpreter::Bash,
        script: "scripts/probe.sh".into(),
        args: Vec::new(),
        cwd: None,
        env: TextMap::new(),
        success_exit_codes: vec![0; GRAPH_MAX_EXIT_CODES_PER_LIST + 1],
    };
    let oversized_source = graph(
        &["script"],
        vec![GraphNode::Action(Box::new(ActionNode {
            step: script,
            bindings: TextMap::new(),
        }))],
        vec![],
    );
    assert!(has_error(&oversized_source.validate(), |kind| matches!(
        kind,
        GraphValidationErrorKind::ResourceLimitExceeded { resource, .. }
            if resource == "exit codes in one list"
    )));

    let mut bounded_script = step("bounded-script");
    bounded_script.dangerous = true;
    bounded_script.action = Action::RunScript {
        interpreter: ScriptInterpreter::Bash,
        script: "scripts/probe.sh".into(),
        args: Vec::new(),
        cwd: None,
        env: TextMap::new(),
        success_exit_codes: vec![0],
    };
    let mut consumer = step("consumer");
    consumer.when = Some(StepCondition::ExitCode {
        step: "bounded-script".into(),
        codes: vec![0; GRAPH_MAX_EXIT_CODES_PER_LIST + 1],
    });
    let oversized_condition = graph(
        &["bounded-script"],
        vec![
            GraphNode::Action(Box::new(ActionNode {
                step: bounded_script,
                bindings: TextMap::new(),
            })),
            GraphNode::Action(Box::new(ActionNode {
                step: consumer,
                bindings: TextMap::new(),
            })),
        ],
        vec![GraphEdge::new(
            "bounded-script",
            EdgePort::Success,
            "consumer",
        )],
    );
    assert!(has_error(&oversized_condition.validate(), |kind| matches!(
        kind,
        GraphValidationErrorKind::ResourceLimitExceeded { resource, .. }
            if resource == "exit codes in one list"
    )));
}

#[test]
fn aggregate_payload_budget_rejects_first_byte_over_limit() {
    let mut flight = Preflight::new(Faults::new());
    assert!(flight.preflight_payload_bytes(GRAPH_MAX_TOTAL_PAYLOAD_BYTES, "graph"));
    assert!(!flight.preflight_payload_bytes(1, "graph"));
    assert!(flight.faults.errors.iter().any(|error| matches!(
        error.kind,
        GraphValidationErrorKind::ResourceLimitExceeded {
            ref resource,
            found,
            limit,
        } if resource == "total graph payload bytes"
            && found == GRAPH_MAX_TOTAL_PAYLOAD_BYTES + 1
            && limit == GRAPH_MAX_TOTAL_PAYLOAD_BYTES
    )));
}

#[test]
fn preflight_rejects_wide_expressions_before_cloning_them() {
    let condition = ExpressionV1::All {
        expressions: (0..=ExpressionLimits::default().max_nodes)
            .map(|_| ExpressionV1::Literal {
                value: ExpressionValue::Bool(true),
            })
            .collect(),
    };
    let root = graph(
        &["choice"],
        vec![GraphNode::If(IfNode {
            id: "choice".into(),
            condition,
            then_graph: Box::new(graph(&["inside"], vec![action("inside")], vec![])),
            else_graph: None,
        })],
        vec![],
    );
    assert!(has_error(&root.validate(), |kind| matches!(
        kind,
        GraphValidationErrorKind::ResourceLimitExceeded { resource, .. }
            if resource == "expression nodes"
    )));
}

#[test]
fn reserved_loop_index_scope_cannot_be_a_real_node_id() {
    let root = graph(&["loop::index"], vec![action("loop::index")], vec![]);
    assert!(has_error(&root.validate(), |kind| matches!(
        kind,
        GraphValidationErrorKind::ReservedNodeId { id } if id == "loop::index"
    )));
}

#[test]
fn linear_v1_migration_preserves_slice_order_only() {
    let steps = vec![step("first"), step("second"), step("third")];
    let migrated = LegacyTaskImporter::import_steps(&steps).unwrap();

    assert_eq!(migrated.entries, vec!["first"]);
    assert_eq!(
        migrated.nodes.iter().map(GraphNode::id).collect::<Vec<_>>(),
        vec!["first", "second", "third"]
    );
    assert_eq!(
        migrated.edges,
        vec![
            GraphEdge::new("first", EdgePort::Success, "second"),
            GraphEdge::new("second", EdgePort::Success, "third"),
        ]
    );
}

#[test]
fn proven_github_foreach_clone_pair_migrates_to_nested_graph() {
    let source = step("repositories");
    let mut loop_step = step("repositories-loop");
    loop_step.action = Action::ForEach {
        source_step: "repositories".into(),
        array_path: "github.repositories".into(),
        item: "repository".into(),
        fields: vec![
            "https_url".into(),
            "owner".into(),
            "name".into(),
            "default_branch".into(),
        ],
    };
    let mut clone = step("clone");
    clone.action = Action::ForEachGitCloneIfMissing {
        loop_step: "repositories-loop".into(),
        repo: "{{repository.https_url}}".into(),
        dest: "$HOME/Developer/{{repository.owner}}/{{repository.name}}".into(),
        branch: None,
    };

    let migrated = LegacyTaskImporter::import_steps(&vec![source, loop_step, clone]).unwrap();
    assert_eq!(migrated.nodes.len(), 2);
    assert_eq!(
        migrated.edges,
        vec![GraphEdge::new(
            "repositories",
            EdgePort::Success,
            "repositories-loop"
        )]
    );
    let GraphNode::ForEach(control) = &migrated.nodes[1] else {
        panic!("expected migrated for-each control node")
    };
    assert_eq!(control.item_alias, "repository");
    assert_eq!(control.body.entries, vec!["clone"]);
    let GraphNode::Action(action) = &control.body.nodes[0] else {
        panic!("expected nested clone action")
    };
    assert!(matches!(
        action.step.action,
        Action::GitCloneIfMissing { .. }
    ));
    assert!(matches!(
        action.bindings.get("repo"),
        Some(Binding::Field { .. })
    ));
    assert!(matches!(
        action.bindings.get("dest"),
        Some(Binding::Interpolated { .. })
    ));
    assert!(!action.bindings.contains_key("branch"));
}

#[test]
fn explicit_loop_item_consumer_migrates_to_generic_foreach_body() {
    let source = step("repositories");
    let mut loop_step = step("repositories-loop");
    loop_step.action = Action::ForEach {
        source_step: "repositories".into(),
        array_path: "github.repositories".into(),
        item: "repository".into(),
        fields: vec!["https_url".into(), "name".into()],
    };
    let mut inspect = step("inspect");
    inspect.action = Action::GitInspect {
        repo: "https://github.com/example/repository.git".into(),
        dest: "/tmp/repository".into(),
    };
    let item_binding =
        Binding::field(FieldRef::loop_item("repositories-loop").field("https_url"));
    inspect.bindings.insert("repo".into(), item_binding.clone());

    let migrated = LegacyTaskImporter::import_steps(&vec![source, loop_step, inspect]).unwrap();

    assert_eq!(migrated.nodes.len(), 2);
    assert_eq!(
        migrated.edges,
        vec![GraphEdge::new(
            "repositories",
            EdgePort::Success,
            "repositories-loop"
        )]
    );
    let GraphNode::ForEach(control) = &migrated.nodes[1] else {
        panic!("expected migrated for-each control node")
    };
    assert_eq!(control.body.entries, vec!["inspect"]);
    let GraphNode::Action(action) = &control.body.nodes[0] else {
        panic!("expected generic action in loop body")
    };
    assert!(action.step.bindings.is_empty());
    assert_eq!(action.bindings.get("repo"), Some(&item_binding));
}

#[test]
fn positional_array_consumer_does_not_imply_foreach_membership() {
    let source = step("repositories");
    let mut loop_step = step("repositories-loop");
    loop_step.action = Action::ForEach {
        source_step: "repositories".into(),
        array_path: "github.repositories".into(),
        item: "repository".into(),
        fields: vec![],
    };
    let mut inspect = step("inspect");
    inspect.action = Action::GitInspect {
        repo: "https://github.com/example/repository.git".into(),
        dest: "/tmp/repository".into(),
    };
    inspect.bindings.insert(
        "repo".into(),
        Binding::field(
            FieldRef::step("repositories")
                .field("github")
                .field("repositories")
                .index(2)
                .field("https_url"),
        ),
    );

    let error = LegacyTaskImporter::import_steps(&vec![source, loop_step, inspect]).unwrap_err();
    assert!(matches!(
        error,
        LinearMigrationError::UnsupportedLegacyControl { step, reason }
            if step == "repositories-loop" && reason.contains("does not structurally reference")
    ));
}

#[test]
fn generic_foreach_consumer_cannot_escape_legacy_field_projection() {
    let source = step("repositories");
    let mut loop_step = step("repositories-loop");
    loop_step.action = Action::ForEach {
        source_step: "repositories".into(),
        array_path: "github.repositories".into(),
        item: "repository".into(),
        fields: vec!["https_url".into()],
    };
    let mut inspect = step("inspect");
    inspect.action = Action::GitInspect {
        repo: "https://github.com/example/repository.git".into(),
        dest: "/tmp/repository".into(),
    };
    inspect.bindings.insert(
        "repo".into(),
        Binding::field(FieldRef::loop_item("repositories-loop").field("ssh_url")),
    );

    let error = LegacyTaskImporter::import_steps(&vec![source, loop_step, inspect]).unwrap_err();
    assert!(matches!(
        error,
        LinearMigrationError::UnsupportedLegacyControl { step, reason }
            if step == "repositories-loop" && reason.contains("omitted by the v1 projection")
    ));
}

#[test]
fn legacy_generic_foreach_rejects_loop_item_conditions_until_graph_lowering() {
    let source = step("repositories");
    let mut loop_step = step("repositories-loop");
    loop_step.action = Action::ForEach {
        source_step: "repositories".into(),
        array_path: "github.repositories".into(),
        item: "repository".into(),
        fields: vec![],
    };
    let mut inspect = step("inspect");
    inspect.action = Action::GitInspect {
        repo: "https://github.com/example/repository.git".into(),
        dest: "/tmp/repository".into(),
    };
    inspect.bindings.insert(
        "repo".into(),
        Binding::field(FieldRef::loop_item("repositories-loop").field("https_url")),
    );
    inspect.when = Some(StepCondition::Expression {
        rule: ExpressionV1::Exists {
            reference: ReferenceV1::Context {
                field: FieldRef::loop_item("repositories-loop").field("name"),
            },
        },
        policy: RuleOutcomePolicy::default(),
    });

    let error = LegacyTaskImporter::import_steps(&vec![source, loop_step, inspect]).unwrap_err();
    assert!(matches!(
        error,
        LinearMigrationError::UnsupportedLegacyControl { step, reason }
            if step == "inspect" && reason.contains("explicit v2 graph")
    ));
}

#[test]
fn ambiguous_legacy_control_shape_is_not_guessed() {
    let mut loop_step = step("loop");
    loop_step.action = Action::ForEach {
        source_step: "source".into(),
        array_path: "items".into(),
        item: "item".into(),
        fields: vec![],
    };
    let error = LegacyTaskImporter::import_steps(&vec![step("source"), loop_step, step("other")])
        .unwrap_err();
    assert!(matches!(
        error,
        LinearMigrationError::UnsupportedLegacyControl { step, .. } if step == "loop"
    ));
}

#[test]
fn upgrading_an_upgraded_graph_changes_nothing() {
    let mut root = graph(
        &["first"],
        vec![action("first"), action("second")],
        vec![GraphEdge::new("first", EdgePort::Success, "second")],
    );
    root.version = 2;
    let once = root.to_v3().unwrap();
    let twice = once.to_v3().unwrap();
    assert_eq!(once, twice);
    assert_eq!(once.nodes, root.nodes);
    assert_eq!(once.edges, root.edges);
}

#[test]
fn faults_of_the_graph_itself_are_reported() {
    let empty = graph(&[], vec![], vec![]);
    assert!(has_error(&empty.validate(), |kind| matches!(
        kind,
        GraphValidationErrorKind::EmptyGraph
    )));
    let mut root = graph(
        &["a", "a", "nowhere"],
        vec![action("a"), action("b"), action("  ")],
        vec![
            GraphEdge::new("b", EdgePort::Success, "a"),
            GraphEdge::new("b", EdgePort::Success, "a"),
            GraphEdge::new("a", EdgePort::Completed, "b"),
        ],
    );
    root.version = 2;
    root.id = Some(" ".into());
    let result = root.validate();
    assert!(has_error(&result, |kind| matches!(
        kind,
        GraphValidationErrorKind::UnsupportedVersion {
            found: 2,
            supported: WORKFLOW_GRAPH_VERSION
        }
    )));
    assert!(has_error(&result, |kind| matches!(
        kind,
        GraphValidationErrorKind::EmptyGraphId
    )));
    assert!(has_error(&result, |kind| matches!(
        kind,
        GraphValidationErrorKind::EmptyNodeId
    )));
    assert!(has_error(&result, |kind| matches!(
        kind,
        GraphValidationErrorKind::DuplicateEntry { node } if node == "a"
    )));
    assert!(has_error(&result, |kind| matches!(
        kind,
        GraphValidationErrorKind::UnknownEntry { node } if node == "nowhere"
    )));
    assert!(has_error(&result, |kind| matches!(
        kind,
        GraphValidationErrorKind::EntryHasIncoming { node } if node == "a"
    )));
    assert!(has_error(&result, |kind| matches!(
        kind,
        GraphValidationErrorKind::DuplicateEdge
    )));
}

#[test]
fn nothing_to_import_is_an_error() {
    let error = LegacyTaskImporter::import_steps(&Vec::new()).unwrap_err();
    assert_eq!(error, LinearMigrationError::EmptySteps);
}

#[test]
fn a_component_is_counted_up_to_the_piece_that_passes_the_limit() {
    let argument = "a".repeat(1024 * 1024);
    let mut run = default_step(ActionKind::RunCommand, "run").unwrap();
    run.action = Action::RunCommand {
        program: "echo".into(),
        args: vec![argument.clone(), argument.clone(), argument],
        cwd: None,
        env: TextMap::new(),
        shell: ShellMode::Forbidden,
    };
    let node = GraphNode::Action(Box::new(ActionNode {
        step: run,
        bindings: TextMap::new(),
    }));
    let result = graph(&["run"], vec![node], vec![]).validate();
    let head = r#"{"type":"run-command","program":"echo","args":[""#.len();
    assert!(has_error(&result, |kind| matches!(
        kind,
        GraphValidationErrorKind::ResourceLimitExceeded { resource, found, limit }
            if resource == "serialized component bytes"
                && *found == head + 1024 * 1024 + 3 + 1024 * 1024
                && *limit == GRAPH_MAX_SERIALIZED_COMPONENT_BYTES
    )));
}

#[test]
fn serialized_sizes_are_those_of_the_text() {
    let members = map([
        ("name".to_string(), string("a\"b\u{1}\u{44f}\n")),
        ("list".to_string(), Value::Array(vec![
            Value::Null,
            Value::Bool(false),
            Value::Number(Number::NegInt(-12)),
        ])),
    ]);
    let value = Value::Object(members);
    let text = value_text(&value);
    assert_eq!(
        text,
        "{\"list\":[null,false,-12],\"name\":\"a\\\"b\\u0001\u{44f}\\n\"}"
    );
    assert_eq!(serialized_payload_bytes(&value), Ok(text.len()));
}

#[test]
fn upgrading_needs_known_versions_throughout() {
    let nested = |version: u32| {
        let mut branch = graph(&["inside"], vec![action("inside")], vec![]);
        branch.version = version;
        let mut root = graph(
            &["choice"],
            vec![GraphNode::If(IfNode {
                id: "choice".into(),
                condition: ExpressionV1::Literal {
                    value: ExpressionValue::Bool(true),
                },
                then_graph: Box::new(branch),
                else_graph: None,
            })],
            vec![],
        );
        root.version = 2;
        root
    };
    let mut expected = nested(3);
    expected.version = 3;
    assert_eq!(nested(2).into_v3().unwrap(), expected);
    assert!(nested(1).into_v3().is_err());
    let mut deep = graph(&["inside"], vec![action("inside")], vec![]);
    for _ in 1..32 {
        deep = graph(
            &["choice"],
            vec![GraphNode::If(IfNode {
                id: "choice".into(),
                condition: ExpressionV1::Literal {
                    value: ExpressionValue::Bool(true),
                },
                then_graph: Box::new(deep),
                else_graph: None,
            })],
            vec![],
        );
    }
    assert!(deep.to_v3().is_ok());
    let deeper = graph(
        &["choice"],
        vec![GraphNode::If(IfNode {
            id: "choice".into(),
            condition: ExpressionV1::Literal {
                value: ExpressionValue::Bool(true),
            },
            then_graph: Box::new(deep),
            else_graph: None,
        })],
        vec![],
    );
    assert!(matches!(
        deeper.to_v3(),
        Err(WorkflowGraphMigrationError::ResourceLimitExceeded { limit: 32, .. })
    ));
}
