use ppduster::bind_error::BindingError;
use ppduster::binding::{materialize_step, resolve_binding, validate_literal_binding};
use ppduster::block::{block_definition, default_step};
use ppduster::context::{Binding, ContextPathSegment, ContextScope, FieldRef, TemplatePart};
use ppduster::format::{valid_repository_name, validate_string_format};
use ppduster::json::{Float, Number, Value};
use ppduster::kind::ActionKind;
use ppduster::resolve::ResolvedSchemaOwned;
use ppduster::schema::{ContextType, FieldSchema, ObjectSchema, SemanticFormat, Sensitivity};
use ppduster::store::{ContextProvenance, ContextStore, ContextValue};
use ppduster::target::{display_target, parse_binding_target, set_value_at_path, BindingLimits};
use ppduster::task::Action;
use ppduster::text_map::TextMap;

fn converted(value: serde_json::Value) -> Value {
    match value {
        serde_json::Value::Null => Value::Null,
        serde_json::Value::Bool(value) => Value::Bool(value),
        serde_json::Value::Number(number) => Value::Number(match number.as_u64() {
            Some(value) => Number::PosInt(value),
            None => match number.as_i64() {
                Some(value) => Number::NegInt(value),
                None => Number::Float(Float {
                    bits: number.as_f64().expect("a finite number").to_bits(),
                    text: number.to_string(),
                }),
            },
        }),
        serde_json::Value::String(value) => Value::String(value),
        serde_json::Value::Array(items) => {
            Value::Array(items.into_iter().map(converted).collect())
        }
        serde_json::Value::Object(members) => {
            let mut map = TextMap::new();
            for (name, value) in members {
                map.insert(name, converted(value));
            }
            Value::Object(map)
        }
    }
}

fn json(text: &str) -> Value {
    converted(serde_json::from_str(text).expect("valid JSON"))
}

fn string(text: &str) -> Value {
    Value::String(text.to_string())
}

fn map<V>(entries: Vec<(&str, V)>) -> TextMap<V> {
    let mut map = TextMap::new();
    for (name, value) in entries {
        map.insert(name.to_string(), value);
    }
    map
}

fn expecting(value_type: ContextType, sensitivity: Sensitivity) -> ResolvedSchemaOwned {
    ResolvedSchemaOwned {
        value_type,
        required: true,
        nullable: false,
        sensitivity,
        allowed_values: Vec::new(),
    }
}

fn step_scope(step_id: &str) -> ContextScope {
    ContextScope::Step {
        step_id: step_id.to_string(),
    }
}

fn github_store(id: &str, owner: &str, name: &str, full_name: &str) -> ContextStore {
    let schema = block_definition(ActionKind::GithubListRepositories).output_schema;
    let repository = Value::Object(map(vec![
        ("id", string(id)),
        ("owner", string(owner)),
        ("name", string(name)),
        ("full_name", string(full_name)),
        ("https_url", string("https://github.com/acme/service.git")),
        ("ssh_url", string("git@github.com:acme/service.git")),
        ("default_branch", string("main")),
        ("private", Value::Bool(false)),
        ("archived", Value::Bool(false)),
    ]));
    let github = Value::Object(map(vec![
        ("account", json(r#"{"login": "octocat"}"#)),
        ("repositories", Value::Array(vec![repository])),
    ]));
    let mut store = ContextStore::default();
    store.insert(
        step_scope("list"),
        ContextValue::new(
            Value::Object(map(vec![("github", github)])),
            ContextProvenance::step("list"),
        )
        .with_schema(schema),
    );
    store
}

fn github_context_with_names(owner: &str, name: &str, full_name: &str) -> ContextStore {
    github_store("R_123", owner, name, full_name)
}

fn github_context() -> ContextStore {
    github_context_with_names("acme", "service", "acme/service")
}

#[test]
fn github_repository_collection_accepts_opaque_node_ids() {
    let store = github_store(
        "MDEwOlJlcG9zaXRvcnkxMjM0NTY3ODk=",
        "acme",
        "service",
        "acme/service",
    );
    let collection = FieldRef::step("list").field("github").field("repositories");
    let expected = expecting(ContextType::array(ContextType::Any), Sensitivity::Secret);

    let resolved = resolve_binding(
        &Binding::field(collection),
        &expected,
        &store,
        BindingLimits::default(),
    )
    .expect("GitHub node IDs must be treated as opaque strings");

    assert_eq!(
        resolved.value.item(0).unwrap().member("id"),
        Some(&string("MDEwOlJlcG9zaXRvcnkxMjM0NTY3ODk="))
    );
}

fn clone_action() -> Action {
    Action::GitCloneIfMissing {
        repo: "https://github.com/placeholder/repository.git".to_string(),
        dest: "/tmp/placeholder/repository".to_string(),
        branch: Some("main".to_string()),
    }
}

fn document(action: &Action) -> Value {
    match action.to_value() {
        Value::Object(members) => {
            let mut sorted = TextMap::new();
            for (name, value) in members.entries {
                sorted.insert(name, value);
            }
            Value::Object(sorted)
        }
        other => other,
    }
}

fn materialize(
    action: &Action,
    bindings: &TextMap<Binding>,
    store: &ContextStore,
) -> Result<Value, BindingError> {
    materialize_step(
        &document(action),
        action,
        bindings,
        store,
        BindingLimits::default(),
    )
}

#[test]
fn typed_fields_and_structural_templates_materialize_an_action() {
    let store = github_context();
    let repository = FieldRef::step("list")
        .field("github")
        .field("repositories")
        .index(0);
    let bindings = map(vec![
        (
            "/repo",
            Binding::field(repository.clone().field("https_url")),
        ),
        (
            "/dest",
            Binding::interpolated(vec![
                TemplatePart::literal("/tmp/"),
                TemplatePart::field(repository.clone().field("owner")),
                TemplatePart::literal("/"),
                TemplatePart::field(repository.clone().field("name")),
            ]),
        ),
        (
            "/branch",
            Binding::field(repository.field("default_branch")),
        ),
    ]);

    let materialized = materialize(&clone_action(), &bindings, &store).unwrap();
    assert_eq!(
        materialized.member("repo"),
        Some(&string("https://github.com/acme/service.git"))
    );
    assert_eq!(
        materialized.member("dest"),
        Some(&string("/tmp/acme/service"))
    );
    assert_eq!(materialized.member("branch"), Some(&string("main")));
}

#[test]
fn nested_binding_materializes_an_optional_object_from_null() {
    let step = default_step(ActionKind::InspectPath, "inspect").unwrap();
    let bindings = map(vec![(
        "expect.exists",
        Binding::literal(Value::Bool(false)),
    )]);

    let materialized = materialize(&step.action, &bindings, &ContextStore::default()).unwrap();
    assert_eq!(
        materialized.member("expect").unwrap().member("exists"),
        Some(&Value::Bool(false))
    );
}

#[test]
fn missing_source_omits_an_optional_input_override() {
    let mut store = ContextStore::default();
    store.insert(
        step_scope("source"),
        ContextValue::new(json("{}"), ContextProvenance::step("source")).with_schema(
            ObjectSchema::new("optional-source").with_field(
                "branch",
                FieldSchema::optional(ContextType::string(SemanticFormat::GitRef)),
            ),
        ),
    );
    let bindings = map(vec![(
        "branch",
        Binding::field(FieldRef::step("source").field("branch")),
    )]);

    let materialized = materialize(&clone_action(), &bindings, &store).unwrap();
    assert_eq!(materialized.member("branch"), Some(&string("main")));
}

#[test]
fn missing_source_schema_never_silently_omits_an_optional_override() {
    let field = FieldRef::scenario().field("branch");
    let bindings = map(vec![("branch", Binding::field(field.clone()))]);

    let error = materialize(&clone_action(), &bindings, &ContextStore::default()).unwrap_err();

    assert!(matches!(
        error,
        BindingError::MissingSourceSchema { reference } if reference == field
    ));
}

#[test]
fn indexed_action_input_targets_are_rejected_before_patching() {
    let step = default_step(ActionKind::RunCommand, "run").unwrap();
    let bindings = map(vec![("args.0", Binding::literal(string("--version")))]);

    let error = materialize(&step.action, &bindings, &ContextStore::default()).unwrap_err();

    assert!(matches!(
        error,
        BindingError::IndexedInputTarget { ref target } if target == "/args/0"
    ));
}

#[test]
fn literal_editor_validation_uses_runtime_semantic_contracts() {
    let inputs = block_definition(ActionKind::GitCloneIfMissing).input_schema;
    let repo = inputs.field("repo").unwrap();
    assert!(validate_literal_binding(&string("not a git url"), repo).is_err());
    assert!(
        validate_literal_binding(&string("https://github.com/acme/service.git"), repo).is_ok()
    );

    let branch = inputs.field("branch").unwrap();
    assert!(validate_literal_binding(&Value::Null, branch).is_ok());
}

#[test]
fn repository_name_requires_safe_non_empty_path_segments() {
    for valid in [
        "acme",
        "service-api_2",
        "acme/service.v2",
        "org/team/repository",
        "организация/репозиторий",
    ] {
        assert!(
            valid_repository_name(valid),
            "expected {valid:?} to be a valid repository name"
        );
    }

    for invalid in [
        "",
        ".",
        "..",
        "/repository",
        "repository/",
        "owner//repository",
        "owner/./repository",
        "owner/../repository",
        "owner/repository/..",
    ] {
        assert!(
            !valid_repository_name(invalid),
            "expected {invalid:?} to be rejected"
        );
    }
}

#[test]
fn opaque_id_accepts_base64_without_promising_an_identifier_charset() {
    assert!(
        validate_string_format("MDEwOlJlcG9zaXRvcnkxMjM0NTY=", SemanticFormat::OpaqueId).is_ok()
    );
    assert!(validate_string_format("", SemanticFormat::OpaqueId).is_err());
    assert!(validate_string_format("node\0id", SemanticFormat::OpaqueId).is_err());
}

#[test]
fn interpolated_binding_accepts_normal_repository_source_fields() {
    let store =
        github_context_with_names("организация", "сервис.v2", "организация/команда/сервис.v2");
    let repository = FieldRef::step("list")
        .field("github")
        .field("repositories")
        .index(0);
    let expected = expecting(
        ContextType::string(SemanticFormat::DirectoryPath),
        Sensitivity::Public,
    );
    let binding = Binding::interpolated(vec![
        TemplatePart::literal("/tmp/"),
        TemplatePart::field(repository.clone().field("owner")),
        TemplatePart::literal("/"),
        TemplatePart::field(repository.clone().field("name")),
        TemplatePart::literal("/"),
        TemplatePart::field(repository.field("full_name")),
    ]);

    let resolved = resolve_binding(&binding, &expected, &store, BindingLimits::default())
        .expect("normal owner, name, and full_name must remain usable");
    assert_eq!(
        resolved.value,
        string("/tmp/организация/сервис.v2/организация/команда/сервис.v2")
    );
}

#[test]
fn interpolated_binding_rejects_traversal_in_repository_source_fields() {
    let cases = [
        ("owner", "..", "service", "acme/service"),
        ("name", "acme", "../service", "acme/service"),
        ("full_name", "acme", "service", "acme/../service"),
    ];
    let expected = expecting(
        ContextType::string(SemanticFormat::DirectoryPath),
        Sensitivity::Public,
    );

    for (field_name, owner, name, full_name) in cases {
        let store = github_context_with_names(owner, name, full_name);
        let field = FieldRef::step("list")
            .field("github")
            .field("repositories")
            .index(0)
            .field(field_name);
        let binding = Binding::interpolated(vec![
            TemplatePart::literal("/tmp/"),
            TemplatePart::field(field.clone()),
        ]);

        let error = resolve_binding(&binding, &expected, &store, BindingLimits::default())
            .expect_err("traversal-like repository fields must fail before interpolation");
        assert!(
            matches!(
                error,
                BindingError::InvalidSourceValue { ref reference, .. } if reference == &field
            ),
            "unexpected error for {field_name}: {}",
            error.message()
        );
    }
}

#[test]
fn semantic_format_prevents_repository_name_from_becoming_git_url() {
    let store = github_context();
    let bindings = map(vec![(
        "/repo",
        Binding::field(
            FieldRef::step("list")
                .field("github")
                .field("repositories")
                .index(0)
                .field("name"),
        ),
    )]);
    let error = materialize(&clone_action(), &bindings, &store).unwrap_err();
    assert!(matches!(error, BindingError::TypeMismatch { .. }));
}

#[test]
fn legacy_placeholder_templates_fail_closed() {
    let expected = expecting(ContextType::plain_string(), Sensitivity::Public);
    let error = resolve_binding(
        &Binding::template("{{repository.url}}"),
        &expected,
        &ContextStore::default(),
        BindingLimits::default(),
    )
    .unwrap_err();
    assert_eq!(error, BindingError::LegacyTemplate);
}

fn secret_url_context(secret: &str) -> ContextStore {
    let schema = ObjectSchema::new("secret-url-source").with_field(
        "url",
        FieldSchema::required(ContextType::string(SemanticFormat::GitUrl))
            .sensitive(Sensitivity::Secret),
    );
    let mut store = ContextStore::default();
    store.insert(
        step_scope("secret-source"),
        ContextValue::new(
            Value::Object(map(vec![("url", string(secret))])),
            ContextProvenance::step("secret-source"),
        )
        .with_schema(schema),
    );
    store
}

#[test]
fn secret_flow_precedes_semantic_validation_and_never_echoes_value() {
    let secret = "plaintext-secret-that-is-not-a-url";
    let binding = Binding::field(FieldRef::step("secret-source").field("url"));
    let public_git_url = expecting(
        ContextType::string(SemanticFormat::GitUrl),
        Sensitivity::Public,
    );
    let error = resolve_binding(
        &binding,
        &public_git_url,
        &secret_url_context(secret),
        BindingLimits::default(),
    )
    .unwrap_err();
    assert!(matches!(error, BindingError::SecretFlow { .. }));
    assert!(!error.message().contains(secret));

    let secret_git_url = ResolvedSchemaOwned {
        sensitivity: Sensitivity::Secret,
        ..public_git_url
    };
    let error = resolve_binding(
        &binding,
        &secret_git_url,
        &secret_url_context(secret),
        BindingLimits::default(),
    )
    .unwrap_err();
    assert!(matches!(error, BindingError::InvalidSourceValue { .. }));
    assert!(!error.message().contains(secret));
    assert!(error.message().contains("secret context value"));
}

#[test]
fn binding_a_public_parent_or_root_cannot_launder_a_nested_secret() {
    let payload = ObjectSchema::new("payload").with_field(
        "token",
        FieldSchema::required(ContextType::plain_string()).sensitive(Sensitivity::Secret),
    );
    let root = ObjectSchema::new("root").with_field(
        "payload",
        FieldSchema::required(ContextType::object(payload)),
    );
    let mut store = ContextStore::default();
    store.insert(
        step_scope("nested"),
        ContextValue::new(
            json(r#"{"payload": {"token": "nested-secret"}}"#),
            ContextProvenance::step("nested"),
        )
        .with_schema(root),
    );
    let public_object = expecting(ContextType::Any, Sensitivity::Public);
    for reference in [
        FieldRef::step("nested"),
        FieldRef::step("nested").field("payload"),
    ] {
        let error = resolve_binding(
            &Binding::field(reference),
            &public_object,
            &store,
            BindingLimits::default(),
        )
        .unwrap_err();
        assert!(matches!(error, BindingError::SecretFlow { .. }));
        assert!(!error.message().contains("nested-secret"));
    }
}

#[test]
fn pointers_and_dotted_paths_name_the_same_target() {
    let limits = BindingLimits::default();
    let pointer = parse_binding_target("/checksum/sha256", limits).unwrap();
    let dotted = parse_binding_target("checksum.sha256", limits).unwrap();
    assert_eq!(pointer, dotted);
    assert_eq!(display_target(&dotted), "/checksum/sha256");
    let escaped = parse_binding_target("/a~1b~0c", limits).unwrap();
    assert_eq!(escaped, vec![ContextPathSegment::field("a/b~c")]);
    assert_eq!(display_target(&escaped), "/a~1b~0c");
}

#[test]
fn faulty_targets_are_told_apart() {
    let limits = BindingLimits::default();
    assert_eq!(
        parse_binding_target("  ", limits),
        Err(BindingError::EmptyTarget("  ".to_string()))
    );
    assert_eq!(
        parse_binding_target("a..b", limits),
        Err(BindingError::EmptyTarget("a..b".to_string()))
    );
    assert_eq!(
        parse_binding_target("/a~2", limits),
        Err(BindingError::InvalidPointer {
            target: "/a~2".to_string()
        })
    );
    let short = BindingLimits {
        max_path_segments: 1,
        ..limits
    };
    assert_eq!(
        parse_binding_target("a.b", short),
        Err(BindingError::PathLimit {
            target: "a.b".to_string(),
            limit: 1
        })
    );
}

#[test]
fn a_written_value_can_be_read_back() {
    let path = parse_binding_target("/a/b", BindingLimits::default()).unwrap();
    let written = set_value_at_path(json(r#"{"a": null, "c": 1}"#), &path, string("x")).unwrap();
    assert_eq!(written, json(r#"{"a": {"b": "x"}, "c": 1}"#));
    assert_eq!(
        set_value_at_path(json(r#"{"a": 1}"#), &path, string("x")),
        Err("parent of \"b\" is not an object".to_string())
    );
    assert_eq!(
        set_value_at_path(json("{}"), &Vec::new(), string("x")),
        Err("target has no path segments".to_string())
    );
}

#[test]
fn binding_limits_and_duplicates_are_refused() {
    let action = clone_action();
    let document = document(&action);
    let store = ContextStore::default();
    let twice = map(vec![
        ("/branch", Binding::literal(string("main"))),
        ("branch", Binding::literal(string("dev"))),
    ]);
    assert_eq!(
        materialize(&action, &twice, &store),
        Err(BindingError::DuplicateTarget {
            target: "/branch".to_string()
        })
    );
    let limits = BindingLimits {
        max_bindings: 1,
        ..BindingLimits::default()
    };
    assert_eq!(
        materialize_step(&document, &action, &twice, &store, limits),
        Err(BindingError::BindingCountLimit { found: 2, limit: 1 })
    );
    let unknown = map(vec![("nowhere", Binding::literal(string("x")))]);
    assert!(matches!(
        materialize(&action, &unknown, &store),
        Err(BindingError::UnknownInput { ref target, .. }) if target == "/nowhere"
    ));
    let invalid = map(vec![("repo", Binding::literal(Value::Bool(true)))]);
    assert!(matches!(
        materialize(&action, &invalid, &store),
        Err(BindingError::InvalidValue { ref target, .. }) if target == "/repo"
    ));
}

#[test]
fn templates_are_bounded_and_take_scalars_only() {
    let store = github_context();
    let expected = expecting(ContextType::plain_string(), Sensitivity::Public);
    let long = Binding::interpolated(vec![
        TemplatePart::literal("abc"),
        TemplatePart::literal("def"),
    ]);
    let parts = BindingLimits {
        max_template_parts: 1,
        ..BindingLimits::default()
    };
    assert_eq!(
        resolve_binding(&long, &expected, &store, parts),
        Err(BindingError::TemplatePartLimit { found: 2, limit: 1 })
    );
    let bytes = BindingLimits {
        max_rendered_bytes: 5,
        ..BindingLimits::default()
    };
    assert_eq!(
        resolve_binding(&long, &expected, &store, bytes),
        Err(BindingError::RenderedSizeLimit { limit: 5 })
    );
    let list = FieldRef::step("list").field("github").field("repositories");
    let whole = Binding::interpolated(vec![TemplatePart::field(list.clone())]);
    assert_eq!(
        resolve_binding(&whole, &expected, &store, BindingLimits::default()),
        Err(BindingError::NonScalarTemplateField { reference: list })
    );
    let private = FieldRef::step("list")
        .field("github")
        .field("repositories")
        .index(0)
        .field("private");
    let rendered = resolve_binding(
        &Binding::interpolated(vec![
            TemplatePart::literal("private="),
            TemplatePart::field(private.clone()),
        ]),
        &expected,
        &store,
        BindingLimits::default(),
    )
    .unwrap();
    assert_eq!(rendered.value, string("private=false"));
    assert_eq!(rendered.sources, vec![private]);
    assert_eq!(rendered.sensitivity, Sensitivity::Public);
}

#[test]
fn formats_are_recognised() {
    let accepted = [
        (SemanticFormat::DateTime, "2024-02-29T12:00:00Z"),
        (SemanticFormat::Email, "user@example.com"),
        (SemanticFormat::Hostname, "example.com"),
        (SemanticFormat::IpAddress, "2001:db8::1"),
        (SemanticFormat::IpAddress, "192.168.0.1"),
        (SemanticFormat::Uuid, "123e4567-e89b-12d3-a456-426614174000"),
        (SemanticFormat::GitRef, "feature/one"),
        (SemanticFormat::Url, "https://example.com/path"),
        (SemanticFormat::GitUrl, "git@github.com:acme/service.git"),
        (SemanticFormat::Identifier, "имя-1"),
    ];
    for (format, text) in accepted {
        assert!(
            validate_string_format(text, format).is_ok(),
            "expected {text:?} to be accepted"
        );
    }
    let refused = [
        (SemanticFormat::DateTime, "2023-02-29T12:00:00Z"),
        (SemanticFormat::DateTime, "yesterday"),
        (SemanticFormat::Email, "user"),
        (SemanticFormat::Hostname, "-example.com"),
        (SemanticFormat::IpAddress, "256.0.0.1"),
        (SemanticFormat::IpAddress, "1:2:3"),
        (SemanticFormat::Uuid, "123e4567"),
        (SemanticFormat::GitRef, "feature..one"),
        (SemanticFormat::Url, "example"),
        (SemanticFormat::Identifier, "a b"),
    ];
    for (format, text) in refused {
        assert!(
            validate_string_format(text, format).is_err(),
            "expected {text:?} to be refused"
        );
    }
}
