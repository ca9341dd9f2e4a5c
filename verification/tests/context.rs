use ppduster::context::{ContextPathSegment, ContextScope, FieldRef};
use ppduster::document::schema_value;
use ppduster::json::{Float, Number, Value};
use ppduster::schema::{
    AdditionalProperties, ContextType, ContextTypeName, FieldSchema, ObjectSchema, SemanticFormat,
    Sensitivity, CONTEXT_SCHEMA_VERSION,
};
use ppduster::store::{
    ContextLookupError, ContextOrigin, ContextProvenance, ContextStore, ContextValue,
};
use ppduster::text_map::TextMap;
use ppduster::validate::SchemaValidationErrorKind;

fn converted(value: serde_json::Value) -> Value {
    match value {
        serde_json::Value::Null => Value::Null,
        serde_json::Value::Bool(value) => Value::Bool(value),
        serde_json::Value::Number(number) => Value::Number(match number.as_u64() {
            Some(value) => Number::PosInt(value),
            None => match number.as_i64() {
                Some(value) => Number::NegInt(value),
                None => Number::Float(Float {
                    bits: number.as_f64().expect("a finite number").to_bits(),
                    text: number.to_string(),
                }),
            },
        }),
        serde_json::Value::String(value) => Value::String(value),
        serde_json::Value::Array(items) => {
            Value::Array(items.into_iter().map(converted).collect())
        }
        serde_json::Value::Object(members) => {
            let mut map = TextMap::new();
            for (name, value) in members {
                map.insert(name, converted(value));
            }
            Value::Object(map)
        }
    }
}

fn json(text: &str) -> Value {
    converted(serde_json::from_str(text).expect("valid JSON"))
}

fn string(text: &str) -> Value {
    Value::String(text.to_string())
}

fn strings(texts: &[&str]) -> Vec<Value> {
    texts.iter().map(|text| string(text)).collect()
}

fn at<'a>(value: &'a Value, path: &[&str]) -> &'a Value {
    let mut current = value;
    for name in path {
        current = current.member(name).expect("a member of that name");
    }
    current
}

fn first_member(value: &Value) -> &Value {
    match value {
        Value::Object(members) => &members.entries[0].1,
        _ => panic!("expected an object"),
    }
}

fn repository_schema() -> ObjectSchema {
    ObjectSchema::new("ppduster.github.repository@1")
        .with_field(
            "name",
            FieldSchema::required(ContextType::plain_string()).described("Repository name"),
        )
        .with_field(
            "url",
            FieldSchema::required(ContextType::string(SemanticFormat::GitUrl)),
        )
        .with_field(
            "default_branch",
            FieldSchema::required(ContextType::string(SemanticFormat::GitRef)).nullable(),
        )
        .with_field(
            "token",
            FieldSchema::optional(ContextType::string(SemanticFormat::SecretRef))
                .sensitive(Sensitivity::Secret),
        )
}

fn github_schema() -> ObjectSchema {
    ObjectSchema::new("ppduster.github.repositories@1")
        .with_field(
            "login",
            FieldSchema::required(ContextType::plain_string()).sensitive(Sensitivity::Internal),
        )
        .with_field(
            "repositories",
            FieldSchema::required(ContextType::array(ContextType::object(repository_schema()))),
        )
}

#[test]
fn schemas_have_a_stable_serialized_form() {
    let schema = github_schema();
    let encoded = schema_value(&schema);
    assert_eq!(
        encoded.member("version"),
        Some(&Value::Number(Number::PosInt(CONTEXT_SCHEMA_VERSION as u64)))
    );
    let repositories = at(&encoded, &["fields", "repositories", "type"]);
    assert_eq!(repositories.member("kind"), Some(&string("array")));
    assert_eq!(
        at(
            repositories,
            &["items", "schema", "fields", "url", "type", "format"]
        ),
        &string("git-url")
    );
}

#[test]
fn allowed_values_round_trip_validate_and_participate_in_subtyping() {
    let constrained = FieldSchema::required(ContextType::plain_string()).with_allowed_values(strings(&[
        "sh",
        "bash",
        "powershell",
    ]));
    let schema =
        ObjectSchema::new("process-input").with_field("interpreter", constrained.clone());

    schema
        .validate_value(&json(r#"{ "interpreter": "bash" }"#))
        .unwrap();
    let error = schema
        .validate_value(&json(r#"{ "interpreter": "python" }"#))
        .unwrap_err();
    assert!(matches!(
        error.kind,
        SchemaValidationErrorKind::ValueNotAllowed { .. }
    ));

    let encoded = schema_value(&schema);
    assert_eq!(
        at(&encoded, &["fields", "interpreter", "allowed_values"]),
        &json(r#"["sh", "bash", "powershell"]"#)
    );
    assert_eq!(
        schema
            .resolve_owned(&[ContextPathSegment::field("interpreter")])
            .unwrap()
            .allowed_values,
        strings(&["sh", "bash", "powershell"])
    );

    let subset = FieldSchema::required(ContextType::plain_string()).with_allowed_values(strings(&["sh", "bash"]));
    let unrestricted = FieldSchema::required(ContextType::plain_string());
    assert!(constrained.accepts(&subset));
    assert!(!subset.accepts(&constrained));
    assert!(!constrained.accepts(&unrestricted));
    assert!(unrestricted.accepts(&constrained));
}

#[test]
fn types_are_structurally_assignable_with_semantic_refinements() {
    assert!(ContextType::Number.is_assignable_from(&ContextType::Integer));
    assert!(!ContextType::Integer.is_assignable_from(&ContextType::Number));
    assert!(ContextType::string(SemanticFormat::Url)
        .is_assignable_from(&ContextType::string(SemanticFormat::GitUrl)));
    assert!(!ContextType::string(SemanticFormat::GitUrl)
        .is_assignable_from(&ContextType::string(SemanticFormat::Url)));
    assert!(ContextType::string(SemanticFormat::Path)
        .is_assignable_from(&ContextType::string(SemanticFormat::DirectoryPath)));

    let expected = ObjectSchema::new("expected")
        .with_field("name", FieldSchema::required(ContextType::plain_string()))
        .allowing_additional_fields();
    let actual = ObjectSchema::new("actual")
        .with_field("name", FieldSchema::required(ContextType::plain_string()))
        .with_field("private", FieldSchema::required(ContextType::Boolean));
    assert!(ContextType::object(expected).is_assignable_from(&ContextType::object(actual)));
}

#[test]
fn typed_additional_fields_are_backward_compatible_resolvable_and_validated() {
    let closed = ObjectSchema::new("closed");
    assert_eq!(closed.additional_fields, AdditionalProperties::Forbidden);
    assert_eq!(
        schema_value(&closed).member("additional_fields"),
        Some(&Value::Bool(false))
    );

    let legacy_open = ObjectSchema::new("legacy-open").allowing_additional_fields();
    assert_eq!(legacy_open.additional_fields, AdditionalProperties::Any);
    assert_eq!(
        schema_value(&legacy_open).member("additional_fields"),
        Some(&Value::Bool(true))
    );

    let strings =
        ObjectSchema::new("string-map").with_additional_fields(ContextType::plain_string());
    assert_eq!(
        at(&schema_value(&strings), &["additional_fields", "kind"]),
        &string("string")
    );
    strings
        .validate_value(&json(r#"{ "HOME": "/tmp", "LANG": "ru_RU.UTF-8" }"#))
        .unwrap();
    for invalid in [json(r#"{ "DEBUG": true }"#), json(r#"{ "NESTED": {} }"#)] {
        let error = strings.validate_value(&invalid).unwrap_err();
        assert_eq!(
            error.kind,
            SchemaValidationErrorKind::TypeMismatch {
                expected: ContextTypeName::String,
                actual: ContextType::infer(first_member(&invalid)).name(),
            }
        );
    }
    let resolved = strings
        .resolve(&[ContextPathSegment::field("DYNAMIC_NAME")])
        .unwrap();
    assert_eq!(resolved.value_type, &ContextType::plain_string());
    assert!(!resolved.required);
}

#[test]
fn object_subtyping_is_conservative_for_open_and_optional_fields() {
    let closed_consumer = ObjectSchema::new("closed")
        .with_field("name", FieldSchema::required(ContextType::plain_string()));
    let open_producer = ObjectSchema::new("open")
        .with_field("name", FieldSchema::required(ContextType::plain_string()))
        .allowing_additional_fields();
    assert!(!closed_consumer.is_assignable_from(&open_producer));

    let optional_string = ObjectSchema::new("optional-string")
        .with_field("value", FieldSchema::optional(ContextType::plain_string()));
    let optional_boolean = ObjectSchema::new("optional-boolean")
        .with_field("value", FieldSchema::optional(ContextType::Boolean));
    assert!(!optional_string.is_assignable_from(&optional_boolean));

    let string_map =
        ObjectSchema::new("string-map").with_additional_fields(ContextType::plain_string());
    assert!(!optional_string.is_assignable_from(&string_map));
    let optional_string_open = optional_string
        .clone()
        .with_additional_fields(ContextType::plain_string());
    assert!(optional_string_open.is_assignable_from(&string_map));
    let boolean_map =
        ObjectSchema::new("boolean-map").with_additional_fields(ContextType::Boolean);
    assert!(!optional_string_open.is_assignable_from(&boolean_map));

    let open_string_consumer =
        ObjectSchema::new("string-extras").with_additional_fields(ContextType::plain_string());
    let known_boolean_extra = ObjectSchema::new("known-extra")
        .with_field("debug", FieldSchema::optional(ContextType::Boolean));
    assert!(!open_string_consumer.is_assignable_from(&known_boolean_extra));
}

#[test]
fn schema_resolver_tracks_array_shape_nullability_and_sensitivity() {
    let schema = github_schema();
    assert_eq!(
        schema.resolve_owned(&[]).unwrap().sensitivity,
        Sensitivity::Secret,
        "the whole object exposes its nested token"
    );
    let repositories = FieldRef::step("list").field("repositories");
    assert_eq!(
        schema.resolve(&repositories.segments).unwrap().sensitivity,
        Sensitivity::Secret,
        "a public array field must aggregate its item sensitivity"
    );
    let repository = repositories.clone().index(0);
    assert_eq!(
        schema.resolve(&repository.segments).unwrap().sensitivity,
        Sensitivity::Secret,
        "a public item object must aggregate its child sensitivity"
    );
    assert_eq!(
        schema
            .resolve(&repository.clone().field("name").segments)
            .unwrap()
            .sensitivity,
        Sensitivity::Public,
        "a selected public leaf is not tainted by a secret sibling"
    );
    let reference = FieldRef::step("list")
        .field("repositories")
        .index(0)
        .field("token");
    let resolved = schema.resolve(&reference.segments).unwrap();
    assert_eq!(
        resolved.value_type,
        &ContextType::string(SemanticFormat::SecretRef)
    );
    assert!(!resolved.required);
    assert!(!resolved.nullable);
    assert_eq!(resolved.sensitivity, Sensitivity::Secret);

    let branch = FieldRef::step("list")
        .field("repositories")
        .index(0)
        .field("default_branch");
    let resolved = schema.resolve(&branch.segments).unwrap();
    assert!(!resolved.required);
    assert!(resolved.nullable);
}

#[test]
fn schema_validation_covers_required_nullable_types_and_additional_fields() {
    let schema = github_schema();
    schema
        .validate_value(&json(r#"{
            "login": "octocat",
            "repositories": [{
                "name": "hello-world",
                "url": "git@github.com:octocat/hello-world.git",
                "default_branch": null
            }]
        }"#))
        .unwrap();

    let error = schema
        .validate_value(&json(r#"{ "login": "octocat" }"#))
        .unwrap_err();
    assert_eq!(
        error.kind,
        SchemaValidationErrorKind::MissingRequiredField {
            field: "repositories".into()
        }
    );

    let error = schema
        .validate_value(&json(r#"{
            "login": "octocat",
            "repositories": [{
                "name": "hello-world",
                "url": false,
                "default_branch": "main"
            }]
        }"#))
        .unwrap_err();
    assert_eq!(
        error.path,
        vec![
            ContextPathSegment::field("repositories"),
            ContextPathSegment::index(0),
            ContextPathSegment::field("url")
        ]
    );
    assert_eq!(
        error.kind,
        SchemaValidationErrorKind::TypeMismatch {
            expected: ContextTypeName::String,
            actual: ContextTypeName::Boolean
        }
    );

    let error = schema
        .validate_value(&json(r#"{
            "login": "octocat",
            "repositories": [],
            "unknown": true
        }"#))
        .unwrap_err();
    assert_eq!(
        error.kind,
        SchemaValidationErrorKind::UnexpectedField {
            field: "unknown".into()
        }
    );
}

#[test]
fn explicit_input_targets_use_leaf_nullability_and_preserve_optionality() {
    let nested = ObjectSchema::new("nested-input")
        .with_field("value", FieldSchema::required(ContextType::plain_string()));
    let schema = ObjectSchema::new("inputs").with_field(
        "options",
        FieldSchema::optional(ContextType::object(nested)).nullable(),
    );
    let path = [
        ContextPathSegment::field("options"),
        ContextPathSegment::field("value"),
    ];

    let readable = schema.resolve_owned(&path).unwrap();
    assert!(!readable.required);
    assert!(readable.nullable);

    let writable = schema.resolve_input_target_owned(&path).unwrap();
    assert!(!writable.required);
    assert!(!writable.nullable);
    assert_eq!(writable.value_type, ContextType::plain_string());
}

#[test]
fn context_store_resolves_stable_refs_with_provenance_and_sensitivity() {
    let scope = ContextScope::Step {
        step_id: "list".into(),
    };
    let value = json(r#"{
        "login": "octocat",
        "repositories": [{
            "name": "hello-world",
            "url": "https://github.com/octocat/hello-world.git",
            "default_branch": "main",
            "token": "secret-reference"
        }]
    }"#);
    let context =
        ContextValue::new(value, ContextProvenance::step("list")).with_schema(github_schema());
    let mut store = ContextStore::default();
    assert!(store.insert(scope, context).is_none());

    let reference = FieldRef::step("list")
        .field("repositories")
        .index(0)
        .field("token");
    let resolved = store.resolve(&reference).unwrap();
    assert_eq!(resolved.value, &string("secret-reference"));
    assert_eq!(resolved.sensitivity, Sensitivity::Secret);
    assert_eq!(
        resolved.provenance.origin,
        ContextOrigin::Step {
            step_id: "list".into()
        }
    );
    assert_eq!(
        store.resolve_schema(&reference).unwrap().value_type,
        &ContextType::string(SemanticFormat::SecretRef)
    );
    let root = store.resolve_type_owned(&FieldRef::step("list")).unwrap();
    assert!(matches!(root.value_type, ContextType::Object { .. }));
    assert!(root.required);
}

#[test]
fn redaction_covers_nested_secret_fields_without_mutating_context() {
    let original = json(r#"{
        "login": "octocat",
        "repositories": [{
            "name": "hello-world",
            "url": "https://github.com/octocat/hello-world.git",
            "default_branch": "main",
            "token": "secret-reference"
        }]
    }"#);
    let context = ContextValue::new(original.clone(), ContextProvenance::step("list"))
        .with_schema(github_schema());
    let redacted = context.redacted_value();
    assert_eq!(redacted.member("login"), Some(&string("octocat")));
    assert_eq!(
        redacted
            .member("repositories")
            .unwrap()
            .item(0)
            .unwrap()
            .member("token"),
        Some(&string("[REDACTED]"))
    );
    assert_eq!(context.value, original);

    let confidential = context.clone().sensitive(Sensitivity::Confidential);
    assert_eq!(confidential.redacted_value(), context.redacted_value());
    assert_eq!(
        confidential.redacted_value_at(Sensitivity::Confidential),
        string("[REDACTED]")
    );
}

#[test]
fn lookup_rejects_missing_segments_and_future_versions() {
    let mut store = ContextStore::default();
    store.insert(
        ContextScope::Scenario,
        ContextValue::new(
            json(r#"{ "name": "scenario" }"#),
            ContextProvenance {
                origin: ContextOrigin::ScenarioInput,
                inputs: Vec::new(),
                operation: None,
            },
        ),
    );
    let missing = FieldRef::scenario().field("unknown");
    assert!(matches!(
        store.resolve(&missing),
        Err(ContextLookupError::MissingSegment { at: 0, .. })
    ));

    store.version = CONTEXT_SCHEMA_VERSION + 1;
    assert!(matches!(
        store.resolve(&FieldRef::scenario()),
        Err(ContextLookupError::InvalidVersion { .. })
    ));
}

#[test]
fn scalar_and_array_scope_roots_keep_their_declared_types() {
    let mut store = ContextStore::default();
    store.insert(
        ContextScope::LoopItem {
            step_id: "numbers".into(),
        },
        ContextValue::new(json(r#"7"#), ContextProvenance::step("numbers"))
            .with_type(ContextType::Integer),
    );
    let reference = FieldRef::loop_item("numbers");
    assert_eq!(store.resolve(&reference).unwrap().value, &json(r#"7"#));
    assert_eq!(
        store.resolve_type_owned(&reference).unwrap().value_type,
        ContextType::Integer
    );

    let item_schema = ObjectSchema::new("secret-items").with_field(
        "token",
        FieldSchema::required(ContextType::plain_string()).sensitive(Sensitivity::Secret),
    );
    store.insert(
        ContextScope::LoopItem {
            step_id: "secrets".into(),
        },
        ContextValue::new(
            json(r#"[{ "token": "nested-secret" }]"#),
            ContextProvenance::step("secrets"),
        )
        .with_type(ContextType::array(ContextType::object(item_schema))),
    );
    let array_root = FieldRef::loop_item("secrets");
    assert_eq!(
        store.resolve(&array_root).unwrap().sensitivity,
        Sensitivity::Secret
    );
    assert_eq!(
        store.resolve(&array_root.index(0)).unwrap().sensitivity,
        Sensitivity::Secret
    );
}

#[test]
fn ambiguous_schema_and_root_type_fail_closed_and_redact_both() {
    let schema = ObjectSchema::new("schema-declaration").with_field(
        "schema_secret",
        FieldSchema::required(ContextType::plain_string()).sensitive(Sensitivity::Secret),
    );
    let root_type = ContextType::object(ObjectSchema::new("type-declaration").with_field(
        "type_secret",
        FieldSchema::required(ContextType::plain_string()).sensitive(Sensitivity::Secret),
    ));
    let value = json(
        r#"{
            "schema_secret": "secret-from-schema",
            "type_secret": "secret-from-type"
        }"#,
    );
    let provenance = ContextProvenance {
        origin: ContextOrigin::ScenarioInput,
        inputs: Vec::new(),
        operation: None,
    };
    let error = ContextValue::from_wire(
        CONTEXT_SCHEMA_VERSION,
        value.clone(),
        Some(schema.clone()),
        Some(root_type.clone()),
        provenance.clone(),
        Sensitivity::Public,
    )
    .unwrap_err();
    assert!(error.contains("either schema or root_type, not both"));

    // Public fields allow programmatic construction, so lookup must still
    // reject the invalid state while redaction honors both declarations.
    let invalid = ContextValue {
        version: CONTEXT_SCHEMA_VERSION,
        value,
        schema: Some(schema),
        root_type: Some(root_type),
        provenance,
        sensitivity: Sensitivity::Public,
    };
    let redacted = invalid.redacted_value();
    assert_eq!(redacted.member("schema_secret"), Some(&string("[REDACTED]")));
    assert_eq!(redacted.member("type_secret"), Some(&string("[REDACTED]")));

    let mut store = ContextStore::default();
    store.insert(ContextScope::Scenario, invalid);
    assert!(matches!(
        store.resolve(&FieldRef::scenario()),
        Err(ContextLookupError::AmbiguousTypeDeclaration { .. })
    ));
    assert!(store
        .resolve_schema(&FieldRef::scenario().field("type_secret"))
        .is_none());
    assert!(store.resolve_type_owned(&FieldRef::scenario()).is_none());
}

#[test]
fn lookup_errors_say_what_is_missing() {
    let store = ContextStore::default();
    let error = store
        .resolve(&FieldRef::step("absent").field("x"))
        .unwrap_err();
    assert_eq!(
        error,
        ContextLookupError::MissingScope(ContextScope::Step {
            step_id: "absent".to_string()
        })
    );
    assert!(error.message().contains("Step { step_id: \"absent\" }"));
}

#[test]
fn validation_reports_versions_nulls_and_roots() {
    let mut schema = ObjectSchema::new("root").with_field(
        "name",
        FieldSchema::required(ContextType::plain_string()),
    );
    let error = schema.validate_value(&json("[]")).unwrap_err();
    assert_eq!(error.kind, SchemaValidationErrorKind::ExpectedObject);
    let error = schema
        .validate_value(&json(r#"{"name": null}"#))
        .unwrap_err();
    assert_eq!(error.kind, SchemaValidationErrorKind::NullNotAllowed);
    assert_eq!(error.path, vec![ContextPathSegment::field("name")]);
    schema.version = CONTEXT_SCHEMA_VERSION + 1;
    let error = schema.validate_value(&json("{}")).unwrap_err();
    assert_eq!(
        error.kind,
        SchemaValidationErrorKind::UnsupportedVersion {
            found: CONTEXT_SCHEMA_VERSION + 1,
            supported: CONTEXT_SCHEMA_VERSION
        }
    );
}

#[test]
fn a_stored_value_replaces_the_one_before_it() {
    let mut store = ContextStore::default();
    let first = ContextValue::new(json("1"), ContextProvenance::step("one"));
    let second = ContextValue::new(json("2"), ContextProvenance::step("two"));
    assert!(store.insert(ContextScope::Scenario, first.clone()).is_none());
    assert_eq!(
        store.insert(ContextScope::Scenario, second.clone()),
        Some(first)
    );
    assert_eq!(store.get(&ContextScope::Scenario), Some(&second));
    assert_eq!(store.entries().len(), 1);
}

#[test]
fn sensitivities_combine_to_the_stricter_one() {
    assert_eq!(
        Sensitivity::Internal.combine(Sensitivity::Secret),
        Sensitivity::Secret
    );
    assert_eq!(
        Sensitivity::Confidential.combine(Sensitivity::Public),
        Sensitivity::Confidential
    );
}
