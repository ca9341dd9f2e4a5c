use ppduster::block::{
    block_definition, block_definitions, default_action, default_step, definition_for_action,
};
use ppduster::context::ContextPathSegment;
use ppduster::json::{Float, Number, Value};
use ppduster::kind::{
    block_catalog, block_policy_capabilities, ActionKind, BlockCatalog, PolicyRequirement,
};
use ppduster::schema::{
    ContextType, ContextTypeName, FieldSchema, ObjectSchema, SemanticFormat, Sensitivity,
};
use ppduster::task::{Action, AuthPolicy, ElevationPolicy, GithubRepositoryInput};
use ppduster::text_map::TextMap;
use ppduster::validate::SchemaValidationErrorKind;

fn converted(value: serde_json::Value) -> Value {
    match value {
        serde_json::Value::Null => Value::Null,
        serde_json::Value::Bool(value) => Value::Bool(value),
        serde_json::Value::Number(number) => Value::Number(match number.as_u64() {
            Some(value) => Number::PosInt(value),
            None => match number.as_i64() {
                Some(value) => Number::NegInt(value),
                None => Number::Float(Float {
                    bits: number.as_f64().expect("a finite number").to_bits(),
                    text: number.to_string(),
                }),
            },
        }),
        serde_json::Value::String(value) => Value::String(value),
        serde_json::Value::Array(items) => {
            Value::Array(items.into_iter().map(converted).collect())
        }
        serde_json::Value::Object(members) => {
            let mut map = TextMap::new();
            for (name, value) in members {
                map.insert(name, converted(value));
            }
            Value::Object(map)
        }
    }
}

fn json(text: &str) -> Value {
    converted(serde_json::from_str(text).expect("valid JSON"))
}

const AUTH_POLICIES: [AuthPolicy; 3] = [
    AuthPolicy::NoAuth,
    AuthPolicy::GitCredential,
    AuthPolicy::Sudo,
];
const ELEVATION_POLICIES: [ElevationPolicy; 2] =
    [ElevationPolicy::Forbidden, ElevationPolicy::Allow];
const DANGEROUS_POLICIES: [bool; 2] = [false, true];

fn executable_action_kinds() -> impl Iterator<Item = ActionKind> {
    ActionKind::all()
        .into_iter()
        .filter(|kind| kind.is_graph_action())
}

#[test]
fn specialized_catalog_covers_vendor_and_composite_blocks_only() {
    assert_eq!(
        block_catalog(ActionKind::BambuStudioRelease),
        BlockCatalog::Specialized
    );
    assert_eq!(
        block_catalog(ActionKind::ActivateLicense),
        BlockCatalog::Specialized
    );
    assert_eq!(
        block_catalog(ActionKind::ConfigurePackageRegistryFiles),
        BlockCatalog::Specialized
    );
    assert_eq!(block_catalog(ActionKind::GitClone), BlockCatalog::Specialized);
    assert_eq!(
        block_catalog(ActionKind::ForEachGitCloneIfMissing),
        BlockCatalog::Specialized
    );
    assert_eq!(block_catalog(ActionKind::CreateDirectory), BlockCatalog::Core);
    assert_eq!(block_catalog(ActionKind::BrewInstall), BlockCatalog::Core);
    assert_eq!(
        block_definition(ActionKind::BambuStudioRelease).catalog,
        BlockCatalog::Specialized
    );
    assert_eq!(
        block_definition(ActionKind::InspectPath).catalog,
        BlockCatalog::Core
    );
    let specialized = [
        ActionKind::BambuStudioRelease,
        ActionKind::ActivateLicense,
        ActionKind::ConfigurePackageRegistryFiles,
        ActionKind::GitClone,
        ActionKind::ForEachGitCloneIfMissing,
    ];
    for kind in ActionKind::all() {
        let expected = if specialized.contains(&kind) {
            BlockCatalog::Specialized
        } else {
            BlockCatalog::Core
        };
        assert_eq!(block_catalog(kind), expected, "{}", kind.id());
        assert_eq!(block_definition(kind).catalog, expected, "{}", kind.id());
    }
}

#[test]
fn registry_covers_every_action_kind_with_versioned_schemas() {
    let definitions = block_definitions();
    assert_eq!(definitions.len(), ActionKind::all().len());
    for (kind, definition) in ActionKind::all().into_iter().zip(definitions) {
        assert_eq!(definition.kind, kind);
        let expected_schema_version = match kind {
            ActionKind::GithubPreviewRepositories => 2,
            _ => 1,
        };
        assert_eq!(
            definition.schema_version,
            expected_schema_version,
            "registry schema version changed for {} without updating its explicit contract",
            kind.id()
        );
        assert!(definition.input_schema.id.is_some());
        assert!(definition.output_schema.id.is_some());
        assert_eq!(
            definition.search_terms.first().map(String::as_str),
            Some(kind.id()),
            "{} must publish its stable action ID as the first search term",
            kind.id()
        );
        assert!(
            definition.search_terms[1..].iter().any(|term| term
                .chars()
                .any(|character| character.is_ascii_alphabetic())),
            "{} must publish an English search alias",
            kind.id()
        );
        assert!(
            definition.search_terms[1..].iter().any(|term| term
                .chars()
                .any(|character| matches!(character, '\u{0400}'..='\u{04ff}'))),
            "{} must publish a Russian search alias",
            kind.id()
        );
        assert!(
            definition.search_terms.iter().all(|term| !term.is_empty()
                && term.trim() == term
                && term.to_lowercase() == *term),
            "{} search terms must be non-empty, trimmed, and lowercase",
            kind.id()
        );
        let unique = definition
            .search_terms
            .iter()
            .map(String::as_str)
            .collect::<std::collections::BTreeSet<_>>();
        assert_eq!(
            unique.len(),
            definition.search_terms.len(),
            "{} search terms must not contain duplicates",
            kind.id()
        );
    }
}

#[test]
fn graph_editor_prototypes_cover_every_executable_action_kind() {
    for kind in ActionKind::all() {
        match kind {
            ActionKind::ForEach | ActionKind::ForEachGitCloneIfMissing => {
                assert!(default_action(kind).is_err());
            }
            _ => {
                let action = default_action(kind).expect("executable action prototype");
                assert_eq!(action.kind(), kind);
                assert_eq!(
                    action.to_value().member("type"),
                    Some(&Value::String(kind.id().to_string()))
                );

                let step = default_step(kind, &format!("{}-1", kind.id())).unwrap();
                assert!(
                    block_definition(kind).policy.accepts(&step),
                    "default policy for {} must match the registry contract",
                    kind.id()
                );
                step.validate().unwrap_or_else(|error| {
                    panic!("default step for {} must validate: {error}", kind.id())
                });
            }
        }
    }
}

#[test]
fn every_executable_action_has_a_valid_default_policy() {
    for kind in executable_action_kinds() {
        let step = default_step(kind, &format!("{}-default", kind.id()))
            .expect("every executable action must have a default step");
        let capabilities = block_policy_capabilities(kind);

        assert!(
            capabilities.accepts(&step),
            "default policy for {} is outside its advertised capabilities: {:?}",
            kind.id(),
            step
        );
        step.validate().unwrap_or_else(|error| {
            panic!("default policy for {} must validate: {error}", kind.id())
        });
    }
}

#[test]
fn policy_capability_matrix_matches_step_validation_for_every_executable_action() {
    let mut combinations = 0;

    for kind in executable_action_kinds() {
        let capabilities = block_policy_capabilities(kind);
        for auth in AUTH_POLICIES {
            for allow_elevation in ELEVATION_POLICIES {
                for dangerous in DANGEROUS_POLICIES {
                    combinations += 1;
                    let mut step = default_step(kind, &format!("{}-matrix", kind.id()))
                        .expect("executable action prototype");
                    step.auth = auth;
                    step.allow_elevation = allow_elevation;
                    step.dangerous = dangerous;

                    let advertised = capabilities.accepts(&step);
                    let validation = step.validate();
                    assert_eq!(
                        validation.is_ok(),
                        advertised,
                        "policy contract mismatch for {} with auth={auth:?}, elevation={allow_elevation:?}, dangerous={dangerous}: capabilities={}, validation={:?}",
                        kind.id(),
                        advertised,
                        validation
                    );
                }
            }
        }
    }

    assert_eq!(
        combinations,
        executable_action_kinds().count()
            * AUTH_POLICIES.len()
            * ELEVATION_POLICIES.len()
            * DANGEROUS_POLICIES.len(),
        "the generated policy matrix must cover every combination"
    );
}

#[test]
fn definitions_publish_the_canonical_policy_for_every_action_kind() {
    for kind in ActionKind::all() {
        let capabilities = block_policy_capabilities(kind);
        assert_eq!(
            block_definition(kind).policy,
            capabilities,
            "block definition for {} must publish the canonical policy contract",
            kind.id()
        );
    }
}

#[test]
fn github_repository_discovery_exposes_only_its_valid_safe_policy() {
    let definition = block_definition(ActionKind::GithubListRepositories);
    let repository_id = definition
        .output_schema
        .resolve(&[
            ContextPathSegment::field("github"),
            ContextPathSegment::field("repositories"),
            ContextPathSegment::index(0),
            ContextPathSegment::field("id"),
        ])
        .unwrap();
    assert_eq!(
        repository_id.value_type,
        &ContextType::string(SemanticFormat::OpaqueId)
    );
    let mut step = default_step(ActionKind::GithubListRepositories, "repositories").unwrap();
    assert!(definition.policy.accepts(&step));
    assert!(!definition.policy.allow_git_credentials);
    assert!(!definition.policy.allow_sudo);
    assert!(!definition.policy.allow_elevation);
    assert_eq!(definition.policy.dangerous, PolicyRequirement::Forbidden);

    step.auth = AuthPolicy::GitCredential;
    assert!(!definition.policy.accepts(&step));
    assert!(step.validate().is_err());
    step.auth = AuthPolicy::NoAuth;
    step.allow_elevation = ElevationPolicy::Allow;
    assert!(!definition.policy.accepts(&step));
    assert!(step.validate().is_err());
    step.allow_elevation = ElevationPolicy::Forbidden;
    step.dangerous = true;
    assert!(!definition.policy.accepts(&step));
    assert!(step.validate().is_err());
}

#[test]
fn github_repository_selection_keeps_authored_policy_out_of_binding_schema() {
    let definition = block_definition(ActionKind::GithubSelectRepositories);
    assert_eq!(
        definition
            .input_schema
            .fields
            .entries
            .iter()
            .map(|(name, _)| name.as_str())
            .collect::<Vec<_>>(),
        ["github"]
    );
    assert!(definition
        .input_schema
        .field("expected_account_login")
        .is_none());
    assert!(definition.input_schema.field("repository_ids").is_none());
    assert_eq!(
        definition.output_schema.id,
        block_definition(ActionKind::GithubListRepositories)
            .output_schema
            .id
    );

    let mut action = default_action(ActionKind::GithubSelectRepositories).unwrap();
    let Action::GithubSelectRepositories {
        github,
        expected_account_login,
        repository_ids,
    } = &mut action
    else {
        unreachable!()
    };
    assert_eq!(github.account.login, *expected_account_login);
    assert!(github.repositories.is_empty());
    assert!(repository_ids.is_empty());

    github
        .repositories
        .push(GithubRepositoryInput {
            id: "R_private".into(),
            owner: "private-owner".into(),
            name: "private-repository".into(),
            full_name: "private-owner/private-repository".into(),
            https_url: "https://github.com/private-owner/private-repository".into(),
            ssh_url: "git@github.com:private-owner/private-repository.git".into(),
            default_branch: Some("main".into()),
            private: true,
            archived: false,
        });
    let encoded = action.to_value();
    assert!(encoded
        .member("github")
        .unwrap()
        .member("repositories")
        .is_none());
}

#[test]
fn github_preview_publishes_the_persisted_public_selection() {
    let preview = block_definition(ActionKind::GithubPreviewRepositories);
    assert!(preview.read_only);
    assert!(preview.input_schema.fields.is_empty());
    assert!(preview.output_schema.field("repositories").is_some());
    assert_eq!(
        preview.output_schema.id.as_deref(),
        Some("ppduster.github.selected-repositories@1")
    );
}

#[test]
fn array_selection_definition_preserves_the_declared_item_type() {
    let item_type = ContextType::object(
        ObjectSchema::new("example.item@1")
            .with_field("name", FieldSchema::required(ContextType::plain_string())),
    );
    let action = Action::SelectArrayItems {
        source: None,
        item_type: item_type.clone(),
        selected_items: vec![json(r#"{ "name": "alpha" }"#)],
    };
    let definition = definition_for_action(&action);
    assert!(definition.read_only);
    assert!(definition.input_schema.fields.is_empty());
    assert_eq!(
        definition.output_schema.id.as_deref(),
        Some("ppduster.array.selection@1")
    );
    assert_eq!(
        definition.output_schema.field("items").unwrap().value_type,
        ContextType::array(item_type)
    );
}

#[test]
fn array_selection_default_step_is_a_valid_empty_string_snapshot() {
    let step = default_step(ActionKind::SelectArrayItems, "select-items").unwrap();
    let Action::SelectArrayItems {
        source,
        item_type,
        selected_items,
    } = &step.action
    else {
        unreachable!()
    };
    assert!(source.is_none());
    assert_eq!(item_type, &ContextType::plain_string());
    assert!(selected_items.is_empty());
    step.validate().unwrap();
}

#[test]
fn clone_url_input_accepts_both_github_url_fields() {
    let list = block_definition(ActionKind::GithubListRepositories);
    let repositories = list
        .output_schema
        .resolve(&[
            ContextPathSegment::field("github"),
            ContextPathSegment::field("repositories"),
            ContextPathSegment::index(0),
            ContextPathSegment::field("https_url"),
        ])
        .unwrap();
    let clone = block_definition(ActionKind::GitCloneIfMissing);
    let expected = clone.input_schema.field("repo").unwrap();
    assert!(expected
        .value_type
        .is_assignable_from(repositories.value_type));
}

#[test]
fn fetch_and_fast_forward_require_a_non_nullable_branch() {
    for kind in [ActionKind::GitFetch, ActionKind::GitFastForward] {
        let branch = block_definition(kind)
            .input_schema
            .field("branch")
            .cloned()
            .expect("git update block has a branch input");
        assert!(branch.required);
        assert!(!branch.nullable);
        assert_eq!(
                branch.value_type,
                ContextType::string(SemanticFormat::GitRef)
            );
    }

    for kind in [ActionKind::GitClone, ActionKind::GitCloneIfMissing] {
        let branch = block_definition(kind)
            .input_schema
            .field("branch")
            .cloned()
            .expect("clone block has a branch input");
        assert!(!branch.required);
        assert!(branch.nullable);
    }
}

#[test]
fn registry_never_exposes_secret_contents() {
    for definition in block_definitions() {
        for (_, field) in definition.output_schema.fields.entries.iter() {
            assert_ne!(
                field.sensitivity,
                Sensitivity::Secret
            );
        }
    }
}

#[test]
fn command_and_script_environments_are_string_maps() {
    for kind in [ActionKind::RunCommand, ActionKind::RunScript] {
        let definition = block_definition(kind);
        let ContextType::Object { schema } = &definition
            .input_schema
            .field("env")
            .expect("process input has env")
            .value_type
        else {
            panic!("process env must be an object")
        };

        schema
            .validate_value(&json(r#"{
                "PATH": "/usr/local/bin:/usr/bin",
                "LANG": "ru_RU.UTF-8"
            }"#))
            .unwrap();
        let resolved = schema
            .resolve(&[ContextPathSegment::field(
                "DYNAMIC_ENV_KEY",
            )])
            .unwrap();
        assert_eq!(resolved.value_type, &ContextType::plain_string());

        for invalid in [json(r#"{ "DEBUG": true }"#), json(r#"{ "CONFIG": {} }"#)] {
            let error = schema.validate_value(&invalid).unwrap_err();
            assert!(matches!(
                error.kind,
                SchemaValidationErrorKind::TypeMismatch {
                    expected: ContextTypeName::String,
                    ..
                }
            ));
        }
    }
}

#[test]
fn control_actions_have_no_default_step() {
    assert_eq!(
        default_action(ActionKind::ForEach),
        Err("legacy foreach actions are not graph-v3 action blocks")
    );
    assert!(default_step(ActionKind::ForEachGitCloneIfMissing, "x").is_err());
}
