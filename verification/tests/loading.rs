use ppduster::context::{Binding, ContextScope, FieldRef};
use ppduster::graph::{GraphNode, WORKFLOW_GRAPH_VERSION};
use ppduster::legacy::LegacyTaskImporter;
use ppduster::load_error::{LoadError, PackTrust, Platform};
use ppduster::loader::{is_yaml_file, Task, TaskDocument, TaskPack, TrustRequirement};
use ppduster::task::{Action, AuthPolicy, ElevationPolicy, Step};
use ppduster::text_map::TextMap;
use ppduster::yaml::{
    check_document, find_license_key_field, parse_yaml, reject_license_key_fields, Yaml,
};

fn step(id: &str) -> Step {
    Step {
        id: id.into(),
        name: String::new(),
        bindings: TextMap::new(),
        auth: AuthPolicy::NoAuth,
        check: None,
        dangerous: false,
        allow_elevation: ElevationPolicy::Forbidden,
        when: None,
        require: None,
        action: Action::GithubListRepositories,
    }
}

fn task(id: &str) -> Task {
    Task {
        id: id.into(),
        name: id.into(),
        description: format!("Task {id}."),
        platform: Platform::Any,
        trust: TrustRequirement::BundledOnly,
        scenarios: Vec::new(),
        resolved_scenarios: Vec::new(),
        steps: vec![step("run")],
        graph: None,
    }
}

fn pack(tasks: Vec<Task>) -> TaskPack {
    let mut origins = TextMap::new();
    for task in &tasks {
        origins.insert(task.id.clone(), PackTrust::Bundled);
    }
    TaskPack {
        tasks,
        sources: Vec::new(),
        origins,
        unavailable: Vec::new(),
        legacy_steps: TextMap::new(),
    }
}

#[test]
fn resolve_preserves_a_direct_v2_graph() {
    let mut graph_task = task("graph-task");
    graph_task.graph = Some(LegacyTaskImporter::import_steps(&graph_task.steps).unwrap());
    graph_task.steps.clear();

    let resolved = pack(vec![graph_task]).resolve("graph-task").unwrap();
    assert!(resolved.steps.is_empty());
    assert!(resolved.graph.is_some());
    resolved.validate().unwrap();
}

#[test]
fn legacy_scenario_template_does_not_silently_flatten_graph_child() {
    let mut child = task("graph-child");
    child.graph = Some(LegacyTaskImporter::import_steps(&child.steps).unwrap());
    child.steps.clear();

    let mut parent = task("parent");
    parent.steps.clear();
    parent.scenarios = vec!["graph-child".into()];

    let error = pack(vec![parent, child]).resolve("parent").unwrap_err();
    assert!(error
        .message()
        .contains("cannot include graph task graph-child"));
}

#[test]
fn scenario_expansion_prefixes_linear_binding_sources() {
    let mut child = task("child");
    child.steps[0].id = "list".into();
    let mut inspect = step("inspect");
    inspect.action = Action::GitInspect {
        repo: "https://github.com/example/repository.git".into(),
        dest: "/tmp/repository".into(),
    };
    inspect.bindings.insert(
        "repo".into(),
        Binding::field(
            FieldRef::step("list")
                .field("github")
                .field("repositories")
                .index(2)
                .field("https_url"),
        ),
    );
    child.steps.push(inspect);

    let mut parent = task("parent");
    parent.steps.clear();
    parent.scenarios = vec!["child".into()];

    let resolved = pack(vec![parent, child]).resolve("parent").unwrap();
    assert!(resolved.steps.is_empty());
    let graph = resolved.workflow_graph().unwrap();
    assert_eq!(graph.nodes[0].id(), "child/list");
    assert_eq!(graph.nodes[1].id(), "child/inspect");
    let GraphNode::Action(inspect) = &graph.nodes[1] else {
        panic!("expected imported inspect action")
    };
    let Binding::Field { field } = inspect.bindings.get("repo").unwrap() else {
        panic!("expected field binding")
    };
    assert_eq!(
        field.scope,
        ContextScope::Step {
            step_id: "child/list".into()
        }
    );
    assert_eq!(graph.version, WORKFLOW_GRAPH_VERSION);
    resolved.validate().unwrap();
}

fn file(name: &str, trust: PackTrust, task: Task) -> TaskDocument {
    let legacy_steps = task.steps.clone();
    TaskDocument {
        file: name.into(),
        extension: Some("yaml".into()),
        trust,
        text: "task:\n  id: one\n".into(),
        task,
        legacy_steps,
    }
}

#[test]
fn loaded_tasks_keep_their_order_and_sources() {
    let loaded = TaskPack::load_many(
        vec![
            file("one.yaml", PackTrust::Bundled, task("one")),
            file("two.yaml", PackTrust::UserConfig, {
                let mut two = task("two");
                two.trust = TrustRequirement::UserConfigAllowed;
                two
            }),
        ],
        false,
        Platform::Linux,
    )
    .unwrap();
    assert_eq!(
        loaded
            .tasks
            .iter()
            .map(|task| task.id.as_str())
            .collect::<Vec<_>>(),
        ["one", "two"]
    );
    assert_eq!(loaded.sources[1].path, "two.yaml");
    assert_eq!(loaded.origins.get("two"), Some(&PackTrust::UserConfig));
    assert!(loaded.get("one").is_some());
    assert!(loaded.get("three").is_none());
}

#[test]
fn a_later_file_replaces_a_task_only_with_overrides() {
    let files = || {
        let mut second = task("one");
        second.name = "second".into();
        vec![
            file("a.yaml", PackTrust::Bundled, task("one")),
            file("b.yaml", PackTrust::Bundled, second),
        ]
    };
    assert_eq!(
        TaskPack::load_many(files(), false, Platform::Linux),
        Err(LoadError::DuplicateTask {
            task: "one".into(),
            file: "b.yaml".into()
        })
    );
    let pack = TaskPack::load_many_with_overrides(files(), false, Platform::Linux).unwrap();
    assert_eq!(pack.tasks.len(), 1);
    assert_eq!(pack.get("one").unwrap().name, "second");
}

#[test]
fn trust_and_format_of_files_are_checked() {
    let load = |document: TaskDocument, allow_external: bool| {
        TaskPack::load_many(vec![document], allow_external, Platform::Linux)
    };
    let mut json = file("one.json", PackTrust::Bundled, task("one"));
    json.extension = Some("json".into());
    assert_eq!(
        load(json, false),
        Err(LoadError::NotYaml {
            file: "one.json".into()
        })
    );
    assert_eq!(
        load(file("one.yaml", PackTrust::UserConfig, task("one")), false),
        Err(LoadError::NeedsBundled {
            task: "one".into(),
            file: "one.yaml".into()
        })
    );
    let mut keyed = file("one.yaml", PackTrust::Bundled, task("one"));
    keyed.text = "- License_Key: secret\n".into();
    assert_eq!(
        load(keyed, false),
        Err(LoadError::LicenseKey {
            file: "one.yaml".into(),
            field: "License_Key".into()
        })
    );
    assert!(is_yaml_file(&Some("yml".into())));
    assert!(!is_yaml_file(&None));
}

#[test]
fn other_platforms_are_set_aside() {
    let mut mac = task("mac");
    mac.platform = Platform::Macos;
    let pack = TaskPack::load_many(
        vec![file("mac.yaml", PackTrust::Bundled, mac)],
        false,
        Platform::Linux,
    )
    .unwrap();
    assert!(pack.tasks.is_empty());
    assert_eq!(pack.unavailable, vec![("mac".to_string(), Platform::Macos)]);
}

#[test]
fn scenario_cycles_and_unknown_children_are_refused() {
    let mut a = task("a");
    a.steps.clear();
    a.scenarios = vec!["b".into()];
    let mut b = task("b");
    b.steps.clear();
    b.scenarios = vec!["a".into()];
    assert!(matches!(
        pack(vec![a.clone(), b]).resolve("a"),
        Err(LoadError::Cycle { ref chain }) if chain == "a -> b -> a"
    ));
    assert!(matches!(
        pack(vec![a]).resolve("a"),
        Err(LoadError::UnknownScenario { ref scenario, .. }) if scenario == "b"
    ));
    assert!(matches!(
        pack(Vec::new()).resolve("a"),
        Err(LoadError::UnknownTask { .. })
    ));
}

#[test]
fn a_bundled_task_cannot_include_a_less_trusted_one() {
    let mut parent = task("parent");
    parent.steps.clear();
    parent.scenarios = vec!["child".into()];
    let mut pack = pack(vec![parent, task("child")]);
    pack.origins
        .insert("child".into(), PackTrust::External);
    assert!(matches!(
        pack.resolve("parent"),
        Err(LoadError::LessTrusted { .. })
    ));
}

#[test]
fn a_text_is_parsed_into_the_tree_of_its_keys() {
    assert_eq!(
        parse_yaml("a: [1, {b: x}]\n2: !tag {c: null}\n"),
        Ok(Yaml::Mapping(vec![
            (
                Some("a".into()),
                Yaml::Sequence(vec![
                    Yaml::Scalar,
                    Yaml::Mapping(vec![(Some("b".into()), Yaml::Scalar)]),
                ])
            ),
            (
                None,
                Yaml::Tagged(Box::new(Yaml::Mapping(vec![(
                    Some("c".into()),
                    Yaml::Scalar
                )])))
            ),
        ]))
    );
    assert_eq!(parse_yaml("plain"), Ok(Yaml::Scalar));
    assert!(parse_yaml("a: [").is_err());
}

#[test]
fn license_keys_are_found_in_raw_text() {
    let refused = |text: &str| reject_license_key_fields(text, "one.yaml");
    for (text, field) in [
        ("licenseKey: x\n", "licenseKey"),
        ("task:\n  steps:\n  - LICENSE-KEY: x\n", "LICENSE-KEY"),
        ("a: !secret\n  license key: x\n", "license key"),
    ] {
        assert_eq!(
            refused(text),
            Err(LoadError::LicenseKey {
                file: "one.yaml".into(),
                field: field.into()
            })
        );
    }
    assert_eq!(refused("value: license_key\nlicense: x\n"), Ok(()));
    let error = refused("a: [").unwrap_err();
    assert!(matches!(
        error,
        LoadError::Unparsable { ref file, ref message }
            if file == "one.yaml" && !message.is_empty()
    ));
    assert!(error.message().starts_with("parse task file one.yaml: "));
}

#[test]
fn a_document_is_judged_by_its_tree() {
    let keyed = Yaml::Sequence(vec![Yaml::Mapping(vec![(
        Some("License_Key".into()),
        Yaml::Scalar,
    )])]);
    assert_eq!(
        find_license_key_field(&keyed),
        Some("License_Key".to_string())
    );
    assert_eq!(check_document(&Ok(Yaml::Scalar), "one.yaml"), Ok(()));
    assert_eq!(
        check_document(&Err("bad".into()), "one.yaml"),
        Err(LoadError::Unparsable {
            file: "one.yaml".into(),
            message: "bad".into()
        })
    );
    let pack = TaskPack::new().add_parsed(
        file("one.yaml", PackTrust::Bundled, task("one")),
        &Ok(keyed),
        false,
        false,
        Platform::Linux,
    );
    assert_eq!(
        pack,
        Err(LoadError::LicenseKey {
            file: "one.yaml".into(),
            field: "License_Key".into()
        })
    );
}
