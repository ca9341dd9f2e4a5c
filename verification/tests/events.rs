use ppduster::audit::{event_lines, resolve_log_path, AuditEntry};
use ppduster::automation::{
    AutomationPack, AutomationStep, BrewInstallStep, StepOutcome, TaskResult,
};
use ppduster::load_error::Platform;

#[test]
fn an_event_is_written_on_one_line_and_read_back() {
    let entry = AuditEntry::new(
        "2024-01-02T03:04:05+00:00",
        "run \"x\"",
        "ok\n",
        &Some("tab\there\u{1}".into()),
    );
    let line = entry.line();
    assert_eq!(
        line,
        r#"{"timestamp":"2024-01-02T03:04:05+00:00","action":"run \"x\"","outcome":"ok\n","detail":"tab\there\u0001"}"#
    );
    let first = AuditEntry::new("t", "a", "b", &None).line();
    assert_eq!(
        first,
        r#"{"timestamp":"t","action":"a","outcome":"b","detail":null}"#
    );
    let log = format!("{first}\n{line}\n");
    assert_eq!(event_lines(&log), vec![first, line]);
}

#[test]
fn blank_lines_and_carriage_returns_are_not_events() {
    assert_eq!(event_lines("a\r\n  \n\r\nb\r"), vec!["a", "b\r"]);
    assert!(event_lines("").is_empty());
}

#[test]
fn the_log_path_is_the_first_that_is_given() {
    let some = |text: &str| Some(text.to_string());
    assert_eq!(
        resolve_log_path(some("a"), some("b"), some("c")),
        some("a")
    );
    assert_eq!(resolve_log_path(None, some("b"), some("c")), some("b"));
    assert_eq!(resolve_log_path(None, None, some("c")), some("c"));
    assert_eq!(resolve_log_path::<String>(None, None, None), None);
}

fn pack(name: &str, description: &str, platform: Platform) -> AutomationPack {
    AutomationPack {
        pack: name.into(),
        description: description.into(),
        platform,
        steps: vec![AutomationStep::BrewInstall(BrewInstallStep {
            package: "git".into(),
            tap: None,
        })],
        source: None,
    }
}

#[test]
fn the_last_pack_of_a_name_stays() {
    let packs = AutomationPack::load_many(vec![
        pack("tools", "first", Platform::Any),
        pack("apps", "only", Platform::Any),
        pack("tools", "second", Platform::Any),
    ]);
    let shown: Vec<(&str, &str)> = packs
        .iter()
        .map(|pack| (pack.pack.as_str(), pack.description.as_str()))
        .collect();
    assert_eq!(shown, [("apps", "only"), ("tools", "second")]);
}

#[test]
fn steps_apply_to_their_platform_only() {
    let mac = pack("tools", "mac", Platform::Macos);
    assert!(mac.applicable_steps(Platform::Linux).is_empty());
    let steps = mac.applicable_steps(Platform::Macos);
    assert_eq!(steps.len(), 1);
    assert_eq!(steps[0].kind_label(), "brew-install");
    assert_eq!(
        pack("tools", "any", Platform::Any)
            .applicable_steps(Platform::Linux)
            .len(),
        1
    );
}

#[test]
fn outcomes_are_counted() {
    let mut result = TaskResult::new("tools");
    result.push("download".into(), StepOutcome::Success);
    result.push("extract".into(), StepOutcome::Failure("no space".into()));
    result.push("symlink".into(), StepOutcome::Skipped);
    result.push("download".into(), StepOutcome::Success);
    assert_eq!(result.success_count(), 2);
    assert_eq!(result.failure_count(), 1);
    assert_eq!(result.outcomes.len(), 4);
}
