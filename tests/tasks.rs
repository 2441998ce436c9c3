use task::{
    Definition, EnvVariables, OneshotSource, Registry, RevealStrategy, SourceParseError,
    StaticSource, Task, TaskContext, TaskSource, TaskTemplate, TaskVariables, VariableName,
};

fn s(text: &str) -> String {
    text.to_string()
}

fn context(cwd: Option<&str>, vars: Vec<(VariableName, String)>) -> TaskContext {
    TaskContext {
        cwd: cwd.map(|c| c.to_string()),
        task_variables: TaskVariables::from_pairs(vars),
    }
}

#[test]
fn environment_keys_of_variables() {
    assert_eq!(VariableName::File.to_environment_key(), "ZED_FILE");
    assert_eq!(VariableName::WorktreeRoot.to_environment_key(), "ZED_WORKTREE_ROOT");
    assert_eq!(VariableName::Symbol.to_environment_key(), "ZED_SYMBOL");
    assert_eq!(VariableName::Row.to_environment_key(), "ZED_ROW");
    assert_eq!(VariableName::Column.to_environment_key(), "ZED_COLUMN");
    assert_eq!(VariableName::SelectedText.to_environment_key(), "ZED_SELECTED_TEXT");
    assert_eq!(VariableName::Custom(s("MY_VAR")).to_environment_key(), "ZED_MY_VAR");
}

#[test]
fn environment_keys_are_distinct_and_stable() {
    let all = vec![
        VariableName::File,
        VariableName::WorktreeRoot,
        VariableName::Symbol,
        VariableName::Row,
        VariableName::Column,
        VariableName::SelectedText,
    ];
    for (i, a) in all.iter().enumerate() {
        assert_eq!(a.to_environment_key(), a.to_environment_key());
        for (j, b) in all.iter().enumerate() {
            assert_eq!(i == j, a.to_environment_key() == b.to_environment_key());
        }
    }
}

#[test]
fn template_values() {
    assert_eq!(VariableName::File.template_value(), "$ZED_FILE");
    assert_eq!(VariableName::Row.template_value(), "$ZED_ROW");
    assert_eq!(VariableName::Custom(s("my var")).template_value(), "${ZED_my var}");
}

#[test]
fn same_variable() {
    assert!(VariableName::Row.same_as(&VariableName::Row));
    assert!(!VariableName::Row.same_as(&VariableName::Column));
    assert!(VariableName::Custom(s("A")).same_as(&VariableName::Custom(s("A"))));
    assert!(!VariableName::Custom(s("A")).same_as(&VariableName::Custom(s("B"))));
    assert!(!VariableName::Custom(s("FILE")).same_as(&VariableName::File));
}

#[test]
fn insert_returns_previous_value() {
    let mut vars = TaskVariables::new();
    assert_eq!(vars.insert(VariableName::Row, s("1")), None);
    assert_eq!(vars.insert(VariableName::Column, s("5")), None);
    assert_eq!(vars.insert(VariableName::Row, s("2")), Some(s("1")));
    assert_eq!(vars.get(&VariableName::Row), Some(&s("2")));
    assert_eq!(vars.get(&VariableName::Column), Some(&s("5")));
    assert_eq!(vars.get(&VariableName::File), None);
}

#[test]
fn extend_lets_incoming_values_win() {
    let mut a = TaskVariables::from_pairs(vec![
        (VariableName::Row, s("1")),
        (VariableName::File, s("/a.rs")),
    ]);
    let b = TaskVariables::from_pairs(vec![
        (VariableName::Row, s("9")),
        (VariableName::Symbol, s("main")),
    ]);
    let mut folded = TaskVariables::from_pairs(vec![
        (VariableName::Row, s("1")),
        (VariableName::File, s("/a.rs")),
    ]);
    folded.insert(VariableName::Row, s("9"));
    folded.insert(VariableName::Symbol, s("main"));
    a.extend(b);
    for name in [VariableName::Row, VariableName::File, VariableName::Symbol, VariableName::Column] {
        assert_eq!(a.get(&name), folded.get(&name));
    }
    assert_eq!(a.get(&VariableName::Row), Some(&s("9")));
    assert_eq!(a.get(&VariableName::Symbol), Some(&s("main")));
}

#[test]
fn from_pairs_keeps_last_value() {
    let vars = TaskVariables::from_pairs(vec![
        (VariableName::Row, s("1")),
        (VariableName::Row, s("3")),
    ]);
    assert_eq!(vars.get(&VariableName::Row), Some(&s("3")));
    assert_eq!(vars.into_env_variables().len(), 1);
}

#[test]
fn env_variables_from_task_variables() {
    let vars = TaskVariables::from_pairs(vec![
        (VariableName::WorktreeRoot, s("/repo")),
        (VariableName::Custom(s("X")), s("2")),
    ]);
    let env = vars.into_env_variables();
    assert_eq!(env.get(&s("ZED_WORKTREE_ROOT")), Some(&s("/repo")));
    assert_eq!(env.get(&s("ZED_X")), Some(&s("2")));
    assert_eq!(env.get(&s("X")), None);
}

#[test]
fn env_insert_and_extend() {
    let mut env = EnvVariables::new();
    assert_eq!(env.insert(s("A"), s("1")), None);
    assert_eq!(env.insert(s("A"), s("2")), Some(s("1")));
    let mut other = EnvVariables::new();
    other.insert(s("A"), s("3"));
    other.insert(s("B"), s("4"));
    env.extend(other);
    assert_eq!(env.to_pairs(), vec![(s("A"), s("3")), (s("B"), s("4"))]);
}

#[test]
fn substitution_in_cwd() {
    let mut definition = Definition::new(s("build"), s("make"));
    definition.cwd = Some(s("$ZED_WORKTREE_ROOT/build"));
    let template = TaskTemplate { id: task::TaskId(s("build")), definition };
    let spawn = template
        .prepare(context(None, vec![(VariableName::WorktreeRoot, s("/repo"))]))
        .unwrap();
    assert_eq!(spawn.cwd, Some(s("/repo/build")));
    assert_eq!(spawn.command, "make");
}

#[test]
fn substitution_with_unbound_variable_fails() {
    let mut definition = Definition::new(s("build"), s("make"));
    definition.cwd = Some(s("$ZED_WORKTREE_ROOT/build"));
    let template = TaskTemplate { id: task::TaskId(s("build")), definition };
    let result = template.prepare(context(Some("/fallback"), vec![(VariableName::File, s("/a.rs"))]));
    let error = result.unwrap_err();
    assert_eq!(error.template, "$ZED_WORKTREE_ROOT/build");
}

#[test]
fn braced_custom_reference_is_substituted() {
    let mut definition = Definition::new(s("t"), s("run"));
    definition.cwd = Some(VariableName::Custom(s("DIR")).template_value());
    let template = TaskTemplate { id: task::TaskId(s("t")), definition };
    let spawn = template
        .prepare(context(None, vec![(VariableName::Custom(s("DIR")), s("/x"))]))
        .unwrap();
    assert_eq!(spawn.cwd, Some(s("/x")));
}

#[test]
fn cwd_falls_back_to_context() {
    let template = TaskTemplate::oneshot(s("ls"));
    let spawn = template.prepare(context(Some("/home"), vec![])).unwrap();
    assert_eq!(spawn.cwd, Some(s("/home")));
    let spawn = template.prepare(context(None, vec![])).unwrap();
    assert_eq!(spawn.cwd, None);
}

#[test]
fn task_variables_win_over_definition_env() {
    let mut definition = Definition::new(s("t"), s("run"));
    definition.env.insert(s("ZED_X"), s("1"));
    definition.env.insert(s("OTHER"), s("keep"));
    let template = TaskTemplate { id: task::TaskId(s("t")), definition };
    let spawn = template
        .prepare(context(None, vec![(VariableName::Custom(s("X")), s("2"))]))
        .unwrap();
    assert_eq!(spawn.env.get(&s("ZED_X")), Some(&s("2")));
    assert_eq!(spawn.env.get(&s("OTHER")), Some(&s("keep")));
}

#[test]
fn spawn_keeps_template_fields() {
    let mut definition = Definition::new(s("Label"), s("cargo"));
    definition.args = vec![s("test"), s("--all")];
    definition.use_new_terminal = true;
    definition.allow_concurrent_runs = true;
    definition.reveal = RevealStrategy::Never;
    let template = TaskTemplate { id: task::TaskId(s("id-1")), definition };
    let spawn = template.prepare_exec(context(Some("/w"), vec![])).unwrap();
    assert_eq!(spawn.id, task::TaskId(s("id-1")));
    assert_eq!(spawn.label, "Label");
    assert_eq!(spawn.command, "cargo");
    assert_eq!(spawn.args, vec![s("test"), s("--all")]);
    assert!(spawn.use_new_terminal);
    assert!(spawn.allow_concurrent_runs);
    assert_eq!(spawn.reveal, RevealStrategy::Never);
    assert_eq!(spawn.cwd, Some(s("/w")));
}

#[test]
fn oneshot_sets_id_label_and_command() {
    let template = TaskTemplate::oneshot(s("make test"));
    assert_eq!(template.id.0, "make test");
    assert_eq!(template.definition.label, "make test");
    assert_eq!(template.definition.command, "make test");
    assert_eq!(template.name(), "make test");
    assert_eq!(template.id().0, "make test");
    assert_eq!(template.cwd(), None);
    assert!(template.definition.args.is_empty());
    assert!(!template.definition.use_new_terminal);
    assert!(!template.definition.allow_concurrent_runs);
    assert_eq!(template.definition.reveal, RevealStrategy::Always);
}

#[test]
fn definition_defaults() {
    let definition = Definition::default();
    assert_eq!(definition.label, "");
    assert!(definition.cwd.is_none());
    assert_eq!(definition.env.len(), 0);
    assert_eq!(RevealStrategy::default(), RevealStrategy::Always);
}

fn static_source(base: &str, labels: &[&str]) -> TaskSource {
    TaskSource::Static(StaticSource {
        id_base: s(base),
        definitions: Ok(labels.iter().map(|l| Definition::new(s(l), s("cmd"))).collect()),
    })
}

#[test]
fn registry_isolates_failing_source() {
    let mut registry = Registry::new();
    registry.add_source(TaskSource::Static(StaticSource {
        id_base: s("broken"),
        definitions: Err(SourceParseError { message: s("bad json") }),
    }));
    registry.add_source(static_source("tasks", &["build", "test"]));
    let schedule = registry.tasks_to_schedule();
    assert_eq!(schedule.errors.len(), 1);
    assert_eq!(schedule.errors[0].0, 0);
    assert_eq!(schedule.errors[0].1.message, "bad json");
    let ids: Vec<(usize, String)> =
        schedule.tasks.iter().map(|(j, t)| (*j, t.id.0.clone())).collect();
    assert_eq!(ids, vec![(1, s("tasks_build")), (1, s("tasks_test"))]);
    assert_eq!(schedule.duplicate_task_id(), None);
}

#[test]
fn oneshot_source_is_scheduled_once() {
    let mut oneshot = OneshotSource::new();
    assert_eq!(oneshot.spawn(s("echo hi")).0, "echo hi");
    let mut registry = Registry::new();
    registry.add_source(static_source("a", &["x"]));
    registry.add_source(TaskSource::Oneshot(oneshot));
    let first = registry.tasks_to_schedule();
    let ids: Vec<(usize, String)> =
        first.tasks.iter().map(|(j, t)| (*j, t.id.0.clone())).collect();
    assert_eq!(ids, vec![(0, s("a_x")), (1, s("echo hi"))]);
    let second = registry.tasks_to_schedule();
    assert_eq!(second.tasks.len(), 1);
    assert_eq!(second.tasks[0].1.id.0, "a_x");
}

#[test]
fn duplicate_ids_are_reported() {
    let mut registry = Registry::new();
    registry.add_source(static_source("a", &["x", "y"]));
    let mut oneshot = OneshotSource::new();
    oneshot.spawn(s("a_y"));
    registry.add_source(TaskSource::Oneshot(oneshot));
    let schedule = registry.tasks_to_schedule();
    assert_eq!(schedule.tasks.len(), 3);
    assert_eq!(schedule.duplicate_task_id(), Some(task::TaskId(s("a_y"))));
}

#[test]
fn default_context_has_no_cwd_and_no_variables() {
    let cx = TaskContext::default();
    assert!(cx.cwd.is_none());
    assert_eq!(cx.task_variables.into_env_variables().len(), 0);
    assert_eq!(EnvVariables::default().len(), 0);
}

#[test]
fn malformed_reference_fails_substitution() {
    let mut definition = Definition::new(s("t"), s("run"));
    definition.cwd = Some(s("${ZED_ROW"));
    let template = TaskTemplate { id: task::TaskId(s("t")), definition };
    let result = template.prepare(context(None, vec![(VariableName::Row, s("3"))]));
    assert!(result.is_err());
}

#[test]
fn built_in_variable_wins_over_custom_with_same_key() {
    for vars in [
        vec![(VariableName::Custom(s("FILE")), s("custom")), (VariableName::File, s("builtin"))],
        vec![(VariableName::File, s("builtin")), (VariableName::Custom(s("FILE")), s("custom"))],
    ] {
        let env = TaskVariables::from_pairs(vars).into_env_variables();
        assert_eq!(env.len(), 1);
        assert_eq!(env.get(&s("ZED_FILE")), Some(&s("builtin")));
    }
}

#[test]
fn oneshot_prepares_in_default_context() {
    let template = TaskTemplate::oneshot(s("make test"));
    let spawn = template.prepare_exec(TaskContext::default()).unwrap();
    assert_eq!(spawn.id.0, "make test");
    assert_eq!(spawn.label, "make test");
    assert_eq!(spawn.command, "make test");
    assert!(spawn.args.is_empty());
    assert_eq!(spawn.env.len(), 0);
    assert_eq!(spawn.cwd, None);
    assert!(!spawn.use_new_terminal);
    assert!(!spawn.allow_concurrent_runs);
    assert_eq!(spawn.reveal, RevealStrategy::Always);
}

#[test]
fn default_in_reference_stands_for_unset_variable() {
    let mut definition = Definition::new(s("t"), s("run"));
    definition.cwd = Some(s("${ZED_SYMBOL:/tmp}/x"));
    let template = TaskTemplate { id: task::TaskId(s("t")), definition };
    let spawn = template.prepare(TaskContext::default()).unwrap();
    assert_eq!(spawn.cwd, Some(s("/tmp/x")));
}
