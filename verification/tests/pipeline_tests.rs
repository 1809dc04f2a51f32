use masklint::adapter::Adapter;
use masklint::errors::PipelineError;
use masklint::materialize::EmbeddedScript;
use masklint::materialize::MaterializedFile;
use masklint::materialize::OutputRoot;
use masklint::materialize::TaskEntry;
use masklint::materialize::check_task_name;
use masklint::materialize::materialize;
use masklint::pipeline::InvokeOutcome;
use masklint::pipeline::Mode;
use masklint::pipeline::TaskAction;
use masklint::pipeline::WriteOutcome;
use masklint::pipeline::classify_invoke;
use masklint::pipeline::classify_write;
use masklint::pipeline::dump_all;
use masklint::pipeline::materialize_task;
use masklint::pipeline::next_action;
use masklint::pipeline::report_entry;

fn script(executor: &str, source: &str) -> EmbeddedScript {
    EmbeddedScript { executor: executor.to_string(), source: source.to_string() }
}

fn task(name: &str, executor: &str, source: &str) -> TaskEntry {
    TaskEntry { name: name.to_string(), script: Some(script(executor, source)) }
}

#[test]
fn materialize_builds_path_and_content() {
    let mut root = OutputRoot::new("/tmp/out".to_string());
    let mf = materialize(&"lint-me".to_string(), &script("bash", "echo hi"), &mut root).unwrap();
    assert_eq!(mf.path, "/tmp/out/lint-me.sh");
    assert_eq!(mf.content, "#!/bin/usr/env bash\necho hi");
    assert_eq!(root.created, vec!["lint-me.sh"]);
}

#[test]
fn materialize_same_task_twice_conflicts() {
    let mut root = OutputRoot::new("/tmp/out".to_string());
    let first = materialize(&"dup".to_string(), &script("sh", "a"), &mut root);
    assert!(first.is_ok());
    let second = materialize(&"dup".to_string(), &script("sh", "b"), &mut root);
    match second {
        Err(PipelineError::FileConflict { name }) => assert_eq!(name, "dup.sh"),
        _ => panic!("second materialization must be a file conflict"),
    }
}

#[test]
fn materialize_rejects_unusable_task_name() {
    let mut root = OutputRoot::new("/tmp/out".to_string());
    let r = materialize(&"a/b".to_string(), &script("sh", "x"), &mut root);
    match r {
        Err(PipelineError::InvalidTaskName { name }) => assert_eq!(name, "a/b"),
        _ => panic!("a name with a separator must be rejected"),
    }
    assert!(root.created.is_empty());
}

#[test]
fn task_name_validity() {
    assert!(check_task_name("lint-me"));
    assert!(check_task_name("a.b"));
    assert!(!check_task_name(""));
    assert!(!check_task_name("a/b"));
    assert!(!check_task_name("a\\b"));
    assert!(!check_task_name("."));
    assert!(!check_task_name(".."));
}

#[test]
fn task_without_script_is_skipped() {
    let mut root = OutputRoot::new("/o".to_string());
    let entry = TaskEntry { name: "docs".to_string(), script: None };
    let r = materialize_task(&entry, &mut root);
    assert!(matches!(r, Ok(None)));
    assert!(root.created.is_empty());
}

#[test]
fn dump_mode_never_lints() {
    let action = next_action(Mode::Dump, "bash", &"/o/x.sh".to_string());
    assert!(matches!(action, TaskAction::NoLint));
}

#[test]
fn fallback_never_invokes_a_process() {
    let action = next_action(Mode::Run, "perl", &"/o/x".to_string());
    match action {
        TaskAction::ReportOnly { report } => assert_eq!(report, "no linter found for target"),
        _ => panic!("the fallback adapter must not invoke anything"),
    }
}

#[test]
fn run_mode_invokes_the_right_tool() {
    let action = next_action(Mode::Run, "ruby", &"/o/x.rb".to_string());
    match action {
        TaskAction::Invoke { adapter, tool, args, path } => {
            assert_eq!(adapter, Adapter::Ruby);
            assert_eq!(tool, "rubocop");
            assert_eq!(args, vec!["--format=clang", "--display-style-guide"]);
            assert_eq!(path, "/o/x.rb");
        },
        _ => panic!("a recognized adapter must be invoked"),
    }
}

#[test]
fn write_outcomes_classify() {
    assert!(classify_write(&WriteOutcome::Created, &"a.sh".to_string()).is_ok());
    match classify_write(&WriteOutcome::AlreadyExists, &"a.sh".to_string()) {
        Err(PipelineError::FileConflict { name }) => assert_eq!(name, "a.sh"),
        _ => panic!("an existing file must be a conflict"),
    }
    assert!(matches!(
        classify_write(&WriteOutcome::OtherFailure, &"a.sh".to_string()),
        Err(PipelineError::Io)
    ));
}

#[test]
fn missing_shellcheck_is_named() {
    let r = classify_invoke(&Adapter::Shell, InvokeOutcome::NotFound);
    match r {
        Err(PipelineError::ToolNotFound { ref tool }) => assert_eq!(tool, "shellcheck"),
        _ => panic!("a missing binary must be classified as tool-not-found"),
    }
    let msg = r.unwrap_err().message();
    assert_eq!(msg, "executable for shellcheck not found in $PATH");
}

#[test]
fn invoke_outcomes_classify() {
    let ok = classify_invoke(&Adapter::Python, InvokeOutcome::Stdout("raw".to_string()));
    assert_eq!(ok.unwrap(), "raw");
    assert!(matches!(
        classify_invoke(&Adapter::Ruby, InvokeOutcome::OtherFailure),
        Err(PipelineError::Invocation)
    ));
}

#[test]
fn nonzero_exit_is_not_a_failure() {
    // findings travel as captured stdout whatever the exit status
    let out = classify_invoke(&Adapter::Shell, InvokeOutcome::Stdout("finding".to_string()));
    assert_eq!(out.unwrap(), "finding");
}

#[test]
fn empty_report_is_not_printed() {
    assert!(report_entry(&"ok".to_string(), String::new()).is_none());
}

#[test]
fn nonempty_report_prints_under_task_name() {
    let r = report_entry(&"lint-me".to_string(), "a finding".to_string());
    let (name, body) = r.unwrap();
    assert_eq!(name, "lint-me");
    assert_eq!(body, "a finding");
}

#[test]
fn dump_produces_one_file_per_script_bearing_task() {
    let tasks = vec![
        task("a", "bash", "echo a"),
        TaskEntry { name: "plain".to_string(), script: None },
        task("b", "python", "x=1\n"),
        task("c", "weird", "???"),
    ];
    let mut root = OutputRoot::new("/o".to_string());
    let files: Vec<MaterializedFile> = dump_all(&tasks, &mut root).unwrap();
    assert_eq!(files.len(), 3);
    assert_eq!(files[0].path, "/o/a.sh");
    assert_eq!(files[0].content, "#!/bin/usr/env bash\necho a");
    assert_eq!(files[1].path, "/o/b.py");
    assert_eq!(files[1].content, "x=1\n");
    assert_eq!(files[2].path, "/o/c");
    assert_eq!(files[2].content, "???");
    assert_eq!(root.created, vec!["a.sh", "b.py", "c"]);
}

#[test]
fn dump_aborts_on_duplicate_names() {
    let tasks = vec![
        task("dup", "sh", "a"),
        task("dup", "bash", "b"),
        task("later", "sh", "c"),
    ];
    let mut root = OutputRoot::new("/o".to_string());
    let r = dump_all(&tasks, &mut root);
    match r {
        Err(PipelineError::FileConflict { name }) => assert_eq!(name, "dup.sh"),
        _ => panic!("the second dup must conflict"),
    }
    // the run stopped before the later task
    assert_eq!(root.created, vec!["dup.sh"]);
}

#[test]
fn missing_tool_scenario_keeps_materialized_file() {
    // task lint-me/bash/echo hi, run mode, shellcheck absent
    let mut root = OutputRoot::new("/transient".to_string());
    let entry = task("lint-me", "bash", "echo hi");
    let mf = materialize_task(&entry, &mut root).unwrap().unwrap();
    assert_eq!(mf.path, "/transient/lint-me.sh");
    let action = next_action(Mode::Run, "bash", &mf.path);
    let adapter = match action {
        TaskAction::Invoke { adapter, ref tool, .. } => {
            assert_eq!(tool, "shellcheck");
            adapter
        },
        _ => panic!("bash must be linted"),
    };
    let err = classify_invoke(&adapter, InvokeOutcome::NotFound).unwrap_err();
    match err {
        PipelineError::ToolNotFound { ref tool } => assert_eq!(tool, "shellcheck"),
        _ => panic!("absence must be tool-not-found"),
    }
    // the file was decided and recorded before the invocation failed
    assert_eq!(root.created, vec!["lint-me.sh"]);
}

#[test]
fn clean_python_scenario_prints_nothing() {
    // task ok/python/x=1 with a linter present and no findings
    let mut root = OutputRoot::new("/transient".to_string());
    let entry = task("ok", "python", "x=1\n");
    let mf = materialize_task(&entry, &mut root).unwrap().unwrap();
    let raw = classify_invoke(&Adapter::Python, InvokeOutcome::Stdout(String::new())).unwrap();
    let report = masklint::normalize::normalize(&Adapter::Python, &raw, &mf.path);
    assert_eq!(report, "");
    assert!(report_entry(&entry.name, report).is_none());
}

#[test]
fn error_messages() {
    assert_eq!(
        PipelineError::DocumentRead.message(),
        "could not read the task-definition document"
    );
    assert_eq!(
        PipelineError::FileConflict { name: "dup.sh".to_string() }.message(),
        "output file already exists: dup.sh"
    );
    assert_eq!(
        PipelineError::InvalidTaskName { name: "a/b".to_string() }.message(),
        "task name not usable as a file name: a/b"
    );
    assert_eq!(PipelineError::Io.message(), "filesystem failure while materializing");
    assert_eq!(PipelineError::Invocation.message(), "could not run the linter process");
}
