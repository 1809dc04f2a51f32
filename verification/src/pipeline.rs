//! The execution pipeline's decisions. For each task, strictly in
//! document order: resolve the adapter, materialize the file, then — in
//! run mode only — invoke the linter and normalize its output; an empty
//! report is not printed. The runner around the library performs the
//! file writes, process invocations and printing, and reports each
//! outcome back; every decision between those steps is made here.

use vstd::prelude::*;
use crate::adapter;
use crate::adapter::Adapter;
use crate::errors::PipelineError;
use crate::materialize::MaterializedFile;
use crate::materialize::OutputRoot;
use crate::materialize::TaskEntry;
use crate::materialize::materialize;
use crate::materialize::names_contain;
use crate::materialize::spec_file_name;
use crate::materialize::spec_path;
use crate::materialize::valid_task_name;
use crate::text;

verus! {

/// The two operating modes: `Run` lints and reports out of a transient
/// directory; `Dump` only persists the materialized files and prints
/// nothing.
#[derive(Clone, Copy, PartialEq, Eq, Structural, Debug)]
pub enum Mode {
    Run,
    Dump,
}

/// What the runner must do for a task once its file is materialized.
pub enum TaskAction {
    /// Dump mode: no linter runs and nothing is printed for the task.
    NoLint,
    /// Run mode, fallback adapter: no process is spawned; the fixed
    /// finding below is the task's whole report.
    ReportOnly { report: String },
    /// Run mode: invoke the named linter binary with these arguments and
    /// the file's path as the final argument, capturing standard output.
    Invoke { adapter: Adapter, tool: String, args: Vec<String>, path: String },
}

/// How the runner's attempt to create a materialized file ended. The
/// file must be created fresh: finding it already on disk is an outcome
/// of its own, not a generic failure.
pub enum WriteOutcome {
    Created,
    AlreadyExists,
    OtherFailure,
}

/// How the runner's attempt to invoke a linter ended: the captured
/// standard output — whatever the exit status, findings travel as text —
/// or the binary missing from the execution path, or some other spawn or
/// communication failure.
pub enum InvokeOutcome {
    Stdout(String),
    NotFound,
    OtherFailure,
}

/// Materializes one task. A task with no script is skipped: that is not
/// an error. Everything else follows the materializer's contract.
pub fn materialize_task(task: &TaskEntry, root: &mut OutputRoot) -> (r: Result<
    Option<MaterializedFile>,
    PipelineError,
>)
    ensures
        final(root).dir == old(root).dir,
        task.script is None ==> (r matches Ok(None) && final(root).created == old(root).created),
        task.script matches Some(sc) ==> ({
            let fname = spec_file_name(task.name@, sc.executor@);
            if !valid_task_name(task.name@) {
                &&& r matches Err(PipelineError::InvalidTaskName { name: n }) && n@ == task.name@
                &&& final(root).created == old(root).created
            } else if names_contain(old(root).created@, fname) {
                &&& r matches Err(PipelineError::FileConflict { name: n }) && n@ == fname
                &&& final(root).created == old(root).created
            } else {
                &&& r matches Ok(Some(mf)) && mf.path@ == spec_path(old(root).dir@, fname)
                    && mf.content@ == adapter::spec_transform(
                    adapter::spec_resolve(sc.executor@),
                    sc.source@,
                    sc.executor@,
                )
                &&& text::views(final(root).created@) == text::views(old(root).created@).push(
                    fname,
                )
            }
        }),
{
    match &task.script {
        None => Ok(None),
        Some(sc) => {
            match materialize(&task.name, sc, root) {
                Ok(mf) => Ok(Some(mf)),
                Err(e) => Err(e),
            }
        },
    }
}

/// Decides what follows a task's materialization. Dump mode never lints
/// and never prints; the fallback adapter never spawns a process and
/// reports its fixed finding; every recognized adapter is invoked on the
/// materialized file.
pub fn next_action(mode: Mode, executor: &str, path: &String) -> (r: TaskAction)
    ensures
        mode is Dump ==> r is NoLint,
        mode is Run && adapter::spec_resolve(executor@) is Fallback ==> (r matches
            TaskAction::ReportOnly { report } && report@ == "no linter found for target"@),
        mode is Run && !(adapter::spec_resolve(executor@) is Fallback) ==> (r matches
            TaskAction::Invoke { adapter: a, tool, args, path: p } && a == adapter::spec_resolve(
            executor@,
        ) && tool@ == adapter::spec_tool_name(a) && text::views(args@)
            == adapter::spec_linter_args(a) && p@ == path@),
{
    match mode {
        Mode::Dump => TaskAction::NoLint,
        Mode::Run => {
            let a = adapter::resolve(executor);
            match a {
                Adapter::Fallback => TaskAction::ReportOnly {
                    report: "no linter found for target".to_owned(),
                },
                _ => TaskAction::Invoke {
                    adapter: a,
                    tool: adapter::tool_name(&a),
                    args: adapter::linter_args(&a),
                    path: path.clone(),
                },
            }
        },
    }
}

/// Classifies the outcome of a file creation. A file already on disk is
/// a conflict — it protects a prior run's artifacts — and any other
/// failure is a filesystem error; both abort the run.
pub fn classify_write(outcome: &WriteOutcome, fname: &String) -> (r: Result<(), PipelineError>)
    ensures
        outcome is Created <==> r is Ok,
        outcome is AlreadyExists ==> (r matches Err(PipelineError::FileConflict { name }) && name@
            == fname@),
        outcome is OtherFailure ==> r matches Err(PipelineError::Io),
{
    match outcome {
        WriteOutcome::Created => Ok(()),
        WriteOutcome::AlreadyExists => Err(
            PipelineError::FileConflict { name: fname.clone() },
        ),
        WriteOutcome::OtherFailure => Err(PipelineError::Io),
    }
}

/// Classifies the outcome of a linter invocation. Captured output is a
/// success whatever the exit status; a binary absent from the execution
/// path is the named, operator-correctable error; anything else is a
/// hard invocation error.
pub fn classify_invoke(a: &Adapter, outcome: InvokeOutcome) -> (r: Result<String, PipelineError>)
    ensures
        outcome matches InvokeOutcome::Stdout(s) ==> (r matches Ok(t) && t == s),
        outcome is NotFound ==> (r matches Err(PipelineError::ToolNotFound { tool }) && tool@
            == adapter::spec_tool_name(*a)),
        outcome is OtherFailure ==> r matches Err(PipelineError::Invocation),
{
    match outcome {
        InvokeOutcome::Stdout(s) => Ok(s),
        InvokeOutcome::NotFound => Err(
            PipelineError::ToolNotFound { tool: adapter::tool_name(a) },
        ),
        InvokeOutcome::OtherFailure => Err(PipelineError::Invocation),
    }
}

/// Decides whether a task's report is printed: an empty report is not —
/// no header, no body — and a non-empty one is printed under the task's
/// name.
pub fn report_entry(name: &String, findings: String) -> (r: Option<(String, String)>)
    ensures
        findings@.len() == 0 <==> r is None,
        r matches Some(p) && p.0@ == name@ && p.1@ == findings@ || r is None,
{
    if findings.as_str().is_empty() {
        None
    } else {
        Some((name.clone(), findings))
    }
}

/// A dump-mode run over `tasks` succeeds when every script-bearing task
/// has a usable name and a file name that no earlier task — nor `created`
/// — has taken.
pub open spec fn spec_dump_ok(tasks: Seq<TaskEntry>, created: Seq<Seq<char>>) -> bool
    decreases tasks.len(),
{
    if tasks.len() == 0 {
        true
    } else {
        match tasks[0].script {
            None => spec_dump_ok(tasks.skip(1), created),
            Some(sc) => {
                let fname = spec_file_name(tasks[0].name@, sc.executor@);
                &&& valid_task_name(tasks[0].name@)
                &&& !created.contains(fname)
                &&& spec_dump_ok(tasks.skip(1), created.push(fname))
            },
        }
    }
}

/// The path and content of every file a dump-mode run creates: one per
/// script-bearing task, in document order.
pub open spec fn spec_dump_plan(tasks: Seq<TaskEntry>, dir: Seq<char>) -> Seq<
    (Seq<char>, Seq<char>),
>
    decreases tasks.len(),
{
    if tasks.len() == 0 {
        Seq::<(Seq<char>, Seq<char>)>::empty()
    } else {
        let rest = spec_dump_plan(tasks.skip(1), dir);
        match tasks[0].script {
            None => rest,
            Some(sc) => seq![
                (
                    spec_path(dir, spec_file_name(tasks[0].name@, sc.executor@)),
                    adapter::spec_transform(
                        adapter::spec_resolve(sc.executor@),
                        sc.source@,
                        sc.executor@,
                    ),
                ),
            ] + rest,
        }
    }
}

/// The path-and-content pairs of a sequence of materialized files.
pub open spec fn file_pairs(files: Seq<MaterializedFile>) -> Seq<(Seq<char>, Seq<char>)> {
    files.map_values(|mf: MaterializedFile| (mf.path@, mf.content@))
}

proof fn lemma_dump_plan_push(tasks: Seq<TaskEntry>, t: TaskEntry, dir: Seq<char>)
    ensures
        spec_dump_plan(tasks.push(t), dir) == spec_dump_plan(tasks, dir) + (match t.script {
            None => Seq::<(Seq<char>, Seq<char>)>::empty(),
            Some(sc) => seq![
                (
                    spec_path(dir, spec_file_name(t.name@, sc.executor@)),
                    adapter::spec_transform(
                        adapter::spec_resolve(sc.executor@),
                        sc.source@,
                        sc.executor@,
                    ),
                ),
            ],
        }),
    decreases tasks.len(),
{
    let tail = match t.script {
        None => Seq::<(Seq<char>, Seq<char>)>::empty(),
        Some(sc) => seq![
            (
                spec_path(dir, spec_file_name(t.name@, sc.executor@)),
                adapter::spec_transform(
                    adapter::spec_resolve(sc.executor@),
                    sc.source@,
                    sc.executor@,
                ),
            ),
        ],
    };
    if tasks.len() == 0 {
        assert(tasks.push(t)[0] == t);
        assert(tasks.push(t).skip(1) =~= Seq::<TaskEntry>::empty());
        assert(spec_dump_plan(Seq::<TaskEntry>::empty(), dir)
            == Seq::<(Seq<char>, Seq<char>)>::empty());
        assert(tail + Seq::<(Seq<char>, Seq<char>)>::empty() =~= tail);
        assert(spec_dump_plan(tasks, dir) + tail =~= tail);
    } else {
        assert(tasks.push(t)[0] == tasks[0]);
        assert(tasks.push(t).skip(1) =~= tasks.skip(1).push(t));
        lemma_dump_plan_push(tasks.skip(1), t, dir);
        match tasks[0].script {
            None => {},
            Some(sc0) => {
                let head = seq![
                    (
                        spec_path(dir, spec_file_name(tasks[0].name@, sc0.executor@)),
                        adapter::spec_transform(
                            adapter::spec_resolve(sc0.executor@),
                            sc0.source@,
                            sc0.executor@,
                        ),
                    ),
                ];
                assert(head + (spec_dump_plan(tasks.skip(1), dir) + tail) =~= (head
                    + spec_dump_plan(tasks.skip(1), dir)) + tail);
            },
        }
    }
}

/// `names_contain` over strings agrees with membership over their views.
proof fn lemma_names_contain_views(c: Seq<String>, n: Seq<char>)
    ensures
        names_contain(c, n) <==> text::views(c).contains(n),
{
    if names_contain(c, n) {
        let i = choose|i: int| 0 <= i < c.len() && c[i]@ == n;
        assert(text::views(c)[i] == n);
    }
    if text::views(c).contains(n) {
        let i = choose|i: int| 0 <= i < text::views(c).len() && text::views(c)[i] == n;
        assert(c[i]@ == n);
    }
}

/// The first materialization failure of a dump-mode run, in document
/// order: `Some((true, name))` for a task whose name cannot be a path
/// segment, `Some((false, fname))` for a file name already taken, `None`
/// when every task materializes.
pub open spec fn spec_dump_failure(tasks: Seq<TaskEntry>, created: Seq<Seq<char>>) -> Option<
    (bool, Seq<char>),
>
    decreases tasks.len(),
{
    if tasks.len() == 0 {
        None
    } else {
        match tasks[0].script {
            None => spec_dump_failure(tasks.skip(1), created),
            Some(sc) => {
                let fname = spec_file_name(tasks[0].name@, sc.executor@);
                if !valid_task_name(tasks[0].name@) {
                    Some((true, tasks[0].name@))
                } else if created.contains(fname) {
                    Some((false, fname))
                } else {
                    spec_dump_failure(tasks.skip(1), created.push(fname))
                }
            },
        }
    }
}

/// The file names recorded after a dump-mode run over `tasks` starting
/// from `created`: one name per script-bearing task, in document order,
/// up to but not including the first failure — an aborted run touches no
/// later task.
pub open spec fn spec_dump_created(tasks: Seq<TaskEntry>, created: Seq<Seq<char>>) -> Seq<
    Seq<char>,
>
    decreases tasks.len(),
{
    if tasks.len() == 0 {
        created
    } else {
        match tasks[0].script {
            None => spec_dump_created(tasks.skip(1), created),
            Some(sc) => {
                let fname = spec_file_name(tasks[0].name@, sc.executor@);
                if !valid_task_name(tasks[0].name@) {
                    created
                } else if created.contains(fname) {
                    created
                } else {
                    spec_dump_created(tasks.skip(1), created.push(fname))
                }
            },
        }
    }
}

/// How many entries of the document carry a script.
pub open spec fn script_count(tasks: Seq<TaskEntry>) -> nat
    decreases tasks.len(),
{
    if tasks.len() == 0 {
        0
    } else {
        (if tasks[0].script is Some {
            1nat
        } else {
            0nat
        }) + script_count(tasks.skip(1))
    }
}

proof fn lemma_script_count_push(tasks: Seq<TaskEntry>, t: TaskEntry)
    ensures
        script_count(tasks.push(t)) == script_count(tasks) + (if t.script is Some {
            1nat
        } else {
            0nat
        }),
    decreases tasks.len(),
{
    if tasks.len() == 0 {
        assert(tasks.push(t)[0] == t);
        assert(tasks.push(t).skip(1) =~= Seq::<TaskEntry>::empty());
        assert(script_count(Seq::<TaskEntry>::empty()) == 0);
        assert(script_count(tasks.push(t)) == (if t.script is Some {
            1nat
        } else {
            0nat
        }) + script_count(tasks.push(t).skip(1)));
    } else {
        assert(tasks.push(t)[0] == tasks[0]);
        assert(tasks.push(t).skip(1) =~= tasks.skip(1).push(t));
        lemma_script_count_push(tasks.skip(1), t);
    }
}

/// The whole pipeline in dump mode: materializes every script-bearing
/// task in document order and stops at the first failure. No linter is
/// invoked and nothing is printed: the files are the run's sole effect,
/// exactly one per script-bearing task.
pub fn dump_all(tasks: &Vec<TaskEntry>, root: &mut OutputRoot) -> (r: Result<
    Vec<MaterializedFile>,
    PipelineError,
>)
    ensures
        final(root).dir == old(root).dir,
        r is Ok <==> spec_dump_ok(tasks@, text::views(old(root).created@)),
        r matches Ok(files) ==> file_pairs(files@) == spec_dump_plan(tasks@, old(root).dir@)
            && files@.len() == script_count(tasks@),
        text::views(final(root).created@) == spec_dump_created(
            tasks@,
            text::views(old(root).created@),
        ),
        r matches Err(e) ==> (spec_dump_failure(tasks@, text::views(old(root).created@))
            matches Some(f) && (f.0 ==> (e matches PipelineError::InvalidTaskName { name }
            && name@ == f.1)) && (!f.0 ==> (e matches PipelineError::FileConflict { name }
            && name@ == f.1))),
{
    let mut files: Vec<MaterializedFile> = Vec::new();
    let mut i: usize = 0;
    proof {
        assert(tasks@.take(0) =~= Seq::<TaskEntry>::empty());
        assert(tasks@.skip(0) =~= tasks@);
        assert(file_pairs(files@) =~= spec_dump_plan(tasks@.take(0), old(root).dir@));
    }
    while i < tasks.len()
        invariant
            i <= tasks@.len(),
            root.dir == old(root).dir,
            files@.len() == script_count(tasks@.take(i as int)),
            file_pairs(files@) == spec_dump_plan(tasks@.take(i as int), old(root).dir@),
            spec_dump_ok(tasks@, text::views(old(root).created@)) <==> spec_dump_ok(
                tasks@.skip(i as int),
                text::views(root.created@),
            ),
            spec_dump_failure(tasks@, text::views(old(root).created@)) == spec_dump_failure(
                tasks@.skip(i as int),
                text::views(root.created@),
            ),
            spec_dump_created(tasks@, text::views(old(root).created@)) == spec_dump_created(
                tasks@.skip(i as int),
                text::views(root.created@),
            ),
        decreases tasks@.len() - i,
    {
        let ghost created0 = root.created@;
        let ghost files0 = files@;
        proof {
            assert(tasks@.skip(i as int)[0] == tasks@[i as int]);
            assert(tasks@.skip(i as int).skip(1) =~= tasks@.skip(i as int + 1));
        }
        match materialize_task(&tasks[i], root) {
            Ok(None) => {},
            Ok(Some(mf)) => {
                let ghost pair = (mf.path@, mf.content@);
                files.push(mf);
                proof {
                    let sc = tasks@[i as int].script->Some_0;
                    let fname = spec_file_name(tasks@[i as int].name@, sc.executor@);
                    lemma_names_contain_views(created0, fname);
                    assert(file_pairs(files@) =~= file_pairs(files0) + seq![pair]);
                }
            },
            Err(e) => {
                proof {
                    if tasks@[i as int].script is Some {
                        let sc = tasks@[i as int].script->Some_0;
                        let fname = spec_file_name(tasks@[i as int].name@, sc.executor@);
                        lemma_names_contain_views(created0, fname);
                    }
                    assert(!spec_dump_ok(tasks@.skip(i as int), text::views(created0)));
                    assert(spec_dump_failure(tasks@.skip(i as int), text::views(created0))
                        is Some);
                    assert(spec_dump_created(tasks@.skip(i as int), text::views(created0))
                        == text::views(created0));
                }
                return Err(e);
            },
        }
        proof {
            lemma_script_count_push(tasks@.take(i as int), tasks@[i as int]);
            lemma_dump_plan_push(tasks@.take(i as int), tasks@[i as int], old(root).dir@);
            assert(tasks@.take(i as int).push(tasks@[i as int]) =~= tasks@.take(i + 1));
        }
        i += 1;
    }
    proof {
        assert(tasks@.take(tasks@.len() as int) =~= tasks@);
        assert(tasks@.skip(tasks@.len() as int) =~= Seq::<TaskEntry>::empty());
    }
    Ok(files)
}

/// Law: the pipeline never attempts to invoke an external process for a
/// task whose executor is unrecognized, nor for any task in dump mode:
/// the only action that spawns a process is `Invoke`, and `next_action`
/// returns it only in run mode for a recognized adapter.
pub proof fn lemma_fallback_never_invoked(mode: Mode, r: TaskAction, executor: Seq<char>)
    requires
        mode is Dump || adapter::spec_resolve(executor) is Fallback,
        mode is Dump ==> r is NoLint,
        mode is Run && adapter::spec_resolve(executor) is Fallback ==> r is ReportOnly,
    ensures
        !(r is Invoke),
{
}

} // verus!
