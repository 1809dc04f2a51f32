//! The script materializer: decides, for one script-bearing task, the
//! file name, path and content to write under the output root, and
//! refuses a task name that is unusable or already taken in this run.

use vstd::prelude::*;
use vstd::string::StrSliceExecFns;
use vstd::string::StringExecFns;
use crate::adapter;
use crate::errors::PipelineError;
use crate::text;
use crate::text::str_eq;

verus! {

/// A script embedded in a task: its declared executor tag and its source.
pub struct EmbeddedScript {
    pub executor: String,
    pub source: String,
}

/// One entry of the task-definition document: a task name and, when the
/// task declares an embedded script, that script. An entry without a
/// script is tolerated and skipped.
pub struct TaskEntry {
    pub name: String,
    pub script: Option<EmbeddedScript>,
}

/// A file the materializer decided: the full path under the output root
/// and the transformed content. The file must not exist before the write.
pub struct MaterializedFile {
    pub path: String,
    pub content: String,
}

/// The output root: the directory that receives materialized files,
/// together with the file names already created there during this run.
/// The record of names is the materializer's model of the directory: a
/// name already present is a conflict.
pub struct OutputRoot {
    pub dir: String,
    pub created: Vec<String>,
}

impl OutputRoot {
    /// A fresh root over `dir`: no file has been created yet.
    pub fn new(dir: String) -> (r: OutputRoot)
        ensures
            r.dir == dir,
            r.created@.len() == 0,
    {
        OutputRoot { dir, created: Vec::new() }
    }
}

/// A task name that is safe as a single path segment: nonempty, free of
/// path separators, and not a relative-directory name.
pub open spec fn valid_task_name(n: Seq<char>) -> bool {
    &&& n.len() > 0
    &&& !n.contains('/')
    &&& !n.contains('\\')
    &&& n != "."@
    &&& n != ".."@
}

fn contains_char(s: &str, c: char) -> (r: bool)
    ensures
        r == s@.contains(c),
{
    let n = s.unicode_len();
    let mut i: usize = 0;
    while i < n
        invariant
            n == s@.len(),
            i <= n,
            forall|j: int| 0 <= j < i ==> s@[j] != c,
        decreases n - i,
    {
        if s.get_char(i) == c {
            return true;
        }
        i += 1;
    }
    false
}

pub fn check_task_name(n: &str) -> (r: bool)
    ensures
        r == valid_task_name(n@),
{
    !n.is_empty() && !contains_char(n, '/') && !contains_char(n, '\\') && !str_eq(n, ".")
        && !str_eq(n, "..")
}

/// The file name a task materializes to: its name with the adapter's
/// extension appended.
pub open spec fn spec_file_name(name: Seq<char>, executor: Seq<char>) -> Seq<char> {
    name + adapter::spec_extension(adapter::spec_resolve(executor))
}

/// The full path of a file named `fname` under `dir`.
pub open spec fn spec_path(dir: Seq<char>, fname: Seq<char>) -> Seq<char> {
    dir + "/"@ + fname
}

/// `created` already holds the name `n`.
pub open spec fn names_contain(created: Seq<String>, n: Seq<char>) -> bool {
    exists|i: int| 0 <= i < created.len() && created[i]@ == n
}

fn created_contains(v: &Vec<String>, n: &String) -> (r: bool)
    ensures
        r == names_contain(v@, n@),
{
    let mut i: usize = 0;
    while i < v.len()
        invariant
            i <= v@.len(),
            forall|j: int| 0 <= j < i ==> v@[j]@ != n@,
        decreases v@.len() - i,
    {
        if str_eq(v[i].as_str(), n.as_str()) {
            return true;
        }
        i += 1;
    }
    false
}

/// Materializes one script-bearing task: resolves the adapter for the
/// declared executor, builds `<name><extension>` under the root, and
/// transforms the source into the file content. Fails on a task name
/// that cannot be a path segment, and with a file conflict on a name
/// this run has already created.
pub fn materialize(name: &String, script: &EmbeddedScript, root: &mut OutputRoot) -> (r: Result<
    MaterializedFile,
    PipelineError,
>)
    ensures
        final(root).dir == old(root).dir,
        ({
            let fname = spec_file_name(name@, script.executor@);
            if !valid_task_name(name@) {
                &&& r matches Err(PipelineError::InvalidTaskName { name: n }) && n@ == name@
                &&& final(root).created == old(root).created
            } else if names_contain(old(root).created@, fname) {
                &&& r matches Err(PipelineError::FileConflict { name: n }) && n@ == fname
                &&& final(root).created == old(root).created
            } else {
                &&& r matches Ok(mf) && mf.path@ == spec_path(old(root).dir@, fname)
                    && mf.content@ == adapter::spec_transform(
                    adapter::spec_resolve(script.executor@),
                    script.source@,
                    script.executor@,
                )
                &&& text::views(final(root).created@) == text::views(old(root).created@).push(
                    fname,
                )
            }
        }),
{
    if !check_task_name(name.as_str()) {
        return Err(PipelineError::InvalidTaskName { name: name.clone() });
    }
    let a = adapter::resolve(script.executor.as_str());
    let mut fname = name.clone();
    fname.append(adapter::file_extension(&a));
    if created_contains(&root.created, &fname) {
        return Err(PipelineError::FileConflict { name: fname });
    }
    let mut path = root.dir.clone();
    path.append("/");
    path.append(fname.as_str());
    let content = adapter::transform(&a, script.source.as_str(), script.executor.as_str());
    let ghost created0 = root.created@;
    root.created.push(fname);
    proof {
        assert(text::views(root.created@) =~= text::views(created0).push(
            spec_file_name(name@, script.executor@),
        ));
    }
    Ok(MaterializedFile { path, content })
}

/// Law: materializing the same task twice into the same output root fails
/// with a file conflict the second time. The first success records the
/// task's file name in the root, and a recorded name is exactly what
/// `materialize` rejects as a conflict.
pub proof fn lemma_materialize_twice_conflicts(
    created: Seq<String>,
    name: Seq<char>,
    executor: Seq<char>,
    f: String,
)
    requires
        f@ == spec_file_name(name, executor),
    ensures
        names_contain(created.push(f), spec_file_name(name, executor)),
{
    assert(created.push(f)[created.len() as int]@ == spec_file_name(name, executor));
}

} // verus!
