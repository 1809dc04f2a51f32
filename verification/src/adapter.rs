//! The adapter registry: maps an executor tag to the linter adapter for
//! its language, hands out each adapter's file extension, tool name and
//! invocation arguments, and builds the file content for a script.

use vstd::prelude::*;
use vstd::string::StringExecFns;
use crate::text::str_eq;
use crate::text::views;

verus! {

/// The linter adapters the registry can select. Each one is bound to a
/// single target language; `Fallback` serves every unrecognized executor
/// tag and never invokes an external process.
#[derive(Clone, Copy, PartialEq, Eq, Structural, Debug)]
pub enum Adapter {
    Shell,
    Python,
    Ruby,
    Fallback,
}

/// The adapter an executor tag selects. The mapping is case-sensitive
/// and total: a tag outside the alias lists selects the fallback.
pub open spec fn spec_resolve(executor: Seq<char>) -> Adapter {
    if executor == "sh"@ || executor == "bash"@ || executor == "zsh"@ {
        Adapter::Shell
    } else if executor == "py"@ || executor == "python"@ {
        Adapter::Python
    } else if executor == "rb"@ || executor == "ruby"@ {
        Adapter::Ruby
    } else {
        Adapter::Fallback
    }
}

/// Looks an executor tag up in the registry.
pub fn resolve(executor: &str) -> (r: Adapter)
    ensures
        r == spec_resolve(executor@),
{
    if str_eq(executor, "sh") || str_eq(executor, "bash") || str_eq(executor, "zsh") {
        Adapter::Shell
    } else if str_eq(executor, "py") || str_eq(executor, "python") {
        Adapter::Python
    } else if str_eq(executor, "rb") || str_eq(executor, "ruby") {
        Adapter::Ruby
    } else {
        Adapter::Fallback
    }
}

/// The extension the adapter appends to a task's name; the fallback
/// appends none.
pub open spec fn spec_extension(a: Adapter) -> Seq<char> {
    match a {
        Adapter::Shell => ".sh"@,
        Adapter::Python => ".py"@,
        Adapter::Ruby => ".rb"@,
        Adapter::Fallback => ""@,
    }
}

pub fn file_extension(a: &Adapter) -> (r: &'static str)
    ensures
        r@ == spec_extension(*a),
{
    match a {
        Adapter::Shell => ".sh",
        Adapter::Python => ".py",
        Adapter::Ruby => ".rb",
        Adapter::Fallback => "",
    }
}

/// The external linter binary the adapter invokes; the fallback names
/// itself, for messages only, and is never invoked.
pub open spec fn spec_tool_name(a: Adapter) -> Seq<char> {
    match a {
        Adapter::Shell => "shellcheck"@,
        Adapter::Python => "ruff"@,
        Adapter::Ruby => "rubocop"@,
        Adapter::Fallback => "catchall"@,
    }
}

pub fn tool_name(a: &Adapter) -> (r: String)
    ensures
        r@ == spec_tool_name(*a),
{
    match a {
        Adapter::Shell => "shellcheck".to_owned(),
        Adapter::Python => "ruff".to_owned(),
        Adapter::Ruby => "rubocop".to_owned(),
        Adapter::Fallback => "catchall".to_owned(),
    }
}

/// The arguments each linter binary takes before the target path:
/// the Python linter asks for source-annotated text output with its
/// cache disabled; the Ruby linter for a machine-parsable format with
/// style-guide links.
pub open spec fn spec_linter_args(a: Adapter) -> Seq<Seq<char>> {
    match a {
        Adapter::Shell => Seq::<Seq<char>>::empty(),
        Adapter::Python => seq!["--show-source"@, "--format=text"@, "--no-cache"@],
        Adapter::Ruby => seq!["--format=clang"@, "--display-style-guide"@],
        Adapter::Fallback => Seq::<Seq<char>>::empty(),
    }
}

pub fn linter_args(a: &Adapter) -> (r: Vec<String>)
    ensures
        views(r@) == spec_linter_args(*a),
{
    let mut v: Vec<String> = Vec::new();
    match a {
        Adapter::Shell => {
            proof {
                assert(views(v@) =~= spec_linter_args(Adapter::Shell));
            }
        },
        Adapter::Python => {
            v.push("--show-source".to_owned());
            v.push("--format=text".to_owned());
            v.push("--no-cache".to_owned());
            proof {
                assert(views(v@) =~= spec_linter_args(Adapter::Python));
            }
        },
        Adapter::Ruby => {
            v.push("--format=clang".to_owned());
            v.push("--display-style-guide".to_owned());
            proof {
                assert(views(v@) =~= spec_linter_args(Adapter::Ruby));
            }
        },
        Adapter::Fallback => {
            proof {
                assert(views(v@) =~= spec_linter_args(Adapter::Fallback));
            }
        },
    }
    v
}

/// The file content for a script: the shell adapter prepends one header
/// line that names the declared executor, so the shell linter can pick
/// dialect-specific rules; every other adapter passes the source through
/// unchanged.
pub open spec fn spec_transform(a: Adapter, source: Seq<char>, executor: Seq<char>) -> Seq<char> {
    match a {
        Adapter::Shell => "#!/bin/usr/env "@ + executor + "\n"@ + source,
        _ => source,
    }
}

pub fn transform(a: &Adapter, source: &str, executor: &str) -> (r: String)
    ensures
        r@ == spec_transform(*a, source@, executor@),
{
    match a {
        Adapter::Shell => {
            let mut out = "#!/bin/usr/env ".to_owned();
            out.append(executor);
            out.append("\n");
            out.append(source);
            out
        },
        _ => source.to_owned(),
    }
}

/// Law: every supported alias resolves to its own language's adapter,
/// never to the fallback.
pub proof fn lemma_resolve_aliases()
    ensures
        spec_resolve("sh"@) == Adapter::Shell,
        spec_resolve("bash"@) == Adapter::Shell,
        spec_resolve("zsh"@) == Adapter::Shell,
        spec_resolve("py"@) == Adapter::Python,
        spec_resolve("python"@) == Adapter::Python,
        spec_resolve("rb"@) == Adapter::Ruby,
        spec_resolve("ruby"@) == Adapter::Ruby,
{
    reveal_strlit("sh");
    reveal_strlit("bash");
    reveal_strlit("zsh");
    reveal_strlit("py");
    reveal_strlit("python");
    reveal_strlit("rb");
    reveal_strlit("ruby");
    assert("py"@ != "sh"@) by {
        assert("py"@[0] != "sh"@[0]);
    }
    assert("python"@ != "sh"@) by {
        assert("python"@.len() != "sh"@.len());
    }
    assert("python"@ != "bash"@) by {
        assert("python"@.len() != "bash"@.len());
    }
    assert("python"@ != "zsh"@) by {
        assert("python"@.len() != "zsh"@.len());
    }
    assert("rb"@ != "sh"@) by {
        assert("rb"@[0] != "sh"@[0]);
    }
    assert("rb"@ != "py"@) by {
        assert("rb"@[0] != "py"@[0]);
    }
    assert("ruby"@ != "bash"@) by {
        assert("ruby"@[0] != "bash"@[0]);
    }
    assert("ruby"@ != "sh"@) by {
        assert("ruby"@.len() != "sh"@.len());
    }
    assert("ruby"@ != "zsh"@) by {
        assert("ruby"@.len() != "zsh"@.len());
    }
    assert("ruby"@ != "py"@) by {
        assert("ruby"@.len() != "py"@.len());
    }
    assert("ruby"@ != "python"@) by {
        assert("ruby"@.len() != "python"@.len());
    }
    assert("py"@ != "bash"@) by {
        assert("py"@.len() != "bash"@.len());
    }
    assert("py"@ != "zsh"@) by {
        assert("py"@.len() != "zsh"@.len());
    }
    assert("rb"@ != "bash"@) by {
        assert("rb"@.len() != "bash"@.len());
    }
    assert("rb"@ != "zsh"@) by {
        assert("rb"@.len() != "zsh"@.len());
    }
}

/// Law: the shell adapter's output begins with a single header line —
/// one free of newline characters — that carries the declared executor
/// name, and the verbatim source follows after the newline.
pub proof fn lemma_shell_transform_header(source: Seq<char>, executor: Seq<char>)
    requires
        !executor.contains('\n'),
    ensures
        ({
            let header = "#!/bin/usr/env "@ + executor;
            &&& spec_transform(Adapter::Shell, source, executor) == header + seq!['\n'] + source
            &&& forall|j: int| 0 <= j < header.len() ==> header[j] != '\n'
        }),
{
    reveal_strlit("#!/bin/usr/env ");
    reveal_strlit("\n");
    let header = "#!/bin/usr/env "@ + executor;
    assert("\n"@ =~= seq!['\n']);
    assert(forall|j: int| 0 <= j < executor.len() ==> executor[j] != '\n');
    assert(forall|j: int| 0 <= j < header.len() ==> header[j] != '\n');
}

} // verus!
