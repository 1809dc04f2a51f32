use masklint::adapter::Adapter;
use masklint::adapter::file_extension;
use masklint::adapter::linter_args;
use masklint::adapter::resolve;
use masklint::adapter::tool_name;
use masklint::adapter::transform;

#[test]
fn resolve_shell_aliases() {
    assert_eq!(resolve("sh"), Adapter::Shell);
    assert_eq!(resolve("bash"), Adapter::Shell);
    assert_eq!(resolve("zsh"), Adapter::Shell);
}

#[test]
fn resolve_python_aliases() {
    assert_eq!(resolve("py"), Adapter::Python);
    assert_eq!(resolve("python"), Adapter::Python);
}

#[test]
fn resolve_ruby_aliases() {
    assert_eq!(resolve("rb"), Adapter::Ruby);
    assert_eq!(resolve("ruby"), Adapter::Ruby);
}

#[test]
fn resolve_unknown_goes_to_fallback() {
    assert_eq!(resolve("perl"), Adapter::Fallback);
    assert_eq!(resolve(""), Adapter::Fallback);
    assert_eq!(resolve("Bash"), Adapter::Fallback);
    assert_eq!(resolve("PYTHON"), Adapter::Fallback);
}

#[test]
fn extensions_per_adapter() {
    assert_eq!(file_extension(&Adapter::Shell), ".sh");
    assert_eq!(file_extension(&Adapter::Python), ".py");
    assert_eq!(file_extension(&Adapter::Ruby), ".rb");
    assert_eq!(file_extension(&Adapter::Fallback), "");
}

#[test]
fn tool_names_per_adapter() {
    assert_eq!(tool_name(&Adapter::Shell), "shellcheck");
    assert_eq!(tool_name(&Adapter::Python), "ruff");
    assert_eq!(tool_name(&Adapter::Ruby), "rubocop");
}

#[test]
fn linter_args_per_adapter() {
    assert_eq!(linter_args(&Adapter::Shell), Vec::<String>::new());
    assert_eq!(
        linter_args(&Adapter::Python),
        vec!["--show-source", "--format=text", "--no-cache"]
    );
    assert_eq!(
        linter_args(&Adapter::Ruby),
        vec!["--format=clang", "--display-style-guide"]
    );
}

#[test]
fn shell_transform_prepends_header() {
    let out = transform(&Adapter::Shell, "echo hi", "bash");
    assert_eq!(out, "#!/bin/usr/env bash\necho hi");
    let first_line = out.lines().next().unwrap();
    assert!(first_line.contains("bash"));
    assert_eq!(&out[first_line.len() + 1..], "echo hi");
}

#[test]
fn other_transforms_pass_source_through() {
    assert_eq!(transform(&Adapter::Python, "x=1\n", "python"), "x=1\n");
    assert_eq!(transform(&Adapter::Ruby, "puts 1", "rb"), "puts 1");
    assert_eq!(transform(&Adapter::Fallback, "whatever", "perl"), "whatever");
}
