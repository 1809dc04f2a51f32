//! Output normalization, one routine per adapter. Each turns a linter's
//! raw standard output into a stable report: carriage-return line endings
//! are unified, every occurrence of the file's absolute path is removed
//! or replaced by a location-neutral token, tool banners, summary lines
//! and configured nuisance diagnostics are dropped, and surrounding
//! whitespace is trimmed.

use vstd::prelude::*;
use vstd::string::StringExecFns;
use crate::adapter::Adapter;
use crate::text::contains_str;
use crate::text::has_occurrence;
use crate::text::is_space;
use crate::text::join_lines;
use crate::text::joined;
use crate::text::lemma_scrubbed_free;
use crate::text::lemma_trimmed_keeps_absence;
use crate::text::lemma_trimmed_no_edge_space;
use crate::text::replace_all;
use crate::text::replaced;
use crate::text::scrub_all;
use crate::text::scrubbed;
use crate::text::split_lines;
use crate::text::split_to_lines;
use crate::text::starts_with;
use crate::text::starts_with_str;
use crate::text::trim_str;
use crate::text::trimmed;
use crate::text::views;

verus! {

/// `s` with carriage-return line endings unified to bare newlines, so
/// reports read the same whatever line endings the tool emitted.
pub open spec fn unified(s: Seq<char>) -> Seq<char> {
    replaced(s, "\r\n"@, "\n"@)
}

/// A finding line suppressed as a configured nuisance diagnostic: the
/// missing-module-docstring code of the Python linter and the
/// missing-top-level-documentation cop of the Ruby linter are false
/// positives for materialized script snippets.
pub open spec fn spec_suppressed(a: Adapter, line: Seq<char>) -> bool {
    match a {
        Adapter::Python => has_occurrence(line, "D100"@),
        Adapter::Ruby => has_occurrence(line, "Style/Documentation"@),
        _ => false,
    }
}

fn suppressed_line(a: &Adapter, line: &str) -> (r: bool)
    ensures
        r == spec_suppressed(*a, line@),
{
    match a {
        Adapter::Python => contains_str(line, "D100"),
        Adapter::Ruby => contains_str(line, "Style/Documentation"),
        _ => false,
    }
}

/// The lines kept once the adapter's nuisance diagnostics are dropped.
pub open spec fn unsuppressed(a: Adapter, ls: Seq<Seq<char>>) -> Seq<Seq<char>>
    decreases ls.len(),
{
    if ls.len() == 0 {
        Seq::<Seq<char>>::empty()
    } else if spec_suppressed(a, ls[0]) {
        unsuppressed(a, ls.skip(1))
    } else {
        seq![ls[0]] + unsuppressed(a, ls.skip(1))
    }
}

proof fn lemma_unsuppressed_push(a: Adapter, ls: Seq<Seq<char>>, l: Seq<char>)
    ensures
        unsuppressed(a, ls.push(l)) == unsuppressed(a, ls) + (if spec_suppressed(a, l) {
            Seq::<Seq<char>>::empty()
        } else {
            seq![l]
        }),
    decreases ls.len(),
{
    let tail = if spec_suppressed(a, l) {
        Seq::<Seq<char>>::empty()
    } else {
        seq![l]
    };
    if ls.len() == 0 {
        assert(ls.push(l)[0] == l);
        assert(ls.push(l).skip(1) =~= Seq::<Seq<char>>::empty());
        assert(unsuppressed(a, Seq::<Seq<char>>::empty()) =~= Seq::<Seq<char>>::empty());
        assert(unsuppressed(a, ls.push(l)) =~= tail);
        assert(unsuppressed(a, ls) + tail =~= tail);
    } else {
        assert(ls.push(l)[0] == ls[0]);
        assert(ls.push(l).skip(1) =~= ls.skip(1).push(l));
        lemma_unsuppressed_push(a, ls.skip(1), l);
        if spec_suppressed(a, ls[0]) {
        } else {
            assert(seq![ls[0]] + (unsuppressed(a, ls.skip(1)) + tail) =~= (seq![ls[0]]
                + unsuppressed(a, ls.skip(1))) + tail);
        }
    }
}

/// The shell linter's report: the raw output unified and trimmed, every
/// occurrence of the file's path followed by a space removed, every
/// remaining occurrence of the bare path scrubbed, and the ends trimmed.
pub open spec fn spec_normalize_shell(raw: Seq<char>, path: Seq<char>) -> Seq<char> {
    trimmed(scrubbed(replaced(trimmed(unified(raw)), path + " "@, ""@), path))
}

pub fn normalize_shell(raw: &str, path: &str) -> (r: String)
    ensures
        r@ == spec_normalize_shell(raw@, path@),
{
    let uni = replace_all(raw, "\r\n", "\n");
    let t = trim_str(uni.as_str());
    let mut pat = path.to_owned();
    pat.append(" ");
    let pass = replace_all(t, pat.as_str(), "");
    let scrub = scrub_all(pass.as_str(), path);
    let out = trim_str(scrub.as_str());
    out.to_owned()
}

/// The lines of ruff output kept as findings: the lines before the first
/// summary line, which starts with "Found ".
pub open spec fn ruff_kept(ls: Seq<Seq<char>>) -> Seq<Seq<char>>
    decreases ls.len(),
{
    if ls.len() == 0 {
        Seq::<Seq<char>>::empty()
    } else if starts_with(ls[0], "Found "@) {
        Seq::<Seq<char>>::empty()
    } else {
        seq![ls[0]] + ruff_kept(ls.skip(1))
    }
}

/// Each line with `pat` replaced by `rep`.
pub open spec fn replace_each(ls: Seq<Seq<char>>, pat: Seq<char>, rep: Seq<char>) -> Seq<
    Seq<char>,
> {
    ls.map_values(|l: Seq<char>| replaced(l, pat, rep))
}

/// The Python linter's report: the raw output unified, trimmed and split
/// into lines; the lines before the tool's trailing summary are kept,
/// its nuisance diagnostics dropped, the file's path followed by a colon
/// replaced by "line " in each; the kept lines are joined, remaining
/// path occurrences scrubbed, and the ends trimmed.
pub open spec fn spec_normalize_python(raw: Seq<char>, path: Seq<char>) -> Seq<char> {
    trimmed(
        scrubbed(
            joined(
                replace_each(
                    unsuppressed(Adapter::Python, ruff_kept(split_lines(trimmed(unified(raw))))),
                    path + ":"@,
                    "line "@,
                ),
                "\n"@,
            ),
            path,
        ),
    )
}

proof fn lemma_ruff_kept_prefix(ls: Seq<Seq<char>>, i: int)
    requires
        0 <= i <= ls.len(),
        forall|j: int| 0 <= j < i ==> !starts_with(ls[j], "Found "@),
        i < ls.len() ==> starts_with(ls[i], "Found "@),
    ensures
        ruff_kept(ls) == ls.take(i),
    decreases i,
{
    if i == 0 {
        if ls.len() == 0 {
            assert(ruff_kept(ls) =~= ls.take(0));
        } else {
            assert(ruff_kept(ls) =~= ls.take(0));
        }
    } else {
        assert(!starts_with(ls[0], "Found "@));
        lemma_ruff_kept_prefix(ls.skip(1), i - 1);
        assert(seq![ls[0]] + ls.skip(1).take(i - 1) =~= ls.take(i));
    }
}

pub fn normalize_python(raw: &str, path: &str) -> (r: String)
    ensures
        r@ == spec_normalize_python(raw@, path@),
{
    let uni = replace_all(raw, "\r\n", "\n");
    let t = trim_str(uni.as_str());
    let ls = split_to_lines(t);
    let mut pat = path.to_owned();
    pat.append(":");
    let mut kept: Vec<String> = Vec::new();
    let mut i: usize = 0;
    proof {
        assert(views(ls@).take(0) =~= Seq::<Seq<char>>::empty());
        assert(views(kept@) =~= replace_each(
            unsuppressed(Adapter::Python, views(ls@).take(0)),
            pat@,
            "line "@,
        ));
    }
    while i < ls.len() && !starts_with_str(ls[i].as_str(), "Found ")
        invariant
            views(ls@) == split_lines(trimmed(unified(raw@))),
            pat@ == path@ + ":"@,
            i <= ls@.len(),
            forall|j: int| 0 <= j < i ==> !starts_with(views(ls@)[j], "Found "@),
            views(kept@) == replace_each(
                unsuppressed(Adapter::Python, views(ls@).take(i as int)),
                pat@,
                "line "@,
            ),
        decreases ls@.len() - i,
    {
        let ghost l = views(ls@)[i as int];
        let ghost u = unsuppressed(Adapter::Python, views(ls@).take(i as int));
        proof {
            lemma_unsuppressed_push(Adapter::Python, views(ls@).take(i as int), l);
            assert(views(ls@).take(i as int).push(l) =~= views(ls@).take(i + 1));
        }
        if !suppressed_line(&Adapter::Python, ls[i].as_str()) {
            let rep = replace_all(ls[i].as_str(), pat.as_str(), "line ");
            let ghost kept0 = kept@;
            kept.push(rep);
            proof {
                assert(unsuppressed(Adapter::Python, views(ls@).take(i + 1)) =~= u.push(l));
                assert(views(kept@) =~= views(kept0).push(rep@));
                assert(replace_each(u.push(l), pat@, "line "@) =~= replace_each(
                    u,
                    pat@,
                    "line "@,
                ).push(replaced(l, pat@, "line "@)));
            }
        } else {
            proof {
                assert(unsuppressed(Adapter::Python, views(ls@).take(i + 1)) =~= u);
            }
        }
        i += 1;
    }
    proof {
        lemma_ruff_kept_prefix(views(ls@), i as int);
    }
    let body = join_lines(&kept);
    let scrub = scrub_all(body.as_str(), path);
    let out = trim_str(scrub.as_str());
    out.to_owned()
}

/// The lines of rubocop output kept as findings: every line except those
/// holding the tool's inspection notice.
pub open spec fn rubocop_kept(ls: Seq<Seq<char>>) -> Seq<Seq<char>>
    decreases ls.len(),
{
    if ls.len() == 0 {
        Seq::<Seq<char>>::empty()
    } else if has_occurrence(ls[0], "1 file inspected"@) {
        rubocop_kept(ls.skip(1))
    } else {
        seq![ls[0]] + rubocop_kept(ls.skip(1))
    }
}

/// The Ruby linter's report: the raw output unified and split into
/// lines, the inspection-notice lines and nuisance diagnostics dropped,
/// the rest joined and trimmed, the file's path followed by a colon
/// replaced by "line ", remaining path occurrences scrubbed, and the
/// ends trimmed.
pub open spec fn spec_normalize_ruby(raw: Seq<char>, path: Seq<char>) -> Seq<char> {
    trimmed(
        scrubbed(
            replaced(
                trimmed(
                    joined(
                        unsuppressed(Adapter::Ruby, rubocop_kept(split_lines(unified(raw)))),
                        "\n"@,
                    ),
                ),
                path + ":"@,
                "line "@,
            ),
            path,
        ),
    )
}

proof fn lemma_rubocop_kept_push(ls: Seq<Seq<char>>, l: Seq<char>)
    ensures
        rubocop_kept(ls.push(l)) == rubocop_kept(ls) + (if has_occurrence(
            l,
            "1 file inspected"@,
        ) {
            Seq::<Seq<char>>::empty()
        } else {
            seq![l]
        }),
    decreases ls.len(),
{
    let tail = if has_occurrence(l, "1 file inspected"@) {
        Seq::<Seq<char>>::empty()
    } else {
        seq![l]
    };
    if ls.len() == 0 {
        assert(ls.push(l)[0] == l);
        assert(ls.push(l).skip(1) =~= Seq::<Seq<char>>::empty());
        assert(rubocop_kept(Seq::<Seq<char>>::empty()) =~= Seq::<Seq<char>>::empty());
        assert(rubocop_kept(ls.push(l)) =~= tail);
        assert(rubocop_kept(ls) + tail =~= tail);
    } else {
        assert(ls.push(l)[0] == ls[0]);
        assert(ls.push(l).skip(1) =~= ls.skip(1).push(l));
        lemma_rubocop_kept_push(ls.skip(1), l);
        if has_occurrence(ls[0], "1 file inspected"@) {
        } else {
            assert(seq![ls[0]] + (rubocop_kept(ls.skip(1)) + tail) =~= (seq![ls[0]]
                + rubocop_kept(ls.skip(1))) + tail);
        }
    }
}

pub fn normalize_ruby(raw: &str, path: &str) -> (r: String)
    ensures
        r@ == spec_normalize_ruby(raw@, path@),
{
    let uni = replace_all(raw, "\r\n", "\n");
    let ls = split_to_lines(uni.as_str());
    let mut kept: Vec<String> = Vec::new();
    let mut i: usize = 0;
    proof {
        assert(views(ls@).take(0) =~= Seq::<Seq<char>>::empty());
        assert(views(kept@) =~= unsuppressed(
            Adapter::Ruby,
            rubocop_kept(views(ls@).take(0)),
        ));
    }
    while i < ls.len()
        invariant
            views(ls@) == split_lines(unified(raw@)),
            i <= ls@.len(),
            views(kept@) == unsuppressed(Adapter::Ruby, rubocop_kept(views(ls@).take(i as int))),
        decreases ls@.len() - i,
    {
        let ghost l = views(ls@)[i as int];
        let ghost k0 = rubocop_kept(views(ls@).take(i as int));
        proof {
            lemma_rubocop_kept_push(views(ls@).take(i as int), l);
            assert(views(ls@).take(i as int).push(l) =~= views(ls@).take(i + 1));
        }
        if !contains_str(ls[i].as_str(), "1 file inspected") {
            proof {
                assert(k0 + seq![l] =~= k0.push(l));
                lemma_unsuppressed_push(Adapter::Ruby, k0, l);
            }
            if !suppressed_line(&Adapter::Ruby, ls[i].as_str()) {
                let line = ls[i].clone();
                let ghost kept0 = kept@;
                kept.push(line);
                proof {
                    assert(views(kept@) =~= views(kept0).push(l));
                    assert(unsuppressed(Adapter::Ruby, k0) + seq![l] =~= unsuppressed(
                        Adapter::Ruby,
                        k0,
                    ).push(l));
                }
            } else {
                proof {
                    assert(unsuppressed(Adapter::Ruby, k0)
                        + Seq::<Seq<char>>::empty() =~= unsuppressed(Adapter::Ruby, k0));
                }
            }
        } else {
            proof {
                assert(k0 + Seq::<Seq<char>>::empty() =~= k0);
            }
        }
        i += 1;
    }
    proof {
        assert(views(ls@).take(ls@.len() as int) =~= views(ls@));
    }
    let body = join_lines(&kept);
    let t = trim_str(body.as_str());
    let mut pat = path.to_owned();
    pat.append(":");
    let pass = replace_all(t, pat.as_str(), "line ");
    let scrub = scrub_all(pass.as_str(), path);
    let out = trim_str(scrub.as_str());
    out.to_owned()
}

/// The normalized report for one adapter's raw output. The fallback
/// adapter never invokes a tool, so it passes raw text through unchanged.
pub open spec fn spec_normalize(a: Adapter, raw: Seq<char>, path: Seq<char>) -> Seq<char> {
    match a {
        Adapter::Shell => spec_normalize_shell(raw, path),
        Adapter::Python => spec_normalize_python(raw, path),
        Adapter::Ruby => spec_normalize_ruby(raw, path),
        Adapter::Fallback => raw,
    }
}

pub fn normalize(a: &Adapter, raw: &str, path: &str) -> (r: String)
    ensures
        r@ == spec_normalize(*a, raw@, path@),
{
    match a {
        Adapter::Shell => normalize_shell(raw, path),
        Adapter::Python => normalize_python(raw, path),
        Adapter::Ruby => normalize_ruby(raw, path),
        Adapter::Fallback => raw.to_owned(),
    }
}

/// Law: a lint report never holds the linted file's absolute path:
/// each normalizer scrubs every occurrence, and the final trim cannot
/// bring one back. The fallback adapter normalizes nothing and is
/// exempt.
pub proof fn lemma_normalize_path_free(a: Adapter, raw: Seq<char>, path: Seq<char>)
    requires
        path.len() > 0,
        !(a is Fallback),
    ensures
        !has_occurrence(spec_normalize(a, raw, path), path),
{
    match a {
        Adapter::Shell => {
            let x = replaced(trimmed(unified(raw)), path + " "@, ""@);
            lemma_scrubbed_free(x, path);
            lemma_trimmed_keeps_absence(scrubbed(x, path), path);
        },
        Adapter::Python => {
            let x = joined(
                replace_each(
                    unsuppressed(Adapter::Python, ruff_kept(split_lines(trimmed(unified(raw))))),
                    path + ":"@,
                    "line "@,
                ),
                "\n"@,
            );
            lemma_scrubbed_free(x, path);
            lemma_trimmed_keeps_absence(scrubbed(x, path), path);
        },
        Adapter::Ruby => {
            let x = replaced(
                trimmed(
                    joined(
                        unsuppressed(Adapter::Ruby, rubocop_kept(split_lines(unified(raw)))),
                        "\n"@,
                    ),
                ),
                path + ":"@,
                "line "@,
            );
            lemma_scrubbed_free(x, path);
            lemma_trimmed_keeps_absence(scrubbed(x, path), path);
        },
        Adapter::Fallback => {},
    }
}

/// Law: a lint report carries no whitespace at either end.
pub proof fn lemma_normalize_no_edge_space(a: Adapter, raw: Seq<char>, path: Seq<char>)
    requires
        !(a is Fallback),
    ensures
        ({
            let out = spec_normalize(a, raw, path);
            out.len() > 0 ==> !is_space(out[0]) && !is_space(out[out.len() - 1])
        }),
{
    match a {
        Adapter::Shell => {
            lemma_trimmed_no_edge_space(
                scrubbed(replaced(trimmed(unified(raw)), path + " "@, ""@), path),
            );
        },
        Adapter::Python => {
            lemma_trimmed_no_edge_space(
                scrubbed(
                    joined(
                        replace_each(
                            unsuppressed(
                                Adapter::Python,
                                ruff_kept(split_lines(trimmed(unified(raw)))),
                            ),
                            path + ":"@,
                            "line "@,
                        ),
                        "\n"@,
                    ),
                    path,
                ),
            );
        },
        Adapter::Ruby => {
            lemma_trimmed_no_edge_space(
                scrubbed(
                    replaced(
                        trimmed(
                            joined(
                                unsuppressed(
                                    Adapter::Ruby,
                                    rubocop_kept(split_lines(unified(raw))),
                                ),
                                "\n"@,
                            ),
                        ),
                        path + ":"@,
                        "line "@,
                    ),
                    path,
                ),
            );
        },
        Adapter::Fallback => {},
    }
}

/// Law: the Python linter's trailing summary block is never a finding:
/// no line the normalizer keeps starts with the summary marker.
pub proof fn lemma_ruff_kept_no_summary(ls: Seq<Seq<char>>)
    ensures
        forall|k: int|
            0 <= k < ruff_kept(ls).len() ==> !starts_with(ruff_kept(ls)[k], "Found "@),
    decreases ls.len(),
{
    if ls.len() == 0 {
    } else if starts_with(ls[0], "Found "@) {
    } else {
        lemma_ruff_kept_no_summary(ls.skip(1));
        assert(forall|k: int|
            1 <= k < ruff_kept(ls).len() ==> ruff_kept(ls)[k] == ruff_kept(ls.skip(1))[k - 1]);
    }
}

/// Law: the Ruby linter's inspection notice is never a finding: no line
/// the normalizer keeps holds the notice.
pub proof fn lemma_rubocop_kept_no_notice(ls: Seq<Seq<char>>)
    ensures
        forall|k: int|
            0 <= k < rubocop_kept(ls).len() ==> !has_occurrence(
                rubocop_kept(ls)[k],
                "1 file inspected"@,
            ),
    decreases ls.len(),
{
    if ls.len() == 0 {
    } else {
        lemma_rubocop_kept_no_notice(ls.skip(1));
        if !has_occurrence(ls[0], "1 file inspected"@) {
            assert(forall|k: int|
                1 <= k < rubocop_kept(ls).len() ==> rubocop_kept(ls)[k] == rubocop_kept(
                    ls.skip(1),
                )[k - 1]);
        }
    }
}

/// Law: a suppressed nuisance diagnostic is never a finding: no line
/// that survives suppression holds an ignored rule code.
pub proof fn lemma_unsuppressed_no_nuisance(a: Adapter, ls: Seq<Seq<char>>)
    ensures
        forall|k: int|
            0 <= k < unsuppressed(a, ls).len() ==> !spec_suppressed(a, unsuppressed(a, ls)[k]),
    decreases ls.len(),
{
    if ls.len() == 0 {
        assert(unsuppressed(a, ls).len() == 0);
    } else {
        lemma_unsuppressed_no_nuisance(a, ls.skip(1));
        let rest = unsuppressed(a, ls.skip(1));
        if spec_suppressed(a, ls[0]) {
            assert(unsuppressed(a, ls) == rest);
        } else {
            assert(unsuppressed(a, ls) == seq![ls[0]] + rest);
            assert forall|k: int|
                0 <= k < unsuppressed(a, ls).len() implies !spec_suppressed(
                a,
                unsuppressed(a, ls)[k],
            ) by {
                if k == 0 {
                    assert(unsuppressed(a, ls)[0] == ls[0]);
                } else {
                    assert(unsuppressed(a, ls)[k] == rest[k - 1]);
                    assert(!spec_suppressed(a, rest[k - 1]));
                }
            }
        }
    }
}

} // verus!
