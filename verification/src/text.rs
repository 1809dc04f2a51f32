//! String primitives the normalizers are built from: whitespace trimming,
//! substring search, substring replacement, and splitting/joining on
//! newline characters. Specifications are stated over `Seq<char>`.

use vstd::prelude::*;
use vstd::string::StrSliceExecFns;
use vstd::string::StringExecFns;

verus! {

/// The whitespace characters that trimming strips from either end.
pub open spec fn is_space(c: char) -> bool {
    c == ' ' || c == '\n' || c == '\t' || c == '\r'
}

/// `s` without its leading whitespace.
pub open spec fn trimmed_start(s: Seq<char>) -> Seq<char>
    decreases s.len(),
{
    if s.len() > 0 && is_space(s[0]) {
        trimmed_start(s.skip(1))
    } else {
        s
    }
}

/// `s` without its trailing whitespace.
pub open spec fn trimmed_end(s: Seq<char>) -> Seq<char>
    decreases s.len(),
{
    if s.len() > 0 && is_space(s[s.len() - 1]) {
        trimmed_end(s.take(s.len() - 1))
    } else {
        s
    }
}

/// `s` without leading or trailing whitespace.
pub open spec fn trimmed(s: Seq<char>) -> Seq<char> {
    trimmed_end(trimmed_start(s))
}

/// `pat` occurs in `s` starting at position `i`.
pub open spec fn occurs_at(s: Seq<char>, pat: Seq<char>, i: int) -> bool {
    0 <= i && i + pat.len() <= s.len() && s.subrange(i, i + pat.len()) == pat
}

/// `pat` occurs somewhere in `s`.
pub open spec fn has_occurrence(s: Seq<char>, pat: Seq<char>) -> bool {
    exists|i: int| occurs_at(s, pat, i)
}

/// `s` begins with `pat`.
pub open spec fn starts_with(s: Seq<char>, pat: Seq<char>) -> bool {
    pat.len() <= s.len() && s.subrange(0, pat.len() as int) == pat
}

/// `s` with every occurrence of `pat` replaced by `rep`: the leftmost
/// occurrence is replaced first and the scan resumes after it, so
/// occurrences never overlap. An empty `pat` leaves `s` unchanged.
pub open spec fn replaced(s: Seq<char>, pat: Seq<char>, rep: Seq<char>) -> Seq<char>
    decreases s.len(),
{
    if pat.len() == 0 || s.len() < pat.len() {
        s
    } else if starts_with(s, pat) {
        rep + replaced(s.skip(pat.len() as int), pat, rep)
    } else {
        seq![s[0]] + replaced(s.skip(1), pat, rep)
    }
}

/// The pieces of `s` that lie between the occurrences of `pat` that
/// `replaced` rewrites, in order: `replaced` keeps exactly these pieces
/// and puts the replacement between neighbours.
pub open spec fn split_on(s: Seq<char>, pat: Seq<char>) -> Seq<Seq<char>>
    decreases s.len(),
{
    if pat.len() == 0 || s.len() < pat.len() {
        seq![s]
    } else if starts_with(s, pat) {
        seq![Seq::<char>::empty()] + split_on(s.skip(pat.len() as int), pat)
    } else {
        prepend_first(seq![s[0]], split_on(s.skip(1), pat))
    }
}

/// `ls` with `p` prepended to its first element.
pub open spec fn prepend_first(p: Seq<char>, ls: Seq<Seq<char>>) -> Seq<Seq<char>>
    recommends
        ls.len() > 0,
{
    seq![p + ls[0]] + ls.skip(1)
}

/// `s` split on newline characters. Every separator contributes a
/// boundary, so the result holds one piece more than `s` has newlines;
/// the empty string splits into one empty piece.
pub open spec fn split_lines(s: Seq<char>) -> Seq<Seq<char>>
    decreases s.len(),
{
    if s.len() == 0 {
        seq![Seq::<char>::empty()]
    } else if s[0] == '\n' {
        seq![Seq::<char>::empty()] + split_lines(s.skip(1))
    } else {
        prepend_first(seq![s[0]], split_lines(s.skip(1)))
    }
}

/// The elements of `ls` concatenated with `sep` between neighbours.
pub open spec fn joined(ls: Seq<Seq<char>>, sep: Seq<char>) -> Seq<char>
    decreases ls.len(),
{
    if ls.len() == 0 {
        Seq::<char>::empty()
    } else if ls.len() == 1 {
        ls[0]
    } else {
        ls[0] + sep + joined(ls.skip(1), sep)
    }
}

/// The views of a sequence of strings.
pub open spec fn views(v: Seq<String>) -> Seq<Seq<char>> {
    v.map_values(|s: String| s@)
}

pub proof fn lemma_split_lines_nonempty(s: Seq<char>)
    ensures
        split_lines(s).len() >= 1,
    decreases s.len(),
{
    if s.len() == 0 {
    } else if s[0] == '\n' {
        lemma_split_lines_nonempty(s.skip(1));
    } else {
        lemma_split_lines_nonempty(s.skip(1));
    }
}

pub proof fn lemma_split_on_nonempty(s: Seq<char>, pat: Seq<char>)
    ensures
        split_on(s, pat).len() >= 1,
    decreases s.len(),
{
    if pat.len() == 0 || s.len() < pat.len() {
    } else if starts_with(s, pat) {
        lemma_split_on_nonempty(s.skip(pat.len() as int), pat);
    } else {
        lemma_split_on_nonempty(s.skip(1), pat);
    }
}

/// The first piece is a prefix of `s`.
proof fn lemma_split_on_first_prefix(s: Seq<char>, pat: Seq<char>)
    ensures
        split_on(s, pat)[0].len() <= s.len(),
        split_on(s, pat)[0] == s.take(split_on(s, pat)[0].len() as int),
    decreases s.len(),
{
    lemma_split_on_nonempty(s, pat);
    if pat.len() == 0 || s.len() < pat.len() {
        assert(s.take(s.len() as int) =~= s);
    } else if starts_with(s, pat) {
        assert(s.take(0) =~= Seq::<char>::empty());
    } else {
        lemma_split_on_first_prefix(s.skip(1), pat);
        lemma_split_on_nonempty(s.skip(1), pat);
        let p = split_on(s.skip(1), pat)[0];
        assert(split_on(s, pat)[0] == seq![s[0]] + p);
        assert(seq![s[0]] + s.skip(1).take(p.len() as int) =~= s.take(p.len() as int + 1));
    }
}

/// Law: replacement rewrites every occurrence of the pattern: the result
/// is exactly the pieces of `s` between occurrences, joined by the
/// replacement.
pub proof fn lemma_replaced_is_join(s: Seq<char>, pat: Seq<char>, rep: Seq<char>)
    requires
        pat.len() > 0,
    ensures
        replaced(s, pat, rep) == joined(split_on(s, pat), rep),
    decreases s.len(),
{
    if s.len() < pat.len() {
    } else if starts_with(s, pat) {
        lemma_replaced_is_join(s.skip(pat.len() as int), pat, rep);
        lemma_split_on_nonempty(s.skip(pat.len() as int), pat);
        let x = split_on(s.skip(pat.len() as int), pat);
        assert((seq![Seq::<char>::empty()] + x).len() >= 2);
        assert((seq![Seq::<char>::empty()] + x).skip(1) =~= x);
        assert(Seq::<char>::empty() + rep + joined(x, rep) =~= rep + joined(x, rep));
    } else {
        lemma_replaced_is_join(s.skip(1), pat, rep);
        lemma_split_on_nonempty(s.skip(1), pat);
        let y = split_on(s.skip(1), pat);
        let pcs = prepend_first(seq![s[0]], y);
        assert(pcs[0] == seq![s[0]] + y[0]);
        assert(pcs.skip(1) =~= y.skip(1));
        if y.len() == 1 {
            assert(joined(pcs, rep) == seq![s[0]] + y[0]);
            assert(joined(y, rep) == y[0]);
        } else {
            assert(joined(pcs, rep) == (seq![s[0]] + y[0]) + rep + joined(y.skip(1), rep));
            assert((seq![s[0]] + y[0]) + rep + joined(y.skip(1), rep) =~= seq![s[0]] + (y[0] + rep
                + joined(y.skip(1), rep)));
        }
    }
}

/// Law: the pattern does not occur in any piece that replacement leaves
/// behind: every occurrence in the input was rewritten.
pub proof fn lemma_split_on_pieces_free(s: Seq<char>, pat: Seq<char>)
    requires
        pat.len() > 0,
    ensures
        forall|k: int|
            0 <= k < split_on(s, pat).len() ==> !has_occurrence(split_on(s, pat)[k], pat),
    decreases s.len(),
{
    let pcs = split_on(s, pat);
    if s.len() < pat.len() {
        assert forall|k: int| 0 <= k < pcs.len() implies !has_occurrence(pcs[k], pat) by {
            assert(pcs[k] == s);
            assert forall|i: int| !occurs_at(s, pat, i) by {}
        }
    } else if starts_with(s, pat) {
        lemma_split_on_pieces_free(s.skip(pat.len() as int), pat);
        let x = split_on(s.skip(pat.len() as int), pat);
        assert forall|k: int| 0 <= k < pcs.len() implies !has_occurrence(pcs[k], pat) by {
            if k == 0 {
                assert(pcs[0] == Seq::<char>::empty());
                assert forall|i: int| !occurs_at(Seq::<char>::empty(), pat, i) by {}
            } else {
                assert(pcs[k] == x[k - 1]);
            }
        }
    } else {
        lemma_split_on_pieces_free(s.skip(1), pat);
        lemma_split_on_nonempty(s.skip(1), pat);
        lemma_split_on_first_prefix(s.skip(1), pat);
        let y = split_on(s.skip(1), pat);
        let p0 = y[0];
        assert forall|k: int| 0 <= k < pcs.len() implies !has_occurrence(pcs[k], pat) by {
            if k == 0 {
                assert(pcs[0] == seq![s[0]] + p0);
                let piece = seq![s[0]] + p0;
                assert(piece =~= s.take(p0.len() as int + 1));
                assert forall|i: int| !occurs_at(piece, pat, i) by {
                    if 0 <= i && i + pat.len() <= piece.len() {
                        if i == 0 {
                            if piece.subrange(0, pat.len() as int) == pat {
                                assert(piece.subrange(0, pat.len() as int) =~= s.subrange(
                                    0,
                                    pat.len() as int,
                                ));
                                assert(starts_with(s, pat));
                                assert(false);
                            }
                        } else {
                            if piece.subrange(i, i + pat.len()) == pat {
                                assert(piece.subrange(i, i + pat.len()) =~= p0.subrange(
                                    i - 1,
                                    i - 1 + pat.len(),
                                ));
                                assert(occurs_at(p0, pat, i - 1));
                                assert(has_occurrence(p0, pat));
                                assert(false);
                            }
                        }
                    }
                }
            } else {
                assert(pcs[k] == y.skip(1)[k - 1]);
                assert(pcs[k] == y[k]);
            }
        }
    }
}

/// Removal can shorten a string but never lengthen it.
proof fn lemma_replaced_empty_len_le(s: Seq<char>, pat: Seq<char>)
    ensures
        replaced(s, pat, Seq::<char>::empty()).len() <= s.len(),
    decreases s.len(),
{
    if pat.len() == 0 || s.len() < pat.len() {
    } else if starts_with(s, pat) {
        lemma_replaced_empty_len_le(s.skip(pat.len() as int), pat);
    } else {
        lemma_replaced_empty_len_le(s.skip(1), pat);
    }
}

/// Removing the occurrences of a pattern that does occur strictly
/// shortens the string.
proof fn lemma_replaced_empty_shrinks(s: Seq<char>, pat: Seq<char>)
    requires
        pat.len() > 0,
        has_occurrence(s, pat),
    ensures
        replaced(s, pat, Seq::<char>::empty()).len() < s.len(),
    decreases s.len(),
{
    let i = choose|i: int| occurs_at(s, pat, i);
    if starts_with(s, pat) {
        lemma_replaced_empty_len_le(s.skip(pat.len() as int), pat);
    } else {
        assert(i != 0);
        assert(s.skip(1).subrange(i - 1, i - 1 + pat.len()) =~= s.subrange(i, i + pat.len()));
        assert(occurs_at(s.skip(1), pat, i - 1));
        lemma_replaced_empty_shrinks(s.skip(1), pat);
    }
}

/// `s` with every occurrence of `pat` removed, repeatedly until none is
/// left: removing one occurrence can bring the halves of another
/// together, so a single pass is not enough.
pub open spec fn scrubbed(s: Seq<char>, pat: Seq<char>) -> Seq<char>
    decreases s.len(),
        via scrubbed_decreases
{
    if pat.len() == 0 || !has_occurrence(s, pat) {
        s
    } else {
        scrubbed(replaced(s, pat, Seq::<char>::empty()), pat)
    }
}

#[via_fn]
proof fn scrubbed_decreases(s: Seq<char>, pat: Seq<char>) {
    if pat.len() != 0 && has_occurrence(s, pat) {
        lemma_replaced_empty_shrinks(s, pat);
    }
}

/// Law: scrubbing is complete: the pattern does not occur anywhere in
/// the result.
pub proof fn lemma_scrubbed_free(s: Seq<char>, pat: Seq<char>)
    requires
        pat.len() > 0,
    ensures
        !has_occurrence(scrubbed(s, pat), pat),
    decreases s.len(),
{
    if has_occurrence(s, pat) {
        lemma_replaced_empty_shrinks(s, pat);
        lemma_scrubbed_free(replaced(s, pat, Seq::<char>::empty()), pat);
    }
}

/// `s` with every occurrence of `pat` removed, to a fixed point.
pub fn scrub_all(s: &str, pat: &str) -> (r: String)
    ensures
        r@ == scrubbed(s@, pat@),
{
    let m = pat.unicode_len();
    let mut out = s.to_owned();
    if m == 0 {
        return out;
    }
    while contains_str(out.as_str(), pat)
        invariant
            m == pat@.len(),
            0 < m,
            scrubbed(s@, pat@) == scrubbed(out@, pat@),
        decreases out@.len(),
    {
        let next = replace_all(out.as_str(), pat, "");
        proof {
            reveal_strlit("");
            assert(""@ =~= Seq::<char>::empty());
            lemma_replaced_empty_shrinks(out@, pat@);
        }
        out = next;
    }
    out
}

/// An occurrence in a string with its leading whitespace removed is an
/// occurrence in the whole string.
proof fn lemma_trimmed_start_occurrence(s: Seq<char>, pat: Seq<char>)
    requires
        has_occurrence(trimmed_start(s), pat),
    ensures
        has_occurrence(s, pat),
    decreases s.len(),
{
    if s.len() > 0 && is_space(s[0]) {
        lemma_trimmed_start_occurrence(s.skip(1), pat);
        let t = s.skip(1);
        let i = choose|i: int| occurs_at(t, pat, i);
        assert(s.subrange(i + 1, i + 1 + pat.len()) =~= t.subrange(i, i + pat.len()));
        assert(occurs_at(s, pat, i + 1));
    }
}

/// An occurrence in a string with its trailing whitespace removed is an
/// occurrence in the whole string.
proof fn lemma_trimmed_end_occurrence(s: Seq<char>, pat: Seq<char>)
    requires
        has_occurrence(trimmed_end(s), pat),
    ensures
        has_occurrence(s, pat),
    decreases s.len(),
{
    if s.len() > 0 && is_space(s[s.len() - 1]) {
        lemma_trimmed_end_occurrence(s.take(s.len() - 1), pat);
        let t = s.take(s.len() - 1);
        let i = choose|i: int| occurs_at(t, pat, i);
        assert(s.subrange(i, i + pat.len()) =~= t.subrange(i, i + pat.len()));
        assert(occurs_at(s, pat, i));
    }
}

/// Law: trimming never brings an occurrence of a pattern into being:
/// what does not occur before trimming does not occur after it.
pub proof fn lemma_trimmed_keeps_absence(s: Seq<char>, pat: Seq<char>)
    requires
        !has_occurrence(s, pat),
    ensures
        !has_occurrence(trimmed(s), pat),
{
    if has_occurrence(trimmed(s), pat) {
        lemma_trimmed_end_occurrence(trimmed_start(s), pat);
        lemma_trimmed_start_occurrence(s, pat);
    }
}

proof fn lemma_trimmed_start_no_lead(s: Seq<char>)
    ensures
        trimmed_start(s).len() > 0 ==> !is_space(trimmed_start(s)[0]),
    decreases s.len(),
{
    if s.len() > 0 && is_space(s[0]) {
        lemma_trimmed_start_no_lead(s.skip(1));
    }
}

proof fn lemma_trimmed_end_no_trail(s: Seq<char>)
    ensures
        trimmed_end(s).len() > 0 ==> !is_space(trimmed_end(s)[trimmed_end(s).len() - 1]),
    decreases s.len(),
{
    if s.len() > 0 && is_space(s[s.len() - 1]) {
        lemma_trimmed_end_no_trail(s.take(s.len() - 1));
    }
}

proof fn lemma_trimmed_end_keeps_first(s: Seq<char>)
    ensures
        trimmed_end(s).len() > 0 ==> trimmed_end(s)[0] == s[0],
    decreases s.len(),
{
    if s.len() > 0 && is_space(s[s.len() - 1]) {
        lemma_trimmed_end_keeps_first(s.take(s.len() - 1));
    }
}

/// Law: a trimmed string carries no whitespace at either end.
pub proof fn lemma_trimmed_no_edge_space(s: Seq<char>)
    ensures
        trimmed(s).len() > 0 ==> !is_space(trimmed(s)[0]),
        trimmed(s).len() > 0 ==> !is_space(trimmed(s)[trimmed(s).len() - 1]),
{
    lemma_trimmed_start_no_lead(s);
    lemma_trimmed_end_no_trail(trimmed_start(s));
    lemma_trimmed_end_keeps_first(trimmed_start(s));
}

/// Law: a string in which the pattern does not occur is left unchanged
/// by replacement.
pub proof fn lemma_replaced_id_when_absent(s: Seq<char>, pat: Seq<char>, rep: Seq<char>)
    requires
        !has_occurrence(s, pat),
        pat.len() > 0,
    ensures
        replaced(s, pat, rep) == s,
    decreases s.len(),
{
    if s.len() < pat.len() {
    } else if starts_with(s, pat) {
        assert(s.subrange(0, pat.len() as int) == pat);
        assert(occurs_at(s, pat, 0));
        assert(false);
    } else {
        assert forall|i: int| !occurs_at(s.skip(1), pat, i) by {
            if 0 <= i && i + pat.len() <= s.skip(1).len() {
                if s.skip(1).subrange(i, i + pat.len()) == pat {
                    assert(s.skip(1).subrange(i, i + pat.len()) =~= s.subrange(
                        i + 1,
                        i + 1 + pat.len(),
                    ));
                    assert(occurs_at(s, pat, i + 1));
                }
            }
        }
        lemma_replaced_id_when_absent(s.skip(1), pat, rep);
        assert(seq![s[0]] + s.skip(1) =~= s);
    }
}

fn is_space_char(c: char) -> (r: bool)
    ensures
        r == is_space(c),
{
    c == ' ' || c == '\n' || c == '\t' || c == '\r'
}

/// Character-for-character string equality.
pub fn str_eq(a: &str, b: &str) -> (r: bool)
    ensures
        r == (a@ == b@),
{
    let la = a.unicode_len();
    let lb = b.unicode_len();
    if la != lb {
        return false;
    }
    let mut i: usize = 0;
    while i < la
        invariant
            la == a@.len(),
            la == b@.len(),
            i <= la,
            forall|j: int| 0 <= j < i ==> a@[j] == b@[j],
        decreases la - i,
    {
        if a.get_char(i) != b.get_char(i) {
            return false;
        }
        i += 1;
    }
    proof {
        assert(a@ =~= b@);
    }
    true
}

/// Whether `pat` occurs in `s` at position `i`.
fn match_at(s: &str, i: usize, pat: &str) -> (r: bool)
    requires
        i + pat@.len() <= s@.len() <= usize::MAX,
    ensures
        r == (s@.subrange(i as int, i + pat@.len()) == pat@),
{
    let m = pat.unicode_len();
    let mut j: usize = 0;
    while j < m
        invariant
            m == pat@.len(),
            i + m <= s@.len() <= usize::MAX,
            j <= m,
            forall|k: int| 0 <= k < j ==> s@[i + k] == pat@[k],
        decreases m - j,
    {
        if s.get_char(i + j) != pat.get_char(j) {
            proof {
                assert(s@.subrange(i as int, i + pat@.len())[j as int] == s@[i + j]);
            }
            return false;
        }
        j += 1;
    }
    proof {
        assert(s@.subrange(i as int, i + pat@.len()) =~= pat@);
    }
    true
}

/// Whether `s` begins with `pat`.
pub fn starts_with_str(s: &str, pat: &str) -> (r: bool)
    ensures
        r == starts_with(s@, pat@),
{
    let n = s.unicode_len();
    let m = pat.unicode_len();
    if m > n {
        return false;
    }
    match_at(s, 0, pat)
}

/// Whether `pat` occurs anywhere in `s`.
pub fn contains_str(s: &str, pat: &str) -> (r: bool)
    ensures
        r == has_occurrence(s@, pat@),
{
    let n = s.unicode_len();
    let m = pat.unicode_len();
    if m > n {
        return false;
    }
    if m == 0 {
        proof {
            assert(s@.subrange(0, 0) =~= pat@);
            assert(occurs_at(s@, pat@, 0));
        }
        return true;
    }
    let mut i: usize = 0;
    while i <= n - m
        invariant
            n == s@.len(),
            m == pat@.len(),
            0 < m <= n,
            i <= n - m + 1,
            forall|j: int| 0 <= j < i ==> !occurs_at(s@, pat@, j),
        decreases n - i,
    {
        if match_at(s, i, pat) {
            proof {
                assert(occurs_at(s@, pat@, i as int));
            }
            return true;
        }
        i += 1;
    }
    proof {
        assert(forall|j: int| !occurs_at(s@, pat@, j));
    }
    false
}

proof fn lemma_replaced_step_match(s: Seq<char>, pat: Seq<char>, rep: Seq<char>, i: int)
    requires
        0 < pat.len(),
        0 <= i,
        i + pat.len() <= s.len(),
        s.subrange(i, i + pat.len()) == pat,
    ensures
        replaced(s.skip(i), pat, rep) == rep + replaced(s.skip(i + pat.len()), pat, rep),
{
    let t = s.skip(i);
    assert(t.subrange(0, pat.len() as int) =~= s.subrange(i, i + pat.len()));
    assert(starts_with(t, pat));
    assert(t.skip(pat.len() as int) =~= s.skip(i + pat.len()));
}

proof fn lemma_replaced_step_char(s: Seq<char>, pat: Seq<char>, rep: Seq<char>, i: int)
    requires
        0 < pat.len(),
        0 <= i < s.len(),
        i + pat.len() <= s.len() ==> s.subrange(i, i + pat.len()) != pat,
    ensures
        replaced(s.skip(i), pat, rep) == s.subrange(i, i + 1) + replaced(s.skip(i + 1), pat, rep),
{
    let t = s.skip(i);
    assert(t.skip(1) =~= s.skip(i + 1));
    assert(s.subrange(i, i + 1) =~= seq![t[0]]);
    if t.len() < pat.len() {
        assert(replaced(t, pat, rep) == t);
        assert(t.skip(1).len() < pat.len());
        assert(replaced(t.skip(1), pat, rep) == t.skip(1));
        assert(seq![t[0]] + t.skip(1) =~= t);
    } else {
        assert(t.subrange(0, pat.len() as int) =~= s.subrange(i, i + pat.len()));
        assert(!starts_with(t, pat));
    }
}

/// `s` with every occurrence of `pat` replaced by `rep`.
pub fn replace_all(s: &str, pat: &str, rep: &str) -> (r: String)
    ensures
        r@ == replaced(s@, pat@, rep@),
{
    let n = s.unicode_len();
    let m = pat.unicode_len();
    if m == 0 {
        return s.to_owned();
    }
    let mut out = String::new();
    let mut i: usize = 0;
    proof {
        assert(s@.skip(0) =~= s@);
    }
    while i < n
        invariant
            n == s@.len(),
            m == pat@.len(),
            0 < m,
            i <= n,
            out@ + replaced(s@.skip(i as int), pat@, rep@) == replaced(s@, pat@, rep@),
        decreases n - i,
    {
        if n - i >= m && match_at(s, i, pat) {
            out.append(rep);
            proof {
                lemma_replaced_step_match(s@, pat@, rep@, i as int);
            }
            i += m;
        } else {
            let piece = s.substring_char(i, i + 1);
            out.append(piece);
            proof {
                lemma_replaced_step_char(s@, pat@, rep@, i as int);
            }
            i += 1;
        }
    }
    proof {
        assert(s@.skip(n as int) =~= Seq::<char>::empty());
        assert(out@ + replaced(s@.skip(n as int), pat@, rep@) =~= out@);
    }
    out
}

/// `s` without leading or trailing whitespace.
pub fn trim_str<'a>(s: &'a str) -> (r: &'a str)
    ensures
        r@ == trimmed(s@),
{
    let n = s.unicode_len();
    let mut lo: usize = 0;
    proof {
        assert(s@.skip(0) =~= s@);
    }
    while lo < n && is_space_char(s.get_char(lo))
        invariant
            n == s@.len(),
            lo <= n,
            trimmed_start(s@) == trimmed_start(s@.skip(lo as int)),
        decreases n - lo,
    {
        proof {
            assert(s@.skip(lo as int).skip(1) =~= s@.skip(lo as int + 1));
        }
        lo += 1;
    }
    proof {
        assert(trimmed_start(s@) == s@.skip(lo as int));
    }
    let mut hi: usize = n - lo;
    proof {
        assert(s@.skip(lo as int).take((n - lo) as int) =~= s@.skip(lo as int));
    }
    while hi > 0 && is_space_char(s.get_char(lo + hi - 1))
        invariant
            n == s@.len(),
            lo + hi <= n,
            trimmed_start(s@) == s@.skip(lo as int),
            trimmed_end(s@.skip(lo as int)) == trimmed_end(s@.skip(lo as int).take(hi as int)),
        decreases hi,
    {
        proof {
            let t = s@.skip(lo as int);
            assert(t.take(hi as int)[hi - 1] == s@[lo + hi - 1]);
            assert(t.take(hi as int).take(hi - 1) =~= t.take(hi - 1));
        }
        hi -= 1;
    }
    proof {
        let t = s@.skip(lo as int);
        if hi == 0 {
            assert(t.take(0) =~= Seq::<char>::empty());
        } else {
            assert(t.take(hi as int)[hi - 1] == s@[lo + hi - 1]);
        }
        assert(trimmed_end(t.take(hi as int)) == t.take(hi as int));
        assert(s@.subrange(lo as int, (lo + hi) as int) =~= t.take(hi as int));
    }
    s.substring_char(lo, lo + hi)
}

proof fn lemma_joined_push(ls: Seq<Seq<char>>, sep: Seq<char>, l: Seq<char>)
    ensures
        joined(ls.push(l), sep) == if ls.len() == 0 {
            l
        } else {
            joined(ls, sep) + sep + l
        },
    decreases ls.len(),
{
    if ls.len() == 0 {
        assert(ls.push(l)[0] == l);
    } else {
        assert(ls.push(l).skip(1) =~= ls.skip(1).push(l));
        lemma_joined_push(ls.skip(1), sep, l);
        if ls.len() == 1 {
            assert(joined(ls.push(l), sep) == ls[0] + sep + joined(ls.skip(1).push(l), sep));
            assert(ls.skip(1).len() == 0);
        } else {
            assert(joined(ls, sep) + sep + l =~= ls[0] + sep + (joined(ls.skip(1), sep) + sep
                + l));
        }
    }
}

/// `s` split on newline characters, as strings.
pub fn split_to_lines(s: &str) -> (r: Vec<String>)
    ensures
        views(r@) == split_lines(s@),
{
    let n = s.unicode_len();
    let mut out: Vec<String> = Vec::new();
    let mut cur = String::new();
    let mut i: usize = 0;
    proof {
        assert(s@.skip(0) =~= s@);
        lemma_split_lines_nonempty(s@);
        let ls = split_lines(s@);
        assert(Seq::<char>::empty() + ls[0] =~= ls[0]);
        assert(views(out@) + prepend_first(cur@, ls) =~= ls);
    }
    while i < n
        invariant
            n == s@.len(),
            i <= n,
            split_lines(s@) == views(out@) + prepend_first(cur@, split_lines(s@.skip(i as int))),
        decreases n - i,
    {
        let ghost out0 = out@;
        let ghost cur0 = cur@;
        let ghost rest = split_lines(s@.skip(i as int + 1));
        proof {
            assert(s@.skip(i as int)[0] == s@[i as int]);
            assert(s@.skip(i as int).skip(1) =~= s@.skip(i as int + 1));
            lemma_split_lines_nonempty(s@.skip(i as int + 1));
        }
        let c = s.get_char(i);
        if c == '\n' {
            out.push(cur);
            cur = String::new();
            proof {
                assert(split_lines(s@.skip(i as int)) == seq![Seq::<char>::empty()] + rest);
                assert((seq![Seq::<char>::empty()] + rest).skip(1) =~= rest);
                assert(cur0 + (seq![Seq::<char>::empty()] + rest)[0] =~= cur0);
                assert(prepend_first(cur0, split_lines(s@.skip(i as int))) =~= seq![cur0]
                    + rest);
                assert(views(out@) =~= views(out0) + seq![cur0]);
                assert(Seq::<char>::empty() + rest[0] =~= rest[0]);
                assert(prepend_first(cur@, rest) =~= rest);
                assert(views(out0) + (seq![cur0] + rest) =~= (views(out0) + seq![cur0]) + rest);
            }
        } else {
            let piece = s.substring_char(i, i + 1);
            cur.append(piece);
            proof {
                assert(s@.subrange(i as int, i as int + 1) =~= seq![s@[i as int]]);
                assert(cur@ =~= cur0 + seq![c]);
                assert(split_lines(s@.skip(i as int)) == prepend_first(
                    seq![c],
                    rest,
                ));
                assert((seq![seq![c] + rest[0]] + rest.skip(1)).skip(1) =~= rest.skip(1));
                assert(cur0 + (seq![c] + rest[0]) =~= (cur0 + seq![c]) + rest[0]);
                assert(prepend_first(cur0, split_lines(s@.skip(i as int))) =~= prepend_first(
                    cur@,
                    rest,
                ));
            }
        }
        i += 1;
    }
    proof {
        assert(s@.skip(n as int) =~= Seq::<char>::empty());
        let ls = split_lines(s@.skip(n as int));
        assert(ls == seq![Seq::<char>::empty()]);
        assert(cur@ + ls[0] =~= cur@);
        assert(prepend_first(cur@, ls) =~= seq![cur@]);
    }
    let ghost out1 = out@;
    let ghost cur1 = cur@;
    out.push(cur);
    proof {
        assert(views(out@) =~= views(out1) + seq![cur1]);
        assert(views(out1) + seq![cur1] =~= split_lines(s@));
    }
    out
}

/// The strings of `v` joined with a newline between neighbours.
pub fn join_lines(v: &Vec<String>) -> (r: String)
    ensures
        r@ == joined(views(v@), "\n"@),
{
    let mut out = String::new();
    let mut i: usize = 0;
    while i < v.len()
        invariant
            i <= v@.len(),
            out@ == joined(views(v@).take(i as int), "\n"@),
        decreases v@.len() - i,
    {
        if i > 0 {
            out.append("\n");
        }
        out.append(v[i].as_str());
        proof {
            lemma_joined_push(views(v@).take(i as int), "\n"@, v@[i as int]@);
            assert(views(v@).take(i as int).push(v@[i as int]@) =~= views(v@).take(i + 1));
        }
        i += 1;
    }
    proof {
        assert(views(v@).take(v@.len() as int) =~= views(v@));
    }
    out
}

} // verus!
