//! The panic lint applied to generated code before it is compiled.

use vstd::prelude::*;
use vstd::string::StringSliceAdditionalSpecFns;
use vstd::utf8::encode_utf8;
use crate::text::{
    chars_of, decimal, extend_str, is_prefix, join, join_chars, lines, lines_of, push_decimal,
    starts_with_chars, string_of, trim, trim_chars,
};

verus! {

/// Whether `p` occurs in `b` starting at `k`.
pub open spec fn occurs_at(b: Seq<u8>, p: Seq<u8>, k: int) -> bool {
    0 <= k && k + p.len() <= b.len() && b.subrange(k, k + p.len()) == p
}

/// The length of the one-byte character literal (such as `'"'`, or `'\"'`
/// with an escape) that starts at byte `i` of `b`, or 0 when none does.
pub open spec fn char_literal_len(b: Seq<u8>, i: int) -> int {
    if 0 <= i && i + 2 < b.len() && b[i] == 39u8 && b[i + 1] != 92u8 && b[i + 2] == 39u8 {
        3
    } else if 0 <= i && i + 3 < b.len() && b[i] == 39u8 && b[i + 1] == 92u8 && b[i + 3] == 39u8 {
        4
    } else {
        0
    }
}

/// The scan of `b` from byte `i`, with `in_str` telling whether the scan is
/// inside a double-quoted string literal: outside a literal, a `"` opens
/// one, a character literal is stepped over, and any other byte where `p`
/// starts is a hit; inside, a backslash skips the byte after it and a `"`
/// closes the literal.
pub open spec fn scan_outside(b: Seq<u8>, p: Seq<u8>, i: int, in_str: bool) -> bool
    decreases b.len() - i,
{
    if i < 0 || i >= b.len() {
        false
    } else if in_str {
        if b[i] == 92u8 {
            if i + 1 >= b.len() {
                false
            } else {
                scan_outside(b, p, i + 2, true)
            }
        } else if b[i] == 34u8 {
            scan_outside(b, p, i + 1, false)
        } else {
            scan_outside(b, p, i + 1, true)
        }
    } else if b[i] == 34u8 {
        scan_outside(b, p, i + 1, true)
    } else if char_literal_len(b, i) > 0 {
        scan_outside(b, p, i + char_literal_len(b, i), false)
    } else if occurs_at(b, p, i) {
        true
    } else {
        scan_outside(b, p, i + 1, false)
    }
}

/// `p` occurs in `b` at a position the scan reaches outside string and
/// character literals.
pub open spec fn occurs_outside_strings(b: Seq<u8>, p: Seq<u8>) -> bool {
    scan_outside(b, p, 0, false)
}

/// Whether `p` occurs in `b` at `k`, for `k + p.len() <= b.len()`.
fn bytes_match_at(b: &[u8], k: usize, p: &[u8]) -> (res: bool)
    requires
        k + p@.len() <= b@.len(),
    ensures
        res == occurs_at(b@, p@, k as int),
{
    let n = b.len();
    let mut j: usize = 0;
    while j < p.len()
        invariant
            k + p@.len() <= b@.len(),
            n == b@.len(),
            j <= p@.len(),
            forall|m: int| 0 <= m < j ==> b@[k + m] == p@[m],
        decreases p@.len() - j,
    {
        if b[k + j] != p[j] {
            assert(b@.subrange(k as int, k + p@.len())[j as int] != p@[j as int]);
            return false;
        }
        j += 1;
    }
    assert(b@.subrange(k as int, k + p@.len()) =~= p@);
    true
}

fn char_literal_at(b: &[u8], i: usize) -> (res: usize)
    requires
        i < b@.len(),
    ensures
        res == char_literal_len(b@, i as int),
{
    let n = b.len();
    if b[i] != 39u8 {
        return 0;
    }
    let rest = n - i;
    if rest > 2 && b[i + 1] != 92u8 && b[i + 2] == 39u8 {
        3
    } else if rest > 3 && b[i + 1] == 92u8 && b[i + 3] == 39u8 {
        4
    } else {
        0
    }
}

/// Checks if `pattern` appears in `line` outside of string literals (and
/// outside character literals such as `'"'`).
pub fn contains_outside_string(line: &str, pattern: &str) -> (res: bool)
    ensures
        res == occurs_outside_strings(line.spec_bytes(), pattern.spec_bytes()),
{
    let bytes = line.as_bytes();
    let pat = pattern.as_bytes();
    let mut in_string = false;
    let mut i: usize = 0;
    while i < bytes.len()
        invariant
            bytes@ == line.spec_bytes(),
            pat@ == pattern.spec_bytes(),
            i <= bytes@.len(),
            occurs_outside_strings(bytes@, pat@) == scan_outside(bytes@, pat@, i as int, in_string),
        decreases bytes@.len() - i,
    {
        if in_string {
            if bytes[i] == 92u8 {
                if i + 1 >= bytes.len() {
                    return false;
                }
                i += 2;
                continue;
            }
            if bytes[i] == 34u8 {
                in_string = false;
            }
            i += 1;
            continue;
        }
        if bytes[i] == 34u8 {
            in_string = true;
            i += 1;
            continue;
        }
        let lit = char_literal_at(bytes, i);
        if lit > 0 {
            i += lit;
            continue;
        }
        if pat.len() <= bytes.len() - i && bytes_match_at(bytes, i, pat) {
            return true;
        }
        i += 1;
    }
    false
}

proof fn lemma_scan_sound(b: Seq<u8>, p: Seq<u8>, i: int, in_str: bool)
    requires
        scan_outside(b, p, i, in_str),
    ensures
        exists|k: int| 0 <= k < b.len() && #[trigger] occurs_at(b, p, k),
    decreases b.len() - i,
{
    if i < 0 || i >= b.len() {
    } else if in_str {
        if b[i] == 92u8 {
            lemma_scan_sound(b, p, i + 2, true);
        } else if b[i] == 34u8 {
            lemma_scan_sound(b, p, i + 1, false);
        } else {
            lemma_scan_sound(b, p, i + 1, true);
        }
    } else if b[i] == 34u8 {
        lemma_scan_sound(b, p, i + 1, true);
    } else if char_literal_len(b, i) > 0 {
        lemma_scan_sound(b, p, i + char_literal_len(b, i), false);
    } else if occurs_at(b, p, i) {
    } else {
        lemma_scan_sound(b, p, i + 1, false);
    }
}

proof fn lemma_scan_without_quotes(b: Seq<u8>, p: Seq<u8>, i: int)
    requires
        0 <= i,
        forall|k: int| 0 <= k < b.len() ==> b[k] != 34u8 && b[k] != 39u8,
    ensures
        scan_outside(b, p, i, false) == exists|k: int| i <= k < b.len() && #[trigger] occurs_at(b, p, k),
    decreases b.len() - i,
{
    if i >= b.len() {
    } else {
        lemma_scan_without_quotes(b, p, i + 1);
        if occurs_at(b, p, i) {
        } else {
            assert forall|k: int| i <= k < b.len() && #[trigger] occurs_at(b, p, k) implies i + 1
                <= k by {}
        }
    }
}

/// A hit outside string literals is an occurrence of the pattern in the line.
pub proof fn law_outside_hit_is_occurrence(line: Seq<char>, pattern: Seq<char>)
    requires
        occurs_outside_strings(encode_utf8(line), encode_utf8(pattern)),
    ensures
        exists|k: int|
            0 <= k < encode_utf8(line).len() && #[trigger] occurs_at(
                encode_utf8(line),
                encode_utf8(pattern),
                k,
            ),
{
    lemma_scan_sound(encode_utf8(line), encode_utf8(pattern), 0, false);
}

/// In a line without double or single quotes every occurrence counts: the
/// check is plain substring search there.
pub proof fn law_no_quotes_is_plain_search(line: Seq<char>, pattern: Seq<char>)
    requires
        forall|k: int|
            0 <= k < encode_utf8(line).len() ==> encode_utf8(line)[k] != 34u8 && encode_utf8(
                line,
            )[k] != 39u8,
    ensures
        occurs_outside_strings(encode_utf8(line), encode_utf8(pattern)) == exists|k: int|
            0 <= k < encode_utf8(line).len() && #[trigger] occurs_at(
                encode_utf8(line),
                encode_utf8(pattern),
                k,
            ),
{
    lemma_scan_without_quotes(encode_utf8(line), encode_utf8(pattern), 0);
}

proof fn lemma_encode_concat(a: Seq<char>, b: Seq<char>)
    ensures
        encode_utf8(a + b) == encode_utf8(a) + encode_utf8(b),
    decreases a.len(),
{
    if a.len() == 0 {
        assert(a + b =~= b);
        assert(encode_utf8(a) + encode_utf8(b) =~= encode_utf8(b));
    } else {
        lemma_encode_concat(a.drop_first(), b);
        assert((a + b).drop_first() =~= a.drop_first() + b);
        assert((a + b)[0] == a[0]);
        assert(encode_utf8(a + b) =~= encode_utf8(a) + encode_utf8(b));
    }
}

/// A quote at byte `i`, reached outside string literals, that is too close
/// to the end of `b` to close a character literal yet, though appended text
/// could close one.
pub open spec fn literal_pending(b: Seq<u8>, i: int) -> bool {
    &&& 0 <= i < b.len()
    &&& b[i] == 39u8
    &&& (i + 2 >= b.len() || (i + 3 >= b.len() && b[i + 1] == 92u8))
}

/// The scan of [`scan_outside`], except that it fails where it reaches a
/// pending character literal outside string literals: it holds when the
/// hit is found before anything that appended text could change.
pub open spec fn scan_settled(b: Seq<u8>, p: Seq<u8>, i: int, in_str: bool) -> bool
    decreases b.len() - i,
{
    if i < 0 || i >= b.len() {
        false
    } else if in_str {
        if b[i] == 92u8 {
            if i + 1 >= b.len() {
                false
            } else {
                scan_settled(b, p, i + 2, true)
            }
        } else if b[i] == 34u8 {
            scan_settled(b, p, i + 1, false)
        } else {
            scan_settled(b, p, i + 1, true)
        }
    } else if b[i] == 34u8 {
        scan_settled(b, p, i + 1, true)
    } else if literal_pending(b, i) {
        false
    } else if char_literal_len(b, i) > 0 {
        scan_settled(b, p, i + char_literal_len(b, i), false)
    } else if occurs_at(b, p, i) {
        true
    } else {
        scan_settled(b, p, i + 1, false)
    }
}

proof fn lemma_scan_append(a: Seq<u8>, c: Seq<u8>, p: Seq<u8>, i: int, in_str: bool)
    requires
        scan_settled(a, p, i, in_str),
    ensures
        scan_outside(a + c, p, i, in_str),
    decreases a.len() - i,
{
    let ac = a + c;
    assert(0 <= i < a.len());
    assert(ac[i] == a[i]);
    if in_str {
        if a[i] == 92u8 {
            assert(ac[i + 1] == a[i + 1]);
            lemma_scan_append(a, c, p, i + 2, true);
        } else if a[i] == 34u8 {
            lemma_scan_append(a, c, p, i + 1, false);
        } else {
            lemma_scan_append(a, c, p, i + 1, true);
        }
    } else if a[i] == 34u8 {
        lemma_scan_append(a, c, p, i + 1, true);
    } else {
        if a[i] == 39u8 {
            assert(i + 2 < a.len());
            assert(ac[i + 1] == a[i + 1]);
            assert(ac[i + 2] == a[i + 2]);
            if i + 3 < a.len() {
                assert(ac[i + 3] == a[i + 3]);
            }
        }
        assert(char_literal_len(ac, i) == char_literal_len(a, i));
        if char_literal_len(a, i) > 0 {
            lemma_scan_append(a, c, p, i + char_literal_len(a, i), false);
        } else if occurs_at(a, p, i) {
            assert(ac.subrange(i, i + p.len()) =~= a.subrange(i, i + p.len()));
        } else {
            lemma_scan_append(a, c, p, i + 1, false);
        }
    }
}

/// Appending text to a line keeps an occurrence found outside string
/// literals, unless the scan passes, before the occurrence, a quote near the
/// end of the line that the appended text could close into a character
/// literal (which then hides what follows it).
pub proof fn law_append_keeps_hit(line: Seq<char>, more: Seq<char>, pattern: Seq<char>)
    requires
        scan_settled(encode_utf8(line), encode_utf8(pattern), 0, false),
    ensures
        occurs_outside_strings(encode_utf8(line), encode_utf8(pattern)),
        occurs_outside_strings(encode_utf8(line + more), encode_utf8(pattern)),
{
    let b = encode_utf8(line);
    lemma_scan_append(b, Seq::empty(), encode_utf8(pattern), 0, false);
    assert(b + Seq::<u8>::empty() =~= b);
    lemma_encode_concat(line, more);
    lemma_scan_append(b, encode_utf8(more), encode_utf8(pattern), 0, false);
}

/// One reported issue: the 1-based line number and the advice.
pub open spec fn issue_text(n: nat, advice: Seq<char>) -> Seq<char> {
    "  line "@ + decimal(n) + ": "@ + advice
}

/// The issue for `pat` on line `n`, if `pat` occurs there outside strings.
pub open spec fn flag(line: Seq<char>, pat: Seq<char>, n: nat, advice: Seq<char>) -> Seq<
    Seq<char>,
> {
    if occurs_outside_strings(encode_utf8(line), encode_utf8(pat)) {
        seq![issue_text(n, advice)]
    } else {
        Seq::empty()
    }
}

/// The issues of one line, numbered `n`: none for a comment line, else one
/// per panic-prone pattern found outside string literals, in a fixed order.
pub open spec fn line_issues(line: Seq<char>, n: nat) -> Seq<Seq<char>> {
    if is_prefix("//"@, trim(line)) {
        Seq::empty()
    } else {
        flag(line, ".unwrap()"@, n, ".unwrap() — use pattern matching or .unwrap_or() instead"@)
            + flag(line, ".expect("@, n, ".expect() — use pattern matching or .unwrap_or() instead"@)
            + flag(line, "panic!("@, n, "panic!() — handle the error gracefully instead"@)
            + flag(line, "todo!("@, n, "todo!() — provide a real implementation"@)
            + flag(line, "unimplemented!("@, n, "unimplemented!() — provide a real implementation"@)
    }
}

/// The issues of the lines `ls`, the first of them numbered `n`.
pub open spec fn issues_from(ls: Seq<Seq<char>>, n: nat) -> Seq<Seq<char>>
    decreases ls.len(),
{
    if ls.len() == 0 {
        Seq::empty()
    } else {
        line_issues(ls[0], n) + issues_from(ls.drop_first(), n + 1)
    }
}

/// What the lint reports on `code`: nothing when no line has an issue,
/// else a header and the issues, one per line.
pub open spec fn lint_report(code: Seq<char>) -> Option<Seq<char>> {
    let issues = issues_from(lines(code), 1);
    if issues.len() == 0 {
        None
    } else {
        Some("Code contains panic-prone patterns:\n"@ + join(issues, "\n"@))
    }
}

/// The pattern occurs somewhere in the line's bytes.
pub open spec fn occurs_in(line: Seq<char>, pat: Seq<char>) -> bool {
    exists|k: int|
        0 <= k < encode_utf8(line).len() && #[trigger] occurs_at(
            encode_utf8(line),
            encode_utf8(pat),
            k,
        )
}

/// None of the panic-prone patterns occurs in the line at all.
pub open spec fn free_of_patterns(line: Seq<char>) -> bool {
    &&& !occurs_in(line, ".unwrap()"@)
    &&& !occurs_in(line, ".expect("@)
    &&& !occurs_in(line, "panic!("@)
    &&& !occurs_in(line, "todo!("@)
    &&& !occurs_in(line, "unimplemented!("@)
}

proof fn lemma_free_line_clean(line: Seq<char>, n: nat)
    requires
        free_of_patterns(line),
    ensures
        line_issues(line, n).len() == 0,
{
    if !is_prefix("//"@, trim(line)) {
        if occurs_outside_strings(encode_utf8(line), encode_utf8(".unwrap()"@)) {
            law_outside_hit_is_occurrence(line, ".unwrap()"@);
        }
        if occurs_outside_strings(encode_utf8(line), encode_utf8(".expect("@)) {
            law_outside_hit_is_occurrence(line, ".expect("@);
        }
        if occurs_outside_strings(encode_utf8(line), encode_utf8("panic!("@)) {
            law_outside_hit_is_occurrence(line, "panic!("@);
        }
        if occurs_outside_strings(encode_utf8(line), encode_utf8("todo!("@)) {
            law_outside_hit_is_occurrence(line, "todo!("@);
        }
        if occurs_outside_strings(encode_utf8(line), encode_utf8("unimplemented!("@)) {
            law_outside_hit_is_occurrence(line, "unimplemented!("@);
        }
    }
}

proof fn lemma_free_lines_clean(ls: Seq<Seq<char>>, n: nat)
    requires
        forall|i: int| 0 <= i < ls.len() ==> free_of_patterns(#[trigger] ls[i]),
    ensures
        issues_from(ls, n).len() == 0,
    decreases ls.len(),
{
    if ls.len() > 0 {
        lemma_free_line_clean(ls[0], n);
        assert forall|i: int| 0 <= i < ls.drop_first().len() implies free_of_patterns(
            #[trigger] ls.drop_first()[i],
        ) by {
            assert(ls.drop_first()[i] == ls[i + 1]);
        }
        lemma_free_lines_clean(ls.drop_first(), n + 1);
    }
}

/// Code in which no line contains any of the panic-prone patterns passes
/// the lint.
pub proof fn law_pattern_free_code_passes(code: Seq<char>)
    requires
        forall|i: int| 0 <= i < lines(code).len() ==> free_of_patterns(#[trigger] lines(code)[i]),
    ensures
        lint_report(code) is None,
{
    lemma_free_lines_clean(lines(code), 1);
}

/// Comment lines are never reported.
pub proof fn law_comment_lines_not_reported(line: Seq<char>, n: nat)
    requires
        is_prefix("//"@, trim(line)),
    ensures
        line_issues(line, n).len() == 0,
{
}

/// The panic-prone patterns that the lint looks for.
pub open spec fn is_panic_pattern(p: Seq<char>) -> bool {
    ||| p == ".unwrap()"@
    ||| p == ".expect("@
    ||| p == "panic!("@
    ||| p == "todo!("@
    ||| p == "unimplemented!("@
}

/// The advice reported for a panic-prone pattern.
pub open spec fn advice_for(p: Seq<char>) -> Seq<char> {
    if p == ".unwrap()"@ {
        ".unwrap() — use pattern matching or .unwrap_or() instead"@
    } else if p == ".expect("@ {
        ".expect() — use pattern matching or .unwrap_or() instead"@
    } else if p == "panic!("@ {
        "panic!() — handle the error gracefully instead"@
    } else if p == "todo!("@ {
        "todo!() — provide a real implementation"@
    } else {
        "unimplemented!() — provide a real implementation"@
    }
}

proof fn lemma_issues_from_covers(ls: Seq<Seq<char>>, n: nat, i: int, x: Seq<char>)
    requires
        0 <= i < ls.len(),
        line_issues(ls[i], (n + i) as nat).contains(x),
    ensures
        issues_from(ls, n).contains(x),
    decreases i,
{
    let first = line_issues(ls[0], n);
    let rest = issues_from(ls.drop_first(), n + 1);
    assert(issues_from(ls, n) == first + rest);
    if i > 0 {
        assert(ls.drop_first()[i - 1] == ls[i]);
        lemma_issues_from_covers(ls.drop_first(), n + 1, i - 1, x);
        let k = choose|k: int| 0 <= k < rest.len() && rest[k] == x;
        assert((first + rest)[first.len() + k] == x);
    } else {
        let k = choose|k: int| 0 <= k < first.len() && first[k] == x;
        assert((first + rest)[k] == x);
    }
}

/// A line that is not a comment line and holds a panic-prone pattern
/// outside string literals is reported, whatever else it holds (a trailing
/// comment too): the issue for that pattern, under the line's 1-based
/// number, is among the issues of the code, and the lint rejects the code.
pub proof fn law_pattern_outside_strings_reported(code: Seq<char>, i: int, p: Seq<char>)
    requires
        0 <= i < lines(code).len(),
        is_panic_pattern(p),
        !is_prefix("//"@, trim(lines(code)[i])),
        occurs_outside_strings(encode_utf8(lines(code)[i]), encode_utf8(p)),
    ensures
        line_issues(lines(code)[i], (i + 1) as nat).contains(issue_text((i + 1) as nat, advice_for(p))),
        issues_from(lines(code), 1).contains(issue_text((i + 1) as nat, advice_for(p))),
        lint_report(code) is Some,
{
    let line = lines(code)[i];
    let n = (i + 1) as nat;
    let x = issue_text(n, advice_for(p));
    let f1 = flag(line, ".unwrap()"@, n, ".unwrap() — use pattern matching or .unwrap_or() instead"@);
    let f2 = flag(line, ".expect("@, n, ".expect() — use pattern matching or .unwrap_or() instead"@);
    let f3 = flag(line, "panic!("@, n, "panic!() — handle the error gracefully instead"@);
    let f4 = flag(line, "todo!("@, n, "todo!() — provide a real implementation"@);
    let f5 = flag(line, "unimplemented!("@, n, "unimplemented!() — provide a real implementation"@);
    let li = line_issues(line, n);
    assert(li == f1 + f2 + f3 + f4 + f5);
    if p == ".unwrap()"@ {
        assert(li[0] == x);
    } else if p == ".expect("@ {
        assert(li[f1.len() as int] == x);
    } else if p == "panic!("@ {
        assert(li[(f1.len() + f2.len()) as int] == x);
    } else if p == "todo!("@ {
        assert(li[(f1.len() + f2.len() + f3.len()) as int] == x);
    } else {
        assert(li[(f1.len() + f2.len() + f3.len() + f4.len()) as int] == x);
    }
    lemma_issues_from_covers(lines(code), 1, i, x);
}

fn flag_exec(
    line: &str,
    pat: &str,
    n: usize,
    advice: &str,
    issues: &mut Vec<Vec<char>>,
)
    ensures
        final(issues).deep_view() == old(issues).deep_view() + flag(line@, pat@, n as nat, advice@),
{
    if contains_outside_string(line, pat) {
        let mut t = chars_of("  line ");
        push_decimal(&mut t, n);
        extend_str(&mut t, ": ");
        extend_str(&mut t, advice);
        let ghost before = issues@;
        let ghost before_deep = issues.deep_view();
        issues.push(t);
        assert(issues.deep_view() =~= before_deep + flag(line@, pat@, n as nat, advice@)) by {
            assert forall|k: int| 0 <= k < issues.len() implies issues.deep_view()[k] == (
            before_deep + flag(line@, pat@, n as nat, advice@))[k] by {
                if k < before.len() {
                    assert(issues@[k] == before[k]);
                }
            }
        }
    } else {
        assert(old(issues).deep_view() + flag(line@, pat@, n as nat, advice@) =~= old(issues).deep_view());
    }
}

fn line_issues_exec(line: &Vec<char>, n: usize, issues: &mut Vec<Vec<char>>)
    ensures
        final(issues).deep_view() == old(issues).deep_view() + line_issues(line@, n as nat),
{
    let trimmed = trim_chars(line);
    let slashes = chars_of("//");
    if starts_with_chars(&trimmed, &slashes) {
        assert(old(issues).deep_view() + line_issues(line@, n as nat) =~= old(issues).deep_view());
        return;
    }
    let s = string_of(line);
    let l = s.as_str();
    let ghost d0 = issues.deep_view();
    flag_exec(l, ".unwrap()", n, ".unwrap() — use pattern matching or .unwrap_or() instead", issues);
    flag_exec(l, ".expect(", n, ".expect() — use pattern matching or .unwrap_or() instead", issues);
    flag_exec(l, "panic!(", n, "panic!() — handle the error gracefully instead", issues);
    flag_exec(l, "todo!(", n, "todo!() — provide a real implementation", issues);
    flag_exec(l, "unimplemented!(", n, "unimplemented!() — provide a real implementation", issues);
    assert(issues.deep_view() =~= d0 + line_issues(line@, n as nat));
}

/// Scans generated code for panic-prone patterns.
pub fn lint_panics(code: &str) -> (res: Result<(), String>)
    ensures
        match res {
            Ok(()) => lint_report(code@) is None,
            Err(msg) => lint_report(code@) == Some(msg@),
        },
{
    let cs = chars_of(code);
    let ls = lines_of(&cs);
    let mut issues: Vec<Vec<char>> = Vec::new();
    let mut i: usize = 0;
    assert(ls.deep_view().skip(0) =~= ls.deep_view());
    while i < ls.len()
        invariant
            i <= ls.len(),
            ls.deep_view() == lines(code@),
            issues.deep_view() + issues_from(ls.deep_view().skip(i as int), (i + 1) as nat)
                == issues_from(lines(code@), 1),
        decreases ls.len() - i,
    {
        let ghost rest = ls.deep_view().skip(i as int);
        assert(rest.drop_first() =~= ls.deep_view().skip(i + 1));
        assert(rest[0] == ls[i as int]@);
        let ghost d0 = issues.deep_view();
        line_issues_exec(&ls[i], i + 1, &mut issues);
        assert(issues.deep_view() + issues_from(ls.deep_view().skip(i + 1), (i + 2) as nat) =~= d0
            + issues_from(rest, (i + 1) as nat));
        i += 1;
    }
    assert(issues.deep_view() =~= issues_from(lines(code@), 1));
    if issues.len() == 0 {
        Ok(())
    } else {
        let mut msg = chars_of("Code contains panic-prone patterns:\n");
        let sep = chars_of("\n");
        let body = join_chars(&issues, &sep);
        crate::text::extend_chars(&mut msg, &body);
        Err(string_of(&msg))
    }
}

} // verus!
