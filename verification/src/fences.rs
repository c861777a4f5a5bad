//! Removal of a markdown code fence around a model reply.

use vstd::prelude::*;
use crate::text::{
    chars_of, ends_with_chars, is_prefix, is_suffix, is_ws, lemma_trim_end_take, lemma_trim_start_skip,
    slice_chars, string_of, trim, trim_chars, trim_end, trim_end_chars, trim_start,
};

verus! {

/// `k` backticks.
pub open spec fn backticks(k: nat) -> Seq<char> {
    Seq::new(k, |i: int| '`')
}

/// The number of backticks that `s` starts with.
pub open spec fn leading_backticks(s: Seq<char>) -> nat
    decreases s.len(),
{
    if s.len() > 0 && s[0] == '`' {
        1 + leading_backticks(s.drop_first())
    } else {
        0
    }
}

/// The index of the first `c` in `s`, if any.
pub open spec fn find_char(s: Seq<char>, c: char) -> Option<nat>
    decreases s.len(),
{
    if s.len() == 0 {
        None
    } else if s[0] == c {
        Some(0)
    } else {
        match find_char(s.drop_first(), c) {
            Some(k) => Some(k + 1),
            None => None,
        }
    }
}

/// A reply with its fence removed. The reply is trimmed; when it opens
/// with at least three backticks, the opening line (with its language tag)
/// is dropped, and a closing run of the same backticks (or, for a longer
/// opening run, of three) at the end is dropped too, and what is left is
/// trimmed. A reply that is not fenced this way comes back trimmed.
pub open spec fn stripped_reply(input: Seq<char>) -> Seq<char> {
    let s = trim(input);
    let n = leading_backticks(s);
    if n < 3 {
        s
    } else {
        match find_char(s.skip(n as int), '\n') {
            None => s,
            Some(nl) => {
                let body = trim_end(s.skip(n as int).skip(nl + 1 as int));
                if is_suffix(backticks(n), body) {
                    trim(body.take(body.len() - n))
                } else if n > 3 && is_suffix(backticks(3), body) {
                    trim(body.take(body.len() - 3))
                } else {
                    s
                }
            }
        }
    }
}

proof fn lemma_leading_backticks(s: Seq<char>, i: int)
    requires
        0 <= i <= s.len(),
        forall|k: int| 0 <= k < i ==> s[k] == '`',
    ensures
        leading_backticks(s) == i + leading_backticks(s.skip(i)),
    decreases i,
{
    if i > 0 {
        assert(s.drop_first().skip(i - 1) =~= s.skip(i));
        lemma_leading_backticks(s.drop_first(), i - 1);
    } else {
        assert(s.skip(0) =~= s);
    }
}

proof fn lemma_find_char_at(s: Seq<char>, c: char, m: int)
    requires
        0 <= m <= s.len(),
        forall|k: int| 0 <= k < m ==> s[k] != c,
    ensures
        m < s.len() && s[m] == c ==> find_char(s, c) == Some(m as nat),
        m == s.len() ==> find_char(s, c) is None,
    decreases m,
{
    if m > 0 {
        lemma_find_char_at(s.drop_first(), c, m - 1);
    }
}

fn backtick_run(k: usize) -> (res: Vec<char>)
    ensures
        res@ == backticks(k as nat),
{
    let mut v: Vec<char> = Vec::new();
    let mut i: usize = 0;
    while i < k
        invariant
            i <= k,
            v@ == backticks(i as nat),
        decreases k - i,
    {
        v.push('`');
        assert(v@ =~= backticks((i + 1) as nat));
        i += 1;
    }
    v
}

/// Strips a markdown code fence from a model reply.
pub fn strip_fences(s: &str) -> (res: String)
    ensures
        res@ == stripped_reply(s@),
{
    let cs = chars_of(s);
    let t = trim_chars(&cs);
    let mut n: usize = 0;
    while n < t.len() && t[n] == '`'
        invariant
            n <= t.len(),
            forall|k: int| 0 <= k < n ==> t@[k] == '`',
        decreases t.len() - n,
    {
        n += 1;
    }
    proof {
        lemma_leading_backticks(t@, n as int);
    }
    assert(leading_backticks(t@.skip(n as int)) == 0);
    if n < 3 {
        return string_of(&t);
    }
    let ghost rest = t@.skip(n as int);
    let mut j: usize = n;
    while j < t.len() && t[j] != '\n'
        invariant
            n <= j <= t.len(),
            rest == t@.skip(n as int),
            forall|k: int| 0 <= k < j - n ==> rest[k] != '\n',
        decreases t.len() - j,
    {
        j += 1;
    }
    proof {
        lemma_find_char_at(rest, '\n', j - n);
    }
    if j == t.len() {
        return string_of(&t);
    }
    let after = slice_chars(&t, j + 1, t.len());
    assert(after@ =~= rest.skip(j - n + 1));
    let body = trim_end_chars(&after);
    let fence = backtick_run(n);
    if ends_with_chars(&body, &fence) {
        let inner = slice_chars(&body, 0, body.len() - n);
        assert(inner@ =~= body@.take(body@.len() - n));
        let out = trim_chars(&inner);
        return string_of(&out);
    }
    if n > 3 {
        let three = backtick_run(3);
        if ends_with_chars(&body, &three) {
            let inner = slice_chars(&body, 0, body.len() - 3);
            assert(inner@ =~= body@.take(body@.len() - 3));
            let out = trim_chars(&inner);
            return string_of(&out);
        }
    }
    string_of(&t)
}


proof fn lemma_trim_start_concat(c: Seq<char>, d: Seq<char>)
    ensures
        trim_start(c + d) == if trim_start(c).len() > 0 {
            trim_start(c) + d
        } else {
            trim_start(d)
        },
    decreases c.len(),
{
    if c.len() == 0 {
        assert(c + d =~= d);
    } else {
        assert((c + d)[0] == c[0]);
        assert((c + d).drop_first() =~= c.drop_first() + d);
        if is_ws(c[0]) {
            lemma_trim_start_concat(c.drop_first(), d);
        }
    }
}

proof fn lemma_trim_newline(code: Seq<char>)
    ensures
        trim(code.push('\n')) == trim(code),
{
    let nl = seq!['\n'];
    assert(code.push('\n') =~= code + nl);
    lemma_trim_start_concat(code, nl);
    if trim_start(code).len() > 0 {
        let t = trim_start(code);
        assert((t + nl).drop_last() =~= t);
        assert(is_ws((t + nl).last()));
    } else {
        assert(is_ws(nl[0]));
        assert(nl.drop_first().len() == 0);
        assert(trim_start(nl) == trim_start(nl.drop_first()));
        assert(trim_start(nl).len() == 0);
    }
}

proof fn lemma_trim_start_shape(s: Seq<char>)
    ensures
        trim_start(s).len() > 0 ==> !is_ws(trim_start(s)[0]),
        trim_start(s).len() <= s.len(),
    decreases s.len(),
{
    if s.len() > 0 && is_ws(s[0]) {
        lemma_trim_start_shape(s.drop_first());
    }
}

proof fn lemma_trim_end_shape(s: Seq<char>)
    ensures
        trim_end(s).len() > 0 ==> !is_ws(trim_end(s).last()),
        trim_end(s).len() <= s.len(),
        forall|k: int| 0 <= k < trim_end(s).len() ==> trim_end(s)[k] == s[k],
    decreases s.len(),
{
    if s.len() > 0 && is_ws(s.last()) {
        lemma_trim_end_shape(s.drop_last());
        assert forall|k: int| 0 <= k < trim_end(s).len() implies trim_end(s)[k] == s[k] by {
            assert(trim_end(s)[k] == s.drop_last()[k]);
        }
    }
}

proof fn lemma_trim_shape(s: Seq<char>)
    ensures
        trim(s).len() > 0 ==> !is_ws(trim(s)[0]) && !is_ws(trim(s).last()),
{
    lemma_trim_start_shape(s);
    lemma_trim_end_shape(trim_start(s));
}

/// The cleaned reply neither starts nor ends with whitespace.
pub proof fn law_reply_is_trimmed(input: Seq<char>)
    ensures
        stripped_reply(input).len() > 0 ==> !is_ws(stripped_reply(input)[0]) && !is_ws(
            stripped_reply(input).last(),
        ),
{
    let s = trim(input);
    lemma_trim_shape(input);
    let n = leading_backticks(s);
    if n >= 3 {
        match find_char(s.skip(n as int), '\n') {
            None => {},
            Some(nl) => {
                let body = trim_end(s.skip(n as int).skip(nl + 1 as int));
                if is_suffix(backticks(n), body) {
                    lemma_trim_shape(body.take(body.len() - n));
                } else if n > 3 && is_suffix(backticks(3), body) {
                    lemma_trim_shape(body.take(body.len() - 3));
                }
            },
        }
    }
}

/// A reply written as an opening fence of three backticks with a language
/// tag, a newline, the code, a newline and a closing fence comes back as
/// the code, trimmed.
pub proof fn law_fenced_block_unwraps(lang: Seq<char>, code: Seq<char>)
    requires
        forall|k: int| 0 <= k < lang.len() ==> lang[k] != '\n',
        lang.len() > 0 ==> lang[0] != '`',
    ensures
        stripped_reply(backticks(3) + lang + seq!['\n'] + code + seq!['\n'] + backticks(3)) == trim(
            code,
        ),
{
    let bt = backticks(3);
    let x = bt + lang + seq!['\n'] + code + seq!['\n'] + bt;
    // The reply is already trimmed: it starts and ends with a backtick.
    assert(x[0] == '`');
    assert(x.last() == '`');
    assert(trim_start(x) == x);
    assert(trim_end(x) == x);
    // It opens with exactly three backticks.
    let rest = lang + seq!['\n'] + code + seq!['\n'] + bt;
    assert(x.skip(3) =~= rest);
    lemma_leading_backticks(x, 3);
    assert(rest[0] != '`');
    assert(leading_backticks(rest) == 0);
    // The opening line ends right after the language tag.
    assert(rest[lang.len() as int] == '\n');
    lemma_find_char_at(rest, '\n', lang.len() as int);
    let body = code + seq!['\n'] + bt;
    assert(rest.skip(lang.len() + 1 as int) =~= body);
    assert(body.last() == '`');
    assert(trim_end(body) == body);
    assert(body.skip(body.len() - 3) =~= bt);
    assert(body.take(body.len() - 3) =~= code.push('\n'));
    lemma_trim_newline(code);
}

/// Whitespace around a reply does not change how it is cleaned: the reply
/// and its trimmed text give the same result.
pub proof fn law_surrounding_whitespace_ignored(input: Seq<char>)
    ensures
        stripped_reply(trim(input)) == stripped_reply(input),
{
    let t = trim(input);
    lemma_trim_shape(input);
    if t.len() > 0 {
        assert(trim_start(t) == t);
        assert(trim_end(t) == t);
    } else {
        assert(trim_start(t) == t);
        assert(trim_end(t) == t);
    }
    assert(trim(t) == t);
}

/// A fenced reply (as in [`law_fenced_block_unwraps`]) with any whitespace
/// before and after it still comes back as the code, trimmed.
pub proof fn law_fenced_block_unwraps_with_whitespace(
    before: Seq<char>,
    lang: Seq<char>,
    code: Seq<char>,
    after: Seq<char>,
)
    requires
        forall|k: int| 0 <= k < lang.len() ==> lang[k] != '\n',
        lang.len() > 0 ==> lang[0] != '`',
        forall|k: int| 0 <= k < before.len() ==> is_ws(before[k]),
        forall|k: int| 0 <= k < after.len() ==> is_ws(after[k]),
    ensures
        stripped_reply(
            before + (backticks(3) + lang + seq!['\n'] + code + seq!['\n'] + backticks(3)) + after,
        ) == trim(code),
{
    let x = backticks(3) + lang + seq!['\n'] + code + seq!['\n'] + backticks(3);
    let w = before + x + after;
    assert(x[0] == '`');
    assert(x.last() == '`');
    lemma_trim_start_skip(w, before.len() as int);
    assert(w.skip(before.len() as int) =~= x + after);
    assert((x + after)[0] == '`');
    assert(trim_start(x + after) == x + after);
    lemma_trim_end_take(x + after, x.len() as int);
    assert((x + after).take(x.len() as int) =~= x);
    assert(trim_end(x) == x);
    assert(trim(w) == x);
    law_surrounding_whitespace_ignored(w);
    law_fenced_block_unwraps(lang, code);
}

/// A reply that does not open (after its whitespace) with three backticks
/// is only trimmed.
pub proof fn law_unfenced_reply_trimmed(input: Seq<char>)
    requires
        !is_prefix(backticks(3), trim(input)),
    ensures
        stripped_reply(input) == trim(input),
{
    let s = trim(input);
    if leading_backticks(s) >= 3 {
        lemma_backticks_prefix(s, 3);
    }
}

proof fn lemma_backticks_prefix(s: Seq<char>, k: nat)
    requires
        leading_backticks(s) >= k,
    ensures
        is_prefix(backticks(k), s),
    decreases k,
{
    if k > 0 {
        lemma_backticks_prefix(s.drop_first(), (k - 1) as nat);
        assert(s.take(k as int) =~= seq![s[0]] + s.drop_first().take(k - 1));
        assert(backticks(k) =~= seq!['`'] + backticks((k - 1) as nat));
    } else {
        assert(s.take(0) =~= backticks(0));
    }
}

} // verus!
