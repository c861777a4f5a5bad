//! Doctest extraction from doc comments, and the program that runs them.

use vstd::prelude::*;
use crate::text::{chars_eq, chars_of, extend_str, join, join_chars, string_of, trim, trim_chars};

verus! {

/// A line that opens a doctest block.
pub open spec fn is_open_fence(t: Seq<char>) -> bool {
    t == "```"@ || t == "```rust"@ || t == "```rs"@
}

/// A doc line inside a block, without the one space that doc comments put
/// after `///`.
pub open spec fn code_line(line: Seq<char>) -> Seq<char> {
    if line.len() > 0 && line[0] == ' ' {
        line.drop_first()
    } else {
        line
    }
}

/// The state of a pass over doc lines: the blocks closed so far, whether a
/// block is open, and the lines of the current block.
pub struct DocScan {
    pub tests: Seq<Seq<char>>,
    pub in_block: bool,
    pub block: Seq<Seq<char>>,
}

/// One doc line processed: outside a block, an opening fence starts an
/// empty block; inside, a closing fence ends it (keeping it when it has
/// lines) and any other line joins it.
pub open spec fn doc_step(st: DocScan, line: Seq<char>) -> DocScan {
    let t = trim(line);
    if !st.in_block {
        if is_open_fence(t) {
            DocScan { tests: st.tests, in_block: true, block: Seq::empty() }
        } else {
            st
        }
    } else if t == "```"@ {
        DocScan {
            tests: if st.block.len() > 0 {
                st.tests.push(join(st.block, "\n"@))
            } else {
                st.tests
            },
            in_block: false,
            block: st.block,
        }
    } else {
        DocScan { tests: st.tests, in_block: true, block: st.block.push(code_line(line)) }
    }
}

/// The state after the doc lines `docs`.
pub open spec fn scan_docs(docs: Seq<Seq<char>>) -> DocScan
    decreases docs.len(),
{
    if docs.len() == 0 {
        DocScan { tests: Seq::empty(), in_block: false, block: Seq::empty() }
    } else {
        doc_step(scan_docs(docs.drop_last()), docs.last())
    }
}

/// The doctests of a function with doc lines `docs`: the closed, non-empty
/// blocks joined by newlines, or nothing when there are none.
pub open spec fn doctests_of(docs: Seq<Seq<char>>) -> Option<Seq<char>> {
    let tests = scan_docs(docs).tests;
    if tests.len() == 0 {
        None
    } else {
        Some(join(tests, "\n"@))
    }
}

proof fn lemma_no_fence_no_block(docs: Seq<Seq<char>>)
    requires
        forall|i: int| 0 <= i < docs.len() ==> !is_open_fence(trim(#[trigger] docs[i])),
    ensures
        !scan_docs(docs).in_block,
        scan_docs(docs).tests.len() == 0,
    decreases docs.len(),
{
    if docs.len() > 0 {
        assert forall|i: int| 0 <= i < docs.drop_last().len() implies !is_open_fence(
            trim(#[trigger] docs.drop_last()[i]),
        ) by {
            assert(docs.drop_last()[i] == docs[i]);
        }
        lemma_no_fence_no_block(docs.drop_last());
        assert(!is_open_fence(trim(docs[docs.len() - 1])));
    }
}

/// Doctests come only from fenced blocks: without a doc line that opens
/// one, there are none.
pub proof fn law_no_fence_no_doctests(docs: Seq<Seq<char>>)
    requires
        forall|i: int| 0 <= i < docs.len() ==> !is_open_fence(trim(#[trigger] docs[i])),
    ensures
        doctests_of(docs) is None,
{
    lemma_no_fence_no_block(docs);
}

/// Extracts the code of the fenced blocks of a function's doc lines (the
/// values of its `doc` attributes, in order).
pub fn extract_doctests(docs: &Vec<String>) -> (res: Option<String>)
    ensures
        match res {
            Some(t) => doctests_of(docs.deep_view()) == Some(t@),
            None => doctests_of(docs.deep_view()) is None,
        },
{
    let fence = chars_of("```");
    let fence_rust = chars_of("```rust");
    let fence_rs = chars_of("```rs");
    let mut tests: Vec<Vec<char>> = Vec::new();
    let mut in_block = false;
    let mut block: Vec<Vec<char>> = Vec::new();
    let mut i: usize = 0;
    assert(tests.deep_view() =~= Seq::<Seq<char>>::empty());
    assert(block.deep_view() =~= Seq::<Seq<char>>::empty());
    assert(docs.deep_view().take(0) =~= Seq::<Seq<char>>::empty());
    while i < docs.len()
        invariant
            i <= docs.len(),
            fence@ == "```"@,
            fence_rust@ == "```rust"@,
            fence_rs@ == "```rs"@,
            scan_docs(docs.deep_view().take(i as int)) == (DocScan {
                tests: tests.deep_view(),
                in_block,
                block: block.deep_view(),
            }),
        decreases docs.len() - i,
    {
        assert(docs.deep_view().take(i + 1).drop_last() =~= docs.deep_view().take(i as int));
        assert(docs.deep_view().take(i + 1).last() == docs[i as int]@);
        let line = chars_of(docs[i].as_str());
        let t = trim_chars(&line);
        if !in_block {
            if chars_eq(&t, &fence) || chars_eq(&t, &fence_rust) || chars_eq(&t, &fence_rs) {
                in_block = true;
                block = Vec::new();
                assert(block.deep_view() =~= Seq::<Seq<char>>::empty());
            }
        } else if chars_eq(&t, &fence) {
            in_block = false;
            if block.len() > 0 {
                let sep = chars_of("\n");
                let joined = join_chars(&block, &sep);
                let ghost before = tests@;
                let ghost before_deep = tests.deep_view();
                tests.push(joined);
                assert(tests.deep_view() =~= before_deep.push(joined@)) by {
                    assert forall|k: int| 0 <= k < tests.len() implies tests.deep_view()[k]
                        == before_deep.push(joined@)[k] by {
                        if k < before.len() {
                            assert(tests@[k] == before[k]);
                        }
                    }
                }
            }
        } else {
            let code = if line.len() > 0 && line[0] == ' ' {
                crate::text::slice_chars(&line, 1, line.len())
            } else {
                line
            };
            assert(code@ =~= code_line(docs[i as int]@));
            let ghost before = block@;
            let ghost before_deep = block.deep_view();
            block.push(code);
            assert(block.deep_view() =~= before_deep.push(code_line(docs[i as int]@))) by {
                assert forall|k: int| 0 <= k < block.len() implies block.deep_view()[k]
                    == before_deep.push(code_line(docs[i as int]@))[k] by {
                    if k < before.len() {
                        assert(block@[k] == before[k]);
                    }
                }
            }
        }
        i += 1;
    }
    assert(docs.deep_view().take(docs.len() as int) =~= docs.deep_view());
    if tests.len() == 0 {
        None
    } else {
        let sep = chars_of("\n");
        let joined = join_chars(&tests, &sep);
        Some(string_of(&joined))
    }
}

/// The program that runs doctests against generated code: the code, then a
/// `main` whose body is the doctests.
pub open spec fn harness_text(code: Seq<char>, doctests: Seq<char>) -> Seq<char> {
    code + "\n\nfn main() {\n"@ + doctests + "\n}\n"@
}

/// Builds the program that runs `doctests` against `code`.
pub fn doctest_harness(code: &str, doctests: &str) -> (res: String)
    ensures
        res@ == harness_text(code@, doctests@),
{
    let mut out = chars_of(code);
    extend_str(&mut out, "\n\nfn main() {\n");
    extend_str(&mut out, doctests);
    extend_str(&mut out, "\n}\n");
    string_of(&out)
}

} // verus!
