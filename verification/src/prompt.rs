//! The prompts sent to the model.

use vstd::prelude::*;
use crate::text::{chars_of, extend_str, is_prefix, join, join_chars, string_of};

verus! {

/// The instructions that open every conversation with the model.
pub const SYSTEM_PROMPT: &'static str = "You are a Rust expert code generator. You receive a Rust function with \
         doc comments and a stub body. Generate a correct, compiling implementation. \
         Return ONLY the complete function definition (including `fn`, signature, and \
         body). No markdown fences, no explanation, no imports outside the function. \
         Any type definitions shown in the prompt are already in scope — use them \
         directly without module paths or `use` statements. \
         NEVER use .unwrap(), .expect(), panic!(), todo!(), or unimplemented!() — handle errors gracefully \
         with pattern matching, .unwrap_or(), .unwrap_or_default(), or early returns. \
         If the doc comments contain ``` code blocks with assertions, those will be \
         compiled and run as tests — the function MUST pass them. Make no Mistakes.";

/// The system prompt: the instructions, then the crate's dependencies when
/// there are any.
pub open spec fn system_prompt(deps: Seq<char>) -> Seq<char> {
    if deps.len() == 0 {
        SYSTEM_PROMPT@
    } else {
        SYSTEM_PROMPT@ + "\n\nThe crate has these dependencies available:\n"@ + deps
    }
}

/// Builds the system prompt for a crate whose dependency list is `deps`.
pub fn build_system_prompt(deps: &str) -> (res: String)
    ensures
        res@ == system_prompt(deps@),
{
    let mut prompt = chars_of(SYSTEM_PROMPT);
    if !deps.is_empty() {
        extend_str(&mut prompt, "\n\nThe crate has these dependencies available:\n");
        extend_str(&mut prompt, deps);
    }
    string_of(&prompt)
}

/// The user prompt: the function's source, then the type definitions its
/// signature uses, then the extra context file (when not empty), then the
/// hint.
pub open spec fn user_prompt(
    source: Seq<char>,
    context_file: Option<Seq<char>>,
    type_context: Seq<char>,
    hint: Option<Seq<char>>,
) -> Seq<char> {
    let p0 = "Implement this Rust function. The doc comments and body are context hints:\n\n"@
        + source;
    let p1 = if type_context.len() > 0 {
        p0 + "\n\nThe following type definitions are used in the signature:\n\n"@ + type_context
    } else {
        p0
    };
    let p2 = match context_file {
        Some(ctx) => if ctx.len() > 0 {
            p1 + "\n\nHere are additional type definitions and context from the project:\n\n"@ + ctx
        } else {
            p1
        },
        None => p1,
    };
    match hint {
        Some(h) => p2 + "\n\nHint: "@ + h,
        None => p2,
    }
}

/// The view of an optional string slice.
pub open spec fn opt_view(o: Option<&str>) -> Option<Seq<char>> {
    match o {
        Some(s) => Some(s@),
        None => None,
    }
}

/// Builds the user prompt for a function.
pub fn build_user_prompt(
    source: &str,
    context_file: Option<&str>,
    type_context: &str,
    hint: Option<&str>,
) -> (res: String)
    ensures
        res@ == user_prompt(source@, opt_view(context_file), type_context@, opt_view(hint)),
{
    let mut prompt = chars_of(
        "Implement this Rust function. The doc comments and body are context hints:\n\n",
    );
    extend_str(&mut prompt, source);
    if !type_context.is_empty() {
        extend_str(&mut prompt, "\n\nThe following type definitions are used in the signature:\n\n");
        extend_str(&mut prompt, type_context);
    }
    if let Some(ctx) = context_file {
        if !ctx.is_empty() {
            extend_str(
                &mut prompt,
                "\n\nHere are additional type definitions and context from the project:\n\n",
            );
            extend_str(&mut prompt, ctx);
        }
    }
    if let Some(h) = hint {
        extend_str(&mut prompt, "\n\nHint: ");
        extend_str(&mut prompt, h);
    }
    string_of(&prompt)
}

/// A hint is appended to the prompt whenever one is given, whatever the
/// context file and the type definitions: the prompt with the hint is the
/// prompt without it, then a blank line, `Hint: ` and the hint.
pub proof fn law_hint_always_appended(
    source: Seq<char>,
    context_file: Option<Seq<char>>,
    type_context: Seq<char>,
    h: Seq<char>,
)
    ensures
        user_prompt(source, context_file, type_context, Some(h)) == user_prompt(
            source,
            context_file,
            type_context,
            None,
        ) + "\n\nHint: "@ + h,
{
}

/// The prompt always opens with the instruction and the function's source,
/// whatever else is given.
pub proof fn law_prompt_opens_with_source(
    source: Seq<char>,
    context_file: Option<Seq<char>>,
    type_context: Seq<char>,
    hint: Option<Seq<char>>,
)
    ensures
        is_prefix(
            "Implement this Rust function. The doc comments and body are context hints:\n\n"@
                + source,
            user_prompt(source, context_file, type_context, hint),
        ),
{
    let head = "Implement this Rust function. The doc comments and body are context hints:\n\n"@
        + source;
    let p = user_prompt(source, context_file, type_context, hint);
    assert(exists|rest: Seq<char>| p == head + rest) by {
        let p1 = if type_context.len() > 0 {
            "\n\nThe following type definitions are used in the signature:\n\n"@ + type_context
        } else {
            Seq::empty()
        };
        let p2 = match context_file {
            Some(ctx) => if ctx.len() > 0 {
                "\n\nHere are additional type definitions and context from the project:\n\n"@
                    + ctx
            } else {
                Seq::empty()
            },
            None => Seq::empty(),
        };
        let p3 = match hint {
            Some(h) => "\n\nHint: "@ + h,
            None => Seq::empty(),
        };
        assert(p =~= head + (p1 + p2 + p3));
    }
    let rest = choose|rest: Seq<char>| p == head + rest;
    assert(p.take(head.len() as int) =~= head);
}

/// Non-empty type definitions follow the source under their heading: the
/// prompt with them is the prompt without them plus the heading and the
/// definitions (with no context file or hint after them).
pub proof fn law_type_context_appended(source: Seq<char>, type_context: Seq<char>)
    requires
        type_context.len() > 0,
    ensures
        user_prompt(source, None, type_context, None) == user_prompt(source, None, Seq::empty(), None)
            + "\n\nThe following type definitions are used in the signature:\n\n"@
            + type_context,
{
}

/// A non-empty context file follows the source and the type definitions
/// under its heading: the prompt with it is the prompt without it plus the
/// heading and the file (the hint, if any, still comes last).
pub proof fn law_context_file_appended(source: Seq<char>, type_context: Seq<char>, ctx: Seq<char>)
    requires
        ctx.len() > 0,
    ensures
        user_prompt(source, Some(ctx), type_context, None) == user_prompt(
            source,
            None,
            type_context,
            None,
        ) + "\n\nHere are additional type definitions and context from the project:\n\n"@
            + ctx,
{
}

/// An empty context file adds nothing: it gives the prompt that no context
/// file gives.
pub proof fn law_empty_context_file_ignored(
    source: Seq<char>,
    type_context: Seq<char>,
    hint: Option<Seq<char>>,
)
    ensures
        user_prompt(source, Some(Seq::empty()), type_context, hint) == user_prompt(
            source,
            None,
            type_context,
            hint,
        ),
{
}

/// Each doc line as a `///` comment.
pub open spec fn doc_comment_lines(docs: Seq<Seq<char>>) -> Seq<Seq<char>> {
    Seq::new(docs.len(), |k: int| "///"@ + docs[k])
}

/// The function as shown to the model: each doc line as a `///` comment,
/// then the function without its doc attributes.
pub open spec fn pretty_source(docs: Seq<Seq<char>>, bare: Seq<char>) -> Seq<char> {
    if docs.len() == 0 {
        bare
    } else {
        join(doc_comment_lines(docs).push(bare), "\n"@)
    }
}

/// Writes a function back with `///` doc comments, given its doc lines and
/// the text of the function without its doc attributes.
pub fn prettify_source(docs: &Vec<String>, bare: &str) -> (res: String)
    ensures
        res@ == pretty_source(docs.deep_view(), bare@),
{
    let mut lines: Vec<Vec<char>> = Vec::new();
    let ghost dv = docs.deep_view();
    let mut i: usize = 0;
    assert(lines.deep_view() =~= doc_comment_lines(dv.take(0)));
    while i < docs.len()
        invariant
            i <= docs.len(),
            dv == docs.deep_view(),
            dv.len() == docs.len(),
            lines.len() == i,
            forall|k: int| 0 <= k < i ==> #[trigger] lines@[k]@ == "///"@ + dv[k],
        decreases docs.len() - i,
    {
        let mut l = chars_of("///");
        extend_str(&mut l, docs[i].as_str());
        assert(l@ == "///"@ + dv[i as int]);
        lines.push(l);
        i += 1;
    }
    assert(lines.deep_view() =~= doc_comment_lines(dv)) by {
        assert forall|k: int| 0 <= k < lines.len() implies lines.deep_view()[k]
            == doc_comment_lines(dv)[k] by {
            assert(lines@[k]@ == "///"@ + dv[k]);
        }
    }
    if lines.len() == 0 {
        return String::from_str(bare);
    }
    let b = chars_of(bare);
    let ghost before = lines@;
    let ghost before_deep = lines.deep_view();
    lines.push(b);
    assert(lines.deep_view() =~= before_deep.push(bare@)) by {
        assert forall|k: int| 0 <= k < lines.len() implies lines.deep_view()[k] == before_deep.push(
            bare@,
        )[k] by {
            if k < before.len() {
                assert(lines@[k] == before[k]);
            }
        }
    }
    let sep = chars_of("\n");
    let joined = join_chars(&lines, &sep);
    string_of(&joined)
}

} // verus!
