//! The generation protocol: ask the model, check its reply, feed errors
//! back and ask again until a reply passes or the attempts run out.
//!
//! The session decides; the caller performs each step it asks for (a
//! model call, a compile check, a doctest run) and reports the result.

use vstd::prelude::*;
use crate::fences::{strip_fences, stripped_reply};
use crate::lint::{lint_panics, lint_report};
use crate::text::{chars_of, extend_str, string_of};

verus! {

/// Whether `syn::parse_str::<syn::ItemFn>` accepts a text, that is, whether
/// the text parses as one function definition.
pub uninterp spec fn spec_parses_as_fn(code: Seq<char>) -> bool;

/// Calls `syn::parse_str::<syn::ItemFn>` and gives the `to_string()` of its
/// error, if any. The contract claims only that an error comes back exactly
/// when the text does not parse as a function, a property named by
/// [`spec_parses_as_fn`]. The text of the message is left unsaid: proc-macro2
/// lexes with the compiler inside a procedural macro and with its own lexer
/// elsewhere, and the two word their errors differently.
#[verifier::external_body]
fn item_fn_parse_error(code: &str) -> (res: Option<String>)
    ensures
        res is None <==> spec_parses_as_fn(code@),
{
    syn::parse_str::<syn::ItemFn>(code).err().map(|e| e.to_string())
}

/// Whether a text parses as one function definition (as a cached or a
/// generated function must).
pub fn is_function_source(code: &str) -> (res: bool)
    ensures
        res == spec_parses_as_fn(code@),
{
    item_fn_parse_error(code).is_none()
}

/// Who wrote a message of the conversation.
#[derive(Clone, Copy, Debug, PartialEq, Eq)]
pub enum Role {
    System,
    User,
    Assistant,
}

/// One message of the conversation with the model.
pub struct ChatMessage {
    pub role: Role,
    pub content: String,
}

/// Where a session stands.
#[derive(Clone, Copy, Debug, PartialEq, Eq)]
pub enum Phase {
    Idle,
    AwaitReply,
    AwaitCompile,
    AwaitDoctests,
    Done,
}

/// Why a reply was sent back.
#[derive(Clone, Copy, Debug, PartialEq, Eq)]
pub enum Retry {
    Syntax,
    Lint,
    Compile,
    Doctests,
}

/// How a session ends.
pub enum Outcome {
    /// A reply that passed every check.
    Generated(String),
    /// No reply passed; this is the last one that parsed.
    LastParseable(String),
    /// No reply parsed: the function keeps its stub body.
    KeepStub,
}

/// What the caller must do next.
pub enum Step {
    /// Send the conversation to the model and report the reply.
    CallModel,
    /// Check that this code compiles and report the errors, if any.
    Compile(String),
    /// Compile and run this code with these doctests and report a failure.
    RunDoctests(String, String),
    /// Stop.
    Finish(Outcome),
}

pub enum OutcomeV {
    Generated(Seq<char>),
    LastParseable(Seq<char>),
    KeepStub,
}

pub enum StepV {
    CallModel,
    Compile(Seq<char>),
    RunDoctests(Seq<char>, Seq<char>),
    Finish(OutcomeV),
}

impl View for Outcome {
    type V = OutcomeV;

    open spec fn view(&self) -> OutcomeV {
        match self {
            Outcome::Generated(c) => OutcomeV::Generated(c@),
            Outcome::LastParseable(c) => OutcomeV::LastParseable(c@),
            Outcome::KeepStub => OutcomeV::KeepStub,
        }
    }
}

impl View for Step {
    type V = StepV;

    open spec fn view(&self) -> StepV {
        match self {
            Step::CallModel => StepV::CallModel,
            Step::Compile(c) => StepV::Compile(c@),
            Step::RunDoctests(c, t) => StepV::RunDoctests(c@, t@),
            Step::Finish(o) => StepV::Finish(o@),
        }
    }
}

/// The state of a session.
pub struct SessionView {
    pub retries: nat,
    pub attempt: nat,
    pub run_doctests: bool,
    pub doctests: Option<Seq<char>>,
    pub type_context: Seq<char>,
    pub messages: Seq<(Role, Seq<char>)>,
    pub last_parseable: Option<Seq<char>>,
    pub reply: Seq<char>,
    pub code: Seq<char>,
    pub check_code: Seq<char>,
    pub phase: Phase,
}

/// The feedback on a reply that does not parse.
pub open spec fn syntax_feedback(e: Seq<char>) -> Seq<char> {
    "Syntax error:\n\n"@ + e + "\n\nFix the function. Return ONLY the complete corrected function."@
}

/// The feedback on a reply that the panic lint rejects.
pub open spec fn lint_feedback(issues: Seq<char>) -> Seq<char> {
    issues
        + "\n\nNEVER use .unwrap(), .expect(), or panic!(). Use pattern matching, .unwrap_or(), or .unwrap_or_default() instead.\n\nFix the function. Return ONLY the complete corrected function."@
}

/// The feedback on a reply that does not compile; the type definitions in
/// scope are repeated when there are any.
pub open spec fn compile_feedback(errors: Seq<char>, type_context: Seq<char>) -> Seq<char> {
    let head = "The code has compile errors:\n\n"@ + errors + "\n\n"@;
    let mid = if type_context.len() > 0 {
        head
            + "Remember: these types are already in scope (use them directly, no module paths):\n\n"@
            + type_context + "\n\n"@
    } else {
        head
    };
    mid + "Fix the function. Return ONLY the complete corrected function."@
}

/// The feedback on a reply that fails its doctests.
pub open spec fn doctest_feedback(tests: Seq<char>, error: Seq<char>) -> Seq<char> {
    "The code compiles but fails at runtime. The following doctests failed:\n\n```\n"@ + tests
        + "\n```\n\nRuntime error:\n\n"@ + error
        + "\n\nFix the function so it passes these tests. Return ONLY the complete corrected function."@
}

/// The code handed to the compiler: the type definitions in scope, if any,
/// then the generated function.
pub open spec fn check_text(type_context: Seq<char>, code: Seq<char>) -> Seq<char> {
    if type_context.len() == 0 {
        code
    } else {
        type_context + "\n\n"@ + code
    }
}

/// Ending the session: with the last reply that parsed, else the stub.
pub open spec fn give_up(s: SessionView) -> (SessionView, StepV) {
    (
        SessionView { phase: Phase::Done, ..s },
        StepV::Finish(
            match s.last_parseable {
                Some(c) => OutcomeV::LastParseable(c),
                None => OutcomeV::KeepStub,
            },
        ),
    )
}

/// Sending the current reply back with `feedback`: both are added to the
/// conversation, and the model is asked again while attempts remain.
pub open spec fn retry_with(s: SessionView, feedback: Seq<char>) -> (SessionView, StepV) {
    let s1 = SessionView {
        messages: s.messages.push((Role::Assistant, s.reply)).push((Role::User, feedback)),
        ..s
    };
    if s.attempt < s.retries {
        (SessionView { attempt: s.attempt + 1, phase: Phase::AwaitReply, ..s1 }, StepV::CallModel)
    } else {
        give_up(s1)
    }
}

/// Starting: the first model call, unless no attempt is allowed.
pub open spec fn start_spec(s: SessionView) -> (SessionView, StepV) {
    if s.retries == 0 {
        give_up(s)
    } else {
        (SessionView { attempt: 1, phase: Phase::AwaitReply, ..s }, StepV::CallModel)
    }
}

/// After a reply: one that does not parse goes back with the syntax error;
/// one that parses becomes the last parseable reply, goes back when the
/// lint finds panic-prone code, and is otherwise sent to the compiler.
pub open spec fn after_parse_spec(
    s: SessionView,
    reply: Seq<char>,
    code: Seq<char>,
    parse_error: Option<Seq<char>>,
) -> (SessionView, StepV, Option<Retry>) {
    let s0 = SessionView { reply, code, ..s };
    match parse_error {
        Some(e) => {
            let (n, st) = retry_with(s0, syntax_feedback(e));
            (n, st, Some(Retry::Syntax))
        },
        None => {
            let s1 = SessionView { last_parseable: Some(code), ..s0 };
            match lint_report(code) {
                Some(issues) => {
                    let (n, st) = retry_with(s1, lint_feedback(issues));
                    (n, st, Some(Retry::Lint))
                },
                None => {
                    let cc = check_text(s.type_context, code);
                    (
                        SessionView { check_code: cc, phase: Phase::AwaitCompile, ..s1 },
                        StepV::Compile(cc),
                        None,
                    )
                },
            }
        },
    }
}

/// After the compile check: errors go back to the model; success runs the
/// doctests when they are enabled and there are some, else ends the
/// session with the code.
pub open spec fn after_compile_spec(s: SessionView, errors: Option<Seq<char>>) -> (
    SessionView,
    StepV,
    Option<Retry>,
) {
    match errors {
        Some(e) => {
            let (n, st) = retry_with(s, compile_feedback(e, s.type_context));
            (n, st, Some(Retry::Compile))
        },
        None => if s.run_doctests && s.doctests is Some {
            (
                SessionView { phase: Phase::AwaitDoctests, ..s },
                StepV::RunDoctests(s.check_code, s.doctests.unwrap()),
                None,
            )
        } else {
            (
                SessionView { phase: Phase::Done, ..s },
                StepV::Finish(OutcomeV::Generated(s.code)),
                None,
            )
        },
    }
}

/// After the doctest run: a failure goes back to the model; success ends
/// the session with the code.
pub open spec fn after_doctests_spec(s: SessionView, failure: Option<Seq<char>>) -> (
    SessionView,
    StepV,
    Option<Retry>,
) {
    match failure {
        Some(e) => {
            let (n, st) = retry_with(s, doctest_feedback(s.doctests.unwrap(), e));
            (n, st, Some(Retry::Doctests))
        },
        None => (
            SessionView { phase: Phase::Done, ..s },
            StepV::Finish(OutcomeV::Generated(s.code)),
            None,
        ),
    }
}

/// The view of an optional string.
pub open spec fn opt_text(o: Option<String>) -> Option<Seq<char>> {
    match o {
        Some(s) => Some(s@),
        None => None,
    }
}

/// The view of the conversation.
pub open spec fn messages_view(m: Seq<ChatMessage>) -> Seq<(Role, Seq<char>)> {
    Seq::new(m.len(), |i: int| (m[i].role, m[i].content@))
}

/// A generation session.
pub struct Session {
    retries: usize,
    attempt: usize,
    run_doctests: bool,
    doctests: Option<String>,
    type_context: String,
    messages: Vec<ChatMessage>,
    last_parseable: Option<String>,
    reply: String,
    code: String,
    check_code: String,
    phase: Phase,
}

impl View for Session {
    type V = SessionView;

    closed spec fn view(&self) -> SessionView {
        SessionView {
            retries: self.retries as nat,
            attempt: self.attempt as nat,
            run_doctests: self.run_doctests,
            doctests: opt_text(self.doctests),
            type_context: self.type_context@,
            messages: messages_view(self.messages@),
            last_parseable: opt_text(self.last_parseable),
            reply: self.reply@,
            code: self.code@,
            check_code: self.check_code@,
            phase: self.phase,
        }
    }
}

/// What holds of every session: attempts never exceed the allowance, the
/// last parseable reply parses, and code under a check is the lint-clean
/// last parseable reply with the type context in front.
pub open spec fn session_ok(s: SessionView) -> bool {
    &&& s.attempt <= s.retries
    &&& (s.last_parseable matches Some(c) ==> spec_parses_as_fn(c))
    &&& (s.phase is AwaitReply ==> s.attempt >= 1)
    &&& ((s.phase is AwaitCompile || s.phase is AwaitDoctests) ==> {
        &&& s.last_parseable == Some(s.code)
        &&& lint_report(s.code) is None
        &&& s.check_code == check_text(s.type_context, s.code)
    })
    &&& (s.phase is AwaitDoctests ==> s.run_doctests && s.doctests is Some)
}


/// Retrying asks the model again only while attempts remain, one attempt
/// more each time, and otherwise ends the session; so a session never
/// calls the model more often than its allowance.
pub proof fn law_retry_counts_attempts(s: SessionView, feedback: Seq<char>)
    requires
        session_ok(s),
    ensures
        retry_with(s, feedback).1 is CallModel <==> s.attempt < s.retries,
        retry_with(s, feedback).1 is CallModel ==> retry_with(s, feedback).0.attempt == s.attempt
            + 1 <= s.retries,
        !(retry_with(s, feedback).1 is CallModel) ==> retry_with(s, feedback).1 is Finish,
{
}

/// A rejected reply and the feedback on it are appended to the
/// conversation; nothing before them changes.
pub proof fn law_retry_extends_conversation(s: SessionView, feedback: Seq<char>)
    ensures
        retry_with(s, feedback).0.messages == s.messages + seq![
            (Role::Assistant, s.reply),
            (Role::User, feedback),
        ],
{
    assert(s.messages.push((Role::Assistant, s.reply)).push((Role::User, feedback)) =~= s.messages
        + seq![(Role::Assistant, s.reply), (Role::User, feedback)]);
}

/// A reply is never accepted before it has been compiled: handling a
/// reply ends the session only by giving up.
pub proof fn law_reply_not_accepted_unchecked(
    s: SessionView,
    reply: Seq<char>,
    code: Seq<char>,
    parse_error: Option<Seq<char>>,
)
    ensures
        !(after_parse_spec(s, reply, code, parse_error).1 matches StepV::Finish(
            OutcomeV::Generated(_),
        )),
{
}

/// Code that a session accepts passed the parse and the panic lint, and
/// was the code sent to the compiler (and to the doctests when they ran).
pub proof fn law_accepted_code_is_checked(s: SessionView, result: Option<Seq<char>>)
    requires
        session_ok(s),
        s.phase is AwaitCompile || s.phase is AwaitDoctests,
    ensures
        s.phase is AwaitCompile ==> (after_compile_spec(s, result).1 matches StepV::Finish(
            OutcomeV::Generated(c),
        ) ==> result is None && spec_parses_as_fn(c) && lint_report(c) is None
            && !(s.run_doctests && s.doctests is Some)),
        s.phase is AwaitDoctests ==> (after_doctests_spec(s, result).1 matches StepV::Finish(
            OutcomeV::Generated(c),
        ) ==> result is None && spec_parses_as_fn(c) && lint_report(c) is None),
{
}

/// When a session gives up with the last parseable reply, that reply
/// parses as a function.
pub proof fn law_fallback_parses(s: SessionView)
    requires
        session_ok(s),
    ensures
        give_up(s).1 matches StepV::Finish(OutcomeV::LastParseable(c)) ==> spec_parses_as_fn(c),
{
}

/// What giving up yields for a session: the most recent reply that parsed,
/// or the stub when none did.
pub open spec fn fallback_of(last_parseable: Option<Seq<char>>) -> OutcomeV {
    match last_parseable {
        Some(c) => OutcomeV::LastParseable(c),
        None => OutcomeV::KeepStub,
    }
}

/// A reply that does not parse leaves the fallback as it was, and a reply
/// that parses becomes the fallback; when handling a reply ends the session,
/// it ends with that fallback (or with the stub only when no reply of the
/// session parsed).
pub proof fn law_reply_updates_fallback(
    s: SessionView,
    reply: Seq<char>,
    code: Seq<char>,
    parse_error: Option<Seq<char>>,
)
    ensures
        parse_error is Some ==> after_parse_spec(s, reply, code, parse_error).0.last_parseable
            == s.last_parseable,
        parse_error is None ==> after_parse_spec(s, reply, code, parse_error).0.last_parseable
            == Some(code),
        after_parse_spec(s, reply, code, parse_error).1 matches StepV::Finish(o) ==> o
            == fallback_of(after_parse_spec(s, reply, code, parse_error).0.last_parseable),
        parse_error is Some && after_parse_spec(s, reply, code, parse_error).1 is Finish ==> (
        after_parse_spec(s, reply, code, parse_error).1 == StepV::Finish(
            fallback_of(s.last_parseable),
        )),
{
}

/// The compile check and the doctest run never change the fallback, and
/// when a failure there ends the session it ends with the fallback.
pub proof fn law_checks_keep_fallback(s: SessionView, result: Option<Seq<char>>)
    ensures
        after_compile_spec(s, result).0.last_parseable == s.last_parseable,
        after_doctests_spec(s, result).0.last_parseable == s.last_parseable,
        result is Some ==> (after_compile_spec(s, result).1 matches StepV::Finish(o) ==> o
            == fallback_of(s.last_parseable)),
        result is Some ==> (after_doctests_spec(s, result).1 matches StepV::Finish(o) ==> o
            == fallback_of(s.last_parseable)),
{
}

/// A reply that parsed but failed to compile stays the fallback when the
/// next reply does not parse: if that ends the session, the outcome is the
/// earlier reply, not the stub.
pub proof fn law_parsed_reply_survives_later_syntax_error(
    s: SessionView,
    r1: Seq<char>,
    c1: Seq<char>,
    errors: Seq<char>,
    r2: Seq<char>,
    c2: Seq<char>,
    e2: Seq<char>,
)
    requires
        after_parse_spec(s, r1, c1, None).1 is Compile,
        after_compile_spec(after_parse_spec(s, r1, c1, None).0, Some(errors)).1 is CallModel,
    ensures
        ({
            let s1 = after_parse_spec(s, r1, c1, None).0;
            let s2 = after_compile_spec(s1, Some(errors)).0;
            let (s3, st, _) = after_parse_spec(s2, r2, c2, Some(e2));
            &&& s3.last_parseable == Some(c1)
            &&& st is Finish ==> st == StepV::Finish(OutcomeV::LastParseable(c1))
        }),
{
    let s1 = after_parse_spec(s, r1, c1, None).0;
    law_reply_updates_fallback(s, r1, c1, None);
    let s2 = after_compile_spec(s1, Some(errors)).0;
    law_checks_keep_fallback(s1, Some(errors));
    law_reply_updates_fallback(s2, r2, c2, Some(e2));
}

/// `part` occurs in `text`.
pub open spec fn contains_text(text: Seq<char>, part: Seq<char>) -> bool {
    exists|k: int| 0 <= k && k + part.len() <= text.len() && #[trigger] text.subrange(k, k + part.len()) == part
}

/// A rejected reply is answered with feedback that quotes why: the
/// compiler's errors (and the type definitions in scope, when there are
/// any), the failed doctests and their error, or the parser's message.
pub proof fn law_feedback_quotes_the_failure(
    errors: Seq<char>,
    type_context: Seq<char>,
    tests: Seq<char>,
)
    ensures
        contains_text(compile_feedback(errors, type_context), errors),
        type_context.len() > 0 ==> contains_text(compile_feedback(errors, type_context), type_context),
        contains_text(doctest_feedback(tests, errors), tests),
        contains_text(doctest_feedback(tests, errors), errors),
        contains_text(syntax_feedback(errors), errors),
        contains_text(lint_feedback(errors), errors),
{
    let h = "The code has compile errors:\n\n"@;
    let c = compile_feedback(errors, type_context);
    assert(c.subrange(h.len() as int, (h.len() + errors.len()) as int) =~= errors);
    if type_context.len() > 0 {
        let m = h + errors + "\n\n"@
            + "Remember: these types are already in scope (use them directly, no module paths):\n\n"@;
        assert(c.subrange(m.len() as int, (m.len() + type_context.len()) as int) =~= type_context);
    }
    let d = doctest_feedback(tests, errors);
    let dh = "The code compiles but fails at runtime. The following doctests failed:\n\n```\n"@;
    assert(d.subrange(dh.len() as int, (dh.len() + tests.len()) as int) =~= tests);
    let dm = dh + tests + "\n```\n\nRuntime error:\n\n"@;
    assert(d.subrange(dm.len() as int, (dm.len() + errors.len()) as int) =~= errors);
    let sh = "Syntax error:\n\n"@;
    assert(syntax_feedback(errors).subrange(sh.len() as int, (sh.len() + errors.len()) as int) =~= errors);
    let z: int = 0;
    assert(lint_feedback(errors).subrange(z, z + errors.len()) =~= errors);
}

/// A reply that compiles is never sent back and never replaced by the
/// fallback: the session either runs the doctests (when they are enabled
/// and there are some) or ends with that very code.
pub proof fn law_compiled_code_kept(s: SessionView)
    ensures
        after_compile_spec(s, None).2 is None,
        s.run_doctests && s.doctests is Some ==> after_compile_spec(s, None).1 is RunDoctests,
        !(s.run_doctests && s.doctests is Some) ==> after_compile_spec(s, None).1 == StepV::Finish(
            OutcomeV::Generated(s.code),
        ),
        after_doctests_spec(s, None).1 == StepV::Finish(OutcomeV::Generated(s.code)),
        after_compile_spec(s, None).0.messages == s.messages,
{
}

fn push_message(messages: &mut Vec<ChatMessage>, role: Role, content: String)
    ensures
        messages_view(final(messages)@) == messages_view(old(messages)@).push((role, content@)),
{
    let ghost before = messages@;
    messages.push(ChatMessage { role, content });
    assert(messages_view(messages@) =~= messages_view(before).push((role, content@))) by {
        assert forall|k: int| 0 <= k < messages@.len() implies messages_view(messages@)[k]
            == messages_view(before).push((role, content@))[k] by {
            if k < before.len() {
                assert(messages@[k] == before[k]);
            }
        }
    }
}

fn clone_text(o: &Option<String>) -> (res: Option<String>)
    ensures
        opt_text(res) == opt_text(*o),
{
    match o {
        Some(s) => Some(s.clone()),
        None => None,
    }
}

impl Session {
    #[verifier::type_invariant]
    closed spec fn inv(self) -> bool {
        session_ok(self@)
    }

    /// A session that has not started: the conversation holds the system
    /// prompt and the user prompt.
    pub fn new(
        retries: usize,
        run_doctests: bool,
        doctests: Option<String>,
        type_context: String,
        system: String,
        user: String,
    ) -> (res: Session)
        ensures
            res@ == (SessionView {
                retries: retries as nat,
                attempt: 0,
                run_doctests,
                doctests: opt_text(doctests),
                type_context: type_context@,
                messages: seq![(Role::System, system@), (Role::User, user@)],
                last_parseable: None,
                reply: Seq::empty(),
                code: Seq::empty(),
                check_code: Seq::empty(),
                phase: Phase::Idle,
            }),
    {
        let mut messages: Vec<ChatMessage> = Vec::new();
        assert(messages_view(messages@) =~= Seq::<(Role, Seq<char>)>::empty());
        push_message(&mut messages, Role::System, system);
        push_message(&mut messages, Role::User, user);
        assert(messages_view(messages@) =~= seq![(Role::System, system@), (Role::User, user@)]);
        Session {
            retries,
            attempt: 0,
            run_doctests,
            doctests,
            type_context,
            messages,
            last_parseable: None,
            reply: String::new(),
            code: String::new(),
            check_code: String::new(),
            phase: Phase::Idle,
        }
    }

    /// The conversation so far.
    pub fn messages(&self) -> (res: &Vec<ChatMessage>)
        ensures
            messages_view(res@) == self@.messages,
    {
        &self.messages
    }

    /// The current attempt (1-based once started).
    pub fn attempt(&self) -> (res: usize)
        ensures
            res == self@.attempt,
    {
        self.attempt
    }

    /// The number of attempts allowed.
    pub fn retries(&self) -> (res: usize)
        ensures
            res == self@.retries,
    {
        self.retries
    }

    /// Where the session stands.
    pub fn phase(&self) -> (res: Phase)
        ensures
            res == self@.phase,
    {
        self.phase
    }

    fn give_up(self) -> (res: (Session, Step))
        ensures
            (res.0@, res.1@) == give_up(self@),
    {
        proof {
            use_type_invariant(&self);
        }
        let outcome = match &self.last_parseable {
            Some(c) => Outcome::LastParseable(c.clone()),
            None => Outcome::KeepStub,
        };
        (Session { phase: Phase::Done, ..self }, Step::Finish(outcome))
    }

    fn retry_with(self, feedback: String) -> (res: (Session, Step))
        ensures
            (res.0@, res.1@) == retry_with(self@, feedback@),
    {
        proof {
            use_type_invariant(&self);
        }
        let ghost s = self@;
        let Session {
            retries,
            attempt,
            run_doctests,
            doctests,
            type_context,
            mut messages,
            last_parseable,
            reply,
            code,
            check_code,
            phase,
        } = self;
        push_message(&mut messages, Role::Assistant, reply.clone());
        push_message(&mut messages, Role::User, feedback);
        if attempt < retries {
            (
                Session {
                    retries,
                    attempt: attempt + 1,
                    run_doctests,
                    doctests,
                    type_context,
                    messages,
                    last_parseable,
                    reply,
                    code,
                    check_code,
                    phase: Phase::AwaitReply,
                },
                Step::CallModel,
            )
        } else {
            let next = Session {
                retries,
                attempt,
                run_doctests,
                doctests,
                type_context,
                messages,
                last_parseable,
                reply,
                code,
                check_code,
                phase,
            };
            next.give_up()
        }
    }

    /// Starts the session.
    pub fn start(self) -> (res: (Session, Step))
        requires
            self@.phase is Idle,
        ensures
            (res.0@, res.1@) == start_spec(self@),
            session_ok(res.0@),
    {
        proof {
            use_type_invariant(&self);
        }
        let res = if self.retries == 0 {
            self.give_up()
        } else {
            (Session { attempt: 1, phase: Phase::AwaitReply, ..self }, Step::CallModel)
        };
        proof {
            use_type_invariant(&res.0);
        }
        res
    }

    /// The model could not be reached: the session ends.
    pub fn reply_failed(self) -> (res: (Session, Step))
        requires
            self@.phase is AwaitReply,
        ensures
            (res.0@, res.1@) == give_up(self@),
            session_ok(res.0@),
    {
        let res = self.give_up();
        proof {
            use_type_invariant(&res.0);
        }
        res
    }

    /// Handles a reply of the model: its fence is stripped and the code is
    /// parsed as a function. Whatever message the parser gives, the step is
    /// the one that [`after_parse_spec`] gives for it, and a message comes
    /// exactly when the stripped code does not parse.
    pub fn on_reply(self, content: String) -> (res: (Session, Step, Option<Retry>))
        requires
            self@.phase is AwaitReply,
        ensures
            exists|e: Option<Seq<char>>|
                {
                    &&& (e is None <==> spec_parses_as_fn(stripped_reply(content@)))
                    &&& (res.0@, res.1@, res.2) == after_parse_spec(
                        self@,
                        content@,
                        stripped_reply(content@),
                        e,
                    )
                },
            session_ok(res.0@),
    {
        let code = strip_fences(content.as_str());
        let parse_error = item_fn_parse_error(code.as_str());
        let ghost e = opt_text(parse_error);
        let res = self.after_parse(content, code, parse_error);
        assert(e is None <==> spec_parses_as_fn(stripped_reply(content@)));
        res
    }

    /// Handles a reply once its code has been parsed, given the parse
    /// error, if any.
    pub fn after_parse(self, reply: String, code: String, parse_error: Option<String>) -> (res: (
        Session,
        Step,
        Option<Retry>,
    ))
        requires
            self@.phase is AwaitReply,
            parse_error is None <==> spec_parses_as_fn(code@),
        ensures
            (res.0@, res.1@, res.2) == after_parse_spec(self@, reply@, code@, opt_text(parse_error)),
            session_ok(res.0@),
    {
        proof {
            use_type_invariant(&self);
        }
        let res = match parse_error {
            Some(e) => {
                let mut t = chars_of("Syntax error:\n\n");
                extend_str(&mut t, e.as_str());
                extend_str(&mut t, "\n\nFix the function. Return ONLY the complete corrected function.");
                let fb = string_of(&t);
                let s0 = Session { reply, code, ..self };
                let (n, st) = s0.retry_with(fb);
                (n, st, Some(Retry::Syntax))
            },
            None => {
                let lint = lint_panics(code.as_str());
                match lint {
                    Err(issues) => {
                        let mut t = chars_of(issues.as_str());
                        extend_str(
                            &mut t,
                            "\n\nNEVER use .unwrap(), .expect(), or panic!(). Use pattern matching, .unwrap_or(), or .unwrap_or_default() instead.\n\nFix the function. Return ONLY the complete corrected function.",
                        );
                        let fb = string_of(&t);
                        let s1 = Session {
                            reply,
                            last_parseable: Some(code.clone()),
                            code,
                            ..self
                        };
                        let (n, st) = s1.retry_with(fb);
                        (n, st, Some(Retry::Lint))
                    },
                    Ok(()) => {
                        let cc = if self.type_context.as_str().is_empty() {
                            code.clone()
                        } else {
                            let mut t = chars_of(self.type_context.as_str());
                            extend_str(&mut t, "\n\n");
                            extend_str(&mut t, code.as_str());
                            string_of(&t)
                        };
                        let step = Step::Compile(cc.clone());
                        (
                            Session {
                                reply,
                                last_parseable: Some(code.clone()),
                                code,
                                check_code: cc,
                                phase: Phase::AwaitCompile,
                                ..self
                            },
                            step,
                            None,
                        )
                    },
                }
            },
        };
        proof {
            use_type_invariant(&res.0);
        }
        res
    }

    /// Handles the result of the compile check: the errors, if any.
    pub fn on_compile_result(self, errors: Option<String>) -> (res: (Session, Step, Option<Retry>))
        requires
            self@.phase is AwaitCompile,
        ensures
            (res.0@, res.1@, res.2) == after_compile_spec(self@, opt_text(errors)),
            session_ok(res.0@),
    {
        proof {
            use_type_invariant(&self);
        }
        let res = match errors {
            Some(e) => {
                let mut t = chars_of("The code has compile errors:\n\n");
                extend_str(&mut t, e.as_str());
                extend_str(&mut t, "\n\n");
                if !self.type_context.as_str().is_empty() {
                    extend_str(
                        &mut t,
                        "Remember: these types are already in scope (use them directly, no module paths):\n\n",
                    );
                    extend_str(&mut t, self.type_context.as_str());
                    extend_str(&mut t, "\n\n");
                }
                extend_str(&mut t, "Fix the function. Return ONLY the complete corrected function.");
                let fb = string_of(&t);
                let (n, st) = self.retry_with(fb);
                (n, st, Some(Retry::Compile))
            },
            None => {
                if self.run_doctests && self.doctests.is_some() {
                    let tests = clone_text(&self.doctests);
                    let step = match tests {
                        Some(t) => Step::RunDoctests(self.check_code.clone(), t),
                        None => Step::CallModel,
                    };
                    (Session { phase: Phase::AwaitDoctests, ..self }, step, None)
                } else {
                    let code = self.code.clone();
                    (
                        Session { phase: Phase::Done, ..self },
                        Step::Finish(Outcome::Generated(code)),
                        None,
                    )
                }
            },
        };
        proof {
            use_type_invariant(&res.0);
        }
        res
    }

    /// Handles the doctest run: the failure, if any.
    pub fn on_doctest_result(self, failure: Option<String>) -> (res: (Session, Step, Option<Retry>))
        requires
            self@.phase is AwaitDoctests,
        ensures
            (res.0@, res.1@, res.2) == after_doctests_spec(self@, opt_text(failure)),
            session_ok(res.0@),
    {
        proof {
            use_type_invariant(&self);
        }
        let res = match failure {
            Some(e) => {
                let tests = clone_text(&self.doctests);
                let t = match tests {
                    Some(t) => t,
                    None => String::new(),
                };
                let mut b = chars_of(
                    "The code compiles but fails at runtime. The following doctests failed:\n\n```\n",
                );
                extend_str(&mut b, t.as_str());
                extend_str(&mut b, "\n```\n\nRuntime error:\n\n");
                extend_str(&mut b, e.as_str());
                extend_str(
                    &mut b,
                    "\n\nFix the function so it passes these tests. Return ONLY the complete corrected function.",
                );
                let fb = string_of(&b);
                let (n, st) = self.retry_with(fb);
                (n, st, Some(Retry::Doctests))
            },
            None => {
                let code = self.code.clone();
                (
                    Session { phase: Phase::Done, ..self },
                    Step::Finish(Outcome::Generated(code)),
                    None,
                )
            },
        };
        proof {
            use_type_invariant(&res.0);
        }
        res
    }
}

} // verus!
