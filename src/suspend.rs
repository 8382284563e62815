use vstd::prelude::*;
use crate::args::Flavor;

verus! {

/// A function body as written: plain code and the suspension constructs in it.
#[derive(Debug, PartialEq)]
pub enum Code {
    /// Code without suspension points.
    Plain(String),
    /// `<expr>.await`
    Await(Box<Code>),
    /// `yield <expr>`
    Yield(Box<Code>),
    /// `#[for_await] for <pat> in <source> { <body> }` at token index `at`;
    /// the pattern may be missing.
    ForAwait { pat: Option<String>, source: Box<Code>, body: Box<Code>, at: usize },
    /// One part, then the next.
    Then(Box<Code>, Box<Code>),
    /// A nested block.
    Scope(Box<Code>),
    /// A nested closure, async block or item: its own callable unit, left as written.
    Nested(String),
}

/// The body after rewriting: each suspension construct is now explicit.
#[derive(Debug, PartialEq)]
pub enum Gen {
    Plain(String),
    /// Polls the future against the resumption context until it is ready;
    /// each pending poll suspends and takes the context handed back.
    PollAwait(Box<Gen>),
    /// Suspends once and emits the value.
    Emit(Box<Gen>),
    /// Suspends once and emits `Ok(v)`; an `Err(e)` is emitted last, after
    /// which the generator completes.
    EmitTry(Box<Gen>),
    /// Pins a cursor over the source and polls it: pending suspends, an item
    /// binds the pattern and runs the body, exhaustion leaves the loop.
    CursorLoop { pat: String, source: Box<Gen>, body: Box<Gen>, at: usize },
    Then(Box<Gen>, Box<Gen>),
    Scope(Box<Gen>),
    Nested(String),
}

/// Why a body cannot be rewritten.
#[derive(Clone, Copy, PartialEq, Eq, Structural, Debug)]
pub enum StructuralError {
    /// A `for await` loop without its iteration pattern, at the loop's index.
    MissingPattern { at: usize },
}

/// The rewritten body, or the first structural error in textual order.
pub open spec fn rewrite(c: Code, flavor: Flavor) -> Result<Gen, StructuralError>
    decreases c,
{
    match c {
        Code::Plain(s) => Ok(Gen::Plain(s)),
        Code::Nested(s) => Ok(Gen::Nested(s)),
        Code::Await(e) => match rewrite(*e, flavor) {
            Ok(g) => Ok(Gen::PollAwait(Box::new(g))),
            Err(x) => Err(x),
        },
        Code::Yield(e) => match rewrite(*e, flavor) {
            Ok(g) => Ok(
                if flavor == Flavor::Stream {
                    Gen::Emit(Box::new(g))
                } else {
                    Gen::EmitTry(Box::new(g))
                },
            ),
            Err(x) => Err(x),
        },
        Code::ForAwait { pat, source, body, at } => match pat {
            None => Err(StructuralError::MissingPattern { at }),
            Some(p) => match rewrite(*source, flavor) {
                Err(x) => Err(x),
                Ok(s) => match rewrite(*body, flavor) {
                    Err(x) => Err(x),
                    Ok(b) => Ok(Gen::CursorLoop { pat: p, source: Box::new(s), body: Box::new(b), at }),
                },
            },
        },
        Code::Then(a, b) => match rewrite(*a, flavor) {
            Err(x) => Err(x),
            Ok(ga) => match rewrite(*b, flavor) {
                Err(x) => Err(x),
                Ok(gb) => Ok(Gen::Then(Box::new(ga), Box::new(gb))),
            },
        },
        Code::Scope(a) => match rewrite(*a, flavor) {
            Err(x) => Err(x),
            Ok(g) => Ok(Gen::Scope(Box::new(g))),
        },
    }
}

/// The number of suspension constructs in a body, outside nested units.
pub open spec fn suspensions(c: Code) -> nat
    decreases c,
{
    match c {
        Code::Plain(_) | Code::Nested(_) => 0,
        Code::Await(e) => 1 + suspensions(*e),
        Code::Yield(e) => 1 + suspensions(*e),
        Code::ForAwait { source, body, .. } => 1 + suspensions(*source) + suspensions(*body),
        Code::Then(a, b) => suspensions(*a) + suspensions(*b),
        Code::Scope(a) => suspensions(*a),
    }
}

/// The number of explicit suspend constructs in a rewritten body.
pub open spec fn suspends(g: Gen) -> nat
    decreases g,
{
    match g {
        Gen::Plain(_) | Gen::Nested(_) => 0,
        Gen::PollAwait(e) => 1 + suspends(*e),
        Gen::Emit(e) => 1 + suspends(*e),
        Gen::EmitTry(e) => 1 + suspends(*e),
        Gen::CursorLoop { source, body, .. } => 1 + suspends(*source) + suspends(*body),
        Gen::Then(a, b) => suspends(*a) + suspends(*b),
        Gen::Scope(a) => suspends(*a),
    }
}

/// The body that a rewritten one stands for: each suspend construct back in
/// the place, and at the depth, of the construct it came from.
pub open spec fn erase(g: Gen) -> Code
    decreases g,
{
    match g {
        Gen::Plain(s) => Code::Plain(s),
        Gen::Nested(s) => Code::Nested(s),
        Gen::PollAwait(e) => Code::Await(Box::new(erase(*e))),
        Gen::Emit(e) => Code::Yield(Box::new(erase(*e))),
        Gen::EmitTry(e) => Code::Yield(Box::new(erase(*e))),
        Gen::CursorLoop { pat, source, body, at } => Code::ForAwait {
            at,
            pat: Some(pat),
            source: Box::new(erase(*source)),
            body: Box::new(erase(*body)),
        },
        Gen::Then(a, b) => Code::Then(Box::new(erase(*a)), Box::new(erase(*b))),
        Gen::Scope(a) => Code::Scope(Box::new(erase(*a))),
    }
}

/// Rewrites every `.await`, `yield` and `for await` of the body, in textual
/// order, without entering nested units.
pub fn visit(c: Code, flavor: Flavor) -> (r: Result<Gen, StructuralError>)
    ensures
        r == rewrite(c, flavor),
    decreases c,
{
    match c {
        Code::Plain(s) => Ok(Gen::Plain(s)),
        Code::Nested(s) => Ok(Gen::Nested(s)),
        Code::Await(e) => match visit(*e, flavor) {
            Ok(g) => Ok(Gen::PollAwait(Box::new(g))),
            Err(x) => Err(x),
        },
        Code::Yield(e) => match visit(*e, flavor) {
            Ok(g) => Ok(
                if flavor == Flavor::Stream {
                    Gen::Emit(Box::new(g))
                } else {
                    Gen::EmitTry(Box::new(g))
                },
            ),
            Err(x) => Err(x),
        },
        Code::ForAwait { pat, source, body, at } => match pat {
            None => Err(StructuralError::MissingPattern { at }),
            Some(p) => match visit(*source, flavor) {
                Err(x) => Err(x),
                Ok(s) => match visit(*body, flavor) {
                    Err(x) => Err(x),
                    Ok(b) => Ok(Gen::CursorLoop { pat: p, source: Box::new(s), body: Box::new(b), at }),
                },
            },
        },
        Code::Then(a, b) => match visit(*a, flavor) {
            Err(x) => Err(x),
            Ok(ga) => match visit(*b, flavor) {
                Err(x) => Err(x),
                Ok(gb) => Ok(Gen::Then(Box::new(ga), Box::new(gb))),
            },
        },
        Code::Scope(a) => match visit(*a, flavor) {
            Err(x) => Err(x),
            Ok(g) => Ok(Gen::Scope(Box::new(g))),
        },
    }
}

/// Every suspension construct of the body becomes exactly one suspend
/// construct, and the rewritten body stands for the given one, construct
/// for construct at the same nesting depth.
pub proof fn lemma_suspension_complete(c: Code, flavor: Flavor)
    ensures
        rewrite(c, flavor) matches Ok(g) ==> suspends(g) == suspensions(c) && erase(g) == c,
    decreases c,
{
    match c {
        Code::Await(e) => lemma_suspension_complete(*e, flavor),
        Code::Yield(e) => lemma_suspension_complete(*e, flavor),
        Code::ForAwait { source, body, .. } => {
            lemma_suspension_complete(*source, flavor);
            lemma_suspension_complete(*body, flavor);
        },
        Code::Then(a, b) => {
            lemma_suspension_complete(*a, flavor);
            lemma_suspension_complete(*b, flavor);
        },
        Code::Scope(a) => lemma_suspension_complete(*a, flavor),
        _ => {},
    }
}

/// The only structural error is a `for await` without its pattern.
pub proof fn lemma_rewrite_fails_only_on_missing_pattern(c: Code, flavor: Flavor)
    ensures
        rewrite(c, flavor) is Err <==> !well_formed(c),
    decreases c,
{
    match c {
        Code::Await(e) => lemma_rewrite_fails_only_on_missing_pattern(*e, flavor),
        Code::Yield(e) => lemma_rewrite_fails_only_on_missing_pattern(*e, flavor),
        Code::ForAwait { source, body, .. } => {
            lemma_rewrite_fails_only_on_missing_pattern(*source, flavor);
            lemma_rewrite_fails_only_on_missing_pattern(*body, flavor);
        },
        Code::Then(a, b) => {
            lemma_rewrite_fails_only_on_missing_pattern(*a, flavor);
            lemma_rewrite_fails_only_on_missing_pattern(*b, flavor);
        },
        Code::Scope(a) => lemma_rewrite_fails_only_on_missing_pattern(*a, flavor),
        _ => {},
    }
}

/// Every `for await` of the body names its pattern.
pub open spec fn well_formed(c: Code) -> bool
    decreases c,
{
    match c {
        Code::Plain(_) | Code::Nested(_) => true,
        Code::Await(e) => well_formed(*e),
        Code::Yield(e) => well_formed(*e),
        Code::ForAwait { pat, source, body, .. } => pat is Some && well_formed(*source) && well_formed(
            *body,
        ),
        Code::Then(a, b) => well_formed(*a) && well_formed(*b),
        Code::Scope(a) => well_formed(*a),
    }
}


/// The generator's code at the level of the suspend/resume protocol. `cx` is
/// the resumption context, threaded through every suspension.
#[derive(Debug, PartialEq)]
pub enum Step {
    Text(String),
    Nested(String),
    Then(Box<Step>, Box<Step>),
    Scope(Box<Step>),
    /// `let mut __pinned = <future>;`, pinned in place.
    PinFuture(Box<Step>),
    /// `let mut __cursor = <stream>;`, pinned in place.
    PinCursor(Box<Step>),
    /// `loop { <body> }`
    Loop(Box<Step>),
    /// `match __pinned.poll(cx) { Ready(v) => <ready>, Pending => <pending> }`
    PollFuture { ready: Box<Step>, pending: Box<Step> },
    /// `match __cursor.poll_next(cx) { Ready(Some(<pat>)) => <item>,
    /// Ready(None) => <done>, Pending => <pending> }`
    PollNext { pat: String, item: Box<Step>, done: Box<Step>, pending: Box<Step> },
    /// `cx = yield Poll::Pending;`: suspends, and resumes with a fresh context.
    Suspend,
    /// `cx = yield Poll::Ready(<value>);`: suspends once, emitting the value.
    SuspendEmit(Box<Step>),
    /// `match <value> { Ok(v) => <ok>, Err(e) => <err> }`
    SplitResult { value: Box<Step>, ok: Box<Step>, err: Box<Step> },
    /// `Ok(v)`, of the value bound by `SplitResult`.
    OkValue,
    /// `Err(e)`, of the error bound by `SplitResult`.
    ErrValue,
    /// `break v`, with the ready value.
    BreakReady,
    /// `break`
    Break,
    /// `return` with the completion value: the generator completes.
    Complete,
}

/// What each rewritten construct runs as.
pub open spec fn lower_spec(g: Gen) -> Step
    decreases g,
{
    match g {
        Gen::Plain(s) => Step::Text(s),
        Gen::Nested(s) => Step::Nested(s),
        Gen::Then(a, b) => Step::Then(Box::new(lower_spec(*a)), Box::new(lower_spec(*b))),
        Gen::Scope(a) => Step::Scope(Box::new(lower_spec(*a))),
        Gen::PollAwait(e) => Step::Scope(
            Box::new(
                Step::Then(
                    Box::new(Step::PinFuture(Box::new(lower_spec(*e)))),
                    Box::new(
                        Step::Loop(
                            Box::new(
                                Step::PollFuture {
                                    ready: Box::new(Step::BreakReady),
                                    pending: Box::new(Step::Suspend),
                                },
                            ),
                        ),
                    ),
                ),
            ),
        ),
        Gen::Emit(e) => Step::SuspendEmit(Box::new(lower_spec(*e))),
        Gen::EmitTry(e) => Step::SplitResult {
            value: Box::new(lower_spec(*e)),
            ok: Box::new(Step::SuspendEmit(Box::new(Step::OkValue))),
            err: Box::new(
                Step::Then(
                    Box::new(Step::SuspendEmit(Box::new(Step::ErrValue))),
                    Box::new(Step::Complete),
                ),
            ),
        },
        Gen::CursorLoop { pat, source, body, .. } => Step::Scope(
            Box::new(
                Step::Then(
                    Box::new(Step::PinCursor(Box::new(lower_spec(*source)))),
                    Box::new(
                        Step::Loop(
                            Box::new(
                                Step::PollNext {
                                    pat,
                                    item: Box::new(lower_spec(*body)),
                                    done: Box::new(Step::Break),
                                    pending: Box::new(Step::Suspend),
                                },
                            ),
                        ),
                    ),
                ),
            ),
        ),
    }
}

/// Expands every suspend construct into the steps of the protocol: an await
/// polls a pinned future in a loop, suspending while it is pending and
/// breaking with its value; a yield suspends once with `Ready(value)`, in a
/// `TryStream` wrapped in `Ok`, or as a final `Err` after which the generator
/// completes; a `for await` polls a pinned cursor in a loop, suspending while
/// it is pending, running the body on each item and leaving on exhaustion.
pub fn lower(g: Gen) -> (r: Step)
    ensures
        r == lower_spec(g),
    decreases g,
{
    match g {
        Gen::Plain(s) => Step::Text(s),
        Gen::Nested(s) => Step::Nested(s),
        Gen::Then(a, b) => Step::Then(Box::new(lower(*a)), Box::new(lower(*b))),
        Gen::Scope(a) => Step::Scope(Box::new(lower(*a))),
        Gen::PollAwait(e) => {
            let poll = Step::PollFuture {
                ready: Box::new(Step::BreakReady),
                pending: Box::new(Step::Suspend),
            };
            Step::Scope(
                Box::new(
                    Step::Then(
                        Box::new(Step::PinFuture(Box::new(lower(*e)))),
                        Box::new(Step::Loop(Box::new(poll))),
                    ),
                ),
            )
        },
        Gen::Emit(e) => Step::SuspendEmit(Box::new(lower(*e))),
        Gen::EmitTry(e) => Step::SplitResult {
            value: Box::new(lower(*e)),
            ok: Box::new(Step::SuspendEmit(Box::new(Step::OkValue))),
            err: Box::new(
                Step::Then(
                    Box::new(Step::SuspendEmit(Box::new(Step::ErrValue))),
                    Box::new(Step::Complete),
                ),
            ),
        },
        Gen::CursorLoop { pat, source, body, .. } => {
            let poll = Step::PollNext {
                pat,
                item: Box::new(lower(*body)),
                done: Box::new(Step::Break),
                pending: Box::new(Step::Suspend),
            };
            Step::Scope(
                Box::new(
                    Step::Then(
                        Box::new(Step::PinCursor(Box::new(lower(*source)))),
                        Box::new(Step::Loop(Box::new(poll))),
                    ),
                ),
            )
        },
    }
}

} // verus!
