use vstd::prelude::*;
use crate::args::{
    opt_view, ArgError, ArgFailure, ArgToken, Flavor, ReturnTypeKind, StreamArg, TryStreamArg, stream_arg_spec,
    try_stream_arg_spec,
};
use crate::capture::{
    Binding, FnArg, Lifetime, contains_lt, lt_eq, copy_lifetimes, fresh_of, resolve, desugared_arg, expand_async_body, gained,
    lifetimes_of, prologue_of, unelide_lifetimes, unelided,
};
use crate::suspend::{Code, Gen, StructuralError, rewrite, suspends, visit};

verus! {

/// What the generator returns when its body completes without suspending.
#[derive(Clone, Copy, PartialEq, Eq, Structural, Debug)]
pub enum Completion {
    /// `()`, for a `Stream`.
    Unit,
    /// `Ok(())`, for a `TryStream`.
    OkUnit,
}

/// The generator-producing expression that replaces a body.
#[derive(Debug, PartialEq)]
pub struct GenBody {
    /// Which runtime constructor wraps the closure.
    pub flavor: Flavor,
    /// Whether the closure captures by `move`.
    pub capture_move: bool,
    /// Statements run first, before the body.
    pub prologue: Vec<Binding>,
    pub body: Gen,
    pub completion: Completion,
    /// The error type in the closure's `Result<(), E>` return type; `None`
    /// leaves it to inference, and a `Stream` has none.
    pub error_type: Option<Vec<ArgToken>>,
    /// The unreachable `loop { yield Poll::Pending }` after the completion,
    /// which makes the closure a generator whatever its body holds.
    pub trailing_suspend: bool,
    /// Whether the expression is wrapped in `Box::pin`.
    pub boxed: bool,
}

pub open spec fn completion_of(flavor: Flavor) -> Completion {
    if flavor == Flavor::Stream {
        Completion::Unit
    } else {
        Completion::OkUnit
    }
}

/// The number of suspend points that classify the closure as a generator.
pub open spec fn generator_suspends(b: GenBody) -> nat {
    suspends(b.body) + if b.trailing_suspend {
        1nat
    } else {
        0nat
    }
}

/// Wraps a rewritten body into the generator closure of the runtime.
pub fn make_gen_body(
    capture_move: bool,
    prologue: Vec<Binding>,
    body: Gen,
    flavor: Flavor,
    error: Option<Vec<ArgToken>>,
    boxed: bool,
) -> (r: GenBody)
    ensures
        r.flavor == flavor,
        r.capture_move == capture_move,
        r.prologue == prologue,
        r.body == body,
        r.completion == completion_of(flavor),
        r.error_type == (if flavor == Flavor::Stream {
            None
        } else {
            error
        }),
        r.trailing_suspend,
        r.boxed == boxed,
        generator_suspends(r) >= 1,
{
    let (completion, error_type) = match flavor {
        Flavor::Stream => (Completion::Unit, None),
        Flavor::TryStream => (Completion::OkUnit, error),
    };
    GenBody {
        flavor,
        capture_move,
        prologue,
        body,
        completion,
        error_type,
        trailing_suspend: true,
        boxed,
    }
}

/// The item type of the produced sequence.
#[derive(Debug, PartialEq)]
pub enum ItemKind {
    /// `Item = T`
    Stream { item: Vec<ArgToken> },
    /// `Item = Result<T, E>`
    TryStream { ok: Vec<ArgToken>, error: Vec<ArgToken> },
}

/// The synthesized return type: `impl Stream<..> + 'a + ..` by default, or
/// `Pin<Box<dyn Stream<..> (+ Send) + 'a + ..>>` when boxed.
#[derive(Debug, PartialEq)]
pub struct ReturnType {
    pub item: ItemKind,
    pub kind: ReturnTypeKind,
    pub bounds: Vec<Lifetime>,
}

/// A function as the attribute receives it.
pub struct FnSig {
    pub attrs: Vec<String>,
    pub vis: String,
    /// `unsafe`, `extern "C"` and the like, as written.
    pub qualifiers: String,
    pub name: String,
    /// The generic lifetime parameters.
    pub lifetimes: Vec<Lifetime>,
    /// The other generic parameters, as written.
    pub type_params: String,
    pub where_clause: String,
    pub inputs: Vec<FnArg>,
    pub block: Code,
    /// A declaration without a body, ended by `;`.
    pub semi: bool,
}

/// The function that replaces the annotated one.
#[derive(Debug, PartialEq)]
pub struct Artifact {
    pub attrs: Vec<String>,
    pub vis: String,
    pub qualifiers: String,
    pub name: String,
    pub lifetimes: Vec<Lifetime>,
    pub type_params: String,
    pub where_clause: String,
    pub params: Vec<FnArg>,
    pub return_type: ReturnType,
    /// `None` for a declaration without a body.
    pub body: Option<GenBody>,
}

/// Why a transformation produced nothing.
#[derive(Clone, Copy, PartialEq, Eq, Structural, Debug)]
pub enum TransformError {
    Argument(ArgFailure),
    Body(StructuralError),
}

/// The rewritten function: signature, return type and body, as each input
/// determines it.
pub open spec fn inner_post(
    sig: FnSig,
    flavor: Flavor,
    error: Option<Seq<ArgToken>>,
    kind: ReturnTypeKind,
    r: Result<Artifact, TransformError>,
) -> bool {
    match rewrite(sig.block, flavor) {
        Err(e) => r == Err::<Artifact, TransformError>(TransformError::Body(e)),
        Ok(g) => r matches Ok(a) && {
            &&& a.attrs == sig.attrs
            &&& a.vis == sig.vis
            &&& a.qualifiers == sig.qualifiers
            &&& a.name == sig.name
            &&& a.type_params == sig.type_params
            &&& a.where_clause == sig.where_clause
            &&& a.return_type.kind == kind
            &&& a.params@.len() == sig.inputs@.len()
            &&& forall|i: int|
                0 <= i < sig.inputs@.len() ==> unelided(
                    desugared_arg(sig.inputs@[i], i),
                    #[trigger] a.params@[i],
                    i,
                )
            &&& a.lifetimes@ == sig.lifetimes@ + fresh_of(sig.inputs@, sig.inputs@.len() as int)
            &&& gained(sig.lifetimes@, a.lifetimes@, sig.inputs@)
            &&& a.return_type.bounds@ == a.lifetimes@
            &&& forall|i: int, s: int|
                0 <= i < sig.inputs@.len() && 0 <= s < lifetimes_of(sig.inputs@[i]).len() && (
                #[trigger] lifetimes_of(sig.inputs@[i])[s]) is Elided ==> contains_lt(
                    a.lifetimes@,
                    lifetimes_of(a.params@[i])[s],
                )
            &&& if sig.semi {
                a.body is None
            } else {
                a.body matches Some(b) && {
                    &&& b.flavor == flavor
                    &&& b.capture_move
                    &&& b.prologue@ == prologue_of(sig.inputs@, sig.inputs@.len() as int)
                    &&& b.body == g
                    &&& b.completion == completion_of(flavor)
                    &&& opt_view(b.error_type) == (if flavor == Flavor::Stream {
                        None
                    } else {
                        error
                    })
                    &&& b.trailing_suspend
                    &&& b.boxed == (kind is Boxed)
                }
            }
        },
    }
}

/// Rewrites the body and the parameters of a function and synthesizes its
/// return type from the item type, the boxing mode and its lifetimes.
pub fn parse_fn_inner(
    sig: FnSig,
    flavor: Flavor,
    error: Option<Vec<ArgToken>>,
    item: ItemKind,
    kind: ReturnTypeKind,
) -> (r: Result<Artifact, TransformError>)
    ensures
        inner_post(sig, flavor, opt_view(error), kind, r),
        r matches Ok(a) ==> a.return_type.item == item,
{
    let ghost s0 = sig;
    let FnSig {
        attrs,
        vis,
        qualifiers,
        name,
        lifetimes,
        type_params,
        where_clause,
        inputs,
        block,
        semi,
    } = sig;
    let g = match visit(block, flavor) {
        Ok(g) => g,
        Err(e) => return Err(TransformError::Body(e)),
    };
    let ghost inputs0 = inputs@;
    let (arguments, statements) = expand_async_body(inputs);
    let body = if semi {
        None
    } else {
        Some(make_gen_body(true, statements, g, flavor, error, kind.is_boxed()))
    };
    let mut lifetimes = lifetimes;
    let params = unelide_lifetimes(&mut lifetimes, arguments);
    let bounds = copy_lifetimes(&lifetimes);
    let ghost t = arguments@;
    assert forall|i: int| 0 <= i < inputs0.len() implies #[trigger] t[i] == desugared_arg(inputs0[i], i) by {}
    proof {
        lemma_fresh_of_desugared(inputs0, t, inputs0.len() as int);
    }
    assert forall|i: int, s: int|
        0 <= i < inputs0.len() && 0 <= s < lifetimes_of(inputs0[i]).len() && (
        #[trigger] lifetimes_of(inputs0[i])[s]) is Elided implies contains_lt(
            lifetimes@,
            lifetimes_of(params@[i])[s],
        ) by {
        assert(t[i] == desugared_arg(inputs0[i], i));
        assert(lifetimes_of(t[i]) == lifetimes_of(inputs0[i]));
    }
    assert(gained(s0.lifetimes@, lifetimes@, inputs0)) by {
        assert forall|j: int| s0.lifetimes@.len() <= j < lifetimes@.len() implies {
            &&& (#[trigger] lifetimes@[j]) is Fresh
            &&& lifetimes@[j]->param < inputs0.len()
            &&& lifetimes@[j]->slot < lifetimes_of(inputs0[lifetimes@[j]->param as int]).len()
            &&& lifetimes_of(inputs0[lifetimes@[j]->param as int])[lifetimes@[j]->slot as int] is Elided
        } by {
            let p = lifetimes@[j]->param as int;
            assert(t[p] == desugared_arg(inputs0[p], p));
            assert(lifetimes_of(t[p]) == lifetimes_of(inputs0[p]));
        }
    }
    Ok(Artifact {
        attrs,
        vis,
        qualifiers,
        name,
        lifetimes,
        type_params,
        where_clause,
        params,
        return_type: ReturnType { item, kind, bounds },
        body,
    })
}


fn copy_tokens(v: &Vec<ArgToken>) -> (r: Vec<ArgToken>)
    ensures
        r@ == v@,
{
    let mut r: Vec<ArgToken> = Vec::new();
    let mut j: usize = 0;
    while j < v.len()
        invariant
            j <= v@.len(),
            r@ == v@.subrange(0, j as int),
        decreases v.len() - j,
    {
        r.push(v[j].duplicate());
        j = j + 1;
    }
    r
}

/// What the arguments select, or why they were refused: the item types, the
/// error type that the generator closure names, and the boxing mode.
pub open spec fn request_of(args: Seq<ArgToken>, flavor: Flavor) -> Result<
    (Seq<ArgToken>, Option<Seq<ArgToken>>, Option<Seq<ArgToken>>, ReturnTypeKind),
    ArgFailure,
> {
    if flavor == Flavor::Stream {
        match stream_arg_spec(args) {
            Ok((item, kind)) => Ok((item, None, None, kind)),
            Err(e) => Err(e),
        }
    } else {
        match try_stream_arg_spec(args) {
            Ok((ok, error, kind)) => Ok((ok, Some(error), Some(error), kind)),
            Err(e) => Err(e),
        }
    }
}

/// The item kind matches the request: `item`, or `ok` and `error`.
pub open spec fn item_matches(item: ItemKind, first: Seq<ArgToken>, second: Option<Seq<ArgToken>>) -> bool {
    match item {
        ItemKind::Stream { item } => second is None && item@ == first,
        ItemKind::TryStream { ok, error } => second == Some(error@) && ok@ == first,
    }
}

/// Parses the attribute's arguments for a function and rewrites it.
pub fn parse_fn(args: &Vec<ArgToken>, sig: FnSig, flavor: Flavor) -> (r: Result<
    Artifact,
    TransformError,
>)
    ensures
        match request_of(args@, flavor) {
            Err(e) => r == Err::<Artifact, TransformError>(TransformError::Argument(e)),
            Ok((first, second, error, kind)) => inner_post(sig, flavor, error, kind, r) && (r matches Ok(
                a,
            ) ==> item_matches(a.return_type.item, first, second)),
        },
{
    match flavor {
        Flavor::Stream => {
            let StreamArg { item_ty, boxed } = match StreamArg::parse(args) {
                Ok(a) => a,
                Err(e) => return Err(TransformError::Argument(e)),
            };
            parse_fn_inner(sig, flavor, None, ItemKind::Stream { item: item_ty }, boxed)
        },
        Flavor::TryStream => {
            let TryStreamArg { ok, error, boxed } = match TryStreamArg::parse(args) {
                Ok(a) => a,
                Err(e) => return Err(TransformError::Argument(e)),
            };
            let e = copy_tokens(&error);
            parse_fn_inner(sig, flavor, Some(e), ItemKind::TryStream { ok, error }, boxed)
        },
    }
}

/// Rewrites a bare async block into a generator expression; its error type,
/// for a `TryStream`, is left to inference.
pub fn parse_async(capture_move: bool, block: Code, flavor: Flavor) -> (r: Result<
    GenBody,
    TransformError,
>)
    ensures
        match rewrite(block, flavor) {
            Err(e) => r == Err::<GenBody, TransformError>(TransformError::Body(e)),
            Ok(g) => r matches Ok(b) && {
                &&& b.flavor == flavor
                &&& b.capture_move == capture_move
                &&& b.prologue@.len() == 0
                &&& b.body == g
                &&& b.completion == completion_of(flavor)
                &&& b.error_type is None
                &&& b.trailing_suspend
                &&& !b.boxed
            },
        },
{
    let g = match visit(block, flavor) {
        Ok(g) => g,
        Err(e) => return Err(TransformError::Body(e)),
    };
    Ok(make_gen_body(capture_move, Vec::new(), g, flavor, None, false))
}

/// What the attribute is applied to.
pub enum Input {
    Fn(FnSig),
    /// A bare async block, possibly `move`, possibly ended by `;`.
    Async { capture_move: bool, block: Code, semi: bool },
}

/// What replaces it.
#[derive(Debug, PartialEq)]
pub enum Output {
    Function(Artifact),
    Block { body: GenBody, semi: bool },
}

/// What the transformation of one input yields.
pub open spec fn attribute_post(
    args: Seq<ArgToken>,
    input: Input,
    flavor: Flavor,
    r: Result<Output, TransformError>,
) -> bool {
        match input {
            Input::Fn(sig) => match request_of(args, flavor) {
                Err(e) => r == Err::<Output, TransformError>(TransformError::Argument(e)),
                Ok((first, second, error, kind)) => match rewrite(sig.block, flavor) {
                    Err(e) => r == Err::<Output, TransformError>(TransformError::Body(e)),
                    Ok(_) => r matches Ok(Output::Function(a)) && inner_post(
                        sig,
                        flavor,
                        error,
                        kind,
                        Ok(a),
                    ) && item_matches(a.return_type.item, first, second),
                },
            },
            Input::Async { capture_move, block, semi } => if args.len() > 0 {
                r == Err::<Output, TransformError>(TransformError::Argument(ArgFailure { error: ArgError::Unexpected, at: 0 }))
            } else {
                match rewrite(block, flavor) {
                    Err(e) => r == Err::<Output, TransformError>(TransformError::Body(e)),
                    Ok(g) => r matches Ok(Output::Block { body: b, semi: s }) && {
                        &&& s == semi
                        &&& b.flavor == flavor
                        &&& b.capture_move == capture_move
                        &&& b.prologue@.len() == 0
                        &&& b.body == g
                        &&& b.completion == completion_of(flavor)
                        &&& b.error_type is None
                        &&& b.trailing_suspend
                        &&& !b.boxed
                    },
                }
            },
        }
}

/// Transforms one annotated function or async block. An async block takes no
/// arguments.
pub fn attribute(args: &Vec<ArgToken>, input: Input, flavor: Flavor) -> (r: Result<
    Output,
    TransformError,
>)
    ensures
        attribute_post(args@, input, flavor, r),
{
    match input {
        Input::Fn(sig) => match parse_fn(args, sig, flavor) {
            Ok(a) => Ok(Output::Function(a)),
            Err(e) => Err(e),
        },
        Input::Async { capture_move, block, semi } => {
            if args.len() > 0 {
                return Err(TransformError::Argument(ArgFailure { error: ArgError::Unexpected, at: 0 }));
            }
            match parse_async(capture_move, block, flavor) {
                Ok(body) => Ok(Output::Block { body, semi }),
                Err(e) => Err(e),
            }
        },
    }
}


proof fn lemma_fresh_of_desugared(inputs: Seq<FnArg>, t: Seq<FnArg>, n: int)
    requires
        0 <= n <= inputs.len(),
        t.len() == inputs.len(),
        forall|i: int| 0 <= i < inputs.len() ==> #[trigger] t[i] == desugared_arg(inputs[i], i),
    ensures
        fresh_of(t, n) == fresh_of(inputs, n),
    decreases n,
{
    if n > 0 {
        lemma_fresh_of_desugared(inputs, t, n - 1);
        assert(t[n - 1] == desugared_arg(inputs[n - 1], n - 1));
        assert(lifetimes_of(t[n - 1]) == lifetimes_of(inputs[n - 1]));
    }
}

/// Two parameters that agree in all but the identity of their vectors.
pub open spec fn arg_agree(x: FnArg, y: FnArg) -> bool {
    match (x, y) {
        (
            FnArg::Receiver { text: t1, lifetimes: l1 },
            FnArg::Receiver { text: t2, lifetimes: l2 },
        ) => t1 == t2 && l1@ == l2@,
        (FnArg::Typed { attrs: a1, pat: p1, ty: y1 }, FnArg::Typed { attrs: a2, pat: p2, ty: y2 }) => a1 == a2 && p1 == p2 && y1.text
            == y2.text && y1.is_reference == y2.is_reference && y1.lifetimes@ == y2.lifetimes@,
        _ => false,
    }
}

pub open spec fn same_item(x: ItemKind, y: ItemKind) -> bool {
    match (x, y) {
        (ItemKind::Stream { item: a }, ItemKind::Stream { item: b }) => a@ == b@,
        (ItemKind::TryStream { ok: a, error: e }, ItemKind::TryStream { ok: b, error: f }) => a@
            == b@ && e@ == f@,
        _ => false,
    }
}

pub open spec fn same_body(x: GenBody, y: GenBody) -> bool {
    &&& x.flavor == y.flavor
    &&& x.capture_move == y.capture_move
    &&& x.prologue@ == y.prologue@
    &&& x.body == y.body
    &&& x.completion == y.completion
    &&& opt_view(x.error_type) == opt_view(y.error_type)
    &&& x.trailing_suspend == y.trailing_suspend
    &&& x.boxed == y.boxed
}

pub open spec fn same_artifact(x: Artifact, y: Artifact) -> bool {
    &&& x.attrs == y.attrs
    &&& x.vis == y.vis
    &&& x.qualifiers == y.qualifiers
    &&& x.name == y.name
    &&& x.type_params == y.type_params
    &&& x.where_clause == y.where_clause
    &&& x.lifetimes@ == y.lifetimes@
    &&& x.params@.len() == y.params@.len()
    &&& forall|i: int| 0 <= i < x.params@.len() ==> arg_agree(#[trigger] x.params@[i], y.params@[i])
    &&& x.return_type.kind == y.return_type.kind
    &&& same_item(x.return_type.item, y.return_type.item)
    &&& x.return_type.bounds@ == y.return_type.bounds@
    &&& match (x.body, y.body) {
        (None, None) => true,
        (Some(b), Some(c)) => same_body(b, c),
        _ => false,
    }
}

/// Two outputs that agree in every value they hold.
pub open spec fn same_output(x: Result<Output, TransformError>, y: Result<Output, TransformError>) -> bool {
    match (x, y) {
        (Err(e), Err(f)) => e == f,
        (Ok(Output::Function(a)), Ok(Output::Function(b))) => same_artifact(a, b),
        (Ok(Output::Block { body: b, semi: s }), Ok(Output::Block { body: c, semi: t })) => s == t
            && same_body(b, c),
        _ => false,
    }
}

/// Transforming the same input twice gives the same output: whatever meets
/// the transformation's contract on one input agrees with anything else that
/// does, value for value.
pub proof fn lemma_deterministic(
    args: Seq<ArgToken>,
    input: Input,
    flavor: Flavor,
    r1: Result<Output, TransformError>,
    r2: Result<Output, TransformError>,
)
    requires
        attribute_post(args, input, flavor, r1),
        attribute_post(args, input, flavor, r2),
    ensures
        same_output(r1, r2),
{
    if let Input::Fn(sig) = input {
        if let (Ok(Output::Function(a)), Ok(Output::Function(b))) = (r1, r2) {
            assert forall|i: int| 0 <= i < a.params@.len() implies arg_agree(
                #[trigger] a.params@[i],
                b.params@[i],
            ) by {
                let d = desugared_arg(sig.inputs@[i], i);
                assert(unelided(d, a.params@[i], i));
                assert(unelided(d, b.params@[i], i));
                assert(lifetimes_of(a.params@[i]) =~= lifetimes_of(b.params@[i]));
            }
            assert(a.lifetimes@ == b.lifetimes@);
            assert(a.return_type.bounds@ == b.return_type.bounds@);
            assert(same_item(a.return_type.item, b.return_type.item));
            assert(a.return_type.kind == b.return_type.kind);
            assert(same_artifact(a, b));
        }
    }
    if let (Ok(Output::Block { body: b, .. }), Ok(Output::Block { body: c, .. })) = (r1, r2) {
        assert(b.prologue@ =~= c.prologue@);
    }
}

/// The lifetime `'static`.
pub open spec fn is_static(l: Lifetime) -> bool {
    l matches Lifetime::Named(n) && n@ == "static"@
}

/// Every lifetime other than `'static` of a parameter of a well-formed
/// signature bounds the synthesized return type; an elided one does so under
/// the fresh name made for its position.
pub proof fn lemma_lifetime_soundness(
    sig: FnSig,
    flavor: Flavor,
    error: Option<Seq<ArgToken>>,
    kind: ReturnTypeKind,
    a: Artifact,
    i: int,
    s: int,
)
    requires
        inner_post(sig, flavor, error, kind, Ok(a)),
        0 <= i < sig.inputs@.len(),
        0 <= s < lifetimes_of(sig.inputs@[i]).len(),
        lifetimes_of(sig.inputs@[i])[s] is Elided || is_static(lifetimes_of(sig.inputs@[i])[s])
            || contains_lt(sig.lifetimes@, lifetimes_of(sig.inputs@[i])[s]),
    ensures
        !is_static(lifetimes_of(sig.inputs@[i])[s]) ==> contains_lt(
            a.return_type.bounds@,
            resolve(lifetimes_of(sig.inputs@[i])[s], i, s),
        ),
{
    let l = lifetimes_of(sig.inputs@[i])[s];
    let d = desugared_arg(sig.inputs@[i], i);
    assert(unelided(d, a.params@[i], i));
    assert(lifetimes_of(d) == lifetimes_of(sig.inputs@[i]));
    assert(lifetimes_of(a.params@[i])[s] == resolve(l, i, s));
    if !(l is Elided) && !is_static(l) {
        let j = choose|j: int| 0 <= j < sig.lifetimes@.len() && lt_eq(#[trigger] sig.lifetimes@[j], l);
        assert(a.lifetimes@[j] == sig.lifetimes@[j]);
    }
}

/// Every generator that the transformation produces holds a suspend point,
/// also where the body has none: the closure is a generator whatever it holds.
pub proof fn lemma_degenerate_generator(
    args: Seq<ArgToken>,
    input: Input,
    flavor: Flavor,
    r: Result<Output, TransformError>,
)
    requires
        attribute_post(args, input, flavor, r),
    ensures
        r matches Ok(Output::Function(a)) ==> (a.body matches Some(b) ==> generator_suspends(b)
            >= 1),
        r matches Ok(Output::Block { body: b, .. }) ==> generator_suspends(b) >= 1,
{
}

} // verus!
