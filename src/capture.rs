use vstd::prelude::*;

verus! {

/// A lifetime as written in a signature, or one made for an elided position.
#[derive(Debug, PartialEq)]
pub enum Lifetime {
    /// `'name`, written without the quote.
    Named(String),
    /// `&T` or `'_`.
    Elided,
    /// The lifetime made for the `slot`-th elided position of parameter `param`.
    Fresh { param: usize, slot: usize },
}

/// A parameter's pattern.
#[derive(Debug, PartialEq)]
pub enum Pattern {
    /// A plain binding, possibly `ref` or `mut`.
    Ident { name: String, by_ref: bool, mutable: bool },
    /// Any destructuring pattern, as written.
    Destructure(String),
    /// The hygienic `__argN` binding made for parameter `N`.
    Synth(usize),
}

/// A parameter's declared type: its text, whether it is a reference, and the
/// lifetimes that occur in it, in order.
#[derive(Debug, PartialEq)]
pub struct ParamType {
    pub text: String,
    pub is_reference: bool,
    pub lifetimes: Vec<Lifetime>,
}

/// One parameter of a function.
#[derive(Debug, PartialEq)]
pub enum FnArg {
    /// `self`, `&self`, `&'a mut self`, ...
    Receiver { text: String, lifetimes: Vec<Lifetime> },
    /// A typed parameter with its attributes, kept as written.
    Typed { attrs: Vec<String>, pat: Pattern, ty: ParamType },
}

/// One statement of the prologue that opens the generator body.
#[derive(Debug, PartialEq)]
pub enum Binding {
    /// `let x = x;`
    Rebind(String),
    /// `let mut __argN = __argN;`
    Hold(usize),
    /// `let <pattern> = __argN;`
    Unpack(Pattern, usize),
}

/// Receivers, references and parameters named `self` are captured as they are.
pub open spec fn passes_through(a: FnArg) -> bool {
    match a {
        FnArg::Receiver { .. } => true,
        FnArg::Typed { pat, ty, .. } => ty.is_reference || (pat matches Pattern::Ident { name, .. }
            && name@ == "self"@),
    }
}

/// A by-value binding to a bare identifier.
pub open spec fn is_simple(p: Pattern) -> bool {
    p matches Pattern::Ident { by_ref, mutable, .. } && !by_ref && !mutable
}

/// The parameter as the rewritten signature declares it.
pub open spec fn desugared_arg(a: FnArg, i: int) -> FnArg {
    match a {
        FnArg::Typed { attrs, pat, ty } => if passes_through(a) || is_simple(pat) {
            a
        } else {
            FnArg::Typed { attrs, pat: Pattern::Synth(i as usize), ty }
        },
        _ => a,
    }
}

/// The prologue statements for parameter `i`.
pub open spec fn arg_bindings(a: FnArg, i: int) -> Seq<Binding> {
    match a {
        FnArg::Typed { pat, .. } => if passes_through(a) {
            Seq::empty()
        } else if is_simple(pat) {
            seq![Binding::Rebind(pat->name)]
        } else {
            seq![Binding::Hold(i as usize), Binding::Unpack(pat, i as usize)]
        },
        _ => Seq::empty(),
    }
}

/// The prologue for the first `n` parameters, in declaration order.
pub open spec fn prologue_of(args: Seq<FnArg>, n: int) -> Seq<Binding>
    decreases n,
{
    if n <= 0 {
        Seq::empty()
    } else {
        prologue_of(args, n - 1) + arg_bindings(args[n - 1], n - 1)
    }
}

fn is_self(name: &String) -> (r: bool)
    ensures
        r == (name@ == "self"@),
{
    *name == "self".to_owned()
}

/// Rewrites parameter `i` and appends its prologue statements.
fn desugar_arg(a: FnArg, i: usize, statements: &mut Vec<Binding>) -> (r: FnArg)
    ensures
        r == desugared_arg(a, i as int),
        final(statements)@ == old(statements)@ + arg_bindings(a, i as int),
{
    match a {
        FnArg::Receiver { text, lifetimes } => {
            assert(old(statements)@ + Seq::<Binding>::empty() =~= old(statements)@);
            FnArg::Receiver { text, lifetimes }
        },
        FnArg::Typed { attrs, pat, ty } => {
            if ty.is_reference {
                assert(old(statements)@ + Seq::<Binding>::empty() =~= old(statements)@);
                return FnArg::Typed { attrs, pat, ty };
            }
            let simple = match &pat {
                Pattern::Ident { name, by_ref, mutable } => {
                    if is_self(name) {
                        assert(old(statements)@ + Seq::<Binding>::empty() =~= old(statements)@);
                        return FnArg::Typed { attrs, pat, ty };
                    }
                    if !*by_ref && !*mutable {
                        statements.push(Binding::Rebind(name.clone()));
                        true
                    } else {
                        false
                    }
                },
                _ => false,
            };
            if simple {
                assert(final(statements)@ =~= old(statements)@ + arg_bindings(a, i as int));
                FnArg::Typed { attrs, pat, ty }
            } else {
                statements.push(Binding::Hold(i));
                statements.push(Binding::Unpack(pat, i));
                assert(final(statements)@ =~= old(statements)@ + arg_bindings(a, i as int));
                FnArg::Typed { attrs, pat: Pattern::Synth(i), ty }
            }
        },
    }
}

/// Rewrites the parameter list so that the generator takes each parameter
/// whole, and returns the new list with the prologue that restores the
/// bindings the body expects, in declaration order.
pub fn expand_async_body(inputs: Vec<FnArg>) -> (r: (Vec<FnArg>, Vec<Binding>))
    ensures
        r.0@.len() == inputs@.len(),
        forall|i: int| 0 <= i < inputs@.len() ==> r.0@[i] == desugared_arg(inputs@[i], i),
        r.1@ == prologue_of(inputs@, inputs@.len() as int),
{
    let ghost orig = inputs@;
    let n = inputs.len();
    let mut rest = inputs;
    let mut arguments: Vec<FnArg> = Vec::new();
    let mut statements: Vec<Binding> = Vec::new();
    let mut i: usize = 0;
    while i < n
        invariant
            n == orig.len(),
            i <= n,
            rest@ == orig.subrange(i as int, n as int),
            arguments@.len() == i,
            forall|k: int| 0 <= k < i ==> arguments@[k] == desugared_arg(orig[k], k),
            statements@ == prologue_of(orig, i as int),
        decreases n - i,
    {
        let a = rest.remove(0);
        assert(a == orig[i as int]);
        let b = desugar_arg(a, i, &mut statements);
        arguments.push(b);
        i = i + 1;
    }
    (arguments, statements)
}


/// Each parameter's prologue statements form one block, and the blocks stand
/// in declaration order: the prologue of the first `k` parameters opens the
/// whole prologue, and the block of parameter `k` follows it directly.
pub proof fn lemma_capture_order(args: Seq<FnArg>, n: int, k: int)
    requires
        0 <= k < n <= args.len(),
    ensures
        prologue_of(args, k).len() + arg_bindings(args[k], k).len() <= prologue_of(args, n).len(),
        prologue_of(args, n).subrange(0, prologue_of(args, k).len() as int) == prologue_of(args, k),
        prologue_of(args, n).subrange(
            prologue_of(args, k).len() as int,
            (prologue_of(args, k).len() + arg_bindings(args[k], k).len()) as int,
        ) == arg_bindings(args[k], k),
    decreases n,
{
    let pk = prologue_of(args, k);
    let bk = arg_bindings(args[k], k);
    if n == k + 1 {
        assert(prologue_of(args, n) == pk + bk);
        assert(prologue_of(args, n).subrange(0, pk.len() as int) =~= pk);
        assert(prologue_of(args, n).subrange(pk.len() as int, (pk.len() + bk.len()) as int) =~= bk);
    } else {
        lemma_capture_order(args, n - 1, k);
        let prev = prologue_of(args, n - 1);
        let last = arg_bindings(args[n - 1], n - 1);
        assert(prologue_of(args, n) == prev + last);
        assert((prev + last).subrange(0, pk.len() as int) =~= prev.subrange(0, pk.len() as int));
        assert((prev + last).subrange(pk.len() as int, (pk.len() + bk.len()) as int) =~= prev.subrange(
            pk.len() as int,
            (pk.len() + bk.len()) as int,
        ));
    }
}

impl Lifetime {
    pub fn duplicate(&self) -> (r: Lifetime)
        ensures
            r == *self,
    {
        match self {
            Lifetime::Named(s) => Lifetime::Named(s.clone()),
            Lifetime::Elided => Lifetime::Elided,
            Lifetime::Fresh { param, slot } => Lifetime::Fresh { param: *param, slot: *slot },
        }
    }
}

/// Two lifetimes name the same one.
pub open spec fn lt_eq(a: Lifetime, b: Lifetime) -> bool {
    match (a, b) {
        (Lifetime::Named(s), Lifetime::Named(t)) => s@ == t@,
        (Lifetime::Elided, Lifetime::Elided) => true,
        (Lifetime::Fresh { param: p, slot: s }, Lifetime::Fresh { param: q, slot: t }) => p == q
            && s == t,
        _ => false,
    }
}

pub open spec fn contains_lt(v: Seq<Lifetime>, l: Lifetime) -> bool {
    exists|j: int| 0 <= j < v.len() && lt_eq(#[trigger] v[j], l)
}

/// The lifetime that replaces `l` at position `s` of parameter `p`.
pub open spec fn resolve(l: Lifetime, p: int, s: int) -> Lifetime {
    if l is Elided {
        Lifetime::Fresh { param: p as usize, slot: s as usize }
    } else {
        l
    }
}

pub open spec fn resolved_seq(a: Seq<Lifetime>, b: Seq<Lifetime>, p: int) -> bool {
    b.len() == a.len() && forall|s: int| 0 <= s < a.len() ==> b[s] == resolve(a[s], p, s)
}

pub open spec fn lifetimes_of(a: FnArg) -> Seq<Lifetime> {
    match a {
        FnArg::Receiver { lifetimes, .. } => lifetimes@,
        FnArg::Typed { ty, .. } => ty.lifetimes@,
    }
}

/// `b` is `a` with each elided lifetime replaced by a fresh one of parameter `p`.
pub open spec fn unelided(a: FnArg, b: FnArg, p: int) -> bool {
    match (a, b) {
        (
            FnArg::Receiver { text: t1, lifetimes: l1 },
            FnArg::Receiver { text: t2, lifetimes: l2 },
        ) => t1 == t2 && resolved_seq(l1@, l2@, p),
        (FnArg::Typed { attrs: a1, pat: p1, ty: y1 }, FnArg::Typed { attrs: a2, pat: p2, ty: y2 }) => a1 == a2 && p1 == p2 && y1.text
            == y2.text && y1.is_reference == y2.is_reference && resolved_seq(
            y1.lifetimes@,
            y2.lifetimes@,
            p,
        ),
        _ => false,
    }
}

/// What the generic list gained: fresh lifetimes of parameters below `n`, each
/// standing for an elided position of the given parameters.
pub open spec fn gained(old_g: Seq<Lifetime>, new_g: Seq<Lifetime>, args: Seq<FnArg>) -> bool {
    &&& old_g.len() <= new_g.len()
    &&& new_g.subrange(0, old_g.len() as int) == old_g
    &&& forall|j: int|
        old_g.len() <= j < new_g.len() ==> {
            &&& (#[trigger] new_g[j]) is Fresh
            &&& new_g[j]->param < args.len()
            &&& new_g[j]->slot < lifetimes_of(args[new_g[j]->param as int]).len()
            &&& lifetimes_of(args[new_g[j]->param as int])[new_g[j]->slot as int] is Elided
        }
}

/// The fresh lifetimes made for the elided positions among the first `m`
/// lifetimes of parameter `p`, in order.
pub open spec fn fresh_in(ls: Seq<Lifetime>, p: int, m: int) -> Seq<Lifetime>
    decreases m,
{
    if m <= 0 {
        Seq::empty()
    } else {
        fresh_in(ls, p, m - 1) + if ls[m - 1] is Elided {
            seq![Lifetime::Fresh { param: p as usize, slot: (m - 1) as usize }]
        } else {
            Seq::empty()
        }
    }
}

/// The fresh lifetimes made for the first `n` parameters, in order.
pub open spec fn fresh_of(args: Seq<FnArg>, n: int) -> Seq<Lifetime>
    decreases n,
{
    if n <= 0 {
        Seq::empty()
    } else {
        fresh_of(args, n - 1) + fresh_in(lifetimes_of(args[n - 1]), n - 1, lifetimes_of(args[n - 1]).len() as int)
    }
}

/// Resolves the lifetimes of parameter `p`, and adds each fresh one to `generics`.
fn resolve_all(ls: Vec<Lifetime>, p: usize, generics: &mut Vec<Lifetime>) -> (r: Vec<Lifetime>)
    ensures
        resolved_seq(ls@, r@, p as int),
        final(generics)@ == old(generics)@ + fresh_in(ls@, p as int, ls@.len() as int),
        old(generics)@.len() <= final(generics)@.len(),
        final(generics)@.subrange(0, old(generics)@.len() as int) == old(generics)@,
        forall|s: int|
            0 <= s < r@.len() && (#[trigger] ls@[s]) is Elided ==> contains_lt(final(generics)@, r@[s]),
        forall|j: int|
            old(generics)@.len() <= j < final(generics)@.len() ==> {
                &&& (#[trigger] final(generics)@[j]) is Fresh
                &&& final(generics)@[j]->param == p
                &&& final(generics)@[j]->slot < ls@.len()
                &&& ls@[final(generics)@[j]->slot as int] is Elided
            },
{
    let ghost g0 = generics@;
    let ghost orig = ls@;
    let n = ls.len();
    let mut rest = ls;
    let mut r: Vec<Lifetime> = Vec::new();
    let mut s: usize = 0;
    while s < n
        invariant
            n == orig.len(),
            s <= n,
            rest@ == orig.subrange(s as int, n as int),
            r@.len() == s,
            forall|k: int| 0 <= k < s ==> r@[k] == resolve(orig[k], p as int, k),
            generics@ == g0 + fresh_in(orig, p as int, s as int),
            g0.len() <= generics@.len(),
            generics@.subrange(0, g0.len() as int) == g0,
            forall|k: int|
                0 <= k < r@.len() && (#[trigger] orig[k]) is Elided ==> contains_lt(generics@, r@[k]),
            forall|j: int|
                g0.len() <= j < generics@.len() ==> {
                    &&& (#[trigger] generics@[j]) is Fresh
                    &&& generics@[j]->param == p
                    &&& generics@[j]->slot < s
                    &&& orig[generics@[j]->slot as int] is Elided
                },
        decreases n - s,
    {
        let l = rest.remove(0);
        assert(l == orig[s as int]);
        let ghost before = generics@;
        if let Lifetime::Elided = l {
            let f = Lifetime::Fresh { param: p, slot: s };
            generics.push(f.duplicate());
            assert(generics@ =~= g0 + fresh_in(orig, p as int, s + 1));
            assert(lt_eq(generics@[before.len() as int], f));
            assert(generics@.subrange(0, g0.len() as int) =~= before.subrange(0, g0.len() as int));
            r.push(f);
        } else {
            r.push(l);
            assert(generics@ =~= g0 + fresh_in(orig, p as int, s + 1));
        }
        assert forall|k: int| 0 <= k < r@.len() && (#[trigger] orig[k]) is Elided implies contains_lt(
            generics@,
            r@[k],
        ) by {
            if k < s {
                let j = choose|j: int| 0 <= j < before.len() && lt_eq(#[trigger] before[j], r@[k]);
                assert(generics@[j] == before[j]);
            } else {
                assert(lt_eq(generics@[before.len() as int], r@[k]));
            }
        }
        s = s + 1;
    }
    r
}

/// Gives every elided lifetime of the parameters a fresh name, and adds the
/// fresh names to the generic lifetimes.
pub fn unelide_lifetimes(generics: &mut Vec<Lifetime>, arguments: Vec<FnArg>) -> (r: Vec<FnArg>)
    ensures
        r@.len() == arguments@.len(),
        forall|i: int| 0 <= i < r@.len() ==> unelided(arguments@[i], #[trigger] r@[i], i),
        final(generics)@ == old(generics)@ + fresh_of(arguments@, arguments@.len() as int),
        gained(old(generics)@, final(generics)@, arguments@),
        forall|i: int, s: int|
            0 <= i < r@.len() && 0 <= s < lifetimes_of(r@[i]).len() && (#[trigger] lifetimes_of(
                arguments@[i],
            )[s]) is Elided ==> contains_lt(final(generics)@, lifetimes_of(r@[i])[s]),
{
    let ghost g0 = generics@;
    let ghost orig = arguments@;
    let n = arguments.len();
    let mut rest = arguments;
    let mut r: Vec<FnArg> = Vec::new();
    let mut i: usize = 0;
    while i < n
        invariant
            n == orig.len(),
            i <= n,
            rest@ == orig.subrange(i as int, n as int),
            r@.len() == i,
            forall|k: int| 0 <= k < i ==> unelided(orig[k], #[trigger] r@[k], k),
            generics@ == g0 + fresh_of(orig, i as int),
            g0.len() <= generics@.len(),
            generics@.subrange(0, g0.len() as int) == g0,
            forall|j: int|
                g0.len() <= j < generics@.len() ==> {
                    &&& (#[trigger] generics@[j]) is Fresh
                    &&& generics@[j]->param < i
                    &&& generics@[j]->slot < lifetimes_of(orig[generics@[j]->param as int]).len()
                    &&& lifetimes_of(orig[generics@[j]->param as int])[generics@[j]->slot as int] is Elided
                },
            forall|k: int, s: int|
                0 <= k < r@.len() && 0 <= s < lifetimes_of(r@[k]).len() && (#[trigger] lifetimes_of(
                    orig[k],
                )[s]) is Elided ==> contains_lt(generics@, lifetimes_of(r@[k])[s]),
        decreases n - i,
    {
        let a = rest.remove(0);
        assert(a == orig[i as int]);
        let ghost before = generics@;
        let b = match a {
            FnArg::Receiver { text, lifetimes } => {
                let ls = resolve_all(lifetimes, i, generics);
                FnArg::Receiver { text, lifetimes: ls }
            },
            FnArg::Typed { attrs, pat, ty } => {
                let ParamType { text, is_reference, lifetimes } = ty;
                let ls = resolve_all(lifetimes, i, generics);
                FnArg::Typed { attrs, pat, ty: ParamType { text, is_reference, lifetimes: ls } }
            },
        };
        assert(generics@ =~= g0 + fresh_of(orig, i + 1));
        assert(generics@.subrange(0, g0.len() as int) =~= generics@.subrange(
            0,
            before.len() as int,
        ).subrange(0, g0.len() as int));
        assert forall|j: int|
            g0.len() <= j < generics@.len() implies {
            &&& (#[trigger] generics@[j]) is Fresh
            &&& generics@[j]->param < i + 1
            &&& generics@[j]->slot < lifetimes_of(orig[generics@[j]->param as int]).len()
            &&& lifetimes_of(orig[generics@[j]->param as int])[generics@[j]->slot as int] is Elided
        } by {
            if j < before.len() {
                assert(generics@[j] == generics@.subrange(0, before.len() as int)[j]);
            }
        }
        r.push(b);
        assert forall|k: int, s: int|
            0 <= k < r@.len() && 0 <= s < lifetimes_of(r@[k]).len() && (#[trigger] lifetimes_of(
                orig[k],
            )[s]) is Elided implies contains_lt(generics@, lifetimes_of(r@[k])[s]) by {
            if k < i {
                let l = lifetimes_of(r@[k])[s];
                let j = choose|j: int| 0 <= j < before.len() && lt_eq(#[trigger] before[j], l);
                assert(generics@[j] == generics@.subrange(0, before.len() as int)[j]);
            }
        }
        i = i + 1;
    }
    r
}


/// A copy of the lifetimes, equal one by one.
pub fn copy_lifetimes(v: &Vec<Lifetime>) -> (r: Vec<Lifetime>)
    ensures
        r@ == v@,
{
    let mut r: Vec<Lifetime> = Vec::new();
    let mut j: usize = 0;
    while j < v.len()
        invariant
            j <= v@.len(),
            r@ == v@.subrange(0, j as int),
        decreases v.len() - j,
    {
        r.push(v[j].duplicate());
        j = j + 1;
    }
    r
}

} // verus!
