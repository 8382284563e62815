use vstd::prelude::*;

verus! {

/// One token tree of an attribute's argument list.
#[derive(Debug, PartialEq)]
pub enum ArgToken {
    Ident(String),
    Punct(char),
    Literal(String),
    /// A delimited group, kept as one token.
    Group(String),
}

impl ArgToken {
    /// A copy of this token, equal to it.
    pub fn duplicate(&self) -> (r: ArgToken)
        ensures
            r == *self,
    {
        match self {
            ArgToken::Ident(s) => ArgToken::Ident(s.clone()),
            ArgToken::Punct(c) => ArgToken::Punct(*c),
            ArgToken::Literal(s) => ArgToken::Literal(s.clone()),
            ArgToken::Group(s) => ArgToken::Group(s.clone()),
        }
    }
}

/// Which kind of sequence the function produces.
#[derive(Clone, Copy, PartialEq, Eq, Structural, Debug)]
pub enum Flavor {
    Stream,
    TryStream,
}

/// The named arguments and flags of the attribute.
#[derive(Clone, Copy, PartialEq, Eq, Structural, Debug)]
pub enum ArgKey {
    ItemType,
    OkType,
    ErrorType,
    Boxed,
    BoxedLocal,
}

/// Why an argument list was refused.
#[derive(Clone, Copy, PartialEq, Eq, Structural, Debug)]
pub enum ArgError {
    /// A key or flag given twice.
    Duplicate(ArgKey),
    /// Both `boxed` and `boxed_local`.
    Conflict,
    /// A required key absent at the end of the list.
    Missing(ArgKey),
    /// A token that starts no argument of this flavor.
    Unexpected,
    /// A key not followed by `=`.
    ExpectedEq,
    /// A key and `=` not followed by a type.
    ExpectedType,
    /// An argument not followed by `,` or the end.
    ExpectedComma,
}

/// How the produced sequence is represented.
#[derive(Clone, Copy, PartialEq, Eq, Structural, Debug)]
pub enum ReturnTypeKind {
    /// An opaque `impl Stream` bounded by the captured lifetimes.
    Default,
    /// A pinned box of a trait object, `Send` when `send` holds.
    Boxed { send: bool },
}

pub open spec fn key_text(k: ArgKey) -> Seq<char> {
    match k {
        ArgKey::ItemType => "item"@,
        ArgKey::OkType => "ok"@,
        ArgKey::ErrorType => "error"@,
        ArgKey::Boxed => "boxed"@,
        ArgKey::BoxedLocal => "boxed_local"@,
    }
}

/// The key that a word names, if any.
pub open spec fn keyword_of(s: Seq<char>) -> Option<ArgKey> {
    if s == "item"@ {
        Some(ArgKey::ItemType)
    } else if s == "ok"@ {
        Some(ArgKey::OkType)
    } else if s == "error"@ {
        Some(ArgKey::ErrorType)
    } else if s == "boxed"@ {
        Some(ArgKey::Boxed)
    } else if s == "boxed_local"@ {
        Some(ArgKey::BoxedLocal)
    } else {
        None
    }
}

/// Whether a flavor takes the key.
pub open spec fn accepts(flavor: Flavor, k: ArgKey) -> bool {
    match k {
        ArgKey::ItemType => flavor == Flavor::Stream,
        ArgKey::OkType | ArgKey::ErrorType => flavor == Flavor::TryStream,
        _ => true,
    }
}

pub open spec fn is_flag(k: ArgKey) -> bool {
    k == ArgKey::Boxed || k == ArgKey::BoxedLocal
}

impl ArgError {
    pub open spec fn message_text(self) -> Seq<char> {
        match self {
            ArgError::Duplicate(ArgKey::ItemType) => "duplicate `item` argument"@,
            ArgError::Duplicate(ArgKey::OkType) => "duplicate `ok` argument"@,
            ArgError::Duplicate(ArgKey::ErrorType) => "duplicate `error` argument"@,
            ArgError::Duplicate(ArgKey::Boxed) => "duplicate `boxed` argument"@,
            ArgError::Duplicate(ArgKey::BoxedLocal) => "duplicate `boxed_local` argument"@,
            ArgError::Conflict => "`boxed` and `boxed_local` may not be used at the same time"@,
            ArgError::Missing(ArgKey::ItemType) => "expected `item`"@,
            ArgError::Missing(ArgKey::OkType) => "expected `ok`"@,
            ArgError::Missing(ArgKey::ErrorType) => "expected `error`"@,
            ArgError::Missing(ArgKey::Boxed) => "expected `boxed`"@,
            ArgError::Missing(ArgKey::BoxedLocal) => "expected `boxed_local`"@,
            ArgError::Unexpected => "unexpected argument"@,
            ArgError::ExpectedEq => "expected `=`"@,
            ArgError::ExpectedType => "expected type"@,
            ArgError::ExpectedComma => "expected `,`"@,
        }
    }

    /// The diagnostic text of this error.
    pub fn message(&self) -> (r: &'static str)
        ensures
            r@ == self.message_text(),
    {
        match self {
            ArgError::Duplicate(ArgKey::ItemType) => "duplicate `item` argument",
            ArgError::Duplicate(ArgKey::OkType) => "duplicate `ok` argument",
            ArgError::Duplicate(ArgKey::ErrorType) => "duplicate `error` argument",
            ArgError::Duplicate(ArgKey::Boxed) => "duplicate `boxed` argument",
            ArgError::Duplicate(ArgKey::BoxedLocal) => "duplicate `boxed_local` argument",
            ArgError::Conflict => "`boxed` and `boxed_local` may not be used at the same time",
            ArgError::Missing(ArgKey::ItemType) => "expected `item`",
            ArgError::Missing(ArgKey::OkType) => "expected `ok`",
            ArgError::Missing(ArgKey::ErrorType) => "expected `error`",
            ArgError::Missing(ArgKey::Boxed) => "expected `boxed`",
            ArgError::Missing(ArgKey::BoxedLocal) => "expected `boxed_local`",
            ArgError::Unexpected => "unexpected argument",
            ArgError::ExpectedEq => "expected `=`",
            ArgError::ExpectedType => "expected type",
            ArgError::ExpectedComma => "expected `,`",
        }
    }
}

impl ReturnTypeKind {
    /// The mode after one more boxing flag (`send` for `boxed`), or the error.
    pub open spec fn with_flag(self, send: bool) -> Result<ReturnTypeKind, ArgError> {
        match self {
            ReturnTypeKind::Default => Ok(ReturnTypeKind::Boxed { send }),
            ReturnTypeKind::Boxed { send: s } => if s == send {
                Err(ArgError::Duplicate(if send { ArgKey::Boxed } else { ArgKey::BoxedLocal }))
            } else {
                Err(ArgError::Conflict)
            },
        }
    }

    /// Takes one boxing flag: `boxed` when `send` holds, else `boxed_local`.
    pub fn accept_flag(&mut self, send: bool) -> (r: Result<(), ArgError>)
        ensures
            match old(self).with_flag(send) {
                Ok(k) => r == Ok::<(), ArgError>(()) && *final(self) == k,
                Err(e) => r == Err::<(), ArgError>(e) && *final(self) == *old(self),
            },
    {
        match *self {
            ReturnTypeKind::Default => {
                *self = ReturnTypeKind::Boxed { send };
                Ok(())
            },
            ReturnTypeKind::Boxed { send: s } => {
                if s == send {
                    if send {
                        Err(ArgError::Duplicate(ArgKey::Boxed))
                    } else {
                        Err(ArgError::Duplicate(ArgKey::BoxedLocal))
                    }
                } else {
                    Err(ArgError::Conflict)
                }
            },
        }
    }

    pub fn is_boxed(self) -> (r: bool)
        ensures
            r == (self is Boxed),
    {
        if let ReturnTypeKind::Boxed { .. } = self {
            true
        } else {
            false
        }
    }
}


/// Whether the tokens, rendered as source text, form exactly one Rust type.
pub uninterp spec fn is_type_text(toks: Seq<ArgToken>) -> bool;

/// Relies on `syn::parse_str::<syn::Type>`: whether the text is exactly one
/// type. A punctuation character is written against the token after it, so
/// that `-` `>` reads as `->` and `'` `a` as a lifetime.
#[verifier::external_body]
fn parses_as_type(toks: &Vec<ArgToken>) -> (r: bool)
    ensures
        r == is_type_text(toks@),
{
    let mut text = String::new();
    for t in toks.iter() {
        match t {
            ArgToken::Punct(c) => text.push(*c),
            ArgToken::Ident(s) | ArgToken::Literal(s) | ArgToken::Group(s) => {
                text.push_str(s);
                text.push(' ');
            },
        }
    }
    syn::parse_str::<syn::Type>(&text).is_ok()
}

/// The end of the longest run `start..e`, with `e` at most `end`, that forms
/// one type; `start` where none does.
pub open spec fn longest_type(toks: Seq<ArgToken>, start: int, end: int) -> int
    decreases end - start,
{
    if end <= start {
        start
    } else if is_type_text(toks.subrange(start, end)) {
        end
    } else {
        longest_type(toks, start, end - 1)
    }
}

/// Where the type that starts at `start` ends: after the longest run of
/// tokens that forms one type.
pub open spec fn type_end(toks: Seq<ArgToken>, start: int) -> int {
    longest_type(toks, start, toks.len() as int)
}

pub proof fn lemma_type_end_bounds(toks: Seq<ArgToken>, start: int, end: int)
    requires
        0 <= start <= end <= toks.len(),
    ensures
        start <= longest_type(toks, start, end) <= end,
        longest_type(toks, start, end) > start ==> is_type_text(
            toks.subrange(start, longest_type(toks, start, end)),
        ),
    decreases end - start,
{
    if end > start && !is_type_text(toks.subrange(start, end)) {
        lemma_type_end_bounds(toks, start, end - 1);
    }
}

/// An error, with the index of the token where it was found (the length of
/// the list for what was missing at its end).
#[derive(Clone, Copy, PartialEq, Eq, Structural, Debug)]
pub struct ArgFailure {
    pub error: ArgError,
    pub at: usize,
}

pub open spec fn fail(error: ArgError, at: int) -> ArgFailure {
    ArgFailure { error, at: at as usize }
}

/// What the parser has collected so far: the first and second type (`item`,
/// or `ok` and `error`) and the boxing mode.
pub struct Slots {
    pub first: Option<Seq<ArgToken>>,
    pub second: Option<Seq<ArgToken>>,
    pub boxed: ReturnTypeKind,
}

pub open spec fn empty_slots() -> Slots {
    Slots { first: None, second: None, boxed: ReturnTypeKind::Default }
}

/// One argument at `i`: the position after it and the slots it leaves.
pub open spec fn entry_spec(toks: Seq<ArgToken>, flavor: Flavor, i: int, st: Slots) -> Result<
    (int, Slots),
    ArgFailure,
> {
    match toks[i] {
        ArgToken::Ident(s) => match keyword_of(s@) {
            Some(k) => if !accepts(flavor, k) {
                Err(fail(ArgError::Unexpected, i))
            } else if is_flag(k) {
                match st.boxed.with_flag(k == ArgKey::Boxed) {
                    Ok(b) => Ok((i + 1, Slots { boxed: b, ..st })),
                    Err(e) => Err(fail(e, i)),
                }
            } else if i + 1 >= toks.len() || toks[i + 1] != ArgToken::Punct('=') {
                Err(fail(ArgError::ExpectedEq, i + 1))
            } else if type_end(toks, i + 2) == i + 2 {
                Err(fail(ArgError::ExpectedType, i + 2))
            } else {
                let e = type_end(toks, i + 2);
                let ty = toks.subrange(i + 2, e);
                if k == ArgKey::ErrorType {
                    if st.second is Some {
                        Err(fail(ArgError::Duplicate(k), i))
                    } else {
                        Ok((e, Slots { second: Some(ty), ..st }))
                    }
                } else {
                    if st.first is Some {
                        Err(fail(ArgError::Duplicate(k), i))
                    } else {
                        Ok((e, Slots { first: Some(ty), ..st }))
                    }
                }
            },
            None => Err(fail(ArgError::Unexpected, i)),
        },
        _ => Err(fail(ArgError::Unexpected, i)),
    }
}

/// The arguments from `i` on, comma-separated, in any order.
pub open spec fn parse_from(toks: Seq<ArgToken>, flavor: Flavor, i: int, st: Slots) -> Result<
    Slots,
    ArgFailure,
>
    decreases toks.len() - i,
{
    if i < 0 || i >= toks.len() {
        Ok(st)
    } else {
        match entry_spec(toks, flavor, i, st) {
            Err(e) => Err(e),
            Ok((n, st2)) => if n < toks.len() && toks[n] != ArgToken::Punct(',') {
                Err(fail(ArgError::ExpectedComma, n))
            } else if n <= i || n >= toks.len() {
                Ok(st2)
            } else {
                parse_from(toks, flavor, n + 1, st2)
            },
        }
    }
}

pub proof fn lemma_entry_advances(toks: Seq<ArgToken>, flavor: Flavor, i: int, st: Slots)
    requires
        0 <= i < toks.len(),
    ensures
        entry_spec(toks, flavor, i, st) matches Ok((n, _)) ==> i < n <= toks.len(),
{
    if i + 2 <= toks.len() {
        lemma_type_end_bounds(toks, i + 2, toks.len() as int);
    }
}

/// The named types collected by the parser, and the boxing mode.
pub struct ArgSlots {
    pub first: Option<Vec<ArgToken>>,
    pub second: Option<Vec<ArgToken>>,
    pub boxed: ReturnTypeKind,
}

pub open spec fn opt_view(o: Option<Vec<ArgToken>>) -> Option<Seq<ArgToken>> {
    match o {
        Some(v) => Some(v@),
        None => None,
    }
}

impl View for ArgSlots {
    type V = Slots;

    open spec fn view(&self) -> Slots {
        Slots { first: opt_view(self.first), second: opt_view(self.second), boxed: self.boxed }
    }
}

fn keyword(s: &String) -> (r: Option<ArgKey>)
    ensures
        r == keyword_of(s@),
{
    if *s == "item".to_owned() {
        Some(ArgKey::ItemType)
    } else if *s == "ok".to_owned() {
        Some(ArgKey::OkType)
    } else if *s == "error".to_owned() {
        Some(ArgKey::ErrorType)
    } else if *s == "boxed".to_owned() {
        Some(ArgKey::Boxed)
    } else if *s == "boxed_local".to_owned() {
        Some(ArgKey::BoxedLocal)
    } else {
        None
    }
}

fn accepts_key(flavor: Flavor, k: ArgKey) -> (r: bool)
    ensures
        r == accepts(flavor, k),
{
    match k {
        ArgKey::ItemType => flavor == Flavor::Stream,
        ArgKey::OkType | ArgKey::ErrorType => flavor == Flavor::TryStream,
        _ => true,
    }
}

fn is_punct(toks: &Vec<ArgToken>, i: usize, p: char) -> (r: bool)
    requires
        i < toks.len(),
    ensures
        r == (toks@[i as int] == ArgToken::Punct(p)),
{
    match &toks[i] {
        ArgToken::Punct(c) => *c == p,
        _ => false,
    }
}

/// Finds the end of the type that starts at `start`.
fn scan_type(toks: &Vec<ArgToken>, start: usize) -> (r: usize)
    requires
        start <= toks.len(),
    ensures
        r as int == type_end(toks@, start as int),
{
    let mut e: usize = toks.len();
    while e > start
        invariant
            start <= e <= toks.len(),
            longest_type(toks@, start as int, e as int) == type_end(toks@, start as int),
        decreases e - start,
    {
        let run = copy_range(toks, start, e);
        if parses_as_type(&run) {
            return e;
        }
        e = e - 1;
    }
    e
}

/// A copy of the tokens in `start..end`.
fn copy_range(toks: &Vec<ArgToken>, start: usize, end: usize) -> (r: Vec<ArgToken>)
    requires
        start <= end <= toks.len(),
    ensures
        r@ == toks@.subrange(start as int, end as int),
{
    let mut r: Vec<ArgToken> = Vec::new();
    let mut j: usize = start;
    while j < end
        invariant
            start <= j <= end <= toks.len(),
            r@ == toks@.subrange(start as int, j as int),
        decreases end - j,
    {
        r.push(toks[j].duplicate());
        j = j + 1;
    }
    r
}

/// Stores `new` in `prev`; fails with a duplicate error for `key` where `prev`
/// already held a value.
pub fn replace<T>(prev: &mut Option<T>, new: T, key: ArgKey) -> (r: Result<(), ArgError>)
    ensures
        *final(prev) == Some(new),
        r == if old(prev).is_some() {
            Err::<(), ArgError>(ArgError::Duplicate(key))
        } else {
            Ok::<(), ArgError>(())
        },
{
    let was = prev.is_some();
    *prev = Some(new);
    if was {
        Err(ArgError::Duplicate(key))
    } else {
        Ok(())
    }
}

/// Parses the argument at `i` into `st`, and returns the position after it.
fn parse_entry(toks: &Vec<ArgToken>, flavor: Flavor, i: usize, st: &mut ArgSlots) -> (r: Result<
    usize,
    ArgFailure,
>)
    requires
        i < toks.len(),
    ensures
        match entry_spec(toks@, flavor, i as int, old(st)@) {
            Ok((n, s2)) => r == Ok::<usize, ArgFailure>(n as usize) && final(st)@ == s2,
            Err(e) => r == Err::<usize, ArgFailure>(e),
        },
{
    proof {
        lemma_entry_advances(toks@, flavor, i as int, old(st)@);
    }
    let k = match &toks[i] {
        ArgToken::Ident(s) => match keyword(s) {
            Some(k) => k,
            None => return Err(ArgFailure { error: ArgError::Unexpected, at: i }),
        },
        _ => return Err(ArgFailure { error: ArgError::Unexpected, at: i }),
    };
    if !accepts_key(flavor, k) {
        return Err(ArgFailure { error: ArgError::Unexpected, at: i });
    }
    if k == ArgKey::Boxed || k == ArgKey::BoxedLocal {
        match st.boxed.accept_flag(k == ArgKey::Boxed) {
            Ok(()) => return Ok(i + 1),
            Err(e) => return Err(ArgFailure { error: e, at: i }),
        }
    }
    if i + 1 >= toks.len() || !is_punct(toks, i + 1, '=') {
        return Err(ArgFailure { error: ArgError::ExpectedEq, at: i + 1 });
    }
    let e = scan_type(toks, i + 2);
    if e == i + 2 {
        return Err(ArgFailure { error: ArgError::ExpectedType, at: i + 2 });
    }
    proof {
        lemma_type_end_bounds(toks@, i + 2, toks@.len() as int);
    }
    let ty = copy_range(toks, i + 2, e);
    let res = if k == ArgKey::ErrorType {
        replace(&mut st.second, ty, k)
    } else {
        replace(&mut st.first, ty, k)
    };
    match res {
        Ok(()) => Ok(e),
        Err(err) => Err(ArgFailure { error: err, at: i }),
    }
}

/// Parses a whole argument list for `flavor` into its slots.
pub fn parse_args(toks: &Vec<ArgToken>, flavor: Flavor) -> (r: Result<ArgSlots, ArgFailure>)
    ensures
        match r {
            Ok(s) => parse_from(toks@, flavor, 0, empty_slots()) == Ok::<Slots, ArgFailure>(s@),
            Err(e) => parse_from(toks@, flavor, 0, empty_slots()) == Err::<Slots, ArgFailure>(e),
        },
{
    let mut st = ArgSlots { first: None, second: None, boxed: ReturnTypeKind::Default };
    let mut i: usize = 0;
    while i < toks.len()
        invariant
            i <= toks.len(),
            parse_from(toks@, flavor, i as int, st@) == parse_from(
                toks@,
                flavor,
                0,
                empty_slots(),
            ),
        decreases toks.len() - i,
    {
        proof {
            lemma_entry_advances(toks@, flavor, i as int, st@);
        }
        let n = match parse_entry(toks, flavor, i, &mut st) {
            Ok(n) => n,
            Err(e) => return Err(e),
        };
        if n < toks.len() {
            if !is_punct(toks, n, ',') {
                return Err(ArgFailure { error: ArgError::ExpectedComma, at: n });
            }
            i = n + 1;
        } else {
            i = n;
        }
    }
    Ok(st)
}

/// Arguments of a `Stream` function.
pub struct StreamArg {
    pub item_ty: Vec<ArgToken>,
    pub boxed: ReturnTypeKind,
}

/// Arguments of a `TryStream` function.
pub struct TryStreamArg {
    pub ok: Vec<ArgToken>,
    pub error: Vec<ArgToken>,
    pub boxed: ReturnTypeKind,
}

/// `item = <Type>`, required once, and at most one boxing flag.
pub open spec fn stream_arg_spec(toks: Seq<ArgToken>) -> Result<
    (Seq<ArgToken>, ReturnTypeKind),
    ArgFailure,
> {
    match parse_from(toks, Flavor::Stream, 0, empty_slots()) {
        Err(e) => Err(e),
        Ok(st) => match st.first {
            Some(item) => Ok((item, st.boxed)),
            None => Err(fail(ArgError::Missing(ArgKey::ItemType), toks.len() as int)),
        },
    }
}

/// `ok = <Type>` and `error = <Type>`, each required once, and at most one
/// boxing flag.
pub open spec fn try_stream_arg_spec(toks: Seq<ArgToken>) -> Result<
    (Seq<ArgToken>, Seq<ArgToken>, ReturnTypeKind),
    ArgFailure,
> {
    match parse_from(toks, Flavor::TryStream, 0, empty_slots()) {
        Err(e) => Err(e),
        Ok(st) => match (st.first, st.second) {
            (Some(ok), Some(error)) => Ok((ok, error, st.boxed)),
            (Some(_), None) => Err(fail(ArgError::Missing(ArgKey::ErrorType), toks.len() as int)),
            (None, _) => Err(fail(ArgError::Missing(ArgKey::OkType), toks.len() as int)),
        },
    }
}

impl StreamArg {
    pub fn parse(toks: &Vec<ArgToken>) -> (r: Result<StreamArg, ArgFailure>)
        ensures
            match r {
                Ok(a) => stream_arg_spec(toks@) == Ok::<_, ArgFailure>((a.item_ty@, a.boxed)),
                Err(e) => stream_arg_spec(toks@) == Err::<(Seq<ArgToken>, ReturnTypeKind), _>(e),
            },
    {
        let st = match parse_args(toks, Flavor::Stream) {
            Ok(st) => st,
            Err(e) => return Err(e),
        };
        match st.first {
            Some(item_ty) => Ok(StreamArg { item_ty, boxed: st.boxed }),
            None => Err(ArgFailure { error: ArgError::Missing(ArgKey::ItemType), at: toks.len() }),
        }
    }
}

impl TryStreamArg {
    pub fn parse(toks: &Vec<ArgToken>) -> (r: Result<TryStreamArg, ArgFailure>)
        ensures
            match r {
                Ok(a) => try_stream_arg_spec(toks@) == Ok::<_, ArgFailure>(
                    (a.ok@, a.error@, a.boxed),
                ),
                Err(e) => try_stream_arg_spec(toks@) == Err::<
                    (Seq<ArgToken>, Seq<ArgToken>, ReturnTypeKind),
                    _,
                >(e),
            },
    {
        let st = match parse_args(toks, Flavor::TryStream) {
            Ok(st) => st,
            Err(e) => return Err(e),
        };
        match (st.first, st.second) {
            (Some(ok), Some(error)) => Ok(TryStreamArg { ok, error, boxed: st.boxed }),
            (Some(_), None) => Err(ArgFailure { error: ArgError::Missing(ArgKey::ErrorType), at: toks.len() }),
            (None, _) => Err(ArgFailure { error: ArgError::Missing(ArgKey::OkType), at: toks.len() }),
        }
    }
}

/// Whether a token is the word of a key.
pub open spec fn names(t: ArgToken, k: ArgKey) -> bool {
    t matches ArgToken::Ident(s) && s@ == key_text(k)
}

/// Whether the slots already hold the key.
pub open spec fn taken(st: Slots, k: ArgKey) -> bool {
    match k {
        ArgKey::Boxed => st.boxed == ReturnTypeKind::Boxed { send: true },
        ArgKey::BoxedLocal => st.boxed == ReturnTypeKind::Boxed { send: false },
        ArgKey::ErrorType => st.second is Some,
        _ => st.first is Some,
    }
}

pub proof fn lemma_keyword_of_text(k: ArgKey)
    ensures
        keyword_of(key_text(k)) == Some(k),
{
    reveal_strlit("item");
    reveal_strlit("ok");
    reveal_strlit("error");
    reveal_strlit("boxed");
    reveal_strlit("boxed_local");
    assert("ok"@.len() != "item"@.len());
    assert("error"@.len() != "item"@.len() && "error"@.len() != "ok"@.len());
    assert("boxed"@.len() != "item"@.len() && "boxed"@.len() != "ok"@.len());
    assert("boxed"@[0] != "error"@[0]);
    assert("boxed_local"@.len() != "item"@.len() && "boxed_local"@.len() != "ok"@.len());
    assert("boxed_local"@.len() != "error"@.len() && "boxed_local"@.len() != "boxed"@.len());
}

/// Wherever one boxing flag is met after the other was taken, in either
/// order, the argument list is refused as conflicting.
pub proof fn lemma_flag_after_other_flag(
    toks: Seq<ArgToken>,
    flavor: Flavor,
    i: int,
    st: Slots,
    k: ArgKey,
)
    requires
        0 <= i < toks.len(),
        is_flag(k),
        names(toks[i], k),
        st.boxed == (ReturnTypeKind::Boxed { send: k != ArgKey::Boxed }),
    ensures
        parse_from(toks, flavor, i, st) == Err::<Slots, ArgFailure>(fail(ArgError::Conflict, i)),
{
    lemma_keyword_of_text(k);
}

/// A list that opens with both boxing flags, in either order, is refused as
/// conflicting, whatever follows.
pub proof fn lemma_both_flags_conflict(toks: Seq<ArgToken>, flavor: Flavor, k: ArgKey)
    requires
        toks.len() >= 3,
        is_flag(k),
        names(toks[0], k),
        toks[1] == ArgToken::Punct(','),
        names(toks[2], if k == ArgKey::Boxed { ArgKey::BoxedLocal } else { ArgKey::Boxed }),
    ensures
        parse_from(toks, flavor, 0, empty_slots()) == Err::<Slots, ArgFailure>(fail(ArgError::Conflict, 2)),
{
    lemma_keyword_of_text(k);
    let st = Slots { boxed: ReturnTypeKind::Boxed { send: k == ArgKey::Boxed }, ..empty_slots() };
    assert(entry_spec(toks, flavor, 0, empty_slots()) == Ok::<(int, Slots), ArgFailure>((1, st)));
    lemma_flag_after_other_flag(
        toks,
        flavor,
        2,
        st,
        if k == ArgKey::Boxed { ArgKey::BoxedLocal } else { ArgKey::Boxed },
    );
}

/// Wherever a key that the slots already hold is met again, well-formed, the
/// argument list is refused with a duplicate error that names that key.
pub proof fn lemma_repeated_key(toks: Seq<ArgToken>, flavor: Flavor, i: int, st: Slots, k: ArgKey)
    requires
        0 <= i < toks.len(),
        names(toks[i], k),
        accepts(flavor, k),
        taken(st, k),
        !is_flag(k) ==> i + 1 < toks.len() && toks[i + 1] == ArgToken::Punct('=') && type_end(toks, i + 2)
            > i + 2,
    ensures
        parse_from(toks, flavor, i, st) == Err::<Slots, ArgFailure>(fail(ArgError::Duplicate(k), i)),
{
    lemma_keyword_of_text(k);
}

/// The parse that starts at `i` with `st` accepts every argument before `p`,
/// each followed by `,`, and reaches the argument at `p` with `sp`.
pub open spec fn reaches(toks: Seq<ArgToken>, flavor: Flavor, i: int, st: Slots, p: int, sp: Slots) -> bool
    decreases toks.len() - i,
{
    if i == p {
        st == sp
    } else if i < 0 || i >= toks.len() || p < i {
        false
    } else {
        match entry_spec(toks, flavor, i, st) {
            Err(_) => false,
            Ok((n, st2)) => i < n < toks.len() && toks[n] == ArgToken::Punct(',') && reaches(
                toks,
                flavor,
                n + 1,
                st2,
                p,
                sp,
            ),
        }
    }
}

/// Parsing from `i` goes on as parsing from any argument that it reaches.
pub proof fn lemma_reaches_parse(toks: Seq<ArgToken>, flavor: Flavor, i: int, st: Slots, p: int, sp: Slots)
    requires
        reaches(toks, flavor, i, st, p, sp),
    ensures
        parse_from(toks, flavor, i, st) == parse_from(toks, flavor, p, sp),
    decreases toks.len() - i,
{
    if i != p {
        let (n, st2) = entry_spec(toks, flavor, i, st)->Ok_0;
        lemma_reaches_parse(toks, flavor, n + 1, st2, p, sp);
    }
}

/// The parse reaches its arguments in order: reaching `q` and a later `p`
/// from one start, it reaches `p` from `q`.
pub proof fn lemma_reaches_through(
    toks: Seq<ArgToken>,
    flavor: Flavor,
    i: int,
    st: Slots,
    q: int,
    sq: Slots,
    p: int,
    sp: Slots,
)
    requires
        reaches(toks, flavor, i, st, q, sq),
        reaches(toks, flavor, i, st, p, sp),
        q <= p,
    ensures
        reaches(toks, flavor, q, sq, p, sp),
    decreases toks.len() - i,
{
    if i != q {
        let (n, st2) = entry_spec(toks, flavor, i, st)->Ok_0;
        lemma_reaches_through(toks, flavor, n + 1, st2, q, sq, p, sp);
    }
}

/// A key once taken stays taken along the parse.
pub proof fn lemma_taken_persists(
    toks: Seq<ArgToken>,
    flavor: Flavor,
    i: int,
    st: Slots,
    p: int,
    sp: Slots,
    k: ArgKey,
)
    requires
        reaches(toks, flavor, i, st, p, sp),
        taken(st, k),
    ensures
        taken(sp, k),
    decreases toks.len() - i,
{
    if i != p {
        let (n, st2) = entry_spec(toks, flavor, i, st)->Ok_0;
        lemma_taken_persists(toks, flavor, n + 1, st2, p, sp, k);
    }
}

/// A list in which the parse reaches one boxing flag and, later, the other,
/// every argument before the second being accepted, is refused as
/// conflicting at the second, whichever comes first.
pub proof fn lemma_boxing_exclusive(
    toks: Seq<ArgToken>,
    flavor: Flavor,
    q: int,
    sq: Slots,
    p: int,
    sp: Slots,
    k: ArgKey,
)
    requires
        reaches(toks, flavor, 0, empty_slots(), q, sq),
        reaches(toks, flavor, 0, empty_slots(), p, sp),
        q < p < toks.len(),
        is_flag(k),
        names(toks[q], k),
        names(toks[p], if k == ArgKey::Boxed { ArgKey::BoxedLocal } else { ArgKey::Boxed }),
    ensures
        parse_from(toks, flavor, 0, empty_slots()) == Err::<Slots, ArgFailure>(
            fail(ArgError::Conflict, p),
        ),
{
    lemma_keyword_of_text(k);
    lemma_reaches_through(toks, flavor, 0, empty_slots(), q, sq, p, sp);
    let (n, st2) = entry_spec(toks, flavor, q, sq)->Ok_0;
    assert(taken(st2, k));
    lemma_taken_persists(toks, flavor, n + 1, st2, p, sp, k);
    lemma_flag_after_other_flag(
        toks,
        flavor,
        p,
        sp,
        if k == ArgKey::Boxed { ArgKey::BoxedLocal } else { ArgKey::Boxed },
    );
    lemma_reaches_parse(toks, flavor, 0, empty_slots(), p, sp);
}

/// A list in which the parse reaches a key twice, every argument before the
/// second being accepted and the second well-formed, is refused with a
/// duplicate error that names the key, at the second.
pub proof fn lemma_duplicate_detected(
    toks: Seq<ArgToken>,
    flavor: Flavor,
    q: int,
    sq: Slots,
    p: int,
    sp: Slots,
    k: ArgKey,
)
    requires
        reaches(toks, flavor, 0, empty_slots(), q, sq),
        reaches(toks, flavor, 0, empty_slots(), p, sp),
        q < p < toks.len(),
        names(toks[q], k),
        names(toks[p], k),
        !is_flag(k) ==> toks[p + 1] == ArgToken::Punct('=') && p + 1 < toks.len() && type_end(
            toks,
            p + 2,
        ) > p + 2,
    ensures
        parse_from(toks, flavor, 0, empty_slots()) == Err::<Slots, ArgFailure>(
            fail(ArgError::Duplicate(k), p),
        ),
{
    lemma_keyword_of_text(k);
    lemma_reaches_through(toks, flavor, 0, empty_slots(), q, sq, p, sp);
    let (n, st2) = entry_spec(toks, flavor, q, sq)->Ok_0;
    assert(taken(st2, k));
    lemma_taken_persists(toks, flavor, n + 1, st2, p, sp, k);
    lemma_repeated_key(toks, flavor, p, sp, k);
    lemma_reaches_parse(toks, flavor, 0, empty_slots(), p, sp);
}

} // verus!
