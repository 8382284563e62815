use futures_async_stream_macro::args::{
    ArgError, ArgFailure, ArgKey, ArgToken, Flavor, ReturnTypeKind, StreamArg, TryStreamArg,
};
use futures_async_stream_macro::capture::{
    copy_lifetimes, expand_async_body, unelide_lifetimes, Binding, FnArg, Lifetime, ParamType,
    Pattern,
};
use futures_async_stream_macro::suspend::{lower, visit, Code, Gen, Step, StructuralError};
use futures_async_stream_macro::synth::{
    attribute, make_gen_body, Completion, FnSig, Input, ItemKind, Output, TransformError,
};

fn ident(s: &str) -> ArgToken {
    ArgToken::Ident(s.to_string())
}

fn punct(c: char) -> ArgToken {
    ArgToken::Punct(c)
}

fn plain(s: &str) -> Box<Code> {
    Box::new(Code::Plain(s.to_string()))
}

fn typed(pat: Pattern, text: &str, is_reference: bool, lifetimes: Vec<Lifetime>) -> FnArg {
    FnArg::Typed { attrs: Vec::new(), pat, ty: ParamType { text: text.to_string(), is_reference, lifetimes } }
}

fn simple(name: &str) -> Pattern {
    Pattern::Ident { name: name.to_string(), by_ref: false, mutable: false }
}

fn sig(inputs: Vec<FnArg>, lifetimes: Vec<Lifetime>, block: Code) -> FnSig {
    FnSig {
        attrs: Vec::new(),
        vis: "pub".to_string(),
        qualifiers: String::new(),
        name: "numbers".to_string(),
        lifetimes,
        type_params: String::new(),
        where_clause: String::new(),
        inputs,
        block,
        semi: false,
    }
}

fn two_yields() -> Code {
    Code::Then(Box::new(Code::Yield(plain("1"))), Box::new(Code::Yield(plain("2"))))
}

#[test]
fn stream_of_u32_is_unboxed_with_two_emits() {
    let args = vec![ident("item"), punct('='), ident("u32")];
    let out = attribute(&args, Input::Fn(sig(Vec::new(), Vec::new(), two_yields())), Flavor::Stream)
        .unwrap();
    let Output::Function(a) = out else { panic!("expected a function") };
    assert_eq!(a.return_type.kind, ReturnTypeKind::Default);
    assert_eq!(a.return_type.item, ItemKind::Stream { item: vec![ident("u32")] });
    assert!(a.return_type.bounds.is_empty());
    let body = a.body.unwrap();
    assert_eq!(
        body.body,
        Gen::Then(
            Box::new(Gen::Emit(Box::new(Gen::Plain("1".to_string())))),
            Box::new(Gen::Emit(Box::new(Gen::Plain("2".to_string())))),
        )
    );
    assert_eq!(body.completion, Completion::Unit);
    assert!(body.trailing_suspend);
    assert!(body.capture_move);
    assert!(!body.boxed);
    assert_eq!(body.error_type, None);
}

#[test]
fn boxed_try_stream_is_send_and_carries_result() {
    let args = vec![
        ident("ok"),
        punct('='),
        ident("u32"),
        punct(','),
        ident("error"),
        punct('='),
        ident("MyError"),
        punct(','),
        ident("boxed"),
    ];
    let out = attribute(&args, Input::Fn(sig(Vec::new(), Vec::new(), Code::Yield(plain("Ok(1)")))), Flavor::TryStream)
        .unwrap();
    let Output::Function(a) = out else { panic!("expected a function") };
    assert_eq!(a.return_type.kind, ReturnTypeKind::Boxed { send: true });
    assert_eq!(
        a.return_type.item,
        ItemKind::TryStream { ok: vec![ident("u32")], error: vec![ident("MyError")] }
    );
    let body = a.body.unwrap();
    assert!(body.boxed);
    assert_eq!(body.completion, Completion::OkUnit);
    assert_eq!(body.error_type, Some(vec![ident("MyError")]));
    assert_eq!(body.body, Gen::EmitTry(Box::new(Gen::Plain("Ok(1)".to_string()))));
}

#[test]
fn both_boxing_flags_conflict() {
    let args = vec![ident("item"), punct('='), ident("u32"), punct(','), ident("boxed"), punct(','), ident("boxed_local")];
    let failure = StreamArg::parse(&args).err().unwrap();
    assert_eq!(failure, ArgFailure { error: ArgError::Conflict, at: 6 });
    let err = failure.error;
    let msg = err.message();
    assert!(msg.contains("`boxed`"));
    assert!(msg.contains("`boxed_local`"));
    let swapped = vec![ident("boxed_local"), punct(','), ident("boxed"), punct(','), ident("item"), punct('='), ident("u32")];
    assert_eq!(StreamArg::parse(&swapped).err().map(|f| f.error), Some(ArgError::Conflict));
}

#[test]
fn both_flags_conflict_for_try_stream() {
    let args = vec![ident("boxed"), punct(','), ident("boxed_local")];
    assert_eq!(TryStreamArg::parse(&args).err().map(|f| f.error), Some(ArgError::Conflict));
}

#[test]
fn destructuring_parameter_is_held_then_unpacked() {
    let pat = Pattern::Destructure("(a, b)".to_string());
    let inputs = vec![typed(pat, "(String, String)", false, Vec::new())];
    let (params, prologue) = expand_async_body(inputs);
    assert_eq!(
        prologue,
        vec![Binding::Hold(0), Binding::Unpack(Pattern::Destructure("(a, b)".to_string()), 0)]
    );
    assert_eq!(params, vec![typed(Pattern::Synth(0), "(String, String)", false, Vec::new())]);
}

#[test]
fn for_await_becomes_cursor_loop() {
    let body = Code::ForAwait {
        pat: Some("x".to_string()),
        at: 0,
        source: plain("source"),
        body: Box::new(Code::Yield(plain("x"))),
    };
    let g = visit(body, Flavor::Stream).unwrap();
    assert_eq!(
        g,
        Gen::CursorLoop {
            pat: "x".to_string(),
            source: Box::new(Gen::Plain("source".to_string())),
            body: Box::new(Gen::Emit(Box::new(Gen::Plain("x".to_string())))),
            at: 0,
        }
    );
    let steps = lower(g);
    assert_eq!(
        steps,
        Step::Scope(Box::new(Step::Then(
            Box::new(Step::PinCursor(Box::new(Step::Text("source".to_string())))),
            Box::new(Step::Loop(Box::new(Step::PollNext {
                pat: "x".to_string(),
                item: Box::new(Step::SuspendEmit(Box::new(Step::Text("x".to_string())))),
                done: Box::new(Step::Break),
                pending: Box::new(Step::Suspend),
            }))),
        )))
    );
}

#[test]
fn for_await_without_pattern_is_refused() {
    let body = Code::Then(
        plain("let a = 1;"),
        Box::new(Code::ForAwait { pat: None, source: plain("s"), body: plain(""), at: 7 }),
    );
    assert_eq!(visit(body, Flavor::Stream).err(), Some(StructuralError::MissingPattern { at: 7 }));
    let args = vec![ident("item"), punct('='), ident("u32")];
    let block = Code::ForAwait { pat: None, source: plain("s"), body: plain(""), at: 3 };
    let r = attribute(&args, Input::Fn(sig(Vec::new(), Vec::new(), block)), Flavor::Stream);
    assert_eq!(r.err(), Some(TransformError::Body(StructuralError::MissingPattern { at: 3 })));
}

#[test]
fn await_becomes_poll_loop_and_nested_units_are_kept() {
    let body = Code::Scope(Box::new(Code::Then(
        Box::new(Code::Await(plain("fut"))),
        Box::new(Code::Nested("async { x.await }".to_string())),
    )));
    let g = visit(body, Flavor::Stream).unwrap();
    assert_eq!(
        g,
        Gen::Scope(Box::new(Gen::Then(
            Box::new(Gen::PollAwait(Box::new(Gen::Plain("fut".to_string())))),
            Box::new(Gen::Nested("async { x.await }".to_string())),
        )))
    );
}

#[test]
fn duplicate_keys_are_named() {
    let items = vec![ident("item"), punct('='), ident("u32"), punct(','), ident("item"), punct('='), ident("u8")];
    assert_eq!(StreamArg::parse(&items).err().map(|f| f.error), Some(ArgError::Duplicate(ArgKey::ItemType)));
    assert_eq!(
        ArgError::Duplicate(ArgKey::ItemType).message(),
        "duplicate `item` argument"
    );
    let boxed = vec![ident("boxed"), punct(','), ident("boxed"), punct(','), ident("item"), punct('='), ident("u8")];
    assert_eq!(StreamArg::parse(&boxed).err().map(|f| f.error), Some(ArgError::Duplicate(ArgKey::Boxed)));
    let errors = vec![
        ident("ok"), punct('='), ident("u8"), punct(','),
        ident("error"), punct('='), ident("E"), punct(','),
        ident("error"), punct('='), ident("F"),
    ];
    assert_eq!(TryStreamArg::parse(&errors).err().map(|f| f.error), Some(ArgError::Duplicate(ArgKey::ErrorType)));
}

#[test]
fn missing_keys_are_reported() {
    assert_eq!(StreamArg::parse(&Vec::new()).err().map(|f| f.error), Some(ArgError::Missing(ArgKey::ItemType)));
    assert_eq!(ArgError::Missing(ArgKey::ItemType).message(), "expected `item`");
    let only_boxed = vec![ident("boxed")];
    assert_eq!(TryStreamArg::parse(&only_boxed).err().map(|f| f.error), Some(ArgError::Missing(ArgKey::OkType)));
    let only_ok = vec![ident("ok"), punct('='), ident("u8")];
    assert_eq!(TryStreamArg::parse(&only_ok).err().map(|f| f.error), Some(ArgError::Missing(ArgKey::ErrorType)));
}

#[test]
fn malformed_arguments_are_refused() {
    let unknown = vec![ident("item"), punct('='), ident("u8"), punct(','), ident("size")];
    assert_eq!(StreamArg::parse(&unknown).err().map(|f| f.error), Some(ArgError::Unexpected));
    let wrong_flavor = vec![ident("ok"), punct('='), ident("u8")];
    assert_eq!(StreamArg::parse(&wrong_flavor).err().map(|f| f.error), Some(ArgError::Unexpected));
    let no_eq = vec![ident("item"), ident("u8")];
    assert_eq!(StreamArg::parse(&no_eq).err().map(|f| f.error), Some(ArgError::ExpectedEq));
    let no_type = vec![ident("item"), punct('='), punct(',')];
    assert_eq!(StreamArg::parse(&no_type).err().map(|f| f.error), Some(ArgError::ExpectedType));
    let no_comma = vec![ident("boxed"), ident("item"), punct('='), ident("u8")];
    assert_eq!(StreamArg::parse(&no_comma).err().map(|f| f.error), Some(ArgError::ExpectedComma));
    assert_eq!(ArgError::ExpectedComma.message(), "expected `,`");
}

#[test]
fn generic_type_keeps_its_inner_comma() {
    let args = vec![
        ident("item"), punct('='), ident("Result"), punct('<'), ident("u8"), punct(','),
        ident("E"), punct('>'), punct(','), ident("boxed_local"), punct(','),
    ];
    let a = StreamArg::parse(&args).unwrap();
    assert_eq!(a.item_ty, vec![ident("Result"), punct('<'), ident("u8"), punct(','), ident("E"), punct('>')]);
    assert_eq!(a.boxed, ReturnTypeKind::Boxed { send: false });
    assert!(a.boxed.is_boxed());
    assert!(!ReturnTypeKind::Default.is_boxed());
}

#[test]
fn simple_parameters_are_rebound_in_order() {
    let inputs = vec![
        FnArg::Receiver { text: "&self".to_string(), lifetimes: vec![Lifetime::Elided] },
        typed(simple("x"), "u32", false, Vec::new()),
        typed(simple("r"), "&str", true, vec![Lifetime::Elided]),
        typed(Pattern::Ident { name: "m".to_string(), by_ref: false, mutable: true }, "Vec<u8>", false, Vec::new()),
        typed(simple("y"), "String", false, Vec::new()),
    ];
    let (params, prologue) = expand_async_body(inputs);
    assert_eq!(
        prologue,
        vec![
            Binding::Rebind("x".to_string()),
            Binding::Hold(3),
            Binding::Unpack(Pattern::Ident { name: "m".to_string(), by_ref: false, mutable: true }, 3),
            Binding::Rebind("y".to_string()),
        ]
    );
    assert_eq!(params[1], typed(simple("x"), "u32", false, Vec::new()));
    assert_eq!(params[2], typed(simple("r"), "&str", true, vec![Lifetime::Elided]));
    assert_eq!(params[3], typed(Pattern::Synth(3), "Vec<u8>", false, Vec::new()));
}

#[test]
fn self_parameter_is_captured_as_is() {
    let inputs = vec![typed(simple("self"), "Box<Self>", false, Vec::new())];
    let (params, prologue) = expand_async_body(inputs);
    assert!(prologue.is_empty());
    assert_eq!(params, vec![typed(simple("self"), "Box<Self>", false, Vec::new())]);
}

#[test]
fn elided_lifetimes_get_fresh_names_and_bound_the_return_type() {
    let a = Lifetime::Named("a".to_string());
    let inputs = vec![
        typed(simple("x"), "&u8", true, vec![Lifetime::Elided]),
        typed(simple("y"), "&'a str", true, vec![Lifetime::Named("a".to_string())]),
        typed(simple("z"), "&'static str", true, vec![Lifetime::Named("static".to_string())]),
    ];
    let mut generics = vec![Lifetime::Named("a".to_string())];
    let params = unelide_lifetimes(&mut generics, inputs);
    let fresh = Lifetime::Fresh { param: 0, slot: 0 };
    assert_eq!(generics, vec![Lifetime::Named("a".to_string()), Lifetime::Fresh { param: 0, slot: 0 }]);
    assert_eq!(params[0], typed(simple("x"), "&u8", true, vec![Lifetime::Fresh { param: 0, slot: 0 }]));
    assert_eq!(params[2], typed(simple("z"), "&'static str", true, vec![Lifetime::Named("static".to_string())]));
    assert_eq!(copy_lifetimes(&generics), vec![a, fresh]);
}

#[test]
fn attribute_bounds_return_type_by_parameter_lifetimes() {
    let args = vec![ident("item"), punct('='), ident("u8")];
    let inputs = vec![typed(simple("s"), "&[u8]", true, vec![Lifetime::Elided])];
    let out = attribute(&args, Input::Fn(sig(inputs, Vec::new(), Code::Yield(plain("s[0]")))), Flavor::Stream)
        .unwrap();
    let Output::Function(a) = out else { panic!("expected a function") };
    assert_eq!(a.lifetimes, vec![Lifetime::Fresh { param: 0, slot: 0 }]);
    assert_eq!(a.return_type.bounds, vec![Lifetime::Fresh { param: 0, slot: 0 }]);
    assert!(a.body.unwrap().prologue.is_empty());
}

#[test]
fn body_without_suspension_is_still_a_generator() {
    let args = vec![ident("item"), punct('='), ident("u8")];
    let out = attribute(&args, Input::Fn(sig(Vec::new(), Vec::new(), *plain("let _ = 1;"))), Flavor::Stream)
        .unwrap();
    let Output::Function(a) = out else { panic!("expected a function") };
    let body = a.body.unwrap();
    assert_eq!(body.body, Gen::Plain("let _ = 1;".to_string()));
    assert!(body.trailing_suspend);
    let direct = make_gen_body(false, Vec::new(), Gen::Plain(String::new()), Flavor::TryStream, None, false);
    assert!(direct.trailing_suspend);
    assert_eq!(direct.completion, Completion::OkUnit);
}

#[test]
fn same_input_gives_same_output() {
    let make = || {
        let args = vec![ident("item"), punct('='), ident("u32"), punct(','), ident("boxed")];
        let inputs = vec![
            typed(Pattern::Destructure("(a, b)".to_string()), "(u8, u8)", false, Vec::new()),
            typed(simple("r"), "&u8", true, vec![Lifetime::Elided]),
        ];
        attribute(&args, Input::Fn(sig(inputs, Vec::new(), two_yields())), Flavor::Stream)
    };
    assert_eq!(make(), make());
}

#[test]
fn async_block_takes_no_arguments() {
    let block = Code::Yield(plain("1"));
    let r = attribute(&vec![ident("item")], Input::Async { capture_move: true, block, semi: true }, Flavor::Stream);
    assert_eq!(r.err(), Some(TransformError::Argument(ArgFailure { error: ArgError::Unexpected, at: 0 })));
    let block = Code::Yield(plain("1"));
    let out = attribute(&Vec::new(), Input::Async { capture_move: true, block, semi: true }, Flavor::TryStream)
        .unwrap();
    let Output::Block { body, semi } = out else { panic!("expected a block") };
    assert!(semi);
    assert!(body.capture_move);
    assert_eq!(body.error_type, None);
    assert_eq!(body.completion, Completion::OkUnit);
    assert_eq!(body.body, Gen::EmitTry(Box::new(Gen::Plain("1".to_string()))));
}

#[test]
fn declaration_without_body_keeps_no_body() {
    let args = vec![ident("item"), punct('='), ident("u8")];
    let mut s = sig(Vec::new(), Vec::new(), *plain(""));
    s.semi = true;
    let out = attribute(&args, Input::Fn(s), Flavor::Stream).unwrap();
    let Output::Function(a) = out else { panic!("expected a function") };
    assert_eq!(a.body, None);
    assert_eq!(a.name, "numbers");
}

#[test]
fn each_suspension_point_gives_one_suspend_construct() {
    let body = Code::Then(
        Box::new(Code::Yield(Box::new(Code::Await(plain("next()"))))),
        Box::new(Code::ForAwait {
            pat: Some("v".to_string()),
            at: 5,
            source: Box::new(Code::Await(plain("open()"))),
            body: Box::new(Code::Scope(Box::new(Code::Yield(plain("v"))))),
        }),
    );
    let g = visit(body, Flavor::TryStream).unwrap();
    assert_eq!(
        g,
        Gen::Then(
            Box::new(Gen::EmitTry(Box::new(Gen::PollAwait(Box::new(Gen::Plain("next()".to_string())))))),
            Box::new(Gen::CursorLoop {
                pat: "v".to_string(),
                at: 5,
                source: Box::new(Gen::PollAwait(Box::new(Gen::Plain("open()".to_string())))),
                body: Box::new(Gen::Scope(Box::new(Gen::EmitTry(Box::new(Gen::Plain("v".to_string())))))),
            }),
        )
    );
}

#[test]
fn trailing_comma_is_accepted() {
    let args = vec![ident("boxed_local"), punct(','), ident("item"), punct('='), ident("u8"), punct(',')];
    let a = StreamArg::parse(&args).unwrap();
    assert_eq!(a.item_ty, vec![ident("u8")]);
    assert_eq!(a.boxed, ReturnTypeKind::Boxed { send: false });
}

#[test]
fn type_ends_where_the_type_grammar_ends() {
    let run_on = vec![ident("item"), punct('='), ident("u32"), ident("boxed")];
    assert_eq!(StreamArg::parse(&run_on).err(), Some(ArgFailure { error: ArgError::ExpectedComma, at: 3 }));
    let try_run_on = vec![
        ident("ok"), punct('='), ident("u32"), ident("boxed"), punct(','),
        ident("error"), punct('='), ident("E"),
    ];
    assert_eq!(
        TryStreamArg::parse(&try_run_on).err(),
        Some(ArgFailure { error: ArgError::ExpectedComma, at: 3 })
    );
    let arrow = vec![
        ident("item"), punct('='), ident("Foo"), punct('<'), ident("Box"), punct('<'), ident("dyn"),
        ident("Fn"), ArgToken::Group("()".to_string()), punct('-'), punct('>'), ident("u8"),
        punct('>'), punct(','), ident("u8"), punct('>'), punct(','), ident("boxed"),
    ];
    let a = StreamArg::parse(&arrow).unwrap();
    assert_eq!(a.item_ty.len(), 14);
    assert_eq!(a.boxed, ReturnTypeKind::Boxed { send: true });
    let tuple = vec![ident("item"), punct('='), ArgToken::Group("(u8, String)".to_string())];
    assert_eq!(StreamArg::parse(&tuple).unwrap().item_ty, vec![ArgToken::Group("(u8, String)".to_string())]);
}

#[test]
fn argument_errors_carry_their_position() {
    let no_eq = vec![ident("boxed"), punct(','), ident("item")];
    assert_eq!(StreamArg::parse(&no_eq).err(), Some(ArgFailure { error: ArgError::ExpectedEq, at: 3 }));
    let missing = vec![ident("boxed")];
    assert_eq!(
        StreamArg::parse(&missing).err(),
        Some(ArgFailure { error: ArgError::Missing(ArgKey::ItemType), at: 1 })
    );
    let no_type = vec![ident("item"), punct('='), punct(',')];
    assert_eq!(StreamArg::parse(&no_type).err(), Some(ArgFailure { error: ArgError::ExpectedType, at: 2 }));
}

#[test]
fn await_and_try_yield_lower_to_protocol_steps() {
    let g = visit(Code::Yield(Box::new(Code::Await(plain("f")))), Flavor::TryStream).unwrap();
    assert_eq!(
        lower(g),
        Step::SplitResult {
            value: Box::new(Step::Scope(Box::new(Step::Then(
                Box::new(Step::PinFuture(Box::new(Step::Text("f".to_string())))),
                Box::new(Step::Loop(Box::new(Step::PollFuture {
                    ready: Box::new(Step::BreakReady),
                    pending: Box::new(Step::Suspend),
                }))),
            )))),
            ok: Box::new(Step::SuspendEmit(Box::new(Step::OkValue))),
            err: Box::new(Step::Then(
                Box::new(Step::SuspendEmit(Box::new(Step::ErrValue))),
                Box::new(Step::Complete),
            )),
        }
    );
}

#[test]
fn parameter_attributes_are_kept() {
    let arg = FnArg::Typed {
        attrs: vec!["#[allow(unused)]".to_string()],
        pat: Pattern::Destructure("(a, b)".to_string()),
        ty: ParamType { text: "(u8, u8)".to_string(), is_reference: false, lifetimes: Vec::new() },
    };
    let (params, _) = expand_async_body(vec![arg]);
    assert_eq!(
        params[0],
        FnArg::Typed {
            attrs: vec!["#[allow(unused)]".to_string()],
            pat: Pattern::Synth(0),
            ty: ParamType { text: "(u8, u8)".to_string(), is_reference: false, lifetimes: Vec::new() },
        }
    );
}

#[test]
fn static_lifetime_does_not_bound_the_return_type() {
    let args = vec![ident("item"), punct('='), ident("u8")];
    let inputs = vec![
        typed(simple("x"), "&'a u8", true, vec![Lifetime::Named("a".to_string())]),
        typed(simple("s"), "&'static str", true, vec![Lifetime::Named("static".to_string())]),
    ];
    let generics = vec![Lifetime::Named("a".to_string())];
    let out = attribute(&args, Input::Fn(sig(inputs, generics, Code::Yield(plain("*x")))), Flavor::Stream)
        .unwrap();
    let Output::Function(a) = out else { panic!("expected a function") };
    assert_eq!(a.return_type.bounds, vec![Lifetime::Named("a".to_string())]);
    assert_eq!(a.lifetimes, vec![Lifetime::Named("a".to_string())]);
}
