use c2rust_analyze::rewrite::apply::emit_rewrite;
use c2rust_analyze::rewrite::{check_spans, LifetimeName, Mutability, Rewrite, Span};

fn identity() -> Box<Rewrite> {
    Box::new(Rewrite::Identity)
}

fn ref_(rw: Box<Rewrite>) -> Box<Rewrite> {
    Box::new(Rewrite::Ref(rw, Mutability::Not))
}

fn index(arr: Box<Rewrite>, idx: Box<Rewrite>) -> Box<Rewrite> {
    Box::new(Rewrite::Index(arr, idx))
}

fn cast_usize(rw: Box<Rewrite>) -> Box<Rewrite> {
    Box::new(Rewrite::Cast(rw, "usize".to_owned()))
}

fn text(s: &str) -> Rewrite {
    Rewrite::Text(s.to_owned())
}

fn spliced(rw: &Rewrite, prec: u8, src: &str, own: Span) -> String {
    let mut out = Vec::new();
    assert!(own.check_fits(src.len()));
    assert!(check_spans(rw, src.len()));
    emit_rewrite(&mut out, rw, prec, Some(src.as_bytes()), own);
    String::from_utf8(out).unwrap()
}

/// Test precedence handling in the preview of a rewrite
#[test]
fn rewrite_pretty_precedence() {
    // Ref vs Index
    assert_eq!(ref_(index(identity(), identity())).to_string(), "&$e[$e]",);

    assert_eq!(
        index(ref_(identity()), ref_(identity())).to_string(),
        "(&$e)[&$e]",
    );

    // Ref vs Cast
    assert_eq!(cast_usize(ref_(identity())).to_string(), "&$e as usize",);

    assert_eq!(ref_(cast_usize(identity())).to_string(), "&($e as usize)",);

    // Cast vs Index
    assert_eq!(
        cast_usize(index(identity(), identity())).to_string(),
        "$e[$e] as usize",
    );

    assert_eq!(
        index(cast_usize(identity()), cast_usize(identity())).to_string(),
        "($e as usize)[$e as usize]",
    );

    // Index vs Index
    assert_eq!(
        index(index(identity(), identity()), identity()).to_string(),
        "$e[$e][$e]",
    );
}

#[test]
fn preview_markers() {
    assert_eq!(Rewrite::Identity.to_string(), "$e");
    assert_eq!(Rewrite::Sub(1, Span::new(0, 3, 7)).to_string(), "$1");
    assert_eq!(Rewrite::Sub(120, Span::new(0, 3, 7)).to_string(), "$120");
    assert_eq!(Rewrite::Extract(Span::new(0, 3, 17)).to_string(), "<span 0:3..17>");
    assert_eq!(Rewrite::Extract(Span::new(12, 3, 17)).to_string(), "<span 12:3..17>");
    assert_eq!(Rewrite::LitZero.to_string(), "0");
    assert_eq!(text("a + b").to_string(), "a + b");
    assert_eq!(Rewrite::Print("Vec<u8>".to_owned()).to_string(), "Vec<u8>");
    assert_eq!(Rewrite::FnArg(12).to_string(), "arg12");
    assert_eq!(Rewrite::default(), Rewrite::Identity);
}

#[test]
fn preview_keeps_non_ascii_text() {
    assert_eq!(text("\"żółw\"").to_string(), "\"żółw\"");
}

#[test]
fn plain_nodes_get_no_parentheses() {
    // as the array operand of an index, the tightest position there is
    let call = Rewrite::Call("f".to_owned(), vec![Rewrite::Identity, text("1")]);
    assert_eq!(call.to_string(), "f($e, 1)");
    assert_eq!(index(Box::new(call), identity()).to_string(), "f($e, 1)[$e]");
    assert_eq!(index(Box::new(text("x")), identity()).to_string(), "x[$e]");
    assert_eq!(
        index(Box::new(Rewrite::Extract(Span::new(0, 1, 2))), identity()).to_string(),
        "<span 0:1..2>[$e]"
    );
}

#[test]
fn prefix_operators() {
    assert_eq!(Rewrite::Ref(identity(), Mutability::Mut).to_string(), "&mut $e");
    assert_eq!(Rewrite::Deref(identity()).to_string(), "*$e");
    assert_eq!(Rewrite::Deref(ref_(identity())).to_string(), "*&$e");
    assert_eq!(Rewrite::Deref(cast_usize(identity())).to_string(), "*($e as usize)");
    assert_eq!(cast_usize(Box::new(Rewrite::Deref(identity()))).to_string(), "*$e as usize");
    assert_eq!(cast_usize(cast_usize(identity())).to_string(), "$e as usize as usize");
    assert_eq!(
        Rewrite::AddrOf(cast_usize(identity()), Mutability::Not).to_string(),
        "core::ptr::addr_of!($e as usize)"
    );
    assert_eq!(
        Rewrite::AddrOf(identity(), Mutability::Mut).to_string(),
        "core::ptr::addr_of_mut!($e)"
    );
}

#[test]
fn removed_cast_renders_as_its_inner_node() {
    let inner = Rewrite::RemovedCast(ref_(identity()));
    assert_eq!(inner.to_string(), "&$e");
    assert_eq!(index(Box::new(inner), identity()).to_string(), "(&$e)[$e]");
    assert_eq!(Rewrite::RemovedCast(identity()).to_string(), "$e");
}

#[test]
fn slice_ranges() {
    let full = Rewrite::SliceRange(identity(), None, None);
    assert_eq!(full.to_string(), "$e[..]");
    let from = Rewrite::SliceRange(ref_(identity()), Some(cast_usize(identity())), None);
    assert_eq!(from.to_string(), "(&$e)[$e as usize..]");
    let both = Rewrite::SliceRange(identity(), Some(Box::new(text("1"))), Some(Box::new(text("n"))));
    assert_eq!(both.to_string(), "$e[1..n]");
    assert_eq!(ref_(Box::new(both)).to_string(), "&$e[1..n]");
}

#[test]
fn calls_and_method_calls() {
    assert_eq!(Rewrite::Call("f".to_owned(), vec![]).to_string(), "f()");
    assert_eq!(
        Rewrite::Call("f".to_owned(), vec![*ref_(identity()), *cast_usize(identity()), Rewrite::LitZero])
            .to_string(),
        "f(&$e, $e as usize, 0)"
    );
    assert_eq!(
        Rewrite::MethodCall("as_ptr".to_owned(), identity(), vec![]).to_string(),
        "$e.as_ptr()"
    );
    assert_eq!(
        Rewrite::MethodCall("set".to_owned(), ref_(identity()), vec![text("1"), text("2")]).to_string(),
        "(&$e).set(1, 2)"
    );
}

#[test]
fn blocks_and_lets() {
    let let_ = Rewrite::Let(vec![("x".to_owned(), Rewrite::LitZero), ("y".to_owned(), text("1"))]);
    assert_eq!(let_.to_string(), "let (x, y, ) = (0, 1, )");
    let block = Rewrite::Block(vec![let_, text("g(x)")], Some(Box::new(text("y"))));
    assert_eq!(block.to_string(), "{ let (x, y, ) = (0, 1, ); g(x); y }");
    assert_eq!(Rewrite::Block(vec![], None).to_string(), "{ }");
    assert_eq!(Rewrite::Block(vec![text("f()")], None).to_string(), "{ f(); }");
    assert_eq!(Rewrite::Let(vec![]).to_string(), "let () = ()");
}

#[test]
fn types() {
    let i32_ = || Box::new(Rewrite::Print("i32".to_owned()));
    assert_eq!(Rewrite::TyPtr(i32_(), Mutability::Not).to_string(), "*const i32");
    assert_eq!(Rewrite::TyPtr(i32_(), Mutability::Mut).to_string(), "*mut i32");
    assert_eq!(
        Rewrite::TyRef(LifetimeName::Elided, i32_(), Mutability::Not).to_string(),
        "&i32"
    );
    assert_eq!(
        Rewrite::TyRef(LifetimeName::Elided, i32_(), Mutability::Mut).to_string(),
        "&mut i32"
    );
    assert_eq!(
        Rewrite::TyRef(LifetimeName::Explicit("h0".to_owned()), i32_(), Mutability::Mut).to_string(),
        "&'h0 mut i32"
    );
    assert_eq!(Rewrite::TySlice(i32_()).to_string(), "[i32]");
    assert_eq!(
        Rewrite::TyCtor("core::cell::Cell".to_owned(), vec![*i32_()]).to_string(),
        "core::cell::Cell<i32>"
    );
    assert_eq!(
        Rewrite::_TyGenericParams(vec![text("'h0"), text("'h1")]).to_string(),
        "<'h0, 'h1>"
    );
    assert_eq!(
        Rewrite::StaticMut(Mutability::Mut, Span::new(0, 4, 9)).to_string(),
        "static mut <span 0:4..9>"
    );
    assert_eq!(
        Rewrite::StaticMut(Mutability::Not, Span::new(0, 4, 9)).to_string(),
        "static <span 0:4..9>"
    );
}

#[test]
fn function_definitions() {
    let def = Rewrite::DefineFn {
        name: "shim".to_owned(),
        arg_tys: vec![text("*mut i32"), text("usize")],
        return_ty: Some(Box::new(text("i32"))),
        body: Box::new(Rewrite::Call("real".to_owned(), vec![Rewrite::FnArg(0), Rewrite::FnArg(1)])),
    };
    assert_eq!(
        def.to_string(),
        "unsafe fn shim(arg0: *mut i32, arg1: usize) -> i32 { real(arg0, arg1) }"
    );
    let bare = Rewrite::DefineFn {
        name: "f".to_owned(),
        arg_tys: vec![],
        return_ty: None,
        body: Box::new(Rewrite::Block(vec![], None)),
    };
    assert_eq!(bare.to_string(), "unsafe fn f() { { } }");
}

#[test]
fn splice_takes_text_from_the_source() {
    let src = "f.y = x;";
    let own = Span::new(0, 6, 7);
    assert_eq!(spliced(&Rewrite::Identity, 0, src, own), "x");
    assert_eq!(spliced(&Rewrite::Identity, 1, src, own), "(x)");
    assert_eq!(spliced(&Rewrite::Sub(0, Span::new(0, 0, 3)), 0, src, own), "f.y");
    assert_eq!(spliced(&Rewrite::Sub(0, Span::new(0, 0, 3)), 3, src, own), "(f.y)");
    assert_eq!(spliced(&Rewrite::Extract(Span::new(0, 0, 3)), 3, src, own), "f.y");
    assert_eq!(
        spliced(&Rewrite::MethodCall("as_ptr".to_owned(), identity(), vec![]), 0, src, own),
        "(x).as_ptr()"
    );
    assert_eq!(
        spliced(&Rewrite::StaticMut(Mutability::Mut, Span::new(0, 0, 3)), 0, src, own),
        "static mut f.y"
    );
}

#[test]
fn spans_are_checked_against_the_text() {
    assert!(Span::new(0, 2, 2).check_fits(2));
    assert!(!Span::new(0, 2, 3).check_fits(2));
    assert!(!Span::new(0, 2, 1).check_fits(5));
    assert!(check_spans(&Rewrite::Identity, 0));
    assert!(check_spans(&Rewrite::Sub(0, Span::new(0, 1, 4)), 4));
    assert!(!check_spans(&Rewrite::Sub(0, Span::new(0, 1, 5)), 4));
    let nested = Rewrite::Call(
        "f".to_owned(),
        vec![Rewrite::Identity, *ref_(Box::new(Rewrite::Extract(Span::new(0, 3, 9))))],
    );
    assert!(check_spans(&nested, 9));
    assert!(!check_spans(&nested, 8));
    let let_ = Rewrite::Let(vec![("x".to_owned(), Rewrite::Sub(1, Span::new(0, 0, 6)))]);
    assert!(check_spans(&let_, 6));
    assert!(!check_spans(&let_, 5));
}

#[test]
fn clone_copies_the_whole_tree() {
    let tree = Rewrite::DefineFn {
        name: "shim".to_owned(),
        arg_tys: vec![
            Rewrite::TyPtr(Box::new(Rewrite::Print("i32".to_owned())), Mutability::Mut),
            Rewrite::TyRef(
                LifetimeName::Explicit("a".to_owned()),
                Box::new(Rewrite::TySlice(Box::new(Rewrite::TyCtor("Cell".to_owned(), vec![text("u8")])))),
                Mutability::Not,
            ),
            Rewrite::_TyGenericParams(vec![text("'a")]),
        ],
        return_ty: Some(Box::new(text("usize"))),
        body: Box::new(Rewrite::Block(
            vec![
                Rewrite::Let(vec![("x".to_owned(), Rewrite::FnArg(0)), ("y".to_owned(), Rewrite::LitZero)]),
                Rewrite::MethodCall(
                    "set".to_owned(),
                    Box::new(Rewrite::Deref(Box::new(Rewrite::Sub(0, Span::new(1, 2, 3))))),
                    vec![Rewrite::AddrOf(identity(), Mutability::Mut), Rewrite::Extract(Span::new(0, 5, 9))],
                ),
                Rewrite::StaticMut(Mutability::Not, Span::new(0, 0, 6)),
            ],
            Some(Box::new(Rewrite::Call(
                "f".to_owned(),
                vec![
                    Rewrite::SliceRange(identity(), Some(cast_usize(identity())), None),
                    Rewrite::RemovedCast(index(ref_(identity()), identity())),
                ],
            ))),
        )),
    };
    let copy = tree.clone();
    assert_eq!(copy, tree);
    assert_eq!(copy.to_string(), tree.to_string());
    assert_eq!(
        copy.to_string(),
        "unsafe fn shim(arg0: *mut i32, arg1: &'a [Cell<u8>], arg2: <'a>) -> usize { { let (x, y, ) = (arg0, 0, ); (*$0).set(core::ptr::addr_of_mut!($e), <span 0:5..9>); static <span 0:0..6>; f($e[$e as usize..], (&$e)[$e]) } }"
    );
}
