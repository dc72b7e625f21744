use c2rust_analyze::rewrite::apply::{
    apply_rewrites, apply_to_file, find_overlap, ApplyError, OutputError, SourceFile,
};
use c2rust_analyze::rewrite::expr::{gen_expr_rewrites, EditKind, EditRequest, Location, Origin};
use c2rust_analyze::rewrite::{Mutability, Rewrite, Span};

fn applied(src: &str, file: u32, rewrites: &Vec<(Span, Rewrite)>) -> String {
    String::from_utf8(apply_to_file(src.as_bytes(), file, rewrites).unwrap()).unwrap()
}

fn span_of(src: &str, file: u32, needle: &str, from: usize) -> Span {
    let lo = from + src[from..].find(needle).unwrap();
    Span::new(file, lo, lo + needle.len())
}

#[test]
fn empty_output_round_trips() {
    let src = "fn main() {\n    let s = 0 as *mut S;\n}\n";
    assert_eq!(applied(src, 0, &vec![]), src);
    assert_eq!(applied("", 0, &vec![]), "");
    // entries of other files do not touch this one
    let other = vec![(Span::new(1, 0, 2), Rewrite::Text("XX".to_owned()))];
    assert_eq!(applied(src, 0, &other), src);
}

#[test]
fn identity_changes_nothing() {
    let src = "let z = x;";
    for (lo, hi) in [(0, 0), (0, 10), (8, 9), (10, 10), (4, 4)] {
        let rewrites = vec![(Span::new(0, lo, hi), Rewrite::Identity)];
        assert_eq!(applied(src, 0, &rewrites), src);
    }
}

#[test]
fn spans_are_replaced_in_order_of_their_start() {
    let src = "abcdefgh";
    let rewrites = vec![
        (Span::new(0, 6, 8), Rewrite::Text("<3>".to_owned())),
        (Span::new(0, 0, 1), Rewrite::Text("<1>".to_owned())),
        (Span::new(0, 3, 3), Rewrite::Text("<ins>".to_owned())),
        (Span::new(0, 4, 6), Rewrite::Cast(Box::new(Rewrite::Identity), "u8".to_owned())),
    ];
    assert_eq!(applied(src, 0, &rewrites), "<1>bc<ins>d(ef) as u8<3>");
}

#[test]
fn insertion_at_the_end_of_a_span_and_of_the_file() {
    let src = "abcd";
    let rewrites = vec![
        (Span::new(0, 4, 4), Rewrite::Text("!".to_owned())),
        (Span::new(0, 2, 2), Rewrite::Text("|".to_owned())),
        (Span::new(0, 0, 2), Rewrite::Text("AB".to_owned())),
    ];
    assert_eq!(applied(src, 0, &rewrites), "AB|cd!");
}

#[test]
fn span_outside_the_text_is_refused() {
    let src = "abcd";
    let rewrites = vec![
        (Span::new(0, 0, 1), Rewrite::Identity),
        (Span::new(0, 3, 5), Rewrite::Identity),
        (Span::new(0, 9, 10), Rewrite::Identity),
    ];
    assert_eq!(apply_to_file(src.as_bytes(), 0, &rewrites), Err(ApplyError::SpanOutOfBounds(1)));
    let inner = vec![(Span::new(0, 0, 1), Rewrite::Sub(0, Span::new(0, 2, 7)))];
    assert_eq!(apply_to_file(src.as_bytes(), 0, &inner), Err(ApplyError::SpanOutOfBounds(0)));
    let backwards = vec![(Span::new(0, 3, 2), Rewrite::Identity)];
    assert_eq!(apply_to_file(src.as_bytes(), 0, &backwards), Err(ApplyError::SpanOutOfBounds(0)));
}

#[test]
fn overlapping_spans_are_refused() {
    let src = "abcdefgh";
    let rewrites = vec![
        (Span::new(0, 0, 2), Rewrite::Identity),
        (Span::new(0, 3, 6), Rewrite::Identity),
        (Span::new(0, 5, 7), Rewrite::Identity),
    ];
    assert_eq!(apply_to_file(src.as_bytes(), 0, &rewrites), Err(ApplyError::Overlap(1, 2)));
    let twice = vec![
        (Span::new(0, 3, 6), Rewrite::Identity),
        (Span::new(0, 3, 6), Rewrite::LitZero),
    ];
    assert_eq!(apply_to_file(src.as_bytes(), 0, &twice), Err(ApplyError::Overlap(0, 1)));
    let nested = vec![
        (Span::new(0, 1, 7), Rewrite::Identity),
        (Span::new(0, 3, 3), Rewrite::LitZero),
    ];
    assert_eq!(apply_to_file(src.as_bytes(), 0, &nested), Err(ApplyError::Overlap(0, 1)));
    // the same spans in two files do not collide
    let two_files = vec![
        (Span::new(0, 3, 6), Rewrite::LitZero),
        (Span::new(1, 3, 6), Rewrite::LitZero),
    ];
    assert_eq!(applied(src, 0, &two_files), "abc0gh");
}

#[test]
fn every_file_gets_its_own_rewrites() {
    let sources = vec![
        SourceFile { id: 7, text: b"let a = p;".to_vec() },
        SourceFile { id: 9, text: b"let b = q;".to_vec() },
        SourceFile { id: 3, text: b"untouched".to_vec() },
    ];
    let rewrites = vec![
        (Span::new(9, 8, 9), Rewrite::Deref(Box::new(Rewrite::Identity))),
        (Span::new(7, 8, 9), Rewrite::Ref(Box::new(Rewrite::Identity), Mutability::Mut)),
    ];
    let outs = apply_rewrites(&sources, &rewrites).unwrap();
    assert_eq!(outs.len(), 3);
    assert_eq!(outs[0], b"let a = &mut (p);".to_vec());
    assert_eq!(outs[1], b"let b = *(q);".to_vec());
    assert_eq!(outs[2], b"untouched".to_vec());

    let bad = vec![(Span::new(9, 8, 11), Rewrite::Identity)];
    assert_eq!(
        apply_rewrites(&sources, &bad),
        Err(OutputError::Source(1, ApplyError::SpanOutOfBounds(0)))
    );
}

#[test]
fn requests_of_one_expression_are_merged() {
    // one surface expression, lowered into two statements that both need an edit
    let span = Span::new(0, 10, 20);
    let table = vec![
        Origin { location: Location { block: 0, statement: 1 }, span, children: vec![] },
        Origin { location: Location { block: 0, statement: 2 }, span, children: vec![] },
    ];
    let requests = vec![
        EditRequest { location: Location { block: 0, statement: 1 }, kind: EditKind::Cast("usize".to_owned()) },
        EditRequest { location: Location { block: 0, statement: 2 }, kind: EditKind::Ref(Mutability::Not) },
    ];
    let d = gen_expr_rewrites(&requests, &table).unwrap();
    assert_eq!(d.dropped, Vec::<usize>::new());
    assert_eq!(d.rewrites.len(), 1);
    assert_eq!(d.rewrites[0].0, span);
    assert_eq!(
        d.rewrites[0].1,
        Rewrite::Ref(
            Box::new(Rewrite::Cast(Box::new(Rewrite::Identity), "usize".to_owned())),
            Mutability::Not
        )
    );
    assert_eq!(d.rewrites[0].1.to_string(), "&($e as usize)");
}

#[test]
fn innermost_expression_wins() {
    let loc = Location { block: 2, statement: 0 };
    let table = vec![
        Origin { location: loc, span: Span::new(0, 0, 30), children: vec![] },
        Origin { location: loc, span: Span::new(0, 12, 15), children: vec![] },
        Origin { location: loc, span: Span::new(0, 10, 20), children: vec![] },
        Origin { location: Location { block: 2, statement: 1 }, span: Span::new(0, 13, 14), children: vec![] },
    ];
    let requests = vec![EditRequest { location: loc, kind: EditKind::RemoveCast }];
    let d = gen_expr_rewrites(&requests, &table).unwrap();
    assert_eq!(d.rewrites.len(), 1);
    assert_eq!(d.rewrites[0].0, Span::new(0, 12, 15));
    assert_eq!(d.rewrites[0].1, Rewrite::RemovedCast(Box::new(Rewrite::Identity)));
}

#[test]
fn unowned_requests_are_dropped() {
    let table = vec![Origin {
        location: Location { block: 0, statement: 0 },
        span: Span::new(0, 1, 2),
        children: vec![Span::new(0, 1, 1)],
    }];
    let requests = vec![
        EditRequest { location: Location { block: 5, statement: 0 }, kind: EditKind::Deref },
        EditRequest { location: Location { block: 0, statement: 0 }, kind: EditKind::Deref },
        // refers to a second operand, which the expression does not have
        EditRequest { location: Location { block: 0, statement: 0 }, kind: EditKind::OffsetSlice(Mutability::Not) },
        EditRequest { location: Location { block: 0, statement: 9 }, kind: EditKind::AsPtr },
    ];
    let d = gen_expr_rewrites(&requests, &table).unwrap();
    assert_eq!(d.dropped, vec![0, 2, 3]);
    assert_eq!(d.rewrites.len(), 1);
    assert_eq!(d.rewrites[0].1, Rewrite::Deref(Box::new(Rewrite::Identity)));
    let none = gen_expr_rewrites(&vec![], &table).unwrap();
    assert!(none.rewrites.is_empty() && none.dropped.is_empty());
}

#[test]
fn every_kind_of_request() {
    let loc = Location { block: 0, statement: 0 };
    let span = Span::new(0, 0, 11);
    let children = vec![Span::new(0, 0, 1), Span::new(0, 9, 10)];
    let table = vec![Origin { location: loc, span, children }];
    let one = |kind: EditKind| {
        let d = gen_expr_rewrites(&vec![EditRequest { location: loc, kind }], &table).unwrap();
        assert_eq!(d.rewrites.len(), 1);
        assert_eq!(d.rewrites[0].0, span);
        d.rewrites[0].1.to_string()
    };
    assert_eq!(one(EditKind::Cast("*const u8".to_owned())), "$e as *const u8");
    assert_eq!(one(EditKind::RemoveCast), "$e");
    assert_eq!(one(EditKind::Deref), "*$e");
    assert_eq!(one(EditKind::Ref(Mutability::Mut)), "&mut $e");
    assert_eq!(one(EditKind::AddrOf(Mutability::Not)), "core::ptr::addr_of!($e)");
    assert_eq!(one(EditKind::AsPtr), "$e.as_ptr()");
    assert_eq!(one(EditKind::SliceFirst(Mutability::Not)), "&$e[0]");
    assert_eq!(one(EditKind::OffsetSlice(Mutability::Mut)), "&mut $e[$1 as usize..]");

    let src = "p.offset(i)";
    let d = gen_expr_rewrites(
        &vec![EditRequest { location: loc, kind: EditKind::OffsetSlice(Mutability::Not) }],
        &vec![Origin { location: loc, span: Span::new(0, 0, 1), children: vec![Span::new(0, 0, 1), Span::new(0, 9, 10)] }],
    )
    .unwrap();
    let out = apply_to_file(src.as_bytes(), 0, &d.rewrites).unwrap();
    assert_eq!(String::from_utf8(out).unwrap(), "&(p)[(i) as usize..].offset(i)");
}

const CELL_FN: &str = "pub unsafe fn cell_as_mut_as_cell(mut x: *mut i32, mut f: Foo) {\n    let z = x;\n    let r = x;\n    *z = 1;\n    *r = 1;\n    *z = 4;\n    f.y = x;\n    x = f.y;\n}\n";

fn cell_fn_rewrites() -> Vec<(Span, Rewrite)> {
    let src = CELL_FN;
    let first = src.find("f.y = x;").unwrap();
    let second = src.find("x = f.y;").unwrap();
    let stmt1 = span_of(src, 0, "f.y = x", first);
    let rhs1 = span_of(src, 0, "x", first + 4);
    let stmt2 = span_of(src, 0, "x = f.y", second);
    let rhs2 = span_of(src, 0, "f.y", second);
    let store = Location { block: 0, statement: 5 };
    let load = Location { block: 0, statement: 6 };
    let table = vec![
        Origin { location: store, span: stmt1, children: vec![span_of(src, 0, "f.y", first), rhs1] },
        Origin { location: store, span: rhs1, children: vec![] },
        Origin { location: load, span: stmt2, children: vec![span_of(src, 0, "x", second), rhs2] },
        Origin { location: load, span: rhs2, children: vec![] },
    ];
    let requests = vec![
        EditRequest { location: store, kind: EditKind::AsPtr },
        EditRequest { location: load, kind: EditKind::Cast("*const std::cell::Cell<i32>".to_owned()) },
        EditRequest { location: load, kind: EditKind::Deref },
        EditRequest { location: load, kind: EditKind::Ref(Mutability::Not) },
    ];
    let d = gen_expr_rewrites(&requests, &table).unwrap();
    assert!(d.dropped.is_empty());
    assert_eq!(d.rewrites.len(), 2);
    assert_eq!(d.rewrites[0].0, rhs1);
    assert_eq!(d.rewrites[1].0, rhs2);
    // each span lies inside its own assignment
    assert!(stmt1.lo <= rhs1.lo && rhs1.hi <= stmt1.hi);
    assert!(stmt2.lo <= rhs2.lo && rhs2.hi <= stmt2.hi);
    assert!(rhs1.hi <= rhs2.lo);
    d.rewrites
}

#[test]
fn cell_pointer_assignments_end_to_end() {
    let rewrites = cell_fn_rewrites();
    let out = applied(CELL_FN, 0, &rewrites);
    assert_eq!(
        out,
        "pub unsafe fn cell_as_mut_as_cell(mut x: *mut i32, mut f: Foo) {\n    let z = x;\n    let r = x;\n    *z = 1;\n    *r = 1;\n    *z = 4;\n    f.y = (x).as_ptr();\n    x = &*((f.y) as *const std::cell::Cell<i32>);\n}\n"
    );
    assert!(out.contains("    f.y = (x).as_ptr();\n"));
    assert!(out.contains("    x = &*((f.y) as *const std::cell::Cell<i32>);\n"));
}

#[test]
fn cell_pointer_assignments_as_nodes() {
    let rewrites = cell_fn_rewrites();
    assert_eq!(
        rewrites[0].1,
        Rewrite::MethodCall("as_ptr".to_owned(), Box::new(Rewrite::Identity), vec![])
    );
    assert_eq!(rewrites[0].1.to_string(), "$e.as_ptr()");
    assert_eq!(
        rewrites[1].1,
        Rewrite::Ref(
            Box::new(Rewrite::Deref(Box::new(Rewrite::Cast(
                Box::new(Rewrite::Identity),
                "*const std::cell::Cell<i32>".to_owned()
            )))),
            Mutability::Not
        )
    );
    assert_eq!(rewrites[1].1.to_string(), "&*($e as *const std::cell::Cell<i32>)");
}

#[test]
fn cell_pointer_assignments_leave_the_rest_verbatim() {
    let rewrites = cell_fn_rewrites();
    let out = applied(CELL_FN, 0, &rewrites);
    let untouched = "pub unsafe fn cell_as_mut_as_cell(mut x: *mut i32, mut f: Foo) {\n    let z = x;\n    let r = x;\n    *z = 1;\n    *r = 1;\n    *z = 4;\n";
    assert!(CELL_FN.starts_with(untouched));
    assert!(out.starts_with(untouched));
    // no span reaches into the untouched statements
    for (span, _) in &rewrites {
        assert!(span.lo >= untouched.len());
    }
    assert_eq!(find_overlap(&rewrites), None);
}

#[test]
fn nested_owners_are_refused() {
    let outer = Location { block: 0, statement: 0 };
    let inner = Location { block: 0, statement: 1 };
    let table = vec![
        Origin { location: outer, span: Span::new(0, 0, 20), children: vec![] },
        Origin { location: Location { block: 3, statement: 0 }, span: Span::new(0, 30, 40), children: vec![] },
        Origin { location: inner, span: Span::new(0, 5, 8), children: vec![] },
    ];
    let requests = vec![
        EditRequest { location: Location { block: 3, statement: 0 }, kind: EditKind::Deref },
        EditRequest { location: outer, kind: EditKind::Deref },
        EditRequest { location: inner, kind: EditKind::RemoveCast },
    ];
    assert!(matches!(gen_expr_rewrites(&requests, &table), Err((1, 2))));
    // in two files the same offsets do not collide
    let table = vec![
        Origin { location: outer, span: Span::new(0, 0, 20), children: vec![] },
        Origin { location: inner, span: Span::new(1, 5, 8), children: vec![] },
    ];
    let d = gen_expr_rewrites(&requests[1..].to_vec(), &table).unwrap();
    assert_eq!(d.rewrites.len(), 2);
}

#[test]
fn entries_of_unknown_files_are_refused() {
    let sources = vec![
        SourceFile { id: 7, text: b"let a = p;".to_vec() },
        SourceFile { id: 9, text: b"let b = q;".to_vec() },
    ];
    let rewrites = vec![
        (Span::new(9, 8, 9), Rewrite::LitZero),
        (Span::new(8, 0, 1), Rewrite::LitZero),
        (Span::new(7, 8, 90), Rewrite::LitZero),
        (Span::new(1, 0, 1), Rewrite::LitZero),
    ];
    assert_eq!(apply_rewrites(&sources, &rewrites), Err(OutputError::UnknownFile(1)));
    assert_eq!(apply_rewrites(&vec![], &vec![]), Ok(vec![]));
    let overlap = vec![
        (Span::new(9, 2, 5), Rewrite::LitZero),
        (Span::new(9, 4, 6), Rewrite::LitZero),
    ];
    assert_eq!(
        apply_rewrites(&sources, &overlap),
        Err(OutputError::Source(1, ApplyError::Overlap(0, 1)))
    );
}
