use c2rust_analyze::rewrite::listing::debug_listing;
use c2rust_analyze::rewrite::{find_same_span, merge_rewrites, Rewrite, Span};
use c2rust_analyze::text::{contains, matches_at};

fn listed(s: &str) -> String {
    String::from_utf8(debug_listing(s.as_bytes())).unwrap()
}

#[test]
fn listing_ends_every_line() {
    assert_eq!(listed(""), "");
    assert_eq!(listed("a"), "a\n");
    assert_eq!(listed("a\n"), "a\n");
    assert_eq!(listed("a\nb"), "a\nb\n");
    assert_eq!(listed("a\n\nb\n"), "a\n\nb\n");
    assert_eq!(listed("\n"), "\n");
    assert_eq!(listed("a\r\nb\r\n"), "a\nb\n");
    assert_eq!(listed("a\rb\n"), "a\rb\n");
    assert_eq!(listed("a\r"), "a\r\n");
    assert_eq!(listed("\r\n"), "\n");
}

#[test]
fn listing_omits_directives() {
    assert_eq!(
        listed("// CHECK-DAG: struct S<'h0> {\nstruct S {\n    // CHECK-DAG: i: &'h0 i32\n    i: *const i32,\n}\n"),
        "// (FileCheck directive omitted)\nstruct S {\n    // (FileCheck directive omitted)\n    i: *const i32,\n}\n"
    );
    assert_eq!(
        listed("let x = 1; // CHECK: a // CHECK: b"),
        "let x = 1; // (FileCheck directive omitted)\n"
    );
    assert_eq!(listed("// CHEC\n//CHECK\n"), "// CHEC\n//CHECK\n");
    assert_eq!(listed("x // CHECK"), "x // (FileCheck directive omitted)\n");
}

#[test]
fn byte_search() {
    assert!(matches_at(b"abcabc", b"abc", 0));
    assert!(matches_at(b"abcabc", b"abc", 3));
    assert!(!matches_at(b"abcabc", b"abc", 1));
    assert!(!matches_at(b"abcabc", b"abc", 4));
    assert!(!matches_at(b"abcabc", b"abc", 400));
    assert!(matches_at(b"abc", b"", 3));
    assert!(!matches_at(b"abc", b"", 4));
    assert!(contains(b"xxabcxx", b"abc"));
    assert!(contains(b"xxabc", b"abc"));
    assert!(!contains(b"xxab", b"abc"));
    assert!(contains(b"", b""));
    assert!(!contains(b"", b"a"));
}

#[test]
fn rewrites_of_other_generators_are_merged() {
    let exprs = vec![
        (Span::new(0, 10, 12), Rewrite::LitZero),
        (Span::new(0, 20, 22), Rewrite::Identity),
    ];
    let tys = vec![(Span::new(0, 3, 6), Rewrite::Print("&i32".to_owned()))];
    let all = merge_rewrites(exprs, tys).unwrap();
    assert_eq!(all.len(), 3);
    assert_eq!(all[0], (Span::new(0, 10, 12), Rewrite::LitZero));
    assert_eq!(all[2], (Span::new(0, 3, 6), Rewrite::Print("&i32".to_owned())));
    assert_eq!(find_same_span(&all), None);
    assert_eq!(merge_rewrites(vec![], vec![]), Ok(vec![]));
}

#[test]
fn two_nodes_for_one_span_are_refused() {
    let exprs = vec![
        (Span::new(0, 10, 12), Rewrite::LitZero),
        (Span::new(0, 20, 22), Rewrite::Identity),
    ];
    let statics = vec![
        (Span::new(1, 20, 22), Rewrite::Identity),
        (Span::new(0, 20, 22), Rewrite::LitZero),
    ];
    assert_eq!(merge_rewrites(exprs, statics), Err((1, 3)));
    let twice = vec![
        (Span::new(0, 1, 2), Rewrite::Identity),
        (Span::new(0, 1, 2), Rewrite::Identity),
        (Span::new(0, 1, 2), Rewrite::Identity),
    ];
    assert_eq!(find_same_span(&twice), Some((0, 1)));
}
