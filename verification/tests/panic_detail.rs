use backtrace::Backtrace;
use c2rust_analyze::panic_detail::{
    catch, collect_symbols, describe_symbol, find_relevant, format_full, format_short,
    guess_relevant_loc, is_relevant, panic_hook, panic_to_string, take_current, PanicDetail,
    PanicSlot, Payload, SymbolInfo,
};
use c2rust_analyze::text::decimal_string;

#[test]
fn decimal_numerals() {
    assert_eq!(decimal_string(0), "0");
    assert_eq!(decimal_string(7), "7");
    assert_eq!(decimal_string(10), "10");
    assert_eq!(decimal_string(4096), "4096");
    assert_eq!(decimal_string(u64::MAX), "18446744073709551615");
}

#[test]
fn payload_messages() {
    assert_eq!(panic_to_string(&Payload::Message("index out of bounds".to_owned())), "index out of bounds");
    assert_eq!(panic_to_string(&Payload::Message(String::new())), "");
    assert_eq!(
        panic_to_string(&Payload::Other("TypeId(0x1234)".to_owned())),
        "unknown error: TypeId(0x1234)"
    );
}

#[test]
fn relevant_names() {
    assert!(is_relevant("c2rust_analyze::dataflow::type_check::visit"));
    assert!(is_relevant("c2rust_analyze::borrowck::run"));
    assert!(is_relevant("c2rust_analyze::rewrite::apply::emit"));
    assert!(is_relevant("c2rust_analyze::rewrite"));
    assert!(is_relevant("<T as c2rust_analyze::util::X>::type_of_rvalue"));
    assert!(is_relevant("lty_project"));
    assert!(is_relevant("a::lty_project::b"));
    assert!(is_relevant("x::c2rust_analyze::rewrite::apply"));
    assert!(is_relevant("<c2rust_analyze::rewrite::Rewrite as core::fmt::Display>::fmt"));
    assert!(is_relevant("<c2rust_analyze::borrowck::X as Y>::z"));
    assert!(is_relevant("core::ops::FnOnce::call_once::<c2rust_analyze::dataflow::f>"));
    assert!(!is_relevant("c2rust_analyze::panic_detail::panic_hook"));
    assert!(!is_relevant("c2rust_analyze::rewrit"));
    assert!(!is_relevant("c2rust_analyze::main"));
    assert!(!is_relevant("std::panicking::begin_panic"));
    assert!(!is_relevant("lty_projec"));
    assert!(!is_relevant(""));
}

#[test]
fn symbol_descriptions() {
    assert_eq!(
        describe_symbol("c2rust_analyze::rewrite::apply", &Some("src/rewrite/apply.rs".to_owned()), Some(120), Some(9)),
        "c2rust_analyze::rewrite::apply @ src/rewrite/apply.rs:120:9"
    );
    assert_eq!(describe_symbol("f", &None, None, None), "f @ [unknown]:0:0");
}

#[test]
fn short_and_full_forms() {
    assert_eq!(format_short(&None, "boom"), "[unknown]: boom");
    assert_eq!(format_short(&Some("f @ a.rs:1:2".to_owned()), "boom"), "f @ a.rs:1:2: boom");
    assert_eq!(format_full(&None, "boom", &None), "panic at [unknown]: boom\n");
    assert_eq!(
        format_full(&Some("src/main.rs:3:5".to_owned()), " boom ", &Some("0: main".to_owned())),
        "panic at src/main.rs:3:5:  boom \n0: main\n"
    );
}

#[test]
fn detail_of_a_message_alone() {
    let d = PanicDetail::new("  something failed \n".to_owned());
    assert!(!d.has_backtrace());
    assert_eq!(d.to_string_short(), "[unknown]: something failed");
    assert_eq!(d.to_string_full(), "panic at [unknown]:   something failed \n\n");
}

#[test]
fn slot_holds_the_most_recent_failure() {
    let mut slot = PanicSlot::new();
    assert!(take_current(&mut slot).is_none());

    let discarded = panic_hook(&mut slot, &Payload::Message("first".to_owned()), Some("a.rs:1:1".to_owned()));
    assert!(discarded.is_none());
    let discarded = panic_hook(&mut slot, &Payload::Other("TypeId(7)".to_owned()), None);
    let first = discarded.unwrap();
    assert!(first.has_backtrace());
    assert!(first.to_string_full().starts_with("panic at a.rs:1:1: first\n"));
    assert!(first.to_string_full().ends_with("\n"));

    let second = take_current(&mut slot).unwrap();
    assert!(second.has_backtrace());
    assert!(second.to_string_full().starts_with("panic at [unknown]: unknown error: TypeId(7)\n"));
    assert!(second.to_string_short().ends_with(": unknown error: TypeId(7)"));
    assert!(take_current(&mut slot).is_none());
}

#[test]
fn catch_takes_the_detail_or_makes_one() {
    let mut slot = PanicSlot::new();
    let made = catch(&mut slot, &Payload::Message("lost".to_owned()));
    assert!(!made.has_backtrace());
    assert_eq!(made.to_string_short(), "[unknown]: lost");

    panic_hook(&mut slot, &Payload::Message("kept".to_owned()), Some("b.rs:2:2".to_owned()));
    let taken = catch(&mut slot, &Payload::Message("other".to_owned()));
    assert!(taken.has_backtrace());
    assert!(taken.to_string_full().starts_with("panic at b.rs:2:2: kept\n"));
    assert!(slot.current.is_none());
}

fn symbol(name: Option<&str>, file: Option<&str>, line: Option<u32>, col: Option<u32>) -> SymbolInfo {
    SymbolInfo {
        name: name.map(|s| s.to_owned()),
        filename: file.map(|s| s.to_owned()),
        lineno: line,
        colno: col,
    }
}

#[test]
fn first_relevant_symbol_is_described() {
    let symbols = vec![
        symbol(Some("std::panicking::begin_panic"), Some("panicking.rs"), Some(1), Some(1)),
        symbol(None, Some("c2rust_analyze::rewrite"), None, None),
        symbol(Some("c2rust_analyze::rewrite::apply::emit"), None, Some(88), None),
        symbol(Some("c2rust_analyze::dataflow::run"), Some("dataflow.rs"), Some(5), Some(6)),
    ];
    assert_eq!(
        find_relevant(&symbols),
        Some("c2rust_analyze::rewrite::apply::emit @ [unknown]:88:0".to_owned())
    );
    assert_eq!(find_relevant(&symbols[..2].iter().map(|s| symbol(s.name.as_deref(), None, None, None)).collect()), None);
    assert_eq!(find_relevant(&vec![]), None);
    let only = vec![symbol(
        Some("<c2rust_analyze::rewrite::Rewrite as core::fmt::Display>::fmt"),
        Some("src/rewrite/mod.rs"),
        Some(132),
        Some(5),
    )];
    assert_eq!(
        find_relevant(&only),
        Some("<c2rust_analyze::rewrite::Rewrite as core::fmt::Display>::fmt @ src/rewrite/mod.rs:132:5".to_owned())
    );
}

#[test]
fn short_form_trims_unicode_white_space() {
    let d = PanicDetail::new("\u{2003}\t\u{a0}a b\u{3000}\r\n\u{85}".to_owned());
    assert_eq!(d.to_string_short(), "[unknown]: a b");
    // a zero-width space is no white space
    let d = PanicDetail::new(" \u{200b}x\u{200b} ".to_owned());
    assert_eq!(d.to_string_short(), "[unknown]: \u{200b}x\u{200b}");
    assert_eq!(PanicDetail::new(" \n ".to_owned()).to_string_short(), "[unknown]: ");
}

#[test]
fn captured_stack_is_scanned_symbol_by_symbol() {
    let bt = Backtrace::new();
    let symbols = collect_symbols(&bt);
    let total: usize = bt.frames().iter().map(|f| f.symbols().len()).sum();
    assert_eq!(symbols.len(), total);
    assert_eq!(guess_relevant_loc(&bt), find_relevant(&symbols));
    let mut k = 0;
    for frame in bt.frames() {
        for sym in frame.symbols() {
            assert_eq!(symbols[k].name, sym.name().map(|n| n.to_string()));
            assert_eq!(symbols[k].filename, sym.filename().map(|p| p.display().to_string()));
            assert_eq!(symbols[k].lineno, sym.lineno());
            assert_eq!(symbols[k].colno, sym.colno());
            k += 1;
        }
    }
}
