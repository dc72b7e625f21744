//! Details of a failure, for reporting: the message, where it was raised, and
//! the most relevant frame of the call stack at that point. The most recent
//! failure is kept in a slot that the caller owns and passes around.

use crate::text::{contains, decimal, lit, occurs, push_decimal};
use backtrace::{Backtrace, BacktraceFrame, BacktraceSymbol};
use vstd::prelude::*;
use vstd::string::*;
use vstd::utf8::*;

verus! {

/// A captured call stack of the `backtrace` crate: a list of frames.
#[verifier::external_type_specification]
#[verifier::external_body]
pub struct ExBacktrace(backtrace::Backtrace);

/// One frame of a captured call stack: a list of symbols.
#[verifier::external_type_specification]
#[verifier::external_body]
pub struct ExBacktraceFrame(backtrace::BacktraceFrame);

/// One symbol of a frame.
#[verifier::external_type_specification]
#[verifier::external_body]
pub struct ExBacktraceSymbol(backtrace::BacktraceSymbol);

/// What a symbol holds: its name and the name of its file, both shown as
/// text, its line and its column, each where the symbol has one.
pub uninterp spec fn symbol_contents(symbol: BacktraceSymbol) -> SymbolInfo;

/// What a frame holds: the contents of its symbols, in their order.
pub uninterp spec fn frame_contents(frame: BacktraceFrame) -> Seq<SymbolInfo>;

/// What a call stack holds: the contents of its frames, in their order.
pub uninterp spec fn stack_contents(bt: Backtrace) -> Seq<Seq<SymbolInfo>>;

/// `Backtrace::new`: captures and resolves the call stack at this point.
/// Nothing is claimed of the result.
#[verifier::external_body]
fn capture_backtrace() -> Backtrace {
    Backtrace::new()
}

/// `Backtrace::frames`: the frames that the call stack holds, as a slice of
/// the stored list. Each holds what the stack holds at its place.
#[verifier::external_body]
fn backtrace_frames(bt: &Backtrace) -> (r: &[BacktraceFrame])
    ensures
        r@.len() == stack_contents(*bt).len(),
        forall|i: int| 0 <= i < r@.len() ==> frame_contents(#[trigger] r@[i]) == stack_contents(*bt)[i],
{
    bt.frames()
}

/// `BacktraceFrame::symbols`: the symbols that the frame holds, as a slice
/// of the stored list (empty for a frame that was not resolved). Each holds
/// what the frame holds at its place.
#[verifier::external_body]
fn frame_symbols(frame: &BacktraceFrame) -> (r: &[BacktraceSymbol])
    ensures
        r@.len() == frame_contents(*frame).len(),
        forall|j: int| 0 <= j < r@.len() ==> symbol_contents(#[trigger] r@[j]) == frame_contents(*frame)[j],
{
    frame.symbols()
}

/// `BacktraceSymbol::name`, shown as text: the stored name of the symbol.
#[verifier::external_body]
fn symbol_name(symbol: &BacktraceSymbol) -> (r: Option<String>)
    ensures
        r == symbol_contents(*symbol).name,
{
    match symbol.name() {
        Some(name) => Some(name.to_string()),
        None => None,
    }
}

/// `BacktraceSymbol::filename`, shown as text: the stored file name of the symbol.
#[verifier::external_body]
fn symbol_filename(symbol: &BacktraceSymbol) -> (r: Option<String>)
    ensures
        r == symbol_contents(*symbol).filename,
{
    match symbol.filename() {
        Some(path) => Some(path.display().to_string()),
        None => None,
    }
}

/// `BacktraceSymbol::lineno`: the stored line of the symbol.
#[verifier::external_body]
fn symbol_lineno(symbol: &BacktraceSymbol) -> (r: Option<u32>)
    ensures
        r == symbol_contents(*symbol).lineno,
{
    symbol.lineno()
}

/// `BacktraceSymbol::colno`: the stored column of the symbol.
#[verifier::external_body]
fn symbol_colno(symbol: &BacktraceSymbol) -> (r: Option<u32>)
    ensures
        r == symbol_contents(*symbol).colno,
{
    symbol.colno()
}

/// The `Debug` text of a `Backtrace`. Nothing is claimed of it: it depends on
/// the working directory and on what symbols the machine can resolve.
#[verifier::external_body]
fn backtrace_text(bt: &Backtrace) -> String {
    format!("{:?}", bt)
}

/// White space, as Unicode defines it by the property `White_Space`.
pub open spec fn is_white_space(c: char) -> bool {
    let u = c as u32;
    (0x09 <= u <= 0x0D) || u == 0x20 || u == 0x85 || u == 0xA0 || u == 0x1680 || (0x2000 <= u <= 0x200A)
        || u == 0x2028 || u == 0x2029 || u == 0x202F || u == 0x205F || u == 0x3000
}

/// The text without the white space at its start.
pub open spec fn trimmed_start(s: Seq<char>) -> Seq<char>
    decreases s.len(),
{
    if s.len() > 0 && is_white_space(s[0]) {
        trimmed_start(s.drop_first())
    } else {
        s
    }
}

/// The text without the white space at its end.
pub open spec fn trimmed_end(s: Seq<char>) -> Seq<char>
    decreases s.len(),
{
    if s.len() > 0 && is_white_space(s.last()) {
        trimmed_end(s.drop_last())
    } else {
        s
    }
}

/// The text without the white space at its start and at its end.
pub open spec fn trimmed(s: Seq<char>) -> Seq<char> {
    trimmed_end(trimmed_start(s))
}

/// `str::trim`: the text without leading and trailing white space, where
/// white space is what Unicode's property `White_Space` covers.
#[verifier::external_body]
fn trim_text(s: &str) -> (r: &str)
    ensures
        r@ == trimmed(s@),
{
    s.trim()
}

/// What a failure carried as its payload.
pub enum Payload {
    /// A message.
    Message(String),
    /// Something else, of the type with this identifier.
    Other(String),
}

#[derive(Clone, Debug)]
pub struct PanicDetail {
    msg: String,
    loc: Option<String>,
    relevant_loc: Option<String>,
    backtrace: Option<Backtrace>,
}

/// The symbol name mentions one of the phases whose failures are worth
/// pointing at: the path of one of three modules, or one of two helpers,
/// anywhere in the name.
pub open spec fn relevant(name: Seq<char>) -> bool {
    let b = encode_utf8(name);
    occurs(b, lit("c2rust_analyze::dataflow")) || occurs(b, lit("c2rust_analyze::borrowck")) || occurs(
        b,
        lit("c2rust_analyze::rewrite"),
    ) || occurs(b, lit("type_of_rvalue")) || occurs(b, lit("lty_project"))
}

pub open spec fn or_unknown(o: Option<String>) -> Seq<char> {
    match o {
        Some(s) => s@,
        None => "[unknown]"@,
    }
}

pub open spec fn or_zero(o: Option<u32>) -> nat {
    match o {
        Some(n) => n as nat,
        None => 0,
    }
}

/// The description of a symbol: `name @ file:line:column`.
pub open spec fn loc_text(name: Seq<char>, file: Option<String>, line: Option<u32>, col: Option<u32>) -> Seq<
    char,
> {
    name + " @ "@ + or_unknown(file) + ":"@ + decimal(or_zero(line)) + ":"@ + decimal(or_zero(col))
}

/// The message of a payload.
pub open spec fn panic_message(e: Payload) -> Seq<char> {
    match e {
        Payload::Message(s) => s@,
        Payload::Other(id) => "unknown error: "@ + id@,
    }
}

/// The one-line form of a failure: `location: message`.
pub open spec fn short_text(relevant_loc: Option<String>, msg: Seq<char>) -> Seq<char> {
    or_unknown(relevant_loc) + ": "@ + msg
}

/// The first line of the full form of a failure, with its line end.
pub open spec fn full_head(loc: Option<String>, msg: Seq<char>) -> Seq<char> {
    "panic at "@ + or_unknown(loc) + ": "@ + msg + "\n"@
}

/// Whether a symbol of this name belongs to a phase worth pointing at: its
/// name holds the path of one of the analysis phases, or the name of one of
/// two helpers, at any place.
pub fn is_relevant(name: &str) -> (r: bool)
    ensures
        r == relevant(name@),
{
    let b = name.as_bytes();
    contains(b, "c2rust_analyze::dataflow".as_bytes()) || contains(b, "c2rust_analyze::borrowck".as_bytes())
        || contains(b, "c2rust_analyze::rewrite".as_bytes()) || contains(b, "type_of_rvalue".as_bytes())
        || contains(b, "lty_project".as_bytes())
}

fn push_or_unknown(out: &mut String, o: &Option<String>)
    ensures
        final(out)@ == old(out)@ + or_unknown(*o),
{
    match o {
        Some(s) => out.append(s.as_str()),
        None => out.append("[unknown]"),
    }
}

/// Describes a symbol as `name @ file:line:column`, with `[unknown]` for a
/// missing file and `0` for a missing line or column.
pub fn describe_symbol(name: &str, file: &Option<String>, line: Option<u32>, col: Option<u32>) -> (r: String)
    ensures
        r@ == loc_text(name@, *file, line, col),
{
    let mut out = String::new();
    out.append(name);
    out.append(" @ ");
    push_or_unknown(&mut out, file);
    out.append(":");
    let l: u32 = match line {
        Some(n) => n,
        None => 0,
    };
    push_decimal(&mut out, l as u64);
    out.append(":");
    let c: u32 = match col {
        Some(n) => n,
        None => 0,
    };
    push_decimal(&mut out, c as u64);
    assert(out@ =~= loc_text(name@, *file, line, col));
    out
}

/// The result describes a symbol of a relevant name.
pub open spec fn describes_relevant(s: Seq<char>) -> bool {
    exists|name: Seq<char>, file: Option<String>, line: Option<u32>, col: Option<u32>|
        relevant(name) && s == #[trigger] loc_text(name, file, line, col)
}

/// What is known of one symbol of a call stack.
pub struct SymbolInfo {
    pub name: Option<String>,
    pub filename: Option<String>,
    pub lineno: Option<u32>,
    pub colno: Option<u32>,
}

/// The symbol has a name, and a relevant one.
pub open spec fn is_hit(sym: SymbolInfo) -> bool {
    sym.name matches Some(name) && relevant(name@)
}

/// The description of a symbol that has a name.
pub open spec fn symbol_text(sym: SymbolInfo) -> Seq<char> {
    loc_text(or_unknown(sym.name), sym.filename, sym.lineno, sym.colno)
}

/// `r` describes the first symbol with a relevant name, or is nothing where
/// no symbol has one.
pub open spec fn is_first_hit(symbols: Seq<SymbolInfo>, r: Option<String>) -> bool {
    match r {
        Some(s) => exists|i: int|
            0 <= i < symbols.len() && is_hit(#[trigger] symbols[i]) && s@ == symbol_text(symbols[i]) && forall|
                j: int,
            |
                0 <= j < i ==> !is_hit(#[trigger] symbols[j]),
        None => forall|i: int| 0 <= i < symbols.len() ==> !is_hit(#[trigger] symbols[i]),
    }
}

/// Describes the first of the symbols that has a relevant name.
pub fn find_relevant(symbols: &Vec<SymbolInfo>) -> (r: Option<String>)
    ensures
        is_first_hit(symbols@, r),
{
    let mut i: usize = 0;
    while i < symbols.len()
        invariant
            i <= symbols@.len(),
            forall|j: int| 0 <= j < i ==> !is_hit(#[trigger] symbols@[j]),
        decreases symbols@.len() - i,
    {
        let sym = &symbols[i];
        if let Some(name) = &sym.name {
            if is_relevant(name.as_str()) {
                let text = describe_symbol(name.as_str(), &sym.filename, sym.lineno, sym.colno);
                assert(is_hit(symbols@[i as int]) && text@ == symbol_text(symbols@[i as int]));
                return Some(text);
            }
        }
        i = i + 1;
    }
    None
}

/// The contents of the first `n` of the lists, one after the other.
pub open spec fn flat(lists: Seq<Seq<SymbolInfo>>, n: nat) -> Seq<SymbolInfo>
    decreases n,
{
    if n == 0 || n > lists.len() {
        Seq::empty()
    } else {
        flat(lists, (n - 1) as nat) + lists[n - 1]
    }
}

/// The symbols of a call stack, frame by frame, innermost frame first.
pub open spec fn stack_symbols(bt: Backtrace) -> Seq<SymbolInfo> {
    flat(stack_contents(bt), stack_contents(bt).len())
}

/// Appends what is known of the symbols of one frame.
fn collect_frame(out: &mut Vec<SymbolInfo>, frame: &BacktraceFrame)
    ensures
        final(out)@ == old(out)@ + frame_contents(*frame),
{
    let symbols = frame_symbols(frame);
    let ghost held = frame_contents(*frame);
    let mut j: usize = 0;
    assert(out@ =~= old(out)@ + held.subrange(0, 0));
    while j < symbols.len()
        invariant
            j <= symbols@.len(),
            held == frame_contents(*frame),
            symbols@.len() == held.len(),
            forall|k: int| 0 <= k < symbols@.len() ==> symbol_contents(#[trigger] symbols@[k]) == held[k],
            out@ == old(out)@ + held.subrange(0, j as int),
        decreases symbols@.len() - j,
    {
        let info = SymbolInfo {
            name: symbol_name(&symbols[j]),
            filename: symbol_filename(&symbols[j]),
            lineno: symbol_lineno(&symbols[j]),
            colno: symbol_colno(&symbols[j]),
        };
        assert(info == symbol_contents(symbols@[j as int]));
        out.push(info);
        j = j + 1;
        assert(out@ =~= old(out)@ + held.subrange(0, j as int));
    }
    assert(held.subrange(0, j as int) =~= held);
}

/// What is known of the symbols of a call stack, innermost frame first.
pub fn collect_symbols(bt: &Backtrace) -> (symbols: Vec<SymbolInfo>)
    ensures
        symbols@ == stack_symbols(*bt),
{
    let frames = backtrace_frames(bt);
    let ghost held = stack_contents(*bt);
    let mut symbols: Vec<SymbolInfo> = Vec::new();
    let mut i: usize = 0;
    assert(symbols@ =~= flat(held, 0));
    while i < frames.len()
        invariant
            i <= frames@.len(),
            held == stack_contents(*bt),
            frames@.len() == held.len(),
            forall|k: int| 0 <= k < frames@.len() ==> frame_contents(#[trigger] frames@[k]) == held[k],
            symbols@ == flat(held, i as nat),
        decreases frames@.len() - i,
    {
        collect_frame(&mut symbols, &frames[i]);
        i = i + 1;
    }
    symbols
}

/// Scans a call stack, innermost frame first, for the first symbol with a
/// relevant name, and describes it.
pub fn guess_relevant_loc(bt: &Backtrace) -> (r: Option<String>)
    ensures
        is_first_hit(stack_symbols(*bt), r),
        r matches Some(s) ==> describes_relevant(s@),
{
    let symbols = collect_symbols(bt);
    let r = find_relevant(&symbols);
    proof {
        assert(is_first_hit(symbols@, r));
        if r is Some {
            let s = r->Some_0;
            let i = choose|i: int|
                0 <= i < symbols@.len() && is_hit(#[trigger] symbols@[i]) && s@ == symbol_text(symbols@[i]);
            let sym = symbols@[i];
            assert(s@ == loc_text(or_unknown(sym.name), sym.filename, sym.lineno, sym.colno));
        }
    }
    r
}

/// The message that a payload carries; for a payload that is no message, a
/// note of its type.
pub fn panic_to_string(e: &Payload) -> (r: String)
    ensures
        r@ == panic_message(*e),
{
    match e {
        Payload::Message(s) => s.clone(),
        Payload::Other(id) => {
            let mut out = String::new();
            out.append("unknown error: ");
            out.append(id.as_str());
            assert(out@ =~= panic_message(*e));
            out
        },
    }
}

/// The one-line form of a failure, from its relevant location and its
/// message as already trimmed.
pub fn format_short(relevant_loc: &Option<String>, msg: &str) -> (r: String)
    ensures
        r@ == short_text(*relevant_loc, msg@),
{
    let mut out = String::new();
    push_or_unknown(&mut out, relevant_loc);
    out.append(": ");
    out.append(msg);
    assert(out@ =~= short_text(*relevant_loc, msg@));
    out
}

/// The full form of a failure: its first line and, where there is one, the
/// text of the call stack on lines of its own.
pub fn format_full(loc: &Option<String>, msg: &str, stack: &Option<String>) -> (r: String)
    ensures
        stack is None ==> r@ == full_head(*loc, msg@),
        stack matches Some(text) ==> r@ == full_head(*loc, msg@) + text@ + "\n"@,
{
    let mut out = String::new();
    out.append("panic at ");
    push_or_unknown(&mut out, loc);
    out.append(": ");
    out.append(msg);
    out.append("\n");
    assert(out@ =~= full_head(*loc, msg@));
    if let Some(text) = stack {
        out.append(text.as_str());
        out.append("\n");
        assert(out@ =~= full_head(*loc, msg@) + text@ + "\n"@);
    }
    out
}

impl PanicDetail {
    pub closed spec fn message(&self) -> Seq<char> {
        self.msg@
    }

    pub closed spec fn location(&self) -> Option<String> {
        self.loc
    }

    pub closed spec fn relevant_location(&self) -> Option<String> {
        self.relevant_loc
    }

    pub closed spec fn with_backtrace(&self) -> bool {
        self.backtrace is Some
    }

    /// The call stack that was captured with the failure, if one was.
    pub closed spec fn captured(&self) -> Option<Backtrace> {
        self.backtrace
    }

    /// A failure of which only the message is known.
    pub fn new(msg: String) -> (d: PanicDetail)
        ensures
            d.message() == msg@,
            d.location() is None,
            d.relevant_location() is None,
            !d.with_backtrace(),
            d.captured() is None,
    {
        PanicDetail { msg, loc: None, relevant_loc: None, backtrace: None }
    }

    pub fn has_backtrace(&self) -> (b: bool)
        ensures
            b == self.with_backtrace(),
    {
        self.backtrace.is_some()
    }

    /// `location: message`, with the relevant location, or `[unknown]`, and
    /// the message without the white space around it.
    pub fn to_string_short(&self) -> (r: String)
        ensures
            r@ == short_text(self.relevant_location(), trimmed(self.message())),
    {
        format_short(&self.relevant_loc, trim_text(self.msg.as_str()))
    }

    /// `panic at location: message` on a line, followed by the call stack
    /// where one was captured.
    pub fn to_string_full(&self) -> (r: String)
        ensures
            !self.with_backtrace() ==> r@ == full_head(self.location(), self.message()),
            self.with_backtrace() ==> exists|text: Seq<char>|
                r@ == full_head(self.location(), self.message()) + text + "\n"@,
    {
        let stack = match &self.backtrace {
            Some(bt) => Some(backtrace_text(bt)),
            None => None,
        };
        let r = format_full(&self.loc, self.msg.as_str(), &stack);
        proof {
            if let Some(text) = stack {
                assert(r@ == full_head(self.location(), self.message()) + text@ + "\n"@);
            }
        }
        r
    }
}

/// The slot that holds the most recent failure until it is taken.
pub struct PanicSlot {
    pub current: Option<PanicDetail>,
}

impl PanicSlot {
    pub fn new() -> (s: PanicSlot)
        ensures
            s.current is None,
    {
        PanicSlot { current: None }
    }
}

/// Records a failure in the slot: its message, the place `loc` where it was
/// raised, the call stack at this point and the most relevant symbol in it.
/// A failure that the slot still held is replaced and handed back, so that
/// the caller can report that it was discarded.
pub fn panic_hook(slot: &mut PanicSlot, payload: &Payload, loc: Option<String>) -> (discarded: Option<
    PanicDetail,
>)
    ensures
        discarded == old(slot).current,
        final(slot).current matches Some(d) && d.message() == panic_message(*payload) && d.location() == loc
            && d.with_backtrace() && (d.captured() matches Some(bt) && is_first_hit(
            stack_symbols(bt),
            d.relevant_location(),
        )) && (d.relevant_location() matches Some(s) ==> describes_relevant(s@)),
{
    let bt = capture_backtrace();
    let relevant_loc = guess_relevant_loc(&bt);
    let detail = PanicDetail { msg: panic_to_string(payload), loc, relevant_loc, backtrace: Some(bt) };
    let discarded = slot.current.take();
    slot.current = Some(detail);
    discarded
}

/// Takes the failure out of the slot, if it holds one.
pub fn take_current(slot: &mut PanicSlot) -> (r: Option<PanicDetail>)
    ensures
        r == old(slot).current,
        final(slot).current is None,
{
    slot.current.take()
}

/// The details of a caught failure: those that the slot holds, which are
/// taken out; where it holds none, the message of the payload alone.
pub fn catch(slot: &mut PanicSlot, e: &Payload) -> (r: PanicDetail)
    ensures
        final(slot).current is None,
        old(slot).current matches Some(d) ==> r == d,
        old(slot).current is None ==> r.message() == panic_message(*e) && r.location() is None
            && r.relevant_location() is None && !r.with_backtrace(),
{
    match take_current(slot) {
        Some(d) => d,
        None => PanicDetail::new(panic_to_string(e)),
    }
}

} // verus!
