//! Rewrites are expressed as concrete operations on source text: replacing an
//! expression with one of its subexpressions (both identified by their spans),
//! wrapping an expression in a reference or a cast, and so on. A [`Rewrite`]
//! describes the replacement text for one span; [`render`] says what that
//! text is, and `apply` splices many of them into a file in one pass, so that
//! every span keeps referring to the unmodified text.

use crate::rewrite::apply::emit_rewrite;
use crate::text::{decimal, lit, str_from_utf8};
use vstd::prelude::*;
use vstd::string::*;
use vstd::utf8::*;

pub use self::apply::apply_rewrites;
pub use self::expr::gen_expr_rewrites;

pub mod apply;
pub mod listing;
pub mod scope;
pub mod expr;

verus! {

/// Whether a reference, pointer or static is mutable.
#[derive(Clone, Copy, PartialEq, Eq, Debug, Structural)]
pub enum Mutability {
    Not,
    Mut,
}

/// A half-open byte range `lo..hi` in the unmodified text of file `file`.
#[derive(Clone, Copy, PartialEq, Eq, Debug, Structural)]
pub struct Span {
    pub file: u32,
    pub lo: usize,
    pub hi: usize,
}

impl Span {
    /// The span lies within a text of `len` bytes.
    pub open spec fn fits(self, len: nat) -> bool {
        self.lo <= self.hi <= len
    }

    pub fn new(file: u32, lo: usize, hi: usize) -> (s: Span)
        ensures
            s == (Span { file, lo, hi }),
    {
        Span { file, lo, hi }
    }

    pub fn check_fits(&self, len: usize) -> (b: bool)
        ensures
            b == self.fits(len as nat),
    {
        self.lo <= self.hi && self.hi <= len
    }
}

#[derive(Clone, PartialEq, Eq, Debug)]
pub enum LifetimeName {
    Explicit(String),
    Elided,
}

#[derive(PartialEq, Eq, Debug)]
pub enum Rewrite {
    /// Take the original expression unchanged.
    Identity,
    /// Extract the subexpression at the given index.
    Sub(usize, Span),
    /// Emit some fixed text.
    Text(String),
    /// Extract some text from the input source code before any rewrites were applied.
    Extract(Span),
    /// `&e`, `&mut e`
    Ref(Box<Rewrite>, Mutability),
    /// `core::ptr::addr_of!(e)`, `core::ptr::addr_of_mut!(e)`
    AddrOf(Box<Rewrite>, Mutability),
    /// `*e`
    Deref(Box<Rewrite>),
    /// `arr[idx]`
    Index(Box<Rewrite>, Box<Rewrite>),
    /// `arr[idx1..idx2]`.  Both `idx1` and `idx2` are optional.
    SliceRange(Box<Rewrite>, Option<Box<Rewrite>>, Option<Box<Rewrite>>),
    /// `e as T`
    Cast(Box<Rewrite>, String),
    /// Placeholder for a redundant cast that has already been removed, so that
    /// a later removal of the same cast still finds its position.
    RemovedCast(Box<Rewrite>),
    /// The integer literal `0`.
    LitZero,
    /// Function calls
    Call(String, Vec<Rewrite>),
    /// Method calls
    MethodCall(String, Box<Rewrite>, Vec<Rewrite>),
    /// A block of statements, followed by an optional result expression.  A
    /// semicolon is inserted after each statement.
    Block(Vec<Rewrite>, Option<Box<Rewrite>>),
    /// A multi-variable `let` binding, like `let (x, y, ) = (rw0, rw1, )`,
    /// without a trailing semicolon.
    ///
    /// The bindings are not hygienic: they can capture names used by the text
    /// of an `Identity` or `Sub` that follows in the same block.
    Let(Vec<(String, Rewrite)>),
    /// Emit a complete pretty-printed type, discarding the original annotation.
    Print(String),
    /// `*const T`, `*mut T`
    TyPtr(Box<Rewrite>, Mutability),
    /// `&T`, `&mut T`
    TyRef(LifetimeName, Box<Rewrite>, Mutability),
    /// `[T]`
    TySlice(Box<Rewrite>),
    /// `Foo<T1, T2>`
    TyCtor(String, Vec<Rewrite>),
    /// `<'a, 'b, ...>`
    _TyGenericParams(Vec<Rewrite>),
    /// `static` mutability (`static` <-> `static mut`)
    StaticMut(Mutability, Span),
    /// Define a function.
    DefineFn { name: String, arg_tys: Vec<Rewrite>, return_ty: Option<Box<Rewrite>>, body: Box<Rewrite> },
    /// Emit the name of a function argument.  Only useful inside the body of `DefineFn`.
    FnArg(usize),
}

pub open spec fn alike_opt(a: Option<Box<Rewrite>>, b: Option<Box<Rewrite>>) -> bool
    decreases a, 0nat,
{
    match (a, b) {
        (Some(x), Some(y)) => alike(*x, *y),
        (None, None) => true,
        _ => false,
    }
}

pub open spec fn alike_list(a: Vec<Rewrite>, b: Vec<Rewrite>) -> bool
    decreases a, 0nat,
{
    a@.len() == b@.len() && forall|i: int| #![trigger a@[i]] 0 <= i < a@.len() ==> alike(a@[i], b@[i])
}

pub open spec fn alike_vars(a: Vec<(String, Rewrite)>, b: Vec<(String, Rewrite)>) -> bool
    decreases a, 0nat,
{
    a@.len() == b@.len() && forall|i: int|
        #![trigger a@[i]]
        0 <= i < a@.len() ==> a@[i].0 == b@[i].0 && alike(a@[i].1, b@[i].1)
}

/// The two nodes are the same tree: the same variant, with the same texts,
/// spans, indices and flags, and with children that are the same trees, in
/// the same order.
pub open spec fn alike(a: Rewrite, b: Rewrite) -> bool
    decreases a, 0nat,
{
    match (a, b) {
        (Rewrite::Identity, Rewrite::Identity) => true,
        (Rewrite::Sub(i, s), Rewrite::Sub(j, t)) => i == j && s == t,
        (Rewrite::Text(s), Rewrite::Text(t)) => s == t,
        (Rewrite::Extract(s), Rewrite::Extract(t)) => s == t,
        (Rewrite::Ref(x, p), Rewrite::Ref(y, q)) => p == q && alike(*x, *y),
        (Rewrite::AddrOf(x, p), Rewrite::AddrOf(y, q)) => p == q && alike(*x, *y),
        (Rewrite::Deref(x), Rewrite::Deref(y)) => alike(*x, *y),
        (Rewrite::Cast(x, p), Rewrite::Cast(y, q)) => p == q && alike(*x, *y),
        (Rewrite::RemovedCast(x), Rewrite::RemovedCast(y)) => alike(*x, *y),
        (Rewrite::TyPtr(x, p), Rewrite::TyPtr(y, q)) => p == q && alike(*x, *y),
        (Rewrite::TySlice(x), Rewrite::TySlice(y)) => alike(*x, *y),
        (Rewrite::Index(x, i), Rewrite::Index(y, j)) => alike(*x, *y) && alike(*i, *j),
        (Rewrite::SliceRange(x, lo, hi), Rewrite::SliceRange(y, lo2, hi2)) => alike(*x, *y) && alike_opt(
            lo,
            lo2,
        ) && alike_opt(hi, hi2),
        (Rewrite::LitZero, Rewrite::LitZero) => true,
        (Rewrite::Call(n, xs), Rewrite::Call(m, ys)) => n == m && alike_list(xs, ys),
        (Rewrite::MethodCall(n, x, xs), Rewrite::MethodCall(m, y, ys)) => n == m && alike(*x, *y)
            && alike_list(xs, ys),
        (Rewrite::Block(xs, x), Rewrite::Block(ys, y)) => alike_list(xs, ys) && alike_opt(x, y),
        (Rewrite::Let(xs), Rewrite::Let(ys)) => alike_vars(xs, ys),
        (Rewrite::Print(s), Rewrite::Print(t)) => s == t,
        (Rewrite::TyRef(l, x, p), Rewrite::TyRef(k, y, q)) => l == k && p == q && alike(*x, *y),
        (Rewrite::TyCtor(n, xs), Rewrite::TyCtor(m, ys)) => n == m && alike_list(xs, ys),
        (Rewrite::_TyGenericParams(xs), Rewrite::_TyGenericParams(ys)) => alike_list(xs, ys),
        (Rewrite::StaticMut(p, s), Rewrite::StaticMut(q, t)) => p == q && s == t,
        (
            Rewrite::DefineFn { name: n, arg_tys: xs, return_ty: x, body: f },
            Rewrite::DefineFn { name: m, arg_tys: ys, return_ty: y, body: g },
        ) => n == m && alike_list(xs, ys) && alike_opt(x, y) && alike(*f, *g),
        (Rewrite::FnArg(i), Rewrite::FnArg(j)) => i == j,
        _ => false,
    }
}

proof fn lemma_alike_opt(a: Option<Box<Rewrite>>, b: Option<Box<Rewrite>>, before: &str, t: Target)
    requires
        alike_opt(a, b),
    ensures
        render_opt(a, before, t) == render_opt(b, before, t),
    decreases a, 0nat,
{
    match (a, b) {
        (Some(x), Some(y)) => {
            lemma_alike_renders_alike(*x, *y, 0, t);
        },
        _ => {},
    }
}

proof fn lemma_alike_list(a: Vec<Rewrite>, b: Vec<Rewrite>, n: nat, style: ListStyle, t: Target)
    requires
        alike_list(a, b),
    ensures
        a@.len() == b@.len(),
        render_list(a, n, style, t) == render_list(b, n, style, t),
    decreases a, n,
{
    if n == 0 || n > a@.len() {
    } else {
        lemma_alike_list(a, b, (n - 1) as nat, style, t);
        assert(alike(a@[n - 1], b@[n - 1]));
        lemma_alike_renders_alike(a@[n - 1], b@[n - 1], 0, t);
    }
}

proof fn lemma_alike_names(a: Vec<(String, Rewrite)>, b: Vec<(String, Rewrite)>, n: nat)
    requires
        alike_vars(a, b),
    ensures
        a@.len() == b@.len(),
        render_names(a, n) == render_names(b, n),
    decreases n,
{
    if n == 0 || n > a@.len() {
    } else {
        lemma_alike_names(a, b, (n - 1) as nat);
        assert(a@[n - 1].0 == b@[n - 1].0);
    }
}

proof fn lemma_alike_values(a: Vec<(String, Rewrite)>, b: Vec<(String, Rewrite)>, n: nat, t: Target)
    requires
        alike_vars(a, b),
    ensures
        a@.len() == b@.len(),
        render_values(a, n, t) == render_values(b, n, t),
    decreases a, n,
{
    if n == 0 || n > a@.len() {
    } else {
        lemma_alike_values(a, b, (n - 1) as nat, t);
        assert(alike(a@[n - 1].1, b@[n - 1].1));
        lemma_alike_renders_alike(a@[n - 1].1, b@[n - 1].1, 0, t);
    }
}

/// Two nodes that are the same tree describe the same text, in every
/// position and for every target.
pub proof fn lemma_alike_renders_alike(a: Rewrite, b: Rewrite, prec: nat, t: Target)
    requires
        alike(a, b),
    ensures
        render(a, prec, t) == render(b, prec, t),
    decreases a, 0nat,
{
    match (a, b) {
        (Rewrite::Ref(x, _), Rewrite::Ref(y, _)) => {
            lemma_alike_renders_alike(*x, *y, 2, t);
        },
        (Rewrite::AddrOf(x, _), Rewrite::AddrOf(y, _)) => {
            lemma_alike_renders_alike(*x, *y, 0, t);
        },
        (Rewrite::Deref(x), Rewrite::Deref(y)) => {
            lemma_alike_renders_alike(*x, *y, 2, t);
        },
        (Rewrite::Index(x, i), Rewrite::Index(y, j)) => {
            lemma_alike_renders_alike(*x, *y, 3, t);
            lemma_alike_renders_alike(*i, *j, 0, t);
        },
        (Rewrite::SliceRange(x, lo, hi), Rewrite::SliceRange(y, lo2, hi2)) => {
            lemma_alike_renders_alike(*x, *y, 3, t);
            lemma_alike_opt(lo, lo2, "", t);
            lemma_alike_opt(hi, hi2, "", t);
        },
        (Rewrite::Cast(x, _), Rewrite::Cast(y, _)) => {
            lemma_alike_renders_alike(*x, *y, 1, t);
        },
        (Rewrite::RemovedCast(x), Rewrite::RemovedCast(y)) => {
            lemma_alike_renders_alike(*x, *y, prec, t);
        },
        (Rewrite::Call(_, xs), Rewrite::Call(_, ys)) => {
            lemma_alike_list(xs, ys, xs@.len(), ListStyle::Comma, t);
        },
        (Rewrite::MethodCall(_, x, xs), Rewrite::MethodCall(_, y, ys)) => {
            lemma_alike_renders_alike(*x, *y, 3, t);
            lemma_alike_list(xs, ys, xs@.len(), ListStyle::Comma, t);
        },
        (Rewrite::Block(xs, x), Rewrite::Block(ys, y)) => {
            lemma_alike_list(xs, ys, xs@.len(), ListStyle::Stmts, t);
            lemma_alike_opt(x, y, " ", t);
        },
        (Rewrite::Let(xs), Rewrite::Let(ys)) => {
            lemma_alike_names(xs, ys, xs@.len());
            lemma_alike_values(xs, ys, xs@.len(), t);
        },
        (Rewrite::TyPtr(x, _), Rewrite::TyPtr(y, _)) => {
            lemma_alike_renders_alike(*x, *y, 0, t);
        },
        (Rewrite::TyRef(_, x, _), Rewrite::TyRef(_, y, _)) => {
            lemma_alike_renders_alike(*x, *y, 0, t);
        },
        (Rewrite::TySlice(x), Rewrite::TySlice(y)) => {
            lemma_alike_renders_alike(*x, *y, 0, t);
        },
        (Rewrite::TyCtor(_, xs), Rewrite::TyCtor(_, ys)) => {
            lemma_alike_list(xs, ys, xs@.len(), ListStyle::Comma, t);
        },
        (Rewrite::_TyGenericParams(xs), Rewrite::_TyGenericParams(ys)) => {
            lemma_alike_list(xs, ys, xs@.len(), ListStyle::Comma, t);
        },
        (
            Rewrite::DefineFn { name: _, arg_tys: xs, return_ty: x, body: f },
            Rewrite::DefineFn { name: _, arg_tys: ys, return_ty: y, body: g },
        ) => {
            lemma_alike_list(xs, ys, xs@.len(), ListStyle::Params, t);
            lemma_alike_opt(x, y, " -> ", t);
            lemma_alike_renders_alike(*f, *g, 0, t);
        },
        _ => {},
    }
}

fn clone_lifetime(l: &LifetimeName) -> (r: LifetimeName)
    ensures
        r == *l,
{
    match l {
        LifetimeName::Explicit(name) => LifetimeName::Explicit(name.clone()),
        LifetimeName::Elided => LifetimeName::Elided,
    }
}

fn clone_opt(o: &Option<Box<Rewrite>>) -> (r: Option<Box<Rewrite>>)
    ensures
        alike_opt(*o, r),
    decreases o,
{
    match o {
        Some(rw) => Some(Box::new((**rw).clone())),
        None => None,
    }
}

fn clone_list(items: &Vec<Rewrite>) -> (r: Vec<Rewrite>)
    ensures
        alike_list(*items, r),
    decreases items,
{
    let mut out: Vec<Rewrite> = Vec::new();
    let mut i: usize = 0;
    while i < items.len()
        invariant
            i <= items@.len(),
            out@.len() == i,
            forall|k: int| #![trigger items@[k]] 0 <= k < i ==> alike(items@[k], out@[k]),
        decreases items@.len() - i,
    {
        out.push(items[i].clone());
        i = i + 1;
    }
    out
}

fn clone_vars(vars: &Vec<(String, Rewrite)>) -> (r: Vec<(String, Rewrite)>)
    ensures
        alike_vars(*vars, r),
    decreases vars,
{
    let mut out: Vec<(String, Rewrite)> = Vec::new();
    let mut i: usize = 0;
    while i < vars.len()
        invariant
            i <= vars@.len(),
            out@.len() == i,
            forall|k: int|
                #![trigger vars@[k]]
                0 <= k < i ==> vars@[k].0 == out@[k].0 && alike(vars@[k].1, out@[k].1),
        decreases vars@.len() - i,
    {
        out.push((vars[i].0.clone(), vars[i].1.clone()));
        i = i + 1;
    }
    out
}

impl Clone for Rewrite {
    /// A copy of the node: the same tree, built anew.
    fn clone(&self) -> (r: Rewrite)
        ensures
            alike(*self, r),
        decreases self,
    {
        match self {
            Rewrite::Identity => Rewrite::Identity,
            Rewrite::Sub(idx, span) => Rewrite::Sub(*idx, *span),
            Rewrite::Text(s) => Rewrite::Text(s.clone()),
            Rewrite::Extract(span) => Rewrite::Extract(*span),
            Rewrite::Ref(inner, m) => Rewrite::Ref(Box::new((**inner).clone()), *m),
            Rewrite::AddrOf(inner, m) => Rewrite::AddrOf(Box::new((**inner).clone()), *m),
            Rewrite::Deref(inner) => Rewrite::Deref(Box::new((**inner).clone())),
            Rewrite::Index(arr, idx) => Rewrite::Index(
                Box::new((**arr).clone()),
                Box::new((**idx).clone()),
            ),
            Rewrite::SliceRange(arr, lo, hi) => Rewrite::SliceRange(
                Box::new((**arr).clone()),
                clone_opt(lo),
                clone_opt(hi),
            ),
            Rewrite::Cast(inner, ty) => Rewrite::Cast(Box::new((**inner).clone()), ty.clone()),
            Rewrite::RemovedCast(inner) => Rewrite::RemovedCast(Box::new((**inner).clone())),
            Rewrite::LitZero => Rewrite::LitZero,
            Rewrite::Call(name, args) => Rewrite::Call(name.clone(), clone_list(args)),
            Rewrite::MethodCall(name, recv, args) => Rewrite::MethodCall(
                name.clone(),
                Box::new((**recv).clone()),
                clone_list(args),
            ),
            Rewrite::Block(stmts, tail) => Rewrite::Block(clone_list(stmts), clone_opt(tail)),
            Rewrite::Let(vars) => Rewrite::Let(clone_vars(vars)),
            Rewrite::Print(s) => Rewrite::Print(s.clone()),
            Rewrite::TyPtr(inner, m) => Rewrite::TyPtr(Box::new((**inner).clone()), *m),
            Rewrite::TyRef(lifetime, inner, m) => Rewrite::TyRef(
                clone_lifetime(lifetime),
                Box::new((**inner).clone()),
                *m,
            ),
            Rewrite::TySlice(inner) => Rewrite::TySlice(Box::new((**inner).clone())),
            Rewrite::TyCtor(name, args) => Rewrite::TyCtor(name.clone(), clone_list(args)),
            Rewrite::_TyGenericParams(args) => Rewrite::_TyGenericParams(clone_list(args)),
            Rewrite::StaticMut(m, span) => Rewrite::StaticMut(*m, *span),
            Rewrite::DefineFn { name, arg_tys, return_ty, body } => Rewrite::DefineFn {
                name: name.clone(),
                arg_tys: clone_list(arg_tys),
                return_ty: clone_opt(return_ty),
                body: Box::new((**body).clone()),
            },
            Rewrite::FnArg(idx) => Rewrite::FnArg(*idx),
        }
    }
}

impl Default for Rewrite {
    fn default() -> (r: Rewrite)
        ensures
            r == Rewrite::Identity,
    {
        Rewrite::Identity
    }
}

/// Where rendered text goes: a standalone preview, in which references to the
/// original text show as markers, or a splice into the text of a file.
pub enum Target {
    Preview,
    Splice(Seq<u8>, Span),
}

/// How lists of child nodes are laid out.
#[derive(Clone, Copy)]
pub enum ListStyle {
    /// Items separated by `, `.
    Comma,
    /// Each item preceded by a space and followed by `;`.
    Stmts,
    /// Items separated by `, `, item `i` preceded by `arg<i>: `.
    Params,
    /// Each item followed by `, `.
    Tuple,
}

/// Precedence levels of operand positions. A node is wrapped in parentheses
/// exactly when it stands at a level above its own operator's level.
pub open spec fn prec_any() -> nat { 0 }

pub open spec fn prec_cast() -> nat { 1 }

pub open spec fn prec_prefix() -> nat { 2 }

pub open spec fn prec_postfix() -> nat { 3 }

/// The precedence table: how tightly the top-level operator of a node binds.
/// `None` means that the node has no operator of its own and never needs
/// parentheses on that account.
pub open spec fn operator_level(rw: Rewrite) -> Option<nat>
    decreases rw,
{
    match rw {
        Rewrite::Cast(_, _) => Some(prec_cast()),
        Rewrite::Ref(_, _) => Some(prec_prefix()),
        Rewrite::Deref(_) => Some(prec_prefix()),
        Rewrite::Index(_, _) => Some(prec_postfix()),
        Rewrite::SliceRange(_, _, _) => Some(prec_postfix()),
        Rewrite::RemovedCast(inner) => operator_level(*inner),
        _ => None,
    }
}

/// Whether `rw`, standing in an operand position of level `prec`, is wrapped
/// in parentheses because of its own operator.
pub open spec fn needs_parens(rw: Rewrite, prec: nat) -> bool {
    match operator_level(rw) {
        Some(level) => prec > level,
        None => false,
    }
}

pub open spec fn in_parens(cond: bool, body: Seq<u8>) -> Seq<u8> {
    if cond {
        lit("(") + body + lit(")")
    } else {
        body
    }
}

pub open spec fn mut_prefix(m: Mutability, not: &str, mutable: &str) -> Seq<u8> {
    match m {
        Mutability::Not => lit(not),
        Mutability::Mut => lit(mutable),
    }
}

/// The text that a reference to the original expression stands for.
pub open spec fn render_expr(t: Target, prec: nat) -> Seq<u8> {
    match t {
        Target::Preview => lit("$e"),
        Target::Splice(src, own) => in_parens(prec > 0, src.subrange(own.lo as int, own.hi as int)),
    }
}

/// The text that a reference to the `idx`-th subexpression, at `span`, stands for.
pub open spec fn render_sub(t: Target, idx: nat, span: Span, prec: nat) -> Seq<u8> {
    match t {
        Target::Preview => lit("$") + encode_utf8(decimal(idx)),
        Target::Splice(src, _) => in_parens(prec > 0, src.subrange(span.lo as int, span.hi as int)),
    }
}

/// The text of `span` in the unmodified source.
pub open spec fn render_span(t: Target, span: Span) -> Seq<u8> {
    match t {
        Target::Preview => lit("<span ") + encode_utf8(decimal(span.file as nat)) + lit(":") + encode_utf8(
            decimal(span.lo as nat),
        ) + lit("..")
            + encode_utf8(decimal(span.hi as nat)) + lit(">"),
        Target::Splice(src, _) => src.subrange(span.lo as int, span.hi as int),
    }
}

pub open spec fn render_lifetime(l: LifetimeName) -> Seq<u8> {
    match l {
        LifetimeName::Explicit(name) => lit("'") + encode_utf8(name@) + lit(" "),
        LifetimeName::Elided => Seq::empty(),
    }
}

pub open spec fn item_prefix(style: ListStyle, i: nat) -> Seq<u8> {
    match style {
        ListStyle::Comma => if i > 0 { lit(", ") } else { Seq::empty() },
        ListStyle::Stmts => lit(" "),
        ListStyle::Params => (if i > 0 { lit(", ") } else { Seq::empty() }) + lit("arg")
            + encode_utf8(decimal(i)) + lit(": "),
        ListStyle::Tuple => Seq::empty(),
    }
}

pub open spec fn item_suffix(style: ListStyle) -> Seq<u8> {
    match style {
        ListStyle::Comma => Seq::empty(),
        ListStyle::Stmts => lit(";"),
        ListStyle::Params => Seq::empty(),
        ListStyle::Tuple => lit(", "),
    }
}

pub open spec fn render_opt(o: Option<Box<Rewrite>>, before: &str, t: Target) -> Seq<u8>
    decreases o, 0nat,
{
    match o {
        Some(rw) => lit(before) + render(*rw, 0, t),
        None => Seq::empty(),
    }
}

/// The first `n` items of `items`, each at the loosest level, laid out in `style`.
pub open spec fn render_list(items: Vec<Rewrite>, n: nat, style: ListStyle, t: Target) -> Seq<u8>
    decreases items, n,
{
    if n == 0 || n > items@.len() {
        Seq::empty()
    } else {
        render_list(items, (n - 1) as nat, style, t) + item_prefix(style, (n - 1) as nat) + render(
            items@[n - 1],
            0,
            t,
        ) + item_suffix(style)
    }
}

/// The names of the first `n` bindings, each followed by `, `.
pub open spec fn render_names(vars: Vec<(String, Rewrite)>, n: nat) -> Seq<u8>
    decreases n,
{
    if n == 0 || n > vars@.len() {
        Seq::empty()
    } else {
        render_names(vars, (n - 1) as nat) + encode_utf8(vars@[n - 1].0@) + lit(", ")
    }
}

/// The values of the first `n` bindings, each followed by `, `.
pub open spec fn render_values(vars: Vec<(String, Rewrite)>, n: nat, t: Target) -> Seq<u8>
    decreases vars, n,
{
    if n == 0 || n > vars@.len() {
        Seq::empty()
    } else {
        render_values(vars, (n - 1) as nat, t) + render(vars@[n - 1].1, 0, t) + lit(", ")
    }
}

/// The replacement text that `rw` describes, as an operand at level `prec`.
pub open spec fn render(rw: Rewrite, prec: nat, t: Target) -> Seq<u8>
    decreases rw, 0nat,
{
    match rw {
        Rewrite::Identity => render_expr(t, prec),
        Rewrite::Sub(idx, span) => render_sub(t, idx as nat, span, prec),
        Rewrite::Text(s) => encode_utf8(s@),
        Rewrite::Extract(span) => render_span(t, span),
        Rewrite::Ref(inner, m) => in_parens(
            prec > prec_prefix(),
            mut_prefix(m, "&", "&mut ") + render(*inner, prec_prefix(), t),
        ),
        Rewrite::AddrOf(inner, m) => mut_prefix(m, "core::ptr::addr_of!(", "core::ptr::addr_of_mut!(")
            + render(*inner, 0, t) + lit(")"),
        Rewrite::Deref(inner) => in_parens(
            prec > prec_prefix(),
            lit("*") + render(*inner, prec_prefix(), t),
        ),
        Rewrite::Index(arr, idx) => in_parens(
            prec > prec_postfix(),
            render(*arr, prec_postfix(), t) + lit("[") + render(*idx, 0, t) + lit("]"),
        ),
        Rewrite::SliceRange(arr, lo, hi) => in_parens(
            prec > prec_postfix(),
            render(*arr, prec_postfix(), t) + lit("[") + render_opt(lo, "", t) + lit("..") + render_opt(
                hi,
                "",
                t,
            ) + lit("]"),
        ),
        Rewrite::Cast(inner, ty) => in_parens(
            prec > prec_cast(),
            render(*inner, prec_cast(), t) + lit(" as ") + encode_utf8(ty@),
        ),
        Rewrite::RemovedCast(inner) => render(*inner, prec, t),
        Rewrite::LitZero => lit("0"),
        Rewrite::Call(name, args) => encode_utf8(name@) + lit("(") + render_list(
            args,
            args@.len(),
            ListStyle::Comma,
            t,
        ) + lit(")"),
        Rewrite::MethodCall(name, recv, args) => render(*recv, prec_postfix(), t) + lit(".")
            + encode_utf8(name@) + lit("(") + render_list(args, args@.len(), ListStyle::Comma, t) + lit(
            ")",
        ),
        Rewrite::Block(stmts, tail) => lit("{") + render_list(
            stmts,
            stmts@.len(),
            ListStyle::Stmts,
            t,
        ) + render_opt(tail, " ", t) + lit(" }"),
        Rewrite::Let(vars) => lit("let (") + render_names(vars, vars@.len()) + lit(") = (")
            + render_values(vars, vars@.len(), t) + lit(")"),
        Rewrite::Print(s) => encode_utf8(s@),
        Rewrite::TyPtr(inner, m) => mut_prefix(m, "*const ", "*mut ") + render(*inner, 0, t),
        Rewrite::TyRef(lifetime, inner, m) => lit("&") + render_lifetime(lifetime) + mut_prefix(
            m,
            "",
            "mut ",
        ) + render(*inner, 0, t),
        Rewrite::TySlice(inner) => lit("[") + render(*inner, 0, t) + lit("]"),
        Rewrite::TyCtor(name, args) => encode_utf8(name@) + lit("<") + render_list(
            args,
            args@.len(),
            ListStyle::Comma,
            t,
        ) + lit(">"),
        Rewrite::_TyGenericParams(args) => lit("<") + render_list(
            args,
            args@.len(),
            ListStyle::Comma,
            t,
        ) + lit(">"),
        Rewrite::StaticMut(m, span) => mut_prefix(m, "static ", "static mut ") + render_span(t, span),
        Rewrite::DefineFn { name, arg_tys, return_ty, body } => lit("unsafe fn ") + encode_utf8(name@)
            + lit("(") + render_list(arg_tys, arg_tys@.len(), ListStyle::Params, t) + lit(")")
            + render_opt(return_ty, " -> ", t) + lit(" { ") + render(*body, 0, t) + lit(" }"),
        Rewrite::FnArg(idx) => lit("arg") + encode_utf8(decimal(idx as nat)),
    }
}

/// The target that the emitters write for: a splice into `src` where there is
/// one, a preview where there is none.
pub open spec fn target(src: Option<&[u8]>, own: Span) -> Target {
    match src {
        Some(s) => Target::Splice(s@, own),
        None => Target::Preview,
    }
}

/// The length of the text that spans must lie in, if there is a text.
pub open spec fn bound(t: Target) -> Option<nat> {
    match t {
        Target::Preview => None,
        Target::Splice(src, _) => Some(src.len()),
    }
}

/// The node's own span lies in the target's text.
pub open spec fn own_fits(t: Target) -> bool {
    match t {
        Target::Preview => true,
        Target::Splice(src, own) => own.fits(src.len()),
    }
}

pub open spec fn span_ok(span: Span, len: Option<nat>) -> bool {
    match len {
        Some(n) => span.fits(n),
        None => true,
    }
}

pub open spec fn opt_fits(o: Option<Box<Rewrite>>, len: Option<nat>) -> bool
    decreases o, 0nat,
{
    match o {
        Some(rw) => spans_fit(*rw, len),
        None => true,
    }
}

pub open spec fn list_fits(items: Vec<Rewrite>, n: nat, len: Option<nat>) -> bool
    decreases items, n,
{
    if n == 0 || n > items@.len() {
        true
    } else {
        list_fits(items, (n - 1) as nat, len) && spans_fit(items@[n - 1], len)
    }
}

pub open spec fn values_fit(vars: Vec<(String, Rewrite)>, n: nat, len: Option<nat>) -> bool
    decreases vars, n,
{
    if n == 0 || n > vars@.len() {
        true
    } else {
        values_fit(vars, (n - 1) as nat, len) && spans_fit(vars@[n - 1].1, len)
    }
}

/// Every span that `rw` names lies within a text of `len` bytes.
pub open spec fn spans_fit(rw: Rewrite, len: Option<nat>) -> bool
    decreases rw, 0nat,
{
    match rw {
        Rewrite::Identity => true,
        Rewrite::Sub(_, span) => span_ok(span, len),
        Rewrite::Text(_) => true,
        Rewrite::Extract(span) => span_ok(span, len),
        Rewrite::Ref(inner, _) => spans_fit(*inner, len),
        Rewrite::AddrOf(inner, _) => spans_fit(*inner, len),
        Rewrite::Deref(inner) => spans_fit(*inner, len),
        Rewrite::Index(arr, idx) => spans_fit(*arr, len) && spans_fit(*idx, len),
        Rewrite::SliceRange(arr, lo, hi) => spans_fit(*arr, len) && opt_fits(lo, len) && opt_fits(
            hi,
            len,
        ),
        Rewrite::Cast(inner, _) => spans_fit(*inner, len),
        Rewrite::RemovedCast(inner) => spans_fit(*inner, len),
        Rewrite::LitZero => true,
        Rewrite::Call(_, args) => list_fits(args, args@.len(), len),
        Rewrite::MethodCall(_, recv, args) => spans_fit(*recv, len) && list_fits(
            args,
            args@.len(),
            len,
        ),
        Rewrite::Block(stmts, tail) => list_fits(stmts, stmts@.len(), len) && opt_fits(tail, len),
        Rewrite::Let(vars) => values_fit(vars, vars@.len(), len),
        Rewrite::Print(_) => true,
        Rewrite::TyPtr(inner, _) => spans_fit(*inner, len),
        Rewrite::TyRef(_, inner, _) => spans_fit(*inner, len),
        Rewrite::TySlice(inner) => spans_fit(*inner, len),
        Rewrite::TyCtor(_, args) => list_fits(args, args@.len(), len),
        Rewrite::_TyGenericParams(args) => list_fits(args, args@.len(), len),
        Rewrite::StaticMut(_, span) => span_ok(span, len),
        Rewrite::DefineFn { name, arg_tys, return_ty, body } => list_fits(
            arg_tys,
            arg_tys@.len(),
            len,
        ) && opt_fits(return_ty, len) && spans_fit(*body, len),
        Rewrite::FnArg(_) => true,
    }
}

fn check_opt(o: &Option<Box<Rewrite>>, len: usize) -> (b: bool)
    ensures
        b == opt_fits(*o, Some(len as nat)),
    decreases o,
{
    match o {
        Some(rw) => check_spans(rw, len),
        None => true,
    }
}

fn check_list(items: &Vec<Rewrite>, len: usize) -> (b: bool)
    ensures
        b == list_fits(*items, items@.len(), Some(len as nat)),
    decreases items,
{
    let mut i: usize = 0;
    while i < items.len()
        invariant
            i <= items@.len(),
            list_fits(*items, i as nat, Some(len as nat)),
        decreases items@.len() - i,
    {
        if !check_spans(&items[i], len) {
            proof {
                lemma_list_fits_prefix(*items, (i + 1) as nat, items@.len(), Some(len as nat));
            }
            return false;
        }
        i = i + 1;
    }
    true
}

fn check_values(vars: &Vec<(String, Rewrite)>, len: usize) -> (b: bool)
    ensures
        b == values_fit(*vars, vars@.len(), Some(len as nat)),
    decreases vars,
{
    let mut i: usize = 0;
    while i < vars.len()
        invariant
            i <= vars@.len(),
            values_fit(*vars, i as nat, Some(len as nat)),
        decreases vars@.len() - i,
    {
        if !check_spans(&vars[i].1, len) {
            proof {
                lemma_values_fit_prefix(*vars, (i + 1) as nat, vars@.len(), Some(len as nat));
            }
            return false;
        }
        i = i + 1;
    }
    true
}

/// A list whose first `n` items do not all fit does not fit as a whole.
proof fn lemma_list_fits_prefix(items: Vec<Rewrite>, n: nat, m: nat, len: Option<nat>)
    requires
        n <= m <= items@.len(),
        !list_fits(items, n, len),
    ensures
        !list_fits(items, m, len),
    decreases m,
{
    if n < m {
        lemma_list_fits_prefix(items, n, (m - 1) as nat, len);
    }
}

proof fn lemma_values_fit_prefix(vars: Vec<(String, Rewrite)>, n: nat, m: nat, len: Option<nat>)
    requires
        n <= m <= vars@.len(),
        !values_fit(vars, n, len),
    ensures
        !values_fit(vars, m, len),
    decreases m,
{
    if n < m {
        lemma_values_fit_prefix(vars, n, (m - 1) as nat, len);
    }
}

/// Whether every span that `rw` names lies within a text of `len` bytes.
pub fn check_spans(rw: &Rewrite, len: usize) -> (b: bool)
    ensures
        b == spans_fit(*rw, Some(len as nat)),
    decreases rw,
{
    match rw {
        Rewrite::Identity => true,
        Rewrite::Sub(_, span) => span.check_fits(len),
        Rewrite::Text(_) => true,
        Rewrite::Extract(span) => span.check_fits(len),
        Rewrite::Ref(inner, _) => check_spans(inner, len),
        Rewrite::AddrOf(inner, _) => check_spans(inner, len),
        Rewrite::Deref(inner) => check_spans(inner, len),
        Rewrite::Index(arr, idx) => check_spans(arr, len) && check_spans(idx, len),
        Rewrite::SliceRange(arr, lo, hi) => check_spans(arr, len) && check_opt(lo, len) && check_opt(
            hi,
            len,
        ),
        Rewrite::Cast(inner, _) => check_spans(inner, len),
        Rewrite::RemovedCast(inner) => check_spans(inner, len),
        Rewrite::LitZero => true,
        Rewrite::Call(_, args) => check_list(args, len),
        Rewrite::MethodCall(_, recv, args) => check_spans(recv, len) && check_list(args, len),
        Rewrite::Block(stmts, tail) => check_list(stmts, len) && check_opt(tail, len),
        Rewrite::Let(vars) => check_values(vars, len),
        Rewrite::Print(_) => true,
        Rewrite::TyPtr(inner, _) => check_spans(inner, len),
        Rewrite::TyRef(_, inner, _) => check_spans(inner, len),
        Rewrite::TySlice(inner) => check_spans(inner, len),
        Rewrite::TyCtor(_, args) => check_list(args, len),
        Rewrite::_TyGenericParams(args) => check_list(args, len),
        Rewrite::StaticMut(_, span) => span.check_fits(len),
        Rewrite::DefineFn { name, arg_tys, return_ty, body } => check_list(arg_tys, len) && check_opt(
            return_ty,
            len,
        ) && check_spans(body, len),
        Rewrite::FnArg(_) => true,
    }
}

/// The node has no operator of its own: it is a reference to original text,
/// fixed text, or a call.
pub open spec fn is_plain(rw: Rewrite) -> bool {
    rw is Identity || rw is Text || rw is Extract || rw is Call
}

/// In a preview, a node without an operator of its own reads the same in
/// every operand position: it is never wrapped in parentheses.
pub proof fn lemma_plain_never_parenthesized(rw: Rewrite, prec: nat)
    requires
        is_plain(rw),
    ensures
        !needs_parens(rw, prec),
        render(rw, prec, Target::Preview) == render(rw, 0, Target::Preview),
{
}

/// A node with an operator of its own is wrapped in parentheses exactly
/// where the precedence table says that its operator binds more loosely than
/// its position requires; apart from the parentheses its text is the same in
/// every position.
pub proof fn lemma_parenthesized_iff_looser(rw: Rewrite, prec: nat, t: Target)
    requires
        operator_level(rw) is Some,
    ensures
        render(rw, prec, t) == in_parens(needs_parens(rw, prec), render(rw, 0, t)),
    decreases rw,
{
    match rw {
        Rewrite::RemovedCast(inner) => {
            lemma_parenthesized_iff_looser(*inner, prec, t);
        },
        _ => {},
    }
}

/// In a preview, a node without an operator of its own reads the same in
/// every operand position, whatever it is made of.
pub proof fn lemma_no_operator_no_parens(rw: Rewrite, prec: nat)
    requires
        operator_level(rw) is None,
    ensures
        render(rw, prec, Target::Preview) == render(rw, 0, Target::Preview),
    decreases rw,
{
    match rw {
        Rewrite::RemovedCast(inner) => {
            lemma_no_operator_no_parens(*inner, prec);
        },
        _ => {},
    }
}

/// A node standing for the original text of its span splices in exactly that
/// text when it is not an operand: nothing is added.
pub proof fn lemma_identity_is_original(src: Seq<u8>, own: Span)
    ensures
        render(Rewrite::Identity, 0, Target::Splice(src, own)) == src.subrange(
            own.lo as int,
            own.hi as int,
        ),
{
}

proof fn lemma_opt_text(o: Option<Box<Rewrite>>, before: &str)
    ensures
        valid_utf8(render_opt(o, before, Target::Preview)),
    decreases o, 0nat,
{
    broadcast use encode_utf8_valid_utf8;

    assert forall|a: Seq<u8>, b: Seq<u8>| valid_utf8(a) && valid_utf8(b) implies #[trigger] valid_utf8(
        a + b,
    ) by {
        valid_utf8_concat(a, b);
    }

    match o {
        Some(rw) => {
            lemma_preview_text(*rw, 0);
        },
        None => {},
    }
}

proof fn lemma_list_text(items: Vec<Rewrite>, n: nat, style: ListStyle)
    ensures
        valid_utf8(render_list(items, n, style, Target::Preview)),
    decreases items, n,
{
    broadcast use encode_utf8_valid_utf8;

    assert forall|a: Seq<u8>, b: Seq<u8>| valid_utf8(a) && valid_utf8(b) implies #[trigger] valid_utf8(
        a + b,
    ) by {
        valid_utf8_concat(a, b);
    }

    if n == 0 || n > items@.len() {
    } else {
        lemma_list_text(items, (n - 1) as nat, style);
        lemma_preview_text(items@[n - 1], 0);
        let a = render_list(items, (n - 1) as nat, style, Target::Preview);
        let b = item_prefix(style, (n - 1) as nat);
        let c = render(items@[n - 1], 0, Target::Preview);
        let d = item_suffix(style);
        assert(valid_utf8(Seq::<u8>::empty()));
        assert(valid_utf8(a + b + c + d));
    }
}

proof fn lemma_names_text(vars: Vec<(String, Rewrite)>, n: nat)
    ensures
        valid_utf8(render_names(vars, n)),
    decreases n,
{
    broadcast use encode_utf8_valid_utf8;

    assert forall|a: Seq<u8>, b: Seq<u8>| valid_utf8(a) && valid_utf8(b) implies #[trigger] valid_utf8(
        a + b,
    ) by {
        valid_utf8_concat(a, b);
    }

    if n == 0 || n > vars@.len() {
    } else {
        lemma_names_text(vars, (n - 1) as nat);
        let a = render_names(vars, (n - 1) as nat);
        let b = encode_utf8(vars@[n - 1].0@);
        assert(valid_utf8(a + b));
    }
}

proof fn lemma_values_text(vars: Vec<(String, Rewrite)>, n: nat)
    ensures
        valid_utf8(render_values(vars, n, Target::Preview)),
    decreases vars, n,
{
    broadcast use encode_utf8_valid_utf8;

    assert forall|a: Seq<u8>, b: Seq<u8>| valid_utf8(a) && valid_utf8(b) implies #[trigger] valid_utf8(
        a + b,
    ) by {
        valid_utf8_concat(a, b);
    }

    if n == 0 || n > vars@.len() {
    } else {
        lemma_values_text(vars, (n - 1) as nat);
        lemma_preview_text(vars@[n - 1].1, 0);
        let a = render_values(vars, (n - 1) as nat, Target::Preview);
        let b = render(vars@[n - 1].1, 0, Target::Preview);
        assert(valid_utf8(a + b));
    }
}

/// A preview is well-formed UTF-8 text.
pub proof fn lemma_preview_text(rw: Rewrite, prec: nat)
    ensures
        valid_utf8(render(rw, prec, Target::Preview)),
    decreases rw, 0nat,
{
    broadcast use encode_utf8_valid_utf8;

    assert forall|a: Seq<u8>, b: Seq<u8>| valid_utf8(a) && valid_utf8(b) implies #[trigger] valid_utf8(
        a + b,
    ) by {
        valid_utf8_concat(a, b);
    }

    let t = Target::Preview;
    assert(valid_utf8(Seq::<u8>::empty()));
    match rw {
        Rewrite::Identity => {},
        Rewrite::Sub(idx, span) => {},
        Rewrite::Text(s) => {},
        Rewrite::Extract(span) => {},
        Rewrite::Ref(inner, m) => {
            lemma_preview_text(*inner, 2);
        },
        Rewrite::AddrOf(inner, m) => {
            lemma_preview_text(*inner, 0);
        },
        Rewrite::Deref(inner) => {
            lemma_preview_text(*inner, 2);
        },
        Rewrite::Index(arr, idx) => {
            lemma_preview_text(*arr, 3);
            lemma_preview_text(*idx, 0);
        },
        Rewrite::SliceRange(arr, lo, hi) => {
            lemma_preview_text(*arr, 3);
            lemma_opt_text(lo, "");
            lemma_opt_text(hi, "");
        },
        Rewrite::Cast(inner, ty) => {
            lemma_preview_text(*inner, 1);
        },
        Rewrite::RemovedCast(inner) => {
            lemma_preview_text(*inner, prec);
        },
        Rewrite::LitZero => {},
        Rewrite::Call(name, args) => {
            lemma_list_text(args, args@.len(), ListStyle::Comma);
        },
        Rewrite::MethodCall(name, recv, args) => {
            lemma_preview_text(*recv, 3);
            lemma_list_text(args, args@.len(), ListStyle::Comma);
        },
        Rewrite::Block(stmts, tail) => {
            lemma_list_text(stmts, stmts@.len(), ListStyle::Stmts);
            lemma_opt_text(tail, " ");
        },
        Rewrite::Let(vars) => {
            lemma_names_text(vars, vars@.len());
            lemma_values_text(vars, vars@.len());
        },
        Rewrite::Print(s) => {},
        Rewrite::TyPtr(inner, m) => {
            lemma_preview_text(*inner, 0);
        },
        Rewrite::TyRef(lifetime, inner, m) => {
            lemma_preview_text(*inner, 0);
        },
        Rewrite::TySlice(inner) => {
            lemma_preview_text(*inner, 0);
        },
        Rewrite::TyCtor(name, args) => {
            lemma_list_text(args, args@.len(), ListStyle::Comma);
        },
        Rewrite::_TyGenericParams(args) => {
            lemma_list_text(args, args@.len(), ListStyle::Comma);
        },
        Rewrite::StaticMut(m, span) => {},
        Rewrite::DefineFn { name, arg_tys, return_ty, body } => {
            lemma_list_text(arg_tys, arg_tys@.len(), ListStyle::Params);
            lemma_opt_text(return_ty, " -> ");
            lemma_preview_text(*body, 0);
        },
        Rewrite::FnArg(idx) => {},
    }
}

impl Rewrite {
    /// The preview of the rewrite: its text with `$e` for the original
    /// expression, `$i` for its `i`-th subexpression and `<span file:lo..hi>` for
    /// text taken from the source.
    pub fn to_string(&self) -> (s: String)
        ensures
            encode_utf8(s@) == render(*self, 0, Target::Preview),
    {
        let mut out: Vec<u8> = Vec::new();
        emit_rewrite(&mut out, self, 0, None, Span::new(0, 0, 0));
        proof {
            lemma_preview_text(*self, 0);
            assert(out@ =~= render(*self, 0, Target::Preview));
        }
        match str_from_utf8(out.as_slice()) {
            Some(text) => text.to_owned(),
            None => String::new(),
        }
    }
}

/// No two of the rewrites are for the same span.
pub open spec fn spans_distinct(rws: Seq<(Span, Rewrite)>) -> bool {
    forall|a: int, b: int| 0 <= a < b < rws.len() ==> (#[trigger] rws[a]).0 != (#[trigger] rws[b]).0
}

/// No pair of entries before the pair `(i, j)` is for one span.
pub open spec fn distinct_before(rws: Seq<(Span, Rewrite)>, i: int, j: int) -> bool {
    forall|a: int, b: int|
        0 <= a < b < rws.len() && (a < i || (a == i && b < j)) ==> (#[trigger] rws[a]).0 != (
        #[trigger] rws[b]).0
}

/// The first two entries that are for one span, if there are such.
pub fn find_same_span(rws: &Vec<(Span, Rewrite)>) -> (r: Option<(usize, usize)>)
    ensures
        r is None <==> spans_distinct(rws@),
        r matches Some((i, j)) ==> i < j < rws@.len() && rws@[i as int].0 == rws@[j as int].0
            && distinct_before(rws@, i as int, j as int),
{
    let n = rws.len();
    let mut i: usize = 0;
    while i < n
        invariant
            n == rws@.len(),
            i <= n,
            distinct_before(rws@, i as int, 0),
        decreases n - i,
    {
        let mut j: usize = i + 1;
        while j < n
            invariant
                n == rws@.len(),
                i < j <= n,
                distinct_before(rws@, i as int, j as int),
            decreases n - j,
        {
            if rws[i].0 == rws[j].0 {
                return Some((i, j));
            }
            j = j + 1;
        }
        i = i + 1;
    }
    None
}

/// Merges two sets of rewrites into one, `more` after `base`. Every span may
/// have one node only: where two entries are for one span, nothing is merged
/// and the indices of the first such pair, counted in `base` followed by
/// `more`, are returned.
pub fn merge_rewrites(base: Vec<(Span, Rewrite)>, more: Vec<(Span, Rewrite)>) -> (r: Result<
    Vec<(Span, Rewrite)>,
    (usize, usize),
>)
    ensures
        r is Ok <==> spans_distinct(base@ + more@),
        r matches Ok(all) ==> all@ == base@ + more@,
        r matches Err((i, j)) ==> i < j < (base@ + more@).len() && (base@ + more@)[i as int].0 == (base@
            + more@)[j as int].0 && distinct_before(base@ + more@, i as int, j as int),
{
    let mut all = base;
    let mut rest = more;
    all.append(&mut rest);
    match find_same_span(&all) {
        Some(pair) => Err(pair),
        None => Ok(all),
    }
}

} // verus!
