//! Emission of rendered rewrites, and the single-pass splice of a set of
//! rewrites into the text of a file.

use crate::rewrite::{
    check_spans,    bound, in_parens, item_prefix, item_suffix, mut_prefix, own_fits, render, render_expr,
    render_lifetime, render_list, render_names, render_opt, render_span, render_sub,
    render_values, span_ok, spans_fit, list_fits, opt_fits, values_fit, target, LifetimeName,
    ListStyle, Mutability, Rewrite, Span, Target,
};
use crate::text::{decimal, decimal_string, lit, push_range, push_str};
use vstd::prelude::*;
use vstd::string::*;
use vstd::utf8::*;

verus! {

fn emit_source(out: &mut Vec<u8>, src: &[u8], span: Span, parens: bool)
    requires
        span.fits(src@.len()),
    ensures
        final(out)@ == old(out)@ + in_parens(parens, src@.subrange(span.lo as int, span.hi as int)),
{
    if parens {
        push_str(out, "(");
    }
    push_range(out, src, span.lo, span.hi);
    if parens {
        push_str(out, ")");
    }
    assert(out@ =~= old(out)@ + in_parens(
        parens,
        src@.subrange(span.lo as int, span.hi as int),
    ));
}

fn emit_decimal(out: &mut Vec<u8>, n: usize)
    ensures
        final(out)@ == old(out)@ + encode_utf8(decimal(n as nat)),
{
    let s = decimal_string(n as u64);
    push_str(out, s.as_str());
}

fn emit_mut(out: &mut Vec<u8>, m: Mutability, not: &str, mutable: &str)
    ensures
        final(out)@ == old(out)@ + mut_prefix(m, not, mutable),
{
    match m {
        Mutability::Not => push_str(out, not),
        Mutability::Mut => push_str(out, mutable),
    }
}

fn emit_span(out: &mut Vec<u8>, span: Span, src: Option<&[u8]>, own: Span)
    requires
        span_ok(span, bound(target(src, own))),
    ensures
        final(out)@ == old(out)@ + render_span(target(src, own), span),
{
    match src {
        None => {
            push_str(out, "<span ");
            emit_decimal(out, span.file as usize);
            push_str(out, ":");
            emit_decimal(out, span.lo);
            push_str(out, "..");
            emit_decimal(out, span.hi);
            push_str(out, ">");
            assert(out@ =~= old(out)@ + render_span(target(src, own), span));
        },
        Some(s) => {
            emit_source(out, s, span, false);
        },
    }
}

fn emit_opt(out: &mut Vec<u8>, o: &Option<Box<Rewrite>>, before: &str, src: Option<&[u8]>, own: Span)
    requires
        own_fits(target(src, own)),
        src is Some ==> opt_fits(*o, bound(target(src, own))),
    ensures
        final(out)@ == old(out)@ + render_opt(*o, before, target(src, own)),
    decreases o, 0nat,
{
    match o {
        Some(rw) => {
            push_str(out, before);
            emit_rewrite(out, rw, 0, src, own);
            assert(out@ =~= old(out)@ + render_opt(*o, before, target(src, own)));
        },
        None => {
            assert(out@ =~= old(out)@ + render_opt(*o, before, target(src, own)));
        },
    }
}

fn emit_item_prefix(out: &mut Vec<u8>, style: ListStyle, i: usize)
    ensures
        final(out)@ == old(out)@ + item_prefix(style, i as nat),
{
    match style {
        ListStyle::Comma => {
            if i > 0 {
                push_str(out, ", ");
            }
        },
        ListStyle::Stmts => {
            push_str(out, " ");
        },
        ListStyle::Params => {
            if i > 0 {
                push_str(out, ", ");
            }
            push_str(out, "arg");
            emit_decimal(out, i);
            push_str(out, ": ");
        },
        ListStyle::Tuple => {},
    }
    assert(out@ =~= old(out)@ + item_prefix(style, i as nat));
}

fn emit_item_suffix(out: &mut Vec<u8>, style: ListStyle)
    ensures
        final(out)@ == old(out)@ + item_suffix(style),
{
    match style {
        ListStyle::Comma => {},
        ListStyle::Stmts => {
            push_str(out, ";");
        },
        ListStyle::Params => {},
        ListStyle::Tuple => {
            push_str(out, ", ");
        },
    }
    assert(out@ =~= old(out)@ + item_suffix(style));
}

fn emit_list(out: &mut Vec<u8>, items: &Vec<Rewrite>, style: ListStyle, src: Option<&[u8]>, own: Span)
    requires
        own_fits(target(src, own)),
        src is Some ==> list_fits(*items, items@.len(), bound(target(src, own))),
    ensures
        final(out)@ == old(out)@ + render_list(*items, items@.len(), style, target(src, own)),
    decreases items, 0nat,
{
    let ghost t = target(src, own);
    let mut i: usize = 0;
    assert(out@ =~= old(out)@ + render_list(*items, 0, style, t));
    while i < items.len()
        invariant
            i <= items@.len(),
            t == target(src, own),
            own_fits(t),
            src is Some ==> list_fits(*items, items@.len(), bound(t)),
            out@ == old(out)@ + render_list(*items, i as nat, style, t),
        decreases items@.len() - i,
    {
        proof {
            if src is Some {
                lemma_list_fits_item(*items, items@.len(), i as int, bound(t));
            }
        }
        emit_item_prefix(out, style, i);
        emit_rewrite(out, &items[i], 0, src, own);
        emit_item_suffix(out, style);
        i = i + 1;
        assert(out@ =~= old(out)@ + render_list(*items, i as nat, style, t));
    }
}

fn emit_names(out: &mut Vec<u8>, vars: &Vec<(String, Rewrite)>)
    ensures
        final(out)@ == old(out)@ + render_names(*vars, vars@.len()),
{
    let mut i: usize = 0;
    assert(out@ =~= old(out)@ + render_names(*vars, 0));
    while i < vars.len()
        invariant
            i <= vars@.len(),
            out@ == old(out)@ + render_names(*vars, i as nat),
        decreases vars@.len() - i,
    {
        push_str(out, vars[i].0.as_str());
        push_str(out, ", ");
        i = i + 1;
        assert(out@ =~= old(out)@ + render_names(*vars, i as nat));
    }
}

fn emit_values(out: &mut Vec<u8>, vars: &Vec<(String, Rewrite)>, src: Option<&[u8]>, own: Span)
    requires
        own_fits(target(src, own)),
        src is Some ==> values_fit(*vars, vars@.len(), bound(target(src, own))),
    ensures
        final(out)@ == old(out)@ + render_values(*vars, vars@.len(), target(src, own)),
    decreases vars, 0nat,
{
    let ghost t = target(src, own);
    let mut i: usize = 0;
    assert(out@ =~= old(out)@ + render_values(*vars, 0, t));
    while i < vars.len()
        invariant
            i <= vars@.len(),
            t == target(src, own),
            own_fits(t),
            src is Some ==> values_fit(*vars, vars@.len(), bound(t)),
            out@ == old(out)@ + render_values(*vars, i as nat, t),
        decreases vars@.len() - i,
    {
        proof {
            if src is Some {
                lemma_values_fit_item(*vars, vars@.len(), i as int, bound(t));
            }
        }
        emit_rewrite(out, &vars[i].1, 0, src, own);
        push_str(out, ", ");
        i = i + 1;
        assert(out@ =~= old(out)@ + render_values(*vars, i as nat, t));
    }
}

/// Every item of a list that fits does fit.
proof fn lemma_list_fits_item(items: Vec<Rewrite>, n: nat, i: int, len: Option<nat>)
    requires
        0 <= i < n <= items@.len(),
        list_fits(items, n, len),
    ensures
        spans_fit(items@[i], len),
    decreases n,
{
    if i < n - 1 {
        lemma_list_fits_item(items, (n - 1) as nat, i, len);
    }
}

proof fn lemma_values_fit_item(vars: Vec<(String, Rewrite)>, n: nat, i: int, len: Option<nat>)
    requires
        0 <= i < n <= vars@.len(),
        values_fit(vars, n, len),
    ensures
        spans_fit(vars@[i].1, len),
    decreases n,
{
    if i < n - 1 {
        lemma_values_fit_item(vars, (n - 1) as nat, i, len);
    }
}

fn emit_identity(out: &mut Vec<u8>, rw: &Rewrite, prec: u8, src: Option<&[u8]>, own: Span)
    requires
        own_fits(target(src, own)),
        src is Some ==> spans_fit(*rw, bound(target(src, own))),
        *rw is Identity,
    ensures
        final(out)@ == old(out)@ + render(*rw, prec as nat, target(src, own)),
    decreases rw, 0nat,
{
    match rw {
        Rewrite::Identity => {
            match src {
                None => push_str(out, "$e"),
                Some(s) => emit_source(out, s, own, prec > 0),
            }
        },
        _ => {},
    }
    assert(out@ =~= old(out)@ + render(*rw, prec as nat, target(src, own)));
}

fn emit_sub(out: &mut Vec<u8>, rw: &Rewrite, prec: u8, src: Option<&[u8]>, own: Span)
    requires
        own_fits(target(src, own)),
        src is Some ==> spans_fit(*rw, bound(target(src, own))),
        *rw is Sub,
    ensures
        final(out)@ == old(out)@ + render(*rw, prec as nat, target(src, own)),
    decreases rw, 0nat,
{
    match rw {
        Rewrite::Sub(idx, span) => {
            match src {
                None => {
                    push_str(out, "$");
                    emit_decimal(out, *idx);
                },
                Some(s) => emit_source(out, s, *span, prec > 0),
            }
        },
        _ => {},
    }
    assert(out@ =~= old(out)@ + render(*rw, prec as nat, target(src, own)));
}

fn emit_ref(out: &mut Vec<u8>, rw: &Rewrite, prec: u8, src: Option<&[u8]>, own: Span)
    requires
        own_fits(target(src, own)),
        src is Some ==> spans_fit(*rw, bound(target(src, own))),
        *rw is Ref,
    ensures
        final(out)@ == old(out)@ + render(*rw, prec as nat, target(src, own)),
    decreases rw, 0nat,
{
    match rw {
        Rewrite::Ref(inner, m) => {
            if prec > 2 {
                push_str(out, "(");
            }
            emit_mut(out, *m, "&", "&mut ");
            emit_rewrite(out, inner, 2, src, own);
            if prec > 2 {
                push_str(out, ")");
            }
        },
        _ => {},
    }
    assert(out@ =~= old(out)@ + render(*rw, prec as nat, target(src, own)));
}

fn emit_addr_of(out: &mut Vec<u8>, rw: &Rewrite, prec: u8, src: Option<&[u8]>, own: Span)
    requires
        own_fits(target(src, own)),
        src is Some ==> spans_fit(*rw, bound(target(src, own))),
        *rw is AddrOf,
    ensures
        final(out)@ == old(out)@ + render(*rw, prec as nat, target(src, own)),
    decreases rw, 0nat,
{
    match rw {
        Rewrite::AddrOf(inner, m) => {
            emit_mut(out, *m, "core::ptr::addr_of!(", "core::ptr::addr_of_mut!(");
            emit_rewrite(out, inner, 0, src, own);
            push_str(out, ")");
        },
        _ => {},
    }
    assert(out@ =~= old(out)@ + render(*rw, prec as nat, target(src, own)));
}

fn emit_deref(out: &mut Vec<u8>, rw: &Rewrite, prec: u8, src: Option<&[u8]>, own: Span)
    requires
        own_fits(target(src, own)),
        src is Some ==> spans_fit(*rw, bound(target(src, own))),
        *rw is Deref,
    ensures
        final(out)@ == old(out)@ + render(*rw, prec as nat, target(src, own)),
    decreases rw, 0nat,
{
    match rw {
        Rewrite::Deref(inner) => {
            if prec > 2 {
                push_str(out, "(");
            }
            push_str(out, "*");
            emit_rewrite(out, inner, 2, src, own);
            if prec > 2 {
                push_str(out, ")");
            }
        },
        _ => {},
    }
    assert(out@ =~= old(out)@ + render(*rw, prec as nat, target(src, own)));
}

/// The text of an indexing expression before any parentheses around it.
spec fn index_body(rw: Rewrite, t: Target) -> Seq<u8> {
    match rw {
        Rewrite::Index(arr, idx) => render(*arr, 3, t) + lit("[") + render(*idx, 0, t) + lit("]"),
        _ => Seq::empty(),
    }
}

fn emit_index_body(out: &mut Vec<u8>, rw: &Rewrite, src: Option<&[u8]>, own: Span)
    requires
        own_fits(target(src, own)),
        src is Some ==> spans_fit(*rw, bound(target(src, own))),
        *rw is Index,
    ensures
        final(out)@ == old(out)@ + index_body(*rw, target(src, own)),
    decreases rw, 0nat,
{
    match rw {
        Rewrite::Index(arr, idx) => {
            emit_rewrite(out, arr, 3, src, own);
            push_str(out, "[");
            emit_rewrite(out, idx, 0, src, own);
            push_str(out, "]");
        },
        _ => {},
    }
    assert(out@ =~= old(out)@ + index_body(*rw, target(src, own)));
}

fn emit_index(out: &mut Vec<u8>, rw: &Rewrite, prec: u8, src: Option<&[u8]>, own: Span)
    requires
        own_fits(target(src, own)),
        src is Some ==> spans_fit(*rw, bound(target(src, own))),
        *rw is Index,
    ensures
        final(out)@ == old(out)@ + render(*rw, prec as nat, target(src, own)),
    decreases rw, 1nat,
{
    if prec > 3 {
        push_str(out, "(");
    }
    emit_index_body(out, rw, src, own);
    if prec > 3 {
        push_str(out, ")");
    }
    assert(out@ =~= old(out)@ + in_parens(prec > 3, index_body(*rw, target(src, own))));
}

/// The text of a slicing expression before any parentheses around it.
spec fn slice_range_body(rw: Rewrite, t: Target) -> Seq<u8> {
    match rw {
        Rewrite::SliceRange(arr, lo, hi) => render(*arr, 3, t) + lit("[") + render_opt(lo, "", t)
            + lit("..") + render_opt(hi, "", t) + lit("]"),
        _ => Seq::empty(),
    }
}

fn emit_slice_range_body(out: &mut Vec<u8>, rw: &Rewrite, src: Option<&[u8]>, own: Span)
    requires
        own_fits(target(src, own)),
        src is Some ==> spans_fit(*rw, bound(target(src, own))),
        *rw is SliceRange,
    ensures
        final(out)@ == old(out)@ + slice_range_body(*rw, target(src, own)),
    decreases rw, 0nat,
{
    let ghost t = target(src, own);
    match rw {
        Rewrite::SliceRange(arr, lo, hi) => {
            emit_rewrite(out, arr, 3, src, own);
            push_str(out, "[");
            emit_opt(out, lo, "", src, own);
            let ghost mid = out@;
            assert(mid =~= old(out)@ + (render(**arr, 3, t) + lit("[") + render_opt(*lo, "", t)));
            push_str(out, "..");
            emit_opt(out, hi, "", src, own);
            push_str(out, "]");
            assert(out@ =~= mid + (lit("..") + render_opt(*hi, "", t) + lit("]")));
            assert(out@ =~= old(out)@ + slice_range_body(*rw, t));
        },
        _ => {},
    }
}

fn emit_slice_range(out: &mut Vec<u8>, rw: &Rewrite, prec: u8, src: Option<&[u8]>, own: Span)
    requires
        own_fits(target(src, own)),
        src is Some ==> spans_fit(*rw, bound(target(src, own))),
        *rw is SliceRange,
    ensures
        final(out)@ == old(out)@ + render(*rw, prec as nat, target(src, own)),
    decreases rw, 1nat,
{
    if prec > 3 {
        push_str(out, "(");
    }
    emit_slice_range_body(out, rw, src, own);
    if prec > 3 {
        push_str(out, ")");
    }
    assert(out@ =~= old(out)@ + in_parens(prec > 3, slice_range_body(*rw, target(src, own))));
}

fn emit_cast(out: &mut Vec<u8>, rw: &Rewrite, prec: u8, src: Option<&[u8]>, own: Span)
    requires
        own_fits(target(src, own)),
        src is Some ==> spans_fit(*rw, bound(target(src, own))),
        *rw is Cast,
    ensures
        final(out)@ == old(out)@ + render(*rw, prec as nat, target(src, own)),
    decreases rw, 0nat,
{
    match rw {
        Rewrite::Cast(inner, ty) => {
            if prec > 1 {
                push_str(out, "(");
            }
            emit_rewrite(out, inner, 1, src, own);
            push_str(out, " as ");
            push_str(out, ty.as_str());
            if prec > 1 {
                push_str(out, ")");
            }
        },
        _ => {},
    }
    assert(out@ =~= old(out)@ + render(*rw, prec as nat, target(src, own)));
}

fn emit_call(out: &mut Vec<u8>, rw: &Rewrite, prec: u8, src: Option<&[u8]>, own: Span)
    requires
        own_fits(target(src, own)),
        src is Some ==> spans_fit(*rw, bound(target(src, own))),
        *rw is Call,
    ensures
        final(out)@ == old(out)@ + render(*rw, prec as nat, target(src, own)),
    decreases rw, 0nat,
{
    match rw {
        Rewrite::Call(name, args) => {
            push_str(out, name.as_str());
            push_str(out, "(");
            emit_list(out, args, ListStyle::Comma, src, own);
            push_str(out, ")");
        },
        _ => {},
    }
    assert(out@ =~= old(out)@ + render(*rw, prec as nat, target(src, own)));
}

#[verifier::rlimit(50)]
fn emit_method_call(out: &mut Vec<u8>, rw: &Rewrite, prec: u8, src: Option<&[u8]>, own: Span)
    requires
        own_fits(target(src, own)),
        src is Some ==> spans_fit(*rw, bound(target(src, own))),
        *rw is MethodCall,
    ensures
        final(out)@ == old(out)@ + render(*rw, prec as nat, target(src, own)),
    decreases rw, 0nat,
{
    match rw {
        Rewrite::MethodCall(name, recv, args) => {
            emit_rewrite(out, recv, 3, src, own);
            push_str(out, ".");
            push_str(out, name.as_str());
            push_str(out, "(");
            emit_list(out, args, ListStyle::Comma, src, own);
            push_str(out, ")");
        },
        _ => {},
    }
    assert(out@ =~= old(out)@ + render(*rw, prec as nat, target(src, own)));
}

fn emit_block(out: &mut Vec<u8>, rw: &Rewrite, prec: u8, src: Option<&[u8]>, own: Span)
    requires
        own_fits(target(src, own)),
        src is Some ==> spans_fit(*rw, bound(target(src, own))),
        *rw is Block,
    ensures
        final(out)@ == old(out)@ + render(*rw, prec as nat, target(src, own)),
    decreases rw, 0nat,
{
    match rw {
        Rewrite::Block(stmts, tail) => {
            push_str(out, "{");
            emit_list(out, stmts, ListStyle::Stmts, src, own);
            emit_opt(out, tail, " ", src, own);
            push_str(out, " }");
        },
        _ => {},
    }
    assert(out@ =~= old(out)@ + render(*rw, prec as nat, target(src, own)));
}

fn emit_let(out: &mut Vec<u8>, rw: &Rewrite, prec: u8, src: Option<&[u8]>, own: Span)
    requires
        own_fits(target(src, own)),
        src is Some ==> spans_fit(*rw, bound(target(src, own))),
        *rw is Let,
    ensures
        final(out)@ == old(out)@ + render(*rw, prec as nat, target(src, own)),
    decreases rw, 0nat,
{
    match rw {
        Rewrite::Let(vars) => {
            push_str(out, "let (");
            emit_names(out, vars);
            push_str(out, ") = (");
            emit_values(out, vars, src, own);
            push_str(out, ")");
        },
        _ => {},
    }
    assert(out@ =~= old(out)@ + render(*rw, prec as nat, target(src, own)));
}

fn emit_ty_ptr(out: &mut Vec<u8>, rw: &Rewrite, prec: u8, src: Option<&[u8]>, own: Span)
    requires
        own_fits(target(src, own)),
        src is Some ==> spans_fit(*rw, bound(target(src, own))),
        *rw is TyPtr,
    ensures
        final(out)@ == old(out)@ + render(*rw, prec as nat, target(src, own)),
    decreases rw, 0nat,
{
    match rw {
        Rewrite::TyPtr(inner, m) => {
            emit_mut(out, *m, "*const ", "*mut ");
            emit_rewrite(out, inner, 0, src, own);
        },
        _ => {},
    }
    assert(out@ =~= old(out)@ + render(*rw, prec as nat, target(src, own)));
}

fn emit_ty_ref(out: &mut Vec<u8>, rw: &Rewrite, prec: u8, src: Option<&[u8]>, own: Span)
    requires
        own_fits(target(src, own)),
        src is Some ==> spans_fit(*rw, bound(target(src, own))),
        *rw is TyRef,
    ensures
        final(out)@ == old(out)@ + render(*rw, prec as nat, target(src, own)),
    decreases rw, 0nat,
{
    match rw {
        Rewrite::TyRef(lifetime, inner, m) => {
            push_str(out, "&");
            match lifetime {
                LifetimeName::Explicit(name) => {
                    push_str(out, "'");
                    push_str(out, name.as_str());
                    push_str(out, " ");
                    assert(out@ =~= old(out)@ + lit("&") + render_lifetime(*lifetime));
                },
                LifetimeName::Elided => {
                    assert(out@ =~= old(out)@ + lit("&") + render_lifetime(*lifetime));
                },
            }
            emit_mut(out, *m, "", "mut ");
            emit_rewrite(out, inner, 0, src, own);
        },
        _ => {},
    }
    assert(out@ =~= old(out)@ + render(*rw, prec as nat, target(src, own)));
}

fn emit_ty_slice(out: &mut Vec<u8>, rw: &Rewrite, prec: u8, src: Option<&[u8]>, own: Span)
    requires
        own_fits(target(src, own)),
        src is Some ==> spans_fit(*rw, bound(target(src, own))),
        *rw is TySlice,
    ensures
        final(out)@ == old(out)@ + render(*rw, prec as nat, target(src, own)),
    decreases rw, 0nat,
{
    match rw {
        Rewrite::TySlice(inner) => {
            push_str(out, "[");
            emit_rewrite(out, inner, 0, src, own);
            push_str(out, "]");
        },
        _ => {},
    }
    assert(out@ =~= old(out)@ + render(*rw, prec as nat, target(src, own)));
}

fn emit_ty_ctor(out: &mut Vec<u8>, rw: &Rewrite, prec: u8, src: Option<&[u8]>, own: Span)
    requires
        own_fits(target(src, own)),
        src is Some ==> spans_fit(*rw, bound(target(src, own))),
        *rw is TyCtor,
    ensures
        final(out)@ == old(out)@ + render(*rw, prec as nat, target(src, own)),
    decreases rw, 0nat,
{
    match rw {
        Rewrite::TyCtor(name, args) => {
            push_str(out, name.as_str());
            push_str(out, "<");
            emit_list(out, args, ListStyle::Comma, src, own);
            push_str(out, ">");
        },
        _ => {},
    }
    assert(out@ =~= old(out)@ + render(*rw, prec as nat, target(src, own)));
}

fn emit_ty_generic_params(out: &mut Vec<u8>, rw: &Rewrite, prec: u8, src: Option<&[u8]>, own: Span)
    requires
        own_fits(target(src, own)),
        src is Some ==> spans_fit(*rw, bound(target(src, own))),
        *rw is _TyGenericParams,
    ensures
        final(out)@ == old(out)@ + render(*rw, prec as nat, target(src, own)),
    decreases rw, 0nat,
{
    match rw {
        Rewrite::_TyGenericParams(args) => {
            push_str(out, "<");
            emit_list(out, args, ListStyle::Comma, src, own);
            push_str(out, ">");
        },
        _ => {},
    }
    assert(out@ =~= old(out)@ + render(*rw, prec as nat, target(src, own)));
}

fn emit_static_mut(out: &mut Vec<u8>, rw: &Rewrite, prec: u8, src: Option<&[u8]>, own: Span)
    requires
        own_fits(target(src, own)),
        src is Some ==> spans_fit(*rw, bound(target(src, own))),
        *rw is StaticMut,
    ensures
        final(out)@ == old(out)@ + render(*rw, prec as nat, target(src, own)),
    decreases rw, 0nat,
{
    match rw {
        Rewrite::StaticMut(m, span) => {
            emit_mut(out, *m, "static ", "static mut ");
            emit_span(out, *span, src, own);
        },
        _ => {},
    }
    assert(out@ =~= old(out)@ + render(*rw, prec as nat, target(src, own)));
}

#[verifier::rlimit(50)]
fn emit_define_fn(out: &mut Vec<u8>, rw: &Rewrite, prec: u8, src: Option<&[u8]>, own: Span)
    requires
        own_fits(target(src, own)),
        src is Some ==> spans_fit(*rw, bound(target(src, own))),
        *rw is DefineFn,
    ensures
        final(out)@ == old(out)@ + render(*rw, prec as nat, target(src, own)),
    decreases rw, 0nat,
{
    match rw {
        Rewrite::DefineFn { name, arg_tys, return_ty, body } => {
            push_str(out, "unsafe fn ");
            push_str(out, name.as_str());
            push_str(out, "(");
            emit_list(out, arg_tys, ListStyle::Params, src, own);
            push_str(out, ")");
            let ghost mid = out@;
            assert(mid =~= old(out)@ + (lit("unsafe fn ") + encode_utf8(name@) + lit("(") + render_list(
                *arg_tys,
                arg_tys@.len(),
                ListStyle::Params,
                target(src, own),
            ) + lit(")")));
            emit_opt(out, return_ty, " -> ", src, own);
            push_str(out, " { ");
            emit_rewrite(out, body, 0, src, own);
            push_str(out, " }");
            assert(out@ =~= mid + (render_opt(*return_ty, " -> ", target(src, own)) + lit(" { ") + render(
                **body,
                0,
                target(src, own),
            ) + lit(" }")));
        },
        _ => {},
    }
    assert(out@ =~= old(out)@ + render(*rw, prec as nat, target(src, own)));
}

fn emit_fn_arg(out: &mut Vec<u8>, rw: &Rewrite, prec: u8, src: Option<&[u8]>, own: Span)
    requires
        own_fits(target(src, own)),
        src is Some ==> spans_fit(*rw, bound(target(src, own))),
        *rw is FnArg,
    ensures
        final(out)@ == old(out)@ + render(*rw, prec as nat, target(src, own)),
    decreases rw, 0nat,
{
    match rw {
        Rewrite::FnArg(idx) => {
            push_str(out, "arg");
            emit_decimal(out, *idx);
        },
        _ => {},
    }
    assert(out@ =~= old(out)@ + render(*rw, prec as nat, target(src, own)));
}

/// Appends to `out` the replacement text that `rw` describes, as an operand
/// at precedence level `prec`. With a source text, references to the original
/// are copied from it (`own` being the span that `rw` replaces); without one
/// they are shown as markers.
pub fn emit_rewrite(out: &mut Vec<u8>, rw: &Rewrite, prec: u8, src: Option<&[u8]>, own: Span)
    requires
        own_fits(target(src, own)),
        src is Some ==> spans_fit(*rw, bound(target(src, own))),
    ensures
        final(out)@ == old(out)@ + render(*rw, prec as nat, target(src, own)),
    decreases rw, 2nat,
{
    match rw {
        Rewrite::Identity => emit_identity(out, rw, prec, src, own),
        Rewrite::Sub(..) => emit_sub(out, rw, prec, src, own),
        Rewrite::Text(s) => push_str(out, s.as_str()),
        Rewrite::Extract(span) => emit_span(out, *span, src, own),
        Rewrite::Ref(..) => emit_ref(out, rw, prec, src, own),
        Rewrite::AddrOf(..) => emit_addr_of(out, rw, prec, src, own),
        Rewrite::Deref(..) => emit_deref(out, rw, prec, src, own),
        Rewrite::Index(..) => emit_index(out, rw, prec, src, own),
        Rewrite::SliceRange(..) => emit_slice_range(out, rw, prec, src, own),
        Rewrite::Cast(..) => emit_cast(out, rw, prec, src, own),
        Rewrite::RemovedCast(inner) => emit_rewrite(out, inner, prec, src, own),
        Rewrite::LitZero => push_str(out, "0"),
        Rewrite::Call(..) => emit_call(out, rw, prec, src, own),
        Rewrite::MethodCall(..) => emit_method_call(out, rw, prec, src, own),
        Rewrite::Block(..) => emit_block(out, rw, prec, src, own),
        Rewrite::Let(..) => emit_let(out, rw, prec, src, own),
        Rewrite::Print(s) => push_str(out, s.as_str()),
        Rewrite::TyPtr(..) => emit_ty_ptr(out, rw, prec, src, own),
        Rewrite::TyRef(..) => emit_ty_ref(out, rw, prec, src, own),
        Rewrite::TySlice(..) => emit_ty_slice(out, rw, prec, src, own),
        Rewrite::TyCtor(..) => emit_ty_ctor(out, rw, prec, src, own),
        Rewrite::_TyGenericParams(..) => emit_ty_generic_params(out, rw, prec, src, own),
        Rewrite::StaticMut(..) => emit_static_mut(out, rw, prec, src, own),
        Rewrite::DefineFn { .. } => emit_define_fn(out, rw, prec, src, own),
        Rewrite::FnArg(..) => emit_fn_arg(out, rw, prec, src, own),
    }
}

/// Why a set of rewrites cannot be applied to a file.
#[derive(Clone, Copy, PartialEq, Eq, Debug, Structural)]
pub enum ApplyError {
    /// The entry at this index names a span that does not lie in the file's text.
    SpanOutOfBounds(usize),
    /// The entries at these two indices collide: their spans share a byte, or
    /// start at the same offset. The second also holds of an empty span at the
    /// start of another span: which of the two texts came first would depend
    /// on the order of the entries, so such a pair is refused as well.
    Overlap(usize, usize),
}

/// Two spans of one file collide when they start at the same offset or share
/// a byte. An empty span collides with a span that it lies strictly inside
/// or at whose start it lies, not with one that ends where it lies.
pub open spec fn collide(a: Span, b: Span) -> bool {
    a.file == b.file && (a.lo == b.lo || (a.lo < b.hi && b.lo < a.hi))
}

/// Entry `i`, if it belongs to `file`, names only spans within `len` bytes.
pub open spec fn entry_ok(rws: Seq<(Span, Rewrite)>, file: u32, len: nat, i: int) -> bool {
    rws[i].0.file == file ==> rws[i].0.fits(len) && spans_fit(rws[i].1, Some(len))
}

pub open spec fn entries_ok(rws: Seq<(Span, Rewrite)>, file: u32, len: nat, n: int) -> bool {
    forall|i: int| 0 <= i < n ==> entry_ok(rws, file, len, i)
}

/// Entries `i` and `j` are not two colliding entries of `file`.
pub open spec fn pair_ok(rws: Seq<(Span, Rewrite)>, file: u32, i: int, j: int) -> bool {
    !(rws[i].0.file == file && collide(rws[i].0, rws[j].0))
}

/// No two entries of `file` collide.
pub open spec fn disjoint(rws: Seq<(Span, Rewrite)>, file: u32) -> bool {
    forall|i: int, j: int| 0 <= i < j < rws.len() ==> pair_ok(rws, file, i, j)
}

/// The entries for `file` can be spliced into a text of `len` bytes.
pub open spec fn consistent(rws: Seq<(Span, Rewrite)>, file: u32, len: nat) -> bool {
    entries_ok(rws, file, len, rws.len() as int) && disjoint(rws, file)
}

/// Entry `k` belongs to `file` and starts at offset `p`.
pub open spec fn starts_at(rws: Seq<(Span, Rewrite)>, file: u32, p: int, k: int) -> bool {
    0 <= k < rws.len() && rws[k].0.file == file && rws[k].0.lo == p
}

/// An entry of `file` that starts at offset `p`, if there is one.
pub open spec fn entry_at(rws: Seq<(Span, Rewrite)>, file: u32, p: int) -> Option<int> {
    if exists|k: int| starts_at(rws, file, p, k) {
        Some(choose|k: int| starts_at(rws, file, p, k))
    } else {
        None
    }
}

/// The new text from offset `p` on, after whatever entry starts at `p` itself.
pub open spec fn rest_from(src: Seq<u8>, rws: Seq<(Span, Rewrite)>, file: u32, p: int) -> Seq<u8>
    decreases src.len() - p, 0nat,
{
    if 0 <= p < src.len() {
        seq![src[p]] + splice_from(src, rws, file, p + 1)
    } else {
        Seq::empty()
    }
}

/// The new text from offset `p` of the original on: the text of each entry in
/// place of its span, and every other byte as it was.
pub open spec fn splice_from(src: Seq<u8>, rws: Seq<(Span, Rewrite)>, file: u32, p: int) -> Seq<u8>
    decreases src.len() - p, 1nat,
{
    if p < 0 || p > src.len() {
        Seq::empty()
    } else {
        match entry_at(rws, file, p) {
            Some(k) => {
                let span = rws[k].0;
                let text = render(rws[k].1, 0, Target::Splice(src, span));
                if p < span.hi <= src.len() {
                    text + splice_from(src, rws, file, span.hi as int)
                } else {
                    text + rest_from(src, rws, file, p)
                }
            },
            None => rest_from(src, rws, file, p),
        }
    }
}

/// The new text of `file`.
pub open spec fn splice(src: Seq<u8>, rws: Seq<(Span, Rewrite)>, file: u32) -> Seq<u8> {
    splice_from(src, rws, file, 0)
}

/// No entry of `file` starts strictly between `a` and `b`.
pub open spec fn none_between(rws: Seq<(Span, Rewrite)>, file: u32, a: int, b: int) -> bool {
    forall|k: int| 0 <= k < rws.len() && rws[k].0.file == file ==> !(a < #[trigger] rws[k].0.lo < b)
}

proof fn lemma_skip(src: Seq<u8>, rws: Seq<(Span, Rewrite)>, file: u32, a: int, b: int)
    requires
        0 <= a < b <= src.len(),
        none_between(rws, file, a, b),
    ensures
        rest_from(src, rws, file, a) == src.subrange(a, b) + splice_from(src, rws, file, b),
    decreases b - a,
{
    if a + 1 == b {
        assert(src.subrange(a, b) =~= seq![src[a]]);
    } else {
        let p = a + 1;
        assert(entry_at(rws, file, p) is None) by {
            if exists|k: int| starts_at(rws, file, p, k) {
                let k = choose|k: int| starts_at(rws, file, p, k);
                assert(a < rws[k].0.lo < b);
            }
        }
        lemma_skip(src, rws, file, p, b);
        assert(seq![src[a]] + (src.subrange(a + 1, b) + splice_from(src, rws, file, b))
            =~= src.subrange(a, b) + splice_from(src, rws, file, b));
    }
}

proof fn lemma_skip_to_end(src: Seq<u8>, rws: Seq<(Span, Rewrite)>, file: u32, a: int)
    requires
        0 <= a <= src.len(),
        none_between(rws, file, a, src.len() as int + 1),
    ensures
        rest_from(src, rws, file, a) == src.subrange(a, src.len() as int),
{
    let n = src.len() as int;
    if a < n {
        lemma_skip(src, rws, file, a, n);
        assert(entry_at(rws, file, n) is None) by {
            if exists|k: int| starts_at(rws, file, n, k) {
                let k = choose|k: int| starts_at(rws, file, n, k);
                assert(a < rws[k].0.lo < n + 1);
            }
        }
        assert(rest_from(src, rws, file, n) =~= Seq::<u8>::empty());
        assert(splice_from(src, rws, file, n) == rest_from(src, rws, file, n));
        assert(src.subrange(a, n) + Seq::<u8>::empty() =~= src.subrange(a, n));
    } else {
        assert(src.subrange(a, n) =~= Seq::<u8>::empty());
    }
}

/// Among disjoint entries, the entry that starts at an offset is the only one.
proof fn lemma_entry_unique(rws: Seq<(Span, Rewrite)>, file: u32, k: int)
    requires
        disjoint(rws, file),
        0 <= k < rws.len(),
        rws[k].0.file == file,
    ensures
        entry_at(rws, file, rws[k].0.lo as int) == Some(k),
{
    let p = rws[k].0.lo as int;
    assert(starts_at(rws, file, p, k));
    let c = choose|c: int| starts_at(rws, file, p, c);
    if c < k {
        assert(pair_ok(rws, file, c, k));
    } else if k < c {
        assert(pair_ok(rws, file, k, c));
    }
}

/// The first entry that names a span outside a text of `len` bytes, if any.
fn find_bad_entry(len: usize, file: u32, rewrites: &Vec<(Span, Rewrite)>) -> (r: Option<usize>)
    ensures
        r is None ==> entries_ok(rewrites@, file, len as nat, rewrites@.len() as int),
        r matches Some(i) ==> i < rewrites@.len() && !entry_ok(rewrites@, file, len as nat, i as int)
            && entries_ok(rewrites@, file, len as nat, i as int),
{
    let mut i: usize = 0;
    while i < rewrites.len()
        invariant
            i <= rewrites@.len(),
            entries_ok(rewrites@, file, len as nat, i as int),
        decreases rewrites@.len() - i,
    {
        if rewrites[i].0.file == file {
            if !rewrites[i].0.check_fits(len) || !check_spans(&rewrites[i].1, len) {
                return Some(i);
            }
        }
        i = i + 1;
    }
    None
}

fn spans_collide(a: &Span, b: &Span) -> (r: bool)
    ensures
        r == collide(*a, *b),
{
    a.file == b.file && (a.lo == b.lo || (a.lo < b.hi && b.lo < a.hi))
}

/// No colliding pair of entries of `file` comes before the pair `(i, j)`.
pub open spec fn pairs_ok_before(rws: Seq<(Span, Rewrite)>, file: u32, i: int, j: int) -> bool {
    forall|a: int, b: int|
        0 <= a < b < rws.len() && (a < i || (a == i && b < j)) ==> pair_ok(rws, file, a, b)
}

/// The first pair of colliding entries of `file`, if any.
fn find_collision(file: u32, rewrites: &Vec<(Span, Rewrite)>) -> (r: Option<(usize, usize)>)
    ensures
        r is None ==> disjoint(rewrites@, file),
        r matches Some((i, j)) ==> i < j < rewrites@.len() && !pair_ok(rewrites@, file, i as int, j as int)
            && pairs_ok_before(rewrites@, file, i as int, j as int),
{
    let n = rewrites.len();
    let mut i: usize = 0;
    while i < n
        invariant
            n == rewrites@.len(),
            i <= n,
            pairs_ok_before(rewrites@, file, i as int, 0),
        decreases n - i,
    {
        if rewrites[i].0.file == file {
            let mut j: usize = i + 1;
            while j < n
                invariant
                    n == rewrites@.len(),
                    i < j <= n,
                    rewrites@[i as int].0.file == file,
                    pairs_ok_before(rewrites@, file, i as int, j as int),
                decreases n - j,
            {
                if spans_collide(&rewrites[i].0, &rewrites[j].0) {
                    return Some((i, j));
                }
                j = j + 1;
            }
        }
        i = i + 1;
    }
    None
}

/// Entry `k` belongs to `file` and starts at or after `pos` (after it, if `strict`).
pub open spec fn candidate(rws: Seq<(Span, Rewrite)>, file: u32, pos: int, strict: bool, k: int) -> bool {
    rws[k].0.file == file && (rws[k].0.lo > pos || (rws[k].0.lo == pos && !strict))
}

/// The candidate entry that starts first, if there is any candidate.
fn next_entry(file: u32, rewrites: &Vec<(Span, Rewrite)>, pos: usize, strict: bool) -> (r: Option<usize>)
    ensures
        r is None ==> forall|k: int|
            0 <= k < rewrites@.len() ==> !candidate(rewrites@, file, pos as int, strict, k),
        r matches Some(b) ==> b < rewrites@.len() && candidate(rewrites@, file, pos as int, strict, b as int)
            && forall|k: int|
            0 <= k < rewrites@.len() && candidate(rewrites@, file, pos as int, strict, k)
                ==> rewrites@[b as int].0.lo <= rewrites@[k].0.lo,
{
    let mut best: Option<usize> = None;
    let mut k: usize = 0;
    while k < rewrites.len()
        invariant
            k <= rewrites@.len(),
            best is None ==> forall|j: int|
                0 <= j < k ==> !candidate(rewrites@, file, pos as int, strict, j),
            best matches Some(b) ==> b < k && candidate(rewrites@, file, pos as int, strict, b as int)
                && forall|j: int|
                0 <= j < k && candidate(rewrites@, file, pos as int, strict, j)
                    ==> rewrites@[b as int].0.lo <= rewrites@[j].0.lo,
        decreases rewrites@.len() - k,
    {
        let span = rewrites[k].0;
        if span.file == file && (span.lo > pos || (span.lo == pos && !strict)) {
            let better = match best {
                Some(b) => span.lo < rewrites[b].0.lo,
                None => true,
            };
            if better {
                best = Some(k);
            }
        }
        k = k + 1;
    }
    best
}

/// What is still to be emitted at offset `pos`.
pub open spec fn pending(src: Seq<u8>, rws: Seq<(Span, Rewrite)>, file: u32, pos: int, strict: bool) -> Seq<u8> {
    if strict {
        rest_from(src, rws, file, pos)
    } else {
        splice_from(src, rws, file, pos)
    }
}

/// Applies the rewrites for `file` to its original text `src` in one pass:
/// the text before each span is copied, the span is replaced by the rendered
/// text of its node, and the text after the last span is copied. Nothing is
/// emitted unless every span of the file lies in the text and no two collide.
pub fn apply_to_file(src: &[u8], file: u32, rewrites: &Vec<(Span, Rewrite)>) -> (r: Result<Vec<u8>, ApplyError>)
    ensures
        r is Ok <==> consistent(rewrites@, file, src@.len()),
        r matches Ok(out) ==> out@ == splice(src@, rewrites@, file),
        r matches Err(ApplyError::SpanOutOfBounds(i)) ==> i < rewrites@.len() && !entry_ok(
            rewrites@,
            file,
            src@.len(),
            i as int,
        ) && entries_ok(rewrites@, file, src@.len(), i as int),
        r matches Err(ApplyError::Overlap(i, j)) ==> entries_ok(
            rewrites@,
            file,
            src@.len(),
            rewrites@.len() as int,
        ) && i < j < rewrites@.len() && !pair_ok(rewrites@, file, i as int, j as int) && pairs_ok_before(
            rewrites@,
            file,
            i as int,
            j as int,
        ),
{
    let len = src.len();
    if let Some(i) = find_bad_entry(len, file, rewrites) {
        return Err(ApplyError::SpanOutOfBounds(i));
    }
    if let Some((i, j)) = find_collision(file, rewrites) {
        return Err(ApplyError::Overlap(i, j));
    }
    let ghost total = splice(src@, rewrites@, file);
    let mut out: Vec<u8> = Vec::new();
    let mut pos: usize = 0;
    let mut strict = false;
    assert(out@ + pending(src@, rewrites@, file, 0, false) =~= total);
    loop
        invariant_except_break
            out@ + pending(src@, rewrites@, file, pos as int, strict) == total,
        invariant
            len == src@.len(),
            pos <= len,
            consistent(rewrites@, file, len as nat),
        ensures
            out@ == total,
        decreases len - pos, if strict { 0nat } else { 1nat },
    {
        let ghost before = out@;
        match next_entry(file, rewrites, pos, strict) {
            None => {
                proof {
                    assert(none_between(rewrites@, file, pos as int, len + 1)) by {
                        assert forall|k: int| 0 <= k < rewrites@.len() && rewrites@[k].0.file == file implies !(
                        pos < #[trigger] rewrites@[k].0.lo < len + 1) by {
                            assert(!candidate(rewrites@, file, pos as int, strict, k));
                        }
                    }
                    lemma_skip_to_end(src@, rewrites@, file, pos as int);
                    if !strict {
                        assert(entry_at(rewrites@, file, pos as int) is None) by {
                            if exists|k: int| starts_at(rewrites@, file, pos as int, k) {
                                let k = choose|k: int| starts_at(rewrites@, file, pos as int, k);
                                assert(candidate(rewrites@, file, pos as int, strict, k));
                            }
                        }
                    }
                }
                push_range(&mut out, src, pos, len);
                break ;
            },
            Some(k) => {
                let span = rewrites[k].0;
                proof {
                    assert(entry_ok(rewrites@, file, len as nat, k as int));
                    lemma_entry_unique(rewrites@, file, k as int);
                    if span.lo > pos {
                        assert(none_between(rewrites@, file, pos as int, span.lo as int)) by {
                            assert forall|j: int| 0 <= j < rewrites@.len() && rewrites@[j].0.file == file implies !(
                            pos < #[trigger] rewrites@[j].0.lo < span.lo) by {
                                if pos < rewrites@[j].0.lo {
                                    assert(candidate(rewrites@, file, pos as int, strict, j));
                                }
                            }
                        }
                        lemma_skip(src@, rewrites@, file, pos as int, span.lo as int);
                        if !strict {
                            assert(entry_at(rewrites@, file, pos as int) is None) by {
                                if exists|j: int| starts_at(rewrites@, file, pos as int, j) {
                                    let j = choose|j: int| starts_at(rewrites@, file, pos as int, j);
                                    assert(candidate(rewrites@, file, pos as int, strict, j));
                                }
                            }
                        }
                    }
                }
                push_range(&mut out, src, pos, span.lo);
                let ghost mid = out@;
                assert(mid + splice_from(src@, rewrites@, file, span.lo as int) =~= total) by {
                    if span.lo == pos {
                        assert(src@.subrange(pos as int, pos as int) =~= Seq::<u8>::empty());
                        assert(mid =~= before);
                    } else {
                        assert(mid + splice_from(src@, rewrites@, file, span.lo as int) =~= before + (
                        src@.subrange(pos as int, span.lo as int) + splice_from(
                            src@,
                            rewrites@,
                            file,
                            span.lo as int,
                        )));
                    }
                }
                emit_rewrite(&mut out, &rewrites[k].1, 0, Some(src), span);
                let ghost text = render(rewrites@[k as int].1, 0, Target::Splice(src@, span));
                if span.hi > span.lo {
                    assert(out@ + splice_from(src@, rewrites@, file, span.hi as int) =~= mid + (text
                        + splice_from(src@, rewrites@, file, span.hi as int)));
                    pos = span.hi;
                    strict = false;
                } else {
                    assert(out@ + rest_from(src@, rewrites@, file, span.lo as int) =~= mid + (text
                        + rest_from(src@, rewrites@, file, span.lo as int)));
                    pos = span.lo;
                    strict = true;
                }
            },
        }
    }
    Ok(out)
}

/// The original text of one file, under the number that spans name it by.
pub struct SourceFile {
    pub id: u32,
    pub text: Vec<u8>,
}

/// The rewrites can be applied to source `k`.
pub open spec fn source_ok(sources: Seq<SourceFile>, rws: Seq<(Span, Rewrite)>, k: int) -> bool {
    consistent(rws, sources[k].id, sources[k].text@.len())
}

/// Why a set of rewrites cannot be applied to a set of sources.
#[derive(Clone, Copy, PartialEq, Eq, Debug, Structural)]
pub enum OutputError {
    /// The entry at this index names a file that is not among the sources.
    UnknownFile(usize),
    /// The entries for the source at this index cannot be applied, for the
    /// reason given.
    Source(usize, ApplyError),
}

/// One of the sources has the number `file`.
pub open spec fn known(sources: Seq<SourceFile>, file: u32) -> bool {
    exists|k: int| 0 <= k < sources.len() && (#[trigger] sources[k]).id == file
}

/// Each of the first `n` entries names a file that is among the sources.
pub open spec fn all_known(sources: Seq<SourceFile>, rws: Seq<(Span, Rewrite)>, n: int) -> bool {
    forall|i: int| 0 <= i < n ==> known(sources, (#[trigger] rws[i]).0.file)
}

/// All sources up to `n` can take their entries.
pub open spec fn sources_ok(sources: Seq<SourceFile>, rws: Seq<(Span, Rewrite)>, n: int) -> bool {
    forall|k: int| 0 <= k < n ==> source_ok(sources, rws, k)
}

/// What is wrong with the entries of source `k`, as `e` says it.
pub open spec fn explains(sources: Seq<SourceFile>, rws: Seq<(Span, Rewrite)>, k: int, e: ApplyError) -> bool {
    match e {
        ApplyError::SpanOutOfBounds(i) => i < rws.len() && !entry_ok(
            rws,
            sources[k].id,
            sources[k].text@.len(),
            i as int,
        ) && entries_ok(rws, sources[k].id, sources[k].text@.len(), i as int),
        ApplyError::Overlap(i, j) => i < j < rws.len() && !pair_ok(rws, sources[k].id, i as int, j as int)
            && pairs_ok_before(rws, sources[k].id, i as int, j as int),
    }
}

fn is_known(sources: &Vec<SourceFile>, file: u32) -> (r: bool)
    ensures
        r == known(sources@, file),
{
    let mut k: usize = 0;
    while k < sources.len()
        invariant
            k <= sources@.len(),
            forall|j: int| 0 <= j < k ==> (#[trigger] sources@[j]).id != file,
        decreases sources@.len() - k,
    {
        if sources[k].id == file {
            return true;
        }
        k = k + 1;
    }
    false
}

/// The first entry that names a file that is not among the sources, if any.
fn find_unknown(sources: &Vec<SourceFile>, rewrites: &Vec<(Span, Rewrite)>) -> (r: Option<usize>)
    ensures
        r is None ==> all_known(sources@, rewrites@, rewrites@.len() as int),
        r matches Some(i) ==> i < rewrites@.len() && !known(sources@, rewrites@[i as int].0.file) && all_known(
            sources@,
            rewrites@,
            i as int,
        ),
{
    let mut i: usize = 0;
    while i < rewrites.len()
        invariant
            i <= rewrites@.len(),
            all_known(sources@, rewrites@, i as int),
        decreases rewrites@.len() - i,
    {
        if !is_known(sources, rewrites[i].0.file) {
            return Some(i);
        }
        i = i + 1;
    }
    None
}

/// Applies all rewrites to all files in one pass over each: the result holds
/// the new text of every source, in the order of `sources`. Nothing is
/// returned but an error where an entry names a file that is not among the
/// sources (the first such entry is reported), or else where the entries of
/// some source cannot be applied (the first such source is reported, with
/// what is wrong with its entries).
pub fn apply_rewrites(sources: &Vec<SourceFile>, rewrites: &Vec<(Span, Rewrite)>) -> (r: Result<
    Vec<Vec<u8>>,
    OutputError,
>)
    ensures
        r is Ok <==> all_known(sources@, rewrites@, rewrites@.len() as int) && sources_ok(
            sources@,
            rewrites@,
            sources@.len() as int,
        ),
        r matches Ok(outs) ==> outs@.len() == sources@.len() && forall|k: int|
            0 <= k < sources@.len() ==> (#[trigger] outs@[k])@ == splice(
                sources@[k].text@,
                rewrites@,
                sources@[k].id,
            ),
        r matches Err(OutputError::UnknownFile(i)) ==> i < rewrites@.len() && !known(
            sources@,
            rewrites@[i as int].0.file,
        ) && all_known(sources@, rewrites@, i as int),
        r matches Err(OutputError::Source(k, e)) ==> all_known(sources@, rewrites@, rewrites@.len() as int)
            && k < sources@.len() && !source_ok(sources@, rewrites@, k as int) && sources_ok(
            sources@,
            rewrites@,
            k as int,
        ) && explains(sources@, rewrites@, k as int, e),
{
    if let Some(i) = find_unknown(sources, rewrites) {
        assert(!all_known(sources@, rewrites@, rewrites@.len() as int)) by {
            assert(!known(sources@, rewrites@[i as int].0.file));
        }
        return Err(OutputError::UnknownFile(i));
    }
    let mut outs: Vec<Vec<u8>> = Vec::new();
    let mut k: usize = 0;
    while k < sources.len()
        invariant
            k <= sources@.len(),
            outs@.len() == k,
            all_known(sources@, rewrites@, rewrites@.len() as int),
            sources_ok(sources@, rewrites@, k as int),
            forall|j: int|
                0 <= j < k ==> (#[trigger] outs@[j])@ == splice(sources@[j].text@, rewrites@, sources@[j].id),
        decreases sources@.len() - k,
    {
        match apply_to_file(sources[k].text.as_slice(), sources[k].id, rewrites) {
            Ok(text) => {
                outs.push(text);
            },
            Err(e) => {
                assert(!source_ok(sources@, rewrites@, k as int));
                return Err(OutputError::Source(k, e));
            },
        }
        k = k + 1;
    }
    Ok(outs)
}

/// No two of the rewrites collide.
pub open spec fn no_collisions(rws: Seq<(Span, Rewrite)>) -> bool {
    forall|a: int, b: int| 0 <= a < b < rws.len() ==> !collide((#[trigger] rws[a]).0, (#[trigger] rws[b]).0)
}

/// No pair of entries before the pair `(i, j)` collides.
pub open spec fn no_collisions_before(rws: Seq<(Span, Rewrite)>, i: int, j: int) -> bool {
    forall|a: int, b: int|
        0 <= a < b < rws.len() && (a < i || (a == i && b < j)) ==> !collide(
            (#[trigger] rws[a]).0,
            (#[trigger] rws[b]).0,
        )
}

/// The first two entries that collide, in whatever file, if there are such.
pub fn find_overlap(rws: &Vec<(Span, Rewrite)>) -> (r: Option<(usize, usize)>)
    ensures
        r is None <==> no_collisions(rws@),
        r matches Some((i, j)) ==> i < j < rws@.len() && collide(rws@[i as int].0, rws@[j as int].0)
            && no_collisions_before(rws@, i as int, j as int),
{
    let n = rws.len();
    let mut i: usize = 0;
    while i < n
        invariant
            n == rws@.len(),
            i <= n,
            no_collisions_before(rws@, i as int, 0),
        decreases n - i,
    {
        let mut j: usize = i + 1;
        while j < n
            invariant
                n == rws@.len(),
                i < j <= n,
                no_collisions_before(rws@, i as int, j as int),
            decreases n - j,
        {
            if spans_collide(&rws[i].0, &rws[j].0) {
                return Some((i, j));
            }
            j = j + 1;
        }
        i = i + 1;
    }
    None
}

/// Rewrites of which no two collide have, for every file, entries of which
/// no two collide.
pub proof fn lemma_no_collisions_disjoint(rws: Seq<(Span, Rewrite)>, file: u32)
    requires
        no_collisions(rws),
    ensures
        disjoint(rws, file),
{
    assert forall|i: int, j: int| 0 <= i < j < rws.len() implies pair_ok(rws, file, i, j) by {
        assert(!collide(rws[i].0, rws[j].0));
    }
}

/// A file that no entry names comes out byte for byte as it was.
pub proof fn lemma_untouched_file_unchanged(src: Seq<u8>, rws: Seq<(Span, Rewrite)>, file: u32)
    requires
        forall|k: int| 0 <= k < rws.len() ==> rws[k].0.file != file,
    ensures
        consistent(rws, file, src.len()),
        splice(src, rws, file) == src,
{
    lemma_skip_to_end(src, rws, file, 0);
    assert(entry_at(rws, file, 0) is None);
    assert(src.subrange(0, src.len() as int) =~= src);
}

/// Applying no rewrites at all to a file yields the file.
pub proof fn lemma_empty_output_round_trip(src: Seq<u8>, file: u32)
    ensures
        consistent(Seq::<(Span, Rewrite)>::empty(), file, src.len()),
        splice(src, Seq::<(Span, Rewrite)>::empty(), file) == src,
{
    lemma_untouched_file_unchanged(src, Seq::<(Span, Rewrite)>::empty(), file);
}

/// A span mapped to the node that keeps the original expression changes
/// nothing: the file comes out byte for byte as it was.
pub proof fn lemma_identity_changes_nothing(src: Seq<u8>, span: Span)
    requires
        span.fits(src.len()),
    ensures
        consistent(seq![(span, Rewrite::Identity)], span.file, src.len()),
        splice(src, seq![(span, Rewrite::Identity)], span.file) == src,
{
    let rws = seq![(span, Rewrite::Identity)];
    let file = span.file;
    let lo = span.lo as int;
    let hi = span.hi as int;
    let n = src.len() as int;
    assert(rws.len() == 1 && rws[0] == (span, Rewrite::Identity));
    lemma_entry_unique(rws, file, 0);
    let text = render(Rewrite::Identity, 0, Target::Splice(src, span));
    assert(text == src.subrange(lo, hi));
    // what follows the span
    let after = if hi > lo {
        splice_from(src, rws, file, hi)
    } else {
        rest_from(src, rws, file, lo)
    };
    assert(after == src.subrange(hi, n)) by {
        lemma_skip_to_end(src, rws, file, hi);
        if hi > lo {
            assert(entry_at(rws, file, hi) is None) by {
                if exists|k: int| starts_at(rws, file, hi, k) {
                    let k = choose|k: int| starts_at(rws, file, hi, k);
                    assert(k == 0);
                }
            }
        }
    }
    assert(splice_from(src, rws, file, lo) == text + after);
    if lo > 0 {
        assert(entry_at(rws, file, 0) is None) by {
            if exists|k: int| starts_at(rws, file, 0, k) {
                let k = choose|k: int| starts_at(rws, file, 0, k);
                assert(k == 0);
            }
        }
        lemma_skip(src, rws, file, 0, lo);
        assert(src.subrange(0, lo) + (src.subrange(lo, hi) + src.subrange(hi, n)) =~= src);
    } else {
        assert(src.subrange(lo, hi) + src.subrange(hi, n) =~= src);
    }
}

} // verus!
