//! Bindings introduced by a `let` in a block are not hygienic: they can
//! capture a name in the original text that a later statement of the block
//! copies in. Blocks are therefore built through [`block`], which refuses a
//! statement that refers to the original text after a `let`.

use crate::rewrite::Rewrite;
use vstd::prelude::*;

verus! {

pub open spec fn opt_mentions(o: Option<Box<Rewrite>>) -> bool
    decreases o, 0nat,
{
    match o {
        Some(rw) => mentions_original(*rw),
        None => false,
    }
}

pub open spec fn list_mentions(items: Vec<Rewrite>, n: nat) -> bool
    decreases items, n,
{
    if n == 0 || n > items@.len() {
        false
    } else {
        list_mentions(items, (n - 1) as nat) || mentions_original(items@[n - 1])
    }
}

pub open spec fn values_mention(vars: Vec<(String, Rewrite)>, n: nat) -> bool
    decreases vars, n,
{
    if n == 0 || n > vars@.len() {
        false
    } else {
        values_mention(vars, (n - 1) as nat) || mentions_original(vars@[n - 1].1)
    }
}

/// The node copies in original text of the expression or of one of its
/// operands, somewhere inside it.
pub open spec fn mentions_original(rw: Rewrite) -> bool
    decreases rw, 0nat,
{
    match rw {
        Rewrite::Identity => true,
        Rewrite::Sub(_, _) => true,
        Rewrite::Text(_) => false,
        Rewrite::Extract(_) => false,
        Rewrite::Ref(inner, _) => mentions_original(*inner),
        Rewrite::AddrOf(inner, _) => mentions_original(*inner),
        Rewrite::Deref(inner) => mentions_original(*inner),
        Rewrite::Index(arr, idx) => mentions_original(*arr) || mentions_original(*idx),
        Rewrite::SliceRange(arr, lo, hi) => mentions_original(*arr) || opt_mentions(lo) || opt_mentions(hi),
        Rewrite::Cast(inner, _) => mentions_original(*inner),
        Rewrite::RemovedCast(inner) => mentions_original(*inner),
        Rewrite::LitZero => false,
        Rewrite::Call(_, args) => list_mentions(args, args@.len()),
        Rewrite::MethodCall(_, recv, args) => mentions_original(*recv) || list_mentions(args, args@.len()),
        Rewrite::Block(stmts, tail) => list_mentions(stmts, stmts@.len()) || opt_mentions(tail),
        Rewrite::Let(vars) => values_mention(vars, vars@.len()),
        Rewrite::Print(_) => false,
        Rewrite::TyPtr(inner, _) => mentions_original(*inner),
        Rewrite::TyRef(_, inner, _) => mentions_original(*inner),
        Rewrite::TySlice(inner) => mentions_original(*inner),
        Rewrite::TyCtor(_, args) => list_mentions(args, args@.len()),
        Rewrite::_TyGenericParams(args) => list_mentions(args, args@.len()),
        Rewrite::StaticMut(_, _) => false,
        Rewrite::DefineFn { name, arg_tys, return_ty, body } => list_mentions(arg_tys, arg_tys@.len())
            || opt_mentions(return_ty) || mentions_original(*body),
        Rewrite::FnArg(_) => false,
    }
}

proof fn lemma_list_mentions_grows(items: Vec<Rewrite>, n: nat, m: nat)
    requires
        n <= m <= items@.len(),
        list_mentions(items, n),
    ensures
        list_mentions(items, m),
    decreases m,
{
    if n < m {
        lemma_list_mentions_grows(items, n, (m - 1) as nat);
    }
}

proof fn lemma_values_mention_grows(vars: Vec<(String, Rewrite)>, n: nat, m: nat)
    requires
        n <= m <= vars@.len(),
        values_mention(vars, n),
    ensures
        values_mention(vars, m),
    decreases m,
{
    if n < m {
        lemma_values_mention_grows(vars, n, (m - 1) as nat);
    }
}

fn opt_refers(o: &Option<Box<Rewrite>>) -> (b: bool)
    ensures
        b == opt_mentions(*o),
    decreases o,
{
    match o {
        Some(rw) => refers_to_original(rw),
        None => false,
    }
}

fn list_refers(items: &Vec<Rewrite>) -> (b: bool)
    ensures
        b == list_mentions(*items, items@.len()),
    decreases items,
{
    let mut i: usize = 0;
    while i < items.len()
        invariant
            i <= items@.len(),
            !list_mentions(*items, i as nat),
        decreases items@.len() - i,
    {
        if refers_to_original(&items[i]) {
            proof {
                lemma_list_mentions_grows(*items, (i + 1) as nat, items@.len());
            }
            return true;
        }
        i = i + 1;
    }
    false
}

fn values_refer(vars: &Vec<(String, Rewrite)>) -> (b: bool)
    ensures
        b == values_mention(*vars, vars@.len()),
    decreases vars,
{
    let mut i: usize = 0;
    while i < vars.len()
        invariant
            i <= vars@.len(),
            !values_mention(*vars, i as nat),
        decreases vars@.len() - i,
    {
        if refers_to_original(&vars[i].1) {
            proof {
                lemma_values_mention_grows(*vars, (i + 1) as nat, vars@.len());
            }
            return true;
        }
        i = i + 1;
    }
    false
}

/// Whether the node copies in original text of the expression or of one of
/// its operands.
pub fn refers_to_original(rw: &Rewrite) -> (b: bool)
    ensures
        b == mentions_original(*rw),
    decreases rw,
{
    match rw {
        Rewrite::Identity => true,
        Rewrite::Sub(_, _) => true,
        Rewrite::Text(_) => false,
        Rewrite::Extract(_) => false,
        Rewrite::Ref(inner, _) => refers_to_original(inner),
        Rewrite::AddrOf(inner, _) => refers_to_original(inner),
        Rewrite::Deref(inner) => refers_to_original(inner),
        Rewrite::Index(arr, idx) => refers_to_original(arr) || refers_to_original(idx),
        Rewrite::SliceRange(arr, lo, hi) => refers_to_original(arr) || opt_refers(lo) || opt_refers(hi),
        Rewrite::Cast(inner, _) => refers_to_original(inner),
        Rewrite::RemovedCast(inner) => refers_to_original(inner),
        Rewrite::LitZero => false,
        Rewrite::Call(_, args) => list_refers(args),
        Rewrite::MethodCall(_, recv, args) => refers_to_original(recv) || list_refers(args),
        Rewrite::Block(stmts, tail) => list_refers(stmts) || opt_refers(tail),
        Rewrite::Let(vars) => values_refer(vars),
        Rewrite::Print(_) => false,
        Rewrite::TyPtr(inner, _) => refers_to_original(inner),
        Rewrite::TyRef(_, inner, _) => refers_to_original(inner),
        Rewrite::TySlice(inner) => refers_to_original(inner),
        Rewrite::TyCtor(_, args) => list_refers(args),
        Rewrite::_TyGenericParams(args) => list_refers(args),
        Rewrite::StaticMut(_, _) => false,
        Rewrite::DefineFn { name, arg_tys, return_ty, body } => list_refers(arg_tys) || opt_refers(
            return_ty,
        ) || refers_to_original(body),
        Rewrite::FnArg(_) => false,
    }
}

/// One of the first `n` statements is a `let`.
pub open spec fn let_before(stmts: Seq<Rewrite>, n: int) -> bool {
    exists|i: int| 0 <= i < n && i < stmts.len() && #[trigger] stmts[i] is Let
}

/// Item `j` of a block, its tail counting as the item after the last
/// statement, refers to the original text.
pub open spec fn item_mentions(stmts: Seq<Rewrite>, tail: Option<Box<Rewrite>>, j: int) -> bool {
    if 0 <= j < stmts.len() {
        mentions_original(stmts[j])
    } else {
        j == stmts.len() && opt_mentions(tail)
    }
}

/// Item `j` of the block stands after a `let` and refers to the original text.
pub open spec fn captured(stmts: Seq<Rewrite>, tail: Option<Box<Rewrite>>, j: int) -> bool {
    0 <= j <= stmts.len() && let_before(stmts, j) && item_mentions(stmts, tail, j)
}

/// No item of the block that stands after a `let` refers to the original text.
pub open spec fn well_scoped(stmts: Seq<Rewrite>, tail: Option<Box<Rewrite>>) -> bool {
    forall|j: int| !captured(stmts, tail, j)
}

/// Builds the block of the statements and the tail, unless an item of it
/// stands after a `let` and refers to the original text: then the index of
/// the first such item is returned (the number of statements, for the tail).
pub fn block(stmts: Vec<Rewrite>, tail: Option<Box<Rewrite>>) -> (r: Result<Rewrite, usize>)
    ensures
        r is Ok <==> well_scoped(stmts@, tail),
        r matches Ok(b) ==> b == Rewrite::Block(stmts, tail),
        r matches Err(j) ==> captured(stmts@, tail, j as int) && forall|k: int|
            0 <= k < j ==> !captured(stmts@, tail, k),
{
    let mut seen_let = false;
    let mut j: usize = 0;
    while j < stmts.len()
        invariant
            j <= stmts@.len(),
            seen_let == let_before(stmts@, j as int),
            forall|k: int| 0 <= k < j ==> !captured(stmts@, tail, k),
        decreases stmts@.len() - j,
    {
        if seen_let && refers_to_original(&stmts[j]) {
            assert(captured(stmts@, tail, j as int));
            return Err(j);
        }
        let is_let = match &stmts[j] {
            Rewrite::Let(_) => true,
            _ => false,
        };
        proof {
            if is_let {
                assert(stmts@[j as int] is Let);
            } else if let_before(stmts@, j + 1) {
                let i = choose|i: int| 0 <= i < j + 1 && i < stmts@.len() && #[trigger] stmts@[i] is Let;
                assert(i < j);
            }
        }
        if is_let {
            seen_let = true;
        }
        j = j + 1;
    }
    if seen_let && opt_refers(&tail) {
        assert(captured(stmts@, tail, j as int));
        return Err(j);
    }
    assert forall|k: int| !captured(stmts@, tail, k) by {}
    Ok(Rewrite::Block(stmts, tail))
}

} // verus!
