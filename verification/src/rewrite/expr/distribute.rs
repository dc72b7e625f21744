//! Attribution of edit requests to the innermost surface expression that can
//! own them, and composition of the requests of one expression, in order,
//! into one rewrite.

use crate::rewrite::expr::{EditKind, EditRequest, Origin};
use crate::rewrite::{spans_distinct, Rewrite, Span};
use vstd::prelude::*;

verus! {

/// The rewrites of the expressions that own a request, and the requests
/// (by index) that were left out because no expression owns them.
pub struct Distributed {
    pub rewrites: Vec<(Span, Rewrite)>,
    pub dropped: Vec<usize>,
}

/// The number of operands that a request of this kind refers to.
pub open spec fn arity(kind: EditKind) -> nat {
    match kind {
        EditKind::OffsetSlice(_) => 2,
        _ => 0,
    }
}

/// The number of bytes that a span covers.
pub open spec fn width(span: Span) -> int {
    if span.hi >= span.lo {
        span.hi - span.lo
    } else {
        0
    }
}

/// Entry `e` is for the request's location and has the operands it refers to.
pub open spec fn eligible(table: Seq<Origin>, req: EditRequest, e: int) -> bool {
    0 <= e < table.len() && table[e].location == req.location && table[e].children@.len() >= arity(
        req.kind,
    )
}

/// Entry `e` is eligible, and no eligible entry has a smaller span, or an
/// equal one earlier in the table: the innermost expression wins.
pub open spec fn is_owner(table: Seq<Origin>, req: EditRequest, e: int) -> bool {
    eligible(table, req, e) && forall|f: int| #[trigger]
        eligible(table, req, f) ==> width(table[e].span) < width(table[f].span) || (width(
            table[e].span,
        ) == width(table[f].span) && e <= f)
}

/// The entry that owns the request, if any entry is eligible.
pub open spec fn owner(table: Seq<Origin>, req: EditRequest) -> Option<int> {
    if exists|e: int| is_owner(table, req, e) {
        Some(choose|e: int| is_owner(table, req, e))
    } else {
        None
    }
}

/// The span of the expression that owns the request.
pub open spec fn owner_span(table: Seq<Origin>, req: EditRequest) -> Option<Span> {
    match owner(table, req) {
        Some(e) => Some(table[e].span),
        None => None,
    }
}

/// If `node` is the result of applying `kind` to some operand, in an
/// expression whose operands are at `children`, that operand.
pub open spec fn peel(kind: EditKind, children: Seq<Span>, node: Rewrite) -> Option<Rewrite> {
    match kind {
        EditKind::Cast(ty) => match node {
            Rewrite::Cast(inner, t) => if t@ == ty@ { Some(*inner) } else { None },
            _ => None,
        },
        EditKind::RemoveCast => match node {
            Rewrite::RemovedCast(inner) => Some(*inner),
            _ => None,
        },
        EditKind::Deref => match node {
            Rewrite::Deref(inner) => Some(*inner),
            _ => None,
        },
        EditKind::Ref(m) => match node {
            Rewrite::Ref(inner, m2) => if m2 == m { Some(*inner) } else { None },
            _ => None,
        },
        EditKind::AddrOf(m) => match node {
            Rewrite::AddrOf(inner, m2) => if m2 == m { Some(*inner) } else { None },
            _ => None,
        },
        EditKind::AsPtr => match node {
            Rewrite::MethodCall(name, recv, args) => if name@ == "as_ptr"@ && args@.len() == 0 {
                Some(*recv)
            } else {
                None
            },
            _ => None,
        },
        EditKind::SliceFirst(m) => match node {
            Rewrite::Ref(elem, m2) => match *elem {
                Rewrite::Index(arr, idx) => if m2 == m && *idx == Rewrite::LitZero {
                    Some(*arr)
                } else {
                    None
                },
                _ => None,
            },
            _ => None,
        },
        EditKind::OffsetSlice(m) => match node {
            Rewrite::Ref(elem, m2) => match *elem {
                Rewrite::SliceRange(arr, Some(lo), None) => match *lo {
                    Rewrite::Cast(from, ty) => if m2 == m && children.len() >= 2 && *from
                        == Rewrite::Sub(1, children[1]) && ty@ == "usize"@ {
                        Some(*arr)
                    } else {
                        None
                    },
                    _ => None,
                },
                _ => None,
            },
            _ => None,
        },
    }
}

/// The requests among the first `n` that the expression at `span` owns, in order.
pub open spec fn group(requests: Seq<EditRequest>, table: Seq<Origin>, span: Span, n: nat) -> Seq<int>
    decreases n,
{
    if n == 0 || n > requests.len() {
        Seq::empty()
    } else if owner_span(table, requests[n - 1]) == Some(span) {
        group(requests, table, span, (n - 1) as nat).push(n - 1)
    } else {
        group(requests, table, span, (n - 1) as nat)
    }
}

/// `node` is the original expression with the requests `idxs` applied to it
/// one after the other, the first innermost.
pub open spec fn realizes(node: Rewrite, requests: Seq<EditRequest>, table: Seq<Origin>, idxs: Seq<int>) -> bool
    decreases idxs.len(),
{
    if idxs.len() == 0 {
        node == Rewrite::Identity
    } else {
        let i = idxs.last();
        0 <= i < requests.len() && match owner(table, requests[i]) {
            Some(e) => match peel(requests[i].kind, table[e].children@, node) {
                Some(inner) => realizes(inner, requests, table, idxs.drop_last()),
                None => false,
            },
            None => false,
        }
    }
}

/// Request `i` is owned, and by an expression that owns no earlier request.
pub open spec fn opens_group(requests: Seq<EditRequest>, table: Seq<Origin>, i: int) -> bool {
    0 <= i < requests.len() && owner_span(table, requests[i]) is Some && forall|j: int|
        0 <= j < i ==> owner_span(table, #[trigger] requests[j]) != owner_span(table, requests[i])
}

/// The requests among the first `n` that open a group, in order.
pub open spec fn openers(requests: Seq<EditRequest>, table: Seq<Origin>, n: nat) -> Seq<int>
    decreases n,
{
    if n == 0 || n > requests.len() {
        Seq::empty()
    } else if opens_group(requests, table, n - 1) {
        openers(requests, table, (n - 1) as nat).push(n - 1)
    } else {
        openers(requests, table, (n - 1) as nat)
    }
}

/// The requests among the first `n` that no expression owns, in order.
pub open spec fn unowned(requests: Seq<EditRequest>, table: Seq<Origin>, n: nat) -> Seq<int>
    decreases n,
{
    if n == 0 || n > requests.len() {
        Seq::empty()
    } else if owner(table, requests[n - 1]) is None {
        unowned(requests, table, (n - 1) as nat).push(n - 1)
    } else {
        unowned(requests, table, (n - 1) as nat)
    }
}

/// What distribution yields: one node per owning expression, in the order in
/// which the expressions first occur among the requests, each node composed
/// of all the requests of its expression; and the unowned requests.
pub open spec fn distributed(requests: Seq<EditRequest>, table: Seq<Origin>, d: Distributed) -> bool {
    let firsts = openers(requests, table, requests.len());
    let lost = unowned(requests, table, requests.len());
    &&& d.rewrites@.len() == firsts.len()
    &&& forall|j: int|
        0 <= j < firsts.len() ==> {
            let span = (#[trigger] d.rewrites@[j]).0;
            &&& owner_span(table, requests[firsts[j]]) == Some(span)
            &&& realizes(d.rewrites@[j].1, requests, table, group(requests, table, span, requests.len()))
        }
    &&& d.dropped@.len() == lost.len()
    &&& forall|j: int| 0 <= j < lost.len() ==> #[trigger] d.dropped@[j] == lost[j]
}

/// At most one entry owns a request.
pub proof fn lemma_owner_unique(table: Seq<Origin>, req: EditRequest, e: int, f: int)
    requires
        is_owner(table, req, e),
        is_owner(table, req, f),
    ensures
        e == f,
{
    assert(eligible(table, req, e));
    assert(eligible(table, req, f));
}

/// The entry that owns the request: among the entries for its location that
/// have the operands it refers to, the one with the smallest span.
pub fn find_owner(table: &Vec<Origin>, req: &EditRequest) -> (r: Option<usize>)
    ensures
        r is None <==> owner(table@, *req) is None,
        r matches Some(e) ==> owner(table@, *req) == Some(e as int) && e < table@.len(),
{
    let need: usize = match req.kind {
        EditKind::OffsetSlice(_) => 2,
        _ => 0,
    };
    let mut best: Option<usize> = None;
    let mut k: usize = 0;
    while k < table.len()
        invariant
            k <= table@.len(),
            need == arity(req.kind),
            best is None ==> forall|f: int| 0 <= f < k ==> !eligible(table@, *req, f),
            best matches Some(b) ==> b < k && eligible(table@, *req, b as int) && forall|f: int|
                0 <= f < k && #[trigger] eligible(table@, *req, f) ==> width(table@[b as int].span) < width(
                    table@[f].span,
                ) || (width(table@[b as int].span) == width(table@[f].span) && b <= f),
        decreases table@.len() - k,
    {
        if table[k].location == req.location && table[k].children.len() >= need {
            let better = match best {
                Some(b) => span_width(&table[k].span) < span_width(&table[b].span),
                None => true,
            };
            if better {
                best = Some(k);
            }
        }
        k = k + 1;
    }
    proof {
        match best {
            Some(b) => {
                assert(is_owner(table@, *req, b as int));
                let c = choose|e: int| is_owner(table@, *req, e);
                lemma_owner_unique(table@, *req, b as int, c);
            },
            None => {
                assert forall|e: int| !is_owner(table@, *req, e) by {
                    if is_owner(table@, *req, e) {
                        assert(eligible(table@, *req, e));
                    }
                }
            },
        }
    }
    best
}

fn span_width(span: &Span) -> (w: usize)
    ensures
        w == width(*span),
{
    if span.hi >= span.lo {
        span.hi - span.lo
    } else {
        0
    }
}

/// The span of the expression that owns the request.
fn find_owner_span(table: &Vec<Origin>, req: &EditRequest) -> (r: Option<Span>)
    ensures
        r == owner_span(table@, *req),
{
    match find_owner(table, req) {
        Some(e) => Some(table[e].span),
        None => None,
    }
}

/// Applies a request of kind `kind` to `inner`, in an expression whose
/// operands are at `children`.
pub fn wrap(kind: &EditKind, inner: Rewrite, children: &Vec<Span>) -> (node: Rewrite)
    requires
        children@.len() >= arity(*kind),
    ensures
        peel(*kind, children@, node) == Some(inner),
{
    match kind {
        EditKind::Cast(ty) => Rewrite::Cast(Box::new(inner), ty.clone()),
        EditKind::RemoveCast => Rewrite::RemovedCast(Box::new(inner)),
        EditKind::Deref => Rewrite::Deref(Box::new(inner)),
        EditKind::Ref(m) => Rewrite::Ref(Box::new(inner), *m),
        EditKind::AddrOf(m) => Rewrite::AddrOf(Box::new(inner), *m),
        EditKind::AsPtr => Rewrite::MethodCall("as_ptr".to_owned(), Box::new(inner), Vec::new()),
        EditKind::SliceFirst(m) => Rewrite::Ref(
            Box::new(Rewrite::Index(Box::new(inner), Box::new(Rewrite::LitZero))),
            *m,
        ),
        EditKind::OffsetSlice(m) => {
            let offset = Rewrite::Cast(Box::new(Rewrite::Sub(1, children[1])), "usize".to_owned());
            Rewrite::Ref(Box::new(Rewrite::SliceRange(Box::new(inner), Some(Box::new(offset)), None)), *m)
        },
    }
}

/// Composes all the requests that the expression at `span` owns.
fn compose(requests: &Vec<EditRequest>, table: &Vec<Origin>, span: Span) -> (node: Rewrite)
    ensures
        realizes(node, requests@, table@, group(requests@, table@, span, requests@.len())),
{
    let mut node = Rewrite::Identity;
    let mut i: usize = 0;
    while i < requests.len()
        invariant
            i <= requests@.len(),
            realizes(node, requests@, table@, group(requests@, table@, span, i as nat)),
        decreases requests@.len() - i,
    {
        match find_owner(table, &requests[i]) {
            Some(e) => {
                if table[e].span == span {
                    let ghost prev = group(requests@, table@, span, i as nat);
                    node = wrap(&requests[i].kind, node, &table[e].children);
                    proof {
                        let next = group(requests@, table@, span, (i + 1) as nat);
                        assert(next == prev.push(i as int));
                        assert(next.drop_last() =~= prev);
                        assert(next.last() == i);
                    }
                }
            },
            None => {},
        }
        i = i + 1;
    }
    node
}

/// Whether one of the first `i` requests is owned by the expression at `span`.
fn seen_before(requests: &Vec<EditRequest>, table: &Vec<Origin>, span: Span, i: usize) -> (r: bool)
    requires
        i <= requests@.len(),
    ensures
        r == exists|j: int| 0 <= j < i && owner_span(table@, #[trigger] requests@[j]) == Some(span),
{
    let mut j: usize = 0;
    while j < i
        invariant
            j <= i <= requests@.len(),
            forall|k: int| 0 <= k < j ==> owner_span(table@, #[trigger] requests@[k]) != Some(span),
        decreases i - j,
    {
        if let Some(s) = find_owner_span(table, &requests[j]) {
            if s == span {
                return true;
            }
        }
        j = j + 1;
    }
    false
}

/// Attributes each request to the innermost expression that owns it and
/// merges the requests of each expression into one node.
pub fn distribute(requests: &Vec<EditRequest>, table: &Vec<Origin>) -> (d: Distributed)
    ensures
        distributed(requests@, table@, d),
        spans_distinct(d.rewrites@),
{
    let mut rewrites: Vec<(Span, Rewrite)> = Vec::new();
    let mut dropped: Vec<usize> = Vec::new();
    let mut i: usize = 0;
    while i < requests.len()
        invariant
            i <= requests@.len(),
            rewrites@.len() == openers(requests@, table@, i as nat).len(),
            forall|j: int|
                0 <= j < rewrites@.len() ==> {
                    let span = (#[trigger] rewrites@[j]).0;
                    &&& owner_span(table@, requests@[openers(requests@, table@, i as nat)[j]]) == Some(span)
                    &&& realizes(
                        rewrites@[j].1,
                        requests@,
                        table@,
                        group(requests@, table@, span, requests@.len()),
                    )
                },
            dropped@.len() == unowned(requests@, table@, i as nat).len(),
            forall|j: int|
                0 <= j < dropped@.len() ==> #[trigger] dropped@[j] == unowned(requests@, table@, i as nat)[j],
        decreases requests@.len() - i,
    {
        match find_owner_span(table, &requests[i]) {
            None => {
                dropped.push(i);
            },
            Some(span) => {
                if !seen_before(requests, table, span, i) {
                    let node = compose(requests, table, span);
                    rewrites.push((span, node));
                }
            },
        }
        i = i + 1;
    }
    let d = Distributed { rewrites, dropped };
    proof {
        lemma_one_node_per_span(requests@, table@, d);
    }
    d
}

proof fn lemma_openers(requests: Seq<EditRequest>, table: Seq<Origin>, n: nat)
    requires
        n <= requests.len(),
    ensures
        forall|j: int|
            0 <= j < openers(requests, table, n).len() ==> 0 <= #[trigger] openers(requests, table, n)[j] < n
                && opens_group(requests, table, openers(requests, table, n)[j]),
        forall|a: int, b: int|
            0 <= a < b < openers(requests, table, n).len() ==> #[trigger] openers(requests, table, n)[a]
                < #[trigger] openers(requests, table, n)[b],
    decreases n,
{
    if n > 0 {
        lemma_openers(requests, table, (n - 1) as nat);
        let now = openers(requests, table, n);
        let before = openers(requests, table, (n - 1) as nat);
        assert forall|j: int| 0 <= j < now.len() implies 0 <= #[trigger] now[j] < n && opens_group(
            requests,
            table,
            now[j],
        ) by {
            if j < before.len() {
                assert(now[j] == before[j]);
            }
        }
        assert forall|a: int, b: int| 0 <= a < b < now.len() implies #[trigger] now[a] < #[trigger] now[b] by {
            assert(now[a] == before[a]);
            if b < before.len() {
                assert(now[b] == before[b]);
            }
        }
    }
}

proof fn lemma_owned_has_opener(requests: Seq<EditRequest>, table: Seq<Origin>, n: nat, i: int)
    requires
        0 <= i < n <= requests.len(),
        owner_span(table, requests[i]) is Some,
    ensures
        exists|j: int|
            0 <= j < openers(requests, table, n).len() && owner_span(
                table,
                requests[#[trigger] openers(requests, table, n)[j]],
            ) == owner_span(table, requests[i]),
    decreases n,
{
    let now = openers(requests, table, n);
    let before = openers(requests, table, (n - 1) as nat);
    if i < n - 1 {
        lemma_owned_has_opener(requests, table, (n - 1) as nat, i);
        let j = choose|j: int|
            0 <= j < before.len() && owner_span(table, requests[#[trigger] before[j]]) == owner_span(
                table,
                requests[i],
            );
        assert(now[j] == before[j]);
    } else if opens_group(requests, table, i) {
        assert(now[now.len() - 1] == i);
    } else {
        let k = choose|k: int|
            0 <= k < i && owner_span(table, #[trigger] requests[k]) == owner_span(table, requests[i]);
        lemma_owned_has_opener(requests, table, (n - 1) as nat, k);
        let j = choose|j: int|
            0 <= j < before.len() && owner_span(table, requests[#[trigger] before[j]]) == owner_span(
                table,
                requests[k],
            );
        assert(now[j] == before[j]);
    }
}

/// Distribution yields exactly one node for each span: no span occurs twice
/// among the rewrites, however many requests its expression owns.
pub proof fn lemma_one_node_per_span(requests: Seq<EditRequest>, table: Seq<Origin>, d: Distributed)
    requires
        distributed(requests, table, d),
    ensures
        spans_distinct(d.rewrites@),
{
    let firsts = openers(requests, table, requests.len());
    lemma_openers(requests, table, requests.len());
    assert forall|a: int, b: int| 0 <= a < b < d.rewrites@.len() implies (#[trigger] d.rewrites@[a]).0 != (
    #[trigger] d.rewrites@[b]).0 by {
        assert(firsts[a] < firsts[b]);
        assert(opens_group(requests, table, firsts[b]));
    }
}

/// Two requests that one surface expression owns, though they stand on
/// different locations, are merged: the rewrites hold a node for the span of
/// that expression, and only one.
pub proof fn lemma_requests_merge(
    requests: Seq<EditRequest>,
    table: Seq<Origin>,
    d: Distributed,
    i: int,
    k: int,
    span: Span,
)
    requires
        distributed(requests, table, d),
        0 <= i < requests.len(),
        0 <= k < requests.len(),
        owner_span(table, requests[i]) == Some(span),
        owner_span(table, requests[k]) == Some(span),
    ensures
        exists|j: int| 0 <= j < d.rewrites@.len() && (#[trigger] d.rewrites@[j]).0 == span,
        forall|a: int, b: int|
            0 <= a < d.rewrites@.len() && 0 <= b < d.rewrites@.len() && (#[trigger] d.rewrites@[a]).0 == span
                && (#[trigger] d.rewrites@[b]).0 == span ==> a == b,
{
    let firsts = openers(requests, table, requests.len());
    lemma_owned_has_opener(requests, table, requests.len(), i);
    let j = choose|j: int|
        0 <= j < firsts.len() && owner_span(table, requests[#[trigger] firsts[j]]) == owner_span(
            table,
            requests[i],
        );
    assert(d.rewrites@[j].0 == span);
    lemma_one_node_per_span(requests, table, d);
}

} // verus!
