//! Rewrites of expressions: edit requests, stated on locations of the
//! mid-level representation, are attributed to the surface expressions they
//! came from and merged into one rewrite per expression.

use crate::rewrite::apply::{collide, find_overlap, no_collisions};
use crate::rewrite::expr::distribute::{distribute, distributed, openers, owner_span, Distributed};
use crate::rewrite::{spans_distinct, Mutability, Span};
use vstd::prelude::*;

pub mod distribute;

verus! {

/// One point (a statement or an operand position) in the mid-level
/// representation of one function.
#[derive(Clone, Copy, PartialEq, Eq, Debug, Structural)]
pub struct Location {
    pub block: u32,
    pub statement: usize,
}

/// The change that an edit request asks for.
#[derive(Clone, PartialEq, Eq, Debug)]
pub enum EditKind {
    /// Insert a cast to the given type: `e as T`.
    Cast(String),
    /// Remove a cast that has become redundant.
    RemoveCast,
    /// Dereference: `*e`.
    Deref,
    /// Borrow: `&e`, `&mut e`.
    Ref(Mutability),
    /// Take the address: `core::ptr::addr_of!(e)`.
    AddrOf(Mutability),
    /// Extract the address held by a cell: `e.as_ptr()`.
    AsPtr,
    /// Replace a pointer to a slice by a reference to its first element: `&e[0]`.
    SliceFirst(Mutability),
    /// Replace a pointer offset by a subslice: `&e[i as usize..]`, where `i`
    /// is the second operand of the expression.
    OffsetSlice(Mutability),
}

/// A request of the analysis to edit what a location computes.
#[derive(Clone, PartialEq, Eq, Debug)]
pub struct EditRequest {
    pub location: Location,
    pub kind: EditKind,
}

/// One entry of the lookup from locations to surface expressions: the
/// expression that `location` came from, by its span, with the spans of its
/// operands in order.
#[derive(Clone, PartialEq, Eq, Debug)]
pub struct Origin {
    pub location: Location,
    pub span: Span,
    pub children: Vec<Span>,
}

/// The spans of the expressions that own a request, in the order in which
/// they first occur among the requests.
pub open spec fn owned_spans(requests: Seq<EditRequest>, table: Seq<Origin>) -> Seq<Span> {
    let firsts = openers(requests, table, requests.len());
    Seq::new(firsts.len(), |j: int| owner_span(table, requests[firsts[j]])->Some_0)
}

/// No two of the spans collide.
pub open spec fn collision_free(spans: Seq<Span>) -> bool {
    forall|a: int, b: int| 0 <= a < b < spans.len() ==> !collide(#[trigger] spans[a], #[trigger] spans[b])
}

/// No pair of spans before the pair `(i, j)` collides.
pub open spec fn collision_free_before(spans: Seq<Span>, i: int, j: int) -> bool {
    forall|a: int, b: int|
        0 <= a < b < spans.len() && (a < i || (a == i && b < j)) ==> !collide(
            #[trigger] spans[a],
            #[trigger] spans[b],
        )
}

/// Generates the rewrites of expressions: one node for each surface
/// expression that owns at least one request, and the indices of the requests
/// that no surface expression owns, which are left out. The spans of the
/// result are those of the owning expressions, and no two of them collide:
/// where an expression and one that lies inside it, or overlaps it, both own
/// a request, nothing is generated, and the places of the first two such
/// expressions among the owning ones are returned.
pub fn gen_expr_rewrites(requests: &Vec<EditRequest>, table: &Vec<Origin>) -> (r: Result<
    Distributed,
    (usize, usize),
>)
    ensures
        r is Ok <==> collision_free(owned_spans(requests@, table@)),
        r matches Ok(d) ==> distributed(requests@, table@, d) && spans_distinct(d.rewrites@) && no_collisions(
            d.rewrites@,
        ),
        r matches Err((a, b)) ==> a < b < owned_spans(requests@, table@).len() && collide(
            owned_spans(requests@, table@)[a as int],
            owned_spans(requests@, table@)[b as int],
        ) && collision_free_before(owned_spans(requests@, table@), a as int, b as int),
{
    let d = distribute(requests, table);
    let ghost spans = owned_spans(requests@, table@);
    assert(spans.len() == d.rewrites@.len());
    assert forall|j: int| 0 <= j < spans.len() implies spans[j] == (#[trigger] d.rewrites@[j]).0 by {}
    match find_overlap(&d.rewrites) {
        Some((a, b)) => {
            assert(collide(spans[a as int], spans[b as int]));
            assert forall|x: int, y: int|
                0 <= x < y < spans.len() && (x < a || (x == a && y < b)) implies !collide(
                #[trigger] spans[x],
                #[trigger] spans[y],
            ) by {
                assert(!collide(d.rewrites@[x].0, d.rewrites@[y].0));
            }
            Err((a, b))
        },
        None => {
            assert forall|x: int, y: int| 0 <= x < y < spans.len() implies !collide(
                #[trigger] spans[x],
                #[trigger] spans[y],
            ) by {
                assert(!collide(d.rewrites@[x].0, d.rewrites@[y].0));
            }
            Ok(d)
        },
    }
}

} // verus!
