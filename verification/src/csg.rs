//! Constructive solid geometry: boolean combinations of two shapes, decided
//! by filtering a time-sorted hit list through an inside/outside walk.
use crate::intersections::{
    all_primitive, intersection_dup, sorted_by_t, Intersection, Intersections,
};
use crate::mtg::str_eq;
use crate::shapes::{is_primitive, s_includes, test_shape, Shape, ShapeType};
use vstd::prelude::*;

verus! {

#[derive(Clone, Copy, Debug, PartialEq, Eq, Structural, Hash)]
pub enum Operation {
    Union,
    Intersection,
    Difference,
}

/// A boolean combination of exactly two child shapes.
pub struct CSG {
    pub op: Operation,
    pub children: Vec<Shape>,
}

/// Whether a hit survives the boolean filter: `lhit` says the hit belongs
/// to the left child, `inl`/`inr` whether the walk is currently inside the
/// left/right child.
pub open spec fn s_intersection_allowed(op: Operation, lhit: bool, inl: bool, inr: bool) -> bool {
    match op {
        Operation::Union => (lhit && !inr) || (!lhit && !inl),
        Operation::Intersection => (lhit && inr) || (!lhit && inl),
        Operation::Difference => (lhit && !inr) || (!lhit && inl),
    }
}

fn op_allowed(op: &Operation, lhit: bool, inl: bool, inr: bool) -> (r: bool)
    ensures
        r == s_intersection_allowed(*op, lhit, inl, inr),
{
    match op {
        Operation::Union => (lhit && !inr) || (!lhit && !inl),
        Operation::Intersection => (lhit && inr) || (!lhit && inl),
        Operation::Difference => (lhit && !inr) || (!lhit && inl),
    }
}

/// The operation a name denotes.
pub open spec fn s_parse_op(s: Seq<char>) -> Operation {
    if s == "union"@ {
        Operation::Union
    } else if s == "intersection"@ {
        Operation::Intersection
    } else {
        Operation::Difference
    }
}

/// Parses an operation name; anything else is rejected up front.
pub fn parse_operation(op: &str) -> (r: Operation)
    requires
        op@ == "union"@ || op@ == "intersection"@ || op@ == "difference"@,
    ensures
        r == s_parse_op(op@),
{
    if str_eq(op, "union") {
        Operation::Union
    } else if str_eq(op, "intersection") {
        Operation::Intersection
    } else {
        Operation::Difference
    }
}

/// The name of an operation.
pub fn operation_name(op: &Operation) -> (r: String)
    ensures
        r@ == (match *op {
            Operation::Union => "union"@,
            Operation::Intersection => "intersection"@,
            Operation::Difference => "difference"@,
        }),
{
    match op {
        Operation::Union => String::from_str("union"),
        Operation::Intersection => String::from_str("intersection"),
        Operation::Difference => String::from_str("difference"),
    }
}

pub fn intersection_allowed(op: &str, lhit: &bool, inl: &bool, inr: &bool) -> (r: bool)
    requires
        op@ == "union"@ || op@ == "intersection"@ || op@ == "difference"@,
    ensures
        r == s_intersection_allowed(s_parse_op(op@), *lhit, *inl, *inr),
{
    let o: Operation = parse_operation(op);
    op_allowed(&o, *lhit, *inl, *inr)
}

/// The boolean truth table, once for every operation and flag combination:
/// a union keeps hits on the outer boundary of both children, an
/// intersection keeps hits inside the other child, and a difference keeps
/// left hits outside the right child and right hits inside the left one.
pub proof fn lemma_intersection_allowed_table()
    ensures
        s_intersection_allowed(Operation::Union, true, true, true) == false,
        s_intersection_allowed(Operation::Union, true, true, false) == true,
        s_intersection_allowed(Operation::Union, true, false, true) == false,
        s_intersection_allowed(Operation::Union, true, false, false) == true,
        s_intersection_allowed(Operation::Union, false, true, true) == false,
        s_intersection_allowed(Operation::Union, false, true, false) == false,
        s_intersection_allowed(Operation::Union, false, false, true) == true,
        s_intersection_allowed(Operation::Union, false, false, false) == true,
        s_intersection_allowed(Operation::Intersection, true, true, true) == true,
        s_intersection_allowed(Operation::Intersection, true, true, false) == false,
        s_intersection_allowed(Operation::Intersection, true, false, true) == true,
        s_intersection_allowed(Operation::Intersection, true, false, false) == false,
        s_intersection_allowed(Operation::Intersection, false, true, true) == true,
        s_intersection_allowed(Operation::Intersection, false, true, false) == true,
        s_intersection_allowed(Operation::Intersection, false, false, true) == false,
        s_intersection_allowed(Operation::Intersection, false, false, false) == false,
        s_intersection_allowed(Operation::Difference, true, true, true) == false,
        s_intersection_allowed(Operation::Difference, true, true, false) == true,
        s_intersection_allowed(Operation::Difference, true, false, true) == false,
        s_intersection_allowed(Operation::Difference, true, false, false) == true,
        s_intersection_allowed(Operation::Difference, false, true, true) == true,
        s_intersection_allowed(Operation::Difference, false, true, false) == true,
        s_intersection_allowed(Operation::Difference, false, false, true) == false,
        s_intersection_allowed(Operation::Difference, false, false, false) == false,
{
}

/// The inside/outside walk over the first `k` records of a sorted hit
/// list: the kept records, and whether the walk is inside the left and
/// right children afterward.
pub open spec fn s_filter_walk(left: Shape, op: Operation, xs: Seq<Intersection>, k: int) -> (
    Seq<Intersection>,
    bool,
    bool,
)
    decreases k,
{
    if k <= 0 {
        (Seq::empty(), false, false)
    } else {
        let prev = s_filter_walk(left, op, xs, k - 1);
        let kept = prev.0;
        let inl = prev.1;
        let inr = prev.2;
        let lhit = s_includes(left, xs[k - 1].object);
        let kept2 = if s_intersection_allowed(op, lhit, inl, inr) {
            kept.push(xs[k - 1])
        } else {
            kept
        };
        if lhit {
            (kept2, !inl, inr)
        } else {
            (kept2, inl, !inr)
        }
    }
}

/// Filters a CSG node's sorted hit list by its operation's truth table.
pub fn filter_intersections(shape: &Shape, xs: &Intersections) -> (r: Intersections)
    requires
        shape.shape_type matches ShapeType::CSG(c) && c.children@.len() == 2,
        xs.wf(),
    ensures
        r.wf(),
        (shape.shape_type matches ShapeType::CSG(c) ==> r.data@ == s_filter_walk(
            c.children@[0],
            c.op,
            xs.data@,
            xs.data@.len() as int,
        ).0),
    {
    let c: &CSG = match &shape.shape_type {
        ShapeType::CSG(c) => c,
        _ => {
            proof {
                assert(false);
            }
            unreached()
        },
    };
    let mut inl: bool = false;
    let mut inr: bool = false;
    let mut result: Vec<Intersection> = Vec::new();
    let n: usize = xs.data.len();
    let mut k: usize = 0;
    while k < n
        invariant
            k <= n,
            n == xs.data@.len(),
            xs.wf(),
            c.children@.len() == 2,
            (result@, inl, inr) == s_filter_walk(c.children@[0], c.op, xs.data@, k as int),
        decreases n - k,
    {
        let i: &Intersection = &xs.data[k];
        let lhit: bool = c.children[0].includes(&i.object);
        if op_allowed(&c.op, lhit, inl, inr) {
            result.push(intersection_dup(i));
        }
        if lhit {
            inl = !inl;
        } else {
            inr = !inr;
        }
        k = k + 1;
    }
    proof {
        lemma_filter_walk_wf(c.children@[0], c.op, xs.data@, n as int);
        assert(shape.shape_type matches ShapeType::CSG(cc) ==> cc == *c);
    }
    let count: usize = result.len();
    Intersections { count, data: result }
}

/// The filter keeps a sorted, primitive-shaped sublist.
pub proof fn lemma_filter_walk_wf(left: Shape, op: Operation, xs: Seq<Intersection>, k: int)
    requires
        sorted_by_t(xs),
        all_primitive(xs),
        k <= xs.len(),
    ensures
        sorted_by_t(s_filter_walk(left, op, xs, k).0),
        all_primitive(s_filter_walk(left, op, xs, k).0),
        forall|i: int|
            0 <= i < s_filter_walk(left, op, xs, k).0.len() ==> exists|j: int|
                0 <= j < k && #[trigger] s_filter_walk(left, op, xs, k).0[i] == xs[j],
    decreases k,
{
    if k > 0 {
        lemma_filter_walk_wf(left, op, xs, k - 1);
        let prev = s_filter_walk(left, op, xs, k - 1).0;
        let cur = s_filter_walk(left, op, xs, k).0;
        if cur != prev {
            assert(cur == prev.push(xs[k - 1]));
            assert forall|i: int, j: int| 0 <= i < j < cur.len() implies #[trigger] cur[i].t
                <= #[trigger] cur[j].t by {
                if j < cur.len() - 1 {
                    assert(cur[i] == prev[i] && cur[j] == prev[j]);
                } else {
                    assert(cur[j] == xs[k - 1]);
                    let w = choose|w: int| 0 <= w < k - 1 && #[trigger] prev[i] == xs[w];
                    assert(xs[w].t <= xs[k - 1].t);
                }
            }
        }
    }
}

/// A CSG shape combining two shapes, which it takes over.
pub fn csg(op: &str, s1: Shape, s2: Shape) -> (r: Shape)
    requires
        op@ == "union"@ || op@ == "intersection"@ || op@ == "difference"@,
        s1.wf_shape(),
        s2.wf_shape(),
    ensures
        r.shape_type matches ShapeType::CSG(c) && c.op == s_parse_op(op@) && c.children@.len() == 2
            && c.children@[0] == s1 && c.children@[1] == s2,
        r.wf_shape(),
{
    let o: Operation = parse_operation(op);
    let mut s: Shape = test_shape();
    let mut children: Vec<Shape> = Vec::new();
    children.push(s1);
    children.push(s2);
    s.shape_type = ShapeType::CSG(CSG { op: o, children });
    s
}

} // verus!
