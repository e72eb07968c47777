//! The bounding-volume hierarchy: a binary tree of boxes over the child
//! list of a frozen group.  Leaves hold positions into that child list, so
//! the tree never owns shapes of its own.
use crate::bounds::BoundingBox;
use crate::fx::{fx_div, fx_mul, fx_sub};
use crate::shapes::Shape;
use vstd::prelude::*;

verus! {

pub enum BVHNodeType {
    Leaf(Vec<usize>),
    Internal(Box<BVHNode>, Box<BVHNode>),
}

pub struct BVHNode {
    pub bb: BoundingBox,
    pub ntype: BVHNodeType,
}

/// Every leaf position lies below `n` (the owning group's child count).
pub open spec fn node_valid(node: BVHNode, n: int) -> bool
    decreases node,
{
    match node.ntype {
        BVHNodeType::Leaf(idxs) => forall|i: int| 0 <= i < idxs@.len() ==> idxs@[i] < n,
        BVHNodeType::Internal(l, r) => node_valid(*l, n) && node_valid(*r, n),
    }
}

/// How many shape positions the subtree holds, leaves summed.
pub open spec fn node_count(node: BVHNode) -> int
    decreases node,
{
    match node.ntype {
        BVHNodeType::Leaf(idxs) => idxs@.len() as int,
        BVHNodeType::Internal(l, r) => node_count(*l) + node_count(*r),
    }
}

/// Every shape position of the subtree, leaves concatenated left to right.
pub open spec fn node_positions(node: BVHNode) -> Seq<usize>
    decreases node,
{
    match node.ntype {
        BVHNodeType::Leaf(idxs) => idxs@,
        BVHNodeType::Internal(l, r) => node_positions(*l) + node_positions(*r),
    }
}

impl BVHNode {
    /// The two subtrees of an internal node.
    pub fn child_nodes(&self) -> (r: Option<(&BVHNode, &BVHNode)>)
        ensures
            match r {
                None => self.ntype is Leaf,
                Some(p) => self.ntype matches BVHNodeType::Internal(l, rr) && *p.0 == *l && *p.1
                    == *rr,
            },
    {
        match &self.ntype {
            BVHNodeType::Leaf(_) => None,
            BVHNodeType::Internal(left, right) => Some((left, right)),
        }
    }

    /// The shape positions of a leaf.
    pub fn shapes(&self) -> (r: Option<&Vec<usize>>)
        ensures
            match r {
                None => self.ntype is Internal,
                Some(v) => self.ntype matches BVHNodeType::Leaf(idxs) && v@ == idxs@,
            },
    {
        match &self.ntype {
            BVHNodeType::Leaf(idxs) => Some(idxs),
            BVHNodeType::Internal(_, _) => None,
        }
    }

    /// Height of the tree, as a natural number (used as a recursion rank).
    pub open spec fn rank(self) -> nat
        decreases self,
    {
        match self.ntype {
            BVHNodeType::Leaf(_) => 1,
            BVHNodeType::Internal(l, r) => {
                let a = l.rank();
                let b = r.rank();
                (if a >= b {
                    a
                } else {
                    b
                }) + 1
            },
        }
    }

    /// Height of the tree.
    pub open spec fn s_max_depth(self) -> int
        decreases self,
    {
        match self.ntype {
            BVHNodeType::Leaf(_) => 1,
            BVHNodeType::Internal(l, r) => {
                let a = l.s_max_depth();
                let b = r.s_max_depth();
                (if a >= b {
                    a
                } else {
                    b
                }) + 1
            },
        }
    }

    /// The number of shape positions the subtree holds.
    pub fn count_shapes(&self) -> (r: usize)
        requires
            node_count(*self) <= usize::MAX,
        ensures
            r == node_count(*self),
        decreases *self,
    {
        match &self.ntype {
            BVHNodeType::Leaf(idxs) => idxs.len(),
            BVHNodeType::Internal(l, r) => {
                proof {
                    lemma_node_count_nonneg(&**l);
                    lemma_node_count_nonneg(&**r);
                }
                let a: usize = l.count_shapes();
                let b: usize = r.count_shapes();
                a + b
            },
        }
    }

    pub fn max_depth(&self) -> (r: usize)
        requires
            self.s_max_depth() <= usize::MAX,
        ensures
            r == self.s_max_depth(),
        decreases *self,
    {
        match &self.ntype {
            BVHNodeType::Leaf(_) => 1,
            BVHNodeType::Internal(l, r) => {
                let a: usize = l.max_depth();
                let b: usize = r.max_depth();
                if a >= b {
                    a + 1
                } else {
                    b + 1
                }
            },
        }
    }
}

/// Which of twelve equal buckets a shape's transformed centroid falls in
/// along one axis of the enclosing box.
fn bucket_of(s: &Shape, dim: usize, min: i64, extent: i64) -> (r: usize)
    requires
        dim < 3,
    ensures
        r < 12,
{
    if extent <= 0 {
        return 0;
    }
    let inner: crate::bounds::BoundingBox = s.local_bounding_box();
    let centroid: crate::tuples::Tuple = inner.centroid();
    let c: crate::tuples::Tuple = s.local_to_parent_transform.mul_tuple(&centroid);
    let coord: i64 = if dim == 0 {
        c.x
    } else if dim == 1 {
        c.y
    } else {
        c.z
    };
    let rel: i64 = fx_div(fx_sub(coord, min), extent);
    let b: i64 = crate::fx::fx_floor(fx_mul(rel, 1_200_000));
    if b < 0 {
        0
    } else if b > 11 {
        11
    } else {
        b as usize
    }
}

/// One partition step: pushing the processed position onto either side
/// keeps the two sides' joint multiset equal to the processed prefix.
proof fn lemma_partition_step(
    left0: Seq<usize>,
    right0: Seq<usize>,
    idxs: Seq<usize>,
    k: int,
    left1: Seq<usize>,
    right1: Seq<usize>,
)
    requires
        0 <= k < idxs.len(),
        left0.to_multiset().add(right0.to_multiset()) == idxs.take(k).to_multiset(),
        left1 == left0.push(idxs[k]) && right1 == right0 || left1 == left0 && right1 == right0.push(
            idxs[k],
        ),
    ensures
        left1.to_multiset().add(right1.to_multiset()) == idxs.take(k + 1).to_multiset(),
{
    broadcast use vstd::multiset::group_multiset_axioms;

    assert(idxs.take(k + 1) =~= idxs.take(k).push(idxs[k]));
    vstd::seq_lib::to_multiset_build(idxs.take(k), idxs[k]);
    if left1 == left0.push(idxs[k]) && right1 == right0 {
        vstd::seq_lib::to_multiset_build(left0, idxs[k]);
        assert(left1.to_multiset().add(right1.to_multiset()) =~= idxs.take(
            k + 1,
        ).to_multiset());
    } else {
        vstd::seq_lib::to_multiset_build(right0, idxs[k]);
        assert(left1.to_multiset().add(right1.to_multiset()) =~= idxs.take(
            k + 1,
        ).to_multiset());
    }
}

/// A subtree never holds a negative number of positions.
pub proof fn lemma_node_count_nonneg(node: &BVHNode)
    ensures
        node_count(*node) >= 0,
    decreases *node,
{
    match node.ntype {
        BVHNodeType::Leaf(_) => {},
        BVHNodeType::Internal(l, r) => {
            lemma_node_count_nonneg(&*l);
            lemma_node_count_nonneg(&*r);
        },
    }
}

impl BVHNode {
    /// Builds a tree over the shapes at the given positions, by a
    /// surface-area cost heuristic: each axis is cut into twelve buckets of
    /// centroids, every split point is costed, and the best split recurses;
    /// small or unsplittable sets become leaves.  A split leaving either
    /// side empty is not taken, so both subtrees of an internal node are
    /// inhabited.
    pub fn build(bb: BoundingBox, shapes: &Vec<Shape>, idxs: Vec<usize>) -> (r: BVHNode)
        requires
            forall|i: int| 0 <= i < idxs@.len() ==> #[trigger] idxs@[i] < shapes@.len(),
        ensures
            r.bb == bb,
            node_valid(r, shapes@.len() as int),
            node_count(r) == idxs@.len(),
            node_positions(r).to_multiset() == idxs@.to_multiset(),
            idxs@.len() < 4 ==> r.ntype is Leaf,
            r.ntype matches BVHNodeType::Leaf(li) ==> li@ == idxs@,
            r.ntype matches BVHNodeType::Internal(l, rr) ==> node_count(*l) >= 1 && node_count(*rr)
                >= 1,
        decreases idxs@.len(),
    {
        let n: usize = idxs.len();
        if n < 4 {
            return BVHNode { bb, ntype: BVHNodeType::Leaf(idxs) };
        }
        let psa: i64 = bb.surface_area();
        // The no-split cost is the plain shape count.
        let mut mincost: i64 = crate::fx::fx_from_units(n as i64);
        let mut best: Option<(usize, usize)> = None;
        let mut dim: usize = 0;
        while dim < 3
            invariant
                dim <= 3,
                n == idxs@.len(),
                forall|i: int| 0 <= i < idxs@.len() ==> #[trigger] idxs@[i] < shapes@.len(),
                best matches Some(p) ==> p.0 < 3 && 1 <= p.1 < 12,
            decreases 3 - dim,
        {
            let (bmin, extent): (i64, i64) = {
                let lo: i64 = if dim == 0 {
                    bb.min.x
                } else if dim == 1 {
                    bb.min.y
                } else {
                    bb.min.z
                };
                let hi: i64 = if dim == 0 {
                    bb.max.x
                } else if dim == 1 {
                    bb.max.y
                } else {
                    bb.max.z
                };
                (lo, fx_sub(hi, lo))
            };
            // Bucket bounding boxes and counts along this axis.
            let mut bucket_bbs: Vec<crate::bounds::BoundingBox> = Vec::new();
            let mut bucket_counts: Vec<usize> = Vec::new();
            let mut ib: usize = 0;
            while ib < 12
                invariant
                    ib <= 12,
                    bucket_bbs@.len() == ib,
                    bucket_counts@.len() == ib,
                decreases 12 - ib,
            {
                bucket_bbs.push(crate::bounds::BoundingBox::new_empty());
                bucket_counts.push(0);
                ib = ib + 1;
            }
            let mut k: usize = 0;
            while k < n
                invariant
                    k <= n,
                    n == idxs@.len(),
                    forall|i: int| 0 <= i < idxs@.len() ==> #[trigger] idxs@[i] < shapes@.len(),
                    dim < 3,
                    bucket_bbs@.len() == 12,
                    bucket_counts@.len() == 12,
                decreases n - k,
            {
                let s: &Shape = &shapes[idxs[k]];
                let bidx: usize = bucket_of(s, dim, bmin, extent);
                let mut nbb: crate::bounds::BoundingBox = bucket_bbs[bidx];
                crate::shapes::include_transformed_shape(&mut nbb, s);
                bucket_bbs.set(bidx, nbb);
                let c: usize = bucket_counts[bidx];
                if c < usize::MAX {
                    bucket_counts.set(bidx, c + 1);
                }
                k = k + 1;
            }
            // Cost every split point between buckets.
            if psa > 0 {
                let mut split: usize = 1;
                while split < 12
                    invariant
                        1 <= split <= 12,
                        psa > 0,
                        dim < 3,
                        bucket_bbs@.len() == 12,
                        bucket_counts@.len() == 12,
                        best matches Some(p) ==> p.0 < 3 && 1 <= p.1 < 12,
                    decreases 12 - split,
                {
                    let mut lbb: crate::bounds::BoundingBox =
                        crate::bounds::BoundingBox::new_empty();
                    let mut rbb: crate::bounds::BoundingBox =
                        crate::bounds::BoundingBox::new_empty();
                    let mut lcount: usize = 0;
                    let mut rcount: usize = 0;
                    let mut bi: usize = 0;
                    while bi < 12
                        invariant
                            bi <= 12,
                            split < 12,
                            bucket_bbs@.len() == 12,
                            bucket_counts@.len() == 12,
                        decreases 12 - bi,
                    {
                        if bi < split {
                            lbb.include_bb(&bucket_bbs[bi]);
                            lcount = crate::mtg::add_cap(lcount, bucket_counts[bi]);
                        } else {
                            rbb.include_bb(&bucket_bbs[bi]);
                            rcount = crate::mtg::add_cap(rcount, bucket_counts[bi]);
                        }
                        bi = bi + 1;
                    }
                    let lterm: i64 = fx_mul(
                        crate::fx::fx_from_units(lcount as i64),
                        lbb.surface_area(),
                    );
                    let rterm: i64 = fx_mul(
                        crate::fx::fx_from_units(rcount as i64),
                        rbb.surface_area(),
                    );
                    // The relative traversal cost: an eighth of a unit.
                    let cost: i64 = crate::fx::fx_add(
                        12_500,
                        fx_div(crate::fx::fx_add(lterm, rterm), psa),
                    );
                    if cost < mincost {
                        mincost = cost;
                        best = Some((dim, split));
                    }
                    split = split + 1;
                }
            }
            dim = dim + 1;
        }
        match best {
            None => BVHNode { bb, ntype: BVHNodeType::Leaf(idxs) },
            Some((bdim, bsplit)) => {
                // Recompute the chosen axis's geometry and partition.
                let (bmin, extent): (i64, i64) = {
                    let lo: i64 = if bdim == 0 {
                        bb.min.x
                    } else if bdim == 1 {
                        bb.min.y
                    } else {
                        bb.min.z
                    };
                    let hi: i64 = if bdim == 0 {
                        bb.max.x
                    } else if bdim == 1 {
                        bb.max.y
                    } else {
                        bb.max.z
                    };
                    (lo, fx_sub(hi, lo))
                };
                let mut left: Vec<usize> = Vec::new();
                let mut right: Vec<usize> = Vec::new();
                let mut lbb: crate::bounds::BoundingBox = crate::bounds::BoundingBox::new_empty();
                let mut rbb: crate::bounds::BoundingBox = crate::bounds::BoundingBox::new_empty();
                proof {
                    broadcast use vstd::multiset::group_multiset_axioms;
                    broadcast use vstd::seq_lib::group_to_multiset_ensures;

                    assert(idxs@.take(0) =~= Seq::<usize>::empty());
                    assert(left@.to_multiset().add(right@.to_multiset()) =~= idxs@.take(
                        0,
                    ).to_multiset());
                }
                let mut k: usize = 0;
                while k < n
                    invariant
                        k <= n,
                        n == idxs@.len(),
                        forall|i: int| 0 <= i < idxs@.len() ==> #[trigger] idxs@[i] < shapes@.len(),
                        bdim < 3,
                        left@.len() + right@.len() == k,
                        left@.to_multiset().add(right@.to_multiset()) == idxs@.take(
                            k as int,
                        ).to_multiset(),
                        forall|i: int| 0 <= i < left@.len() ==> #[trigger] left@[i] < shapes@.len(),
                        forall|i: int|
                            0 <= i < right@.len() ==> #[trigger] right@[i] < shapes@.len(),
                    decreases n - k,
                {
                    let idx: usize = idxs[k];
                    let s: &Shape = &shapes[idx];
                    let bidx: usize = bucket_of(s, bdim, bmin, extent);
                    let ghost left0 = left@;
                    let ghost right0 = right@;
                    if bidx < bsplit {
                        crate::shapes::include_transformed_shape(&mut lbb, s);
                        left.push(idx);
                    } else {
                        crate::shapes::include_transformed_shape(&mut rbb, s);
                        right.push(idx);
                    }
                    proof {
                        lemma_partition_step(left0, right0, idxs@, k as int, left@, right@);
                    }
                    k = k + 1;
                }
                if left.len() == 0 || right.len() == 0 {
                    // A degenerate split: all centroids on one side.
                    return BVHNode { bb, ntype: BVHNodeType::Leaf(idxs) };
                }
                proof {
                    assert(idxs@.take(n as int) =~= idxs@);
                }
                let ghost leftv = left@;
                let ghost rightv = right@;
                let lnode: BVHNode = BVHNode::build(lbb, shapes, left);
                let rnode: BVHNode = BVHNode::build(rbb, shapes, right);
                let out: BVHNode = BVHNode {
                    bb,
                    ntype: BVHNodeType::Internal(Box::new(lnode), Box::new(rnode)),
                };
                proof {
                    assert(node_positions(out) == node_positions(lnode) + node_positions(rnode));
                    vstd::seq_lib::lemma_multiset_commutative(
                        node_positions(lnode),
                        node_positions(rnode),
                    );
                    broadcast use vstd::multiset::group_multiset_axioms;

                    assert(node_positions(out).to_multiset() =~= idxs@.to_multiset());
                }
                out
            },
        }
    }
}

} // verus!
