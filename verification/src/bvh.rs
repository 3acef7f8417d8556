//! The bounding-volume hierarchy: a binary tree of boxes over the objects of a
//! scene, built once and then searched for the closest hit of a ray.

use vstd::prelude::*;
use crate::hittable::{
    lemma_scan_is_nearest, nearer, pick_nearer, scan_admits, within, HitRecord,
};
use crate::math::scalar::Scalar;
use crate::math::aabb::{lemma_union_is_least, Aabb};
use crate::random::random_below;

verus! {

/// An object on its way into the tree: its index in the scene's list of
/// objects and its box.
#[derive(Clone, Copy, Debug)]
pub struct Entry {
    pub object: usize,
    pub aabb: Aabb,
}

/// A node of the hierarchy. A leaf names one object (`hittable`) and has no
/// children; an interior node names none and has two.
pub struct BvhNode {
    pub left: Option<Box<BvhNode>>,
    pub right: Option<Box<BvhNode>>,
    pub hittable: Option<usize>,
    pub aabb: Aabb,
}

/// The entries lie in non-decreasing order of their boxes' lower bound on `axis`.
pub open spec fn sorted_on(entries: Seq<Entry>, axis: int) -> bool {
    forall|i: int, j: int|
        0 <= i <= j < entries.len() ==> entries[i].aabb.min.component(axis).rank()
            <= entries[j].aabb.min.component(axis).rank()
}

/// Entries of equal key stand in `after` in the order they had in `before`.
#[verifier::opaque]
pub open spec fn keeps_ties(before: Seq<Entry>, after: Seq<Entry>, axis: int) -> bool {
    forall|i: int, j: int|
        0 <= i < j < after.len() && after[i].aabb.min.component(axis).rank()
            == after[j].aabb.min.component(axis).rank() ==> exists|p: int, q: int|
            0 <= p < q < before.len() && before[p] == after[i] && before[q] == after[j]
}

/// Whether some entry stands for object `i`.
pub open spec fn lists(entries: Seq<Entry>, i: usize) -> bool {
    exists|k: int| 0 <= k < entries.len() && (#[trigger] entries[k]).object == i
}

/// No two entries stand for the same object.
pub open spec fn distinct(entries: Seq<Entry>) -> bool {
    forall|j: int, k: int|
        0 <= j < k < entries.len() ==> (#[trigger] entries[j]).object != (
        #[trigger] entries[k]).object
}

/// Every entry names an object of `boxes` and carries that object's box.
pub open spec fn agrees(entries: Seq<Entry>, boxes: Seq<Aabb>) -> bool {
    forall|k: int|
        0 <= k < entries.len() ==> (#[trigger] entries[k]).object < boxes.len()
            && entries[k].aabb == boxes[entries[k].object as int]
}

/// `<[T]>::sort_by_key` of std on the whole vector, the key of an entry being
/// the rank of its box's lower bound on `axis`. As std documents the sort: the
/// entries are rearranged, none is lost or added; afterwards the keys do not
/// decrease; entries of equal key keep their order.
#[verifier::external_body]
fn sort_by_lower_bound(span: &mut Vec<Entry>, axis: usize)
    requires
        axis < 3,
    ensures
        final(span)@.to_multiset() == old(span)@.to_multiset(),
        sorted_on(final(span)@, axis as int),
        keeps_ties(old(span)@, final(span)@, axis as int),
{
    span.sort_by_key(|e| e.aabb.min.get(axis).key());
}

/// Sorts the span by the lower bound of the boxes on an axis drawn at random.
pub fn sort_span(span: &mut Vec<Entry>)
    ensures
        final(span)@.to_multiset() == old(span)@.to_multiset(),
        final(span)@.len() == old(span)@.len(),
        exists|axis: int|
            0 <= axis < 3 && #[trigger] sorted_on(final(span)@, axis) && keeps_ties(
                old(span)@,
                final(span)@,
                axis,
            ),
{
    let axis: usize = random_below(3);
    sort_by_lower_bound(span, axis);
    proof {
        span@.to_multiset_ensures();
        old(span)@.to_multiset_ensures();
    }
}

/// Rearranging entries changes neither which objects they stand for, nor
/// whether they carry the objects' boxes, nor whether an object has two entries.
pub proof fn lemma_rearranged(before: Seq<Entry>, after: Seq<Entry>, boxes: Seq<Aabb>)
    requires
        before.to_multiset() == after.to_multiset(),
    ensures
        forall|i: usize| lists(before, i) <==> lists(after, i),
        agrees(before, boxes) <==> agrees(after, boxes),
        distinct(before) ==> distinct(after),
{
    before.to_multiset_ensures();
    after.to_multiset_ensures();
    if distinct(before) {
        // No entry occurs twice before, so none occurs twice after; and two
        // different entries after are two different entries before.
        assert(before.no_duplicates());
        before.lemma_multiset_has_no_duplicates();
        after.lemma_multiset_has_no_duplicates_conv();
        assert forall|j: int, k: int| 0 <= j < k < after.len() implies (#[trigger] after[j]).object
            != (#[trigger] after[k]).object by {
            assert(before.to_multiset().count(after[j]) > 0);
            assert(before.to_multiset().count(after[k]) > 0);
            let p = choose|p: int| 0 <= p < before.len() && before[p] == after[j];
            let q = choose|q: int| 0 <= q < before.len() && before[q] == after[k];
            assert(p != q);
        }
    }
    assert forall|k: int| 0 <= k < before.len() implies after.contains(#[trigger] before[k]) by {
        assert(after.to_multiset().count(before[k]) > 0);
    }
    assert forall|k: int| 0 <= k < after.len() implies before.contains(#[trigger] after[k]) by {
        assert(before.to_multiset().count(after[k]) > 0);
    }
}

/// Cutting a list of entries in two neither loses nor adds an object, and
/// both parts carry the objects' boxes as the whole does.
pub proof fn lemma_cut_keeps(sorted: Seq<Entry>, mid: int, boxes: Seq<Aabb>)
    requires
        0 <= mid <= sorted.len(),
    ensures
        forall|i: usize|
            lists(sorted, i) <==> lists(sorted.subrange(0, mid), i) || lists(
                sorted.subrange(mid, sorted.len() as int),
                i,
            ),
        agrees(sorted, boxes) ==> agrees(sorted.subrange(0, mid), boxes) && agrees(
            sorted.subrange(mid, sorted.len() as int),
            boxes,
        ),
        distinct(sorted) ==> {
            &&& distinct(sorted.subrange(0, mid))
            &&& distinct(sorted.subrange(mid, sorted.len() as int))
            &&& forall|i: usize|
                !(lists(sorted.subrange(0, mid), i) && lists(
                    sorted.subrange(mid, sorted.len() as int),
                    i,
                ))
        },
{
    let lower = sorted.subrange(0, mid);
    let upper = sorted.subrange(mid, sorted.len() as int);
    if distinct(sorted) {
        assert forall|j: int, k: int| 0 <= j < k < lower.len() implies (#[trigger] lower[j]).object
            != (#[trigger] lower[k]).object by {
            assert(lower[j] == sorted[j] && lower[k] == sorted[k]);
        }
        assert forall|j: int, k: int| 0 <= j < k < upper.len() implies (#[trigger] upper[j]).object
            != (#[trigger] upper[k]).object by {
            assert(upper[j] == sorted[mid + j] && upper[k] == sorted[mid + k]);
        }
        assert forall|i: usize| !(lists(lower, i) && lists(upper, i)) by {
            if lists(lower, i) && lists(upper, i) {
                let j = choose|j: int| 0 <= j < lower.len() && (#[trigger] lower[j]).object == i;
                let k = choose|k: int| 0 <= k < upper.len() && (#[trigger] upper[k]).object == i;
                assert(lower[j] == sorted[j] && upper[k] == sorted[mid + k]);
            }
        }
    }
    assert forall|i: usize| lists(sorted, i) implies lists(lower, i) || lists(upper, i) by {
        let k = choose|k: int| 0 <= k < sorted.len() && (#[trigger] sorted[k]).object == i;
        if k < mid {
            assert(lower[k] == sorted[k]);
        } else {
            assert(upper[k - mid] == sorted[k]);
        }
    }
    assert forall|i: usize| lists(lower, i) implies lists(sorted, i) by {
        let k = choose|k: int| 0 <= k < lower.len() && (#[trigger] lower[k]).object == i;
        assert(sorted[k] == lower[k]);
    }
    assert forall|i: usize| lists(upper, i) implies lists(sorted, i) by {
        let k = choose|k: int| 0 <= k < upper.len() && (#[trigger] upper[k]).object == i;
        assert(sorted[mid + k] == upper[k]);
    }
    if agrees(sorted, boxes) {
        assert forall|k: int| 0 <= k < lower.len() implies (#[trigger] lower[k]).object
            < boxes.len() && lower[k].aabb == boxes[lower[k].object as int] by {
            assert(lower[k] == sorted[k]);
        }
        assert forall|k: int| 0 <= k < upper.len() implies (#[trigger] upper[k]).object
            < boxes.len() && upper[k].aabb == boxes[upper[k].object as int] by {
            assert(upper[k] == sorted[mid + k]);
        }
    }
}

/// Where sorted entries are cut in two, no object of the first part has its
/// box's lower bound on the axis of the order above that of an object of the
/// second part.
pub proof fn lemma_cut_divides(sorted: Seq<Entry>, mid: int, boxes: Seq<Aabb>, axis: int)
    requires
        0 <= mid <= sorted.len(),
        sorted_on(sorted, axis),
        agrees(sorted, boxes),
    ensures
        forall|a: usize, b: usize|
            #![trigger
                lists(sorted.subrange(0, mid), a),
                lists(sorted.subrange(mid, sorted.len() as int), b)
            ]
            lists(sorted.subrange(0, mid), a) && lists(
                sorted.subrange(mid, sorted.len() as int),
                b,
            ) ==> boxes[a as int].min.component(axis).rank() <= boxes[b as int].min.component(
                axis,
            ).rank(),
{
    let lower = sorted.subrange(0, mid);
    let upper = sorted.subrange(mid, sorted.len() as int);
    assert forall|a: usize, b: usize|
        #![trigger lists(lower, a), lists(upper, b)]
        lists(lower, a) && lists(upper, b) implies boxes[a as int].min.component(axis).rank()
        <= boxes[b as int].min.component(axis).rank() by {
        let ka = choose|k: int| 0 <= k < lower.len() && (#[trigger] lower[k]).object == a;
        let kb = choose|k: int| 0 <= k < upper.len() && (#[trigger] upper[k]).object == b;
        assert(lower[ka] == sorted[ka] && upper[kb] == sorted[mid + kb]);
    }
}

/// On `axis` the lower bound of every object's box below `l` is at most that
/// of every object's box below `r`.
pub open spec fn divides(l: BvhNode, r: BvhNode, boxes: Seq<Aabb>, axis: int) -> bool {
    forall|a: usize, b: usize|
        #![trigger l.holds(a), r.holds(b)]
        l.holds(a) && r.holds(b) && a < boxes.len() && b < boxes.len() ==> boxes[a as int].min
            .component(axis).rank() <= boxes[b as int].min.component(axis).rank()
}

/// What a box test can answer: `box_testing(test)(b, x)` says that `test`,
/// asked for the box `b`, may give `x`.
pub open spec fn box_testing<B: Fn(Aabb) -> bool>(test: B) -> spec_fn(Aabb, bool) -> bool {
    |b: Aabb, x: bool| call_ensures(test, (b,), x)
}

/// What an intersection can answer: `object_hitting(hit)(i, h)` says that
/// `hit`, asked for object `i`, may give `h`.
pub open spec fn object_hitting<H: Fn(usize) -> Option<HitRecord>>(hit: H) -> spec_fn(
    usize,
    Option<HitRecord>,
) -> bool {
    |i: usize, h: Option<HitRecord>| call_ensures(hit, (i,), h)
}

impl BvhNode {
    /// The number of objects at the leaves below this node.
    pub open spec fn count(&self) -> nat
        decreases self,
    {
        (match self.left {
            Some(node) => node.count(),
            None => 0,
        }) + (match self.right {
            Some(node) => node.count(),
            None => 0,
        }) + (if self.hittable is Some {
            1nat
        } else {
            0nat
        })
    }

    /// Whether object `i` is at a leaf below this node.
    pub open spec fn holds(&self, i: usize) -> bool
        decreases self,
    {
        ||| self.hittable == Some(i)
        ||| match self.left {
            Some(node) => node.holds(i),
            None => false,
        }
        ||| match self.right {
            Some(node) => node.holds(i),
            None => false,
        }
    }

    /// Whether `b` is the box of this node or of a node below it.
    pub open spec fn has_box(&self, b: Aabb) -> bool
        decreases self,
    {
        ||| self.aabb == b
        ||| match self.left {
            Some(node) => node.has_box(b),
            None => false,
        }
        ||| match self.right {
            Some(node) => node.has_box(b),
            None => false,
        }
    }

    /// The shape of the tree: every node is a leaf with one object, or has two
    /// children and the union of their boxes as its box.
    pub open spec fn wf(&self) -> bool
        decreases self,
    {
        if self.hittable is Some {
            self.left is None && self.right is None
        } else {
            match (self.left, self.right) {
                (Some(l), Some(r)) => l.wf() && r.wf() && self.aabb == Aabb::union(l.aabb, r.aabb),
                _ => false,
            }
        }
    }

    /// Every leaf names an object of `boxes` and has that object's box as its own.
    pub open spec fn fits(&self, boxes: Seq<Aabb>) -> bool
        decreases self,
    {
        &&& match self.hittable {
            Some(i) => i < boxes.len() && self.aabb == boxes[i as int],
            None => true,
        }
        &&& match self.left {
            Some(node) => node.fits(boxes),
            None => true,
        }
        &&& match self.right {
            Some(node) => node.fits(boxes),
            None => true,
        }
    }

    /// Below every interior node the left child has half of the objects,
    /// rounded down, and the right child has the others.
    pub open spec fn balanced(&self) -> bool
        decreases self,
    {
        match (self.left, self.right) {
            (Some(l), Some(r)) => l.count() == self.count() / 2 && l.balanced() && r.balanced(),
            _ => true,
        }
    }

    /// No object lies below both children of a node: with `holds`, each
    /// object of the tree is at one leaf and no other.
    pub open spec fn separate(&self) -> bool
        decreases self,
    {
        match (self.left, self.right) {
            (Some(l), Some(r)) => {
                &&& l.separate()
                &&& r.separate()
                &&& forall|i: usize| !(l.holds(i) && r.holds(i))
            },
            _ => true,
        }
    }

    /// The number of steps from the node down to its deepest leaf.
    pub open spec fn height(&self) -> nat
        decreases self,
    {
        let l = match self.left {
            Some(node) => 1 + node.height(),
            None => 0,
        };
        let r = match self.right {
            Some(node) => 1 + node.height(),
            None => 0,
        };
        if l >= r {
            l
        } else {
            r
        }
    }

    /// Below every interior node there is an axis on which no object of the
    /// left child has its box's lower bound above that of an object of the
    /// right child: the node's objects were cut in the middle of their order on
    /// that axis.
    pub open spec fn ordered(&self, boxes: Seq<Aabb>) -> bool
        decreases self,
    {
        match (self.left, self.right) {
            (Some(l), Some(r)) => {
                &&& l.ordered(boxes)
                &&& r.ordered(boxes)
                &&& exists|axis: int| 0 <= axis < 3 && #[trigger] divides(*l, *r, boxes, axis)
            },
            _ => true,
        }
    }

    /// The tree over all the objects of a scene, `boxes[i]` being the box of
    /// object `i`. There must be an object.
    pub fn from_list(boxes: &Vec<Aabb>) -> (node: BvhNode)
        requires
            boxes@.len() > 0,
        ensures
            node.wf(),
            node.fits(boxes@),
            node.balanced(),
            node.separate(),
            node.ordered(boxes@),
            node.count() == boxes@.len(),
            forall|i: usize| node.holds(i) <==> i < boxes@.len(),
    {
        Self::new(boxes, 0, boxes.len())
    }

    /// The tree over the objects `start..end`, which must be at least one.
    pub fn new(boxes: &Vec<Aabb>, start: usize, end: usize) -> (node: BvhNode)
        requires
            start < end <= boxes@.len(),
        ensures
            node.wf(),
            node.fits(boxes@),
            node.balanced(),
            node.separate(),
            node.ordered(boxes@),
            node.count() == end - start,
            forall|i: usize| node.holds(i) <==> start <= i < end,
    {
        let mut entries: Vec<Entry> = Vec::new();
        let mut i: usize = start;
        while i < end
            invariant
                start <= i <= end <= boxes@.len(),
                entries@.len() == i - start,
                forall|k: int|
                    0 <= k < entries@.len() ==> (#[trigger] entries@[k]).object == start + k
                        && entries@[k].aabb == boxes@[start + k],
            decreases end - i,
        {
            entries.push(Entry { object: i, aabb: boxes[i] });
            i = i + 1;
        }
        let node = Self::new_impl(entries, Ghost(boxes@));
        proof {
            assert forall|i: usize| start <= i < end implies lists(entries@, i) by {
                assert(entries@[i - start].object == i);
            }
        }
        node
    }

    fn leaf(entry: Entry) -> (node: BvhNode)
        ensures
            node.hittable == Some(entry.object),
            node.left is None,
            node.right is None,
            node.aabb == entry.aabb,
    {
        BvhNode { left: None, right: None, hittable: Some(entry.object), aabb: entry.aabb }
    }

    /// Builds the tree over `entries`: one entry makes a leaf; two make two
    /// leaves under one node; more are sorted on a random axis and split in the
    /// middle, each half giving one child.
    fn new_impl(entries: Vec<Entry>, Ghost(boxes): Ghost<Seq<Aabb>>) -> (node: BvhNode)
        requires
            entries@.len() > 0,
            agrees(entries@, boxes),
            distinct(entries@),
        ensures
            node.wf(),
            node.fits(boxes),
            node.balanced(),
            node.separate(),
            node.ordered(boxes),
            node.count() == entries@.len(),
            forall|i: usize| node.holds(i) <==> lists(entries@, i),
        decreases entries@.len(),
    {
        let object_span: usize = entries.len();
        if object_span == 1 {
            return Self::leaf(entries[0]);
        }
        let mut entries = entries;
        let ghost given = entries@;
        sort_span(&mut entries);
        let ghost sorted = entries@;
        let ghost axis = choose|axis: int| 0 <= axis < 3 && #[trigger] sorted_on(sorted, axis);
        let ghost mid = (object_span / 2) as int;
        let ghost lower = sorted.subrange(0, mid);
        let ghost upper = sorted.subrange(mid, sorted.len() as int);
        proof {
            lemma_rearranged(given, sorted, boxes);
            lemma_cut_keeps(sorted, mid, boxes);
            lemma_cut_divides(sorted, mid, boxes, axis);
        }
        let left: BvhNode;
        let right: BvhNode;
        if object_span == 2 {
            left = Self::leaf(entries[0]);
            right = Self::leaf(entries[1]);
            proof {
                assert(lower[0] == sorted[0] && upper[0] == sorted[1]);
            }
        } else {
            let above: Vec<Entry> = entries.split_off(object_span / 2);
            left = Self::new_impl(entries, Ghost(boxes));
            right = Self::new_impl(above, Ghost(boxes));
        }
        Self::join(left, right, Ghost(boxes), Ghost(axis))
    }

    /// The interior node over two subtrees.
    fn join(
        left: BvhNode,
        right: BvhNode,
        Ghost(boxes): Ghost<Seq<Aabb>>,
        Ghost(axis): Ghost<int>,
    ) -> (node: BvhNode)
        requires
            left.wf() && left.fits(boxes) && left.balanced() && left.ordered(boxes),
            right.wf() && right.fits(boxes) && right.balanced() && right.ordered(boxes),
            left.separate() && right.separate(),
            forall|i: usize| !(left.holds(i) && right.holds(i)),
            left.count() == (left.count() + right.count()) / 2,
            0 <= axis < 3,
            divides(left, right, boxes, axis),
        ensures
            node.wf(),
            node.fits(boxes),
            node.balanced(),
            node.separate(),
            node.ordered(boxes),
            node.count() == left.count() + right.count(),
            forall|i: usize| node.holds(i) <==> left.holds(i) || right.holds(i),
    {
        let aabb = Aabb::surrounding_box(&left.aabb, &right.aabb);
        let node = BvhNode {
            left: Some(Box::new(left)),
            right: Some(Box::new(right)),
            hittable: None,
            aabb,
        };
        proof {
            assert(divides(*node.left.unwrap(), *node.right.unwrap(), boxes, axis));
        }
        node
    }

    pub fn left(&self) -> (node: &Option<Box<BvhNode>>)
        ensures
            node == &self.left,
    {
        &self.left
    }

    pub fn right(&self) -> (node: &Option<Box<BvhNode>>)
        ensures
            node == &self.right,
    {
        &self.right
    }

    /// The number of objects below the node.
    pub fn len(&self) -> (n: usize)
        requires
            self.count() <= usize::MAX,
        ensures
            n == self.count(),
        decreases self,
    {
        let left: usize = match &self.left {
            Some(node) => node.len(),
            None => 0,
        };
        let right: usize = match &self.right {
            Some(node) => node.len(),
            None => 0,
        };
        left + right + if self.hittable.is_some() {
            1
        } else {
            0
        }
    }

    /// What one node contributes to a search: `inside` is the answer of the box
    /// test on the node's box, `l` and `r` are what the children report, and
    /// `out` is what the node reports. A node whose box is missed reports
    /// nothing; a leaf reports what its object answers; an interior node
    /// reports the nearer of its children's hits.
    pub open spec fn step(
        &self,
        boxes: spec_fn(Aabb, bool) -> bool,
        objects: spec_fn(usize, Option<HitRecord>) -> bool,
        inside: bool,
        l: Option<HitRecord>,
        r: Option<HitRecord>,
        out: Option<HitRecord>,
    ) -> bool {
        &&& boxes(self.aabb, inside)
        &&& if !inside {
            out is None
        } else {
            match self.hittable {
                Some(i) => objects(i, out),
                None => out == nearer(l, r),
            }
        }
    }

    /// Whether the search below this node can report `out`, where
    /// `boxes(b, x)` says that the box test may answer `x` for the box `b` and
    /// `objects(i, h)` that object `i` may answer `h`.
    pub open spec fn admits(
        &self,
        boxes: spec_fn(Aabb, bool) -> bool,
        objects: spec_fn(usize, Option<HitRecord>) -> bool,
        out: Option<HitRecord>,
    ) -> bool
        decreases self,
    {
        exists|inside: bool, l: Option<HitRecord>, r: Option<HitRecord>|
            {
                &&& #[trigger] self.step(boxes, objects, inside, l, r, out)
                &&& inside && self.hittable is None ==> {
                    &&& match self.left {
                        Some(node) => node.admits(boxes, objects, l),
                        None => l is None,
                    }
                    &&& match self.right {
                        Some(node) => node.admits(boxes, objects, r),
                        None => r is None,
                    }
                }
            }
    }

    /// The closest hit of a ray among the objects below the node.
    ///
    /// `box_test` is the ray's slab test on a box and `object_hit` the ray's
    /// intersection with an object, both on the same parameter interval. A
    /// subtree whose box the ray misses is not searched; both children of a node
    /// are searched on the whole interval, so that the nearer hit is found
    /// whichever child holds it.
    pub fn hit<B: Fn(Aabb) -> bool, H: Fn(usize) -> Option<HitRecord>>(
        &self,
        box_test: &B,
        object_hit: &H,
    ) -> (out: Option<HitRecord>)
        requires
            forall|b: Aabb| self.has_box(b) ==> call_requires(*box_test, (b,)),
            forall|i: usize| self.holds(i) ==> call_requires(*object_hit, (i,)),
        ensures
            self.admits(box_testing(*box_test), object_hitting(*object_hit), out),
        decreases self,
    {
        proof {
            assert(self.has_box(self.aabb));
        }
        let inside = box_test(self.aabb);
        if !inside {
            proof {
                assert(self.step(
                    box_testing(*box_test),
                    object_hitting(*object_hit),
                    inside,
                    None,
                    None,
                    None,
                ));
            }
            return None;
        }
        if let Some(i) = self.hittable {
            proof {
                assert(self.holds(i));
            }
            let out = object_hit(i);
            proof {
                assert(self.step(
                    box_testing(*box_test),
                    object_hitting(*object_hit),
                    inside,
                    None,
                    None,
                    out,
                ));
            }
            return out;
        }
        proof {
            if self.left is Some {
                let left = self.left.unwrap();
                assert forall|b: Aabb| left.has_box(b) implies self.has_box(b) by {}
                assert forall|i: usize| left.holds(i) implies self.holds(i) by {}
            }
            if self.right is Some {
                let right = self.right.unwrap();
                assert forall|b: Aabb| right.has_box(b) implies self.has_box(b) by {}
                assert forall|i: usize| right.holds(i) implies self.holds(i) by {}
            }
        }
        let hit_left = match &self.left {
            Some(left) => left.hit(box_test, object_hit),
            None => None,
        };
        let hit_right = match &self.right {
            Some(right) => right.hit(box_test, object_hit),
            None => None,
        };
        let out = pick_nearer(hit_left, hit_right);
        proof {
            assert(self.step(
                box_testing(*box_test),
                object_hitting(*object_hit),
                inside,
                hit_left,
                hit_right,
                out,
            ));
        }
        out
    }

    /// The cached box of the node: there always is one.
    pub fn bounding_box(&self) -> (b: Option<Aabb>)
        ensures
            b == Some(self.aabb),
    {
        Some(self.aabb)
    }
}

/// Two to the power of `h`.
pub open spec fn two_to(h: nat) -> nat
    decreases h,
{
    if h == 0 {
        1
    } else {
        2 * two_to((h - 1) as nat)
    }
}

/// A balanced tree is as shallow as a binary tree over its objects can be:
/// with `n` objects no leaf lies deeper than the logarithm of `n` to base 2,
/// rounded up.
pub proof fn lemma_balanced_is_shallow(node: BvhNode)
    requires
        node.wf(),
        node.balanced(),
    ensures
        node.count() >= 1,
        two_to(node.height()) < 2 * node.count(),
    decreases node,
{
    if node.hittable is None {
        let l = *node.left.unwrap();
        let r = *node.right.unwrap();
        lemma_balanced_is_shallow(l);
        lemma_balanced_is_shallow(r);
        // The left child has half of the objects, rounded down. Where their
        // number is odd, two to the right child's height is at most that
        // number and, being 1 or even, below it.
        assert(two_to(r.height()) < node.count());
    }
}

/// Whether `out` is the closest of the hits that `raw` gives for the objects
/// below `node`: none where no object is hit, otherwise the hit of one of
/// them, with no other hit before it.
pub open spec fn nearest_below(
    node: BvhNode,
    raw: spec_fn(usize) -> Option<HitRecord>,
    out: Option<HitRecord>,
) -> bool {
    match out {
        None => forall|i: usize| node.holds(i) ==> raw(i) is None,
        Some(rec) => {
            &&& exists|i: usize| node.holds(i) && raw(i) == out
            &&& forall|j: usize|
                node.holds(j) && raw(j) is Some ==> rec.t.at_most(raw(j).unwrap().t)
        },
    }
}

/// In a well-formed tree over well-formed boxes every node's box is
/// well-formed and holds the box of every object below the node.
pub proof fn lemma_node_box(node: BvhNode, boxes: Seq<Aabb>)
    requires
        node.wf(),
        node.fits(boxes),
        forall|k: int| 0 <= k < boxes.len() ==> (#[trigger] boxes[k]).wf(),
    ensures
        node.aabb.wf(),
        forall|i: usize|
            #[trigger] node.holds(i) ==> i < boxes.len() && node.aabb.encloses(boxes[i as int]),
    decreases node,
{
    if node.hittable is None {
        let l = *node.left.unwrap();
        let r = *node.right.unwrap();
        lemma_node_box(l, boxes);
        lemma_node_box(r, boxes);
        lemma_union_is_least(l.aabb, r.aabb, node.aabb);
        assert forall|i: usize| #[trigger] node.holds(i) implies i < boxes.len()
            && node.aabb.encloses(boxes[i as int]) by {
            assert(l.holds(i) || r.holds(i));
        }
    }
}

/// The search of the tree reports the closest hit of all the objects below
/// it: whatever the shape of the tree, and although subtrees are skipped.
///
/// It is asked that the objects answer as `raw` says, with parameters that
/// are no NaN, and that the box test accepts every box that holds the box of
/// an object that the ray hits.
pub proof fn lemma_hit_is_nearest(
    node: BvhNode,
    boxes: Seq<Aabb>,
    tests: spec_fn(Aabb, bool) -> bool,
    objects: spec_fn(usize, Option<HitRecord>) -> bool,
    raw: spec_fn(usize) -> Option<HitRecord>,
    out: Option<HitRecord>,
)
    requires
        node.wf(),
        node.fits(boxes),
        forall|k: int| 0 <= k < boxes.len() ==> (#[trigger] boxes[k]).wf(),
        node.admits(tests, objects, out),
        forall|i: usize, x: Option<HitRecord>|
            node.holds(i) && #[trigger] objects(i, x) ==> x == raw(i),
        forall|i: usize| node.holds(i) && raw(i) is Some ==> !(#[trigger] raw(i)).unwrap().t.nan(),
        forall|b: Aabb, i: usize, x: bool|
            #![trigger tests(b, x), raw(i)]
            node.holds(i) && raw(i) is Some && b.encloses(boxes[i as int]) && tests(b, x) ==> x,
    ensures
        nearest_below(node, raw, out),
    decreases node,
{
    let (inside, l, r) = choose|inside: bool, l: Option<HitRecord>, r: Option<HitRecord>|
        {
            &&& #[trigger] node.step(tests, objects, inside, l, r, out)
            &&& inside && node.hittable is None ==> {
                &&& match node.left {
                    Some(sub) => sub.admits(tests, objects, l),
                    None => l is None,
                }
                &&& match node.right {
                    Some(sub) => sub.admits(tests, objects, r),
                    None => r is None,
                }
            }
        };
    lemma_node_box(node, boxes);
    if inside && node.hittable is None {
        let left = *node.left.unwrap();
        let right = *node.right.unwrap();
        assert forall|i: usize| node.holds(i) <==> left.holds(i) || right.holds(i) by {}
        lemma_hit_is_nearest(left, boxes, tests, objects, raw, l);
        lemma_hit_is_nearest(right, boxes, tests, objects, raw, r);
        if l is Some {
            let i = choose|i: usize| left.holds(i) && raw(i) == l;
            assert(node.holds(i));
        }
        if r is Some {
            let i = choose|i: usize| right.holds(i) && raw(i) == r;
            assert(node.holds(i));
        }
    }
}

/// The search of the tree and the scan of the list of the same objects report
/// hits at the same parameter, or both report none: the hierarchy changes how
/// fast the closest hit is found, not which one it is.
///
/// The objects answer as in the two laws above, and the tree holds exactly
/// the objects of the list.
pub proof fn lemma_search_agrees_with_scan(
    node: BvhNode,
    boxes: Seq<Aabb>,
    tests: spec_fn(Aabb, bool) -> bool,
    objects: spec_fn(usize, Option<HitRecord>) -> bool,
    t_max: Scalar,
    answers: spec_fn(usize, Scalar, Option<HitRecord>) -> bool,
    raw: spec_fn(usize) -> Option<HitRecord>,
    from_tree: Option<HitRecord>,
    from_scan: Option<HitRecord>,
)
    requires
        node.wf(),
        node.fits(boxes),
        forall|k: int| 0 <= k < boxes.len() ==> (#[trigger] boxes[k]).wf(),
        boxes.len() <= usize::MAX,
        forall|i: usize| node.holds(i) <==> i < boxes.len(),
        node.admits(tests, objects, from_tree),
        scan_admits(boxes.len(), t_max, answers, from_scan),
        !t_max.nan(),
        forall|i: usize, x: Option<HitRecord>|
            i < boxes.len() && #[trigger] objects(i, x) ==> x == raw(i),
        forall|i: usize, limit: Scalar, x: Option<HitRecord>|
            i < boxes.len() && #[trigger] answers(i, limit, x) ==> x == within(raw(i), limit),
        forall|i: usize|
            i < boxes.len() && raw(i) is Some ==> !(#[trigger] raw(i)).unwrap().t.nan() && raw(
                i,
            ).unwrap().t.at_most(t_max),
        forall|b: Aabb, i: usize, x: bool|
            #![trigger tests(b, x), raw(i)]
            i < boxes.len() && raw(i) is Some && b.encloses(boxes[i as int]) && tests(b, x) ==> x,
    ensures
        match (from_tree, from_scan) {
            (Some(a), Some(b)) => a.t.rank() == b.t.rank(),
            (None, None) => true,
            _ => false,
        },
{
    lemma_hit_is_nearest(node, boxes, tests, objects, raw, from_tree);
    lemma_scan_is_nearest(boxes.len(), t_max, answers, raw, from_scan);
    if from_scan is Some {
        let j = choose|j: usize| j < boxes.len() && #[trigger] raw(j) == from_scan;
        assert(node.holds(j));
    }
}

} // verus!
