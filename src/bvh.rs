//! The bounding-volume hierarchy: a binary tree of boxes over scene nodes.
use vstd::prelude::*;
use vstd::multiset::Multiset;
use std::sync::Arc;
use crate::bounds::BoundingBox;
use crate::materials::Material;
use crate::hittable::{all_mats, mat_ok, det, hit_ok, hit_spec, nearer, view_of, HitRecord, Hittable, HittableList};
use crate::interval::Interval;
use crate::ray::Ray;
use crate::rng::Rng;

verus! {

/// An inner node of the hierarchy: a box that covers both children. A node over one object
/// has that object as both children.
pub struct BoundNode {
    pub bounds: BoundingBox,
    pub left: Arc<Hittable>,
    pub right: Arc<Hittable>,
    /// How many objects the node holds below it.
    pub span: usize,
}

/// The start, on `axis`, of the box of a node: the key the hierarchy sorts by.
pub open spec fn key(h: Hittable, axis: int) -> int {
    h.bound_spec().intervals[axis].start@
}

/// The objects a node holds: its children when it holds one or two (one child aliased twice
/// counts once), else the objects of its two child nodes.
pub open spec fn leaves(n: BoundNode) -> Multiset<Arc<Hittable>>
    decreases n,
{
    if n.span == 1 {
        Multiset::singleton(n.left)
    } else if n.span == 2 {
        Multiset::singleton(n.left).insert(n.right)
    } else {
        match *n.left {
            Hittable::Node(l) => match *n.right {
                Hittable::Node(r) => leaves(l).add(leaves(r)),
                _ => Multiset::empty(),
            },
            _ => Multiset::empty(),
        }
    }
}

/// The nodes of `objects` in `[start, end)`, ordered by the start of their boxes on `axis`;
/// nodes with equal keys keep their order.
fn sorted_by_axis(objects: &Vec<Arc<Hittable>>, start: usize, end: usize, axis: usize) -> (r: Vec<
    Arc<Hittable>,
>)
    requires
        start <= end <= objects@.len(),
        axis < 3,
    ensures
        r@.len() == end - start,
        r@.to_multiset() == objects@.subrange(start as int, end as int).to_multiset(),
        forall|a: int, b: int| 0 <= a < b < r@.len() ==> key(*r@[a], axis as int) <= key(*r@[b], axis as int),
{
    let mut keys: Vec<i64> = Vec::new();
    let mut items: Vec<Arc<Hittable>> = Vec::new();
    let mut i: usize = start;
    assert(items@ =~= objects@.subrange(start as int, start as int));
    while i < end
        invariant
            start <= i <= end <= objects@.len(),
            axis < 3,
            keys@.len() == items@.len() == i - start,
            items@.to_multiset() == objects@.subrange(start as int, i as int).to_multiset(),
            forall|m: int| 0 <= m < keys@.len() ==> keys@[m] == key(*#[trigger] items@[m], axis as int),
            forall|a: int, b: int| 0 <= a < b < keys@.len() ==> keys@[a] <= keys@[b],
        decreases end - i,
    {
        let k = objects[i].bound().intervals[axis].start.value();
        let mut p: usize = 0;
        while p < keys.len() && keys[p] <= k
            invariant
                p <= keys@.len(),
                forall|m: int| 0 <= m < p ==> keys@[m] <= k,
            decreases keys@.len() - p,
        {
            p = p + 1;
        }
        let item = objects[i].clone();
        assert(item == objects@[i as int]);
        let ghost old_keys = keys@;
        let ghost old_items = items@;
        keys.insert(p, k);
        items.insert(p, item);
        proof {
            vstd::seq_lib::to_multiset_insert(old_items, p as int, item);
            vstd::seq_lib::to_multiset_build(objects@.subrange(start as int, i as int), objects@[i as int]);
            assert(objects@.subrange(start as int, i as int + 1) =~= objects@.subrange(start as int, i as int).push(objects@[i as int]));
            assert forall|m: int| 0 <= m < keys@.len() implies keys@[m] == key(*#[trigger] items@[m], axis as int) by {
                if m < p {
                    assert(keys@[m] == old_keys[m] && items@[m] == old_items[m]);
                } else if m > p {
                    assert(keys@[m] == old_keys[m - 1] && items@[m] == old_items[m - 1]);
                }
            }
            assert forall|a: int, b: int| 0 <= a < b < keys@.len() implies keys@[a] <= keys@[b] by {
                if b < p {
                    assert(keys@[a] == old_keys[a] && keys@[b] == old_keys[b]);
                } else if b == p {
                    assert(keys@[a] == old_keys[a]);
                } else if a < p {
                    assert(keys@[a] == old_keys[a] && keys@[b] == old_keys[b - 1]);
                } else if a == p {
                    assert(keys@[b] == old_keys[b - 1]);
                    assert(old_keys[p as int] > k);
                } else {
                    assert(keys@[a] == old_keys[a - 1] && keys@[b] == old_keys[b - 1]);
                }
            }
        }
        i = i + 1;
    }
    proof {
        assert forall|a: int, b: int| 0 <= a < b < items@.len() implies key(*items@[a], axis as int) <= key(*items@[b], axis as int) by {
            assert(keys@[a] == key(*items@[a], axis as int));
            assert(keys@[b] == key(*items@[b], axis as int));
        }
    }
    items
}

impl BoundNode {
    /// Whether the node's box covers the box of every object in `[start, end)`.
    pub open spec fn covers_range(self, objects: Seq<Arc<Hittable>>, start: int, end: int) -> bool {
        forall|i: int| start <= i < end ==> self.bounds.covers(#[trigger] objects[i].bound_spec())
    }

    /// The hierarchy over the objects in `range`, which must not be empty: its box covers them
    /// all and is split across the axis of greatest extent.
    pub fn from_objects(objects: &Vec<Arc<Hittable>>, range: std::ops::Range<usize>) -> (r: BoundNode)
        requires
            range.start < range.end <= objects@.len(),
        ensures
            r.covers_range(objects@, range.start as int, range.end as int),
            r.span == range.end - range.start,
            leaves(r) == objects@.subrange(range.start as int, range.end as int).to_multiset(),
        decreases range.end - range.start,
    {
        let start = range.start;
        let end = range.end;
        let mut bounds = BoundingBox::empty();
        let mut i: usize = start;
        while i < end
            invariant
                start <= i <= end <= objects@.len(),
                forall|k: int| start <= k < i ==> bounds.covers(#[trigger] objects@[k].bound_spec()),
            decreases end - i,
        {
            let b = objects[i].bound();
            let before = bounds;
            bounds = BoundingBox::from_boxes(bounds, b);
            assert forall|k: int| start <= k <= i implies bounds.covers(#[trigger] objects@[k].bound_spec()) by {
                if k < i {
                    assert forall|a: int| 0 <= a < 3 implies #[trigger] bounds.intervals[a].covers(
                        objects@[k].bound_spec().intervals[a],
                    ) by {
                        assert(bounds.intervals[a].covers(before.intervals[a]));
                        assert(before.intervals[a].covers(objects@[k].bound_spec().intervals[a]));
                    }
                }
            }
            i = i + 1;
        }
        let axis = bounds.longest_axis();
        let span = end - start;
        if span == 1 {
            let only = objects[start].clone();
            proof {
                assert(only == objects@[start as int]);
                vstd::seq_lib::to_multiset_build(Seq::<Arc<Hittable>>::empty(), only);
                vstd::seq_lib::to_multiset_len(Seq::<Arc<Hittable>>::empty());
                vstd::multiset::lemma_multiset_empty_len(Seq::<Arc<Hittable>>::empty().to_multiset());
                assert(objects@.subrange(start as int, end as int) =~= Seq::<Arc<Hittable>>::empty().push(only));
                assert(Multiset::<Arc<Hittable>>::empty().insert(only) =~= Multiset::singleton(only));
            }
            let twin = only.clone();
            assert(twin == only);
            let r = BoundNode { bounds, left: twin, right: only, span: 1 };
            assert(leaves(r) == objects@.subrange(start as int, end as int).to_multiset());
            r
        } else if span == 2 {
            let first = objects[start].clone();
            let second = objects[start + 1].clone();
            proof {
                let e = Seq::<Arc<Hittable>>::empty();
                assert(first == objects@[start as int] && second == objects@[start + 1]);
                vstd::seq_lib::to_multiset_len(e);
                vstd::multiset::lemma_multiset_empty_len(e.to_multiset());
                vstd::seq_lib::to_multiset_build(e, first);
                vstd::seq_lib::to_multiset_build(e.push(first), second);
                assert(objects@.subrange(start as int, end as int) =~= e.push(first).push(second));
                assert(Multiset::<Arc<Hittable>>::empty().insert(first) =~= Multiset::singleton(first));
            }
            let r = BoundNode { bounds, left: first, right: second, span: 2 };
            assert(leaves(r) == objects@.subrange(start as int, end as int).to_multiset());
            r
        } else {
            let sorted = sorted_by_axis(objects, start, end, axis);
            let mid = span / 2;
            let left = BoundNode::from_objects(&sorted, 0..mid);
            let right = BoundNode::from_objects(&sorted, mid..span);
            proof {
                let s0 = sorted@.subrange(0, mid as int);
                let s1 = sorted@.subrange(mid as int, span as int);
                assert(sorted@ =~= s0 + s1);
                vstd::seq_lib::lemma_multiset_commutative(s0, s1);
            }
            let r = BoundNode {
                bounds,
                left: Arc::new(Hittable::Node(left)),
                right: Arc::new(Hittable::Node(right)),
                span,
            };
            assert(leaves(r) == leaves(left).add(leaves(right)));
            assert(leaves(r) == sorted@.to_multiset());
            r
        }
    }

    /// The hierarchy over every node of `list`, which must not be empty.
    pub fn from_list(list: HittableList) -> (r: BoundNode)
        requires
            list.objects@.len() > 0,
        ensures
            r.covers_range(list.objects@, 0, list.objects@.len() as int),
            leaves(r) == list.objects@.to_multiset(),
    {
        let len = list.objects.len();
        let r = BoundNode::from_objects(&list.objects, 0..len);
        assert(list.objects@.subrange(0, len as int) =~= list.objects@);
        r
    }

    pub fn bound(&self) -> (r: BoundingBox)
        ensures
            r == self.bounds,
    {
        self.bounds
    }

    /// Nothing when the ray misses the box; else the nearer of the two children's hits, each
    /// searched over the whole of `t`.
    pub fn hit(&self, ray: &Ray, t: Interval, rng: &mut Rng) -> (r: Option<HitRecord>)
        ensures
            hit_ok(*ray, t, r),
            !crate::bounds::slab_spec(self.bounds, ray.origin@, ray.direction@, t.start@, t.end@, 0)
                ==> r is None,
            forall|p: spec_fn(Material) -> bool|
                #[trigger] all_mats(*self.left, p) && all_mats(*self.right, p) ==> mat_ok(r, p),
            det(*self.left) && det(*self.right) && crate::bounds::slab_spec(
                self.bounds,
                ray.origin@,
                ray.direction@,
                t.start@,
                t.end@,
                0,
            ) ==> view_of(r) == nearer(
                hit_spec(*self.left, ray.origin@, ray.direction@, t.start@, t.end@),
                hit_spec(*self.right, ray.origin@, ray.direction@, t.start@, t.end@),
            ),
        decreases self,
    {
        if !self.bounds.hit(ray, t) {
            return None;
        }
        let a = self.left.hit(ray, t, rng);
        let b = self.right.hit(ray, t, rng);
        match (a, b) {
            (Some(a), Some(b)) => {
                if a.t.lt(b.t) {
                    Some(a)
                } else {
                    Some(b)
                }
            },
            (Some(a), None) => Some(a),
            (None, Some(b)) => Some(b),
            (None, None) => None,
        }
    }
}

} // verus!
