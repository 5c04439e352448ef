//! Axis-aligned bounding boxes.
use vstd::prelude::*;
use crate::interval::Interval;
use crate::ray::Ray;
use crate::scalar::{clip, div_spec, mul_spec, Scalar, LIMIT, SCALE};
use crate::vec3::{comp, Point, Vec3};

verus! {

/// Least thickness of a box along any axis: `1e-4`.
pub const PAD: i64 = 100_000;

/// Whether an interval is ordered and at least `PAD` thick.
pub open spec fn padded_ok(iv: Interval) -> bool {
    iv.start@ <= iv.end@ && clip(iv.end@ - iv.start@) >= PAD
}

/// An interval widened by `PAD` on each side when it is thinner than `PAD`.
pub open spec fn pad_spec(iv: Interval) -> (int, int) {
    if clip(iv.end@ - iv.start@) < PAD {
        (clip(iv.start@ - PAD), clip(iv.end@ + PAD))
    } else {
        (iv.start@, iv.end@)
    }
}

/// Entry and exit parameters of a ray at the two planes of an axis.
pub open spec fn slab_times(lo: int, hi: int, o: int, d: int) -> (int, int) {
    let inv = div_spec(SCALE as int, d);
    let t0 = mul_spec(clip(lo - o), inv);
    let t1 = mul_spec(clip(hi - o), inv);
    if t0 <= t1 {
        (t0, t1)
    } else {
        (t1, t0)
    }
}

/// The slab test from axis `i` on, with the parameter window `[lo, hi]` narrowed so far. A ray
/// parallel to an axis passes that axis's slab when its origin lies between the two planes.
pub open spec fn slab_spec(b: BoundingBox, o: (int, int, int), d: (int, int, int), lo: int, hi: int, i: int) -> bool
    decreases 3 - i,
{
    if i >= 3 {
        true
    } else {
        let ax = b.intervals[i];
        let oi = comp(o, i);
        let di = comp(d, i);
        if di == 0 {
            ax.start@ <= oi <= ax.end@ && slab_spec(b, o, d, lo, hi, i + 1)
        } else {
            let ts = slab_times(ax.start@, ax.end@, oi, di);
            let nlo = if lo >= ts.0 { lo } else { ts.0 };
            let nhi = if hi <= ts.1 { hi } else { ts.1 };
            clip(nhi - nlo) > 0 && slab_spec(b, o, d, nlo, nhi, i + 1)
        }
    }
}

#[derive(Clone, Copy, Debug, PartialEq, Eq)]
pub struct BoundingBox {
    pub intervals: [Interval; 3],
}

/// An interval that is moved no closer to its middle, and is widened where thinner than `PAD`.
fn pad_interval(iv: Interval) -> (r: Interval)
    ensures
        (r.start@, r.end@) == pad_spec(iv),
{
    let delta = Scalar::from_raw(PAD);
    if iv.size().lt(delta) {
        iv.expand(delta)
    } else {
        iv
    }
}

impl BoundingBox {
    /// Whether this box reaches at least as far as `o` on every axis.
    pub open spec fn covers(self, o: BoundingBox) -> bool {
        forall|i: int| 0 <= i < 3 ==> #[trigger] self.intervals[i].covers(o.intervals[i])
    }

    pub open spec fn axis(self, i: int) -> Interval {
        self.intervals[i]
    }

    pub fn empty() -> (r: BoundingBox)
        ensures
            forall|i: int| 0 <= i < 3 ==> #[trigger] r.intervals[i].start@ == LIMIT && r.intervals[i].end@
                == -LIMIT,
    {
        BoundingBox { intervals: [Interval::empty(), Interval::empty(), Interval::empty()] }
    }

    /// The box with the given extents, each widened to at least `PAD`.
    pub fn new(x: Interval, y: Interval, z: Interval) -> (r: BoundingBox)
        ensures
            (r.intervals[0].start@, r.intervals[0].end@) == pad_spec(x),
            (r.intervals[1].start@, r.intervals[1].end@) == pad_spec(y),
            (r.intervals[2].start@, r.intervals[2].end@) == pad_spec(z),
            r.covers(BoundingBox { intervals: [x, y, z] }),
    {
        let r = BoundingBox { intervals: [pad_interval(x), pad_interval(y), pad_interval(z)] };
        assert(r.intervals[0].covers(x));
        assert(r.intervals[1].covers(y));
        assert(r.intervals[2].covers(z));
        r
    }

    /// The box spanned by two opposite corners.
    pub fn from_points(a: Point, b: Point) -> (r: BoundingBox)
        ensures
            r.intervals[0].has(a.0@) && r.intervals[0].has(b.0@),
            r.intervals[1].has(a.1@) && r.intervals[1].has(b.1@),
            r.intervals[2].has(a.2@) && r.intervals[2].has(b.2@),
            forall|i: int| 0 <= i < 3 ==> padded_ok(#[trigger] r.intervals[i]),
    {
        let x = Interval::new(a.x().min(b.x()), a.x().max(b.x()));
        let y = Interval::new(a.y().min(b.y()), a.y().max(b.y()));
        let z = Interval::new(a.z().min(b.z()), a.z().max(b.z()));
        BoundingBox::new(x, y, z)
    }

    /// The smallest padded box that covers both boxes.
    pub fn from_boxes(a: BoundingBox, b: BoundingBox) -> (r: BoundingBox)
        ensures
            r.covers(a),
            r.covers(b),
    {
        let x = Interval::from_pair(a.intervals[0], b.intervals[0]);
        let y = Interval::from_pair(a.intervals[1], b.intervals[1]);
        let z = Interval::from_pair(a.intervals[2], b.intervals[2]);
        BoundingBox::new(x, y, z)
    }

    /// The box moved by `offset`.
    pub fn shift(&self, offset: &Vec3) -> (r: BoundingBox)
        ensures
            r.intervals[0].start@ == clip(self.intervals[0].start@ + offset.0@),
            r.intervals[0].end@ == clip(self.intervals[0].end@ + offset.0@),
            r.intervals[1].start@ == clip(self.intervals[1].start@ + offset.1@),
            r.intervals[1].end@ == clip(self.intervals[1].end@ + offset.1@),
            r.intervals[2].start@ == clip(self.intervals[2].start@ + offset.2@),
            r.intervals[2].end@ == clip(self.intervals[2].end@ + offset.2@),
    {
        BoundingBox {
            intervals: [
                self.intervals[0].shift(offset.x()),
                self.intervals[1].shift(offset.y()),
                self.intervals[2].shift(offset.z()),
            ],
        }
    }

    /// The axis of greatest extent; ties go to the later axis.
    pub fn longest_axis(&self) -> (r: usize)
        ensures
            r < 3,
            ({
                let s0 = clip(self.intervals[0].end@ - self.intervals[0].start@);
                let s1 = clip(self.intervals[1].end@ - self.intervals[1].start@);
                let s2 = clip(self.intervals[2].end@ - self.intervals[2].start@);
                r == if s0 > s1 {
                    if s0 > s2 {
                        0usize
                    } else {
                        2usize
                    }
                } else if s1 > s2 {
                    1usize
                } else {
                    2usize
                }
            }),
    {
        let s0 = self.intervals[0].size();
        let s1 = self.intervals[1].size();
        let s2 = self.intervals[2].size();
        if s1.lt(s0) {
            if s2.lt(s0) {
                0
            } else {
                2
            }
        } else {
            if s2.lt(s1) {
                1
            } else {
                2
            }
        }
    }

    /// Slab test: whether the ray crosses the box for some parameter in `t`.
    pub fn hit(&self, ray: &Ray, t: Interval) -> (r: bool)
        ensures
            r == slab_spec(*self, ray.origin@, ray.direction@, t.start@, t.end@, 0),
    {
        let mut lo = t.start;
        let mut hi = t.end;
        let mut i: usize = 0;
        while i < 3
            invariant
                i <= 3,
                slab_spec(*self, ray.origin@, ray.direction@, t.start@, t.end@, 0) == slab_spec(
                    *self,
                    ray.origin@,
                    ray.direction@,
                    lo@,
                    hi@,
                    i as int,
                ),
            decreases 3 - i,
        {
            let ax = self.intervals[i];
            let d = ray.direction.index(i);
            let o = ray.origin.index(i);
            assert(d@ == comp(ray.direction@, i as int) && o@ == comp(ray.origin@, i as int));
            if d.value() == 0 {
                if !ax.contains(o) {
                    return false;
                }
                i = i + 1;
                continue;
            }
            let adinv = Scalar::one().div(d);
            let t0 = ax.start.sub(o).mul(adinv);
            let t1 = ax.end.sub(o).mul(adinv);
            let near = t0.min(t1);
            let far = t0.max(t1);
            lo = lo.max(near);
            hi = hi.min(far);
            if hi.sub(lo).le(Scalar::zero()) {
                return false;
            }
            i = i + 1;
        }
        true
    }
}

} // verus!
