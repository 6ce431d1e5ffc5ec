//! Axis-aligned bounding volumes of scene nodes.
//!
//! Coordinates are fixed-point integers in units chosen by the caller.

use std::ops::Range;
use vstd::prelude::*;

verus! {

/// The number of axes of a point.
pub const AXES: usize = 3;

/// The midpoint of `a` and `b`, rounded towards negative infinity.
pub open spec fn midpoint(a: int, b: int) -> int {
    (a + b) / 2
}

/// The smaller of two integers.
pub open spec fn min_int(a: int, b: int) -> int {
    if a <= b { a } else { b }
}

/// The larger of two integers.
pub open spec fn max_int(a: int, b: int) -> int {
    if a >= b { a } else { b }
}

/// The midpoint of two coordinates, rounded down.
fn midpoint_of(a: i32, b: i32) -> (r: i32)
    ensures
        r == midpoint(a as int, b as int),
{
    let sum: i64 = a as i64 + b as i64;
    if sum >= 0 {
        (sum / 2) as i32
    } else {
        let m: i64 = (-sum + 1) / 2;
        (-m) as i32
    }
}

/// An axis-aligned bound: `start` holds the least and `end` the greatest
/// coordinate seen on each axis.
#[derive(Clone, Copy, Debug, PartialEq, Eq)]
pub struct GltfNodeExtent {
    /// The beginning of this extent
    pub start: [i32; 3],
    /// The end of this extent
    pub end: [i32; 3],
}

impl Default for GltfNodeExtent {
    /// The empty extent: `start` at the largest and `end` at the smallest
    /// coordinate, so that the first range merged in replaces both.
    fn default() -> (r: Self)
        ensures
            r.is_empty_bound(),
    {
        GltfNodeExtent { start: [i32::MAX, i32::MAX, i32::MAX], end: [i32::MIN, i32::MIN, i32::MIN] }
    }
}

impl From<Range<[i32; 3]>> for GltfNodeExtent {
    /// The extent spanning exactly `range`.
    fn from(range: Range<[i32; 3]>) -> (r: Self) {
        GltfNodeExtent { start: range.start, end: range.end }
    }
}

impl vstd::std_specs::convert::FromSpecImpl<Range<[i32; 3]>> for GltfNodeExtent {
    open spec fn obeys_from_spec() -> bool {
        true
    }

    open spec fn from_spec(range: Range<[i32; 3]>) -> Self {
        GltfNodeExtent { start: range.start, end: range.end }
    }
}

impl GltfNodeExtent {
    /// The extent that no geometry has been merged into yet.
    pub open spec fn is_empty_bound(self) -> bool {
        &&& forall|i: int| 0 <= i < 3 ==> #[trigger] self.start[i] == i32::MAX
        &&& forall|i: int| 0 <= i < 3 ==> #[trigger] self.end[i] == i32::MIN
    }

    /// Every axis has `start <= end`.
    pub open spec fn spec_valid(self) -> bool {
        forall|i: int| 0 <= i < 3 ==> #[trigger] self.start[i] <= self.end[i]
    }

    /// `self` is `base` widened, axis by axis, to also cover the range from
    /// `start` to `end`.
    pub open spec fn is_extension_of(self, base: Self, start: [i32; 3], end: [i32; 3]) -> bool {
        &&& forall|i: int|
            0 <= i < 3 ==> #[trigger] self.start[i] == min_int(base.start[i] as int, start[i] as int)
        &&& forall|i: int|
            0 <= i < 3 ==> #[trigger] self.end[i] == max_int(base.end[i] as int, end[i] as int)
    }

    /// The centre of the bound on axis `i`, rounded down.
    pub open spec fn spec_centroid(self, i: int) -> int {
        midpoint(self.start[i] as int, self.end[i] as int)
    }

    /// The length of the bound on axis `i`.
    pub open spec fn spec_distance(self, i: int) -> int {
        self.end[i] - self.start[i]
    }

    /// The greatest length of the bound over the three axes.
    pub open spec fn spec_max_distance(self) -> int {
        max_int(max_int(self.spec_distance(0), self.spec_distance(1)), self.spec_distance(2))
    }

    fn extend_points(&mut self, start: &[i32; 3], end: &[i32; 3])
        ensures
            final(self).is_extension_of(*old(self), *start, *end),
    {
        let mut i: usize = 0;
        while i < AXES
            invariant
                i <= 3,
                forall|j: int|
                    0 <= j < i ==> #[trigger] self.start@[j] == min_int(
                        old(self).start@[j] as int,
                        start@[j] as int,
                    ),
                forall|j: int|
                    0 <= j < i ==> #[trigger] self.end@[j] == max_int(
                        old(self).end@[j] as int,
                        end@[j] as int,
                    ),
                forall|j: int| i <= j < 3 ==> #[trigger] self.start@[j] == old(self).start@[j],
                forall|j: int| i <= j < 3 ==> #[trigger] self.end@[j] == old(self).end@[j],
                self.start@.len() == 3,
                self.end@.len() == 3,
            decreases 3 - i,
        {
            if start[i] < self.start[i] {
                self.start[i] = start[i];
            }
            if end[i] > self.end[i] {
                self.end[i] = end[i];
            }
            i += 1;
        }
    }

    /// Extends this to include the input range.
    pub fn extend_range(&mut self, other: &Range<[i32; 3]>)
        ensures
            final(self).is_extension_of(*old(self), other.start, other.end),
    {
        self.extend_points(&other.start, &other.end);
    }

    /// Extends this to include the provided extent.
    pub fn extend(&mut self, other: &GltfNodeExtent)
        ensures
            final(self).is_extension_of(*old(self), other.start, other.end),
    {
        self.extend_points(&other.start, &other.end);
    }

    /// Returns the centroid of this extent, rounded down on each axis.
    pub fn centroid(&self) -> (r: [i32; 3])
        ensures
            forall|i: int| 0 <= i < 3 ==> #[trigger] r[i] == self.spec_centroid(i),
    {
        [
            midpoint_of(self.start[0], self.end[0]),
            midpoint_of(self.start[1], self.end[1]),
            midpoint_of(self.start[2], self.end[2]),
        ]
    }

    /// Returns the 3 dimensional distance between the start and end of this.
    pub fn distance(&self) -> (r: [i64; 3])
        ensures
            forall|i: int| 0 <= i < 3 ==> #[trigger] r[i] == self.spec_distance(i),
    {
        [
            self.end[0] as i64 - self.start[0] as i64,
            self.end[1] as i64 - self.start[1] as i64,
            self.end[2] as i64 - self.start[2] as i64,
        ]
    }

    /// Determines if this extent is valid.
    pub fn valid(&self) -> (r: bool)
        ensures
            r == self.spec_valid(),
    {
        let mut i: usize = 0;
        while i < AXES
            invariant
                i <= 3,
                forall|j: int| 0 <= j < i ==> #[trigger] self.start[j] <= self.end[j],
            decreases 3 - i,
        {
            if self.start[i] > self.end[i] {
                return false;
            }
            i += 1;
        }
        true
    }
}

/// Extending is commutative: `a` extended by `b` equals `b` extended by `a`.
pub proof fn lemma_extend_commutative(
    a: GltfNodeExtent,
    b: GltfNodeExtent,
    ab: GltfNodeExtent,
    ba: GltfNodeExtent,
)
    requires
        ab.is_extension_of(a, b.start, b.end),
        ba.is_extension_of(b, a.start, a.end),
    ensures
        ab == ba,
{
    assert(ab.start =~= ba.start);
    assert(ab.end =~= ba.end);
}

/// Extending is associative: extending by `b` and then by `c` gives the same
/// bound as extending by the extension of `b` by `c`.
pub proof fn lemma_extend_associative(
    a: GltfNodeExtent,
    b: GltfNodeExtent,
    c: GltfNodeExtent,
    ab: GltfNodeExtent,
    ab_c: GltfNodeExtent,
    bc: GltfNodeExtent,
    a_bc: GltfNodeExtent,
)
    requires
        ab.is_extension_of(a, b.start, b.end),
        ab_c.is_extension_of(ab, c.start, c.end),
        bc.is_extension_of(b, c.start, c.end),
        a_bc.is_extension_of(a, bc.start, bc.end),
    ensures
        ab_c == a_bc,
{
    assert(ab_c.start =~= a_bc.start);
    assert(ab_c.end =~= a_bc.end);
}

/// Extending by the empty extent leaves an extent unchanged.
pub proof fn lemma_extend_by_empty(a: GltfNodeExtent, empty: GltfNodeExtent, r: GltfNodeExtent)
    requires
        empty.is_empty_bound(),
        r.is_extension_of(a, empty.start, empty.end),
    ensures
        r == a,
{
    assert(r.start =~= a.start);
    assert(r.end =~= a.end);
}

/// Extending by a range that is already covered leaves an extent unchanged.
pub proof fn lemma_extend_by_covered(a: GltfNodeExtent, start: [i32; 3], end: [i32; 3], r: GltfNodeExtent)
    requires
        forall|i: int| 0 <= i < 3 ==> a.start[i] <= #[trigger] start[i],
        forall|i: int| 0 <= i < 3 ==> #[trigger] end[i] <= a.end[i],
        r.is_extension_of(a, start, end),
    ensures
        r == a,
{
    assert(r.start =~= a.start);
    assert(r.end =~= a.end);
}

/// The empty extent is not valid.
pub proof fn lemma_empty_is_invalid(empty: GltfNodeExtent)
    requires
        empty.is_empty_bound(),
    ensures
        !empty.spec_valid(),
{
    assert(empty.start[0] > empty.end[0]);
}

/// Extending any extent, the empty one included, by a range with
/// `start <= end` on every axis gives a valid extent.
pub proof fn lemma_extend_by_range_is_valid(
    a: GltfNodeExtent,
    start: [i32; 3],
    end: [i32; 3],
    r: GltfNodeExtent,
)
    requires
        forall|i: int| 0 <= i < 3 ==> #[trigger] start[i] <= end[i],
        r.is_extension_of(a, start, end),
    ensures
        r.spec_valid(),
{
    assert forall|i: int| 0 <= i < 3 implies #[trigger] r.start[i] <= r.end[i] by {
        assert(start[i] <= end[i]);
    }
}

} // verus!
