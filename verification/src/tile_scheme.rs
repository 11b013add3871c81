//! The tile-addressing scheme: an immutable description of a tiled world —
//! ordered zoom levels, tile pixel size, origin, envelope and vertical
//! direction — together with the two queries a tile renderer needs: which
//! zoom level serves a requested resolution, and which tile addresses cover
//! a bounding box at that level.
//!
//! The zoom levels live in a [`sorted_vec::SortedVec`] of `(resolution
//! units, z-index)` pairs, ascending, so the coarsest level (largest
//! resolution) sits at the end.  The level walk of [`TileSchema::select_level`]
//! goes from the coarsest level towards the finest and stops at the first
//! level that is at least as fine as requested, within a one-percent
//! tolerance; the spec function [`sel_from`] states that walk exactly.

use vstd::prelude::*;
use vstd::arithmetic::div_mod::{
    lemma_fundamental_div_mod_converse_div,
    lemma_fundamental_div_mod_converse_mod,
};
use crate::fx::{Fx, sat32, sat_to_i32, div_floor_i128, div_ceil_i128, lemma_pos_mul_bounds};
use crate::map::{Envelope, Point};
use crate::tile_layer::TileIndex;

verus! {

/// The contents of the level store, ascending: what the sorted vector
/// holds, as a sequence of `(resolution units, z-index)` pairs.
pub uninterp spec fn level_entries(s: sorted_vec::SortedVec<(i64, i32)>) -> Seq<(i64, i32)>;

#[verifier::external_type_specification]
#[verifier::external_body]
#[verifier::reject_recursive_types(T)]
pub struct ExSortedVec<T: Ord>(sorted_vec::SortedVec<T>);

/// Relies on `sorted_vec::SortedVec::from_unsorted`, which sorts the given
/// vector in place with `sort_unstable` and wraps it: the result holds the
/// same entries, ascending in std's lexicographic order on pairs.
#[verifier::external_body]
fn levels_from_unsorted(v: Vec<(i64, i32)>) -> (r: sorted_vec::SortedVec<(i64, i32)>)
    ensures
        level_entries(r).to_multiset() == v@.to_multiset(),
        level_entries(r).len() == v@.len(),
        levels_sorted(level_entries(r)),
{
    sorted_vec::SortedVec::from_unsorted(v)
}

/// Relies on `sorted_vec::SortedVec`'s `Deref` to the backing vector for
/// its length.
#[verifier::external_body]
fn levels_count(s: &sorted_vec::SortedVec<(i64, i32)>) -> (r: usize)
    ensures
        r == level_entries(*s).len(),
{
    s.len()
}

/// Relies on `sorted_vec::SortedVec`'s `Deref` to the backing vector for
/// indexing; the index is in range by the caller's obligation.
#[verifier::external_body]
fn level_at(s: &sorted_vec::SortedVec<(i64, i32)>, i: usize) -> (r: (i64, i32))
    requires
        i < level_entries(*s).len(),
    ensures
        r == level_entries(*s)[i as int],
{
    s[i]
}

/// Lexicographic order on `(resolution units, z-index)` pairs: the order in
/// which std sorts tuples.
pub open spec fn level_le(a: (i64, i32), b: (i64, i32)) -> bool {
    a.0 < b.0 || (a.0 == b.0 && a.1 <= b.1)
}

/// The entries ascend in lexicographic order.
pub open spec fn levels_sorted(s: Seq<(i64, i32)>) -> bool {
    forall|i: int, j: int| 0 <= i < j < s.len() ==> level_le(#[trigger] s[i], #[trigger] s[j])
}

/// The level walk, stated over the ascending entry sequence: starting at
/// position `j` and moving towards index 0 (finer to the walk is the other
/// way: `j` starts at the coarsest level), the first position whose
/// resolution is at least as fine as `r` within the one-percent tolerance;
/// position 0 — the finest level — if none is.
pub open spec fn sel_from(s: Seq<(i64, i32)>, r: int, j: int) -> int
    decreases j,
{
    if j <= 0 {
        0
    } else if 99 * s[j].0 < 100 * r {
        j
    } else {
        sel_from(s, r, j - 1)
    }
}

/// The position of the level that serves resolution `r`: the coarsest level
/// finer than `r` within tolerance, or the finest level if none is.
pub open spec fn sel_index(s: Seq<(i64, i32)>, r: int) -> int {
    sel_from(s, r, s.len() - 1)
}

/// The larger of two integers.
pub open spec fn imax(a: int, b: int) -> int {
    if a >= b {
        a
    } else {
        b
    }
}

/// The smaller of two integers.
pub open spec fn imin(a: int, b: int) -> int {
    if a <= b {
        a
    } else {
        b
    }
}

/// Ceiling division by a positive divisor.
pub open spec fn iceil(a: int, b: int) -> int {
    -((-a) / b)
}

/// The level walk never leaves the range walked so far.
proof fn lemma_sel_from_bounds(s: Seq<(i64, i32)>, r: int, j: int)
    requires
        0 <= j,
    ensures
        0 <= sel_from(s, r, j) <= j,
    decreases j,
{
    if j > 0 && !(99 * s[j].0 < 100 * r) {
        lemma_sel_from_bounds(s, r, j - 1);
    }
}

/// A finer request never makes the walk stop at a later (coarser, since the
/// walk runs down the ascending sequence from its top) position.
proof fn lemma_sel_from_monotone(s: Seq<(i64, i32)>, r1: int, r2: int, j: int)
    requires
        r1 <= r2,
        0 <= j,
    ensures
        sel_from(s, r1, j) <= sel_from(s, r2, j),
    decreases j,
{
    if j > 0 {
        if 99 * s[j].0 < 100 * r1 {
        } else if 99 * s[j].0 < 100 * r2 {
            lemma_sel_from_bounds(s, r1, j - 1);
        } else {
            lemma_sel_from_monotone(s, r1, r2, j - 1);
        }
    }
}

/// Monotonicity of level selection: over an ascending, nonempty level
/// sequence, the level chosen for a finer request is never coarser than the
/// level chosen for a coarser request — for requested resolutions
/// `r1 <= r2`, the resolution selected for `r1` is at most the resolution
/// selected for `r2`.
pub proof fn lemma_select_level_monotone(s: Seq<(i64, i32)>, r1: int, r2: int)
    requires
        levels_sorted(s),
        1 <= s.len(),
        r1 <= r2,
    ensures
        s[sel_index(s, r1)].0 <= s[sel_index(s, r2)].0,
{
    let i1 = sel_index(s, r1);
    let i2 = sel_index(s, r2);
    lemma_sel_from_monotone(s, r1, r2, s.len() - 1);
    lemma_sel_from_bounds(s, r1, s.len() - 1);
    lemma_sel_from_bounds(s, r2, s.len() - 1);
    if i1 < i2 {
        assert(level_le(s[i1], s[i2]));
    }
}

/// Out-of-bounds queries on an aligned scheme are empty, shown for the
/// column axis (the row axis is symmetric): when the bounding box misses
/// the envelope entirely on the left or the right, and the crossed
/// envelope bound lies on a tile boundary from the origin — true of every
/// scheme whose envelope the tiles partition, such as the default world
/// scheme and the test schemes — the clamped column range inverts, so
/// [`TileSchema::get_indices`] returns no tiles.
pub proof fn lemma_disjoint_query_empty(schema: TileSchema, bbox: Envelope, r: int)
    requires
        schema.wf(),
        (bbox.x_max.v() < schema.spec_envelope().0 && (schema.spec_envelope().0
            - schema.spec_origin().0) % schema.spec_tile_w(r) == 0) || (bbox.x_min.v()
            > schema.spec_envelope().2 && (schema.spec_envelope().2 - schema.spec_origin().0)
            % schema.spec_tile_w(r) == 0),
    ensures
        schema.spec_x_hi(bbox, r) <= schema.spec_x_lo(bbox, r),
{
    let w = schema.spec_tile_w(r);
    let ox = schema.spec_origin().0;
    let e0 = schema.spec_envelope().0;
    let e2 = schema.spec_envelope().2;
    let k = sel_index(schema.level_seq(), r);
    lemma_sel_from_bounds(schema.level_seq(), r, schema.level_seq().len() - 1);
    lemma_pos_mul_bounds(
        schema.level_seq()[k].0 as int,
        schema.spec_tile_width(),
        i64::MAX as int,
        u32::MAX as int,
    );
    assert(w >= 1);
    if bbox.x_max.v() < e0 && (e0 - ox) % w == 0 {
        let m = (e0 - ox) / w;
        vstd::arithmetic::div_mod::lemma_fundamental_div_mod(e0 - ox, w);
        assert(e0 - ox == m * w);
        let lo = imax(bbox.x_min.v(), e0);
        vstd::arithmetic::div_mod::lemma_div_is_ordered(e0 - ox, lo - ox, w);
        assert(schema.spec_x_lo(bbox, r) >= sat32(m));
        let hi = imin(bbox.x_max.v(), e2);
        assert(hi - ox < m * w);
        vstd::arithmetic::div_mod::lemma_div_is_ordered(-(m * w), -(hi - ox), w);
        assert((-(m * w)) / w == -m) by {
            vstd::arithmetic::div_mod::lemma_div_multiples_vanish(-m, w);
            assert(w * (-m) == -(m * w)) by (nonlinear_arith);
        }
        assert(iceil(hi - ox, w) <= m);
        assert(schema.spec_x_hi(bbox, r) <= sat32(m));
    } else {
        let m = (e2 - ox) / w;
        vstd::arithmetic::div_mod::lemma_fundamental_div_mod(e2 - ox, w);
        assert(e2 - ox == m * w);
        let lo = imax(bbox.x_min.v(), e0);
        assert(lo - ox > m * w);
        vstd::arithmetic::div_mod::lemma_div_is_ordered(e2 - ox, lo - ox, w);
        assert((e2 - ox) / w == m);
        assert(schema.spec_x_lo(bbox, r) >= sat32(m));
        let hi = imin(bbox.x_max.v(), e2);
        vstd::arithmetic::div_mod::lemma_div_is_ordered(-(m * w), -(hi - ox), w);
        assert((-(m * w)) / w == -m) by {
            vstd::arithmetic::div_mod::lemma_div_multiples_vanish(-m, w);
            assert(w * (-m) == -(m * w)) by (nonlinear_arith);
        }
        assert(iceil(hi - ox, w) <= m);
        assert(schema.spec_x_hi(bbox, r) <= sat32(m));
    }
}

/// The lexicographic order is reflexive and transitive, so pairwise order
/// of neighbours orders the whole sequence.
proof fn lemma_le_span(s: Seq<(i64, i32)>, i: int, j: int)
    requires
        forall|k: int| 0 <= k < s.len() - 1 ==> level_le(#[trigger] s[k], s[k + 1]),
        0 <= i <= j < s.len(),
    ensures
        level_le(s[i], s[j]),
    decreases j - i,
{
    if i < j {
        lemma_le_span(s, i, j - 1);
        assert(level_le(s[j - 1], s[j]));
    }
}

/// A sequence whose neighbours ascend, ascends.
proof fn lemma_adjacent_sorted(s: Seq<(i64, i32)>)
    requires
        forall|k: int| 0 <= k < s.len() - 1 ==> level_le(#[trigger] s[k], s[k + 1]),
    ensures
        levels_sorted(s),
{
    assert forall|i: int, j: int| 0 <= i < j < s.len() implies level_le(
        #[trigger] s[i],
        #[trigger] s[j],
    ) by {
        lemma_le_span(s, i, j);
    }
}

/// The sorted arrangement of given entries is unique: two ascending
/// sequences holding the same entries are the same sequence.
proof fn lemma_sorted_same_entries_equal(a: Seq<(i64, i32)>, b: Seq<(i64, i32)>)
    requires
        levels_sorted(a),
        levels_sorted(b),
        a.to_multiset() == b.to_multiset(),
    ensures
        a == b,
    decreases a.len(),
{
    broadcast use vstd::seq_lib::group_to_multiset_ensures;

    assert(a.len() == a.to_multiset().len());
    assert(b.len() == b.to_multiset().len());
    if a.len() == 0 {
        assert(a =~= b);
    } else {
        assert(a.contains(a[0])) by {
            assert(a[0] == a[0]);
        }
        assert(b.to_multiset().count(a[0]) > 0);
        assert(b.contains(a[0]));
        let ia = choose|i: int| 0 <= i < b.len() && b[i] == a[0];
        assert(level_le(b[0], a[0])) by {
            if ia > 0 {
                assert(level_le(b[0], b[ia]));
            }
        }
        assert(b.contains(b[0])) by {
            assert(b[0] == b[0]);
        }
        assert(a.to_multiset().count(b[0]) > 0);
        assert(a.contains(b[0]));
        let ib = choose|i: int| 0 <= i < a.len() && a[i] == b[0];
        assert(level_le(a[0], b[0])) by {
            if ib > 0 {
                assert(level_le(a[0], a[ib]));
            }
        }
        assert(a[0] == b[0]);
        let at = a.remove(0);
        let bt = b.remove(0);
        a.remove_ensures(0);
        b.remove_ensures(0);
        assert(at.to_multiset() =~= bt.to_multiset()) by {
            assert(at.to_multiset() == a.to_multiset().remove(a[0]));
            assert(bt.to_multiset() == b.to_multiset().remove(b[0]));
        }
        assert forall|i: int, j: int| 0 <= i < j < at.len() implies level_le(
            #[trigger] at[i],
            #[trigger] at[j],
        ) by {
            assert(at[i] == a[i + 1] && at[j] == a[j + 1]);
            assert(level_le(a[i + 1], a[j + 1]));
        }
        assert forall|i: int, j: int| 0 <= i < j < bt.len() implies level_le(
            #[trigger] bt[i],
            #[trigger] bt[j],
        ) by {
            assert(bt[i] == b[i + 1] && bt[j] == b[j + 1]);
            assert(level_le(b[i + 1], b[j + 1]));
        }
        lemma_sorted_same_entries_equal(at, bt);
        assert forall|i: int| 0 <= i < a.len() implies a[i] == b[i] by {
            if i > 0 {
                assert(at[i - 1] == a[i]);
                assert(bt[i - 1] == b[i]);
            }
        }
        assert(a =~= b);
    }
}

/// The level entries of the default web map scheme, ascending: the finest
/// resolution — the world constant divided down to level 17, floored once
/// — and its seventeen exact doublings, z-indices from the finest 17 up to
/// the coarsest 0.
pub open spec fn default_level_seq() -> Seq<(i64, i32)> {
    seq![
        (5129602135i64, 17i32),
        (10259204270i64, 16i32),
        (20518408540i64, 15i32),
        (41036817080i64, 14i32),
        (82073634160i64, 13i32),
        (164147268320i64, 12i32),
        (328294536640i64, 11i32),
        (656589073280i64, 10i32),
        (1313178146560i64, 9i32),
        (2626356293120i64, 8i32),
        (5252712586240i64, 7i32),
        (10505425172480i64, 6i32),
        (21010850344960i64, 5i32),
        (42021700689920i64, 4i32),
        (84043401379840i64, 3i32),
        (168086802759680i64, 2i32),
        (336173605519360i64, 1i32),
        (672347211038720i64, 0i32),
    ]
}

/// Half the world's extent in the default scheme, in 2^-32 units: 128
/// pixels' worth of the coarsest resolution, so one coarsest tile covers
/// the envelope exactly.
pub const WORLD_HALF_UNITS: i64 = 86060443012956160;

/// One zoom level: its resolution (world units per pixel) and its z-index.
#[derive(Clone, Copy, Debug, PartialEq, Eq, Structural)]
pub struct TileLevel {
    pub resolution: Fx,
    pub z_index: i32,
}

/// Whether tile rows grow with increasing world y from the origin, or
/// downward from it (the usual web map convention).
#[derive(Clone, Copy, Debug, PartialEq, Eq, Structural)]
pub enum TilesDirection {
    BottomToTop,
    TopToBottom,
}

/// The tile-addressing scheme, immutable after construction.
pub struct TileSchema {
    tile_width: u32,
    tile_height: u32,
    origin: Point,
    envelope: Envelope,
    y_direction: TilesDirection,
    levels: sorted_vec::SortedVec<(i64, i32)>,
}

impl TileSchema {
    /// The level entries, ascending by resolution.
    pub closed spec fn level_seq(self) -> Seq<(i64, i32)> {
        level_entries(self.levels)
    }

    /// Pixel width of a tile.
    pub closed spec fn spec_tile_width(self) -> int {
        self.tile_width as int
    }

    /// Pixel height of a tile.
    pub closed spec fn spec_tile_height(self) -> int {
        self.tile_height as int
    }

    /// World coordinates of the scheme's origin, in fixed-point units.
    pub closed spec fn spec_origin(self) -> (int, int) {
        (self.origin.x.v(), self.origin.y.v())
    }

    /// The scheme's envelope `(x_min, y_min, x_max, y_max)`, in units.
    pub closed spec fn spec_envelope(self) -> (int, int, int, int) {
        (self.envelope.x_min.v(), self.envelope.y_min.v(), self.envelope.x_max.v(), self.envelope.y_max.v())
    }

    /// Whether rows grow downward from the origin.
    pub closed spec fn spec_top_down(self) -> bool {
        self.y_direction == TilesDirection::TopToBottom
    }

    /// Well-formed: tile sizes are positive, at least one level exists, the
    /// level store ascends, and every resolution is positive.  The
    /// constructors establish this.
    pub open spec fn wf(self) -> bool {
        &&& 1 <= self.spec_tile_width() <= u32::MAX as int
        &&& 1 <= self.spec_tile_height() <= u32::MAX as int
        &&& 1 <= self.level_seq().len()
        &&& levels_sorted(self.level_seq())
        &&& forall|i: int| 0 <= i < self.level_seq().len() ==> 0 < (#[trigger] self.level_seq()[i]).0
    }

    /// The resolution units of the level that serves resolution `r`.
    pub open spec fn spec_sel_res(self, r: int) -> int {
        self.level_seq()[sel_index(self.level_seq(), r)].0 as int
    }

    /// World width of a tile at the level that serves resolution `r`.
    pub open spec fn spec_tile_w(self, r: int) -> int {
        self.spec_sel_res(r) * self.spec_tile_width()
    }

    /// World height of a tile at the level that serves resolution `r`.
    pub open spec fn spec_tile_h(self, r: int) -> int {
        self.spec_sel_res(r) * self.spec_tile_height()
    }

    /// First tile column covering `bbox` clamped to the envelope.
    pub open spec fn spec_x_lo(self, bbox: Envelope, r: int) -> int {
        sat32((imax(bbox.x_min.v(), self.spec_envelope().0) - self.spec_origin().0) / self.spec_tile_w(r))
    }

    /// One past the last tile column covering `bbox` clamped to the envelope.
    pub open spec fn spec_x_hi(self, bbox: Envelope, r: int) -> int {
        sat32(iceil(imin(bbox.x_max.v(), self.spec_envelope().2) - self.spec_origin().0, self.spec_tile_w(r)))
    }

    /// First tile row covering `bbox` clamped to the envelope, measured in
    /// the configured vertical direction.
    pub open spec fn spec_y_lo(self, bbox: Envelope, r: int) -> int {
        if self.spec_top_down() {
            sat32((self.spec_origin().1 - imin(bbox.y_max.v(), self.spec_envelope().3)) / self.spec_tile_h(r))
        } else {
            sat32((imax(bbox.y_min.v(), self.spec_envelope().1) - self.spec_origin().1) / self.spec_tile_h(r))
        }
    }

    /// One past the last tile row covering `bbox` clamped to the envelope.
    pub open spec fn spec_y_hi(self, bbox: Envelope, r: int) -> int {
        if self.spec_top_down() {
            sat32(iceil(self.spec_origin().1 - imax(bbox.y_min.v(), self.spec_envelope().1), self.spec_tile_h(r)))
        } else {
            sat32(iceil(imin(bbox.y_max.v(), self.spec_envelope().3) - self.spec_origin().1, self.spec_tile_h(r)))
        }
    }

    /// Builds a scheme from unordered levels; the levels are sorted into
    /// ascending resolution order.
    pub fn new(
        tile_width: u32,
        tile_height: u32,
        origin: Point,
        envelope: Envelope,
        y_direction: TilesDirection,
        levels: Vec<TileLevel>,
    ) -> (r: Self)
        requires
            1 <= tile_width,
            1 <= tile_height,
            1 <= levels.len(),
            forall|i: int| 0 <= i < levels.len() ==> 0 < (#[trigger] levels@[i]).resolution.v(),
        ensures
            r.wf(),
            r.spec_tile_width() == tile_width,
            r.spec_tile_height() == tile_height,
            r.spec_origin() == (origin.x.v(), origin.y.v()),
            r.spec_envelope() == (envelope.x_min.v(), envelope.y_min.v(), envelope.x_max.v(), envelope.y_max.v()),
            r.spec_top_down() == (y_direction == TilesDirection::TopToBottom),
            r.level_seq().len() == levels@.len(),
            r.level_seq().to_multiset() == levels@.map_values(
                |l: TileLevel| (l.resolution.bits, l.z_index),
            ).to_multiset(),
    {
        let mut entries: Vec<(i64, i32)> = Vec::new();
        let mut i: usize = 0;
        while i < levels.len()
            invariant
                i <= levels.len(),
                entries@.len() == i,
                forall|k: int| 0 <= k < levels@.len() ==> 0 < (#[trigger] levels@[k]).resolution.v(),
                forall|k: int|
                    0 <= k < i ==> #[trigger] entries@[k] == (
                        levels@[k].resolution.bits,
                        levels@[k].z_index,
                    ),
            decreases levels.len() - i,
        {
            let l = &levels[i];
            entries.push((l.resolution.bits, l.z_index));
            i += 1;
        }
        proof {
            assert(entries@ =~= levels@.map_values(
                |l: TileLevel| (l.resolution.bits, l.z_index),
            ));
        }
        let sorted = levels_from_unsorted(entries);
        proof {
            broadcast use vstd::seq_lib::group_to_multiset_ensures;

            assert forall|k: int|
                0 <= k < level_entries(sorted).len() implies 0 < (#[trigger] level_entries(
                sorted,
            )[k]).0 by {
                let e = level_entries(sorted)[k];
                assert(level_entries(sorted).contains(e));
                assert(level_entries(sorted).to_multiset().count(e) > 0);
                assert(levels@.map_values(|l: TileLevel| (l.resolution.bits, l.z_index)).contains(
                    e,
                ));
                let m = levels@.map_values(|l: TileLevel| (l.resolution.bits, l.z_index));
                let w = choose|w: int| 0 <= w < m.len() && #[trigger] m[w] == e;
                assert(0 < levels@[w].resolution.v());
            }
        }
        Self { tile_width, tile_height, origin, envelope, y_direction, levels: sorted }
    }

    /// The levels, coarsest (largest resolution, lowest index of the walk)
    /// first.
    pub fn levels(&self) -> (r: Vec<TileLevel>)
        requires
            self.wf(),
        ensures
            r@.len() == self.level_seq().len(),
            forall|i: int|
                0 <= i < r@.len() ==> {
                    let e = self.level_seq()[self.level_seq().len() - 1 - i];
                    (#[trigger] r@[i]).resolution.bits == e.0 && r@[i].z_index == e.1
                },
    {
        let n = levels_count(&self.levels);
        let mut out: Vec<TileLevel> = Vec::new();
        let mut i: usize = 0;
        while i < n
            invariant
                self.wf(),
                i <= n,
                n == self.level_seq().len(),
                out@.len() == i,
                forall|k: int|
                    0 <= k < i ==> {
                        let e = self.level_seq()[self.level_seq().len() - 1 - k];
                        (#[trigger] out@[k]).resolution.bits == e.0 && out@[k].z_index == e.1
                    },
            decreases n - i,
        {
            let e = level_at(&self.levels, n - 1 - i);
            out.push(TileLevel { resolution: Fx::from_bits(e.0), z_index: e.1 });
            i += 1;
        }
        out
    }

    /// Walks the levels from coarsest to finest and returns the first whose
    /// resolution is finer than the requested one within a one-percent
    /// tolerance; if even the finest level is too coarse, the finest level.
    pub fn select_level(&self, resolution: Fx) -> (r: TileLevel)
        requires
            self.wf(),
        ensures
            ({
                let s = self.level_seq();
                let k = sel_index(s, resolution.v());
                &&& 0 <= k < s.len()
                &&& r.resolution.bits == s[k].0
                &&& r.z_index == s[k].1
            }),
    {
        let n = levels_count(&self.levels);
        let mut j: usize = n - 1;
        while j > 0
            invariant
                self.wf(),
                j < n,
                n == self.level_seq().len(),
                sel_index(self.level_seq(), resolution.v()) == sel_from(
                    self.level_seq(),
                    resolution.v(),
                    j as int,
                ),
            decreases j,
        {
            let e = level_at(&self.levels, j);
            if (99 as i128) * (e.0 as i128) < (100 as i128) * (resolution.bits as i128) {
                return TileLevel { resolution: Fx::from_bits(e.0), z_index: e.1 };
            }
            j -= 1;
        }
        let e = level_at(&self.levels, 0);
        TileLevel { resolution: Fx::from_bits(e.0), z_index: e.1 }
    }

    /// The tile addresses needed to cover `bbox`, clamped to the scheme's
    /// envelope, at the level serving the requested resolution: the
    /// Cartesian product of the column range and the row range, each tagged
    /// with the level's z-index, columns outermost.  A bounding box that
    /// misses the envelope clamps to an inverted range; whenever the
    /// crossed envelope bound lies on a tile boundary from the origin — as
    /// in every scheme whose envelope the tiles partition — the inverted
    /// range is empty and so is the list ([`lemma_disjoint_query_empty`]).
    pub fn get_indices(&self, bbox: &Envelope, resolution: Fx) -> (r: Vec<TileIndex>)
        requires
            self.wf(),
        ensures
            ({
                let x0 = self.spec_x_lo(*bbox, resolution.v());
                let x1 = self.spec_x_hi(*bbox, resolution.v());
                let y0 = self.spec_y_lo(*bbox, resolution.v());
                let y1 = self.spec_y_hi(*bbox, resolution.v());
                let z = self.level_seq()[sel_index(self.level_seq(), resolution.v())].1;
                &&& (x0 < x1 && y0 < y1) ==> {
                    &&& r@.len() == (x1 - x0) * (y1 - y0)
                    &&& forall|k: int|
                        0 <= k < r@.len() ==> {
                            &&& (#[trigger] r@[k]).x == x0 + k / (y1 - y0)
                            &&& r@[k].y == y0 + k % (y1 - y0)
                            &&& r@[k].z == z
                        }
                }
                &&& !(x0 < x1 && y0 < y1) ==> r@.len() == 0
            }),
    {
        let ghost rv = resolution.v();
        let ghost s = self.level_seq();
        let ghost sel = sel_index(s, rv);
        let level = self.select_level(resolution);
        let res_bits = level.resolution.bits;
        proof {
            assert(0 < s[sel].0);
            lemma_pos_mul_bounds(
                res_bits as int,
                self.tile_width as int,
                0x7FFF_FFFF_FFFF_FFFF,
                0xFFFF_FFFF,
            );
            lemma_pos_mul_bounds(
                res_bits as int,
                self.tile_height as int,
                0x7FFF_FFFF_FFFF_FFFF,
                0xFFFF_FFFF,
            );
        }
        let w: i128 = (res_bits as i128) * (self.tile_width as i128);
        let h: i128 = (res_bits as i128) * (self.tile_height as i128);

        let cx_min = if bbox.x_min.bits >= self.envelope.x_min.bits {
            bbox.x_min.bits
        } else {
            self.envelope.x_min.bits
        };
        let cx_max = if bbox.x_max.bits <= self.envelope.x_max.bits {
            bbox.x_max.bits
        } else {
            self.envelope.x_max.bits
        };
        let cy_min = if bbox.y_min.bits >= self.envelope.y_min.bits {
            bbox.y_min.bits
        } else {
            self.envelope.y_min.bits
        };
        let cy_max = if bbox.y_max.bits <= self.envelope.y_max.bits {
            bbox.y_max.bits
        } else {
            self.envelope.y_max.bits
        };

        let x0 = sat_to_i32(div_floor_i128((cx_min as i128) - (self.origin.x.bits as i128), w));
        let x1 = sat_to_i32(div_ceil_i128((cx_max as i128) - (self.origin.x.bits as i128), w));
        let (y0, y1) = match self.y_direction {
            TilesDirection::BottomToTop => {
                let y0 = sat_to_i32(
                    div_floor_i128((cy_min as i128) - (self.origin.y.bits as i128), h),
                );
                let y1 = sat_to_i32(
                    div_ceil_i128((cy_max as i128) - (self.origin.y.bits as i128), h),
                );
                (y0, y1)
            },
            TilesDirection::TopToBottom => {
                let y0 = sat_to_i32(
                    div_floor_i128((self.origin.y.bits as i128) - (cy_max as i128), h),
                );
                let y1 = sat_to_i32(
                    div_ceil_i128((self.origin.y.bits as i128) - (cy_min as i128), h),
                );
                (y0, y1)
            },
        };
        let z = level.z_index;
        proof {
            assert(x0 as int == self.spec_x_lo(*bbox, rv));
            assert(x1 as int == self.spec_x_hi(*bbox, rv));
            assert(y0 as int == self.spec_y_lo(*bbox, rv));
            assert(y1 as int == self.spec_y_hi(*bbox, rv));
            assert(z == s[sel].1);
        }

        let mut tiles: Vec<TileIndex> = Vec::new();
        if x0 < x1 && y0 < y1 {
            let mut x = x0;
            proof {
                assert(((x - x0) as int) * ((y1 - y0) as int) == 0) by (nonlinear_arith)
                    requires
                        x == x0,
                ;
            }
            while x < x1
                invariant
                    x0 <= x <= x1,
                    x0 < x1,
                    y0 < y1,
                    tiles@.len() == (x - x0) * (y1 - y0),
                    forall|k: int|
                        0 <= k < tiles@.len() ==> {
                            &&& (#[trigger] tiles@[k]).x == x0 + k / (y1 - y0)
                            &&& tiles@[k].y == y0 + k % (y1 - y0)
                            &&& tiles@[k].z == z
                        },
                decreases x1 - x,
            {
                let mut y = y0;
                while y < y1
                    invariant
                        x0 <= x < x1,
                        y0 <= y <= y1,
                        y0 < y1,
                        tiles@.len() == (x - x0) * (y1 - y0) + (y - y0),
                        forall|k: int|
                            0 <= k < tiles@.len() ==> {
                                &&& (#[trigger] tiles@[k]).x == x0 + k / (y1 - y0)
                                &&& tiles@[k].y == y0 + k % (y1 - y0)
                                &&& tiles@[k].z == z
                            },
                    decreases y1 - y,
                {
                    tiles.push(TileIndex { x, y, z });
                    proof {
                        let k = tiles@.len() - 1;
                        lemma_fundamental_div_mod_converse_div(
                            k,
                            y1 - y0,
                            x - x0,
                            y - y0,
                        );
                        lemma_fundamental_div_mod_converse_mod(
                            k,
                            y1 - y0,
                            x - x0,
                            y - y0,
                        );
                    }
                    y += 1;
                }
                proof {
                    assert((x - x0 + 1) * (y1 - y0) == (x - x0) * (y1 - y0) + (y1 - y0))
                        by (nonlinear_arith);
                }
                x += 1;
            }
        }
        tiles
    }
}

impl Default for TileSchema {
    /// The usual spherical web map scheme: 256 by 256 pixel tiles, the
    /// origin at the top-left corner of the square world envelope, rows
    /// growing downward, and 18 levels that halve in resolution from the
    /// one-tile world down.  The level entries, origin and envelope are
    /// pinned exactly: the entries are [`default_level_seq`], and the
    /// envelope's half-extent [`WORLD_HALF_UNITS`] is 128 pixels' worth of
    /// the coarsest resolution, so the world is exactly one tile at the
    /// coarsest level.
    fn default() -> (r: Self)
        ensures
            r.wf(),
            r.spec_tile_width() == 256,
            r.spec_tile_height() == 256,
            r.spec_top_down(),
            r.level_seq() == default_level_seq(),
            r.spec_origin() == (-WORLD_HALF_UNITS as int, WORLD_HALF_UNITS as int),
            r.spec_envelope() == (
                -WORLD_HALF_UNITS as int,
                -WORLD_HALF_UNITS as int,
                WORLD_HALF_UNITS as int,
                WORLD_HALF_UNITS as int,
            ),
    {
        let finest = Fx::from_ratio(15654303392800014, 13107200000000000);
        proof {
            assert(finest.v() == 5129602135);
        }
        let r17 = finest;
        let r16 = double_resolution(r17);
        let r15 = double_resolution(r16);
        let r14 = double_resolution(r15);
        let r13 = double_resolution(r14);
        let r12 = double_resolution(r13);
        let r11 = double_resolution(r12);
        let r10 = double_resolution(r11);
        let r9 = double_resolution(r10);
        let r8 = double_resolution(r9);
        let r7 = double_resolution(r8);
        let r6 = double_resolution(r7);
        let r5 = double_resolution(r6);
        let r4 = double_resolution(r5);
        let r3 = double_resolution(r4);
        let r2 = double_resolution(r3);
        let r1 = double_resolution(r2);
        let r0 = double_resolution(r1);
        let half_world = r0.times(Fx::from_int(128));
        proof {
            assert(half_world.v() == WORLD_HALF_UNITS as int);
        }
        let origin = Point::new(half_world.neg(), half_world);
        let envelope = Envelope::new(
            half_world.neg(),
            half_world.neg(),
            half_world,
            half_world,
        );
        let mut levels: Vec<TileLevel> = Vec::new();
        levels.push(TileLevel { resolution: r17, z_index: 17 });
        levels.push(TileLevel { resolution: r16, z_index: 16 });
        levels.push(TileLevel { resolution: r15, z_index: 15 });
        levels.push(TileLevel { resolution: r14, z_index: 14 });
        levels.push(TileLevel { resolution: r13, z_index: 13 });
        levels.push(TileLevel { resolution: r12, z_index: 12 });
        levels.push(TileLevel { resolution: r11, z_index: 11 });
        levels.push(TileLevel { resolution: r10, z_index: 10 });
        levels.push(TileLevel { resolution: r9, z_index: 9 });
        levels.push(TileLevel { resolution: r8, z_index: 8 });
        levels.push(TileLevel { resolution: r7, z_index: 7 });
        levels.push(TileLevel { resolution: r6, z_index: 6 });
        levels.push(TileLevel { resolution: r5, z_index: 5 });
        levels.push(TileLevel { resolution: r4, z_index: 4 });
        levels.push(TileLevel { resolution: r3, z_index: 3 });
        levels.push(TileLevel { resolution: r2, z_index: 2 });
        levels.push(TileLevel { resolution: r1, z_index: 1 });
        levels.push(TileLevel { resolution: r0, z_index: 0 });
        let schema = TileSchema::new(
            256,
            256,
            origin,
            envelope,
            TilesDirection::TopToBottom,
            levels,
        );
        proof {
            let mapped = levels@.map_values(|l: TileLevel| (l.resolution.bits, l.z_index));
            assert(mapped =~= default_level_seq());
            assert forall|k: int|
                0 <= k < default_level_seq().len() - 1 implies level_le(
                #[trigger] default_level_seq()[k],
                default_level_seq()[k + 1],
            ) by {}
            lemma_adjacent_sorted(default_level_seq());
            lemma_sorted_same_entries_equal(schema.level_seq(), default_level_seq());
        }
        schema
    }
}

/// One resolution step of the default scheme: exactly twice the finer
/// level's resolution, so a halved request always lands a level down.
fn double_resolution(r: Fx) -> (o: Fx)
    requires
        0 < r.v() <= 0x1000_0000_0000_0000,
    ensures
        o.v() == 2 * r.v(),
{
    Fx::from_bits(r.bits * 2)
}

} // verus!
