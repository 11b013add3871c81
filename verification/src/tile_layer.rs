//! Tile bookkeeping for a tile-drawing layer: the discrete tile address and
//! a store that is kept in sync with the set of tiles the current view
//! needs.

use vstd::prelude::*;

verus! {

/// Address of one tile: column, row, and the zoom level's z-index.
#[derive(Debug, Copy, Clone, Hash, PartialEq, Eq, Structural)]
pub struct TileIndex {
    pub x: i32,
    pub y: i32,
    pub z: i32,
}

impl TileIndex {
    /// Builds a tile address from its three components.
    pub fn new(x: i32, y: i32, z: i32) -> (r: Self)
        ensures
            r == (TileIndex { x, y, z }),
    {
        Self { x, y, z }
    }
}

/// The tiles a layer currently holds, in insertion order, each at most once.
pub struct TileStore {
    tiles: Vec<TileIndex>,
}

impl TileStore {
    /// The stored tiles, as a sequence in insertion order.
    pub closed spec fn view(self) -> Seq<TileIndex> {
        self.tiles@
    }

    /// Well-formed: each tile is stored at most once.  Constructors
    /// establish this and every method preserves it.
    pub open spec fn wf(self) -> bool {
        forall|i: int, j: int| 0 <= i < j < self@.len() ==> self@[i] != self@[j]
    }

    /// An empty store.
    pub fn new() -> (r: Self)
        ensures
            r@ == Seq::<TileIndex>::empty(),
            r.wf(),
    {
        Self { tiles: Vec::new() }
    }

    /// Whether the tile is already stored.
    pub fn contains(&self, tile: &TileIndex) -> (r: bool)
        ensures
            r == self@.contains(*tile),
    {
        let mut i: usize = 0;
        while i < self.tiles.len()
            invariant
                i <= self.tiles.len(),
                forall|j: int| 0 <= j < i ==> self.tiles@[j] != *tile,
            decreases self.tiles.len() - i,
        {
            if self.tiles[i] == *tile {
                return true;
            }
            i += 1;
        }
        false
    }

    /// Appends the tile to the store; a tile already stored is left alone.
    pub fn add_tile(&mut self, tile: &TileIndex)
        requires
            old(self).wf(),
        ensures
            final(self).wf(),
            old(self)@.contains(*tile) ==> final(self)@ == old(self)@,
            !old(self)@.contains(*tile) ==> final(self)@ == old(self)@.push(*tile),
    {
        if !self.contains(tile) {
            self.tiles.push(*tile);
            proof {
                assert forall|i: int, j: int|
                    0 <= i < j < self@.len() implies self@[i] != self@[j] by {
                    if j == self@.len() - 1 {
                        assert(!old(self)@.contains(*tile));
                        assert(old(self)@[i] != *tile);
                    }
                }
            }
        }
    }

    /// A copy of the stored tiles, in insertion order.
    pub fn tiles(&self) -> (r: Vec<TileIndex>)
        ensures
            r@ == self@,
    {
        let mut out: Vec<TileIndex> = Vec::new();
        let mut i: usize = 0;
        while i < self.tiles.len()
            invariant
                i <= self.tiles.len(),
                out@ == self.tiles@.take(i as int),
            decreases self.tiles.len() - i,
        {
            out.push(self.tiles[i]);
            proof {
                assert(out@ =~= self.tiles@.take(i as int + 1));
            }
            i += 1;
        }
        proof {
            assert(out@ =~= self.tiles@);
        }
        out
    }

    /// Drops the stored copy of a tile that the view no longer needs; an
    /// absent tile is a silent no-op.
    pub fn remove_if_not_needed(&mut self, tile: &TileIndex)
        requires
            old(self).wf(),
        ensures
            final(self).wf(),
            !old(self)@.contains(*tile) ==> final(self)@ == old(self)@,
            old(self)@.contains(*tile) ==> exists|k: int|
                0 <= k < old(self)@.len() && old(self)@[k] == *tile && final(self)@ == old(
                    self,
                )@.remove(k),
            !final(self)@.contains(*tile),
            forall|t: TileIndex|
                t != *tile ==> (final(self)@.contains(t) <==> old(self)@.contains(t)),
    {
        let ghost before = self.tiles@;
        let mut i: usize = 0;
        while i < self.tiles.len()
            invariant
                i <= self.tiles.len(),
                self.tiles@ == before,
                before == old(self)@,
                forall|x: int, y: int| 0 <= x < y < before.len() ==> before[x] != before[y],
                forall|j: int| 0 <= j < i ==> self.tiles@[j] != *tile,
            decreases self.tiles.len() - i,
        {
            if self.tiles[i] == *tile {
                self.tiles.remove(i);
                proof {
                    before.remove_ensures(i as int);
                    let after = self.tiles@;
                    assert forall|t: TileIndex| t != *tile && before.contains(t) implies after
                        .contains(t) by {
                        let w = choose|w: int| 0 <= w < before.len() && before[w] == t;
                        if w < i {
                            assert(after[w] == t);
                        } else {
                            assert(after[w - 1] == t);
                        }
                    }
                    assert forall|t: TileIndex| after.contains(t) implies before.contains(t) by {
                        let w = choose|w: int| 0 <= w < after.len() && after[w] == t;
                        if w < i {
                            assert(before[w] == t);
                        } else {
                            assert(before[w + 1] == t);
                        }
                    }
                    assert(before[i as int] == *tile);
                    assert forall|j: int| 0 <= j < after.len() implies after[j] != *tile by {
                        if j < i {
                            assert(after[j] == before[j]);
                            assert(before[j] != *tile);
                        } else {
                            assert(after[j] == before[j + 1]);
                            assert((i as int) < j + 1 && j + 1 < before.len());
                            assert(before[i as int] != before[j + 1]);
                        }
                    }
                    assert(before[i as int] == *tile && (i as int) < before.len());
                    assert(before.contains(*tile));
                    assert(old(self)@.contains(*tile));
                    assert(self.tiles@ == old(self)@.remove(i as int));
                    assert forall|x: int, y: int|
                        0 <= x < y < after.len() implies after[x] != after[y] by {
                        let px: int = if x < i as int {
                            x
                        } else {
                            x + 1
                        };
                        let py: int = y + 1;
                        assert(after[x] == before[px]);
                        assert(y >= i as int ==> after[y] == before[py]);
                        if y < i as int {
                            assert(after[y] == before[y]);
                            assert(before[px] != before[y]);
                        } else {
                            assert(px < py);
                            assert(before[px] != before[py]);
                        }
                    }
                }
                return ;
            }
            i += 1;
        }
    }
}

/// Membership in a required-tile list, as the predicate the retention law
/// of [`TileLayer::update_tile_list`] filters by.
pub open spec fn required_pred(required: Seq<TileIndex>) -> spec_fn(TileIndex) -> bool {
    |t: TileIndex| required.contains(t)
}

/// A sequence whose every element satisfies the predicate is its own
/// filtrate.
proof fn lemma_filter_all_kept(s: Seq<TileIndex>, pred: spec_fn(TileIndex) -> bool)
    requires
        forall|i: int| 0 <= i < s.len() ==> pred(#[trigger] s[i]),
    ensures
        s.filter(pred) == s,
    decreases s.len(),
{
    broadcast use vstd::seq::Seq::lemma_filter_push;

    if s.len() > 0 {
        lemma_filter_all_kept(s.drop_last(), pred);
        assert(s.drop_last().push(s.last()) =~= s);
        assert(s.drop_last().push(s.last()).filter(pred) == s.drop_last().filter(pred).push(
            s.last(),
        ));
        assert(s.filter(pred) =~= s);
    } else {
        assert(s.filter(pred) =~= s) by {
            s.lemma_filter_len(pred);
        }
    }
}

/// A layer that draws tiles: it keeps its store aligned with the tiles the
/// current view requires.
pub struct TileLayer {
    tile_store: TileStore,
}

impl TileLayer {
    /// The stored tiles, as a sequence in insertion order.
    pub closed spec fn view(self) -> Seq<TileIndex> {
        self.tile_store@
    }

    /// Well-formed: the backing store is well-formed.
    pub closed spec fn wf(self) -> bool {
        self.tile_store.wf()
    }

    /// A tile layer with an empty store.
    pub fn new() -> (r: Self)
        ensures
            r@ == Seq::<TileIndex>::empty(),
            r.wf(),
    {
        Self { tile_store: TileStore::new() }
    }

    /// The layer's tile store.
    pub fn get_tile_store(&self) -> (r: &TileStore)
        ensures
            r@ == self@,
    {
        &self.tile_store
    }

    /// Brings the store in line with the given list of required tiles:
    /// required tiles that are missing are added, stored tiles that are no
    /// longer required are dropped.  Afterwards the store holds a tile if
    /// and only if the list requires it, and the tiles that were already
    /// stored and stay required keep their insertion order, ahead of the
    /// newly added ones.
    pub fn update_tile_list(&mut self, required_tiles: &Vec<TileIndex>)
        requires
            old(self).wf(),
        ensures
            final(self).wf(),
            forall|t: TileIndex|
                #[trigger] final(self)@.contains(t) <==> required_tiles@.contains(t),
            ({
                let kept = old(self)@.filter(required_pred(required_tiles@));
                &&& final(self)@.len() >= kept.len()
                &&& final(self)@.take(kept.len() as int) == kept
                &&& forall|j: int|
                    kept.len() <= j < final(self)@.len() ==> !old(self)@.contains(
                        #[trigger] final(self)@[j],
                    )
            }),
    {
        proof {
            broadcast use vstd::seq_lib::lemma_seq_contains_after_push;

        }
        let ghost start = old(self).tile_store@;
        let mut i: usize = 0;
        while i < required_tiles.len()
            invariant
                i <= required_tiles.len(),
                self.tile_store.wf(),
                start == old(self).tile_store@,
                self.tile_store@.len() >= start.len(),
                self.tile_store@.take(start.len() as int) == start,
                forall|k: int|
                    start.len() <= k < self.tile_store@.len() ==> required_tiles@.contains(
                        #[trigger] self.tile_store@[k],
                    ) && !start.contains(self.tile_store@[k]),
                forall|t: TileIndex|
                    start.contains(t) ==> #[trigger] self.tile_store@.contains(t),
                forall|k: int| 0 <= k < i ==> self.tile_store@.contains(#[trigger] required_tiles@[k]),
                forall|t: TileIndex|
                    #[trigger] self.tile_store@.contains(t) ==> start.contains(t)
                        || required_tiles@.contains(t),
            decreases required_tiles.len() - i,
        {
            let ghost entry = self.tile_store@;
            let tile = required_tiles[i];
            if !self.tile_store.contains(&tile) {
                self.tile_store.add_tile(&tile);
                proof {
                    broadcast use vstd::seq_lib::lemma_seq_contains_after_push;

                    assert(self.tile_store@.take(start.len() as int) =~= start);
                    assert(required_tiles@.contains(tile)) by {
                        assert(required_tiles@[i as int] == tile);
                    }
                    assert forall|k: int|
                        start.len() <= k < self.tile_store@.len() implies required_tiles@.contains(
                        #[trigger] self.tile_store@[k],
                    ) && !start.contains(self.tile_store@[k]) by {
                        if k < entry.len() {
                            assert(self.tile_store@[k] == entry[k]);
                        } else {
                            assert(self.tile_store@[k] == tile);
                        }
                    }
                }
            }
            i += 1;
        }
        let stored = self.tile_store.tiles();
        proof {
            assert forall|t: TileIndex| required_tiles@.contains(t) implies #[trigger] self
                .tile_store@.contains(t) by {
                let w = choose|w: int|
                    0 <= w < required_tiles@.len() && required_tiles@[w] == t;
                assert(self.tile_store@.contains(required_tiles@[w]));
            }
            assert(stored@.take(0).filter(required_pred(required_tiles@)) =~= Seq::<
                TileIndex,
            >::empty()) by {
                stored@.take(0).lemma_filter_len(required_pred(required_tiles@));
            }
            assert(stored@.skip(0) =~= stored@);
        }
        let mut j: usize = 0;
        while j < stored.len()
            invariant
                j <= stored.len(),
                self.tile_store.wf(),
                self.tile_store@ == stored@.take(j as int).filter(required_pred(required_tiles@))
                    + stored@.skip(j as int),
                forall|t: TileIndex|
                    required_tiles@.contains(t) ==> #[trigger] self.tile_store@.contains(t),
                forall|t: TileIndex|
                    #[trigger] self.tile_store@.contains(t) ==> required_tiles@.contains(t)
                        || exists|k: int| j <= k < stored@.len() && stored@[k] == t,
            decreases stored.len() - j,
        {
            let ghost pred = required_pred(required_tiles@);
            let ghost entry_store = self.tile_store@;
            let ghost take_j = stored@.take(j as int);
            let ghost take_j1 = stored@.take(j as int + 1);
            let tile = stored[j];
            proof {
                broadcast use vstd::seq::Seq::lemma_filter_push;

                assert(take_j1 =~= take_j.push(tile));
                assert(stored@.skip(j as int) =~= seq![tile] + stored@.skip(j as int + 1));
            }
            let needed = vec_contains(required_tiles, &tile);
            if !needed {
                self.tile_store.remove_if_not_needed(&tile);
            }
            proof {
                broadcast use vstd::seq::Seq::lemma_filter_push;
                broadcast use vstd::seq_lib::lemma_seq_contains_after_push;

                let f = take_j.filter(pred).len() as int;
                if needed {
                    assert(take_j1.filter(pred) == take_j.filter(pred).push(tile));
                    assert(self.tile_store@ =~= take_j1.filter(pred) + stored@.skip(
                        j as int + 1,
                    ));
                } else {
                    assert(take_j1.filter(pred) == take_j.filter(pred));
                    assert forall|m: int| 0 <= m < f implies entry_store[m] != tile by {
                        take_j.lemma_filter_pred(pred, m);
                    }
                    assert(entry_store[f] == tile);
                    let k = choose|k: int|
                        0 <= k < entry_store.len() && entry_store[k] == tile && self.tile_store@
                            == entry_store.remove(k);
                    assert(k == f);
                    entry_store.remove_ensures(f);
                    assert(self.tile_store@ =~= take_j.filter(pred) + stored@.skip(j as int + 1));
                }
                assert forall|t: TileIndex| #[trigger]
                    self.tile_store@.contains(t) && !required_tiles@.contains(t) implies exists|
                    k: int,
                |
                    j + 1 <= k < stored@.len() && stored@[k] == t by {
                    assert(t != stored@[j as int]);
                    assert(entry_store.contains(t));
                    let k = choose|k: int| j <= k < stored@.len() && stored@[k] == t;
                    assert(k != j);
                    assert(j + 1 <= k < stored@.len() && stored@[k] == t);
                }
            }
            j += 1;
        }
        proof {
            let pred = required_pred(required_tiles@);
            assert(stored@.take(stored@.len() as int) =~= stored@);
            assert(stored@.skip(stored@.len() as int) =~= Seq::<TileIndex>::empty());
            assert(self.tile_store@ =~= stored@.filter(pred));
            let appended = stored@.skip(start.len() as int);
            assert(stored@ =~= start + appended);
            vstd::seq::Seq::filter_distributes_over_add(start, appended, pred);
            lemma_filter_all_kept(appended, pred);
            assert(self.tile_store@ =~= start.filter(pred) + appended);
            let kept = start.filter(pred);
            assert(self.tile_store@.take(kept.len() as int) =~= kept);
            assert forall|m: int|
                kept.len() <= m < self.tile_store@.len() implies !start.contains(
                #[trigger] self.tile_store@[m],
            ) by {
                assert(self.tile_store@[m] == appended[m - kept.len()]);
                assert(appended[m - kept.len()] == stored@[m - kept.len() + start.len()]);
            }
        }
    }
}

/// Whether a vector of tiles holds the given tile.
fn vec_contains(v: &Vec<TileIndex>, tile: &TileIndex) -> (r: bool)
    ensures
        r == v@.contains(*tile),
{
    let mut i: usize = 0;
    while i < v.len()
        invariant
            i <= v.len(),
            forall|j: int| 0 <= j < i ==> v@[j] != *tile,
        decreases v.len() - i,
    {
        if v[i] == *tile {
            return true;
        }
        i += 1;
    }
    false
}

} // verus!
