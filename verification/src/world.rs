//! World lifecycle and per-tick orchestration: construction with rarity-sorted
//! catalogs, reset to a fresh run, the downhill scroll with row/obstacle
//! eviction and regeneration, and the simulation tick.

use vstd::prelude::*;
use crate::fixed::{scale_down, mul_fix};
use crate::game::{World, Player, PlayerType, TileType, ObjectType, Object};
use crate::rng::RandomSource;
use vstd::seq_lib::{to_multiset_build, to_multiset_insert};

verus! {

/// The rarity sort key of a tile type: the inverse of its distribution
/// weight, in thousandths (rarer types have larger keys).
pub open spec fn tile_rarity(t: TileType) -> int {
    1_000_000int / (t.distribution as int)
}

/// The rarity sort key of an obstacle type.
pub open spec fn object_rarity(t: ObjectType) -> int {
    1_000_000int / (t.distribution as int)
}

/// All obstacles shifted down by `d`, keeping only those still at or above
/// the player's trailing edge (shifted position not below zero), in order.
pub open spec fn shift_filter(s: Seq<(usize, Object)>, d: int) -> Seq<(usize, Object)>
    decreases s.len(),
{
    if s.len() == 0 {
        Seq::empty()
    } else {
        let rest = shift_filter(s.drop_last(), d);
        let e = s.last();
        let ny = e.1.position_y - d;
        if ny >= 0 {
            rest.push(
                (e.0, Object { position_x: e.1.position_x, position_y: ny as i64, rotation: e.1.rotation }),
            )
        } else {
            rest
        }
    }
}

/// Sort the tile catalog ascending by rarity (most common first), keeping
/// exactly the same entries.
fn sort_tiles(v: Vec<TileType>) -> (out: Vec<TileType>)
    requires
        forall|i: int| 0 <= i < v@.len() ==> (#[trigger] v@[i]).wf(),
    ensures
        out@.len() == v@.len(),
        out@.to_multiset() == v@.to_multiset(),
        forall|i: int| 0 <= i < out@.len() ==> (#[trigger] out@[i]).wf(),
        forall|a: int, b: int| 0 <= a < b < out@.len() ==> tile_rarity(out@[a]) <= tile_rarity(out@[b]),
{
    let mut out: Vec<TileType> = Vec::new();
    proof {
        assert(out@ =~= Seq::<TileType>::empty());
        assert(v@.take(0) =~= Seq::<TileType>::empty());
    }
    let mut i: usize = 0;
    while i < v.len()
        invariant
            forall|k: int| 0 <= k < v@.len() ==> (#[trigger] v@[k]).wf(),
            i <= v@.len(),
            out@.len() == i,
            out@.to_multiset() == v@.take(i as int).to_multiset(),
            forall|k: int| 0 <= k < out@.len() ==> (#[trigger] out@[k]).wf(),
            forall|a: int, b: int| 0 <= a < b < out@.len() ==> tile_rarity(out@[a]) <= tile_rarity(out@[b]),
        decreases v@.len() - i,
    {
        let e = v[i];
        let ke: u64 = 1_000_000 / (e.distribution as u64);
        let mut p: usize = 0;
        while p < out.len() && 1_000_000 / (out[p].distribution as u64) <= ke
            invariant
                forall|k: int| 0 <= k < out@.len() ==> (#[trigger] out@[k]).wf(),
                p <= out@.len(),
                ke == tile_rarity(e),
                e.wf(),
                forall|q: int| 0 <= q < p ==> tile_rarity(out@[q]) <= ke,
            decreases out@.len() - p,
        {
            p += 1;
        }
        let ghost prev = out@;
        out.insert(p, e);
        proof {
            to_multiset_insert(prev, p as int, e);
            assert(v@.take(i + 1).drop_last() =~= v@.take(i as int));
            to_multiset_build(v@.take(i as int), v@[i as int]);
            assert(v@.take(i + 1) =~= v@.take(i as int).push(v@[i as int]));
            assert forall|a: int, b: int| 0 <= a < b < out@.len()
                implies tile_rarity(out@[a]) <= tile_rarity(out@[b]) by {
                assert(out@ == prev.insert(p as int, e));
                if a < p && b < p {
                    assert(out@[a] == prev[a] && out@[b] == prev[b]);
                } else if a < p && b == p {
                    assert(out@[a] == prev[a]);
                } else if a < p && b > p {
                    assert(out@[a] == prev[a] && out@[b] == prev[b - 1]);
                } else if a == p {
                    assert(out@[b] == prev[b - 1] && b - 1 >= p);
                    assert(tile_rarity(prev[p as int]) > ke);
                } else {
                    assert(out@[a] == prev[a - 1] && out@[b] == prev[b - 1]);
                }
            }
        }
        i += 1;
    }
    proof {
        assert(v@.take(v@.len() as int) =~= v@);
    }
    out
}

/// Sort the obstacle catalog ascending by rarity (most common first),
/// keeping exactly the same entries.
fn sort_objects(v: Vec<ObjectType>) -> (out: Vec<ObjectType>)
    requires
        forall|i: int| 0 <= i < v@.len() ==> (#[trigger] v@[i]).wf(),
    ensures
        out@.len() == v@.len(),
        out@.to_multiset() == v@.to_multiset(),
        forall|i: int| 0 <= i < out@.len() ==> (#[trigger] out@[i]).wf(),
        forall|a: int, b: int| 0 <= a < b < out@.len() ==> object_rarity(out@[a]) <= object_rarity(out@[b]),
{
    let mut out: Vec<ObjectType> = Vec::new();
    proof {
        assert(out@ =~= Seq::<ObjectType>::empty());
        assert(v@.take(0) =~= Seq::<ObjectType>::empty());
    }
    let mut i: usize = 0;
    while i < v.len()
        invariant
            forall|k: int| 0 <= k < v@.len() ==> (#[trigger] v@[k]).wf(),
            i <= v@.len(),
            out@.len() == i,
            out@.to_multiset() == v@.take(i as int).to_multiset(),
            forall|k: int| 0 <= k < out@.len() ==> (#[trigger] out@[k]).wf(),
            forall|a: int, b: int| 0 <= a < b < out@.len() ==> object_rarity(out@[a]) <= object_rarity(out@[b]),
        decreases v@.len() - i,
    {
        let e = v[i];
        let ke: u64 = 1_000_000 / (e.distribution as u64);
        let mut p: usize = 0;
        while p < out.len() && 1_000_000 / (out[p].distribution as u64) <= ke
            invariant
                forall|k: int| 0 <= k < out@.len() ==> (#[trigger] out@[k]).wf(),
                p <= out@.len(),
                ke == object_rarity(e),
                e.wf(),
                forall|q: int| 0 <= q < p ==> object_rarity(out@[q]) <= ke,
            decreases out@.len() - p,
        {
            p += 1;
        }
        let ghost prev = out@;
        out.insert(p, e);
        proof {
            to_multiset_insert(prev, p as int, e);
            assert(v@.take(i + 1).drop_last() =~= v@.take(i as int));
            to_multiset_build(v@.take(i as int), v@[i as int]);
            assert(v@.take(i + 1) =~= v@.take(i as int).push(v@[i as int]));
            assert forall|a: int, b: int| 0 <= a < b < out@.len()
                implies object_rarity(out@[a]) <= object_rarity(out@[b]) by {
                assert(out@ == prev.insert(p as int, e));
                if a < p && b < p {
                    assert(out@[a] == prev[a] && out@[b] == prev[b]);
                } else if a < p && b == p {
                    assert(out@[a] == prev[a]);
                } else if a < p && b > p {
                    assert(out@[a] == prev[a] && out@[b] == prev[b - 1]);
                } else if a == p {
                    assert(out@[b] == prev[b - 1] && b - 1 >= p);
                    assert(object_rarity(prev[p as int]) > ke);
                } else {
                    assert(out@[a] == prev[a - 1] && out@[b] == prev[b - 1]);
                }
            }
        }
        i += 1;
    }
    proof {
        assert(v@.take(v@.len() as int) =~= v@);
    }
    out
}

impl World {
    /// The catalog index of the tile under the player: the cell at the floor
    /// of the x-position and one past the floor of the y-position (the cell
    /// just ahead in the downhill direction).
    pub open spec fn tile_index_under(self) -> int {
        self.tiles@[self.player.position_y / 1000 + 1]@[self.player.position_x / 1000] as int
    }

    /// Build a world from a validated catalog. The catalogs are sorted
    /// ascending by rarity, so index 0 is the most common type; the grid
    /// starts empty until `reset` generates it.
    pub fn new(player_type: PlayerType, tile_types: Vec<TileType>, object_types: Vec<ObjectType>)
        -> (w: World)
        requires
            1 <= tile_types@.len() <= 1_000_000,
            1 <= object_types@.len() <= 1_000_000,
            forall|i: int| 0 <= i < tile_types@.len() ==> (#[trigger] tile_types@[i]).wf(),
            forall|i: int| 0 <= i < object_types@.len() ==> (#[trigger] object_types@[i]).wf(),
        ensures
            w.catalogs_wf(),
            w.player_type == player_type,
            w.player.position_x == 0 && w.player.position_y == 0,
            w.player.rotation == 0 && w.player.angular_velocity == 0,
            w.player.velocity_x == 0 && w.player.velocity_y == 1000,
            w.real_y == 0,
            w.tiles@.len() == 0,
            w.objects@.len() == 0,
            w.tile_types@.to_multiset() == tile_types@.to_multiset(),
            w.object_types@.to_multiset() == object_types@.to_multiset(),
            forall|a: int, b: int| 0 <= a < b < w.tile_types@.len()
                ==> tile_rarity(w.tile_types@[a]) <= tile_rarity(w.tile_types@[b]),
            forall|a: int, b: int| 0 <= a < b < w.object_types@.len()
                ==> object_rarity(w.object_types@[a]) <= object_rarity(w.object_types@[b]),
    {
        let player = Player {
            position_x: 0,
            position_y: 0,
            rotation: 0,
            velocity_x: 0,
            velocity_y: 1000,
            angular_velocity: 0,
        };

        // Sort both catalogs from most common to most uncommon.
        let tile_types = sort_tiles(tile_types);
        let object_types = sort_objects(object_types);

        World {
            player,
            player_type,
            real_y: 0,
            tiles: Vec::new(),
            tile_types,
            objects: Vec::new(),
            object_types,
        }
    }

    /// Reinitialize the run: player centered at the top with no velocity, a
    /// zeroed distance counter, a freshly cleared grid and no obstacles. The
    /// resulting state is never terminal.
    pub fn reset(&mut self, width: u32, height: u32)
        requires
            old(self).catalogs_wf(),
            1 <= width <= 1_000_000,
            1 <= height <= 1_000_000,
        ensures
            final(self).wf(),
            final(self).player.position_x == width * 500,
            final(self).player.position_y == 0,
            final(self).player.velocity_x == 0 && final(self).player.velocity_y == 0,
            final(self).player.rotation == 0 && final(self).player.angular_velocity == 0,
            final(self).real_y == 0,
            final(self).grid_height() == height,
            final(self).grid_width() == width,
            forall|y: int, x: int| 0 <= y < height && 0 <= x < width
                ==> (#[trigger] final(self).tiles@[y]@[x]) == 0,
            final(self).objects@.len() == 0,
            final(self).tile_types@ == old(self).tile_types@,
            final(self).object_types@ == old(self).object_types@,
            final(self).player_type == old(self).player_type,
            !final(self).collided_spec(),
    {
        self.player.position_x = (width as i64) * 500;
        self.player.position_y = 0;
        self.player.rotation = 0;
        self.player.velocity_x = 0;
        self.player.velocity_y = 0;
        self.player.angular_velocity = 0;
        self.real_y = 0;

        self.generate_clear(width, height);
    }

    /// Shift the frame of reference downhill by `scrolling` rows: obstacles
    /// and the player move back, the distance counter advances by the same
    /// amount, obstacles behind the player are evicted, and for each row the
    /// oldest grid row is evicted and a fresh one (with obstacles) generated,
    /// keeping the grid height constant.
    pub fn scroll<R: RandomSource>(&mut self, scrolling: u32, rng: &mut R)
        requires
            old(self).wf(),
            scrolling as int <= old(self).grid_height(),
            scrolling >= 1 ==> old(self).grid_height() >= 2,
            0 <= old(self).real_y <= 4_000_000_000_000_000,
            -4_000_000_000_000_000 <= old(self).player.position_y <= 4_000_000_000_000_000,
        ensures
            final(self).wf(),
            final(self).grid_height() == old(self).grid_height(),
            final(self).grid_width() == old(self).grid_width(),
            final(self).real_y == old(self).real_y + scrolling * 1000,
            final(self).player.position_y == old(self).player.position_y - scrolling * 1000,
            final(self).real_y + final(self).player.position_y
                == old(self).real_y + old(self).player.position_y,
            final(self).player.position_x == old(self).player.position_x,
            final(self).player.rotation == old(self).player.rotation,
            final(self).player.velocity_x == old(self).player.velocity_x,
            final(self).player.velocity_y == old(self).player.velocity_y,
            final(self).player.angular_velocity == old(self).player.angular_velocity,
            forall|i: int| 0 <= i < final(self).objects@.len()
                ==> (#[trigger] final(self).objects@[i]).1.position_y >= 0,
            shift_filter(old(self).objects@, scrolling * 1000).is_prefix_of(final(self).objects@),
            forall|j: int| 0 <= j < old(self).grid_height() - scrolling
                ==> (#[trigger] final(self).tiles@[j])@ == old(self).tiles@[j + scrolling]@,
            final(self).tile_types@ == old(self).tile_types@,
            final(self).object_types@ == old(self).object_types@,
            final(self).player_type == old(self).player_type,
    {
        let d: i64 = (scrolling as i64) * 1000;
        // To zero out the effect of the map scrolling, everything in the
        // scene moves back by the scrolled distance.
        self.player.position_y = self.player.position_y - d;
        self.real_y = self.real_y + d;

        let mut kept: Vec<(usize, Object)> = Vec::new();
        let mut i: usize = 0;
        while i < self.objects.len()
            invariant
                self.objects_wf(),
                self.objects@ == old(self).objects@,
                i <= self.objects@.len(),
                d == scrolling * 1000,
                0 <= d <= 1_000_000_000,
                kept@ == shift_filter(self.objects@.take(i as int), d as int),
                forall|a: int| 0 <= a < kept@.len() ==> {
                    let e = #[trigger] kept@[a];
                    &&& (e.0 as int) < self.object_types@.len()
                    &&& 0 <= e.1.position_x <= 1_100_000_000
                    &&& 0 <= e.1.position_y <= 1_100_000_000
                },
            decreases self.objects@.len() - i,
        {
            let (id, o) = self.objects[i];
            let ny = o.position_y - d;
            proof {
                assert(self.objects@.take(i + 1).drop_last() =~= self.objects@.take(i as int));
                assert(self.objects@.take(i + 1).last() == self.objects@[i as int]);
            }
            if ny >= 0 {
                kept.push((id, Object { position_x: o.position_x, position_y: ny, rotation: o.rotation }));
            }
            i += 1;
        }
        proof {
            assert(self.objects@.take(self.objects@.len() as int) =~= self.objects@);
        }
        self.objects = kept;

        let h = self.tiles.len();
        let ghost t0 = self.tiles@;
        let ghost kept_seq = self.objects@;
        let mut k: u32 = 0;
        while k < scrolling
            invariant
                self.catalogs_wf(),
                self.grid_wf(),
                self.objects_wf(),
                k <= scrolling,
                scrolling as int <= h,
                scrolling >= 1 ==> h >= 2,
                1 <= h <= 1_000_000,
                self.grid_height() == h,
                self.grid_width() == old(self).grid_width(),
                forall|j: int| 0 <= j < h - k
                    ==> (#[trigger] self.tiles@[j])@ == t0[j + k]@,
                kept_seq.is_prefix_of(self.objects@),
                forall|i: int| 0 <= i < self.objects@.len()
                    ==> (#[trigger] self.objects@[i]).1.position_y >= 0,
                self.player == old(self).player.shifted_down(d as int),
                self.real_y == old(self).real_y + d,
                self.tile_types@ == old(self).tile_types@,
                self.object_types@ == old(self).object_types@,
                self.player_type == old(self).player_type,
            decreases scrolling - k,
        {
            self.tiles.remove(0);
            self.generate_row(rng);
            self.generate_objects(h - (k as usize), rng);
            k += 1;
        }
    }

    /// One simulation tick: look up the tile under the player, apply the
    /// constant downhill acceleration to the vertical velocity, advance the
    /// player by the integrator, and report whether the new state is
    /// terminal. The caller halts further ticks once it is.
    pub fn update(&mut self, dt: i64) -> (crashed: bool)
        requires
            old(self).wf(),
            0 <= dt <= 100,
            old(self).player.bounded(),
            -999_999_999_000 <= old(self).player.velocity_y <= 999_999_999_000,
            0 <= old(self).player.position_x,
            old(self).player.position_x < old(self).grid_width() * 1000,
            0 <= old(self).player.position_y,
            old(self).player.position_y / 1000 + 1 < old(self).grid_height(),
        ensures
            final(self).wf(),
            crashed == final(self).collided_spec(),
            ({
                let t = old(self).tile_types@[old(self).tile_index_under()];
                let boosted = Player {
                    velocity_y: (old(self).player.velocity_y + scale_down(1500 * dt)) as i64,
                    ..old(self).player
                };
                final(self).player == boosted.integrated(
                    t.forward_friction as int,
                    t.sideway_friction as int,
                    dt as int,
                )
            }),
            dt == 0 ==> final(self).player == old(self).player,
            -4_000_000_000_000_000 <= final(self).player.position_y <= 4_000_000_000_000_000,
            final(self).player.velocity_y >= 0
                ==> final(self).player.position_y >= old(self).player.position_y,
            final(self).tiles@ == old(self).tiles@,
            final(self).objects@ == old(self).objects@,
            final(self).real_y == old(self).real_y,
            final(self).tile_types@ == old(self).tile_types@,
            final(self).object_types@ == old(self).object_types@,
            final(self).player_type == old(self).player_type,
    {
        proof {
            assert(self.player.position_x as int / 1000 < self.grid_width()) by (nonlinear_arith)
                requires
                    0 <= self.player.position_x,
                    self.player.position_x < self.grid_width() * 1000,
                    self.grid_width() >= 1,
            ;
        }
        let col = ((self.player.position_x as u64) / 1000) as usize;
        let row = ((self.player.position_y as u64) / 1000) as usize + 1;
        let tile_id = self.tiles[row][col];
        let tile = self.tile_types[tile_id];

        self.player.velocity_y = self.player.velocity_y + mul_fix(1500, dt);
        proof {
            assert(tile.forward_friction * dt <= 1_000_000
                && tile.sideway_friction * dt <= 1_000_000) by (nonlinear_arith)
                requires
                    0 <= tile.forward_friction <= 10_000,
                    0 <= tile.sideway_friction <= 10_000,
                    0 <= dt <= 100,
            ;
        }
        self.player.update(&tile, dt);

        self.collided()
    }
}

} // verus!
