//! Procedural terrain and obstacle generation.
//!
//! Each new row picks a tile per column by a rarity-weighted, neighborhood-
//! biased acceptance draw; obstacles are placed per column by the same kind
//! of draw biased by nearby obstacle density. The acceptance chance is a
//! "one in N" integer; its computation is exact and verified, while the
//! draws themselves come from an injected `RandomSource`.

use vstd::prelude::*;
use crate::game::{World, Object};
use crate::rng::{RandomSource, one_in};

verus! {

/// The number of entries of `s` equal to `id`.
pub open spec fn count_eq(s: Seq<usize>, id: usize) -> int
    decreases s.len(),
{
    if s.len() == 0 {
        0
    } else {
        count_eq(s.drop_last(), id) + if s.last() == id { 1int } else { 0int }
    }
}

/// The "one in N" acceptance chance of a tile candidate: the inverse of its
/// distribution weight, halved (rounded up) once any neighbor matches, and
/// then boosted fivefold once at least four neighbors match.
pub open spec fn tile_chance_spec(distribution: int, similar: int) -> int {
    let base = 1_000_000int / distribution;
    if similar >= 1 {
        let halved = (base + 1999) / 2000;
        if similar >= 4 {
            5 * halved
        } else {
            halved
        }
    } else {
        base / 1000
    }
}

/// The "one in N" acceptance chance of an obstacle candidate: the inverse of
/// its distribution weight, halved (rounded up) once any placed obstacle is
/// near, and then boosted sixfold once at least two are near.
pub open spec fn object_chance_spec(distribution: int, close: int) -> int {
    let base = 1_000_000int / distribution;
    if close >= 1 {
        let halved = (base + 1999) / 2000;
        if close >= 2 {
            6 * halved
        } else {
            halved
        }
    } else {
        base / 1000
    }
}

/// The acceptance chance of a tile candidate with the given distribution
/// weight (in thousandths) and count of matching Moore neighbors.
pub fn tile_chance(distribution: i64, similar: usize) -> (c: u64)
    requires
        1 <= distribution <= 1_000_000_000,
    ensures
        c == tile_chance_spec(distribution as int, similar as int),
{
    let base: u64 = 1_000_000 / (distribution as u64);
    if similar >= 1 {
        let halved = (base + 1999) / 2000;
        if similar >= 4 {
            5 * halved
        } else {
            halved
        }
    } else {
        base / 1000
    }
}

/// The acceptance chance of an obstacle candidate with the given distribution
/// weight (in thousandths) and count of nearby placed obstacles.
pub fn object_chance(distribution: i64, close: usize) -> (c: u64)
    requires
        1 <= distribution <= 1_000_000_000,
    ensures
        c == object_chance_spec(distribution as int, close as int),
{
    let base: u64 = 1_000_000 / (distribution as u64);
    if close >= 1 {
        let halved = (base + 1999) / 2000;
        if close >= 2 {
            6 * halved
        } else {
            halved
        }
    } else {
        base / 1000
    }
}

/// Count how many of the given tile indices equal `id`.
fn count_matching(tiles: &Vec<usize>, id: usize) -> (n: usize)
    ensures
        n == count_eq(tiles@, id),
        n <= tiles@.len(),
{
    let mut n: usize = 0;
    let mut i: usize = 0;
    while i < tiles.len()
        invariant
            i <= tiles@.len(),
            n <= i,
            n == count_eq(tiles@.take(i as int), id),
        decreases tiles@.len() - i,
    {
        proof {
            assert(tiles@.take(i + 1).drop_last() =~= tiles@.take(i as int));
            assert(tiles@.take(i + 1).last() == tiles@[i as int]);
        }
        if tiles[i] == id {
            n += 1;
        }
        i += 1;
    }
    proof {
        assert(tiles@.take(tiles@.len() as int) =~= tiles@);
    }
    n
}

impl World {

    /// Reinitialize the grid to `height` rows of `width` columns of the
    /// fallback tile (catalog index 0), and remove every placed obstacle.
    pub fn generate_clear(&mut self, width: u32, height: u32)
        requires
            old(self).catalogs_wf(),
            1 <= width <= 1_000_000,
            1 <= height <= 1_000_000,
        ensures
            final(self).catalogs_wf(),
            final(self).grid_wf(),
            final(self).objects_wf(),
            final(self).grid_height() == height,
            final(self).grid_width() == width,
            forall|y: int, x: int| 0 <= y < height && 0 <= x < width
                ==> (#[trigger] final(self).tiles@[y]@[x]) == 0,
            final(self).objects@.len() == 0,
            final(self).player == old(self).player,
            final(self).player_type == old(self).player_type,
            final(self).real_y == old(self).real_y,
            final(self).tile_types@ == old(self).tile_types@,
            final(self).object_types@ == old(self).object_types@,
    {
        self.tiles.clear();
        self.objects.clear();

        let mut y: u32 = 0;
        while y < height
            invariant
                y <= height,
                self.tiles@.len() == y,
                forall|r: int| 0 <= r < y ==> (#[trigger] self.tiles@[r])@.len() == width,
                forall|r: int, c: int| 0 <= r < y && 0 <= c < width
                    ==> (#[trigger] self.tiles@[r]@[c]) == 0,
                self.objects@.len() == 0,
                self.player == old(self).player,
                self.player_type == old(self).player_type,
                self.real_y == old(self).real_y,
                self.tile_types@ == old(self).tile_types@,
                self.object_types@ == old(self).object_types@,
            decreases height - y,
        {
            let mut row: Vec<usize> = Vec::new();
            let mut x: u32 = 0;
            while x < width
                invariant
                    x <= width,
                    row@.len() == x,
                    forall|c: int| 0 <= c < x ==> (#[trigger] row@[c]) == 0,
                decreases width - x,
            {
                row.push(0);
                x += 1;
            }
            self.tiles.push(row);
            y += 1;
        }
    }

    /// Append exactly one procedurally chosen row at the far end of the grid.
    /// Per column, up to catalog-size trials draw a uniformly random tile
    /// candidate and accept it with the neighborhood-biased chance; on
    /// exhaustion the fallback tile 0 is committed.
    pub fn generate_row<R: RandomSource>(&mut self, rng: &mut R)
        requires
            old(self).catalogs_wf(),
            old(self).grid_wf(),
            old(self).grid_height() < 1_000_000,
        ensures
            final(self).catalogs_wf(),
            final(self).grid_wf(),
            final(self).grid_height() == old(self).grid_height() + 1,
            final(self).grid_width() == old(self).grid_width(),
            forall|r: int| 0 <= r < old(self).grid_height()
                ==> (#[trigger] final(self).tiles@[r])@ == old(self).tiles@[r]@,
            final(self).tiles@.last()@.len() == old(self).grid_width(),
            forall|c: int| 0 <= c < old(self).grid_width()
                ==> (#[trigger] final(self).tiles@.last()@[c]) < final(self).tile_types@.len(),
            final(self).player == old(self).player,
            final(self).player_type == old(self).player_type,
            final(self).real_y == old(self).real_y,
            final(self).objects@ == old(self).objects@,
            final(self).tile_types@ == old(self).tile_types@,
            final(self).object_types@ == old(self).object_types@,
    {
        let w = self.width();
        let y = self.height();
        let count = self.tile_types.len();

        let mut row: Vec<usize> = Vec::new();
        let mut x: usize = 0;
        while x < w
            invariant
                old(self).catalogs_wf(),
                old(self).grid_wf(),
                *self == *old(self),
                w == self.grid_width(),
                y == self.grid_height(),
                y < 1_000_000,
                count == self.tile_types@.len(),
                1 <= count <= 1_000_000,
                x <= w,
                row@.len() == x,
                forall|c: int| 0 <= c < x ==> (#[trigger] row@[c]) < count,
            decreases w - x,
        {
            // If no candidate is accepted, fall back on the most common tile
            // type (the first catalog entry).
            let mut chosen: usize = 0;
            let mut t: usize = 0;
            while t < count
                invariant
                    old(self).catalogs_wf(),
                    old(self).grid_wf(),
                    *self == *old(self),
                    w == self.grid_width(),
                    y == self.grid_height(),
                    y < 1_000_000,
                    count == self.tile_types@.len(),
                    1 <= count <= 1_000_000,
                    x < w,
                    chosen < count,
                    t <= count,
                decreases count - t,
            {
                let id = rng.below(count as u64) as usize;
                let neighbors = self.get_close_tiles(x, y);
                let similar = count_matching(&neighbors, id);
                let chance = tile_chance(self.tile_types[id].distribution, similar);
                if one_in(rng, chance) {
                    chosen = id;
                    break;
                }
                t += 1;
            }
            row.push(chosen);
            x += 1;
        }

        self.tiles.push(row);
    }

    /// Possibly place obstacles anchored at the row `height`, one candidate
    /// run per column. An accepted draw commits a second, independently
    /// re-rolled obstacle type at the column's center, half a cell above the
    /// row's position.
    pub fn generate_objects<R: RandomSource>(&mut self, height: usize, rng: &mut R)
        requires
            old(self).catalogs_wf(),
            old(self).grid_wf(),
            old(self).objects_wf(),
            height <= 1_000_000,
        ensures
            final(self).catalogs_wf(),
            final(self).grid_wf(),
            final(self).objects_wf(),
            final(self).objects@.len() >= old(self).objects@.len(),
            forall|j: int| 0 <= j < old(self).objects@.len()
                ==> (#[trigger] final(self).objects@[j]) == old(self).objects@[j],
            forall|j: int| old(self).objects@.len() <= j < final(self).objects@.len() ==> {
                let e = #[trigger] final(self).objects@[j];
                &&& (e.0 as int) < final(self).object_types@.len()
                &&& e.1.position_y == height * 1000 + 500
                &&& 500 <= e.1.position_x < final(self).grid_width() * 1000
                &&& e.1.rotation == 0
            },
            final(self).player == old(self).player,
            final(self).player_type == old(self).player_type,
            final(self).real_y == old(self).real_y,
            forall|r: int| 0 <= r < old(self).grid_height()
                ==> (#[trigger] final(self).tiles@[r])@ == old(self).tiles@[r]@,
            final(self).grid_height() == old(self).grid_height(),
            final(self).grid_width() == old(self).grid_width(),
            final(self).tile_types@ == old(self).tile_types@,
            final(self).object_types@ == old(self).object_types@,
    {
        let w = self.width();
        let count = self.object_types.len();
        let anchor_y: i64 = (height as i64) * 1000 + 500;

        let mut x: usize = 0;
        while x < w
            invariant
                self.catalogs_wf(),
                self.grid_wf(),
                self.objects_wf(),
                w == self.grid_width(),
                count == self.object_types@.len(),
                1 <= count <= 1_000_000,
                x <= w,
                height <= 1_000_000,
                anchor_y == height * 1000 + 500,
                self.objects@.len() >= old(self).objects@.len(),
                forall|j: int| 0 <= j < old(self).objects@.len()
                    ==> (#[trigger] self.objects@[j]) == old(self).objects@[j],
                forall|j: int| old(self).objects@.len() <= j < self.objects@.len() ==> {
                    let e = #[trigger] self.objects@[j];
                    &&& (e.0 as int) < self.object_types@.len()
                    &&& e.1.position_y == height * 1000 + 500
                    &&& 500 <= e.1.position_x < self.grid_width() * 1000
                    &&& e.1.rotation == 0
                },
                self.player == old(self).player,
                self.player_type == old(self).player_type,
                self.real_y == old(self).real_y,
                self.tiles@ == old(self).tiles@,
                self.tile_types@ == old(self).tile_types@,
                self.object_types@ == old(self).object_types@,
            decreases w - x,
        {
            // The column's center, half a cell above the row's position.
            let anchor_x: i64 = (x as i64) * 1000 + 500;
            let mut t: usize = 0;
            while t < count
                invariant
                    self.catalogs_wf(),
                    self.grid_wf(),
                    self.objects_wf(),
                    w == self.grid_width(),
                    count == self.object_types@.len(),
                    1 <= count <= 1_000_000,
                    x < w,
                    t <= count,
                    height <= 1_000_000,
                    anchor_x == x * 1000 + 500,
                    anchor_y == height * 1000 + 500,
                    self.objects@.len() >= old(self).objects@.len(),
                    forall|j: int| 0 <= j < old(self).objects@.len()
                        ==> (#[trigger] self.objects@[j]) == old(self).objects@[j],
                    forall|j: int| old(self).objects@.len() <= j < self.objects@.len() ==> {
                        let e = #[trigger] self.objects@[j];
                        &&& (e.0 as int) < self.object_types@.len()
                        &&& e.1.position_y == height * 1000 + 500
                        &&& 500 <= e.1.position_x < self.grid_width() * 1000
                        &&& e.1.rotation == 0
                    },
                    self.player == old(self).player,
                    self.player_type == old(self).player_type,
                    self.real_y == old(self).real_y,
                    self.tiles@ == old(self).tiles@,
                    self.tile_types@ == old(self).tile_types@,
                    self.object_types@ == old(self).object_types@,
                decreases count - t,
            {
                let id = rng.below(count as u64) as usize;
                let close = self.objects_in_radius(3000, anchor_x, anchor_y).len();
                let chance = object_chance(self.object_types[id].distribution, close);
                if one_in(rng, chance) {
                    // The accepted candidate only governed the roll: the type
                    // actually placed is re-rolled independently.
                    let placed = rng.below(count as u64) as usize;
                    self.objects.push((placed, Object::new(anchor_x, anchor_y)));
                    break;
                }
                t += 1;
            }
            x += 1;
        }
    }
}

} // verus!
