//! Core data model: catalog entries, placed obstacles, the player's kinematic
//! state, and the world's read-only queries (neighborhood lookup, radius
//! lookup, collision).
//!
//! Coordinates, velocities, rotations, friction coefficients and time steps
//! are milli-unit fixed-point `i64` values (see `fixed`).

use vstd::prelude::*;
use crate::fixed::{scale_down, mul_fix_spec, decay_spec, mul_fix, decay, lemma_scale_product_bound,
    lemma_scale_down_bounds};
use crate::trig::{cos_spec, sin_spec, cos_milli, sin_milli};

verus! {

/// Gameplay parameters of one kind of terrain tile (snow, ice, ...).
#[derive(Clone, Copy)]
pub struct TileType {
    /// Per-second exponential decay rate of the whole velocity, in thousandths.
    pub forward_friction: i64,
    /// Per-second decay rate of the velocity component along the heading axis.
    pub sideway_friction: i64,
    /// Spawn distribution weight, in thousandths; higher is more common.
    pub distribution: i64,
    /// Opaque visual handle; the core never inspects it.
    pub texture: u64,
}

impl TileType {
    pub open spec fn wf(self) -> bool {
        &&& 0 <= self.forward_friction <= 10_000
        &&& 0 <= self.sideway_friction <= 10_000
        &&& 1 <= self.distribution <= 1_000_000_000
    }
}

/// Shared parameters of one kind of obstacle (a rock, a tree, ...).
#[derive(Clone, Copy)]
pub struct ObjectType {
    /// Opaque visual handle; the core never inspects it.
    pub texture: u64,
    /// Spawn distribution weight, in thousandths; higher is more common.
    pub distribution: i64,
    /// Full extent of the axis-aligned hitbox along x, in thousandths.
    pub hitbox_x: i64,
    /// Full extent of the axis-aligned hitbox along y, in thousandths.
    pub hitbox_y: i64,
}

impl ObjectType {
    pub open spec fn wf(self) -> bool {
        &&& 1 <= self.distribution <= 1_000_000_000
        &&& 0 <= self.hitbox_x <= 1_000_000_000
        &&& 0 <= self.hitbox_y <= 1_000_000_000
    }
}

/// Shared parameters of the player kind: appearance only.
#[derive(Clone, Copy)]
pub struct PlayerType {
    /// Opaque visual handle; the core never inspects it.
    pub texture: u64,
}

/// An obstacle placed in the scene, in continuous world coordinates.
#[derive(Clone, Copy, PartialEq, Eq, Structural, Debug)]
pub struct Object {
    pub position_x: i64,
    pub position_y: i64,
    pub rotation: i64,
}

impl Object {
    pub fn new(position_x: i64, position_y: i64) -> (o: Object)
        ensures
            o.position_x == position_x,
            o.position_y == position_y,
            o.rotation == 0,
    {
        Object { position_x, position_y, rotation: 0 }
    }
}

/// The player's kinematic state, advanced every tick by the integrator.
#[derive(Clone, Copy, PartialEq, Eq, Structural, Debug)]
pub struct Player {
    pub position_x: i64,
    pub position_y: i64,
    /// Heading angle in milli-radians.
    pub rotation: i64,
    pub velocity_x: i64,
    pub velocity_y: i64,
    /// Milli-radians per second.
    pub angular_velocity: i64,
}

impl Player {
    /// All kinematic fields within the range the integrator accepts.
    pub open spec fn bounded(self) -> bool {
        &&& -1_000_000_000_000 <= self.position_x <= 1_000_000_000_000
        &&& -1_000_000_000_000 <= self.position_y <= 1_000_000_000_000
        &&& -1_000_000_000_000 <= self.rotation <= 1_000_000_000_000
        &&& -1_000_000_000_000 <= self.velocity_x <= 1_000_000_000_000
        &&& -1_000_000_000_000 <= self.velocity_y <= 1_000_000_000_000
        &&& -1_000_000_000_000 <= self.angular_velocity <= 1_000_000_000_000
    }

    /// The same kinematic state moved back by `d` along the downhill axis.
    pub open spec fn shifted_down(self, d: int) -> Player {
        Player { position_y: (self.position_y - d) as i64, ..self }
    }

    /// One forward-Euler step of the friction integrator, in exact fixed-point
    /// arithmetic. The heading axis is `(-cos r, sin r)`; the sideways
    /// velocity is the heading scaled by the velocity's projection onto it.
    /// Forward friction decays the whole velocity, sideways friction decays
    /// the sideways component and (at half strength) the angular velocity;
    /// position and rotation then advance by the decayed rates.
    pub open spec fn integrated(self, ff: int, sf: int, dt: int) -> Player {
        let hx = -cos_spec(self.rotation as int);
        let hy = sin_spec(self.rotation as int);
        let dot = scale_down(self.velocity_x * hx) + scale_down(self.velocity_y * hy);
        let sx = scale_down(dot * hx);
        let sy = scale_down(dot * hy);
        let ffd = scale_down(ff * dt);
        let sfd = scale_down(sf * dt);
        let vx = decay_spec(self.velocity_x as int, ffd) - scale_down(sx * sfd);
        let vy = decay_spec(self.velocity_y as int, ffd) - scale_down(sy * sfd);
        let av = decay_spec(self.angular_velocity as int, sfd / 2);
        Player {
            position_x: (self.position_x + scale_down(vx * dt)) as i64,
            position_y: (self.position_y + scale_down(vy * dt)) as i64,
            rotation: (self.rotation + scale_down(av * dt)) as i64,
            velocity_x: vx as i64,
            velocity_y: vy as i64,
            angular_velocity: av as i64,
        }
    }

    /// Apply one tick of steering torque ahead of the integrator: the angular
    /// velocity moves toward the held direction's target turn rate, damped by
    /// a fifth of its current value per second, so that reversing direction
    /// steers faster than continuing a turn. `steering` is -1, 0 or +1, from
    /// opposing key states (opposing keys cancel upstream).
    pub fn apply_steering(&mut self, steering: i64, dt: i64)
        requires
            -1 <= steering <= 1,
            0 <= dt <= 1_000_000,
            -1_000_000_000_000 <= old(self).angular_velocity <= 1_000_000_000_000,
        ensures
            final(self).angular_velocity == old(self).angular_velocity + mul_fix_spec(
                steering * 15_000 - mul_fix_spec(old(self).angular_velocity as int, 200),
                dt as int,
            ),
            dt == 0 ==> *final(self) == *old(self),
            *final(self) == (Player { angular_velocity: final(self).angular_velocity, ..*old(self) }),
            -2_000_000_000_000_000 <= final(self).angular_velocity <= 2_000_000_000_000_000,
    {
        proof {
            lemma_scale_down_bounds((self.angular_velocity as int) * 200, 200_000_000_000_000);
        }
        let damping = mul_fix(self.angular_velocity, 200);
        let target = steering * 15_000 - damping;
        proof {
            assert(-210_000_000_000_000_000 <= (target as int) * (dt as int)
                <= 210_000_000_000_000_000) by (nonlinear_arith)
                requires
                    -210_000_000_000 <= target <= 210_000_000_000,
                    0 <= dt <= 1_000_000,
            ;
            assert(-210_000_000_000_000 <= scale_down((target as int) * (dt as int))
                <= 210_000_000_000_000);
        }
        self.angular_velocity = self.angular_velocity + mul_fix(target, dt);
    }

    /// Advance the player one time step of `dt` milli-seconds over the given
    /// tile. Pure numeric transform: mutates the player in place and cannot
    /// fail. The friction-by-time products are capped at one whole unit per
    /// tick, the regime in which exponential decay never amplifies.
    pub fn update(&mut self, under_tile: &TileType, dt: i64)
        requires
            0 <= dt <= 1_000_000,
            0 <= under_tile.forward_friction <= 1_000_000_000,
            0 <= under_tile.sideway_friction <= 1_000_000_000,
            under_tile.forward_friction * dt <= 1_000_000,
            under_tile.sideway_friction * dt <= 1_000_000,
            old(self).bounded(),
        ensures
            *final(self) == old(self).integrated(
                under_tile.forward_friction as int,
                under_tile.sideway_friction as int,
                dt as int,
            ),
            dt == 0 ==> *final(self) == *old(self),
            -3_000_000_000_000 <= final(self).velocity_x <= 3_000_000_000_000,
            -3_000_000_000_000 <= final(self).velocity_y <= 3_000_000_000_000,
            -1_000_000_000_000 <= final(self).angular_velocity <= 1_000_000_000_000,
            -4_000_000_000_000_000 <= final(self).position_x <= 4_000_000_000_000_000,
            -4_000_000_000_000_000 <= final(self).position_y <= 4_000_000_000_000_000,
            -4_000_000_000_000_000 <= final(self).rotation <= 4_000_000_000_000_000,
            final(self).velocity_y >= 0 ==> final(self).position_y >= old(self).position_y,
    {
        let hx = -cos_milli(self.rotation);
        let hy = sin_milli(self.rotation);
        proof {
            lemma_scale_product_bound(self.velocity_x as int, hx as int, 1_000_000_000_000);
            lemma_scale_product_bound(self.velocity_y as int, hy as int, 1_000_000_000_000);
        }
        let dot = mul_fix(self.velocity_x, hx) + mul_fix(self.velocity_y, hy);
        proof {
            lemma_scale_product_bound(dot as int, hx as int, 2_000_000_000_000);
            lemma_scale_product_bound(dot as int, hy as int, 2_000_000_000_000);
        }
        let sx = mul_fix(dot, hx);
        let sy = mul_fix(dot, hy);
        proof {
            assert(0 <= under_tile.forward_friction * dt) by (nonlinear_arith)
                requires
                    under_tile.forward_friction >= 0,
                    dt >= 0,
            ;
            assert(0 <= under_tile.sideway_friction * dt) by (nonlinear_arith)
                requires
                    under_tile.sideway_friction >= 0,
                    dt >= 0,
            ;
        }
        let ffd = mul_fix(under_tile.forward_friction, dt);
        let sfd = mul_fix(under_tile.sideway_friction, dt);
        let vx1 = decay(self.velocity_x, ffd);
        let vy1 = decay(self.velocity_y, ffd);
        proof {
            lemma_scale_product_bound(sx as int, sfd as int, 2_000_000_000_000);
            lemma_scale_product_bound(sy as int, sfd as int, 2_000_000_000_000);
        }
        let vx = vx1 - mul_fix(sx, sfd);
        let vy = vy1 - mul_fix(sy, sfd);
        let av = decay(self.angular_velocity, ((sfd as u64) / 2) as i64);
        proof {
            assert(-3_000_000_000_000_000_000 <= (vx as int) * (dt as int) <= 3_000_000_000_000_000_000)
                by (nonlinear_arith)
                requires
                    -3_000_000_000_000 <= vx <= 3_000_000_000_000,
                    0 <= dt <= 1_000_000,
            ;
            assert(-3_000_000_000_000_000_000 <= (vy as int) * (dt as int) <= 3_000_000_000_000_000_000)
                by (nonlinear_arith)
                requires
                    -3_000_000_000_000 <= vy <= 3_000_000_000_000,
                    0 <= dt <= 1_000_000,
            ;
            assert(-1_000_000_000_000_000_000 <= (av as int) * (dt as int) <= 1_000_000_000_000_000_000)
                by (nonlinear_arith)
                requires
                    -1_000_000_000_000 <= av <= 1_000_000_000_000,
                    0 <= dt <= 1_000_000,
            ;
            lemma_scale_down_bounds((vx as int) * (dt as int), 3_000_000_000_000_000_000);
            lemma_scale_down_bounds((vy as int) * (dt as int), 3_000_000_000_000_000_000);
            lemma_scale_down_bounds((av as int) * (dt as int), 1_000_000_000_000_000_000);
            assert(vy >= 0 ==> (vy as int) * (dt as int) >= 0) by (nonlinear_arith)
                requires
                    dt >= 0,
            ;
        }
        self.velocity_x = vx;
        self.velocity_y = vy;
        self.angular_velocity = av;
        self.position_x = self.position_x + mul_fix(vx, dt);
        self.position_y = self.position_y + mul_fix(vy, dt);
        self.rotation = self.rotation + mul_fix(av, dt);
    }
}

/// The whole mutable simulation state.
pub struct World {
    pub player: Player,
    pub player_type: PlayerType,
    /// Cumulative scrolled-past distance, in thousandths; never decreases.
    pub real_y: i64,
    /// Rows of tile indices into the tile catalog; row 0 is nearest the
    /// player, new rows are appended at the far end.
    pub tiles: Vec<Vec<usize>>,
    pub tile_types: Vec<TileType>,
    /// Placed obstacles: an object-catalog index with a scene position.
    pub objects: Vec<(usize, Object)>,
    pub object_types: Vec<ObjectType>,
}

impl World {
    pub open spec fn grid_height(self) -> int {
        self.tiles@.len() as int
    }

    pub open spec fn grid_width(self) -> int {
        self.tiles@[0]@.len() as int
    }

    /// Catalogs are non-empty, of moderate size, with every entry's
    /// parameters in range.
    pub open spec fn catalogs_wf(self) -> bool {
        &&& 1 <= self.tile_types@.len() <= 1_000_000
        &&& 1 <= self.object_types@.len() <= 1_000_000
        &&& forall|i: int| 0 <= i < self.tile_types@.len() ==> (#[trigger] self.tile_types@[i]).wf()
        &&& forall|i: int| 0 <= i < self.object_types@.len() ==> (#[trigger] self.object_types@[i]).wf()
    }

    /// The grid is non-empty and rectangular and every tile index is valid.
    pub open spec fn grid_wf(self) -> bool {
        &&& 1 <= self.grid_height() <= 1_000_000
        &&& 1 <= self.grid_width() <= 1_000_000
        &&& forall|y: int| 0 <= y < self.grid_height()
            ==> (#[trigger] self.tiles@[y])@.len() == self.grid_width()
        &&& forall|y: int, x: int| 0 <= y < self.grid_height() && 0 <= x < self.grid_width()
            ==> (#[trigger] self.tiles@[y]@[x]) < self.tile_types@.len()
    }

    /// Every placed obstacle has a valid catalog index and in-range,
    /// non-negative scene coordinates.
    pub open spec fn objects_wf(self) -> bool {
        forall|i: int| 0 <= i < self.objects@.len() ==> {
            let e = #[trigger] self.objects@[i];
            &&& (e.0 as int) < self.object_types@.len()
            &&& 0 <= e.1.position_x <= 1_100_000_000
            &&& 0 <= e.1.position_y <= 1_100_000_000
        }
    }

    pub open spec fn wf(self) -> bool {
        self.catalogs_wf() && self.grid_wf() && self.objects_wf()
    }

    pub fn width(&self) -> (w: usize)
        requires
            self.tiles@.len() >= 1,
        ensures
            w == self.grid_width(),
    {
        self.tiles[0].len()
    }

    pub fn height(&self) -> (h: usize)
        ensures
            h == self.grid_height(),
    {
        self.tiles.len()
    }

    /// Obstacle `i` lies within Euclidean distance `radius` of the point.
    pub open spec fn within_radius(self, i: int, radius: int, px: int, py: int) -> bool {
        let o = self.objects@[i].1;
        (o.position_x - px) * (o.position_x - px) + (o.position_y - py) * (o.position_y - py)
            <= radius * radius
    }

    /// Indices of all obstacles whose center lies within Euclidean distance
    /// `radius` of the point, in ascending order.
    pub fn objects_in_radius(&self, radius: i64, px: i64, py: i64) -> (res: Vec<usize>)
        requires
            self.objects_wf(),
            0 <= radius <= 1_100_000_000,
            -1_100_000_000 <= px <= 1_100_000_000,
            -1_100_000_000 <= py <= 1_100_000_000,
        ensures
            forall|a: int| 0 <= a < res@.len() ==> ((#[trigger] res@[a]) as int) < self.objects@.len()
                && self.within_radius(res@[a] as int, radius as int, px as int, py as int),
            forall|j: int| 0 <= j < self.objects@.len()
                && self.within_radius(j, radius as int, px as int, py as int)
                ==> res@.contains(j as usize),
            forall|a: int, b: int| 0 <= a < b < res@.len() ==> res@[a] < res@[b],
    {
        proof {
            assert(0 <= (radius as int) * (radius as int) <= 1_210_000_000_000_000_000)
                by (nonlinear_arith)
                requires
                    0 <= radius <= 1_100_000_000,
            ;
        }
        let r2: u64 = (radius as u64) * (radius as u64);
        let mut res: Vec<usize> = Vec::new();
        let mut i: usize = 0;
        while i < self.objects.len()
            invariant
                self.objects_wf(),
                0 <= radius <= 1_100_000_000,
                -1_100_000_000 <= px <= 1_100_000_000,
                -1_100_000_000 <= py <= 1_100_000_000,
                r2 == (radius as int) * (radius as int),
                i <= self.objects@.len(),
                forall|a: int| 0 <= a < res@.len() ==> ((#[trigger] res@[a]) as int) < i
                    && self.within_radius(res@[a] as int, radius as int, px as int, py as int),
                forall|j: int| 0 <= j < i
                    && self.within_radius(j, radius as int, px as int, py as int)
                    ==> res@.contains(j as usize),
                forall|a: int, b: int| 0 <= a < b < res@.len() ==> res@[a] < res@[b],
            decreases self.objects@.len() - i,
        {
            let o = self.objects[i].1;
            let dx: i64 = o.position_x - px;
            let dy: i64 = o.position_y - py;
            let ux: u64 = (if dx >= 0 { dx } else { -dx }) as u64;
            let uy: u64 = (if dy >= 0 { dy } else { -dy }) as u64;
            proof {
                assert((ux as int) * (ux as int) == (dx as int) * (dx as int)
                    && (ux as int) * (ux as int) <= 4_840_000_000_000_000_000) by (nonlinear_arith)
                    requires
                        ux as int == (if dx >= 0 { dx as int } else { -(dx as int) }),
                        -2_200_000_000 <= dx <= 2_200_000_000,
                ;
                assert((uy as int) * (uy as int) == (dy as int) * (dy as int)
                    && (uy as int) * (uy as int) <= 4_840_000_000_000_000_000) by (nonlinear_arith)
                    requires
                        uy as int == (if dy >= 0 { dy as int } else { -(dy as int) }),
                        -2_200_000_000 <= dy <= 2_200_000_000,
                ;
            }
            let d2: u64 = ux * ux + uy * uy;
            if d2 <= r2 {
                let ghost prev = res@;
                res.push(i);
                proof {
                    assert forall|j: int| 0 <= j < i + 1
                        && self.within_radius(j, radius as int, px as int, py as int)
                        implies res@.contains(j as usize) by {
                        if j < i {
                            assert(prev.contains(j as usize));
                            let a = choose|a: int| 0 <= a < prev.len() && prev[a] == j as usize;
                            assert(res@[a] == j as usize);
                        } else {
                            assert(res@[res@.len() - 1] == i as usize);
                        }
                    }
                }
            } else {
                proof {
                    assert(!self.within_radius(i as int, radius as int, px as int, py as int));
                }
            }
            i += 1;
        }
        res
    }

    /// The direction offsets of the Moore neighborhood, in lookup order.
    pub open spec fn neighbor_dir(k: int) -> (int, int) {
        if k == 0 { (1, 0) }
        else if k == 1 { (-1, 0) }
        else if k == 2 { (0, 1) }
        else if k == 3 { (0, -1) }
        else if k == 4 { (1, 1) }
        else if k == 5 { (-1, -1) }
        else if k == 6 { (1, -1) }
        else { (-1, 1) }
    }

    /// The neighbor offset `(dx, dy)` from `(x, y)` lands inside the grid.
    pub open spec fn neighbor_in_grid(self, x: int, y: int, k: int) -> bool {
        let (dx, dy) = World::neighbor_dir(k);
        &&& 0 <= x + dx < self.grid_width()
        &&& 0 <= y + dy < self.grid_height()
    }

    /// The tiles of the first `k` neighborhood directions around `(x, y)`,
    /// skipping the directions that leave the grid.
    pub open spec fn close_tiles_upto(self, x: int, y: int, k: int) -> Seq<usize>
        decreases k,
    {
        if k <= 0 {
            Seq::empty()
        } else {
            let prev = self.close_tiles_upto(x, y, k - 1);
            let (dx, dy) = World::neighbor_dir(k - 1);
            if self.neighbor_in_grid(x, y, k - 1) {
                prev.push(self.tiles@[y + dy]@[x + dx])
            } else {
                prev
            }
        }
    }

    /// The tile indices of the Moore neighborhood of `(x, y)`: the up-to-8
    /// adjacent cells, with out-of-grid neighbors silently omitted.
    pub open spec fn close_tiles_spec(self, x: int, y: int) -> Seq<usize> {
        self.close_tiles_upto(x, y, 8)
    }

    /// Gets the neighboring tiles with a Moore neighborhood; neighbors
    /// outside the grid are omitted (no wraparound).
    pub fn get_close_tiles(&self, x: usize, y: usize) -> (res: Vec<usize>)
        requires
            self.grid_wf(),
            x <= 1_000_000,
            y <= 1_000_000,
        ensures
            res@ == self.close_tiles_spec(x as int, y as int),
    {
        proof {
            reveal_with_fuel(World::close_tiles_upto, 10);
        }
        let w = self.width();
        let h = self.height();
        let xi: i64 = x as i64;
        let yi: i64 = y as i64;
        let mut res: Vec<usize> = Vec::new();

        if 0 <= xi + 1 && xi + 1 < w as i64 && 0 <= yi && yi < h as i64 {
            res.push(self.tiles[y][x + 1]);
        }
        assert(res@ == self.close_tiles_upto(x as int, y as int, 1));
        if 0 <= xi - 1 && xi - 1 < w as i64 && 0 <= yi && yi < h as i64 {
            res.push(self.tiles[y][x - 1]);
        }
        assert(res@ == self.close_tiles_upto(x as int, y as int, 2));
        if 0 <= xi && xi < w as i64 && 0 <= yi + 1 && yi + 1 < h as i64 {
            res.push(self.tiles[y + 1][x]);
        }
        assert(res@ == self.close_tiles_upto(x as int, y as int, 3));
        if 0 <= xi && xi < w as i64 && 0 <= yi - 1 && yi - 1 < h as i64 {
            res.push(self.tiles[y - 1][x]);
        }
        assert(res@ == self.close_tiles_upto(x as int, y as int, 4));
        if 0 <= xi + 1 && xi + 1 < w as i64 && 0 <= yi + 1 && yi + 1 < h as i64 {
            res.push(self.tiles[y + 1][x + 1]);
        }
        assert(res@ == self.close_tiles_upto(x as int, y as int, 5));
        if 0 <= xi - 1 && xi - 1 < w as i64 && 0 <= yi - 1 && yi - 1 < h as i64 {
            res.push(self.tiles[y - 1][x - 1]);
        }
        assert(res@ == self.close_tiles_upto(x as int, y as int, 6));
        if 0 <= xi + 1 && xi + 1 < w as i64 && 0 <= yi - 1 && yi - 1 < h as i64 {
            res.push(self.tiles[y - 1][x + 1]);
        }
        assert(res@ == self.close_tiles_upto(x as int, y as int, 7));
        if 0 <= xi - 1 && xi - 1 < w as i64 && 0 <= yi + 1 && yi + 1 < h as i64 {
            res.push(self.tiles[y + 1][x - 1]);
        }
        assert(res@ == self.close_tiles_upto(x as int, y as int, 8));
        res
    }

    /// The player's position lies inside obstacle `i`'s axis-aligned hitbox,
    /// bounds inclusive on both axes.
    pub open spec fn object_hit(self, i: int) -> bool {
        let id = self.objects@[i].0;
        let o = self.objects@[i].1;
        let t = self.object_types@[id as int];
        &&& o.position_x - t.hitbox_x / 2 <= self.player.position_x <= o.position_x + t.hitbox_x / 2
        &&& o.position_y - t.hitbox_y / 2 <= self.player.position_y <= o.position_y + t.hitbox_y / 2
    }

    /// The terminal condition: the player has left the course sideways, or
    /// stands within some placed obstacle's hitbox.
    pub open spec fn collided_spec(self) -> bool {
        ||| self.player.position_x <= 0
        ||| self.player.position_x >= self.grid_width() * 1000
        ||| exists|i: int| 0 <= i < self.objects@.len() && self.object_hit(i)
    }

    /// Whether the current state is terminal. Pure query, no mutation.
    pub fn collided(&self) -> (r: bool)
        requires
            self.catalogs_wf(),
            self.grid_wf(),
            self.objects_wf(),
        ensures
            r == self.collided_spec(),
    {
        let w = self.width();
        if self.player.position_x <= 0 || self.player.position_x >= (w as i64) * 1000 {
            return true;
        }

        let mut i: usize = 0;
        while i < self.objects.len()
            invariant
                self.catalogs_wf(),
                self.objects_wf(),
                i <= self.objects@.len(),
                forall|j: int| 0 <= j < i ==> !self.object_hit(j),
            decreases self.objects@.len() - i,
        {
            let (id, o) = self.objects[i];
            let t = &self.object_types[id];
            let half_x: i64 = ((t.hitbox_x as u64) / 2) as i64;
            let half_y: i64 = ((t.hitbox_y as u64) / 2) as i64;
            let px = self.player.position_x;
            let py = self.player.position_y;
            if o.position_x - half_x <= px && px <= o.position_x + half_x
                && o.position_y - half_y <= py && py <= o.position_y + half_y {
                assert(self.object_hit(i as int));
                return true;
            }
            i += 1;
        }
        false
    }
}

/// Law: over a whole integrator tick on a tile without sideways friction,
/// forward friction never amplifies the speed: the squared magnitude of the
/// velocity after the tick is at most its squared magnitude before, and it
/// strictly shrinks once the scaled decrement of some velocity component
/// amounts to a whole subunit.
pub proof fn lemma_tick_friction_reduces_speed(p: Player, ff: int, dt: int)
    requires
        0 <= dt,
        0 <= ff,
        ff * dt <= 1_000_000,
        p.bounded(),
    ensures
        ({
            let q = p.integrated(ff, 0, dt);
            (q.velocity_x as int) * (q.velocity_x as int) + (q.velocity_y as int) * (q.velocity_y as int)
                <= (p.velocity_x as int) * (p.velocity_x as int) + (p.velocity_y as int) * (p.velocity_y as int)
        }),
        ({
            let f = scale_down(ff * dt);
            let q = p.integrated(ff, 0, dt);
            (p.velocity_x * f >= 1000 || p.velocity_x * f <= -1000
                || p.velocity_y * f >= 1000 || p.velocity_y * f <= -1000)
                ==> (q.velocity_x as int) * (q.velocity_x as int)
                        + (q.velocity_y as int) * (q.velocity_y as int)
                    < (p.velocity_x as int) * (p.velocity_x as int)
                        + (p.velocity_y as int) * (p.velocity_y as int)
        }),
{
    assert(0 <= ff * dt) by (nonlinear_arith)
        requires
            0 <= ff,
            0 <= dt,
    ;
    let ffd = scale_down(ff * dt);
    assert(0 <= ffd <= 1000);
    let hx = -cos_spec(p.rotation as int);
    let hy = sin_spec(p.rotation as int);
    let dot = scale_down(p.velocity_x * hx) + scale_down(p.velocity_y * hy);
    let sx = scale_down(dot * hx);
    let sy = scale_down(dot * hy);
    // Without sideways friction the sideways terms vanish.
    assert(scale_down(0 * dt) == 0);
    assert(scale_down(sx * 0) == 0 && scale_down(sy * 0) == 0);
    let vx = decay_spec(p.velocity_x as int, ffd);
    let vy = decay_spec(p.velocity_y as int, ffd);
    crate::fixed::lemma_decay_within(p.velocity_x as int, ffd);
    crate::fixed::lemma_decay_within(p.velocity_y as int, ffd);
    crate::fixed::lemma_friction_reduces_speed(p.velocity_x as int, p.velocity_y as int, ffd);
    assert(p.integrated(ff, 0, dt).velocity_x == vx as i64);
    assert(p.integrated(ff, 0, dt).velocity_y == vy as i64);
}

/// Leaving the course sideways is always terminal: whenever the player's
/// x-position is outside `[0, grid width)`, the collision test reports true.
pub proof fn lemma_collided_out_of_bounds(w: World)
    requires
        w.player.position_x < 0 || w.player.position_x >= w.grid_width() * 1000,
    ensures
        w.collided_spec(),
{
}

/// Inside the course, the collision test reports true exactly when the player
/// stands within some obstacle's hitbox, bounds inclusive.
pub proof fn lemma_collided_hit_iff(w: World)
    requires
        0 < w.player.position_x < w.grid_width() * 1000,
    ensures
        w.collided_spec() <==> exists|i: int| 0 <= i < w.objects@.len() && w.object_hit(i),
{
}

/// A corner cell of a grid of at least 2 x 2 has exactly 3 Moore neighbors,
/// none of them out of bounds.
pub proof fn lemma_corner_has_three_neighbors(w: World)
    requires
        w.grid_wf(),
        w.grid_width() >= 2,
        w.grid_height() >= 2,
    ensures
        w.close_tiles_spec(0, 0).len() == 3,
{
    reveal_with_fuel(World::close_tiles_upto, 10);
    assert(w.close_tiles_upto(0, 0, 0).len() == 0);
    assert(w.close_tiles_upto(0, 0, 1).len() == 1);
    assert(w.close_tiles_upto(0, 0, 2).len() == 1);
    assert(w.close_tiles_upto(0, 0, 3).len() == 2);
    assert(w.close_tiles_upto(0, 0, 4).len() == 2);
    assert(w.close_tiles_upto(0, 0, 5).len() == 3);
    assert(w.close_tiles_upto(0, 0, 6).len() == 3);
    assert(w.close_tiles_upto(0, 0, 7).len() == 3);
    assert(w.close_tiles_upto(0, 0, 8).len() == 3);
}

} // verus!
