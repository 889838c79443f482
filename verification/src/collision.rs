//! A hash grid for sectioning collision detection, so that collidable
//! entities are only compared with entities in the same or an adjacent
//! bucket rather than with every other entity.
//!
//! Channel markers define what can collide with what. An entity carrying
//! [`Collider`] for a channel is matched against the entities carrying
//! [`CollidesWith`] for the same channel; when any of them overlap it, a
//! [`Colliding`] record with the overlapping entities is produced for it.
//! Collisions are therefore not bidirectional by default, and distinct
//! channels never interact.

use std::collections::HashMap;

use vstd::arithmetic::div_mod::{
    lemma_div_is_ordered, lemma_fundamental_div_mod, lemma_mod_multiples_basic,
};
use vstd::prelude::*;

use crate::fixed::{abs_int, abs_u64, lemma_trunc_div_abs, trunc_div, FX_MAX, FX_ONE};
use crate::instance::Instance2D;
use crate::vecs::Vec2Fx;

verus! {

broadcast use vstd::std_specs::hash::group_hash_axioms;

/// A marker indicating the entity can be collided with and should have its
/// hash grid cell computed.
#[derive(Clone, Copy, Debug)]
pub struct Collidable;

/// A marker indicating a collider on a given channel.
///
/// An entity with a given `channel` is matched against the entities that have
/// a [`CollidesWith`] for the same channel.
#[derive(Clone, Copy, Debug, PartialEq, Eq, Structural)]
pub struct Collider {
    /// The collision channel this collider queries.
    pub channel: u32,
}

impl Collider {
    /// A collider on the given channel.
    pub fn new(channel: u32) -> (r: Collider)
        ensures
            r == (Collider { channel }),
    {
        Collider { channel }
    }
}

/// A marker indicating the entity can collide with colliders of the given
/// channel.
#[derive(Clone, Copy, Debug, PartialEq, Eq, Structural)]
pub struct CollidesWith {
    /// The collision channel this entity is a candidate target for.
    pub channel: u32,
}

impl CollidesWith {
    /// A collision target on the given channel.
    pub fn new(channel: u32) -> (r: CollidesWith)
        ensures
            r == (CollidesWith { channel }),
    {
        CollidesWith { channel }
    }
}

/// The coordinate bucket size entities are grouped into for collision
/// checking. This should be a few times the size of the largest entity.
#[derive(Clone, Copy, Debug)]
pub struct HashGrid {
    /// Bucket edge length, in whole units; must be positive.
    pub size: i32,
}

/// An entity's current hash grid cell.
///
/// Updated before collision resolution each frame, so its value reflects
/// where the entity was at the start of the frame.
#[derive(Clone, Copy, Debug)]
pub struct HashMarker {
    /// The cell coordinate, one rounded value per axis.
    pub cell: (i32, i32),
}

/// Rounds a fixed-point coordinate to the nearest multiple of `incr`,
/// half away from zero, preserving sign: the integer part of the magnitude
/// plus half the increment, snapped down to a multiple of the increment.
pub open spec fn round_to_nearest_spec(i: int, incr: int) -> int
    recommends
        incr > 0,
{
    let a = abs_int(trunc_div(i, FX_ONE as int)) + incr / 2;
    let m = a - a % incr;
    if i < 0 {
        -m
    } else {
        m
    }
}

/// Rounds a fixed-point coordinate to the nearest multiple of `incr`,
/// half away from zero.
pub fn round_to_nearest(i: i64, incr: i32) -> (r: i32)
    requires
        incr > 0,
        abs_int(trunc_div(i as int, FX_ONE as int)) + (incr as int) / 2 <= i32::MAX as int,
    ensures
        r as int == round_to_nearest_spec(i as int, incr as int),
        (r as int) % (incr as int) == 0,
{
    proof {
        lemma_trunc_div_abs(i as int, FX_ONE as int);
    }
    let mag: u64 = abs_u64(i) / (FX_ONE as u64);
    let half: u64 = (incr as u64) / 2;
    let a: u64 = mag + half;
    proof {
        vstd::arithmetic::div_mod::lemma_mod_decreases(a as nat, incr as nat);
    }
    let m: u64 = a - a % (incr as u64);
    proof {
        lemma_fundamental_div_mod(a as int, incr as int);
        lemma_mod_multiples_basic(a as int / incr as int, incr as int);
        lemma_mod_multiples_basic(-(a as int / incr as int), incr as int);
        assert((incr as int) * (a as int / incr as int) == (a as int / incr as int) * (
        incr as int)) by (nonlinear_arith);
        assert(-((a as int / incr as int) * (incr as int)) == (-(a as int / incr as int)) * (
        incr as int)) by (nonlinear_arith);
    }
    let r0: i32 = m as i32;
    if i < 0 {
        -r0
    } else {
        r0
    }
}

/// Rounding determinism and sign symmetry: the rounded coordinate is
/// always a multiple of the increment, and negating the coordinate negates
/// the result.
pub proof fn lemma_round_to_nearest_properties(i: int, incr: int)
    requires
        incr > 0,
    ensures
        round_to_nearest_spec(i, incr) % incr == 0,
        round_to_nearest_spec(-i, incr) == -round_to_nearest_spec(i, incr),
{
    lemma_trunc_div_abs(i, FX_ONE as int);
    lemma_trunc_div_abs(-i, FX_ONE as int);
    let a = abs_int(trunc_div(i, FX_ONE as int)) + incr / 2;
    lemma_fundamental_div_mod(a, incr);
    lemma_mod_multiples_basic(a / incr, incr);
    lemma_mod_multiples_basic(-(a / incr), incr);
    assert(incr * (a / incr) == (a / incr) * incr) by (nonlinear_arith);
    assert(-((a / incr) * incr) == (-(a / incr)) * incr) by (nonlinear_arith);
    assert(abs_int(trunc_div(-i, FX_ONE as int)) == abs_int(trunc_div(i, FX_ONE as int)));
    if i == 0 {
        vstd::arithmetic::div_mod::lemma_small_mod((incr / 2) as nat, incr as nat);
    }
}

/// Which multiple of the grid step a non-negative coordinate rounds onto.
spec fn cell_index(z: int, g: int) -> int
    recommends
        z >= 0,
        g > 0,
{
    (z / (FX_ONE as int) + g / 2) / g
}

/// On non-negative coordinates, rounding lands on the grid step picked by
/// [`cell_index`]; negative coordinates mirror it.
proof fn lemma_round_cell_form(x: int, g: int)
    requires
        g > 0,
    ensures
        x >= 0 ==> round_to_nearest_spec(x, g) == g * cell_index(x, g),
        x < 0 ==> round_to_nearest_spec(x, g) == -(g * cell_index(-x, g)),
        cell_index(abs_int(x), g) >= 0,
{
    let z = abs_int(x);
    vstd::arithmetic::div_mod::lemma_div_pos_is_pos(z, FX_ONE as int);
    let a = z / (FX_ONE as int) + g / 2;
    lemma_fundamental_div_mod(a, g);
    vstd::arithmetic::div_mod::lemma_div_pos_is_pos(a, g);
    vstd::arithmetic::mul::lemma_mul_is_commutative(g, a / g);
}

/// The cell index never skips by more than one across coordinates less
/// than a full grid step apart.
proof fn lemma_cell_index_step(z1: int, z2: int, g: int)
    requires
        g > 0,
        0 <= z1,
        0 <= z2,
        z2 - z1 < (FX_ONE as int) * g,
    ensures
        cell_index(z2, g) <= cell_index(z1, g) + 1,
{
    if z2 <= z1 {
        lemma_div_is_ordered(z2, z1, FX_ONE as int);
        lemma_div_is_ordered(
            z2 / (FX_ONE as int) + g / 2,
            z1 / (FX_ONE as int) + g / 2,
            g,
        );
    } else {
        let q1 = z1 / (FX_ONE as int);
        let r1 = z1 % (FX_ONE as int);
        lemma_fundamental_div_mod(z1, FX_ONE as int);
        vstd::arithmetic::mul::lemma_mul_is_distributive_add(FX_ONE as int, q1, g);
        vstd::arithmetic::div_mod::lemma_fundamental_div_mod_converse_div(
            z1 + (FX_ONE as int) * g,
            FX_ONE as int,
            q1 + g,
            r1,
        );
        lemma_div_is_ordered(z2, z1 + (FX_ONE as int) * g, FX_ONE as int);
        let a1 = q1 + g / 2;
        lemma_fundamental_div_mod(a1, g);
        vstd::arithmetic::mul::lemma_mul_is_distributive_add(g, a1 / g, 1);
        vstd::arithmetic::div_mod::lemma_fundamental_div_mod_converse_div(
            a1 + g,
            g,
            a1 / g + 1,
            a1 % g,
        );
        lemma_div_is_ordered(z2 / (FX_ONE as int) + g / 2, a1 + g, g);
    }
}

/// A cell index of at least `k` puts the coordinate at least `k` grid
/// steps minus half a step out from the origin.
proof fn lemma_cell_index_lower(z: int, g: int, k: int)
    requires
        g > 0,
        0 <= z,
        0 <= k,
        cell_index(z, g) >= k,
    ensures
        z >= (FX_ONE as int) * (k * g - g / 2),
{
    let q = z / (FX_ONE as int);
    let a = q + g / 2;
    lemma_fundamental_div_mod(a, g);
    vstd::arithmetic::mul::lemma_mul_inequality(k, a / g, g);
    vstd::arithmetic::mul::lemma_mul_is_commutative(a / g, g);
    vstd::arithmetic::div_mod::lemma_mod_bound(a, g);
    assert(a >= k * g);
    lemma_fundamental_div_mod(z, FX_ONE as int);
    vstd::arithmetic::div_mod::lemma_mod_bound(z, FX_ONE as int);
    vstd::arithmetic::mul::lemma_mul_inequality(k * g - g / 2, q, FX_ONE as int);
    vstd::arithmetic::mul::lemma_mul_is_commutative(k * g - g / 2, FX_ONE as int);
    vstd::arithmetic::mul::lemma_mul_is_commutative(q, FX_ONE as int);
}

/// Rounding never moves a coordinate's cell by more than one step relative
/// to another coordinate less than a full grid step away.
proof fn lemma_round_adjacent_one_sided(x: int, y: int, g: int)
    requires
        g > 0,
        x <= y,
        y - x < (FX_ONE as int) * g,
    ensures
        round_to_nearest_spec(y, g) <= round_to_nearest_spec(x, g) + g,
{
    lemma_round_cell_form(x, g);
    lemma_round_cell_form(y, g);
    if x >= 0 {
        lemma_cell_index_step(x, y, g);
        vstd::arithmetic::mul::lemma_mul_inequality(cell_index(y, g), cell_index(x, g) + 1, g);
        vstd::arithmetic::mul::lemma_mul_is_commutative(cell_index(y, g), g);
        vstd::arithmetic::mul::lemma_mul_is_commutative(cell_index(x, g) + 1, g);
        vstd::arithmetic::mul::lemma_mul_is_distributive_add(g, cell_index(x, g), 1);
    } else if y < 0 {
        lemma_cell_index_step(-y, -x, g);
        vstd::arithmetic::mul::lemma_mul_inequality(cell_index(-x, g), cell_index(-y, g) + 1, g);
        vstd::arithmetic::mul::lemma_mul_is_commutative(cell_index(-x, g), g);
        vstd::arithmetic::mul::lemma_mul_is_commutative(cell_index(-y, g) + 1, g);
        vstd::arithmetic::mul::lemma_mul_is_distributive_add(g, cell_index(-y, g), 1);
    } else {
        // x < 0 <= y: the cells sit on opposite sides of the origin, and
        // their indices cannot add up to more than one without putting the
        // two coordinates a whole grid step apart.
        let cy = cell_index(y, g);
        let cx = cell_index(-x, g);
        if cy + cx >= 2 {
            vstd::arithmetic::div_mod::lemma_mod_bound(g, 2);
            lemma_fundamental_div_mod(g, 2);
            if cy >= 1 && cx >= 1 {
                lemma_cell_index_lower(y, g, 1);
                lemma_cell_index_lower(-x, g, 1);
                vstd::arithmetic::mul::lemma_mul_is_distributive_add(
                    FX_ONE as int,
                    1 * g - g / 2,
                    1 * g - g / 2,
                );
                vstd::arithmetic::mul::lemma_mul_inequality(
                    g,
                    (1 * g - g / 2) + (1 * g - g / 2),
                    FX_ONE as int,
                );
                vstd::arithmetic::mul::lemma_mul_is_commutative(g, FX_ONE as int);
                vstd::arithmetic::mul::lemma_mul_is_commutative(
                    (1 * g - g / 2) + (1 * g - g / 2),
                    FX_ONE as int,
                );
            } else if cy >= 2 {
                lemma_cell_index_lower(y, g, 2);
                vstd::arithmetic::mul::lemma_mul_inequality(g, 2 * g - g / 2, FX_ONE as int);
                vstd::arithmetic::mul::lemma_mul_is_commutative(g, FX_ONE as int);
                vstd::arithmetic::mul::lemma_mul_is_commutative(2 * g - g / 2, FX_ONE as int);
            } else {
                lemma_cell_index_lower(-x, g, 2);
                vstd::arithmetic::mul::lemma_mul_inequality(g, 2 * g - g / 2, FX_ONE as int);
                vstd::arithmetic::mul::lemma_mul_is_commutative(g, FX_ONE as int);
                vstd::arithmetic::mul::lemma_mul_is_commutative(2 * g - g / 2, FX_ONE as int);
            }
            assert(false);
        }
        vstd::arithmetic::mul::lemma_mul_inequality(cy + cx, 1, g);
        vstd::arithmetic::mul::lemma_mul_is_commutative(cy + cx, g);
        vstd::arithmetic::mul::lemma_mul_is_commutative(cy, g);
        vstd::arithmetic::mul::lemma_mul_is_commutative(cx, g);
        vstd::arithmetic::mul::lemma_mul_is_distributive_add(g, cy, cx);
    }
}

/// Coordinates less than a full grid step apart round to the same grid
/// cell or to directly adjacent ones.
pub proof fn lemma_round_adjacent(x: int, y: int, g: int)
    requires
        g > 0,
        abs_int(x - y) < (FX_ONE as int) * g,
    ensures
        round_to_nearest_spec(y, g) == round_to_nearest_spec(x, g) || round_to_nearest_spec(y, g)
            == round_to_nearest_spec(x, g) + g || round_to_nearest_spec(y, g)
            == round_to_nearest_spec(x, g) - g,
{
    if x <= y {
        lemma_round_adjacent_one_sided(x, y, g);
        lemma_round_adjacent_one_sided(x, x, g);
    } else {
        lemma_round_adjacent_one_sided(y, x, g);
    }
    // Rounding is monotone: the lower coordinate's cell is no higher.
    if x <= y {
        lemma_round_monotone(x, y, g);
    } else {
        lemma_round_monotone(y, x, g);
    }
    let rx = round_to_nearest_spec(x, g);
    let ry = round_to_nearest_spec(y, g);
    lemma_round_to_nearest_properties(x, g);
    lemma_round_to_nearest_properties(y, g);
    let d = ry - rx;
    vstd::arithmetic::div_mod::lemma_sub_mod_noop(ry, rx, g);
    vstd::arithmetic::div_mod::lemma_small_mod(0nat, g as nat);
    assert(d % g == 0);
    if 0 < d < g {
        vstd::arithmetic::div_mod::lemma_small_mod(d as nat, g as nat);
        assert(false);
    }
    if -g < d < 0 {
        vstd::arithmetic::div_mod::lemma_fundamental_div_mod_converse_mod(d, g, -1, d + g);
        vstd::arithmetic::mul::lemma_mul_is_commutative(-1, g);
        assert(false);
    }
}

/// Rounding preserves coordinate order.
proof fn lemma_round_monotone(x: int, y: int, g: int)
    requires
        g > 0,
        x <= y,
    ensures
        round_to_nearest_spec(x, g) <= round_to_nearest_spec(y, g),
{
    lemma_round_cell_form(x, g);
    lemma_round_cell_form(y, g);
    if x >= 0 {
        lemma_div_is_ordered(x, y, FX_ONE as int);
        lemma_div_is_ordered(x / (FX_ONE as int) + g / 2, y / (FX_ONE as int) + g / 2, g);
        vstd::arithmetic::mul::lemma_mul_inequality(cell_index(x, g), cell_index(y, g), g);
        vstd::arithmetic::mul::lemma_mul_is_commutative(cell_index(x, g), g);
        vstd::arithmetic::mul::lemma_mul_is_commutative(cell_index(y, g), g);
    } else if y < 0 {
        lemma_div_is_ordered(-y, -x, FX_ONE as int);
        lemma_div_is_ordered(
            (-y) / (FX_ONE as int) + g / 2,
            (-x) / (FX_ONE as int) + g / 2,
            g,
        );
        vstd::arithmetic::mul::lemma_mul_inequality(cell_index(-y, g), cell_index(-x, g), g);
        vstd::arithmetic::mul::lemma_mul_is_commutative(cell_index(-y, g), g);
        vstd::arithmetic::mul::lemma_mul_is_commutative(cell_index(-x, g), g);
    } else {
        vstd::arithmetic::mul::lemma_mul_inequality(0, cell_index(y, g), g);
        vstd::arithmetic::mul::lemma_mul_inequality(0, cell_index(-x, g), g);
        vstd::arithmetic::mul::lemma_mul_is_commutative(cell_index(y, g), g);
        vstd::arithmetic::mul::lemma_mul_is_commutative(cell_index(-x, g), g);
    }
}

impl Vec2Fx {
    /// The hash grid cell of this position: each axis rounded to the nearest
    /// multiple of the grid size.
    pub fn current_hash_grid(&self, grid_size: i32) -> (r: (i32, i32))
        requires
            grid_size > 0,
            abs_int(trunc_div(self.x as int, FX_ONE as int)) + (grid_size as int) / 2
                <= i32::MAX as int,
            abs_int(trunc_div(self.y as int, FX_ONE as int)) + (grid_size as int) / 2
                <= i32::MAX as int,
        ensures
            r.0 as int == round_to_nearest_spec(self.x as int, grid_size as int),
            r.1 as int == round_to_nearest_spec(self.y as int, grid_size as int),
    {
        (round_to_nearest(self.x, grid_size), round_to_nearest(self.y, grid_size))
    }
}

/// Whether a cell coordinate can be shifted by `g` in every direction
/// without leaving the machine integer range.
pub open spec fn cell_in_range(c: (i32, i32), g: int) -> bool {
    &&& c.0 + g <= i32::MAX as int
    &&& c.0 - g >= i32::MIN as int
    &&& c.1 + g <= i32::MAX as int
    &&& c.1 - g >= i32::MIN as int
}

/// The cell itself followed by its 8 surrounding cells at step `g`, in the
/// order they are probed.
pub open spec fn neighbors_spec(c: (i32, i32), g: int) -> Seq<(i32, i32)> {
    seq![
        c,
        (c.0, ((c.1 + g) as i32)),
        (c.0, ((c.1 - g) as i32)),
        (((c.0 + g) as i32), c.1),
        (((c.0 - g) as i32), c.1),
        (((c.0 + g) as i32), ((c.1 - g) as i32)),
        (((c.0 + g) as i32), ((c.1 + g) as i32)),
        (((c.0 - g) as i32), ((c.1 - g) as i32)),
        (((c.0 - g) as i32), ((c.1 + g) as i32)),
    ]
}

impl HashMarker {
    /// Returns the current cell together with all immediately surrounding
    /// cells: 9 pairwise distinct coordinates, the cell itself plus its 4
    /// axis neighbors and 4 diagonal neighbors at distance `grid_size`.
    pub fn get_with_neighbors(&self, grid_size: i32) -> (r: [(i32, i32); 9])
        requires
            grid_size > 0,
            cell_in_range(self.cell, grid_size as int),
        ensures
            r@ == neighbors_spec(self.cell, grid_size as int),
            forall|i: int, j: int| 0 <= i < j < 9 ==> r@[i] != r@[j],
    {
        let (cx, cy) = self.cell;
        let r: [(i32, i32); 9] = [
            (cx, cy),
            (cx, cy + grid_size),
            (cx, cy - grid_size),
            (cx + grid_size, cy),
            (cx - grid_size, cy),
            (cx + grid_size, cy - grid_size),
            (cx + grid_size, cy + grid_size),
            (cx - grid_size, cy - grid_size),
            (cx - grid_size, cy + grid_size),
        ];
        proof {
            assert(r@ =~= neighbors_spec(self.cell, grid_size as int));
        }
        r
    }
}

/// Whether a position can be rounded onto the grid without leaving the
/// machine integer range of cell coordinates.
pub open spec fn pos_in_round_range(p: Vec2Fx, g: int) -> bool {
    &&& abs_int(trunc_div(p.x as int, FX_ONE as int)) + g / 2 <= i32::MAX as int
    &&& abs_int(trunc_div(p.y as int, FX_ONE as int)) + g / 2 <= i32::MAX as int
}

/// The grid cell of a position: each axis rounded to the nearest multiple
/// of the grid size.
pub open spec fn grid_cell_of(p: Vec2Fx, g: int) -> (i32, i32) {
    ((round_to_nearest_spec(p.x as int, g) as i32), (round_to_nearest_spec(p.y as int, g) as i32))
}

/// A collidable entity's bucketing state as handed over by the entity
/// store: its identity, its renderable snapshot, whether its position
/// changed since the cell was last computed, and the cached cell if one has
/// been attached.
#[derive(Clone, Copy, Debug)]
pub struct SpatialRecord {
    /// The entity's identity in the store.
    pub entity: u64,
    /// The entity's renderable snapshot.
    pub instance: Instance2D,
    /// Whether the position changed since the last frame (the store's
    /// change-detection flag).
    pub changed: bool,
    /// The cached hash grid cell, absent until one is attached.
    pub marker: Option<HashMarker>,
}

/// What one pass of cell recomputation does to a record: a record with a
/// cached cell whose position changed gets a freshly rounded cell;
/// everything else is untouched.
pub open spec fn update_marker_step(r: SpatialRecord, g: int) -> SpatialRecord {
    if r.marker is Some && r.changed {
        SpatialRecord { marker: Some(HashMarker { cell: grid_cell_of(r.instance.position, g) }), ..r
        }
    } else {
        r
    }
}

/// What the attachment pass does to a record: a record without a cached
/// cell gets one computed from its current position; records that already
/// have one are untouched.
pub open spec fn insert_marker_step(r: SpatialRecord, g: int) -> SpatialRecord {
    if r.marker is None {
        SpatialRecord { marker: Some(HashMarker { cell: grid_cell_of(r.instance.position, g) }), ..r
        }
    } else {
        r
    }
}

/// Run before checking collisions: update the cached cell of every record
/// whose position has changed. Records without a cell are left for
/// [`insert_hash_marker`].
pub fn update_hash_marker(records: &mut Vec<SpatialRecord>, grid: &HashGrid)
    requires
        grid.size > 0,
        forall|i: int|
            0 <= i < old(records)@.len() ==> pos_in_round_range(
                #[trigger] old(records)@[i].instance.position,
                grid.size as int,
            ),
    ensures
        final(records)@.len() == old(records)@.len(),
        forall|i: int|
            0 <= i < old(records)@.len() ==> #[trigger] final(records)@[i] == update_marker_step(
                old(records)@[i],
                grid.size as int,
            ),
{
    let n = records.len();
    let mut i: usize = 0;
    while i < n
        invariant
            i <= n,
            n == records@.len(),
            records@.len() == old(records)@.len(),
            grid.size > 0,
            forall|j: int|
                0 <= j < old(records)@.len() ==> pos_in_round_range(
                    #[trigger] old(records)@[j].instance.position,
                    grid.size as int,
                ),
            forall|j: int|
                i <= j < old(records)@.len() ==> #[trigger] records@[j] == old(records)@[j],
            forall|j: int|
                0 <= j < i ==> #[trigger] records@[j] == update_marker_step(
                    old(records)@[j],
                    grid.size as int,
                ),
        decreases n - i,
    {
        let r = records[i];
        if r.changed {
            match r.marker {
                Option::Some(_) => {
                    let cell = r.instance.position.current_hash_grid(grid.size);
                    records[i] = SpatialRecord {
                        entity: r.entity,
                        instance: r.instance,
                        changed: r.changed,
                        marker: Some(HashMarker { cell }),
                    };
                },
                Option::None => {},
            }
        }
        i = i + 1;
    }
}

/// For any collidable record that has a renderable position but no cached
/// cell yet, attach one. A side effect of the two-pass design is that it
/// may take one frame after spawning before an entity can be collided with.
pub fn insert_hash_marker(records: &mut Vec<SpatialRecord>, grid: &HashGrid)
    requires
        grid.size > 0,
        forall|i: int|
            0 <= i < old(records)@.len() ==> pos_in_round_range(
                #[trigger] old(records)@[i].instance.position,
                grid.size as int,
            ),
    ensures
        final(records)@.len() == old(records)@.len(),
        forall|i: int|
            0 <= i < old(records)@.len() ==> #[trigger] final(records)@[i] == insert_marker_step(
                old(records)@[i],
                grid.size as int,
            ),
{
    let n = records.len();
    let mut i: usize = 0;
    while i < n
        invariant
            i <= n,
            n == records@.len(),
            records@.len() == old(records)@.len(),
            grid.size > 0,
            forall|j: int|
                0 <= j < old(records)@.len() ==> pos_in_round_range(
                    #[trigger] old(records)@[j].instance.position,
                    grid.size as int,
                ),
            forall|j: int|
                i <= j < old(records)@.len() ==> #[trigger] records@[j] == old(records)@[j],
            forall|j: int|
                0 <= j < i ==> #[trigger] records@[j] == insert_marker_step(
                    old(records)@[j],
                    grid.size as int,
                ),
        decreases n - i,
    {
        let r = records[i];
        match r.marker {
            Option::None => {
                let cell = r.instance.position.current_hash_grid(grid.size);
                records[i] = SpatialRecord {
                    entity: r.entity,
                    instance: r.instance,
                    changed: r.changed,
                    marker: Some(HashMarker { cell }),
                };
            },
            Option::Some(_) => {},
        }
        i = i + 1;
    }
}

/// Half of a fixed-point extent, truncated toward zero.
pub open spec fn half_spec(s: int) -> int {
    trunc_div(s, 2)
}

/// Half of a fixed-point extent.
fn half_fx(s: i64) -> (r: i64)
    ensures
        r == half_spec(s as int),
{
    proof {
        lemma_trunc_div_abs(s as int, 2);
    }
    let h: u64 = abs_u64(s) / 2;
    if s < 0 {
        -(h as i64)
    } else {
        h as i64
    }
}

/// Left edge of an instance's axis-aligned bounding box.
pub open spec fn bbox_min_x(i: Instance2D) -> int {
    crate::fixed::fx_sub_spec(i.position.x as int, half_spec(i.scale.x as int))
}

/// Right edge of an instance's axis-aligned bounding box.
pub open spec fn bbox_max_x(i: Instance2D) -> int {
    crate::fixed::fx_add_spec(i.position.x as int, half_spec(i.scale.x as int))
}

/// Bottom edge of an instance's axis-aligned bounding box.
pub open spec fn bbox_min_y(i: Instance2D) -> int {
    crate::fixed::fx_sub_spec(i.position.y as int, half_spec(i.scale.y as int))
}

/// Top edge of an instance's axis-aligned bounding box.
pub open spec fn bbox_max_y(i: Instance2D) -> int {
    crate::fixed::fx_add_spec(i.position.y as int, half_spec(i.scale.y as int))
}

/// Whether two instances' axis-aligned bounding boxes strictly overlap on
/// both axes. The box is `scale.x` wide and `scale.y` high around the
/// position; rotation is deliberately ignored, and boxes that merely touch
/// at an edge do not overlap.
pub open spec fn overlapping_spec(a: Instance2D, b: Instance2D) -> bool {
    &&& bbox_min_x(a) < bbox_max_x(b)
    &&& bbox_max_x(a) > bbox_min_x(b)
    &&& bbox_max_y(a) > bbox_min_y(b)
    &&& bbox_min_y(a) < bbox_max_y(b)
}

/// Given 2 instances, determine if they are overlapping.
pub fn overlapping(a: &Instance2D, b: &Instance2D) -> (r: bool)
    ensures
        r == overlapping_spec(*a, *b),
{
    let a_hx = half_fx(a.scale.x);
    let b_hx = half_fx(b.scale.x);
    let a_hy = half_fx(a.scale.y);
    let b_hy = half_fx(b.scale.y);
    let a_x1 = crate::fixed::fx_sub(a.position.x, a_hx);
    let a_x2 = crate::fixed::fx_add(a.position.x, a_hx);
    let b_x1 = crate::fixed::fx_sub(b.position.x, b_hx);
    let b_x2 = crate::fixed::fx_add(b.position.x, b_hx);
    let a_y1 = crate::fixed::fx_sub(a.position.y, a_hy);
    let a_y2 = crate::fixed::fx_add(a.position.y, a_hy);
    let b_y1 = crate::fixed::fx_sub(b.position.y, b_hy);
    let b_y2 = crate::fixed::fx_add(b.position.y, b_hy);
    a_x1 < b_x2 && a_x2 > b_x1 && a_y2 > b_y1 && a_y1 < b_y2
}

/// The bounding-box overlap test is symmetric.
pub proof fn lemma_overlapping_symmetric(a: Instance2D, b: Instance2D)
    ensures
        overlapping_spec(a, b) == overlapping_spec(b, a),
{
}

/// Two instances whose boxes touch exactly at a vertical edge do not
/// overlap: the test is strict.
pub proof fn lemma_touching_edge_not_overlapping(a: Instance2D, b: Instance2D)
    requires
        bbox_max_x(a) == bbox_min_x(b),
    ensures
        !overlapping_spec(a, b),
{
}

/// The grid guarantee behind the 9-cell probe: when the grid step is at
/// least as large as every entity extent (and coordinates stay clear of
/// the saturation bound), two overlapping entities always land in the same
/// grid cell or in directly adjacent ones, so probing a collider's cell
/// and its 8 neighbors finds every true overlap. With a smaller grid step
/// the guarantee lapses and overlaps can be silently missed.
pub proof fn lemma_grid_completeness(a: Instance2D, b: Instance2D, g: int)
    requires
        g > 0,
        overlapping_spec(a, b),
        0 <= a.scale.x <= (FX_ONE as int) * g,
        0 <= a.scale.y <= (FX_ONE as int) * g,
        0 <= b.scale.x <= (FX_ONE as int) * g,
        0 <= b.scale.y <= (FX_ONE as int) * g,
        abs_int(a.position.x as int) + (FX_ONE as int) * g <= FX_MAX as int,
        abs_int(a.position.y as int) + (FX_ONE as int) * g <= FX_MAX as int,
        abs_int(b.position.x as int) + (FX_ONE as int) * g <= FX_MAX as int,
        abs_int(b.position.y as int) + (FX_ONE as int) * g <= FX_MAX as int,
    ensures
        round_to_nearest_spec(b.position.x as int, g) == round_to_nearest_spec(
            a.position.x as int,
            g,
        ) || round_to_nearest_spec(b.position.x as int, g) == round_to_nearest_spec(
            a.position.x as int,
            g,
        ) + g || round_to_nearest_spec(b.position.x as int, g) == round_to_nearest_spec(
            a.position.x as int,
            g,
        ) - g,
        round_to_nearest_spec(b.position.y as int, g) == round_to_nearest_spec(
            a.position.y as int,
            g,
        ) || round_to_nearest_spec(b.position.y as int, g) == round_to_nearest_spec(
            a.position.y as int,
            g,
        ) + g || round_to_nearest_spec(b.position.y as int, g) == round_to_nearest_spec(
            a.position.y as int,
            g,
        ) - g,
{
    vstd::arithmetic::div_mod::lemma_fundamental_div_mod_converse_div(
        (FX_ONE as int) * g,
        2,
        500 * g,
        0,
    );
    lemma_div_is_ordered(a.scale.x as int, (FX_ONE as int) * g, 2);
    lemma_div_is_ordered(a.scale.y as int, (FX_ONE as int) * g, 2);
    lemma_div_is_ordered(b.scale.x as int, (FX_ONE as int) * g, 2);
    lemma_div_is_ordered(b.scale.y as int, (FX_ONE as int) * g, 2);
    vstd::arithmetic::div_mod::lemma_div_pos_is_pos(a.scale.x as int, 2);
    vstd::arithmetic::div_mod::lemma_div_pos_is_pos(a.scale.y as int, 2);
    vstd::arithmetic::div_mod::lemma_div_pos_is_pos(b.scale.x as int, 2);
    vstd::arithmetic::div_mod::lemma_div_pos_is_pos(b.scale.y as int, 2);
    assert(abs_int(a.position.x - b.position.x) < (FX_ONE as int) * g);
    assert(abs_int(a.position.y - b.position.y) < (FX_ONE as int) * g);
    lemma_round_adjacent(a.position.x as int, b.position.x as int, g);
    lemma_round_adjacent(a.position.y as int, b.position.y as int, g);
}

/// Produced for a collider that is overlapping candidates on its channel:
/// the overlapping entities at the start of the frame, in discovery order.
#[derive(Clone, Debug)]
pub struct Colliding {
    /// The collision channel the overlaps were found on.
    pub channel: u32,
    /// The overlapping entities, in the order they were discovered.
    pub entities: Vec<u64>,
}

/// One bucketed entity handed to overlap resolution: its identity, its
/// renderable snapshot, and its hash grid cell.
#[derive(Clone, Copy, Debug)]
pub struct GridEntry {
    /// The entity's identity in the store.
    pub entity: u64,
    /// The entity's renderable snapshot at the start of the frame.
    pub instance: Instance2D,
    /// The entity's hash grid cell.
    pub cell: (i32, i32),
}

/// Packs a cell coordinate into a single bucket-map key.
pub open spec fn cell_key_spec(c: (i32, i32)) -> u64 {
    (((c.0 as u32) as u64) * 0x1_0000_0000 + ((c.1 as u32) as u64)) as u64
}

/// Packs a cell coordinate into a single bucket-map key.
fn cell_key(c: (i32, i32)) -> (k: u64)
    ensures
        k == cell_key_spec(c),
{
    ((c.0 as u32) as u64) * 0x1_0000_0000 + ((c.1 as u32) as u64)
}

/// Distinct cells have distinct bucket-map keys.
pub proof fn lemma_cell_key_injective(c: (i32, i32), d: (i32, i32))
    requires
        cell_key_spec(c) == cell_key_spec(d),
    ensures
        c == d,
{
    assert(((c.0 as u32) as u64) == ((d.0 as u32) as u64) && ((c.1 as u32) as u64) == ((
    d.1 as u32) as u64));
    let cx = c.0;
    let cy = c.1;
    let dx = d.0;
    let dy = d.1;
    assert(cx as u32 == dx as u32 ==> cx == dx) by (bit_vector);
    assert(cy as u32 == dy as u32 ==> cy == dy) by (bit_vector);
}

/// The entries of a candidate list that lie in one cell, in input order.
pub open spec fn in_cell(ts: Seq<GridEntry>, c: (i32, i32)) -> Seq<GridEntry>
    decreases ts.len(),
{
    if ts.len() == 0 {
        Seq::empty()
    } else {
        let rest = in_cell(ts.drop_last(), c);
        if ts.last().cell == c {
            rest.push(ts.last())
        } else {
            rest
        }
    }
}

/// The entities of one bucket that overlap a collider, in bucket order.
pub open spec fn bucket_hits(a: Instance2D, bs: Seq<GridEntry>) -> Seq<u64>
    decreases bs.len(),
{
    if bs.len() == 0 {
        Seq::empty()
    } else {
        let rest = bucket_hits(a, bs.drop_last());
        if overlapping_spec(a, bs.last().instance) {
            rest.push(bs.last().entity)
        } else {
            rest
        }
    }
}

/// The candidates lying in one cell that overlap a collider, in input order.
pub open spec fn cell_hits(a: Instance2D, ts: Seq<GridEntry>, c: (i32, i32)) -> Seq<u64>
    decreases ts.len(),
{
    if ts.len() == 0 {
        Seq::empty()
    } else {
        let rest = cell_hits(a, ts.drop_last(), c);
        if ts.last().cell == c && overlapping_spec(a, ts.last().instance) {
            rest.push(ts.last().entity)
        } else {
            rest
        }
    }
}

/// Overlap hits gathered across a list of probed cells, cell by cell.
pub open spec fn hits_in_cells(a: Instance2D, ts: Seq<GridEntry>, cells: Seq<(i32, i32)>)
    -> Seq<u64>
    decreases cells.len(),
{
    if cells.len() == 0 {
        Seq::empty()
    } else {
        hits_in_cells(a, ts, cells.drop_last()) + cell_hits(a, ts, cells.last())
    }
}

/// Everything a collider collides with this frame: the candidates in its own
/// cell and the 8 surrounding cells whose bounding boxes overlap it, probed
/// in neighbor order and within a cell in input order.
pub open spec fn collider_hits(e: GridEntry, ts: Seq<GridEntry>, g: int) -> Seq<u64> {
    hits_in_cells(e.instance, ts, neighbors_spec(e.cell, g))
}

/// Filtering a cell's candidates and then testing overlap is the same as
/// testing both conditions in one pass.
proof fn lemma_cell_hits_via_bucket(a: Instance2D, ts: Seq<GridEntry>, c: (i32, i32))
    ensures
        cell_hits(a, ts, c) == bucket_hits(a, in_cell(ts, c)),
    decreases ts.len(),
{
    if ts.len() > 0 {
        lemma_cell_hits_via_bucket(a, ts.drop_last(), c);
        if ts.last().cell == c {
            let pushed = in_cell(ts.drop_last(), c).push(ts.last());
            assert(pushed.drop_last() =~= in_cell(ts.drop_last(), c));
        }
    }
}

/// Every reported hit names a candidate from the channel's own list that
/// really overlaps the collider: resolution can never surface an entity
/// from another channel.
pub proof fn lemma_cell_hits_from_candidates(
    a: Instance2D,
    ts: Seq<GridEntry>,
    c: (i32, i32),
    x: u64,
)
    requires
        cell_hits(a, ts, c).contains(x),
    ensures
        exists|j: int|
            0 <= j < ts.len() && ts[j].entity == x && overlapping_spec(a, ts[j].instance),
    decreases ts.len(),
{
    if ts.len() > 0 {
        let rest = cell_hits(a, ts.drop_last(), c);
        if ts.last().cell == c && overlapping_spec(a, ts.last().instance) && x == ts.last().entity {
            assert(ts[ts.len() - 1].entity == x);
        } else {
            assert(rest.contains(x));
            lemma_cell_hits_from_candidates(a, ts.drop_last(), c, x);
            let j = choose|j: int|
                0 <= j < ts.drop_last().len() && ts.drop_last()[j].entity == x
                    && overlapping_spec(a, ts.drop_last()[j].instance);
            assert(ts[j].entity == x && overlapping_spec(a, ts[j].instance));
        }
    }
}

/// Every hit gathered over any probed cells comes from the candidate list.
pub proof fn lemma_collider_hits_from_candidates(
    a: Instance2D,
    ts: Seq<GridEntry>,
    cells: Seq<(i32, i32)>,
    x: u64,
)
    requires
        hits_in_cells(a, ts, cells).contains(x),
    ensures
        exists|j: int|
            0 <= j < ts.len() && ts[j].entity == x && overlapping_spec(a, ts[j].instance),
    decreases cells.len(),
{
    if cells.len() > 0 {
        let pre = hits_in_cells(a, ts, cells.drop_last());
        let here = cell_hits(a, ts, cells.last());
        let k = choose|k: int| 0 <= k < (pre + here).len() && (pre + here)[k] == x;
        if k < pre.len() {
            assert(pre.contains(x));
            lemma_collider_hits_from_candidates(a, ts, cells.drop_last(), x);
        } else {
            assert(here[k - pre.len()] == x);
            assert(here.contains(x));
            lemma_cell_hits_from_candidates(a, ts, cells.last(), x);
        }
    }
}

/// Rounding never grows a coordinate past its integer part plus half the
/// increment.
proof fn lemma_round_bound(x: int, g: int)
    requires
        g > 0,
    ensures
        abs_int(round_to_nearest_spec(x, g)) <= abs_int(trunc_div(x, FX_ONE as int)) + g / 2,
{
    let a = abs_int(trunc_div(x, FX_ONE as int)) + g / 2;
    vstd::arithmetic::div_mod::lemma_mod_bound(a, g);
}

/// An overlapping candidate sitting in a probed cell is found there.
proof fn lemma_cell_hits_mem(a: Instance2D, ts: Seq<GridEntry>, c: (i32, i32), j: int)
    requires
        0 <= j < ts.len(),
        ts[j].cell == c,
        overlapping_spec(a, ts[j].instance),
    ensures
        cell_hits(a, ts, c).contains(ts[j].entity),
    decreases ts.len(),
{
    let rest = cell_hits(a, ts.drop_last(), c);
    if j == ts.len() - 1 {
        assert(cell_hits(a, ts, c).last() == ts[j].entity);
    } else {
        lemma_cell_hits_mem(a, ts.drop_last(), c, j);
        let i = choose|i: int| 0 <= i < rest.len() && rest[i] == ts[j].entity;
        assert(cell_hits(a, ts, c)[i] == ts[j].entity);
    }
}

/// An overlapping candidate sitting in any one of the probed cells shows
/// up in the gathered hits.
proof fn lemma_hits_in_cells_mem(
    a: Instance2D,
    ts: Seq<GridEntry>,
    cells: Seq<(i32, i32)>,
    k: int,
    j: int,
)
    requires
        0 <= k < cells.len(),
        0 <= j < ts.len(),
        ts[j].cell == cells[k],
        overlapping_spec(a, ts[j].instance),
    ensures
        hits_in_cells(a, ts, cells).contains(ts[j].entity),
    decreases cells.len(),
{
    let pre = hits_in_cells(a, ts, cells.drop_last());
    let here = cell_hits(a, ts, cells.last());
    if k == cells.len() - 1 {
        lemma_cell_hits_mem(a, ts, cells.last(), j);
        let i = choose|i: int| 0 <= i < here.len() && here[i] == ts[j].entity;
        assert((pre + here)[pre.len() + i] == ts[j].entity);
    } else {
        lemma_hits_in_cells_mem(a, ts, cells.drop_last(), k, j);
        let i = choose|i: int| 0 <= i < pre.len() && pre[i] == ts[j].entity;
        assert((pre + here)[i] == ts[j].entity);
    }
}

/// Completeness of grid-bucketed resolution: a candidate that truly
/// overlaps a collider is always reported, provided both cells are the
/// rounded cells of their current positions, every extent fits within one
/// grid step, and coordinates stay clear of the rounding and saturation
/// bounds. Together with [`lemma_collider_hits_from_candidates`] this pins
/// the probe down from both sides: it reports exactly the true overlaps
/// among the channel's candidates.
pub proof fn lemma_collider_hits_complete(e: GridEntry, ts: Seq<GridEntry>, g: int, j: int)
    requires
        0 < g <= i32::MAX as int,
        0 <= j < ts.len(),
        overlapping_spec(e.instance, ts[j].instance),
        e.cell == grid_cell_of(e.instance.position, g),
        ts[j].cell == grid_cell_of(ts[j].instance.position, g),
        pos_in_round_range(e.instance.position, g),
        pos_in_round_range(ts[j].instance.position, g),
        0 <= e.instance.scale.x <= (FX_ONE as int) * g,
        0 <= e.instance.scale.y <= (FX_ONE as int) * g,
        0 <= ts[j].instance.scale.x <= (FX_ONE as int) * g,
        0 <= ts[j].instance.scale.y <= (FX_ONE as int) * g,
        abs_int(e.instance.position.x as int) + (FX_ONE as int) * g <= FX_MAX as int,
        abs_int(e.instance.position.y as int) + (FX_ONE as int) * g <= FX_MAX as int,
        abs_int(ts[j].instance.position.x as int) + (FX_ONE as int) * g <= FX_MAX as int,
        abs_int(ts[j].instance.position.y as int) + (FX_ONE as int) * g <= FX_MAX as int,
    ensures
        collider_hits(e, ts, g).contains(ts[j].entity),
{
    let ax = e.instance.position.x as int;
    let ay = e.instance.position.y as int;
    let bx = ts[j].instance.position.x as int;
    let by = ts[j].instance.position.y as int;
    lemma_grid_completeness(e.instance, ts[j].instance, g);
    lemma_round_bound(ax, g);
    lemma_round_bound(ay, g);
    lemma_round_bound(bx, g);
    lemma_round_bound(by, g);
    lemma_round_to_nearest_properties(ax, g);
    lemma_round_to_nearest_properties(ay, g);
    let rax = round_to_nearest_spec(ax, g);
    let ray = round_to_nearest_spec(ay, g);
    let rbx = round_to_nearest_spec(bx, g);
    let rby = round_to_nearest_spec(by, g);
    let cells = neighbors_spec(e.cell, g);
    assert(e.cell.0 as int == rax && e.cell.1 as int == ray);
    assert(ts[j].cell.0 as int == rbx && ts[j].cell.1 as int == rby);
    let k: int = if rbx == rax && rby == ray {
        0
    } else if rbx == rax && rby == ray + g {
        1
    } else if rbx == rax && rby == ray - g {
        2
    } else if rbx == rax + g && rby == ray {
        3
    } else if rbx == rax - g && rby == ray {
        4
    } else if rbx == rax + g && rby == ray - g {
        5
    } else if rbx == rax + g && rby == ray + g {
        6
    } else if rbx == rax - g && rby == ray - g {
        7
    } else {
        8
    };
    assert(cells[k] == ts[j].cell);
    lemma_hits_in_cells_mem(e.instance, ts, cells, k, j);
}

/// Whether the bucket map groups a candidate prefix by cell: each present
/// key holds exactly its cell's candidates in input order, and absent keys
/// have no candidates.
pub open spec fn buckets_inv(m: Map<u64, Vec<GridEntry>>, ts: Seq<GridEntry>) -> bool {
    &&& forall|c: (i32, i32)|
        m.contains_key(#[trigger] cell_key_spec(c)) ==> m[cell_key_spec(c)]@ == in_cell(ts, c)
    &&& forall|c: (i32, i32)|
        !m.contains_key(#[trigger] cell_key_spec(c)) ==> in_cell(ts, c).len() == 0
}

/// Builds the cell-to-candidates bucket map from a candidate list, one pass
/// in input order.
fn build_buckets(targets: &Vec<GridEntry>) -> (m: HashMap<u64, Vec<GridEntry>>)
    ensures
        buckets_inv(m@, targets@),
{
    let mut m: HashMap<u64, Vec<GridEntry>> = HashMap::new();
    let n = targets.len();
    let mut i: usize = 0;
    proof {
        assert(forall|c: (i32, i32)|
            in_cell(#[trigger] targets@.subrange(0, 0), c).len() == 0);
    }
    while i < n
        invariant
            i <= n,
            n == targets@.len(),
            buckets_inv(m@, targets@.subrange(0, i as int)),
        decreases n - i,
    {
        let e = targets[i];
        let k = cell_key(e.cell);
        let ghost prefix = targets@.subrange(0, i as int);
        let mut bucket: Vec<GridEntry> = match m.remove(&k) {
            Option::Some(b) => b,
            Option::None => Vec::new(),
        };
        proof {
            assert(bucket@ == in_cell(prefix, e.cell));
        }
        bucket.push(e);
        m.insert(k, bucket);
        proof {
            let next = targets@.subrange(0, i as int + 1);
            assert(next.drop_last() =~= prefix);
            assert(next.last() == e);
            assert forall|c: (i32, i32)| #[trigger]
                cell_key_spec(c) == cell_key_spec(c) implies ({
                &&& m@.contains_key(cell_key_spec(c)) ==> m@[cell_key_spec(c)]@ == in_cell(next, c)
                &&& !m@.contains_key(cell_key_spec(c)) ==> in_cell(next, c).len() == 0
            }) by {
                if c == e.cell {
                } else {
                    assert(cell_key_spec(c) != k) by {
                        if cell_key_spec(c) == cell_key_spec(e.cell) {
                            lemma_cell_key_injective(c, e.cell);
                        }
                    }
                }
            }
        }
        i = i + 1;
    }
    proof {
        assert(targets@.subrange(0, n as int) =~= targets@);
    }
    m
}

/// Whether a per-collider result is exactly the expected hit list: absent
/// when no candidate overlaps, otherwise present with the hits in discovery
/// order.
pub open spec fn result_matches(r: Option<Vec<u64>>, hits: Seq<u64>) -> bool {
    match r {
        Option::None => hits.len() == 0,
        Option::Some(v) => hits.len() > 0 && v@ == hits,
    }
}

/// Resolves one collision channel for a frame. For every collider, probes
/// its own cell and the 8 surrounding cells of the channel's candidate
/// bucket map and keeps the candidates whose bounding boxes truly overlap
/// it: entry `i` of the result is the hit list of collider `i`, `None`
/// standing for "no overlap, remove any `Colliding` record".
pub fn collisions(
    colliders: &Vec<GridEntry>,
    collide_with: &Vec<GridEntry>,
    grid: &HashGrid,
) -> (results: Vec<Option<Vec<u64>>>)
    requires
        grid.size > 0,
        forall|i: int|
            0 <= i < colliders@.len() ==> cell_in_range(
                #[trigger] colliders@[i].cell,
                grid.size as int,
            ),
    ensures
        results@.len() == colliders@.len(),
        forall|i: int|
            0 <= i < colliders@.len() ==> result_matches(
                #[trigger] results@[i],
                collider_hits(colliders@[i], collide_with@, grid.size as int),
            ),
{
    let m = build_buckets(collide_with);
    let mut results: Vec<Option<Vec<u64>>> = Vec::new();
    let n = colliders.len();
    let mut i: usize = 0;
    while i < n
        invariant
            i <= n,
            n == colliders@.len(),
            buckets_inv(m@, collide_with@),
            grid.size > 0,
            forall|j: int|
                0 <= j < colliders@.len() ==> cell_in_range(
                    #[trigger] colliders@[j].cell,
                    grid.size as int,
                ),
            results@.len() == i,
            forall|j: int|
                0 <= j < i ==> result_matches(
                    #[trigger] results@[j],
                    collider_hits(colliders@[j], collide_with@, grid.size as int),
                ),
        decreases n - i,
    {
        let e = colliders[i];
        let marker = HashMarker { cell: e.cell };
        let cells = marker.get_with_neighbors(grid.size);
        let mut hits: Vec<u64> = Vec::new();
        let mut ci: usize = 0;
        while ci < 9
            invariant
                ci <= 9,
                buckets_inv(m@, collide_with@),
                cells@ == neighbors_spec(e.cell, grid.size as int),
                hits@ == hits_in_cells(e.instance, collide_with@, cells@.subrange(0, ci as int)),
            decreases 9 - ci,
        {
            let cell = cells[ci];
            let k = cell_key(cell);
            let ghost probed = cells@.subrange(0, ci as int);
            match m.get(&k) {
                Option::Some(bucket) => {
                    proof {
                        lemma_cell_hits_via_bucket(e.instance, collide_with@, cell);
                    }
                    let bn = bucket.len();
                    let mut bi: usize = 0;
                    while bi < bn
                        invariant
                            bi <= bn,
                            bn == bucket@.len(),
                            bucket@ == in_cell(collide_with@, cell),
                            hits@ == hits_in_cells(
                                e.instance,
                                collide_with@,
                                probed,
                            ) + bucket_hits(e.instance, bucket@.subrange(0, bi as int)),
                        decreases bn - bi,
                    {
                        let t = bucket[bi];
                        proof {
                            assert(bucket@.subrange(0, bi as int + 1).drop_last() =~= bucket@
                                .subrange(0, bi as int));
                            assert(bucket@.subrange(0, bi as int + 1).last() == t);
                        }
                        if overlapping(&e.instance, &t.instance) {
                            hits.push(t.entity);
                        }
                        bi = bi + 1;
                    }
                    proof {
                        assert(bucket@.subrange(0, bn as int) =~= bucket@);
                    }
                },
                Option::None => {
                    proof {
                        lemma_cell_hits_via_bucket(e.instance, collide_with@, cell);
                        assert(in_cell(collide_with@, cell).len() == 0);
                    }
                },
            }
            proof {
                assert(cells@.subrange(0, ci as int + 1).drop_last() =~= probed);
                assert(cells@.subrange(0, ci as int + 1).last() == cell);
            }
            ci = ci + 1;
        }
        proof {
            assert(cells@.subrange(0, 9) =~= cells@);
        }
        if hits.len() == 0 {
            results.push(Option::None);
        } else {
            results.push(Option::Some(hits));
        }
        i = i + 1;
    }
    results
}

/// Whether a per-collider record is exactly the expected `Colliding`
/// update: the marker is removed when no candidate overlaps, and otherwise
/// carries the channel and the hits in discovery order.
pub open spec fn record_matches(r: Option<Colliding>, channel: u32, hits: Seq<u64>) -> bool {
    match r {
        Option::None => hits.len() == 0,
        Option::Some(c) => hits.len() > 0 && c.channel == channel && c.entities@ == hits,
    }
}

/// Resolves one collision channel and pairs every collider with its
/// `Colliding` update: `Some` with the overlapping entities to attach, or
/// `None` meaning any existing `Colliding` record is removed.
pub fn collision_records(
    channel: u32,
    colliders: &Vec<GridEntry>,
    collide_with: &Vec<GridEntry>,
    grid: &HashGrid,
) -> (records: Vec<(u64, Option<Colliding>)>)
    requires
        grid.size > 0,
        forall|i: int|
            0 <= i < colliders@.len() ==> cell_in_range(
                #[trigger] colliders@[i].cell,
                grid.size as int,
            ),
    ensures
        records@.len() == colliders@.len(),
        forall|i: int|
            0 <= i < colliders@.len() ==> (#[trigger] records@[i]).0 == colliders@[i].entity
                && record_matches(
                records@[i].1,
                channel,
                collider_hits(colliders@[i], collide_with@, grid.size as int),
            ),
{
    let results = collisions(colliders, collide_with, grid);
    let mut records: Vec<(u64, Option<Colliding>)> = Vec::new();
    let n = colliders.len();
    let mut i: usize = 0;
    while i < n
        invariant
            i <= n,
            n == colliders@.len(),
            results@.len() == n,
            forall|j: int|
                0 <= j < n ==> result_matches(
                    #[trigger] results@[j],
                    collider_hits(colliders@[j], collide_with@, grid.size as int),
                ),
            records@.len() == i,
            forall|j: int|
                0 <= j < i ==> (#[trigger] records@[j]).0 == colliders@[j].entity
                    && record_matches(
                    records@[j].1,
                    channel,
                    collider_hits(colliders@[j], collide_with@, grid.size as int),
                ),
        decreases n - i,
    {
        let entity = colliders[i].entity;
        match &results[i] {
            Option::Some(hits) => {
                let mut entities: Vec<u64> = Vec::new();
                let m = hits.len();
                let mut j: usize = 0;
                while j < m
                    invariant
                        j <= m,
                        m == hits@.len(),
                        entities@ == hits@.subrange(0, j as int),
                    decreases m - j,
                {
                    entities.push(hits[j]);
                    proof {
                        assert(entities@ =~= hits@.subrange(0, j as int + 1));
                    }
                    j = j + 1;
                }
                proof {
                    assert(hits@.subrange(0, m as int) =~= hits@);
                }
                records.push((entity, Option::Some(Colliding { channel, entities })));
            },
            Option::None => {
                records.push((entity, Option::None));
            },
        }
        i = i + 1;
    }
    records
}

} // verus!
