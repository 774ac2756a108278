//! The collision resolver: it stops an actor, one axis at a time, before the
//! actor's next step would carry it into a solid tile.

use vstd::prelude::*;
use crate::movement::{moved, without_x, without_y, Accelleration, Forces, Velocity};
use crate::tilemap::TileGrid;
use crate::vector::{div_toward_zero, narrow, over_time, rate_over_time, saturate, Vector2};

verus! {

/// The square box that an actor collides with: `size` is its side length, and
/// the actor's position is its center.
#[derive(Clone, Copy, Debug, PartialEq, Eq, Structural)]
pub struct Collidable {
    pub size: i32,
}

/// The direction of a motion along one axis.
#[derive(Clone, Copy, Debug, PartialEq, Eq, Structural)]
pub enum Direction {
    Up,
    Down,
    Left,
    Right,
    /// No motion, or motion along both axes at once.
    Still,
}

/// The direction of the motion `v`.
pub open spec fn direction_of(v: Vector2) -> Direction {
    if v.x == 0 && v.y < 0 {
        Direction::Down
    } else if v.x == 0 && v.y > 0 {
        Direction::Up
    } else if v.y == 0 && v.x < 0 {
        Direction::Left
    } else if v.y == 0 && v.x > 0 {
        Direction::Right
    } else {
        Direction::Still
    }
}

/// Tells along which axis, and which way, `v` points.
pub fn vec_direction(v: Vector2) -> (dir: Direction)
    ensures
        dir == direction_of(v),
{
    if v.x == 0 && v.y < 0 {
        Direction::Down
    } else if v.x == 0 && v.y > 0 {
        Direction::Up
    } else if v.y == 0 && v.x < 0 {
        Direction::Left
    } else if v.y == 0 && v.x > 0 {
        Direction::Right
    } else {
        Direction::Still
    }
}

/// The corner of the box of side `size` around `center` that lies toward
/// `(sx, sy)`, where each of `sx` and `sy` is `1` or `-1`.
pub open spec fn corner(center: Vector2, size: i32, sx: int, sy: int) -> Vector2 {
    Vector2 {
        x: saturate(center.x + sx * div_toward_zero(size as int, 2)) as i32,
        y: saturate(center.y + sy * div_toward_zero(size as int, 2)) as i32,
    }
}

/// The two corners on the side of the box that leads in the direction of
/// `motion`; none for a motion that is `Still`.
pub open spec fn leading_corners(center: Vector2, size: i32, motion: Vector2) -> Seq<Vector2> {
    match direction_of(motion) {
        Direction::Up => seq![corner(center, size, -1, 1), corner(center, size, 1, 1)],
        Direction::Down => seq![corner(center, size, -1, -1), corner(center, size, 1, -1)],
        Direction::Left => seq![corner(center, size, -1, 1), corner(center, size, -1, -1)],
        Direction::Right => seq![corner(center, size, 1, 1), corner(center, size, 1, -1)],
        Direction::Still => seq![],
    }
}

/// The points from which rays are cast for an actor that moves along one axis:
/// the two corners of its box that lead in the direction of `motion`.
pub fn ray_origins(center: Vector2, size: i32, motion: Vector2) -> (origins: Vec<Vector2>)
    ensures
        origins@ == leading_corners(center, size, motion),
{
    let dir = vec_direction(motion);
    let hs: i128 = (size / 2) as i128;
    let cx: i128 = center.x as i128;
    let cy: i128 = center.y as i128;
    let left: i32 = narrow(cx - hs);
    let right: i32 = narrow(cx + hs);
    let bottom: i32 = narrow(cy - hs);
    let top: i32 = narrow(cy + hs);
    let mut origins: Vec<Vector2> = Vec::new();
    match dir {
        Direction::Up => {
            origins.push(Vector2::new(left, top));
            origins.push(Vector2::new(right, top));
        },
        Direction::Down => {
            origins.push(Vector2::new(left, bottom));
            origins.push(Vector2::new(right, bottom));
        },
        Direction::Left => {
            origins.push(Vector2::new(left, top));
            origins.push(Vector2::new(left, bottom));
        },
        Direction::Right => {
            origins.push(Vector2::new(right, top));
            origins.push(Vector2::new(right, bottom));
        },
        Direction::Still => {},
    }
    assert(origins@ =~= leading_corners(center, size, motion));
    origins
}

/// The displacement over one step at the speed `v` along one axis.
pub open spec fn step(v: i32, dt_micros: int) -> i32 {
    saturate(over_time(v as int, dt_micros)) as i32
}

/// Some ray from one of `origins` along `vector` hits a tile of `grid`.
pub open spec fn any_hit(grid: TileGrid, origins: Seq<Vector2>, vector: Vector2) -> bool {
    exists|i: int| 0 <= i < origins.len() && #[trigger] grid.cast(origins[i], vector) is Some
}

/// The actor's next step along the y axis would carry a leading corner of its
/// box into a tile of `grid`.
pub open spec fn blocked_y(grid: TileGrid, position: Vector2, size: i32, v: Vector2, dt_micros: int) -> bool {
    v.y != 0 && any_hit(
        grid,
        leading_corners(position, size, Vector2 { x: 0, y: v.y }),
        Vector2 { x: 0, y: step(v.y, dt_micros) },
    )
}

/// The actor's next step along the x axis would carry a leading corner of its
/// box into a tile of `grid`.
pub open spec fn blocked_x(grid: TileGrid, position: Vector2, size: i32, v: Vector2, dt_micros: int) -> bool {
    v.x != 0 && any_hit(
        grid,
        leading_corners(position, size, Vector2 { x: step(v.x, dt_micros), y: 0 }),
        Vector2 { x: step(v.x, dt_micros), y: 0 },
    )
}

/// The velocity `v` with each component set to zero on which the actor is
/// blocked by `grid`.
pub open spec fn stopped(grid: TileGrid, position: Vector2, size: i32, v: Vector2, dt_micros: int) -> Vector2 {
    Vector2 {
        x: if blocked_x(grid, position, size, v, dt_micros) { 0 } else { v.x },
        y: if blocked_y(grid, position, size, v, dt_micros) { 0 } else { v.y },
    }
}

/// The forces with each axis cleared on which the actor is blocked by `grid`.
pub open spec fn cancelled(
    grid: TileGrid,
    position: Vector2,
    size: i32,
    v: Vector2,
    forces: Forces,
    dt_micros: int,
) -> Forces {
    let after_y = if blocked_y(grid, position, size, v, dt_micros) { without_y(forces) } else { forces };
    if blocked_x(grid, position, size, v, dt_micros) { without_x(after_y) } else { after_y }
}

/// Casts a ray along `vector` from each of `origins` and tells whether any of
/// them hits a tile.
fn any_ray_hits(grid: &TileGrid, origins: &Vec<Vector2>, vector: Vector2) -> (hit: bool)
    ensures
        hit == any_hit(*grid, origins@, vector),
{
    let mut hit = false;
    let mut i: usize = 0;
    while i < origins.len()
        invariant
            i <= origins@.len(),
            hit == any_hit(*grid, origins@.take(i as int), vector),
        decreases origins@.len() - i,
    {
        let found = grid.cast_axis_ray(origins[i], vector);
        proof {
            let before = origins@.take(i as int);
            let after = origins@.take(i as int + 1);
            if any_hit(*grid, before, vector) {
                let k = choose|k: int| 0 <= k < before.len() && #[trigger] grid.cast(before[k], vector) is Some;
                assert(after[k] == before[k]);
            }
            if found is Some {
                assert(after[i as int] == origins@[i as int]);
            }
            if any_hit(*grid, after, vector) {
                let k = choose|k: int| 0 <= k < after.len() && #[trigger] grid.cast(after[k], vector) is Some;
                if k < i {
                    assert(before[k] == after[k]);
                }
            }
        }
        if found.is_some() {
            hit = true;
        }
        i += 1;
    }
    proof {
        assert(origins@.take(i as int) == origins@);
    }
    hit
}

/// Stops an actor where its next step would carry it into a tile of `grid`.
///
/// The two axes are treated apart, y first. On each axis on which the actor
/// moves, a ray is cast from each leading corner of its box along the
/// displacement of the coming step on that axis alone. If any ray hits, the
/// velocity on that axis becomes zero and that axis is cleared in every force
/// of the actor; otherwise the axis is left as it is.
pub fn collide_with(
    position: Vector2,
    velocity: &mut Velocity,
    accel: &mut Accelleration,
    collidable: &Collidable,
    grid: &TileGrid,
    dt_micros: u32,
)
    ensures
        final(velocity).value == stopped(
            *grid,
            position,
            collidable.size,
            old(velocity).value,
            dt_micros as int,
        ),
        final(accel)@ == cancelled(
            *grid,
            position,
            collidable.size,
            old(velocity).value,
            old(accel)@,
            dt_micros as int,
        ),
        old(accel).wf() ==> final(accel).wf(),
{
    if velocity.value.y != 0 {
        let dy: i32 = narrow(rate_over_time(velocity.value.y as i128, dt_micros));
        let origins = ray_origins(position, collidable.size, Vector2::new(0, velocity.value.y));
        if any_ray_hits(grid, &origins, Vector2::new(0, dy)) {
            velocity.value.y = 0;
            accel.clear_y();
        }
    }
    if velocity.value.x != 0 {
        let dx: i32 = narrow(rate_over_time(velocity.value.x as i128, dt_micros));
        let origins = ray_origins(position, collidable.size, Vector2::new(dx, 0));
        if any_ray_hits(grid, &origins, Vector2::new(dx, 0)) {
            velocity.value.x = 0;
            accel.clear_x();
        }
    }
}

/// An actor that was stopped on an axis stays where it is on that axis when
/// it is then moved along its velocity.
pub proof fn lemma_blocked_axis_does_not_move(
    grid: TileGrid,
    position: Vector2,
    size: i32,
    v: Vector2,
    dt_micros: int,
)
    ensures
        blocked_x(grid, position, size, v, dt_micros) ==> moved(
            position,
            stopped(grid, position, size, v, dt_micros),
            dt_micros,
        ).x == position.x,
        blocked_y(grid, position, size, v, dt_micros) ==> moved(
            position,
            stopped(grid, position, size, v, dt_micros),
            dt_micros,
        ).y == position.y,
{
    assert(0int * dt_micros == 0);
}

/// An actor that stands still is not changed by the resolver.
pub proof fn lemma_resting_actor_is_left_alone(
    grid: TileGrid,
    position: Vector2,
    size: i32,
    forces: Forces,
    dt_micros: int,
)
    ensures
        stopped(grid, position, size, Vector2::zero(), dt_micros) == Vector2::zero(),
        cancelled(grid, position, size, Vector2::zero(), forces, dt_micros) == forces,
{
}

/// A layer takes part in collisions when its name begins with `ground`.
pub open spec fn is_ground(name: Seq<char>) -> bool {
    "ground"@.is_prefix_of(name)
}

/// The velocity and the forces of an actor after the resolver has gone
/// through `layers` in order, skipping those that are not ground.
pub open spec fn resolved(
    layers: Seq<(TileGrid, String)>,
    position: Vector2,
    size: i32,
    v: Vector2,
    forces: Forces,
    dt_micros: int,
) -> (Vector2, Forces)
    decreases layers.len(),
{
    if layers.len() == 0 {
        (v, forces)
    } else {
        let before = resolved(layers.drop_last(), position, size, v, forces, dt_micros);
        let layer = layers.last();
        if is_ground(layer.1@) {
            (
                stopped(layer.0, position, size, before.0, dt_micros),
                cancelled(layer.0, position, size, before.0, before.1, dt_micros),
            )
        } else {
            before
        }
    }
}

/// `str::starts_with` of the standard library, called with a string as the
/// pattern: whether the characters of `prefix` are the first characters of
/// `name`. Not proved here.
#[verifier::external_body]
fn starts_with(name: &str, prefix: &str) -> (r: bool)
    ensures
        r == prefix@.is_prefix_of(name@),
{
    name.starts_with(prefix)
}

/// Tells whether a layer of that name is solid ground.
pub fn is_ground_layer(name: &str) -> (r: bool)
    ensures
        r == is_ground(name@),
{
    starts_with(name, "ground")
}

/// Runs the collision resolver for one actor against every ground layer of
/// the level, in the order in which the layers are given.
///
/// Each entry of `tile_maps` is the tile index of a layer with the layer's
/// name. Layers whose name does not begin with `ground` are decoration and
/// are skipped; each of the others is handed to `collide_with`.
pub fn collisions(
    position: Vector2,
    velocity: &mut Velocity,
    accel: &mut Accelleration,
    collidable: &Collidable,
    tile_maps: &Vec<(TileGrid, String)>,
    dt_micros: u32,
)
    ensures
        (final(velocity).value, final(accel)@) == resolved(
            tile_maps@,
            position,
            collidable.size,
            old(velocity).value,
            old(accel)@,
            dt_micros as int,
        ),
        old(accel).wf() ==> final(accel).wf(),
{
    let mut i: usize = 0;
    while i < tile_maps.len()
        invariant
            i <= tile_maps@.len(),
            (velocity.value, accel@) == resolved(
                tile_maps@.take(i as int),
                position,
                collidable.size,
                old(velocity).value,
                old(accel)@,
                dt_micros as int,
            ),
            old(accel).wf() ==> accel.wf(),
        decreases tile_maps@.len() - i,
    {
        proof {
            let next = tile_maps@.take(i as int + 1);
            assert(next.drop_last() == tile_maps@.take(i as int));
            assert(next.last() == tile_maps@[i as int]);
        }
        if is_ground_layer(tile_maps[i].1.as_str()) {
            collide_with(position, velocity, accel, collidable, &tile_maps[i].0, dt_micros);
        }
        i += 1;
    }
    proof {
        assert(tile_maps@.take(i as int) == tile_maps@);
    }
}

} // verus!
