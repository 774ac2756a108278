//! The tile index: the centers of the solid tiles of one layer, and the ray
//! query that the collision resolver runs against it.

use vstd::prelude::*;
use crate::geometry::{AxisAlignedBoundingBox, Line, LineHit};
use crate::vector::{narrow, saturate, Vector2};

verus! {

/// The side length of a tile, in the unit in which the level is drawn.
pub const TILE_SIZE: i32 = 18;

/// The multiple of `s` nearest to `f`, for a positive `s`. A value halfway
/// between two multiples goes to the one farther from zero.
pub open spec fn snap(f: int, s: int) -> int {
    if f >= 0 {
        ((2 * f + s) / (2 * s)) * s
    } else {
        -(((-2 * f + s) / (2 * s)) * s)
    }
}

/// `snap(f, s)` is a multiple of `s` and no farther from `f` than half of `s`.
pub proof fn lemma_snap_is_nearest_multiple(f: int, s: int)
    requires
        s > 0,
    ensures
        snap(f, s) % s == 0,
        -s <= 2 * (snap(f, s) - f) <= s,
{
    let a = if f >= 0 { f } else { -f };
    let q = (2 * a + s) / (2 * s);
    assert(q * (2 * s) <= 2 * a + s < (q + 1) * (2 * s)) by (nonlinear_arith)
        requires
            s > 0,
            2 * a + s >= 0,
            q == (2 * a + s) / (2 * s),
    ;
    assert(q * (2 * s) == 2 * (q * s)) by (nonlinear_arith);
    assert((q + 1) * (2 * s) == 2 * (q * s) + 2 * s) by (nonlinear_arith);
    assert((q * s) % s == 0 && (-(q * s)) % s == 0) by (nonlinear_arith)
        requires
            s > 0,
    {
        assert((-(q * s)) == (-q) * s);
    }
}

/// The largest magnitude of a sum of two coordinates.
pub open spec fn reach_limit() -> int {
    0x1_0000_0000
}

/// Rounds `f` to the nearest multiple of the tile size `s`.
pub fn snap_f(f: i64, s: i32) -> (r: i64)
    requires
        s > 0,
        -reach_limit() <= f <= reach_limit(),
    ensures
        r == snap(f as int, s as int),
{
    let step: i64 = s as i64;
    let a: i64 = if f >= 0 { f } else { -f };
    let q: i64 = (2 * a + step) / (2 * step);
    assert(0 <= q * step <= 2 * a + step) by (nonlinear_arith)
        requires
            step > 0,
            2 * a + step >= 0,
            q == (2 * a + step) / (2 * step),
    ;
    if f >= 0 {
        q * step
    } else {
        -(q * step)
    }
}

/// Rounds both coordinates of the point `(x, y)` to the nearest multiple of
/// the tile size `s`.
pub fn snap_vector(x: i64, y: i64, s: i32) -> (r: (i64, i64))
    requires
        s > 0,
        -reach_limit() <= x <= reach_limit(),
        -reach_limit() <= y <= reach_limit(),
    ensures
        r.0 == snap(x as int, s as int),
        r.1 == snap(y as int, s as int),
{
    (snap_f(x, s), snap_f(y, s))
}

/// The solid tiles of one layer: the center of each, and the side length that
/// all of them share.
#[derive(Clone, Debug)]
pub struct TileGrid {
    pub coords: Vec<Vector2>,
    pub tile_size: i32,
}

impl TileGrid {
    /// Stores the tile centers as they are given, duplicates included.
    pub fn build(tile_centers: Vec<Vector2>, tile_size: i32) -> (grid: TileGrid)
        ensures
            grid.coords@ == tile_centers@,
            grid.tile_size == tile_size,
    {
        TileGrid { coords: tile_centers, tile_size }
    }

    /// Some tile has its center exactly at `(x, y)`.
    pub open spec fn occupied(&self, x: int, y: int) -> bool {
        exists|i: int| 0 <= i < self.coords@.len() && self.tile_at(i, x, y)
    }

    /// The tile with index `i` has its center exactly at `(x, y)`.
    pub open spec fn tile_at(&self, i: int, x: int, y: int) -> bool {
        self.coords@[i].x == x && self.coords@[i].y == y
    }

    /// The center of the cell that the end of the segment falls into.
    pub open spec fn target_cell(&self, origin: Vector2, vector: Vector2) -> (int, int) {
        (
            snap(origin.x + vector.x, self.tile_size as int),
            snap(origin.y + vector.y, self.tile_size as int),
        )
    }

    /// The result of `cast_axis_ray`.
    pub open spec fn cast(&self, origin: Vector2, vector: Vector2) -> Option<LineHit> {
        let cell = self.target_cell(origin, vector);
        if self.tile_size > 0 && self.occupied(cell.0, cell.1) {
            AxisAlignedBoundingBox::centered(
                Vector2 { x: cell.0 as i32, y: cell.1 as i32 },
                Vector2 { x: self.tile_size, y: self.tile_size },
            ).hit(Line { origin, vector })
        } else {
            None
        }
    }

    /// Casts the segment from `origin` to `origin + vector` against the one
    /// tile whose cell the end of the segment falls into.
    ///
    /// The end point is rounded to the nearest multiple of the tile size on
    /// each axis. If a tile has its center there, the segment is intersected
    /// with that tile's box; otherwise there is no hit. A displacement of more
    /// than one tile can therefore pass over a tile unnoticed. A grid whose
    /// tile size is not positive has no cells and gives no hit.
    pub fn cast_axis_ray(&self, origin: Vector2, vector: Vector2) -> (hit: Option<LineHit>)
        ensures
            hit == self.cast(origin, vector),
    {
        if self.tile_size <= 0 {
            return None;
        }
        let pos = snap_vector(
            origin.x as i64 + vector.x as i64,
            origin.y as i64 + vector.y as i64,
            self.tile_size,
        );
        let mut i: usize = 0;
        while i < self.coords.len()
            invariant
                i <= self.coords@.len(),
                self.tile_size > 0,
                (pos.0 as int, pos.1 as int) == self.target_cell(origin, vector),
                forall|j: int| 0 <= j < i ==> !self.tile_at(j, pos.0 as int, pos.1 as int),
            decreases self.coords@.len() - i,
        {
            let c = self.coords[i];
            if c.x as i64 == pos.0 && c.y as i64 == pos.1 {
                assert(self.tile_at(i as int, pos.0 as int, pos.1 as int));
                let tile = AxisAlignedBoundingBox::new(c, Vector2::splat(self.tile_size));
                return tile.intersection(Line::new(origin, vector));
            }
            i += 1;
        }
        None
    }

    /// A tile whose center is not a multiple of the tile size on both axes is
    /// never the tile that a ray is cast against.
    pub proof fn lemma_unaligned_tile_is_never_hit(&self, i: int, origin: Vector2, vector: Vector2)
        requires
            self.tile_size > 0,
            0 <= i < self.coords@.len(),
            self.coords@[i].x % self.tile_size != 0 || self.coords@[i].y % self.tile_size != 0,
        ensures
            !self.tile_at(
                i,
                self.target_cell(origin, vector).0,
                self.target_cell(origin, vector).1,
            ),
    {
        lemma_snap_is_nearest_multiple(origin.x + vector.x, self.tile_size as int);
        lemma_snap_is_nearest_multiple(origin.y + vector.y, self.tile_size as int);
    }
}

/// One tile of a layer that is to be drawn: which picture of the tile sheet
/// it shows, where its center is, and the cell of the layer it came from.
#[derive(Clone, Copy, Debug, PartialEq, Eq, Structural)]
pub struct SpriteParams {
    pub index: usize,
    pub offset: Vector2,
    pub column: u32,
    pub row: u32,
}

/// The tile in cell `cell` of a layer that is `width` cells wide, counting
/// the cells row by row; `None` for an empty cell and for one that `tiles`
/// does not reach.
pub open spec fn tile_in_cell(tiles: Seq<Option<u32>>, cell: int) -> Option<u32> {
    if 0 <= cell < tiles.len() {
        tiles[cell]
    } else {
        None
    }
}

/// The sprite for the tile with number `id` in cell `cell`: columns run to the
/// right and rows run down, one tile size apart.
pub open spec fn sprite_in_cell(width: int, cell: int, id: u32, tile_size: int) -> SpriteParams {
    SpriteParams {
        index: id as usize,
        offset: Vector2 {
            x: saturate((cell % width) * tile_size) as i32,
            y: saturate(-((cell / width) * tile_size)) as i32,
        },
        column: (cell % width) as u32,
        row: (cell / width) as u32,
    }
}

/// The sprites of the first `cells` cells of a layer, in the order of the
/// cells.
pub open spec fn sprites_of(width: int, tiles: Seq<Option<u32>>, tile_size: int, cells: nat) -> Seq<SpriteParams>
    decreases cells,
{
    if cells == 0 {
        Seq::empty()
    } else {
        let before = sprites_of(width, tiles, tile_size, (cells - 1) as nat);
        match tile_in_cell(tiles, cells - 1) {
            Some(id) => before.push(sprite_in_cell(width, cells - 1, id, tile_size)),
            None => before,
        }
    }
}

/// Lists the tiles of a layer of `width` by `height` cells, row by row.
///
/// `tiles` holds the cells in rows, each either empty or the number of a
/// tile. A cell that `tiles` is too short to hold counts as empty.
pub fn finite_tile_layer(width: u32, height: u32, tiles: &Vec<Option<u32>>, tile_size: i32) -> (sprites: Vec<
    SpriteParams,
>)
    ensures
        sprites@ == sprites_of(width as int, tiles@, tile_size as int, (width * height) as nat),
{
    let mut sprites: Vec<SpriteParams> = Vec::new();
    if width == 0 || height == 0 {
        assert(width * height == 0) by (nonlinear_arith)
            requires
                width == 0 || height == 0,
        ;
        return sprites;
    }
    assert(0 < width * height <= 0xffff_ffff * 0xffff_ffff) by (nonlinear_arith)
        requires
            0 < width <= 0xffff_ffff,
            0 < height <= 0xffff_ffff,
    ;
    let cells: u64 = width as u64 * height as u64;
    let mut cell: u64 = 0;
    while cell < cells
        invariant
            cell <= cells,
            width > 0,
            cells == width * height,
            sprites@ == sprites_of(width as int, tiles@, tile_size as int, cell as nat),
        decreases cells - cell,
    {
        if cell < tiles.len() as u64 {
            match tiles[cell as usize] {
                Some(id) => {
                    let column: u64 = cell % width as u64;
                    let row: u64 = cell / width as u64;
                    assert(row < height) by (nonlinear_arith)
                        requires
                            row == cell / (width as u64),
                            cell < width * height,
                            width > 0,
                    ;
                    let size: i128 = tile_size as i128;
                    assert(-0x1_0000_0000 * 0x8000_0000 <= column * size <= 0x1_0000_0000
                        * 0x8000_0000 && -0x1_0000_0000 * 0x8000_0000 <= row * size
                        <= 0x1_0000_0000 * 0x8000_0000) by (nonlinear_arith)
                        requires
                            0 <= column < 0x1_0000_0000,
                            0 <= row < 0x1_0000_0000,
                            -0x8000_0000 <= size < 0x8000_0000,
                    ;
                    sprites.push(
                        SpriteParams {
                            index: id as usize,
                            offset: Vector2 {
                                x: narrow(column as i128 * size),
                                y: narrow(-(row as i128 * size)),
                            },
                            column: column as u32,
                            row: row as u32,
                        },
                    );
                },
                None => {},
            }
        }
        cell += 1;
    }
    sprites
}

/// The centers of the given sprites, in the same order: what a layer's tile
/// index is built from.
pub fn sprite_centers(sprites: &Vec<SpriteParams>) -> (centers: Vec<Vector2>)
    ensures
        centers@.len() == sprites@.len(),
        forall|i: int| 0 <= i < sprites@.len() ==> centers@[i] == sprites@[i].offset,
{
    let mut centers: Vec<Vector2> = Vec::new();
    let mut i: usize = 0;
    while i < sprites.len()
        invariant
            i <= sprites@.len(),
            centers@.len() == i,
            forall|j: int| 0 <= j < i ==> centers@[j] == sprites@[j].offset,
        decreases sprites@.len() - i,
    {
        centers.push(sprites[i].offset);
        i += 1;
    }
    centers
}

} // verus!
