//! Border lines for a tile and its eight neighbours, chosen by the shape that
//! the occupied cells make.

use vstd::prelude::*;
use crate::vector::{narrow, saturate, Vector2};

verus! {

/// A line from `start` to `stop`.
#[derive(Clone, Copy, Debug, PartialEq, Eq, Structural)]
pub struct Line2 {
    pub start: Vector2,
    pub stop: Vector2,
}

impl Line2 {
    pub fn new(start: Vector2, stop: Vector2) -> (line: Line2)
        ensures
            line == (Line2 { start, stop }),
    {
        Line2 { start, stop }
    }
}

/// A tile at `coord` with its eight neighbours, `step` apart. `occupancy`
/// tells, row by row from the row at `coord.y - step`, which of the nine cells
/// hold a tile.
#[derive(Clone, Copy, Debug)]
pub struct TileGroup {
    pub step: i32,
    pub coord: Vector2,
    pub occupancy: [[bool; 3]; 3],
}

/// One bit of a pattern: `weight` if the cell is occupied, else nothing.
pub open spec fn bit(occupied: bool, weight: int) -> int {
    if occupied {
        weight
    } else {
        0
    }
}

/// The nine cells as a number of nine binary digits, the first row in the
/// highest three and each row from left to right.
pub open spec fn pattern_of(occupancy: [[bool; 3]; 3]) -> int {
    bit(occupancy[0][0], 256) + bit(occupancy[0][1], 128) + bit(occupancy[0][2], 64)
        + bit(occupancy[1][0], 32) + bit(occupancy[1][1], 16) + bit(occupancy[1][2], 8)
        + bit(occupancy[2][0], 4) + bit(occupancy[2][1], 2) + bit(occupancy[2][2], 1)
}

/// The border of a pattern, as pairs of lattice points. The points are
/// numbered row by row from `0` to `8`, so that `4` is the middle.
pub open spec fn segments_of(pattern: int) -> Seq<(int, int)> {
    if pattern == 0b000_111_111 {
        seq![(3, 5)]
    } else if pattern == 0b110_110_110 {
        seq![(1, 7)]
    } else if pattern == 0b111_111_000 {
        seq![(3, 5)]
    } else if pattern == 0b011_011_011 {
        seq![(1, 7)]
    } else if pattern == 0b011_111_111 {
        seq![(1, 4), (4, 3)]
    } else if pattern == 0b110_111_111 {
        seq![(1, 4), (4, 5)]
    } else if pattern == 0b111_111_110 {
        seq![(5, 4), (4, 7)]
    } else if pattern == 0b111_111_011 {
        seq![(3, 4), (4, 7)]
    } else if pattern == 0b001_111_111 {
        seq![(2, 5), (5, 3)]
    } else if pattern == 0b110_110_111 {
        seq![(1, 7), (7, 8)]
    } else if pattern == 0b111_111_100 {
        seq![(5, 3), (3, 6)]
    } else if pattern == 0b111_011_011 {
        seq![(0, 1), (1, 7)]
    } else if pattern == 0b100_111_111 {
        seq![(0, 3), (3, 5)]
    } else if pattern == 0b111_110_110 {
        seq![(2, 1), (1, 7)]
    } else if pattern == 0b111_111_001 {
        seq![(3, 5), (5, 8)]
    } else if pattern == 0b011_011_111 {
        seq![(1, 7), (7, 6)]
    } else if pattern == 0b101_111_111 {
        seq![(0, 3), (3, 5), (5, 2)]
    } else if pattern == 0b111_110_111 {
        seq![(2, 1), (1, 7), (7, 8)]
    } else if pattern == 0b111_111_101 {
        seq![(6, 3), (3, 5), (5, 8)]
    } else if pattern == 0b111_011_111 {
        seq![(0, 1), (1, 7), (7, 6)]
    } else if pattern == 0b010_111_111 {
        seq![(3, 4), (4, 1), (4, 5)]
    } else if pattern == 0b110_111_110 {
        seq![(1, 4), (4, 5), (4, 7)]
    } else if pattern == 0b111_111_010 {
        seq![(3, 4), (4, 7), (4, 5)]
    } else if pattern == 0b011_111_011 {
        seq![(1, 4), (4, 3), (4, 7)]
    } else if pattern == 0b101_111_101 {
        seq![(0, 3), (3, 5), (5, 2), (3, 6), (5, 8)]
    } else if pattern == 0b111_010_111 {
        seq![(0, 1), (1, 7), (7, 6), (7, 8), (1, 2)]
    } else if pattern == 0b100_110_111 {
        seq![(0, 3), (3, 4), (4, 7), (7, 8)]
    } else if pattern == 0b111_110_100 {
        seq![(2, 1), (1, 4), (4, 3), (3, 6)]
    } else if pattern == 0b111_011_001 {
        seq![(0, 1), (1, 4), (4, 5), (5, 8)]
    } else if pattern == 0b001_011_111 {
        seq![(2, 5), (5, 4), (4, 7), (7, 6)]
    } else {
        seq![(1, 4), (3, 4), (4, 5), (4, 7)]
    }
}

/// Offset of lattice point `c` from the middle along x, in steps.
pub open spec fn column_offset(c: int) -> int {
    if 0 <= c <= 8 {
        c % 3 - 1
    } else {
        0
    }
}

/// Offset of lattice point `c` from the middle along y, in steps.
pub open spec fn row_offset(c: int) -> int {
    if 0 <= c <= 8 {
        c / 3 - 1
    } else {
        0
    }
}

/// Every border has from one to five segments, and each of them joins two
/// different lattice points.
pub proof fn lemma_segments_join_lattice_points(pattern: int, i: int)
    requires
        0 <= i < segments_of(pattern).len(),
    ensures
        1 <= segments_of(pattern).len() <= 5,
        0 <= segments_of(pattern)[i].0 <= 8,
        0 <= segments_of(pattern)[i].1 <= 8,
        segments_of(pattern)[i].0 != segments_of(pattern)[i].1,
{
}

/// Looks up the border of a pattern.
fn segments(pattern: u16) -> (segs: Vec<(i32, i32)>)
    ensures
        segs@.len() == segments_of(pattern as int).len(),
        forall|i: int|
            0 <= i < segs@.len() ==> segs@[i].0 == segments_of(pattern as int)[i].0 && segs@[i].1
                == segments_of(pattern as int)[i].1,
{
    let segs: Vec<(i32, i32)> = match pattern {
        // wall
        0b000_111_111 => vec![(3, 5)],
        0b110_110_110 => vec![(1, 7)],
        0b111_111_000 => vec![(3, 5)],
        0b011_011_011 => vec![(1, 7)],
        // inside corner
        0b011_111_111 => vec![(1, 4), (4, 3)],
        0b110_111_111 => vec![(1, 4), (4, 5)],
        0b111_111_110 => vec![(5, 4), (4, 7)],
        0b111_111_011 => vec![(3, 4), (4, 7)],
        // inside L
        0b001_111_111 => vec![(2, 5), (5, 3)],
        0b110_110_111 => vec![(1, 7), (7, 8)],
        0b111_111_100 => vec![(5, 3), (3, 6)],
        0b111_011_011 => vec![(0, 1), (1, 7)],
        // outside L
        0b100_111_111 => vec![(0, 3), (3, 5)],
        0b111_110_110 => vec![(2, 1), (1, 7)],
        0b111_111_001 => vec![(3, 5), (5, 8)],
        0b011_011_111 => vec![(1, 7), (7, 6)],
        // hole
        0b101_111_111 => vec![(0, 3), (3, 5), (5, 2)],
        0b111_110_111 => vec![(2, 1), (1, 7), (7, 8)],
        0b111_111_101 => vec![(6, 3), (3, 5), (5, 8)],
        0b111_011_111 => vec![(0, 1), (1, 7), (7, 6)],
        // spike
        0b010_111_111 => vec![(3, 4), (4, 1), (4, 5)],
        0b110_111_110 => vec![(1, 4), (4, 5), (4, 7)],
        0b111_111_010 => vec![(3, 4), (4, 7), (4, 5)],
        0b011_111_011 => vec![(1, 4), (4, 3), (4, 7)],
        // H
        0b101_111_101 => vec![(0, 3), (3, 5), (5, 2), (3, 6), (5, 8)],
        0b111_010_111 => vec![(0, 1), (1, 7), (7, 6), (7, 8), (1, 2)],
        // zigzag
        0b100_110_111 => vec![(0, 3), (3, 4), (4, 7), (7, 8)],
        0b111_110_100 => vec![(2, 1), (1, 4), (4, 3), (3, 6)],
        0b111_011_001 => vec![(0, 1), (1, 4), (4, 5), (5, 8)],
        0b001_011_111 => vec![(2, 5), (5, 4), (4, 7), (7, 6)],
        // every other shape is drawn as a star
        _ => vec![(1, 4), (3, 4), (4, 5), (4, 7)],
    };
    segs
}

impl TileGroup {
    pub fn new(step: i32, coord: Vector2, occupancy: [[bool; 3]; 3]) -> (group: TileGroup)
        ensures
            group.step == step,
            group.coord == coord,
            group.occupancy == occupancy,
    {
        TileGroup { step, coord, occupancy }
    }

    /// The lattice point with number `c`; the middle for a number that is not
    /// one of `0` to `8`.
    pub open spec fn point(&self, c: int) -> Vector2 {
        Vector2 {
            x: saturate(self.coord.x + column_offset(c) * self.step) as i32,
            y: saturate(self.coord.y + row_offset(c) * self.step) as i32,
        }
    }

    /// The border lines of the group.
    pub open spec fn border_lines(&self) -> Seq<Line2> {
        let segs = segments_of(pattern_of(self.occupancy));
        Seq::new(
            segs.len(),
            |i: int| Line2 { start: self.point(segs[i].0), stop: self.point(segs[i].1) },
        )
    }

    /// The occupied cells as a number.
    fn pattern(&self) -> (p: u16)
        ensures
            p == pattern_of(self.occupancy),
    {
        let mut p: u16 = 0;
        if self.occupancy[0][0] {
            p = p + 256;
        }
        if self.occupancy[0][1] {
            p = p + 128;
        }
        if self.occupancy[0][2] {
            p = p + 64;
        }
        if self.occupancy[1][0] {
            p = p + 32;
        }
        if self.occupancy[1][1] {
            p = p + 16;
        }
        if self.occupancy[1][2] {
            p = p + 8;
        }
        if self.occupancy[2][0] {
            p = p + 4;
        }
        if self.occupancy[2][1] {
            p = p + 2;
        }
        if self.occupancy[2][2] {
            p = p + 1;
        }
        p
    }

    /// The lines that mark the border of the group: walls, corners, holes and
    /// spikes each have their own figure, and any other shape gets a star.
    pub fn border(&self) -> (lines: Vec<Line2>)
        ensures
            lines@ == self.border_lines(),
    {
        let segs = segments(self.pattern());
        let mut lines: Vec<Line2> = Vec::new();
        let mut i: usize = 0;
        while i < segs.len()
            invariant
                i <= segs@.len(),
                lines@.len() == i,
                segs@.len() == segments_of(pattern_of(self.occupancy)).len(),
                forall|j: int|
                    0 <= j < segs@.len() ==> segs@[j].0 == segments_of(
                        pattern_of(self.occupancy),
                    )[j].0 && segs@[j].1 == segments_of(pattern_of(self.occupancy))[j].1,
                forall|j: int| 0 <= j < i ==> lines@[j] == self.border_lines()[j],
            decreases segs@.len() - i,
        {
            let seg = segs[i];
            lines.push(self.draw_line(seg.0, seg.1));
            i += 1;
        }
        assert(lines@ =~= self.border_lines());
        lines
    }

    /// The line between two lattice points.
    pub fn draw_line(&self, start: i32, stop: i32) -> (line: Line2)
        ensures
            line == (Line2 { start: self.point(start as int), stop: self.point(stop as int) }),
    {
        Line2::new(self.to_point(start), self.to_point(stop))
    }

    /// The position of lattice point `c`.
    pub fn to_point(&self, c: i32) -> (p: Vector2)
        ensures
            p == self.point(c as int),
    {
        let step: i128 = self.step as i128;
        let across: i128 = if 0 <= c && c <= 8 { (c % 3 - 1) as i128 } else { 0 };
        let down: i128 = if 0 <= c && c <= 8 { (c / 3 - 1) as i128 } else { 0 };
        assert(-0x8000_0000 <= across * step <= 0x8000_0000 && -0x8000_0000 <= down * step
            <= 0x8000_0000) by (nonlinear_arith)
            requires
                -1 <= across <= 1,
                -1 <= down <= 1,
                -0x8000_0000 <= step < 0x8000_0000,
        ;
        Vector2::new(
            narrow(self.coord.x as i128 + across * step),
            narrow(self.coord.y as i128 + down * step),
        )
    }
}

} // verus!
