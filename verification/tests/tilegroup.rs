use tile_physics::tilegroup::{Line2, TileGroup};
use tile_physics::vector::Vector2;

const T: bool = true;
const F: bool = false;

fn group(occupancy: [[bool; 3]; 3]) -> TileGroup {
    TileGroup::new(18, Vector2::new(100, 200), occupancy)
}

fn point(c: i32) -> Vector2 {
    group([[F; 3]; 3]).to_point(c)
}

fn lines(pairs: &[(i32, i32)]) -> Vec<Line2> {
    pairs.iter().map(|&(a, b)| Line2::new(point(a), point(b))).collect()
}

#[test]
fn lattice_points_are_numbered_row_by_row() {
    assert_eq!(point(0), Vector2::new(82, 182));
    assert_eq!(point(1), Vector2::new(100, 182));
    assert_eq!(point(2), Vector2::new(118, 182));
    assert_eq!(point(3), Vector2::new(82, 200));
    assert_eq!(point(4), Vector2::new(100, 200));
    assert_eq!(point(5), Vector2::new(118, 200));
    assert_eq!(point(6), Vector2::new(82, 218));
    assert_eq!(point(7), Vector2::new(100, 218));
    assert_eq!(point(8), Vector2::new(118, 218));
}

#[test]
fn unknown_lattice_point_is_the_middle() {
    assert_eq!(point(9), Vector2::new(100, 200));
    assert_eq!(point(-1), Vector2::new(100, 200));
    assert_eq!(point(i32::MAX), Vector2::new(100, 200));
    assert_eq!(point(i32::MIN), Vector2::new(100, 200));
}

#[test]
fn lattice_point_stays_within_the_coordinate_range() {
    let far = TileGroup::new(i32::MAX, Vector2::new(i32::MAX, i32::MIN), [[F; 3]; 3]);
    assert_eq!(far.to_point(8), Vector2::new(i32::MAX, -1));
    assert_eq!(far.to_point(0), Vector2::new(0, i32::MIN));
}

#[test]
fn line_between_two_lattice_points() {
    let line = group([[F; 3]; 3]).draw_line(3, 5);
    assert_eq!(line.start, Vector2::new(82, 200));
    assert_eq!(line.stop, Vector2::new(118, 200));
}

#[test]
fn group_holds_what_it_is_given() {
    let g = TileGroup::new(7, Vector2::new(1, 2), [[T, F, T], [F, T, F], [T, T, F]]);
    assert_eq!(g.step, 7);
    assert_eq!(g.coord, Vector2::new(1, 2));
    assert_eq!(g.occupancy, [[T, F, T], [F, T, F], [T, T, F]]);
}

#[test]
fn walls() {
    assert_eq!(group([[F, F, F], [T, T, T], [T, T, T]]).border(), lines(&[(3, 5)]));
    assert_eq!(group([[T, T, F], [T, T, F], [T, T, F]]).border(), lines(&[(1, 7)]));
    assert_eq!(group([[T, T, T], [T, T, T], [F, F, F]]).border(), lines(&[(3, 5)]));
    assert_eq!(group([[F, T, T], [F, T, T], [F, T, T]]).border(), lines(&[(1, 7)]));
}

#[test]
fn inside_corners() {
    assert_eq!(group([[F, T, T], [T, T, T], [T, T, T]]).border(), lines(&[(1, 4), (4, 3)]));
    assert_eq!(group([[T, T, F], [T, T, T], [T, T, T]]).border(), lines(&[(1, 4), (4, 5)]));
    assert_eq!(group([[T, T, T], [T, T, T], [T, T, F]]).border(), lines(&[(5, 4), (4, 7)]));
    assert_eq!(group([[T, T, T], [T, T, T], [F, T, T]]).border(), lines(&[(3, 4), (4, 7)]));
}

#[test]
fn inside_ls() {
    assert_eq!(group([[F, F, T], [T, T, T], [T, T, T]]).border(), lines(&[(2, 5), (5, 3)]));
    assert_eq!(group([[T, T, F], [T, T, F], [T, T, T]]).border(), lines(&[(1, 7), (7, 8)]));
    assert_eq!(group([[T, T, T], [T, T, T], [T, F, F]]).border(), lines(&[(5, 3), (3, 6)]));
    assert_eq!(group([[T, T, T], [F, T, T], [F, T, T]]).border(), lines(&[(0, 1), (1, 7)]));
}

#[test]
fn outside_ls() {
    assert_eq!(group([[T, F, F], [T, T, T], [T, T, T]]).border(), lines(&[(0, 3), (3, 5)]));
    assert_eq!(group([[T, T, T], [T, T, F], [T, T, F]]).border(), lines(&[(2, 1), (1, 7)]));
    assert_eq!(group([[T, T, T], [T, T, T], [F, F, T]]).border(), lines(&[(3, 5), (5, 8)]));
    assert_eq!(group([[F, T, T], [F, T, T], [T, T, T]]).border(), lines(&[(1, 7), (7, 6)]));
}

#[test]
fn holes() {
    assert_eq!(group([[T, F, T], [T, T, T], [T, T, T]]).border(), lines(&[(0, 3), (3, 5), (5, 2)]));
    assert_eq!(group([[T, T, T], [T, T, F], [T, T, T]]).border(), lines(&[(2, 1), (1, 7), (7, 8)]));
    assert_eq!(group([[T, T, T], [T, T, T], [T, F, T]]).border(), lines(&[(6, 3), (3, 5), (5, 8)]));
    assert_eq!(group([[T, T, T], [F, T, T], [T, T, T]]).border(), lines(&[(0, 1), (1, 7), (7, 6)]));
}

#[test]
fn spikes() {
    assert_eq!(group([[F, T, F], [T, T, T], [T, T, T]]).border(), lines(&[(3, 4), (4, 1), (4, 5)]));
    assert_eq!(group([[T, T, F], [T, T, T], [T, T, F]]).border(), lines(&[(1, 4), (4, 5), (4, 7)]));
    assert_eq!(group([[T, T, T], [T, T, T], [F, T, F]]).border(), lines(&[(3, 4), (4, 7), (4, 5)]));
    assert_eq!(group([[F, T, T], [T, T, T], [F, T, T]]).border(), lines(&[(1, 4), (4, 3), (4, 7)]));
}

#[test]
fn hs() {
    assert_eq!(
        group([[T, F, T], [T, T, T], [T, F, T]]).border(),
        lines(&[(0, 3), (3, 5), (5, 2), (3, 6), (5, 8)])
    );
    assert_eq!(
        group([[T, T, T], [F, T, F], [T, T, T]]).border(),
        lines(&[(0, 1), (1, 7), (7, 6), (7, 8), (1, 2)])
    );
}

#[test]
fn zigzags() {
    assert_eq!(
        group([[T, F, F], [T, T, F], [T, T, T]]).border(),
        lines(&[(0, 3), (3, 4), (4, 7), (7, 8)])
    );
    assert_eq!(
        group([[T, T, T], [T, T, F], [T, F, F]]).border(),
        lines(&[(2, 1), (1, 4), (4, 3), (3, 6)])
    );
    assert_eq!(
        group([[T, T, T], [F, T, T], [F, F, T]]).border(),
        lines(&[(0, 1), (1, 4), (4, 5), (5, 8)])
    );
    assert_eq!(
        group([[F, F, T], [F, T, T], [T, T, T]]).border(),
        lines(&[(2, 5), (5, 4), (4, 7), (7, 6)])
    );
}

#[test]
fn any_other_shape_is_a_star() {
    let star = lines(&[(1, 4), (3, 4), (4, 5), (4, 7)]);
    assert_eq!(group([[F, F, F], [F, F, F], [F, F, F]]).border(), star);
    assert_eq!(group([[T, T, T], [T, T, T], [T, T, T]]).border(), star);
    assert_eq!(group([[F, F, F], [F, T, F], [F, F, F]]).border(), star);
    // a wall without the tile in the middle
    assert_eq!(group([[F, F, F], [T, F, T], [T, T, T]]).border(), star);
    assert_eq!(group([[T, F, T], [F, T, F], [T, F, T]]).border(), star);
}

#[test]
fn every_border_has_one_to_five_lines_between_lattice_points() {
    let lattice: Vec<Vector2> = (0..9).map(point).collect();
    for pattern in 0..512u32 {
        let cell = |k: u32| pattern & (256 >> k) != 0;
        let occupancy = [
            [cell(0), cell(1), cell(2)],
            [cell(3), cell(4), cell(5)],
            [cell(6), cell(7), cell(8)],
        ];
        let border = group(occupancy).border();
        assert!(1 <= border.len() && border.len() <= 5);
        for line in border {
            assert!(lattice.contains(&line.start));
            assert!(lattice.contains(&line.stop));
            assert_ne!(line.start, line.stop);
        }
    }
}
