use game_of_life::cells::LiveCells;
use game_of_life::engine::update_living_cells;

fn cells_from(list: &[(i32, i32)]) -> LiveCells {
    let mut cells = LiveCells::new();
    for c in list {
        cells.insert(*c);
    }
    cells
}

fn sorted(cells: &LiveCells) -> Vec<(i32, i32)> {
    let mut list = cells.cells();
    list.sort();
    list
}

fn advanced(list: &[(i32, i32)], ticks: usize) -> Vec<(i32, i32)> {
    let mut cells = cells_from(list);
    for _ in 0..ticks {
        update_living_cells(&mut cells);
    }
    sorted(&cells)
}

#[test]
fn empty_set_stays_empty() {
    let mut cells = LiveCells::new();
    update_living_cells(&mut cells);
    assert!(cells.is_empty());
    assert_eq!(cells.len(), 0);
    assert_eq!(cells.cells(), vec![]);
}

#[test]
fn block_is_a_fixed_point() {
    let block = [(0, 0), (1, 0), (0, 1), (1, 1)];
    assert_eq!(advanced(&block, 1), vec![(0, 0), (0, 1), (1, 0), (1, 1)]);
    assert_eq!(advanced(&block, 7), vec![(0, 0), (0, 1), (1, 0), (1, 1)]);
}

#[test]
fn blinker_has_period_two() {
    let mut cells = cells_from(&[(0, -1), (0, 0), (0, 1)]);
    update_living_cells(&mut cells);
    assert_eq!(sorted(&cells), vec![(-1, 0), (0, 0), (1, 0)]);
    update_living_cells(&mut cells);
    assert_eq!(sorted(&cells), vec![(0, -1), (0, 0), (0, 1)]);
}

#[test]
fn lone_cell_dies() {
    let mut cells = cells_from(&[(5, 5)]);
    update_living_cells(&mut cells);
    assert!(cells.is_empty());
}

#[test]
fn pair_of_cells_dies() {
    assert_eq!(advanced(&[(0, 0), (1, 0)], 1), vec![]);
}

#[test]
fn crowded_cell_dies_and_corners_are_born() {
    // The centre of a plus has four live neighbours, each arm has three,
    // and each corner between two arms has three.
    let plus = [(0, 0), (0, -1), (0, 1), (-1, 0), (1, 0)];
    assert_eq!(
        advanced(&plus, 1),
        vec![(-1, -1), (-1, 0), (-1, 1), (0, -1), (0, 1), (1, -1), (1, 0), (1, 1)]
    );
}

#[test]
fn live_cell_with_five_neighbors_dies() {
    let mut cells = cells_from(&[(0, 0), (-1, -1), (0, -1), (1, -1), (-1, 0), (1, 0)]);
    update_living_cells(&mut cells);
    assert!(!cells.contains(&(0, 0)));
    assert!(cells.contains(&(0, -2)));
}

#[test]
fn dead_cell_with_three_neighbors_is_born() {
    let mut cells = cells_from(&[(0, 0), (2, 0), (1, 2)]);
    update_living_cells(&mut cells);
    assert_eq!(sorted(&cells), vec![(1, 1)]);
}

#[test]
fn dead_cell_with_two_neighbors_stays_dead() {
    let mut cells = cells_from(&[(0, 0), (2, 0)]);
    update_living_cells(&mut cells);
    assert!(!cells.contains(&(1, 0)));
    assert!(!cells.contains(&(1, 1)));
    assert!(cells.is_empty());
}

#[test]
fn glider_moves_one_cell_diagonally_in_four_ticks() {
    let glider = [(1, 0), (2, 1), (0, 2), (1, 2), (2, 2)];
    assert_eq!(advanced(&glider, 1), vec![(0, 1), (1, 2), (1, 3), (2, 1), (2, 2)]);
    assert_eq!(advanced(&glider, 4), vec![(1, 3), (2, 1), (2, 3), (3, 2), (3, 3)]);
}

#[test]
fn pattern_far_from_the_origin_advances_alike() {
    let at = |dx: i32, dy: i32| (-2_000_000_000 + dx, 2_000_000_000 + dy);
    let blinker = [at(0, -1), at(0, 0), at(0, 1)];
    assert_eq!(advanced(&blinker, 1), vec![at(-1, 0), at(0, 0), at(1, 0)]);
}

#[test]
fn next_generation_is_cut_at_the_edge_of_the_lattice() {
    // On an unbounded lattice this blinker would turn into the row from
    // i32::MAX - 1 to i32::MAX + 1; the lattice has no such column.
    let blinker = [(i32::MAX, -1), (i32::MAX, 0), (i32::MAX, 1)];
    assert_eq!(advanced(&blinker, 1), vec![(i32::MAX - 1, 0), (i32::MAX, 0)]);
    let blinker = [(-1, i32::MIN), (0, i32::MIN), (1, i32::MIN)];
    assert_eq!(advanced(&blinker, 1), vec![(0, i32::MIN), (0, i32::MIN + 1)]);
}

#[test]
fn block_in_the_corner_of_the_lattice_is_stable() {
    let block = [
        (i32::MAX - 1, i32::MAX - 1),
        (i32::MAX, i32::MAX - 1),
        (i32::MAX - 1, i32::MAX),
        (i32::MAX, i32::MAX),
    ];
    assert_eq!(
        advanced(&block, 3),
        vec![
            (i32::MAX - 1, i32::MAX - 1),
            (i32::MAX - 1, i32::MAX),
            (i32::MAX, i32::MAX - 1),
            (i32::MAX, i32::MAX),
        ]
    );
}

#[test]
fn r_pentomino_grows_as_it_should() {
    let mut cells = cells_from(&[(1, 0), (2, 0), (0, 1), (1, 1), (1, 2)]);
    let sizes = [6, 7, 9, 8, 9, 12, 11, 18, 11, 11, 10, 13, 16, 19, 19, 23, 25, 35, 25, 32];
    for size in sizes {
        update_living_cells(&mut cells);
        assert_eq!(cells.len(), size);
    }
    update_living_cells(&mut cells);
    assert_eq!(
        sorted(&cells),
        vec![
            (-8, -1),
            (-8, 0),
            (-8, 1),
            (-7, -2),
            (-7, 1),
            (-6, -2),
            (-6, -1),
            (-6, 3),
            (-5, 1),
            (-5, 2),
            (-5, 3),
            (-4, 2),
            (-2, 4),
            (-1, -2),
            (-1, 0),
            (-1, 1),
            (-1, 2),
            (-1, 3),
            (-1, 4),
            (-1, 5),
            (0, -3),
            (0, 6),
            (1, -2),
            (1, 5),
            (2, 5),
            (3, 2),
            (3, 4),
        ]
    );
}

#[test]
fn every_cell_follows_the_count_of_its_neighbors() {
    // Against a plain count over a window that holds the whole pattern.
    let start = [(0, 0), (1, 0), (2, 0), (2, 1), (1, 2), (5, 5), (5, 6), (6, 5), (7, 7), (-3, 1)];
    let mut cells = cells_from(&start);
    for _ in 0..12 {
        let before = cells.cells();
        update_living_cells(&mut cells);
        for x in -30..30 {
            for y in -30..30 {
                let mut count = 0;
                for (cx, cy) in &before {
                    let near = (cx - x).abs() <= 1 && (cy - y).abs() <= 1;
                    if near && (*cx, *cy) != (x, y) {
                        count += 1;
                    }
                }
                let lives = count == 3 || (count == 2 && before.contains(&(x, y)));
                assert_eq!(cells.contains(&(x, y)), lives);
            }
        }
    }
}
