use game_of_life::lattice::{cell_key, key_cell};
use game_of_life::cells::LiveCells;

#[test]
fn key_of_a_cell_has_the_column_above_the_row() {
    assert_eq!(cell_key(0, 0), 0x8000_0000_8000_0000);
    assert_eq!(cell_key(1, -1), 0x8000_0001_7fff_ffff);
    assert_eq!(cell_key(-1, 1), 0x7fff_ffff_8000_0001);
    assert_eq!(cell_key(i32::MIN, i32::MIN), 0);
    assert_eq!(cell_key(i32::MAX, i32::MAX), u64::MAX);
    assert_eq!(cell_key(i32::MIN, i32::MAX), 0x0000_0000_ffff_ffff);
}

#[test]
fn cell_of_a_key_is_read_back() {
    assert_eq!(key_cell(0x8000_0000_8000_0000), (0, 0));
    assert_eq!(key_cell(0), (i32::MIN, i32::MIN));
    assert_eq!(key_cell(u64::MAX), (i32::MAX, i32::MAX));
    assert_eq!(key_cell(0x8000_0005_7fff_fffd), (5, -3));
    for cell in [(0, 0), (7, -9), (-7, 9), (i32::MIN, 1), (1, i32::MAX), (i32::MAX, i32::MIN)] {
        assert_eq!(key_cell(cell_key(cell.0, cell.1)), cell);
    }
}

#[test]
fn new_set_is_empty() {
    let cells = LiveCells::new();
    assert!(cells.is_empty());
    assert_eq!(cells.len(), 0);
    assert!(!cells.contains(&(0, 0)));
    assert_eq!(cells.cells(), vec![]);
}

#[test]
fn insert_makes_a_cell_live_once() {
    let mut cells = LiveCells::new();
    assert!(cells.insert((3, -4)));
    assert!(cells.contains(&(3, -4)));
    assert!(!cells.contains(&(-4, 3)));
    assert_eq!(cells.len(), 1);
    assert!(!cells.insert((3, -4)));
    assert_eq!(cells.len(), 1);
    assert_eq!(cells.cells(), vec![(3, -4)]);
    assert!(!cells.is_empty());
}

#[test]
fn remove_makes_a_cell_dead() {
    let mut cells = LiveCells::new();
    cells.insert((1, 2));
    cells.insert((2, 1));
    assert!(cells.remove(&(1, 2)));
    assert!(!cells.contains(&(1, 2)));
    assert!(cells.contains(&(2, 1)));
    assert_eq!(cells.len(), 1);
    assert!(!cells.remove(&(1, 2)));
    assert!(!cells.remove(&(9, 9)));
    assert_eq!(cells.len(), 1);
}

#[test]
fn cells_lists_each_live_cell_once() {
    let mut cells = LiveCells::new();
    let put = [(0, 0), (-1, 5), (i32::MAX, i32::MIN), (i32::MIN, i32::MAX), (0, 0), (-1, 5)];
    for c in put {
        cells.insert(c);
    }
    let mut list = cells.cells();
    list.sort();
    assert_eq!(list, vec![(i32::MIN, i32::MAX), (-1, 5), (0, 0), (i32::MAX, i32::MIN)]);
    assert_eq!(cells.len(), 4);
}

#[test]
fn clear_makes_every_cell_dead() {
    let mut cells = LiveCells::new();
    cells.insert((1, 1));
    cells.insert((2, 2));
    cells.clear();
    assert!(cells.is_empty());
    assert!(!cells.contains(&(1, 1)));
    cells.clear();
    assert!(cells.is_empty());
}
