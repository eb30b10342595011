use game_of_life::algorithm::Algorithm;
use game_of_life::algorithm::GameOfLife;
use game_of_life::grid::Cell;
use game_of_life::grid::Grid;
use game_of_life::grid::LifeError;

fn grid(width: u32, height: u32) -> Grid {
    Grid::new(width, height).expect("valid dimensions")
}

fn rule_for(width: u32, height: u32) -> GameOfLife {
    GameOfLife::new(grid(width, height))
}

fn on(g: &Grid, x: u32, y: u32) -> bool {
    g.get(x, y).expect("coordinate in bounds").on
}

fn step(rule: &mut GameOfLife, g: &mut Grid) {
    rule.update(g).expect("matching dimensions");
}

#[test]
fn cell_new_carries_state() {
    assert!(Cell::new(true).on);
    assert!(!Cell::new(false).on);
}

#[test]
fn cell_default_is_off() {
    assert!(!Cell::default().on);
}

#[test]
fn new_grid_is_all_off_with_given_extents() {
    let g = grid(4, 7);
    assert_eq!(g.width(), 4);
    assert_eq!(g.height(), 7);
    for x in 0..4 {
        for y in 0..7 {
            assert!(!on(&g, x, y));
        }
    }
}

#[test]
fn zero_extents_are_invalid_dimensions() {
    assert_eq!(Grid::new(0, 5).err(), Some(LifeError::InvalidDimensions));
    assert_eq!(Grid::new(5, 0).err(), Some(LifeError::InvalidDimensions));
    assert_eq!(Grid::new(0, 0).err(), Some(LifeError::InvalidDimensions));
    assert!(Grid::new(1, 1).is_ok());
}

#[test]
fn access_at_extents_is_out_of_bounds() {
    let mut g = grid(6, 4);
    assert_eq!(g.get(g.width(), 0).err(), Some(LifeError::OutOfBounds));
    assert_eq!(g.set(0, g.height(), true), Err(LifeError::OutOfBounds));
    assert_eq!(g.get(0, g.height()).err(), Some(LifeError::OutOfBounds));
    assert_eq!(g.set(g.width(), 0, true), Err(LifeError::OutOfBounds));
    assert_eq!(g.get(100, 100).err(), Some(LifeError::OutOfBounds));
}

#[test]
fn set_then_get_roundtrip() {
    let mut g = grid(5, 3);
    assert_eq!(g.set(1, 2, true), Ok(()));
    assert!(on(&g, 1, 2));
    // the transposed coordinate stays off: x and y are not interchangeable
    assert!(!on(&g, 2, 1));
    assert_eq!(g.set(1, 2, false), Ok(()));
    assert!(!on(&g, 1, 2));
}

#[test]
fn failed_set_changes_nothing() {
    let mut g = grid(3, 3);
    assert!(g.set(3, 0, true).is_err());
    for x in 0..3 {
        for y in 0..3 {
            assert!(!on(&g, x, y));
        }
    }
}

#[test]
fn birth_with_three_neighbors() {
    // three on cells around an off corner of their square: the corner turns on
    let mut g = grid(5, 5);
    g.set(1, 1, true).unwrap();
    g.set(2, 1, true).unwrap();
    g.set(1, 2, true).unwrap();
    assert!(!on(&g, 2, 2));
    let mut rule = rule_for(5, 5);
    step(&mut rule, &mut g);
    assert!(on(&g, 2, 2));
}

#[test]
fn two_neighbors_keep_state() {
    // (2,2) has exactly two on neighbors whether it is on or off
    for start in [false, true] {
        let mut g = grid(5, 5);
        g.set(1, 1, true).unwrap();
        g.set(3, 3, true).unwrap();
        g.set(2, 2, start).unwrap();
        let mut rule = rule_for(5, 5);
        step(&mut rule, &mut g);
        assert_eq!(on(&g, 2, 2), start);
    }
}

#[test]
fn lonely_and_crowded_cells_die() {
    // one on neighbor: dies
    let mut g = grid(5, 5);
    g.set(2, 2, true).unwrap();
    g.set(2, 3, true).unwrap();
    let mut rule = rule_for(5, 5);
    step(&mut rule, &mut g);
    assert!(!on(&g, 2, 2));

    // four on neighbors: dies
    let mut g = grid(5, 5);
    g.set(2, 2, true).unwrap();
    g.set(1, 2, true).unwrap();
    g.set(3, 2, true).unwrap();
    g.set(2, 1, true).unwrap();
    g.set(2, 3, true).unwrap();
    let mut rule = rule_for(5, 5);
    step(&mut rule, &mut g);
    assert!(!on(&g, 2, 2));
}

#[test]
fn corner_cell_counts_no_neighbor_outside() {
    // on a 3x3 grid with only the corner on, nothing reaches three
    // neighbors and the corner itself has none: everything is off after
    // one update
    let mut g = grid(3, 3);
    g.set(0, 0, true).unwrap();
    let mut rule = rule_for(3, 3);
    step(&mut rule, &mut g);
    for x in 0..3 {
        for y in 0..3 {
            assert!(!on(&g, x, y));
        }
    }
}

#[test]
fn block_is_a_still_life() {
    let mut g = grid(4, 4);
    g.set(1, 1, true).unwrap();
    g.set(2, 1, true).unwrap();
    g.set(1, 2, true).unwrap();
    g.set(2, 2, true).unwrap();
    let mut rule = rule_for(4, 4);
    for _ in 0..5 {
        step(&mut rule, &mut g);
        for x in 0..4 {
            for y in 0..4 {
                let expected = (1..=2).contains(&x) && (1..=2).contains(&y);
                assert_eq!(on(&g, x, y), expected);
            }
        }
    }
}

#[test]
fn blinker_oscillates_with_period_two() {
    let mut g = grid(5, 5);
    g.set(1, 2, true).unwrap();
    g.set(2, 2, true).unwrap();
    g.set(3, 2, true).unwrap();
    let mut rule = rule_for(5, 5);

    step(&mut rule, &mut g);
    for x in 0..5 {
        for y in 0..5 {
            let vertical = x == 2 && (1..=3).contains(&y);
            assert_eq!(on(&g, x, y), vertical);
        }
    }

    step(&mut rule, &mut g);
    for x in 0..5 {
        for y in 0..5 {
            let horizontal = y == 2 && (1..=3).contains(&x);
            assert_eq!(on(&g, x, y), horizontal);
        }
    }
}

#[test]
fn update_on_wrong_extents_is_dimension_mismatch() {
    let mut g = grid(4, 4);
    g.set(1, 1, true).unwrap();
    let mut rule = rule_for(3, 3);
    assert_eq!(rule.update(&mut g), Err(LifeError::DimensionMismatch));
    // the grid is untouched
    assert!(on(&g, 1, 1));
    assert!(!on(&g, 0, 0));

    // a rule built for the right extents still works afterwards
    let mut fitting = rule_for(4, 4);
    assert_eq!(fitting.update(&mut g), Ok(()));
}
