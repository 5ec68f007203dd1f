use digital_rain::cell::{Cell, BRIGHTEST, INVISIBLE};
use digital_rain::rain::{Drop, Screen};
use digital_rain::rates::Rates;

fn still() -> Rates {
    Rates::new(0, 0, 0).unwrap()
}

fn snapshot(screen: &Screen) -> Vec<Vec<Cell>> {
    (0..screen.height())
        .map(|row| (0..screen.width()).map(|column| screen.cell(row, column).unwrap()).collect())
        .collect()
}

fn lit_at(brightness: i8) -> Cell {
    Cell { brightness, glyph: 0x41, flip_timer: 0, dim_timer: 0 }
}

#[test]
fn new_screen_is_unlit_and_without_drops() {
    let screen = Screen::new(4, 7);
    assert_eq!(screen.height(), 4);
    assert_eq!(screen.width(), 7);
    assert_eq!(screen.rates(), Rates::standard());
    assert!(screen.drops().is_empty());
    for row in snapshot(&screen) {
        assert_eq!(row.len(), 7);
        for cell in row {
            assert_eq!(cell.brightness, INVISIBLE);
            assert!(cell.is_valid());
        }
    }
}

#[test]
fn cell_outside_the_grid_is_none() {
    let screen = Screen::new(4, 7);
    assert!(screen.cell(3, 6).is_some());
    assert_eq!(screen.cell(4, 0), None);
    assert_eq!(screen.cell(0, 7), None);
}

#[test]
fn empty_screens_update_without_harm() {
    for (height, width) in [(0, 0), (0, 5), (5, 0)] {
        let mut screen = Screen::new(height, width);
        screen.add_drop(0, 0);
        screen.update(width, height);
        assert!(screen.drops().is_empty());
        assert_eq!(screen.cell(0, 0), None);
        screen.update(0, 0);
        screen.update(3, 2);
        assert_eq!(screen.width(), 3);
        assert_eq!(screen.height(), 2);
    }
}

#[test]
fn quiet_grid_stays_unlit_then_one_drop_lights_its_cell_and_it_fades() {
    let mut screen = Screen::with_rates(5, 5, still());
    let start = snapshot(&screen);
    for _ in 0..40 {
        screen.update(5, 5);
        assert_eq!(snapshot(&screen), start);
        assert!(screen.drops().is_empty());
    }
    screen.add_drop(2, 0);
    assert_eq!(screen.drops(), vec![Drop { column: 2, row: 0 }]);
    screen.update(5, 5);
    let after = snapshot(&screen);
    for row in 0..5 {
        for column in 0..5 {
            if (row, column) == (0, 2) {
                assert_eq!(after[row][column].brightness, BRIGHTEST);
                assert_eq!(after[row][column].dim_timer, 0);
                assert_eq!(after[row][column].glyph, start[row][column].glyph);
            } else {
                assert_eq!(after[row][column], start[row][column]);
            }
        }
    }
    assert_eq!(screen.drops(), vec![Drop { column: 2, row: 1 }]);
    for tick in 1..=(BRIGHTEST + 1) {
        screen.update(5, 5);
        let expected = if tick <= BRIGHTEST { BRIGHTEST - tick } else { INVISIBLE };
        assert_eq!(screen.cell(0, 2).unwrap().brightness, expected);
    }
    assert_eq!(screen.cell(0, 2).unwrap().brightness, INVISIBLE);
    assert!(screen.drops().is_empty());
}

#[test]
fn drop_falls_one_row_a_tick_and_leaves_at_the_bottom() {
    let mut screen = Screen::with_rates(3, 4, still());
    screen.add_drop(1, 0);
    for row in 0..3 {
        screen.update(4, 3);
        assert_eq!(screen.cell(row, 1).unwrap().brightness, BRIGHTEST);
        assert_eq!(screen.drops(), vec![Drop { column: 1, row: row + 1 }]);
    }
    screen.update(4, 3);
    assert!(screen.drops().is_empty());
}

#[test]
fn brightness_stays_in_range_through_ticks_and_resizes() {
    let mut screen = Screen::new(12, 30);
    let sizes = [(30, 12), (30, 12), (45, 20), (10, 5), (10, 5), (0, 3), (25, 0), (40, 18)];
    for round in 0..400 {
        let (width, height) = sizes[round % sizes.len()];
        screen.update(width, height);
        assert_eq!(screen.width(), width);
        assert_eq!(screen.height(), height);
        for row in snapshot(&screen) {
            assert_eq!(row.len(), width);
            for cell in row {
                assert!(INVISIBLE <= cell.brightness && cell.brightness <= BRIGHTEST);
                assert!(cell.is_valid());
            }
        }
        for drop in screen.drops() {
            assert!(drop.column < width);
            assert!(drop.row <= height);
        }
    }
}

#[test]
fn unlit_cell_lights_only_under_a_drop_head() {
    let mut screen = Screen::with_rates(6, 6, Rates::new(0, 25, 500).unwrap());
    screen.add_drop(3, 2);
    screen.add_drop(0, 5);
    screen.add_drop(9, 1);
    let heads = [(2, 3), (5, 0)];
    screen.update(6, 6);
    for row in 0..6 {
        for column in 0..6 {
            let expected = if heads.contains(&(row, column)) { BRIGHTEST } else { INVISIBLE };
            assert_eq!(screen.cell(row, column).unwrap().brightness, expected);
        }
    }
    assert_eq!(screen.drops(), vec![Drop { column: 3, row: 3 }, Drop { column: 0, row: 6 }]);
}

#[test]
fn drop_head_wins_over_dimming() {
    let mut screen = Screen::with_rates(2, 2, still());
    assert!(screen.set_cell(1, 1, Cell { brightness: 4, glyph: 0x41, flip_timer: 0, dim_timer: 9 }));
    screen.add_drop(1, 1);
    screen.update(2, 2);
    assert_eq!(
        screen.cell(1, 1),
        Some(Cell { brightness: BRIGHTEST, glyph: 0x41, flip_timer: 0, dim_timer: 0 })
    );
}

#[test]
fn growing_keeps_cells_and_adds_unlit_ones() {
    let mut screen = Screen::new(3, 4);
    assert!(screen.set_cell(0, 0, lit_at(9)));
    assert!(screen.set_cell(2, 3, lit_at(3)));
    screen.add_drop(1, 1);
    let before = snapshot(&screen);
    screen.resize(6, 5);
    assert_eq!(screen.width(), 6);
    assert_eq!(screen.height(), 5);
    let after = snapshot(&screen);
    for row in 0..5 {
        for column in 0..6 {
            if row < 3 && column < 4 {
                assert_eq!(after[row][column], before[row][column]);
            } else {
                assert_eq!(after[row][column].brightness, INVISIBLE);
                assert!(after[row][column].is_valid());
            }
        }
    }
    assert_eq!(screen.drops(), vec![Drop { column: 1, row: 1 }]);
}

#[test]
fn shrinking_keeps_what_is_left_and_the_next_tick_drops_outsiders() {
    let mut screen = Screen::with_rates(6, 6, still());
    assert!(screen.set_cell(1, 1, lit_at(9)));
    assert!(screen.set_cell(5, 5, lit_at(9)));
    screen.add_drop(0, 1);
    screen.add_drop(4, 1);
    screen.add_drop(1, 4);
    screen.add_drop(2, 2);
    let before = snapshot(&screen);
    screen.resize(3, 3);
    let after = snapshot(&screen);
    assert_eq!(after.len(), 3);
    for row in 0..3 {
        assert_eq!(after[row].len(), 3);
        for column in 0..3 {
            assert_eq!(after[row][column], before[row][column]);
        }
    }
    assert_eq!(screen.drops().len(), 4);
    screen.update(3, 3);
    assert_eq!(screen.drops(), vec![Drop { column: 0, row: 2 }, Drop { column: 2, row: 3 }]);
}

#[test]
fn update_resizes_and_drops_outsiders_in_one_call() {
    let mut screen = Screen::with_rates(6, 6, still());
    screen.add_drop(5, 0);
    screen.add_drop(1, 0);
    screen.update(3, 3);
    assert_eq!(screen.width(), 3);
    assert_eq!(screen.height(), 3);
    assert_eq!(screen.drops(), vec![Drop { column: 1, row: 1 }]);
    assert_eq!(screen.cell(0, 1).unwrap().brightness, BRIGHTEST);
}

#[test]
fn resize_back_brings_new_cells_not_the_old_ones() {
    let mut screen = Screen::with_rates(4, 4, still());
    assert!(screen.set_cell(3, 3, lit_at(9)));
    assert!(screen.set_cell(0, 0, lit_at(9)));
    screen.resize(2, 2);
    screen.resize(4, 4);
    assert_eq!(screen.cell(3, 3).unwrap().brightness, INVISIBLE);
    assert_eq!(screen.cell(0, 0), Some(lit_at(9)));
}

#[test]
fn same_size_update_leaves_resting_cells_identical() {
    let mut screen = Screen::with_rates(8, 8, still());
    let sentinel = Cell { brightness: INVISIBLE, glyph: 0xFF70, flip_timer: 0, dim_timer: 0 };
    assert!(screen.set_cell(4, 4, sentinel));
    screen.add_drop(3, 0);
    let mut before = snapshot(&screen);
    for tick in 0..8 {
        screen.update(8, 8);
        let after = snapshot(&screen);
        for row in 0..8 {
            for column in 0..8 {
                if column != 3 {
                    assert_eq!(after[row][column], before[row][column]);
                }
            }
        }
        assert_eq!(after[tick][3].brightness, BRIGHTEST);
        assert_eq!(screen.cell(4, 4), Some(sentinel));
        before = after;
    }
}

#[test]
fn mutate_screen_ticks_every_cell() {
    let mut screen = Screen::with_rates(2, 3, still());
    assert!(screen.set_cell(0, 0, Cell { brightness: 5, glyph: 0x41, flip_timer: 2, dim_timer: 0 }));
    assert!(screen.set_cell(1, 2, Cell { brightness: 5, glyph: 0x41, flip_timer: 0, dim_timer: 3 }));
    assert!(screen.set_cell(1, 0, Cell { brightness: 0, glyph: 0x41, flip_timer: 1, dim_timer: 3 }));
    let rest = screen.cell(0, 1).unwrap();
    screen.mutate_screen();
    assert_eq!(
        screen.cell(0, 0),
        Some(Cell { brightness: 4, glyph: 0x41, flip_timer: 1, dim_timer: 0 })
    );
    assert_eq!(
        screen.cell(1, 2),
        Some(Cell { brightness: 5, glyph: 0x41, flip_timer: 0, dim_timer: 2 })
    );
    assert_eq!(
        screen.cell(1, 0),
        Some(Cell { brightness: INVISIBLE, glyph: 0x41, flip_timer: 0, dim_timer: 3 })
    );
    assert_eq!(screen.cell(0, 1), Some(rest));
}

#[test]
fn advance_drops_lights_filters_and_moves() {
    let mut screen = Screen::with_rates(3, 3, still());
    assert!(screen.set_cell(2, 2, Cell { brightness: 4, glyph: 0x42, flip_timer: 6, dim_timer: 9 }));
    screen.add_drop(2, 2);
    screen.add_drop(3, 0);
    screen.add_drop(0, 3);
    screen.add_drop(0, 0);
    screen.add_drop(0, 0);
    let before = snapshot(&screen);
    screen.advance_drops();
    assert_eq!(
        screen.drops(),
        vec![
            Drop { column: 2, row: 3 },
            Drop { column: 0, row: 1 },
            Drop { column: 0, row: 1 }
        ]
    );
    assert_eq!(
        screen.cell(2, 2),
        Some(Cell { brightness: BRIGHTEST, glyph: 0x42, flip_timer: 6, dim_timer: 0 })
    );
    assert_eq!(screen.cell(0, 0).unwrap().brightness, BRIGHTEST);
    let after = snapshot(&screen);
    for row in 0..3 {
        for column in 0..3 {
            if (row, column) != (2, 2) && (row, column) != (0, 0) {
                assert_eq!(after[row][column], before[row][column]);
            }
        }
    }
}

#[test]
fn open_columns_are_those_with_an_unlit_top() {
    let mut screen = Screen::with_rates(2, 5, still());
    assert_eq!(screen.open_columns(), vec![0, 1, 2, 3, 4]);
    assert!(screen.set_cell(0, 1, lit_at(0)));
    assert!(screen.set_cell(0, 4, lit_at(15)));
    assert!(screen.set_cell(1, 2, lit_at(15)));
    assert_eq!(screen.open_columns(), vec![0, 2, 3]);
    assert!(Screen::new(0, 5).open_columns().is_empty());
}

#[test]
fn spawn_at_starts_a_drop_only_on_an_unlit_top() {
    let mut screen = Screen::with_rates(2, 3, still());
    let under = screen.cell(0, 1).unwrap();
    assert!(screen.spawn_at(1));
    assert_eq!(screen.cell(0, 1), Some(Cell { brightness: BRIGHTEST, ..under }));
    assert_eq!(screen.drops(), vec![Drop { column: 1, row: 0 }]);
    let before = snapshot(&screen);
    assert!(!screen.spawn_at(1));
    assert!(!screen.spawn_at(3));
    assert_eq!(snapshot(&screen), before);
    assert_eq!(screen.drops(), vec![Drop { column: 1, row: 0 }]);
    assert!(!Screen::new(0, 3).spawn_at(0));
}

#[test]
fn whole_budget_spawns_for_certain() {
    let mut screen = Screen::with_rates(3, 5, Rates::new(16_000, 0, 0).unwrap());
    screen.spawn_drops();
    assert_eq!(screen.drops().len(), 1);
    let column = screen.drops()[0].column;
    assert_eq!(screen.drops()[0].row, 0);
    assert_eq!(screen.cell(0, column).unwrap().brightness, BRIGHTEST);
    assert_eq!(screen.open_columns().len(), 4);
    screen.spawn_drops();
    assert_eq!(screen.drops().len(), 2);
    assert_ne!(screen.drops()[1].column, column);
}

#[test]
fn spawning_stops_when_no_column_is_open() {
    let mut screen = Screen::with_rates(3, 5, Rates::new(4_000_000_000, 0, 0).unwrap());
    screen.spawn_drops();
    let mut columns: Vec<usize> = screen.drops().iter().map(|drop| drop.column).collect();
    columns.sort();
    assert_eq!(columns, vec![0, 1, 2, 3, 4]);
    screen.spawn_drops();
    assert_eq!(screen.drops().len(), 5);
    let mut none = Screen::with_rates(0, 5, Rates::new(4_000_000_000, 0, 0).unwrap());
    none.spawn_drops();
    assert!(none.drops().is_empty());
}

#[test]
fn no_budget_spawns_nothing() {
    let mut screen = Screen::with_rates(3, 5, still());
    screen.spawn_drops();
    assert!(screen.drops().is_empty());
    let mut narrow = Screen::with_rates(3, 0, Rates::new(80_000, 0, 0).unwrap());
    narrow.spawn_drops();
    assert!(narrow.drops().is_empty());
}

#[test]
fn fractional_budget_spawns_at_most_once_a_tick() {
    let mut screen = Screen::with_rates(4, 40, Rates::new(300, 0, 0).unwrap());
    let mut started = 0;
    for _ in 0..400 {
        let before = screen.drops().len();
        screen.spawn_drops();
        let now = screen.drops().len();
        assert!(now == before || now == before + 1);
        started += now - before;
        if now > before {
            let drop = screen.drops()[now - 1];
            assert_eq!(drop.row, 0);
            assert_eq!(screen.cell(0, drop.column).unwrap().brightness, BRIGHTEST);
        }
    }
    assert!(started > 0);
    assert!(started <= 40);
}

#[test]
fn top_row_never_holds_two_drops_in_a_column() {
    let mut screen = Screen::with_rates(30, 12, Rates::new(40_000, 25, 500).unwrap());
    for _ in 0..500 {
        screen.update(12, 30);
        let mut top: Vec<usize> =
            screen.drops().iter().filter(|drop| drop.row == 0).map(|drop| drop.column).collect();
        let count = top.len();
        top.sort();
        top.dedup();
        assert_eq!(top.len(), count);
        assert!(count <= 12);
        for column in top {
            assert_eq!(screen.cell(0, column).unwrap().brightness, BRIGHTEST);
        }
    }
}

#[test]
fn low_grid_never_holds_more_drops_than_columns() {
    let height = (BRIGHTEST + 1) as usize;
    let mut screen = Screen::with_rates(height, 9, Rates::new(4_000_000_000, 25, 0).unwrap());
    for _ in 0..600 {
        screen.update(9, height);
        let mut columns: Vec<usize> = screen.drops().iter().map(|drop| drop.column).collect();
        let count = columns.len();
        columns.sort();
        columns.dedup();
        assert_eq!(columns.len(), count);
        assert!(count <= 9);
    }
    assert_eq!(screen.drops().len(), 9);
}

#[test]
fn tall_grid_can_hold_two_drops_in_one_column() {
    let mut screen = Screen::with_rates(40, 1, Rates::new(80_000, 0, 0).unwrap());
    for _ in 0..17 {
        screen.update(1, 40);
        assert_eq!(screen.drops().len(), 1);
    }
    screen.update(1, 40);
    assert_eq!(screen.drops(), vec![Drop { column: 0, row: 17 }, Drop { column: 0, row: 0 }]);
}

#[test]
fn set_cell_refuses_bad_places_and_bad_cells() {
    let mut screen = Screen::with_rates(2, 2, still());
    let before = snapshot(&screen);
    assert!(!screen.set_cell(2, 0, lit_at(3)));
    assert!(!screen.set_cell(0, 2, lit_at(3)));
    assert!(!screen.set_cell(0, 0, lit_at(16)));
    assert!(!screen.set_cell(0, 0, Cell { brightness: 3, glyph: 0x20, flip_timer: 0, dim_timer: 0 }));
    assert_eq!(snapshot(&screen), before);
    assert!(screen.set_cell(1, 0, lit_at(3)));
    assert_eq!(screen.cell(1, 0), Some(lit_at(3)));
}
