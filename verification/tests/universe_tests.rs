use game_of_life::GridError;
use game_of_life::Pattern;
use game_of_life::Universe;

fn alive_cells(u: &Universe) -> Vec<(u32, u32)> {
    let mut out: Vec<(u32, u32)> = Vec::new();
    for row in 0..u.height() {
        for col in 0..u.width() {
            let idx: usize = (row as usize) * (u.width() as usize) + (col as usize);
            if u.get_cells().contains(idx) {
                out.push((row, col));
            }
        }
    }
    out
}

#[test]
fn new_universe_is_64_by_64_with_seed_pattern() {
    let u = Universe::new();
    assert_eq!(u.width(), 64);
    assert_eq!(u.height(), 64);
    assert_eq!(u.get_cells().len(), 4096);
    for i in 0..4096_usize {
        assert_eq!(u.get_cells().contains(i), i % 2 == 0 || i % 7 == 0);
    }
}

#[test]
fn cell_count_is_width_times_height_after_every_operation() {
    let mut u = Universe::new();
    assert_eq!(u.get_cells().len(), 64 * 64);
    u.set_width(10);
    assert_eq!(u.get_cells().len(), 10 * 64);
    u.set_height(3);
    assert_eq!(u.get_cells().len(), 10 * 3);
    assert_eq!(u.set_cells(&[(0, 0), (2, 9)]), Ok(()));
    assert_eq!(u.get_cells().len(), 30);
    assert_eq!(u.toggle_cell(1, 1), Ok(()));
    assert_eq!(u.get_cells().len(), 30);
    assert_eq!(u.add_pattern(0, 0, Pattern::Glider), Ok(()));
    assert_eq!(u.get_cells().len(), 30);
    u.tick();
    assert_eq!(u.get_cells().len(), 30);
    u.set_preset(0);
    assert_eq!(u.get_cells().len(), 30);
}

#[test]
fn neighbor_counts_wrap_around_the_edges() {
    let mut u = Universe::new();
    u.set_width(5);
    u.set_height(4);
    assert_eq!(u.set_cells(&[(0, 0)]), Ok(()));
    let touched = [(3, 4), (3, 0), (3, 1), (0, 4), (0, 1), (1, 4), (1, 0), (1, 1)];
    for row in 0..4_u32 {
        for col in 0..5_u32 {
            let expected: u8 = if touched.contains(&(row, col)) { 1 } else { 0 };
            assert_eq!(u.live_neighbor_count(row, col), expected);
        }
    }
}

#[test]
fn rule_table_is_exhaustively_correct() {
    for n in 0..=8_u8 {
        assert_eq!(Universe::next_cell_state(true, n), n == 2 || n == 3);
        assert_eq!(Universe::next_cell_state(false, n), n == 3);
    }
}

#[test]
fn block_of_four_is_a_still_life() {
    let mut u = Universe::new();
    u.set_width(6);
    u.set_height(6);
    let block = [(2, 2), (2, 3), (3, 2), (3, 3)];
    assert_eq!(u.set_cells(&block), Ok(()));
    u.tick();
    assert_eq!(alive_cells(&u), block.to_vec());
    u.tick();
    assert_eq!(alive_cells(&u), block.to_vec());
}

#[test]
fn blinker_oscillates_with_period_two() {
    let mut u = Universe::new();
    u.set_width(7);
    u.set_height(7);
    let horizontal = [(3, 2), (3, 3), (3, 4)];
    assert_eq!(u.set_cells(&horizontal), Ok(()));
    u.tick();
    assert_eq!(alive_cells(&u), vec![(2, 3), (3, 3), (4, 3)]);
    u.tick();
    assert_eq!(alive_cells(&u), horizontal.to_vec());
}

#[test]
fn resizing_yields_an_all_dead_grid() {
    let mut u = Universe::new();
    u.set_width(8);
    assert_eq!(u.width(), 8);
    assert_eq!(u.height(), 64);
    assert_eq!(u.get_cells().len(), 8 * 64);
    assert!(alive_cells(&u).is_empty());
    assert_eq!(u.set_cells(&[(0, 0), (5, 5)]), Ok(()));
    assert!(!alive_cells(&u).is_empty());
    u.set_height(5);
    assert_eq!(u.width(), 8);
    assert_eq!(u.height(), 5);
    assert_eq!(u.get_cells().len(), 40);
    assert!(alive_cells(&u).is_empty());
}

#[test]
fn glider_at_origin_wraps_onto_five_cells() {
    let mut u = Universe::new();
    u.set_width(8);
    u.set_height(8);
    assert_eq!(u.add_pattern(0, 0, Pattern::Glider), Ok(()));
    let mut expected = vec![(0, 1), (0, 7), (1, 0), (1, 1), (7, 1)];
    expected.sort();
    assert_eq!(alive_cells(&u), expected);
}

#[test]
fn pentomino_at_origin_wraps_onto_five_cells() {
    let mut u = Universe::new();
    u.set_width(8);
    u.set_height(8);
    assert_eq!(u.add_pattern(0, 0, Pattern::Pentomino), Ok(()));
    let mut expected = vec![(0, 7), (0, 0), (1, 0), (7, 0), (7, 1)];
    expected.sort();
    assert_eq!(alive_cells(&u), expected);
}

#[test]
fn toggling_a_cell_twice_is_the_identity() {
    let mut u = Universe::new();
    let before: Vec<(u32, u32)> = alive_cells(&u);
    assert_eq!(u.toggle_cell(2, 1), Ok(()));
    assert_ne!(alive_cells(&u), before);
    assert_eq!(u.toggle_cell(2, 1), Ok(()));
    assert_eq!(alive_cells(&u), before);
}

#[test]
fn tick_on_a_zero_sized_grid_does_nothing() {
    let mut u = Universe::new();
    u.set_width(0);
    u.set_height(0);
    assert_eq!(u.get_cells().len(), 0);
    u.tick();
    assert_eq!(u.get_cells().len(), 0);
    assert_eq!(u.width(), 0);
    assert_eq!(u.height(), 0);
}

#[test]
fn preset_zero_fills_the_documented_pattern() {
    let mut u = Universe::new();
    u.set_preset(0);
    assert_eq!(u.get_cells().len(), 4096);
    for i in 0..4096_usize {
        assert_eq!(u.get_cells().contains(i), i % 3 == 0 || i % 8 == 0 || i % 7 == 0);
    }
}

#[test]
fn unknown_preset_still_clears_the_grid() {
    let mut u = Universe::new();
    assert!(!alive_cells(&u).is_empty());
    u.set_preset(9);
    assert_eq!(u.get_cells().len(), 4096);
    assert!(alive_cells(&u).is_empty());
}

#[test]
fn out_of_range_coordinates_are_rejected_without_mutation() {
    let mut u = Universe::new();
    u.set_width(4);
    u.set_height(4);
    assert_eq!(u.set_cells(&[(1, 1)]), Ok(()));
    assert_eq!(u.set_cells(&[(2, 2), (0, 4)]), Err(GridError::OutOfBounds));
    assert_eq!(alive_cells(&u), vec![(1, 1)]);
    assert_eq!(u.set_cells(&[(4, 0)]), Err(GridError::OutOfBounds));
    assert_eq!(u.toggle_cell(0, 4), Err(GridError::OutOfBounds));
    assert_eq!(u.toggle_cell(4, 0), Err(GridError::OutOfBounds));
    assert_eq!(u.add_pattern(4, 0, Pattern::Glider), Err(GridError::OutOfBounds));
    assert_eq!(u.add_pattern(0, 4, Pattern::Pentomino), Err(GridError::OutOfBounds));
    assert_eq!(alive_cells(&u), vec![(1, 1)]);
}

#[test]
fn every_anchor_is_out_of_range_on_an_empty_grid() {
    let mut u = Universe::new();
    u.set_width(0);
    u.set_height(0);
    assert_eq!(u.toggle_cell(0, 0), Err(GridError::OutOfBounds));
    assert_eq!(u.add_pattern(0, 0, Pattern::Glider), Err(GridError::OutOfBounds));
    assert_eq!(u.set_cells(&[(0, 0)]), Err(GridError::OutOfBounds));
}

#[test]
fn setting_the_same_cell_twice_is_allowed() {
    let mut u = Universe::new();
    u.set_width(3);
    u.set_height(3);
    assert_eq!(u.set_cells(&[(1, 1), (1, 1)]), Ok(()));
    assert_eq!(alive_cells(&u), vec![(1, 1)]);
}

#[test]
fn render_draws_one_glyph_per_cell_and_one_line_per_row() {
    let mut u = Universe::new();
    u.set_width(3);
    u.set_height(2);
    assert_eq!(u.set_cells(&[(0, 1)]), Ok(()));
    assert_eq!(u.render(), "◻◼◻\n◻◻◻\n");
    u.set_width(0);
    assert_eq!(u.render(), "\n\n");
    u.set_height(0);
    assert_eq!(u.render(), "");
}

#[test]
fn raw_words_pack_cells_least_significant_bit_first() {
    let mut u = Universe::new();
    u.set_width(40);
    u.set_height(1);
    assert_eq!(u.set_cells(&[(0, 0), (0, 3), (0, 32)]), Ok(()));
    let words: &[u32] = u.cells();
    assert_eq!(words.len(), 2);
    assert_eq!(words[0], 0b1001);
    assert_eq!(words[1], 0b1);
}

#[test]
fn tick_advances_a_glider_one_step() {
    let mut u = Universe::new();
    u.set_width(8);
    u.set_height(8);
    assert_eq!(u.set_cells(&[(1, 2), (2, 3), (3, 1), (3, 2), (3, 3)]), Ok(()));
    u.tick();
    let mut expected = vec![(2, 1), (2, 3), (3, 2), (3, 3), (4, 2)];
    expected.sort();
    assert_eq!(alive_cells(&u), expected);
}
