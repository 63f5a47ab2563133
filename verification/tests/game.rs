use tictactoe::ttt::{Cell, Game, Turn};

#[test]
fn test_new_board_empty_human_first() {
    let g = Game::new();
    for row in 0..3 {
        for col in 0..3 {
            assert_eq!(g.cell(row, col), Cell::Empty);
        }
    }
    assert_eq!(g.turn(), Turn::PlayerHuman);
}

#[test]
fn test_coords_bijection() {
    let mut seen = [[false; 3]; 3];
    for m in 1..=9u32 {
        let (row, col) = Game::convert_to_board_coords(m);
        assert!(row < 3 && col < 3);
        assert!(!seen[row][col], "two identifiers share a coordinate pair");
        seen[row][col] = true;
        assert_eq!(row, ((m - 1) / 3) as usize);
        assert_eq!(col, ((m - 1) % 3) as usize);
    }
    for row in 0..3 {
        for col in 0..3 {
            assert!(seen[row][col], "a coordinate pair was never reached");
        }
    }
}

#[test]
fn test_move_legality() {
    let mut g = Game::new();
    assert!(!g.is_move_possible(0));
    assert!(!g.is_move_possible(10));
    assert!(!g.is_move_possible(u32::MAX));
    for m in 1..=9u32 {
        assert!(g.is_move_possible(m));
    }
    g.apply_move(5, Cell::MarkA);
    assert!(!g.is_move_possible(5));
    for m in 1..=9u32 {
        if m != 5 {
            assert!(g.is_move_possible(m), "an untouched cell became illegal");
        }
    }
}

#[test]
fn test_apply_move_changes_exactly_one_cell() {
    let mut g = Game::new();
    g.apply_move(6, Cell::MarkB);
    let mut before = Vec::new();
    for row in 0..3 {
        for col in 0..3 {
            before.push(g.cell(row, col));
        }
    }
    let turn_before = g.turn();
    g.apply_move(4, Cell::MarkA);
    let (target_row, target_col) = Game::convert_to_board_coords(4);
    for row in 0..3 {
        for col in 0..3 {
            let now = g.cell(row, col);
            if row == target_row && col == target_col {
                assert_eq!(now, Cell::MarkA);
            } else {
                assert_eq!(now, before[row * 3 + col], "an untargeted cell changed");
            }
        }
    }
    assert_eq!(g.turn(), turn_before, "apply_move advanced the turn");
}

#[test]
fn test_winner_row() {
    let mut g = Game::new();
    g.apply_move(1, Cell::MarkA);
    g.apply_move(2, Cell::MarkA);
    assert!(!g.check_winner(), "two marks in a row already won");
    g.apply_move(3, Cell::MarkA);
    assert!(g.check_winner(), "a full top row did not win");
}

#[test]
fn test_winner_column() {
    let mut g = Game::new();
    g.apply_move(2, Cell::MarkB);
    g.apply_move(5, Cell::MarkB);
    g.apply_move(8, Cell::MarkB);
    assert!(g.check_winner());
}

#[test]
fn test_winner_diagonals() {
    let mut g = Game::new();
    g.apply_move(1, Cell::MarkA);
    g.apply_move(5, Cell::MarkA);
    g.apply_move(9, Cell::MarkA);
    assert!(g.check_winner(), "main diagonal of MarkA did not win");

    let mut h = Game::new();
    h.apply_move(3, Cell::MarkB);
    h.apply_move(5, Cell::MarkB);
    h.apply_move(7, Cell::MarkB);
    assert!(h.check_winner(), "anti-diagonal of MarkB did not win");
}

#[test]
fn test_empty_line_is_no_winner() {
    let g = Game::new();
    assert!(!g.check_winner(), "three empty cells counted as a winning line");
}

#[test]
fn test_next_turn_applied_twice() {
    let mut g = Game::new();
    let original = g.turn();
    assert_eq!(g.get_next_turn(), Turn::PlayerBot);
    g.advance_turn();
    assert_eq!(g.turn(), Turn::PlayerBot);
    g.advance_turn();
    assert_eq!(g.turn(), original, "two turn changes did not return to the start");
}

#[test]
fn test_restore_matches_fresh_game() {
    let mut g = Game::new();
    g.play_turn(5);
    g.advance_turn();
    g.play_turn(1);
    g.advance_turn();
    g.play_turn(9);
    g.restore();
    let fresh = Game::new();
    for row in 0..3 {
        for col in 0..3 {
            assert_eq!(g.cell(row, col), fresh.cell(row, col));
        }
    }
    assert_eq!(g.turn(), fresh.turn());
    assert_eq!(g.turn(), Turn::PlayerHuman);
}

#[test]
fn test_top_row_scenario() {
    let mut g = Game::new();
    g.apply_move(1, Cell::MarkA);
    g.apply_move(2, Cell::MarkA);
    g.apply_move(3, Cell::MarkA);
    assert!(g.check_winner());
}

#[test]
fn test_draw_scenario() {
    // A B A / A B B / B A A: every cell filled, no three in a row.
    let mut g = Game::new();
    g.apply_move(1, Cell::MarkA);
    g.apply_move(2, Cell::MarkB);
    g.apply_move(3, Cell::MarkA);
    g.apply_move(4, Cell::MarkA);
    g.apply_move(5, Cell::MarkB);
    g.apply_move(6, Cell::MarkB);
    g.apply_move(7, Cell::MarkB);
    g.apply_move(8, Cell::MarkA);
    g.apply_move(9, Cell::MarkA);
    assert!(!g.check_winner(), "the draw pattern has no winning line");
    assert!(g.is_board_full());
    assert!(g.is_draw(), "a full board without a winner is a draw");
}

#[test]
fn test_board_not_full_is_no_draw() {
    let mut g = Game::new();
    g.apply_move(1, Cell::MarkA);
    assert!(!g.is_board_full());
    assert!(!g.is_draw());
}

#[test]
fn test_play_turn_places_the_active_sides_mark() {
    let mut g = Game::new();
    g.play_turn(5);
    assert_eq!(g.cell(1, 1), Cell::MarkA, "the human's mark is MarkA");
    g.advance_turn();
    g.play_turn(1);
    assert_eq!(g.cell(0, 0), Cell::MarkB, "the bot's mark is MarkB");
}

#[test]
fn test_bot_move_takes_the_last_free_cell() {
    // The draw pattern minus its last cell: only cell 9 is free.
    let mut g = Game::new();
    g.apply_move(1, Cell::MarkA);
    g.apply_move(2, Cell::MarkB);
    g.apply_move(3, Cell::MarkA);
    g.apply_move(4, Cell::MarkA);
    g.apply_move(5, Cell::MarkB);
    g.apply_move(6, Cell::MarkB);
    g.apply_move(7, Cell::MarkB);
    g.apply_move(8, Cell::MarkA);
    assert_eq!(g.get_bot_move(), 9);
}

#[test]
fn test_bot_move_is_always_legal() {
    let mut g = Game::new();
    g.apply_move(5, Cell::MarkA);
    g.apply_move(1, Cell::MarkB);
    for _ in 0..50 {
        let m = g.get_bot_move();
        assert!(g.is_move_possible(m), "the bot picked an illegal cell");
    }
}

#[test]
fn test_cell_labels() {
    let mut g = Game::new();
    let expected = ['1', '2', '3', '4', '5', '6', '7', '8', '9'];
    for row in 0..3 {
        for col in 0..3 {
            assert_eq!(g.cell_label(row, col), expected[row * 3 + col]);
        }
    }
    g.apply_move(1, Cell::MarkA);
    g.apply_move(5, Cell::MarkB);
    assert_eq!(g.cell_label(0, 0), 'X');
    assert_eq!(g.cell_label(1, 1), 'O');
    assert_eq!(g.cell_label(2, 2), '9');
}
