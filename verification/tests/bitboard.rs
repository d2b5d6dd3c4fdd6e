use reversi::bitboard::{cell_state_vec_to_pattern_instance_index, pattern_row};
use reversi::board::Board;

#[test]
fn u64_to_bitvec() {
    let n = 0b_11000000_00000000_00000000_00000000_00000000_00000000_00000000_00010001;
    let actual = reversi::bitboard::u64_to_bitvec(n);

    let expected = vec![
        1, 0, 0, 0, 1, 0, 0, 0,
        0, 0, 0, 0, 0, 0, 0, 0,
        0, 0, 0, 0, 0, 0, 0, 0,
        0, 0, 0, 0, 0, 0, 0, 0,
        0, 0, 0, 0, 0, 0, 0, 0,
        0, 0, 0, 0, 0, 0, 0, 0,
        0, 0, 0, 0, 0, 0, 0, 0,
        0, 0, 0, 0, 0, 0, 1, 1,
    ];

    assert_eq!(actual, expected);
}

#[test]
fn pattern_instance_hor_vert_2() {
    let board = Board::create_from_str(
        "
      x o x - x o o x
      - o - o x - o -
      x x o x o - o x
      x - o o x o x -
      - x - - o - - o
      - o - x x x o o
      x - x x o - x -
      x - x x - x o o
  ",
    );
    let first = reversi::bitboard::u64_to_bitvec(board.first());
    let second = reversi::bitboard::u64_to_bitvec(board.second());

    let actual = cell_state_vec_to_pattern_instance_index(
        &first,
        &second,
        pattern_row(5), // rotate:+0, hor./vert. 2
    );
    let expected = 0
        + 1 * 3
        + 0 * 3 * 3
        + 1 * 3 * 3 * 3
        + 2 * 3 * 3 * 3 * 3
        + 0 * 3 * 3 * 3 * 3 * 3
        + 1 * 3 * 3 * 3 * 3 * 3 * 3
        + 0 * 3 * 3 * 3 * 3 * 3 * 3 * 3;
    assert_eq!(actual, expected);
}

#[test]
fn put_position_to_coord() {
    assert_eq!(
        reversi::bitboard::put_position_to_coord(Some(1)),
        Ok("a1".to_string())
    );
    assert_eq!(
        reversi::bitboard::put_position_to_coord(Some(1 << 7)),
        Ok("h1".to_string())
    );
    assert_eq!(
        reversi::bitboard::put_position_to_coord(Some(1 << 63)),
        Ok("h8".to_string())
    );
}

#[test]
fn put_position_to_coord_of_pass_and_empty_mask() {
    assert_eq!(
        reversi::bitboard::put_position_to_coord(None),
        Ok("passed".to_string())
    );
    assert!(reversi::bitboard::put_position_to_coord(Some(0)).is_err());
}

#[test]
fn put_position_to_xy_reads_highest_disc() {
    assert_eq!(reversi::bitboard::put_position_to_xy(0), None);
    assert_eq!(reversi::bitboard::put_position_to_xy(1), Some((0, 0)));
    assert_eq!(reversi::bitboard::put_position_to_xy(1 << 20), Some((4, 2)));
    assert_eq!(reversi::bitboard::put_position_to_xy(1 << 63), Some((7, 7)));
}

#[test]
fn extract_pattern_instance_indices_of_empty_board() {
    let board = Board::create(0, 0);
    let indices = reversi::bitboard::extract_pattern_instance_indices(&board, &reversi::Player::First);
    assert_eq!(indices.len(), 44);
    assert!(indices.iter().all(|&i| i == 0));
}

#[test]
fn extract_pattern_instance_indices_sees_single_disc() {
    // A lone disc of the mover on a1, the first cell of the edge and corner
    // templates: each template containing cell 0 reports a digit there.
    let board = Board::create(1, 0);
    let indices = reversi::bitboard::extract_pattern_instance_indices(&board, &reversi::Player::First);
    // Template 8 (edge-2x at rotation 0) starts at cell 0, so its index is 1.
    assert_eq!(indices[8], 1);
    // Template 0 (diag4 at rotation 0) does not contain cell 0.
    assert_eq!(indices[0], 0);
}

#[test]
fn weight_table_rejects_wrong_length() {
    let weights = vec![0i64; 3];
    assert!(reversi::bitboard::WeightTable::from_weights(weights).is_err());
}

#[test]
fn weight_table_rejects_oversized_weight() {
    let mut weights = vec![0i64; 167265];
    weights[5] = 2_000_000_000;
    assert!(reversi::bitboard::WeightTable::from_weights(weights).is_err());
}

#[test]
fn calculate_pattern_score_sums_the_looked_up_weights() {
    let mut weights = vec![0i64; 167265];
    // Template 0 block starts at offset 0; give instance 7 the weight 5.
    weights[7] = 5;
    // Template 1 block starts at offset 81; give instance 2 the weight 11.
    weights[81 + 2] = 11;
    let table = reversi::bitboard::WeightTable::from_weights(weights).unwrap();
    let indices = vec![7u64, 2u64];
    let score = Board::calculate_pattern_score(indices, &table);
    assert_eq!(score, 16);
}

#[test]
fn all_patterns_lists_every_template() {
    let table = reversi::bitboard::all_patterns();
    assert_eq!(table.len(), 44);
    assert_eq!(table[5], pattern_row(5));
    assert_eq!(table[0], [3, 10, 17, 24, -1, -1, -1, -1, -1, -1]);
}
