use reversi::board::{convert_indices_to_bitboard, coordinate_to_bitboard, count_bits, Board};
use reversi::board_reverse::ReverseTable;
use reversi::player::Player;
use reversi::strategy::StrategyType;

#[test]
fn test_create_board_fixture() {
    let actual = Board::create_from_str(
        "
        o - - - - - - -
        - - - - - - - x
        - - - - - - - -
        - - - - - - - -
        - - - - - - - -
        - - - - - - - -
        - - - - - - - -
        - - - - - - - -
    ",
    );
    let expected = Board::create(1, 1 << 15);
    assert_eq!(actual, expected);
}

#[test]
fn equivalence() {
    let board1 = Board::create(0, 1);
    let board2 = Board::create(0, 1);
    let board3 = Board::create(0, 4);
    assert_eq!(board1, board2);
    assert_ne!(board1, board3);
}

#[test]
fn is_full_should_return_false_when_board_is_empty() {
    let board = Board::create_from_str(
        "
        - - - - - - - -
        - - - - - - - -
        - - - - - - - -
        - - - - - - - -
        - - - - - - - -
        - - - - - - - -
        - - - - - - - -
        - - - - - - - -
    ",
    );
    assert_eq!(board.is_full(), false);
}

#[test]
fn is_full_should_return_true_when_board_is_full() {
    let board = Board::create_from_str(
        "
        x x x x x x x x
        x x x x x x x x
        x x x x x x x x
        x x x x x x x x
        x x x x x x x x
        x x x x x x x x
        x x x x x x x x
        x x x x x x x x
    ",
    );
    assert_eq!(board.is_full(), true);
}

#[test]
fn entire_reverse_patterns() {
    let board = Board::create_from_str(
        "
        o x - - - - - -
        - - - - - - - -
        - - - - - - - -
        - - - - - - - -
        - - - - - - - -
        - - - - - - - -
        - - - - - - - -
        - - - - - - - -
    ",
    );
    let reverse_patterns = board.entire_reverse_patterns(&Player::First);

    let mut expected = vec![0; 64];
    expected[2] = 2;

    assert_eq!(reverse_patterns, expected)
}

#[test]
fn put_and_reverse_should_reverse_pieces() {
    let mut board = Board::create_from_str(
        "
        o x x - - - - -
        - - - - - - - -
        - - - - - - - -
        - - - - - - - -
        - - - - - - - -
        - - - - - - - -
        - - - - - - - -
        - - - - - - - -
    ",
    );
    board.put_and_reverse(&Player::First, 8);
    let expected = Board::create(15, 0);
    assert_eq!(board, expected);
}

#[test]
fn is_empty() {
    let board = Board::create_from_str(
        "
        o x - - - - - -
        - - - - - - - -
        - - - - - - - -
        - - - - - - - -
        - - - - - - - -
        - - - - - - - -
        - - - - - - - -
        - - - - - - - -
    ",
    );
    assert_eq!(board.is_empty(1), false);
    assert_eq!(board.is_empty(1 << 63), true);
}

#[test]
fn get_n_reverses() {
    let board = Board::create_from_str(
        "
        - - - - - - - -
        - - - - - - - -
        - - o - - - - -
        - - o o o - - -
        - - - o x - - -
        - - - - - - - -
        - - - - - - - -
        - - - - - - - -
    ",
    );
    let table = ReverseTable::create();
    let actual = board.get_n_reverses(&Player::Second, &table);
    let expected = [
        0, 0, 0, 0, 0, 0, 0, 0, 0, 2, 0, 0, 0, 0, 0, 0, 0, 0, 0, 0, 1, 0, 0, 0, 0, 0, 0, 0, 0, 0,
        0, 0, 0, 0, 1, 0, 0, 0, 0, 0, 0, 0, 0, 0, 0, 0, 0, 0, 0, 0, 0, 0, 0, 0, 0, 0, 0, 0, 0, 0,
        0, 0, 0, 0,
    ];
    assert_eq!(actual, expected);
}

#[test]
fn count_bits_should_return_count_bits() {
    assert_eq!(count_bits(0), 0);
    assert_eq!(count_bits(u64::MAX), 64);
}

#[test]
fn coordinate_to_bitboard_should_convert_notations() {
    assert_eq!(coordinate_to_bitboard(0, 0), Ok(1));
    assert_eq!(coordinate_to_bitboard(7, 7), Ok(1 << 63));
    assert_eq!(
        coordinate_to_bitboard(8, 7),
        Err("out of index: (8, 7)".to_string())
    );
    assert_eq!(
        coordinate_to_bitboard(8, 8),
        Err("out of index: (8, 8)".to_string())
    );
}

#[test]
fn extract_pattern_instances() {
    let board = Board::create_from_str(
        "
        o - - - - - - -
        - - - - - - - -
        - - - - - - - -
        - - - - - - - -
        - - - - - - - -
        - - - - - - - -
        - - - - - - - -
        - - - - - - - x
    ",
    );
    println!("{:?}", board);

    let bitboard_a1 = reversi::board::convert_indices_to_bitboard('A', '1');
    let bitboard_h8 = reversi::board::convert_indices_to_bitboard('H', '8');

    assert_eq!(bitboard_a1, Ok(board.first()));
    assert_eq!(bitboard_h8, Ok(board.second()));
}

#[test]
fn parse_reverse_index() {
    let n = 3u64.pow(6) + 2 * 3u64.pow(5) + 3u64.pow(4) + 1 * 3 + 2;
    let actual = reversi::board::parse_reverse_index(n);
    let expected = [2, 1, 0, 0, 1, 2, 1, 0];
    assert_eq!(actual, expected);
}

#[test]
fn board_put_next_move_numdisk_lookahead_1_initial_move() {
    let mut board = Board::create_from_str(
        "
        - - - - - - - -
        - - - - - - - -
        - - - - - - - -
        - - - o x - - -
        - - - x o - - -
        - - - - - - - -
        - - - - - - - -
        - - - - - - - -
    ",
    );
    let result = board.put_next_move(&Player::First, StrategyType::NumdiskLookahead);

    let expected = Board::create_from_str(
        "
        - - - - - - - -
        - - - - - - - -
        - - - - o - - -
        - - - o o - - -
        - - - x o - - -
        - - - - - - - -
        - - - - - - - -
        - - - - - - - -
    ",
    );

    assert_eq!(result, Ok(1 << 20));
    assert_eq!(board, expected);
}

#[test]
fn board_put_next_move_no_legal_move() {
    let mut board = Board::create_from_str(
        "
        x o - - - - - -
        - - - - - - - -
        - - - - - - - -
        - - - - - - - -
        - - - - - - - -
        - - - - - - - -
        - - - - - - - -
        - - - - - - - -
    ",
    );
    let result = board.put_next_move(&Player::First, StrategyType::NumdiskLookahead);

    let expected = Board::create_from_str(
        "
        x o - - - - - -
        - - - - - - - -
        - - - - - - - -
        - - - - - - - -
        - - - - - - - -
        - - - - - - - -
        - - - - - - - -
        - - - - - - - -
    ",
    );

    assert_eq!(board, expected);
    assert_eq!(
        result,
        Err("Skipped because: Result of alpha-beta pruning search is empty".to_string())
    )
}

#[test]
fn put_and_reverse_on_an_occupied_cell_is_a_no_op() {
    let mut board = Board::create_from_str(
        "
        o x x - - - - -
        - - - - - - - -
        - - - - - - - -
        - - - - - - - -
        - - - - - - - -
        - - - - - - - -
        - - - - - - - -
        - - - - - - - -
    ",
    );
    let before = board.clone();
    // Cell 1 is held by the second player: nothing flips, nothing toggles.
    assert_eq!(
        board.get_reverse_pattern(board.first(), board.second(), 1 << 1),
        0
    );
    board.put_and_reverse(&Player::First, 1 << 1);
    assert_eq!(board, before);
    assert_eq!(board.first() & board.second(), 0);
}

#[test]
fn convert_indices_to_bitboard_names_the_bad_coordinate() {
    assert_eq!(
        convert_indices_to_bitboard('Z', '1'),
        Err("invalid x=Z".to_string())
    );
    assert_eq!(
        convert_indices_to_bitboard('A', '9'),
        Err("invalid y=9".to_string())
    );
    assert_eq!(
        convert_indices_to_bitboard('Z', '9'),
        Err("invalid x=Z".to_string())
    );
}
