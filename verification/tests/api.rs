use reversi::board::{coordinate_to_bitboard, count_bits, Board};
use reversi::player::Player;

#[test]
fn lib_is_full_should_return_false_when_board_is_empty() {
    let board = Board::create(0, 0);
    assert_eq!(board.is_full(), false);
}

#[test]
fn lib_is_full_should_return_true_when_board_is_full() {
    let board = Board::create(0, u64::MAX);
    assert_eq!(board.is_full(), true);
}

#[test]
fn lib_count_bits_should_return_count_bits() {
    assert_eq!(count_bits(0), 0);
    assert_eq!(count_bits(u64::MAX), 64);
}

#[test]
fn lib_put_and_reverse_should_reverse_pieces() {
    let mut board = Board::create(1, 6);
    board.put_and_reverse(&Player::First, 8);
    assert_eq!(board.first(), 15);
    assert_eq!(board.second(), 0);
}

#[test]
fn lib_coordinate_to_bitboard_should_convert_notations() {
    assert_eq!(coordinate_to_bitboard(0, 0).unwrap(), 1);
    assert_eq!(coordinate_to_bitboard(7, 7).unwrap(), 1 << 63);
}

#[test]
fn lib_is_empty() {
    let board = Board::create(1, 2);
    assert_eq!(board.is_empty(1), false);
    assert_eq!(board.is_empty(1 << 63), true);
}

#[test]
fn reversi_is_full_should_return_false_when_board_is_empty() {
    let board = Board::create(0, 0);
    assert_eq!(board.is_full(), false);
}

#[test]
fn reversi_is_full_should_return_true_when_board_is_full() {
    let board = Board::create(0, u64::MAX);
    assert_eq!(board.is_full(), true);
}

#[test]
fn reversi_put_and_reverse_should_reverse_pieces() {
    let mut board = Board::create(1, 6);
    board.put_and_reverse(&Player::First, 8);
    assert_eq!(board.first(), 15);
    assert_eq!(board.second(), 0);
}

#[test]
fn reversi_is_empty() {
    let board = Board::create(1, 2);
    assert_eq!(board.is_empty(1), false);
    assert_eq!(board.is_empty(1 << 63), true);
}

#[test]
fn reversi_count_bits_should_return_count_bits() {
    assert_eq!(count_bits(0), 0);
    assert_eq!(count_bits(u64::MAX), 64);
}

#[test]
fn reversi_coordinate_to_bitboard_should_convert_notations() {
    assert_eq!(coordinate_to_bitboard(0, 0).unwrap(), 1);
    assert_eq!(coordinate_to_bitboard(7, 7).unwrap(), 1 << 63);
}

#[test]
fn get_bitboard_lists_the_side_bits() {
    let board = Board::create(0b101, 0b010);
    let first_bits = board.getBitboard(Player::First);
    let second_bits = board.getBitboard(Player::Second);
    assert_eq!(first_bits.len(), 64);
    assert_eq!(&first_bits[0..4], &[1, 0, 1, 0]);
    assert_eq!(&second_bits[0..4], &[0, 1, 0, 0]);
}

#[test]
fn get_all_legal_position_counts_flips_per_cell() {
    let board = Board::create((1 << 27) | (1 << 36), (1 << 28) | (1 << 35));
    let counts = board.getAllLegalPosition(Player::First);
    assert_eq!(counts.len(), 64);
    assert_eq!(counts[20], 1);
    assert_eq!(counts[0], 0);
}
