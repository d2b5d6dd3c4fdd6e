use reversi::board::Board;
use reversi::game::Game;
use reversi::player::Player;
use reversi::strategy::StrategyType;

#[test]
fn put_next_move_numdisk_lookahead_1_initial_move() {
    let mut game = Game::create(Player::Second, StrategyType::NumdiskLookahead);
    game.current_board = Board::create_from_str(
        "
        - - - - - - - -
        - - - - - - - -
        - - - - - - - -
        - - - o x - - -
        - - - x o - - -
        - - - - - - - -
        - - - - - - - -
        - - - - - - - -
    ",
    );
    let result = game.put_and_reverse_opponent();

    let expected = Board::create_from_str(
        "
        - - - - - - - -
        - - - - - - - -
        - - - - o - - -
        - - - o o - - -
        - - - x o - - -
        - - - - - - - -
        - - - - - - - -
        - - - - - - - -
    ",
    );

    assert_eq!(result.is_ok(), true);
    assert_eq!(result.unwrap(), Some(1 << 20));
    assert_eq!(game.current_board, expected);
}

#[test]
fn put_next_move_no_legal_move() {
    let mut game = Game::create(Player::Second, StrategyType::NumdiskLookahead);
    game.current_board = Board::create_from_str(
        "
        x o - - - - - -
        - - - - - - - -
        - - - - - - - -
        - - - - - - - -
        - - - - - - - -
        - - - - - - - -
        - - - - - - - -
        - - - - - - - -
    ",
    );
    let result = game.put_and_reverse_opponent();

    let expected = Board::create_from_str(
        "
        x o - - - - - -
        - - - - - - - -
        - - - - - - - -
        - - - - - - - -
        - - - - - - - -
        - - - - - - - -
        - - - - - - - -
        - - - - - - - -
    ",
    );

    assert_eq!(game.current_board, expected);
    assert_eq!(result.is_ok(), false);
    assert_eq!(
        result.unwrap_err(),
        "Skipped because: Result of alpha-beta pruning search is empty".to_string()
    );
}

#[test]
fn game_starts_from_the_opening_cross() {
    let game = Game::create(Player::First, StrategyType::NumdiskLookahead);
    let board = game.currentBoard();
    // e4 and d5 are black's, d4 and e5 white's in the canonical cross.
    assert_eq!(board.first(), (1 << 28) | (1 << 35));
    assert_eq!(board.second(), (1 << 27) | (1 << 36));
    assert_eq!(board.first() & board.second(), 0);
}

#[test]
fn game_put_and_reverse_applies_the_human_move() {
    let mut game = Game::create(Player::First, StrategyType::NumdiskLookahead);
    game.set_current_board(Board::create_from_str(
        "
        o x x - - - - -
        - - - - - - - -
        - - - - - - - -
        - - - - - - - -
        - - - - - - - -
        - - - - - - - -
        - - - - - - - -
        - - - - - - - -
    ",
    ));
    game.putAndReverse(3, 0);
    assert_eq!(game.currentBoard(), Board::create(15, 0));
}

#[test]
fn game_reports_legal_position_counts() {
    let game = Game::create(Player::First, StrategyType::NumdiskLookahead);
    let counts = game.getCurrentAllLegalPosition(Player::First);
    assert_eq!(counts.len(), 64);
    // The four opening replies each flip exactly one disc.
    let total: u64 = counts.iter().sum();
    assert_eq!(total, 4);
    assert_eq!(counts[19], 1);
    assert_eq!(counts[26], 1);
    assert_eq!(counts[37], 1);
    assert_eq!(counts[44], 1);
}
