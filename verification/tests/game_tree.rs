use reversi::bitboard::put_position_to_coord;
use reversi::board::Board;
use reversi::game_tree::GameTree;
use reversi::player::Player;

#[test]
fn alpha_beta_pruning_search() {
    // Diagram 13-10 in Brian Rose, "Othello: A Minute to Learn...A Lifetime to Master"
    let current_board = Board::create_from_str(
        "
        o o o o o o o o
        o o o o o x x o
        o x x o x x x o
        o x o x o x x o
        o o o o x x x o
        o o o x x x x o
        - o o x o o o o
        - - o x x x x x
    ",
    );

    // when next turn is black
    let mut game_tree = GameTree::create(Player::First, current_board.clone());
    let best_move = game_tree.alpha_beta_pruning_search(5).unwrap();
    assert_eq!(best_move.put_position, None);
    assert_eq!(best_move.score, Some(-2));

    // when next turn is white
    let mut game_tree = GameTree::create(Player::Second, current_board.clone());
    let best_move = game_tree.alpha_beta_pruning_search(3).unwrap();
    assert_eq!(
        put_position_to_coord(best_move.put_position),
        Ok("a8".to_string())
    );
    assert_eq!(best_move.score, Some(2));
}

#[test]
fn alpha_beta_pruning_search_pass() {
    // Puzzle 99 in Brian Rose, "Othello: A Minute to Learn...A Lifetime to Master"
    let current_board = Board::create_from_str(
        "
        - x x x x x - o
        - - x x x x x o
        o x x x o x o o
        o o o x x x o o
        o x x x x x o o
        o x x x x x o o
        o - x x x x - o
        - x x x x x x -
    ",
    );
    let mut game_tree = GameTree::create(Player::First, current_board);
    let best_move = game_tree.alpha_beta_pruning_search(9).unwrap();

    // NOTE: b7 is also one of the best moves
    assert_eq!(
        put_position_to_coord(best_move.put_position),
        Ok("g1".to_string())
    );
    assert_eq!(best_move.score, Some(38));
}
