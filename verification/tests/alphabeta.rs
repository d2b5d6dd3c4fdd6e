use reversi::bitboard::put_position_to_coord;
use reversi::board::Board;
use reversi::search_algorithm::alphabeta::AlphaBeta;
use reversi::search_algorithm::base::Evaluator;

fn fixture_board() -> Board {
    // Puzzle 99 in Brian Rose, "Othello: A Minute to Learn...A Lifetime to Master"
    Board::create_from_str(
        "
        - x x x x x - o
        - - x x x x x o
        o x x x o x o o
        o o o x x x o o
        o x x x x x o o
        o x x x x x o o
        o - x x x x - o
        - x x x x x x -
        ",
    )
}

#[test]
fn alphabeta_create() {
    let search = AlphaBeta::create(10000, Evaluator::DiscCount);
    assert_eq!(search.max_n_leaves, 10000);
}

#[test]
fn alphabeta_best_leaves() {
    let search = AlphaBeta::create(10000, Evaluator::DiscCount);
    let best_leaves = search.best_leaves();
    assert_eq!(best_leaves, vec![])
}

#[test]
fn search_case_first_doesnt_have_legal_moves_black() {
    // Diagram 13-10 in Brian Rose, "Othello: A Minute to Learn...A Lifetime to Master"
    let board = Board::create_from_str(
        "
        o o o o o o o o
        o o o o o x x o
        o x x o x x x o
        o x o x o x x o
        o o o o x x x o
        o o o x x x x o
        - o o x o o o o
        - - o x x x x x
        ",
    );

    // when next turn is black
    let mut alphabeta = AlphaBeta::create(10000, Evaluator::DiscCount);
    let search_result = alphabeta.search(&board, 5);
    assert_eq!(search_result.is_some(), true);
    let search_result = search_result.unwrap();
    assert_eq!(search_result.0.is_none(), true);
    let actual_best_score = search_result.1;
    assert_eq!(actual_best_score, -2); // 33-31
    let actual_best_moves = alphabeta.best_leaves[0]
        .moves()
        .iter()
        .map(|m| put_position_to_coord(*m).unwrap())
        .collect::<Vec<String>>();
    assert_eq!(actual_best_moves, vec!["passed", "a8", "b8", "a7"]);
}

#[test]
fn search_case_first_doesnt_have_legal_moves_white() {
    // Diagram 13-10 in Brian Rose, "Othello: A Minute to Learn...A Lifetime to Master"
    let board = Board::create_from_str(
        "
        o o o o o o o o
        o o o o o x x o
        o x x o x x x o
        o x o x o x x o
        o o o o x x x o
        o o o x x x x o
        - o o x o o o o
        - - o x x x x x
        ",
    );

    // when next turn is white
    let reversed_board = Board::create(board.second(), board.first());
    let mut alphabeta = AlphaBeta::create(10000, Evaluator::DiscCount);
    let search_result = alphabeta.search(&reversed_board, 5);
    assert_eq!(search_result.is_some(), true);
    let search_result = search_result.unwrap();
    assert_eq!(search_result.0.is_some(), true);
    let actual_best_move = search_result.0;
    let actual_best_score = search_result.1;
    assert_eq!(put_position_to_coord(actual_best_move), Ok("a8".to_string()));
    assert_eq!(actual_best_score, 2); // 33-31
    let actual_best_moves = alphabeta.best_leaves[0]
        .moves()
        .iter()
        .map(|m| put_position_to_coord(*m).unwrap())
        .collect::<Vec<String>>();
    assert_eq!(actual_best_moves, vec!["a8", "b8", "a7"]);
}

#[test]
fn search_case_puzzle99() {
    let mut alphabeta = AlphaBeta::create(10000, Evaluator::DiscCount);
    let search_result = alphabeta.search(&fixture_board(), 9);
    assert_eq!(search_result.is_some(), true);
    let search_result = search_result.unwrap();
    let actual_best_move = search_result.0;
    let actual_best_score = search_result.1;

    // NOTE: there are other best moves that have the same score
    let expected_moves = vec![
        "g1", "passed", "a1", "passed", "b7", "passed", "a2", "b2", "a8", "passed", "g7", "passed",
        "h8",
    ];

    assert_eq!(actual_best_score, 38);
    assert_eq!(put_position_to_coord(actual_best_move), Ok("g1".to_string()));
    let actual_best_moves = alphabeta.best_leaves[0]
        .moves()
        .iter()
        .map(|m| put_position_to_coord(*m).unwrap())
        .collect::<Vec<String>>();
    assert_eq!(actual_best_moves, expected_moves);
}
