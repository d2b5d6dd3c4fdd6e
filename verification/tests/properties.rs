use reversi::board::Board;
use reversi::bitboard::WeightTable;
use reversi::strategy::{NumdiskLookaheadStrategy, PatternLookahead1Strategy, Strategy};
use reversi::board_reverse::ReverseTable;
use reversi::player::Player;
use reversi::search_algorithm::alphabeta::AlphaBeta;
use reversi::search_algorithm::base::Evaluator;

fn boards_for_checks() -> Vec<Board> {
    vec![
        Board::create((1 << 27) | (1 << 36), (1 << 28) | (1 << 35)),
        Board::create_from_str(
            "
            o x x - - - - -
            - o x - - - - -
            - - o x x o - -
            - - - x o - - -
            - - - o x - - -
            - - x - - - - -
            - - - - - - - -
            - - - - - - x o
        ",
        ),
        Board::create_from_str(
            "
            - x x x x x - o
            - - x x x x x o
            o x x x o x o o
            o o o x x x o o
            o x x x x x o o
            o x x x x x o o
            o - x x x x - o
            - x x x x x x -
        ",
        ),
    ]
}

// The legal-move set computed by the direct directional scan equals the one
// computed from the precomputed line table, and their per-cell flip counts
// agree, for both sides on every checked board.
#[test]
fn legal_moves_agree_between_scan_and_table() {
    let table = ReverseTable::create();
    for board in boards_for_checks() {
        for player in [Player::First, Player::Second] {
            let from_table = board.get_n_reverses(&player, &table);
            let from_scan: Vec<u64> = board
                .entire_reverse_patterns(&player)
                .into_iter()
                .map(reversi::board::count_bits)
                .collect();
            assert_eq!(from_table, from_scan);

            let legal_moves = board.get_all_legal_moves(&player);
            let legal_from_table: Vec<u64> = (0..64)
                .filter(|&i| from_table[i as usize] > 0)
                .map(|i| 1u64 << i)
                .collect();
            assert_eq!(legal_moves, legal_from_table);
        }
    }
}

// Replaying the same (board, side, cell) always yields the same board.
#[test]
fn apply_move_is_deterministic() {
    for board in boards_for_checks() {
        let mut once = board.clone();
        let mut twice = board.clone();
        once.put_and_reverse(&Player::First, 1 << 20);
        twice.put_and_reverse(&Player::First, 1 << 20);
        assert_eq!(once, twice);
    }
}

// The two sides never occupy one cell at once, along a whole played line.
#[test]
fn sides_stay_disjoint_along_a_game() {
    let mut board = Board::create((1 << 27) | (1 << 36), (1 << 28) | (1 << 35));
    let mut player = Player::First;
    for _ply in 0..60 {
        let legal_moves = board.get_all_legal_moves(&player);
        match legal_moves.first() {
            Some(&m) => {
                board.put_and_reverse(&player, m);
            }
            None => {}
        }
        assert_eq!(board.first() & board.second(), 0);
        player = player.opponent();
    }
}

// The disc-count score for one side is the negation of the score for the other.
#[test]
fn score_numdisk_is_antisymmetric() {
    for board in boards_for_checks() {
        assert_eq!(
            board.score_numdisk(Player::First),
            -board.score_numdisk(Player::Second)
        );
    }
}

// Plain minimax without pruning, written independently of the library's
// search, for cross-checking the alpha-beta result.
fn minimax(board: &Board, player: Player, passed: bool, depth: u64) -> i64 {
    if board.is_full() || depth == 0 {
        return board.score_numdisk(player);
    }
    let legal_moves = board.get_all_legal_moves(&player);
    if legal_moves.is_empty() {
        if passed {
            return board.score_numdisk(player);
        }
        return -minimax(board, player.opponent(), true, depth);
    }
    let mut best = i64::MIN;
    for m in legal_moves {
        let mut child = board.clone();
        child.put_and_reverse(&player, m);
        let v = -minimax(&child, player.opponent(), false, depth - 1);
        if v > best {
            best = v;
        }
    }
    best
}

// The alpha-beta score equals the full minimax score for the same board and
// depth.
#[test]
fn alpha_beta_score_equals_minimax_score() {
    for board in boards_for_checks() {
        for depth in [1u64, 2, 3] {
            let mut searcher = AlphaBeta::create(1_000_000_000, Evaluator::DiscCount);
            let result = searcher.search(&board, depth).unwrap();
            let expected = if board.get_all_legal_moves(&Player::First).is_empty() {
                -minimax(&board, Player::Second, true, depth)
            } else {
                let legal_moves = board.get_all_legal_moves(&Player::First);
                let mut best = i64::MIN;
                for m in legal_moves {
                    let mut child = board.clone();
                    child.put_and_reverse(&Player::First, m);
                    let v = -minimax(&child, Player::Second, false, depth);
                    if v > best {
                        best = v;
                    }
                }
                best
            };
            assert_eq!(result.1, expected);
        }
    }
}

// The reported root lines come back sorted, best first.
#[test]
fn best_leaves_are_sorted_descending() {
    let mut searcher = AlphaBeta::create(1_000_000_000, Evaluator::DiscCount);
    let board = Board::create((1 << 27) | (1 << 36), (1 << 28) | (1 << 35));
    searcher.search(&board, 3);
    let leaves = searcher.best_leaves();
    assert!(!leaves.is_empty());
    for w in leaves.windows(2) {
        assert!(w[0].score() >= w[1].score());
    }
}

// The coordinate round trip: every valid (column, row) pair survives the
// conversion to a single-bit mask and back; out-of-range pairs fail.
#[test]
fn coordinate_round_trip() {
    for col in 0..8u64 {
        for row in 0..8u64 {
            let mask = reversi::board::coordinate_to_bitboard(col, row).unwrap();
            assert_eq!(reversi::bitboard::put_position_to_xy(mask), Some((col, row)));
        }
    }
    assert!(reversi::board::coordinate_to_bitboard(8, 0).is_err());
    assert!(reversi::board::coordinate_to_bitboard(0, 8).is_err());
}

// A pattern-evaluation searcher scores one ply directly and still reports a
// legal move.
#[test]
fn pattern_strategy_picks_a_legal_move() {
    let board = Board::create((1 << 27) | (1 << 36), (1 << 28) | (1 << 35));
    let mut strategy = PatternLookahead1Strategy {};
    let result = strategy.get_next_move(&board, &Player::First, 0).unwrap();
    let m = result.0.unwrap();
    let legal = board.get_all_legal_moves(&Player::First);
    assert!(legal.contains(&m));
}

// A reported line keeps its player and moves when its score is reset.
#[test]
fn leaf_set_score_changes_only_the_score() {
    let mut leaf = reversi::search_algorithm::base::GameTreeLeaf::create(
        Player::First,
        3,
        vec![Some(1), None],
    );
    assert_eq!(leaf.score(), 3);
    leaf.set_score(-7);
    assert_eq!(leaf.score(), -7);
    assert_eq!(leaf.moves(), vec![Some(1), None]);
}

// The disc-count strategy run through a caller's searcher gives the exact
// endgame answer at its scheduled depth.
#[test]
fn numdisk_choose_move_solves_the_endgame() {
    // Diagram 13-10 with the sides swapped: the mover can reach a8.
    let board = Board::create_from_str(
        "
        o o o o o o o o
        o o o o o x x o
        o x x o x x x o
        o x o x o x x o
        o o o o x x x o
        o o o x x x x o
        - o o x o o o o
        - - o x x x x x
    ",
    );
    let mut searcher = AlphaBeta::create(1_000_000_000, Evaluator::DiscCount);
    let result =
        NumdiskLookaheadStrategy::choose_move(&mut searcher, &board, &Player::Second, 0).unwrap();
    assert_eq!(result.0, Some(1u64 << 56)); // a8
    assert_eq!(result.1, 2);
}

// The depth-zero pattern strategy scores every legal reply directly; under
// the all-zero table all replies tie and the first legal cell wins.
#[test]
fn pattern_choose_move_is_a_one_ply_first_max() {
    let board = Board::create((1 << 28) | (1 << 35), (1 << 27) | (1 << 36));
    let mut searcher =
        AlphaBeta::create(1_000_000_000, Evaluator::Pattern(WeightTable::zeros()));
    let result =
        PatternLookahead1Strategy::choose_move(&mut searcher, &board, &Player::First).unwrap();
    assert_eq!(result.0, Some(1u64 << 19));
    assert_eq!(result.1, 0);
}

// The copy of the ranked lines carries the same players, scores and moves.
#[test]
fn best_leaves_copy_matches_the_searcher() {
    let board = Board::create((1 << 28) | (1 << 35), (1 << 27) | (1 << 36));
    let mut searcher = AlphaBeta::create(1_000_000_000, Evaluator::DiscCount);
    searcher.search(&board, 2);
    let copy = searcher.best_leaves();
    assert_eq!(copy.len(), 4);
    for (a, b) in copy.iter().zip(searcher.best_leaves.iter()) {
        assert_eq!(a.score(), b.score());
        assert_eq!(a.moves(), b.moves());
    }
}
