use vstd::prelude::*;

use crate::bitboard::WeightTable;
use crate::board::{
    cell_legal, disjoint, has_legal_move, lemma_disjoint_comm, lemma_reverse_has_legal_from, Board,
};
use crate::player::Player;
use crate::search_algorithm::alphabeta::AlphaBeta;
use crate::search_algorithm::base::Evaluator;

verus! {

use vstd::string::StringExecFns;

/// The move-choosing policies a game can be played with.
#[derive(Clone, Copy, Debug, PartialEq, Eq, Structural)]
pub enum StrategyType {
    NumdiskLookahead,
    PatternLookahead1,
}

/// The default strategy.
pub fn new_strategy() -> (r: NumdiskLookaheadStrategy) {
    NumdiskLookaheadStrategy {  }
}

/// The root board a strategy searches: the searcher always plays the first
/// side, so the second player's boards are searched with the sides swapped.
pub open spec fn strategy_root(board: Board, player: Player) -> (u64, u64) {
    match player {
        Player::First => (board.first, board.second),
        Player::Second => (board.second, board.first),
    }
}

/// A well-formed pattern evaluator whose every weight is zero: the neutral
/// stand-in table the fixed strategies play with until a trained table is
/// supplied through `choose_move`.
pub open spec fn zero_table_evaluator(ev: Evaluator) -> bool {
    &&& ev.wf()
    &&& ev matches Evaluator::Pattern(t) && forall|i: int|
        0 <= i < t.weights@.len() ==> #[trigger] t.weights@[i] == 0
}

/// The exact decision of a disc-count search of `board` for `player` at
/// game step `i_step`: the first best root cell of the swapped-orientation
/// search at the scheduled depth, with its minimax score.
pub open spec fn numdisk_decision(
    board: Board,
    player: Player,
    i_step: int,
    r: Result<(Option<u64>, i64), String>,
) -> bool {
    let root = strategy_root(board, player);
    &&& crate::search_algorithm::alphabeta::root_cells(
        root.0,
        root.1,
        numdisk_depth_schedule(i_step) as nat,
        Evaluator::DiscCount,
        0,
    ) matches Some(kv)
    &&& r matches Ok(p)
    &&& p.0 == Some((1u64 << kv.0))
    &&& p.1 as int == kv.1
}

/// The exact decision of a one-ply pattern search of `board` for `player`
/// under evaluator `ev`: the first root cell maximizing the pattern score
/// of its successor, with that score.
pub open spec fn pattern_decision(
    board: Board,
    player: Player,
    ev: Evaluator,
    r: Result<(Option<u64>, i64), String>,
) -> bool {
    let root = strategy_root(board, player);
    &&& crate::search_algorithm::alphabeta::root_cells(root.0, root.1, 0, ev, 0) matches Some(kv)
    &&& r matches Ok(p)
    &&& p.0 == Some((1u64 << kv.0))
    &&& p.1 as int == kv.1
}

/// The depth the disc-count strategy searches at game step `i_step`: deeper
/// as the game nears its forced end, where the branching factor shrinks.
pub open spec fn numdisk_depth_schedule(i_step: int) -> int {
    if 45 <= i_step && i_step <= 61 {
        13
    } else if 41 <= i_step && i_step <= 44 {
        9
    } else {
        7
    }
}

/// A capability that chooses the next move of `player` on `board` at game
/// step `i_step`: either a legal cell with the score the strategy gives it,
/// or the named failure when `player` has no legal move.
pub trait Strategy {
    fn get_next_move(&mut self, board: &Board, player: &Player, i_step: usize) -> (r: Result<
        (Option<u64>, i64),
        String,
    >)
        requires
            disjoint(board.first, board.second),
        ensures
            r is Ok <==> has_legal_move(board.first, board.second, *player),
            r matches Ok(p) ==> (p.0 matches Some(m) && exists|k: int|
                0 <= k < 64 && m == (1u64 << k) && cell_legal(board.first, board.second, *player, k)),
            r matches Err(e) ==> e@ == "Result of alpha-beta pruning search is empty"@,
    ;
}

/// Looks ahead with the disc-count evaluation, deeper as the game nears its
/// end: the forced endgame is searched exhaustively.
pub struct NumdiskLookaheadStrategy {}

impl NumdiskLookaheadStrategy {
    /// Chooses the move with the caller's disc-count searcher: the board is
    /// searched (swapped for the second player) to the step-scheduled depth,
    /// and as long as the searcher's leaf budget was not exhausted the
    /// result is the first best root cell with its exact minimax score.
    pub fn choose_move(
        searcher: &mut AlphaBeta,
        board: &Board,
        player: &Player,
        i_step: usize,
    ) -> (r: Result<(Option<u64>, i64), String>)
        requires
            old(searcher).evaluator == Evaluator::DiscCount,
            disjoint(board.first, board.second),
        ensures
            final(searcher).evaluator == old(searcher).evaluator,
            final(searcher).max_n_leaves == old(searcher).max_n_leaves,
            r is Ok <==> has_legal_move(board.first, board.second, *player),
            r matches Ok(p) ==> (p.0 matches Some(m) && exists|k: int|
                0 <= k < 64 && m == (1u64 << k) && cell_legal(board.first, board.second, *player, k)),
            r matches Err(e) ==> e@ == "Result of alpha-beta pruning search is empty"@,
            final(searcher).n_evaluated_leaves <= final(searcher).max_n_leaves && has_legal_move(
                board.first,
                board.second,
                *player,
            ) ==> numdisk_decision(*board, *player, i_step as int, r),
    {
        let root_board = match player {
            Player::First => board.clone(),
            Player::Second => Board::reverse(board),
        };
        proof {
            if *player is Second {
                lemma_disjoint_comm(board.first, board.second);
            }
        }
        let depth: u64 = if 45 <= i_step && i_step <= 61 {
            13
        } else if 41 <= i_step && i_step <= 44 {
            9
        } else {
            7
        };
        let result = searcher.search(&root_board, depth);
        proof {
            lemma_reverse_has_legal_from(board.first, board.second, 0);
            if *player is Second {
                assert forall|k: int|
                    0 <= k < 64 && cell_legal(root_board.first, root_board.second, Player::First, k)
                        implies cell_legal(board.first, board.second, *player, k) by {
                    crate::board::lemma_reverse_orientation(board.first, board.second, (1u64 << k));
                }
            }
        }
        match result {
            Some((Some(best_move), score)) => Ok((Some(best_move), score)),
            _ => {
                let mut msg = String::new();
                msg.append("Result of alpha-beta pruning search is empty");
                Err(msg)
            },
        }
    }
}

impl Strategy for NumdiskLookaheadStrategy {
    /// The fixed large leaf budget of this searcher never binds, so the
    /// decision is unconditionally the exact one of the scheduled search.
    fn get_next_move(&mut self, board: &Board, player: &Player, i_step: usize) -> (r: Result<
        (Option<u64>, i64),
        String,
    >)
        ensures
            has_legal_move(board.first, board.second, *player) ==> numdisk_decision(
                *board,
                *player,
                i_step as int,
                r,
            ),
    {
        let mut alphabeta = AlphaBeta::create(usize::MAX, Evaluator::DiscCount);
        NumdiskLookaheadStrategy::choose_move(&mut alphabeta, board, player, i_step)
    }
}

/// Scores every legal move directly by the positional pattern evaluation,
/// one ply deep, as the cheaper alternative to the deep search.  The weight
/// table asset is supplied by the process; the trait impl plays with the
/// neutral all-zero table, under which every position scores zero.
pub struct PatternLookahead1Strategy {}

impl PatternLookahead1Strategy {
    /// Chooses the move with the caller's pattern searcher: a depth-zero
    /// search, so every legal root move is scored directly by the pattern
    /// evaluation of its successor board against the searcher's weight
    /// table, and the first best cell wins.
    pub fn choose_move(searcher: &mut AlphaBeta, board: &Board, player: &Player) -> (r: Result<
        (Option<u64>, i64),
        String,
    >)
        requires
            old(searcher).evaluator.wf(),
            old(searcher).evaluator is Pattern,
            disjoint(board.first, board.second),
        ensures
            final(searcher).evaluator == old(searcher).evaluator,
            final(searcher).max_n_leaves == old(searcher).max_n_leaves,
            r is Ok <==> has_legal_move(board.first, board.second, *player),
            r matches Ok(p) ==> (p.0 matches Some(m) && exists|k: int|
                0 <= k < 64 && m == (1u64 << k) && cell_legal(board.first, board.second, *player, k)),
            r matches Err(e) ==> e@ == "Result of alpha-beta pruning search is empty"@,
            final(searcher).n_evaluated_leaves <= final(searcher).max_n_leaves && has_legal_move(
                board.first,
                board.second,
                *player,
            ) ==> pattern_decision(*board, *player, final(searcher).evaluator, r),
    {
        let root_board = match player {
            Player::First => board.clone(),
            Player::Second => Board::reverse(board),
        };
        proof {
            if *player is Second {
                lemma_disjoint_comm(board.first, board.second);
            }
        }
        let result = searcher.search(&root_board, 0);
        proof {
            lemma_reverse_has_legal_from(board.first, board.second, 0);
            if *player is Second {
                assert forall|k: int|
                    0 <= k < 64 && cell_legal(root_board.first, root_board.second, Player::First, k)
                        implies cell_legal(board.first, board.second, *player, k) by {
                    crate::board::lemma_reverse_orientation(board.first, board.second, (1u64 << k));
                }
            }
        }
        match result {
            Some((Some(best_move), score)) => Ok((Some(best_move), score)),
            _ => {
                let mut msg = String::new();
                msg.append("Result of alpha-beta pruning search is empty");
                Err(msg)
            },
        }
    }
}

impl Strategy for PatternLookahead1Strategy {
    /// Plays the neutral all-zero table; the fixed large leaf budget never
    /// binds, so the decision is unconditionally the exact one-ply pattern
    /// maximization under that table.
    fn get_next_move(&mut self, board: &Board, player: &Player, _i_step: usize) -> (r: Result<
        (Option<u64>, i64),
        String,
    >)
        ensures
            has_legal_move(board.first, board.second, *player) ==> exists|ev: Evaluator|
                #[trigger] zero_table_evaluator(ev) && pattern_decision(*board, *player, ev, r),
    {
        let evaluator = Evaluator::Pattern(WeightTable::zeros());
        let ghost chosen = evaluator;
        let mut alphabeta = AlphaBeta::create(usize::MAX, evaluator);
        let r = PatternLookahead1Strategy::choose_move(&mut alphabeta, board, player);
        proof {
            if has_legal_move(board.first, board.second, *player) {
                assert(zero_table_evaluator(chosen));
                assert(pattern_decision(*board, *player, chosen, r));
            }
        }
        r
    }
}

impl Board {
    /// Chooses and plays the next move of `player` with the given strategy.
    /// Returns the cell played, or the skip message when `player` has no
    /// legal move, in which case the board is unchanged.
    pub fn put_next_move(&mut self, player: &Player, strategy_type: StrategyType) -> (r: Result<
        u64,
        String,
    >)
        requires
            disjoint(old(self).first, old(self).second),
        ensures
            disjoint(final(self).first, final(self).second),
            r is Ok <==> has_legal_move(old(self).first, old(self).second, *player),
            r matches Ok(m) ==> (exists|k: int|
                0 <= k < 64 && m == (1u64 << k) && cell_legal(
                    old(self).first,
                    old(self).second,
                    *player,
                    k,
                )) && (final(self).first, final(self).second) == crate::board::board_after_move(
                old(self).first,
                old(self).second,
                *player,
                m,
            ),
            r is Err ==> *final(self) == *old(self),
            r matches Err(e) ==> e@ == "Skipped because: Result of alpha-beta pruning search is empty"@,
            strategy_type == StrategyType::NumdiskLookahead && has_legal_move(
                old(self).first,
                old(self).second,
                *player,
            ) ==> ({
                let root = strategy_root(*old(self), *player);
                &&& crate::search_algorithm::alphabeta::root_cells(
                    root.0,
                    root.1,
                    numdisk_depth_schedule(0) as nat,
                    Evaluator::DiscCount,
                    0,
                ) matches Some(kv)
                &&& r matches Ok(m)
                &&& m == (1u64 << kv.0)
            }),
            strategy_type == StrategyType::PatternLookahead1 && has_legal_move(
                old(self).first,
                old(self).second,
                *player,
            ) ==> (exists|ev: Evaluator|
                #[trigger] zero_table_evaluator(ev) && ({
                    let root = strategy_root(*old(self), *player);
                    &&& crate::search_algorithm::alphabeta::root_cells(root.0, root.1, 0, ev, 0)
                        matches Some(kv)
                    &&& r matches Ok(m)
                    &&& m == (1u64 << kv.0)
                })),
    {
        let next = match strategy_type {
            StrategyType::NumdiskLookahead => {
                let mut strategy = NumdiskLookaheadStrategy {  };
                strategy.get_next_move(&*self, player, 0)
            },
            StrategyType::PatternLookahead1 => {
                let mut strategy = PatternLookahead1Strategy {  };
                strategy.get_next_move(&*self, player, 0)
            },
        };
        let ghost pre = *self;
        match next {
            Ok((next_position_opt, _score)) => {
                let next_position = match next_position_opt {
                    Some(p) => p,
                    None => {
                        return Err(String::new());
                    },
                };
                proof {
                    let k = choose|k: int|
                        0 <= k < 64 && next_position == (1u64 << k) && cell_legal(
                            self.first,
                            self.second,
                            *player,
                            k,
                        );
                    crate::board::lemma_single_bit(k as u64);
                }
                let (_player, put_position) = self.put_and_reverse(player, next_position);
                proof {
                    if strategy_type == StrategyType::PatternLookahead1 && has_legal_move(
                        pre.first,
                        pre.second,
                        *player,
                    ) {
                        let ev = choose|ev: Evaluator|
                            zero_table_evaluator(ev) && pattern_decision(pre, *player, ev, next);
                        assert(zero_table_evaluator(ev) && ({
                            let root = strategy_root(pre, *player);
                            &&& crate::search_algorithm::alphabeta::root_cells(
                                root.0,
                                root.1,
                                0,
                                ev,
                                0,
                            ) matches Some(kv)
                            &&& put_position == (1u64 << kv.0)
                        }));
                    }
                }
                Ok(put_position)
            },
            Err(msg) => {
                let mut full = String::new();
                full.append("Skipped because: ");
                full.append(msg.as_str());
                proof {
                    reveal_strlit("Skipped because: ");
                    reveal_strlit("Result of alpha-beta pruning search is empty");
                    reveal_strlit("Skipped because: Result of alpha-beta pruning search is empty");
                    assert(full@ =~= "Skipped because: Result of alpha-beta pruning search is empty"@);
                }
                Err(full)
            },
        }
    }
}

} // verus!
