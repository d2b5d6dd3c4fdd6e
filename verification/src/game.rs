use vstd::prelude::*;

use crate::board::{
    board_after_move, cell_legal, coordinate_to_bitboard, disjoint, has_legal_move,
    lemma_single_bit, newBoard, Board,
};
use crate::player::Player;
use crate::strategy::{NumdiskLookaheadStrategy, PatternLookahead1Strategy, Strategy, StrategyType};

verus! {

use vstd::string::StringExecFns;

/// One game between a human side and a strategy-driven opponent: the side
/// the human plays, the evolving board, the cells played so far, and the
/// opponent's move-choosing policy.
pub struct Game {
    pub player_human: Player,
    pub current_board: Board,
    pub history: Vec<u64>,
    pub opponent_strategy: StrategyType,
}

impl Game {
    /// The game's board is well formed: no cell is doubly occupied.
    pub open spec fn wf(&self) -> bool {
        disjoint(self.current_board.first, self.current_board.second)
    }

    /// A fresh game from the initial position.
    pub fn create(player_human: Player, opponent_strategy_type: StrategyType) -> (r: Game)
        ensures
            r.wf(),
            r.player_human == player_human,
            r.opponent_strategy == opponent_strategy_type,
            r.current_board.first == 0x0000_0008_1000_0000u64,
            r.current_board.second == 0x0000_0010_0800_0000u64,
            r.history@.len() == 0,
    {
        let current_board = newBoard();
        proof {
            assert(0x0000_0008_1000_0000u64 & 0x0000_0010_0800_0000u64 == 0) by (bit_vector);
        }
        Game { player_human, current_board, history: Vec::new(), opponent_strategy: opponent_strategy_type }
    }

    /// Replaces the board position, for setting up a game in progress.
    pub fn set_current_board(&mut self, board: Board)
        requires
            disjoint(board.first, board.second),
        ensures
            final(self).wf(),
            final(self).current_board == board,
            final(self).player_human == old(self).player_human,
            final(self).history == old(self).history,
            final(self).opponent_strategy == old(self).opponent_strategy,
    {
        self.current_board = board;
    }

    #[allow(non_snake_case)]
    pub fn currentBoard(&self) -> (r: Board)
        ensures
            r == self.current_board,
    {
        self.current_board.clone()
    }

    /// Plays the human's disc on the cell of column `i` and row `j`; the
    /// cell must lie on the board and be empty.
    #[allow(non_snake_case)]
    pub fn putAndReverse(&mut self, i: u8, j: u8)
        requires
            old(self).wf(),
            i < 8,
            j < 8,
            (old(self).current_board.first | old(self).current_board.second) & (1u64 << (i + 8 * j))
                == 0,
        ensures
            final(self).wf(),
            (final(self).current_board.first, final(self).current_board.second) == board_after_move(
                old(self).current_board.first,
                old(self).current_board.second,
                old(self).player_human,
                (1u64 << (i + 8 * j)),
            ),
            final(self).history@ == old(self).history@.push((1u64 << (i + 8 * j))),
            final(self).player_human == old(self).player_human,
            final(self).opponent_strategy == old(self).opponent_strategy,
    {
        let put_position = match coordinate_to_bitboard(i as u64, j as u64) {
            Ok(p) => p,
            Err(_) => {
                return ;
            },
        };
        proof {
            lemma_single_bit((i + 8 * j) as u64);
        }
        self.current_board.put_and_reverse(&self.player_human, put_position);
        self.history.push(put_position);
    }

    /// Asks the opponent's strategy for its move and plays it.  Returns the
    /// cell played, or the skip message when the opponent has no legal move,
    /// in which case the game is unchanged.
    pub fn put_and_reverse_opponent(&mut self) -> (r: Result<Option<u64>, String>)
        requires
            old(self).wf(),
        ensures
            final(self).wf(),
            final(self).player_human == old(self).player_human,
            final(self).opponent_strategy == old(self).opponent_strategy,
            r is Ok <==> has_legal_move(
                old(self).current_board.first,
                old(self).current_board.second,
                old(self).player_human.opponent_spec(),
            ),
            r matches Ok(mv) ==> (mv matches Some(m) && exists|k: int|
                0 <= k < 64 && m == (1u64 << k) && cell_legal(
                    old(self).current_board.first,
                    old(self).current_board.second,
                    old(self).player_human.opponent_spec(),
                    k,
                )),
            r matches Ok(mv) ==> (mv matches Some(m) && (
            final(self).current_board.first,
            final(self).current_board.second,
            ) == board_after_move(
                old(self).current_board.first,
                old(self).current_board.second,
                old(self).player_human.opponent_spec(),
                m,
            ) && final(self).history@ == old(self).history@.push(m)),
            r is Err ==> final(self).current_board == old(self).current_board && final(self).history
                == old(self).history,
            r matches Err(e) ==> e@
                == "Skipped because: Result of alpha-beta pruning search is empty"@,
            old(self).opponent_strategy == StrategyType::NumdiskLookahead && has_legal_move(
                old(self).current_board.first,
                old(self).current_board.second,
                old(self).player_human.opponent_spec(),
            ) ==> ({
                let root = crate::strategy::strategy_root(
                    old(self).current_board,
                    old(self).player_human.opponent_spec(),
                );
                &&& crate::search_algorithm::alphabeta::root_cells(
                    root.0,
                    root.1,
                    crate::strategy::numdisk_depth_schedule(old(self).history@.len() as int) as nat,
                    crate::search_algorithm::base::Evaluator::DiscCount,
                    0,
                ) matches Some(kv)
                &&& r matches Ok(mv)
                &&& mv == Some((1u64 << kv.0))
            }),
            old(self).opponent_strategy == StrategyType::PatternLookahead1 && has_legal_move(
                old(self).current_board.first,
                old(self).current_board.second,
                old(self).player_human.opponent_spec(),
            ) ==> (exists|ev: crate::search_algorithm::base::Evaluator|
                #[trigger] crate::strategy::zero_table_evaluator(ev) && ({
                    let root = crate::strategy::strategy_root(
                        old(self).current_board,
                        old(self).player_human.opponent_spec(),
                    );
                    &&& crate::search_algorithm::alphabeta::root_cells(root.0, root.1, 0, ev, 0)
                        matches Some(kv)
                    &&& r matches Ok(mv)
                    &&& mv == Some((1u64 << kv.0))
                })),
    {
        let player = self.player_human.opponent();
        let next_position_result = match self.opponent_strategy {
            StrategyType::NumdiskLookahead => {
                let mut strategy = NumdiskLookaheadStrategy {  };
                strategy.get_next_move(&self.current_board, &player, self.history.len())
            },
            StrategyType::PatternLookahead1 => {
                let mut strategy = PatternLookahead1Strategy {  };
                strategy.get_next_move(&self.current_board, &player, self.history.len())
            },
        };
        let ghost pre = *self;
        match next_position_result {
            Ok((best_move_opt, _score)) => {
                let best_move = match best_move_opt {
                    Some(m) => m,
                    None => {
                        return Err(String::new());
                    },
                };
                proof {
                    if pre.opponent_strategy == StrategyType::PatternLookahead1 && has_legal_move(
                        pre.current_board.first,
                        pre.current_board.second,
                        pre.player_human.opponent_spec(),
                    ) {
                        let ev = choose|ev: crate::search_algorithm::base::Evaluator|
                            crate::strategy::zero_table_evaluator(ev)
                                && crate::strategy::pattern_decision(
                                pre.current_board,
                                pre.player_human.opponent_spec(),
                                ev,
                                next_position_result,
                            );
                        assert(crate::strategy::zero_table_evaluator(ev) && ({
                            let root = crate::strategy::strategy_root(
                                pre.current_board,
                                pre.player_human.opponent_spec(),
                            );
                            &&& crate::search_algorithm::alphabeta::root_cells(
                                root.0,
                                root.1,
                                0,
                                ev,
                                0,
                            ) matches Some(kv)
                            &&& best_move == (1u64 << kv.0)
                        }));
                    }
                }
                proof {
                    let k = choose|k: int|
                        0 <= k < 64 && best_move == (1u64 << k) && cell_legal(
                            self.current_board.first,
                            self.current_board.second,
                            player,
                            k,
                        );
                    lemma_single_bit(k as u64);
                }
                let (_player, put_position) = self.current_board.put_and_reverse(&player, best_move);
                self.history.push(put_position);
                Ok(Some(best_move))
            },
            Err(msg) => {
                let mut full = String::new();
                full.append("Skipped because: ");
                full.append(msg.as_str());
                proof {
                    reveal_strlit("Skipped because: ");
                    reveal_strlit("Result of alpha-beta pruning search is empty");
                    reveal_strlit("Skipped because: Result of alpha-beta pruning search is empty");
                    assert(full@ =~= "Skipped because: Result of alpha-beta pruning search is empty"@);
                }
                Err(full)
            },
        }
    }

    /// The per-cell flip counts of the given side on the current board.
    #[allow(non_snake_case)]
    pub fn getCurrentAllLegalPosition(&self, player: Player) -> (r: Vec<u64>)
        ensures
            r@.len() == 64,
            forall|i: int|
                0 <= i < 64 ==> #[trigger] r@[i] == crate::board::pop64(
                    crate::board::move_flips(
                        self.current_board.first,
                        self.current_board.second,
                        player,
                        (1u64 << i),
                    ),
                ),
    {
        self.current_board.getAllLegalPosition(player)
    }
}

} // verus!
