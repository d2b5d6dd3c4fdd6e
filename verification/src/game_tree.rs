use vstd::prelude::*;

use crate::board::{
    board_after_move, cell_legal, disjoint, has_legal_move, legal_count_from,
    lemma_apply_move_preserves_disjointness, lemma_has_legal_from_exists, lemma_single_bit,
    move_flips, Board,
};
use crate::player::Player;
use crate::search_algorithm::alphabeta::{
    better_root, lemma_alpha_beta_equals_negamax, lemma_better_root_assoc, negamax, AlphaBeta,
};
use crate::search_algorithm::base::{Evaluator, SCORE_INF};

verus! {

/// A node of the explored game tree: the side to move on `current_board`,
/// the move that led here (`None` for a pass), and the score found for the
/// parent's side.
#[derive(Debug)]
pub struct GameTreeNode {
    pub player: Player,
    pub put_position: Option<u64>,
    pub current_board: Board,
    pub score: Option<i64>,
    pub children: Vec<GameTreeNode>,
}

impl GameTreeNode {
    pub fn create(player: Player, put_position: u64, current_board: Board) -> (r: GameTreeNode)
        ensures
            r.player == player,
            r.put_position == Some(put_position),
            r.current_board == current_board,
            r.score is None,
            r.children@.len() == 0,
    {
        GameTreeNode { player, put_position: Some(put_position), current_board, score: None, children: Vec::new() }
    }
}

/// The root decision of the tree search: each legal cell of `player` at or
/// after `k` is scored by the disc-count minimax of its child position one
/// move shallower, and the first cell with the maximal score is chosen.
pub open spec fn gt_root_cells(f: u64, s: u64, player: Player, depth: nat, k: int) -> Option<
    (int, int),
>
    decreases 64 - k,
{
    if k < 0 || k >= 64 {
        Option::None
    } else if cell_legal(f, s, player, k) {
        let child = board_after_move(f, s, player, (1u64 << k));
        let v = -negamax(
            child.0,
            child.1,
            player.opponent_spec(),
            false,
            (depth - 1) as nat,
            Evaluator::DiscCount,
        );
        better_root(Option::Some((k, v)), gt_root_cells(f, s, player, depth, k + 1))
    } else {
        gt_root_cells(f, s, player, depth, k + 1)
    }
}

/// A game tree rooted at one position with one side to move; its children
/// are filled and scored by the search.
pub struct GameTree {
    pub root_board: Board,
    pub player: Player,
    pub children: Vec<GameTreeNode>,
}

impl GameTree {
    pub fn create(player: Player, root_board: Board) -> (r: GameTree)
        ensures
            r.player == player,
            r.root_board == root_board,
            r.children@.len() == 0,
    {
        GameTree { root_board, player, children: Vec::new() }
    }

    /// Scores every root move of the tree's side by an exhaustive-window
    /// alpha-beta search of `depth` moves under the disc-count evaluation
    /// and returns the best child: the first highest-scoring move, or the
    /// pass node scoring the opponent's best continuation when the side has
    /// no move.  The scored children stay in the tree.
    pub fn alpha_beta_pruning_search(&mut self, depth: u64) -> (r: Option<GameTreeNode>)
        requires
            1 <= depth,
            disjoint(old(self).root_board.first, old(self).root_board.second),
        ensures
            final(self).root_board == old(self).root_board,
            final(self).player == old(self).player,
            !has_legal_move(
                old(self).root_board.first,
                old(self).root_board.second,
                old(self).player,
            ) ==> final(self).children@.len() == old(self).children@.len() + 1,
            has_legal_move(
                old(self).root_board.first,
                old(self).root_board.second,
                old(self).player,
            ) ==> final(self).children@.len() == old(self).children@.len() + legal_count_from(
                old(self).root_board.first,
                old(self).root_board.second,
                old(self).player,
                0,
            ),
            forall|c: int|
                old(self).children@.len() <= c < final(self).children@.len()
                    ==> #[trigger] final(self).children@[c].player == old(
                    self,
                ).player.opponent_spec() && final(self).children@[c].score is Some,
            r matches Some(node) && node.player == old(self).player.opponent_spec(),
            !has_legal_move(
                old(self).root_board.first,
                old(self).root_board.second,
                old(self).player,
            ) ==> ({
                &&& r matches Some(node)
                &&& node.put_position is None
                &&& node.current_board == old(self).root_board
                &&& node.score matches Some(sc)
                &&& sc as int == -negamax(
                    old(self).root_board.first,
                    old(self).root_board.second,
                    old(self).player.opponent_spec(),
                    true,
                    (depth - 1) as nat,
                    Evaluator::DiscCount,
                )
            }),
            has_legal_move(
                old(self).root_board.first,
                old(self).root_board.second,
                old(self).player,
            ) ==> ({
                &&& gt_root_cells(
                    old(self).root_board.first,
                    old(self).root_board.second,
                    old(self).player,
                    depth as nat,
                    0,
                ) matches Some(kv)
                &&& r matches Some(node)
                &&& node.put_position == Some((1u64 << kv.0))
                &&& node.score matches Some(sc)
                &&& sc as int == kv.1
                &&& (node.current_board.first, node.current_board.second) == board_after_move(
                    old(self).root_board.first,
                    old(self).root_board.second,
                    old(self).player,
                    (1u64 << kv.0),
                )
            }),
    {
        let ghost f = self.root_board.first;
        let ghost s = self.root_board.second;
        let player = self.player;
        let opponent = player.opponent();
        let mut searcher = AlphaBeta::create(usize::MAX, Evaluator::DiscCount);
        let legal_moves = self.root_board.get_all_legal_moves(&player);
        if legal_moves.len() == 0 {
            // The side to move passes: score the opponent's continuation on
            // the same board and report an explicit pass node.
            let (child_value, _moves) = searcher.search_inner(
                None,
                &opponent,
                &self.root_board,
                depth - 1,
                -SCORE_INF,
                SCORE_INF,
            );
            proof {
                lemma_alpha_beta_equals_negamax(f, s, opponent, true, (depth - 1) as nat, Evaluator::DiscCount);
            }
            let node = GameTreeNode {
                player: opponent,
                put_position: None,
                current_board: self.root_board.clone(),
                score: Some(-child_value),
                children: Vec::new(),
            };
            let reported = GameTreeNode {
                player: opponent,
                put_position: None,
                current_board: self.root_board.clone(),
                score: Some(-child_value),
                children: Vec::new(),
            };
            self.children.push(node);
            Some(reported)
        } else {
            let mut best: Option<(u64, i64, Board)> = None;
            let ghost mut best_k: int = 0;
            let mut k: u64 = 0;
            while k < 64
                invariant
                    0 <= k <= 64,
                    self.root_board == old(self).root_board,
                    self.player == old(self).player,
                    player == old(self).player,
                    opponent == old(self).player.opponent_spec(),
                    searcher.evaluator == Evaluator::DiscCount,
                    searcher.max_n_leaves == usize::MAX,
                    best is Some <==> exists|j: int| 0 <= j < k && cell_legal(f, s, player, j),
                    self.children@.len() == old(self).children@.len() + legal_count_from(
                        f,
                        s,
                        player,
                        0,
                    ) - legal_count_from(f, s, player, k as int),
                    forall|c: int|
                        old(self).children@.len() <= c < self.children@.len()
                            ==> #[trigger] self.children@[c].player == opponent
                            && self.children@[c].score is Some,
                    best matches Some(b) ==> 0 <= best_k < 64 && b.0 == (1u64 << best_k)
                        && cell_legal(f, s, player, best_k) && (b.2.first, b.2.second)
                        == board_after_move(f, s, player, b.0) && -SCORE_INF <= b.1 <= SCORE_INF,
                    better_root(
                        match best {
                            Some(b) => Option::Some((best_k, b.1 as int)),
                            None => Option::None,
                        },
                        gt_root_cells(f, s, player, depth as nat, k as int),
                    ) == gt_root_cells(f, s, player, depth as nat, 0),
                decreases 64 - k,
            {
                let pos = 1u64 << k;
                let (current, opp_discs) = match player {
                    Player::First => (self.root_board.first, self.root_board.second),
                    Player::Second => (self.root_board.second, self.root_board.first),
                };
                let rp = self.root_board.get_reverse_pattern(current, opp_discs, pos);
                proof {
                    assert(rp == move_flips(f, s, player, pos));
                }
                if rp != 0 {
                    let ghost pre_acc: Option<(int, int)> = match best {
                        Some(b) => Option::Some((best_k, b.1 as int)),
                        None => Option::None,
                    };
                    proof {
                        lemma_single_bit(k);
                        lemma_apply_move_preserves_disjointness(f, s, player, pos);
                    }
                    let mut current_board = self.root_board.clone();
                    current_board.put_and_reverse(&player, pos);
                    let (child_value, _moves) = searcher.search_inner(
                        Some(pos),
                        &opponent,
                        &current_board,
                        depth - 1,
                        -SCORE_INF,
                        SCORE_INF,
                    );
                    proof {
                        lemma_alpha_beta_equals_negamax(
                            current_board.first,
                            current_board.second,
                            opponent,
                            false,
                            (depth - 1) as nat,
                            Evaluator::DiscCount,
                        );
                    }
                    let child_score = -child_value;
                    let child = GameTreeNode {
                        player: opponent,
                        put_position: Some(pos),
                        current_board: current_board.clone(),
                        score: Some(child_score),
                        children: Vec::new(),
                    };
                    self.children.push(child);
                    let improved: bool = match &best {
                        Some(b) if child_score <= b.1 => false,
                        _ => true,
                    };
                    if improved {
                        best = Some((pos, child_score, current_board));
                        proof {
                            best_k = k as int;
                        }
                    }
                    proof {
                        let vk = -(child_value as int);
                        let cur_acc: Option<(int, int)> = match best {
                            Some(b) => Option::Some((best_k, b.1 as int)),
                            None => Option::None,
                        };
                        assert(cur_acc == better_root(pre_acc, Option::Some((k as int, vk))));
                        let rc_next = gt_root_cells(f, s, player, depth as nat, k as int + 1);
                        assert(gt_root_cells(f, s, player, depth as nat, k as int) == better_root(
                            Option::Some((k as int, vk)),
                            rc_next,
                        ));
                        lemma_better_root_assoc(pre_acc, Option::Some((k as int, vk)), rc_next);
                    }
                }
                k = k + 1;
            }
            proof {
                lemma_has_legal_from_exists(f, s, player, 0);
            }
            match best {
                Some((pos, score, board)) => Some(
                    GameTreeNode {
                        player: opponent,
                        put_position: Some(pos),
                        current_board: board,
                        score: Some(score),
                        children: Vec::new(),
                    },
                ),
                None => None,
            }
        }
    }
}

} // verus!
