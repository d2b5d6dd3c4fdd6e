use vstd::prelude::*;

use crate::board::{
    board_after_move, cell_legal, disjoint, has_legal_move, legal_count_from,
    lemma_apply_move_preserves_disjointness, lemma_single_bit, move_flips, Board,
};
use crate::player::Player;
use crate::search_algorithm::base::{
    eval_spec, lemma_eval_bound, sort_leaves_desc, Evaluator, GameTreeLeaf, EVAL_BOUND, SCORE_INF,
};

verus! {

/// The board with every cell occupied: the game is over.
pub open spec fn board_full(f: u64, s: u64) -> bool {
    (f | s) == 0xffff_ffff_ffff_ffffu64
}

/// The plain minimax value of `(f, s)` with `player` to move, searched to
/// `depth` real moves, under evaluator `ev`.  A full board or exhausted
/// depth evaluates the leaf from the current side's view; a side without a
/// move passes, which costs no depth, and two passes in a row end the game;
/// otherwise the value is the best negated child value over all legal moves.
/// `passed` says whether the previous ply was a pass.
pub open spec fn negamax(f: u64, s: u64, player: Player, passed: bool, depth: nat, ev: Evaluator) -> int
    decreases depth, (if passed { 2int } else { 3int }), 0int,
{
    if board_full(f, s) || depth == 0 {
        eval_spec(ev, f, s, player)
    } else if !has_legal_move(f, s, player) {
        if passed {
            eval_spec(ev, f, s, player)
        } else {
            -negamax(f, s, player.opponent_spec(), true, depth, ev)
        }
    } else {
        match nm_cells(f, s, player, depth, ev, 0) {
            Some(v) => v,
            None => eval_spec(ev, f, s, player),
        }
    }
}

/// The best negated child value over the legal cells at or after `k`, or
/// `None` when no cell from `k` on is legal.
pub open spec fn nm_cells(f: u64, s: u64, player: Player, depth: nat, ev: Evaluator, k: int) -> Option<
    int,
>
    decreases depth, 1int, 64 - k,
{
    if depth == 0 || k < 0 || k >= 64 {
        None
    } else if cell_legal(f, s, player, k) {
        let child = board_after_move(f, s, player, (1u64 << k));
        let v = -negamax(child.0, child.1, player.opponent_spec(), false, (depth - 1) as nat, ev);
        match nm_cells(f, s, player, depth, ev, k + 1) {
            None => Some(v),
            Some(w) => Some(
                if v >= w {
                    v
                } else {
                    w
                },
            ),
        }
    } else {
        nm_cells(f, s, player, depth, ev, k + 1)
    }
}

/// The alpha-beta value of the same position: what the pruned search
/// computes inside the window `(alpha, beta)`.
pub open spec fn ab(
    f: u64,
    s: u64,
    player: Player,
    passed: bool,
    depth: nat,
    alpha: int,
    beta: int,
    ev: Evaluator,
) -> int
    decreases depth, (if passed { 2int } else { 3int }), 0int,
{
    if board_full(f, s) || depth == 0 {
        eval_spec(ev, f, s, player)
    } else if !has_legal_move(f, s, player) {
        if passed {
            eval_spec(ev, f, s, player)
        } else {
            let cs = ab(f, s, player.opponent_spec(), true, depth, -beta, -alpha, ev);
            if alpha < -cs {
                -cs
            } else {
                alpha
            }
        }
    } else {
        ab_cells(f, s, player, depth, alpha, beta, ev, 0)
    }
}

/// The move loop of the pruned search: walks the cells from `k` on in order,
/// raising `alpha` to each negated child value that beats it and stopping as
/// soon as `alpha` reaches `beta`.
pub open spec fn ab_cells(
    f: u64,
    s: u64,
    player: Player,
    depth: nat,
    alpha: int,
    beta: int,
    ev: Evaluator,
    k: int,
) -> int
    decreases depth, 1int, 64 - k,
{
    if depth == 0 || k < 0 || k >= 64 {
        alpha
    } else if cell_legal(f, s, player, k) {
        let child = board_after_move(f, s, player, (1u64 << k));
        let c = ab(
            child.0,
            child.1,
            player.opponent_spec(),
            false,
            (depth - 1) as nat,
            -beta,
            -alpha,
            ev,
        );
        let a2 = if alpha < -c {
            -c
        } else {
            alpha
        };
        if a2 >= beta {
            a2
        } else {
            ab_cells(f, s, player, depth, a2, beta, ev, k + 1)
        }
    } else {
        ab_cells(f, s, player, depth, alpha, beta, ev, k + 1)
    }
}

/// The move list the pruned search reports at this node: the moves of the
/// best line found, deepest move first, ended by the move chosen here --
/// `Some(cell)` for a placed disc, `None` after a pass or when no child beat
/// the window's lower edge.  The node's value on the same arguments is `ab`.
pub open spec fn ab_line(
    f: u64,
    s: u64,
    player: Player,
    passed: bool,
    depth: nat,
    alpha: int,
    beta: int,
    ev: Evaluator,
) -> Seq<Option<u64>>
    decreases depth, (if passed { 2int } else { 3int }), 0int,
{
    if board_full(f, s) || depth == 0 {
        Seq::empty()
    } else if !has_legal_move(f, s, player) {
        if passed {
            seq![Option::<u64>::None]
        } else {
            let cs = ab(f, s, player.opponent_spec(), true, depth, -beta, -alpha, ev);
            if alpha < -cs {
                ab_line(f, s, player.opponent_spec(), true, depth, -beta, -alpha, ev).push(
                    Option::None,
                )
            } else {
                seq![Option::<u64>::None]
            }
        }
    } else {
        ab_line_cells(f, s, player, depth, alpha, beta, ev, 0, Option::None, Seq::empty())
    }
}

/// The move-loop of the reported line: from loop state (`chosen`, `line`)
/// at cell `k`, every child that raises the window replaces the state with
/// its own cell and line, and the loop ends by appending the chosen move.
pub open spec fn ab_line_cells(
    f: u64,
    s: u64,
    player: Player,
    depth: nat,
    alpha: int,
    beta: int,
    ev: Evaluator,
    k: int,
    chosen: Option<u64>,
    line: Seq<Option<u64>>,
) -> Seq<Option<u64>>
    decreases depth, 1int, 64 - k,
{
    if depth == 0 || k < 0 || k >= 64 {
        line.push(chosen)
    } else if cell_legal(f, s, player, k) {
        let child = board_after_move(f, s, player, (1u64 << k));
        let c = ab(
            child.0,
            child.1,
            player.opponent_spec(),
            false,
            (depth - 1) as nat,
            -beta,
            -alpha,
            ev,
        );
        if alpha < -c {
            let line2 = ab_line(
                child.0,
                child.1,
                player.opponent_spec(),
                false,
                (depth - 1) as nat,
                -beta,
                -alpha,
                ev,
            );
            if -c >= beta {
                line2.push(Some((1u64 << k)))
            } else {
                ab_line_cells(f, s, player, depth, -c, beta, ev, k + 1, Some((1u64 << k)), line2)
            }
        } else {
            ab_line_cells(f, s, player, depth, alpha, beta, ev, k + 1, chosen, line)
        }
    } else {
        ab_line_cells(f, s, player, depth, alpha, beta, ev, k + 1, chosen, line)
    }
}

/// A reported move list read from the other end, root move first.
pub open spec fn moves_reversed(s: Seq<Option<u64>>) -> Seq<Option<u64>> {
    Seq::new(s.len(), |i: int| s[s.len() - 1 - i])
}

/// Of two candidate root moves, the one with the higher score; the earlier
/// cell wins a tie.
pub open spec fn better_root(a: Option<(int, int)>, b: Option<(int, int)>) -> Option<(int, int)> {
    match (a, b) {
        (Option::None, bb) => bb,
        (Option::Some(x), Option::None) => Option::Some(x),
        (Option::Some(x), Option::Some(y)) => if y.1 > x.1 {
            Option::Some(y)
        } else {
            Option::Some(x)
        },
    }
}

/// The root decision over the legal cells at or after `k`: each root move is
/// scored by a full-window child search of `depth` further moves, and the
/// first cell with the maximal score is chosen.
pub open spec fn root_cells(f: u64, s: u64, depth: nat, ev: Evaluator, k: int) -> Option<(int, int)>
    decreases 64 - k,
{
    if k < 0 || k >= 64 {
        Option::None
    } else if cell_legal(f, s, Player::First, k) {
        let child = board_after_move(f, s, Player::First, (1u64 << k));
        let v = -negamax(child.0, child.1, Player::Second, false, depth, ev);
        better_root(Option::Some((k, v)), root_cells(f, s, depth, ev, k + 1))
    } else {
        root_cells(f, s, depth, ev, k + 1)
    }
}

proof fn lemma_nm_cells_some(f: u64, s: u64, player: Player, depth: nat, ev: Evaluator, k: int)
    requires
        1 <= depth,
        0 <= k <= 64,
    ensures
        nm_cells(f, s, player, depth, ev, k) is Some <==> crate::board::has_legal_from(
            f,
            s,
            player,
            k,
        ),
    decreases 64 - k,
{
    if k < 64 {
        lemma_nm_cells_some(f, s, player, depth, ev, k + 1);
    }
}

proof fn lemma_child_disjoint(f: u64, s: u64, player: Player, k: int)
    requires
        disjoint(f, s),
        0 <= k < 64,
        cell_legal(f, s, player, k),
    ensures
        ({
            let child = board_after_move(f, s, player, (1u64 << k));
            disjoint(child.0, child.1)
        }),
{
    lemma_single_bit(k as u64);
    lemma_apply_move_preserves_disjointness(f, s, player, (1u64 << k));
}

proof fn lemma_negamax_bound(f: u64, s: u64, player: Player, passed: bool, depth: nat, ev: Evaluator)
    requires
        ev.wf(),
        disjoint(f, s),
    ensures
        -EVAL_BOUND <= negamax(f, s, player, passed, depth, ev) <= EVAL_BOUND,
    decreases depth, (if passed {
        2int
    } else {
        3int
    }), 65int,
{
    if board_full(f, s) || depth == 0 {
        lemma_eval_bound(ev, f, s, player);
    } else if !has_legal_move(f, s, player) {
        if passed {
            lemma_eval_bound(ev, f, s, player);
        } else {
            lemma_negamax_bound(f, s, player.opponent_spec(), true, depth, ev);
        }
    } else {
        lemma_nm_cells_bound(f, s, player, depth, ev, 0);
        lemma_eval_bound(ev, f, s, player);
    }
}

proof fn lemma_nm_cells_bound(f: u64, s: u64, player: Player, depth: nat, ev: Evaluator, k: int)
    requires
        ev.wf(),
        disjoint(f, s),
        0 <= k <= 64,
        1 <= depth,
    ensures
        nm_cells(f, s, player, depth, ev, k) matches Some(w) ==> -EVAL_BOUND <= w <= EVAL_BOUND,
    decreases depth, 1int, 64 - k,
{
    if k < 64 {
        if cell_legal(f, s, player, k) {
            let child = board_after_move(f, s, player, (1u64 << k));
            lemma_child_disjoint(f, s, player, k);
            lemma_negamax_bound(child.0, child.1, player.opponent_spec(), false, (depth - 1) as nat, ev);
        }
        lemma_nm_cells_bound(f, s, player, depth, ev, k + 1);
    }
}

/// The window guarantee of the pruned search: a value that stays inside the
/// open window `(alpha, beta)` is the exact minimax value, a value at a
/// window edge bounds it from the matching side.
proof fn lemma_ab_window(
    f: u64,
    s: u64,
    player: Player,
    passed: bool,
    depth: nat,
    alpha: int,
    beta: int,
    ev: Evaluator,
)
    requires
        alpha < beta,
    ensures
        ({
            let v = ab(f, s, player, passed, depth, alpha, beta, ev);
            let nm = negamax(f, s, player, passed, depth, ev);
            &&& (v < beta ==> nm <= v)
            &&& (alpha < v ==> nm >= v)
        }),
    decreases depth, (if passed {
        2int
    } else {
        3int
    }), 65int,
{
    let v = ab(f, s, player, passed, depth, alpha, beta, ev);
    let nm = negamax(f, s, player, passed, depth, ev);
    if board_full(f, s) || depth == 0 {
    } else if !has_legal_move(f, s, player) {
        if passed {
        } else {
            let opp = player.opponent_spec();
            let cs = ab(f, s, opp, true, depth, -beta, -alpha, ev);
            let nmc = negamax(f, s, opp, true, depth, ev);
            lemma_ab_window(f, s, player.opponent_spec(), true, depth, -beta, -alpha, ev);
            // v == max(alpha, -cs); nm == -nmc.
            if v < beta {
                if alpha < -cs {
                    // v == -cs < beta, so -beta < cs: the child value rose
                    // above its own alpha, hence nmc >= cs.
                    assert(cs > -beta);
                    assert(nmc >= cs);
                } else {
                    // v == alpha < beta, so cs >= -alpha, the child's beta;
                    // the child still rose above its alpha -beta < cs.
                    assert(cs >= -alpha);
                    assert(cs > -beta);
                    assert(nmc >= cs);
                }
            }
            if alpha < v {
                // v == -cs with cs below the child's beta -alpha.
                assert(v == -cs);
                assert(cs < -alpha);
                assert(nmc <= cs);
            }
        }
    } else {
        lemma_nm_cells_some(f, s, player, depth, ev, 0);
        lemma_ab_cells_window(f, s, player, depth, alpha, beta, ev, 0);
    }
}

proof fn lemma_ab_cells_window(
    f: u64,
    s: u64,
    player: Player,
    depth: nat,
    alpha: int,
    beta: int,
    ev: Evaluator,
    k: int,
)
    requires
        alpha < beta,
        1 <= depth,
        0 <= k <= 64,
    ensures
        ({
            let v = ab_cells(f, s, player, depth, alpha, beta, ev, k);
            let rest = nm_cells(f, s, player, depth, ev, k);
            &&& alpha <= v
            &&& (v < beta ==> match rest {
                Option::Some(w) => w <= v,
                Option::None => v == alpha,
            })
            &&& (alpha < v ==> (rest matches Some(w) && v <= w))
        }),
    decreases depth, 1int, 64 - k,
{
    let v = ab_cells(f, s, player, depth, alpha, beta, ev, k);
    let rest = nm_cells(f, s, player, depth, ev, k);
    if k >= 64 {
    } else if cell_legal(f, s, player, k) {
        let child = board_after_move(f, s, player, (1u64 << k));
        let opp = player.opponent_spec();
        let c = ab(child.0, child.1, opp, false, (depth - 1) as nat, -beta, -alpha, ev);
        let nmc = negamax(child.0, child.1, opp, false, (depth - 1) as nat, ev);
        let vk = -nmc;
        lemma_ab_window(child.0, child.1, opp, false, (depth - 1) as nat, -beta, -alpha, ev);
        let a2 = if alpha < -c {
            -c
        } else {
            alpha
        };
        if a2 >= beta {
            // Cutoff: the child value reached beta, and the true child value
            // is at least as high.
            assert(a2 == -c);
            assert(c <= -beta);
            assert(c < -alpha);
            assert(nmc <= c);
            assert(vk >= a2);
            assert(v == a2);
            match rest {
                Option::Some(w) => {
                    assert(w >= vk);
                },
                Option::None => {},
            }
        } else {
            lemma_ab_cells_window(f, s, player, depth, a2, beta, ev, k + 1);
            let rest2 = nm_cells(f, s, player, depth, ev, k + 1);
            assert(v == ab_cells(f, s, player, depth, a2, beta, ev, k + 1));
            // vk relates to a2: either the child improved nothing and its
            // true value is at most alpha, or it set a2 == -c exactly.
            if alpha < -c {
                // a2 == -c < beta, so -beta < c; and c < -alpha was needed
                // for the raise, so the child value is exact here.
                assert(c < -alpha);
                assert(c > -beta);
                assert(nmc <= c && nmc >= c);
                assert(vk == a2);
            } else {
                // a2 == alpha, and c >= -alpha > -beta, so nmc >= c >= -alpha.
                assert(c >= -alpha);
                assert(c > -beta);
                assert(nmc >= c);
                assert(vk <= alpha);
            }
            if v < beta {
                match rest2 {
                    Option::Some(w2) => {
                        assert(w2 <= v);
                        assert(vk <= v);
                    },
                    Option::None => {
                        assert(v == a2);
                        assert(vk <= v);
                    },
                }
            }
            if alpha < v {
                if a2 < v {
                    assert(rest2 matches Some(w2) && v <= w2);
                } else {
                    assert(v == a2);
                    assert(alpha < a2);
                    assert(vk == a2);
                }
            }
        }
    } else {
        lemma_ab_cells_window(f, s, player, depth, alpha, beta, ev, k + 1);
    }
}

/// Alpha-beta equals minimax: searched over the full window, the pruned
/// value of any position, side, pass state, depth and evaluator is exactly
/// the unpruned minimax value of the same position.
pub proof fn lemma_alpha_beta_equals_negamax(
    f: u64,
    s: u64,
    player: Player,
    passed: bool,
    depth: nat,
    ev: Evaluator,
)
    requires
        ev.wf(),
        disjoint(f, s),
    ensures
        ab(f, s, player, passed, depth, -(SCORE_INF as int), SCORE_INF as int, ev) == negamax(
            f,
            s,
            player,
            passed,
            depth,
            ev,
        ),
{
    let v = ab(f, s, player, passed, depth, -(SCORE_INF as int), SCORE_INF as int, ev);
    let nm = negamax(f, s, player, passed, depth, ev);
    lemma_ab_window(f, s, player, passed, depth, -(SCORE_INF as int), SCORE_INF as int, ev);
    lemma_negamax_bound(f, s, player, passed, depth, ev);
    if v >= SCORE_INF as int {
        assert(nm >= v);
        assert(false);
    }
    if v <= -(SCORE_INF as int) {
        assert(nm <= v);
        assert(false);
    }
}

/// The leaf records the searched line of root move `kk` on `(f, s)`: its
/// moves are the reported line of the move's full-window child search, read
/// root move first, and its score is the child's negated minimax value.
pub open spec fn leaf_records_root_move(
    leaf: GameTreeLeaf,
    f: u64,
    s: u64,
    depth: nat,
    ev: Evaluator,
    kk: int,
) -> bool {
    let child = board_after_move(f, s, Player::First, (1u64 << kk));
    &&& leaf.player == Player::First
    &&& leaf.score as int == -negamax(child.0, child.1, Player::Second, false, depth, ev)
    &&& leaf.moves@ == moves_reversed(
        ab_line(
            child.0,
            child.1,
            Player::Second,
            false,
            depth,
            -(SCORE_INF as int),
            SCORE_INF as int,
            ev,
        ).push(Some((1u64 << kk))),
    )
}

/// The leaf records the forced-pass line of `(f, s)`: the pass first, then
/// the reported line of the opponent's full-window search of the same board.
pub open spec fn leaf_records_pass(leaf: GameTreeLeaf, f: u64, s: u64, depth: nat, ev: Evaluator) -> bool {
    &&& leaf.player == Player::First
    &&& leaf.score as int == -negamax(f, s, Player::Second, true, depth, ev)
    &&& leaf.moves@ == moves_reversed(
        ab_line(f, s, Player::Second, true, depth, -(SCORE_INF as int), SCORE_INF as int, ev).push(
            Option::None,
        ),
    )
}

/// Alpha-beta searcher for the side `Player::First` on the given board: a
/// leaf budget, the count of leaves evaluated so far, the best root lines
/// found, and the leaf evaluator.
pub struct AlphaBeta {
    pub max_n_leaves: usize,
    pub n_evaluated_leaves: usize,
    pub best_leaves: Vec<GameTreeLeaf>,
    pub evaluator: Evaluator,
}

impl AlphaBeta {
    pub fn create(max_n_leaves: usize, evaluator: Evaluator) -> (r: AlphaBeta)
        ensures
            r.max_n_leaves == max_n_leaves,
            r.n_evaluated_leaves == 0,
            r.best_leaves@.len() == 0,
            r.evaluator == evaluator,
    {
        AlphaBeta { max_n_leaves, n_evaluated_leaves: 0, best_leaves: Vec::new(), evaluator }
    }

    pub fn n_evaluated_leaves(&self) -> (r: usize)
        ensures
            r == self.n_evaluated_leaves,
    {
        self.n_evaluated_leaves
    }

    pub fn best_leaves(&self) -> (r: Vec<GameTreeLeaf>)
        ensures
            r@.len() == self.best_leaves@.len(),
            forall|i: int|
                0 <= i < r@.len() ==> #[trigger] r@[i].player == self.best_leaves@[i].player
                    && r@[i].score == self.best_leaves@[i].score && r@[i].moves@
                    == self.best_leaves@[i].moves@,
    {
        let mut out: Vec<GameTreeLeaf> = Vec::new();
        let n = self.best_leaves.len();
        let mut i: usize = 0;
        while i < n
            invariant
                0 <= i <= n,
                n == self.best_leaves@.len(),
                out@.len() == i,
                forall|j: int|
                    0 <= j < i ==> #[trigger] out@[j].player == self.best_leaves@[j].player
                        && out@[j].score == self.best_leaves@[j].score && out@[j].moves@
                        == self.best_leaves@[j].moves@,
            decreases n - i,
        {
            let leaf = GameTreeLeaf {
                player: self.best_leaves[i].player,
                score: self.best_leaves[i].score,
                moves: self.best_leaves[i].moves.clone(),
            };
            out.push(leaf);
            i = i + 1;
        }
        out
    }

    fn increment_n_evaluated_leaves(&mut self)
        ensures
            final(self).n_evaluated_leaves == if old(self).n_evaluated_leaves < usize::MAX {
                old(self).n_evaluated_leaves + 1
            } else {
                old(self).n_evaluated_leaves as int
            },
            old(self).n_evaluated_leaves <= final(self).n_evaluated_leaves,
            final(self).max_n_leaves == old(self).max_n_leaves,
            final(self).best_leaves == old(self).best_leaves,
            final(self).evaluator == old(self).evaluator,
    {
        if self.n_evaluated_leaves < usize::MAX {
            self.n_evaluated_leaves = self.n_evaluated_leaves + 1;
        }
    }

    /// The leaf score of `board` from `player`'s view under this searcher's
    /// evaluator.
    fn evaluate_board(&self, board: &Board, player: &Player) -> (r: i64)
        requires
            self.evaluator.wf(),
            disjoint(board.first, board.second),
        ensures
            r == eval_spec(self.evaluator, board.first, board.second, *player),
            -EVAL_BOUND <= r <= EVAL_BOUND,
    {
        proof {
            lemma_eval_bound(self.evaluator, board.first, board.second, *player);
        }
        match &self.evaluator {
            Evaluator::DiscCount => board.score_numdisk(*player),
            Evaluator::Pattern(table) => {
                let indices = crate::bitboard::extract_pattern_instance_indices(board, player);
                proof {
                    crate::search_algorithm::base::lemma_feature_seq_in_bounds(
                        board.first,
                        board.second,
                        *player,
                    );
                    assert(indices@ =~= crate::search_algorithm::base::feature_seq(
                        board.first,
                        board.second,
                        *player,
                    ));
                }
                Board::calculate_pattern_score(indices, table)
            },
        }
    }

    /// One node of the pruned search: `player` to move on `board` inside the
    /// window `(alpha, beta)`, `last_move` `None` when the previous ply
    /// passed.  Returns the node value and the move list of the best leaf
    /// line below it, deepest move first.  When the leaf budget was not
    /// exhausted, the value is exactly the `ab` value of this node.
    pub(crate) fn search_inner(
        &mut self,
        last_move: Option<u64>,
        player: &Player,
        board: &Board,
        remaining_depth: u64,
        alpha: i64,
        beta: i64,
    ) -> (r: (i64, Vec<Option<u64>>))
        requires
            old(self).evaluator.wf(),
            disjoint(board.first, board.second),
            -SCORE_INF <= alpha,
            alpha < beta,
            beta <= SCORE_INF,
        ensures
            final(self).evaluator == old(self).evaluator,
            final(self).max_n_leaves == old(self).max_n_leaves,
            final(self).best_leaves == old(self).best_leaves,
            old(self).n_evaluated_leaves <= final(self).n_evaluated_leaves,
            r.0 >= alpha || r.0 >= -EVAL_BOUND,
            r.0 <= beta || r.0 <= EVAL_BOUND,
            board_full(board.first, board.second) || remaining_depth == 0
                || old(self).n_evaluated_leaves > old(self).max_n_leaves ==> (r.0 == eval_spec(
                final(self).evaluator,
                board.first,
                board.second,
                *player,
            ) && final(self).n_evaluated_leaves == (if old(self).n_evaluated_leaves < usize::MAX {
                old(self).n_evaluated_leaves + 1
            } else {
                old(self).n_evaluated_leaves as int
            })),
            final(self).n_evaluated_leaves <= final(self).max_n_leaves ==> r.0 as int == ab(
                board.first,
                board.second,
                *player,
                last_move is None,
                remaining_depth as nat,
                alpha as int,
                beta as int,
                final(self).evaluator,
            ),
            final(self).n_evaluated_leaves <= final(self).max_n_leaves ==> r.1@ == ab_line(
                board.first,
                board.second,
                *player,
                last_move is None,
                remaining_depth as nat,
                alpha as int,
                beta as int,
                final(self).evaluator,
            ),
        decreases remaining_depth, (if last_move is Some {
            1int
        } else {
            0int
        }),
    {
        let ghost f = board.first;
        let ghost s = board.second;
        if board.is_full() || remaining_depth == 0 || self.n_evaluated_leaves > self.max_n_leaves {
            let score = self.evaluate_board(board, player);
            self.increment_n_evaluated_leaves();
            return (score, Vec::new());
        }
        let legal_moves = board.get_all_legal_moves(player);
        let mut best_current_move: Option<u64> = None;
        let mut best_leaf_moves: Vec<Option<u64>> = Vec::new();
        let mut cur_alpha: i64 = alpha;

        if legal_moves.len() == 0 {
            if last_move.is_some() {
                // The side to move must pass; the opponent answers on the
                // same board at the same depth.
                let (child_score, current_best_moves) = self.search_inner(
                    None,
                    &player.opponent(),
                    board,
                    remaining_depth,
                    -beta,
                    -cur_alpha,
                );
                if cur_alpha < -child_score {
                    cur_alpha = -child_score;
                    best_current_move = None;
                    best_leaf_moves = current_best_moves;
                }
            } else {
                // Two passes in a row: the position is terminal.
                cur_alpha = self.evaluate_board(board, player);
                self.increment_n_evaluated_leaves();
            }
        } else {
            let (current, opponent) = match player {
                Player::First => (board.first, board.second),
                Player::Second => (board.second, board.first),
            };
            let mut k: u64 = 0;
            while k < 64 && cur_alpha < beta
                invariant
                    0 <= k <= 64,
                    self.evaluator == old(self).evaluator,
                    self.max_n_leaves == old(self).max_n_leaves,
                    self.best_leaves == old(self).best_leaves,
                    old(self).n_evaluated_leaves <= self.n_evaluated_leaves,
                    alpha <= cur_alpha,
                    cur_alpha <= beta || cur_alpha <= EVAL_BOUND,
                    self.n_evaluated_leaves <= self.max_n_leaves ==> ab_cells(
                        f,
                        s,
                        *player,
                        remaining_depth as nat,
                        alpha as int,
                        beta as int,
                        self.evaluator,
                        0,
                    ) == (if cur_alpha < beta {
                        ab_cells(
                            f,
                            s,
                            *player,
                            remaining_depth as nat,
                            cur_alpha as int,
                            beta as int,
                            self.evaluator,
                            k as int,
                        )
                    } else {
                        cur_alpha as int
                    }),
                    self.n_evaluated_leaves <= self.max_n_leaves ==> ab_line_cells(
                        f,
                        s,
                        *player,
                        remaining_depth as nat,
                        alpha as int,
                        beta as int,
                        self.evaluator,
                        0,
                        Option::None,
                        Seq::empty(),
                    ) == (if cur_alpha < beta {
                        ab_line_cells(
                            f,
                            s,
                            *player,
                            remaining_depth as nat,
                            cur_alpha as int,
                            beta as int,
                            self.evaluator,
                            k as int,
                            best_current_move,
                            best_leaf_moves@,
                        )
                    } else {
                        best_leaf_moves@.push(best_current_move)
                    }),
                decreases 64 - k,
            {
                let pos = 1u64 << k;
                let rp = board.get_reverse_pattern(current, opponent, pos);
                proof {
                    assert(rp == move_flips(f, s, *player, pos));
                }
                if rp != 0 {
                    proof {
                        lemma_single_bit(k);
                        lemma_apply_move_preserves_disjointness(f, s, *player, pos);
                    }
                    let mut next_board = board.clone();
                    next_board.put_and_reverse(player, pos);
                    let (child_score, current_moves) = self.search_inner(
                        Some(pos),
                        &player.opponent(),
                        &next_board,
                        remaining_depth - 1,
                        -beta,
                        -cur_alpha,
                    );
                    if cur_alpha < -child_score {
                        cur_alpha = -child_score;
                        best_current_move = Some(pos);
                        best_leaf_moves = current_moves;
                    }
                }
                k = k + 1;
            }
        }
        best_leaf_moves.push(best_current_move);
        proof {
            assert(seq![Option::<u64>::None] =~= Seq::<Option<u64>>::empty().push(Option::None));
        }
        (cur_alpha, best_leaf_moves)
    }

    /// Searches the board for the best move of `Player::First` to `depth`
    /// further moves.  Returns `Some((Some(cell), score))` with the first
    /// best legal cell and its score, or `Some((None, score))` when the
    /// first player must pass, scoring the opponent's best continuation.
    /// When the leaf budget was not exhausted, the score is the exact
    /// minimax value and the cell the first cell attaining it.  One line per
    /// legal root move is recorded in `best_leaves`, best first, each
    /// annotated with its searched move sequence, passes included, and its
    /// root score.
    pub fn search(&mut self, initial_board: &Board, depth: u64) -> (r: Option<(Option<u64>, i64)>)
        requires
            old(self).evaluator.wf(),
            disjoint(initial_board.first, initial_board.second),
        ensures
            final(self).evaluator == old(self).evaluator,
            final(self).max_n_leaves == old(self).max_n_leaves,
            old(self).n_evaluated_leaves <= final(self).n_evaluated_leaves,
            r is Some,
            crate::search_algorithm::base::leaves_sorted_desc(final(self).best_leaves@),
            !has_legal_move(initial_board.first, initial_board.second, Player::First)
                ==> final(self).best_leaves@.len() == old(self).best_leaves@.len() + 1,
            has_legal_move(initial_board.first, initial_board.second, Player::First)
                ==> final(self).best_leaves@.len() == old(self).best_leaves@.len() + legal_count_from(
                initial_board.first,
                initial_board.second,
                Player::First,
                0,
            ),
            !has_legal_move(initial_board.first, initial_board.second, Player::First) ==> (r
                matches Some(p) && p.0 is None),
            has_legal_move(initial_board.first, initial_board.second, Player::First) ==> (r
                matches Some(p) && p.0 matches Some(m) && exists|k: int|
                0 <= k < 64 && m == (1u64 << k) && cell_legal(
                    initial_board.first,
                    initial_board.second,
                    Player::First,
                    k,
                )),
            final(self).n_evaluated_leaves <= final(self).max_n_leaves
                && !has_legal_move(initial_board.first, initial_board.second, Player::First) ==> (r
                matches Some(p) && p.1 as int == -negamax(
                initial_board.first,
                initial_board.second,
                Player::Second,
                true,
                depth as nat,
                final(self).evaluator,
            )),
            final(self).n_evaluated_leaves <= final(self).max_n_leaves && has_legal_move(
                initial_board.first,
                initial_board.second,
                Player::First,
            ) ==> (root_cells(
                initial_board.first,
                initial_board.second,
                depth as nat,
                final(self).evaluator,
                0,
            ) matches Some(kv) && r matches Some(p) && p.0 == Some((1u64 << kv.0)) && p.1 as int
                == kv.1),
            final(self).n_evaluated_leaves <= final(self).max_n_leaves && !has_legal_move(
                initial_board.first,
                initial_board.second,
                Player::First,
            ) ==> (exists|i: int|
                0 <= i < final(self).best_leaves@.len() && #[trigger] leaf_records_pass(
                    final(self).best_leaves@[i],
                    initial_board.first,
                    initial_board.second,
                    depth as nat,
                    final(self).evaluator,
                )),
            final(self).n_evaluated_leaves <= final(self).max_n_leaves && has_legal_move(
                initial_board.first,
                initial_board.second,
                Player::First,
            ) ==> (forall|kk: int|
                0 <= kk < 64 && #[trigger] cell_legal(
                    initial_board.first,
                    initial_board.second,
                    Player::First,
                    kk,
                ) ==> exists|i: int|
                    0 <= i < final(self).best_leaves@.len() && #[trigger] leaf_records_root_move(
                        final(self).best_leaves@[i],
                        initial_board.first,
                        initial_board.second,
                        depth as nat,
                        final(self).evaluator,
                        kk,
                    )),
    {
        let ghost f = initial_board.first;
        let ghost s = initial_board.second;
        let legal_moves = initial_board.get_all_legal_moves(&Player::First);
        if legal_moves.len() == 0 {
            let (child_score, mut leaf_moves) = self.search_inner(
                None,
                &Player::Second,
                initial_board,
                depth,
                -SCORE_INF,
                SCORE_INF,
            );
            proof {
                if self.n_evaluated_leaves <= self.max_n_leaves {
                    lemma_alpha_beta_equals_negamax(f, s, Player::Second, true, depth as nat, self.evaluator);
                }
            }
            leaf_moves.push(None);
            let leaf_moves = reverse_moves(leaf_moves);
            let leaf = GameTreeLeaf::create(Player::First, -child_score, leaf_moves);
            let ghost gleaf = leaf;
            self.best_leaves.push(leaf);
            let ghost pre_sort = self.best_leaves@;
            sort_leaves_desc(&mut self.best_leaves);
            proof {
                if self.n_evaluated_leaves <= self.max_n_leaves {
                    assert(leaf_records_pass(gleaf, f, s, depth as nat, self.evaluator));
                    assert(pre_sort[pre_sort.len() - 1] == gleaf);
                    assert(pre_sort.contains(gleaf));
                    assert(self.best_leaves@.contains(gleaf));
                    let i = choose|i: int|
                        0 <= i < self.best_leaves@.len() && self.best_leaves@[i] == gleaf;
                    assert(leaf_records_pass(
                        self.best_leaves@[i],
                        f,
                        s,
                        depth as nat,
                        self.evaluator,
                    ));
                }
            }
            Some((None, -child_score))
        } else {
            let mut node_max_score: Option<u64> = None;
            let mut max_score_opt: Option<i64> = None;
            let ghost mut best_k: int = 0;
            let mut k: u64 = 0;
            while k < 64
                invariant
                    0 <= k <= 64,
                    self.evaluator == old(self).evaluator,
                    self.evaluator.wf(),
                    self.max_n_leaves == old(self).max_n_leaves,
                    old(self).n_evaluated_leaves <= self.n_evaluated_leaves,
                    node_max_score is Some <==> max_score_opt is Some,
                    node_max_score is Some <==> exists|j: int|
                        0 <= j < k && cell_legal(f, s, Player::First, j),
                    self.best_leaves@.len() == old(self).best_leaves@.len() + legal_count_from(
                        f,
                        s,
                        Player::First,
                        0,
                    ) - legal_count_from(f, s, Player::First, k as int),
                    node_max_score matches Some(m) ==> 0 <= best_k < 64 && m == (1u64 << best_k)
                        && cell_legal(f, s, Player::First, best_k),
                    max_score_opt matches Some(ms) ==> -SCORE_INF <= ms <= SCORE_INF,
                    self.n_evaluated_leaves <= self.max_n_leaves ==> better_root(
                        match (node_max_score, max_score_opt) {
                            (Some(_), Some(ms)) => Option::Some((best_k, ms as int)),
                            _ => Option::None,
                        },
                        root_cells(f, s, depth as nat, self.evaluator, k as int),
                    ) == root_cells(f, s, depth as nat, self.evaluator, 0),
                    self.n_evaluated_leaves <= self.max_n_leaves ==> forall|j: int|
                        0 <= j < k && #[trigger] cell_legal(f, s, Player::First, j)
                            ==> exists|i: int|
                            0 <= i < self.best_leaves@.len() && #[trigger] leaf_records_root_move(
                                self.best_leaves@[i],
                                f,
                                s,
                                depth as nat,
                                self.evaluator,
                                j,
                            ),
                decreases 64 - k,
            {
                let pos = 1u64 << k;
                let rp = initial_board.get_reverse_pattern(
                    initial_board.first(),
                    initial_board.second(),
                    pos,
                );
                proof {
                    assert(rp == move_flips(f, s, Player::First, pos));
                }
                if rp != 0 {
                    let ghost pre_acc: Option<(int, int)> = match (node_max_score, max_score_opt) {
                        (Some(_), Some(ms)) => Option::Some((best_k, ms as int)),
                        _ => Option::None,
                    };
                    proof {
                        lemma_single_bit(k);
                        lemma_apply_move_preserves_disjointness(f, s, Player::First, pos);
                    }
                    let mut board = initial_board.clone();
                    board.put_and_reverse(&Player::First, pos);
                    let (child_score, mut leaf_moves) = self.search_inner(
                        Some(pos),
                        &Player::Second,
                        &board,
                        depth,
                        -SCORE_INF,
                        SCORE_INF,
                    );
                    proof {
                        if self.n_evaluated_leaves <= self.max_n_leaves {
                            lemma_alpha_beta_equals_negamax(
                                board.first,
                                board.second,
                                Player::Second,
                                false,
                                depth as nat,
                                self.evaluator,
                            );
                        }
                    }
                    leaf_moves.push(Some(pos));
                    let leaf_moves = reverse_moves(leaf_moves);
                    let leaf = GameTreeLeaf::create(Player::First, -child_score, leaf_moves);
                    let ghost gleaf = leaf;
                    let ghost pre_leaves = self.best_leaves@;
                    self.best_leaves.push(leaf);
                    proof {
                        if self.n_evaluated_leaves <= self.max_n_leaves {
                            assert(leaf_records_root_move(
                                gleaf,
                                f,
                                s,
                                depth as nat,
                                self.evaluator,
                                k as int,
                            ));
                            assert(self.best_leaves@[self.best_leaves@.len() - 1] == gleaf);
                            assert forall|j: int|
                                0 <= j < k + 1 && #[trigger] cell_legal(f, s, Player::First, j)
                                    implies exists|i: int|
                                    0 <= i < self.best_leaves@.len()
                                        && #[trigger] leaf_records_root_move(
                                        self.best_leaves@[i],
                                        f,
                                        s,
                                        depth as nat,
                                        self.evaluator,
                                        j,
                                    ) by {
                                if j < k {
                                    let i0 = choose|i0: int|
                                        0 <= i0 < pre_leaves.len() && leaf_records_root_move(
                                            pre_leaves[i0],
                                            f,
                                            s,
                                            depth as nat,
                                            self.evaluator,
                                            j,
                                        );
                                    assert(self.best_leaves@[i0] == pre_leaves[i0]);
                                    assert(leaf_records_root_move(
                                        self.best_leaves@[i0],
                                        f,
                                        s,
                                        depth as nat,
                                        self.evaluator,
                                        j,
                                    ));
                                } else {
                                    assert(leaf_records_root_move(
                                        self.best_leaves@[self.best_leaves@.len() - 1],
                                        f,
                                        s,
                                        depth as nat,
                                        self.evaluator,
                                        j,
                                    ));
                                }
                            }
                        }
                    }
                    let improved: bool = match max_score_opt {
                        Some(max_score) if -child_score <= max_score => false,
                        _ => true,
                    };
                    if improved {
                        max_score_opt = Some(-child_score);
                        node_max_score = Some(pos);
                        proof {
                            best_k = k as int;
                        }
                    }
                    proof {
                        let vk = -(child_score as int);
                        let cur_acc: Option<(int, int)> = match (node_max_score, max_score_opt) {
                            (Some(_), Some(ms)) => Option::Some((best_k, ms as int)),
                            _ => Option::None,
                        };
                        assert(cur_acc == better_root(pre_acc, Option::Some((k as int, vk))));
                        if self.n_evaluated_leaves <= self.max_n_leaves {
                            let rc_next = root_cells(f, s, depth as nat, self.evaluator, k as int + 1);
                            assert(root_cells(f, s, depth as nat, self.evaluator, k as int)
                                == better_root(Option::Some((k as int, vk)), rc_next));
                            lemma_better_root_assoc(pre_acc, Option::Some((k as int, vk)), rc_next);
                        }
                    }
                }
                k = k + 1;
            }
            let result = match (node_max_score, max_score_opt) {
                (Some(node), Some(score)) => Some((Some(node), score)),
                _ => None,
            };
            proof {
                crate::board::lemma_has_legal_from_exists(f, s, Player::First, 0);
            }
            let ghost pre_sort = self.best_leaves@;
            sort_leaves_desc(&mut self.best_leaves);
            proof {
                if self.n_evaluated_leaves <= self.max_n_leaves {
                    assert forall|kk: int|
                        0 <= kk < 64 && #[trigger] cell_legal(f, s, Player::First, kk)
                            implies exists|i: int|
                            0 <= i < self.best_leaves@.len() && #[trigger] leaf_records_root_move(
                                self.best_leaves@[i],
                                f,
                                s,
                                depth as nat,
                                self.evaluator,
                                kk,
                            ) by {
                        let i0 = choose|i0: int|
                            0 <= i0 < pre_sort.len() && leaf_records_root_move(
                                pre_sort[i0],
                                f,
                                s,
                                depth as nat,
                                self.evaluator,
                                kk,
                            );
                        let v = pre_sort[i0];
                        assert(pre_sort.contains(v));
                        assert(self.best_leaves@.contains(v));
                        let i = choose|i: int|
                            0 <= i < self.best_leaves@.len() && self.best_leaves@[i] == v;
                        assert(leaf_records_root_move(
                            self.best_leaves@[i],
                            f,
                            s,
                            depth as nat,
                            self.evaluator,
                            kk,
                        ));
                    }
                }
            }
            result
        }
    }
}

pub(crate) proof fn lemma_better_root_assoc(a: Option<(int, int)>, b: Option<(int, int)>, c: Option<(int, int)>)
    ensures
        better_root(better_root(a, b), c) == better_root(a, better_root(b, c)),
{
}

/// The same move list read from the other end: entry `i` of the result is
/// entry `len - 1 - i` of the input.
fn reverse_moves(v: Vec<Option<u64>>) -> (r: Vec<Option<u64>>)
    ensures
        r@.len() == v@.len(),
        forall|i: int| 0 <= i < v@.len() ==> #[trigger] r@[i] == v@[v@.len() - 1 - i],
        r@ == moves_reversed(v@),
{
    let n = v.len();
    let mut reversed: Vec<Option<u64>> = Vec::new();
    let mut i: usize = 0;
    while i < n
        invariant
            n == v@.len(),
            0 <= i <= n,
            reversed@.len() == i,
            forall|j: int| 0 <= j < i ==> #[trigger] reversed@[j] == v@[n - 1 - j],
        decreases n - i,
    {
        reversed.push(v[n - 1 - i]);
        i = i + 1;
    }
    proof {
        assert(reversed@ =~= moves_reversed(v@));
    }
    reversed
}

} // verus!
