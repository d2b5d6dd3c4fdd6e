use vstd::prelude::*;

use crate::bitboard::{
    feature_index_spec, lemma_feature_index_bound, lemma_offset_capacity, lemma_pattern_score_bound,
    offset_spec, pattern_score_spec, WeightTable, WEIGHT_TABLE_LEN,
};
use crate::board::disc_score_spec;
use crate::player::Player;

verus! {

/// A score bound no position can exceed under either evaluation: the
/// disc-count score stays within 64, and a pattern score within 44 weights
/// of bounded magnitude.
pub const EVAL_BOUND: i64 = 44_000_000_000;

/// The sentinel search window bound, strictly wider than any reachable score.
pub const SCORE_INF: i64 = 1_000_000_000_000;

/// The leaf evaluation the search is parameterised over: plain disc
/// difference, or the positional pattern score against a weight table.
pub enum Evaluator {
    DiscCount,
    Pattern(WeightTable),
}

impl Evaluator {
    /// The evaluator's own data is well formed.
    pub open spec fn wf(&self) -> bool {
        match self {
            Evaluator::DiscCount => true,
            Evaluator::Pattern(t) => t.wf(),
        }
    }
}

/// The instance indices of all 44 template instances, in table order.
pub open spec fn feature_seq(f: u64, s: u64, player: Player) -> Seq<u64> {
    Seq::new(44, |t: int| feature_index_spec(f, s, player, t) as u64)
}

/// The leaf score of board `(f, s)` from `player`'s point of view under
/// evaluator `ev`.
pub open spec fn eval_spec(ev: Evaluator, f: u64, s: u64, player: Player) -> int {
    match ev {
        Evaluator::DiscCount => disc_score_spec(f, s, player),
        Evaluator::Pattern(t) => pattern_score_spec(t.weights@, feature_seq(f, s, player), 0),
    }
}

/// On a well-formed board every feature's shifted table lookup is in bounds.
pub proof fn lemma_feature_seq_in_bounds(f: u64, s: u64, player: Player)
    requires
        f & s == 0,
    ensures
        forall|j: int|
            0 <= j < 44 ==> 0 <= #[trigger] feature_seq(f, s, player)[j] + offset_spec(j % 11)
                < WEIGHT_TABLE_LEN as int,
{
    assert forall|j: int|
        0 <= j < 44 implies 0 <= #[trigger] feature_seq(f, s, player)[j] + offset_spec(j % 11)
        < WEIGHT_TABLE_LEN as int by {
        lemma_feature_index_bound(f, s, player, j);
        lemma_offset_capacity(j % 11);
    }
}

/// No board of a well-formed game scores beyond `EVAL_BOUND` in magnitude.
pub proof fn lemma_eval_bound(ev: Evaluator, f: u64, s: u64, player: Player)
    requires
        ev.wf(),
        f & s == 0,
    ensures
        -EVAL_BOUND <= eval_spec(ev, f, s, player) <= EVAL_BOUND,
{
    match ev {
        Evaluator::DiscCount => {
            crate::board::lemma_pop64_le(f);
            crate::board::lemma_pop64_le(s);
        },
        Evaluator::Pattern(t) => {
            lemma_feature_seq_in_bounds(f, s, player);
            lemma_pattern_score_bound(t.weights@, feature_seq(f, s, player), 0);
        },
    }
}

/// One reported line of play: the side the score is for, the score, and the
/// move sequence from the root to the evaluated leaf (`None` is a pass).
#[derive(Clone, Debug, PartialEq)]
pub struct GameTreeLeaf {
    pub player: Player,
    pub score: i64,
    pub moves: Vec<Option<u64>>,
}

impl GameTreeLeaf {
    pub fn create(player: Player, score: i64, moves: Vec<Option<u64>>) -> (r: GameTreeLeaf)
        ensures
            r.player == player,
            r.score == score,
            r.moves == moves,
    {
        GameTreeLeaf { player, score, moves }
    }

    pub fn score(&self) -> (r: i64)
        ensures
            r == self.score,
    {
        self.score
    }

    pub fn set_score(&mut self, new_score: i64)
        ensures
            final(self).score == new_score,
            final(self).player == old(self).player,
            final(self).moves == old(self).moves,
    {
        self.score = new_score;
    }

    pub fn moves(&self) -> (r: Vec<Option<u64>>)
        ensures
            r@ == self.moves@,
    {
        self.moves.clone()
    }
}

/// The reported lines are ordered best first.
pub open spec fn leaves_sorted_desc(s: Seq<GameTreeLeaf>) -> bool {
    forall|i: int, j: int| 0 <= i < j < s.len() ==> #[trigger] s[i].score >= #[trigger] s[j].score
}

/// Sorts the reported lines by score, best first: the result is exactly the
/// original collection of lines, reordered.
pub fn sort_leaves_desc(v: &mut Vec<GameTreeLeaf>)
    ensures
        leaves_sorted_desc(final(v)@),
        final(v)@.len() == old(v)@.len(),
        final(v)@.to_multiset() == old(v)@.to_multiset(),
        forall|x: GameTreeLeaf| old(v)@.contains(x) ==> final(v)@.contains(x),
{
    if v.len() <= 1 {
        return ;
    }
    let n = v.len();
    let mut i: usize = 1;
    while i < n
        invariant
            n == v@.len(),
            1 <= i <= n,
            leaves_sorted_desc(v@.subrange(0, i as int)),
            v@.to_multiset() == old(v)@.to_multiset(),
        decreases n - i,
    {
        let ghost pre = v@;
        let x = v.remove(i);
        proof {
            vstd::seq_lib::to_multiset_remove(pre, i as int);
        }
        let mut j: usize = 0;
        while j < i && v[j].score >= x.score
            invariant
                0 <= j <= i,
                i < n,
                v@ == pre.remove(i as int),
                forall|k: int| 0 <= k < j ==> #[trigger] v@[k].score >= x.score,
            decreases i - j,
    {
            j = j + 1;
        }
        let ghost mid = v@;
        v.insert(j, x);
        proof {
            broadcast use vstd::seq_lib::group_to_multiset_ensures;

            vstd::seq_lib::to_multiset_insert(mid, j as int, x);
            assert(pre[i as int] == x);
            assert(pre.contains(x));
            assert(pre.to_multiset().count(x) > 0);
            assert(v@.to_multiset() =~= pre.to_multiset());
            assert forall|a: int, b: int| 0 <= a < b < i + 1 implies #[trigger] v@.subrange(
                0,
                i as int + 1,
            )[a].score >= #[trigger] v@.subrange(0, i as int + 1)[b].score by {
                assert(forall|k: int| 0 <= k < j ==> v@[k] == mid[k]);
                assert(v@[j as int] == x);
                assert(forall|k: int| j < k <= i ==> v@[k] == mid[k - 1]);
                assert(forall|k: int| 0 <= k < i ==> mid[k] == pre[k]);
                if j < i {
                    assert(mid[j as int].score < x.score);
                }
            }
            assert(leaves_sorted_desc(v@.subrange(0, i as int + 1)));
        }
        i = i + 1;
    }
    proof {
        assert(v@.subrange(0, n as int) =~= v@);
        assert forall|x: GameTreeLeaf| old(v)@.contains(x) implies v@.contains(x) by {
            broadcast use vstd::seq_lib::group_to_multiset_ensures;

            assert(old(v)@.to_multiset().count(x) > 0);
            assert(v@.to_multiset().count(x) > 0);
        }
    }
}

} // verus!
