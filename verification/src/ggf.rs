use vstd::prelude::*;

use crate::bitboard::extract_pattern_instance_indices;
use crate::board::{
    board_after_move, col_of_letter, convert_indices_to_bitboard, dec_digits, newBoard,
    row_of_digit, Board,
};
use crate::player::Player;
use crate::search_algorithm::base::feature_seq;

verus! {

use vstd::string::StringExecFns;
use vstd::string::StringSliceAdditionalSpecFns;

/// Scans from `i` to the first closing bracket and returns its index with
/// the text before it.  Some bracket at or after `i` must close.
pub fn comsume_until_close_bracket(chars: &Vec<char>, i: usize) -> (r: (usize, String))
    requires
        i <= chars@.len(),
        exists|j: int| i <= j < chars@.len() && chars@[j] == ']',
    ensures
        i <= r.0 < chars@.len(),
        chars@[r.0 as int] == ']',
        forall|m: int| i <= m < r.0 ==> chars@[m] != ']',
        r.1@ == chars@.subrange(i as int, r.0 as int),
{
    let ghost w = choose|j: int| i <= j < chars@.len() && chars@[j] == ']';
    let n_chars = chars.len();
    let mut j: usize = i;
    while chars[j] != ']'
        invariant
            n_chars == chars@.len(),
            i <= j <= w,
            w < chars@.len(),
            chars@[w] == ']',
            forall|m: int| i <= m < j ==> chars@[m] != ']',
        decreases w - j,
    {
        j = j + 1;
    }
    let mut content = String::new();
    let mut m: usize = i;
    while m < j
        invariant
            i <= m <= j,
            j < chars@.len(),
            content@ == chars@.subrange(i as int, m as int),
        decreases j - m,
    {
        crate::board::push_char(&mut content, chars[m]);
        proof {
            assert(content@ =~= chars@.subrange(i as int, m as int + 1));
        }
        m = m + 1;
    }
    (j, content)
}

/// The bracket content of a move token names a pass: it reads `pass` up to
/// its first slash (or in full).
pub open spec fn is_pass_content(bytes: Seq<u8>) -> bool {
    bytes.len() >= 4 && bytes[0] == 112u8 && bytes[1] == 97u8 && bytes[2] == 115u8 && bytes[3]
        == 115u8 && (bytes.len() == 4 || bytes[4] == 47u8)
}

/// Reads one move token: the mover's colour with the two coordinate
/// characters after the opening bracket at `i`, or the starred pass triple
/// when the bracket content names a pass.
pub fn parse_move_content(turn: char, i: usize, chars: &Vec<char>, content: &str) -> (r: (
    char,
    char,
    char,
))
    requires
        !is_pass_content(content.spec_bytes()) ==> i + 2 < chars@.len(),
    ensures
        is_pass_content(content.spec_bytes()) ==> r == (turn, '*', '*'),
        !is_pass_content(content.spec_bytes()) ==> r == (
            turn,
            chars@[i as int + 1],
            chars@[i as int + 2],
        ),
{
    let n_chars = chars.len();
    let bytes = content.as_bytes();
    let n = bytes.len();
    let is_pass = n >= 4 && bytes[0] == 112 && bytes[1] == 97 && bytes[2] == 115 && bytes[3] == 115
        && (n == 4 || bytes[4] == 47);
    proof {
        assert(is_pass == is_pass_content(content.spec_bytes()));
    }
    if is_pass {
        (turn, '*', '*')
    } else {
        let x = chars[i + 1];
        let y = chars[i + 2];
        (turn, x, y)
    }
}

/// One training record: the move number, the sign relating the game's final
/// score to the mover (positive for the first player), and the feature
/// vector extracted after the move, one slot per rotation group.
#[derive(Debug)]
pub struct PatternInstanceHistory {
    pub step: usize,
    pub score_sign: i64,
    pub pattern_instance_indices_0: Vec<u64>,
    pub pattern_instance_indices_1: Vec<u64>,
    pub pattern_instance_indices_2: Vec<u64>,
    pub pattern_instance_indices_3: Vec<u64>,
}

/// The indices joined with commas, in order.
pub open spec fn csv_prefix(v: Seq<u64>, i: int) -> Seq<char>
    decreases i,
{
    if i <= 0 {
        Seq::empty()
    } else if i == 1 {
        dec_digits(v[0] as int)
    } else {
        csv_prefix(v, i - 1) + seq![','] + dec_digits(v[i - 1] as int)
    }
}

impl PatternInstanceHistory {
    /// The comma-separated decimal form of an index vector.
    pub fn pattern_instance_indices_to_csv(v: &Vec<u64>) -> (r: String)
        ensures
            r@ == csv_prefix(v@, v@.len() as int),
    {
        let mut csv = String::new();
        let n = v.len();
        let mut i: usize = 0;
        while i < n
            invariant
                0 <= i <= n,
                n == v@.len(),
                csv@ == csv_prefix(v@, i as int),
            decreases n - i,
        {
            if i > 0 {
                crate::board::push_char(&mut csv, ',');
            }
            crate::board::append_decimal(&mut csv, v[i]);
            i = i + 1;
        }
        csv
    }
}

/// A move triple is a pass marker.
pub open spec fn is_pass_move(m: (char, char, char)) -> bool {
    m.1 == '*' || m.2 == '*'
}

/// Number of non-pass moves of `moves` at or after `i`.
pub open spec fn real_move_count(moves: Seq<(char, char, char)>, i: int) -> int
    decreases moves.len() - i,
{
    if i < 0 || i >= moves.len() {
        0
    } else {
        (if is_pass_move(moves[i]) {
            0int
        } else {
            1int
        }) + real_move_count(moves, i + 1)
    }
}

proof fn lemma_real_move_count_range(moves: Seq<(char, char, char)>, i: int)
    requires
        0 <= i <= moves.len(),
    ensures
        0 <= real_move_count(moves, i) <= moves.len() - i,
    decreases moves.len() - i,
{
    if i < moves.len() {
        lemma_real_move_count_range(moves, i + 1);
    }
}

/// The side a move triple belongs to.
pub open spec fn mover_of(turn: char) -> Player {
    if turn == 'B' {
        Player::First
    } else {
        Player::Second
    }
}

/// The board cell a move triple names.
pub open spec fn move_cell(m: (char, char, char)) -> int {
    col_of_letter(m.1) + 8 * row_of_digit(m.2)
}

/// The records `hs` are exactly those produced by replaying `moves` from
/// index `i` onward on board `(f, s)`, numbered from `step`: pass triples
/// produce nothing, and every real move produces one record holding its
/// number, the sign of its mover, and the feature vector of the board right
/// after the move, extracted for the mover.
pub open spec fn histories_match(
    moves: Seq<(char, char, char)>,
    i: int,
    f: u64,
    s: u64,
    step: int,
    hs: Seq<PatternInstanceHistory>,
) -> bool
    decreases moves.len() - i,
{
    if i < 0 || i >= moves.len() {
        hs.len() == 0
    } else if is_pass_move(moves[i]) {
        histories_match(moves, i + 1, f, s, step, hs)
    } else if col_of_letter(moves[i].1) < 0 || row_of_digit(moves[i].2) < 0 {
        false
    } else {
        let player = mover_of(moves[i].0);
        let nb = board_after_move(f, s, player, (1u64 << move_cell(moves[i])));
        &&& hs.len() >= 1
        &&& hs[0].step == step
        &&& hs[0].score_sign == (match player {
            Player::First => 1i64,
            Player::Second => -1i64,
        })
        &&& hs[0].pattern_instance_indices_0@ == feature_seq(nb.0, nb.1, player)
        &&& hs[0].pattern_instance_indices_1@ == seq![0u64]
        &&& hs[0].pattern_instance_indices_2@ == seq![0u64]
        &&& hs[0].pattern_instance_indices_3@ == seq![0u64]
        &&& histories_match(moves, i + 1, nb.0, nb.1, step + 1, hs.drop_first())
    }
}

/// A matching record list has one entry per real move, numbered on from
/// `step`, each with a full 44-feature vector and a unit sign.
pub proof fn lemma_histories_match_facts(
    moves: Seq<(char, char, char)>,
    i: int,
    f: u64,
    s: u64,
    step: int,
    hs: Seq<PatternInstanceHistory>,
)
    requires
        0 <= i <= moves.len(),
        histories_match(moves, i, f, s, step, hs),
    ensures
        hs.len() == real_move_count(moves, i),
        forall|h: int| 0 <= h < hs.len() ==> #[trigger] hs[h].step == step + h,
        forall|h: int| 0 <= h < hs.len() ==> #[trigger] hs[h].pattern_instance_indices_0@.len() == 44,
        forall|h: int| 0 <= h < hs.len() ==> #[trigger] hs[h].score_sign == 1 || hs[h].score_sign == -1,
    decreases moves.len() - i,
{
    if i < moves.len() {
        if is_pass_move(moves[i]) {
            lemma_histories_match_facts(moves, i + 1, f, s, step, hs);
        } else {
            let player = mover_of(moves[i].0);
            let nb = board_after_move(f, s, player, (1u64 << move_cell(moves[i])));
            lemma_histories_match_facts(moves, i + 1, nb.0, nb.1, step + 1, hs.drop_first());
            assert(forall|h: int| 1 <= h < hs.len() ==> hs[h] == hs.drop_first()[h - 1]);
        }
    }
}

fn extract_histories_from(
    moves: &Vec<(char, char, char)>,
    i: usize,
    board: Board,
    step: usize,
) -> (r: Vec<PatternInstanceHistory>)
    requires
        i <= moves@.len(),
        step + (moves@.len() - i) <= usize::MAX,
        forall|m: int|
            i <= m < moves@.len() && !is_pass_move(#[trigger] moves@[m]) ==> col_of_letter(
                moves@[m].1,
            ) >= 0 && row_of_digit(moves@[m].2) >= 0,
    ensures
        histories_match(moves@, i as int, board.first, board.second, step as int, r@),
    decreases moves@.len() - i,
{
    if i >= moves.len() {
        return Vec::new();
    }
    let (turn, x, y) = moves[i];
    if x == '*' || y == '*' {
        return extract_histories_from(moves, i + 1, board, step);
    }
    let player = if turn == 'B' {
        Player::First
    } else {
        Player::Second
    };
    let put_position = match convert_indices_to_bitboard(x, y) {
        Ok(p) => p,
        Err(_) => {
            return Vec::new();
        },
    };
    proof {
        crate::board::lemma_single_bit((col_of_letter(x) + 8 * row_of_digit(y)) as u64);
    }
    let mut next_board = board;
    next_board.put_and_reverse(&player, put_position);
    let indices = extract_pattern_instance_indices(&next_board, &player);
    let mut zero_1: Vec<u64> = Vec::new();
    zero_1.push(0);
    let mut zero_2: Vec<u64> = Vec::new();
    zero_2.push(0);
    let mut zero_3: Vec<u64> = Vec::new();
    zero_3.push(0);
    let history = PatternInstanceHistory {
        step,
        score_sign: match player {
            Player::First => 1,
            Player::Second => -1,
        },
        pattern_instance_indices_0: indices,
        pattern_instance_indices_1: zero_1,
        pattern_instance_indices_2: zero_2,
        pattern_instance_indices_3: zero_3,
    };
    proof {
        assert(history.pattern_instance_indices_0@ =~= feature_seq(
            next_board.first,
            next_board.second,
            player,
        ));
        assert(history.pattern_instance_indices_1@ =~= seq![0u64]);
        assert(history.pattern_instance_indices_2@ =~= seq![0u64]);
        assert(history.pattern_instance_indices_3@ =~= seq![0u64]);
    }
    let mut histories = extract_histories_from(moves, i + 1, next_board, step + 1);
    let ghost rest = histories@;
    histories.insert(0, history);
    proof {
        assert(histories@.drop_first() =~= rest);
    }
    histories
}

/// Replays a game's moves from the initial position and extracts the
/// feature vector after each non-pass move: record `h` holds the features
/// of the board right after the `h`-th real move, extracted for its mover,
/// with the sign relating the game's final score to that mover.
pub fn extract_pattarn_instance_histories(moves: &Vec<(char, char, char)>) -> (r: Vec<
    PatternInstanceHistory,
>)
    requires
        forall|m: int|
            0 <= m < moves@.len() && !is_pass_move(#[trigger] moves@[m]) ==> col_of_letter(
                moves@[m].1,
            ) >= 0 && row_of_digit(moves@[m].2) >= 0,
    ensures
        histories_match(moves@, 0, 0x0000_0008_1000_0000u64, 0x0000_0010_0800_0000u64, 0, r@),
        r@.len() == real_move_count(moves@, 0),
        forall|h: int| 0 <= h < r@.len() ==> #[trigger] r@[h].step == h,
        forall|h: int|
            0 <= h < r@.len() ==> #[trigger] r@[h].pattern_instance_indices_0@.len() == 44,
        forall|h: int|
            0 <= h < r@.len() ==> #[trigger] r@[h].score_sign == 1 || r@[h].score_sign == -1,
{
    let board = newBoard();
    let n_moves = moves.len();
    proof {
        assert(n_moves == moves@.len());
        lemma_real_move_count_range(moves@, 0);
    }
    let histories = extract_histories_from(moves, 0, board, 0);
    proof {
        lemma_histories_match_facts(moves@, 0, board.first, board.second, 0, histories@);
    }
    histories
}

} // verus!
