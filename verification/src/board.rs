use vstd::prelude::*;

use crate::player::Player;

verus! {

use vstd::string::StringExecFns;
use vstd::string::StringSliceAdditionalSpecFns;

// Shift-and-mask constants that move every disc of a bitboard one cell in a
// compass direction; the mask clears the file or rank that would otherwise
// wrap around the board edge.
pub const MASK_RIGHT: u64 = 0x7f7f_7f7f_7f7f_7f7f;
pub const MASK_RIGHT_DOWN: u64 = 0x007f_7f7f_7f7f_7f7f;
pub const MASK_DOWN: u64 = 0x00ff_ffff_ffff_ffff;
pub const MASK_LEFT_DOWN: u64 = 0x00fe_fefe_fefe_fefe;
pub const MASK_LEFT: u64 = 0xfefe_fefe_fefe_fefe;
pub const MASK_LEFT_UP: u64 = 0xfefe_fefe_fefe_fe00;
pub const MASK_UP: u64 = 0xffff_ffff_ffff_ff00;
pub const MASK_RIGHT_UP: u64 = 0x7f7f_7f7f_7f7f_7f00;

/// Longest chain of transfers a directional scan can ever need on a 64-cell
/// board; the scan is given this much fuel and never exhausts it in play.
pub const SCAN_FUEL: u8 = 64;

/// One board position: `first` holds the discs of `Player::First` (black),
/// `second` those of `Player::Second` (white), one bit per cell, bit `i`
/// standing for column `i % 8` of row `i / 8`.
#[derive(Clone, Copy, Debug, PartialEq, Eq, Structural)]
pub struct Board {
    pub first: u64,
    pub second: u64,
}

/// A disc moved one cell in direction `d` (0 right, 1 right-down, 2 down,
/// 3 left-down, 4 left, 5 left-up, 6 up, 7 right-up), falling off the board
/// instead of wrapping across an edge.
pub open spec fn shift_dir(m: u64, d: int) -> u64 {
    if d == 0 {
        (m >> 1) & MASK_RIGHT
    } else if d == 1 {
        (m >> 9) & MASK_RIGHT_DOWN
    } else if d == 2 {
        (m >> 8) & MASK_DOWN
    } else if d == 3 {
        (m >> 7) & MASK_LEFT_DOWN
    } else if d == 4 {
        (m << 1) & MASK_LEFT
    } else if d == 5 {
        (m << 9) & MASK_LEFT_UP
    } else if d == 6 {
        (m << 8) & MASK_UP
    } else if d == 7 {
        (m << 7) & MASK_RIGHT_UP
    } else {
        0
    }
}

/// Does the run of `opponent` discs starting at `m` and walking in direction
/// `d` end on a `current` disc (within `fuel` steps)?  A run that reaches an
/// empty cell or the board edge first does not close.
pub open spec fn line_closes(current: u64, opponent: u64, m: u64, d: int, fuel: nat) -> bool
    decreases fuel,
{
    if fuel == 0 {
        false
    } else if m != 0 && m & opponent != 0 {
        line_closes(current, opponent, shift_dir(m, d), d, (fuel - 1) as nat)
    } else {
        m & current != 0
    }
}

/// The discs flipped along direction `d` starting from `m`: the maximal
/// contiguous run of `opponent` discs, provided the run closes on a `current`
/// disc; otherwise nothing flips in this direction.
pub open spec fn line_flips(current: u64, opponent: u64, m: u64, d: int, fuel: nat) -> u64
    decreases fuel,
{
    if fuel == 0 {
        0
    } else if m != 0 && m & opponent != 0 {
        if line_closes(current, opponent, shift_dir(m, d), d, (fuel - 1) as nat) {
            m | line_flips(current, opponent, shift_dir(m, d), d, (fuel - 1) as nat)
        } else {
            0
        }
    } else {
        0
    }
}

/// Discs flipped in direction `d` by a disc placed at `pos`.
pub open spec fn dir_reverse_spec(current: u64, opponent: u64, pos: u64, d: int) -> u64 {
    line_flips(current, opponent, shift_dir(pos, d), d, SCAN_FUEL as nat)
}

/// Union of the flipped discs over directions `0 .. d`.
pub open spec fn union_dirs(current: u64, opponent: u64, pos: u64, d: int) -> u64
    decreases d,
{
    if d <= 0 {
        0
    } else {
        union_dirs(current, opponent, pos, d - 1) | dir_reverse_spec(current, opponent, pos, d - 1)
    }
}

/// The reversal mask for placing on `pos` a disc of the side whose discs are
/// `current`, on a board occupied as `sf | ss`: empty when `pos` is occupied,
/// else the union of the eight directional runs.
pub open spec fn reverse_pattern_spec(sf: u64, ss: u64, current: u64, opponent: u64, pos: u64) -> u64 {
    if (sf | ss) & pos != 0 {
        0
    } else {
        union_dirs(current, opponent, pos, 8)
    }
}

/// The reversal mask of `player` placing a disc at `pos` on board `(f, s)`.
pub open spec fn move_flips(f: u64, s: u64, player: Player, pos: u64) -> u64 {
    match player {
        Player::First => reverse_pattern_spec(f, s, f, s, pos),
        Player::Second => reverse_pattern_spec(f, s, s, f, pos),
    }
}

/// The board after `player` places a disc at `pos`: the placed bit and the
/// reversal mask toggle into the mover's discs, the reversal mask toggles out
/// of the opponent's.  Placing on an occupied cell changes nothing: the move
/// is a no-op with an empty reversal mask.
pub open spec fn board_after_move(f: u64, s: u64, player: Player, pos: u64) -> (u64, u64) {
    if (f | s) & pos != 0 {
        (f, s)
    } else {
        let rp = move_flips(f, s, player, pos);
        match player {
            Player::First => (f ^ (pos | rp), s ^ rp),
            Player::Second => (f ^ rp, s ^ (pos | rp)),
        }
    }
}

/// No cell is occupied by both sides at once.
pub open spec fn disjoint(f: u64, s: u64) -> bool {
    f & s == 0
}

/// Number of set bits among the `i` lowest bits of `n`.
pub open spec fn count_bits_upto(n: u64, i: nat) -> nat
    decreases i,
{
    if i == 0 {
        0
    } else {
        count_bits_upto(n, (i - 1) as nat) + (if (n >> (((i - 1) as nat) as u64)) & 1u64 == 1u64 {
            1nat
        } else {
            0nat
        })
    }
}

/// Number of discs on the bitboard `n`.
pub open spec fn pop64(n: u64) -> nat {
    count_bits_upto(n, 64)
}

/// Disc-count score of board `(f, s)` from `player`'s point of view.
pub open spec fn disc_score_spec(f: u64, s: u64, player: Player) -> int {
    let diff = pop64(f) - pop64(s);
    match player {
        Player::First => diff,
        Player::Second => -diff,
    }
}

/// Disjointness reads the same from either side.
pub proof fn lemma_disjoint_comm(f: u64, s: u64)
    by (bit_vector)
    requires
        f & s == 0,
    ensures
        s & f == 0,
{
}

/// Swapping the two sides of the board swaps whose move is whose: a cell is
/// legal for the second player exactly when it is legal for the first player
/// of the swapped board, with the same discs flipped.
pub proof fn lemma_reverse_orientation(f: u64, s: u64, pos: u64)
    ensures
        move_flips(s, f, Player::First, pos) == move_flips(f, s, Player::Second, pos),
        move_flips(s, f, Player::Second, pos) == move_flips(f, s, Player::First, pos),
{
    assert(s | f == f | s) by (bit_vector);
}

/// Lifts the swap of sides to whole-board legality.
pub proof fn lemma_reverse_has_legal_from(f: u64, s: u64, k: int)
    requires
        0 <= k <= 64,
    ensures
        has_legal_from(s, f, Player::First, k) == has_legal_from(f, s, Player::Second, k),
        has_legal_from(s, f, Player::Second, k) == has_legal_from(f, s, Player::First, k),
    decreases 64 - k,
{
    if k < 64 {
        lemma_reverse_orientation(f, s, (1u64 << k));
        lemma_reverse_has_legal_from(f, s, k + 1);
    }
}

/// Disc-count antisymmetry: the score of a board for one side is the exact
/// negation of the score of the same board for the other side.
pub proof fn lemma_score_numdisk_antisymmetric(f: u64, s: u64)
    ensures
        disc_score_spec(f, s, Player::First) == -disc_score_spec(f, s, Player::Second),
{
}

/// The initial position: two discs of each side crossed in the centre.
#[allow(non_snake_case)]
pub fn newBoard() -> (r: Board)
    ensures
        r.first == 0x0000_0008_1000_0000u64,
        r.second == 0x0000_0010_0800_0000u64,
{
    Board {
        first: 0b_00000000_00000000_00000000_00001000_00010000_00000000_00000000_00000000,
        second: 0b_00000000_00000000_00000000_00010000_00001000_00000000_00000000_00000000,
    }
}

fn transfer_board(board: u64, direction: u8) -> (r: u64)
    ensures
        r == shift_dir(board, direction as int),
{
    match direction {
        0 => (board >> 1) & MASK_RIGHT,
        1 => (board >> 9) & MASK_RIGHT_DOWN,
        2 => (board >> 8) & MASK_DOWN,
        3 => (board >> 7) & MASK_LEFT_DOWN,
        4 => (board << 1) & MASK_LEFT,
        5 => (board << 9) & MASK_LEFT_UP,
        6 => (board << 8) & MASK_UP,
        7 => (board << 7) & MASK_RIGHT_UP,
        _ => 0,
    }
}

/// Walks the run of `opponent` discs from `mask` in `direction`, returning the
/// flipped discs and whether the run closes on a `current` disc.
fn scan_line(current: u64, opponent: u64, mask: u64, direction: u8, fuel: u8) -> (r: (u64, bool))
    requires
        direction < 8,
    ensures
        r.0 == line_flips(current, opponent, mask, direction as int, fuel as nat),
        r.1 == line_closes(current, opponent, mask, direction as int, fuel as nat),
    decreases fuel,
{
    if fuel == 0 {
        (0, false)
    } else if mask != 0 && mask & opponent != 0 {
        let next = transfer_board(mask, direction);
        let (rest, closed) = scan_line(current, opponent, next, direction, fuel - 1);
        if closed {
            (mask | rest, true)
        } else {
            (0, false)
        }
    } else {
        (0, mask & current != 0)
    }
}

fn get_reverse_pattern_direction(current: u64, opponent: u64, put_position: u64, direction: u8) -> (r: u64)
    requires
        direction < 8,
    ensures
        r == dir_reverse_spec(current, opponent, put_position, direction as int),
{
    let mask = transfer_board(put_position, direction);
    let (flips, _closed) = scan_line(current, opponent, mask, direction, SCAN_FUEL);
    flips
}

impl Board {
    pub fn create(first: u64, second: u64) -> (r: Board)
        ensures
            r.first == first,
            r.second == second,
    {
        Board { first, second }
    }

    pub fn first(&self) -> (r: u64)
        ensures
            r == self.first,
    {
        self.first
    }

    pub fn second(&self) -> (r: u64)
        ensures
            r == self.second,
    {
        self.second
    }

    pub fn is_full(&self) -> (r: bool)
        ensures
            r == (self.first | self.second == 0xffff_ffff_ffff_ffffu64),
    {
        (self.first | self.second) == u64::MAX
    }

    pub fn is_empty(&self, position: u64) -> (r: bool)
        ensures
            r == ((self.first | self.second) & position == 0),
    {
        ((self.first | self.second) & position) == 0
    }

    /// Places the disc of `player` at `put_position` and flips the enclosed
    /// opponent discs; on an occupied cell the call is a no-op returning an
    /// empty reversal effect (callers must not place there in legal play).
    /// A move is a single-bit mask, and applying one never doubly occupies
    /// a cell.
    pub fn put_and_reverse(&mut self, player: &Player, put_position: u64) -> (r: (Player, u64))
        requires
            single_or_zero(put_position),
        ensures
            (final(self).first, final(self).second) == board_after_move(
                old(self).first,
                old(self).second,
                *player,
                put_position,
            ),
            r == (*player, put_position),
            disjoint(old(self).first, old(self).second) ==> disjoint(
                final(self).first,
                final(self).second,
            ),
    {
        if !self.is_empty(put_position) {
            return (player.clone(), put_position);
        }
        proof {
            if disjoint(self.first, self.second) {
                lemma_apply_move_preserves_disjointness(self.first, self.second, *player, put_position);
            }
        }
        match player {
            Player::First => {
                let reverse_pattern = self.get_reverse_pattern(self.first, self.second, put_position);
                self.first ^= put_position | reverse_pattern;
                self.second ^= reverse_pattern;
            },
            Player::Second => {
                let reverse_pattern = self.get_reverse_pattern(self.second, self.first, put_position);
                self.first ^= reverse_pattern;
                self.second ^= put_position | reverse_pattern;
            },
        };
        (player.clone(), put_position)
    }

    /// The reversal mask for a disc of the side owning `current` placed at
    /// `put_position`, with `opponent` the other side's discs; empty when the
    /// cell is already occupied on this board.
    pub fn get_reverse_pattern(&self, current: u64, opponent: u64, put_position: u64) -> (r: u64)
        ensures
            r == reverse_pattern_spec(self.first, self.second, current, opponent, put_position),
    {
        if !self.is_empty(put_position) {
            return 0;
        }
        let mut reverse_pattern: u64 = 0;
        for direction in 0..8u8
            invariant
                reverse_pattern == union_dirs(current, opponent, put_position, direction as int),
        {
            reverse_pattern |= get_reverse_pattern_direction(current, opponent, put_position, direction);
        }
        reverse_pattern
    }

    /// The reversal mask of each of the 64 cells in turn, for `player` to move.
    pub fn entire_reverse_patterns(&self, player: &Player) -> (r: Vec<u64>)
        ensures
            r@.len() == 64,
            forall|i: int| 0 <= i < 64 ==> r@[i] == move_flips(self.first, self.second, *player, (1u64 << i)),
    {
        let (current, opponent) = match player {
            Player::First => (self.first, self.second),
            Player::Second => (self.second, self.first),
        };
        let mut reverse_patterns: Vec<u64> = Vec::new();
        for i in 0..64u64
            invariant
                reverse_patterns@.len() == i,
                forall|j: int| 0 <= j < i ==> reverse_patterns@[j] == move_flips(
                    self.first,
                    self.second,
                    *player,
                    (1u64 << j),
                ),
            {
            let put_position = 1u64 << i;
            let reverse_pattern = self.get_reverse_pattern(current, opponent, put_position);
            reverse_patterns.push(reverse_pattern);
        }
        reverse_patterns
    }

    /// Swaps the two sides' discs.
    pub fn reverse(board: &Board) -> (r: Board)
        ensures
            r.first == board.second,
            r.second == board.first,
    {
        Board { first: board.second, second: board.first }
    }

    /// Disc-count score: own discs minus opponent discs, positive numbers
    /// favouring `player`.
    pub fn score_numdisk(&self, player: Player) -> (r: i64)
        ensures
            r == disc_score_spec(self.first, self.second, player),
            -64 <= r <= 64,
    {
        proof {
            lemma_count_bits_upto_le(self.first, 64);
            lemma_count_bits_upto_le(self.second, 64);
        }
        let score = count_bits(self.first) as i64 - count_bits(self.second) as i64;
        match player {
            Player::First => score,
            Player::Second => -score,
        }
    }
}

/// Is placing a disc at cell `k` a legal move for `player` on `(f, s)`?
pub open spec fn cell_legal(f: u64, s: u64, player: Player, k: int) -> bool {
    move_flips(f, s, player, (1u64 << k)) != 0
}

/// The legal cells below index `k`, in ascending order, each as a single-bit mask.
pub open spec fn legal_prefix(f: u64, s: u64, player: Player, k: int) -> Seq<u64>
    decreases k,
{
    if k <= 0 {
        Seq::empty()
    } else if cell_legal(f, s, player, k - 1) {
        legal_prefix(f, s, player, k - 1) + seq![(1u64 << (k - 1))]
    } else {
        legal_prefix(f, s, player, k - 1)
    }
}

/// Does `player` have a legal move at cell `k` or beyond?
pub open spec fn has_legal_from(f: u64, s: u64, player: Player, k: int) -> bool
    decreases 64 - k,
{
    if k >= 64 {
        false
    } else {
        cell_legal(f, s, player, k) || has_legal_from(f, s, player, k + 1)
    }
}

/// Does `player` have any legal move on `(f, s)`?
pub open spec fn has_legal_move(f: u64, s: u64, player: Player) -> bool {
    has_legal_from(f, s, player, 0)
}

/// Number of legal cells of `player` at or after `k`.
pub open spec fn legal_count_from(f: u64, s: u64, player: Player, k: int) -> int
    decreases 64 - k,
{
    if k < 0 || k >= 64 {
        0
    } else {
        (if cell_legal(f, s, player, k) {
            1int
        } else {
            0int
        }) + legal_count_from(f, s, player, k + 1)
    }
}

proof fn lemma_legal_prefix_empty(f: u64, s: u64, player: Player, k: int)
    requires
        0 <= k <= 64,
    ensures
        legal_prefix(f, s, player, k).len() == 0 <==> !exists|j: int|
            0 <= j < k && cell_legal(f, s, player, j),
    decreases k,
{
    if k > 0 {
        lemma_legal_prefix_empty(f, s, player, k - 1);
        if cell_legal(f, s, player, k - 1) {
            assert(exists|j: int| 0 <= j < k && cell_legal(f, s, player, j));
        }
    }
}

pub proof fn lemma_has_legal_from_exists(f: u64, s: u64, player: Player, k: int)
    requires
        0 <= k <= 64,
    ensures
        has_legal_from(f, s, player, k) <==> exists|j: int| k <= j < 64 && cell_legal(f, s, player, j),
    decreases 64 - k,
{
    if k < 64 {
        lemma_has_legal_from_exists(f, s, player, k + 1);
        if cell_legal(f, s, player, k) {
            assert(exists|j: int| k <= j < 64 && cell_legal(f, s, player, j));
        }
    }
}

impl Board {
    /// The legal moves of `player`, each a single-bit mask, in ascending cell order.
    pub fn get_all_legal_moves(&self, player: &Player) -> (r: Vec<u64>)
        ensures
            r@ == legal_prefix(self.first, self.second, *player, 64),
            r@.len() == 0 <==> !has_legal_move(self.first, self.second, *player),
    {
        let (current, opponent) = match player {
            Player::First => (self.first, self.second),
            Player::Second => (self.second, self.first),
        };
        let mut legal_moves: Vec<u64> = Vec::new();
        for i in 0..64u64
            invariant
                legal_moves@ == legal_prefix(self.first, self.second, *player, i as int),
        {
            let put_position = 1u64 << i;
            let reverse_pattern = self.get_reverse_pattern(current, opponent, put_position);
            if reverse_pattern > 0 {
                legal_moves.push(put_position);
            }
        }
        proof {
            lemma_legal_prefix_empty(self.first, self.second, *player, 64);
            lemma_has_legal_from_exists(self.first, self.second, *player, 0);
        }
        legal_moves
    }
}

/// State of the board-text scan after the first `i` bytes: number of board
/// cells seen, and the two occupancy masks built so far.  `-` counts an empty
/// cell, `o` a disc of the first side, `x` one of the second; everything else
/// is layout and is skipped.
pub open spec fn from_str_state(bytes: Seq<u8>, i: int) -> (int, u64, u64)
    decreases i,
{
    if i <= 0 {
        (0, 0, 0)
    } else {
        let (n, f, s) = from_str_state(bytes, i - 1);
        let c = bytes[i - 1];
        if c == 111u8 {  // 'o'
            (n + 1, if n < 64 { f | (1u64 << n) } else { f }, s)
        } else if c == 120u8 {  // 'x'
            (n + 1, f, if n < 64 { s | (1u64 << n) } else { s })
        } else if c == 45u8 {  // '-'
            (n + 1, f, s)
        } else {
            (n, f, s)
        }
    }
}

proof fn lemma_from_str_state_mono(bytes: Seq<u8>, i: int, j: int)
    requires
        0 <= i <= j,
    ensures
        from_str_state(bytes, i).0 <= from_str_state(bytes, j).0,
    decreases j - i,
{
    if i < j {
        lemma_from_str_state_mono(bytes, i, j - 1);
    }
}

impl Board {
    /// Reads a board from its text diagram: cells in row-major order, `o` a
    /// disc of the first side, `x` one of the second, `-` an empty cell;
    /// whitespace and any other characters are skipped.
    pub fn create_from_str(board_str: &str) -> (r: Board)
        requires
            from_str_state(board_str.spec_bytes(), board_str.spec_bytes().len() as int).0 <= 64,
        ensures
            ({
                let (n, f, s) = from_str_state(
                    board_str.spec_bytes(),
                    board_str.spec_bytes().len() as int,
                );
                r.first == f && r.second == s
            }),
    {
        let bytes = board_str.as_bytes();
        let mut n_cells: u64 = 0;
        let mut first: u64 = 0;
        let mut second: u64 = 0;
        let n = bytes.len();
        for i in 0..n
            invariant
                (n_cells as int, first, second) == from_str_state(bytes@, i as int),
                n_cells <= 64,
        {
            proof {
                lemma_from_str_state_mono(bytes@, i as int + 1, bytes@.len() as int);
            }
            let c = bytes[i];
            if c == 45u8 || c == 111u8 || c == 120u8 {
                if c == 111u8 {
                    first |= 1u64 << n_cells;
                } else if c == 120u8 {
                    second |= 1u64 << n_cells;
                }
                n_cells = n_cells + 1;
            }
        }
        Board { first, second }
    }
}

/// Decimal digits of `n`, most significant first.
pub open spec fn dec_digits(n: int) -> Seq<char>
    decreases n,
{
    if n < 10 {
        seq![digit_char(n)]
    } else {
        dec_digits(n / 10) + seq![digit_char(n % 10)]
    }
}

/// The character for the decimal digit `d`.
pub open spec fn digit_char(d: int) -> char {
    if d == 0 {
        '0'
    } else if d == 1 {
        '1'
    } else if d == 2 {
        '2'
    } else if d == 3 {
        '3'
    } else if d == 4 {
        '4'
    } else if d == 5 {
        '5'
    } else if d == 6 {
        '6'
    } else if d == 7 {
        '7'
    } else if d == 8 {
        '8'
    } else {
        '9'
    }
}

/// Relies on String::push: appends exactly the one given character.
#[verifier::external_body]
pub(crate) fn push_char(s: &mut String, c: char)
    ensures
        final(s)@ == old(s)@.push(c),
{
    s.push(c)
}

/// Writes the decimal form of `n` onto the end of `s`.
pub fn append_decimal(s: &mut String, n: u64)
    ensures
        final(s)@ == old(s)@ + dec_digits(n as int),
    decreases n,
{
    if n >= 10 {
        append_decimal(s, n / 10);
    }
    let d = n % 10;
    let digit: &str = if d == 0 {
        "0"
    } else if d == 1 {
        "1"
    } else if d == 2 {
        "2"
    } else if d == 3 {
        "3"
    } else if d == 4 {
        "4"
    } else if d == 5 {
        "5"
    } else if d == 6 {
        "6"
    } else if d == 7 {
        "7"
    } else if d == 8 {
        "8"
    } else {
        "9"
    };
    proof {
        reveal_strlit("0");
        reveal_strlit("1");
        reveal_strlit("2");
        reveal_strlit("3");
        reveal_strlit("4");
        reveal_strlit("5");
        reveal_strlit("6");
        reveal_strlit("7");
        reveal_strlit("8");
        reveal_strlit("9");
        assert(digit@ =~= seq![digit_char(d as int)]);
    }
    s.append(digit);
    proof {
        assert(s@ =~= old(s)@ + dec_digits(n as int));
    }
}

/// The message rejecting the out-of-range coordinate pair `(x, y)`.
pub open spec fn coordinate_error_spec(x: u64, y: u64) -> Seq<char> {
    "out of index: ("@ + dec_digits(x as int) + ", "@ + dec_digits(y as int) + ")"@
}

/// The single-bit mask of column `x`, row `y`; rejected with a descriptive
/// message whenever either coordinate lies off the board.
pub fn coordinate_to_bitboard(x: u64, y: u64) -> (r: Result<u64, String>)
    ensures
        x < 8 && y < 8 ==> r == Ok::<u64, String>((1u64 << (x + 8 * y))),
        !(x < 8 && y < 8) ==> (r matches Err(m) && m@ == coordinate_error_spec(x, y)),
{
    if x >= 8 || y >= 8 {
        let mut msg = String::new();
        msg.append("out of index: (");
        append_decimal(&mut msg, x);
        msg.append(", ");
        append_decimal(&mut msg, y);
        msg.append(")");
        proof {
            assert(msg@ =~= coordinate_error_spec(x, y));
        }
        Err(msg)
    } else {
        let i = x + 8 * y;
        Ok(1u64 << i)
    }
}

/// Column index of the letter `c`, or -1 when `c` is no column letter.
pub open spec fn col_of_letter(c: char) -> int {
    if c == 'A' {
        0
    } else if c == 'B' {
        1
    } else if c == 'C' {
        2
    } else if c == 'D' {
        3
    } else if c == 'E' {
        4
    } else if c == 'F' {
        5
    } else if c == 'G' {
        6
    } else if c == 'H' {
        7
    } else {
        -1
    }
}

/// Row index of the digit `c`, or -1 when `c` is no row digit.
pub open spec fn row_of_digit(c: char) -> int {
    if c == '1' {
        0
    } else if c == '2' {
        1
    } else if c == '3' {
        2
    } else if c == '4' {
        3
    } else if c == '5' {
        4
    } else if c == '6' {
        5
    } else if c == '7' {
        6
    } else if c == '8' {
        7
    } else {
        -1
    }
}

/// The single-bit mask named by column letter `x` (`A`..`H`) and row digit
/// `y` (`1`..`8`); any other character is rejected, naming the offending
/// coordinate, the column taking precedence.
pub fn convert_indices_to_bitboard(x: char, y: char) -> (r: Result<u64, String>)
    ensures
        col_of_letter(x) >= 0 && row_of_digit(y) >= 0 ==> r == Ok::<u64, String>(
            (1u64 << (col_of_letter(x) + 8 * row_of_digit(y))),
        ),
        col_of_letter(x) < 0 ==> (r matches Err(m) && m@ == "invalid x="@.push(x)),
        col_of_letter(x) >= 0 && row_of_digit(y) < 0 ==> (r matches Err(m) && m@ == "invalid y="@.push(
            y,
        )),
{
    let ix: i32 = match x {
        'A' => 0,
        'B' => 1,
        'C' => 2,
        'D' => 3,
        'E' => 4,
        'F' => 5,
        'G' => 6,
        'H' => 7,
        _ => -1,
    };
    let iy: i32 = match y {
        '1' => 0,
        '2' => 1,
        '3' => 2,
        '4' => 3,
        '5' => 4,
        '6' => 5,
        '7' => 6,
        '8' => 7,
        _ => -1,
    };
    if ix < 0 {
        let mut msg = String::new();
        msg.append("invalid x=");
        push_char(&mut msg, x);
        Err(msg)
    } else if iy < 0 {
        let mut msg = String::new();
        msg.append("invalid y=");
        push_char(&mut msg, y);
        Err(msg)
    } else {
        let i = (ix + 8 * iy) as u64;
        Ok(1u64 << i)
    }
}

/// The first `k` base-3 digits of `n`, least significant first.
pub open spec fn base3_digit_seq(n: int, k: nat) -> Seq<u8>
    decreases k,
{
    if k == 0 {
        Seq::empty()
    } else {
        seq![(n % 3) as u8] + base3_digit_seq(n / 3, (k - 1) as nat)
    }
}

/// The base-3 digits of the line code `n`: digit `j` is the coded state of
/// the `j`-th cell of the line (0 empty, 1 mover, 2 opponent).
pub fn parse_reverse_index(n: u64) -> (r: [u8; 8])
    ensures
        r@ == base3_digit_seq(n as int, 8),
{
    let c0 = (n % 3) as u8;
    let n1 = n / 3;
    let c1 = (n1 % 3) as u8;
    let n2 = n1 / 3;
    let c2 = (n2 % 3) as u8;
    let n3 = n2 / 3;
    let c3 = (n3 % 3) as u8;
    let n4 = n3 / 3;
    let c4 = (n4 % 3) as u8;
    let n5 = n4 / 3;
    let c5 = (n5 % 3) as u8;
    let n6 = n5 / 3;
    let c6 = (n6 % 3) as u8;
    let n7 = n6 / 3;
    let c7 = (n7 % 3) as u8;
    let r = [c0, c1, c2, c3, c4, c5, c6, c7];
    proof {
        reveal_with_fuel(base3_digit_seq, 9);
        assert(r@ =~= base3_digit_seq(n as int, 8));
    }
    r
}

impl Board {
    /// The number of discs each of the 64 cells would flip for `player`, in
    /// cell order: a cell is a legal move exactly when its count is nonzero.
    #[allow(non_snake_case)]
    pub fn getAllLegalPosition(&self, player: Player) -> (r: Vec<u64>)
        ensures
            r@.len() == 64,
            forall|i: int|
                0 <= i < 64 ==> #[trigger] r@[i] == pop64(
                    move_flips(self.first, self.second, player, (1u64 << i)),
                ),
    {
        let reverse_patterns = self.entire_reverse_patterns(&player);
        let mut legal_positions: Vec<u64> = Vec::new();
        let mut i: usize = 0;
        while i < 64
            invariant
                0 <= i <= 64,
                reverse_patterns@.len() == 64,
                forall|j: int|
                    0 <= j < 64 ==> reverse_patterns@[j] == move_flips(
                        self.first,
                        self.second,
                        player,
                        (1u64 << j),
                    ),
                legal_positions@.len() == i,
                forall|j: int|
                    0 <= j < i ==> #[trigger] legal_positions@[j] == pop64(
                        move_flips(self.first, self.second, player, (1u64 << j)),
                    ),
            decreases 64 - i,
        {
            legal_positions.push(count_bits(reverse_patterns[i]));
            i = i + 1;
        }
        legal_positions
    }

    /// Places the disc named by column `i` and row `j` for `player`; the
    /// cell must lie on the board and be empty.
    #[allow(non_snake_case)]
    pub fn putAndReverse(&mut self, player: Player, i: u8, j: u8)
        requires
            i < 8,
            j < 8,
            disjoint(old(self).first, old(self).second),
            (old(self).first | old(self).second) & (1u64 << (i + 8 * j)) == 0,
        ensures
            (final(self).first, final(self).second) == board_after_move(
                old(self).first,
                old(self).second,
                player,
                (1u64 << (i + 8 * j)),
            ),
            disjoint(final(self).first, final(self).second),
    {
        let put_position = match coordinate_to_bitboard(i as u64, j as u64) {
            Ok(p) => p,
            Err(_) => {
                return ;
            },
        };
        proof {
            lemma_single_bit((i + 8 * j) as u64);
        }
        self.put_and_reverse(&player, put_position);
    }
}

/// Number of set bits of `bitboard`.
pub fn count_bits(bitboard: u64) -> (r: u64)
    ensures
        r == pop64(bitboard),
        r <= 64,
{
    let mut bits: u64 = 0;
    for i in 0..64u64
        invariant
            bits == count_bits_upto(bitboard, i as nat),
            bits <= i,
    {
        if (bitboard >> i) & 1 == 1 {
            bits = bits + 1;
        }
    }
    bits
}

/// A 64-bit board never holds more than 64 discs.
pub proof fn lemma_pop64_le(n: u64)
    ensures
        pop64(n) <= 64,
{
    lemma_count_bits_upto_le(n, 64);
}

proof fn lemma_count_bits_upto_le(n: u64, i: nat)
    ensures
        count_bits_upto(n, i) <= i,
    decreases i,
{
    if i > 0 {
        lemma_count_bits_upto_le(n, (i - 1) as nat);
    }
}

/// `m` holds at most one disc: it is zero or a power of two.
pub open spec fn single_or_zero(m: u64) -> bool {
    m & ((m as int - 1) as u64) == 0
}

proof fn bv_and_or_zero(x: u64)
    by (bit_vector)
    ensures
        0u64 & x == 0,
        x & 0u64 == 0,
        x | 0u64 == x,
        0u64 | x == x,
{
}

proof fn bv_union_subset(a: u64, b: u64, o: u64)
    by (bit_vector)
    requires
        a & !o == 0,
        b & !o == 0,
    ensures
        (a | b) & !o == 0,
{
}

proof fn bv_single_in(m: u64, o: u64)
    by (bit_vector)
    requires
        single_or_zero(m),
        m & o != 0,
    ensures
        m & !o == 0,
{
}

proof fn bv_shift_single(m: u64)
    by (bit_vector)
    requires
        single_or_zero(m),
    ensures
        single_or_zero((m >> 1) & MASK_RIGHT),
        single_or_zero((m >> 9) & MASK_RIGHT_DOWN),
        single_or_zero((m >> 8) & MASK_DOWN),
        single_or_zero((m >> 7) & MASK_LEFT_DOWN),
        single_or_zero((m << 1) & MASK_LEFT),
        single_or_zero((m << 9) & MASK_LEFT_UP),
        single_or_zero((m << 8) & MASK_UP),
        single_or_zero((m << 7) & MASK_RIGHT_UP),
{
}

proof fn bv_disjoint_after(cur: u64, opp: u64, pos: u64, rp: u64)
    by (bit_vector)
    requires
        cur & opp == 0,
        rp & !opp == 0,
        pos & (cur | opp) == 0,
    ensures
        (cur ^ (pos | rp)) & (opp ^ rp) == 0,
        (opp ^ rp) & (cur ^ (pos | rp)) == 0,
{
}

/// A single placed disc exists for every cell index.
pub proof fn lemma_single_bit(i: u64)
    by (bit_vector)
    requires
        i < 64,
    ensures
        single_or_zero(1u64 << i),
        (1u64 << i) != 0,
{
}

proof fn lemma_line_flips_in_opponent(current: u64, opponent: u64, m: u64, d: int, fuel: nat)
    requires
        single_or_zero(m),
        0 <= d < 8,
    ensures
        line_flips(current, opponent, m, d, fuel) & !opponent == 0,
    decreases fuel,
{
    if fuel == 0 {
        bv_and_or_zero(!opponent);
    } else if m != 0 && m & opponent != 0 {
        let next = shift_dir(m, d);
        bv_shift_single(m);
        if line_closes(current, opponent, next, d, (fuel - 1) as nat) {
            lemma_line_flips_in_opponent(current, opponent, next, d, (fuel - 1) as nat);
            bv_single_in(m, opponent);
            bv_union_subset(m, line_flips(current, opponent, next, d, (fuel - 1) as nat), opponent);
        } else {
            bv_and_or_zero(!opponent);
        }
    } else {
        bv_and_or_zero(!opponent);
    }
}

proof fn lemma_union_dirs_in_opponent(current: u64, opponent: u64, pos: u64, d: int)
    requires
        single_or_zero(pos),
        0 <= d <= 8,
    ensures
        union_dirs(current, opponent, pos, d) & !opponent == 0,
    decreases d,
{
    if d <= 0 {
        bv_and_or_zero(!opponent);
    } else {
        lemma_union_dirs_in_opponent(current, opponent, pos, d - 1);
        bv_shift_single(pos);
        lemma_line_flips_in_opponent(current, opponent, shift_dir(pos, d - 1), d - 1, SCAN_FUEL as nat);
        bv_union_subset(
            union_dirs(current, opponent, pos, d - 1),
            dir_reverse_spec(current, opponent, pos, d - 1),
            opponent,
        );
    }
}

/// The reversal mask of a legal placement flips opponent discs only.
pub proof fn lemma_move_flips_in_opponent(f: u64, s: u64, player: Player, pos: u64)
    requires
        single_or_zero(pos),
    ensures
        match player {
            Player::First => move_flips(f, s, player, pos) & !s == 0,
            Player::Second => move_flips(f, s, player, pos) & !f == 0,
        },
{
    match player {
        Player::First => {
            if (f | s) & pos != 0 {
                bv_and_or_zero(!s);
            } else {
                lemma_union_dirs_in_opponent(f, s, pos, 8);
            }
        },
        Player::Second => {
            if (f | s) & pos != 0 {
                bv_and_or_zero(!f);
            } else {
                lemma_union_dirs_in_opponent(s, f, pos, 8);
            }
        },
    }
}

/// Applying any move to a well-formed board keeps the two sides' discs
/// disjoint: a placement on an empty cell flips opponent discs only, and a
/// placement on an occupied cell is a no-op.
pub proof fn lemma_apply_move_preserves_disjointness(f: u64, s: u64, player: Player, pos: u64)
    requires
        disjoint(f, s),
        single_or_zero(pos),
    ensures
        ({
            let (nf, ns) = board_after_move(f, s, player, pos);
            disjoint(nf, ns)
        }),
{
    if (f | s) & pos != 0 {
        return ;
    }
    let rp = move_flips(f, s, player, pos);
    lemma_move_flips_in_opponent(f, s, player, pos);
    match player {
        Player::First => {
            assert(pos & (f | s) == 0) by (bit_vector)
                requires
                    (f | s) & pos == 0,
            ;
            bv_disjoint_after(f, s, pos, rp);
        },
        Player::Second => {
            assert(s & f == 0 && pos & (s | f) == 0) by (bit_vector)
                requires
                    f & s == 0 && (f | s) & pos == 0,
            ;
            bv_disjoint_after(s, f, pos, rp);
        },
    }
}

/// Applying the same move by the same side to equal boards yields equal
/// boards: move application is a function of (board, side, cell) alone.
pub proof fn lemma_apply_move_deterministic(b1: Board, b2: Board, player: Player, pos: u64)
    requires
        b1.first == b2.first,
        b1.second == b2.second,
    ensures
        board_after_move(b1.first, b1.second, player, pos) == board_after_move(
            b2.first,
            b2.second,
            player,
            pos,
        ),
{
}

} // verus!
