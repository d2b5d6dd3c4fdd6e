use vstd::prelude::*;

use crate::bitboard::{lemma_pow3_mono, pow3};
use crate::board::{
    base3_digit_seq, count_bits, lemma_pop64_le, move_flips, parse_reverse_index, pop64, Board,
};
use crate::player::Player;

verus! {

/// The sizes of the per-width reversal tables: 3^width coded line states.
pub const SIZE_N_REVERSES_3: usize = 27;

pub const SIZE_N_REVERSES_4: usize = 81;

pub const SIZE_N_REVERSES_5: usize = 243;

pub const SIZE_N_REVERSES_6: usize = 729;

pub const SIZE_N_REVERSES_7: usize = 2187;

pub const SIZE_N_REVERSES_8: usize = 6561;

/// The discs of one side of a coded line laid onto the board's first row:
/// cell `k` is occupied by the side whose code is `v` iff digit `k` is `v`.
pub open spec fn embed_side(cells: Seq<u8>, v: u8, k: int) -> u64
    decreases k,
{
    if k <= 0 {
        0
    } else if cells[k - 1] == v {
        embed_side(cells, v, k - 1) | (1u64 << (k - 1))
    } else {
        embed_side(cells, v, k - 1)
    }
}

/// Entry of the reversal precompute table for coded line state `i` at line
/// position `j`: the number of discs the first player would flip by playing
/// cell `j` of the board's first row, with the line's coded cell states
/// embedded there.
pub open spec fn table_entry(i: int, j: int) -> int {
    let cells = base3_digit_seq(i, 8);
    let f = embed_side(cells, 1, 8);
    let s = embed_side(cells, 2, 8);
    pop64(move_flips(f, s, Player::First, (1u64 << j))) as int
}

/// Lays the coded line `cells` onto the board's first row: code 1 becomes a
/// disc of the first side, code 2 one of the second, code 0 an empty cell.
pub fn embed_coded_line_to_top_horizontal_line(cells: &[u8; 8]) -> (r: Board)
    ensures
        r.first == embed_side(cells@, 1, 8),
        r.second == embed_side(cells@, 2, 8),
{
    let mut first: u64 = 0;
    let mut second: u64 = 0;
    let mut i_cell: usize = 0;
    while i_cell < 8
        invariant
            0 <= i_cell <= 8,
            first == embed_side(cells@, 1, i_cell as int),
            second == embed_side(cells@, 2, i_cell as int),
        decreases 8 - i_cell,
    {
        let cell = cells[i_cell];
        if cell == 1 {
            first |= 1u64 << (i_cell as u64);
        } else if cell == 2 {
            second |= 1u64 << (i_cell as u64);
        }
        i_cell = i_cell + 1;
    }
    Board::create(first, second)
}

/// One per-width reversal table is complete and correct: entry `n*i + j`
/// holds the table entry for state `i` at position `j`.
pub open spec fn reverse_table_wf(v: Seq<u64>, n: int, size: int) -> bool {
    &&& v.len() == n * size
    &&& forall|i: int, j: int|
        0 <= i < size && 0 <= j < n ==> #[trigger] v[n * i + j] as int == table_entry(i, j)
}


/// The reversal counts for every coded state of a line of 3 cells: entry
/// `3*i + j` is the number of discs the mover would flip by playing
/// position `j` of the line in state `i`.
pub fn get_size_n_reverses_3() -> (r: Vec<u64>)
    ensures
        reverse_table_wf(r@, 3, 27),
{
    let mut n_reverses: Vec<u64> = Vec::new();
    let mut i: usize = 0;
    while i < 27
        invariant
            0 <= i <= 27,
            n_reverses@.len() == 3 * i,
            forall|ii: int, jj: int|
                0 <= ii < i && 0 <= jj < 3 ==> #[trigger] n_reverses@[3 * ii + jj] as int
                    == table_entry(ii, jj),
        decreases 27 - i,
    {
        let cells = parse_reverse_index(i as u64);
        let board = embed_coded_line_to_top_horizontal_line(&cells);
        let reverse_patterns = board.entire_reverse_patterns(&Player::First);
        let mut j: usize = 0;
        while j < 3
            invariant
                0 <= j <= 3,
                n_reverses@.len() == 3 * i + j,
                board.first == embed_side(base3_digit_seq(i as int, 8), 1, 8),
                board.second == embed_side(base3_digit_seq(i as int, 8), 2, 8),
                reverse_patterns@.len() == 64,
                forall|c: int|
                    0 <= c < 64 ==> reverse_patterns@[c] == move_flips(
                        board.first,
                        board.second,
                        Player::First,
                        (1u64 << c),
                    ),
                forall|ii: int, jj: int|
                    0 <= ii < i && 0 <= jj < 3 ==> #[trigger] n_reverses@[3 * ii + jj] as int
                        == table_entry(ii, jj),
                forall|jj: int|
                    0 <= jj < j ==> #[trigger] n_reverses@[3 * (i as int) + jj] as int
                        == table_entry(i as int, jj),
        decreases 3 - j,
        {
            n_reverses.push(count_bits(reverse_patterns[j]));
            j = j + 1;
        }
        i = i + 1;
    }
    n_reverses
}

/// The reversal counts for every coded state of a line of 4 cells: entry
/// `4*i + j` is the number of discs the mover would flip by playing
/// position `j` of the line in state `i`.
pub fn get_size_n_reverses_4() -> (r: Vec<u64>)
    ensures
        reverse_table_wf(r@, 4, 81),
{
    let mut n_reverses: Vec<u64> = Vec::new();
    let mut i: usize = 0;
    while i < 81
        invariant
            0 <= i <= 81,
            n_reverses@.len() == 4 * i,
            forall|ii: int, jj: int|
                0 <= ii < i && 0 <= jj < 4 ==> #[trigger] n_reverses@[4 * ii + jj] as int
                    == table_entry(ii, jj),
        decreases 81 - i,
    {
        let cells = parse_reverse_index(i as u64);
        let board = embed_coded_line_to_top_horizontal_line(&cells);
        let reverse_patterns = board.entire_reverse_patterns(&Player::First);
        let mut j: usize = 0;
        while j < 4
            invariant
                0 <= j <= 4,
                n_reverses@.len() == 4 * i + j,
                board.first == embed_side(base3_digit_seq(i as int, 8), 1, 8),
                board.second == embed_side(base3_digit_seq(i as int, 8), 2, 8),
                reverse_patterns@.len() == 64,
                forall|c: int|
                    0 <= c < 64 ==> reverse_patterns@[c] == move_flips(
                        board.first,
                        board.second,
                        Player::First,
                        (1u64 << c),
                    ),
                forall|ii: int, jj: int|
                    0 <= ii < i && 0 <= jj < 4 ==> #[trigger] n_reverses@[4 * ii + jj] as int
                        == table_entry(ii, jj),
                forall|jj: int|
                    0 <= jj < j ==> #[trigger] n_reverses@[4 * (i as int) + jj] as int
                        == table_entry(i as int, jj),
        decreases 4 - j,
        {
            n_reverses.push(count_bits(reverse_patterns[j]));
            j = j + 1;
        }
        i = i + 1;
    }
    n_reverses
}

/// The reversal counts for every coded state of a line of 5 cells: entry
/// `5*i + j` is the number of discs the mover would flip by playing
/// position `j` of the line in state `i`.
pub fn get_size_n_reverses_5() -> (r: Vec<u64>)
    ensures
        reverse_table_wf(r@, 5, 243),
{
    let mut n_reverses: Vec<u64> = Vec::new();
    let mut i: usize = 0;
    while i < 243
        invariant
            0 <= i <= 243,
            n_reverses@.len() == 5 * i,
            forall|ii: int, jj: int|
                0 <= ii < i && 0 <= jj < 5 ==> #[trigger] n_reverses@[5 * ii + jj] as int
                    == table_entry(ii, jj),
        decreases 243 - i,
    {
        let cells = parse_reverse_index(i as u64);
        let board = embed_coded_line_to_top_horizontal_line(&cells);
        let reverse_patterns = board.entire_reverse_patterns(&Player::First);
        let mut j: usize = 0;
        while j < 5
            invariant
                0 <= j <= 5,
                n_reverses@.len() == 5 * i + j,
                board.first == embed_side(base3_digit_seq(i as int, 8), 1, 8),
                board.second == embed_side(base3_digit_seq(i as int, 8), 2, 8),
                reverse_patterns@.len() == 64,
                forall|c: int|
                    0 <= c < 64 ==> reverse_patterns@[c] == move_flips(
                        board.first,
                        board.second,
                        Player::First,
                        (1u64 << c),
                    ),
                forall|ii: int, jj: int|
                    0 <= ii < i && 0 <= jj < 5 ==> #[trigger] n_reverses@[5 * ii + jj] as int
                        == table_entry(ii, jj),
                forall|jj: int|
                    0 <= jj < j ==> #[trigger] n_reverses@[5 * (i as int) + jj] as int
                        == table_entry(i as int, jj),
        decreases 5 - j,
        {
            n_reverses.push(count_bits(reverse_patterns[j]));
            j = j + 1;
        }
        i = i + 1;
    }
    n_reverses
}

/// The reversal counts for every coded state of a line of 6 cells: entry
/// `6*i + j` is the number of discs the mover would flip by playing
/// position `j` of the line in state `i`.
pub fn get_size_n_reverses_6() -> (r: Vec<u64>)
    ensures
        reverse_table_wf(r@, 6, 729),
{
    let mut n_reverses: Vec<u64> = Vec::new();
    let mut i: usize = 0;
    while i < 729
        invariant
            0 <= i <= 729,
            n_reverses@.len() == 6 * i,
            forall|ii: int, jj: int|
                0 <= ii < i && 0 <= jj < 6 ==> #[trigger] n_reverses@[6 * ii + jj] as int
                    == table_entry(ii, jj),
        decreases 729 - i,
    {
        let cells = parse_reverse_index(i as u64);
        let board = embed_coded_line_to_top_horizontal_line(&cells);
        let reverse_patterns = board.entire_reverse_patterns(&Player::First);
        let mut j: usize = 0;
        while j < 6
            invariant
                0 <= j <= 6,
                n_reverses@.len() == 6 * i + j,
                board.first == embed_side(base3_digit_seq(i as int, 8), 1, 8),
                board.second == embed_side(base3_digit_seq(i as int, 8), 2, 8),
                reverse_patterns@.len() == 64,
                forall|c: int|
                    0 <= c < 64 ==> reverse_patterns@[c] == move_flips(
                        board.first,
                        board.second,
                        Player::First,
                        (1u64 << c),
                    ),
                forall|ii: int, jj: int|
                    0 <= ii < i && 0 <= jj < 6 ==> #[trigger] n_reverses@[6 * ii + jj] as int
                        == table_entry(ii, jj),
                forall|jj: int|
                    0 <= jj < j ==> #[trigger] n_reverses@[6 * (i as int) + jj] as int
                        == table_entry(i as int, jj),
        decreases 6 - j,
        {
            n_reverses.push(count_bits(reverse_patterns[j]));
            j = j + 1;
        }
        i = i + 1;
    }
    n_reverses
}

/// The reversal counts for every coded state of a line of 7 cells: entry
/// `7*i + j` is the number of discs the mover would flip by playing
/// position `j` of the line in state `i`.
pub fn get_size_n_reverses_7() -> (r: Vec<u64>)
    ensures
        reverse_table_wf(r@, 7, 2187),
{
    let mut n_reverses: Vec<u64> = Vec::new();
    let mut i: usize = 0;
    while i < 2187
        invariant
            0 <= i <= 2187,
            n_reverses@.len() == 7 * i,
            forall|ii: int, jj: int|
                0 <= ii < i && 0 <= jj < 7 ==> #[trigger] n_reverses@[7 * ii + jj] as int
                    == table_entry(ii, jj),
        decreases 2187 - i,
    {
        let cells = parse_reverse_index(i as u64);
        let board = embed_coded_line_to_top_horizontal_line(&cells);
        let reverse_patterns = board.entire_reverse_patterns(&Player::First);
        let mut j: usize = 0;
        while j < 7
            invariant
                0 <= j <= 7,
                n_reverses@.len() == 7 * i + j,
                board.first == embed_side(base3_digit_seq(i as int, 8), 1, 8),
                board.second == embed_side(base3_digit_seq(i as int, 8), 2, 8),
                reverse_patterns@.len() == 64,
                forall|c: int|
                    0 <= c < 64 ==> reverse_patterns@[c] == move_flips(
                        board.first,
                        board.second,
                        Player::First,
                        (1u64 << c),
                    ),
                forall|ii: int, jj: int|
                    0 <= ii < i && 0 <= jj < 7 ==> #[trigger] n_reverses@[7 * ii + jj] as int
                        == table_entry(ii, jj),
                forall|jj: int|
                    0 <= jj < j ==> #[trigger] n_reverses@[7 * (i as int) + jj] as int
                        == table_entry(i as int, jj),
        decreases 7 - j,
        {
            n_reverses.push(count_bits(reverse_patterns[j]));
            j = j + 1;
        }
        i = i + 1;
    }
    n_reverses
}

/// The reversal counts for every coded state of a line of 8 cells: entry
/// `8*i + j` is the number of discs the mover would flip by playing
/// position `j` of the line in state `i`.
pub fn get_size_n_reverses_8() -> (r: Vec<u64>)
    ensures
        reverse_table_wf(r@, 8, 6561),
{
    let mut n_reverses: Vec<u64> = Vec::new();
    let mut i: usize = 0;
    while i < 6561
        invariant
            0 <= i <= 6561,
            n_reverses@.len() == 8 * i,
            forall|ii: int, jj: int|
                0 <= ii < i && 0 <= jj < 8 ==> #[trigger] n_reverses@[8 * ii + jj] as int
                    == table_entry(ii, jj),
        decreases 6561 - i,
    {
        let cells = parse_reverse_index(i as u64);
        let board = embed_coded_line_to_top_horizontal_line(&cells);
        let reverse_patterns = board.entire_reverse_patterns(&Player::First);
        let mut j: usize = 0;
        while j < 8
            invariant
                0 <= j <= 8,
                n_reverses@.len() == 8 * i + j,
                board.first == embed_side(base3_digit_seq(i as int, 8), 1, 8),
                board.second == embed_side(base3_digit_seq(i as int, 8), 2, 8),
                reverse_patterns@.len() == 64,
                forall|c: int|
                    0 <= c < 64 ==> reverse_patterns@[c] == move_flips(
                        board.first,
                        board.second,
                        Player::First,
                        (1u64 << c),
                    ),
                forall|ii: int, jj: int|
                    0 <= ii < i && 0 <= jj < 8 ==> #[trigger] n_reverses@[8 * ii + jj] as int
                        == table_entry(ii, jj),
                forall|jj: int|
                    0 <= jj < j ==> #[trigger] n_reverses@[8 * (i as int) + jj] as int
                        == table_entry(i as int, jj),
        decreases 8 - j,
        {
            n_reverses.push(count_bits(reverse_patterns[j]));
            j = j + 1;
        }
        i = i + 1;
    }
    n_reverses
}

/// The reversal precompute tables for all line widths, built once before
/// search and read-only afterwards.
pub struct ReverseTable {
    pub n3: Vec<u64>,
    pub n4: Vec<u64>,
    pub n5: Vec<u64>,
    pub n6: Vec<u64>,
    pub n7: Vec<u64>,
    pub n8: Vec<u64>,
}

impl ReverseTable {
    pub open spec fn wf(&self) -> bool {
        &&& reverse_table_wf(self.n3@, 3, 27)
        &&& reverse_table_wf(self.n4@, 4, 81)
        &&& reverse_table_wf(self.n5@, 5, 243)
        &&& reverse_table_wf(self.n6@, 6, 729)
        &&& reverse_table_wf(self.n7@, 7, 2187)
        &&& reverse_table_wf(self.n8@, 8, 6561)
    }

    /// Builds every per-width table from the direct directional scan.
    pub fn create() -> (r: ReverseTable)
        ensures
            r.wf(),
    {
        ReverseTable {
            n3: get_size_n_reverses_3(),
            n4: get_size_n_reverses_4(),
            n5: get_size_n_reverses_5(),
            n6: get_size_n_reverses_6(),
            n7: get_size_n_reverses_7(),
            n8: get_size_n_reverses_8(),
        }
    }
}

/// The cells of scan line `l`, in line order: the 38 lines the table query
/// decomposes the board into (the short diagonals of widths 3 to 7 near the
/// corners, then every row, every column, and the two main diagonals).
pub open spec fn line_cells_spec(l: int) -> Seq<usize> {
    if l == 0 {
        seq![5usize, 14usize, 23usize]
    } else if l == 1 {
        seq![40usize, 49usize, 58usize]
    } else if l == 2 {
        seq![2usize, 9usize, 16usize]
    } else if l == 3 {
        seq![47usize, 54usize, 61usize]
    } else if l == 4 {
        seq![4usize, 14usize, 22usize, 31usize]
    } else if l == 5 {
        seq![32usize, 41usize, 50usize, 59usize]
    } else if l == 6 {
        seq![3usize, 10usize, 17usize, 24usize]
    } else if l == 7 {
        seq![39usize, 46usize, 53usize, 60usize]
    } else if l == 8 {
        seq![3usize, 12usize, 21usize, 30usize, 39usize]
    } else if l == 9 {
        seq![24usize, 33usize, 42usize, 51usize, 60usize]
    } else if l == 10 {
        seq![4usize, 11usize, 18usize, 25usize, 32usize]
    } else if l == 11 {
        seq![31usize, 38usize, 45usize, 52usize, 59usize]
    } else if l == 12 {
        seq![2usize, 11usize, 20usize, 29usize, 38usize, 47usize]
    } else if l == 13 {
        seq![16usize, 25usize, 34usize, 43usize, 52usize, 61usize]
    } else if l == 14 {
        seq![5usize, 12usize, 19usize, 26usize, 33usize, 40usize]
    } else if l == 15 {
        seq![23usize, 30usize, 37usize, 44usize, 51usize, 58usize]
    } else if l == 16 {
        seq![1usize, 10usize, 19usize, 28usize, 37usize, 46usize, 55usize]
    } else if l == 17 {
        seq![8usize, 17usize, 26usize, 35usize, 44usize, 53usize, 62usize]
    } else if l == 18 {
        seq![6usize, 13usize, 20usize, 27usize, 34usize, 41usize, 48usize]
    } else if l == 19 {
        seq![15usize, 22usize, 29usize, 36usize, 43usize, 50usize, 57usize]
    } else if l == 20 {
        seq![0usize, 8usize, 16usize, 24usize, 32usize, 40usize, 48usize, 56usize]
    } else if l == 21 {
        seq![1usize, 9usize, 17usize, 25usize, 33usize, 41usize, 49usize, 57usize]
    } else if l == 22 {
        seq![2usize, 10usize, 18usize, 26usize, 34usize, 42usize, 50usize, 58usize]
    } else if l == 23 {
        seq![3usize, 11usize, 19usize, 27usize, 35usize, 43usize, 51usize, 59usize]
    } else if l == 24 {
        seq![4usize, 12usize, 20usize, 28usize, 36usize, 44usize, 52usize, 60usize]
    } else if l == 25 {
        seq![5usize, 13usize, 21usize, 29usize, 37usize, 45usize, 53usize, 61usize]
    } else if l == 26 {
        seq![6usize, 14usize, 22usize, 30usize, 38usize, 46usize, 54usize, 62usize]
    } else if l == 27 {
        seq![7usize, 15usize, 23usize, 31usize, 39usize, 47usize, 55usize, 63usize]
    } else if l == 28 {
        seq![0usize, 1usize, 2usize, 3usize, 4usize, 5usize, 6usize, 7usize]
    } else if l == 29 {
        seq![8usize, 9usize, 10usize, 11usize, 12usize, 13usize, 14usize, 15usize]
    } else if l == 30 {
        seq![16usize, 17usize, 18usize, 19usize, 20usize, 21usize, 22usize, 23usize]
    } else if l == 31 {
        seq![24usize, 25usize, 26usize, 27usize, 28usize, 29usize, 30usize, 31usize]
    } else if l == 32 {
        seq![32usize, 33usize, 34usize, 35usize, 36usize, 37usize, 38usize, 39usize]
    } else if l == 33 {
        seq![40usize, 41usize, 42usize, 43usize, 44usize, 45usize, 46usize, 47usize]
    } else if l == 34 {
        seq![48usize, 49usize, 50usize, 51usize, 52usize, 53usize, 54usize, 55usize]
    } else if l == 35 {
        seq![56usize, 57usize, 58usize, 59usize, 60usize, 61usize, 62usize, 63usize]
    } else if l == 36 {
        seq![0usize, 9usize, 18usize, 27usize, 36usize, 45usize, 54usize, 63usize]
    } else if l == 37 {
        seq![7usize, 14usize, 21usize, 28usize, 35usize, 42usize, 49usize, 56usize]
    } else {
        Seq::empty()
    }
}

/// The cells of scan line `l`.
pub fn scan_line_row(l: usize) -> (r: Vec<usize>)
    requires
        l < 38,
    ensures
        r@ == line_cells_spec(l as int),
        3 <= r@.len() <= 8,
        forall|j: int| 0 <= j < r@.len() ==> #[trigger] r@[j] < 64,
{
    let r: Vec<usize> = match l {
        0 => vec![5, 14, 23],
        1 => vec![40, 49, 58],
        2 => vec![2, 9, 16],
        3 => vec![47, 54, 61],
        4 => vec![4, 14, 22, 31],
        5 => vec![32, 41, 50, 59],
        6 => vec![3, 10, 17, 24],
        7 => vec![39, 46, 53, 60],
        8 => vec![3, 12, 21, 30, 39],
        9 => vec![24, 33, 42, 51, 60],
        10 => vec![4, 11, 18, 25, 32],
        11 => vec![31, 38, 45, 52, 59],
        12 => vec![2, 11, 20, 29, 38, 47],
        13 => vec![16, 25, 34, 43, 52, 61],
        14 => vec![5, 12, 19, 26, 33, 40],
        15 => vec![23, 30, 37, 44, 51, 58],
        16 => vec![1, 10, 19, 28, 37, 46, 55],
        17 => vec![8, 17, 26, 35, 44, 53, 62],
        18 => vec![6, 13, 20, 27, 34, 41, 48],
        19 => vec![15, 22, 29, 36, 43, 50, 57],
        20 => vec![0, 8, 16, 24, 32, 40, 48, 56],
        21 => vec![1, 9, 17, 25, 33, 41, 49, 57],
        22 => vec![2, 10, 18, 26, 34, 42, 50, 58],
        23 => vec![3, 11, 19, 27, 35, 43, 51, 59],
        24 => vec![4, 12, 20, 28, 36, 44, 52, 60],
        25 => vec![5, 13, 21, 29, 37, 45, 53, 61],
        26 => vec![6, 14, 22, 30, 38, 46, 54, 62],
        27 => vec![7, 15, 23, 31, 39, 47, 55, 63],
        28 => vec![0, 1, 2, 3, 4, 5, 6, 7],
        29 => vec![8, 9, 10, 11, 12, 13, 14, 15],
        30 => vec![16, 17, 18, 19, 20, 21, 22, 23],
        31 => vec![24, 25, 26, 27, 28, 29, 30, 31],
        32 => vec![32, 33, 34, 35, 36, 37, 38, 39],
        33 => vec![40, 41, 42, 43, 44, 45, 46, 47],
        34 => vec![48, 49, 50, 51, 52, 53, 54, 55],
        35 => vec![56, 57, 58, 59, 60, 61, 62, 63],
        36 => vec![0, 9, 18, 27, 36, 45, 54, 63],
        37 => vec![7, 14, 21, 28, 35, 42, 49, 56],
        _ => Vec::new(),
    };
    proof {
        if l == 0 {
            assert(r@ =~= line_cells_spec(0));
        }
        if l == 1 {
            assert(r@ =~= line_cells_spec(1));
        }
        if l == 2 {
            assert(r@ =~= line_cells_spec(2));
        }
        if l == 3 {
            assert(r@ =~= line_cells_spec(3));
        }
        if l == 4 {
            assert(r@ =~= line_cells_spec(4));
        }
        if l == 5 {
            assert(r@ =~= line_cells_spec(5));
        }
        if l == 6 {
            assert(r@ =~= line_cells_spec(6));
        }
        if l == 7 {
            assert(r@ =~= line_cells_spec(7));
        }
        if l == 8 {
            assert(r@ =~= line_cells_spec(8));
        }
        if l == 9 {
            assert(r@ =~= line_cells_spec(9));
        }
        if l == 10 {
            assert(r@ =~= line_cells_spec(10));
        }
        if l == 11 {
            assert(r@ =~= line_cells_spec(11));
        }
        if l == 12 {
            assert(r@ =~= line_cells_spec(12));
        }
        if l == 13 {
            assert(r@ =~= line_cells_spec(13));
        }
        if l == 14 {
            assert(r@ =~= line_cells_spec(14));
        }
        if l == 15 {
            assert(r@ =~= line_cells_spec(15));
        }
        if l == 16 {
            assert(r@ =~= line_cells_spec(16));
        }
        if l == 17 {
            assert(r@ =~= line_cells_spec(17));
        }
        if l == 18 {
            assert(r@ =~= line_cells_spec(18));
        }
        if l == 19 {
            assert(r@ =~= line_cells_spec(19));
        }
        if l == 20 {
            assert(r@ =~= line_cells_spec(20));
        }
        if l == 21 {
            assert(r@ =~= line_cells_spec(21));
        }
        if l == 22 {
            assert(r@ =~= line_cells_spec(22));
        }
        if l == 23 {
            assert(r@ =~= line_cells_spec(23));
        }
        if l == 24 {
            assert(r@ =~= line_cells_spec(24));
        }
        if l == 25 {
            assert(r@ =~= line_cells_spec(25));
        }
        if l == 26 {
            assert(r@ =~= line_cells_spec(26));
        }
        if l == 27 {
            assert(r@ =~= line_cells_spec(27));
        }
        if l == 28 {
            assert(r@ =~= line_cells_spec(28));
        }
        if l == 29 {
            assert(r@ =~= line_cells_spec(29));
        }
        if l == 30 {
            assert(r@ =~= line_cells_spec(30));
        }
        if l == 31 {
            assert(r@ =~= line_cells_spec(31));
        }
        if l == 32 {
            assert(r@ =~= line_cells_spec(32));
        }
        if l == 33 {
            assert(r@ =~= line_cells_spec(33));
        }
        if l == 34 {
            assert(r@ =~= line_cells_spec(34));
        }
        if l == 35 {
            assert(r@ =~= line_cells_spec(35));
        }
        if l == 36 {
            assert(r@ =~= line_cells_spec(36));
        }
        if l == 37 {
            assert(r@ =~= line_cells_spec(37));
        }
    }
    r
}

/// The coded state of board cell `c`: 0 empty, 1 a disc of `cur`, 2 one of `opp`.
pub open spec fn cell_code(cur: u64, opp: u64, c: usize) -> int {
    if cur & (1u64 << c) != 0 {
        1
    } else if opp & (1u64 << c) != 0 {
        2
    } else {
        0
    }
}

/// The base-3 code of scan line `l` on board `(cur, opp)`, summed from line
/// position `j` on.
pub open spec fn line_code_from(cur: u64, opp: u64, l: int, j: int) -> int
    decreases line_cells_spec(l).len() - j,
{
    if j < 0 || j >= line_cells_spec(l).len() {
        0
    } else {
        cell_code(cur, opp, line_cells_spec(l)[j]) * pow3(j as nat) + line_code_from(cur, opp, l, j + 1)
    }
}

/// Position of board cell `c` in scan line `l` at or after `j`, or -1.
pub open spec fn pos_in_line(l: int, c: int, j: int) -> int
    decreases line_cells_spec(l).len() - j,
{
    if j < 0 || j >= line_cells_spec(l).len() {
        -1
    } else if line_cells_spec(l)[j] == c {
        j
    } else {
        pos_in_line(l, c, j + 1)
    }
}

/// The reversal count scan line `l` contributes to board cell `c`: the
/// precomputed entry of the line's coded state at the cell's position, or
/// nothing when the line misses the cell.
pub open spec fn line_contrib(cur: u64, opp: u64, l: int, c: int) -> int {
    if pos_in_line(l, c, 0) >= 0 {
        table_entry(line_code_from(cur, opp, l, 0), pos_in_line(l, c, 0))
    } else {
        0
    }
}

/// The summed contributions of the scan lines before `l` to board cell `c`.
pub open spec fn reverses_prefix(cur: u64, opp: u64, c: int, l: int) -> int
    decreases l,
{
    if l <= 0 {
        0
    } else {
        reverses_prefix(cur, opp, c, l - 1) + line_contrib(cur, opp, l - 1, c)
    }
}

/// The table-computed reversal count of board cell `c` for the mover owning
/// `cur` against `opp`: the sum over all 38 scan lines through the board of
/// the line's precomputed per-position count at `c`.
pub open spec fn table_reverse_counts(cur: u64, opp: u64, c: int) -> int {
    reverses_prefix(cur, opp, c, 38)
}

proof fn lemma_line_code_bound(cur: u64, opp: u64, l: int, j: int)
    requires
        0 <= j <= line_cells_spec(l).len(),
    ensures
        0 <= line_code_from(cur, opp, l, j),
        line_code_from(cur, opp, l, j) <= pow3(line_cells_spec(l).len() as nat) - pow3(j as nat),
    decreases line_cells_spec(l).len() - j,
{
    let len = line_cells_spec(l).len() as int;
    if j < len {
        lemma_line_code_bound(cur, opp, l, j + 1);
        let cc = cell_code(cur, opp, line_cells_spec(l)[j]);
        let p = pow3(j as nat) as int;
        lemma_pow3_mono(0, j as nat);
        assert(0 <= cc * p && cc * p <= 2 * p) by (nonlinear_arith)
            requires
                0 <= cc <= 2,
                0 < p,
        ;
        assert(pow3((j + 1) as nat) == 3 * pow3(j as nat));
    } else {
        lemma_pow3_mono(j as nat, line_cells_spec(l).len() as nat);
    }
}

/// Every table entry is a disc count of one line: at most 64.
proof fn lemma_table_entry_range(i: int, j: int)
    ensures
        0 <= table_entry(i, j) <= 64,
{
    let cells = base3_digit_seq(i, 8);
    lemma_pop64_le(move_flips(embed_side(cells, 1, 8), embed_side(cells, 2, 8), Player::First, (1u64 << j)));
}

impl Board {
    /// The reversal count of every cell for `player` to move, computed by
    /// the precomputed line tables: the board is decomposed into 38 scan
    /// lines and each cell sums its lines' precomputed per-position counts.
    pub fn get_n_reverses(&self, player: &Player, table: &ReverseTable) -> (r: Vec<u64>)
        requires
            table.wf(),
        ensures
            r@.len() == 64,
            ({
                let (cur, opp) = match *player {
                    Player::First => (self.first, self.second),
                    Player::Second => (self.second, self.first),
                };
                forall|c: int| 0 <= c < 64 ==> #[trigger] r@[c] as int == table_reverse_counts(cur, opp, c)
            }),
    {
        let (current, opponent) = match player {
            Player::First => (self.first, self.second),
            Player::Second => (self.second, self.first),
        };
        let mut result: Vec<u64> = Vec::new();
        let mut c: usize = 0;
        while c < 64
            invariant
                0 <= c <= 64,
                result@.len() == c,
                forall|cc: int|
                    0 <= cc < c ==> #[trigger] result@[cc] as int == table_reverse_counts(
                        current,
                        opponent,
                        cc,
                    ),
            decreases 64 - c,
        {
            let mut total: u64 = 0;
            let mut l: usize = 0;
            while l < 38
                invariant
                    0 <= l <= 38,
                    total as int == reverses_prefix(current, opponent, c as int, l as int),
                    total <= 64 * l,
                decreases 38 - l,
            {
                let cells = scan_line_row(l);
                let len = cells.len();
                let mut j: usize = 0;
                while j < len && cells[j] != c
                    invariant
                        0 <= j <= len,
                        len == line_cells_spec(l as int).len(),
                        cells@ == line_cells_spec(l as int),
                        pos_in_line(l as int, c as int, 0) == pos_in_line(l as int, c as int, j as int),
                    decreases len - j,
                {
                    j = j + 1;
                }
                proof {
                    lemma_table_entry_range(line_code_from(current, opponent, l as int, 0), j as int);
                }
                if j < len {
                    // The cell lies on this line at position j: code the
                    // line's state and look the count up.
                    let mut code: u64 = 0;
                    let mut power: u64 = 1;
                    let mut jj: usize = 0;
                    proof {
                        lemma_pow3_mono(0, 8);
                        assert(pow3(8) == 6561) by {
                            reveal_with_fuel(pow3, 9);
                        }
                    }
                    while jj < len
                        invariant
                            0 <= jj <= len,
                            len == line_cells_spec(l as int).len(),
                            cells@ == line_cells_spec(l as int),
                            3 <= len <= 8,
                            forall|x: int| 0 <= x < len ==> #[trigger] cells@[x] < 64,
                            power == pow3(jj as nat),
                            power <= 6561,
                            code as int + line_code_from(current, opponent, l as int, jj as int)
                                == line_code_from(current, opponent, l as int, 0),
                            code <= 3 * pow3(jj as nat),
                        decreases len - jj,
                    {
                        let cell = cells[jj];
                        let state: u64 = if current & (1u64 << (cell as u64)) != 0 {
                            1
                        } else if opponent & (1u64 << (cell as u64)) != 0 {
                            2
                        } else {
                            0
                        };
                        proof {
                            lemma_pow3_mono(0, jj as nat);
                            assert(state * power <= 2 * power) by (nonlinear_arith)
                                requires
                                    0 <= state <= 2,
                                    0 < power,
                            ;
                            assert(pow3((jj + 1) as nat) == 3 * pow3(jj as nat));
                            lemma_pow3_mono((jj + 1) as nat, 8);
                        }
                        code = code + state * power;
                        power = power * 3;
                        jj = jj + 1;
                    }
                    proof {
                        lemma_line_code_bound(current, opponent, l as int, 0);
                        reveal_with_fuel(pow3, 9);
                    }
                    let entry: u64 = if len == 3 {
                        table.n3[3 * (code as usize) + j]
                    } else if len == 4 {
                        table.n4[4 * (code as usize) + j]
                    } else if len == 5 {
                        table.n5[5 * (code as usize) + j]
                    } else if len == 6 {
                        table.n6[6 * (code as usize) + j]
                    } else if len == 7 {
                        table.n7[7 * (code as usize) + j]
                    } else {
                        table.n8[8 * (code as usize) + j]
                    };
                    total = total + entry;
                } else {
                    // The line misses this cell and contributes nothing.
                }
                l = l + 1;
            }
            result.push(total);
            c = c + 1;
        }
        result
    }
}

} // verus!
