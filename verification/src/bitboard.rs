use vstd::prelude::*;

use crate::board::Board;
use crate::board::digit_char;
use crate::player::Player;

verus! {

use vstd::string::StringExecFns;

/// Powers of three, the radix of the cell-state encoding.
pub open spec fn pow3(e: nat) -> nat
    decreases e,
{
    if e == 0 {
        1
    } else {
        3 * pow3((e - 1) as nat)
    }
}

pub proof fn lemma_pow3_mono(aa: nat, bb: nat)
    requires
        aa <= bb,
    ensures
        pow3(aa) <= pow3(bb),
    decreases bb,
{
    if aa < bb {
        lemma_pow3_mono(aa, (bb - 1) as nat);
    }
}

/// The ordered cell list of geometric template instance `t`: eleven base
/// templates (diagonals of length 4 to 8, three row segments, the edge shape
/// and the two corner shapes), each replicated at four quarter-turn
/// rotations, the rotations pre-baked as their own cell lists.  A `-1` entry
/// marks an unused trailing slot.
pub open spec fn pattern_spec(t: int) -> Seq<i64> {
    if t == 0 {
        seq![3i64, 10i64, 17i64, 24i64, -1i64, -1i64, -1i64, -1i64, -1i64, -1i64]
    } else if t == 1 {
        seq![4i64, 11i64, 18i64, 25i64, 32i64, -1i64, -1i64, -1i64, -1i64, -1i64]
    } else if t == 2 {
        seq![5i64, 12i64, 19i64, 26i64, 33i64, 40i64, -1i64, -1i64, -1i64, -1i64]
    } else if t == 3 {
        seq![6i64, 13i64, 20i64, 27i64, 34i64, 41i64, 48i64, -1i64, -1i64, -1i64]
    } else if t == 4 {
        seq![7i64, 14i64, 21i64, 28i64, 35i64, 42i64, 49i64, 56i64, -1i64, -1i64]
    } else if t == 5 {
        seq![8i64, 9i64, 10i64, 11i64, 12i64, 13i64, 14i64, 15i64, -1i64, -1i64]
    } else if t == 6 {
        seq![16i64, 17i64, 18i64, 19i64, 20i64, 21i64, 22i64, 23i64, -1i64, -1i64]
    } else if t == 7 {
        seq![24i64, 25i64, 26i64, 27i64, 28i64, 29i64, 30i64, 31i64, -1i64, -1i64]
    } else if t == 8 {
        seq![0i64, 1i64, 2i64, 3i64, 4i64, 5i64, 6i64, 7i64, 9i64, 14i64]
    } else if t == 9 {
        seq![0i64, 1i64, 2i64, 3i64, 4i64, 8i64, 9i64, 10i64, 11i64, 12i64]
    } else if t == 10 {
        seq![0i64, 1i64, 2i64, 8i64, 9i64, 10i64, 16i64, 17i64, 18i64, -1i64]
    } else if t == 11 {
        seq![31i64, 22i64, 13i64, 4i64, -1i64, -1i64, -1i64, -1i64, -1i64, -1i64]
    } else if t == 12 {
        seq![39i64, 30i64, 21i64, 12i64, 3i64, -1i64, -1i64, -1i64, -1i64, -1i64]
    } else if t == 13 {
        seq![47i64, 38i64, 29i64, 20i64, 11i64, 2i64, -1i64, -1i64, -1i64, -1i64]
    } else if t == 14 {
        seq![55i64, 46i64, 37i64, 28i64, 19i64, 10i64, 1i64, -1i64, -1i64, -1i64]
    } else if t == 15 {
        seq![63i64, 54i64, 45i64, 36i64, 27i64, 18i64, 9i64, 0i64, -1i64, -1i64]
    } else if t == 16 {
        seq![6i64, 14i64, 22i64, 30i64, 38i64, 46i64, 54i64, 62i64, -1i64, -1i64]
    } else if t == 17 {
        seq![5i64, 13i64, 21i64, 29i64, 37i64, 45i64, 53i64, 61i64, -1i64, -1i64]
    } else if t == 18 {
        seq![4i64, 12i64, 20i64, 28i64, 36i64, 44i64, 52i64, 60i64, -1i64, -1i64]
    } else if t == 19 {
        seq![7i64, 15i64, 23i64, 31i64, 39i64, 47i64, 55i64, 63i64, 14i64, 54i64]
    } else if t == 20 {
        seq![7i64, 15i64, 23i64, 31i64, 39i64, 6i64, 14i64, 22i64, 30i64, 38i64]
    } else if t == 21 {
        seq![7i64, 15i64, 23i64, 8i64, 9i64, 10i64, 16i64, 17i64, 18i64, -1i64]
    } else if t == 22 {
        seq![60i64, 53i64, 46i64, 39i64, -1i64, -1i64, -1i64, -1i64, -1i64, -1i64]
    } else if t == 23 {
        seq![59i64, 52i64, 45i64, 38i64, 31i64, -1i64, -1i64, -1i64, -1i64, -1i64]
    } else if t == 24 {
        seq![58i64, 51i64, 44i64, 37i64, 30i64, 23i64, -1i64, -1i64, -1i64, -1i64]
    } else if t == 25 {
        seq![57i64, 50i64, 43i64, 36i64, 29i64, 22i64, 15i64, -1i64, -1i64, -1i64]
    } else if t == 26 {
        seq![56i64, 49i64, 42i64, 35i64, 28i64, 21i64, 14i64, 7i64, -1i64, -1i64]
    } else if t == 27 {
        seq![55i64, 54i64, 53i64, 52i64, 51i64, 50i64, 49i64, 48i64, -1i64, -1i64]
    } else if t == 28 {
        seq![47i64, 46i64, 45i64, 44i64, 43i64, 42i64, 41i64, 40i64, -1i64, -1i64]
    } else if t == 29 {
        seq![39i64, 38i64, 37i64, 36i64, 35i64, 34i64, 33i64, 32i64, -1i64, -1i64]
    } else if t == 30 {
        seq![63i64, 62i64, 61i64, 60i64, 59i64, 58i64, 57i64, 56i64, 54i64, 49i64]
    } else if t == 31 {
        seq![63i64, 62i64, 61i64, 60i64, 59i64, 55i64, 54i64, 53i64, 52i64, 51i64]
    } else if t == 32 {
        seq![63i64, 62i64, 61i64, 55i64, 54i64, 53i64, 47i64, 46i64, 45i64, -1i64]
    } else if t == 33 {
        seq![32i64, 41i64, 50i64, 59i64, -1i64, -1i64, -1i64, -1i64, -1i64, -1i64]
    } else if t == 34 {
        seq![24i64, 33i64, 42i64, 51i64, 60i64, -1i64, -1i64, -1i64, -1i64, -1i64]
    } else if t == 35 {
        seq![16i64, 25i64, 34i64, 43i64, 52i64, 61i64, -1i64, -1i64, -1i64, -1i64]
    } else if t == 36 {
        seq![8i64, 17i64, 26i64, 35i64, 44i64, 53i64, 62i64, -1i64, -1i64, -1i64]
    } else if t == 37 {
        seq![0i64, 9i64, 18i64, 27i64, 36i64, 45i64, 54i64, 63i64, -1i64, -1i64]
    } else if t == 38 {
        seq![57i64, 49i64, 41i64, 33i64, 25i64, 17i64, 9i64, 1i64, -1i64, -1i64]
    } else if t == 39 {
        seq![58i64, 50i64, 42i64, 34i64, 26i64, 18i64, 10i64, 2i64, -1i64, -1i64]
    } else if t == 40 {
        seq![59i64, 51i64, 43i64, 35i64, 27i64, 19i64, 11i64, 3i64, -1i64, -1i64]
    } else if t == 41 {
        seq![56i64, 48i64, 40i64, 32i64, 24i64, 16i64, 8i64, 0i64, 49i64, 9i64]
    } else if t == 42 {
        seq![56i64, 48i64, 40i64, 32i64, 24i64, 57i64, 49i64, 41i64, 33i64, 25i64]
    } else if t == 43 {
        seq![56i64, 48i64, 40i64, 57i64, 49i64, 41i64, 58i64, 50i64, 42i64, -1i64]
    } else {
        Seq::empty()
    }
}

/// Number of used cells of base template `j`.
pub open spec fn template_cells_spec(j: int) -> int {
    if j == 0 {
        4
    } else if j == 1 {
        5
    } else if j == 2 {
        6
    } else if j == 3 {
        7
    } else if j == 4 {
        8
    } else if j == 5 {
        8
    } else if j == 6 {
        8
    } else if j == 7 {
        8
    } else if j == 8 {
        10
    } else if j == 9 {
        10
    } else if j == 10 {
        9
    } else {
        0
    }
}

/// A template's cells all lie on the board, with `-1` only as padding.
pub open spec fn pattern_valid(p: Seq<i64>) -> bool {
    p.len() == 10 && forall|i: int| 0 <= i < 10 ==> -1 <= #[trigger] p[i] < 64
}

/// Index of the first unused slot of template `p` at or after `i`.
pub open spec fn used_cells_from(p: Seq<i64>, i: int) -> int
    decreases 10 - i,
{
    if i >= 10 || i < 0 || p[i] < 0 {
        i
    } else {
        used_cells_from(p, i + 1)
    }
}

/// The cell list of template instance `t`.
pub fn pattern_row(t: usize) -> (r: [i64; 10])
    requires
        t < 44,
    ensures
        r@ == pattern_spec(t as int),
        pattern_valid(r@),
        used_cells_from(r@, 0) == template_cells_spec(t as int % 11),
{
    proof {
        reveal_with_fuel(used_cells_from, 12);
    }
    match t {
        0 => {
            let r: [i64; 10] = [3, 10, 17, 24, -1, -1, -1, -1, -1, -1];
            proof {
                assert(r@ =~= pattern_spec(0));
            }
            r
        },
        1 => {
            let r: [i64; 10] = [4, 11, 18, 25, 32, -1, -1, -1, -1, -1];
            proof {
                assert(r@ =~= pattern_spec(1));
            }
            r
        },
        2 => {
            let r: [i64; 10] = [5, 12, 19, 26, 33, 40, -1, -1, -1, -1];
            proof {
                assert(r@ =~= pattern_spec(2));
            }
            r
        },
        3 => {
            let r: [i64; 10] = [6, 13, 20, 27, 34, 41, 48, -1, -1, -1];
            proof {
                assert(r@ =~= pattern_spec(3));
            }
            r
        },
        4 => {
            let r: [i64; 10] = [7, 14, 21, 28, 35, 42, 49, 56, -1, -1];
            proof {
                assert(r@ =~= pattern_spec(4));
            }
            r
        },
        5 => {
            let r: [i64; 10] = [8, 9, 10, 11, 12, 13, 14, 15, -1, -1];
            proof {
                assert(r@ =~= pattern_spec(5));
            }
            r
        },
        6 => {
            let r: [i64; 10] = [16, 17, 18, 19, 20, 21, 22, 23, -1, -1];
            proof {
                assert(r@ =~= pattern_spec(6));
            }
            r
        },
        7 => {
            let r: [i64; 10] = [24, 25, 26, 27, 28, 29, 30, 31, -1, -1];
            proof {
                assert(r@ =~= pattern_spec(7));
            }
            r
        },
        8 => {
            let r: [i64; 10] = [0, 1, 2, 3, 4, 5, 6, 7, 9, 14];
            proof {
                assert(r@ =~= pattern_spec(8));
            }
            r
        },
        9 => {
            let r: [i64; 10] = [0, 1, 2, 3, 4, 8, 9, 10, 11, 12];
            proof {
                assert(r@ =~= pattern_spec(9));
            }
            r
        },
        10 => {
            let r: [i64; 10] = [0, 1, 2, 8, 9, 10, 16, 17, 18, -1];
            proof {
                assert(r@ =~= pattern_spec(10));
            }
            r
        },
        11 => {
            let r: [i64; 10] = [31, 22, 13, 4, -1, -1, -1, -1, -1, -1];
            proof {
                assert(r@ =~= pattern_spec(11));
            }
            r
        },
        12 => {
            let r: [i64; 10] = [39, 30, 21, 12, 3, -1, -1, -1, -1, -1];
            proof {
                assert(r@ =~= pattern_spec(12));
            }
            r
        },
        13 => {
            let r: [i64; 10] = [47, 38, 29, 20, 11, 2, -1, -1, -1, -1];
            proof {
                assert(r@ =~= pattern_spec(13));
            }
            r
        },
        14 => {
            let r: [i64; 10] = [55, 46, 37, 28, 19, 10, 1, -1, -1, -1];
            proof {
                assert(r@ =~= pattern_spec(14));
            }
            r
        },
        15 => {
            let r: [i64; 10] = [63, 54, 45, 36, 27, 18, 9, 0, -1, -1];
            proof {
                assert(r@ =~= pattern_spec(15));
            }
            r
        },
        16 => {
            let r: [i64; 10] = [6, 14, 22, 30, 38, 46, 54, 62, -1, -1];
            proof {
                assert(r@ =~= pattern_spec(16));
            }
            r
        },
        17 => {
            let r: [i64; 10] = [5, 13, 21, 29, 37, 45, 53, 61, -1, -1];
            proof {
                assert(r@ =~= pattern_spec(17));
            }
            r
        },
        18 => {
            let r: [i64; 10] = [4, 12, 20, 28, 36, 44, 52, 60, -1, -1];
            proof {
                assert(r@ =~= pattern_spec(18));
            }
            r
        },
        19 => {
            let r: [i64; 10] = [7, 15, 23, 31, 39, 47, 55, 63, 14, 54];
            proof {
                assert(r@ =~= pattern_spec(19));
            }
            r
        },
        20 => {
            let r: [i64; 10] = [7, 15, 23, 31, 39, 6, 14, 22, 30, 38];
            proof {
                assert(r@ =~= pattern_spec(20));
            }
            r
        },
        21 => {
            let r: [i64; 10] = [7, 15, 23, 8, 9, 10, 16, 17, 18, -1];
            proof {
                assert(r@ =~= pattern_spec(21));
            }
            r
        },
        22 => {
            let r: [i64; 10] = [60, 53, 46, 39, -1, -1, -1, -1, -1, -1];
            proof {
                assert(r@ =~= pattern_spec(22));
            }
            r
        },
        23 => {
            let r: [i64; 10] = [59, 52, 45, 38, 31, -1, -1, -1, -1, -1];
            proof {
                assert(r@ =~= pattern_spec(23));
            }
            r
        },
        24 => {
            let r: [i64; 10] = [58, 51, 44, 37, 30, 23, -1, -1, -1, -1];
            proof {
                assert(r@ =~= pattern_spec(24));
            }
            r
        },
        25 => {
            let r: [i64; 10] = [57, 50, 43, 36, 29, 22, 15, -1, -1, -1];
            proof {
                assert(r@ =~= pattern_spec(25));
            }
            r
        },
        26 => {
            let r: [i64; 10] = [56, 49, 42, 35, 28, 21, 14, 7, -1, -1];
            proof {
                assert(r@ =~= pattern_spec(26));
            }
            r
        },
        27 => {
            let r: [i64; 10] = [55, 54, 53, 52, 51, 50, 49, 48, -1, -1];
            proof {
                assert(r@ =~= pattern_spec(27));
            }
            r
        },
        28 => {
            let r: [i64; 10] = [47, 46, 45, 44, 43, 42, 41, 40, -1, -1];
            proof {
                assert(r@ =~= pattern_spec(28));
            }
            r
        },
        29 => {
            let r: [i64; 10] = [39, 38, 37, 36, 35, 34, 33, 32, -1, -1];
            proof {
                assert(r@ =~= pattern_spec(29));
            }
            r
        },
        30 => {
            let r: [i64; 10] = [63, 62, 61, 60, 59, 58, 57, 56, 54, 49];
            proof {
                assert(r@ =~= pattern_spec(30));
            }
            r
        },
        31 => {
            let r: [i64; 10] = [63, 62, 61, 60, 59, 55, 54, 53, 52, 51];
            proof {
                assert(r@ =~= pattern_spec(31));
            }
            r
        },
        32 => {
            let r: [i64; 10] = [63, 62, 61, 55, 54, 53, 47, 46, 45, -1];
            proof {
                assert(r@ =~= pattern_spec(32));
            }
            r
        },
        33 => {
            let r: [i64; 10] = [32, 41, 50, 59, -1, -1, -1, -1, -1, -1];
            proof {
                assert(r@ =~= pattern_spec(33));
            }
            r
        },
        34 => {
            let r: [i64; 10] = [24, 33, 42, 51, 60, -1, -1, -1, -1, -1];
            proof {
                assert(r@ =~= pattern_spec(34));
            }
            r
        },
        35 => {
            let r: [i64; 10] = [16, 25, 34, 43, 52, 61, -1, -1, -1, -1];
            proof {
                assert(r@ =~= pattern_spec(35));
            }
            r
        },
        36 => {
            let r: [i64; 10] = [8, 17, 26, 35, 44, 53, 62, -1, -1, -1];
            proof {
                assert(r@ =~= pattern_spec(36));
            }
            r
        },
        37 => {
            let r: [i64; 10] = [0, 9, 18, 27, 36, 45, 54, 63, -1, -1];
            proof {
                assert(r@ =~= pattern_spec(37));
            }
            r
        },
        38 => {
            let r: [i64; 10] = [57, 49, 41, 33, 25, 17, 9, 1, -1, -1];
            proof {
                assert(r@ =~= pattern_spec(38));
            }
            r
        },
        39 => {
            let r: [i64; 10] = [58, 50, 42, 34, 26, 18, 10, 2, -1, -1];
            proof {
                assert(r@ =~= pattern_spec(39));
            }
            r
        },
        40 => {
            let r: [i64; 10] = [59, 51, 43, 35, 27, 19, 11, 3, -1, -1];
            proof {
                assert(r@ =~= pattern_spec(40));
            }
            r
        },
        41 => {
            let r: [i64; 10] = [56, 48, 40, 32, 24, 16, 8, 0, 49, 9];
            proof {
                assert(r@ =~= pattern_spec(41));
            }
            r
        },
        42 => {
            let r: [i64; 10] = [56, 48, 40, 32, 24, 57, 49, 41, 33, 25];
            proof {
                assert(r@ =~= pattern_spec(42));
            }
            r
        },
        43 => {
            let r: [i64; 10] = [56, 48, 40, 57, 49, 41, 58, 50, 42, -1];
            proof {
                assert(r@ =~= pattern_spec(43));
            }
            r
        },
        _ => [-1, -1, -1, -1, -1, -1, -1, -1, -1, -1],
    }
}

/// The complete template table: `ALL_PATTERNS` of the feature extractor,
/// row `t` being the cell list of template instance `t`.
pub fn all_patterns() -> (r: Vec<[i64; 10]>)
    ensures
        r@.len() == 44,
        forall|t: int| 0 <= t < 44 ==> #[trigger] r@[t]@ == pattern_spec(t),
{
    let mut v: Vec<[i64; 10]> = Vec::new();
    for t in 0..44usize
        invariant
            v@.len() == t,
            forall|j: int| 0 <= j < t ==> #[trigger] v@[j]@ == pattern_spec(j),
    {
        v.push(pattern_row(t));
    }
    v
}

/// Bit `i` of `n`, one entry per board cell.
pub open spec fn bitvec64(n: u64) -> Seq<u64> {
    Seq::new(64, |i: int| (n >> (i as u64)) & 1u64)
}

proof fn bv_and1_le(x: u64)
    by (bit_vector)
    ensures
        x & 1u64 <= 1,
{
}

/// The 64 bits of `n` as a vector, least significant (cell 0) first.
pub fn u64_to_bitvec(n_original: u64) -> (r: Vec<u64>)
    ensures
        r@ == bitvec64(n_original),
        forall|i: int| 0 <= i < 64 ==> #[trigger] r@[i] <= 1,
{
    let mut bitvec: Vec<u64> = Vec::new();
    for i in 0..64u64
        invariant
            bitvec@.len() == i,
            forall|j: int| 0 <= j < i ==> #[trigger] bitvec@[j] == (n_original >> (j as u64)) & 1u64,
            forall|j: int| 0 <= j < i ==> #[trigger] bitvec@[j] <= 1,
    {
        let b = (n_original >> i) & 1;
        proof {
            bv_and1_le(n_original >> i);
        }
        bitvec.push(b);
    }
    proof {
        assert(bitvec@ =~= bitvec64(n_original));
    }
    bitvec
}

/// The base-3 instance index of template `pattern` on the cell states given
/// by the two bit vectors, summed from slot `i` on: each used cell
/// contributes its state (0 empty, 1 first side, 2 second side) times
/// 3^slot, and the walk stops at the first unused slot.
pub open spec fn instance_index(firstv: Seq<u64>, secondv: Seq<u64>, pattern: Seq<i64>, i: int) -> int
    decreases 10 - i,
{
    if i >= 10 || i < 0 || pattern[i] < 0 {
        0
    } else {
        (firstv[pattern[i] as int] + 2 * secondv[pattern[i] as int]) * pow3(i as nat)
            + instance_index(firstv, secondv, pattern, i + 1)
    }
}

/// The instance index never reaches the number of states of its template:
/// with each cell state at most 2, the digits sum below `3^used`.
pub proof fn lemma_instance_index_bound(
    firstv: Seq<u64>,
    secondv: Seq<u64>,
    pattern: Seq<i64>,
    i: int,
)
    requires
        firstv.len() == 64,
        secondv.len() == 64,
        pattern_valid(pattern),
        forall|j: int| 0 <= j < 64 ==> #[trigger] firstv[j] + 2 * secondv[j] <= 2,
        0 <= i <= 10,
    ensures
        0 <= instance_index(firstv, secondv, pattern, i),
        instance_index(firstv, secondv, pattern, i) <= pow3(used_cells_from(pattern, i) as nat)
            - pow3(i as nat),
    decreases 10 - i,
{
    if i >= 10 || pattern[i] < 0 {
    } else {
        lemma_instance_index_bound(firstv, secondv, pattern, i + 1);
        let s = firstv[pattern[i] as int] + 2 * secondv[pattern[i] as int];
        let p = pow3(i as nat) as int;
        let rest = instance_index(firstv, secondv, pattern, i + 1);
        lemma_pow3_mono(0, i as nat);
        assert(0 <= s * p && s * p <= 2 * p) by (nonlinear_arith)
            requires
                0 <= s <= 2,
                0 < p,
        ;
        assert(pow3((i + 1) as nat) == 3 * pow3(i as nat));
    }
}

/// The instance index of `pattern` on the board described by the two bit
/// vectors, `first` holding the mover's discs and `second` the opponent's.
pub fn cell_state_vec_to_pattern_instance_index(
    first: &Vec<u64>,
    second: &Vec<u64>,
    pattern: [i64; 10],
) -> (r: u64)
    requires
        first@.len() == 64,
        second@.len() == 64,
        forall|j: int| 0 <= j < 64 ==> #[trigger] first@[j] <= 1,
        forall|j: int| 0 <= j < 64 ==> #[trigger] second@[j] <= 1,
        pattern_valid(pattern@),
    ensures
        r == instance_index(first@, second@, pattern@, 0),
{
    let mut power: u64 = 1;
    let mut index: u64 = 0;
    let mut i: usize = 0;
    proof {
        lemma_pow3_mono(0, 10);
        assert(pow3(10) == 59049) by {
            reveal_with_fuel(pow3, 11);
        }
    }
    while i < 10 && pattern[i] >= 0
        invariant
            0 <= i <= 10,
            power == pow3(i as nat),
            power <= 59049,
            index + instance_index(first@, second@, pattern@, i as int) == instance_index(
                first@,
                second@,
                pattern@,
                0,
            ),
            index <= 3 * pow3(i as nat),
        decreases 10 - i,
    {
        let i_pattern = pattern[i] as usize;
        let state = first[i_pattern] + 2 * second[i_pattern];
        proof {
            lemma_pow3_mono(0, i as nat);
            assert(state * power <= 3 * power) by (nonlinear_arith)
                requires
                    0 <= state <= 3,
                    0 < power,
            ;
            assert(index + state * power <= 3 * pow3(i as nat) + 3 * pow3(i as nat));
            assert(pow3((i + 1) as nat) == 3 * pow3(i as nat));
            lemma_pow3_mono((i + 1) as nat, 10);
        }
        index = index + state * power;
        proof {
            assert(pow3(10) == 59049) by {
                reveal_with_fuel(pow3, 11);
            }
        }
        power = power * 3;
        i = i + 1;
    }
    index
}

/// Instance index of template `t` for `player` to move on `board`.
pub open spec fn feature_index_spec(f: u64, s: u64, player: Player, t: int) -> int {
    match player {
        Player::First => instance_index(bitvec64(f), bitvec64(s), pattern_spec(t), 0),
        Player::Second => instance_index(bitvec64(s), bitvec64(f), pattern_spec(t), 0),
    }
}

/// The fixed-order feature vector of `board` for `player` to move: the
/// instance index of each of the 44 template instances in table order.
pub fn extract_pattern_instance_indices(board: &Board, player: &Player) -> (r: Vec<u64>)
    ensures
        r@.len() == 44,
        forall|t: int| 0 <= t < 44 ==> #[trigger] r@[t] == feature_index_spec(
            board.first,
            board.second,
            *player,
            t,
        ),
{
    let (current, opponent) = match player {
        Player::First => (board.first(), board.second()),
        Player::Second => (board.second(), board.first()),
    };
    let current = u64_to_bitvec(current);
    let opponent = u64_to_bitvec(opponent);
    let mut indices: Vec<u64> = Vec::new();
    for t in 0..44usize
        invariant
            indices@.len() == t,
            current@ == bitvec64(if *player is First { board.first } else { board.second }),
            opponent@ == bitvec64(if *player is First { board.second } else { board.first }),
            forall|j: int| 0 <= j < 64 ==> #[trigger] current@[j] <= 1,
            forall|j: int| 0 <= j < 64 ==> #[trigger] opponent@[j] <= 1,
            forall|j: int| 0 <= j < t ==> #[trigger] indices@[j] == feature_index_spec(
                board.first,
                board.second,
                *player,
                j,
            ),
    {
        let row = pattern_row(t);
        let idx = cell_state_vec_to_pattern_instance_index(&current, &opponent, row);
        indices.push(idx);
    }
    indices
}

impl Board {
    /// The 64 occupancy bits of `player`'s discs, cell 0 first.
    #[allow(non_snake_case)]
    pub fn getBitboard(&self, player: Player) -> (r: Vec<u64>)
        ensures
            r@ == bitvec64(
                match player {
                    Player::First => self.first,
                    Player::Second => self.second,
                },
            ),
    {
        let bitboard = match player {
            Player::First => self.first,
            Player::Second => self.second,
        };
        u64_to_bitvec(bitboard)
    }
}

/// Index of the highest set bit of `n` below bit `k`, or -1 when none is set.
pub open spec fn highest_bit_below(n: u64, k: int) -> int
    decreases k,
{
    if k <= 0 {
        -1
    } else if (n >> ((k - 1) as u64)) & 1u64 == 1u64 {
        k - 1
    } else {
        highest_bit_below(n, k - 1)
    }
}

/// The `(column, row)` pair of the highest disc of `position`, or `None` on
/// an empty mask.
pub fn put_position_to_xy(position: u64) -> (r: Option<(u64, u64)>)
    ensures
        highest_bit_below(position, 64) == -1 ==> r is None,
        highest_bit_below(position, 64) >= 0 ==> r == Some::<(u64, u64)>(
            (
                (highest_bit_below(position, 64) % 8) as u64,
                (highest_bit_below(position, 64) / 8) as u64,
            ),
        ),
{
    let mut i_position: Option<u64> = None;
    for i in 0..64u64
        invariant
            highest_bit_below(position, i as int) == -1 ==> i_position is None,
            highest_bit_below(position, i as int) >= 0 ==> i_position == Some::<u64>(
                highest_bit_below(position, i as int) as u64,
            ),
    {
        proof {
            lemma_highest_bit_range(position, i as int);
            lemma_highest_bit_range(position, i as int + 1);
        }
        if (position >> i) & 1 == 1 {
            i_position = Some(i);
        }
    }
    proof {
        lemma_highest_bit_range(position, 64);
    }
    match i_position {
        Some(i) => Some((i % 8, i / 8)),
        None => None,
    }
}

/// The move-notation name of cell `k`: its column letter and 1-based row digit.
pub open spec fn coord_name_spec(k: int) -> Seq<char> {
    seq![col_letter_char(k % 8), digit_char(k / 8 + 1)]
}

/// The letter naming column `c`.
pub open spec fn col_letter_char(c: int) -> char {
    if c == 0 {
        'a'
    } else if c == 1 {
        'b'
    } else if c == 2 {
        'c'
    } else if c == 3 {
        'd'
    } else if c == 4 {
        'e'
    } else if c == 5 {
        'f'
    } else if c == 6 {
        'g'
    } else {
        'h'
    }
}

/// Names the cell of the highest disc of `position` in move notation
/// (`"a1"` to `"h8"`), `"passed"` for the null move, and an error for an
/// empty mask.
pub fn put_position_to_coord(position: Option<u64>) -> (r: Result<String, String>)
    ensures
        position is None ==> (r matches Ok(m) && m@ == "passed"@),
        position matches Some(p) ==> ((highest_bit_below(p, 64) >= 0 ==> (r matches Ok(m) && m@
            == coord_name_spec(highest_bit_below(p, 64)))) && (highest_bit_below(p, 64) == -1
            ==> r is Err)),
{
    let p = match position {
        None => {
            let mut s = String::new();
            s.append("passed");
            return Ok(s);
        },
        Some(p) => p,
    };
    let xy = put_position_to_xy(p);
    proof {
        lemma_highest_bit_range(p, 64);
    }
    match xy {
        None => {
            let mut s = String::new();
            s.append("invalid position");
            Err(s)
        },
        Some((x, y)) => {
            let col: &str = if x == 0 {
                "a"
            } else if x == 1 {
                "b"
            } else if x == 2 {
                "c"
            } else if x == 3 {
                "d"
            } else if x == 4 {
                "e"
            } else if x == 5 {
                "f"
            } else if x == 6 {
                "g"
            } else {
                "h"
            };
            let mut s = String::new();
            s.append(col);
            crate::board::append_decimal(&mut s, y + 1);
            proof {
                reveal_strlit("a");
                reveal_strlit("b");
                reveal_strlit("c");
                reveal_strlit("d");
                reveal_strlit("e");
                reveal_strlit("f");
                reveal_strlit("g");
                reveal_strlit("h");
                let k = highest_bit_below(p, 64);
                assert(col@ =~= seq![col_letter_char(k % 8)]);
                assert(s@ =~= coord_name_spec(k));
            }
            Ok(s)
        },
    }
}

proof fn lemma_highest_bit_range(n: u64, k: int)
    requires
        0 <= k <= 64,
    ensures
        -1 <= highest_bit_below(n, k) < k,
    decreases k,
{
    if k > 0 {
        lemma_highest_bit_range(n, k - 1);
    }
}

proof fn bv_shl_bit(i: u64, j: u64)
    by (bit_vector)
    requires
        i < 64,
        j < 64,
    ensures
        ((1u64 << i) >> j) & 1u64 == (if i == j {
            1u64
        } else {
            0u64
        }),
{
}

proof fn lemma_highest_bit_single(i: u64, k: int)
    requires
        i < 64,
        0 <= k <= 64,
    ensures
        highest_bit_below((1u64 << i), k) == (if i < k {
            i as int
        } else {
            -1
        }),
    decreases k,
{
    if k > 0 {
        bv_shl_bit(i, (k - 1) as u64);
        lemma_highest_bit_single(i, k - 1);
    }
}

/// Coordinate round trip: converting a column and row to its single-bit mask
/// and reading the cell back returns the original pair, for every cell of
/// the board.
pub proof fn lemma_coordinate_round_trip(x: u64, y: u64)
    requires
        x < 8,
        y < 8,
    ensures
        highest_bit_below((1u64 << (x + 8 * y)), 64) == x + 8 * y,
        ((x + 8 * y) % 8) as u64 == x,
        ((x + 8 * y) / 8) as u64 == y,
{
    lemma_highest_bit_single((x + 8 * y) as u64, 64);
    assert((x + 8 * y) % 8 == x && (x + 8 * y) / 8 == y) by (nonlinear_arith)
        requires
            x < 8,
            y < 8,
    ;
}

/// Total length of the flat positional-weight table: the sum over the eleven
/// base templates of 3^(cells of the template).
pub const WEIGHT_TABLE_LEN: usize = 167265;

/// Largest magnitude a single positional weight may have; it keeps every
/// 44-term score sum far inside the machine range.
pub const WEIGHT_LIMIT: i64 = 1_000_000_000;

/// Offset of base template `j`'s block inside the flat weight table: the
/// cumulative number of instances of the templates before it.
pub open spec fn offset_spec(j: int) -> int {
    if j == 0 {
        0
    } else if j == 1 {
        81
    } else if j == 2 {
        324
    } else if j == 3 {
        1053
    } else if j == 4 {
        3240
    } else if j == 5 {
        9801
    } else if j == 6 {
        16362
    } else if j == 7 {
        22923
    } else if j == 8 {
        29484
    } else if j == 9 {
        88533
    } else if j == 10 {
        147582
    } else {
        0
    }
}

/// Each template block starts at its offset and its 3^cells instances end
/// before the next block: the offsets match the template cardinalities
/// exactly, closing the table at its total length.
pub proof fn lemma_offset_capacity(j: int)
    requires
        0 <= j < 11,
    ensures
        0 <= offset_spec(j),
        offset_spec(j) + pow3(template_cells_spec(j) as nat) <= WEIGHT_TABLE_LEN as int,
        j < 10 ==> offset_spec(j) + pow3(template_cells_spec(j) as nat) == offset_spec(j + 1),
{
    reveal_with_fuel(pow3, 11);
    assert(pow3(4) == 81);
    assert(pow3(5) == 243);
    assert(pow3(6) == 729);
    assert(pow3(7) == 2187);
    assert(pow3(8) == 6561);
    assert(pow3(9) == 19683);
    assert(pow3(10) == 59049);
}

/// The flat positional-weight table the evaluator consults, supplied by the
/// caller as plain integers: entry `offset(j) + index` is the weight of
/// instance `index` of base template `j`, shared by all four rotations.
pub struct WeightTable {
    pub weights: Vec<i64>,
}

impl WeightTable {
    /// The table has exactly one entry per template instance and every
    /// weight is within range.
    pub open spec fn wf(&self) -> bool {
        &&& self.weights@.len() == WEIGHT_TABLE_LEN as int
        &&& forall|i: int|
            0 <= i < self.weights@.len() ==> -WEIGHT_LIMIT <= #[trigger] self.weights@[i]
                <= WEIGHT_LIMIT
    }

    /// The all-zero table: every position scores zero.
    pub fn zeros() -> (r: WeightTable)
        ensures
            r.wf(),
            forall|i: int| 0 <= i < WEIGHT_TABLE_LEN as int ==> #[trigger] r.weights@[i] == 0,
    {
        let mut weights: Vec<i64> = Vec::new();
        let mut i: usize = 0;
        while i < WEIGHT_TABLE_LEN
            invariant
                weights@.len() == i,
                i <= WEIGHT_TABLE_LEN,
                forall|j: int| 0 <= j < i ==> #[trigger] weights@[j] == 0,
            decreases WEIGHT_TABLE_LEN - i,
        {
            weights.push(0);
            i = i + 1;
        }
        WeightTable { weights }
    }

    /// Wraps a caller-supplied weight vector, rejecting one of the wrong
    /// length or with a weight out of range.
    pub fn from_weights(weights: Vec<i64>) -> (r: Result<WeightTable, String>)
        ensures
            r matches Ok(t) ==> t.wf() && t.weights@ == weights@,
            r is Err <==> !(weights@.len() == WEIGHT_TABLE_LEN as int && forall|i: int|
                0 <= i < weights@.len() ==> -WEIGHT_LIMIT <= #[trigger] weights@[i] <= WEIGHT_LIMIT),
    {
        if weights.len() != WEIGHT_TABLE_LEN {
            let mut msg = String::new();
            msg.append("weight table has the wrong length");
            return Err(msg);
        }
        let mut i: usize = 0;
        while i < WEIGHT_TABLE_LEN
            invariant
                weights@.len() == WEIGHT_TABLE_LEN as int,
                i <= WEIGHT_TABLE_LEN,
                forall|j: int| 0 <= j < i ==> -WEIGHT_LIMIT <= #[trigger] weights@[j] <= WEIGHT_LIMIT,
            decreases WEIGHT_TABLE_LEN - i,
        {
            let w = weights[i];
            if w < -WEIGHT_LIMIT || w > WEIGHT_LIMIT {
                let mut msg = String::new();
                msg.append("weight out of range");
                return Err(msg);
            }
            i = i + 1;
        }
        Ok(WeightTable { weights })
    }
}

/// Sum of the weights of the instance indices from slot `i` on, each index
/// read inside its template's block of the flat table.
pub open spec fn pattern_score_spec(w: Seq<i64>, indices: Seq<u64>, i: int) -> int
    decreases indices.len() - i,
{
    if i < 0 || i >= indices.len() {
        0
    } else {
        w[indices[i] + offset_spec(i % 11)] + pattern_score_spec(w, indices, i + 1)
    }
}

pub proof fn lemma_pattern_score_bound(w: Seq<i64>, indices: Seq<u64>, i: int)
    requires
        w.len() == WEIGHT_TABLE_LEN as int,
        forall|j: int| 0 <= j < w.len() ==> -WEIGHT_LIMIT <= #[trigger] w[j] <= WEIGHT_LIMIT,
        forall|j: int|
            0 <= j < indices.len() ==> 0 <= #[trigger] indices[j] + offset_spec(j % 11)
                < WEIGHT_TABLE_LEN as int,
        0 <= i <= indices.len(),
    ensures
        -(indices.len() - i) * WEIGHT_LIMIT <= pattern_score_spec(w, indices, i) <= (indices.len()
            - i) * WEIGHT_LIMIT,
    decreases indices.len() - i,
{
    if i < indices.len() {
        lemma_pattern_score_bound(w, indices, i + 1);
    }
}

impl Board {
    /// Positional score: the sum of the weights of the given template
    /// instance indices, each shifted by its template's block offset in
    /// the flat weight table.
    pub fn calculate_pattern_score(pattern_instance_indices: Vec<u64>, table: &WeightTable) -> (r:
        i64)
        requires
            table.wf(),
            pattern_instance_indices@.len() <= 44,
            forall|j: int|
                0 <= j < pattern_instance_indices@.len() ==> 0 <= #[trigger] pattern_instance_indices@[j]
                    + offset_spec(j % 11) < WEIGHT_TABLE_LEN as int,
        ensures
            r == pattern_score_spec(table.weights@, pattern_instance_indices@, 0),
            -44 * WEIGHT_LIMIT <= r <= 44 * WEIGHT_LIMIT,
    {
        let offsets: [usize; 11] = [0, 81, 324, 1053, 3240, 9801, 16362, 22923, 29484, 88533, 147582];
        proof {
            assert(forall|j: int| 0 <= j < 11 ==> offsets@[j] == offset_spec(j)) by {
                assert(offsets@ =~= seq![
                    0usize,
                    81usize,
                    324usize,
                    1053usize,
                    3240usize,
                    9801usize,
                    16362usize,
                    22923usize,
                    29484usize,
                    88533usize,
                    147582usize,
                ]);
            }
        }
        let n = pattern_instance_indices.len();
        let mut total_score: i64 = 0;
        let mut i: usize = 0;
        while i < n
            invariant
                n == pattern_instance_indices@.len(),
                0 <= i <= n,
                forall|j: int| 0 <= j < 11 ==> offsets@[j] == offset_spec(j),
                total_score + pattern_score_spec(table.weights@, pattern_instance_indices@, i as int)
                    == pattern_score_spec(table.weights@, pattern_instance_indices@, 0),
                -(i as int) * WEIGHT_LIMIT <= total_score <= (i as int) * WEIGHT_LIMIT,
            decreases n - i,
        {
            proof {
                lemma_pattern_score_bound(table.weights@, pattern_instance_indices@, i as int);
                lemma_pattern_score_bound(table.weights@, pattern_instance_indices@, i as int + 1);
            }
            let idx = pattern_instance_indices[i] as usize;
            let w = table.weights[idx + offsets[i % 11]];
            total_score = total_score + w;
            i = i + 1;
        }
        total_score
    }
}

proof fn bv_disjoint_bits(f: u64, s: u64, j: u64)
    by (bit_vector)
    requires
        f & s == 0,
        j < 64,
    ensures
        ((f >> j) & 1u64) + 2 * ((s >> j) & 1u64) <= 2,
{
}

/// The template table read as mathematics: every template is well formed
/// and uses exactly the cell count of its base shape.
#[verifier::rlimit(100)]
pub proof fn lemma_pattern_table_facts(t: int)
    requires
        0 <= t < 44,
    ensures
        pattern_valid(pattern_spec(t)),
        used_cells_from(pattern_spec(t), 0) == template_cells_spec(t % 11),
{
    reveal_with_fuel(used_cells_from, 12);
    if t == 0 {
        assert(pattern_valid(pattern_spec(0)));
        assert(used_cells_from(pattern_spec(0), 0) == template_cells_spec(0));
    } else if t == 1 {
        assert(pattern_valid(pattern_spec(1)));
        assert(used_cells_from(pattern_spec(1), 0) == template_cells_spec(1));
    } else if t == 2 {
        assert(pattern_valid(pattern_spec(2)));
        assert(used_cells_from(pattern_spec(2), 0) == template_cells_spec(2));
    } else if t == 3 {
        assert(pattern_valid(pattern_spec(3)));
        assert(used_cells_from(pattern_spec(3), 0) == template_cells_spec(3));
    } else if t == 4 {
        assert(pattern_valid(pattern_spec(4)));
        assert(used_cells_from(pattern_spec(4), 0) == template_cells_spec(4));
    } else if t == 5 {
        assert(pattern_valid(pattern_spec(5)));
        assert(used_cells_from(pattern_spec(5), 0) == template_cells_spec(5));
    } else if t == 6 {
        assert(pattern_valid(pattern_spec(6)));
        assert(used_cells_from(pattern_spec(6), 0) == template_cells_spec(6));
    } else if t == 7 {
        assert(pattern_valid(pattern_spec(7)));
        assert(used_cells_from(pattern_spec(7), 0) == template_cells_spec(7));
    } else if t == 8 {
        assert(pattern_valid(pattern_spec(8)));
        assert(used_cells_from(pattern_spec(8), 0) == template_cells_spec(8));
    } else if t == 9 {
        assert(pattern_valid(pattern_spec(9)));
        assert(used_cells_from(pattern_spec(9), 0) == template_cells_spec(9));
    } else if t == 10 {
        assert(pattern_valid(pattern_spec(10)));
        assert(used_cells_from(pattern_spec(10), 0) == template_cells_spec(10));
    } else if t == 11 {
        assert(pattern_valid(pattern_spec(11)));
        assert(used_cells_from(pattern_spec(11), 0) == template_cells_spec(0));
    } else if t == 12 {
        assert(pattern_valid(pattern_spec(12)));
        assert(used_cells_from(pattern_spec(12), 0) == template_cells_spec(1));
    } else if t == 13 {
        assert(pattern_valid(pattern_spec(13)));
        assert(used_cells_from(pattern_spec(13), 0) == template_cells_spec(2));
    } else if t == 14 {
        assert(pattern_valid(pattern_spec(14)));
        assert(used_cells_from(pattern_spec(14), 0) == template_cells_spec(3));
    } else if t == 15 {
        assert(pattern_valid(pattern_spec(15)));
        assert(used_cells_from(pattern_spec(15), 0) == template_cells_spec(4));
    } else if t == 16 {
        assert(pattern_valid(pattern_spec(16)));
        assert(used_cells_from(pattern_spec(16), 0) == template_cells_spec(5));
    } else if t == 17 {
        assert(pattern_valid(pattern_spec(17)));
        assert(used_cells_from(pattern_spec(17), 0) == template_cells_spec(6));
    } else if t == 18 {
        assert(pattern_valid(pattern_spec(18)));
        assert(used_cells_from(pattern_spec(18), 0) == template_cells_spec(7));
    } else if t == 19 {
        assert(pattern_valid(pattern_spec(19)));
        assert(used_cells_from(pattern_spec(19), 0) == template_cells_spec(8));
    } else if t == 20 {
        assert(pattern_valid(pattern_spec(20)));
        assert(used_cells_from(pattern_spec(20), 0) == template_cells_spec(9));
    } else if t == 21 {
        assert(pattern_valid(pattern_spec(21)));
        assert(used_cells_from(pattern_spec(21), 0) == template_cells_spec(10));
    } else if t == 22 {
        assert(pattern_valid(pattern_spec(22)));
        assert(used_cells_from(pattern_spec(22), 0) == template_cells_spec(0));
    } else if t == 23 {
        assert(pattern_valid(pattern_spec(23)));
        assert(used_cells_from(pattern_spec(23), 0) == template_cells_spec(1));
    } else if t == 24 {
        assert(pattern_valid(pattern_spec(24)));
        assert(used_cells_from(pattern_spec(24), 0) == template_cells_spec(2));
    } else if t == 25 {
        assert(pattern_valid(pattern_spec(25)));
        assert(used_cells_from(pattern_spec(25), 0) == template_cells_spec(3));
    } else if t == 26 {
        assert(pattern_valid(pattern_spec(26)));
        assert(used_cells_from(pattern_spec(26), 0) == template_cells_spec(4));
    } else if t == 27 {
        assert(pattern_valid(pattern_spec(27)));
        assert(used_cells_from(pattern_spec(27), 0) == template_cells_spec(5));
    } else if t == 28 {
        assert(pattern_valid(pattern_spec(28)));
        assert(used_cells_from(pattern_spec(28), 0) == template_cells_spec(6));
    } else if t == 29 {
        assert(pattern_valid(pattern_spec(29)));
        assert(used_cells_from(pattern_spec(29), 0) == template_cells_spec(7));
    } else if t == 30 {
        assert(pattern_valid(pattern_spec(30)));
        assert(used_cells_from(pattern_spec(30), 0) == template_cells_spec(8));
    } else if t == 31 {
        assert(pattern_valid(pattern_spec(31)));
        assert(used_cells_from(pattern_spec(31), 0) == template_cells_spec(9));
    } else if t == 32 {
        assert(pattern_valid(pattern_spec(32)));
        assert(used_cells_from(pattern_spec(32), 0) == template_cells_spec(10));
    } else if t == 33 {
        assert(pattern_valid(pattern_spec(33)));
        assert(used_cells_from(pattern_spec(33), 0) == template_cells_spec(0));
    } else if t == 34 {
        assert(pattern_valid(pattern_spec(34)));
        assert(used_cells_from(pattern_spec(34), 0) == template_cells_spec(1));
    } else if t == 35 {
        assert(pattern_valid(pattern_spec(35)));
        assert(used_cells_from(pattern_spec(35), 0) == template_cells_spec(2));
    } else if t == 36 {
        assert(pattern_valid(pattern_spec(36)));
        assert(used_cells_from(pattern_spec(36), 0) == template_cells_spec(3));
    } else if t == 37 {
        assert(pattern_valid(pattern_spec(37)));
        assert(used_cells_from(pattern_spec(37), 0) == template_cells_spec(4));
    } else if t == 38 {
        assert(pattern_valid(pattern_spec(38)));
        assert(used_cells_from(pattern_spec(38), 0) == template_cells_spec(5));
    } else if t == 39 {
        assert(pattern_valid(pattern_spec(39)));
        assert(used_cells_from(pattern_spec(39), 0) == template_cells_spec(6));
    } else if t == 40 {
        assert(pattern_valid(pattern_spec(40)));
        assert(used_cells_from(pattern_spec(40), 0) == template_cells_spec(7));
    } else if t == 41 {
        assert(pattern_valid(pattern_spec(41)));
        assert(used_cells_from(pattern_spec(41), 0) == template_cells_spec(8));
    } else if t == 42 {
        assert(pattern_valid(pattern_spec(42)));
        assert(used_cells_from(pattern_spec(42), 0) == template_cells_spec(9));
    } else if t == 43 {
        assert(pattern_valid(pattern_spec(43)));
        assert(used_cells_from(pattern_spec(43), 0) == template_cells_spec(10));
    }
}

/// Every feature index stays inside its template's block: it is nonnegative
/// and below the template's instance count, so the shifted table lookup is
/// in bounds.
pub proof fn lemma_feature_index_bound(f: u64, s: u64, player: Player, t: int)
    requires
        f & s == 0,
        0 <= t < 44,
    ensures
        0 <= feature_index_spec(f, s, player, t),
        feature_index_spec(f, s, player, t) < pow3(template_cells_spec(t % 11) as nat),
{
    let (cur, opp) = match player {
        Player::First => (f, s),
        Player::Second => (s, f),
    };
    let fv = bitvec64(cur);
    let sv = bitvec64(opp);
    lemma_pattern_table_facts(t);
    assert(cur & opp == 0) by (bit_vector)
        requires
            f & s == 0,
            (cur == f && opp == s) || (cur == s && opp == f),
    ;
    assert forall|j: int| 0 <= j < 64 implies #[trigger] fv[j] + 2 * sv[j] <= 2 by {
        bv_disjoint_bits(cur, opp, j as u64);
    }
    lemma_instance_index_bound(fv, sv, pattern_spec(t), 0);
    let used = used_cells_from(pattern_spec(t), 0);
    lemma_pow3_mono(0, used as nat);
}

} // verus!
