//! Fixed-point trigonometry for the 360 discrete headings of the
//! command protocol.
//!
//! `cos_q` is the quarter-wave table: the cosine of each whole degree in
//! [0, 90], scaled by `FP_ONE` and rounded to nearest.  The full-circle
//! cosine and sine are defined from it by the usual symmetries.  These
//! tables are the library's own model of a heading's direction vector:
//! a thrust command at heading `h` and whole-unit speed `s` moves a ship
//! by `(s * cos_deg(h), s * sin_deg(h))` scaled units per turn.

use vstd::prelude::*;

verus! {

/// Quarter-wave cosine table: `cos_q(d)` is round(10000 * cos(d degrees))
/// for d in [0, 90]; 0 outside that range.
pub open spec fn cos_q(d: int) -> int {
    if d == 0 {
        10000
    } else if d == 1 {
        9998
    } else if d == 2 {
        9994
    } else if d == 3 {
        9986
    } else if d == 4 {
        9976
    } else if d == 5 {
        9962
    } else if d == 6 {
        9945
    } else if d == 7 {
        9925
    } else if d == 8 {
        9903
    } else if d == 9 {
        9877
    } else if d == 10 {
        9848
    } else if d == 11 {
        9816
    } else if d == 12 {
        9781
    } else if d == 13 {
        9744
    } else if d == 14 {
        9703
    } else if d == 15 {
        9659
    } else if d == 16 {
        9613
    } else if d == 17 {
        9563
    } else if d == 18 {
        9511
    } else if d == 19 {
        9455
    } else if d == 20 {
        9397
    } else if d == 21 {
        9336
    } else if d == 22 {
        9272
    } else if d == 23 {
        9205
    } else if d == 24 {
        9135
    } else if d == 25 {
        9063
    } else if d == 26 {
        8988
    } else if d == 27 {
        8910
    } else if d == 28 {
        8829
    } else if d == 29 {
        8746
    } else if d == 30 {
        8660
    } else if d == 31 {
        8572
    } else if d == 32 {
        8480
    } else if d == 33 {
        8387
    } else if d == 34 {
        8290
    } else if d == 35 {
        8192
    } else if d == 36 {
        8090
    } else if d == 37 {
        7986
    } else if d == 38 {
        7880
    } else if d == 39 {
        7771
    } else if d == 40 {
        7660
    } else if d == 41 {
        7547
    } else if d == 42 {
        7431
    } else if d == 43 {
        7314
    } else if d == 44 {
        7193
    } else if d == 45 {
        7071
    } else if d == 46 {
        6947
    } else if d == 47 {
        6820
    } else if d == 48 {
        6691
    } else if d == 49 {
        6561
    } else if d == 50 {
        6428
    } else if d == 51 {
        6293
    } else if d == 52 {
        6157
    } else if d == 53 {
        6018
    } else if d == 54 {
        5878
    } else if d == 55 {
        5736
    } else if d == 56 {
        5592
    } else if d == 57 {
        5446
    } else if d == 58 {
        5299
    } else if d == 59 {
        5150
    } else if d == 60 {
        5000
    } else if d == 61 {
        4848
    } else if d == 62 {
        4695
    } else if d == 63 {
        4540
    } else if d == 64 {
        4384
    } else if d == 65 {
        4226
    } else if d == 66 {
        4067
    } else if d == 67 {
        3907
    } else if d == 68 {
        3746
    } else if d == 69 {
        3584
    } else if d == 70 {
        3420
    } else if d == 71 {
        3256
    } else if d == 72 {
        3090
    } else if d == 73 {
        2924
    } else if d == 74 {
        2756
    } else if d == 75 {
        2588
    } else if d == 76 {
        2419
    } else if d == 77 {
        2250
    } else if d == 78 {
        2079
    } else if d == 79 {
        1908
    } else if d == 80 {
        1736
    } else if d == 81 {
        1564
    } else if d == 82 {
        1392
    } else if d == 83 {
        1219
    } else if d == 84 {
        1045
    } else if d == 85 {
        872
    } else if d == 86 {
        698
    } else if d == 87 {
        523
    } else if d == 88 {
        349
    } else if d == 89 {
        175
    } else {
        0
    }
}

/// Full-circle cosine, scaled by `FP_ONE`, for headings in [0, 360).
pub open spec fn cos_deg(d: int) -> int {
    if 0 <= d <= 90 {
        cos_q(d)
    } else if 90 < d <= 180 {
        -cos_q(180 - d)
    } else if 180 < d <= 270 {
        -cos_q(d - 180)
    } else {
        cos_q(360 - d)
    }
}

/// Full-circle sine, scaled by `FP_ONE`, for headings in [0, 360).
pub open spec fn sin_deg(d: int) -> int {
    if 0 <= d <= 90 {
        cos_q(90 - d)
    } else if 90 < d <= 180 {
        cos_q(d - 90)
    } else if 180 < d <= 270 {
        -cos_q(270 - d)
    } else {
        -cos_q(d - 270)
    }
}

/// Every quarter-wave table entry lies in [0, 10000], and the table is
/// non-increasing on [0, 90].
pub proof fn lemma_cos_q_range(d: int)
    ensures
        0 <= cos_q(d) <= 10000,
        forall|e: int| 0 <= e < d <= 90 ==> #[trigger] cos_q(e) >= cos_q(d),
{
}

/// Full-circle table values lie in [-10000, 10000].
pub proof fn lemma_cos_sin_range(d: int)
    ensures
        -10000 <= cos_deg(d) <= 10000,
        -10000 <= sin_deg(d) <= 10000,
{
    lemma_cos_q_range(d);
    lemma_cos_q_range(180 - d);
    lemma_cos_q_range(d - 180);
    lemma_cos_q_range(360 - d);
    lemma_cos_q_range(90 - d);
    lemma_cos_q_range(d - 90);
    lemma_cos_q_range(270 - d);
    lemma_cos_q_range(d - 270);
}

/// Quarter-wave cosine lookup.
pub fn cos_q_fp(d: u16) -> (r: i64)
    requires
        d <= 90,
    ensures
        r == cos_q(d as int),
        0 <= r <= 10000,
{
    proof { lemma_cos_q_range(d as int); }
    match d {
        0 => 10000,
        1 => 9998,
        2 => 9994,
        3 => 9986,
        4 => 9976,
        5 => 9962,
        6 => 9945,
        7 => 9925,
        8 => 9903,
        9 => 9877,
        10 => 9848,
        11 => 9816,
        12 => 9781,
        13 => 9744,
        14 => 9703,
        15 => 9659,
        16 => 9613,
        17 => 9563,
        18 => 9511,
        19 => 9455,
        20 => 9397,
        21 => 9336,
        22 => 9272,
        23 => 9205,
        24 => 9135,
        25 => 9063,
        26 => 8988,
        27 => 8910,
        28 => 8829,
        29 => 8746,
        30 => 8660,
        31 => 8572,
        32 => 8480,
        33 => 8387,
        34 => 8290,
        35 => 8192,
        36 => 8090,
        37 => 7986,
        38 => 7880,
        39 => 7771,
        40 => 7660,
        41 => 7547,
        42 => 7431,
        43 => 7314,
        44 => 7193,
        45 => 7071,
        46 => 6947,
        47 => 6820,
        48 => 6691,
        49 => 6561,
        50 => 6428,
        51 => 6293,
        52 => 6157,
        53 => 6018,
        54 => 5878,
        55 => 5736,
        56 => 5592,
        57 => 5446,
        58 => 5299,
        59 => 5150,
        60 => 5000,
        61 => 4848,
        62 => 4695,
        63 => 4540,
        64 => 4384,
        65 => 4226,
        66 => 4067,
        67 => 3907,
        68 => 3746,
        69 => 3584,
        70 => 3420,
        71 => 3256,
        72 => 3090,
        73 => 2924,
        74 => 2756,
        75 => 2588,
        76 => 2419,
        77 => 2250,
        78 => 2079,
        79 => 1908,
        80 => 1736,
        81 => 1564,
        82 => 1392,
        83 => 1219,
        84 => 1045,
        85 => 872,
        86 => 698,
        87 => 523,
        88 => 349,
        89 => 175,
        90 => 0,
        _ => 0,
    }
}

/// Full-circle cosine lookup, scaled by `FP_ONE`.
pub fn cos_deg_fp(d: u16) -> (r: i64)
    requires
        d < 360,
    ensures
        r == cos_deg(d as int),
        -10000 <= r <= 10000,
{
    proof { lemma_cos_sin_range(d as int); }
    if d <= 90 {
        cos_q_fp(d)
    } else if d <= 180 {
        -cos_q_fp(180 - d)
    } else if d <= 270 {
        -cos_q_fp(d - 180)
    } else {
        cos_q_fp(360 - d)
    }
}

/// Full-circle sine lookup, scaled by `FP_ONE`.
pub fn sin_deg_fp(d: u16) -> (r: i64)
    requires
        d < 360,
    ensures
        r == sin_deg(d as int),
        -10000 <= r <= 10000,
{
    proof { lemma_cos_sin_range(d as int); }
    if d <= 90 {
        cos_q_fp(90 - d)
    } else if d <= 180 {
        cos_q_fp(d - 90)
    } else if d <= 270 {
        -cos_q_fp(270 - d)
    } else {
        -cos_q_fp(d - 270)
    }
}

/// The whole-degree inverse sine, rounded up: scanning up from zero,
/// the first angle whose sine reaches `ratio`.
pub open spec fn asin_scan(ratio: int, a: int) -> int
    decreases 91 - a,
{
    if a >= 90 {
        90
    } else if cos_q(90 - a) >= ratio {
        a
    } else {
        asin_scan(ratio, a + 1)
    }
}

pub open spec fn asin_ceil(ratio: int) -> int {
    asin_scan(ratio, 0)
}

/// The scan stops at the first satisfying angle: an angle below which
/// nothing satisfies, and which satisfies itself, is the scan's value.
proof fn lemma_asin_scan(ratio: int, k: int, a: int)
    requires
        0 <= k <= a <= 90,
        forall|b: int| k <= b < a ==> #[trigger] cos_q(90 - b) < ratio,
        a < 90 ==> cos_q(90 - a) >= ratio,
    ensures
        asin_scan(ratio, k) == a,
    decreases a - k,
{
    if k < a {
        lemma_asin_scan(ratio, k + 1, a);
    }
}

/// The smallest whole-degree angle whose sine is at least `ratio`
/// (scaled by `FP_ONE`): a whole-degree inverse sine, rounded up.
pub fn asin_deg_fp(ratio: i64) -> (a: u16)
    requires
        0 <= ratio <= 10000,
    ensures
        a <= 90,
        cos_q(90 - a) >= ratio,
        forall|b: int| 0 <= b < a ==> #[trigger] cos_q(90 - b) < ratio,
        a == asin_ceil(ratio as int),
{
    let a = asin_deg_fp_inner(ratio);
    proof { lemma_asin_scan(ratio as int, 0, a as int); }
    a
}

fn asin_deg_fp_inner(ratio: i64) -> (a: u16)
    requires
        0 <= ratio <= 10000,
    ensures
        a <= 90,
        cos_q(90 - a) >= ratio,
        forall|b: int| 0 <= b < a ==> #[trigger] cos_q(90 - b) < ratio,
{
    let mut a: u16 = 0;
    while a < 90
        invariant
            a <= 90,
            0 <= ratio <= 10000,
            forall|b: int| 0 <= b < a ==> #[trigger] cos_q(90 - b) < ratio,
        decreases 90 - a,
    {
        if cos_q_fp(90 - a) >= ratio {
            return a;
        }
        a = a + 1;
    }
    proof { lemma_cos_q_range(0); }
    assert(cos_q(0) == 10000);
    a
}

} // verus!
