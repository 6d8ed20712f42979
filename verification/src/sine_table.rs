//! The table of sines that the trigonometry rests on, and the checks of
//! its entries.

use vstd::prelude::*;

verus! {

/// The fixed-point value that stands for 1: sines and cosines are integers
/// between `-TRIG_ONE` and `TRIG_ONE`.
pub const TRIG_ONE: i32 = 65536;

/// How far the squared length of a (cosine, sine) pair may lie from
/// `TRIG_ONE * TRIG_ONE`: the entries of the table are rounded.
pub const CIRCLE_SLACK: i64 = 131072;

/// `sin(d degrees) * TRIG_ONE`, rounded to the nearest integer, for `d` from 0 to 90.
pub const QUARTER_SINE: [i32; 91] = [
    0, 1144, 2287, 3430, 4572, 5712, 6850,
    7987, 9121, 10252, 11380, 12505, 13626, 14742,
    15855, 16962, 18064, 19161, 20252, 21336, 22415,
    23486, 24550, 25607, 26656, 27697, 28729, 29753,
    30767, 31772, 32768, 33754, 34729, 35693, 36647,
    37590, 38521, 39441, 40348, 41243, 42126, 42995,
    43852, 44695, 45525, 46341, 47143, 47930, 48703,
    49461, 50203, 50931, 51643, 52339, 53020, 53684,
    54332, 54963, 55578, 56175, 56756, 57319, 57865,
    58393, 58903, 59396, 59870, 60326, 60764, 61183,
    61584, 61966, 62328, 62672, 62997, 63303, 63589,
    63856, 64104, 64332, 64540, 64729, 64898, 65048,
    65177, 65287, 65376, 65446, 65496, 65526, 65536,
];

/// The table entry for `d` degrees, `0 <= d <= 90`. It is opaque, so that
/// no proof pays for the table unasked: `reveal(quarter_sine)` brings the
/// entries into a proof that needs their values.
#[verifier::opaque]
pub open spec fn quarter_sine(d: int) -> int {
    QUARTER_SINE@[d] as int
}

/// `cos(1 degree) * TRIG_ONE`, rounded: the entry for 89 degrees.
pub const COS_ONE_DEGREE: i32 = 65526;

/// `sin(1 degree) * TRIG_ONE`, rounded: the entry for 1 degree.
pub const SIN_ONE_DEGREE: i32 = 1144;

/// How far an entry, times `TRIG_ONE`, may lie from the entry before it
/// turned by one degree: both are rounded.
pub const STEP_SLACK: i64 = 131072;

/// Whether the pair `(c, s)` lies on the unit circle, up to `CIRCLE_SLACK`.
pub open spec fn near_unit_circle(c: int, s: int) -> bool {
    TRIG_ONE * TRIG_ONE - CIRCLE_SLACK <= c * c + s * s <= TRIG_ONE * TRIG_ONE + CIRCLE_SLACK
}

/// Whether `(c2, s2)` is the pair `(c, s)` turned by one degree, up to
/// `STEP_SLACK`: the addition theorems of sine and cosine.
pub open spec fn turned_one_degree(c: int, s: int, c2: int, s2: int) -> bool {
    &&& -STEP_SLACK <= s2 * TRIG_ONE - (s * COS_ONE_DEGREE + c * SIN_ONE_DEGREE) <= STEP_SLACK
    &&& -STEP_SLACK <= c2 * TRIG_ONE - (c * COS_ONE_DEGREE - s * SIN_ONE_DEGREE) <= STEP_SLACK
}

/// Whether the entries for `k + 1` degrees and its complement are those for
/// `k` degrees and its complement, turned by one degree.
pub open spec fn quarter_step(k: int) -> bool {
    turned_one_degree(
        quarter_sine(90 - k),
        quarter_sine(k),
        quarter_sine(89 - k),
        quarter_sine(k + 1),
    )
}

/// Every entry of the table lies between 0 and `TRIG_ONE`.
pub proof fn lemma_quarter_sine_bounds(d: int)
    requires
        0 <= d <= 90,
    ensures
        0 <= quarter_sine(d) <= TRIG_ONE,
{
    reveal(quarter_sine);
}

/// One row of the table, written out, lies on the unit circle.
proof fn lemma_row_on_circle(k: int, s: int, c: int)
    requires
        0 <= k <= 45,
        quarter_sine(k) == s,
        quarter_sine(90 - k) == c,
        near_unit_circle(c, s),
    ensures
        near_unit_circle(quarter_sine(90 - k), quarter_sine(k)),
{
}

/// The rows from 0 to 15 degrees lie on the unit circle.
proof fn lemma_rows_0_to_15(k: int)
    requires
        0 <= k <= 15,
    ensures
        near_unit_circle(quarter_sine(90 - k), quarter_sine(k)),
{
    reveal(quarter_sine);
    if k == 0 {
        lemma_row_on_circle(0, 0, 65536);
    } else if k == 1 {
        lemma_row_on_circle(1, 1144, 65526);
    } else if k == 2 {
        lemma_row_on_circle(2, 2287, 65496);
    } else if k == 3 {
        lemma_row_on_circle(3, 3430, 65446);
    } else if k == 4 {
        lemma_row_on_circle(4, 4572, 65376);
    } else if k == 5 {
        lemma_row_on_circle(5, 5712, 65287);
    } else if k == 6 {
        lemma_row_on_circle(6, 6850, 65177);
    } else if k == 7 {
        lemma_row_on_circle(7, 7987, 65048);
    } else if k == 8 {
        lemma_row_on_circle(8, 9121, 64898);
    } else if k == 9 {
        lemma_row_on_circle(9, 10252, 64729);
    } else if k == 10 {
        lemma_row_on_circle(10, 11380, 64540);
    } else if k == 11 {
        lemma_row_on_circle(11, 12505, 64332);
    } else if k == 12 {
        lemma_row_on_circle(12, 13626, 64104);
    } else if k == 13 {
        lemma_row_on_circle(13, 14742, 63856);
    } else if k == 14 {
        lemma_row_on_circle(14, 15855, 63589);
    } else if k == 15 {
        lemma_row_on_circle(15, 16962, 63303);
    }
}

/// The rows from 16 to 30 degrees lie on the unit circle.
proof fn lemma_rows_16_to_30(k: int)
    requires
        16 <= k <= 30,
    ensures
        near_unit_circle(quarter_sine(90 - k), quarter_sine(k)),
{
    reveal(quarter_sine);
    if k == 16 {
        lemma_row_on_circle(16, 18064, 62997);
    } else if k == 17 {
        lemma_row_on_circle(17, 19161, 62672);
    } else if k == 18 {
        lemma_row_on_circle(18, 20252, 62328);
    } else if k == 19 {
        lemma_row_on_circle(19, 21336, 61966);
    } else if k == 20 {
        lemma_row_on_circle(20, 22415, 61584);
    } else if k == 21 {
        lemma_row_on_circle(21, 23486, 61183);
    } else if k == 22 {
        lemma_row_on_circle(22, 24550, 60764);
    } else if k == 23 {
        lemma_row_on_circle(23, 25607, 60326);
    } else if k == 24 {
        lemma_row_on_circle(24, 26656, 59870);
    } else if k == 25 {
        lemma_row_on_circle(25, 27697, 59396);
    } else if k == 26 {
        lemma_row_on_circle(26, 28729, 58903);
    } else if k == 27 {
        lemma_row_on_circle(27, 29753, 58393);
    } else if k == 28 {
        lemma_row_on_circle(28, 30767, 57865);
    } else if k == 29 {
        lemma_row_on_circle(29, 31772, 57319);
    } else if k == 30 {
        lemma_row_on_circle(30, 32768, 56756);
    }
}

/// The rows from 31 to 45 degrees lie on the unit circle.
proof fn lemma_rows_31_to_45(k: int)
    requires
        31 <= k <= 45,
    ensures
        near_unit_circle(quarter_sine(90 - k), quarter_sine(k)),
{
    reveal(quarter_sine);
    if k == 31 {
        lemma_row_on_circle(31, 33754, 56175);
    } else if k == 32 {
        lemma_row_on_circle(32, 34729, 55578);
    } else if k == 33 {
        lemma_row_on_circle(33, 35693, 54963);
    } else if k == 34 {
        lemma_row_on_circle(34, 36647, 54332);
    } else if k == 35 {
        lemma_row_on_circle(35, 37590, 53684);
    } else if k == 36 {
        lemma_row_on_circle(36, 38521, 53020);
    } else if k == 37 {
        lemma_row_on_circle(37, 39441, 52339);
    } else if k == 38 {
        lemma_row_on_circle(38, 40348, 51643);
    } else if k == 39 {
        lemma_row_on_circle(39, 41243, 50931);
    } else if k == 40 {
        lemma_row_on_circle(40, 42126, 50203);
    } else if k == 41 {
        lemma_row_on_circle(41, 42995, 49461);
    } else if k == 42 {
        lemma_row_on_circle(42, 43852, 48703);
    } else if k == 43 {
        lemma_row_on_circle(43, 44695, 47930);
    } else if k == 44 {
        lemma_row_on_circle(44, 45525, 47143);
    } else if k == 45 {
        lemma_row_on_circle(45, 46341, 46341);
    }
}

/// The entries for an angle and for its complement are the sine and the
/// cosine of one angle: together they lie on the unit circle.
pub proof fn lemma_quarter_circle(d: int)
    requires
        0 <= d <= 90,
    ensures
        near_unit_circle(quarter_sine(90 - d), quarter_sine(d)),
{
    let k = if d <= 45 {
        d
    } else {
        90 - d
    };
    if k <= 15 {
        lemma_rows_0_to_15(k);
    } else if k <= 30 {
        lemma_rows_16_to_30(k);
    } else {
        lemma_rows_31_to_45(k);
    }
}

/// From one row of the table, written out, to the next is a turn by one degree.
proof fn lemma_row_steps(k: int, s: int, c: int, s2: int, c2: int)
    requires
        0 <= k <= 89,
        quarter_sine(k) == s,
        quarter_sine(90 - k) == c,
        quarter_sine(k + 1) == s2,
        quarter_sine(89 - k) == c2,
        turned_one_degree(c, s, c2, s2),
    ensures
        quarter_step(k),
{
}

/// From each of the rows for 0 to 14 degrees to the next is a turn by one degree.
proof fn lemma_steps_0_to_14(k: int)
    requires
        0 <= k <= 14,
    ensures
        quarter_step(k),
{
    reveal(quarter_sine);
    if k == 0 {
        lemma_row_steps(0, 0, 65536, 1144, 65526);
    } else if k == 1 {
        lemma_row_steps(1, 1144, 65526, 2287, 65496);
    } else if k == 2 {
        lemma_row_steps(2, 2287, 65496, 3430, 65446);
    } else if k == 3 {
        lemma_row_steps(3, 3430, 65446, 4572, 65376);
    } else if k == 4 {
        lemma_row_steps(4, 4572, 65376, 5712, 65287);
    } else if k == 5 {
        lemma_row_steps(5, 5712, 65287, 6850, 65177);
    } else if k == 6 {
        lemma_row_steps(6, 6850, 65177, 7987, 65048);
    } else if k == 7 {
        lemma_row_steps(7, 7987, 65048, 9121, 64898);
    } else if k == 8 {
        lemma_row_steps(8, 9121, 64898, 10252, 64729);
    } else if k == 9 {
        lemma_row_steps(9, 10252, 64729, 11380, 64540);
    } else if k == 10 {
        lemma_row_steps(10, 11380, 64540, 12505, 64332);
    } else if k == 11 {
        lemma_row_steps(11, 12505, 64332, 13626, 64104);
    } else if k == 12 {
        lemma_row_steps(12, 13626, 64104, 14742, 63856);
    } else if k == 13 {
        lemma_row_steps(13, 14742, 63856, 15855, 63589);
    } else if k == 14 {
        lemma_row_steps(14, 15855, 63589, 16962, 63303);
    }
}

/// From each of the rows for 15 to 29 degrees to the next is a turn by one degree.
proof fn lemma_steps_15_to_29(k: int)
    requires
        15 <= k <= 29,
    ensures
        quarter_step(k),
{
    reveal(quarter_sine);
    if k == 15 {
        lemma_row_steps(15, 16962, 63303, 18064, 62997);
    } else if k == 16 {
        lemma_row_steps(16, 18064, 62997, 19161, 62672);
    } else if k == 17 {
        lemma_row_steps(17, 19161, 62672, 20252, 62328);
    } else if k == 18 {
        lemma_row_steps(18, 20252, 62328, 21336, 61966);
    } else if k == 19 {
        lemma_row_steps(19, 21336, 61966, 22415, 61584);
    } else if k == 20 {
        lemma_row_steps(20, 22415, 61584, 23486, 61183);
    } else if k == 21 {
        lemma_row_steps(21, 23486, 61183, 24550, 60764);
    } else if k == 22 {
        lemma_row_steps(22, 24550, 60764, 25607, 60326);
    } else if k == 23 {
        lemma_row_steps(23, 25607, 60326, 26656, 59870);
    } else if k == 24 {
        lemma_row_steps(24, 26656, 59870, 27697, 59396);
    } else if k == 25 {
        lemma_row_steps(25, 27697, 59396, 28729, 58903);
    } else if k == 26 {
        lemma_row_steps(26, 28729, 58903, 29753, 58393);
    } else if k == 27 {
        lemma_row_steps(27, 29753, 58393, 30767, 57865);
    } else if k == 28 {
        lemma_row_steps(28, 30767, 57865, 31772, 57319);
    } else if k == 29 {
        lemma_row_steps(29, 31772, 57319, 32768, 56756);
    }
}

/// From each of the rows for 30 to 44 degrees to the next is a turn by one degree.
proof fn lemma_steps_30_to_44(k: int)
    requires
        30 <= k <= 44,
    ensures
        quarter_step(k),
{
    reveal(quarter_sine);
    if k == 30 {
        lemma_row_steps(30, 32768, 56756, 33754, 56175);
    } else if k == 31 {
        lemma_row_steps(31, 33754, 56175, 34729, 55578);
    } else if k == 32 {
        lemma_row_steps(32, 34729, 55578, 35693, 54963);
    } else if k == 33 {
        lemma_row_steps(33, 35693, 54963, 36647, 54332);
    } else if k == 34 {
        lemma_row_steps(34, 36647, 54332, 37590, 53684);
    } else if k == 35 {
        lemma_row_steps(35, 37590, 53684, 38521, 53020);
    } else if k == 36 {
        lemma_row_steps(36, 38521, 53020, 39441, 52339);
    } else if k == 37 {
        lemma_row_steps(37, 39441, 52339, 40348, 51643);
    } else if k == 38 {
        lemma_row_steps(38, 40348, 51643, 41243, 50931);
    } else if k == 39 {
        lemma_row_steps(39, 41243, 50931, 42126, 50203);
    } else if k == 40 {
        lemma_row_steps(40, 42126, 50203, 42995, 49461);
    } else if k == 41 {
        lemma_row_steps(41, 42995, 49461, 43852, 48703);
    } else if k == 42 {
        lemma_row_steps(42, 43852, 48703, 44695, 47930);
    } else if k == 43 {
        lemma_row_steps(43, 44695, 47930, 45525, 47143);
    } else if k == 44 {
        lemma_row_steps(44, 45525, 47143, 46341, 46341);
    }
}

/// From each of the rows for 45 to 59 degrees to the next is a turn by one degree.
proof fn lemma_steps_45_to_59(k: int)
    requires
        45 <= k <= 59,
    ensures
        quarter_step(k),
{
    reveal(quarter_sine);
    if k == 45 {
        lemma_row_steps(45, 46341, 46341, 47143, 45525);
    } else if k == 46 {
        lemma_row_steps(46, 47143, 45525, 47930, 44695);
    } else if k == 47 {
        lemma_row_steps(47, 47930, 44695, 48703, 43852);
    } else if k == 48 {
        lemma_row_steps(48, 48703, 43852, 49461, 42995);
    } else if k == 49 {
        lemma_row_steps(49, 49461, 42995, 50203, 42126);
    } else if k == 50 {
        lemma_row_steps(50, 50203, 42126, 50931, 41243);
    } else if k == 51 {
        lemma_row_steps(51, 50931, 41243, 51643, 40348);
    } else if k == 52 {
        lemma_row_steps(52, 51643, 40348, 52339, 39441);
    } else if k == 53 {
        lemma_row_steps(53, 52339, 39441, 53020, 38521);
    } else if k == 54 {
        lemma_row_steps(54, 53020, 38521, 53684, 37590);
    } else if k == 55 {
        lemma_row_steps(55, 53684, 37590, 54332, 36647);
    } else if k == 56 {
        lemma_row_steps(56, 54332, 36647, 54963, 35693);
    } else if k == 57 {
        lemma_row_steps(57, 54963, 35693, 55578, 34729);
    } else if k == 58 {
        lemma_row_steps(58, 55578, 34729, 56175, 33754);
    } else if k == 59 {
        lemma_row_steps(59, 56175, 33754, 56756, 32768);
    }
}

/// From each of the rows for 60 to 74 degrees to the next is a turn by one degree.
proof fn lemma_steps_60_to_74(k: int)
    requires
        60 <= k <= 74,
    ensures
        quarter_step(k),
{
    reveal(quarter_sine);
    if k == 60 {
        lemma_row_steps(60, 56756, 32768, 57319, 31772);
    } else if k == 61 {
        lemma_row_steps(61, 57319, 31772, 57865, 30767);
    } else if k == 62 {
        lemma_row_steps(62, 57865, 30767, 58393, 29753);
    } else if k == 63 {
        lemma_row_steps(63, 58393, 29753, 58903, 28729);
    } else if k == 64 {
        lemma_row_steps(64, 58903, 28729, 59396, 27697);
    } else if k == 65 {
        lemma_row_steps(65, 59396, 27697, 59870, 26656);
    } else if k == 66 {
        lemma_row_steps(66, 59870, 26656, 60326, 25607);
    } else if k == 67 {
        lemma_row_steps(67, 60326, 25607, 60764, 24550);
    } else if k == 68 {
        lemma_row_steps(68, 60764, 24550, 61183, 23486);
    } else if k == 69 {
        lemma_row_steps(69, 61183, 23486, 61584, 22415);
    } else if k == 70 {
        lemma_row_steps(70, 61584, 22415, 61966, 21336);
    } else if k == 71 {
        lemma_row_steps(71, 61966, 21336, 62328, 20252);
    } else if k == 72 {
        lemma_row_steps(72, 62328, 20252, 62672, 19161);
    } else if k == 73 {
        lemma_row_steps(73, 62672, 19161, 62997, 18064);
    } else if k == 74 {
        lemma_row_steps(74, 62997, 18064, 63303, 16962);
    }
}

/// From each of the rows for 75 to 89 degrees to the next is a turn by one degree.
proof fn lemma_steps_75_to_89(k: int)
    requires
        75 <= k <= 89,
    ensures
        quarter_step(k),
{
    reveal(quarter_sine);
    if k == 75 {
        lemma_row_steps(75, 63303, 16962, 63589, 15855);
    } else if k == 76 {
        lemma_row_steps(76, 63589, 15855, 63856, 14742);
    } else if k == 77 {
        lemma_row_steps(77, 63856, 14742, 64104, 13626);
    } else if k == 78 {
        lemma_row_steps(78, 64104, 13626, 64332, 12505);
    } else if k == 79 {
        lemma_row_steps(79, 64332, 12505, 64540, 11380);
    } else if k == 80 {
        lemma_row_steps(80, 64540, 11380, 64729, 10252);
    } else if k == 81 {
        lemma_row_steps(81, 64729, 10252, 64898, 9121);
    } else if k == 82 {
        lemma_row_steps(82, 64898, 9121, 65048, 7987);
    } else if k == 83 {
        lemma_row_steps(83, 65048, 7987, 65177, 6850);
    } else if k == 84 {
        lemma_row_steps(84, 65177, 6850, 65287, 5712);
    } else if k == 85 {
        lemma_row_steps(85, 65287, 5712, 65376, 4572);
    } else if k == 86 {
        lemma_row_steps(86, 65376, 4572, 65446, 3430);
    } else if k == 87 {
        lemma_row_steps(87, 65446, 3430, 65496, 2287);
    } else if k == 88 {
        lemma_row_steps(88, 65496, 2287, 65526, 1144);
    } else if k == 89 {
        lemma_row_steps(89, 65526, 1144, 65536, 0);
    }
}

/// From one entry of the table to the next the angle grows by one degree:
/// the table begins with the sine of 0 degrees, ends with that of 90, and
/// each entry with its complement is the one before it, turned by one
/// degree.
pub proof fn lemma_quarter_step(k: int)
    requires
        0 <= k <= 89,
    ensures
        quarter_step(k),
        quarter_sine(0) == 0,
        quarter_sine(90) == TRIG_ONE,
        quarter_sine(1) == SIN_ONE_DEGREE,
        quarter_sine(89) == COS_ONE_DEGREE,
{
    assert(quarter_sine(0) == 0 && quarter_sine(90) == TRIG_ONE && quarter_sine(1)
        == SIN_ONE_DEGREE && quarter_sine(89) == COS_ONE_DEGREE) by {
        reveal(quarter_sine);
    }
    if k <= 14 {
        lemma_steps_0_to_14(k);
    } else if k <= 29 {
        lemma_steps_15_to_29(k);
    } else if k <= 44 {
        lemma_steps_30_to_44(k);
    } else if k <= 59 {
        lemma_steps_45_to_59(k);
    } else if k <= 74 {
        lemma_steps_60_to_74(k);
    } else {
        lemma_steps_75_to_89(k);
    }
}

/// Reads the table.
pub(crate) fn quarter_entry(d: usize) -> (e: i32)
    requires
        d <= 90,
    ensures
        e == quarter_sine(d as int),
        0 <= e <= TRIG_ONE,
{
    proof {
        reveal(quarter_sine);
    }
    QUARTER_SINE[d]
}

} // verus!
