use vstd::prelude::*;

verus! {

/// How many counts make a sine or a cosine of one: 2^30.
pub const ANGLE_UNIT: i64 = 1_073_741_824;

/// The square root of three, times [`ANGLE_UNIT`] and rounded to the nearest whole
/// number.
pub const ROOT_THREE: i64 = 1_859_775_393;

/// The sine of `d` degrees, for `d` from 0 to 90, times [`ANGLE_UNIT`] and rounded to the
/// nearest whole number.
pub open spec fn sine_table(d: int) -> int {
    if d == 0 {
        0
    } else if d == 1 {
        18739379
    } else if d == 2 {
        37473049
    } else if d == 3 {
        56195305
    } else if d == 4 {
        74900443
    } else if d == 5 {
        93582766
    } else if d == 6 {
        112236583
    } else if d == 7 {
        130856211
    } else if d == 8 {
        149435979
    } else if d == 9 {
        167970228
    } else if d == 10 {
        186453311
    } else if d == 11 {
        204879599
    } else if d == 12 {
        223243478
    } else if d == 13 {
        241539355
    } else if d == 14 {
        259761657
    } else if d == 15 {
        277904834
    } else if d == 16 {
        295963357
    } else if d == 17 {
        313931728
    } else if d == 18 {
        331804471
    } else if d == 19 {
        349576144
    } else if d == 20 {
        367241333
    } else if d == 21 {
        384794656
    } else if d == 22 {
        402230767
    } else if d == 23 {
        419544355
    } else if d == 24 {
        436730145
    } else if d == 25 {
        453782903
    } else if d == 26 {
        470697435
    } else if d == 27 {
        487468587
    } else if d == 28 {
        504091252
    } else if d == 29 {
        520560366
    } else if d == 30 {
        536870912
    } else if d == 31 {
        553017922
    } else if d == 32 {
        568996477
    } else if d == 33 {
        584801711
    } else if d == 34 {
        600428808
    } else if d == 35 {
        615873009
    } else if d == 36 {
        631129609
    } else if d == 37 {
        646193961
    } else if d == 38 {
        661061475
    } else if d == 39 {
        675727625
    } else if d == 40 {
        690187940
    } else if d == 41 {
        704438018
    } else if d == 42 {
        718473518
    } else if d == 43 {
        732290163
    } else if d == 44 {
        745883746
    } else if d == 45 {
        759250125
    } else if d == 46 {
        772385229
    } else if d == 47 {
        785285058
    } else if d == 48 {
        797945680
    } else if d == 49 {
        810363241
    } else if d == 50 {
        822533958
    } else if d == 51 {
        834454122
    } else if d == 52 {
        846120104
    } else if d == 53 {
        857528349
    } else if d == 54 {
        868675383
    } else if d == 55 {
        879557810
    } else if d == 56 {
        890172315
    } else if d == 57 {
        900515665
    } else if d == 58 {
        910584710
    } else if d == 59 {
        920376381
    } else if d == 60 {
        929887697
    } else if d == 61 {
        939115760
    } else if d == 62 {
        948057759
    } else if d == 63 {
        956710970
    } else if d == 64 {
        965072759
    } else if d == 65 {
        973140576
    } else if d == 66 {
        980911966
    } else if d == 67 {
        988384560
    } else if d == 68 {
        995556083
    } else if d == 69 {
        1002424350
    } else if d == 70 {
        1008987269
    } else if d == 71 {
        1015242840
    } else if d == 72 {
        1021189159
    } else if d == 73 {
        1026824413
    } else if d == 74 {
        1032146887
    } else if d == 75 {
        1037154959
    } else if d == 76 {
        1041847103
    } else if d == 77 {
        1046221891
    } else if d == 78 {
        1050277989
    } else if d == 79 {
        1054014162
    } else if d == 80 {
        1057429273
    } else if d == 81 {
        1060522280
    } else if d == 82 {
        1063292242
    } else if d == 83 {
        1065738315
    } else if d == 84 {
        1067859754
    } else if d == 85 {
        1069655912
    } else if d == 86 {
        1071126243
    } else if d == 87 {
        1072270298
    } else if d == 88 {
        1073087729
    } else if d == 89 {
        1073578288
    } else {
        1073741824
    }
}

/// The sine of a whole number of degrees, times [`ANGLE_UNIT`]: the table, carried to
/// the other three quadrants.
pub open spec fn sine(degrees: int) -> int {
    let d = degrees % 360;
    if d <= 90 {
        sine_table(d)
    } else if d <= 180 {
        sine_table(180 - d)
    } else if d <= 270 {
        -sine_table(d - 180)
    } else {
        -sine_table(360 - d)
    }
}

/// The cosine of a whole number of degrees, times [`ANGLE_UNIT`]: the sine a quarter
/// turn on.
pub open spec fn cosine(degrees: int) -> int {
    sine(degrees + 90)
}

fn sine_entry(d: u16) -> (s: i64)
    requires
        d <= 90,
    ensures
        s == sine_table(d as int),
        0 <= s <= ANGLE_UNIT,
{
    match d {
        0 => 0,
        1 => 18739379,
        2 => 37473049,
        3 => 56195305,
        4 => 74900443,
        5 => 93582766,
        6 => 112236583,
        7 => 130856211,
        8 => 149435979,
        9 => 167970228,
        10 => 186453311,
        11 => 204879599,
        12 => 223243478,
        13 => 241539355,
        14 => 259761657,
        15 => 277904834,
        16 => 295963357,
        17 => 313931728,
        18 => 331804471,
        19 => 349576144,
        20 => 367241333,
        21 => 384794656,
        22 => 402230767,
        23 => 419544355,
        24 => 436730145,
        25 => 453782903,
        26 => 470697435,
        27 => 487468587,
        28 => 504091252,
        29 => 520560366,
        30 => 536870912,
        31 => 553017922,
        32 => 568996477,
        33 => 584801711,
        34 => 600428808,
        35 => 615873009,
        36 => 631129609,
        37 => 646193961,
        38 => 661061475,
        39 => 675727625,
        40 => 690187940,
        41 => 704438018,
        42 => 718473518,
        43 => 732290163,
        44 => 745883746,
        45 => 759250125,
        46 => 772385229,
        47 => 785285058,
        48 => 797945680,
        49 => 810363241,
        50 => 822533958,
        51 => 834454122,
        52 => 846120104,
        53 => 857528349,
        54 => 868675383,
        55 => 879557810,
        56 => 890172315,
        57 => 900515665,
        58 => 910584710,
        59 => 920376381,
        60 => 929887697,
        61 => 939115760,
        62 => 948057759,
        63 => 956710970,
        64 => 965072759,
        65 => 973140576,
        66 => 980911966,
        67 => 988384560,
        68 => 995556083,
        69 => 1002424350,
        70 => 1008987269,
        71 => 1015242840,
        72 => 1021189159,
        73 => 1026824413,
        74 => 1032146887,
        75 => 1037154959,
        76 => 1041847103,
        77 => 1046221891,
        78 => 1050277989,
        79 => 1054014162,
        80 => 1057429273,
        81 => 1060522280,
        82 => 1063292242,
        83 => 1065738315,
        84 => 1067859754,
        85 => 1069655912,
        86 => 1071126243,
        87 => 1072270298,
        88 => 1073087729,
        89 => 1073578288,
        _ => 1073741824,
    }
}

fn sine_wide(degrees: i64) -> (s: i64)
    requires
        -0x1_0000_0000 <= degrees <= 0x1_0000_0000,
    ensures
        s == sine(degrees as int),
        -ANGLE_UNIT <= s <= ANGLE_UNIT,
{
    // 4_294_967_400 is a multiple of 360 that lifts every such angle above zero.
    let lifted: i64 = degrees + 4_294_967_400;
    assert(lifted % 360 == (degrees as int) % 360);
    let d: u16 = (lifted % 360) as u16;
    if d <= 90 {
        sine_entry(d)
    } else if d <= 180 {
        sine_entry(180 - d)
    } else if d <= 270 {
        -sine_entry(d - 180)
    } else {
        -sine_entry(360 - d)
    }
}

/// The sine of `degrees`, times [`ANGLE_UNIT`].
pub fn sine_of(degrees: i32) -> (s: i64)
    ensures
        s == sine(degrees as int),
        -ANGLE_UNIT <= s <= ANGLE_UNIT,
{
    sine_wide(degrees as i64)
}

/// The cosine of `degrees`, times [`ANGLE_UNIT`].
pub fn cosine_of(degrees: i32) -> (c: i64)
    ensures
        c == cosine(degrees as int),
        -ANGLE_UNIT <= c <= ANGLE_UNIT,
{
    sine_wide(degrees as i64 + 90)
}

} // verus!
