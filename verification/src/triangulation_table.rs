//! The case table of the surface extractor.
//!
//! A unit cell has eight corners and twelve edges. Which corners are solid
//! gives one of 256 patterns, and the table lists for each pattern the
//! triangles that separate its solid corners from its empty ones, as
//! triples of edges: the corners of a triangle lie on those edges.
//!
//! Corners are numbered `0..8`. Corners 0 to 3 run round the bottom of the
//! cell and corners 4 to 7 round its top, each above the corner four below
//! it. Edges 0 to 3 run round the bottom, edges 4 to 7 round the top, and
//! edges 8 to 11 stand upright. Corner `i` is bit `i` of a pattern.

use vstd::prelude::*;

verus! {

/// The number of corners of a cell.
pub const CORNER_COUNT: usize = 8;

/// The number of edges of a cell, each of which may carry one node of the
/// surface.
pub const NODES_POS_COUNT: usize = 12;

/// The number of entries in a row of the table: up to five triangles and
/// at least one sentinel.
pub const ROW_LENGTH: usize = 16;

/// Marks the end of the triangles in a row of the table.
pub const SENTINEL: u64 = 15;

/// For each pattern of solid corners, the triangles of the surface as
/// triples of edges, ended by sentinels.
///
/// A row is one word of sixteen hexadecimal digits, read from the left:
/// each digit is an edge, and `F` is the sentinel. The row `0x038F_...`
/// holds the one triangle on the edges 0, 3 and 8.
pub const TABLE: [u64; 256] = [
    0xFFFF_FFFF_FFFF_FFFF, 0x038F_FFFF_FFFF_FFFF, 0x091F_FFFF_FFFF_FFFF, 0x1381_89FF_FFFF_FFFF,
    0x1A2F_FFFF_FFFF_FFFF, 0x0381_A2FF_FFFF_FFFF, 0x0929_A2FF_FFFF_FFFF, 0x2382_8929_AFFF_FFFF,
    0x2B3F_FFFF_FFFF_FFFF, 0x0282_B8FF_FFFF_FFFF, 0x0912_B3FF_FFFF_FFFF, 0x1282_B818_9FFF_FFFF,
    0x1A3A_B3FF_FFFF_FFFF, 0x0181_A8AB_8FFF_FFFF, 0x0939_A3AB_3FFF_FFFF, 0x89A8_ABFF_FFFF_FFFF,
    0x487F_FFFF_FFFF_FFFF, 0x0343_74FF_FFFF_FFFF, 0x0914_87FF_FFFF_FFFF, 0x1343_7414_9FFF_FFFF,
    0x1A24_87FF_FFFF_FFFF, 0x0343_741A_2FFF_FFFF, 0x0929_A248_7FFF_FFFF, 0x2343_7424_929A_FFFF,
    0x2B34_87FF_FFFF_FFFF, 0x0242_B4B7_4FFF_FFFF, 0x0912_B348_7FFF_FFFF, 0x1242_B4B7_4149_FFFF,
    0x1A3A_B348_7FFF_FFFF, 0x0141_A4AB_4B74_FFFF, 0x0939_A3AB_3487_FFFF, 0x4979_A7AB_7FFF_FFFF,
    0x459F_FFFF_FFFF_FFFF, 0x0384_59FF_FFFF_FFFF, 0x0414_51FF_FFFF_FFFF, 0x1343_8414_5FFF_FFFF,
    0x1A24_59FF_FFFF_FFFF, 0x0381_A245_9FFF_FFFF, 0x0424_525A_2FFF_FFFF, 0x2343_8424_525A_FFFF,
    0x2B34_59FF_FFFF_FFFF, 0x0282_B845_9FFF_FFFF, 0x0414_512B_3FFF_FFFF, 0x1242_B4B8_4145_FFFF,
    0x1A3A_B345_9FFF_FFFF, 0x0181_A8AB_8459_FFFF, 0x0434_535A_3AB3_FFFF, 0x4585_A8AB_8FFF_FFFF,
    0x5979_87FF_FFFF_FFFF, 0x0353_7505_9FFF_FFFF, 0x0818_7175_1FFF_FFFF, 0x1353_75FF_FFFF_FFFF,
    0x1A25_9798_7FFF_FFFF, 0x0353_7505_91A2_FFFF, 0x0828_7275_25A2_FFFF, 0x2353_7525_AFFF_FFFF,
    0x2B35_9798_7FFF_FFFF, 0x0252_B5B7_5059_FFFF, 0x0818_7175_12B3_FFFF, 0x1252_B5B7_5FFF_FFFF,
    0x1A3A_B359_7987_FFFF, 0x0171_A7AB_7075_059F, 0x0870_7505_35AB_5B3F, 0x5A7A_B7FF_FFFF_FFFF,
    0x56AF_FFFF_FFFF_FFFF, 0x0385_6AFF_FFFF_FFFF, 0x0915_6AFF_FFFF_FFFF, 0x1381_8956_AFFF_FFFF,
    0x1525_62FF_FFFF_FFFF, 0x0381_5256_2FFF_FFFF, 0x0929_5256_2FFF_FFFF, 0x2353_8589_5256_FFFF,
    0x2B35_6AFF_FFFF_FFFF, 0x0282_B856_AFFF_FFFF, 0x0912_B356_AFFF_FFFF, 0x1282_B818_956A_FFFF,
    0x1535_636B_3FFF_FFFF, 0x0150_5606_86B8_FFFF, 0x0939_5356_36B3_FFFF, 0x5686_B858_9FFF_FFFF,
    0x4875_6AFF_FFFF_FFFF, 0x0343_7456_AFFF_FFFF, 0x0914_8756_AFFF_FFFF, 0x1343_7414_956A_FFFF,
    0x1525_6248_7FFF_FFFF, 0x0343_7415_2562_FFFF, 0x0929_5256_2487_FFFF, 0x2363_7674_9796_956F,
    0x2B34_8756_AFFF_FFFF, 0x0242_B4B7_456A_FFFF, 0x0912_B348_756A_FFFF, 0x1242_B4B7_4149_56AF,
    0x1535_636B_3487_FFFF, 0x0141_5456_B5B4_B74F, 0x0939_5356_36B3_487F, 0x4954_5B56_B4B7_FFFF,
    0x4696_A9FF_FFFF_FFFF, 0x0384_696A_9FFF_FFFF, 0x0414_616A_1FFF_FFFF, 0x1343_8414_616A_FFFF,
    0x1929_4246_2FFF_FFFF, 0x0381_9294_2462_FFFF, 0x0424_62FF_FFFF_FFFF, 0x2343_8424_6FFF_FFFF,
    0x2B34_696A_9FFF_FFFF, 0x0282_B846_96A9_FFFF, 0x0414_616A_12B3_FFFF, 0x1242_B4B8_4146_16AF,
    0x1939_4346_36B3_FFFF, 0x0161_9414_6068_6B8F, 0x0434_636B_3FFF_FFFF, 0x4686_B8FF_FFFF_FFFF,
    0x6A7A_9798_7FFF_FFFF, 0x0363_7606_96A9_FFFF, 0x0818_7176_16A1_FFFF, 0x1363_7616_AFFF_FFFF,
    0x1929_8287_2762_FFFF, 0x0363_7606_9629_219F, 0x0828_7276_2FFF_FFFF, 0x2363_76FF_FFFF_FFFF,
    0x2B36_A7A9_7987_FFFF, 0x0272_B707_606A_0A9F, 0x0818_7176_16A1_2B3F, 0x1262_B727_616A_FFFF,
    0x1939_8387_6863_6B3F, 0x0196_B7FF_FFFF_FFFF, 0x0838_7686_36B3_FFFF, 0x6B7F_FFFF_FFFF_FFFF,
    0x67BF_FFFF_FFFF_FFFF, 0x0386_7BFF_FFFF_FFFF, 0x0916_7BFF_FFFF_FFFF, 0x1381_8967_BFFF_FFFF,
    0x1A26_7BFF_FFFF_FFFF, 0x0381_A267_BFFF_FFFF, 0x0929_A267_BFFF_FFFF, 0x2382_8929_A67B_FFFF,
    0x2636_73FF_FFFF_FFFF, 0x0260_6707_8FFF_FFFF, 0x0912_6367_3FFF_FFFF, 0x1261_6717_8189_FFFF,
    0x1A3A_6367_3FFF_FFFF, 0x0161_A606_7078_FFFF, 0x0939_A3A6_3673_FFFF, 0x6786_8969_AFFF_FFFF,
    0x4868_B6FF_FFFF_FFFF, 0x0343_B4B6_4FFF_FFFF, 0x0914_868B_6FFF_FFFF, 0x1343_B4B6_4149_FFFF,
    0x1A24_868B_6FFF_FFFF, 0x0343_B4B6_41A2_FFFF, 0x0929_A248_68B6_FFFF, 0x2343_B636_424A_49AF,
    0x2636_4348_3FFF_FFFF, 0x0242_64FF_FFFF_FFFF, 0x0912_6364_3483_FFFF, 0x1242_6414_9FFF_FFFF,
    0x1A3A_6364_3483_FFFF, 0x0141_A4A6_4FFF_FFFF, 0x0939_A3A6_3643_483F, 0x4969_A6FF_FFFF_FFFF,
    0x4596_7BFF_FFFF_FFFF, 0x0384_5967_BFFF_FFFF, 0x0414_5167_BFFF_FFFF, 0x1343_8414_567B_FFFF,
    0x1A24_5967_BFFF_FFFF, 0x0381_A245_967B_FFFF, 0x0424_525A_267B_FFFF, 0x2343_8424_525A_67BF,
    0x2636_7345_9FFF_FFFF, 0x0260_6707_8459_FFFF, 0x0414_5126_3673_FFFF, 0x1252_6567_8685_845F,
    0x1A3A_6367_3459_FFFF, 0x0161_A606_7078_459F, 0x0434_535A_3A67_A73F, 0x4585_A656_8678_FFFF,
    0x5969_868B_6FFF_FFFF, 0x0353_B5B6_5059_FFFF, 0x0818_B1B6_1651_FFFF, 0x1353_B5B6_5FFF_FFFF,
    0x1A25_9698_68B6_FFFF, 0x0353_B5B6_5059_1A2F, 0x0828_B2B6_5B52_5A2F, 0x2353_B5B6_525A_FFFF,
    0x2636_5359_3983_FFFF, 0x0252_6505_9FFF_FFFF, 0x0818_3282_1261_651F, 0x1252_65FF_FFFF_FFFF,
    0x1A61_6365_3593_983F, 0x0151_A616_5059_FFFF, 0x0835_A6FF_FFFF_FFFF, 0x5A6F_FFFF_FFFF_FFFF,
    0x57A7_BAFF_FFFF_FFFF, 0x0385_7A7B_AFFF_FFFF, 0x0915_7A7B_AFFF_FFFF, 0x1381_8957_A7BA_FFFF,
    0x1525_727B_2FFF_FFFF, 0x0381_5257_27B2_FFFF, 0x0929_5257_27B2_FFFF, 0x2353_8589_5257_27BF,
    0x2A3A_5357_3FFF_FFFF, 0x0252_A505_7078_FFFF, 0x0912_A3A5_3573_FFFF, 0x1272_A525_7179_789F,
    0x1535_73FF_FFFF_FFFF, 0x0150_5707_8FFF_FFFF, 0x0939_5357_3FFF_FFFF, 0x5785_89FF_FFFF_FFFF,
    0x4858_B5BA_5FFF_FFFF, 0x0343_B4BA_4A54_FFFF, 0x0914_858B_5BA5_FFFF, 0x1343_B4BA_4A54_149F,
    0x1525_4248_28B2_FFFF, 0x0353_B5B2_1B15_054F, 0x0950_5254_2482_8B2F, 0x23B4_95FF_FFFF_FFFF,
    0x2A3A_5354_3483_FFFF, 0x0242_A4A5_4FFF_FFFF, 0x0912_A3A5_3543_483F, 0x1242_A4A5_4149_FFFF,
    0x1535_4348_3FFF_FFFF, 0x0141_54FF_FFFF_FFFF, 0x0939_5354_3483_FFFF, 0x495F_FFFF_FFFF_FFFF,
    0x4797_B9BA_9FFF_FFFF, 0x0384_797B_9BA9_FFFF, 0x0414_717B_1BA1_FFFF, 0x1343_8414_717B_1BAF,
    0x1929_4247_27B2_FFFF, 0x0381_9294_2472_7B2F, 0x0424_727B_2FFF_FFFF, 0x2343_8424_727B_FFFF,
    0x2A3A_9394_3473_FFFF, 0x0272_A7A9_7947_078F, 0x0434_7303_A32A_0A1F, 0x12A4_78FF_FFFF_FFFF,
    0x1939_4347_3FFF_FFFF, 0x0141_9404_7078_FFFF, 0x0434_73FF_FFFF_FFFF, 0x478F_FFFF_FFFF_FFFF,
    0x8B9B_A9FF_FFFF_FFFF, 0x0393_B9BA_9FFF_FFFF, 0x0818_B1BA_1FFF_FFFF, 0x13A3_BAFF_FFFF_FFFF,
    0x1929_828B_2FFF_FFFF, 0x0393_B1B2_1319_FFFF, 0x0828_B2FF_FFFF_FFFF, 0x23BF_FFFF_FFFF_FFFF,
    0x2A3A_9398_3FFF_FFFF, 0x0292_A9FF_FFFF_FFFF, 0x0818_3132_A3A1_FFFF, 0x12AF_FFFF_FFFF_FFFF,
    0x1939_83FF_FFFF_FFFF, 0x019F_FFFF_FFFF_FFFF, 0x083F_FFFF_FFFF_FFFF, 0xFFFF_FFFF_FFFF_FFFF,
];

/// Entry `i` of the row `code`, for `i` below sixteen.
pub open spec fn row_entry(code: u64, i: u64) -> u64 {
    (code >> ((15 - i) * 4) as u64) & 15
}

/// The corner at the lower end of `edge`.
pub open spec fn edge_first(edge: u64) -> u64 {
    if edge == 0 {
        0
    } else if edge == 1 {
        2
    } else if edge == 2 {
        3
    } else if edge == 3 {
        3
    } else if edge == 4 {
        4
    } else if edge == 5 {
        6
    } else if edge == 6 {
        7
    } else if edge == 7 {
        7
    } else if edge == 8 {
        0
    } else if edge == 9 {
        1
    } else if edge == 10 {
        2
    } else {
        3
    }
}

/// The corner at the upper end of `edge`.
pub open spec fn edge_second(edge: u64) -> u64 {
    if edge == 0 {
        1
    } else if edge == 1 {
        1
    } else if edge == 2 {
        2
    } else if edge == 3 {
        0
    } else if edge == 4 {
        5
    } else if edge == 5 {
        5
    } else if edge == 6 {
        6
    } else if edge == 7 {
        4
    } else if edge == 8 {
        4
    } else if edge == 9 {
        5
    } else if edge == 10 {
        6
    } else {
        7
    }
}

/// Whether `corner` is solid in `pattern`.
pub open spec fn corner_bit(pattern: u64, corner: u64) -> bool {
    (pattern >> corner) & 1 == 1
}

/// Whether the surface cuts `edge` in `pattern`: exactly one of its two
/// corners is solid.
pub open spec fn edge_cut(pattern: u64, edge: u64) -> bool {
    corner_bit(pattern, edge_first(edge)) != corner_bit(pattern, edge_second(edge))
}

/// Whether the three entries from `at` on in the row `code` are either
/// sentinels, as is the entry after them, or three edges that the surface
/// cuts in `pattern`.
pub open spec fn triple_ok(code: u64, pattern: u64, at: u64) -> bool {
    let a = row_entry(code, at);
    let b = row_entry(code, (at + 1) as u64);
    let c = row_entry(code, (at + 2) as u64);
    if a == SENTINEL {
        b == SENTINEL && c == SENTINEL && row_entry(code, (at + 3) as u64) == SENTINEL
    } else {
        &&& a < 12 && edge_cut(pattern, a)
        &&& b < 12 && edge_cut(pattern, b)
        &&& c < 12 && edge_cut(pattern, c)
    }
}

/// Whether `code` is a well-formed row for `pattern`: whole triangles of
/// cut edges, then sentinels to the end.
pub open spec fn row_ok(code: u64, pattern: u64) -> bool {
    &&& row_entry(code, 15) == SENTINEL
    &&& triple_ok(code, pattern, 0)
    &&& triple_ok(code, pattern, 3)
    &&& triple_ok(code, pattern, 6)
    &&& triple_ok(code, pattern, 9)
    &&& triple_ok(code, pattern, 12)
}

/// Whether exactly one corner is solid in `pattern`.
pub open spec fn one_corner_solid(pattern: u64) -> bool {
    pattern == 1 || pattern == 2 || pattern == 4 || pattern == 8 || pattern == 16 || pattern == 32
        || pattern == 64 || pattern == 128
}

/// Whether exactly one corner is solid in `pattern`, or exactly one empty.
pub open spec fn lone_corner(pattern: u64) -> bool {
    one_corner_solid(pattern) || (pattern < 256 && one_corner_solid(pattern ^ 255))
}

/// Entry `i` of the row `code`.
pub fn entry(code: u64, i: usize) -> (r: u64)
    requires
        i < ROW_LENGTH,
    ensures
        r == row_entry(code, i as u64),
        r <= 15,
{
    let shift: u64 = (15 - i as u64) * 4;
    let r = (code >> shift) & 15;
    assert(((code >> shift) & 15) <= 15) by (bit_vector);
    r
}

} // verus!
