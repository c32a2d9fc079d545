//! Fixed tables of the BC6H decoder: interpolation weights, subset and
//! anchor maps shared with the BPTC family, per-mode endpoint bit packings,
//! and the per-mode field widths. These tables are part of the bit-exact
//! decoding contract.
use vstd::prelude::*;

verus! {

pub const BC7_WEIGHTS2: [u8; 4] = [0, 21, 43, 64];

pub const BC7_WEIGHTS3: [u8; 8] = [0, 9, 18, 27, 37, 46, 55, 64];

pub const BC7_WEIGHTS4: [u8; 16] = [
    0, 4, 9, 13, 17, 21, 26, 30, 34, 38, 43, 47,
    51, 55, 60, 64,
];

/// Subset index bitmaps for the 2-subset partitions, 1 bit per pixel.
pub const BC7_SI2: [u16; 64] = [
    0xcccc, 0x8888, 0xeeee, 0xecc8, 0xc880, 0xfeec, 0xfec8, 0xec80,
    0xc800, 0xffec, 0xfe80, 0xe800, 0xffe8, 0xff00, 0xfff0, 0xf000,
    0xf710, 0x008e, 0x7100, 0x08ce, 0x008c, 0x7310, 0x3100, 0x8cce,
    0x088c, 0x3110, 0x6666, 0x366c, 0x17e8, 0x0ff0, 0x718e, 0x399c,
    0xaaaa, 0xf0f0, 0x5a5a, 0x33cc, 0x3c3c, 0x55aa, 0x9696, 0xa55a,
    0x73ce, 0x13c8, 0x324c, 0x3bdc, 0x6996, 0xc33c, 0x9966, 0x0660,
    0x0272, 0x04e4, 0x4e40, 0x2720, 0xc936, 0x936c, 0x39c6, 0x639c,
    0x9336, 0x9cc6, 0x817e, 0xe718, 0xccf0, 0x0fcc, 0x7744, 0xee22,
];

/// Subset index bitmaps for the 3-subset partitions, 2 bits per pixel.
pub const BC7_SI3: [u32; 64] = [
    0xaa685050, 0x6a5a5040, 0x5a5a4200, 0x5450a0a8, 0xa5a50000, 0xa0a05050,
    0x5555a0a0, 0x5a5a5050, 0xaa550000, 0xaa555500, 0xaaaa5500, 0x90909090,
    0x94949494, 0xa4a4a4a4, 0xa9a59450, 0x2a0a4250, 0xa5945040, 0x0a425054,
    0xa5a5a500, 0x55a0a0a0, 0xa8a85454, 0x6a6a4040, 0xa4a45000, 0x1a1a0500,
    0x0050a4a4, 0xaaa59090, 0x14696914, 0x69691400, 0xa08585a0, 0xaa821414,
    0x50a4a450, 0x6a5a0200, 0xa9a58000, 0x5090a0a8, 0xa8a09050, 0x24242424,
    0x00aa5500, 0x24924924, 0x24499224, 0x50a50a50, 0x500aa550, 0xaaaa4444,
    0x66660000, 0xa5a0a5a0, 0x50a050a0, 0x69286928, 0x44aaaa44, 0x66666600,
    0xaa444444, 0x54a854a8, 0x95809580, 0x96969600, 0xa85454a8, 0x80959580,
    0xaa141414, 0x96960000, 0xaaaa1414, 0xa05050a0, 0xa0a5a5a0, 0x96000000,
    0x40804080, 0xa9a8a9a8, 0xaaaaaa44, 0x2a4a5254,
];

/// Anchor pixel index for each 2-subset partition.
pub const BC7_AI0: [u8; 64] = [
    15, 15, 15, 15, 15, 15, 15, 15, 15, 15, 15, 15, 15, 15, 15, 15,
    15, 2, 8, 2, 2, 8, 8, 15, 2, 8, 2, 2, 8, 8, 2, 2,
    15, 15, 6, 8, 2, 8, 15, 15, 2, 8, 2, 2, 2, 15, 15, 6,
    6, 2, 6, 8, 15, 15, 2, 2, 15, 15, 15, 15, 15, 2, 2, 15,
];

pub const BC6_BIT_PACKINGS: [[u8; 75]; 14] = [
    [
        116, 132, 176, 0, 1, 2, 3, 4, 5, 6, 7, 8,
        9, 16, 17, 18, 19, 20, 21, 22, 23, 24, 25, 32,
        33, 34, 35, 36, 37, 38, 39, 40, 41, 48, 49, 50,
        51, 52, 164, 112, 113, 114, 115, 64, 65, 66, 67, 68,
        172, 160, 161, 162, 163, 80, 81, 82, 83, 84, 173, 128,
        129, 130, 131, 96, 97, 98, 99, 100, 174, 144, 145, 146,
        147, 148, 175,
    ],
    [
        117, 164, 165, 0, 1, 2, 3, 4, 5, 6, 172, 173,
        132, 16, 17, 18, 19, 20, 21, 22, 133, 174, 116, 32,
        33, 34, 35, 36, 37, 38, 175, 177, 176, 48, 49, 50,
        51, 52, 53, 112, 113, 114, 115, 64, 65, 66, 67, 68,
        69, 160, 161, 162, 163, 80, 81, 82, 83, 84, 85, 128,
        129, 130, 131, 96, 97, 98, 99, 100, 101, 144, 145, 146,
        147, 148, 149,
    ],
    [
        0, 1, 2, 3, 4, 5, 6, 7, 8, 9, 16, 17,
        18, 19, 20, 21, 22, 23, 24, 25, 32, 33, 34, 35,
        36, 37, 38, 39, 40, 41, 48, 49, 50, 51, 52, 10,
        112, 113, 114, 115, 64, 65, 66, 67, 26, 172, 160, 161,
        162, 163, 80, 81, 82, 83, 42, 173, 128, 129, 130, 131,
        96, 97, 98, 99, 100, 174, 144, 145, 146, 147, 148, 175,
        0, 0, 0,
    ],
    [
        0, 1, 2, 3, 4, 5, 6, 7, 8, 9, 16, 17,
        18, 19, 20, 21, 22, 23, 24, 25, 32, 33, 34, 35,
        36, 37, 38, 39, 40, 41, 48, 49, 50, 51, 10, 164,
        112, 113, 114, 115, 64, 65, 66, 67, 68, 26, 160, 161,
        162, 163, 80, 81, 82, 83, 42, 173, 128, 129, 130, 131,
        96, 97, 98, 99, 172, 174, 144, 145, 146, 147, 116, 175,
        0, 0, 0,
    ],
    [
        0, 1, 2, 3, 4, 5, 6, 7, 8, 9, 16, 17,
        18, 19, 20, 21, 22, 23, 24, 25, 32, 33, 34, 35,
        36, 37, 38, 39, 40, 41, 48, 49, 50, 51, 10, 132,
        112, 113, 114, 115, 64, 65, 66, 67, 26, 172, 160, 161,
        162, 163, 80, 81, 82, 83, 84, 42, 128, 129, 130, 131,
        96, 97, 98, 99, 173, 174, 144, 145, 146, 147, 176, 175,
        0, 0, 0,
    ],
    [
        0, 1, 2, 3, 4, 5, 6, 7, 8, 132, 16, 17,
        18, 19, 20, 21, 22, 23, 24, 116, 32, 33, 34, 35,
        36, 37, 38, 39, 40, 176, 48, 49, 50, 51, 52, 164,
        112, 113, 114, 115, 64, 65, 66, 67, 68, 172, 160, 161,
        162, 163, 80, 81, 82, 83, 84, 173, 128, 129, 130, 131,
        96, 97, 98, 99, 100, 174, 144, 145, 146, 147, 148, 175,
        0, 0, 0,
    ],
    [
        0, 1, 2, 3, 4, 5, 6, 7, 164, 132, 16, 17,
        18, 19, 20, 21, 22, 23, 174, 116, 32, 33, 34, 35,
        36, 37, 38, 39, 175, 176, 48, 49, 50, 51, 52, 53,
        112, 113, 114, 115, 64, 65, 66, 67, 68, 172, 160, 161,
        162, 163, 80, 81, 82, 83, 84, 173, 128, 129, 130, 131,
        96, 97, 98, 99, 100, 101, 144, 145, 146, 147, 148, 149,
        0, 0, 0,
    ],
    [
        0, 1, 2, 3, 4, 5, 6, 7, 172, 132, 16, 17,
        18, 19, 20, 21, 22, 23, 117, 116, 32, 33, 34, 35,
        36, 37, 38, 39, 165, 176, 48, 49, 50, 51, 52, 164,
        112, 113, 114, 115, 64, 65, 66, 67, 68, 69, 160, 161,
        162, 163, 80, 81, 82, 83, 84, 173, 128, 129, 130, 131,
        96, 97, 98, 99, 100, 174, 144, 145, 146, 147, 148, 175,
        0, 0, 0,
    ],
    [
        0, 1, 2, 3, 4, 5, 6, 7, 173, 132, 16, 17,
        18, 19, 20, 21, 22, 23, 133, 116, 32, 33, 34, 35,
        36, 37, 38, 39, 177, 176, 48, 49, 50, 51, 52, 164,
        112, 113, 114, 115, 64, 65, 66, 67, 68, 172, 160, 161,
        162, 163, 80, 81, 82, 83, 84, 85, 128, 129, 130, 131,
        96, 97, 98, 99, 100, 174, 144, 145, 146, 147, 148, 175,
        0, 0, 0,
    ],
    [
        0, 1, 2, 3, 4, 5, 164, 172, 173, 132, 16, 17,
        18, 19, 20, 21, 117, 133, 174, 116, 32, 33, 34, 35,
        36, 37, 165, 175, 177, 176, 48, 49, 50, 51, 52, 53,
        112, 113, 114, 115, 64, 65, 66, 67, 68, 69, 160, 161,
        162, 163, 80, 81, 82, 83, 84, 85, 128, 129, 130, 131,
        96, 97, 98, 99, 100, 101, 144, 145, 146, 147, 148, 149,
        0, 0, 0,
    ],
    [
        0, 1, 2, 3, 4, 5, 6, 7, 8, 9, 16, 17,
        18, 19, 20, 21, 22, 23, 24, 25, 32, 33, 34, 35,
        36, 37, 38, 39, 40, 41, 48, 49, 50, 51, 52, 53,
        54, 55, 56, 57, 64, 65, 66, 67, 68, 69, 70, 71,
        72, 73, 80, 81, 82, 83, 84, 85, 86, 87, 88, 89,
        0, 0, 0, 0, 0, 0, 0, 0, 0, 0, 0, 0,
        0, 0, 0,
    ],
    [
        0, 1, 2, 3, 4, 5, 6, 7, 8, 9, 16, 17,
        18, 19, 20, 21, 22, 23, 24, 25, 32, 33, 34, 35,
        36, 37, 38, 39, 40, 41, 48, 49, 50, 51, 52, 53,
        54, 55, 56, 10, 64, 65, 66, 67, 68, 69, 70, 71,
        72, 26, 80, 81, 82, 83, 84, 85, 86, 87, 88, 42,
        0, 0, 0, 0, 0, 0, 0, 0, 0, 0, 0, 0,
        0, 0, 0,
    ],
    [
        0, 1, 2, 3, 4, 5, 6, 7, 8, 9, 16, 17,
        18, 19, 20, 21, 22, 23, 24, 25, 32, 33, 34, 35,
        36, 37, 38, 39, 40, 41, 48, 49, 50, 51, 52, 53,
        54, 55, 11, 10, 64, 65, 66, 67, 68, 69, 70, 71,
        27, 26, 80, 81, 82, 83, 84, 85, 86, 87, 43, 42,
        0, 0, 0, 0, 0, 0, 0, 0, 0, 0, 0, 0,
        0, 0, 0,
    ],
    [
        0, 1, 2, 3, 4, 5, 6, 7, 8, 9, 16, 17,
        18, 19, 20, 21, 22, 23, 24, 25, 32, 33, 34, 35,
        36, 37, 38, 39, 40, 41, 48, 49, 50, 51, 15, 14,
        13, 12, 11, 10, 64, 65, 66, 67, 31, 30, 29, 28,
        27, 26, 80, 81, 82, 83, 47, 46, 45, 44, 43, 42,
        0, 0, 0, 0, 0, 0, 0, 0, 0, 0, 0, 0,
        0, 0, 0,
    ],
];
/// Per-mode fixed fields of a BC6H block: `ns` subsets, `tr` delta-coded
/// endpoints, `pb` partition bits, `epb` endpoint bits, and the delta widths
/// `rb`, `gb`, `bb`.
#[derive(Debug, Clone, Copy, PartialEq, Eq, Structural)]
pub struct Bc6ModeInfo {
    /// number of subsets (also called regions)
    pub ns: u8,
    /// whether endpoints are delta-compressed
    pub tr: u8,
    /// partition bits
    pub pb: u8,
    /// endpoint bits
    pub epb: u8,
    /// red bits (delta)
    pub rb: u8,
    /// green bits (delta)
    pub gb: u8,
    /// blue bits (delta)
    pub bb: u8,
}

/// The fixed mode table of BC6H, for modes 0 .. 14; anything else is an
/// all-zero placeholder that decoding never reaches.
pub open spec fn spec_bc6_mode_info(mode: int) -> Bc6ModeInfo {
    if mode == 0 {
        Bc6ModeInfo { ns: 2, tr: 1, pb: 5, epb: 10, rb: 5, gb: 5, bb: 5 }
    } else if mode == 1 {
        Bc6ModeInfo { ns: 2, tr: 1, pb: 5, epb: 7, rb: 6, gb: 6, bb: 6 }
    } else if mode == 2 {
        Bc6ModeInfo { ns: 2, tr: 1, pb: 5, epb: 11, rb: 5, gb: 4, bb: 4 }
    } else if mode == 3 {
        Bc6ModeInfo { ns: 2, tr: 1, pb: 5, epb: 11, rb: 4, gb: 5, bb: 4 }
    } else if mode == 4 {
        Bc6ModeInfo { ns: 2, tr: 1, pb: 5, epb: 11, rb: 4, gb: 4, bb: 5 }
    } else if mode == 5 {
        Bc6ModeInfo { ns: 2, tr: 1, pb: 5, epb: 9, rb: 5, gb: 5, bb: 5 }
    } else if mode == 6 {
        Bc6ModeInfo { ns: 2, tr: 1, pb: 5, epb: 8, rb: 6, gb: 5, bb: 5 }
    } else if mode == 7 {
        Bc6ModeInfo { ns: 2, tr: 1, pb: 5, epb: 8, rb: 5, gb: 6, bb: 5 }
    } else if mode == 8 {
        Bc6ModeInfo { ns: 2, tr: 1, pb: 5, epb: 8, rb: 5, gb: 5, bb: 6 }
    } else if mode == 9 {
        Bc6ModeInfo { ns: 2, tr: 0, pb: 5, epb: 6, rb: 6, gb: 6, bb: 6 }
    } else if mode == 10 {
        Bc6ModeInfo { ns: 1, tr: 0, pb: 0, epb: 10, rb: 10, gb: 10, bb: 10 }
    } else if mode == 11 {
        Bc6ModeInfo { ns: 1, tr: 1, pb: 0, epb: 11, rb: 9, gb: 9, bb: 9 }
    } else if mode == 12 {
        Bc6ModeInfo { ns: 1, tr: 1, pb: 0, epb: 12, rb: 8, gb: 8, bb: 8 }
    } else if mode == 13 {
        Bc6ModeInfo { ns: 1, tr: 1, pb: 0, epb: 16, rb: 4, gb: 4, bb: 4 }
    } else {
        Bc6ModeInfo { ns: 0, tr: 0, pb: 0, epb: 0, rb: 0, gb: 0, bb: 0 }
    }
}

impl Bc6ModeInfo {
    /// Looks up the fixed field widths of BC6H mode `mode`.
    pub fn new(mode: usize) -> (r: Bc6ModeInfo)
        ensures
            r == spec_bc6_mode_info(mode as int),
    {
        match mode {
            0 => Bc6ModeInfo { ns: 2, tr: 1, pb: 5, epb: 10, rb: 5, gb: 5, bb: 5 },
            1 => Bc6ModeInfo { ns: 2, tr: 1, pb: 5, epb: 7, rb: 6, gb: 6, bb: 6 },
            2 => Bc6ModeInfo { ns: 2, tr: 1, pb: 5, epb: 11, rb: 5, gb: 4, bb: 4 },
            3 => Bc6ModeInfo { ns: 2, tr: 1, pb: 5, epb: 11, rb: 4, gb: 5, bb: 4 },
            4 => Bc6ModeInfo { ns: 2, tr: 1, pb: 5, epb: 11, rb: 4, gb: 4, bb: 5 },
            5 => Bc6ModeInfo { ns: 2, tr: 1, pb: 5, epb: 9, rb: 5, gb: 5, bb: 5 },
            6 => Bc6ModeInfo { ns: 2, tr: 1, pb: 5, epb: 8, rb: 6, gb: 5, bb: 5 },
            7 => Bc6ModeInfo { ns: 2, tr: 1, pb: 5, epb: 8, rb: 5, gb: 6, bb: 5 },
            8 => Bc6ModeInfo { ns: 2, tr: 1, pb: 5, epb: 8, rb: 5, gb: 5, bb: 6 },
            9 => Bc6ModeInfo { ns: 2, tr: 0, pb: 5, epb: 6, rb: 6, gb: 6, bb: 6 },
            10 => Bc6ModeInfo { ns: 1, tr: 0, pb: 0, epb: 10, rb: 10, gb: 10, bb: 10 },
            11 => Bc6ModeInfo { ns: 1, tr: 1, pb: 0, epb: 11, rb: 9, gb: 9, bb: 9 },
            12 => Bc6ModeInfo { ns: 1, tr: 1, pb: 0, epb: 12, rb: 8, gb: 8, bb: 8 },
            13 => Bc6ModeInfo { ns: 1, tr: 1, pb: 0, epb: 16, rb: 4, gb: 4, bb: 4 },
            _ => Bc6ModeInfo { ns: 0, tr: 0, pb: 0, epb: 0, rb: 0, gb: 0, bb: 0 },
        }
    }
}

/// The interpolation weight table entry for index-bit width `n` at index
/// `i`: table 2, 3, or 4 entries in `[0, 64]`.
pub open spec fn spec_bc7_weight(n: u8, i: int) -> u8 {
    if n == 2 {
        BC7_WEIGHTS2[i]
    } else if n == 3 {
        BC7_WEIGHTS3[i]
    } else {
        BC7_WEIGHTS4[i]
    }
}

/// Looks up interpolation weight `i` of the weight table for index-bit
/// width `n`.
pub fn bc7_get_weight(n: u8, i: usize) -> (r: u8)
    requires
        n == 2 ==> i < 4,
        n == 3 ==> i < 8,
        i < 16,
    ensures
        r == spec_bc7_weight(n, i as int),
        r <= 64,
{
    if n == 2 {
        return BC7_WEIGHTS2[i];
    }
    if n == 3 {
        return BC7_WEIGHTS3[i];
    }
    BC7_WEIGHTS4[i]
}

/// The subset of pixel `n` in a block with `ns` subsets and the given
/// partition: a 0- to 2-bit field of the partition's subset-index bitmap.
pub open spec fn spec_bc7_subset(ns: u8, partition: int, n: usize) -> usize {
    if ns == 2 {
        1usize & ((BC7_SI2[partition] as usize) >> n)
    } else if ns == 3 {
        3usize & ((BC7_SI3[partition] as usize) >> (2 * n))
    } else {
        0usize
    }
}

/// Looks up which subset pixel `n` of a block with `ns` subsets belongs to.
pub fn bc7_get_subset(ns: u8, partition: usize, n: usize) -> (r: usize)
    requires
        partition < 64,
        n < 16,
    ensures
        r == spec_bc7_subset(ns, partition as int, n),
        ns == 2 ==> r <= 1,
        ns != 2 && ns != 3 ==> r == 0,
        r <= 3,
{
    if ns == 2 {
        let e: u16 = BC7_SI2[partition];
        let r: usize = 1usize & ((e as usize) >> n);
        assert(1usize & ((e as usize) >> n) <= 1) by (bit_vector);
        return r;
    }
    if ns == 3 {
        let e: u32 = BC7_SI3[partition];
        let r: usize = 3usize & ((e as usize) >> (2 * n));
        assert(3usize & ((e as usize) >> (2 * n)) <= 3) by (bit_vector);
        return r;
    }
    0
}

} // verus!
