//! Little-endian loads and bit-granular reads from a byte slice.
use vstd::prelude::*;

verus! {

/// The 16-bit little-endian value formed by bytes `i` and `i + 1` of `s`.
pub open spec fn spec_load_16(s: Seq<u8>, i: int) -> u16 {
    (s[i] as u16) | ((s[i + 1] as u16) << 8)
}

/// The 32-bit little-endian value formed by bytes `i` .. `i + 4` of `s`.
pub open spec fn spec_load_32(s: Seq<u8>, i: int) -> u32 {
    (s[i] as u32) | ((s[i + 1] as u32) << 8) | ((s[i + 2] as u32) << 16) | ((s[i + 3] as u32)
        << 24)
}

/// The single bit of `s` at global little-endian bit offset `bit`.
pub open spec fn spec_get_bit(s: Seq<u8>, bit: usize) -> u8 {
    (s[(bit >> 3) as int] >> ((bit & 7) as u8)) & 1
}

/// `count` bits of `s` starting at global bit offset `bit`, as the low bits
/// of the result; reads span at most two adjacent bytes.
pub open spec fn spec_get_bits(s: Seq<u8>, bit: usize, count: usize) -> u8 {
    if count == 0 {
        0u8
    } else {
        let by = (bit >> 3) as int;
        let sh = bit & 7;
        if sh + count <= 8 {
            (s[by] >> (sh as u8)) & (((1u8 << (count as u8)) - 1) as u8)
        } else {
            let x: u16 = (s[by] as u16) | ((s[by + 1] as u16) << 8);
            (((x >> (sh as u16)) & (((1u16 << (count as u16)) - 1) as u16)) as u8)
        }
    }
}

pub proof fn lemma_shr3_and7()
    by (bit_vector)
    ensures
        forall|b: usize| #![trigger b >> 3usize] #![trigger b & 7usize] (b >> 3usize) == b / 8
            && (b & 7usize) == b % 8,
{
}

pub proof fn lemma_u32_shr0()
    by (bit_vector)
    ensures
        forall|v: u32| #[trigger] (v >> 0u32) == v,
{
}

pub proof fn lemma_u8_low_mask(x: u8, sh: u8, c: u8)
    by (bit_vector)
    requires
        c < 8,
    ensures
        1u8 << c >= 1,
        ((x >> sh) & (((1u8 << c) - 1) as u8)) < (1u8 << c),
{
}

pub proof fn lemma_u16_low_mask(x: u16, sh: u16, c: u16)
    by (bit_vector)
    requires
        c < 16,
    ensures
        1u16 << c >= 1,
        ((x >> sh) & (((1u16 << c) - 1) as u16)) < (1u16 << c),
{
}

pub fn load_16(source: &[u8], i: usize) -> (r: u16)
    requires
        i + 2 <= source@.len(),
    ensures
        r == spec_load_16(source@, i as int),
{
    (source[i] as u16) | ((source[i + 1] as u16) << 8)
}

pub fn load_32(source: &[u8], i: usize) -> (r: u32)
    requires
        i + 4 <= source@.len(),
    ensures
        r == spec_load_32(source@, i as int),
{
    (source[i] as u32) | ((source[i + 1] as u32) << 8) | ((source[i + 2] as u32) << 16) | ((
    source[i + 3] as u32) << 24)
}

pub fn get_bit(src: &[u8], bit: usize) -> (r: u8)
    requires
        bit < 8 * src@.len(),
    ensures
        r == spec_get_bit(src@, bit),
        r <= 1,
{
    proof {
        lemma_shr3_and7();
    }
    let by: usize = bit >> 3;
    let bit_m: usize = bit & 7;
    let byte: u8 = src[by];
    let r: u8 = (byte >> (bit_m as u8)) & 1;
    assert((byte >> (bit_m as u8)) & 1 <= 1) by (bit_vector);
    r
}

pub fn get_bits(src: &[u8], bit: usize, count: usize) -> (r: u8)
    requires
        count <= 7,
        count > 0 ==> bit + count <= 8 * src@.len(),
    ensures
        r == spec_get_bits(src@, bit, count),
        (r as u16) < (1u16 << (count as u16)),
{
    proof {
        lemma_shr3_and7();
    }
    if count == 0 {
        proof {
            lemma_u16_low_mask(0, 0, 0);
        }
        assert(0u16 < (1u16 << 0u16)) by (bit_vector);
        return 0;
    }
    let by: usize = bit >> 3;
    let sh: usize = bit & 7;
    if sh + count <= 8 {
        proof {
            lemma_u8_low_mask(src@[by as int], sh as u8, count as u8);
        }
        let m: u8 = 1u8 << (count as u8);
        let r: u8 = (src[by] >> (sh as u8)) & (m - 1);
        assert((r as u16) < (1u16 << (count as u16))) by (bit_vector)
            requires
                count <= 7usize && r < (1u8 << (count as u8)),
        ;
        r
    } else {
        proof {
            lemma_u16_low_mask(
                (src@[by as int] as u16) | ((src@[by as int + 1] as u16) << 8),
                sh as u16,
                count as u16,
            );
        }
        let x: u16 = (src[by] as u16) | ((src[by + 1] as u16) << 8);
        let m: u16 = 1u16 << (count as u16);
        let v: u16 = (x >> (sh as u16)) & (m - 1);
        assert(v < (1u16 << (count as u16)) ==> ((v as u8) as u16) < (1u16 << (count as u16))
            && v as u8 == v) by (bit_vector)
            requires
                count <= 7,
        ;
        v as u8
    }
}

} // verus!
