//! Laws of the decoder, stated and proved over the same spec functions that
//! the decoding functions' contracts use.
use vstd::prelude::*;
use vstd::arithmetic::div_mod::{
    lemma_div_is_ordered,
    lemma_fundamental_div_mod,
    lemma_fundamental_div_mod_converse,
    lemma_mod_bound,
};
use vstd::arithmetic::power2::{pow2, lemma_pow2_adds, lemma_pow2_pos, lemma2_to64};
use vstd::bits::{lemma_u64_shl_is_mul, lemma_u64_shr_is_div};
use crate::bc6h::spec_bc6_unquantize;
use crate::decode::{spec_decoded_byte, spec_nbx, spec_nblocks};
use crate::{
    BcnDecoderFormat,
    BcnEncoding,
    spec_block_bytes,
    spec_dst_size,
    spec_element_bytes,
    spec_flip,
    spec_swizzle_of,
};

verus! {

/// The destination channel that the swizzle byte assigns to source channel
/// `m` (0 = red .. 3 = alpha).
pub open spec fn spec_swizzle_dest(swz: u8, m: int) -> int {
    if m == 0 {
        (swz & 3) as int
    } else if m == 1 {
        ((swz >> 2) & 3) as int
    } else if m == 2 {
        ((swz >> 4) & 3) as int
    } else {
        ((swz >> 6) & 3) as int
    }
}

/// Decoding is deterministic: any two buffers that satisfy the decoder's
/// pointwise postcondition for the same source, dimensions, encoding and
/// format are byte-identical.
pub proof fn lemma_decode_deterministic(
    a: Seq<u8>,
    b: Seq<u8>,
    src: Seq<u8>,
    w: int,
    h: int,
    encoding: BcnEncoding,
    format: BcnDecoderFormat,
)
    requires
        a.len() == spec_dst_size(w, h, encoding),
        b.len() == spec_dst_size(w, h, encoding),
        forall|k: int|
            0 <= k < a.len() ==> a[k] == spec_decoded_byte(
                0,
                src,
                w,
                h,
                encoding,
                spec_swizzle_of(format),
                spec_flip(w, h),
                false,
                k,
            ),
        forall|k: int|
            0 <= k < b.len() ==> b[k] == spec_decoded_byte(
                0,
                src,
                w,
                h,
                encoding,
                spec_swizzle_of(format),
                spec_flip(w, h),
                false,
                k,
            ),
    ensures
        a == b,
{
    assert(a =~= b);
}

/// Swizzle identity law: for the byte-per-channel encodings, a decode to
/// BGRA, ARGB or ABGR is the RGBA decode with each pixel's four bytes
/// permuted, source channel `c` landing in the channel that the format's
/// swizzle field names.
pub proof fn lemma_swizzle_permutation(
    src: Seq<u8>,
    w: int,
    h: int,
    encoding: BcnEncoding,
    format: BcnDecoderFormat,
    neg: bool,
    sign: bool,
    p: int,
    c: int,
)
    requires
        w >= 1,
        h >= 1,
        encoding is Bc1 || encoding is Bc2 || encoding is Bc3 || encoding is Bc5,
        format is BGRA || format is ARGB || format is ABGR,
        0 <= p < w * h,
        0 <= c < 4,
    ensures
        spec_decoded_byte(
            0,
            src,
            w,
            h,
            encoding,
            spec_swizzle_of(format),
            neg,
            sign,
            4 * p + spec_swizzle_dest(spec_swizzle_of(format), c),
        ) == spec_decoded_byte(
            0,
            src,
            w,
            h,
            encoding,
            spec_swizzle_of(BcnDecoderFormat::RGBA),
            neg,
            sign,
            4 * p + c,
        ),
{
    let swz = spec_swizzle_of(format);
    assert((0xc6u8 & 3) == 2 && ((0xc6u8 >> 2) & 3) == 1 && ((0xc6u8 >> 4) & 3) == 0 && ((0xc6u8
        >> 6) & 3) == 3) by (bit_vector);
    assert((0x93u8 & 3) == 3 && ((0x93u8 >> 2) & 3) == 0 && ((0x93u8 >> 4) & 3) == 1 && ((0x93u8
        >> 6) & 3) == 2) by (bit_vector);
    assert((0x1bu8 & 3) == 3 && ((0x1bu8 >> 2) & 3) == 2 && ((0x1bu8 >> 4) & 3) == 1 && ((0x1bu8
        >> 6) & 3) == 0) by (bit_vector);
    let d = spec_swizzle_dest(swz, c);
    assert(0 <= d < 4);
    lemma_fundamental_div_mod_converse(4 * p + d, 4, p, d);
    lemma_fundamental_div_mod_converse(4 * p + c, 4, p, c);
}

/// Partial-block coverage: when either dimension is not a multiple of 4 and
/// the source holds a whole block for every 4x4 tile of the image, every
/// byte of the pixel grid is written by the block that covers its pixel: the
/// decoded byte does not depend on the destination buffer's initial
/// contents. (That no out-of-bounds write happens is inherent: the decoder
/// is verified memory-safe.)
pub proof fn lemma_partial_blocks_cover(
    old1: u8,
    old2: u8,
    src: Seq<u8>,
    w: int,
    h: int,
    encoding: BcnEncoding,
    format: BcnDecoderFormat,
    sign: bool,
    k: int,
)
    requires
        w >= 1,
        h >= 1,
        spec_flip(w, h),
        encoding is Bc4 ==> (format is RGBA || format is LUM),
        format is LUM ==> encoding is Bc4,
        src.len() >= ((h + 3) / 4) * ((w + 3) / 4) * spec_block_bytes(encoding),
        0 <= k < spec_element_bytes(encoding) * w * h,
    ensures
        spec_decoded_byte(old1, src, w, h, encoding, spec_swizzle_of(format), true, sign, k)
            == spec_decoded_byte(old2, src, w, h, encoding, spec_swizzle_of(format), true, sign, k),
{
    let elt = spec_element_bytes(encoding);
    let bs = spec_block_bytes(encoding);
    let nbx = spec_nbx(w);
    let ceilh = (h + 3) / 4;
    let img = ceilh * nbx;
    let p = k / elt;
    let c = k % elt;
    assert(0 <= p && p < w * h) by (nonlinear_arith)
        requires
            0 <= k < elt * w * h && p == k / elt && 1 <= elt && w >= 1 && h >= 1,
    ;
    lemma_mod_bound(k, elt);
    let px = p % w;
    let py = p / w;
    lemma_mod_bound(p, w);
    assert(0 <= py && py < h) by (nonlinear_arith)
        requires
            0 <= p < w * h && py == p / w && w >= 1 && h >= 1,
    ;
    let sy = h - 1 - py;
    assert(0 <= sy < h);
    // the block of pixel (px, sy) is within the image's block grid
    lemma_fundamental_div_mod(w + 3, 4);
    lemma_mod_bound(w + 3, 4);
    lemma_fundamental_div_mod(h + 3, 4);
    lemma_mod_bound(h + 3, 4);
    assert(4 * nbx >= w && 4 * ceilh >= h);
    lemma_fundamental_div_mod(sy, 4);
    lemma_mod_bound(sy, 4);
    lemma_fundamental_div_mod(px, 4);
    lemma_mod_bound(px, 4);
    assert(sy / 4 <= ceilh - 1 && 0 <= sy / 4) by (nonlinear_arith)
        requires
            0 <= sy < h && 4 * ceilh >= h && sy == 4 * (sy / 4) + sy % 4 && 0 <= sy % 4 < 4,
    ;
    assert(px / 4 <= nbx - 1 && 0 <= px / 4) by (nonlinear_arith)
        requires
            0 <= px < w && 4 * nbx >= w && px == 4 * (px / 4) + px % 4 && 0 <= px % 4 < 4,
    ;
    let sblk = (sy / 4) * nbx + px / 4;
    assert(sblk < img) by (nonlinear_arith)
        requires
            sblk == (sy / 4) * nbx + px / 4 && sy / 4 <= ceilh - 1 && px / 4 <= nbx - 1 && img
                == ceilh * nbx && nbx >= 1,
    ;
    // the source holds every block of the image
    assert((img * bs) / bs == img) by (nonlinear_arith)
        requires
            bs >= 1 && img >= 0,
    ;
    lemma_div_is_ordered(img * bs, src.len() as int, bs);
    assert(spec_nblocks(src.len() as int, w, h, encoding) == img);
    // the written byte comes from the decoded block, whatever was there
    let swz = spec_swizzle_of(format);
    assert((0xc6u8 & 3) == 2 && ((0xc6u8 >> 2) & 3) == 1 && ((0xc6u8 >> 4) & 3) == 0 && ((0xc6u8
        >> 6) & 3) == 3) by (bit_vector);
    assert((0x93u8 & 3) == 3 && ((0x93u8 >> 2) & 3) == 0 && ((0x93u8 >> 4) & 3) == 1 && ((0x93u8
        >> 6) & 3) == 2) by (bit_vector);
    assert((0x1bu8 & 3) == 3 && ((0x1bu8 >> 2) & 3) == 2 && ((0x1bu8 >> 4) & 3) == 1 && ((0x1bu8
        >> 6) & 3) == 0) by (bit_vector);
}

/// BC6H unquantization is monotone in the endpoint value for a fixed
/// precision, over the `prec`-bit values the decoder feeds it.
pub proof fn lemma_unquantize_monotone(v1: u16, v2: u16, prec: u16, sign: bool)
    requires
        1 <= prec <= 16,
        v1 <= v2,
        (v2 as nat) < pow2(prec as nat),
    ensures
        spec_bc6_unquantize(v1, prec, sign) <= spec_bc6_unquantize(v2, prec, sign),
{
    let x1 = v1 as u64;
    let x2 = v2 as u64;
    lemma2_to64();
    lemma_pow2_pos((prec - 1) as nat);
    lemma_pow2_adds((prec - 1) as nat, 1);
    assert(pow2(prec as nat) == 2 * pow2((prec - 1) as nat));
    let pp = pow2((prec - 1) as nat) as int;
    lemma_u64_shl_is_mul(1u64, prec as u64);
    if prec >= 2 {
        lemma_u64_shl_is_mul(1u64, (prec - 1) as u64);
    } else {
        assert(1u64 << ((prec - 1) as u64) == 1) by (bit_vector)
            requires
                prec == 1,
        ;
    }
    assert(1u64 << prec == 2 * pp && 1u64 << ((prec - 1) as u64) == pp);
    lemma_u64_shl_is_mul(x1, 15);
    lemma_u64_shl_is_mul(x2, 15);
    assert(pow2(15) == 0x8000);
    let y1 = ((x1 << 15) + 0x4000) as u64;
    let y2 = ((x2 << 15) + 0x4000) as u64;
    assert(y1 == x1 * 0x8000 + 0x4000 && y2 == x2 * 0x8000 + 0x4000);
    lemma_u64_shr_is_div(y1, (prec - 1) as u64);
    lemma_u64_shr_is_div(y2, (prec - 1) as u64);
    assert(x1 * 0x8000 <= x2 * 0x8000) by (nonlinear_arith)
        requires
            x1 <= x2,
    ;
    lemma_div_is_ordered(y1 as int, y2 as int, pp);
    // the scaling formula stays under the top-of-range constants
    if !sign {
        if prec < 15 && x2 == (2 * pp - 1) as u64 && x1 != 0 && x1 != x2 {
            // v2 is the all-ones value: show the formula keeps v1 under 0xffff
            assert(y1 <= (2 * pp - 2) * 0x8000 + 0x4000) by (nonlinear_arith)
                requires
                    y1 == x1 * 0x8000 + 0x4000 && x1 <= 2 * pp - 2,
            ;
            assert((2 * pp - 2) * 0x8000 + 0x4000 < 0x10000 * pp) by (nonlinear_arith)
                requires
                    pp >= 1,
            ;
            lemma_div_is_ordered(y1 as int, 0x10000 * pp - 1, pp);
            lemma_fundamental_div_mod_converse(0x10000 * pp - 1, pp, 0xffff, pp - 1);
            assert(y1 as int / pp <= 0xffff);
        }
    } else {
        if prec < 16 && x2 >= (pp - 1) as u64 && x1 < (pp - 1) as u64 && x1 != 0 {
            // v2 is clamped: show the formula keeps v1 under 0x7fff
            assert(y1 <= (pp - 2) * 0x8000 + 0x4000) by (nonlinear_arith)
                requires
                    y1 == x1 * 0x8000 + 0x4000 && x1 <= pp - 2,
            ;
            assert((pp - 2) * 0x8000 + 0x4000 < 0x8000 * pp) by (nonlinear_arith)
                requires
                    pp >= 1,
            ;
            lemma_div_is_ordered(y1 as int, 0x8000 * pp - 1, pp);
            lemma_fundamental_div_mod_converse(0x8000 * pp - 1, pp, 0x7fff, pp - 1);
            assert(y1 as int / pp <= 0x7fff);
        }
    }
}

} // verus!
