//! BC6H machinery: sign extension, endpoint unquantization, endpoint
//! interpolation, and reconstitution of half-precision floats as 32-bit
//! float bit patterns, all in integer arithmetic.
use vstd::prelude::*;
use vstd::arithmetic::power2::{pow2, lemma_pow2_adds, lemma_pow2_pos, lemma2_to64};
use vstd::arithmetic::div_mod::lemma_fundamental_div_mod_converse;
use vstd::slice::slice_subrange;
use crate::bits::{get_bit, get_bits, spec_get_bit, spec_get_bits};
use crate::blocks::{spec_zero_seq, zero_vec};
use crate::tables::{
    BC6_BIT_PACKINGS,
    BC7_AI0,
    Bc6ModeInfo,
    bc7_get_subset,
    bc7_get_weight,
    spec_bc6_mode_info,
    spec_bc7_subset,
    spec_bc7_weight,
};

verus! {

/// `v` with bit `prec - 1` replicated into all higher bits: two's-complement
/// sign extension from `prec` bits to 16 bits.
pub open spec fn spec_bc6_sign_extend(v: u16, prec: u16) -> u16 {
    if v & (1u16 << ((prec - 1) as u16)) != 0 {
        v | ((0xffffu32 << prec) as u16)
    } else {
        v
    }
}

/// Expansion of a `prec`-bit endpoint component to the decoder's 17-bit
/// working range: zero and the all-ones value map to the extremes 0 and
/// 0xffff, other values scale by `(v * 2^15 + 2^14) / 2^(prec - 1)`; in
/// signed mode the result is clamped at 0x7fff. The decoder's endpoint
/// words are never negative, so only the non-negative branch of the signed
/// rule is reachable.
pub open spec fn spec_bc6_unquantize(v: u16, prec: u16, sign: bool) -> u64 {
    let x = v as u64;
    if !sign {
        if prec >= 15 {
            x
        } else if x == 0 {
            0u64
        } else if x == ((1u64 << prec) - 1) as u64 {
            0xffffu64
        } else {
            (((x << 15) + 0x4000) as u64) >> ((prec - 1) as u64)
        }
    } else {
        if prec >= 16 {
            x
        } else if x == 0 {
            0u64
        } else if x >= ((1u64 << ((prec - 1) as u64)) - 1) as u64 {
            0x7fffu64
        } else {
            (((x << 15) + 0x4000) as u64) >> ((prec - 1) as u64)
        }
    }
}

/// Weighted blend of two unquantized endpoint components: weight `w` out of
/// 64 parts of `e1` against `64 - w` parts of `e0`, truncated by a 6-bit
/// shift.
pub open spec fn spec_bc6_lerp(e0: u64, e1: u64, w: u8) -> u64 {
    ((e0 * ((64 - w) as u64) + e1 * (w as u64)) as u64) >> 6
}

/// Tail of the subnormal half-float conversion: doubles the mantissa until
/// its implicit leading bit (weight 0x400) appears, lowering the exponent
/// for each doubling, then assembles the float pattern.
pub open spec fn spec_half_normalize(s: u32, e: int, m: nat) -> u32
    decreases 0x800 - m,
{
    if m == 0 {
        s
    } else if m >= 0x400 {
        s | ((e as u32) << 23) | (((m as u32) & 0x3ff) << 13)
    } else {
        spec_half_normalize(s, e - 1, m * 2)
    }
}

/// The IEEE-754 single-precision bit pattern with the same value as the
/// half-precision bit pattern `h`: sign moves to bit 31, the exponent is
/// re-biased from 15 to 127, the mantissa widens by 13 bits; subnormal
/// halves are normalized, and infinities and NaNs keep their payload under
/// the maximum exponent.
pub open spec fn spec_half_to_float_bits(h: u16) -> u32 {
    let hu = h as u32;
    let s = (hu & 0x8000) << 16;
    let e = (hu >> 10) & 0x1f;
    let m = hu & 0x3ff;
    if e == 0 {
        if m == 0 {
            s
        } else {
            spec_half_normalize(s, 113, m as nat)
        }
    } else if e == 31 {
        s | 0x7f800000u32 | (m << 13)
    } else {
        s | (((e + 112) as u32) << 23) | (m << 13)
    }
}

/// The float bit pattern of an interpolated value `v`: scaled down to the
/// half-float range (by 31/32 signed, 31/64 unsigned) and converted to a
/// single-precision pattern.
pub open spec fn spec_bc6_finalize(v: u64, sign: bool) -> u32 {
    if sign {
        spec_half_to_float_bits(((v * 31) / 32) as u16)
    } else {
        spec_half_to_float_bits(((v * 31) / 64) as u16)
    }
}

/// Sign-extends `*v` from `prec` bits to 16 bits in place.
pub fn bc6_sign_extend(v: &mut u16, prec: u16)
    requires
        1 <= prec <= 16,
    ensures
        *final(v) == spec_bc6_sign_extend(*old(v), prec),
{
    if *v & (1u16 << ((prec - 1) as u16)) != 0 {
        *v = *v | ((0xffffu32 << prec) as u16);
    }
}

/// Unquantizes a `prec`-bit endpoint component to the 17-bit working range.
pub fn bc6_unquantize(v: u16, prec: u16, sign: bool) -> (r: u64)
    requires
        1 <= prec <= 16,
    ensures
        r == spec_bc6_unquantize(v, prec, sign),
        r < 0x80000000,
{
    let x: u64 = v as u64;
    proof {
        assert((((x << 15) + 0x4000) as u64) >> ((prec - 1) as u64) < 0x80000000 && (x << 15)
            <= 0x7fff8000u64 && 1u64 << prec >= 1 && 1u64 << ((prec - 1) as u64) >= 1)
            by (bit_vector)
            requires
                x < 0x10000u64 && 1 <= prec <= 16,
        ;
    }
    if !sign {
        if prec >= 15 {
            return x;
        }
        if x == 0 {
            return 0;
        }
        if x == ((1u64 << prec) - 1) as u64 {
            return 0xffff;
        }
        (((x << 15) + 0x4000) as u64) >> ((prec - 1) as u64)
    } else {
        if prec >= 16 {
            return x;
        }
        if x == 0 {
            return 0;
        }
        if x >= ((1u64 << ((prec - 1) as u64)) - 1) as u64 {
            return 0x7fff;
        }
        (((x << 15) + 0x4000) as u64) >> ((prec - 1) as u64)
    }
}

/// Blends two unquantized endpoint components with weight `w` out of 64.
pub fn bc6_lerp(e0: u64, e1: u64, w: u8) -> (r: u64)
    requires
        e0 < 0x80000000,
        e1 < 0x80000000,
        w <= 64,
    ensures
        r == spec_bc6_lerp(e0, e1, w),
        r < 0x100000000,
{
    let t: u64 = (64 - w) as u64;
    proof {
        assert(e0 * t <= 0x7fffffffu64 * 64 && e1 * (w as u64) <= 0x7fffffffu64 * 64)
            by (nonlinear_arith)
            requires
                e0 < 0x80000000 && e1 < 0x80000000 && t <= 64 && w <= 64,
        ;
    }
    let sum: u64 = e0 * t + e1 * (w as u64);
    proof {
        assert(sum >> 6 < 0x100000000) by (bit_vector)
            requires
                sum <= 0x3fffffff80u64,
        ;
    }
    sum >> 6
}

/// Converts a half-precision float bit pattern to the single-precision bit
/// pattern with the same value.
pub fn half_to_float_bits(h: u16) -> (r: u32)
    ensures
        r == spec_half_to_float_bits(h),
{
    let hu: u32 = h as u32;
    let s: u32 = (hu & 0x8000) << 16;
    let e: u32 = (hu >> 10) & 0x1f;
    let m: u32 = hu & 0x3ff;
    proof {
        assert((hu >> 10) & 0x1f < 32 && (hu & 0x3ff) < 0x400 && ((hu & 0x8000) << 16)
            <= 0x80000000) by (bit_vector);
    }
    if e == 0 {
        if m == 0 {
            return s;
        }
        // subnormal: renormalize the mantissa into the wider format
        let mut mm: u32 = m;
        let mut ee: u32 = 113;
        proof {
            lemma2_to64();
        }
        while mm < 0x400
            invariant
                1 <= mm < 0x800,
                ee <= 113,
                pow2((113 - ee) as nat) <= mm,
                spec_half_normalize(s, 113, m as nat) == spec_half_normalize(
                    s,
                    ee as int,
                    mm as nat,
                ),
            decreases 0x800 - mm,
        {
            proof {
                lemma2_to64();
                if ee <= 103 {
                    lemma_pow2_adds(10, (103 - ee) as nat);
                    lemma_pow2_pos((103 - ee) as nat);
                    assert(pow2((113 - ee) as nat) >= pow2(10));
                    assert(false);
                }
                lemma_pow2_adds((113 - ee) as nat, 1);
            }
            mm = mm * 2;
            ee = ee - 1;
        }
        s | (ee << 23) | ((mm & 0x3ff) << 13)
    } else if e == 31 {
        s | 0x7f800000u32 | (m << 13)
    } else {
        s | ((e + 112) << 23) | (m << 13)
    }
}

/// Scales an interpolated value to the half range and converts it to a
/// single-precision float bit pattern.
pub fn bc6_finalize(v: u64, sign: bool) -> (r: u32)
    requires
        v < 0x100000000,
    ensures
        r == spec_bc6_finalize(v, sign),
{
    if sign {
        half_to_float_bits(#[verifier::truncate] (((v * 31) / 32) as u16))
    } else {
        half_to_float_bits(#[verifier::truncate] (((v * 31) / 64) as u16))
    }
}

/// The twelve endpoint words after the first `n` packed endpoint bits have
/// been routed: source bit `bit0 + i` of the block lands in the endpoint
/// word and bit position given by descriptor `i` of the mode's bit-packing
/// table.
pub open spec fn spec_bc6_endpoints(blk: Seq<u8>, mode: usize, bit0: usize, n: int) -> Seq<u16>
    decreases n,
{
    if n <= 0 {
        Seq::new(12, |i: int| 0u16)
    } else {
        let prev = spec_bc6_endpoints(blk, mode, bit0, n - 1);
        let di = BC6_BIT_PACKINGS[mode as int][n - 1];
        let dw = (di >> 4) as int;
        let db = (di & 15) as u16;
        if dw < 12 {
            prev.update(dw, prev[dw] | ((spec_get_bit(blk, (bit0 + n - 1) as usize) as u16) << db))
        } else {
            prev
        }
    }
}

/// Endpoint words with the first endpoint's three components sign-extended
/// from the endpoint width.
pub open spec fn spec_bc6_extend_e0(eps: Seq<u16>, epb: u16) -> Seq<u16> {
    eps.update(0, spec_bc6_sign_extend(eps[0], epb)).update(
        1,
        spec_bc6_sign_extend(eps[1], epb),
    ).update(2, spec_bc6_sign_extend(eps[2], epb))
}

/// Endpoint words with every component after the first endpoint
/// sign-extended from its delta width.
pub open spec fn spec_bc6_extend_deltas(
    eps: Seq<u16>,
    rb: u16,
    gb: u16,
    bb: u16,
    numep: int,
) -> Seq<u16> {
    let e1 = eps.update(3, spec_bc6_sign_extend(eps[3], rb)).update(
        4,
        spec_bc6_sign_extend(eps[4], gb),
    ).update(5, spec_bc6_sign_extend(eps[5], bb));
    if numep == 12 {
        e1.update(6, spec_bc6_sign_extend(eps[6], rb)).update(
            7,
            spec_bc6_sign_extend(eps[7], gb),
        ).update(8, spec_bc6_sign_extend(eps[8], bb)).update(
            9,
            spec_bc6_sign_extend(eps[9], rb),
        ).update(10, spec_bc6_sign_extend(eps[10], gb)).update(
            11,
            spec_bc6_sign_extend(eps[11], bb),
        )
    } else {
        e1
    }
}

/// One delta-coded component with the first endpoint added back, modulo the
/// endpoint width.
pub open spec fn spec_bc6_delta(eps: Seq<u16>, mask: u16, i: int) -> u16 {
    ((((eps[i] as u32) + (eps[0] as u32)) as u32) & (mask as u32)) as u16
}

/// Endpoint words with the first endpoint added back into every subsequent
/// component.
pub open spec fn spec_bc6_add_deltas(eps: Seq<u16>, mask: u16, numep: int) -> Seq<u16> {
    let e1 = eps.update(3, spec_bc6_delta(eps, mask, 3)).update(
        4,
        spec_bc6_delta(eps, mask, 4),
    ).update(5, spec_bc6_delta(eps, mask, 5));
    if numep == 12 {
        e1.update(6, spec_bc6_delta(eps, mask, 6)).update(
            7,
            spec_bc6_delta(eps, mask, 7),
        ).update(8, spec_bc6_delta(eps, mask, 8)).update(
            9,
            spec_bc6_delta(eps, mask, 9),
        ).update(10, spec_bc6_delta(eps, mask, 10)).update(11, spec_bc6_delta(eps, mask, 11))
    } else {
        e1
    }
}

/// The endpoint words of the block after unpacking, sign handling and delta
/// decoding, ready to unquantize.
pub open spec fn spec_bc6_final_endpoints(
    blk: Seq<u8>,
    mode: usize,
    bit0: usize,
    epbits: usize,
    sign: bool,
) -> Seq<u16> {
    let info = spec_bc6_mode_info(mode as int);
    let numep: int = if info.ns == 2 {
        12
    } else {
        6
    };
    let e0 = spec_bc6_endpoints(blk, mode, bit0, epbits as int);
    let e1 = if sign {
        spec_bc6_extend_e0(e0, info.epb as u16)
    } else {
        e0
    };
    let e2 = if sign || info.tr > 0 {
        spec_bc6_extend_deltas(e1, info.rb as u16, info.gb as u16, info.bb as u16, numep)
    } else {
        e1
    };
    let mask = (((1u32 << (info.epb as u32)) - 1) as u32) as u16;
    let e3 = if info.tr > 0 {
        spec_bc6_add_deltas(e2, mask, numep)
    } else {
        e2
    };
    if info.tr > 0 && sign {
        spec_bc6_extend_deltas(e3, info.rb as u16, info.gb as u16, info.bb as u16, numep)
    } else {
        e3
    }
}

/// The twelve unquantized endpoint components; entries past `numep` stay 0.
pub open spec fn spec_bc6_ueps(eps: Seq<u16>, epb: u16, sign: bool, numep: int) -> Seq<u64> {
    Seq::new(
        12,
        |i: int|
            if i < numep {
                spec_bc6_unquantize(eps[i], epb, sign)
            } else {
                0u64
            },
    )
}

/// The number of weight-index bits of pixel `i`: one less than the mode's
/// width for the first pixel and for the anchor pixel of the second subset.
pub open spec fn spec_bc6_ib2(ib: usize, ns: u8, anchor: int, i: int) -> usize {
    if i == 0 {
        (ib - 1) as usize
    } else if ns == 2 && i == anchor {
        (ib - 1) as usize
    } else {
        ib
    }
}

/// The bit offset of pixel `i`'s weight index within the block.
pub open spec fn spec_bc6_index_offset(
    base: usize,
    ib: usize,
    ns: u8,
    anchor: int,
    i: int,
) -> int
    decreases i,
{
    if i <= 0 {
        base as int
    } else {
        spec_bc6_index_offset(base, ib, ns, anchor, i - 1) + spec_bc6_ib2(ib, ns, anchor, i - 1)
    }
}

/// The three float bit patterns (R, G, B) of pixel `i` of a valid BC6H
/// block.
pub open spec fn spec_bc6_pixel(
    blk: Seq<u8>,
    sign: bool,
    mode: usize,
    bit0: usize,
    epbits: usize,
    ib: usize,
    i: int,
) -> (u32, u32, u32) {
    let info = spec_bc6_mode_info(mode as int);
    let numep: int = if info.ns == 2 {
        12
    } else {
        6
    };
    let partition = spec_get_bits(blk, (bit0 + epbits) as usize, info.pb as usize) as int;
    let eps = spec_bc6_final_endpoints(blk, mode, bit0, epbits, sign);
    let ueps = spec_bc6_ueps(eps, info.epb as u16, sign, numep);
    let anchor = BC7_AI0[partition] as int;
    let base = (bit0 + epbits + info.pb) as usize;
    let off = spec_bc6_index_offset(base, ib, info.ns, anchor, i) as usize;
    let ib2 = spec_bc6_ib2(ib, info.ns, anchor, i);
    let i0 = spec_get_bits(blk, off, ib2) as int;
    let w = spec_bc7_weight(ib as u8, i0);
    let sidx = (spec_bc7_subset(info.ns, partition, i as usize) * 6) as int;
    (
        spec_bc6_finalize(spec_bc6_lerp(ueps[sidx], ueps[sidx + 3], w), sign),
        spec_bc6_finalize(spec_bc6_lerp(ueps[sidx + 1], ueps[sidx + 4], w), sign),
        spec_bc6_finalize(spec_bc6_lerp(ueps[sidx + 2], ueps[sidx + 5], w), sign),
    )
}

/// Byte `b` of the little-endian encoding of `v`.
pub open spec fn spec_u32_le_byte(v: u32, b: int) -> u8 {
    ((v >> ((8 * b) as u32)) & 0xff) as u8
}

/// The 192 bytes of a decoded BC6H block: 16 pixels of three little-endian
/// 32-bit float patterns (R, G, B) in raster order. A block whose mode bits
/// name a reserved mode decodes to all zeros.
pub open spec fn spec_bc6h_block(blk: Seq<u8>, sign: bool) -> Seq<u8> {
    let m0 = (blk[0] & 0x1f) as usize;
    let sel = if (m0 & 3) == 0 || (m0 & 3) == 1 {
        ((m0 & 3) as usize, 2usize, 75usize, 3usize)
    } else if (m0 & 3) == 2 {
        ((2 + (m0 >> 2)) as usize, 5usize, 72usize, 3usize)
    } else {
        ((10 + (m0 >> 2)) as usize, 5usize, 60usize, 4usize)
    };
    let mode = sel.0;
    let bit0 = sel.1;
    let epbits = sel.2;
    let ib = sel.3;
    if mode >= 14 {
        spec_zero_seq(192)
    } else {
        Seq::new(
            192,
            |k: int|
                {
                    let px = spec_bc6_pixel(blk, sign, mode, bit0, epbits, ib, k / 12);
                    let c = k % 12;
                    if c / 4 == 0 {
                        spec_u32_le_byte(px.0, c % 4)
                    } else if c / 4 == 1 {
                        spec_u32_le_byte(px.1, c % 4)
                    } else {
                        spec_u32_le_byte(px.2, c % 4)
                    }
                },
        )
    }
}

/// Sign-extends endpoint word `idx` in place from `prec` bits.
fn bc6_extend_at(eps: &mut Vec<u16>, idx: usize, prec: u16)
    requires
        idx < old(eps)@.len(),
        1 <= prec <= 16,
    ensures
        final(eps)@ == old(eps)@.update(
            idx as int,
            spec_bc6_sign_extend(old(eps)@[idx as int], prec),
        ),
{
    let mut v: u16 = eps[idx];
    bc6_sign_extend(&mut v, prec);
    eps.set(idx, v);
}


/// Unpacks, sign-handles and delta-decodes the twelve endpoint words of a
/// BC6H block from the packed endpoint bits starting at `bit0`.
#[verifier::loop_isolation(false)]
#[verifier::rlimit(40)]
fn bc6_decode_endpoints(
    block: &[u8],
    info: Bc6ModeInfo,
    mode: usize,
    bit0: usize,
    epbits: usize,
    sign: bool,
) -> (endpoints: Vec<u16>)
    requires
        block@.len() == 16,
        mode < 14,
        info == spec_bc6_mode_info(mode as int),
        bit0 + epbits <= 128,
        epbits <= 75,
    ensures
        endpoints@ == spec_bc6_final_endpoints(block@, mode, bit0, epbits, sign),
        endpoints@.len() == 12,
{
    let ghost blk = block@;
    assert(info.ns == 1 || info.ns == 2);
    assert(1 <= info.epb <= 16 && 1 <= info.rb <= 16 && 1 <= info.gb <= 16 && 1 <= info.bb <= 16);
    let numep: usize = if info.ns == 2 {
        12
    } else {
        6
    };

    let mut endpoints: Vec<u16> = Vec::new();
    for z in 0..12usize
        invariant
            endpoints@.len() == z,
            forall|q: int| 0 <= q < z ==> endpoints@[q] == 0u16,
    {
        endpoints.push(0);
    }
    proof {
        assert(endpoints@ =~= spec_bc6_endpoints(blk, mode, bit0, 0));
    }
    for i in 0..epbits
        invariant
            endpoints@.len() == 12,
            endpoints@ == spec_bc6_endpoints(blk, mode, bit0, i as int),
    {
        let di: u8 = BC6_BIT_PACKINGS[mode][i];
        let dw: usize = (di >> 4) as usize;
        let db: u16 = (di & 15) as u16;
        let b: u8 = get_bit(block, bit0 + i);
        assert((di & 15) < 16 && (di >> 4) < 16) by (bit_vector);
        if dw < 12 {
            let cur: u16 = endpoints[dw];
            endpoints.set(dw, cur | ((b as u16) << db));
        }
    }

    let epb: u16 = info.epb as u16;
    let ghost e0 = spec_bc6_endpoints(blk, mode, bit0, epbits as int);
    assert(endpoints@ == e0);
    if sign {
        // sign-extend e0 if signed
        bc6_extend_at(&mut endpoints, 0, epb);
        bc6_extend_at(&mut endpoints, 1, epb);
        bc6_extend_at(&mut endpoints, 2, epb);
        assert(endpoints@ == spec_bc6_extend_e0(e0, epb));
    }
    let ghost e1 = endpoints@;
    if sign || info.tr > 0 {
        // sign-extend e1,2,3 if signed or deltas
        bc6_extend_at(&mut endpoints, 3, info.rb as u16);
        bc6_extend_at(&mut endpoints, 4, info.gb as u16);
        bc6_extend_at(&mut endpoints, 5, info.bb as u16);
        if numep == 12 {
            bc6_extend_at(&mut endpoints, 6, info.rb as u16);
            bc6_extend_at(&mut endpoints, 7, info.gb as u16);
            bc6_extend_at(&mut endpoints, 8, info.bb as u16);
            bc6_extend_at(&mut endpoints, 9, info.rb as u16);
            bc6_extend_at(&mut endpoints, 10, info.gb as u16);
            bc6_extend_at(&mut endpoints, 11, info.bb as u16);
        }
        assert(endpoints@ == spec_bc6_extend_deltas(
            e1,
            info.rb as u16,
            info.gb as u16,
            info.bb as u16,
            numep as int,
        ));
    }
    let epb32: u32 = info.epb as u32;
    proof {
        assert(1u32 << epb32 >= 1) by (bit_vector)
            requires
                epb32 <= 16,
        ;
    }
    let mask: u16 = #[verifier::truncate] (((1u32 << epb32) - 1) as u16);
    let ghost e2 = endpoints@;
    if info.tr > 0 {
        // apply deltas
        let anchor0: u16 = endpoints[0];
        let mut di: usize = 3;
        while di < numep
            invariant
                3 <= di <= numep,
                endpoints@.len() == 12,
                anchor0 == e2[0],
                forall|q: int| 0 <= q < 12 && (q < 3 || q >= di) ==> endpoints@[q] == e2[q],
                forall|q: int| 3 <= q < di ==> endpoints@[q] == spec_bc6_delta(e2, mask, q),
            decreases numep - di,
        {
            let v: u16 = (((endpoints[di] as u32) + (anchor0 as u32)) & (mask as u32)) as u16;
            endpoints.set(di, v);
            di = di + 1;
        }
        proof {
            assert(endpoints@ =~= spec_bc6_add_deltas(e2, mask, numep as int));
        }
        if sign {
            let ghost e3 = endpoints@;
            bc6_extend_at(&mut endpoints, 3, info.rb as u16);
            bc6_extend_at(&mut endpoints, 4, info.gb as u16);
            bc6_extend_at(&mut endpoints, 5, info.bb as u16);
            if numep == 12 {
                bc6_extend_at(&mut endpoints, 6, info.rb as u16);
                bc6_extend_at(&mut endpoints, 7, info.gb as u16);
                bc6_extend_at(&mut endpoints, 8, info.bb as u16);
                bc6_extend_at(&mut endpoints, 9, info.rb as u16);
                bc6_extend_at(&mut endpoints, 10, info.gb as u16);
                bc6_extend_at(&mut endpoints, 11, info.bb as u16);
            }
            assert(endpoints@ == spec_bc6_extend_deltas(
                e3,
                info.rb as u16,
                info.gb as u16,
                info.bb as u16,
                numep as int,
            ));
        }
    }
    assert(endpoints@ == spec_bc6_final_endpoints(blk, mode, bit0, epbits, sign));
    endpoints
}

/// Decodes the BC6H block at `source[soff .. soff + 16]` into 192 bytes:
/// 16 pixels of three little-endian 32-bit float patterns in raster order.
#[verifier::loop_isolation(false)]
#[verifier::rlimit(100)]
pub fn decode_bc6h_block(source: &[u8], soff: usize, sign: bool) -> (col: Vec<u8>)
    requires
        soff + 16 <= source@.len(),
    ensures
        col@ == spec_bc6h_block(source@.subrange(soff as int, soff as int + 16), sign),
{
    let slen: usize = source.len();
    assert(slen == source@.len());
    let block: &[u8] = slice_subrange(source, soff, soff + 16);
    let ghost blk = source@.subrange(soff as int, soff as int + 16);
    assert(block@ == blk);

    let b0: u8 = block[0];
    let m0: usize = (b0 & 0x1f) as usize;
    assert((b0 & 0x1f) < 32) by (bit_vector);
    assert(m0 & 3 < 4 && m0 >> 2 < 8) by (bit_vector)
        requires
            m0 < 32usize,
    ;
    let mut bit: usize = 5;
    let mut epbits: usize = 75;
    let mut ib: usize = 3;
    let mut mode: usize = m0;
    if (mode & 3) == 0 || (mode & 3) == 1 {
        mode = mode & 3;
        bit = 2;
    } else if (mode & 3) == 2 {
        mode = 2 + (mode >> 2);
        epbits = 72;
    } else {
        mode = 10 + (mode >> 2);
        epbits = 60;
        ib = 4;
    }

    if mode >= 14 {
        // reserved mode: the block decodes to all zeros
        return zero_vec(192);
    }
    let ghost target = spec_bc6h_block(blk, sign);
    let ghost bit0 = bit;

    let info: Bc6ModeInfo = Bc6ModeInfo::new(mode);
    assert(info.ns == 1 || info.ns == 2);
    assert(info.pb == 5 <==> info.ns == 2);
    assert(info.pb == 0 || info.pb == 5);
    let numep: usize = if info.ns == 2 {
        12
    } else {
        6
    };

    let endpoints: Vec<u16> = bc6_decode_endpoints(block, info, mode, bit, epbits, sign);
    bit = bit + epbits;

    let partition: u8 = get_bits(block, bit, info.pb as usize);
    proof {
        assert((partition as u16) < (1u16 << 5u16) ==> partition < 32) by (bit_vector);
        assert((partition as u16) < (1u16 << 0u16) ==> partition == 0) by (bit_vector);
    }
    bit = bit + info.pb as usize;

    let ghost ueps_spec = spec_bc6_ueps(endpoints@, info.epb as u16, sign, numep as int);
    let mut ueps: Vec<u64> = Vec::new();
    for i in 0..12usize
        invariant
            ueps@.len() == i,
            forall|q: int| 0 <= q < i ==> #[trigger] ueps@[q] == ueps_spec[q],
            forall|q: int| 0 <= q < i ==> #[trigger] ueps@[q] < 0x80000000,
    {
        let v: u64 = if i < numep {
            bc6_unquantize(endpoints[i], info.epb as u16, sign)
        } else {
            0
        };
        ueps.push(v);
    }

    let ai: u8 = BC7_AI0[(partition as usize)];
    assert(2 <= BC7_AI0[partition as int] <= 15);
    let ghost base = bit;
    let ghost anchor = ai as int;
    assert(bit as int == 128 - 16 * ib + 1 + (if info.ns == 2 {
        1int
    } else {
        0int
    }));

    let mut col: Vec<u8> = Vec::new();
    for i in 0..16usize
        invariant
            col@.len() == 12 * i,
            forall|k: int| 0 <= k < 12 * i ==> col@[k] == target[k],
            bit as int == spec_bc6_index_offset(base, ib, info.ns, anchor, i as int),
            bit as int == 128 - (16 - i) * ib + (if i == 0 {
                1int
            } else {
                0int
            }) + (if info.ns == 2 && i <= anchor {
                1int
            } else {
                0int
            }),
    {
        let sub: usize = bc7_get_subset(info.ns, partition as usize, i);
        let sidx: usize = sub * 6;
        let mut ib2: usize = ib;
        if i == 0 {
            ib2 = ib2 - 1;
        } else if info.ns == 2 && i == (ai as usize) {
            ib2 = ib2 - 1;
        }
        assert(ib2 == spec_bc6_ib2(ib, info.ns, anchor, i as int));
        let i0: u8 = get_bits(block, bit, ib2);
        proof {
            assert((i0 as u16) < (1u16 << (ib2 as u16)) && ib2 <= 4 ==> i0 < 16) by (bit_vector);
            assert((i0 as u16) < (1u16 << (ib2 as u16)) && ib2 <= 3 ==> i0 < 8) by (bit_vector);
        }
        bit = bit + ib2;
        let w: u8 = bc7_get_weight(ib as u8, i0 as usize);
        assert(ueps@[sidx as int] < 0x80000000 && ueps@[sidx + 3] < 0x80000000 && ueps@[sidx + 1]
            < 0x80000000 && ueps@[sidx + 4] < 0x80000000 && ueps@[sidx + 2] < 0x80000000
            && ueps@[sidx + 5] < 0x80000000);
        let rr: u64 = bc6_lerp(ueps[sidx], ueps[sidx + 3], w);
        let gg: u64 = bc6_lerp(ueps[sidx + 1], ueps[sidx + 4], w);
        let bb: u64 = bc6_lerp(ueps[sidx + 2], ueps[sidx + 5], w);
        let fr: u32 = bc6_finalize(rr, sign);
        let fg: u32 = bc6_finalize(gg, sign);
        let fb: u32 = bc6_finalize(bb, sign);
        proof {
            crate::bits::lemma_u32_shr0();
            assert((fr, fg, fb) == spec_bc6_pixel(blk, sign, mode, bit0, epbits, ib, i as int))
                by {
                assert(spec_bc6_index_offset(base, ib, info.ns, anchor, i as int) == bit - ib2);
            }
        }
        col.push((fr & 0xff) as u8);
        col.push(((fr >> 8) & 0xff) as u8);
        col.push(((fr >> 16) & 0xff) as u8);
        col.push(((fr >> 24) & 0xff) as u8);
        col.push((fg & 0xff) as u8);
        col.push(((fg >> 8) & 0xff) as u8);
        col.push(((fg >> 16) & 0xff) as u8);
        col.push(((fg >> 24) & 0xff) as u8);
        col.push((fb & 0xff) as u8);
        col.push(((fb >> 8) & 0xff) as u8);
        col.push(((fb >> 16) & 0xff) as u8);
        col.push(((fb >> 24) & 0xff) as u8);
        proof {
            assert forall|k: int| 12 * i <= k < 12 * (i + 1) implies col@[k] == target[k] by {
                lemma_fundamental_div_mod_converse(k, 12, i as int, k - 12 * i);
            }
        }
    }
    proof {
        assert(col@ =~= target);
    }
    col
}

} // verus!
