//! Per-variant block decoders for the byte-oriented encodings BC1 .. BC5:
//! each turns one compressed block into 16 pixels in 4x4 raster order,
//! serialized as bytes.
use vstd::prelude::*;
use crate::palette::{
    decode_bc1_color,
    decode_bc3_alpha,
    spec_bc1_color_bytes,
    spec_bc3_alpha_apply,
};
use vstd::arithmetic::div_mod::lemma_fundamental_div_mod_converse;

verus! {

/// A sequence of `n` zero bytes.
pub open spec fn spec_zero_seq(n: nat) -> Seq<u8> {
    Seq::new(n, |k: int| 0u8)
}

/// The replicated 8-bit alpha of pixel `n` of a BC2 block: the 4-bit value
/// stored low-nibble first, copied into both nibbles.
pub open spec fn spec_bc2_alpha_byte(s: Seq<u8>, off: int, n: int) -> u8 {
    let bit_i = 4 * n;
    let by = bit_i / 8;
    let av = 0xf & (s[off + by] >> ((bit_i % 8) as u8));
    (av << 4) | av
}

/// The 64 bytes of a decoded BC1 block: its color block, directly.
pub open spec fn spec_bc1_block(s: Seq<u8>, off: int) -> Seq<u8> {
    spec_bc1_color_bytes(s, off)
}

/// The 64 bytes of a decoded BC2 block: a BC1 color block at `off + 8` with
/// the explicit 4-bit alphas of bytes `off .. off + 8` replicated into the
/// alpha channel.
pub open spec fn spec_bc2_block(s: Seq<u8>, off: int) -> Seq<u8> {
    Seq::new(
        64,
        |k: int|
            if k % 4 == 3 {
                spec_bc2_alpha_byte(s, off, k / 4)
            } else {
                spec_bc1_color_bytes(s, off + 8)[k]
            },
    )
}

/// The 64 bytes of a decoded BC3 block: a BC1 color block at `off + 8` with
/// the interpolated alphas of the alpha block at `off` in the alpha channel.
pub open spec fn spec_bc3_block(s: Seq<u8>, off: int) -> Seq<u8> {
    spec_bc3_alpha_apply(spec_bc1_color_bytes(s, off + 8), s, off, 4, 3)
}

/// The 16 bytes of a decoded BC4 block: one alpha block written as single
/// LUM8 bytes.
pub open spec fn spec_bc4_block(s: Seq<u8>, off: int) -> Seq<u8> {
    spec_bc3_alpha_apply(spec_zero_seq(16), s, off, 1, 0)
}

/// The 64 bytes of a decoded BC5 block: two alpha blocks written into the R
/// and G channels; B and A stay zero.
pub open spec fn spec_bc5_block(s: Seq<u8>, off: int) -> Seq<u8> {
    spec_bc3_alpha_apply(
        spec_bc3_alpha_apply(spec_zero_seq(64), s, off, 4, 0),
        s,
        off + 8,
        4,
        1,
    )
}

/// A vector of `n` zero bytes.
pub fn zero_vec(n: usize) -> (r: Vec<u8>)
    ensures
        r@ == spec_zero_seq(n as nat),
{
    let mut r: Vec<u8> = Vec::new();
    for i in 0..n
        invariant
            r@.len() == i,
            forall|k: int| 0 <= k < i ==> r@[k] == 0u8,
    {
        r.push(0);
    }
    proof {
        assert(r@ =~= spec_zero_seq(n as nat));
    }
    r
}

/// Decodes the BC1 block at `source[soff .. soff + 8]`.
pub fn decode_bc1_block(source: &[u8], soff: usize) -> (col: Vec<u8>)
    requires
        soff + 8 <= source@.len(),
    ensures
        col@ == spec_bc1_block(source@, soff as int),
{
    decode_bc1_color(source, soff)
}

/// Decodes the BC2 block at `source[soff .. soff + 16]`.
pub fn decode_bc2_block(source: &[u8], soff: usize) -> (col: Vec<u8>)
    requires
        soff + 16 <= source@.len(),
    ensures
        col@ == spec_bc2_block(source@, soff as int),
{
    let slen: usize = source.len();
    assert(slen == source@.len());
    let mut col: Vec<u8> = decode_bc1_color(source, soff + 8);
    let ghost color = spec_bc1_color_bytes(source@, soff as int + 8);
    for n in 0..16usize
        invariant
            col@.len() == 64,
            soff + 16 <= source@.len(),
            source@.len() <= usize::MAX,
            forall|k: int|
                0 <= k < 64 ==> col@[k] == (if k % 4 == 3 && k / 4 < n {
                    spec_bc2_alpha_byte(source@, soff as int, k / 4)
                } else {
                    color[k]
                }),
            color == spec_bc1_color_bytes(source@, soff as int + 8),
    {
        proof {
            crate::bits::lemma_shr3_and7();
        }
        let bit_i: usize = n * 4;
        let by: usize = bit_i >> 3;
        let mut av: u8 = 0xf & (source[soff + by] >> ((bit_i & 7) as u8));
        av = (av << 4) | av;
        col.set(4 * n + 3, av);
        proof {
            lemma_fundamental_div_mod_converse(4 * n as int + 3, 4, n as int, 3);
            assert(av == spec_bc2_alpha_byte(source@, soff as int, n as int));
            assert forall|k: int| 0 <= k < 64 implies col@[k] == (if k % 4 == 3 && k / 4 < n + 1 {
                spec_bc2_alpha_byte(source@, soff as int, k / 4)
            } else {
                color[k]
            }) by {
                if k % 4 == 3 && k / 4 == n as int {
                    vstd::arithmetic::div_mod::lemma_fundamental_div_mod(k, 4);
                }
            }
        }
    }
    proof {
        assert(col@ =~= spec_bc2_block(source@, soff as int));
    }
    col
}

/// Decodes the BC3 block at `source[soff .. soff + 16]`.
pub fn decode_bc3_block(source: &[u8], soff: usize) -> (col: Vec<u8>)
    requires
        soff + 16 <= source@.len(),
    ensures
        col@ == spec_bc3_block(source@, soff as int),
{
    let slen: usize = source.len();
    assert(slen == source@.len());
    let mut col: Vec<u8> = decode_bc1_color(source, soff + 8);
    decode_bc3_alpha(&mut col, source, soff, 4, 3);
    col
}

/// Decodes the BC4 block at `source[soff .. soff + 8]`.
pub fn decode_bc4_block(source: &[u8], soff: usize) -> (col: Vec<u8>)
    requires
        soff + 8 <= source@.len(),
    ensures
        col@ == spec_bc4_block(source@, soff as int),
{
    let mut col: Vec<u8> = zero_vec(16);
    decode_bc3_alpha(&mut col, source, soff, 1, 0);
    col
}

/// Decodes the BC5 block at `source[soff .. soff + 16]`.
pub fn decode_bc5_block(source: &[u8], soff: usize) -> (col: Vec<u8>)
    requires
        soff + 16 <= source@.len(),
    ensures
        col@ == spec_bc5_block(source@, soff as int),
{
    let slen: usize = source.len();
    assert(slen == source@.len());
    let mut col: Vec<u8> = zero_vec(64);
    decode_bc3_alpha(&mut col, source, soff, 4, 0);
    decode_bc3_alpha(&mut col, source, soff + 8, 4, 1);
    col
}

} // verus!
