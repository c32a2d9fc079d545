//! 565 color unpack, the BC1 4-entry color palette, and the BC3 8-entry
//! interpolated alpha palette.
use vstd::prelude::*;
use crate::bits::{load_16, load_32, spec_load_16, spec_load_32};
use vstd::arithmetic::div_mod::lemma_fundamental_div_mod_converse;

verus! {

/// One decoded pixel of the RGBA8 encodings.
#[derive(Debug, Clone, Copy, PartialEq, Eq, Structural)]
pub struct RGBA {
    pub r: u8,
    pub g: u8,
    pub b: u8,
    pub a: u8,
}

/// Expansion of a 16-bit 5:6:5 color to 8-bit RGBA by bit replication; alpha
/// is fully opaque.
pub open spec fn spec_565(x: u16) -> RGBA {
    RGBA {
        r: (((x >> 8) & 0xf8) | ((x >> 13) & 0x7)) as u8,
        g: (((x >> 3) & 0xfc) | ((x >> 9) & 0x3)) as u8,
        b: (((x << 3) & 0xf8) | ((x >> 2) & 0x7)) as u8,
        a: 0xff,
    }
}

/// Channel `c` of pixel `p`, in the byte order R, G, B, A.
pub open spec fn spec_rgba_channel(p: RGBA, c: int) -> u8 {
    if c == 0 {
        p.r
    } else if c == 1 {
        p.g
    } else if c == 2 {
        p.b
    } else {
        p.a
    }
}

/// The BC1 4-entry color palette for endpoints `c0`, `c1`: the two unpacked
/// endpoints, then either two thirds-blends (when `c0 > c1`) or a half-blend
/// and transparent black. All divisions truncate.
pub open spec fn spec_bc1_palette(c0: u16, c1: u16) -> Seq<RGBA> {
    let p0 = spec_565(c0);
    let p1 = spec_565(c1);
    let r0 = p0.r as u16;
    let g0 = p0.g as u16;
    let b0 = p0.b as u16;
    let r1 = p1.r as u16;
    let g1 = p1.g as u16;
    let b1 = p1.b as u16;
    if c0 > c1 {
        seq![
            p0,
            p1,
            RGBA {
                r: ((2 * r0 + r1) / 3) as u8,
                g: ((2 * g0 + g1) / 3) as u8,
                b: ((2 * b0 + b1) / 3) as u8,
                a: 0xff,
            },
            RGBA {
                r: ((r0 + 2 * r1) / 3) as u8,
                g: ((g0 + 2 * g1) / 3) as u8,
                b: ((b0 + 2 * b1) / 3) as u8,
                a: 0xff,
            },
        ]
    } else {
        seq![
            p0,
            p1,
            RGBA {
                r: ((r0 + r1) / 2) as u8,
                g: ((g0 + g1) / 2) as u8,
                b: ((b0 + b1) / 2) as u8,
                a: 0xff,
            },
            RGBA { r: 0, g: 0, b: 0, a: 0 },
        ]
    }
}

/// Pixel `n` (raster order) of the BC1 color block at byte offset `off`:
/// palette entry selected by 2 bits of the 32-bit lookup table.
pub open spec fn spec_bc1_pixel(s: Seq<u8>, off: int, n: int) -> RGBA {
    let c0 = spec_load_16(s, off);
    let c1 = spec_load_16(s, off + 2);
    let lut = spec_load_32(s, off + 4);
    spec_bc1_palette(c0, c1)[((lut >> ((2 * n) as u32)) & 3) as int]
}

/// The 64 bytes of a decoded BC1 color block: 16 RGBA8 pixels in raster
/// order.
pub open spec fn spec_bc1_color_bytes(s: Seq<u8>, off: int) -> Seq<u8> {
    Seq::new(64, |k: int| spec_rgba_channel(spec_bc1_pixel(s, off, k / 4), k % 4))
}

/// The 24-bit little-endian value formed by bytes `i` .. `i + 3` of `s`.
pub open spec fn spec_lut24(s: Seq<u8>, i: int) -> u32 {
    (s[i] as u32) | ((s[i + 1] as u32) << 8) | ((s[i + 2] as u32) << 16)
}

/// The BC3 8-entry alpha palette for endpoints `a0`, `a1`: the endpoints,
/// then six sevenths-blends (when `a0 > a1`) or four fifths-blends followed
/// by the constants 0 and 255. All divisions truncate.
pub open spec fn spec_alpha_palette(a0: u8, a1: u8) -> Seq<u8> {
    let x0 = a0 as u16;
    let x1 = a1 as u16;
    if x0 > x1 {
        seq![
            a0,
            a1,
            ((6 * x0 + 1 * x1) / 7) as u8,
            ((5 * x0 + 2 * x1) / 7) as u8,
            ((4 * x0 + 3 * x1) / 7) as u8,
            ((3 * x0 + 4 * x1) / 7) as u8,
            ((2 * x0 + 5 * x1) / 7) as u8,
            ((1 * x0 + 6 * x1) / 7) as u8,
        ]
    } else {
        seq![
            a0,
            a1,
            ((4 * x0 + 1 * x1) / 5) as u8,
            ((3 * x0 + 2 * x1) / 5) as u8,
            ((2 * x0 + 3 * x1) / 5) as u8,
            ((1 * x0 + 4 * x1) / 5) as u8,
            0u8,
            0xffu8,
        ]
    }
}

/// The 3-bit palette index of pixel `n` of the BC3 alpha block at `off`:
/// the 48-bit lookup table is split into two 24-bit halves.
pub open spec fn spec_alpha_index(s: Seq<u8>, off: int, n: int) -> int {
    if n < 8 {
        ((spec_lut24(s, off + 2) >> ((3 * n) as u32)) & 7) as int
    } else {
        ((spec_lut24(s, off + 5) >> ((3 * (n - 8)) as u32)) & 7) as int
    }
}

/// The decoded alpha of pixel `n` of the BC3 alpha block at `off`.
pub open spec fn spec_alpha_value(s: Seq<u8>, off: int, n: int) -> u8 {
    spec_alpha_palette(s[off], s[off + 1])[spec_alpha_index(s, off, n)]
}

/// `old` with the 16 decoded alpha values of the BC3 alpha block at `off`
/// written at byte positions `stride * n + o` for pixels `n` in `0 .. 16`.
pub open spec fn spec_bc3_alpha_apply(
    old: Seq<u8>,
    s: Seq<u8>,
    off: int,
    stride: int,
    o: int,
) -> Seq<u8> {
    Seq::new(
        old.len() as nat,
        |k: int|
            if stride > 0 && k % stride == o && k / stride < 16 {
                spec_alpha_value(s, off, k / stride)
            } else {
                old[k]
            },
    )
}

/// With equal endpoints `v` the blended entries of the alpha palette are all
/// exactly `v`; the decoder's two-endpoint rule pins the last two entries to
/// the constants 0 and 255.
pub proof fn lemma_alpha_palette_equal_endpoints(v: u8)
    ensures
        forall|i: int| 0 <= i < 6 ==> spec_alpha_palette(v, v)[i] == v,
        spec_alpha_palette(v, v)[6] == 0,
        spec_alpha_palette(v, v)[7] == 0xff,
{
    let x = v as u16;
    assert((4 * x + 1 * x) / 5 == x);
    assert((3 * x + 2 * x) / 5 == x);
    assert((2 * x + 3 * x) / 5 == x);
    assert((1 * x + 4 * x) / 5 == x);
}

/// Unpacks a 16-bit 5:6:5 color to an opaque RGBA8 pixel by bit replication.
pub fn decode_565(x: u16) -> (r: RGBA)
    ensures
        r == spec_565(x),
{
    RGBA {
        r: (((x >> 8) & 0xf8) | ((x >> 13) & 0x7)) as u8,
        g: (((x >> 3) & 0xfc) | ((x >> 9) & 0x3)) as u8,
        b: (((x << 3) & 0xf8) | ((x >> 2) & 0x7)) as u8,
        a: 0xff,
    }
}

/// Decodes the BC1 color block at `source[soff .. soff + 8]` into 64 bytes:
/// 16 RGBA8 pixels in raster order.
pub fn decode_bc1_color(source: &[u8], soff: usize) -> (col: Vec<u8>)
    requires
        soff + 8 <= source@.len(),
    ensures
        col@ == spec_bc1_color_bytes(source@, soff as int),
{
    let slen: usize = source.len();
    assert(slen == source@.len());
    let c0: u16 = load_16(source, soff);
    let c1: u16 = load_16(source, soff + 2);
    let lut: u32 = load_32(source, soff + 4);

    let p0: RGBA = decode_565(c0);
    let p1: RGBA = decode_565(c1);
    let r0: u16 = p0.r as u16;
    let g0: u16 = p0.g as u16;
    let b0: u16 = p0.b as u16;
    let r1: u16 = p1.r as u16;
    let g1: u16 = p1.g as u16;
    let b1: u16 = p1.b as u16;

    let (p2, p3): (RGBA, RGBA) = if c0 > c1 {
        (
            RGBA {
                r: ((2 * r0 + r1) / 3) as u8,
                g: ((2 * g0 + g1) / 3) as u8,
                b: ((2 * b0 + b1) / 3) as u8,
                a: 0xff,
            },
            RGBA {
                r: ((r0 + 2 * r1) / 3) as u8,
                g: ((g0 + 2 * g1) / 3) as u8,
                b: ((b0 + 2 * b1) / 3) as u8,
                a: 0xff,
            },
        )
    } else {
        (
            RGBA {
                r: ((r0 + r1) / 2) as u8,
                g: ((g0 + g1) / 2) as u8,
                b: ((b0 + b1) / 2) as u8,
                a: 0xff,
            },
            RGBA { r: 0, g: 0, b: 0, a: 0 },
        )
    };
    let p: [RGBA; 4] = [p0, p1, p2, p3];
    assert(forall|i: int| 0 <= i < 4 ==> p[i] == spec_bc1_palette(c0, c1)[i]);

    let mut col: Vec<u8> = Vec::new();
    let ghost spec = spec_bc1_color_bytes(source@, soff as int);
    for n in 0..16usize
        invariant
            col@.len() == 4 * n,
            forall|k: int| 0 <= k < 4 * n ==> col@[k] == spec[k],
            spec == spec_bc1_color_bytes(source@, soff as int),
            soff + 8 <= source@.len(),
            c0 == spec_load_16(source@, soff as int),
            c1 == spec_load_16(source@, soff as int + 2),
            lut == spec_load_32(source@, soff as int + 4),
            forall|i: int| 0 <= i < 4 ==> p[i] == spec_bc1_palette(c0, c1)[i],
    {
        let sh: u32 = (2 * n) as u32;
        let cw: usize = ((lut >> sh) & 3) as usize;
        assert((lut >> sh) & 3 < 4) by (bit_vector);
        let pix: RGBA = p[cw];
        col.push(pix.r);
        col.push(pix.g);
        col.push(pix.b);
        col.push(pix.a);
        proof {
            assert forall|k: int| 4 * n <= k < 4 * (n + 1) implies col@[k] == spec[k] by {
                lemma_fundamental_div_mod_converse(k, 4, n as int, k - 4 * n);
                assert(spec_bc1_pixel(source@, soff as int, n as int) == pix);
            }
        }
    }
    proof {
        assert(col@ =~= spec);
    }
    col
}

/// Writes the 16 decoded alpha values of the BC3 alpha block at
/// `source[soff .. soff + 8]` into `dst` at byte positions
/// `stride * n + o`, one per pixel `n` in raster order.
pub fn decode_bc3_alpha(dst: &mut Vec<u8>, source: &[u8], soff: usize, stride: usize, o: usize)
    requires
        o < stride,
        old(dst)@.len() == 16 * stride,
        soff + 8 <= source@.len(),
    ensures
        final(dst)@ == spec_bc3_alpha_apply(
            old(dst)@,
            source@,
            soff as int,
            stride as int,
            o as int,
        ),
{
    let slen: usize = source.len();
    assert(slen == source@.len());
    let dlen: usize = dst.len();
    assert(16 * stride <= usize::MAX);
    let a0: u8 = source[soff];
    let a1: u8 = source[soff + 1];
    let x0: u16 = a0 as u16;
    let x1: u16 = a1 as u16;
    let a: [u8; 8] = if x0 > x1 {
        [
            a0,
            a1,
            ((6 * x0 + 1 * x1) / 7) as u8,
            ((5 * x0 + 2 * x1) / 7) as u8,
            ((4 * x0 + 3 * x1) / 7) as u8,
            ((3 * x0 + 4 * x1) / 7) as u8,
            ((2 * x0 + 5 * x1) / 7) as u8,
            ((1 * x0 + 6 * x1) / 7) as u8,
        ]
    } else {
        [
            a0,
            a1,
            ((4 * x0 + 1 * x1) / 5) as u8,
            ((3 * x0 + 2 * x1) / 5) as u8,
            ((2 * x0 + 3 * x1) / 5) as u8,
            ((1 * x0 + 4 * x1) / 5) as u8,
            0u8,
            0xffu8,
        ]
    };
    assert(forall|i: int| 0 <= i < 8 ==> a[i] == spec_alpha_palette(a0, a1)[i]);

    let lut0: u32 = (source[soff + 2] as u32) | ((source[soff + 3] as u32) << 8) | ((source[soff
        + 4] as u32) << 16);
    let lut1: u32 = (source[soff + 5] as u32) | ((source[soff + 6] as u32) << 8) | ((source[soff
        + 7] as u32) << 16);
    let ghost old_dst = dst@;
    let ghost spec = spec_bc3_alpha_apply(old_dst, source@, soff as int, stride as int, o as int);

    for n in 0..16usize
        invariant
            dst@.len() == 16 * stride,
            16 * stride <= usize::MAX,
            o < stride,
            soff + 8 <= source@.len(),
            lut0 == spec_lut24(source@, soff as int + 2),
            lut1 == spec_lut24(source@, soff as int + 5),
            forall|i: int| 0 <= i < 8 ==> a[i] == spec_alpha_palette(a0, a1)[i],
            a0 == source@[soff as int],
            a1 == source@[soff as int + 1],
            old_dst.len() == 16 * stride,
            spec == spec_bc3_alpha_apply(
                old_dst,
                source@,
                soff as int,
                stride as int,
                o as int,
            ),
            forall|k: int|
                0 <= k < 16 * stride ==> dst@[k] == (if k % (stride as int) == o && k / (
                stride as int) < n {
                    spec[k]
                } else {
                    old_dst[k]
                }),
    {
        let sh: u32 = if n < 8 {
            (3 * n) as u32
        } else {
            (3 * (n - 8)) as u32
        };
        let lut: u32 = if n < 8 {
            lut0
        } else {
            lut1
        };
        let aw: usize = ((lut >> sh) & 7) as usize;
        assert((lut >> sh) & 7 < 8) by (bit_vector);
        assert(stride * (n as int) + o < 16 * stride) by (nonlinear_arith)
            requires
                n < 16 && o < stride,
        ;
        let idx: usize = stride * n + o;
        dst.set(idx, a[aw]);
        proof {
            lemma_fundamental_div_mod_converse(idx as int, stride as int, n as int, o as int);
            assert forall|k: int| 0 <= k < 16 * stride implies dst@[k] == (if k % (stride as int)
                == o && k / (stride as int) < n + 1 {
                spec[k]
            } else {
                old_dst[k]
            }) by {
                if k % (stride as int) == o && k / (stride as int) == n as int {
                    vstd::arithmetic::div_mod::lemma_fundamental_div_mod(k, stride as int);
                    assert(k == idx);
                    assert(spec[k] == spec_alpha_value(source@, soff as int, n as int));
                }
            }
        }
    }
    proof {
        assert forall|k: int| 0 <= k < 16 * stride implies dst@[k] == spec[k] by {
            if k % (stride as int) == o && k / (stride as int) < 16 {
                assert(dst@[k] == spec[k]);
            } else {
                assert(spec[k] == old_dst[k]);
            }
        }
        assert(dst@ =~= spec);
    }
}

} // verus!
