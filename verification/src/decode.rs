//! Block assembler and top-level decode driver: places decoded 4x4 blocks
//! into the destination image, clipping partial blocks, flipping rows when
//! the image dimensions are not multiples of 4, and permuting channels
//! according to the swizzle byte.
use vstd::prelude::*;
use vstd::arithmetic::div_mod::{lemma_fundamental_div_mod, lemma_fundamental_div_mod_converse};
use crate::bc6h::{decode_bc6h_block, spec_bc6h_block};
use crate::blocks::{
    decode_bc1_block,
    decode_bc2_block,
    decode_bc3_block,
    decode_bc4_block,
    decode_bc5_block,
    spec_bc1_block,
    spec_bc2_block,
    spec_bc3_block,
    spec_bc4_block,
    spec_bc5_block,
    zero_vec,
};
use crate::{
    BcnDecoderFormat,
    BcnEncoding,
    Error,
    spec_block_bytes,
    spec_dst_size,
    spec_element_bytes,
    spec_flip,
    spec_swizzle_of,
};

verus! {

/// Decoder state while a decode is in progress.
pub struct BcnDecoderState {
    /// Destination buffer, a bitmap.
    pub buffer: Vec<u8>,
    /// Destination region width in pixels.
    pub width: usize,
    /// Destination region height in pixels.
    pub height: usize,
    /// Current block cursor in pixels, a multiple of 4.
    pub x: usize,
    /// Current block cursor in pixels, a multiple of 4.
    pub y: usize,
    /// If negative, the image is flipped on the y-axis.
    pub y_step: i8,
    /// For BC6H, endpoints are signed numbers if true.
    pub sign: bool,
    /// Channel permutation: four 2-bit fields giving the destination channel
    /// of the source R, G, B, A channels.
    pub swizzle: u8,
}

/// Destination byte `c` of one written pixel element after a swizzled pixel
/// write, where `col[coff .. coff + elt]` holds the source pixel and `old`
/// is the destination byte before the write. Swizzle 0 and 0xe4 copy the
/// element verbatim; any other swizzle moves each of the four sub-components
/// (of `elt / 4` bytes) to the channel its 2-bit field selects, later source
/// channels winning on collision, and leaves unselected channels unchanged.
pub open spec fn spec_swz_byte(swz: u8, col: Seq<u8>, coff: int, c: int, elt: int, old: u8) -> u8 {
    if swz == 0 || swz == 0xe4 {
        col[coff + c]
    } else {
        let cs = elt / 4;
        let f0 = (swz & 3) as int;
        let f1 = ((swz >> 2) & 3) as int;
        let f2 = ((swz >> 4) & 3) as int;
        let f3 = ((swz >> 6) & 3) as int;
        if cs * f3 <= c < cs * f3 + cs {
            col[coff + 3 * cs + (c - cs * f3)]
        } else if cs * f2 <= c < cs * f2 + cs {
            col[coff + 2 * cs + (c - cs * f2)]
        } else if cs * f1 <= c < cs * f1 + cs {
            col[coff + cs + (c - cs * f1)]
        } else if cs * f0 <= c < cs * f0 + cs {
            col[coff + (c - cs * f0)]
        } else {
            old
        }
    }
}

/// Byte `k` of the destination after the first `m` pixels (in 4x4 raster
/// order) of the decoded block `col` are placed for the block cursor
/// `(x, y)`. The destination pixel of byte `k` determines the unique block
/// pixel `(j, i)` that writes it, if any: row `j` is recovered from the
/// pre-flip source row of the destination row, column `i` from the
/// destination column.
pub open spec fn spec_put_partial(
    buf: Seq<u8>,
    w: int,
    h: int,
    x: int,
    y: int,
    neg: bool,
    swz: u8,
    col: Seq<u8>,
    elt: int,
    m: int,
    k: int,
) -> u8 {
    let p = k / elt;
    let c = k % elt;
    let px = p % w;
    let py = p / w;
    let sy = if neg {
        h - 1 - py
    } else {
        py
    };
    let j = sy - y;
    let i = px - x;
    if 0 <= j < 4 && 0 <= i < 4 && 4 * j + i < m {
        spec_swz_byte(swz, col, (4 * j + i) * elt, c, elt, buf[k])
    } else {
        buf[k]
    }
}

/// Byte `k` of the destination after a whole decoded block is placed at the
/// block cursor `(x, y)`.
pub open spec fn spec_put_block_byte(
    buf: Seq<u8>,
    w: int,
    h: int,
    x: int,
    y: int,
    neg: bool,
    swz: u8,
    col: Seq<u8>,
    elt: int,
    k: int,
) -> u8 {
    spec_put_partial(buf, w, h, x, y, neg, swz, col, elt, 16, k)
}

/// Copies `n` bytes of `src` starting at `soff` into `dst` starting at
/// `doff`.
fn copy_into(dst: &mut Vec<u8>, doff: usize, src: &Vec<u8>, soff: usize, n: usize)
    requires
        doff + n <= old(dst)@.len(),
        soff + n <= src@.len(),
    ensures
        final(dst)@.len() == old(dst)@.len(),
        forall|k: int|
            0 <= k < old(dst)@.len() ==> final(dst)@[k] == (if doff <= k < doff + n {
                src@[soff + (k - doff)]
            } else {
                old(dst)@[k]
            }),
{
    let ghost old_dst = dst@;
    let dlen: usize = dst.len();
    let slen: usize = src.len();
    assert(dlen == dst@.len() && slen == src@.len());
    for t in 0..n
        invariant
            dst@.len() == old_dst.len(),
            old_dst.len() <= usize::MAX,
            src@.len() <= usize::MAX,
            doff + n <= old_dst.len(),
            soff + n <= src@.len(),
            forall|k: int|
                0 <= k < old_dst.len() ==> dst@[k] == (if doff <= k < doff + t {
                    src@[soff + (k - doff)]
                } else {
                    old_dst[k]
                }),
    {
        dst.set(doff + t, src[soff + t]);
    }
}

/// Places the source pixel `col[coff .. coff + elt]` at destination offset
/// `doff`, permuting sub-components according to the swizzle byte.
fn swizzle_copy(swizzle: u8, dst: &mut Vec<u8>, doff: usize, col: &Vec<u8>, coff: usize, elt: usize)
    requires
        doff + elt <= old(dst)@.len(),
        coff + elt <= col@.len(),
    ensures
        final(dst)@.len() == old(dst)@.len(),
        forall|k: int|
            0 <= k < old(dst)@.len() ==> final(dst)@[k] == (if doff <= k < doff + elt {
                spec_swz_byte(swizzle, col@, coff as int, k - doff, elt as int, old(dst)@[k])
            } else {
                old(dst)@[k]
            }),
{
    let dlen: usize = dst.len();
    let clen: usize = col.len();
    assert(dlen == dst@.len() && clen == col@.len());
    if swizzle == 0 || swizzle == 0xe4 {
        copy_into(dst, doff, col, coff, elt);
        return ;
    }
    // bring the copy size down to size-per-component
    let cs: usize = elt >> 2;
    proof {
        crate::bits::lemma_shr3_and7();
        assert(elt >> 2usize == elt / 4) by (bit_vector);
        lemma_fundamental_div_mod(elt as int, 4);
    }
    let f0: usize = (swizzle & 3) as usize;
    let f1: usize = ((swizzle >> 2) & 3) as usize;
    let f2: usize = ((swizzle >> 4) & 3) as usize;
    let f3: usize = ((swizzle >> 6) & 3) as usize;
    assert((swizzle & 3) < 4 && ((swizzle >> 2) & 3) < 4 && ((swizzle >> 4) & 3) < 4 && ((swizzle
        >> 6) & 3) < 4) by (bit_vector);
    assert(4 * cs <= elt);
    assert(cs * f0 + cs <= elt && cs * f1 + cs <= elt && cs * f2 + cs <= elt && cs * f3 + cs
        <= elt) by (nonlinear_arith)
        requires
            f0 < 4 && f1 < 4 && f2 < 4 && f3 < 4 && 4 * cs <= elt && cs >= 0,
    ;
    copy_into(dst, doff + cs * f0, col, coff, cs);
    copy_into(dst, doff + cs * f1, col, coff + cs, cs);
    copy_into(dst, doff + cs * f2, col, coff + 2 * cs, cs);
    copy_into(dst, doff + cs * f3, col, coff + 3 * cs, cs);
}

/// Places the 16 pixels of the decoded block `col` (each `elt` bytes, in 4x4
/// raster order) into the destination at the current block cursor, then
/// advances the cursor. In partial-block mode (`flip`) pixels whose pre-flip
/// coordinates fall outside the image are suppressed; with a negative
/// `y_step` rows are written bottom-up.
pub fn put_block(state: &mut BcnDecoderState, col: &Vec<u8>, elt: usize, flip: bool)
    requires
        elt >= 1,
        old(state).buffer@.len() >= elt * old(state).width * old(state).height,
        col@.len() == 16 * elt,
        old(state).width >= 1,
        old(state).height >= 1,
        old(state).x + 4 <= usize::MAX,
        old(state).y + 4 <= usize::MAX,
        flip == (old(state).y_step < 0),
        !flip ==> old(state).x + 4 <= old(state).width && old(state).y + 4 <= old(state).height,
    ensures
        final(state).buffer@.len() == old(state).buffer@.len(),
        forall|k: int|
            0 <= k < old(state).buffer@.len() ==> final(state).buffer@[k] == spec_put_block_byte(
                old(state).buffer@,
                old(state).width as int,
                old(state).height as int,
                old(state).x as int,
                old(state).y as int,
                old(state).y_step < 0,
                old(state).swizzle,
                col@,
                elt as int,
                k,
            ),
        final(state).x == (if old(state).x + 4 >= old(state).width {
            0usize
        } else {
            (old(state).x + 4) as usize
        }),
        final(state).y == (if old(state).x + 4 >= old(state).width {
            (old(state).y + 4) as usize
        } else {
            old(state).y
        }),
        final(state).width == old(state).width,
        final(state).height == old(state).height,
        final(state).y_step == old(state).y_step,
        final(state).sign == old(state).sign,
        final(state).swizzle == old(state).swizzle,
{
    let w: usize = state.width;
    let h: usize = state.height;
    let bx: usize = state.x;
    let by: usize = state.y;
    let neg: bool = state.y_step < 0;
    let swz: u8 = state.swizzle;
    let ghost buf0 = state.buffer@;
    let ghost len0 = state.buffer@.len() as int;
    let blen: usize = state.buffer.len();
    let clen: usize = col.len();
    assert(blen == len0 && clen == col@.len());

    for j in 0..4usize
        invariant
            len0 <= usize::MAX,
            16 * elt <= usize::MAX,
            state.width == w,
            state.height == h,
            state.x == bx,
            state.y == by,
            (state.y_step < 0) == neg,
            state.sign == old(state).sign,
            state.y_step == old(state).y_step,
            state.swizzle == swz,
            state.buffer@.len() == len0,
            len0 >= elt * w * h,
            buf0.len() == len0,
            col@.len() == 16 * elt,
            elt >= 1,
            w >= 1,
            h >= 1,
            bx + 4 <= usize::MAX,
            by + 4 <= usize::MAX,
            flip == neg,
            !flip ==> bx + 4 <= w && by + 4 <= h,
            forall|k: int|
                0 <= k < len0 ==> state.buffer@[k] == spec_put_partial(
                    buf0,
                    w as int,
                    h as int,
                    bx as int,
                    by as int,
                    neg,
                    swz,
                    col@,
                    elt as int,
                    4 * j,
                    k,
                ),
    {
        let yy: usize = by + j;
        let skip_row: bool = flip && yy >= h;
        if !skip_row {
            let dy: usize = if neg {
                h - yy - 1
            } else {
                yy
            };
            for i in 0..4usize
                invariant
                    len0 <= usize::MAX,
                    16 * elt <= usize::MAX,
                    state.width == w,
                    state.height == h,
                    state.x == bx,
                    state.y == by,
                    (state.y_step < 0) == neg,
                    state.sign == old(state).sign,
                    state.y_step == old(state).y_step,
                    state.swizzle == swz,
                    state.buffer@.len() == len0,
                    len0 >= elt * w * h,
                    buf0.len() == len0,
                    col@.len() == 16 * elt,
                    elt >= 1,
                    w >= 1,
                    h >= 1,
                    bx + 4 <= usize::MAX,
                    by + 4 <= usize::MAX,
                    flip == neg,
                    !flip ==> bx + 4 <= w && by + 4 <= h,
                    j < 4,
                    yy == by + j,
                    yy < h || flip,
                    !skip_row,
                    flip ==> yy < h,
                    dy == (if neg {
                        h - yy - 1
                    } else {
                        yy as int
                    }),
                    dy < h,
                    forall|k: int|
                        0 <= k < len0 ==> state.buffer@[k] == spec_put_partial(
                            buf0,
                            w as int,
                            h as int,
                            bx as int,
                            by as int,
                            neg,
                            swz,
                            col@,
                            elt as int,
                            4 * j + i,
                            k,
                        ),
            {
                let xx: usize = bx + i;
                if !(flip && xx >= w) {
                    assert(xx < w);
                    let ghost p = w as int * dy as int + xx as int;
                    assert(w * dy + xx < w * h && w * dy <= w * h && w * h <= elt * w * h && elt * (
                    w * dy + xx) + elt <= elt * w * h) by (nonlinear_arith)
                        requires
                            0 <= dy < h && 0 <= xx < w && elt >= 1,
                    ;
                    let doff: usize = elt * (w * dy + xx);
                    assert(elt * (4 * j + i) + elt <= 16 * elt) by (nonlinear_arith)
                        requires
                            j < 4 && i < 4 && elt >= 1,
                    ;
                    let coff: usize = elt * (4 * j + i);
                    let ghost pre = state.buffer@;
                    swizzle_copy(swz, &mut state.buffer, doff, col, coff, elt);
                    proof {
                        lemma_fundamental_div_mod_converse(p, w as int, dy as int, xx as int);
                        assert forall|k: int| 0 <= k < len0 implies state.buffer@[k]
                            == spec_put_partial(
                            buf0,
                            w as int,
                            h as int,
                            bx as int,
                            by as int,
                            neg,
                            swz,
                            col@,
                            elt as int,
                            4 * j + i + 1,
                            k,
                        ) by {
                            if doff <= k < doff + elt {
                                assert(doff == elt as int * p);
                                assert(k == p * (elt as int) + (k - doff)) by (nonlinear_arith)
                                    requires
                                        doff == elt as int * p,
                                ;
                                lemma_fundamental_div_mod_converse(k, elt as int, p, k - doff);
                                assert(k / (elt as int) == p && k % (elt as int) == k - doff);
                                assert(p % (w as int) == xx as int && p / (w as int) == dy as int);
                                assert((if neg {
                                    h - 1 - (dy as int)
                                } else {
                                    dy as int
                                }) == yy as int);
                                assert(yy - by == j && xx - bx == i);
                                assert(state.buffer@[k] == spec_swz_byte(
                                    swz,
                                    col@,
                                    coff as int,
                                    k - doff,
                                    elt as int,
                                    pre[k],
                                ));
                                assert(coff as int == (4 * j + i) * (elt as int))
                                    by (nonlinear_arith)
                                    requires
                                        coff == elt * (4 * j + i),
                                ;
                                assert(spec_put_partial(
                                    buf0,
                                    w as int,
                                    h as int,
                                    bx as int,
                                    by as int,
                                    neg,
                                    swz,
                                    col@,
                                    elt as int,
                                    4 * j + i,
                                    k,
                                ) == buf0[k]);
                            } else {
                                let p2 = k / (elt as int);
                                let px2 = p2 % (w as int);
                                let py2 = p2 / (w as int);
                                let sy2 = if neg {
                                    h - 1 - py2
                                } else {
                                    py2
                                };
                                let j2 = sy2 - by;
                                let i2 = px2 - bx;
                                if 0 <= j2 < 4 && 0 <= i2 < 4 && 4 * j2 + i2 == 4 * j + i {
                                    assert(j2 == j && i2 == i);
                                    assert(py2 == dy as int && px2 == xx as int);
                                    lemma_fundamental_div_mod(k, elt as int);
                                    vstd::arithmetic::div_mod::lemma_mod_bound(k, elt as int);
                                    lemma_fundamental_div_mod(p2, w as int);
                                    assert(p2 == (w as int) * py2 + px2);
                                    assert(p == (w as int) * (dy as int) + xx);
                                    assert(p2 == p);
                                    assert(k == (elt as int) * p2 + k % (elt as int));
                                    assert(doff == elt as int * p);
                                    assert(doff <= k < doff + elt);
                                    assert(false);
                                }
                            }
                        }
                    }
                } else {
                    proof {
                        assert forall|k: int| 0 <= k < len0 implies state.buffer@[k]
                            == spec_put_partial(
                            buf0,
                            w as int,
                            h as int,
                            bx as int,
                            by as int,
                            neg,
                            swz,
                            col@,
                            elt as int,
                            4 * j + i + 1,
                            k,
                        ) by {
                            let p2 = k / (elt as int);
                            let px2 = p2 % (w as int);
                            let py2 = p2 / (w as int);
                            let sy2 = if neg {
                                h - 1 - py2
                            } else {
                                py2
                            };
                            let j2 = sy2 - by;
                            let i2 = px2 - bx;
                            if 0 <= j2 < 4 && 0 <= i2 < 4 && 4 * j2 + i2 == 4 * j + i {
                                assert(i2 == i);
                                assert(px2 == bx + i >= w);
                                vstd::arithmetic::div_mod::lemma_mod_bound(p2, w as int);
                                assert(false);
                            }
                        }
                    }
                }
            }
        } else {
            proof {
                assert forall|k: int|
                    #![trigger spec_put_partial(
                        buf0,
                        w as int,
                        h as int,
                        bx as int,
                        by as int,
                        neg,
                        swz,
                        col@,
                        elt as int,
                        4 * (j + 1),
                        k,
                    )]
                    0 <= k < len0 implies spec_put_partial(
                    buf0,
                    w as int,
                    h as int,
                    bx as int,
                    by as int,
                    neg,
                    swz,
                    col@,
                    elt as int,
                    4 * (j + 1),
                    k,
                ) == spec_put_partial(
                    buf0,
                    w as int,
                    h as int,
                    bx as int,
                    by as int,
                    neg,
                    swz,
                    col@,
                    elt as int,
                    4 * j,
                    k,
                ) by {
                    let p2 = k / (elt as int);
                    let px2 = p2 % (w as int);
                    let py2 = p2 / (w as int);
                    let sy2 = if neg {
                        h - 1 - py2
                    } else {
                        py2
                    };
                    let j2 = sy2 - by;
                    if 0 <= j2 < 4 && 4 * j <= 4 * j2 < 4 * (j + 1) {
                        assert(j2 == j);
                        assert(sy2 == yy as int);
                        assert(p2 >= 0) by (nonlinear_arith)
                            requires
                                k >= 0 && elt >= 1 && p2 == k / (elt as int),
                        ;
                        assert(py2 >= 0) by (nonlinear_arith)
                            requires
                                p2 >= 0 && w >= 1 && py2 == p2 / (w as int),
                        ;
                        assert(neg);
                        assert(sy2 <= h - 1);
                        assert(false);
                    }
                }
            }
        }
    }
    state.x = state.x + 4;
    if state.x >= state.width {
        state.y = state.y + 4;
        state.x = 0;
    }
}


/// The decoded 16-pixel element bytes of the compressed block at byte
/// offset `off` of the source, for the given encoding.
pub open spec fn spec_block_col(enc: BcnEncoding, src: Seq<u8>, off: int, sign: bool) -> Seq<u8> {
    match enc {
        BcnEncoding::Bc1 => spec_bc1_block(src, off),
        BcnEncoding::Bc2 => spec_bc2_block(src, off),
        BcnEncoding::Bc3 => spec_bc3_block(src, off),
        BcnEncoding::Bc4 => spec_bc4_block(src, off),
        BcnEncoding::Bc5 => spec_bc5_block(src, off),
        BcnEncoding::Bc6H => spec_bc6h_block(src.subrange(off, off + 16), sign),
    }
}

/// The number of 4x4 block columns of a `w`-pixel-wide image.
pub open spec fn spec_nbx(w: int) -> int {
    (w + 3) / 4
}

/// The number of blocks the decode consumes: one per 4x4 tile of the image,
/// unless the source runs out of whole blocks first.
pub open spec fn spec_nblocks(srclen: int, w: int, h: int, enc: BcnEncoding) -> int {
    let img = ((h + 3) / 4) * spec_nbx(w);
    let avail = srclen / spec_block_bytes(enc);
    if avail < img {
        avail
    } else {
        img
    }
}

/// Byte `k` of the destination after the first `lim` blocks of the source
/// have been decoded and placed, where `old_byte` was the byte before
/// decoding began. The destination pixel of byte `k` determines the unique
/// block that writes it: its pre-flip source row `sy` selects the block row,
/// its column selects the block column. Bytes of pixels whose block was not
/// reached, and trailing bytes past the pixel grid, keep `old_byte`.
pub open spec fn spec_decoded_byte_upto(
    old_byte: u8,
    src: Seq<u8>,
    w: int,
    h: int,
    enc: BcnEncoding,
    swz: u8,
    neg: bool,
    sign: bool,
    lim: int,
    k: int,
) -> u8 {
    let elt = spec_element_bytes(enc);
    let bs = spec_block_bytes(enc);
    let p = k / elt;
    let c = k % elt;
    let px = p % w;
    let py = p / w;
    let sy = if neg {
        h - 1 - py
    } else {
        py
    };
    let sblk = (sy / 4) * spec_nbx(w) + px / 4;
    if 0 <= sy < h && sblk < lim {
        spec_swz_byte(
            swz,
            spec_block_col(enc, src, sblk * bs, sign),
            (4 * (sy % 4) + px % 4) * elt,
            c,
            elt,
            old_byte,
        )
    } else {
        old_byte
    }
}

/// Byte `k` of the destination after the whole decode.
pub open spec fn spec_decoded_byte(
    old_byte: u8,
    src: Seq<u8>,
    w: int,
    h: int,
    enc: BcnEncoding,
    swz: u8,
    neg: bool,
    sign: bool,
    k: int,
) -> u8 {
    spec_decoded_byte_upto(
        old_byte,
        src,
        w,
        h,
        enc,
        swz,
        neg,
        sign,
        spec_nblocks(src.len() as int, w, h, enc),
        k,
    )
}


/// Decodes every whole block of `source` into the destination buffer,
/// left-to-right and top-to-bottom, until the source runs out of blocks or
/// the image is full.
#[verifier::loop_isolation(false)]
#[verifier::rlimit(100)]
pub fn decode_bcn(state: &mut BcnDecoderState, source: &[u8], encoding: BcnEncoding, flip: bool)
    requires
        old(state).x == 0,
        old(state).y == 0,
        old(state).width >= 1,
        old(state).height >= 1,
        4 * old(state).width * old(state).height <= usize::MAX,
        old(state).buffer@.len() >= spec_element_bytes(encoding) * old(state).width * old(
            state,
        ).height,
        flip == (old(state).y_step < 0),
        !flip ==> old(state).width % 4 == 0 && old(state).height % 4 == 0,
    ensures
        final(state).buffer@.len() == old(state).buffer@.len(),
        forall|k: int|
            0 <= k < old(state).buffer@.len() ==> final(state).buffer@[k] == spec_decoded_byte(
                old(state).buffer@[k],
                source@,
                old(state).width as int,
                old(state).height as int,
                encoding,
                old(state).swizzle,
                old(state).y_step < 0,
                old(state).sign,
                k,
            ),
        final(state).width == old(state).width,
        final(state).height == old(state).height,
        final(state).y_step == old(state).y_step,
        final(state).sign == old(state).sign,
        final(state).swizzle == old(state).swizzle,
{
    let w: usize = state.width;
    let h: usize = state.height;
    let neg: bool = state.y_step < 0;
    let swz: u8 = state.swizzle;
    let sg: bool = state.sign;
    let bs: usize = match encoding {
        BcnEncoding::Bc1 => 8,
        BcnEncoding::Bc4 => 8,
        _ => 16,
    };
    let elt: usize = match encoding {
        BcnEncoding::Bc4 => 1,
        BcnEncoding::Bc6H => 12,
        _ => 4,
    };
    assert(bs == spec_block_bytes(encoding) && elt == spec_element_bytes(encoding));
    let srclen: usize = source.len();
    let y_max: usize = h;
    let mut bytes: usize = srclen;
    let mut source_ptr: usize = 0;
    let ghost buf0 = state.buffer@;
    let ghost len0 = state.buffer@.len() as int;
    let ghost mut s: int = 0;
    let ghost nbx = spec_nbx(w as int);
    let ghost img = ((h as int + 3) / 4) * nbx;
    proof {
        lemma_fundamental_div_mod(w as int + 3, 4);
        lemma_fundamental_div_mod(h as int + 3, 4);
        vstd::arithmetic::div_mod::lemma_mod_bound(w as int + 3, 4);
        vstd::arithmetic::div_mod::lemma_mod_bound(h as int + 3, 4);
        assert(w <= 4 * nbx <= w + 3);
        assert(img >= 1) by (nonlinear_arith)
            requires
                4 * ((h as int + 3) / 4) >= h >= 1 && nbx >= 1 && img == ((h as int + 3) / 4)
                    * nbx,
        ;
        assert(w as int * h as int <= 4 * (w as int) * (h as int) && w as int <= 4 * (w as int) * (
        h as int) && h as int <= 4 * (w as int) * (h as int)) by (nonlinear_arith)
            requires
                w >= 1 && h >= 1,
        ;
    }

    while bytes >= bs && state.y < y_max
        invariant
            state.width == w,
            state.height == h,
            (state.y_step < 0) == neg,
            state.y_step == old(state).y_step,
            state.sign == sg,
            state.sign == old(state).sign,
            state.swizzle == swz,
            state.buffer@.len() == len0,
            0 <= s <= img,
            s * bs == source_ptr,
            source_ptr <= srclen,
            bytes == srclen - source_ptr,
            state.x as int == 4 * (s % nbx),
            state.y as int == 4 * (s / nbx),
            s < img || state.y >= y_max,
            forall|k: int|
                0 <= k < len0 ==> state.buffer@[k] == spec_decoded_byte_upto(
                    buf0[k],
                    source@,
                    w as int,
                    h as int,
                    encoding,
                    swz,
                    neg,
                    sg,
                    s,
                    k,
                ),
        decreases bytes,
    {
        proof {
            vstd::arithmetic::div_mod::lemma_mod_bound(s, nbx);
            lemma_fundamental_div_mod(s, nbx);
            assert(state.x < w && state.x + 4 <= w + 3);
            if !flip {
                assert(4 * nbx == w);
                assert(state.x + 4 <= w);
                assert(4 * ((h as int + 3) / 4) == h);
                assert(s / nbx < (h as int + 3) / 4);
                assert(state.y + 4 <= h);
            }
        }
        let col: Vec<u8> = match encoding {
            BcnEncoding::Bc1 => decode_bc1_block(source, source_ptr),
            BcnEncoding::Bc2 => decode_bc2_block(source, source_ptr),
            BcnEncoding::Bc3 => decode_bc3_block(source, source_ptr),
            BcnEncoding::Bc4 => decode_bc4_block(source, source_ptr),
            BcnEncoding::Bc5 => decode_bc5_block(source, source_ptr),
            BcnEncoding::Bc6H => decode_bc6h_block(source, source_ptr, state.sign),
        };
        assert(col@ == spec_block_col(encoding, source@, source_ptr as int, sg));
        assert(col@.len() == 16 * elt);
        let ghost bx = state.x as int;
        let ghost by = state.y as int;
        put_block(state, &col, elt, flip);
        proof {
            let q = s / nbx;
            let r = s % nbx;
            assert forall|k: int| 0 <= k < len0 implies state.buffer@[k]
                == spec_decoded_byte_upto(
                buf0[k],
                source@,
                w as int,
                h as int,
                encoding,
                swz,
                neg,
                sg,
                s + 1,
                k,
            ) by {
                let p = k / (elt as int);
                let c = k % (elt as int);
                let px = p % (w as int);
                let py = p / (w as int);
                let sy = if neg {
                    h - 1 - py
                } else {
                    py
                };
                let j = sy - by;
                let i = px - bx;
                assert(p >= 0 && c >= 0) by (nonlinear_arith)
                    requires
                        k >= 0 && elt >= 1 && p == k / (elt as int) && c == k % (elt as int),
                ;
                vstd::arithmetic::div_mod::lemma_mod_bound(p, w as int);
                assert(py >= 0) by (nonlinear_arith)
                    requires
                        p >= 0 && w >= 1 && py == p / (w as int),
                ;
                if 0 <= j < 4 && 0 <= i < 4 {
                    // this block writes byte k
                    lemma_fundamental_div_mod_converse(sy, 4, q, j);
                    lemma_fundamental_div_mod_converse(px, 4, r, i);
                    assert(sy / 4 == q && sy % 4 == j && px / 4 == r && px % 4 == i);
                    assert((sy / 4) * nbx + px / 4 == s);
                    assert(0 <= sy < h);
                    assert(spec_decoded_byte_upto(
                        buf0[k],
                        source@,
                        w as int,
                        h as int,
                        encoding,
                        swz,
                        neg,
                        sg,
                        s,
                        k,
                    ) == buf0[k]);
                } else {
                    // untouched by this block: the upto limits agree at k
                    let sblk = (sy / 4) * nbx + px / 4;
                    if 0 <= sy < h && sblk == s {
                        vstd::arithmetic::div_mod::lemma_mod_bound(px, 4);
                        vstd::arithmetic::div_mod::lemma_mod_bound(sy, 4);
                        lemma_fundamental_div_mod(px, 4);
                        lemma_fundamental_div_mod(sy, 4);
                        assert(0 <= px / 4 < nbx) by (nonlinear_arith)
                            requires
                                0 <= px < w as int && 4 * nbx >= w as int && px / 4 <= (px - px % 4)
                                    / 4 && 4 * (px / 4) == px - px % 4 && 0 <= px % 4 < 4,
                        ;
                        assert(sy / 4 >= 0) by (nonlinear_arith)
                            requires
                                sy >= 0 && sy / 4 == (sy - sy % 4) / 4 && 4 * (sy / 4) == sy - sy
                                    % 4 && 0 <= sy % 4 < 4,
                        ;
                        lemma_fundamental_div_mod_converse(sblk, nbx, sy / 4, px / 4);
                        assert(sy / 4 == q && px / 4 == r);
                        assert(0 <= sy - 4 * q < 4 && 0 <= px - 4 * r < 4);
                        assert(false);
                    }
                }
            }
            // advance the ghost block counter along with the cursor
            if bx + 4 >= w {
                assert(r == nbx - 1) by (nonlinear_arith)
                    requires
                        4 * r == bx && bx + 4 >= w && 0 <= r < nbx && 4 * nbx <= w as int + 3,
                ;
                assert((q + 1) * nbx == q * nbx + nbx) by (nonlinear_arith);
                lemma_fundamental_div_mod_converse(s + 1, nbx, q + 1, 0);
            } else {
                lemma_fundamental_div_mod_converse(s + 1, nbx, q, r + 1);
            }
            s = s + 1;
        }
        source_ptr = source_ptr + bs;
        bytes = bytes - bs;
        proof {
            if state.y < y_max {
                vstd::arithmetic::div_mod::lemma_mod_bound(s, nbx);
                lemma_fundamental_div_mod(s, nbx);
                assert(4 * (s / nbx) < h);
                assert(s / nbx <= (h as int + 3) / 4 - 1) by (nonlinear_arith)
                    requires
                        4 * (s / nbx) < h && 4 * ((h as int + 3) / 4) >= h as int,
                ;
                assert(s < img) by (nonlinear_arith)
                    requires
                        s == (s / nbx) * nbx + s % nbx && s / nbx <= (h as int + 3) / 4 - 1 && 0
                            <= s % nbx < nbx && img == ((h as int + 3) / 4) * nbx,
                ;
            }
        }
    }
    proof {
        let avail = (srclen as int) / (bs as int);
        if bytes < bs {
            lemma_fundamental_div_mod_converse(srclen as int, bs as int, s, bytes as int);
            assert(s == avail);
        } else {
            // the image filled up: the cursor walked past the last band
            assert(state.y >= y_max);
            let q = s / nbx;
            vstd::arithmetic::div_mod::lemma_mod_bound(s, nbx);
            lemma_fundamental_div_mod(s, nbx);
            assert(4 * q >= h);
            assert(q >= (h as int + 3) / 4) by (nonlinear_arith)
                requires
                    4 * q >= h as int && 4 * ((h as int + 3) / 4) <= h as int + 3,
            ;
            assert(s >= img) by (nonlinear_arith)
                requires
                    s == q * nbx + s % nbx && s % nbx >= 0 && q >= (h as int + 3) / 4 && nbx >= 1
                        && img == ((h as int + 3) / 4) * nbx,
            ;
            assert(s == img);
            lemma_fundamental_div_mod_converse(
                srclen as int,
                bs as int,
                s + (bytes as int) / (bs as int),
                (bytes as int) % (bs as int),
            );
            vstd::arithmetic::div_mod::lemma_mod_bound(bytes as int, bs as int);
            lemma_fundamental_div_mod(bytes as int, bs as int);
            assert((bytes as int) / (bs as int) >= 0) by (nonlinear_arith)
                requires
                    bytes >= bs >= 1 && 4 * 0 <= 0 && (bytes as int) / (bs as int) * (bs as int)
                        == bytes as int - (bytes as int) % (bs as int) && 0 <= (bytes as int) % (
                    bs as int) < bs as int,
            ;
            assert(avail >= s);
        }
        assert(s == spec_nblocks(srclen as int, w as int, h as int, encoding));
    }
}

/// Decodes BCN encoded image data into a fresh byte buffer laid out
/// row-major, top-to-bottom, in the requested channel order.
pub fn decode_rust(
    source: &[u8],
    width: usize,
    height: usize,
    encoding: BcnEncoding,
    format: BcnDecoderFormat,
) -> (r: Result<Vec<u8>, Error>)
    requires
        4 * width * height <= usize::MAX,
        encoding is Bc6H ==> 16 * width * height <= usize::MAX,
    ensures
        r is Err <==> (width == 0 || height == 0 || (format is LUM && !(encoding is Bc4))),
        (width == 0 || height == 0) ==> r == Err::<Vec<u8>, Error>(Error::InvalidImageSize),
        (width != 0 && height != 0 && format is LUM && !(encoding is Bc4)) ==> r == Err::<
            Vec<u8>,
            Error,
        >(Error::InvalidPixelFormat),
        r is Ok ==> r->Ok_0@.len() == spec_dst_size(width as int, height as int, encoding),
        r is Ok ==> forall|k: int|
            0 <= k < r->Ok_0@.len() ==> r->Ok_0@[k] == spec_decoded_byte(
                0,
                source@,
                width as int,
                height as int,
                encoding,
                spec_swizzle_of(format),
                spec_flip(width as int, height as int),
                false,
                k,
            ),
{
    // check input data validity
    if width == 0 || height == 0 {
        return Err(Error::InvalidImageSize);
    }

    // create target buffer
    assert(4 * width <= 4 * width * height && width * height <= 4 * width * height)
        by (nonlinear_arith)
        requires
            width >= 1 && height >= 1,
    ;
    let mut dst_size: usize = 4 * width * height;

    match encoding {
        BcnEncoding::Bc4 => {
            dst_size = dst_size / 4;
            proof {
                vstd::arithmetic::div_mod::lemma_div_multiples_vanish(
                    width as int * height as int,
                    4,
                );
            }
        },
        BcnEncoding::Bc6H => {
            assert((4 * (width as int) * (height as int)) * 4 == 16 * (width as int) * (
            height as int)) by (nonlinear_arith);
            dst_size = dst_size * 4;
        },
        _ => {},
    }

    let mut state: BcnDecoderState = BcnDecoderState {
        buffer: Vec::new(),
        width,
        height,
        x: 0,
        y: 0,
        y_step: 1,
        sign: false,
        swizzle: 0,
    };

    match format {
        BcnDecoderFormat::RGBA => state.swizzle = 0b11100100,
        BcnDecoderFormat::BGRA => state.swizzle = 0b11000110,
        BcnDecoderFormat::ARGB => state.swizzle = 0b10010011,
        BcnDecoderFormat::ABGR => state.swizzle = 0b00011011,
        BcnDecoderFormat::LUM => match encoding {
            BcnEncoding::Bc4 => {
                state.swizzle = 0;
            },
            _ => {
                return Err(Error::InvalidPixelFormat);
            },
        },
    }
    state.buffer = zero_vec(dst_size);
    proof {
        assert(12 * (width as int * height as int) <= 16 * (width as int * height as int)
            && 16 * (width as int) * (height as int) == 16 * (width as int * height as int)
            && 12 * (width as int) * (height as int) == 12 * (width as int * height as int)
            && 4 * (width as int) * (height as int) == 4 * (width as int * height as int))
            by (nonlinear_arith)
            requires
                width >= 1 && height >= 1,
        ;
        assert(spec_element_bytes(encoding) * (width as int) * (height as int) <= dst_size);
    }

    assert((((width & 3) | (height & 3)) == 0) == (width % 4 == 0 && height % 4 == 0))
        by (bit_vector);

    if ((width & 3) | (height & 3)) != 0 {
        state.y_step = -1;
        decode_bcn(&mut state, source, encoding, true);
    } else {
        state.y_step = 1;
        decode_bcn(&mut state, source, encoding, false);
    }

    Ok(state.buffer)
}

} // verus!
