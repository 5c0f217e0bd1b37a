//! The adaptive screenshot encoder: pixel-format conversion, integer
//! nearest-neighbor downscaling, and the two-axis quality-and-scale search
//! that trades fidelity for size until an encoding fits the byte budget.

use vstd::prelude::*;

verus! {

/// What libwebp produces for an RGBA frame at a quality setting. The
/// encoding is a function of the pixels, dimensions and quality alone.
pub uninterp spec fn webp_encoding(pixels: Seq<u8>, width: int, height: int, quality: int) -> Seq<
    u8,
>;

/// Relies on `webp::Encoder::from_rgba` and `Encoder::encode`: libwebp
/// deterministically encodes the frame, and panics only on a pixel buffer
/// shorter than the dimensions demand or on dimensions outside
/// `1..=16383`, which the preconditions exclude.
#[verifier::external_body]
fn encode_frame(pixels: &Vec<u8>, width: u32, height: u32, quality: u8) -> (r: Vec<u8>)
    requires
        pixels@.len() == width * height * 4,
        1 <= width <= 16383,
        1 <= height <= 16383,
        1 <= quality <= 100,
    ensures
        r@ == webp_encoding(pixels@, width as int, height as int, quality as int),
{
    let encoder = webp::Encoder::from_rgba(pixels.as_slice(), width, height);
    let memory = encoder.encode(quality.into());
    memory.to_vec()
}

/// The source index a destination byte reads from under nearest-neighbor
/// downscaling: destination pixel `(x, y)` samples source pixel
/// `(x*sw/dw, y*sh/dh)`, channel for channel.
pub open spec fn nn_src_index(i: int, sw: int, sh: int, dw: int, dh: int) -> int {
    let p = i / 4;
    let c = i % 4;
    let y = p / dw;
    let x = p % dw;
    (((y * sh) / dh) * sw + ((x * sw) / dw)) * 4 + c
}

/// The nearest-neighbor downscale of an RGBA buffer.
pub open spec fn downscale_px(src: Seq<u8>, sw: int, sh: int, dw: int, dh: int) -> Seq<u8> {
    Seq::new((dw * dh * 4) as nat, |i: int| src[nn_src_index(i, sw, sh, dw, dh)])
}

/// Nearest-neighbor downscaling of an RGBA pixel buffer to the given
/// destination dimensions.
pub fn downscale_rgba_nearest(src: &Vec<u8>, src_w: u32, src_h: u32, dst_w: u32, dst_h: u32) -> (r:
    Vec<u8>)
    requires
        src@.len() == src_w * src_h * 4,
        1 <= dst_w <= src_w <= 16383,
        1 <= dst_h <= src_h <= 16383,
    ensures
        r@ == downscale_px(src@, src_w as int, src_h as int, dst_w as int, dst_h as int),
        r@.len() == dst_w * dst_h * 4,
{
    let ghost spec_dst = downscale_px(src@, src_w as int, src_h as int, dst_w as int, dst_h as int);
    let sw = src_w as usize;
    let sh = src_h as usize;
    let dw = dst_w as usize;
    let dh = dst_h as usize;
    let mut dst: Vec<u8> = Vec::new();
    let mut y: usize = 0;
    while y < dh
        invariant
            y <= dh,
            sw == src_w && sh == src_h && dw == dst_w && dh == dst_h,
            src@.len() == sw * sh * 4,
            1 <= dw <= sw <= 16383,
            1 <= dh <= sh <= 16383,
            spec_dst == downscale_px(src@, sw as int, sh as int, dw as int, dh as int),
            dst@.len() == y * dw * 4,
            forall|idx: int| 0 <= idx < dst@.len() ==> dst@[idx] == spec_dst[idx],
        decreases dh - y,
    {
        proof {
            assert(y * sh <= 268402689) by (nonlinear_arith)
                requires 0 <= y <= 16383 && 0 <= sh <= 16383;
        }
        let src_y = (y * sh) / dh;
        proof {
            assert(y * sh < dh * sh) by (nonlinear_arith)
                requires y < dh && sh >= 1;
            assert(((y * sh) as int) / (dh as int) < sh) by (nonlinear_arith)
                requires y * sh < dh * sh && dh >= 1;
        }
        let mut x: usize = 0;
        while x < dw
            invariant
                x <= dw,
                y < dh,
                sw == src_w && sh == src_h && dw == dst_w && dh == dst_h,
                src@.len() == sw * sh * 4,
                1 <= dw <= sw <= 16383,
                1 <= dh <= sh <= 16383,
                src_y as int == ((y * sh) as int) / (dh as int),
                src_y < sh,
                spec_dst == downscale_px(src@, sw as int, sh as int, dw as int, dh as int),
                dst@.len() == (y * dw + x) * 4,
                forall|idx: int| 0 <= idx < dst@.len() ==> dst@[idx] == spec_dst[idx],
            decreases dw - x,
        {
            proof {
                assert(x * sw <= 268402689) by (nonlinear_arith)
                    requires 0 <= x <= 16383 && 0 <= sw <= 16383;
            }
            let src_x = (x * sw) / dw;
            proof {
                assert(x * sw < dw * sw) by (nonlinear_arith)
                    requires x < dw && sw >= 1;
                assert(((x * sw) as int) / (dw as int) < sw) by (nonlinear_arith)
                    requires x * sw < dw * sw && dw >= 1;
            }
            proof {
                assert(src_y * sw + src_x <= 268402689 && (src_y * sw + src_x) * 4
                    <= 1073610756) by (nonlinear_arith)
                    requires 0 <= src_y < sh <= 16383 && 0 <= src_x < sw <= 16383;
            }
            let src_base = (src_y * sw + src_x) * 4;
            proof {
                assert(src_y * sw + src_x < sh * sw) by (nonlinear_arith)
                    requires src_y < sh && src_x < sw && sw >= 1;
                assert((src_y * sw + src_x) * 4 + 3 < sh * sw * 4) by (nonlinear_arith)
                    requires src_y * sw + src_x < sh * sw;
                assert(sw * sh * 4 == sh * sw * 4) by (nonlinear_arith);
            }
            let mut c: usize = 0;
            while c < 4
                invariant
                    c <= 4,
                    y < dh,
                    x < dw,
                    sw == src_w && sh == src_h && dw == dst_w && dh == dst_h,
                    src@.len() == sw * sh * 4,
                    1 <= dw <= sw <= 16383,
                    1 <= dh <= sh <= 16383,
                    src_y as int == ((y * sh) as int) / (dh as int),
                    src_x as int == ((x * sw) as int) / (dw as int),
                    src_y < sh,
                    src_x < sw,
                    src_base == (src_y * sw + src_x) * 4,
                    src_base + 3 < src@.len(),
                    spec_dst == downscale_px(src@, sw as int, sh as int, dw as int, dh as int),
                    dst@.len() == (y * dw + x) * 4 + c,
                    forall|idx: int| 0 <= idx < dst@.len() ==> dst@[idx] == spec_dst[idx],
                decreases 4 - c,
            {
                let ghost idx = dst@.len() as int;
                proof {
                    assert(idx == (y * dw + x) * 4 + c);
                    assert(idx / 4 == ((y * dw + x) as int) && idx % 4 == (c as int)) by (nonlinear_arith)
                        requires idx == (y * dw + x) * 4 + c && 0 <= c < 4 && y * dw + x >= 0;
                    assert(((y * dw + x) as int) / (dw as int) == (y as int) && ((y * dw + x) as int) % (dw as int) == (x as int)) by (nonlinear_arith)
                        requires 0 <= x < dw && y >= 0 && dw >= 1;
                    assert(nn_src_index(idx, sw as int, sh as int, dw as int, dh as int)
                        == src_base + c);
                    assert(y * dw + x < dh * dw) by (nonlinear_arith)
                        requires y < dh && x < dw && dw >= 1;
                    assert(idx < dw * dh * 4) by (nonlinear_arith)
                        requires idx == (y * dw + x) * 4 + c && c < 4 && y * dw + x < dh * dw;
                    assert(spec_dst[idx] == src@[src_base + c]);
                }
                let v = src[src_base + c];
                dst.push(v);
                c += 1;
            }
            x += 1;
            proof {
                assert((y * dw + (x - 1)) * 4 + 4 == (y * dw + x) * 4) by (nonlinear_arith);
            }
        }
        y += 1;
        proof {
            assert((y - 1) * dw * 4 + dw * 4 == y * dw * 4) by (nonlinear_arith);
            assert(((y - 1) * dw + dw) * 4 == (y - 1) * dw * 4 + dw * 4) by (nonlinear_arith);
        }
    }
    proof {
        assert(dst@.len() == dh * dw * 4) by (nonlinear_arith)
            requires dst@.len() == dh * dw * 4;
        assert(dw * dh * 4 == dh * dw * 4) by (nonlinear_arith);
        assert(dst@ =~= spec_dst);
    }
    dst
}

/// The RGBA view of a BGRA buffer: red and blue swapped within each
/// complete four-byte pixel, a trailing incomplete pixel left zero.
pub open spec fn bgra_swapped(src: Seq<u8>) -> Seq<u8> {
    Seq::new(
        src.len(),
        |i: int|
            {
                let g = 4 * (i / 4);
                if g + 3 < src.len() {
                    if i % 4 == 0 {
                        src[i + 2]
                    } else if i % 4 == 2 {
                        src[i - 2]
                    } else {
                        src[i]
                    }
                } else {
                    0u8
                }
            },
    )
}

/// Converts a BGRA pixel buffer to RGBA by swapping the red and blue
/// channel of every complete pixel.
pub fn bgra_to_rgba(src: &Vec<u8>) -> (r: Vec<u8>)
    ensures
        r@ == bgra_swapped(src@),
        r@.len() == src@.len(),
{
    let n = src.len();
    let mut dst: Vec<u8> = Vec::new();
    let mut i: usize = 0;
    while n - i >= 4
        invariant
            n == src@.len(),
            i % 4 == 0,
            i <= n,
            dst@.len() == i,
            forall|idx: int| 0 <= idx < i ==> dst@[idx] == bgra_swapped(src@)[idx],
        decreases n - i,
    {
        proof {
            assert(4 * ((i as int) / 4) == i as int && (i as int) % 4 == 0) by (nonlinear_arith)
                requires i % 4 == 0 && i >= 0;
            assert(4 * (((i + 1) as int) / 4) == i as int && ((i + 1) as int) % 4 == 1)
                by (nonlinear_arith)
                requires i % 4 == 0 && i >= 0;
            assert(4 * (((i + 2) as int) / 4) == i as int && ((i + 2) as int) % 4 == 2)
                by (nonlinear_arith)
                requires i % 4 == 0 && i >= 0;
            assert(4 * (((i + 3) as int) / 4) == i as int && ((i + 3) as int) % 4 == 3)
                by (nonlinear_arith)
                requires i % 4 == 0 && i >= 0;
        }
        dst.push(src[i + 2]);
        dst.push(src[i + 1]);
        dst.push(src[i]);
        dst.push(src[i + 3]);
        i += 4;
    }
    let ghost i0 = i as int;
    while i < n
        invariant
            n == src@.len(),
            i0 % 4 == 0,
            i0 + 3 >= n,
            i0 <= i <= n,
            dst@.len() == i,
            forall|idx: int| 0 <= idx < i ==> dst@[idx] == bgra_swapped(src@)[idx],
        decreases n - i,
    {
        proof {
            assert(4 * ((i as int) / 4) == i0) by (nonlinear_arith)
                requires i0 <= i && i < i0 + 4 && i0 % 4 == 0 && i0 >= 0;
            assert(4 * ((i as int) / 4) + 3 >= n);
        }
        dst.push(0u8);
        i += 1;
    }
    proof {
        assert(dst@ =~= bgra_swapped(src@));
    }
    dst
}

/// Caps the width of an RGBA frame: a frame wider than `max_width` is
/// downscaled to that width, preserving aspect ratio; otherwise it is
/// returned unchanged. A zero `max_width` disables the cap.
pub fn limit_width_rgba(rgba: Vec<u8>, width: u32, height: u32, max_width: u32) -> (r: (
    Vec<u8>,
    u32,
    u32,
))
    requires
        rgba@.len() == width * height * 4,
        1 <= width <= 16383,
        1 <= height <= 16383,
        max_width <= 16383,
    ensures
        width <= max_width || max_width == 0 ==> r == (rgba, width, height),
        width > max_width && max_width > 0 ==> {
            let dh = if ((height * max_width) as int) / (width as int) >= 1 {
                ((height * max_width) as int) / (width as int)
            } else {
                1int
            };
            &&& r.0@ == downscale_px(rgba@, width as int, height as int, max_width as int, dh)
            &&& r.1 == max_width
            &&& r.2 == dh
        },
        r.0@.len() == r.1 * r.2 * 4,
        1 <= r.1 <= 16383 && 1 <= r.2 <= 16383,
{
    if width <= max_width || max_width == 0 {
        return (rgba, width, height);
    }
    proof {
        assert(height * max_width <= 268402689) by (nonlinear_arith)
            requires 0 <= height <= 16383 && 0 <= max_width <= 16383;
    }
    let scaled = (height * max_width) / width;
    let dst_h = if scaled >= 1 {
        scaled
    } else {
        1
    };
    proof {
        assert(((height * max_width) as int) / (width as int) <= height) by (nonlinear_arith)
            requires height >= 1 && 1 <= max_width < width && height * max_width >= 0;
    }
    let out = downscale_rgba_nearest(&rgba, width, height, max_width, dst_h);
    (out, max_width, dst_h)
}

/// The quality-ladder offsets tried at each resolution.
pub open spec fn ladder_delta(k: int) -> int {
    if k == 0 {
        0
    } else if k == 1 {
        8
    } else if k == 2 {
        14
    } else if k == 3 {
        20
    } else if k == 4 {
        26
    } else if k == 5 {
        32
    } else {
        38
    }
}

/// The quality tried at ladder step `k`, clamped to at least 1.
pub open spec fn ladder_quality(base: int, k: int) -> int {
    if base - ladder_delta(k) < 1 {
        1
    } else {
        base - ladder_delta(k)
    }
}

/// One downscale round shrinks a dimension to 85%, rounded to nearest,
/// and never below 1.
pub open spec fn scaled_dim(d: int) -> int {
    if (d * 85 + 50) / 100 >= 1 {
        (d * 85 + 50) / 100
    } else {
        1
    }
}

/// The frame the search holds after `j` downscale rounds:
/// `(pixels, width, height)`.
pub open spec fn search_stage(px: Seq<u8>, w: int, h: int, j: int) -> (Seq<u8>, int, int)
    decreases j,
{
    if j <= 0 {
        (px, w, h)
    } else {
        let p = search_stage(px, w, h, j - 1);
        (downscale_px(p.0, p.1, p.2, scaled_dim(p.1), scaled_dim(p.2)), scaled_dim(p.1),
        scaled_dim(p.2))
    }
}

/// The frame at stage `j` is still above the floor resolution, so a
/// further downscale round is taken after it.
pub open spec fn above_floor(w: int, h: int) -> bool {
    w > 960 && h > 540
}

/// Stage `j` is reached by the search: every earlier stage was above the
/// floor.
pub open spec fn stage_reached(px: Seq<u8>, w: int, h: int, j: int) -> bool {
    forall|l: int|
        0 <= l < j ==> above_floor(
            (#[trigger] search_stage(px, w, h, l)).1,
            search_stage(px, w, h, l).2,
        )
}

/// The search attempts an encoding at stage `j`, ladder step `k`.
pub open spec fn is_attempt(px: Seq<u8>, w: int, h: int, j: int, k: int) -> bool {
    0 <= j <= 5 && 0 <= k <= 6 && stage_reached(px, w, h, j)
}

/// The bytes produced by the attempt at stage `j`, ladder step `k`.
pub open spec fn attempt_encoding(px: Seq<u8>, w: int, h: int, base: int, j: int, k: int) -> Seq<
    u8,
> {
    let p = search_stage(px, w, h, j);
    webp_encoding(p.0, p.1, p.2, ladder_quality(base, k))
}

/// The quality tried at ladder step `k`, as executable code.
fn ladder_quality_exec(base: u8, k: usize) -> (r: u8)
    requires
        1 <= base <= 100,
        k <= 6,
    ensures
        r as int == ladder_quality(base as int, k as int),
        1 <= r <= 100,
{
    let delta: u8 = if k == 0 {
        0
    } else if k == 1 {
        8
    } else if k == 2 {
        14
    } else if k == 3 {
        20
    } else if k == 4 {
        26
    } else if k == 5 {
        32
    } else {
        38
    };
    if base <= delta {
        1
    } else {
        base - delta
    }
}

/// One downscale round of a dimension, as executable code.
fn scaled_dim_exec(d: u32) -> (r: u32)
    requires
        1 <= d <= 16383,
    ensures
        r as int == scaled_dim(d as int),
        1 <= r <= d,
{
    let v = (d * 85 + 50) / 100;
    if v < 1 {
        1
    } else {
        v
    }
}

/// Compresses one RGBA frame as close to the byte budget as the ladder
/// allows: qualities `base, base-8, ..., base-38` are tried at each
/// resolution, the frame shrinks by 15% per round down to a 960x540
/// floor, the first encoding within budget is returned at once, and when
/// none fits the smallest encoding seen is returned. The search never
/// fails merely because the budget is unreachable.
#[verifier::rlimit(100)]
pub fn encode_webp_with_size_target(
    rgba: Vec<u8>,
    width: u32,
    height: u32,
    target_bytes: usize,
    base_quality: u8,
) -> (r: Vec<u8>)
    requires
        rgba@.len() == width * height * 4,
        1 <= width <= 16383,
        1 <= height <= 16383,
        1 <= base_quality <= 100,
    ensures
        exists|j: int, k: int|
            is_attempt(rgba@, width as int, height as int, j, k) && r@ == #[trigger] attempt_encoding(
                rgba@,
                width as int,
                height as int,
                base_quality as int,
                j,
                k,
            ),
        r@.len() > target_bytes ==> forall|j: int, k: int|
            is_attempt(rgba@, width as int, height as int, j, k) ==> r@.len()
                <= #[trigger] attempt_encoding(
                rgba@,
                width as int,
                height as int,
                base_quality as int,
                j,
                k,
            ).len(),
{
    let ghost px0 = rgba@;
    let ghost w0 = width as int;
    let ghost h0 = height as int;
    let ghost bq = base_quality as int;
    let mut cur = rgba;
    let mut cw = width;
    let mut ch = height;
    let mut best: Option<Vec<u8>> = None;
    let mut round: usize = 0;
    while round < 6
        invariant
            round <= 6,
            1 <= base_quality <= 100,
            1 <= cw <= 16383,
            1 <= ch <= 16383,
            cur@.len() == cw * ch * 4,
            px0 == rgba@ && w0 == width as int && h0 == height as int && bq == base_quality as int,
            cur@ == search_stage(px0, w0, h0, round as int).0,
            cw as int == search_stage(px0, w0, h0, round as int).1,
            ch as int == search_stage(px0, w0, h0, round as int).2,
            stage_reached(px0, w0, h0, round as int),
            best matches Some(b) ==> {
                &&& b@.len() > target_bytes
                &&& (exists|j: int, k: int|
                    is_attempt(px0, w0, h0, j, k) && b@ == #[trigger] attempt_encoding(
                        px0,
                        w0,
                        h0,
                        bq,
                        j,
                        k,
                    ))
                &&& (forall|j: int, k: int|
                    is_attempt(px0, w0, h0, j, k) && j < round ==> b@.len()
                        <= #[trigger] attempt_encoding(px0, w0, h0, bq, j, k).len())
            },
            best is None ==> round == 0,
        decreases 6 - round,
    {
        let mut k: usize = 0;
        while k < 7
            invariant
                k <= 7,
                round < 6,
                1 <= base_quality <= 100,
                1 <= cw <= 16383,
                1 <= ch <= 16383,
                cur@.len() == cw * ch * 4,
                px0 == rgba@ && w0 == width as int && h0 == height as int && bq
                    == base_quality as int,
                cur@ == search_stage(px0, w0, h0, round as int).0,
                cw as int == search_stage(px0, w0, h0, round as int).1,
                ch as int == search_stage(px0, w0, h0, round as int).2,
                stage_reached(px0, w0, h0, round as int),
                best matches Some(b) ==> {
                    &&& b@.len() > target_bytes
                    &&& (exists|j: int, k2: int|
                        is_attempt(px0, w0, h0, j, k2) && b@ == #[trigger] attempt_encoding(
                            px0,
                            w0,
                            h0,
                            bq,
                            j,
                            k2,
                        ))
                    &&& (forall|j: int, k2: int|
                        is_attempt(px0, w0, h0, j, k2) && (j < round || (j == round && k2 < k))
                            ==> b@.len() <= #[trigger] attempt_encoding(
                            px0,
                            w0,
                            h0,
                            bq,
                            j,
                            k2,
                        ).len())
                },
                best is None ==> round == 0 && k == 0,
            decreases 7 - k,
        {
            let q = ladder_quality_exec(base_quality, k);
            let enc = encode_frame(&cur, cw, ch, q);
            proof {
                assert(enc@ == attempt_encoding(px0, w0, h0, bq, round as int, k as int));
                assert(is_attempt(px0, w0, h0, round as int, k as int));
            }
            if enc.len() <= target_bytes {
                return enc;
            }
            let replace = match &best {
                None => true,
                Some(b) => enc.len() < b.len(),
            };
            if replace {
                best = Some(enc);
            }
            k += 1;
        }
        if cw <= 960 || ch <= 540 {
            proof {
                assert forall|j: int, k2: int|
                    is_attempt(px0, w0, h0, j, k2) implies j <= round as int by {
                    if j > round as int {
                        assert(!above_floor(
                            search_stage(px0, w0, h0, round as int).1,
                            search_stage(px0, w0, h0, round as int).2,
                        ));
                    }
                }
            }
            match best {
                Some(b) => {
                    return b;
                },
                None => {
                    proof {
                        assert(false);
                    }
                    return Vec::new();
                },
            }
        }
        let nw = scaled_dim_exec(cw);
        let nh = scaled_dim_exec(ch);
        let next = downscale_rgba_nearest(&cur, cw, ch, nw, nh);
        proof {
            assert(above_floor(
                search_stage(px0, w0, h0, round as int).1,
                search_stage(px0, w0, h0, round as int).2,
            ));
            assert(search_stage(px0, w0, h0, round as int + 1) == (
                downscale_px(cur@, cw as int, ch as int, scaled_dim(cw as int), scaled_dim(
                    ch as int,
                )),
                scaled_dim(cw as int),
                scaled_dim(ch as int),
            ));
            assert forall|l: int| 0 <= l < round as int + 1 implies above_floor(
                (#[trigger] search_stage(px0, w0, h0, l)).1,
                search_stage(px0, w0, h0, l).2,
            ) by {
                if l < round as int {
                    assert(stage_reached(px0, w0, h0, round as int));
                }
            }
        }
        cur = next;
        cw = nw;
        ch = nh;
        round += 1;
    }
    match best {
        Some(b) => {
            proof {
                assert forall|j: int, k2: int|
                    is_attempt(px0, w0, h0, j, k2) implies j < 6 by {}
            }
            b
        },
        None => {
            proof {
                assert(false);
            }
            Vec::new()
        },
    }
}

/// Whenever some ladder attempt fits the byte budget, the search's result
/// fits the byte budget: the encoder misses the budget only when no
/// attempt at or above the floor resolution could meet it.
pub proof fn lemma_encoder_meets_budget(
    px: Seq<u8>,
    w: int,
    h: int,
    base: int,
    target: int,
    r: Seq<u8>,
)
    requires
        r.len() > target ==> forall|j: int, k: int|
            is_attempt(px, w, h, j, k) ==> r.len() <= #[trigger] attempt_encoding(
                px,
                w,
                h,
                base,
                j,
                k,
            ).len(),
        exists|j: int, k: int|
            is_attempt(px, w, h, j, k) && #[trigger] attempt_encoding(px, w, h, base, j, k).len()
                <= target,
    ensures
        r.len() <= target,
{
    let (j, k) = choose|j: int, k: int|
        is_attempt(px, w, h, j, k) && #[trigger] attempt_encoding(px, w, h, base, j, k).len()
            <= target;
    if r.len() > target {
        assert(r.len() <= attempt_encoding(px, w, h, base, j, k).len());
    }
}

} // verus!
