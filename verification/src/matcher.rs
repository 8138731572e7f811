//! Multi-scale template matching: normalized cross-correlation over a
//! screen frame, candidate extraction, non-maximum suppression, ranking
//! and limiting.

use crate::frame::GrayFrame;
use crate::match_config::MatchConfig;
use crate::match_result::{MatchResult, PPM};
use crate::nms::{non_max_suppression, sort_by_confidence, sorted_desc, spec_nms, spec_sort_desc, NMS_IOU_THRESHOLD};
use crate::CoreError;
use vstd::arithmetic::div_mod::{lemma_basic_div, lemma_multiply_divide_lt};
use vstd::arithmetic::mul::{lemma_mul_strict_inequality, lemma_mul_upper_bound};
use vstd::arithmetic::power2::{lemma2_to64, lemma_pow2_pos, lemma_pow2_strictly_increases, pow2};
use vstd::bits::{lemma_u64_pow2_no_overflow, lemma_u64_shl_is_mul};
use vstd::prelude::*;

verus! {

/// What `image::imageops::resize` with the triangle (bilinear) filter
/// returns for a row-major single-channel image: the resampled pixels of
/// the new dimensions. The result is a pure function of the inputs.
pub uninterp spec fn triangle_resize(
    pixels: Seq<u8>,
    width: int,
    height: int,
    new_width: int,
    new_height: int,
) -> Seq<u8>;

/// What the normalized-cross-correlation surface of a template over a
/// screen holds: cell `y * out_w + x` carries the raw bit pattern of the
/// single-precision correlation score of the template placed at offset
/// `(x, y)`. The result is a pure function of the two images.
pub uninterp spec fn ncc_surface(
    screen_pixels: Seq<u8>,
    screen_w: int,
    screen_h: int,
    tmpl_pixels: Seq<u8>,
    tmpl_w: int,
    tmpl_h: int,
) -> Seq<u32>;

/// Quantization of a raw IEEE-754 single-precision bit pattern to a
/// confidence in parts per million, clamped into [0, 1]: a negative
/// value, a negative zero or a NaN gives 0, a value of one or more gives
/// `PPM`, and a value below one gives its value scaled by `PPM` and
/// rounded down. (A NaN is what the correlation method yields over
/// uniform regions, where the normalization term is zero.)
pub open spec fn spec_score_ppm(bits: u32) -> u32 {
    let exp = (bits >> 23u32) & 0xFF;
    let frac = bits & 0x7FFFFF;
    if bits >= 0x80000000 {
        0u32
    } else if exp == 0xFF {
        if frac != 0 {
            0u32
        } else {
            PPM
        }
    } else if exp >= 127 {
        PPM
    } else {
        let e: u32 = if exp == 0 {
            1u32
        } else {
            exp
        };
        let m: u64 = if exp == 0 {
            frac as u64
        } else {
            (frac | 0x800000) as u64
        };
        let shift = (150 - e) as u64;
        if shift >= 64 {
            0u32
        } else {
            ((m * 1_000_000) / ((1u64 << shift) as int)) as u32
        }
    }
}

proof fn lemma_score_ppm_le(bits: u32)
    ensures
        spec_score_ppm(bits) <= PPM,
{
    let exp = (bits >> 23u32) & 0xFF;
    let frac = bits & 0x7FFFFF;
    assert((bits >> 23u32) & 0xFF < 256 && bits & 0x7FFFFF < 0x800000) by (bit_vector);
    if bits < 0x80000000 && exp != 0xFF && exp < 127 {
        let e: u32 = if exp == 0 {
            1u32
        } else {
            exp
        };
        let m: u64 = if exp == 0 {
            frac as u64
        } else {
            (frac | 0x800000) as u64
        };
        let shift = (150 - e) as u64;
        assert(m < 0x1000000) by (bit_vector)
            requires
                frac < 0x800000,
                m == frac as u64 || m == (frac | 0x800000) as u64,
        ;
        if shift < 64 {
            let divisor = 1u64 << shift;
            assert(divisor == pow2(shift as nat)) by {
                lemma_u64_pow2_no_overflow(shift as nat);
                lemma_u64_shl_is_mul(1u64, shift);
            }
            lemma_pow2_pos(shift as nat);
            assert(pow2(24) <= pow2(shift as nat)) by {
                if 24 < shift {
                    lemma_pow2_strictly_increases(24, shift as nat);
                }
            }
            lemma2_to64();
            assert(m * 1_000_000 < divisor * 1_000_000) by {
                lemma_mul_strict_inequality(m as int, divisor as int, 1_000_000int);
            }
            assert((m * 1_000_000) / (divisor as int) < 1_000_000) by {
                lemma_multiply_divide_lt(m as int * 1_000_000, divisor as int, 1_000_000int);
            }
        }
    }
}

/// Quantize a raw correlation score (an IEEE-754 single-precision bit
/// pattern) to a confidence in parts per million, clamped into [0, 1].
pub fn score_ppm(bits: u32) -> (r: u32)
    ensures
        r == spec_score_ppm(bits),
        r <= PPM,
{
    proof {
        lemma_score_ppm_le(bits);
    }
    let exp = (bits >> 23u32) & 0xFF;
    let frac = bits & 0x7FFFFF;
    if bits >= 0x80000000 {
        0
    } else if exp == 0xFF {
        if frac != 0 {
            0
        } else {
            PPM
        }
    } else if exp >= 127 {
        PPM
    } else {
        let e: u32 = if exp == 0 {
            1
        } else {
            exp
        };
        let m: u64 = if exp == 0 {
            frac as u64
        } else {
            (frac | 0x800000) as u64
        };
        assert(exp < 127 && frac < 0x800000 && m < 0x1000000) by (bit_vector)
            requires
                exp == (bits >> 23u32) & 0xFF,
                frac == bits & 0x7FFFFF,
                exp < 127,
                m == frac as u64 || m == (frac | 0x800000) as u64,
        ;
        let shift = (150 - e) as u64;
        if shift >= 64 {
            0
        } else {
            let divisor = 1u64 << shift;
            proof {
                lemma_u64_pow2_no_overflow(shift as nat);
                lemma_u64_shl_is_mul(1u64, shift);
                lemma_pow2_pos(shift as nat);
                lemma_mul_upper_bound(m as int, 0x1000000int, 1_000_000int, 1_000_000int);
            }
            ((m * 1_000_000) / divisor) as u32
        }
    }
}

/// Relies on `image::imageops::resize` with `FilterType::Triangle`: the
/// result is an image of exactly the requested dimensions, resampled from
/// the input and depending on nothing but it.
#[verifier::external_body]
fn resize_gray(frame: &GrayFrame, new_width: u32, new_height: u32) -> (r: GrayFrame)
    requires
        frame.wf(),
        new_width >= 1,
        new_height >= 1,
    ensures
        r.width == new_width,
        r.height == new_height,
        r.wf(),
        r.pixels@ == triangle_resize(
            frame.pixels@,
            frame.width as int,
            frame.height as int,
            new_width as int,
            new_height as int,
        ),
{
    let img = image::GrayImage::from_raw(frame.width, frame.height, frame.pixels.clone()).unwrap();
    let out = image::imageops::resize(&img, new_width, new_height, image::imageops::FilterType::Triangle);
    GrayFrame { width: new_width, height: new_height, pixels: out.into_raw() }
}

/// Relies on `imageproc::template_matching::match_template` with the
/// `CrossCorrelationNormalized` method: the output has dimensions
/// `(screen_w - tmpl_w + 1) x (screen_h - tmpl_h + 1)`, row-major, one
/// single-precision correlation score per placement (handed back here as
/// its raw bit pattern), and the template must be strictly smaller than
/// the screen on both axes (the call panics otherwise).
#[verifier::external_body]
fn ncc_surface_gray(screen: &GrayFrame, tmpl: &GrayFrame) -> (r: Vec<u32>)
    requires
        screen.wf(),
        tmpl.wf(),
        tmpl.width < screen.width,
        tmpl.height < screen.height,
    ensures
        r@.len() == (screen.width - tmpl.width + 1) * (screen.height - tmpl.height + 1),
        r@ == ncc_surface(
            screen.pixels@,
            screen.width as int,
            screen.height as int,
            tmpl.pixels@,
            tmpl.width as int,
            tmpl.height as int,
        ),
{
    let s = image::GrayImage::from_raw(screen.width, screen.height, screen.pixels.clone()).unwrap();
    let t = image::GrayImage::from_raw(tmpl.width, tmpl.height, tmpl.pixels.clone()).unwrap();
    let out = imageproc::template_matching::match_template(
        &s,
        &t,
        imageproc::template_matching::MatchTemplateMethod::CrossCorrelationNormalized,
    );
    out.into_raw().into_iter().map(|v| v.to_bits()).collect()
}

/// The match record emitted for cell `idx` of a correlation surface that
/// is `out_w` cells wide: the cell's coordinates, the original template
/// dimensions, the cell's quantized score, and the scale searched.
pub open spec fn spec_candidate_at(
    surface: Seq<u32>,
    out_w: int,
    width: u32,
    height: u32,
    scale: u32,
    idx: int,
) -> MatchResult {
    MatchResult {
        x: (idx % out_w) as u32,
        y: (idx / out_w) as u32,
        width,
        height,
        confidence: spec_score_ppm(surface[idx]),
        scale,
    }
}

/// The candidates among the first `n` cells of a correlation surface:
/// every cell whose quantized score reaches the threshold, in row-major
/// order.
pub open spec fn spec_candidates_upto(
    surface: Seq<u32>,
    out_w: int,
    width: u32,
    height: u32,
    scale: u32,
    threshold: u32,
    n: int,
) -> Seq<MatchResult>
    decreases n,
{
    if n <= 0 {
        Seq::empty()
    } else if spec_score_ppm(surface[n - 1]) >= threshold {
        spec_candidates_upto(surface, out_w, width, height, scale, threshold, n - 1).push(
            spec_candidate_at(surface, out_w, width, height, scale, n - 1),
        )
    } else {
        spec_candidates_upto(surface, out_w, width, height, scale, threshold, n - 1)
    }
}

/// All candidates of a correlation surface.
pub open spec fn spec_candidates(
    surface: Seq<u32>,
    out_w: int,
    width: u32,
    height: u32,
    scale: u32,
    threshold: u32,
) -> Seq<MatchResult> {
    spec_candidates_upto(surface, out_w, width, height, scale, threshold, surface.len() as int)
}

proof fn lemma_candidates_props(
    surface: Seq<u32>,
    out_w: int,
    out_h: int,
    width: u32,
    height: u32,
    scale: u32,
    threshold: u32,
    n: int,
)
    requires
        surface.len() <= out_w * out_h,
        0 < out_w,
        0 <= out_h,
        0 <= n <= surface.len(),
        scale > 0,
        width > 0,
        height > 0,
        out_w + width <= u32::MAX + 1,
        out_h + height <= u32::MAX + 1,
        width * height <= u32::MAX,
    ensures
        forall|k: int|
            0 <= k < spec_candidates_upto(surface, out_w, width, height, scale, threshold, n).len()
                ==> (#[trigger] spec_candidates_upto(
                surface,
                out_w,
                width,
                height,
                scale,
                threshold,
                n,
            )[k]).wf() && spec_candidates_upto(
                surface,
                out_w,
                width,
                height,
                scale,
                threshold,
                n,
            )[k].confidence >= threshold,
    decreases n,
{
    if n > 0 {
        lemma_candidates_props(surface, out_w, out_h, width, height, scale, threshold, n - 1);
        let prev = spec_candidates_upto(surface, out_w, width, height, scale, threshold, n - 1);
        let out = spec_candidates_upto(surface, out_w, width, height, scale, threshold, n);
        if spec_score_ppm(surface[n - 1]) >= threshold {
            let m = spec_candidate_at(surface, out_w, width, height, scale, n - 1);
            lemma_score_ppm_le(surface[n - 1]);
            lemma_multiply_divide_lt(n - 1, out_w, out_h);
            assert(0 <= (n - 1) % out_w < out_w) by {
                vstd::arithmetic::div_mod::lemma_mod_division_less_than_divisor(n - 1, out_w);
            }
            assert(m.wf());
            assert forall|k: int|
                0 <= k < out.len() implies (#[trigger] out[k]).wf() && out[k].confidence
                >= threshold by {
                if k < prev.len() {
                    assert(out[k] == prev[k]);
                } else {
                    assert(out[k] == m);
                }
            }
        }
    }
}

/// Extract the match candidates from a correlation surface: one record
/// per cell whose score reaches `threshold`, in row-major order, carrying
/// the original template dimensions and the scale searched.
pub fn candidates_from_surface(
    surface: &Vec<u32>,
    out_w: u32,
    out_h: u32,
    width: u32,
    height: u32,
    scale: u32,
    threshold: u32,
) -> (r: Vec<MatchResult>)
    requires
        surface@.len() == out_w * out_h,
        scale > 0,
        width > 0,
        height > 0,
        out_w + width <= u32::MAX + 1,
        out_h + height <= u32::MAX + 1,
        width * height <= u32::MAX,
    ensures
        r@ == spec_candidates(surface@, out_w as int, width, height, scale, threshold),
        forall|k: int|
            0 <= k < r@.len() ==> (#[trigger] r@[k]).wf() && r@[k].confidence >= threshold,
{
    let mut r: Vec<MatchResult> = Vec::new();
    let n = surface.len();
    if n == 0 {
        return r;
    }
    assert(out_w > 0) by {
        if out_w == 0 {
            assert(out_w * out_h == 0);
        }
    }
    proof {
        lemma_candidates_props(
            surface@,
            out_w as int,
            out_h as int,
            width,
            height,
            scale,
            threshold,
            surface@.len() as int,
        );
    }
    for idx in 0..n
        invariant
            n == surface@.len(),
            surface@.len() == out_w * out_h,
            out_w > 0,
            scale > 0,
            width > 0,
            height > 0,
            out_w + width <= u32::MAX + 1,
            out_h + height <= u32::MAX + 1,
            width * height <= u32::MAX,
            r@ == spec_candidates_upto(
                surface@,
                out_w as int,
                width,
                height,
                scale,
                threshold,
                idx as int,
            ),
    {
        let score = score_ppm(surface[idx]);
        if score >= threshold {
            let x = (idx % (out_w as usize)) as u32;
            let y = (idx / (out_w as usize)) as u32;
            proof {
                lemma_multiply_divide_lt(idx as int, out_w as int, out_h as int);
                vstd::arithmetic::div_mod::lemma_mod_division_less_than_divisor(
                    idx as int,
                    out_w as int,
                );
            }
            let m = MatchResult::new(x, y, width, height, score, scale);
            r.push(m);
        }
    }
    r
}

/// The template dimension scaled by a fixed-point factor, rounded to the
/// nearest pixel (half away from zero).
pub open spec fn spec_scaled_dim(dim: u32, scale: u32) -> int {
    (dim * scale + (PPM as int / 2)) / (PPM as int)
}

/// Whether a scale factor is close enough to 1.0 (within 0.001) that the
/// template is used as it is, without resampling.
pub open spec fn spec_near_unit(scale: u32) -> bool {
    PPM - 1000 < scale < PPM + 1000
}

/// The candidates one scale step contributes: nothing when the scaled
/// template would be empty, larger than the screen, or not strictly
/// smaller than the screen (the correlation needs strictly smaller);
/// otherwise the candidates of the correlation surface between the screen
/// and the (possibly resampled) template.
pub open spec fn spec_scale_candidates(
    screen: GrayFrame,
    tmpl: GrayFrame,
    scale: u32,
    threshold: u32,
) -> Seq<MatchResult> {
    let sw = spec_scaled_dim(tmpl.width, scale);
    let sh = spec_scaled_dim(tmpl.height, scale);
    if sw == 0 || sh == 0 || sw > screen.width || sh > screen.height {
        Seq::empty()
    } else {
        let used_w = if spec_near_unit(scale) {
            tmpl.width as int
        } else {
            sw
        };
        let used_h = if spec_near_unit(scale) {
            tmpl.height as int
        } else {
            sh
        };
        let used_px = if spec_near_unit(scale) {
            tmpl.pixels@
        } else {
            triangle_resize(tmpl.pixels@, tmpl.width as int, tmpl.height as int, sw, sh)
        };
        if used_w >= screen.width || used_h >= screen.height {
            Seq::empty()
        } else {
            spec_candidates(
                ncc_surface(
                    screen.pixels@,
                    screen.width as int,
                    screen.height as int,
                    used_px,
                    used_w,
                    used_h,
                ),
                screen.width - used_w + 1,
                tmpl.width,
                tmpl.height,
                scale,
                threshold,
            )
        }
    }
}

fn find_at_scale(screen: &GrayFrame, tmpl: &GrayFrame, scale: u32, threshold: u32) -> (r: Vec<
    MatchResult,
>)
    requires
        screen.wf(),
        tmpl.wf(),
        screen.width + tmpl.width <= u32::MAX,
        screen.height + tmpl.height <= u32::MAX,
        tmpl.width * tmpl.height <= u32::MAX,
    ensures
        r@ == spec_scale_candidates(*screen, *tmpl, scale, threshold),
        forall|k: int|
            0 <= k < r@.len() ==> (#[trigger] r@[k]).wf() && r@[k].confidence >= threshold,
{
    proof {
        lemma_mul_upper_bound(tmpl.width as int, u32::MAX as int, scale as int, u32::MAX as int);
        lemma_mul_upper_bound(tmpl.height as int, u32::MAX as int, scale as int, u32::MAX as int);
    }
    let scaled_w = ((tmpl.width as u64) * (scale as u64) + 500_000) / 1_000_000;
    let scaled_h = ((tmpl.height as u64) * (scale as u64) + 500_000) / 1_000_000;

    if scaled_w == 0 || scaled_h == 0 || scaled_w > screen.width as u64 || scaled_h
        > screen.height as u64 {
        let r: Vec<MatchResult> = Vec::new();
        return r;
    }

    proof {
        lemma_basic_div(500_000int, 1_000_000int);
        if scale == 0 {
            assert(tmpl.width * scale == 0 && tmpl.height * scale == 0) by (nonlinear_arith)
                requires
                    scale == 0u32,
            ;
            assert(false);
        }
        if tmpl.width == 0 {
            assert(tmpl.width * scale == 0) by (nonlinear_arith)
                requires
                    tmpl.width == 0u32,
            ;
            assert(false);
        }
        if tmpl.height == 0 {
            assert(tmpl.height * scale == 0) by (nonlinear_arith)
                requires
                    tmpl.height == 0u32,
            ;
            assert(false);
        }
    }

    let near_unit = scale > PPM - 1000 && scale < PPM + 1000;

    if near_unit {
        if tmpl.width >= screen.width || tmpl.height >= screen.height {
            let r: Vec<MatchResult> = Vec::new();
            return r;
        }
        let surface = ncc_surface_gray(screen, tmpl);
        let out_w = screen.width - tmpl.width + 1;
        let out_h = screen.height - tmpl.height + 1;
        candidates_from_surface(&surface, out_w, out_h, tmpl.width, tmpl.height, scale, threshold)
    } else {
        let resized = resize_gray(tmpl, scaled_w as u32, scaled_h as u32);
        if resized.width >= screen.width || resized.height >= screen.height {
            let r: Vec<MatchResult> = Vec::new();
            return r;
        }
        let surface = ncc_surface_gray(screen, &resized);
        let out_w = screen.width - resized.width + 1;
        let out_h = screen.height - resized.height + 1;
        candidates_from_surface(&surface, out_w, out_h, tmpl.width, tmpl.height, scale, threshold)
    }
}

/// The candidates pooled over a list of scale steps, in order.
pub open spec fn spec_pooled(
    screen: GrayFrame,
    tmpl: GrayFrame,
    scales: Seq<u32>,
    threshold: u32,
) -> Seq<MatchResult>
    decreases scales.len(),
{
    if scales.len() == 0 {
        Seq::empty()
    } else {
        spec_pooled(screen, tmpl, scales.drop_last(), threshold) + spec_scale_candidates(
            screen,
            tmpl,
            scales.last(),
            threshold,
        )
    }
}

/// The elements of `s` whose confidence reaches `threshold`, in order.
pub open spec fn spec_conf_filter(s: Seq<MatchResult>, threshold: u32) -> Seq<MatchResult>
    decreases s.len(),
{
    if s.len() == 0 {
        Seq::empty()
    } else if s.last().confidence >= threshold {
        spec_conf_filter(s.drop_last(), threshold).push(s.last())
    } else {
        spec_conf_filter(s.drop_last(), threshold)
    }
}

/// The scale set a configuration searches: its scale steps when
/// multi-scale search is on, the single factor 1.0 otherwise.
pub open spec fn spec_scale_set(multi: bool, steps: Seq<u32>) -> Seq<u32> {
    if multi {
        steps
    } else {
        seq![PPM]
    }
}

/// The whole search pipeline: pool the candidates of every scale step,
/// suppress overlapping detections greedily by rank, re-apply the
/// confidence threshold, rank by descending confidence, and keep at most
/// `limit` results.
pub open spec fn spec_find_all(
    screen: GrayFrame,
    tmpl: GrayFrame,
    multi: bool,
    steps: Seq<u32>,
    confidence: u32,
    limit: int,
) -> Seq<MatchResult> {
    let pooled = spec_pooled(screen, tmpl, spec_scale_set(multi, steps), confidence);
    let kept = spec_nms(spec_sort_desc(pooled), NMS_IOU_THRESHOLD as int);
    let ranked = spec_sort_desc(spec_conf_filter(kept, confidence));
    if limit < ranked.len() {
        ranked.take(limit)
    } else {
        ranked
    }
}

/// Image template matcher.
pub struct ImageMatcher;

impl ImageMatcher {
    /// Apply non-maximum suppression to remove overlapping detections:
    /// rank by descending confidence, then repeatedly keep the best
    /// remaining match and discard every other remaining match whose
    /// intersection-over-union with it is at least `iou_threshold` (in
    /// parts per million).
    pub fn non_max_suppression(matches: Vec<MatchResult>, iou_threshold: u32) -> (r: Vec<
        MatchResult,
    >)
        requires
            forall|i: int| 0 <= i < matches@.len() ==> (#[trigger] matches@[i]).wf(),
        ensures
            r@ == spec_nms(spec_sort_desc(matches@), iou_threshold as int),
            sorted_desc(r@),
            forall|i: int|
                0 <= i < r@.len() ==> (#[trigger] r@[i]).wf() && matches@.contains(r@[i]),
            forall|i: int, j: int|
                0 <= i < j < r@.len() ==> MatchResult::spec_iou(r@[i], r@[j]) < iou_threshold,
    {
        non_max_suppression(matches, iou_threshold)
    }

    /// Find all matches of a template inside a screen frame: search every
    /// configured scale, pool the candidates, suppress overlaps, and hand
    /// back at most `config.limit` results ranked by descending
    /// confidence, each at or above `config.confidence`. The search
    /// itself cannot fail; an empty result is an empty vector.
    pub fn find_all(screen: &GrayFrame, template: &GrayFrame, config: &MatchConfig) -> (r: Result<
        Vec<MatchResult>,
        CoreError,
    >)
        requires
            screen.wf(),
            template.wf(),
            config.wf(),
            screen.width + template.width <= u32::MAX,
            screen.height + template.height <= u32::MAX,
            template.width * template.height <= u32::MAX,
        ensures
            r is Ok,
            r matches Ok(v) ==> v@ == spec_find_all(
                *screen,
                *template,
                config.search_multiple_scales,
                config.scale_steps@,
                config.confidence,
                config.limit as int,
            ),
            r matches Ok(v) ==> v@.len() <= config.limit,
            r matches Ok(v) ==> sorted_desc(v@),
            r matches Ok(v) ==> forall|k: int|
                0 <= k < v@.len() ==> (#[trigger] v@[k]).wf() && v@[k].confidence
                    >= config.confidence,
    {
        let ghost scale_set = spec_scale_set(config.search_multiple_scales, config.scale_steps@);
        let mut pooled: Vec<MatchResult> = Vec::new();

        if config.search_multiple_scales {
            let steps = &config.scale_steps;
            let n = steps.len();
            assert(steps@.take(0) =~= Seq::<u32>::empty());
            for i in 0..n
                invariant
                    n == steps@.len(),
                    screen.wf(),
                    template.wf(),
                    config.wf(),
                    screen.width + template.width <= u32::MAX,
                    screen.height + template.height <= u32::MAX,
                    template.width * template.height <= u32::MAX,
                    pooled@ == spec_pooled(
                        *screen,
                        *template,
                        steps@.take(i as int),
                        config.confidence,
                    ),
                    forall|k: int|
                        0 <= k < pooled@.len() ==> (#[trigger] pooled@[k]).wf()
                            && pooled@[k].confidence >= config.confidence,
            {
                let mut found = find_at_scale(screen, template, steps[i], config.confidence);
                pooled.append(&mut found);
                proof {
                    assert(steps@.take(i + 1 as int).drop_last() =~= steps@.take(i as int));
                    assert(steps@.take(i + 1 as int).last() == steps@[i as int]);
                }
            }
            proof {
                assert(steps@.take(n as int) =~= steps@);
            }
        } else {
            pooled = find_at_scale(screen, template, PPM, config.confidence);
            proof {
                let single = spec_scale_set(false, config.scale_steps@);
                assert(single.len() == 1 && single.last() == PPM && single.drop_last() =~= Seq::<
                    u32,
                >::empty());
                assert(spec_pooled(
                    *screen,
                    *template,
                    single.drop_last(),
                    config.confidence,
                ) =~= Seq::<MatchResult>::empty());
                assert(spec_pooled(*screen, *template, single, config.confidence) == spec_pooled(
                    *screen,
                    *template,
                    single.drop_last(),
                    config.confidence,
                ) + spec_scale_candidates(*screen, *template, PPM, config.confidence));
                assert(Seq::<MatchResult>::empty() + spec_scale_candidates(
                    *screen,
                    *template,
                    PPM,
                    config.confidence,
                ) =~= spec_scale_candidates(*screen, *template, PPM, config.confidence));
            }
        }

        let ghost pooled_view = pooled@;
        proof {
            assert(pooled_view == spec_pooled(*screen, *template, scale_set, config.confidence));
        }
        let kept = non_max_suppression(pooled, NMS_IOU_THRESHOLD);
        proof {
            assert(kept@ == spec_nms(
                spec_sort_desc(pooled_view),
                NMS_IOU_THRESHOLD as int,
            ));
        }

        let mut filtered: Vec<MatchResult> = Vec::new();
        let kn = kept.len();
        assert(kept@.take(0) =~= Seq::<MatchResult>::empty());
        for i in 0..kn
            invariant
                kn == kept@.len(),
                filtered@ == spec_conf_filter(kept@.take(i as int), config.confidence),
                forall|k: int|
                    0 <= k < kept@.len() ==> (#[trigger] kept@[k]).wf(),
                forall|k: int|
                    0 <= k < filtered@.len() ==> (#[trigger] filtered@[k]).wf()
                        && filtered@[k].confidence >= config.confidence,
        {
            proof {
                assert(kept@.take(i + 1 as int).drop_last() =~= kept@.take(i as int));
                assert(kept@.take(i + 1 as int).last() == kept@[i as int]);
            }
            if kept[i].confidence >= config.confidence {
                filtered.push(kept[i]);
            }
        }
        proof {
            assert(kept@.take(kn as int) =~= kept@);
        }

        let ghost filtered_view = filtered@;
        proof {
            assert(filtered_view == spec_conf_filter(kept@, config.confidence));
        }
        let mut ranked = sort_by_confidence(filtered);
        proof {
            assert(ranked@ == spec_sort_desc(filtered_view));
            assert forall|k: int| 0 <= k < ranked@.len() implies (#[trigger] ranked@[k]).wf()
                && ranked@[k].confidence >= config.confidence by {
                let j = choose|j: int| 0 <= j < filtered_view.len() && filtered_view[j] == ranked@[k];
            }
        }
        let ghost full_ranked = ranked@;
        ranked.truncate(config.limit);
        proof {
            if (config.limit as int) < full_ranked.len() {
                assert(ranked@ =~= full_ranked.take(config.limit as int));
            } else {
                assert(ranked@ =~= full_ranked);
            }
        }
        Ok(ranked)
    }

    /// Find the first (best) match of a template inside a screen frame,
    /// or nothing when no candidate reaches the configured confidence.
    pub fn find(screen: &GrayFrame, template: &GrayFrame, config: &MatchConfig) -> (r: Result<
        Option<MatchResult>,
        CoreError,
    >)
        requires
            screen.wf(),
            template.wf(),
            config.wf(),
            screen.width + template.width <= u32::MAX,
            screen.height + template.height <= u32::MAX,
            template.width * template.height <= u32::MAX,
        ensures
            r is Ok,
            r matches Ok(v) ==> v == ({
                let all = spec_find_all(
                    *screen,
                    *template,
                    config.search_multiple_scales,
                    config.scale_steps@,
                    config.confidence,
                    config.limit as int,
                );
                if all.len() == 0 {
                    None::<MatchResult>
                } else {
                    Some(all[0])
                }
            }),
    {
        let all = match Self::find_all(screen, template, config) {
            Ok(v) => v,
            Err(e) => {
                return Err(e);
            },
        };
        if all.len() == 0 {
            Ok(None)
        } else {
            Ok(Some(all[0]))
        }
    }
}

} // verus!
