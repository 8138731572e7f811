//! Geometric match records and their overlap mathematics.
//!
//! Confidences, scales and intersection-over-union ratios are carried as
//! fixed-point fractions in parts per million, so that `PPM` stands for 1.0.

use vstd::arithmetic::div_mod::{lemma_div_by_multiple, lemma_div_is_ordered, lemma_div_pos_is_pos};
use vstd::arithmetic::mul::{lemma_mul_strictly_positive, lemma_mul_upper_bound};
use vstd::prelude::*;

verus! {

/// Fixed-point unit: one million parts stand for the ratio 1.0.
pub const PPM: u32 = 1_000_000;

/// Result of a template match: a rectangle in screen coordinates together
/// with the correlation confidence and the template scale that produced it.
#[derive(Debug, Clone, Copy, PartialEq, Eq, Structural)]
pub struct MatchResult {
    /// X coordinate of the match (top-left corner).
    pub x: u32,
    /// Y coordinate of the match (top-left corner).
    pub y: u32,
    /// Width of the matched region.
    pub width: u32,
    /// Height of the matched region.
    pub height: u32,
    /// Match confidence in parts per million of 1.0.
    pub confidence: u32,
    /// Scale at which the match was found, in parts per million of 1.0.
    pub scale: u32,
}

impl MatchResult {
    /// Invariant of a match record: the confidence is a ratio in [0, 1],
    /// the scale is positive, the region is non-empty, and the geometry
    /// stays within the `u32` coordinate space.
    pub open spec fn wf(self) -> bool {
        &&& self.confidence <= PPM
        &&& self.scale > 0
        &&& self.width > 0
        &&& self.height > 0
        &&& self.x + self.width <= u32::MAX
        &&& self.y + self.height <= u32::MAX
        &&& self.width * self.height <= u32::MAX
    }

    /// Create a new match result.
    pub fn new(x: u32, y: u32, width: u32, height: u32, confidence: u32, scale: u32) -> (r: Self)
        requires
            confidence <= PPM,
            scale > 0,
            width > 0,
            height > 0,
            x + width <= u32::MAX,
            y + height <= u32::MAX,
            width * height <= u32::MAX,
        ensures
            r == (MatchResult { x, y, width, height, confidence, scale }),
            r.wf(),
    {
        Self { x, y, width, height, confidence, scale }
    }

    /// Get the center point of the match.
    pub fn center(&self) -> (r: (u32, u32))
        requires
            self.wf(),
        ensures
            r.0 == self.x + self.width as int / 2,
            r.1 == self.y + self.height as int / 2,
    {
        (self.x + self.width / 2, self.y + self.height / 2)
    }

    /// Get the bounding box as (x, y, width, height).
    pub fn bounds(&self) -> (r: (u32, u32, u32, u32))
        ensures
            r == (self.x, self.y, self.width, self.height),
    {
        (self.x, self.y, self.width, self.height)
    }

    /// Get the x coordinate of the right edge.
    pub fn right(&self) -> (r: u32)
        requires
            self.wf(),
        ensures
            r == self.x + self.width,
    {
        self.x + self.width
    }

    /// Get the y coordinate of the bottom edge.
    pub fn bottom(&self) -> (r: u32)
        requires
            self.wf(),
        ensures
            r == self.y + self.height,
    {
        self.y + self.height
    }

    /// Area of the match region in pixels.
    pub fn area(&self) -> (r: u32)
        requires
            self.wf(),
        ensures
            r == self.spec_area(),
    {
        self.width * self.height
    }

    /// Area of the rectangle, as a mathematical integer.
    pub open spec fn spec_area(self) -> int {
        self.width * self.height
    }

    /// Two rectangles overlap iff each one starts before the other ends,
    /// on both axes.
    pub open spec fn spec_overlaps(self, other: MatchResult) -> bool {
        &&& self.x < other.x + other.width
        &&& self.x + self.width > other.x
        &&& self.y < other.y + other.height
        &&& self.y + self.height > other.y
    }

    /// Check whether this match overlaps another.
    pub fn overlaps(&self, other: &MatchResult) -> (r: bool)
        requires
            self.wf(),
            other.wf(),
        ensures
            r == self.spec_overlaps(*other),
    {
        self.x < other.right() && self.right() > other.x && self.y < other.bottom()
            && self.bottom() > other.y
    }

    /// Area of the intersection of two rectangles, assuming they overlap.
    pub open spec fn spec_inter_area(a: MatchResult, b: MatchResult) -> int {
        let ix1 = if a.x > b.x { a.x as int } else { b.x as int };
        let iy1 = if a.y > b.y { a.y as int } else { b.y as int };
        let ix2 = if a.x + a.width < b.x + b.width { a.x + a.width } else { b.x + b.width };
        let iy2 = if a.y + a.height < b.y + b.height { a.y + a.height } else { b.y + b.height };
        (ix2 - ix1) * (iy2 - iy1)
    }

    /// Intersection-over-union of two rectangles, in parts per million:
    /// 0 when they do not overlap, otherwise intersection area times `PPM`
    /// divided by union area, rounded down.
    pub open spec fn spec_iou(a: MatchResult, b: MatchResult) -> int {
        if !a.spec_overlaps(b) {
            0
        } else {
            let inter = Self::spec_inter_area(a, b);
            inter * PPM / (a.spec_area() + b.spec_area() - inter)
        }
    }

    /// Calculate the intersection-over-union with another match, in parts
    /// per million of 1.0.
    pub fn iou(&self, other: &MatchResult) -> (r: u32)
        requires
            self.wf(),
            other.wf(),
        ensures
            r == Self::spec_iou(*self, *other),
            r <= PPM,
    {
        if !self.overlaps(other) {
            return 0;
        }

        let inter_x1 = if self.x > other.x { self.x } else { other.x };
        let inter_y1 = if self.y > other.y { self.y } else { other.y };
        let self_right = self.x + self.width;
        let other_right = other.x + other.width;
        let inter_x2 = if self_right < other_right { self_right } else { other_right };
        let self_bottom = self.y + self.height;
        let other_bottom = other.y + other.height;
        let inter_y2 = if self_bottom < other_bottom { self_bottom } else { other_bottom };

        let inter_w = (inter_x2 - inter_x1) as u64;
        let inter_h = (inter_y2 - inter_y1) as u64;
        proof {
            lemma_mul_upper_bound(inter_w as int, u32::MAX as int, inter_h as int, u32::MAX as int);
        }
        let inter_area = inter_w * inter_h;
        let area_a = self.width as u64 * self.height as u64;
        let area_b = other.width as u64 * other.height as u64;

        proof {
            lemma_mul_upper_bound(inter_w as int, self.width as int, inter_h as int, self.height as int);
            lemma_mul_upper_bound(inter_w as int, other.width as int, inter_h as int, other.height as int);
            lemma_mul_strictly_positive(inter_w as int, inter_h as int);
        }

        let union_area = area_a + area_b - inter_area;
        proof {
            lemma_mul_upper_bound(inter_area as int, u32::MAX as int, PPM as int, PPM as int);
        }
        let scaled = inter_area * (PPM as u64);

        proof {
            lemma_div_pos_is_pos(scaled as int, union_area as int);
            lemma_div_is_ordered(scaled as int, union_area as int * PPM as int, union_area as int);
            lemma_div_by_multiple(PPM as int, union_area as int);
            lemma_mul_upper_bound(inter_area as int, union_area as int, PPM as int, PPM as int);
        }

        (scaled / union_area) as u32
    }
}

/// Law: intersection-over-union is symmetric in its two rectangles.
pub proof fn lemma_iou_symmetric(a: MatchResult, b: MatchResult)
    ensures
        MatchResult::spec_iou(a, b) == MatchResult::spec_iou(b, a),
{
}

/// Law: under the match-record invariant, intersection-over-union always
/// lies between 0 and 1; a rectangle measured against itself gives exactly
/// 1; rectangles that do not overlap give exactly 0.
pub proof fn lemma_iou_bounds(a: MatchResult, b: MatchResult)
    requires
        a.wf(),
        b.wf(),
    ensures
        0 <= MatchResult::spec_iou(a, b) <= PPM,
        MatchResult::spec_iou(a, a) == PPM,
        !a.spec_overlaps(b) ==> MatchResult::spec_iou(a, b) == 0,
{
    if a.spec_overlaps(b) {
        let inter = MatchResult::spec_inter_area(a, b);
        let union = a.spec_area() + b.spec_area() - inter;
        let iw = if a.x + a.width < b.x + b.width { a.x + a.width } else { b.x + b.width }
            - if a.x > b.x { a.x as int } else { b.x as int };
        let ih = if a.y + a.height < b.y + b.height { a.y + a.height } else { b.y + b.height }
            - if a.y > b.y { a.y as int } else { b.y as int };
        lemma_mul_strictly_positive(iw, ih);
        lemma_mul_upper_bound(iw, a.width as int, ih, a.height as int);
        lemma_mul_upper_bound(iw, b.width as int, ih, b.height as int);
        lemma_div_pos_is_pos(inter * PPM, union);
        lemma_div_is_ordered(inter * PPM, union * PPM, union);
        lemma_div_by_multiple(PPM as int, union);
        lemma_mul_upper_bound(inter, union, PPM as int, PPM as int);
    }
    assert(a.spec_overlaps(a));
    assert(MatchResult::spec_inter_area(a, a) == a.spec_area());
    lemma_mul_strictly_positive(a.width as int, a.height as int);
    lemma_div_by_multiple(PPM as int, a.spec_area());
}

} // verus!
