use crate::common::bitmap::{
    lemma_raster_of_intro, lemma_raster_order, nearest_resized, raster_len, raster_of, raster_offset,
    spec_crop, GrayBitmap, RgbaBitmap,
};
use crate::common::config::VisualizationConfig;
use crate::common::{Position, WPLACE_CHUNK_HEIGHT, WPLACE_CHUNK_WIDTH};
use vstd::prelude::*;

verus! {

/// One pixel that is watched and is not what it should be.
#[derive(Debug, Clone, Copy, PartialEq, Eq, PartialOrd, Ord, Hash)]
pub struct Diff {
    pub pos: Position,
    pub curr_px: [u8; 4],
    pub ref_px: [u8; 4],
}

/// What a comparison of a tile with its reference found.
#[derive(Debug, Clone, PartialEq, Eq, Hash)]
pub struct DiffRecord {
    /// The changed pixels, ordered by `x`, then by `y`.
    pub diffs: Vec<Diff>,
    /// As large as the reference: 255 where a pixel has changed, 0 elsewhere.
    pub diff_img: GrayBitmap,
    /// The bounding box of the changed pixels; the whole tile where none has changed.
    pub scope_rect: ScopeRect,
}

/// Why two images could not be compared, or the result not be drawn.
#[derive(Debug, Clone, Copy, PartialEq, Eq, Structural)]
pub enum AlgorithmError {
    /// The images are not all of one size.
    SizeMismatch,
    /// The images are smaller than the window that is to be cut out of them.
    WindowOutOfImage,
    /// The enlarged window would not fit into memory on this machine.
    ResultTooLarge,
}

/// An axis-aligned rectangle of pixels, both corners included.
#[derive(Debug, Clone, Copy, PartialEq, Eq, PartialOrd, Ord, Hash)]
pub struct ScopeRect {
    left_top: Position,
    right_bottom: Position,
}

impl ScopeRect {
    #[verifier::type_invariant]
    pub closed spec fn inv(&self) -> bool {
        self.left_top.x <= self.right_bottom.x && self.left_top.y <= self.right_bottom.y
    }

    pub closed spec fn spec_left_top(&self) -> Position {
        self.left_top
    }

    pub closed spec fn spec_right_bottom(&self) -> Position {
        self.right_bottom
    }

    /// The left top corner is neither to the right of nor below the right bottom corner.
    pub open spec fn wf(&self) -> bool {
        self.spec_left_top().x <= self.spec_right_bottom().x && self.spec_left_top().y
            <= self.spec_right_bottom().y
    }

    /// The rectangle that covers a whole tile. It stands for "no pixel in particular".
    pub open spec fn spec_default() -> (Position, Position) {
        (Position { x: 0, y: 0 }, Position { x: WPLACE_CHUNK_WIDTH, y: WPLACE_CHUNK_HEIGHT })
    }

    /// The rectangle with the given corners, where they are in order.
    pub fn new(left_top: Position, right_bottom: Position) -> (r: Option<Self>)
        ensures
            r.is_some() <==> left_top.x <= right_bottom.x && left_top.y <= right_bottom.y,
            r matches Some(rect) ==> rect.spec_left_top() == left_top && rect.spec_right_bottom()
                == right_bottom,
    {
        if left_top.x <= right_bottom.x && left_top.y <= right_bottom.y {
            Some(ScopeRect { left_top, right_bottom })
        } else {
            None
        }
    }

    pub fn left_top(&self) -> (p: Position)
        ensures
            p == self.spec_left_top(),
            self.wf(),
    {
        proof {
            use_type_invariant(self);
        }
        self.left_top
    }

    pub fn right_bottom(&self) -> (p: Position)
        ensures
            p == self.spec_right_bottom(),
            self.wf(),
    {
        proof {
            use_type_invariant(self);
        }
        self.right_bottom
    }
}

impl Default for ScopeRect {
    fn default() -> (r: Self)
        ensures
            (r.spec_left_top(), r.spec_right_bottom()) == ScopeRect::spec_default(),
    {
        ScopeRect {
            left_top: Position::new(0, 0),
            right_bottom: Position::new(WPLACE_CHUNK_WIDTH, WPLACE_CHUNK_HEIGHT),
        }
    }
}

/// The colour `0xRRGGBB`, fully opaque, as red, green, blue and alpha. Bits above the red
/// byte do not count.
pub open spec fn spec_rgba_of(color: int) -> Seq<u8> {
    seq![
        ((color / 0x1_0000) % 0x100) as u8,
        ((color / 0x100) % 0x100) as u8,
        (color % 0x100) as u8,
        255u8,
    ]
}

/// The colour `0xRRGGBB` as an opaque pixel.
pub fn rgb_usize_to_rgba(color: usize) -> (px: [u8; 4])
    ensures
        px@ == spec_rgba_of(color as int),
{
    let r: u8 = ((color / 0x1_0000) % 0x100) as u8;
    let g: u8 = ((color / 0x100) % 0x100) as u8;
    let b: u8 = (color % 0x100) as u8;
    let px: [u8; 4] = [r, g, b, 255];
    assert(px@ =~= spec_rgba_of(color as int));
    px
}

/// One channel of `over` laid upon `base` at `pct` percent opacity, rounding each share down.
pub open spec fn spec_blend(base: u8, over: u8, pct: int) -> int {
    base * (100 - pct) / 100 + over * pct / 100
}

/// A blend of two bytes is a byte.
pub proof fn lemma_blend_is_byte(base: u8, over: u8, pct: int)
    requires
        0 <= pct <= 100,
    ensures
        0 <= base * (100 - pct) / 100 <= 255,
        0 <= over * pct / 100 <= 255,
        0 <= spec_blend(base, over, pct) <= 255,
{
    let a: int = base * (100 - pct);
    let b: int = over * pct;
    assert(0 <= a && 0 <= b && a + b <= 25500) by (nonlinear_arith)
        requires
            a == base * (100 - pct),
            b == over * pct,
            0 <= pct <= 100,
            0 <= base <= 255,
            0 <= over <= 255,
    ;
}

/// The pixel that serves as the ground of a blend: a pixel that is not fully opaque counts
/// as opaque black.
pub open spec fn spec_ground(base: Seq<u8>) -> Seq<u8> {
    if base[3] < 255 {
        seq![0u8, 0u8, 0u8, 255u8]
    } else {
        base
    }
}

/// `over` laid upon `base` at `pct` percent opacity, channel by channel, alpha included.
pub open spec fn spec_mix(base: Seq<u8>, over: Seq<u8>, pct: int) -> Seq<u8> {
    let ground = spec_ground(base);
    seq![
        spec_blend(ground[0], over[0], pct) as u8,
        spec_blend(ground[1], over[1], pct) as u8,
        spec_blend(ground[2], over[2], pct) as u8,
        spec_blend(ground[3], over[3], pct) as u8,
    ]
}

fn blend(base: u8, over: u8, pct: usize) -> (v: u8)
    requires
        pct <= 100,
    ensures
        v == spec_blend(base, over, pct as int),
{
    proof {
        lemma_blend_is_byte(base, over, pct as int);
    }
    let below: usize = (base as usize) * (100 - pct) / 100;
    let above: usize = (over as usize) * pct / 100;
    (below + above) as u8
}

/// Lays the colour `over` upon the pixel `base` at `pct` percent opacity.
pub fn mix(base: [u8; 4], over: [u8; 4], pct: usize) -> (px: [u8; 4])
    requires
        pct <= 100,
    ensures
        px@ == spec_mix(base@, over@, pct as int),
{
    let ground: [u8; 4] = if base[3] < 255 {
        [0, 0, 0, 255]
    } else {
        base
    };
    assert(ground@ =~= spec_ground(base@));
    let px: [u8; 4] = [
        blend(ground[0], over[0], pct),
        blend(ground[1], over[1], pct),
        blend(ground[2], over[2], pct),
        blend(ground[3], over[3], pct),
    ];
    assert(px@ =~= spec_mix(base@, over@, pct as int));
    px
}

/// How many pixels of one axis the changes between `lo` and `hi` take up with `margin` on
/// both sides, but no more than the tile has.
pub open spec fn spec_window_span(lo: int, hi: int, margin: int, canvas: int) -> int {
    let padded = hi - lo + 1 + 2 * margin;
    if padded < canvas {
        padded
    } else {
        canvas
    }
}

/// The length of the window on one axis: the padded span, but at least `least`.
pub open spec fn spec_window_extent(lo: int, hi: int, margin: int, least: int, canvas: int) -> int {
    let span = spec_window_span(lo, hi, margin, canvas);
    if least > span {
        least
    } else {
        span
    }
}

/// Where the window starts on one axis. It is placed so that the changes sit in its middle,
/// moved back by what would stick out beyond the far edge of the tile, and never starts before
/// the near edge.
pub open spec fn spec_window_start(lo: int, hi: int, margin: int, least: int, canvas: int) -> int {
    let span = spec_window_span(lo, hi, margin, canvas);
    let extent = spec_window_extent(lo, hi, margin, least, canvas);
    let slack = if least > span {
        least - span
    } else {
        0
    };
    let centred = lo - (margin + slack / 2);
    let held = if centred + extent > canvas {
        canvas - extent
    } else {
        centred
    };
    if held < 0 {
        0
    } else {
        held
    }
}

/// The window never leaves the tile, is never empty, and holds every pixel between `lo` and
/// `hi` that the tile holds.
pub proof fn lemma_window_in_canvas(lo: int, hi: int, margin: int, least: int, canvas: int)
    requires
        0 <= lo <= hi,
        0 <= margin,
        0 <= least <= canvas,
        1 <= canvas,
    ensures
        0 <= spec_window_start(lo, hi, margin, least, canvas),
        1 <= spec_window_extent(lo, hi, margin, least, canvas),
        least <= spec_window_extent(lo, hi, margin, least, canvas) <= canvas,
        spec_window_start(lo, hi, margin, least, canvas) + spec_window_extent(
            lo,
            hi,
            margin,
            least,
            canvas,
        ) <= canvas,
        hi < canvas ==> spec_window_start(lo, hi, margin, least, canvas) <= lo && hi
            < spec_window_start(lo, hi, margin, least, canvas) + spec_window_extent(
            lo,
            hi,
            margin,
            least,
            canvas,
        ),
{
}

/// The window on one axis: where it starts and how long it is.
fn axis_window(lo: usize, hi: usize, margin: usize, least: usize, canvas: usize) -> (w: (u32, u32))
    requires
        lo <= hi,
        least <= canvas <= 0xffff_ffff,
        1 <= canvas,
    ensures
        w.0 == spec_window_start(lo as int, hi as int, margin as int, least as int, canvas as int),
        w.1 == spec_window_extent(lo as int, hi as int, margin as int, least as int, canvas as int),
{
    proof {
        lemma_window_in_canvas(lo as int, hi as int, margin as int, least as int, canvas as int);
    }
    let lo_: i128 = lo as i128;
    let hi_: i128 = hi as i128;
    let margin_: i128 = margin as i128;
    let least_: i128 = least as i128;
    let canvas_: i128 = canvas as i128;
    let padded: i128 = hi_ - lo_ + 1 + 2 * margin_;
    let span: i128 = if padded < canvas_ {
        padded
    } else {
        canvas_
    };
    let extent: i128 = if least_ > span {
        least_
    } else {
        span
    };
    let slack: i128 = if least_ > span {
        least_ - span
    } else {
        0
    };
    let centred: i128 = lo_ - (margin_ + slack / 2);
    let held: i128 = if centred + extent > canvas_ {
        canvas_ - extent
    } else {
        centred
    };
    let start: i128 = if held < 0 {
        0
    } else {
        held
    };
    (start as u32, extent as u32)
}

/// The window that is cut out of a tile to show the changes inside `scp`: the place of its
/// left top corner, then its width and height.
pub open spec fn spec_sub_image_params(scp: ScopeRect, cfg: VisualizationConfig) -> Seq<u32> {
    let (lt, rb) = (scp.spec_left_top(), scp.spec_right_bottom());
    seq![
        spec_window_start(
            lt.x as int,
            rb.x as int,
            cfg.horizontal_margin as int,
            cfg.minimum_width as int,
            WPLACE_CHUNK_WIDTH as int,
        ) as u32,
        spec_window_start(
            lt.y as int,
            rb.y as int,
            cfg.vertical_margin as int,
            cfg.minimum_height as int,
            WPLACE_CHUNK_HEIGHT as int,
        ) as u32,
        spec_window_extent(
            lt.x as int,
            rb.x as int,
            cfg.horizontal_margin as int,
            cfg.minimum_width as int,
            WPLACE_CHUNK_WIDTH as int,
        ) as u32,
        spec_window_extent(
            lt.y as int,
            rb.y as int,
            cfg.vertical_margin as int,
            cfg.minimum_height as int,
            WPLACE_CHUNK_HEIGHT as int,
        ) as u32,
    ]
}

/// The window around `scp`: `[x, y, width, height]`. It lies inside the tile and is at least
/// one pixel wide and high.
pub fn get_sub_image_params(scp: ScopeRect, cfg: &VisualizationConfig) -> (win: [u32; 4])
    requires
        cfg.valid(),
    ensures
        win@ == spec_sub_image_params(scp, *cfg),
        win[0] + win[2] <= WPLACE_CHUNK_WIDTH,
        win[1] + win[3] <= WPLACE_CHUNK_HEIGHT,
        1 <= win[2],
        1 <= win[3],
        cfg.minimum_width <= win[2],
        cfg.minimum_height <= win[3],
{
    let lt = scp.left_top();
    let rb = scp.right_bottom();
    proof {
        lemma_window_in_canvas(
            lt.x as int,
            rb.x as int,
            cfg.horizontal_margin as int,
            cfg.minimum_width as int,
            WPLACE_CHUNK_WIDTH as int,
        );
        lemma_window_in_canvas(
            lt.y as int,
            rb.y as int,
            cfg.vertical_margin as int,
            cfg.minimum_height as int,
            WPLACE_CHUNK_HEIGHT as int,
        );
    }
    let (x, w) = axis_window(
        lt.x,
        rb.x,
        cfg.horizontal_margin,
        cfg.minimum_width,
        WPLACE_CHUNK_WIDTH,
    );
    let (y, h) = axis_window(
        lt.y,
        rb.y,
        cfg.vertical_margin,
        cfg.minimum_height,
        WPLACE_CHUNK_HEIGHT,
    );
    let win: [u32; 4] = [x, y, w, h];
    assert(win@ =~= spec_sub_image_params(scp, *cfg));
    win
}

/// `rect` is the bounding box of the places of `diffs`: its left top corner holds the least
/// `x` and the least `y`, its right bottom corner the greatest. Of no diffs at all it is the
/// rectangle that covers a whole tile.
pub open spec fn is_scope_of(rect: ScopeRect, diffs: Seq<Diff>) -> bool {
    let (lt, rb) = (rect.spec_left_top(), rect.spec_right_bottom());
    if diffs.len() == 0 {
        (lt, rb) == ScopeRect::spec_default()
    } else {
        &&& forall|i: int|
            0 <= i < diffs.len() ==> lt.x <= (#[trigger] diffs[i]).pos.x <= rb.x && lt.y
                <= diffs[i].pos.y <= rb.y
        &&& exists|i: int| 0 <= i < diffs.len() && (#[trigger] diffs[i]).pos.x == lt.x
        &&& exists|i: int| 0 <= i < diffs.len() && (#[trigger] diffs[i]).pos.y == lt.y
        &&& exists|i: int| 0 <= i < diffs.len() && (#[trigger] diffs[i]).pos.x == rb.x
        &&& exists|i: int| 0 <= i < diffs.len() && (#[trigger] diffs[i]).pos.y == rb.y
    }
}

/// The bounding box of the diffs, or the whole tile where there are none.
pub fn calc_scope_rect(diffs: &Vec<Diff>) -> (rect: ScopeRect)
    ensures
        is_scope_of(rect, diffs@),
{
    if diffs.len() == 0 {
        return ScopeRect::default();
    }
    let mut min_x: usize = diffs[0].pos.x;
    let mut min_y: usize = diffs[0].pos.y;
    let mut max_x: usize = diffs[0].pos.x;
    let mut max_y: usize = diffs[0].pos.y;
    let ghost mut at_min_x: int = 0;
    let ghost mut at_min_y: int = 0;
    let ghost mut at_max_x: int = 0;
    let ghost mut at_max_y: int = 0;
    let mut i: usize = 1;
    while i < diffs.len()
        invariant
            1 <= i <= diffs.len(),
            0 <= at_min_x < i && diffs@[at_min_x].pos.x == min_x,
            0 <= at_min_y < i && diffs@[at_min_y].pos.y == min_y,
            0 <= at_max_x < i && diffs@[at_max_x].pos.x == max_x,
            0 <= at_max_y < i && diffs@[at_max_y].pos.y == max_y,
            forall|k: int|
                0 <= k < i ==> min_x <= (#[trigger] diffs@[k]).pos.x <= max_x && min_y
                    <= diffs@[k].pos.y <= max_y,
        decreases diffs.len() - i,
    {
        let p = diffs[i].pos;
        if p.x < min_x {
            min_x = p.x;
            proof {
                at_min_x = i as int;
            }
        }
        if p.y < min_y {
            min_y = p.y;
            proof {
                at_min_y = i as int;
            }
        }
        if p.x > max_x {
            max_x = p.x;
            proof {
                at_max_x = i as int;
            }
        }
        if p.y > max_y {
            max_y = p.y;
            proof {
                at_max_y = i as int;
            }
        }
        i += 1;
    }
    ScopeRect { left_top: Position::new(min_x, min_y), right_bottom: Position::new(max_x, max_y) }
}

/// The bounding box of no diffs is the whole tile, and that of a single diff is the one
/// pixel where it lies.
pub proof fn lemma_scope_degenerate(rect: ScopeRect, diffs: Seq<Diff>)
    requires
        is_scope_of(rect, diffs),
        diffs.len() <= 1,
    ensures
        diffs.len() == 0 ==> rect.spec_left_top() == (Position { x: 0, y: 0 })
            && rect.spec_right_bottom() == (Position {
            x: WPLACE_CHUNK_WIDTH,
            y: WPLACE_CHUNK_HEIGHT,
        }),
        diffs.len() == 1 ==> rect.spec_left_top() == diffs[0].pos && rect.spec_right_bottom()
            == diffs[0].pos,
{
}

/// A list of diffs has one bounding box only.
pub proof fn lemma_scope_unique(a: ScopeRect, b: ScopeRect, diffs: Seq<Diff>)
    requires
        is_scope_of(a, diffs),
        is_scope_of(b, diffs),
    ensures
        a == b,
{
}

/// The three images are of one size.
pub open spec fn same_size(reference: &RgbaBitmap, mask: &GrayBitmap, current: &RgbaBitmap) -> bool {
    &&& mask.spec_width() == reference.spec_width()
    &&& mask.spec_height() == reference.spec_height()
    &&& current.spec_width() == reference.spec_width()
    &&& current.spec_height() == reference.spec_height()
}

/// Pixel `(x, y)` is watched, and is in `current` not what it is in `reference`: some byte of
/// it differs, alpha included.
pub open spec fn is_diff_at(
    reference: &RgbaBitmap,
    mask: &GrayBitmap,
    current: &RgbaBitmap,
    x: int,
    y: int,
) -> bool {
    mask.luma(x, y) == 255 && reference.pixel(x, y) != current.pixel(x, y)
}

/// The entries of `diffs` are in strictly ascending order of their places, by `x` first.
pub open spec fn diffs_ascend(diffs: Seq<Diff>) -> bool {
    forall|i: int, j: int|
        0 <= i < j < diffs.len() ==> (#[trigger] diffs[i]).pos.precedes((#[trigger] diffs[j]).pos)
}

/// `rec` is what comparing `current` with `reference` under `mask` gives: the bitmap is on
/// exactly at the changed pixels, the list holds exactly those pixels, once each and in
/// order, with what they are and what they should be, and the rectangle is their bounding
/// box.
pub open spec fn is_record_of(
    rec: &DiffRecord,
    reference: &RgbaBitmap,
    mask: &GrayBitmap,
    current: &RgbaBitmap,
) -> bool {
    &&& rec.diff_img.wf()
    &&& rec.diff_img.spec_width() == reference.spec_width()
    &&& rec.diff_img.spec_height() == reference.spec_height()
    &&& forall|x: int, y: int|
        reference.contains(x, y) ==> #[trigger] rec.diff_img.luma(x, y) == (if is_diff_at(
            reference,
            mask,
            current,
            x,
            y,
        ) {
            255u8
        } else {
            0u8
        })
    &&& forall|i: int|
        0 <= i < rec.diffs@.len() ==> {
            let d = #[trigger] rec.diffs@[i];
            &&& reference.contains(d.pos.x as int, d.pos.y as int)
            &&& is_diff_at(reference, mask, current, d.pos.x as int, d.pos.y as int)
            &&& d.ref_px@ == reference.pixel(d.pos.x as int, d.pos.y as int)
            &&& d.curr_px@ == current.pixel(d.pos.x as int, d.pos.y as int)
        }
    &&& forall|x: int, y: int|
        reference.contains(x, y) && #[trigger] is_diff_at(reference, mask, current, x, y)
            ==> exists|i: int|
            0 <= i < rec.diffs@.len() && (#[trigger] rec.diffs@[i]).pos.x == x && rec.diffs@[i].pos.y
                == y
    &&& diffs_ascend(rec.diffs@)
    &&& is_scope_of(rec.scope_rect, rec.diffs@)
}

fn pixels_differ(a: [u8; 4], b: [u8; 4]) -> (d: bool)
    ensures
        d == (a@ != b@),
{
    let d = a[0] != b[0] || a[1] != b[1] || a[2] != b[2] || a[3] != b[3];
    proof {
        if !d {
            assert(a@ =~= b@);
        }
    }
    d
}

fn differs_at(
    reference: &RgbaBitmap,
    mask: &GrayBitmap,
    current: &RgbaBitmap,
    x: u32,
    y: u32,
) -> (d: bool)
    requires
        same_size(reference, mask, current),
        reference.contains(x as int, y as int),
    ensures
        d == is_diff_at(reference, mask, current, x as int, y as int),
{
    mask.get_luma(x, y) == 0xFF && pixels_differ(
        reference.get_pixel(x, y),
        current.get_pixel(x, y),
    )
}

/// The bitmap of the changed pixels.
fn diff_bitmap(reference: &RgbaBitmap, mask: &GrayBitmap, current: &RgbaBitmap) -> (out: GrayBitmap)
    requires
        same_size(reference, mask, current),
    ensures
        out.wf(),
        out.spec_width() == reference.spec_width(),
        out.spec_height() == reference.spec_height(),
        forall|x: int, y: int|
            reference.contains(x, y) ==> #[trigger] out.luma(x, y) == (if is_diff_at(
                reference,
                mask,
                current,
                x,
                y,
            ) {
                255u8
            } else {
                0u8
            }),
{
    let (w, h) = reference.dimensions();
    let mut bits: Vec<u8> = Vec::new();
    let mut y: u32 = 0;
    while y < h
        invariant
            same_size(reference, mask, current),
            w == reference.spec_width(),
            h == reference.spec_height(),
            y <= h,
            bits@.len() == y * w,
            forall|x1: int, y1: int|
                0 <= x1 < w && 0 <= y1 < y ==> bits@[y1 * w + x1] == (if #[trigger] is_diff_at(
                    reference,
                    mask,
                    current,
                    x1,
                    y1,
                ) {
                    255u8
                } else {
                    0u8
                }),
        decreases h - y,
    {
        let mut x: u32 = 0;
        while x < w
            invariant
                same_size(reference, mask, current),
                w == reference.spec_width(),
                h == reference.spec_height(),
                y < h,
                x <= w,
                bits@.len() == y * w + x,
                forall|x1: int, y1: int|
                    0 <= x1 < w && 0 <= y1 && (y1 < y || (y1 == y && x1 < x)) ==> bits@[y1 * w
                        + x1] == (if #[trigger] is_diff_at(reference, mask, current, x1, y1) {
                        255u8
                    } else {
                        0u8
                    }),
            decreases w - x,
        {
            let bit: u8 = if differs_at(reference, mask, current, x, y) {
                0xFF
            } else {
                0
            };
            let ghost before = bits@;
            bits.push(bit);
            proof {
                assert forall|x1: int, y1: int|
                    0 <= x1 < w && 0 <= y1 && (y1 < y || (y1 == y && x1 < x + 1)) implies bits@[y1
                        * w + x1] == (if #[trigger] is_diff_at(reference, mask, current, x1, y1) {
                        255u8
                    } else {
                        0u8
                    }) by {
                    if y1 == y && x1 == x {
                    } else {
                        lemma_raster_order(w as int, x1, y1, x as int, y as int);
                        assert(bits@[y1 * w + x1] == before[y1 * w + x1]);
                    }
                }
            }
            x += 1;
        }
        proof {
            assert((y + 1) * w == y * w + w) by (nonlinear_arith);
        }
        y += 1;
    }
    proof {
        assert(raster_len(w as nat, h as nat, 1) == h * w) by (nonlinear_arith);
    }
    let out = GrayBitmap::from_parts(w, h, bits);
    proof {
        assert forall|x: int, y: int| reference.contains(x, y) implies #[trigger] out.luma(x, y)
            == (if is_diff_at(reference, mask, current, x, y) {
            255u8
        } else {
            0u8
        }) by {
            assert(raster_offset(w as nat, 1, x, y) == y * w + x);
        }
    }
    out
}

/// The changed pixels, column by column from the left, each column from the top.
fn collect_diffs(reference: &RgbaBitmap, mask: &GrayBitmap, current: &RgbaBitmap) -> (diffs: Vec<Diff>)
    requires
        same_size(reference, mask, current),
    ensures
        forall|i: int|
            0 <= i < diffs@.len() ==> {
                let d = #[trigger] diffs@[i];
                &&& reference.contains(d.pos.x as int, d.pos.y as int)
                &&& is_diff_at(reference, mask, current, d.pos.x as int, d.pos.y as int)
                &&& d.ref_px@ == reference.pixel(d.pos.x as int, d.pos.y as int)
                &&& d.curr_px@ == current.pixel(d.pos.x as int, d.pos.y as int)
            },
        forall|x: int, y: int|
            reference.contains(x, y) && #[trigger] is_diff_at(reference, mask, current, x, y)
                ==> exists|i: int|
                0 <= i < diffs@.len() && (#[trigger] diffs@[i]).pos.x == x && diffs@[i].pos.y == y,
        diffs_ascend(diffs@),
{
    let (w, h) = reference.dimensions();
    let mut diffs: Vec<Diff> = Vec::new();
    let mut x: u32 = 0;
    while x < w
        invariant
            same_size(reference, mask, current),
            w == reference.spec_width(),
            h == reference.spec_height(),
            x <= w,
            forall|i: int|
                0 <= i < diffs@.len() ==> {
                    let d = #[trigger] diffs@[i];
                    &&& reference.contains(d.pos.x as int, d.pos.y as int)
                    &&& d.pos.x < x
                    &&& is_diff_at(reference, mask, current, d.pos.x as int, d.pos.y as int)
                    &&& d.ref_px@ == reference.pixel(d.pos.x as int, d.pos.y as int)
                    &&& d.curr_px@ == current.pixel(d.pos.x as int, d.pos.y as int)
                },
            forall|x1: int, y1: int|
                0 <= x1 < x && 0 <= y1 < h && #[trigger] is_diff_at(
                    reference,
                    mask,
                    current,
                    x1,
                    y1,
                ) ==> exists|i: int|
                    0 <= i < diffs@.len() && (#[trigger] diffs@[i]).pos.x == x1 && diffs@[i].pos.y
                        == y1,
            diffs_ascend(diffs@),
        decreases w - x,
    {
        let mut y: u32 = 0;
        while y < h
            invariant
                same_size(reference, mask, current),
                w == reference.spec_width(),
                h == reference.spec_height(),
                x < w,
                y <= h,
                forall|i: int|
                    0 <= i < diffs@.len() ==> {
                        let d = #[trigger] diffs@[i];
                        &&& reference.contains(d.pos.x as int, d.pos.y as int)
                        &&& (d.pos.x < x || (d.pos.x == x && d.pos.y < y))
                        &&& is_diff_at(reference, mask, current, d.pos.x as int, d.pos.y as int)
                        &&& d.ref_px@ == reference.pixel(d.pos.x as int, d.pos.y as int)
                        &&& d.curr_px@ == current.pixel(d.pos.x as int, d.pos.y as int)
                    },
                forall|x1: int, y1: int|
                    0 <= x1 && 0 <= y1 < h && (x1 < x || (x1 == x && y1 < y)) && #[trigger] is_diff_at(
                        reference,
                        mask,
                        current,
                        x1,
                        y1,
                    ) ==> exists|i: int|
                        0 <= i < diffs@.len() && (#[trigger] diffs@[i]).pos.x == x1
                            && diffs@[i].pos.y == y1,
                diffs_ascend(diffs@),
            decreases h - y,
        {
            if differs_at(reference, mask, current, x, y) {
                let d = Diff {
                    pos: Position::new(x as usize, y as usize),
                    ref_px: reference.get_pixel(x, y),
                    curr_px: current.get_pixel(x, y),
                };
                let ghost before = diffs@;
                diffs.push(d);
                proof {
                    assert forall|x1: int, y1: int|
                        0 <= x1 && 0 <= y1 < h && (x1 < x || (x1 == x && y1 < y + 1))
                            && #[trigger] is_diff_at(
                            reference,
                            mask,
                            current,
                            x1,
                            y1,
                        ) implies exists|i: int|
                        0 <= i < diffs@.len() && (#[trigger] diffs@[i]).pos.x == x1
                            && diffs@[i].pos.y == y1 by {
                        if x1 == x && y1 == y {
                            assert(diffs@[before.len() as int].pos.x == x1);
                        } else {
                            let i = choose|i: int|
                                0 <= i < before.len() && (#[trigger] before[i]).pos.x == x1
                                    && before[i].pos.y == y1;
                            assert(diffs@[i] == before[i]);
                        }
                    }
                    assert forall|i: int, j: int| 0 <= i < j < diffs@.len() implies (
                    #[trigger] diffs@[i]).pos.precedes((#[trigger] diffs@[j]).pos) by {
                        if j < before.len() {
                            assert(diffs@[i] == before[i]);
                            assert(diffs@[j] == before[j]);
                        } else {
                            assert(diffs@[i] == before[i]);
                        }
                    }
                }
            }
            y += 1;
        }
        x += 1;
    }
    diffs
}

/// Compares `current` with `reference` wherever `mask` is on. The three images have to be of
/// one size: otherwise nothing is compared.
pub fn find_diffs(reference: &RgbaBitmap, mask: &GrayBitmap, current: &RgbaBitmap) -> (r: Result<
    DiffRecord,
    AlgorithmError,
>)
    ensures
        r.is_ok() <==> same_size(reference, mask, current),
        r matches Ok(rec) ==> is_record_of(&rec, reference, mask, current),
        r matches Err(e) ==> e == AlgorithmError::SizeMismatch,
{
    let (w, h) = reference.dimensions();
    let (mw, mh) = mask.dimensions();
    let (cw, ch) = current.dimensions();
    if mw != w || mh != h || cw != w || ch != h {
        return Err(AlgorithmError::SizeMismatch);
    }
    let diff_img = diff_bitmap(reference, mask, current);
    let diffs = collect_diffs(reference, mask, current);
    let scope_rect = calc_scope_rect(&diffs);
    let ghost listed = diffs@;
    let rec = DiffRecord { scope_rect, diffs, diff_img };
    proof {
        assert(rec.diffs@ == listed);
        assert forall|x: int, y: int|
            reference.contains(x, y) && #[trigger] is_diff_at(
                reference,
                mask,
                current,
                x,
                y,
            ) implies exists|i: int|
            0 <= i < rec.diffs@.len() && (#[trigger] rec.diffs@[i]).pos.x == x
                && rec.diffs@[i].pos.y == y by {
            let i = choose|i: int|
                0 <= i < listed.len() && (#[trigger] listed[i]).pos.x == x && listed[i].pos.y == y;
            assert(rec.diffs@[i].pos.x == x);
        }
    }
    Ok(rec)
}

/// The colour that is laid over a pixel: that of a changed pixel where the diff bitmap is
/// on, else that of a watched pixel where the mask is on, else that of an unwatched pixel.
pub open spec fn spec_overlay(mask_luma: u8, diff_luma: u8, cfg: VisualizationConfig) -> Seq<u8> {
    if diff_luma == 255 {
        spec_rgba_of(cfg.abnormal_color as int)
    } else if mask_luma == 255 {
        spec_rgba_of(cfg.normal_color as int)
    } else {
        spec_rgba_of(cfg.unmasked_color as int)
    }
}

/// Pixel `(x, y)` of the drawing of a whole tile: the overlay colour upon the reference.
pub open spec fn spec_composite_pixel(
    reference: &RgbaBitmap,
    mask: &GrayBitmap,
    diff_img: &GrayBitmap,
    cfg: VisualizationConfig,
    x: int,
    y: int,
) -> Seq<u8> {
    spec_mix(
        reference.pixel(x, y),
        spec_overlay(mask.luma(x, y), diff_img.luma(x, y), cfg),
        cfg.diff_img_opacity_pct as int,
    )
}

/// The drawing of a whole tile, as large as the reference.
pub open spec fn spec_composite(
    reference: &RgbaBitmap,
    mask: &GrayBitmap,
    diff_img: &GrayBitmap,
    cfg: VisualizationConfig,
) -> Seq<u8> {
    raster_of(
        reference.spec_width(),
        reference.spec_height(),
        4,
        |x: int, y: int| spec_composite_pixel(reference, mask, diff_img, cfg, x, y),
    )
}

/// Draws a whole tile: every pixel of the reference under the colour of its kind.
pub fn composite(
    reference: &RgbaBitmap,
    mask: &GrayBitmap,
    diff_img: &GrayBitmap,
    cfg: &VisualizationConfig,
) -> (out: RgbaBitmap)
    requires
        cfg.diff_img_opacity_pct <= 100,
        mask.spec_width() == reference.spec_width(),
        mask.spec_height() == reference.spec_height(),
        diff_img.spec_width() == reference.spec_width(),
        diff_img.spec_height() == reference.spec_height(),
    ensures
        out.wf(),
        out.spec_width() == reference.spec_width(),
        out.spec_height() == reference.spec_height(),
        out@ == spec_composite(reference, mask, diff_img, *cfg),
{
    let (w, h) = reference.dimensions();
    let abnormal = rgb_usize_to_rgba(cfg.abnormal_color);
    let normal = rgb_usize_to_rgba(cfg.normal_color);
    let unmasked = rgb_usize_to_rgba(cfg.unmasked_color);
    let pct = cfg.diff_img_opacity_pct;
    let ghost px = |x: int, y: int| spec_composite_pixel(reference, mask, diff_img, *cfg, x, y);
    let mut data: Vec<u8> = Vec::new();
    let mut y: u32 = 0;
    while y < h
        invariant
            pct == cfg.diff_img_opacity_pct <= 100,
            abnormal@ == spec_rgba_of(cfg.abnormal_color as int),
            normal@ == spec_rgba_of(cfg.normal_color as int),
            unmasked@ == spec_rgba_of(cfg.unmasked_color as int),
            mask.spec_width() == reference.spec_width(),
            mask.spec_height() == reference.spec_height(),
            diff_img.spec_width() == reference.spec_width(),
            diff_img.spec_height() == reference.spec_height(),
            w == reference.spec_width(),
            h == reference.spec_height(),
            y <= h,
            data@.len() == 4 * (y * w),
            forall|x1: int, y1: int| #[trigger]
                px(x1, y1) == spec_composite_pixel(reference, mask, diff_img, *cfg, x1, y1),
            forall|x1: int, y1: int, c: int|
                0 <= x1 < w && 0 <= y1 < y && 0 <= c < 4 ==> data@[raster_offset(
                    w as nat,
                    4,
                    x1,
                    y1,
                ) + c] == #[trigger] px(x1, y1)[c],
        decreases h - y,
    {
        let mut x: u32 = 0;
        while x < w
            invariant
                pct == cfg.diff_img_opacity_pct <= 100,
                abnormal@ == spec_rgba_of(cfg.abnormal_color as int),
                normal@ == spec_rgba_of(cfg.normal_color as int),
                unmasked@ == spec_rgba_of(cfg.unmasked_color as int),
                mask.spec_width() == reference.spec_width(),
                mask.spec_height() == reference.spec_height(),
                diff_img.spec_width() == reference.spec_width(),
                diff_img.spec_height() == reference.spec_height(),
                w == reference.spec_width(),
                h == reference.spec_height(),
                y < h,
                x <= w,
                data@.len() == 4 * (y * w + x),
                forall|x1: int, y1: int| #[trigger]
                    px(x1, y1) == spec_composite_pixel(reference, mask, diff_img, *cfg, x1, y1),
                forall|x1: int, y1: int, c: int|
                    0 <= x1 < w && 0 <= y1 && (y1 < y || (y1 == y && x1 < x)) && 0 <= c < 4
                        ==> data@[raster_offset(w as nat, 4, x1, y1) + c] == #[trigger] px(
                        x1,
                        y1,
                    )[c],
            decreases w - x,
        {
            let m: u8 = mask.get_luma(x, y);
            let d: u8 = diff_img.get_luma(x, y);
            let over: [u8; 4] = if d == 0xFF {
                abnormal
            } else if m == 0xFF {
                normal
            } else {
                unmasked
            };
            let p = mix(reference.get_pixel(x, y), over, pct);
            let ghost before = data@;
            data.push(p[0]);
            data.push(p[1]);
            data.push(p[2]);
            data.push(p[3]);
            proof {
                assert(p@ == px(x as int, y as int));
                assert forall|x1: int, y1: int, c: int|
                    0 <= x1 < w && 0 <= y1 && (y1 < y || (y1 == y && x1 < x + 1)) && 0 <= c
                        < 4 implies data@[raster_offset(w as nat, 4, x1, y1) + c] == #[trigger] px(
                    x1,
                    y1,
                )[c] by {
                    if y1 == y && x1 == x {
                    } else {
                        lemma_raster_order(w as int, x1, y1, x as int, y as int);
                        assert(data@[raster_offset(w as nat, 4, x1, y1) + c]
                            == before[raster_offset(w as nat, 4, x1, y1) + c]);
                    }
                }
            }
            x += 1;
        }
        proof {
            assert((y + 1) * w == y * w + w) by (nonlinear_arith);
        }
        y += 1;
    }
    proof {
        assert(raster_len(w as nat, h as nat, 4) == 4 * (h * w)) by (nonlinear_arith);
        lemma_raster_of_intro(data@, w as nat, h as nat, 4, px);
        assert(px =~= (|x: int, y: int|
            spec_composite_pixel(reference, mask, diff_img, *cfg, x, y)));
    }
    RgbaBitmap::from_parts(w, h, data)
}

/// The four images are of one size.
pub open spec fn sizes_agree(
    reference: &RgbaBitmap,
    mask: &GrayBitmap,
    current: &RgbaBitmap,
    diff_img: &GrayBitmap,
) -> bool {
    &&& same_size(reference, mask, current)
    &&& diff_img.spec_width() == reference.spec_width()
    &&& diff_img.spec_height() == reference.spec_height()
}

/// The window around `scp` lies inside an image of the size of `reference`.
pub open spec fn window_fits(reference: &RgbaBitmap, scp: ScopeRect, cfg: VisualizationConfig) -> bool {
    let win = spec_sub_image_params(scp, cfg);
    win[0] + win[2] <= reference.spec_width() && win[1] + win[3] <= reference.spec_height()
}

/// By how much the window is enlarged: as often as its width goes into that of a tile.
pub open spec fn spec_zoom(scp: ScopeRect, cfg: VisualizationConfig) -> int {
    WPLACE_CHUNK_WIDTH as int / spec_sub_image_params(scp, cfg)[2] as int
}

/// The enlarged window is no larger than what a vector can hold on this machine.
pub open spec fn result_fits(scp: ScopeRect, cfg: VisualizationConfig) -> bool {
    let win = spec_sub_image_params(scp, cfg);
    let zoom = spec_zoom(scp, cfg);
    4 * (win[2] * zoom) * (win[3] * zoom) <= isize::MAX
}

/// The picture of a check: the drawing of the whole tile, cut down to the window around
/// `scp`, and that window enlarged by a whole factor.
pub open spec fn spec_visual_result(
    reference: &RgbaBitmap,
    mask: &GrayBitmap,
    diff_img: &GrayBitmap,
    scp: ScopeRect,
    cfg: VisualizationConfig,
) -> Seq<u8> {
    let win = spec_sub_image_params(scp, cfg);
    let zoom = spec_zoom(scp, cfg);
    nearest_resized(
        win[2],
        win[3],
        spec_crop(
            spec_composite(reference, mask, diff_img, cfg),
            reference.spec_width(),
            win[0] as nat,
            win[1] as nat,
            win[2] as nat,
            win[3] as nat,
        ),
        (win[2] * zoom) as u32,
        (win[3] * zoom) as u32,
    )
}

/// Draws the result of a check: the reference under a colour that tells changed, watched and
/// unwatched pixels apart, cut down to a window around the changes and enlarged so that it is
/// about as wide as a tile.
///
/// The four images have to be of one size, and large enough to hold the window. What
/// `current` holds is of no account: the changes are taken from `rec`.
pub fn gen_visual_result(
    reference: &RgbaBitmap,
    mask: &GrayBitmap,
    current: &RgbaBitmap,
    rec: &DiffRecord,
    cfg: &VisualizationConfig,
) -> (r: Result<RgbaBitmap, AlgorithmError>)
    requires
        cfg.valid(),
    ensures
        match r {
            Ok(img) => {
                &&& sizes_agree(reference, mask, current, &rec.diff_img)
                &&& window_fits(reference, rec.scope_rect, *cfg)
                &&& result_fits(rec.scope_rect, *cfg)
                &&& img.wf()
                &&& img.spec_width() == spec_sub_image_params(rec.scope_rect, *cfg)[2] * spec_zoom(
                    rec.scope_rect,
                    *cfg,
                )
                &&& img.spec_height() == spec_sub_image_params(rec.scope_rect, *cfg)[3]
                    * spec_zoom(rec.scope_rect, *cfg)
                &&& img@ == spec_visual_result(reference, mask, &rec.diff_img, rec.scope_rect, *cfg)
            },
            Err(AlgorithmError::SizeMismatch) => !sizes_agree(
                reference,
                mask,
                current,
                &rec.diff_img,
            ),
            Err(AlgorithmError::WindowOutOfImage) => sizes_agree(
                reference,
                mask,
                current,
                &rec.diff_img,
            ) && !window_fits(reference, rec.scope_rect, *cfg),
            Err(AlgorithmError::ResultTooLarge) => sizes_agree(
                reference,
                mask,
                current,
                &rec.diff_img,
            ) && window_fits(reference, rec.scope_rect, *cfg) && !result_fits(
                rec.scope_rect,
                *cfg,
            ),
        },
{
    let (width, height) = reference.dimensions();
    let (mw, mh) = mask.dimensions();
    let (cw, ch) = current.dimensions();
    let (dw, dh) = rec.diff_img.dimensions();
    if mw != width || mh != height || cw != width || ch != height || dw != width || dh != height {
        return Err(AlgorithmError::SizeMismatch);
    }
    let win = get_sub_image_params(rec.scope_rect, cfg);
    let x: u32 = win[0];
    let y: u32 = win[1];
    let w: u32 = win[2];
    let h: u32 = win[3];
    if x + w > width || y + h > height {
        return Err(AlgorithmError::WindowOutOfImage);
    }
    let factor: u32 = WPLACE_CHUNK_WIDTH as u32 / w;
    proof {
        let f = factor as int;
        assert(f == WPLACE_CHUNK_WIDTH as int / w as int);
        vstd::arithmetic::div_mod::lemma_fundamental_div_mod(WPLACE_CHUNK_WIDTH as int, w as int);
        vstd::arithmetic::div_mod::lemma_mod_pos_bound(WPLACE_CHUNK_WIDTH as int, w as int);
        vstd::arithmetic::div_mod::lemma_div_pos_is_pos(WPLACE_CHUNK_WIDTH as int, w as int);
        assert(1 <= f <= 1000 && w * f <= 1000 && w * f >= 1 && h * f <= 1_000_000 && h * f >= 1)
            by (nonlinear_arith)
            requires
                1000 == w * f + (1000int % (w as int)),
                0 <= (1000int % (w as int)) < w,
                1 <= w <= 1000,
                1 <= h <= 1000,
                0 <= f,
        ;
        assert(16 * w * (h * f) <= 16_000_000) by (nonlinear_arith)
            requires
                w * f <= 1000,
                1 <= h <= 1000,
                0 <= f,
                0 <= w,
        ;
    }
    let nw: u32 = w * factor;
    let nh: u32 = h * factor;
    assert(4 * (nw as int) * (nh as int) <= 4_000_000_000) by (nonlinear_arith)
        requires
            0 <= nw <= 1000,
            0 <= nh <= 1_000_000,
    ;
    assert(4 * (nw as int) >= 0);
    if 4u64 * (nw as u64) * (nh as u64) > isize::MAX as u64 {
        return Err(AlgorithmError::ResultTooLarge);
    }
    let whole = composite(reference, mask, &rec.diff_img, cfg);
    let window = whole.crop(x, y, w, h);
    let out = window.resized_nearest(nw, nh);
    Ok(out)
}

} // verus!
