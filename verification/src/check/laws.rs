use super::algorithms::{
    diffs_ascend, is_diff_at, is_record_of, lemma_scope_unique, spec_composite,
    spec_composite_pixel, spec_mix, spec_rgba_of, Diff, DiffRecord,
};
use crate::common::bitmap::{
    lemma_raster_index_inverse, lemma_raster_of_pixel, raster_offset, GrayBitmap, RgbaBitmap,
};
use crate::common::config::VisualizationConfig;
use crate::common::Position;
use vstd::prelude::*;
use vstd::relations::injective_on;
use vstd::set_lib::{lemma_int_range, lemma_map_size, set_int_range};

verus! {

/// The pixels that have changed: those that are watched and are in `current` not what they
/// are in `reference`.
pub open spec fn changed_pixels(
    reference: &RgbaBitmap,
    mask: &GrayBitmap,
    current: &RgbaBitmap,
) -> Set<(int, int)> {
    Set::new(
        |p: (int, int)| reference.contains(p.0, p.1) && is_diff_at(reference, mask, current, p.0, p.1),
    )
}

/// The pixels of a bitmap that are on.
pub open spec fn on_pixels(bitmap: &GrayBitmap) -> Set<(int, int)> {
    Set::new(|p: (int, int)| bitmap.contains(p.0, p.1) && bitmap.luma(p.0, p.1) == 255)
}

/// Every pixel of the drawing of a tile is the overlay colour of its kind upon the pixel of
/// the reference.
pub proof fn lemma_composite_pixel(
    reference: &RgbaBitmap,
    mask: &GrayBitmap,
    diff_img: &GrayBitmap,
    cfg: VisualizationConfig,
    x: int,
    y: int,
)
    requires
        reference.contains(x, y),
    ensures
        spec_composite(reference, mask, diff_img, cfg).subrange(
            raster_offset(reference.spec_width(), 4, x, y),
            raster_offset(reference.spec_width(), 4, x, y) + 4,
        ) == spec_composite_pixel(reference, mask, diff_img, cfg, x, y),
{
    lemma_raster_of_pixel(
        reference.spec_width(),
        reference.spec_height(),
        4,
        |x: int, y: int| spec_composite_pixel(reference, mask, diff_img, cfg, x, y),
        x,
        y,
    );
}

/// A pixel that is neither marked as changed nor watched is drawn in the colour of
/// unwatched pixels upon the reference. What the tile holds there has no part in it.
pub proof fn lemma_unwatched_pixel(
    reference: &RgbaBitmap,
    mask: &GrayBitmap,
    diff_img: &GrayBitmap,
    cfg: VisualizationConfig,
    x: int,
    y: int,
)
    requires
        reference.contains(x, y),
        mask.luma(x, y) != 255,
        diff_img.luma(x, y) != 255,
    ensures
        spec_composite(reference, mask, diff_img, cfg).subrange(
            raster_offset(reference.spec_width(), 4, x, y),
            raster_offset(reference.spec_width(), 4, x, y) + 4,
        ) == spec_mix(
            reference.pixel(x, y),
            spec_rgba_of(cfg.unmasked_color as int),
            cfg.diff_img_opacity_pct as int,
        ),
{
    lemma_composite_pixel(reference, mask, diff_img, cfg, x, y);
}

/// The bitmap of a record is on exactly at the changed pixels, and the record lists as many
/// diffs as its bitmap has pixels that are on.
pub proof fn lemma_diff_count(
    rec: &DiffRecord,
    reference: &RgbaBitmap,
    mask: &GrayBitmap,
    current: &RgbaBitmap,
)
    requires
        is_record_of(rec, reference, mask, current),
    ensures
        on_pixels(&rec.diff_img) == changed_pixels(reference, mask, current),
        on_pixels(&rec.diff_img).finite(),
        rec.diffs@.len() == on_pixels(&rec.diff_img).len(),
{
    let on = on_pixels(&rec.diff_img);
    let changed = changed_pixels(reference, mask, current);
    assert forall|p: (int, int)| on.contains(p) == changed.contains(p) by {
        if reference.contains(p.0, p.1) {
            assert(rec.diff_img.luma(p.0, p.1) == (if is_diff_at(
                reference,
                mask,
                current,
                p.0,
                p.1,
            ) {
                255u8
            } else {
                0u8
            }));
        }
    }
    assert(on =~= changed);
    let diffs = rec.diffs@;
    let places = set_int_range(0, diffs.len() as int);
    let place_of = |i: int| (diffs[i].pos.x as int, diffs[i].pos.y as int);
    lemma_int_range(0, diffs.len() as int);
    assert(injective_on(place_of, places)) by {
        assert forall|i: int, j: int|
            places.contains(i) && places.contains(j) && #[trigger] place_of(i) == #[trigger] place_of(
                j,
            ) implies i == j by {
            if i < j {
                assert(diffs[i].pos.precedes(diffs[j].pos));
            } else if j < i {
                assert(diffs[j].pos.precedes(diffs[i].pos));
            }
        }
    }
    assert forall|p: (int, int)| places.map(place_of).contains(p) == changed.contains(p) by {
        if changed.contains(p) {
            assert(is_diff_at(reference, mask, current, p.0, p.1));
            let i = choose|i: int|
                0 <= i < diffs.len() && (#[trigger] diffs[i]).pos.x == p.0 && diffs[i].pos.y == p.1;
            assert(places.contains(i) && place_of(i) == p);
        }
        if places.map(place_of).contains(p) {
            let i = choose|i: int| places.contains(i) && p == place_of(i);
            assert(reference.contains(diffs[i].pos.x as int, diffs[i].pos.y as int));
        }
    }
    assert(places.map(place_of) =~= changed);
    lemma_map_size(places, changed, place_of);
}

/// The list `diffs` holds a diff at the place `p`.
pub open spec fn lists_place(diffs: Seq<Diff>, p: Position) -> bool {
    exists|i: int| 0 <= i < diffs.len() && (#[trigger] diffs[i]).pos == p
}

/// Two lists of diffs that ascend and hold the same places hold them at the same indices.
proof fn lemma_ascending_lists_agree(a: Seq<Diff>, b: Seq<Diff>, k: int)
    requires
        diffs_ascend(a),
        diffs_ascend(b),
        a.len() == b.len(),
        forall|i: int| 0 <= i < a.len() ==> #[trigger] lists_place(b, a[i].pos),
        forall|j: int| 0 <= j < b.len() ==> #[trigger] lists_place(a, b[j].pos),
        0 <= k <= a.len(),
    ensures
        forall|i: int| 0 <= i < k ==> (#[trigger] a[i]).pos == b[i].pos,
    decreases k,
{
    if k > 0 {
        lemma_ascending_lists_agree(a, b, k - 1);
        let at = k - 1;
        assert(lists_place(b, a[at].pos));
        assert(lists_place(a, b[at].pos));
        let j = choose|j: int| 0 <= j < b.len() && (#[trigger] b[j]).pos == a[at].pos;
        let i = choose|i: int| 0 <= i < a.len() && (#[trigger] a[i]).pos == b[at].pos;
        if j < at {
            assert(a[j].pos == b[j].pos);
            assert(a[j].pos.precedes(a[at].pos));
        } else if j > at {
            assert(b[at].pos.precedes(b[j].pos));
            if i < at {
                assert(a[i].pos == b[i].pos);
                assert(b[i].pos.precedes(b[at].pos));
            } else if i > at {
                assert(a[at].pos.precedes(a[i].pos));
            }
        }
    }
}

/// A record lists every changed pixel, and nothing else.
proof fn lemma_record_lists(
    rec: &DiffRecord,
    reference: &RgbaBitmap,
    mask: &GrayBitmap,
    current: &RgbaBitmap,
    p: Position,
)
    requires
        is_record_of(rec, reference, mask, current),
    ensures
        lists_place(rec.diffs@, p) <==> reference.contains(p.x as int, p.y as int) && is_diff_at(
            reference,
            mask,
            current,
            p.x as int,
            p.y as int,
        ),
{
    if reference.contains(p.x as int, p.y as int) && is_diff_at(
        reference,
        mask,
        current,
        p.x as int,
        p.y as int,
    ) {
        let i = choose|i: int|
            0 <= i < rec.diffs@.len() && (#[trigger] rec.diffs@[i]).pos.x == p.x as int
                && rec.diffs@[i].pos.y == p.y as int;
        assert(rec.diffs@[i].pos == p);
    }
    if lists_place(rec.diffs@, p) {
        let i = choose|i: int| 0 <= i < rec.diffs@.len() && (#[trigger] rec.diffs@[i]).pos == p;
        assert(reference.contains(rec.diffs@[i].pos.x as int, rec.diffs@[i].pos.y as int));
    }
}

/// Two records of the same three images hold the same bitmap.
proof fn lemma_record_bitmap_unique(
    a: &DiffRecord,
    b: &DiffRecord,
    reference: &RgbaBitmap,
    mask: &GrayBitmap,
    current: &RgbaBitmap,
)
    requires
        is_record_of(a, reference, mask, current),
        is_record_of(b, reference, mask, current),
    ensures
        a.diff_img@ == b.diff_img@,
{
    let w = reference.spec_width();
    let h = reference.spec_height();
    assert forall|i: int| 0 <= i < a.diff_img@.len() implies a.diff_img@[i] == b.diff_img@[i] by {
        lemma_raster_index_inverse(w, h, 1, i);
        let x = (i / 1) % (w as int);
        let y = (i / 1) / (w as int);
        assert(reference.contains(x, y));
        assert(a.diff_img.luma(x, y) == b.diff_img.luma(x, y));
    }
    assert(a.diff_img@ =~= b.diff_img@);
}

/// Two records of the same three images hold the same list of diffs.
proof fn lemma_record_list_unique(
    a: &DiffRecord,
    b: &DiffRecord,
    reference: &RgbaBitmap,
    mask: &GrayBitmap,
    current: &RgbaBitmap,
)
    requires
        is_record_of(a, reference, mask, current),
        is_record_of(b, reference, mask, current),
    ensures
        a.diffs@ == b.diffs@,
{
    let da = a.diffs@;
    let db = b.diffs@;
    lemma_diff_count(a, reference, mask, current);
    lemma_diff_count(b, reference, mask, current);
    assert(da.len() == db.len());
    assert forall|i: int| 0 <= i < da.len() implies #[trigger] lists_place(db, da[i].pos) by {
        lemma_record_lists(a, reference, mask, current, da[i].pos);
        lemma_record_lists(b, reference, mask, current, da[i].pos);
    }
    assert forall|j: int| 0 <= j < db.len() implies #[trigger] lists_place(da, db[j].pos) by {
        lemma_record_lists(a, reference, mask, current, db[j].pos);
        lemma_record_lists(b, reference, mask, current, db[j].pos);
    }
    lemma_ascending_lists_agree(da, db, da.len() as int);
    assert forall|i: int| 0 <= i < da.len() implies da[i] == db[i] by {
        assert(da[i].pos == db[i].pos);
        assert(da[i].ref_px@ == db[i].ref_px@);
        assert(da[i].curr_px@ == db[i].curr_px@);
        vstd::array::axiom_array_ext_equal(da[i].ref_px, db[i].ref_px);
        vstd::array::axiom_array_ext_equal(da[i].curr_px, db[i].curr_px);
        assert(da[i].ref_px =~= db[i].ref_px);
        assert(da[i].curr_px =~= db[i].curr_px);
    }
    assert(da =~= db);
}

/// A comparison has one record only: two records of the same three images hold the same
/// bitmap, the same list of diffs and the same rectangle.
pub proof fn lemma_record_unique(
    a: &DiffRecord,
    b: &DiffRecord,
    reference: &RgbaBitmap,
    mask: &GrayBitmap,
    current: &RgbaBitmap,
)
    requires
        is_record_of(a, reference, mask, current),
        is_record_of(b, reference, mask, current),
    ensures
        a.diff_img@ == b.diff_img@,
        a.diffs@ == b.diffs@,
        a.scope_rect == b.scope_rect,
{
    lemma_record_bitmap_unique(a, b, reference, mask, current);
    lemma_record_list_unique(a, b, reference, mask, current);
    lemma_scope_unique(a.scope_rect, b.scope_rect, a.diffs@);
}

} // verus!
