use super::algorithms::{
    find_diffs, gen_visual_result, is_record_of, result_fits, same_size, spec_sub_image_params,
    spec_visual_result, spec_zoom, window_fits, AlgorithmError, DiffRecord,
};
use super::events::{Event, RetryTimes};
use crate::common::bitmap::{GrayBitmap, RgbaBitmap};
use crate::common::config::VisualizationConfig;
use crate::common::png::{
    gray_png_bytes, png_gray_pixels, png_rgba_pixels, rgba_png_bytes, well_sized, CodecError,
    ImagePng,
};
use crate::repos::domains::{ChunkId, FiefId};
use std::collections::HashMap;
use vstd::prelude::*;

verus! {

broadcast use vstd::std_specs::hash::group_hash_axioms;

/// After this many failed checks in a row a fief is no longer checked again at once.
pub const MAX_RETRY_TIMES: usize = 3;

/// How the check of one chunk ended.
#[derive(Debug, Clone, Copy, PartialEq, Eq, Structural)]
pub enum ChunkOutcome {
    /// Nothing has changed, or there was nothing to compare with.
    Clean,
    /// Some watched pixel has changed.
    Dirty,
    /// The chunk could not be checked.
    Failed,
}

/// What is known of a fief when its chunks have been gone through.
#[derive(Debug, Clone, PartialEq, Eq)]
pub enum FiefReport {
    /// The list of its chunks could not be read: no chunk was tried.
    Unreadable,
    /// Its chunks, in the order in which they were checked, each with how it ended.
    Checked(Vec<(ChunkId, ChunkOutcome)>),
}

/// What is to be done when the check of a fief is over.
#[derive(Debug, Clone, PartialEq, Eq)]
pub struct Verdict {
    /// Whether the time of the last check is set to now. Where it is not, the fief stays due
    /// and is checked again on the next sweep.
    pub advance_last_check: bool,
    /// What the outside is told.
    pub event: Event,
}

/// The check of the fief has failed: its chunks could not be listed, or one of them could
/// not be checked.
pub open spec fn spec_errored(report: FiefReport) -> bool {
    match report {
        FiefReport::Unreadable => true,
        FiefReport::Checked(outcomes) => exists|i: int|
            0 <= i < outcomes@.len() && (#[trigger] outcomes@[i]).1 == ChunkOutcome::Failed,
    }
}

/// The chunks that have changed, in the order in which they were checked.
pub open spec fn spec_dirty(outcomes: Seq<(ChunkId, ChunkOutcome)>) -> Seq<ChunkId> {
    outcomes.filter_map(
        |o: (ChunkId, ChunkOutcome)|
            if o.1 == ChunkOutcome::Dirty {
                Some(o.0)
            } else {
                None
            },
    )
}

/// The count of failures of a fief after one more: it grows by one until it has passed
/// `MAX_RETRY_TIMES`, and stays there.
pub open spec fn spec_next_retries(counter: nat) -> nat {
    if counter < MAX_RETRY_TIMES {
        counter + 1
    } else {
        (MAX_RETRY_TIMES + 1) as nat
    }
}

/// The count of failures that is kept for a fief: none is as good as zero.
pub open spec fn spec_retries_of(retries: Map<i64, usize>, fief_id: FiefId) -> nat {
    if retries.contains_key(fief_id.0) {
        retries[fief_id.0] as nat
    } else {
        0
    }
}

/// Decides what follows from the check of each fief, and keeps count of the checks of a fief
/// that failed in a row.
pub struct Checker {
    retries: HashMap<i64, usize>,
}

impl View for Checker {
    type V = Map<i64, usize>;

    /// The count of failures in a row, by the key of the fief. A fief whose last check went
    /// through has none.
    closed spec fn view(&self) -> Map<i64, usize> {
        self.retries@
    }
}

impl Checker {
    pub fn new() -> (c: Self)
        ensures
            c@ == Map::<i64, usize>::empty(),
    {
        Self { retries: HashMap::new() }
    }

    /// How many checks of the fief have failed in a row.
    pub fn retries_of(&self, fief_id: FiefId) -> (n: usize)
        ensures
            n == spec_retries_of(self@, fief_id),
    {
        match self.retries.get(&fief_id.0) {
            Some(n) => *n,
            None => 0,
        }
    }

    /// Draws the conclusion from the check of one fief.
    ///
    /// Where the check failed, the count of failures grows, the outside is told how many
    /// checks had failed before, and the time of the last check moves on only once the count
    /// has passed `MAX_RETRY_TIMES`. Where it went through, the count is dropped, the time of
    /// the last check moves on, and the outside is told which chunks have changed, or that
    /// none has.
    pub fn check_one(&mut self, fief_id: FiefId, report: &FiefReport) -> (verdict: Verdict)
        ensures
            spec_errored(*report) ==> {
                let times = spec_next_retries(spec_retries_of(old(self)@, fief_id));
                &&& final(self)@ == old(self)@.insert(fief_id.0, times as usize)
                &&& verdict.advance_last_check == (times > MAX_RETRY_TIMES)
                &&& verdict.event == Event::CheckFailed(fief_id, RetryTimes((times - 1) as usize))
            },
            !spec_errored(*report) ==> {
                &&& final(self)@ == old(self)@.remove(fief_id.0)
                &&& verdict.advance_last_check
                &&& report matches FiefReport::Checked(outcomes) && match verdict.event {
                    Event::DiffFound(f, ids) => f == fief_id && ids@.len() > 0 && ids@
                        == spec_dirty(outcomes@),
                    Event::CheckSuccess(f) => f == fief_id && spec_dirty(outcomes@).len() == 0,
                    _ => false,
                }
            },
    {
        let mut failed_chunks: Vec<ChunkId> = Vec::new();
        let mut errored: bool = false;
        match report {
            FiefReport::Unreadable => {
                errored = true;
            },
            FiefReport::Checked(outcomes) => {
                let mut i: usize = 0;
                while i < outcomes.len()
                    invariant
                        i <= outcomes@.len(),
                        errored == (exists|k: int|
                            0 <= k < i && (#[trigger] outcomes@[k]).1 == ChunkOutcome::Failed),
                        failed_chunks@ == spec_dirty(outcomes@.take(i as int)),
                    decreases outcomes@.len() - i,
                {
                    let (id, outcome) = outcomes[i];
                    proof {
                        assert(outcomes@.take(i + 1).drop_last() =~= outcomes@.take(i as int));
                        assert(outcomes@.take(i + 1).last() == outcomes@[i as int]);
                    }
                    match outcome {
                        ChunkOutcome::Clean => {},
                        ChunkOutcome::Dirty => {
                            failed_chunks.push(id);
                        },
                        ChunkOutcome::Failed => {
                            errored = true;
                        },
                    }
                    i += 1;
                }
                proof {
                    assert(outcomes@.take(i as int) =~= outcomes@);
                }
            },
        }
        if errored {
            let counter: usize = self.retries_of(fief_id);
            let times: usize = if counter < MAX_RETRY_TIMES {
                counter + 1
            } else {
                MAX_RETRY_TIMES + 1
            };
            self.retries.insert(fief_id.0, times);
            return Verdict {
                advance_last_check: times > MAX_RETRY_TIMES,
                event: Event::CheckFailed(fief_id, RetryTimes(times - 1)),
            };
        }
        self.retries.remove(&fief_id.0);
        if failed_chunks.len() > 0 {
            Verdict { advance_last_check: true, event: Event::DiffFound(fief_id, failed_chunks) }
        } else {
            Verdict { advance_last_check: true, event: Event::CheckSuccess(fief_id) }
        }
    }
}

/// The count of failures of a fief that had none, after `n` checks that failed in a row.
pub open spec fn spec_retries_after(n: nat) -> nat
    decreases n,
{
    if n == 0 {
        0
    } else {
        spec_next_retries(spec_retries_after((n - 1) as nat))
    }
}

/// Of a run of failed checks of one fief, the `n`-th tells of `n - 1` earlier failures, but
/// of no more than `MAX_RETRY_TIMES`; and the time of the last check moves on from the first
/// failure after `MAX_RETRY_TIMES` of them.
pub proof fn lemma_retry_ceiling(n: nat)
    requires
        n >= 1,
    ensures
        spec_retries_after(n) - 1 == (if n - 1 < MAX_RETRY_TIMES {
            n - 1
        } else {
            MAX_RETRY_TIMES as int
        }),
        spec_retries_after(n) > MAX_RETRY_TIMES <==> n > MAX_RETRY_TIMES,
    decreases n,
{
    if n > 1 {
        lemma_retry_ceiling((n - 1) as nat);
    } else {
        assert(spec_retries_after(0) == 0);
    }
}

/// What the check of a chunk begins with.
#[derive(Debug, Clone, PartialEq, Eq)]
pub enum ChunkStep {
    /// There is nothing to compare with: the chunk is passed over. The outside is told the
    /// event, and the check of the chunk ends as the outcome says. No tile is fetched and
    /// nothing is stored for the chunk.
    Skip(Event, ChunkOutcome),
    /// Reference and mask are there: the tile is to be fetched and compared.
    Compare(ImagePng, ImagePng),
}

/// Why a chunk could not be examined.
#[derive(Debug)]
pub enum CheckError {
    /// One of the three images could not be decoded.
    Codec(CodecError),
    /// The images could not be compared, or the result could not be drawn.
    Algorithm(AlgorithmError),
}

/// What the examination of a chunk gives to store. An image that could not be encoded is
/// stored as none.
#[derive(Debug, Clone, PartialEq, Eq)]
pub struct ChunkReport {
    pub diff_img: Option<ImagePng>,
    pub diff_count: usize,
    pub result_img: Option<ImagePng>,
}

impl ChunkReport {
    /// A chunk is clean where no pixel has changed.
    pub fn outcome(&self) -> (o: ChunkOutcome)
        ensures
            o == (if self.diff_count == 0 {
                ChunkOutcome::Clean
            } else {
                ChunkOutcome::Dirty
            }),
    {
        if self.diff_count == 0 {
            ChunkOutcome::Clean
        } else {
            ChunkOutcome::Dirty
        }
    }
}

/// Looks at what is stored of a chunk. Without a reference, or else without a mask, the chunk
/// is passed over: the outside is told which of the two is missing, and the chunk counts as
/// clean.
pub fn begin_chunk(
    fief_id: FiefId,
    chunk_id: ChunkId,
    reference: Option<ImagePng>,
    mask: Option<ImagePng>,
) -> (step: ChunkStep)
    ensures
        step == (match (reference, mask) {
            (None, _) => ChunkStep::Skip(
                Event::ChunkRefMissing(fief_id, chunk_id),
                ChunkOutcome::Clean,
            ),
            (Some(_), None) => ChunkStep::Skip(
                Event::ChunkMaskMissing(fief_id, chunk_id),
                ChunkOutcome::Clean,
            ),
            (Some(r), Some(m)) => ChunkStep::Compare(r, m),
        }),
{
    match reference {
        None => ChunkStep::Skip(Event::ChunkRefMissing(fief_id, chunk_id), ChunkOutcome::Clean),
        Some(r) => match mask {
            None => ChunkStep::Skip(
                Event::ChunkMaskMissing(fief_id, chunk_id),
                ChunkOutcome::Clean,
            ),
            Some(m) => ChunkStep::Compare(r, m),
        },
    }
}

/// How the check of a chunk ended, given how far it got: a check that broke off, for
/// whatever reason, has failed; one that ran to its end ended as it says.
pub fn settle_chunk<E>(checked: &Result<ChunkOutcome, E>) -> (outcome: ChunkOutcome)
    ensures
        outcome == (match *checked {
            Ok(o) => o,
            Err(_) => ChunkOutcome::Failed,
        }),
{
    match checked {
        Ok(o) => *o,
        Err(_) => ChunkOutcome::Failed,
    }
}

/// Only a chunk whose check ended with changed pixels is told as changed: a chunk that was
/// passed over or found unchanged is not among them, and neither is one that failed.
pub proof fn lemma_dirty_chunks_are_dirty(outcomes: Seq<(ChunkId, ChunkOutcome)>, id: ChunkId)
    requires
        spec_dirty(outcomes).contains(id),
    ensures
        exists|i: int|
            0 <= i < outcomes.len() && #[trigger] outcomes[i] == (id, ChunkOutcome::Dirty),
{
    let pick = |o: (ChunkId, ChunkOutcome)|
        if o.1 == ChunkOutcome::Dirty {
            Some(o.0)
        } else {
            None
        };
    outcomes.lemma_filter_map_contains(pick, id);
    let t = choose|t: (ChunkId, ChunkOutcome)| #[trigger] outcomes.contains(t) && pick(t) == Some(id);
    let i = choose|i: int| 0 <= i < outcomes.len() && outcomes[i] == t;
    assert(outcomes[i] == (id, ChunkOutcome::Dirty));
}

/// The bytes of an encoded image that may be missing.
pub open spec fn spec_bytes(img: Option<ImagePng>) -> Option<Seq<u8>> {
    match img {
        Some(i) => Some(i@),
        None => None,
    }
}

/// `r` is what the examination of three images gives, `rec` being the record of their
/// comparison: the count of the changed pixels, the encoded bitmap of the changes and the
/// encoded picture of the check; or the reason why the picture could not be drawn.
pub open spec fn is_examination_of(
    r: Result<ChunkReport, AlgorithmError>,
    rec: &DiffRecord,
    reference: &RgbaBitmap,
    mask: &GrayBitmap,
    cfg: VisualizationConfig,
) -> bool {
    let win = spec_sub_image_params(rec.scope_rect, cfg);
    let zoom = spec_zoom(rec.scope_rect, cfg);
    match r {
        Ok(report) => {
            &&& window_fits(reference, rec.scope_rect, cfg)
            &&& result_fits(rec.scope_rect, cfg)
            &&& report.diff_count == rec.diffs@.len()
            &&& spec_bytes(report.diff_img) == gray_png_bytes(
                rec.diff_img.spec_width() as u32,
                rec.diff_img.spec_height() as u32,
                rec.diff_img@,
            )
            &&& spec_bytes(report.result_img) == rgba_png_bytes(
                (win[2] * zoom) as u32,
                (win[3] * zoom) as u32,
                spec_visual_result(reference, mask, &rec.diff_img, rec.scope_rect, cfg),
            )
        },
        Err(AlgorithmError::SizeMismatch) => false,
        Err(AlgorithmError::WindowOutOfImage) => !window_fits(reference, rec.scope_rect, cfg),
        Err(AlgorithmError::ResultTooLarge) => window_fits(reference, rec.scope_rect, cfg)
            && !result_fits(rec.scope_rect, cfg),
    }
}

/// `r` is what the examination of the three images gives: the refusal to compare images of
/// different sizes, or else what `is_examination_of` says of the record of their comparison.
pub open spec fn is_examined(
    r: Result<ChunkReport, AlgorithmError>,
    reference: &RgbaBitmap,
    mask: &GrayBitmap,
    current: &RgbaBitmap,
    cfg: VisualizationConfig,
) -> bool {
    if same_size(reference, mask, current) {
        exists|rec: DiffRecord|
            #[trigger] is_record_of(&rec, reference, mask, current) && is_examination_of(
                r,
                &rec,
                reference,
                mask,
                cfg,
            )
    } else {
        r == Err::<ChunkReport, AlgorithmError>(AlgorithmError::SizeMismatch)
    }
}

/// Compares a tile with its reference under its mask and draws the result.
///
/// Images of different sizes are not compared. Otherwise the result tells how many pixels
/// have changed and holds, encoded, the bitmap of the changes and the picture of the check.
pub fn examine_pixels(
    reference: &RgbaBitmap,
    mask: &GrayBitmap,
    current: &RgbaBitmap,
    cfg: &VisualizationConfig,
) -> (r: Result<ChunkReport, AlgorithmError>)
    requires
        cfg.valid(),
    ensures
        is_examined(r, reference, mask, current, *cfg),
{
    let rec = match find_diffs(reference, mask, current) {
        Ok(rec) => rec,
        Err(e) => {
            return Err(e);
        },
    };
    let result = match gen_visual_result(reference, mask, current, &rec, cfg) {
        Ok(img) => img,
        Err(e) => {
            assert(is_examination_of(Err(e), &rec, reference, mask, *cfg));
            return Err(e);
        },
    };
    let result_img = match ImagePng::try_from_rgba(result) {
        Ok(png) => Some(png),
        Err(_) => None,
    };
    let diff_count: usize = rec.diffs.len();
    let ghost listed = rec;
    let diff_img = match ImagePng::try_from_gray(rec.diff_img) {
        Ok(png) => Some(png),
        Err(_) => None,
    };
    let report = ChunkReport { diff_img, diff_count, result_img };
    assert(is_examination_of(Ok(report), &listed, reference, mask, *cfg));
    Ok(report)
}

/// The images that the three encoded images decode to are `reference`, `mask` and `current`.
pub open spec fn decode_to(
    encoded: (Seq<u8>, Seq<u8>, Seq<u8>),
    reference: &RgbaBitmap,
    mask: &GrayBitmap,
    current: &RgbaBitmap,
) -> bool {
    &&& png_rgba_pixels(encoded.0) == Some(
        (reference.spec_width() as u32, reference.spec_height() as u32, reference@),
    )
    &&& png_gray_pixels(encoded.1) == Some(
        (mask.spec_width() as u32, mask.spec_height() as u32, mask@),
    )
    &&& png_rgba_pixels(encoded.2) == Some(
        (current.spec_width() as u32, current.spec_height() as u32, current@),
    )
    &&& reference.wf()
    &&& mask.wf()
    &&& current.wf()
}

/// Decodes the reference, the mask and the fetched tile of a chunk, and examines them as
/// `examine_pixels` does. An image that cannot be decoded ends the examination.
pub fn examine_chunk(
    reference: ImagePng,
    mask: ImagePng,
    current: ImagePng,
    cfg: &VisualizationConfig,
) -> (r: Result<ChunkReport, CheckError>)
    requires
        cfg.valid(),
    ensures
        (r matches Err(CheckError::Codec(_))) <==> !(well_sized(png_rgba_pixels(reference@), 4)
            && well_sized(png_gray_pixels(mask@), 1) && well_sized(png_rgba_pixels(current@), 4)),
        r matches Ok(report) ==> exists|ref_px: RgbaBitmap, mask_px: GrayBitmap, curr_px: RgbaBitmap|
            #[trigger] decode_to((reference@, mask@, current@), &ref_px, &mask_px, &curr_px)
                && is_examined(Ok(report), &ref_px, &mask_px, &curr_px, *cfg),
        r matches Err(CheckError::Algorithm(e)) ==> exists|
            ref_px: RgbaBitmap,
            mask_px: GrayBitmap,
            curr_px: RgbaBitmap,
        |
            #[trigger] decode_to((reference@, mask@, current@), &ref_px, &mask_px, &curr_px)
                && is_examined(Err(e), &ref_px, &mask_px, &curr_px, *cfg),
{
    let ghost encoded = (reference@, mask@, current@);
    let curr_px = match current.try_to_rgba() {
        Ok(b) => b,
        Err(e) => {
            return Err(CheckError::Codec(e));
        },
    };
    let ref_px = match reference.try_to_rgba() {
        Ok(b) => b,
        Err(e) => {
            return Err(CheckError::Codec(e));
        },
    };
    let mask_px = match mask.try_to_gray() {
        Ok(b) => b,
        Err(e) => {
            return Err(CheckError::Codec(e));
        },
    };
    assert(decode_to(encoded, &ref_px, &mask_px, &curr_px));
    match examine_pixels(&ref_px, &mask_px, &curr_px, cfg) {
        Ok(report) => Ok(report),
        Err(e) => Err(CheckError::Algorithm(e)),
    }
}

} // verus!
