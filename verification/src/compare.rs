//! The outcome of comparing one image, and the rules that decide whether a
//! changed image still passes.

use crate::error::CompareError;
use crate::error::CompareErrorView;
use vstd::prelude::*;

verus! {

/// What the comparison of the two versions of one image gave.
#[derive(Debug, PartialEq, Eq)]
pub enum DiffOutcome {
    /// Both versions are the same.
    Equal,
    /// The versions differ.
    Different {
        /// The number of pixels that differ.
        diff_count: u64,
        /// The width of the image in pixels.
        width: u32,
        /// The height of the image in pixels.
        height: u32,
        /// The rendered image of the differences.
        diff_image: Vec<u8>,
    },
}

/// A `DiffOutcome` with the bytes of its image as a sequence.
pub enum DiffOutcomeView {
    Equal,
    Different { diff_count: u64, width: u32, height: u32, diff_image: Seq<u8> },
}

impl View for DiffOutcome {
    type V = DiffOutcomeView;

    open spec fn view(&self) -> DiffOutcomeView {
        match self {
            DiffOutcome::Equal => DiffOutcomeView::Equal,
            DiffOutcome::Different { diff_count, width, height, diff_image } => {
                DiffOutcomeView::Different {
                    diff_count: *diff_count,
                    width: *width,
                    height: *height,
                    diff_image: diff_image@,
                }
            },
        }
    }
}

/// The outcome for one image together with the verdict of the rate rule.
///
/// The share of differing pixels is a quotient of floating-point numbers,
/// which the caller computes: `within_rate` is `None` where no rate is
/// configured, and else says whether the share stays within the rate.
#[derive(Debug, PartialEq, Eq)]
pub struct ComparedImage {
    pub outcome: DiffOutcome,
    pub within_rate: Option<bool>,
}

/// A `ComparedImage` with the bytes of its image as a sequence.
pub struct ComparedView {
    pub outcome: DiffOutcomeView,
    pub within_rate: Option<bool>,
}

impl View for ComparedImage {
    type V = ComparedView;

    open spec fn view(&self) -> ComparedView {
        ComparedView { outcome: self.outcome@, within_rate: self.within_rate }
    }
}

/// The number of pixels of an image.
pub open spec fn spec_pixel_count(width: u32, height: u32) -> int {
    width as int * height as int
}

/// The number of pixels of an image. The product of two `u32` fits a `u64`,
/// so large captures do not overflow.
pub fn pixel_count(width: u32, height: u32) -> (pixels: u64)
    ensures
        pixels == spec_pixel_count(width, height),
{
    assert(width as int * height as int <= 0xffff_ffff * 0xffff_ffff) by (nonlinear_arith)
        requires
            0 <= width as int <= 0xffff_ffff,
            0 <= height as int <= 0xffff_ffff,
    ;
    (width as u64) * (height as u64)
}

/// Whether an image with `diff_count` differing pixels passes. The first
/// rule that applies decides: with a pixel threshold, the count must not
/// exceed it; else with a rate, the verdict of the rate rule stands; else
/// no pixel may differ.
pub open spec fn spec_is_passed(
    diff_count: u64,
    threshold_pixel: Option<u64>,
    within_rate: Option<bool>,
) -> bool {
    match threshold_pixel {
        Some(threshold) => diff_count <= threshold,
        None => match within_rate {
            Some(within) => within,
            None => diff_count == 0,
        },
    }
}

/// Whether an image with `diff_count` differing pixels passes.
pub fn is_passed(diff_count: u64, threshold_pixel: Option<u64>, within_rate: Option<bool>) -> (passed:
    bool)
    ensures
        passed == spec_is_passed(diff_count, threshold_pixel, within_rate),
{
    if let Some(threshold) = threshold_pixel {
        diff_count <= threshold
    } else if let Some(within) = within_rate {
        within
    } else {
        diff_count == 0
    }
}

/// Fewer differing pixels never turn a pass into a failure: with the same
/// thresholds, and a rate rule that is itself no stricter on fewer pixels,
/// an image that passes with `more` differing pixels passes with `fewer`.
pub proof fn lemma_is_passed_monotonic(
    fewer: u64,
    more: u64,
    threshold_pixel: Option<u64>,
    within_rate_fewer: Option<bool>,
    within_rate_more: Option<bool>,
)
    requires
        fewer <= more,
        within_rate_fewer is Some <==> within_rate_more is Some,
        within_rate_more == Some(true) ==> within_rate_fewer == Some(true),
    ensures
        spec_is_passed(more, threshold_pixel, within_rate_more) ==> spec_is_passed(
            fewer,
            threshold_pixel,
            within_rate_fewer,
        ),
{
}

/// An image without a differing pixel passes under a pixel threshold,
/// under no threshold at all, and under a rate whose rule accepts it.
pub proof fn lemma_no_difference_passes(threshold_pixel: Option<u64>, within_rate: Option<bool>)
    requires
        threshold_pixel is Some || within_rate != Some(false),
    ensures
        spec_is_passed(0, threshold_pixel, within_rate),
{
}

/// Whether a compared image counts as passed: equal images pass, different
/// ones go by `spec_is_passed`.
pub open spec fn passes(image: ComparedView, threshold_pixel: Option<u64>) -> bool {
    match image.outcome {
        DiffOutcomeView::Equal => true,
        DiffOutcomeView::Different { diff_count, .. } => spec_is_passed(
            diff_count,
            threshold_pixel,
            image.within_rate,
        ),
    }
}

/// The number of workers for a comparison: the configured number, 4 where
/// none is configured, and never fewer than 1.
pub open spec fn spec_worker_count(concurrency: Option<usize>) -> usize {
    match concurrency {
        Some(n) => if n == 0 {
            1
        } else {
            n
        },
        None => 4,
    }
}

/// The number of workers for a comparison.
pub fn worker_count(concurrency: Option<usize>) -> (workers: usize)
    ensures
        workers == spec_worker_count(concurrency),
        workers >= 1,
{
    match concurrency {
        Some(n) => if n == 0 {
            1
        } else {
            n
        },
        None => 4,
    }
}

/// Whether the comparison counts anti-aliased pixels as differences: it
/// does unless anti-aliasing is enabled.
pub fn include_anti_alias(enable_antialias: Option<bool>) -> (counted: bool)
    ensures
        counted == !(enable_antialias == Some(true)),
{
    match enable_antialias {
        Some(enabled) => !enabled,
        None => true,
    }
}

/// The results of `results` as views.
pub open spec fn result_views(results: Seq<Result<ComparedImage, CompareError>>) -> Seq<
    Result<ComparedView, CompareErrorView>,
> {
    Seq::new(
        results.len(),
        |i: int|
            match results[i] {
                Ok(image) => Ok(image@),
                Err(error) => Err(error@),
            },
    )
}

/// The images of `images` as views.
pub open spec fn image_views(images: Seq<ComparedImage>) -> Seq<ComparedView> {
    Seq::new(images.len(), |i: int| images[i]@)
}

/// The first failure of `results` stands at `at`.
pub open spec fn first_failure(results: Seq<Result<ComparedView, CompareErrorView>>, at: int) -> bool {
    &&& 0 <= at < results.len()
    &&& results[at] is Err
    &&& forall|i: int| 0 <= i < at ==> (#[trigger] results[i]) is Ok
}

/// Gathers the results of all comparisons, failing fast: the outcomes in
/// the order of the tasks where every task succeeded, and else the error of
/// the first task that failed, with every outcome discarded.
pub fn collect_outcomes(results: Vec<Result<ComparedImage, CompareError>>) -> (collected: Result<
    Vec<ComparedImage>,
    CompareError,
>)
    ensures
        match collected {
            Ok(images) => {
                &&& images.len() == results.len()
                &&& forall|i: int|
                    0 <= i < results.len() ==> (#[trigger] result_views(results@)[i]) == Ok::<
                        ComparedView,
                        CompareErrorView,
                    >(images[i]@)
            },
            Err(error) => exists|at: int| #[trigger]
                first_failure(result_views(results@), at) && result_views(results@)[at] == Err::<
                    ComparedView,
                    CompareErrorView,
                >(error@),
        },
{
    let ghost all = results@;
    let mut images: Vec<ComparedImage> = Vec::new();
    for result in it: results.into_iter()
        invariant
            it.seq() == all,
            images.len() == it.index(),
            forall|i: int|
                0 <= i < it.index() ==> (#[trigger] result_views(all)[i]) == Ok::<
                    ComparedView,
                    CompareErrorView,
                >(images[i]@),
    {
        match result {
            Ok(image) => {
                images.push(image);
            },
            Err(error) => {
                proof {
                    assert(first_failure(result_views(all), it.index() as int));
                }
                return Err(error);
            },
        }
    }
    Ok(images)
}

} // verus!
