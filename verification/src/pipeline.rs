//! A comparison run, from the discovered images and the outcomes of the
//! comparisons to the reports and the diff images to write.
//!
//! Reading the trees, comparing the images and writing files is the
//! caller's part; what is decided in between is decided here.

use crate::compare::collect_outcomes;
use crate::compare::first_failure;
use crate::compare::image_views;
use crate::compare::is_passed;
use crate::compare::passes;
use crate::compare::result_views;
use crate::compare::ComparedImage;
use crate::compare::ComparedView;
use crate::compare::DiffOutcome;
use crate::compare::DiffOutcomeView;
use crate::dir::file_name_of;
use crate::dir::opt_text;
use crate::discovery::extension_of;
use crate::discovery::DetectedImages;
use crate::discovery::DetectedView;
use crate::error::CompareError;
use crate::error::CompareErrorView;
use crate::path_set::ordered_paths;
use crate::path_set::texts;
use crate::path_set::PathSet;
use crate::report::create_reports;
use crate::report::spec_create_reports;
use crate::report::JsonReport;
use crate::report::ReportInput;
use crate::report::ReportInputView;
use crate::report::ReportJsonInput;
use crate::report::ReportsView;
use crate::report::DIFF_IMAGE_EXTENSION;
use std::path::PathBuf;
use vstd::prelude::*;

verus! {

/// Where the JSON report is written unless the options say otherwise.
pub const DEFAULT_JSON_PATH: &'static str = "./reg.json";

/// Where the document report stands unless the options say otherwise.
pub const DEFAULT_REPORT_PATH: &'static str = "./report.html";

/// The options of a comparison run.
///
/// The matching threshold and the threshold rate are floating-point
/// numbers and stay with the caller, who hands the comparison the first and
/// turns the second into the `within_rate` of each `ComparedImage`.
#[derive(Debug)]
pub struct Options {
    /// Where the document report is written. The caller writes it only
    /// where a place is named here.
    pub report: Option<String>,
    /// Where the JSON report is written.
    pub json: Option<String>,
    /// The URL under which the directories are hosted.
    pub url_prefix: Option<String>,
    /// The number of differing pixels up to which an image passes.
    pub threshold_pixel: Option<u64>,
    /// The number of workers that compare images.
    pub concurrency: Option<usize>,
    /// Whether anti-aliased pixels are left out of the differences.
    pub enable_antialias: Option<bool>,
}

impl Default for Options {
    fn default() -> (options: Options)
        ensures
            options.report is None,
            opt_text(options.json) == Some(DEFAULT_JSON_PATH@),
            options.url_prefix is None,
            options.threshold_pixel is None,
            options.concurrency == Some(4usize),
            options.enable_antialias is None,
    {
        Options {
            report: None,
            json: Some(DEFAULT_JSON_PATH.to_owned()),
            url_prefix: None,
            threshold_pixel: None,
            concurrency: Some(4),
            enable_antialias: None,
        }
    }
}

/// A path with its extension replaced, as `std::path::PathBuf::set_extension`
/// gives it.
pub uninterp spec fn with_extension(path: Seq<char>, extension: Seq<char>) -> Seq<char>;

/// Calls `std::path::PathBuf::set_extension`, which panics on an extension
/// that holds a separator. Not proved: the result is `path` with the
/// extension of its final component replaced by `extension`, which the
/// library knows as `with_extension`; a path without a final component
/// stays as it is, and any other path has the new extension afterwards.
#[verifier::external_body]
fn set_extension(path: &str, extension: &str) -> (changed: String)
    requires
        extension@.len() > 0,
        forall|i: int|
            0 <= i < extension@.len() ==> extension@[i] != '/' && extension@[i] != '\\'
                && extension@[i] != '.',
    ensures
        changed@ == with_extension(path@, extension@),
        file_name_of(path@) is None ==> changed@ == path@,
        file_name_of(path@) is Some ==> extension_of(changed@) == Some(extension@),
{
    let mut changed = PathBuf::from(path);
    changed.set_extension(extension);
    changed.to_string_lossy().into_owned()
}

/// The path under which the diff image of `path` is stored: the same path
/// with the extension `webp`, whatever the extension of the image.
pub open spec fn spec_diff_image_path(path: Seq<char>) -> Seq<char> {
    with_extension(path, DIFF_IMAGE_EXTENSION@)
}

/// The path under which the diff image of `path` is stored, relative to the
/// directory of the diff images. Whatever the image is, its diff image has
/// the extension `webp`.
pub fn diff_image_path(path: &str) -> (name: String)
    ensures
        name@ == spec_diff_image_path(path@),
        file_name_of(path@) is Some ==> extension_of(name@) == Some(DIFF_IMAGE_EXTENSION@),
        file_name_of(path@) is None ==> name@ == path@,
{
    proof {
        reveal_strlit("webp");
    }
    set_extension(path, DIFF_IMAGE_EXTENSION)
}

/// A diff image to write: its path relative to the directory of the diff
/// images, and its bytes.
#[derive(Debug, PartialEq, Eq)]
pub struct DiffImage {
    pub path: String,
    pub bytes: Vec<u8>,
}

/// A `DiffImage` over sequences.
pub struct DiffImageView {
    pub path: Seq<char>,
    pub bytes: Seq<u8>,
}

impl View for DiffImage {
    type V = DiffImageView;

    open spec fn view(&self) -> DiffImageView {
        DiffImageView { path: self.path@, bytes: self.bytes@ }
    }
}

/// The diff images of `images` as views.
pub open spec fn diff_image_views(images: Seq<DiffImage>) -> Seq<DiffImageView> {
    Seq::new(images.len(), |i: int| images[i]@)
}

/// The rendered differences of a compared image.
pub open spec fn diff_bytes(image: ComparedView) -> Seq<u8> {
    match image.outcome {
        DiffOutcomeView::Different { diff_image, .. } => diff_image,
        DiffOutcomeView::Equal => Seq::empty(),
    }
}

/// The targets among the first `n` that pass.
pub open spec fn passed_upto(
    targets: Seq<Seq<char>>,
    images: Seq<ComparedView>,
    threshold_pixel: Option<u64>,
    n: int,
) -> Set<Seq<char>> {
    Set::new(
        |path: Seq<char>|
            exists|i: int|
                0 <= i < n && #[trigger] targets[i] == path && passes(images[i], threshold_pixel),
    )
}

/// The targets among the first `n` that fail.
pub open spec fn failed_upto(
    targets: Seq<Seq<char>>,
    images: Seq<ComparedView>,
    threshold_pixel: Option<u64>,
    n: int,
) -> Set<Seq<char>> {
    Set::new(
        |path: Seq<char>|
            exists|i: int|
                0 <= i < n && #[trigger] targets[i] == path && !passes(images[i], threshold_pixel),
    )
}

/// The diff images of the targets among the first `n` that fail, in the
/// order of the targets.
pub open spec fn diff_images_upto(
    targets: Seq<Seq<char>>,
    images: Seq<ComparedView>,
    threshold_pixel: Option<u64>,
    n: int,
) -> Seq<DiffImageView>
    decreases n,
{
    if n <= 0 {
        Seq::empty()
    } else {
        let rest = diff_images_upto(targets, images, threshold_pixel, n - 1);
        if passes(images[n - 1], threshold_pixel) {
            rest
        } else {
            rest.push(
                DiffImageView {
                    path: spec_diff_image_path(targets[n - 1]),
                    bytes: diff_bytes(images[n - 1]),
                },
            )
        }
    }
}

/// The targets of a run, sorted into those that passed and those that
/// failed, with the diff images to write.
#[derive(Debug)]
pub struct Classified {
    pub passed: PathSet,
    pub failed: PathSet,
    /// The images for which a diff image exists: the failed ones.
    pub differences: PathSet,
    pub diff_images: Vec<DiffImage>,
}

/// Every target is passed or failed, and none is both.
pub proof fn lemma_classes_partition(
    targets: Seq<Seq<char>>,
    images: Seq<ComparedView>,
    threshold_pixel: Option<u64>,
)
    requires
        targets.no_duplicates(),
    ensures
        passed_upto(targets, images, threshold_pixel, targets.len() as int).union(
            failed_upto(targets, images, threshold_pixel, targets.len() as int),
        ) == targets.to_set(),
        passed_upto(targets, images, threshold_pixel, targets.len() as int).disjoint(
            failed_upto(targets, images, threshold_pixel, targets.len() as int),
        ),
{
    let n = targets.len() as int;
    let passed = passed_upto(targets, images, threshold_pixel, n);
    let failed = failed_upto(targets, images, threshold_pixel, n);
    assert forall|p: Seq<char>| passed.union(failed).contains(p) <==> targets.to_set().contains(
        p,
    ) by {
        if targets.contains(p) {
            let i = choose|i: int| 0 <= i < targets.len() && targets[i] == p;
            if passes(images[i], threshold_pixel) {
                assert(passed.contains(p));
            } else {
                assert(failed.contains(p));
            }
        }
    }
    assert(passed.union(failed) =~= targets.to_set());
    assert forall|p: Seq<char>| !(passed.contains(p) && failed.contains(p)) by {
        if passed.contains(p) && failed.contains(p) {
            let i = choose|i: int|
                0 <= i < n && #[trigger] targets[i] == p && passes(images[i], threshold_pixel);
            let j = choose|j: int|
                0 <= j < n && #[trigger] targets[j] == p && !passes(images[j], threshold_pixel);
            assert(i == j);
        }
    }
}

/// Sorts the targets into passed and failed ones by the outcome of each,
/// the `i`-th outcome being that of the `i`-th target, and gathers the diff
/// images of the failed ones. Fails with `Unknown` exactly if there are not
/// as many outcomes as targets.
pub fn classify(
    targets: &PathSet,
    images: Vec<ComparedImage>,
    threshold_pixel: Option<u64>,
) -> (result: Result<Classified, CompareError>)
    ensures
        match result {
            Ok(classified) => {
                let n = targets.paths().len() as int;
                &&& images.len() == n
                &&& classified.passed@ == passed_upto(
                    targets.paths(),
                    image_views(images@),
                    threshold_pixel,
                    n,
                )
                &&& classified.failed@ == failed_upto(
                    targets.paths(),
                    image_views(images@),
                    threshold_pixel,
                    n,
                )
                &&& classified.differences@ == classified.failed@
                &&& diff_image_views(classified.diff_images@) == diff_images_upto(
                    targets.paths(),
                    image_views(images@),
                    threshold_pixel,
                    n,
                )
                &&& classified.passed@.union(classified.failed@) == targets@
                &&& classified.passed@.disjoint(classified.failed@)
            },
            Err(error) => images.len() != targets.paths().len() && error@
                == CompareErrorView::Unknown,
        },
{
    let n: usize = targets.len();
    if images.len() != n {
        return Err(CompareError::Unknown);
    }
    let names = targets.to_vec();
    let ghost all = images@;
    let ghost views = image_views(all);
    let ghost paths = targets.paths();
    let mut passed = PathSet::new();
    let mut failed = PathSet::new();
    let mut diff_images: Vec<DiffImage> = Vec::new();
    let mut i: usize = 0;
    assert(passed@ =~= passed_upto(paths, views, threshold_pixel, 0));
    assert(failed@ =~= failed_upto(paths, views, threshold_pixel, 0));
    assert(diff_image_views(diff_images@) =~= diff_images_upto(paths, views, threshold_pixel, 0));
    for image in it: images.into_iter()
        invariant
            it.seq() == all,
            all.len() == n,
            views == image_views(all),
            paths == targets.paths(),
            paths == texts(names@),
            paths.len() == n,
            i == it.index(),
            passed@ == passed_upto(paths, views, threshold_pixel, i as int),
            failed@ == failed_upto(paths, views, threshold_pixel, i as int),
            diff_image_views(diff_images@) == diff_images_upto(
                paths,
                views,
                threshold_pixel,
                i as int,
            ),
    {
        let target = &names[i];
        assert(target@ == paths[i as int]);
        let ghost view = image@;
        assert(view == views[i as int]);
        let ghost old_passed = passed@;
        let ghost old_failed = failed@;
        let ghost old_images = diff_image_views(diff_images@);
        let within_rate = image.within_rate;
        let pass = match image.outcome {
            DiffOutcome::Equal => true,
            DiffOutcome::Different { diff_count, width, height, diff_image } => {
                if is_passed(diff_count, threshold_pixel, within_rate) {
                    true
                } else {
                    let name = diff_image_path(target.as_str());
                    diff_images.push(DiffImage { path: name, bytes: diff_image });
                    false
                }
            },
        };
        assert(pass == passes(view, threshold_pixel));
        if pass {
            passed.insert(target.clone());
        } else {
            failed.insert(target.clone());
        }
        proof {
            let k = i as int;
            let new_passed = if pass {
                old_passed.insert(paths[k])
            } else {
                old_passed
            };
            let new_failed = if pass {
                old_failed
            } else {
                old_failed.insert(paths[k])
            };
            assert forall|p: Seq<char>|
                passed_upto(paths, views, threshold_pixel, k + 1).contains(p)
                    <==> new_passed.contains(p) by {
                if passed_upto(paths, views, threshold_pixel, k + 1).contains(p) {
                    let j = choose|j: int|
                        0 <= j < k + 1 && #[trigger] paths[j] == p && passes(
                            views[j],
                            threshold_pixel,
                        );
                    if j < k {
                        assert(passed_upto(paths, views, threshold_pixel, k).contains(p));
                    }
                }
                if old_passed.contains(p) {
                    let j = choose|j: int|
                        0 <= j < k && #[trigger] paths[j] == p && passes(
                            views[j],
                            threshold_pixel,
                        );
                    assert(0 <= j < k + 1);
                }
                if pass && p == paths[k] {
                    assert(paths[k] == p && passes(views[k], threshold_pixel));
                }
            }
            assert(passed@ =~= passed_upto(paths, views, threshold_pixel, k + 1));
            assert forall|p: Seq<char>|
                failed_upto(paths, views, threshold_pixel, k + 1).contains(p)
                    <==> new_failed.contains(p) by {
                if failed_upto(paths, views, threshold_pixel, k + 1).contains(p) {
                    let j = choose|j: int|
                        0 <= j < k + 1 && #[trigger] paths[j] == p && !passes(
                            views[j],
                            threshold_pixel,
                        );
                    if j < k {
                        assert(failed_upto(paths, views, threshold_pixel, k).contains(p));
                    }
                }
                if old_failed.contains(p) {
                    let j = choose|j: int|
                        0 <= j < k && #[trigger] paths[j] == p && !passes(
                            views[j],
                            threshold_pixel,
                        );
                    assert(0 <= j < k + 1);
                }
                if !pass && p == paths[k] {
                    assert(paths[k] == p && !passes(views[k], threshold_pixel));
                }
            }
            assert(failed@ =~= failed_upto(paths, views, threshold_pixel, k + 1));
            if pass {
                assert(diff_image_views(diff_images@) =~= old_images);
            } else {
                assert(diff_image_views(diff_images@) =~= old_images.push(
                    DiffImageView {
                        path: spec_diff_image_path(paths[k]),
                        bytes: diff_bytes(views[k]),
                    },
                ));
            }
        }
        i = i + 1;
    }
    proof {
        use_type_invariant(targets);
        targets.lemma_len();
        lemma_classes_partition(paths, views, threshold_pixel);
        targets.lemma_view_is_paths();
    }
    let differences = failed.clone();
    Ok(Classified { passed, failed, differences, diff_images })
}

/// What a run hands back: the summary for the JSON report, the data of the
/// document report, and the diff images to write.
#[derive(Debug)]
pub struct RunOutput {
    pub json: JsonReport,
    pub html: Option<ReportJsonInput>,
    pub diff_images: Vec<DiffImage>,
}

/// A `RunOutput` over views.
pub struct RunView {
    pub reports: ReportsView,
    pub diff_images: Seq<DiffImageView>,
}

impl View for RunOutput {
    type V = RunView;

    open spec fn view(&self) -> RunView {
        RunView {
            reports: ReportsView {
                json: self.json@,
                html: match self.html {
                    Some(document) => Some(document@),
                    None => None,
                },
            },
            diff_images: diff_image_views(self.diff_images@),
        }
    }
}

/// Every comparison succeeded.
pub open spec fn all_ok(results: Seq<Result<ComparedView, CompareErrorView>>) -> bool {
    forall|i: int| 0 <= i < results.len() ==> (#[trigger] results[i]) is Ok
}

/// The outcomes of the comparisons, where all of them succeeded.
pub open spec fn ok_views(results: Seq<Result<ComparedView, CompareErrorView>>) -> Seq<
    ComparedView,
> {
    Seq::new(
        results.len(),
        |i: int|
            match results[i] {
                Ok(image) => image,
                Err(_) => ComparedView { outcome: DiffOutcomeView::Equal, within_rate: None },
            },
    )
}

/// The images that a run compares, in order.
pub open spec fn targets_of(detected: DetectedView) -> Seq<Seq<char>> {
    ordered_paths(detected.actual.intersect(detected.expected))
}

/// What the reports of a run are assembled from: the targets sorted by
/// their outcomes, the images with differences being the failed ones, and
/// the discovered sets and the directories as they are. The reports stand
/// where the options say, and at their default places where they say
/// nothing.
pub open spec fn report_input_of(
    actual_dir: Seq<char>,
    expected_dir: Seq<char>,
    diff_dir: Seq<char>,
    options: Options,
    detected: DetectedView,
    images: Seq<ComparedView>,
) -> ReportInputView {
    let targets = targets_of(detected);
    let n = targets.len() as int;
    ReportInputView {
        passed: passed_upto(targets, images, options.threshold_pixel, n),
        failed: failed_upto(targets, images, options.threshold_pixel, n),
        new: detected.new,
        deleted: detected.deleted,
        expected: detected.expected,
        actual: detected.actual,
        differences: failed_upto(targets, images, options.threshold_pixel, n),
        json: match options.json {
            Some(path) => path@,
            None => DEFAULT_JSON_PATH@,
        },
        actual_dir,
        expected_dir,
        diff_dir,
        report: Some(
            match options.report {
                Some(path) => path@,
                None => DEFAULT_REPORT_PATH@,
            },
        ),
        url_prefix: opt_text(options.url_prefix),
        from_json: false,
    }
}

/// What a run gives. It fails fast: where a comparison failed, the error of
/// the first one that did is the result and every outcome is discarded.
/// Where there are not as many outcomes as targets the run fails with
/// `Unknown`. Else the targets are classified and the reports assembled.
pub open spec fn spec_run(
    actual_dir: Seq<char>,
    expected_dir: Seq<char>,
    diff_dir: Seq<char>,
    options: Options,
    detected: DetectedView,
    results: Seq<Result<ComparedView, CompareErrorView>>,
) -> Result<RunView, CompareErrorView> {
    let targets = targets_of(detected);
    let images = ok_views(results);
    if !all_ok(results) {
        let at = choose|at: int| first_failure(results, at);
        Err(results[at]->Err_0)
    } else if images.len() != targets.len() {
        Err(CompareErrorView::Unknown)
    } else {
        match spec_create_reports(
            report_input_of(actual_dir, expected_dir, diff_dir, options, detected, images),
        ) {
            Ok(reports) => Ok(
                RunView {
                    reports,
                    diff_images: diff_images_upto(
                        targets,
                        images,
                        options.threshold_pixel,
                        targets.len() as int,
                    ),
                },
            ),
            Err(error) => Err(error),
        }
    }
}

/// The result of a run as a view.
pub open spec fn run_view(result: Result<RunOutput, CompareError>) -> Result<
    RunView,
    CompareErrorView,
> {
    match result {
        Ok(output) => Ok(output@),
        Err(error) => Err(error@),
    }
}

/// Only one comparison is the first that failed.
pub proof fn lemma_first_failure_unique(
    results: Seq<Result<ComparedView, CompareErrorView>>,
    a: int,
    b: int,
)
    requires
        first_failure(results, a),
        first_failure(results, b),
    ensures
        a == b,
{
    if a < b {
        assert(results[a] is Ok);
    } else if b < a {
        assert(results[b] is Ok);
    }
}

/// Runs the comparison on what was discovered and compared: `results`
/// holds the outcome of each target of `detected`, in the order of
/// `DetectedImages::targets`. Classifies the targets, assembles the reports
/// and names the diff images to write; what it returns is `spec_run`. In
/// every summary the passed and the failed images together are the targets,
/// and no image is both.
pub fn run(
    actual_dir: &str,
    expected_dir: &str,
    diff_dir: &str,
    options: &Options,
    detected: &DetectedImages,
    results: Vec<Result<ComparedImage, CompareError>>,
) -> (result: Result<RunOutput, CompareError>)
    ensures
        run_view(result) == spec_run(
            actual_dir@,
            expected_dir@,
            diff_dir@,
            *options,
            detected@,
            result_views(results@),
        ),
        result matches Ok(output) ==> {
            &&& output.json@.passed_items.union(output.json@.failed_items)
                == detected.spec_targets()
            &&& output.json@.passed_items.disjoint(output.json@.failed_items)
            &&& output.json@.diff_items == output.json@.failed_items
            &&& output.json@.new_items == detected@.actual.difference(detected@.expected)
            &&& output.json@.deleted_items == detected@.expected.difference(detected@.actual)
            &&& output.json@.actual_items == detected@.actual
            &&& output.json@.expected_items == detected@.expected
        },
{
    let ghost views = result_views(results@);
    let targets = detected.targets();
    proof {
        targets.lemma_paths_are_ordered();
    }
    let images = match collect_outcomes(results) {
        Ok(images) => images,
        Err(error) => {
            proof {
                let at = choose|at: int| #[trigger]
                    first_failure(views, at) && views[at] == Err::<
                        ComparedView,
                        CompareErrorView,
                    >(error@);
                let chosen = choose|at: int| first_failure(views, at);
                lemma_first_failure_unique(views, at, chosen);
            }
            return Err(error);
        },
    };
    proof {
        assert(all_ok(views)) by {
            assert forall|i: int| 0 <= i < views.len() implies (#[trigger] views[i]) is Ok by {
                assert(views[i] == Ok::<ComparedView, CompareErrorView>(images[i]@));
            }
        }
        assert(image_views(images@) =~= ok_views(views)) by {
            assert forall|i: int| 0 <= i < views.len() implies image_views(images@)[i] == ok_views(
                views,
            )[i] by {
                assert(views[i] == Ok::<ComparedView, CompareErrorView>(images[i]@));
            }
        }
    }
    let classified = match classify(&targets, images, options.threshold_pixel) {
        Ok(classified) => classified,
        Err(error) => {
            return Err(error);
        },
    };
    let json: String = match &options.json {
        Some(path) => path.clone(),
        None => DEFAULT_JSON_PATH.to_owned(),
    };
    let report: String = match &options.report {
        Some(path) => path.clone(),
        None => DEFAULT_REPORT_PATH.to_owned(),
    };
    let input = ReportInput {
        passed: classified.passed,
        failed: classified.failed,
        new: detected.new_items().clone(),
        deleted: detected.deleted().clone(),
        expected: detected.expected().clone(),
        actual: detected.actual().clone(),
        differences: classified.differences,
        json,
        actual_dir: actual_dir.to_owned(),
        expected_dir: expected_dir.to_owned(),
        diff_dir: diff_dir.to_owned(),
        report: Some(report),
        url_prefix: options.url_prefix.clone(),
        from_json: false,
    };
    assert(input@ == report_input_of(
        actual_dir@,
        expected_dir@,
        diff_dir@,
        *options,
        detected@,
        ok_views(views),
    ));
    match create_reports(input) {
        Ok(reports) => Ok(
            RunOutput { json: reports.json, html: reports.html, diff_images: classified.diff_images },
        ),
        Err(error) => Err(error),
    }
}

} // verus!
