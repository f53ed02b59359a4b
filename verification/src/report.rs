//! Assembly of the two reports: the summary that is written as JSON, and the
//! data model from which the document report is rendered.

use crate::dir::opt_text;
use crate::dir::resolve_dir;
use crate::dir::resolved;
use crate::dir::resolved_from;
use crate::dir::result_text;
use crate::dir::spec_resolve_dir;
use crate::encode::encode_file_path;
use crate::encode::spec_encode_file_path;
use crate::error::CompareError;
use crate::error::CompareErrorView;
use crate::path_set::ordered_paths;
use crate::path_set::texts;
use crate::path_set::PathSet;
use vstd::prelude::*;

verus! {

/// The extension under which every diff image is stored and linked.
pub const DIFF_IMAGE_EXTENSION: &'static str = "webp";

/// The overall result that the document report shows.
#[derive(Clone, Copy, Debug, PartialEq, Eq, Structural)]
pub enum ReportStatus {
    /// No image failed.
    Success,
    /// At least one image failed.
    Danger,
}

/// An image path as the document report shows and links it.
#[derive(Debug, PartialEq, Eq)]
pub struct ReportItem {
    /// The path as it is displayed.
    pub raw: String,
    /// The path with each segment percent-encoded.
    pub encoded: String,
}

/// A `ReportItem` with its texts as sequences of characters.
pub struct ReportItemView {
    pub raw: Seq<char>,
    pub encoded: Seq<char>,
}

impl View for ReportItem {
    type V = ReportItemView;

    open spec fn view(&self) -> ReportItemView {
        ReportItemView { raw: self.raw@, encoded: self.encoded@ }
    }
}

/// The item that stands for `path`.
pub open spec fn item_of(path: Seq<char>) -> ReportItemView {
    ReportItemView { raw: path, encoded: spec_encode_file_path(path) }
}

/// The items that stand for `paths`, in the same order.
pub open spec fn items_of(paths: Seq<Seq<char>>) -> Seq<ReportItemView> {
    Seq::new(paths.len(), |i: int| item_of(paths[i]))
}

/// The items of `items` as views.
pub open spec fn item_views(items: Seq<ReportItem>) -> Seq<ReportItemView> {
    Seq::new(items.len(), |i: int| items[i]@)
}

impl ReportItem {
    /// The item that stands for `path`.
    pub fn from_path(path: String) -> (item: ReportItem)
        ensures
            item@ == item_of(path@),
    {
        let encoded = encode_file_path(path.as_str());
        ReportItem { raw: path, encoded }
    }
}

/// The items for the paths of `set`, in the order of the set.
pub fn report_items(set: &PathSet) -> (items: Vec<ReportItem>)
    ensures
        item_views(items@) == items_of(set.paths()),
{
    let paths = set.to_vec();
    let mut items: Vec<ReportItem> = Vec::new();
    for path in it: paths.into_iter()
        invariant
            texts(it.seq()) == set.paths(),
            items.len() == it.index(),
            forall|j: int|
                0 <= j < it.index() ==> (#[trigger] items[j])@ == item_of(set.paths()[j]),
    {
        assert(path@ == texts(it.seq())[it.index() as int]);
        items.push(ReportItem::from_path(path));
    }
    assert(item_views(items@) =~= items_of(set.paths()));
    items
}

/// Settings of the in-browser image comparison, which is switched off.
#[derive(Debug)]
pub struct XimgdiffConfig {
    pub enabled: bool,
    pub worker_url: String,
}

/// The data model of the document report.
#[derive(Debug)]
pub struct ReportJsonInput {
    /// `Success` exactly if no image failed.
    pub status: ReportStatus,
    pub has_new: bool,
    pub new_items: Vec<ReportItem>,
    pub has_deleted: bool,
    pub deleted_items: Vec<ReportItem>,
    pub has_passed: bool,
    pub passed_items: Vec<ReportItem>,
    pub has_failed: bool,
    pub failed_items: Vec<ReportItem>,
    pub actual_dir: String,
    pub expected_dir: String,
    pub diff_dir: String,
    pub diff_image_extention: &'static str,
    pub ximgdiff_config: XimgdiffConfig,
}

/// A `ReportJsonInput` over sequences.
pub struct DocumentView {
    pub status: ReportStatus,
    pub has_new: bool,
    pub new_items: Seq<ReportItemView>,
    pub has_deleted: bool,
    pub deleted_items: Seq<ReportItemView>,
    pub has_passed: bool,
    pub passed_items: Seq<ReportItemView>,
    pub has_failed: bool,
    pub failed_items: Seq<ReportItemView>,
    pub actual_dir: Seq<char>,
    pub expected_dir: Seq<char>,
    pub diff_dir: Seq<char>,
    pub diff_image_extention: Seq<char>,
    pub ximgdiff_enabled: bool,
    pub ximgdiff_worker_url: Seq<char>,
}

impl View for ReportJsonInput {
    type V = DocumentView;

    open spec fn view(&self) -> DocumentView {
        DocumentView {
            status: self.status,
            has_new: self.has_new,
            new_items: item_views(self.new_items@),
            has_deleted: self.has_deleted,
            deleted_items: item_views(self.deleted_items@),
            has_passed: self.has_passed,
            passed_items: item_views(self.passed_items@),
            has_failed: self.has_failed,
            failed_items: item_views(self.failed_items@),
            actual_dir: self.actual_dir@,
            expected_dir: self.expected_dir@,
            diff_dir: self.diff_dir@,
            diff_image_extention: self.diff_image_extention@,
            ximgdiff_enabled: self.ximgdiff_config.enabled,
            ximgdiff_worker_url: self.ximgdiff_config.worker_url@,
        }
    }
}

/// The summary of a run, as it is written to the JSON report.
#[derive(Debug)]
pub struct JsonReport {
    pub failed_items: PathSet,
    pub new_items: PathSet,
    pub deleted_items: PathSet,
    pub passed_items: PathSet,
    pub expected_items: PathSet,
    pub actual_items: PathSet,
    pub diff_items: PathSet,
    pub actual_dir: String,
    pub expected_dir: String,
    pub diff_dir: String,
}

/// A `JsonReport` over sets and sequences.
pub struct JsonReportView {
    pub failed_items: Set<Seq<char>>,
    pub new_items: Set<Seq<char>>,
    pub deleted_items: Set<Seq<char>>,
    pub passed_items: Set<Seq<char>>,
    pub expected_items: Set<Seq<char>>,
    pub actual_items: Set<Seq<char>>,
    pub diff_items: Set<Seq<char>>,
    pub actual_dir: Seq<char>,
    pub expected_dir: Seq<char>,
    pub diff_dir: Seq<char>,
}

impl View for JsonReport {
    type V = JsonReportView;

    open spec fn view(&self) -> JsonReportView {
        JsonReportView {
            failed_items: self.failed_items@,
            new_items: self.new_items@,
            deleted_items: self.deleted_items@,
            passed_items: self.passed_items@,
            expected_items: self.expected_items@,
            actual_items: self.actual_items@,
            diff_items: self.diff_items@,
            actual_dir: self.actual_dir@,
            expected_dir: self.expected_dir@,
            diff_dir: self.diff_dir@,
        }
    }
}

/// All that the reports are assembled from.
#[derive(Debug)]
pub struct ReportInput {
    pub passed: PathSet,
    pub failed: PathSet,
    pub new: PathSet,
    pub deleted: PathSet,
    pub expected: PathSet,
    pub actual: PathSet,
    pub differences: PathSet,
    /// Where the JSON report is written.
    pub json: String,
    pub actual_dir: String,
    pub expected_dir: String,
    pub diff_dir: String,
    /// Where the document report is written, if one is wanted.
    pub report: Option<String>,
    /// The URL under which the directories are hosted, if they are.
    pub url_prefix: Option<String>,
    /// Whether the directories come from an earlier JSON report, and are
    /// already resolved.
    pub from_json: bool,
}

/// Both reports of a run.
#[derive(Debug)]
pub struct Reports {
    pub json: JsonReport,
    /// The data of the document report, where one is wanted.
    pub html: Option<ReportJsonInput>,
}

/// A `Reports` over views.
pub struct ReportsView {
    pub json: JsonReportView,
    pub html: Option<DocumentView>,
}

impl View for Reports {
    type V = ReportsView;

    open spec fn view(&self) -> ReportsView {
        ReportsView {
            json: self.json@,
            html: match self.html {
                Some(document) => Some(document@),
                None => None,
            },
        }
    }
}

/// A relative path joined onto a URL, as `url::Url::parse` followed by
/// `url::Url::join` gives it.
pub uninterp spec fn url_joined(prefix: Seq<char>, relative: Seq<char>) -> Option<Seq<char>>;

/// Calls `url::Url::parse` on `prefix` and `url::Url::join` on what it
/// gives. Not proved: the result is the text of the joined URL, which the
/// library knows as `url_joined`; it is `None` where the crate rejects the
/// prefix or the relative path.
#[verifier::external_body]
fn join_url(prefix: &str, relative: &str) -> (joined: Option<String>)
    ensures
        opt_text(joined) == url_joined(prefix@, relative@),
{
    match url::Url::parse(prefix) {
        Ok(base) => match base.join(relative) {
            Ok(joined) => Some(joined.into()),
            Err(_) => None,
        },
        Err(_) => None,
    }
}

/// The directory `dir` as the JSON report names it: relative to the
/// directory of the report, and joined onto the URL prefix where there is
/// one.
pub open spec fn spec_json_dir(json: Seq<char>, dir: Seq<char>, url: Option<Seq<char>>) -> Result<
    Seq<char>,
    CompareErrorView,
> {
    match spec_resolve_dir(json, dir) {
        Some(relative) => match url {
            Some(prefix) => resolved_from(dir, url_joined(prefix, relative)),
            None => Ok(relative),
        },
        None => Err(CompareErrorView::PathResolution(dir)),
    }
}

/// The directory `dir` as the JSON report at `json` names it. Fails with
/// `PathResolution` exactly if no relative path leads from the report to
/// `dir`, or the path cannot be joined onto the URL.
pub fn create_dir_for_json_report(json: &str, dir: &str, url: Option<&str>) -> (result: Result<
    String,
    CompareError,
>)
    ensures
        result_text(result) == spec_json_dir(
            json@,
            dir@,
            match url {
                Some(prefix) => Some(prefix@),
                None => None,
            },
        ),
{
    match resolve_dir(json, dir) {
        Ok(relative) => match url {
            Some(prefix) => resolved(dir, join_url(prefix, relative.as_str())),
            None => Ok(relative),
        },
        Err(error) => Err(error),
    }
}

/// The directory `dir` as the document report names it: as it is where it
/// comes from an earlier JSON report, and else relative to the directory of
/// the document.
pub open spec fn spec_document_dir(report: Seq<char>, dir: Seq<char>, from_json: bool) -> Result<
    Seq<char>,
    CompareErrorView,
> {
    if from_json {
        Ok(dir)
    } else {
        resolved_from(dir, spec_resolve_dir(report, dir))
    }
}

/// The directory `dir` as the document report at `report` names it.
pub fn document_dir(report: &str, dir: &str, from_json: bool) -> (result: Result<
    String,
    CompareError,
>)
    ensures
        result_text(result) == spec_document_dir(report@, dir@, from_json),
{
    if from_json {
        Ok(dir.to_owned())
    } else {
        resolve_dir(report, dir)
    }
}

/// A `ReportInput` over sets and sequences.
pub struct ReportInputView {
    pub passed: Set<Seq<char>>,
    pub failed: Set<Seq<char>>,
    pub new: Set<Seq<char>>,
    pub deleted: Set<Seq<char>>,
    pub expected: Set<Seq<char>>,
    pub actual: Set<Seq<char>>,
    pub differences: Set<Seq<char>>,
    pub json: Seq<char>,
    pub actual_dir: Seq<char>,
    pub expected_dir: Seq<char>,
    pub diff_dir: Seq<char>,
    pub report: Option<Seq<char>>,
    pub url_prefix: Option<Seq<char>>,
    pub from_json: bool,
}

impl View for ReportInput {
    type V = ReportInputView;

    open spec fn view(&self) -> ReportInputView {
        ReportInputView {
            passed: self.passed@,
            failed: self.failed@,
            new: self.new@,
            deleted: self.deleted@,
            expected: self.expected@,
            actual: self.actual@,
            differences: self.differences@,
            json: self.json@,
            actual_dir: self.actual_dir@,
            expected_dir: self.expected_dir@,
            diff_dir: self.diff_dir@,
            report: opt_text(self.report),
            url_prefix: opt_text(self.url_prefix),
            from_json: self.from_json,
        }
    }
}

/// The summary of a run: the seven sets as they are, and the three
/// directories as the JSON report names them. The first directory that
/// cannot be resolved gives the error; the actual directory is resolved
/// first, then the expected one, then the one of the diff images.
pub open spec fn spec_json_report(input: ReportInputView) -> Result<
    JsonReportView,
    CompareErrorView,
> {
    match spec_json_dir(input.json, input.actual_dir, input.url_prefix) {
        Err(error) => Err(error),
        Ok(actual_dir) => match spec_json_dir(input.json, input.expected_dir, input.url_prefix) {
            Err(error) => Err(error),
            Ok(expected_dir) => match spec_json_dir(input.json, input.diff_dir, input.url_prefix) {
                Err(error) => Err(error),
                Ok(diff_dir) => Ok(
                    JsonReportView {
                        failed_items: input.failed,
                        new_items: input.new,
                        deleted_items: input.deleted,
                        passed_items: input.passed,
                        expected_items: input.expected,
                        actual_items: input.actual,
                        diff_items: input.differences,
                        actual_dir,
                        expected_dir,
                        diff_dir,
                    },
                ),
            },
        },
    }
}

/// The data of the document report that is written to `report`: the status
/// is `Success` exactly if nothing failed, each list holds the items of its
/// set in order, each flag says whether its list holds anything (the failed
/// list shows the images with differences), the directories are named as the
/// document needs them, and diff images carry the extension `webp`.
pub open spec fn spec_document(input: ReportInputView, report: Seq<char>) -> Result<
    DocumentView,
    CompareErrorView,
> {
    match spec_document_dir(report, input.actual_dir, input.from_json) {
        Err(error) => Err(error),
        Ok(actual_dir) => match spec_document_dir(report, input.expected_dir, input.from_json) {
            Err(error) => Err(error),
            Ok(expected_dir) => match spec_document_dir(report, input.diff_dir, input.from_json) {
                Err(error) => Err(error),
                Ok(diff_dir) => Ok(
                    DocumentView {
                        status: if input.failed == Set::<Seq<char>>::empty() {
                            ReportStatus::Success
                        } else {
                            ReportStatus::Danger
                        },
                        has_new: input.new != Set::<Seq<char>>::empty(),
                        new_items: items_of(ordered_paths(input.new)),
                        has_deleted: input.deleted != Set::<Seq<char>>::empty(),
                        deleted_items: items_of(ordered_paths(input.deleted)),
                        has_passed: input.passed != Set::<Seq<char>>::empty(),
                        passed_items: items_of(ordered_paths(input.passed)),
                        has_failed: input.differences != Set::<Seq<char>>::empty(),
                        failed_items: items_of(ordered_paths(input.differences)),
                        actual_dir,
                        expected_dir,
                        diff_dir,
                        diff_image_extention: DIFF_IMAGE_EXTENSION@,
                        ximgdiff_enabled: false,
                        ximgdiff_worker_url: Seq::empty(),
                    },
                ),
            },
        },
    }
}

/// Both reports: the summary, and the data of the document report where
/// `input.report` asks for one. An error of the summary comes first.
pub open spec fn spec_create_reports(input: ReportInputView) -> Result<
    ReportsView,
    CompareErrorView,
> {
    match spec_json_report(input) {
        Err(error) => Err(error),
        Ok(json) => match input.report {
            None => Ok(ReportsView { json, html: None }),
            Some(report) => match spec_document(input, report) {
                Err(error) => Err(error),
                Ok(document) => Ok(ReportsView { json, html: Some(document) }),
            },
        },
    }
}

/// Builds the summary of a run.
pub fn json_report(input: &ReportInput) -> (result: Result<JsonReport, CompareError>)
    ensures
        match result {
            Ok(json) => spec_json_report(input@) == Ok::<JsonReportView, CompareErrorView>(json@),
            Err(error) => spec_json_report(input@) == Err::<JsonReportView, CompareErrorView>(
                error@,
            ),
        },
{
    let url: Option<&str> = match &input.url_prefix {
        Some(prefix) => Some(prefix.as_str()),
        None => None,
    };
    let actual_dir = match create_dir_for_json_report(
        input.json.as_str(),
        input.actual_dir.as_str(),
        url,
    ) {
        Ok(dir) => dir,
        Err(error) => {
            return Err(error);
        },
    };
    let expected_dir = match create_dir_for_json_report(
        input.json.as_str(),
        input.expected_dir.as_str(),
        url,
    ) {
        Ok(dir) => dir,
        Err(error) => {
            return Err(error);
        },
    };
    let diff_dir = match create_dir_for_json_report(
        input.json.as_str(),
        input.diff_dir.as_str(),
        url,
    ) {
        Ok(dir) => dir,
        Err(error) => {
            return Err(error);
        },
    };
    Ok(
        JsonReport {
            failed_items: input.failed.clone(),
            new_items: input.new.clone(),
            deleted_items: input.deleted.clone(),
            passed_items: input.passed.clone(),
            expected_items: input.expected.clone(),
            actual_items: input.actual.clone(),
            diff_items: input.differences.clone(),
            actual_dir,
            expected_dir,
            diff_dir,
        },
    )
}

/// The document report.
pub struct Report;

impl Report {
    /// Builds the data of the document report that is written to `report`.
    /// Fails with `PathResolution` exactly if the directories are not
    /// already resolved and no relative path leads from the document to one
    /// of them.
    pub fn create(input: &ReportInput, report: &str) -> (result: Result<
        ReportJsonInput,
        CompareError,
    >)
        ensures
            match result {
                Ok(document) => spec_document(input@, report@) == Ok::<
                    DocumentView,
                    CompareErrorView,
                >(document@),
                Err(error) => spec_document(input@, report@) == Err::<
                    DocumentView,
                    CompareErrorView,
                >(error@),
            },
    {
        proof {
            use_type_invariant(&input.failed);
            use_type_invariant(&input.new);
            use_type_invariant(&input.deleted);
            use_type_invariant(&input.passed);
            use_type_invariant(&input.differences);
            input.new.lemma_paths_are_ordered();
            input.deleted.lemma_paths_are_ordered();
            input.passed.lemma_paths_are_ordered();
            input.differences.lemma_paths_are_ordered();
        }
        let status = if input.failed.is_empty() {
            ReportStatus::Success
        } else {
            ReportStatus::Danger
        };
        let has_new = !input.new.is_empty();
        let new_items = report_items(&input.new);
        let has_deleted = !input.deleted.is_empty();
        let deleted_items = report_items(&input.deleted);
        let has_passed = !input.passed.is_empty();
        let passed_items = report_items(&input.passed);
        let has_failed = !input.differences.is_empty();
        let failed_items = report_items(&input.differences);
        let actual_dir = match document_dir(report, input.actual_dir.as_str(), input.from_json) {
            Ok(dir) => dir,
            Err(error) => {
                return Err(error);
            },
        };
        let expected_dir = match document_dir(report, input.expected_dir.as_str(), input.from_json) {
            Ok(dir) => dir,
            Err(error) => {
                return Err(error);
            },
        };
        let diff_dir = match document_dir(report, input.diff_dir.as_str(), input.from_json) {
            Ok(dir) => dir,
            Err(error) => {
                return Err(error);
            },
        };
        Ok(
            ReportJsonInput {
                status,
                has_new,
                new_items,
                has_deleted,
                deleted_items,
                has_passed,
                passed_items,
                has_failed,
                failed_items,
                actual_dir,
                expected_dir,
                diff_dir,
                diff_image_extention: DIFF_IMAGE_EXTENSION,
                ximgdiff_config: XimgdiffConfig { enabled: false, worker_url: String::new() },
            },
        )
    }
}

/// Assembles both reports from the sets and directories of a run. Fails
/// with `PathResolution` exactly if a directory cannot be named relative to
/// a report, or joined onto the URL prefix; nothing is written here.
pub fn create_reports(input: ReportInput) -> (result: Result<Reports, CompareError>)
    ensures
        match result {
            Ok(reports) => spec_create_reports(input@) == Ok::<ReportsView, CompareErrorView>(
                reports@,
            ),
            Err(error) => spec_create_reports(input@) == Err::<ReportsView, CompareErrorView>(
                error@,
            ),
        },
{
    let json = match json_report(&input) {
        Ok(json) => json,
        Err(error) => {
            return Err(error);
        },
    };
    let html = match &input.report {
        Some(report) => match Report::create(&input, report.as_str()) {
            Ok(document) => Some(document),
            Err(error) => {
                return Err(error);
            },
        },
        None => None,
    };
    Ok(Reports { json, html })
}

} // verus!
