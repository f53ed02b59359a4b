use reg_core::path_set::PathSet;
use reg_core::report::create_dir_for_json_report;
use reg_core::report::create_reports;
use reg_core::report::document_dir;
use reg_core::report::json_report;
use reg_core::report::report_items;
use reg_core::report::Report;
use reg_core::report::ReportInput;
use reg_core::report::ReportItem;
use reg_core::report::ReportStatus;
use reg_core::CompareError;

fn strings(items: &[&str]) -> Vec<String> {
    items.iter().map(|p| p.to_string()).collect()
}

fn set_of(paths: &[&str]) -> PathSet {
    PathSet::from_vec(strings(paths))
}

fn input() -> ReportInput {
    ReportInput {
        passed: set_of(&["a.png"]),
        failed: set_of(&["f 1.png"]),
        new: set_of(&["n.png", "dir/m.png"]),
        deleted: set_of(&["d.png"]),
        expected: set_of(&["a.png", "d.png", "f 1.png"]),
        actual: set_of(&["a.png", "dir/m.png", "f 1.png", "n.png"]),
        differences: set_of(&["f 1.png"]),
        json: "/work/out/reg.json".to_string(),
        actual_dir: "/work/actual".to_string(),
        expected_dir: "/work/expected".to_string(),
        diff_dir: "/work/out/diff".to_string(),
        report: Some("/work/report.html".to_string()),
        url_prefix: None,
        from_json: false,
    }
}

fn item(raw: &str, encoded: &str) -> ReportItem {
    ReportItem { raw: raw.to_string(), encoded: encoded.to_string() }
}

#[test]
fn json_dir_is_relative_to_the_report() {
    assert_eq!(
        create_dir_for_json_report("/a/b/reg.json", "/a/b/images", None),
        Ok("images".to_string())
    );
    assert_eq!(
        create_dir_for_json_report("./reg.json", "./sample/actual", None),
        Ok("sample/actual".to_string())
    );
}

#[test]
fn json_dir_is_joined_onto_the_url() {
    assert_eq!(
        create_dir_for_json_report("/a/b/report.html", "/a/b/images", Some("http://x/")),
        Ok("http://x/images".to_string())
    );
    assert_eq!(
        create_dir_for_json_report(
            "/a/b/reg.json",
            "/a/c/images",
            Some("https://example.com/reports/run/")
        ),
        Ok("https://example.com/reports/c/images".to_string())
    );
    assert_eq!(
        create_dir_for_json_report("/a/reg.json", "/a/my images", Some("http://x/base/")),
        Ok("http://x/base/my%20images".to_string())
    );
}

#[test]
fn json_dir_fails_without_a_relative_path() {
    assert_eq!(
        create_dir_for_json_report("/abs/reg.json", "rel/images", None),
        Err(CompareError::PathResolution("rel/images".to_string()))
    );
    assert_eq!(
        create_dir_for_json_report("/abs/reg.json", "rel/images", Some("http://x/")),
        Err(CompareError::PathResolution("rel/images".to_string()))
    );
}

#[test]
fn json_dir_fails_on_a_prefix_that_is_no_url() {
    assert_eq!(
        create_dir_for_json_report("/a/reg.json", "/a/images", Some("not a url")),
        Err(CompareError::PathResolution("/a/images".to_string()))
    );
}

#[test]
fn document_dir_is_passed_through_from_json() {
    assert_eq!(document_dir("/a/report.html", "x/y", true), Ok("x/y".to_string()));
    assert_eq!(
        document_dir("/a/report.html", "/a/images", false),
        Ok("images".to_string())
    );
    assert_eq!(
        document_dir("/a/report.html", "images", false),
        Err(CompareError::PathResolution("images".to_string()))
    );
}

#[test]
fn item_holds_the_raw_and_the_encoded_path() {
    assert_eq!(
        ReportItem::from_path("dir with space/a#1.png".to_string()),
        item("dir with space/a#1.png", "dir%20with%20space/a%231.png")
    );
    assert_eq!(ReportItem::from_path("a.png".to_string()), item("a.png", "a.png"));
}

#[test]
fn items_follow_the_order_of_the_set() {
    let items = report_items(&set_of(&["z.png", "a b.png", "m/k.png"]));
    assert_eq!(
        items,
        vec![item("a b.png", "a%20b.png"), item("m/k.png", "m/k.png"), item("z.png", "z.png")]
    );
    assert!(report_items(&PathSet::new()).is_empty());
}

#[test]
fn json_report_copies_the_sets_and_resolves_the_directories() {
    let input = input();
    let json = json_report(&input).unwrap();
    assert_eq!(json.failed_items.to_vec(), strings(&["f 1.png"]));
    assert_eq!(json.new_items.to_vec(), strings(&["dir/m.png", "n.png"]));
    assert_eq!(json.deleted_items.to_vec(), strings(&["d.png"]));
    assert_eq!(json.passed_items.to_vec(), strings(&["a.png"]));
    assert_eq!(json.expected_items.to_vec(), strings(&["a.png", "d.png", "f 1.png"]));
    assert_eq!(
        json.actual_items.to_vec(),
        strings(&["a.png", "dir/m.png", "f 1.png", "n.png"])
    );
    assert_eq!(json.diff_items.to_vec(), strings(&["f 1.png"]));
    assert_eq!(json.actual_dir, "../actual");
    assert_eq!(json.expected_dir, "../expected");
    assert_eq!(json.diff_dir, "diff");
}

#[test]
fn json_report_with_a_url_prefix() {
    let mut input = input();
    input.url_prefix = Some("https://host/ci/42/out/".to_string());
    let json = json_report(&input).unwrap();
    assert_eq!(json.actual_dir, "https://host/ci/42/actual");
    assert_eq!(json.expected_dir, "https://host/ci/42/expected");
    assert_eq!(json.diff_dir, "https://host/ci/42/out/diff");
}

#[test]
fn json_report_names_the_first_directory_that_fails() {
    let mut input = input();
    input.expected_dir = "relative/expected".to_string();
    input.diff_dir = "relative/diff".to_string();
    assert_eq!(
        json_report(&input).unwrap_err(),
        CompareError::PathResolution("relative/expected".to_string())
    );
}

#[test]
fn document_of_a_run_with_failures() {
    let input = input();
    let document = Report::create(&input, "/work/report.html").unwrap();
    assert_eq!(document.status, ReportStatus::Danger);
    assert!(document.has_new);
    assert!(document.has_deleted);
    assert!(document.has_passed);
    assert!(document.has_failed);
    assert_eq!(document.new_items, vec![item("dir/m.png", "dir/m.png"), item("n.png", "n.png")]);
    assert_eq!(document.deleted_items, vec![item("d.png", "d.png")]);
    assert_eq!(document.passed_items, vec![item("a.png", "a.png")]);
    assert_eq!(document.failed_items, vec![item("f 1.png", "f%201.png")]);
    assert_eq!(document.actual_dir, "actual");
    assert_eq!(document.expected_dir, "expected");
    assert_eq!(document.diff_dir, "out/diff");
    assert_eq!(document.diff_image_extention, "webp");
    assert!(!document.ximgdiff_config.enabled);
}

#[test]
fn document_of_a_run_without_failures() {
    let mut input = input();
    input.failed = PathSet::new();
    input.differences = PathSet::new();
    input.new = PathSet::new();
    input.deleted = PathSet::new();
    let document = Report::create(&input, "/work/report.html").unwrap();
    assert_eq!(document.status, ReportStatus::Success);
    assert!(!document.has_new);
    assert!(!document.has_deleted);
    assert!(document.has_passed);
    assert!(!document.has_failed);
    assert!(document.failed_items.is_empty());
    assert!(document.new_items.is_empty());
    assert!(document.deleted_items.is_empty());
}

#[test]
fn document_shows_the_images_with_differences_as_failed() {
    let mut input = input();
    input.failed = set_of(&["f 1.png", "g.png"]);
    input.differences = set_of(&["g.png"]);
    let document = Report::create(&input, "/work/report.html").unwrap();
    assert_eq!(document.status, ReportStatus::Danger);
    assert_eq!(document.failed_items, vec![item("g.png", "g.png")]);
    input.failed = PathSet::new();
    input.differences = set_of(&["g.png"]);
    let document = Report::create(&input, "/work/report.html").unwrap();
    assert_eq!(document.status, ReportStatus::Success);
    assert!(document.has_failed);
}

#[test]
fn document_from_json_keeps_the_directories() {
    let mut input = input();
    input.from_json = true;
    input.actual_dir = "rel/actual".to_string();
    let document = Report::create(&input, "/work/report.html").unwrap();
    assert_eq!(document.actual_dir, "rel/actual");
    assert_eq!(document.expected_dir, "/work/expected");
    assert_eq!(document.diff_dir, "/work/out/diff");
}

#[test]
fn document_dirs_are_relative_to_the_document_not_the_json() {
    let reports = create_reports(input()).unwrap();
    assert_eq!(reports.json.diff_dir, "diff");
    assert_eq!(reports.html.unwrap().diff_dir, "out/diff");
}

#[test]
fn no_document_without_a_destination() {
    let mut input = input();
    input.report = None;
    let reports = create_reports(input).unwrap();
    assert!(reports.html.is_none());
    assert_eq!(reports.json.actual_dir, "../actual");
}

#[test]
fn create_reports_fails_where_the_document_cannot_link() {
    let mut input = input();
    input.json = "reg.json".to_string();
    input.actual_dir = "actual".to_string();
    input.expected_dir = "expected".to_string();
    input.diff_dir = "diff".to_string();
    input.report = Some("/abs/report.html".to_string());
    assert_eq!(
        create_reports(input).unwrap_err(),
        CompareError::PathResolution("actual".to_string())
    );
}
