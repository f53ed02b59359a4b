use reg_core::dir::dirname;
use reg_core::dir::dirname_of;
use reg_core::dir::resolve_dir;
use reg_core::dir::resolved;
use reg_core::CompareError;

#[test]
fn dirname_of_a_file_is_its_directory() {
    assert_eq!(dirname("/a/b/report.html"), "/a/b");
    assert_eq!(dirname("./reg.json"), ".");
    assert_eq!(dirname("out/report.html"), "out");
}

#[test]
fn dirname_of_a_bare_file_name_is_empty() {
    assert_eq!(dirname("report.html"), "");
}

#[test]
fn dirname_without_a_file_name_is_the_path() {
    assert_eq!(dirname("/"), "/");
    assert_eq!(dirname(".."), "..");
    assert_eq!(dirname("a/.."), "a/..");
    assert_eq!(dirname(""), "");
}

#[test]
fn dirname_of_a_directory_path_is_its_parent() {
    assert_eq!(dirname("/a/b/"), "/a");
}

#[test]
fn dirname_of_from_parts() {
    assert_eq!(
        dirname_of("x/y", Some("y".to_string()), Some("x".to_string())),
        "x"
    );
    assert_eq!(dirname_of("y", Some("y".to_string()), None), "");
    assert_eq!(dirname_of("..", None, Some("ignored".to_string())), "..");
    assert_eq!(dirname_of("/", None, None), "/");
}

#[test]
fn resolve_dir_next_to_the_report() {
    assert_eq!(
        resolve_dir("/a/b/report.html", "/a/b/images"),
        Ok("images".to_string())
    );
}

#[test]
fn resolve_dir_walks_up_and_down() {
    assert_eq!(
        resolve_dir("/a/b/report.html", "/a/c/images"),
        Ok("../c/images".to_string())
    );
    assert_eq!(
        resolve_dir("./report.html", "./sample/actual"),
        Ok("sample/actual".to_string())
    );
    assert_eq!(
        resolve_dir("out/reg.json", "actual"),
        Ok("../actual".to_string())
    );
    assert_eq!(resolve_dir("/a/b/report.html", "/a/b"), Ok("".to_string()));
}

#[test]
fn resolve_dir_of_an_absolute_target_from_a_relative_base() {
    assert_eq!(
        resolve_dir("report.html", "/abs/images"),
        Ok("/abs/images".to_string())
    );
}

#[test]
fn resolve_dir_fails_without_a_relative_path() {
    assert_eq!(
        resolve_dir("/abs/report.html", "rel/images"),
        Err(CompareError::PathResolution("rel/images".to_string()))
    );
    assert_eq!(
        resolve_dir("../report.html", "images"),
        Err(CompareError::PathResolution("images".to_string()))
    );
}

#[test]
fn resolved_maps_a_missing_path_to_the_error() {
    assert_eq!(resolved("t", Some("p".to_string())), Ok("p".to_string()));
    assert_eq!(
        resolved("t", None),
        Err(CompareError::PathResolution("t".to_string()))
    );
}
