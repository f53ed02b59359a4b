use reg_core::discovery::collect_images;
use reg_core::discovery::find_images;
use reg_core::discovery::is_supported;
use reg_core::discovery::is_supported_extension;
use reg_core::discovery::DetectedImages;
use reg_core::path_set::PathSet;
use reg_core::CompareError;

fn strings(items: &[&str]) -> Vec<String> {
    items.iter().map(|p| p.to_string()).collect()
}

fn set_of(paths: &[&str]) -> PathSet {
    PathSet::from_vec(strings(paths))
}

#[test]
fn supported_extensions_in_lower_case() {
    for extension in ["tiff", "jpeg", "jpg", "gif", "png", "bmp", "webp"] {
        assert!(is_supported(extension));
    }
    for extension in ["tif", "PNG", "svg", "", "png ", "pngx", "webp2", "jp"] {
        assert!(!is_supported(extension));
    }
}

#[test]
fn extension_is_matched_whatever_its_case() {
    assert!(is_supported_extension("a.png"));
    assert!(is_supported_extension("a.PNG"));
    assert!(is_supported_extension("dir/sub/photo.JPeG"));
    assert!(is_supported_extension("x.Tiff"));
    assert!(is_supported_extension("x.webp"));
    assert!(is_supported_extension("x.BMP"));
    assert!(is_supported_extension("x.gif"));
    assert!(is_supported_extension("x.jpg"));
    assert!(is_supported_extension("archive.tar.png"));
    assert!(is_supported_extension("..png"));
    assert!(is_supported_extension("dir/a..png"));
    assert!(is_supported_extension("dir.d/a.png/"));
}

#[test]
fn other_files_are_not_images() {
    assert!(!is_supported_extension("a"));
    assert!(!is_supported_extension("a.txt"));
    assert!(!is_supported_extension("a.png.txt"));
    assert!(!is_supported_extension(".png"));
    assert!(!is_supported_extension("png"));
    assert!(!is_supported_extension("dir.png/readme"));
    assert!(!is_supported_extension("a.tif"));
    assert!(!is_supported_extension("a."));
    assert!(!is_supported_extension("..."));
    assert!(!is_supported_extension("a.png/.."));
    assert!(!is_supported_extension("dir/.gif"));
    assert!(!is_supported_extension("a.png."));
    assert!(!is_supported_extension(""));
    assert!(!is_supported_extension(".."));
}

#[test]
fn collect_images_names_images_relative_to_the_root() {
    let files = strings(&[
        "sample/expected/b.png",
        "sample/expected/sub",
        "sample/expected/sub/a.JPG",
        "sample/expected/readme.md",
        "sample/expected/./c.png",
        "sample/expected/sub/../d.gif",
    ]);
    let set = collect_images("./sample/expected", &files).unwrap();
    assert_eq!(set.to_vec(), strings(&["b.png", "c.png", "d.gif", "sub/a.JPG"]));
}

#[test]
fn collect_images_holds_each_image_once() {
    let files = strings(&["root/a.png", "root/./a.png", "root//a.png", "root/x/../a.png"]);
    let set = collect_images("root", &files).unwrap();
    assert_eq!(set.to_vec(), strings(&["a.png"]));
}

#[test]
fn collect_images_of_nothing_is_empty() {
    let set = collect_images("root", &Vec::new()).unwrap();
    assert!(set.is_empty());
}

#[test]
fn collect_images_rejects_an_image_outside_the_root() {
    let files = strings(&["root/a.png", "other/b.png", "elsewhere/c.png"]);
    assert_eq!(
        collect_images("root", &files).unwrap_err(),
        CompareError::PathResolution("other/b.png".to_string())
    );
}

#[test]
fn collect_images_ignores_other_files_outside_the_root() {
    let files = strings(&["root/a.png", "other/notes.txt"]);
    let set = collect_images("root", &files).unwrap();
    assert_eq!(set.to_vec(), strings(&["a.png"]));
}

#[test]
fn find_images_derives_new_and_deleted() {
    let expected_files = strings(&["exp/a.png", "exp/b.png"]);
    let actual_files = strings(&["act/a.png", "act/c.png"]);
    let detected = find_images("exp", &expected_files, "act", &actual_files).unwrap();
    assert_eq!(detected.expected().to_vec(), strings(&["a.png", "b.png"]));
    assert_eq!(detected.actual().to_vec(), strings(&["a.png", "c.png"]));
    assert_eq!(detected.new_items().to_vec(), strings(&["c.png"]));
    assert_eq!(detected.deleted().to_vec(), strings(&["b.png"]));
    assert_eq!(detected.targets().to_vec(), strings(&["a.png"]));
}

#[test]
fn find_images_is_the_same_for_any_order_of_the_files() {
    let one = find_images(
        "e",
        &strings(&["e/z.png", "e/a.png", "e/m/k.png"]),
        "a",
        &strings(&["a/m/k.png", "a/q.png", "a/a.png"]),
    )
    .unwrap();
    let two = find_images(
        "e",
        &strings(&["e/m/k.png", "e/a.png", "e/z.png"]),
        "a",
        &strings(&["a/a.png", "a/q.png", "a/m/k.png"]),
    )
    .unwrap();
    assert_eq!(one.expected().to_vec(), two.expected().to_vec());
    assert_eq!(one.actual().to_vec(), two.actual().to_vec());
    assert_eq!(one.new_items().to_vec(), two.new_items().to_vec());
    assert_eq!(one.deleted().to_vec(), two.deleted().to_vec());
    assert_eq!(one.targets().to_vec(), two.targets().to_vec());
    assert_eq!(one.targets().to_vec(), strings(&["a.png", "m/k.png"]));
}

#[test]
fn find_images_reports_the_expected_tree_first() {
    let error = find_images(
        "e",
        &strings(&["x/a.png"]),
        "a",
        &strings(&["y/b.png"]),
    )
    .unwrap_err();
    assert_eq!(error, CompareError::PathResolution("x/a.png".to_string()));
    let error = find_images(
        "e",
        &strings(&["e/a.png"]),
        "a",
        &strings(&["y/b.png"]),
    )
    .unwrap_err();
    assert_eq!(error, CompareError::PathResolution("y/b.png".to_string()));
}

#[test]
fn new_and_deleted_are_differences_and_disjoint() {
    let cases: Vec<(Vec<&str>, Vec<&str>)> = vec![
        (vec![], vec![]),
        (vec!["a.png"], vec![]),
        (vec![], vec!["a.png"]),
        (vec!["a.png", "b.png"], vec!["a.png", "c.png"]),
        (vec!["a.png", "b.png"], vec!["a.png", "b.png"]),
        (vec!["1.png", "2.png", "3.png"], vec!["4.png", "5.png"]),
    ];
    for (expected, actual) in cases {
        let detected = DetectedImages::from_sets(set_of(&expected), set_of(&actual));
        for path in detected.new_items().to_vec() {
            assert!(actual.contains(&path.as_str()));
            assert!(!expected.contains(&path.as_str()));
            assert!(!detected.deleted().contains(&path));
            assert!(!detected.targets().contains(&path));
        }
        for path in detected.deleted().to_vec() {
            assert!(expected.contains(&path.as_str()));
            assert!(!actual.contains(&path.as_str()));
            assert!(!detected.targets().contains(&path));
        }
        for path in actual.iter() {
            let in_expected = expected.contains(path);
            assert_eq!(detected.new_items().contains(path), !in_expected);
            assert_eq!(detected.targets().contains(path), in_expected);
        }
        for path in expected.iter() {
            let in_actual = actual.contains(path);
            assert_eq!(detected.deleted().contains(path), !in_actual);
            assert_eq!(detected.targets().contains(path), in_actual);
        }
    }
}
