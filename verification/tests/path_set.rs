use reg_core::path_set::PathSet;

fn set_of(paths: &[&str]) -> PathSet {
    PathSet::from_vec(paths.iter().map(|p| p.to_string()).collect())
}

fn list(set: &PathSet) -> Vec<String> {
    set.to_vec()
}

#[test]
fn insert_keeps_each_path_once() {
    let mut set = PathSet::new();
    assert!(set.insert("b.png".to_string()));
    assert!(set.insert("a.png".to_string()));
    assert!(!set.insert("b.png".to_string()));
    assert_eq!(set.len(), 2);
    assert_eq!(list(&set), vec!["a.png".to_string(), "b.png".to_string()]);
}

#[test]
fn new_set_is_empty() {
    let set = PathSet::new();
    assert!(set.is_empty());
    assert_eq!(set.len(), 0);
    assert!(!set.contains("a.png"));
    assert!(list(&set).is_empty());
}

#[test]
fn contains_is_exact_and_case_sensitive() {
    let set = set_of(&["dir/a.png", "B.png"]);
    assert!(set.contains("dir/a.png"));
    assert!(set.contains("B.png"));
    assert!(!set.contains("b.png"));
    assert!(!set.contains("dir/a.pn"));
    assert!(!set.contains("dir/a.png "));
    assert!(!set.contains(""));
}

#[test]
fn order_does_not_depend_on_insertion() {
    let one = set_of(&["c.png", "a.png", "b/z.png", "b.png", "a.png"]);
    let two = set_of(&["b.png", "b/z.png", "a.png", "c.png"]);
    assert_eq!(list(&one), list(&two));
    assert_eq!(
        list(&one),
        vec![
            "a.png".to_string(),
            "b.png".to_string(),
            "b/z.png".to_string(),
            "c.png".to_string()
        ]
    );
}

#[test]
fn order_is_that_of_the_bytes() {
    let set = set_of(&["b", "a/b", "a.b", "a", "B", "ab", "\u{e9}", "z", ""]);
    let mut expected: Vec<String> = vec!["b", "a/b", "a.b", "a", "B", "ab", "\u{e9}", "z", ""]
        .into_iter()
        .map(|p| p.to_string())
        .collect();
    expected.sort();
    assert_eq!(list(&set), expected);
    assert_eq!(list(&set)[0], "");
    assert_eq!(list(&set)[1], "B");
}

#[test]
fn get_follows_the_order() {
    let set = set_of(&["c.png", "a.png", "b.png"]);
    assert_eq!(set.get(0), Some(&"a.png".to_string()));
    assert_eq!(set.get(1), Some(&"b.png".to_string()));
    assert_eq!(set.get(2), Some(&"c.png".to_string()));
    assert_eq!(set.get(3), None);
    assert_eq!(PathSet::new().get(0), None);
}

#[test]
fn difference_and_intersection() {
    let actual = set_of(&["a.png", "c.png", "d.png"]);
    let expected = set_of(&["a.png", "b.png", "d.png"]);
    assert_eq!(list(&actual.difference(&expected)), vec!["c.png".to_string()]);
    assert_eq!(list(&expected.difference(&actual)), vec!["b.png".to_string()]);
    assert_eq!(
        list(&actual.intersection(&expected)),
        vec!["a.png".to_string(), "d.png".to_string()]
    );
    assert_eq!(
        list(&expected.intersection(&actual)),
        vec!["a.png".to_string(), "d.png".to_string()]
    );
}

#[test]
fn difference_with_empty_sets() {
    let some = set_of(&["a.png", "b.png"]);
    let none = PathSet::new();
    assert_eq!(list(&some.difference(&none)), list(&some));
    assert!(none.difference(&some).is_empty());
    assert!(some.intersection(&none).is_empty());
    assert!(some.difference(&some).is_empty());
    assert_eq!(list(&some.intersection(&some)), list(&some));
}

#[test]
fn clone_holds_the_same_paths() {
    let set = set_of(&["x/y.png", "a.png"]);
    let mut copy = set.clone();
    assert_eq!(list(&copy), list(&set));
    copy.insert("new.png".to_string());
    assert_eq!(set.len(), 2);
    assert_eq!(copy.len(), 3);
}

#[test]
fn many_paths_stay_sorted() {
    let mut set = PathSet::new();
    let mut expected: Vec<String> = Vec::new();
    for i in 0..200u32 {
        let name = format!("img/{}.png", (i * 7919) % 211);
        if !expected.contains(&name) {
            expected.push(name.clone());
        }
        set.insert(name);
    }
    expected.sort();
    assert_eq!(list(&set), expected);
    for name in &expected {
        assert!(set.contains(name));
    }
    assert!(!set.contains("img/211.png"));
}
