use unifs::components::{join_below, join_from, split_components, strip_prefix};
use unifs::memory_fs::read_dir::{insert_sorted, name_less};
use unifs::path::{normalize_path, CanonicalPath};
use unifs::stacked_fs::remount;

fn canonical(path: &str) -> Option<String> {
    normalize_path(path).map(|p| p.render())
}

#[test]
fn normalize_path_gives_the_canonical_form() {
    assert_eq!(canonical("/foo/../bar/./baz").as_deref(), Some("/bar/baz"));
    assert_eq!(canonical("test").as_deref(), Some("/test"));
    assert_eq!(canonical("").as_deref(), Some("/"));
    assert_eq!(canonical("/").as_deref(), Some("/"));
    assert_eq!(canonical("//a///b//").as_deref(), Some("/a/b"));
    assert_eq!(canonical("a/..").as_deref(), Some("/"));
    assert_eq!(canonical("...").as_deref(), Some("/..."));
    assert_eq!(canonical(".a/..b").as_deref(), Some("/.a/..b"));
    assert_eq!(canonical("ä/ö/../ü").as_deref(), Some("/ä/ü"));
    assert_eq!(canonical("foo/../../bar/./baz"), None);
    assert_eq!(canonical(".."), None);
    assert_eq!(canonical("/a/../.."), None);
}

#[test]
fn canonical_paths_are_lists_of_names() {
    let mut path = CanonicalPath::root();
    assert!(path.is_root());
    assert!(path.parent().is_none());
    assert!(!path.pop());
    path.push("a");
    path.push("b");
    assert_eq!(path.len(), 2);
    assert_eq!(path.name(0), "a");
    assert_eq!(path.file_name(), "b");
    assert_eq!(path.render(), "/a/b");
    let parent = path.parent().unwrap();
    assert_eq!(parent.render(), "/a");
    assert!(path.starts_with(&parent));
    assert!(path.starts_with(&path));
    assert!(!parent.starts_with(&path));
    assert!(path.starts_with(&CanonicalPath::root()));
    assert!(!path.same(&parent));
    assert!(parent.join("b").same(&path));
    assert!(!parent.join("bb").starts_with(&path));
    assert_eq!(path.prefix(0).render(), "/");
    assert_eq!(path.prefix(1).render(), "/a");
    assert_eq!(path.prefix(2).render(), "/a/b");
    let onto = CanonicalPath::root().join("x").join("y");
    assert_eq!(path.rebased(1, &onto).render(), "/x/y/b");
    assert_eq!(path.rebased(2, &onto).render(), "/x/y");
    assert_eq!(path.clone().render(), "/a/b");
    assert!(path.pop());
    assert_eq!(path.render(), "/a");
}

#[test]
fn components_are_read_as_written() {
    assert_eq!(split_components("/a//b/./c/"), vec!["/", "a", "b", "c"]);
    assert_eq!(split_components("a/../b"), vec!["a", "..", "b"]);
    assert_eq!(split_components("./a/."), vec![".", "a"]);
    assert_eq!(split_components("/./a"), vec!["/", "a"]);
    assert_eq!(split_components("/"), vec!["/"]);
    assert!(split_components("").is_empty());
    assert_eq!(split_components("."), vec!["."]);
}

#[test]
fn strip_prefix_works_on_components() {
    assert_eq!(strip_prefix("/stacked/test", "/stacked").as_deref(), Some("test"));
    assert_eq!(strip_prefix("/stacked//a/./b/", "/stacked/").as_deref(), Some("a/b"));
    assert_eq!(strip_prefix("/stacked", "/stacked").as_deref(), Some(""));
    assert_eq!(strip_prefix("/stackedx/a", "/stacked"), None);
    assert_eq!(strip_prefix("stacked/a", "/stacked"), None);
    assert_eq!(strip_prefix("/a", "/stacked"), None);
    assert_eq!(strip_prefix("/stacked/../a", "/stacked").as_deref(), Some("../a"));
    assert_eq!(strip_prefix("a/b", "").as_deref(), Some("a/b"));
    assert_eq!(strip_prefix("a/b", "a").as_deref(), Some("b"));
    assert_eq!(strip_prefix("./a/b", "a"), None);
    assert_eq!(strip_prefix("/", "/stacked"), None);
}

#[test]
fn joining() {
    assert_eq!(join_below("/r", "a/b"), "/r/a/b");
    assert_eq!(join_below("", ""), "/");
    let list = vec!["a".to_string(), "b".to_string(), "c".to_string()];
    assert_eq!(join_from(&list, 0), "a/b/c");
    assert_eq!(join_from(&list, 2), "c");
    assert_eq!(join_from(&list, 3), "");
    assert_eq!(remount("/m", "/a/b"), "/m/a/b");
    assert_eq!(remount("/m", "a"), "/m/a");
    assert_eq!(remount("/m", "/"), "/m/");
    assert_eq!(remount("/m", ""), "/m/");
}

#[test]
fn names_are_ordered_by_code_point() {
    assert!(name_less("a", "b"));
    assert!(!name_less("b", "a"));
    assert!(!name_less("a", "a"));
    assert!(name_less("", "a"));
    assert!(!name_less("a", ""));
    assert!(!name_less("", ""));
    assert!(name_less("a", "ab"));
    assert!(name_less("B", "a"));
    assert!(name_less("z", "é"));
    assert!(name_less("ab", "b"));
    let mut words: Vec<String> = ["pear", "Apple", "fig", "apple", "figs", "ähre"]
        .iter()
        .map(|w| w.to_string())
        .collect();
    let mut by_std = words.clone();
    by_std.sort();
    let mut mine: Vec<String> = Vec::new();
    for w in words.drain(..) {
        insert_sorted(&mut mine, w);
    }
    assert_eq!(mine, by_std);
}
