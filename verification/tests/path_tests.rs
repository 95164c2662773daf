use asset_resolver::path::{
    extension_of_components, extension_of_name, extension_of_path, is_plain, normalize_components,
    normalize_relative_path, PathComponent, RelativePath,
};

fn names(path: &RelativePath) -> Vec<&str> {
    path.segments().iter().map(|s| s.as_str()).collect()
}

fn normal(name: &str) -> PathComponent {
    PathComponent::Normal(name.to_string())
}

#[test]
fn plain_segments_are_kept_in_order() {
    let path = normalize_relative_path("assets/img/logo.png").unwrap();
    assert_eq!(names(&path), vec!["assets", "img", "logo.png"]);
}

#[test]
fn empty_path_gives_empty_relative_path() {
    let path = normalize_relative_path("").unwrap();
    assert!(path.segments().is_empty());
}

#[test]
fn current_directory_segments_are_dropped() {
    let path = normalize_relative_path("./a/./b/.").unwrap();
    assert_eq!(names(&path), vec!["a", "b"]);
}

#[test]
fn repeated_separators_are_ignored() {
    let path = normalize_relative_path("a//b///c").unwrap();
    assert_eq!(names(&path), vec!["a", "b", "c"]);
}

#[test]
fn parent_pops_the_last_segment() {
    let path = normalize_relative_path("a/b/../c").unwrap();
    assert_eq!(names(&path), vec!["a", "c"]);
    let path = normalize_relative_path("a/..").unwrap();
    assert!(path.segments().is_empty());
}

#[test]
fn parent_with_nothing_to_pop_is_rejected() {
    assert!(normalize_relative_path("..").is_none());
    assert!(normalize_relative_path("../etc/passwd").is_none());
    assert!(normalize_relative_path("a/../../b").is_none());
    assert!(normalize_relative_path("a/../..").is_none());
}

#[test]
fn absolute_paths_are_rejected() {
    assert!(normalize_relative_path("/").is_none());
    assert!(normalize_relative_path("/etc/passwd").is_none());
    assert!(normalize_relative_path("//server/share").is_none());
}

#[test]
fn components_fold_as_specified() {
    let parts = vec![
        normal("a"),
        PathComponent::CurDir,
        normal("b"),
        PathComponent::ParentDir,
        normal("c"),
    ];
    let path = normalize_components(&parts).unwrap();
    assert_eq!(names(&path), vec!["a", "c"]);
}

#[test]
fn no_components_give_the_empty_path() {
    let path = normalize_components(&Vec::new()).unwrap();
    assert!(path.segments().is_empty());
}

#[test]
fn root_component_is_rejected_wherever_it_stands() {
    assert!(normalize_components(&vec![PathComponent::RootDir]).is_none());
    assert!(normalize_components(&vec![normal("a"), PathComponent::RootDir, normal("b")]).is_none());
}

#[test]
fn prefix_component_is_rejected_wherever_it_stands() {
    assert!(normalize_components(&vec![PathComponent::Prefix, normal("a")]).is_none());
    assert!(normalize_components(&vec![normal("a"), normal("b"), PathComponent::Prefix]).is_none());
}

#[test]
fn parent_component_at_depth_zero_is_rejected() {
    assert!(normalize_components(&vec![PathComponent::ParentDir]).is_none());
    let parts = vec![normal("a"), PathComponent::ParentDir, PathComponent::ParentDir, normal("b")];
    assert!(normalize_components(&parts).is_none());
    let parts = vec![PathComponent::CurDir, PathComponent::ParentDir];
    assert!(normalize_components(&parts).is_none());
}

#[test]
fn rejection_is_not_undone_by_later_components() {
    let parts = vec![PathComponent::ParentDir, normal("a"), normal("b")];
    assert!(normalize_components(&parts).is_none());
}

#[test]
fn normalizing_a_normalized_path_changes_nothing() {
    let first = normalize_relative_path("a/./b/../c/d").unwrap();
    assert_eq!(names(&first), vec!["a", "c", "d"]);
    let again = normalize_components(&first.to_components()).unwrap();
    assert_eq!(names(&again), names(&first));
    let text = names(&first).join("/");
    let through_text = normalize_relative_path(&text).unwrap();
    assert_eq!(names(&through_text), names(&first));
}

#[test]
fn to_components_spells_each_name_as_a_plain_component() {
    let path = normalize_relative_path("x/y.txt").unwrap();
    let components = path.to_components();
    assert_eq!(components.len(), 2);
    assert!(matches!(&components[0], PathComponent::Normal(name) if name == "x"));
    assert!(matches!(&components[1], PathComponent::Normal(name) if name == "y.txt"));
}

#[test]
fn extension_is_what_follows_the_last_dot() {
    assert_eq!(extension_of_name("app.wasm"), "wasm");
    assert_eq!(extension_of_name("archive.tar.gz"), "gz");
    assert_eq!(extension_of_name("index.html"), "html");
    assert_eq!(extension_of_name("a.b"), "b");
}

#[test]
fn names_without_an_extension() {
    assert_eq!(extension_of_name(""), "");
    assert_eq!(extension_of_name("Makefile"), "");
    assert_eq!(extension_of_name(".hidden"), "");
    assert_eq!(extension_of_name("trailing."), "");
    assert_eq!(extension_of_name("."), "");
}

#[test]
fn leading_dot_with_a_later_dot_has_an_extension() {
    assert_eq!(extension_of_name(".config.json"), "json");
    assert_eq!(extension_of_name("..foo"), "foo");
}

#[test]
fn extension_of_name_handles_wide_characters() {
    assert_eq!(extension_of_name("r\u{e9}sum\u{e9}.txt"), "txt");
    assert_eq!(extension_of_name("file.\u{65e5}\u{672c}"), "\u{65e5}\u{672c}");
}

#[test]
fn extension_of_path_goes_by_the_last_component() {
    assert_eq!(extension_of_path("assets/app.js"), "js");
    assert_eq!(extension_of_path("app.wasm"), "wasm");
    assert_eq!(extension_of_path("dir.d/file"), "");
    assert_eq!(extension_of_path("a/b.css/"), "css");
}

#[test]
fn extension_of_path_without_a_file_name() {
    assert_eq!(extension_of_path(""), "");
    assert_eq!(extension_of_path("/"), "");
    assert_eq!(extension_of_path("a/.."), "");
    assert_eq!(extension_of_path(".."), "");
}

#[test]
fn extension_of_components_matches_names() {
    assert_eq!(extension_of_components(&vec![normal("a"), normal("b.png")]), "png");
    assert_eq!(extension_of_components(&vec![normal("b.png"), PathComponent::ParentDir]), "");
    assert_eq!(extension_of_components(&vec![PathComponent::RootDir]), "");
    assert_eq!(extension_of_components(&Vec::new()), "");
}

#[test]
fn plain_names() {
    for name in ["a", "index.html", "..a", "a..", "...", ".hidden", "a b", "a\\b", "\u{e9}"] {
        assert!(is_plain(name), "{:?}", name);
    }
}

#[test]
fn names_that_are_not_plain() {
    for name in ["", ".", "..", "/", "a/b", "/a", "a/", "../x"] {
        assert!(!is_plain(name), "{:?}", name);
    }
}

#[test]
fn a_component_whose_name_is_not_plain_is_rejected() {
    assert!(normalize_components(&vec![normal("..")]).is_none());
    assert!(normalize_components(&vec![normal("a"), normal("."), normal("b")]).is_none());
    assert!(normalize_components(&vec![normal("a/b")]).is_none());
    assert!(normalize_components(&vec![normal("a"), normal("")]).is_none());
    assert!(normalize_components(&vec![normal("a"), normal("../../etc")]).is_none());
}

#[test]
fn the_empty_path_joins_to_the_index() {
    let index = RelativePath::new().join_index();
    assert_eq!(names(&index), vec!["index.html"]);
    let nested = normalize_relative_path("docs/api").unwrap().join_index();
    assert_eq!(names(&nested), vec!["docs", "api", "index.html"]);
}

#[test]
fn every_name_of_a_normalized_path_is_plain() {
    for text in ["a/b/c", "./a/../b", "a//b/./c/..", "x.y/z", ""] {
        let path = normalize_relative_path(text).unwrap();
        for name in names(&path) {
            assert!(is_plain(name), "{:?} in {:?}", name, text);
        }
    }
}
