use music_bot::path::{components_of, same_components};
use std::path::{Component, Path};

fn std_components(path: &str) -> Vec<String> {
    Path::new(path)
        .components()
        .map(|c| match c {
            Component::RootDir => "/".to_string(),
            Component::CurDir => ".".to_string(),
            Component::ParentDir => "..".to_string(),
            Component::Normal(s) => s.to_str().unwrap().to_string(),
            Component::Prefix(_) => unreachable!(),
        })
        .collect()
}

#[test]
fn components_match_std() {
    for path in [
        "", "a", "a.mp3", "a/b", "a//b", "a/./b", "a/b/", "/", "//a", "/a/b", ".", "./", "./a",
        ".//a/./", "a/..", "../a", "a/.", "/./a", "x.mp3/", ".a", "a/.b/..c",
    ] {
        assert_eq!(components_of(path), std_components(path), "{:?}", path);
    }
}

#[test]
fn same_components_compares_element_by_element() {
    assert!(same_components(&components_of("a//b"), &components_of("a/./b/")));
    assert!(!same_components(&components_of("a/b"), &components_of("b/a")));
    assert!(!same_components(&components_of("a"), &components_of("a/b")));
    assert!(!same_components(&components_of("/a"), &components_of("a")));
}
