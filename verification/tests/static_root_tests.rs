use asset_resolver::static_root::{
    choose_static_root, resolve_static_root, static_root_position, static_root_source,
    RootCandidate, RootSource, StaticRootError, STATIC_DIR,
};

fn candidate(path: &str, is_dir: bool) -> RootCandidate {
    RootCandidate { path: path.to_string(), is_dir }
}

#[test]
fn the_assets_lie_in_build() {
    assert_eq!(STATIC_DIR, "build");
}

#[test]
fn the_first_candidate_wins_when_it_is_a_directory() {
    let candidates = vec![candidate("/res/build", true), candidate("/exe/build", true)];
    assert_eq!(resolve_static_root(&candidates), Ok("/res/build".to_string()));
}

#[test]
fn a_later_candidate_is_taken_when_the_first_is_no_directory() {
    let candidates = vec![candidate("/res/build", false), candidate("/exe/build", true)];
    assert_eq!(resolve_static_root(&candidates), Ok("/exe/build".to_string()));
    let candidates = vec![
        candidate("/a", false),
        candidate("/b", false),
        candidate("/c", true),
        candidate("/d", true),
    ];
    assert_eq!(resolve_static_root(&candidates), Ok("/c".to_string()));
}

#[test]
fn no_directory_means_no_static_root() {
    let candidates = vec![candidate("/res/build", false), candidate("/exe/build", false)];
    assert_eq!(resolve_static_root(&candidates), Err(StaticRootError::Missing));
    assert_eq!(resolve_static_root(&Vec::new()), Err(StaticRootError::Missing));
}

#[test]
fn the_error_says_what_is_missing() {
    assert_eq!(StaticRootError::Missing.message(), "Missing static root");
}

#[test]
fn the_position_of_the_first_directory_is_given() {
    let candidates = vec![candidate("/a", false), candidate("/b", true), candidate("/c", true)];
    assert_eq!(static_root_position(&candidates), Some(1));
    assert_eq!(static_root_position(&vec![candidate("/a", true)]), Some(0));
}

#[test]
fn no_directory_has_no_position() {
    assert_eq!(static_root_position(&vec![candidate("/a", false)]), None);
    assert_eq!(static_root_position(&Vec::new()), None);
}

#[test]
fn position_and_root_name_the_same_candidate() {
    let candidates = vec![candidate("/same", false), candidate("/same", true), candidate("/z", true)];
    let position = static_root_position(&candidates).unwrap();
    assert_eq!(position, 1);
    assert_eq!(resolve_static_root(&candidates), Ok(candidates[position].path.clone()));
}

#[test]
fn the_resource_directory_comes_first() {
    let root = choose_static_root(Some(candidate("/res/build", true)), Some(candidate("/exe/build", true)));
    assert_eq!(root, Ok("/res/build".to_string()));
    let root = choose_static_root(Some(candidate("/res/build", true)), Some(candidate("/exe/build", false)));
    assert_eq!(root, Ok("/res/build".to_string()));
    let root = choose_static_root(Some(candidate("/res/build", true)), None);
    assert_eq!(root, Ok("/res/build".to_string()));
}

#[test]
fn the_executable_directory_is_taken_when_the_resources_hold_no_assets() {
    let root = choose_static_root(Some(candidate("/res/build", false)), Some(candidate("/exe/build", true)));
    assert_eq!(root, Ok("/exe/build".to_string()));
    let root = choose_static_root(None, Some(candidate("/exe/build", true)));
    assert_eq!(root, Ok("/exe/build".to_string()));
}

#[test]
fn neither_directory_means_no_static_root() {
    let root = choose_static_root(Some(candidate("/res/build", false)), Some(candidate("/exe/build", false)));
    assert_eq!(root, Err(StaticRootError::Missing));
    assert_eq!(choose_static_root(None, Some(candidate("/exe/build", false))), Err(StaticRootError::Missing));
    assert_eq!(choose_static_root(Some(candidate("/res/build", false)), None), Err(StaticRootError::Missing));
    assert_eq!(choose_static_root(None, None), Err(StaticRootError::Missing));
}

#[test]
fn the_source_names_the_candidate_that_was_chosen() {
    let resource = Some(candidate("/res/build", true));
    let executable = Some(candidate("/exe/build", true));
    assert_eq!(static_root_source(&resource, &executable), Some(RootSource::Resource));
    let resource = Some(candidate("/res/build", false));
    assert_eq!(static_root_source(&resource, &executable), Some(RootSource::Executable));
    assert_eq!(static_root_source(&None, &executable), Some(RootSource::Executable));
    assert_eq!(static_root_source(&resource, &None), None);
    assert_eq!(static_root_source(&None, &None), None);
}

#[test]
fn choosing_agrees_with_the_first_directory_in_priority() {
    for resource_state in [None, Some(false), Some(true)] {
        for executable_state in [None, Some(false), Some(true)] {
            let resource = resource_state.map(|is_dir| candidate("/res/build", is_dir));
            let executable = executable_state.map(|is_dir| candidate("/exe/build", is_dir));
            let mut listed = Vec::new();
            if let Some(is_dir) = resource_state {
                listed.push(candidate("/res/build", is_dir));
            }
            if let Some(is_dir) = executable_state {
                listed.push(candidate("/exe/build", is_dir));
            }
            assert_eq!(choose_static_root(resource, executable), resolve_static_root(&listed));
        }
    }
}
