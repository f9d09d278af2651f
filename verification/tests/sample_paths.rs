use std::path::PathBuf;

use sndlab::sample_paths::{plan_sample_path, resolve_sample_path, SamplePathPlan};

#[test]
fn absolute_paths_are_used_as_given() {
    let root = PathBuf::from("/projects/demo");
    assert_eq!(
        resolve_sample_path(Some(&root), "/sounds/kick.wav"),
        Ok(PathBuf::from("/sounds/kick.wav"))
    );
    assert_eq!(
        resolve_sample_path(None, "/sounds/kick.wav"),
        Ok(PathBuf::from("/sounds/kick.wav"))
    );
}

#[test]
fn relative_paths_go_under_the_project() {
    let root = PathBuf::from("/projects/demo");
    assert_eq!(
        resolve_sample_path(Some(&root), "samples/kick.wav"),
        Ok(PathBuf::from("/projects/demo/samples/kick.wav"))
    );
}

#[test]
fn relative_path_without_project_is_an_error() {
    assert_eq!(
        resolve_sample_path(None, "kick.wav"),
        Err("sample('kick.wav'): relative path but no project root is set — save the project first, or use an absolute path".to_string())
    );
}

#[test]
fn planning_follows_absoluteness_and_root() {
    assert_eq!(plan_sample_path(true, false, "x"), Ok(SamplePathPlan::AsGiven));
    assert_eq!(plan_sample_path(false, true, "x"), Ok(SamplePathPlan::UnderRoot));
    assert!(plan_sample_path(false, false, "x").is_err());
}
