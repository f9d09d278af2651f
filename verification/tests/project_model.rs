use std::path::PathBuf;

use sndlab::project::{Manifest, Project, ProjectError};

fn two_script_project() -> Project {
    let manifest = Manifest {
        name: "demo".to_string(),
        scripts: vec!["a.rhai".to_string(), "b.rhai".to_string()],
    };
    Project::from_loaded(
        PathBuf::from("/tmp/demo"),
        manifest,
        vec!["let x = 1;".to_string(), "patch(\"p\");\n".to_string()],
    )
    .unwrap()
}

#[test]
fn manifest_default_is_untitled_with_one_script() {
    let m = Manifest::default();
    assert_eq!(m.name, "untitled");
    assert_eq!(m.scripts, vec!["patches.rhai".to_string()]);
}

#[test]
fn unsaved_project_has_one_clean_seed_script() {
    let p = Project::unsaved("untitled".to_string(), "seed".to_string());
    assert_eq!(p.manifest.name, "untitled");
    assert_eq!(p.manifest.scripts, vec!["patches.rhai".to_string()]);
    assert!(p.root.is_none());
    assert_eq!(p.scripts.len(), 1);
    assert_eq!(p.scripts[0].relative_path, "patches.rhai");
    assert_eq!(p.scripts[0].buffer, "seed");
    assert!(!p.scripts[0].dirty);
    assert_eq!(p.active, 0);
    assert!(!p.is_dirty());
    assert_eq!(p.active_buffer(), "seed");
}

#[test]
fn concatenated_source_separates_and_terminates_scripts() {
    let p = two_script_project();
    assert_eq!(
        p.concatenated_source(),
        "// ─── a.rhai ───\nlet x = 1;\n// ─── b.rhai ───\npatch(\"p\");\n"
    );
}

#[test]
fn concatenated_source_of_empty_buffer_adds_newline() {
    let p = Project::unsaved("u".to_string(), String::new());
    assert_eq!(p.concatenated_source(), "// ─── patches.rhai ───\n\n");
}

#[test]
fn set_active_buffer_marks_dirty_only_on_change() {
    let mut p = Project::unsaved("u".to_string(), "same".to_string());
    p.set_active_buffer("same".to_string());
    assert!(!p.is_dirty());
    p.set_active_buffer("different".to_string());
    assert!(p.is_dirty());
    assert_eq!(p.active_buffer(), "different");
    p.set_active_buffer("different".to_string());
    assert!(p.scripts[0].dirty);
}

#[test]
fn mark_active_dirty_and_mutable_access() {
    let mut p = two_script_project();
    p.active = 1;
    p.active_buffer_mut().push_str("more");
    assert!(!p.is_dirty());
    assert_eq!(p.scripts[1].buffer, "patch(\"p\");\nmore");
    p.mark_active_dirty();
    assert!(p.is_dirty());
    assert!(!p.scripts[0].dirty);
    assert!(p.scripts[1].dirty);
}

#[test]
fn save_needs_a_root() {
    let p = Project::unsaved("u".to_string(), String::new());
    match p.save() {
        Err(ProjectError::Io(e)) => {
            assert_eq!(e.kind(), std::io::ErrorKind::InvalidInput);
            assert_eq!(e.to_string(), "unsaved project — pick a directory with Save As first");
        }
        other => panic!("unexpected: {other:?}"),
    }
    let p = two_script_project();
    assert_eq!(p.save().unwrap(), &PathBuf::from("/tmp/demo"));
}

#[test]
fn from_loaded_builds_clean_scripts_in_manifest_order() {
    let p = two_script_project();
    assert_eq!(p.root, Some(PathBuf::from("/tmp/demo")));
    assert_eq!(p.scripts.len(), 2);
    assert_eq!(p.scripts[0].relative_path, "a.rhai");
    assert_eq!(p.scripts[0].buffer, "let x = 1;");
    assert_eq!(p.scripts[1].relative_path, "b.rhai");
    assert!(!p.scripts[1].dirty);
    assert_eq!(p.active, 0);
}

#[test]
fn from_loaded_rejects_empty_manifest() {
    let m = Manifest { name: "x".to_string(), scripts: vec![] };
    assert!(matches!(
        Project::from_loaded(PathBuf::from("/tmp"), m, vec![]),
        Err(ProjectError::EmptyManifest)
    ));
}

#[test]
fn error_messages() {
    assert_eq!(ProjectError::Ron("bad".to_string()).message(), "ron: bad");
    assert_eq!(ProjectError::EmptyManifest.message(), "no scripts in project manifest");
    assert_eq!(
        ProjectError::MissingScript("x.rhai".to_string()).message(),
        "script 'x.rhai' not found relative to project"
    );
    let io = ProjectError::Io(std::io::Error::new(std::io::ErrorKind::Other, "disk"));
    assert_eq!(io.message(), "io: disk");
}

#[test]
fn directory_listing_keeps_sorted_rhai_files() {
    let names = vec![
        "zeta.rhai".to_string(),
        "notes.txt".to_string(),
        "alpha.rhai".to_string(),
        ".rhai".to_string(),
        "x.tar.rhai".to_string(),
        "rhai".to_string(),
        "Beta.rhai".to_string(),
        "odd.rhai.bak".to_string(),
    ];
    let m = Manifest::from_directory(Some("proj".to_string()), names).unwrap();
    assert_eq!(m.name, "proj");
    assert_eq!(
        m.scripts,
        vec![
            "Beta.rhai".to_string(),
            "alpha.rhai".to_string(),
            "x.tar.rhai".to_string(),
            "zeta.rhai".to_string()
        ]
    );
}

#[test]
fn directory_listing_without_scripts_is_an_error() {
    let r = Manifest::from_directory(None, vec!["a.txt".to_string(), ".rhai".to_string()]);
    assert!(matches!(r, Err(ProjectError::EmptyManifest)));
    let m = Manifest::from_directory(None, vec!["p.rhai".to_string()]).unwrap();
    assert_eq!(m.name, "untitled");
}

#[test]
fn marking_saved_cleans_every_script_and_sets_the_root() {
    let mut p = Project::unsaved("u".to_string(), "x".to_string());
    p.set_active_buffer("y".to_string());
    assert!(p.is_dirty());
    p.mark_saved(PathBuf::from("/tmp/elsewhere"));
    assert!(!p.is_dirty());
    assert_eq!(p.root, Some(PathBuf::from("/tmp/elsewhere")));
    assert_eq!(p.scripts[0].buffer, "y");
}

#[test]
fn marking_one_script_clean_leaves_the_others() {
    let mut p = two_script_project();
    p.active = 0;
    p.mark_active_dirty();
    p.active = 1;
    p.mark_active_dirty();
    p.mark_clean(0);
    assert!(!p.scripts[0].dirty);
    assert!(p.scripts[1].dirty);
    assert!(p.is_dirty());
}
