use std::path::PathBuf;

use sndlab::project::{Manifest, Project};

fn project_with(buffers: Vec<&str>) -> Project {
    let names: Vec<String> = (0..buffers.len()).map(|i| format!("s{i}.rhai")).collect();
    let manifest = Manifest {
        name: "lines".to_string(),
        scripts: names,
    };
    Project::from_loaded(
        PathBuf::from("/tmp/lines"),
        manifest,
        buffers.into_iter().map(|b| b.to_string()).collect(),
    )
    .unwrap()
}

#[test]
fn separator_lines_resolve_to_nothing() {
    let p = project_with(vec!["a\nb\n", "c"]);
    assert_eq!(p.resolve_source_line(0), None);
    assert_eq!(p.resolve_source_line(1), None);
    assert_eq!(p.resolve_source_line(4), None);
}

#[test]
fn body_lines_resolve_to_their_script() {
    let p = project_with(vec!["a\nb\n", "c"]);
    assert_eq!(p.resolve_source_line(2), Some((0, 1)));
    assert_eq!(p.resolve_source_line(3), Some((0, 2)));
    assert_eq!(p.resolve_source_line(5), Some((1, 1)));
    assert_eq!(p.resolve_source_line(6), None);
}

#[test]
fn empty_buffer_occupies_one_line() {
    let p = project_with(vec!["", "x"]);
    assert_eq!(p.resolve_source_line(2), Some((0, 1)));
    assert_eq!(p.resolve_source_line(3), None);
    assert_eq!(p.resolve_source_line(4), Some((1, 1)));
    assert_eq!(p.script_line(0, 1), Some(String::new()));
    assert_eq!(p.script_line(0, 2), None);
}

#[test]
fn script_line_reads_one_line_without_newline() {
    let p = project_with(vec!["first\nsecond\n\nfourth", "only\n"]);
    assert_eq!(p.script_line(0, 1), Some("first".to_string()));
    assert_eq!(p.script_line(0, 2), Some("second".to_string()));
    assert_eq!(p.script_line(0, 3), Some(String::new()));
    assert_eq!(p.script_line(0, 4), Some("fourth".to_string()));
    assert_eq!(p.script_line(0, 5), None);
    assert_eq!(p.script_line(0, 0), None);
    assert_eq!(p.script_line(1, 1), Some("only".to_string()));
    assert_eq!(p.script_line(1, 2), None);
    assert_eq!(p.script_line(2, 1), None);
}

#[test]
fn resolved_line_matches_the_concatenated_source() {
    let p = project_with(vec!["let a = 1;\nlet b = 2;", "patch(\"p\");\n", ""]);
    let source = p.concatenated_source();
    let lines: Vec<&str> = source.split('\n').collect();
    for line in 1..=lines.len() {
        if let Some((i, l)) = p.resolve_source_line(line) {
            assert_eq!(p.script_line(i, l).as_deref(), Some(lines[line - 1]));
        } else if line < lines.len() {
            assert!(lines[line - 1].starts_with("// ─── "));
        }
    }
}
