use sndlab::log::{LogKind, LogPane, MAX_LINES};

fn lines(pane: &LogPane) -> Vec<(LogKind, String)> {
    pane.entries().map(|e| (e.kind, e.line.clone())).collect()
}

#[test]
fn new_pane_is_empty() {
    let pane = LogPane::default();
    assert_eq!(pane.entries().count(), 0);
}

#[test]
fn push_appends_in_order_with_kind() {
    let mut pane = LogPane::new();
    pane.info("first".to_string());
    pane.warn(String::from("second"));
    pane.error("third".to_string());
    pane.audio("fourth".to_string());
    pane.push(LogKind::Info, "fifth".to_string());
    assert_eq!(
        lines(&pane),
        vec![
            (LogKind::Info, "first".to_string()),
            (LogKind::Warn, "second".to_string()),
            (LogKind::Error, "third".to_string()),
            (LogKind::Audio, "fourth".to_string()),
            (LogKind::Info, "fifth".to_string()),
        ]
    );
}

#[test]
fn pane_keeps_only_latest_max_lines() {
    let mut pane = LogPane::new();
    for i in 0..(MAX_LINES + 10) {
        pane.info(format!("line {i}"));
    }
    let got = lines(&pane);
    assert_eq!(got.len(), MAX_LINES);
    assert_eq!(got[0].1, "line 10");
    assert_eq!(got[MAX_LINES - 1].1, format!("line {}", MAX_LINES + 9));
}

#[test]
fn full_pane_drops_exactly_the_oldest() {
    let mut pane = LogPane::new();
    for i in 0..MAX_LINES {
        pane.info(format!("{i}"));
    }
    assert_eq!(lines(&pane).len(), 256);
    pane.error("newest".to_string());
    let got = lines(&pane);
    assert_eq!(got.len(), 256);
    assert_eq!(got[0].1, "1");
    assert_eq!(got[255], (LogKind::Error, "newest".to_string()));
}

#[test]
fn timestamps_do_not_go_backwards() {
    let mut pane = LogPane::new();
    pane.info("a".to_string());
    pane.info("b".to_string());
    let when: Vec<_> = pane.entries().map(|e| e.when).collect();
    assert!(when[0] <= when[1]);
}

#[test]
fn overflowing_by_one_drops_the_first_line() {
    let mut pane = LogPane::default();
    for i in 0..=256 {
        pane.info(i.to_string());
    }
    let got = lines(&pane);
    assert_eq!(got.len(), 256);
    assert_eq!(got[0].1, "1");
    assert_eq!(got[255].1, "256");
    assert!(got.iter().all(|(k, _)| *k == LogKind::Info));
}
