use sndlab::patches::PatchRole;
use sndlab::session::{
    after_eval, decide_live_eval, decide_replace, default_new_filename, eval_ok_line,
    first_one_shot, plan_reconcile, promote_live_error, record_eval_failure, record_eval_success,
    AfterEval, ArmedSet, ErrorContext, LiveError, LiveEvalState,
    LiveEvalStep, Modal, PendingAction, ReconcileKind, ReplaceDecision,
};

fn s(v: &[&str]) -> Vec<String> {
    v.iter().map(|x| x.to_string()).collect()
}

#[test]
fn arming_toggles() {
    let mut a = ArmedSet::new();
    assert!(a.is_empty());
    a.toggle("ping");
    a.toggle("boom");
    assert!(a.contains("ping"));
    assert_eq!(a.len(), 2);
    a.toggle("ping");
    assert!(!a.contains("ping"));
    assert_eq!(a.names(), s(&["boom"]));
    a.toggle("ping");
    a.toggle("ping");
    assert_eq!(a.names(), s(&["boom"]));
}

#[test]
fn retain_known_drops_vanished_patches() {
    let mut a = ArmedSet::new();
    a.toggle("a");
    a.toggle("b");
    a.toggle("c");
    a.retain_known(&s(&["c", "a", "z"]));
    assert_eq!(a.names(), s(&["a", "c"]));
}

#[test]
fn reconcile_plan_fades_removed_and_crossfades_when_live() {
    let playing = s(&["hum", "gone", "wash"]);
    let known = s(&["hum", "wash"]);
    let plan = plan_reconcile(&playing, &known, true);
    let got: Vec<(ReconcileKind, String)> = plan.into_iter().map(|a| (a.kind, a.name)).collect();
    assert_eq!(
        got,
        vec![
            (ReconcileKind::Crossfade, "hum".to_string()),
            (ReconcileKind::FadeOut, "gone".to_string()),
            (ReconcileKind::Crossfade, "wash".to_string()),
        ]
    );
    let quiet = plan_reconcile(&playing, &known, false);
    assert_eq!(quiet.len(), 1);
    assert_eq!(quiet[0].name, "gone");
}

#[test]
fn first_one_shot_index() {
    assert_eq!(first_one_shot(&[PatchRole::Ambient, PatchRole::OneShot, PatchRole::OneShot]), Some(1));
    assert_eq!(first_one_shot(&[PatchRole::Ambient]), None);
    assert_eq!(first_one_shot(&[]), None);
}

#[test]
fn live_eval_debounce() {
    assert_eq!(decide_live_eval(false, Some(1000), "a", "b"), LiveEvalStep::Wait);
    assert_eq!(decide_live_eval(true, None, "a", "b"), LiveEvalStep::Wait);
    assert_eq!(decide_live_eval(true, Some(399), "a", "b"), LiveEvalStep::Wait);
    assert_eq!(decide_live_eval(true, Some(400), "a", "b"), LiveEvalStep::Evaluate);
    assert_eq!(decide_live_eval(true, Some(5000), "a", "a"), LiveEvalStep::Settle);
}

#[test]
fn live_error_is_promoted_once_after_delay() {
    let mut e = LiveError {
        message: "bad".to_string(),
        started_at: std::time::Instant::now(),
        logged: false,
        context: None,
    };
    assert_eq!(promote_live_error(&mut e, 2999), None);
    assert!(!e.logged);
    assert_eq!(promote_live_error(&mut e, 3000), Some("script still failing: bad".to_string()));
    assert!(e.logged);
    assert_eq!(promote_live_error(&mut e, 9000), None);
}

#[test]
fn recording_failures() {
    let mut st = LiveEvalState::default();
    assert!(st.error.is_none());
    let ctx = ErrorContext {
        filename: "a.rhai".to_string(),
        line: 3,
        column: 7,
        source_line: "sine(".to_string(),
    };
    record_eval_failure(&mut st, "oops".to_string(), Some(ctx), false);
    let first_start = st.error.as_ref().unwrap().started_at;
    assert!(!st.error.as_ref().unwrap().logged);
    assert_eq!(st.error.as_ref().unwrap().context.as_ref().unwrap().line, 3);
    // Same message: keeps the original clock and context.
    record_eval_failure(&mut st, "oops".to_string(), None, true);
    let e = st.error.as_ref().unwrap();
    assert_eq!(e.started_at, first_start);
    assert!(e.context.is_some());
    assert!(e.logged);
    // New message replaces it.
    record_eval_failure(&mut st, "other".to_string(), None, false);
    let e = st.error.as_ref().unwrap();
    assert_eq!(e.message, "other");
    assert!(!e.logged);
    assert!(e.context.is_none());
}

#[test]
fn new_filenames_avoid_collisions() {
    assert_eq!(default_new_filename(&s(&["patches.rhai"])), "untitled.rhai");
    assert_eq!(default_new_filename(&s(&["untitled.rhai"])), "untitled-2.rhai");
    assert_eq!(
        default_new_filename(&s(&["untitled.rhai", "untitled-2.rhai", "untitled-3.rhai"])),
        "untitled-4.rhai"
    );
    let mut all = s(&["untitled.rhai"]);
    for n in 2..1000 {
        all.push(format!("untitled-{n}.rhai"));
    }
    assert_eq!(default_new_filename(&all), "untitled-many.rhai");
    all.retain(|n| n != "untitled-512.rhai");
    assert_eq!(default_new_filename(&all), "untitled-512.rhai");
}

#[test]
fn replacing_a_dirty_project_asks_first() {
    match decide_replace(true, PendingAction::OpenProject) {
        ReplaceDecision::Confirm(Modal::ConfirmDiscard { action }) => {
            assert_eq!(action, PendingAction::OpenProject)
        }
        other => panic!("unexpected {other:?}"),
    }
    assert!(matches!(
        decide_replace(false, PendingAction::NewProject),
        ReplaceDecision::Proceed(PendingAction::NewProject)
    ));
}

#[test]
fn eval_ok_line_lists_patches() {
    assert_eq!(eval_ok_line(&s(&[])), "eval ok — 0 patch(es): []");
    assert_eq!(eval_ok_line(&s(&["ping"])), "eval ok — 1 patch(es): [ping]");
    assert_eq!(
        eval_ok_line(&s(&["ping", "wind", "hum"])),
        "eval ok — 3 patch(es): [ping, wind, hum]"
    );
}

#[test]
fn manual_eval_plays_first_one_shot_or_warns() {
    let roles = [PatchRole::Ambient, PatchRole::OneShot, PatchRole::OneShot];
    assert!(matches!(after_eval(&roles, true), AfterEval::Play(1)));
    assert!(matches!(after_eval(&roles, false), AfterEval::Nothing));
    assert!(matches!(after_eval(&[PatchRole::Ambient], true), AfterEval::Nothing));
    match after_eval(&[], true) {
        AfterEval::Warn(line) => assert_eq!(
            line,
            "no patches registered — script ran but didn't call patch(...)"
        ),
        other => panic!("unexpected: {other:?}"),
    }
    assert!(matches!(after_eval(&[], false), AfterEval::Nothing));
}

#[test]
fn success_clears_the_live_error() {
    let mut state = LiveEvalState::default();
    record_eval_failure(&mut state, "boom".to_string(), None, false);
    assert!(state.error.is_some());
    record_eval_success(&mut state);
    assert!(state.error.is_none());
}
