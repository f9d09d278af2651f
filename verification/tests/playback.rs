use sndlab::delay_line::{DelayLine, MixProgress};
use sndlab::fade::{
    Countdown, FadeController, FadeInSchedule, FadeOutSchedule, FadeOutStep, FrameAction,
    SAMPLE_RATE,
};
use sndlab::handle::StreamingSoundHandle;

#[test]
fn handle_stop_publishes_fade_and_flag() {
    let h = StreamingSoundHandle::new();
    let shared = h.clone();
    assert!(!shared.stop_requested());
    h.stop(250);
    assert!(shared.stop_requested());
    assert_eq!(shared.fade_ms(), 250);
}

#[test]
fn steady_stream_plays_source_until_it_ends() {
    let mut c = FadeController::new();
    assert_eq!(c.next_frame(), FrameAction::Source);
    c.check_stop(false, 100);
    assert_eq!(c.next_frame(), FrameAction::Source);
    c.source_ended();
    assert!(c.finished());
    assert_eq!(c.next_frame(), FrameAction::Silence);
}

#[test]
fn zero_fade_stops_at_once() {
    let mut c = FadeController::new();
    c.check_stop(true, 0);
    assert!(c.finished());
    assert_eq!(c.next_frame(), FrameAction::Silence);
}

#[test]
fn fade_counts_down_then_finishes() {
    let mut c = FadeController::new();
    // 1 ms at 48 kHz is 48 frames.
    c.check_stop(true, 1);
    assert!(!c.finished());
    for k in 0..48u32 {
        assert_eq!(c.next_frame(), FrameAction::Fade { remaining: 48 - k, total: 48 });
    }
    assert_eq!(c.next_frame(), FrameAction::Silence);
    assert!(c.finished());
    // A later stop request changes nothing.
    c.check_stop(true, 500);
    assert!(c.finished());
}

#[test]
fn crossfade_length_matches_sample_rate() {
    let mut c = FadeController::new();
    c.check_stop(true, 200);
    let mut n = 0;
    while let FrameAction::Fade { total, .. } = c.next_frame() {
        assert_eq!(total, 9600);
        n += 1;
    }
    assert_eq!(n, 200 * SAMPLE_RATE / 1000);
}

#[test]
fn countdown_budget() {
    let mut c = Countdown::new(2);
    assert!(c.consume());
    assert!(c.consume());
    assert!(!c.consume());
    assert!(!c.consume());
}

#[test]
fn fade_out_schedule_phases() {
    // 5-sample source with a 2-sample fade: 3 pass, then fade 0, 1, ...
    let mut s = FadeOutSchedule::new(2, Some(5));
    for _ in 0..3 {
        assert_eq!(s.step(), FadeOutStep::Pass);
    }
    assert_eq!(s.step(), FadeOutStep::Fade { into: 0, total: 2 });
    s.advance();
    assert_eq!(s.step(), FadeOutStep::Fade { into: 1, total: 2 });
    s.advance();
    assert_eq!(s.step(), FadeOutStep::Fade { into: 2, total: 2 });
}

#[test]
fn fade_out_schedule_edge_cases() {
    let mut unbounded = FadeOutSchedule::new(10, None);
    for _ in 0..1000 {
        assert_eq!(unbounded.step(), FadeOutStep::Pass);
    }
    let mut longer_than_source = FadeOutSchedule::new(10, Some(3));
    assert_eq!(longer_than_source.step(), FadeOutStep::Fade { into: 0, total: 10 });
    let mut empty = FadeOutSchedule::new(0, Some(1));
    assert_eq!(empty.step(), FadeOutStep::Pass);
    assert_eq!(empty.step(), FadeOutStep::Pass);
}

#[test]
fn fade_in_schedule() {
    let mut s = FadeInSchedule::new(2);
    assert_eq!(s.step(), Some((0, 2)));
    assert_eq!(s.step(), Some((1, 2)));
    assert_eq!(s.step(), None);
    let mut none = FadeInSchedule::new(0);
    assert_eq!(none.step(), None);
}

#[test]
fn delay_line_reads_back_what_was_pushed() {
    let mut d = DelayLine::new(4, 0i32);
    assert_eq!(d.len(), 4);
    assert_eq!(d.delayed(3), 0);
    for x in 1..=6 {
        d.push(x);
    }
    assert_eq!(d.delayed(0), 6);
    assert_eq!(d.delayed(1), 5);
    assert_eq!(d.delayed(3), 3);
    assert_eq!(d.samples().len(), 4);
    let mut held: Vec<i32> = d.samples().to_vec();
    held.sort();
    assert_eq!(held, vec![3, 4, 5, 6]);
}

#[test]
fn mix_ends_when_all_sources_have() {
    let mut m = MixProgress::new();
    m.track(2);
    assert!(!m.is_finished(0));
    m.mark_finished(0);
    assert!(!m.finished_all());
    m.mark_finished(1);
    assert!(m.finished_all());
    m.track(3);
    assert!(!m.finished_all());
    m.track(1);
    assert!(m.is_finished(1));
}

#[test]
fn empty_mix_has_ended() {
    let mut m = MixProgress::new();
    m.track(0);
    assert!(m.finished_all());
}

#[test]
fn fade_out_position_persists_once_fading() {
    let mut s = FadeOutSchedule::new(4, Some(4));
    assert_eq!(s.step(), FadeOutStep::Fade { into: 0, total: 4 });
    s.advance();
    s.advance();
    assert_eq!(s.step(), FadeOutStep::Fade { into: 2, total: 4 });
    assert_eq!(s.step(), FadeOutStep::Fade { into: 2, total: 4 });
}
