//! Sample-counting state machines of the streaming runtime: the stop /
//! fade-out of a running stream, fade windows at the start and end of a
//! source, and simple sample budgets (truncation and leading silence).
//! The host computes the gain curves from the counters these report.

use vstd::prelude::*;

verus! {

/// Engine-wide synthesis sample rate, in samples per second.
pub const SAMPLE_RATE: u32 = 48_000;

/// Number of samples in a fade of `ms` milliseconds (at least one),
/// truncated to 32 bits as the audio thread stores it.
pub open spec fn fade_frames(ms: u64) -> u32 {
    let t = ((ms * 48000) / 1000) as u32;
    if t < 1 {
        1
    } else {
        t
    }
}

/// Where a playing stream is in its life.
#[derive(Debug, Clone, Copy, PartialEq, Eq, Structural)]
pub enum FadeState {
    /// Playing the source as is.
    Steady,
    /// Stopping: fading out over a fixed number of frames.
    FadingOut,
    /// Silent for good.
    Done,
}

/// What to output for one frame.
#[derive(Debug, Clone, Copy, PartialEq, Eq, Structural)]
pub enum FrameAction {
    /// Output silence.
    Silence,
    /// Output the next source sample unchanged.
    Source,
    /// Output the next source sample (silence if the source has ended)
    /// scaled by `remaining / total`.
    Fade { remaining: u32, total: u32 },
}

/// Stop / fade-out state of one streaming playback.
#[derive(Debug)]
pub struct FadeController {
    state: FadeState,
    remaining: u32,
    total: u32,
}

impl FadeController {
    pub closed spec fn state(&self) -> FadeState {
        self.state
    }

    pub closed spec fn remaining(&self) -> u32 {
        self.remaining
    }

    pub closed spec fn total(&self) -> u32 {
        self.total
    }

    /// Frames still to output before the fade ends.
    pub open spec fn wf(&self) -> bool {
        self.state() is FadingOut ==> self.remaining() <= self.total() && self.total() >= 1
    }

    /// A stream that has just started playing.
    pub fn new() -> (c: FadeController)
        ensures
            c.wf(),
            c.state() is Steady,
    {
        FadeController { state: FadeState::Steady, remaining: 0, total: 0 }
    }

    /// Pick up a stop request (checked once per audio buffer). A playing
    /// stream asked to stop with a zero fade goes silent at once; with a
    /// positive fade it starts fading over `fade_frames(fade_ms)` frames.
    /// A stream already stopping or stopped is unaffected.
    pub fn check_stop(&mut self, stop_requested: bool, fade_ms: u64)
        requires
            old(self).wf(),
            fade_ms <= u64::MAX / 48000,
        ensures
            final(self).wf(),
            (old(self).state() is Steady && stop_requested && fade_ms == 0) ==> final(self).state() is Done,
            (old(self).state() is Steady && stop_requested && fade_ms > 0) ==> (final(self).state() is FadingOut
                && final(self).total() == fade_frames(fade_ms) && final(self).remaining()
                == final(self).total()),
            !(old(self).state() is Steady && stop_requested) ==> (final(self).state() == old(self).state()
                && final(self).remaining() == old(self).remaining() && final(self).total() == old(self).total()),
    {
        if self.state == FadeState::Steady && stop_requested {
            if fade_ms == 0 {
                self.state = FadeState::Done;
            } else {
                let total = (fade_ms * 48000 / 1000) as u32;
                self.total = if total < 1 {
                    1
                } else {
                    total
                };
                self.remaining = self.total;
                self.state = FadeState::FadingOut;
            }
        }
    }

    /// Decide the next frame. Fading frames count down from `total` to 1;
    /// the frame after the last one is silent and the stream is done.
    pub fn next_frame(&mut self) -> (a: FrameAction)
        requires
            old(self).wf(),
        ensures
            final(self).wf(),
            old(self).state() is Done ==> a is Silence && final(self).state() is Done,
            old(self).state() is Steady ==> a is Source && final(self).state() is Steady,
            (old(self).state() is FadingOut && old(self).remaining() == 0) ==> (a is Silence
                && final(self).state() is Done),
            (old(self).state() is FadingOut && old(self).remaining() > 0) ==> (a == FrameAction::Fade {
                remaining: old(self).remaining(),
                total: old(self).total(),
            } && final(self).state() is FadingOut && final(self).remaining() == old(self).remaining() - 1
                && final(self).total() == old(self).total()),
            (final(self).state(), final(self).remaining(), a) == fade_step(
                old(self).state(),
                old(self).remaining(),
                old(self).total(),
            ),
            final(self).total() == old(self).total(),
    {
        match self.state {
            FadeState::Done => FrameAction::Silence,
            FadeState::Steady => FrameAction::Source,
            FadeState::FadingOut => {
                if self.remaining == 0 {
                    self.state = FadeState::Done;
                    FrameAction::Silence
                } else {
                    let a = FrameAction::Fade { remaining: self.remaining, total: self.total };
                    self.remaining = self.remaining - 1;
                    a
                }
            },
        }
    }

    /// The source ran out on its own: a playing stream is done.
    pub fn source_ended(&mut self)
        requires
            old(self).wf(),
        ensures
            final(self).wf(),
            old(self).state() is Steady ==> final(self).state() is Done,
            !(old(self).state() is Steady) ==> final(self).state() == old(self).state(),
            final(self).remaining() == old(self).remaining(),
            final(self).total() == old(self).total(),
    {
        if self.state == FadeState::Steady {
            self.state = FadeState::Done;
        }
    }

    /// Whether the stream is done for good.
    pub fn finished(&self) -> (b: bool)
        ensures
            b == self.state() is Done,
    {
        self.state == FadeState::Done
    }
}

/// One frame of the stop / fade-out machine: next state, frames left,
/// and what to output.
pub open spec fn fade_step(state: FadeState, remaining: u32, total: u32) -> (FadeState, u32, FrameAction) {
    match state {
        FadeState::Done => (FadeState::Done, remaining, FrameAction::Silence),
        FadeState::Steady => (FadeState::Steady, remaining, FrameAction::Source),
        FadeState::FadingOut => if remaining == 0 {
            (FadeState::Done, remaining, FrameAction::Silence)
        } else {
            (
                FadeState::FadingOut,
                (remaining - 1) as u32,
                FrameAction::Fade { remaining: remaining, total: total },
            )
        },
    }
}

/// State and frames left after `k` frames.
pub open spec fn fade_run(state: FadeState, remaining: u32, total: u32, k: nat) -> (FadeState, u32)
    decreases k,
{
    if k == 0 {
        (state, remaining)
    } else {
        let (s2, r2, _a) = fade_step(state, remaining, total);
        fade_run(s2, r2, total, (k - 1) as nat)
    }
}

/// Law: a fade that has `r` frames left outputs exactly `r` more faded
/// frames and is then done; and a stopped stream stays stopped.
pub proof fn law_fade_runs_out(r: u32, total: u32, k: nat)
    ensures
        fade_run(FadeState::FadingOut, r, total, r as nat) == (FadeState::FadingOut, 0u32),
        fade_run(FadeState::FadingOut, r, total, (r + 1) as nat).0 == FadeState::Done,
        fade_run(FadeState::Done, r, total, k).0 == FadeState::Done,
    decreases r,
{
    lemma_done_stays(r, total, k);
    lemma_done_stays(r, total, 0);
    if r > 0 {
        law_fade_runs_out((r - 1) as u32, total, k);
        assert(fade_run(FadeState::FadingOut, r, total, r as nat) == fade_run(
            FadeState::FadingOut,
            (r - 1) as u32,
            total,
            (r - 1) as nat,
        ));
        assert(fade_run(FadeState::FadingOut, r, total, (r + 1) as nat) == fade_run(
            FadeState::FadingOut,
            (r - 1) as u32,
            total,
            r as nat,
        ));
    } else {
        assert(fade_run(FadeState::FadingOut, 0, total, 1) == fade_run(FadeState::Done, 0, total, 0));
    }
}

proof fn lemma_done_stays(r: u32, total: u32, k: nat)
    ensures
        fade_run(FadeState::Done, r, total, k) == (FadeState::Done, r),
    decreases k,
{
    if k > 0 {
        lemma_done_stays(r, total, (k - 1) as nat);
    }
}

/// A count of samples still to go: the length of a truncated source, or
/// of the silence before a delayed one.
#[derive(Debug, Clone, Copy)]
pub struct Countdown {
    left: u64,
}

impl Countdown {
    pub closed spec fn left(&self) -> u64 {
        self.left
    }

    pub fn new(samples: u64) -> (c: Countdown)
        ensures
            c.left() == samples,
    {
        Countdown { left: samples }
    }

    /// Use up one sample of the budget if any is left; `false` when the
    /// budget is exhausted.
    pub fn consume(&mut self) -> (b: bool)
        ensures
            b == (old(self).left() > 0),
            b ==> final(self).left() == old(self).left() - 1,
            !b ==> final(self).left() == 0,
    {
        if self.left == 0 {
            false
        } else {
            self.left = self.left - 1;
            true
        }
    }
}

/// Progress of a fade-out over the last `fade` samples of a source of
/// known length (or of no known length, in which case it never starts).
#[derive(Debug, Clone, Copy)]
pub struct FadeOutSchedule {
    fade_samples: u64,
    until_fade: u64,
    into_fade: u64,
    active: bool,
}

/// Phase of a fade-out for one source sample.
#[derive(Debug, Clone, Copy, PartialEq, Eq, Structural)]
pub enum FadeOutStep {
    /// Pass the sample through unchanged.
    Pass,
    /// The sample is `into` samples into a fade of `total` samples.
    Fade { into: u64, total: u64 },
}

impl FadeOutSchedule {
    pub closed spec fn until_fade(&self) -> u64 {
        self.until_fade
    }

    pub closed spec fn into_fade(&self) -> u64 {
        self.into_fade
    }

    pub closed spec fn fade_samples(&self) -> u64 {
        self.fade_samples
    }

    /// Whether the fade region has been entered.
    pub closed spec fn fading(&self) -> bool {
        self.active
    }

    /// A fade of `fade_samples` samples ending at `total_samples`, if the
    /// source length is known; never starting otherwise.
    pub fn new(fade_samples: u64, total_samples: Option<u64>) -> (s: FadeOutSchedule)
        ensures
            s.fade_samples() == fade_samples,
            s.into_fade() == 0,
            !s.fading(),
            (total_samples matches Some(t) ==> s.until_fade() == (if t >= fade_samples {
                (t - fade_samples) as u64
            } else {
                0u64
            })),
            (total_samples is None ==> s.until_fade() == u64::MAX),
    {
        let until_fade = match total_samples {
            Some(t) => t.saturating_sub(fade_samples),
            None => u64::MAX,
        };
        FadeOutSchedule { fade_samples, until_fade, into_fade: 0, active: false }
    }

    /// Phase for the next source sample. Samples before the fade region
    /// pass through; so does everything when the fade is empty. The
    /// first sample of the fade region starts the fade at position 0;
    /// later ones keep the position that `advance` built up.
    pub fn step(&mut self) -> (r: FadeOutStep)
        ensures
            old(self).until_fade() > 0 ==> ((r is Pass) && final(self).until_fade() == old(self).until_fade()
                - 1 && final(self).into_fade() == old(self).into_fade() && final(self).fading()
                == old(self).fading()),
            old(self).until_fade() == 0 ==> final(self).fading(),
            (old(self).until_fade() == 0 && !old(self).fading()) ==> final(self).into_fade() == 0,
            (old(self).until_fade() == 0 && old(self).fading()) ==> final(self).into_fade() == old(
                self,
            ).into_fade(),
            old(self).until_fade() == 0 && old(self).fade_samples() == 0 ==> (r is Pass),
            old(self).until_fade() == 0 && old(self).fade_samples() > 0 ==> (r == (FadeOutStep::Fade {
                into: final(self).into_fade(),
                total: old(self).fade_samples(),
            })),
            old(self).until_fade() == 0 ==> final(self).until_fade() == 0,
            final(self).fade_samples() == old(self).fade_samples(),
    {
        if self.until_fade > 0 {
            self.until_fade = self.until_fade - 1;
            return FadeOutStep::Pass;
        }
        if !self.active {
            self.active = true;
            self.into_fade = 0;
        }
        if self.fade_samples == 0 {
            return FadeOutStep::Pass;
        }
        FadeOutStep::Fade { into: self.into_fade, total: self.fade_samples }
    }

    /// Record that a faded sample was output.
    pub fn advance(&mut self)
        ensures
            old(self).into_fade() < u64::MAX ==> final(self).into_fade() == old(self).into_fade() + 1,
            old(self).into_fade() == u64::MAX ==> final(self).into_fade() == u64::MAX,
            final(self).fading() == old(self).fading(),
            final(self).until_fade() == old(self).until_fade(),
            final(self).fade_samples() == old(self).fade_samples(),
    {
        if self.into_fade < u64::MAX {
            self.into_fade = self.into_fade + 1;
        }
    }
}

/// Progress of a fade-in over the first `fade` samples of a source.
#[derive(Debug, Clone, Copy)]
pub struct FadeInSchedule {
    fade_samples: u64,
    elapsed: u64,
}

impl FadeInSchedule {
    pub closed spec fn fade_samples(&self) -> u64 {
        self.fade_samples
    }

    pub closed spec fn elapsed(&self) -> u64 {
        self.elapsed
    }

    pub fn new(fade_samples: u64) -> (s: FadeInSchedule)
        ensures
            s.fade_samples() == fade_samples,
            s.elapsed() == 0,
    {
        FadeInSchedule { fade_samples, elapsed: 0 }
    }

    /// For the next source sample: `Some((k, total))` while inside the
    /// fade (the sample is `k` samples into a fade of `total`), `None`
    /// once past it (or when the fade is empty).
    pub fn step(&mut self) -> (r: Option<(u64, u64)>)
        ensures
            (old(self).fade_samples() == 0 || old(self).elapsed() >= old(self).fade_samples()) ==> (r is None
                && final(self).elapsed() == old(self).elapsed()),
            (old(self).fade_samples() > 0 && old(self).elapsed() < old(self).fade_samples()) ==> (r == Some(
                (old(self).elapsed(), old(self).fade_samples()),
            ) && final(self).elapsed() == old(self).elapsed() + 1),
            final(self).fade_samples() == old(self).fade_samples(),
    {
        if self.fade_samples == 0 || self.elapsed >= self.fade_samples {
            return None;
        }
        let r = Some((self.elapsed, self.fade_samples));
        self.elapsed = self.elapsed + 1;
        r
    }
}

} // verus!
