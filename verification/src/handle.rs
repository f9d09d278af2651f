//! The handle the host keeps for a streaming playback, used to ask the
//! audio thread to stop it (optionally with a fade).

use std::sync::atomic::{AtomicBool, AtomicU64, Ordering};
use std::sync::Arc;
use vstd::prelude::*;

verus! {

/// Shared stop request between the host and the audio thread. Cloning
/// the handle shares the same request.
#[derive(Clone)]
pub struct StreamingSoundHandle {
    stop: Arc<AtomicBool>,
    fade_out_ms: Arc<AtomicU64>,
}

impl StreamingSoundHandle {
    /// A fresh handle with no stop requested. The flag and fade length
    /// live in std atomics, whose contents verified code cannot state.
    pub fn new() -> (h: StreamingSoundHandle) {
        StreamingSoundHandle {
            stop: Arc::new(AtomicBool::new(false)),
            fade_out_ms: Arc::new(AtomicU64::new(0)),
        }
    }

    /// Ask the playback to stop, fading out over `fade_ms` milliseconds
    /// (`0` stops at once). The fade length is published before the stop
    /// flag, so the audio thread never sees the flag without it. What
    /// the other thread reads is not something verified code can state.
    pub fn stop(&self, fade_ms: u64) {
        self.fade_out_ms.store(fade_ms, Ordering::Relaxed);
        self.stop.store(true, Ordering::Relaxed);
    }

    /// Whether a stop has been requested (read by the audio thread). The
    /// value is whatever another thread last stored, so no clause states it.
    pub fn stop_requested(&self) -> bool {
        self.stop.load(Ordering::Relaxed)
    }

    /// The requested fade length in milliseconds (read by the audio
    /// thread once a stop is seen). The value is whatever another thread
    /// last stored, so no clause states it.
    pub fn fade_ms(&self) -> u64 {
        self.fade_out_ms.load(Ordering::Relaxed)
    }
}

} // verus!
