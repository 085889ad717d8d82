//! The decisions inside the short waits before a send: until the keys are
//! released for good, and until the game holds the foreground steadily
//! after the chat box opened. The caller samples, sleeps and keeps the
//! deadline.
use vstd::prelude::*;

verus! {

/// Released samples in a row that count as the keys being released.
pub const STABLE_RELEASE_SAMPLES: u32 = 3;

/// Counts the samples in a row in which every key was released.
#[derive(Debug)]
pub struct ReleaseWatch {
    stable_samples: u32,
}

impl View for ReleaseWatch {
    type V = u32;

    closed spec fn view(&self) -> u32 {
        self.stable_samples
    }
}

impl ReleaseWatch {
    pub fn new() -> (r: Self)
        ensures
            r@ == 0,
    {
        ReleaseWatch { stable_samples: 0 }
    }

    /// Records one key sample; true once `STABLE_RELEASE_SAMPLES` samples in
    /// a row found every key released. A held key starts the count again;
    /// the count stops growing at `STABLE_RELEASE_SAMPLES`.
    pub fn observe(&mut self, all_released: bool) -> (ready: bool)
        ensures
            final(self)@ == (if !all_released {
                0
            } else if old(self)@ >= STABLE_RELEASE_SAMPLES {
                STABLE_RELEASE_SAMPLES
            } else {
                (old(self)@ + 1) as u32
            }),
            ready == (all_released && old(self)@ + 1 >= STABLE_RELEASE_SAMPLES),
    {
        if all_released {
            if self.stable_samples < STABLE_RELEASE_SAMPLES {
                self.stable_samples = self.stable_samples + 1;
            } else {
                self.stable_samples = STABLE_RELEASE_SAMPLES;
            }
            self.stable_samples >= STABLE_RELEASE_SAMPLES
        } else {
            self.stable_samples = 0;
            false
        }
    }
}

/// How long the game must hold the foreground without a break, in ms.
pub const CHAT_SETTLE_STABLE_MS: u64 = 100;

/// What one poll of the settle wait decides.
#[derive(Debug, Clone, Copy, PartialEq, Eq, Structural)]
pub enum SettlePoll {
    /// The game held the foreground long enough: type now.
    Settled,
    /// The game lost the foreground: restore it and poll again.
    Restore,
    /// Keep polling.
    Wait,
}

/// When the game last began holding the foreground without a break.
#[derive(Debug)]
pub struct SettleWatch {
    stable_since: Option<u64>,
}

impl View for SettleWatch {
    type V = Option<u64>;

    closed spec fn view(&self) -> Option<u64> {
        self.stable_since
    }
}

impl SettleWatch {
    pub fn new() -> (r: Self)
        ensures
            r@ is None,
    {
        SettleWatch { stable_since: None }
    }

    /// Records one foreground sample at `now_ms`. A break in the foreground
    /// restarts the clock; the wait ends once the game held it for
    /// `CHAT_SETTLE_STABLE_MS`.
    pub fn observe(&mut self, foreground_ok: bool, now_ms: u64) -> (r: SettlePoll)
        ensures
            !foreground_ok ==> r == SettlePoll::Restore && final(self)@ is None,
            foreground_ok ==> {
                let since = match old(self)@ {
                    Some(s) => s,
                    None => now_ms,
                };
                &&& final(self)@ == Some(since)
                &&& r == (if now_ms >= since && now_ms - since >= CHAT_SETTLE_STABLE_MS {
                    SettlePoll::Settled
                } else {
                    SettlePoll::Wait
                })
            },
    {
        if !foreground_ok {
            self.stable_since = None;
            return SettlePoll::Restore;
        }
        let since = match self.stable_since {
            Some(s) => s,
            None => now_ms,
        };
        self.stable_since = Some(since);
        if now_ms >= since && now_ms - since >= CHAT_SETTLE_STABLE_MS {
            SettlePoll::Settled
        } else {
            SettlePoll::Wait
        }
    }
}

} // verus!
