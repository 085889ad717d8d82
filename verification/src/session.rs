//! The capture / edit / inject session state machine. Every operation names
//! the session generation it belongs to; a stale generation never changes
//! the machine.
use vstd::prelude::*;

verus! {

/// Identity of the captured game window.
#[derive(Debug, Clone, Copy, PartialEq, Eq, Structural)]
pub struct TargetIdentity {
    pub hwnd: u64,
    pub process_id: u32,
    pub thread_id: u32,
    pub process_creation_time: u64,
}

/// Which keys are physically held down.
#[derive(Debug, Clone, Copy, PartialEq, Eq, Structural)]
pub struct KeySnapshot {
    pub enter_down: bool,
    pub ctrl_down: bool,
    pub alt_down: bool,
    pub shift_down: bool,
    pub win_down: bool,
}

pub open spec fn spec_modifiers_down(k: KeySnapshot) -> bool {
    k.ctrl_down || k.alt_down || k.shift_down || k.win_down
}

pub open spec fn spec_all_released(k: KeySnapshot) -> bool {
    !k.enter_down && !spec_modifiers_down(k)
}

/// A modifier is down exactly when Ctrl, Alt, Shift or Windows is held, and
/// every key is released exactly when none of Enter, Ctrl, Alt, Shift and
/// Windows is held.
pub proof fn lemma_keys_released_by_field(k: KeySnapshot)
    ensures
        spec_modifiers_down(k) <==> (k.ctrl_down || k.alt_down || k.shift_down || k.win_down),
        spec_all_released(k) <==> (!k.enter_down && !k.ctrl_down && !k.alt_down && !k.shift_down && !k.win_down),
{
}

impl KeySnapshot {
    pub fn modifiers_down(self) -> (r: bool)
        ensures
            r == spec_modifiers_down(self),
    {
        self.ctrl_down || self.alt_down || self.shift_down || self.win_down
    }

    pub fn all_released(self) -> (r: bool)
        ensures
            r == spec_all_released(self),
    {
        !self.enter_down && !self.modifiers_down()
    }
}

#[derive(Debug, Clone, Copy, PartialEq, Eq, Structural)]
pub enum SessionPhase {
    Idle,
    WaitingGameEnterRelease,
    OpeningPanel,
    Editing,
    WaitingSubmitKeyRelease,
    RestoringTarget,
    Injecting,
    Failed,
}

/// What the session looks like from outside.
#[derive(Debug, Clone, PartialEq, Eq)]
pub struct SessionSnapshot {
    pub generation: u64,
    pub phase: SessionPhase,
    pub target: Option<TargetIdentity>,
    pub draft: String,
    pub last_error: Option<String>,
}

/// Progress of the release / press / release sequence of the game chat key.
#[derive(Debug, Clone, Copy, PartialEq, Eq, Structural)]
pub enum EnterSequence {
    NeedInitialRelease,
    Armed,
    Pressed,
}

#[derive(Debug, Clone, Copy, PartialEq, Eq, Structural)]
pub enum SessionError {
    StaleGeneration,
    InvalidPhase,
    TargetChanged,
    SubmitKeyStillDown,
    InjectionInProgress,
}

#[derive(Debug)]
pub struct SessionMachine {
    snapshot: SessionSnapshot,
    next_generation: u64,
    enter_sequence: EnterSequence,
}

/// A fresh snapshot: given generation, phase and target, empty draft, no error.
pub open spec fn is_fresh_snapshot(
    s: SessionSnapshot,
    generation: u64,
    phase: SessionPhase,
    target: Option<TargetIdentity>,
) -> bool {
    &&& s.generation == generation
    &&& s.phase == phase
    &&& s.target == target
    &&& s.draft@ == Seq::<char>::empty()
    &&& s.last_error is None
}

/// `after` is `before` moved to `phase`, with everything else kept.
pub open spec fn only_phase_changed(
    before: SessionSnapshot,
    after: SessionSnapshot,
    phase: SessionPhase,
) -> bool {
    &&& after.generation == before.generation
    &&& after.phase == phase
    &&& after.target == before.target
    &&& after.draft == before.draft
    &&& after.last_error == before.last_error
}

/// `after` is `before` marked failed with `message`.
pub open spec fn failed_with(before: SessionSnapshot, after: SessionSnapshot, message: Seq<char>) -> bool {
    &&& after.generation == before.generation
    &&& after.phase == SessionPhase::Failed
    &&& after.target == before.target
    &&& after.draft == before.draft
    &&& after.last_error matches Some(m) && m@ == message
}

/// What holds of every session the machine can reach: it has failed
/// exactly when an error is recorded; an idle session has no target, and
/// only an idle or failed one lacks a target; a draft is only held from the
/// submit request until the injection ends, after a failure, or while
/// editing again after a withdrawn submit.
pub open spec fn session_shape(s: SessionSnapshot) -> bool {
    &&& (s.phase == SessionPhase::Failed) == (s.last_error is Some)
    &&& s.phase == SessionPhase::Idle ==> s.target is None
    &&& s.target is None ==> (s.phase == SessionPhase::Idle || s.phase == SessionPhase::Failed)
    &&& s.draft@.len() > 0 ==> (s.phase == SessionPhase::WaitingSubmitKeyRelease
        || s.phase == SessionPhase::RestoringTarget || s.phase == SessionPhase::Injecting
        || s.phase == SessionPhase::Failed || s.phase == SessionPhase::Editing)
}

/// A submit has been requested and its text has not gone out yet.
pub open spec fn is_submitting(phase: SessionPhase) -> bool {
    phase == SessionPhase::WaitingSubmitKeyRelease || phase == SessionPhase::RestoringTarget
        || phase == SessionPhase::Injecting
}

/// The key-sequence step taken on an unmodified key sample.
pub open spec fn next_enter_sequence(s: EnterSequence, enter_down: bool) -> EnterSequence {
    match (s, enter_down) {
        (EnterSequence::NeedInitialRelease, false) => EnterSequence::Armed,
        (EnterSequence::Armed, true) => EnterSequence::Pressed,
        _ => s,
    }
}

pub open spec fn target_changed_message() -> Seq<char> {
    "目标窗口已变化"@
}

fn clone_snapshot(s: &SessionSnapshot) -> (r: SessionSnapshot)
    ensures
        r == *s,
{
    let last_error = match &s.last_error {
        Some(m) => Some(m.clone()),
        None => None,
    };
    SessionSnapshot {
        generation: s.generation,
        phase: s.phase,
        target: s.target,
        draft: s.draft.clone(),
        last_error,
    }
}

impl SessionMachine {
    pub closed spec fn spec_snapshot(&self) -> SessionSnapshot {
        self.snapshot
    }

    pub closed spec fn spec_next_generation(&self) -> u64 {
        self.next_generation
    }

    pub closed spec fn spec_enter_sequence(&self) -> EnterSequence {
        self.enter_sequence
    }

    /// The current generation is always below every generation still to be
    /// handed out, and the snapshot has the shape of a reachable session.
    pub closed spec fn wf(&self) -> bool {
        &&& self.snapshot.generation < self.next_generation
        &&& session_shape(self.snapshot)
    }

    /// An idle machine at generation 0 whose next generation is 1.
    pub fn new() -> (r: Self)
        ensures
            r.wf(),
            is_fresh_snapshot(r.spec_snapshot(), 0, SessionPhase::Idle, None),
            r.spec_next_generation() == 1,
            r.spec_enter_sequence() == EnterSequence::NeedInitialRelease,
    {
        SessionMachine {
            snapshot: SessionSnapshot {
                generation: 0,
                phase: SessionPhase::Idle,
                target: None,
                draft: String::new(),
                last_error: None,
            },
            next_generation: 1,
            enter_sequence: EnterSequence::NeedInitialRelease,
        }
    }

    pub fn snapshot(&self) -> (r: SessionSnapshot)
        ensures
            r == self.spec_snapshot(),
            self.wf() ==> session_shape(r),
    {
        clone_snapshot(&self.snapshot)
    }

    /// Every session reachable from `new` through the public operations
    /// (each keeps `wf`) has a reachable shape: failed exactly when an error
    /// is recorded, idle only without a target, without a target only when
    /// idle or failed, and a draft only while submitting, restoring,
    /// injecting, after a failure, or while editing after a withdrawn submit.
    pub proof fn lemma_reachable_session_shape(&self)
        requires
            self.wf(),
        ensures
            session_shape(self.spec_snapshot()),
    {
    }

    fn allocate_generation(&mut self) -> (r: u64)
        requires
            old(self).next_generation < u64::MAX,
        ensures
            r == old(self).next_generation,
            final(self).next_generation == r + 1,
            final(self).snapshot == old(self).snapshot,
            final(self).enter_sequence == old(self).enter_sequence,
    {
        let generation = self.next_generation;
        self.next_generation = self.next_generation + 1;
        generation
    }

    fn require_generation(&self, generation: u64) -> (r: Result<(), SessionError>)
        ensures
            r is Ok <==> self.snapshot.generation == generation,
            r is Err ==> r == Err::<(), SessionError>(SessionError::StaleGeneration),
    {
        if self.snapshot.generation == generation {
            Ok(())
        } else {
            Err(SessionError::StaleGeneration)
        }
    }

    fn fail(&mut self, message: &str)
        ensures
            failed_with(old(self).snapshot, final(self).snapshot, message@),
            final(self).next_generation == old(self).next_generation,
            final(self).enter_sequence == old(self).enter_sequence,
    {
        self.snapshot.phase = SessionPhase::Failed;
        self.snapshot.last_error = Some(message.to_owned());
    }

    /// Starts waiting for the game chat key on `target` under a new generation.
    pub fn arm_game_enter(&mut self, target: TargetIdentity) -> (r: u64)
        requires
            old(self).wf(),
            old(self).spec_next_generation() < u64::MAX,
        ensures
            final(self).wf(),
            r == old(self).spec_next_generation(),
            r > old(self).spec_snapshot().generation,
            final(self).spec_next_generation() == r + 1,
            is_fresh_snapshot(
                final(self).spec_snapshot(),
                r,
                SessionPhase::WaitingGameEnterRelease,
                Some(target),
            ),
            final(self).spec_enter_sequence() == EnterSequence::NeedInitialRelease,
    {
        let generation = self.allocate_generation();
        self.snapshot = SessionSnapshot {
            generation,
            phase: SessionPhase::WaitingGameEnterRelease,
            target: Some(target),
            draft: String::new(),
            last_error: None,
        };
        self.enter_sequence = EnterSequence::NeedInitialRelease;
        generation
    }

    /// Feeds one key sample while waiting for the chat key. Returns true once
    /// an unmodified release, press, release sequence has completed; the
    /// session then moves to `OpeningPanel`. A modifier resets the sequence.
    pub fn observe_game_enter(&mut self, generation: u64, keys: KeySnapshot) -> (r: Result<
        bool,
        SessionError,
    >)
        requires
            old(self).wf(),
        ensures
            final(self).wf(),
            final(self).spec_next_generation() == old(self).spec_next_generation(),
            generation != old(self).spec_snapshot().generation ==> (r == Err::<bool, SessionError>(
                SessionError::StaleGeneration) && *final(self) == *old(self)),
            generation == old(self).spec_snapshot().generation && old(self).spec_snapshot().phase
                != SessionPhase::WaitingGameEnterRelease ==> (r == Err::<bool, SessionError>(
                SessionError::InvalidPhase) && *final(self) == *old(self)),
            generation == old(self).spec_snapshot().generation && old(self).spec_snapshot().phase
                == SessionPhase::WaitingGameEnterRelease ==> ({
                let seq = old(self).spec_enter_sequence();
                if spec_modifiers_down(keys) {
                    &&& r == Ok::<bool, SessionError>(false)
                    &&& final(self).spec_snapshot() == old(self).spec_snapshot()
                    &&& final(self).spec_enter_sequence() == EnterSequence::NeedInitialRelease
                } else if seq == EnterSequence::Pressed && !keys.enter_down {
                    &&& r == Ok::<bool, SessionError>(true)
                    &&& only_phase_changed(
                        old(self).spec_snapshot(),
                        final(self).spec_snapshot(),
                        SessionPhase::OpeningPanel,
                    )
                    &&& final(self).spec_enter_sequence() == seq
                } else {
                    &&& r == Ok::<bool, SessionError>(false)
                    &&& final(self).spec_snapshot() == old(self).spec_snapshot()
                    &&& final(self).spec_enter_sequence() == next_enter_sequence(seq, keys.enter_down)
                }
            }),
    {
        self.require_generation(generation)?;
        if self.snapshot.phase != SessionPhase::WaitingGameEnterRelease {
            return Err(SessionError::InvalidPhase);
        }
        if keys.modifiers_down() {
            self.enter_sequence = EnterSequence::NeedInitialRelease;
            return Ok(false);
        }
        match (self.enter_sequence, keys.enter_down) {
            (EnterSequence::NeedInitialRelease, false) => {
                self.enter_sequence = EnterSequence::Armed;
            },
            (EnterSequence::Armed, true) => {
                self.enter_sequence = EnterSequence::Pressed;
            },
            (EnterSequence::Pressed, false) => {
                self.snapshot.phase = SessionPhase::OpeningPanel;
                return Ok(true);
            },
            _ => {},
        }
        Ok(false)
    }

    /// Starts an editing session on `target` directly (probe mode).
    pub fn begin_probe(&mut self, target: TargetIdentity) -> (r: u64)
        requires
            old(self).wf(),
            old(self).spec_next_generation() < u64::MAX,
        ensures
            final(self).wf(),
            r == old(self).spec_next_generation(),
            r > old(self).spec_snapshot().generation,
            final(self).spec_next_generation() == r + 1,
            is_fresh_snapshot(final(self).spec_snapshot(), r, SessionPhase::Editing, Some(target)),
            final(self).spec_enter_sequence() == old(self).spec_enter_sequence(),
    {
        let generation = self.allocate_generation();
        self.snapshot = SessionSnapshot {
            generation,
            phase: SessionPhase::Editing,
            target: Some(target),
            draft: String::new(),
            last_error: None,
        };
        generation
    }

    /// The input panel is open: `OpeningPanel` moves to `Editing`.
    pub fn panel_opened(&mut self, generation: u64) -> (r: Result<(), SessionError>)
        requires
            old(self).wf(),
        ensures
            final(self).wf(),
            generation != old(self).spec_snapshot().generation ==> (r == Err::<(), SessionError>(
                SessionError::StaleGeneration) && *final(self) == *old(self)),
            generation == old(self).spec_snapshot().generation && old(self).spec_snapshot().phase
                != SessionPhase::OpeningPanel ==> (r == Err::<(), SessionError>(
                SessionError::InvalidPhase) && *final(self) == *old(self)),
            generation == old(self).spec_snapshot().generation && old(self).spec_snapshot().phase
                == SessionPhase::OpeningPanel ==> (r is Ok && only_phase_changed(
                old(self).spec_snapshot(),
                final(self).spec_snapshot(),
                SessionPhase::Editing,
            ) && final(self).spec_next_generation() == old(self).spec_next_generation()
                && final(self).spec_enter_sequence() == old(self).spec_enter_sequence()),
    {
        self.require_generation(generation)?;
        if self.snapshot.phase != SessionPhase::OpeningPanel {
            return Err(SessionError::InvalidPhase);
        }
        self.snapshot.phase = SessionPhase::Editing;
        Ok(())
    }

    /// Stores the draft and waits for the submit key to be released.
    pub fn request_submit(&mut self, generation: u64, draft: String) -> (r: Result<(), SessionError>)
        requires
            old(self).wf(),
        ensures
            final(self).wf(),
            generation != old(self).spec_snapshot().generation ==> (r == Err::<(), SessionError>(
                SessionError::StaleGeneration) && *final(self) == *old(self)),
            generation == old(self).spec_snapshot().generation && old(self).spec_snapshot().phase
                == SessionPhase::Injecting ==> (r == Err::<(), SessionError>(
                SessionError::InjectionInProgress) && *final(self) == *old(self)),
            generation == old(self).spec_snapshot().generation && old(self).spec_snapshot().phase
                != SessionPhase::Injecting && old(self).spec_snapshot().phase
                != SessionPhase::Editing ==> (r == Err::<(), SessionError>(
                SessionError::InvalidPhase) && *final(self) == *old(self)),
            generation == old(self).spec_snapshot().generation && old(self).spec_snapshot().phase
                == SessionPhase::Editing ==> ({
                let (b, a) = (old(self).spec_snapshot(), final(self).spec_snapshot());
                &&& r is Ok
                &&& a.generation == b.generation
                &&& a.phase == SessionPhase::WaitingSubmitKeyRelease
                &&& a.target == b.target
                &&& a.draft == draft
                &&& a.last_error == b.last_error
                &&& final(self).spec_next_generation() == old(self).spec_next_generation()
                &&& final(self).spec_enter_sequence() == old(self).spec_enter_sequence()
            }),
    {
        self.require_generation(generation)?;
        if self.snapshot.phase == SessionPhase::Injecting {
            return Err(SessionError::InjectionInProgress);
        }
        if self.snapshot.phase != SessionPhase::Editing {
            return Err(SessionError::InvalidPhase);
        }
        self.snapshot.draft = draft;
        self.snapshot.phase = SessionPhase::WaitingSubmitKeyRelease;
        Ok(())
    }

    /// Feeds a key sample while waiting for the submit key release; once every
    /// key is released the session moves to `RestoringTarget`.
    pub fn observe_submit_key(&mut self, generation: u64, keys: KeySnapshot) -> (r: Result<
        bool,
        SessionError,
    >)
        requires
            old(self).wf(),
        ensures
            r == Ok::<bool, SessionError>(true) ==> !keys.enter_down && !keys.ctrl_down && !keys.alt_down
                && !keys.shift_down && !keys.win_down,
            (keys.enter_down || keys.ctrl_down || keys.alt_down || keys.shift_down || keys.win_down)
                ==> final(self).spec_snapshot().phase == old(self).spec_snapshot().phase,
            final(self).wf(),
            generation != old(self).spec_snapshot().generation ==> (r == Err::<bool, SessionError>(
                SessionError::StaleGeneration) && *final(self) == *old(self)),
            generation == old(self).spec_snapshot().generation && old(self).spec_snapshot().phase
                != SessionPhase::WaitingSubmitKeyRelease ==> (r == Err::<bool, SessionError>(
                SessionError::InvalidPhase) && *final(self) == *old(self)),
            generation == old(self).spec_snapshot().generation && old(self).spec_snapshot().phase
                == SessionPhase::WaitingSubmitKeyRelease && !spec_all_released(keys) ==> (r == Ok::<
                bool,
                SessionError,
            >(false) && *final(self) == *old(self)),
            generation == old(self).spec_snapshot().generation && old(self).spec_snapshot().phase
                == SessionPhase::WaitingSubmitKeyRelease && spec_all_released(keys) ==> (r == Ok::<
                bool,
                SessionError,
            >(true) && only_phase_changed(
                old(self).spec_snapshot(),
                final(self).spec_snapshot(),
                SessionPhase::RestoringTarget,
            ) && final(self).spec_next_generation() == old(self).spec_next_generation()
                && final(self).spec_enter_sequence() == old(self).spec_enter_sequence()),
    {
        self.require_generation(generation)?;
        if self.snapshot.phase != SessionPhase::WaitingSubmitKeyRelease {
            return Err(SessionError::InvalidPhase);
        }
        if !keys.all_released() {
            return Ok(false);
        }
        self.snapshot.phase = SessionPhase::RestoringTarget;
        Ok(true)
    }

    /// Opens the single injection transaction and hands out the draft, after
    /// checking that the target window is still the captured one.
    pub fn begin_injection(&mut self, generation: u64, current_target: &TargetIdentity) -> (r:
        Result<String, SessionError>)
        requires
            old(self).wf(),
        ensures
            final(self).wf(),
            final(self).spec_next_generation() == old(self).spec_next_generation(),
            final(self).spec_enter_sequence() == old(self).spec_enter_sequence(),
            ({
                let b = old(self).spec_snapshot();
                let a = final(self).spec_snapshot();
                if generation != b.generation {
                    r == Err::<String, SessionError>(SessionError::StaleGeneration) && a == b
                } else if b.phase == SessionPhase::Injecting {
                    r == Err::<String, SessionError>(SessionError::InjectionInProgress) && a == b
                } else if b.phase == SessionPhase::WaitingSubmitKeyRelease {
                    r == Err::<String, SessionError>(SessionError::SubmitKeyStillDown) && a == b
                } else if b.phase != SessionPhase::RestoringTarget {
                    r == Err::<String, SessionError>(SessionError::InvalidPhase) && a == b
                } else if b.target != Some(*current_target) {
                    r == Err::<String, SessionError>(SessionError::TargetChanged) && failed_with(
                        b,
                        a,
                        target_changed_message(),
                    )
                } else {
                    r matches Ok(d) && d@ == b.draft@ && only_phase_changed(
                        b,
                        a,
                        SessionPhase::Injecting,
                    )
                }
            }),
    {
        self.require_generation(generation)?;
        if self.snapshot.phase == SessionPhase::Injecting {
            return Err(SessionError::InjectionInProgress);
        }
        if self.snapshot.phase == SessionPhase::WaitingSubmitKeyRelease {
            return Err(SessionError::SubmitKeyStillDown);
        }
        if self.snapshot.phase != SessionPhase::RestoringTarget {
            return Err(SessionError::InvalidPhase);
        }
        let same = match self.snapshot.target {
            Some(t) => t == *current_target,
            None => false,
        };
        if !same {
            self.fail("目标窗口已变化");
            return Err(SessionError::TargetChanged);
        }
        self.snapshot.phase = SessionPhase::Injecting;
        Ok(self.snapshot.draft.clone())
    }

    /// Ends the injection successfully: back to `Editing` on the same target
    /// and generation, with an empty draft and no error.
    pub fn complete_injection(&mut self, generation: u64) -> (r: Result<(), SessionError>)
        requires
            old(self).wf(),
        ensures
            final(self).wf(),
            final(self).spec_next_generation() == old(self).spec_next_generation(),
            final(self).spec_enter_sequence() == old(self).spec_enter_sequence(),
            generation != old(self).spec_snapshot().generation ==> (r == Err::<(), SessionError>(
                SessionError::StaleGeneration) && *final(self) == *old(self)),
            generation == old(self).spec_snapshot().generation && old(self).spec_snapshot().phase
                != SessionPhase::Injecting ==> (r == Err::<(), SessionError>(
                SessionError::InvalidPhase) && *final(self) == *old(self)),
            generation == old(self).spec_snapshot().generation && old(self).spec_snapshot().phase
                == SessionPhase::Injecting ==> (r is Ok && is_fresh_snapshot(
                final(self).spec_snapshot(),
                generation,
                SessionPhase::Editing,
                old(self).spec_snapshot().target,
            )),
    {
        self.require_generation(generation)?;
        if self.snapshot.phase != SessionPhase::Injecting {
            return Err(SessionError::InvalidPhase);
        }
        self.snapshot.phase = SessionPhase::Editing;
        self.snapshot.draft = String::new();
        self.snapshot.last_error = None;
        Ok(())
    }

    /// Withdraws a requested submit before its text went out: the session
    /// goes back to editing with its target still locked and the draft kept
    /// for another try. Only a submit that is waiting for the keys, restoring
    /// the target or injecting can be withdrawn.
    pub fn abort_submit(&mut self, generation: u64) -> (r: Result<(), SessionError>)
        requires
            old(self).wf(),
        ensures
            final(self).wf(),
            final(self).spec_next_generation() == old(self).spec_next_generation(),
            final(self).spec_enter_sequence() == old(self).spec_enter_sequence(),
            generation != old(self).spec_snapshot().generation ==> (r == Err::<(), SessionError>(
                SessionError::StaleGeneration) && *final(self) == *old(self)),
            generation == old(self).spec_snapshot().generation && !is_submitting(old(self).spec_snapshot().phase)
                ==> (r == Err::<(), SessionError>(SessionError::InvalidPhase) && *final(self) == *old(self)),
            generation == old(self).spec_snapshot().generation && is_submitting(old(self).spec_snapshot().phase)
                ==> (r is Ok && only_phase_changed(old(self).spec_snapshot(), final(self).spec_snapshot(), SessionPhase::Editing)),
    {
        self.require_generation(generation)?;
        match self.snapshot.phase {
            SessionPhase::WaitingSubmitKeyRelease | SessionPhase::RestoringTarget | SessionPhase::Injecting => {},
            _ => {
                return Err(SessionError::InvalidPhase);
            },
        }
        self.snapshot.phase = SessionPhase::Editing;
        Ok(())
    }

    /// Ends the injection with a failure; the draft is kept intact.
    pub fn fail_injection(&mut self, generation: u64, message: &str) -> (r: Result<
        (),
        SessionError,
    >)
        requires
            old(self).wf(),
        ensures
            final(self).wf(),
            final(self).spec_next_generation() == old(self).spec_next_generation(),
            final(self).spec_enter_sequence() == old(self).spec_enter_sequence(),
            generation != old(self).spec_snapshot().generation ==> (r == Err::<(), SessionError>(
                SessionError::StaleGeneration) && *final(self) == *old(self)),
            generation == old(self).spec_snapshot().generation && old(self).spec_snapshot().phase
                != SessionPhase::Injecting ==> (r == Err::<(), SessionError>(
                SessionError::InvalidPhase) && *final(self) == *old(self)),
            generation == old(self).spec_snapshot().generation && old(self).spec_snapshot().phase
                == SessionPhase::Injecting ==> (r is Ok && failed_with(
                old(self).spec_snapshot(),
                final(self).spec_snapshot(),
                message@,
            )),
    {
        self.require_generation(generation)?;
        if self.snapshot.phase != SessionPhase::Injecting {
            return Err(SessionError::InvalidPhase);
        }
        self.fail(message);
        Ok(())
    }

    /// Fails the session when the current window is not the captured target.
    pub fn invalidate_target(&mut self, generation: u64, current_target: &TargetIdentity) -> (r:
        Result<(), SessionError>)
        requires
            old(self).wf(),
        ensures
            final(self).wf(),
            final(self).spec_next_generation() == old(self).spec_next_generation(),
            final(self).spec_enter_sequence() == old(self).spec_enter_sequence(),
            generation != old(self).spec_snapshot().generation ==> (r == Err::<(), SessionError>(
                SessionError::StaleGeneration) && *final(self) == *old(self)),
            generation == old(self).spec_snapshot().generation && old(self).spec_snapshot().target
                != Some(*current_target) ==> (r == Err::<(), SessionError>(
                SessionError::TargetChanged) && failed_with(
                old(self).spec_snapshot(),
                final(self).spec_snapshot(),
                target_changed_message(),
            )),
            generation == old(self).spec_snapshot().generation && old(self).spec_snapshot().target
                == Some(*current_target) ==> (r is Ok && *final(self) == *old(self)),
    {
        self.require_generation(generation)?;
        let same = match self.snapshot.target {
            Some(t) => t == *current_target,
            None => false,
        };
        if !same {
            self.fail("目标窗口已变化");
            return Err(SessionError::TargetChanged);
        }
        Ok(())
    }

    /// Marks a live (non-idle) session as failed.
    pub fn fail_session(&mut self, generation: u64, message: &str) -> (r: Result<(), SessionError>)
        requires
            old(self).wf(),
        ensures
            final(self).wf(),
            final(self).spec_next_generation() == old(self).spec_next_generation(),
            final(self).spec_enter_sequence() == old(self).spec_enter_sequence(),
            generation != old(self).spec_snapshot().generation ==> (r == Err::<(), SessionError>(
                SessionError::StaleGeneration) && *final(self) == *old(self)),
            generation == old(self).spec_snapshot().generation && old(self).spec_snapshot().phase
                == SessionPhase::Idle ==> (r == Err::<(), SessionError>(SessionError::InvalidPhase)
                && *final(self) == *old(self)),
            generation == old(self).spec_snapshot().generation && old(self).spec_snapshot().phase
                != SessionPhase::Idle ==> (r is Ok && failed_with(
                old(self).spec_snapshot(),
                final(self).spec_snapshot(),
                message@,
            )),
    {
        self.require_generation(generation)?;
        if self.snapshot.phase == SessionPhase::Idle {
            return Err(SessionError::InvalidPhase);
        }
        self.fail(message);
        Ok(())
    }

    /// Drops the session: a new generation, idle, no target.
    pub fn cancel(&mut self) -> (r: u64)
        requires
            old(self).wf(),
            old(self).spec_next_generation() < u64::MAX,
        ensures
            final(self).wf(),
            r == old(self).spec_next_generation(),
            r > old(self).spec_snapshot().generation,
            final(self).spec_next_generation() == r + 1,
            is_fresh_snapshot(final(self).spec_snapshot(), r, SessionPhase::Idle, None),
            final(self).spec_enter_sequence() == old(self).spec_enter_sequence(),
    {
        let generation = self.allocate_generation();
        self.snapshot = SessionSnapshot {
            generation,
            phase: SessionPhase::Idle,
            target: None,
            draft: String::new(),
            last_error: None,
        };
        generation
    }
}

impl Default for SessionMachine {
    fn default() -> (r: Self)
        ensures
            r.wf(),
            is_fresh_snapshot(r.spec_snapshot(), 0, SessionPhase::Idle, None),
            r.spec_next_generation() == 1,
            r.spec_enter_sequence() == EnterSequence::NeedInitialRelease,
    {
        SessionMachine::new()
    }
}

} // verus!
