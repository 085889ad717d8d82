//! The order in which a text is delivered to the game: chat-preparation
//! keys, then each batch character by character, then Enter. The caller
//! performs each step and reports how it went; any lost foreground or
//! refused event stops the delivery for good, and Enter is only asked for
//! once every character went out completely.
use vstd::prelude::*;
use crate::injector::{
    can_record_send, empty_report, record_partial_text, record_send_input, record_submit_failure, record_target_lost,
    spec_record_send, stopped_report, InjectionError, InjectionReport,
};

verus! {

/// Why a delivery stopped.
#[derive(Debug, Clone, Copy, PartialEq, Eq, Structural)]
pub enum DeliveryFailure {
    /// The game window lost the foreground.
    TargetChanged,
    /// A chat-preparation key was not taken.
    OpenChatFailed,
    /// A character was not taken completely.
    SendInputFailed,
    /// The final Enter was not taken completely.
    SubmitFailed,
}

/// Where a delivery stands.
#[derive(Debug, Clone, Copy, PartialEq, Eq, Structural)]
pub enum DeliveryStage {
    /// Press chat-preparation key `key`.
    OpeningChat { key: usize },
    /// Check the foreground before batch `batch` (after the batch delay
    /// when it is not the first).
    BeginBatch { batch: usize },
    /// Send character `character` of batch `batch`.
    Typing { batch: usize, character: usize },
    /// Press Enter.
    Submitting,
    /// Everything went out.
    Delivered,
    /// Stopped for good.
    Failed(DeliveryFailure),
}

/// What the caller does next.
#[derive(Debug, Clone, Copy, PartialEq, Eq, Structural)]
pub enum DeliveryAction {
    PressChatKey(usize),
    BeginBatch(usize),
    TypeCharacter { batch: usize, character: usize },
    PressEnter,
    /// Everything went out.
    Done,
    /// The delivery stopped for this reason.
    Stopped(DeliveryFailure),
}

/// How a step went.
#[derive(Debug, Clone, Copy, PartialEq, Eq, Structural)]
pub enum DeliveryEvent {
    /// The step went out completely.
    Sent,
    /// The game window was no longer in front.
    ForegroundLost,
    /// The step's events were not all taken: `inserted` of them went out,
    /// and a retried key release went through or not.
    SendIncomplete { inserted: u32, release_retried_ok: bool },
}

/// A delivery of `batch_sizes[b]` characters per batch after `chat_keys`
/// preparation keys, with a final Enter when `submit`; `typed` counts the
/// characters that went out completely; `report` is the delivery report;
/// the step counters hold the events asked for and taken in the current
/// step, and whether a key release of this step had to be retried and
/// went through.
#[derive(Debug)]
pub struct TextDelivery {
    chat_keys: usize,
    batch_sizes: Vec<usize>,
    submit: bool,
    stage: DeliveryStage,
    typed: usize,
    report: InjectionReport,
    step_requested: u32,
    step_inserted: u32,
    release_retried: Option<bool>,
}

/// The characters of the batches before `b`.
pub open spec fn chars_before(sizes: Seq<usize>, b: int) -> int
    decreases b,
{
    if b <= 0 || b > sizes.len() {
        0
    } else {
        chars_before(sizes, b - 1) + sizes[b - 1]
    }
}

/// All characters of the text.
pub open spec fn total_chars(sizes: Seq<usize>) -> int {
    chars_before(sizes, sizes.len() as int)
}

proof fn lemma_chars_before_monotone(sizes: Seq<usize>, a: int, b: int)
    requires
        0 <= a <= b <= sizes.len(),
    ensures
        0 <= chars_before(sizes, a) <= chars_before(sizes, b),
    decreases b - a,
{
    if a < b {
        lemma_chars_before_monotone(sizes, a, b - 1);
    }
    if b > 0 {
        lemma_chars_before_nonneg(sizes, b - 1);
    }
    lemma_chars_before_nonneg(sizes, a);
}

proof fn lemma_chars_before_nonneg(sizes: Seq<usize>, b: int)
    ensures
        chars_before(sizes, b) >= 0,
    decreases b,
{
    if b > 0 && b <= sizes.len() {
        lemma_chars_before_nonneg(sizes, b - 1);
    }
}

/// The stage once the text is out.
pub open spec fn after_text(submit: bool) -> DeliveryStage {
    if submit { DeliveryStage::Submitting } else { DeliveryStage::Delivered }
}

/// The stage after batch `b` is done.
pub open spec fn after_batch(sizes: Seq<usize>, submit: bool, b: int) -> DeliveryStage {
    if b + 1 < sizes.len() {
        DeliveryStage::BeginBatch { batch: (b + 1) as usize }
    } else {
        after_text(submit)
    }
}

/// The stage once the chat box is prepared.
pub open spec fn after_chat(sizes: Seq<usize>, submit: bool) -> DeliveryStage {
    if sizes.len() > 0 {
        DeliveryStage::BeginBatch { batch: 0 }
    } else {
        after_text(submit)
    }
}

/// The stage after a step at `stage` went out.
pub open spec fn stage_after_sent(chat_keys: usize, sizes: Seq<usize>, submit: bool, stage: DeliveryStage) -> DeliveryStage {
    match stage {
        DeliveryStage::OpeningChat { key } => if key + 1 < chat_keys {
            DeliveryStage::OpeningChat { key: (key + 1) as usize }
        } else {
            after_chat(sizes, submit)
        },
        DeliveryStage::BeginBatch { batch } => if sizes[batch as int] > 0 {
            DeliveryStage::Typing { batch, character: 0 }
        } else {
            after_batch(sizes, submit, batch as int)
        },
        DeliveryStage::Typing { batch, character } => if character + 1 < sizes[batch as int] {
            DeliveryStage::Typing { batch, character: (character + 1) as usize }
        } else {
            after_batch(sizes, submit, batch as int)
        },
        DeliveryStage::Submitting => DeliveryStage::Delivered,
        _ => stage,
    }
}

/// The failure a refused step at `stage` means.
pub open spec fn refusal(stage: DeliveryStage) -> DeliveryFailure {
    match stage {
        DeliveryStage::OpeningChat { .. } => DeliveryFailure::OpenChatFailed,
        DeliveryStage::Submitting => DeliveryFailure::SubmitFailed,
        _ => DeliveryFailure::SendInputFailed,
    }
}

pub open spec fn is_finished(stage: DeliveryStage) -> bool {
    stage is Delivered || stage is Failed
}

/// The batch a stage belongs to.
pub open spec fn stage_batch(stage: DeliveryStage) -> Option<usize> {
    match stage {
        DeliveryStage::BeginBatch { batch } => Some(batch),
        DeliveryStage::Typing { batch, .. } => Some(batch),
        _ => None,
    }
}

/// How many batches have begun at `stage`, of `n`.
pub open spec fn begun_ok(stage: DeliveryStage, begun: usize, n: nat) -> bool {
    match stage {
        DeliveryStage::OpeningChat { .. } => begun == 0,
        DeliveryStage::BeginBatch { batch } => begun == batch,
        DeliveryStage::Typing { batch, .. } => begun == batch + 1,
        DeliveryStage::Submitting | DeliveryStage::Delivered => begun == n,
        DeliveryStage::Failed(_) => begun <= n,
    }
}

/// The report after `event` at an unfinished `stage`: a batch that begins
/// is counted, a sent Enter is attempted and completed, and a stop records
/// the batch, whether a key may still be down, and that part of the text
/// may be typed exactly when some event was taken.
pub open spec fn report_after(stage: DeliveryStage, event: DeliveryEvent, r: InjectionReport) -> InjectionReport {
    match event {
        DeliveryEvent::Sent => match stage {
            DeliveryStage::BeginBatch { .. } => InjectionReport { attempted_batches: (r.attempted_batches + 1) as usize, ..r },
            DeliveryStage::Submitting => InjectionReport { submit_attempted: true, submit_completed: true, ..r },
            _ => r,
        },
        DeliveryEvent::ForegroundLost => stopped_report(r, stage_batch(stage), r.key_state_uncertain),
        DeliveryEvent::SendIncomplete { inserted, release_retried_ok } => stopped_report(
            if stage is Submitting {
                InjectionReport { submit_attempted: true, ..r }
            } else {
                r
            },
            stage_batch(stage),
            inserted % 2 != 0 && !release_retried_ok,
        ),
    }
}

/// What a finished delivery's report says. Enter was attempted only with
/// a submit, after every batch began and every text event went out, and
/// before no stop; a stop names a real batch, and reports a possible partial
/// prefix exactly when some event went out; a delivered text began every
/// batch, stopped nowhere, and completed Enter exactly when a submit was
/// wanted; a stopped one never completed Enter.
pub open spec fn delivered_report_ok(stage: DeliveryStage, submit: bool, r: InjectionReport, n: nat) -> bool {
    &&& r.submit_attempted ==> {
        &&& submit
        &&& r.attempted_batches == n
        &&& r.failed_batch_index is None
        &&& r.text_requested_events == r.text_successful_events
    }
    &&& r.failed_batch_index matches Some(i) ==> i < n
    &&& stage is Failed ==> r.partial_prefix_possible == (r.successful_events > 0) && !r.submit_completed
    &&& stage is Delivered ==> {
        &&& r.attempted_batches == n
        &&& r.failed_batch_index is None
        &&& r.submit_completed == submit
        &&& !r.partial_prefix_possible
    }
}

/// How a step went: sent when every event asked for was taken.
pub open spec fn step_event(step: (u32, u32, Option<bool>)) -> DeliveryEvent {
    if step.1 == step.0 {
        DeliveryEvent::Sent
    } else {
        DeliveryEvent::SendIncomplete { inserted: step.1, release_retried_ok: step.2 == Some(true) }
    }
}

/// The stage, typed characters and report after `event` at `stage`.
pub open spec fn delivery_step(
    chat_keys: usize,
    sizes: Seq<usize>,
    submit: bool,
    stage: DeliveryStage,
    typed: int,
    report: InjectionReport,
    event: DeliveryEvent,
) -> (DeliveryStage, int, InjectionReport) {
    (
        match event {
            DeliveryEvent::Sent => stage_after_sent(chat_keys, sizes, submit, stage),
            DeliveryEvent::ForegroundLost => DeliveryStage::Failed(DeliveryFailure::TargetChanged),
            DeliveryEvent::SendIncomplete { .. } => DeliveryStage::Failed(refusal(stage)),
        },
        typed + (if event is Sent && stage is Typing { 1int } else { 0 }),
        report_after(stage, event, report),
    )
}

/// A report before anything was sent over `SendInput`.
pub open spec fn fresh_report(r: InjectionReport, input_characters: usize, input_delay_ms: u64) -> bool {
    &&& r.attempted_batches == 0
    &&& r.requested_events == 0
    &&& r.successful_events == 0
    &&& r.text_requested_events == 0
    &&& r.text_successful_events == 0
    &&& r.last_error_code is None
    &&& r.delivery_transport@ == "SendInput"@
    &&& r.delivery_acknowledged
    &&& r.input_characters == input_characters
    &&& r.input_delay_ms == input_delay_ms
    &&& !r.keyboard_layout_switched
    &&& r.keyboard_layout_before is None
    &&& r.keyboard_layout_requested is None
    &&& r.keyboard_layout_restored is None
    &&& !r.num_lock_toggled
    &&& r.num_lock_restored is None
    &&& r.failed_batch_index is None
    &&& !r.partial_prefix_possible
    &&& !r.key_state_uncertain
    &&& !r.submit_attempted
    &&& !r.submit_completed
}

/// What the report says at each stage. Nothing has failed before a stop;
/// Enter is completed exactly when the text was delivered with a submit,
/// and attempted only at the end, once every batch began and every text
/// event went out; the text counters only differ by what the current
/// character step has not yet sent.
pub open spec fn report_ok(stage: DeliveryStage, submit: bool, r: InjectionReport, step_requested: u32, step_inserted: u32, n: nat) -> bool {
    &&& step_inserted <= step_requested
    &&& !(stage is Failed) ==> r.failed_batch_index is None
    &&& r.submit_completed == (stage is Delivered && submit)
    &&& (stage is Delivered && submit) ==> r.submit_attempted
    &&& r.submit_attempted ==> (stage is Delivered || stage is Failed)
    &&& r.failed_batch_index matches Some(i) ==> i < n
    &&& !(stage is Failed) ==> !r.partial_prefix_possible
    &&& stage is Failed ==> r.partial_prefix_possible == (r.successful_events > 0)
    &&& r.submit_attempted ==> {
        &&& submit
        &&& r.attempted_batches == n
        &&& r.failed_batch_index is None
        &&& r.text_requested_events == r.text_successful_events
    }
    &&& stage is Typing ==> r.text_requested_events - r.text_successful_events == step_requested - step_inserted
    &&& !(stage is Typing) && !(stage is Failed) ==> r.text_requested_events == r.text_successful_events
}

/// The report after a step keeps its shape.
proof fn lemma_report_after(
    stage: DeliveryStage,
    event: DeliveryEvent,
    chat_keys: usize,
    sizes: Seq<usize>,
    submit: bool,
    r: InjectionReport,
    step_requested: u32,
    step_inserted: u32,
)
    requires
        report_ok(stage, submit, r, step_requested, step_inserted, sizes.len()),
        begun_ok(stage, r.attempted_batches, sizes.len()),
        sizes.len() <= usize::MAX,
        !is_finished(stage),
        stage is Submitting ==> submit,
        event is Sent ==> step_requested == step_inserted,
        stage matches DeliveryStage::BeginBatch { batch } ==> batch < sizes.len(),
        stage matches DeliveryStage::Typing { batch, character } ==> batch < sizes.len() && character < sizes[batch as int],
        stage matches DeliveryStage::OpeningChat { key } ==> key < chat_keys,
    ensures
        report_ok(
            match event {
                DeliveryEvent::Sent => stage_after_sent(chat_keys, sizes, submit, stage),
                DeliveryEvent::ForegroundLost => DeliveryStage::Failed(DeliveryFailure::TargetChanged),
                DeliveryEvent::SendIncomplete { .. } => DeliveryStage::Failed(refusal(stage)),
            },
            submit,
            report_after(stage, event, r),
            0,
            0,
            sizes.len(),
        ),
{
}

/// Batches begun stay counted across a step.
proof fn lemma_begun_after(stage: DeliveryStage, event: DeliveryEvent, chat_keys: usize, sizes: Seq<usize>, submit: bool, r: InjectionReport)
    requires
        begun_ok(stage, r.attempted_batches, sizes.len()),
        sizes.len() <= usize::MAX,
        !is_finished(stage),
        stage matches DeliveryStage::BeginBatch { batch } ==> batch < sizes.len(),
        stage matches DeliveryStage::Typing { batch, character } ==> batch < sizes.len() && character < sizes[batch as int],
        stage matches DeliveryStage::OpeningChat { key } ==> key < chat_keys,
    ensures
        begun_ok(
            match event {
                DeliveryEvent::Sent => stage_after_sent(chat_keys, sizes, submit, stage),
                DeliveryEvent::ForegroundLost => DeliveryStage::Failed(DeliveryFailure::TargetChanged),
                DeliveryEvent::SendIncomplete { .. } => DeliveryStage::Failed(refusal(stage)),
            },
            report_after(stage, event, r).attempted_batches,
            sizes.len(),
        ),
{
}

impl TextDelivery {
    pub closed spec fn spec_stage(&self) -> DeliveryStage {
        self.stage
    }

    /// How many characters went out completely.
    pub closed spec fn spec_typed(&self) -> int {
        self.typed as int
    }

    pub closed spec fn spec_sizes(&self) -> Seq<usize> {
        self.batch_sizes@
    }

    pub closed spec fn spec_chat_keys(&self) -> usize {
        self.chat_keys
    }

    pub closed spec fn spec_submit(&self) -> bool {
        self.submit
    }

    pub closed spec fn spec_report(&self) -> InjectionReport {
        self.report
    }

    /// The stage is a real position, and `typed` counts exactly the
    /// characters before it.
    closed spec fn position_wf(&self) -> bool {
        let sizes = self.batch_sizes@;
        &&& total_chars(sizes) <= usize::MAX
        &&& match self.stage {
            DeliveryStage::OpeningChat { key } => key < self.chat_keys && self.typed == 0,
            DeliveryStage::BeginBatch { batch } => batch < sizes.len() && self.typed == chars_before(sizes, batch as int),
            DeliveryStage::Typing { batch, character } => batch < sizes.len() && character < sizes[batch as int]
                && self.typed == chars_before(sizes, batch as int) + character,
            DeliveryStage::Submitting => self.submit && self.typed == total_chars(sizes),
            DeliveryStage::Delivered => self.typed == total_chars(sizes),
            DeliveryStage::Failed(_) => self.typed <= total_chars(sizes),
        }
    }

    /// The position is real and the report counts the batches begun.
    pub closed spec fn wf(&self) -> bool {
        &&& self.position_wf()
        &&& begun_ok(self.stage, self.report.attempted_batches, self.batch_sizes@.len())
        &&& report_ok(self.stage, self.submit, self.report, self.step_requested, self.step_inserted, self.batch_sizes@.len())
    }

    /// Events asked for and taken in the current step, and whether a
    /// retried key release of this step went through.
    pub closed spec fn spec_step(&self) -> (u32, u32, Option<bool>) {
        (self.step_requested, self.step_inserted, self.release_retried)
    }

    /// A delivery of batches holding `batch_sizes` characters after
    /// `chat_keys` preparation keys, over `SendInput`; its report starts
    /// empty, recording `input_characters` and `input_delay_ms`.
    pub fn new(chat_keys: usize, batch_sizes: Vec<usize>, submit: bool, input_characters: usize, input_delay_ms: u64) -> (r: Self)
        requires
            total_chars(batch_sizes@) <= usize::MAX,
        ensures
            r.wf(),
            fresh_report(r.spec_report(), input_characters, input_delay_ms),
            r.spec_step() == (0u32, 0u32, None::<bool>),
            r.spec_sizes() == batch_sizes@,
            r.spec_chat_keys() == chat_keys,
            r.spec_submit() == submit,
            r.spec_typed() == 0,
            r.spec_stage() == (if chat_keys > 0 {
                DeliveryStage::OpeningChat { key: 0 }
            } else {
                after_chat(batch_sizes@, submit)
            }),
    {
        let stage = if chat_keys > 0 {
            DeliveryStage::OpeningChat { key: 0 }
        } else if batch_sizes.len() > 0 {
            DeliveryStage::BeginBatch { batch: 0 }
        } else if submit {
            DeliveryStage::Submitting
        } else {
            DeliveryStage::Delivered
        };
        proof {
            reveal_with_fuel(chars_before, 2);
        }
        let report = empty_report("SendInput", input_characters, input_delay_ms);
        TextDelivery {
            chat_keys,
            batch_sizes,
            submit,
            stage,
            typed: 0,
            report,
            step_requested: 0,
            step_inserted: 0,
            release_retried: None,
        }
    }

    /// The delivery of a quick shout: always submitted with Enter.
    pub fn quick_shout(chat_keys: usize, batch_sizes: Vec<usize>, input_characters: usize, input_delay_ms: u64) -> (r: Self)
        requires
            total_chars(batch_sizes@) <= usize::MAX,
        ensures
            r.wf(),
            r.spec_submit(),
            fresh_report(r.spec_report(), input_characters, input_delay_ms),
            r.spec_step() == (0u32, 0u32, None::<bool>),
            r.spec_sizes() == batch_sizes@,
            r.spec_chat_keys() == chat_keys,
            r.spec_typed() == 0,
            r.spec_stage() == (if chat_keys > 0 {
                DeliveryStage::OpeningChat { key: 0 }
            } else {
                after_chat(batch_sizes@, true)
            }),
    {
        TextDelivery::new(chat_keys, batch_sizes, true, input_characters, input_delay_ms)
    }

    /// The step the caller performs next. Enter is only asked for when
    /// every character went out completely and a submit was wanted.
    pub fn next_action(&self) -> (r: DeliveryAction)
        requires
            self.wf(),
        ensures
            r == match self.spec_stage() {
                DeliveryStage::OpeningChat { key } => DeliveryAction::PressChatKey(key),
                DeliveryStage::BeginBatch { batch } => DeliveryAction::BeginBatch(batch),
                DeliveryStage::Typing { batch, character } => DeliveryAction::TypeCharacter { batch, character },
                DeliveryStage::Submitting => DeliveryAction::PressEnter,
                DeliveryStage::Delivered => DeliveryAction::Done,
                DeliveryStage::Failed(f) => DeliveryAction::Stopped(f),
            },
            r == DeliveryAction::PressEnter ==> self.spec_submit() && self.spec_typed() == total_chars(self.spec_sizes()),
    {
        match self.stage {
            DeliveryStage::OpeningChat { key } => DeliveryAction::PressChatKey(key),
            DeliveryStage::BeginBatch { batch } => DeliveryAction::BeginBatch(batch),
            DeliveryStage::Typing { batch, character } => DeliveryAction::TypeCharacter { batch, character },
            DeliveryStage::Submitting => DeliveryAction::PressEnter,
            DeliveryStage::Delivered => DeliveryAction::Done,
            DeliveryStage::Failed(f) => DeliveryAction::Stopped(f),
        }
    }

    /// Does the report's bookkeeping for `event` at the current stage.
    fn book(&mut self, event: DeliveryEvent)
        requires
            old(self).wf(),
            !is_finished(old(self).spec_stage()),
        ensures
            final(self).spec_report() == report_after(old(self).spec_stage(), event, old(self).spec_report()),
            final(self).stage == old(self).stage,
            final(self).typed == old(self).typed,
            final(self).batch_sizes == old(self).batch_sizes,
            final(self).chat_keys == old(self).chat_keys,
            final(self).submit == old(self).submit,
    {
        match event {
            DeliveryEvent::Sent => match self.stage {
                DeliveryStage::BeginBatch { batch } => {
                    let n = self.batch_sizes.len();
                    assert(batch < n);
                    self.report.attempted_batches = self.report.attempted_batches + 1;
                },
                DeliveryStage::Submitting => {
                    self.report.submit_attempted = true;
                    self.report.submit_completed = true;
                },
                _ => {},
            },
            DeliveryEvent::ForegroundLost => match self.stage {
                DeliveryStage::BeginBatch { batch } => record_target_lost(&mut self.report, batch),
                DeliveryStage::Typing { batch, .. } => record_target_lost(&mut self.report, batch),
                _ => {
                    self.report.partial_prefix_possible = self.report.successful_events > 0;
                },
            },
            DeliveryEvent::SendIncomplete { inserted, release_retried_ok } => match self.stage {
                DeliveryStage::BeginBatch { batch } => record_partial_text(&mut self.report, batch, inserted, release_retried_ok),
                DeliveryStage::Typing { batch, .. } => record_partial_text(&mut self.report, batch, inserted, release_retried_ok),
                DeliveryStage::Submitting => {
                    self.report.submit_attempted = true;
                    record_submit_failure(&mut self.report, inserted, release_retried_ok);
                },
                _ => record_submit_failure(&mut self.report, inserted, release_retried_ok),
            },
        }
    }

    /// Moves the position after `event`; the report is left as it is.
    fn advance(&mut self, event: DeliveryEvent)
        requires
            old(self).position_wf(),
        ensures
            final(self).position_wf(),
            final(self).spec_sizes() == old(self).spec_sizes(),
            final(self).spec_chat_keys() == old(self).spec_chat_keys(),
            final(self).spec_submit() == old(self).spec_submit(),
            final(self).spec_report() == old(self).spec_report(),
            is_finished(old(self).spec_stage()) ==> final(self).spec_stage() == old(self).spec_stage()
                && final(self).spec_typed() == old(self).spec_typed()
,
            !is_finished(old(self).spec_stage()) ==> match event {
                DeliveryEvent::Sent => final(self).spec_stage() == stage_after_sent(
                    old(self).spec_chat_keys(),
                    old(self).spec_sizes(),
                    old(self).spec_submit(),
                    old(self).spec_stage(),
                ) && final(self).spec_typed() == old(self).spec_typed() + (if old(self).spec_stage() is Typing {
                    1int
                } else {
                    0
                }),
                DeliveryEvent::ForegroundLost => final(self).spec_stage() == DeliveryStage::Failed(DeliveryFailure::TargetChanged)
                    && final(self).spec_typed() == old(self).spec_typed(),
                DeliveryEvent::SendIncomplete { .. } => final(self).spec_stage() == DeliveryStage::Failed(refusal(old(self).spec_stage()))
                    && final(self).spec_typed() == old(self).spec_typed(),
            },
    {
        let ghost sizes = self.batch_sizes@;
        match self.stage {
            DeliveryStage::Delivered | DeliveryStage::Failed(_) => {
                return;
            },
            _ => {},
        }
        proof {
            lemma_chars_before_monotone(sizes, 0, sizes.len() as int);
        }
        match event {
            DeliveryEvent::ForegroundLost => {
                proof {
                    match self.stage {
                        DeliveryStage::BeginBatch { batch } => {
                            lemma_chars_before_monotone(sizes, batch as int, sizes.len() as int);
                        },
                        DeliveryStage::Typing { batch, character } => {
                            lemma_chars_before_monotone(sizes, batch + 1, sizes.len() as int);
                        },
                        _ => {},
                    }
                }
                self.stage = DeliveryStage::Failed(DeliveryFailure::TargetChanged);
            },
            DeliveryEvent::SendIncomplete { .. } => {
                proof {
                    match self.stage {
                        DeliveryStage::BeginBatch { batch } => {
                            lemma_chars_before_monotone(sizes, batch as int, sizes.len() as int);
                        },
                        DeliveryStage::Typing { batch, character } => {
                            lemma_chars_before_monotone(sizes, batch + 1, sizes.len() as int);
                        },
                        _ => {},
                    }
                }
                let failure = match self.stage {
                    DeliveryStage::OpeningChat { .. } => DeliveryFailure::OpenChatFailed,
                    DeliveryStage::Submitting => DeliveryFailure::SubmitFailed,
                    _ => DeliveryFailure::SendInputFailed,
                };
                self.stage = DeliveryStage::Failed(failure);
            },
            DeliveryEvent::Sent => {
                match self.stage {
                    DeliveryStage::OpeningChat { key } => {
                        self.stage = if key + 1 < self.chat_keys {
                            DeliveryStage::OpeningChat { key: key + 1 }
                        } else if self.batch_sizes.len() > 0 {
                            DeliveryStage::BeginBatch { batch: 0 }
                        } else if self.submit {
                            DeliveryStage::Submitting
                        } else {
                            DeliveryStage::Delivered
                        };
                    },
                    DeliveryStage::BeginBatch { batch } => {
                        if self.batch_sizes[batch] > 0 {
                            self.stage = DeliveryStage::Typing { batch, character: 0 };
                        } else {
                            assert(chars_before(sizes, batch + 1) == chars_before(sizes, batch as int));
                            self.stage = if batch < self.batch_sizes.len() - 1 {
                                DeliveryStage::BeginBatch { batch: batch + 1 }
                            } else if self.submit {
                                DeliveryStage::Submitting
                            } else {
                                DeliveryStage::Delivered
                            };
                        }
                    },
                    DeliveryStage::Typing { batch, character } => {
                        proof {
                            lemma_chars_before_monotone(sizes, batch + 1, sizes.len() as int);
                        }
                        self.typed = self.typed + 1;
                        if character + 1 < self.batch_sizes[batch] {
                            self.stage = DeliveryStage::Typing { batch, character: character + 1 };
                        } else {
                            self.stage = if batch < self.batch_sizes.len() - 1 {
                                DeliveryStage::BeginBatch { batch: batch + 1 }
                            } else if self.submit {
                                DeliveryStage::Submitting
                            } else {
                                DeliveryStage::Delivered
                            };
                        }
                    },
                    DeliveryStage::Submitting => {
                        self.stage = DeliveryStage::Delivered;
                    },
                    _ => {},
                }
            },
        }
    }

    fn apply(&mut self, event: DeliveryEvent)
        requires
            old(self).wf(),
            !is_finished(old(self).spec_stage()),
            event is Sent ==> old(self).step_requested == old(self).step_inserted,
        ensures
            final(self).wf(),
            final(self).spec_sizes() == old(self).spec_sizes(),
            final(self).spec_chat_keys() == old(self).spec_chat_keys(),
            final(self).spec_submit() == old(self).spec_submit(),
            final(self).spec_step() == (0u32, 0u32, None::<bool>),
            (final(self).spec_stage(), final(self).spec_typed(), final(self).spec_report()) == delivery_step(
                old(self).spec_chat_keys(),
                old(self).spec_sizes(),
                old(self).spec_submit(),
                old(self).spec_stage(),
                old(self).spec_typed(),
                old(self).spec_report(),
                event,
            ),
    {
        let ghost before = self.stage;
        let ghost report_before = self.report;
        let n = self.batch_sizes.len();
        proof {
            lemma_report_after(before, event, self.chat_keys, self.batch_sizes@, self.submit, report_before,
                self.step_requested, self.step_inserted);
        }
        self.book(event);
        self.advance(event);
        self.step_requested = 0;
        self.step_inserted = 0;
        self.release_retried = None;
        proof {
            lemma_begun_after(before, event, self.chat_keys, self.batch_sizes@, self.submit, report_before);
        }
    }

    /// Ends the current step: it went out when every event asked for in it
    /// was taken; otherwise the delivery stops, and a key may still be down
    /// when an odd number went out and no retried release went through.
    /// Returns how the step went.
    pub fn finish_step(&mut self) -> (e: DeliveryEvent)
        requires
            old(self).wf(),
            !is_finished(old(self).spec_stage()),
        ensures
            e == step_event(old(self).spec_step()),
            final(self).wf(),
            final(self).spec_sizes() == old(self).spec_sizes(),
            final(self).spec_chat_keys() == old(self).spec_chat_keys(),
            final(self).spec_submit() == old(self).spec_submit(),
            final(self).spec_step() == (0u32, 0u32, None::<bool>),
            (final(self).spec_stage(), final(self).spec_typed(), final(self).spec_report()) == delivery_step(
                old(self).spec_chat_keys(),
                old(self).spec_sizes(),
                old(self).spec_submit(),
                old(self).spec_stage(),
                old(self).spec_typed(),
                old(self).spec_report(),
                e,
            ),
    {
        let event = if self.step_inserted == self.step_requested {
            DeliveryEvent::Sent
        } else {
            let release_retried_ok = match self.release_retried {
                Some(ok) => ok,
                None => false,
            };
            DeliveryEvent::SendIncomplete { inserted: self.step_inserted, release_retried_ok }
        };
        self.apply(event);
        event
    }

    /// The game window was no longer in front: the delivery stops.
    pub fn lose_foreground(&mut self)
        requires
            old(self).wf(),
            !is_finished(old(self).spec_stage()),
        ensures
            final(self).wf(),
            final(self).spec_sizes() == old(self).spec_sizes(),
            final(self).spec_chat_keys() == old(self).spec_chat_keys(),
            final(self).spec_submit() == old(self).spec_submit(),
            final(self).spec_step() == (0u32, 0u32, None::<bool>),
            (final(self).spec_stage(), final(self).spec_typed(), final(self).spec_report()) == delivery_step(
                old(self).spec_chat_keys(),
                old(self).spec_sizes(),
                old(self).spec_submit(),
                old(self).spec_stage(),
                old(self).spec_typed(),
                old(self).spec_report(),
                DeliveryEvent::ForegroundLost,
            ),
    {
        self.apply(DeliveryEvent::ForegroundLost);
    }

    /// Events asked for and taken so far in the current step, and whether a
    /// retried key release of this step went through.
    pub fn step(&self) -> (r: (u32, u32, Option<bool>))
        ensures
            r == self.spec_step(),
    {
        (self.step_requested, self.step_inserted, self.release_retried)
    }

    /// The report so far.
    pub fn report(&self) -> (r: &InjectionReport)
        ensures
            *r == self.spec_report(),
    {
        &self.report
    }

    /// Counts one `SendInput` call of the current step: `requested` events
    /// asked for, `inserted` taken. Events sent while typing a character are
    /// text events.
    pub fn record_send(&mut self, requested: u32, inserted: u32, last_error: u32)
        requires
            old(self).wf(),
            !is_finished(old(self).spec_stage()),
            inserted <= requested,
            can_record_send(old(self).spec_report(), requested, inserted, old(self).spec_stage() is Typing),
            old(self).spec_step().0 + requested <= u32::MAX,
        ensures
            final(self).wf(),
            final(self).spec_stage() == old(self).spec_stage(),
            final(self).spec_typed() == old(self).spec_typed(),
            final(self).spec_sizes() == old(self).spec_sizes(),
            final(self).spec_chat_keys() == old(self).spec_chat_keys(),
            final(self).spec_submit() == old(self).spec_submit(),
            final(self).spec_report() == spec_record_send(
                old(self).spec_report(),
                requested,
                inserted,
                old(self).spec_stage() is Typing,
                last_error,
            ),
            final(self).spec_step() == (
                (old(self).spec_step().0 + requested) as u32,
                (old(self).spec_step().1 + inserted) as u32,
                old(self).spec_step().2,
            ),
    {
        let text_event = match self.stage {
            DeliveryStage::Typing { .. } => true,
            _ => false,
        };
        record_send_input(&mut self.report, requested, inserted, text_event, last_error);
        self.step_requested = self.step_requested + requested;
        self.step_inserted = self.step_inserted + inserted;
    }

    /// Counts a retried key release (one event, `inserted` of it taken)
    /// after part of the step was refused; it is not part of the step.
    pub fn record_release_retry(&mut self, inserted: u32, last_error: u32)
        requires
            old(self).wf(),
            !is_finished(old(self).spec_stage()),
            inserted <= 1,
            can_record_send(old(self).spec_report(), 1, inserted, false),
        ensures
            final(self).wf(),
            final(self).spec_stage() == old(self).spec_stage(),
            final(self).spec_typed() == old(self).spec_typed(),
            final(self).spec_sizes() == old(self).spec_sizes(),
            final(self).spec_chat_keys() == old(self).spec_chat_keys(),
            final(self).spec_submit() == old(self).spec_submit(),
            final(self).spec_report() == spec_record_send(old(self).spec_report(), 1, inserted, false, last_error),
            final(self).spec_step() == (old(self).spec_step().0, old(self).spec_step().1, Some(inserted == 1)),
    {
        record_send_input(&mut self.report, 1, inserted, false, last_error);
        self.release_retried = Some(inserted == 1);
    }

    /// The outcome of a finished delivery: its report, or the error of the
    /// failure that stopped it, carrying the report.
    pub fn finish(self) -> (r: Result<InjectionReport, InjectionError>)
        requires
            self.wf(),
            is_finished(self.spec_stage()),
        ensures
            delivered_report_ok(self.spec_stage(), self.spec_submit(), self.spec_report(), self.spec_sizes().len()),
            match self.spec_stage() {
                DeliveryStage::Failed(f) => r == Err::<InjectionReport, InjectionError>(failure_error(f, self.spec_report())),
                _ => r == Ok::<InjectionReport, InjectionError>(self.spec_report()),
            },
    {
        match self.stage {
            DeliveryStage::Failed(f) => Err(delivery_error(f, self.report)),
            _ => Ok(self.report),
        }
    }
}

/// The injection error of a failure, carrying the report.
pub open spec fn failure_error(failure: DeliveryFailure, report: InjectionReport) -> InjectionError {
    match failure {
        DeliveryFailure::TargetChanged => InjectionError::TargetChanged(report),
        DeliveryFailure::OpenChatFailed => InjectionError::OpenChatFailed(report),
        DeliveryFailure::SendInputFailed => InjectionError::SendInputFailed(report),
        DeliveryFailure::SubmitFailed => InjectionError::SubmitFailed(report),
    }
}

/// The injection error a stopped delivery reports, carrying its report.
pub fn delivery_error(failure: DeliveryFailure, report: InjectionReport) -> (r: InjectionError)
    ensures
        r == failure_error(failure, report),
{
    match failure {
        DeliveryFailure::TargetChanged => InjectionError::TargetChanged(report),
        DeliveryFailure::OpenChatFailed => InjectionError::OpenChatFailed(report),
        DeliveryFailure::SendInputFailed => InjectionError::SendInputFailed(report),
        DeliveryFailure::SubmitFailed => InjectionError::SubmitFailed(report),
    }
}

} // verus!
