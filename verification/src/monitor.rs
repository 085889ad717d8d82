//! Keyboard-hook policies of the game monitor: where a key event came from,
//! when the chat and Escape keys fire, the first-key buffer that holds keys
//! typed while the game briefly steals the foreground, and the CapsLock
//! protection gates.
use vstd::prelude::*;
use crate::injector::{scan_code_flags, scan_code_input_with_extended, KeyInput};
use crate::chars::{chars_eq_ignore_ascii_case, chars_equal, chars_of, eq_ignore_ascii_case, parse_decimal, spec_parse_decimal};

verus! {

/// Marker ("HD2C") that every input event this application sends carries.
pub const SELF_INJECTED_EXTRA_INFO: usize = 0x4844_3243;
/// Most key events the first-key buffer holds.
pub const KEY_BUFFER_CAPACITY: usize = 128;
/// How long after arming the first-key buffer swallows keys, in ms.
pub const KEY_BUFFER_WATCHDOG_MS: u64 = 1400;
pub const WM_KEYDOWN: u32 = 0x0100;
pub const WM_KEYUP: u32 = 0x0101;
pub const WM_SYSKEYDOWN: u32 = 0x0104;
pub const WM_SYSKEYUP: u32 = 0x0105;
pub const DEFAULT_OVERLAY_CHAT_KEY: &'static str = "Enter";

/// Where a low-level keyboard event came from.
#[derive(Debug, Clone, Copy, PartialEq, Eq, Structural)]
pub enum HookEventSource {
    Physical,
    RemoteInjected,
    SelfInjected,
}

/// Physical keys and keys injected by other software are user input; only
/// events carrying this application's marker are its own.
pub fn classify_hook_event(injected: bool, extra_info: usize) -> (r: HookEventSource)
    ensures
        !injected ==> r == HookEventSource::Physical,
        injected && extra_info == SELF_INJECTED_EXTRA_INFO ==> r == HookEventSource::SelfInjected,
        injected && extra_info != SELF_INJECTED_EXTRA_INFO ==> r == HookEventSource::RemoteInjected,
{
    if !injected {
        return HookEventSource::Physical;
    }
    if extra_info == SELF_INJECTED_EXTRA_INFO {
        HookEventSource::SelfInjected
    } else {
        HookEventSource::RemoteInjected
    }
}

/// Who owns the foreground window.
#[derive(Debug, Clone, Copy, PartialEq, Eq, Structural)]
pub enum ForegroundState {
    Game,
    Assistant,
    Other,
}

/// The name of a foreground state in the event contract.
pub fn foreground_state_name(state: ForegroundState) -> (r: &'static str)
    ensures
        state == ForegroundState::Game ==> r@ == "game"@,
        state == ForegroundState::Assistant ==> r@ == "assistant"@,
        state == ForegroundState::Other ==> r@ == "other"@,
{
    match state {
        ForegroundState::Game => "game",
        ForegroundState::Assistant => "assistant",
        ForegroundState::Other => "other",
    }
}

/// A monitor work area (the part of the screen not covered by task bars).
#[derive(Debug, Clone, Copy, PartialEq, Eq, Structural)]
pub struct WorkArea {
    pub x: i32,
    pub y: i32,
    pub width: u32,
    pub height: u32,
}

pub open spec fn is_key_down(message: u32) -> bool {
    message == WM_KEYDOWN || message == WM_SYSKEYDOWN
}

pub open spec fn is_key_up(message: u32) -> bool {
    message == WM_KEYUP || message == WM_SYSKEYUP
}

/// A trigger key arms on an unmodified press while the game is in front
/// and fires on the release that follows, still unmodified and still in the
/// game; returns `(fire, armed)`.
pub open spec fn spec_resolve_trigger(message: u32, modifier_down: bool, state: ForegroundState, was_armed: bool) -> (
    bool,
    bool,
) {
    if is_key_down(message) {
        (false, !modifier_down && state == ForegroundState::Game)
    } else if is_key_up(message) {
        (was_armed && !modifier_down && state == ForegroundState::Game, false)
    } else {
        (false, was_armed)
    }
}

pub fn resolve_chat_key_trigger(message: u32, modifier_down: bool, state: ForegroundState, was_armed: bool) -> (r: (
    bool,
    bool,
))
    ensures
        r == spec_resolve_trigger(message, modifier_down, state, was_armed),
{
    let in_game = match state {
        ForegroundState::Game => true,
        _ => false,
    };
    if message == WM_KEYDOWN || message == WM_SYSKEYDOWN {
        return (false, !modifier_down && in_game);
    }
    if message == WM_KEYUP || message == WM_SYSKEYUP {
        return (was_armed && !modifier_down && in_game, false);
    }
    (false, was_armed)
}

pub fn resolve_escape_trigger(message: u32, modifier_down: bool, state: ForegroundState, was_armed: bool) -> (r: (
    bool,
    bool,
))
    ensures
        r == spec_resolve_trigger(message, modifier_down, state, was_armed),
{
    resolve_chat_key_trigger(message, modifier_down, state, was_armed)
}

/// Keys that type text into the sidebar: digits, letters, space, OEM
/// punctuation and Backspace.
pub open spec fn spec_is_plain_typing_vk(vk: u32) -> bool {
    ||| 0x30 <= vk <= 0x39
    ||| 0x41 <= vk <= 0x5A
    ||| vk == 0x20
    ||| 0xBA <= vk <= 0xC0
    ||| 0xDB <= vk <= 0xDF
    ||| vk == 0x08
}

pub fn is_plain_typing_vk(vk: u32) -> (r: bool)
    ensures
        r == spec_is_plain_typing_vk(vk),
{
    (0x30 <= vk && vk <= 0x39) || (0x41 <= vk && vk <= 0x5A) || vk == 0x20 || (0xBA <= vk && vk
        <= 0xC0) || (0xDB <= vk && vk <= 0xDF) || vk == 0x08
}

// ---------------------------------------------------------------------------
// Chat key codes

pub open spec fn is_key_letter_code(code: Seq<char>) -> bool {
    code.len() == 4 && code[0] == 'K' && code[1] == 'e' && code[2] == 'y'
}

pub open spec fn is_digit_code(code: Seq<char>) -> bool {
    code.len() == 6 && code[0] == 'D' && code[1] == 'i' && code[2] == 'g' && code[3] == 'i' && code[4] == 't'
}

/// The Windows virtual key of a DOM key code that the chat key may use.
pub open spec fn spec_virtual_key_for_code(code: Seq<char>) -> Option<u32> {
    if code == "Enter"@ || code == "NumpadEnter"@ {
        Some(0x0D)
    } else if code == "Space"@ {
        Some(0x20)
    } else if code == "Tab"@ {
        Some(0x09)
    } else if code == "Backquote"@ {
        Some(0xC0)
    } else if code == "Minus"@ {
        Some(0xBD)
    } else if code == "Equal"@ {
        Some(0xBB)
    } else if code == "BracketLeft"@ {
        Some(0xDB)
    } else if code == "BracketRight"@ {
        Some(0xDD)
    } else if code == "Backslash"@ {
        Some(0xDC)
    } else if code == "Semicolon"@ {
        Some(0xBA)
    } else if code == "Quote"@ {
        Some(0xDE)
    } else if code == "Comma"@ {
        Some(0xBC)
    } else if code == "Period"@ {
        Some(0xBE)
    } else if code == "Slash"@ {
        Some(0xBF)
    } else if is_key_letter_code(code) {
        if 'A' <= code[3] <= 'Z' {
            Some(code[3] as u32)
        } else {
            None
        }
    } else if is_digit_code(code) {
        if '0' <= code[5] <= '9' {
            Some(code[5] as u32)
        } else {
            None
        }
    } else if code.len() > 0 && code[0] == 'F' {
        match spec_parse_decimal(code.drop_first(), 0xffff_ffff) {
            Some(n) => if 1 <= n <= 12 {
                Some((0x6F + n) as u32)
            } else {
                None
            },
            None => None,
        }
    } else {
        None
    }
}

fn code_is(code: &[char], literal: &str) -> (r: bool)
    ensures
        r == (code@ == literal@),
{
    let l = chars_of(literal);
    chars_equal(code, l.as_slice())
}

pub fn virtual_key_for_code(code: &str) -> (r: Option<u32>)
    ensures
        r == spec_virtual_key_for_code(code@),
{
    let cs = chars_of(code);
    let c = cs.as_slice();
    let r = if code_is(c, "Enter") || code_is(c, "NumpadEnter") {
        Some(0x0D)
    } else if code_is(c, "Space") {
        Some(0x20)
    } else if code_is(c, "Tab") {
        Some(0x09)
    } else if code_is(c, "Backquote") {
        Some(0xC0)
    } else if code_is(c, "Minus") {
        Some(0xBD)
    } else if code_is(c, "Equal") {
        Some(0xBB)
    } else if code_is(c, "BracketLeft") {
        Some(0xDB)
    } else if code_is(c, "BracketRight") {
        Some(0xDD)
    } else if code_is(c, "Backslash") {
        Some(0xDC)
    } else if code_is(c, "Semicolon") {
        Some(0xBA)
    } else if code_is(c, "Quote") {
        Some(0xDE)
    } else if code_is(c, "Comma") {
        Some(0xBC)
    } else if code_is(c, "Period") {
        Some(0xBE)
    } else if code_is(c, "Slash") {
        Some(0xBF)
    } else if c.len() == 4 && c[0] == 'K' && c[1] == 'e' && c[2] == 'y' {
        if 'A' <= c[3] && c[3] <= 'Z' {
            Some(c[3] as u32)
        } else {
            None
        }
    } else if c.len() == 6 && c[0] == 'D' && c[1] == 'i' && c[2] == 'g' && c[3] == 'i' && c[4] == 't' {
        if '0' <= c[5] && c[5] <= '9' {
            Some(c[5] as u32)
        } else {
            None
        }
    } else if c.len() > 0 && c[0] == 'F' {
        let rest = crate::chars::copy_range(c, 1, c.len());
        assert(rest@ =~= c@.drop_first());
        match parse_decimal(rest.as_slice(), 0xffff_ffff) {
            Some(n) => if 1 <= n && n <= 12 {
                Some(0x6F + n as u32)
            } else {
                None
            },
            None => None,
        }
    } else {
        None
    };
    r
}

/// A DOM key code the chat key can be set to.
pub fn is_supported_chat_key(code: &str) -> (r: bool)
    ensures
        r == spec_virtual_key_for_code(code@) is Some,
{
    virtual_key_for_code(code).is_some()
}

/// Titles of this application's own windows.
pub open spec fn assistant_titles() -> Seq<Seq<char>> {
    seq!["HD2CN 中文助手"@, "HD2CN 聊天译文"@, "HD2CN 中文侧栏"@]
}

/// A window of this process, or, when Windows reports no process, one whose
/// title is an assistant title up to ASCII case.
pub open spec fn spec_is_assistant_window(process_id: u32, own_process_id: u32, title: Option<Seq<char>>) -> bool {
    ||| process_id == own_process_id
    ||| (process_id == 0 && (title matches Some(t) && exists|i: int|
        0 <= i < 3 && eq_ignore_ascii_case(t, #[trigger] assistant_titles()[i])))
}

pub fn is_assistant_window(process_id: u32, own_process_id: u32, title: Option<&str>) -> (r: bool)
    ensures
        r == spec_is_assistant_window(process_id, own_process_id, match title {
            Some(t) => Some(t@),
            None => None,
        }),
{
    if process_id == own_process_id {
        return true;
    }
    if process_id != 0 {
        return false;
    }
    match title {
        None => false,
        Some(t) => {
            let tc = chars_of(t);
            let a = chars_of("HD2CN 中文助手");
            let b = chars_of("HD2CN 聊天译文");
            let c = chars_of("HD2CN 中文侧栏");
            let r = chars_eq_ignore_ascii_case(tc.as_slice(), a.as_slice())
                || chars_eq_ignore_ascii_case(tc.as_slice(), b.as_slice())
                || chars_eq_ignore_ascii_case(tc.as_slice(), c.as_slice());
            assert(assistant_titles()[0] == a@);
            assert(assistant_titles()[1] == b@);
            assert(assistant_titles()[2] == c@);
            r
        },
    }
}

// ---------------------------------------------------------------------------
// First-key buffer

/// A key event held by the first-key buffer for a later replay.
#[derive(Debug, Clone, Copy, PartialEq, Eq, Structural)]
pub struct BufferedKeyEvent {
    pub vk_code: u32,
    pub scan_code: u16,
    pub extended: bool,
    pub key_up: bool,
}

/// The fields of a low-level keyboard event that the buffer keeps.
#[derive(Debug, Clone, Copy, PartialEq, Eq, Structural)]
pub struct KeyboardEvent {
    pub vk_code: u32,
    pub scan_code: u32,
    pub extended: bool,
}

/// Keys typed while the game briefly takes the foreground back from the
/// sidebar: while armed, plain typing keys are swallowed and held here until
/// the sidebar has focus again and asks for them.
#[derive(Debug)]
pub struct FirstKeyBuffer {
    armed: bool,
    events: Vec<BufferedKeyEvent>,
    started_ms: Option<u64>,
}

impl View for FirstKeyBuffer {
    /// Whether it swallows keys, the held events, and when the capture
    /// window started.
    type V = (bool, Seq<BufferedKeyEvent>, Option<u64>);

    closed spec fn view(&self) -> (bool, Seq<BufferedKeyEvent>, Option<u64>) {
        (self.armed, self.events@, self.started_ms)
    }
}

/// Milliseconds since `started` at `now`; zero when the clock went back.
pub open spec fn elapsed_ms(started: u64, now: u64) -> int {
    if now >= started {
        now - started
    } else {
        0
    }
}

/// The capture window that started at `started` is over at `now`.
pub open spec fn window_expired(started: u64, now: u64) -> bool {
    elapsed_ms(started, now) > KEY_BUFFER_WATCHDOG_MS
}

fn expired_at(started: u64, now: u64) -> (r: bool)
    ensures
        r == window_expired(started, now),
{
    let elapsed = if now >= started {
        now - started
    } else {
        0
    };
    elapsed > KEY_BUFFER_WATCHDOG_MS
}

impl FirstKeyBuffer {
    pub fn new() -> (r: Self)
        ensures
            r@ == (false, Seq::<BufferedKeyEvent>::empty(), None::<u64>),
    {
        FirstKeyBuffer { armed: false, events: Vec::new(), started_ms: None }
    }

    /// Starts a buffer session at `now_ms`: empty, swallowing.
    pub fn arm_first_key_buffer(&mut self, now_ms: u64)
        ensures
            final(self)@ == (true, Seq::<BufferedKeyEvent>::empty(), Some(now_ms)),
    {
        self.events = Vec::new();
        self.started_ms = Some(now_ms);
        self.armed = true;
    }

    /// Ends the session: stops swallowing and drops what was held.
    pub fn discard_first_key_buffer(&mut self)
        ensures
            final(self)@ == (false, Seq::<BufferedKeyEvent>::empty(), None::<u64>),
    {
        self.armed = false;
        self.events = Vec::new();
        self.started_ms = None;
    }

    /// Stops swallowing once the capture window is over (or never started);
    /// keeps what was held.
    pub fn stop_first_key_buffer_swallow_if_expired(&mut self, now_ms: u64)
        ensures
            final(self)@.1 == old(self)@.1,
            final(self)@.2 == old(self)@.2,
            final(self)@.0 == (old(self)@.0 && match old(self)@.2 {
                Some(started) => !window_expired(started, now_ms),
                None => false,
            }),
    {
        let expired = match self.started_ms {
            Some(started) => expired_at(started, now_ms),
            None => true,
        };
        if expired {
            self.armed = false;
        }
    }

    /// Restarts the capture window of a swallowing session at `now_ms`.
    pub fn renew_first_key_buffer_window(&mut self, now_ms: u64)
        ensures
            final(self)@.0 == old(self)@.0,
            final(self)@.1 == old(self)@.1,
            final(self)@.2 == (if old(self)@.0 {
                Some(now_ms)
            } else {
                old(self)@.2
            }),
    {
        if self.armed {
            self.started_ms = Some(now_ms);
        }
    }

    pub fn first_key_buffer_armed(&self) -> (r: bool)
        ensures
            r == self@.0,
    {
        self.armed
    }

    /// Whether an event is a swallow candidate: `Some(key_up)` for an
    /// unmodified plain typing key press or release while armed.
    pub fn buffer_event_if_armed(&self, vk_code: u32, message: u32, modifier_down: bool) -> (r: Option<bool>)
        ensures
            r == (if self@.0 && (is_key_down(message) || is_key_up(message)) && !modifier_down
                && spec_is_plain_typing_vk(vk_code) {
                Some(is_key_up(message))
            } else {
                None
            }),
    {
        if !self.armed {
            return None;
        }
        let key_up = message == WM_KEYUP || message == WM_SYSKEYUP;
        let key_down = message == WM_KEYDOWN || message == WM_SYSKEYDOWN;
        if !key_up && !key_down {
            return None;
        }
        if modifier_down {
            return None;
        }
        if !is_plain_typing_vk(vk_code) {
            return None;
        }
        Some(key_up)
    }

    /// Swallows a candidate event while the game owns the foreground. Past
    /// the capture window or at capacity it stops swallowing and keeps what
    /// it holds; returns whether the event was swallowed.
    pub fn try_buffer_event(&mut self, event: KeyboardEvent, key_up: bool, foreground_game: bool, now_ms: u64) -> (r: bool)
        ensures
            match old(self)@.2 {
                None => !r && final(self)@ == old(self)@,
                Some(started) => if window_expired(started, now_ms) {
                    !r && final(self)@ == (false, old(self)@.1, old(self)@.2)
                } else if !foreground_game {
                    !r && final(self)@ == old(self)@
                } else if old(self)@.1.len() >= KEY_BUFFER_CAPACITY {
                    !r && final(self)@ == (false, old(self)@.1, old(self)@.2)
                } else {
                    r && final(self)@ == (
                        old(self)@.0,
                        old(self)@.1.push(
                            BufferedKeyEvent {
                                vk_code: event.vk_code,
                                scan_code: (event.scan_code % 0x10000) as u16,
                                extended: event.extended,
                                key_up,
                            },
                        ),
                        old(self)@.2,
                    )
                },
            },
    {
        let started = match self.started_ms {
            Some(started) => started,
            None => {
                return false;
            },
        };
        if expired_at(started, now_ms) {
            self.armed = false;
            return false;
        }
        if !foreground_game {
            return false;
        }
        if self.events.len() >= KEY_BUFFER_CAPACITY {
            self.armed = false;
            return false;
        }
        let scan_code = (event.scan_code % 0x10000) as u16;
        self.events.push(BufferedKeyEvent { vk_code: event.vk_code, scan_code, extended: event.extended, key_up });
        true
    }

    /// Hands out the held events in order, keeping the session as it is.
    pub fn take_buffered_keys(&mut self) -> (r: Vec<BufferedKeyEvent>)
        ensures
            r@ == old(self)@.1,
            final(self)@ == (old(self)@.0, Seq::<BufferedKeyEvent>::empty(), old(self)@.2),
    {
        let mut taken: Vec<BufferedKeyEvent> = Vec::new();
        std::mem::swap(&mut taken, &mut self.events);
        taken
    }

    pub fn buffered_key_count(&self) -> (r: usize)
        ensures
            r == self@.1.len(),
    {
        self.events.len()
    }

    /// Puts events back behind what is held, in order, without re-arming.
    pub fn restore_buffered_keys(&mut self, events: &[BufferedKeyEvent])
        ensures
            final(self)@ == (old(self)@.0, old(self)@.1 + events@, old(self)@.2),
    {
        let ghost base = self.events@;
        let mut i: usize = 0;
        while i < events.len()
            invariant
                i <= events@.len(),
                self.events@ == base + events@.take(i as int),
                self.armed == old(self).armed,
                self.started_ms == old(self).started_ms,
                base == old(self).events@,
            decreases events.len() - i,
        {
            self.events.push(events[i]);
            assert(base + events@.take(i + 1) =~= (base + events@.take(i as int)).push(events@[i as int]));
            i = i + 1;
        }
        assert(events@.take(events@.len() as int) =~= events@);
    }
}

/// The event that replays a buffered key into the sidebar: sent by scan
/// code with the extended and key-up flags the key had, and marked as sent
/// by this program so the hook lets it pass.
pub fn buffered_key_input(event: BufferedKeyEvent) -> (r: KeyInput)
    ensures
        r == (KeyInput {
            virtual_key: 0,
            scan: event.scan_code,
            flags: scan_code_flags(event.extended, event.key_up),
            extra_info: SELF_INJECTED_EXTRA_INFO,
        }),
{
    let base = scan_code_input_with_extended(event.scan_code, event.extended, event.key_up);
    KeyInput { virtual_key: base.virtual_key, scan: base.scan, flags: base.flags, extra_info: SELF_INJECTED_EXTRA_INFO }
}

/// What a replay request finds.
#[derive(Debug, Clone, PartialEq, Eq)]
pub enum ReplayStart {
    /// Another window is in front: nothing is taken; this many stay held.
    Deferred { held: usize },
    /// Nothing is held; the session stays armed.
    Empty,
    /// Send these events into the sidebar.
    Replay(Vec<BufferedKeyEvent>),
}

impl FirstKeyBuffer {
    /// Starts a replay into the sidebar. Unless the assistant is in front,
    /// nothing is taken (a stale session past its window stops swallowing);
    /// otherwise every held event is handed out in order.
    pub fn begin_replay(&mut self, foreground_is_assistant: bool, now_ms: u64) -> (r: ReplayStart)
        ensures
            !foreground_is_assistant ==> r == (ReplayStart::Deferred { held: old(self)@.1.len() as usize })
                && final(self)@.1 == old(self)@.1 && final(self)@.2 == old(self)@.2
                && final(self)@.0 == (old(self)@.0 && match old(self)@.2 {
                    Some(started) => !window_expired(started, now_ms),
                    None => false,
                }),
            foreground_is_assistant && old(self)@.1.len() == 0 ==> r == ReplayStart::Empty && final(self)@ == old(self)@,
            foreground_is_assistant && old(self)@.1.len() > 0 ==> (r matches ReplayStart::Replay(events) && events@
                == old(self)@.1) && final(self)@ == (old(self)@.0, Seq::<BufferedKeyEvent>::empty(), old(self)@.2),
    {
        if !foreground_is_assistant {
            self.stop_first_key_buffer_swallow_if_expired(now_ms);
            return ReplayStart::Deferred { held: self.buffered_key_count() };
        }
        if self.events.len() == 0 {
            return ReplayStart::Empty;
        }
        ReplayStart::Replay(self.take_buffered_keys())
    }

    /// Ends a replay of `events` of which `inserted` were taken: when none
    /// went out they are held again for the next try (-1); otherwise the
    /// capture window is renewed and the count returned.
    pub fn finish_replay(&mut self, events: &[BufferedKeyEvent], inserted: u32, now_ms: u64) -> (r: i64)
        ensures
            inserted == 0 ==> r == -1 && final(self)@ == (old(self)@.0, old(self)@.1 + events@, old(self)@.2),
            inserted > 0 ==> r == inserted && final(self)@ == (old(self)@.0, old(self)@.1, if old(self)@.0 {
                Some(now_ms)
            } else {
                old(self)@.2
            }),
    {
        if inserted == 0 {
            self.restore_buffered_keys(events);
            return -1;
        }
        self.renew_first_key_buffer_window(now_ms);
        inserted as i64
    }
}

impl Default for FirstKeyBuffer {
    fn default() -> (r: Self)
        ensures
            r@ == (false, Seq::<BufferedKeyEvent>::empty(), None::<u64>),
    {
        FirstKeyBuffer::new()
    }
}

/// Events put back after a failed replay come out again in the same order.
pub proof fn lemma_restore_then_take_keeps_order(
    held: Seq<BufferedKeyEvent>,
    restored: Seq<BufferedKeyEvent>,
)
    requires
        held.len() == 0,
    ensures
        held + restored == restored,
{
    assert(held + restored =~= restored);
}

/// The buffer never grows past its capacity by swallowing: an event is only
/// taken while fewer than `KEY_BUFFER_CAPACITY` are held.
pub proof fn lemma_swallow_respects_capacity(held: Seq<BufferedKeyEvent>, e: BufferedKeyEvent)
    requires
        held.len() < KEY_BUFFER_CAPACITY,
    ensures
        held.push(e).len() <= KEY_BUFFER_CAPACITY,
{
}

// ---------------------------------------------------------------------------
// Chat and Escape triggers

/// Settings and arming state of the chat-key and Escape triggers.
#[derive(Debug)]
pub struct ChatKeyTrigger {
    enabled: bool,
    virtual_key: u32,
    numpad_enter_only: bool,
    armed: bool,
    escape_armed: bool,
}

impl View for ChatKeyTrigger {
    /// Enabled, chat virtual key, numpad-Enter-only, chat key armed, Escape armed.
    type V = (bool, u32, bool, bool, bool);

    closed spec fn view(&self) -> (bool, u32, bool, bool, bool) {
        (self.enabled, self.virtual_key, self.numpad_enter_only, self.armed, self.escape_armed)
    }
}

/// With numpad-Enter-only on and Enter as the chat key, only the numpad
/// (extended) Enter counts; otherwise every press of the key does.
pub open spec fn spec_chat_key_matches_extended_flag(t: (bool, u32, bool, bool, bool), extended: bool) -> bool {
    if !t.2 {
        true
    } else if t.1 == 0x0D {
        extended
    } else {
        true
    }
}

/// What a chat-key event asks the monitor to do.
#[derive(Debug, Clone, Copy, PartialEq, Eq, Structural)]
pub struct ChatKeySignal {
    /// The key was just armed: prepare the overlay.
    pub prepare: bool,
    /// The armed key was released in the game: show the overlay.
    pub show: bool,
}

impl ChatKeyTrigger {
    pub fn new() -> (r: Self)
        ensures
            r@ == (true, 0x0Du32, false, false, false),
    {
        ChatKeyTrigger { enabled: true, virtual_key: 0x0D, numpad_enter_only: false, armed: false, escape_armed: false }
    }

    pub fn set_overlay_enabled(&mut self, enabled: bool)
        ensures
            final(self)@ == (enabled, old(self)@.1, old(self)@.2, old(self)@.3 && enabled, old(self)@.4),
    {
        self.enabled = enabled;
        if !enabled {
            self.armed = false;
        }
    }

    /// Sets the chat key by DOM code; an unsupported code changes nothing.
    pub fn set_chat_key(&mut self, code: &str) -> (r: bool)
        ensures
            r == spec_virtual_key_for_code(code@) is Some,
            match spec_virtual_key_for_code(code@) {
                Some(vk) => final(self)@ == (old(self)@.0, vk, old(self)@.2, false, old(self)@.4),
                None => final(self)@ == old(self)@,
            },
    {
        match virtual_key_for_code(code) {
            Some(vk) => {
                self.virtual_key = vk;
                self.armed = false;
                true
            },
            None => false,
        }
    }

    pub fn set_chat_key_numpad_enter_only(&mut self, enabled: bool)
        ensures
            final(self)@ == (old(self)@.0, old(self)@.1, enabled, false, old(self)@.4),
    {
        self.numpad_enter_only = enabled;
        self.armed = false;
    }

    pub fn chat_key_matches_extended_flag(&self, extended: bool) -> (r: bool)
        ensures
            r == spec_chat_key_matches_extended_flag(self@, extended),
    {
        if !self.numpad_enter_only {
            return true;
        }
        if self.virtual_key == 0x0D {
            extended
        } else {
            true
        }
    }

    /// Feeds one key event to the chat-key trigger.
    pub fn observe_chat_key(
        &mut self,
        vk_code: u32,
        extended: bool,
        message: u32,
        modifier_down: bool,
        state: ForegroundState,
    ) -> (r: ChatKeySignal)
        ensures
            if old(self)@.0 && vk_code == old(self)@.1 && spec_chat_key_matches_extended_flag(old(self)@, extended) {
                let (fire, armed) = spec_resolve_trigger(message, modifier_down, state, old(self)@.3);
                &&& final(self)@ == (old(self)@.0, old(self)@.1, old(self)@.2, armed, old(self)@.4)
                &&& r == (ChatKeySignal { prepare: armed && !old(self)@.3, show: fire })
            } else {
                &&& final(self)@ == old(self)@
                &&& r == (ChatKeySignal { prepare: false, show: false })
            },
    {
        if !(self.enabled && vk_code == self.virtual_key && self.chat_key_matches_extended_flag(extended)) {
            return ChatKeySignal { prepare: false, show: false };
        }
        let was_armed = self.armed;
        let (fire, armed) = resolve_chat_key_trigger(message, modifier_down, state, was_armed);
        self.armed = armed;
        ChatKeySignal { prepare: armed && !was_armed, show: fire }
    }

    /// Feeds one Escape event; returns whether the sidebar session ends.
    pub fn observe_escape_key(&mut self, message: u32, modifier_down: bool, state: ForegroundState) -> (r: bool)
        ensures
            ({
                let (fire, armed) = spec_resolve_trigger(message, modifier_down, state, old(self)@.4);
                &&& final(self)@ == (old(self)@.0, old(self)@.1, old(self)@.2, old(self)@.3, armed)
                &&& r == (fire && old(self)@.4)
            }),
    {
        let was_armed = self.escape_armed;
        let (fire, armed) = resolve_escape_trigger(message, modifier_down, state, was_armed);
        self.escape_armed = armed;
        fire && was_armed
    }
}

impl Default for ChatKeyTrigger {
    fn default() -> (r: Self)
        ensures
            r@ == (true, 0x0Du32, false, false, false),
    {
        ChatKeyTrigger::new()
    }
}

/// A chat-key press and release in the game, unmodified, prepares and then
/// shows the overlay exactly once.
pub proof fn lemma_press_release_shows_once(was_armed: bool)
    ensures
        spec_resolve_trigger(WM_KEYDOWN, false, ForegroundState::Game, was_armed) == (false, true),
        spec_resolve_trigger(WM_KEYUP, false, ForegroundState::Game, true) == (true, false),
        spec_resolve_trigger(WM_KEYUP, false, ForegroundState::Game, false) == (false, false),
{
}

/// A release never fires once the foreground has left the game, and a
/// release always disarms.
pub proof fn lemma_release_outside_game_never_fires(modifier_down: bool, state: ForegroundState, was_armed: bool)
    requires
        state != ForegroundState::Game,
    ensures
        spec_resolve_trigger(WM_KEYUP, modifier_down, state, was_armed) == (false, false),
        spec_resolve_trigger(WM_SYSKEYUP, modifier_down, state, was_armed) == (false, false),
{
}

// ---------------------------------------------------------------------------
// CapsLock protection
//
// Toggling CapsLock is the caller's work: it reads the state, sends the key
// and retries. The protection decides what CapsLock should be, remembers the
// state to restore when a game session ends, and turns failed toggles into a
// fault that lets flows pass through untouched.

/// What a CapsLock gate asks of the caller.
#[derive(Debug, Clone, Copy, PartialEq, Eq, Structural)]
pub enum CapsGate {
    /// Nothing to toggle: the flow may go on.
    PassThrough,
    /// Make CapsLock match `expected`, then report with `finish_prepare`.
    Ensure { expected: bool },
}

/// What the CapsLock policy does when the foreground changes.
#[derive(Debug, Clone, Copy, PartialEq, Eq, Structural)]
pub enum CapsPolicyAction {
    /// Protection is off: put back the state saved when the session began
    /// (`restore_target`), then report with `finish_restore`.
    RestoreOriginal,
    /// Make CapsLock match `expected`, then report with `finish_prepare`.
    Prepare { expected: bool },
    /// Make CapsLock match `expected`, then report with `finish_ensure`.
    Ensure { expected: bool },
    /// Another window is in front: restore the saved state, then report with
    /// `finish_background_restore`.
    RestoreInBackground,
    /// Leave CapsLock alone.
    Leave,
}

/// What a manual recovery does for the window in front.
#[derive(Debug, Clone, Copy, PartialEq, Eq, Structural)]
pub enum CapsRecovery {
    /// Make CapsLock match `expected`, as a prepare does.
    Prepare { expected: bool },
    /// Put back the saved state (`restore_target`).
    Restore,
}

/// Whether CapsLock protection is on, whether its toggle has faulted, how
/// many background restores failed in a row, whether text is being typed,
/// and the CapsLock state saved when the game session began.
#[derive(Debug)]
pub struct CapsProtection {
    auto_lock: bool,
    faulted: bool,
    background_failures: u32,
    text_injection: bool,
    saved: Option<bool>,
}

/// Background restores that may fail in a row before protection faults.
pub const CAPS_BACKGROUND_FAILURE_LIMIT: u32 = 3;

impl View for CapsProtection {
    type V = (bool, bool, u32, bool, Option<bool>);

    closed spec fn view(&self) -> (bool, bool, u32, bool, Option<bool>) {
        (self.auto_lock, self.faulted, self.background_failures, self.text_injection, self.saved)
    }
}

/// `after` is `before` with only the fault flag and the saved state set.
pub open spec fn caps_with(before: (bool, bool, u32, bool, Option<bool>), faulted: bool, saved: Option<bool>) -> (bool, bool, u32, bool, Option<bool>) {
    (before.0, faulted, before.2, before.3, saved)
}

impl CapsProtection {
    pub fn new() -> (r: Self)
        ensures
            r@ == (true, false, 0u32, false, None::<bool>),
    {
        CapsProtection { auto_lock: true, faulted: false, background_failures: 0, text_injection: false, saved: None }
    }

    pub fn caps_protection_faulted(&self) -> (r: bool)
        ensures
            r == self@.1,
    {
        self.faulted
    }

    /// Whether a game session holds a saved CapsLock state.
    pub fn caps_session_active(&self) -> (r: bool)
        ensures
            r == self@.4 is Some,
    {
        self.saved.is_some()
    }

    /// Turns protection on or off and forgets past background failures;
    /// turning it on clears a fault. Returns whether the caller must now
    /// restore the saved CapsLock state (protection turned off).
    pub fn set_auto_lock_caps(&mut self, enabled: bool) -> (restore_needed: bool)
        ensures
            restore_needed == !enabled,
            final(self)@ == (enabled, if enabled {
                false
            } else {
                old(self)@.1
            }, 0u32, old(self)@.3, old(self)@.4),
    {
        self.auto_lock = enabled;
        self.background_failures = 0;
        if enabled {
            self.faulted = false;
        }
        !enabled
    }

    /// Records that a CapsLock toggle failed for good.
    pub fn mark_caps_protection_fault(&mut self)
        ensures
            final(self)@ == caps_with(old(self)@, true, old(self)@.4),
    {
        self.faulted = true;
    }

    /// Clears a fault before a manual recovery.
    pub fn clear_caps_protection_fault(&mut self)
        ensures
            final(self)@ == caps_with(old(self)@, false, old(self)@.4),
    {
        self.faulted = false;
    }

    fn gate(&self, expected: bool) -> (r: CapsGate)
        ensures
            r == (if !self@.0 || self@.1 {
                CapsGate::PassThrough
            } else {
                CapsGate::Ensure { expected }
            }),
    {
        if !self.auto_lock || self.faulted {
            CapsGate::PassThrough
        } else {
            CapsGate::Ensure { expected }
        }
    }

    /// Before the sidebar takes input: CapsLock off, unless protection is off
    /// or faulted, in which case the flow passes through untouched.
    pub fn prepare_overlay_input(&self) -> (r: CapsGate)
        ensures
            r == (if !self@.0 || self@.1 {
                CapsGate::PassThrough
            } else {
                CapsGate::Ensure { expected: false }
            }),
    {
        self.gate(false)
    }

    /// Back to gameplay: CapsLock on, with the same pass-through.
    pub fn prepare_gameplay(&self) -> (r: CapsGate)
        ensures
            r == (if !self@.0 || self@.1 {
                CapsGate::PassThrough
            } else {
                CapsGate::Ensure { expected: true }
            }),
    {
        self.gate(true)
    }

    /// A prepare that made CapsLock match (`ensured`) or not. The state
    /// CapsLock had before (`before`) is saved when no session holds one;
    /// a failed toggle faults protection. Returns whether it matched.
    pub fn finish_prepare(&mut self, before: bool, ensured: bool) -> (r: bool)
        ensures
            r == ensured,
            final(self)@ == caps_with(old(self)@, old(self)@.1 || !ensured, match old(self)@.4 {
                Some(v) => Some(v),
                None => Some(before),
            }),
    {
        if self.saved.is_none() {
            self.saved = Some(before);
        }
        if !ensured {
            self.faulted = true;
        }
        ensured
    }

    /// A toggle without saving: a failure faults protection.
    pub fn finish_ensure(&mut self, ensured: bool) -> (r: bool)
        ensures
            r == ensured,
            final(self)@ == caps_with(old(self)@, old(self)@.1 || !ensured, old(self)@.4),
    {
        if !ensured {
            self.faulted = true;
        }
        ensured
    }

    /// The CapsLock state to put back when the session ends, if any.
    pub fn restore_target(&self) -> (r: Option<bool>)
        ensures
            r == self@.4,
    {
        self.saved
    }

    fn record_restore(&mut self, ensured: bool, may_fault: bool) -> (r: bool)
        ensures
            old(self)@.4 is None ==> r && final(self)@ == old(self)@,
            old(self)@.4 is Some && ensured ==> r && final(self)@ == caps_with(old(self)@, old(self)@.1, None),
            old(self)@.4 is Some && !ensured ==> !r && final(self)@ == caps_with(
                old(self)@,
                old(self)@.1 || may_fault,
                old(self)@.4,
            ),
    {
        if self.saved.is_none() {
            return true;
        }
        if ensured {
            self.saved = None;
            true
        } else {
            if may_fault {
                self.faulted = true;
            }
            false
        }
    }

    /// After putting back `restore_target()` (`ensured` tells whether that
    /// worked; ignored when nothing was saved): the session ends on success,
    /// a failure faults protection. True when the session ended cleanly and
    /// protection is not faulted.
    pub fn finish_restore(&mut self, ensured: bool) -> (r: bool)
        ensures
            old(self)@.4 is None ==> final(self)@ == old(self)@ && r == !old(self)@.1,
            old(self)@.4 is Some && ensured ==> final(self)@ == caps_with(old(self)@, old(self)@.1, None)
                && r == !old(self)@.1,
            old(self)@.4 is Some && !ensured ==> final(self)@ == caps_with(old(self)@, true, old(self)@.4) && !r,
    {
        let restored = self.record_restore(ensured, true);
        restored && self.saved.is_none() && !self.faulted
    }

    /// Records the outcome of restoring CapsLock while another window is in
    /// front; returns whether this failure faulted protection.
    pub fn record_background_restore(&mut self, restored: bool) -> (faulted_now: bool)
        ensures
            restored ==> final(self)@ == (old(self)@.0, false, 0u32, old(self)@.3, old(self)@.4) && !faulted_now,
            !restored ==> {
                let failures = old(self)@.2.wrapping_add(1);
                &&& final(self)@ == (old(self)@.0, old(self)@.1 || failures >= CAPS_BACKGROUND_FAILURE_LIMIT, failures, old(self)@.3, old(self)@.4)
                &&& faulted_now == (failures >= CAPS_BACKGROUND_FAILURE_LIMIT)
            },
    {
        if restored {
            self.background_failures = 0;
            self.faulted = false;
            return false;
        }
        self.background_failures = self.background_failures.wrapping_add(1);
        if self.background_failures >= CAPS_BACKGROUND_FAILURE_LIMIT {
            self.faulted = true;
            return true;
        }
        false
    }

    /// After the background restore of `restore_target()` (`ensured`
    /// ignored when nothing was saved): a failure does not fault at once but
    /// counts towards the limit; a success clears faults and failures.
    pub fn finish_background_restore(&mut self, ensured: bool) -> (faulted_now: bool)
        ensures
            ({
                let restored = old(self)@.4 is None || ensured;
                let saved = if old(self)@.4 is Some && ensured { None } else { old(self)@.4 };
                if restored {
                    final(self)@ == (old(self)@.0, false, 0u32, old(self)@.3, saved) && !faulted_now
                } else {
                    let failures = old(self)@.2.wrapping_add(1);
                    &&& final(self)@ == (old(self)@.0, old(self)@.1 || failures >= CAPS_BACKGROUND_FAILURE_LIMIT, failures, old(self)@.3, saved)
                    &&& faulted_now == (failures >= CAPS_BACKGROUND_FAILURE_LIMIT)
                }
            }),
    {
        let restored = self.record_restore(ensured, false);
        self.record_background_restore(restored)
    }

    /// The policy for a new foreground `state`: in the game CapsLock is on,
    /// or off while text is being typed; over the assistant it is off while
    /// a session holds a saved state; elsewhere the saved state returns.
    /// Nothing is toggled while protection is faulted, except restores.
    pub fn caps_policy(&self, state: ForegroundState) -> (r: CapsPolicyAction)
        ensures
            r == (if !self@.0 {
                CapsPolicyAction::RestoreOriginal
            } else {
                match state {
                    ForegroundState::Game => if self@.1 {
                        CapsPolicyAction::Leave
                    } else {
                        CapsPolicyAction::Prepare { expected: !self@.3 }
                    },
                    ForegroundState::Assistant => if self@.4 is Some && !self@.1 {
                        CapsPolicyAction::Ensure { expected: false }
                    } else {
                        CapsPolicyAction::Leave
                    },
                    ForegroundState::Other => CapsPolicyAction::RestoreInBackground,
                }
            }),
    {
        if !self.auto_lock {
            return CapsPolicyAction::RestoreOriginal;
        }
        match state {
            ForegroundState::Game => {
                if self.faulted {
                    CapsPolicyAction::Leave
                } else {
                    CapsPolicyAction::Prepare { expected: !self.text_injection }
                }
            },
            ForegroundState::Assistant => {
                if self.saved.is_some() && !self.faulted {
                    CapsPolicyAction::Ensure { expected: false }
                } else {
                    CapsPolicyAction::Leave
                }
            },
            ForegroundState::Other => CapsPolicyAction::RestoreInBackground,
        }
    }

    /// Text is about to be typed in the game chat: CapsLock goes off (as
    /// for the sidebar) until `end_text_injection`.
    pub fn begin_text_injection(&mut self) -> (r: CapsGate)
        ensures
            final(self)@ == (old(self)@.0, old(self)@.1, old(self)@.2, true, old(self)@.4),
            r == (if !old(self)@.0 || old(self)@.1 {
                CapsGate::PassThrough
            } else {
                CapsGate::Ensure { expected: false }
            }),
    {
        self.text_injection = true;
        self.gate(false)
    }

    /// The typing is over: back to the gameplay state.
    pub fn end_text_injection(&mut self) -> (r: CapsGate)
        ensures
            final(self)@ == (old(self)@.0, old(self)@.1, old(self)@.2, false, old(self)@.4),
            r == (if !old(self)@.0 || old(self)@.1 {
                CapsGate::PassThrough
            } else {
                CapsGate::Ensure { expected: true }
            }),
    {
        self.text_injection = false;
        self.gate(true)
    }

    /// The check before a send: with protection on and not faulted the
    /// caller makes CapsLock match `expected`; otherwise the send may go.
    pub fn injection_caps_gate(&self, expected: bool) -> (r: CapsGate)
        ensures
            r == (if !self@.0 || self@.1 {
                CapsGate::PassThrough
            } else {
                CapsGate::Ensure { expected }
            }),
    {
        self.gate(expected)
    }

    /// After the caller tried to make CapsLock match `expected` (it was
    /// `before`, the toggle `ensured` or not, it reads `actual` now): the
    /// send may go when CapsLock matches, and also when this very attempt
    /// faulted protection, which then only degrades.
    pub fn injection_caps_verdict(&mut self, expected: bool, before: bool, ensured: bool, actual: bool) -> (r: bool)
        ensures
            final(self)@ == caps_with(old(self)@, old(self)@.1 || !ensured, match old(self)@.4 {
                Some(v) => Some(v),
                None => Some(before),
            }),
            r == (actual == expected || final(self)@.1),
    {
        self.finish_prepare(before, ensured);
        if actual != expected && self.faulted {
            return true;
        }
        actual == expected
    }

    /// A manual recovery: the fault is cleared, and CapsLock is set for the
    /// window in front: on in the game, off over the assistant, the saved
    /// state elsewhere.
    pub fn begin_recovery(&mut self, state: ForegroundState) -> (r: CapsRecovery)
        ensures
            final(self)@ == caps_with(old(self)@, false, old(self)@.4),
            r == match state {
                ForegroundState::Game => CapsRecovery::Prepare { expected: true },
                ForegroundState::Assistant => CapsRecovery::Prepare { expected: false },
                ForegroundState::Other => CapsRecovery::Restore,
            },
    {
        self.faulted = false;
        match state {
            ForegroundState::Game => CapsRecovery::Prepare { expected: true },
            ForegroundState::Assistant => CapsRecovery::Prepare { expected: false },
            ForegroundState::Other => CapsRecovery::Restore,
        }
    }

    /// Ends a recovery begun with `begin_recovery(state)`: the caller made
    /// CapsLock match (or restored it) with outcome `ensured`, it was
    /// `before` and reads `actual` now. A recovery that did not reach the
    /// wanted state faults protection; returns whether it did.
    pub fn finish_recovery(&mut self, state: ForegroundState, before: bool, ensured: bool, actual: bool) -> (r: bool)
        ensures
            state == ForegroundState::Game ==> r == (ensured && actual),
            state == ForegroundState::Assistant ==> r == (ensured && !actual),
            state == ForegroundState::Other ==> r == (old(self)@.4 is None || ensured),
            final(self)@.0 == old(self)@.0,
            final(self)@.2 == old(self)@.2,
            final(self)@.3 == old(self)@.3,
            final(self)@.1 == (old(self)@.1 || !r || (state != ForegroundState::Other && !ensured)),
            state != ForegroundState::Other ==> final(self)@.4 == match old(self)@.4 {
                Some(v) => Some(v),
                None => Some(before),
            },
            state == ForegroundState::Other ==> final(self)@.4 == (if old(self)@.4 is Some && ensured {
                None
            } else {
                old(self)@.4
            }),
    {
        let restored = match state {
            ForegroundState::Game => self.finish_prepare(before, ensured) && actual,
            ForegroundState::Assistant => self.finish_prepare(before, ensured) && !actual,
            ForegroundState::Other => {
                let done = self.record_restore(ensured, true);
                done && self.saved.is_none()
            },
        };
        if !restored {
            self.faulted = true;
        }
        restored
    }
}

impl Default for CapsProtection {
    fn default() -> (r: Self)
        ensures
            r@ == (true, false, 0u32, false, None::<bool>),
    {
        CapsProtection::new()
    }
}

} // verus!
