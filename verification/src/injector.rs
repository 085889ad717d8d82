//! The keyboard input the injector sends: scan-code and Unicode events,
//! stratagem keys, GBK Alt codes, and the report kept while sending.
use vstd::prelude::*;
use crate::chars::{chars_equal, chars_of, digit_char, digits_of, parse_decimal, spec_digits, spec_parse_decimal, trim_whitespace, trim_ws};

verus! {

pub const KEYEVENTF_EXTENDEDKEY: u32 = 0x0001;
pub const KEYEVENTF_KEYUP: u32 = 0x0002;
pub const KEYEVENTF_UNICODE: u32 = 0x0004;
pub const KEYEVENTF_SCANCODE: u32 = 0x0008;
pub const ENTER_SCAN_CODE: u16 = 0x1C;
pub const ESCAPE_SCAN_CODE: u16 = 0x01;
pub const ALT_SCAN_CODE: u16 = 0x38;
pub const SIMPLIFIED_CHINESE_LANGUAGE_ID: usize = 0x0804;

/// One keyboard event for `SendInput`: virtual key, scan code or UTF-16
/// unit, `KEYEVENTF_*` flags, and the extra-info marker.
#[derive(Debug, Clone, Copy, PartialEq, Eq, Structural)]
pub struct KeyInput {
    pub virtual_key: u16,
    pub scan: u16,
    pub flags: u32,
    pub extra_info: usize,
}

pub open spec fn spec_keyboard_input(scan: u16, flags: u32) -> KeyInput {
    KeyInput { virtual_key: 0, scan, flags, extra_info: 0 }
}

pub fn keyboard_input(scan: u16, flags: u32) -> (r: KeyInput)
    ensures
        r == spec_keyboard_input(scan, flags),
{
    KeyInput { virtual_key: 0, scan, flags, extra_info: 0 }
}

/// Flags of a scan-code event: `SCANCODE`, plus `EXTENDEDKEY` and `KEYUP`
/// when asked for (distinct bits, so their sum is their union).
pub open spec fn scan_code_flags(extended: bool, key_up: bool) -> u32 {
    (KEYEVENTF_SCANCODE + (if extended {
        KEYEVENTF_EXTENDEDKEY
    } else {
        0
    }) + (if key_up {
        KEYEVENTF_KEYUP
    } else {
        0
    })) as u32
}

pub fn scan_code_input_with_extended(scan_code: u16, extended: bool, key_up: bool) -> (r: KeyInput)
    ensures
        r == spec_keyboard_input(scan_code, scan_code_flags(extended, key_up)),
{
    let mut flags = KEYEVENTF_SCANCODE;
    if extended {
        flags = flags + KEYEVENTF_EXTENDEDKEY;
    }
    if key_up {
        flags = flags + KEYEVENTF_KEYUP;
    }
    keyboard_input(scan_code, flags)
}

pub fn scan_code_input(scan_code: u16, key_up: bool) -> (r: KeyInput)
    ensures
        r == spec_keyboard_input(scan_code, scan_code_flags(false, key_up)),
{
    scan_code_input_with_extended(scan_code, false, key_up)
}

/// A press and the matching release of one scan code.
pub fn scan_code_inputs(scan_code: u16) -> (r: [KeyInput; 2])
    ensures
        r@ == seq![
            spec_keyboard_input(scan_code, KEYEVENTF_SCANCODE),
            spec_keyboard_input(scan_code, (KEYEVENTF_SCANCODE + KEYEVENTF_KEYUP) as u32),
        ],
{
    [scan_code_input(scan_code, false), scan_code_input(scan_code, true)]
}

pub open spec fn spec_virtual_key_input(key: u16, key_up: bool) -> KeyInput {
    KeyInput {
        virtual_key: key,
        scan: 0,
        flags: if key_up {
            KEYEVENTF_KEYUP
        } else {
            0
        },
        extra_info: 0,
    }
}

pub fn virtual_key_input(key: u16, key_up: bool) -> (r: KeyInput)
    ensures
        r == spec_virtual_key_input(key, key_up),
{
    KeyInput {
        virtual_key: key,
        scan: 0,
        flags: if key_up {
            KEYEVENTF_KEYUP
        } else {
            0
        },
        extra_info: 0,
    }
}

pub fn virtual_key_inputs(key: u16) -> (r: [KeyInput; 2])
    ensures
        r@ == seq![spec_virtual_key_input(key, false), spec_virtual_key_input(key, true)],
{
    [virtual_key_input(key, false), virtual_key_input(key, true)]
}

// ---------------------------------------------------------------------------
// Unicode events

/// A press and a release for every UTF-16 unit.
pub open spec fn spec_unicode_inputs(units: Seq<u16>) -> Seq<KeyInput>
    decreases units.len(),
{
    if units.len() == 0 {
        Seq::empty()
    } else {
        spec_unicode_inputs(units.drop_last()) + seq![
            spec_keyboard_input(units.last(), KEYEVENTF_UNICODE),
            spec_keyboard_input(units.last(), (KEYEVENTF_UNICODE + KEYEVENTF_KEYUP) as u32),
        ]
    }
}

pub fn unicode_inputs(units: &[u16]) -> (r: Vec<KeyInput>)
    ensures
        r@ == spec_unicode_inputs(units@),
{
    let mut inputs: Vec<KeyInput> = Vec::new();
    let mut i: usize = 0;
    while i < units.len()
        invariant
            i <= units@.len(),
            inputs@ == spec_unicode_inputs(units@.take(i as int)),
        decreases units.len() - i,
    {
        assert(units@.take(i + 1).drop_last() =~= units@.take(i as int));
        let unit = units[i];
        inputs.push(keyboard_input(unit, KEYEVENTF_UNICODE));
        inputs.push(keyboard_input(unit, KEYEVENTF_UNICODE + KEYEVENTF_KEYUP));
        i = i + 1;
        assert(inputs@ =~= spec_unicode_inputs(units@.take(i as int)));
    }
    assert(units@.take(units@.len() as int) =~= units@);
    inputs
}

pub open spec fn is_high_surrogate(u: u16) -> bool {
    0xD800 <= u <= 0xDBFF
}

pub open spec fn is_low_surrogate(u: u16) -> bool {
    0xDC00 <= u <= 0xDFFF
}

/// Length of the character that starts at `units[i]`: two units for a
/// surrogate pair, one otherwise (a lone surrogate included).
pub open spec fn unit_group_len(units: Seq<u16>, i: int) -> int {
    if is_high_surrogate(units[i]) && i + 1 < units.len() && is_low_surrogate(units[i + 1]) {
        2
    } else {
        1
    }
}

/// The units split into characters, from position `i` on.
pub open spec fn unit_groups(units: Seq<u16>, i: int) -> Seq<Seq<u16>>
    decreases units.len() - i,
{
    if i < 0 || i >= units.len() {
        Seq::empty()
    } else {
        seq![units.subrange(i, i + unit_group_len(units, i))] + unit_groups(units, i + unit_group_len(units, i))
    }
}

/// Press/release events per character, a surrogate pair kept in one group.
pub fn unicode_character_inputs(units: &[u16]) -> (r: Vec<Vec<KeyInput>>)
    ensures
        r@.len() == unit_groups(units@, 0).len(),
        forall|k: int| 0 <= k < r@.len() ==> #[trigger] r@[k]@ == spec_unicode_inputs(unit_groups(units@, 0)[k]),
{
    let mut groups: Vec<Vec<KeyInput>> = Vec::new();
    let mut index: usize = 0;
    while index < units.len()
        invariant
            index <= units@.len(),
            unit_groups(units@, 0) =~= {
                let g = groups@;
                Seq::new(g.len(), |k: int| unit_groups(units@, 0)[k])
            } + unit_groups(units@, index as int),
            groups@.len() <= unit_groups(units@, 0).len(),
            forall|k: int| 0 <= k < groups@.len() ==> #[trigger] groups@[k]@ == spec_unicode_inputs(unit_groups(units@, 0)[k]),
        decreases units.len() - index,
    {
        let length: usize = if 0xD800 <= units[index] && units[index] <= 0xDBFF && index + 1 < units.len()
            && 0xDC00 <= units[index + 1] && units[index + 1] <= 0xDFFF {
            2
        } else {
            1
        };
        let ghost before = groups@;
        let ghost rest = unit_groups(units@, index as int);
        assert(rest =~= seq![units@.subrange(index as int, index + length)] + unit_groups(units@, index + length));
        let chunk = crate::injector::copy_units(units, index, index + length);
        groups.push(unicode_inputs(chunk.as_slice()));
        proof {
            let whole = unit_groups(units@, 0);
            assert(whole[before.len() as int] == units@.subrange(index as int, index + length));
            assert(unit_groups(units@, 0) =~= Seq::new(groups@.len(), |k: int| unit_groups(units@, 0)[k]) + unit_groups(units@, index + length));
        }
        index = index + length;
    }
    groups
}

/// `units[start..end]` as a vector.
pub fn copy_units(units: &[u16], start: usize, end: usize) -> (r: Vec<u16>)
    requires
        start <= end <= units@.len(),
    ensures
        r@ == units@.subrange(start as int, end as int),
{
    let mut r: Vec<u16> = Vec::new();
    let mut k = start;
    while k < end
        invariant
            start <= k <= end <= units@.len(),
            r@ == units@.subrange(start as int, k as int),
        decreases end - k,
    {
        r.push(units[k]);
        k = k + 1;
        assert(r@ =~= units@.subrange(start as int, k as int));
    }
    r
}

proof fn lemma_unit_groups_len(units: Seq<u16>, i: int)
    requires
        0 <= i <= units.len(),
    ensures
        unit_groups(units, i).len() <= units.len() - i,
    decreases units.len() - i,
{
    if i < units.len() {
        lemma_unit_groups_len(units, i + unit_group_len(units, i));
    }
}

fn character_count(units: &[u16]) -> (r: usize)
    ensures
        r == unit_groups(units@, 0).len(),
{
    let mut count: usize = 0;
    let mut index: usize = 0;
    proof {
        lemma_unit_groups_len(units@, 0);
    }
    while index < units.len()
        invariant
            index <= units@.len(),
            count + unit_groups(units@, index as int).len() == unit_groups(units@, 0).len(),
            count <= index,
        decreases units.len() - index,
    {
        let length: usize = if 0xD800 <= units[index] && units[index] <= 0xDBFF && index + 1 < units.len()
            && 0xDC00 <= units[index + 1] && units[index + 1] <= 0xDFFF {
            2
        } else {
            1
        };
        assert(unit_groups(units@, index as int).len() == 1 + unit_groups(units@, index + length).len());
        count = count + 1;
        index = index + length;
    }
    count
}

/// Total characters over all batches, a lone surrogate counting as one.
pub open spec fn batches_character_count(batches: Seq<Seq<u16>>) -> int
    decreases batches.len(),
{
    if batches.len() == 0 {
        0
    } else {
        batches_character_count(batches.drop_last()) + unit_groups(batches.last(), 0).len()
    }
}

/// Total UTF-16 units over all batches.
pub open spec fn batches_unit_count(batches: Seq<Seq<u16>>) -> int
    decreases batches.len(),
{
    if batches.len() == 0 {
        0
    } else {
        batches_unit_count(batches.drop_last()) + batches.last().len()
    }
}

pub open spec fn batches_view(batches: Seq<Vec<u16>>) -> Seq<Seq<u16>> {
    Seq::new(batches.len(), |i: int| batches[i]@)
}

proof fn lemma_batches_count_bound(batches: Seq<Seq<u16>>)
    ensures
        0 <= batches_character_count(batches) <= batches_unit_count(batches),
    decreases batches.len(),
{
    if batches.len() > 0 {
        lemma_batches_count_bound(batches.drop_last());
        lemma_unit_groups_len(batches.last(), 0);
    }
}

/// Characters the batches decode to, for diagnostics.
pub fn count_utf16_characters(batches: &[Vec<u16>]) -> (r: usize)
    requires
        batches_unit_count(batches_view(batches@)) <= usize::MAX,
    ensures
        r == batches_character_count(batches_view(batches@)),
{
    let ghost bv = batches_view(batches@);
    let mut total: usize = 0;
    let mut i: usize = 0;
    while i < batches.len()
        invariant
            bv == batches_view(batches@),
            batches_unit_count(bv) <= usize::MAX,
            i <= batches@.len(),
            total == batches_character_count(bv.take(i as int)),
        decreases batches.len() - i,
    {
        assert(bv.take(i + 1).drop_last() =~= bv.take(i as int));
        proof {
            lemma_batches_count_bound(bv.take(i + 1));
            lemma_prefix_units(bv, i + 1);
        }
        let count = character_count(batches[i].as_slice());
        total = total + count;
        i = i + 1;
    }
    assert(bv.take(batches@.len() as int) =~= bv);
    total
}

proof fn lemma_prefix_units(batches: Seq<Seq<u16>>, k: int)
    requires
        0 <= k <= batches.len(),
    ensures
        batches_unit_count(batches.take(k)) <= batches_unit_count(batches),
    decreases batches.len() - k,
{
    if k < batches.len() {
        lemma_prefix_units(batches, k + 1);
        assert(batches.take(k + 1).drop_last() =~= batches.take(k));
    } else {
        assert(batches.take(k) =~= batches);
    }
}

// ---------------------------------------------------------------------------
// Opening the chat

/// How the game chat is prepared before typing.
#[derive(Debug, Clone, Copy, PartialEq, Eq, Structural)]
pub enum ChatPreparation {
    /// The chat box is already open.
    KeepOpen,
    /// Press Enter to open it.
    Open,
}

/// Scan codes pressed to prepare the chat.
pub fn chat_preparation_scan_codes(mode: ChatPreparation) -> (r: Vec<u16>)
    ensures
        mode == ChatPreparation::KeepOpen ==> r@ == Seq::<u16>::empty(),
        mode == ChatPreparation::Open ==> r@ == seq![ENTER_SCAN_CODE],
{
    let mut r: Vec<u16> = Vec::new();
    match mode {
        ChatPreparation::KeepOpen => {},
        ChatPreparation::Open => {
            r.push(ENTER_SCAN_CODE);
        },
    }
    r
}

// ---------------------------------------------------------------------------
// Stratagem keys

/// A key of a stratagem sequence, sent by scan code so that the keyboard
/// layout does not matter.
#[derive(Debug, Clone, Copy, PartialEq, Eq, Structural)]
pub struct StratagemKey {
    pub virtual_key: u16,
    pub scan_code: u16,
    pub extended: bool,
}

/// One key event of a stratagem macro: the key, press or release, the
/// direction it belongs to (none for the menu key), and the pauses before
/// and after it, in milliseconds.
#[derive(Debug, Clone, Copy, PartialEq, Eq, Structural)]
pub struct StratagemPress {
    pub key: StratagemKey,
    pub key_up: bool,
    pub direction: Option<usize>,
    pub pause_before_ms: u64,
    pub pause_after_ms: u64,
}

pub open spec fn press(key: StratagemKey, key_up: bool, direction: Option<usize>, before: u64, after: u64) -> StratagemPress {
    StratagemPress { key, key_up, direction, pause_before_ms: before, pause_after_ms: after }
}

pub open spec fn saturating_add_u64(a: u64, b: u64) -> u64 {
    if a + b > u64::MAX { u64::MAX } else { (a + b) as u64 }
}

/// Each direction pressed for `press_delay_ms` and released, with
/// `interval_delay_ms` before the next.
pub open spec fn direction_presses(keys: Seq<StratagemKey>, press_delay_ms: u64, interval_delay_ms: u64) -> Seq<StratagemPress> {
    Seq::new(2 * keys.len(), |j: int| if j % 2 == 0 {
        press(keys[j / 2], false, Some((j / 2) as usize), 0, press_delay_ms)
    } else {
        press(keys[j / 2], true, Some((j / 2) as usize), 0, interval_delay_ms)
    })
}

/// The menu key events before the directions: a release to start clean,
/// then either a press held through the directions (`hold_menu`) or a tap
/// (held 20 ms longer than a direction); then the wait for the menu.
pub open spec fn menu_opening(menu: StratagemKey, hold_menu: bool, press_delay_ms: u64, menu_open_delay_ms: u64) -> Seq<StratagemPress> {
    seq![press(menu, true, None, 0, 10)] + if hold_menu {
        seq![press(menu, false, None, 0, menu_open_delay_ms)]
    } else {
        seq![
            press(menu, false, None, 0, saturating_add_u64(press_delay_ms, 20)),
            press(menu, true, None, 0, menu_open_delay_ms),
        ]
    }
}

/// Every key event of a stratagem macro, in order: the menu opening, the
/// directions, and, for a held menu key, its release 50 ms after the last
/// direction.
pub open spec fn spec_stratagem_plan(
    menu: StratagemKey,
    keys: Seq<StratagemKey>,
    hold_menu: bool,
    press_delay_ms: u64,
    menu_open_delay_ms: u64,
    interval_delay_ms: u64,
) -> Seq<StratagemPress> {
    menu_opening(menu, hold_menu, press_delay_ms, menu_open_delay_ms) + direction_presses(
        keys,
        press_delay_ms,
        interval_delay_ms,
    ) + if hold_menu {
        seq![press(menu, true, None, 50, 0)]
    } else {
        Seq::empty()
    }
}

/// The key events a stratagem macro sends, in order.
pub fn stratagem_plan(
    menu: StratagemKey,
    keys: &[StratagemKey],
    hold_menu: bool,
    press_delay_ms: u64,
    menu_open_delay_ms: u64,
    interval_delay_ms: u64,
) -> (r: Vec<StratagemPress>)
    requires
        2 * keys@.len() + 4 <= usize::MAX,
    ensures
        r@ == spec_stratagem_plan(menu, keys@, hold_menu, press_delay_ms, menu_open_delay_ms, interval_delay_ms),
{
    let mut out: Vec<StratagemPress> = Vec::new();
    out.push(StratagemPress { key: menu, key_up: true, direction: None, pause_before_ms: 0, pause_after_ms: 10 });
    if hold_menu {
        out.push(StratagemPress { key: menu, key_up: false, direction: None, pause_before_ms: 0, pause_after_ms: menu_open_delay_ms });
    } else {
        out.push(StratagemPress {
            key: menu,
            key_up: false,
            direction: None,
            pause_before_ms: 0,
            pause_after_ms: press_delay_ms.saturating_add(20),
        });
        out.push(StratagemPress { key: menu, key_up: true, direction: None, pause_before_ms: 0, pause_after_ms: menu_open_delay_ms });
    }
    let ghost head = menu_opening(menu, hold_menu, press_delay_ms, menu_open_delay_ms);
    assert(out@ =~= head);
    let mut i: usize = 0;
    while i < keys.len()
        invariant
            i <= keys@.len(),
            2 * keys@.len() + 4 <= usize::MAX,
            head == menu_opening(menu, hold_menu, press_delay_ms, menu_open_delay_ms),
            out@ == head + direction_presses(keys@.take(i as int), press_delay_ms, interval_delay_ms),
        decreases keys.len() - i,
    {
        let key = keys[i];
        out.push(StratagemPress { key, key_up: false, direction: Some(i), pause_before_ms: 0, pause_after_ms: press_delay_ms });
        out.push(StratagemPress { key, key_up: true, direction: Some(i), pause_before_ms: 0, pause_after_ms: interval_delay_ms });
        assert(direction_presses(keys@.take(i + 1), press_delay_ms, interval_delay_ms) =~= direction_presses(
            keys@.take(i as int),
            press_delay_ms,
            interval_delay_ms,
        ).push(press(key, false, Some(i), 0, press_delay_ms)).push(press(key, true, Some(i), 0, interval_delay_ms)));
        i = i + 1;
    }
    assert(keys@.take(keys@.len() as int) =~= keys@);
    if hold_menu {
        out.push(StratagemPress { key: menu, key_up: true, direction: None, pause_before_ms: 50, pause_after_ms: 0 });
    }
    assert(out@ =~= spec_stratagem_plan(menu, keys@, hold_menu, press_delay_ms, menu_open_delay_ms, interval_delay_ms));
    out
}

pub open spec fn code_in(code: Seq<char>, a: Seq<char>, b: Seq<char>) -> bool {
    code == a || code == b
}

/// The virtual key of a DOM key code (or the bare letter of a direction)
/// that a stratagem sequence may use.
pub open spec fn spec_virtual_key_for_input_code(code: Seq<char>) -> Option<u16> {
    if code == "ControlLeft"@ {
        Some(0xA2)
    } else if code == "ControlRight"@ {
        Some(0xA3)
    } else if code == "ShiftLeft"@ {
        Some(0xA0)
    } else if code == "ShiftRight"@ {
        Some(0xA1)
    } else if code == "AltLeft"@ {
        Some(0xA4)
    } else if code == "AltRight"@ {
        Some(0xA5)
    } else if code_in(code, "ArrowUp"@, "Up"@) {
        Some(0x26)
    } else if code_in(code, "KeyW"@, "W"@) {
        Some(0x57)
    } else if code_in(code, "ArrowDown"@, "Down"@) {
        Some(0x28)
    } else if code_in(code, "KeyS"@, "S"@) {
        Some(0x53)
    } else if code_in(code, "ArrowLeft"@, "Left"@) {
        Some(0x25)
    } else if code_in(code, "KeyA"@, "A"@) {
        Some(0x41)
    } else if code_in(code, "ArrowRight"@, "Right"@) {
        Some(0x27)
    } else if code_in(code, "KeyD"@, "D"@) {
        Some(0x44)
    } else if code_in(code, "Enter"@, "NumpadEnter"@) {
        Some(0x0D)
    } else if code == "Space"@ {
        Some(0x20)
    } else if code == "Tab"@ {
        Some(0x09)
    } else if code == "Escape"@ {
        Some(0x1B)
    } else if code == "CapsLock"@ {
        Some(0x14)
    } else if code == "Backquote"@ {
        Some(0xC0)
    } else if code == "Minus"@ {
        Some(0xBD)
    } else if code == "Equal"@ {
        Some(0xBB)
    } else if code == "BracketLeft"@ {
        Some(0xDB)
    } else if code == "BracketRight"@ {
        Some(0xDD)
    } else if code == "Backslash"@ {
        Some(0xDC)
    } else if code == "Semicolon"@ {
        Some(0xBA)
    } else if code == "Quote"@ {
        Some(0xDE)
    } else if code == "Comma"@ {
        Some(0xBC)
    } else if code == "Period"@ {
        Some(0xBE)
    } else if code == "Slash"@ {
        Some(0xBF)
    } else if crate::monitor::is_key_letter_code(code) {
        if 'A' <= code[3] <= 'Z' {
            Some(code[3] as u16)
        } else {
            None
        }
    } else if crate::monitor::is_digit_code(code) {
        if '0' <= code[5] <= '9' {
            Some(code[5] as u16)
        } else {
            None
        }
    } else if code.len() > 0 && code[0] == 'F' {
        match spec_parse_decimal(code.drop_first(), 0xffff) {
            Some(n) => if 1 <= n <= 24 {
                Some((0x6F + n) as u16)
            } else {
                None
            },
            None => None,
        }
    } else {
        None
    }
}

fn code_is(code: &[char], literal: &str) -> (r: bool)
    ensures
        r == (code@ == literal@),
{
    let l = chars_of(literal);
    chars_equal(code, l.as_slice())
}

pub fn virtual_key_for_input_code(code: &str) -> (r: Option<u16>)
    ensures
        r == spec_virtual_key_for_input_code(code@),
{
    let cs = chars_of(code);
    let c = cs.as_slice();
    if code_is(c, "ControlLeft") {
        Some(0xA2)
    } else if code_is(c, "ControlRight") {
        Some(0xA3)
    } else if code_is(c, "ShiftLeft") {
        Some(0xA0)
    } else if code_is(c, "ShiftRight") {
        Some(0xA1)
    } else if code_is(c, "AltLeft") {
        Some(0xA4)
    } else if code_is(c, "AltRight") {
        Some(0xA5)
    } else if code_is(c, "ArrowUp") || code_is(c, "Up") {
        Some(0x26)
    } else if code_is(c, "KeyW") || code_is(c, "W") {
        Some(0x57)
    } else if code_is(c, "ArrowDown") || code_is(c, "Down") {
        Some(0x28)
    } else if code_is(c, "KeyS") || code_is(c, "S") {
        Some(0x53)
    } else if code_is(c, "ArrowLeft") || code_is(c, "Left") {
        Some(0x25)
    } else if code_is(c, "KeyA") || code_is(c, "A") {
        Some(0x41)
    } else if code_is(c, "ArrowRight") || code_is(c, "Right") {
        Some(0x27)
    } else if code_is(c, "KeyD") || code_is(c, "D") {
        Some(0x44)
    } else if code_is(c, "Enter") || code_is(c, "NumpadEnter") {
        Some(0x0D)
    } else if code_is(c, "Space") {
        Some(0x20)
    } else if code_is(c, "Tab") {
        Some(0x09)
    } else if code_is(c, "Escape") {
        Some(0x1B)
    } else if code_is(c, "CapsLock") {
        Some(0x14)
    } else if code_is(c, "Backquote") {
        Some(0xC0)
    } else if code_is(c, "Minus") {
        Some(0xBD)
    } else if code_is(c, "Equal") {
        Some(0xBB)
    } else if code_is(c, "BracketLeft") {
        Some(0xDB)
    } else if code_is(c, "BracketRight") {
        Some(0xDD)
    } else if code_is(c, "Backslash") {
        Some(0xDC)
    } else if code_is(c, "Semicolon") {
        Some(0xBA)
    } else if code_is(c, "Quote") {
        Some(0xDE)
    } else if code_is(c, "Comma") {
        Some(0xBC)
    } else if code_is(c, "Period") {
        Some(0xBE)
    } else if code_is(c, "Slash") {
        Some(0xBF)
    } else if c.len() == 4 && c[0] == 'K' && c[1] == 'e' && c[2] == 'y' {
        if 'A' <= c[3] && c[3] <= 'Z' {
            Some(c[3] as u16)
        } else {
            None
        }
    } else if c.len() == 6 && c[0] == 'D' && c[1] == 'i' && c[2] == 'g' && c[3] == 'i' && c[4] == 't' {
        if '0' <= c[5] && c[5] <= '9' {
            Some(c[5] as u16)
        } else {
            None
        }
    } else if c.len() > 0 && c[0] == 'F' {
        let rest = crate::chars::copy_range(c, 1, c.len());
        assert(rest@ =~= c@.drop_first());
        match parse_decimal(rest.as_slice(), 0xffff) {
            Some(n) => if 1 <= n && n <= 24 {
                Some((0x6F + n) as u16)
            } else {
                None
            },
            None => None,
        }
    } else {
        None
    }
}

/// The set-1 scan code of a virtual key the stratagem keys use.
pub open spec fn spec_scan_code_for_virtual_key(vk: u16) -> Option<u16> {
    if 0x41 <= vk <= 0x5A {
        Some(letter_scan_code(vk - 0x41))
    } else if 0x30 <= vk <= 0x39 {
        Some(if vk == 0x30 {
            0x0B
        } else {
            (vk - 0x30 + 1) as u16
        })
    } else if 0x70 <= vk <= 0x79 {
        Some((0x3B + (vk - 0x70)) as u16)
    } else if vk == 0x7A {
        Some(0x57)
    } else if vk == 0x7B {
        Some(0x58)
    } else if 0x7C <= vk <= 0x86 {
        Some((0x64 + (vk - 0x7C)) as u16)
    } else if vk == 0x87 {
        Some(0x76)
    } else {
        fixed_scan_code(vk)
    }
}

/// Scan codes of `A`..`Z` by letter index.
pub open spec fn letter_scan_code(i: int) -> u16 {
    let table: Seq<u16> = seq![
        0x1e, 0x30, 0x2e, 0x20, 0x12, 0x21, 0x22, 0x23, 0x17, 0x24, 0x25, 0x26, 0x32, 0x31, 0x18,
        0x19, 0x10, 0x13, 0x1f, 0x14, 0x16, 0x2f, 0x11, 0x2d, 0x15, 0x2c,
    ];
    table[i]
}

pub open spec fn fixed_scan_code(vk: u16) -> Option<u16> {
    if vk == 0x09 {
        Some(0x0f)
    } else if vk == 0x0d {
        Some(0x1c)
    } else if vk == 0x14 {
        Some(0x3a)
    } else if vk == 0x1b {
        Some(0x01)
    } else if vk == 0x20 {
        Some(0x39)
    } else if vk == 0x25 {
        Some(0x4b)
    } else if vk == 0x26 {
        Some(0x48)
    } else if vk == 0x27 {
        Some(0x4d)
    } else if vk == 0x28 {
        Some(0x50)
    } else if vk == 0xa0 {
        Some(0x2a)
    } else if vk == 0xa1 {
        Some(0x36)
    } else if vk == 0xa2 || vk == 0xa3 {
        Some(0x1d)
    } else if vk == 0xa4 || vk == 0xa5 {
        Some(0x38)
    } else if vk == 0xba {
        Some(0x27)
    } else if vk == 0xbb {
        Some(0x0d)
    } else if vk == 0xbc {
        Some(0x33)
    } else if vk == 0xbd {
        Some(0x0c)
    } else if vk == 0xbe {
        Some(0x34)
    } else if vk == 0xbf {
        Some(0x35)
    } else if vk == 0xc0 {
        Some(0x29)
    } else if vk == 0xdb {
        Some(0x1a)
    } else if vk == 0xdc {
        Some(0x2b)
    } else if vk == 0xdd {
        Some(0x1b)
    } else if vk == 0xde {
        Some(0x28)
    } else {
        None
    }
}

fn letter_scan(i: u16) -> (r: u16)
    requires
        i < 26,
    ensures
        r == letter_scan_code(i as int),
{
    let table: [u16; 26] = [
        0x1e, 0x30, 0x2e, 0x20, 0x12, 0x21, 0x22, 0x23, 0x17, 0x24, 0x25, 0x26, 0x32, 0x31, 0x18,
        0x19, 0x10, 0x13, 0x1f, 0x14, 0x16, 0x2f, 0x11, 0x2d, 0x15, 0x2c,
    ];
    let r = table[i as usize];
    assert(table@ =~= seq![
        0x1eu16, 0x30, 0x2e, 0x20, 0x12, 0x21, 0x22, 0x23, 0x17, 0x24, 0x25, 0x26, 0x32, 0x31, 0x18,
        0x19, 0x10, 0x13, 0x1f, 0x14, 0x16, 0x2f, 0x11, 0x2d, 0x15, 0x2c,
    ]);
    r
}

pub fn scan_code_for_virtual_key(vk: u16) -> (r: Option<u16>)
    ensures
        r == spec_scan_code_for_virtual_key(vk),
{
    if 0x41 <= vk && vk <= 0x5A {
        Some(letter_scan(vk - 0x41))
    } else if 0x30 <= vk && vk <= 0x39 {
        Some(if vk == 0x30 {
            0x0B
        } else {
            vk - 0x30 + 1
        })
    } else if 0x70 <= vk && vk <= 0x79 {
        Some(0x3B + (vk - 0x70))
    } else if vk == 0x7A {
        Some(0x57)
    } else if vk == 0x7B {
        Some(0x58)
    } else if 0x7C <= vk && vk <= 0x86 {
        Some(0x64 + (vk - 0x7C))
    } else if vk == 0x87 {
        Some(0x76)
    } else if vk == 0x09 {
        Some(0x0f)
    } else if vk == 0x0d {
        Some(0x1c)
    } else if vk == 0x14 {
        Some(0x3a)
    } else if vk == 0x1b {
        Some(0x01)
    } else if vk == 0x20 {
        Some(0x39)
    } else if vk == 0x25 {
        Some(0x4b)
    } else if vk == 0x26 {
        Some(0x48)
    } else if vk == 0x27 {
        Some(0x4d)
    } else if vk == 0x28 {
        Some(0x50)
    } else if vk == 0xa0 {
        Some(0x2a)
    } else if vk == 0xa1 {
        Some(0x36)
    } else if vk == 0xa2 || vk == 0xa3 {
        Some(0x1d)
    } else if vk == 0xa4 || vk == 0xa5 {
        Some(0x38)
    } else if vk == 0xba {
        Some(0x27)
    } else if vk == 0xbb {
        Some(0x0d)
    } else if vk == 0xbc {
        Some(0x33)
    } else if vk == 0xbd {
        Some(0x0c)
    } else if vk == 0xbe {
        Some(0x34)
    } else if vk == 0xbf {
        Some(0x35)
    } else if vk == 0xc0 {
        Some(0x29)
    } else if vk == 0xdb {
        Some(0x1a)
    } else if vk == 0xdc {
        Some(0x2b)
    } else if vk == 0xdd {
        Some(0x1b)
    } else if vk == 0xde {
        Some(0x28)
    } else {
        None
    }
}

/// Right Ctrl, right Alt and the arrows are extended keys.
pub open spec fn spec_is_extended_virtual_key(vk: u16) -> bool {
    vk == 0xA3 || vk == 0xA5 || vk == 0x25 || vk == 0x26 || vk == 0x27 || vk == 0x28
}

/// The virtual key sent with a scan code and extended flag, when one is.
pub open spec fn key_of_scan_code(scan: u16, extended: bool) -> Option<u16> {
    if scan == 0x01 && !extended {
        Some(0x1bu16)
    } else if scan == 0x02 && !extended {
        Some(0x31u16)
    } else if scan == 0x03 && !extended {
        Some(0x32u16)
    } else if scan == 0x04 && !extended {
        Some(0x33u16)
    } else if scan == 0x05 && !extended {
        Some(0x34u16)
    } else if scan == 0x06 && !extended {
        Some(0x35u16)
    } else if scan == 0x07 && !extended {
        Some(0x36u16)
    } else if scan == 0x08 && !extended {
        Some(0x37u16)
    } else if scan == 0x09 && !extended {
        Some(0x38u16)
    } else if scan == 0x0a && !extended {
        Some(0x39u16)
    } else if scan == 0x0b && !extended {
        Some(0x30u16)
    } else if scan == 0x0c && !extended {
        Some(0xbdu16)
    } else if scan == 0x0d && !extended {
        Some(0xbbu16)
    } else if scan == 0x0f && !extended {
        Some(0x09u16)
    } else if scan == 0x10 && !extended {
        Some(0x51u16)
    } else if scan == 0x11 && !extended {
        Some(0x57u16)
    } else if scan == 0x12 && !extended {
        Some(0x45u16)
    } else if scan == 0x13 && !extended {
        Some(0x52u16)
    } else if scan == 0x14 && !extended {
        Some(0x54u16)
    } else if scan == 0x15 && !extended {
        Some(0x59u16)
    } else if scan == 0x16 && !extended {
        Some(0x55u16)
    } else if scan == 0x17 && !extended {
        Some(0x49u16)
    } else if scan == 0x18 && !extended {
        Some(0x4fu16)
    } else if scan == 0x19 && !extended {
        Some(0x50u16)
    } else if scan == 0x1a && !extended {
        Some(0xdbu16)
    } else if scan == 0x1b && !extended {
        Some(0xddu16)
    } else if scan == 0x1c && !extended {
        Some(0x0du16)
    } else if scan == 0x1d && !extended {
        Some(0xa2u16)
    } else if scan == 0x1d && extended {
        Some(0xa3u16)
    } else if scan == 0x1e && !extended {
        Some(0x41u16)
    } else if scan == 0x1f && !extended {
        Some(0x53u16)
    } else if scan == 0x20 && !extended {
        Some(0x44u16)
    } else if scan == 0x21 && !extended {
        Some(0x46u16)
    } else if scan == 0x22 && !extended {
        Some(0x47u16)
    } else if scan == 0x23 && !extended {
        Some(0x48u16)
    } else if scan == 0x24 && !extended {
        Some(0x4au16)
    } else if scan == 0x25 && !extended {
        Some(0x4bu16)
    } else if scan == 0x26 && !extended {
        Some(0x4cu16)
    } else if scan == 0x27 && !extended {
        Some(0xbau16)
    } else if scan == 0x28 && !extended {
        Some(0xdeu16)
    } else if scan == 0x29 && !extended {
        Some(0xc0u16)
    } else if scan == 0x2a && !extended {
        Some(0xa0u16)
    } else if scan == 0x2b && !extended {
        Some(0xdcu16)
    } else if scan == 0x2c && !extended {
        Some(0x5au16)
    } else if scan == 0x2d && !extended {
        Some(0x58u16)
    } else if scan == 0x2e && !extended {
        Some(0x43u16)
    } else if scan == 0x2f && !extended {
        Some(0x56u16)
    } else if scan == 0x30 && !extended {
        Some(0x42u16)
    } else if scan == 0x31 && !extended {
        Some(0x4eu16)
    } else if scan == 0x32 && !extended {
        Some(0x4du16)
    } else if scan == 0x33 && !extended {
        Some(0xbcu16)
    } else if scan == 0x34 && !extended {
        Some(0xbeu16)
    } else if scan == 0x35 && !extended {
        Some(0xbfu16)
    } else if scan == 0x36 && !extended {
        Some(0xa1u16)
    } else if scan == 0x38 && !extended {
        Some(0xa4u16)
    } else if scan == 0x38 && extended {
        Some(0xa5u16)
    } else if scan == 0x39 && !extended {
        Some(0x20u16)
    } else if scan == 0x3a && !extended {
        Some(0x14u16)
    } else if scan == 0x3b && !extended {
        Some(0x70u16)
    } else if scan == 0x3c && !extended {
        Some(0x71u16)
    } else if scan == 0x3d && !extended {
        Some(0x72u16)
    } else if scan == 0x3e && !extended {
        Some(0x73u16)
    } else if scan == 0x3f && !extended {
        Some(0x74u16)
    } else if scan == 0x40 && !extended {
        Some(0x75u16)
    } else if scan == 0x41 && !extended {
        Some(0x76u16)
    } else if scan == 0x42 && !extended {
        Some(0x77u16)
    } else if scan == 0x43 && !extended {
        Some(0x78u16)
    } else if scan == 0x44 && !extended {
        Some(0x79u16)
    } else if scan == 0x48 && extended {
        Some(0x26u16)
    } else if scan == 0x4b && extended {
        Some(0x25u16)
    } else if scan == 0x4d && extended {
        Some(0x27u16)
    } else if scan == 0x50 && extended {
        Some(0x28u16)
    } else if scan == 0x57 && !extended {
        Some(0x7au16)
    } else if scan == 0x58 && !extended {
        Some(0x7bu16)
    } else if scan == 0x64 && !extended {
        Some(0x7cu16)
    } else if scan == 0x65 && !extended {
        Some(0x7du16)
    } else if scan == 0x66 && !extended {
        Some(0x7eu16)
    } else if scan == 0x67 && !extended {
        Some(0x7fu16)
    } else if scan == 0x68 && !extended {
        Some(0x80u16)
    } else if scan == 0x69 && !extended {
        Some(0x81u16)
    } else if scan == 0x6a && !extended {
        Some(0x82u16)
    } else if scan == 0x6b && !extended {
        Some(0x83u16)
    } else if scan == 0x6c && !extended {
        Some(0x84u16)
    } else if scan == 0x6d && !extended {
        Some(0x85u16)
    } else if scan == 0x6e && !extended {
        Some(0x86u16)
    } else if scan == 0x76 && !extended {
        Some(0x87u16)
    } else {
        None
    }
}

proof fn lemma_key_of_scan_code(a: u16)
    ensures
        spec_scan_code_for_virtual_key(a) matches Some(scan) ==> key_of_scan_code(scan, spec_is_extended_virtual_key(a)) == Some(a),
{
        if a == 0x09 {
        } else if a == 0x0d {
        } else if a == 0x14 {
        } else if a == 0x1b {
        } else if a == 0x20 {
        } else if a == 0x25 {
        } else if a == 0x26 {
        } else if a == 0x27 {
        } else if a == 0x28 {
        } else if a == 0x30 {
        } else if a == 0x31 {
        } else if a == 0x32 {
        } else if a == 0x33 {
        } else if a == 0x34 {
        } else if a == 0x35 {
        } else if a == 0x36 {
        } else if a == 0x37 {
        } else if a == 0x38 {
        } else if a == 0x39 {
        } else if a == 0x41 {
        } else if a == 0x42 {
        } else if a == 0x43 {
        } else if a == 0x44 {
        } else if a == 0x45 {
        } else if a == 0x46 {
        } else if a == 0x47 {
        } else if a == 0x48 {
        } else if a == 0x49 {
        } else if a == 0x4a {
        } else if a == 0x4b {
        } else if a == 0x4c {
        } else if a == 0x4d {
        } else if a == 0x4e {
        } else if a == 0x4f {
        } else if a == 0x50 {
        } else if a == 0x51 {
        } else if a == 0x52 {
        } else if a == 0x53 {
        } else if a == 0x54 {
        } else if a == 0x55 {
        } else if a == 0x56 {
        } else if a == 0x57 {
        } else if a == 0x58 {
        } else if a == 0x59 {
        } else if a == 0x5a {
        } else if a == 0x70 {
        } else if a == 0x71 {
        } else if a == 0x72 {
        } else if a == 0x73 {
        } else if a == 0x74 {
        } else if a == 0x75 {
        } else if a == 0x76 {
        } else if a == 0x77 {
        } else if a == 0x78 {
        } else if a == 0x79 {
        } else if a == 0x7a {
        } else if a == 0x7b {
        } else if a == 0x7c {
        } else if a == 0x7d {
        } else if a == 0x7e {
        } else if a == 0x7f {
        } else if a == 0x80 {
        } else if a == 0x81 {
        } else if a == 0x82 {
        } else if a == 0x83 {
        } else if a == 0x84 {
        } else if a == 0x85 {
        } else if a == 0x86 {
        } else if a == 0x87 {
        } else if a == 0xa0 {
        } else if a == 0xa1 {
        } else if a == 0xa2 {
        } else if a == 0xa3 {
        } else if a == 0xa4 {
        } else if a == 0xa5 {
        } else if a == 0xba {
        } else if a == 0xbb {
        } else if a == 0xbc {
        } else if a == 0xbd {
        } else if a == 0xbe {
        } else if a == 0xbf {
        } else if a == 0xc0 {
        } else if a == 0xdb {
        } else if a == 0xdc {
        } else if a == 0xdd {
        } else if a == 0xde {
        }
}

/// Keys are told apart by what is sent for them: two virtual keys that
/// both have a scan code, share it and share the extended flag are the same
/// key (left and right Ctrl or Alt share a scan code and differ in the
/// flag). So no direction of a stratagem is ever sent as another one.
pub proof fn lemma_scan_codes_tell_keys_apart(a: u16, b: u16)
    requires
        spec_scan_code_for_virtual_key(a) is Some,
        spec_scan_code_for_virtual_key(a) == spec_scan_code_for_virtual_key(b),
        spec_is_extended_virtual_key(a) == spec_is_extended_virtual_key(b),
    ensures
        a == b,
{
    lemma_key_of_scan_code(a);
    lemma_key_of_scan_code(b);
}

/// The set-1 scan codes of the stratagem directions: the arrows Up 0x48,
/// Down 0x50, Left 0x4B, Right 0x4D (extended) and W 0x11, A 0x1E, S 0x1F,
/// D 0x20.
pub proof fn lemma_direction_scan_codes()
    ensures
        spec_scan_code_for_virtual_key(0x26) == Some(0x48u16) && spec_is_extended_virtual_key(0x26),
        spec_scan_code_for_virtual_key(0x28) == Some(0x50u16) && spec_is_extended_virtual_key(0x28),
        spec_scan_code_for_virtual_key(0x25) == Some(0x4bu16) && spec_is_extended_virtual_key(0x25),
        spec_scan_code_for_virtual_key(0x27) == Some(0x4du16) && spec_is_extended_virtual_key(0x27),
        spec_scan_code_for_virtual_key(0x57) == Some(0x11u16) && !spec_is_extended_virtual_key(0x57),
        spec_scan_code_for_virtual_key(0x41) == Some(0x1eu16) && !spec_is_extended_virtual_key(0x41),
        spec_scan_code_for_virtual_key(0x53) == Some(0x1fu16) && !spec_is_extended_virtual_key(0x53),
        spec_scan_code_for_virtual_key(0x44) == Some(0x20u16) && !spec_is_extended_virtual_key(0x44),
{
}

pub fn is_extended_virtual_key(vk: u16) -> (r: bool)
    ensures
        r == spec_is_extended_virtual_key(vk),
{
    vk == 0xA3 || vk == 0xA5 || vk == 0x25 || vk == 0x26 || vk == 0x27 || vk == 0x28
}

/// The stratagem key for a (trimmed) key code.
pub open spec fn spec_stratagem_key(code: Seq<char>) -> Option<StratagemKey> {
    match spec_virtual_key_for_input_code(trim_ws(code)) {
        None => None,
        Some(vk) => match spec_scan_code_for_virtual_key(vk) {
            None => None,
            Some(scan) => Some(StratagemKey { virtual_key: vk, scan_code: scan, extended: spec_is_extended_virtual_key(vk) }),
        },
    }
}

pub fn stratagem_key(code: &str) -> (r: Option<StratagemKey>)
    ensures
        r == spec_stratagem_key(code@),
{
    let cs = chars_of(code);
    let trimmed = trim_whitespace(cs.as_slice());
    let trimmed_text = crate::chars::string_of(trimmed.as_slice());
    let virtual_key = match virtual_key_for_input_code(trimmed_text.as_str()) {
        Some(vk) => vk,
        None => {
            return None;
        },
    };
    let scan_code = match scan_code_for_virtual_key(virtual_key) {
        Some(scan) => scan,
        None => {
            return None;
        },
    };
    Some(StratagemKey { virtual_key, scan_code, extended: is_extended_virtual_key(virtual_key) })
}

/// A copy of a report.
pub fn clone_report(report: &InjectionReport) -> (r: InjectionReport)
    ensures
        r == *report,
{
    InjectionReport {
        attempted_batches: report.attempted_batches,
        requested_events: report.requested_events,
        successful_events: report.successful_events,
        text_requested_events: report.text_requested_events,
        text_successful_events: report.text_successful_events,
        last_error_code: report.last_error_code,
        delivery_transport: report.delivery_transport.clone(),
        delivery_acknowledged: report.delivery_acknowledged,
        input_characters: report.input_characters,
        input_delay_ms: report.input_delay_ms,
        keyboard_layout_switched: report.keyboard_layout_switched,
        keyboard_layout_before: report.keyboard_layout_before,
        keyboard_layout_requested: report.keyboard_layout_requested,
        keyboard_layout_restored: report.keyboard_layout_restored,
        num_lock_toggled: report.num_lock_toggled,
        num_lock_restored: report.num_lock_restored,
        failed_batch_index: report.failed_batch_index,
        partial_prefix_possible: report.partial_prefix_possible,
        key_state_uncertain: report.key_state_uncertain,
        submit_attempted: report.submit_attempted,
        submit_completed: report.submit_completed,
    }
}

/// Index of the first code in `codes[i..]` that names no stratagem key.
pub open spec fn first_unsupported(codes: Seq<Seq<char>>, i: int) -> Option<int>
    decreases codes.len() - i,
{
    if i < 0 || i >= codes.len() {
        None
    } else if spec_stratagem_key(codes[i]) is None {
        Some(i)
    } else {
        first_unsupported(codes, i + 1)
    }
}

pub open spec fn strings_view(v: Seq<String>) -> Seq<Seq<char>> {
    v.map_values(|s: String| s@)
}

/// The menu key and the keys of a stratagem sequence; the first code that
/// names no key, the menu key checked first, is refused with the report.
pub fn resolve_stratagem_keys(menu_key: &str, sequence: &[String], report: &InjectionReport) -> (r: Result<(StratagemKey, Vec<StratagemKey>), InjectionError>)
    ensures
        ({
            let codes = strings_view(sequence@);
            match spec_stratagem_key(menu_key@) {
                None => r matches Err(InjectionError::UnsupportedKey(rep, key)) && rep == *report && key@ == menu_key@,
                Some(menu) => match first_unsupported(codes, 0) {
                    Some(i) => r matches Err(InjectionError::UnsupportedKey(rep, key)) && rep == *report && key@ == codes[i],
                    None => r matches Ok((m, keys)) && m == menu && keys@.len() == codes.len()
                        && forall|k: int| 0 <= k < codes.len() ==> spec_stratagem_key(codes[k]) == Some(#[trigger] keys@[k]),
                },
            }
        }),
{
    let ghost codes = strings_view(sequence@);
    let menu = match stratagem_key(menu_key) {
        Some(key) => key,
        None => {
            return Err(InjectionError::UnsupportedKey(clone_report(report), crate::chars::string_of(chars_of(menu_key).as_slice())));
        },
    };
    let mut keys: Vec<StratagemKey> = Vec::new();
    let mut i: usize = 0;
    while i < sequence.len()
        invariant
            codes == strings_view(sequence@),
            i <= sequence@.len(),
            spec_stratagem_key(menu_key@) == Some(menu),
            first_unsupported(codes, 0) == first_unsupported(codes, i as int),
            keys@.len() == i,
            forall|k: int| 0 <= k < i ==> spec_stratagem_key(codes[k]) == Some(#[trigger] keys@[k]),
        decreases sequence.len() - i,
    {
        assert(codes[i as int] == sequence@[i as int]@);
        match stratagem_key(sequence[i].as_str()) {
            Some(key) => {
                assert(first_unsupported(codes, i as int) == first_unsupported(codes, i + 1));
                keys.push(key);
            },
            None => {
                assert(first_unsupported(codes, i as int) == Some(i as int));
                return Err(InjectionError::UnsupportedKey(clone_report(report), sequence[i].clone()));
            },
        }
        i = i + 1;
    }
    Ok((menu, keys))
}

/// Stratagem keys pressed and not yet released, in press order.
#[derive(Debug)]
pub struct HeldStratagemKeys {
    keys: Vec<StratagemKey>,
}

impl View for HeldStratagemKeys {
    type V = Seq<StratagemKey>;

    closed spec fn view(&self) -> Seq<StratagemKey> {
        self.keys@
    }
}

/// Index of the last `key` in `keys[..end]`.
pub open spec fn last_position(keys: Seq<StratagemKey>, key: StratagemKey, end: int) -> Option<int>
    decreases end,
{
    if end <= 0 {
        None
    } else if keys[end - 1] == key {
        Some(end - 1)
    } else {
        last_position(keys, key, end - 1)
    }
}

impl HeldStratagemKeys {
    pub fn new() -> (r: Self)
        ensures
            r@ == Seq::<StratagemKey>::empty(),
    {
        HeldStratagemKeys { keys: Vec::new() }
    }

    /// Notes that `key` is held down.
    pub fn track(&mut self, key: StratagemKey)
        ensures
            final(self)@ == old(self)@.push(key),
    {
        self.keys.push(key);
    }

    /// Notes that `key` was released: its latest press is forgotten.
    pub fn mark_released(&mut self, key: StratagemKey)
        ensures
            final(self)@ == match last_position(old(self)@, key, old(self)@.len() as int) {
                Some(i) => old(self)@.remove(i),
                None => old(self)@,
            },
    {
        let mut j = self.keys.len();
        while j > 0
            invariant
                j <= self.keys@.len(),
                self.keys@ == old(self).keys@,
                last_position(self.keys@, key, self.keys@.len() as int) == last_position(self.keys@, key, j as int),
            decreases j,
        {
            if self.keys[j - 1] == key {
                self.keys.remove(j - 1);
                return;
            }
            j = j - 1;
        }
    }

    /// Hands out every held key, latest first, for releasing.
    pub fn release_order(&mut self) -> (r: Vec<StratagemKey>)
        ensures
            r@ == old(self)@.reverse(),
            final(self)@ == Seq::<StratagemKey>::empty(),
    {
        let ghost held = self.keys@;
        let mut out: Vec<StratagemKey> = Vec::new();
        while self.keys.len() > 0
            invariant
                held.len() == self.keys@.len() + out@.len(),
                self.keys@ == held.take(self.keys@.len() as int),
                out@ == held.skip(self.keys@.len() as int).reverse(),
            decreases self.keys@.len(),
        {
            let ghost n = self.keys@.len();
            let key = self.keys.pop().unwrap();
            out.push(key);
            assert(out@ =~= held.skip(n - 1).reverse());
        }
        assert(held.skip(0) =~= held);
        out
    }
}

impl Default for HeldStratagemKeys {
    fn default() -> (r: Self)
        ensures
            r@ == Seq::<StratagemKey>::empty(),
    {
        HeldStratagemKeys::new()
    }
}

// ---------------------------------------------------------------------------
// GBK Alt codes

/// What `encoding_rs::GBK.encode` yields for the string holding only `c`:
/// the encoded bytes, and whether a character was unmappable (and written
/// as an HTML numeric character reference instead).
pub uninterp spec fn gbk_encoding(c: char) -> (Seq<u8>, bool);

/// `encoding_rs::GBK.encode` on the one-character string `c`. Its source
/// returns an ASCII-only input unchanged and without errors; for other
/// characters only the name is stated.
#[verifier::external_body]
fn gbk_encode(c: char) -> (r: (Vec<u8>, bool))
    ensures
        (r.0@, r.1) == gbk_encoding(c),
        (c as u32) < 0x80 ==> r.0@ == seq![c as u8] && !r.1,
{
    let mut buffer = [0u8; 4];
    let source: &str = c.encode_utf8(&mut buffer);
    let (encoded, _, had_errors) = encoding_rs::GBK.encode(source);
    (encoded.into_owned(), had_errors)
}

/// The GBK bytes of one character read as a big-endian number.
pub open spec fn bytes_value(bytes: Seq<u8>) -> int {
    if bytes.len() == 1 {
        bytes[0] as int
    } else {
        bytes[0] * 256 + bytes[1]
    }
}

/// The Alt-code of a character: its one or two GBK bytes as a number, or
/// the character itself when GBK cannot hold it in two bytes.
pub open spec fn spec_gbk_alt_code(c: char) -> Result<u32, char> {
    let (bytes, had_errors) = gbk_encoding(c);
    if had_errors || bytes.len() == 0 || bytes.len() > 2 {
        Err(c)
    } else {
        Ok(bytes_value(bytes) as u32)
    }
}

pub fn gbk_alt_code(character: char) -> (r: Result<u32, char>)
    ensures
        r == spec_gbk_alt_code(character),
{
    let (encoded, had_errors) = gbk_encode(character);
    if had_errors || encoded.len() == 0 || encoded.len() > 2 {
        return Err(character);
    }
    if encoded.len() == 1 {
        Ok(encoded[0] as u32)
    } else {
        Ok((encoded[0] as u32) * 256 + (encoded[1] as u32))
    }
}

/// `char::from_u32` from std: the character with that scalar value, or
/// `None` for a surrogate or a value past `0x10FFFF`.
#[verifier::external_body]
fn char_from_scalar(v: u32) -> (r: Option<char>)
    ensures
        (v < 0xD800 || (0xE000 <= v && v <= 0x10FFFF)) ==> r == Some(v as char),
        !(v < 0xD800 || (0xE000 <= v && v <= 0x10FFFF)) ==> r is None,
{
    char::from_u32(v)
}

/// The character one group of UTF-16 units stands for; `None` for a lone
/// surrogate.
pub open spec fn group_char(g: Seq<u16>) -> Option<char> {
    if g.len() == 2 {
        Some((0x10000 + (g[0] - 0xD800) * 0x400 + (g[1] - 0xDC00)) as char)
    } else if 0xD800 <= g[0] <= 0xDFFF {
        None
    } else {
        Some(g[0] as char)
    }
}

/// Strict UTF-16 decoding of the character groups `gs`.
pub open spec fn decode_groups(gs: Seq<Seq<u16>>) -> Option<Seq<char>>
    decreases gs.len(),
{
    if gs.len() == 0 {
        Some(Seq::empty())
    } else {
        match decode_groups(gs.drop_last()) {
            None => None,
            Some(cs) => match group_char(gs.last()) {
                None => None,
                Some(c) => Some(cs.push(c)),
            },
        }
    }
}

/// What `String::from_utf16` decodes `units` to, `None` when they hold a
/// lone surrogate.
pub open spec fn utf16_decode(units: Seq<u16>) -> Option<Seq<char>> {
    decode_groups(unit_groups(units, 0))
}

proof fn lemma_decode_groups_none(gs: Seq<Seq<u16>>, k: int)
    requires
        0 <= k <= gs.len(),
        decode_groups(gs.take(k)) is None,
    ensures
        decode_groups(gs) is None,
    decreases gs.len() - k,
{
    if k < gs.len() {
        assert(gs.take(k + 1).drop_last() =~= gs.take(k));
        lemma_decode_groups_none(gs, k + 1);
    } else {
        assert(gs.take(k) =~= gs);
    }
}

fn utf16_to_chars(units: &[u16]) -> (r: Option<Vec<char>>)
    ensures
        match utf16_decode(units@) {
            None => r is None,
            Some(cs) => r is Some && r->0@ == cs,
        },
{
    let ghost whole = unit_groups(units@, 0);
    let ghost mut done: Seq<Seq<u16>> = Seq::empty();
    let mut out: Vec<char> = Vec::new();
    let mut index: usize = 0;
    while index < units.len()
        invariant
            index <= units@.len(),
            whole == unit_groups(units@, 0),
            whole == done + unit_groups(units@, index as int),
            decode_groups(done) == Some(out@),
        decreases units.len() - index,
    {
        let high = units[index];
        let length: usize = if 0xD800 <= high && high <= 0xDBFF && index + 1 < units.len()
            && 0xDC00 <= units[index + 1] && units[index + 1] <= 0xDFFF {
            2
        } else {
            1
        };
        let ghost group = units@.subrange(index as int, index + length);
        assert(unit_groups(units@, index as int) =~= seq![group] + unit_groups(units@, index + length));
        let value: u32 = if length == 2 {
            0x10000 + ((high - 0xD800) as u32) * 0x400 + ((units[index + 1] - 0xDC00) as u32)
        } else {
            high as u32
        };
        let decoded = if length == 1 && 0xD800 <= high && high <= 0xDFFF {
            None
        } else {
            char_from_scalar(value)
        };
        proof {
            let next = done.push(group);
            assert(next.drop_last() =~= done);
            assert(group.len() == length);
            assert(group[0] == high);
        }
        match decoded {
            None => {
                proof {
                    let next = done.push(group);
                    assert(next.drop_last() =~= done);
                    assert(decode_groups(next) is None);
                    assert(whole.take(next.len() as int) =~= next);
                    lemma_decode_groups_none(whole, next.len() as int);
                }
                return None;
            },
            Some(c) => {
                out.push(c);
                proof {
                    let next = done.push(group);
                    assert(next.drop_last() =~= done);
                    assert(whole =~= next + unit_groups(units@, index + length));
                    done = next;
                }
            },
        }
        index = index + length;
    }
    assert(done =~= whole);
    Some(out)
}

/// Alt-codes of `chars` in order, or the first character without one.
pub open spec fn alt_codes_of(chars: Seq<char>) -> Result<Seq<u32>, char>
    decreases chars.len(),
{
    if chars.len() == 0 {
        Ok(Seq::empty())
    } else {
        match alt_codes_of(chars.drop_last()) {
            Err(e) => Err(e),
            Ok(codes) => match spec_gbk_alt_code(chars.last()) {
                Err(c) => Err(c),
                Ok(code) => Ok(codes.push(code)),
            },
        }
    }
}

proof fn lemma_alt_codes_err(chars: Seq<char>, k: int, e: char)
    requires
        0 <= k <= chars.len(),
        alt_codes_of(chars.take(k)) == Err::<Seq<u32>, char>(e),
    ensures
        alt_codes_of(chars) == Err::<Seq<u32>, char>(e),
    decreases chars.len() - k,
{
    if k < chars.len() {
        assert(chars.take(k + 1).drop_last() =~= chars.take(k));
        lemma_alt_codes_err(chars, k + 1, e);
    } else {
        assert(chars.take(k) =~= chars);
    }
}

fn alt_codes(chars: &[char]) -> (r: Result<Vec<u32>, char>)
    ensures
        match alt_codes_of(chars@) {
            Err(e) => r == Err::<Vec<u32>, char>(e),
            Ok(codes) => r is Ok && r->Ok_0@ == codes,
        },
{
    let mut codes: Vec<u32> = Vec::new();
    let mut i: usize = 0;
    while i < chars.len()
        invariant
            i <= chars@.len(),
            alt_codes_of(chars@.take(i as int)) == Ok::<Seq<u32>, char>(codes@),
        decreases chars.len() - i,
    {
        assert(chars@.take(i + 1).drop_last() =~= chars@.take(i as int));
        match gbk_alt_code(chars[i]) {
            Err(c) => {
                proof {
                    lemma_alt_codes_err(chars@, i + 1, c);
                }
                return Err(c);
            },
            Ok(code) => {
                codes.push(code);
            },
        }
        i = i + 1;
    }
    assert(chars@.take(chars@.len() as int) =~= chars@);
    Ok(codes)
}

/// Alt-codes of each batch decoded strictly; `U+FFFD` for a batch that is
/// not valid UTF-16, else the first character GBK cannot hold.
pub open spec fn spec_encode_alt_code_batches(batches: Seq<Seq<u16>>) -> Result<Seq<Seq<u32>>, char>
    decreases batches.len(),
{
    if batches.len() == 0 {
        Ok(Seq::empty())
    } else {
        match spec_encode_alt_code_batches(batches.drop_last()) {
            Err(e) => Err(e),
            Ok(done) => match utf16_decode(batches.last()) {
                None => Err('\u{FFFD}'),
                Some(cs) => match alt_codes_of(cs) {
                    Err(c) => Err(c),
                    Ok(codes) => Ok(done.push(codes)),
                },
            },
        }
    }
}

proof fn lemma_encode_batches_err(batches: Seq<Seq<u16>>, k: int, e: char)
    requires
        0 <= k <= batches.len(),
        spec_encode_alt_code_batches(batches.take(k)) == Err::<Seq<Seq<u32>>, char>(e),
    ensures
        spec_encode_alt_code_batches(batches) == Err::<Seq<Seq<u32>>, char>(e),
    decreases batches.len() - k,
{
    if k < batches.len() {
        assert(batches.take(k + 1).drop_last() =~= batches.take(k));
        lemma_encode_batches_err(batches, k + 1, e);
    } else {
        assert(batches.take(k) =~= batches);
    }
}

pub open spec fn codes_view(v: Seq<Vec<u32>>) -> Seq<Seq<u32>> {
    Seq::new(v.len(), |i: int| v[i]@)
}

pub fn encode_alt_code_batches(batches: &[Vec<u16>]) -> (r: Result<Vec<Vec<u32>>, char>)
    ensures
        match spec_encode_alt_code_batches(batches_view(batches@)) {
            Err(e) => r == Err::<Vec<Vec<u32>>, char>(e),
            Ok(codes) => r is Ok && codes_view(r->Ok_0@) == codes,
        },
{
    let ghost bv = batches_view(batches@);
    let mut out: Vec<Vec<u32>> = Vec::new();
    assert(codes_view(out@) =~= Seq::<Seq<u32>>::empty());
    assert(bv.take(0) =~= Seq::<Seq<u16>>::empty());
    let mut i: usize = 0;
    while i < batches.len()
        invariant
            bv == batches_view(batches@),
            i <= batches@.len(),
            out@.len() == i,
            spec_encode_alt_code_batches(bv.take(i as int)) == Ok::<Seq<Seq<u32>>, char>(codes_view(out@)),
        decreases batches.len() - i,
    {
        assert(bv.take(i + 1).drop_last() =~= bv.take(i as int));
        assert(bv.take(i + 1).last() == batches@[i as int]@);
        let decoded = utf16_to_chars(batches[i].as_slice());
        match decoded {
            None => {
                proof {
                    lemma_encode_batches_err(bv, i + 1, '\u{FFFD}');
                }
                return Err('\u{FFFD}');
            },
            Some(chars) => match alt_codes(chars.as_slice()) {
                Err(c) => {
                    proof {
                        lemma_encode_batches_err(bv, i + 1, c);
                    }
                    return Err(c);
                },
                Ok(codes) => {
                    let ghost before = out@;
                    let ghost cv = codes@;
                    out.push(codes);
                    assert(codes_view(out@) =~= codes_view(before).push(cv));
                },
            },
        }
        i = i + 1;
    }
    assert(bv.take(batches@.len() as int) =~= bv);
    Ok(out)
}

/// Scan codes of the numeric-keypad digits `0`..`9`.
pub open spec fn numpad_scan_code(d: int) -> u16 {
    let table: Seq<u16> = seq![0x52, 0x4F, 0x50, 0x51, 0x4B, 0x4C, 0x4D, 0x47, 0x48, 0x49];
    table[d]
}

pub fn numpad_scan_codes() -> (r: [u16; 10])
    ensures
        forall|d: int| 0 <= d < 10 ==> r@[d] == #[trigger] numpad_scan_code(d),
{
    let r: [u16; 10] = [0x52, 0x4F, 0x50, 0x51, 0x4B, 0x4C, 0x4D, 0x47, 0x48, 0x49];
    assert(r@ =~= seq![0x52u16, 0x4F, 0x50, 0x51, 0x4B, 0x4C, 0x4D, 0x47, 0x48, 0x49]);
    r
}

/// The keypad keys typed, in order, for an Alt-code: one per decimal digit.
pub open spec fn spec_alt_code_scan_codes(code: u32) -> Seq<u16> {
    let digits = spec_digits(code as nat, 10);
    Seq::new(digits.len(), |i: int| numpad_scan_code(digits[i] as int - 48))
}

proof fn lemma_decimal_digits(n: nat)
    ensures
        forall|i: int| 0 <= i < spec_digits(n, 10).len() ==> 48 <= #[trigger] (spec_digits(n, 10)[i] as int) <= 57,
    decreases n,
{
    if n >= 10 {
        lemma_decimal_digits(n / 10);
        let p = spec_digits(n / 10, 10);
        let d = (n % 10) as int;
        assert(spec_digits(n, 10) == p.push(digit_char(d)));
        assert((digit_char(d) as int) == 48 + d);
        assert forall|i: int| 0 <= i < spec_digits(n, 10).len() implies 48 <= #[trigger] (spec_digits(n, 10)[i] as int) <= 57 by {
            if i < p.len() {
                assert(spec_digits(n, 10)[i] == p[i]);
            }
        }
    } else {
        assert((digit_char(n as int) as int) == 48 + n);
    }
}

pub fn alt_code_scan_codes(code: u32) -> (r: Vec<u16>)
    ensures
        r@ == spec_alt_code_scan_codes(code),
{
    let digits = digits_of(code as u64, 10);
    proof {
        lemma_decimal_digits(code as nat);
    }
    let table = numpad_scan_codes();
    let mut out: Vec<u16> = Vec::new();
    let mut i: usize = 0;
    while i < digits.len()
        invariant
            digits@ == spec_digits(code as nat, 10),
            forall|d: int| 0 <= d < 10 ==> table@[d] == #[trigger] numpad_scan_code(d),
            forall|j: int| 0 <= j < digits@.len() ==> 48 <= #[trigger] (digits@[j] as int) <= 57,
            i <= digits@.len(),
            out@ == spec_alt_code_scan_codes(code).take(i as int),
        decreases digits.len() - i,
    {
        let d = digits[i] as u32;
        assert(48 <= digits@[i as int] as int <= 57);
        let scan = table[(d - 48) as usize];
        out.push(scan);
        assert(out@ =~= spec_alt_code_scan_codes(code).take(i + 1));
        i = i + 1;
    }
    assert(spec_alt_code_scan_codes(code).take(digits@.len() as int) =~= spec_alt_code_scan_codes(code));
    out
}

// ---------------------------------------------------------------------------
// Keyboard layouts

/// The language of a keyboard layout handle: its low word.
/// The language of a keyboard layout handle: its low word.
pub open spec fn keyboard_layout_language_id_spec(layout: usize) -> usize {
    (layout % 0x10000) as usize
}

pub fn keyboard_layout_language_id(layout: usize) -> (r: usize)
    ensures
        r == layout % 0x10000,
        r == keyboard_layout_language_id_spec(layout),
{
    assert(layout & 0xFFFF == layout % 0x10000) by (bit_vector);
    layout & 0xFFFF
}

/// A keyboard layout handle as the 32-bit id reported in diagnostics.
pub fn keyboard_layout_id(layout: usize) -> (r: u32)
    ensures
        r == (layout as int) % 0x1_0000_0000,
{
    assert(layout as u32 == (layout as u64) % 0x1_0000_0000) by (bit_vector);
    layout as u32
}

/// The game's keyboard layout before and after a gameplay handoff.
#[derive(Debug, Clone, Copy, PartialEq, Eq, Structural)]
pub struct GameplayKeyboardLayoutHandoff {
    pub before: u32,
    pub active: u32,
    pub changed: bool,
}

/// The handoff report for a layout that stays as it is.
pub fn unchanged_layout_handoff(layout: usize) -> (r: GameplayKeyboardLayoutHandoff)
    ensures
        r.before == (layout as int) % 0x1_0000_0000,
        r.active == r.before,
        !r.changed,
{
    let id = keyboard_layout_id(layout);
    GameplayKeyboardLayoutHandoff { before: id, active: id, changed: false }
}

// ---------------------------------------------------------------------------
// Delivery report

/// What happened while sending input to the game, for diagnostics and for
/// deciding whether a retry is safe.
#[derive(Debug, Clone, PartialEq, Eq)]
pub struct InjectionReport {
    pub attempted_batches: usize,
    pub requested_events: u32,
    pub successful_events: u32,
    pub text_requested_events: u32,
    pub text_successful_events: u32,
    pub last_error_code: Option<u32>,
    pub delivery_transport: String,
    pub delivery_acknowledged: bool,
    pub input_characters: usize,
    pub input_delay_ms: u64,
    pub keyboard_layout_switched: bool,
    pub keyboard_layout_before: Option<u32>,
    pub keyboard_layout_requested: Option<u32>,
    pub keyboard_layout_restored: Option<bool>,
    pub num_lock_toggled: bool,
    pub num_lock_restored: Option<bool>,
    pub failed_batch_index: Option<usize>,
    pub partial_prefix_possible: bool,
    pub key_state_uncertain: bool,
    pub submit_attempted: bool,
    pub submit_completed: bool,
}

/// Presses and releases of each scan code, in order.
pub open spec fn tapped_scan_codes(scans: Seq<u16>) -> Seq<KeyInput> {
    Seq::new(2 * scans.len(), |j: int| spec_keyboard_input(scans[j / 2], scan_code_flags(false, j % 2 == 1)))
}

/// The key events that type one GBK code with Alt: Alt pressed, each
/// decimal digit of the code tapped on the numeric keypad, Alt released.
pub open spec fn spec_alt_code_events(code: u32) -> Seq<KeyInput> {
    seq![spec_keyboard_input(ALT_SCAN_CODE, scan_code_flags(false, false))] + tapped_scan_codes(
        spec_alt_code_scan_codes(code),
    ) + seq![spec_keyboard_input(ALT_SCAN_CODE, scan_code_flags(false, true))]
}

pub fn alt_code_events(code: u32) -> (r: Vec<KeyInput>)
    ensures
        r@ == spec_alt_code_events(code),
{
    let scans = alt_code_scan_codes(code);
    let mut out: Vec<KeyInput> = Vec::new();
    out.push(scan_code_input(ALT_SCAN_CODE, false));
    let ghost head = seq![spec_keyboard_input(ALT_SCAN_CODE, scan_code_flags(false, false))];
    assert(out@ =~= head + tapped_scan_codes(scans@.take(0)));
    let mut i: usize = 0;
    while i < scans.len()
        invariant
            i <= scans@.len(),
            head == seq![spec_keyboard_input(ALT_SCAN_CODE, scan_code_flags(false, false))],
            out@ == head + tapped_scan_codes(scans@.take(i as int)),
        decreases scans.len() - i,
    {
        let scan = scans[i];
        out.push(scan_code_input(scan, false));
        out.push(scan_code_input(scan, true));
        assert(tapped_scan_codes(scans@.take(i + 1)) =~= tapped_scan_codes(scans@.take(i as int)).push(
            spec_keyboard_input(scan, scan_code_flags(false, false)),
        ).push(spec_keyboard_input(scan, scan_code_flags(false, true))));
        i = i + 1;
    }
    assert(scans@.take(scans@.len() as int) =~= scans@);
    out.push(scan_code_input(ALT_SCAN_CODE, true));
    assert(out@ =~= spec_alt_code_events(code));
    out
}

/// A report before anything was sent over `transport`.
pub fn empty_report(transport: &str, input_characters: usize, input_delay_ms: u64) -> (r: InjectionReport)
    ensures
        r.attempted_batches == 0,
        r.requested_events == 0,
        r.successful_events == 0,
        r.text_requested_events == 0,
        r.text_successful_events == 0,
        r.last_error_code is None,
        r.delivery_transport@ == transport@,
        r.delivery_acknowledged,
        r.input_characters == input_characters,
        r.input_delay_ms == input_delay_ms,
        !r.keyboard_layout_switched,
        r.keyboard_layout_before is None,
        r.keyboard_layout_requested is None,
        r.keyboard_layout_restored is None,
        !r.num_lock_toggled,
        r.num_lock_restored is None,
        r.failed_batch_index is None,
        !r.partial_prefix_possible,
        !r.key_state_uncertain,
        !r.submit_attempted,
        !r.submit_completed,
{
    InjectionReport {
        attempted_batches: 0,
        requested_events: 0,
        successful_events: 0,
        text_requested_events: 0,
        text_successful_events: 0,
        last_error_code: None,
        delivery_transport: crate::chars::string_of(chars_of(transport).as_slice()),
        delivery_acknowledged: true,
        input_characters,
        input_delay_ms,
        keyboard_layout_switched: false,
        keyboard_layout_before: None,
        keyboard_layout_requested: None,
        keyboard_layout_restored: None,
        num_lock_toggled: false,
        num_lock_restored: None,
        failed_batch_index: None,
        partial_prefix_possible: false,
        key_state_uncertain: false,
        submit_attempted: false,
        submit_completed: false,
    }
}

/// The report after one `SendInput` call of `requested` events of which
/// `inserted` were taken; `last_error` is kept when some were refused.
pub open spec fn spec_record_send(r: InjectionReport, requested: u32, inserted: u32, text_event: bool, last_error: u32) -> InjectionReport {
    InjectionReport {
        requested_events: (r.requested_events + requested) as u32,
        successful_events: (r.successful_events + inserted) as u32,
        text_requested_events: (r.text_requested_events + (if text_event { requested } else { 0 })) as u32,
        text_successful_events: (r.text_successful_events + (if text_event { inserted } else { 0 })) as u32,
        delivery_acknowledged: r.delivery_acknowledged && inserted == requested,
        last_error_code: if inserted != requested { Some(last_error) } else { r.last_error_code },
        ..r
    }
}

/// The counters can take one more call without overflowing.
pub open spec fn can_record_send(r: InjectionReport, requested: u32, inserted: u32, text_event: bool) -> bool {
    &&& r.requested_events + requested <= u32::MAX
    &&& r.successful_events + inserted <= u32::MAX
    &&& text_event ==> r.text_requested_events + requested <= u32::MAX
    &&& text_event ==> r.text_successful_events + inserted <= u32::MAX
}

/// Adds one `SendInput` call to the report: `requested` events asked for,
/// `inserted` taken, and the system error read when some were refused.
pub fn record_send_input(report: &mut InjectionReport, requested: u32, inserted: u32, text_event: bool, last_error: u32)
    requires
        can_record_send(*old(report), requested, inserted, text_event),
    ensures
        *final(report) == spec_record_send(*old(report), requested, inserted, text_event, last_error),
{
    report.requested_events = report.requested_events + requested;
    if text_event {
        report.text_requested_events = report.text_requested_events + requested;
    }
    report.successful_events = report.successful_events + inserted;
    if text_event {
        report.text_successful_events = report.text_successful_events + inserted;
    }
    if inserted != requested {
        report.delivery_acknowledged = false;
        report.last_error_code = Some(last_error);
    }
}

/// A delivery that stops reports that part of the text may be typed
/// exactly when some event was already taken.
pub open spec fn stopped_report(r: InjectionReport, batch: Option<usize>, key_state_uncertain: bool) -> InjectionReport {
    InjectionReport {
        failed_batch_index: if batch is Some { batch } else { r.failed_batch_index },
        partial_prefix_possible: r.successful_events > 0,
        key_state_uncertain,
        ..r
    }
}

/// The game window was lost before or during batch `batch_index`.
pub fn record_target_lost(report: &mut InjectionReport, batch_index: usize)
    ensures
        *final(report) == stopped_report(*old(report), Some(batch_index), old(report).key_state_uncertain),
{
    report.failed_batch_index = Some(batch_index);
    report.partial_prefix_possible = report.successful_events > 0;
}

/// A text `SendInput` of batch `batch_index` took only `inserted` of its
/// events; a key may still be down unless the retried release went through.
pub fn record_partial_text(report: &mut InjectionReport, batch_index: usize, inserted: u32, release_retried_ok: bool)
    ensures
        *final(report) == stopped_report(*old(report), Some(batch_index), inserted % 2 != 0 && !release_retried_ok),
{
    report.failed_batch_index = Some(batch_index);
    report.partial_prefix_possible = report.successful_events > 0;
    report.key_state_uncertain = key_state_uncertain_after(inserted, release_retried_ok);
}

/// An Alt code of batch `batch_index` failed part way.
pub fn record_alt_code_failure(report: &mut InjectionReport, batch_index: usize)
    ensures
        *final(report) == stopped_report(*old(report), Some(batch_index), old(report).key_state_uncertain),
{
    report.failed_batch_index = Some(batch_index);
    report.partial_prefix_possible = report.successful_events > 0;
}

/// The final Enter took only `inserted` of its two events; a key may still
/// be down unless the retried release went through.
pub fn record_submit_failure(report: &mut InjectionReport, inserted: u32, release_retried_ok: bool)
    ensures
        *final(report) == stopped_report(*old(report), None, inserted % 2 != 0 && !release_retried_ok),
{
    report.partial_prefix_possible = report.successful_events > 0;
    report.key_state_uncertain = key_state_uncertain_after(inserted, release_retried_ok);
}

/// Whether a key may be held after event `position` of a stratagem plan
/// was refused: not after the first, clearing release; after the release
/// of a tapped menu key only when its retried release failed too; after
/// any other event, yes.
pub open spec fn stratagem_failure_uncertain(position: int, hold_menu: bool, release_retried_ok: bool, before: bool) -> bool {
    if position == 0 {
        before
    } else if !hold_menu && position == 2 {
        !release_retried_ok
    } else {
        true
    }
}

/// Event `position` of a stratagem plan, `p`, was not taken: the stop names
/// the direction it belongs to, if any.
pub fn record_stratagem_press_failure(report: &mut InjectionReport, position: usize, p: StratagemPress, hold_menu: bool, release_retried_ok: bool)
    ensures
        *final(report) == stopped_report(
            *old(report),
            p.direction,
            stratagem_failure_uncertain(position as int, hold_menu, release_retried_ok, old(report).key_state_uncertain),
        ),
{
    match p.direction {
        Some(i) => {
            report.failed_batch_index = Some(i);
        },
        None => {},
    }
    report.partial_prefix_possible = report.successful_events > 0;
    if position == 0 {
    } else if !hold_menu && position == 2 {
        report.key_state_uncertain = !release_retried_ok;
    } else {
        report.key_state_uncertain = true;
    }
}

/// Closing the game chat with Escape: Escape is only sent to a window
/// whose foreground was verified; otherwise the cancel is refused with the
/// report as it stands. On success the caller sends the returned press and
/// release and reports with `finish_cancel_open_chat`.
pub fn cancel_open_chat(foreground_verified: bool, report: InjectionReport) -> (r: Result<[KeyInput; 2], InjectionError>)
    ensures
        !foreground_verified ==> r == Err::<[KeyInput; 2], InjectionError>(InjectionError::TargetChanged(report)),
        foreground_verified ==> (r matches Ok(keys) && keys@ == seq![
            spec_keyboard_input(ESCAPE_SCAN_CODE, KEYEVENTF_SCANCODE),
            spec_keyboard_input(ESCAPE_SCAN_CODE, (KEYEVENTF_SCANCODE + KEYEVENTF_KEYUP) as u32),
        ]),
{
    if !foreground_verified {
        return Err(InjectionError::TargetChanged(report));
    }
    Ok(scan_code_inputs(ESCAPE_SCAN_CODE))
}

/// After the Escape press and release: `inserted` of the two went out, and
/// a retried release went through or not. Anything short of both is a
/// failed send; a key may then be down when only the press went out and
/// the retried release failed.
pub fn finish_cancel_open_chat(report: InjectionReport, inserted: u32, release_retried_ok: bool) -> (r: Result<(), InjectionError>)
    ensures
        inserted == 2 ==> r == Ok::<(), InjectionError>(()),
        inserted != 2 ==> r == Err::<(), InjectionError>(InjectionError::SendInputFailed(InjectionReport {
            key_state_uncertain: inserted % 2 != 0 && !release_retried_ok,
            ..report
        })),
{
    if inserted == 2 {
        return Ok(());
    }
    let mut report = report;
    report.key_state_uncertain = key_state_uncertain_after(inserted, release_retried_ok);
    Err(InjectionError::SendInputFailed(report))
}

/// The layout to type Alt codes with: the current one when its language is
/// Simplified Chinese, else the first installed layout whose language is.
pub fn select_simplified_chinese_layout(current: usize, installed: &[usize]) -> (r: Option<usize>)
    ensures
        keyboard_layout_language_id_spec(current) == SIMPLIFIED_CHINESE_LANGUAGE_ID ==> r == Some(current),
        keyboard_layout_language_id_spec(current) != SIMPLIFIED_CHINESE_LANGUAGE_ID ==> match r {
            Some(layout) => exists|i: int| 0 <= i < installed@.len() && installed@[i] == layout
                && keyboard_layout_language_id_spec(layout) == SIMPLIFIED_CHINESE_LANGUAGE_ID
                && forall|k: int| 0 <= k < i ==> keyboard_layout_language_id_spec(#[trigger] installed@[k]) != SIMPLIFIED_CHINESE_LANGUAGE_ID,
            None => forall|k: int| 0 <= k < installed@.len() ==> keyboard_layout_language_id_spec(#[trigger] installed@[k]) != SIMPLIFIED_CHINESE_LANGUAGE_ID,
        },
{
    if keyboard_layout_language_id(current) == SIMPLIFIED_CHINESE_LANGUAGE_ID {
        return Some(current);
    }
    let mut i: usize = 0;
    while i < installed.len()
        invariant
            i <= installed@.len(),
            keyboard_layout_language_id_spec(current) != SIMPLIFIED_CHINESE_LANGUAGE_ID,
            forall|k: int| 0 <= k < i ==> keyboard_layout_language_id_spec(#[trigger] installed@[k]) != SIMPLIFIED_CHINESE_LANGUAGE_ID,
        decreases installed.len() - i,
    {
        if keyboard_layout_language_id(installed[i]) == SIMPLIFIED_CHINESE_LANGUAGE_ID {
            return Some(installed[i]);
        }
        i = i + 1;
    }
    None
}

/// Why an injection failed, with the report of what was sent.
#[derive(Debug, Clone, PartialEq, Eq)]
pub enum InjectionError {
    /// The user cancelled the send before it finished.
    Cancelled(InjectionReport),
    TargetChanged(InjectionReport),
    OpenChatFailed(InjectionReport),
    SendInputFailed(InjectionReport),
    SubmitFailed(InjectionReport),
    UnrepresentableCharacter(InjectionReport, char),
    KeyboardLayoutUnavailable(InjectionReport),
    UnsupportedKey(InjectionReport, String),
}

/// After a partial send, whether a key may still be held down: an odd
/// number of taken events ends on a press, and it stays uncertain unless
/// the retried release went through.
pub fn key_state_uncertain_after(inserted: u32, release_retried_ok: bool) -> (r: bool)
    ensures
        r == (inserted % 2 != 0 && !release_retried_ok),
{
    inserted % 2 != 0 && !release_retried_ok
}

// ---------------------------------------------------------------------------
// Releasing stuck keys

/// Outcome of sending releases for every key that may be stuck.
#[derive(Debug, Clone, Copy, PartialEq, Eq, Structural)]
pub struct KeyReleaseReport {
    pub requested_events: u32,
    pub inserted_events: u32,
    pub last_error_code: Option<u32>,
}

/// A release of `key`, marked as this application's own input.
pub fn key_up_input(key: u16) -> (r: KeyInput)
    ensures
        r == (KeyInput {
            virtual_key: key,
            scan: 0,
            flags: KEYEVENTF_KEYUP,
            extra_info: crate::monitor::SELF_INJECTED_EXTRA_INFO,
        }),
{
    KeyInput { virtual_key: key, scan: 0, flags: KEYEVENTF_KEYUP, extra_info: crate::monitor::SELF_INJECTED_EXTRA_INFO }
}

/// Enter, Escape, and every Ctrl, Alt, Shift and Windows key.
pub open spec fn stuck_keys() -> Seq<u16> {
    seq![0x0D, 0x1B, 0x11, 0xA2, 0xA3, 0x12, 0xA4, 0xA5, 0x10, 0xA0, 0xA1, 0x5B, 0x5C]
}

/// Releases for every key that may be stuck, in a fixed order.
pub fn stuck_key_release_inputs() -> (r: Vec<KeyInput>)
    ensures
        r@.len() == stuck_keys().len(),
        forall|i: int| 0 <= i < r@.len() ==> #[trigger] r@[i] == (KeyInput {
            virtual_key: stuck_keys()[i],
            scan: 0,
            flags: KEYEVENTF_KEYUP,
            extra_info: crate::monitor::SELF_INJECTED_EXTRA_INFO,
        }),
{
    let keys: [u16; 13] = [0x0D, 0x1B, 0x11, 0xA2, 0xA3, 0x12, 0xA4, 0xA5, 0x10, 0xA0, 0xA1, 0x5B, 0x5C];
    assert(keys@ =~= stuck_keys());
    let mut inputs: Vec<KeyInput> = Vec::new();
    let mut i: usize = 0;
    while i < 13
        invariant
            keys@ == stuck_keys(),
            i <= 13,
            inputs@.len() == i,
            forall|j: int| 0 <= j < i ==> #[trigger] inputs@[j] == (KeyInput {
                virtual_key: stuck_keys()[j],
                scan: 0,
                flags: KEYEVENTF_KEYUP,
                extra_info: crate::monitor::SELF_INJECTED_EXTRA_INFO,
            }),
        decreases 13 - i,
    {
        inputs.push(key_up_input(keys[i]));
        i = i + 1;
    }
    inputs
}

/// The report of a release send: the system error only when some events
/// were refused.
pub fn key_release_report(requested: u32, inserted: u32, last_error: u32) -> (r: KeyReleaseReport)
    ensures
        r.requested_events == requested,
        r.inserted_events == inserted,
        r.last_error_code == (if inserted != requested {
            Some(last_error)
        } else {
            None
        }),
{
    KeyReleaseReport {
        requested_events: requested,
        inserted_events: inserted,
        last_error_code: if inserted != requested {
            Some(last_error)
        } else {
            None
        },
    }
}

/// Which keys are held, from `GetAsyncKeyState` results: a key is down when
/// the high bit is set, that is when the state is negative.
pub fn sample_keys(enter: i16, control: i16, menu: i16, shift: i16, left_win: i16, right_win: i16) -> (r: crate::session::KeySnapshot)
    ensures
        r.enter_down == (enter < 0),
        r.ctrl_down == (control < 0),
        r.alt_down == (menu < 0),
        r.shift_down == (shift < 0),
        r.win_down == (left_win < 0 || right_win < 0),
{
    crate::session::KeySnapshot {
        enter_down: enter < 0,
        ctrl_down: control < 0,
        alt_down: menu < 0,
        shift_down: shift < 0,
        win_down: left_win < 0 || right_win < 0,
    }
}

// ---------------------------------------------------------------------------
// Integrity levels

/// Why a process integrity level could not be read.
#[derive(Debug, Clone, Copy, PartialEq, Eq, Structural)]
pub enum IntegrityError {
    ProcessUnavailable,
    TokenUnavailable,
    InformationUnavailable,
    InvalidSid,
}

/// Integrity levels of this process and of the game, and whether input can
/// reach the game (ours at least as high).
#[derive(Debug, Clone, PartialEq, Eq)]
pub struct IntegrityDiagnostic {
    pub supported: bool,
    pub current_level: Option<String>,
    pub target_level: Option<String>,
    pub compatible: Option<bool>,
}

/// The name of a mandatory integrity level RID.
pub open spec fn spec_level_name(rid: u32) -> Seq<char> {
    if rid <= 0x0fff {
        "untrusted"@
    } else if rid <= 0x1fff {
        "low"@
    } else if rid <= 0x2fff {
        "medium"@
    } else if rid <= 0x3fff {
        "high"@
    } else if rid <= 0x4fff {
        "system"@
    } else {
        "protected"@
    }
}

pub fn level_name(rid: u32) -> (r: &'static str)
    ensures
        r@ == spec_level_name(rid),
{
    if rid <= 0x0fff {
        "untrusted"
    } else if rid <= 0x1fff {
        "low"
    } else if rid <= 0x2fff {
        "medium"
    } else if rid <= 0x3fff {
        "high"
    } else if rid <= 0x4fff {
        "system"
    } else {
        "protected"
    }
}

/// The diagnostic for the integrity RIDs of this process and of the game.
pub fn integrity_diagnostic(current: u32, target: u32) -> (r: IntegrityDiagnostic)
    ensures
        r.supported,
        r.current_level matches Some(l) && l@ == spec_level_name(current),
        r.target_level matches Some(l) && l@ == spec_level_name(target),
        r.compatible == Some(current >= target),
{
    let current_name = level_name(current);
    let target_name = level_name(target);
    IntegrityDiagnostic {
        supported: true,
        current_level: Some(crate::chars::string_of(chars_of(current_name).as_slice())),
        target_level: Some(crate::chars::string_of(chars_of(target_name).as_slice())),
        compatible: Some(current >= target),
    }
}

} // verus!
