use helldivers2_cn_helper::injector::KeyInput;
use helldivers2_cn_helper::monitor::{
    buffered_key_input, classify_hook_event, is_assistant_window, is_plain_typing_vk, resolve_chat_key_trigger,
    resolve_escape_trigger, virtual_key_for_code, BufferedKeyEvent, CapsGate, CapsProtection,
    ChatKeyTrigger, FirstKeyBuffer, ForegroundState, HookEventSource, KeyboardEvent,
    KEY_BUFFER_CAPACITY, KEY_BUFFER_WATCHDOG_MS, SELF_INJECTED_EXTRA_INFO, WM_KEYDOWN, WM_KEYUP,
};

#[test]
fn hook_event_classification_pins_the_injection_policy() {
    assert_eq!(classify_hook_event(false, 0), HookEventSource::Physical);
    assert_eq!(
        classify_hook_event(false, SELF_INJECTED_EXTRA_INFO),
        HookEventSource::Physical
    );
    assert_eq!(classify_hook_event(true, 0), HookEventSource::RemoteInjected);
    assert_eq!(
        classify_hook_event(true, SELF_INJECTED_EXTRA_INFO),
        HookEventSource::SelfInjected
    );
    assert_ne!(SELF_INJECTED_EXTRA_INFO, 0);
}

#[test]
fn maps_supported_dom_codes_to_windows_virtual_keys() {
    assert_eq!(virtual_key_for_code("Enter"), Some(0x0D));
    assert_eq!(virtual_key_for_code("NumpadEnter"), Some(0x0D));
    assert_eq!(virtual_key_for_code("KeyT"), Some(u32::from(b'T')));
    assert_eq!(virtual_key_for_code("Digit7"), Some(u32::from(b'7')));
    assert_eq!(virtual_key_for_code("F12"), Some(0x7B));
    assert_eq!(virtual_key_for_code("ControlLeft"), None);
}

#[test]
fn plain_typing_vk_scope_pins_the_first_key_buffer_policy() {
    assert!(is_plain_typing_vk(0x41));
    assert!(is_plain_typing_vk(0x5A));
    assert!(is_plain_typing_vk(0x30));
    assert!(is_plain_typing_vk(0x39));
    assert!(is_plain_typing_vk(0x20));
    assert!(is_plain_typing_vk(0xBA));
    assert!(is_plain_typing_vk(0xBF));
    assert!(is_plain_typing_vk(0x08));
    assert!(!is_plain_typing_vk(0x0D));
    assert!(!is_plain_typing_vk(0x1B));
    assert!(!is_plain_typing_vk(0x09));
    assert!(!is_plain_typing_vk(0x10));
    assert!(!is_plain_typing_vk(0x11));
    assert!(!is_plain_typing_vk(0x70));
}

fn letter_h() -> KeyboardEvent {
    KeyboardEvent {
        vk_code: 0x48,
        scan_code: 0x23,
        extended: false,
    }
}

#[test]
fn first_key_buffer_lifecycle_round_trip() {
    let mut buffer = FirstKeyBuffer::default();
    buffer.discard_first_key_buffer();

    assert!(!buffer.first_key_buffer_armed());
    assert_eq!(buffer.buffer_event_if_armed(0x48, WM_KEYDOWN, false), None);

    buffer.arm_first_key_buffer(0);
    assert!(buffer.first_key_buffer_armed());

    assert_eq!(buffer.buffer_event_if_armed(0x48, WM_KEYDOWN, false), Some(false));
    assert_eq!(buffer.buffer_event_if_armed(0x48, WM_KEYUP, false), Some(true));
    assert_eq!(buffer.buffer_event_if_armed(0x0D, WM_KEYDOWN, false), None);

    assert!(buffer.try_buffer_event(letter_h(), false, true, 10));
    let drained = buffer.take_buffered_keys();
    assert_eq!(drained.len(), 1);
    assert_eq!(drained[0].vk_code, 0x48);
    assert_eq!(drained[0].scan_code, 0x23);
    assert!(!drained[0].key_up);
    assert!(buffer.first_key_buffer_armed());

    buffer.discard_first_key_buffer();
    assert!(!buffer.first_key_buffer_armed());
    buffer.arm_first_key_buffer(20);
    let drained_again = buffer.take_buffered_keys();
    assert!(drained_again.is_empty());
    assert!(buffer.first_key_buffer_armed());
    buffer.discard_first_key_buffer();
}

#[test]
fn restore_buffered_keys_preserves_order_for_retry() {
    let mut buffer = FirstKeyBuffer::default();
    buffer.discard_first_key_buffer();

    let drained = vec![
        BufferedKeyEvent {
            vk_code: 0x48,
            scan_code: 0,
            extended: false,
            key_up: false,
        },
        BufferedKeyEvent {
            vk_code: 0x48,
            scan_code: 0,
            extended: false,
            key_up: true,
        },
    ];
    buffer.restore_buffered_keys(&drained);
    assert_eq!(buffer.buffered_key_count(), 2);

    let re_drained = buffer.take_buffered_keys();
    assert_eq!(re_drained.len(), 2);
    assert_eq!(re_drained[0].vk_code, 0x48);
    assert!(!re_drained[0].key_up);
    assert_eq!(re_drained[1].vk_code, 0x48);
    assert!(re_drained[1].key_up);

    buffer.restore_buffered_keys(&[]);
    assert_eq!(buffer.buffered_key_count(), 0);
}

#[test]
fn renew_and_expired_stop_pin_the_burst_capture_contract() {
    let mut buffer = FirstKeyBuffer::default();
    buffer.discard_first_key_buffer();

    buffer.renew_first_key_buffer_window(100);
    assert!(!buffer.first_key_buffer_armed());

    buffer.arm_first_key_buffer(1_000);
    buffer.stop_first_key_buffer_swallow_if_expired(1_000);
    assert!(buffer.first_key_buffer_armed());

    // The capture window started more than the watchdog budget ago.
    buffer.stop_first_key_buffer_swallow_if_expired(1_000 + KEY_BUFFER_WATCHDOG_MS + 1);
    assert!(!buffer.first_key_buffer_armed());

    buffer.stop_first_key_buffer_swallow_if_expired(1_000 + KEY_BUFFER_WATCHDOG_MS + 2);
    assert!(!buffer.first_key_buffer_armed());
    buffer.renew_first_key_buffer_window(1_000 + KEY_BUFFER_WATCHDOG_MS + 3);
    assert!(!buffer.first_key_buffer_armed());
    buffer.discard_first_key_buffer();
}

#[test]
fn first_key_buffer_overflow_retains_captured_keys() {
    let mut buffer = FirstKeyBuffer::default();
    buffer.discard_first_key_buffer();

    buffer.arm_first_key_buffer(0);
    for _ in 0..KEY_BUFFER_CAPACITY / 2 {
        assert!(buffer.try_buffer_event(letter_h(), false, true, 0));
        assert!(buffer.try_buffer_event(letter_h(), true, true, 0));
    }
    assert_eq!(buffer.buffered_key_count(), KEY_BUFFER_CAPACITY);
    assert!(!buffer.try_buffer_event(letter_h(), false, true, 0));
    assert!(!buffer.first_key_buffer_armed());
    assert_eq!(buffer.buffered_key_count(), KEY_BUFFER_CAPACITY);

    buffer.arm_first_key_buffer(0);
    assert_eq!(buffer.buffered_key_count(), 0);

    buffer.discard_first_key_buffer();
}

#[test]
fn numpad_enter_only_mode_gates_the_extended_key_flag() {
    let mut trigger = ChatKeyTrigger::default();
    trigger.set_chat_key_numpad_enter_only(false);
    assert!(trigger.set_chat_key("Enter"));
    assert!(trigger.chat_key_matches_extended_flag(true));
    assert!(trigger.chat_key_matches_extended_flag(false));

    trigger.set_chat_key_numpad_enter_only(true);
    assert!(trigger.chat_key_matches_extended_flag(true));
    assert!(!trigger.chat_key_matches_extended_flag(false));

    assert!(trigger.set_chat_key("Space"));
    assert!(trigger.chat_key_matches_extended_flag(false));
    assert!(trigger.chat_key_matches_extended_flag(true));

    trigger.set_chat_key_numpad_enter_only(false);
    assert!(trigger.set_chat_key("Enter"));
}

#[test]
fn recognizes_assistant_titles_when_windows_returns_no_process_id() {
    let own_process = 4_321;
    assert!(is_assistant_window(0, own_process, Some("HD2CN 中文助手")));
    assert!(is_assistant_window(0, own_process, Some("HD2CN 聊天译文")));
    assert!(is_assistant_window(0, own_process, Some("HD2CN 中文侧栏")));
    assert!(!is_assistant_window(0, own_process, Some("HELLDIVERS™ 2")));
    assert!(!is_assistant_window(1234, own_process, Some("HD2CN 中文助手")));
}

#[test]
fn chat_key_release_must_start_in_game_foreground() {
    let (trigger, armed) = resolve_chat_key_trigger(WM_KEYUP, false, ForegroundState::Game, false);
    assert!(!trigger);
    assert!(!armed);

    let (trigger, armed) = resolve_chat_key_trigger(WM_KEYDOWN, false, ForegroundState::Assistant, false);
    assert!(!trigger);
    assert!(!armed);

    let (trigger, armed) = resolve_chat_key_trigger(WM_KEYUP, false, ForegroundState::Game, armed);
    assert!(!trigger);
    assert!(!armed);

    let (trigger, armed) = resolve_chat_key_trigger(WM_KEYDOWN, false, ForegroundState::Game, false);
    assert!(!trigger);
    assert!(armed);

    let (trigger, armed) = resolve_chat_key_trigger(WM_KEYUP, false, ForegroundState::Game, armed);
    assert!(trigger);
    assert!(!armed);
}

#[test]
fn chat_key_release_is_cancelled_when_focus_leaves_game() {
    let (trigger, armed) = resolve_chat_key_trigger(WM_KEYDOWN, false, ForegroundState::Game, false);
    assert!(!trigger);
    assert!(armed);

    let (trigger, armed) = resolve_chat_key_trigger(WM_KEYUP, false, ForegroundState::Other, armed);
    assert!(!trigger);
    assert!(!armed);
}

#[test]
fn faulted_caps_protection_degrades_prepare_gates() {
    let mut caps = CapsProtection::default();
    let _ = caps.set_auto_lock_caps(true);
    caps.mark_caps_protection_fault();
    assert_eq!(caps.prepare_overlay_input(), CapsGate::PassThrough);
    assert_eq!(caps.prepare_gameplay(), CapsGate::PassThrough);

    let _ = caps.set_auto_lock_caps(false);
    assert_eq!(caps.prepare_overlay_input(), CapsGate::PassThrough);
    assert_eq!(caps.prepare_gameplay(), CapsGate::PassThrough);
}

#[test]
fn escape_release_requires_game_foreground_and_unmodified_key() {
    let (trigger, armed) = resolve_escape_trigger(WM_KEYDOWN, false, ForegroundState::Game, false);
    assert!(!trigger);
    assert!(armed);

    let (trigger, armed) = resolve_escape_trigger(WM_KEYUP, false, ForegroundState::Game, armed);
    assert!(trigger);
    assert!(!armed);

    let (trigger, armed) = resolve_escape_trigger(WM_KEYDOWN, false, ForegroundState::Game, false);
    assert!(!trigger);
    assert!(armed);

    let (trigger, armed) = resolve_escape_trigger(WM_KEYUP, false, ForegroundState::Other, armed);
    assert!(!trigger);
    assert!(!armed);

    let (trigger, armed) = resolve_escape_trigger(WM_KEYDOWN, true, ForegroundState::Game, false);
    assert!(!trigger);
    assert!(!armed);
}

#[test]
fn buffered_keys_replay_by_scan_code_marked_as_self_injected() {
    let down = buffered_key_input(BufferedKeyEvent { vk_code: 0x41, scan_code: 0x1e, extended: false, key_up: false });
    assert_eq!(
        down,
        KeyInput { virtual_key: 0, scan: 0x1e, flags: 0x0008, extra_info: SELF_INJECTED_EXTRA_INFO }
    );
    let up = buffered_key_input(BufferedKeyEvent { vk_code: 0x0d, scan_code: 0x1c, extended: true, key_up: true });
    assert_eq!(
        up,
        KeyInput { virtual_key: 0, scan: 0x1c, flags: 0x000b, extra_info: SELF_INJECTED_EXTRA_INFO }
    );
    assert_eq!(classify_hook_event(true, up.extra_info), HookEventSource::SelfInjected);
}
