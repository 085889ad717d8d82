use helldivers2_cn_helper::injector::{
    alt_code_scan_codes, encode_alt_code_batches, gbk_alt_code, integrity_diagnostic,
    key_release_report, keyboard_layout_id, level_name, record_send_input, sample_keys,
    stratagem_key, stuck_key_release_inputs, unchanged_layout_handoff, unicode_inputs,
    empty_report, HeldStratagemKeys, KEYEVENTF_KEYUP, KEYEVENTF_UNICODE,
};
use helldivers2_cn_helper::monitor::SELF_INJECTED_EXTRA_INFO;

#[test]
fn unicode_units_are_pressed_and_released() {
    let inputs = unicode_inputs(&[0x4E2D, 0x0041]);
    assert_eq!(inputs.len(), 4);
    assert_eq!(inputs[0].scan, 0x4E2D);
    assert_eq!(inputs[0].flags, KEYEVENTF_UNICODE);
    assert_eq!(inputs[1].flags, KEYEVENTF_UNICODE | KEYEVENTF_KEYUP);
    assert_eq!(inputs[3].scan, 0x0041);
}

#[test]
fn gbk_alt_codes_come_from_encoding_rs() {
    assert_eq!(gbk_alt_code('A'), Ok(65));
    assert_eq!(gbk_alt_code('中'), Ok(0xD6D0));
    assert_eq!(gbk_alt_code('😀'), Err('😀'));
    assert_eq!(
        encode_alt_code_batches(&[vec![0x4E2D, 0x0041], vec![0x0031]]),
        Ok(vec![vec![0xD6D0, 65], vec![49]])
    );
    assert_eq!(
        encode_alt_code_batches(&[vec![0x0041], vec![0xD83D, 0xDE00]]),
        Err('😀')
    );
}

#[test]
fn alt_codes_are_typed_on_the_keypad() {
    assert_eq!(alt_code_scan_codes(65), vec![0x4D, 0x4C]);
    assert_eq!(alt_code_scan_codes(0), vec![0x52]);
}

#[test]
fn stuck_keys_are_released_as_own_input() {
    let inputs = stuck_key_release_inputs();
    assert_eq!(inputs.len(), 13);
    assert_eq!(inputs[0].virtual_key, 0x0D);
    assert_eq!(inputs[12].virtual_key, 0x5C);
    assert!(inputs
        .iter()
        .all(|input| input.flags == KEYEVENTF_KEYUP && input.extra_info == SELF_INJECTED_EXTRA_INFO));
    assert_eq!(key_release_report(13, 13, 5).last_error_code, None);
    assert_eq!(key_release_report(13, 12, 5).last_error_code, Some(5));
}

#[test]
fn sampled_keys_are_down_when_negative() {
    let keys = sample_keys(-32768, 0, 1, -1, 0, -5);
    assert!(keys.enter_down);
    assert!(!keys.ctrl_down);
    assert!(!keys.alt_down);
    assert!(keys.shift_down);
    assert!(keys.win_down);
}

#[test]
fn integrity_levels_are_named_and_compared() {
    assert_eq!(level_name(0x0000), "untrusted");
    assert_eq!(level_name(0x2000), "medium");
    assert_eq!(level_name(0x3000), "high");
    assert_eq!(level_name(0x5000), "protected");
    let diagnostic = integrity_diagnostic(0x2000, 0x3000);
    assert_eq!(diagnostic.current_level.as_deref(), Some("medium"));
    assert_eq!(diagnostic.target_level.as_deref(), Some("high"));
    assert_eq!(diagnostic.compatible, Some(false));
    assert_eq!(integrity_diagnostic(0x3000, 0x2000).compatible, Some(true));
}

#[test]
fn layout_ids_keep_the_low_32_bits() {
    assert_eq!(keyboard_layout_id(0x0804_0804), 0x0804_0804);
    let handoff = unchanged_layout_handoff(0x0409_0409);
    assert_eq!(handoff.before, 0x0409_0409);
    assert_eq!(handoff.active, 0x0409_0409);
    assert!(!handoff.changed);
}

#[test]
fn send_input_results_are_accumulated() {
    let mut report = empty_report("SendInput", 2, 8);
    record_send_input(&mut report, 4, 4, true, 0);
    assert_eq!(report.text_requested_events, 4);
    assert!(report.delivery_acknowledged);
    record_send_input(&mut report, 2, 1, false, 87);
    assert_eq!(report.requested_events, 6);
    assert_eq!(report.successful_events, 5);
    assert_eq!(report.text_successful_events, 4);
    assert!(!report.delivery_acknowledged);
    assert_eq!(report.last_error_code, Some(87));
}

#[test]
fn held_stratagem_keys_release_latest_first() {
    let up = stratagem_key("ArrowUp").unwrap();
    let down = stratagem_key("ArrowDown").unwrap();
    let ctrl = stratagem_key("ControlLeft").unwrap();
    let mut held = HeldStratagemKeys::new();
    held.track(ctrl);
    held.track(up);
    held.track(down);
    held.track(up);
    held.mark_released(up);
    assert_eq!(held.release_order(), vec![down, up, ctrl]);
    assert!(held.release_order().is_empty());
}
