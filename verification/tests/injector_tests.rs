use helldivers2_cn_helper::injector::{
    chat_preparation_scan_codes, count_utf16_characters, gbk_alt_code, keyboard_layout_language_id,
    numpad_scan_codes, scan_code_input_with_extended, scan_code_inputs, stratagem_key,
    unicode_character_inputs, ChatPreparation, ENTER_SCAN_CODE, KEYEVENTF_EXTENDEDKEY, KEYEVENTF_KEYUP,
    KEYEVENTF_SCANCODE, SIMPLIFIED_CHINESE_LANGUAGE_ID,
};

#[test]
fn submit_enter_uses_a_balanced_scan_code_pair() {
    let inputs = scan_code_inputs(ENTER_SCAN_CODE);
    let down = inputs[0];
    let up = inputs[1];
    assert_eq!(down.virtual_key, 0);
    assert_eq!(down.scan, ENTER_SCAN_CODE);
    assert_eq!(down.flags, KEYEVENTF_SCANCODE);
    assert_eq!(up.virtual_key, 0);
    assert_eq!(up.scan, ENTER_SCAN_CODE);
    assert_eq!(up.flags, KEYEVENTF_SCANCODE | KEYEVENTF_KEYUP);
}

#[test]
fn open_chat_enter_uses_a_balanced_scan_code_pair() {
    let inputs = scan_code_inputs(ENTER_SCAN_CODE);
    let down = inputs[0];
    let up = inputs[1];
    assert_eq!(down.virtual_key, 0);
    assert_eq!(down.scan, ENTER_SCAN_CODE);
    assert_eq!(down.flags, KEYEVENTF_SCANCODE);
    assert_eq!(up.virtual_key, 0);
    assert_eq!(up.scan, ENTER_SCAN_CODE);
    assert_eq!(up.flags, KEYEVENTF_SCANCODE | KEYEVENTF_KEYUP);
}

#[test]
fn chat_preparation_modes_use_explicit_key_sequences() {
    assert_eq!(
        chat_preparation_scan_codes(ChatPreparation::KeepOpen),
        &[] as &[u16]
    );
    assert_eq!(
        chat_preparation_scan_codes(ChatPreparation::Open),
        &[ENTER_SCAN_CODE]
    );
}

#[test]
fn stratagem_arrows_use_extended_scan_codes() {
    let key = stratagem_key("ArrowUp").expect("arrow key should be supported");
    assert!(key.extended);
    let input = scan_code_input_with_extended(key.scan_code, key.extended, false);
    assert_eq!(input.virtual_key, 0);
    assert_eq!(input.scan, 0x48);
    assert_eq!(input.flags, KEYEVENTF_SCANCODE | KEYEVENTF_EXTENDEDKEY);
}

#[test]
fn stratagem_wasd_uses_layout_independent_scan_codes() {
    let key = stratagem_key("W").expect("W should be supported");
    assert!(!key.extended);
    assert_eq!(key.scan_code, 0x11);
    assert_eq!(
        stratagem_key("ControlLeft")
            .expect("left ctrl should be supported")
            .scan_code,
        0x1D
    );
}

#[test]
fn unicode_character_groups_keep_surrogate_pairs_together() {
    let groups = unicode_character_inputs(&[b'A' as u16, 0xD83D, 0xDE42, b'B' as u16]);
    assert_eq!(groups.len(), 3);
    assert_eq!(groups[0].len(), 2);
    assert_eq!(groups[1].len(), 4);
    assert_eq!(groups[2].len(), 2);
}

#[test]
fn diagnostic_character_count_treats_surrogate_pairs_as_one_character() {
    assert_eq!(
        count_utf16_characters(&[vec![b'A' as u16, 0xD83D, 0xDE42], vec![b'B' as u16]]),
        3
    );
}

#[test]
fn gbk_alt_codes_match_cp936_byte_values() {
    assert_eq!(gbk_alt_code('A'), Ok(65));
    assert_eq!(gbk_alt_code('你'), Ok(50_403));
    assert_eq!(gbk_alt_code('🙂'), Err('🙂'));
}

#[test]
fn numpad_scan_codes_match_physical_digit_keys() {
    let codes = numpad_scan_codes();
    assert_eq!(codes[0], 0x52);
    assert_eq!(codes[1], 0x4F);
    assert_eq!(codes[5], 0x4C);
    assert_eq!(codes[9], 0x49);
}

#[test]
fn keyboard_layout_language_id_uses_the_low_word() {
    assert_eq!(
        keyboard_layout_language_id(0xE020_0804usize),
        SIMPLIFIED_CHINESE_LANGUAGE_ID
    );
}
