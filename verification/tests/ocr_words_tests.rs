use helldivers2_cn_helper::monitor::{
    CapsGate, CapsPolicyAction, CapsProtection, CapsRecovery, ForegroundState,
};
use helldivers2_cn_helper::ocr::{pair_ocr_readings, OcrReading, PositionedOcrLine};
use helldivers2_cn_helper::ocr_words::{
    cluster_ocr_words_by_visual_row, join_ocr_row_words, positioned_ocr_lines, PositionedOcrWord,
};
use helldivers2_cn_helper::translation::TranslationError;

/// A word box given in pixels, stored in thousandths of a pixel.
fn word(text: &str, left: i64, top: i64, width: i64, height: i64) -> PositionedOcrWord {
    PositionedOcrWord {
        text: text.to_owned(),
        left: left * 1000,
        top: top * 1000,
        width: width * 1000,
        height: height * 1000,
    }
}

#[test]
fn row_words_are_spaced_by_their_gap() {
    let words = vec![word("Hello", 0, 0, 50, 20), word("there", 60, 0, 50, 20)];
    assert_eq!(join_ocr_row_words(&words), "Hello there");
    let touching = vec![word("Hel", 0, 0, 30, 20), word("lo", 31, 0, 20, 20)];
    assert_eq!(join_ocr_row_words(&touching), "Hello");
}

#[test]
fn han_neighbours_and_punctuation_take_no_space() {
    let han = vec![word("你好", 0, 0, 40, 20), word("世界", 60, 0, 40, 20)];
    assert_eq!(join_ocr_row_words(&han), "你好世界");
    let closing = vec![word("Hi", 0, 0, 20, 20), word("!", 40, 0, 5, 20)];
    assert_eq!(join_ocr_row_words(&closing), "Hi!");
    let opening = vec![word("(", 0, 0, 5, 20), word("note", 30, 0, 40, 20)];
    assert_eq!(join_ocr_row_words(&opening), "(note");
}

#[test]
fn blank_words_are_skipped_when_joining() {
    let words = vec![word("  ", 0, 0, 10, 20), word(" a ", 20, 0, 10, 20), word("b", 40, 0, 10, 20)];
    assert_eq!(join_ocr_row_words(&words), "a b");
}

#[test]
fn words_on_two_rows_become_two_lines() {
    let words = vec![
        word("second", 0, 40, 60, 20),
        word("first", 70, 0, 50, 20),
        word("one", 0, 2, 40, 20),
        word("", 0, 80, 10, 20),
        word("flat", 0, 100, 10, 0),
    ];
    let lines = cluster_ocr_words_by_visual_row(words);
    assert_eq!(
        lines,
        vec![
            PositionedOcrLine { text: "one first".to_owned(), top: 0, height: 22_000 },
            PositionedOcrLine { text: "second".to_owned(), top: 40_000, height: 20_000 },
        ]
    );
}

#[test]
fn no_words_give_no_rows() {
    assert!(cluster_ocr_words_by_visual_row(Vec::new()).is_empty());
}

#[test]
fn a_single_row_keeps_the_line_text() {
    let lines = vec![
        ("  Bob: hi  ".to_owned(), vec![word("Bob:", 0, 50, 40, 20), word("hi", 50, 50, 20, 20)]),
        ("Ann: top".to_owned(), vec![word("Ann:", 0, 0, 40, 20), word("top", 50, 0, 30, 20)]),
        ("   ".to_owned(), vec![word("x", 0, 10, 10, 20)]),
    ];
    let rows = positioned_ocr_lines(&lines);
    assert_eq!(
        rows,
        vec![
            PositionedOcrLine { text: "Ann: top".to_owned(), top: 0, height: 20_000 },
            PositionedOcrLine { text: "Bob: hi".to_owned(), top: 50_000, height: 20_000 },
        ]
    );
}

#[test]
fn caps_policy_follows_the_foreground() {
    let mut caps = CapsProtection::new();
    assert_eq!(
        caps.caps_policy(ForegroundState::Game),
        CapsPolicyAction::Prepare { expected: true }
    );
    // No game session holds a saved state yet: the assistant is left alone.
    assert_eq!(caps.caps_policy(ForegroundState::Assistant), CapsPolicyAction::Leave);
    assert_eq!(
        caps.caps_policy(ForegroundState::Other),
        CapsPolicyAction::RestoreInBackground
    );
    // Typing into the chat turns CapsLock off even with the game in front.
    assert_eq!(caps.begin_text_injection(), CapsGate::Ensure { expected: false });
    assert_eq!(
        caps.caps_policy(ForegroundState::Game),
        CapsPolicyAction::Prepare { expected: false }
    );
    assert!(caps.finish_prepare(false, true));
    assert_eq!(caps.end_text_injection(), CapsGate::Ensure { expected: true });
    // A session now holds the saved state: over the assistant CapsLock is off.
    assert_eq!(
        caps.caps_policy(ForegroundState::Assistant),
        CapsPolicyAction::Ensure { expected: false }
    );
    caps.mark_caps_protection_fault();
    assert_eq!(caps.caps_policy(ForegroundState::Game), CapsPolicyAction::Leave);
    assert_eq!(caps.caps_policy(ForegroundState::Assistant), CapsPolicyAction::Leave);
    assert!(caps.set_auto_lock_caps(false));
    assert_eq!(caps.caps_policy(ForegroundState::Game), CapsPolicyAction::RestoreOriginal);
}

#[test]
fn a_game_session_saves_the_first_state_and_restores_it() {
    let mut caps = CapsProtection::new();
    assert!(!caps.caps_session_active());
    assert!(caps.finish_prepare(false, true));
    assert!(caps.caps_session_active());
    // A second prepare keeps the state saved first.
    assert!(caps.finish_prepare(true, true));
    assert_eq!(caps.restore_target(), Some(false));
    assert!(caps.finish_restore(true));
    assert!(!caps.caps_session_active());
    assert_eq!(caps.restore_target(), None);
    // Nothing saved: a restore is a success whatever the toggle said.
    assert!(caps.finish_restore(false));
}

#[test]
fn a_failed_toggle_faults_caps_protection() {
    let mut caps = CapsProtection::new();
    assert!(!caps.finish_prepare(true, false));
    assert!(caps.caps_protection_faulted());
    assert!(caps.caps_session_active());
    assert!(!caps.finish_restore(false));
    assert!(caps.caps_session_active());
    assert!(!caps.set_auto_lock_caps(true));
    assert!(!caps.caps_protection_faulted());
    assert!(!caps.finish_ensure(false));
    assert!(caps.caps_protection_faulted());
}

#[test]
fn background_restores_fault_after_three_failures_in_a_row() {
    let mut caps = CapsProtection::new();
    assert!(caps.finish_prepare(true, true));
    assert!(!caps.finish_background_restore(false));
    assert!(!caps.finish_background_restore(false));
    assert!(caps.finish_background_restore(false));
    assert!(caps.caps_protection_faulted());
    assert!(caps.caps_session_active());
    // A restore that works clears the fault and ends the session.
    assert!(!caps.finish_background_restore(true));
    assert!(!caps.caps_protection_faulted());
    assert!(!caps.caps_session_active());
    // A success in between starts the count again.
    assert!(caps.finish_prepare(true, true));
    assert!(!caps.finish_background_restore(false));
    assert!(!caps.finish_background_restore(false));
    assert!(!caps.record_background_restore(true));
    assert!(!caps.finish_background_restore(false));
    assert!(!caps.caps_protection_faulted());
}

#[test]
fn a_send_passes_when_caps_matches_or_the_guard_degrades() {
    let mut caps = CapsProtection::new();
    assert_eq!(caps.injection_caps_gate(false), CapsGate::Ensure { expected: false });
    assert!(caps.injection_caps_verdict(false, true, true, false));
    assert!(!caps.injection_caps_verdict(false, true, true, true));
    // This very attempt faulted: the send still goes.
    assert!(caps.injection_caps_verdict(false, true, false, true));
    assert!(caps.caps_protection_faulted());
    assert_eq!(caps.injection_caps_gate(false), CapsGate::PassThrough);
    let _ = caps.set_auto_lock_caps(false);
    assert_eq!(caps.injection_caps_gate(true), CapsGate::PassThrough);
}

#[test]
fn recovery_follows_the_window_in_front() {
    let mut caps = CapsProtection::new();
    caps.mark_caps_protection_fault();
    assert_eq!(
        caps.begin_recovery(ForegroundState::Game),
        CapsRecovery::Prepare { expected: true }
    );
    assert!(!caps.caps_protection_faulted());
    assert!(caps.finish_recovery(ForegroundState::Game, false, true, true));
    assert!(!caps.caps_protection_faulted());
    assert_eq!(
        caps.begin_recovery(ForegroundState::Assistant),
        CapsRecovery::Prepare { expected: false }
    );
    assert!(!caps.finish_recovery(ForegroundState::Assistant, true, true, true));
    assert!(caps.caps_protection_faulted());
    assert_eq!(caps.begin_recovery(ForegroundState::Other), CapsRecovery::Restore);
    assert!(caps.finish_recovery(ForegroundState::Other, true, true, false));
    assert!(!caps.caps_session_active());
    assert!(!caps.caps_protection_faulted());
}

fn reading(language: &str, texts: &[&str]) -> OcrReading {
    OcrReading {
        language: language.to_owned(),
        lines: texts
            .iter()
            .enumerate()
            .map(|(index, text)| PositionedOcrLine {
                text: (*text).to_owned(),
                top: index as i64 * 20_000,
                height: 18_000,
            })
            .collect(),
    }
}

#[test]
fn readings_pair_with_their_language_label() {
    let chinese = reading("zh-Hans-CN", &["甲：你好"]);
    let (english, label) =
        pair_ocr_readings(&chinese, Some(("en-US".to_owned(), reading("en-US", &["A: hi"])))).unwrap();
    assert_eq!(english.language, "en-US");
    assert_eq!(english.lines.len(), 1);
    assert_eq!(label, "zh-Hans-CN + en-US");

    let fallback = reading("EN-us", &["A: hi"]);
    let (english, label) =
        pair_ocr_readings(&fallback, Some(("en-US".to_owned(), reading("en-US", &["A: hi"])))).unwrap();
    assert_eq!(english.language, "en-US");
    assert!(english.lines.is_empty());
    assert_eq!(label, "EN-us（中英混合）");

    let (english, label) = pair_ocr_readings(&chinese, None).unwrap();
    assert_eq!(english.language, "未安装英文 OCR，使用中文引擎兼容拉丁字符");
    assert_eq!(label, "zh-Hans-CN（中英混合兼容模式）");
}

#[test]
fn two_empty_readings_are_an_error() {
    let chinese = reading("zh-Hans-CN", &[]);
    assert_eq!(
        pair_ocr_readings(&chinese, Some(("en-US".to_owned(), reading("en-US", &[])))),
        Err(TranslationError::Response("聊天区域未识别到文字".to_owned()))
    );
}
