use helldivers2_cn_helper::config::AppConfig;
use helldivers2_cn_helper::ipc::{map_text_result, parse_release_version, pending_cancel_hit, unsupported_platform, IpcErrorCode};
use helldivers2_cn_helper::session::{KeySnapshot, SessionError, SessionMachine, SessionPhase, TargetIdentity};
use helldivers2_cn_helper::text::{clean_text, preview_text, scalar_count, TextError};

fn target(hwnd: u64) -> TargetIdentity {
    TargetIdentity {
        hwnd,
        process_id: 10,
        thread_id: 20,
        process_creation_time: 30,
    }
}

fn keys(enter_down: bool) -> KeySnapshot {
    KeySnapshot {
        enter_down,
        ctrl_down: false,
        alt_down: false,
        shift_down: false,
        win_down: false,
    }
}

#[test]
fn unsupported_platform_error_is_explicit() {
    assert_eq!(unsupported_platform().code, IpcErrorCode::UnsupportedPlatform);
}

#[test]
fn pending_cancel_ttl_only_accepts_fresh_entries() {
    let now = 10_000u64;
    assert!(!pending_cancel_hit(None, now));
    assert!(pending_cancel_hit(Some(now), now));
    assert!(!pending_cancel_hit(Some(now - 1_000), now));
}

#[test]
fn text_errors_use_stable_codes() {
    assert_eq!(
        map_text_result(Err(TextError::Empty)).unwrap_err().code,
        IpcErrorCode::TextEmpty
    );
}

#[test]
fn release_versions_are_compared_semantically() {
    let current = parse_release_version("v0.9.0").unwrap();
    let latest = parse_release_version("0.10.0").unwrap();
    assert!(latest > current);
    assert_eq!(
        parse_release_version("V1.2.3").unwrap(),
        semver::Version::new(1, 2, 3)
    );
    assert!(parse_release_version("latest").is_err());
}

#[test]
fn defaults_are_valid() {
    assert_eq!(AppConfig::default().validate(), Ok(()));
}

#[test]
fn rejects_all_out_of_range_values() {
    let config = AppConfig {
        title_keyword: "  ".to_owned(),
        batch_size: 0,
        batch_delay_ms: 501,
        character_limit: 501,
    };

    let errors = config.validate().unwrap_err();
    assert_eq!(errors.len(), 4);
    assert!(errors.iter().any(|error| error.field == "titleKeyword"));
    assert!(errors.iter().any(|error| error.field == "batchSize"));
    assert!(errors.iter().any(|error| error.field == "batchDelayMs"));
    assert!(errors.iter().any(|error| error.field == "characterLimit"));
}

#[test]
fn accepts_boundary_values() {
    for config in [
        AppConfig {
            batch_size: 1,
            batch_delay_ms: 10,
            character_limit: 1,
            ..AppConfig::default()
        },
        AppConfig {
            batch_size: 20,
            batch_delay_ms: 500,
            character_limit: 500,
            ..AppConfig::default()
        },
    ] {
        assert_eq!(config.validate(), Ok(()));
    }
}

#[test]
fn enter_requires_stable_up_down_up_sequence() {
    let mut machine = SessionMachine::default();
    let generation = machine.arm_game_enter(target(1));

    assert!(!machine.observe_game_enter(generation, keys(true)).unwrap());
    assert!(!machine.observe_game_enter(generation, keys(true)).unwrap());
    assert!(!machine.observe_game_enter(generation, keys(false)).unwrap());
    assert!(!machine.observe_game_enter(generation, keys(true)).unwrap());
    assert!(!machine.observe_game_enter(generation, keys(true)).unwrap());
    assert!(machine.observe_game_enter(generation, keys(false)).unwrap());
    assert_eq!(machine.snapshot().phase, SessionPhase::OpeningPanel);
}

#[test]
fn modified_enter_does_not_trigger() {
    let mut machine = SessionMachine::default();
    let generation = machine.arm_game_enter(target(1));
    machine.observe_game_enter(generation, keys(false)).unwrap();
    let mut modified = keys(true);
    modified.ctrl_down = true;
    assert!(!machine.observe_game_enter(generation, modified).unwrap());
    assert!(!machine.observe_game_enter(generation, keys(false)).unwrap());
    assert_eq!(
        machine.snapshot().phase,
        SessionPhase::WaitingGameEnterRelease
    );
}

#[test]
fn modified_enter_requires_a_fresh_unmodified_press() {
    let mut machine = SessionMachine::default();
    let generation = machine.arm_game_enter(target(1));
    machine.observe_game_enter(generation, keys(false)).unwrap();

    let mut modified_down = keys(true);
    modified_down.ctrl_down = true;
    assert!(!machine.observe_game_enter(generation, modified_down).unwrap());
    assert!(!machine.observe_game_enter(generation, keys(true)).unwrap());
    assert!(!machine.observe_game_enter(generation, keys(false)).unwrap());
    assert!(!machine.observe_game_enter(generation, keys(true)).unwrap());
    assert!(machine.observe_game_enter(generation, keys(false)).unwrap());
}

#[test]
fn stale_generation_cannot_mutate_new_session() {
    let mut machine = SessionMachine::default();
    let old = machine.begin_probe(target(1));
    let current = machine.begin_probe(target(2));
    assert_ne!(old, current);
    assert_eq!(
        machine.request_submit(old, "迟到文本".to_owned()),
        Err(SessionError::StaleGeneration)
    );
    assert_eq!(machine.snapshot().target, Some(target(2)));
}

#[test]
fn target_change_invalidates_session() {
    let mut machine = SessionMachine::default();
    let generation = machine.begin_probe(target(1));
    assert_eq!(
        machine.invalidate_target(generation, &target(2)),
        Err(SessionError::TargetChanged)
    );
    assert_eq!(machine.snapshot().phase, SessionPhase::Failed);
}

#[test]
fn submit_release_gates_injection_and_transaction_is_single() {
    let mut machine = SessionMachine::default();
    let target = target(1);
    let generation = machine.begin_probe(target.clone());
    machine.request_submit(generation, "草稿".to_owned()).unwrap();

    assert!(!machine.observe_submit_key(generation, keys(true)).unwrap());
    assert_eq!(
        machine.begin_injection(generation, &target),
        Err(SessionError::SubmitKeyStillDown)
    );
    assert!(machine.observe_submit_key(generation, keys(false)).unwrap());
    assert_eq!(machine.begin_injection(generation, &target).unwrap(), "草稿");
    assert_eq!(
        machine.begin_injection(generation, &target),
        Err(SessionError::InjectionInProgress)
    );
}

#[test]
fn failure_preserves_complete_draft_without_retry_transition() {
    let mut machine = SessionMachine::default();
    let target = target(1);
    let generation = machine.begin_probe(target.clone());
    machine
        .request_submit(generation, "完整草稿🙂".to_owned())
        .unwrap();
    machine.observe_submit_key(generation, keys(false)).unwrap();
    machine.begin_injection(generation, &target).unwrap();
    machine.fail_injection(generation, "部分发送失败").unwrap();

    let snapshot = machine.snapshot();
    assert_eq!(snapshot.phase, SessionPhase::Failed);
    assert_eq!(snapshot.draft, "完整草稿🙂");
    assert_eq!(snapshot.last_error.as_deref(), Some("部分发送失败"));
}

#[test]
fn successful_injection_keeps_target_for_next_message() {
    let mut machine = SessionMachine::default();
    let target = target(1);
    let generation = machine.begin_probe(target.clone());

    machine.request_submit(generation, "第一句".to_owned()).unwrap();
    machine.observe_submit_key(generation, keys(false)).unwrap();
    machine.begin_injection(generation, &target).unwrap();
    machine.complete_injection(generation).unwrap();

    let after_first = machine.snapshot();
    assert_eq!(after_first.phase, SessionPhase::Editing);
    assert_eq!(after_first.target, Some(target.clone()));
    assert!(after_first.draft.is_empty());
    assert_eq!(after_first.generation, generation);

    machine.request_submit(generation, "第二句".to_owned()).unwrap();
    machine.observe_submit_key(generation, keys(false)).unwrap();
    assert_eq!(machine.begin_injection(generation, &target).unwrap(), "第二句");
    machine.complete_injection(generation).unwrap();
    assert_eq!(machine.snapshot().phase, SessionPhase::Editing);
    assert_eq!(machine.snapshot().target, Some(target));
}

#[test]
fn removes_line_breaks_nul_and_control_characters() {
    let input = "甲\r\n乙\0\u{0007}丙\u{007f}\u{0085}丁\u{2028}戊\u{2029}己";
    assert_eq!(clean_text(input), "甲乙丙丁戊己");
}

#[test]
fn counts_unicode_scalars_not_bytes_or_utf16_units() {
    assert_eq!(scalar_count("中𠮷🙂"), 3);
}

#[test]
fn chunks_by_scalar_without_splitting_surrogate_pairs() {
    let preview = preview_text("甲乙𠮷丙🙂丁", 100, 2).unwrap();
    assert_eq!(preview.scalar_count, 6);
    assert_eq!(preview.utf16_batches.len(), 3);
    assert_eq!(String::from_utf16(&preview.utf16_batches[0]).unwrap(), "甲乙");
    assert_eq!(String::from_utf16(&preview.utf16_batches[1]).unwrap(), "𠮷丙");
    assert_eq!(String::from_utf16(&preview.utf16_batches[2]).unwrap(), "🙂丁");
    assert_eq!(preview.utf16_batches[1].len(), 3);
    assert_eq!(preview.utf16_batches[2].len(), 3);
}

#[test]
fn validates_cleaned_length() {
    assert_eq!(preview_text("\n\0", 10, 5), Err(TextError::Empty));
    assert_eq!(
        preview_text("一二三", 2, 5),
        Err(TextError::TooLong { actual: 3, limit: 2 })
    );
}
