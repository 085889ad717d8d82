use helldivers2_cn_helper::injector::{
    empty_report, record_alt_code_failure, record_partial_text, record_stratagem_press_failure, StratagemKey, StratagemPress,
    record_submit_failure, record_target_lost, resolve_stratagem_keys,
    select_simplified_chinese_layout, InjectionError, InjectionReport,
};
use helldivers2_cn_helper::ipc::IpcErrorCode;
use helldivers2_cn_helper::outcome::{
    cancel_chat_caps_check, cancel_chat_outcome, ensure_input_state_certain, foreground_poll,
    probe_injection_outcome, quick_shout_outcome, stratagem_outcome, ForegroundPoll,
    SessionFollowUp,
};

fn report(text_successful_events: u32, partial: bool, uncertain: bool) -> InjectionReport {
    let mut report = empty_report("SendInput", 3, 8);
    report.text_successful_events = text_successful_events;
    report.partial_prefix_possible = partial;
    report.key_state_uncertain = uncertain;
    report
}

#[test]
fn probe_success_completes_the_session() {
    let (outcome, follow_up) = probe_injection_outcome(Ok(report(6, false, false)));
    assert_eq!(outcome.result, Ok(report(6, false, false)));
    assert!(!outcome.mark_input_uncertain);
    assert_eq!(follow_up, SessionFollowUp::Complete);
}

#[test]
fn probe_cancel_withdraws_the_submit() {
    let (outcome, follow_up) =
        probe_injection_outcome(Err(InjectionError::Cancelled(report(2, false, false))));
    let error = outcome.result.unwrap_err();
    assert_eq!(error.code, IpcErrorCode::InjectionCancelled);
    assert_eq!(error.message, "发送已被取消，后续文字与 Enter 未注入");
    assert!(error.partial_prefix_possible);
    assert_eq!(error.report.as_deref(), Some(&report(2, false, false)));
    assert_eq!(follow_up, SessionFollowUp::Abort("发送已被用户取消".to_owned()));
}

#[test]
fn probe_send_failure_with_uncertain_keys_marks_the_state() {
    let (outcome, follow_up) =
        probe_injection_outcome(Err(InjectionError::SendInputFailed(report(4, true, true))));
    let error = outcome.result.unwrap_err();
    assert_eq!(error.code, IpcErrorCode::InputStateUncertain);
    assert!(error.partial_prefix_possible);
    assert!(outcome.mark_input_uncertain);
    assert_eq!(
        follow_up,
        SessionFollowUp::Fail("SendInput 未完整发送本批事件".to_owned())
    );
}

#[test]
fn probe_send_failure_before_any_text_is_retryable() {
    let (outcome, _) =
        probe_injection_outcome(Err(InjectionError::SendInputFailed(report(0, true, false))));
    let error = outcome.result.unwrap_err();
    assert_eq!(error.code, IpcErrorCode::SendInputPartial);
    assert_eq!(error.message, "文字尚未写入游戏；请点击恢复输入状态后重试");
    assert!(!error.partial_prefix_possible);
    assert!(!outcome.mark_input_uncertain);
}

#[test]
fn probe_partial_send_reports_the_prefix_flag_of_the_report() {
    let (outcome, _) =
        probe_injection_outcome(Err(InjectionError::SendInputFailed(report(4, false, false))));
    let error = outcome.result.unwrap_err();
    assert_eq!(error.code, IpcErrorCode::SendInputPartial);
    assert_eq!(error.message, "文字可能只发送了部分前缀，请检查游戏输入框");
    assert!(!error.partial_prefix_possible);
}

#[test]
fn probe_submit_failure_keeps_the_uncertain_code() {
    let (outcome, _) =
        probe_injection_outcome(Err(InjectionError::SubmitFailed(report(4, true, true))));
    assert_eq!(outcome.result.unwrap_err().code, IpcErrorCode::InputStateUncertain);
    assert!(outcome.mark_input_uncertain);
    let (outcome, _) =
        probe_injection_outcome(Err(InjectionError::SubmitFailed(report(4, true, false))));
    assert_eq!(outcome.result.unwrap_err().code, IpcErrorCode::FinalSubmitFailed);
}

#[test]
fn probe_names_the_character_gbk_cannot_carry() {
    let (outcome, follow_up) = probe_injection_outcome(Err(
        InjectionError::UnrepresentableCharacter(report(0, false, false), '😀'),
    ));
    let error = outcome.result.unwrap_err();
    assert_eq!(error.code, IpcErrorCode::TextEncodingUnsupported);
    assert_eq!(
        error.message,
        "字符“😀”无法用 GBK 发送；请删除该字符或在设置中切换到 Unicode 稳定模式"
    );
    assert_eq!(
        follow_up,
        SessionFollowUp::Fail("文本包含 GBK 无法表示的字符".to_owned())
    );
}

#[test]
fn probe_names_an_unsupported_key() {
    let (outcome, _) = probe_injection_outcome(Err(InjectionError::UnsupportedKey(
        report(0, false, false),
        "F13".to_owned(),
    )));
    let error = outcome.result.unwrap_err();
    assert_eq!(error.code, IpcErrorCode::ApiConfiguration);
    assert_eq!(error.message, "不支持的输入按键：F13");
}

#[test]
fn quick_shout_open_chat_failure_follows_the_key_state() {
    let outcome = quick_shout_outcome(Err(InjectionError::OpenChatFailed(report(0, false, true))));
    assert_eq!(outcome.result.unwrap_err().code, IpcErrorCode::InputStateUncertain);
    assert!(outcome.mark_input_uncertain);
    let outcome = quick_shout_outcome(Err(InjectionError::OpenChatFailed(report(0, false, false))));
    let error = outcome.result.unwrap_err();
    assert_eq!(error.code, IpcErrorCode::SendInputPartial);
    assert_eq!(error.message, "无法准备游戏聊天框");
}

#[test]
fn quick_shout_target_change_needs_typed_text_for_a_prefix() {
    let outcome = quick_shout_outcome(Err(InjectionError::TargetChanged(report(0, true, false))));
    let error = outcome.result.unwrap_err();
    assert_eq!(error.code, IpcErrorCode::TargetChanged);
    assert_eq!(error.message, "喊话过程中 HD2 窗口已变化");
    assert!(!error.partial_prefix_possible);
}

#[test]
fn stratagem_failures_map_to_their_messages() {
    let outcome = stratagem_outcome(Err(InjectionError::SendInputFailed(report(0, false, true))));
    let error = outcome.result.unwrap_err();
    assert_eq!(error.message, "战备按键可能只输入了部分序列，请检查游戏状态");
    assert!(error.partial_prefix_possible);
    assert!(outcome.mark_input_uncertain);

    let outcome = stratagem_outcome(Err(InjectionError::OpenChatFailed(report(0, false, true))));
    let error = outcome.result.unwrap_err();
    assert_eq!(error.code, IpcErrorCode::SendInputPartial);
    assert_eq!(error.message, "战备输入失败");
    assert!(error.report.is_none());
    assert!(!outcome.mark_input_uncertain);

    let outcome = stratagem_outcome(Err(InjectionError::UnsupportedKey(
        report(0, false, false),
        "Pause".to_owned(),
    )));
    assert_eq!(outcome.result.unwrap_err().message, "不支持的战备按键：Pause");
}

#[test]
fn closing_the_chat_box_reports_its_errors() {
    assert_eq!(cancel_chat_outcome(Ok(())), Ok(()));
    let error = cancel_chat_outcome(Err(InjectionError::TargetChanged(report(0, false, false))))
        .unwrap_err();
    assert_eq!(error.code, IpcErrorCode::TargetChanged);
    assert_eq!(error.message, "取消输入前 HD2 窗口已变化");
    let error = cancel_chat_outcome(Err(InjectionError::SubmitFailed(report(0, false, false))))
        .unwrap_err();
    assert_eq!(error.message, "无法向游戏聊天框发送 Esc");
    assert!(error.report.is_none());
}

#[test]
fn a_faulted_caps_guard_still_lets_escape_through() {
    assert_eq!(cancel_chat_caps_check(true, false), Ok(()));
    assert_eq!(cancel_chat_caps_check(false, true), Ok(()));
    assert_eq!(
        cancel_chat_caps_check(false, false).unwrap_err().code,
        IpcErrorCode::CapsProtectionFailed
    );
}

#[test]
fn foreground_poll_orders_cancel_window_and_deadline() {
    assert_eq!(foreground_poll(true, true, true, 0, 10), ForegroundPoll::Cancelled);
    assert_eq!(foreground_poll(true, true, false, 0, 10), ForegroundPoll::Ready);
    assert_eq!(foreground_poll(false, true, false, 0, 10), ForegroundPoll::Cancelled);
    assert_eq!(foreground_poll(false, false, false, 10, 10), ForegroundPoll::TimedOut);
    assert_eq!(foreground_poll(false, false, true, 9, 10), ForegroundPoll::Retry);
}

#[test]
fn an_uncertain_key_state_blocks_new_sends() {
    assert_eq!(ensure_input_state_certain(false), Ok(()));
    assert_eq!(
        ensure_input_state_certain(true).unwrap_err().code,
        IpcErrorCode::InputStateUncertain
    );
}

#[test]
fn report_updates_record_where_a_send_stopped() {
    let mut r = report(0, false, false);
    record_target_lost(&mut r, 0);
    assert_eq!(r.failed_batch_index, Some(0));
    assert!(!r.partial_prefix_possible);
    r.successful_events = 2;
    record_target_lost(&mut r, 0);
    assert!(r.partial_prefix_possible);

    let mut r = report(0, false, false);
    r.successful_events = 1;
    record_partial_text(&mut r, 0, 1, false);
    assert!(r.partial_prefix_possible);
    assert!(r.key_state_uncertain);
    let mut r = report(0, false, false);
    record_partial_text(&mut r, 3, 0, false);
    assert_eq!(r.failed_batch_index, Some(3));
    assert!(!r.partial_prefix_possible);
    assert!(!r.key_state_uncertain);

    let mut r = report(0, false, false);
    r.successful_events = 4;
    record_alt_code_failure(&mut r, 2);
    assert_eq!(r.failed_batch_index, Some(2));
    assert!(r.partial_prefix_possible);

    let mut r = report(0, false, false);
    r.successful_events = 5;
    record_submit_failure(&mut r, 1, true);
    assert!(r.partial_prefix_possible);
    assert!(!r.key_state_uncertain);

    let key = StratagemKey { virtual_key: 0x57, scan_code: 0x11, extended: false };
    let down = StratagemPress { key, key_up: false, direction: Some(1), pause_before_ms: 0, pause_after_ms: 30 };
    let mut r = report(0, false, false);
    record_stratagem_press_failure(&mut r, 5, down, true, true);
    assert_eq!(r.failed_batch_index, Some(1));
    assert!(!r.partial_prefix_possible);
    assert!(r.key_state_uncertain);
    let menu_up = StratagemPress { key, key_up: true, direction: None, pause_before_ms: 0, pause_after_ms: 10 };
    let mut r = report(0, false, false);
    record_stratagem_press_failure(&mut r, 0, menu_up, true, false);
    assert!(!r.key_state_uncertain);
    assert_eq!(r.failed_batch_index, None);
    let mut r = report(0, false, false);
    r.successful_events = 2;
    record_stratagem_press_failure(&mut r, 2, menu_up, false, true);
    assert!(!r.key_state_uncertain);
    assert!(r.partial_prefix_possible);
}

#[test]
fn the_simplified_chinese_layout_is_found() {
    assert_eq!(select_simplified_chinese_layout(0x0804_0804, &[]), Some(0x0804_0804));
    assert_eq!(
        select_simplified_chinese_layout(0x0409_0409, &[0x0409_0409, 0xE00E_0804, 0x0804_0804]),
        Some(0xE00E_0804)
    );
    assert_eq!(select_simplified_chinese_layout(0x0409_0409, &[0x0411_0411]), None);
}

#[test]
fn stratagem_keys_resolve_or_name_the_first_unknown_code() {
    let base = report(0, false, false);
    let sequence = vec!["ArrowUp".to_owned(), "KeyS".to_owned()];
    let (menu, keys) = resolve_stratagem_keys("ControlLeft", &sequence, &base).unwrap();
    assert_eq!(menu.virtual_key, 0xA2);
    assert_eq!(keys.len(), 2);
    assert_eq!(keys[1].virtual_key, 0x53);

    let sequence = vec!["ArrowUp".to_owned(), "Bogus".to_owned(), "Nope".to_owned()];
    match resolve_stratagem_keys("ControlLeft", &sequence, &base) {
        Err(InjectionError::UnsupportedKey(r, key)) => {
            assert_eq!(r, base);
            assert_eq!(key, "Bogus");
        }
        other => panic!("unexpected {other:?}"),
    }
    match resolve_stratagem_keys("Nothing", &sequence, &base) {
        Err(InjectionError::UnsupportedKey(_, key)) => assert_eq!(key, "Nothing"),
        other => panic!("unexpected {other:?}"),
    }
}
