use helldivers2_cn_helper::chat::ParsedChatLine;
use helldivers2_cn_helper::delivery::{DeliveryAction, TextDelivery};
use helldivers2_cn_helper::ipc::quick_shout_fallback_targets;
use helldivers2_cn_helper::outcome::{apply_follow_up, stratagem_preflight, transaction_preflight};
use helldivers2_cn_helper::injector::{
    alt_code_events, cancel_open_chat, empty_report, finish_cancel_open_chat, stratagem_plan, InjectionError, KeyInput,
    StratagemKey, StratagemPress, ESCAPE_SCAN_CODE,
};
use helldivers2_cn_helper::ipc::IpcErrorCode;
use helldivers2_cn_helper::outcome::{preflight_step, PreflightCheck, PreflightStage, SessionFollowUp};
use helldivers2_cn_helper::session::{SessionError, SessionMachine, SessionPhase, SessionSnapshot, TargetIdentity};
use helldivers2_cn_helper::tracker::ChatLineTracker;
use helldivers2_cn_helper::translation::{apply_settings_text, SettingsText};

fn target() -> TargetIdentity {
    TargetIdentity { hwnd: 7, process_id: 10, thread_id: 20, process_creation_time: 30 }
}

fn reachable_shape(s: &SessionSnapshot) -> bool {
    let failed = s.phase == SessionPhase::Failed;
    failed == s.last_error.is_some()
        && (s.phase != SessionPhase::Idle || s.target.is_none())
        && (s.target.is_some() || s.phase == SessionPhase::Idle || failed)
        && (s.draft.is_empty()
            || matches!(
                s.phase,
                SessionPhase::WaitingSubmitKeyRelease
                    | SessionPhase::RestoringTarget
                    | SessionPhase::Injecting
                    | SessionPhase::Failed
                    | SessionPhase::Editing
            ))
}

#[test]
fn every_session_step_keeps_a_reachable_shape() {
    let mut machine = SessionMachine::new();
    assert!(reachable_shape(&machine.snapshot()));
    let generation = machine.begin_probe(target());
    assert!(reachable_shape(&machine.snapshot()));
    machine.request_submit(generation, "你好".to_owned()).unwrap();
    assert!(reachable_shape(&machine.snapshot()));
    let _ = machine.invalidate_target(generation, &TargetIdentity { hwnd: 8, ..target() });
    let failed = machine.snapshot();
    assert_eq!(failed.phase, SessionPhase::Failed);
    assert_eq!(failed.draft, "你好");
    assert!(reachable_shape(&failed));
    machine.cancel();
    let idle = machine.snapshot();
    assert_eq!(idle.phase, SessionPhase::Idle);
    assert!(reachable_shape(&idle));
}

#[test]
fn escape_is_never_sent_to_an_unverified_window() {
    let report = empty_report("SendInput", 0, 0);
    assert_eq!(cancel_open_chat(false, report.clone()), Err(InjectionError::TargetChanged(report.clone())));
    let keys = cancel_open_chat(true, report).unwrap();
    assert_eq!(
        keys,
        [
            KeyInput { virtual_key: 0, scan: ESCAPE_SCAN_CODE, flags: 0x0008, extra_info: 0 },
            KeyInput { virtual_key: 0, scan: ESCAPE_SCAN_CODE, flags: 0x000a, extra_info: 0 },
        ]
    );
}

#[test]
fn a_half_sent_escape_is_a_failed_send() {
    let report = empty_report("SendInput", 0, 0);
    assert_eq!(finish_cancel_open_chat(report.clone(), 2, true), Ok(()));
    match finish_cancel_open_chat(report.clone(), 1, false) {
        Err(InjectionError::SendInputFailed(r)) => assert!(r.key_state_uncertain),
        other => panic!("unexpected {other:?}"),
    }
    match finish_cancel_open_chat(report, 0, false) {
        Err(InjectionError::SendInputFailed(r)) => assert!(!r.key_state_uncertain),
        other => panic!("unexpected {other:?}"),
    }
}

#[test]
fn preflight_checks_run_in_order() {
    let mut stage = Some(PreflightStage::Gate);
    let mut seen = Vec::new();
    while let Some(s) = stage {
        seen.push(s);
        stage = preflight_step(s, PreflightCheck::Passed).unwrap();
    }
    assert_eq!(
        seen,
        vec![
            PreflightStage::Gate,
            PreflightStage::InputState,
            PreflightStage::KeyRelease,
            PreflightStage::KeySample,
            PreflightStage::Restore,
            PreflightStage::Foreground,
            PreflightStage::Caps,
        ]
    );
}

#[test]
fn preflight_refusals_name_their_error_and_session_follow_up() {
    let (e, f) = preflight_step(PreflightStage::Gate, PreflightCheck::Failed).unwrap_err();
    assert_eq!((e.code, e.message.as_str(), f), (IpcErrorCode::InvalidSession, "已有填字事务正在进行", None));
    let (e, f) = preflight_step(PreflightStage::InputState, PreflightCheck::Failed).unwrap_err();
    assert_eq!(e.code, IpcErrorCode::InputStateUncertain);
    assert_eq!(f, None);
    let (e, f) = preflight_step(PreflightStage::Restore, PreflightCheck::Unavailable).unwrap_err();
    assert_eq!(e.code, IpcErrorCode::WindowUnavailable);
    assert_eq!(f, Some(SessionFollowUp::Fail("无法恢复目标窗口".to_owned())));
    let (e, f) = preflight_step(PreflightStage::Restore, PreflightCheck::Failed).unwrap_err();
    assert_eq!(e.code, IpcErrorCode::TargetChanged);
    assert_eq!(f, Some(SessionFollowUp::Abort("系统暂时拒绝恢复目标窗口前台".to_owned())));
    let (e, f) = preflight_step(PreflightStage::Foreground, PreflightCheck::Cancelled).unwrap_err();
    assert_eq!((e.code, e.message.as_str()), (IpcErrorCode::InjectionCancelled, "发送已被取消，文字尚未注入"));
    assert_eq!(f, Some(SessionFollowUp::Abort("发送已被用户取消".to_owned())));
    let (e, _) = preflight_step(PreflightStage::Foreground, PreflightCheck::Failed).unwrap_err();
    assert_eq!(e.code, IpcErrorCode::TargetChanged);
    let (e, f) = preflight_step(PreflightStage::Caps, PreflightCheck::Failed).unwrap_err();
    assert_eq!(e.code, IpcErrorCode::CapsProtectionFailed);
    assert_eq!(f, Some(SessionFollowUp::Abort("CapsLock 输入法保护未通过发送前自检".to_owned())));
    let (e, _) = preflight_step(PreflightStage::KeySample, PreflightCheck::Failed).unwrap_err();
    assert_eq!((e.code, e.message.as_str()), (IpcErrorCode::SubmitKeyStillDown, "提交键或修饰键重新进入按下状态"));
}

fn line(speaker: &str, message: &str) -> ParsedChatLine {
    ParsedChatLine { speaker: speaker.to_owned(), message: message.to_owned() }
}

#[test]
fn a_capture_commits_only_after_a_translation() {
    let mut tracker = ChatLineTracker::default();
    let first = vec![line("Alpha", "hello there")];
    let pending = tracker.begin_capture(1, &first);
    assert_eq!(pending, first);
    // The translation failed: the same lines are offered again.
    assert_eq!(tracker.finish_capture(1, &first, Err::<(), &str>("offline")), Err("offline"));
    assert_eq!(tracker.begin_capture(1, &first), first);
    assert_eq!(tracker.finish_capture(1, &first, Ok::<u8, ()>(3)), Ok(3));
    // Nothing new: committed at once, nothing to translate.
    assert!(tracker.begin_capture(1, &first).is_empty());
    let second = vec![line("Alpha", "hello there"), line("Bravo", "on my way")];
    assert_eq!(tracker.begin_capture(1, &second), vec![line("Bravo", "on my way")]);
}

fn text(api_url: &str, ocr_language: &str) -> SettingsText {
    SettingsText {
        api_url: api_url.to_owned(),
        proxy_url: " ".to_owned(),
        model: " gpt-4o-mini ".to_owned(),
        ocr_language: ocr_language.to_owned(),
        capture_hotkey: " F8 ".to_owned(),
        incoming_prompt: "\n翻译成中文\n".to_owned(),
        outgoing_prompt: " Translate ".to_owned(),
    }
}

#[test]
fn a_settings_update_is_trimmed_and_keeps_the_key() {
    let current = text("https://a.example/v1", "zh-Hans");
    let (next, key, changed) =
        apply_settings_text(&current, "sk-old", &text(" https://b.example/v1 ", " zh-Hans "), None);
    assert_eq!(next.api_url, "https://b.example/v1");
    assert_eq!(next.proxy_url, "");
    assert_eq!(next.model, "gpt-4o-mini");
    assert_eq!(next.capture_hotkey, "F8");
    assert_eq!(next.incoming_prompt, "翻译成中文");
    assert_eq!(next.outgoing_prompt, "Translate");
    assert_eq!(key, "sk-old");
    assert!(!changed);
    let (_, key, changed) =
        apply_settings_text(&current, "sk-old", &text("x", "en-US"), Some("sk-new".to_owned()));
    assert_eq!(key, "sk-new");
    assert!(changed);
}

#[test]
fn a_stratagem_macro_refuses_in_order() {
    let busy = stratagem_preflight(false, true, 0).unwrap_err();
    assert_eq!((busy.code, busy.message.as_str()), (IpcErrorCode::InvalidSession, "已有输入事务正在进行"));
    let doubt = stratagem_preflight(true, true, 0).unwrap_err();
    assert_eq!(doubt.code, IpcErrorCode::InputStateUncertain);
    let empty = stratagem_preflight(true, false, 0).unwrap_err();
    assert_eq!((empty.code, empty.message.as_str()), (IpcErrorCode::ApiConfiguration, "战备方向序列为空，请先配置方向键"));
    assert_eq!(stratagem_preflight(true, false, 4), Ok(()));
}

#[test]
fn a_quick_shout_refuses_a_busy_gate_then_a_doubtful_key_state() {
    assert_eq!(transaction_preflight(false, true).unwrap_err().code, IpcErrorCode::InvalidSession);
    assert_eq!(transaction_preflight(true, true).unwrap_err().code, IpcErrorCode::InputStateUncertain);
    assert_eq!(transaction_preflight(true, false), Ok(()));
}

#[test]
fn a_quick_shout_always_ends_with_enter() {
    let mut d = TextDelivery::quick_shout(0, vec![1], 1, 0);
    d.finish_step();
    d.record_send(2, 2, 0);
    d.finish_step();
    assert_eq!(d.next_action(), DeliveryAction::PressEnter);
}

#[test]
fn quick_shout_fallbacks_try_the_last_target_then_the_session() {
    let other = TargetIdentity { hwnd: 9, ..target() };
    assert_eq!(quick_shout_fallback_targets(Some(target()), Some(other)), vec![target(), other]);
    assert_eq!(quick_shout_fallback_targets(Some(target()), Some(target())), vec![target()]);
    assert_eq!(quick_shout_fallback_targets(None, Some(other)), vec![other]);
    assert!(quick_shout_fallback_targets(None, None).is_empty());
}

#[test]
fn a_stratagem_plan_opens_the_menu_then_taps_each_direction() {
    let menu = StratagemKey { virtual_key: 0xA2, scan_code: 0x1D, extended: false };
    let up = StratagemKey { virtual_key: 0x57, scan_code: 0x11, extended: false };
    let down = StratagemKey { virtual_key: 0x53, scan_code: 0x1F, extended: false };
    let p = |key, key_up, direction, before, after| StratagemPress { key, key_up, direction, pause_before_ms: before, pause_after_ms: after };
    assert_eq!(
        stratagem_plan(menu, &[up, down], true, 30, 200, 40),
        vec![
            p(menu, true, None, 0, 10),
            p(menu, false, None, 0, 200),
            p(up, false, Some(0), 0, 30),
            p(up, true, Some(0), 0, 40),
            p(down, false, Some(1), 0, 30),
            p(down, true, Some(1), 0, 40),
            p(menu, true, None, 50, 0),
        ]
    );
    assert_eq!(
        stratagem_plan(menu, &[up], false, u64::MAX, 200, 40),
        vec![
            p(menu, true, None, 0, 10),
            p(menu, false, None, 0, u64::MAX),
            p(menu, true, None, 0, 200),
            p(up, false, Some(0), 0, u64::MAX),
            p(up, true, Some(0), 0, 40),
        ]
    );
}

#[test]
fn an_alt_code_holds_alt_over_the_numpad_digits() {
    let key = |scan: u16, up: bool| KeyInput { virtual_key: 0, scan, flags: if up { 0x000a } else { 0x0008 }, extra_info: 0 };
    let mut expected = vec![key(0x38, false)];
    for scan in [0x4B, 0x4C, 0x50, 0x4F, 0x47] {
        expected.push(key(scan, false));
        expected.push(key(scan, true));
    }
    expected.push(key(0x38, true));
    assert_eq!(alt_code_events(45217), expected);
}

#[test]
fn a_withdrawn_submit_keeps_the_target_and_the_draft() {
    let mut machine = SessionMachine::new();
    let generation = machine.begin_probe(target());
    assert_eq!(machine.abort_submit(generation), Err(SessionError::InvalidPhase));
    machine.request_submit(generation, "你好".to_owned()).unwrap();
    assert_eq!(machine.abort_submit(generation + 1), Err(SessionError::StaleGeneration));
    machine.abort_submit(generation).unwrap();
    let snapshot = machine.snapshot();
    assert_eq!(snapshot.phase, SessionPhase::Editing);
    assert_eq!(snapshot.target, Some(target()));
    assert_eq!(snapshot.draft, "你好");
    assert_eq!(snapshot.last_error, None);
    assert!(reachable_shape(&snapshot));
    // The draft can be submitted again.
    machine.request_submit(generation, "你好".to_owned()).unwrap();
    assert_eq!(machine.snapshot().phase, SessionPhase::WaitingSubmitKeyRelease);
}

#[test]
fn follow_ups_drive_the_session() {
    let mut machine = SessionMachine::new();
    let generation = machine.begin_probe(target());
    machine.request_submit(generation, "a".to_owned()).unwrap();
    apply_follow_up(&mut machine, generation, &SessionFollowUp::Abort("发送已被用户取消".to_owned())).unwrap();
    assert_eq!(machine.snapshot().phase, SessionPhase::Editing);
    assert_eq!(
        apply_follow_up(&mut machine, generation, &SessionFollowUp::Complete),
        Err(SessionError::InvalidPhase)
    );
    apply_follow_up(&mut machine, generation, &SessionFollowUp::Fail("无法恢复目标窗口".to_owned())).unwrap();
    let snapshot = machine.snapshot();
    assert_eq!(snapshot.phase, SessionPhase::Failed);
    assert_eq!(snapshot.last_error.as_deref(), Some("无法恢复目标窗口"));
    assert_eq!(
        apply_follow_up(&mut machine, generation + 1, &SessionFollowUp::Complete),
        Err(SessionError::StaleGeneration)
    );
}

#[test]
fn a_release_tag_gives_its_own_version() {
    let version = helldivers2_cn_helper::ipc::parse_release_version(" v1.2.3-rc.1 ").unwrap();
    assert_eq!(version, semver::Version::parse("1.2.3-rc.1").unwrap());
    let error = helldivers2_cn_helper::ipc::parse_release_version("latest").unwrap_err();
    assert_eq!(error, semver::Version::parse("latest").unwrap_err().to_string());
    let page = "https://github.com/fiatlux2333/Helldivers2-Chinese-Helper/releases/tag/v1.0.0".to_owned();
    let failed = helldivers2_cn_helper::ipc::update_check_view("1.0.0", "latest", page).unwrap_err();
    assert_eq!(failed.message, format!("GitHub 版本号无效：{error}"));
}
