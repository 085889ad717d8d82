use helldivers2_cn_helper::config::AppConfig;
use helldivers2_cn_helper::injector::{integrity_diagnostic, IntegrityDiagnostic};
use helldivers2_cn_helper::ipc::{
    cancel_generation_check, ensure_integrity_compatible, handoff_target, map_target_error,
    probe_target, IpcErrorCode,
};
use helldivers2_cn_helper::monitor::{BufferedKeyEvent, FirstKeyBuffer, KeyboardEvent, ReplayStart};
use helldivers2_cn_helper::outcome::cancel_request;
use helldivers2_cn_helper::session::TargetIdentity;
use helldivers2_cn_helper::target::{
    diagnostic_for, is_hd2_process_name, looks_like_hd2_window, process_name_owner,
    retry_diagnostic, title_matches_keyword, TargetDiagnostic, TargetError,
};
use helldivers2_cn_helper::waits::{ReleaseWatch, SettlePoll, SettleWatch};

fn identity(hwnd: u64) -> TargetIdentity {
    TargetIdentity {
        hwnd,
        process_id: 7,
        thread_id: 8,
        process_creation_time: 9,
    }
}

#[test]
fn titles_match_the_keyword_in_any_case() {
    assert!(title_matches_keyword("HELLDIVERS™ 2", "HELLDIVERS"));
    assert!(title_matches_keyword("HELLDIVERS-input-test.txt - 记事本", " helldivers "));
    assert!(!title_matches_keyword("Notepad", "HELLDIVERS"));
    assert!(title_matches_keyword("anything", "   "));
}

#[test]
fn diagnostics_record_what_windows_reported() {
    let diagnostic = diagnostic_for(identity(1), "HELLDIVERS™ 2".to_owned(), "HELLDIVERS", true, true, false, false);
    assert!(diagnostic.supported);
    assert!(diagnostic.title_matches);
    assert_eq!(diagnostic.identity, Some(identity(1)));
    assert!(retry_diagnostic(TargetError::ProcessUnavailable(0), 3));
    assert!(!retry_diagnostic(TargetError::ProcessUnavailable(0), 4));
    assert!(!retry_diagnostic(TargetError::ProcessUnavailable(5), 0));
    assert!(!retry_diagnostic(TargetError::NoForegroundWindow, 0));
}

#[test]
fn the_process_name_fallback_needs_a_game_window_and_one_process() {
    assert!(looks_like_hd2_window("Stingray_Window", ""));
    assert!(looks_like_hd2_window("Other", "Helldivers 2"));
    assert!(!looks_like_hd2_window("Other", "Notepad"));
    assert!(is_hd2_process_name("HellDivers2.EXE"));
    assert!(!is_hd2_process_name("helldivers2.exe.bak"));
    assert_eq!(process_name_owner("stingray_window", "", &[42]), Ok(42));
    assert_eq!(
        process_name_owner("stingray_window", "", &[42, 43]),
        Err(TargetError::ProcessUnavailable(0))
    );
    assert_eq!(
        process_name_owner("stingray_window", "", &[0]),
        Err(TargetError::ProcessUnavailable(0))
    );
    assert_eq!(process_name_owner("Notepad", "notes", &[42]), Err(TargetError::ProcessUnavailable(0)));
}

#[test]
fn target_errors_name_the_win32_code() {
    let error = map_target_error(TargetError::ProcessUnavailable(5));
    assert_eq!(error.code, IpcErrorCode::WindowUnavailable);
    assert_eq!(error.message, "无法读取当前前台窗口的进程身份（Win32 错误码 5）");
    assert_eq!(
        map_target_error(TargetError::ProcessTimeUnavailable(87)).message,
        "无法读取当前前台进程的创建时间（Win32 错误码 87）"
    );
    assert_eq!(
        map_target_error(TargetError::NoForegroundWindow).message,
        "系统当前没有可读取的前台窗口"
    );
}

#[test]
fn probes_need_a_valid_identified_target_with_compatible_rights() {
    let diagnostic = diagnostic_for(identity(1), "HELLDIVERS".to_owned(), "HELLDIVERS", true, true, false, false);
    assert_eq!(probe_target(&diagnostic), Ok(identity(1)));
    let anonymous = TargetDiagnostic {
        identity: None,
        ..diagnostic.clone()
    };
    assert_eq!(probe_target(&anonymous).unwrap_err().message, "目标窗口身份不可用");
    let hidden = TargetDiagnostic {
        visible: false,
        ..diagnostic
    };
    assert_eq!(probe_target(&hidden).unwrap_err().code, IpcErrorCode::WindowNotVisible);

    assert_eq!(ensure_integrity_compatible(&integrity_diagnostic(0x3000, 0x2000)), Ok(()));
    assert_eq!(
        ensure_integrity_compatible(&integrity_diagnostic(0x2000, 0x3000)).unwrap_err().code,
        IpcErrorCode::IntegrityIncompatible
    );
    let unknown = IntegrityDiagnostic {
        supported: false,
        current_level: None,
        target_level: None,
        compatible: None,
    };
    assert!(ensure_integrity_compatible(&unknown).is_err());
}

#[test]
fn handoffs_prefer_the_last_target() {
    assert_eq!(handoff_target(Some(identity(1)), Some(identity(2))), Ok(identity(1)));
    assert_eq!(handoff_target(None, Some(identity(2))), Ok(identity(2)));
    assert_eq!(handoff_target(None, None).unwrap_err().message, "没有可恢复的 HD2 目标");
}

#[test]
fn cancels_must_name_the_current_session() {
    assert_eq!(cancel_generation_check(None, 3), Ok(()));
    assert_eq!(cancel_generation_check(Some("3"), 3), Ok(()));
    assert_eq!(
        cancel_generation_check(Some("2"), 3).unwrap_err().message,
        "取消请求对应的会话已经失效"
    );
    assert_eq!(cancel_generation_check(Some("x"), 3).unwrap_err().message, "会话编号无效");
    assert_eq!(cancel_request(true, true), (false, "requested"));
    assert_eq!(cancel_request(false, true), (true, "pending_armed"));
    assert_eq!(cancel_request(false, false), (false, "no_active_transaction"));
}

#[test]
fn keys_count_as_released_after_three_clean_samples() {
    let mut watch = ReleaseWatch::new();
    assert!(!watch.observe(true));
    assert!(!watch.observe(true));
    assert!(!watch.observe(false));
    assert!(!watch.observe(true));
    assert!(!watch.observe(true));
    assert!(watch.observe(true));
}

#[test]
fn the_chat_settles_after_a_steady_foreground() {
    let mut watch = SettleWatch::new();
    assert_eq!(watch.observe(true, 1_000), SettlePoll::Wait);
    assert_eq!(watch.observe(true, 1_050), SettlePoll::Wait);
    assert_eq!(watch.observe(false, 1_075), SettlePoll::Restore);
    assert_eq!(watch.observe(true, 1_100), SettlePoll::Wait);
    assert_eq!(watch.observe(true, 1_199), SettlePoll::Wait);
    assert_eq!(watch.observe(true, 1_200), SettlePoll::Settled);
}

#[test]
fn replays_keep_the_keys_until_they_went_out() {
    let mut buffer = FirstKeyBuffer::new();
    buffer.arm_first_key_buffer(0);
    let event = KeyboardEvent {
        vk_code: 0x41,
        scan_code: 0x1E,
        extended: false,
    };
    assert!(buffer.try_buffer_event(event, false, true, 10));
    assert_eq!(buffer.begin_replay(false, 20), ReplayStart::Deferred { held: 1 });
    let events = match buffer.begin_replay(true, 30) {
        ReplayStart::Replay(events) => events,
        other => panic!("unexpected {other:?}"),
    };
    assert_eq!(
        events,
        vec![BufferedKeyEvent {
            vk_code: 0x41,
            scan_code: 0x1E,
            extended: false,
            key_up: false
        }]
    );
    assert_eq!(buffer.begin_replay(true, 31), ReplayStart::Empty);
    assert_eq!(buffer.finish_replay(&events, 0, 40), -1);
    assert_eq!(buffer.buffered_key_count(), 1);
    let events = match buffer.begin_replay(true, 50) {
        ReplayStart::Replay(events) => events,
        other => panic!("unexpected {other:?}"),
    };
    assert_eq!(buffer.finish_replay(&events, 1, 60), 1);
    assert_eq!(buffer.buffered_key_count(), 0);
    assert!(buffer.first_key_buffer_armed());
}

#[test]
fn default_configuration_has_no_violation() {
    assert_eq!(AppConfig::default().validate(), Ok(()));
}
