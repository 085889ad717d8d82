use helldivers2_cn_helper::ipc::{
    client_diagnostic_stage, map_session_error, map_translation_error, parse_generation,
    release_url_is_expected, session_target, update_check_view, validate_target, IpcErrorCode,
};
use helldivers2_cn_helper::logs::{
    diagnostic_environment_summary, environment_summary, log_line, needs_compaction,
    os_version_text, retained_log_tail, single_line, visible_log_tail, MAX_LOG_BYTES,
    MAX_LOG_CHARS, RETAIN_LOG_BYTES,
};
use helldivers2_cn_helper::session::{SessionError, SessionPhase, SessionSnapshot, TargetIdentity};
use helldivers2_cn_helper::target::{validate_foreground, TargetDiagnostic, TargetError};
use helldivers2_cn_helper::translation::TranslationError;

fn identity() -> TargetIdentity {
    TargetIdentity {
        hwnd: 0x10,
        process_id: 20,
        thread_id: 30,
        process_creation_time: 40,
    }
}

fn diagnostic() -> TargetDiagnostic {
    TargetDiagnostic {
        supported: true,
        identity: Some(identity()),
        title: "HELLDIVERS™ 2".to_owned(),
        title_matches: true,
        is_window: true,
        visible: true,
        minimized: false,
        cloaked: false,
    }
}

#[test]
fn session_errors_map_to_codes() {
    let error = map_session_error(SessionError::StaleGeneration);
    assert_eq!(error.code, IpcErrorCode::InvalidSession);
    assert_eq!(error.message, "会话已失效或状态不允许此操作");
    assert_eq!(map_session_error(SessionError::TargetChanged).code, IpcErrorCode::TargetChanged);
    assert_eq!(
        map_session_error(SessionError::SubmitKeyStillDown).code,
        IpcErrorCode::SubmitKeyStillDown
    );
    assert_eq!(
        map_session_error(SessionError::InjectionInProgress).message,
        "已有发送事务正在进行"
    );
}

#[test]
fn translation_errors_map_to_codes() {
    assert_eq!(
        map_translation_error(TranslationError::MissingModel).message,
        "请先填写翻译模型名"
    );
    assert_eq!(
        map_translation_error(TranslationError::InvalidRegion).code,
        IpcErrorCode::InvalidCaptureRegion
    );
    let request = map_translation_error(TranslationError::Request("timeout".to_owned()));
    assert_eq!(request.code, IpcErrorCode::ApiRequestFailed);
    assert_eq!(request.message, "翻译接口请求失败：timeout");
    assert_eq!(
        map_translation_error(TranslationError::Response("聊天区域未识别到文字".to_owned())).code,
        IpcErrorCode::OcrEmpty
    );
    assert_eq!(
        map_translation_error(TranslationError::Response("OCR 语言 en 不可用".to_owned())).code,
        IpcErrorCode::OcrUnavailable
    );
    assert_eq!(
        map_translation_error(TranslationError::Response("bad json".to_owned())).code,
        IpcErrorCode::ApiResponseInvalid
    );
    assert_eq!(
        map_translation_error(TranslationError::Storage("disk".to_owned())).message,
        "翻译设置读写失败：disk"
    );
}

#[test]
fn targets_are_checked_in_order() {
    assert_eq!(validate_target(&diagnostic()), Ok(()));
    let mut d = diagnostic();
    d.cloaked = true;
    assert_eq!(validate_target(&d).unwrap_err().code, IpcErrorCode::WindowCloaked);
    d.minimized = true;
    assert_eq!(validate_target(&d).unwrap_err().code, IpcErrorCode::WindowMinimized);
    d.visible = false;
    assert_eq!(validate_target(&d).unwrap_err().code, IpcErrorCode::WindowNotVisible);
    d.title_matches = false;
    assert_eq!(validate_target(&d).unwrap_err().code, IpcErrorCode::TargetNotMatched);
}

#[test]
fn the_foreground_must_still_be_the_captured_window() {
    assert_eq!(validate_foreground(&Ok(diagnostic()), &identity()), Ok(true));
    let mut other = identity();
    other.hwnd = 0x11;
    assert_eq!(validate_foreground(&Ok(diagnostic()), &other), Ok(false));
    let mut d = diagnostic();
    d.minimized = true;
    assert_eq!(validate_foreground(&Ok(d), &identity()), Ok(false));
    assert_eq!(
        validate_foreground(&Err(TargetError::ProcessUnavailable(7)), &identity()),
        Err(TargetError::ProcessUnavailable(7))
    );
}

#[test]
fn session_targets_need_the_current_generation() {
    let snapshot = SessionSnapshot {
        generation: 7,
        phase: SessionPhase::Idle,
        target: Some(identity()),
        draft: String::new(),
        last_error: None,
    };
    assert_eq!(session_target("7", &snapshot), Ok(identity()));
    assert_eq!(session_target("6", &snapshot).unwrap_err().message, "目标会话已经失效");
    assert_eq!(session_target("x", &snapshot).unwrap_err().message, "会话编号无效");
    assert_eq!(parse_generation("18446744073709551615"), Ok(u64::MAX));
    assert!(parse_generation("18446744073709551616").is_err());
    let empty = SessionSnapshot {
        target: None,
        ..snapshot
    };
    assert_eq!(session_target("7", &empty).unwrap_err().message, "目标会话不存在");
}

#[test]
fn client_stages_are_restricted() {
    assert_eq!(client_diagnostic_stage(" overlay.open ").unwrap(), "client.overlay.open");
    assert!(client_diagnostic_stage("").is_err());
    assert!(client_diagnostic_stage("bad stage").is_err());
    assert!(client_diagnostic_stage(&"a".repeat(65)).is_err());
    assert!(client_diagnostic_stage(&"a".repeat(64)).is_ok());
}

#[test]
fn release_urls_must_be_this_projects() {
    assert!(release_url_is_expected(
        "https://github.com/fiatlux2333/Helldivers2-Chinese-Helper/releases/tag/v1.0.0"
    ));
    assert!(!release_url_is_expected("https://example.com/releases/"));
}

#[test]
fn log_lines_are_single_lines() {
    assert_eq!(single_line("a\r\nb"), "a  b");
    assert_eq!(log_line(42, "stage", "msg"), "[42][stage] msg\n");
}

#[test]
fn logs_are_compacted_at_a_character_boundary() {
    assert!(!needs_compaction(MAX_LOG_BYTES));
    assert!(needs_compaction(MAX_LOG_BYTES + 1));
    assert_eq!(retained_log_tail(b"short"), b"short".to_vec());
    let mut content = vec![b'a'; 10];
    content.extend("中".repeat(RETAIN_LOG_BYTES / 3 + 1).as_bytes());
    let tail = retained_log_tail(&content);
    assert!(tail.len() <= RETAIN_LOG_BYTES);
    assert!(std::str::from_utf8(&tail).is_ok());
    assert_eq!(tail.len(), RETAIN_LOG_BYTES - RETAIN_LOG_BYTES % 3);
}

#[test]
fn only_the_log_tail_is_shown() {
    assert_eq!(visible_log_tail("abc"), "abc");
    let long = format!("x{}", "y".repeat(MAX_LOG_CHARS));
    assert_eq!(visible_log_tail(&long), "y".repeat(MAX_LOG_CHARS));
}

#[test]
fn environment_summaries_list_layouts_in_hex() {
    assert_eq!(os_version_text(10, 0, 22631), "10.0.22631");
    assert_eq!(
        environment_summary("10.0.22631", &[0x0409_0409, 0x0804_0804], "high"),
        "windows=10.0.22631 layouts=[0x4090409,0x8040804] integrity=high"
    );
    assert_eq!(environment_summary("x", &[], "y"), "windows=x layouts=[] integrity=y");
    assert_eq!(diagnostic_environment_summary(), "unsupported_platform");
}

const RELEASE_PAGE: &str = "https://github.com/fiatlux2333/Helldivers2-Chinese-Helper/releases/tag/v0.10.0";

#[test]
fn an_update_is_offered_for_a_greater_release() {
    let view = update_check_view("0.9.0", " v0.10.0 ", RELEASE_PAGE.to_owned()).unwrap();
    assert_eq!(view.current_version, "0.9.0");
    assert_eq!(view.latest_version, "0.10.0");
    assert!(view.update_available);
    assert_eq!(view.release_url, RELEASE_PAGE);
}

#[test]
fn no_update_is_offered_for_the_same_or_an_older_release() {
    let same = update_check_view("v1.2.3", "V1.2.3", RELEASE_PAGE.to_owned()).unwrap();
    assert!(!same.update_available);
    let older = update_check_view("1.2.3", "1.2.3-beta.1", RELEASE_PAGE.to_owned()).unwrap();
    assert_eq!(older.latest_version, "1.2.3-beta.1");
    assert!(!older.update_available);
}

#[test]
fn an_update_check_refuses_foreign_pages_and_bad_tags() {
    let foreign = update_check_view("0.9.0", "1.0.0", "https://example.com/releases/".to_owned()).unwrap_err();
    assert_eq!(foreign.code, IpcErrorCode::ApiResponseInvalid);
    assert_eq!(foreign.message, "GitHub 返回了非预期的下载地址");
    let current = update_check_view("dev", "1.0.0", RELEASE_PAGE.to_owned()).unwrap_err();
    assert_eq!(current.code, IpcErrorCode::InternalState);
    assert!(current.message.starts_with("当前版本无效："));
    let latest = update_check_view("0.9.0", "latest", RELEASE_PAGE.to_owned()).unwrap_err();
    assert_eq!(latest.code, IpcErrorCode::ApiResponseInvalid);
    assert!(latest.message.starts_with("GitHub 版本号无效："));
}
