//! What a finished send means for the user interface: the error it sees,
//! what happens to the session, and whether the key state is in doubt.
use vstd::prelude::*;
use crate::chars::{chars_of, string_of};
use crate::injector::{InjectionError, InjectionReport};
use crate::ipc::{concat2, IpcError, IpcErrorCode};
use crate::session::{failed_with, is_fresh_snapshot, is_submitting, only_phase_changed, SessionError, SessionMachine, SessionPhase};

verus! {

/// What a probe send does to its session once the send has ended.
#[derive(Debug, Clone, PartialEq, Eq)]
pub enum SessionFollowUp {
    /// The injection completed.
    Complete,
    /// The submit is withdrawn with this reason; the target stays locked.
    Abort(String),
    /// The injection failed with this reason.
    Fail(String),
}

/// The result handed to the user interface, and whether the command must
/// remember that a key may still be held down.
#[derive(Debug, PartialEq, Eq)]
pub struct InjectionOutcome {
    pub result: Result<InjectionReport, IpcError>,
    pub mark_input_uncertain: bool,
}

/// `e` has this code, message and prefix flag, and carries `report`.
pub open spec fn report_error(e: IpcError, code: IpcErrorCode, message: Seq<char>, partial: bool, report: InjectionReport) -> bool {
    &&& e.code == code
    &&& e.message@ == message
    &&& e.partial_prefix_possible == partial
    &&& e.report matches Some(b) && *b == report
}

/// The outcome is this error, with the key state left as it was.
pub open spec fn fails_with(o: InjectionOutcome, code: IpcErrorCode, message: Seq<char>, partial: bool, report: InjectionReport, uncertain: bool) -> bool {
    &&& o.result matches Err(e) && report_error(e, code, message, partial, report)
    &&& o.mark_input_uncertain == uncertain
}

/// The session fails with this reason.
pub open spec fn fails_session(f: SessionFollowUp, reason: Seq<char>) -> bool {
    f matches SessionFollowUp::Fail(m) && m@ == reason
}

/// The submit is withdrawn with this reason.
pub open spec fn aborts_session(f: SessionFollowUp, reason: Seq<char>) -> bool {
    f matches SessionFollowUp::Abort(m) && m@ == reason
}

/// The message for a character that GBK cannot carry.
pub open spec fn unrepresentable_message(c: char) -> Seq<char> {
    "字符“"@.push(c) + "”无法用 GBK 发送；请删除该字符或在设置中切换到 Unicode 稳定模式"@
}

fn with_report(code: IpcErrorCode, message: String, partial: bool, report: InjectionReport) -> (r: IpcError)
    ensures
        report_error(r, code, message@, partial, report),
{
    IpcError { code, message, partial_prefix_possible: partial, report: Some(Box::new(report)) }
}

fn text(s: &str) -> (r: String)
    ensures
        r@ == s@,
{
    string_of(chars_of(s).as_slice())
}

fn unrepresentable_text(c: char) -> (r: String)
    ensures
        r@ == unrepresentable_message(c),
{
    let mut v = chars_of("字符“");
    v.push(c);
    let head = string_of(v.as_slice());
    concat2(head.as_str(), "”无法用 GBK 发送；请删除该字符或在设置中切换到 Unicode 稳定模式")
}

/// The outcome of a send started from the probe panel.
pub fn probe_injection_outcome(result: Result<InjectionReport, InjectionError>) -> (r: (InjectionOutcome, SessionFollowUp))
    ensures
        match result {
            Ok(report) => r.0.result == Ok::<InjectionReport, IpcError>(report) && !r.0.mark_input_uncertain
                && r.1 == SessionFollowUp::Complete,
            Err(InjectionError::Cancelled(report)) => fails_with(r.0, IpcErrorCode::InjectionCancelled,
                "发送已被取消，后续文字与 Enter 未注入"@, report.text_successful_events > 0, report, false)
                && aborts_session(r.1, "发送已被用户取消"@),
            Err(InjectionError::TargetChanged(report)) => fails_with(r.0, IpcErrorCode::TargetChanged,
                "发送过程中目标窗口已变化"@, report.text_successful_events > 0 && report.partial_prefix_possible, report, false)
                && fails_session(r.1, "发送过程中目标窗口已变化"@),
            Err(InjectionError::OpenChatFailed(report)) => fails_with(r.0, IpcErrorCode::SendInputPartial,
                "未能稳定打开游戏聊天框，请确认助手里的游戏聊天键和 HD2 设置一致后重试"@, false, report, false)
                && fails_session(r.1, "未能稳定打开游戏聊天框"@),
            Err(InjectionError::SendInputFailed(report)) => {
                let partial = report.text_successful_events > 0 && report.partial_prefix_possible;
                &&& fails_session(r.1, "SendInput 未完整发送本批事件"@)
                &&& if report.key_state_uncertain {
                    fails_with(r.0, IpcErrorCode::InputStateUncertain,
                        "SendInput 返回了未配对事件；请检查游戏输入框并重启助手"@, partial, report, true)
                } else if report.text_successful_events == 0 {
                    fails_with(r.0, IpcErrorCode::SendInputPartial,
                        "文字尚未写入游戏；请点击恢复输入状态后重试"@, partial, report, false)
                } else {
                    fails_with(r.0, IpcErrorCode::SendInputPartial,
                        "文字可能只发送了部分前缀，请检查游戏输入框"@, partial, report, false)
                }
            },
            Err(InjectionError::SubmitFailed(report)) => fails_with(r.0,
                if report.key_state_uncertain { IpcErrorCode::InputStateUncertain } else { IpcErrorCode::FinalSubmitFailed },
                "文字已填入，但最终 Enter 未完整注入；请检查游戏聊天框，切勿直接重发整段"@,
                report.text_successful_events > 0, report, report.key_state_uncertain)
                && fails_session(r.1, "最终 Enter 未完整注入"@),
            Err(InjectionError::UnrepresentableCharacter(report, c)) => fails_with(r.0, IpcErrorCode::TextEncodingUnsupported,
                unrepresentable_message(c), false, report, false)
                && fails_session(r.1, "文本包含 GBK 无法表示的字符"@),
            Err(InjectionError::KeyboardLayoutUnavailable(report)) => fails_with(r.0, IpcErrorCode::KeyboardLayoutUnavailable,
                "GBK 兼容模式无法切换到简体中文键盘布局；请安装中文输入法或改用 Unicode 稳定模式"@, false, report, false)
                && fails_session(r.1, "无法切换到简体中文键盘布局"@),
            Err(InjectionError::UnsupportedKey(report, key)) => fails_with(r.0, IpcErrorCode::ApiConfiguration,
                "不支持的输入按键："@ + key@, false, report, false)
                && fails_session(r.1, "输入按键配置不受支持"@),
        },
{
    match result {
        Ok(report) => (InjectionOutcome { result: Ok(report), mark_input_uncertain: false }, SessionFollowUp::Complete),
        Err(InjectionError::Cancelled(report)) => {
            let partial = report.text_successful_events > 0;
            let e = with_report(IpcErrorCode::InjectionCancelled, text("发送已被取消，后续文字与 Enter 未注入"), partial, report);
            (InjectionOutcome { result: Err(e), mark_input_uncertain: false }, SessionFollowUp::Abort(text("发送已被用户取消")))
        },
        Err(InjectionError::TargetChanged(report)) => {
            let partial = report.text_successful_events > 0 && report.partial_prefix_possible;
            let e = with_report(IpcErrorCode::TargetChanged, text("发送过程中目标窗口已变化"), partial, report);
            (InjectionOutcome { result: Err(e), mark_input_uncertain: false }, SessionFollowUp::Fail(text("发送过程中目标窗口已变化")))
        },
        Err(InjectionError::OpenChatFailed(report)) => {
            let e = with_report(IpcErrorCode::SendInputPartial,
                text("未能稳定打开游戏聊天框，请确认助手里的游戏聊天键和 HD2 设置一致后重试"), false, report);
            (InjectionOutcome { result: Err(e), mark_input_uncertain: false }, SessionFollowUp::Fail(text("未能稳定打开游戏聊天框")))
        },
        Err(InjectionError::SendInputFailed(report)) => {
            let partial = report.text_successful_events > 0 && report.partial_prefix_possible;
            let uncertain = report.key_state_uncertain;
            let e = if uncertain {
                with_report(IpcErrorCode::InputStateUncertain, text("SendInput 返回了未配对事件；请检查游戏输入框并重启助手"), partial, report)
            } else if report.text_successful_events == 0 {
                with_report(IpcErrorCode::SendInputPartial, text("文字尚未写入游戏；请点击恢复输入状态后重试"), partial, report)
            } else {
                with_report(IpcErrorCode::SendInputPartial, text("文字可能只发送了部分前缀，请检查游戏输入框"), partial, report)
            };
            (InjectionOutcome { result: Err(e), mark_input_uncertain: uncertain }, SessionFollowUp::Fail(text("SendInput 未完整发送本批事件")))
        },
        Err(InjectionError::SubmitFailed(report)) => {
            let uncertain = report.key_state_uncertain;
            let code = if uncertain { IpcErrorCode::InputStateUncertain } else { IpcErrorCode::FinalSubmitFailed };
            let partial = report.text_successful_events > 0;
            let e = with_report(code, text("文字已填入，但最终 Enter 未完整注入；请检查游戏聊天框，切勿直接重发整段"), partial, report);
            (InjectionOutcome { result: Err(e), mark_input_uncertain: uncertain }, SessionFollowUp::Fail(text("最终 Enter 未完整注入")))
        },
        Err(InjectionError::UnrepresentableCharacter(report, c)) => {
            let e = with_report(IpcErrorCode::TextEncodingUnsupported, unrepresentable_text(c), false, report);
            (InjectionOutcome { result: Err(e), mark_input_uncertain: false }, SessionFollowUp::Fail(text("文本包含 GBK 无法表示的字符")))
        },
        Err(InjectionError::KeyboardLayoutUnavailable(report)) => {
            let e = with_report(IpcErrorCode::KeyboardLayoutUnavailable,
                text("GBK 兼容模式无法切换到简体中文键盘布局；请安装中文输入法或改用 Unicode 稳定模式"), false, report);
            (InjectionOutcome { result: Err(e), mark_input_uncertain: false }, SessionFollowUp::Fail(text("无法切换到简体中文键盘布局")))
        },
        Err(InjectionError::UnsupportedKey(report, key)) => {
            let e = with_report(IpcErrorCode::ApiConfiguration, concat2("不支持的输入按键：", key.as_str()), false, report);
            (InjectionOutcome { result: Err(e), mark_input_uncertain: false }, SessionFollowUp::Fail(text("输入按键配置不受支持")))
        },
    }
}

/// The outcome of a quick shout; it has no session of its own.
pub fn quick_shout_outcome(result: Result<InjectionReport, InjectionError>) -> (r: InjectionOutcome)
    ensures
        match result {
            Ok(report) => r.result == Ok::<InjectionReport, IpcError>(report) && !r.mark_input_uncertain,
            Err(InjectionError::Cancelled(report)) => fails_with(r, IpcErrorCode::InjectionCancelled,
                "发送已被取消，后续文字与 Enter 未注入"@, report.text_successful_events > 0, report, false),
            Err(InjectionError::TargetChanged(report)) => fails_with(r, IpcErrorCode::TargetChanged,
                "喊话过程中 HD2 窗口已变化"@, report.text_successful_events > 0 && report.partial_prefix_possible, report, false),
            Err(InjectionError::OpenChatFailed(report)) => fails_with(r,
                if report.key_state_uncertain { IpcErrorCode::InputStateUncertain } else { IpcErrorCode::SendInputPartial },
                "无法准备游戏聊天框"@, false, report, report.key_state_uncertain),
            Err(InjectionError::SendInputFailed(report)) => {
                let partial = report.text_successful_events > 0 && report.partial_prefix_possible;
                if report.text_successful_events == 0 {
                    fails_with(r, IpcErrorCode::SendInputPartial,
                        "喊话文字尚未写入游戏；请点击恢复输入状态后重试"@, partial, report, report.key_state_uncertain)
                } else {
                    fails_with(r, IpcErrorCode::SendInputPartial,
                        "喊话文字可能只填入了部分前缀，请检查游戏聊天框"@, partial, report, report.key_state_uncertain)
                }
            },
            Err(InjectionError::SubmitFailed(report)) => fails_with(r, IpcErrorCode::FinalSubmitFailed,
                "喊话文字已填入，但最终 Enter 未完整注入"@, report.text_successful_events > 0, report, report.key_state_uncertain),
            Err(InjectionError::UnrepresentableCharacter(report, c)) => fails_with(r, IpcErrorCode::TextEncodingUnsupported,
                unrepresentable_message(c), false, report, false),
            Err(InjectionError::KeyboardLayoutUnavailable(report)) => fails_with(r, IpcErrorCode::KeyboardLayoutUnavailable,
                "GBK 兼容模式无法切换到简体中文键盘布局；请安装中文输入法或改用 Unicode 稳定模式"@, false, report, false),
            Err(InjectionError::UnsupportedKey(report, key)) => fails_with(r, IpcErrorCode::ApiConfiguration,
                "不支持的输入按键："@ + key@, false, report, false),
        },
{
    match result {
        Ok(report) => InjectionOutcome { result: Ok(report), mark_input_uncertain: false },
        Err(InjectionError::Cancelled(report)) => {
            let partial = report.text_successful_events > 0;
            let e = with_report(IpcErrorCode::InjectionCancelled, text("发送已被取消，后续文字与 Enter 未注入"), partial, report);
            InjectionOutcome { result: Err(e), mark_input_uncertain: false }
        },
        Err(InjectionError::TargetChanged(report)) => {
            let partial = report.text_successful_events > 0 && report.partial_prefix_possible;
            let e = with_report(IpcErrorCode::TargetChanged, text("喊话过程中 HD2 窗口已变化"), partial, report);
            InjectionOutcome { result: Err(e), mark_input_uncertain: false }
        },
        Err(InjectionError::OpenChatFailed(report)) => {
            let uncertain = report.key_state_uncertain;
            let code = if uncertain { IpcErrorCode::InputStateUncertain } else { IpcErrorCode::SendInputPartial };
            let e = with_report(code, text("无法准备游戏聊天框"), false, report);
            InjectionOutcome { result: Err(e), mark_input_uncertain: uncertain }
        },
        Err(InjectionError::SendInputFailed(report)) => {
            let uncertain = report.key_state_uncertain;
            let partial = report.text_successful_events > 0 && report.partial_prefix_possible;
            let e = if report.text_successful_events == 0 {
                with_report(IpcErrorCode::SendInputPartial, text("喊话文字尚未写入游戏；请点击恢复输入状态后重试"), partial, report)
            } else {
                with_report(IpcErrorCode::SendInputPartial, text("喊话文字可能只填入了部分前缀，请检查游戏聊天框"), partial, report)
            };
            InjectionOutcome { result: Err(e), mark_input_uncertain: uncertain }
        },
        Err(InjectionError::SubmitFailed(report)) => {
            let uncertain = report.key_state_uncertain;
            let partial = report.text_successful_events > 0;
            let e = with_report(IpcErrorCode::FinalSubmitFailed, text("喊话文字已填入，但最终 Enter 未完整注入"), partial, report);
            InjectionOutcome { result: Err(e), mark_input_uncertain: uncertain }
        },
        Err(InjectionError::UnrepresentableCharacter(report, c)) => {
            let e = with_report(IpcErrorCode::TextEncodingUnsupported, unrepresentable_text(c), false, report);
            InjectionOutcome { result: Err(e), mark_input_uncertain: false }
        },
        Err(InjectionError::KeyboardLayoutUnavailable(report)) => {
            let e = with_report(IpcErrorCode::KeyboardLayoutUnavailable,
                text("GBK 兼容模式无法切换到简体中文键盘布局；请安装中文输入法或改用 Unicode 稳定模式"), false, report);
            InjectionOutcome { result: Err(e), mark_input_uncertain: false }
        },
        Err(InjectionError::UnsupportedKey(report, key)) => {
            let e = with_report(IpcErrorCode::ApiConfiguration, concat2("不支持的输入按键：", key.as_str()), false, report);
            InjectionOutcome { result: Err(e), mark_input_uncertain: false }
        },
    }
}

/// The outcome of a stratagem key sequence.
pub fn stratagem_outcome(result: Result<InjectionReport, InjectionError>) -> (r: InjectionOutcome)
    ensures
        match result {
            Ok(report) => r.result == Ok::<InjectionReport, IpcError>(report) && !r.mark_input_uncertain,
            Err(InjectionError::Cancelled(report)) => fails_with(r, IpcErrorCode::InjectionCancelled,
                "战备输入已被取消"@, report.partial_prefix_possible, report, false),
            Err(InjectionError::TargetChanged(report)) => fails_with(r, IpcErrorCode::TargetChanged,
                "战备输入过程中 HD2 窗口已变化"@, report.partial_prefix_possible, report, false),
            Err(InjectionError::SendInputFailed(report)) => fails_with(r, IpcErrorCode::SendInputPartial,
                "战备按键可能只输入了部分序列，请检查游戏状态"@, true, report, report.key_state_uncertain),
            Err(InjectionError::UnsupportedKey(report, key)) => fails_with(r, IpcErrorCode::ApiConfiguration,
                "不支持的战备按键："@ + key@, false, report, false),
            Err(_) => !r.mark_input_uncertain && (r.result matches Err(e)
                && crate::ipc::is_error(e, IpcErrorCode::SendInputPartial, "战备输入失败"@)),
        },
{
    match result {
        Ok(report) => InjectionOutcome { result: Ok(report), mark_input_uncertain: false },
        Err(InjectionError::Cancelled(report)) => {
            let partial = report.partial_prefix_possible;
            let e = with_report(IpcErrorCode::InjectionCancelled, text("战备输入已被取消"), partial, report);
            InjectionOutcome { result: Err(e), mark_input_uncertain: false }
        },
        Err(InjectionError::TargetChanged(report)) => {
            let partial = report.partial_prefix_possible;
            let e = with_report(IpcErrorCode::TargetChanged, text("战备输入过程中 HD2 窗口已变化"), partial, report);
            InjectionOutcome { result: Err(e), mark_input_uncertain: false }
        },
        Err(InjectionError::SendInputFailed(report)) => {
            let uncertain = report.key_state_uncertain;
            let e = with_report(IpcErrorCode::SendInputPartial, text("战备按键可能只输入了部分序列，请检查游戏状态"), true, report);
            InjectionOutcome { result: Err(e), mark_input_uncertain: uncertain }
        },
        Err(InjectionError::UnsupportedKey(report, key)) => {
            let e = with_report(IpcErrorCode::ApiConfiguration, concat2("不支持的战备按键：", key.as_str()), false, report);
            InjectionOutcome { result: Err(e), mark_input_uncertain: false }
        },
        Err(_) => InjectionOutcome {
            result: Err(IpcError::new(IpcErrorCode::SendInputPartial, "战备输入失败")),
            mark_input_uncertain: false,
        },
    }
}

/// The result of pressing Esc to close the game chat box.
pub fn cancel_chat_outcome(result: Result<(), InjectionError>) -> (r: Result<(), IpcError>)
    ensures
        match result {
            Ok(()) => r is Ok,
            Err(InjectionError::TargetChanged(report)) => r matches Err(e)
                && report_error(e, IpcErrorCode::TargetChanged, "取消输入前 HD2 窗口已变化"@, false, report),
            Err(InjectionError::SendInputFailed(report)) => r matches Err(e)
                && report_error(e, IpcErrorCode::SendInputPartial, "无法向游戏聊天框发送 Esc"@, false, report),
            Err(_) => r matches Err(e) && crate::ipc::is_error(e, IpcErrorCode::SendInputPartial, "无法向游戏聊天框发送 Esc"@),
        },
{
    match result {
        Ok(()) => Ok(()),
        Err(InjectionError::TargetChanged(report)) =>
            Err(with_report(IpcErrorCode::TargetChanged, text("取消输入前 HD2 窗口已变化"), false, report)),
        Err(InjectionError::SendInputFailed(report)) =>
            Err(with_report(IpcErrorCode::SendInputPartial, text("无法向游戏聊天框发送 Esc"), false, report)),
        Err(_) => Err(IpcError::new(IpcErrorCode::SendInputPartial, "无法向游戏聊天框发送 Esc")),
    }
}

/// Whether closing the chat box may go on after the CapsLock guard was
/// prepared for gameplay: a guard that is already faulted lets Esc through,
/// since Esc does not depend on CapsLock.
pub fn cancel_chat_caps_check(prepared: bool, faulted: bool) -> (r: Result<(), IpcError>)
    ensures
        r is Ok <==> (prepared || faulted),
        r matches Err(e) ==> crate::ipc::is_error(e, IpcErrorCode::CapsProtectionFailed,
            "取消前输入法保护自检失败，请点击恢复输入状态后重试"@),
{
    if prepared || faulted {
        Ok(())
    } else {
        Err(IpcError::new(IpcErrorCode::CapsProtectionFailed, "取消前输入法保护自检失败，请点击恢复输入状态后重试"))
    }
}

/// What one poll of the wait for the game window to hold the foreground
/// again decides.
#[derive(Debug, Clone, Copy, PartialEq, Eq, Structural)]
pub enum ForegroundPoll {
    /// The game holds the foreground: send now.
    Ready,
    /// The user cancelled: send nothing.
    Cancelled,
    /// The deadline passed: give up.
    TimedOut,
    /// Restore the window again, wait a moment and poll again.
    Retry,
}

/// One poll: `foreground_ok` is whether the game window is in front,
/// `cancel_requested` whether the user cancelled. With `cancel_first` a
/// cancel wins even over a window that is already in front.
pub fn foreground_poll(foreground_ok: bool, cancel_requested: bool, cancel_first: bool, now_ms: u64, deadline_ms: u64) -> (r: ForegroundPoll)
    ensures
        r == (if cancel_first && cancel_requested {
            ForegroundPoll::Cancelled
        } else if foreground_ok {
            ForegroundPoll::Ready
        } else if cancel_requested {
            ForegroundPoll::Cancelled
        } else if now_ms >= deadline_ms {
            ForegroundPoll::TimedOut
        } else {
            ForegroundPoll::Retry
        }),
{
    if cancel_first && cancel_requested {
        ForegroundPoll::Cancelled
    } else if foreground_ok {
        ForegroundPoll::Ready
    } else if cancel_requested {
        ForegroundPoll::Cancelled
    } else if now_ms >= deadline_ms {
        ForegroundPoll::TimedOut
    } else {
        ForegroundPoll::Retry
    }
}

/// A send refused before it starts because an earlier send left a key
/// state that cannot be trusted.
pub fn ensure_input_state_certain(uncertain: bool) -> (r: Result<(), IpcError>)
    ensures
        r is Ok <==> !uncertain,
        r matches Err(e) ==> crate::ipc::is_error(e, IpcErrorCode::InputStateUncertain,
            "上次 SendInput 返回了未配对事件；请重启助手后再试"@),
{
    if uncertain {
        Err(IpcError::new(IpcErrorCode::InputStateUncertain, "上次 SendInput 返回了未配对事件；请重启助手后再试"))
    } else {
        Ok(())
    }
}

/// What a cancel request does: stop the running send when there is one,
/// else, when the user interface asks for it, arm a short-lived pending
/// cancel for the send about to start. Returns whether to arm it, and the
/// stage the log records.
pub fn cancel_request(live: bool, pending_requested: bool) -> (r: (bool, &'static str))
    ensures
        r.0 == (!live && pending_requested),
        r.1@ == (if live {
            "requested"@
        } else if pending_requested {
            "pending_armed"@
        } else {
            "no_active_transaction"@
        }),
{
    if live {
        (false, "requested")
    } else if pending_requested {
        (true, "pending_armed")
    } else {
        (false, "no_active_transaction")
    }
}


/// The checks before a probe send, in the order they run. Between
/// `InputState` and `KeyRelease` the text is cleaned and the submit is
/// requested from the session.
#[derive(Debug, Clone, Copy, PartialEq, Eq, Structural)]
pub enum PreflightStage {
    /// No other send holds the injection gate.
    Gate,
    /// No earlier send left a key state in doubt.
    InputState,
    /// Enter and every modifier were released in time.
    KeyRelease,
    /// The session's key sample shows every key released.
    KeySample,
    /// Windows gave the foreground back to the game window.
    Restore,
    /// The game window held the foreground before the deadline.
    Foreground,
    /// CapsLock matches what the input method needs.
    Caps,
}

/// What a check found.
#[derive(Debug, Clone, Copy, PartialEq, Eq, Structural)]
pub enum PreflightCheck {
    Passed,
    /// The check did not pass.
    Failed,
    /// The check could not be made at all (the restore call failed).
    Unavailable,
    /// The user cancelled while the check was running.
    Cancelled,
}

/// The check after `stage`, or none when the send may start.
pub open spec fn preflight_next(stage: PreflightStage) -> Option<PreflightStage> {
    match stage {
        PreflightStage::Gate => Some(PreflightStage::InputState),
        PreflightStage::InputState => Some(PreflightStage::KeyRelease),
        PreflightStage::KeyRelease => Some(PreflightStage::KeySample),
        PreflightStage::KeySample => Some(PreflightStage::Restore),
        PreflightStage::Restore => Some(PreflightStage::Foreground),
        PreflightStage::Foreground => Some(PreflightStage::Caps),
        PreflightStage::Caps => None,
    }
}

/// A refusal: the error code and message, and what happens to the session
/// (`None`: nothing; `Some((true, m))`: it fails with `m`; `Some((false,
/// m))`: the submit is withdrawn with `m`).
pub open spec fn preflight_refusal(stage: PreflightStage, check: PreflightCheck) -> (IpcErrorCode, Seq<char>, Option<(bool, Seq<char>)>) {
    match stage {
        PreflightStage::Gate => (IpcErrorCode::InvalidSession, "已有填字事务正在进行"@, None),
        PreflightStage::InputState => (IpcErrorCode::InputStateUncertain, "上次 SendInput 返回了未配对事件；请重启助手后再试"@, None),
        PreflightStage::KeyRelease => (IpcErrorCode::SubmitKeyStillDown, "Enter、Ctrl、Alt、Shift 或 Win 尚未稳定释放"@,
            Some((false, "提交键或修饰键未稳定释放"@))),
        PreflightStage::KeySample => (IpcErrorCode::SubmitKeyStillDown, "提交键或修饰键重新进入按下状态"@,
            Some((false, "提交键或修饰键重新进入按下状态"@))),
        PreflightStage::Restore => if check == PreflightCheck::Unavailable {
            (IpcErrorCode::WindowUnavailable, "无法恢复目标窗口"@, Some((true, "无法恢复目标窗口"@)))
        } else {
            (IpcErrorCode::TargetChanged, "Windows 暂时未把前台交还 HD2，请回到游戏后重试；目标锁定仍然保留"@,
                Some((false, "系统暂时拒绝恢复目标窗口前台"@)))
        },
        PreflightStage::Foreground => if check == PreflightCheck::Cancelled {
            (IpcErrorCode::InjectionCancelled, "发送已被取消，文字尚未注入"@, Some((false, "发送已被用户取消"@)))
        } else {
            (IpcErrorCode::TargetChanged, "HD2 前台状态暂时不稳定，请回到游戏后重试；目标锁定仍然保留"@,
                Some((false, "目标窗口未能稳定恢复前台"@)))
        },
        PreflightStage::Caps => (IpcErrorCode::CapsProtectionFailed, "发送前输入法保护自检失败，已阻止注入；请点击恢复输入状态后重试"@,
            Some((false, "CapsLock 输入法保护未通过发送前自检"@))),
    }
}

pub open spec fn follow_up_view(f: Option<SessionFollowUp>) -> Option<(bool, Seq<char>)> {
    match f {
        None => None,
        Some(SessionFollowUp::Fail(m)) => Some((true, m@)),
        Some(SessionFollowUp::Abort(m)) => Some((false, m@)),
        Some(SessionFollowUp::Complete) => Some((false, Seq::empty())),
    }
}

fn refuse(code: IpcErrorCode, message: &str, follow_up: Option<(bool, &str)>) -> (r: (IpcError, Option<SessionFollowUp>))
    ensures
        crate::ipc::is_error(r.0, code, message@),
        follow_up_view(r.1) == match follow_up {
            None => None,
            Some((fail, m)) => Some((fail, m@)),
        },
{
    let f = match follow_up {
        None => None,
        Some((true, m)) => Some(SessionFollowUp::Fail(text(m))),
        Some((false, m)) => Some(SessionFollowUp::Abort(text(m))),
    };
    (IpcError::new(code, message), f)
}

/// One check before a probe send: a passed check leads to the next one (or
/// to the send), anything else refuses the send with its error and says
/// what happens to the session. The checks run in the order of
/// `PreflightStage`, so a refusal never lets a later check run.
pub fn preflight_step(stage: PreflightStage, check: PreflightCheck) -> (r: Result<Option<PreflightStage>, (IpcError, Option<SessionFollowUp>)>)
    ensures
        check == PreflightCheck::Passed ==> r == Ok::<Option<PreflightStage>, (IpcError, Option<SessionFollowUp>)>(preflight_next(stage)),
        check != PreflightCheck::Passed ==> (r matches Err((e, f)) && {
            let (code, message, follow) = preflight_refusal(stage, check);
            &&& crate::ipc::is_error(e, code, message)
            &&& follow_up_view(f) == follow
        }),
{
    if check == PreflightCheck::Passed {
        return Ok(match stage {
            PreflightStage::Gate => Some(PreflightStage::InputState),
            PreflightStage::InputState => Some(PreflightStage::KeyRelease),
            PreflightStage::KeyRelease => Some(PreflightStage::KeySample),
            PreflightStage::KeySample => Some(PreflightStage::Restore),
            PreflightStage::Restore => Some(PreflightStage::Foreground),
            PreflightStage::Foreground => Some(PreflightStage::Caps),
            PreflightStage::Caps => None,
        });
    }
    let r = match stage {
        PreflightStage::Gate => refuse(IpcErrorCode::InvalidSession, "已有填字事务正在进行", None),
        PreflightStage::InputState => refuse(IpcErrorCode::InputStateUncertain, "上次 SendInput 返回了未配对事件；请重启助手后再试", None),
        PreflightStage::KeyRelease => refuse(IpcErrorCode::SubmitKeyStillDown, "Enter、Ctrl、Alt、Shift 或 Win 尚未稳定释放",
            Some((false, "提交键或修饰键未稳定释放"))),
        PreflightStage::KeySample => refuse(IpcErrorCode::SubmitKeyStillDown, "提交键或修饰键重新进入按下状态",
            Some((false, "提交键或修饰键重新进入按下状态"))),
        PreflightStage::Restore => if check == PreflightCheck::Unavailable {
            refuse(IpcErrorCode::WindowUnavailable, "无法恢复目标窗口", Some((true, "无法恢复目标窗口")))
        } else {
            refuse(IpcErrorCode::TargetChanged, "Windows 暂时未把前台交还 HD2，请回到游戏后重试；目标锁定仍然保留",
                Some((false, "系统暂时拒绝恢复目标窗口前台")))
        },
        PreflightStage::Foreground => if check == PreflightCheck::Cancelled {
            refuse(IpcErrorCode::InjectionCancelled, "发送已被取消，文字尚未注入", Some((false, "发送已被用户取消")))
        } else {
            refuse(IpcErrorCode::TargetChanged, "HD2 前台状态暂时不稳定，请回到游戏后重试；目标锁定仍然保留",
                Some((false, "目标窗口未能稳定恢复前台")))
        },
        PreflightStage::Caps => refuse(IpcErrorCode::CapsProtectionFailed, "发送前输入法保护自检失败，已阻止注入；请点击恢复输入状态后重试",
            Some((false, "CapsLock 输入法保护未通过发送前自检"))),
    };
    Err(r)
}


/// The refusals a quick shout or stratagem macro makes first, in order:
/// another send holds the injection gate, or an earlier send left a key
/// state in doubt. No window is resolved and no key is sent before both
/// pass.
pub fn transaction_preflight(gate_free: bool, input_state_uncertain: bool) -> (r: Result<(), IpcError>)
    ensures
        !gate_free ==> (r matches Err(e) && crate::ipc::is_error(e, IpcErrorCode::InvalidSession, "已有输入事务正在进行"@)),
        gate_free && input_state_uncertain ==> (r matches Err(e) && crate::ipc::is_error(
            e,
            IpcErrorCode::InputStateUncertain,
            "上次 SendInput 返回了未配对事件；请重启助手后再试"@,
        )),
        gate_free && !input_state_uncertain ==> r is Ok,
{
    if !gate_free {
        return Err(IpcError::new(IpcErrorCode::InvalidSession, "已有输入事务正在进行"));
    }
    ensure_input_state_certain(input_state_uncertain)
}

/// The refusals of a stratagem macro, in order, before any window is
/// resolved or restored: the transaction refusals, then an empty
/// direction sequence.
pub fn stratagem_preflight(gate_free: bool, input_state_uncertain: bool, sequence_len: usize) -> (r: Result<(), IpcError>)
    ensures
        !gate_free ==> (r matches Err(e) && crate::ipc::is_error(e, IpcErrorCode::InvalidSession, "已有输入事务正在进行"@)),
        gate_free && input_state_uncertain ==> (r matches Err(e) && crate::ipc::is_error(
            e,
            IpcErrorCode::InputStateUncertain,
            "上次 SendInput 返回了未配对事件；请重启助手后再试"@,
        )),
        gate_free && !input_state_uncertain && sequence_len == 0 ==> (r matches Err(e) && crate::ipc::is_error(
            e,
            IpcErrorCode::ApiConfiguration,
            "战备方向序列为空，请先配置方向键"@,
        )),
        gate_free && !input_state_uncertain && sequence_len > 0 ==> r is Ok,
{
    transaction_preflight(gate_free, input_state_uncertain)?;
    if sequence_len == 0 {
        return Err(IpcError::new(IpcErrorCode::ApiConfiguration, "战备方向序列为空，请先配置方向键"));
    }
    Ok(())
}


/// Applies what a send means for its session: a completed injection goes
/// back to editing with the target kept and the draft cleared; a withdrawn
/// submit goes back to editing with the target and the draft kept; a
/// failure fails the session with its reason. A stale generation, or a
/// session not in a phase the follow-up applies to, is left unchanged.
pub fn apply_follow_up(session: &mut SessionMachine, generation: u64, follow_up: &SessionFollowUp) -> (r: Result<(), SessionError>)
    requires
        old(session).wf(),
    ensures
        final(session).wf(),
        final(session).spec_next_generation() == old(session).spec_next_generation(),
        final(session).spec_enter_sequence() == old(session).spec_enter_sequence(),
        generation != old(session).spec_snapshot().generation ==> (r == Err::<(), SessionError>(
            SessionError::StaleGeneration) && *final(session) == *old(session)),
        generation == old(session).spec_snapshot().generation ==> match follow_up {
            SessionFollowUp::Complete => if old(session).spec_snapshot().phase == SessionPhase::Injecting {
                r is Ok && is_fresh_snapshot(final(session).spec_snapshot(), generation, SessionPhase::Editing,
                    old(session).spec_snapshot().target)
            } else {
                r == Err::<(), SessionError>(SessionError::InvalidPhase) && *final(session) == *old(session)
            },
            SessionFollowUp::Abort(_) => if is_submitting(old(session).spec_snapshot().phase) {
                r is Ok && only_phase_changed(old(session).spec_snapshot(), final(session).spec_snapshot(), SessionPhase::Editing)
            } else {
                r == Err::<(), SessionError>(SessionError::InvalidPhase) && *final(session) == *old(session)
            },
            SessionFollowUp::Fail(m) => if old(session).spec_snapshot().phase != SessionPhase::Idle {
                r is Ok && failed_with(old(session).spec_snapshot(), final(session).spec_snapshot(), m@)
            } else {
                r == Err::<(), SessionError>(SessionError::InvalidPhase) && *final(session) == *old(session)
            },
        },
{
    match follow_up {
        SessionFollowUp::Complete => session.complete_injection(generation),
        SessionFollowUp::Abort(_) => session.abort_submit(generation),
        SessionFollowUp::Fail(m) => session.fail_session(generation, m.as_str()),
    }
}

} // verus!
