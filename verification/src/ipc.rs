//! Errors reported to the user interface, and the checks the commands run
//! before they act.
use vstd::prelude::*;
use crate::chars::{chars_of, contains_chars, digits_of, parse_decimal, seq_contains, spec_digits, spec_parse_decimal, string_of, trim_whitespace, trim_ws, trim_start_by, trim_start_class, CharClass, has_prefix, starts_with_chars};
use crate::injector::{InjectionReport, IntegrityDiagnostic};
use crate::session::{SessionError, SessionSnapshot, TargetIdentity};
use crate::target::{TargetDiagnostic, TargetError};
use crate::text::{TextError, TextPreview};
use crate::translation::{TranslatedChatLine, TranslationError};

verus! {

/// Stable error codes the user interface branches on.
#[derive(Debug, Clone, Copy, PartialEq, Eq, Structural)]
pub enum IpcErrorCode {
    UnsupportedPlatform,
    TargetNotMatched,
    TargetChanged,
    WindowUnavailable,
    WindowNotVisible,
    WindowMinimized,
    WindowCloaked,
    IntegrityIncompatible,
    TextEmpty,
    TextTooLong,
    TextEncodingUnsupported,
    KeyboardLayoutUnavailable,
    SendInputPartial,
    FinalSubmitFailed,
    ApiConfiguration,
    ApiRequestFailed,
    ApiResponseInvalid,
    SettingsStorageFailed,
    CaptureFailed,
    OcrUnavailable,
    OcrEmpty,
    InvalidCaptureRegion,
    InvalidSession,
    SubmitKeyStillDown,
    CapsProtectionFailed,
    InputStateUncertain,
    InjectionCancelled,
    InternalState,
}

/// An error for the user interface: its code, a message, whether part of
/// the text may already have been typed, and the delivery report.
#[derive(Debug, Clone, PartialEq, Eq)]
pub struct IpcError {
    pub code: IpcErrorCode,
    pub message: String,
    pub partial_prefix_possible: bool,
    pub report: Option<Box<InjectionReport>>,
}

/// `e` is a plain error with this code and message.
pub open spec fn is_error(e: IpcError, code: IpcErrorCode, message: Seq<char>) -> bool {
    &&& e.code == code
    &&& e.message@ == message
    &&& !e.partial_prefix_possible
    &&& e.report is None
}

fn text(s: &str) -> (r: String)
    ensures
        r@ == s@,
{
    string_of(chars_of(s).as_slice())
}

/// `a` followed by `b`.
pub fn concat2(a: &str, b: &str) -> (r: String)
    ensures
        r@ == a@ + b@,
{
    let mut out = chars_of(a);
    let bc = chars_of(b);
    let ghost base = out@;
    let mut k: usize = 0;
    while k < bc.len()
        invariant
            k <= bc@.len(),
            out@ == base + bc@.take(k as int),
        decreases bc.len() - k,
    {
        out.push(bc[k]);
        assert(base + bc@.take(k + 1) =~= (base + bc@.take(k as int)).push(bc@[k as int]));
        k = k + 1;
    }
    assert(bc@.take(bc@.len() as int) =~= bc@);
    string_of(out.as_slice())
}

impl IpcError {
    pub fn new(code: IpcErrorCode, message: &str) -> (r: IpcError)
        ensures
            is_error(r, code, message@),
    {
        IpcError { code, message: text(message), partial_prefix_possible: false, report: None }
    }

    /// A failed send after which part of the text may have been typed.
    pub fn partial(message: &str) -> (r: IpcError)
        ensures
            r.code == IpcErrorCode::SendInputPartial,
            r.message@ == message@,
            r.partial_prefix_possible,
            r.report is None,
    {
        IpcError { code: IpcErrorCode::SendInputPartial, message: text(message), partial_prefix_possible: true, report: None }
    }
}

/// The error every Windows-only command gives elsewhere.
pub fn unsupported_platform() -> (r: IpcError)
    ensures
        is_error(r, IpcErrorCode::UnsupportedPlatform, "当前平台不支持 Windows 输入探针"@),
{
    IpcError::new(IpcErrorCode::UnsupportedPlatform, "当前平台不支持 Windows 输入探针")
}

/// The message for a text over the limit.
pub open spec fn too_long_message(actual: usize, limit: usize) -> Seq<char> {
    "文本包含 "@ + spec_digits(actual as nat, 10) + " 个字符，超过上限 "@ + spec_digits(limit as nat, 10)
}

/// A text preview, or the error the user sees for a text that cannot be sent.
pub fn map_text_result(result: Result<TextPreview, TextError>) -> (r: Result<TextPreview, IpcError>)
    ensures
        match result {
            Ok(p) => r == Ok::<TextPreview, IpcError>(p),
            Err(TextError::Empty) => r is Err && is_error(r->Err_0, IpcErrorCode::TextEmpty, "清理后的文本为空"@),
            Err(TextError::TooLong { actual, limit }) => r is Err && is_error(
                r->Err_0,
                IpcErrorCode::TextTooLong,
                too_long_message(actual, limit),
            ),
            Err(TextError::InvalidBatchSize) => r is Err && is_error(
                r->Err_0,
                IpcErrorCode::InternalState,
                "每批字符数配置无效"@,
            ),
        },
{
    match result {
        Ok(p) => Ok(p),
        Err(TextError::Empty) => Err(IpcError::new(IpcErrorCode::TextEmpty, "清理后的文本为空")),
        Err(TextError::TooLong { actual, limit }) => {
            let mut out: Vec<char> = chars_of("文本包含 ");
            let a = digits_of(actual as u64, 10);
            let mut i: usize = 0;
            let ghost base = out@;
            while i < a.len()
                invariant
                    i <= a@.len(),
                    out@ == base + a@.take(i as int),
                decreases a.len() - i,
            {
                out.push(a[i]);
                assert(base + a@.take(i + 1) =~= (base + a@.take(i as int)).push(a@[i as int]));
                i = i + 1;
            }
            assert(a@.take(a@.len() as int) =~= a@);
            let middle = chars_of(" 个字符，超过上限 ");
            let ghost base2 = out@;
            let mut j: usize = 0;
            while j < middle.len()
                invariant
                    j <= middle@.len(),
                    out@ == base2 + middle@.take(j as int),
                decreases middle.len() - j,
            {
                out.push(middle[j]);
                assert(base2 + middle@.take(j + 1) =~= (base2 + middle@.take(j as int)).push(middle@[j as int]));
                j = j + 1;
            }
            assert(middle@.take(middle@.len() as int) =~= middle@);
            let l = digits_of(limit as u64, 10);
            let ghost base3 = out@;
            let mut k: usize = 0;
            while k < l.len()
                invariant
                    k <= l@.len(),
                    out@ == base3 + l@.take(k as int),
                decreases l.len() - k,
            {
                out.push(l[k]);
                assert(base3 + l@.take(k + 1) =~= (base3 + l@.take(k as int)).push(l@[k as int]));
                k = k + 1;
            }
            assert(l@.take(l@.len() as int) =~= l@);
            assert(out@ =~= too_long_message(actual, limit));
            Err(IpcError { code: IpcErrorCode::TextTooLong, message: string_of(out.as_slice()), partial_prefix_possible: false, report: None })
        },
        Err(TextError::InvalidBatchSize) => Err(IpcError::new(IpcErrorCode::InternalState, "每批字符数配置无效")),
    }
}

/// The error the user sees for a session machine refusal.
pub fn map_session_error(error: SessionError) -> (r: IpcError)
    ensures
        match error {
            SessionError::StaleGeneration | SessionError::InvalidPhase => is_error(
                r,
                IpcErrorCode::InvalidSession,
                "会话已失效或状态不允许此操作"@,
            ),
            SessionError::TargetChanged => is_error(r, IpcErrorCode::TargetChanged, "目标窗口已变化"@),
            SessionError::SubmitKeyStillDown => is_error(r, IpcErrorCode::SubmitKeyStillDown, "提交键尚未释放"@),
            SessionError::InjectionInProgress => is_error(r, IpcErrorCode::InvalidSession, "已有发送事务正在进行"@),
        },
{
    match error {
        SessionError::StaleGeneration | SessionError::InvalidPhase => IpcError::new(
            IpcErrorCode::InvalidSession,
            "会话已失效或状态不允许此操作",
        ),
        SessionError::TargetChanged => IpcError::new(IpcErrorCode::TargetChanged, "目标窗口已变化"),
        SessionError::SubmitKeyStillDown => IpcError::new(IpcErrorCode::SubmitKeyStillDown, "提交键尚未释放"),
        SessionError::InjectionInProgress => IpcError::new(IpcErrorCode::InvalidSession, "已有发送事务正在进行"),
    }
}

/// The error the user sees for a translation failure; OCR failures that
/// travel as response messages get the OCR codes.
pub fn map_translation_error(error: TranslationError) -> (r: IpcError)
    ensures
        match error {
            TranslationError::MissingApiUrl => is_error(r, IpcErrorCode::ApiConfiguration, "请先填写翻译 API 地址"@),
            TranslationError::InvalidApiUrl => is_error(
                r,
                IpcErrorCode::ApiConfiguration,
                "翻译 API 地址必须使用 http:// 或 https://"@,
            ),
            TranslationError::InvalidProxy => is_error(
                r,
                IpcErrorCode::ApiConfiguration,
                "网络代理地址无效，请填写 http:// 或 socks5:// 地址"@,
            ),
            TranslationError::MissingModel => is_error(r, IpcErrorCode::ApiConfiguration, "请先填写翻译模型名"@),
            TranslationError::InvalidRegion => is_error(
                r,
                IpcErrorCode::InvalidCaptureRegion,
                "聊天截图区域无效，请重新校准"@,
            ),
            TranslationError::Request(m) => is_error(r, IpcErrorCode::ApiRequestFailed, "翻译接口请求失败："@ + m@),
            TranslationError::Response(m) => if seq_contains(m@, "未识别到文字"@) {
                is_error(r, IpcErrorCode::OcrEmpty, m@)
            } else if seq_contains(m@, "语言"@) {
                is_error(r, IpcErrorCode::OcrUnavailable, m@)
            } else {
                is_error(r, IpcErrorCode::ApiResponseInvalid, m@)
            },
            TranslationError::Storage(m) => is_error(
                r,
                IpcErrorCode::SettingsStorageFailed,
                "翻译设置读写失败："@ + m@,
            ),
        },
{
    match error {
        TranslationError::MissingApiUrl => IpcError::new(IpcErrorCode::ApiConfiguration, "请先填写翻译 API 地址"),
        TranslationError::InvalidApiUrl => IpcError::new(
            IpcErrorCode::ApiConfiguration,
            "翻译 API 地址必须使用 http:// 或 https://",
        ),
        TranslationError::InvalidProxy => IpcError::new(
            IpcErrorCode::ApiConfiguration,
            "网络代理地址无效，请填写 http:// 或 socks5:// 地址",
        ),
        TranslationError::MissingModel => IpcError::new(IpcErrorCode::ApiConfiguration, "请先填写翻译模型名"),
        TranslationError::InvalidRegion => IpcError::new(
            IpcErrorCode::InvalidCaptureRegion,
            "聊天截图区域无效，请重新校准",
        ),
        TranslationError::Request(m) => IpcError::new(IpcErrorCode::ApiRequestFailed, concat2("翻译接口请求失败：", m.as_str()).as_str()),
        TranslationError::Response(m) => {
            let mc = chars_of(m.as_str());
            if contains_chars(mc.as_slice(), chars_of("未识别到文字").as_slice()) {
                IpcError::new(IpcErrorCode::OcrEmpty, m.as_str())
            } else if contains_chars(mc.as_slice(), chars_of("语言").as_slice()) {
                IpcError::new(IpcErrorCode::OcrUnavailable, m.as_str())
            } else {
                IpcError::new(IpcErrorCode::ApiResponseInvalid, m.as_str())
            }
        },
        TranslationError::Storage(m) => IpcError::new(
            IpcErrorCode::SettingsStorageFailed,
            concat2("翻译设置读写失败：", m.as_str()).as_str(),
        ),
    }
}

/// The diagnosed foreground must be a visible, unminimized, uncloaked
/// window whose title names the game.
pub fn validate_target(diagnostic: &TargetDiagnostic) -> (r: Result<(), IpcError>)
    ensures
        !diagnostic.title_matches ==> r is Err && is_error(
            r->Err_0,
            IpcErrorCode::TargetNotMatched,
            "当前前台窗口标题不匹配 HELLDIVERS"@,
        ),
        diagnostic.title_matches && (!diagnostic.is_window || !diagnostic.visible) ==> r is Err && is_error(
            r->Err_0,
            IpcErrorCode::WindowNotVisible,
            "目标窗口不可见"@,
        ),
        diagnostic.title_matches && diagnostic.is_window && diagnostic.visible && diagnostic.minimized ==> r is Err
            && is_error(r->Err_0, IpcErrorCode::WindowMinimized, "目标窗口已最小化"@),
        diagnostic.title_matches && diagnostic.is_window && diagnostic.visible && !diagnostic.minimized
            && diagnostic.cloaked ==> r is Err && is_error(r->Err_0, IpcErrorCode::WindowCloaked, "目标窗口被系统隐藏"@),
        diagnostic.title_matches && diagnostic.is_window && diagnostic.visible && !diagnostic.minimized
            && !diagnostic.cloaked ==> r is Ok,
{
    if !diagnostic.title_matches {
        return Err(IpcError::new(IpcErrorCode::TargetNotMatched, "当前前台窗口标题不匹配 HELLDIVERS"));
    }
    if !diagnostic.is_window || !diagnostic.visible {
        return Err(IpcError::new(IpcErrorCode::WindowNotVisible, "目标窗口不可见"));
    }
    if diagnostic.minimized {
        return Err(IpcError::new(IpcErrorCode::WindowMinimized, "目标窗口已最小化"));
    }
    if diagnostic.cloaked {
        return Err(IpcError::new(IpcErrorCode::WindowCloaked, "目标窗口被系统隐藏"));
    }
    Ok(())
}

/// A session number sent by the user interface, as `str::parse::<u64>` reads it.
pub fn parse_generation(generation: &str) -> (r: Result<u64, IpcError>)
    ensures
        match spec_parse_decimal(generation@, u64::MAX as int) {
            Some(n) => r == Ok::<u64, IpcError>(n as u64),
            None => r is Err && is_error(r->Err_0, IpcErrorCode::InvalidSession, "会话编号无效"@),
        },
        r matches Ok(v) ==> spec_parse_decimal(generation@, u64::MAX as int) == Some(v as int),
{
    match parse_decimal(chars_of(generation).as_slice(), 0xffff_ffff_ffff_ffff) {
        Some(n) => Ok(n),
        None => Err(IpcError::new(IpcErrorCode::InvalidSession, "会话编号无效")),
    }
}

/// The target of the session the user interface names, when that session
/// is still the current one.
pub fn session_target(generation: &str, snapshot: &SessionSnapshot) -> (r: Result<TargetIdentity, IpcError>)
    ensures
        match spec_parse_decimal(generation@, u64::MAX as int) {
            None => r is Err && is_error(r->Err_0, IpcErrorCode::InvalidSession, "会话编号无效"@),
            Some(n) => if snapshot.generation != n {
                r is Err && is_error(r->Err_0, IpcErrorCode::InvalidSession, "目标会话已经失效"@)
            } else {
                match snapshot.target {
                    Some(t) => r == Ok::<TargetIdentity, IpcError>(t),
                    None => r is Err && is_error(r->Err_0, IpcErrorCode::InvalidSession, "目标会话不存在"@),
                }
            },
        },
{
    let n = match parse_generation(generation) {
        Ok(n) => n,
        Err(e) => {
            return Err(e);
        },
    };
    if snapshot.generation != n {
        return Err(IpcError::new(IpcErrorCode::InvalidSession, "目标会话已经失效"));
    }
    match snapshot.target {
        Some(t) => Ok(t),
        None => Err(IpcError::new(IpcErrorCode::InvalidSession, "目标会话不存在")),
    }
}

/// The window a handoff back to gameplay restores: the last target that
/// took input, else the session's target.
pub fn handoff_target(last_target: Option<TargetIdentity>, session_target: Option<TargetIdentity>) -> (r: Result<
    TargetIdentity,
    IpcError,
>)
    ensures
        match (last_target, session_target) {
            (Some(t), _) => r == Ok::<TargetIdentity, IpcError>(t),
            (None, Some(t)) => r == Ok::<TargetIdentity, IpcError>(t),
            (None, None) => r is Err && is_error(r->Err_0, IpcErrorCode::TargetChanged, "没有可恢复的 HD2 目标"@),
        },
{
    match last_target {
        Some(t) => Ok(t),
        None => match session_target {
            Some(t) => Ok(t),
            None => Err(IpcError::new(IpcErrorCode::TargetChanged, "没有可恢复的 HD2 目标")),
        },
    }
}

/// The windows a quick shout falls back to when its captured session's
/// window could not be restored, in the order they are tried: the last
/// target used, then the session's target unless it is that same window.
pub fn quick_shout_fallback_targets(last_target: Option<TargetIdentity>, session_target: Option<TargetIdentity>) -> (r: Vec<TargetIdentity>)
    ensures
        r@ == (match last_target {
            Some(t) => seq![t],
            None => Seq::empty(),
        }) + (match session_target {
            Some(s) => if last_target == Some(s) { Seq::empty() } else { seq![s] },
            None => Seq::empty(),
        }),
{
    let mut r: Vec<TargetIdentity> = Vec::new();
    let mut same = false;
    match last_target {
        Some(t) => {
            r.push(t);
            match session_target {
                Some(s) => {
                    same = t == s;
                },
                None => {},
            }
        },
        None => {},
    }
    match session_target {
        Some(s) => {
            if !same {
                r.push(s);
            }
        },
        None => {},
    }
    proof {
        assert(r@ =~= (match last_target {
            Some(t) => seq![t],
            None => Seq::empty(),
        }) + (match session_target {
            Some(s) => if last_target == Some(s) { Seq::empty() } else { seq![s] },
            None => Seq::empty(),
        }));
    }
    r
}

/// A cancel names the current session, when it names one at all.
pub fn cancel_generation_check(generation: Option<&str>, current: u64) -> (r: Result<(), IpcError>)
    ensures
        match generation {
            None => r is Ok,
            Some(g) => match spec_parse_decimal(g@, u64::MAX as int) {
                None => r is Err && is_error(r->Err_0, IpcErrorCode::InvalidSession, "会话编号无效"@),
                Some(n) => if n != current {
                    r is Err && is_error(r->Err_0, IpcErrorCode::InvalidSession, "取消请求对应的会话已经失效"@)
                } else {
                    r is Ok
                },
            },
        },
{
    match generation {
        None => Ok(()),
        Some(g) => {
            let n = match parse_generation(g) {
                Ok(n) => n,
                Err(e) => {
                    return Err(e);
                },
            };
            if n != current {
                Err(IpcError::new(IpcErrorCode::InvalidSession, "取消请求对应的会话已经失效"))
            } else {
                Ok(())
            }
        },
    }
}

/// The error the user sees when the foreground window cannot be examined.
pub fn map_target_error(error: TargetError) -> (r: IpcError)
    ensures
        match error {
            TargetError::NoForegroundWindow => is_error(r, IpcErrorCode::WindowUnavailable, "系统当前没有可读取的前台窗口"@),
            TargetError::WindowTitleUnavailable => is_error(r, IpcErrorCode::WindowUnavailable, "无法读取当前前台窗口标题"@),
            TargetError::WindowStateUnavailable => is_error(r, IpcErrorCode::WindowUnavailable, "无法读取当前前台窗口的显示状态"@),
            TargetError::ProcessUnavailable(code) => is_error(
                r,
                IpcErrorCode::WindowUnavailable,
                "无法读取当前前台窗口的进程身份（Win32 错误码 "@ + spec_digits(code as nat, 10) + "）"@,
            ),
            TargetError::ProcessTimeUnavailable(code) => is_error(
                r,
                IpcErrorCode::WindowUnavailable,
                "无法读取当前前台进程的创建时间（Win32 错误码 "@ + spec_digits(code as nat, 10) + "）"@,
            ),
        },
{
    match error {
        TargetError::NoForegroundWindow => IpcError::new(IpcErrorCode::WindowUnavailable, "系统当前没有可读取的前台窗口"),
        TargetError::WindowTitleUnavailable => IpcError::new(IpcErrorCode::WindowUnavailable, "无法读取当前前台窗口标题"),
        TargetError::WindowStateUnavailable => IpcError::new(IpcErrorCode::WindowUnavailable, "无法读取当前前台窗口的显示状态"),
        TargetError::ProcessUnavailable(code) => {
            let digits = string_of(digits_of(code as u64, 10).as_slice());
            let head = concat2("无法读取当前前台窗口的进程身份（Win32 错误码 ", digits.as_str());
            IpcError::new(IpcErrorCode::WindowUnavailable, concat2(head.as_str(), "）").as_str())
        },
        TargetError::ProcessTimeUnavailable(code) => {
            let digits = string_of(digits_of(code as u64, 10).as_slice());
            let head = concat2("无法读取当前前台进程的创建时间（Win32 错误码 ", digits.as_str());
            IpcError::new(IpcErrorCode::WindowUnavailable, concat2(head.as_str(), "）").as_str())
        },
    }
}

/// The message for a game that runs with more rights than the assistant.
pub open spec fn integrity_message() -> Seq<char> {
    "Windows 阻止低权限助手控制高权限游戏。请关闭游戏和助手后重新打开，优先都普通运行；如果游戏必须管理员运行，助手也必须管理员运行"@
}

/// Input may only go to a game whose integrity level is not above ours.
pub fn ensure_integrity_compatible(integrity: &IntegrityDiagnostic) -> (r: Result<(), IpcError>)
    ensures
        r is Ok <==> integrity.compatible == Some(true),
        r matches Err(e) ==> is_error(e, IpcErrorCode::IntegrityIncompatible, integrity_message()),
{
    if integrity.compatible == Some(true) {
        Ok(())
    } else {
        Err(IpcError::new(
            IpcErrorCode::IntegrityIncompatible,
            "Windows 阻止低权限助手控制高权限游戏。请关闭游戏和助手后重新打开，优先都普通运行；如果游戏必须管理员运行，助手也必须管理员运行",
        ))
    }
}

/// The window a probe session targets: a valid foreground window with a
/// known identity.
pub fn probe_target(diagnostic: &TargetDiagnostic) -> (r: Result<TargetIdentity, IpcError>)
    ensures
        ({
            let d = diagnostic;
            let valid = d.title_matches && d.is_window && d.visible && !d.minimized && !d.cloaked;
            &&& valid && d.identity is Some ==> r == Ok::<TargetIdentity, IpcError>(d.identity->0)
            &&& valid && d.identity is None ==> r is Err && is_error(r->Err_0, IpcErrorCode::WindowUnavailable, "目标窗口身份不可用"@)
            &&& !valid ==> r is Err
        }),
{
    match validate_target(diagnostic) {
        Err(e) => Err(e),
        Ok(()) => match diagnostic.identity {
            Some(t) => Ok(t),
            None => Err(IpcError::new(IpcErrorCode::WindowUnavailable, "目标窗口身份不可用")),
        },
    }
}

/// How long a cancel that arrived between transactions stays valid, in ms.
pub const PENDING_CANCEL_TTL_MS: u64 = 500;

/// A pending cancel armed at `armed_ms` still applies at `now_ms`.
pub fn pending_cancel_hit(armed_ms: Option<u64>, now_ms: u64) -> (r: bool)
    ensures
        r == match armed_ms {
            None => false,
            Some(at) => crate::monitor::elapsed_ms(at, now_ms) <= PENDING_CANCEL_TTL_MS,
        },
{
    match armed_ms {
        None => false,
        Some(at) => {
            let elapsed = if now_ms >= at {
                now_ms - at
            } else {
                0
            };
            elapsed <= PENDING_CANCEL_TTL_MS
        },
    }
}

/// Characters allowed in a front-end diagnostic stage name.
pub open spec fn is_stage_char(c: char) -> bool {
    crate::chars::spec_is_ascii_alphanumeric(c) || c == '.' || c == '_' || c == '-'
}

/// The log stage of a front-end diagnostic: `client.` and the trimmed name,
/// which must be 1 to 64 letters, digits, dots, underscores or hyphens.
pub fn client_diagnostic_stage(stage: &str) -> (r: Result<String, IpcError>)
    ensures
        ({
            let t = trim_ws(stage@);
            if t.len() == 0 || t.len() > 64 || !(forall|i: int| 0 <= i < t.len() ==> is_stage_char(#[trigger] t[i])) {
                r is Err && is_error(r->Err_0, IpcErrorCode::InternalState, "前端诊断阶段名称无效"@)
            } else {
                r is Ok && r->Ok_0@ == "client."@ + t
            }
        }),
{
    let t = trim_whitespace(chars_of(stage).as_slice());
    if t.len() == 0 || t.len() > 64 {
        return Err(IpcError::new(IpcErrorCode::InternalState, "前端诊断阶段名称无效"));
    }
    let mut i: usize = 0;
    while i < t.len()
        invariant
            t@ == trim_ws(stage@),
            0 < t@.len() <= 64,
            i <= t@.len(),
            forall|j: int| 0 <= j < i ==> is_stage_char(#[trigger] t@[j]),
        decreases t.len() - i,
    {
        let c = t[i];
        let ok = ('A' <= c && c <= 'Z') || ('a' <= c && c <= 'z') || ('0' <= c && c <= '9') || c == '.' || c == '_' || c == '-';
        if !ok {
            assert(!is_stage_char(t@[i as int]));
            return Err(IpcError::new(IpcErrorCode::InternalState, "前端诊断阶段名称无效"));
        }
        i = i + 1;
    }
    Ok(concat2("client.", string_of(t.as_slice()).as_str()))
}

/// Where release pages of this application live.
pub const RELEASE_URL_PREFIX: &'static str = "https://github.com/fiatlux2333/Helldivers2-Chinese-Helper/releases/";
/// The API that names the latest release.
pub const LATEST_RELEASE_API: &'static str = "https://api.github.com/repos/fiatlux2333/Helldivers2-Chinese-Helper/releases/latest";

/// A release page address must belong to this application's releases.
pub fn release_url_is_expected(url: &str) -> (r: bool)
    ensures
        r == has_prefix(url@, RELEASE_URL_PREFIX@),
{
    starts_with_chars(chars_of(url).as_slice(), chars_of(RELEASE_URL_PREFIX).as_slice())
}

/// A release tag without blanks and without leading `v`/`V`.
pub open spec fn release_version_text(value: Seq<char>) -> Seq<char> {
    trim_start_by(trim_ws(value), CharClass::VersionPrefix)
}

#[verifier::external_type_specification]
#[verifier::external_body]
pub struct ExSemverVersion(semver::Version);

/// Whether `semver::Version::parse` accepts the text.
pub uninterp spec fn semver_accepts(text: Seq<char>) -> bool;

/// The version `semver::Version::parse` reads from the text.
pub uninterp spec fn semver_parsed(text: Seq<char>) -> semver::Version;

/// The message of the error `semver::Version::parse` gives for the text.
pub uninterp spec fn semver_error_message(text: Seq<char>) -> Seq<char>;

/// `semver::Version::parse`: a function of the text; the error is turned
/// into its message.
#[verifier::external_body]
fn parse_semver(text: &str) -> (r: Result<semver::Version, String>)
    ensures
        r is Ok <==> semver_accepts(text@),
        r matches Ok(v) ==> v == semver_parsed(text@),
        r matches Err(m) ==> m@ == semver_error_message(text@),
{
    semver::Version::parse(text).map_err(|error| error.to_string())
}

/// The semantic version of a release tag such as `v1.2.3`.
pub fn parse_release_version(value: &str) -> (r: Result<semver::Version, String>)
    ensures
        r is Ok <==> semver_accepts(release_version_text(value@)),
        r matches Ok(v) ==> v == semver_parsed(release_version_text(value@)),
        r matches Err(m) ==> m@ == semver_error_message(release_version_text(value@)),
{
    let t = trim_whitespace(chars_of(value).as_slice());
    let v = trim_start_class(t.as_slice(), CharClass::VersionPrefix);
    let text = string_of(v.as_slice());
    parse_semver(text.as_str())
}

/// The version `semver::Version::parse` reads from the text, printed back
/// by its `Display` (`major.minor.patch`, then `-pre` and `+build`).
pub uninterp spec fn semver_display(text: Seq<char>) -> Seq<char>;

/// Whether the version read from `latest` is greater than the one read from
/// `current` in `semver::Version`'s order.
pub uninterp spec fn semver_newer_than(latest: Seq<char>, current: Seq<char>) -> bool;

/// `semver::Version::parse`, and the version printed back with its
/// `Display`; the error is turned into its message.
#[verifier::external_body]
fn semver_canonical(text: &str) -> (r: Result<String, String>)
    ensures
        r is Ok <==> semver_accepts(text@),
        r matches Ok(s) ==> s@ == semver_display(text@),
        r matches Err(m) ==> m@ == semver_error_message(text@),
{
    match semver::Version::parse(text) {
        Ok(version) => Ok(version.to_string()),
        Err(error) => Err(error.to_string()),
    }
}

/// `>` between the versions `semver::Version::parse` reads from two texts
/// it accepts. The order is the one `Version` derives, so a version is
/// never greater than itself.
#[verifier::external_body]
fn semver_greater(latest: &str, current: &str) -> (r: bool)
    requires
        semver_accepts(latest@),
        semver_accepts(current@),
    ensures
        r == semver_newer_than(latest@, current@),
        latest@ == current@ ==> !r,
{
    match (semver::Version::parse(latest), semver::Version::parse(current)) {
        (Ok(l), Ok(c)) => l > c,
        _ => false,
    }
}

fn prefixed_error(code: IpcErrorCode, prefix: &str, detail: &str) -> (r: IpcError)
    ensures
        r.code == code,
        r.message@ == prefix@ + detail@,
        has_prefix(r.message@, prefix@),
{
    let message = concat2(prefix, detail);
    assert((prefix@ + detail@).subrange(0, prefix@.len() as int) =~= prefix@);
    IpcError::new(code, message.as_str())
}

/// What an update check reports once the latest release is known: its page
/// must be one of this application's releases, both tags must hold semantic
/// versions (a leading `v` allowed), and an update is offered when the
/// latest version is greater than the running one.
pub fn update_check_view(current_tag: &str, latest_tag: &str, release_url: String) -> (r: Result<UpdateCheckView, IpcError>)
    ensures
        ({
            let current = release_version_text(current_tag@);
            let latest = release_version_text(latest_tag@);
            if !has_prefix(release_url@, RELEASE_URL_PREFIX@) {
                r matches Err(e) && is_error(e, IpcErrorCode::ApiResponseInvalid, "GitHub 返回了非预期的下载地址"@)
            } else if !semver_accepts(current) {
                r matches Err(e) && e.code == IpcErrorCode::InternalState && e.message@ == "当前版本无效："@ + semver_error_message(current)
                    && has_prefix(e.message@, "当前版本无效："@)
            } else if !semver_accepts(latest) {
                r matches Err(e) && e.code == IpcErrorCode::ApiResponseInvalid && e.message@ == "GitHub 版本号无效："@ + semver_error_message(latest)
                    && has_prefix(e.message@, "GitHub 版本号无效："@)
            } else {
                r matches Ok(v) && {
                    &&& v.current_version@ == semver_display(current)
                    &&& v.latest_version@ == semver_display(latest)
                    &&& v.update_available == semver_newer_than(latest, current)
                    &&& v.release_url == release_url
                }
            }
        }),
        release_version_text(current_tag@) == release_version_text(latest_tag@) ==> (r matches Ok(v) ==> !v.update_available),
{
    if !release_url_is_expected(release_url.as_str()) {
        return Err(IpcError::new(IpcErrorCode::ApiResponseInvalid, "GitHub 返回了非预期的下载地址"));
    }
    let ct = trim_whitespace(chars_of(current_tag).as_slice());
    let current_text = string_of(trim_start_class(ct.as_slice(), CharClass::VersionPrefix).as_slice());
    let lt = trim_whitespace(chars_of(latest_tag).as_slice());
    let latest_text = string_of(trim_start_class(lt.as_slice(), CharClass::VersionPrefix).as_slice());
    let current_version = match semver_canonical(current_text.as_str()) {
        Ok(v) => v,
        Err(message) => {
            return Err(prefixed_error(IpcErrorCode::InternalState, "当前版本无效：", message.as_str()));
        },
    };
    let latest_version = match semver_canonical(latest_text.as_str()) {
        Ok(v) => v,
        Err(message) => {
            return Err(prefixed_error(IpcErrorCode::ApiResponseInvalid, "GitHub 版本号无效：", message.as_str()));
        },
    };
    let update_available = semver_greater(latest_text.as_str(), current_text.as_str());
    Ok(UpdateCheckView { current_version, latest_version, update_available, release_url })
}

// ---------------------------------------------------------------------------
// Results handed to the user interface

/// A probe session: its generation and what was found about the target.
#[derive(Debug, Clone, PartialEq, Eq)]
pub struct ProbeSession {
    pub generation: u64,
    pub diagnostic: TargetDiagnostic,
    pub integrity: IntegrityDiagnostic,
}

/// The game's keyboard layout around a handoff to gameplay.
#[derive(Debug, Clone, Copy, PartialEq, Eq, Structural)]
pub struct GameplayInputHandoff {
    pub before_layout: u32,
    pub active_layout: u32,
    pub changed: bool,
}

pub fn gameplay_input_handoff(h: crate::injector::GameplayKeyboardLayoutHandoff) -> (r: GameplayInputHandoff)
    ensures
        r.before_layout == h.before,
        r.active_layout == h.active,
        r.changed == h.changed,
{
    GameplayInputHandoff { before_layout: h.before, active_layout: h.active, changed: h.changed }
}

/// The session after a recovery, and what was recovered.
#[derive(Debug, Clone, PartialEq, Eq)]
pub struct InputRecoveryResult {
    pub session: SessionSnapshot,
    pub keys_recovered: bool,
    pub caps_recovered: bool,
}

/// Translated chat lines and the OCR languages that read them.
#[derive(Debug, Clone, PartialEq, Eq)]
pub struct ChatTranslationResult {
    pub lines: Vec<TranslatedChatLine>,
    pub message_ocr_language: String,
    pub speaker_ocr_language: String,
}

/// The diagnostic log and where it is kept.
#[derive(Debug, Clone, PartialEq, Eq)]
pub struct DiagnosticLogsView {
    pub path: String,
    pub content: String,
}

/// The outcome of an update check.
#[derive(Debug, Clone, PartialEq, Eq)]
pub struct UpdateCheckView {
    pub current_version: String,
    pub latest_version: String,
    pub update_available: bool,
    pub release_url: String,
}

} // verus!
