use helldivers2_cn_helper::translation::{
    budget_exhausted_error, check_lines_to_translate, clean_translation, configured_prompt,
    default_quick_shouts, empty_choices_error, invalid_reply_error, is_stale_default_prompt,
    normalize_chat_key, request_error, response_body_summary, sanitize_quick_shouts,
    validate_settings, validate_settings_with_proxy, HttpFailureAction, QuickShout, ReplyAction,
    TokenBudget, TranslationError, DEFAULT_INCOMING_PROMPT, REFERENCE_INCOMING_PROMPT,
};

#[test]
fn settings_need_an_address_and_a_model() {
    assert_eq!(
        validate_settings("", "model", ""),
        Err(TranslationError::MissingApiUrl)
    );
    assert_eq!(
        validate_settings("ftp://example.com", "model", ""),
        Err(TranslationError::InvalidApiUrl)
    );
    assert_eq!(
        validate_settings("https://example.com/v1", "  ", ""),
        Err(TranslationError::MissingModel)
    );
    assert_eq!(validate_settings("https://example.com/v1", "gpt", ""), Ok(()));
}

#[test]
fn proxies_are_checked_by_reqwest() {
    assert_eq!(
        validate_settings("https://example.com/v1", "gpt", " http://127.0.0.1:7890 "),
        Ok(())
    );
    assert_eq!(
        validate_settings("https://example.com/v1", "gpt", "http://[::1"),
        Err(TranslationError::InvalidProxy)
    );
    assert_eq!(
        validate_settings_with_proxy("https://example.com/v1", "gpt", "x", false),
        Err(TranslationError::InvalidProxy)
    );
    assert_eq!(
        validate_settings_with_proxy("https://example.com/v1", "gpt", "", false),
        Ok(())
    );
}

#[test]
fn blank_prompts_fall_back() {
    assert_eq!(configured_prompt("  ", "fallback"), "fallback");
    assert_eq!(configured_prompt("  mine \n", "fallback"), "mine");
}

#[test]
fn stale_prompts_are_recognised() {
    assert!(is_stale_default_prompt(""));
    assert!(is_stale_default_prompt(DEFAULT_INCOMING_PROMPT));
    assert!(!is_stale_default_prompt(REFERENCE_INCOMING_PROMPT));
    assert!(is_stale_default_prompt("HD2跨服聊天 EN→简中。旧版本"));
    assert!(!is_stale_default_prompt("Translate politely."));
}

#[test]
fn replies_are_cleaned_of_quotes() {
    assert_eq!(clean_translation("  \"hello\" ").unwrap(), "hello");
    assert_eq!(
        clean_translation(" \"\" "),
        Err(TranslationError::Response("聊天翻译返回了空结果".to_owned()))
    );
}

#[test]
fn response_summaries_drop_control_characters() {
    assert_eq!(response_body_summary(b"  ok\x01 body\x7f  ", 100), "ok body");
    assert_eq!(response_body_summary(b"abcdef", 3), "abc");
    assert_eq!(response_body_summary(&[0x61, 0xff, 0x62], 10), "a\u{fffd}b");
}

#[test]
fn chat_keys_normalize_numpad_enter() {
    assert_eq!(
        normalize_chat_key(" NumpadEnter ", false, "KeyY"),
        ("Enter".to_owned(), true)
    );
    assert_eq!(normalize_chat_key("Enter", true, "KeyY"), ("Enter".to_owned(), true));
    assert_eq!(normalize_chat_key("KeyT", true, "Enter"), ("KeyT".to_owned(), false));
    assert_eq!(normalize_chat_key("Bogus", false, "KeyY"), ("KeyY".to_owned(), false));
}

#[test]
fn quick_shouts_are_trimmed_limited_and_filtered() {
    let defaults = default_quick_shouts();
    assert_eq!(defaults.len(), 8);
    assert_eq!(defaults[0].message, "follow me");

    let mut shouts = vec![
        QuickShout {
            label: "  ".to_owned(),
            message: "dropped".to_owned(),
            hotkey: "F1".to_owned(),
        },
        QuickShout {
            label: " 标签 ".to_owned(),
            message: "x".repeat(120),
            hotkey: " F2 ".to_owned(),
        },
    ];
    for index in 0..12 {
        shouts.push(QuickShout {
            label: format!("L{index}"),
            message: "m".to_owned(),
            hotkey: String::new(),
        });
    }
    let sanitized = sanitize_quick_shouts(&shouts);
    assert_eq!(sanitized.len(), 11);
    assert_eq!(sanitized[0].label, "标签");
    assert_eq!(sanitized[0].message.chars().count(), 100);
    assert_eq!(sanitized[0].hotkey, "F2");
    assert_eq!(sanitized[10].label, "L9");
}

#[test]
fn the_thinking_switch_is_dropped_once() {
    let mut budget = TokenBudget::new(8, true);
    assert_eq!(budget.max_tokens(), 16);
    assert!(budget.include_thinking_switch());
    assert_eq!(
        budget.on_http_failure(400, "Unknown field: enable_thinking"),
        HttpFailureAction::RetryWithoutThinkingSwitch
    );
    assert!(!budget.include_thinking_switch());
    assert_eq!(
        budget.on_http_failure(400, "unknown field"),
        HttpFailureAction::Fail(TranslationError::Response("HTTP 400: unknown field".to_owned()))
    );
    let mut other = TokenBudget::new(64, false);
    assert_eq!(
        other.on_http_failure(500, "thinking"),
        HttpFailureAction::Fail(TranslationError::Response("HTTP 500: thinking".to_owned()))
    );
}

#[test]
fn a_cut_off_reply_gets_one_larger_budget() {
    let mut budget = TokenBudget::new(300, true);
    assert_eq!(
        budget.on_reply(Some("  hi  "), Some("stop"), 0),
        ReplyAction::Done("hi".to_owned())
    );
    assert_eq!(
        budget.on_reply(None, Some("length"), 40),
        ReplyAction::RetryWithLargerBudget
    );
    assert_eq!(budget.max_tokens(), 512);
    assert_eq!(
        budget.on_reply(Some("  "), Some("length"), 40),
        ReplyAction::Fail(TranslationError::Response(
            "翻译模型未返回最终 content（finish_reason=length，reasoning_chars=40，max_tokens=512）。当前模型可能强制开启思考模式，请改用非推理/Flash 模型以获得实时翻译。".to_owned()
        ))
    );
    let mut single = TokenBudget::new(100, false);
    assert_eq!(
        single.on_reply(None, None, 0),
        ReplyAction::Fail(TranslationError::Response(
            "翻译模型未返回最终 content（finish_reason=unknown，reasoning_chars=0，max_tokens=100）。当前模型可能强制开启思考模式，请改用非推理/Flash 模型以获得实时翻译。".to_owned()
        ))
    );
}

#[test]
fn request_errors_explain_the_failure() {
    assert_eq!(
        request_error(true, true, "x", false),
        TranslationError::Request("连接 API 超时（连接阶段超过 8 秒）".to_owned())
    );
    assert_eq!(
        request_error(true, false, "x", true),
        TranslationError::Request("API 已连接，但模型响应超过 60 秒".to_owned())
    );
    assert_eq!(
        request_error(false, true, "refused", true),
        TranslationError::Request(
            "无法连接 API：refused；当前为直连，请在设置中填写可用的网络代理".to_owned()
        )
    );
    assert_eq!(
        request_error(false, false, "other", true),
        TranslationError::Request("other".to_owned())
    );
}

#[test]
fn fixed_translation_errors_carry_their_messages() {
    assert_eq!(
        budget_exhausted_error(),
        TranslationError::Response("翻译模型在扩大输出额度后仍未返回最终结果".to_owned())
    );
    assert_eq!(
        empty_choices_error(),
        TranslationError::Response("翻译接口返回的 choices 为空".to_owned())
    );
    assert_eq!(
        invalid_reply_error("eof", "{"),
        TranslationError::Response("翻译响应不是有效的 OpenAI 兼容 JSON：eof；正文摘要：{".to_owned())
    );
    assert_eq!(check_lines_to_translate(1), Ok(()));
    assert_eq!(
        check_lines_to_translate(0),
        Err(TranslationError::Response("没有可翻译的聊天消息".to_owned()))
    );
}
