use helldivers2_cn_helper::chat::{expand_ocr_chat_line, parse_chat_line, ParsedChatLine};
use helldivers2_cn_helper::ocr::{merge_bilingual_ocr_lines, merge_ocr_chat_lines, prefer_latin_ocr, OcrReading, PositionedOcrLine};
use helldivers2_cn_helper::tracker::ChatLineTracker;
use helldivers2_cn_helper::translation::{
    clamp_quick_shout_focus_delay_ms, extract_json_array, normalize_chat_completions_url,
    refresh_stale_default_prompts, response_body_summary, TranslationError, DEFAULT_INCOMING_PROMPT,
    DEFAULT_OUTGOING_PROMPT, REFERENCE_INCOMING_PROMPT, REFERENCE_OUTGOING_PROMPT,
};

fn line(speaker: &str, message: &str) -> ParsedChatLine {
    ParsedChatLine {
        speaker: speaker.to_owned(),
        message: message.to_owned(),
    }
}

/// Positions are in thousandths of a pixel.
fn positioned(text: &str, top: i64, height: i64) -> PositionedOcrLine {
    PositionedOcrLine {
        text: text.to_owned(),
        top,
        height,
    }
}

#[test]
fn normalizes_openai_compatible_urls() {
    assert_eq!(
        normalize_chat_completions_url("https://example.com/v1/").unwrap(),
        "https://example.com/v1/chat/completions"
    );
    assert_eq!(
        normalize_chat_completions_url("http://localhost:11434/v1/chat/completions/").unwrap(),
        "http://localhost:11434/v1/chat/completions"
    );
    assert_eq!(
        normalize_chat_completions_url("ftp://example.com"),
        Err(TranslationError::InvalidApiUrl)
    );
}

#[test]
fn quick_shout_focus_delay_is_clamped_to_the_supported_range() {
    assert_eq!(clamp_quick_shout_focus_delay_ms(0), 300);
    assert_eq!(clamp_quick_shout_focus_delay_ms(500), 500);
    assert_eq!(clamp_quick_shout_focus_delay_ms(5_000), 1_200);
}

#[test]
fn reference_prompts_include_directional_terms_and_output_rules() {
    assert!(REFERENCE_INCOMING_PROMPT.contains("predator stalker=花蚊子"));
    assert!(REFERENCE_INCOMING_PROMPT.contains("术语翻译前先查询下方核心词库"));
    assert!(REFERENCE_INCOMING_PROMPT.contains("仍无法确定时保留原词"));
    assert!(REFERENCE_INCOMING_PROMPT.contains("只输出最终中文译文"));
    assert!(REFERENCE_OUTGOING_PROMPT.contains("轮椅炮/AT炮=AT emplacement"));
    assert!(REFERENCE_OUTGOING_PROMPT.contains("术语翻译前先查询下方核心词库"));
    assert!(REFERENCE_OUTGOING_PROMPT.contains("禁止逐字硬译或自造英文黑话"));
    assert!(REFERENCE_OUTGOING_PROMPT.contains("只输出最终英文"));
}

#[test]
fn stale_builtins_refresh_without_overwriting_custom_prompts() {
    let mut incoming = DEFAULT_INCOMING_PROMPT.to_owned();
    let mut outgoing = DEFAULT_OUTGOING_PROMPT.to_owned();
    refresh_stale_default_prompts(&mut incoming, &mut outgoing);
    assert_eq!(incoming, REFERENCE_INCOMING_PROMPT);
    assert_eq!(outgoing, REFERENCE_OUTGOING_PROMPT);

    incoming = "我的自定义英译中提示词".to_owned();
    outgoing = "my custom outgoing prompt".to_owned();
    refresh_stale_default_prompts(&mut incoming, &mut outgoing);
    assert_eq!(incoming, "我的自定义英译中提示词");
    assert_eq!(outgoing, "my custom outgoing prompt");
}

#[test]
fn parses_speaker_without_translating_it() {
    assert_eq!(
        parse_chat_line("牡蛎: Super Earth is just a pig."),
        line("牡蛎", "Super Earth is just a pig.")
    );
}

#[test]
fn splits_glued_ocr_chat_messages_with_repeated_speakers() {
    assert_eq!(
        expand_ocr_chat_line(
            "牡蛎: warrior牡蛎: BT / titan 牡蛎: overseer 牡蛎: commander 牡蛎: radical / agitator"
        ),
        vec![
            line("牡蛎", "warrior"),
            line("牡蛎", "BT / titan"),
            line("牡蛎", "overseer"),
            line("牡蛎", "commander"),
            line("牡蛎", "radical / agitator"),
        ]
    );
}

#[test]
fn ignores_speaker_only_ocr_crumbs() {
    assert!(expand_ocr_chat_line("牡蛎:").is_empty());
    assert_eq!(
        expand_ocr_chat_line("牡蛎: warrior 牡蛎:"),
        vec![line("牡蛎", "warrior")]
    );
}

#[test]
fn extracts_json_array_from_fenced_model_output() {
    assert_eq!(
        extract_json_array("```json\n[\"收到\",\"快走\"]\n```").as_deref(),
        Some("[\"收到\",\"快走\"]")
    );
}

#[test]
fn summarizes_non_utf8_response_bodies_without_panicking() {
    let expected = format!("OK{}", char::REPLACEMENT_CHARACTER);
    assert_eq!(response_body_summary(&[b'O', b'K', 0, 0xFF], 20), expected);
}

#[test]
fn merges_configured_speaker_with_english_message_by_position() {
    let configured = OcrReading {
        language: "zh-Hans-CN".to_owned(),
        lines: vec![positioned("牡蛎：超级地球简直就是个垃圾", 40_000, 20_000)],
    };
    let english = OcrReading {
        language: "en-US".to_owned(),
        lines: vec![positioned("牡蛎: Super Earth is just a pig.", 41_000, 19_000)],
    };
    let primary = prefer_latin_ocr(&configured, &english);
    assert_eq!(primary.language, "en-US");
    assert_eq!(
        merge_ocr_chat_lines(&primary.lines, &configured.lines),
        vec![line("牡蛎", "Super Earth is just a pig.")]
    );
}

#[test]
fn merges_chinese_and_english_chat_lines_by_position() {
    let chinese = vec![
        positioned("牡蛎：快撤退", 10_000, 18_000),
        positioned("Eagle1: extraction ready", 40_000, 18_000),
    ];
    let english = vec![positioned("Eagle1: extraction ready!", 41_000, 18_000)];

    assert_eq!(
        merge_bilingual_ocr_lines(&chinese, &english),
        vec![line("牡蛎", "快撤退"), line("Eagle1", "extraction ready!")]
    );
}

#[test]
fn merges_a_wrapped_ocr_line_into_the_previous_chat_message() {
    let chinese = vec![
        positioned("牡蛎: I marked the locations for the", 10_000, 18_000),
        positioned("tasks.", 29_000, 18_000),
        positioned("牡蛎: Why is an error being reported?", 52_000, 18_000),
    ];

    assert_eq!(
        merge_bilingual_ocr_lines(&chinese, &[]),
        vec![
            line("牡蛎", "I marked the locations for the tasks."),
            line("牡蛎", "Why is an error being reported?"),
        ]
    );
}

fn parsed(message: &str) -> ParsedChatLine {
    ParsedChatLine {
        speaker: "Player".to_owned(),
        message: message.to_owned(),
    }
}

#[test]
fn tracks_only_appended_chat_lines() {
    let mut tracker = ChatLineTracker::default();
    let first = vec![parsed("one"), parsed("two")];
    assert_eq!(tracker.pending_lines(7, &first), first);
    tracker.commit(7, &first);

    let next = vec![parsed("one"), parsed("two"), parsed("three")];
    assert_eq!(tracker.pending_lines(7, &next), vec![parsed("three")]);
}

#[test]
fn tracks_new_lines_after_the_chat_window_scrolls() {
    let mut tracker = ChatLineTracker::default();
    let previous = vec![parsed("one"), parsed("two"), parsed("three")];
    tracker.commit(3, &previous);

    let current = vec![parsed("two"), parsed("three"), parsed("four"), parsed("five")];
    assert_eq!(
        tracker.pending_lines(3, &current),
        vec![parsed("four"), parsed("five")]
    );
}

#[test]
fn treats_an_appended_duplicate_message_as_new() {
    let mut tracker = ChatLineTracker::default();
    tracker.commit(3, &[parsed("same message")]);

    assert_eq!(
        tracker.pending_lines(3, &[parsed("same message"), parsed("same message")]),
        vec![parsed("same message")]
    );
}

#[test]
fn ignores_minor_ocr_spacing_and_punctuation_changes() {
    let mut tracker = ChatLineTracker::default();
    tracker.commit(2, &[parsed("Super Earth, forever!")]);

    assert!(tracker.pending_lines(2, &[parsed("Super  Earth forever")]).is_empty());
}

#[test]
fn starts_fresh_for_a_new_target_generation() {
    let mut tracker = ChatLineTracker::default();
    tracker.commit(1, &[parsed("old")]);

    assert_eq!(tracker.pending_lines(2, &[parsed("old")]), vec![parsed("old")]);
}
