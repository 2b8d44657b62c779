use threadbridge::final_reply::{
    build_overflow_notice, first_preview_snippet, overflow_attachment_path, plan_final_assistant_reply,
    truncate_chars, TelegramReplyPlan, OVERFLOW_NOTICE,
};
use threadbridge::markdown::{escape_html, render_markdown_to_telegram_html};

#[test]
fn renders_supported_markdown_to_html() {
    let plan = plan_final_assistant_reply(
        "# Heading\n\nUse `cargo test` in **this** repo.\n\n- one\n- two",
        4096,
    );
    let text = match plan {
        TelegramReplyPlan::InlineHtml { text } => text,
        _ => panic!("expected inline html"),
    };
    assert!(text.contains("<b>Heading</b>"));
    assert!(text.contains("<code>cargo test</code>"));
    assert!(text.contains("<b>this</b>"));
    assert!(text.contains("- one"));
    assert!(text.contains("- two"));
}

#[test]
fn escapes_raw_html() {
    let plan = plan_final_assistant_reply("<script>alert(1)</script>", 4096);
    let text = match plan {
        TelegramReplyPlan::InlineHtml { text } => text,
        _ => panic!("expected inline html"),
    };
    assert!(text.contains("&lt;script&gt;alert(1)&lt;/script&gt;"));
    assert!(!text.contains("<script>"));
}

#[test]
fn unsupported_blocks_fallback_to_code_block() {
    let plan = plan_final_assistant_reply("> nested\n> quote", 4096);
    let text = match plan {
        TelegramReplyPlan::InlineHtml { text } => text,
        _ => panic!("expected inline html"),
    };
    assert!(text.contains("<pre><code>nested\nquote</code></pre>"));
}

#[test]
fn oversized_replies_switch_to_markdown_attachment() {
    let raw = "a".repeat(5000);
    let plan = plan_final_assistant_reply(&raw, 4096);
    let (notice_text, markdown) = match plan {
        TelegramReplyPlan::MarkdownAttachment { notice_text, markdown } => (notice_text, markdown),
        _ => panic!("expected markdown attachment"),
    };
    assert!(notice_text.starts_with(OVERFLOW_NOTICE));
    assert_eq!(markdown, raw);
}

#[test]
fn preview_snippet_uses_first_non_empty_paragraph() {
    let snippet = first_preview_snippet("\n\nFirst paragraph here.\n\nSecond paragraph");
    assert_eq!(snippet, "First paragraph here.");
}

#[test]
fn empty_reply_stays_plain_text() {
    let plan = plan_final_assistant_reply("   ", 4096);
    assert_eq!(
        plan,
        TelegramReplyPlan::InlinePlainText { text: String::new(), reason: "empty_reply" }
    );
}

#[test]
fn reply_that_fits_exactly_stays_inline() {
    let raw = "b".repeat(4096);
    let plan = plan_final_assistant_reply(&raw, 4096);
    assert_eq!(plan, TelegramReplyPlan::InlineHtml { text: raw });
}

#[test]
fn overflow_notice_carries_collapsed_preview() {
    let notice = build_overflow_notice("  Line   one\nline two  \n\nrest");
    assert_eq!(notice, format!("{}\n\nLine one line two", OVERFLOW_NOTICE));
    assert_eq!(build_overflow_notice("   "), OVERFLOW_NOTICE);
}

#[test]
fn truncation_keeps_limit_with_ellipsis() {
    assert_eq!(truncate_chars("abcdef", 6), "abcdef");
    assert_eq!(truncate_chars("abcdefg", 6), "abc...");
    assert_eq!(truncate_chars("abcdefg", 2), "...");
}

#[test]
fn escaped_html_has_no_markup_characters() {
    let escaped = escape_html("a<b>&\"c\"");
    assert_eq!(escaped, "a&lt;b&gt;&amp;&quot;c&quot;");
    assert!(!escaped.contains('<') && !escaped.contains('>') && !escaped.contains('"'));
}

#[test]
fn markdown_renders_ordered_lists_and_fenced_code() {
    let html = render_markdown_to_telegram_html("3. three\n4. four\n\n```rust\nlet x = 1;\n```");
    assert!(html.contains("3. three"));
    assert!(html.contains("4. four"));
    assert!(html.contains("<pre><code>rust\nlet x = 1;\n</code></pre>"));
}

#[test]
fn markdown_renders_emphasis_and_links() {
    let html = render_markdown_to_telegram_html("*it* and [site](https://example.com)");
    assert!(html.contains("<i>it</i>"));
    assert!(html.contains("<a href=\"https://example.com\">site</a>"));
}

#[test]
fn overflow_attachment_is_named_by_time() {
    let path = overflow_attachment_path("/data/thread/state", 1700000000000);
    assert_eq!(path, "/data/thread/state/telegram/overflow-reply-1700000000000.md");
}
