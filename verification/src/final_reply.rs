//! How the final assistant reply of a turn is delivered to Telegram: as
//! inline HTML, as plain text, or, when too long, as a Markdown attachment
//! announced by a short notice.
use vstd::prelude::*;
use crate::markdown::{render_markdown, render_markdown_to_telegram_html};
use crate::text::{
    chars_of, signed_decimal, signed_decimal_string, is_blank, is_ws, is_whitespace, push_str, string_from_chars,
    string_from_range, trim_bounds, trimmed, blank, char_count,
};

verus! {

/// Maximum characters of an inline Telegram message.
pub const INLINE_MESSAGE_CHAR_LIMIT: usize = 4096;

/// Maximum characters of the preview shown with an attachment.
pub const PREVIEW_CHAR_LIMIT: usize = 800;

/// File name of the attachment that carries an oversized reply.
pub const OVERFLOW_FILE_NAME: &'static str = "reply.md";

/// Notice sent before an oversized reply's attachment.
pub const OVERFLOW_NOTICE: &'static str = "Reply too long for inline Telegram delivery. Full response attached.";

/// How a final reply is delivered.
#[derive(Debug, Clone, PartialEq, Eq)]
pub enum TelegramReplyPlan {
    InlineHtml { text: String },
    InlinePlainText { text: String, reason: &'static str },
    MarkdownAttachment { notice_text: String, markdown: String },
}

/// A text cut to at most `max` characters: a longer text keeps its first
/// `max - 3` characters (none when `max < 3`) followed by `...`.
pub open spec fn truncated(t: Seq<char>, max: nat) -> Seq<char> {
    if t.len() <= max {
        t
    } else {
        t.take(if max >= 3 {
            max - 3
        } else {
            0
        }) + seq!['.', '.', '.']
    }
}

/// The words of `s[i..]` appended to `out`, separated by one space, where
/// `gap` says that a space is due before the next word.
pub open spec fn collapse_from(s: Seq<char>, i: int, out: Seq<char>, gap: bool) -> Seq<char>
    decreases s.len() - i,
{
    if i >= s.len() {
        out
    } else if is_ws(s[i]) {
        collapse_from(s, i + 1, out, out.len() > 0)
    } else {
        collapse_from(s, i + 1, (if gap { out.push(' ') } else { out }).push(s[i]), false)
    }
}

/// The words of a text joined by single spaces
/// (`split_whitespace().collect::<Vec<_>>().join(" ")`).
pub open spec fn collapse_whitespace(s: Seq<char>) -> Seq<char> {
    collapse_from(s, 0, Seq::empty(), false)
}

/// Scanning `s` for the paragraphs between `"\n\n"` separators (leftmost
/// first, not overlapping), from a paragraph that starts at `start` with
/// `i` the next position to test: the first paragraph that is not blank,
/// trimmed.
pub open spec fn first_paragraph_from(s: Seq<char>, start: int, i: int) -> Option<Seq<char>>
    decreases s.len() - i,
{
    if i + 1 >= s.len() {
        let seg = s.subrange(start, s.len() as int);
        if is_blank(seg) {
            None
        } else {
            Some(trimmed(seg))
        }
    } else if s[i] == '\n' && s[i + 1] == '\n' {
        let seg = s.subrange(start, i);
        if !is_blank(seg) {
            Some(trimmed(seg))
        } else {
            first_paragraph_from(s, i + 2, i + 2)
        }
    } else {
        first_paragraph_from(s, start, i + 1)
    }
}

/// The first paragraph of a text that is not blank, trimmed; the trimmed
/// text when there is none.
pub open spec fn first_paragraph(s: Seq<char>) -> Seq<char> {
    match first_paragraph_from(s, 0, 0) {
        Some(p) => p,
        None => trimmed(s),
    }
}

/// The preview of a reply: its first paragraph with whitespace collapsed,
/// cut to the preview limit.
pub open spec fn preview_snippet(raw: Seq<char>) -> Seq<char> {
    truncated(collapse_whitespace(first_paragraph(raw)), PREVIEW_CHAR_LIMIT as nat)
}

/// The notice sent before an oversized reply: the fixed notice, followed by
/// a blank line and the preview when there is one.
pub open spec fn overflow_notice(raw: Seq<char>) -> Seq<char> {
    let p = preview_snippet(raw);
    if p.len() == 0 {
        OVERFLOW_NOTICE@
    } else {
        OVERFLOW_NOTICE@ + "\n\n"@ + p
    }
}

/// What the delivery plan holds, given the trimmed reply and its HTML.
pub open spec fn plan_holds(
    plan: TelegramReplyPlan,
    trimmed_reply: Seq<char>,
    html: Seq<char>,
    inline_limit: nat,
) -> bool {
    if trimmed_reply.len() == 0 {
        plan matches TelegramReplyPlan::InlinePlainText { text, reason } && text@ == Seq::<
            char,
        >::empty() && reason@ == "empty_reply"@
    } else if is_blank(html) {
        plan matches TelegramReplyPlan::InlinePlainText { text, reason } && text@ == trimmed_reply
            && reason@ == "html_render_empty"@
    } else if html.len() <= inline_limit {
        plan matches TelegramReplyPlan::InlineHtml { text } && text@ == html
    } else {
        plan matches TelegramReplyPlan::MarkdownAttachment { notice_text, markdown }
            && notice_text@ == overflow_notice(trimmed_reply) && markdown@ == trimmed_reply
    }
}

/// `truncate_chars`: a text cut to at most `max_chars` characters, ending
/// in `...` when it was cut.
pub fn truncate_chars(text: &str, max_chars: usize) -> (r: String)
    ensures
        r@ == truncated(text@, max_chars as nat),
{
    let v = chars_of(text);
    if v.len() <= max_chars {
        return string_from_chars(&v);
    }
    let keep = max_chars.saturating_sub(3);
    let mut r = string_from_range(&v, 0, keep);
    push_str(&mut r, "...");
    proof {
        reveal_strlit("...");
    }
    r
}

/// The words of a text joined by single spaces.
pub fn collapse_whitespace_of(s: &Vec<char>) -> (r: Vec<char>)
    ensures
        r@ == collapse_whitespace(s@),
{
    let mut out: Vec<char> = Vec::new();
    let mut gap = false;
    let mut i: usize = 0;
    while i < s.len()
        invariant
            i <= s@.len(),
            collapse_whitespace(s@) == collapse_from(s@, i as int, out@, gap),
        decreases s@.len() - i,
    {
        let c = s[i];
        if is_whitespace(c) {
            gap = out.len() > 0;
        } else {
            if gap {
                out.push(' ');
            }
            out.push(c);
            gap = false;
        }
        i += 1;
    }
    out
}

/// The first non-blank paragraph of a text, trimmed (the trimmed text when
/// every paragraph is blank).
pub fn first_paragraph_of(s: &Vec<char>) -> (r: Vec<char>)
    ensures
        r@ == first_paragraph(s@),
{
    let n = s.len();
    let mut start: usize = 0;
    let mut i: usize = 0;
    let found: Option<(usize, usize)>;
    loop
        invariant
            start <= i <= n,
            n == s@.len(),
            i + 1 < n ==> start <= i,
            first_paragraph_from(s@, 0, 0) == first_paragraph_from(s@, start as int, i as int),
        ensures
            match found {
                Some((a, b)) => a <= b <= n && first_paragraph_from(s@, 0, 0) == Some(
                    trimmed(s@.subrange(a as int, b as int)),
                ),
                None => first_paragraph_from(s@, 0, 0) is None,
            },
        decreases n - i,
    {
        if n - i <= 1 {
            let seg = slice_chars(s, start, n);
            if blank_chars(&seg) {
                found = None;
            } else {
                found = Some((start, n));
            }
            break ;
        } else if s[i] == '\n' && s[i + 1] == '\n' {
            let seg = slice_chars(s, start, i);
            if !blank_chars(&seg) {
                found = Some((start, i));
                break ;
            } else {
                start = i + 2;
                i = i + 2;
            }
        } else {
            i = i + 1;
        }
    }
    match found {
        Some((a, b)) => {
            let seg = slice_chars(s, a, b);
            let (x, y) = trim_bounds(&seg);
            slice_chars(&seg, x, y)
        },
        None => {
            let (x, y) = trim_bounds(s);
            slice_chars(s, x, y)
        },
    }
}

fn slice_chars(s: &Vec<char>, from: usize, to: usize) -> (r: Vec<char>)
    requires
        from <= to <= s@.len(),
    ensures
        r@ == s@.subrange(from as int, to as int),
{
    let mut r: Vec<char> = Vec::new();
    let mut i = from;
    while i < to
        invariant
            from <= i <= to <= s@.len(),
            r@ == s@.subrange(from as int, i as int),
        decreases to - i,
    {
        r.push(s[i]);
        assert(s@.subrange(from as int, i as int).push(s@[i as int]) =~= s@.subrange(
            from as int,
            i + 1,
        ));
        i += 1;
    }
    r
}

fn blank_chars(s: &Vec<char>) -> (b: bool)
    ensures
        b == is_blank(s@),
{
    let (x, y) = trim_bounds(s);
    x == y
}

/// The preview of a reply shown with its attachment.
pub fn first_preview_snippet(raw_text: &str) -> (r: String)
    ensures
        r@ == preview_snippet(raw_text@),
{
    let v = chars_of(raw_text);
    let paragraph = first_paragraph_of(&v);
    let compact = collapse_whitespace_of(&paragraph);
    let compact_text = string_from_chars(&compact);
    truncate_chars(compact_text.as_str(), PREVIEW_CHAR_LIMIT)
}

/// The notice sent before the attachment of an oversized reply.
pub fn build_overflow_notice(raw_text: &str) -> (r: String)
    ensures
        r@ == overflow_notice(raw_text@),
{
    let preview = first_preview_snippet(raw_text);
    let mut r = String::new();
    push_str(&mut r, OVERFLOW_NOTICE);
    if char_count(preview.as_str()) > 0 {
        push_str(&mut r, "\n\n");
        push_str(&mut r, preview.as_str());
    }
    r
}

/// The delivery plan for a reply, given the reply trimmed and the HTML
/// rendered from it.
pub fn plan_reply_from_html(trimmed_reply: &str, html: String, inline_limit: usize) -> (plan:
    TelegramReplyPlan)
    ensures
        plan_holds(plan, trimmed_reply@, html@, inline_limit as nat),
{
    if char_count(trimmed_reply) == 0 {
        return TelegramReplyPlan::InlinePlainText { text: String::new(), reason: "empty_reply" };
    }
    if blank(html.as_str()) {
        return TelegramReplyPlan::InlinePlainText {
            text: String::from_str(trimmed_reply),
            reason: "html_render_empty",
        };
    }
    if char_count(html.as_str()) <= inline_limit {
        TelegramReplyPlan::InlineHtml { text: html }
    } else {
        TelegramReplyPlan::MarkdownAttachment {
            notice_text: build_overflow_notice(trimmed_reply),
            markdown: String::from_str(trimmed_reply),
        }
    }
}

/// The delivery plan for the final reply of a turn: an empty reply is sent
/// as empty plain text, a reply whose HTML is empty as its plain text, a
/// reply whose HTML fits `inline_limit` characters as HTML, and any longer
/// reply as a Markdown attachment with a notice.
pub fn plan_final_assistant_reply(raw_text: &str, inline_limit: usize) -> (plan:
    TelegramReplyPlan)
    ensures
        plan_holds(
            plan,
            trimmed(raw_text@),
            render_markdown(trimmed(raw_text@)),
            inline_limit as nat,
        ),
{
    let t = crate::text::trim(raw_text);
    if char_count(t.as_str()) == 0 {
        return TelegramReplyPlan::InlinePlainText { text: String::new(), reason: "empty_reply" };
    }
    let html = render_markdown_to_telegram_html(t.as_str());
    plan_reply_from_html(t.as_str(), html, inline_limit)
}

/// Where an oversized reply is written before it is sent: the thread's
/// state directory, `telegram/overflow-reply-<millis>.md`.
pub fn overflow_attachment_path(state_path: &str, timestamp_millis: i64) -> (r: String)
    ensures
        r@ == crate::paths::joined(
            crate::paths::joined(state_path@, "telegram"@),
            "overflow-reply-"@ + signed_decimal(timestamp_millis as int) + ".md"@,
        ),
{
    let dir = crate::paths::path_join(state_path, "telegram");
    let mut name = String::new();
    push_str(&mut name, "overflow-reply-");
    let digits = signed_decimal_string(timestamp_millis);
    push_str(&mut name, digits.as_str());
    push_str(&mut name, ".md");
    crate::paths::path_join(dir.as_str(), name.as_str())
}

/// A delivery plan never sends inline HTML longer than the limit, never
/// sends an empty text as HTML, and an attachment carries the whole
/// (trimmed) reply.
pub proof fn lemma_plan_respects_limit(plan: TelegramReplyPlan, trimmed_reply: Seq<char>, html: Seq<char>, inline_limit: nat)
    requires
        plan_holds(plan, trimmed_reply, html, inline_limit),
    ensures
        plan matches TelegramReplyPlan::InlineHtml { text } ==> text@.len() <= inline_limit && !is_blank(text@),
        plan matches TelegramReplyPlan::MarkdownAttachment { markdown, .. } ==> markdown@ == trimmed_reply
            && trimmed_reply.len() > 0,
        plan is InlinePlainText ==> trimmed_reply.len() == 0 || is_blank(html),
{
}

} // verus!
