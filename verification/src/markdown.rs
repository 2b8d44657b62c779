//! Rendering of a CommonMark event stream into the subset of HTML that
//! Telegram accepts. Constructs Telegram cannot show (block quotes,
//! footnote definitions, tables) fall back to a preformatted block holding
//! their plain text.
use vstd::prelude::*;
use crate::text::{chars_of, decimal, decimal_string, is_ws, string_from_range, trim_bounds, trimmed};
use pulldown_cmark::{CodeBlockKind, Event, Options, Parser, Tag};

verus! {

/// Kind of a code block.
#[derive(Debug, Clone, PartialEq, Eq)]
pub enum MdCodeBlockKind {
    Indented,
    /// A fenced block with its info string (the language, possibly empty).
    Fenced(String),
}

/// A tag of a CommonMark element, as the parser reports it.
#[derive(Debug, Clone, PartialEq, Eq)]
pub enum MdTag {
    Paragraph,
    Heading,
    BlockQuote,
    CodeBlock(MdCodeBlockKind),
    /// A list; ordered lists carry the number of their first item.
    List(Option<u64>),
    Item,
    FootnoteDefinition,
    Table,
    TableHead,
    TableRow,
    TableCell,
    Emphasis,
    Strong,
    Strikethrough,
    /// A link with its destination.
    Link(String),
    /// An image with its destination.
    Image(String),
}

/// One event of a CommonMark parse.
#[derive(Debug, Clone, PartialEq, Eq)]
pub enum MdEvent {
    Start(MdTag),
    End(MdTag),
    Text(String),
    Code(String),
    Html(String),
    FootnoteReference(String),
    SoftBreak,
    HardBreak,
    Rule,
    TaskListMarker(bool),
}

/// The events that the CommonMark parser (all extensions enabled) yields
/// for a text.
pub uninterp spec fn markdown_events(text: Seq<char>) -> Seq<MdEvent>;

/// Tags whose content Telegram cannot render; their text is shown as a
/// preformatted block instead.
pub open spec fn unsupported(tag: MdTag) -> bool {
    match tag {
        MdTag::BlockQuote | MdTag::FootnoteDefinition | MdTag::Table | MdTag::TableHead
        | MdTag::TableRow | MdTag::TableCell => true,
        _ => false,
    }
}

/// The HTML escape of one character.
pub open spec fn escape_char(c: char) -> Seq<char> {
    if c == '&' {
        seq!['&', 'a', 'm', 'p', ';']
    } else if c == '<' {
        seq!['&', 'l', 't', ';']
    } else if c == '>' {
        seq!['&', 'g', 't', ';']
    } else if c == '\"' {
        seq!['&', 'q', 'u', 'o', 't', ';']
    } else {
        seq![c]
    }
}

/// The HTML escape of a text: every `&`, `<`, `>` and `"` replaced by its
/// entity, every other character kept.
pub open spec fn escape(s: Seq<char>) -> Seq<char>
    decreases s.len(),
{
    if s.len() == 0 {
        Seq::empty()
    } else {
        escape(s.drop_last()) + escape_char(s.last())
    }
}

/// The text ends with a line break.
pub open spec fn ends_nl(h: Seq<char>) -> bool {
    h.len() > 0 && h.last() == '\n'
}

/// A line break, unless the text already ends with one.
pub open spec fn line_break(h: Seq<char>) -> Seq<char> {
    if ends_nl(h) {
        h
    } else {
        h.push('\n')
    }
}

/// A blank line between blocks: nothing at the very start, and never more
/// than one blank line.
pub open spec fn block_break(h: Seq<char>) -> Seq<char> {
    if h.len() == 0 {
        h
    } else if h.len() >= 2 && h.last() == '\n' && h[h.len() - 2] == '\n' {
        h
    } else if ends_nl(h) {
        h.push('\n')
    } else {
        h.push('\n').push('\n')
    }
}

/// State of an open list.
#[derive(Debug, Clone, Copy, PartialEq, Eq)]
pub struct ListState {
    pub next_index: u64,
    pub ordered: bool,
}

/// The renderer's state: the HTML written so far, the open lists, the
/// nesting depth inside an unsupported block and that block's text.
pub struct RenderModel {
    pub html: Seq<char>,
    pub lists: Seq<ListState>,
    pub depth: nat,
    pub pending: Seq<char>,
}

pub open spec fn initial_model() -> RenderModel {
    RenderModel { html: Seq::empty(), lists: Seq::empty(), depth: 0, pending: Seq::empty() }
}

pub open spec fn repeat_indent(n: nat) -> Seq<char>
    decreases n,
{
    if n == 0 {
        Seq::empty()
    } else {
        repeat_indent((n - 1) as nat) + seq![' ', ' ']
    }
}

/// The marker that opens a list item: the item number of an ordered list,
/// a dash otherwise.
pub open spec fn item_marker(lists: Seq<ListState>) -> Seq<char> {
    if lists.len() > 0 && lists.last().ordered {
        decimal(lists.last().next_index as nat) + seq!['.', ' ']
    } else {
        seq!['-', ' ']
    }
}

/// The open lists after an item starts: an ordered list counts up.
pub open spec fn lists_after_item(lists: Seq<ListState>) -> Seq<ListState> {
    if lists.len() > 0 && lists.last().ordered {
        lists.drop_last().push(
            ListState { next_index: lists.last().next_index.wrapping_add(1), ordered: true },
        )
    } else {
        lists
    }
}

/// The HTML after the start of a list item.
pub open spec fn item_start(h: Seq<char>, lists: Seq<ListState>) -> Seq<char> {
    let h1 = if h.len() > 0 && !ends_nl(h) {
        h.push('\n')
    } else {
        h
    };
    let depth: nat = if lists.len() > 0 {
        (lists.len() - 1) as nat
    } else {
        0
    };
    h1 + repeat_indent(depth) + item_marker(lists)
}

/// The HTML that opens a code block.
pub open spec fn code_block_open(h: Seq<char>, kind: MdCodeBlockKind) -> Seq<char> {
    let h1 = block_break(h) + "<pre><code>"@;
    match kind {
        MdCodeBlockKind::Fenced(lang) => {
            let l = trimmed(lang@);
            if l.len() > 0 {
                h1 + escape(l) + seq!['\n']
            } else {
                h1
            }
        },
        MdCodeBlockKind::Indented => h1,
    }
}

/// The HTML after writing the content of an unsupported block.
pub open spec fn flush_html(h: Seq<char>, pending: Seq<char>) -> Seq<char> {
    let t = trimmed(pending);
    if t.len() == 0 {
        h
    } else {
        block_break(block_break(h) + "<pre><code>"@ + escape(t) + "</code></pre>"@)
    }
}

/// The effect of one event inside an unsupported block.
pub open spec fn step_unsupported(m: RenderModel, e: MdEvent) -> RenderModel {
    match e {
        MdEvent::Start(_) => RenderModel { depth: m.depth + 1, ..m },
        MdEvent::End(_) => {
            let d: nat = if m.depth > 0 {
                (m.depth - 1) as nat
            } else {
                0
            };
            if d == 0 {
                RenderModel {
                    html: flush_html(m.html, m.pending),
                    depth: 0,
                    pending: Seq::empty(),
                    ..m
                }
            } else {
                RenderModel { depth: d, ..m }
            }
        },
        MdEvent::Text(t) => RenderModel { pending: m.pending + t@, ..m },
        MdEvent::Html(t) => RenderModel { pending: m.pending + t@, ..m },
        MdEvent::Code(t) => RenderModel { pending: m.pending.push('`') + t@.push('`'), ..m },
        MdEvent::SoftBreak => RenderModel { pending: m.pending.push('\n'), ..m },
        MdEvent::HardBreak => RenderModel { pending: m.pending.push('\n'), ..m },
        MdEvent::Rule => {
            let p = if m.pending.len() > 0 && !ends_nl(m.pending) {
                m.pending.push('\n')
            } else {
                m.pending
            };
            RenderModel { pending: p + "----\n"@, ..m }
        },
        MdEvent::FootnoteReference(l) => RenderModel {
            pending: m.pending.push('[') + l@.push(']'),
            ..m
        },
        MdEvent::TaskListMarker(c) => RenderModel {
            pending: m.pending + (if c {
                "[x] "@
            } else {
                "[ ] "@
            }),
            ..m
        },
    }
}

/// The effect of one event on the renderer.
pub open spec fn step(m: RenderModel, e: MdEvent) -> RenderModel {
    if m.depth > 0 {
        step_unsupported(m, e)
    } else {
        let h = m.html;
        match e {
            MdEvent::Start(tag) => if unsupported(tag) {
                RenderModel { depth: 1, pending: Seq::empty(), ..m }
            } else {
                match tag {
                    MdTag::Paragraph => RenderModel {
                        html: if m.lists.len() == 0 {
                            block_break(h)
                        } else {
                            h
                        },
                        ..m
                    },
                    MdTag::Heading => RenderModel { html: block_break(h) + "<b>"@, ..m },
                    MdTag::Emphasis => RenderModel { html: h + "<i>"@, ..m },
                    MdTag::Strong => RenderModel { html: h + "<b>"@, ..m },
                    MdTag::Strikethrough => RenderModel { html: h + "<s>"@, ..m },
                    MdTag::CodeBlock(kind) => RenderModel { html: code_block_open(h, kind), ..m },
                    MdTag::List(start) => RenderModel {
                        html: block_break(h),
                        lists: m.lists.push(
                            ListState {
                                ordered: start is Some,
                                next_index: match start {
                                    Some(n) => n,
                                    None => 1,
                                },
                            },
                        ),
                        ..m
                    },
                    MdTag::Item => RenderModel {
                        html: item_start(h, m.lists),
                        lists: lists_after_item(m.lists),
                        ..m
                    },
                    MdTag::Link(dest) => RenderModel {
                        html: h + "<a href=\""@ + escape(dest@) + "\">"@,
                        ..m
                    },
                    MdTag::Image(dest) => RenderModel {
                        html: h + escape("Image: "@ + dest@),
                        ..m
                    },
                    _ => m,
                }
            },
            MdEvent::End(tag) => match tag {
                MdTag::Paragraph => RenderModel {
                    html: if m.lists.len() == 0 {
                        block_break(h)
                    } else {
                        line_break(h)
                    },
                    ..m
                },
                MdTag::Heading => RenderModel { html: block_break(h + "</b>"@), ..m },
                MdTag::Emphasis => RenderModel { html: h + "</i>"@, ..m },
                MdTag::Strong => RenderModel { html: h + "</b>"@, ..m },
                MdTag::Strikethrough => RenderModel { html: h + "</s>"@, ..m },
                MdTag::CodeBlock(_) => RenderModel {
                    html: block_break(h + "</code></pre>"@),
                    ..m
                },
                MdTag::List(_) => RenderModel {
                    html: block_break(h),
                    lists: if m.lists.len() > 0 {
                        m.lists.drop_last()
                    } else {
                        m.lists
                    },
                    ..m
                },
                MdTag::Item => RenderModel { html: line_break(h), ..m },
                MdTag::Link(_) => RenderModel { html: h + "</a>"@, ..m },
                _ => m,
            },
            MdEvent::Text(t) => RenderModel { html: h + escape(t@), ..m },
            MdEvent::Html(t) => RenderModel { html: h + escape(t@), ..m },
            MdEvent::Code(t) => RenderModel {
                html: h + "<code>"@ + escape(t@) + "</code>"@,
                ..m
            },
            MdEvent::SoftBreak => RenderModel { html: line_break(h), ..m },
            MdEvent::HardBreak => RenderModel { html: line_break(h), ..m },
            MdEvent::Rule => RenderModel {
                html: block_break(block_break(h) + "----"@),
                ..m
            },
            MdEvent::FootnoteReference(l) => RenderModel {
                html: h + escape(seq!['['] + l@ + seq![']']),
                ..m
            },
            MdEvent::TaskListMarker(c) => RenderModel {
                html: h + (if c {
                    "[x] "@
                } else {
                    "[ ] "@
                }),
                ..m
            },
        }
    }
}

/// The renderer's state after a sequence of events.
pub open spec fn run(events: Seq<MdEvent>) -> RenderModel
    decreases events.len(),
{
    if events.len() == 0 {
        initial_model()
    } else {
        step(run(events.drop_last()), events.last())
    }
}

/// The final HTML: an unfinished unsupported block is written out, and the
/// whole is trimmed.
pub open spec fn finish(m: RenderModel) -> Seq<char> {
    let h = if m.depth > 0 {
        flush_html(m.html, m.pending)
    } else {
        m.html
    };
    trimmed(h)
}

/// The Telegram HTML for a sequence of CommonMark events.
pub open spec fn render_events(events: Seq<MdEvent>) -> Seq<char> {
    finish(run(events))
}

/// Reading HTML entities back: `&amp;`, `&lt;`, `&gt;` and `&quot;` become
/// the characters they stand for.
pub open spec fn unescape(s: Seq<char>) -> Seq<char>
    decreases s.len(),
{
    if s.len() == 0 {
        Seq::empty()
    } else if s.len() >= 5 && s.take(5) == seq!['&', 'a', 'm', 'p', ';'] {
        seq!['&'] + unescape(s.skip(5))
    } else if s.len() >= 4 && s.take(4) == seq!['&', 'l', 't', ';'] {
        seq!['<'] + unescape(s.skip(4))
    } else if s.len() >= 4 && s.take(4) == seq!['&', 'g', 't', ';'] {
        seq!['>'] + unescape(s.skip(4))
    } else if s.len() >= 6 && s.take(6) == seq!['&', 'q', 'u', 'o', 't', ';'] {
        seq!['\"'] + unescape(s.skip(6))
    } else {
        seq![s[0]] + unescape(s.skip(1))
    }
}

/// Trimming leaves alone a text that starts and ends with a character that
/// is not whitespace.
proof fn lemma_trimmed_unchanged(s: Seq<char>)
    requires
        s.len() > 0,
        !is_ws(s[0]),
        !is_ws(s.last()),
    ensures
        trimmed(s) == s,
{
}

/// The HTML of one inline span `open_tag x close_tag` rendered from the start.
proof fn lemma_span(tag: MdTag, x: String)
    requires
        tag == MdTag::Emphasis || tag == MdTag::Strong || tag == MdTag::Strikethrough,
    ensures
        run(seq![MdEvent::Start(tag), MdEvent::Text(x), MdEvent::End(tag)]).html == step(
            step(step(initial_model(), MdEvent::Start(tag)), MdEvent::Text(x)),
            MdEvent::End(tag),
        ).html,
        run(seq![MdEvent::Start(tag), MdEvent::Text(x), MdEvent::End(tag)]).depth == 0,
{
    let e0 = Seq::<MdEvent>::empty();
    let e1 = seq![MdEvent::Start(tag)];
    let e2 = seq![MdEvent::Start(tag), MdEvent::Text(x)];
    let es = seq![MdEvent::Start(tag), MdEvent::Text(x), MdEvent::End(tag)];
    assert(e1.drop_last() =~= e0);
    assert(e2.drop_last() =~= e1);
    assert(es.drop_last() =~= e2);
    assert(run(e0) == initial_model());
    assert(run(e1) == step(initial_model(), MdEvent::Start(tag)));
    assert(run(e2) == step(run(e1), MdEvent::Text(x)));
    assert(run(es) == step(run(e2), MdEvent::End(tag)));
}

/// Inline styles keep their own Telegram tags: for any text `x`, the events
/// of a struck-through span render as `<s>`, the escaped text, `</s>`; a
/// strong span as `<b>` … `</b>`; an emphasised span as `<i>` … `</i>`.
/// Struck-through text is never shown bold or italic.
pub proof fn lemma_inline_span_tags(x: String)
    ensures
        render_events(seq![MdEvent::Start(MdTag::Strikethrough), MdEvent::Text(x), MdEvent::End(MdTag::Strikethrough)])
            == "<s>"@ + escape(x@) + "</s>"@,
        render_events(seq![MdEvent::Start(MdTag::Strong), MdEvent::Text(x), MdEvent::End(MdTag::Strong)])
            == "<b>"@ + escape(x@) + "</b>"@,
        render_events(seq![MdEvent::Start(MdTag::Emphasis), MdEvent::Text(x), MdEvent::End(MdTag::Emphasis)])
            == "<i>"@ + escape(x@) + "</i>"@,
{
    reveal_strlit("<s>");
    reveal_strlit("</s>");
    reveal_strlit("<b>");
    reveal_strlit("</b>");
    reveal_strlit("<i>");
    reveal_strlit("</i>");
    lemma_span(MdTag::Strikethrough, x);
    lemma_span(MdTag::Strong, x);
    lemma_span(MdTag::Emphasis, x);
    let s1 = "<s>"@ + escape(x@) + "</s>"@;
    let s2 = "<b>"@ + escape(x@) + "</b>"@;
    let s3 = "<i>"@ + escape(x@) + "</i>"@;
    assert(Seq::<char>::empty() + "<s>"@ + escape(x@) + "</s>"@ =~= s1);
    assert(Seq::<char>::empty() + "<b>"@ + escape(x@) + "</b>"@ =~= s2);
    assert(Seq::<char>::empty() + "<i>"@ + escape(x@) + "</i>"@ =~= s3);
    assert(s1[0] == '<' && s1.last() == '>');
    assert(s2[0] == '<' && s2.last() == '>');
    assert(s3[0] == '<' && s3.last() == '>');
    lemma_trimmed_unchanged(s1);
    lemma_trimmed_unchanged(s2);
    lemma_trimmed_unchanged(s3);
}

/// Links and code spans keep their Telegram markup, for every destination
/// and text: a link renders as an anchor to the escaped destination around
/// the escaped text, and an inline code span as `<code>` around its escaped
/// text.
pub proof fn lemma_link_and_code_markup(dest: String, x: String)
    ensures
        render_events(seq![MdEvent::Start(MdTag::Link(dest)), MdEvent::Text(x), MdEvent::End(MdTag::Link(dest))])
            == "<a href=\""@ + escape(dest@) + "\">"@ + escape(x@) + "</a>"@,
        render_events(seq![MdEvent::Code(x)]) == "<code>"@ + escape(x@) + "</code>"@,
{
    reveal_strlit("<a href=\"");
    reveal_strlit("\">");
    reveal_strlit("</a>");
    reveal_strlit("<code>");
    reveal_strlit("</code>");
    let tag = MdTag::Link(dest);
    let e0 = Seq::<MdEvent>::empty();
    let e1 = seq![MdEvent::Start(tag)];
    let e2 = seq![MdEvent::Start(tag), MdEvent::Text(x)];
    let es = seq![MdEvent::Start(tag), MdEvent::Text(x), MdEvent::End(tag)];
    assert(e1.drop_last() =~= e0);
    assert(e2.drop_last() =~= e1);
    assert(es.drop_last() =~= e2);
    assert(run(e0) == initial_model());
    assert(run(e1) == step(initial_model(), MdEvent::Start(tag)));
    assert(run(e2) == step(run(e1), MdEvent::Text(x)));
    assert(run(es) == step(run(e2), MdEvent::End(tag)));
    let l = "<a href=\""@ + escape(dest@) + "\">"@ + escape(x@) + "</a>"@;
    assert(run(es).html =~= l);
    assert(l[0] == '<' && l.last() == '>');
    lemma_trimmed_unchanged(l);
    let c1 = seq![MdEvent::Code(x)];
    assert(c1.drop_last() =~= e0);
    assert(run(c1) == step(initial_model(), MdEvent::Code(x)));
    let c = "<code>"@ + escape(x@) + "</code>"@;
    assert(run(c1).html =~= c);
    assert(c[0] == '<' && c.last() == '>');
    lemma_trimmed_unchanged(c);
}

proof fn lemma_escape_concat(a: Seq<char>, b: Seq<char>)
    ensures
        escape(a + b) == escape(a) + escape(b),
    decreases b.len(),
{
    if b.len() == 0 {
        assert(a + b =~= a);
        assert(escape(a) + escape(b) =~= escape(a));
    } else {
        lemma_escape_concat(a, b.drop_last());
        assert((a + b).drop_last() =~= a + b.drop_last());
        assert(escape(a + b) =~= escape(a) + escape(b));
    }
}

proof fn lemma_unescape_one(c: char, rest: Seq<char>)
    ensures
        unescape(escape_char(c) + rest) == seq![c] + unescape(rest),
{
    let e = escape_char(c) + rest;
    if c == '&' {
        assert(e.take(5) =~= seq!['&', 'a', 'm', 'p', ';']);
        assert(e.skip(5) =~= rest);
    } else if c == '<' {
        assert(e.len() >= 5 ==> e.take(5)[1] == 'l');
        assert(e.take(4) =~= seq!['&', 'l', 't', ';']);
        assert(e.skip(4) =~= rest);
    } else if c == '>' {
        assert(e.len() >= 5 ==> e.take(5)[1] == 'g');
        assert(e.take(4) != seq!['&', 'l', 't', ';']) by {
            assert(e.take(4)[1] == 'g');
        }
        assert(e.take(4) =~= seq!['&', 'g', 't', ';']);
        assert(e.skip(4) =~= rest);
    } else if c == '\"' {
        assert(e.take(5) != seq!['&', 'a', 'm', 'p', ';'] ) by {
            assert(e.take(5)[1] == 'q');
        }
        assert(e.take(4) != seq!['&', 'l', 't', ';']) by {
            assert(e.take(4)[1] == 'q');
        }
        assert(e.take(4) != seq!['&', 'g', 't', ';']) by {
            assert(e.take(4)[1] == 'q');
        }
        assert(e.take(6) =~= seq!['&', 'q', 'u', 'o', 't', ';']);
        assert(e.skip(6) =~= rest);
    } else {
        assert(e[0] == c);
        assert(e.len() >= 5 ==> e.take(5)[0] == c);
        assert(e.len() >= 4 ==> e.take(4)[0] == c);
        assert(e.len() >= 4 ==> e.take(4)[0] == c);
        assert(e.len() >= 6 ==> e.take(6)[0] == c);
        assert(e.skip(1) =~= rest);
    }
}

/// HTML escaping hides markup and loses nothing: the escape of any text
/// holds no `<`, `>` or `"`, and reading its entities back gives the text.
pub proof fn lemma_escape_reversible(s: Seq<char>)
    ensures
        unescape(escape(s)) == s,
        forall|i: int|
            0 <= i < escape(s).len() ==> #[trigger] escape(s)[i] != '<' && escape(s)[i] != '>'
                && escape(s)[i] != '\"',
    decreases s.len(),
{
    if s.len() > 0 {
        let rest = s.drop_first();
        lemma_escape_reversible(rest);
        lemma_escape_concat(seq![s[0]], rest);
        assert(seq![s[0]] + rest =~= s);
        assert(seq![s[0]].drop_last() =~= Seq::<char>::empty());
        assert(escape(Seq::<char>::empty()) == Seq::<char>::empty());
        assert(escape(seq![s[0]]) == escape(Seq::<char>::empty()) + escape_char(s[0]));
        assert(escape(seq![s[0]]) =~= escape_char(s[0]));
        lemma_unescape_one(s[0], escape(rest));
        assert(seq![s[0]] + unescape(escape(rest)) =~= s);
        let e = escape(s);
        assert forall|i: int| 0 <= i < e.len() implies #[trigger] e[i] != '<' && e[i] != '>' && e[i] != '\"' by {
            let k = escape_char(s[0]).len();
            if i >= k {
                assert(e[i] == escape(rest)[i - k]);
            }
        }
    }
}

/// Appends characters to a buffer.
fn append(out: &mut Vec<char>, v: &Vec<char>)
    ensures
        final(out)@ == old(out)@ + v@,
{
    let mut i: usize = 0;
    while i < v.len()
        invariant
            i <= v@.len(),
            out@ == old(out)@ + v@.take(i as int),
        decreases v@.len() - i,
    {
        out.push(v[i]);
        assert(v@.take(i as int).push(v@[i as int]) =~= v@.take(i + 1));
        i += 1;
    }
    assert(v@.take(v@.len() as int) =~= v@);
}

/// Appends the characters of a string slice to a buffer.
fn append_str(out: &mut Vec<char>, s: &str)
    ensures
        final(out)@ == old(out)@ + s@,
{
    let v = chars_of(s);
    append(out, &v);
}

proof fn lemma_escape_take(s: Seq<char>, i: int)
    requires
        0 <= i < s.len(),
    ensures
        escape(s.take(i + 1)) == escape(s.take(i)) + escape_char(s[i]),
{
    assert(s.take(i + 1).drop_last() =~= s.take(i));
}

/// Appends the HTML escape of `v[from..to]` to a buffer.
fn append_escaped_range(out: &mut Vec<char>, v: &Vec<char>, from: usize, to: usize)
    requires
        from <= to <= v@.len(),
    ensures
        final(out)@ == old(out)@ + escape(v@.subrange(from as int, to as int)),
{
    let ghost s = v@.subrange(from as int, to as int);
    let mut i: usize = from;
    assert(s.take(0) =~= Seq::<char>::empty());
    while i < to
        invariant
            from <= i <= to <= v@.len(),
            s == v@.subrange(from as int, to as int),
            out@ == old(out)@ + escape(s.take(i - from)),
        decreases to - i,
    {
        let c = v[i];
        proof {
            lemma_escape_take(s, (i - from) as int);
        }
        if c == '&' {
            append_str(out, "&amp;");
        } else if c == '<' {
            append_str(out, "&lt;");
        } else if c == '>' {
            append_str(out, "&gt;");
        } else if c == '\"' {
            append_str(out, "&quot;");
        } else {
            out.push(c);
        }
        proof {
            reveal_strlit("&amp;");
            reveal_strlit("&lt;");
            reveal_strlit("&gt;");
            reveal_strlit("&quot;");
        }
        assert(out@ =~= old(out)@ + escape(s.take(i - from + 1)));
        i += 1;
    }
    assert(s.take(to - from) =~= s);
}

/// Appends the HTML escape of some characters to a buffer.
fn append_escaped(out: &mut Vec<char>, v: &Vec<char>)
    ensures
        final(out)@ == old(out)@ + escape(v@),
{
    append_escaped_range(out, v, 0, v.len());
    assert(v@.subrange(0, v@.len() as int) =~= v@);
}

/// The HTML escape of a text: `&`, `<`, `>` and `"` become entities.
pub fn escape_html(text: &str) -> (r: String)
    ensures
        r@ == escape(text@),
{
    let v = chars_of(text);
    let mut out: Vec<char> = Vec::new();
    append_escaped(&mut out, &v);
    assert(out@ =~= escape(v@));
    string_from_range(&out, 0, out.len())
}

fn ends_with_newline(h: &Vec<char>) -> (b: bool)
    ensures
        b == ends_nl(h@),
{
    h.len() > 0 && h[h.len() - 1] == '\n'
}

fn push_line_break(h: &mut Vec<char>)
    ensures
        final(h)@ == line_break(old(h)@),
{
    if !ends_with_newline(h) {
        h.push('\n');
    }
}

fn push_block_break(h: &mut Vec<char>)
    ensures
        final(h)@ == block_break(old(h)@),
{
    let n = h.len();
    if n == 0 {
        return ;
    }
    if n >= 2 && h[n - 1] == '\n' && h[n - 2] == '\n' {
        return ;
    }
    if h[n - 1] == '\n' {
        h.push('\n');
    } else {
        h.push('\n');
        h.push('\n');
    }
}

/// Renders a CommonMark event stream into Telegram HTML.
struct TelegramHtmlRenderer {
    html: Vec<char>,
    list_stack: Vec<ListState>,
    unsupported_depth: usize,
    unsupported_text: Vec<char>,
}

impl TelegramHtmlRenderer {
    closed spec fn model(&self) -> RenderModel {
        RenderModel {
            html: self.html@,
            lists: self.list_stack@,
            depth: self.unsupported_depth as nat,
            pending: self.unsupported_text@,
        }
    }

    fn new() -> (r: Self)
        ensures
            r.model() == initial_model(),
    {
        TelegramHtmlRenderer {
            html: Vec::new(),
            list_stack: Vec::new(),
            unsupported_depth: 0,
            unsupported_text: Vec::new(),
        }
    }

    /// Writes out the text of an unsupported block as a preformatted block.
    fn flush_unsupported_block(&mut self)
        ensures
            final(self).html@ == flush_html(old(self).html@, old(self).unsupported_text@),
            final(self).unsupported_text@ == Seq::<char>::empty(),
            final(self).list_stack@ == old(self).list_stack@,
            final(self).unsupported_depth == old(self).unsupported_depth,
    {
        let (a, b) = trim_bounds(&self.unsupported_text);
        if a < b {
            push_block_break(&mut self.html);
            append_str(&mut self.html, "<pre><code>");
            append_escaped_range(&mut self.html, &self.unsupported_text, a, b);
            append_str(&mut self.html, "</code></pre>");
            push_block_break(&mut self.html);
        }
        self.unsupported_text = Vec::new();
    }

    fn handle_unsupported_event(&mut self, event: &MdEvent)
        requires
            old(self).unsupported_depth > 0,
            old(self).unsupported_depth < usize::MAX,
        ensures
            final(self).model() == step_unsupported(old(self).model(), *event),
    {
        match event {
            MdEvent::Start(_) => {
                self.unsupported_depth = self.unsupported_depth + 1;
            },
            MdEvent::End(_) => {
                self.unsupported_depth = self.unsupported_depth - 1;
                if self.unsupported_depth == 0 {
                    self.flush_unsupported_block();
                }
            },
            MdEvent::Text(t) | MdEvent::Html(t) => {
                append_str(&mut self.unsupported_text, t.as_str());
            },
            MdEvent::Code(t) => {
                self.unsupported_text.push('`');
                append_str(&mut self.unsupported_text, t.as_str());
                self.unsupported_text.push('`');
            },
            MdEvent::SoftBreak | MdEvent::HardBreak => {
                self.unsupported_text.push('\n');
            },
            MdEvent::Rule => {
                if self.unsupported_text.len() > 0 && !ends_with_newline(&self.unsupported_text) {
                    self.unsupported_text.push('\n');
                }
                append_str(&mut self.unsupported_text, "----\n");
            },
            MdEvent::FootnoteReference(l) => {
                self.unsupported_text.push('[');
                append_str(&mut self.unsupported_text, l.as_str());
                self.unsupported_text.push(']');
            },
            MdEvent::TaskListMarker(checked) => {
                if *checked {
                    append_str(&mut self.unsupported_text, "[x] ");
                } else {
                    append_str(&mut self.unsupported_text, "[ ] ");
                }
            },
        }
        assert(self.model() =~= step_unsupported(old(self).model(), *event));
    }

    fn push_item_marker(&mut self)
        ensures
            final(self).html@ == item_start(old(self).html@, old(self).list_stack@),
            final(self).list_stack@ == lists_after_item(old(self).list_stack@),
            final(self).unsupported_depth == old(self).unsupported_depth,
            final(self).unsupported_text@ == old(self).unsupported_text@,
    {
        if self.html.len() > 0 && !ends_with_newline(&self.html) {
            self.html.push('\n');
        }
        let ghost h1 = self.html@;
        let n = self.list_stack.len();
        let depth: usize = if n > 0 { n - 1 } else { 0 };
        let mut k: usize = 0;
        while k < depth
            invariant
                k <= depth,
                self.html@ == h1 + repeat_indent(k as nat),
                self.list_stack@ == old(self).list_stack@,
                self.unsupported_depth == old(self).unsupported_depth,
                self.unsupported_text@ == old(self).unsupported_text@,
                n == self.list_stack@.len(),
            decreases depth - k,
        {
            self.html.push(' ');
            self.html.push(' ');
            assert(self.html@ =~= h1 + repeat_indent((k + 1) as nat));
            k += 1;
        }
        if n > 0 && self.list_stack[n - 1].ordered {
            let state = self.list_stack.pop().unwrap();
            let num = decimal_string(state.next_index);
            append_str(&mut self.html, num.as_str());
            self.html.push('.');
            self.html.push(' ');
            self.list_stack.push(
                ListState { next_index: state.next_index.wrapping_add(1), ordered: true },
            );
        } else {
            self.html.push('-');
            self.html.push(' ');
        }
        assert(self.html@ =~= item_start(old(self).html@, old(self).list_stack@));
        assert(self.list_stack@ =~= lists_after_item(old(self).list_stack@));
    }

    fn open_code_block(&mut self, kind: &MdCodeBlockKind)
        ensures
            final(self).html@ == code_block_open(old(self).html@, *kind),
            final(self).list_stack@ == old(self).list_stack@,
            final(self).unsupported_depth == old(self).unsupported_depth,
            final(self).unsupported_text@ == old(self).unsupported_text@,
    {
        push_block_break(&mut self.html);
        append_str(&mut self.html, "<pre><code>");
        match kind {
            MdCodeBlockKind::Fenced(lang) => {
                let v = chars_of(lang.as_str());
                let (a, b) = trim_bounds(&v);
                if a < b {
                    append_escaped_range(&mut self.html, &v, a, b);
                    self.html.push('\n');
                }
            },
            MdCodeBlockKind::Indented => {},
        }
        assert(self.html@ =~= code_block_open(old(self).html@, *kind));
    }

    fn handle_start(&mut self, tag: &MdTag)
        requires
            old(self).unsupported_depth == 0,
        ensures
            final(self).model() == step(old(self).model(), MdEvent::Start(*tag)),
    {
        if is_unsupported_tag(tag) {
            self.unsupported_depth = 1;
            self.unsupported_text = Vec::new();
        } else {
            match tag {
                MdTag::Paragraph => {
                    if self.list_stack.len() == 0 {
                        push_block_break(&mut self.html);
                    }
                },
                MdTag::Heading => {
                    push_block_break(&mut self.html);
                    append_str(&mut self.html, "<b>");
                },
                MdTag::Emphasis => append_str(&mut self.html, "<i>"),
                MdTag::Strong => append_str(&mut self.html, "<b>"),
                MdTag::Strikethrough => append_str(&mut self.html, "<s>"),
                MdTag::CodeBlock(kind) => self.open_code_block(kind),
                MdTag::List(start) => {
                    push_block_break(&mut self.html);
                    let next_index = match start {
                        Some(n) => *n,
                        None => 1,
                    };
                    self.list_stack.push(
                        ListState { ordered: start.is_some(), next_index },
                    );
                },
                MdTag::Item => self.push_item_marker(),
                MdTag::Link(dest) => {
                    append_str(&mut self.html, "<a href=\"");
                    let v = chars_of(dest.as_str());
                    append_escaped(&mut self.html, &v);
                    append_str(&mut self.html, "\">");
                },
                MdTag::Image(dest) => {
                    let mut v = chars_of("Image: ");
                    let d = chars_of(dest.as_str());
                    append(&mut v, &d);
                    append_escaped(&mut self.html, &v);
                },
                _ => {},
            }
        }
    
        assert(self.model() =~= step(old(self).model(), MdEvent::Start(*tag)));
    }

    fn handle_end(&mut self, tag: &MdTag)
        requires
            old(self).unsupported_depth == 0,
        ensures
            final(self).model() == step(old(self).model(), MdEvent::End(*tag)),
    {
        match tag {
        MdTag::Paragraph => {
            if self.list_stack.len() == 0 {
                push_block_break(&mut self.html);
            } else {
                push_line_break(&mut self.html);
            }
        },
        MdTag::Heading => {
            append_str(&mut self.html, "</b>");
            push_block_break(&mut self.html);
        },
        MdTag::Emphasis => append_str(&mut self.html, "</i>"),
        MdTag::Strong => append_str(&mut self.html, "</b>"),
        MdTag::Strikethrough => append_str(&mut self.html, "</s>"),
        MdTag::CodeBlock(_) => {
            append_str(&mut self.html, "</code></pre>");
            push_block_break(&mut self.html);
        },
        MdTag::List(_) => {
            self.list_stack.pop();
            push_block_break(&mut self.html);
        },
        MdTag::Item => push_line_break(&mut self.html),
        MdTag::Link(_) => append_str(&mut self.html, "</a>"),
        _ => {},
    }
        assert(self.model() =~= step(old(self).model(), MdEvent::End(*tag)));
    }

    fn handle_inline(&mut self, event: &MdEvent)
        requires
            old(self).unsupported_depth == 0,
            !(event is Start),
            !(event is End),
        ensures
            final(self).model() == step(old(self).model(), *event),
    {
        match event {
            MdEvent::Text(t) | MdEvent::Html(t) => {
                let v = chars_of(t.as_str());
                append_escaped(&mut self.html, &v);
            },
            MdEvent::Code(t) => {
                append_str(&mut self.html, "<code>");
                let v = chars_of(t.as_str());
                append_escaped(&mut self.html, &v);
                append_str(&mut self.html, "</code>");
            },
            MdEvent::SoftBreak | MdEvent::HardBreak => push_line_break(&mut self.html),
            MdEvent::Rule => {
                push_block_break(&mut self.html);
                append_str(&mut self.html, "----");
                push_block_break(&mut self.html);
            },
            MdEvent::FootnoteReference(l) => {
                let mut v: Vec<char> = Vec::new();
                v.push('[');
                let lv = chars_of(l.as_str());
                append(&mut v, &lv);
                v.push(']');
                assert(v@ =~= seq!['['] + l@ + seq![']']);
                append_escaped(&mut self.html, &v);
            },
            MdEvent::TaskListMarker(checked) => {
                if *checked {
                    append_str(&mut self.html, "[x] ");
                } else {
                    append_str(&mut self.html, "[ ] ");
                }
            },
            _ => {},
        }
        assert(self.model() =~= step(old(self).model(), *event));
    }

    fn handle_event(&mut self, event: &MdEvent)
        requires
            old(self).unsupported_depth < usize::MAX,
        ensures
            final(self).model() == step(old(self).model(), *event),
    {
        if self.unsupported_depth > 0 {
            self.handle_unsupported_event(event);
            return ;
        }
        match event {
            MdEvent::Start(tag) => self.handle_start(tag),
            MdEvent::End(tag) => self.handle_end(tag),
            _ => self.handle_inline(event),
        }
    }

    fn finish(&mut self) -> (r: String)
        ensures
            r@ == finish(old(self).model()),
    {
        if self.unsupported_depth > 0 {
            self.unsupported_depth = 0;
            self.flush_unsupported_block();
        }
        let (a, b) = trim_bounds(&self.html);
        string_from_range(&self.html, a, b)
    }
}

fn is_unsupported_tag(tag: &MdTag) -> (b: bool)
    ensures
        b == unsupported(*tag),
{
    match tag {
        MdTag::BlockQuote | MdTag::FootnoteDefinition | MdTag::Table | MdTag::TableHead
        | MdTag::TableRow | MdTag::TableCell => true,
        _ => false,
    }
}

proof fn lemma_run_bounds(events: Seq<MdEvent>)
    ensures
        run(events).depth <= events.len(),
    decreases events.len(),
{
    if events.len() > 0 {
        lemma_run_bounds(events.drop_last());
    }
}

/// Renders a CommonMark event stream into Telegram HTML.
pub fn render_markdown_events(events: &Vec<MdEvent>) -> (r: String)
    ensures
        r@ == render_events(events@),
{
    let mut renderer = TelegramHtmlRenderer::new();
    let mut i: usize = 0;
    while i < events.len()
        invariant
            i <= events@.len(),
            renderer.model() == run(events@.take(i as int)),
        decreases events@.len() - i,
    {
        proof {
            lemma_run_bounds(events@.take(i as int));
            assert(events@.take(i + 1).drop_last() =~= events@.take(i as int));
        }
        renderer.handle_event(&events[i]);
        i += 1;
    }
    assert(events@.take(events@.len() as int) =~= events@);
    renderer.finish()
}

/// Renders a Markdown text into Telegram HTML.
pub fn render_markdown_to_telegram_html(markdown: &str) -> (r: String)
    ensures
        r@ == render_markdown(markdown@),
{
    let events = parse_markdown(markdown);
    render_markdown_events(&events)
}

/// The parser's event type, carried opaquely into the conversion below.
#[verifier::external_type_specification]
#[verifier::external_body]
pub struct ExParserEvent<'a>(Event<'a>);

/// The parser's tag type, carried opaquely into the conversion below.
#[verifier::external_type_specification]
#[verifier::external_body]
pub struct ExParserTag<'a>(Tag<'a>);

/// The parser's code block kind, carried opaquely into the conversion below.
#[verifier::external_type_specification]
#[verifier::external_body]
pub struct ExParserCodeBlockKind<'a>(CodeBlockKind<'a>);

/// Converts the parser's code block kind into the library's.
#[verifier::external_body]
fn convert_code_block_kind(k: CodeBlockKind<'_>) -> MdCodeBlockKind {
    match k {
        CodeBlockKind::Indented => MdCodeBlockKind::Indented,
        CodeBlockKind::Fenced(l) => MdCodeBlockKind::Fenced(l.into_string()),
    }
}

/// Converts one parser event into the library's event type.
#[verifier::external_body]
fn convert_event(e: Event<'_>) -> MdEvent {
    match e {
        Event::Start(t) => MdEvent::Start(convert_tag(t)),
        Event::End(t) => MdEvent::End(convert_tag(t)),
        Event::Text(s) => MdEvent::Text(s.into_string()),
        Event::Code(s) => MdEvent::Code(s.into_string()),
        Event::Html(s) => MdEvent::Html(s.into_string()),
        Event::FootnoteReference(s) => MdEvent::FootnoteReference(s.into_string()),
        Event::SoftBreak => MdEvent::SoftBreak,
        Event::HardBreak => MdEvent::HardBreak,
        Event::Rule => MdEvent::Rule,
        Event::TaskListMarker(b) => MdEvent::TaskListMarker(b),
    }
}

/// Converts one parser tag into the library's tag type.
#[verifier::external_body]
fn convert_tag(t: Tag<'_>) -> MdTag {
    match t {
        Tag::Paragraph => MdTag::Paragraph,
        Tag::Heading(..) => MdTag::Heading,
        Tag::BlockQuote => MdTag::BlockQuote,
        Tag::CodeBlock(k) => MdTag::CodeBlock(convert_code_block_kind(k)),
        Tag::List(start) => MdTag::List(start),
        Tag::Item => MdTag::Item,
        Tag::FootnoteDefinition(_) => MdTag::FootnoteDefinition,
        Tag::Table(_) => MdTag::Table,
        Tag::TableHead => MdTag::TableHead, Tag::TableRow => MdTag::TableRow,
        Tag::TableCell => MdTag::TableCell, Tag::Emphasis => MdTag::Emphasis,
        Tag::Strong => MdTag::Strong, Tag::Strikethrough => MdTag::Strikethrough,
        Tag::Link(_, dest, _) => MdTag::Link(dest.into_string()),
        Tag::Image(_, dest, _) => MdTag::Image(dest.into_string()),
    }
}

/// `pulldown_cmark::Parser::new_ext` with every extension
/// (`Options::all()`), collected: the contract names the event sequence,
/// which depends on the text alone; what those events are is the CommonMark
/// grammar and is not stated here.
#[verifier::external_body]
fn parse_markdown(text: &str) -> (events: Vec<MdEvent>)
    ensures
        events@ == markdown_events(text@),
{
    Parser::new_ext(text, Options::all()).map(convert_event).collect()
}

/// The Telegram HTML for a Markdown text.
pub open spec fn render_markdown(text: Seq<char>) -> Seq<char> {
    render_events(markdown_events(text))
}

} // verus!
