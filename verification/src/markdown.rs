//! Markdown rendered as styled terminal lines.
use vstd::prelude::*;
use crate::text::{owned, push_str, trimmed, trim_chars, chars_of, string_from_chars};

verus! {

/// A terminal color.
#[derive(Debug, Clone, Copy, PartialEq, Eq, Structural)]
pub enum Color {
    Cyan,
    Green,
    Yellow,
    White,
    Red,
    DarkGray,
}

/// How a span of text is drawn.
#[derive(Debug, Clone, Copy, PartialEq, Eq, Structural)]
pub struct SpanStyle {
    pub fg: Option<Color>,
    pub bg: Option<Color>,
    pub bold: bool,
    pub dim: bool,
}

/// No styling.
pub open spec fn plain() -> SpanStyle {
    SpanStyle { fg: None, bg: None, bold: false, dim: false }
}

/// Dimmed text.
pub open spec fn dimmed() -> SpanStyle {
    SpanStyle { fg: None, bg: None, bold: false, dim: true }
}

/// Text in a color.
pub open spec fn colored(c: Color) -> SpanStyle {
    SpanStyle { fg: Some(c), bg: None, bold: false, dim: false }
}

/// The style of a heading of the given level.
pub open spec fn heading_style(level: u8) -> SpanStyle {
    SpanStyle {
        fg: Some(if level == 1 { Color::Cyan } else if level == 2 { Color::Green } else if level == 3 { Color::Yellow } else { Color::White }),
        bg: None,
        bold: true,
        dim: false,
    }
}

/// The style of inline code.
pub open spec fn code_style() -> SpanStyle {
    SpanStyle { fg: None, bg: Some(Color::DarkGray), bold: false, dim: true }
}

impl SpanStyle {
    /// No styling.
    pub fn plain() -> (r: SpanStyle)
        ensures
            r == plain(),
    {
        SpanStyle { fg: None, bg: None, bold: false, dim: false }
    }

    /// Dimmed text.
    pub fn dimmed() -> (r: SpanStyle)
        ensures
            r == dimmed(),
    {
        SpanStyle { fg: None, bg: None, bold: false, dim: true }
    }

    /// Text in a color.
    pub fn colored(c: Color) -> (r: SpanStyle)
        ensures
            r == colored(c),
    {
        SpanStyle { fg: Some(c), bg: None, bold: false, dim: false }
    }

    /// The style with bold added.
    pub fn with_bold(self) -> (r: SpanStyle)
        ensures
            r == (SpanStyle { bold: true, ..self }),
    {
        SpanStyle { bold: true, ..self }
    }
}

/// A styled piece of text.
#[derive(Debug)]
pub struct StyledSpan {
    pub text: String,
    pub style: SpanStyle,
}

/// A span, as characters.
pub struct SpanView {
    pub text: Seq<char>,
    pub style: SpanStyle,
}

impl View for StyledSpan {
    type V = SpanView;

    open spec fn view(&self) -> SpanView {
        SpanView { text: self.text@, style: self.style }
    }
}

/// One rendered line.
#[derive(Debug)]
pub struct StyledLine {
    pub spans: Vec<StyledSpan>,
}

/// The spans of a line, as characters.
pub open spec fn spans_view(s: Seq<StyledSpan>) -> Seq<SpanView> {
    s.map_values(|x: StyledSpan| x@)
}

impl View for StyledLine {
    type V = Seq<SpanView>;

    open spec fn view(&self) -> Seq<SpanView> {
        spans_view(self.spans@)
    }
}

/// The lines, as characters.
pub open spec fn lines_view(s: Seq<StyledLine>) -> Seq<Seq<SpanView>> {
    s.map_values(|x: StyledLine| x@)
}

/// How a code block is written: fenced, with the info string after the
/// fence, or indented.
#[derive(Debug)]
pub enum MdCodeBlockKind {
    Fenced(String),
    Indented,
}

/// A markdown tag that opens, one variant per tag of the parser.
#[derive(Debug)]
pub enum MdTag {
    Paragraph,
    /// A heading, with its level, 1 to 6.
    Heading(u8),
    BlockQuote,
    CodeBlock(MdCodeBlockKind),
    HtmlBlock,
    /// A list; the number of its first item when it is ordered.
    List(Option<u64>),
    Item,
    /// A footnote definition, with its label.
    FootnoteDefinition(String),
    DefinitionList,
    DefinitionListTitle,
    DefinitionListDefinition,
    Table,
    TableHead,
    TableRow,
    TableCell,
    Emphasis,
    Strong,
    Strikethrough,
    Link,
    Image,
    MetadataBlock,
}

/// A markdown tag that closes, one variant per tag of the parser.
#[derive(Debug)]
pub enum MdTagEnd {
    Paragraph,
    /// A heading, with its level, 1 to 6.
    Heading(u8),
    BlockQuote,
    CodeBlock,
    HtmlBlock,
    /// A list; whether it is ordered.
    List(bool),
    Item,
    FootnoteDefinition,
    DefinitionList,
    DefinitionListTitle,
    DefinitionListDefinition,
    Table,
    TableHead,
    TableRow,
    TableCell,
    Emphasis,
    Strong,
    Strikethrough,
    Link,
    Image,
    MetadataBlock,
}

/// An event of a markdown document, one variant per event of the parser.
#[derive(Debug)]
pub enum MdEvent {
    Start(MdTag),
    End(MdTagEnd),
    Text(String),
    /// Inline code.
    Code(String),
    InlineMath(String),
    DisplayMath(String),
    Html(String),
    InlineHtml(String),
    FootnoteReference(String),
    SoftBreak,
    HardBreak,
    /// A horizontal rule.
    Rule,
    TaskListMarker(bool),
}

/// The renderer's state.
pub struct MdState {
    pub lines: Seq<Seq<SpanView>>,
    pub current: Seq<SpanView>,
    pub lang: Seq<char>,
    pub code_lines: Seq<Seq<char>>,
    pub in_code: bool,
    pub indent: u16,
}

/// The state before any event.
pub open spec fn md_start() -> MdState {
    MdState {
        lines: Seq::empty(),
        current: Seq::empty(),
        lang: Seq::empty(),
        code_lines: Seq::empty(),
        in_code: false,
        indent: 0,
    }
}

/// The line being built, with `text` added unless it is empty.
pub open spec fn with_span(cur: Seq<SpanView>, text: Seq<char>, style: SpanStyle) -> Seq<SpanView> {
    if text.len() == 0 { cur } else { cur.push(SpanView { text, style }) }
}

/// The line being built, finished: a blank line when it has nothing.
pub open spec fn finished(cur: Seq<SpanView>) -> Seq<SpanView> {
    if cur.len() == 0 { seq![SpanView { text: Seq::empty(), style: plain() }] } else { cur }
}

/// A blank line.
pub open spec fn blank() -> Seq<SpanView> {
    seq![SpanView { text: Seq::empty(), style: plain() }]
}

/// `s` repeated `n` times.
pub open spec fn repeat(s: Seq<char>, n: nat) -> Seq<char>
    decreases n,
{
    if n == 0 { Seq::empty() } else { repeat(s, (n - 1) as nat) + s }
}

/// A line of one span.
pub open spec fn single(text: Seq<char>, style: SpanStyle) -> Seq<SpanView> {
    seq![SpanView { text, style }]
}

/// The lines of a finished code block: the language header (when a
/// language is given), each code line, and the footer.
pub open spec fn code_block_lines(lang: Seq<char>, code: Seq<Seq<char>>) -> Seq<Seq<SpanView>> {
    let header = if lang.len() == 0 {
        Seq::<Seq<SpanView>>::empty()
    } else {
        seq![single("    ┌─ "@ + trimmed(lang + " "@), dimmed())]
    };
    header + code.map_values(|l: Seq<char>| single("    │ "@ + l, colored(Color::DarkGray)))
        + seq![single("    └─"@, dimmed())]
}

/// A line break: the line being built is finished.
pub open spec fn broken(s: MdState) -> MdState {
    MdState { lines: s.lines.push(finished(s.current)), current: Seq::empty(), ..s }
}

/// The state after one event. Of the tags, only headings, code blocks,
/// lists, items, block quotes and paragraphs change it; an indented code
/// block has no language; soft and hard breaks both end the line.
pub open spec fn md_step(s: MdState, e: MdEvent) -> MdState {
    match e {
        MdEvent::Start(MdTag::Heading(level)) => MdState {
            current: with_span(s.current, repeat("#"@, level as nat) + " "@, heading_style(level)),
            ..s
        },
        MdEvent::Start(MdTag::CodeBlock(kind)) => MdState {
            lang: match kind {
                MdCodeBlockKind::Fenced(l) => l@,
                MdCodeBlockKind::Indented => Seq::empty(),
            },
            code_lines: Seq::empty(),
            in_code: true,
            ..s
        },
        MdEvent::Start(MdTag::List(_)) => MdState { indent: ((s.indent + 2) % 65536) as u16, ..s },
        MdEvent::Start(MdTag::Item) => {
            let lines = if s.current.len() > 0 { s.lines.push(s.current) } else { s.lines };
            let cur = if s.current.len() > 0 { Seq::empty() } else { s.current };
            MdState { lines, current: with_span(cur, repeat("  "@, s.indent as nat) + "• "@, dimmed()), ..s }
        },
        MdEvent::Start(MdTag::BlockQuote) => MdState { current: with_span(s.current, "│ "@, colored(Color::DarkGray)), ..s },
        MdEvent::End(MdTagEnd::Heading(_)) => MdState {
            lines: s.lines.push(finished(s.current)).push(blank()),
            current: Seq::empty(),
            ..s
        },
        MdEvent::End(MdTagEnd::CodeBlock) => MdState { lines: s.lines + code_block_lines(s.lang, s.code_lines), in_code: false, ..s },
        MdEvent::End(MdTagEnd::List(_)) => MdState { indent: if s.indent < 2 { 0 } else { (s.indent - 2) as u16 }, ..s },
        MdEvent::End(MdTagEnd::Paragraph) => {
            let lines = if s.current.len() > 0 { s.lines.push(s.current) } else { s.lines };
            MdState { lines: lines.push(blank()), current: Seq::empty(), ..s }
        },
        MdEvent::Text(t) => if s.in_code {
            MdState { code_lines: s.code_lines.push(t@), ..s }
        } else {
            MdState { current: with_span(s.current, t@, plain()), ..s }
        },
        MdEvent::Code(t) => MdState { current: with_span(s.current, t@, code_style()), ..s },
        MdEvent::SoftBreak => broken(s),
        MdEvent::HardBreak => broken(s),
        MdEvent::Rule => MdState { lines: s.lines.push(single(repeat("─"@, 40), dimmed())), ..s },
        _ => s,
    }
}

/// The state after a run of events.
pub open spec fn md_run(evs: Seq<MdEvent>) -> MdState
    decreases evs.len(),
{
    if evs.len() == 0 { md_start() } else { md_step(md_run(evs.drop_last()), evs.last()) }
}

/// The rendered lines of a run of events: the lines made, and the line
/// still being built when it has something.
pub open spec fn rendered(evs: Seq<MdEvent>) -> Seq<Seq<SpanView>> {
    let s = md_run(evs);
    if s.current.len() > 0 { s.lines.push(s.current) } else { s.lines }
}

} // verus!

verus! {

/// `s` repeated `n` times.
pub fn repeat_str(s: &str, n: usize) -> (r: String)
    ensures
        r@ == repeat(s@, n as nat),
{
    let mut out = String::new();
    let mut i: usize = 0;
    while i < n
        invariant
            i <= n,
            out@ == repeat(s@, i as nat),
        decreases n - i,
    {
        push_str(&mut out, s);
        i = i + 1;
    }
    out
}

fn span(text: String, style: SpanStyle) -> (r: StyledSpan)
    ensures
        r@ == (SpanView { text: text@, style }),
{
    StyledSpan { text, style }
}

fn line_of(text: String, style: SpanStyle) -> (r: StyledLine)
    ensures
        r@ == single(text@, style),
{
    let mut spans: Vec<StyledSpan> = Vec::new();
    spans.push(span(text, style));
    let r = StyledLine { spans };
    assert(r@ =~= single(text@, style));
    r
}

/// A blank line.
pub fn blank_line() -> (r: StyledLine)
    ensures
        r@ == blank(),
{
    let r = line_of(String::new(), SpanStyle::plain());
    r
}

/// Markdown rendering in progress.
pub struct Renderer {
    lines: Vec<StyledLine>,
    current: Vec<StyledSpan>,
    lang: String,
    code_lines: Vec<String>,
    in_code: bool,
    indent: u16,
}

impl View for Renderer {
    type V = MdState;

    closed spec fn view(&self) -> MdState {
        MdState {
            lines: lines_view(self.lines@),
            current: spans_view(self.current@),
            lang: self.lang@,
            code_lines: self.code_lines@.map_values(|s: String| s@),
            in_code: self.in_code,
            indent: self.indent,
        }
    }
}

impl Renderer {
    /// Nothing rendered yet.
    pub fn new() -> (r: Renderer)
        ensures
            r@ == md_start(),
    {
        let r = Renderer {
            lines: Vec::new(),
            current: Vec::new(),
            lang: String::new(),
            code_lines: Vec::new(),
            in_code: false,
            indent: 0,
        };
        assert(r@.lines =~= md_start().lines);
        assert(r@.current =~= md_start().current);
        assert(r@.code_lines =~= md_start().code_lines);
        r
    }

    fn add_span(&mut self, text: String, style: SpanStyle)
        ensures
            final(self)@ == (MdState { current: with_span(old(self)@.current, text@, style), ..old(self)@ }),
    {
        if !text.as_str().is_empty() {
            self.current.push(span(text, style));
            assert(spans_view(self.current@) =~= spans_view(old(self).current@).push(
                SpanView { text: text@, style },
            ));
        }
    }

    fn take_line(&mut self) -> (r: StyledLine)
        ensures
            r@ == finished(old(self)@.current),
            final(self)@ == (MdState { current: Seq::empty(), ..old(self)@ }),
    {
        if self.current.len() == 0 {
            assert(spans_view(self.current@) =~= Seq::<SpanView>::empty());
            blank_line()
        } else {
            let mut spans: Vec<StyledSpan> = Vec::new();
            std::mem::swap(&mut spans, &mut self.current);
            assert(spans_view(self.current@) =~= Seq::<SpanView>::empty());
            StyledLine { spans }
        }
    }

    fn push_line(&mut self, l: StyledLine)
        ensures
            final(self)@ == (MdState { lines: old(self)@.lines.push(l@), ..old(self)@ }),
            final(self).code_lines == old(self).code_lines,
    {
        self.lines.push(l);
        assert(lines_view(self.lines@) =~= lines_view(old(self).lines@).push(l@));
    }

    fn push_code_block(&mut self)
        ensures
            final(self)@ == (MdState { lines: old(self)@.lines + code_block_lines(old(self)@.lang, old(self)@.code_lines), ..old(self)@ }),
    {
        let ghost start = self@;
        if !self.lang.as_str().is_empty() {
            let mut lang = self.lang.clone();
            push_str(&mut lang, " ");
            let t = trim_chars(chars_of(lang.as_str()).as_slice());
            let mut head = owned("    ┌─ ");
            push_str(&mut head, string_from_chars(t.as_slice()).as_str());
            self.push_line(line_of(head, SpanStyle::dimmed()));
        }
        let ghost mid = self@.lines;
        let ghost cl = self.code_lines;
        let mut i: usize = 0;
        while i < self.code_lines.len()
            invariant
                i <= self.code_lines@.len(),
                self@ == (MdState {
                    lines: mid + start.code_lines.subrange(0, i as int).map_values(
                        |l: Seq<char>| single("    │ "@ + l, colored(Color::DarkGray)),
                    ),
                    ..start
                }),
                self.code_lines == cl,
                cl@.map_values(|s: String| s@) == start.code_lines,
            decreases self.code_lines@.len() - i,
        {
            let mut t = owned("    │ ");
            push_str(&mut t, self.code_lines[i].as_str());
            self.push_line(line_of(t, SpanStyle::colored(Color::DarkGray)));
            i = i + 1;
            assert(start.code_lines.subrange(0, i as int).map_values(
                |l: Seq<char>| single("    │ "@ + l, colored(Color::DarkGray)),
            ) =~= start.code_lines.subrange(0, i - 1).map_values(
                |l: Seq<char>| single("    │ "@ + l, colored(Color::DarkGray)),
            ).push(single("    │ "@ + start.code_lines[i - 1], colored(Color::DarkGray))));
        }
        self.push_line(line_of(owned("    └─"), SpanStyle::dimmed()));
        assert(start.code_lines.subrange(0, start.code_lines.len() as int) =~= start.code_lines);
        assert(self@.lines =~= start.lines + code_block_lines(start.lang, start.code_lines));
    }

    /// Handles one event.
    pub fn step(&mut self, e: MdEvent)
        ensures
            final(self)@ == md_step(old(self)@, e),
    {
        match e {
            MdEvent::Start(MdTag::Heading(level)) => {
                let mut prefix = repeat_str("#", level as usize);
                push_str(&mut prefix, " ");
                let color = if level == 1 {
                    Color::Cyan
                } else if level == 2 {
                    Color::Green
                } else if level == 3 {
                    Color::Yellow
                } else {
                    Color::White
                };
                let st = SpanStyle::colored(color).with_bold();
                assert(st == heading_style(level));
                assert(prefix@ == repeat("#"@, level as nat) + " "@);
                self.add_span(prefix, st);
            },
            MdEvent::Start(MdTag::CodeBlock(kind)) => {
                self.lang = match kind {
                    MdCodeBlockKind::Fenced(l) => l,
                    MdCodeBlockKind::Indented => String::new(),
                };
                self.code_lines = Vec::new();
                self.in_code = true;
                assert(self@.code_lines =~= Seq::<Seq<char>>::empty());
            },
            MdEvent::Start(MdTag::List(_)) => {
                self.indent = self.indent.wrapping_add(2);
            },
            MdEvent::Start(MdTag::Item) => {
                if self.current.len() > 0 {
                    let l = self.take_line();
                    self.push_line(l);
                }
                let mut bullet = repeat_str("  ", self.indent as usize);
                push_str(&mut bullet, "• ");
                self.add_span(bullet, SpanStyle::dimmed());
            },
            MdEvent::Start(MdTag::BlockQuote) => {
                self.add_span(owned("│ "), SpanStyle::colored(Color::DarkGray));
            },
            MdEvent::End(MdTagEnd::Heading(_)) => {
                let l = self.take_line();
                self.push_line(l);
                self.push_line(blank_line());
            },
            MdEvent::End(MdTagEnd::CodeBlock) => {
                self.push_code_block();
                self.in_code = false;
            },
            MdEvent::End(MdTagEnd::List(_)) => {
                self.indent = self.indent.saturating_sub(2);
            },
            MdEvent::End(MdTagEnd::Paragraph) => {
                if self.current.len() > 0 {
                    let l = self.take_line();
                    self.push_line(l);
                } else {
                    assert(self@.current =~= Seq::<SpanView>::empty());
                }
                self.push_line(blank_line());
            },
            MdEvent::Text(t) => {
                if self.in_code {
                    let ghost v = self@.code_lines;
                    self.code_lines.push(t);
                    assert(self@.code_lines =~= v.push(t@));
                } else {
                    self.add_span(t, SpanStyle::plain());
                }
            },
            MdEvent::Code(t) => {
                self.add_span(t, SpanStyle { fg: None, bg: Some(Color::DarkGray), bold: false, dim: true });
            },
            MdEvent::SoftBreak | MdEvent::HardBreak => {
                let l = self.take_line();
                self.push_line(l);
            },
            MdEvent::Rule => {
                self.push_line(line_of(repeat_str("─", 40), SpanStyle::dimmed()));
            },
            _ => {},
        }
    }

    /// The rendered lines: those made, and the line still being built when
    /// it has something.
    pub fn finish(self) -> (r: Vec<StyledLine>)
        ensures
            lines_view(r@) == if self@.current.len() > 0 { self@.lines.push(self@.current) } else { self@.lines },
    {
        let mut me = self;
        if me.current.len() > 0 {
            let l = me.take_line();
            me.push_line(l);
        }
        me.lines
    }
}

/// Renders a run of markdown events as styled lines.
pub fn render_events(events: Vec<MdEvent>) -> (r: Vec<StyledLine>)
    ensures
        lines_view(r@) == rendered(events@),
{
    let mut rd = Renderer::new();
    let ghost evs = events@;
    let mut i: usize = 0;
    let mut events = events;
    let n = events.len();
    while events.len() > 0
        invariant
            n == evs.len(),
            i + events@.len() == evs.len(),
            events@ == evs.subrange(i as int, evs.len() as int),
            rd@ == md_run(evs.subrange(0, i as int)),
        decreases events@.len(),
    {
        let e = events.remove(0);
        proof {
            assert(e == evs[i as int]);
            assert(evs.subrange(0, i + 1).drop_last() =~= evs.subrange(0, i as int));
            assert(evs.subrange(0, i + 1).last() == evs[i as int]);
        }
        rd.step(e);
        i = i + 1;
        assert(events@ =~= evs.subrange(i as int, evs.len() as int));
    }
    assert(evs.subrange(0, i as int) =~= evs);
    rd.finish()
}

} // verus!

use pulldown_cmark::{CodeBlockKind, Event, Tag, TagEnd};

verus! {

/// A markdown event as the parser gives it (`pulldown_cmark::Event`).
#[verifier::external_type_specification]
#[verifier::external_body]
pub struct ExCmarkEvent<'a>(pulldown_cmark::Event<'a>);

/// A text-carrying event (`pulldown_cmark::Event::Text`, `Code`,
/// `InlineMath`, `DisplayMath`, `Html`, `InlineHtml`, `FootnoteReference`),
/// variant for variant, with its text; `None` for any other event.
/// Nothing is claimed of the result: the parser's event is opaque to the
/// proofs, which see only the named parse of a whole document.
#[verifier::external_body]
fn cmark_text_event(e: &Event<'_>) -> (r: Option<MdEvent>) {
    match e {
        Event::Text(t) => Some(MdEvent::Text(t.to_string())),
        Event::Code(t) => Some(MdEvent::Code(t.to_string())),
        Event::InlineMath(t) => Some(MdEvent::InlineMath(t.to_string())),
        Event::DisplayMath(t) => Some(MdEvent::DisplayMath(t.to_string())),
        Event::Html(t) => Some(MdEvent::Html(t.to_string())),
        Event::InlineHtml(t) => Some(MdEvent::InlineHtml(t.to_string())),
        Event::FootnoteReference(t) => Some(MdEvent::FootnoteReference(t.to_string())),
        _ => None,
    }
}

/// A mark (`pulldown_cmark::Event::SoftBreak`, `HardBreak`, `Rule`,
/// `TaskListMarker`), variant for variant; `None` for any other event.
/// Nothing is claimed of the result: the parser's event is opaque to the
/// proofs, which see only the named parse of a whole document.
#[verifier::external_body]
fn cmark_mark_event(e: &Event<'_>) -> (r: Option<MdEvent>) {
    match e {
        Event::SoftBreak => Some(MdEvent::SoftBreak),
        Event::HardBreak => Some(MdEvent::HardBreak),
        Event::Rule => Some(MdEvent::Rule),
        Event::TaskListMarker(b) => Some(MdEvent::TaskListMarker(*b)),
        _ => None,
    }
}

/// The opening of a paragraph, heading, block quote or code block
/// (`pulldown_cmark::Event::Start` of `Paragraph`, `Heading`, `BlockQuote`,
/// `CodeBlock`), variant for variant; `None` for any other event. A
/// heading's level is its number, 1 to 6.
/// Nothing is claimed of the result: the parser's event is opaque to the
/// proofs, which see only the named parse of a whole document.
#[verifier::external_body]
fn cmark_block_start(e: &Event<'_>) -> (r: Option<MdTag>) {
    match e {
        Event::Start(Tag::Paragraph) => Some(MdTag::Paragraph),
        Event::Start(Tag::Heading { level, .. }) => Some(MdTag::Heading(*level as u8)),
        Event::Start(Tag::BlockQuote(_)) => Some(MdTag::BlockQuote),
        Event::Start(Tag::CodeBlock(CodeBlockKind::Fenced(l))) => Some(MdTag::CodeBlock(MdCodeBlockKind::Fenced(l.to_string()))),
        Event::Start(Tag::CodeBlock(CodeBlockKind::Indented)) => Some(MdTag::CodeBlock(MdCodeBlockKind::Indented)),
        _ => None,
    }
}

/// The opening of an HTML block, list, item or footnote definition
/// (`pulldown_cmark::Event::Start` of `HtmlBlock`, `List`, `Item`,
/// `FootnoteDefinition`), variant for variant; `None` for any other event.
/// Nothing is claimed of the result: the parser's event is opaque to the
/// proofs, which see only the named parse of a whole document.
#[verifier::external_body]
fn cmark_list_start(e: &Event<'_>) -> (r: Option<MdTag>) {
    match e {
        Event::Start(Tag::HtmlBlock) => Some(MdTag::HtmlBlock),
        Event::Start(Tag::List(n)) => Some(MdTag::List(*n)),
        Event::Start(Tag::Item) => Some(MdTag::Item),
        Event::Start(Tag::FootnoteDefinition(l)) => Some(MdTag::FootnoteDefinition(l.to_string())),
        _ => None,
    }
}

/// The opening of a table or definition-list tag (`pulldown_cmark::Event::Start`
/// of `DefinitionList`, `DefinitionListTitle`, `DefinitionListDefinition`,
/// `Table`, `TableHead`, `TableRow`, `TableCell`), variant for variant;
/// `None` for any other event.
/// Nothing is claimed of the result: the parser's event is opaque to the
/// proofs, which see only the named parse of a whole document.
#[verifier::external_body]
fn cmark_table_start(e: &Event<'_>) -> (r: Option<MdTag>) {
    match e {
        Event::Start(Tag::DefinitionList) => Some(MdTag::DefinitionList),
        Event::Start(Tag::DefinitionListTitle) => Some(MdTag::DefinitionListTitle),
        Event::Start(Tag::DefinitionListDefinition) => Some(MdTag::DefinitionListDefinition),
        Event::Start(Tag::Table(_)) => Some(MdTag::Table),
        Event::Start(Tag::TableHead) => Some(MdTag::TableHead),
        Event::Start(Tag::TableRow) => Some(MdTag::TableRow),
        Event::Start(Tag::TableCell) => Some(MdTag::TableCell),
        _ => None,
    }
}

/// The opening of an inline or metadata tag (`pulldown_cmark::Event::Start`
/// of `Emphasis`, `Strong`, `Strikethrough`, `Link`, `Image`,
/// `MetadataBlock`), variant for variant; `None` for any other event.
/// Nothing is claimed of the result: the parser's event is opaque to the
/// proofs, which see only the named parse of a whole document.
#[verifier::external_body]
fn cmark_span_start(e: &Event<'_>) -> (r: Option<MdTag>) {
    match e {
        Event::Start(Tag::Emphasis) => Some(MdTag::Emphasis),
        Event::Start(Tag::Strong) => Some(MdTag::Strong),
        Event::Start(Tag::Strikethrough) => Some(MdTag::Strikethrough),
        Event::Start(Tag::Link { .. }) => Some(MdTag::Link),
        Event::Start(Tag::Image { .. }) => Some(MdTag::Image),
        Event::Start(Tag::MetadataBlock(_)) => Some(MdTag::MetadataBlock),
        _ => None,
    }
}

/// The closing of a block tag (`pulldown_cmark::Event::End` of `Paragraph`,
/// `Heading`, `BlockQuote`, `CodeBlock`, `HtmlBlock`, `List`, `Item`,
/// `FootnoteDefinition`), variant for variant; `None` for any other event.
/// A heading's level is its number, 1 to 6.
/// Nothing is claimed of the result: the parser's event is opaque to the
/// proofs, which see only the named parse of a whole document.
#[verifier::external_body]
fn cmark_block_end(e: &Event<'_>) -> (r: Option<MdTagEnd>) {
    match e {
        Event::End(TagEnd::Paragraph) => Some(MdTagEnd::Paragraph),
        Event::End(TagEnd::Heading(level)) => Some(MdTagEnd::Heading(*level as u8)),
        Event::End(TagEnd::BlockQuote(_)) => Some(MdTagEnd::BlockQuote),
        Event::End(TagEnd::CodeBlock) => Some(MdTagEnd::CodeBlock),
        Event::End(TagEnd::HtmlBlock) => Some(MdTagEnd::HtmlBlock),
        Event::End(TagEnd::List(ordered)) => Some(MdTagEnd::List(*ordered)),
        Event::End(TagEnd::Item) => Some(MdTagEnd::Item),
        Event::End(TagEnd::FootnoteDefinition) => Some(MdTagEnd::FootnoteDefinition),
        _ => None,
    }
}

/// The closing of a table or definition-list tag (`pulldown_cmark::Event::End`
/// of `DefinitionList`, `DefinitionListTitle`, `DefinitionListDefinition`,
/// `Table`, `TableHead`, `TableRow`, `TableCell`), variant for variant;
/// `None` for any other event.
/// Nothing is claimed of the result: the parser's event is opaque to the
/// proofs, which see only the named parse of a whole document.
#[verifier::external_body]
fn cmark_table_end(e: &Event<'_>) -> (r: Option<MdTagEnd>) {
    match e {
        Event::End(TagEnd::DefinitionList) => Some(MdTagEnd::DefinitionList),
        Event::End(TagEnd::DefinitionListTitle) => Some(MdTagEnd::DefinitionListTitle),
        Event::End(TagEnd::DefinitionListDefinition) => Some(MdTagEnd::DefinitionListDefinition),
        Event::End(TagEnd::Table) => Some(MdTagEnd::Table),
        Event::End(TagEnd::TableHead) => Some(MdTagEnd::TableHead),
        Event::End(TagEnd::TableRow) => Some(MdTagEnd::TableRow),
        Event::End(TagEnd::TableCell) => Some(MdTagEnd::TableCell),
        _ => None,
    }
}

/// The closing of an inline or metadata tag (`pulldown_cmark::Event::End`
/// of `Emphasis`, `Strong`, `Strikethrough`, `Link`, `Image`,
/// `MetadataBlock`), variant for variant; `None` for any other event.
/// Nothing is claimed of the result: the parser's event is opaque to the
/// proofs, which see only the named parse of a whole document.
#[verifier::external_body]
fn cmark_span_end(e: &Event<'_>) -> (r: Option<MdTagEnd>) {
    match e {
        Event::End(TagEnd::Emphasis) => Some(MdTagEnd::Emphasis),
        Event::End(TagEnd::Strong) => Some(MdTagEnd::Strong),
        Event::End(TagEnd::Strikethrough) => Some(MdTagEnd::Strikethrough),
        Event::End(TagEnd::Link) => Some(MdTagEnd::Link),
        Event::End(TagEnd::Image) => Some(MdTagEnd::Image),
        Event::End(TagEnd::MetadataBlock(_)) => Some(MdTagEnd::MetadataBlock),
        _ => None,
    }
}

/// One parser event as the library reads it: the first conversion that
/// recognises it. Every event of the parser is recognised by one of them.
fn md_event(e: &Event<'_>) -> (r: Option<MdEvent>) {
    if let Some(m) = cmark_text_event(e) {
        return Some(m);
    }
    if let Some(m) = cmark_mark_event(e) {
        return Some(m);
    }
    if let Some(t) = cmark_block_start(e) {
        return Some(MdEvent::Start(t));
    }
    if let Some(t) = cmark_list_start(e) {
        return Some(MdEvent::Start(t));
    }
    if let Some(t) = cmark_table_start(e) {
        return Some(MdEvent::Start(t));
    }
    if let Some(t) = cmark_span_start(e) {
        return Some(MdEvent::Start(t));
    }
    if let Some(t) = cmark_block_end(e) {
        return Some(MdEvent::End(t));
    }
    if let Some(t) = cmark_table_end(e) {
        return Some(MdEvent::End(t));
    }
    match cmark_span_end(e) {
        Some(t) => Some(MdEvent::End(t)),
        None => None,
    }
}

/// The events that `pulldown_cmark::Parser` gives for a document, in order,
/// each as `md_event` reads it.
pub uninterp spec fn markdown_parse(text: Seq<char>) -> Seq<MdEvent>;

/// The events of a markdown document (`pulldown_cmark::Parser::new`, all
/// of its events, each read by `md_event`): they are `markdown_parse` of
/// the text.
#[verifier::external_body]
fn markdown_events(text: &str) -> (r: Vec<MdEvent>)
    ensures
        r@ == markdown_parse(text@),
{
    pulldown_cmark::Parser::new(text).filter_map(|e| md_event(&e)).collect()
}

/// The styled lines of a markdown document.
pub open spec fn markdown_lines(text: Seq<char>) -> Seq<Seq<SpanView>> {
    rendered(markdown_parse(text))
}

/// Renders markdown text as styled lines: the document's events rendered
/// as `rendered` says.
pub fn render(text: &str) -> (r: Vec<StyledLine>)
    ensures
        lines_view(r@) == markdown_lines(text@),
{
    let evs = markdown_events(text);
    render_events(evs)
}

} // verus!
