//! The chat screen's transcript as styled lines, with the map from each
//! line to its entry and the scroll position.
use vstd::prelude::*;
use crate::markdown::{
    Color, SpanStyle, SpanView, StyledLine, StyledSpan, colored, dimmed, lines_view, markdown_lines, plain, render,
};
use crate::text::{decimal, lines, lines_of, owned, push_decimal};
use crate::tui::{App, DisplayMessage, MsgKind};

verus! {

/// A span of text in a style.
pub open spec fn sv(text: Seq<char>, style: SpanStyle) -> SpanView {
    SpanView { text, style }
}

/// Bold text in a color.
pub open spec fn bold_colored(c: Color) -> SpanStyle {
    SpanStyle { fg: Some(c), bg: None, bold: true, dim: false }
}

/// The line that opens an entry: a bar and who speaks.
pub open spec fn speaker_line(c: Color, who: Seq<char>) -> Seq<SpanView> {
    seq![sv("┃ "@, colored(c)), sv(who, bold_colored(c))]
}

/// A line of unstyled text.
pub open spec fn raw_line(t: Seq<char>) -> Seq<SpanView> {
    seq![sv(t, plain())]
}

/// A line of a tool's output.
pub open spec fn tool_line(t: Seq<char>, c: Color) -> Seq<SpanView> {
    seq![sv("  └─ "@, colored(c)), sv(t, colored(c))]
}

/// The color of a tool's output.
pub open spec fn tool_color(is_error: bool) -> Color {
    if is_error { Color::Red } else { Color::DarkGray }
}

/// A line drawn on a dark gray background.
pub open spec fn highlight(l: Seq<SpanView>) -> Seq<SpanView> {
    l.map_values(|s: SpanView| sv(s.text, SpanStyle { bg: Some(Color::DarkGray), ..s.style }))
}

/// The lines of a transcript entry; an assistant's reply is drawn as
/// markdown.
pub open spec fn entry_lines(m: DisplayMessage) -> Seq<Seq<SpanView>> {
    match m.kind {
        MsgKind::User => seq![speaker_line(Color::Green, "You"@)] + lines(m.content@).map_values(
            |l: Seq<char>| raw_line(l),
        ) + seq![raw_line(Seq::empty())],
        MsgKind::Assistant => seq![speaker_line(Color::Cyan, "AI"@)] + markdown_lines(m.content@),
        MsgKind::ToolResult { content, is_error } => lines(content@).map_values(
            |l: Seq<char>| tool_line(l, tool_color(is_error)),
        ),
        MsgKind::Error(e) => seq![
            seq![sv("⚠ "@, bold_colored(Color::Red)), sv(e@, colored(Color::Red))],
            raw_line(Seq::empty()),
        ],
    }
}

/// Whether entry `i` lies in the selection.
pub open spec fn in_selection(sel: Option<(usize, usize)>, i: int) -> bool {
    match sel {
        Some((a, c)) => (if a <= c { a as int } else { c as int }) <= i <= (if a <= c { c as int } else { a as int }),
        None => false,
    }
}

/// The lines of the first `n` entries, selected ones highlighted.
pub open spec fn entries_lines(msgs: Seq<DisplayMessage>, sel: Option<(usize, usize)>, n: int) -> Seq<Seq<SpanView>>
    decreases n,
{
    if n <= 0 {
        Seq::empty()
    } else {
        let ls = entry_lines(msgs[n - 1]);
        entries_lines(msgs, sel, n - 1) + if in_selection(sel, n - 1) {
            ls.map_values(|l: Seq<SpanView>| highlight(l))
        } else {
            ls
        }
    }
}

/// The entry of each line of the first `n` entries.
pub open spec fn line_owners(msgs: Seq<DisplayMessage>, n: int) -> Seq<usize>
    decreases n,
{
    if n <= 0 {
        Seq::empty()
    } else {
        line_owners(msgs, n - 1) + Seq::new(
            entry_lines(msgs[n - 1]).len(),
            |k: int| (n - 1) as usize,
        )
    }
}

/// The lines of the reply being streamed, drawn as markdown once it has
/// text.
pub open spec fn stream_lines(streaming: Option<String>) -> Seq<Seq<SpanView>> {
    match streaming {
        Some(t) => seq![speaker_line(Color::Cyan, "AI"@)] + if t@.len() == 0 {
            seq![seq![sv("▊"@, dimmed())]]
        } else {
            markdown_lines(t@)
        },
        None => Seq::empty(),
    }
}

/// The line of the tool that runs, if one does.
pub open spec fn running_lines(active: Option<String>) -> Seq<Seq<SpanView>> {
    match active {
        Some(name) => seq![
            seq![
                sv("  ↻ "@, colored(Color::Yellow)),
                sv(name@, bold_colored(Color::Yellow)),
                sv(" running..."@, dimmed()),
            ],
        ],
        None => Seq::empty(),
    }
}

/// The screen's lines before scrolling.
pub open spec fn body_lines(app: App) -> Seq<Seq<SpanView>> {
    let all = entries_lines(app.messages@, app.selection, app.messages@.len() as int) + stream_lines(
        app.streaming_text,
    ) + running_lines(app.active_tool_name);
    if all.len() == 0 {
        seq![seq![sv("Type a message and press Enter to start."@, dimmed())], raw_line(Seq::empty())]
    } else {
        all
    }
}

/// How far the view can scroll: the line count (as a 16-bit number) less
/// the viewport's height (at least one).
pub open spec fn max_scroll(count: u16, height: u16) -> u16 {
    let v: u16 = if height == 0 { 1 } else { height };
    if count > v { (count - v) as u16 } else { 0 }
}

/// Everything but what drawing sets is unchanged.
pub open spec fn same_state(a: App, b: App) -> bool {
    &&& a.messages == b.messages
    &&& a.streaming_text == b.streaming_text
    &&& a.tool_calls_in_flight == b.tool_calls_in_flight
    &&& a.input == b.input
    &&& a.input_cursor == b.input_cursor
    &&& a.history == b.history
    &&& a.history_pos == b.history_pos
    &&& a.auto_scroll == b.auto_scroll
    &&& a.tools_count == b.tools_count
    &&& a.model_name == b.model_name
    &&& a.token_count == b.token_count
    &&& a.active_tool_name == b.active_tool_name
    &&& a.toast == b.toast
    &&& a.toast_ticks == b.toast_ticks
    &&& a.selection == b.selection
    &&& a.mouse_selecting == b.mouse_selecting
    &&& a.exit == b.exit
}

/// The drawing of `app` in an area at row `y` of the given height: the
/// lines to show, the scroll offset, and the screen after.
pub open spec fn laid_out(before: App, after: App, y: u16, height: u16, lines_shown: Seq<Seq<SpanView>>, offset: u16) -> bool {
    let body = body_lines(before);
    let ms = max_scroll(body.len() as u16, height);
    &&& after.scroll == if before.auto_scroll { ms } else { before.scroll }
    &&& offset == if after.scroll < ms { after.scroll } else { ms }
    &&& lines_shown == if offset > 0 {
        seq![seq![sv("↑ "@ + decimal(offset as nat) + " more lines"@, dimmed())]] + body
    } else {
        body
    }
    &&& after.msg_line_map@ == line_owners(before.messages@, before.messages@.len() as int)
    &&& after.msg_area_y == y
    &&& after.msg_area_height == height
    &&& same_state(before, after)
}

fn span(text: String, style: SpanStyle) -> (r: StyledSpan)
    ensures
        r@ == sv(text@, style),
{
    StyledSpan { text, style }
}

fn line_of(spans: Vec<StyledSpan>) -> (r: StyledLine)
    ensures
        r@ == crate::markdown::spans_view(spans@),
{
    StyledLine { spans }
}

fn bold(c: Color) -> (r: SpanStyle)
    ensures
        r == bold_colored(c),
{
    SpanStyle { fg: Some(c), bg: None, bold: true, dim: false }
}

fn speaker(c: Color, who: &str) -> (r: StyledLine)
    ensures
        r@ == speaker_line(c, who@),
{
    let mut v: Vec<StyledSpan> = Vec::new();
    v.push(span(owned("┃ "), SpanStyle::colored(c)));
    v.push(span(owned(who), bold(c)));
    let r = line_of(v);
    assert(r@ =~= speaker_line(c, who@));
    r
}

fn raw(t: String) -> (r: StyledLine)
    ensures
        r@ == raw_line(t@),
{
    let mut v: Vec<StyledSpan> = Vec::new();
    v.push(span(t, SpanStyle::plain()));
    let r = line_of(v);
    assert(r@ =~= raw_line(t@));
    r
}

fn blank() -> (r: StyledLine)
    ensures
        r@ == raw_line(Seq::empty()),
{
    let r = raw(String::new());
    r
}

fn highlight_line(l: StyledLine) -> (r: StyledLine)
    ensures
        r@ == highlight(l@),
{
    let mut out: Vec<StyledSpan> = Vec::new();
    let mut rest = l.spans;
    let ghost orig = rest@;
    let mut i: usize = 0;
    let n = rest.len();
    while rest.len() > 0
        invariant
            n == orig.len(),
            i + rest@.len() == orig.len(),
            rest@ == orig.subrange(i as int, orig.len() as int),
            crate::markdown::spans_view(out@) == highlight(crate::markdown::spans_view(orig.subrange(0, i as int))),
        decreases rest@.len(),
    {
        let s = rest.remove(0);
        proof {
            assert(s == orig[i as int]);
        }
        let st = s.style;
        let ghost prev = out@;
        let ns = span(s.text, SpanStyle { bg: Some(Color::DarkGray), ..st });
        out.push(ns);
        assert(crate::markdown::spans_view(out@) =~= crate::markdown::spans_view(prev).push(ns@));
        i = i + 1;
        assert(rest@ =~= orig.subrange(i as int, orig.len() as int));
        assert(crate::markdown::spans_view(orig.subrange(0, i as int)) =~= crate::markdown::spans_view(
            orig.subrange(0, i - 1),
        ).push(orig[i - 1]@));
        assert(crate::markdown::spans_view(out@) =~= highlight(crate::markdown::spans_view(orig.subrange(0, i as int))));
    }
    assert(orig.subrange(0, i as int) =~= orig);
    line_of(out)
}

fn text_lines(text: &str, tool: Option<Color>) -> (r: Vec<StyledLine>)
    ensures
        lines_view(r@) == match tool {
            Some(c) => lines(text@).map_values(|l: Seq<char>| tool_line(l, c)),
            None => lines(text@).map_values(|l: Seq<char>| raw_line(l)),
        },
{
    let ls = lines_of(text);
    let ghost lv = ls@.map_values(|l: String| l@);
    let mut out: Vec<StyledLine> = Vec::new();
    let mut i: usize = 0;
    while i < ls.len()
        invariant
            i <= ls@.len(),
            lv == ls@.map_values(|l: String| l@),
            lv == lines(text@),
            lines_view(out@) == match tool {
                Some(c) => lv.subrange(0, i as int).map_values(|l: Seq<char>| tool_line(l, c)),
                None => lv.subrange(0, i as int).map_values(|l: Seq<char>| raw_line(l)),
            },
        decreases ls@.len() - i,
    {
        let t = ls[i].clone();
        assert(t@ == lv[i as int]);
        match tool {
            Some(c) => {
                let mut v: Vec<StyledSpan> = Vec::new();
                v.push(span(owned("  └─ "), SpanStyle::colored(c)));
                v.push(span(t, SpanStyle::colored(c)));
                let l = line_of(v);
                assert(l@ =~= tool_line(lv[i as int], c));
                let ghost prev = out@;
                out.push(l);
                assert(lines_view(out@) =~= lines_view(prev).push(tool_line(lv[i as int], c)));
            },
            None => {
                let ghost prev = out@;
                let l = raw(t);
                out.push(l);
                assert(lines_view(out@) =~= lines_view(prev).push(raw_line(lv[i as int])));
            },
        }
        i = i + 1;
        assert(lv.subrange(0, i as int) =~= lv.subrange(0, i - 1).push(lv[i - 1]));
        match tool {
            Some(c) => {
                assert(lines_view(out@) =~= lv.subrange(0, i as int).map_values(|l: Seq<char>| tool_line(l, c)));
            },
            None => {
                assert(lines_view(out@) =~= lv.subrange(0, i as int).map_values(|l: Seq<char>| raw_line(l)));
            },
        }
    }
    assert(lv.subrange(0, ls@.len() as int) =~= lv);
    out
}

fn append_lines(out: &mut Vec<StyledLine>, more: Vec<StyledLine>)
    ensures
        lines_view(final(out)@) == lines_view(old(out)@) + lines_view(more@),
{
    let mut more = more;
    let ghost m = more@;
    out.append(&mut more);
    assert(lines_view(out@) =~= lines_view(old(out)@) + lines_view(m));
}

/// The lines of one transcript entry; an assistant's reply goes through the
/// markdown renderer.
fn entry_block(m: &DisplayMessage) -> (r: Vec<StyledLine>)
    ensures
        lines_view(r@) == entry_lines(*m),
{
    match &m.kind {
        MsgKind::User => {
            let mut out: Vec<StyledLine> = Vec::new();
            out.push(speaker(Color::Green, "You"));
            assert(lines_view(out@) =~= seq![speaker_line(Color::Green, "You"@)]);
            append_lines(&mut out, text_lines(m.content.as_str(), None));
            let ghost prev = out@;
            out.push(blank());
            assert(lines_view(out@) =~= lines_view(prev).push(raw_line(Seq::empty())));
            assert(lines_view(out@) =~= entry_lines(*m));
            out
        },
        MsgKind::Assistant => {
            let mut out: Vec<StyledLine> = Vec::new();
            out.push(speaker(Color::Cyan, "AI"));
            assert(lines_view(out@) =~= seq![speaker_line(Color::Cyan, "AI"@)]);
            append_lines(&mut out, render(m.content.as_str()));
            assert(lines_view(out@) =~= entry_lines(*m));
            out
        },
        MsgKind::ToolResult { content, is_error } => {
            let c = if *is_error { Color::Red } else { Color::DarkGray };
            let out = text_lines(content.as_str(), Some(c));
            assert(lines_view(out@) =~= entry_lines(*m));
            out
        },
        MsgKind::Error(e) => {
            let mut out: Vec<StyledLine> = Vec::new();
            let mut v: Vec<StyledSpan> = Vec::new();
            v.push(span(owned("⚠ "), bold(Color::Red)));
            v.push(span(e.clone(), SpanStyle::colored(Color::Red)));
            let first = line_of(v);
            assert(first@ =~= seq![sv("⚠ "@, bold_colored(Color::Red)), sv(e@, colored(Color::Red))]);
            out.push(first);
            out.push(blank());
            assert(lines_view(out@) =~= seq![first@, raw_line(Seq::empty())]);
            assert(lines_view(out@) =~= entry_lines(*m));
            out
        },
    }
}

/// Appends an entry's lines, highlighted or not, and records their owner.
fn push_block(all: &mut Vec<StyledLine>, owners: &mut Vec<usize>, block: Vec<StyledLine>, owner: usize, hl: bool)
    ensures
        lines_view(final(all)@) == lines_view(old(all)@) + if hl {
            lines_view(block@).map_values(|l: Seq<SpanView>| highlight(l))
        } else {
            lines_view(block@)
        },
        final(owners)@ == old(owners)@ + Seq::new(block@.len(), |k: int| owner),
{
    let ghost bv = lines_view(block@);
    let ghost start = lines_view(all@);
    let ghost ostart = owners@;
    let mut rest = block;
    let mut i: usize = 0;
    let n = rest.len();
    while rest.len() > 0
        invariant
            n == bv.len(),
            i + rest@.len() == n,
            lines_view(rest@) == bv.subrange(i as int, n as int),
            lines_view(all@) == start + if hl {
                bv.subrange(0, i as int).map_values(|l: Seq<SpanView>| highlight(l))
            } else {
                bv.subrange(0, i as int)
            },
            owners@ == ostart + Seq::new(i as nat, |k: int| owner),
        decreases rest@.len(),
    {
        let ghost rv = rest@;
        let l = rest.remove(0);
        proof {
            assert(l@ == lines_view(rv)[0]);
            assert(lines_view(rest@) =~= lines_view(rv).subrange(1, rv.len() as int));
        }
        let ghost prev = all@;
        let ghost lv = l@;
        if hl {
            let h = highlight_line(l);
            all.push(h);
            assert(lines_view(all@) =~= lines_view(prev).push(highlight(lv)));
        } else {
            all.push(l);
            assert(lines_view(all@) =~= lines_view(prev).push(lv));
        }
        owners.push(owner);
        i = i + 1;
        assert(bv.subrange(0, i as int) =~= bv.subrange(0, i - 1).push(lv));
        assert(lines_view(rest@) =~= bv.subrange(i as int, n as int));
        assert(owners@ =~= ostart + Seq::new(i as nat, |k: int| owner));
        if hl {
            assert(lines_view(all@) =~= start + bv.subrange(0, i as int).map_values(|l: Seq<SpanView>| highlight(l)));
        } else {
            assert(lines_view(all@) =~= start + bv.subrange(0, i as int));
        }
    }
    assert(bv.subrange(0, n as int) =~= bv);
}

/// The lines of the reply being streamed.
fn stream_block(streaming: &Option<String>) -> (r: Vec<StyledLine>)
    ensures
        lines_view(r@) == stream_lines(*streaming),
{
    let mut all: Vec<StyledLine> = Vec::new();
    match streaming {
        Some(t) => {
            all.push(speaker(Color::Cyan, "AI"));
            assert(lines_view(all@) =~= seq![speaker_line(Color::Cyan, "AI"@)]);
            if t.as_str().is_empty() {
                let mut v: Vec<StyledSpan> = Vec::new();
                v.push(span(owned("▊"), SpanStyle::dimmed()));
                let l = line_of(v);
                assert(l@ =~= seq![sv("▊"@, dimmed())]);
                all.push(l);
                assert(lines_view(all@) =~= stream_lines(*streaming));
            } else {
                append_lines(&mut all, render(t.as_str()));
                assert(lines_view(all@) =~= stream_lines(*streaming));
            }
        },
        None => {
            assert(lines_view(all@) =~= stream_lines(*streaming));
        },
    }
    all
}

/// The line of the tool that runs, if one does.
fn running_block(active: &Option<String>) -> (r: Vec<StyledLine>)
    ensures
        lines_view(r@) == running_lines(*active),
{
    let mut all: Vec<StyledLine> = Vec::new();
    match active {
        Some(name) => {
            let mut v: Vec<StyledSpan> = Vec::new();
            v.push(span(owned("  ↻ "), SpanStyle::colored(Color::Yellow)));
            v.push(span(name.clone(), bold(Color::Yellow)));
            v.push(span(owned(" running..."), SpanStyle::dimmed()));
            let l = line_of(v);
            assert(l@ =~= running_lines(*active)[0]);
            all.push(l);
            assert(lines_view(all@) =~= running_lines(*active));
        },
        None => {
            assert(lines_view(all@) =~= running_lines(*active));
        },
    }
    all
}

/// The transcript's lines and their owners.
fn layout(app: &App) -> (r: (Vec<StyledLine>, Vec<usize>))
    ensures
        lines_view(r.0@) == body_lines(*app),
        r.1@ == line_owners(app.messages@, app.messages@.len() as int),
{
    let mut all: Vec<StyledLine> = Vec::new();
    let mut owners: Vec<usize> = Vec::new();
    let ghost msgs = app.messages@;
    let range = app.selected_range();
    let n = app.messages.len();
    let mut i: usize = 0;
    while i < n
        invariant
            msgs == app.messages@,
            n == msgs.len(),
            i <= n,
            range == match app.selection {
                Some((a, c)) => Some((if a <= c { a } else { c }, if a <= c { c } else { a })),
                None => None::<(usize, usize)>,
            },
            lines_view(all@) == entries_lines(msgs, app.selection, i as int),
            owners@ == line_owners(msgs, i as int),
        decreases n - i,
    {
        let block = entry_block(&app.messages[i]);
        let hl = match range {
            Some((lo, hi)) => lo <= i && i <= hi,
            None => false,
        };
        assert(hl == in_selection(app.selection, i as int));
        push_block(&mut all, &mut owners, block, i, hl);
        i = i + 1;
    }
    append_lines(&mut all, stream_block(&app.streaming_text));
    append_lines(&mut all, running_block(&app.active_tool_name));
    if all.len() == 0 {
        let mut v: Vec<StyledSpan> = Vec::new();
        v.push(span(owned("Type a message and press Enter to start."), SpanStyle::dimmed()));
        let l = line_of(v);
        assert(l@ =~= seq![sv("Type a message and press Enter to start."@, dimmed())]);
        all.push(l);
        all.push(blank());
        assert(lines_view(all@) =~= seq![
            seq![sv("Type a message and press Enter to start."@, dimmed())],
            raw_line(Seq::empty()),
        ]);
    }
    (all, owners)
}

impl App {
    /// Lays out the transcript for an area at row `y` of the given height:
    /// each entry's lines (the selected ones on a dark gray background), the
    /// reply being streamed, the tool that runs, or a hint when there is
    /// nothing. Records which entry each line belongs to, follows the end
    /// when auto-scrolling, and returns the lines to show with the scroll
    /// offset; a line on top says how many lines lie above.
    pub fn render_messages(&mut self, y: u16, height: u16) -> (r: (Vec<StyledLine>, u16))
        ensures
            laid_out(*old(self), *final(self), y, height, lines_view(r.0@), r.1),
    {
        let (mut all, owners) = layout(self);
        let count = all.len() as u16;
        let viewport: u16 = if height == 0 { 1 } else { height };
        let ms: u16 = if count > viewport { count - viewport } else { 0 };
        if self.auto_scroll {
            self.scroll = ms;
        }
        let offset: u16 = if self.scroll < ms { self.scroll } else { ms };
        if offset > 0 {
            let mut t = owned("↑ ");
            push_decimal(&mut t, offset as u64);
            crate::text::push_str(&mut t, " more lines");
            let mut v: Vec<StyledSpan> = Vec::new();
            v.push(span(t, SpanStyle::dimmed()));
            let l = line_of(v);
            assert(l@ =~= seq![sv("↑ "@ + decimal(offset as nat) + " more lines"@, dimmed())]);
            let ghost prev = lines_view(all@);
            all.insert(0, l);
            assert(lines_view(all@) =~= seq![seq![sv("↑ "@ + decimal(offset as nat) + " more lines"@, dimmed())]] + prev);
        }
        self.msg_line_map = owners;
        self.msg_area_y = y;
        self.msg_area_height = height;
        assert(laid_out(*old(self), *self, y, height, lines_view(all@), offset));
        (all, offset)
    }
}

/// Each transcript line belongs to exactly one entry: there are as many
/// owners as lines, and the owners run through the entries in order.
pub proof fn law_line_owners_match_lines(msgs: Seq<DisplayMessage>, sel: Option<(usize, usize)>, n: int)
    requires
        0 <= n <= msgs.len(),
        msgs.len() <= usize::MAX,
    ensures
        line_owners(msgs, n).len() == entries_lines(msgs, sel, n).len(),
        forall|i: int, j: int| 0 <= i <= j < line_owners(msgs, n).len() ==> line_owners(msgs, n)[i] <= line_owners(msgs, n)[j],
        forall|i: int| 0 <= i < line_owners(msgs, n).len() ==> line_owners(msgs, n)[i] < n,
    decreases n,
{
    if n > 0 {
        law_line_owners_match_lines(msgs, sel, n - 1);
        let prev = line_owners(msgs, n - 1);
        let own = line_owners(msgs, n);
        let k = entry_lines(msgs[n - 1]).len();
        assert(own == prev + Seq::new(k, |x: int| (n - 1) as usize));
        assert forall|i: int, j: int| 0 <= i <= j < own.len() implies own[i] <= own[j] by {
            if j >= prev.len() {
                assert(own[j] == (n - 1) as usize);
                if i < prev.len() {
                    assert(own[i] == prev[i]);
                }
            } else {
                assert(own[i] == prev[i] && own[j] == prev[j]);
            }
        }
        assert forall|i: int| 0 <= i < own.len() implies own[i] < n by {
            if i < prev.len() {
                assert(own[i] == prev[i]);
            }
        }
    }
}

/// Where the toast goes in an area of the given size, as (x, y, width,
/// height): a box three rows high, as wide as the text and six columns
/// more but within the area less two, centred, a quarter of the way down
/// (at least one row) and kept inside the area.
pub open spec fn toast_box(text_bytes: nat, area_w: u16, area_h: u16) -> (u16, u16, u16, u16) {
    let avail: int = if area_w >= 2 { area_w - 2 } else { 0 };
    let w: int = if text_bytes + 6 < avail { (text_bytes + 6) as int } else { avail };
    let x: int = (if area_w >= w { area_w - w } else { 0 }) / 2;
    let quarter: int = (area_h / 4) as int;
    let y0: int = if quarter < 1 { 1 } else { quarter };
    let lim: int = if area_h >= 3 { area_h - 3 } else { 0 };
    let y: int = if y0 < lim { y0 } else { lim };
    (x as u16, y as u16, w as u16, 3)
}

/// Where the toast goes in an area of the given size.
pub fn toast_rect(text_bytes: usize, area_w: u16, area_h: u16) -> (r: (u16, u16, u16, u16))
    ensures
        r == toast_box(text_bytes as nat, area_w, area_h),
{
    let avail: u16 = if area_w >= 2 { area_w - 2 } else { 0 };
    let w: u16 = if text_bytes < (avail as usize) && text_bytes + 6 < (avail as usize) { (text_bytes + 6) as u16 } else { avail };
    let x: u16 = (if area_w >= w { area_w - w } else { 0 }) / 2;
    let quarter: u16 = area_h / 4;
    let y0: u16 = if quarter < 1 { 1 } else { quarter };
    let lim: u16 = if area_h >= 3 { area_h - 3 } else { 0 };
    let y: u16 = if y0 < lim { y0 } else { lim };
    (x, y, w, 3)
}

impl App {
    /// The input line as drawn, `> ` and the input, with the cursor's
    /// column.
    pub fn input_line(&self) -> (r: (String, usize))
        requires
            self.input_cursor + 2 <= usize::MAX,
        ensures
            r.0@ == "> "@ + self.input@,
            r.1 == self.input_cursor + 2,
    {
        let mut s = owned("> ");
        let t = crate::text::string_from_chars(self.input.as_slice());
        crate::text::push_str(&mut s, t.as_str());
        (s, self.input_cursor + 2)
    }

    /// The status line: model, tool count, token count and the keys.
    pub fn status_text(&self) -> (r: String)
        ensures
            r@ == " "@ + self.model_name@ + " | "@ + decimal(self.tools_count as nat) + " tools | "@
                + decimal(self.token_count as nat) + " tokens | Ctrl+Y copy msg | Esc exit"@,
    {
        let mut s = owned(" ");
        crate::text::push_str(&mut s, self.model_name.as_str());
        crate::text::push_str(&mut s, " | ");
        push_decimal(&mut s, self.tools_count as u64);
        crate::text::push_str(&mut s, " tools | ");
        push_decimal(&mut s, self.token_count as u64);
        crate::text::push_str(&mut s, " tokens | Ctrl+Y copy msg | Esc exit");
        s
    }
}

} // verus!
