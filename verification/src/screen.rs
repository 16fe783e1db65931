//! What the cockpit shows: its panes as styled text, each at its place.

use crate::clock::{clock, Moment};
use crate::cockpit::{newest, App, Cockpit};
use crate::layout::{places, roomy, roomy_places, Area, Places};
use crate::palette::{
    s_idle, s_live, s_pane_border, s_text, s_text_dim, s_title, s_warn, Style,
};
use crate::telemetry::Telemetry;
use crate::text::{
    begins, chars_of, decimal, decimal_string, join, law_begins, starts_with, texts,
};
use vstd::prelude::*;

verus! {

/// A piece of text in one style.
pub struct Span {
    pub text: String,
    pub style: Style,
}

/// What a span shows.
#[verifier::ext_equal]
pub struct Piece {
    pub text: Seq<char>,
    pub style: Style,
}

impl View for Span {
    type V = Piece;

    open spec fn view(&self) -> Piece {
        Piece { text: self.text@, style: self.style }
    }
}

/// A line of text.
pub struct Line {
    pub spans: Vec<Span>,
}

impl View for Line {
    type V = Seq<Piece>;

    open spec fn view(&self) -> Seq<Piece> {
        self.spans@.map_values(|s: Span| s@)
    }
}

/// What a list of lines shows.
pub open spec fn rows(v: Seq<Line>) -> Seq<Seq<Piece>> {
    v.map_values(|l: Line| l@)
}

/// A border on all sides, with a title in it or without.
pub struct Border {
    pub title: Option<Span>,
    pub style: Style,
}

/// What a border shows.
#[verifier::ext_equal]
pub struct Edge {
    pub title: Option<Piece>,
    pub style: Style,
}

impl View for Border {
    type V = Edge;

    open spec fn view(&self) -> Edge {
        Edge {
            title: match self.title {
                Some(s) => Some(s@),
                None => None,
            },
            style: self.style,
        }
    }
}

/// Something to be painted on the terminal.
pub enum Widget {
    /// Lines of text.
    Text { area: Area, lines: Vec<Line> },
    /// Lines of text in a border, wrapped at its right side or cut off there.
    Panel { area: Area, border: Border, lines: Vec<Line>, wrap: bool },
    /// A list in a border, in which selected items stand out in a style of their own.
    List { area: Area, border: Border, items: Vec<Line>, highlight: Style },
    /// A border alone.
    Frame { area: Area, border: Border },
    /// A bar, filled to some percentage, with a label.
    Gauge { area: Area, style: Style, percent: u16, label: String },
}

/// What a widget shows.
#[verifier::ext_equal]
pub enum Shape {
    Text { area: Area, lines: Seq<Seq<Piece>> },
    Panel { area: Area, border: Edge, lines: Seq<Seq<Piece>>, wrap: bool },
    List { area: Area, border: Edge, items: Seq<Seq<Piece>>, highlight: Style },
    Frame { area: Area, border: Edge },
    Gauge { area: Area, style: Style, percent: u16, label: Seq<char> },
}

impl View for Widget {
    type V = Shape;

    open spec fn view(&self) -> Shape {
        match *self {
            Widget::Text { area, lines } => Shape::Text { area, lines: rows(lines@) },
            Widget::Panel { area, border, lines, wrap } => Shape::Panel {
                area,
                border: border@,
                lines: rows(lines@),
                wrap,
            },
            Widget::List { area, border, items, highlight } => Shape::List {
                area,
                border: border@,
                items: rows(items@),
                highlight,
            },
            Widget::Frame { area, border } => Shape::Frame { area, border: border@ },
            Widget::Gauge { area, style, percent, label } => Shape::Gauge {
                area,
                style,
                percent,
                label: label@,
            },
        }
    }
}

/// What a list of widgets shows.
pub open spec fn shapes(v: Seq<Widget>) -> Seq<Shape> {
    v.map_values(|w: Widget| w@)
}

/// The ornaments in the four corners, line by line, and their size.
pub struct Corners {
    pub w: u16,
    pub h: u16,
    pub tl: Vec<String>,
    pub tr: Vec<String>,
    pub bl: Vec<String>,
    pub br: Vec<String>,
}

/// The readings of the gauges that have fractions: the rates in percent of their
/// gauges' ranges, the texts that stand beside them, and two percentages.
pub struct Dials {
    pub tg_pct: u16,
    pub tg_text: String,
    pub pp_pct: u16,
    pub pp_text: String,
    pub accept_pct: u16,
    pub cpu_pct: u16,
}

/// A text in a style.
pub open spec fn piece(text: Seq<char>, style: Style) -> Piece {
    Piece { text, style }
}

/// Puts a text into a style.
fn span(text: &str, style: Style) -> (r: Span)
    ensures
        r@ == piece(text@, style),
{
    Span { text: text.to_string(), style }
}

/// The line that consists of one piece.
fn line_of(s: Span) -> (r: Line)
    ensures
        r@ == seq![s@],
{
    let mut spans: Vec<Span> = Vec::new();
    spans.push(s);
    let r: Line = Line { spans };
    assert(r@ =~= seq![s@]);
    r
}

/// The border that the panes have.
pub open spec fn pane_edge(title: Seq<char>) -> Edge {
    Edge { title: Some(piece(title, s_title())), style: s_pane_border() }
}

/// Makes the border of a pane.
fn pane_border(title: &str) -> (r: Border)
    ensures
        r@ == pane_edge(title@),
{
    Border { title: Some(span(title, s_title())), style: s_pane_border() }
}

/// `n` times the character `c`.
pub open spec fn run(c: char, n: nat) -> Seq<char> {
    Seq::new(n, |i: int| c)
}

/// Writes `n` times the character `c`.
fn repeat(c: char, n: u16) -> (r: String)
    ensures
        r@ == run(c, n as nat),
{
    let mut r: String = String::new();
    let mut i: u16 = 0;
    while i < n
        invariant
            i <= n,
            r@ == run(c, i as nat),
        decreases n - i,
    {
        r.push(c);
        assert(r@ =~= run(c, (i + 1) as nat));
        i += 1;
    }
    r
}

/// Texts as lines, each in the same style.
pub open spec fn plain(v: Seq<Seq<char>>, style: Style) -> Seq<Seq<Piece>> {
    v.map_values(|s: Seq<char>| seq![piece(s, style)])
}

/// Makes lines of texts from position `from` on, each in the same style.
fn plain_lines(v: &Vec<String>, from: usize, style: Style) -> (r: Vec<Line>)
    requires
        from <= v.len(),
    ensures
        rows(r@) == plain(texts(v@).skip(from as int), style),
{
    let mut r: Vec<Line> = Vec::new();
    let mut i: usize = from;
    let ghost want = plain(texts(v@).skip(from as int), style);
    while i < v.len()
        invariant
            from <= i <= v.len(),
            want == plain(texts(v@).skip(from as int), style),
            rows(r@) == want.take(i - from),
        decreases v.len() - i,
    {
        let ghost before = r@;
        r.push(line_of(span(v[i].as_str(), style)));
        assert(rows(r@) =~= rows(before).push(want[i - from]));
        assert(want.take(i - from + 1) =~= want.take(i - from).push(want[i - from]));
        i += 1;
    }
    assert(want.take(want.len() as int) =~= want);
    r
}

/// The width of the rules in header and footer: that of the strip less its corners.
pub open spec fn rule_width(strip: Area, corner_w: u16) -> nat {
    if strip.width <= 2 * corner_w {
        0
    } else {
        (strip.width - 2 * corner_w) as nat
    }
}

/// The header's text: the rig and the time; the models in use; the mode and the
/// context length; a rule.
pub open spec fn header_rows(now: Seq<char>, t: Telemetry, width: nat) -> Seq<Seq<Piece>> {
    seq![
        seq![
            piece("D R O W N E D   G O D "@, s_title()),
            piece("· cockpit · "@, s_text_dim()),
            piece("rig: raz-gpd4 "@, s_text()),
            piece("· "@ + now, s_text_dim()),
        ],
        seq![
            piece("target: "@, s_text_dim()),
            piece(
                if t.llama_alive {
                    t.llama_model@
                } else {
                    "(offline)"@
                },
                s_live(),
            ),
            piece("   draft: "@, s_text_dim()),
            piece("Qwen3-1.7B-Q4_K_M"@, s_text()),
            piece("   NPU: "@, s_text_dim()),
            if t.flm_alive {
                piece(decimal(t.flm_models@.len()) + " models"@, s_live())
            } else {
                piece("offline"@, s_idle())
            },
        ],
        seq![
            piece("mode: "@, s_text_dim()),
            piece("agent-brick"@, s_warn()),
            piece("   ctx: "@, s_text_dim()),
            piece(decimal(t.llama_n_ctx as nat), s_text()),
        ],
        seq![piece(run('─', width), s_pane_border())],
    ]
}

/// Writes the header's text.
fn header_lines(now: &str, t: &Telemetry, width: u16) -> (r: Vec<Line>)
    ensures
        rows(r@) == header_rows(now@, *t, width as nat),
{
    let mut a: Vec<Span> = Vec::new();
    a.push(span("D R O W N E D   G O D ", s_title()));
    a.push(span("· cockpit · ", s_text_dim()));
    a.push(span("rig: raz-gpd4 ", s_text()));
    a.push(span(join("· ", now).as_str(), s_text_dim()));
    let mut b: Vec<Span> = Vec::new();
    b.push(span("target: ", s_text_dim()));
    b.push(
        span(
            if t.llama_alive {
                t.llama_model.as_str()
            } else {
                "(offline)"
            },
            s_live(),
        ),
    );
    b.push(span("   draft: ", s_text_dim()));
    b.push(span("Qwen3-1.7B-Q4_K_M", s_text()));
    b.push(span("   NPU: ", s_text_dim()));
    let n_models: u64 = t.flm_models.len() as u64;
    if t.flm_alive {
        let count: String = decimal_string(n_models);
        b.push(span(join(count.as_str(), " models").as_str(), s_live()));
    } else {
        b.push(span("offline", s_idle()));
    }
    let mut c: Vec<Span> = Vec::new();
    c.push(span("mode: ", s_text_dim()));
    c.push(span("agent-brick", s_warn()));
    c.push(span("   ctx: ", s_text_dim()));
    c.push(span(decimal_string(t.llama_n_ctx as u64).as_str(), s_text()));
    let ghost want = header_rows(now@, *t, width as nat);
    let a: Line = Line { spans: a };
    let b: Line = Line { spans: b };
    let c: Line = Line { spans: c };
    assert(a@ =~= want[0]);
    assert(b@ =~= want[1]);
    assert(c@ =~= want[2]);
    let mut r: Vec<Line> = Vec::new();
    r.push(a);
    r.push(b);
    r.push(c);
    r.push(line_of(span(repeat('─', width).as_str(), s_pane_border())));
    assert(rows(r@) =~= want);
    r
}

/// The footer's text at a given tick: a rule, the keys, the sonar, a dotted line.
pub open spec fn footer_rows(tick: u64, width: nat) -> Seq<Seq<Piece>> {
    seq![
        seq![piece(run('─', width), s_pane_border())],
        seq![
            piece(" [↑↓] model  "@, s_text_dim()),
            piece(" [enter] send  "@, s_text_dim()),
            piece(" [esc/q] quit  "@, s_text_dim()),
        ],
        seq![piece(" sonar: "@, s_text_dim()), piece(sonar_text(tick), s_live())],
        seq![piece(run('·', width), s_text_dim())],
    ]
}

/// The picture of the sonar at a given tick: an echo that moves one place to the
/// right every four ticks, and is gone in every eighth picture.
pub open spec fn sonar_text(tick: u64) -> Seq<char> {
    let n = ((tick / 4) % 8) as nat;
    if n == 7 {
        run('·', 7)
    } else {
        run('·', n) + seq!['◉'] + run(' ', (6 - n) as nat)
    }
}

/// The picture of the sonar at a given tick.
pub fn sonar_pulse(tick: u64) -> (r: &'static str)
    ensures
        r@ == sonar_text(tick),
{
    let r: &'static str = match (tick / 4) % 8 {
        0 => "◉      ",
        1 => "·◉     ",
        2 => "··◉    ",
        3 => "···◉   ",
        4 => "····◉  ",
        5 => "·····◉ ",
        6 => "······◉",
        _ => "·······",
    };
    proof {
        reveal_strlit("◉      ");
        reveal_strlit("·◉     ");
        reveal_strlit("··◉    ");
        reveal_strlit("···◉   ");
        reveal_strlit("····◉  ");
        reveal_strlit("·····◉ ");
        reveal_strlit("······◉");
        reveal_strlit("·······");
        assert(r@ =~= sonar_text(tick));
    }
    r
}

/// Writes the footer's text.
fn footer_lines(tick: u64, width: u16) -> (r: Vec<Line>)
    ensures
        rows(r@) == footer_rows(tick, width as nat),
{
    let mut keys: Vec<Span> = Vec::new();
    keys.push(span(" [↑↓] model  ", s_text_dim()));
    keys.push(span(" [enter] send  ", s_text_dim()));
    keys.push(span(" [esc/q] quit  ", s_text_dim()));
    let mut sonar: Vec<Span> = Vec::new();
    sonar.push(span(" sonar: ", s_text_dim()));
    sonar.push(span(sonar_pulse(tick), s_live()));
    let ghost want = footer_rows(tick, width as nat);
    let keys: Line = Line { spans: keys };
    let sonar: Line = Line { spans: sonar };
    assert(keys@ =~= want[1]);
    assert(sonar@ =~= want[2]);
    let mut r: Vec<Line> = Vec::new();
    r.push(line_of(span(repeat('─', width).as_str(), s_pane_border())));
    r.push(keys);
    r.push(sonar);
    r.push(line_of(span(repeat('·', width).as_str(), s_text_dim())));
    assert(rows(r@) =~= want);
    r
}

/// A strip of the screen: text between two corner ornaments.
pub open spec fn strip_shapes(
    left: Area,
    left_art: Seq<Seq<char>>,
    mid: Area,
    text: Seq<Seq<Piece>>,
    right: Area,
    right_art: Seq<Seq<char>>,
) -> Seq<Shape> {
    seq![
        Shape::Text { area: left, lines: plain(left_art, s_pane_border()) },
        Shape::Text { area: mid, lines: text },
        Shape::Text { area: right, lines: plain(right_art, s_pane_border()) },
    ]
}

/// Makes a strip of the screen.
fn strip(
    left: Area,
    left_art: &Vec<String>,
    mid: Area,
    text: Vec<Line>,
    right: Area,
    right_art: &Vec<String>,
) -> (r: Vec<Widget>)
    ensures
        shapes(r@) == strip_shapes(
            left,
            texts(left_art@),
            mid,
            rows(text@),
            right,
            texts(right_art@),
        ),
{
    assert(texts(left_art@).skip(0) =~= texts(left_art@));
    assert(texts(right_art@).skip(0) =~= texts(right_art@));
    let mut r: Vec<Widget> = Vec::new();
    r.push(Widget::Text { area: left, lines: plain_lines(left_art, 0, s_pane_border()) });
    r.push(Widget::Text { area: mid, lines: text });
    r.push(Widget::Text { area: right, lines: plain_lines(right_art, 0, s_pane_border()) });
    assert(shapes(r@) =~= strip_shapes(
        left,
        texts(left_art@),
        mid,
        rows(text@),
        right,
        texts(right_art@),
    ));
    r
}

impl Corners {
    /// The ornaments are small enough for their sizes to be reckoned with.
    pub open spec fn wf(self) -> bool {
        self.w * 2 <= u16::MAX && self.h < u16::MAX
    }
}

/// The phase in which the corner ornaments are at a given tick: they turn every other
/// tick, about four times a second, and are back after four turns.
pub fn corner_phase(tick: u64) -> (r: usize)
    ensures
        r == tick / 2 % 4,
{
    (tick / 2 % 4) as usize
}

/// The header.
pub open spec fn header_shapes(p: Places, c: Corners, t: Telemetry, now: Moment) -> Seq<Shape> {
    strip_shapes(
        p.header_left,
        texts(c.tl@),
        p.header_mid,
        header_rows(now.text(), t, rule_width(p.header, c.w)),
        p.header_right,
        texts(c.tr@),
    )
}

/// Lays out the header.
pub fn draw_header(p: &Places, c: &Corners, t: &Telemetry, now: &Moment) -> (r: Vec<Widget>)
    requires
        c.wf(),
        now.valid(),
    ensures
        shapes(r@) == header_shapes(*p, *c, *t, *now),
{
    let width: u16 = p.header.width.saturating_sub(c.w * 2);
    let time: String = clock(now).unwrap();
    let text: Vec<Line> = header_lines(time.as_str(), t, width);
    strip(p.header_left, &c.tl, p.header_mid, text, p.header_right, &c.tr)
}

/// The footer.
pub open spec fn footer_shapes(p: Places, c: Corners, tick: u64) -> Seq<Shape> {
    strip_shapes(
        p.footer_left,
        texts(c.bl@),
        p.footer_mid,
        footer_rows(tick, rule_width(p.footer, c.w)),
        p.footer_right,
        texts(c.br@),
    )
}

/// Lays out the footer.
pub fn draw_footer(p: &Places, c: &Corners, app: &App) -> (r: Vec<Widget>)
    requires
        c.wf(),
    ensures
        shapes(r@) == footer_shapes(*p, *c, app@.tick),
{
    let width: u16 = p.footer.width.saturating_sub(c.w * 2);
    strip(
        p.footer_left,
        &c.bl,
        p.footer_mid,
        footer_lines(app.tick, width),
        p.footer_right,
        &c.br,
    )
}

/// The items of the list of models: that of the model server, where it is alive,
/// then those of the NPU server.
pub open spec fn model_rows(t: Telemetry) -> Seq<Seq<Piece>> {
    let local = if t.llama_alive {
        seq![seq![piece("● "@ + t.llama_model@, s_live())]]
    } else {
        Seq::<Seq<Piece>>::empty()
    };
    local + t.flm_models@.map_values(|m: String| seq![piece("∘ NPU/"@ + m@, s_text_dim())])
}

/// The list of models.
pub open spec fn models_shape(p: Places, t: Telemetry) -> Shape {
    Shape::List {
        area: p.models,
        border: pane_edge(" MODELS "@),
        items: model_rows(t),
        highlight: s_warn(),
    }
}

/// Lays out the list of models.
pub fn draw_models(p: &Places, t: &Telemetry) -> (r: Widget)
    ensures
        r@ == models_shape(*p, *t),
{
    let mut items: Vec<Line> = Vec::new();
    let ghost npu = t.flm_models@.map_values(
        |m: String| seq![piece("∘ NPU/"@ + m@, s_text_dim())],
    );
    if t.llama_alive {
        items.push(line_of(span(join("● ", t.llama_model.as_str()).as_str(), s_live())));
    }
    let ghost local = rows(items@);
    assert(local + npu =~= model_rows(*t));
    let mut i: usize = 0;
    assert(local + npu.take(0) =~= local);
    while i < t.flm_models.len()
        invariant
            i <= t.flm_models.len(),
            npu == t.flm_models@.map_values(
                |m: String| seq![piece("∘ NPU/"@ + m@, s_text_dim())],
            ),
            rows(items@) == local + npu.take(i as int),
        decreases t.flm_models.len() - i,
    {
        let ghost before = items@;
        let name: String = join("∘ NPU/", t.flm_models[i].as_str());
        items.push(line_of(span(name.as_str(), s_text_dim())));
        assert(rows(items@) =~= rows(before).push(npu[i as int]));
        assert(local + npu.take(i as int + 1) =~= (local + npu.take(i as int)).push(
            npu[i as int],
        ));
        i += 1;
    }
    assert(npu.take(npu.len() as int) =~= npu);
    Widget::List {
        area: p.models,
        border: pane_border(" MODELS "),
        items,
        highlight: s_warn(),
    }
}

/// The tool log: its newest lines, as many as stand inside the border.
pub open spec fn tool_log_shape(p: Places, c: Cockpit) -> Shape {
    let room = if p.tool_log.height < 2 {
        0
    } else {
        (p.tool_log.height - 2) as nat
    };
    Shape::Panel {
        area: p.tool_log,
        border: pane_edge(" TOOL LOG "@),
        lines: plain(newest(c.tool_log, room), s_text_dim()),
        wrap: false,
    }
}

/// Lays out the tool log.
pub fn draw_tool_log(p: &Places, app: &App) -> (r: Widget)
    ensures
        r@ == tool_log_shape(*p, app@),
{
    let room: usize = p.tool_log.height.saturating_sub(2) as usize;
    let n: usize = app.tool_log.len();
    let from: usize = n.saturating_sub(room);
    assert(texts(app.tool_log@).skip(from as int) =~= newest(texts(app.tool_log@), room as nat));
    Widget::Panel {
        area: p.tool_log,
        border: pane_border(" TOOL LOG "),
        lines: plain_lines(&app.tool_log, from, s_text_dim()),
        wrap: false,
    }
}

/// The style of a line of the transcript: the user's own lines stand out, those of
/// the start recede.
pub open spec fn chat_style(line: Seq<char>) -> Style {
    if begins(line, ">"@) {
        s_live()
    } else if begins(line, "[boot]"@) {
        s_text_dim()
    } else {
        s_text()
    }
}

/// The lines of the transcript, each in its style.
pub open spec fn chat_rows(chat: Seq<Seq<char>>) -> Seq<Seq<Piece>> {
    chat.map_values(|s: Seq<char>| seq![piece(s, chat_style(s))])
}

/// The chat: the newest lines of the transcript, as many as the pane is high, over
/// the input line.
pub open spec fn chat_shapes(p: Places, c: Cockpit) -> Seq<Shape> {
    seq![
        Shape::Panel {
            area: p.chat,
            border: pane_edge(" CHAT "@),
            lines: chat_rows(newest(c.chat, p.chat.height as nat)),
            wrap: true,
        },
        Shape::Panel {
            area: p.input,
            border: Edge { title: None, style: s_pane_border() },
            lines: seq![seq![piece("> "@ + c.input + "_"@, s_live())]],
            wrap: false,
        },
    ]
}

/// Picks the style of a line of the transcript.
fn style_of(line: &str) -> (r: Style)
    ensures
        r == chat_style(line@),
{
    let chars: Vec<char> = chars_of(line);
    if starts_with(&chars, ">") {
        s_live()
    } else if starts_with(&chars, "[boot]") {
        s_text_dim()
    } else {
        s_text()
    }
}

/// Lays out the chat.
pub fn draw_chat(p: &Places, app: &App) -> (r: Vec<Widget>)
    ensures
        shapes(r@) == chat_shapes(*p, app@),
{
    let room: usize = p.chat.height as usize;
    let from: usize = app.chat.len().saturating_sub(room);
    let ghost shown = newest(texts(app.chat@), room as nat);
    assert(texts(app.chat@).skip(from as int) =~= shown);
    let ghost want = chat_rows(shown);
    let mut lines: Vec<Line> = Vec::new();
    let mut i: usize = from;
    while i < app.chat.len()
        invariant
            from <= i <= app.chat.len(),
            shown == texts(app.chat@).skip(from as int),
            want == chat_rows(shown),
            rows(lines@) == want.take(i - from),
        decreases app.chat.len() - i,
    {
        let ghost before = lines@;
        let s: &str = app.chat[i].as_str();
        lines.push(line_of(span(s, style_of(s))));
        assert(s@ == shown[i - from]);
        assert(rows(lines@) =~= rows(before).push(want[i - from]));
        assert(want.take(i - from + 1) =~= want.take(i - from).push(want[i - from]));
        i += 1;
    }
    assert(want.take(want.len() as int) =~= want);
    let prompt: String = join(join("> ", app.input.as_str()).as_str(), "_");
    let mut input: Vec<Line> = Vec::new();
    input.push(line_of(span(prompt.as_str(), s_live())));
    assert(rows(input@) =~= seq![seq![piece("> "@ + app.input@ + "_"@, s_live())]]);
    let mut r: Vec<Widget> = Vec::new();
    r.push(Widget::Panel { area: p.chat, border: pane_border(" CHAT "), lines, wrap: true });
    r.push(
        Widget::Panel {
            area: p.input,
            border: Border { title: None, style: s_pane_border() },
            lines: input,
            wrap: false,
        },
    );
    assert(shapes(r@) =~= chat_shapes(*p, app@));
    r
}

/// The pane of the memory, which is empty so far.
pub open spec fn memory_shape(p: Places) -> Shape {
    Shape::Panel {
        area: p.memory,
        border: pane_edge(" EPISODIC MEMORY "@),
        lines: seq![
            seq![piece("(TODO: wire CIN/INDEX.md"@, s_text_dim())],
            seq![piece("       + memory/ folder)"@, s_text_dim())],
        ],
        wrap: false,
    }
}

/// Lays out the pane of the memory.
pub fn draw_memory(p: &Places) -> (r: Widget)
    ensures
        r@ == memory_shape(*p),
{
    let mut lines: Vec<Line> = Vec::new();
    lines.push(line_of(span("(TODO: wire CIN/INDEX.md", s_text_dim())));
    lines.push(line_of(span("       + memory/ folder)", s_text_dim())));
    assert(rows(lines@) =~= seq![
        seq![piece("(TODO: wire CIN/INDEX.md"@, s_text_dim())],
        seq![piece("       + memory/ folder)"@, s_text_dim())],
    ]);
    Widget::Panel {
        area: p.memory,
        border: pane_border(" EPISODIC MEMORY "),
        lines,
        wrap: false,
    }
}

/// How much of `total` is in use, in whole percent, modulo 2^16; 0 where there is
/// nothing to use.
pub open spec fn share(used: u64, total: u64) -> u16 {
    if total > 0 {
        ((used as int * 100 / total as int) % 65536) as u16
    } else {
        0
    }
}

/// Reckons how much of `total` is in use.
pub fn percentage(used: u64, total: u64) -> (r: u16)
    requires
        used * 100 <= u64::MAX,
    ensures
        r == share(used, total),
{
    if total > 0 {
        (used * 100 / total % 65536) as u16
    } else {
        0
    }
}

/// The style of a gauge: a warning above 85 percent, live above 60.
pub open spec fn gauge_style(pct: u16) -> Style {
    if pct > 85 {
        s_warn()
    } else if pct > 60 {
        s_live()
    } else {
        s_text()
    }
}

/// A gauge at `pct` percent, full from 100 on.
pub open spec fn gauge_shape(area: Area, label: Seq<char>, pct: u16, value: Seq<char>) -> Shape {
    Shape::Gauge {
        area,
        style: gauge_style(pct),
        percent: if pct > 100 {
            100
        } else {
            pct
        },
        label: label + " "@ + value,
    }
}

/// Makes a gauge.
pub fn gauge(area: Area, label: &str, pct: u16, value: &str) -> (r: Widget)
    ensures
        r@ == gauge_shape(area, label@, pct, value@),
{
    let style: Style = if pct > 85 {
        s_warn()
    } else if pct > 60 {
        s_live()
    } else {
        s_text()
    };
    let percent: u16 = if pct > 100 {
        100
    } else {
        pct
    };
    Widget::Gauge { area, style, percent, label: join(join(label, " ").as_str(), value) }
}

/// An amount in use and its total, both in mebibytes, as gibibytes.
pub open spec fn usage_text(used: u64, total: u64) -> Seq<char> {
    decimal((used / 1024) as nat) + "/"@ + decimal((total / 1024) as nat) + "G"@
}

/// Writes an amount in use and its total.
fn usage(used: u64, total: u64) -> (r: String)
    ensures
        r@ == usage_text(used, total),
{
    let head: String = join(decimal_string(used / 1024).as_str(), "/");
    let tail: String = join(decimal_string(total / 1024).as_str(), "G");
    let r: String = join(head.as_str(), tail.as_str());
    assert(r@ =~= usage_text(used, total));
    r
}

/// The gauges: a border, then one bar each for generation rate, prompt rate,
/// acceptance, memory, video memory and processor.
pub open spec fn gauges_shapes(p: Places, t: Telemetry, d: Dials) -> Seq<Shape> {
    seq![
        Shape::Frame { area: p.gauges, border: pane_edge(" GAUGES "@) },
        gauge_shape(p.tg, "TG  t/s"@, d.tg_pct, d.tg_text@),
        gauge_shape(p.pp, "PP  t/s"@, d.pp_pct, d.pp_text@),
        gauge_shape(p.accept, "ACCEPT"@, d.accept_pct, decimal(d.accept_pct as nat) + "%"@),
        gauge_shape(
            p.mem,
            "MEM   "@,
            share(t.mem_used_mb, t.mem_total_mb),
            usage_text(t.mem_used_mb, t.mem_total_mb),
        ),
        gauge_shape(
            p.vram,
            "VRAM  "@,
            share(t.vram_used_mb, t.vram_total_mb),
            usage_text(t.vram_used_mb, t.vram_total_mb),
        ),
        gauge_shape(p.cpu, "CPU   "@, d.cpu_pct, decimal(d.cpu_pct as nat) + "%"@),
    ]
}

/// Lays out the gauges.
pub fn draw_gauges(p: &Places, t: &Telemetry, d: &Dials) -> (r: Vec<Widget>)
    requires
        t.wf(),
    ensures
        shapes(r@) == gauges_shapes(*p, *t, *d),
{
    let mem_pct: u16 = percentage(t.mem_used_mb, t.mem_total_mb);
    let vram_pct: u16 = percentage(t.vram_used_mb, t.vram_total_mb);
    let accept: String = join(decimal_string(d.accept_pct as u64).as_str(), "%");
    let cpu: String = join(decimal_string(d.cpu_pct as u64).as_str(), "%");
    let mem: String = usage(t.mem_used_mb, t.mem_total_mb);
    let vram: String = usage(t.vram_used_mb, t.vram_total_mb);
    let mut r: Vec<Widget> = Vec::new();
    r.push(Widget::Frame { area: p.gauges, border: pane_border(" GAUGES ") });
    r.push(gauge(p.tg, "TG  t/s", d.tg_pct, d.tg_text.as_str()));
    r.push(gauge(p.pp, "PP  t/s", d.pp_pct, d.pp_text.as_str()));
    r.push(gauge(p.accept, "ACCEPT", d.accept_pct, accept.as_str()));
    r.push(gauge(p.mem, "MEM   ", mem_pct, mem.as_str()));
    r.push(gauge(p.vram, "VRAM  ", vram_pct, vram.as_str()));
    r.push(gauge(p.cpu, "CPU   ", d.cpu_pct, cpu.as_str()));
    assert(shapes(r@) =~= gauges_shapes(*p, *t, *d));
    r
}

/// The body of the screen.
pub open spec fn body_shapes(p: Places, c: Cockpit, t: Telemetry, d: Dials) -> Seq<Shape> {
    seq![models_shape(p, t), tool_log_shape(p, c)] + chat_shapes(p, c) + gauges_shapes(p, t, d)
        + seq![memory_shape(p)]
}

/// Lays out the body of the screen.
pub fn draw_body(p: &Places, app: &App, t: &Telemetry, d: &Dials) -> (r: Vec<Widget>)
    requires
        t.wf(),
    ensures
        shapes(r@) == body_shapes(*p, app@, *t, *d),
{
    let mut r: Vec<Widget> = Vec::new();
    r.push(draw_models(p, t));
    r.push(draw_tool_log(p, app));
    assert(shapes(r@) =~= seq![models_shape(*p, *t), tool_log_shape(*p, app@)]);
    let r: Vec<Widget> = together(r, draw_chat(p, app));
    let mut r: Vec<Widget> = together(r, draw_gauges(p, t, d));
    let ghost before = r@;
    r.push(draw_memory(p));
    assert(shapes(r@) =~= shapes(before) + seq![memory_shape(*p)]);
    r
}

/// Puts two lists of widgets together.
fn together(a: Vec<Widget>, b: Vec<Widget>) -> (r: Vec<Widget>)
    ensures
        shapes(r@) == shapes(a@) + shapes(b@),
{
    let mut r: Vec<Widget> = a;
    let mut b: Vec<Widget> = b;
    let ghost tail = b@;
    r.append(&mut b);
    assert(shapes(r@) =~= shapes(a@) + shapes(tail));
    r
}

/// The whole screen, with the panes at their places: header, body, footer.
pub open spec fn screen_shapes(
    p: Places,
    corners: Corners,
    c: Cockpit,
    t: Telemetry,
    d: Dials,
    now: Moment,
) -> Seq<Shape> {
    header_shapes(p, corners, t, now) + body_shapes(p, c, t, d) + footer_shapes(p, corners, c.tick)
}

/// Lays out the whole screen, with the panes at their places.
pub fn screen(
    p: &Places,
    corners: &Corners,
    app: &App,
    t: &Telemetry,
    d: &Dials,
    now: &Moment,
) -> (r: Vec<Widget>)
    requires
        corners.wf(),
        t.wf(),
        now.valid(),
    ensures
        shapes(r@) == screen_shapes(*p, *corners, app@, *t, *d, *now),
{
    let r: Vec<Widget> = together(draw_header(p, corners, t, now), draw_body(p, app, t, d));
    together(r, draw_footer(p, corners, app))
}

/// Lays out the screen on a terminal of the given area. Where it has room for all that
/// the panes ask for, their places are settled; elsewhere they may stand at any places
/// that divide the area as asked. What they show is fixed by their places.
pub fn ui(
    area: Area,
    corners: &Corners,
    app: &App,
    t: &Telemetry,
    d: &Dials,
    now: &Moment,
) -> (r: Vec<Widget>)
    requires
        corners.wf(),
        t.wf(),
        now.valid(),
    ensures
        exists|p: Places| #[trigger]
            p.divide(area, corners.w, corners.h) && p.aligned(area) && shapes(r@) == screen_shapes(
                p,
                *corners,
                app@,
                *t,
                *d,
                *now,
            ),
        roomy(area, corners.w, corners.h) ==> shapes(r@) == screen_shapes(
            roomy_places(area, corners.w, corners.h),
            *corners,
            app@,
            *t,
            *d,
            *now,
        ),
{
    let p: Places = places(area, corners.w, corners.h);
    screen(&p, corners, app, t, d, now)
}

/// The sonar's picture repeats every 32 ticks, also where the count of ticks starts
/// anew.
pub proof fn law_sonar_repeats(tick: u64)
    ensures
        sonar_text(((tick + 32) % (u64::MAX + 1)) as u64) == sonar_text(tick),
{
}

/// The sonar's picture is always seven characters wide.
pub proof fn law_sonar_width(tick: u64)
    ensures
        sonar_text(tick).len() == 7,
{
}

/// The list shows as many models as the selection runs over.
pub proof fn law_list_matches_selection(t: Telemetry)
    ensures
        model_rows(t).len() == t.model_count(),
{
}

/// A gauge is never more than full.
pub proof fn law_gauge_is_bounded(area: Area, label: Seq<char>, pct: u16, value: Seq<char>)
    ensures
        gauge_shape(area, label, pct, value)->percent <= 100,
{
}

/// Where no more is in use than there is, the share is a percentage.
pub proof fn law_share_is_percentage(used: u64, total: u64)
    requires
        used <= total,
    ensures
        share(used, total) <= 100,
{
    if total > 0 {
        assert(used as int * 100 / total as int <= 100) by (nonlinear_arith)
            requires
                0 <= used <= total,
                total > 0,
        ;
        assert(0 <= used as int * 100 / total as int) by (nonlinear_arith)
            requires
                0 <= used <= total,
                total > 0,
        ;
    }
}

/// A widget shows all it holds: each list all its elements, in their order.
pub proof fn law_views_are_whole(w: Widget, v: Seq<Widget>, lines: Seq<Line>, line: Line)
    ensures
        shapes(v).len() == v.len(),
        forall|i: int| 0 <= i < v.len() ==> #[trigger] shapes(v)[i] == v[i]@,
        rows(lines).len() == lines.len(),
        forall|i: int| 0 <= i < lines.len() ==> #[trigger] rows(lines)[i] == lines[i]@,
        line@.len() == line.spans@.len(),
        forall|i: int|
            0 <= i < line@.len() ==> (#[trigger] line@[i]).text == line.spans@[i].text@
                && line@[i].style == line.spans@[i].style,
        w matches Widget::Text { area, lines } ==> w@ == (Shape::Text {
            area,
            lines: rows(lines@),
        }),
        w matches Widget::Panel { area, border, lines, wrap } ==> w@ == (Shape::Panel {
            area,
            border: border@,
            lines: rows(lines@),
            wrap,
        }),
        w matches Widget::List { area, border, items, highlight } ==> w@ == (Shape::List {
            area,
            border: border@,
            items: rows(items@),
            highlight,
        }),
        w matches Widget::Frame { area, border } ==> w@ == (Shape::Frame { area, border: border@ }),
        w matches Widget::Gauge { area, style, percent, label } ==> w@ == (Shape::Gauge {
            area,
            style,
            percent,
            label: label@,
        }),
{
}

/// A border shows its style and its title, where it has one.
pub proof fn law_border_is_whole(b: Border)
    ensures
        b@.style == b.style,
        b.title is None ==> b@.title is None,
        b.title matches Some(s) ==> b@.title == Some(Piece { text: s.text@, style: s.style }),
{
}

/// The screen holds eighteen shapes: the header's three, then the models, the tool log,
/// the chat and its input, the gauges with their border, the memory, and the footer's
/// three.
pub proof fn law_screen_holds_all(
    p: Places,
    corners: Corners,
    c: Cockpit,
    t: Telemetry,
    d: Dials,
    now: Moment,
)
    ensures
        ({
            let s = screen_shapes(p, corners, c, t, d, now);
            let header = header_shapes(p, corners, t, now);
            let chat = chat_shapes(p, c);
            let gauges = gauges_shapes(p, t, d);
            let footer = footer_shapes(p, corners, c.tick);
            &&& s.len() == 18
            &&& header.len() == 3 && chat.len() == 2 && gauges.len() == 7 && footer.len() == 3
            &&& s[0] == header[0] && s[1] == header[1] && s[2] == header[2]
            &&& s[3] == models_shape(p, t)
            &&& s[4] == tool_log_shape(p, c)
            &&& s[5] == chat[0] && s[6] == chat[1]
            &&& s[7] == gauges[0] && s[8] == gauges[1] && s[9] == gauges[2]
            &&& s[10] == gauges[3] && s[11] == gauges[4] && s[12] == gauges[5]
            &&& s[13] == gauges[6]
            &&& s[14] == memory_shape(p)
            &&& s[15] == footer[0] && s[16] == footer[1] && s[17] == footer[2]
            &&& body_shapes(p, c, t, d) == s.subrange(3, 15)
        }),
{
    let s = screen_shapes(p, corners, c, t, d, now);
    assert(body_shapes(p, c, t, d) =~= s.subrange(3, 15));
}

/// The share of `total` in use is a whole percentage, rounded down; there is none of
/// nothing. It counts modulo 2^16.
pub proof fn law_share_is_exact(used: u64, total: u64)
    ensures
        total == 0 ==> share(used, total) == 0,
        total > 0 && used <= total ==> share(used, total) * total <= used * 100 < (share(
            used,
            total,
        ) + 1) * total,
        total > 0 ==> exists|n: int|
            #![trigger n * total]
            n >= 0 && n * total <= used * 100 < (n + 1) * total && share(used, total) == n % 65536,
{
    if total > 0 {
        let n = used as int * 100 / total as int;
        let x = used as int * 100;
        assert(n >= 0 && n * total <= x < (n + 1) * total) by (nonlinear_arith)
            requires
                n == x / total as int,
                total > 0,
                x >= 0,
        ;
        assert(share(used, total) == n % 65536);
        if used <= total {
            law_share_is_percentage(used, total);
            assert(n <= 100) by (nonlinear_arith)
                requires
                    n * total <= x,
                    x == used * 100,
                    used <= total,
                    total > 0,
            ;
        }
    }
}

/// A gauge is filled to its percentage, and is full from 100 on. It is in the warning
/// style above 85 percent, live above 60, and else in that of text. Its label is the
/// name and the value.
pub proof fn law_gauge_shows_value(area: Area, label: Seq<char>, pct: u16, value: Seq<char>)
    ensures
        ({
            let g = gauge_shape(area, label, pct, value);
            &&& g is Gauge
            &&& g->Gauge_area == area
            &&& g->label == label + " "@ + value
            &&& pct <= 100 ==> g->percent == pct
            &&& pct >= 100 ==> g->percent == 100
            &&& pct <= 60 ==> g->Gauge_style == s_text()
            &&& 61 <= pct <= 85 ==> g->Gauge_style == s_live()
            &&& pct >= 86 ==> g->Gauge_style == s_warn()
        }),
{
}

/// Each gauge stands at its place with its own reading: the two rates with theirs, the
/// acceptance and the processor with their percentages.
pub proof fn law_gauges_show_dials(p: Places, t: Telemetry, d: Dials)
    ensures
        ({
            let g = gauges_shapes(p, t, d);
            &&& g.len() == 7
            &&& g[0] == (Shape::Frame {
                area: p.gauges,
                border: Edge {
                    title: Some(Piece { text: " GAUGES "@, style: s_title() }),
                    style: s_pane_border(),
                },
            })
            &&& g[1] == gauge_shape(p.tg, "TG  t/s"@, d.tg_pct, d.tg_text@)
            &&& g[2] == gauge_shape(p.pp, "PP  t/s"@, d.pp_pct, d.pp_text@)
            &&& g[3] == gauge_shape(
                p.accept,
                "ACCEPT"@,
                d.accept_pct,
                decimal(d.accept_pct as nat) + "%"@,
            )
            &&& g[6] == gauge_shape(
                p.cpu,
                "CPU   "@,
                d.cpu_pct,
                decimal(d.cpu_pct as nat) + "%"@,
            )
        }),
{
}

/// The gauge of the memory shows the memory in use of its total, and that of the video
/// memory the video memory in use of its total: as a share, at most in full, with the
/// style that follows from it, and in gibibytes.
pub proof fn law_memory_gauges(p: Places, t: Telemetry, d: Dials)
    ensures
        ({
            let g = gauges_shapes(p, t, d)[4];
            &&& g is Gauge
            &&& g->Gauge_area == p.mem
            &&& g->label == "MEM    "@ + decimal((t.mem_used_mb / 1024) as nat) + "/"@ + decimal(
                (t.mem_total_mb / 1024) as nat,
            ) + "G"@
            &&& g->percent <= 60 ==> g->Gauge_style == s_text()
            &&& 60 < g->percent <= 85 ==> g->Gauge_style == s_live()
            &&& g->percent > 85 ==> g->Gauge_style == s_warn()
            &&& share(t.mem_used_mb, t.mem_total_mb) <= 100 ==> g->percent == share(
                t.mem_used_mb,
                t.mem_total_mb,
            )
            &&& share(t.mem_used_mb, t.mem_total_mb) > 100 ==> g->percent == 100
        }),
        ({
            let g = gauges_shapes(p, t, d)[5];
            &&& g is Gauge
            &&& g->Gauge_area == p.vram
            &&& g->label == "VRAM   "@ + decimal((t.vram_used_mb / 1024) as nat) + "/"@ + decimal(
                (t.vram_total_mb / 1024) as nat,
            ) + "G"@
            &&& g->percent <= 60 ==> g->Gauge_style == s_text()
            &&& 60 < g->percent <= 85 ==> g->Gauge_style == s_live()
            &&& g->percent > 85 ==> g->Gauge_style == s_warn()
            &&& share(t.vram_used_mb, t.vram_total_mb) <= 100 ==> g->percent == share(
                t.vram_used_mb,
                t.vram_total_mb,
            )
            &&& share(t.vram_used_mb, t.vram_total_mb) > 100 ==> g->percent == 100
        }),
{
    reveal_strlit("MEM   ");
    reveal_strlit("MEM    ");
    reveal_strlit("VRAM  ");
    reveal_strlit("VRAM   ");
    reveal_strlit(" ");
    let g = gauges_shapes(p, t, d);
    assert(g[4]->label =~= "MEM    "@ + decimal((t.mem_used_mb / 1024) as nat) + "/"@ + decimal(
        (t.mem_total_mb / 1024) as nat,
    ) + "G"@);
    assert(g[5]->label =~= "VRAM   "@ + decimal((t.vram_used_mb / 1024) as nat) + "/"@ + decimal(
        (t.vram_total_mb / 1024) as nat,
    ) + "G"@);
}

/// The percentage of the video memory satisfies what a share of its total must, and
/// that of the memory likewise: the filled part is not more than what is in use, and
/// with one percent more it would be.
pub proof fn law_memory_gauge_percent(p: Places, t: Telemetry, d: Dials)
    ensures
        ({
            let vram = gauges_shapes(p, t, d)[5]->percent;
            let mem = gauges_shapes(p, t, d)[4]->percent;
            &&& t.vram_total_mb == 0 ==> vram == 0
            &&& t.mem_total_mb == 0 ==> mem == 0
            &&& vram <= 100 && mem <= 100
            &&& 0 < t.vram_total_mb && t.vram_used_mb <= t.vram_total_mb ==> vram * t.vram_total_mb
                <= t.vram_used_mb * 100 < (vram + 1) * t.vram_total_mb
            &&& 0 < t.mem_total_mb && t.mem_used_mb <= t.mem_total_mb ==> mem * t.mem_total_mb
                <= t.mem_used_mb * 100 < (mem + 1) * t.mem_total_mb
        }),
{
    law_memory_gauges(p, t, d);
    law_share_is_exact(t.mem_used_mb, t.mem_total_mb);
    law_share_is_exact(t.vram_used_mb, t.vram_total_mb);
    if t.mem_used_mb <= t.mem_total_mb {
        law_share_is_percentage(t.mem_used_mb, t.mem_total_mb);
    }
    if t.vram_used_mb <= t.vram_total_mb {
        law_share_is_percentage(t.vram_used_mb, t.vram_total_mb);
    }
}

/// Each gauge depends on its own readings alone.
pub proof fn law_gauges_are_independent(p: Places, t: Telemetry, u: Telemetry, d: Dials, e: Dials)
    ensures
        t.vram_used_mb == u.vram_used_mb && t.vram_total_mb == u.vram_total_mb ==> gauges_shapes(
            p,
            t,
            d,
        )[5] == gauges_shapes(p, u, e)[5],
        t.mem_used_mb == u.mem_used_mb && t.mem_total_mb == u.mem_total_mb ==> gauges_shapes(
            p,
            t,
            d,
        )[4] == gauges_shapes(p, u, e)[4],
        forall|i: int|
            0 <= i < 7 && i != 4 && i != 5 ==> #[trigger] gauges_shapes(p, t, d)[i]
                == gauges_shapes(p, u, d)[i],
{
}

/// Where more than the total is in use, the bar is full, as long as the share can be
/// told apart from a smaller one.
pub proof fn law_overfull_gauges(p: Places, t: Telemetry, d: Dials)
    ensures
        t.vram_total_mb > 0 && t.vram_total_mb < t.vram_used_mb && t.vram_used_mb * 100 < 65536
            * t.vram_total_mb ==> gauges_shapes(p, t, d)[5]->percent == 100,
        t.mem_total_mb > 0 && t.mem_total_mb < t.mem_used_mb && t.mem_used_mb * 100 < 65536
            * t.mem_total_mb ==> gauges_shapes(p, t, d)[4]->percent == 100,
{
    lemma_overfull(t.vram_used_mb, t.vram_total_mb);
    lemma_overfull(t.mem_used_mb, t.mem_total_mb);
}

/// A share of more than the whole.
proof fn lemma_overfull(used: u64, total: u64)
    ensures
        total > 0 && total < used && used * 100 < 65536 * total ==> share(used, total) >= 100,
{
    if total > 0 && total < used && used * 100 < 65536 * total {
        let x = used as int * 100;
        let n = x / total as int;
        assert(100 <= n < 65536) by (nonlinear_arith)
            requires
                n == x / total as int,
                x == used * 100,
                total > 0,
                total < used,
                used * 100 < 65536 * total,
        ;
    }
}

/// The sonar's echo stands at the place that the tick tells: it moves one place to the
/// right every four ticks, leaves dots behind it, has blanks before it, and is gone in
/// every eighth picture.
pub proof fn law_sonar_moves(tick: u64, i: int)
    requires
        0 <= i < 7,
    ensures
        ({
            let n = tick as int / 4 % 8;
            &&& sonar_text(tick).len() == 7
            &&& i < n ==> sonar_text(tick)[i] == '·'
            &&& i == n ==> sonar_text(tick)[i] == '◉'
            &&& i > n ==> sonar_text(tick)[i] == ' '
        }),
{
}

/// A rule is as long as the strip is wide, less both corners, and made of one character.
pub proof fn law_rules_fill_the_strip(strip: Area, corner_w: u16, c: char)
    ensures
        strip.width >= 2 * corner_w ==> rule_width(strip, corner_w) + 2 * corner_w == strip.width,
        strip.width < 2 * corner_w ==> rule_width(strip, corner_w) == 0,
        forall|n: nat| (#[trigger] run(c, n)).len() == n,
        forall|n: nat, i: int| 0 <= i < n ==> #[trigger] run(c, n)[i] == c,
{
}

/// The header shows the corner ornaments at both ends, and between them the time, the
/// model server's model, or that it is down, the number of the NPU server's models, or
/// that it is down, and the context length.
pub proof fn law_header_shows_state(p: Places, c: Corners, t: Telemetry, now: Moment)
    ensures
        ({
            let h = header_shapes(p, c, t, now);
            let text = h[1]->Text_lines;
            &&& h.len() == 3
            &&& h[0] is Text && h[0]->Text_area == p.header_left
            &&& h[1] is Text && h[1]->Text_area == p.header_mid
            &&& h[2] is Text && h[2]->Text_area == p.header_right
            &&& text.len() == 4
            &&& text[0].len() == 4
            &&& text[0][0] == (Piece { text: "D R O W N E D   G O D "@, style: s_title() })
            &&& text[0][1] == (Piece { text: "· cockpit · "@, style: s_text_dim() })
            &&& text[0][2] == (Piece { text: "rig: raz-gpd4 "@, style: s_text() })
            &&& text[0][3] == (Piece { text: "· "@ + now.text(), style: s_text_dim() })
            &&& text[1].len() == 6
            &&& text[1][0] == (Piece { text: "target: "@, style: s_text_dim() })
            &&& t.llama_alive ==> text[1][1].text == t.llama_model@
            &&& !t.llama_alive ==> text[1][1].text == "(offline)"@
            &&& text[1][1].style == s_live()
            &&& text[1][2] == (Piece { text: "   draft: "@, style: s_text_dim() })
            &&& text[1][3] == (Piece { text: "Qwen3-1.7B-Q4_K_M"@, style: s_text() })
            &&& text[1][4] == (Piece { text: "   NPU: "@, style: s_text_dim() })
            &&& t.flm_alive ==> text[1][5].text == decimal(t.flm_models@.len()) + " models"@
                && text[1][5].style == s_live()
            &&& !t.flm_alive ==> text[1][5].text == "offline"@ && text[1][5].style == s_idle()
            &&& text[2].len() == 4
            &&& text[2][0] == (Piece { text: "mode: "@, style: s_text_dim() })
            &&& text[2][1] == (Piece { text: "agent-brick"@, style: s_warn() })
            &&& text[2][2] == (Piece { text: "   ctx: "@, style: s_text_dim() })
            &&& text[2][3] == (Piece { text: decimal(t.llama_n_ctx as nat), style: s_text() })
            &&& text[3].len() == 1
            &&& text[3][0].style == s_pane_border()
            &&& text[3][0].text.len() == if p.header.width >= 2 * c.w {
                p.header.width - 2 * c.w
            } else {
                0
            }
            &&& forall|i: int| 0 <= i < text[3][0].text.len() ==> text[3][0].text[i] == '─'
        }),
        ({
            let art = header_shapes(p, c, t, now)[0]->Text_lines;
            &&& art.len() == c.tl@.len()
            &&& forall|i: int|
                0 <= i < art.len() ==> #[trigger] art[i] == seq![
                    Piece { text: c.tl@[i]@, style: s_pane_border() },
                ]
        }),
        ({
            let art = header_shapes(p, c, t, now)[2]->Text_lines;
            &&& art.len() == c.tr@.len()
            &&& forall|i: int|
                0 <= i < art.len() ==> #[trigger] art[i] == seq![
                    Piece { text: c.tr@[i]@, style: s_pane_border() },
                ]
        }),
{
}

/// The footer shows the corner ornaments at both ends, and between them the keys, the
/// sonar at the given tick, and a rule above and below.
pub proof fn law_footer_shows_state(p: Places, c: Corners, tick: u64)
    ensures
        ({
            let f = footer_shapes(p, c, tick);
            let text = f[1]->Text_lines;
            let width = if p.footer.width >= 2 * c.w {
                p.footer.width - 2 * c.w
            } else {
                0
            };
            &&& f.len() == 3
            &&& f[0] is Text && f[0]->Text_area == p.footer_left
            &&& f[1] is Text && f[1]->Text_area == p.footer_mid
            &&& f[2] is Text && f[2]->Text_area == p.footer_right
            &&& text.len() == 4
            &&& text[0].len() == 1 && text[0][0].style == s_pane_border()
            &&& text[0][0].text.len() == width
            &&& forall|i: int| 0 <= i < text[0][0].text.len() ==> text[0][0].text[i] == '─'
            &&& text[1].len() == 3
            &&& text[1][0] == (Piece { text: " [↑↓] model  "@, style: s_text_dim() })
            &&& text[1][1] == (Piece { text: " [enter] send  "@, style: s_text_dim() })
            &&& text[1][2] == (Piece { text: " [esc/q] quit  "@, style: s_text_dim() })
            &&& text[2].len() == 2
            &&& text[2][0] == (Piece { text: " sonar: "@, style: s_text_dim() })
            &&& text[2][1] == (Piece { text: sonar_text(tick), style: s_live() })
            &&& text[3].len() == 1 && text[3][0].style == s_text_dim()
            &&& text[3][0].text.len() == width
            &&& forall|i: int| 0 <= i < text[3][0].text.len() ==> text[3][0].text[i] == '·'
        }),
        ({
            let art = footer_shapes(p, c, tick)[0]->Text_lines;
            &&& art.len() == c.bl@.len()
            &&& forall|i: int|
                0 <= i < art.len() ==> #[trigger] art[i] == seq![
                    Piece { text: c.bl@[i]@, style: s_pane_border() },
                ]
        }),
        ({
            let art = footer_shapes(p, c, tick)[2]->Text_lines;
            &&& art.len() == c.br@.len()
            &&& forall|i: int|
                0 <= i < art.len() ==> #[trigger] art[i] == seq![
                    Piece { text: c.br@[i]@, style: s_pane_border() },
                ]
        }),
{
}

/// The list shows the model server's model first, while it is alive, and then all
/// models of the NPU server, in their order.
pub proof fn law_list_shows_models(p: Places, t: Telemetry)
    ensures
        ({
            let s = models_shape(p, t);
            let items = s->items;
            let first: int = if t.llama_alive {
                1
            } else {
                0
            };
            &&& s is List && s->List_area == p.models && s->highlight == s_warn()
            &&& s->List_border == (Edge {
                title: Some(Piece { text: " MODELS "@, style: s_title() }),
                style: s_pane_border(),
            })
            &&& items.len() == first + t.flm_models@.len()
            &&& t.llama_alive ==> items[0] == seq![
                Piece { text: "● "@ + t.llama_model@, style: s_live() },
            ]
            &&& forall|i: int|
                0 <= i < t.flm_models@.len() ==> items[first + i] == seq![
                    Piece {
                        text: "∘ NPU/"@ + (#[trigger] t.flm_models@[i])@,
                        style: s_text_dim(),
                    },
                ]
        }),
{
}

/// The tool log shows its newest lines, in their order: as many as stand inside the
/// border, or all.
pub proof fn law_tool_log_shows_newest(p: Places, c: Cockpit)
    ensures
        ({
            let s = tool_log_shape(p, c);
            let shown = s->Panel_lines;
            let total = c.tool_log.len() as int;
            &&& s is Panel && s->Panel_area == p.tool_log && !s->wrap
            &&& s->Panel_border == (Edge {
                title: Some(Piece { text: " TOOL LOG "@, style: s_title() }),
                style: s_pane_border(),
            })
            &&& p.tool_log.height < 2 ==> shown.len() == 0
            &&& p.tool_log.height >= 2 && total <= p.tool_log.height - 2 ==> shown.len() == total
            &&& p.tool_log.height >= 2 && total > p.tool_log.height - 2 ==> shown.len()
                == p.tool_log.height - 2
            &&& forall|i: int|
                0 <= i < shown.len() ==> #[trigger] shown[i] == seq![
                    Piece { text: c.tool_log[total - shown.len() + i], style: s_text_dim() },
                ]
        }),
{
}

/// The chat shows the newest lines of the transcript, in their order, as many as the
/// pane is high, or all. The user's lines are live, those of the start dim, all others
/// in the style of text. Below it stands all of the input behind a prompt, with a
/// cursor.
pub proof fn law_chat_shows_newest(p: Places, c: Cockpit)
    ensures
        ({
            let s = chat_shapes(p, c);
            let shown = s[0]->Panel_lines;
            let total = c.chat.len() as int;
            &&& s.len() == 2
            &&& s[0] is Panel && s[0]->Panel_area == p.chat && s[0]->wrap
            &&& s[0]->Panel_border == (Edge {
                title: Some(Piece { text: " CHAT "@, style: s_title() }),
                style: s_pane_border(),
            })
            &&& total <= p.chat.height ==> shown.len() == total
            &&& total > p.chat.height ==> shown.len() == p.chat.height
            &&& forall|i: int|
                0 <= i < shown.len() ==> (#[trigger] shown[i]).len() == 1 && shown[i][0].text
                    == c.chat[total - shown.len() + i] && shown[i][0].style == chat_style(
                    c.chat[total - shown.len() + i],
                )
            &&& s[1] == (Shape::Panel {
                area: p.input,
                border: Edge { title: None, style: s_pane_border() },
                lines: seq![
                    seq![Piece { text: "> "@ + c.input + "_"@, style: s_live() }],
                ],
                wrap: false,
            })
        }),
{
}

/// A line of the transcript that starts with `>` is live, one that starts with
/// `[boot]` is dim, and any other is in the style of text.
pub proof fn law_chat_styles(rest: Seq<char>, line: Seq<char>)
    ensures
        chat_style(seq!['>'] + rest) == s_live(),
        chat_style("[boot]"@ + rest) == s_text_dim(),
        (line.len() == 0 || line[0] != '>') && (line.len() < 6 || line.take(6) != "[boot]"@)
            ==> chat_style(line) == s_text(),
{
    reveal_strlit(">");
    reveal_strlit("[boot]");
    assert(">"@ =~= seq!['>']);
    law_begins(">"@, rest, seq!['>'] + rest);
    law_begins("[boot]"@, rest, "[boot]"@ + rest);
    law_begins(">"@, rest, "[boot]"@ + rest);
    law_begins(">"@, rest, line);
    assert(("[boot]"@ + rest)[0] == '[');
    assert(">"@[0] == '>');
}

/// The pane of the memory says what is missing, whatever its place.
pub proof fn law_memory_pane(p: Places)
    ensures
        memory_shape(p) == (Shape::Panel {
            area: p.memory,
            border: Edge {
                title: Some(Piece { text: " EPISODIC MEMORY "@, style: s_title() }),
                style: s_pane_border(),
            },
            lines: seq![
                seq![Piece { text: "(TODO: wire CIN/INDEX.md"@, style: s_text_dim() }],
                seq![Piece { text: "       + memory/ folder)"@, style: s_text_dim() }],
            ],
            wrap: false,
        }),
{
}

} // verus!
