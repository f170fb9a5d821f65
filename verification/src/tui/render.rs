//! What the terminal interface shows: the title, the rows of the list, the
//! status of what is selected, and the status line.

use vstd::prelude::*;

use crate::control::{
    FileInfo, Status, Summary, Timer, TimerInfo, UnitFileInfo, UnitStatus, UnitSummary,
};
use crate::order::views;
use crate::text::{cat2, cat3, dec_int, decimal_int, owned, pad, padded, same, Text};
use crate::timespan::{fmt_ago, fmt_left, left_text};
use crate::tui::theme::{
    color_of_enabled, color_of_state, enabled_color, state_color, Color, C_ACCENT, C_ACTIVE, C_DIM,
    C_ERROR, C_INFO, C_WARN,
};
use crate::tui::{visible, App, Screen, Tab};

verus! {

/// A piece of a line, with its color where it has one.
#[derive(Debug, Clone, PartialEq, Eq)]
pub struct Piece {
    pub text: String,
    pub color: Option<Color>,
    pub bold: bool,
}

/// A piece of a line, as specifications see it.
#[verifier::ext_equal]
pub ghost struct Mark {
    pub text: Text,
    pub color: Option<Color>,
    pub bold: bool,
}

impl View for Piece {
    type V = Mark;

    open spec fn view(&self) -> Mark {
        Mark { text: self.text@, color: self.color, bold: self.bold }
    }
}

/// A line.
#[derive(Debug, Clone, PartialEq, Eq)]
pub struct Row {
    pub pieces: Vec<Piece>,
}

impl View for Row {
    type V = Seq<Mark>;

    open spec fn view(&self) -> Seq<Mark> {
        views(self.pieces@)
    }
}

pub open spec fn raw(text: Text) -> Mark {
    Mark { text, color: None, bold: false }
}

pub open spec fn styled(text: Text, color: Color) -> Mark {
    Mark { text, color: Some(color), bold: false }
}

pub open spec fn bold(text: Text, color: Color) -> Mark {
    Mark { text, color: Some(color), bold: true }
}

fn raw_piece(text: &str) -> (r: Piece)
    ensures
        r@ == raw(text@),
{
    Piece { text: owned(text), color: None, bold: false }
}

fn styled_piece(text: &str, color: Color) -> (r: Piece)
    ensures
        r@ == styled(text@, color),
{
    Piece { text: owned(text), color: Some(color), bold: false }
}

fn bold_piece(text: &str, color: Color) -> (r: Piece)
    ensures
        r@ == bold(text@, color),
{
    Piece { text: owned(text), color: Some(color), bold: true }
}

impl Row {
    fn new() -> (r: Row)
        ensures
            r@ == Seq::<Mark>::empty(),
    {
        let r = Row { pieces: Vec::new() };
        assert(r@ =~= seq![]);
        r
    }

    fn put(&mut self, p: Piece)
        ensures
            final(self)@ == old(self)@.push(p@),
    {
        self.pieces.push(p);
        assert(self@ =~= old(self)@.push(p@));
    }
}

// ---- the title ------------------------------------------------------------------

pub open spec fn title_marks(s: Screen) -> Seq<Mark> {
    let start = seq![
        bold("rystemd-tui"@, C_ACCENT),
        raw(
            if s.user {
                " · user manager"@
            } else {
                " · system manager"@
            },
        ),
    ];
    if s.default_target.len() == 0 {
        start
    } else {
        start.push(raw(" · default "@ + s.default_target))
    }
}

/// The title.
pub fn draw_title(app: &App) -> (r: Row)
    ensures
        r@ == title_marks(app@),
{
    let mut row = Row::new();
    row.put(bold_piece("rystemd-tui", C_ACCENT));
    if app.user {
        row.put(raw_piece(" · user manager"));
    } else {
        row.put(raw_piece(" · system manager"));
    }
    let blank = same(app.default_target.as_str(), "");
    proof {
        reveal_strlit("");
        assert(app.default_target@.len() == 0 ==> app.default_target@ =~= ""@);
    }
    if !blank {
        row.put(raw_piece(cat2(" · default ", app.default_target.as_str()).as_str()));
    }
    assert(row@ =~= title_marks(app@));
    row
}

// ---- the list -------------------------------------------------------------------

pub open spec fn unit_marks(u: Summary) -> Seq<Mark> {
    seq![
        raw(" "@),
        styled("●"@, color_of_state(u.active)),
        raw(" "@),
        styled(u.unit, C_ACCENT),
        raw(" "@),
        styled("("@ + u.sub + ")"@, C_DIM),
        raw("  "@),
        styled(u.description, C_DIM),
    ]
}

fn unit_row(u: &UnitSummary) -> (r: Row)
    ensures
        r@ == unit_marks(u@),
{
    let mut row = Row::new();
    row.put(raw_piece(" "));
    row.put(styled_piece("●", state_color(u.active.as_str())));
    row.put(raw_piece(" "));
    row.put(styled_piece(u.unit.as_str(), C_ACCENT));
    row.put(raw_piece(" "));
    row.put(styled_piece(cat3("(", u.sub.as_str(), ")").as_str(), C_DIM));
    row.put(raw_piece("  "));
    row.put(styled_piece(u.description.as_str(), C_DIM));
    assert(row@ =~= unit_marks(u@));
    row
}

/// How long a timer has still to wait.
pub open spec fn left_of(d: Option<i64>) -> Text {
    match d {
        Some(n) => if n >= 0 {
            left_text(n as nat)
        } else {
            "-"@
        },
        None => "-"@,
    }
}

pub open spec fn timer_marks(t: Timer) -> Seq<Mark> {
    seq![
        raw(" "@),
        styled(padded(left_of(t.next_left), 12), C_WARN),
        styled(t.unit, C_ACCENT),
        raw("  "@),
        styled("→ "@ + t.activates, C_DIM),
    ]
}

fn timer_row(t: &TimerInfo) -> (r: Row)
    ensures
        r@ == timer_marks(t@),
{
    let next = match t.next_left {
        Some(n) => if n >= 0 {
            fmt_left(n as u64)
        } else {
            owned("-")
        },
        None => owned("-"),
    };
    let mut row = Row::new();
    row.put(raw_piece(" "));
    row.put(styled_piece(pad(next.as_str(), 12).as_str(), C_WARN));
    row.put(styled_piece(t.unit.as_str(), C_ACCENT));
    row.put(raw_piece("  "));
    row.put(styled_piece(cat2("→ ", t.activates.as_str()).as_str(), C_DIM));
    assert(row@ =~= timer_marks(t@));
    row
}

pub open spec fn file_marks(f: FileInfo) -> Seq<Mark> {
    seq![
        raw(" "@),
        styled(padded(f.state, 12), color_of_enabled(f.state)),
        styled(f.file, C_ACCENT),
        raw("  "@),
        styled(f.path, C_DIM),
    ]
}

fn file_row(f: &UnitFileInfo) -> (r: Row)
    ensures
        r@ == file_marks(f@),
{
    let mut row = Row::new();
    row.put(raw_piece(" "));
    row.put(styled_piece(pad(f.state.as_str(), 12).as_str(), enabled_color(f.state.as_str())));
    row.put(styled_piece(f.file.as_str(), C_ACCENT));
    row.put(raw_piece("  "));
    row.put(styled_piece(f.path.as_str(), C_DIM));
    assert(row@ =~= file_marks(f@));
    row
}

/// The row of what stands at a place of the tab.
pub open spec fn row_at(s: Screen, i: int) -> Seq<Mark> {
    match s.tab {
        Tab::Units => unit_marks(s.units[i]),
        Tab::Services => unit_marks(s.services[i]),
        Tab::Timers => timer_marks(s.timers[i]),
        Tab::Files => file_marks(s.files[i]),
    }
}

/// The rows of the list.
pub open spec fn list_rows(s: Screen) -> Seq<Seq<Mark>> {
    Seq::new(visible(s).len(), |k: int| row_at(s, visible(s)[k]))
}

/// The rows of the list.
pub fn draw_list(app: &App) -> (r: Vec<Row>)
    ensures
        views(r@) == list_rows(app@),
{
    let v = app.visible_indices();
    let ghost s = app@;
    let mut out: Vec<Row> = Vec::new();
    let mut k: usize = 0;
    while k < v.len()
        invariant
            k <= v.len(),
            s == app@,
            v@.len() == visible(s).len(),
            forall|j: int| 0 <= j < v@.len() ==> (#[trigger] v@[j]) == visible(s)[j],
            out.len() == k,
            forall|j: int| 0 <= j < k ==> (#[trigger] out@[j])@ == row_at(s, visible(s)[j]),
        decreases v.len() - k,
    {
        let i = v[k];
        proof {
            crate::tui::visible_is_listed(s);
            assert(visible(s)[k as int] == i);
        }
        let row = match app.tab {
            Tab::Units => unit_row(&app.units[i]),
            Tab::Services => unit_row(&app.services[i]),
            Tab::Timers => timer_row(&app.timers[i]),
            Tab::Files => file_row(&app.files[i]),
        };
        out.push(row);
        k = k + 1;
    }
    assert(views(out@) =~= list_rows(s));
    out
}

// ---- the status of a unit -------------------------------------------------------

/// How many lines of a unit's output are shown.
pub const DETAIL_LINES: usize = 12;

/// How long ago a time was; one to come is now.
pub open spec fn ago_text(secs: u64, now: u64) -> Text {
    let ago: nat = if now >= secs {
        (now - secs) as nat
    } else {
        0
    };
    left_text(ago) + " ago"@
}

/// How long ago a time was; one to come is now.
pub fn fmt_epoch(secs: u64, now: u64) -> (r: String)
    ensures
        r@ == ago_text(secs, now),
{
    let ago: u64 = if now >= secs {
        now - secs
    } else {
        0
    };
    fmt_ago(ago)
}

pub open spec fn blank_row() -> Seq<Mark> {
    seq![raw(""@)]
}

/// The first rows of a unit's status.
pub open spec fn detail_head(u: Status, now: u64) -> Seq<Seq<Mark>> {
    seq![
        seq![bold(u.name, C_ACCENT), raw(" — "@), styled(u.description, C_DIM)],
        blank_row(),
        seq![
            raw(" Loaded: "@),
            styled(u.load, C_WARN),
            raw(
                match u.path {
                    Some(p) => " ("@ + p + ")"@,
                    None => ""@,
                },
            ),
        ],
        seq![
            raw(" Active: "@),
            styled(u.active, color_of_state(u.active)),
            raw(" ("@ + u.sub + ")"@),
            raw(
                match u.active_enter {
                    Some(t) => " since "@ + ago_text(t, now),
                    None => ""@,
                },
            ),
        ],
    ]
}

/// The row of a unit's main process, where it has one.
pub open spec fn detail_pid(u: Status) -> Seq<Seq<Mark>> {
    match u.main_pid {
        Some(p) => seq![seq![raw("Main PID: "@), styled(decimal_int(p as int), C_INFO)]],
        None => seq![],
    }
}

/// The row of a unit's enable state, where it is known.
pub open spec fn detail_enabled(u: Status) -> Seq<Seq<Mark>> {
    if u.enabled.len() == 0 {
        seq![]
    } else {
        seq![seq![raw(" Enabled: "@), styled(u.enabled, C_WARN)]]
    }
}

/// The first lines of a unit's output.
pub open spec fn detail_lines(log: Seq<Text>) -> Seq<Seq<Mark>> {
    let n = if log.len() > DETAIL_LINES {
        DETAIL_LINES as nat
    } else {
        log.len()
    };
    Seq::new(n, |i: int| seq![styled("  "@ + log[i], C_DIM)])
}

/// A unit's output, where there is some.
pub open spec fn detail_log(log: Seq<Text>) -> Seq<Seq<Mark>> {
    if log.len() == 0 {
        seq![]
    } else {
        seq![blank_row(), seq![bold("Logs:"@, C_ACCENT)]] + detail_lines(log)
    }
}

/// The status of what is selected.
pub open spec fn detail_rows(s: Screen, now: u64) -> Seq<Seq<Mark>> {
    if s.detail.len() == 0 {
        seq![seq![styled("(nothing selected)"@, C_DIM)]]
    } else {
        let u = s.detail[0];
        detail_head(u, now) + detail_pid(u) + detail_enabled(u) + detail_log(u.log)
    }
}

fn blank() -> (r: Row)
    ensures
        r@ == blank_row(),
{
    let mut row = Row::new();
    row.put(raw_piece(""));
    assert(row@ =~= blank_row());
    row
}

fn push_head(out: &mut Vec<Row>, u: &UnitStatus, now: u64)
    requires
        old(out)@.len() == 0,
    ensures
        views(final(out)@) == detail_head(u@, now),
{
    let mut a = Row::new();
    a.put(bold_piece(u.name.as_str(), C_ACCENT));
    a.put(raw_piece(" — "));
    a.put(styled_piece(u.description.as_str(), C_DIM));
    assert(a@ =~= detail_head(u@, now)[0]);
    out.push(a);
    out.push(blank());
    let mut b = Row::new();
    b.put(raw_piece(" Loaded: "));
    b.put(styled_piece(u.load.as_str(), C_WARN));
    match &u.path {
        Some(p) => b.put(raw_piece(cat3(" (", p.as_str(), ")").as_str())),
        None => b.put(raw_piece("")),
    }
    assert(b@ =~= detail_head(u@, now)[2]);
    out.push(b);
    let mut c = Row::new();
    c.put(raw_piece(" Active: "));
    c.put(styled_piece(u.active.as_str(), state_color(u.active.as_str())));
    c.put(raw_piece(cat3(" (", u.sub.as_str(), ")").as_str()));
    match u.active_enter {
        Some(t) => c.put(raw_piece(cat2(" since ", fmt_epoch(t, now).as_str()).as_str())),
        None => c.put(raw_piece("")),
    }
    assert(c@ =~= detail_head(u@, now)[3]);
    out.push(c);
    assert(views(out@) =~= detail_head(u@, now));
}

fn push_log(out: &mut Vec<Row>, log: &Vec<String>)
    ensures
        views(final(out)@) == views(old(out)@) + detail_log(crate::text::texts(log@)),
{
    let ghost lines = crate::text::texts(log@);
    let ghost start = views(out@);
    if log.len() == 0 {
        assert(views(out@) =~= start + detail_log(lines));
        return;
    }
    out.push(blank());
    let mut head = Row::new();
    head.put(bold_piece("Logs:", C_ACCENT));
    assert(head@ =~= seq![bold("Logs:"@, C_ACCENT)]);
    out.push(head);
    let ghost first = views(out@);
    let ghost all = detail_lines(lines);
    let n: usize = if log.len() > DETAIL_LINES {
        DETAIL_LINES
    } else {
        log.len()
    };
    proof {
        assert(first =~= start + seq![blank_row(), seq![bold("Logs:"@, C_ACCENT)]]);
        assert(all.len() == n);
        assert(views(out@) =~= first + all.take(0));
    }
    let mut i: usize = 0;
    while i < n
        invariant
            i <= n <= log.len(),
            n == all.len(),
            lines == crate::text::texts(log@),
            all == detail_lines(lines),
            views(out@) == first + all.take(i as int),
        decreases n - i,
    {
        let ghost before = views(out@);
        let mut row = Row::new();
        row.put(styled_piece(cat2("  ", log[i].as_str()).as_str(), C_DIM));
        assert(lines[i as int] == log@[i as int]@);
        assert(row@ =~= all[i as int]);
        out.push(row);
        assert(views(out@) =~= before.push(all[i as int]));
        assert(all.take(i + 1) =~= all.take(i as int).push(all[i as int]));
        i = i + 1;
        assert(views(out@) =~= first + all.take(i as int));
    }
    proof {
        assert(all.take(n as int) =~= all);
        assert(views(out@) =~= start + detail_log(lines));
    }
}

/// The status of what is selected.
pub fn draw_detail(app: &App, now: u64) -> (r: Vec<Row>)
    ensures
        views(r@) == detail_rows(app@, now),
{
    let mut out: Vec<Row> = Vec::new();
    if app.detail.len() == 0 {
        let mut row = Row::new();
        row.put(styled_piece("(nothing selected)", C_DIM));
        assert(row@ =~= seq![styled("(nothing selected)"@, C_DIM)]);
        out.push(row);
        assert(views(out@) =~= detail_rows(app@, now));
        return out;
    }
    let u = &app.detail[0];
    assert(app@.detail[0] == u@);
    push_head(&mut out, u, now);
    let ghost a = views(out@);
    match u.main_pid {
        Some(p) => {
            let mut row = Row::new();
            row.put(raw_piece("Main PID: "));
            row.put(styled_piece(dec_int(p as i64).as_str(), C_INFO));
            assert(row@ =~= detail_pid(u@)[0]);
            out.push(row);
        },
        None => {},
    }
    assert(views(out@) =~= a + detail_pid(u@));
    let ghost b = views(out@);
    let unknown = same(u.enabled.as_str(), "");
    proof {
        reveal_strlit("");
        assert(u.enabled@.len() == 0 ==> u.enabled@ =~= ""@);
    }
    if !unknown {
        let mut row = Row::new();
        row.put(raw_piece(" Enabled: "));
        row.put(styled_piece(u.enabled.as_str(), C_WARN));
        assert(row@ =~= detail_enabled(u@)[0]);
        out.push(row);
    }
    assert(views(out@) =~= b + detail_enabled(u@));
    push_log(&mut out, &u.log);
    out
}

// ---- the status line ------------------------------------------------------------

/// The keys, as they are explained.
pub const HINTS: &'static str = "q/Esc quit · Tab tabs · ↑↓/jk move · / filter · f refresh · s start · x stop · r restart · e enable · d disable · R reload-daemon";

/// The status line: the keys, and the last message or the filter that is typed.
pub open spec fn status_marks(s: Screen) -> Seq<Mark> {
    let start = seq![styled(HINTS@, C_DIM)];
    match s.status {
        Some((m, is_error)) => start + seq![
            raw("  "@),
            styled(
                m,
                if is_error {
                    C_ERROR
                } else {
                    C_ACTIVE
                },
            ),
        ],
        None => if s.searching {
            start + seq![raw("  "@), styled("/"@ + s.filter, C_WARN)]
        } else {
            start
        },
    }
}

/// The status line.
pub fn draw_status(app: &App) -> (r: Row)
    ensures
        r@ == status_marks(app@),
{
    let mut row = Row::new();
    row.put(styled_piece(HINTS, C_DIM));
    match &app.status {
        Some((m, is_error)) => {
            row.put(raw_piece("  "));
            let color = if *is_error {
                C_ERROR
            } else {
                C_ACTIVE
            };
            row.put(styled_piece(m.as_str(), color));
        },
        None => {
            if app.searching {
                row.put(raw_piece("  "));
                row.put(styled_piece(cat2("/", app.filter.as_str()).as_str(), C_WARN));
            }
        },
    }
    assert(row@ =~= status_marks(app@));
    row
}

} // verus!
