//! How the replies of the manager are shown.

use vstd::prelude::*;

use crate::cli::{Display, Reply};
use crate::control::default_target_in;
use crate::ipc::{bool_member, string_member, unsigned_member};
use crate::json::{
    as_boolean, as_list, as_signed, as_text, as_unsigned, json_of, jsons_of, member, member_names,
    member_of, print_json, printed_json, Json,
};
use crate::manager::ops::is_listed;
use crate::order::{insert_once, sorted, views};
use crate::table::{are_sorted_keys, sorted_keys, sorted_keys_unique};
use crate::text::{
    blanks, cat2, cat3, cat5, dec, dec_int, decimal_int, owned, pad, padded, same, texts, Text,
};
use crate::timespan::{fmt_ago, fmt_left, left_text};

verus! {

/// How a piece of a line is shown.
#[derive(Debug, Clone, Copy, PartialEq, Eq, Structural)]
pub enum Tone {
    Plain,
    /// Of a unit that is active.
    Star,
    Error,
    Accent,
    Warn,
    Dim,
    /// Of a unit that is enabled.
    Green,
    /// Of a unit that is disabled.
    Yellow,
}

/// A piece of a line.
#[derive(Debug, Clone, PartialEq, Eq)]
pub struct Span {
    pub tone: Tone,
    pub text: String,
}

/// A piece of a line, as specifications see it.
#[verifier::ext_equal]
pub ghost struct Ink {
    pub tone: Tone,
    pub text: Text,
}

impl View for Span {
    type V = Ink;

    open spec fn view(&self) -> Ink {
        Ink { tone: self.tone, text: self.text@ }
    }
}

/// A line.
#[derive(Debug, Clone, PartialEq, Eq)]
pub struct Line {
    pub spans: Vec<Span>,
}

impl View for Line {
    type V = Seq<Ink>;

    open spec fn view(&self) -> Seq<Ink> {
        views(self.spans@)
    }
}

pub open spec fn ink(tone: Tone, text: Text) -> Ink {
    Ink { tone, text }
}

pub open spec fn plain(text: Text) -> Seq<Ink> {
    seq![ink(Tone::Plain, text)]
}

fn span(tone: Tone, text: &str) -> (r: Span)
    ensures
        r@ == ink(tone, text@),
{
    Span { tone, text: owned(text) }
}

fn line1(a: Span) -> (r: Line)
    ensures
        r@ == seq![a@],
{
    let mut spans: Vec<Span> = Vec::new();
    spans.push(a);
    let r = Line { spans };
    assert(r@ =~= seq![a@]);
    r
}

fn line2(a: Span, b: Span) -> (r: Line)
    ensures
        r@ == seq![a@, b@],
{
    let mut spans: Vec<Span> = Vec::new();
    spans.push(a);
    spans.push(b);
    let r = Line { spans };
    assert(r@ =~= seq![a@, b@]);
    r
}

fn line3(a: Span, b: Span, c: Span) -> (r: Line)
    ensures
        r@ == seq![a@, b@, c@],
{
    let mut spans: Vec<Span> = Vec::new();
    spans.push(a);
    spans.push(b);
    spans.push(c);
    let r = Line { spans };
    assert(r@ =~= seq![a@, b@, c@]);
    r
}

fn line4(a: Span, b: Span, c: Span, d: Span) -> (r: Line)
    ensures
        r@ == seq![a@, b@, c@, d@],
{
    let mut spans: Vec<Span> = Vec::new();
    spans.push(a);
    spans.push(b);
    spans.push(c);
    spans.push(d);
    let r = Line { spans };
    assert(r@ =~= seq![a@, b@, c@, d@]);
    r
}

fn line5(a: Span, b: Span, c: Span, d: Span, e: Span) -> (r: Line)
    ensures
        r@ == seq![a@, b@, c@, d@, e@],
{
    let mut spans: Vec<Span> = Vec::new();
    spans.push(a);
    spans.push(b);
    spans.push(c);
    spans.push(d);
    spans.push(e);
    let r = Line { spans };
    assert(r@ =~= seq![a@, b@, c@, d@, e@]);
    r
}

fn plain_line(text: &str) -> (r: Line)
    ensures
        r@ == plain(text@),
{
    line1(span(Tone::Plain, text))
}

// ---- times ----------------------------------------------------------------------

/// The form in which dates are written.
pub const DATE_FORMAT: &'static str = "%a %Y-%m-%d %H:%M:%S";

/// What `chrono` writes for a time in UTC, given in seconds since the epoch, in
/// a form; nothing for a time that it cannot hold.
pub uninterp spec fn utc_date(secs: int, form: Text) -> Option<Text>;

/// `chrono::DateTime::from_timestamp`, and `format` on what it gives: the text
/// depends on the time and the form alone. A form that is not known could make
/// it panic.
#[verifier::external_body]
fn date_in(secs: i64, form: &str) -> (r: Option<String>)
    requires
        form@ == DATE_FORMAT@,
    ensures
        crate::text::opt_text(r) == utc_date(secs as int, form@),
{
    chrono::DateTime::from_timestamp(secs, 0).map(|d| d.format(form).to_string())
}

/// A time, given in seconds since the epoch: its date, and how long ago it was.
/// The seconds are read as a signed number; a time to come is now.
pub open spec fn epoch_text(date: Option<Text>, secs: u64, now: u64) -> Text {
    let d = match date {
        Some(t) => t,
        None => seq![],
    };
    let ago: nat = if now >= secs {
        (now - secs) as nat
    } else {
        0
    };
    d + "; "@ + (left_text(ago) + " ago"@)
}

/// A time, from its date and how long ago it was.
pub fn epoch_with(date: &Option<String>, secs: u64, now: u64) -> (r: String)
    ensures
        r@ == epoch_text(crate::text::opt_text(*date), secs, now),
{
    let ago: u64 = if now >= secs {
        now - secs
    } else {
        0
    };
    let d: String = match date {
        Some(t) => t.clone(),
        None => String::new(),
    };
    cat3(d.as_str(), "; ", fmt_ago(ago).as_str())
}

/// A time, given in seconds since the epoch: its date, and how long ago it was.
pub open spec fn time_text(secs: u64, now: u64) -> Text {
    epoch_text(utc_date((secs as i64) as int, DATE_FORMAT@), secs, now)
}

/// A time, given in seconds since the epoch: its date, and how long ago it was.
pub fn fmt_epoch(secs: u64, now: u64) -> (r: String)
    ensures
        r@ == time_text(secs, now),
{
    let date = date_in(secs as i64, DATE_FORMAT);
    epoch_with(&date, secs, now)
}

/// An optional time; `-` where there is none.
pub open spec fn opt_time_text(secs: Option<u64>, now: u64) -> Text {
    match secs {
        Some(s) => time_text(s, now),
        None => "-"@,
    }
}

fn opt_time(secs: Option<u64>, now: u64) -> (r: String)
    ensures
        r@ == opt_time_text(secs, now),
{
    match secs {
        Some(s) => fmt_epoch(s, now),
        None => owned("-"),
    }
}

// ---- members --------------------------------------------------------------------

/// A member that is a text, or this.
pub open spec fn text_or(j: Json, key: Text, other: Text) -> Text {
    match string_member(j, key) {
        Some(s) => s,
        None => other,
    }
}

fn text_in<'a>(v: &'a serde_json::Value, key: &str, other: &'a str) -> (r: &'a str)
    ensures
        r@ == text_or(json_of(*v), key@, other@),
{
    match member(v, key) {
        Some(m) => match as_text(m) {
            Some(s) => s,
            None => other,
        },
        None => other,
    }
}

/// A member that is a signed integer.
pub open spec fn signed_member(j: Json, key: Text) -> Option<i64> {
    match member_of(j, key) {
        Some(Json::Int(n)) => if i64::MIN <= n <= i64::MAX {
            Some(n as i64)
        } else {
            None
        },
        _ => None,
    }
}

fn signed_in(v: &serde_json::Value, key: &str) -> (r: Option<i64>)
    ensures
        r == signed_member(json_of(*v), key@),
{
    match member(v, key) {
        Some(m) => as_signed(m),
        None => None,
    }
}

fn unsigned_in(v: &serde_json::Value, key: &str) -> (r: Option<u64>)
    ensures
        r == unsigned_member(json_of(*v), key@),
{
    match member(v, key) {
        Some(m) => as_unsigned(m),
        None => None,
    }
}

/// The items of an array; none of any other value.
pub open spec fn items(j: Json) -> Seq<Json> {
    match j {
        Json::Arr(a) => a,
        _ => seq![],
    }
}

/// The items of a member that is an array.
pub open spec fn member_items(j: Json, key: Text) -> Seq<Json> {
    match member_of(j, key) {
        Some(m) => items(m),
        None => seq![],
    }
}

/// The text of a value that is one, or this.
pub open spec fn as_text_or(j: Json, other: Text) -> Text {
    match j {
        Json::Str(s) => s,
        _ => other,
    }
}

// ---- status ---------------------------------------------------------------------

pub open spec fn bullet_tone(active: Text) -> Tone {
    if active == "active"@ {
        Tone::Star
    } else if active == "failed"@ {
        Tone::Error
    } else {
        Tone::Plain
    }
}

/// Where a unit was loaded from, and its enable state.
pub open spec fn loaded_text(path: Text, enabled: Text) -> Text {
    if enabled.len() == 0 {
        " ("@ + path + ")"@
    } else {
        " ("@ + path + "; "@ + enabled + ")"@
    }
}

/// How many lines of a unit's output are shown.
pub const SHOWN_LINES: usize = 20;

pub open spec fn log_lines(log: Seq<Json>) -> Seq<Seq<Ink>> {
    let n = if log.len() > SHOWN_LINES {
        SHOWN_LINES as nat
    } else {
        log.len()
    };
    Seq::new(
        n,
        |i: int|
            seq![ink(Tone::Plain, "        "@), ink(Tone::Dim, as_text_or(log[i], seq![]))],
    )
}

/// The head of a unit's status.
pub open spec fn status_head(j: Json, now: u64) -> Seq<Seq<Ink>> {
    let active = text_or(j, "active"@, "?"@);
    seq![
        seq![
            ink(bullet_tone(active), "●"@),
            ink(Tone::Plain, " "@),
            ink(Tone::Accent, text_or(j, "name"@, "?"@)),
            ink(Tone::Plain, " - "@ + text_or(j, "description"@, ""@)),
        ],
        seq![
            ink(Tone::Plain, "     Loaded: "@),
            ink(Tone::Warn, text_or(j, "load"@, "?"@)),
            ink(
                Tone::Plain,
                loaded_text(text_or(j, "path"@, ""@), text_or(j, "enabled"@, ""@)),
            ),
        ],
        seq![
            ink(Tone::Plain, "     Active: "@),
            ink(Tone::Warn, active),
            ink(Tone::Plain, " ("@),
            ink(Tone::Dim, text_or(j, "sub"@, "?"@)),
            ink(
                Tone::Plain,
                ") since "@ + opt_time_text(unsigned_member(j, "active_enter"@), now),
            ),
        ],
    ]
}

/// The main process of a unit, where it has one.
pub open spec fn pid_lines(j: Json) -> Seq<Seq<Ink>> {
    match signed_member(j, "main_pid"@) {
        Some(p) => if p > 0 {
            seq![plain("   Main PID: "@ + decimal_int(p as int))]
        } else {
            seq![]
        },
        None => seq![],
    }
}

/// A unit's output, where there is some.
pub open spec fn output_lines(log: Seq<Json>) -> Seq<Seq<Ink>> {
    if log.len() == 0 {
        seq![]
    } else {
        seq![plain("      Logs:"@)] + log_lines(log)
    }
}

/// The status of a unit.
pub open spec fn status_lines(j: Json, now: u64) -> Seq<Seq<Ink>> {
    status_head(j, now) + pid_lines(j) + output_lines(member_items(j, "log"@))
}

fn push_output(out: &mut Vec<Line>, log: &Vec<serde_json::Value>)
    ensures
        views(final(out)@) == views(old(out)@) + output_lines(jsons_of(log@)),
{
    let ghost start = views(out@);
    if log.len() == 0 {
        assert(views(out@) =~= start + output_lines(jsons_of(log@)));
        return;
    }
    out.push(plain_line("      Logs:"));
    let ghost head = views(out@);
    let ghost all = log_lines(jsons_of(log@));
    let n: usize = if log.len() > SHOWN_LINES {
        SHOWN_LINES
    } else {
        log.len()
    };
    proof {
        assert(head =~= start + seq![plain("      Logs:"@)]);
        assert(all.len() == n);
        assert(views(out@) =~= head + all.take(0));
        reveal_strlit("");
        assert(""@ =~= seq![]);
    }
    let mut i: usize = 0;
    while i < n
        invariant
            i <= n <= log.len(),
            n == all.len(),
            all == log_lines(jsons_of(log@)),
            ""@ == Seq::<char>::empty(),
            views(out@) == head + all.take(i as int),
        decreases n - i,
    {
        let text = match as_text(&log[i]) {
            Some(s) => s,
            None => "",
        };
        let ghost before = views(out@);
        let line = line2(span(Tone::Plain, "        "), span(Tone::Dim, text));
        assert(jsons_of(log@)[i as int] == json_of(log@[i as int]));
        assert(line@ =~= all[i as int]);
        out.push(line);
        assert(views(out@) =~= before.push(all[i as int]));
        assert(all.take(i + 1) =~= all.take(i as int).push(all[i as int]));
        i = i + 1;
        assert(views(out@) =~= head + all.take(i as int));
    }
    proof {
        assert(all.take(n as int) =~= all);
        assert(views(out@) =~= start + output_lines(jsons_of(log@)));
    }
}

/// The status of a unit.
pub fn print_unit_status(u: &serde_json::Value, now: u64) -> (r: Vec<Line>)
    ensures
        views(r@) == status_lines(json_of(*u), now),
{
    let ghost j = json_of(*u);
    let active = text_in(u, "active", "?");
    let tone = if same(active, "active") {
        Tone::Star
    } else if same(active, "failed") {
        Tone::Error
    } else {
        Tone::Plain
    };
    let mut out: Vec<Line> = Vec::new();
    out.push(
        line4(
            span(tone, "●"),
            span(Tone::Plain, " "),
            span(Tone::Accent, text_in(u, "name", "?")),
            span(Tone::Plain, cat2(" - ", text_in(u, "description", "")).as_str()),
        ),
    );
    let path = text_in(u, "path", "");
    let enabled = text_in(u, "enabled", "");
    proof {
        reveal_strlit("");
        assert(enabled@.len() == 0 ==> enabled@ =~= ""@);
    }
    let loaded = if same(enabled, "") {
        cat3(" (", path, ")")
    } else {
        cat5(" (", path, "; ", enabled, ")")
    };
    out.push(
        line3(
            span(Tone::Plain, "     Loaded: "),
            span(Tone::Warn, text_in(u, "load", "?")),
            span(Tone::Plain, loaded.as_str()),
        ),
    );
    let since = opt_time(unsigned_in(u, "active_enter"), now);
    out.push(
        line5(
            span(Tone::Plain, "     Active: "),
            span(Tone::Warn, active),
            span(Tone::Plain, " ("),
            span(Tone::Dim, text_in(u, "sub", "?")),
            span(Tone::Plain, cat2(") since ", since.as_str()).as_str()),
        ),
    );
    assert(views(out@) =~= status_head(j, now));
    match signed_in(u, "main_pid") {
        Some(p) => {
            if p > 0 {
                out.push(plain_line(cat2("   Main PID: ", dec_int(p).as_str()).as_str()));
            }
        },
        None => {},
    }
    assert(views(out@) =~= status_head(j, now) + pid_lines(j));
    let ghost before = views(out@);
    match member(u, "log") {
        Some(m) => match as_list(m) {
            Some(log) => {
                push_output(&mut out, log);
            },
            None => {},
        },
        None => {},
    }
    assert(views(out@) =~= before + output_lines(member_items(j, "log"@)));
    out
}

/// The statuses of several units, with an empty line between any two.
pub open spec fn all_statuses(v: Seq<Json>, now: u64) -> Seq<Seq<Ink>>
    decreases v.len(),
{
    if v.len() == 0 {
        seq![]
    } else if v.len() == 1 {
        status_lines(v[0], now)
    } else {
        all_statuses(v.drop_last(), now) + seq![plain(""@)] + status_lines(v.last(), now)
    }
}

fn push_lines(out: &mut Vec<Line>, more: &mut Vec<Line>)
    ensures
        views(final(out)@) == views(old(out)@) + views(old(more)@),
{
    let ghost a = views(out@);
    let ghost b = views(more@);
    out.append(more);
    assert(views(out@) =~= a + b);
}

fn cmd_status(v: &Vec<serde_json::Value>, now: u64) -> (r: Vec<Line>)
    ensures
        views(r@) == all_statuses(jsons_of(v@), now),
{
    let ghost all = jsons_of(v@);
    let mut out: Vec<Line> = Vec::new();
    let mut i: usize = 0;
    proof {
        assert(all.take(0) =~= seq![]);
        assert(views(out@) =~= seq![]);
    }
    while i < v.len()
        invariant
            i <= v.len(),
            all == jsons_of(v@),
            views(out@) == all_statuses(all.take(i as int), now),
        decreases v.len() - i,
    {
        let ghost upto = all.take(i + 1);
        let ghost was = views(out@);
        proof {
            assert(upto.drop_last() =~= all.take(i as int));
            assert(upto.last() == json_of(v@[i as int]));
        }
        if i > 0 {
            out.push(plain_line(""));
            assert(views(out@) =~= was + seq![plain(""@)]);
        } else {
            assert(views(out@) =~= was + Seq::<Seq<Ink>>::empty());
            assert(was =~= seq![]);
        }
        let mut lines = print_unit_status(&v[i], now);
        push_lines(&mut out, &mut lines);
        proof {
            if i == 0 {
                assert(views(out@) =~= status_lines(upto[0], now));
            }
        }
        i = i + 1;
    }
    assert(all.take(v.len() as int) =~= all);
    out
}

// ---- tables ---------------------------------------------------------------------

/// Four columns and a rest.
pub open spec fn unit_columns(a: Text, b: Text, c: Text, d: Text, e: Text) -> Text {
    padded(a, 32) + " "@ + padded(b, 8) + " "@ + padded(c, 8) + " "@ + padded(d, 10) + " "@ + e
}

fn unit_row(a: &str, b: &str, c: &str, d: &str, e: &str) -> (r: String)
    ensures
        r@ == unit_columns(a@, b@, c@, d@, e@),
{
    let left = cat3(pad(a, 32).as_str(), " ", pad(b, 8).as_str());
    let middle = cat5(left.as_str(), " ", pad(c, 8).as_str(), " ", pad(d, 10).as_str());
    cat3(middle.as_str(), " ", e)
}

/// A row of `list-units`.
pub open spec fn unit_line(j: Json) -> Seq<Ink> {
    plain(
        unit_columns(
            text_or(j, "unit"@, ""@),
            text_or(j, "loaded"@, ""@),
            text_or(j, "active"@, ""@),
            text_or(j, "sub"@, ""@),
            text_or(j, "description"@, ""@),
        ),
    )
}

/// The head line, where it is wanted.
pub open spec fn head(legend: bool, text: Text) -> Seq<Seq<Ink>> {
    if legend {
        seq![plain(text)]
    } else {
        seq![]
    }
}

/// The table of `list-units`.
pub open spec fn unit_table(rows: Seq<Json>, legend: bool) -> Seq<Seq<Ink>> {
    head(legend, unit_columns("UNIT"@, "LOAD"@, "ACTIVE"@, "SUB"@, "DESCRIPTION"@)) + Seq::new(
        rows.len(),
        |i: int| unit_line(rows[i]),
    )
}

fn cmd_list_units(rows: &Vec<serde_json::Value>, legend: bool) -> (r: Vec<Line>)
    ensures
        views(r@) == unit_table(jsons_of(rows@), legend),
{
    let mut out: Vec<Line> = Vec::new();
    if legend {
        out.push(
            plain_line(unit_row("UNIT", "LOAD", "ACTIVE", "SUB", "DESCRIPTION").as_str()),
        );
    }
    let ghost first = views(out@);
    let ghost all = Seq::new(rows@.len(), |i: int| unit_line(jsons_of(rows@)[i]));
    let mut i: usize = 0;
    proof {
        assert(first =~= head(
            legend,
            unit_columns("UNIT"@, "LOAD"@, "ACTIVE"@, "SUB"@, "DESCRIPTION"@),
        ));
        assert(first =~= first + all.take(0));
    }
    while i < rows.len()
        invariant
            i <= rows.len(),
            all == Seq::new(rows@.len(), |i: int| unit_line(jsons_of(rows@)[i])),
            views(out@) == first + all.take(i as int),
        decreases rows.len() - i,
    {
        let u = &rows[i];
        let ghost before = views(out@);
        assert(jsons_of(rows@)[i as int] == json_of(*u));
        out.push(
            plain_line(
                unit_row(
                    text_in(u, "unit", ""),
                    text_in(u, "loaded", ""),
                    text_in(u, "active", ""),
                    text_in(u, "sub", ""),
                    text_in(u, "description", ""),
                ).as_str(),
            ),
        );
        assert(views(out@) =~= before.push(all[i as int]));
        assert(all.take(i + 1) =~= all.take(i as int).push(all[i as int]));
        i = i + 1;
        assert(views(out@) =~= first + all.take(i as int));
    }
    assert(all.take(rows.len() as int) =~= all);
    out
}

pub open spec fn state_tone(s: Text) -> Tone {
    if s == "enabled"@ {
        Tone::Green
    } else if s == "disabled"@ {
        Tone::Yellow
    } else {
        Tone::Plain
    }
}

fn style_state(s: &str) -> (r: Tone)
    ensures
        r == state_tone(s@),
{
    if same(s, "enabled") {
        Tone::Green
    } else if same(s, "disabled") {
        Tone::Yellow
    } else {
        Tone::Plain
    }
}

/// A row of `list-unit-files`.
pub open spec fn file_line(j: Json) -> Seq<Ink> {
    let state = text_or(j, "state"@, ""@);
    seq![
        ink(Tone::Plain, padded(text_or(j, "file"@, ""@), 32) + " "@),
        ink(state_tone(state), state),
    ]
}

/// The table of `list-unit-files`.
pub open spec fn file_table(rows: Seq<Json>, legend: bool) -> Seq<Seq<Ink>> {
    head(legend, padded("UNIT FILE"@, 32) + " STATE"@) + Seq::new(
        rows.len(),
        |i: int| file_line(rows[i]),
    )
}

fn cmd_list_unit_files(rows: &Vec<serde_json::Value>, legend: bool) -> (r: Vec<Line>)
    ensures
        views(r@) == file_table(jsons_of(rows@), legend),
{
    let mut out: Vec<Line> = Vec::new();
    if legend {
        out.push(plain_line(cat2(pad("UNIT FILE", 32).as_str(), " STATE").as_str()));
    }
    let ghost first = views(out@);
    let ghost all = Seq::new(rows@.len(), |i: int| file_line(jsons_of(rows@)[i]));
    let mut i: usize = 0;
    proof {
        assert(first =~= head(legend, padded("UNIT FILE"@, 32) + " STATE"@));
        assert(first =~= first + all.take(0));
    }
    while i < rows.len()
        invariant
            i <= rows.len(),
            all == Seq::new(rows@.len(), |i: int| file_line(jsons_of(rows@)[i])),
            views(out@) == first + all.take(i as int),
        decreases rows.len() - i,
    {
        let u = &rows[i];
        let ghost before = views(out@);
        assert(jsons_of(rows@)[i as int] == json_of(*u));
        let state = text_in(u, "state", "");
        let file = cat2(pad(text_in(u, "file", ""), 32).as_str(), " ");
        out.push(line2(span(Tone::Plain, file.as_str()), span(style_state(state), state)));
        assert(views(out@) =~= before.push(all[i as int]));
        assert(all.take(i + 1) =~= all.take(i as int).push(all[i as int]));
        i = i + 1;
        assert(views(out@) =~= first + all.take(i as int));
    }
    assert(all.take(rows.len() as int) =~= all);
    out
}

/// How long a timer has still to wait; empty where it is due.
pub open spec fn wait_text(d: Option<i64>) -> Text {
    match d {
        Some(n) => if n > 0 {
            left_text(n as nat) + " left"@
        } else {
            ""@
        },
        None => ""@,
    }
}

/// How long ago a timer elapsed.
pub open spec fn passed_text(d: Option<i64>) -> Text {
    match d {
        Some(n) => if n >= 0 {
            left_text(n as nat) + " ago"@
        } else {
            ""@
        },
        None => ""@,
    }
}

/// What stands behind a column of a table.
pub open spec fn fill(s: Text, width: nat) -> Text {
    if s.len() < width {
        blanks((width - s.len()) as nat)
    } else {
        ""@
    }
}

/// The columns of a timer behind its next time.
pub open spec fn timer_columns(left: Text, last: Text, passed: Text, unit: Text, to: Text) -> Text {
    " "@ + padded(left, 12) + " "@ + padded(last, 26) + " "@ + padded(passed, 12) + " "@ + padded(
        unit,
        20,
    ) + " "@ + to
}

fn timer_row(left: &str, last: &str, passed: &str, unit: &str, to: &str) -> (r: String)
    ensures
        r@ == timer_columns(left@, last@, passed@, unit@, to@),
{
    let a = cat2(" ", pad(left, 12).as_str());
    let b = cat5(a.as_str(), " ", pad(last, 26).as_str(), " ", pad(passed, 12).as_str());
    cat5(b.as_str(), " ", pad(unit, 20).as_str(), " ", to)
}

fn filling(s: &str, width: usize) -> (r: String)
    ensures
        r@ == fill(s@, width as nat),
{
    let n = s.unicode_len();
    proof {
        reveal_strlit("");
        assert(""@ =~= seq![]);
    }
    if n < width {
        let r = pad("", width - n);
        assert(r@ =~= blanks((width - n) as nat));
        r
    } else {
        owned("")
    }
}

/// A row of `list-timers`.
pub open spec fn timer_line(j: Json, now: u64) -> Seq<Ink> {
    let next = opt_time_text(unsigned_member(j, "next"@), now);
    seq![
        ink(Tone::Accent, next),
        ink(
            Tone::Plain,
            fill(next, 26) + timer_columns(
                wait_text(signed_member(j, "next_left"@)),
                opt_time_text(unsigned_member(j, "last"@), now),
                passed_text(signed_member(j, "last_passed"@)),
                text_or(j, "unit"@, ""@),
                text_or(j, "activates"@, ""@),
            ),
        ),
    ]
}

/// The table of `list-timers`.
pub open spec fn timer_table(rows: Seq<Json>, legend: bool, now: u64) -> Seq<Seq<Ink>> {
    head(
        legend,
        padded("NEXT"@, 26) + timer_columns("LEFT"@, "LAST"@, "PASSED"@, "UNIT"@, "ACTIVATES"@),
    ) + Seq::new(rows.len(), |i: int| timer_line(rows[i], now))
}

fn timer_span(u: &serde_json::Value, now: u64) -> (r: Line)
    ensures
        r@ == timer_line(json_of(*u), now),
{
    let next = opt_time(unsigned_in(u, "next"), now);
    let left = match signed_in(u, "next_left") {
        Some(n) => if n > 0 {
            cat2(fmt_left(n as u64).as_str(), " left")
        } else {
            owned("")
        },
        None => owned(""),
    };
    let last = opt_time(unsigned_in(u, "last"), now);
    let passed = match signed_in(u, "last_passed") {
        Some(n) => if n >= 0 {
            fmt_ago(n as u64)
        } else {
            owned("")
        },
        None => owned(""),
    };
    let rest = timer_row(
        left.as_str(),
        last.as_str(),
        passed.as_str(),
        text_in(u, "unit", ""),
        text_in(u, "activates", ""),
    );
    let tail = cat2(filling(next.as_str(), 26).as_str(), rest.as_str());
    line2(span(Tone::Accent, next.as_str()), span(Tone::Plain, tail.as_str()))
}

fn cmd_list_timers(rows: &Vec<serde_json::Value>, legend: bool, now: u64) -> (r: Vec<Line>)
    ensures
        views(r@) == timer_table(jsons_of(rows@), legend, now),
{
    let mut out: Vec<Line> = Vec::new();
    if legend {
        let rest = timer_row("LEFT", "LAST", "PASSED", "UNIT", "ACTIVATES");
        out.push(plain_line(cat2(pad("NEXT", 26).as_str(), rest.as_str()).as_str()));
    }
    let ghost first = views(out@);
    let ghost all = Seq::new(rows@.len(), |i: int| timer_line(jsons_of(rows@)[i], now));
    let mut i: usize = 0;
    proof {
        assert(first =~= head(
            legend,
            padded("NEXT"@, 26) + timer_columns(
                "LEFT"@,
                "LAST"@,
                "PASSED"@,
                "UNIT"@,
                "ACTIVATES"@,
            ),
        ));
        assert(first =~= first + all.take(0));
    }
    while i < rows.len()
        invariant
            i <= rows.len(),
            all == Seq::new(rows@.len(), |i: int| timer_line(jsons_of(rows@)[i], now)),
            views(out@) == first + all.take(i as int),
        decreases rows.len() - i,
    {
        let ghost before = views(out@);
        assert(jsons_of(rows@)[i as int] == json_of(rows@[i as int]));
        out.push(timer_span(&rows[i], now));
        assert(views(out@) =~= before.push(all[i as int]));
        assert(all.take(i + 1) =~= all.take(i as int).push(all[i as int]));
        i = i + 1;
        assert(views(out@) =~= first + all.take(i as int));
    }
    assert(all.take(rows.len() as int) =~= all);
    out
}

// ---- unit files and properties --------------------------------------------------

/// The lines of a unit file: the unit, the path, and the text.
pub open spec fn cat_lines(j: Json) -> Seq<Seq<Ink>> {
    seq![
        plain("# "@ + text_or(j, "unit"@, ""@)),
        plain("# "@ + text_or(j, "path"@, ""@)),
        plain(text_or(j, "text"@, ""@)),
    ]
}

/// The unit files of `cat`.
pub open spec fn all_cats(v: Seq<Json>) -> Seq<Seq<Ink>>
    decreases v.len(),
{
    if v.len() == 0 {
        seq![]
    } else {
        all_cats(v.drop_last()) + cat_lines(v.last())
    }
}

fn cmd_cat(v: &Vec<serde_json::Value>) -> (r: Vec<Line>)
    ensures
        views(r@) == all_cats(jsons_of(v@)),
{
    let ghost all = jsons_of(v@);
    let mut out: Vec<Line> = Vec::new();
    let mut i: usize = 0;
    proof {
        assert(all.take(0) =~= seq![]);
        assert(views(out@) =~= seq![]);
    }
    while i < v.len()
        invariant
            i <= v.len(),
            all == jsons_of(v@),
            views(out@) == all_cats(all.take(i as int)),
        decreases v.len() - i,
    {
        let ghost upto = all.take(i + 1);
        let ghost was = views(out@);
        let u = &v[i];
        proof {
            assert(upto.drop_last() =~= all.take(i as int));
            assert(upto.last() == json_of(*u));
        }
        out.push(plain_line(cat2("# ", text_in(u, "unit", "")).as_str()));
        out.push(plain_line(cat2("# ", text_in(u, "path", "")).as_str()));
        out.push(plain_line(text_in(u, "text", "")));
        assert(views(out@) =~= was + cat_lines(json_of(*u)));
        i = i + 1;
    }
    assert(all.take(v.len() as int) =~= all);
    out
}

/// The value of a property as it is shown: a text as it is, any other value as
/// JSON.
pub open spec fn value_text(j: Json) -> Text {
    match j {
        Json::Null => "null"@,
        Json::Str(s) => s,
        Json::Int(n) => if i64::MIN <= n <= u64::MAX {
            decimal_int(n)
        } else {
            printed_json(j)
        },
        Json::OtherNumber(t) => t,
        Json::Bool(b) => if b {
            "true"@
        } else {
            "false"@
        },
        _ => printed_json(j),
    }
}

fn value_string(v: &serde_json::Value) -> (r: String)
    ensures
        r@ == value_text(json_of(*v)),
{
    match as_text(v) {
        Some(s) => {
            return owned(s);
        },
        None => {},
    }
    match as_signed(v) {
        Some(n) => {
            return dec_int(n);
        },
        None => {},
    }
    match as_unsigned(v) {
        Some(n) => {
            return dec(n);
        },
        None => {},
    }
    match as_boolean(v) {
        Some(true) => owned("true"),
        Some(false) => owned("false"),
        None => print_json(v),
    }
}

/// The line of a property: its value, with or without its name.
pub open spec fn property_line(key: Text, j: Json, value_only: bool) -> Seq<Ink> {
    if value_only {
        plain(value_text(j))
    } else {
        plain(key + "="@ + value_text(j))
    }
}

/// The lines of the properties of these names that are wanted.
pub open spec fn property_lines(
    m: Map<Text, Json>,
    names: Seq<Text>,
    wanted: Seq<Text>,
    value_only: bool,
) -> Seq<Seq<Ink>>
    decreases names.len(),
{
    if names.len() == 0 {
        seq![]
    } else {
        let k = names.last();
        let rest = property_lines(m, names.drop_last(), wanted, value_only);
        if wanted.len() > 0 && !wanted.contains(k) {
            rest
        } else {
            rest.push(property_line(k, m[k], value_only))
        }
    }
}

/// The lines of a unit's properties, by name, and an empty one.
pub open spec fn unit_properties(j: Json, wanted: Seq<Text>, value_only: bool) -> Seq<Seq<Ink>> {
    let m = j->Obj_0;
    property_lines(m, sorted_keys(m), wanted, value_only) + seq![plain(""@)]
}

fn sorted_members(v: &serde_json::Value) -> (r: Option<Vec<String>>)
    ensures
        match r {
            Some(names) => json_of(*v) is Obj && texts(names@) == sorted_keys(json_of(*v)->Obj_0)
                && are_sorted_keys(json_of(*v)->Obj_0, texts(names@)),
            None => !(json_of(*v) is Obj),
        },
{
    match member_names(v) {
        None => None,
        Some(names) => {
            let ghost m = json_of(*v)->Obj_0;
            let ghost all = texts(names@);
            let mut out: Vec<String> = Vec::new();
            let mut i: usize = 0;
            assert(texts(out@) =~= seq![]);
            while i < names.len()
                invariant
                    i <= names.len(),
                    all == texts(names@),
                    sorted(texts(out@)),
                    texts(out@).no_duplicates(),
                    forall|x: Text|
                        #[trigger] texts(out@).contains(x) <==> all.take(i as int).contains(x),
                decreases names.len() - i,
            {
                let ghost was = texts(out@);
                insert_once(&mut out, names[i].clone());
                proof {
                    let init = all.take(i as int);
                    let upto = all.take(i + 1);
                    assert forall|x: Text|
                        #[trigger] texts(out@).contains(x) <==> upto.contains(x) by {
                        assert(was.contains(x) <==> init.contains(x));
                        if init.contains(x) {
                            let j = choose|j: int| 0 <= j < init.len() && init[j] == x;
                            assert(upto[j] == x);
                        }
                        if x == all[i as int] {
                            assert(upto[i as int] == x);
                        }
                        if upto.contains(x) && x != all[i as int] {
                            let j = choose|j: int| 0 <= j < upto.len() && upto[j] == x;
                            assert(init[j] == x);
                        }
                    }
                }
                i = i + 1;
            }
            proof {
                assert(all.take(names.len() as int) =~= all);
                assert forall|k: Text| m.contains_key(k) == texts(out@).contains(k) by {
                    assert(all.contains(k) <==> m.contains_key(k));
                }
                sorted_keys_unique(m, texts(out@));
            }
            Some(out)
        },
    }
}

fn show_unit(v: &serde_json::Value, wanted: &Vec<String>, value_only: bool) -> (r: Option<
    Vec<Line>,
>)
    ensures
        match r {
            Some(lines) => json_of(*v) is Obj && views(lines@) == unit_properties(
                json_of(*v),
                texts(wanted@),
                value_only,
            ),
            None => !(json_of(*v) is Obj),
        },
{
    let names = match sorted_members(v) {
        Some(n) => n,
        None => {
            return None;
        },
    };
    let ghost m = json_of(*v)->Obj_0;
    let ghost all = texts(names@);
    let ghost want = texts(wanted@);
    let mut out: Vec<Line> = Vec::new();
    let mut i: usize = 0;
    proof {
        assert(all.take(0) =~= seq![]);
        assert(views(out@) =~= seq![]);
    }
    while i < names.len()
        invariant
            i <= names.len(),
            all == texts(names@),
            want == texts(wanted@),
            json_of(*v) == Json::Obj(m),
            are_sorted_keys(m, all),
            views(out@) == property_lines(m, all.take(i as int), want, value_only),
        decreases names.len() - i,
    {
        let k = names[i].as_str();
        let ghost upto = all.take(i + 1);
        let ghost was = views(out@);
        proof {
            assert(all[i as int] == k@);
            assert(all.contains(k@));
            assert(upto.drop_last() =~= all.take(i as int));
            assert(upto.last() == k@);
        }
        if wanted.len() == 0 || is_listed(wanted, k) {
            match member(v, k) {
                Some(x) => {
                    let text = value_string(x);
                    let line = if value_only {
                        plain_line(text.as_str())
                    } else {
                        plain_line(cat3(k, "=", text.as_str()).as_str())
                    };
                    let ghost l = line@;
                    out.push(line);
                    assert(views(out@) =~= was.push(l));
                },
                None => {},
            }
        }
        i = i + 1;
    }
    assert(all.take(names.len() as int) =~= all);
    let ghost was = views(out@);
    out.push(plain_line(""));
    assert(views(out@) =~= was + seq![plain(""@)]);
    Some(out)
}

/// Are all rows objects?
pub open spec fn all_objects(v: Seq<Json>) -> bool {
    forall|i: int| 0 <= i < v.len() ==> (#[trigger] v[i]) is Obj
}

/// The properties of several units.
pub open spec fn all_properties(v: Seq<Json>, wanted: Seq<Text>, value_only: bool) -> Seq<Seq<Ink>>
    decreases v.len(),
{
    if v.len() == 0 {
        seq![]
    } else {
        all_properties(v.drop_last(), wanted, value_only) + unit_properties(
            v.last(),
            wanted,
            value_only,
        )
    }
}

fn cmd_show(v: &Vec<serde_json::Value>, wanted: &Vec<String>, value_only: bool) -> (r: Option<
    Vec<Line>,
>)
    ensures
        match r {
            Some(lines) => all_objects(jsons_of(v@)) && views(lines@) == all_properties(
                jsons_of(v@),
                texts(wanted@),
                value_only,
            ),
            None => !all_objects(jsons_of(v@)),
        },
{
    let ghost all = jsons_of(v@);
    let ghost want = texts(wanted@);
    let mut out: Vec<Line> = Vec::new();
    let mut i: usize = 0;
    proof {
        assert(all.take(0) =~= seq![]);
        assert(views(out@) =~= seq![]);
    }
    while i < v.len()
        invariant
            i <= v.len(),
            all == jsons_of(v@),
            want == texts(wanted@),
            forall|j: int| 0 <= j < i ==> (#[trigger] all[j]) is Obj,
            views(out@) == all_properties(all.take(i as int), want, value_only),
        decreases v.len() - i,
    {
        let ghost upto = all.take(i + 1);
        proof {
            assert(all[i as int] == json_of(v@[i as int]));
            assert(upto.drop_last() =~= all.take(i as int));
            assert(upto.last() == all[i as int]);
        }
        let mut lines = match show_unit(&v[i], wanted, value_only) {
            Some(l) => l,
            None => {
                return None;
            },
        };
        push_lines(&mut out, &mut lines);
        i = i + 1;
    }
    assert(all.take(v.len() as int) =~= all);
    Some(out)
}

// ---- answers in a word ----------------------------------------------------------

/// The state in the second place of a pair; empty where there is none.
pub open spec fn second_text(j: Json) -> Text {
    match j {
        Json::Arr(a) => if a.len() > 1 {
            as_text_or(a[1], ""@)
        } else {
            ""@
        },
        _ => ""@,
    }
}

fn second<'a>(v: &'a serde_json::Value) -> (r: &'a str)
    ensures
        r@ == second_text(json_of(*v)),
{
    match as_list(v) {
        Some(a) => if a.len() > 1 {
            assert(jsons_of(a@)[1] == json_of(a@[1]));
            match as_text(&a[1]) {
                Some(s) => s,
                None => "",
            }
        } else {
            ""
        },
        None => "",
    }
}

/// The states of `is-active`.
pub open spec fn state_lines(v: Seq<Json>) -> Seq<Seq<Ink>> {
    Seq::new(v.len(), |i: int| plain(second_text(v[i])))
}

fn states(v: &Vec<serde_json::Value>) -> (r: Vec<Line>)
    ensures
        views(r@) == state_lines(jsons_of(v@)),
{
    let mut out: Vec<Line> = Vec::new();
    let mut i: usize = 0;
    while i < v.len()
        invariant
            i <= v.len(),
            out.len() == i,
            forall|j: int|
                0 <= j < i ==> (#[trigger] out@[j])@ == plain(second_text(json_of(v@[j]))),
        decreases v.len() - i,
    {
        out.push(plain_line(second(&v[i])));
        i = i + 1;
    }
    assert(views(out@) =~= state_lines(jsons_of(v@)));
    out
}

/// The first item of an array, where it is a boolean.
pub open spec fn first_is_true(j: Json) -> bool {
    j is Arr && (j->Arr_0).len() > 0 && (j->Arr_0)[0] == Json::Bool(true)
}

fn is_first_true(v: &serde_json::Value) -> (r: bool)
    ensures
        r == first_is_true(json_of(*v)),
{
    match as_list(v) {
        Some(a) => if a.len() > 0 {
            assert(jsons_of(a@)[0] == json_of(a@[0]));
            match as_boolean(&a[0]) {
                Some(b) => b,
                None => false,
            }
        } else {
            false
        },
        None => false,
    }
}

// ---- replies --------------------------------------------------------------------

/// What is printed of a reply, and the exit code; or why it cannot be shown.
pub open spec fn rendered(d: Display, j: Json, now: u64) -> Result<(Seq<Seq<Ink>>, i32), Text> {
    match d {
        Display::Quiet => Ok((seq![], 0i32)),
        Display::IsActive => Ok(
            (
                state_lines(member_items(j, "states"@)),
                match signed_member(j, "exit"@) {
                    Some(n) => n as i32,
                    None => 0i32,
                },
            ),
        ),
        Display::IsFailed => if first_is_true(j) {
            Ok((seq![plain("failed"@)], 0i32))
        } else {
            Ok((seq![plain("active"@)], 1i32))
        },
        Display::Status => match j {
            Json::Arr(a) => Ok((all_statuses(a, now), 0i32)),
            _ => Err("bad status response"@),
        },
        Display::ListUnits(legend) => Ok((unit_table(items(j), legend), 0i32)),
        Display::ListUnitFiles(legend) => Ok((file_table(items(j), legend), 0i32)),
        Display::ListTimers(legend) => Ok((timer_table(items(j), legend, now), 0i32)),
        Display::Cat => Ok((all_cats(items(j)), 0i32)),
        Display::Show(wanted, value_only) => if all_objects(items(j)) {
            Ok((all_properties(items(j), wanted, value_only), 0i32))
        } else {
            Err("bad show response"@)
        },
        Display::GetDefault => Ok((seq![plain(as_text_or(j, "default.target"@))], 0i32)),
        Display::IsSystemRunning => if bool_member(j, "degraded"@) == Some(true) {
            Ok((seq![plain("degraded"@)], 1i32))
        } else {
            Ok((seq![plain("running"@)], 0i32))
        },
    }
}

/// A result, as specifications see it.
pub open spec fn rendered_result(r: Result<(Vec<Line>, i32), String>) -> Result<
    (Seq<Seq<Ink>>, i32),
    Text,
> {
    match r {
        Ok((lines, code)) => Ok((views(lines@), code)),
        Err(e) => Err(e@),
    }
}

fn one_line(text: &str) -> (r: Vec<Line>)
    ensures
        views(r@) == seq![plain(text@)],
{
    let mut out: Vec<Line> = Vec::new();
    out.push(plain_line(text));
    assert(views(out@) =~= seq![plain(text@)]);
    out
}

/// What is printed of a reply, and the exit code; or why it cannot be shown.
pub fn render(reply: &Reply, data: &serde_json::Value, now: u64) -> (r: Result<
    (Vec<Line>, i32),
    String,
>)
    ensures
        rendered_result(r) == rendered(reply@, json_of(*data), now),
{
    let none: Vec<serde_json::Value> = Vec::new();
    let rows = match as_list(data) {
        Some(a) => a,
        None => &none,
    };
    assert(jsons_of(rows@) =~= items(json_of(*data)));
    match reply {
        Reply::Quiet => {
            let out: Vec<Line> = Vec::new();
            assert(views(out@) =~= seq![]);
            Ok((out, 0))
        },
        Reply::IsActive => {
            let list = match member(data, "states") {
                Some(m) => match as_list(m) {
                    Some(a) => a,
                    None => &none,
                },
                None => &none,
            };
            assert(jsons_of(list@) =~= member_items(json_of(*data), "states"@));
            let code: i32 = match signed_in(data, "exit") {
                Some(n) => n as i32,
                None => 0,
            };
            Ok((states(list), code))
        },
        Reply::IsFailed => if is_first_true(data) {
            Ok((one_line("failed"), 0))
        } else {
            Ok((one_line("active"), 1))
        },
        Reply::Status => match as_list(data) {
            Some(a) => Ok((cmd_status(a, now), 0)),
            None => Err(owned("bad status response")),
        },
        Reply::ListUnits { legend } => Ok((cmd_list_units(rows, *legend), 0)),
        Reply::ListUnitFiles { legend } => Ok((cmd_list_unit_files(rows, *legend), 0)),
        Reply::ListTimers { legend } => Ok((cmd_list_timers(rows, *legend, now), 0)),
        Reply::Cat => Ok((cmd_cat(rows), 0)),
        Reply::Show { property, value } => match cmd_show(rows, property, *value) {
            Some(lines) => Ok((lines, 0)),
            None => Err(owned("bad show response")),
        },
        Reply::GetDefault => Ok((one_line(default_target_in(data).as_str()), 0)),
        Reply::IsSystemRunning => {
            let degraded = match member(data, "degraded") {
                Some(m) => match as_boolean(m) {
                    Some(b) => b,
                    None => false,
                },
                None => false,
            };
            if degraded {
                Ok((one_line("degraded"), 1))
            } else {
                Ok((one_line("running"), 0))
            }
        },
    }
}

} // verus!
