//! Time spans, per `systemd.time(7)`.
//!
//! Examples: `5s`, `500ms`, `1h 30min`, `2d 4h`, `infinity`.
//! Months and years are not fixed-length: 1 month = 365.25/12 days,
//! 1 year = 365.25 days.

use vstd::prelude::*;
use vstd::string::*;

use crate::binary64::{
    fraction_digits, large_stays_large, scale, scaled, small_is_exact, ten, two,
};
use crate::text::{
    alpha, cat3, cat5, chars, chr, cut, dec, decimal, decimal_has_digits, decimal_reads_back,
    digit, digits, find, find_before, find_char, find_first,
    find_last, find_last_last, find_last_unique, find_unique, is_alpha, is_blank, is_digit,
    is_space, lower, lower_char, non_spaces, occurs, owned, parse_number, same, same_ignore_case,
    space, string_of, to_lower, trim, trimmed, trimmed_is_the_rest, trimmed_is_trimmed,
    trimmed_parts, trimmed_start, upper, Text,
};

verus! {

pub const INFINITY_USEC: u64 = 0xffff_ffff_ffff_ffff;

pub const USEC_PER_SEC: u64 = 1_000_000;

pub const USEC_PER_MIN: u64 = 60_000_000;

pub const USEC_PER_HOUR: u64 = 3_600_000_000;

pub const USEC_PER_DAY: u64 = 86_400_000_000;

pub const USEC_PER_WEEK: u64 = 604_800_000_000;

/// 30.4375 days.
pub const USEC_PER_MONTH: u64 = 2_629_800_000_000;

/// 365.25 days.
pub const USEC_PER_YEAR: u64 = 31_557_600_000_000;

/// A time span, in microseconds. The largest value stands for `infinity`.
#[derive(Debug, Clone, Copy, PartialEq, Eq, PartialOrd, Ord, Hash, Structural)]
pub struct TimeSpan {
    pub usec: u64,
}

impl Default for TimeSpan {
    fn default() -> (r: TimeSpan)
        ensures
            r.usec == 0,
    {
        TimeSpan { usec: 0 }
    }
}

/// The microseconds in a unit of time. Names are compared in lower case; `m` is
/// a minute.
pub open spec fn factor_of(unit: Text) -> Option<nat> {
    let u = lower(unit);
    if u == "usec"@ || u == "us"@ {
        Some(1)
    } else if u == "msec"@ || u == "ms"@ {
        Some(1_000)
    } else if u == "seconds"@ || u == "second"@ || u == "sec"@ || u == "s"@ {
        Some(USEC_PER_SEC as nat)
    } else if u == "minutes"@ || u == "minute"@ || u == "min"@ || u == "m"@ {
        Some(USEC_PER_MIN as nat)
    } else if u == "hours"@ || u == "hour"@ || u == "hr"@ || u == "h"@ {
        Some(USEC_PER_HOUR as nat)
    } else if u == "days"@ || u == "day"@ || u == "d"@ {
        Some(USEC_PER_DAY as nat)
    } else if u == "weeks"@ || u == "week"@ || u == "w"@ {
        Some(USEC_PER_WEEK as nat)
    } else if u == "months"@ || u == "month"@ || u == "mon"@ {
        Some(USEC_PER_MONTH as nat)
    } else if u == "years"@ || u == "year"@ || u == "y"@ {
        Some(USEC_PER_YEAR as nat)
    } else {
        None
    }
}

fn unit_factor(unit: &str) -> (r: Option<u64>)
    ensures
        match r {
            Some(f) => factor_of(unit@) == Some(f as nat) && 1 <= f <= USEC_PER_YEAR,
            None => factor_of(unit@) is None,
        },
{
    let lowered = to_lower(unit);
    let u = lowered.as_str();
    if same(u, "usec") || same(u, "us") {
        Some(1)
    } else if same(u, "msec") || same(u, "ms") {
        Some(1_000)
    } else if same(u, "seconds") || same(u, "second") || same(u, "sec") || same(u, "s") {
        Some(USEC_PER_SEC)
    } else if same(u, "minutes") || same(u, "minute") || same(u, "min") || same(u, "m") {
        Some(USEC_PER_MIN)
    } else if same(u, "hours") || same(u, "hour") || same(u, "hr") || same(u, "h") {
        Some(USEC_PER_HOUR)
    } else if same(u, "days") || same(u, "day") || same(u, "d") {
        Some(USEC_PER_DAY)
    } else if same(u, "weeks") || same(u, "week") || same(u, "w") {
        Some(USEC_PER_WEEK)
    } else if same(u, "months") || same(u, "month") || same(u, "mon") {
        Some(USEC_PER_MONTH)
    } else if same(u, "years") || same(u, "year") || same(u, "y") {
        Some(USEC_PER_YEAR)
    } else {
        None
    }
}

pub open spec fn is_number_char(c: char) -> bool {
    is_digit(c) || c == '.'
}

/// The characters that end a number.
pub open spec fn number_end() -> spec_fn(char) -> bool {
    |c: char| !is_number_char(c)
}

/// The characters that end the name of a unit.
pub open spec fn unit_end() -> spec_fn(char) -> bool {
    |c: char| !is_alpha(c)
}

/// The digits of a decimal number as one number, and how many of them stand
/// behind the point. With a second point it is no number.
pub open spec fn decimal_parts(num: Text) -> Option<(nat, nat)> {
    match cut(num, '.') {
        None => Some((digits(num, 10)->0, 0)),
        Some((a, b)) => if occurs(b, chr('.')) {
            None
        } else {
            Some((digits(a + b, 10)->0, b.len()))
        },
    }
}

/// The microseconds in so many units.
pub open spec fn amount(num: Text, factor: nat) -> nat {
    let (n, k) = decimal_parts(num)->0;
    scaled(n, k, factor)
}

/// The sum of the components of a time span, on top of `total`. `whole` is the
/// text that error messages quote.
pub open spec fn sum(whole: Text, rest: Text, total: nat) -> Result<nat, Text>
    decreases rest.len(),
{
    let r = trimmed_start(rest);
    let k = find(r, number_end()) as int;
    let num = r.take(k);
    let tail = r.skip(k);
    let j = find(tail, unit_end()) as int;
    let unit = tail.take(j);
    if r.len() == 0 {
        Ok(total)
    } else if k == 0 || num.last() == '.' {
        Err("missing number in time span `"@ + whole + "`"@)
    } else if decimal_parts(num) is None {
        Err("invalid number `"@ + num + "` in time span `"@ + whole + "`"@)
    } else if j == 0 {
        Err("missing unit after `"@ + num + "` in time span `"@ + whole + "`"@)
    } else {
        match factor_of(unit) {
            None => Err("invalid time unit `"@ + unit + "` in time span `"@ + whole + "`"@),
            Some(f) => if total + amount(num, f) > INFINITY_USEC {
                Err("time span `"@ + whole + "` overflows"@)
            } else {
                proof {
                    find_first(rest, non_spaces());
                    find_first(r, number_end());
                    find_first(tail, unit_end());
                }
                sum(whole, tail.skip(j), total + amount(num, f))
            },
        }
    }
}

/// The microseconds that a text gives, or what is wrong with it.
pub open spec fn span_of(s: Text) -> Result<nat, Text> {
    let t = trimmed(s);
    if lower(t) == lower("infinity"@) {
        Ok(INFINITY_USEC as nat)
    } else if t.len() == 0 {
        Err("empty time span"@)
    } else {
        sum(t, t, 0)
    }
}

proof fn all_digits(s: Text)
    requires
        forall|i: int| 0 <= i < s.len() ==> is_digit(#[trigger] s[i]),
    ensures
        digits(s, 10) is Some,
    decreases s.len(),
{
    if s.len() > 0 {
        let t = s.drop_last();
        assert forall|i: int| 0 <= i < t.len() implies is_digit(#[trigger] t[i]) by {
            assert(t[i] == s[i]);
        }
        all_digits(t);
        assert(is_digit(s[s.len() - 1]));
    }
}

/// The microseconds in so many units, where they fit.
fn decimal_amount(num: &str, factor: u64) -> (r: Option<u64>)
    requires
        forall|i: int| 0 <= i < num@.len() ==> is_number_char(#[trigger] num@[i]),
        num@.len() > 0,
        decimal_parts(num@) is Some,
        1 <= factor <= USEC_PER_YEAR,
    ensures
        match r {
            Some(x) => amount(num@, factor as nat) == x,
            None => amount(num@, factor as nat) > u64::MAX,
        },
{
    let v = chars(num);
    let point = find_char(&v, 0, '.');
    proof {
        assert(num@.skip(0) =~= num@);
        find_first(num@, chr('.'));
    }
    let ghost a = num@.take(point as int);
    let start: usize = if point < v.len() {
        point + 1
    } else {
        point
    };
    let ghost b = num@.skip(start as int);
    proof {
        assert forall|i: int| 0 <= i < a.len() implies is_digit(#[trigger] a[i]) by {
            assert(!chr('.')(num@[i]));
            assert(is_number_char(num@[i]));
        }
        all_digits(a);
        find_first(b, chr('.'));
        assert forall|i: int| 0 <= i < b.len() implies is_digit(#[trigger] b[i]) by {
            assert(b[i] == num@[start + i]);
            assert(is_number_char(num@[start + i]));
            assert(!chr('.')(b[i]));
        }
        all_digits(b);
        assert(v@.subrange(start as int, v.len() as int) =~= b);
        crate::binary64::digits_join(a, b);
        if point == v.len() {
            assert(a =~= num@);
            assert(b =~= seq![]);
            assert(a + b =~= num@);
        }
    }
    let fraction = fraction_digits(&v, start, v.len());
    let whole_text = string_of(&v, 0, point);
    assert(whole_text@ =~= a);
    if point == 0 {
        assert(digits(a, 10) == Some(0nat));
        assert(0 * ten(b.len()) == 0) by (nonlinear_arith);
        return scale(0, fraction, factor);
    }
    assert(is_digit(a[0]));
    match parse_number(whole_text.as_str(), 10, INFINITY_USEC) {
        Some(whole) => scale(whole, fraction, factor),
        None => {
            proof {
                let x = digits(a, 10)->0;
                crate::binary64::two_values();
                assert(x * ten(b.len()) >= two(64) * ten(b.len())) by (nonlinear_arith)
                    requires
                        x >= two(64),
                ;
                large_stays_large(
                    x * ten(b.len()) + digits(b, 10)->0,
                    b.len(),
                    factor as nat,
                );
            }
            None
        },
    }
}

/// The end of a run of number characters from `from` on.
fn number_run(v: &Vec<char>, from: usize) -> (r: usize)
    requires
        from <= v.len(),
    ensures
        from <= r <= v.len(),
        r - from == find(v@.skip(from as int), number_end()),
{
    let mut i: usize = from;
    while i < v.len() && (digit(v[i]) || v[i] == '.')
        invariant
            from <= i <= v.len(),
            forall|j: int| from <= j < i ==> is_number_char(#[trigger] v@[j]),
        decreases v.len() - i,
    {
        i = i + 1;
    }
    proof {
        let s = v@.skip(from as int);
        assert forall|j: int| 0 <= j < i - from implies !number_end()(#[trigger] s[j]) by {
            assert(s[j] == v@[from + j]);
        }
        find_unique(s, number_end(), i - from);
    }
    i
}

/// The end of a run of letters from `from` on.
fn letter_run(v: &Vec<char>, from: usize) -> (r: usize)
    requires
        from <= v.len(),
    ensures
        from <= r <= v.len(),
        r - from == find(v@.skip(from as int), unit_end()),
{
    let mut i: usize = from;
    while i < v.len() && alpha(v[i])
        invariant
            from <= i <= v.len(),
            forall|j: int| from <= j < i ==> is_alpha(#[trigger] v@[j]),
        decreases v.len() - i,
    {
        i = i + 1;
    }
    proof {
        let s = v@.skip(from as int);
        assert forall|j: int| 0 <= j < i - from implies !unit_end()(#[trigger] s[j]) by {
            assert(s[j] == v@[from + j]);
        }
        find_unique(s, unit_end(), i - from);
    }
    i
}

/// The end of a run of white space from `from` on.
fn space_run(v: &Vec<char>, from: usize) -> (r: usize)
    requires
        from <= v.len(),
    ensures
        from <= r <= v.len(),
        r - from == find(v@.skip(from as int), non_spaces()),
{
    let mut i: usize = from;
    while i < v.len() && space(v[i])
        invariant
            from <= i <= v.len(),
            forall|j: int| from <= j < i ==> is_space(#[trigger] v@[j]),
        decreases v.len() - i,
    {
        i = i + 1;
    }
    proof {
        let s = v@.skip(from as int);
        assert forall|j: int| 0 <= j < i - from implies !non_spaces()(#[trigger] s[j]) by {
            assert(s[j] == v@[from + j]);
        }
        find_unique(s, non_spaces(), i - from);
    }
    i
}

/// Is there one point at most?
fn is_decimal(num: &str) -> (r: bool)
    ensures
        r == decimal_parts(num@) is Some,
{
    match crate::text::split_once(num, '.') {
        None => true,
        Some((_, b)) => !crate::text::contains_char(b, '.'),
    }
}

/// A result over an unsigned number, as specifications see it.
pub open spec fn span_result(r: Result<TimeSpan, String>) -> Result<nat, Text> {
    match r {
        Ok(t) => Ok(t.usec as nat),
        Err(e) => Err(e@),
    }
}

impl TimeSpan {
    /// The infinite span.
    pub fn infinity() -> (r: TimeSpan)
        ensures
            r.usec == INFINITY_USEC,
    {
        TimeSpan { usec: INFINITY_USEC }
    }

    pub fn from_usec(usec: u64) -> (r: TimeSpan)
        ensures
            r.usec == usec,
    {
        TimeSpan { usec }
    }

    /// A duration of so many whole seconds and microseconds.
    pub fn from_duration(secs: u64, micros: u32) -> (r: TimeSpan)
        requires
            micros < 1_000_000,
            secs * 1_000_000 + micros <= u64::MAX || micros == 0,
        ensures
            r.usec == if secs * 1_000_000 > u64::MAX {
                u64::MAX as int
            } else {
                secs * 1_000_000 + micros
            },
    {
        match secs.checked_mul(USEC_PER_SEC) {
            Some(whole) => TimeSpan { usec: whole + micros as u64 },
            None => TimeSpan { usec: u64::MAX },
        }
    }

    pub fn is_infinite(&self) -> (r: bool)
        ensures
            r == (self.usec == INFINITY_USEC),
    {
        self.usec == INFINITY_USEC
    }

    /// The microseconds of a finite span; nothing for `infinity`.
    pub fn as_duration(&self) -> (r: Option<u64>)
        ensures
            r == if self.usec == INFINITY_USEC {
                None
            } else {
                Some(self.usec)
            },
    {
        if self.is_infinite() {
            None
        } else {
            Some(self.usec)
        }
    }

    /// Parse a time span. `infinity` (in any case) is the infinite span.
    /// Several `N unit` pairs are summed. Unit names are case-insensitive.
    pub fn parse(s: &str) -> (r: Result<TimeSpan, String>)
        ensures
            span_result(r) == span_of(s@),
    {
        let t = trim(s);
        if same_ignore_case(t, "infinity") {
            return Ok(TimeSpan::infinity());
        }
        if t.unicode_len() == 0 {
            return Err(owned("empty time span"));
        }
        let v = chars(t);
        let mut total: u64 = 0;
        let mut i: usize = 0;
        assert(v@.skip(0) =~= v@);
        while i < v.len()
            invariant
                v@ == t@,
                span_of(s@) == sum(t@, t@, 0),
                i <= v.len(),
                sum(t@, t@, 0) == sum(t@, v@.skip(i as int), total as nat),
            decreases v.len() - i,
        {
            let ghost rest = v@.skip(i as int);
            let ghost r = trimmed_start(rest);
            let a = space_run(&v, i);
            assert(r =~= v@.skip(a as int));
            if a == v.len() {
                return Ok(TimeSpan { usec: total });
            }
            let b = number_run(&v, a);
            let num = string_of(&v, a, b);
            assert(num@ =~= r.take(b - a));
            if b == a || v[b - 1] == '.' {
                assert(b > a ==> num@.last() == v@[b - 1]);
                return Err(cat3("missing number in time span `", t, "`"));
            }
            assert(num@.last() == v@[b - 1]);
            if !is_decimal(num.as_str()) {
                return Err(
                    cat5("invalid number `", num.as_str(), "` in time span `", t, "`"),
                );
            }
            let ghost tail = r.skip(b - a);
            assert(tail =~= v@.skip(b as int));
            let c = letter_run(&v, b);
            let unit = string_of(&v, b, c);
            assert(unit@ =~= tail.take(c - b));
            if c == b {
                return Err(
                    cat5("missing unit after `", num.as_str(), "` in time span `", t, "`"),
                );
            }
            match unit_factor(unit.as_str()) {
                None => {
                    return Err(
                        cat5("invalid time unit `", unit.as_str(), "` in time span `", t, "`"),
                    );
                },
                Some(factor) => {
                    proof {
                        find_first(r, number_end());
                        assert forall|j: int| 0 <= j < num@.len() implies is_number_char(
                            #[trigger] num@[j],
                        ) by {
                            assert(!number_end()(r[j]));
                        }
                    }
                    match decimal_amount(num.as_str(), factor) {
                        None => {
                            return Err(cat3("time span `", t, "` overflows"));
                        },
                        Some(x) => {
                            if x > INFINITY_USEC - total {
                                return Err(cat3("time span `", t, "` overflows"));
                            }
                            total = total + x;
                        },
                    }
                },
            }
            assert(tail.skip(c - b) =~= v@.skip(c as int));
            i = c;
        }
        assert(trimmed_start(v@.skip(i as int)) =~= seq![]);
        Ok(TimeSpan { usec: total })
    }

    /// `infinity`, or the span as `fmt_left` shows it.
    pub fn show(&self) -> (r: String)
        ensures
            r@ == if self.usec == INFINITY_USEC {
                "infinity"@
            } else {
                left_text((self.usec / 1_000_000) as nat)
            },
    {
        if self.is_infinite() {
            owned("infinity")
        } else {
            fmt_left(self.usec / USEC_PER_SEC)
        }
    }
}

// ---- durations for people -------------------------------------------------------

/// A number of seconds for people: whole days, hours and minutes, minutes, or
/// seconds.
pub open spec fn left_text(secs: nat) -> Text {
    if secs >= 86_400 {
        decimal(secs / 86_400) + if secs / 86_400 == 1 {
            " day"@
        } else {
            " days"@
        }
    } else if secs >= 3600 {
        if (secs % 3600) / 60 == 0 {
            decimal(secs / 3600) + "h"@
        } else {
            decimal(secs / 3600) + "h "@ + decimal((secs % 3600) / 60) + "min"@
        }
    } else if secs >= 60 {
        decimal(secs / 60) + "min"@
    } else {
        decimal(secs) + "s"@
    }
}

/// Time left, for the `LEFT` column of `list-timers`: `23s`, `5min`,
/// `1h 30min`, `2 days`.
pub fn fmt_left(secs: u64) -> (r: String)
    ensures
        r@ == left_text(secs as nat),
{
    if secs >= 86_400 {
        let days: u64 = secs / 86_400;
        let mut out = dec(days);
        if days == 1 {
            out.append(" day");
        } else {
            out.append(" days");
        }
        out
    } else if secs >= 3600 {
        let h: u64 = secs / 3600;
        let m: u64 = (secs % 3600) / 60;
        let mut out = dec(h);
        if m == 0 {
            out.append("h");
        } else {
            out.append("h ");
            out.append(dec(m).as_str());
            out.append("min");
        }
        out
    } else if secs >= 60 {
        let mut out = dec(secs / 60);
        out.append("min");
        out
    } else {
        let mut out = dec(secs);
        out.append("s");
        out
    }
}

/// Time passed, for the `PASSED` column of `list-timers`: `23s ago`.
pub fn fmt_ago(secs: u64) -> (r: String)
    ensures
        r@ == left_text(secs as nat) + " ago"@,
{
    let mut out = fmt_left(secs);
    out.append(" ago");
    out
}

// ---- laws -----------------------------------------------------------------------

/// A whole number of units is exact where its microseconds have at most 53
/// bits.
pub proof fn whole_amounts_are_exact(num: Text, factor: nat)
    requires
        forall|i: int| 0 <= i < num.len() ==> is_digit(#[trigger] num[i]),
        factor >= 1,
        digits(num, 10)->0 * factor < two(53),
    ensures
        amount(num, factor) == digits(num, 10)->0 * factor,
{
    assert forall|i: int| 0 <= i < num.len() implies !chr('.')(#[trigger] num[i]) by {}
    find_unique(num, chr('.'), num.len() as int);
    small_is_exact(digits(num, 10)->0, factor);
}

/// Only what follows leading white space matters.
proof fn sum_skips_space(whole: Text, rest: Text, total: nat)
    ensures
        sum(whole, rest, total) == sum(whole, trimmed_start(rest), total),
{
    find_first(rest, non_spaces());
    let r = trimmed_start(rest);
    if r.len() > 0 {
        assert(r[0] == rest[find(rest, non_spaces()) as int]);
        assert(non_spaces()(r[0]));
    }
    assert(find(r, non_spaces()) == 0);
    assert(trimmed_start(r) =~= r);
}

/// A sum on top of another one.
proof fn sum_shifts(a: Text, b: Text, rest: Text, total: nat, more: nat)
    requires
        sum(a, rest, total) is Ok,
        sum(a, rest, total)->Ok_0 + more <= INFINITY_USEC,
    ensures
        sum(b, rest, total + more) == Ok::<nat, Text>(sum(a, rest, total)->Ok_0 + more),
        sum(a, rest, total)->Ok_0 >= total,
    decreases rest.len(),
{
    let r = trimmed_start(rest);
    let k = find(r, number_end()) as int;
    let num = r.take(k);
    let tail = r.skip(k);
    let j = find(tail, unit_end()) as int;
    find_first(rest, non_spaces());
    find_first(r, number_end());
    find_first(tail, unit_end());
    if r.len() > 0 {
        let f = factor_of(tail.take(j))->0;
        let x = amount(num, f);
        sum_grows(a, tail.skip(j), total + x);
        sum_shifts(a, b, tail.skip(j), total + x, more);
        assert(total + x + more == total + more + x);
    }
}

proof fn sum_grows(a: Text, rest: Text, total: nat)
    requires
        sum(a, rest, total) is Ok,
    ensures
        sum(a, rest, total)->Ok_0 >= total,
    decreases rest.len(),
{
    let r = trimmed_start(rest);
    let k = find(r, number_end()) as int;
    let tail = r.skip(k);
    let j = find(tail, unit_end()) as int;
    find_first(rest, non_spaces());
    find_first(r, number_end());
    find_first(tail, unit_end());
    if r.len() > 0 {
        let f = factor_of(tail.take(j))->0;
        sum_grows(a, tail.skip(j), total + amount(r.take(k), f));
    }
}

/// Components with white space between them are summed up.
proof fn sums_join(w: Text, x: Text, y: Text, a: Text, sep: Text, b: Text, total: nat)
    requires
        sum(w, a, total) is Ok,
        sum(x, b, 0) is Ok,
        sum(w, a, total)->Ok_0 + sum(x, b, 0)->Ok_0 <= INFINITY_USEC,
        sep.len() > 0,
        is_blank(sep),
    ensures
        sum(y, a + (sep + b), total) == Ok::<nat, Text>(
            sum(w, a, total)->Ok_0 + sum(x, b, 0)->Ok_0,
        ),
    decreases a.len(),
{
    let more = sep + b;
    let both = a + more;
    let r = trimmed_start(a);
    find_first(a, non_spaces());
    let f = find(a, non_spaces()) as int;
    assert(more[0] == sep[0]);
    if r.len() == 0 {
        // Only white space stands before `b`.
        assert(f == a.len());
        find_first(b, non_spaces());
        let g = find(b, non_spaces()) as int;
        let n = a.len() + sep.len();
        assert forall|i: int| 0 <= i < n + g implies !non_spaces()(#[trigger] both[i]) by {
            if i < a.len() {
                assert(both[i] == a[i]);
            } else if i < n {
                assert(both[i] == sep[i - a.len()]);
            } else {
                assert(both[i] == b[i - n]);
            }
        }
        if g < b.len() {
            assert(both[n + g] == b[g]);
        }
        find_unique(both, non_spaces(), n + g);
        assert(trimmed_start(both) =~= trimmed_start(b));
        sum_skips_space(y, both, total);
        sum_skips_space(y, b, total);
        sum_shifts(x, y, b, 0, total);
    } else {
        assert forall|i: int| 0 <= i < f implies !non_spaces()(#[trigger] both[i]) by {
            assert(both[i] == a[i]);
        }
        assert(both[f] == a[f]);
        find_unique(both, non_spaces(), f);
        let rr = trimmed_start(both);
        assert(rr =~= r + more);
        find_first(r, number_end());
        find_before(r, number_end(), more);
        let k = find(r, number_end()) as int;
        assert(rr.take(k) =~= r.take(k));
        let tail = r.skip(k);
        assert(rr.skip(k) =~= tail + more);
        find_first(tail, unit_end());
        find_before(tail, unit_end(), more);
        let j = find(tail, unit_end()) as int;
        assert((tail + more).take(j) =~= tail.take(j));
        assert((tail + more).skip(j) =~= tail.skip(j) + more);
        let u = factor_of(tail.take(j))->0;
        sums_join(w, x, y, tail.skip(j), sep, b, total + amount(r.take(k), u));
    }
}

/// Two time spans side by side are worth their sum.
pub proof fn spans_add_up(a: Text, b: Text)
    requires
        lower(trimmed(a)) != lower("infinity"@),
        lower(trimmed(b)) != lower("infinity"@),
        span_of(a) is Ok,
        span_of(b) is Ok,
        span_of(a)->Ok_0 + span_of(b)->Ok_0 <= INFINITY_USEC,
    ensures
        span_of(a + seq![' '] + b) == Ok::<nat, Text>(span_of(a)->Ok_0 + span_of(b)->Ok_0),
{
    let both = a + seq![' '] + b;
    let x = trimmed(a);
    let y = trimmed(b);
    let (before_a, after_a) = trimmed_parts(a);
    let (before_b, after_b) = trimmed_parts(b);
    let sep = after_a + seq![' '] + before_b;
    let core = x + (sep + y);
    assert(both =~= before_a + core + after_b);
    assert(is_blank(sep));
    trimmed_is_trimmed(a);
    trimmed_is_trimmed(b);
    assert(core[0] == x[0]);
    assert(core.last() == y.last());
    trimmed_is_the_rest(before_a, core, after_b);
    assert(lower(core) != lower("infinity"@)) by {
        reveal_strlit("infinity");
        let n = (x.len() + after_a.len()) as int;
        assert(core[n] == sep[after_a.len() as int]);
        if lower(core) == lower("infinity"@) {
            assert(lower(core)[n] == ' ');
            let w = "infinity"@;
            assert(lower(core).len() == core.len() && lower(w).len() == 8);
            assert(w[0] == 'i' && w[1] == 'n' && w[2] == 'f' && w[3] == 'i');
            assert(w[4] == 'n' && w[5] == 'i' && w[6] == 't' && w[7] == 'y');
            assert(n == 0 || n == 1 || n == 2 || n == 3 || n == 4 || n == 5 || n == 6 || n == 7);
            assert(lower(w)[n] != ' ');
        }
    }
    sums_join(x, y, core, x, sep, y, 0);
}

/// Do two texts differ in nothing but the case of ASCII letters?
pub open spec fn same_but_case(a: Text, b: Text) -> bool {
    lower(a) == lower(b)
}

/// What holds of a character in either case.
proof fn case_keeps_kind(x: char, y: char)
    requires
        lower_char(x) == lower_char(y),
    ensures
        is_space(x) == is_space(y),
        is_number_char(x) == is_number_char(y),
        is_alpha(x) == is_alpha(y),
        is_number_char(x) ==> x == y,
{
}

proof fn case_at(a: Text, b: Text)
    requires
        same_but_case(a, b),
    ensures
        a.len() == b.len(),
        forall|i: int| 0 <= i < a.len() ==> lower_char(#[trigger] a[i]) == lower_char(b[i]),
{
    assert(lower(a).len() == a.len());
    assert(lower(b).len() == b.len());
    assert forall|i: int| 0 <= i < a.len() implies lower_char(#[trigger] a[i]) == lower_char(
        b[i],
    ) by {
        assert(lower(a)[i] == lower(b)[i]);
    }
}

/// The same part of both texts.
proof fn case_of_part(a: Text, b: Text, k: int)
    requires
        same_but_case(a, b),
        0 <= k <= a.len(),
    ensures
        same_but_case(a.take(k), b.take(k)),
        same_but_case(a.skip(k), b.skip(k)),
{
    case_at(a, b);
    assert(lower(a.take(k)) =~= lower(b.take(k)));
    assert forall|i: int| 0 <= i < a.len() - k implies lower(a.skip(k))[i] == lower(
        b.skip(k),
    )[i] by {
        assert(a.skip(k)[i] == a[k + i]);
    }
    assert(lower(a.skip(k)) =~= lower(b.skip(k)));
}

/// What is looked for, in either case, stands at the same place.
proof fn case_keeps_place(a: Text, b: Text, p: spec_fn(char) -> bool)
    requires
        same_but_case(a, b),
        forall|x: char, y: char|
            #![trigger lower_char(x), lower_char(y)]
            lower_char(x) == lower_char(y) ==> p(x) == p(y),
    ensures
        find(a, p) == find(b, p),
        find(a, p) <= a.len(),
        find_last(a, p) == find_last(b, p),
        find_last(a, p) <= a.len(),
{
    case_at(a, b);
    find_first(a, p);
    let k = find(a, p) as int;
    assert forall|i: int| 0 <= i < k implies !p(#[trigger] b[i]) by {
        assert(!p(a[i]));
        assert(lower_char(a[i]) == lower_char(b[i]));
    }
    if k < a.len() {
        assert(lower_char(a[k]) == lower_char(b[k]));
    }
    find_unique(b, p, k);
    find_last_last(a, p);
    let l = find_last(a, p) as int;
    assert forall|i: int| l <= i < b.len() implies !p(#[trigger] b[i]) by {
        assert(!p(a[i]));
        assert(lower_char(a[i]) == lower_char(b[i]));
    }
    if l > 0 {
        assert(lower_char(a[l - 1]) == lower_char(b[l - 1]));
    }
    find_last_unique(b, p, l);
}

proof fn case_keeps_ends(a: Text, b: Text)
    requires
        same_but_case(a, b),
    ensures
        find(a, non_spaces()) == find(b, non_spaces()),
        find(a, non_spaces()) <= a.len(),
        find_last(a, non_spaces()) == find_last(b, non_spaces()),
        find_last(a, non_spaces()) <= a.len(),
        find(a, number_end()) == find(b, number_end()),
        find(a, number_end()) <= a.len(),
        find(a, unit_end()) == find(b, unit_end()),
        find(a, unit_end()) <= a.len(),
{
    assert forall|x: char, y: char|
        #![trigger lower_char(x), lower_char(y)]
        lower_char(x) == lower_char(y) implies non_spaces()(x) == non_spaces()(y)
        && number_end()(x) == number_end()(y) && unit_end()(x) == unit_end()(y) by {
        case_keeps_kind(x, y);
    }
    case_keeps_place(a, b, non_spaces());
    case_keeps_place(a, b, number_end());
    case_keeps_place(a, b, unit_end());
}

proof fn case_keeps_sum(wa: Text, wb: Text, a: Text, b: Text, total: nat)
    requires
        same_but_case(a, b),
    ensures
        sum(wa, a, total) is Ok <==> sum(wb, b, total) is Ok,
        sum(wa, a, total) is Ok ==> sum(wa, a, total) == sum(wb, b, total),
    decreases a.len(),
{
    case_keeps_ends(a, b);
    case_of_part(a, b, find(a, non_spaces()) as int);
    let r = trimmed_start(a);
    let s = trimmed_start(b);
    case_at(r, s);
    case_keeps_ends(r, s);
    let k = find(r, number_end()) as int;
    case_of_part(r, s, k);
    find_first(r, number_end());
    let num = r.take(k);
    assert(num =~= s.take(k)) by {
        assert forall|i: int| 0 <= i < k implies num[i] == s.take(k)[i] by {
            assert(!number_end()(r[i]));
            case_keeps_kind(r[i], s[i]);
        }
    }
    let tail = r.skip(k);
    case_keeps_ends(tail, s.skip(k));
    let j = find(tail, unit_end()) as int;
    case_of_part(tail, s.skip(k), j);
    if r.len() > 0 && k > 0 && num.last() != '.' && decimal_parts(num) is Some && j > 0 {
        match factor_of(tail.take(j)) {
            Some(f) => {
                case_keeps_sum(wa, wb, tail.skip(j), s.skip(k).skip(j), total + amount(num, f));
            },
            None => {},
        }
    }
}

/// Upper and lower case are the same in a time span: texts that differ in
/// nothing else are read alike.
pub proof fn case_does_not_matter(a: Text, b: Text)
    requires
        same_but_case(a, b),
    ensures
        span_of(a) is Ok <==> span_of(b) is Ok,
        span_of(a) is Ok ==> span_of(a) == span_of(b),
{
    case_keeps_ends(a, b);
    case_of_part(a, b, find(a, non_spaces()) as int);
    let r = trimmed_start(a);
    let s = trimmed_start(b);
    case_keeps_ends(r, s);
    case_of_part(r, s, find_last(r, non_spaces()) as int);
    case_at(trimmed(a), trimmed(b));
    case_keeps_sum(trimmed(a), trimmed(b), trimmed(a), trimmed(b), 0);
}

/// A time span in upper case is read as the time span.
pub proof fn upper_case_reads_the_same(s: Text)
    ensures
        span_of(upper(s)) is Ok <==> span_of(s) is Ok,
        span_of(s) is Ok ==> span_of(upper(s)) == span_of(s),
{
    assert(lower(upper(s)) =~= lower(s));
    case_does_not_matter(s, upper(s));
}

/// Are so many units worth that many times the factor?
#[verifier::opaque]
spec fn is_worth(n: nat, unit: Text, factor: nat) -> bool {
    span_of(decimal(n) + unit) == Ok::<nat, Text>(n * factor)
}

/// One component, a whole number with a unit behind it.
proof fn one_component(n: nat, unit: Text, factor: nat)
    requires
        unit.len() > 0,
        forall|i: int| 0 <= i < unit.len() ==> is_alpha(#[trigger] unit[i]),
        factor_of(unit) == Some(factor),
        factor >= 1,
        n * factor < 0x20_0000_0000_0000,
    ensures
        is_worth(n, unit, factor),
{
    reveal(is_worth);
    let num = decimal(n);
    let s = num + unit;
    decimal_reads_back(n);
    decimal_has_digits(n);
    crate::binary64::two_values();
    whole_amounts_are_exact(num, factor);
    assert(s[0] == num[0]);
    assert(s.last() == unit.last());
    assert(is_alpha(unit[unit.len() - 1]));
    trimmed_is_the_rest(seq![], s, seq![]);
    assert(seq![] + s + seq![] =~= s);
    assert(lower(s) != lower("infinity"@)) by {
        reveal_strlit("infinity");
        assert("infinity"@[0] == 'i');
        assert(lower(s)[0] == num[0]);
        assert(lower("infinity"@)[0] == 'i');
    }
    assert(find(s, non_spaces()) == 0) by {
        find_unique(s, non_spaces(), 0);
    }
    assert(trimmed_start(s) =~= s);
    assert forall|i: int| 0 <= i < num.len() implies !number_end()(#[trigger] s[i]) by {
        assert(s[i] == num[i]);
    }
    assert(s[num.len() as int] == unit[0]);
    find_unique(s, number_end(), num.len() as int);
    assert(s.take(num.len() as int) =~= num);
    assert(s.skip(num.len() as int) =~= unit);
    assert(is_digit(num[num.len() - 1]));
    assert forall|i: int| 0 <= i < num.len() implies !chr('.')(#[trigger] num[i]) by {}
    find_unique(num, chr('.'), num.len() as int);
    find_unique(unit, unit_end(), unit.len() as int);
    assert(unit.take(unit.len() as int) =~= unit);
    let end = unit.skip(unit.len() as int);
    assert(end =~= seq![]);
    find_first(end, non_spaces());
    assert(trimmed_start(end) =~= seq![]);
    assert(sum(s, end, n * factor) == Ok::<nat, Text>(n * factor));
}

/// The units of time and their names, in upper or lower case: all the names of
/// a unit are worth the same, and no name is worth what another unit is.
#[verifier::spinoff_prover]
#[verifier::rlimit(60)]
pub proof fn units_of_time_have_these_names(unit: Text)
    ensures
        factor_of(unit) == Some(1nat) <==> (lower(unit) == "usec"@ || lower(unit) == "us"@),
        factor_of(unit) == Some(1_000nat) <==> (lower(unit) == "msec"@ || lower(unit) == "ms"@),
        factor_of(unit) == Some(1_000_000nat) <==> (lower(unit) == "seconds"@ || lower(unit) == "second"@ || lower(unit) == "sec"@ || lower(unit) == "s"@),
        factor_of(unit) == Some(60_000_000nat) <==> (lower(unit) == "minutes"@ || lower(unit) == "minute"@ || lower(unit) == "min"@ || lower(unit) == "m"@),
        factor_of(unit) == Some(3_600_000_000nat) <==> (lower(unit) == "hours"@ || lower(unit) == "hour"@ || lower(unit) == "hr"@ || lower(unit) == "h"@),
        factor_of(unit) == Some(86_400_000_000nat) <==> (lower(unit) == "days"@ || lower(unit) == "day"@ || lower(unit) == "d"@),
        factor_of(unit) == Some(604_800_000_000nat) <==> (lower(unit) == "weeks"@ || lower(unit) == "week"@ || lower(unit) == "w"@),
        factor_of(unit) == Some(2_629_800_000_000nat) <==> (lower(unit) == "months"@ || lower(unit) == "month"@ || lower(unit) == "mon"@),
        factor_of(unit) == Some(31_557_600_000_000nat) <==> (lower(unit) == "years"@ || lower(unit) == "year"@ || lower(unit) == "y"@),
        factor_of(unit) is Some ==> (factor_of(unit) == Some(1nat) || factor_of(unit) == Some(1_000nat) || factor_of(unit) == Some(1_000_000nat) || factor_of(unit) == Some(60_000_000nat) || factor_of(unit) == Some(3_600_000_000nat) || factor_of(unit) == Some(86_400_000_000nat) || factor_of(unit) == Some(604_800_000_000nat) || factor_of(unit) == Some(2_629_800_000_000nat) || factor_of(unit) == Some(31_557_600_000_000nat)),
{
    reveal_strlit("usec");
    reveal_strlit("us");
    reveal_strlit("msec");
    reveal_strlit("ms");
    reveal_strlit("seconds");
    reveal_strlit("second");
    reveal_strlit("sec");
    reveal_strlit("s");
    reveal_strlit("minutes");
    reveal_strlit("minute");
    reveal_strlit("min");
    reveal_strlit("m");
    reveal_strlit("hours");
    reveal_strlit("hour");
    reveal_strlit("hr");
    reveal_strlit("h");
    reveal_strlit("days");
    reveal_strlit("day");
    reveal_strlit("d");
    reveal_strlit("weeks");
    reveal_strlit("week");
    reveal_strlit("w");
    reveal_strlit("months");
    reveal_strlit("month");
    reveal_strlit("mon");
    reveal_strlit("years");
    reveal_strlit("year");
    reveal_strlit("y");
    assert("usec"@.len() == 4 && "usec"@[0] == 'u' && "usec"@[1] == 's' && "usec"@[2] == 'e');
    assert("us"@.len() == 2 && "us"@[0] == 'u' && "us"@[1] == 's');
    assert("msec"@.len() == 4 && "msec"@[0] == 'm' && "msec"@[1] == 's' && "msec"@[2] == 'e');
    assert("ms"@.len() == 2 && "ms"@[0] == 'm' && "ms"@[1] == 's');
    assert("seconds"@.len() == 7 && "seconds"@[0] == 's' && "seconds"@[1] == 'e' && "seconds"@[2] == 'c');
    assert("second"@.len() == 6 && "second"@[0] == 's' && "second"@[1] == 'e' && "second"@[2] == 'c');
    assert("sec"@.len() == 3 && "sec"@[0] == 's' && "sec"@[1] == 'e' && "sec"@[2] == 'c');
    assert("s"@.len() == 1 && "s"@[0] == 's');
    assert("minutes"@.len() == 7 && "minutes"@[0] == 'm' && "minutes"@[1] == 'i' && "minutes"@[2] == 'n');
    assert("minute"@.len() == 6 && "minute"@[0] == 'm' && "minute"@[1] == 'i' && "minute"@[2] == 'n');
    assert("min"@.len() == 3 && "min"@[0] == 'm' && "min"@[1] == 'i' && "min"@[2] == 'n');
    assert("m"@.len() == 1 && "m"@[0] == 'm');
    assert("hours"@.len() == 5 && "hours"@[0] == 'h' && "hours"@[1] == 'o' && "hours"@[2] == 'u');
    assert("hour"@.len() == 4 && "hour"@[0] == 'h' && "hour"@[1] == 'o' && "hour"@[2] == 'u');
    assert("hr"@.len() == 2 && "hr"@[0] == 'h' && "hr"@[1] == 'r');
    assert("h"@.len() == 1 && "h"@[0] == 'h');
    assert("days"@.len() == 4 && "days"@[0] == 'd' && "days"@[1] == 'a' && "days"@[2] == 'y');
    assert("day"@.len() == 3 && "day"@[0] == 'd' && "day"@[1] == 'a' && "day"@[2] == 'y');
    assert("d"@.len() == 1 && "d"@[0] == 'd');
    assert("weeks"@.len() == 5 && "weeks"@[0] == 'w' && "weeks"@[1] == 'e' && "weeks"@[2] == 'e');
    assert("week"@.len() == 4 && "week"@[0] == 'w' && "week"@[1] == 'e' && "week"@[2] == 'e');
    assert("w"@.len() == 1 && "w"@[0] == 'w');
    assert("months"@.len() == 6 && "months"@[0] == 'm' && "months"@[1] == 'o' && "months"@[2] == 'n');
    assert("month"@.len() == 5 && "month"@[0] == 'm' && "month"@[1] == 'o' && "month"@[2] == 'n');
    assert("mon"@.len() == 3 && "mon"@[0] == 'm' && "mon"@[1] == 'o' && "mon"@[2] == 'n');
    assert("years"@.len() == 5 && "years"@[0] == 'y' && "years"@[1] == 'e' && "years"@[2] == 'a');
    assert("year"@.len() == 4 && "year"@[0] == 'y' && "year"@[1] == 'e' && "year"@[2] == 'a');
    assert("y"@.len() == 1 && "y"@[0] == 'y');
}

proof fn microseconds_components(n: nat)
    requires
        n * 1 < 0x20_0000_0000_0000,
    ensures
        is_worth(n, "usec"@, 1),
        is_worth(n, "us"@, 1),
{
    assert(is_worth(n, "usec"@, 1)) by {
        assert(factor_of("usec"@) == Some(1nat)) by {
            reveal_strlit("usec");
            assert(lower("usec"@) =~= "usec"@);
            units_of_time_have_these_names("usec"@);
        }
        reveal_strlit("usec");
        assert("usec"@ =~= seq!['u', 's', 'e', 'c']);
        one_component(n, "usec"@, 1);
    }
    assert(is_worth(n, "us"@, 1)) by {
        assert(factor_of("us"@) == Some(1nat)) by {
            reveal_strlit("us");
            assert(lower("us"@) =~= "us"@);
            units_of_time_have_these_names("us"@);
        }
        reveal_strlit("us");
        assert("us"@ =~= seq!['u', 's']);
        one_component(n, "us"@, 1);
    }
}

/// So many microseconds are worth that many times 1 microseconds, whichever
/// of the names is written. Exact where the microseconds have at most 53 bits.
#[verifier::spinoff_prover]
#[verifier::rlimit(60)]
pub proof fn microseconds_are_worth(n: nat)
    requires
        n * 1 < 0x20_0000_0000_0000,
    ensures
        span_of(decimal(n) + "usec"@) == Ok::<nat, Text>(n * 1),
        span_of(decimal(n) + "us"@) == Ok::<nat, Text>(n * 1),
{
    reveal(is_worth);
    microseconds_components(n);
}

proof fn milliseconds_components(n: nat)
    requires
        n * 1_000 < 0x20_0000_0000_0000,
    ensures
        is_worth(n, "msec"@, 1_000),
        is_worth(n, "ms"@, 1_000),
{
    assert(is_worth(n, "msec"@, 1_000)) by {
        assert(factor_of("msec"@) == Some(1_000nat)) by {
            reveal_strlit("msec");
            assert(lower("msec"@) =~= "msec"@);
            units_of_time_have_these_names("msec"@);
        }
        reveal_strlit("msec");
        assert("msec"@ =~= seq!['m', 's', 'e', 'c']);
        one_component(n, "msec"@, 1_000);
    }
    assert(is_worth(n, "ms"@, 1_000)) by {
        assert(factor_of("ms"@) == Some(1_000nat)) by {
            reveal_strlit("ms");
            assert(lower("ms"@) =~= "ms"@);
            units_of_time_have_these_names("ms"@);
        }
        reveal_strlit("ms");
        assert("ms"@ =~= seq!['m', 's']);
        one_component(n, "ms"@, 1_000);
    }
}

/// So many milliseconds are worth that many times 1_000 microseconds, whichever
/// of the names is written. Exact where the microseconds have at most 53 bits.
#[verifier::spinoff_prover]
#[verifier::rlimit(60)]
pub proof fn milliseconds_are_worth(n: nat)
    requires
        n * 1_000 < 0x20_0000_0000_0000,
    ensures
        span_of(decimal(n) + "msec"@) == Ok::<nat, Text>(n * 1_000),
        span_of(decimal(n) + "ms"@) == Ok::<nat, Text>(n * 1_000),
{
    reveal(is_worth);
    milliseconds_components(n);
}

proof fn seconds_components(n: nat)
    requires
        n * 1_000_000 < 0x20_0000_0000_0000,
    ensures
        is_worth(n, "seconds"@, 1_000_000),
        is_worth(n, "second"@, 1_000_000),
        is_worth(n, "sec"@, 1_000_000),
        is_worth(n, "s"@, 1_000_000),
{
    assert(is_worth(n, "seconds"@, 1_000_000)) by {
        assert(factor_of("seconds"@) == Some(1_000_000nat)) by {
            reveal_strlit("seconds");
            assert(lower("seconds"@) =~= "seconds"@);
            units_of_time_have_these_names("seconds"@);
        }
        reveal_strlit("seconds");
        assert("seconds"@ =~= seq!['s', 'e', 'c', 'o', 'n', 'd', 's']);
        one_component(n, "seconds"@, 1_000_000);
    }
    assert(is_worth(n, "second"@, 1_000_000)) by {
        assert(factor_of("second"@) == Some(1_000_000nat)) by {
            reveal_strlit("second");
            assert(lower("second"@) =~= "second"@);
            units_of_time_have_these_names("second"@);
        }
        reveal_strlit("second");
        assert("second"@ =~= seq!['s', 'e', 'c', 'o', 'n', 'd']);
        one_component(n, "second"@, 1_000_000);
    }
    assert(is_worth(n, "sec"@, 1_000_000)) by {
        assert(factor_of("sec"@) == Some(1_000_000nat)) by {
            reveal_strlit("sec");
            assert(lower("sec"@) =~= "sec"@);
            units_of_time_have_these_names("sec"@);
        }
        reveal_strlit("sec");
        assert("sec"@ =~= seq!['s', 'e', 'c']);
        one_component(n, "sec"@, 1_000_000);
    }
    assert(is_worth(n, "s"@, 1_000_000)) by {
        assert(factor_of("s"@) == Some(1_000_000nat)) by {
            reveal_strlit("s");
            assert(lower("s"@) =~= "s"@);
            units_of_time_have_these_names("s"@);
        }
        reveal_strlit("s");
        assert("s"@ =~= seq!['s']);
        one_component(n, "s"@, 1_000_000);
    }
}

/// So many seconds are worth that many times 1_000_000 microseconds, whichever
/// of the names is written. Exact where the microseconds have at most 53 bits.
#[verifier::spinoff_prover]
#[verifier::rlimit(60)]
pub proof fn seconds_are_worth(n: nat)
    requires
        n * 1_000_000 < 0x20_0000_0000_0000,
    ensures
        span_of(decimal(n) + "seconds"@) == Ok::<nat, Text>(n * 1_000_000),
        span_of(decimal(n) + "second"@) == Ok::<nat, Text>(n * 1_000_000),
        span_of(decimal(n) + "sec"@) == Ok::<nat, Text>(n * 1_000_000),
        span_of(decimal(n) + "s"@) == Ok::<nat, Text>(n * 1_000_000),
{
    reveal(is_worth);
    seconds_components(n);
}

proof fn minutes_components(n: nat)
    requires
        n * 60_000_000 < 0x20_0000_0000_0000,
    ensures
        is_worth(n, "minutes"@, 60_000_000),
        is_worth(n, "minute"@, 60_000_000),
        is_worth(n, "min"@, 60_000_000),
        is_worth(n, "m"@, 60_000_000),
{
    assert(is_worth(n, "minutes"@, 60_000_000)) by {
        assert(factor_of("minutes"@) == Some(60_000_000nat)) by {
            reveal_strlit("minutes");
            assert(lower("minutes"@) =~= "minutes"@);
            units_of_time_have_these_names("minutes"@);
        }
        reveal_strlit("minutes");
        assert("minutes"@ =~= seq!['m', 'i', 'n', 'u', 't', 'e', 's']);
        one_component(n, "minutes"@, 60_000_000);
    }
    assert(is_worth(n, "minute"@, 60_000_000)) by {
        assert(factor_of("minute"@) == Some(60_000_000nat)) by {
            reveal_strlit("minute");
            assert(lower("minute"@) =~= "minute"@);
            units_of_time_have_these_names("minute"@);
        }
        reveal_strlit("minute");
        assert("minute"@ =~= seq!['m', 'i', 'n', 'u', 't', 'e']);
        one_component(n, "minute"@, 60_000_000);
    }
    assert(is_worth(n, "min"@, 60_000_000)) by {
        assert(factor_of("min"@) == Some(60_000_000nat)) by {
            reveal_strlit("min");
            assert(lower("min"@) =~= "min"@);
            units_of_time_have_these_names("min"@);
        }
        reveal_strlit("min");
        assert("min"@ =~= seq!['m', 'i', 'n']);
        one_component(n, "min"@, 60_000_000);
    }
    assert(is_worth(n, "m"@, 60_000_000)) by {
        assert(factor_of("m"@) == Some(60_000_000nat)) by {
            reveal_strlit("m");
            assert(lower("m"@) =~= "m"@);
            units_of_time_have_these_names("m"@);
        }
        reveal_strlit("m");
        assert("m"@ =~= seq!['m']);
        one_component(n, "m"@, 60_000_000);
    }
}

/// So many minutes are worth that many times 60_000_000 microseconds, whichever
/// of the names is written. Exact where the microseconds have at most 53 bits.
#[verifier::spinoff_prover]
#[verifier::rlimit(60)]
pub proof fn minutes_are_worth(n: nat)
    requires
        n * 60_000_000 < 0x20_0000_0000_0000,
    ensures
        span_of(decimal(n) + "minutes"@) == Ok::<nat, Text>(n * 60_000_000),
        span_of(decimal(n) + "minute"@) == Ok::<nat, Text>(n * 60_000_000),
        span_of(decimal(n) + "min"@) == Ok::<nat, Text>(n * 60_000_000),
        span_of(decimal(n) + "m"@) == Ok::<nat, Text>(n * 60_000_000),
{
    reveal(is_worth);
    minutes_components(n);
}

proof fn hours_components(n: nat)
    requires
        n * 3_600_000_000 < 0x20_0000_0000_0000,
    ensures
        is_worth(n, "hours"@, 3_600_000_000),
        is_worth(n, "hour"@, 3_600_000_000),
        is_worth(n, "hr"@, 3_600_000_000),
        is_worth(n, "h"@, 3_600_000_000),
{
    assert(is_worth(n, "hours"@, 3_600_000_000)) by {
        assert(factor_of("hours"@) == Some(3_600_000_000nat)) by {
            reveal_strlit("hours");
            assert(lower("hours"@) =~= "hours"@);
            units_of_time_have_these_names("hours"@);
        }
        reveal_strlit("hours");
        assert("hours"@ =~= seq!['h', 'o', 'u', 'r', 's']);
        one_component(n, "hours"@, 3_600_000_000);
    }
    assert(is_worth(n, "hour"@, 3_600_000_000)) by {
        assert(factor_of("hour"@) == Some(3_600_000_000nat)) by {
            reveal_strlit("hour");
            assert(lower("hour"@) =~= "hour"@);
            units_of_time_have_these_names("hour"@);
        }
        reveal_strlit("hour");
        assert("hour"@ =~= seq!['h', 'o', 'u', 'r']);
        one_component(n, "hour"@, 3_600_000_000);
    }
    assert(is_worth(n, "hr"@, 3_600_000_000)) by {
        assert(factor_of("hr"@) == Some(3_600_000_000nat)) by {
            reveal_strlit("hr");
            assert(lower("hr"@) =~= "hr"@);
            units_of_time_have_these_names("hr"@);
        }
        reveal_strlit("hr");
        assert("hr"@ =~= seq!['h', 'r']);
        one_component(n, "hr"@, 3_600_000_000);
    }
    assert(is_worth(n, "h"@, 3_600_000_000)) by {
        assert(factor_of("h"@) == Some(3_600_000_000nat)) by {
            reveal_strlit("h");
            assert(lower("h"@) =~= "h"@);
            units_of_time_have_these_names("h"@);
        }
        reveal_strlit("h");
        assert("h"@ =~= seq!['h']);
        one_component(n, "h"@, 3_600_000_000);
    }
}

/// So many hours are worth that many times 3_600_000_000 microseconds, whichever
/// of the names is written. Exact where the microseconds have at most 53 bits.
#[verifier::spinoff_prover]
#[verifier::rlimit(60)]
pub proof fn hours_are_worth(n: nat)
    requires
        n * 3_600_000_000 < 0x20_0000_0000_0000,
    ensures
        span_of(decimal(n) + "hours"@) == Ok::<nat, Text>(n * 3_600_000_000),
        span_of(decimal(n) + "hour"@) == Ok::<nat, Text>(n * 3_600_000_000),
        span_of(decimal(n) + "hr"@) == Ok::<nat, Text>(n * 3_600_000_000),
        span_of(decimal(n) + "h"@) == Ok::<nat, Text>(n * 3_600_000_000),
{
    reveal(is_worth);
    hours_components(n);
}

proof fn days_components(n: nat)
    requires
        n * 86_400_000_000 < 0x20_0000_0000_0000,
    ensures
        is_worth(n, "days"@, 86_400_000_000),
        is_worth(n, "day"@, 86_400_000_000),
        is_worth(n, "d"@, 86_400_000_000),
{
    assert(is_worth(n, "days"@, 86_400_000_000)) by {
        assert(factor_of("days"@) == Some(86_400_000_000nat)) by {
            reveal_strlit("days");
            assert(lower("days"@) =~= "days"@);
            units_of_time_have_these_names("days"@);
        }
        reveal_strlit("days");
        assert("days"@ =~= seq!['d', 'a', 'y', 's']);
        one_component(n, "days"@, 86_400_000_000);
    }
    assert(is_worth(n, "day"@, 86_400_000_000)) by {
        assert(factor_of("day"@) == Some(86_400_000_000nat)) by {
            reveal_strlit("day");
            assert(lower("day"@) =~= "day"@);
            units_of_time_have_these_names("day"@);
        }
        reveal_strlit("day");
        assert("day"@ =~= seq!['d', 'a', 'y']);
        one_component(n, "day"@, 86_400_000_000);
    }
    assert(is_worth(n, "d"@, 86_400_000_000)) by {
        assert(factor_of("d"@) == Some(86_400_000_000nat)) by {
            reveal_strlit("d");
            assert(lower("d"@) =~= "d"@);
            units_of_time_have_these_names("d"@);
        }
        reveal_strlit("d");
        assert("d"@ =~= seq!['d']);
        one_component(n, "d"@, 86_400_000_000);
    }
}

/// So many days are worth that many times 86_400_000_000 microseconds, whichever
/// of the names is written. Exact where the microseconds have at most 53 bits.
#[verifier::spinoff_prover]
#[verifier::rlimit(60)]
pub proof fn days_are_worth(n: nat)
    requires
        n * 86_400_000_000 < 0x20_0000_0000_0000,
    ensures
        span_of(decimal(n) + "days"@) == Ok::<nat, Text>(n * 86_400_000_000),
        span_of(decimal(n) + "day"@) == Ok::<nat, Text>(n * 86_400_000_000),
        span_of(decimal(n) + "d"@) == Ok::<nat, Text>(n * 86_400_000_000),
{
    reveal(is_worth);
    days_components(n);
}

proof fn weeks_components(n: nat)
    requires
        n * 604_800_000_000 < 0x20_0000_0000_0000,
    ensures
        is_worth(n, "weeks"@, 604_800_000_000),
        is_worth(n, "week"@, 604_800_000_000),
        is_worth(n, "w"@, 604_800_000_000),
{
    assert(is_worth(n, "weeks"@, 604_800_000_000)) by {
        assert(factor_of("weeks"@) == Some(604_800_000_000nat)) by {
            reveal_strlit("weeks");
            assert(lower("weeks"@) =~= "weeks"@);
            units_of_time_have_these_names("weeks"@);
        }
        reveal_strlit("weeks");
        assert("weeks"@ =~= seq!['w', 'e', 'e', 'k', 's']);
        one_component(n, "weeks"@, 604_800_000_000);
    }
    assert(is_worth(n, "week"@, 604_800_000_000)) by {
        assert(factor_of("week"@) == Some(604_800_000_000nat)) by {
            reveal_strlit("week");
            assert(lower("week"@) =~= "week"@);
            units_of_time_have_these_names("week"@);
        }
        reveal_strlit("week");
        assert("week"@ =~= seq!['w', 'e', 'e', 'k']);
        one_component(n, "week"@, 604_800_000_000);
    }
    assert(is_worth(n, "w"@, 604_800_000_000)) by {
        assert(factor_of("w"@) == Some(604_800_000_000nat)) by {
            reveal_strlit("w");
            assert(lower("w"@) =~= "w"@);
            units_of_time_have_these_names("w"@);
        }
        reveal_strlit("w");
        assert("w"@ =~= seq!['w']);
        one_component(n, "w"@, 604_800_000_000);
    }
}

/// So many weeks are worth that many times 604_800_000_000 microseconds, whichever
/// of the names is written. Exact where the microseconds have at most 53 bits.
#[verifier::spinoff_prover]
#[verifier::rlimit(60)]
pub proof fn weeks_are_worth(n: nat)
    requires
        n * 604_800_000_000 < 0x20_0000_0000_0000,
    ensures
        span_of(decimal(n) + "weeks"@) == Ok::<nat, Text>(n * 604_800_000_000),
        span_of(decimal(n) + "week"@) == Ok::<nat, Text>(n * 604_800_000_000),
        span_of(decimal(n) + "w"@) == Ok::<nat, Text>(n * 604_800_000_000),
{
    reveal(is_worth);
    weeks_components(n);
}

proof fn months_components(n: nat)
    requires
        n * 2_629_800_000_000 < 0x20_0000_0000_0000,
    ensures
        is_worth(n, "months"@, 2_629_800_000_000),
        is_worth(n, "month"@, 2_629_800_000_000),
        is_worth(n, "mon"@, 2_629_800_000_000),
{
    assert(is_worth(n, "months"@, 2_629_800_000_000)) by {
        assert(factor_of("months"@) == Some(2_629_800_000_000nat)) by {
            reveal_strlit("months");
            assert(lower("months"@) =~= "months"@);
            units_of_time_have_these_names("months"@);
        }
        reveal_strlit("months");
        assert("months"@ =~= seq!['m', 'o', 'n', 't', 'h', 's']);
        one_component(n, "months"@, 2_629_800_000_000);
    }
    assert(is_worth(n, "month"@, 2_629_800_000_000)) by {
        assert(factor_of("month"@) == Some(2_629_800_000_000nat)) by {
            reveal_strlit("month");
            assert(lower("month"@) =~= "month"@);
            units_of_time_have_these_names("month"@);
        }
        reveal_strlit("month");
        assert("month"@ =~= seq!['m', 'o', 'n', 't', 'h']);
        one_component(n, "month"@, 2_629_800_000_000);
    }
    assert(is_worth(n, "mon"@, 2_629_800_000_000)) by {
        assert(factor_of("mon"@) == Some(2_629_800_000_000nat)) by {
            reveal_strlit("mon");
            assert(lower("mon"@) =~= "mon"@);
            units_of_time_have_these_names("mon"@);
        }
        reveal_strlit("mon");
        assert("mon"@ =~= seq!['m', 'o', 'n']);
        one_component(n, "mon"@, 2_629_800_000_000);
    }
}

/// So many months are worth that many times 2_629_800_000_000 microseconds, whichever
/// of the names is written. Exact where the microseconds have at most 53 bits.
#[verifier::spinoff_prover]
#[verifier::rlimit(60)]
pub proof fn months_are_worth(n: nat)
    requires
        n * 2_629_800_000_000 < 0x20_0000_0000_0000,
    ensures
        span_of(decimal(n) + "months"@) == Ok::<nat, Text>(n * 2_629_800_000_000),
        span_of(decimal(n) + "month"@) == Ok::<nat, Text>(n * 2_629_800_000_000),
        span_of(decimal(n) + "mon"@) == Ok::<nat, Text>(n * 2_629_800_000_000),
{
    reveal(is_worth);
    months_components(n);
}

proof fn years_components(n: nat)
    requires
        n * 31_557_600_000_000 < 0x20_0000_0000_0000,
    ensures
        is_worth(n, "years"@, 31_557_600_000_000),
        is_worth(n, "year"@, 31_557_600_000_000),
        is_worth(n, "y"@, 31_557_600_000_000),
{
    assert(is_worth(n, "years"@, 31_557_600_000_000)) by {
        assert(factor_of("years"@) == Some(31_557_600_000_000nat)) by {
            reveal_strlit("years");
            assert(lower("years"@) =~= "years"@);
            units_of_time_have_these_names("years"@);
        }
        reveal_strlit("years");
        assert("years"@ =~= seq!['y', 'e', 'a', 'r', 's']);
        one_component(n, "years"@, 31_557_600_000_000);
    }
    assert(is_worth(n, "year"@, 31_557_600_000_000)) by {
        assert(factor_of("year"@) == Some(31_557_600_000_000nat)) by {
            reveal_strlit("year");
            assert(lower("year"@) =~= "year"@);
            units_of_time_have_these_names("year"@);
        }
        reveal_strlit("year");
        assert("year"@ =~= seq!['y', 'e', 'a', 'r']);
        one_component(n, "year"@, 31_557_600_000_000);
    }
    assert(is_worth(n, "y"@, 31_557_600_000_000)) by {
        assert(factor_of("y"@) == Some(31_557_600_000_000nat)) by {
            reveal_strlit("y");
            assert(lower("y"@) =~= "y"@);
            units_of_time_have_these_names("y"@);
        }
        reveal_strlit("y");
        assert("y"@ =~= seq!['y']);
        one_component(n, "y"@, 31_557_600_000_000);
    }
}

/// So many years are worth that many times 31_557_600_000_000 microseconds, whichever
/// of the names is written. Exact where the microseconds have at most 53 bits.
#[verifier::spinoff_prover]
#[verifier::rlimit(60)]
pub proof fn years_are_worth(n: nat)
    requires
        n * 31_557_600_000_000 < 0x20_0000_0000_0000,
    ensures
        span_of(decimal(n) + "years"@) == Ok::<nat, Text>(n * 31_557_600_000_000),
        span_of(decimal(n) + "year"@) == Ok::<nat, Text>(n * 31_557_600_000_000),
        span_of(decimal(n) + "y"@) == Ok::<nat, Text>(n * 31_557_600_000_000),
{
    reveal(is_worth);
    years_components(n);
}

/// Any text that spells `infinity` is the largest span, and no sum of
/// components is read as another one.
pub proof fn infinity_is_the_largest_span(s: Text)
    ensures
        lower(trimmed(s)) == "infinity"@ ==> span_of(s) == Ok::<nat, Text>(0xffff_ffff_ffff_ffff),
        span_of(s) is Ok ==> span_of(s)->Ok_0 <= 0xffff_ffff_ffff_ffff,
{
    reveal_strlit("infinity");
    assert("infinity"@ =~= seq!['i', 'n', 'f', 'i', 'n', 'i', 't', 'y']);
    assert(lower("infinity"@) =~= "infinity"@);
    if span_of(s) is Ok && lower(trimmed(s)) != lower("infinity"@) {
        sum_fits(trimmed(s), trimmed(s), 0);
    }
}

proof fn sum_fits(whole: Text, rest: Text, total: nat)
    requires
        total <= INFINITY_USEC,
        sum(whole, rest, total) is Ok,
    ensures
        sum(whole, rest, total)->Ok_0 <= INFINITY_USEC,
    decreases rest.len(),
{
    let r = trimmed_start(rest);
    let k = find(r, number_end()) as int;
    let tail = r.skip(k);
    let j = find(tail, unit_end()) as int;
    find_first(rest, non_spaces());
    find_first(r, number_end());
    find_first(tail, unit_end());
    if r.len() > 0 {
        let f = factor_of(tail.take(j))->0;
        sum_fits(whole, tail.skip(j), total + amount(r.take(k), f));
    }
}

/// Less than a minute is shown in seconds; read back it is that time.
pub proof fn shown_seconds_read_back(s: nat)
    requires
        s < 60,
    ensures
        left_text(s) == decimal(s) + "s"@,
        span_of(left_text(s)) == Ok::<nat, Text>(s * 1_000_000),
{
    seconds_components(s);
    reveal(is_worth);
}

/// Less than an hour is shown in whole minutes; read back it is that many.
pub proof fn shown_minutes_read_back(m: nat, s: nat)
    requires
        1 <= m < 60,
        s < 60,
    ensures
        left_text(m * 60 + s) == decimal(m) + "min"@,
        span_of(left_text(m * 60 + s)) == Ok::<nat, Text>(m * 60_000_000),
{
    assert((m * 60 + s) / 60 == m);
    minutes_components(m);
    reveal(is_worth);
}

proof fn hours_then_minutes(h: nat, m: nat)
    requires
        h < 24,
        m < 60,
        is_worth(h, "h"@, 3_600_000_000),
        is_worth(m, "min"@, 60_000_000),
    ensures
        span_of((decimal(h) + "h"@) + seq![' '] + (decimal(m) + "min"@)) == Ok::<nat, Text>(
            h * 3_600_000_000 + m * 60_000_000,
        ),
{
    let a = decimal(h) + "h"@;
    let b = decimal(m) + "min"@;
    assert(lower(trimmed(a)) != lower("infinity"@)) by {
        reveal_strlit("h");
        starts_with_a_digit(h, "h"@);
    }
    assert(lower(trimmed(b)) != lower("infinity"@)) by {
        reveal_strlit("min");
        starts_with_a_digit(m, "min"@);
    }
    let x = span_of(a);
    let y = span_of(b);
    assert(x == Ok::<nat, Text>(h * 3_600_000_000) && y == Ok::<nat, Text>(m * 60_000_000)) by {
        reveal(is_worth);
    }
    spans_add_up(a, b);
}

/// Less than a day is shown in hours and whole minutes; read back it is that
/// many.
#[verifier::spinoff_prover]
#[verifier::rlimit(60)]
pub proof fn shown_hours_read_back(h: nat, m: nat, s: nat)
    requires
        1 <= h < 24,
        m < 60,
        s < 60,
    ensures
        span_of(left_text(h * 3600 + m * 60 + s)) == Ok::<nat, Text>(
            h * 3_600_000_000 + m * 60_000_000,
        ),
{
    let secs = h * 3600 + m * 60 + s;
    assert(secs / 3600 == h);
    assert((secs % 3600) / 60 == m);
    hours_components(h);
    minutes_components(m);
    if m > 0 {
        assert(left_text(secs) == (decimal(h) + "h"@) + seq![' '] + (decimal(m) + "min"@)) by {
            reveal_strlit("h ");
            reveal_strlit("h");
            assert("h "@ =~= "h"@ + seq![' ']);
            assert(left_text(secs) =~= (decimal(h) + "h"@) + seq![' '] + (decimal(m) + "min"@));
        }
        hours_then_minutes(h, m);
    } else {
        reveal(is_worth);
    }
}

/// From a day on, whole days are shown.
pub proof fn shown_days_are_whole(d: nat, s: nat)
    requires
        d >= 1,
        s < 86_400,
    ensures
        left_text(d * 86_400 + s) == decimal(d) + if d == 1 {
            " day"@
        } else {
            " days"@
        },
{
    assert((d * 86_400 + s) / 86_400 == d);
}

/// A number with letters behind it does not spell `infinity`.
proof fn starts_with_a_digit(n: nat, unit: Text)
    requires
        unit.len() > 0,
        !is_space(unit.last()),
    ensures
        lower(trimmed(decimal(n) + unit)) != lower("infinity"@),
{
    let s = decimal(n) + unit;
    decimal_reads_back(n);
    assert(s[0] == decimal(n)[0]);
    assert(s.last() == unit.last());
    trimmed_is_the_rest(seq![], s, seq![]);
    assert(seq![] + s + seq![] =~= s);
    reveal_strlit("infinity");
    assert("infinity"@[0] == 'i');
    assert(lower(s)[0] == s[0]);
    assert(lower("infinity"@)[0] == 'i');
}

/// What is wrong with a time span is said with the span: a number without a unit, a unit
/// without a number, a name that no unit has, or a sum that does not fit.
pub proof fn refused_spans_are_named(whole: Text, rest: Text, total: nat)
    ensures
        trimmed(whole).len() == 0 ==> span_of(whole) == Err::<nat, Text>("empty time span"@),
        ({
            let r = trimmed_start(rest);
            let k = find(r, number_end()) as int;
            let num = r.take(k);
            let tail = r.skip(k);
            let unit = tail.take(find(tail, unit_end()) as int);
            let e = sum(whole, rest, total);
            &&& r.len() > 0 && k == 0 ==> e == Err::<nat, Text>(
                "missing number in time span `"@ + whole + "`"@,
            )
            &&& k > 0 && num.last() == '.' ==> e == Err::<nat, Text>(
                "missing number in time span `"@ + whole + "`"@,
            )
            &&& k > 0 && num.last() != '.' && decimal_parts(num) is None ==> e == Err::<nat, Text>(
                "invalid number `"@ + num + "` in time span `"@ + whole + "`"@,
            )
            &&& k > 0 && num.last() != '.' && decimal_parts(num) is Some ==> {
                &&& unit.len() == 0 ==> e == Err::<nat, Text>(
                    "missing unit after `"@ + num + "` in time span `"@ + whole + "`"@,
                )
                &&& unit.len() > 0 && factor_of(unit) is None ==> e == Err::<nat, Text>(
                    "invalid time unit `"@ + unit + "` in time span `"@ + whole + "`"@,
                )
                &&& unit.len() > 0 && factor_of(unit) is Some && total + amount(
                    num,
                    factor_of(unit)->0,
                ) > 0xffff_ffff_ffff_ffff ==> e == Err::<nat, Text>(
                    "time span `"@ + whole + "` overflows"@,
                )
            }
        }),
{
    let r = trimmed_start(rest);
    find_first(r, number_end());
    let tail = r.skip(find(r, number_end()) as int);
    find_first(tail, unit_end());
    reveal_strlit("infinity");
    if trimmed(whole).len() == 0 {
        assert(lower(trimmed(whole)).len() == 0);
        assert(lower("infinity"@).len() == 8);
    }
}

/// What is left is shown in days, in hours and minutes, in minutes, or in seconds.
pub proof fn time_left_is_shown(d: nat, h: nat, m: nat, s: nat)
    requires
        h < 24,
        m < 60,
        s < 60,
    ensures
        d > 1 ==> left_text(d * 86_400 + h * 3600 + m * 60 + s) == decimal(d) + " days"@,
        left_text(86_400 + h * 3600 + m * 60 + s) == decimal(1) + " day"@,
        h > 0 && m > 0 ==> left_text(h * 3600 + m * 60 + s) == decimal(h) + "h "@ + decimal(m)
            + "min"@,
        h > 0 ==> left_text(h * 3600 + s) == decimal(h) + "h"@,
        m > 0 ==> left_text(m * 60 + s) == decimal(m) + "min"@,
        left_text(s) == decimal(s) + "s"@,
{
    let x = h * 3600 + m * 60 + s;
    assert(x < 86_400);
    assert((d * 86_400 + x) / 86_400 == d);
    assert((86_400 + x) / 86_400 == 1);
    assert(x / 3600 == h && x % 3600 == m * 60 + s);
    assert((m * 60 + s) / 60 == m);
    assert((h * 3600 + s) / 3600 == h && (h * 3600 + s) % 3600 == s && s / 60 == 0);
}

} // verus!
