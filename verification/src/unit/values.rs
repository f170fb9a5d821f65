//! The values of unit-file settings: exit statuses, signals, sizes, limits,
//! booleans and streams.

use vstd::prelude::*;
use vstd::string::*;

use crate::platform::signal::{is_signal, signal_name, Signal};
use crate::text::{
    after_prefix, begins, blank_has_no_words, cat3, cut, cut_text, decimal, decimal_reads_back, digits, digits_grow,
    is_blank, lower, number, owned, parse_i32, parse_number, remove_char, same, same_ignore_case, signed32,
    split_once, split_once_text, split_words, strip_char, strip_prefix, texts, to_lower, to_upper,
    trim, trimmed, unsigned, upper, without, words, words_join, Text,
};

verus! {

/// A result over a plain value, as specifications see it.
pub open spec fn plain_result<T>(r: Result<T, String>) -> Result<T, Text> {
    match r {
        Ok(v) => Ok(v),
        Err(e) => Err(e@),
    }
}

// ---- exit statuses and signals --------------------------------------------------

/// A set of exit codes, in inclusive ranges, and of signals.
#[derive(Debug, Clone)]
pub struct ExitCodeSet {
    pub codes: Vec<(u32, u32)>,
    pub signals: Vec<i32>,
}

/// A set of exit statuses, as specifications see it.
#[verifier::ext_equal]
pub ghost struct Statuses {
    pub codes: Seq<(u32, u32)>,
    pub signals: Seq<i32>,
}

impl View for ExitCodeSet {
    type V = Statuses;

    open spec fn view(&self) -> Statuses {
        Statuses { codes: self.codes@, signals: self.signals@ }
    }
}

/// The exit code as an unsigned number.
pub open spec fn unsigned_code(c: i32) -> int {
    if c < 0 {
        c + 0x1_0000_0000
    } else {
        c as int
    }
}

/// Is the code in one of the ranges?
pub open spec fn in_ranges(codes: Seq<(u32, u32)>, n: int) -> bool {
    exists|i: int| 0 <= i < codes.len() && (#[trigger] codes[i]).0 <= n <= codes[i].1
}

/// Does an exit count as success? With no ranges the code 0 does.
pub open spec fn counts(s: Statuses, code: Option<i32>, signal: Option<i32>) -> bool {
    match (code, signal) {
        (Some(c), None) => in_ranges(s.codes, unsigned_code(c)) || (s.codes.len() == 0 && c == 0),
        (None, Some(n)) => s.signals.contains(n),
        _ => false,
    }
}

impl ExitCodeSet {
    /// Exit code 0.
    pub fn default_success() -> (r: ExitCodeSet)
        ensures
            r@ == (Statuses { codes: seq![(0u32, 0u32)], signals: seq![] }),
    {
        let mut codes: Vec<(u32, u32)> = Vec::new();
        codes.push((0, 0));
        let r = ExitCodeSet { codes, signals: Vec::new() };
        assert(r@ =~= (Statuses { codes: seq![(0u32, 0u32)], signals: seq![] }));
        r
    }

    /// Does the exit count as success? `code` is that of a process that exited,
    /// `signal` the one that killed it.
    pub fn matches(&self, code: Option<i32>, signal: Option<i32>) -> (r: bool)
        ensures
            r == counts(self@, code, signal),
    {
        match (code, signal) {
            (Some(c), None) => {
                let n: i64 = if c < 0 {
                    c as i64 + 0x1_0000_0000
                } else {
                    c as i64
                };
                let mut i: usize = 0;
                while i < self.codes.len()
                    invariant
                        i <= self.codes.len(),
                        code == Some(c) && signal is None,
                        n == unsigned_code(c),
                        forall|j: int|
                            0 <= j < i ==> !((#[trigger] self.codes@[j]).0 <= n
                                <= self.codes@[j].1),
                    decreases self.codes.len() - i,
                {
                    let (lo, hi) = self.codes[i];
                    if lo as i64 <= n && n <= hi as i64 {
                        assert(self.codes@[i as int].0 <= n <= self.codes@[i as int].1);
                        assert(in_ranges(self@.codes, unsigned_code(c)));
                        return true;
                    }
                    i = i + 1;
                }
                self.codes.len() == 0 && c == 0
            },
            (None, Some(sig)) => {
                let mut i: usize = 0;
                while i < self.signals.len()
                    invariant
                        i <= self.signals.len(),
                        code is None && signal == Some(sig),
                        forall|j: int| 0 <= j < i ==> #[trigger] self.signals@[j] != sig,
                    decreases self.signals.len() - i,
                {
                    if self.signals[i] == sig {
                        assert(self@.signals[i as int] == sig);
                        return true;
                    }
                    i = i + 1;
                }
                false
            },
            _ => false,
        }
    }
}

/// The code of a `sysexits(3)` name in upper case, without `EX_`.
pub open spec fn sysexit_code(s: Text) -> Option<u32> {
    if s == "OK"@ || s == "SUCCESS"@ {
        Some(0)
    } else if s == "FAILURE"@ {
        Some(1)
    } else if s == "USAGE"@ {
        Some(64)
    } else if s == "DATAERR"@ {
        Some(65)
    } else if s == "NOINPUT"@ {
        Some(66)
    } else if s == "NOUSER"@ {
        Some(67)
    } else if s == "NOHOST"@ {
        Some(68)
    } else if s == "UNAVAILABLE"@ {
        Some(69)
    } else if s == "SOFTWARE"@ {
        Some(70)
    } else if s == "OSERR"@ {
        Some(71)
    } else if s == "OSFILE"@ {
        Some(72)
    } else if s == "CANTCREAT"@ {
        Some(73)
    } else if s == "IOERR"@ {
        Some(74)
    } else if s == "TEMPFAIL"@ {
        Some(75)
    } else if s == "PROTOCOL"@ {
        Some(76)
    } else if s == "NOPERM"@ {
        Some(77)
    } else if s == "CONFIG"@ {
        Some(78)
    } else {
        None
    }
}

/// The code of a `sysexits(3)` name.
pub open spec fn sysexit_of(s: Text) -> Option<u32> {
    let u = upper(s);
    match after_prefix(u, "EX_"@) {
        Some(t) => sysexit_code(t),
        None => sysexit_code(u),
    }
}

fn sysexit_number(s: &str) -> (r: Option<u32>)
    ensures
        r == sysexit_code(s@),
{
    if same(s, "OK") || same(s, "SUCCESS") {
        Some(0)
    } else if same(s, "FAILURE") {
        Some(1)
    } else if same(s, "USAGE") {
        Some(64)
    } else if same(s, "DATAERR") {
        Some(65)
    } else if same(s, "NOINPUT") {
        Some(66)
    } else if same(s, "NOUSER") {
        Some(67)
    } else if same(s, "NOHOST") {
        Some(68)
    } else if same(s, "UNAVAILABLE") {
        Some(69)
    } else if same(s, "SOFTWARE") {
        Some(70)
    } else if same(s, "OSERR") {
        Some(71)
    } else if same(s, "OSFILE") {
        Some(72)
    } else if same(s, "CANTCREAT") {
        Some(73)
    } else if same(s, "IOERR") {
        Some(74)
    } else if same(s, "TEMPFAIL") {
        Some(75)
    } else if same(s, "PROTOCOL") {
        Some(76)
    } else if same(s, "NOPERM") {
        Some(77)
    } else if same(s, "CONFIG") {
        Some(78)
    } else {
        None
    }
}

/// The exit code of a `sysexits(3)` name (`EX_DATAERR`, `DATAERR`, `SUCCESS`,
/// ...), in any case; the `EX_` is optional.
pub fn sysexit_from_name(s: &str) -> (r: Option<u32>)
    ensures
        r == sysexit_of(s@),
{
    let u = to_upper(s);
    match strip_prefix(u.as_str(), "EX_") {
        Some(t) => sysexit_number(t),
        None => sysexit_number(u.as_str()),
    }
}

/// The number of a signal's name in upper case, without `SIG`.
pub open spec fn signal_number(s: Text) -> Option<i32> {
    if s == "HUP"@ {
        Some(1)
    } else if s == "INT"@ {
        Some(2)
    } else if s == "QUIT"@ {
        Some(3)
    } else if s == "ILL"@ {
        Some(4)
    } else if s == "TRAP"@ {
        Some(5)
    } else if s == "ABRT"@ {
        Some(6)
    } else if s == "BUS"@ {
        Some(7)
    } else if s == "FPE"@ {
        Some(8)
    } else if s == "KILL"@ {
        Some(9)
    } else if s == "USR1"@ {
        Some(10)
    } else if s == "SEGV"@ {
        Some(11)
    } else if s == "USR2"@ {
        Some(12)
    } else if s == "PIPE"@ {
        Some(13)
    } else if s == "ALRM"@ {
        Some(14)
    } else if s == "TERM"@ {
        Some(15)
    } else if s == "CHLD"@ {
        Some(17)
    } else if s == "CONT"@ {
        Some(18)
    } else if s == "STOP"@ {
        Some(19)
    } else if s == "TSTP"@ {
        Some(20)
    } else if s == "TTIN"@ {
        Some(21)
    } else if s == "TTOU"@ {
        Some(22)
    } else if s == "URG"@ {
        Some(23)
    } else if s == "XCPU"@ {
        Some(24)
    } else if s == "XFSZ"@ {
        Some(25)
    } else if s == "VTALRM"@ {
        Some(26)
    } else if s == "PROF"@ {
        Some(27)
    } else if s == "WINCH"@ {
        Some(28)
    } else if s == "IO"@ {
        Some(29)
    } else if s == "PWR"@ {
        Some(30)
    } else if s == "SYS"@ {
        Some(31)
    } else {
        None
    }
}

fn named_signal(s: &str) -> (r: Option<i32>)
    ensures
        r == signal_number(s@),
        r is Some ==> is_signal(r->0 as int),
{
    if same(s, "HUP") {
        Some(1)
    } else if same(s, "INT") {
        Some(2)
    } else if same(s, "QUIT") {
        Some(3)
    } else if same(s, "ILL") {
        Some(4)
    } else if same(s, "TRAP") {
        Some(5)
    } else if same(s, "ABRT") {
        Some(6)
    } else if same(s, "BUS") {
        Some(7)
    } else if same(s, "FPE") {
        Some(8)
    } else if same(s, "KILL") {
        Some(9)
    } else if same(s, "USR1") {
        Some(10)
    } else if same(s, "SEGV") {
        Some(11)
    } else if same(s, "USR2") {
        Some(12)
    } else if same(s, "PIPE") {
        Some(13)
    } else if same(s, "ALRM") {
        Some(14)
    } else if same(s, "TERM") {
        Some(15)
    } else if same(s, "CHLD") {
        Some(17)
    } else if same(s, "CONT") {
        Some(18)
    } else if same(s, "STOP") {
        Some(19)
    } else if same(s, "TSTP") {
        Some(20)
    } else if same(s, "TTIN") {
        Some(21)
    } else if same(s, "TTOU") {
        Some(22)
    } else if same(s, "URG") {
        Some(23)
    } else if same(s, "XCPU") {
        Some(24)
    } else if same(s, "XFSZ") {
        Some(25)
    } else if same(s, "VTALRM") {
        Some(26)
    } else if same(s, "PROF") {
        Some(27)
    } else if same(s, "WINCH") {
        Some(28)
    } else if same(s, "IO") {
        Some(29)
    } else if same(s, "PWR") {
        Some(30)
    } else if same(s, "SYS") {
        Some(31)
    } else {
        None
    }
}

/// The signal that a text names: by name, with or without `SIG`, or by number.
pub open spec fn signal_of(s: Text) -> Option<int> {
    let t = match after_prefix(s, "SIG"@) {
        Some(t) => t,
        None => s,
    };
    match signed32(t) {
        Some(n) => if is_signal(n) {
            Some(n)
        } else {
            None
        },
        None => match signal_number(upper(t)) {
            Some(n) => Some(n as int),
            None => None,
        },
    }
}

/// A name of a signal is read as its number: it starts with a letter, and is
/// written in capitals.
proof fn named_signal_reads_back(shown: Text, name: Text, n: int)
    requires
        after_prefix(shown, "SIG"@) == Some(name),
        name.len() > 0,
        'A' <= name[0] <= 'Z',
        upper(name) == name,
        signal_number(name) == Some(n as i32),
        1 <= n <= 31,
    ensures
        signal_of(shown) == Some(n),
{
    let first = name.take(1);
    assert(first.drop_last() =~= seq![]);
    assert(first.last() == name[0]);
    assert(digits(first, 10) is None);
    if digits(name, 10) is Some {
        digits_grow(name, 10, 1);
    }
    assert(unsigned(name) == name);
}

/// A signal as it is shown is read back as that signal.
pub proof fn shown_signal_reads_back(n: int)
    requires
        is_signal(n),
    ensures
        signal_of(signal_name(n)) == Some(n),
{
    reveal_strlit("SIG");
    reveal_strlit("HUP");
    reveal_strlit("INT");
    reveal_strlit("QUIT");
    reveal_strlit("ILL");
    reveal_strlit("TRAP");
    reveal_strlit("ABRT");
    reveal_strlit("BUS");
    reveal_strlit("FPE");
    reveal_strlit("KILL");
    reveal_strlit("USR1");
    reveal_strlit("SEGV");
    reveal_strlit("USR2");
    reveal_strlit("PIPE");
    reveal_strlit("ALRM");
    reveal_strlit("TERM");
    reveal_strlit("CHLD");
    reveal_strlit("SIGHUP");
    reveal_strlit("SIGINT");
    reveal_strlit("SIGQUIT");
    reveal_strlit("SIGKILL");
    reveal_strlit("SIGTERM");
    reveal_strlit("SIGCHLD");
    assert("HUP"@ =~= seq!['H', 'U', 'P']);
    assert("INT"@ =~= seq!['I', 'N', 'T']);
    assert("QUIT"@ =~= seq!['Q', 'U', 'I', 'T']);
    assert("ILL"@ =~= seq!['I', 'L', 'L']);
    assert("TRAP"@ =~= seq!['T', 'R', 'A', 'P']);
    assert("ABRT"@ =~= seq!['A', 'B', 'R', 'T']);
    assert("BUS"@ =~= seq!['B', 'U', 'S']);
    assert("FPE"@ =~= seq!['F', 'P', 'E']);
    assert("KILL"@ =~= seq!['K', 'I', 'L', 'L']);
    assert("USR1"@ =~= seq!['U', 'S', 'R', '1']);
    assert("SEGV"@ =~= seq!['S', 'E', 'G', 'V']);
    assert("USR2"@ =~= seq!['U', 'S', 'R', '2']);
    assert("PIPE"@ =~= seq!['P', 'I', 'P', 'E']);
    assert("ALRM"@ =~= seq!['A', 'L', 'R', 'M']);
    assert("TERM"@ =~= seq!['T', 'E', 'R', 'M']);
    assert("CHLD"@ =~= seq!['C', 'H', 'L', 'D']);
    assert("SIGHUP"@.take(3) =~= "SIG"@);
    assert("SIGHUP"@.skip(3) =~= "HUP"@);
    assert(upper("HUP"@) =~= "HUP"@);
    assert("SIGINT"@.take(3) =~= "SIG"@);
    assert("SIGINT"@.skip(3) =~= "INT"@);
    assert(upper("INT"@) =~= "INT"@);
    assert("SIGQUIT"@.take(3) =~= "SIG"@);
    assert("SIGQUIT"@.skip(3) =~= "QUIT"@);
    assert(upper("QUIT"@) =~= "QUIT"@);
    assert("SIGKILL"@.take(3) =~= "SIG"@);
    assert("SIGKILL"@.skip(3) =~= "KILL"@);
    assert(upper("KILL"@) =~= "KILL"@);
    assert("SIGTERM"@.take(3) =~= "SIG"@);
    assert("SIGTERM"@.skip(3) =~= "TERM"@);
    assert(upper("TERM"@) =~= "TERM"@);
    assert("SIGCHLD"@.take(3) =~= "SIG"@);
    assert("SIGCHLD"@.skip(3) =~= "CHLD"@);
    assert(upper("CHLD"@) =~= "CHLD"@);
    if n == 1 {
        named_signal_reads_back("SIGHUP"@, "HUP"@, 1);
    }
    if n == 2 {
        named_signal_reads_back("SIGINT"@, "INT"@, 2);
    }
    if n == 3 {
        named_signal_reads_back("SIGQUIT"@, "QUIT"@, 3);
    }
    if n == 9 {
        named_signal_reads_back("SIGKILL"@, "KILL"@, 9);
    }
    if n == 15 {
        named_signal_reads_back("SIGTERM"@, "TERM"@, 15);
    }
    if n == 17 {
        named_signal_reads_back("SIGCHLD"@, "CHLD"@, 17);
    }
    if n != 1 && n != 2 && n != 3 && n != 9 && n != 15 && n != 17 {
        let d = decimal(n as nat);
        decimal_reads_back(n as nat);
        assert(d[0] != 'S' && d[0] != '-');
        assert(after_prefix(d, "SIG"@) is None) by {
            if begins(d, "SIG"@) {
                assert(d.take(3)[0] == d[0]);
                assert("SIG"@[0] == 'S');
            }
        }
    }
}

/// The signal that a text names: `SIGTERM`, `TERM`, or a number.
pub fn sig_from_name(s: &str) -> (r: Option<Signal>)
    ensures
        match r {
            Some(g) => signal_of(s@) == Some(g.raw()),
            None => signal_of(s@) is None,
        },
{
    let t = match strip_prefix(s, "SIG") {
        Some(t) => t,
        None => s,
    };
    match parse_i32(t) {
        Some(n) => match Signal::try_from(n) {
            Ok(g) => Some(g),
            Err(_) => None,
        },
        None => {
            let u = to_upper(t);
            match named_signal(u.as_str()) {
                Some(n) => match Signal::try_from(n) {
                    Ok(g) => Some(g),
                    Err(_) => None,
                },
                None => None,
            }
        },
    }
}

/// One item of an exit-status list.
pub ghost enum Status {
    Codes(u32, u32),
    Signal(i32),
}

/// The status that a word names: a range `2..4`, a code, a signal, or a
/// `sysexits(3)` name.
pub open spec fn status_of(tok: Text) -> Result<Status, Text> {
    match cut_text(tok, ".."@) {
        Some((a, b)) => match (
            number(trimmed(a), 10, u32::MAX as nat),
            number(trimmed(b), 10, u32::MAX as nat),
        ) {
            (Some(lo), Some(hi)) => Ok(Status::Codes(lo as u32, hi as u32)),
            _ => Err("bad range `"@ + tok + "`"@),
        },
        None => match number(tok, 10, u32::MAX as nat) {
            Some(n) => Ok(Status::Codes(n as u32, n as u32)),
            None => match signal_of(tok) {
                Some(g) => Ok(Status::Signal(g as i32)),
                None => match sysexit_of(tok) {
                    Some(c) => Ok(Status::Codes(c, c)),
                    None => Err("invalid success exit status `"@ + tok + "`"@),
                },
            },
        },
    }
}

/// The statuses that words name, or the first error among them.
pub open spec fn statuses_of(toks: Seq<Text>) -> Result<Statuses, Text>
    decreases toks.len(),
{
    if toks.len() == 0 {
        Ok(Statuses { codes: seq![], signals: seq![] })
    } else {
        match (statuses_of(toks.drop_last()), status_of(toks.last())) {
            (Err(e), _) => Err(e),
            (Ok(_), Err(e)) => Err(e),
            (Ok(s), Ok(Status::Codes(lo, hi))) => Ok(
                Statuses { codes: s.codes.push((lo, hi)), signals: s.signals },
            ),
            (Ok(s), Ok(Status::Signal(g))) => Ok(
                Statuses { codes: s.codes, signals: s.signals.push(g) },
            ),
        }
    }
}

/// The statuses that a text lists; there has to be one.
pub open spec fn exit_statuses(v: Text) -> Result<Statuses, Text> {
    match statuses_of(words(v)) {
        Err(e) => Err(e),
        Ok(s) => if s.codes.len() == 0 && s.signals.len() == 0 {
            Err("empty SuccessExitStatus"@)
        } else {
            Ok(s)
        },
    }
}

proof fn statuses_error_stays(toks: Seq<Text>, i: int)
    requires
        0 <= i <= toks.len(),
        statuses_of(toks.take(i)) is Err,
    ensures
        statuses_of(toks) == statuses_of(toks.take(i)),
    decreases toks.len(),
{
    if i == toks.len() {
        assert(toks.take(i) =~= toks);
    } else {
        assert(toks.drop_last().take(i) =~= toks.take(i));
        statuses_error_stays(toks.drop_last(), i);
    }
}

/// A result over exit statuses, as specifications see it.
pub open spec fn statuses_result(r: Result<ExitCodeSet, String>) -> Result<Statuses, Text> {
    match r {
        Ok(s) => Ok(s@),
        Err(e) => Err(e@),
    }
}

/// Parse a `SuccessExitStatus=` value: `0`, `0..3`, `SIGTERM`, `DATAERR`, or a
/// list of these.
pub fn parse_exit_status(value: &str) -> (r: Result<ExitCodeSet, String>)
    ensures
        statuses_result(r) == exit_statuses(value@),
{
    let toks = split_words(value);
    let mut out = ExitCodeSet { codes: Vec::new(), signals: Vec::new() };
    let mut i: usize = 0;
    proof {
        assert(texts(toks@).take(0) =~= seq![]);
        assert(out@ =~= (Statuses { codes: seq![], signals: seq![] }));
    }
    while i < toks.len()
        invariant
            i <= toks.len(),
            texts(toks@) == words(value@),
            statuses_of(texts(toks@).take(i as int)) == Ok::<Statuses, Text>(out@),
        decreases toks.len() - i,
    {
        let ghost upto = texts(toks@).take(i + 1);
        let ghost was = out@;
        let tok = toks[i].as_str();
        proof {
            assert(upto.drop_last() =~= texts(toks@).take(i as int));
            assert(upto.last() == tok@);
        }
        let ghost bad = "bad range `"@ + tok@ + "`"@;
        match split_once_text(tok, "..") {
            Some((a, b)) => {
                let lo = parse_number(trim(a), 10, 0xffff_ffff);
                let hi = parse_number(trim(b), 10, 0xffff_ffff);
                match (lo, hi) {
                    (Some(x), Some(y)) => {
                        out.codes.push((x as u32, y as u32));
                    },
                    _ => {
                        proof {
                            statuses_error_stays(texts(toks@), i + 1);
                        }
                        return Err(cat3("bad range `", tok, "`"));
                    },
                }
            },
            None => match parse_number(tok, 10, 0xffff_ffff) {
                Some(n) => {
                    out.codes.push((n as u32, n as u32));
                },
                None => match sig_from_name(tok) {
                    Some(g) => {
                        out.signals.push(g.as_raw());
                    },
                    None => match sysexit_from_name(tok) {
                        Some(c) => {
                            out.codes.push((c, c));
                        },
                        None => {
                            proof {
                                statuses_error_stays(texts(toks@), i + 1);
                            }
                            return Err(cat3("invalid success exit status `", tok, "`"));
                        },
                    },
                },
            },
        }
        assert(statuses_of(upto) == Ok::<Statuses, Text>(out@));
        i = i + 1;
    }
    assert(texts(toks@).take(toks.len() as int) =~= texts(toks@));
    if out.codes.len() == 0 && out.signals.len() == 0 {
        return Err(owned("empty SuccessExitStatus"));
    }
    Ok(out)
}

/// The statuses of two lists one behind the other.
proof fn statuses_join(a: Seq<Text>, b: Seq<Text>)
    ensures
        statuses_of(a + b) is Ok <==> statuses_of(a) is Ok && statuses_of(b) is Ok,
        statuses_of(a + b) is Ok ==> statuses_of(a + b) == Ok::<Statuses, Text>(
            both_lists(statuses_of(a)->Ok_0, statuses_of(b)->Ok_0),
        ),
    decreases b.len(),
{
    if b.len() == 0 {
        assert(a + b =~= a);
        if statuses_of(a) is Ok {
            let s = statuses_of(a)->Ok_0;
            assert(both_lists(s, statuses_of(b)->Ok_0) =~= s);
        }
    } else {
        let init = b.drop_last();
        assert((a + b).drop_last() =~= a + init);
        statuses_join(a, init);
        if statuses_of(a + b) is Ok {
            assert(statuses_of(a + b)->Ok_0 =~= both_lists(
                statuses_of(a)->Ok_0,
                statuses_of(b)->Ok_0,
            ));
        }
    }
}

/// Each word is one status.
proof fn statuses_count(toks: Seq<Text>)
    ensures
        statuses_of(toks) is Ok ==> statuses_of(toks)->Ok_0.codes.len()
            + statuses_of(toks)->Ok_0.signals.len() == toks.len(),
    decreases toks.len(),
{
    if toks.len() > 0 {
        statuses_count(toks.drop_last());
    }
}

/// The statuses of one list, followed by those of another.
pub open spec fn both_lists(a: Statuses, b: Statuses) -> Statuses {
    Statuses { codes: a.codes + b.codes, signals: a.signals + b.signals }
}

/// A list of exit statuses that is two lists side by side holds the statuses of
/// the one and then those of the other, and is wrong just where either is.
pub proof fn exit_status_lists_join(a: Text, b: Text)
    requires
        words(a).len() > 0,
        words(b).len() > 0,
    ensures
        exit_statuses(a + seq![' '] + b) is Ok <==> exit_statuses(a) is Ok && exit_statuses(b) is Ok,
        exit_statuses(a + seq![' '] + b) is Ok ==> exit_statuses(a + seq![' '] + b) == Ok::<
            Statuses,
            Text,
        >(both_lists(exit_statuses(a)->Ok_0, exit_statuses(b)->Ok_0)),
{
    assert(a + seq![' '] + b =~= a + (seq![' '] + b));
    words_join(a, b);
    statuses_join(words(a), words(b));
    statuses_count(words(a));
    statuses_count(words(b));
    statuses_count(words(a) + words(b));
}

/// Each word of a list of exit statuses adds one range of codes or one signal; a
/// blank text is no list.
pub proof fn each_word_is_one_status(v: Text)
    ensures
        exit_statuses(v) is Ok ==> exit_statuses(v)->Ok_0.codes.len()
            + exit_statuses(v)->Ok_0.signals.len() == words(v).len(),
        is_blank(v) ==> exit_statuses(v) is Err,
{
    statuses_count(words(v));
    if is_blank(v) {
        blank_has_no_words(v);
    }
}

// ---- booleans, numbers and sizes ------------------------------------------------

pub open spec fn bool_of(v: Text) -> Result<bool, Text> {
    let l = lower(v);
    if l == "1"@ || l == "yes"@ || l == "true"@ || l == "on"@ {
        Ok(true)
    } else if l == "0"@ || l == "no"@ || l == "false"@ || l == "off"@ {
        Ok(false)
    } else {
        Err("invalid boolean `"@ + l + "`"@)
    }
}

pub fn parse_bool(v: &str) -> (r: Result<bool, String>)
    ensures
        plain_result(r) == bool_of(v@),
{
    let lowered = to_lower(v);
    let l = lowered.as_str();
    if same(l, "1") || same(l, "yes") || same(l, "true") || same(l, "on") {
        Ok(true)
    } else if same(l, "0") || same(l, "no") || same(l, "false") || same(l, "off") {
        Ok(false)
    } else {
        Err(cat3("invalid boolean `", l, "`"))
    }
}

pub open spec fn octal_of(v: Text) -> Result<u32, Text> {
    match number(v, 8, u32::MAX as nat) {
        Some(n) => Ok(n as u32),
        None => Err("invalid octal `"@ + v + "`"@),
    }
}

pub fn parse_octal(v: &str) -> (r: Result<u32, String>)
    ensures
        plain_result(r) == octal_of(v@),
{
    match parse_number(v, 8, 0xffff_ffff) {
        Some(n) => Ok(n as u32),
        None => Err(cat3("invalid octal `", v, "`")),
    }
}

/// A resource that can be limited.
#[derive(Debug, Clone, Copy, PartialEq, Eq, Structural)]
pub enum RlimitResource {
    NoFile,
    NProc,
    Core,
    AddressSpace,
}

/// A soft and a hard limit of a resource.
#[derive(Debug, Clone, Copy, PartialEq, Eq, Structural)]
pub struct Rlimit {
    pub resource: RlimitResource,
    pub soft: u64,
    pub hard: u64,
}

pub open spec fn limit_of(v: Text) -> Result<u64, Text> {
    if lower(v) == lower("infinity"@) {
        Ok(u64::MAX)
    } else {
        match number(v, 10, u64::MAX as nat) {
            Some(n) => Ok(n as u64),
            None => Err("invalid rlimit value `"@ + v + "`"@),
        }
    }
}

pub fn parse_limit(v: &str) -> (r: Result<u64, String>)
    ensures
        plain_result(r) == limit_of(v@),
{
    if same_ignore_case(v, "infinity") {
        Ok(u64::MAX)
    } else {
        match parse_number(v, 10, u64::MAX) {
            Some(n) => Ok(n),
            None => Err(cat3("invalid rlimit value `", v, "`")),
        }
    }
}

/// `soft:hard`, or one value for both.
pub open spec fn rlimit_of(resource: RlimitResource, v: Text) -> Result<Rlimit, Text> {
    let (a, b) = match cut(v, ':') {
        Some((s, h)) => (trimmed(s), trimmed(h)),
        None => (trimmed(v), trimmed(v)),
    };
    match (limit_of(a), limit_of(b)) {
        (Err(e), _) => Err(e),
        (Ok(_), Err(e)) => Err(e),
        (Ok(soft), Ok(hard)) => Ok(Rlimit { resource, soft, hard }),
    }
}

pub fn parse_rlimit(resource: RlimitResource, v: &str) -> (r: Result<Rlimit, String>)
    ensures
        plain_result(r) == rlimit_of(resource, v@),
{
    let (a, b) = match split_once(v, ':') {
        Some((s, h)) => (trim(s), trim(h)),
        None => (trim(v), trim(v)),
    };
    match parse_limit(a) {
        Err(e) => Err(e),
        Ok(soft) => match parse_limit(b) {
            Err(e) => Err(e),
            Ok(hard) => Ok(Rlimit { resource, soft, hard }),
        },
    }
}

/// What a size's suffix multiplies by.
pub open spec fn size_factor(c: char) -> Option<nat> {
    if c == 'K' || c == 'k' {
        Some(0x400)
    } else if c == 'M' || c == 'm' {
        Some(0x10_0000)
    } else if c == 'G' || c == 'g' {
        Some(0x4000_0000)
    } else if c == 'T' || c == 't' {
        Some(0x100_0000_0000)
    } else if c == 'P' || c == 'p' {
        Some(0x4_0000_0000_0000)
    } else if c == 'E' || c == 'e' {
        Some(0x1000_0000_0000_0000)
    } else {
        None
    }
}

/// The digits of a size and its factor.
pub open spec fn size_parts(s: Text) -> (Text, nat) {
    if s.len() > 0 && size_factor(s.last()) is Some {
        (s.drop_last(), size_factor(s.last())->0)
    } else {
        (s, 1)
    }
}

/// A size in bytes: a number with an optional binary suffix, or `infinity`.
/// Blanks do not count.
pub open spec fn bytes_of(v: Text) -> Result<u64, Text> {
    if lower(trimmed(v)) == lower("infinity"@) {
        Ok(u64::MAX)
    } else {
        let (num, factor) = size_parts(without(trimmed(v), ' '));
        match number(trimmed(num), 10, u64::MAX as nat) {
            None => Err("invalid size `"@ + v + "`"@),
            Some(n) => if n * factor > u64::MAX {
                Err("size overflow `"@ + v + "`"@)
            } else {
                Ok((n * factor) as u64)
            },
        }
    }
}

fn factor_of_suffix(c: char) -> (r: Option<u64>)
    ensures
        match r {
            Some(f) => size_factor(c) == Some(f as nat),
            None => size_factor(c) is None,
        },
{
    if c == 'K' || c == 'k' {
        Some(0x400)
    } else if c == 'M' || c == 'm' {
        Some(0x10_0000)
    } else if c == 'G' || c == 'g' {
        Some(0x4000_0000)
    } else if c == 'T' || c == 't' {
        Some(0x100_0000_0000)
    } else if c == 'P' || c == 'p' {
        Some(0x4_0000_0000_0000)
    } else if c == 'E' || c == 'e' {
        Some(0x1000_0000_0000_0000)
    } else {
        None
    }
}

/// Parse a size in bytes (`MemoryMax=`, `MemoryHigh=`).
pub fn parse_bytes(v: &str) -> (r: Result<u64, String>)
    ensures
        plain_result(r) == bytes_of(v@),
{
    let t = trim(v);
    if same_ignore_case(t, "infinity") {
        return Ok(u64::MAX);
    }
    let compact = remove_char(t, ' ');
    let s = compact.as_str();
    let n = s.unicode_len();
    let (num, factor): (&str, u64) = if n > 0 {
        match factor_of_suffix(s.get_char(n - 1)) {
            Some(f) => {
                let head = s.substring_char(0, n - 1);
                assert(head@ =~= s@.drop_last());
                (head, f)
            },
            None => (s, 1),
        }
    } else {
        (s, 1)
    };
    match parse_number(trim(num), 10, u64::MAX) {
        None => Err(cat3("invalid size `", v, "`")),
        Some(x) => match x.checked_mul(factor) {
            Some(b) => Ok(b),
            None => Err(cat3("size overflow `", v, "`")),
        },
    }
}

/// Limits of a control group; nothing where one is not set.
#[derive(Debug, Clone, Copy, PartialEq, Eq, Default, Structural)]
pub struct CgroupLimits {
    pub memory_max: Option<u64>,
    pub memory_high: Option<u64>,
    pub cpu_weight: Option<u32>,
    pub tasks_max: Option<u64>,
}

// ---- streams --------------------------------------------------------------------

/// Where a stream of a service goes.
#[derive(Debug, Clone, PartialEq, Eq)]
pub enum StdioTarget {
    /// The unit's log.
    Journal,
    /// The manager's own stream.
    Inherit,
    Discard,
    File(String),
}

/// Where a stream goes, as specifications see it.
pub ghost enum Stdio {
    Journal,
    Inherit,
    Discard,
    File(Text),
}

impl View for StdioTarget {
    type V = Stdio;

    open spec fn view(&self) -> Stdio {
        match self {
            StdioTarget::Journal => Stdio::Journal,
            StdioTarget::Inherit => Stdio::Inherit,
            StdioTarget::Discard => Stdio::Discard,
            StdioTarget::File(p) => Stdio::File(p@),
        }
    }
}

/// Where a stream goes. Behind a leading `-` an unknown target is the log.
pub open spec fn stdio_of(v: Text) -> Result<Stdio, Text> {
    let ignore = v.len() > 0 && v[0] == '-';
    let s = if ignore {
        v.skip(1)
    } else {
        v
    };
    if s == "journal"@ || s == "kmsg"@ || s == "syslog"@ || s == "inherit"@ || s
        == "journal+console"@ {
        Ok(Stdio::Journal)
    } else if s == "null"@ {
        Ok(Stdio::Discard)
    } else {
        match after_prefix(s, "file:"@) {
            Some(f) => Ok(Stdio::File(f)),
            None => if ignore {
                Ok(Stdio::Journal)
            } else {
                Err("unsupported StandardOutput/std error value `"@ + v + "`"@)
            },
        }
    }
}

/// A result over a stream, as specifications see it.
pub open spec fn stdio_result(r: Result<StdioTarget, String>) -> Result<Stdio, Text> {
    match r {
        Ok(t) => Ok(t@),
        Err(e) => Err(e@),
    }
}

/// Parse `StandardOutput=` and `StandardError=`.
pub fn parse_stdio(v: &str) -> (r: Result<StdioTarget, String>)
    ensures
        stdio_result(r) == stdio_of(v@),
{
    let (ignore, s) = match strip_char(v, '-') {
        Some(t) => (true, t),
        None => (false, v),
    };
    if same(s, "journal") || same(s, "kmsg") || same(s, "syslog") || same(s, "inherit") || same(
        s,
        "journal+console",
    ) {
        Ok(StdioTarget::Journal)
    } else if same(s, "null") {
        Ok(StdioTarget::Discard)
    } else {
        match strip_prefix(s, "file:") {
            Some(f) => Ok(StdioTarget::File(owned(f))),
            None => if ignore {
                Ok(StdioTarget::Journal)
            } else {
                Err(cat3("unsupported StandardOutput/std error value `", v, "`"))
            },
        }
    }
}

} // verus!
