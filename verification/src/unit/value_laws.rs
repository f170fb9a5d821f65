//! What the values of unit-file settings are read as.

use vstd::prelude::*;

use crate::platform::signal::signal_name;
use crate::text::{
    begins, chr, cut_text, decimal, decimal_has_digits, decimal_reads_back, digit_value, digits,
    digits_grow, find_unique, is_digit, lower, number, signed32, trimmed, trimmed_is_the_rest,
    unsigned, upper, upper_char, without, words, Text,
};
use crate::unit::values::{
    bool_of, both_lists, bytes_of, counts, exit_statuses, in_ranges, limit_of, octal_of, rlimit_of,
    signal_number, signal_of, size_factor, size_parts, status_of, statuses_of, stdio_of,
    sysexit_code, sysexit_of, ExitCodeSet, Rlimit, RlimitResource, Status, Statuses, Stdio,
    StdioTarget,
};

verus! {

// ---- signals --------------------------------------------------------------------

/// The signals and their names: no two names are the same signal's.
#[verifier::spinoff_prover]
#[verifier::rlimit(60)]
pub proof fn signals_have_these_names(t: Text)
    ensures
        signal_number(t) == Some(1i32) <==> t == "HUP"@,
        signal_number(t) == Some(2i32) <==> t == "INT"@,
        signal_number(t) == Some(3i32) <==> t == "QUIT"@,
        signal_number(t) == Some(4i32) <==> t == "ILL"@,
        signal_number(t) == Some(5i32) <==> t == "TRAP"@,
        signal_number(t) == Some(6i32) <==> t == "ABRT"@,
        signal_number(t) == Some(7i32) <==> t == "BUS"@,
        signal_number(t) == Some(8i32) <==> t == "FPE"@,
        signal_number(t) == Some(9i32) <==> t == "KILL"@,
        signal_number(t) == Some(10i32) <==> t == "USR1"@,
        signal_number(t) == Some(11i32) <==> t == "SEGV"@,
        signal_number(t) == Some(12i32) <==> t == "USR2"@,
        signal_number(t) == Some(13i32) <==> t == "PIPE"@,
        signal_number(t) == Some(14i32) <==> t == "ALRM"@,
        signal_number(t) == Some(15i32) <==> t == "TERM"@,
        signal_number(t) == Some(17i32) <==> t == "CHLD"@,
        signal_number(t) == Some(18i32) <==> t == "CONT"@,
        signal_number(t) == Some(19i32) <==> t == "STOP"@,
        signal_number(t) == Some(20i32) <==> t == "TSTP"@,
        signal_number(t) == Some(21i32) <==> t == "TTIN"@,
        signal_number(t) == Some(22i32) <==> t == "TTOU"@,
        signal_number(t) == Some(23i32) <==> t == "URG"@,
        signal_number(t) == Some(24i32) <==> t == "XCPU"@,
        signal_number(t) == Some(25i32) <==> t == "XFSZ"@,
        signal_number(t) == Some(26i32) <==> t == "VTALRM"@,
        signal_number(t) == Some(27i32) <==> t == "PROF"@,
        signal_number(t) == Some(28i32) <==> t == "WINCH"@,
        signal_number(t) == Some(29i32) <==> t == "IO"@,
        signal_number(t) == Some(30i32) <==> t == "PWR"@,
        signal_number(t) == Some(31i32) <==> t == "SYS"@,
        signal_number(t) is Some ==> 1 <= signal_number(t)->0 <= 31,
{
    reveal_strlit("HUP");
    reveal_strlit("INT");
    reveal_strlit("QUIT");
    reveal_strlit("ILL");
    reveal_strlit("TRAP");
    reveal_strlit("ABRT");
    reveal_strlit("BUS");
    reveal_strlit("FPE");
    reveal_strlit("KILL");
    reveal_strlit("USR1");
    reveal_strlit("SEGV");
    reveal_strlit("USR2");
    reveal_strlit("PIPE");
    reveal_strlit("ALRM");
    reveal_strlit("TERM");
    reveal_strlit("CHLD");
    reveal_strlit("CONT");
    reveal_strlit("STOP");
    reveal_strlit("TSTP");
    reveal_strlit("TTIN");
    reveal_strlit("TTOU");
    reveal_strlit("URG");
    reveal_strlit("XCPU");
    reveal_strlit("XFSZ");
    reveal_strlit("VTALRM");
    reveal_strlit("PROF");
    reveal_strlit("WINCH");
    reveal_strlit("IO");
    reveal_strlit("PWR");
    reveal_strlit("SYS");
    assert("HUP"@.len() == 3 && "HUP"@[0] == 'H' && "HUP"@[1] == 'U' && "HUP"@[2] == 'P');
    assert("INT"@.len() == 3 && "INT"@[0] == 'I' && "INT"@[1] == 'N' && "INT"@[2] == 'T');
    assert("QUIT"@.len() == 4 && "QUIT"@[0] == 'Q' && "QUIT"@[1] == 'U' && "QUIT"@[2] == 'I' && "QUIT"@[3] == 'T');
    assert("ILL"@.len() == 3 && "ILL"@[0] == 'I' && "ILL"@[1] == 'L' && "ILL"@[2] == 'L');
    assert("TRAP"@.len() == 4 && "TRAP"@[0] == 'T' && "TRAP"@[1] == 'R' && "TRAP"@[2] == 'A' && "TRAP"@[3] == 'P');
    assert("ABRT"@.len() == 4 && "ABRT"@[0] == 'A' && "ABRT"@[1] == 'B' && "ABRT"@[2] == 'R' && "ABRT"@[3] == 'T');
    assert("BUS"@.len() == 3 && "BUS"@[0] == 'B' && "BUS"@[1] == 'U' && "BUS"@[2] == 'S');
    assert("FPE"@.len() == 3 && "FPE"@[0] == 'F' && "FPE"@[1] == 'P' && "FPE"@[2] == 'E');
    assert("KILL"@.len() == 4 && "KILL"@[0] == 'K' && "KILL"@[1] == 'I' && "KILL"@[2] == 'L' && "KILL"@[3] == 'L');
    assert("USR1"@.len() == 4 && "USR1"@[0] == 'U' && "USR1"@[1] == 'S' && "USR1"@[2] == 'R' && "USR1"@[3] == '1');
    assert("SEGV"@.len() == 4 && "SEGV"@[0] == 'S' && "SEGV"@[1] == 'E' && "SEGV"@[2] == 'G' && "SEGV"@[3] == 'V');
    assert("USR2"@.len() == 4 && "USR2"@[0] == 'U' && "USR2"@[1] == 'S' && "USR2"@[2] == 'R' && "USR2"@[3] == '2');
    assert("PIPE"@.len() == 4 && "PIPE"@[0] == 'P' && "PIPE"@[1] == 'I' && "PIPE"@[2] == 'P' && "PIPE"@[3] == 'E');
    assert("ALRM"@.len() == 4 && "ALRM"@[0] == 'A' && "ALRM"@[1] == 'L' && "ALRM"@[2] == 'R' && "ALRM"@[3] == 'M');
    assert("TERM"@.len() == 4 && "TERM"@[0] == 'T' && "TERM"@[1] == 'E' && "TERM"@[2] == 'R' && "TERM"@[3] == 'M');
    assert("CHLD"@.len() == 4 && "CHLD"@[0] == 'C' && "CHLD"@[1] == 'H' && "CHLD"@[2] == 'L' && "CHLD"@[3] == 'D');
    assert("CONT"@.len() == 4 && "CONT"@[0] == 'C' && "CONT"@[1] == 'O' && "CONT"@[2] == 'N' && "CONT"@[3] == 'T');
    assert("STOP"@.len() == 4 && "STOP"@[0] == 'S' && "STOP"@[1] == 'T' && "STOP"@[2] == 'O' && "STOP"@[3] == 'P');
    assert("TSTP"@.len() == 4 && "TSTP"@[0] == 'T' && "TSTP"@[1] == 'S' && "TSTP"@[2] == 'T' && "TSTP"@[3] == 'P');
    assert("TTIN"@.len() == 4 && "TTIN"@[0] == 'T' && "TTIN"@[1] == 'T' && "TTIN"@[2] == 'I' && "TTIN"@[3] == 'N');
    assert("TTOU"@.len() == 4 && "TTOU"@[0] == 'T' && "TTOU"@[1] == 'T' && "TTOU"@[2] == 'O' && "TTOU"@[3] == 'U');
    assert("URG"@.len() == 3 && "URG"@[0] == 'U' && "URG"@[1] == 'R' && "URG"@[2] == 'G');
    assert("XCPU"@.len() == 4 && "XCPU"@[0] == 'X' && "XCPU"@[1] == 'C' && "XCPU"@[2] == 'P' && "XCPU"@[3] == 'U');
    assert("XFSZ"@.len() == 4 && "XFSZ"@[0] == 'X' && "XFSZ"@[1] == 'F' && "XFSZ"@[2] == 'S' && "XFSZ"@[3] == 'Z');
    assert("VTALRM"@.len() == 6 && "VTALRM"@[0] == 'V' && "VTALRM"@[1] == 'T' && "VTALRM"@[2] == 'A' && "VTALRM"@[3] == 'L');
    assert("PROF"@.len() == 4 && "PROF"@[0] == 'P' && "PROF"@[1] == 'R' && "PROF"@[2] == 'O' && "PROF"@[3] == 'F');
    assert("WINCH"@.len() == 5 && "WINCH"@[0] == 'W' && "WINCH"@[1] == 'I' && "WINCH"@[2] == 'N' && "WINCH"@[3] == 'C');
    assert("IO"@.len() == 2 && "IO"@[0] == 'I' && "IO"@[1] == 'O');
    assert("PWR"@.len() == 3 && "PWR"@[0] == 'P' && "PWR"@[1] == 'W' && "PWR"@[2] == 'R');
    assert("SYS"@.len() == 3 && "SYS"@[0] == 'S' && "SYS"@[1] == 'Y' && "SYS"@[2] == 'S');
}

/// What begins with a letter is no number.
proof fn letters_are_no_number(t: Text)
    requires
        t.len() > 0,
        'A' <= upper(t)[0] <= 'Z',
    ensures
        signed32(t) is None,
        number(t, 10, u32::MAX as nat) is None,
{
    let first = t.take(1);
    assert(upper(t)[0] == upper_char(t[0]));
    assert(first.drop_last() =~= seq![]);
    assert(first.last() == t[0]);
    assert(digit_value(t[0], 10) is None);
    assert(digits(first, 10) is None);
    if digits(t, 10) is Some {
        digits_grow(t, 10, 1);
    }
    assert(unsigned(t) == t);
}

proof fn signal_by_name(t: Text, w: Text, n: i32)
    requires
        upper(t) == w,
        signal_number(w) == Some(n),
        w.len() > 0,
        'A' <= w[0] <= 'Z',
        w[0] == 'S' ==> w[1] != 'I' || w.len() < 3,
    ensures
        signal_of(t) == Some(n as int),
        signal_of("SIG"@ + t) == Some(n as int),
{
    letters_are_no_number(t);
    reveal_strlit("SIG");
    assert("SIG"@ =~= seq!['S', 'I', 'G']);
    assert(("SIG"@ + t).take(3) =~= "SIG"@);
    assert(("SIG"@ + t).skip(3) =~= t);
    if begins(t, "SIG"@) {
        assert(t.take(3)[0] == t[0]);
        assert(t.take(3)[1] == t[1]);
        assert(upper(t)[0] == upper_char('S'));
        assert(upper(t)[1] == upper_char('I'));
    }
}

/// A signal is named in upper or lower case, with or without `SIG` before it.
#[verifier::spinoff_prover]
#[verifier::rlimit(60)]
pub proof fn signals_are_read_by_name(t: Text)
    ensures
        upper(t) == "HUP"@ ==> signal_of(t) == Some(1int) && signal_of("SIG"@ + t) == Some(1int),
        upper(t) == "INT"@ ==> signal_of(t) == Some(2int) && signal_of("SIG"@ + t) == Some(2int),
        upper(t) == "QUIT"@ ==> signal_of(t) == Some(3int) && signal_of("SIG"@ + t) == Some(3int),
        upper(t) == "ILL"@ ==> signal_of(t) == Some(4int) && signal_of("SIG"@ + t) == Some(4int),
        upper(t) == "TRAP"@ ==> signal_of(t) == Some(5int) && signal_of("SIG"@ + t) == Some(5int),
        upper(t) == "ABRT"@ ==> signal_of(t) == Some(6int) && signal_of("SIG"@ + t) == Some(6int),
        upper(t) == "BUS"@ ==> signal_of(t) == Some(7int) && signal_of("SIG"@ + t) == Some(7int),
        upper(t) == "FPE"@ ==> signal_of(t) == Some(8int) && signal_of("SIG"@ + t) == Some(8int),
        upper(t) == "KILL"@ ==> signal_of(t) == Some(9int) && signal_of("SIG"@ + t) == Some(9int),
        upper(t) == "USR1"@ ==> signal_of(t) == Some(10int) && signal_of("SIG"@ + t) == Some(10int),
        upper(t) == "SEGV"@ ==> signal_of(t) == Some(11int) && signal_of("SIG"@ + t) == Some(11int),
        upper(t) == "USR2"@ ==> signal_of(t) == Some(12int) && signal_of("SIG"@ + t) == Some(12int),
        upper(t) == "PIPE"@ ==> signal_of(t) == Some(13int) && signal_of("SIG"@ + t) == Some(13int),
        upper(t) == "ALRM"@ ==> signal_of(t) == Some(14int) && signal_of("SIG"@ + t) == Some(14int),
        upper(t) == "TERM"@ ==> signal_of(t) == Some(15int) && signal_of("SIG"@ + t) == Some(15int),
        upper(t) == "CHLD"@ ==> signal_of(t) == Some(17int) && signal_of("SIG"@ + t) == Some(17int),
        upper(t) == "CONT"@ ==> signal_of(t) == Some(18int) && signal_of("SIG"@ + t) == Some(18int),
        upper(t) == "STOP"@ ==> signal_of(t) == Some(19int) && signal_of("SIG"@ + t) == Some(19int),
        upper(t) == "TSTP"@ ==> signal_of(t) == Some(20int) && signal_of("SIG"@ + t) == Some(20int),
        upper(t) == "TTIN"@ ==> signal_of(t) == Some(21int) && signal_of("SIG"@ + t) == Some(21int),
        upper(t) == "TTOU"@ ==> signal_of(t) == Some(22int) && signal_of("SIG"@ + t) == Some(22int),
        upper(t) == "URG"@ ==> signal_of(t) == Some(23int) && signal_of("SIG"@ + t) == Some(23int),
        upper(t) == "XCPU"@ ==> signal_of(t) == Some(24int) && signal_of("SIG"@ + t) == Some(24int),
        upper(t) == "XFSZ"@ ==> signal_of(t) == Some(25int) && signal_of("SIG"@ + t) == Some(25int),
        upper(t) == "VTALRM"@ ==> signal_of(t) == Some(26int) && signal_of("SIG"@ + t) == Some(26int),
        upper(t) == "PROF"@ ==> signal_of(t) == Some(27int) && signal_of("SIG"@ + t) == Some(27int),
        upper(t) == "WINCH"@ ==> signal_of(t) == Some(28int) && signal_of("SIG"@ + t) == Some(28int),
        upper(t) == "IO"@ ==> signal_of(t) == Some(29int) && signal_of("SIG"@ + t) == Some(29int),
        upper(t) == "PWR"@ ==> signal_of(t) == Some(30int) && signal_of("SIG"@ + t) == Some(30int),
        upper(t) == "SYS"@ ==> signal_of(t) == Some(31int) && signal_of("SIG"@ + t) == Some(31int),
{
    if upper(t) == "HUP"@ {
        reveal_strlit("HUP");
        signals_have_these_names("HUP"@);
        signal_by_name(t, "HUP"@, 1);
    }
    if upper(t) == "INT"@ {
        reveal_strlit("INT");
        signals_have_these_names("INT"@);
        signal_by_name(t, "INT"@, 2);
    }
    if upper(t) == "QUIT"@ {
        reveal_strlit("QUIT");
        signals_have_these_names("QUIT"@);
        signal_by_name(t, "QUIT"@, 3);
    }
    if upper(t) == "ILL"@ {
        reveal_strlit("ILL");
        signals_have_these_names("ILL"@);
        signal_by_name(t, "ILL"@, 4);
    }
    if upper(t) == "TRAP"@ {
        reveal_strlit("TRAP");
        signals_have_these_names("TRAP"@);
        signal_by_name(t, "TRAP"@, 5);
    }
    if upper(t) == "ABRT"@ {
        reveal_strlit("ABRT");
        signals_have_these_names("ABRT"@);
        signal_by_name(t, "ABRT"@, 6);
    }
    if upper(t) == "BUS"@ {
        reveal_strlit("BUS");
        signals_have_these_names("BUS"@);
        signal_by_name(t, "BUS"@, 7);
    }
    if upper(t) == "FPE"@ {
        reveal_strlit("FPE");
        signals_have_these_names("FPE"@);
        signal_by_name(t, "FPE"@, 8);
    }
    if upper(t) == "KILL"@ {
        reveal_strlit("KILL");
        signals_have_these_names("KILL"@);
        signal_by_name(t, "KILL"@, 9);
    }
    if upper(t) == "USR1"@ {
        reveal_strlit("USR1");
        signals_have_these_names("USR1"@);
        signal_by_name(t, "USR1"@, 10);
    }
    if upper(t) == "SEGV"@ {
        reveal_strlit("SEGV");
        signals_have_these_names("SEGV"@);
        signal_by_name(t, "SEGV"@, 11);
    }
    if upper(t) == "USR2"@ {
        reveal_strlit("USR2");
        signals_have_these_names("USR2"@);
        signal_by_name(t, "USR2"@, 12);
    }
    if upper(t) == "PIPE"@ {
        reveal_strlit("PIPE");
        signals_have_these_names("PIPE"@);
        signal_by_name(t, "PIPE"@, 13);
    }
    if upper(t) == "ALRM"@ {
        reveal_strlit("ALRM");
        signals_have_these_names("ALRM"@);
        signal_by_name(t, "ALRM"@, 14);
    }
    if upper(t) == "TERM"@ {
        reveal_strlit("TERM");
        signals_have_these_names("TERM"@);
        signal_by_name(t, "TERM"@, 15);
    }
    if upper(t) == "CHLD"@ {
        reveal_strlit("CHLD");
        signals_have_these_names("CHLD"@);
        signal_by_name(t, "CHLD"@, 17);
    }
    if upper(t) == "CONT"@ {
        reveal_strlit("CONT");
        signals_have_these_names("CONT"@);
        signal_by_name(t, "CONT"@, 18);
    }
    if upper(t) == "STOP"@ {
        reveal_strlit("STOP");
        signals_have_these_names("STOP"@);
        signal_by_name(t, "STOP"@, 19);
    }
    if upper(t) == "TSTP"@ {
        reveal_strlit("TSTP");
        signals_have_these_names("TSTP"@);
        signal_by_name(t, "TSTP"@, 20);
    }
    if upper(t) == "TTIN"@ {
        reveal_strlit("TTIN");
        signals_have_these_names("TTIN"@);
        signal_by_name(t, "TTIN"@, 21);
    }
    if upper(t) == "TTOU"@ {
        reveal_strlit("TTOU");
        signals_have_these_names("TTOU"@);
        signal_by_name(t, "TTOU"@, 22);
    }
    if upper(t) == "URG"@ {
        reveal_strlit("URG");
        signals_have_these_names("URG"@);
        signal_by_name(t, "URG"@, 23);
    }
    if upper(t) == "XCPU"@ {
        reveal_strlit("XCPU");
        signals_have_these_names("XCPU"@);
        signal_by_name(t, "XCPU"@, 24);
    }
    if upper(t) == "XFSZ"@ {
        reveal_strlit("XFSZ");
        signals_have_these_names("XFSZ"@);
        signal_by_name(t, "XFSZ"@, 25);
    }
    if upper(t) == "VTALRM"@ {
        reveal_strlit("VTALRM");
        signals_have_these_names("VTALRM"@);
        signal_by_name(t, "VTALRM"@, 26);
    }
    if upper(t) == "PROF"@ {
        reveal_strlit("PROF");
        signals_have_these_names("PROF"@);
        signal_by_name(t, "PROF"@, 27);
    }
    if upper(t) == "WINCH"@ {
        reveal_strlit("WINCH");
        signals_have_these_names("WINCH"@);
        signal_by_name(t, "WINCH"@, 28);
    }
    if upper(t) == "IO"@ {
        reveal_strlit("IO");
        signals_have_these_names("IO"@);
        signal_by_name(t, "IO"@, 29);
    }
    if upper(t) == "PWR"@ {
        reveal_strlit("PWR");
        signals_have_these_names("PWR"@);
        signal_by_name(t, "PWR"@, 30);
    }
    if upper(t) == "SYS"@ {
        reveal_strlit("SYS");
        signals_have_these_names("SYS"@);
        signal_by_name(t, "SYS"@, 31);
    }
}

/// A signal is named by its number too, and a number that is no signal's names
/// none.
pub proof fn signals_are_read_by_number(n: nat)
    ensures
        1 <= n <= 31 ==> signal_of(decimal(n)) == Some(n as int),
        n == 0 || 31 < n <= 0x7fff_ffff ==> signal_of(decimal(n)) is None,
{
    decimal_reads_back(n);
    reveal_strlit("SIG");
    let d = decimal(n);
    if begins(d, "SIG"@) {
        assert(d.take(3)[0] == d[0]);
        assert("SIG"@[0] == 'S');
    }
}

/// Signals that differ are shown by different texts, and the common ones by name.
pub proof fn signals_are_shown_by_name(n: int)
    requires
        1 <= n <= 31,
    ensures
        signal_name(n) == "SIGHUP"@ <==> n == 1,
        signal_name(n) == "SIGINT"@ <==> n == 2,
        signal_name(n) == "SIGQUIT"@ <==> n == 3,
        signal_name(n) == "SIGKILL"@ <==> n == 9,
        signal_name(n) == "SIGTERM"@ <==> n == 15,
        signal_name(n) == "SIGCHLD"@ <==> n == 17,
        n != 1 && n != 2 && n != 3 && n != 9 && n != 15 && n != 17 ==> signal_name(n) == decimal(
            n as nat,
        ),
{
    reveal_strlit("SIGHUP");
    reveal_strlit("SIGINT");
    reveal_strlit("SIGQUIT");
    reveal_strlit("SIGKILL");
    reveal_strlit("SIGTERM");
    reveal_strlit("SIGCHLD");
    assert("SIGHUP"@.len() == 6 && "SIGHUP"@[0] == 'S' && "SIGHUP"@[1] == 'I' && "SIGHUP"@[2] == 'G' && "SIGHUP"@[3] == 'H');
    assert("SIGINT"@.len() == 6 && "SIGINT"@[0] == 'S' && "SIGINT"@[1] == 'I' && "SIGINT"@[2] == 'G' && "SIGINT"@[3] == 'I');
    assert("SIGQUIT"@.len() == 7 && "SIGQUIT"@[0] == 'S' && "SIGQUIT"@[1] == 'I' && "SIGQUIT"@[2] == 'G' && "SIGQUIT"@[3] == 'Q');
    assert("SIGKILL"@.len() == 7 && "SIGKILL"@[0] == 'S' && "SIGKILL"@[1] == 'I' && "SIGKILL"@[2] == 'G' && "SIGKILL"@[3] == 'K');
    assert("SIGTERM"@.len() == 7 && "SIGTERM"@[0] == 'S' && "SIGTERM"@[1] == 'I' && "SIGTERM"@[2] == 'G' && "SIGTERM"@[3] == 'T');
    assert("SIGCHLD"@.len() == 7 && "SIGCHLD"@[0] == 'S' && "SIGCHLD"@[1] == 'I' && "SIGCHLD"@[2] == 'G' && "SIGCHLD"@[3] == 'C');
    decimal_reads_back(n as nat);
}

// ---- exit statuses --------------------------------------------------------------

/// The `sysexits(3)` names and their codes.
#[verifier::spinoff_prover]
#[verifier::rlimit(60)]
pub proof fn sysexits_have_these_names(t: Text)
    ensures
        sysexit_code(t) == Some(0u32) <==> t == "OK"@ || t == "SUCCESS"@,
        sysexit_code(t) == Some(1u32) <==> t == "FAILURE"@,
        sysexit_code(t) == Some(64u32) <==> t == "USAGE"@,
        sysexit_code(t) == Some(65u32) <==> t == "DATAERR"@,
        sysexit_code(t) == Some(66u32) <==> t == "NOINPUT"@,
        sysexit_code(t) == Some(67u32) <==> t == "NOUSER"@,
        sysexit_code(t) == Some(68u32) <==> t == "NOHOST"@,
        sysexit_code(t) == Some(69u32) <==> t == "UNAVAILABLE"@,
        sysexit_code(t) == Some(70u32) <==> t == "SOFTWARE"@,
        sysexit_code(t) == Some(71u32) <==> t == "OSERR"@,
        sysexit_code(t) == Some(72u32) <==> t == "OSFILE"@,
        sysexit_code(t) == Some(73u32) <==> t == "CANTCREAT"@,
        sysexit_code(t) == Some(74u32) <==> t == "IOERR"@,
        sysexit_code(t) == Some(75u32) <==> t == "TEMPFAIL"@,
        sysexit_code(t) == Some(76u32) <==> t == "PROTOCOL"@,
        sysexit_code(t) == Some(77u32) <==> t == "NOPERM"@,
        sysexit_code(t) == Some(78u32) <==> t == "CONFIG"@,
{
    reveal_strlit("OK");
    reveal_strlit("SUCCESS");
    reveal_strlit("FAILURE");
    reveal_strlit("USAGE");
    reveal_strlit("DATAERR");
    reveal_strlit("NOINPUT");
    reveal_strlit("NOUSER");
    reveal_strlit("NOHOST");
    reveal_strlit("UNAVAILABLE");
    reveal_strlit("SOFTWARE");
    reveal_strlit("OSERR");
    reveal_strlit("OSFILE");
    reveal_strlit("CANTCREAT");
    reveal_strlit("IOERR");
    reveal_strlit("TEMPFAIL");
    reveal_strlit("PROTOCOL");
    reveal_strlit("NOPERM");
    reveal_strlit("CONFIG");
    assert("OK"@.len() == 2 && "OK"@[0] == 'O' && "OK"@[1] == 'K');
    assert("SUCCESS"@.len() == 7 && "SUCCESS"@[0] == 'S' && "SUCCESS"@[1] == 'U' && "SUCCESS"@[2] == 'C' && "SUCCESS"@[3] == 'C');
    assert("FAILURE"@.len() == 7 && "FAILURE"@[0] == 'F' && "FAILURE"@[1] == 'A' && "FAILURE"@[2] == 'I' && "FAILURE"@[3] == 'L');
    assert("USAGE"@.len() == 5 && "USAGE"@[0] == 'U' && "USAGE"@[1] == 'S' && "USAGE"@[2] == 'A' && "USAGE"@[3] == 'G');
    assert("DATAERR"@.len() == 7 && "DATAERR"@[0] == 'D' && "DATAERR"@[1] == 'A' && "DATAERR"@[2] == 'T' && "DATAERR"@[3] == 'A');
    assert("NOINPUT"@.len() == 7 && "NOINPUT"@[0] == 'N' && "NOINPUT"@[1] == 'O' && "NOINPUT"@[2] == 'I' && "NOINPUT"@[3] == 'N');
    assert("NOUSER"@.len() == 6 && "NOUSER"@[0] == 'N' && "NOUSER"@[1] == 'O' && "NOUSER"@[2] == 'U' && "NOUSER"@[3] == 'S');
    assert("NOHOST"@.len() == 6 && "NOHOST"@[0] == 'N' && "NOHOST"@[1] == 'O' && "NOHOST"@[2] == 'H' && "NOHOST"@[3] == 'O');
    assert("UNAVAILABLE"@.len() == 11 && "UNAVAILABLE"@[0] == 'U' && "UNAVAILABLE"@[1] == 'N' && "UNAVAILABLE"@[2] == 'A' && "UNAVAILABLE"@[3] == 'V');
    assert("SOFTWARE"@.len() == 8 && "SOFTWARE"@[0] == 'S' && "SOFTWARE"@[1] == 'O' && "SOFTWARE"@[2] == 'F' && "SOFTWARE"@[3] == 'T');
    assert("OSERR"@.len() == 5 && "OSERR"@[0] == 'O' && "OSERR"@[1] == 'S' && "OSERR"@[2] == 'E' && "OSERR"@[3] == 'R');
    assert("OSFILE"@.len() == 6 && "OSFILE"@[0] == 'O' && "OSFILE"@[1] == 'S' && "OSFILE"@[2] == 'F' && "OSFILE"@[3] == 'I');
    assert("CANTCREAT"@.len() == 9 && "CANTCREAT"@[0] == 'C' && "CANTCREAT"@[1] == 'A' && "CANTCREAT"@[2] == 'N' && "CANTCREAT"@[3] == 'T');
    assert("IOERR"@.len() == 5 && "IOERR"@[0] == 'I' && "IOERR"@[1] == 'O' && "IOERR"@[2] == 'E' && "IOERR"@[3] == 'R');
    assert("TEMPFAIL"@.len() == 8 && "TEMPFAIL"@[0] == 'T' && "TEMPFAIL"@[1] == 'E' && "TEMPFAIL"@[2] == 'M' && "TEMPFAIL"@[3] == 'P');
    assert("PROTOCOL"@.len() == 8 && "PROTOCOL"@[0] == 'P' && "PROTOCOL"@[1] == 'R' && "PROTOCOL"@[2] == 'O' && "PROTOCOL"@[3] == 'T');
    assert("NOPERM"@.len() == 6 && "NOPERM"@[0] == 'N' && "NOPERM"@[1] == 'O' && "NOPERM"@[2] == 'P' && "NOPERM"@[3] == 'E');
    assert("CONFIG"@.len() == 6 && "CONFIG"@[0] == 'C' && "CONFIG"@[1] == 'O' && "CONFIG"@[2] == 'N' && "CONFIG"@[3] == 'F');
}

/// They are read in upper or lower case, with or without `EX_` before them.
#[verifier::spinoff_prover]
#[verifier::rlimit(60)]
pub proof fn sysexits_are_read_by_name(t: Text)
    ensures
        upper(t) == "OK"@ ==> sysexit_of(t) == Some(0u32) && sysexit_of("EX_"@ + t) == Some(0u32),
        upper(t) == "SUCCESS"@ ==> sysexit_of(t) == Some(0u32) && sysexit_of("EX_"@ + t) == Some(0u32),
        upper(t) == "FAILURE"@ ==> sysexit_of(t) == Some(1u32) && sysexit_of("EX_"@ + t) == Some(1u32),
        upper(t) == "USAGE"@ ==> sysexit_of(t) == Some(64u32) && sysexit_of("EX_"@ + t) == Some(64u32),
        upper(t) == "DATAERR"@ ==> sysexit_of(t) == Some(65u32) && sysexit_of("EX_"@ + t) == Some(65u32),
        upper(t) == "NOINPUT"@ ==> sysexit_of(t) == Some(66u32) && sysexit_of("EX_"@ + t) == Some(66u32),
        upper(t) == "NOUSER"@ ==> sysexit_of(t) == Some(67u32) && sysexit_of("EX_"@ + t) == Some(67u32),
        upper(t) == "NOHOST"@ ==> sysexit_of(t) == Some(68u32) && sysexit_of("EX_"@ + t) == Some(68u32),
        upper(t) == "UNAVAILABLE"@ ==> sysexit_of(t) == Some(69u32) && sysexit_of("EX_"@ + t) == Some(69u32),
        upper(t) == "SOFTWARE"@ ==> sysexit_of(t) == Some(70u32) && sysexit_of("EX_"@ + t) == Some(70u32),
        upper(t) == "OSERR"@ ==> sysexit_of(t) == Some(71u32) && sysexit_of("EX_"@ + t) == Some(71u32),
        upper(t) == "OSFILE"@ ==> sysexit_of(t) == Some(72u32) && sysexit_of("EX_"@ + t) == Some(72u32),
        upper(t) == "CANTCREAT"@ ==> sysexit_of(t) == Some(73u32) && sysexit_of("EX_"@ + t) == Some(73u32),
        upper(t) == "IOERR"@ ==> sysexit_of(t) == Some(74u32) && sysexit_of("EX_"@ + t) == Some(74u32),
        upper(t) == "TEMPFAIL"@ ==> sysexit_of(t) == Some(75u32) && sysexit_of("EX_"@ + t) == Some(75u32),
        upper(t) == "PROTOCOL"@ ==> sysexit_of(t) == Some(76u32) && sysexit_of("EX_"@ + t) == Some(76u32),
        upper(t) == "NOPERM"@ ==> sysexit_of(t) == Some(77u32) && sysexit_of("EX_"@ + t) == Some(77u32),
        upper(t) == "CONFIG"@ ==> sysexit_of(t) == Some(78u32) && sysexit_of("EX_"@ + t) == Some(78u32),
{
    let long = "EX_"@ + t;
    reveal_strlit("EX_");
    assert("EX_"@ =~= seq!['E', 'X', '_']);
    assert(upper(long).take(3) =~= "EX_"@);
    assert(upper(long).skip(3) =~= upper(t));
    let u = upper(t);
    if begins(u, "EX_"@) {
        assert(u.take(3)[0] == u[0] && u.take(3)[1] == u[1]);
    }
    if upper(t) == "OK"@ {
        reveal_strlit("OK");
        sysexits_have_these_names("OK"@);
        assert("OK"@[0] != 'E');
    }
    if upper(t) == "SUCCESS"@ {
        reveal_strlit("SUCCESS");
        sysexits_have_these_names("SUCCESS"@);
        assert("SUCCESS"@[0] != 'E');
    }
    if upper(t) == "FAILURE"@ {
        reveal_strlit("FAILURE");
        sysexits_have_these_names("FAILURE"@);
        assert("FAILURE"@[0] != 'E');
    }
    if upper(t) == "USAGE"@ {
        reveal_strlit("USAGE");
        sysexits_have_these_names("USAGE"@);
        assert("USAGE"@[0] != 'E');
    }
    if upper(t) == "DATAERR"@ {
        reveal_strlit("DATAERR");
        sysexits_have_these_names("DATAERR"@);
        assert("DATAERR"@[0] != 'E');
    }
    if upper(t) == "NOINPUT"@ {
        reveal_strlit("NOINPUT");
        sysexits_have_these_names("NOINPUT"@);
        assert("NOINPUT"@[0] != 'E');
    }
    if upper(t) == "NOUSER"@ {
        reveal_strlit("NOUSER");
        sysexits_have_these_names("NOUSER"@);
        assert("NOUSER"@[0] != 'E');
    }
    if upper(t) == "NOHOST"@ {
        reveal_strlit("NOHOST");
        sysexits_have_these_names("NOHOST"@);
        assert("NOHOST"@[0] != 'E');
    }
    if upper(t) == "UNAVAILABLE"@ {
        reveal_strlit("UNAVAILABLE");
        sysexits_have_these_names("UNAVAILABLE"@);
        assert("UNAVAILABLE"@[0] != 'E');
    }
    if upper(t) == "SOFTWARE"@ {
        reveal_strlit("SOFTWARE");
        sysexits_have_these_names("SOFTWARE"@);
        assert("SOFTWARE"@[0] != 'E');
    }
    if upper(t) == "OSERR"@ {
        reveal_strlit("OSERR");
        sysexits_have_these_names("OSERR"@);
        assert("OSERR"@[0] != 'E');
    }
    if upper(t) == "OSFILE"@ {
        reveal_strlit("OSFILE");
        sysexits_have_these_names("OSFILE"@);
        assert("OSFILE"@[0] != 'E');
    }
    if upper(t) == "CANTCREAT"@ {
        reveal_strlit("CANTCREAT");
        sysexits_have_these_names("CANTCREAT"@);
        assert("CANTCREAT"@[0] != 'E');
    }
    if upper(t) == "IOERR"@ {
        reveal_strlit("IOERR");
        sysexits_have_these_names("IOERR"@);
        assert("IOERR"@[0] != 'E');
    }
    if upper(t) == "TEMPFAIL"@ {
        reveal_strlit("TEMPFAIL");
        sysexits_have_these_names("TEMPFAIL"@);
        assert("TEMPFAIL"@[0] != 'E');
    }
    if upper(t) == "PROTOCOL"@ {
        reveal_strlit("PROTOCOL");
        sysexits_have_these_names("PROTOCOL"@);
        assert("PROTOCOL"@[0] != 'E');
    }
    if upper(t) == "NOPERM"@ {
        reveal_strlit("NOPERM");
        sysexits_have_these_names("NOPERM"@);
        assert("NOPERM"@[0] != 'E');
    }
    if upper(t) == "CONFIG"@ {
        reveal_strlit("CONFIG");
        sysexits_have_these_names("CONFIG"@);
        assert("CONFIG"@[0] != 'E');
    }
}

/// A process that exited counts by its code alone: just where it lies in one of
/// the ranges, whose ends belong to them. Without ranges the code 0 counts.
pub proof fn codes_in_a_range_count(s: Statuses, lo: u32, hi: u32, c: i32)
    requires
        c >= 0,
    ensures
        counts(Statuses { codes: seq![(lo, hi)], signals: s.signals }, Some(c), None) <==> lo <= c
            <= hi,
        counts(Statuses { codes: seq![], signals: s.signals }, Some(c), None) <==> c == 0,
        s.codes.len() > 0 ==> (counts(
            Statuses { codes: s.codes.push((lo, hi)), signals: s.signals },
            Some(c),
            None,
        ) <==> counts(s, Some(c), None) || lo <= c <= hi),
{
    let one = seq![(lo, hi)];
    assert(one[0] == (lo, hi));
    if in_ranges(one, c as int) {
        let i = choose|i: int| 0 <= i < one.len() && (#[trigger] one[i]).0 <= c <= one[i].1;
        assert(one[i] == (lo, hi));
    }
    let more = s.codes.push((lo, hi));
    assert(more[s.codes.len() as int] == (lo, hi));
    if in_ranges(s.codes, c as int) {
        let i = choose|i: int|
            0 <= i < s.codes.len() && (#[trigger] s.codes[i]).0 <= c <= s.codes[i].1;
        assert(more[i] == s.codes[i]);
    }
    if in_ranges(more, c as int) {
        let i = choose|i: int| 0 <= i < more.len() && (#[trigger] more[i]).0 <= c <= more[i].1;
        if i < s.codes.len() {
            assert(s.codes[i] == more[i]);
        }
    }
}

/// A process that was killed counts just where its signal is listed; one that did
/// both, or neither, does not.
pub proof fn listed_signals_count(s: Statuses, g: i32, code: i32)
    ensures
        counts(s, None, Some(g)) <==> exists|i: int|
            0 <= i < s.signals.len() && #[trigger] s.signals[i] == g,
        !counts(s, None, None),
        !counts(s, Some(code), Some(g)),
        code < 0 && (forall|i: int|
            0 <= i < s.codes.len() ==> (#[trigger] s.codes[i]).1 <= 0x7fff_ffff) ==> !counts(
            s,
            Some(code),
            None,
        ),
{
    if s.signals.contains(g) {
        let i = s.signals.index_of(g);
        assert(s.signals[i] == g);
    }
}

proof fn digits_have_no_points(s: Text, rest: Text)
    requires
        forall|i: int| 0 <= i < s.len() ==> is_digit(#[trigger] s[i]),
        rest.len() > 0 ==> is_digit(rest[0]),
    ensures
        cut_text(s, ".."@) is None,
        cut_text(s + ".."@ + rest, ".."@) == Some((s, rest)),
    decreases s.len(),
{
    reveal_strlit("..");
    let p = ".."@;
    assert(p =~= seq!['.', '.']);
    let all = s + p + rest;
    if begins(s, p) {
        assert(s.take(2)[0] == s[0]);
        assert(is_digit(s[0]));
    }
    if s.len() == 0 {
        assert(all.take(2) =~= p);
        assert(all.skip(2) =~= rest);
        assert(s =~= seq![]);
    } else {
        let t = s.skip(1);
        assert forall|i: int| 0 <= i < t.len() implies is_digit(#[trigger] t[i]) by {
            assert(t[i] == s[i + 1]);
        }
        digits_have_no_points(t, rest);
        assert(is_digit(s[0]));
        assert(all[0] == s[0]);
        assert(all.take(2)[0] == all[0]);
        assert(all.skip(1) =~= t + p + rest);
        assert(seq![s[0]] + t =~= s);
    }
}

/// A number is the one code; two numbers with `..` between them are all the codes
/// from the one to the other.
pub proof fn codes_are_read(a: nat, b: nat)
    requires
        a <= u32::MAX,
        b <= u32::MAX,
    ensures
        status_of(decimal(a)) == Ok::<Status, Text>(Status::Codes(a as u32, a as u32)),
        status_of(decimal(a) + ".."@ + decimal(b)) == Ok::<Status, Text>(
            Status::Codes(a as u32, b as u32),
        ),
{
    decimal_reads_back(a);
    decimal_reads_back(b);
    decimal_has_digits(a);
    decimal_has_digits(b);
    digits_have_no_points(decimal(a), decimal(b));
    trimmed_number(a);
    trimmed_number(b);
}

proof fn trimmed_number(n: nat)
    ensures
        trimmed(decimal(n)) == decimal(n),
{
    let d = decimal(n);
    decimal_reads_back(n);
    decimal_has_digits(n);
    assert(is_digit(d[d.len() - 1]));
    trimmed_is_the_rest(seq![], d, seq![]);
    assert(seq![] + d + seq![] =~= d);
}

/// A signal's name is that signal, also in a list of exit statuses, and a
/// `sysexits(3)` name is its code.
#[verifier::spinoff_prover]
#[verifier::rlimit(60)]
pub proof fn names_are_read_as_statuses(t: Text)
    ensures
        upper(t) == "HUP"@ ==> status_of(t) == Ok::<Status, Text>(Status::Signal(1)),
        upper(t) == "INT"@ ==> status_of(t) == Ok::<Status, Text>(Status::Signal(2)),
        upper(t) == "QUIT"@ ==> status_of(t) == Ok::<Status, Text>(Status::Signal(3)),
        upper(t) == "ILL"@ ==> status_of(t) == Ok::<Status, Text>(Status::Signal(4)),
        upper(t) == "TRAP"@ ==> status_of(t) == Ok::<Status, Text>(Status::Signal(5)),
        upper(t) == "ABRT"@ ==> status_of(t) == Ok::<Status, Text>(Status::Signal(6)),
        upper(t) == "BUS"@ ==> status_of(t) == Ok::<Status, Text>(Status::Signal(7)),
        upper(t) == "FPE"@ ==> status_of(t) == Ok::<Status, Text>(Status::Signal(8)),
        upper(t) == "KILL"@ ==> status_of(t) == Ok::<Status, Text>(Status::Signal(9)),
        upper(t) == "USR1"@ ==> status_of(t) == Ok::<Status, Text>(Status::Signal(10)),
        upper(t) == "SEGV"@ ==> status_of(t) == Ok::<Status, Text>(Status::Signal(11)),
        upper(t) == "USR2"@ ==> status_of(t) == Ok::<Status, Text>(Status::Signal(12)),
        upper(t) == "PIPE"@ ==> status_of(t) == Ok::<Status, Text>(Status::Signal(13)),
        upper(t) == "ALRM"@ ==> status_of(t) == Ok::<Status, Text>(Status::Signal(14)),
        upper(t) == "TERM"@ ==> status_of(t) == Ok::<Status, Text>(Status::Signal(15)),
        upper(t) == "CHLD"@ ==> status_of(t) == Ok::<Status, Text>(Status::Signal(17)),
        upper(t) == "CONT"@ ==> status_of(t) == Ok::<Status, Text>(Status::Signal(18)),
        upper(t) == "STOP"@ ==> status_of(t) == Ok::<Status, Text>(Status::Signal(19)),
        upper(t) == "TSTP"@ ==> status_of(t) == Ok::<Status, Text>(Status::Signal(20)),
        upper(t) == "TTIN"@ ==> status_of(t) == Ok::<Status, Text>(Status::Signal(21)),
        upper(t) == "TTOU"@ ==> status_of(t) == Ok::<Status, Text>(Status::Signal(22)),
        upper(t) == "URG"@ ==> status_of(t) == Ok::<Status, Text>(Status::Signal(23)),
        upper(t) == "XCPU"@ ==> status_of(t) == Ok::<Status, Text>(Status::Signal(24)),
        upper(t) == "XFSZ"@ ==> status_of(t) == Ok::<Status, Text>(Status::Signal(25)),
        upper(t) == "VTALRM"@ ==> status_of(t) == Ok::<Status, Text>(Status::Signal(26)),
        upper(t) == "PROF"@ ==> status_of(t) == Ok::<Status, Text>(Status::Signal(27)),
        upper(t) == "WINCH"@ ==> status_of(t) == Ok::<Status, Text>(Status::Signal(28)),
        upper(t) == "IO"@ ==> status_of(t) == Ok::<Status, Text>(Status::Signal(29)),
        upper(t) == "PWR"@ ==> status_of(t) == Ok::<Status, Text>(Status::Signal(30)),
        upper(t) == "SYS"@ ==> status_of(t) == Ok::<Status, Text>(Status::Signal(31)),
{
    if upper(t) == "HUP"@ {
        reveal_strlit("HUP");
        signals_are_read_by_name(t);
        name_is_a_signal(t, "HUP"@, 1);
    }
    if upper(t) == "INT"@ {
        reveal_strlit("INT");
        signals_are_read_by_name(t);
        name_is_a_signal(t, "INT"@, 2);
    }
    if upper(t) == "QUIT"@ {
        reveal_strlit("QUIT");
        signals_are_read_by_name(t);
        name_is_a_signal(t, "QUIT"@, 3);
    }
    if upper(t) == "ILL"@ {
        reveal_strlit("ILL");
        signals_are_read_by_name(t);
        name_is_a_signal(t, "ILL"@, 4);
    }
    if upper(t) == "TRAP"@ {
        reveal_strlit("TRAP");
        signals_are_read_by_name(t);
        name_is_a_signal(t, "TRAP"@, 5);
    }
    if upper(t) == "ABRT"@ {
        reveal_strlit("ABRT");
        signals_are_read_by_name(t);
        name_is_a_signal(t, "ABRT"@, 6);
    }
    if upper(t) == "BUS"@ {
        reveal_strlit("BUS");
        signals_are_read_by_name(t);
        name_is_a_signal(t, "BUS"@, 7);
    }
    if upper(t) == "FPE"@ {
        reveal_strlit("FPE");
        signals_are_read_by_name(t);
        name_is_a_signal(t, "FPE"@, 8);
    }
    if upper(t) == "KILL"@ {
        reveal_strlit("KILL");
        signals_are_read_by_name(t);
        name_is_a_signal(t, "KILL"@, 9);
    }
    if upper(t) == "USR1"@ {
        reveal_strlit("USR1");
        signals_are_read_by_name(t);
        name_is_a_signal(t, "USR1"@, 10);
    }
    if upper(t) == "SEGV"@ {
        reveal_strlit("SEGV");
        signals_are_read_by_name(t);
        name_is_a_signal(t, "SEGV"@, 11);
    }
    if upper(t) == "USR2"@ {
        reveal_strlit("USR2");
        signals_are_read_by_name(t);
        name_is_a_signal(t, "USR2"@, 12);
    }
    if upper(t) == "PIPE"@ {
        reveal_strlit("PIPE");
        signals_are_read_by_name(t);
        name_is_a_signal(t, "PIPE"@, 13);
    }
    if upper(t) == "ALRM"@ {
        reveal_strlit("ALRM");
        signals_are_read_by_name(t);
        name_is_a_signal(t, "ALRM"@, 14);
    }
    if upper(t) == "TERM"@ {
        reveal_strlit("TERM");
        signals_are_read_by_name(t);
        name_is_a_signal(t, "TERM"@, 15);
    }
    if upper(t) == "CHLD"@ {
        reveal_strlit("CHLD");
        signals_are_read_by_name(t);
        name_is_a_signal(t, "CHLD"@, 17);
    }
    if upper(t) == "CONT"@ {
        reveal_strlit("CONT");
        signals_are_read_by_name(t);
        name_is_a_signal(t, "CONT"@, 18);
    }
    if upper(t) == "STOP"@ {
        reveal_strlit("STOP");
        signals_are_read_by_name(t);
        name_is_a_signal(t, "STOP"@, 19);
    }
    if upper(t) == "TSTP"@ {
        reveal_strlit("TSTP");
        signals_are_read_by_name(t);
        name_is_a_signal(t, "TSTP"@, 20);
    }
    if upper(t) == "TTIN"@ {
        reveal_strlit("TTIN");
        signals_are_read_by_name(t);
        name_is_a_signal(t, "TTIN"@, 21);
    }
    if upper(t) == "TTOU"@ {
        reveal_strlit("TTOU");
        signals_are_read_by_name(t);
        name_is_a_signal(t, "TTOU"@, 22);
    }
    if upper(t) == "URG"@ {
        reveal_strlit("URG");
        signals_are_read_by_name(t);
        name_is_a_signal(t, "URG"@, 23);
    }
    if upper(t) == "XCPU"@ {
        reveal_strlit("XCPU");
        signals_are_read_by_name(t);
        name_is_a_signal(t, "XCPU"@, 24);
    }
    if upper(t) == "XFSZ"@ {
        reveal_strlit("XFSZ");
        signals_are_read_by_name(t);
        name_is_a_signal(t, "XFSZ"@, 25);
    }
    if upper(t) == "VTALRM"@ {
        reveal_strlit("VTALRM");
        signals_are_read_by_name(t);
        name_is_a_signal(t, "VTALRM"@, 26);
    }
    if upper(t) == "PROF"@ {
        reveal_strlit("PROF");
        signals_are_read_by_name(t);
        name_is_a_signal(t, "PROF"@, 27);
    }
    if upper(t) == "WINCH"@ {
        reveal_strlit("WINCH");
        signals_are_read_by_name(t);
        name_is_a_signal(t, "WINCH"@, 28);
    }
    if upper(t) == "IO"@ {
        reveal_strlit("IO");
        signals_are_read_by_name(t);
        name_is_a_signal(t, "IO"@, 29);
    }
    if upper(t) == "PWR"@ {
        reveal_strlit("PWR");
        signals_are_read_by_name(t);
        name_is_a_signal(t, "PWR"@, 30);
    }
    if upper(t) == "SYS"@ {
        reveal_strlit("SYS");
        signals_are_read_by_name(t);
        name_is_a_signal(t, "SYS"@, 31);
    }
}

proof fn name_is_a_signal(t: Text, w: Text, n: i32)
    requires
        upper(t) == w,
        signal_of(t) == Some(n as int),
        w.len() > 0,
        forall|i: int| 0 <= i < w.len() ==> #[trigger] w[i] != '.',
        'A' <= w[0] <= 'Z',
    ensures
        status_of(t) == Ok::<Status, Text>(Status::Signal(n)),
{
    letters_are_no_number(t);
    assert forall|i: int| 0 <= i < t.len() implies #[trigger] t[i] != '.' by {
        assert(w[i] == upper_char(t[i]));
    }
    no_points_no_range(t);
}

proof fn no_points_no_range(s: Text)
    requires
        forall|i: int| 0 <= i < s.len() ==> #[trigger] s[i] != '.',
    ensures
        cut_text(s, ".."@) is None,
    decreases s.len(),
{
    reveal_strlit("..");
    if begins(s, ".."@) {
        assert(s.take(2)[0] == s[0]);
        assert(".."@[0] == '.');
    }
    if s.len() > 0 {
        let t = s.skip(1);
        assert forall|i: int| 0 <= i < t.len() implies #[trigger] t[i] != '.' by {
            assert(t[i] == s[i + 1]);
        }
        no_points_no_range(t);
    }
}

// ---- booleans and numbers -------------------------------------------------------

/// The words for true and for false, in upper or lower case; any other text is
/// neither.
pub proof fn booleans_are_these_words(v: Text)
    ensures
        bool_of(v) == Ok::<bool, Text>(true) <==> (lower(v) == "1"@ || lower(v) == "yes"@ || lower(
            v,
        ) == "true"@ || lower(v) == "on"@),
        bool_of(v) == Ok::<bool, Text>(false) <==> (lower(v) == "0"@ || lower(v) == "no"@ || lower(
            v,
        ) == "false"@ || lower(v) == "off"@),
{
    reveal_strlit("1");
    reveal_strlit("yes");
    reveal_strlit("true");
    reveal_strlit("on");
    reveal_strlit("0");
    reveal_strlit("no");
    reveal_strlit("false");
    reveal_strlit("off");
    assert("1"@.len() == 1 && "1"@[0] == '1');
    assert("yes"@.len() == 3 && "yes"@[0] == 'y' && "yes"@[1] == 'e' && "yes"@[2] == 's');
    assert("true"@.len() == 4 && "true"@[0] == 't' && "true"@[1] == 'r' && "true"@[2] == 'u' && "true"@[3] == 'e');
    assert("on"@.len() == 2 && "on"@[0] == 'o' && "on"@[1] == 'n');
    assert("0"@.len() == 1 && "0"@[0] == '0');
    assert("no"@.len() == 2 && "no"@[0] == 'n' && "no"@[1] == 'o');
    assert("false"@.len() == 5 && "false"@[0] == 'f' && "false"@[1] == 'a' && "false"@[2] == 'l' && "false"@[3] == 's');
    assert("off"@.len() == 3 && "off"@[0] == 'o' && "off"@[1] == 'f' && "off"@[2] == 'f');
}

/// Each octal digit is worth eight times the one behind it.
pub proof fn octal_digits_count(s: Text, d: nat)
    requires
        s.len() > 0,
        octal_of(s) is Ok,
        d < 8,
        octal_of(s)->Ok_0 * 8 + d <= u32::MAX,
    ensures
        octal_of(s.push(((48 + d) as u32) as char)) == Ok::<u32, Text>(
            (octal_of(s)->Ok_0 * 8 + d) as u32,
        ),
        octal_of(seq![((48 + d) as u32) as char]) == Ok::<u32, Text>(d as u32),
{
    let c = ((48 + d) as u32) as char;
    let t = s.push(c);
    let u = unsigned(s);
    assert(t[0] == s[0]);
    assert(unsigned(t) =~= u.push(c));
    assert(u.push(c).drop_last() =~= u);
    let one = seq![c];
    assert(one.drop_last() =~= seq![]);
    assert(digits(one.drop_last(), 8) == Some(0nat));
    assert(unsigned(one) == one);
}

/// A limit is the number that is written, and `infinity`, in upper or lower case,
/// the largest one.
pub proof fn limits_are_read(n: nat, v: Text)
    ensures
        n <= u64::MAX ==> limit_of(decimal(n)) == Ok::<u64, Text>(n as u64),
        n > u64::MAX ==> limit_of(decimal(n)) is Err,
        lower(v) == "infinity"@ ==> limit_of(v) == Ok::<u64, Text>(0xffff_ffff_ffff_ffff),
{
    decimal_reads_back(n);
    infinity_is_no_number(decimal(n));
}

proof fn infinity_is_no_number(d: Text)
    requires
        d.len() > 0,
        is_digit(d[0]),
    ensures
        lower("infinity"@) == "infinity"@,
        lower(d) != "infinity"@,
{
    reveal_strlit("infinity");
    assert("infinity"@ =~= seq!['i', 'n', 'f', 'i', 'n', 'i', 't', 'y']);
    assert(lower("infinity"@) =~= "infinity"@);
    assert(lower(d)[0] == d[0]);
}

/// The first of two limits is the soft one, the second the hard one; one alone is
/// both.
pub proof fn soft_limits_come_first(resource: RlimitResource, a: nat, b: nat)
    requires
        a <= u64::MAX,
        b <= u64::MAX,
    ensures
        rlimit_of(resource, decimal(a) + ":"@ + decimal(b)) == Ok::<Rlimit, Text>(
            Rlimit { resource, soft: a as u64, hard: b as u64 },
        ),
        rlimit_of(resource, decimal(a)) == Ok::<Rlimit, Text>(
            Rlimit { resource, soft: a as u64, hard: a as u64 },
        ),
{
    let x = decimal(a);
    let y = decimal(b);
    decimal_reads_back(a);
    decimal_reads_back(b);
    decimal_has_digits(a);
    limits_are_read(a, x);
    limits_are_read(b, y);
    trimmed_number(a);
    trimmed_number(b);
    reveal_strlit(":");
    assert(":"@ =~= seq![':']);
    let v = x + ":"@ + y;
    let k = x.len() as int;
    assert forall|i: int| 0 <= i < k implies !chr(':')(#[trigger] v[i]) by {
        assert(v[i] == x[i]);
        assert(is_digit(x[i]));
    }
    assert(v[k] == ':');
    find_unique(v, chr(':'), k);
    assert(v.take(k) =~= x);
    assert(v.skip(k + 1) =~= y);
    assert forall|i: int| 0 <= i < k implies !chr(':')(#[trigger] x[i]) by {
        assert(is_digit(x[i]));
    }
    find_unique(x, chr(':'), k);
}

/// The suffixes of sizes are powers of 1024, in upper or lower case.
pub proof fn size_suffixes_are_binary(c: char)
    ensures
        c == 'K' || c == 'k' <==> size_factor(c) == Some(1024nat),
        c == 'M' || c == 'm' <==> size_factor(c) == Some(1_048_576nat),
        c == 'G' || c == 'g' <==> size_factor(c) == Some(1_073_741_824nat),
        c == 'T' || c == 't' <==> size_factor(c) == Some(1_099_511_627_776nat),
        c == 'P' || c == 'p' <==> size_factor(c) == Some(1_125_899_906_842_624nat),
        c == 'E' || c == 'e' <==> size_factor(c) == Some(1_152_921_504_606_846_976nat),
{
}

proof fn without_keeps(s: Text)
    requires
        forall|i: int| 0 <= i < s.len() ==> #[trigger] s[i] != ' ',
    ensures
        without(s, ' ') == s,
    decreases s.len(),
{
    if s.len() > 0 {
        let t = s.drop_last();
        assert forall|i: int| 0 <= i < t.len() implies #[trigger] t[i] != ' ' by {
            assert(t[i] == s[i]);
        }
        without_keeps(t);
        assert(s[s.len() - 1] != ' ');
        assert(t.push(s.last()) =~= s);
    } else {
        assert(s =~= seq![]);
    }
}

/// A size is the number of bytes that is written, times what its suffix stands
/// for; one that does not fit is refused.
pub proof fn sizes_are_read(n: nat, c: char, v: Text)
    requires
        size_factor(c) is Some,
    ensures
        n <= u64::MAX ==> bytes_of(decimal(n)) == Ok::<u64, Text>(n as u64),
        n * size_factor(c)->0 <= u64::MAX ==> bytes_of(decimal(n).push(c)) == Ok::<u64, Text>(
            (n * size_factor(c)->0) as u64,
        ),
        n * size_factor(c)->0 > u64::MAX ==> bytes_of(decimal(n).push(c)) is Err,
        lower(trimmed(v)) == "infinity"@ ==> bytes_of(v) == Ok::<u64, Text>(
            0xffff_ffff_ffff_ffff,
        ),
{
    let d = decimal(n);
    let s = d.push(c);
    decimal_reads_back(n);
    decimal_has_digits(n);
    trimmed_number(n);
    assert(s[0] == d[0]);
    infinity_is_no_number(d);
    infinity_is_no_number(s);
    trimmed_is_the_rest(seq![], s, seq![]);
    assert(seq![] + s + seq![] =~= s);
    without_keeps(d);
    without_keeps(s);
    assert(s.drop_last() =~= d);
    assert(is_digit(d[d.len() - 1]));
    assert(size_factor(d.last()) is None);
    assert(size_parts(d) == (d, 1nat));
    assert(n * 1 == n);
    let f = size_factor(c)->0;
    assert(f >= 1);
    if n > u64::MAX {
        assert(n * f >= n) by (nonlinear_arith)
            requires
                f >= 1,
        ;
    }
    if n * f <= u64::MAX {
        assert(n <= n * f) by (nonlinear_arith)
            requires
                f >= 1,
        ;
    }
}

// ---- streams --------------------------------------------------------------------

/// The names of the log and of nothing; a path stands behind `file:`; and a text
/// that is none of these is refused.
pub proof fn streams_go_where_they_are_sent(v: Text, path: Text)
    requires
        v.len() == 0 || v[0] != '-',
    ensures
        stdio_of(v) == Ok::<Stdio, Text>(Stdio::Journal) <==> (v == "journal"@ || v == "kmsg"@ || v
            == "syslog"@ || v == "inherit"@ || v == "journal+console"@),
        stdio_of(v) == Ok::<Stdio, Text>(Stdio::Discard) <==> v == "null"@,
        stdio_of("file:"@ + path) == Ok::<Stdio, Text>(Stdio::File(path)),
        stdio_of(v) is Ok && stdio_of(v)->Ok_0 is File ==> v == "file:"@
            + stdio_of(v)->Ok_0->File_0,
        stdio_of(v) != Ok::<Stdio, Text>(Stdio::Inherit),
{
    reveal_strlit("journal");
    reveal_strlit("kmsg");
    reveal_strlit("syslog");
    reveal_strlit("inherit");
    reveal_strlit("journal+console");
    reveal_strlit("null");
    reveal_strlit("file:");
    assert("journal"@.len() == 7 && "journal"@[0] == 'j' && "journal"@[1] == 'o' && "journal"@[2] == 'u' && "journal"@[3] == 'r');
    assert("kmsg"@.len() == 4 && "kmsg"@[0] == 'k' && "kmsg"@[1] == 'm' && "kmsg"@[2] == 's' && "kmsg"@[3] == 'g');
    assert("syslog"@.len() == 6 && "syslog"@[0] == 's' && "syslog"@[1] == 'y' && "syslog"@[2] == 's' && "syslog"@[3] == 'l');
    assert("inherit"@.len() == 7 && "inherit"@[0] == 'i' && "inherit"@[1] == 'n' && "inherit"@[2] == 'h' && "inherit"@[3] == 'e');
    assert("journal+console"@.len() == 15 && "journal+console"@[0] == 'j' && "journal+console"@[1] == 'o' && "journal+console"@[2] == 'u' && "journal+console"@[3] == 'r');
    assert("null"@.len() == 4 && "null"@[0] == 'n' && "null"@[1] == 'u' && "null"@[2] == 'l' && "null"@[3] == 'l');
    assert("file:"@.len() == 5 && "file:"@[0] == 'f' && "file:"@[1] == 'i' && "file:"@[2] == 'l' && "file:"@[3] == 'e');
    let s = "file:"@ + path;
    assert(s[0] == 'f');
    assert("file:"@ =~= seq!['f', 'i', 'l', 'e', ':']);
    assert(s[1] == 'i' && s[4] == ':');
    assert(s.take(5) =~= "file:"@);
    assert(s.skip(5) =~= path);
    assert("inherit"@[4] == 'r');
    if begins(v, "file:"@) {
        assert(v =~= "file:"@ + v.skip(5));
        assert(v[0] == v.take(5)[0]);
    }
}

/// Behind a `-` the same targets are meant, and what is none of them is the log.
pub proof fn unknown_streams_may_go_to_the_log(v: Text)
    requires
        v.len() == 0 || v[0] != '-',
    ensures
        stdio_of(v) is Ok ==> stdio_of(seq!['-'] + v) == stdio_of(v),
        stdio_of(v) is Err ==> stdio_of(seq!['-'] + v) == Ok::<Stdio, Text>(Stdio::Journal),
{
    assert((seq!['-'] + v).skip(1) =~= v);
}

/// Sets of exit statuses and streams are seen as they are.
pub proof fn sets_and_streams_are_what_they_hold(e: ExitCodeSet, p: String)
    ensures
        e@.codes == e.codes@,
        e@.signals == e.signals@,
        StdioTarget::Journal@ is Journal,
        StdioTarget::Inherit@ is Inherit,
        StdioTarget::Discard@ is Discard,
        StdioTarget::File(p)@ == Stdio::File(p@),
{
}

/// What is refused is named in the error.
pub proof fn refused_values_are_named(v: Text)
    ensures
        bool_of(v) is Err ==> bool_of(v) == Err::<bool, Text>(
            "invalid boolean `"@ + lower(v) + "`"@,
        ),
        octal_of(v) is Err ==> octal_of(v) == Err::<u32, Text>("invalid octal `"@ + v + "`"@),
        limit_of(v) is Err ==> limit_of(v) == Err::<u64, Text>(
            "invalid rlimit value `"@ + v + "`"@,
        ),
        stdio_of(v) is Err ==> stdio_of(v) == Err::<Stdio, Text>(
            "unsupported StandardOutput/std error value `"@ + v + "`"@,
        ),
        cut_text(v, ".."@) is Some && status_of(v) is Err ==> status_of(v) == Err::<Status, Text>(
            "bad range `"@ + v + "`"@,
        ),
        cut_text(v, ".."@) is None && status_of(v) is Err ==> status_of(v) == Err::<Status, Text>(
            "invalid success exit status `"@ + v + "`"@,
        ),
        words(v).len() == 0 ==> exit_statuses(v) == Err::<Statuses, Text>(
            "empty SuccessExitStatus"@,
        ),
{
}

/// A size is refused as invalid where it has no number, and as an overflow where the number
/// of bytes does not fit.
pub proof fn refused_sizes_are_named(v: Text)
    requires
        bytes_of(v) is Err,
    ensures
        ({
            let (num, factor) = size_parts(without(trimmed(v), ' '));
            let n = number(trimmed(num), 10, 0xffff_ffff_ffff_ffff);
            &&& n is None ==> bytes_of(v) == Err::<u64, Text>("invalid size `"@ + v + "`"@)
            &&& n is Some ==> n->0 * factor > 0xffff_ffff_ffff_ffff && bytes_of(v) == Err::<
                u64,
                Text,
            >("size overflow `"@ + v + "`"@)
        }),
{
}

/// A list of statuses is read one by one, up to the first that is refused; the codes and
/// the signals keep their order.
pub proof fn statuses_are_read_one_by_one(toks: Seq<Text>, t: Text)
    ensures
        statuses_of(seq![]) == Ok::<Statuses, Text>(Statuses { codes: seq![], signals: seq![] }),
        statuses_of(toks) is Err ==> statuses_of(toks.push(t)) == statuses_of(toks),
        statuses_of(toks) is Ok && status_of(t) is Err ==> statuses_of(toks.push(t)) == Err::<
            Statuses,
            Text,
        >(status_of(t)->Err_0),
        forall|lo: u32, hi: u32|
            statuses_of(toks) is Ok && #[trigger] is_status(t, Status::Codes(lo, hi))
                ==> statuses_of(toks.push(t)) == Ok::<Statuses, Text>(
                Statuses {
                    codes: statuses_of(toks)->Ok_0.codes.push((lo, hi)),
                    signals: statuses_of(toks)->Ok_0.signals,
                },
            ),
        forall|g: i32|
            statuses_of(toks) is Ok && #[trigger] is_status(t, Status::Signal(g)) ==> statuses_of(
                toks.push(t),
            ) == Ok::<Statuses, Text>(
                Statuses {
                    codes: statuses_of(toks)->Ok_0.codes,
                    signals: statuses_of(toks)->Ok_0.signals.push(g),
                },
            ),
{
    assert(toks.push(t).drop_last() =~= toks);
}

/// Does a text mean a status?
pub open spec fn is_status(t: Text, s: Status) -> bool {
    status_of(t) == Ok::<Status, Text>(s)
}

/// Two sets together hold the codes and the signals of both, those of the first before
/// those of the second.
pub proof fn sets_are_joined(a: Statuses, b: Statuses, code: Option<i32>)
    ensures
        both_lists(a, b).codes == a.codes + b.codes,
        both_lists(a, b).signals == a.signals + b.signals,
{
}

} // verus!
