//! Termination signals, with their Unix names on every platform.

use vstd::prelude::*;

use crate::text::{dec_int, decimal_int, owned, Text};

verus! {

/// A signal, by its number.
#[derive(Debug, Clone, Copy, PartialEq, Eq, Structural)]
pub struct Signal(i32);

pub const SIGHUP: i32 = 1;

pub const SIGINT: i32 = 2;

pub const SIGQUIT: i32 = 3;

pub const SIGKILL: i32 = 9;

pub const SIGTERM: i32 = 15;

pub const SIGCHLD: i32 = 17;

/// Is the number that of a signal? The signals are those from 1 to 31.
pub open spec fn is_signal(n: int) -> bool {
    1 <= n <= 31
}

/// `nix::sys::signal::Signal::try_from`: it succeeds for the numbers of the
/// signals that the platform has. On Linux, but for MIPS and SPARC, those are
/// the numbers from 1 to 31.
#[verifier::external_body]
fn platform_signal(value: i32) -> (r: bool)
    ensures
        r == is_signal(value as int),
{
    nix::sys::signal::Signal::try_from(value).is_ok()
}

/// The name of a signal, or its number where it has no name here.
pub open spec fn signal_name(n: int) -> Text {
    if n == 1 {
        "SIGHUP"@
    } else if n == 2 {
        "SIGINT"@
    } else if n == 3 {
        "SIGQUIT"@
    } else if n == 9 {
        "SIGKILL"@
    } else if n == 15 {
        "SIGTERM"@
    } else if n == 17 {
        "SIGCHLD"@
    } else {
        decimal_int(n)
    }
}

impl Signal {
    pub closed spec fn raw(self) -> int {
        self.0 as int
    }

    /// The signal's number.
    pub fn as_raw(self) -> (r: i32)
        ensures
            r == self.raw(),
    {
        self.0
    }

    /// The signal with the given number.
    pub fn try_from(value: i32) -> (r: Result<Signal, ()>)
        ensures
            match r {
                Ok(s) => is_signal(value as int) && s.raw() == value,
                Err(_) => !is_signal(value as int),
            },
    {
        if platform_signal(value) {
            Ok(Signal(value))
        } else {
            Err(())
        }
    }

    pub fn sigterm() -> (r: Signal)
        ensures
            r.raw() == SIGTERM,
            r.raw() == 15,
    {
        Signal(SIGTERM)
    }

    pub fn sigkill() -> (r: Signal)
        ensures
            r.raw() == SIGKILL,
            r.raw() == 9,
    {
        Signal(SIGKILL)
    }

    /// The signal as it is shown: its name, or its number.
    pub fn show(&self) -> (r: String)
        ensures
            r@ == signal_name(self.raw()),
    {
        match self.0 {
            1 => owned("SIGHUP"),
            2 => owned("SIGINT"),
            3 => owned("SIGQUIT"),
            9 => owned("SIGKILL"),
            15 => owned("SIGTERM"),
            17 => owned("SIGCHLD"),
            n => dec_int(n as i64),
        }
    }
}

} // verus!
