//! Calendar expressions.

use vstd::prelude::*;
use vstd::string::*;

use crate::text::{owned, trim, trimmed, Text};

verus! {

/// A calendar expression, kept as it was written, without white space around
/// it.
#[derive(Debug, Clone, PartialEq, Eq)]
pub struct CalendarSpec {
    pub text: String,
}

impl View for CalendarSpec {
    type V = Text;

    open spec fn view(&self) -> Text {
        self.text@
    }
}

/// The expression that a text holds; an empty one is an error.
pub open spec fn calendar_of(s: Text) -> Result<Text, Text> {
    if trimmed(s).len() == 0 {
        Err("empty calendar specification"@)
    } else {
        Ok(trimmed(s))
    }
}

/// A result, as specifications see it.
pub open spec fn calendar_result(r: Result<CalendarSpec, String>) -> Result<Text, Text> {
    match r {
        Ok(c) => Ok(c@),
        Err(e) => Err(e@),
    }
}

impl CalendarSpec {
    pub fn parse(s: &str) -> (r: Result<CalendarSpec, String>)
        ensures
            calendar_result(r) == calendar_of(s@),
    {
        let t = trim(s);
        if t.unicode_len() == 0 {
            Err(owned("empty calendar specification"))
        } else {
            Ok(CalendarSpec { text: owned(t) })
        }
    }
}

/// Any text but a blank one is an expression, without the white space around it.
pub proof fn expressions_are_kept(s: Text)
    ensures
        trimmed(s).len() > 0 ==> calendar_of(s) == Ok::<Text, Text>(trimmed(s)),
        trimmed(s).len() == 0 ==> calendar_of(s) == Err::<Text, Text>(
            "empty calendar specification"@,
        ),
{
}

} // verus!
