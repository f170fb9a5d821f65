//! The colors of the terminal interface.

use vstd::prelude::*;

use crate::text::{same, Text};

verus! {

#[derive(Debug, Clone, Copy, PartialEq, Eq, Structural)]
pub enum Color {
    DarkGray,
    Cyan,
    Green,
    Yellow,
    Red,
    Gray,
    LightCyan,
    Blue,
    White,
}

pub const C_BORDER: Color = Color::DarkGray;

pub const C_BORDER_ACTIVE: Color = Color::Cyan;

pub const C_ACCENT: Color = Color::Cyan;

pub const C_ACTIVE: Color = Color::Green;

pub const C_WARN: Color = Color::Yellow;

pub const C_ERROR: Color = Color::Red;

pub const C_DIM: Color = Color::Gray;

pub const C_INFO: Color = Color::LightCyan;

pub const C_HIGHLIGHT_BG: Color = Color::Blue;

/// What is selected: the color behind it, and its own.
pub fn highlight_style() -> (r: (Color, Color))
    ensures
        r == (C_HIGHLIGHT_BG, Color::White),
        r == (Color::Blue, Color::White),
{
    (C_HIGHLIGHT_BG, Color::White)
}

/// The color of a unit's state.
pub open spec fn color_of_state(s: Text) -> Color {
    if s == "active"@ || s == "running"@ {
        C_ACTIVE
    } else if s == "failed"@ {
        C_ERROR
    } else if s == "activating"@ || s == "deactivating"@ || s == "reloading"@ {
        C_WARN
    } else {
        C_DIM
    }
}

/// The color of a unit's state.
pub fn state_color(s: &str) -> (r: Color)
    ensures
        r == color_of_state(s@),
{
    if same(s, "active") || same(s, "running") {
        C_ACTIVE
    } else if same(s, "failed") {
        C_ERROR
    } else if same(s, "activating") || same(s, "deactivating") || same(s, "reloading") {
        C_WARN
    } else {
        C_DIM
    }
}

/// The color of an enable state.
pub open spec fn color_of_enabled(s: Text) -> Color {
    if s == "enabled"@ || s == "enabled-runtime"@ || s == "static"@ {
        C_ACTIVE
    } else if s == "masked"@ {
        C_WARN
    } else {
        C_DIM
    }
}

/// The color of an enable state.
pub fn enabled_color(s: &str) -> (r: Color)
    ensures
        r == color_of_enabled(s@),
{
    if same(s, "enabled") || same(s, "enabled-runtime") || same(s, "static") {
        C_ACTIVE
    } else if same(s, "masked") {
        C_WARN
    } else {
        C_DIM
    }
}

/// The color of a state is green where it runs, red where it failed, yellow where it
/// is about to change, and gray else.
pub proof fn states_have_these_colors(s: Text)
    ensures
        color_of_state(s) == Color::Green <==> s == "active"@ || s == "running"@,
        color_of_state(s) == Color::Red <==> s == "failed"@,
        color_of_state(s) == Color::Yellow <==> s == "activating"@ || s == "deactivating"@ || s
            == "reloading"@,
        color_of_state(s) == Color::Gray <==> s != "active"@ && s != "running"@ && s != "failed"@
            && s != "activating"@ && s != "deactivating"@ && s != "reloading"@,
        color_of_enabled(s) == Color::Green <==> s == "enabled"@ || s == "enabled-runtime"@ || s
            == "static"@,
        color_of_enabled(s) == Color::Yellow <==> s == "masked"@,
        color_of_enabled(s) == Color::Gray <==> s != "enabled"@ && s != "enabled-runtime"@ && s
            != "static"@ && s != "masked"@,
{
    reveal_strlit("active");
    reveal_strlit("running");
    reveal_strlit("failed");
    reveal_strlit("activating");
    reveal_strlit("deactivating");
    reveal_strlit("reloading");
    reveal_strlit("enabled");
    reveal_strlit("enabled-runtime");
    reveal_strlit("static");
    reveal_strlit("masked");
    assert("active"@.len() == 6 && "active"@[0] == 'a' && "active"@[1] == 'c');
    assert("running"@.len() == 7 && "running"@[0] == 'r' && "running"@[1] == 'u');
    assert("failed"@.len() == 6 && "failed"@[0] == 'f' && "failed"@[1] == 'a');
    assert("activating"@.len() == 10 && "activating"@[0] == 'a' && "activating"@[1] == 'c');
    assert("deactivating"@.len() == 12 && "deactivating"@[0] == 'd' && "deactivating"@[1] == 'e');
    assert("reloading"@.len() == 9 && "reloading"@[0] == 'r' && "reloading"@[1] == 'e');
    assert("enabled"@.len() == 7 && "enabled"@[0] == 'e' && "enabled"@[1] == 'n');
    assert("enabled-runtime"@.len() == 15 && "enabled-runtime"@[0] == 'e' && "enabled-runtime"@[1] == 'n');
    assert("static"@.len() == 6 && "static"@[0] == 's' && "static"@[1] == 't');
    assert("masked"@.len() == 6 && "masked"@[0] == 'm' && "masked"@[1] == 'a');
}

} // verus!
