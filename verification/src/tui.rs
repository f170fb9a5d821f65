//! The terminal interface: its state, and what each key does to it.

use vstd::prelude::*;

use crate::control::{
    FileInfo, Status, Summary, Timer, TimerInfo, UnitFileInfo, UnitStatus, UnitSummary,
};
use crate::order::views;
use crate::text::{cat2, cat3, contains, join, joined, lower, owned, same, texts, within, Text};

pub mod laws;
pub mod render;
pub mod theme;

verus! {

/// The size that is drawn where the terminal has none.
pub const DEFAULT_COLS: u16 = 80;

pub const DEFAULT_ROWS: u16 = 24;

/// Does the terminal say how large it is?
pub open spec fn is_sized(actual: Option<(u16, u16)>) -> bool {
    match actual {
        Some((cols, rows)) => cols > 0 && rows > 0,
        None => false,
    }
}

/// The size that is drawn: that of the terminal, or the default where it has
/// none.
pub fn effective_size(actual: Option<(u16, u16)>) -> (r: (u16, u16))
    ensures
        r == (if is_sized(actual) {
            actual->0
        } else {
            (DEFAULT_COLS, DEFAULT_ROWS)
        }),
        actual is None ==> r == (80u16, 24u16),
        forall|c: u16, w: u16| actual == Some((c, w)) && c > 0 && w > 0 ==> r == (c, w),
        forall|c: u16, w: u16| actual == Some((c, w)) && (c == 0 || w == 0) ==> r == (80u16, 24u16),
{
    match actual {
        Some((cols, rows)) => if cols > 0 && rows > 0 {
            (cols, rows)
        } else {
            (DEFAULT_COLS, DEFAULT_ROWS)
        },
        None => (DEFAULT_COLS, DEFAULT_ROWS),
    }
}

/// Does the terminal say how large it is? If not, a fixed part of it is drawn.
pub fn is_fullscreen(actual: Option<(u16, u16)>) -> (r: bool)
    ensures
        r == is_sized(actual),
        actual is None ==> !r,
        forall|c: u16, w: u16| actual == Some((c, w)) ==> r == (c > 0 && w > 0),
{
    match actual {
        Some((cols, rows)) => cols > 0 && rows > 0,
        None => false,
    }
}

/// How many milliseconds pass between two loads of everything.
pub const REFRESH_MILLIS: u64 = 2_000;

/// Is everything to be loaded again, so long after it was loaded?
pub fn is_due(elapsed_millis: u64) -> (r: bool)
    ensures
        r == (elapsed_millis >= REFRESH_MILLIS),
        r == (elapsed_millis >= 2_000),
{
    elapsed_millis >= REFRESH_MILLIS
}

/// What is said where no manager can be reached.
pub fn connect(user: bool, error: &str) -> (r: String)
    ensures
        r@ == (if user {
            "no user manager reachable — start one with `rustemd daemon --user` ("@
        } else {
            "no system manager reachable — start one with `rustemd daemon` ("@
        }) + error@ + ")"@,
{
    if user {
        cat3(
            "no user manager reachable — start one with `rustemd daemon --user` (",
            error,
            ")",
        )
    } else {
        cat3("no system manager reachable — start one with `rustemd daemon` (", error, ")")
    }
}

// ---- tabs -----------------------------------------------------------------------

#[derive(Debug, Clone, Copy, PartialEq, Eq, Structural)]
pub enum Tab {
    Units,
    Services,
    Timers,
    Files,
}

pub open spec fn tab_label(t: Tab) -> Text {
    match t {
        Tab::Units => "Units"@,
        Tab::Services => "Services"@,
        Tab::Timers => "Timers"@,
        Tab::Files => "Unit files"@,
    }
}

pub open spec fn tab_index(t: Tab) -> int {
    match t {
        Tab::Units => 0,
        Tab::Services => 1,
        Tab::Timers => 2,
        Tab::Files => 3,
    }
}

/// The tab at a place, counted round.
pub open spec fn tab_at(i: int) -> Tab {
    if i % 4 == 0 {
        Tab::Units
    } else if i % 4 == 1 {
        Tab::Services
    } else if i % 4 == 2 {
        Tab::Timers
    } else {
        Tab::Files
    }
}

impl Tab {
    pub const ALL: [Tab; 4] = [Tab::Units, Tab::Services, Tab::Timers, Tab::Files];

    pub fn label(self) -> (r: &'static str)
        ensures
            r@ == tab_label(self),
    {
        match self {
            Tab::Units => "Units",
            Tab::Services => "Services",
            Tab::Timers => "Timers",
            Tab::Files => "Unit files",
        }
    }

    pub fn index(self) -> (r: usize)
        ensures
            r == tab_index(self),
    {
        match self {
            Tab::Units => 0,
            Tab::Services => 1,
            Tab::Timers => 2,
            Tab::Files => 3,
        }
    }

    /// The tab to the right; behind the last one comes the first.
    pub fn next(self) -> (r: Tab)
        ensures
            r == tab_at(tab_index(self) + 1),
    {
        match self {
            Tab::Units => Tab::Services,
            Tab::Services => Tab::Timers,
            Tab::Timers => Tab::Files,
            Tab::Files => Tab::Units,
        }
    }

    /// The tab to the left; before the first one comes the last.
    pub fn prev(self) -> (r: Tab)
        ensures
            r == tab_at(tab_index(self) - 1),
    {
        match self {
            Tab::Units => Tab::Files,
            Tab::Services => Tab::Units,
            Tab::Timers => Tab::Services,
            Tab::Files => Tab::Timers,
        }
    }
}

/// Going to the next tab and back leads to the same tab, and so does going
/// round.
pub proof fn tabs_go_round(t: Tab)
    ensures
        tab_at(tab_index(t)) == t,
        tab_at(tab_index(tab_at(tab_index(t) + 1)) - 1) == t,
        tab_at(tab_index(tab_at(tab_index(t) - 1)) + 1) == t,
        tab_at(tab_index(t) + 4) == t,
{
}

// ---- what is done ---------------------------------------------------------------

/// What can be done to a unit, and to the manager.
#[derive(Debug, Clone, Copy, PartialEq, Eq, Structural)]
pub enum Action {
    Start,
    Stop,
    Restart,
    Reload,
    Enable,
    Disable,
    DaemonReload,
}

/// What a key asks of the world outside.
#[derive(Debug, Clone, PartialEq, Eq)]
pub enum Effect {
    Nothing,
    /// Load the status of the unit that is selected.
    Detail(Option<String>),
    /// Load everything.
    Refresh,
    /// Do this to that unit.
    Act(Action, String),
    /// Have the manager load its units again.
    ReloadDaemon,
}

/// What a key asks, as specifications see it.
pub ghost enum Wanted {
    Nothing,
    Detail(Option<Text>),
    Refresh,
    Act(Action, Text),
    ReloadDaemon,
}

impl View for Effect {
    type V = Wanted;

    open spec fn view(&self) -> Wanted {
        match self {
            Effect::Nothing => Wanted::Nothing,
            Effect::Detail(n) => Wanted::Detail(crate::text::opt_text(*n)),
            Effect::Refresh => Wanted::Refresh,
            Effect::Act(a, n) => Wanted::Act(*a, n@),
            Effect::ReloadDaemon => Wanted::ReloadDaemon,
        }
    }
}

/// A key.
#[derive(Debug, Clone, Copy, PartialEq, Eq, Structural)]
pub enum KeyCode {
    Char(char),
    Esc,
    Enter,
    Tab,
    BackTab,
    Up,
    Down,
    PageUp,
    PageDown,
    Home,
    End,
    Backspace,
    Other,
}

/// A key that was pressed. `control` says whether Control, and nothing else, was
/// held down with it.
#[derive(Debug, Clone, Copy, PartialEq, Eq, Structural)]
pub struct Key {
    pub code: KeyCode,
    pub control: bool,
}

// ---- the state ------------------------------------------------------------------

/// The state of the interface.
#[derive(Debug)]
pub struct App {
    pub user: bool,
    pub tab: Tab,
    pub selected: usize,
    pub filter: String,
    pub searching: bool,
    pub units: Vec<UnitSummary>,
    pub services: Vec<UnitSummary>,
    pub timers: Vec<TimerInfo>,
    pub files: Vec<UnitFileInfo>,
    pub detail: Vec<UnitStatus>,
    pub default_target: String,
    pub running: bool,
    /// The last message, and whether it is that of a failure.
    pub status: Option<(String, bool)>,
}

/// The state, as specifications see it.
#[verifier::ext_equal]
pub ghost struct Screen {
    pub user: bool,
    pub tab: Tab,
    pub selected: nat,
    pub filter: Text,
    pub searching: bool,
    pub units: Seq<Summary>,
    pub services: Seq<Summary>,
    pub timers: Seq<Timer>,
    pub files: Seq<FileInfo>,
    pub detail: Seq<Status>,
    pub default_target: Text,
    pub running: bool,
    pub status: Option<(Text, bool)>,
}

/// A message, as specifications see it.
pub open spec fn message_view(m: Option<(String, bool)>) -> Option<(Text, bool)> {
    match m {
        Some((t, b)) => Some((t@, b)),
        None => None,
    }
}

impl View for App {
    type V = Screen;

    open spec fn view(&self) -> Screen {
        Screen {
            user: self.user,
            tab: self.tab,
            selected: self.selected as nat,
            filter: self.filter@,
            searching: self.searching,
            units: views(self.units@),
            services: views(self.services@),
            timers: views(self.timers@),
            files: views(self.files@),
            detail: views(self.detail@),
            default_target: self.default_target@,
            running: self.running,
            status: message_view(self.status),
        }
    }
}

// ---- what is listed -------------------------------------------------------------

/// What `str::to_lowercase` makes of a text that is not ASCII.
pub uninterp spec fn lowercased(s: Text) -> Text;

/// Is every character ASCII?
pub open spec fn is_ascii_text(s: Text) -> bool {
    forall|i: int| 0 <= i < s.len() ==> (#[trigger] s[i]) as u32 <= 127
}

/// A text in lower case. In one that is ASCII only the letters A to Z change.
pub open spec fn lowered(s: Text) -> Text {
    if is_ascii_text(s) {
        lower(s)
    } else {
        lowercased(s)
    }
}

/// `str::to_lowercase`: only the letters A to Z change in a text that is ASCII;
/// of any other one, the text decides what comes out.
#[verifier::external_body]
fn lowercase(s: &str) -> (r: String)
    ensures
        is_ascii_text(s@) ==> r@ == lower(s@),
        !is_ascii_text(s@) ==> r@ == lowercased(s@),
{
    s.to_lowercase()
}

/// The names of what a tab lists.
pub open spec fn tab_names(s: Screen, t: Tab) -> Seq<Text> {
    match t {
        Tab::Units => Seq::new(s.units.len(), |i: int| s.units[i].unit),
        Tab::Services => Seq::new(s.services.len(), |i: int| s.services[i].unit),
        Tab::Timers => Seq::new(s.timers.len(), |i: int| s.timers[i].unit),
        Tab::Files => Seq::new(s.files.len(), |i: int| s.files[i].file),
    }
}

/// Does a name pass the filter? Upper and lower case are the same there.
pub open spec fn hit(name: Text, q: Text) -> bool {
    q.len() == 0 || within(lowered(name), q)
}

/// The places of the names that pass the filter.
pub open spec fn hits(names: Seq<Text>, q: Text) -> Seq<int>
    decreases names.len(),
{
    if names.len() == 0 {
        seq![]
    } else if hit(names.last(), q) {
        hits(names.drop_last(), q).push(names.len() - 1)
    } else {
        hits(names.drop_last(), q)
    }
}

/// The places of what is listed.
pub open spec fn visible(s: Screen) -> Seq<int> {
    hits(tab_names(s, s.tab), lowered(s.filter))
}

/// The place of what is selected.
pub open spec fn chosen(s: Screen) -> Option<int> {
    if s.selected < visible(s).len() {
        Some(visible(s)[s.selected as int])
    } else {
        None
    }
}

/// The unit whose status is shown.
pub open spec fn target_of(s: Screen) -> Option<Text> {
    match chosen(s) {
        Some(i) => match s.tab {
            Tab::Units => Some(s.units[i].unit),
            Tab::Services => Some(s.services[i].unit),
            Tab::Timers => Some(s.timers[i].activates),
            Tab::Files => Some(s.files[i].file),
        },
        None => None,
    }
}

/// The unit that actions are for.
pub open spec fn subject_of(s: Screen) -> Option<Text> {
    match chosen(s) {
        Some(i) => match s.tab {
            Tab::Units => Some(s.units[i].unit),
            Tab::Services => Some(s.services[i].unit),
            Tab::Timers => Some(s.timers[i].unit),
            Tab::Files => Some(s.files[i].file),
        },
        None => None,
    }
}

proof fn hits_are_places(names: Seq<Text>, q: Text)
    ensures
        hits(names, q).len() <= names.len(),
        forall|k: int|
            0 <= k < hits(names, q).len() ==> 0 <= (#[trigger] hits(names, q)[k]) < names.len(),
    decreases names.len(),
{
    if names.len() > 0 {
        hits_are_places(names.drop_last(), q);
        assert forall|k: int| 0 <= k < hits(names, q).len() implies 0 <= (
        #[trigger] hits(names, q)[k]) < names.len() by {
            if k < hits(names.drop_last(), q).len() {
                assert(hits(names.drop_last(), q)[k] == hits(names, q)[k]);
            }
        }
    }
}

/// What is listed stands in the tab.
pub proof fn visible_is_listed(s: Screen)
    ensures
        forall|k: int|
            0 <= k < visible(s).len() ==> 0 <= (#[trigger] visible(s)[k]) < tab_names(
                s,
                s.tab,
            ).len(),
{
    hits_are_places(tab_names(s, s.tab), lowered(s.filter));
}

proof fn all_hit(names: Seq<Text>, q: Text)
    requires
        q.len() == 0,
    ensures
        hits(names, q) == Seq::new(names.len(), |i: int| i),
    decreases names.len(),
{
    if names.len() > 0 {
        all_hit(names.drop_last(), q);
        assert(hits(names, q) =~= Seq::new(names.len(), |i: int| i));
    } else {
        assert(hits(names, q) =~= Seq::new(names.len(), |i: int| i));
    }
}

/// Without a filter everything in the tab is listed, in order.
pub proof fn no_filter_lists_everything(s: Screen)
    requires
        s.filter.len() == 0,
    ensures
        visible(s) == Seq::new(tab_names(s, s.tab).len(), |i: int| i),
{
    assert(lowered(s.filter).len() == 0);
    all_hit(tab_names(s, s.tab), lowered(s.filter));
}

// ---- what keys do ---------------------------------------------------------------

/// The state with another place selected.
pub open spec fn at_place(s: Screen, i: nat) -> (Screen, Wanted) {
    let t = Screen { selected: i, ..s };
    (t, Wanted::Detail(target_of(t)))
}

/// The state with another tab.
pub open spec fn on_tab(s: Screen, t: Tab) -> (Screen, Wanted) {
    let u = Screen { tab: t, selected: 0, filter: seq![], searching: false, ..s };
    (u, Wanted::Detail(target_of(u)))
}

/// The state with another tab, unless it is that one already.
pub open spec fn switched(s: Screen, t: Tab) -> (Screen, Wanted) {
    if s.tab == t {
        (s, Wanted::Nothing)
    } else {
        on_tab(s, t)
    }
}

/// The place so many steps up.
pub open spec fn up(s: Screen, n: int) -> nat {
    if s.selected >= n {
        (s.selected - n) as nat
    } else {
        0
    }
}

/// The place so many steps down.
pub open spec fn down(s: Screen, n: int) -> nat {
    let len = visible(s).len();
    if len == 0 {
        s.selected
    } else if s.selected + n <= len - 1 {
        (s.selected + n) as nat
    } else {
        (len - 1) as nat
    }
}

/// The last place.
pub open spec fn last_place(s: Screen) -> nat {
    let len = visible(s).len();
    if len == 0 {
        s.selected
    } else {
        (len - 1) as nat
    }
}

/// What an action comes to, where something is selected.
pub open spec fn acting(s: Screen, a: Action) -> (Screen, Wanted) {
    if a == Action::DaemonReload {
        (s, Wanted::ReloadDaemon)
    } else {
        match subject_of(s) {
            Some(n) => (s, Wanted::Act(a, n)),
            None => (
                Screen { status: Some(("nothing selected"@, true)), ..s },
                Wanted::Nothing,
            ),
        }
    }
}

/// What a character does, where no filter is typed.
pub open spec fn pressed_char(s: Screen, c: char) -> (Screen, Wanted) {
    if c == 'q' {
        (Screen { running: false, ..s }, Wanted::Nothing)
    } else if c == 'k' {
        at_place(s, up(s, 1))
    } else if c == 'j' {
        at_place(s, down(s, 1))
    } else if c == '/' {
        (Screen { searching: true, filter: seq![], selected: 0, ..s }, Wanted::Nothing)
    } else if c == 'f' {
        (Screen { status: Some(("refreshed"@, false)), ..s }, Wanted::Refresh)
    } else if c == '1' {
        switched(s, Tab::Units)
    } else if c == '2' {
        switched(s, Tab::Services)
    } else if c == '3' {
        switched(s, Tab::Timers)
    } else if c == '4' {
        switched(s, Tab::Files)
    } else if c == 's' {
        acting(s, Action::Start)
    } else if c == 'x' {
        acting(s, Action::Stop)
    } else if c == 'r' {
        acting(s, Action::Restart)
    } else if c == 'l' {
        acting(s, Action::Reload)
    } else if c == 'e' {
        acting(s, Action::Enable)
    } else if c == 'd' {
        acting(s, Action::Disable)
    } else if c == 'R' {
        acting(s, Action::DaemonReload)
    } else {
        (s, Wanted::Nothing)
    }
}

/// What a key does while the filter is typed.
pub open spec fn searched(s: Screen, k: KeyCode) -> Screen {
    match k {
        KeyCode::Esc => Screen { searching: false, filter: seq![], ..s },
        KeyCode::Enter => Screen { searching: false, ..s },
        KeyCode::Char(c) => Screen { filter: s.filter.push(c), selected: 0, ..s },
        KeyCode::Backspace => if s.filter.len() == 0 {
            Screen { searching: false, selected: 0, ..s }
        } else {
            Screen { filter: s.filter.drop_last(), selected: 0, ..s }
        },
        _ => s,
    }
}

/// What a key does: Control and `q` end the program in any state.
pub open spec fn pressed(s: Screen, key: Key) -> (Screen, Wanted) {
    if key.code == KeyCode::Char('q') && key.control {
        (Screen { running: false, ..s }, Wanted::Nothing)
    } else if s.searching {
        (searched(s, key.code), Wanted::Nothing)
    } else {
        match key.code {
            KeyCode::Char(c) => pressed_char(s, c),
            KeyCode::Esc => (Screen { running: false, ..s }, Wanted::Nothing),
            KeyCode::Tab => on_tab(s, tab_at(tab_index(s.tab) + 1)),
            KeyCode::BackTab => on_tab(s, tab_at(tab_index(s.tab) - 1)),
            KeyCode::Up => at_place(s, up(s, 1)),
            KeyCode::Down => at_place(s, down(s, 1)),
            KeyCode::PageUp => at_place(s, up(s, 10)),
            KeyCode::PageDown => at_place(s, down(s, 10)),
            KeyCode::Home => at_place(s, 0),
            KeyCode::End => at_place(s, last_place(s)),
            _ => (s, Wanted::Nothing),
        }
    }
}

/// The state after everything was loaded: the selection stays inside the list.
pub open spec fn refreshed(
    s: Screen,
    units: Seq<Summary>,
    services: Seq<Summary>,
    timers: Seq<Timer>,
    files: Seq<FileInfo>,
    default_target: Text,
) -> (Screen, Wanted) {
    let t = Screen { units, services, timers, files, default_target, ..s };
    let len = visible(t).len();
    let u = if len > 0 && t.selected >= len {
        Screen { selected: (len - 1) as nat, ..t }
    } else {
        t
    };
    (u, Wanted::Detail(target_of(u)))
}

/// What is said of an action that was done.
pub open spec fn done_text(a: Action, n: Text, messages: Seq<Text>) -> Text {
    match a {
        Action::Start => "started "@ + n,
        Action::Stop => "stopped "@ + n,
        Action::Restart => "restarted "@ + n,
        Action::Reload => "reloaded "@ + n,
        Action::Enable => "enabled "@ + n + ": "@ + joined(messages, ", "@),
        Action::Disable => "disabled "@ + n + ": "@ + joined(messages, ", "@),
        Action::DaemonReload => "daemon reloaded"@,
    }
}

/// The state after an action: everything is loaded again where it was done.
pub open spec fn acted(s: Screen, a: Action, n: Text, r: Result<Seq<Text>, Text>) -> (
    Screen,
    Wanted,
) {
    match r {
        Ok(m) => (Screen { status: Some((done_text(a, n, m), false)), ..s }, Wanted::Refresh),
        Err(e) => (Screen { status: Some((e, true)), ..s }, Wanted::Nothing),
    }
}

/// What an action brought, as specifications see it.
pub open spec fn action_result(r: Result<Vec<String>, String>) -> Result<Seq<Text>, Text> {
    match r {
        Ok(m) => Ok(texts(m@)),
        Err(e) => Err(e@),
    }
}

impl App {
    /// The state to begin with: nothing is loaded yet.
    pub fn new(user: bool) -> (r: App)
        ensures
            r@ == (Screen {
                user,
                tab: Tab::Units,
                selected: 0,
                filter: seq![],
                searching: false,
                units: seq![],
                services: seq![],
                timers: seq![],
                files: seq![],
                detail: seq![],
                default_target: seq![],
                running: true,
                status: None,
            }),
    {
        let r = App {
            user,
            tab: Tab::Units,
            selected: 0,
            filter: String::new(),
            searching: false,
            units: Vec::new(),
            services: Vec::new(),
            timers: Vec::new(),
            files: Vec::new(),
            detail: Vec::new(),
            default_target: String::new(),
            running: true,
            status: None,
        };
        proof {
            assert(views(r.units@) =~= seq![]);
            assert(views(r.services@) =~= seq![]);
            assert(views(r.timers@) =~= seq![]);
            assert(views(r.files@) =~= seq![]);
            assert(views(r.detail@) =~= seq![]);
        }
        r
    }

    fn count(&self) -> (r: usize)
        ensures
            r == tab_names(self@, self.tab).len(),
    {
        match self.tab {
            Tab::Units => self.units.len(),
            Tab::Services => self.services.len(),
            Tab::Timers => self.timers.len(),
            Tab::Files => self.files.len(),
        }
    }

    fn name_at(&self, i: usize) -> (r: &str)
        requires
            i < tab_names(self@, self.tab).len(),
        ensures
            r@ == tab_names(self@, self.tab)[i as int],
    {
        match self.tab {
            Tab::Units => self.units[i].unit.as_str(),
            Tab::Services => self.services[i].unit.as_str(),
            Tab::Timers => self.timers[i].unit.as_str(),
            Tab::Files => self.files[i].file.as_str(),
        }
    }

    /// The places of what is listed.
    pub fn visible_indices(&self) -> (r: Vec<usize>)
        ensures
            r@.len() == visible(self@).len(),
            forall|k: int| 0 <= k < r@.len() ==> (#[trigger] r@[k]) == visible(self@)[k],
    {
        let q = lowercase(self.filter.as_str());
        let ghost names = tab_names(self@, self.tab);
        let n = self.count();
        let mut out: Vec<usize> = Vec::new();
        let mut i: usize = 0;
        proof {
            assert(names.take(0) =~= seq![]);
            reveal_strlit("");
            assert(q@.len() == 0 ==> q@ =~= ""@);
        }
        let open = same(q.as_str(), "");
        while i < n
            invariant
                i <= n,
                n == names.len(),
                names == tab_names(self@, self.tab),
                open == (q@.len() == 0),
                out@.len() == hits(names.take(i as int), q@).len(),
                forall|k: int|
                    0 <= k < out@.len() ==> (#[trigger] out@[k]) == hits(
                        names.take(i as int),
                        q@,
                    )[k],
            decreases n - i,
        {
            let ghost upto = names.take(i + 1);
            proof {
                assert(upto.drop_last() =~= names.take(i as int));
                assert(upto.last() == names[i as int]);
            }
            let name = lowercase(self.name_at(i));
            if open || contains(name.as_str(), q.as_str()) {
                out.push(i);
            }
            i = i + 1;
        }
        assert(names.take(n as int) =~= names);
        out
    }

    fn chosen(&self) -> (r: Option<usize>)
        ensures
            match r {
                Some(i) => chosen(self@) == Some(i as int) && i < tab_names(self@, self.tab).len(),
                None => chosen(self@) is None,
            },
    {
        let v = self.visible_indices();
        if self.selected < v.len() {
            proof {
                hits_are_places(tab_names(self@, self.tab), lowered(self.filter@));
                assert(visible(self@)[self.selected as int] == v@[self.selected as int]);
            }
            Some(v[self.selected])
        } else {
            None
        }
    }

    /// The unit whose status is shown.
    pub fn selected_target(&self) -> (r: Option<String>)
        ensures
            crate::text::opt_text(r) == target_of(self@),
    {
        match self.chosen() {
            Some(i) => match self.tab {
                Tab::Units => Some(self.units[i].unit.clone()),
                Tab::Services => Some(self.services[i].unit.clone()),
                Tab::Timers => Some(self.timers[i].activates.clone()),
                Tab::Files => Some(self.files[i].file.clone()),
            },
            None => None,
        }
    }

    /// The unit that actions are for.
    pub fn action_name(&self) -> (r: Option<String>)
        ensures
            crate::text::opt_text(r) == subject_of(self@),
    {
        match self.chosen() {
            Some(i) => match self.tab {
                Tab::Units => Some(self.units[i].unit.clone()),
                Tab::Services => Some(self.services[i].unit.clone()),
                Tab::Timers => Some(self.timers[i].unit.clone()),
                Tab::Files => Some(self.files[i].file.clone()),
            },
            None => None,
        }
    }

    fn go(&mut self, i: usize) -> (r: Effect)
        ensures
            (final(self)@, r@) == at_place(old(self)@, i as nat),
    {
        self.selected = i;
        Effect::Detail(self.selected_target())
    }

    fn open_tab(&mut self, t: Tab) -> (r: Effect)
        ensures
            (final(self)@, r@) == on_tab(old(self)@, t),
    {
        self.tab = t;
        self.selected = 0;
        self.filter = String::new();
        self.searching = false;
        assert(self@ =~= on_tab(old(self)@, t).0);
        Effect::Detail(self.selected_target())
    }

    fn switch_to(&mut self, t: Tab) -> (r: Effect)
        ensures
            (final(self)@, r@) == switched(old(self)@, t),
    {
        if self.tab == t {
            Effect::Nothing
        } else {
            self.open_tab(t)
        }
    }

    fn move_up(&mut self, n: usize) -> (r: Effect)
        ensures
            (final(self)@, r@) == at_place(old(self)@, up(old(self)@, n as int)),
    {
        let i: usize = if self.selected >= n {
            self.selected - n
        } else {
            0
        };
        self.go(i)
    }

    fn move_down(&mut self, n: usize) -> (r: Effect)
        ensures
            (final(self)@, r@) == at_place(old(self)@, down(old(self)@, n as int)),
    {
        let len = self.visible_indices().len();
        let i: usize = if len == 0 {
            self.selected
        } else if self.selected <= len - 1 && len - 1 - self.selected >= n {
            self.selected + n
        } else {
            len - 1
        };
        self.go(i)
    }

    fn move_end(&mut self) -> (r: Effect)
        ensures
            (final(self)@, r@) == at_place(old(self)@, last_place(old(self)@)),
    {
        let len = self.visible_indices().len();
        let i: usize = if len == 0 {
            self.selected
        } else {
            len - 1
        };
        self.go(i)
    }

    fn run_action(&mut self, a: Action) -> (r: Effect)
        ensures
            (final(self)@, r@) == acting(old(self)@, a),
    {
        match a {
            Action::DaemonReload => Effect::ReloadDaemon,
            _ => match self.action_name() {
                Some(n) => Effect::Act(a, n),
                None => {
                    self.status = Some((owned("nothing selected"), true));
                    Effect::Nothing
                },
            },
        }
    }

    fn handle_char(&mut self, c: char) -> (r: Effect)
        ensures
            (final(self)@, r@) == pressed_char(old(self)@, c),
    {
        if c == 'q' {
            self.running = false;
            Effect::Nothing
        } else if c == 'k' {
            self.move_up(1)
        } else if c == 'j' {
            self.move_down(1)
        } else if c == '/' {
            self.searching = true;
            self.filter = String::new();
            self.selected = 0;
            assert(self@ =~= pressed_char(old(self)@, c).0);
            Effect::Nothing
        } else if c == 'f' {
            self.status = Some((owned("refreshed"), false));
            Effect::Refresh
        } else if c == '1' {
            self.switch_to(Tab::Units)
        } else if c == '2' {
            self.switch_to(Tab::Services)
        } else if c == '3' {
            self.switch_to(Tab::Timers)
        } else if c == '4' {
            self.switch_to(Tab::Files)
        } else if c == 's' {
            self.run_action(Action::Start)
        } else if c == 'x' {
            self.run_action(Action::Stop)
        } else if c == 'r' {
            self.run_action(Action::Restart)
        } else if c == 'l' {
            self.run_action(Action::Reload)
        } else if c == 'e' {
            self.run_action(Action::Enable)
        } else if c == 'd' {
            self.run_action(Action::Disable)
        } else if c == 'R' {
            self.run_action(Action::DaemonReload)
        } else {
            Effect::Nothing
        }
    }

    fn handle_search_key(&mut self, k: KeyCode)
        ensures
            final(self)@ == searched(old(self)@, k),
    {
        match k {
            KeyCode::Esc => {
                self.searching = false;
                self.filter = String::new();
                assert(self@ =~= searched(old(self)@, k));
            },
            KeyCode::Enter => {
                self.searching = false;
            },
            KeyCode::Char(c) => {
                self.filter.push(c);
                self.selected = 0;
            },
            KeyCode::Backspace => {
                let v = crate::text::chars(self.filter.as_str());
                if v.len() == 0 {
                    self.searching = false;
                } else {
                    self.filter = crate::text::string_of(&v, 0, v.len() - 1);
                    assert(self.filter@ =~= old(self).filter@.drop_last());
                }
                self.selected = 0;
            },
            _ => {},
        }
    }

    /// Take a key, and say what it asks of the world outside.
    pub fn handle_key(&mut self, key: Key) -> (r: Effect)
        ensures
            (final(self)@, r@) == pressed(old(self)@, key),
    {
        if key.control {
            if let KeyCode::Char(c) = key.code {
                if c == 'q' {
                    self.running = false;
                    return Effect::Nothing;
                }
            }
        }
        if self.searching {
            self.handle_search_key(key.code);
            return Effect::Nothing;
        }
        match key.code {
            KeyCode::Char(c) => self.handle_char(c),
            KeyCode::Esc => {
                self.running = false;
                Effect::Nothing
            },
            KeyCode::Tab => {
                let t = self.tab.next();
                self.open_tab(t)
            },
            KeyCode::BackTab => {
                let t = self.tab.prev();
                self.open_tab(t)
            },
            KeyCode::Up => self.move_up(1),
            KeyCode::Down => self.move_down(1),
            KeyCode::PageUp => self.move_up(10),
            KeyCode::PageDown => self.move_down(10),
            KeyCode::Home => self.go(0),
            KeyCode::End => self.move_end(),
            _ => Effect::Nothing,
        }
    }

    /// Everything was loaded.
    pub fn refresh(
        &mut self,
        units: Vec<UnitSummary>,
        services: Vec<UnitSummary>,
        timers: Vec<TimerInfo>,
        files: Vec<UnitFileInfo>,
        default_target: String,
    ) -> (r: Effect)
        ensures
            (final(self)@, r@) == refreshed(
                old(self)@,
                views(units@),
                views(services@),
                views(timers@),
                views(files@),
                default_target@,
            ),
    {
        self.units = units;
        self.services = services;
        self.timers = timers;
        self.files = files;
        self.default_target = default_target;
        let len = self.visible_indices().len();
        if len > 0 && self.selected >= len {
            self.selected = len - 1;
        }
        Effect::Detail(self.selected_target())
    }

    /// The status of the unit that is selected was loaded.
    pub fn refresh_detail(&mut self, detail: Vec<UnitStatus>)
        ensures
            final(self)@ == (Screen { detail: views(detail@), ..old(self)@ }),
    {
        self.detail = detail;
    }

    /// An action was done, or failed.
    pub fn acted(&mut self, a: Action, name: &str, result: &Result<Vec<String>, String>) -> (r:
        Effect)
        ensures
            (final(self)@, r@) == acted(old(self)@, a, name@, action_result(*result)),
    {
        match result {
            Ok(m) => {
                let text = match a {
                    Action::Start => cat2("started ", name),
                    Action::Stop => cat2("stopped ", name),
                    Action::Restart => cat2("restarted ", name),
                    Action::Reload => cat2("reloaded ", name),
                    Action::Enable => cat2(
                        cat3("enabled ", name, ": ").as_str(),
                        join(m, ", ").as_str(),
                    ),
                    Action::Disable => cat2(
                        cat3("disabled ", name, ": ").as_str(),
                        join(m, ", ").as_str(),
                    ),
                    Action::DaemonReload => owned("daemon reloaded"),
                };
                self.status = Some((text, false));
                Effect::Refresh
            },
            Err(e) => {
                self.status = Some((e.clone(), true));
                Effect::Nothing
            },
        }
    }
}

// ---- what holds -----------------------------------------------------------------

/// Is what is selected in the list, where the list is not empty? While the
/// filter is typed the first place is selected.
pub open spec fn in_view(s: Screen) -> bool {
    &&& visible(s).len() == 0 || s.selected < visible(s).len()
    &&& s.searching ==> s.selected == 0
}

/// Whatever key is pressed, the selection stays in the list.
pub proof fn selection_stays_in_view(s: Screen, key: Key)
    requires
        in_view(s),
    ensures
        in_view(pressed(s, key).0),
{
}

/// Whatever is loaded, the selection stays in the list.
pub proof fn loading_keeps_the_selection_in_view(
    s: Screen,
    units: Seq<Summary>,
    services: Seq<Summary>,
    timers: Seq<Timer>,
    files: Seq<FileInfo>,
    default_target: Text,
)
    requires
        in_view(s),
    ensures
        in_view(refreshed(s, units, services, timers, files, default_target).0),
{
}

/// Control and `q` end the program in any state.
pub proof fn control_q_always_quits(s: Screen)
    ensures
        !pressed(s, Key { code: KeyCode::Char('q'), control: true }).0.running,
{
}

} // verus!
