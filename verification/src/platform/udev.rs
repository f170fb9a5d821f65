//! Kernel devices: the units that stand for them, and what the kernel says of
//! them in `uevent` files and messages.

use vstd::prelude::*;
use vstd::utf8::*;

use crate::paths::{file_name, file_name_of};
use crate::table::Table;
use crate::text::{
    after_prefix, cat3, cat5, chars, chr, cut, cut_last, find_last_unique, find_unique, lacks,
    lines, owned, pieces, replace_char, replaced, rsplit_once, same, split, split_once, string_of,
    strip_prefix, text_lines, texts, Text,
};

verus! {

/// A kernel device: its path in sysfs, and what identifies it there.
#[derive(Debug, Clone, PartialEq, Eq)]
pub struct Device {
    /// Path below `/sys`, without a leading slash: `devices/virtual/net/lo`.
    pub devpath: String,
    /// Subsystem (`net`, `block`, `tty`, `pci`).
    pub subsystem: String,
    /// Name of the device node; empty where there is none.
    pub devname: String,
    /// Type of the device (`disk`, `partition`); often empty.
    pub devtype: String,
}

/// A device, as specifications see it.
#[verifier::ext_equal]
pub ghost struct Kobject {
    pub devpath: Text,
    pub subsystem: Text,
    pub devname: Text,
    pub devtype: Text,
}

impl View for Device {
    type V = Kobject;

    open spec fn view(&self) -> Kobject {
        Kobject {
            devpath: self.devpath@,
            subsystem: self.subsystem@,
            devname: self.devname@,
            devtype: self.devtype@,
        }
    }
}

/// The last component of a device's path.
pub open spec fn sysname_of(d: Kobject) -> Text {
    match cut_last(d.devpath, '/') {
        Some((_, b)) => b,
        None => d.devpath,
    }
}

/// The unit named after the device's path.
pub open spec fn sysfs_name(d: Kobject) -> Text {
    "sys-"@ + replaced(d.devpath, '/', '-') + ".device"@
}

/// The unit named after the device's subsystem and its node, or else the last
/// component of its path.
pub open spec fn subsystem_name(d: Kobject) -> Text {
    "sys-"@ + d.subsystem + "-"@ + (if d.devname.len() == 0 {
        sysname_of(d)
    } else {
        d.devname
    }) + ".device"@
}

impl Device {
    /// The last component of the path (`lo`, `sda`, `cpu0`).
    pub fn sysname(&self) -> (r: &str)
        ensures
            r@ == sysname_of(self@),
    {
        match rsplit_once(self.devpath.as_str(), '/') {
            Some((_, b)) => b,
            None => self.devpath.as_str(),
        }
    }

    /// The unit named after the path: `sys-devices-virtual-net-lo.device`.
    pub fn sysfs_unit_name(&self) -> (r: String)
        ensures
            r@ == sysfs_name(self@),
    {
        let path = replace_char(self.devpath.as_str(), '/', '-');
        cat3("sys-", path.as_str(), ".device")
    }

    /// The unit named after the subsystem and the node: `sys-net-lo.device`.
    pub fn subsystem_unit_name(&self) -> (r: String)
        ensures
            r@ == subsystem_name(self@),
    {
        let blank = same(self.devname.as_str(), "");
        proof {
            reveal_strlit("");
            assert(self.devname@.len() == 0 ==> self.devname@ =~= ""@);
        }
        let name = if blank {
            self.sysname()
        } else {
            self.devname.as_str()
        };
        cat5("sys-", self.subsystem.as_str(), "-", name, ".device")
    }

    /// Both units of the device: the one named after its path, then the other.
    pub fn unit_names(&self) -> (r: [String; 2])
        ensures
            r@[0]@ == sysfs_name(self@),
            r@[1]@ == subsystem_name(self@),
    {
        [self.sysfs_unit_name(), self.subsystem_unit_name()]
    }
}

/// What happened to a device.
#[derive(Debug, Clone, Copy, PartialEq, Eq, Structural)]
pub enum UEventAction {
    Add,
    Remove,
    Change,
    Move,
    Other,
}

/// The action that a message names.
pub open spec fn action_of(s: Text) -> UEventAction {
    if s == "add"@ {
        UEventAction::Add
    } else if s == "remove"@ {
        UEventAction::Remove
    } else if s == "change"@ {
        UEventAction::Change
    } else if s == "move"@ {
        UEventAction::Move
    } else {
        UEventAction::Other
    }
}

fn read_action(s: &str) -> (r: UEventAction)
    ensures
        r == action_of(s@),
{
    if same(s, "add") {
        UEventAction::Add
    } else if same(s, "remove") {
        UEventAction::Remove
    } else if same(s, "change") {
        UEventAction::Change
    } else if same(s, "move") {
        UEventAction::Move
    } else {
        UEventAction::Other
    }
}

// ---- keys and values ------------------------------------------------------------

/// The value of a key among `KEY=value` texts: the last one counts.
pub open spec fn value_of(v: Seq<Text>, key: Text) -> Option<Text>
    decreases v.len(),
{
    if v.len() == 0 {
        None
    } else {
        match cut(v.last(), '=') {
            Some((k, x)) => if k == key {
                Some(x)
            } else {
                value_of(v.drop_last(), key)
            },
            None => value_of(v.drop_last(), key),
        }
    }
}

/// The value of a key; empty where there is none.
pub open spec fn value_or_empty(v: Seq<Text>, key: Text) -> Text {
    match value_of(v, key) {
        Some(x) => x,
        None => seq![],
    }
}

/// Does a table hold just the keys and values of these texts?
pub open spec fn holds_values(t: Map<Text, String>, v: Seq<Text>) -> bool {
    forall|k: Text|
        {
            &&& #[trigger] t.contains_key(k) <==> value_of(v, k) is Some
            &&& t.contains_key(k) ==> value_of(v, k) == Some(t[k]@)
        }
}

fn table_of(v: &Vec<String>, from: usize) -> (r: Table<String>)
    requires
        from <= v.len(),
    ensures
        holds_values(r@, texts(v@).skip(from as int)),
{
    let mut t: Table<String> = Table::new();
    let mut i: usize = from;
    let ghost all = texts(v@).skip(from as int);
    assert(all.take(0) =~= seq![]);
    while i < v.len()
        invariant
            from <= i <= v.len(),
            all == texts(v@).skip(from as int),
            holds_values(t@, all.take(i - from)),
        decreases v.len() - i,
    {
        let ghost upto = all.take(i + 1 - from);
        let ghost before = t@;
        proof {
            assert(upto.drop_last() =~= all.take(i - from));
            assert(upto.last() == v@[i as int]@);
        }
        match split_once(v[i].as_str(), '=') {
            Some((k, x)) => {
                t.insert(owned(k), owned(x));
            },
            None => {},
        }
        assert forall|k: Text|
            {
                &&& #[trigger] t@.contains_key(k) <==> value_of(upto, k) is Some
                &&& t@.contains_key(k) ==> value_of(upto, k) == Some(t@[k]@)
            } by {
            assert(before.contains_key(k) <==> value_of(upto.drop_last(), k) is Some);
        }
        i = i + 1;
    }
    assert(all.take(v.len() - from) =~= all);
    t
}

/// The keys and values of `KEY=value` lines.
pub fn parse_key_values(text: &str) -> (r: Table<String>)
    ensures
        holds_values(r@, text_lines(text@)),
{
    let v = lines(text);
    let t = table_of(&v, 0);
    assert(texts(v@).skip(0) =~= texts(v@));
    t
}

fn value_in(t: &Table<String>, key: &str) -> (r: String)
    ensures
        r@ == (if t@.contains_key(key@) {
            t@[key@]@
        } else {
            seq![]
        }),
{
    match t.get(key) {
        Some(x) => x.clone(),
        None => String::new(),
    }
}

// ---- messages -------------------------------------------------------------------

/// The text of bytes, where what is no UTF-8 is replaced.
pub uninterp spec fn lossy_text(bytes: Seq<u8>) -> Text;

/// `String::from_utf8_lossy`: the text depends on the bytes alone, and is what
/// they encode where they are UTF-8.
#[verifier::external_body]
fn text_of_payload(payload: &Vec<u8>) -> (r: String)
    ensures
        r@ == lossy_text(payload@),
        valid_utf8(payload@) ==> r@ == decode_utf8(payload@),
{
    String::from_utf8_lossy(payload).into_owned()
}

/// Is the character no slash?
pub open spec fn no_slash() -> spec_fn(char) -> bool {
    |c: char| c != '/'
}

/// A path without its leading slashes.
pub open spec fn relative(s: Text) -> Text {
    s.skip(crate::text::find(s, no_slash()) as int)
}

fn without_leading_slashes(s: &str) -> (r: String)
    ensures
        r@ == relative(s@),
{
    let v = chars(s);
    let mut i: usize = 0;
    while i < v.len() && v[i] == '/'
        invariant
            i <= v.len(),
            v@ == s@,
            forall|j: int| 0 <= j < i ==> (#[trigger] v@[j]) == '/',
        decreases v.len() - i,
    {
        i = i + 1;
    }
    proof {
        crate::text::find_unique(s@, no_slash(), i as int);
        assert(s@.skip(i as int) =~= v@.subrange(i as int, v.len() as int));
    }
    string_of(&v, i, v.len())
}

/// A message: an action and a path, then keys and values, with a NUL between
/// any two. One without a subsystem is no event of a device.
pub open spec fn event_of(text: Text) -> Option<(UEventAction, Kobject)> {
    let parts = pieces(text, '\0');
    match cut(parts[0], '@') {
        None => None,
        Some((action, path)) => {
            let v = parts.skip(1);
            let subsystem = value_or_empty(v, "SUBSYSTEM"@);
            if subsystem.len() == 0 {
                None
            } else {
                Some(
                    (
                        action_of(action),
                        Kobject {
                            devpath: relative(path),
                            subsystem,
                            devname: value_or_empty(v, "DEVNAME"@),
                            devtype: value_or_empty(v, "DEVTYPE"@),
                        },
                    ),
                )
            }
        },
    }
}

/// An event, as specifications see it.
pub open spec fn event_view(r: Option<(UEventAction, Device)>) -> Option<(UEventAction, Kobject)> {
    match r {
        Some((a, d)) => Some((a, d@)),
        None => None,
    }
}

proof fn pieces_are_some(s: Text, c: char)
    ensures
        pieces(s, c).len() > 0,
{
}

/// Read the text of a message.
pub fn parse_uevent_text(text: &str) -> (r: Option<(UEventAction, Device)>)
    ensures
        event_view(r) == event_of(text@),
{
    let parts = split(text, '\0');
    proof {
        pieces_are_some(text@, '\0');
        assert(texts(parts@)[0] == parts@[0]@);
    }
    let (action, path) = match split_once(parts[0].as_str(), '@') {
        Some(x) => x,
        None => {
            return None;
        },
    };
    let t = table_of(&parts, 1);
    let ghost v = texts(parts@).skip(1);
    let subsystem = value_in(&t, "SUBSYSTEM");
    let devname = value_in(&t, "DEVNAME");
    let devtype = value_in(&t, "DEVTYPE");
    proof {
        assert(subsystem@ == value_or_empty(v, "SUBSYSTEM"@)) by {
            assert(t@.contains_key("SUBSYSTEM"@) <==> value_of(v, "SUBSYSTEM"@) is Some);
        }
        assert(devname@ == value_or_empty(v, "DEVNAME"@)) by {
            assert(t@.contains_key("DEVNAME"@) <==> value_of(v, "DEVNAME"@) is Some);
        }
        assert(devtype@ == value_or_empty(v, "DEVTYPE"@)) by {
            assert(t@.contains_key("DEVTYPE"@) <==> value_of(v, "DEVTYPE"@) is Some);
        }
        reveal_strlit("");
        assert(subsystem@.len() == 0 ==> subsystem@ =~= ""@);
    }
    if same(subsystem.as_str(), "") {
        return None;
    }
    Some(
        (
            read_action(action),
            Device { devpath: without_leading_slashes(path), subsystem, devname, devtype },
        ),
    )
}

/// Read a message of the kernel: `add@/devices/...\0KEY=value\0...`.
pub fn parse_uevent(payload: &Vec<u8>) -> (r: Option<(UEventAction, Device)>)
    ensures
        event_view(r) == event_of(lossy_text(payload@)),
        valid_utf8(payload@) ==> event_view(r) == event_of(decode_utf8(payload@)),
{
    let text = text_of_payload(payload);
    parse_uevent_text(text.as_str())
}

// ---- sysfs ----------------------------------------------------------------------

/// A device's path below `/sys`, from that of its directory.
pub open spec fn below_sys(dir: Text) -> Text {
    match after_prefix(dir, "/sys"@) {
        Some(rest) => if rest.len() == 0 || rest[0] == '/' {
            relative(rest)
        } else {
            dir
        },
        None => dir,
    }
}

/// The device of a directory, from its `uevent` file and its subsystem link.
/// A directory without that file, or without a subsystem, is no device.
pub open spec fn device_at(dir: Text, uevent: Option<Text>, link: Option<Text>) -> Option<Kobject> {
    match uevent {
        None => None,
        Some(text) => {
            let v = text_lines(text);
            let linked = match link {
                Some(t) => file_name_of(t),
                None => None,
            };
            let subsystem = match linked {
                Some(s) => Some(s),
                None => value_of(v, "SUBSYSTEM"@),
            };
            match subsystem {
                None => None,
                Some(s) => Some(
                    Kobject {
                        devpath: below_sys(dir),
                        subsystem: s,
                        devname: value_or_empty(v, "DEVNAME"@),
                        devtype: value_or_empty(v, "DEVTYPE"@),
                    },
                ),
            }
        },
    }
}

/// The device of a directory in sysfs.
pub fn device_from_sysfs_dir(dir: &str, uevent: &Option<String>, link: &Option<String>) -> (r:
    Option<Device>)
    ensures
        match r {
            Some(d) => device_at(
                dir@,
                crate::text::opt_text(*uevent),
                crate::text::opt_text(*link),
            ) == Some(d@),
            None => device_at(
                dir@,
                crate::text::opt_text(*uevent),
                crate::text::opt_text(*link),
            ) is None,
        },
{
    let text = match uevent {
        Some(t) => t.as_str(),
        None => {
            return None;
        },
    };
    let t = parse_key_values(text);
    let ghost v = text_lines(text@);
    proof {
        assert(t@.contains_key("SUBSYSTEM"@) <==> value_of(v, "SUBSYSTEM"@) is Some);
        assert(t@.contains_key("DEVNAME"@) <==> value_of(v, "DEVNAME"@) is Some);
        assert(t@.contains_key("DEVTYPE"@) <==> value_of(v, "DEVTYPE"@) is Some);
    }
    let linked = match link {
        Some(x) => file_name(x.as_str()),
        None => None,
    };
    let subsystem = match linked {
        Some(s) => s,
        None => match t.get("SUBSYSTEM") {
            Some(s) => s.clone(),
            None => {
                return None;
            },
        },
    };
    let devpath = match strip_prefix(dir, "/sys") {
        Some(rest) => {
            let blank = same(rest, "");
            proof {
                reveal_strlit("");
                assert(rest@.len() == 0 ==> rest@ =~= ""@);
            }
            if blank || crate::text::starts_with_char(rest, '/') {
                without_leading_slashes(rest)
            } else {
                owned(dir)
            }
        },
        None => owned(dir),
    };
    Some(
        Device {
            devpath,
            subsystem,
            devname: value_in(&t, "DEVNAME"),
            devtype: value_in(&t, "DEVTYPE"),
        },
    )
}

/// The actions of events and their names; any other name is some other action.
pub proof fn actions_have_these_names(s: Text)
    ensures
        action_of(s) == UEventAction::Add <==> s == "add"@,
        action_of(s) == UEventAction::Remove <==> s == "remove"@,
        action_of(s) == UEventAction::Change <==> s == "change"@,
        action_of(s) == UEventAction::Move <==> s == "move"@,
        action_of(s) == UEventAction::Other <==> s != "add"@ && s != "remove"@ && s != "change"@ && s != "move"@,
{
    reveal_strlit("add");
    reveal_strlit("remove");
    reveal_strlit("change");
    reveal_strlit("move");
    assert("add"@.len() == 3 && "add"@[0] == 'a');
    assert("remove"@.len() == 6 && "remove"@[0] == 'r');
    assert("change"@.len() == 6 && "change"@[0] == 'c');
    assert("move"@.len() == 4 && "move"@[0] == 'm');
}

/// A device has two units: one is named after its path, the other after its subsystem
/// and its node, or after the last part of its path where it has no node.
pub proof fn devices_are_named(d: Device, a: Text, b: Text)
    requires
        lacks(b, '/'),
    ensures
        d@.devpath == d.devpath@ && d@.subsystem == d.subsystem@,
        d@.devname == d.devname@ && d@.devtype == d.devtype@,
        sysfs_name(d@) == "sys-"@ + replaced(d.devpath@, '/', '-') + ".device"@,
        d.devname@.len() > 0 ==> subsystem_name(d@) == "sys-"@ + d.subsystem@ + "-"@ + d.devname@
            + ".device"@,
        d.devname@.len() == 0 && d.devpath@ == a + seq!['/'] + b ==> subsystem_name(d@) == "sys-"@
            + d.subsystem@ + "-"@ + b + ".device"@,
{
    if d.devpath@ == a + seq!['/'] + b {
        let s = d.devpath@;
        let k = (a.len() + 1) as int;
        assert forall|i: int| k <= i < s.len() implies !chr('/')(#[trigger] s[i]) by {
            assert(s[i] == b[i - k]);
        }
        assert(s[k - 1] == '/');
        find_last_unique(s, chr('/'), k);
        assert(s.skip(k) =~= b);
    }
}

/// The last value of a key counts.
pub proof fn last_value_of_a_key_counts(v: Seq<Text>, key: Text, x: Text, other: Text)
    requires
        lacks(key, '='),
    ensures
        value_of(v.push(key + seq!['='] + x), key) == Some(x),
        other != key ==> value_of(v.push(key + seq!['='] + x), other) == value_of(v, other),
        value_of(seq![], key) is None,
{
    let t = key + seq!['='] + x;
    let k = key.len() as int;
    assert(v.push(t).drop_last() =~= v);
    assert forall|i: int| 0 <= i < k implies !chr('=')(#[trigger] t[i]) by {
        assert(t[i] == key[i]);
    }
    assert(t[k] == '=');
    find_unique(t, chr('='), k);
    assert(t.take(k) =~= key);
    assert(t.skip(k + 1) =~= x);
}

/// An event tells the action and the path of a device, and its values their keys'; one
/// without a subsystem is none.
pub proof fn events_tell_the_device(text: Text, action: Text, path: Text)
    requires
        pieces(text, '\0').len() > 0,
        cut(pieces(text, '\0')[0], '@') == Some((action, path)),
    ensures
        ({
            let v = pieces(text, '\0').skip(1);
            &&& event_of(text) is None <==> value_of(v, "SUBSYSTEM"@) is None || value_of(
                v,
                "SUBSYSTEM"@,
            )->0.len() == 0
            &&& event_of(text) is Some ==> ({
                let (a, d) = event_of(text)->0;
                &&& a == action_of(action)
                &&& d.devpath == relative(path)
                &&& value_of(v, "SUBSYSTEM"@) == Some(d.subsystem)
                &&& value_of(v, "DEVNAME"@) is Some ==> value_of(v, "DEVNAME"@) == Some(d.devname)
                &&& value_of(v, "DEVNAME"@) is None ==> d.devname.len() == 0
                &&& value_of(v, "DEVTYPE"@) is Some ==> value_of(v, "DEVTYPE"@) == Some(d.devtype)
                &&& value_of(v, "DEVTYPE"@) is None ==> d.devtype.len() == 0
            })
        }),
{
}

/// A device below `/sys` is read from its directory: the subsystem is the one that its
/// link names, or the one of its event file.
pub proof fn devices_are_read_from_their_directory(
    path: Text,
    uevent: Text,
    link: Option<Text>,
)
    requires
        path.len() > 0,
        path[0] != '/',
    ensures
        below_sys("/sys/"@ + path) == path,
        device_at("/sys/"@ + path, None, link) is None,
        device_at("/sys/"@ + path, Some(uevent), link) is Some ==> ({
            let d = device_at("/sys/"@ + path, Some(uevent), link)->0;
            let v = text_lines(uevent);
            &&& d.devpath == path
            &&& link is Some && file_name_of(link->0) is Some ==> d.subsystem == file_name_of(
                link->0,
            )->0
            &&& link is None ==> value_of(v, "SUBSYSTEM"@) == Some(d.subsystem)
            &&& value_of(v, "DEVNAME"@) is Some ==> value_of(v, "DEVNAME"@) == Some(d.devname)
            &&& value_of(v, "DEVTYPE"@) is Some ==> value_of(v, "DEVTYPE"@) == Some(d.devtype)
        }),
{
    reveal_strlit("/sys");
    reveal_strlit("/sys/");
    assert("/sys"@ =~= seq!['/', 's', 'y', 's']);
    assert("/sys/"@ =~= seq!['/', 's', 'y', 's', '/']);
    let dir = "/sys/"@ + path;
    assert(dir.take(4) =~= "/sys"@);
    let rest = dir.skip(4);
    assert(rest =~= seq!['/'] + path);
    assert forall|i: int| 0 <= i < 1 implies !no_slash()(#[trigger] rest[i]) by {}
    assert(rest[1] == path[0]);
    find_unique(rest, no_slash(), 1);
    assert(rest.skip(1) =~= path);
}

} // verus!
