//! Mount options: which are flags of `mount(2)`, and which go to the
//! filesystem.

use vstd::prelude::*;

use crate::text::{join, joined, owned, pieces, same, split, texts, trim, trimmed, Text};

verus! {

/// A flag of `mount(2)`.
#[derive(Debug, Clone, Copy, PartialEq, Eq, Structural)]
pub enum MountFlag {
    ReadOnly,
    NoSuid,
    NoDev,
    NoExec,
    Synchronous,
    NoAtime,
    NoDirAtime,
}

/// A set of flags.
#[derive(Debug, Clone, Copy, PartialEq, Eq, Structural)]
pub struct MsFlags {
    pub read_only: bool,
    pub no_suid: bool,
    pub no_dev: bool,
    pub no_exec: bool,
    pub synchronous: bool,
    pub no_atime: bool,
    pub no_dir_atime: bool,
}

impl MsFlags {
    /// Is the flag in the set?
    pub open spec fn holds(self, f: MountFlag) -> bool {
        match f {
            MountFlag::ReadOnly => self.read_only,
            MountFlag::NoSuid => self.no_suid,
            MountFlag::NoDev => self.no_dev,
            MountFlag::NoExec => self.no_exec,
            MountFlag::Synchronous => self.synchronous,
            MountFlag::NoAtime => self.no_atime,
            MountFlag::NoDirAtime => self.no_dir_atime,
        }
    }

    /// The set without flags.
    pub fn empty() -> (r: MsFlags)
        ensures
            forall|f: MountFlag| !r.holds(f),
    {
        MsFlags {
            read_only: false,
            no_suid: false,
            no_dev: false,
            no_exec: false,
            synchronous: false,
            no_atime: false,
            no_dir_atime: false,
        }
    }

    /// Is the flag in the set?
    pub fn contains(&self, f: MountFlag) -> (r: bool)
        ensures
            r == self.holds(f),
    {
        match f {
            MountFlag::ReadOnly => self.read_only,
            MountFlag::NoSuid => self.no_suid,
            MountFlag::NoDev => self.no_dev,
            MountFlag::NoExec => self.no_exec,
            MountFlag::Synchronous => self.synchronous,
            MountFlag::NoAtime => self.no_atime,
            MountFlag::NoDirAtime => self.no_dir_atime,
        }
    }

    /// Is there no flag in the set?
    pub fn is_empty(&self) -> (r: bool)
        ensures
            r == (forall|f: MountFlag| !self.holds(f)),
    {
        let r = !(self.read_only || self.no_suid || self.no_dev || self.no_exec || self.synchronous
            || self.no_atime || self.no_dir_atime);
        proof {
            if !r {
                assert(self.holds(MountFlag::ReadOnly) || self.holds(MountFlag::NoSuid)
                    || self.holds(MountFlag::NoDev) || self.holds(MountFlag::NoExec) || self.holds(
                    MountFlag::Synchronous,
                ) || self.holds(MountFlag::NoAtime) || self.holds(MountFlag::NoDirAtime));
            }
        }
        r
    }

    fn insert(&mut self, flag: MountFlag)
        ensures
            forall|f: MountFlag| final(self).holds(f) == (old(self).holds(f) || f == flag),
    {
        match flag {
            MountFlag::ReadOnly => {
                self.read_only = true;
            },
            MountFlag::NoSuid => {
                self.no_suid = true;
            },
            MountFlag::NoDev => {
                self.no_dev = true;
            },
            MountFlag::NoExec => {
                self.no_exec = true;
            },
            MountFlag::Synchronous => {
                self.synchronous = true;
            },
            MountFlag::NoAtime => {
                self.no_atime = true;
            },
            MountFlag::NoDirAtime => {
                self.no_dir_atime = true;
            },
        }
    }
}

/// The flag that an option names.
pub open spec fn flag_of(t: Text) -> Option<MountFlag> {
    if t == "ro"@ {
        Some(MountFlag::ReadOnly)
    } else if t == "nosuid"@ {
        Some(MountFlag::NoSuid)
    } else if t == "nodev"@ {
        Some(MountFlag::NoDev)
    } else if t == "noexec"@ {
        Some(MountFlag::NoExec)
    } else if t == "sync"@ {
        Some(MountFlag::Synchronous)
    } else if t == "noatime"@ {
        Some(MountFlag::NoAtime)
    } else if t == "nodiratime"@ {
        Some(MountFlag::NoDirAtime)
    } else {
        None
    }
}

/// Does the option say what holds without it? It is neither a flag nor for the
/// filesystem.
pub open spec fn is_default_option(t: Text) -> bool {
    t == "rw"@ || t == "suid"@ || t == "dev"@ || t == "exec"@ || t == "async"@ || t == "atime"@ || t
        == "diratime"@ || t == "relatime"@ || t == "strictatime"@
}

/// Is the option for the filesystem?
pub open spec fn is_data(t: Text) -> bool {
    t.len() > 0 && flag_of(t) is None && !is_default_option(t)
}

/// The options for the filesystem, in order.
pub open spec fn data_options(v: Seq<Text>) -> Seq<Text>
    decreases v.len(),
{
    if v.len() == 0 {
        seq![]
    } else {
        let t = trimmed(v.last());
        if is_data(t) {
            data_options(v.drop_last()).push(t)
        } else {
            data_options(v.drop_last())
        }
    }
}

/// Is the flag among the options?
pub open spec fn is_flagged(v: Seq<Text>, f: MountFlag) -> bool {
    exists|i: int| 0 <= i < v.len() && flag_of(trimmed(#[trigger] v[i])) == Some(f)
}

/// The single options.
pub open spec fn option_list(options: Option<Text>) -> Seq<Text> {
    match options {
        Some(o) => pieces(o, ','),
        None => seq![],
    }
}

/// What is passed to the filesystem; nothing where there are no options for it.
pub open spec fn data_of(v: Seq<Text>) -> Option<Text> {
    if data_options(v).len() == 0 {
        None
    } else {
        Some(joined(data_options(v), ","@))
    }
}

fn read_flag(t: &str) -> (r: Option<MountFlag>)
    ensures
        r == flag_of(t@),
{
    if same(t, "ro") {
        Some(MountFlag::ReadOnly)
    } else if same(t, "nosuid") {
        Some(MountFlag::NoSuid)
    } else if same(t, "nodev") {
        Some(MountFlag::NoDev)
    } else if same(t, "noexec") {
        Some(MountFlag::NoExec)
    } else if same(t, "sync") {
        Some(MountFlag::Synchronous)
    } else if same(t, "noatime") {
        Some(MountFlag::NoAtime)
    } else if same(t, "nodiratime") {
        Some(MountFlag::NoDirAtime)
    } else {
        None
    }
}

fn says_default(t: &str) -> (r: bool)
    ensures
        r == is_default_option(t@),
{
    same(t, "rw") || same(t, "suid") || same(t, "dev") || same(t, "exec") || same(t, "async")
        || same(t, "atime") || same(t, "diratime") || same(t, "relatime") || same(t, "strictatime")
}

/// Split the options into the flags of `mount(2)` and what is passed to the
/// filesystem. The options for the filesystem keep their order.
pub fn split_options(options: Option<&str>) -> (r: (MsFlags, Option<String>))
    ensures
        ({
            let v = option_list(crate::manager::ops::opt_str(options));
            &&& forall|f: MountFlag| r.0.holds(f) <==> is_flagged(v, f)
            &&& crate::text::opt_text(r.1) == data_of(v)
        }),
{
    let list: Vec<String> = match options {
        Some(o) => split(o, ','),
        None => Vec::new(),
    };
    let ghost v = option_list(crate::manager::ops::opt_str(options));
    let mut flags = MsFlags::empty();
    let mut data: Vec<String> = Vec::new();
    let mut i: usize = 0;
    proof {
        assert(texts(list@) =~= v);
        assert(v.take(0) =~= seq![]);
        assert(texts(data@) =~= seq![]);
    }
    while i < list.len()
        invariant
            i <= list.len(),
            texts(list@) == v,
            texts(data@) == data_options(v.take(i as int)),
            forall|f: MountFlag| flags.holds(f) <==> is_flagged(v.take(i as int), f),
        decreases list.len() - i,
    {
        let ghost upto = v.take(i + 1);
        let ghost was = texts(data@);
        let ghost before = flags;
        let t = trim(list[i].as_str());
        proof {
            assert(upto.drop_last() =~= v.take(i as int));
            assert(v[i as int] == list@[i as int]@);
            assert(upto.last() == v[i as int]);
        }
        match read_flag(t) {
            Some(f) => {
                flags.insert(f);
            },
            None => {
                let blank = same(t, "");
                proof {
                    reveal_strlit("");
                    assert(t@.len() == 0 ==> t@ =~= ""@);
                }
                if !blank && !says_default(t) {
                    data.push(owned(t));
                    assert(texts(data@) =~= was.push(t@));
                }
            },
        }
        proof {
            assert forall|f: MountFlag| flags.holds(f) <==> is_flagged(upto, f) by {
                let init = v.take(i as int);
                if is_flagged(init, f) {
                    let k = choose|k: int|
                        0 <= k < init.len() && flag_of(trimmed(#[trigger] init[k])) == Some(f);
                    assert(upto[k] == init[k]);
                }
                if flag_of(t@) == Some(f) {
                    assert(flag_of(trimmed(upto[i as int])) == Some(f));
                }
                if is_flagged(upto, f) {
                    let k = choose|k: int|
                        0 <= k < upto.len() && flag_of(trimmed(#[trigger] upto[k])) == Some(f);
                    if k < i {
                        assert(init[k] == upto[k]);
                    }
                }
            }
            reveal_strlit("ro");
            reveal_strlit("nosuid");
            reveal_strlit("nodev");
            reveal_strlit("noexec");
            reveal_strlit("sync");
            reveal_strlit("noatime");
            reveal_strlit("nodiratime");
        }
        i = i + 1;
    }
    assert(v.take(list.len() as int) =~= v);
    if data.len() == 0 {
        (flags, None)
    } else {
        (flags, Some(join(&data, ",")))
    }
}

/// The options that are flags: each has its own name.
pub proof fn flags_have_these_names(t: Text, m: MsFlags)
    ensures
        flag_of(t) == Some(MountFlag::ReadOnly) <==> t == "ro"@,
        flag_of(t) == Some(MountFlag::NoSuid) <==> t == "nosuid"@,
        flag_of(t) == Some(MountFlag::NoDev) <==> t == "nodev"@,
        flag_of(t) == Some(MountFlag::NoExec) <==> t == "noexec"@,
        flag_of(t) == Some(MountFlag::Synchronous) <==> t == "sync"@,
        flag_of(t) == Some(MountFlag::NoAtime) <==> t == "noatime"@,
        flag_of(t) == Some(MountFlag::NoDirAtime) <==> t == "nodiratime"@,
        m.holds(MountFlag::ReadOnly) <==> m.read_only,
        m.holds(MountFlag::NoSuid) <==> m.no_suid,
        m.holds(MountFlag::NoDev) <==> m.no_dev,
        m.holds(MountFlag::NoExec) <==> m.no_exec,
        m.holds(MountFlag::Synchronous) <==> m.synchronous,
        m.holds(MountFlag::NoAtime) <==> m.no_atime,
        m.holds(MountFlag::NoDirAtime) <==> m.no_dir_atime,
{
    reveal_strlit("ro");
    reveal_strlit("nosuid");
    reveal_strlit("nodev");
    reveal_strlit("noexec");
    reveal_strlit("sync");
    reveal_strlit("noatime");
    reveal_strlit("nodiratime");
    assert("ro"@.len() == 2 && "ro"@[0] == 'r' && "ro"@[1] == 'o');
    assert("nosuid"@.len() == 6 && "nosuid"@[0] == 'n' && "nosuid"@[1] == 'o' && "nosuid"@[2] == 's' && "nosuid"@[3] == 'u');
    assert("nodev"@.len() == 5 && "nodev"@[0] == 'n' && "nodev"@[1] == 'o' && "nodev"@[2] == 'd' && "nodev"@[3] == 'e');
    assert("noexec"@.len() == 6 && "noexec"@[0] == 'n' && "noexec"@[1] == 'o' && "noexec"@[2] == 'e' && "noexec"@[3] == 'x');
    assert("sync"@.len() == 4 && "sync"@[0] == 's' && "sync"@[1] == 'y' && "sync"@[2] == 'n' && "sync"@[3] == 'c');
    assert("noatime"@.len() == 7 && "noatime"@[0] == 'n' && "noatime"@[1] == 'o' && "noatime"@[2] == 'a' && "noatime"@[3] == 't');
    assert("nodiratime"@.len() == 10 && "nodiratime"@[0] == 'n' && "nodiratime"@[1] == 'o' && "nodiratime"@[2] == 'd' && "nodiratime"@[3] == 'i');
}

/// The options that say what holds anyway are neither flags nor data; any other one
/// that is no flag is data for the file system.
#[verifier::spinoff_prover]
#[verifier::rlimit(60)]
pub proof fn other_options_are_data(t: Text)
    requires
        t.len() > 0,
        flag_of(t) is None,
    ensures
        is_data(t) <==> t != "rw"@ && t != "suid"@ && t != "dev"@ && t != "exec"@ && t != "async"@ && t != "atime"@ && t != "diratime"@ && t != "relatime"@ && t != "strictatime"@,
{
}

/// Each option adds its flag or its data, and nothing else, whatever stands around it.
pub proof fn options_are_read_one_by_one(v: Seq<Text>, o: Text, f: MountFlag)
    ensures
        is_flagged(v.push(o), f) <==> is_flagged(v, f) || flag_of(trimmed(o)) == Some(f),
        data_options(v.push(o)) == if is_data(trimmed(o)) {
            data_options(v).push(trimmed(o))
        } else {
            data_options(v)
        },
        !is_flagged(seq![], f),
        data_options(seq![]).len() == 0,
        data_of(seq![]) is None,
{
    let w = v.push(o);
    assert(w.drop_last() =~= v);
    assert(w[v.len() as int] == o);
    if is_flagged(v, f) {
        let i = choose|i: int| 0 <= i < v.len() && flag_of(trimmed(#[trigger] v[i])) == Some(f);
        assert(w[i] == v[i]);
    }
    if is_flagged(w, f) {
        let i = choose|i: int| 0 <= i < w.len() && flag_of(trimmed(#[trigger] w[i])) == Some(f);
        if i < v.len() {
            assert(v[i] == w[i]);
        }
    }
}

/// What is handed to the file system is its options, with commas between them and in the
/// order in which they were written.
pub proof fn data_is_joined_with_commas(v: Seq<Text>, t: Text)
    ensures
        data_options(v).len() == 0 ==> data_of(v) is None,
        data_options(v).len() > 0 ==> data_of(v) is Some,
        data_options(v).len() == 0 && is_data(trimmed(t)) ==> data_of(v.push(t)) == Some(
            trimmed(t),
        ),
        data_options(v).len() > 0 && is_data(trimmed(t)) ==> data_of(v.push(t)) == Some(
            data_of(v)->0 + ","@ + trimmed(t),
        ),
        !is_data(trimmed(t)) ==> data_of(v.push(t)) == data_of(v),
{
    assert(v.push(t).drop_last() =~= v);
    let w = data_options(v);
    let u = trimmed(t);
    assert(w.push(u).drop_last() =~= w);
    if w.len() == 0 {
        assert(w.push(u) =~= seq![u]);
        assert(joined(seq![u], ","@) =~= u);
    }
}

} // verus!
