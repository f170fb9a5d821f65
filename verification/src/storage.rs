//! Raw storage of unit files: what a backend does to the disk, and to the git
//! work tree around it, for each mutation.

use vstd::prelude::*;
use vstd::string::*;

use crate::order::{insert_named, sorting, sorting_is_ordered, views, Named};
pub use crate::repo::domain::UnitType;
use crate::repo::domain::type_of_name;
use crate::text::{
    cat2, contains, dec, decimal, decimal_reads_back, opt_text, owned, texts, trim, trimmed, within, Text,
};

verus! {

/// An error of the storage layer. An I/O failure is kept as its message.
#[derive(Debug, Clone)]
pub enum Error {
    /// An underlying I/O failure.
    Io(String),
    /// A `git` command failed.
    Git(String),
    /// A unit file name was rejected.
    InvalidName(String),
    /// A unit file that exists was to be created.
    AlreadyExists(String),
    /// A unit file that does not exist was to be updated.
    NotFound(String),
}

impl Error {
    /// The text that is shown for the error.
    pub open spec fn shown(self) -> Text {
        match self {
            Error::Io(e) => e@,
            Error::Git(s) => "git: "@ + s@,
            Error::InvalidName(s) => "invalid unit name: "@ + s@,
            Error::AlreadyExists(s) => "unit file already exists: "@ + s@,
            Error::NotFound(s) => "unit file not found: "@ + s@,
        }
    }

    /// The text that is shown for the error.
    pub fn message(&self) -> (r: String)
        ensures
            r@ == self.shown(),
    {
        match self {
            Error::Io(e) => e.clone(),
            Error::Git(s) => cat2("git: ", s.as_str()),
            Error::InvalidName(s) => cat2("invalid unit name: ", s.as_str()),
            Error::AlreadyExists(s) => cat2("unit file already exists: ", s.as_str()),
            Error::NotFound(s) => cat2("unit file not found: ", s.as_str()),
        }
    }
}

/// Which backend a store runs on.
#[derive(Debug, Clone, Copy, PartialEq, Eq, Structural)]
pub enum BackendKind {
    /// A plain directory.
    Dir,
    /// A git work tree: every mutation is committed too.
    Git,
}

impl BackendKind {
    /// `"dir"` or `"git"`.
    pub fn as_str(&self) -> (r: &'static str)
        ensures
            r@ == match self {
                BackendKind::Dir => "dir"@,
                BackendKind::Git => "git"@,
            },
    {
        match self {
            BackendKind::Dir => "dir",
            BackendKind::Git => "git",
        }
    }
}

/// One unit file in a store.
#[derive(Debug, Clone, PartialEq, Eq)]
pub struct UnitFile {
    pub name: String,
    pub kind: UnitType,
    pub path: String,
}

/// A unit file, as specifications see it.
pub ghost struct FileView {
    pub name: Text,
    pub kind: UnitType,
    pub path: Text,
}

impl View for UnitFile {
    type V = FileView;

    open spec fn view(&self) -> FileView {
        FileView { name: self.name@, kind: self.kind, path: self.path@ }
    }
}

impl Named for UnitFile {
    open spec fn label(v: FileView) -> Text {
        v.name
    }

    fn name_of(&self) -> (r: &str) {
        self.name.as_str()
    }
}

/// One entry of a directory. The name is missing where it is not text.
#[derive(Debug, Clone, PartialEq, Eq)]
pub struct DirItem {
    pub name: Option<String>,
    pub path: String,
    pub is_file: bool,
}

/// The unit file that a directory entry is.
pub open spec fn unit_file(e: DirItem) -> Option<FileView> {
    match opt_text(e.name) {
        Some(name) => match type_of_name(name) {
            Some(kind) => if e.is_file {
                Some(FileView { name, kind, path: e.path@ })
            } else {
                None
            },
            None => None,
        },
        None => None,
    }
}

/// The unit files among directory entries.
pub open spec fn unit_files(v: Seq<DirItem>) -> Seq<FileView>
    decreases v.len(),
{
    if v.len() == 0 {
        seq![]
    } else {
        match unit_file(v.last()) {
            Some(f) => unit_files(v.drop_last()).push(f),
            None => unit_files(v.drop_last()),
        }
    }
}

/// The unit files of a directory, by name.
pub fn list_dir(items: &Vec<DirItem>) -> (r: Vec<UnitFile>)
    ensures
        views(r@) == sorting::<UnitFile>(unit_files(items@)),
{
    let mut out: Vec<UnitFile> = Vec::new();
    let mut i: usize = 0;
    assert(items@.take(0) =~= seq![]);
    assert(views(out@) =~= unit_files(items@.take(0)));
    while i < items.len()
        invariant
            i <= items.len(),
            views(out@) == sorting::<UnitFile>(unit_files(items@.take(i as int))),
        decreases items.len() - i,
    {
        proof {
            sorting_is_ordered::<UnitFile>(unit_files(items@.take(i as int)));
        }
        let ghost was = unit_files(items@.take(i as int));
        assert(items@.take(i + 1).drop_last() =~= items@.take(i as int));
        let item = &items[i];
        if item.is_file {
            match &item.name {
                Some(name) => match UnitType::from_unit_name(name.as_str()) {
                    Some(kind) => {
                        let file = UnitFile { name: name.clone(), kind, path: item.path.clone() };
                        proof {
                            assert(was.push(file@).drop_last() =~= was);
                        }
                        insert_named(&mut out, file);
                    },
                    None => {},
                },
                None => {},
            }
        }
        i = i + 1;
    }
    assert(items@.take(items.len() as int) =~= items@);
    out
}

/// One thing a backend does.
#[derive(Debug, Clone, PartialEq, Eq)]
pub enum Op {
    /// Replace a file atomically: a temporary file in the same directory,
    /// renamed over it.
    Replace { name: String, content: String },
    /// Remove a file, if it is there.
    Remove { name: String },
    /// Run `git` with these arguments.
    Git { args: Vec<String> },
    /// Commit what is staged.
    Commit { message: String },
}

/// What a backend does, as specifications see it.
pub ghost enum Doing {
    Replace(Text, Text),
    Remove(Text),
    Git(Seq<Text>),
    Commit(Text),
}

impl View for Op {
    type V = Doing;

    open spec fn view(&self) -> Doing {
        match self {
            Op::Replace { name, content } => Doing::Replace(name@, content@),
            Op::Remove { name } => Doing::Remove(name@),
            Op::Git { args } => Doing::Git(texts(args@)),
            Op::Commit { message } => Doing::Commit(message@),
        }
    }
}

/// The storage behind a repository. Listing and reading are the same for every
/// backend; these are the things in which they differ.
pub trait Backend {
    spec fn kind_spec(&self) -> BackendKind;

    spec fn written(&self, name: Text, content: Text) -> Seq<Doing>;

    spec fn deleted(&self, name: Text) -> Seq<Doing>;

    spec fn head_spec(&self, output: Option<Text>) -> Option<Text>;

    /// Which backend this is.
    fn kind(&self) -> (r: BackendKind)
        ensures
            r == self.kind_spec(),
    ;

    /// What creating or replacing a file takes, in order; the first failure
    /// ends it.
    fn write(&self, name: &str, content: &str) -> (r: Vec<Op>)
        ensures
            views(r@) == self.written(name@, content@),
    ;

    /// What removing a file takes, in order; the first failure ends it.
    fn delete(&self, name: &str) -> (r: Vec<Op>)
        ensures
            views(r@) == self.deleted(name@),
    ;

    /// The commit that is checked out, from what `git rev-parse HEAD` printed
    /// where it succeeded.
    fn head(&self, output: Option<String>) -> (r: Option<String>)
        ensures
            opt_text(r) == self.head_spec(opt_text(output)),
    ;
}

/// The plain-directory backend.
#[derive(Debug, Clone, Copy)]
pub struct DirBackend;

/// The git backend: as the plain directory, with a commit for each mutation.
#[derive(Debug, Clone, Copy)]
pub struct GitBackend;

impl Backend for DirBackend {
    open spec fn kind_spec(&self) -> BackendKind {
        BackendKind::Dir
    }

    open spec fn written(&self, name: Text, content: Text) -> Seq<Doing> {
        seq![Doing::Replace(name, content)]
    }

    open spec fn deleted(&self, name: Text) -> Seq<Doing> {
        seq![Doing::Remove(name)]
    }

    open spec fn head_spec(&self, output: Option<Text>) -> Option<Text> {
        None
    }

    fn kind(&self) -> (r: BackendKind) {
        BackendKind::Dir
    }

    fn write(&self, name: &str, content: &str) -> (r: Vec<Op>) {
        let mut ops: Vec<Op> = Vec::new();
        ops.push(Op::Replace { name: owned(name), content: owned(content) });
        assert(views(ops@) =~= self.written(name@, content@));
        ops
    }

    fn delete(&self, name: &str) -> (r: Vec<Op>) {
        let mut ops: Vec<Op> = Vec::new();
        ops.push(Op::Remove { name: owned(name) });
        assert(views(ops@) =~= self.deleted(name@));
        ops
    }

    fn head(&self, output: Option<String>) -> (r: Option<String>) {
        None
    }
}

impl Backend for GitBackend {
    open spec fn kind_spec(&self) -> BackendKind {
        BackendKind::Git
    }

    open spec fn written(&self, name: Text, content: Text) -> Seq<Doing> {
        seq![
            Doing::Replace(name, content),
            Doing::Git(seq!["add"@, "--"@, name]),
            Doing::Commit("rustemd-repo: update "@ + name),
        ]
    }

    open spec fn deleted(&self, name: Text) -> Seq<Doing> {
        seq![
            Doing::Remove(name),
            Doing::Git(seq!["add"@, "-A"@, "--"@, name]),
            Doing::Commit("rustemd-repo: delete "@ + name),
        ]
    }

    open spec fn head_spec(&self, output: Option<Text>) -> Option<Text> {
        match output {
            Some(s) => if trimmed(s).len() > 0 {
                Some(trimmed(s))
            } else {
                None
            },
            None => None,
        }
    }

    fn kind(&self) -> (r: BackendKind) {
        BackendKind::Git
    }

    fn write(&self, name: &str, content: &str) -> (r: Vec<Op>) {
        let mut args: Vec<String> = Vec::new();
        args.push(owned("add"));
        args.push(owned("--"));
        args.push(owned(name));
        assert(texts(args@) =~= seq!["add"@, "--"@, name@]);
        let mut ops: Vec<Op> = Vec::new();
        ops.push(Op::Replace { name: owned(name), content: owned(content) });
        ops.push(Op::Git { args });
        ops.push(Op::Commit { message: cat2("rustemd-repo: update ", name) });
        assert(views(ops@) =~= self.written(name@, content@));
        ops
    }

    fn delete(&self, name: &str) -> (r: Vec<Op>) {
        let mut args: Vec<String> = Vec::new();
        args.push(owned("add"));
        args.push(owned("-A"));
        args.push(owned("--"));
        args.push(owned(name));
        assert(texts(args@) =~= seq!["add"@, "-A"@, "--"@, name@]);
        let mut ops: Vec<Op> = Vec::new();
        ops.push(Op::Remove { name: owned(name) });
        ops.push(Op::Git { args });
        ops.push(Op::Commit { message: cat2("rustemd-repo: delete ", name) });
        assert(views(ops@) =~= self.deleted(name@));
        ops
    }

    fn head(&self, output: Option<String>) -> (r: Option<String>) {
        match output {
            Some(s) => {
                let t = trim(s.as_str());
                if t.unicode_len() > 0 {
                    Some(owned(t))
                } else {
                    None
                }
            },
            None => None,
        }
    }
}

/// What a finished `git` command comes to, from its exit and what it wrote to
/// standard error.
pub fn git_result(success: bool, stderr: &str) -> (r: Result<(), Error>)
    ensures
        match r {
            Ok(_) => success,
            Err(Error::Git(m)) => !success && m@ == trimmed(stderr@),
            Err(_) => false,
        },
{
    if success {
        Ok(())
    } else {
        Err(Error::Git(owned(trim(stderr))))
    }
}

/// Does the message of a failed commit say that there was nothing to commit?
pub open spec fn nothing_to_commit(m: Text) -> bool {
    within(m, "nothing to commit"@) || within(m, "working tree clean"@)
}

/// What a commit comes to: that there was nothing to commit is no failure.
pub fn commit_result(git: Result<(), Error>) -> (r: Result<(), Error>)
    ensures
        match git {
            Err(Error::Git(m)) => if nothing_to_commit(m@) {
                r is Ok
            } else {
                r == git
            },
            _ => r == git,
        },
{
    match git {
        Err(Error::Git(m)) => if contains(m.as_str(), "nothing to commit") || contains(
            m.as_str(),
            "working tree clean",
        ) {
            Ok(())
        } else {
            Err(Error::Git(m))
        },
        other => other,
    }
}

/// The name of the temporary file behind an atomic replace.
pub open spec fn temp_file_name(name: Text, pid: nat, seq: nat) -> Text {
    seq!['.'] + name + ".rustemd-tmp-"@ + decimal(pid) + seq!['-'] + decimal(seq)
}

/// The name of the temporary file behind an atomic replace. `seq` differs for
/// each one in a process.
pub fn temp_name(name: &str, pid: u32, seq: u64) -> (r: String)
    ensures
        r@ == temp_file_name(name@, pid as nat, seq as nat),
{
    let p = dec(pid as u64);
    let q = dec(seq);
    let mut out = String::new();
    out.push('.');
    out.append(name);
    out.append(".rustemd-tmp-");
    out.append(p.as_str());
    out.push('-');
    out.append(q.as_str());
    assert(out@ =~= temp_file_name(name@, pid as nat, seq as nat));
    out
}

/// Two temporary files of one process for one name never have the same name.
pub proof fn temp_names_differ(name: Text, pid: nat, a: nat, b: nat)
    requires
        a != b,
    ensures
        temp_file_name(name, pid, a) != temp_file_name(name, pid, b),
{
    let head = seq!['.'] + name + ".rustemd-tmp-"@ + decimal(pid) + seq!['-'];
    let k = head.len() as int;
    decimal_reads_back(a);
    decimal_reads_back(b);
    assert(temp_file_name(name, pid, a).skip(k) =~= decimal(a));
    assert(temp_file_name(name, pid, b).skip(k) =~= decimal(b));
}

/// The git backend does to the files what the directory backend does; all else
/// it does is git's.
pub proof fn git_backend_does_what_dir_backend_does(name: Text, content: Text)
    ensures
        GitBackend.written(name, content)[0] == DirBackend.written(name, content)[0],
        GitBackend.deleted(name)[0] == DirBackend.deleted(name)[0],
        forall|i: int|
            1 <= i < GitBackend.written(name, content).len() ==> (#[trigger] GitBackend.written(
                name,
                content,
            )[i]) is Git || GitBackend.written(name, content)[i] is Commit,
        forall|i: int|
            1 <= i < GitBackend.deleted(name).len() ==> (#[trigger] GitBackend.deleted(
                name,
            )[i]) is Git || GitBackend.deleted(name)[i] is Commit,
{
}

/// What a change takes, in order: the file is replaced or removed, and git, where it
/// is used, is told of that file and commits it under a message that names it.
pub proof fn changes_take_these_steps(name: Text, content: Text)
    ensures
        DirBackend.written(name, content) == seq![Doing::Replace(name, content)],
        DirBackend.deleted(name) == seq![Doing::Remove(name)],
        GitBackend.written(name, content) == seq![
            Doing::Replace(name, content),
            Doing::Git(seq!["add"@, "--"@, name]),
            Doing::Commit("rustemd-repo: update "@ + name),
        ],
        GitBackend.deleted(name) == seq![
            Doing::Remove(name),
            Doing::Git(seq!["add"@, "-A"@, "--"@, name]),
            Doing::Commit("rustemd-repo: delete "@ + name),
        ],
        DirBackend.kind_spec() == BackendKind::Dir,
        GitBackend.kind_spec() == BackendKind::Git,
{
}

/// The commit that git names is what it printed, without white space; a plain
/// directory has none.
pub proof fn heads_are_what_git_prints(s: Text)
    ensures
        DirBackend.head_spec(Some(s)) is None,
        GitBackend.head_spec(None) is None,
        trimmed(s).len() > 0 ==> GitBackend.head_spec(Some(s)) == Some(trimmed(s)),
        trimmed(s).len() == 0 ==> GitBackend.head_spec(Some(s)) is None,
{
}

/// The files with the name of a unit are listed, directories and other files are not.
pub proof fn unit_files_are_listed(v: Seq<DirItem>, e: DirItem)
    ensures
        unit_file(e) is Some <==> e.is_file && e.name is Some && type_of_name(e.name->0@) is Some,
        unit_file(e) is Some ==> unit_file(e)->0.name == e.name->0@ && unit_file(e)->0.path
            == e.path@ && type_of_name(e.name->0@) == Some(unit_file(e)->0.kind),
        unit_files(v.push(e)) == if unit_file(e) is Some {
            unit_files(v).push(unit_file(e)->0)
        } else {
            unit_files(v)
        },
        unit_files(seq![]).len() == 0,
{
    assert(v.push(e).drop_last() =~= v);
}

/// An error says what it is about.
pub proof fn storage_errors_say_what_is_wrong(s: String)
    ensures
        Error::Io(s).shown() == s@,
        Error::Git(s).shown() == "git: "@ + s@,
        Error::InvalidName(s).shown() == "invalid unit name: "@ + s@,
        Error::AlreadyExists(s).shown() == "unit file already exists: "@ + s@,
        Error::NotFound(s).shown() == "unit file not found: "@ + s@,
{
}

/// A commit without changes is told by what git says.
pub proof fn empty_commits_are_told(a: Text, b: Text)
    ensures
        nothing_to_commit(a + "nothing to commit"@ + b),
        nothing_to_commit(a + "working tree clean"@ + b),
        !within(a, "nothing to commit"@) && !within(a, "working tree clean"@)
            ==> !nothing_to_commit(a),
{
    crate::text::laws::parts_of_a_text_are_found(a, "nothing to commit"@, b);
    crate::text::laws::parts_of_a_text_are_found(a, "working tree clean"@, b);
}

/// What is done, and the files that are listed, are seen as they are.
pub proof fn operations_are_what_they_hold(
    name: String,
    content: String,
    args: Vec<String>,
    f: UnitFile,
)
    ensures
        (Op::Replace { name, content })@ == Doing::Replace(name@, content@),
        (Op::Remove { name })@ == Doing::Remove(name@),
        (Op::Git { args })@ == Doing::Git(texts(args@)),
        (Op::Commit { message: name })@ == Doing::Commit(name@),
        f@.name == f.name@ && f@.kind == f.kind && f@.path == f.path@,
{
}

/// A file that is being written has a name of its own beside the one that it replaces: a
/// point first, and the process and a number behind.
pub proof fn temporary_files_have_their_own_names(name: Text, pid: nat, n: nat)
    ensures
        temp_file_name(name, pid, n) == seq!['.'] + name + ".rustemd-tmp-"@ + decimal(pid) + "-"@
            + decimal(n),
{
    reveal_strlit("-");
    assert("-"@ =~= seq!['-']);
}

} // verus!
