use rystemd::storage::{
    commit_result, git_result, list_dir, temp_name, Backend, BackendKind, DirBackend, DirItem,
    Error, GitBackend, Op, UnitType,
};

#[test]
fn backends_differ_in_commits_alone() {
    assert_eq!(DirBackend.kind(), BackendKind::Dir);
    assert_eq!(GitBackend.kind(), BackendKind::Git);
    assert_eq!(BackendKind::Git.as_str(), "git");
    let replace = Op::Replace {
        name: "a.service".into(),
        content: "x".into(),
    };
    assert_eq!(DirBackend.write("a.service", "x"), vec![replace.clone()]);
    let ops = GitBackend.write("a.service", "x");
    assert_eq!(ops[0], replace);
    assert_eq!(
        ops[1],
        Op::Git {
            args: vec!["add".into(), "--".into(), "a.service".into()]
        }
    );
    assert_eq!(
        ops[2],
        Op::Commit {
            message: "rustemd-repo: update a.service".into()
        }
    );
    let ops = GitBackend.delete("a.service");
    assert_eq!(
        ops[0],
        Op::Remove {
            name: "a.service".into()
        }
    );
    assert_eq!(
        ops[2],
        Op::Commit {
            message: "rustemd-repo: delete a.service".into()
        }
    );
    assert_eq!(DirBackend.head(Some("abc\n".into())), None);
    assert_eq!(GitBackend.head(Some("abc\n".into())), Some("abc".into()));
    assert_eq!(GitBackend.head(Some("\n".into())), None);
    assert_eq!(GitBackend.head(None), None);
}

#[test]
fn an_empty_commit_is_no_failure() {
    assert!(git_result(true, "noise").is_ok());
    let failed = git_result(false, " nothing to commit \n");
    assert_eq!(
        failed.as_ref().unwrap_err().message(),
        "git: nothing to commit"
    );
    assert!(commit_result(failed).is_ok());
    assert!(commit_result(git_result(false, "fatal: broken")).is_err());
    assert!(commit_result(Err(Error::Io("x".into()))).is_err());
}

#[test]
fn unit_files_are_listed_by_name() {
    let item = |name: Option<&str>, is_file: bool| DirItem {
        name: name.map(str::to_string),
        path: format!("/d/{}", name.unwrap_or("?")),
        is_file,
    };
    let files = list_dir(&vec![
        item(Some("z.timer"), true),
        item(Some("a.service"), true),
        item(Some("dir.service"), false),
        item(Some("notes.txt"), true),
        item(None, true),
    ]);
    let names: Vec<&str> = files.iter().map(|f| f.name.as_str()).collect();
    assert_eq!(names, vec!["a.service", "z.timer"]);
    assert_eq!(files[1].kind, UnitType::Timer);
    assert_eq!(files[1].path, "/d/z.timer");
}

#[test]
fn temporary_files_have_names_of_their_own() {
    assert_eq!(temp_name("a.service", 7, 3), ".a.service.rustemd-tmp-7-3");
    assert_ne!(temp_name("a.service", 7, 3), temp_name("a.service", 7, 4));
}

#[test]
fn storage_errors_are_shown() {
    assert_eq!(Error::Io("disk full".into()).message(), "disk full");
    assert_eq!(
        Error::InvalidName("x".into()).message(),
        "invalid unit name: x"
    );
    assert_eq!(
        Error::AlreadyExists("x".into()).message(),
        "unit file already exists: x"
    );
    assert_eq!(
        Error::NotFound("x".into()).message(),
        "unit file not found: x"
    );
}
