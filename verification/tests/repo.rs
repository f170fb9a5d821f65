use std::collections::BTreeMap;

use rystemd::repo::domain::{UnitDefinition, UnitDocument, UnitEntry, UnitSection, UnitType};
use rystemd::repo::error::Error;
use rystemd::repo::store::{list_names, validate_name, FoundUnit, Repo, Step};

/// Directories in memory, one for each root.
struct Disk {
    repo: Repo,
    roots: Vec<BTreeMap<String, String>>,
}

impl Disk {
    fn new(roots: usize) -> Disk {
        let paths = (0..roots).map(|i| format!("/root{i}")).collect();
        Disk {
            repo: Repo::open_roots(paths).unwrap(),
            roots: vec![BTreeMap::new(); roots],
        }
    }

    fn read(&self, name: &str) -> Result<Option<UnitDefinition>, Error> {
        let found = self.roots.iter().map(|r| r.get(name).cloned()).collect();
        self.repo.read(name, &found)
    }

    fn current(&self, name: &str) -> Option<String> {
        self.roots[0].get(name).cloned()
    }

    fn list(&self) -> Result<Vec<UnitDefinition>, Error> {
        let mut found = vec![];
        for r in &self.roots {
            let names = list_names(&r.keys().cloned().collect());
            for n in names {
                found.push(FoundUnit {
                    text: r.get(&n).cloned(),
                    name: n,
                });
            }
        }
        self.repo.list(&found)
    }

    fn apply(&mut self, step: Result<Step, Error>) -> Result<(), Error> {
        match step? {
            Step::Write { name, text } => {
                self.roots[0].insert(name, text);
            }
            Step::Delete { name } => {
                self.roots[0].remove(&name);
            }
        }
        Ok(())
    }

    fn create(&mut self, u: &UnitDefinition) -> Result<(), Error> {
        let step = self.repo.create(u, self.current(&u.name));
        self.apply(step)
    }

    fn update(&mut self, u: &UnitDefinition) -> Result<(), Error> {
        let step = self.repo.update(u, self.current(&u.name));
        self.apply(step)
    }

    fn write(&mut self, u: &UnitDefinition) -> Result<(), Error> {
        let step = self.repo.write(u);
        self.apply(step)
    }

    fn delete(&mut self, name: &str) -> Result<(), Error> {
        let step = self.repo.delete(name);
        self.apply(step)
    }
}

fn definition(name: &str, description: &str) -> UnitDefinition {
    UnitDefinition::parse(
        name,
        &format!("[Unit]\nDescription={description}\n\n[Service]\nExecStart=/bin/true\n"),
    )
    .unwrap()
}

#[test]
fn suffix_round_trips() {
    for t in UnitType::ALL {
        assert_eq!(UnitType::from_suffix(t.suffix()), Some(t));
    }
    assert_eq!(UnitType::from_suffix("conf"), None);
    assert_eq!(UnitType::from_suffix(""), None);
}

#[test]
fn name_resolution() {
    assert_eq!(
        UnitType::from_unit_name("foo.service"),
        Some(UnitType::Service)
    );
    assert_eq!(UnitType::from_unit_name("x.timer"), Some(UnitType::Timer));
    assert_eq!(
        UnitType::from_unit_name("a.b.target"),
        Some(UnitType::Target)
    );
    assert_eq!(
        UnitType::from_unit_name("getty@.service"),
        Some(UnitType::Service)
    );
    assert_eq!(UnitType::from_unit_name("nosuffix"), None);
    assert_eq!(UnitType::from_unit_name("foo."), None);
    assert_eq!(UnitType::from_unit_name(""), None);
}

#[test]
fn typed_create_update_write_read_and_delete() {
    let mut repo = Disk::new(1);
    let first = definition("hello.service", "first");
    repo.create(&first).unwrap();
    assert_eq!(repo.read("hello.service").unwrap(), Some(first.clone()));
    assert!(matches!(repo.create(&first), Err(Error::AlreadyExists(_))));
    let second = definition("hello.service", "second");
    repo.update(&second).unwrap();
    assert_eq!(repo.read("hello.service").unwrap(), Some(second.clone()));
    assert!(matches!(
        repo.update(&definition("missing.service", "missing")),
        Err(Error::NotFound(_))
    ));
    repo.write(&first).unwrap();
    assert_eq!(repo.read("hello.service").unwrap(), Some(first));
    repo.delete("hello.service").unwrap();
    repo.delete("hello.service").unwrap();
    assert_eq!(repo.read("hello.service").unwrap(), None);
}

#[test]
fn list_parses_definitions_and_applies_root_precedence() {
    let mut repo = Disk::new(2);
    repo.roots[0].insert(
        "same.service".into(),
        "[Unit]\nDescription=primary\n".into(),
    );
    repo.roots[1].insert(
        "same.service".into(),
        "[Unit]\nDescription=secondary\n".into(),
    );
    repo.roots[1].insert("other.service".into(), "[Unit]\nDescription=other\n".into());
    let listed = repo.list().unwrap();
    assert_eq!(
        listed.iter().map(|d| d.name.as_str()).collect::<Vec<_>>(),
        vec!["other.service", "same.service"]
    );
    assert_eq!(
        repo.read("same.service")
            .unwrap()
            .unwrap()
            .document
            .sections[0]
            .entries[0]
            .value,
        "primary"
    );
}

#[test]
fn rejects_paths_and_malformed_documents() {
    let repo = Disk::new(1);
    assert!(matches!(
        repo.read("../evil.service"),
        Err(Error::InvalidName(_))
    ));
    assert!(UnitDefinition::parse("bad.service", "Description=no section\n").is_err());
}

#[test]
fn read_path_returns_a_typed_definition() {
    let repo = Disk::new(1);
    let text = Ok("[Service]\nExecStart=/bin/true\n".to_string());
    assert_eq!(
        repo.repo.read_path("/units/raw.service", &text).unwrap().name,
        "raw.service"
    );
    assert!(matches!(
        repo.repo.read_path("/units/..", &text),
        Err(Error::InvalidName(_))
    ));
    assert!(matches!(
        repo.repo.read_path("/units/x.service", &Err("gone".into())),
        Err(Error::Io(_))
    ));
}

#[test]
fn typed_crud_round_trip_preserves_the_structured_unit_definition() {
    let mut repo = Disk::new(1);
    let definition = UnitDefinition::parse(
        "backup.service",
        "[Unit]\nDescription=Nightly backup\n\n[Service]\nExecStart=/bin/backup --nightly\n",
    )
    .unwrap();

    repo.create(&definition).unwrap();

    let loaded = repo.read("backup.service").unwrap().unwrap();
    assert_eq!(loaded, definition);
    assert_eq!(loaded.document.sections.len(), 2);
    assert_eq!(
        loaded.document.sections[0],
        UnitSection {
            name: "Unit".into(),
            entries: vec![UnitEntry {
                key: "Description".into(),
                value: "Nightly backup".into()
            }],
        }
    );
    assert_eq!(
        loaded.to_text(),
        "[Unit]\nDescription=Nightly backup\n\n[Service]\nExecStart=/bin/backup --nightly\n"
    );
}

#[test]
fn name_validation_rejects_traversal_and_unknown_suffix() {
    let mut repo = Disk::new(1);
    for bad in [
        "../evil.service",
        "a/b.service",
        "..\\evil.service",
        "no-suffix",
        "",
        "..",
    ] {
        assert!(
            matches!(validate_name(bad), Err(Error::InvalidName(_))),
            "should reject `{bad}`"
        );
        let unit = UnitDefinition {
            name: bad.into(),
            ..definition("ok.service", "x")
        };
        assert!(
            matches!(repo.write(&unit), Err(Error::InvalidName(_))),
            "should not write `{bad}`"
        );
    }
    assert!(validate_name("ok.service").is_ok());
    assert!(repo.list().unwrap().is_empty());
}

#[test]
fn missing_directory_lists_empty() {
    let mut repo = Disk::new(1);
    assert!(repo.list().unwrap().is_empty());
    assert_eq!(repo.read("foo.service").unwrap(), None);
    let unit = definition("foo.service", "x");
    repo.write(&unit).unwrap();
    assert_eq!(repo.read("foo.service").unwrap(), Some(unit));
}

#[test]
fn mutations_replace_or_remove() {
    let mut disk = Disk::new(1);
    disk.create(&definition("counter.service", "zero")).unwrap();
    for _ in 0..200 {
        let step = disk.repo.mutate(
            "counter.service",
            disk.current("counter.service"),
            |current| {
                let mut definition: UnitDefinition = current.unwrap();
                definition.document.sections[0].entries[0].value.push('!');
                Some(definition)
            },
        );
        disk.apply(step).unwrap();
    }
    let unit = disk.read("counter.service").unwrap().unwrap();
    assert_eq!(unit.document.sections[0].entries[0].value.len(), 204);
    let step = disk.repo.mutate(
        "counter.service",
        disk.current("counter.service"),
        |_| Some(definition("other.service", "x")),
    );
    assert!(matches!(step, Err(Error::InvalidName(_))));
    let step = disk
        .repo
        .mutate("counter.service", disk.current("counter.service"), |_| None);
    disk.apply(step).unwrap();
    assert_eq!(disk.read("counter.service").unwrap(), None);
}

#[test]
fn changes_go_to_the_first_root() {
    let mut disk = Disk::new(2);
    disk.roots[1].insert("a.service".into(), "[Unit]\nDescription=low\n".into());
    disk.write(&definition("a.service", "high")).unwrap();
    assert_eq!(disk.roots[0].len(), 1);
    assert!(disk.roots[1]["a.service"].contains("low"));
    disk.delete("a.service").unwrap();
    assert!(disk.read("a.service").unwrap().unwrap().to_text().contains("low"));
    assert_eq!(disk.repo.root(), "/root0");
    assert_eq!(disk.repo.roots().len(), 2);
    assert!(Repo::open_roots(vec![]).is_err());
    assert_eq!(Repo::open("/x".into()).root(), "/x");
}

#[test]
fn documents_are_read_and_written() {
    let text = "# comment\n[Unit]\nA = b \n\nC=d\n; more\n[X]\n";
    let d = UnitDocument::parse(text).unwrap();
    let again = UnitDocument::parse(&d.to_text()).unwrap();
    assert_eq!(d, again);
    assert_eq!(d.sections[0].entries[0].value, "b");
    let error = UnitDocument::parse("[Unit]\nno equals sign\n").unwrap_err();
    assert!(matches!(error, Error::Parse { line: 2, .. }));
    assert!(error.message().starts_with("line 2: "));
    assert_eq!(
        Error::AlreadyExists("x".into()).message(),
        "unit definition already exists: x"
    );
}
