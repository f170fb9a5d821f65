use rystemd::enable::masks::{find_file, is_masked, mask, state, unmask, Place};
use rystemd::enable::{
    disable, enable, enabled_state, holds_links, install_links, install_section, link_existing,
    normalize_file_name, FoundFile, Walk,
};
use rystemd::paths::{file_name, path_below};

fn file(name: &str, text: &str) -> Option<FoundFile> {
    Some(FoundFile {
        path: format!("/units/{name}"),
        text: Some(text.to_string()),
    })
}

#[test]
fn enable_then_disable() {
    let unit = file("hello.service", "[Install]\nWantedBy=multi-user.target\n");
    let mut links: Vec<String> = vec![];
    let state = |links: &Vec<String>| enabled_state("/conf", "hello", false, &unit, links);

    assert_eq!(state(&links), "disabled");
    let plan = enable("/conf", "hello", &unit).unwrap();
    assert_eq!(plan.links.len(), 1);
    links.extend(plan.links.iter().map(|l| l.link.clone()));
    assert_eq!(state(&links), "enabled");
    assert_eq!(links, vec!["/conf/multi-user.target.wants/hello.service"]);
    assert_eq!(
        plan.links[0].message(),
        "Created symlink /conf/multi-user.target.wants/hello.service -> /units/hello.service"
    );

    let removed = disable("/conf", "hello", &unit, &links);
    assert_eq!(removed.messages.len(), 1);
    assert_eq!(
        removed.messages[0],
        "Removed /conf/multi-user.target.wants/hello.service"
    );
    links.retain(|l| !removed.remove.contains(l));
    assert_eq!(state(&links), "disabled");
}

#[test]
fn static_and_not_found() {
    let unit = file(
        "oneshot.service",
        "[Service]\nType=oneshot\nExecStart=/bin/true\n",
    );
    assert_eq!(
        enabled_state("/conf", "oneshot", false, &unit, &vec![]),
        "static"
    );
    assert_eq!(
        enabled_state("/conf", "missing.service", false, &None, &vec![]),
        "not-found"
    );
    assert_eq!(
        enabled_state("/conf", "oneshot", true, &unit, &vec![]),
        "masked"
    );
}

#[test]
fn aliases_created() {
    let unit = file(
        "web.service",
        "[Install]\nWantedBy=multi-user.target\nAlias=httpd.service\n",
    );
    let plan = enable("/conf", "web.service", &unit).unwrap();
    let links: Vec<&str> = plan.links.iter().map(|l| l.link.as_str()).collect();
    assert!(links.contains(&"/conf/multi-user.target.wants/web.service"));
    assert!(links.contains(&"/conf/httpd.service"));
    assert_eq!(plan.links[1].dir, "/conf");
    assert_eq!(
        plan.links[1].message(),
        "Created alias /conf/httpd.service -> /units/web.service"
    );
}

#[test]
fn a_target_under_both_keys_wants_the_unit() {
    let unit = file(
        "a.service",
        "[Install]\nWantedBy=x.target y.target\nRequiredBy=y.target z.target\n",
    );
    let plan = enable("/conf/", "a", &unit).unwrap();
    let links: Vec<&str> = plan.links.iter().map(|l| l.link.as_str()).collect();
    assert_eq!(
        links,
        vec![
            "/conf/x.target.wants/a.service",
            "/conf/y.target.wants/a.service",
            "/conf/y.target.wants/a.service",
            "/conf/z.target.requires/a.service",
        ]
    );
    // Each link is removed and reported once.
    let present: Vec<String> = links.iter().map(|l| l.to_string()).collect();
    let removed = disable("/conf/", "a", &unit, &present);
    assert_eq!(removed.remove.len(), 3);
}

#[test]
fn units_that_cannot_be_enabled_are_refused() {
    assert_eq!(
        enable("/conf", "nope", &None).err(),
        Some("Failed to enable unit: Unit file nope.service not found.".into())
    );
    let unreadable = Some(FoundFile {
        path: "/units/x.service".into(),
        text: None,
    });
    assert_eq!(
        enable("/conf", "x", &unreadable).err(),
        Some("Unit x.service has no installation config (no [Install] section).".into())
    );
    let plan = disable("/conf", "x", &unreadable, &vec![]);
    assert_eq!(plan.messages, vec!["Unit x.service was not enabled."]);
}

#[test]
fn also_units_follow() {
    let unit = file(
        "a.service",
        "[Install]\nAlso=b.timer\nAlso=c\nWantedBy=%p.target\n",
    );
    let plan = enable("/conf", "a", &unit).unwrap();
    assert_eq!(plan.also, vec!["b.timer", "c.service"]);
    assert_eq!(plan.links[0].link, "/conf/a.target.wants/a.service");
    let mut walk = Walk::new("a");
    assert_eq!(walk.next().as_deref(), Some("a.service"));
    walk.also(&plan.also);
    assert_eq!(walk.next().as_deref(), Some("b.timer"));
    walk.also(&vec!["d.service".into()]);
    assert_eq!(walk.next().as_deref(), Some("d.service"));
    assert_eq!(walk.next().as_deref(), Some("c.service"));
    assert_eq!(walk.next(), None);
    let quiet = disable("/conf", "a", &unit, &vec![]);
    assert!(quiet.messages.is_empty());
    assert_eq!(quiet.also, vec!["b.timer", "c.service"]);
}

#[test]
fn stray_links_are_found() {
    let entries: Vec<String> = ["multi-user.target.wants", "x.requires", "y.target.requires", "z"]
        .iter()
        .map(|s| s.to_string())
        .collect();
    assert_eq!(
        link_existing("/conf", "a", &entries),
        vec![
            "/conf/multi-user.target.wants/a.service",
            "/conf/y.target.requires/a.service"
        ]
    );
    assert!(!holds_links("x.requires"));
    assert_eq!(normalize_file_name("a.timer"), "a.timer");
}

#[test]
fn sections_and_paths() {
    let install = install_section("[Install]\nAlias=a b\nWantedBy=t u\n", "x.service").unwrap();
    assert_eq!(install.alias, vec!["a b"]);
    assert_eq!(install.wanted_by, vec!["t", "u"]);
    assert!(install_section("broken", "x.service").is_none());
    assert_eq!(
        install_links("", "x.service", &install),
        vec![
            "t.wants/x.service",
            "t.requires/x.service",
            "u.wants/x.service",
            "u.requires/x.service",
            "a b.service"
        ]
    );
    assert_eq!(path_below("/a", "/b"), "/b");
    assert_eq!(path_below("/a/", "b"), "/a/b");
    assert_eq!(file_name("/a/b/"), Some("b".into()));
    assert_eq!(file_name("a/.."), None);
    assert_eq!(file_name("a/."), Some("a".into()));
    assert_eq!(file_name("/"), None);
}

#[test]
fn unmasking_undoes_masking() {
    let dirs = vec!["/shadow".to_string(), "/units".to_string()];
    let real = || {
        Place::File(FoundFile {
            path: "/units/halo.service".into(),
            text: Some("[Install]\nWantedBy=multi-user.target\n".into()),
        })
    };
    let shown = |places: &Vec<Place>| state("/conf", "halo.service", places, &vec![]);

    let before = vec![Place::Vacant, real()];
    assert!(!is_masked(&before));
    assert_eq!(shown(&before), "disabled");
    assert_eq!(unmask(&dirs, "halo.service", &before), None);
    assert_eq!(
        mask(&dirs, "halo.service", &before),
        Ok("/shadow/halo.service".into())
    );

    let masked = vec![Place::Mask, real()];
    assert!(is_masked(&masked));
    assert_eq!(shown(&masked), "masked");
    assert_eq!(find_file(&masked).unwrap().path, "/units/halo.service");
    assert_eq!(
        unmask(&dirs, "halo.service", &masked),
        Some("/shadow/halo.service".into())
    );
    assert!(mask(&dirs, "halo.service", &masked).is_ok());

    // A link to nothing behind the unit's file masks nothing.
    assert!(!is_masked(&vec![real(), Place::Mask]));
    assert!(is_masked(&vec![Place::Vacant, Place::Mask]));
    assert_eq!(shown(&vec![Place::Vacant, Place::Vacant]), "not-found");
}

#[test]
fn masks_replace_no_files() {
    let dirs = vec!["/units".to_string()];
    let file = Place::File(FoundFile {
        path: "/units/a.service".into(),
        text: None,
    });
    let refused = Err("File /units/a.service already exists.".to_string());
    assert_eq!(mask(&dirs, "a.service", &vec![file]), refused);
    assert_eq!(mask(&dirs, "a.service", &vec![Place::Other]), refused);
    assert_eq!(
        mask(&vec![], "a.service", &vec![]),
        Err("no unit directory".into())
    );
}
