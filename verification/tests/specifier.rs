use rystemd::specifier::SpecifierContext;

fn ctx() -> SpecifierContext {
    SpecifierContext {
        unit_name: "backup@home.service".into(),
        runtime_dir: "/run".into(),
        user_name: "alice".into(),
        uid: "1000".into(),
        home: "/home/alice".into(),
        hostname: "box".into(),
        machine_id: "abcd".into(),
    }
}

#[test]
fn name_parts() {
    let c = ctx();
    assert_eq!(c.prefix(), "backup");
    assert_eq!(c.instance(), "home");
    assert_eq!(c.expand("%n"), "backup@home.service");
    assert_eq!(c.expand("%p"), "backup");
    assert_eq!(c.expand("%i"), "home");
}

#[test]
fn non_templated() {
    let mut c = ctx();
    c.unit_name = "backup.service".into();
    assert_eq!(c.prefix(), "backup");
    assert_eq!(c.instance(), "");
    assert_eq!(c.expand("%i"), "");
}

#[test]
fn literals() {
    let c = ctx();
    assert_eq!(c.expand("%%"), "%");
    assert_eq!(c.expand("100%%"), "100%");
    assert_eq!(c.expand("a%zc"), "a%zc"); // %z is unknown and is kept
}

#[test]
fn mixed() {
    let c = ctx();
    assert_eq!(c.expand("/home/%u/bin"), "/home/alice/bin");
    assert_eq!(c.expand("%t/rustemd"), "/run/rustemd");
    assert_eq!(c.expand("%U"), "1000");
    assert_eq!(c.expand("%H %m"), "box abcd");
    assert_eq!(c.expand("%h"), "/home/alice");
    assert_eq!(c.expand("trailing %"), "trailing %");
}

#[test]
fn text_without_percent_signs_stays() {
    let c = ctx();
    assert_eq!(c.expand(""), "");
    assert_eq!(c.expand("plain text"), "plain text");
    assert_eq!(c.expand("a %% b %%"), "a % b %");
}

#[test]
fn the_type_suffix_follows_the_last_dot() {
    let mut c = ctx();
    c.unit_name = "backup@1.2.service".into();
    assert_eq!(c.prefix(), "backup");
    assert_eq!(c.instance(), "1.2");
    assert_eq!(c.expand("%p %i"), "backup 1.2");
    c.unit_name = "a.b.service".into();
    assert_eq!(c.prefix(), "a.b");
    assert_eq!(c.instance(), "");
    c.unit_name = "bare".into();
    assert_eq!(c.prefix(), "bare");
    c.unit_name = "bare@x".into();
    assert_eq!(c.instance(), "");
}
