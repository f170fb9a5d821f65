use rystemd::expand::{expand_env_argv, expand_env_token};
use rystemd::table::Table;

fn env(pairs: &[(&str, &str)]) -> Table<String> {
    let mut t = Table::new();
    for (k, v) in pairs {
        t.insert(k.to_string(), v.to_string());
    }
    t
}

#[test]
fn expands_simple_and_braced() {
    let e = env(&[("HOME", "/home/me"), ("X", "y")]);
    assert_eq!(expand_env_token("$HOME", &e), "/home/me");
    assert_eq!(expand_env_token("${HOME}", &e), "/home/me");
    assert_eq!(expand_env_token("${X}", &e), "y");
}

#[test]
fn unset_variable_expands_empty() {
    let e = env(&[("HOME", "/home/me")]);
    assert_eq!(expand_env_token("$MISSING", &e), "");
    assert_eq!(expand_env_token("${MISSING}", &e), "");
}

#[test]
fn preserves_non_variable_dollar_sequences() {
    let e = env(&[]);
    assert_eq!(expand_env_token("$", &e), "$");
    assert_eq!(expand_env_token("$$", &e), "$$");
    assert_eq!(expand_env_token("a$!b", &e), "a$!b");
    assert_eq!(expand_env_token("${unclosed", &e), "${unclosed");
}

#[test]
fn expands_inline_with_surrounding_text() {
    let e = env(&[("FOO", "x")]);
    assert_eq!(expand_env_token("pre$FOO/post", &e), "prex/post");
    assert_eq!(expand_env_token("${FOO}bar", &e), "xbar");
}

#[test]
fn var_name_stops_at_non_alphanumeric() {
    let e = env(&[("A", "1"), ("A_B", "2")]);
    assert_eq!(expand_env_token("$A_B", &e), "2");
    assert_eq!(expand_env_token("$A.b", &e), "1.b");
}

#[test]
fn multibyte_utf8_passthrough() {
    let e = env(&[]);
    assert_eq!(expand_env_token("héllo→world", &e), "héllo→world");
}

#[test]
fn expand_argv_applies_to_every_token() {
    let e = env(&[("D", "/d")]);
    assert_eq!(
        expand_env_argv(&vec!["$D".into(), "plain".into()], &e),
        vec!["/d", "plain"]
    );
}

#[test]
fn windows_expands_by_the_same_rules() {
    let e = env(&[("FOO", "x")]);
    for token in ["$FOO/bin", "${FOO}", "a$!b", "${unclosed", "$$"] {
        assert_eq!(
            rystemd::platform::windows::process::expand_env_token(token, &e),
            expand_env_token(token, &e)
        );
    }
}
