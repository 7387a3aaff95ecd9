use targets::expand::{expand_path, Environment};

fn env(home: Option<&str>, vars: Vec<(&str, &str)>) -> Environment {
    Environment {
        home: home.map(|h| h.to_string()),
        vars: vars.into_iter().map(|(k, v)| (k.to_string(), v.to_string())).collect(),
    }
}

#[test]
fn tilde_is_the_home_directory() {
    let e = env(Some("/home/u"), vec![("HOME", "/home/u")]);
    assert_eq!(expand_path("~/out/file.txt", &e).unwrap(), "/home/u/out/file.txt");
    assert_eq!(expand_path("~", &e).unwrap(), "/home/u");
}

#[test]
fn variables_are_replaced() {
    let e = env(Some("/home/u"), vec![("A", "a value"), ("B", "b")]);
    assert_eq!(expand_path("$A/x", &e).unwrap(), "a value/x");
    assert_eq!(expand_path("${B}c/$A", &e).unwrap(), "bc/a value");
    assert_eq!(expand_path("~/$B", &e).unwrap(), "/home/u/b");
}

#[test]
fn plain_text_stays() {
    let e = env(Some("/home/u"), vec![]);
    assert_eq!(expand_path("some/path", &e).unwrap(), "some/path");
    assert_eq!(expand_path("a~b", &e).unwrap(), "a~b");
    assert_eq!(expand_path("", &e).unwrap(), "");
}

#[test]
fn undefined_variable_is_an_error() {
    let e = env(Some("/home/u"), vec![("A", "a")]);
    let err = expand_path("$A/$MISSING/x", &e).unwrap_err();
    assert_eq!(err.variable, "MISSING");
}

#[test]
fn tilde_stays_without_a_home() {
    let e = env(None, vec![]);
    assert_eq!(expand_path("~/x", &e).unwrap(), "~/x");
}

#[test]
fn tilde_from_a_variable_is_not_expanded() {
    let e = env(Some("/home/u"), vec![("T", "~")]);
    assert_eq!(expand_path("$T/x", &e).unwrap(), "~/x");
}

#[test]
fn first_definition_counts() {
    let e = env(None, vec![("A", "1"), ("B", "2"), ("A", "3")]);
    assert_eq!(e.lookup("A"), Some("1".to_string()));
    assert_eq!(e.lookup("B"), Some("2".to_string()));
    assert_eq!(e.lookup("C"), None);
    assert_eq!(expand_path("$A$B", &e).unwrap(), "12");
}

#[test]
fn home_is_handed_out() {
    assert_eq!(env(Some("/h"), vec![]).home_dir(), Some("/h".to_string()));
    assert_eq!(env(None, vec![]).home_dir(), None);
}

#[test]
fn tilde_before_a_name_stays() {
    let e = env(Some("/home/u"), vec![]);
    assert_eq!(expand_path("~other/x", &e).unwrap(), "~other/x");
}

#[test]
fn braced_reference_with_default_does_not_fail() {
    let e = env(Some("/home/u"), vec![("A", "a")]);
    assert_eq!(expand_path("${MISSING:-fallback}/x", &e).unwrap(), "fallback/x");
    assert_eq!(expand_path("${A:-fallback}/x", &e).unwrap(), "a/x");
}
