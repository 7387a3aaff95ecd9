use targets::config::HookError;
use targets::format::ValuesFormat;
use targets::text::{decimal_text, join_words};

fn words(ws: Vec<&str>) -> Vec<String> {
    ws.into_iter().map(|w| w.to_string()).collect()
}

#[test]
fn decimal_text_is_what_display_writes() {
    for i in [0, 1, 9, 10, 11, 99, 100, 127, 255, 1000, 65535, -1, -9, -10, -128, i32::MAX, i32::MIN] {
        assert_eq!(decimal_text(i), i.to_string());
    }
}

#[test]
fn decimal_text_of_small_numbers() {
    assert_eq!(decimal_text(0), "0");
    assert_eq!(decimal_text(7), "7");
    assert_eq!(decimal_text(42), "42");
    assert_eq!(decimal_text(-42), "-42");
    assert_eq!(decimal_text(2147483647), "2147483647");
    assert_eq!(decimal_text(-2147483648), "-2147483648");
}

#[test]
fn words_are_joined_with_the_separator() {
    assert_eq!(join_words(&words(vec![]), " "), "");
    assert_eq!(join_words(&words(vec!["a"]), " "), "a");
    assert_eq!(join_words(&words(vec!["a", "b", "c"]), " "), "a b c");
    assert_eq!(join_words(&words(vec!["a", "", "c"]), ", "), "a, , c");
    assert_eq!(join_words(&words(vec!["", ""]), "-"), "-");
}

#[test]
fn hook_messages_name_the_command() {
    let command = words(vec!["systemctl", "reload", "$UNIT"]);
    assert_eq!(HookError::Empty.message(&words(vec![])), "a hook should have at least one part");
    assert_eq!(
        HookError::Expansion { part: 2, variable: "UNIT".to_string() }.message(&command),
        "Failed to expand variables in hook: systemctl reload $UNIT"
    );
    assert_eq!(
        HookError::NotStarted { reason: "not found".to_string() }.message(&command),
        "Failed to execute hook systemctl reload $UNIT"
    );
    assert_eq!(
        HookError::Exit { code: 3 }.message(&command),
        "Hook 'systemctl reload $UNIT' failed with status: 3"
    );
    assert_eq!(
        HookError::Exit { code: -1 }.message(&command),
        "Hook 'systemctl reload $UNIT' failed with status: -1"
    );
    assert_eq!(
        HookError::Signal.message(&command),
        "Hook 'systemctl reload $UNIT' failed with status: (command terminated by signal)"
    );
}

#[test]
fn format_names_are_their_extensions() {
    for f in [ValuesFormat::Json, ValuesFormat::Yaml, ValuesFormat::Toml] {
        assert_eq!(ValuesFormat::from_extension(f.name()), f);
    }
    assert_eq!(ValuesFormat::Json.name(), "json");
    assert_eq!(ValuesFormat::Yaml.name(), "yaml");
    assert_eq!(ValuesFormat::Toml.name(), "toml");
}
