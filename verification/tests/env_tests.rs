use wydy::env::{Var, Vars};
use wydy::parser::ParseVarsError;

#[test]
fn var_accessors() {
    let mut v = Var::new("editor".to_string(), "vi".to_string());
    assert_eq!(v.name(), "editor");
    assert_eq!(v.value(), "vi");
    v.set_value("nano".to_string());
    assert_eq!(v.name(), "editor");
    assert_eq!(v.value(), "nano");
}

#[test]
fn default_vars_hold_browser_and_editor() {
    let vars = Vars::default();
    assert_eq!(vars.value_of("browser"), Some("firefox".to_string()));
    assert_eq!(vars.value_of("editor"), Some("vi".to_string()));
    assert_eq!(vars.value_of("search_engine"), None);
}

#[test]
fn value_of_lowercases_the_name() {
    let vars = Vars::default();
    assert_eq!(vars.value_of("BROWSER"), Some("firefox".to_string()));
    assert_eq!(vars.value_of("Editor"), Some("vi".to_string()));
}

#[test]
fn value_of_first_match_wins() {
    let vars = Vars::from_vars(vec![
        Var::new("a".to_string(), "1".to_string()),
        Var::new("a".to_string(), "2".to_string()),
    ]);
    assert_eq!(vars.value_of("a"), Some("1".to_string()));
}

#[test]
fn names_with_capitals_are_found_in_any_case() {
    let mut vars = Vars::from_vars(vec![Var::new("Browser".to_string(), "x".to_string())]);
    assert_eq!(vars.value_of("Browser"), Some("x".to_string()));
    assert_eq!(vars.value_of("browser"), Some("x".to_string()));
    vars.set_var("BROWSER", "y");
    assert_eq!(vars.value_of("browser"), Some("y".to_string()));
}

#[test]
fn set_var_then_value_of() {
    let mut vars = Vars::default();
    vars.set_var("Browser", "chromium");
    assert_eq!(vars.value_of("browser"), Some("chromium".to_string()));
    assert_eq!(vars.value_of("editor"), Some("vi".to_string()));
}

#[test]
fn set_var_of_missing_name_changes_nothing() {
    let mut vars = Vars::default();
    vars.set_var("pager", "less");
    assert_eq!(vars.value_of("pager"), None);
    assert_eq!(vars.value_of("browser"), Some("firefox".to_string()));
    assert_eq!(vars.value_of("editor"), Some("vi".to_string()));
}

#[test]
fn load_without_file_gives_defaults() {
    let vars = Vars::load(None).unwrap();
    assert_eq!(vars.value_of("browser"), Some("firefox".to_string()));
    assert_eq!(vars.value_of("editor"), Some("vi".to_string()));
}

#[test]
fn load_reads_the_file() {
    let vars = Vars::load(Some("search_engine = google".to_string())).unwrap();
    assert_eq!(vars.value_of("search_engine"), Some("google".to_string()));
    assert_eq!(vars.value_of("browser"), None);
}

#[test]
fn load_refuses_a_bad_file() {
    assert!(matches!(Vars::load(Some("oops".to_string())), Err(ParseVarsError::ExpectedEquals)));
}
