use wydy::parser::{parse_command_str, parse_vars, ParseVarsError, WKeyword};

#[test]
fn parse_command_str_splits_keyword() {
    let (k, c) = parse_command_str("  Search  rust lang  ".to_string());
    assert_eq!(k, WKeyword::Search);
    assert_eq!(c, "rust lang");
}

#[test]
fn parse_command_str_edit_update() {
    let (k, c) = parse_command_str("edit update".to_string());
    assert_eq!(k, WKeyword::Edit);
    assert_eq!(c, "update");
}

#[test]
fn parse_command_str_without_keyword_keeps_whole_text() {
    let (k, c) = parse_command_str(" vi src/main.rs \n".to_string());
    assert_eq!(k, WKeyword::NoKeyword);
    assert_eq!(c, "vi src/main.rs");
}

#[test]
fn parse_command_str_keyword_in_any_case() {
    let (k, c) = parse_command_str("RUN ls -l".to_string());
    assert_eq!(k, WKeyword::Run);
    assert_eq!(c, "ls -l");
    let (k, c) = parse_command_str("dElEtE script x".to_string());
    assert_eq!(k, WKeyword::Delete);
    assert_eq!(c, "script x");
}

#[test]
fn parse_command_str_empty_and_blank() {
    let (k, c) = parse_command_str(String::new());
    assert_eq!(k, WKeyword::NoKeyword);
    assert_eq!(c, "");
    let (k, c) = parse_command_str(" \t ".to_string());
    assert_eq!(k, WKeyword::NoKeyword);
    assert_eq!(c, "");
}

#[test]
fn parse_command_str_keyword_alone() {
    let (k, c) = parse_command_str("list".to_string());
    assert_eq!(k, WKeyword::List);
    assert_eq!(c, "");
    let (k, c) = parse_command_str("open\u{3000}x.org".to_string());
    assert_eq!(k, WKeyword::Open);
    assert_eq!(c, "x.org");
}

#[test]
fn keyword_from_words() {
    assert_eq!(WKeyword::from("add"), WKeyword::Add);
    assert_eq!(WKeyword::from("EDIT"), WKeyword::Edit);
    assert_eq!(WKeyword::from("Delete"), WKeyword::Delete);
    assert_eq!(WKeyword::from("list"), WKeyword::List);
    assert_eq!(WKeyword::from("search"), WKeyword::Search);
    assert_eq!(WKeyword::from("Open"), WKeyword::Open);
    assert_eq!(WKeyword::from("run"), WKeyword::Run);
    assert_eq!(WKeyword::from("adds"), WKeyword::NoKeyword);
    assert_eq!(WKeyword::from(""), WKeyword::NoKeyword);
}

fn pairs(content: &str) -> Vec<(String, String)> {
    parse_vars(content.to_string())
        .unwrap()
        .iter()
        .map(|v| (v.name().to_string(), v.value().to_string()))
        .collect()
}

#[test]
fn parse_vars_reads_names_and_values() {
    let got = pairs("browser = firefox\neditor=vim\n  search_engine =google  ");
    assert_eq!(
        got,
        vec![
            ("browser".to_string(), "firefox".to_string()),
            ("editor".to_string(), "vim".to_string()),
            ("search_engine".to_string(), "google".to_string()),
        ]
    );
}

#[test]
fn parse_vars_quoted_values() {
    let got = pairs("editor = \"emacs -nw\" browser=\"\"");
    assert_eq!(
        got,
        vec![
            ("editor".to_string(), "emacs -nw".to_string()),
            ("browser".to_string(), "".to_string()),
        ]
    );
    let got = pairs("a = \"open to the end");
    assert_eq!(got, vec![("a".to_string(), "open to the end".to_string())]);
}

#[test]
fn parse_vars_empty_file() {
    assert_eq!(pairs(""), Vec::<(String, String)>::new());
}

#[test]
fn parse_vars_missing_equals() {
    assert!(matches!(parse_vars("browser firefox".to_string()), Err(ParseVarsError::ExpectedEquals)));
    assert!(matches!(parse_vars("   ".to_string()), Err(ParseVarsError::ExpectedEquals)));
    assert!(matches!(parse_vars("a = b c".to_string()), Err(ParseVarsError::ExpectedEquals)));
}

#[test]
fn parse_vars_empty_name_and_value() {
    let got = pairs("=x y=");
    assert_eq!(
        got,
        vec![("".to_string(), "x".to_string()), ("y".to_string(), "".to_string())]
    );
}

#[test]
fn keyword_from_owned_string() {
    assert_eq!(WKeyword::from("Search".to_string()), WKeyword::Search);
    assert_eq!(WKeyword::from("vim".to_string()), WKeyword::NoKeyword);
}
