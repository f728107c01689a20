use wydy::command::{WCommand, WLocation};
use wydy::env::{Var, Vars};
use wydy::parser::WKeyword;
use wydy::script::{edit_script, report_script_actions, run_script, script_cmd, scriptify, FileAction, ScriptAction};

#[test]
fn scriptify_reads_underscores_as_directories() {
    assert_eq!(scriptify("update_all", "/home/u/.config/wydy"), vec!["/home/u/.config/wydy/scripts/update/all".to_string()]);
    assert_eq!(scriptify("a b_c_d", "/r/"), vec!["/r/scripts/a".to_string(), "/r/scripts/b/c/d".to_string()]);
}

#[test]
fn scriptify_skips_the_script_word() {
    assert_eq!(scriptify("script update", "/r"), vec!["/r/scripts/update".to_string()]);
    assert_eq!(scriptify("scripts_x y", "/r"), vec!["/r/scripts/y".to_string()]);
    assert_eq!(scriptify("script", "/r"), Vec::<String>::new());
    assert_eq!(scriptify("", "/r"), Vec::<String>::new());
}

#[test]
fn scriptify_edge_paths() {
    assert_eq!(scriptify("_abs", "/r"), vec!["/r/scripts/abs".to_string()]);
    assert_eq!(scriptify("_a_b", "/r"), vec!["/r/scripts/a/b".to_string()]);
    assert_eq!(scriptify("__etc_passwd", "/r"), vec!["/r/scripts/etc/passwd".to_string()]);
    assert_eq!(scriptify("install", "/r"), vec!["/r/scripts/install".to_string()]);
    assert_eq!(scriptify("dir_", "/r"), vec!["/r/scripts/dir/".to_string()]);
    assert_eq!(scriptify("x", ""), vec!["scripts/x".to_string()]);
}

#[test]
fn edit_script_uses_editor_variable() {
    let vars = Vars::from_vars(vec![Var::new("editor".to_string(), "nvim".to_string())]);
    let mut list: Vec<WCommand> = Vec::new();
    edit_script(&mut list, &vars, "/r/scripts/x".to_string(), true, "x");
    assert_eq!(list.len(), 1);
    assert_eq!(list[0].command(), "nvim /r/scripts/x");
    assert_eq!(list[0].desc(), "edit script x");
    assert_eq!(*list[0].location(), WLocation::Client);
    edit_script(&mut list, &vars, "/r/scripts/y".to_string(), false, "y");
    assert_eq!(list.len(), 1);
}

#[test]
fn edit_script_defaults_to_vi() {
    let vars = Vars::from_vars(vec![]);
    let mut list: Vec<WCommand> = Vec::new();
    edit_script(&mut list, &vars, "/p".to_string(), true, "p");
    assert_eq!(list[0].command(), "vi /p");
}

#[test]
fn run_script_when_it_exists() {
    let mut list: Vec<WCommand> = Vec::new();
    run_script(&mut list, "/r/scripts/x".to_string(), true, "x");
    run_script(&mut list, "/r/scripts/y".to_string(), false, "y");
    assert_eq!(list.len(), 1);
    assert_eq!(list[0].command(), "/r/scripts/x");
    assert_eq!(list[0].desc(), "run script x");
    assert_eq!(*list[0].location(), WLocation::Both);
}

#[test]
fn script_cmd_reports_changes_after_script_prefix_only() {
    let vars = Vars::default();
    let mut list: Vec<WCommand> = Vec::new();
    script_cmd(&mut list, &(WKeyword::Add, "script a".to_string()), &vars, "/r", &vec![], &vec![true]);
    assert_eq!(list.len(), 1);
    assert_eq!(list[0].command(), "echo /r/scripts/a");
    assert_eq!(list[0].desc(), "created script /r/scripts/a");
    script_cmd(&mut list, &(WKeyword::Add, "a".to_string()), &vars, "/r", &vec![], &vec![true]);
    script_cmd(&mut list, &(WKeyword::Delete, "a".to_string()), &vars, "/r", &vec![true], &vec![true]);
    assert_eq!(list.len(), 1);
}

#[test]
fn script_cmd_missing_flags_mean_absent() {
    let vars = Vars::default();
    let mut list: Vec<WCommand> = Vec::new();
    script_cmd(&mut list, &(WKeyword::Run, "a b".to_string()), &vars, "/r", &vec![true], &vec![]);
    assert_eq!(list.len(), 1);
    assert_eq!(list[0].command(), "/r/scripts/a");
}

#[test]
fn report_script_actions_only_for_changes_made() {
    let actions = vec![
        ScriptAction { action: FileAction::Remove, path: "/r/scripts/a".to_string() },
        ScriptAction { action: FileAction::Create, path: "/r/scripts/b".to_string() },
    ];
    let mut list: Vec<WCommand> = Vec::new();
    report_script_actions(&mut list, &actions, &vec![true, false]);
    assert_eq!(list.len(), 1);
    assert_eq!(list[0].desc(), "deleted script /r/scripts/a");
    report_script_actions(&mut list, &actions, &vec![false, true]);
    assert_eq!(list[1].desc(), "created script /r/scripts/b");
    assert_eq!(*list[1].location(), WLocation::Both);
}
