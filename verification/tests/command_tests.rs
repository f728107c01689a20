use wydy::command::{
    command_cmd, command_name, direct_command_accepted, parse_command, parse_user_command,
    search_engine_link, web_search_cmd, CommandContext, WCommand, WLocation,
};
use wydy::env::{Var, Vars};
use wydy::parser::{parse_command_str, WKeyword};
use wydy::script::{script_actions, FileAction};

fn ctx(in_path: bool, exists: Vec<bool>) -> CommandContext {
    CommandContext { config_root: "/cfg".to_string(), scripts_exist: exists, scripts_done: vec![], in_path }
}

fn summary(list: &[WCommand]) -> Vec<(String, String, WLocation)> {
    list.iter().map(|c| (c.command().to_string(), c.desc().to_string(), *c.location())).collect()
}

fn s(x: &str) -> String {
    x.to_string()
}

#[test]
fn wcommand_accessors() {
    let c = WCommand::new(s("vi a.rs"), s("edit a.rs"), WLocation::Client);
    assert_eq!(c.command(), "vi a.rs");
    assert_eq!(c.desc(), "edit a.rs");
    assert_eq!(*c.location(), WLocation::Client);
}

#[test]
fn search_engine_links() {
    assert_eq!(search_engine_link("duckduckgo", "rust"), "https://duckduckgo.com/?q=rust");
    assert_eq!(search_engine_link("google", "rust"), "https://google.com/#q=rust");
    assert_eq!(search_engine_link("bing", "rust"), "https://duckduckgo.com/?q=rust");
    assert_eq!(search_engine_link("", "a%20b"), "https://duckduckgo.com/?q=a%20b");
}

#[test]
fn location_compatibility() {
    assert!(WLocation::Both.is_compatible(&WLocation::Server));
    assert!(WLocation::Both.is_compatible(&WLocation::Client));
    assert!(WLocation::Both.is_compatible(&WLocation::Both));
    assert!(WLocation::Client.is_compatible(&WLocation::Both));
    assert!(WLocation::Client.is_compatible(&WLocation::Client));
    assert!(!WLocation::Client.is_compatible(&WLocation::Server));
    assert!(!WLocation::Server.is_compatible(&WLocation::Client));
    assert!(!WLocation::Both.is_compatible(&WLocation::Null));
    assert!(!WLocation::Null.is_compatible(&WLocation::Both));
}

#[test]
fn command_name_is_first_word() {
    assert_eq!(command_name("  ls -l "), "ls");
    assert_eq!(command_name("vim"), "vim");
    assert_eq!(command_name("   "), "   ");
    assert_eq!(command_name(""), "");
}

#[test]
fn text_without_keyword_searches_the_web() {
    let vars = Vars::default();
    let list = parse_user_command(s("rust lang"), &vars, &ctx(false, vec![]));
    assert_eq!(
        summary(&list),
        vec![(
            s("firefox https://duckduckgo.com/?q=rust%20lang"),
            s("search for rust%20lang"),
            WLocation::Both
        )]
    );
}

#[test]
fn text_that_looks_like_a_url_is_opened_then_searched() {
    let vars = Vars::from_vars(vec![
        Var::new(s("browser"), s("qutebrowser")),
        Var::new(s("search_engine"), s("google")),
    ]);
    let list = parse_user_command(s("search example.org"), &vars, &ctx(false, vec![]));
    assert_eq!(
        summary(&list),
        vec![
            (s("qutebrowser example.org"), s("opening url example.org"), WLocation::Both),
            (
                s("qutebrowser https://google.com/#q=example.org"),
                s("search for example.org"),
                WLocation::Both
            ),
        ]
    );
}

#[test]
fn open_only_opens_urls() {
    let vars = Vars::default();
    let list = parse_user_command(s("open https://www.rust-lang.org"), &vars, &ctx(false, vec![]));
    assert_eq!(
        summary(&list),
        vec![(
            s("firefox https://www.rust-lang.org"),
            s("opening url https://www.rust-lang.org"),
            WLocation::Both
        )]
    );
    let list = parse_user_command(s("open nothing here"), &vars, &ctx(false, vec![]));
    assert!(list.is_empty());
}

#[test]
fn url_recognition_needs_lowercase_dot_then_url_char() {
    let vars = Vars::default();
    for (text, url) in [("a.b", true), ("A.B", false), ("x.", false), ("9.%", true), ("ab", false), ("AB c.d", true)] {
        let list = parse_user_command(format!("search {}", text), &vars, &ctx(false, vec![]));
        assert_eq!(list.len(), if url { 2 } else { 1 }, "{}", text);
    }
}

#[test]
fn run_gives_the_program_when_on_path() {
    let vars = Vars::default();
    let list = parse_user_command(s("run ls -l"), &vars, &ctx(true, vec![]));
    assert_eq!(summary(&list), vec![(s("ls -l"), s("execute `ls -l`"), WLocation::Both)]);
    let list = parse_user_command(s("run ls -l"), &vars, &ctx(false, vec![]));
    assert!(list.is_empty());
}

#[test]
fn program_then_web_search_without_keyword() {
    let vars = Vars::default();
    let list = parse_user_command(s("htop"), &vars, &ctx(true, vec![]));
    assert_eq!(
        summary(&list),
        vec![
            (s("htop"), s("execute `htop`"), WLocation::Both),
            (s("firefox https://duckduckgo.com/?q=htop"), s("search for htop"), WLocation::Both),
        ]
    );
}

#[test]
fn edit_update_edits_the_file_then_searches_the_line() {
    let vars = Vars::default();
    let edit_file = (s("vi update"), s("edit file update"), WLocation::Client);
    let search = (
        s("firefox https://duckduckgo.com/?q=edit%20update"),
        s("search for edit%20update"),
        WLocation::Both,
    );
    let list = parse_user_command(s("edit update"), &vars, &ctx(false, vec![false]));
    assert_eq!(summary(&list), vec![edit_file.clone(), search.clone()]);
    let list = parse_user_command(s("  edit update "), &vars, &ctx(false, vec![]));
    assert_eq!(summary(&list), vec![edit_file.clone(), search.clone()]);
    let list = parse_user_command(s("edit update"), &vars, &ctx(false, vec![true]));
    assert_eq!(
        summary(&list),
        vec![
            (s("vi /cfg/scripts/update"), s("edit script update"), WLocation::Client),
            edit_file,
            search,
        ]
    );
}

#[test]
fn edit_uses_the_editor_variable_for_files() {
    let vars = Vars::from_vars(vec![Var::new(s("editor"), s("nvim"))]);
    let list = parse_user_command(s("edit notes.txt"), &vars, &ctx(false, vec![]));
    assert_eq!(list[0].command(), "nvim notes.txt");
    assert_eq!(list[0].desc(), "edit file notes.txt");
}

#[test]
fn run_scripts_that_exist() {
    let vars = Vars::default();
    let list = parse_user_command(s("run update_all backup"), &vars, &ctx(false, vec![false, true]));
    assert_eq!(
        summary(&list),
        vec![(s("/cfg/scripts/backup"), s("run script update_all backup"), WLocation::Both)]
    );
}

#[test]
fn add_and_delete_scripts_give_file_actions() {
    let pr = parse_command_str(s("add script update_system"));
    let actions = script_actions(&pr, "/cfg", &vec![false]);
    let got: Vec<(FileAction, String)> = actions.iter().map(|a| (a.action, a.path.clone())).collect();
    assert_eq!(got, vec![(FileAction::Create, s("/cfg/scripts/update/system"))]);
    let actions = script_actions(&pr, "/cfg", &vec![true]);
    assert!(actions.is_empty());
    let pr = parse_command_str(s("delete script a b_c"));
    let actions = script_actions(&pr, "/cfg", &vec![true, true]);
    let got: Vec<(FileAction, String)> = actions.iter().map(|a| (a.action, a.path.clone())).collect();
    assert_eq!(
        got,
        vec![(FileAction::Remove, s("/cfg/scripts/a")), (FileAction::Remove, s("/cfg/scripts/b/c"))]
    );
    let actions = script_actions(&pr, "/cfg", &vec![false, true]);
    let got: Vec<(FileAction, String)> = actions.iter().map(|a| (a.action, a.path.clone())).collect();
    assert_eq!(got, vec![(FileAction::Remove, s("/cfg/scripts/b/c"))]);
    let actions = script_actions(&parse_command_str(s("add update")), "/cfg", &vec![]);
    assert!(actions.is_empty());
}

#[test]
fn add_and_delete_report_each_change_made() {
    let vars = Vars::default();
    let context = CommandContext {
        config_root: s("/cfg"),
        scripts_exist: vec![false],
        scripts_done: vec![true],
        in_path: false,
    };
    let list = parse_user_command(s("add script install"), &vars, &context);
    assert_eq!(
        summary(&list),
        vec![(s("echo /cfg/scripts/install"), s("created script /cfg/scripts/install"), WLocation::Both)]
    );
    let context = CommandContext {
        config_root: s("/cfg"),
        scripts_exist: vec![true, true],
        scripts_done: vec![false, true],
        in_path: false,
    };
    let list = parse_user_command(s("delete script a b"), &vars, &context);
    assert_eq!(
        summary(&list),
        vec![(s("echo /cfg/scripts/b"), s("deleted script /cfg/scripts/b"), WLocation::Both)]
    );
}

#[test]
fn web_search_cmd_appends() {
    let vars = Vars::default();
    let mut list = vec![WCommand::new(s("x"), s("y"), WLocation::Server)];
    web_search_cmd(&mut list, &(WKeyword::Search, s("a b")), &vars);
    assert_eq!(list.len(), 2);
    assert_eq!(list[1].command(), "firefox https://duckduckgo.com/?q=a%20b");
    web_search_cmd(&mut list, &(WKeyword::Edit, s("a b")), &vars);
    assert_eq!(list.len(), 2);
}

#[test]
fn command_cmd_only_for_run_and_plain_text() {
    let mut list = Vec::new();
    command_cmd(&mut list, &(WKeyword::Search, s("ls")), true);
    assert!(list.is_empty());
    command_cmd(&mut list, &(WKeyword::NoKeyword, s("ls")), true);
    assert_eq!(summary(&list), vec![(s("ls"), s("execute `ls`"), WLocation::Both)]);
}

#[test]
fn parse_command_search_and_open() {
    let vars = Vars::default();
    let (list, actions) = parse_command(s("search rust lang"), &vars, &ctx(false, vec![]));
    assert!(actions.is_empty());
    assert_eq!(
        summary(&list),
        vec![(
            s("firefox https://duckduckgo.com/?q=rust%20lang"),
            s("search for rust%20lang"),
            WLocation::Both
        )]
    );
    let (list, _) = parse_command(s("open x.org"), &vars, &ctx(false, vec![]));
    assert_eq!(
        summary(&list),
        vec![
            (s("firefox x.org"), s("opening url x.org"), WLocation::Both),
            (s("firefox https://duckduckgo.com/?q=x.org"), s("search for x.org"), WLocation::Both),
        ]
    );
}

#[test]
fn parse_command_cuts_at_a_byte_offset() {
    let vars = Vars::default();
    let (list, _) = parse_command(s("search   two spaces"), &vars, &ctx(false, vec![]));
    assert_eq!(list[0].desc(), "search for %20%20two%20spaces");
}

#[test]
fn parse_command_plain_line() {
    let vars = Vars::default();
    let (list, _) = parse_command(s("  htop "), &vars, &ctx(true, vec![]));
    assert_eq!(
        summary(&list),
        vec![
            (s("htop"), s("executing htop"), WLocation::Both),
            (s("firefox https://duckduckgo.com/?q=htop"), s("search for htop"), WLocation::Both),
        ]
    );
    let (list, actions) = parse_command(s("   "), &vars, &ctx(true, vec![]));
    assert!(list.is_empty() && actions.is_empty());
}

#[test]
fn parse_command_add_script() {
    let vars = Vars::default();
    let (list, actions) = parse_command(s("add script update_all"), &vars, &ctx(false, vec![]));
    assert!(list.is_empty());
    let got: Vec<(FileAction, String)> = actions.iter().map(|a| (a.action, a.path.clone())).collect();
    assert_eq!(got, vec![(FileAction::Replace, s("/cfg/scripts/update/all"))]);
    let (_, actions) = parse_command(s("add script install"), &vars, &ctx(false, vec![]));
    assert_eq!(actions[0].path, "/cfg/scripts/install");
    let (_, actions) = parse_command(s("add script _etc_passwd"), &vars, &ctx(false, vec![]));
    assert_eq!(actions[0].path, "/cfg/scripts/etc/passwd");
    let (list, actions) = parse_command(s("add thing"), &vars, &ctx(false, vec![]));
    assert!(list.is_empty() && actions.is_empty());
}

#[test]
fn direct_command_accepted_rejects_what_would_panic() {
    assert!(!direct_command_accepted("search"));
    assert!(!direct_command_accepted("open"));
    assert!(!direct_command_accepted("search\u{3000}x"));
    assert!(!direct_command_accepted("add script"));
    assert!(direct_command_accepted("add script é"));
    assert!(direct_command_accepted("add script é/x"));
    assert!(direct_command_accepted("search x"));
    assert!(direct_command_accepted("anything at all"));
    assert!(direct_command_accepted(""));
}

#[test]
fn parse_command_edit_edits_the_file_then_searches_the_line() {
    let vars = Vars::default();
    let (list, actions) = parse_command(s("edit update"), &vars, &ctx(true, vec![]));
    assert!(actions.is_empty());
    assert_eq!(
        summary(&list),
        vec![
            (s("vi update"), s("edit file update"), WLocation::Client),
            (
                s("firefox https://duckduckgo.com/?q=edit%20update"),
                s("search for edit%20update"),
                WLocation::Both
            ),
        ]
    );
    let (list, _) = parse_command(s("edit"), &vars, &ctx(false, vec![]));
    assert_eq!(summary(&list), vec![(s("firefox https://duckduckgo.com/?q=edit"), s("search for edit"), WLocation::Both)]);
}

#[test]
fn parse_command_ignores_surrounding_space() {
    let vars = Vars::default();
    let (a, _) = parse_command(s("  edit update \n"), &vars, &ctx(true, vec![]));
    let (b, _) = parse_command(s("edit update"), &vars, &ctx(true, vec![]));
    assert_eq!(summary(&a), summary(&b));
}
