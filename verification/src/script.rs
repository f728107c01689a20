//! User scripts: where a script named in a command lives, and the commands
//! that edit or run it.
use crate::command::{var_or, views, CommandView, WCommand, WLocation};
use crate::env::Vars;
use crate::parser::{WCPResult, WKeyword};
use crate::text::{
    chars_of, concat, concat3, has_prefix, replace_char, replace_chars, split_words, starts_with,
    string_of, words,
};
use vstd::prelude::*;

verus! {

/// `base` joined with `p` as `Path::join` does on Unix: an absolute `p`
/// (one that starts with `/`) replaces `base`; otherwise `p` is appended,
/// after a `/` unless `base` is empty or already ends with one.
pub open spec fn path_join(base: Seq<char>, p: Seq<char>) -> Seq<char> {
    if p.len() > 0 && p[0] == '/' {
        p
    } else if base.len() == 0 || base.last() == '/' {
        base + p
    } else {
        base + seq!['/'] + p
    }
}

/// Joins two paths as `Path::join` does on Unix.
pub fn join_path(base: &Vec<char>, p: &Vec<char>) -> (r: Vec<char>)
    ensures
        r@ == path_join(base@, p@),
{
    if p.len() > 0 && p[0] == '/' {
        return slice_all(p);
    }
    let mut r = slice_all(base);
    if base.len() > 0 && base[base.len() - 1] != '/' {
        r.push('/');
    }
    let mut k: usize = 0;
    let ghost head = r@;
    while k < p.len()
        invariant
            k <= p.len(),
            r@ == head + p@.subrange(0, k as int),
        decreases p.len() - k,
    {
        r.push(p[k]);
        k = k + 1;
    }
    assert(p@.subrange(0, p.len() as int) == p@);
    r
}

fn slice_all(v: &Vec<char>) -> (r: Vec<char>)
    ensures
        r@ == v@,
{
    let mut r: Vec<char> = Vec::new();
    let mut k: usize = 0;
    while k < v.len()
        invariant
            k <= v.len(),
            r@ == v@.subrange(0, k as int),
        decreases v.len() - k,
    {
        r.push(v[k]);
        k = k + 1;
    }
    r
}

/// The directory of the scripts, under the configuration directory `root`.
pub open spec fn scripts_dir(root: Seq<char>) -> Seq<char> {
    path_join(root, "scripts"@)
}

/// The script names of a command content: its words, with `_` read as `/`
/// (`update_all` names `update/all`), without the leading word when the
/// content starts with `script`.
pub open spec fn script_words(content: Seq<char>) -> Seq<Seq<char>> {
    let c = replace_char(content, '_', "/"@);
    let ws = words(c);
    if starts_with(c, "script"@) && ws.len() > 0 {
        ws.drop_first()
    } else {
        ws
    }
}

/// `w` without its leading `/` characters.
pub open spec fn strip_slashes(w: Seq<char>) -> Seq<char>
    decreases w.len(),
{
    if w.len() > 0 && w[0] == '/' {
        strip_slashes(w.drop_first())
    } else {
        w
    }
}

/// The path of the script named `w`: `<root>/scripts/<w>`, where any leading
/// `/` of `w` is dropped, so that the path stays in the scripts directory.
/// `update/all` gives `<root>/scripts/update/all` and `install` gives
/// `<root>/scripts/install`.
pub open spec fn script_path(root: Seq<char>, w: Seq<char>) -> Seq<char> {
    scripts_dir(root) + "/"@ + strip_slashes(w)
}

/// The path of each script that `content` names.
pub open spec fn script_paths(content: Seq<char>, root: Seq<char>) -> Seq<Seq<char>> {
    script_words(content).map_values(|w: Seq<char>| script_path(root, w))
}

proof fn lemma_strip_slashes(w: Seq<char>)
    ensures
        !(strip_slashes(w).len() > 0 && strip_slashes(w)[0] == '/'),
    decreases w.len(),
{
    if w.len() > 0 && w[0] == '/' {
        lemma_strip_slashes(w.drop_first());
    }
}

/// `w` without its leading `/` characters.
fn strip_leading_slashes(w: &Vec<char>) -> (r: Vec<char>)
    ensures
        r@ == strip_slashes(w@),
{
    let mut k: usize = 0;
    assert(w@.subrange(0, w.len() as int) =~= w@);
    while k < w.len() && w[k] == '/'
        invariant
            k <= w.len(),
            strip_slashes(w@.subrange(k as int, w.len() as int)) == strip_slashes(w@),
        decreases w.len() - k,
    {
        assert(w@.subrange(k as int, w.len() as int).drop_first() =~= w@.subrange(
            k + 1,
            w.len() as int,
        ));
        k = k + 1;
    }
    crate::text::slice_chars(w, k, w.len())
}

/// The path of the script named `w` under the configuration directory
/// `root`.
pub fn script_path_of(root: &str, w: &Vec<char>) -> (p: Vec<char>)
    ensures
        p@ == script_path(root@, w@),
{
    let base = join_path(&chars_of(root), &chars_of("scripts"));
    proof {
        reveal_strlit("scripts");
        reveal_strlit("/");
        assert(base@.last() == 's');
    }
    let mut p = join_path(&base, &Vec::new());
    assert(p@ =~= base@ + "/"@);
    let rest = strip_leading_slashes(w);
    let mut k: usize = 0;
    let ghost head = p@;
    while k < rest.len()
        invariant
            k <= rest.len(),
            p@ == head + rest@.subrange(0, k as int),
        decreases rest.len() - k,
    {
        p.push(rest[k]);
        k = k + 1;
    }
    assert(rest@.subrange(0, rest.len() as int) =~= rest@);
    p
}

/// Every script path lies in the scripts directory: it is
/// `<root>/scripts/` followed by a name that does not start with `/`.
pub proof fn law_script_paths_stay_in_scripts(content: Seq<char>, root: Seq<char>, k: int)
    requires
        0 <= k < script_paths(content, root).len(),
    ensures
        starts_with(script_paths(content, root)[k], scripts_dir(root) + "/"@),
        !(script_paths(content, root)[k].len() > (scripts_dir(root) + "/"@).len()
            && script_paths(content, root)[k][(scripts_dir(root) + "/"@).len() as int] == '/'),
{
    let w = script_words(content)[k];
    let pre = scripts_dir(root) + "/"@;
    lemma_strip_slashes(w);
    let p = script_paths(content, root)[k];
    assert(p == pre + strip_slashes(w));
    assert(p.subrange(0, pre.len() as int) =~= pre);
    if p.len() > pre.len() {
        assert(p[pre.len() as int] == strip_slashes(w)[0]);
    }
}

/// The path of each script that `content` names, under the configuration
/// directory `config_root`: `update_all` gives
/// `<config_root>/scripts/update/all`.
pub fn scriptify(content: &str, config_root: &str) -> (paths: Vec<String>)
    ensures
        paths.deep_view() == script_paths(content@, config_root@),
{
    let c = replace_chars(&chars_of(content), '_', &chars_of("/"));
    let skip_first = has_prefix(&c, &chars_of("script"));
    let ws = split_words(&c);
    let mut k: usize = 0;
    if skip_first && ws.len() > 0 {
        k = 1;
    }
    let ghost sw = script_words(content@);
    let ghost off = k as int;
    assert(sw =~= ws.deep_view().subrange(off, ws.len() as int));
    let mut paths: Vec<String> = Vec::new();
    while k < ws.len()
        invariant
            0 <= off <= k <= ws.len(),
            sw.len() == ws.len() - off,
            sw =~= ws.deep_view().subrange(off, ws.len() as int),
            paths.deep_view() =~= sw.subrange(0, k - off).map_values(
                |w: Seq<char>| script_path(config_root@, w),
            ),
        decreases ws.len() - k,
    {
        let w = &ws[k];
        assert(ws.deep_view()[k as int] == w@);
        assert(w@ == sw[k - off]);
        let p = script_path_of(config_root, w);
        let ghost before = paths.deep_view();
        paths.push(string_of(&p));
        assert(paths.deep_view() =~= before.push(p@));
        assert(sw.subrange(0, k + 1 - off) =~= sw.subrange(0, k - off).push(w@));
        k = k + 1;
    }
    paths
}

/// Whether the caller found the `k`-th script file; missing flags read as
/// "not found".
pub open spec fn found(exists: Seq<bool>, k: int) -> bool {
    0 <= k < exists.len() && exists[k]
}

/// The command that edits the script at `path` with `editor`.
pub open spec fn edit_command(editor: Seq<char>, path: Seq<char>, content: Seq<char>) -> CommandView {
    CommandView {
        command: editor + " "@ + path,
        desc: "edit script "@ + content,
        loc: WLocation::Client,
    }
}

/// The command that runs the script at `path`.
pub open spec fn run_command(path: Seq<char>, content: Seq<char>) -> CommandView {
    CommandView { command: path, desc: "run script "@ + content, loc: WLocation::Both }
}

/// Adds the command that edits the script at `path` with the `editor`
/// variable (`vi` by default), when the script exists.
pub fn edit_script(
    command_list: &mut Vec<WCommand>,
    vars: &Vars,
    path: String,
    path_exists: bool,
    content: &str,
)
    ensures
        views(final(command_list)@) == views(old(command_list)@) + if path_exists {
            seq![edit_command(var_or(vars@, "editor"@, "vi"@), path@, content@)]
        } else {
            Seq::empty()
        },
{
    let ghost before = views(command_list@);
    if !path_exists {
        assert(views(command_list@) =~= before + Seq::<CommandView>::empty());
        return;
    }
    let editor = match vars.value_of("editor") {
        Some(v) => v,
        None => String::from_str("vi"),
    };
    let c = WCommand::new(
        concat3(editor.as_str(), " ", path.as_str()),
        concat("edit script ", content),
        WLocation::Client,
    );
    command_list.push(c);
    assert(views(command_list@) =~= before + seq![c@]);
}

/// Adds the command that runs the script at `path`, when it exists.
pub fn run_script(command_list: &mut Vec<WCommand>, path: String, path_exists: bool, content: &str)
    ensures
        views(final(command_list)@) == views(old(command_list)@) + if path_exists {
            seq![run_command(path@, content@)]
        } else {
            Seq::empty()
        },
{
    let ghost before = views(command_list@);
    if !path_exists {
        assert(views(command_list@) =~= before + Seq::<CommandView>::empty());
        return;
    }
    let c = WCommand::new(path, concat("run script ", content), WLocation::Both);
    command_list.push(c);
    assert(views(command_list@) =~= before + seq![c@]);
}

/// What to do with a script file.
#[derive(Clone, Copy, Debug, PartialEq, Eq, Structural)]
pub enum FileAction {
    /// Create the file, with its directories.
    Create,
    /// Remove the file.
    Remove,
    /// Create the file (with its directories), emptying it if it exists.
    Replace,
}

/// A change to a script file, for the caller to carry out.
pub struct ScriptAction {
    pub action: FileAction,
    pub path: String,
}

/// The abstract content of a list of script actions.
pub open spec fn action_views(a: Seq<ScriptAction>) -> Seq<(FileAction, Seq<char>)> {
    a.map_values(|x: ScriptAction| (x.action, x.path@))
}

/// The commands that the `edit` and `run` keywords give for the first `n`
/// scripts.
pub open spec fn script_commands_upto(
    keyword: WKeyword,
    paths: Seq<Seq<char>>,
    exists: Seq<bool>,
    editor: Seq<char>,
    content: Seq<char>,
    n: int,
) -> Seq<CommandView>
    decreases n,
{
    if n <= 0 {
        Seq::empty()
    } else {
        script_commands_upto(keyword, paths, exists, editor, content, n - 1) + if found(
            exists,
            n - 1,
        ) {
            match keyword {
                WKeyword::Edit => seq![edit_command(editor, paths[n - 1], content)],
                WKeyword::Run => seq![run_command(paths[n - 1], content)],
                _ => Seq::empty(),
            }
        } else {
            Seq::empty()
        }
    }
}

/// The file changes that `add` and `delete` ask for among the first `n`
/// scripts: `add` creates each script that does not exist, `delete` removes
/// each one that exists.
pub open spec fn file_actions_upto(
    keyword: WKeyword,
    paths: Seq<Seq<char>>,
    exists: Seq<bool>,
    n: int,
) -> Seq<(FileAction, Seq<char>)>
    decreases n,
{
    if n <= 0 {
        Seq::empty()
    } else {
        file_actions_upto(keyword, paths, exists, n - 1) + match keyword {
            WKeyword::Add => if found(exists, n - 1) {
                Seq::empty()
            } else {
                seq![(FileAction::Create, paths[n - 1])]
            },
            WKeyword::Delete => if found(exists, n - 1) {
                seq![(FileAction::Remove, paths[n - 1])]
            } else {
                Seq::empty()
            },
            _ => Seq::empty(),
        }
    }
}

/// The script files that a parsed command creates (`add script ...`, for
/// the scripts that do not exist) or removes (`delete script ...`, for those
/// that exist).
pub open spec fn script_file_actions(
    keyword: WKeyword,
    content: Seq<char>,
    root: Seq<char>,
    exists: Seq<bool>,
) -> Seq<(FileAction, Seq<char>)> {
    let paths = script_paths(content, root);
    if (keyword is Add || keyword is Delete) && starts_with(content, "script"@) {
        file_actions_upto(keyword, paths, exists, paths.len() as int)
    } else {
        Seq::empty()
    }
}

/// The command that tells the user that a script file was created or
/// removed; running it prints the path.
pub open spec fn report_command(action: (FileAction, Seq<char>)) -> CommandView {
    CommandView {
        command: "echo "@ + action.1,
        desc: if action.0 is Remove {
            "deleted script "@ + action.1
        } else {
            "created script "@ + action.1
        },
        loc: WLocation::Both,
    }
}

/// The commands that report the first `n` file changes of `actions` that
/// were carried out (`done[j]` for the `j`-th change).
pub open spec fn action_reports_upto(actions: Seq<(FileAction, Seq<char>)>, done: Seq<bool>, n: int) -> Seq<CommandView>
    decreases n,
{
    if n <= 0 {
        Seq::empty()
    } else {
        action_reports_upto(actions, done, n - 1) + if found(done, n - 1) {
            seq![report_command(actions[n - 1])]
        } else {
            Seq::empty()
        }
    }
}

/// The commands that report each file change of `actions` that was carried
/// out.
pub open spec fn action_reports(actions: Seq<(FileAction, Seq<char>)>, done: Seq<bool>) -> Seq<CommandView> {
    action_reports_upto(actions, done, actions.len() as int)
}

/// The commands that a parsed command gives for scripts: one that edits each
/// named script (`edit`), or one that runs it (`run`), for those that exist;
/// and one that reports each script file created (`add script ...`) or
/// removed (`delete script ...`).
pub open spec fn script_commands(
    keyword: WKeyword,
    content: Seq<char>,
    vars: Seq<(Seq<char>, Seq<char>)>,
    root: Seq<char>,
    exists: Seq<bool>,
    done: Seq<bool>,
) -> Seq<CommandView> {
    let paths = script_paths(content, root);
    script_commands_upto(
        keyword,
        paths,
        exists,
        var_or(vars, "editor"@, "vi"@),
        content,
        paths.len() as int,
    ) + action_reports(script_file_actions(keyword, content, root, exists), done)
}

/// The script files that a parsed command asks to create (`add script ...`)
/// or remove (`delete script ...`), for the caller to carry out before it
/// builds the command list. The scripts live under `config_root`, and
/// `exists[k]` tells whether the `k`-th path of
/// `scriptify(content, config_root)` exists.
pub fn script_actions(parse_result: &WCPResult, config_root: &str, exists: &Vec<bool>) -> (actions: Vec<ScriptAction>)
    ensures
        action_views(actions@) == script_file_actions(
            parse_result.0,
            parse_result.1@,
            config_root@,
            exists@,
        ),
{
    let content = parse_result.1.as_str();
    let mut actions: Vec<ScriptAction> = Vec::new();
    let ghost ps = script_paths(content@, config_root@);
    let is_file_keyword = match parse_result.0 {
        WKeyword::Add | WKeyword::Delete => true,
        _ => false,
    };
    if !is_file_keyword || !has_prefix(&chars_of(content), &chars_of("script")) {
        assert(action_views(actions@) =~= Seq::<(FileAction, Seq<char>)>::empty());
        return actions;
    }
    let paths = scriptify(content, config_root);
    let mut k: usize = 0;
    while k < paths.len()
        invariant
            k <= paths.len(),
            paths.deep_view() == ps,
            parse_result.0 is Add || parse_result.0 is Delete,
            action_views(actions@) == file_actions_upto(parse_result.0, ps, exists@, k as int),
        decreases paths.len() - k,
    {
        let e = k < exists.len() && exists[k];
        assert(e == found(exists@, k as int));
        let ghost before = action_views(actions@);
        let path = string_of(&chars_of(paths[k].as_str()));
        assert(path@ == ps[k as int]);
        match parse_result.0 {
            WKeyword::Add => {
                if !e {
                    actions.push(ScriptAction { action: FileAction::Create, path });
                }
            },
            _ => {
                if e {
                    actions.push(ScriptAction { action: FileAction::Remove, path });
                }
            },
        }
        assert(action_views(actions@) =~= file_actions_upto(
            parse_result.0,
            ps,
            exists@,
            k + 1,
        ));
        k = k + 1;
    }
    actions
}

/// Adds a command that reports each file change of `actions` that was
/// carried out (`done[j]` for the `j`-th change).
pub fn report_script_actions(command_list: &mut Vec<WCommand>, actions: &Vec<ScriptAction>, done: &Vec<bool>)
    ensures
        views(final(command_list)@) == views(old(command_list)@) + action_reports(
            action_views(actions@),
            done@,
        ),
{
    let ghost before = views(command_list@);
    let ghost acts = action_views(actions@);
    let mut j: usize = 0;
    while j < actions.len()
        invariant
            j <= actions.len(),
            acts == action_views(actions@),
            views(command_list@) == before + action_reports_upto(acts, done@, j as int),
        decreases actions.len() - j,
    {
        let ghost cmds = views(command_list@);
        if j < done.len() && done[j] {
            let a = &actions[j];
            assert(acts[j as int] == (a.action, a.path@));
            let desc = match a.action {
                FileAction::Remove => concat("deleted script ", a.path.as_str()),
                _ => concat("created script ", a.path.as_str()),
            };
            let c = WCommand::new(concat("echo ", a.path.as_str()), desc, WLocation::Both);
            command_list.push(c);
            assert(views(command_list@) =~= cmds.push(c@));
            assert(c@ == report_command(acts[j as int]));
        }
        assert(views(command_list@) =~= before + action_reports_upto(acts, done@, j + 1));
        j = j + 1;
    }
}

/// Handles the script keywords of a parsed command. `edit` and `run` add a
/// command for each named script that exists; after `add script ...` or
/// `delete script ...`, a command reports each script file that was created
/// or removed. The scripts live under `config_root`, `exists[k]` tells
/// whether the `k`-th path of `scriptify(content, config_root)` existed, and
/// `done[j]` whether the `j`-th change of `script_actions` was carried out.
pub fn script_cmd(
    command_list: &mut Vec<WCommand>,
    parse_result: &WCPResult,
    vars: &Vars,
    config_root: &str,
    exists: &Vec<bool>,
    done: &Vec<bool>,
)
    ensures
        views(final(command_list)@) == views(old(command_list)@) + script_commands(
            parse_result.0,
            parse_result.1@,
            vars@,
            config_root@,
            exists@,
            done@,
        ),
{
    let content = parse_result.1.as_str();
    let paths = scriptify(content, config_root);
    let ghost ps = script_paths(content@, config_root@);
    let ghost before = views(command_list@);
    let ghost ed = var_or(vars@, "editor"@, "vi"@);
    let mut k: usize = 0;
    while k < paths.len()
        invariant
            k <= paths.len(),
            paths.deep_view() == ps,
            ed == var_or(vars@, "editor"@, "vi"@),
            content@ == parse_result.1@,
            views(command_list@) == before + script_commands_upto(
                parse_result.0,
                ps,
                exists@,
                ed,
                content@,
                k as int,
            ),
        decreases paths.len() - k,
    {
        let path = string_of(&chars_of(paths[k].as_str()));
        assert(path@ == ps[k as int]);
        let e = k < exists.len() && exists[k];
        let ghost cmds_before = views(command_list@);
        let ghost step = if found(exists@, k as int) {
            match parse_result.0 {
                WKeyword::Edit => seq![edit_command(ed, ps[k as int], content@)],
                WKeyword::Run => seq![run_command(ps[k as int], content@)],
                _ => Seq::<CommandView>::empty(),
            }
        } else {
            Seq::<CommandView>::empty()
        };
        assert(script_commands_upto(parse_result.0, ps, exists@, ed, content@, k + 1)
            == script_commands_upto(parse_result.0, ps, exists@, ed, content@, k as int) + step);
        match parse_result.0 {
            WKeyword::Edit => {
                edit_script(command_list, vars, path, e, content);
                assert(e == found(exists@, k as int));
            },
            WKeyword::Run => {
                run_script(command_list, path, e, content);
                assert(e == found(exists@, k as int));
            },
            _ => {},
        }
        assert(views(command_list@) =~= cmds_before + step);
        assert(cmds_before + step =~= before + script_commands_upto(
            parse_result.0,
            ps,
            exists@,
            ed,
            content@,
            k + 1,
        ));
        k = k + 1;
    }
    let ghost mid = views(command_list@);
    let actions = script_actions(parse_result, config_root, exists);
    report_script_actions(command_list, &actions, done);
    assert(views(command_list@) =~= before + script_commands(
        parse_result.0,
        parse_result.1@,
        vars@,
        config_root@,
        exists@,
        done@,
    ));
}

} // verus!
