//! Wydy commands, and how a user command becomes a list of them.
use crate::env::{lookup, Vars};
use crate::parser::{parse_command_spec, parse_command_str, WCPResult, WKeyword};
use crate::text::{
    chars_eq, chars_of, concat, concat3, find_word_end, lowercase_of, replace_char, replace_chars,
    skip_whitespace, skip_ws, slice_chars, split_words, string_of, trim, trim_chars, word_end,
    words,
};
use crate::script::{
    action_reports, action_reports_upto, action_views, report_command,
    script_cmd, script_commands, script_commands_upto, script_file_actions, script_path,
    script_path_of, FileAction, ScriptAction,
};
use crate::url_check::{is_url, looks_like_url};
use vstd::prelude::*;

verus! {

/// Where a command can be run.
#[derive(Clone, Copy, Debug, PartialEq, Eq, Structural)]
pub enum WLocation {
    Null,
    Server,
    Client,
    Both,
}

/// Whether a command that may run at `b` can run where `a` allows: the two
/// share the server or share the client.
pub open spec fn compatible(a: WLocation, b: WLocation) -> bool {
    ||| (a is Server || a is Both) && (b is Server || b is Both)
    ||| (a is Client || a is Both) && (b is Client || b is Both)
}

impl WLocation {
    /// Whether a command whose location is `other` can be run where `self`
    /// allows.
    pub fn is_compatible(&self, other: &WLocation) -> (b: bool)
        ensures
            b == compatible(*self, *other),
    {
        let on_server = match (self, other) {
            (WLocation::Server, WLocation::Server) | (WLocation::Server, WLocation::Both) | (
                WLocation::Both,
                WLocation::Server,
            ) | (WLocation::Both, WLocation::Both) => true,
            _ => false,
        };
        let on_client = match (self, other) {
            (WLocation::Client, WLocation::Client) | (WLocation::Client, WLocation::Both) | (
                WLocation::Both,
                WLocation::Client,
            ) | (WLocation::Both, WLocation::Both) => true,
            _ => false,
        };
        on_server || on_client
    }
}

/// The abstract content of a command.
pub struct CommandView {
    pub command: Seq<char>,
    pub desc: Seq<char>,
    pub loc: WLocation,
}

/// A wydy command: the command line to execute (such as `vi src/command.rs`),
/// a description for the user (such as `edit script command`), and where it
/// can be run.
#[derive(Clone)]
pub struct WCommand {
    command: String,
    desc: String,
    loc: WLocation,
}

impl View for WCommand {
    type V = CommandView;

    closed spec fn view(&self) -> CommandView {
        CommandView { command: self.command@, desc: self.desc@, loc: self.loc }
    }
}

/// The views of a list of commands.
pub open spec fn views(cs: Seq<WCommand>) -> Seq<CommandView> {
    cs.map_values(|c: WCommand| c@)
}

impl WCommand {
    pub fn new(command: String, desc: String, loc: WLocation) -> (c: WCommand)
        ensures
            c@ == (CommandView { command: command@, desc: desc@, loc }),
    {
        WCommand { command, desc, loc }
    }

    pub fn command(&self) -> (s: &str)
        ensures
            s@ == self@.command,
    {
        self.command.as_str()
    }

    pub fn desc(&self) -> (s: &str)
        ensures
            s@ == self@.desc,
    {
        self.desc.as_str()
    }

    pub fn location(&self) -> (l: &WLocation)
        ensures
            *l == self@.loc,
    {
        &self.loc
    }
}

/// Pushes a command onto a list.
fn push_command(list: &mut Vec<WCommand>, c: WCommand)
    ensures
        views(final(list)@) == views(old(list)@).push(c@),
{
    list.push(c);
    assert(views(list@) =~= views(old(list)@).push(c@));
}

/// The value of the variable `name`, or `default` when there is none.
pub open spec fn var_or(vars: Seq<(Seq<char>, Seq<char>)>, name: Seq<char>, default: Seq<char>) -> Seq<char> {
    match lookup(vars, lowercase_of(name)) {
        Some(v) => v,
        None => default,
    }
}

/// The link to a search on the named engine; an unknown engine searches on
/// DuckDuckGo.
pub open spec fn engine_link(name: Seq<char>, search: Seq<char>) -> Seq<char> {
    if name == "duckduckgo"@ {
        "https://duckduckgo.com/?q="@ + search
    } else if name == "google"@ {
        "https://google.com/#q="@ + search
    } else {
        "https://duckduckgo.com/?q="@ + search
    }
}

/// The link to the search `search` on the search engine `name`
/// (`duckduckgo` or `google`; any other name searches on DuckDuckGo).
pub fn search_engine_link(name: &str, search: &str) -> (link: String)
    ensures
        link@ == engine_link(name@, search@),
{
    if String::from_str(name) == String::from_str("duckduckgo") {
        concat("https://duckduckgo.com/?q=", search)
    } else if String::from_str(name) == String::from_str("google") {
        concat("https://google.com/#q=", search)
    } else {
        concat("https://duckduckgo.com/?q=", search)
    }
}

/// The value of a variable, or a default.
fn value_or(vars: &Vars, name: &str, default: &str) -> (v: String)
    ensures
        v@ == var_or(vars@, name@, default@),
{
    match vars.value_of(name) {
        Some(v) => v,
        None => String::from_str(default),
    }
}

/// The text to search for: the content with its spaces written `%20`.
pub open spec fn search_text(content: Seq<char>) -> Seq<char> {
    replace_char(content, ' ', "%20"@)
}

/// The command that searches the web for `search` (already written with
/// `%20` for its spaces), in the `browser` (`firefox` by default) on the
/// `search_engine`.
pub open spec fn search_command(vars: Seq<(Seq<char>, Seq<char>)>, search: Seq<char>) -> CommandView {
    CommandView {
        command: var_or(vars, "browser"@, "firefox"@) + " "@ + engine_link(
            var_or(vars, "search_engine"@, Seq::empty()),
            search,
        ),
        desc: "search for "@ + search,
        loc: WLocation::Both,
    }
}

/// The commands that open the content as a URL or search for it on the web.
pub open spec fn web_commands(keyword: WKeyword, content: Seq<char>, vars: Seq<(Seq<char>, Seq<char>)>) -> Seq<CommandView> {
    let browser = var_or(vars, "browser"@, "firefox"@);
    let engine = var_or(vars, "search_engine"@, Seq::empty());
    let search = search_text(content);
    let open = CommandView {
        command: browser + " "@ + search,
        desc: "opening url "@ + search,
        loc: WLocation::Both,
    };
    let find = search_command(vars, search);
    let opens = if looks_like_url(search) {
        seq![open]
    } else {
        Seq::empty()
    };
    match keyword {
        WKeyword::Search | WKeyword::NoKeyword => opens.push(find),
        WKeyword::Open => opens,
        _ => Seq::empty(),
    }
}

/// Adds the commands that open the content as a URL (when it looks like one)
/// and that search for it on the web.
pub fn web_search_cmd(command_list: &mut Vec<WCommand>, parse_result: &WCPResult, vars: &Vars)
    ensures
        views(final(command_list)@) == views(old(command_list)@) + web_commands(
            parse_result.0,
            parse_result.1@,
            vars@,
        ),
{
    let browser = value_or(vars, "browser", "firefox");
    let search_engine = match vars.value_of("search_engine") {
        Some(v) => v,
        None => String::new(),
    };
    let content = chars_of(parse_result.1.as_str());
    let search = string_of(&replace_chars(&content, ' ', &chars_of("%20")));
    assert(search@ == search_text(parse_result.1@));
    let ghost before = views(command_list@);
    let ghost expected = web_commands(parse_result.0, parse_result.1@, vars@);
    let ghost open = CommandView {
        command: browser@ + " "@ + search@,
        desc: "opening url "@ + search@,
        loc: WLocation::Both,
    };
    let ghost opens = if looks_like_url(search@) {
        seq![open]
    } else {
        Seq::<CommandView>::empty()
    };
    match parse_result.0 {
        WKeyword::Search | WKeyword::NoKeyword | WKeyword::Open => {
            if is_url(search.as_str()) {
                push_command(
                    command_list,
                    WCommand::new(
                        concat3(browser.as_str(), " ", search.as_str()),
                        concat("opening url ", search.as_str()),
                        WLocation::Both,
                    ),
                );
            }
            assert(views(command_list@) =~= before + opens);
            match parse_result.0 {
                WKeyword::Open => {
                    assert(expected == opens);
                },
                _ => {
                    let link = search_engine_link(search_engine.as_str(), search.as_str());
                    let ghost find = CommandView {
                        command: browser@ + " "@ + link@,
                        desc: "search for "@ + search@,
                        loc: WLocation::Both,
                    };
                    push_command(
                        command_list,
                        WCommand::new(
                            concat3(browser.as_str(), " ", link.as_str()),
                            concat("search for ", search.as_str()),
                            WLocation::Both,
                        ),
                    );
                    assert(expected == opens.push(find));
                    assert(views(command_list@) =~= before + opens.push(find));
                },
            }
        },
        _ => {},
    }
    assert(views(command_list@) =~= before + expected);
}

/// The program named by a command line: its first word, or the whole line
/// when it has no word.
pub open spec fn command_name_spec(s: Seq<char>) -> Seq<char> {
    let a = skip_ws(s, 0);
    if a < s.len() {
        s.subrange(a, word_end(s, a))
    } else {
        s
    }
}

/// The program named by a command line; the caller looks it up on the
/// `PATH`.
pub fn command_name(s: &str) -> (name: String)
    ensures
        name@ == command_name_spec(s@),
{
    let v = chars_of(s);
    let a = skip_whitespace(&v, 0);
    if a < v.len() {
        let b = find_word_end(&v, a);
        string_of(&slice_chars(&v, a, b))
    } else {
        String::from_str(s)
    }
}

/// The command that runs the content itself, when its program is on the
/// `PATH`.
pub open spec fn program_commands(keyword: WKeyword, content: Seq<char>, in_path: bool) -> Seq<CommandView> {
    match keyword {
        WKeyword::Run | WKeyword::NoKeyword => if in_path {
            seq![
                CommandView {
                    command: content,
                    desc: "execute `"@ + content + "`"@,
                    loc: WLocation::Both,
                },
            ]
        } else {
            Seq::empty()
        },
        _ => Seq::empty(),
    }
}

/// Adds the command that runs the content, for `run` and for text without a
/// keyword, when `in_path` says that `command_name` of the content is a
/// program on the `PATH`.
pub fn command_cmd(command_list: &mut Vec<WCommand>, parse_result: &WCPResult, in_path: bool)
    ensures
        views(final(command_list)@) == views(old(command_list)@) + program_commands(
            parse_result.0,
            parse_result.1@,
            in_path,
        ),
{
    let ghost before = views(command_list@);
    match parse_result.0 {
        WKeyword::Run | WKeyword::NoKeyword => {
            if in_path {
                let s = parse_result.1.as_str();
                push_command(
                    command_list,
                    WCommand::new(String::from_str(s), concat3("execute `", s, "`"), WLocation::Both),
                );
            }
        },
        _ => {},
    }
    assert(views(command_list@) =~= before + program_commands(
        parse_result.0,
        parse_result.1@,
        in_path,
    ));
}


/// What the caller learned about the machine for one user command: the
/// configuration directory under which scripts live, whether each path of
/// `scriptify(content, config_root)` exists, whether each file change of
/// `script_actions` was carried out, and whether `command_name(content)` is a
/// program on the `PATH`, where `content` is the content that
/// `parse_command_str` finds in the command.
pub struct CommandContext {
    pub config_root: String,
    pub scripts_exist: Vec<bool>,
    pub scripts_done: Vec<bool>,
    pub in_path: bool,
}

/// What an `edit` line ends with: the command that edits the file named by
/// the content, then the search for the whole line.
pub open spec fn edit_commands(
    keyword: WKeyword,
    command: Seq<char>,
    content: Seq<char>,
    vars: Seq<(Seq<char>, Seq<char>)>,
) -> Seq<CommandView> {
    match keyword {
        WKeyword::Edit => seq![
            edit_file_command(vars, content),
            search_command(vars, search_text(trim(command))),
        ],
        _ => Seq::empty(),
    }
}

/// All the commands that a user command can mean, in order: those for
/// scripts, the one that runs a program, those that open a URL or search the
/// web for the content, and, for `edit`, the edit of the file and a search
/// for the whole line.
pub open spec fn user_commands(
    command: Seq<char>,
    vars: Seq<(Seq<char>, Seq<char>)>,
    root: Seq<char>,
    exists: Seq<bool>,
    done: Seq<bool>,
    in_path: bool,
) -> Seq<CommandView> {
    let (keyword, content) = parse_command_spec(command);
    script_commands(keyword, content, vars, root, exists, done) + program_commands(
        keyword,
        content,
        in_path,
    ) + web_commands(keyword, content, vars) + edit_commands(keyword, command, content, vars)
}

/// Adds the command that searches the web for `search`.
fn search_cmd(command_list: &mut Vec<WCommand>, search: &str, vars: &Vars)
    ensures
        views(final(command_list)@) == views(old(command_list)@).push(
            search_command(vars@, search@),
        ),
{
    let browser = value_or(vars, "browser", "firefox");
    let search_engine = match vars.value_of("search_engine") {
        Some(v) => v,
        None => String::new(),
    };
    let link = search_engine_link(search_engine.as_str(), search);
    push_command(
        command_list,
        WCommand::new(
            concat3(browser.as_str(), " ", link.as_str()),
            concat("search for ", search),
            WLocation::Both,
        ),
    );
}

/// Parses a user command and gives the list of commands it can mean. For
/// `edit update`: the command that edits the script `update` (when it
/// exists), the command that edits the file `update` ("edit file update"),
/// then the search for `edit update`. After `add script ...` or
/// `delete script ...`, whose file changes the caller made first (see
/// `script_actions`), the list reports each change that was made.
pub fn parse_user_command(command: String, vars: &Vars, context: &CommandContext) -> (r: Vec<WCommand>)
    ensures
        views(r@) == user_commands(
            command@,
            vars@,
            context.config_root@,
            context.scripts_exist@,
            context.scripts_done@,
            context.in_path,
        ),
{
    let mut command_list: Vec<WCommand> = Vec::new();
    let line = trim_chars(&chars_of(command.as_str()));
    let parse_result = parse_command_str(command);
    script_cmd(
        &mut command_list,
        &parse_result,
        vars,
        context.config_root.as_str(),
        &context.scripts_exist,
        &context.scripts_done,
    );
    command_cmd(&mut command_list, &parse_result, context.in_path);
    web_search_cmd(&mut command_list, &parse_result, vars);
    let ghost before = views(command_list@);
    match parse_result.0 {
        WKeyword::Edit => {
            let editor = value_or(vars, "editor", "vi");
            let file = parse_result.1.as_str();
            push_command(
                &mut command_list,
                WCommand::new(
                    concat3(editor.as_str(), " ", file),
                    concat("edit file ", file),
                    WLocation::Client,
                ),
            );
            let search = string_of(&replace_chars(&line, ' ', &chars_of("%20")));
            search_cmd(&mut command_list, search.as_str(), vars);
        },
        _ => {},
    }
    assert(views(command_list@) =~= before + edit_commands(
        parse_result.0,
        command@,
        parse_result.1@,
        vars@,
    ));
    assert(views(Seq::<WCommand>::empty()) =~= Seq::<CommandView>::empty());
    command_list
}

/// The number of bytes of a character in UTF-8.
pub open spec fn utf8_width(c: char) -> int {
    let u = c as u32;
    if u < 0x80 {
        1
    } else if u < 0x800 {
        2
    } else if u < 0x10000 {
        3
    } else {
        4
    }
}

/// The number of bytes of a text in UTF-8.
pub open spec fn byte_len(s: Seq<char>) -> int
    decreases s.len(),
{
    if s.len() == 0 {
        0
    } else {
        byte_len(s.drop_last()) + utf8_width(s.last())
    }
}

/// The index of the character that starts at byte `b` of `s`, searching from
/// character `i` on; `None` when byte `b` is inside a character or past the
/// end.
pub open spec fn char_at_byte_from(s: Seq<char>, b: int, i: int) -> Option<int>
    decreases s.len() - i,
{
    if i < 0 || i > s.len() {
        None
    } else if byte_len(s.subrange(0, i)) == b {
        Some(i)
    } else if byte_len(s.subrange(0, i)) > b || i == s.len() {
        None
    } else {
        char_at_byte_from(s, b, i + 1)
    }
}

/// The index of the character that starts at byte `b` of `s`.
pub open spec fn char_at_byte(s: Seq<char>, b: int) -> Option<int> {
    char_at_byte_from(s, b, 0)
}

fn char_width(c: char) -> (w: usize)
    ensures
        w == utf8_width(c),
{
    let u = c as u32;
    if u < 0x80 {
        1
    } else if u < 0x800 {
        2
    } else if u < 0x10000 {
        3
    } else {
        4
    }
}

/// The index of the character that starts at byte `b` of `s`.
fn find_char_at_byte(s: &Vec<char>, b: usize) -> (r: Option<usize>)
    requires
        b < 64,
    ensures
        r matches Some(i) ==> char_at_byte(s@, b as int) == Some(i as int),
        r is None ==> char_at_byte(s@, b as int) is None,
{
    let mut i: usize = 0;
    let mut acc: usize = 0;
    assert(s@.subrange(0, 0) =~= Seq::<char>::empty());
    while i < s.len() && acc < b
        invariant
            i <= s.len(),
            acc == byte_len(s@.subrange(0, i as int)),
            acc <= b + 4,
            b < 64,
            char_at_byte(s@, b as int) == char_at_byte_from(s@, b as int, i as int),
        decreases s.len() - i,
    {
        assert(s@.subrange(0, i + 1).drop_last() =~= s@.subrange(0, i as int));
        let w = char_width(s[i]);
        assert(w <= 4);
        acc = acc + w;
        i = i + 1;
    }
    if acc == b {
        Some(i)
    } else {
        None
    }
}

/// The path of the script file `name` under `root`, as `add script` writes
/// it: `_` is read as `/`, and `update_system` gives
/// `<root>/scripts/update/system`, `install` gives `<root>/scripts/install`.
pub open spec fn script_file_path(name: Seq<char>, root: Seq<char>) -> Seq<char> {
    script_path(root, replace_char(name, '_', "/"@))
}

/// The command that edits the file `file` with the `editor` variable.
pub open spec fn edit_file_command(vars: Seq<(Seq<char>, Seq<char>)>, file: Seq<char>) -> CommandView {
    CommandView {
        command: var_or(vars, "editor"@, "vi"@) + " "@ + file,
        desc: "edit file "@ + file,
        loc: WLocation::Client,
    }
}

/// The commands of a line read word by word: `search x` and `open x` search
/// the web for the text after the first word; `edit x` edits the file `x`
/// and searches the web for the whole line; `add script x` gives no
/// command; any other line gives the command that runs it (when its program
/// is on the `PATH`) and a web search for it.
pub open spec fn direct_commands(command: Seq<char>, vars: Seq<(Seq<char>, Seq<char>)>, in_path: bool) -> Seq<CommandView> {
    let t = trim(command);
    let ws = words(t);
    if ws.len() == 0 {
        Seq::empty()
    } else if ws[0] == "search"@ {
        web_commands(WKeyword::Search, t.subrange(char_at_byte(t, 7).unwrap(), t.len() as int), vars)
    } else if ws[0] == "open"@ {
        web_commands(WKeyword::Search, t.subrange(char_at_byte(t, 5).unwrap(), t.len() as int), vars)
    } else if ws[0] == "add"@ {
        Seq::empty()
    } else if ws[0] == "edit"@ && ws.len() > 1 {
        seq![edit_file_command(vars, trim(t.subrange(4, t.len() as int)))] + web_commands(
            WKeyword::Search,
            t,
            vars,
        )
    } else {
        (if in_path {
            seq![CommandView { command: t, desc: "executing "@ + t, loc: WLocation::Both }]
        } else {
            Seq::empty()
        }) + web_commands(WKeyword::Search, t, vars)
    }
}

/// The script file that a line `add script <name>` creates.
pub open spec fn direct_actions(command: Seq<char>, root: Seq<char>) -> Seq<(FileAction, Seq<char>)> {
    let t = trim(command);
    let ws = words(t);
    if ws.len() > 1 && ws[0] == "add"@ && ws[1] == "script"@ {
        seq![
            (
                FileAction::Replace,
                script_file_path(t.subrange(char_at_byte(t, 11).unwrap(), t.len() as int), root),
            ),
        ]
    } else {
        Seq::empty()
    }
}

/// The lines that `parse_command` takes: after its first word (`search`,
/// `open`, or `add script`) the text is cut at a byte offset, which must
/// fall between characters.
pub open spec fn direct_command_ok(command: Seq<char>) -> bool {
    let t = trim(command);
    let ws = words(t);
    &&& (ws.len() > 0 && ws[0] == "search"@) ==> char_at_byte(t, 7) is Some
    &&& (ws.len() > 0 && ws[0] == "open"@) ==> char_at_byte(t, 5) is Some
    &&& (ws.len() > 1 && ws[0] == "add"@ && ws[1] == "script"@) ==> char_at_byte(t, 11) is Some
}

/// Whether `parse_command` takes `command`.
pub fn direct_command_accepted(command: &str) -> (ok: bool)
    ensures
        ok == direct_command_ok(command@),
{
    let t = trim_chars(&chars_of(command));
    let ws = split_words(&t);
    proof {
        reveal_strlit("search");
        reveal_strlit("open");
        reveal_strlit("add");
    }
    if ws.len() == 0 {
        return true;
    }
    assert(ws.deep_view()[0] == ws@[0]@);
    if chars_eq(&ws[0], &chars_of("search")) {
        return find_char_at_byte(&t, 7).is_some();
    }
    if chars_eq(&ws[0], &chars_of("open")) {
        return find_char_at_byte(&t, 5).is_some();
    }
    if ws.len() > 1 && chars_eq(&ws[0], &chars_of("add")) {
        assert(ws.deep_view()[1] == ws@[1]@);
        if chars_eq(&ws[1], &chars_of("script")) {
            return find_char_at_byte(&t, 11).is_some();
        }
    }
    true
}

proof fn lemma_first_word_len(t: Seq<char>)
    requires
        words(t).len() > 0,
    ensures
        words(t)[0].len() <= t.len(),
{
    crate::text::lemma_skip_ws_bounds(t, 0);
    crate::text::lemma_word_end_bounds(t, skip_ws(t, 0));
}

pub proof fn lemma_char_at_byte_bounds(s: Seq<char>, b: int)
    ensures
        char_at_byte(s, b) matches Some(i) ==> 0 <= i <= s.len(),
{
    lemma_char_at_byte_from_bounds(s, b, 0);
}

proof fn lemma_char_at_byte_from_bounds(s: Seq<char>, b: int, i: int)
    ensures
        char_at_byte_from(s, b, i) matches Some(j) ==> 0 <= j <= s.len(),
    decreases s.len() - i,
{
    if 0 <= i < s.len() && byte_len(s.subrange(0, i)) < b {
        lemma_char_at_byte_from_bounds(s, b, i + 1);
    }
}

/// Reads a line word by word: `search x` and `open x` give the commands that
/// open `x` as a URL (when it looks like one) and search the web for it;
/// `edit x` gives the command that edits the file `x`, then the same web
/// commands for the whole line (so `edit update` gives "edit file update"
/// and "search for edit%20update"); `add script x` gives no command, and the
/// script file to create (emptied if it exists); any other line gives the
/// command that runs it, when `context.in_path` says that `command_name` of
/// the trimmed line is on the `PATH`, then the same web commands for the
/// whole line. The script file lives under `context.config_root`.
pub fn parse_command(command: String, vars: &Vars, context: &CommandContext) -> (r: (
    Vec<WCommand>,
    Vec<ScriptAction>,
))
    requires
        direct_command_ok(command@),
    ensures
        views(r.0@) == direct_commands(command@, vars@, context.in_path),
        action_views(r.1@) == direct_actions(command@, context.config_root@),
{
    let t = trim_chars(&chars_of(command.as_str()));
    let ws = split_words(&t);
    let mut result: Vec<WCommand> = Vec::new();
    let mut actions: Vec<ScriptAction> = Vec::new();
    assert(views(result@) =~= Seq::<CommandView>::empty());
    assert(action_views(actions@) =~= Seq::<(FileAction, Seq<char>)>::empty());
    proof {
        reveal_strlit("search");
        reveal_strlit("open");
        reveal_strlit("add");
        reveal_strlit("edit");
        lemma_char_at_byte_bounds(t@, 7);
        lemma_char_at_byte_bounds(t@, 5);
        lemma_char_at_byte_bounds(t@, 11);
    }
    if ws.len() == 0 {
        return (result, actions);
    }
    assert(ws.deep_view()[0] == ws@[0]@);
    if chars_eq(&ws[0], &chars_of("search")) || chars_eq(&ws[0], &chars_of("open")) {
        let skip: usize = if chars_eq(&ws[0], &chars_of("search")) { 7 } else { 5 };
        let i = find_char_at_byte(&t, skip).unwrap();
        let search = string_of(&slice_chars(&t, i, t.len()));
        web_search_cmd(&mut result, &(WKeyword::Search, search), vars);
        return (result, actions);
    }
    if chars_eq(&ws[0], &chars_of("add")) {
        if ws.len() > 1 {
            assert(ws.deep_view()[1] == ws@[1]@);
            if chars_eq(&ws[1], &chars_of("script")) {
                let i = find_char_at_byte(&t, 11).unwrap();
                let name = slice_chars(&t, i, t.len());
                let n = replace_chars(&name, '_', &chars_of("/"));
                let path = script_path_of(context.config_root.as_str(), &n);
                actions.push(ScriptAction { action: FileAction::Replace, path: string_of(&path) });
                assert(action_views(actions@) =~= direct_actions(command@, context.config_root@));
            }
        }
        return (result, actions);
    }
    let line = string_of(&t);
    if ws.len() > 1 && chars_eq(&ws[0], &chars_of("edit")) {
        proof {
            lemma_first_word_len(t@);
        }
        let file = string_of(&trim_chars(&slice_chars(&t, 4, t.len())));
        let editor = value_or(vars, "editor", "vi");
        push_command(
            &mut result,
            WCommand::new(
                concat3(editor.as_str(), " ", file.as_str()),
                concat("edit file ", file.as_str()),
                WLocation::Client,
            ),
        );
        web_search_cmd(&mut result, &(WKeyword::Search, line), vars);
        return (result, actions);
    }
    if context.in_path {
        push_command(
            &mut result,
            WCommand::new(string_of(&t), concat("executing ", line.as_str()), WLocation::Both),
        );
    }
    web_search_cmd(&mut result, &(WKeyword::Search, line), vars);
    (result, actions)
}

/// Spaces around a line never change what `parse_command` makes of it: the
/// trimmed line is taken exactly when the line is, and gives the same
/// commands and the same script file.
pub proof fn law_parse_command_ignores_surrounding_space(
    command: Seq<char>,
    vars: Seq<(Seq<char>, Seq<char>)>,
    in_path: bool,
    root: Seq<char>,
)
    ensures
        direct_command_ok(trim(command)) == direct_command_ok(command),
        direct_commands(trim(command), vars, in_path) == direct_commands(command, vars, in_path),
        direct_actions(trim(command), root) == direct_actions(command, root),
{
    crate::text::law_trim_idempotent(command);
}

/// Whether a command edits a script or a file.
pub open spec fn is_edit(c: CommandView) -> bool {
    crate::text::starts_with(c.desc, "edit script "@) || crate::text::starts_with(
        c.desc,
        "edit file "@,
    )
}

/// Whether every command of `cs` may run on either side, except the
/// commands that edit a script or a file, which run on the client.
pub open spec fn run_anywhere_but_edits(cs: Seq<CommandView>) -> bool {
    forall|k: int|
        0 <= k < cs.len() ==> (#[trigger] cs[k]).loc == WLocation::Both || (cs[k].loc
            == WLocation::Client && is_edit(cs[k]))
}

proof fn lemma_run_anywhere_concat(a: Seq<CommandView>, b: Seq<CommandView>)
    requires
        run_anywhere_but_edits(a),
        run_anywhere_but_edits(b),
    ensures
        run_anywhere_but_edits(a + b),
{
    assert forall|k: int| 0 <= k < (a + b).len() implies (#[trigger] (a + b)[k]).loc
        == WLocation::Both || ((a + b)[k].loc == WLocation::Client && is_edit((a + b)[k])) by {
        if k < a.len() {
            assert((a + b)[k] == a[k]);
        } else {
            assert((a + b)[k] == b[k - a.len()]);
        }
    }
}

proof fn lemma_script_commands_run_anywhere(
    keyword: WKeyword,
    paths: Seq<Seq<char>>,
    exists: Seq<bool>,
    editor: Seq<char>,
    content: Seq<char>,
    n: int,
)
    ensures
        run_anywhere_but_edits(
            script_commands_upto(keyword, paths, exists, editor, content, n),
        ),
    decreases n,
{
    if n > 0 {
        lemma_script_commands_run_anywhere(keyword, paths, exists, editor, content, n - 1);
        let d = "edit script "@ + content;
        assert(d.subrange(0, "edit script "@.len() as int) =~= "edit script "@);
        let step = if crate::script::found(exists, n - 1) {
            match keyword {
                WKeyword::Edit => seq![crate::script::edit_command(editor, paths[n - 1], content)],
                WKeyword::Run => seq![crate::script::run_command(paths[n - 1], content)],
                _ => Seq::empty(),
            }
        } else {
            Seq::empty()
        };
        lemma_run_anywhere_concat(
            script_commands_upto(keyword, paths, exists, editor, content, n - 1),
            step,
        );
    }
}

proof fn lemma_reports_run_anywhere(actions: Seq<(FileAction, Seq<char>)>, done: Seq<bool>, n: int)
    ensures
        run_anywhere_but_edits(action_reports_upto(actions, done, n)),
    decreases n,
{
    if n > 0 {
        lemma_reports_run_anywhere(actions, done, n - 1);
        let step = if crate::script::found(done, n - 1) {
            seq![report_command(actions[n - 1])]
        } else {
            Seq::empty()
        };
        lemma_run_anywhere_concat(action_reports_upto(actions, done, n - 1), step);
    }
}

/// The commands that a user command means may all run on either side,
/// except those that edit a script or a file, which run on the client.
pub proof fn law_commands_run_anywhere_but_edits(
    command: Seq<char>,
    vars: Seq<(Seq<char>, Seq<char>)>,
    root: Seq<char>,
    exists: Seq<bool>,
    done: Seq<bool>,
    in_path: bool,
)
    ensures
        run_anywhere_but_edits(user_commands(command, vars, root, exists, done, in_path)),
{
    let (keyword, content) = parse_command_spec(command);
    let paths = crate::script::script_paths(content, root);
    lemma_script_commands_run_anywhere(
        keyword,
        paths,
        exists,
        var_or(vars, "editor"@, "vi"@),
        content,
        paths.len() as int,
    );
    let acts = script_file_actions(keyword, content, root, exists);
    lemma_reports_run_anywhere(acts, done, acts.len() as int);
    lemma_run_anywhere_concat(
        script_commands_upto(
            keyword,
            paths,
            exists,
            var_or(vars, "editor"@, "vi"@),
            content,
            paths.len() as int,
        ),
        action_reports(acts, done),
    );
    let p = program_commands(keyword, content, in_path);
    let w = web_commands(keyword, content, vars);
    let l = edit_commands(keyword, command, content, vars);
    assert(run_anywhere_but_edits(p));
    assert(run_anywhere_but_edits(w));
    let f = "edit file "@ + content;
    assert(f.subrange(0, "edit file "@.len() as int) =~= "edit file "@);
    assert(run_anywhere_but_edits(l));
    let s = script_commands(keyword, content, vars, root, exists, done);
    lemma_run_anywhere_concat(s, p);
    lemma_run_anywhere_concat(s + p, w);
    lemma_run_anywhere_concat(s + p + w, l);
}

/// The content of a parsed command has no whitespace at either end.
pub proof fn law_parsed_content_trimmed(s: Seq<char>)
    ensures
        crate::text::trim(parse_command_spec(s).1) == parse_command_spec(s).1,
{
    let a = skip_ws(s, 0);
    crate::text::lemma_skip_ws_bounds(s, 0);
    crate::text::lemma_word_end_bounds(s, a);
    let b = word_end(s, a);
    crate::text::law_trim_idempotent(s.subrange(a, s.len() as int));
    crate::text::law_trim_idempotent(s.subrange(b, s.len() as int));
}

/// A line that starts with `search` or `edit`, or with no keyword, always
/// means at least one command, and the last one searches the web: for the
/// content after `search` or of a line without keyword, and for the whole
/// line after `edit`, where the command before it edits the file that the
/// content names.
pub proof fn law_web_search_offered(
    command: Seq<char>,
    vars: Seq<(Seq<char>, Seq<char>)>,
    root: Seq<char>,
    exists: Seq<bool>,
    done: Seq<bool>,
    in_path: bool,
)
    requires
        parse_command_spec(command).0 is Search || parse_command_spec(command).0 is NoKeyword
            || parse_command_spec(command).0 is Edit,
    ensures
        user_commands(command, vars, root, exists, done, in_path).len() >= 1,
        user_commands(command, vars, root, exists, done, in_path).last() == search_command(
            vars,
            if parse_command_spec(command).0 is Edit {
                search_text(trim(command))
            } else {
                search_text(parse_command_spec(command).1)
            },
        ),
        parse_command_spec(command).0 is Edit ==> user_commands(
            command,
            vars,
            root,
            exists,
            done,
            in_path,
        ).len() >= 2 && user_commands(command, vars, root, exists, done, in_path)[user_commands(
            command,
            vars,
            root,
            exists,
            done,
            in_path,
        ).len() - 2] == edit_file_command(vars, parse_command_spec(command).1),
{
    let (keyword, content) = parse_command_spec(command);
    let w = web_commands(keyword, content, vars);
    let l = edit_commands(keyword, command, content, vars);
    let all = user_commands(command, vars, root, exists, done, in_path);
    let front = script_commands(keyword, content, vars, root, exists, done) + program_commands(
        keyword,
        content,
        in_path,
    ) + w;
    assert(all == front + l);
    if keyword is Edit {
        assert(l.len() == 2);
        assert(all.last() == l.last());
        assert(all[all.len() - 2] == l[0]);
    } else {
        assert(w.len() >= 1);
        assert(l.len() == 0);
        assert(all =~= front);
        assert(all.last() == w.last());
    }
}

/// For a line without keyword, the content is the whole line, trimmed.
pub proof fn lemma_plain_content_is_the_line(command: Seq<char>)
    requires
        parse_command_spec(command).0 is NoKeyword,
    ensures
        parse_command_spec(command).1 == trim(command),
{
    let a = skip_ws(command, 0);
    crate::text::lemma_skip_ws_bounds(command, 0);
    let u = command.subrange(a, command.len() as int);
    if u.len() > 0 {
        assert(u[0] == command[a]);
        assert(skip_ws(u, 0) == 0);
    } else {
        assert(skip_ws(u, 0) == 0);
    }
    assert(crate::text::trim_start(u) =~= u);
    assert(crate::text::trim_start(command) == u);
}

/// The command that opens `search` in the browser.
pub open spec fn opening(vars: Seq<(Seq<char>, Seq<char>)>, search: Seq<char>) -> CommandView {
    CommandView {
        command: var_or(vars, "browser"@, "firefox"@) + " "@ + search,
        desc: "opening url "@ + search,
        loc: WLocation::Both,
    }
}

/// The command that searches the web for `search`.
pub open spec fn searching(vars: Seq<(Seq<char>, Seq<char>)>, search: Seq<char>) -> CommandView {
    CommandView {
        command: var_or(vars, "browser"@, "firefox"@) + " "@ + engine_link(
            var_or(vars, "search_engine"@, Seq::empty()),
            search,
        ),
        desc: "search for "@ + search,
        loc: WLocation::Both,
    }
}

/// A line without keyword, or after `search`, ends with the web search for
/// its content (spaces written `%20`); when that text looks like a URL, the
/// command just before opens it in the browser. For a line without keyword
/// the content is the whole trimmed line.
pub proof fn law_url_lines_are_opened_then_searched(
    command: Seq<char>,
    vars: Seq<(Seq<char>, Seq<char>)>,
    root: Seq<char>,
    exists: Seq<bool>,
    done: Seq<bool>,
    in_path: bool,
)
    requires
        parse_command_spec(command).0 is NoKeyword || parse_command_spec(command).0 is Search,
    ensures
        parse_command_spec(command).0 is NoKeyword ==> parse_command_spec(command).1 == trim(
            command,
        ),
        ({
            let u = user_commands(command, vars, root, exists, done, in_path);
            let search = replace_char(parse_command_spec(command).1, ' ', "%20"@);
            &&& u.len() >= 1
            &&& u.last() == searching(vars, search)
            &&& looks_like_url(search) ==> u.len() >= 2 && u[u.len() - 2] == opening(
                vars,
                search,
            )
        }),
{
    let (keyword, content) = parse_command_spec(command);
    if keyword is NoKeyword {
        lemma_plain_content_is_the_line(command);
    }
    let u = user_commands(command, vars, root, exists, done, in_path);
    let front = script_commands(keyword, content, vars, root, exists, done) + program_commands(
        keyword,
        content,
        in_path,
    );
    let w = web_commands(keyword, content, vars);
    assert(edit_commands(keyword, command, content, vars) =~= Seq::<CommandView>::empty());
    assert(u =~= front + w);
    let search = replace_char(content, ' ', "%20"@);
    if looks_like_url(search) {
        assert(w =~= seq![opening(vars, search), searching(vars, search)]);
        assert(u[u.len() - 2] == w[0]);
    } else {
        assert(w =~= seq![searching(vars, search)]);
    }
    assert(u.last() == w.last());
}

/// A line of the older reader that is not `search`, `open`, `add` or
/// `edit <x>` ends with the web search for the whole trimmed line; when that
/// text looks like a URL the command just before opens it in the browser;
/// and when its program is on the `PATH` the first command runs the line.
pub proof fn law_plain_lines_run_then_open_then_search(
    command: Seq<char>,
    vars: Seq<(Seq<char>, Seq<char>)>,
    in_path: bool,
)
    requires
        words(trim(command)).len() > 0,
        words(trim(command))[0] != "search"@,
        words(trim(command))[0] != "open"@,
        words(trim(command))[0] != "add"@,
        !(words(trim(command))[0] == "edit"@ && words(trim(command)).len() > 1),
    ensures
        ({
            let t = trim(command);
            let d = direct_commands(command, vars, in_path);
            let search = replace_char(t, ' ', "%20"@);
            &&& d.len() >= 1
            &&& d.last() == searching(vars, search)
            &&& looks_like_url(search) ==> d.len() >= 2 && d[d.len() - 2] == opening(vars, search)
            &&& in_path ==> d[0] == (CommandView {
                command: t,
                desc: "executing "@ + t,
                loc: WLocation::Both,
            })
        }),
{
    let t = trim(command);
    let d = direct_commands(command, vars, in_path);
    let run = if in_path {
        seq![CommandView { command: t, desc: "executing "@ + t, loc: WLocation::Both }]
    } else {
        Seq::<CommandView>::empty()
    };
    let w = web_commands(WKeyword::Search, t, vars);
    assert(d == run + w);
    let search = replace_char(t, ' ', "%20"@);
    if looks_like_url(search) {
        assert(w =~= seq![opening(vars, search), searching(vars, search)]);
        assert(d[d.len() - 2] == w[0]);
    } else {
        assert(w =~= seq![searching(vars, search)]);
    }
    assert(d.last() == w.last());
    if in_path {
        assert(d[0] == run[0]);
    }
}

/// When the program is on the `PATH`, a line without keyword, or after
/// `run`, offers the command that runs the whole content, with its
/// arguments, described as "execute `content`"; without keyword it is the
/// first command, and the content is the whole trimmed line.
pub proof fn law_program_command_runs_the_whole_content(
    command: Seq<char>,
    vars: Seq<(Seq<char>, Seq<char>)>,
    root: Seq<char>,
    exists: Seq<bool>,
    done: Seq<bool>,
)
    requires
        parse_command_spec(command).0 is NoKeyword || parse_command_spec(command).0 is Run,
    ensures
        ({
            let u = user_commands(command, vars, root, exists, done, true);
            let c = parse_command_spec(command).1;
            let run = CommandView { command: c, desc: "execute `"@ + c + "`"@, loc: WLocation::Both };
            &&& u.contains(run)
            &&& parse_command_spec(command).0 is NoKeyword ==> c == trim(command) && u[0] == run
        }),
{
    let (keyword, content) = parse_command_spec(command);
    if keyword is NoKeyword {
        lemma_plain_content_is_the_line(command);
    }
    let u = user_commands(command, vars, root, exists, done, true);
    let sc = script_commands(keyword, content, vars, root, exists, done);
    let p = program_commands(keyword, content, true);
    let rest = web_commands(keyword, content, vars) + edit_commands(keyword, command, content, vars);
    assert(u =~= sc + p + rest);
    assert(u[sc.len() as int] == p[0]);
    if keyword is NoKeyword {
        let paths = crate::script::script_paths(content, root);
        lemma_no_script_commands(
            keyword,
            paths,
            exists,
            var_or(vars, "editor"@, "vi"@),
            content,
            paths.len() as int,
        );
        assert(script_file_actions(keyword, content, root, exists) =~= Seq::<(FileAction, Seq<char>)>::empty());
        assert(sc.len() == 0);
    }
}

proof fn lemma_no_script_commands(
    keyword: WKeyword,
    paths: Seq<Seq<char>>,
    exists: Seq<bool>,
    editor: Seq<char>,
    content: Seq<char>,
    n: int,
)
    requires
        !(keyword is Edit || keyword is Run),
    ensures
        script_commands_upto(keyword, paths, exists, editor, content, n).len() == 0,
    decreases n,
{
    if n > 0 {
        lemma_no_script_commands(keyword, paths, exists, editor, content, n - 1);
    }
}

} // verus!
