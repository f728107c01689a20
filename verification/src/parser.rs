//! The two small grammars of wydy: the vars file, and a user command
//! (a keyword followed by its content).
use crate::env::Var;
use crate::text::{
    chars_of, find_word_end, is_whitespace, is_ws, lemma_skip_ws_bounds, lemma_word_end_bounds,
    lowercase_of, skip_whitespace, skip_ws, slice_chars, string_of, to_lowercase, trim, trim_chars,
    word_end,
};
use vstd::prelude::*;

verus! {

/// The end of the run of characters from `i` on that are neither whitespace
/// nor `=`: a variable name.
pub open spec fn name_end(s: Seq<char>, i: int) -> int
    decreases s.len() - i,
{
    if i < 0 || i >= s.len() {
        if i < 0 { 0 } else { i }
    } else if !is_ws(s[i]) && s[i] != '=' {
        name_end(s, i + 1)
    } else {
        i
    }
}

/// The index of the first `"` at or after `i`, or `s.len()`.
pub open spec fn quote_end(s: Seq<char>, i: int) -> int
    decreases s.len() - i,
{
    if i < 0 || i >= s.len() {
        if i < 0 { 0 } else { i }
    } else if s[i] != '"' {
        quote_end(s, i + 1)
    } else {
        i
    }
}

pub proof fn lemma_name_end_bounds(s: Seq<char>, i: int)
    requires
        0 <= i <= s.len(),
    ensures
        i <= name_end(s, i) <= s.len(),
        forall|k: int| i <= k < name_end(s, i) ==> !is_ws(#[trigger] s[k]) && s[k] != '=',
    decreases s.len() - i,
{
    if i < s.len() && !is_ws(s[i]) && s[i] != '=' {
        lemma_name_end_bounds(s, i + 1);
    }
}

pub proof fn lemma_quote_end_bounds(s: Seq<char>, i: int)
    requires
        0 <= i <= s.len(),
    ensures
        i <= quote_end(s, i) <= s.len(),
    decreases s.len() - i,
{
    if i < s.len() && s[i] != '"' {
        lemma_quote_end_bounds(s, i + 1);
    }
}

/// The value that starts at `d`, and the index just after it: the text
/// between a pair of double quotes (the closing one may be missing at the end
/// of the file), or else the run of non-whitespace characters.
pub open spec fn var_value(s: Seq<char>, d: int) -> (Seq<char>, int) {
    if 0 <= d < s.len() && s[d] == '"' {
        let q = quote_end(s, d + 1);
        (s.subrange(d + 1, q), if q < s.len() { q + 1 } else { q })
    } else {
        let q = word_end(s, d);
        (s.subrange(d, q), q)
    }
}

pub proof fn lemma_var_value_bounds(s: Seq<char>, d: int)
    requires
        0 <= d <= s.len(),
    ensures
        d <= var_value(s, d).1 <= s.len(),
{
    if 0 <= d < s.len() && s[d] == '"' {
        lemma_quote_end_bounds(s, d + 1);
    } else {
        lemma_word_end_bounds(s, d);
    }
}

/// The variables of the vars file `s` from index `i` on, or `None` when a
/// name is not followed by `=`. Each entry is: optional whitespace, a name,
/// optional whitespace, `=`, optional whitespace, a value, optional
/// whitespace.
pub open spec fn parse_vars_from(s: Seq<char>, i: int) -> Option<Seq<(Seq<char>, Seq<char>)>>
    decreases s.len() - i,
{
    if i < 0 || i >= s.len() {
        Some(Seq::empty())
    } else {
        let a = skip_ws(s, i);
        proof {
            lemma_skip_ws_bounds(s, i);
            lemma_name_end_bounds(s, a);
        }
        let b = name_end(s, a);
        let c = skip_ws(s, b);
        proof {
            lemma_skip_ws_bounds(s, b);
        }
        if c >= s.len() || s[c] != '=' {
            None
        } else {
            let d = skip_ws(s, c + 1);
            proof {
                lemma_skip_ws_bounds(s, c + 1);
                lemma_var_value_bounds(s, d);
            }
            let (value, e) = var_value(s, d);
            let f = skip_ws(s, e);
            proof {
                lemma_skip_ws_bounds(s, e);
            }
            match parse_vars_from(s, f) {
                Some(rest) => Some(seq![(s.subrange(a, b), value)] + rest),
                None => None,
            }
        }
    }
}

/// The variables of the vars file `s`.
pub open spec fn parse_vars_spec(s: Seq<char>) -> Option<Seq<(Seq<char>, Seq<char>)>> {
    parse_vars_from(s, 0)
}

/// Whether a name has neither whitespace nor `=` in it.
pub open spec fn is_var_name(name: Seq<char>) -> bool {
    forall|k: int| 0 <= k < name.len() ==> !is_ws(#[trigger] name[k]) && name[k] != '='
}

proof fn lemma_names_from(s: Seq<char>, i: int)
    ensures
        parse_vars_from(s, i) matches Some(vs) ==> forall|j: int|
            0 <= j < vs.len() ==> is_var_name(#[trigger] vs[j].0),
    decreases s.len() - i,
{
    if 0 <= i < s.len() {
        let a = skip_ws(s, i);
        lemma_skip_ws_bounds(s, i);
        lemma_name_end_bounds(s, a);
        let b = name_end(s, a);
        let c = skip_ws(s, b);
        lemma_skip_ws_bounds(s, b);
        if c < s.len() && s[c] == '=' {
            let d = skip_ws(s, c + 1);
            lemma_skip_ws_bounds(s, c + 1);
            lemma_var_value_bounds(s, d);
            let e = var_value(s, d).1;
            let f = skip_ws(s, e);
            lemma_skip_ws_bounds(s, e);
            lemma_names_from(s, f);
            let name = s.subrange(a, b);
            assert(is_var_name(name)) by {
                assert forall|k: int| 0 <= k < name.len() implies !is_ws(#[trigger] name[k])
                    && name[k] != '=' by {
                    assert(name[k] == s[a + k]);
                }
            }
            match parse_vars_from(s, f) {
                Some(rest) => {
                    let vs = seq![(name, var_value(s, d).0)] + rest;
                    assert forall|j: int| 0 <= j < vs.len() implies is_var_name(#[trigger] vs[j].0) by {
                        if j > 0 {
                            assert(vs[j] == rest[j - 1]);
                        }
                    }
                },
                None => {},
            }
        }
    }
}

/// Every variable read from a vars file has a name without whitespace and
/// without `=`.
pub proof fn law_var_names_are_words(s: Seq<char>)
    ensures
        parse_vars_spec(s) matches Some(vs) ==> forall|j: int|
            0 <= j < vs.len() ==> is_var_name(#[trigger] vs[j].0),
{
    lemma_names_from(s, 0);
}

/// A vars file that does not follow the grammar.
#[derive(Debug, PartialEq, Eq, Structural)]
pub enum ParseVarsError {
    /// A variable name is not followed by `=`.
    ExpectedEquals,
}

fn scan_name(s: &Vec<char>, i: usize) -> (j: usize)
    requires
        i <= s.len(),
    ensures
        j == name_end(s@, i as int),
        i <= j <= s.len(),
{
    let mut j = i;
    proof {
        lemma_name_end_bounds(s@, i as int);
    }
    while j < s.len() && !is_whitespace(s[j]) && s[j] != '='
        invariant
            i <= j <= s.len(),
            name_end(s@, j as int) == name_end(s@, i as int),
        decreases s.len() - j,
    {
        j = j + 1;
    }
    j
}

fn scan_quote(s: &Vec<char>, i: usize) -> (j: usize)
    requires
        i <= s.len(),
    ensures
        j == quote_end(s@, i as int),
        i <= j <= s.len(),
{
    let mut j = i;
    proof {
        lemma_quote_end_bounds(s@, i as int);
    }
    while j < s.len() && s[j] != '"'
        invariant
            i <= j <= s.len(),
            quote_end(s@, j as int) == quote_end(s@, i as int),
        decreases s.len() - j,
    {
        j = j + 1;
    }
    j
}

/// Parses the content of the vars file into its variables, in file order.
pub fn parse_vars(content: String) -> (r: Result<Vec<Var>, ParseVarsError>)
    ensures
        r matches Ok(vars) ==> parse_vars_spec(content@) == Some(
            vars@.map_values(|v: Var| v@),
        ),
        r is Err ==> parse_vars_spec(content@) is None,
{
    let s = chars_of(content.as_str());
    let mut vars: Vec<Var> = Vec::new();
    let mut i: usize = 0;
    while i < s.len()
        invariant
            i <= s.len(),
            s@ == content@,
            parse_vars_spec(s@) == match parse_vars_from(s@, i as int) {
                Some(rest) => Some(vars@.map_values(|v: Var| v@) + rest),
                None => None::<Seq<(Seq<char>, Seq<char>)>>,
            },
        decreases s.len() - i,
    {
        let a = skip_whitespace(&s, i);
        let b = scan_name(&s, a);
        let c = skip_whitespace(&s, b);
        if c >= s.len() || s[c] != '=' {
            return Err(ParseVarsError::ExpectedEquals);
        }
        let d = skip_whitespace(&s, c + 1);
        let (value, e) = if d < s.len() && s[d] == '"' {
            let q = scan_quote(&s, d + 1);
            let v = slice_chars(&s, d + 1, q);
            (v, if q < s.len() { q + 1 } else { q })
        } else {
            let q = find_word_end(&s, d);
            (slice_chars(&s, d, q), q)
        };
        proof {
            lemma_var_value_bounds(s@, d as int);
        }
        assert(var_value(s@, d as int) == (value@, e as int));
        let f = skip_whitespace(&s, e);
        let name = slice_chars(&s, a, b);
        let var = Var::new(string_of(&name), string_of(&value));
        let ghost before = vars@.map_values(|v: Var| v@);
        vars.push(var);
        assert(vars@.map_values(|v: Var| v@) =~= before.push(var@));
        proof {
            match parse_vars_from(s@, f as int) {
                Some(rest) => {
                    assert(before + (seq![var@] + rest) =~= before.push(var@) + rest);
                },
                None => {},
            }
        }
        i = f;
    }
    Ok(vars)
}

/// The keywords that can start a user command.
#[derive(Debug, PartialEq, Eq, Structural)]
pub enum WKeyword {
    Add,
    Edit,
    Delete,
    List,
    Search,
    Open,
    Run,
    NoKeyword,
}

/// The keyword named by an already lowercased word.
pub open spec fn keyword_of(lower: Seq<char>) -> WKeyword {
    if lower == "add"@ {
        WKeyword::Add
    } else if lower == "edit"@ {
        WKeyword::Edit
    } else if lower == "delete"@ {
        WKeyword::Delete
    } else if lower == "list"@ {
        WKeyword::List
    } else if lower == "search"@ {
        WKeyword::Search
    } else if lower == "open"@ {
        WKeyword::Open
    } else if lower == "run"@ {
        WKeyword::Run
    } else {
        WKeyword::NoKeyword
    }
}

/// The keyword named by a word that is already in lowercase.
pub fn keyword_of_lowercase(lower: &String) -> (k: WKeyword)
    ensures
        k == keyword_of(lower@),
{
    if *lower == String::from_str("add") {
        WKeyword::Add
    } else if *lower == String::from_str("edit") {
        WKeyword::Edit
    } else if *lower == String::from_str("delete") {
        WKeyword::Delete
    } else if *lower == String::from_str("list") {
        WKeyword::List
    } else if *lower == String::from_str("search") {
        WKeyword::Search
    } else if *lower == String::from_str("open") {
        WKeyword::Open
    } else if *lower == String::from_str("run") {
        WKeyword::Run
    } else {
        WKeyword::NoKeyword
    }
}

impl<'a> From<&'a str> for WKeyword {
    /// The keyword named by `s`, in any case.
    fn from(s: &'a str) -> (k: WKeyword) {
        keyword_of_lowercase(&to_lowercase(s))
    }
}

impl From<String> for WKeyword {
    /// The keyword named by `s`, in any case.
    fn from(s: String) -> (k: WKeyword) {
        keyword_of_lowercase(&to_lowercase(s.as_str()))
    }
}

impl vstd::std_specs::convert::FromSpecImpl<String> for WKeyword {
    open spec fn obeys_from_spec() -> bool {
        true
    }

    open spec fn from_spec(s: String) -> WKeyword {
        keyword_of(lowercase_of(s@))
    }
}

impl<'a> vstd::std_specs::convert::FromSpecImpl<&'a str> for WKeyword {
    open spec fn obeys_from_spec() -> bool {
        true
    }

    open spec fn from_spec(s: &'a str) -> WKeyword {
        keyword_of(lowercase_of(s@))
    }
}


/// A parsed user command: its keyword and the rest of the text.
pub type WCPResult = (WKeyword, String);

/// What `parse_command_str` gives for `s`: the first word names the keyword
/// (case does not matter); the content is the text after that word, or, when
/// the word is no keyword, the whole text; leading and trailing whitespace is
/// removed from the content.
pub open spec fn parse_command_spec(s: Seq<char>) -> (WKeyword, Seq<char>) {
    let a = skip_ws(s, 0);
    let b = word_end(s, a);
    let keyword = keyword_of(lowercase_of(s.subrange(a, b)));
    let content = if keyword == WKeyword::NoKeyword {
        trim(s.subrange(a, s.len() as int))
    } else {
        trim(s.subrange(b, s.len() as int))
    };
    (keyword, content)
}

/// Parses a user command into its keyword and its content.
pub fn parse_command_str(command: String) -> (r: WCPResult)
    ensures
        (r.0, r.1@) == parse_command_spec(command@),
{
    let s = chars_of(command.as_str());
    let a = skip_whitespace(&s, 0);
    let b = find_word_end(&s, a);
    let word = string_of(&slice_chars(&s, a, b));
    let keyword = keyword_of_lowercase(&to_lowercase(word.as_str()));
    let rest = match keyword {
        WKeyword::NoKeyword => slice_chars(&s, a, s.len()),
        _ => slice_chars(&s, b, s.len()),
    };
    let content = string_of(&trim_chars(&rest));
    (keyword, content)
}

} // verus!
