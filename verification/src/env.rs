//! User variables (`browser`, `editor`, `search_engine`, ...), read from the
//! vars file.
use crate::text::{lowercase_of, to_lowercase};
use vstd::prelude::*;

verus! {

/// A named variable and its value.
#[derive(Debug)]
pub struct Var {
    name: String,
    value: String,
}

impl View for Var {
    type V = (Seq<char>, Seq<char>);

    closed spec fn view(&self) -> (Seq<char>, Seq<char>) {
        (self.name@, self.value@)
    }
}

impl Var {
    pub fn new(name: String, value: String) -> (v: Var)
        ensures
            v@ == (name@, value@),
    {
        Var { name, value }
    }

    pub fn name(&self) -> (s: &str)
        ensures
            s@ == self@.0,
    {
        self.name.as_str()
    }

    pub fn value(&self) -> (s: &str)
        ensures
            s@ == self@.1,
    {
        self.value.as_str()
    }

    pub fn set_value(&mut self, new_value: String)
        ensures
            final(self)@ == (old(self)@.0, new_value@),
    {
        self.value = new_value;
    }
}

/// The index of the first variable at or after `i` whose name, in lowercase,
/// is `key`.
pub open spec fn find_var_from(vars: Seq<(Seq<char>, Seq<char>)>, key: Seq<char>, i: int) -> Option<int>
    decreases vars.len() - i,
{
    if i < 0 || i >= vars.len() {
        None
    } else if lowercase_of(vars[i].0) == key {
        Some(i)
    } else {
        find_var_from(vars, key, i + 1)
    }
}

/// The index of the first variable whose name, in lowercase, is `key`.
pub open spec fn find_var(vars: Seq<(Seq<char>, Seq<char>)>, key: Seq<char>) -> Option<int> {
    find_var_from(vars, key, 0)
}

/// The value of the first variable whose name, in lowercase, is `key`.
pub open spec fn lookup(vars: Seq<(Seq<char>, Seq<char>)>, key: Seq<char>) -> Option<Seq<char>> {
    match find_var(vars, key) {
        Some(i) => Some(vars[i].1),
        None => None,
    }
}

/// `vars` after giving the first variable whose name, in lowercase, is `key`
/// the value `value`; unchanged when there is no such variable.
pub open spec fn assign(vars: Seq<(Seq<char>, Seq<char>)>, key: Seq<char>, value: Seq<char>) -> Seq<(Seq<char>, Seq<char>)> {
    match find_var(vars, key) {
        Some(i) => vars.update(i, (vars[i].0, value)),
        None => vars,
    }
}

pub proof fn lemma_find_var_from(vars: Seq<(Seq<char>, Seq<char>)>, key: Seq<char>, i: int)
    requires
        0 <= i,
    ensures
        find_var_from(vars, key, i) matches Some(j) ==> i <= j < vars.len() && lowercase_of(
            vars[j].0,
        ) == key && forall|k: int| i <= k < j ==> lowercase_of(#[trigger] vars[k].0) != key,
        find_var_from(vars, key, i) is None ==> forall|k: int|
            i <= k < vars.len() ==> lowercase_of(#[trigger] vars[k].0) != key,
    decreases vars.len() - i,
{
    if i < vars.len() && lowercase_of(vars[i].0) != key {
        lemma_find_var_from(vars, key, i + 1);
    }
}

/// Changing a value keeps every name, so every lookup finds the same index.
proof fn lemma_assign_keeps_indices(
    vars: Seq<(Seq<char>, Seq<char>)>,
    i: int,
    value: Seq<char>,
    key: Seq<char>,
    j: int,
)
    requires
        0 <= i < vars.len(),
        0 <= j,
    ensures
        find_var_from(vars.update(i, (vars[i].0, value)), key, j) == find_var_from(vars, key, j),
    decreases vars.len() - j,
{
    let w = vars.update(i, (vars[i].0, value));
    if j < vars.len() {
        assert(w[j].0 == vars[j].0);
        lemma_assign_keeps_indices(vars, i, value, key, j + 1);
    }
}

/// Reading a variable after setting it gives the value set; the other
/// variables keep their values; setting a variable that does not exist
/// changes nothing.
pub proof fn law_lookup_after_assign(
    vars: Seq<(Seq<char>, Seq<char>)>,
    key: Seq<char>,
    value: Seq<char>,
    other: Seq<char>,
)
    ensures
        find_var(vars, key) is Some ==> lookup(assign(vars, key, value), key) == Some(value),
        other != key ==> lookup(assign(vars, key, value), other) == lookup(vars, other),
        find_var(vars, key) is None ==> assign(vars, key, value) == vars,
        assign(vars, key, value).len() == vars.len(),
{
    lemma_find_var_from(vars, key, 0);
    match find_var(vars, key) {
        Some(i) => {
            lemma_assign_keeps_indices(vars, i, value, key, 0);
            lemma_assign_keeps_indices(vars, i, value, other, 0);
            lemma_find_var_from(vars, other, 0);
            if other != key {
                match find_var(vars, other) {
                    Some(j) => {
                        assert(j != i);
                    },
                    None => {},
                }
            }
        },
        None => {},
    }
}

/// All the variables, in the order of the vars file.
pub struct Vars(Vec<Var>);

impl View for Vars {
    type V = Seq<(Seq<char>, Seq<char>)>;

    closed spec fn view(&self) -> Seq<(Seq<char>, Seq<char>)> {
        self.0@.map_values(|v: Var| v@)
    }
}

impl Vars {
    /// The variables in the given order.
    pub fn from_vars(vars: Vec<Var>) -> (r: Vars)
        ensures
            r@ == vars@.map_values(|v: Var| v@),
    {
        Vars(vars)
    }

    /// The index of the first variable whose name has the same lowercase form
    /// as `name`.
    fn index_of(&self, name: &str) -> (r: Option<usize>)
        ensures
            r matches Some(i) ==> find_var(self@, lowercase_of(name@)) == Some(i as int) && i
                < self@.len(),
            r is None ==> find_var(self@, lowercase_of(name@)) is None,
    {
        let name_l = to_lowercase(name);
        proof {
            lemma_find_var_from(self@, name_l@, 0);
        }
        let mut i: usize = 0;
        while i < self.0.len()
            invariant
                i <= self.0.len(),
                name_l@ == lowercase_of(name@),
                find_var_from(self@, name_l@, i as int) == find_var(self@, name_l@),
            decreases self.0.len() - i,
        {
            assert(self@[i as int] == self.0@[i as int]@);
            if name_l == to_lowercase(self.0[i].name()) {
                return Some(i);
            }
            i = i + 1;
        }
        None
    }

    /// The value of the first variable whose name has the same lowercase
    /// form as `name` (`Browser` and `browser` name the same variable).
    pub fn value_of(&self, name: &str) -> (r: Option<String>)
        ensures
            r matches Some(v) ==> lookup(self@, lowercase_of(name@)) == Some(v@),
            r is None ==> lookup(self@, lowercase_of(name@)) is None,
    {
        match self.index_of(name) {
            Some(i) => {
                assert(self@[i as int] == self.0@[i as int]@);
                Some(String::from_str(self.0[i].value()))
            },
            None => None,
        }
    }

    /// Gives the first variable whose name has the same lowercase form as
    /// `name` the value `value`; does nothing when there is no such variable.
    pub fn set_var(&mut self, name: &str, value: &str)
        ensures
            final(self)@ == assign(old(self)@, lowercase_of(name@), value@),
    {
        let idx = self.index_of(name);
        if let Some(i) = idx {
            let ghost before = self@;
            let ghost vec_before = self.0@;
            let mut var = self.0.remove(i);
            assert(var@ == before[i as int]);
            var.set_value(String::from_str(value));
            self.0.insert(i, var);
            assert(self.0@ =~= vec_before.update(i as int, var));
            assert(self@ =~= before.update(i as int, (before[i as int].0, value@)));
        }
    }
}

impl Vars {
    /// The variables given the content of the vars file, or the defaults
    /// (`browser = firefox`, `editor = vi`) when there is no such file.
    pub fn load(content: Option<String>) -> (r: Result<Vars, crate::parser::ParseVarsError>)
        ensures
            content is None ==> (r matches Ok(v) && v@ == default_vars()),
            content matches Some(c) ==> match crate::parser::parse_vars_spec(c@) {
                Some(vs) => (r matches Ok(v) && v@ == vs),
                None => r is Err,
            },
    {
        match content {
            None => Ok(Vars::default()),
            Some(c) => match crate::parser::parse_vars(c) {
                Ok(vars) => Ok(Vars::from_vars(vars)),
                Err(e) => Err(e),
            },
        }
    }
}

/// The variables when there is no vars file.
pub open spec fn default_vars() -> Seq<(Seq<char>, Seq<char>)> {
    seq![("browser"@, "firefox"@), ("editor"@, "vi"@)]
}

impl Default for Vars {
    fn default() -> (r: Vars)
        ensures
            r@ == default_vars(),
    {
        let mut vars: Vec<Var> = Vec::new();
        vars.push(Var::new(String::from_str("browser"), String::from_str("firefox")));
        vars.push(Var::new(String::from_str("editor"), String::from_str("vi")));
        let r = Vars(vars);
        assert(r@ =~= seq![("browser"@, "firefox"@), ("editor"@, "vi"@)]);
        r
    }
}

} // verus!
