//! Where wydy keeps its files, and the address the daemon listens on.
use crate::number::{parse_int_spec, parse_u16};
use crate::text::{chars_of, concat, slice_chars, string_of};
use vstd::prelude::*;

verus! {

/// The configuration directory: `$XDG_HOME_DIR/wydy` when that variable is
/// set, else `$HOME/.config/wydy` when `$HOME/.config` exists, else
/// `$HOME/.wydy`.
pub open spec fn config_dir_spec(xdg_home_dir: Option<Seq<char>>, home: Seq<char>, home_config_exists: bool) -> Seq<char> {
    match xdg_home_dir {
        Some(d) => d + "/wydy"@,
        None => if home_config_exists {
            home + "/.config/wydy"@
        } else {
            home + "/.wydy"@
        },
    }
}

/// The configuration directory, given `$XDG_HOME_DIR` (if set), `$HOME`,
/// and whether `$HOME/.config` exists.
pub fn config_dir(xdg_home_dir: Option<&str>, home: &str, home_config_exists: bool) -> (dir: String)
    ensures
        dir@ == config_dir_spec(
            match xdg_home_dir {
                Some(d) => Some(d@),
                None => None,
            },
            home@,
            home_config_exists,
        ),
{
    match xdg_home_dir {
        Some(d) => concat(d, "/wydy"),
        None => if home_config_exists {
            concat(home, "/.config/wydy")
        } else {
            concat(home, "/.wydy")
        },
    }
}

/// The port the daemon listens on when none is given.
pub const DEFAULT_PORT: u16 = 9654;

/// The index of the first `:` at or after `i`, or `s.len()`.
pub open spec fn colon_at(s: Seq<char>, i: int) -> int
    decreases s.len() - i,
{
    if i < 0 || i >= s.len() {
        if i < 0 { 0 } else { i }
    } else if s[i] == ':' {
        i
    } else {
        colon_at(s, i + 1)
    }
}

pub proof fn lemma_colon_at_bounds(s: Seq<char>, i: int)
    requires
        0 <= i <= s.len(),
    ensures
        i <= colon_at(s, i) <= s.len(),
    decreases s.len() - i,
{
    if i < s.len() && s[i] != ':' {
        lemma_colon_at_bounds(s, i + 1);
    }
}

/// The address in `addr`: the text before the first `:` is the host; the
/// text after it, up to a second `:`, is the port, or 9654 when it is
/// missing or no `u16`.
pub open spec fn address_spec(addr: Seq<char>) -> (Seq<char>, u16) {
    let c = colon_at(addr, 0);
    let host = addr.subrange(0, c);
    if c >= addr.len() {
        (host, 9654)
    } else {
        let e = colon_at(addr, c + 1);
        match parse_int_spec(addr.subrange(c + 1, e), false, 0, 65535) {
            Some(p) => (host, p as u16),
            None => (host, 9654),
        }
    }
}

/// Reads the `ADDRESS` argument of the daemon (`host:port`).
pub fn parse_address(addr: &str) -> (r: (String, u16))
    ensures
        (r.0@, r.1) == address_spec(addr@),
{
    let s = chars_of(addr);
    proof {
        lemma_colon_at_bounds(s@, 0);
    }
    let c = find_colon(&s, 0);
    let host = string_of(&slice_chars(&s, 0, c));
    if c >= s.len() {
        return (host, DEFAULT_PORT);
    }
    let e = find_colon(&s, c + 1);
    let port = string_of(&slice_chars(&s, c + 1, e));
    match parse_u16(port.as_str()) {
        Some(p) => (host, p),
        None => (host, DEFAULT_PORT),
    }
}

fn find_colon(s: &Vec<char>, i: usize) -> (j: usize)
    requires
        i <= s.len(),
    ensures
        j == colon_at(s@, i as int),
        i <= j <= s.len(),
{
    let mut j = i;
    proof {
        lemma_colon_at_bounds(s@, i as int);
    }
    while j < s.len() && s[j] != ':'
        invariant
            i <= j <= s.len(),
            colon_at(s@, j as int) == colon_at(s@, i as int),
        decreases s.len() - j,
    {
        j = j + 1;
    }
    j
}

} // verus!
