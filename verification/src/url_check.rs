//! Recognising text that looks like a URL.
use verex::Verex;
use vstd::prelude::*;

verus! {

/// A character of the class `[a-z0-9]`.
pub open spec fn is_url_word_char(c: char) -> bool {
    ('a' as u32 <= c as u32 <= 'z' as u32) || ('0' as u32 <= c as u32 <= '9' as u32)
}

/// A character of the class `[a-z0-9/.?=@%]`.
pub open spec fn is_url_tail_char(c: char) -> bool {
    is_url_word_char(c) || c == '/' || c == '.' || c == '?' || c == '=' || c == '@' || c == '%'
}

/// Whether `s` contains, somewhere, a character of `[a-z0-9]`, then a dot,
/// then a character of `[a-z0-9/.?=@%]`.
pub open spec fn looks_like_url(s: Seq<char>) -> bool {
    exists|i: int|
        0 <= i && i + 2 < s.len() && #[trigger] is_url_word_char(s[i]) && s[i + 1] == '.'
            && is_url_tail_char(s[i + 2])
}

/// A character that means nothing special to the regular expression syntax,
/// once `verex` has escaped it: an ASCII letter or digit, or one of
/// `: / . ? = @ %`.
pub open spec fn plain_pattern_char(c: char) -> bool {
    ('a' as u32 <= c as u32 <= 'z' as u32) || ('A' as u32 <= c as u32 <= 'Z' as u32) || (
    '0' as u32 <= c as u32 <= '9' as u32) || c == ':' || c == '/' || c == '.' || c == '?' || c
        == '=' || c == '@' || c == '%'
}

/// A non-empty text of plain pattern characters.
pub open spec fn plain_literal(s: Seq<char>) -> bool {
    s.len() > 0 && forall|i: int| 0 <= i < s.len() ==> plain_pattern_char(#[trigger] s[i])
}

/// A non-empty list of character ranges, each with plain bounds in order.
pub open spec fn plain_ranges(r: Seq<(char, char)>) -> bool {
    r.len() > 0 && forall|j: int|
        0 <= j < r.len() ==> plain_pattern_char((#[trigger] r[j]).0) && plain_pattern_char(r[j].1)
            && (r[j].0 as u32) <= (r[j].1 as u32)
}

/// Whether `c` lies in one of the ranges of `r`.
pub open spec fn in_ranges(r: Seq<(char, char)>, c: char) -> bool {
    exists|j: int| 0 <= j < r.len() && (r[j].0 as u32) <= (c as u32) <= (#[trigger] r[j].1 as u32)
}

/// Whether `s` contains, somewhere, a character of the ranges `first`, then
/// the text `sep`, then a character of the ranges `second`.
pub open spec fn class_sep_class_found(first: Seq<(char, char)>, sep: Seq<char>, second: Seq<(char, char)>, s: Seq<char>) -> bool {
    exists|i: int|
        0 <= i && i + sep.len() + 1 < s.len() && #[trigger] in_ranges(first, s[i]) && s.subrange(
            i + 1,
            i + 1 + sep.len(),
        ) == sep && in_ranges(second, s[i + 1 + sep.len()])
}

/// Builds with `verex` the expression `(?:(?:o1)?...(?:on)?[first](?:sep)[second])`
/// from the optional texts `optional`, the ranges `first`, the text `sep` and
/// the ranges `second` (`Verex::maybe`, `Verex::range`, `Verex::find`,
/// `Verex::compile`), and searches `text` for it with `Regex::is_match`.
/// `verex` escapes the texts and writes each range as `a-b` in a class; the
/// expression has no flags and no anchor, so it is found anywhere in the text.
/// The optional parts can match the empty text, so the expression is found
/// exactly where a character of `first`, then `sep`, then a character of
/// `second` is found: the contract states that, and the optional texts do not
/// change the result. The plain characters that the contract requires keep
/// the expression valid, so `compile` does not fail.
#[verifier::external_body]
fn verex_pattern_found(
    optional: &Vec<&str>,
    first: &Vec<(char, char)>,
    sep: &str,
    second: &Vec<(char, char)>,
    text: &str,
) -> (b: bool)
    requires
        forall|j: int| 0 <= j < optional@.len() ==> plain_literal(#[trigger] optional@[j]@),
        plain_literal(sep@),
        plain_ranges(first@),
        plain_ranges(second@),
    ensures
        b == class_sep_class_found(first@, sep@, second@, text@),
{
    let mut verex = Verex::new();
    for o in optional.iter() {
        verex.maybe(o);
    }
    verex.range(first.clone()).find(sep).range(second.clone());
    verex.compile().unwrap().is_match(text)
}

/// The ranges of `[a-z0-9]`.
pub open spec fn word_ranges() -> Seq<(char, char)> {
    seq![('a', 'z'), ('0', '9')]
}

/// The ranges of `[a-z0-9/.?=@%]`.
pub open spec fn tail_ranges() -> Seq<(char, char)> {
    seq![('a', 'z'), ('0', '9'), ('/', '/'), ('.', '.'), ('?', '?'), ('=', '='), ('@', '@'), ('%', '%')]
}

proof fn lemma_word_ranges(c: char)
    ensures
        in_ranges(word_ranges(), c) == is_url_word_char(c),
{
    let r = word_ranges();
    if 'a' as u32 <= c as u32 <= 'z' as u32 {
        assert(r[0].1 == 'z');
    } else if '0' as u32 <= c as u32 <= '9' as u32 {
        assert(r[1].1 == '9');
    }
}

proof fn lemma_tail_ranges(c: char)
    ensures
        in_ranges(tail_ranges(), c) == is_url_tail_char(c),
{
    let r = tail_ranges();
    if 'a' as u32 <= c as u32 <= 'z' as u32 {
        assert(r[0].1 == 'z');
    } else if '0' as u32 <= c as u32 <= '9' as u32 {
        assert(r[1].1 == '9');
    } else if c == '/' {
        assert(r[2].1 == '/');
    } else if c == '.' {
        assert(r[3].1 == '.');
    } else if c == '?' {
        assert(r[4].1 == '?');
    } else if c == '=' {
        assert(r[5].1 == '=');
    } else if c == '@' {
        assert(r[6].1 == '@');
    } else if c == '%' {
        assert(r[7].1 == '%');
    }
}

/// Whether `url` looks like a URL: somewhere in it, a character of
/// `[a-z0-9]`, a dot, and a character of `[a-z0-9/.?=@%]`, as the expression
/// `(?:http)?(?:s)?(?:://)?(?:www\.)?[a-z0-9]\.[a-z0-9/.?=@%]` finds.
pub fn is_url(url: &str) -> (b: bool)
    ensures
        b == looks_like_url(url@),
{
    let mut optional: Vec<&str> = Vec::new();
    optional.push("http");
    optional.push("s");
    optional.push("://");
    optional.push("www.");
    let mut first: Vec<(char, char)> = Vec::new();
    first.push(('a', 'z'));
    first.push(('0', '9'));
    let mut second: Vec<(char, char)> = Vec::new();
    second.push(('a', 'z'));
    second.push(('0', '9'));
    second.push(('/', '/'));
    second.push(('.', '.'));
    second.push(('?', '?'));
    second.push(('=', '='));
    second.push(('@', '@'));
    second.push(('%', '%'));
    proof {
        reveal_strlit("http");
        reveal_strlit("s");
        reveal_strlit("://");
        reveal_strlit("www.");
        reveal_strlit(".");
        assert(first@ =~= word_ranges());
        assert(second@ =~= tail_ranges());
        assert forall|j: int| 0 <= j < optional@.len() implies plain_literal(
            #[trigger] optional@[j]@,
        ) by {
            if j == 0 {
                assert(optional@[0]@ == "http"@);
            } else if j == 1 {
                assert(optional@[1]@ == "s"@);
            } else if j == 2 {
                assert(optional@[2]@ == "://"@);
            } else {
                assert(optional@[3]@ == "www."@);
            }
        }
    }
    let b = verex_pattern_found(&optional, &first, ".", &second, url);
    proof {
        let s = url@;
        let sep = "."@;
        if looks_like_url(s) {
            let i = choose|i: int|
                0 <= i && i + 2 < s.len() && #[trigger] is_url_word_char(s[i]) && s[i + 1] == '.'
                    && is_url_tail_char(s[i + 2]);
            lemma_word_ranges(s[i]);
            lemma_tail_ranges(s[i + 2]);
            assert(s.subrange(i + 1, i + 2) =~= sep);
            assert(class_sep_class_found(word_ranges(), sep, tail_ranges(), s));
        }
        if class_sep_class_found(word_ranges(), sep, tail_ranges(), s) {
            let i = choose|i: int|
                0 <= i && i + sep.len() + 1 < s.len() && #[trigger] in_ranges(
                    word_ranges(),
                    s[i],
                ) && s.subrange(i + 1, i + 1 + sep.len()) == sep && in_ranges(
                    tail_ranges(),
                    s[i + 1 + sep.len()],
                );
            lemma_word_ranges(s[i]);
            lemma_tail_ranges(s[i + 2]);
            assert(s[i + 1] == s.subrange(i + 1, i + 2)[0]);
            assert(looks_like_url(s));
        }
    }
    b
}

} // verus!
