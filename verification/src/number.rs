//! Decimal integers: parsing them as `str::parse` does, and writing them as
//! `{}` formatting does.
use vstd::prelude::*;

verus! {

pub open spec fn is_digit(c: char) -> bool {
    '0' as u32 <= c as u32 <= '9' as u32
}

pub open spec fn digit_value(c: char) -> int {
    c as u32 - '0' as u32
}

pub open spec fn all_digits(d: Seq<char>) -> bool {
    forall|i: int| 0 <= i < d.len() ==> is_digit(#[trigger] d[i])
}

/// The value of a string of decimal digits.
pub open spec fn digits_value(d: Seq<char>) -> int
    decreases d.len(),
{
    if d.len() == 0 {
        0
    } else {
        digits_value(d.drop_last()) * 10 + digit_value(d.last())
    }
}

/// What `str::parse` gives for an integer type whose values are `lo..=hi`
/// (`signed` for the types that accept a leading `-`): an optional sign,
/// then one or more decimal digits, and a value in range.
pub open spec fn parse_int_spec(s: Seq<char>, signed: bool, lo: int, hi: int) -> Option<int> {
    if s.len() == 0 {
        None
    } else {
        let neg = signed && s[0] == '-';
        let d = if neg || s[0] == '+' {
            s.drop_first()
        } else {
            s
        };
        let v = if neg {
            -digits_value(d)
        } else {
            digits_value(d)
        };
        if d.len() == 0 || !all_digits(d) || v < lo || v > hi {
            None
        } else {
            Some(v)
        }
    }
}

pub proof fn lemma_digits_value_nonneg(d: Seq<char>)
    requires
        all_digits(d),
    ensures
        digits_value(d) >= 0,
    decreases d.len(),
{
    if d.len() > 0 {
        assert(all_digits(d.drop_last())) by {
            assert forall|i: int| 0 <= i < d.drop_last().len() implies is_digit(
                #[trigger] d.drop_last()[i],
            ) by {
                assert(d.drop_last()[i] == d[i]);
            }
        }
        lemma_digits_value_nonneg(d.drop_last());
        assert(is_digit(d[d.len() - 1]));
    }
}

/// A string of digits is worth at least any of its prefixes.
pub proof fn lemma_digits_value_prefix(d: Seq<char>, n: int)
    requires
        all_digits(d),
        0 <= n <= d.len(),
    ensures
        digits_value(d.subrange(0, n)) <= digits_value(d),
    decreases d.len(),
{
    if n < d.len() {
        let p = d.drop_last();
        assert(all_digits(p)) by {
            assert forall|i: int| 0 <= i < p.len() implies is_digit(#[trigger] p[i]) by {
                assert(p[i] == d[i]);
            }
        }
        lemma_digits_value_prefix(p, n);
        assert(p.subrange(0, n) == d.subrange(0, n));
        lemma_digits_value_nonneg(p);
        assert(is_digit(d[d.len() - 1]));
    } else {
        assert(d.subrange(0, n) == d);
    }
}

/// Parses an optionally signed decimal integer in `lo..=hi`.
fn parse_int(s: &Vec<char>, signed: bool, lo: i64, hi: i64) -> (r: Option<i64>)
    requires
        -0x8000_0000 <= lo <= 0 <= hi < 0x8000_0000,
    ensures
        r matches Some(v) ==> parse_int_spec(s@, signed, lo as int, hi as int) == Some(v as int),
        r is None ==> parse_int_spec(s@, signed, lo as int, hi as int) is None,
{
    if s.len() == 0 {
        return None;
    }
    let neg = signed && s[0] == '-';
    let start: usize = if neg || s[0] == '+' { 1 } else { 0 };
    let ghost d = s@.subrange(start as int, s.len() as int);
    assert(d == if neg || s@[0] == '+' { s@.drop_first() } else { s@ });
    if start == s.len() {
        return None;
    }
    let bound: u64 = if neg { (0 - lo) as u64 } else { hi as u64 };
    let mut m: u64 = 0;
    let mut i: usize = start;
    while i < s.len()
        invariant
            start <= i <= s.len(),
            s.len() > 0,
            neg == (signed && s@[0] == '-'),
            start == (if neg || s@[0] == '+' { 1int } else { 0int }),
            bound == (if neg { -lo } else { hi as int }),
            d == s@.subrange(start as int, s.len() as int),
            d == (if neg || s@[0] == '+' { s@.drop_first() } else { s@ }),
            bound < 0x8000_0001,
            m <= bound,
            m == digits_value(d.subrange(0, i - start)),
            all_digits(d.subrange(0, i - start)),
        decreases s.len() - i,
    {
        let c = s[i];
        let u = c as u32;
        assert(u == c as u32);
        if !(48 <= u && u <= 57) {
            assert(!is_digit(d[i - start]));
            return None;
        }
        let ghost before = d.subrange(0, i - start);
        let ghost after = d.subrange(0, i + 1 - start);
        assert(after.drop_last() == before);
        assert(after.last() == c);
        m = m * 10 + (u as u64 - 48);
        assert(digit_value(c) == u - 48);
        assert(m == digits_value(after));
        assert(all_digits(after)) by {
            assert forall|j: int| 0 <= j < after.len() implies is_digit(#[trigger] after[j]) by {
                if j < before.len() {
                    assert(after[j] == before[j]);
                }
            }
        }
        if m > bound {
            proof {
                if all_digits(d) {
                    lemma_digits_value_prefix(d, i + 1 - start);
                }
            }
            return None;
        }
        i = i + 1;
    }
    assert(d.subrange(0, d.len() as int) == d);
    if neg {
        Some(0 - (m as i64))
    } else {
        Some(m as i64)
    }
}

/// Parses a `u8` as `str::parse::<u8>` does.
pub fn parse_u8(s: &str) -> (r: Option<u8>)
    ensures
        r matches Some(v) ==> parse_int_spec(s@, false, 0, 255) == Some(v as int),
        r is None ==> parse_int_spec(s@, false, 0, 255) is None,
{
    match parse_int(&crate::text::chars_of(s), false, 0, 255) {
        Some(v) => Some(v as u8),
        None => None,
    }
}

/// Parses a `u16` as `str::parse::<u16>` does.
pub fn parse_u16(s: &str) -> (r: Option<u16>)
    ensures
        r matches Some(v) ==> parse_int_spec(s@, false, 0, 65535) == Some(v as int),
        r is None ==> parse_int_spec(s@, false, 0, 65535) is None,
{
    match parse_int(&crate::text::chars_of(s), false, 0, 65535) {
        Some(v) => Some(v as u16),
        None => None,
    }
}

/// Parses an `i32` as `str::parse::<i32>` does.
pub fn parse_i32(s: &str) -> (r: Option<i32>)
    ensures
        r matches Some(v) ==> parse_int_spec(s@, true, i32::MIN as int, i32::MAX as int) == Some(
            v as int,
        ),
        r is None ==> parse_int_spec(s@, true, i32::MIN as int, i32::MAX as int) is None,
{
    match parse_int(&crate::text::chars_of(s), true, -0x8000_0000, 0x7fff_ffff) {
        Some(v) => Some(v as i32),
        None => None,
    }
}

pub open spec fn digit_char(n: int) -> char {
    if n <= 0 {
        '0'
    } else if n == 1 {
        '1'
    } else if n == 2 {
        '2'
    } else if n == 3 {
        '3'
    } else if n == 4 {
        '4'
    } else if n == 5 {
        '5'
    } else if n == 6 {
        '6'
    } else if n == 7 {
        '7'
    } else if n == 8 {
        '8'
    } else {
        '9'
    }
}

/// The decimal digits of `n`, without leading zeros.
pub open spec fn nat_to_dec(n: nat) -> Seq<char>
    decreases n,
{
    if n < 10 {
        seq![digit_char(n as int)]
    } else {
        nat_to_dec(n / 10).push(digit_char((n % 10) as int))
    }
}

/// How `{}` writes an integer: a `-` for a negative one, then its digits.
pub open spec fn int_to_dec(n: int) -> Seq<char> {
    if n < 0 {
        seq!['-'] + nat_to_dec((-n) as nat)
    } else {
        nat_to_dec(n as nat)
    }
}

fn push_decimal(out: &mut Vec<char>, n: u64)
    ensures
        final(out)@ == old(out)@ + nat_to_dec(n as nat),
    decreases n,
{
    if n < 10 {
        out.push(char_from_digit(n));
    } else {
        push_decimal(out, n / 10);
        out.push(char_from_digit(n % 10));
    }
}

fn char_from_digit(n: u64) -> (c: char)
    requires
        n < 10,
    ensures
        c == digit_char(n as int),
{
    let c = match n {
        0 => '0',
        1 => '1',
        2 => '2',
        3 => '3',
        4 => '4',
        5 => '5',
        6 => '6',
        7 => '7',
        8 => '8',
        _ => '9',
    };
    c
}

/// Writes an `i32` as `{}` formatting does.
pub fn format_i32(n: i32) -> (s: String)
    ensures
        s@ == int_to_dec(n as int),
{
    let mut out: Vec<char> = Vec::new();
    if n < 0 {
        out.push('-');
        let m: i64 = 0 - (n as i64);
        push_decimal(&mut out, m as u64);
    } else {
        push_decimal(&mut out, n as u64);
    }
    crate::text::string_of(&out)
}

pub proof fn lemma_nat_to_dec(n: nat)
    ensures
        all_digits(nat_to_dec(n)),
        digits_value(nat_to_dec(n)) == n,
        nat_to_dec(n).len() > 0,
    decreases n,
{
    if n < 10 {
        assert(digit_value(digit_char(n as int)) == n);
        assert(nat_to_dec(n).drop_last() =~= Seq::<char>::empty());
        assert(digits_value(Seq::<char>::empty()) == 0);
        assert(digits_value(nat_to_dec(n)) == n);
    } else {
        lemma_nat_to_dec(n / 10);
        let d = nat_to_dec(n);
        assert(d.drop_last() == nat_to_dec(n / 10));
        assert(digit_value(digit_char((n % 10) as int)) == n % 10);
        assert(d.last() == digit_char((n % 10) as int));
        assert(digits_value(d) == digits_value(d.drop_last()) * 10 + digit_value(d.last()));
        assert(digits_value(d.drop_last()) == n / 10);
        assert(digits_value(d) == n);
        vstd::arithmetic::div_mod::lemma_fundamental_div_mod(n as int, 10);
        assert forall|i: int| 0 <= i < d.len() implies is_digit(#[trigger] d[i]) by {
            if i < d.len() - 1 {
                assert(d[i] == nat_to_dec(n / 10)[i]);
            }
        }
    }
}

/// What `{}` writes for an integer, `str::parse` reads back.
pub proof fn law_parse_int_of_format(n: int, lo: int, hi: int)
    requires
        lo <= n <= hi,
    ensures
        parse_int_spec(int_to_dec(n), true, lo, hi) == Some(n),
{
    let m: nat = if n < 0 { (-n) as nat } else { n as nat };
    lemma_nat_to_dec(m);
    let s = int_to_dec(n);
    if n < 0 {
        assert(s.drop_first() == nat_to_dec(m));
    } else {
        let d = nat_to_dec(m);
        assert(is_digit(d[0]));
    }
}

} // verus!
