//! Recognisers for the number notations that the tool outputs carry:
//! floating-point literals (the grammar that `f64::from_str` accepts),
//! unsigned bytes (`u8::from_str`) and dotted IPv4 addresses
//! (`Ipv4Addr::from_str`).

use vstd::prelude::*;
use crate::text::{split_at_char, split_on, views};

verus! {

// ---------------------------------------------------------------------------
// Digits
// ---------------------------------------------------------------------------

/// An ASCII decimal digit.
pub open spec fn is_digit(c: char) -> bool {
    48 <= (c as u32) && (c as u32) <= 57
}

/// The value of an ASCII decimal digit.
pub open spec fn digit_value(c: char) -> nat {
    ((c as u32) - 48) as nat
}

/// Tests `is_digit`.
pub fn is_digit_char(c: char) -> (b: bool)
    ensures
        b == is_digit(c),
{
    let u = c as u32;
    48 <= u && u <= 57
}

/// Number of ASCII digits at the start of `s`.
pub open spec fn digit_run(s: Seq<char>) -> nat
    decreases s.len(),
{
    if s.len() == 0 || !is_digit(s[0]) {
        0
    } else {
        1 + digit_run(s.drop_first())
    }
}

proof fn lemma_digit_run_at(s: Seq<char>, i: int, j: int)
    requires
        0 <= i <= j <= s.len(),
        forall|k: int| i <= k < j ==> is_digit(s[k]),
        j == s.len() || !is_digit(s[j]),
    ensures
        digit_run(s.skip(i)) == j - i,
    decreases j - i,
{
    if i < j {
        lemma_digit_run_at(s, i + 1, j);
        assert(s.skip(i).drop_first() =~= s.skip(i + 1));
    }
}

/// End of the run of digits that starts at `i`.
fn digits_end(s: &[char], i: usize) -> (j: usize)
    requires
        i <= s@.len(),
    ensures
        i <= j <= s@.len(),
        forall|k: int| i <= k < j ==> is_digit(s@[k]),
        j == s@.len() || !is_digit(s@[j as int]),
        digit_run(s@.skip(i as int)) == j - i,
{
    let mut j: usize = i;
    while j < s.len() && is_digit_char(s[j])
        invariant
            i <= j <= s@.len(),
            forall|k: int| i <= k < j ==> is_digit(s@[k]),
        decreases s@.len() - j,
    {
        j = j + 1;
    }
    proof {
        lemma_digit_run_at(s@, i as int, j as int);
    }
    j
}

/// Every character of `s` is an ASCII digit.
pub open spec fn all_digits(s: Seq<char>) -> bool {
    forall|k: int| 0 <= k < s.len() ==> is_digit(s[k])
}

/// The number that the digits `s` denote.
pub open spec fn digits_value(s: Seq<char>) -> nat
    decreases s.len(),
{
    if s.len() == 0 {
        0
    } else {
        digits_value(s.drop_last()) * 10 + digit_value(s.last())
    }
}

// ---------------------------------------------------------------------------
// Floating-point literals
// ---------------------------------------------------------------------------

/// `c` is the lowercase ASCII letter `lower` in either case.
pub open spec fn letter_ci(c: char, lower: char) -> bool {
    c == lower || (c as u32) + 32 == (lower as u32)
}

/// `s` spells `word` (lowercase ASCII) in any mix of cases.
pub open spec fn spells_ci(s: Seq<char>, word: Seq<char>) -> bool {
    s.len() == word.len() && forall|k: int| 0 <= k < s.len() ==> letter_ci(s[k], word[k])
}

/// `inf`, `infinity` or `nan`, in any case.
pub open spec fn is_special_float(s: Seq<char>) -> bool {
    ||| spells_ci(s, seq!['i', 'n', 'f'])
    ||| spells_ci(s, seq!['i', 'n', 'f', 'i', 'n', 'i', 't', 'y'])
    ||| spells_ci(s, seq!['n', 'a', 'n'])
}

/// `s` without one leading `+` or `-`.
pub open spec fn unsigned_part(s: Seq<char>) -> Seq<char> {
    if s.len() > 0 && (s[0] == '+' || s[0] == '-') {
        s.drop_first()
    } else {
        s
    }
}

/// An exponent suffix: `e` or `E`, an optional sign, then at least one
/// digit and nothing else.
pub open spec fn is_exponent(s: Seq<char>) -> bool {
    s.len() > 0 && (s[0] == 'e' || s[0] == 'E') && {
        let u = unsigned_part(s.drop_first());
        u.len() > 0 && digit_run(u) == u.len()
    }
}

/// `Digit+ | Digit+ '.' Digit* | Digit* '.' Digit+`, then an optional
/// exponent.
pub open spec fn is_decimal_float(s: Seq<char>) -> bool {
    let d = digit_run(s);
    let r = s.skip(d as int);
    if r.len() > 0 && r[0] == '.' {
        let f = digit_run(r.drop_first());
        let after = r.skip((1 + f) as int);
        d + f > 0 && (after.len() == 0 || is_exponent(after))
    } else {
        d > 0 && (r.len() == 0 || is_exponent(r))
    }
}

/// The strings that `f64::from_str` accepts: an optional sign, then `inf`,
/// `infinity`, `nan` (any case) or a decimal number with an optional
/// exponent. No whitespace is allowed.
pub open spec fn is_float_literal(s: Seq<char>) -> bool {
    let b = unsigned_part(s);
    b.len() > 0 && (is_special_float(b) || is_decimal_float(b))
}

fn letter_matches(c: char, lower: char) -> (b: bool)
    requires
        97 <= (lower as u32) <= 122,
    ensures
        b == letter_ci(c, lower),
{
    c == lower || (c as u32) + 32 == (lower as u32)
}

/// Whether `s[from..]` spells `word` in any case.
fn spells_from(s: &[char], from: usize, word: &[char]) -> (b: bool)
    requires
        from <= s@.len(),
        forall|k: int| 0 <= k < word@.len() ==> 97 <= (#[trigger] word@[k] as u32) <= 122,
    ensures
        b == spells_ci(s@.skip(from as int), word@),
{
    let n = s.len();
    if n - from != word.len() {
        return false;
    }
    let mut k: usize = 0;
    while k < word.len()
        invariant
            n == s@.len(),
            from <= s@.len(),
            s@.len() - from == word@.len(),
            0 <= k <= word@.len(),
            forall|k: int| 0 <= k < word@.len() ==> 97 <= (#[trigger] word@[k] as u32) <= 122,
            forall|m: int| 0 <= m < k ==> letter_ci(s@[from + m], word@[m]),
        decreases word@.len() - k,
    {
        assert(from + k < s@.len());
        if !letter_matches(s[from + k], word[k]) {
            assert(s@.skip(from as int)[k as int] == s@[from + k]);
            return false;
        }
        k = k + 1;
    }
    true
}

/// Whether `s[j..]` is an exponent suffix.
fn exponent_from(s: &[char], j: usize) -> (b: bool)
    requires
        j <= s@.len(),
    ensures
        b == is_exponent(s@.skip(j as int)),
{
    let n = s.len();
    let ghost after = s@.skip(j as int);
    if j == n {
        return false;
    }
    if s[j] != 'e' && s[j] != 'E' {
        return false;
    }
    assert(after.drop_first() =~= s@.skip(j + 1));
    let mut k: usize = j + 1;
    if k < n && (s[k] == '+' || s[k] == '-') {
        k = k + 1;
    }
    assert(unsigned_part(after.drop_first()) =~= s@.skip(k as int));
    if k == n {
        return false;
    }
    let e_end = digits_end(s, k);
    e_end == n
}

/// Whether `s[start..]` is a decimal number with an optional exponent.
fn decimal_float_from(s: &[char], start: usize) -> (b: bool)
    requires
        start <= s@.len(),
    ensures
        b == is_decimal_float(s@.skip(start as int)),
{
    let n = s.len();
    let ghost b = s@.skip(start as int);
    let d_end = digits_end(s, start);
    let ghost d = digit_run(b);
    let ghost r = b.skip(d as int);
    assert(r =~= s@.skip(d_end as int));
    if d_end < n && s[d_end] == '.' {
        let f_end = digits_end(s, d_end + 1);
        assert(r.drop_first() =~= s@.skip(d_end + 1));
        assert(r.skip(1 + (f_end - (d_end + 1))) =~= s@.skip(f_end as int));
        if (d_end - start) + (f_end - (d_end + 1)) == 0 {
            return false;
        }
        f_end == n || exponent_from(s, f_end)
    } else {
        if d_end == start {
            return false;
        }
        d_end == n || exponent_from(s, d_end)
    }
}

/// Whether the characters of `s` form a float literal (whether
/// `f64::from_str` accepts them).
pub fn is_float_text(s: &[char]) -> (b: bool)
    ensures
        b == is_float_literal(s@),
{
    let n = s.len();
    if n == 0 {
        return false;
    }
    let start: usize = if s[0] == '+' || s[0] == '-' {
        1
    } else {
        0
    };
    assert(unsigned_part(s@) =~= s@.skip(start as int));
    if start == n {
        return false;
    }
    let inf = ['i', 'n', 'f'];
    let infinity = ['i', 'n', 'f', 'i', 'n', 'i', 't', 'y'];
    let nan = ['n', 'a', 'n'];
    assert(inf@ =~= seq!['i', 'n', 'f']);
    assert(infinity@ =~= seq!['i', 'n', 'f', 'i', 'n', 'i', 't', 'y']);
    assert(nan@ =~= seq!['n', 'a', 'n']);
    if spells_from(s, start, &inf) || spells_from(s, start, &infinity) || spells_from(
        s,
        start,
        &nan,
    ) {
        return true;
    }
    decimal_float_from(s, start)
}

// ---------------------------------------------------------------------------
// Unsigned bytes (`u8::from_str`)
// ---------------------------------------------------------------------------

/// The value that `u8::from_str` gives `s`: an optional `+`, then one or more
/// ASCII digits denoting at most 255.
pub open spec fn parse_u8(s: Seq<char>) -> Option<u8> {
    let d = if s.len() > 0 && s[0] == '+' {
        s.drop_first()
    } else {
        s
    };
    if d.len() > 0 && all_digits(d) && digits_value(d) <= 255 {
        Some(digits_value(d) as u8)
    } else {
        None
    }
}

proof fn lemma_digits_value_take(s: Seq<char>, i: int)
    requires
        0 <= i < s.len(),
    ensures
        digits_value(s.take(i + 1)) == digits_value(s.take(i)) * 10 + digit_value(s[i]),
{
    assert(s.take(i + 1).drop_last() =~= s.take(i));
}

proof fn lemma_digits_value_grows(s: Seq<char>, i: int)
    requires
        0 <= i <= s.len(),
    ensures
        digits_value(s.take(i)) <= digits_value(s),
    decreases s.len() - i,
{
    if i < s.len() {
        lemma_digits_value_grows(s, i + 1);
        lemma_digits_value_take(s, i);
    } else {
        assert(s.take(i) =~= s);
    }
}

/// The value of `s[from..]` as digits, when they are all digits and denote
/// at most 255.
fn small_digits_value(s: &[char], from: usize) -> (r: Option<u8>)
    requires
        from <= s@.len(),
    ensures
        r == (if all_digits(s@.skip(from as int)) && digits_value(s@.skip(from as int)) <= 255 {
            Some(digits_value(s@.skip(from as int)) as u8)
        } else {
            None
        }),
{
    let ghost d = s@.skip(from as int);
    let mut acc: u64 = 0;
    let mut i: usize = from;
    while i < s.len()
        invariant
            from <= i <= s@.len(),
            d == s@.skip(from as int),
            acc == digits_value(d.take(i - from)),
            acc <= 255,
            forall|k: int| 0 <= k < i - from ==> is_digit(d[k]),
        decreases s@.len() - i,
    {
        if !is_digit_char(s[i]) {
            assert(!is_digit(d[i - from]));
            return None;
        }
        proof {
            lemma_digits_value_take(d, i - from);
        }
        acc = acc * 10 + ((s[i] as u32) - 48) as u64;
        if acc > 255 {
            proof {
                lemma_digits_value_grows(d, i - from + 1);
            }
            return None;
        }
        i = i + 1;
    }
    assert(d.take(i - from) =~= d);
    Some(acc as u8)
}

/// `u8::from_str` on the characters of `s`.
pub fn parse_u8_chars(s: &[char]) -> (r: Option<u8>)
    ensures
        r == parse_u8(s@),
{
    let n = s.len();
    if n == 0 {
        return None;
    }
    let from: usize = if s[0] == '+' {
        1
    } else {
        0
    };
    if from == n {
        return None;
    }
    assert(s@.skip(from as int) =~= (if s@.len() > 0 && s@[0] == '+' {
        s@.drop_first()
    } else {
        s@
    }));
    small_digits_value(s, from)
}

// ---------------------------------------------------------------------------
// Dotted IPv4 addresses (`Ipv4Addr::from_str`)
// ---------------------------------------------------------------------------

/// One octet of a dotted address: one to three digits denoting at most 255,
/// without a leading zero unless the octet is `0` itself.
pub open spec fn is_octet_text(g: Seq<char>) -> bool {
    &&& 1 <= g.len() <= 3
    &&& all_digits(g)
    &&& (g.len() == 1 || g[0] != '0')
    &&& digits_value(g) <= 255
}

/// The address as a 32-bit number, most significant octet first: the order
/// of these numbers is the order of `Ipv4Addr`.
pub open spec fn address_value(a: nat, b: nat, c: nat, d: nat) -> nat {
    ((a * 256 + b) * 256 + c) * 256 + d
}

/// The address that `Ipv4Addr::from_str` reads from `s`: exactly four
/// octets separated by dots, nothing else.
pub open spec fn ipv4_address(s: Seq<char>) -> Option<u32> {
    let p = split_at_char(s, '.');
    if p.len() == 4 && is_octet_text(p[0]) && is_octet_text(p[1]) && is_octet_text(p[2])
        && is_octet_text(p[3]) {
        Some(
            address_value(
                digits_value(p[0]),
                digits_value(p[1]),
                digits_value(p[2]),
                digits_value(p[3]),
            ) as u32,
        )
    } else {
        None
    }
}

/// The four octets of the address that `s` denotes.
pub open spec fn ipv4_octets(s: Seq<char>) -> Option<(u8, u8, u8, u8)> {
    let p = split_at_char(s, '.');
    if ipv4_address(s) is Some {
        Some(
            (
                digits_value(p[0]) as u8,
                digits_value(p[1]) as u8,
                digits_value(p[2]) as u8,
                digits_value(p[3]) as u8,
            ),
        )
    } else {
        None
    }
}

/// The value of one octet text, if it is one.
fn octet_of(g: &[char]) -> (r: Option<u8>)
    ensures
        r == (if is_octet_text(g@) {
            Some(digits_value(g@) as u8)
        } else {
            None
        }),
{
    let n = g.len();
    if n < 1 || n > 3 {
        return None;
    }
    if n > 1 && g[0] == '0' {
        return None;
    }
    assert(g@.skip(0) =~= g@);
    small_digits_value(g, 0)
}

/// `Ipv4Addr::from_str` on the characters of `s`: the octets, if `s` is a
/// dotted address.
pub fn parse_ipv4_chars(s: &[char]) -> (r: Option<(u8, u8, u8, u8)>)
    ensures
        r == ipv4_octets(s@),
{
    let parts = split_on(s, '.');
    if parts.len() != 4 {
        return None;
    }
    assert(parts@[0]@ == split_at_char(s@, '.')[0]);
    assert(parts@[1]@ == split_at_char(s@, '.')[1]);
    assert(parts@[2]@ == split_at_char(s@, '.')[2]);
    assert(parts@[3]@ == split_at_char(s@, '.')[3]);
    let a = octet_of(parts[0].as_slice());
    let b = octet_of(parts[1].as_slice());
    let c = octet_of(parts[2].as_slice());
    let d = octet_of(parts[3].as_slice());
    match (a, b, c, d) {
        (Some(a), Some(b), Some(c), Some(d)) => Some((a, b, c, d)),
        _ => None,
    }
}

/// The 32-bit value of four octets.
pub fn octets_value(o: (u8, u8, u8, u8)) -> (v: u32)
    ensures
        v as nat == address_value(o.0 as nat, o.1 as nat, o.2 as nat, o.3 as nat),
{
    ((o.0 as u32 * 256 + o.1 as u32) * 256 + o.2 as u32) * 256 + o.3 as u32
}

} // verus!
