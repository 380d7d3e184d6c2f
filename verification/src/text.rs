//! Small verified text utilities: whitespace trimming, decimal numbers,
//! finding a separator, and string equality.

use vstd::prelude::*;

verus! {

/// The Unicode `White_Space` characters, the set `char::is_whitespace`
/// accepts.
pub open spec fn is_ws(c: char) -> bool {
    c == ' ' || c == '\t' || c == '\n' || c == '\r' || c == '\u{b}' || c == '\u{c}'
        || c == '\u{85}' || c == '\u{a0}' || c == '\u{1680}'
        || ('\u{2000}' <= c && c <= '\u{200a}')
        || c == '\u{2028}' || c == '\u{2029}' || c == '\u{202f}' || c == '\u{205f}'
        || c == '\u{3000}'
}

pub fn is_space(c: char) -> (r: bool)
    ensures
        r == is_ws(c),
{
    c == ' ' || c == '\t' || c == '\n' || c == '\r' || c == '\u{b}' || c == '\u{c}'
        || c == '\u{85}' || c == '\u{a0}' || c == '\u{1680}'
        || ('\u{2000}' <= c && c <= '\u{200a}')
        || c == '\u{2028}' || c == '\u{2029}' || c == '\u{202f}' || c == '\u{205f}'
        || c == '\u{3000}'
}

/// `s` without leading whitespace.
pub open spec fn spec_trim_start(s: Seq<char>) -> Seq<char>
    decreases s.len(),
{
    if s.len() > 0 && is_ws(s[0]) {
        spec_trim_start(s.drop_first())
    } else {
        s
    }
}

/// `s` without trailing whitespace.
pub open spec fn spec_trim_end(s: Seq<char>) -> Seq<char>
    decreases s.len(),
{
    if s.len() > 0 && is_ws(s.last()) {
        spec_trim_end(s.drop_last())
    } else {
        s
    }
}

/// `s` without surrounding whitespace.
pub open spec fn spec_trim(s: Seq<char>) -> Seq<char> {
    spec_trim_end(spec_trim_start(s))
}

proof fn lemma_trim_start_step(s: Seq<char>, a: int)
    requires
        0 <= a < s.len(),
        is_ws(s[a]),
        forall|j: int| 0 <= j < a ==> is_ws(s[j]),
    ensures
        spec_trim_start(s.skip(a)) == spec_trim_start(s.skip(a + 1)),
{
    assert(s.skip(a).drop_first() =~= s.skip(a + 1));
}

proof fn lemma_trim_end_step(s: Seq<char>, b: int)
    requires
        0 < b <= s.len(),
        is_ws(s[b - 1]),
        forall|j: int| b <= j < s.len() ==> is_ws(s[j]),
    ensures
        spec_trim_end(s.take(b)) == spec_trim_end(s.take(b - 1)),
    decreases s.len() - b,
{
    if b == s.len() {
        assert(s.take(b) =~= s);
        assert(s.drop_last() =~= s.take(b - 1));
    } else {
        lemma_trim_end_step(s, b + 1);
        assert(s.take(b + 1).drop_last() =~= s.take(b));
        assert(s.take(b) =~= s.take(b + 1).drop_last());
        assert(s.take(b).drop_last() =~= s.take(b - 1));
    }
}

/// Returns `s` with surrounding whitespace removed.
pub fn trim<'a>(s: &'a str) -> (r: &'a str)
    ensures
        r@ == spec_trim(s@),
{
    let n = s.unicode_len();
    let mut a: usize = 0;
    proof {
        assert(s@.skip(0) =~= s@);
    }
    while a < n && is_space(s.get_char(a))
        invariant
            0 <= a <= n == s@.len(),
            forall|j: int| 0 <= j < a ==> is_ws(s@[j]),
            spec_trim_start(s@.skip(a as int)) == spec_trim_start(s@),
        decreases n - a,
    {
        proof {
            lemma_trim_start_step(s@, a as int);
        }
        a = a + 1;
    }
    proof {
        assert(s@.skip(a as int) =~= s@.subrange(a as int, n as int));
        if a < n {
            assert(!is_ws(s@.skip(a as int)[0]));
        }
        assert(spec_trim_start(s@) == s@.skip(a as int));
    }
    let mut b: usize = n;
    proof {
        assert(s@.skip(a as int).take(n - a) =~= s@.skip(a as int));
    }
    while b > a && is_space(s.get_char(b - 1))
        invariant
            a <= b <= n == s@.len(),
            forall|j: int| b <= j < n ==> is_ws(s@[j]),
            spec_trim_end(s@.skip(a as int).take(b - a)) == spec_trim_end(s@.skip(a as int)),
            spec_trim_start(s@) == s@.skip(a as int),
        decreases b,
    {
        proof {
            let t = s@.skip(a as int);
            assert(t[b - a - 1] == s@[b as int - 1]);
            assert(forall|j: int| b - a <= j < t.len() ==> is_ws(#[trigger] t[j]));
            lemma_trim_end_step(t, b - a);
        }
        b = b - 1;
    }
    proof {
        let t = s@.skip(a as int);
        let u = t.take(b - a);
        if b > a {
            assert(u.last() == s@[b as int - 1]);
            assert(!is_ws(u.last()));
        }
        assert(spec_trim_end(u) == u);
        assert(u =~= s@.subrange(a as int, b as int));
    }
    s.substring_char(a, b)
}

/// The character for a single decimal digit.
pub open spec fn spec_digit(d: nat) -> char {
    if d == 0 { '0' }
    else if d == 1 { '1' }
    else if d == 2 { '2' }
    else if d == 3 { '3' }
    else if d == 4 { '4' }
    else if d == 5 { '5' }
    else if d == 6 { '6' }
    else if d == 7 { '7' }
    else if d == 8 { '8' }
    else { '9' }
}

/// The decimal representation of `n`, without a sign and without
/// leading zeros (a single `'0'` for zero).
pub open spec fn spec_dec(n: nat) -> Seq<char>
    decreases n,
{
    if n < 10 {
        seq![spec_digit(n)]
    } else {
        spec_dec(n / 10).push(spec_digit(n % 10))
    }
}

fn digit_str(d: u64) -> (r: &'static str)
    requires
        d < 10,
    ensures
        r@ == seq![spec_digit(d as nat)],
{
    proof {
        reveal_strlit("0");
        reveal_strlit("1");
        reveal_strlit("2");
        reveal_strlit("3");
        reveal_strlit("4");
        reveal_strlit("5");
        reveal_strlit("6");
        reveal_strlit("7");
        reveal_strlit("8");
        reveal_strlit("9");
    }
    let r: &'static str = if d == 0 { "0" }
    else if d == 1 { "1" }
    else if d == 2 { "2" }
    else if d == 3 { "3" }
    else if d == 4 { "4" }
    else if d == 5 { "5" }
    else if d == 6 { "6" }
    else if d == 7 { "7" }
    else if d == 8 { "8" }
    else { "9" };
    proof {
        assert(r@ =~= seq![spec_digit(d as nat)]);
    }
    r
}

/// Renders `n` in decimal.
pub fn u64_to_string(n: u64) -> (r: String)
    ensures
        r@ == spec_dec(n as nat),
    decreases n,
{
    if n < 10 {
        let r = digit_str(n).to_owned();
        r
    } else {
        let mut r = u64_to_string(n / 10);
        r.append(digit_str(n % 10));
        proof {
            assert(r@ =~= spec_dec((n / 10) as nat).push(spec_digit((n % 10) as nat)));
        }
        r
    }
}

/// Whether `c` is a decimal digit.
pub open spec fn spec_is_digit(c: char) -> bool {
    '0' <= c && c <= '9'
}

/// The value of a decimal digit character.
pub open spec fn spec_digit_val(c: char) -> nat {
    (c as nat - '0' as nat) as nat
}

/// Whether `s` is a non-empty run of decimal digits.
pub open spec fn spec_all_digits(s: Seq<char>) -> bool {
    s.len() > 0 && forall|j: int| 0 <= j < s.len() ==> spec_is_digit(#[trigger] s[j])
}

/// The number the digit string `s` denotes.
pub open spec fn spec_num(s: Seq<char>) -> nat
    decreases s.len(),
{
    if s.len() == 0 {
        0
    } else {
        spec_num(s.drop_last()) * 10 + spec_digit_val(s.last())
    }
}

proof fn lemma_num_append_digit(s: Seq<char>, c: char)
    ensures
        spec_num(s.push(c)) == spec_num(s) * 10 + spec_digit_val(c),
{
    assert(s.push(c).drop_last() =~= s);
}

proof fn lemma_num_monotone(s: Seq<char>, i: int)
    requires
        0 <= i <= s.len(),
    ensures
        spec_num(s.take(i)) <= spec_num(s),
    decreases s.len() - i,
{
    if i < s.len() {
        lemma_num_monotone(s, i + 1);
        assert(s.take(i + 1).drop_last() =~= s.take(i));
        assert(spec_num(s.take(i + 1)) == spec_num(s.take(i)) * 10 + spec_digit_val(s[i]));
    } else {
        assert(s.take(i) =~= s);
    }
}

/// Parses a non-empty run of decimal digits as a number.  Fails on an
/// empty string, on any non-digit character, and on a value that does
/// not fit in 64 bits.
pub fn parse_u64(s: &str) -> (r: Option<u64>)
    ensures
        match r {
            Some(v) => spec_all_digits(s@) && v as nat == spec_num(s@) && spec_num(s@)
                <= u64::MAX,
            None => !spec_all_digits(s@) || spec_num(s@) > u64::MAX,
        },
{
    let n = s.unicode_len();
    if n == 0 {
        return None;
    }
    let mut acc: u64 = 0;
    let mut i: usize = 0;
    while i < n
        invariant
            0 <= i <= n == s@.len(),
            forall|j: int| 0 <= j < i ==> spec_is_digit(#[trigger] s@[j]),
            acc as nat == spec_num(s@.take(i as int)),
        decreases n - i,
    {
        let c = s.get_char(i);
        if !('0' <= c && c <= '9') {
            return None;
        }
        let d: u64 = (c as u32 as u64) - ('0' as u32 as u64);
        proof {
            assert(d == spec_digit_val(s@[i as int]));
        }
        if acc > (u64::MAX - d) / 10 {
            proof {
                lemma_num_append_digit(s@.take(i as int), s@[i as int]);
                assert(s@.take(i as int).push(s@[i as int]) =~= s@.take(i + 1));
                assert(spec_num(s@.take(i + 1)) > u64::MAX) by {
                    vstd::arithmetic::div_mod::lemma_fundamental_div_mod(
                        (u64::MAX - d) as int,
                        10,
                    );
                };
                lemma_num_monotone(s@, i + 1);
            }
            return None;
        }
        proof {
            lemma_num_append_digit(s@.take(i as int), s@[i as int]);
            assert(s@.take(i as int).push(s@[i as int]) =~= s@.take(i + 1));
            assert(acc * 10 + d <= u64::MAX) by {
                vstd::arithmetic::div_mod::lemma_fundamental_div_mod((u64::MAX - d) as int, 10);
            };
        }
        acc = acc * 10 + d;
        i = i + 1;
    }
    proof {
        assert(s@.take(n as int) =~= s@);
    }
    Some(acc)
}

/// The index of the first occurrence of `c` in `s`, or `-1`.
pub open spec fn spec_find(s: Seq<char>, c: char) -> int
    decreases s.len(),
{
    if s.len() == 0 {
        -1
    } else if s[0] == c {
        0
    } else {
        let r = spec_find(s.drop_first(), c);
        if r < 0 { -1 } else { r + 1 }
    }
}

proof fn lemma_find_at(s: Seq<char>, c: char, i: int)
    requires
        0 <= i <= s.len(),
        forall|j: int| 0 <= j < i ==> s[j] != c,
        i < s.len() ==> s[i] == c,
    ensures
        spec_find(s, c) == if i < s.len() { i } else { -1 },
    decreases s.len(),
{
    if s.len() > 0 && i > 0 {
        let t = s.drop_first();
        assert(forall|j: int| 0 <= j < i - 1 ==> #[trigger] t[j] == s[j + 1]);
        lemma_find_at(t, c, i - 1);
    }
}

/// Returns the index of the first occurrence of `c` in `s`, if any.
pub fn find_char(s: &str, c: char) -> (r: Option<usize>)
    ensures
        match r {
            Some(i) => spec_find(s@, c) == i && i < s@.len() && s@[i as int] == c,
            None => spec_find(s@, c) == -1,
        },
{
    let n = s.unicode_len();
    let mut i: usize = 0;
    while i < n
        invariant
            0 <= i <= n == s@.len(),
            forall|j: int| 0 <= j < i ==> s@[j] != c,
        decreases n - i,
    {
        if s.get_char(i) == c {
            proof {
                lemma_find_at(s@, c, i as int);
            }
            return Some(i);
        }
        i = i + 1;
    }
    proof {
        lemma_find_at(s@, c, n as int);
    }
    None
}

/// The index of the first whitespace character in `s`, or `-1`.
pub open spec fn spec_find_ws(s: Seq<char>) -> int
    decreases s.len(),
{
    if s.len() == 0 {
        -1
    } else if is_ws(s[0]) {
        0
    } else {
        let r = spec_find_ws(s.drop_first());
        if r < 0 { -1 } else { r + 1 }
    }
}

proof fn lemma_find_ws_at(s: Seq<char>, i: int)
    requires
        0 <= i <= s.len(),
        forall|j: int| 0 <= j < i ==> !is_ws(s[j]),
        i < s.len() ==> is_ws(s[i]),
    ensures
        spec_find_ws(s) == if i < s.len() { i } else { -1 },
    decreases s.len(),
{
    if s.len() > 0 && i > 0 {
        let t = s.drop_first();
        assert(forall|j: int| 0 <= j < i - 1 ==> #[trigger] t[j] == s[j + 1]);
        lemma_find_ws_at(t, i - 1);
    }
}

/// Returns the index of the first whitespace character in `s`, if any.
pub fn find_ws(s: &str) -> (r: Option<usize>)
    ensures
        match r {
            Some(i) => spec_find_ws(s@) == i && i < s@.len() && is_ws(s@[i as int]),
            None => spec_find_ws(s@) == -1,
        },
{
    let n = s.unicode_len();
    let mut i: usize = 0;
    while i < n
        invariant
            0 <= i <= n == s@.len(),
            forall|j: int| 0 <= j < i ==> !is_ws(s@[j]),
        decreases n - i,
    {
        if is_space(s.get_char(i)) {
            proof {
                lemma_find_ws_at(s@, i as int);
            }
            return Some(i);
        }
        i = i + 1;
    }
    proof {
        lemma_find_ws_at(s@, n as int);
    }
    None
}

/// The fields of `s` separated by `'|'`, in order.  A string without a
/// separator is one field; every separator ends a field, so `n`
/// separators give `n + 1` fields, empty ones included.
pub open spec fn spec_split(s: Seq<char>) -> Seq<Seq<char>>
    decreases s.len(),
{
    if s.len() == 0 {
        seq![s]
    } else if s[0] == '|' {
        seq![Seq::<char>::empty()] + spec_split(s.drop_first())
    } else {
        let r = spec_split(s.drop_first());
        seq![seq![s[0]] + r[0]] + r.drop_first()
    }
}

proof fn lemma_split_len(s: Seq<char>)
    ensures
        spec_split(s).len() >= 1,
    decreases s.len(),
{
    if s.len() > 0 {
        lemma_split_len(s.drop_first());
    }
}

proof fn lemma_split_at_first(s: Seq<char>)
    ensures
        spec_find(s, '|') < 0 ==> spec_split(s) == seq![s],
        spec_find(s, '|') >= 0 ==> spec_split(s) == seq![s.take(spec_find(s, '|'))]
            + spec_split(s.skip(spec_find(s, '|') + 1)),
    decreases s.len(),
{
    lemma_split_len(s);
    if s.len() == 0 {
        assert(spec_split(s) =~= seq![s]);
    } else if s[0] == '|' {
        assert(s.take(0) =~= Seq::<char>::empty());
        assert(s.skip(1) =~= s.drop_first());
        assert(spec_split(s) =~= seq![s.take(0)] + spec_split(s.skip(1)));
    } else {
        let t = s.drop_first();
        lemma_split_at_first(t);
        lemma_split_len(t);
        lemma_find_in_range(t, '|');
        let r = spec_split(t);
        let g = spec_find(t, '|');
        if g < 0 {
            assert(r == seq![t]);
            assert(seq![s[0]] + r[0] =~= s);
            assert(spec_split(s) =~= seq![s]);
        } else {
            let f = spec_find(s, '|');
            assert(f == g + 1);
            assert(r == seq![t.take(g)] + spec_split(t.skip(g + 1)));
            assert(r[0] == t.take(g));
            assert(seq![s[0]] + t.take(g) =~= s.take(f));
            assert(r.drop_first() =~= spec_split(t.skip(g + 1)));
            assert(t.skip(g + 1) =~= s.skip(f + 1));
            assert(spec_split(s) =~= seq![s.take(f)] + spec_split(s.skip(f + 1)));
        }
    }
}

proof fn lemma_find_in_range(s: Seq<char>, c: char)
    ensures
        spec_find(s, c) < s.len(),
        spec_find(s, c) >= 0 ==> s[spec_find(s, c)] == c,
    decreases s.len(),
{
    if s.len() > 0 && s[0] != c {
        lemma_find_in_range(s.drop_first(), c);
    }
}

/// The fields of `s`, each trimmed of surrounding whitespace.
pub open spec fn spec_fields(s: Seq<char>) -> Seq<Seq<char>> {
    spec_split(s).map_values(|t: Seq<char>| spec_trim(t))
}

fn split_into(s: &str, acc: &mut Vec<String>)
    ensures
        final(acc).deep_view() == old(acc).deep_view() + spec_fields(s@),
    decreases s@.len(),
{
    proof {
        lemma_split_at_first(s@);
        lemma_find_in_range(s@, '|');
    }
    let n = s.unicode_len();
    match find_char(s, '|') {
        None => {
            let f = trim(s).to_owned();
            let ghost pre = acc.deep_view();
            acc.push(f);
            proof {
                assert(spec_split(s@) == seq![s@]);
                assert(acc.deep_view() =~= pre + spec_fields(s@));
            }
        },
        Some(i) => {
            let head = s.substring_char(0, i);
            let f = trim(head).to_owned();
            let ghost pre = acc.deep_view();
            acc.push(f);
            proof {
                assert(head@ == s@.take(i as int));
                assert(acc.deep_view() =~= pre + seq![spec_trim(s@.take(i as int))]);
            }
            let rest = s.substring_char(i + 1, n);
            split_into(rest, acc);
            proof {
                assert(rest@ == s@.skip(i + 1));
                assert(spec_fields(s@) =~= seq![spec_trim(s@.take(i as int))]
                    + spec_fields(s@.skip(i + 1)));
                assert(acc.deep_view() =~= pre + spec_fields(s@));
            }
        },
    }
}

/// Splits `s` at `'|'` and trims each field.
pub fn split_fields(s: &str) -> (r: Vec<String>)
    ensures
        r.deep_view() == spec_fields(s@),
        r.len() >= 1,
{
    let mut acc: Vec<String> = Vec::new();
    split_into(s, &mut acc);
    proof {
        lemma_split_len(s@);
        assert(acc.deep_view() =~= spec_fields(s@));
        assert(acc.deep_view().len() == acc@.len());
    }
    acc
}

/// Compares two strings character by character.
pub fn str_eq(a: &str, b: &str) -> (r: bool)
    ensures
        r == (a@ == b@),
{
    let na = a.unicode_len();
    let nb = b.unicode_len();
    if na != nb {
        return false;
    }
    let mut i: usize = 0;
    while i < na
        invariant
            0 <= i <= na == a@.len(),
            na == nb == b@.len(),
            forall|j: int| 0 <= j < i ==> a@[j] == b@[j],
        decreases na - i,
    {
        if a.get_char(i) != b.get_char(i) {
            return false;
        }
        i = i + 1;
    }
    proof {
        assert(a@ =~= b@);
    }
    true
}

/// Whether `p` is a prefix of `s`.
pub open spec fn spec_starts_with(s: Seq<char>, p: Seq<char>) -> bool {
    s.len() >= p.len() && s.take(p.len() as int) == p
}

/// Tests whether `s` starts with `p`.
pub fn starts_with(s: &str, p: &str) -> (r: bool)
    ensures
        r == spec_starts_with(s@, p@),
{
    let ns = s.unicode_len();
    let np = p.unicode_len();
    if ns < np {
        return false;
    }
    let mut i: usize = 0;
    while i < np
        invariant
            0 <= i <= np == p@.len(),
            np <= ns == s@.len(),
            forall|j: int| 0 <= j < i ==> s@[j] == p@[j],
        decreases np - i,
    {
        if s.get_char(i) != p.get_char(i) {
            proof {
                assert(s@.take(np as int)[i as int] != p@[i as int]);
            }
            return false;
        }
        i = i + 1;
    }
    proof {
        assert(s@.take(np as int) =~= p@);
    }
    true
}

} // verus!
