//! Character-level helpers shared by the configuration, share-link and
//! address formatting code: digits, whitespace trimming and substring tests.
use vstd::prelude::*;

verus! {

/// The lowercase digit for a value below sixteen.
pub open spec fn digit_char(d: nat) -> char {
    if d == 0 { '0' }
    else if d == 1 { '1' }
    else if d == 2 { '2' }
    else if d == 3 { '3' }
    else if d == 4 { '4' }
    else if d == 5 { '5' }
    else if d == 6 { '6' }
    else if d == 7 { '7' }
    else if d == 8 { '8' }
    else if d == 9 { '9' }
    else if d == 10 { 'a' }
    else if d == 11 { 'b' }
    else if d == 12 { 'c' }
    else if d == 13 { 'd' }
    else if d == 14 { 'e' }
    else { 'f' }
}

/// Decimal text of a natural number, without leading zeros ("0" for zero).
pub open spec fn decimal(n: nat) -> Seq<char>
    decreases n,
{
    if n < 10 {
        seq![digit_char(n)]
    } else {
        decimal(n / 10).push(digit_char(n % 10))
    }
}

/// Lowercase hexadecimal text of a natural number, without leading zeros.
pub open spec fn lower_hex(n: nat) -> Seq<char>
    decreases n,
{
    if n < 16 {
        seq![digit_char(n)]
    } else {
        lower_hex(n / 16).push(digit_char(n % 16))
    }
}

/// The characters that `char::is_whitespace` accepts (Unicode `White_Space`).
pub open spec fn is_unicode_whitespace(c: char) -> bool {
    let u = c as u32;
    ||| 0x09 <= u <= 0x0D
    ||| u == 0x20
    ||| u == 0x85
    ||| u == 0xA0
    ||| u == 0x1680
    ||| 0x2000 <= u <= 0x200A
    ||| u == 0x2028
    ||| u == 0x2029
    ||| u == 0x202F
    ||| u == 0x205F
    ||| u == 0x3000
}

/// `s` without its leading whitespace.
pub open spec fn trim_start(s: Seq<char>) -> Seq<char>
    decreases s.len(),
{
    if s.len() > 0 && is_unicode_whitespace(s[0]) {
        trim_start(s.drop_first())
    } else {
        s
    }
}

/// `s` without its trailing whitespace.
pub open spec fn trim_end(s: Seq<char>) -> Seq<char>
    decreases s.len(),
{
    if s.len() > 0 && is_unicode_whitespace(s.last()) {
        trim_end(s.drop_last())
    } else {
        s
    }
}

/// `s` without leading and trailing whitespace, as `str::trim` gives it.
pub open spec fn trim(s: Seq<char>) -> Seq<char> {
    trim_end(trim_start(s))
}

/// `p` occurs in `s` as a contiguous run.
pub open spec fn has_substring(s: Seq<char>, p: Seq<char>) -> bool {
    exists|i: int| 0 <= i && i + p.len() <= s.len() && #[trigger] s.subrange(i, i + p.len()) == p
}

/// A run shorter than a pattern does not hold it.
pub proof fn lemma_short_lacks(s: Seq<char>, p: Seq<char>)
    requires
        s.len() < p.len(),
    ensures
        !has_substring(s, p),
{
}

/// Appends one character with `String::push`.
#[verifier::external_body]
pub(crate) fn push_char(s: &mut String, c: char)
    ensures
        final(s)@ == old(s)@.push(c),
{
    s.push(c);
}

/// `str::trim`: the slice without leading and trailing Unicode whitespace.
#[verifier::external_body]
pub(crate) fn str_trim(s: &str) -> (res: &str)
    ensures
        res@ == trim(s@),
{
    s.trim()
}

/// The characters of a text.
fn chars_of(s: &str) -> (res: Vec<char>)
    ensures
        res@ == s@,
{
    let n = s.unicode_len();
    let mut v: Vec<char> = Vec::new();
    let mut i: usize = 0;
    while i < n
        invariant
            i <= n,
            n == s@.len(),
            v@ == s@.subrange(0, i as int),
        decreases n - i,
    {
        v.push(s.get_char(i));
        i = i + 1;
        assert(v@ =~= s@.subrange(0, i as int));
    }
    assert(s@.subrange(0, n as int) =~= s@);
    v
}

/// Whether the text holds the character `c`.
pub fn str_contains_char(s: &str, c: char) -> (res: bool)
    ensures
        res == s@.contains(c),
{
    let v = chars_of(s);
    let mut i: usize = 0;
    while i < v.len()
        invariant
            i <= v@.len(),
            v@ == s@,
            forall|j: int| 0 <= j < i ==> v@[j] != c,
        decreases v@.len() - i,
    {
        if v[i] == c {
            assert(s@[i as int] == c);
            return true;
        }
        i = i + 1;
    }
    false
}

/// Whether the text starts with the character `c`.
pub fn str_starts_with_char(s: &str, c: char) -> (res: bool)
    ensures
        res == (s@.len() > 0 && s@[0] == c),
{
    s.unicode_len() > 0 && s.get_char(0) == c
}

/// Whether `pattern` occurs in the text as a contiguous run.
pub fn str_contains_str(s: &str, pattern: &str) -> (res: bool)
    ensures
        res == has_substring(s@, pattern@),
{
    let t = chars_of(s);
    let p = chars_of(pattern);
    let n = t.len();
    let m = p.len();
    if m > n {
        assert forall|i: int| 0 <= i && i + m <= n implies #[trigger] s@.subrange(i, i + m) != pattern@ by {}
        return false;
    }
    let mut i: usize = 0;
    while i <= n - m
        invariant
            m <= n,
            t@ == s@,
            p@ == pattern@,
            n == t@.len(),
            m == p@.len(),
            i <= n - m + 1,
            forall|k: int| 0 <= k < i ==> #[trigger] s@.subrange(k, k + m) != pattern@,
        decreases n - m + 1 - i,
    {
        let mut j: usize = 0;
        let mut same = true;
        while j < m
            invariant
                j <= m,
                i + m <= n,
                t@ == s@,
                p@ == pattern@,
                n == t@.len(),
                m == p@.len(),
                same == (forall|x: int| 0 <= x < j ==> t@[i + x] == p@[x]),
            decreases m - j,
        {
            if t[i + j] != p[j] {
                same = false;
            }
            j = j + 1;
        }
        if same {
            assert(s@.subrange(i as int, i + m) =~= pattern@);
            return true;
        }
        assert(s@.subrange(i as int, i + m) != pattern@) by {
            let x = choose|x: int| 0 <= x < m && t@[i + x] != p@[x];
            assert(s@.subrange(i as int, i + m)[x] != pattern@[x]);
        }
        i = i + 1;
    }
    assert forall|k: int| 0 <= k && k + m <= s@.len() implies #[trigger] s@.subrange(k, k + m) != pattern@ by {
        assert(k < i);
    }
    false
}

/// The digit character for a value below sixteen.
fn digit(d: u8) -> (c: char)
    requires
        d < 16,
    ensures
        c == digit_char(d as nat),
{
    match d {
        0 => '0',
        1 => '1',
        2 => '2',
        3 => '3',
        4 => '4',
        5 => '5',
        6 => '6',
        7 => '7',
        8 => '8',
        9 => '9',
        10 => 'a',
        11 => 'b',
        12 => 'c',
        13 => 'd',
        14 => 'e',
        _ => 'f',
    }
}

/// Appends the decimal text of `n`.
pub fn push_decimal(s: &mut String, n: u32)
    ensures
        final(s)@ == old(s)@ + decimal(n as nat),
    decreases n,
{
    if n >= 10 {
        push_decimal(s, n / 10);
    }
    push_char(s, digit((n % 10) as u8));
    proof {
        assert(decimal(n as nat) == if n < 10 {
            seq![digit_char(n as nat)]
        } else {
            decimal((n / 10) as nat).push(digit_char((n % 10) as nat))
        });
        if n < 10 {
            assert(n % 10 == n);
        }
        assert(s@ =~= old(s)@ + decimal(n as nat));
    }
}

/// Appends the lowercase hexadecimal text of `n`, without leading zeros.
pub fn push_lower_hex(s: &mut String, n: u32)
    ensures
        final(s)@ == old(s)@ + lower_hex(n as nat),
    decreases n,
{
    if n >= 16 {
        push_lower_hex(s, n / 16);
    }
    push_char(s, digit((n % 16) as u8));
    proof {
        if n < 16 {
            assert(n % 16 == n);
        }
        assert(s@ =~= old(s)@ + lower_hex(n as nat));
    }
}

} // verus!
