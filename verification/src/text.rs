//! Character-level text helpers shared by the key parser, the hint bar and
//! the feedback lines. Every string here is specified by its sequence of
//! `char`s, which is also what a terminal cell count goes by.
use vstd::prelude::*;

verus! {

/// Whether `a` and `b` hold the same characters.
pub fn same_text(a: &str, b: &str) -> (r: bool)
    ensures
        r == (a@ == b@),
{
    let n = a.unicode_len();
    let m = b.unicode_len();
    if n != m {
        return false;
    }
    let mut i: usize = 0;
    while i < n
        invariant
            n == a@.len(),
            m == b@.len(),
            n == m,
            i <= n,
            forall|j: int| 0 <= j < i ==> a@[j] == b@[j],
        decreases n - i,
    {
        if a.get_char(i) != b.get_char(i) {
            return false;
        }
        i = i + 1;
    }
    assert(a@ =~= b@);
    true
}

/// Appends one character. `String::push` has no specification in vstd.
#[verifier::external_body]
pub(crate) fn push_char(s: &mut String, c: char)
    ensures
        final(s)@ == old(s)@.push(c),
{
    s.push(c);
}

/// A fresh `String` holding `s`.
pub fn owned(s: &str) -> (r: String)
    ensures
        r@ == s@,
{
    String::from_str(s)
}

/// `a` followed by `b`, as a new `String`.
pub fn joined(a: &str, b: &str) -> (r: String)
    ensures
        r@ == a@ + b@,
{
    let mut r = String::from_str(a);
    r.append(b);
    r
}

/// The decimal digits of `n`, most significant first.
pub open spec fn decimal(n: nat) -> Seq<char>
    decreases n,
{
    if n < 10 {
        seq![digit_char(n)]
    } else {
        decimal(n / 10).push(digit_char(n % 10))
    }
}

/// The ASCII digit for `d < 10`.
pub open spec fn digit_char(d: nat) -> char {
    ('0' as nat + d) as char
}

/// `n` written in decimal, as `format!("{n}")` would.
pub fn decimal_text(n: u64) -> (r: String)
    ensures
        r@ == decimal(n as nat),
{
    // Collect the digits least significant first, then emit them in reverse.
    let mut digits: Vec<char> = Vec::new();
    let mut rest = n;
    let ghost mut tail: Seq<char> = Seq::empty();
    loop
        invariant_except_break
            decimal(n as nat) == decimal(rest as nat) + tail,
            digits@.reverse() == tail,
        ensures
            decimal(n as nat) == digits@.reverse(),
        decreases rest,
    {
        let d = rest % 10;
        let c = ((d as u32) + ('0' as u32)) as u8 as char;
        assert(c == digit_char(d as nat));
        let ghost old_digits = digits@;
        if rest < 10 {
            digits.push(c);
            proof {
                assert(decimal(rest as nat) == seq![c]);
                assert(digits@.reverse() =~= seq![c] + old_digits.reverse());
                assert(decimal(n as nat) =~= digits@.reverse());
            }
            break;
        }
        digits.push(c);
        proof {
            assert(decimal(rest as nat) == decimal((rest / 10) as nat).push(c));
            assert(digits@.reverse() =~= seq![c] + old_digits.reverse());
            tail = seq![c] + tail;
            assert(decimal(n as nat) =~= decimal((rest / 10) as nat) + tail);
        }
        rest = rest / 10;
    }
    let mut out = String::new();
    let mut k = digits.len();
    while k > 0
        invariant
            k <= digits@.len(),
            out@ == digits@.reverse().subrange(0, (digits@.len() - k) as int),
        decreases k,
    {
        k = k - 1;
        push_char(&mut out, digits[k]);
        assert(out@ =~= digits@.reverse().subrange(0, (digits@.len() - k) as int));
    }
    assert(out@ =~= digits@.reverse());
    out
}


/// A `Result` whose error string is read as its characters.
pub open spec fn result_view<T>(r: Result<T, String>) -> Result<T, Seq<char>> {
    match r {
        Ok(v) => Ok(v),
        Err(e) => Err(e@),
    }
}

/// Whether `c` is alphabetic or numeric in Unicode's sense, as
/// `char::is_alphanumeric` decides.
pub uninterp spec fn char_is_alphanumeric(c: char) -> bool;

/// Whether `c` is an ASCII letter or digit.
pub open spec fn ascii_alphanumeric(c: char) -> bool {
    ('a' <= c <= 'z') || ('A' <= c <= 'Z') || ('0' <= c <= '9')
}

/// `char::is_alphanumeric`. Its documentation defines it as
/// `is_alphabetic() || is_numeric()` over Unicode's tables; that is left as a
/// name here, but for the ASCII range it is exactly the ASCII letters and
/// digits, which is stated.
#[verifier::external_body]
pub(crate) fn is_alphanumeric(c: char) -> (r: bool)
    ensures
        r == char_is_alphanumeric(c),
        (c as u32) < 128 ==> r == ascii_alphanumeric(c),
{
    c.is_alphanumeric()
}

/// Every character of `s` is alphanumeric.
pub open spec fn all_alphanumeric(s: Seq<char>) -> bool {
    forall|i: int| 0 <= i < s.len() ==> char_is_alphanumeric(#[trigger] s[i])
}

/// Whether every character of `s` is alphanumeric.
pub fn text_is_alphanumeric(s: &str) -> (r: bool)
    ensures
        r == all_alphanumeric(s@),
{
    let n = s.unicode_len();
    let mut i: usize = 0;
    while i < n
        invariant
            n == s@.len(),
            i <= n,
            forall|j: int| 0 <= j < i ==> char_is_alphanumeric(#[trigger] s@[j]),
        decreases n - i,
    {
        if !is_alphanumeric(s.get_char(i)) {
            return false;
        }
        i = i + 1;
    }
    true
}


/// Whether `needle` occurs in `hay` as a run of consecutive characters.
pub open spec fn contains_text(hay: Seq<char>, needle: Seq<char>) -> bool {
    exists|i: int| 0 <= i <= hay.len() - needle.len() && #[trigger] hay.subrange(i, i + needle.len()) == needle
}

/// Whether `needle` occurs in `hay`, as `str::contains` with a `&str` pattern.
pub fn text_contains(hay: &str, needle: &str) -> (r: bool)
    ensures
        r == contains_text(hay@, needle@),
{
    let n = hay.unicode_len();
    let m = needle.unicode_len();
    if m > n {
        return false;
    }
    let mut i: usize = 0;
    loop
        invariant
            n == hay@.len(),
            m == needle@.len(),
            m <= n,
            i <= n - m,
            forall|j: int| 0 <= j < i ==> #[trigger] hay@.subrange(j, j + m) != needle@,
        decreases n - m - i,
    {
        if same_text(hay.substring_char(i, i + m), needle) {
            return true;
        }
        if i == n - m {
            return false;
        }
        i = i + 1;
    }
}


/// Whether `c` has Unicode's White_Space property, which is what
/// `char::is_whitespace` and `str::trim` go by.
pub open spec fn is_white_space(c: char) -> bool {
    let u = c as u32;
    ||| 0x9 <= u <= 0xd
    ||| u == 0x20
    ||| u == 0x85
    ||| u == 0xa0
    ||| u == 0x1680
    ||| 0x2000 <= u <= 0x200a
    ||| u == 0x2028
    ||| u == 0x2029
    ||| u == 0x202f
    ||| u == 0x205f
    ||| u == 0x3000
}

fn white_space(c: char) -> (r: bool)
    ensures
        r == is_white_space(c),
{
    let u = c as u32;
    (0x9 <= u && u <= 0xd) || u == 0x20 || u == 0x85 || u == 0xa0 || u == 0x1680 || (0x2000 <= u
        && u <= 0x200a) || u == 0x2028 || u == 0x2029 || u == 0x202f || u == 0x205f || u == 0x3000
}

/// `s` without its leading and trailing white space, as `str::trim`.
pub open spec fn spec_trim(s: Seq<char>) -> Seq<char> {
    let start = leading_space(s, 0);
    let end = trailing_end(s, start);
    s.subrange(start, end)
}

/// The index of the first character at or after `from` that is not white space.
pub open spec fn leading_space(s: Seq<char>, from: int) -> int
    decreases s.len() - from,
{
    if from >= s.len() || !is_white_space(s[from]) {
        from
    } else {
        leading_space(s, from + 1)
    }
}

/// Just past the last character after `floor` that is not white space.
pub open spec fn trailing_end(s: Seq<char>, floor: int) -> int
    decreases s.len(),
{
    if s.len() == 0 || s.len() as int <= floor || !is_white_space(s.last()) {
        s.len() as int
    } else {
        trailing_end(s.drop_last(), floor)
    }
}

proof fn lemma_leading_space(s: Seq<char>, from: int)
    requires
        0 <= from <= s.len(),
    ensures
        from <= leading_space(s, from) <= s.len(),
    decreases s.len() - from,
{
    if from < s.len() && is_white_space(s[from]) {
        lemma_leading_space(s, from + 1);
    }
}

proof fn lemma_trailing_end(s: Seq<char>, floor: int)
    requires
        0 <= floor <= s.len(),
    ensures
        floor <= trailing_end(s, floor) <= s.len(),
    decreases s.len(),
{
    if s.len() as int > floor && is_white_space(s.last()) {
        lemma_trailing_end(s.drop_last(), floor);
    }
}

/// `s` without leading and trailing white space.
pub fn trim(s: &str) -> (r: &str)
    ensures
        r@ == spec_trim(s@),
{
    let n = s.unicode_len();
    let mut start: usize = 0;
    while start < n && white_space(s.get_char(start))
        invariant
            n == s@.len(),
            start <= n,
            leading_space(s@, start as int) == leading_space(s@, 0),
        decreases n - start,
    {
        start = start + 1;
    }
    assert(leading_space(s@, start as int) == start);
    let mut end: usize = n;
    assert(s@.take(n as int) =~= s@);
    while end > start && white_space(s.get_char(end - 1))
        invariant
            n == s@.len(),
            start <= end <= n,
            trailing_end(s@.take(end as int), start as int) == trailing_end(s@, start as int),
        decreases end,
    {
        proof {
            assert(s@.take(end as int).drop_last() =~= s@.take(end - 1));
        }
        end = end - 1;
    }
    proof {
        assert(trailing_end(s@.take(end as int), start as int) == end);
    }
    s.substring_char(start, end)
}

/// Whether `a` sorts before `b`: character by character, by code point, a
/// proper prefix first. For UTF-8 text that is the byte order `str`'s `Ord`
/// uses.
pub open spec fn text_lt(a: Seq<char>, b: Seq<char>) -> bool
    decreases a.len(),
{
    if b.len() == 0 {
        false
    } else if a.len() == 0 {
        true
    } else if (a[0] as u32) != (b[0] as u32) {
        (a[0] as u32) < (b[0] as u32)
    } else {
        text_lt(a.drop_first(), b.drop_first())
    }
}

/// Whether `a` sorts before `b`.
pub fn text_less(a: &str, b: &str) -> (r: bool)
    ensures
        r == text_lt(a@, b@),
{
    let n = a.unicode_len();
    let m = b.unicode_len();
    let mut i: usize = 0;
    assert(a@.skip(0) =~= a@ && b@.skip(0) =~= b@);
    while i < n && i < m && a.get_char(i) == b.get_char(i)
        invariant
            n == a@.len(),
            m == b@.len(),
            i <= n,
            i <= m,
            text_lt(a@, b@) == text_lt(a@.skip(i as int), b@.skip(i as int)),
        decreases n - i,
    {
        proof {
            assert(a@.skip(i as int).drop_first() =~= a@.skip(i + 1));
            assert(b@.skip(i as int).drop_first() =~= b@.skip(i + 1));
        }
        i = i + 1;
    }
    if i == m {
        return false;
    }
    if i == n {
        return true;
    }
    (a.get_char(i) as u32) < (b.get_char(i) as u32)
}

/// `s` in uppercase by Unicode's case mapping, as `str::to_uppercase`.
pub uninterp spec fn uppercase(s: Seq<char>) -> Seq<char>;

/// `c` with an ASCII lowercase letter made capital.
pub open spec fn ascii_upper(c: char) -> char {
    if 'a' <= c <= 'z' {
        ((c as u32) - 32) as char
    } else {
        c
    }
}

/// `str::to_uppercase`. The full Unicode mapping is left as a name; on ASCII
/// text it turns each `a`-`z` into `A`-`Z` and keeps everything else, as its
/// documentation's "Uppercase" property says for that range, which is stated.
#[verifier::external_body]
pub(crate) fn to_uppercase(s: &str) -> (r: String)
    ensures
        r@ == uppercase(s@),
        (forall|i: int| 0 <= i < s@.len() ==> (#[trigger] s@[i] as u32) < 128) ==> r@ == s@.map_values(
            |c: char| ascii_upper(c),
        ),
{
    s.to_uppercase()
}

} // verus!
