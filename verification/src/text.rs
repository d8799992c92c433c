//! Small text helpers shared by the shell models: decimal rendering and
//! whitespace trimming.
use vstd::prelude::*;

verus! {

/// The character of decimal digit `d` (`d < 10`).
pub open spec fn digit_char(d: nat) -> char {
    if d == 0 { '0' }
    else if d == 1 { '1' }
    else if d == 2 { '2' }
    else if d == 3 { '3' }
    else if d == 4 { '4' }
    else if d == 5 { '5' }
    else if d == 6 { '6' }
    else if d == 7 { '7' }
    else if d == 8 { '8' }
    else { '9' }
}

/// Decimal rendering of `n`, without sign or leading zeros.
pub open spec fn decimal(n: nat) -> Seq<char>
    decreases n,
{
    if n < 10 {
        seq![digit_char(n)]
    } else {
        decimal(n / 10).push(digit_char(n % 10))
    }
}

fn digit_str(d: u8) -> (s: &'static str)
    requires
        d < 10,
    ensures
        s@ == seq![digit_char(d as nat)],
{
    proof {
        reveal_strlit("0");
        reveal_strlit("1");
        reveal_strlit("2");
        reveal_strlit("3");
        reveal_strlit("4");
        reveal_strlit("5");
        reveal_strlit("6");
        reveal_strlit("7");
        reveal_strlit("8");
        reveal_strlit("9");
    }
    match d {
        0 => "0",
        1 => "1",
        2 => "2",
        3 => "3",
        4 => "4",
        5 => "5",
        6 => "6",
        7 => "7",
        8 => "8",
        _ => "9",
    }
}

/// Append the decimal rendering of `n` to `s`.
pub fn append_decimal(s: &mut String, n: u128)
    ensures
        final(s)@ == old(s)@ + decimal(n as nat),
    decreases n,
{
    if n >= 10 {
        append_decimal(s, n / 10);
    }
    let d = (n % 10) as u8;
    s.append(digit_str(d));
    proof {
        if n >= 10 {
            assert(decimal(n as nat) == decimal((n / 10) as nat).push(digit_char((n % 10) as nat)));
        }
    }
    assert(final(s)@ =~= old(s)@ + decimal(n as nat));
}

/// Decimal rendering of a signed integer: a minus sign before negatives.
pub open spec fn signed_decimal(n: int) -> Seq<char> {
    if n < 0 {
        seq!['-'] + decimal((-n) as nat)
    } else {
        decimal(n as nat)
    }
}

/// Append the signed decimal rendering of `n` to `s`.
pub fn append_i64(s: &mut String, n: i64)
    ensures
        final(s)@ == old(s)@ + signed_decimal(n as int),
{
    if n < 0 {
        s.append("-");
        proof {
            reveal_strlit("-");
        }
        let m: u128 = (0i128 - n as i128) as u128;
        append_decimal(s, m);
        assert(final(s)@ =~= old(s)@ + signed_decimal(n as int));
    } else {
        append_decimal(s, n as u128);
    }
}

pub open spec fn is_ascii_digit(c: char) -> bool {
    '0' <= c && c <= '9'
}

/// Value of a string of ASCII digits.
pub open spec fn digits_value(d: Seq<char>) -> int
    decreases d.len(),
{
    if d.len() == 0 {
        0
    } else {
        10 * digits_value(d.drop_last()) + (d.last() as int - '0' as int)
    }
}

pub open spec fn all_ascii_digits(d: Seq<char>) -> bool {
    forall|i: int| 0 <= i < d.len() ==> is_ascii_digit(#[trigger] d[i])
}

/// `s` without a leading sign character.
pub open spec fn unsigned_part(s: Seq<char>) -> Seq<char> {
    if s.len() > 0 && (s[0] == '-' || s[0] == '+') {
        s.drop_first()
    } else {
        s
    }
}

/// The integer a decimal text denotes: an optional `+` or `-` followed by
/// one or more ASCII digits, nothing else.
pub open spec fn decimal_text_value(s: Seq<char>) -> Option<int> {
    let body = unsigned_part(s);
    if body.len() == 0 || !all_ascii_digits(body) {
        None
    } else if s[0] == '-' {
        Some(-digits_value(body))
    } else {
        Some(digits_value(body))
    }
}

/// The `i64` a decimal text denotes, when it is in range.
pub open spec fn parse_i64_spec(s: Seq<char>) -> Option<i64> {
    match decimal_text_value(s) {
        Some(v) => if i64::MIN <= v && v <= i64::MAX {
            Some(v as i64)
        } else {
            None
        },
        None => None,
    }
}

proof fn lemma_digits_value_nonneg(d: Seq<char>)
    requires
        forall|i: int| 0 <= i < d.len() ==> is_ascii_digit(#[trigger] d[i]),
    ensures
        digits_value(d) >= 0,
    decreases d.len(),
{
    if d.len() > 0 {
        lemma_digits_value_nonneg(d.drop_last());
        assert(is_ascii_digit(d[d.len() - 1]));
    }
}

proof fn lemma_digit_char_value(d: nat)
    requires
        d < 10,
    ensures
        is_ascii_digit(digit_char(d)),
        digit_char(d) as int - '0' as int == d,
{
}

proof fn lemma_decimal_digits(n: nat)
    ensures
        decimal(n).len() > 0,
        all_ascii_digits(decimal(n)),
        digits_value(decimal(n)) == n,
    decreases n,
{
    if n < 10 {
        lemma_digit_char_value(n);
        assert(seq![digit_char(n)].drop_last() =~= Seq::<char>::empty());
        assert(digits_value(Seq::<char>::empty()) == 0);
        assert(seq![digit_char(n)].last() == digit_char(n));
    } else {
        lemma_decimal_digits(n / 10);
        lemma_digit_char_value(n % 10);
        let d = decimal(n);
        assert(d.drop_last() =~= decimal(n / 10));
        assert(d.last() == digit_char(n % 10));
        assert(digits_value(d) == 10 * digits_value(decimal(n / 10)) + (digit_char(n % 10) as int - '0' as int));
        assert(10 * (n / 10) + n % 10 == n) by (nonlinear_arith);
        assert forall|i: int| 0 <= i < d.len() implies is_ascii_digit(#[trigger] d[i]) by {
            if i < d.len() - 1 {
                assert(d[i] == decimal(n / 10)[i]);
            }
        }
    }
}

/// A number written out in decimal reads back as the same number: the
/// text of every `i64` parses to it.
pub proof fn lemma_signed_decimal_parses_back(n: i64)
    ensures
        parse_i64_spec(signed_decimal(n as int)) == Some(n),
{
    if n < 0 {
        let m: nat = (-(n as int)) as nat;
        lemma_decimal_digits(m);
        let s = seq!['-'] + decimal(m);
        assert(s[0] == '-');
        assert(s.drop_first() =~= decimal(m));
        assert(unsigned_part(s) == decimal(m));
    } else {
        let m: nat = n as nat;
        lemma_decimal_digits(m);
        let d = decimal(m);
        assert(is_ascii_digit(d[0]));
        assert(unsigned_part(d) == d);
    }
}

/// Parse a decimal `i64` the way the standard library's `i64::from_str` does:
/// an optional sign, then ASCII digits, within range.
pub fn parse_i64(s: &str) -> (r: Option<i64>)
    ensures
        r == parse_i64_spec(s@),
{
    let n = s.unicode_len();
    if n == 0 {
        return None;
    }
    let c0 = s.get_char(0);
    assert(s@[0] == c0);
    let neg = c0 == '-';
    let start: usize = if c0 == '-' || c0 == '+' { 1 } else { 0 };
    let ghost body = unsigned_part(s@);
    if start == n {
        assert(body.len() == 0);
        return None;
    }
    assert(body =~= s@.subrange(start as int, n as int));
    let limit: u128 = 0x8000_0000_0000_0000;
    let mut acc: u128 = 0;
    let mut big = false;
    let mut i: usize = start;
    while i < n
        invariant
            n == s@.len(),
            start <= i <= n,
            start == 0 || start == 1,
            body == s@.subrange(start as int, n as int),
            body == unsigned_part(s@),
            n > 0,
            (start == 1) == (s@[0] == '-' || s@[0] == '+'),
            neg == (s@[0] == '-'),
            forall|k: int| 0 <= k < i - start ==> is_ascii_digit(#[trigger] body[k]),
            !big ==> acc == digits_value(body.take(i - start)) && acc <= limit,
            big ==> digits_value(body.take(i - start)) > limit,
            limit == 0x8000_0000_0000_0000u128,
        decreases n - i,
    {
        let c = s.get_char(i);
        if !('0' <= c && c <= '9') {
            assert(!is_ascii_digit(body[i - start]));
            assert(unsigned_part(s@) == body);
            assert(!all_ascii_digits(body));
            return None;
        }
        let d: u128 = (c as u32 - '0' as u32) as u128;
        assert(body.take(i - start + 1).drop_last() =~= body.take(i - start));
        assert(body.take(i - start + 1).last() == c);
        proof {
            lemma_digits_value_nonneg(body.take(i - start));
        }
        if !big {
            acc = acc * 10 + d;
            if acc > limit {
                big = true;
            }
        }
        i += 1;
    }
    assert(body.take(n - start) =~= body);
    if big {
        return None;
    }
    if neg {
        let v: i128 = 0i128 - (acc as i128);
        Some(v as i64)
    } else if acc < limit {
        Some(acc as i64)
    } else {
        None
    }
}

/// The text `str::to_lowercase` gives for `s` (Unicode lowercase mapping).
pub uninterp spec fn lowercase_of(s: Seq<char>) -> Seq<char>;

/// `str::to_lowercase`. The contract names the result: the lowercase
/// mapping of each character, as the standard library defines it.
#[verifier::external_body]
pub(crate) fn to_lowercase(s: &str) -> (r: String)
    ensures
        r@ == lowercase_of(s@),
{
    s.to_lowercase()
}

/// The characters `char::to_uppercase` gives for `c` (Unicode uppercase
/// mapping; one or more characters).
pub uninterp spec fn uppercase_of_char(c: char) -> Seq<char>;

/// `char::to_uppercase`, collected. The contract names the result.
#[verifier::external_body]
pub(crate) fn char_uppercase(c: char) -> (r: String)
    ensures
        r@ == uppercase_of_char(c),
{
    c.to_uppercase().collect()
}

/// Unicode `White_Space` characters, the set `str::trim` removes.
pub open spec fn is_white_space(c: char) -> bool {
    ||| '\u{9}' <= c <= '\u{d}'
    ||| c == ' '
    ||| c == '\u{85}'
    ||| c == '\u{a0}'
    ||| c == '\u{1680}'
    ||| '\u{2000}' <= c <= '\u{200a}'
    ||| c == '\u{2028}'
    ||| c == '\u{2029}'
    ||| c == '\u{202f}'
    ||| c == '\u{205f}'
    ||| c == '\u{3000}'
}

/// `s` without its leading white space.
pub open spec fn trim_start_spec(s: Seq<char>) -> Seq<char>
    decreases s.len(),
{
    if s.len() > 0 && is_white_space(s[0]) {
        trim_start_spec(s.drop_first())
    } else {
        s
    }
}

/// `s` without its trailing white space.
pub open spec fn trim_end_spec(s: Seq<char>) -> Seq<char>
    decreases s.len(),
{
    if s.len() > 0 && is_white_space(s.last()) {
        trim_end_spec(s.drop_last())
    } else {
        s
    }
}

/// `s` without leading and trailing white space.
pub open spec fn trim_spec(s: Seq<char>) -> Seq<char> {
    trim_end_spec(trim_start_spec(s))
}

fn is_white_space_exec(c: char) -> (b: bool)
    ensures
        b == is_white_space(c),
{
    ('\u{9}' <= c && c <= '\u{d}') || c == ' ' || c == '\u{85}' || c == '\u{a0}' || c == '\u{1680}' || ('\u{2000}'
        <= c && c <= '\u{200a}') || c == '\u{2028}' || c == '\u{2029}' || c == '\u{202f}' || c == '\u{205f}' || c
        == '\u{3000}'
}

proof fn lemma_trim_start_at(s: Seq<char>, k: int)
    requires
        0 <= k <= s.len(),
        k == s.len() || !is_white_space(s[k]),
        forall|j: int| 0 <= j < k ==> is_white_space(s[j]),
    ensures
        trim_start_spec(s) == s.subrange(k, s.len() as int),
    decreases k,
{
    if k > 0 {
        assert(s.drop_first().subrange(k - 1, s.len() - 1) =~= s.subrange(k, s.len() as int));
        lemma_trim_start_at(s.drop_first(), k - 1);
    } else {
        assert(s.subrange(0, s.len() as int) =~= s);
    }
}

proof fn lemma_trim_end_at(s: Seq<char>, k: int)
    requires
        0 <= k <= s.len(),
        k == 0 || !is_white_space(s[k - 1]),
        forall|j: int| k <= j < s.len() ==> is_white_space(s[j]),
    ensures
        trim_end_spec(s) == s.subrange(0, k),
    decreases s.len(),
{
    if s.len() > k {
        assert(s.drop_last().subrange(0, k) =~= s.subrange(0, k));
        lemma_trim_end_at(s.drop_last(), k);
    } else {
        assert(s.subrange(0, k) =~= s);
    }
}

/// The string without leading and trailing Unicode `White_Space`
/// characters, as `str::trim` gives it.
pub(crate) fn trim(s: &str) -> (r: &str)
    ensures
        r@ == trim_spec(s@),
{
    let n = s.unicode_len();
    let mut lo: usize = 0;
    while lo < n && is_white_space_exec(s.get_char(lo))
        invariant
            n == s@.len(),
            0 <= lo <= n,
            forall|j: int| 0 <= j < lo ==> is_white_space(s@[j]),
        decreases n - lo,
    {
        lo += 1;
    }
    let mut hi: usize = n;
    while hi > lo && is_white_space_exec(s.get_char(hi - 1))
        invariant
            n == s@.len(),
            lo <= hi <= n,
            forall|j: int| hi <= j < n ==> is_white_space(s@[j]),
        decreases hi,
    {
        hi -= 1;
    }
    proof {
        lemma_trim_start_at(s@, lo as int);
        let a = s@.subrange(lo as int, n as int);
        lemma_trim_end_at(a, (hi - lo) as int);
        assert(a.subrange(0, (hi - lo) as int) =~= s@.subrange(lo as int, hi as int));
    }
    s.substring_char(lo, hi)
}

/// `s` without its leading `c` characters.
pub open spec fn trim_start_char(s: Seq<char>, c: char) -> Seq<char>
    decreases s.len(),
{
    if s.len() > 0 && s[0] == c {
        trim_start_char(s.drop_first(), c)
    } else {
        s
    }
}

/// `s` without its trailing `c` characters.
pub open spec fn trim_end_char(s: Seq<char>, c: char) -> Seq<char>
    decreases s.len(),
{
    if s.len() > 0 && s.last() == c {
        trim_end_char(s.drop_last(), c)
    } else {
        s
    }
}

/// When `s[k..]` is all `c` and `s[k - 1]` is not, trimming the trailing
/// `c` characters keeps exactly `s[..k]`.
pub proof fn lemma_trim_end_char_prefix(s: Seq<char>, c: char, k: int)
    requires
        0 <= k <= s.len(),
        k == 0 || s[k - 1] != c,
        forall|j: int| k <= j < s.len() ==> s[j] == c,
    ensures
        trim_end_char(s, c) == s.subrange(0, k),
    decreases s.len(),
{
    if s.len() > k {
        assert(s.drop_last().subrange(0, k) =~= s.subrange(0, k));
        lemma_trim_end_char_prefix(s.drop_last(), c, k);
    } else {
        assert(s.subrange(0, k) =~= s);
    }
}

/// When `s[..k]` is all `c` and `s[k]` is not, trimming the leading `c`
/// characters keeps exactly `s[k..]`.
pub proof fn lemma_trim_start_char_suffix(s: Seq<char>, c: char, k: int)
    requires
        0 <= k <= s.len(),
        k == s.len() || s[k] != c,
        forall|j: int| 0 <= j < k ==> s[j] == c,
    ensures
        trim_start_char(s, c) == s.subrange(k, s.len() as int),
    decreases k,
{
    if k > 0 {
        assert(s.drop_first().subrange(k - 1, s.len() - 1) =~= s.subrange(k, s.len() as int));
        lemma_trim_start_char_suffix(s.drop_first(), c, k - 1);
    } else {
        assert(s.subrange(0, s.len() as int) =~= s);
    }
}

/// `String::push`: appends one character.
#[verifier::external_body]
pub(crate) fn push_char(s: &mut String, c: char)
    ensures
        final(s)@ == old(s)@.push(c),
{
    s.push(c);
}

proof fn lemma_trim_start_shape(s: Seq<char>)
    ensures
        trim_start_spec(s).len() == 0 || !is_white_space(trim_start_spec(s)[0]),
        trim_start_spec(s).len() <= s.len(),
    decreases s.len(),
{
    if s.len() > 0 && is_white_space(s[0]) {
        lemma_trim_start_shape(s.drop_first());
    }
}

proof fn lemma_trim_end_shape(s: Seq<char>)
    ensures
        trim_end_spec(s).len() == 0 || !is_white_space(trim_end_spec(s).last()),
        trim_end_spec(s).len() <= s.len(),
        trim_end_spec(s) == s.subrange(0, trim_end_spec(s).len() as int),
    decreases s.len(),
{
    if s.len() > 0 && is_white_space(s.last()) {
        lemma_trim_end_shape(s.drop_last());
        let t = trim_end_spec(s.drop_last());
        assert(s.drop_last().subrange(0, t.len() as int) =~= s.subrange(0, t.len() as int));
    } else {
        assert(s.subrange(0, s.len() as int) =~= s);
    }
}

/// Trimming twice is trimming once.
pub proof fn lemma_trim_idempotent(s: Seq<char>)
    ensures
        trim_spec(trim_spec(s)) == trim_spec(s),
{
    let a = trim_start_spec(s);
    let t = trim_end_spec(a);
    lemma_trim_start_shape(s);
    lemma_trim_end_shape(a);
    if t.len() > 0 {
        assert(t[0] == a[0]);
        assert(trim_start_spec(t) == t);
        lemma_trim_end_shape(t);
        assert(trim_end_spec(t) == t);
    } else {
        assert(trim_start_spec(t) == t);
        assert(trim_end_spec(t) == t);
    }
}

/// `pat` occurs in `s` starting at `i`.
pub open spec fn occurs_at(s: Seq<char>, pat: Seq<char>, i: int) -> bool {
    0 <= i && i + pat.len() <= s.len() && s.subrange(i, i + pat.len()) == pat
}

/// `pat` occurs somewhere in `s`.
pub open spec fn contains_seq(s: Seq<char>, pat: Seq<char>) -> bool {
    exists|i: int| occurs_at(s, pat, i)
}

/// Whether `pat` occurs in `s`.
pub fn str_contains(s: &str, pat: &str) -> (b: bool)
    ensures
        b == contains_seq(s@, pat@),
{
    let n = s.unicode_len();
    let m = pat.unicode_len();
    if m > n {
        assert forall|i: int| !occurs_at(s@, pat@, i) by {}
        return false;
    }
    let mut i: usize = 0;
    while i <= n - m
        invariant
            n == s@.len(),
            m == pat@.len(),
            m <= n,
            0 <= i <= n - m + 1,
            forall|k: int| 0 <= k < i ==> !occurs_at(s@, pat@, k),
        decreases n - m + 1 - i,
    {
        let mut j: usize = 0;
        while j < m && s.get_char(i + j) == pat.get_char(j)
            invariant
                n == s@.len(),
                m == pat@.len(),
                i + m <= n,
                0 <= j <= m,
                forall|k: int| 0 <= k < j ==> s@[i + k] == pat@[k],
            decreases m - j,
        {
            j += 1;
        }
        if j == m {
            assert(s@.subrange(i as int, i + m) =~= pat@);
            assert(occurs_at(s@, pat@, i as int));
            return true;
        }
        assert(!occurs_at(s@, pat@, i as int)) by {
            if s@.subrange(i as int, i + m) == pat@ {
                assert(s@.subrange(i as int, i + m)[j as int] == s@[i + j]);
            }
        }
        i += 1;
    }
    assert forall|k: int| !occurs_at(s@, pat@, k) by {
        if 0 <= k && k + m <= n {
            assert(k < i);
        }
    }
    false
}

} // verus!
