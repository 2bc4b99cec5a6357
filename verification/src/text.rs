//! Text utilities shared by the framework: building strings, decimal
//! rendering and parsing of integers, and the character and case
//! predicates that the framework's rules are stated in.

use vstd::prelude::*;

verus! {

// ── building strings ────────────────────────────────────────────────────────

/// The texts of a list of strings.
pub open spec fn texts(v: Seq<String>) -> Seq<Seq<char>> {
    v.map_values(|s: String| s@)
}

/// The texts joined with `sep` between each two.
pub open spec fn join_sep(v: Seq<Seq<char>>, sep: Seq<char>) -> Seq<char>
    decreases v.len(),
{
    if v.len() == 0 {
        Seq::empty()
    } else if v.len() == 1 {
        v[0]
    } else {
        join_sep(v.drop_last(), sep) + sep + v.last()
    }
}

/// Appends one character to a string (`String::push`).
#[verifier::external_body]
pub(crate) fn push_char(s: &mut String, c: char)
    ensures
        final(s)@ == old(s)@.push(c),
{
    s.push(c);
}

/// The character of a decimal digit.
pub open spec fn digit_char(d: int) -> char {
    ((d + 48) as u32) as char
}

/// The decimal rendering of a natural number, without leading zeros.
pub open spec fn decimal(n: nat) -> Seq<char>
    decreases n,
{
    if n < 10 {
        seq![digit_char(n as int)]
    } else {
        decimal(n / 10).push(digit_char((n % 10) as int))
    }
}

/// The decimal rendering of an integer, with a leading `-` when negative.
pub open spec fn signed_decimal(i: int) -> Seq<char> {
    if i < 0 {
        seq!['-'] + decimal((-i) as nat)
    } else {
        decimal(i as nat)
    }
}

fn digit(d: u64) -> (c: char)
    requires
        d < 10,
    ensures
        c == digit_char(d as int),
{
    let b: u8 = 48u8 + (d as u8);
    b as char
}

/// Appends the decimal rendering of `n` to `s`.
pub fn push_decimal(s: &mut String, n: u64)
    ensures
        final(s)@ == old(s)@ + decimal(n as nat),
    decreases n,
{
    if n >= 10 {
        push_decimal(s, n / 10);
    }
    push_char(s, digit(n % 10));
    assert(s@ =~= old(s)@ + decimal(n as nat));
}

} // verus!

verus! {

/// Whether two strings hold the same characters.
pub fn str_eq(a: &str, b: &str) -> (r: bool)
    ensures
        r == (a@ == b@),
{
    let n = a.unicode_len();
    if n != b.unicode_len() {
        return false;
    }
    let mut i: usize = 0;
    while i < n
        invariant
            n == a@.len(),
            n == b@.len(),
            i <= n,
            forall|j: int| 0 <= j < i ==> a@[j] == b@[j],
        decreases n - i,
    {
        if a.get_char(i) != b.get_char(i) {
            return false;
        }
        i += 1;
    }
    assert(a@ =~= b@);
    true
}

} // verus!

verus! {

/// The characters of a string, in order (`str::chars`, collected).
#[verifier::external_body]
pub(crate) fn chars_of(s: &str) -> (v: Vec<char>)
    ensures
        v@ == s@,
{
    s.chars().collect()
}

/// The string made of the characters `v[lo..hi]`.
pub fn string_of(v: &Vec<char>, lo: usize, hi: usize) -> (s: String)
    requires
        lo <= hi <= v@.len(),
    ensures
        s@ == v@.subrange(lo as int, hi as int),
{
    let mut s = String::new();
    let mut i = lo;
    while i < hi
        invariant
            lo <= i <= hi,
            hi <= v@.len(),
            s@ == v@.subrange(lo as int, i as int),
        decreases hi - i,
    {
        push_char(&mut s, v[i]);
        i += 1;
        assert(s@ =~= v@.subrange(lo as int, i as int));
    }
    s
}

/// Appends the decimal rendering of a signed integer to `s`.
pub fn push_signed_decimal(s: &mut String, n: i64)
    ensures
        final(s)@ == old(s)@ + signed_decimal(n as int),
{
    if n < 0 {
        push_char(s, '-');
        let m: u64 = (0i128 - (n as i128)) as u64;
        push_decimal(s, m);
        assert(s@ =~= old(s)@ + signed_decimal(n as int));
    } else {
        push_decimal(s, n as u64);
    }
}

// ── case and character classes ──────────────────────────────────────────────

/// What `str::to_lowercase` gives for a string (Unicode lower case mapping).
pub uninterp spec fn spec_to_lowercase(s: Seq<char>) -> Seq<char>;

/// What `str::to_uppercase` gives for a string (Unicode upper case mapping).
pub uninterp spec fn spec_to_uppercase(s: Seq<char>) -> Seq<char>;

/// Whether a character is white space, as `char::is_whitespace` decides it:
/// the characters with the Unicode `White_Space` property, a fixed list of
/// 25 code points.
pub open spec fn spec_is_whitespace(c: char) -> bool {
    let u = c as u32;
    ||| 0x09 <= u <= 0x0D
    ||| u == 0x20
    ||| u == 0x85
    ||| u == 0xA0
    ||| u == 0x1680
    ||| 0x2000 <= u <= 0x200A
    ||| u == 0x2028
    ||| u == 0x2029
    ||| u == 0x202F
    ||| u == 0x205F
    ||| u == 0x3000
}

/// Whether `char::is_alphabetic` holds of a character (Unicode `Alphabetic`).
pub uninterp spec fn spec_is_alphabetic(c: char) -> bool;

/// Whether `char::is_alphanumeric` holds of a character.
pub uninterp spec fn spec_is_alphanumeric(c: char) -> bool;

/// Whether `char::is_uppercase` holds of a character (Unicode `Uppercase`).
pub uninterp spec fn spec_is_uppercase(c: char) -> bool;

/// Whether every character is ASCII.
pub open spec fn all_ascii(s: Seq<char>) -> bool {
    forall|i: int| 0 <= i < s.len() ==> (s[i] as u32) < 128
}

/// The ASCII lower case of a character; other characters are unchanged.
pub open spec fn ascii_lower_char(c: char) -> char {
    if 'A' <= c && c <= 'Z' {
        ((c as u32) + 32) as char
    } else {
        c
    }
}

/// The ASCII upper case of a character; other characters are unchanged.
pub open spec fn ascii_upper_char(c: char) -> char {
    if 'a' <= c && c <= 'z' {
        ((c as u32) - 32) as char
    } else {
        c
    }
}

/// `str::to_lowercase`. On ASCII text it maps `A`..`Z` to `a`..`z` and
/// leaves every other character alone, as std documents; beyond ASCII its
/// result is left to the name `spec_to_lowercase`.
#[verifier::external_body]
pub(crate) fn to_lowercase(s: &str) -> (r: String)
    ensures
        r@ == spec_to_lowercase(s@),
        all_ascii(s@) ==> r@ == s@.map_values(|c: char| ascii_lower_char(c)),
{
    s.to_lowercase()
}

/// `str::to_uppercase`. On ASCII text it maps `a`..`z` to `A`..`Z` and
/// leaves every other character alone, as std documents; beyond ASCII its
/// result is left to the name `spec_to_uppercase`.
#[verifier::external_body]
pub(crate) fn to_uppercase(s: &str) -> (r: String)
    ensures
        r@ == spec_to_uppercase(s@),
        all_ascii(s@) ==> r@ == s@.map_values(|c: char| ascii_upper_char(c)),
{
    s.to_uppercase()
}

/// Whether a character is white space (`char::is_whitespace`).
pub(crate) fn is_whitespace(c: char) -> (b: bool)
    ensures
        b == spec_is_whitespace(c),
{
    let u = c as u32;
    (0x09 <= u && u <= 0x0D) || u == 0x20 || u == 0x85 || u == 0xA0 || u == 0x1680 || (0x2000
        <= u && u <= 0x200A) || u == 0x2028 || u == 0x2029 || u == 0x202F || u == 0x205F || u
        == 0x3000
}

/// `char::is_alphabetic`.
#[verifier::external_body]
pub(crate) fn is_alphabetic(c: char) -> (b: bool)
    ensures
        b == spec_is_alphabetic(c),
{
    c.is_alphabetic()
}

/// `char::is_alphanumeric`.
#[verifier::external_body]
pub(crate) fn is_alphanumeric(c: char) -> (b: bool)
    ensures
        b == spec_is_alphanumeric(c),
{
    c.is_alphanumeric()
}

/// `char::is_uppercase`.
#[verifier::external_body]
pub(crate) fn is_uppercase(c: char) -> (b: bool)
    ensures
        b == spec_is_uppercase(c),
{
    c.is_uppercase()
}

// ── trimming ────────────────────────────────────────────────────────────────

/// The text without its leading white space.
pub open spec fn trim_start(s: Seq<char>) -> Seq<char>
    decreases s.len(),
{
    if s.len() > 0 && spec_is_whitespace(s[0]) {
        trim_start(s.drop_first())
    } else {
        s
    }
}

/// The text without its trailing white space.
pub open spec fn trim_end(s: Seq<char>) -> Seq<char>
    decreases s.len(),
{
    if s.len() > 0 && spec_is_whitespace(s.last()) {
        trim_end(s.drop_last())
    } else {
        s
    }
}

/// The text without leading and trailing white space (`str::trim`).
pub open spec fn trim(s: Seq<char>) -> Seq<char> {
    trim_end(trim_start(s))
}

/// The bounds `lo..hi` within `v[from..to]` of that range with its white
/// space trimmed at both ends.
pub fn trim_bounds(v: &Vec<char>, from: usize, to: usize) -> (r: (usize, usize))
    requires
        from <= to <= v@.len(),
    ensures
        from <= r.0 <= r.1 <= to,
        v@.subrange(r.0 as int, r.1 as int) == trim(v@.subrange(from as int, to as int)),
{
    let ghost s = v@.subrange(from as int, to as int);
    let mut lo = from;
    while lo < to && is_whitespace(v[lo])
        invariant
            from <= lo <= to,
            to <= v@.len(),
            s == v@.subrange(from as int, to as int),
            trim_start(s) == trim_start(v@.subrange(lo as int, to as int)),
        decreases to - lo,
    {
        let ghost t = v@.subrange(lo as int, to as int);
        assert(t.drop_first() =~= v@.subrange(lo + 1, to as int));
        lo += 1;
    }
    assert(trim_start(s) == v@.subrange(lo as int, to as int));
    let mut hi = to;
    while hi > lo && is_whitespace(v[hi - 1])
        invariant
            from <= lo <= hi <= to,
            to <= v@.len(),
            trim_end(trim_start(s)) == trim_end(v@.subrange(lo as int, hi as int)),
        decreases hi - lo,
    {
        let ghost t = v@.subrange(lo as int, hi as int);
        assert(t.drop_last() =~= v@.subrange(lo as int, hi - 1));
        hi -= 1;
    }
    (lo, hi)
}

// ── parsing integers ────────────────────────────────────────────────────────

/// Whether a character is an ASCII decimal digit.
pub open spec fn is_digit(c: char) -> bool {
    '0' <= c && c <= '9'
}

/// The value of a run of decimal digits.
pub open spec fn digits_value(s: Seq<char>) -> int
    decreases s.len(),
{
    if s.len() == 0 {
        0
    } else {
        digits_value(s.drop_last()) * 10 + (s.last() as int - 48)
    }
}

/// A non-empty run of decimal digits.
pub open spec fn all_digits(s: Seq<char>) -> bool {
    s.len() > 0 && forall|i: int| 0 <= i < s.len() ==> is_digit(#[trigger] s[i])
}

/// The number that Rust's integer parsing reads from the text, before the
/// range of the target type is checked: an optional sign (`-` only where
/// `signed`), then at least one decimal digit and nothing else.
pub open spec fn integer_text_value(s: Seq<char>, signed: bool) -> Option<int> {
    if s.len() > 0 && s[0] == '+' {
        if all_digits(s.drop_first()) {
            Some(digits_value(s.drop_first()))
        } else {
            None
        }
    } else if signed && s.len() > 0 && s[0] == '-' {
        if all_digits(s.drop_first()) {
            Some(-digits_value(s.drop_first()))
        } else {
            None
        }
    } else if all_digits(s) {
        Some(digits_value(s))
    } else {
        None
    }
}

/// What `str::parse::<i64>` gives.
pub open spec fn parse_i64_spec(s: Seq<char>) -> Option<i64> {
    match integer_text_value(s, true) {
        Some(v) => if i64::MIN <= v <= i64::MAX {
            Some(v as i64)
        } else {
            None
        },
        None => None,
    }
}

proof fn lemma_decimal_digits(n: nat)
    ensures
        all_digits(decimal(n)),
        digits_value(decimal(n)) == n,
    decreases n,
{
    let d = decimal(n);
    if n < 10 {
        assert(d.drop_last() =~= Seq::<char>::empty());
        assert(d.last() as int == n + 48);
        assert(digits_value(d) == digits_value(d.drop_last()) * 10 + (d.last() as int - 48));
    } else {
        lemma_decimal_digits(n / 10);
        assert(d.drop_last() =~= decimal(n / 10));
        assert(d.last() as int == (n % 10) + 48);
        assert(digits_value(d) == digits_value(d.drop_last()) * 10 + (d.last() as int - 48));
        assert((n / 10) * 10 + n % 10 == n);
        assert forall|i: int| 0 <= i < d.len() implies is_digit(#[trigger] d[i]) by {
            if i < d.len() - 1 {
                assert(d[i] == decimal(n / 10)[i]);
            }
        }
    }
}

/// Parsing the decimal rendering of an `i64` gives the number back.
pub proof fn lemma_parse_signed_decimal(i: i64)
    ensures
        parse_i64_spec(signed_decimal(i as int)) == Some(i),
{
    let s = signed_decimal(i as int);
    if i < 0 {
        let m = (-(i as int)) as nat;
        lemma_decimal_digits(m);
        assert(s.drop_first() =~= decimal(m));
        assert(s[0] == '-');
    } else {
        lemma_decimal_digits(i as nat);
        assert(is_digit(s[0]));
    }
}

/// What `str::parse::<usize>` gives.
pub open spec fn parse_usize_spec(s: Seq<char>) -> Option<usize> {
    match integer_text_value(s, false) {
        Some(v) => if 0 <= v <= usize::MAX {
            Some(v as usize)
        } else {
            None
        },
        None => None,
    }
}

/// What `str::parse::<u64>` gives.
pub open spec fn parse_u64_spec(s: Seq<char>) -> Option<u64> {
    match integer_text_value(s, false) {
        Some(v) => if 0 <= v <= u64::MAX {
            Some(v as u64)
        } else {
            None
        },
        None => None,
    }
}

proof fn lemma_digits_nonneg(s: Seq<char>)
    requires
        forall|i: int| 0 <= i < s.len() ==> is_digit(#[trigger] s[i]),
    ensures
        digits_value(s) >= 0,
    decreases s.len(),
{
    if s.len() > 0 {
        lemma_digits_nonneg(s.drop_last());
    }
}

/// Reads the digits `v[from..]`; the result is their value when it is at
/// most `limit`, and `None` when a character is not a digit, there are no
/// digits, or the value exceeds `limit`.
fn read_digits(v: &Vec<char>, from: usize, limit: u128) -> (r: Option<u128>)
    requires
        from <= v@.len(),
        limit < 0x1_0000_0000_0000_0000_0000,
    ensures
        match r {
            Some(n) => all_digits(v@.skip(from as int)) && n == digits_value(v@.skip(from as int))
                && n <= limit,
            None => !all_digits(v@.skip(from as int)) || digits_value(v@.skip(from as int))
                > limit,
        },
{
    let n = v.len();
    if from == n {
        return None;
    }
    let mut acc: u128 = 0;
    let mut i = from;
    while i < n
        invariant
            from <= i <= n,
            n == v@.len(),
            from < n,
            limit < 0x1_0000_0000_0000_0000_0000,
            acc <= limit,
            forall|j: int| from <= j < i ==> is_digit(#[trigger] v@[j]),
            acc == digits_value(v@.subrange(from as int, i as int)),
        decreases n - i,
    {
        let c = v[i];
        if !('0' <= c && c <= '9') {
            assert(!is_digit(v@.skip(from as int)[i - from]));
            return None;
        }
        let d = (c as u32 - 48) as u128;
        let ghost pre = v@.subrange(from as int, i as int);
        let ghost post = v@.subrange(from as int, i + 1);
        assert(post.drop_last() =~= pre);
        let next: u128 = acc * 10 + d;
        if next > limit {
            // the remaining digits can only make the value larger
            proof {
                let whole = v@.skip(from as int);
                if all_digits(whole) {
                    lemma_digits_prefix_le(whole, (i + 1 - from) as nat);
                    assert(whole.subrange(0, i + 1 - from) =~= post);
                }
            }
            return None;
        }
        acc = next;
        i += 1;
    }
    assert(v@.subrange(from as int, n as int) =~= v@.skip(from as int));
    Some(acc)
}

/// The value of a run of digits is at least that of any of its prefixes.
proof fn lemma_digits_prefix_le(s: Seq<char>, k: nat)
    requires
        all_digits(s),
        k <= s.len(),
    ensures
        digits_value(s.subrange(0, k as int)) <= digits_value(s),
    decreases s.len() - k,
{
    if k < s.len() {
        lemma_digits_prefix_le(s, k + 1);
        let a = s.subrange(0, k as int);
        let b = s.subrange(0, (k + 1) as int);
        assert(b.drop_last() =~= a);
        assert forall|i: int| 0 <= i < a.len() implies is_digit(#[trigger] a[i]) by {
            assert(a[i] == s[i]);
        }
        lemma_digits_nonneg(a);
    } else {
        assert(s.subrange(0, k as int) =~= s);
    }
}

/// `str::parse::<i64>`.
pub fn parse_i64(s: &str) -> (r: Option<i64>)
    ensures
        r == parse_i64_spec(s@),
{
    let v = chars_of(s);
    let n = v.len();
    if n > 0 && v[0] == '+' {
        assert(v@.skip(1) =~= v@.drop_first());
        match read_digits(&v, 1, 9223372036854775807) {
            Some(x) => Some(x as i64),
            None => None,
        }
    } else if n > 0 && v[0] == '-' {
        assert(v@.skip(1) =~= v@.drop_first());
        match read_digits(&v, 1, 9223372036854775808) {
            Some(x) => Some((0i128 - (x as i128)) as i64),
            None => None,
        }
    } else {
        assert(v@.skip(0) =~= v@);
        match read_digits(&v, 0, 9223372036854775807) {
            Some(x) => Some(x as i64),
            None => None,
        }
    }
}

/// `str::parse::<usize>`.
pub fn parse_usize(s: &str) -> (r: Option<usize>)
    ensures
        r == parse_usize_spec(s@),
{
    let v = chars_of(s);
    let n = v.len();
    if n > 0 && v[0] == '+' {
        assert(v@.skip(1) =~= v@.drop_first());
        match read_digits(&v, 1, usize::MAX as u128) {
            Some(x) => Some(x as usize),
            None => None,
        }
    } else {
        assert(v@.skip(0) =~= v@);
        match read_digits(&v, 0, usize::MAX as u128) {
            Some(x) => Some(x as usize),
            None => None,
        }
    }
}

/// `str::parse::<u64>`.
pub fn parse_u64(s: &str) -> (r: Option<u64>)
    ensures
        r == parse_u64_spec(s@),
{
    let v = chars_of(s);
    let n = v.len();
    if n > 0 && v[0] == '+' {
        assert(v@.skip(1) =~= v@.drop_first());
        match read_digits(&v, 1, u64::MAX as u128) {
            Some(x) => Some(x as u64),
            None => None,
        }
    } else {
        assert(v@.skip(0) =~= v@);
        match read_digits(&v, 0, u64::MAX as u128) {
            Some(x) => Some(x as u64),
            None => None,
        }
    }
}

/// A query value read as a `u64`, or the default when it is absent or
/// does not read as one.
pub fn parse_u64_or(s: Option<&str>, default: u64) -> (r: u64)
    ensures
        r == match s {
            Some(t) => match parse_u64_spec(t@) {
                Some(v) => v,
                None => default,
            },
            None => default,
        },
{
    match s {
        Some(t) => match parse_u64(t) {
            Some(v) => v,
            None => default,
        },
        None => default,
    }
}

} // verus!

verus! {

/// Appends the strings joined with `sep` to `out` (`[String]::join`).
pub fn push_joined(out: &mut String, v: &Vec<String>, sep: &str)
    ensures
        final(out)@ == old(out)@ + join_sep(texts(v@), sep@),
{
    let ghost t = texts(v@);
    let mut i: usize = 0;
    assert(t.take(0) =~= Seq::<Seq<char>>::empty());
    while i < v.len()
        invariant
            i <= v@.len(),
            t == texts(v@),
            out@ == old(out)@ + join_sep(t.take(i as int), sep@),
        decreases v@.len() - i,
    {
        let ghost before = out@;
        if i > 0 {
            out.append(sep);
        }
        out.append(v[i].as_str());
        assert(t.take(i + 1).drop_last() =~= t.take(i as int));
        assert(out@ =~= old(out)@ + join_sep(t.take(i + 1), sep@));
        i += 1;
    }
    assert(t.take(v@.len() as int) =~= t);
}

/// The strings joined with `sep` between each two.
pub fn join_strings(v: &Vec<String>, sep: &str) -> (r: String)
    ensures
        r@ == join_sep(texts(v@), sep@),
{
    let mut out = String::new();
    push_joined(&mut out, v, sep);
    assert(out@ =~= join_sep(texts(v@), sep@));
    out
}

} // verus!
