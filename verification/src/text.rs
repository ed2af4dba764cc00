//! Character-level string helpers with exact specifications over `Seq<char>`.

use vstd::prelude::*;
use vstd::std_specs::iter::IteratorSpec;

verus! {

/// `needle` occurs in `hay` starting at index `i`.
pub open spec fn occurs_at(hay: Seq<char>, needle: Seq<char>, i: int) -> bool {
    &&& 0 <= i
    &&& i + needle.len() <= hay.len()
    &&& hay.subrange(i, i + needle.len()) == needle
}

/// `needle` occurs somewhere in `hay` (as `str::contains` with a string pattern).
pub open spec fn contains_seq(hay: Seq<char>, needle: Seq<char>) -> bool {
    exists|i: int| occurs_at(hay, needle, i)
}

/// `hay` begins with `prefix`.
pub open spec fn starts_with_seq(hay: Seq<char>, prefix: Seq<char>) -> bool {
    occurs_at(hay, prefix, 0)
}

/// `hay` ends with `suffix`.
pub open spec fn ends_with_seq(hay: Seq<char>, suffix: Seq<char>) -> bool {
    occurs_at(hay, suffix, hay.len() - suffix.len())
}

/// The characters of an optional string slice.
pub open spec fn opt_str_view(o: Option<&str>) -> Option<Seq<char>> {
    match o {
        Some(s) => Some(s@),
        None => None,
    }
}

/// The characters of an optional string.
pub open spec fn opt_string_view(o: Option<String>) -> Option<Seq<char>> {
    match o {
        Some(s) => Some(s@),
        None => None,
    }
}

/// The characters of `s`, in order.
pub fn chars_of(s: &str) -> (v: Vec<char>)
    ensures
        v@ == s@,
{
    let mut v: Vec<char> = Vec::new();
    let mut it = s.chars();
    let ghost total = s@;
    loop
        invariant
            it.remaining() == total.skip(v@.len() as int),
            v@ == total.take(v@.len() as int),
            v@.len() <= total.len(),
            total == s@,
        ensures
            v@ == total,
        decreases total.len() - v@.len(),
    {
        match it.next() {
            Some(c) => {
                v.push(c);
            },
            None => {
                assert(v@ =~= total);
                break;
            },
        }
    }
    v
}


/// Whether `needle` occurs in `hay` at index `i`, checked character by character.
fn occurs_at_exec(hay: &Vec<char>, needle: &Vec<char>, i: usize) -> (r: bool)
    requires
        i + needle@.len() <= hay@.len(),
    ensures
        r == occurs_at(hay@, needle@, i as int),
{
    let mut k: usize = 0;
    let n = hay.len();
    while k < needle.len()
        invariant
            n == hay@.len(),
            i + needle@.len() <= hay@.len(),
            k <= needle@.len(),
            forall|j: int| 0 <= j < k ==> hay@[i + j] == needle@[j],
        decreases needle@.len() - k,
    {
        if hay[i + k] != needle[k] {
            assert(hay@.subrange(i as int, i + needle@.len())[k as int] != needle@[k as int]);
            return false;
        }
        k = k + 1;
    }
    assert(hay@.subrange(i as int, i + needle@.len()) =~= needle@);
    true
}

/// Whether `needle` occurs anywhere in `hay`.
pub fn seq_contains(hay: &Vec<char>, needle: &Vec<char>) -> (r: bool)
    ensures
        r == contains_seq(hay@, needle@),
{
    if needle.len() > hay.len() {
        assert forall|i: int| !occurs_at(hay@, needle@, i) by {}
        return false;
    }
    let last = hay.len() - needle.len();
    let mut i: usize = 0;
    loop
        invariant
            last == hay@.len() - needle@.len(),
            i <= last,
            forall|j: int| 0 <= j < i ==> !occurs_at(hay@, needle@, j),
        ensures
            i == last,
            forall|j: int| 0 <= j <= last ==> !occurs_at(hay@, needle@, j),
        decreases last - i,
    {
        if occurs_at_exec(hay, needle, i) {
            return true;
        }
        if i == last {
            break;
        }
        i = i + 1;
    }
    assert forall|j: int| !occurs_at(hay@, needle@, j) by {
        if occurs_at(hay@, needle@, j) {
            assert(j <= last);
        }
    }
    false
}

/// `str::contains` with a string pattern.
pub fn str_contains(hay: &str, needle: &str) -> (r: bool)
    ensures
        r == contains_seq(hay@, needle@),
{
    let h = chars_of(hay);
    let n = chars_of(needle);
    seq_contains(&h, &n)
}

/// `str::starts_with` with a string pattern.
pub fn str_starts_with(hay: &str, prefix: &str) -> (r: bool)
    ensures
        r == starts_with_seq(hay@, prefix@),
{
    let h = chars_of(hay);
    let p = chars_of(prefix);
    if p.len() > h.len() {
        return false;
    }
    occurs_at_exec(&h, &p, 0)
}

/// `str::ends_with` with a string pattern.
pub fn str_ends_with(hay: &str, suffix: &str) -> (r: bool)
    ensures
        r == ends_with_seq(hay@, suffix@),
{
    let h = chars_of(hay);
    let p = chars_of(suffix);
    if p.len() > h.len() {
        return false;
    }
    occurs_at_exec(&h, &p, h.len() - p.len())
}

/// Equality of two string slices, character by character.
pub fn str_eq(a: &str, b: &str) -> (r: bool)
    ensures
        r == (a@ == b@),
{
    let x = chars_of(a);
    let y = chars_of(b);
    if x.len() != y.len() {
        return false;
    }
    let r = occurs_at_exec(&x, &y, 0);
    proof {
        if r {
            assert(x@ =~= x@.subrange(0, y@.len() as int));
        } else {
            assert(x@.subrange(0, y@.len() as int) =~= x@);
        }
    }
    r
}

/// Every occurrence of `from`, taken left to right without overlap, replaced by `to`
/// (as `str::replace` with a non-empty string pattern).
pub open spec fn replace_all(s: Seq<char>, from: Seq<char>, to: Seq<char>) -> Seq<char>
    decreases s.len(),
{
    if from.len() == 0 || s.len() < from.len() {
        s
    } else if s.subrange(0, from.len() as int) == from {
        to + replace_all(s.subrange(from.len() as int, s.len() as int), from, to)
    } else {
        seq![s[0]] + replace_all(s.drop_first(), from, to)
    }
}

/// Appends every character of `more` to `out`.
pub fn append_chars(out: &mut Vec<char>, more: &Vec<char>)
    ensures
        final(out)@ == old(out)@ + more@,
{
    let mut k: usize = 0;
    while k < more.len()
        invariant
            k <= more@.len(),
            out@ == old(out)@ + more@.take(k as int),
        decreases more@.len() - k,
    {
        out.push(more[k]);
        k = k + 1;
        assert(more@.take(k as int) =~= more@.take(k - 1).push(more@[k - 1]));
    }
    assert(more@.take(k as int) =~= more@);
}

/// Appends the characters of `s` to `out`.
pub fn push_str(out: &mut Vec<char>, s: &str)
    ensures
        final(out)@ == old(out)@ + s@,
{
    let c = chars_of(s);
    append_chars(out, &c);
}

/// Builds a `String` from its characters.
#[verifier::external_body]
pub(crate) fn string_from_chars(v: &Vec<char>) -> (r: String)
    ensures
        r@ == v@,
{
    v.iter().collect::<String>()
}

/// `str::replace` with a non-empty string pattern.
pub fn str_replace(s: &str, from: &str, to: &str) -> (r: String)
    ensures
        r@ == replace_all(s@, from@, to@),
{
    let src = chars_of(s);
    let pat = chars_of(from);
    let rep = chars_of(to);
    let mut out: Vec<char> = Vec::new();
    let mut i: usize = 0;
    assert(src@.subrange(0, src@.len() as int) =~= src@);
    while i < src.len()
        invariant
            src@ == s@,
            pat@ == from@,
            rep@ == to@,
            i <= src@.len(),
            out@ + replace_all(src@.subrange(i as int, src@.len() as int), pat@, rep@)
                == replace_all(src@, pat@, rep@),
        decreases src@.len() - i,
    {
        let ghost rest = src@.subrange(i as int, src@.len() as int);
        if pat.len() > 0 && pat.len() <= src.len() - i && occurs_at_exec(&src, &pat, i) {
            assert(rest.subrange(0, pat@.len() as int) =~= pat@);
            assert(rest.subrange(pat@.len() as int, rest.len() as int)
                =~= src@.subrange(i + pat@.len(), src@.len() as int));
            let ghost before = out@;
            append_chars(&mut out, &rep);
            assert(out@ =~= before + rep@);
            i = i + pat.len();
        } else {
            proof {
                if pat@.len() > 0 && pat@.len() <= rest.len() {
                    assert(rest.subrange(0, pat@.len() as int)
                        =~= src@.subrange(i as int, i + pat@.len()));
                }
            }
            assert(rest.drop_first() =~= src@.subrange(i + 1, src@.len() as int));
            out.push(src[i]);
            i = i + 1;
        }
    }
    assert(src@.subrange(i as int, src@.len() as int) =~= Seq::<char>::empty());
    assert(out@ + Seq::<char>::empty() =~= out@);
    string_from_chars(&out)
}


/// The ASCII character for decimal digit `d` (0..=9).
pub open spec fn digit_char(d: int) -> char {
    ((48 + d) as u8) as char
}

/// Decimal notation of a natural number, without leading zeros.
pub open spec fn nat_decimal(n: nat) -> Seq<char>
    decreases n,
{
    if n < 10 {
        seq![digit_char(n as int)]
    } else {
        nat_decimal(n / 10).push(digit_char((n % 10) as int))
    }
}

/// Decimal notation of an integer, as `Display` writes it: a leading `-` for negatives.
pub open spec fn int_decimal(n: int) -> Seq<char> {
    if n < 0 {
        seq!['-'] + nat_decimal((-n) as nat)
    } else {
        nat_decimal(n as nat)
    }
}

/// Appends the decimal notation of `n` to `out`.
pub fn push_nat_decimal(out: &mut Vec<char>, n: u64)
    ensures
        final(out)@ == old(out)@ + nat_decimal(n as nat),
    decreases n,
{
    if n >= 10 {
        push_nat_decimal(out, n / 10);
    }
    let d: u8 = (n % 10) as u8;
    out.push((48u8 + d) as char);
    proof {
        if n < 10 {
            assert(nat_decimal(n as nat) =~= seq![digit_char(n as int)]);
        }
    }
    assert(out@ =~= old(out)@ + nat_decimal(n as nat));
}

/// Appends the decimal notation of `n` to `out`.
pub fn push_decimal(out: &mut Vec<char>, n: i64)
    ensures
        final(out)@ == old(out)@ + int_decimal(n as int),
{
    if n < 0 {
        out.push('-');
        let m: u64 = (0i128 - (n as i128)) as u64;
        push_nat_decimal(out, m);
        assert(out@ =~= old(out)@ + int_decimal(n as int));
    } else {
        push_nat_decimal(out, n as u64);
    }
}

/// The decimal notation of `n` (as `n.to_string()`).
pub fn decimal_string(n: i64) -> (r: String)
    ensures
        r@ == int_decimal(n as int),
{
    let mut v: Vec<char> = Vec::new();
    push_decimal(&mut v, n);
    assert(v@ =~= int_decimal(n as int));
    string_from_chars(&v)
}

/// Characters `0` through `9`.
pub open spec fn is_ascii_digit(c: char) -> bool {
    '0' <= c <= '9'
}

/// Every character of `s` is an ASCII digit.
pub open spec fn all_ascii_digits(s: Seq<char>) -> bool {
    forall|i: int| 0 <= i < s.len() ==> is_ascii_digit(#[trigger] s[i])
}

/// The value of a string of decimal digits, most significant first.
pub open spec fn digits_value(s: Seq<char>) -> int
    decreases s.len(),
{
    if s.len() == 0 {
        0
    } else {
        digits_value(s.drop_last()) * 10 + (s.last() as int - 48)
    }
}

/// What `str::parse::<i32>` gives: an optional `+` or `-`, then one or more ASCII
/// digits, and a value within the range of `i32`; anything else is refused.
pub open spec fn parse_i32_spec(s: Seq<char>) -> Option<i32> {
    let neg = s.len() > 0 && s[0] == '-';
    let body = if s.len() > 0 && (s[0] == '-' || s[0] == '+') {
        s.drop_first()
    } else {
        s
    };
    let v = if neg {
        -digits_value(body)
    } else {
        digits_value(body)
    };
    if body.len() == 0 || !all_ascii_digits(body) {
        None
    } else if i32::MIN <= v <= i32::MAX {
        Some(v as i32)
    } else {
        None
    }
}

proof fn lemma_digits_value_nonneg(s: Seq<char>)
    requires
        forall|i: int| 0 <= i < s.len() ==> is_ascii_digit(#[trigger] s[i]),
    ensures
        digits_value(s) >= 0,
    decreases s.len(),
{
    if s.len() > 0 {
        lemma_digits_value_nonneg(s.drop_last());
    }
}

proof fn lemma_digits_value_grows(s: Seq<char>, k: int)
    requires
        0 <= k <= s.len(),
        forall|i: int| 0 <= i < s.len() ==> is_ascii_digit(#[trigger] s[i]),
    ensures
        digits_value(s.take(k)) <= digits_value(s),
    decreases s.len() - k,
{
    if k < s.len() {
        lemma_digits_value_grows(s, k + 1);
        assert(s.take(k + 1).drop_last() =~= s.take(k));
        lemma_digits_value_nonneg(s.take(k));
    } else {
        assert(s.take(k) =~= s);
    }
}

/// `str::parse::<i32>`.
pub fn parse_i32(s: &str) -> (r: Option<i32>)
    ensures
        r == parse_i32_spec(s@),
{
    let c = chars_of(s);
    let n = c.len();
    let mut start: usize = 0;
    let mut neg = false;
    if n > 0 && (c[0] == '-' || c[0] == '+') {
        start = 1;
        neg = c[0] == '-';
    }
    let ghost body = if s@.len() > 0 && (s@[0] == '-' || s@[0] == '+') {
        s@.drop_first()
    } else {
        s@
    };
    assert(body =~= c@.subrange(start as int, n as int));
    if start == n {
        return None;
    }
    let mut acc: i64 = 0;
    let mut k: usize = start;
    while k < n
        invariant
            c@ == s@,
            n == c@.len(),
            start <= k <= n,
            body =~= c@.subrange(start as int, n as int),
            body == (if s@.len() > 0 && (s@[0] == '-' || s@[0] == '+') {
                s@.drop_first()
            } else {
                s@
            }),
            neg == (s@.len() > 0 && s@[0] == '-'),
            forall|i: int| 0 <= i < k - start ==> is_ascii_digit(#[trigger] body[i]),
            acc == digits_value(body.take(k - start)),
            0 <= acc <= 2147483648,
        decreases n - k,
    {
        let ch = c[k];
        if !('0' <= ch && ch <= '9') {
            assert(!is_ascii_digit(body[k - start]));
            assert(!all_ascii_digits(body));
            return None;
        }
        let d: i64 = (ch as u32 - 48) as i64;
        assert(body.take(k + 1 - start).drop_last() =~= body.take(k - start));
        let next = acc * 10 + d;
        if next > 2147483648 {
            proof {
                let j = k + 1 - start;
                assert(digits_value(body.take(j)) == next);
                // the remaining digits can only make the value larger
                if all_ascii_digits(body) {
                    lemma_digits_value_grows(body, j);
                    assert(digits_value(body) > 2147483648);
                }
            }
            return None;
        }
        acc = next;
        k = k + 1;
    }
    assert(body.take(n - start) =~= body);
    if neg {
        Some((0 - acc) as i32)
    } else if acc <= 2147483647 {
        Some(acc as i32)
    } else {
        None
    }
}


/// `c` is an ASCII character.
pub open spec fn is_ascii_char(c: char) -> bool {
    (c as u32) < 128
}

/// Every character of `s` is ASCII.
pub open spec fn all_ascii(s: Seq<char>) -> bool {
    forall|i: int| 0 <= i < s.len() ==> is_ascii_char(#[trigger] s[i])
}

/// `A`..`Z` turned into `a`..`z`; any other character kept.
pub open spec fn ascii_lower_char(c: char) -> char {
    if 'A' <= c && c <= 'Z' {
        ((c as u32) + 32) as char
    } else {
        c
    }
}

/// `a`..`z` turned into `A`..`Z`; any other character kept.
pub open spec fn ascii_upper_char(c: char) -> char {
    if 'a' <= c && c <= 'z' {
        ((c as u32) - 32) as char
    } else {
        c
    }
}

/// Every `A`..`Z` of `s` turned into `a`..`z`.
pub open spec fn ascii_lower(s: Seq<char>) -> Seq<char> {
    s.map_values(|c: char| ascii_lower_char(c))
}

/// The lowercase form of a string that holds a non-ASCII character, as
/// `str::to_lowercase` computes it by the Unicode lowercase mapping; a function of the
/// string alone.
pub uninterp spec fn unicode_lowercase(s: Seq<char>) -> Seq<char>;

/// The lowercase form of a string, as `str::to_lowercase` computes it: ASCII text has
/// its capital letters lowered and nothing else changed; other text goes by the Unicode
/// lowercase mapping.
#[verifier::opaque]
pub open spec fn lowercase_of(s: Seq<char>) -> Seq<char> {
    if all_ascii(s) {
        ascii_lower(s)
    } else {
        unicode_lowercase(s)
    }
}

/// Calls `str::to_lowercase`. Its contract claims that ASCII text comes back with `A`..`Z`
/// lowered and nothing else changed (the Unicode lowercase mapping of ASCII characters),
/// and that for other text the result is a function of the argument, named
/// `unicode_lowercase`; the Unicode case tables are not restated here.
#[verifier::external_body]
pub(crate) fn to_lowercase(s: &str) -> (r: String)
    ensures
        r@ == lowercase_of(s@),
        all_ascii(s@) ==> r@ == ascii_lower(s@),
        !all_ascii(s@) ==> r@ == unicode_lowercase(s@),
{
    s.to_lowercase()
}

/// The uppercase form of a non-ASCII character, as `char::to_uppercase` yields it (one to
/// three characters); a function of the character alone.
pub uninterp spec fn unicode_uppercase_of_char(c: char) -> Seq<char>;

/// The uppercase form of a single character, as `char::to_uppercase` yields it: an
/// ASCII character gives itself with `a`..`z` raised; any other goes by the Unicode
/// uppercase mapping.
#[verifier::opaque]
pub open spec fn uppercase_of_char(c: char) -> Seq<char> {
    if is_ascii_char(c) {
        seq![ascii_upper_char(c)]
    } else {
        unicode_uppercase_of_char(c)
    }
}

/// Calls `char::to_uppercase` and collects its characters. Its contract claims that an
/// ASCII character gives itself with `a`..`z` raised (the Unicode uppercase mapping of
/// ASCII characters), and that for any other character the result is a function of the
/// character, named `unicode_uppercase_of_char`.
#[verifier::external_body]
pub(crate) fn char_to_uppercase(c: char) -> (r: String)
    ensures
        r@ == uppercase_of_char(c),
        is_ascii_char(c) ==> r@ == seq![ascii_upper_char(c)],
        !is_ascii_char(c) ==> r@ == unicode_uppercase_of_char(c),
{
    c.to_uppercase().collect::<String>()
}

/// Characters with the Unicode `White_Space` property.
#[verifier::opaque]
pub open spec fn is_white_space(c: char) -> bool {
    let u = c as u32;
    ||| 0x9 <= u <= 0xD
    ||| u == 0x20
    ||| u == 0x85
    ||| u == 0xA0
    ||| u == 0x1680
    ||| 0x2000 <= u <= 0x200A
    ||| u == 0x2028
    ||| u == 0x2029
    ||| u == 0x202F
    ||| u == 0x205F
    ||| u == 0x3000
}

/// Whether a character has the Unicode `White_Space` property (what `char::is_whitespace`
/// tests).
pub fn char_is_whitespace(c: char) -> (r: bool)
    ensures
        r == is_white_space(c),
{
    proof {
        reveal(is_white_space);
    }
    let u = c as u32;
    (0x9 <= u && u <= 0xD) || u == 0x20 || u == 0x85 || u == 0xA0 || u == 0x1680 || (0x2000 <= u
        && u <= 0x200A) || u == 0x2028 || u == 0x2029 || u == 0x202F || u == 0x205F || u == 0x3000
}

/// `s` without its leading and trailing `White_Space` characters (as `str::trim`).
pub open spec fn trim_seq(s: Seq<char>) -> Seq<char> {
    s.subrange(trim_start_index(s), trim_end_index(s))
}

/// Index of the first character of `s` that is not white space (`s.len()` if none).
pub open spec fn trim_start_index(s: Seq<char>) -> int {
    if exists|i: int| 0 <= i < s.len() && !is_white_space(#[trigger] s[i]) {
        choose|i: int|
            0 <= i < s.len() && !is_white_space(s[i]) && (forall|j: int|
                0 <= j < i ==> is_white_space(#[trigger] s[j]))
    } else {
        s.len() as int
    }
}

/// One past the index of the last character of `s` that is not white space
/// (`trim_start_index(s)` if none).
pub open spec fn trim_end_index(s: Seq<char>) -> int {
    if exists|i: int| 0 <= i < s.len() && !is_white_space(#[trigger] s[i]) {
        1 + choose|i: int|
            0 <= i < s.len() && !is_white_space(s[i]) && (forall|j: int|
                i < j < s.len() ==> is_white_space(#[trigger] s[j]))
    } else {
        s.len() as int
    }
}

/// `trim` over characters `lo..hi` of `c`.
pub fn trim_range(c: &Vec<char>, lo: usize, hi: usize) -> (r: Vec<char>)
    requires
        lo <= hi <= c@.len(),
    ensures
        r@ == trim_seq(c@.subrange(lo as int, hi as int)),
{
    let ghost s = c@.subrange(lo as int, hi as int);
    let mut a: usize = lo;
    while a < hi && char_is_whitespace(c[a])
        invariant
            lo <= a <= hi <= c@.len(),
            s == c@.subrange(lo as int, hi as int),
            forall|j: int| 0 <= j < a - lo ==> is_white_space(#[trigger] s[j]),
        decreases hi - a,
    {
        a = a + 1;
    }
    let mut b: usize = hi;
    while b > a && char_is_whitespace(c[b - 1])
        invariant
            lo <= a <= b <= hi <= c@.len(),
            s == c@.subrange(lo as int, hi as int),
            forall|j: int| b - lo <= j < hi - lo ==> is_white_space(#[trigger] s[j]),
        decreases b - a,
    {
        b = b - 1;
    }
    proof {
        if a < hi {
            assert(!is_white_space(s[a - lo]));
            let i = choose|i: int|
                0 <= i < s.len() && !is_white_space(s[i]) && (forall|j: int|
                    0 <= j < i ==> is_white_space(#[trigger] s[j]));
            assert(i == a - lo) by {
                if i < a - lo {
                    assert(is_white_space(s[i]));
                }
                if i > a - lo {
                    assert(is_white_space(s[a - lo]));
                }
            }
            assert(b > a);
            assert(!is_white_space(s[b - 1 - lo]));
            let e = choose|e: int|
                0 <= e < s.len() && !is_white_space(s[e]) && (forall|j: int|
                    e < j < s.len() ==> is_white_space(#[trigger] s[j]));
            assert(e == b - 1 - lo) by {
                if e < b - 1 - lo {
                    assert(is_white_space(s[b - 1 - lo]));
                }
                if e > b - 1 - lo {
                    assert(is_white_space(s[e]));
                }
            }
        } else {
            assert(!(exists|i: int| 0 <= i < s.len() && !is_white_space(#[trigger] s[i])));
        }
    }
    let mut r: Vec<char> = Vec::new();
    let mut k: usize = a;
    while k < b
        invariant
            a <= k <= b <= c@.len(),
            r@ == c@.subrange(a as int, k as int),
        decreases b - k,
    {
        r.push(c[k]);
        k = k + 1;
        assert(r@ =~= c@.subrange(a as int, k as int));
    }
    assert(r@ =~= s.subrange(a - lo, b - lo));
    r
}

/// `str::trim`.
pub fn trim(s: &str) -> (r: String)
    ensures
        r@ == trim_seq(s@),
{
    let c = chars_of(s);
    let t = trim_range(&c, 0, c.len());
    assert(c@.subrange(0, c@.len() as int) =~= s@);
    string_from_chars(&t)
}

} // verus!
