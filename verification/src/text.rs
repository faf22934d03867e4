//! Character-level string helpers shared by the parsers and the UI logic.

use vstd::prelude::*;
use vstd::std_specs::iter::IteratorSpec;

verus! {

broadcast use vstd::string::group_string_axioms;

/// Appends one character to a `String` (`String::push`).
#[verifier::external_body]
pub(crate) fn push_char(s: &mut String, c: char)
    ensures
        final(s)@ == old(s)@.push(c),
{
    s.push(c)
}

/// Removes the last character of a `String`, if any (`String::pop`).
pub fn pop_char(s: &mut String)
    ensures
        final(s)@ == if old(s)@.len() > 0 {
            old(s)@.drop_last()
        } else {
            old(s)@
        },
{
    let mut cs = chars_of(s.as_str());
    if cs.len() > 0 {
        cs.pop();
        *s = string_from_chars(cs.as_slice());
    }
}

/// Whether `c` is a control character (general category Cc: U+0000–U+001F and
/// U+007F–U+009F), as `char::is_control` reports.
pub open spec fn spec_is_control(c: char) -> bool {
    c <= '\u{1f}' || ('\u{7f}' <= c && c <= '\u{9f}')
}

pub fn is_control(c: char) -> (r: bool)
    ensures
        r == spec_is_control(c),
{
    c <= '\u{1f}' || ('\u{7f}' <= c && c <= '\u{9f}')
}

/// The characters of `s`, in order.
pub fn chars_of(s: &str) -> (r: Vec<char>)
    ensures
        r@ == s@,
{
    let mut it = s.chars();
    let mut out: Vec<char> = Vec::new();
    loop
        invariant
            out@ + it.remaining() == s@,
            it.decrease() is Some,
        ensures
            out@ == s@,
        decreases it.decrease()->0,
    {
        match it.next() {
            Some(c) => {
                out.push(c);
            },
            None => {
                assert(out@ + it.remaining() == out@);
                break ;
            },
        }
    }
    out
}

/// A `String` holding exactly the characters of `cs`.
pub fn string_from_chars(cs: &[char]) -> (r: String)
    ensures
        r@ == cs@,
{
    let mut out = String::new();
    let mut i: usize = 0;
    while i < cs.len()
        invariant
            i <= cs.len(),
            out@ == cs@.take(i as int),
        decreases cs.len() - i,
    {
        push_char(&mut out, cs[i]);
        i += 1;
        assert(cs@.take(i as int) == cs@.take(i - 1).push(cs@[i - 1]));
    }
    assert(cs@.take(cs.len() as int) == cs@);
    out
}

/// ASCII lowercase of one character (`char::to_ascii_lowercase`).
pub open spec fn ascii_lower(c: char) -> char {
    if 'A' <= c && c <= 'Z' {
        ((c as u32) + 32) as char
    } else {
        c
    }
}

/// Equality ignoring ASCII case (`str::eq_ignore_ascii_case`).
pub open spec fn spec_eq_ignore_ascii_case(a: Seq<char>, b: Seq<char>) -> bool {
    a.len() == b.len() && forall|i: int| 0 <= i < a.len() ==> ascii_lower(#[trigger] a[i]) == ascii_lower(b[i])
}

pub fn to_ascii_lower(c: char) -> (r: char)
    ensures
        r == ascii_lower(c),
{
    if 'A' <= c && c <= 'Z' {
        let v: u32 = (c as u32) + 32;
        assert(v < 128);
        char_from_ascii_code(v)
    } else {
        c
    }
}

/// The ASCII character with code `v`.
fn char_from_ascii_code(v: u32) -> (r: char)
    requires
        v < 128,
    ensures
        r == v as char,
{
    let b: u8 = v as u8;
    b as char
}

pub fn ascii_eq_ignore_case(a: &[char], b: &[char]) -> (r: bool)
    ensures
        r == spec_eq_ignore_ascii_case(a@, b@),
{
    if a.len() != b.len() {
        return false;
    }
    let mut i: usize = 0;
    while i < a.len()
        invariant
            a.len() == b.len(),
            i <= a.len(),
            forall|j: int| 0 <= j < i ==> ascii_lower(#[trigger] a@[j]) == ascii_lower(b@[j]),
        decreases a.len() - i,
    {
        if to_ascii_lower(a[i]) != to_ascii_lower(b[i]) {
            return false;
        }
        i += 1;
    }
    true
}

/// Unicode `White_Space` (`char::is_whitespace`).
pub open spec fn is_unicode_ws(c: char) -> bool {
    ('\u{09}' <= c && c <= '\u{0D}') || c == ' ' || c == '\u{85}' || c == '\u{A0}' || c == '\u{1680}'
        || ('\u{2000}' <= c && c <= '\u{200A}') || c == '\u{2028}' || c == '\u{2029}' || c
        == '\u{202F}' || c == '\u{205F}' || c == '\u{3000}'
}

pub fn is_whitespace(c: char) -> (r: bool)
    ensures
        r == is_unicode_ws(c),
{
    ('\u{09}' <= c && c <= '\u{0D}') || c == ' ' || c == '\u{85}' || c == '\u{A0}' || c == '\u{1680}'
        || ('\u{2000}' <= c && c <= '\u{200A}') || c == '\u{2028}' || c == '\u{2029}' || c
        == '\u{202F}' || c == '\u{205F}' || c == '\u{3000}'
}

/// `s` without leading Unicode whitespace (`str::trim_start`).
pub open spec fn spec_trim_start(s: Seq<char>) -> Seq<char>
    decreases s.len(),
{
    if s.len() > 0 && is_unicode_ws(s[0]) {
        spec_trim_start(s.drop_first())
    } else {
        s
    }
}

/// `s` without trailing Unicode whitespace (`str::trim_end`).
pub open spec fn spec_trim_end(s: Seq<char>) -> Seq<char>
    decreases s.len(),
{
    if s.len() > 0 && is_unicode_ws(s.last()) {
        spec_trim_end(s.drop_last())
    } else {
        s
    }
}

/// `s` without leading and trailing Unicode whitespace (`str::trim`).
pub open spec fn spec_trim(s: Seq<char>) -> Seq<char> {
    spec_trim_end(spec_trim_start(s))
}

/// Index of the first character of `s[from..]` that is not whitespace (or `s.len()`).
pub fn trim_start_index(s: &[char], from: usize) -> (r: usize)
    requires
        from <= s.len(),
    ensures
        from <= r <= s.len(),
        s@.subrange(r as int, s.len() as int) == spec_trim_start(s@.subrange(from as int, s.len() as int)),
{
    let mut i = from;
    while i < s.len() && is_whitespace(s[i])
        invariant
            from <= i <= s.len(),
            spec_trim_start(s@.subrange(from as int, s.len() as int)) == spec_trim_start(
                s@.subrange(i as int, s.len() as int),
            ),
        decreases s.len() - i,
    {
        assert(s@.subrange(i as int, s.len() as int).drop_first() =~= s@.subrange(i + 1, s.len() as int));
        i += 1;
    }
    i
}

/// End of `s[from..to]` once trailing whitespace is dropped.
pub fn trim_end_index(s: &[char], from: usize, to: usize) -> (r: usize)
    requires
        from <= to <= s.len(),
    ensures
        from <= r <= to,
        s@.subrange(from as int, r as int) == spec_trim_end(s@.subrange(from as int, to as int)),
{
    let mut j = to;
    while j > from && is_whitespace(s[j - 1])
        invariant
            from <= j <= to,
            to <= s.len(),
            spec_trim_end(s@.subrange(from as int, to as int)) == spec_trim_end(
                s@.subrange(from as int, j as int),
            ),
        decreases j,
    {
        assert(s@.subrange(from as int, j as int).drop_last() =~= s@.subrange(from as int, j - 1));
        j -= 1;
    }
    j
}

/// The characters of `s` without surrounding whitespace.
pub fn trim_chars(s: &[char]) -> (r: Vec<char>)
    ensures
        r@ == spec_trim(s@),
{
    let a = trim_start_index(s, 0);
    let b = trim_end_index(s, a, s.len());
    assert(s@.subrange(0, s.len() as int) =~= s@);
    slice_chars(s, a, b)
}

/// A copy of `s[from..to]`.
pub fn slice_chars(s: &[char], from: usize, to: usize) -> (r: Vec<char>)
    requires
        from <= to <= s.len(),
    ensures
        r@ == s@.subrange(from as int, to as int),
{
    let mut out: Vec<char> = Vec::new();
    let mut i = from;
    while i < to
        invariant
            from <= i <= to <= s.len(),
            out@ == s@.subrange(from as int, i as int),
        decreases to - i,
    {
        out.push(s[i]);
        i += 1;
        assert(out@ =~= s@.subrange(from as int, i as int));
    }
    out
}

/// Value of digit `c` in base `radix` (2..=16), if it is one (`char::to_digit`).
pub open spec fn digit_value(c: char, radix: u32) -> Option<u32> {
    let v: int = if '0' <= c && c <= '9' {
        c as int - '0' as int
    } else if 'a' <= c && c <= 'z' {
        c as int - 'a' as int + 10
    } else if 'A' <= c && c <= 'Z' {
        c as int - 'A' as int + 10
    } else {
        100
    };
    if v < radix {
        Some(v as u32)
    } else {
        None
    }
}

/// Whether every character of `d` is a digit in base `radix`.
pub open spec fn all_digits(d: Seq<char>, radix: u32) -> bool {
    forall|i: int| 0 <= i < d.len() ==> (#[trigger] digit_value(d[i], radix)) is Some
}

/// The number the digits `d` spell in base `radix`.
pub open spec fn digits_value(d: Seq<char>, radix: u32) -> int
    decreases d.len(),
{
    if d.len() == 0 {
        0
    } else {
        digits_value(d.drop_last(), radix) * radix + digit_value(d.last(), radix).unwrap()
    }
}

/// Rust's integer parsing (`from_str_radix` of an unsigned type whose largest value is
/// `max`): an optional `+`, then one or more digits, with no overflow.
pub open spec fn spec_parse_unsigned(s: Seq<char>, radix: u32, max: int) -> Option<int> {
    let d = if s.len() > 0 && s[0] == '+' {
        s.drop_first()
    } else {
        s
    };
    if d.len() > 0 && all_digits(d, radix) && digits_value(d, radix) <= max {
        Some(digits_value(d, radix))
    } else {
        None
    }
}

pub fn to_digit(c: char, radix: u32) -> (r: Option<u32>)
    requires
        2 <= radix <= 16,
    ensures
        r == digit_value(c, radix),
{
    let v: u32 = if '0' <= c && c <= '9' {
        (c as u32) - ('0' as u32)
    } else if 'a' <= c && c <= 'z' {
        (c as u32) - ('a' as u32) + 10
    } else if 'A' <= c && c <= 'Z' {
        (c as u32) - ('A' as u32) + 10
    } else {
        100
    };
    if v < radix {
        Some(v)
    } else {
        None
    }
}

proof fn lemma_digits_value_prefix_mono(d: Seq<char>, radix: u32, i: int)
    requires
        2 <= radix <= 16,
        0 <= i <= d.len(),
        all_digits(d, radix),
    ensures
        digits_value(d.take(i), radix) <= digits_value(d, radix),
        0 <= digits_value(d.take(i), radix),
    decreases d.len(),
{
    if d.len() > 0 {
        assert(all_digits(d.drop_last(), radix)) by {
            assert forall|j: int| 0 <= j < d.drop_last().len() implies (#[trigger] digit_value(
                d.drop_last()[j],
                radix,
            )) is Some by {
                assert(d.drop_last()[j] == d[j]);
            }
        }
        assert(digit_value(d[d.len() - 1], radix) is Some);
        if i == d.len() {
            assert(d.take(i) =~= d);
            lemma_digits_value_prefix_mono(d.drop_last(), radix, d.len() - 1);
            assert(d.drop_last().take(d.len() - 1) =~= d.drop_last());
        } else {
            lemma_digits_value_prefix_mono(d.drop_last(), radix, i);
            assert(d.drop_last().take(i) =~= d.take(i));
            lemma_digits_value_prefix_mono(d.drop_last(), radix, d.len() - 1);
            assert(d.drop_last().take(d.len() - 1) =~= d.drop_last());
            let x = digits_value(d.drop_last(), radix);
            assert(x * radix >= x) by (nonlinear_arith)
                requires
                    x >= 0,
                    radix >= 2,
            ;
        }
    } else {
        assert(d.take(i) =~= d);
    }
}

/// Parses an unsigned number of at most 64 bits written in base `radix`, with an optional
/// leading `+` (`u32::from_str`, `u64::from_str_radix`, …, where `max` is the type's largest
/// value).
#[verifier::loop_isolation(false)]
pub fn parse_unsigned(s: &[char], radix: u32, max: u64) -> (r: Option<u64>)
    requires
        2 <= radix <= 16,
    ensures
        match r {
            Some(v) => spec_parse_unsigned(s@, radix, max as int) == Some(v as int),
            None => spec_parse_unsigned(s@, radix, max as int) is None,
        },
{
    let start: usize = if s.len() > 0 && s[0] == '+' {
        1
    } else {
        0
    };
    let ghost d = if s@.len() > 0 && s@[0] == '+' {
        s@.drop_first()
    } else {
        s@
    };
    assert(d =~= s@.subrange(start as int, s.len() as int));
    if start >= s.len() {
        return None;
    }
    let mut val: u64 = 0;
    let mut i = start;
    while i < s.len()
        invariant
            start <= i <= s.len(),
            d == s@.subrange(start as int, s.len() as int),
            2 <= radix <= 16,
            all_digits(d.take(i - start), radix),
            val as int == digits_value(d.take(i - start), radix),
            val <= max,
        decreases s.len() - i,
    {
        let dv = match to_digit(s[i], radix) {
            Some(v) => v,
            None => {
                assert(d[i - start] == s@[i as int]);
                assert(digit_value(d[i - start], radix) is None);
                return None;
            },
        };
        let ghost k = i - start;
        assert(d.take(k + 1).drop_last() =~= d.take(k));
        assert(d.take(k + 1).last() == s@[i as int]);
        assert(all_digits(d.take(k + 1), radix)) by {
            assert forall|j: int| 0 <= j < d.take(k + 1).len() implies (#[trigger] digit_value(
                d.take(k + 1)[j],
                radix,
            )) is Some by {
                if j < k {
                    assert(d.take(k + 1)[j] == d.take(k)[j]);
                }
            }
        }
        assert((val as u128) * (radix as u128) <= 0xffff_ffff_ffff_ffffu128 * 16) by (nonlinear_arith)
            requires
                val <= 0xffff_ffff_ffff_ffffu64,
                radix <= 16,
        ;
        let wide: u128 = (val as u128) * (radix as u128) + (dv as u128);
        if wide > max as u128 {
            proof {
                if all_digits(d, radix) {
                    lemma_digits_value_prefix_mono(d, radix, k + 1);
                }
            }
            return None;
        }
        val = wide as u64;
        i += 1;
    }
    assert(d.take(s.len() - start) =~= d);
    Some(val)
}

/// Whitespace-separated words of `s` from index `i`, given the word `cur` being read and the
/// words `acc` already complete (`str::split_whitespace`).
pub open spec fn spec_words_from(s: Seq<char>, i: int, cur: Seq<char>, acc: Seq<Seq<char>>) -> Seq<
    Seq<char>,
>
    decreases s.len() - i,
{
    if i < 0 || i >= s.len() {
        if cur.len() > 0 {
            acc.push(cur)
        } else {
            acc
        }
    } else if is_unicode_ws(s[i]) {
        spec_words_from(
            s,
            i + 1,
            Seq::empty(),
            if cur.len() > 0 {
                acc.push(cur)
            } else {
                acc
            },
        )
    } else {
        spec_words_from(s, i + 1, cur.push(s[i]), acc)
    }
}

/// The maximal runs of non-whitespace characters of `s`, in order.
pub open spec fn spec_words(s: Seq<char>) -> Seq<Seq<char>> {
    spec_words_from(s, 0, Seq::empty(), Seq::empty())
}

/// The views of a list of strings.
pub open spec fn strings_view(v: Seq<String>) -> Seq<Seq<char>> {
    v.map_values(|s: String| s@)
}

/// Splits `s` on whitespace into owned words (`s.split_whitespace().map(str::to_owned)`).
pub fn split_whitespace(s: &str) -> (r: Vec<String>)
    ensures
        strings_view(r@) == spec_words(s@),
{
    let cs = chars_of(s);
    let mut out: Vec<String> = Vec::new();
    let mut cur: Vec<char> = Vec::new();
    let mut i: usize = 0;
    assert(strings_view(out@) =~= Seq::<Seq<char>>::empty());
    while i < cs.len()
        invariant
            cs@ == s@,
            i <= cs.len(),
            spec_words(s@) == spec_words_from(s@, i as int, cur@, strings_view(out@)),
        decreases cs.len() - i,
    {
        if is_whitespace(cs[i]) {
            if cur.len() > 0 {
                let w = string_from_chars(&cur);
                let ghost before = out@;
                out.push(w);
                assert(strings_view(out@) =~= strings_view(before).push(cur@));
                cur = Vec::new();
            } else {
                cur = Vec::new();
            }
        } else {
            cur.push(cs[i]);
        }
        i += 1;
    }
    if cur.len() > 0 {
        let w = string_from_chars(&cur);
        let ghost before = out@;
        out.push(w);
        assert(strings_view(out@) =~= strings_view(before).push(cur@));
    }
    out
}

/// The pieces of `s` between occurrences of `sep`, from index `i` (`str::split` on a
/// character): `cur` is the piece being read, `acc` the pieces already complete.
pub open spec fn spec_split_from(s: Seq<char>, sep: char, i: int, cur: Seq<char>, acc: Seq<Seq<char>>) -> Seq<
    Seq<char>,
>
    decreases s.len() - i,
{
    if i < 0 || i >= s.len() {
        acc.push(cur)
    } else if s[i] == sep {
        spec_split_from(s, sep, i + 1, Seq::empty(), acc.push(cur))
    } else {
        spec_split_from(s, sep, i + 1, cur.push(s[i]), acc)
    }
}

/// The pieces of `s` separated by `sep`; there is always one more piece than separators.
pub open spec fn spec_split(s: Seq<char>, sep: char) -> Seq<Seq<char>> {
    spec_split_from(s, sep, 0, Seq::empty(), Seq::empty())
}

/// Splits the characters `s` on `sep`.
pub fn split_chars(s: &[char], sep: char) -> (r: Vec<Vec<char>>)
    ensures
        r@.map_values(|v: Vec<char>| v@) == spec_split(s@, sep),
{
    let mut out: Vec<Vec<char>> = Vec::new();
    let mut cur: Vec<char> = Vec::new();
    let mut i: usize = 0;
    assert(out@.map_values(|v: Vec<char>| v@) =~= Seq::<Seq<char>>::empty());
    while i < s.len()
        invariant
            i <= s.len(),
            spec_split(s@, sep) == spec_split_from(s@, sep, i as int, cur@, out@.map_values(|v: Vec<char>| v@)),
        decreases s.len() - i,
    {
        if s[i] == sep {
            let ghost before = out@;
            let piece = cur;
            out.push(piece);
            assert(out@.map_values(|v: Vec<char>| v@) =~= before.map_values(|v: Vec<char>| v@).push(piece@));
            cur = Vec::new();
        } else {
            cur.push(s[i]);
        }
        i += 1;
    }
    let ghost before = out@;
    let piece = cur;
    out.push(piece);
    assert(out@.map_values(|v: Vec<char>| v@) =~= before.map_values(|v: Vec<char>| v@).push(piece@));
    out
}

/// Whether `needle` occurs in `hay` at index `i`.
pub open spec fn occurs_at(hay: Seq<char>, needle: Seq<char>, i: int) -> bool {
    0 <= i && i + needle.len() <= hay.len() && hay.subrange(i, i + needle.len()) == needle
}

/// Whether `s` starts with `prefix`.
pub open spec fn starts_with(s: Seq<char>, prefix: Seq<char>) -> bool {
    occurs_at(s, prefix, 0)
}

/// Index of the first occurrence of `needle` in `hay` at or after `from` (`str::find`).
pub open spec fn spec_find_from(hay: Seq<char>, needle: Seq<char>, from: int) -> Option<int>
    decreases hay.len() + 1 - from,
{
    if from < 0 || from + needle.len() > hay.len() {
        None
    } else if occurs_at(hay, needle, from) {
        Some(from)
    } else {
        spec_find_from(hay, needle, from + 1)
    }
}

pub fn occurs_at_exec(hay: &[char], needle: &[char], i: usize) -> (r: bool)
    ensures
        r == occurs_at(hay@, needle@, i as int),
{
    if i > hay.len() || needle.len() > hay.len() - i {
        return false;
    }
    let mut j: usize = 0;
    while j < needle.len()
        invariant
            i + needle.len() <= hay.len(),
            j <= needle.len(),
            forall|k: int| 0 <= k < j ==> hay@[i + k] == needle@[k],
        decreases needle.len() - j,
    {
        if hay[i + j] != needle[j] {
            assert(hay@.subrange(i as int, i + needle.len())[j as int] != needle@[j as int]);
            return false;
        }
        j += 1;
    }
    assert(hay@.subrange(i as int, i + needle.len()) =~= needle@);
    true
}

/// First index at or after `from` where `needle` occurs in `hay`.
pub fn find_from(hay: &[char], needle: &[char], from: usize) -> (r: Option<usize>)
    ensures
        r matches Some(i) ==> from <= i && occurs_at(hay@, needle@, i as int),
        match r {
            Some(i) => spec_find_from(hay@, needle@, from as int) == Some(i as int),
            None => spec_find_from(hay@, needle@, from as int) is None,
        },
{
    if needle.len() > hay.len() {
        return None;
    }
    let last = hay.len() - needle.len();
    if from > last {
        return None;
    }
    let mut i = from;
    loop
        invariant
            needle.len() <= hay.len(),
            last == hay.len() - needle.len(),
            from <= i <= last,
            spec_find_from(hay@, needle@, from as int) == spec_find_from(hay@, needle@, i as int),
        decreases last - i,
    {
        if occurs_at_exec(hay, needle, i) {
            return Some(i);
        }
        if i == last {
            assert(spec_find_from(hay@, needle@, i + 1) is None);
            return None;
        }
        i += 1;
    }
}

/// Decimal digits of `n`, as integers display (`ToString` on an unsigned integer).
pub open spec fn spec_decimal(n: nat) -> Seq<char>
    decreases n,
{
    if n < 10 {
        seq![(n + 48) as char]
    } else {
        spec_decimal(n / 10).push(((n % 10) + 48) as char)
    }
}

fn digit_char(d: u64) -> (r: char)
    requires
        d < 10,
    ensures
        r == (d + 48) as char,
{
    char_from_ascii_code((d + 48) as u32)
}

/// Appends the decimal digits of `n`.
pub fn push_decimal(out: &mut Vec<char>, n: u64)
    ensures
        final(out)@ == old(out)@ + spec_decimal(n as nat),
    decreases n,
{
    if n >= 10 {
        push_decimal(out, n / 10);
    }
    out.push(digit_char(n % 10));
    proof {
        if n >= 10 {
            assert(spec_decimal(n as nat) == spec_decimal((n / 10) as nat).push(((n % 10) + 48) as char));
        }
    }
    assert(final(out)@ =~= old(out)@ + spec_decimal(n as nat)) by {
        if n < 10 {
            assert(spec_decimal(n as nat) == seq![(n + 48) as char]);
        }
    }
}

/// The decimal text of `n`.
pub fn decimal_string(n: u64) -> (r: String)
    ensures
        r@ == spec_decimal(n as nat),
{
    let mut v: Vec<char> = Vec::new();
    push_decimal(&mut v, n);
    assert(v@ =~= spec_decimal(n as nat));
    string_from_chars(&v)
}

/// Whether `needle` occurs in `hay` (`str::contains`).
pub open spec fn spec_contains(hay: Seq<char>, needle: Seq<char>) -> bool {
    spec_find_from(hay, needle, 0) is Some
}

/// `str::contains` on a text.
pub fn contains_text(hay: &str, needle: &str) -> (r: bool)
    ensures
        r == spec_contains(hay@, needle@),
{
    let h = chars_of(hay);
    let n = chars_of(needle);
    find_from(h.as_slice(), n.as_slice(), 0).is_some()
}

/// Whether two texts are equal.
pub fn same_text(a: &str, b: &str) -> (r: bool)
    ensures
        r == (a@ == b@),
{
    let x = chars_of(a);
    let y = chars_of(b);
    if x.len() != y.len() {
        return false;
    }
    let mut i: usize = 0;
    while i < x.len()
        invariant
            x@ == a@,
            y@ == b@,
            x.len() == y.len(),
            i <= x.len(),
            forall|k: int| 0 <= k < i ==> x@[k] == y@[k],
        decreases x.len() - i,
    {
        if x[i] != y[i] {
            return false;
        }
        i = i + 1;
    }
    assert(x@ =~= y@);
    true
}

/// Lowercase mapping of a string by the Unicode `Lowercase` property (`str::to_lowercase`).
/// It is a fixed function of the characters; the library relies on nothing more about it.
pub uninterp spec fn spec_lowercase(s: Seq<char>) -> Seq<char>;

/// `str::to_lowercase`.
#[verifier::external_body]
pub(crate) fn to_lowercase(s: &str) -> (r: String)
    ensures
        r@ == spec_lowercase(s@),
{
    s.to_lowercase()
}

} // verus!
