//! Text layout for the terminal views: word wrapping, label truncation, HTML stripping for
//! news previews, and the small computations the views make before drawing.

use vstd::prelude::*;

use crate::text::{
    chars_of,
    decimal_string,
    spec_decimal,
    spec_split,
    spec_words,
    split_chars,
    split_whitespace,
    string_from_chars,
    strings_view,
};

verus! {

// ------------------------------------------------------------------------------------------
// Greedy word wrap
// ------------------------------------------------------------------------------------------

/// Places `word` on a fresh line: whole when it fits in `width` columns, otherwise in
/// full-width chunks (each completed chunk added to `lines`) with the remainder left as the
/// line being filled. Gives the lines and the line being filled.
pub open spec fn spec_place_word(lines: Seq<Seq<char>>, word: Seq<char>, width: int) -> (
    Seq<Seq<char>>,
    Seq<char>,
)
    decreases word.len(),
{
    if width < 1 || word.len() <= width {
        (lines, word)
    } else {
        spec_place_word(lines.push(word.take(width)), word.skip(width), width)
    }
}

/// Wraps `words[i..]` onto `lines`, `cur` being the line being filled: a word joins the line
/// after a space when it fits, otherwise the line is completed and the word starts a new one.
pub open spec fn spec_wrap_words(
    words: Seq<Seq<char>>,
    i: int,
    width: int,
    lines: Seq<Seq<char>>,
    cur: Seq<char>,
) -> (Seq<Seq<char>>, Seq<char>)
    decreases words.len() - i,
{
    if i < 0 || i >= words.len() {
        (lines, cur)
    } else {
        let w = words[i];
        if cur.len() == 0 {
            let (l2, c2) = spec_place_word(lines, w, width);
            spec_wrap_words(words, i + 1, width, l2, c2)
        } else if cur.len() + 1 + w.len() <= width {
            spec_wrap_words(words, i + 1, width, lines, cur + seq![' '] + w)
        } else {
            let (l2, c2) = spec_place_word(lines.push(cur), w, width);
            spec_wrap_words(words, i + 1, width, l2, c2)
        }
    }
}

/// Wraps each of `raws` (the text's `\n`-separated parts) in turn onto `lines`; each part
/// ends with its last, possibly empty, line.
pub open spec fn spec_wrap_parts(raws: Seq<Seq<char>>, width: int, lines: Seq<Seq<char>>) -> Seq<Seq<char>>
    decreases raws.len(),
{
    if raws.len() == 0 {
        lines
    } else {
        let (l2, c2) = spec_wrap_words(spec_words(raws[0]), 0, width, lines, Seq::empty());
        spec_wrap_parts(raws.drop_first(), width, l2.push(c2))
    }
}

/// Greedy word wrap of `text` to `width` columns (at least one), hard-splitting words longer
/// than the width; explicit newlines always end a line.
pub open spec fn spec_wrap_text(text: Seq<char>, width: nat) -> Seq<Seq<char>> {
    let w: int = if width < 1 {
        1
    } else {
        width as int
    };
    spec_wrap_parts(spec_split(text, '\n'), w, Seq::empty())
}

/// Places `word` (of `word_len` characters) on a fresh line, hard-splitting and flushing
/// full-width chunks into `lines` if it is too long.
pub fn push_word(
    lines: &mut Vec<String>,
    current: &mut Vec<char>,
    current_len: &mut usize,
    word: &[char],
    word_len: usize,
    width: usize,
)
    requires
        word_len == word@.len(),
        width >= 1,
    ensures
        (strings_view(final(lines)@), final(current)@) == spec_place_word(strings_view(old(lines)@), word@, width as int),
        *final(current_len) == final(current)@.len(),
{
    if word_len <= width {
        *current = slice_all(word);
        *current_len = word_len;
        return;
    }
    let mut start: usize = 0;
    let ghost l0 = strings_view(lines@);
    assert(word@.skip(0) =~= word@);
    while word.len() - start > width
        invariant
            start <= word.len(),
            width >= 1,
            spec_place_word(l0, word@, width as int) == spec_place_word(
                strings_view(lines@),
                word@.skip(start as int),
                width as int,
            ),
        decreases word.len() - start,
    {
        let ghost before = lines@;
        let chunk = string_from_chars(&copy_range(word, start, start + width));
        assert(chunk@ =~= word@.skip(start as int).take(width as int));
        lines.push(chunk);
        assert(strings_view(lines@) =~= strings_view(before).push(word@.skip(start as int).take(width as int)));
        assert(word@.skip(start as int).skip(width as int) =~= word@.skip(start + width));
        start = start + width;
    }
    *current = copy_range(word, start, word.len());
    assert(current@ =~= word@.skip(start as int));
    *current_len = word.len() - start;
}

fn slice_all(word: &[char]) -> (r: Vec<char>)
    ensures
        r@ == word@,
{
    let r = copy_range(word, 0, word.len());
    assert(word@.subrange(0, word.len() as int) =~= word@);
    r
}

fn copy_range(s: &[char], from: usize, to: usize) -> (r: Vec<char>)
    requires
        from <= to <= s.len(),
    ensures
        r@ == s@.subrange(from as int, to as int),
{
    crate::text::slice_chars(s, from, to)
}

/// Greedy word-wrap to `width` columns, hard-splitting words longer than the width.
pub fn wrap_text(text: &str, width: usize) -> (r: Vec<String>)
    ensures
        strings_view(r@) == spec_wrap_text(text@, width as nat),
{
    let width: usize = if width < 1 {
        1
    } else {
        width
    };
    let raws = split_chars(&chars_of(text), '\n');
    let ghost rs = spec_split(text@, '\n');
    let mut lines: Vec<String> = Vec::new();
    let mut r: usize = 0;
    assert(strings_view(lines@) =~= Seq::<Seq<char>>::empty());
    assert(rs.skip(0) =~= rs);
    while r < raws.len()
        invariant
            raws@.map_values(|v: Vec<char>| v@) == rs,
            r <= raws.len(),
            width >= 1,
            spec_wrap_text(text@, width as nat) == spec_wrap_parts(rs.skip(r as int), width as int, strings_view(lines@)),
        decreases raws.len() - r,
    {
        assert(rs[r as int] == raws@[r as int]@);
        assert(rs.skip(r as int)[0] == rs[r as int]);
        assert(rs.skip(r as int).drop_first() =~= rs.skip(r + 1));
        let raw = string_from_chars(&raws[r]);
        let words = split_whitespace(raw.as_str());
        let ghost ws = spec_words(raws@[r as int]@);
        let ghost l_start = strings_view(lines@);
        let mut current: Vec<char> = Vec::new();
        let mut current_len: usize = 0;
        let mut k: usize = 0;
        while k < words.len()
            invariant
                strings_view(words@) == ws,
                k <= words.len(),
                width >= 1,
                current_len == current@.len(),
                spec_wrap_words(ws, 0, width as int, l_start, Seq::empty()) == spec_wrap_words(
                    ws,
                    k as int,
                    width as int,
                    strings_view(lines@),
                    current@,
                ),
            decreases words.len() - k,
        {
            let word = chars_of(words[k].as_str());
            assert(word@ == ws[k as int]);
            let word_len = word.len();
            let ghost lines_before = strings_view(lines@);
            let ghost cur_before = current@;
            assert(spec_wrap_words(ws, k as int, width as int, lines_before, cur_before) == {
                let w = ws[k as int];
                if cur_before.len() == 0 {
                    let (l2, c2) = spec_place_word(lines_before, w, width as int);
                    spec_wrap_words(ws, k + 1, width as int, l2, c2)
                } else if cur_before.len() + 1 + w.len() <= width {
                    spec_wrap_words(ws, k + 1, width as int, lines_before, cur_before + seq![' '] + w)
                } else {
                    let (l2, c2) = spec_place_word(lines_before.push(cur_before), w, width as int);
                    spec_wrap_words(ws, k + 1, width as int, l2, c2)
                }
            });
            if current_len == 0 {
                push_word(&mut lines, &mut current, &mut current_len, &word, word_len, width);
            } else if word_len <= width && current_len <= width - word_len && width - word_len - current_len >= 1 {
                current.push(' ');
                let mut j: usize = 0;
                let ghost c0 = current@;
                while j < word.len()
                    invariant
                        j <= word.len(),
                        current@ == c0 + word@.take(j as int),
                    decreases word.len() - j,
                {
                    current.push(word[j]);
                    j += 1;
                    assert(current@ =~= c0 + word@.take(j as int));
                }
                assert(word@.take(word.len() as int) =~= word@);
                assert(current@ =~= cur_before + seq![' '] + word@);
                current_len = current.len();
            } else {
                let ghost before = lines@;
                let done = string_from_chars(&current);
                lines.push(done);
                assert(strings_view(lines@) =~= strings_view(before).push(current@));
                current = Vec::new();
                current_len = 0;
                push_word(&mut lines, &mut current, &mut current_len, &word, word_len, width);
            }
            k += 1;
        }
        let ghost before = lines@;
        let last = string_from_chars(&current);
        lines.push(last);
        assert(strings_view(lines@) =~= strings_view(before).push(current@));
        r += 1;
    }
    assert(rs.skip(raws.len() as int) =~= Seq::<Seq<char>>::empty());
    lines
}

/// Every line of a placed word fits in `width`.
proof fn lemma_place_word_fits(lines: Seq<Seq<char>>, word: Seq<char>, width: int)
    requires
        width >= 1,
        forall|i: int| 0 <= i < lines.len() ==> (#[trigger] lines[i]).len() <= width,
    ensures
        forall|i: int| 0 <= i < spec_place_word(lines, word, width).0.len() ==> (
        #[trigger] spec_place_word(lines, word, width).0[i]).len() <= width,
        spec_place_word(lines, word, width).1.len() <= width,
        spec_place_word(lines, word, width).0.len() >= lines.len(),
    decreases word.len(),
{
    if word.len() > width {
        lemma_place_word_fits(lines.push(word.take(width)), word.skip(width), width);
    }
}

proof fn lemma_wrap_words_fits(words: Seq<Seq<char>>, i: int, width: int, lines: Seq<Seq<char>>, cur: Seq<char>)
    requires
        width >= 1,
        cur.len() <= width,
        forall|k: int| 0 <= k < lines.len() ==> (#[trigger] lines[k]).len() <= width,
    ensures
        forall|k: int| 0 <= k < spec_wrap_words(words, i, width, lines, cur).0.len() ==> (
        #[trigger] spec_wrap_words(words, i, width, lines, cur).0[k]).len() <= width,
        spec_wrap_words(words, i, width, lines, cur).1.len() <= width,
    decreases words.len() - i,
{
    if 0 <= i < words.len() {
        let w = words[i];
        if cur.len() == 0 {
            lemma_place_word_fits(lines, w, width);
            let (l2, c2) = spec_place_word(lines, w, width);
            lemma_wrap_words_fits(words, i + 1, width, l2, c2);
        } else if cur.len() + 1 + w.len() <= width {
            lemma_wrap_words_fits(words, i + 1, width, lines, cur + seq![' '] + w);
        } else {
            assert forall|k: int| 0 <= k < lines.push(cur).len() implies (#[trigger] lines.push(cur)[k]).len() <= width by {
                if k < lines.len() {
                    assert(lines.push(cur)[k] == lines[k]);
                }
            }
            lemma_place_word_fits(lines.push(cur), w, width);
            let (l2, c2) = spec_place_word(lines.push(cur), w, width);
            lemma_wrap_words_fits(words, i + 1, width, l2, c2);
        }
    }
}

proof fn lemma_wrap_parts_fits(raws: Seq<Seq<char>>, width: int, lines: Seq<Seq<char>>)
    requires
        width >= 1,
        forall|k: int| 0 <= k < lines.len() ==> (#[trigger] lines[k]).len() <= width,
    ensures
        forall|k: int| 0 <= k < spec_wrap_parts(raws, width, lines).len() ==> (
        #[trigger] spec_wrap_parts(raws, width, lines)[k]).len() <= width,
    decreases raws.len(),
{
    if raws.len() > 0 {
        lemma_wrap_words_fits(spec_words(raws[0]), 0, width, lines, Seq::empty());
        let (l2, c2) = spec_wrap_words(spec_words(raws[0]), 0, width, lines, Seq::empty());
        assert forall|k: int| 0 <= k < l2.push(c2).len() implies (#[trigger] l2.push(c2)[k]).len() <= width by {
            if k < l2.len() {
                assert(l2.push(c2)[k] == l2[k]);
            }
        }
        lemma_wrap_parts_fits(raws.drop_first(), width, l2.push(c2));
        assert(spec_wrap_parts(raws, width, lines) == spec_wrap_parts(raws.drop_first(), width, l2.push(c2)));
    }
}

/// No wrapped line is wider than the requested width (or one column, for a zero width).
pub proof fn lemma_wrap_text_fits(text: Seq<char>, width: nat)
    ensures
        forall|k: int| 0 <= k < spec_wrap_text(text, width).len() ==> (#[trigger] spec_wrap_text(text, width)[k]).len()
            <= if width < 1 {
            1
        } else {
            width as int
        },
{
    let w: int = if width < 1 {
        1
    } else {
        width as int
    };
    lemma_wrap_parts_fits(spec_split(text, '\n'), w, Seq::empty());
}

// ------------------------------------------------------------------------------------------
// Labels, previews and dates
// ------------------------------------------------------------------------------------------

/// `name` when it has at most `max` characters; otherwise its first `max - 1` (or none) and an
/// ellipsis.
pub open spec fn spec_truncate_label(name: Seq<char>, max: nat) -> Seq<char> {
    if name.len() <= max {
        name
    } else {
        name.take(if max >= 1 { max - 1 } else { 0 }) + seq!['…']
    }
}

/// Truncates `name` to at most `max` characters, appending `…` when shortened.
pub fn truncate_label(name: &str, max: usize) -> (r: String)
    ensures
        r@ == spec_truncate_label(name@, max as nat),
{
    let cs = chars_of(name);
    if cs.len() <= max {
        return string_from_chars(&cs);
    }
    let keep: usize = if max >= 1 {
        max - 1
    } else {
        0
    };
    let mut out = crate::text::slice_chars(&cs, 0, keep);
    out.push('…');
    assert(out@ =~= name@.take(keep as int) + seq!['…']);
    string_from_chars(&out)
}

/// `s` with everything between `<` and the next `>` (the tags, brackets included) removed;
/// `in_tag` says whether a tag is open at index `i`.
pub open spec fn spec_strip_html_from(s: Seq<char>, i: int, in_tag: bool, out: Seq<char>) -> Seq<char>
    decreases s.len() - i,
{
    if i < 0 || i >= s.len() {
        out
    } else if s[i] == '<' {
        spec_strip_html_from(s, i + 1, true, out)
    } else if s[i] == '>' {
        spec_strip_html_from(s, i + 1, false, out)
    } else if !in_tag {
        spec_strip_html_from(s, i + 1, in_tag, out.push(s[i]))
    } else {
        spec_strip_html_from(s, i + 1, in_tag, out)
    }
}

/// Removes basic HTML tags for a plain-text preview.
pub fn strip_html(s: &str) -> (r: String)
    ensures
        r@ == spec_strip_html_from(s@, 0, false, Seq::empty()),
{
    let cs = chars_of(s);
    let mut out: Vec<char> = Vec::new();
    let mut in_tag = false;
    let mut i: usize = 0;
    while i < cs.len()
        invariant
            cs@ == s@,
            i <= cs.len(),
            spec_strip_html_from(s@, 0, false, Seq::empty()) == spec_strip_html_from(s@, i as int, in_tag, out@),
        decreases cs.len() - i,
    {
        let ch = cs[i];
        if ch == '<' {
            in_tag = true;
        } else if ch == '>' {
            in_tag = false;
        } else if !in_tag {
            out.push(ch);
        }
        i += 1;
    }
    string_from_chars(&out)
}

/// The year a Unix timestamp falls in, counting 365.25-day years from 1970.
pub open spec fn spec_timestamp_year(ts: u64) -> nat {
    (1970 + ts / 31_557_600) as nat
}

/// Formats a Unix timestamp as its (approximate) year.
pub fn format_timestamp(ts: u64) -> (r: String)
    ensures
        r@ == spec_decimal(spec_timestamp_year(ts)),
{
    let years_since_1970 = ts / 31_557_600;
    decimal_string(1970 + years_since_1970)
}

/// Bytes of the UTF-8 encoding of `c` (`char::len_utf8`).
pub open spec fn spec_char_len_utf8(c: char) -> nat {
    if (c as u32) < 0x80 {
        1
    } else if (c as u32) < 0x800 {
        2
    } else if (c as u32) < 0x10000 {
        3
    } else {
        4
    }
}

/// Bytes of the UTF-8 encoding of `s` (`str::len`).
pub open spec fn spec_utf8_len(s: Seq<char>) -> nat
    decreases s.len(),
{
    if s.len() == 0 {
        0
    } else {
        spec_utf8_len(s.drop_last()) + spec_char_len_utf8(s.last())
    }
}

fn utf8_len(s: &[char]) -> (r: u128)
    ensures
        r == spec_utf8_len(s@),
        r <= 4 * s.len(),
{
    let mut n: u128 = 0;
    let mut i: usize = 0;
    while i < s.len()
        invariant
            i <= s.len(),
            n == spec_utf8_len(s@.take(i as int)),
            n <= 4 * i,
        decreases s.len() - i,
    {
        let c = s[i];
        let w: u128 = if (c as u32) < 0x80 {
            1
        } else if (c as u32) < 0x800 {
            2
        } else if (c as u32) < 0x10000 {
            3
        } else {
            4
        };
        assert(s@.take(i + 1).drop_last() =~= s@.take(i as int));
        n = n + w;
        i += 1;
    }
    assert(s@.take(s.len() as int) =~= s@);
    n
}

/// Simple word wrap for game descriptions, measuring in UTF-8 bytes: `words` are joined by
/// single spaces while the line stays within `width`; `cur` is the line being filled.
pub open spec fn spec_simple_wrap(words: Seq<Seq<char>>, i: int, width: int, lines: Seq<Seq<char>>, cur: Seq<char>) -> Seq<
    Seq<char>,
>
    decreases words.len() - i,
{
    if i < 0 || i >= words.len() {
        if cur.len() > 0 {
            lines.push(cur)
        } else {
            lines
        }
    } else {
        let w = words[i];
        if cur.len() == 0 {
            spec_simple_wrap(words, i + 1, width, lines, w)
        } else if spec_utf8_len(cur) + 1 + spec_utf8_len(w) <= width {
            spec_simple_wrap(words, i + 1, width, lines, cur + seq![' '] + w)
        } else {
            spec_simple_wrap(words, i + 1, width, lines.push(cur), w)
        }
    }
}

/// The lines of a description wrapped to `width` bytes; a zero width leaves the text whole.
pub open spec fn spec_textwrap_simple(text: Seq<char>, width: nat) -> Seq<Seq<char>> {
    if width == 0 {
        seq![text]
    } else {
        spec_simple_wrap(spec_words(text), 0, width as int, Seq::empty(), Seq::empty())
    }
}

/// Naive word wrap — splits on whitespace to fit within `width` bytes.
pub fn textwrap_simple(text: &str, width: usize) -> (r: Vec<String>)
    ensures
        strings_view(r@) == spec_textwrap_simple(text@, width as nat),
{
    if width == 0 {
        let mut v: Vec<String> = Vec::new();
        v.push(text.to_owned());
        assert(strings_view(v@) =~= seq![text@]);
        return v;
    }
    let words = split_whitespace(text);
    let ghost ws = spec_words(text@);
    let mut lines: Vec<String> = Vec::new();
    let mut current: Vec<char> = Vec::new();
    let mut i: usize = 0;
    assert(strings_view(lines@) =~= Seq::<Seq<char>>::empty());
    while i < words.len()
        invariant
            strings_view(words@) == ws,
            i <= words.len(),
            width >= 1,
            spec_textwrap_simple(text@, width as nat) == spec_simple_wrap(ws, i as int, width as int, strings_view(lines@), current@),
        decreases words.len() - i,
    {
        let word = chars_of(words[i].as_str());
        assert(word@ == ws[i as int]);
        let ghost cur_before = current@;
        if current.len() == 0 {
            current = word;
        } else {
            let cl = utf8_len(&current);
            let wl = utf8_len(&word);
            if cl + 1 + wl <= width as u128 {
                current.push(' ');
                let mut j: usize = 0;
                let ghost c0 = current@;
                while j < word.len()
                    invariant
                        j <= word.len(),
                        current@ == c0 + word@.take(j as int),
                    decreases word.len() - j,
                {
                    current.push(word[j]);
                    j += 1;
                    assert(current@ =~= c0 + word@.take(j as int));
                }
                assert(word@.take(word.len() as int) =~= word@);
                assert(current@ =~= cur_before + seq![' '] + word@);
            } else {
                let ghost before = lines@;
                lines.push(string_from_chars(&current));
                assert(strings_view(lines@) =~= strings_view(before).push(current@));
                current = word;
            }
        }
        i += 1;
    }
    if current.len() > 0 {
        let ghost before = lines@;
        lines.push(string_from_chars(&current));
        assert(strings_view(lines@) =~= strings_view(before).push(current@));
    }
    lines
}

} // verus!
