//! A minimal reader for Steam's text KeyValues files (`appmanifest_<appid>.acf`,
//! `libraryfolders.vdf`): `"key" "value"` pairs and `"key" { … }` blocks.
//!
//! The grammar is stated as spec functions over the document's characters
//! (`spec_next_token`, `spec_parse_value`, `spec_parse_map`, `spec_parse`), and the
//! executable lexer and parser are proved to compute exactly those functions. Key
//! lookups ignore ASCII case, since Steam mixes `installdir` and `StateFlags`.

use vstd::prelude::*;

use crate::text::{chars_of, string_from_chars, ascii_eq_ignore_case, spec_eq_ignore_ascii_case};

verus! {

// ------------------------------------------------------------------------------------------
// The mathematical model
// ------------------------------------------------------------------------------------------

/// Abstract value of a KeyValues node: a string, or an ordered list of `(key, value)` pairs.
pub enum VdfNode {
    Str(Seq<char>),
    Block(Seq<(Seq<char>, VdfNode)>),
}

/// A lexical token of the text format.
pub enum SpecToken {
    Str(Seq<char>),
    Open,
    Close,
    Eof,
}

/// ASCII whitespace as Rust's `u8::is_ascii_whitespace` defines it (space, tab, line feed,
/// form feed, carriage return; not vertical tab).
pub open spec fn is_ascii_ws(c: char) -> bool {
    c == ' ' || c == '\t' || c == '\n' || c == '\u{0C}' || c == '\r'
}

/// Position reached from `pos` after skipping whitespace and `//` line comments.
/// `in_comment` means a comment is being skipped up to (not including) its newline.
pub open spec fn spec_skip(s: Seq<char>, pos: int, in_comment: bool) -> int
    decreases s.len() - pos, if in_comment { 1int } else { 0int },
{
    if in_comment {
        if 0 <= pos < s.len() && s[pos] != '\n' {
            spec_skip(s, pos + 1, true)
        } else {
            spec_skip(s, pos, false)
        }
    } else if 0 <= pos < s.len() && is_ascii_ws(s[pos]) {
        spec_skip(s, pos + 1, false)
    } else if 0 <= pos && pos + 2 <= s.len() && s[pos] == '/' && s[pos + 1] == '/' {
        spec_skip(s, pos + 2, true)
    } else {
        pos
    }
}

/// The character an escape `\c` stands for inside a quoted string.
pub open spec fn unescape(c: char) -> char {
    if c == 'n' {
        '\n'
    } else if c == 't' {
        '\t'
    } else if c == 'r' {
        '\r'
    } else {
        c
    }
}

/// Reads the body of a quoted string starting at `pos` (just after the opening quote);
/// `acc` holds what was read so far. Gives the text and the position after the closing
/// quote, or `None` when the string (or a trailing escape) is unterminated.
pub open spec fn spec_read_quoted(s: Seq<char>, pos: int, acc: Seq<char>) -> Option<(Seq<char>, int)>
    decreases s.len() - pos,
{
    if pos < 0 || pos >= s.len() {
        None
    } else if s[pos] == '"' {
        Some((acc, pos + 1))
    } else if s[pos] == '\\' {
        if pos + 1 >= s.len() {
            None
        } else {
            spec_read_quoted(s, pos + 2, acc.push(unescape(s[pos + 1])))
        }
    } else {
        spec_read_quoted(s, pos + 1, acc.push(s[pos]))
    }
}

/// Whether `c` may appear in an unquoted token.
pub open spec fn is_bare_char(c: char) -> bool {
    !is_ascii_ws(c) && c != '{' && c != '}'
}

/// End of the unquoted token that starts at `pos`.
pub open spec fn spec_bare_end(s: Seq<char>, pos: int) -> int
    decreases s.len() - pos,
{
    if 0 <= pos < s.len() && is_bare_char(s[pos]) {
        spec_bare_end(s, pos + 1)
    } else {
        pos
    }
}

/// The next token at or after `pos`, with the position just after it; `None` on a lexical
/// error (an unterminated quoted string).
pub open spec fn spec_next_token(s: Seq<char>, pos: int) -> Option<(SpecToken, int)> {
    let p = spec_skip(s, pos, false);
    if p >= s.len() {
        Some((SpecToken::Eof, p))
    } else if s[p] == '{' {
        Some((SpecToken::Open, p + 1))
    } else if s[p] == '}' {
        Some((SpecToken::Close, p + 1))
    } else if s[p] == '"' {
        match spec_read_quoted(s, p + 1, Seq::empty()) {
            Some((t, q)) => Some((SpecToken::Str(t), q)),
            None => None,
        }
    } else {
        let e = spec_bare_end(s, p);
        if e > p {
            Some((SpecToken::Str(s.subrange(p, e)), e))
        } else {
            None
        }
    }
}

/// A value at `pos`: a string token, or `{` followed by a block body.
pub open spec fn spec_parse_value(s: Seq<char>, pos: int) -> Option<(VdfNode, int)>
    decreases s.len() - pos, 1int,
{
    match spec_next_token(s, pos) {
        Some((SpecToken::Str(t), p)) => Some((VdfNode::Str(t), p)),
        Some((SpecToken::Open, p)) => if pos < p <= s.len() {
            match spec_parse_map(s, p, Seq::empty()) {
                Some((es, q)) => Some((VdfNode::Block(es), q)),
                None => None,
            }
        } else {
            None
        },
        _ => None,
    }
}

/// The body of a block at `pos` (after its `{`): `key value` pairs up to and including the
/// closing `}`. `acc` holds the pairs read so far.
pub open spec fn spec_parse_map(s: Seq<char>, pos: int, acc: Seq<(Seq<char>, VdfNode)>) -> Option<
    (Seq<(Seq<char>, VdfNode)>, int),
>
    decreases s.len() - pos, 0int,
{
    match spec_next_token(s, pos) {
        Some((SpecToken::Close, p)) => Some((acc, p)),
        Some((SpecToken::Str(k), p)) => if pos < p <= s.len() {
            match spec_parse_value(s, p) {
                Some((v, q)) => if p < q <= s.len() {
                    spec_parse_map(s, q, acc.push((k, v)))
                } else {
                    None
                },
                None => None,
            }
        } else {
            None
        },
        _ => None,
    }
}

/// A document from `pos`: top-level `key value` pairs up to the end of input.
pub open spec fn spec_parse_doc(s: Seq<char>, pos: int, acc: Seq<(Seq<char>, VdfNode)>) -> Option<
    Seq<(Seq<char>, VdfNode)>,
>
    decreases s.len() - pos,
{
    match spec_next_token(s, pos) {
        Some((SpecToken::Eof, _)) => Some(acc),
        Some((SpecToken::Str(k), p)) => if pos < p <= s.len() {
            match spec_parse_value(s, p) {
                Some((v, q)) => if p < q <= s.len() {
                    spec_parse_doc(s, q, acc.push((k, v)))
                } else {
                    None
                },
                None => None,
            }
        } else {
            None
        },
        _ => None,
    }
}

/// The root pairs of a whole document, or `None` when it is malformed.
pub open spec fn spec_parse(s: Seq<char>) -> Option<Seq<(Seq<char>, VdfNode)>> {
    spec_parse_doc(s, 0, Seq::empty())
}

/// First string value whose key equals `key` ignoring ASCII case.
pub open spec fn spec_find_str(es: Seq<(Seq<char>, VdfNode)>, key: Seq<char>) -> Option<Seq<char>>
    decreases es.len(),
{
    if es.len() == 0 {
        None
    } else {
        match es[0].1 {
            VdfNode::Str(v) => if spec_eq_ignore_ascii_case(es[0].0, key) {
                Some(v)
            } else {
                spec_find_str(es.drop_first(), key)
            },
            _ => spec_find_str(es.drop_first(), key),
        }
    }
}

/// First block whose key equals `key` ignoring ASCII case.
pub open spec fn spec_find_map(es: Seq<(Seq<char>, VdfNode)>, key: Seq<char>) -> Option<
    Seq<(Seq<char>, VdfNode)>,
>
    decreases es.len(),
{
    if es.len() == 0 {
        None
    } else {
        match es[0].1 {
            VdfNode::Block(m) => if spec_eq_ignore_ascii_case(es[0].0, key) {
                Some(m)
            } else {
                spec_find_map(es.drop_first(), key)
            },
            _ => spec_find_map(es.drop_first(), key),
        }
    }
}

// ------------------------------------------------------------------------------------------
// Executable types and their views
// ------------------------------------------------------------------------------------------

/// A parsed KeyValues node: an ordered list of `(key, value)` pairs.
#[derive(Debug, PartialEq, Eq, Default)]
pub struct VdfMap {
    entries: Vec<(String, VdfValue)>,
}

#[derive(Debug, PartialEq, Eq)]
pub enum VdfValue {
    Str(String),
    Block(VdfMap),
}

impl VdfValue {
    /// The abstract node this value stands for.
    pub closed spec fn node(self) -> VdfNode
        decreases self,
    {
        match self {
            VdfValue::Str(s) => VdfNode::Str(s@),
            VdfValue::Block(m) => {
                proof {
                    assert(decreases_to!(m.entries => m.entries@));
                }
                VdfNode::Block(entries_view(m.entries@))
            },
        }
    }
}

/// The abstract pairs of a list of executable entries.
pub closed spec fn entries_view(es: Seq<(String, VdfValue)>) -> Seq<(Seq<char>, VdfNode)>
    decreases es,
{
    if es.len() == 0 {
        Seq::empty()
    } else {
        proof {
            assert(decreases_to!(es => es[es.len() - 1]));
            assert(es.drop_last() =~= es.subrange(0, es.len() - 1));
        }
        entries_view(es.drop_last()).push((es.last().0@, es.last().1.node()))
    }
}

impl View for VdfMap {
    type V = Seq<(Seq<char>, VdfNode)>;

    closed spec fn view(&self) -> Seq<(Seq<char>, VdfNode)> {
        entries_view(self.entries@)
    }
}

/// How a value's abstract node is built from the value.
pub proof fn lemma_node(v: VdfValue)
    ensures
        match v {
            VdfValue::Str(s) => v.node() == VdfNode::Str(s@),
            VdfValue::Block(m) => v.node() == VdfNode::Block(m@),
        },
{
}

/// The abstract entries of a block are as many as its entries.
pub proof fn lemma_entries_view_len(es: Seq<(String, VdfValue)>)
    ensures
        entries_view(es).len() == es.len(),
    decreases es.len(),
{
    if es.len() > 0 {
        lemma_entries_view_len(es.drop_last());
    }
}

/// Each abstract entry is its entry's key and node.
pub proof fn lemma_entries_view_index(es: Seq<(String, VdfValue)>, i: int)
    requires
        0 <= i < es.len(),
    ensures
        entries_view(es)[i] == (es[i].0@, es[i].1.node()),
    decreases es.len(),
{
    lemma_entries_view_len(es.drop_last());
    if i < es.len() - 1 {
        lemma_entries_view_index(es.drop_last(), i);
    }
}

/// Adding an entry adds its abstract entry at the end.
pub proof fn lemma_entries_view_push(es: Seq<(String, VdfValue)>, e: (String, VdfValue))
    ensures
        entries_view(es.push(e)) == entries_view(es).push((e.0@, e.1.node())),
{
    assert(es.push(e).drop_last() =~= es);
}

impl VdfMap {
    fn empty() -> (m: VdfMap)
        ensures
            m@ == Seq::<(Seq<char>, VdfNode)>::empty(),
    {
        VdfMap { entries: Vec::new() }
    }

    fn push_entry(&mut self, key: String, value: VdfValue)
        ensures
            final(self)@ == old(self)@.push((key@, value.node())),
    {
        proof {
            lemma_entries_view_push(self.entries@, (key, value));
        }
        self.entries.push((key, value));
    }

    /// Case-insensitive lookup of a string-valued key: the first pair, in order, whose
    /// value is a string and whose key equals `key` ignoring ASCII case.
    pub fn str(&self, key: &str) -> (r: Option<&str>)
        ensures
            match r {
                Some(v) => spec_find_str(self@, key@) == Some(v@),
                None => spec_find_str(self@, key@) is None,
            },
    {
        let key_chars = chars_of(key);
        let n = self.entries.len();
        let mut i: usize = 0;
        proof {
            lemma_entries_view_len(self.entries@);
            assert(self@.skip(0) =~= self@);
        }
        while i < n
            invariant
                n == self.entries@.len(),
                n == self@.len(),
                i <= n,
                key_chars@ == key@,
                spec_find_str(self@, key@) == spec_find_str(self@.skip(i as int), key@),
            decreases n - i,
        {
            proof {
                lemma_entries_view_index(self.entries@, i as int);
                assert(self@.skip(i as int).drop_first() =~= self@.skip(i + 1));
            }
            let (k, v) = &self.entries[i];
            match v {
                VdfValue::Str(s) => {
                    let k_chars = chars_of(k.as_str());
                    if ascii_eq_ignore_case(&k_chars, &key_chars) {
                        return Some(s.as_str());
                    }
                },
                VdfValue::Block(_) => {},
            }
            i += 1;
        }
        None
    }

    /// Case-insensitive lookup of a nested block: the first pair, in order, whose value is
    /// a block and whose key equals `key` ignoring ASCII case.
    pub fn map(&self, key: &str) -> (r: Option<&VdfMap>)
        ensures
            match r {
                Some(m) => spec_find_map(self@, key@) == Some(m@),
                None => spec_find_map(self@, key@) is None,
            },
    {
        let key_chars = chars_of(key);
        let n = self.entries.len();
        let mut i: usize = 0;
        proof {
            lemma_entries_view_len(self.entries@);
            assert(self@.skip(0) =~= self@);
        }
        while i < n
            invariant
                n == self.entries@.len(),
                n == self@.len(),
                i <= n,
                key_chars@ == key@,
                spec_find_map(self@, key@) == spec_find_map(self@.skip(i as int), key@),
            decreases n - i,
        {
            proof {
                lemma_entries_view_index(self.entries@, i as int);
                assert(self@.skip(i as int).drop_first() =~= self@.skip(i + 1));
            }
            let (k, v) = &self.entries[i];
            match v {
                VdfValue::Block(m) => {
                    let k_chars = chars_of(k.as_str());
                    if ascii_eq_ignore_case(&k_chars, &key_chars) {
                        return Some(m);
                    }
                },
                VdfValue::Str(_) => {},
            }
            i += 1;
        }
        None
    }

    /// All `(key, value)` pairs in order — used to iterate the numbered children of
    /// `libraryfolders.vdf`.
    pub fn entries(&self) -> (r: &[(String, VdfValue)])
        ensures
            entries_view(r@) == self@,
    {
        self.entries.as_slice()
    }
}

// ------------------------------------------------------------------------------------------
// The lexer
// ------------------------------------------------------------------------------------------

/// A lexical token.
enum Token {
    Str(String),
    Open,
    Close,
    Eof,
}

impl Token {
    spec fn spec_token(self) -> SpecToken {
        match self {
            Token::Str(s) => SpecToken::Str(s@),
            Token::Open => SpecToken::Open,
            Token::Close => SpecToken::Close,
            Token::Eof => SpecToken::Eof,
        }
    }
}

struct Lexer {
    input: Vec<char>,
    pos: usize,
}

fn is_ws_char(c: char) -> (r: bool)
    ensures
        r == is_ascii_ws(c),
{
    c == ' ' || c == '\t' || c == '\n' || c == '\u{0C}' || c == '\r'
}

impl Lexer {
    fn new(input: &str) -> (l: Lexer)
        ensures
            l.input@ == input@,
            l.pos == 0,
    {
        Lexer { input: chars_of(input), pos: 0 }
    }

    /// Lexes one token, or `None` on an unterminated quoted string.
    fn next_token(&mut self) -> (r: Option<Token>)
        requires
            old(self).pos <= old(self).input@.len(),
        ensures
            final(self).input@ == old(self).input@,
            final(self).pos <= final(self).input@.len(),
            match r {
                Some(t) => spec_next_token(old(self).input@, old(self).pos as int) == Some(
                    (t.spec_token(), final(self).pos as int),
                ) && (t.spec_token() !is Eof ==> old(self).pos < final(self).pos),
                None => spec_next_token(old(self).input@, old(self).pos as int) is None,
            },
    {
        self.skip_ws_and_comments();
        if self.pos >= self.input.len() {
            return Some(Token::Eof);
        }
        let byte = self.input[self.pos];
        if byte == '{' {
            self.pos += 1;
            Some(Token::Open)
        } else if byte == '}' {
            self.pos += 1;
            Some(Token::Close)
        } else if byte == '"' {
            match self.read_quoted() {
                Some(s) => Some(Token::Str(s)),
                None => None,
            }
        } else {
            match self.read_bare() {
                Some(s) => Some(Token::Str(s)),
                None => None,
            }
        }
    }

    fn skip_ws_and_comments(&mut self)
        requires
            old(self).pos <= old(self).input@.len(),
        ensures
            final(self).input@ == old(self).input@,
            old(self).pos <= final(self).pos <= final(self).input@.len(),
            final(self).pos == spec_skip(old(self).input@, old(self).pos as int, false),
    {
        let ghost s = self.input@;
        let ghost start = self.pos as int;
        let n = self.input.len();
        loop
            invariant
                self.input@ == s,
                n == s.len(),
                start <= self.pos <= n,
                spec_skip(s, start, false) == spec_skip(s, self.pos as int, false),
            ensures
                self.input@ == s,
                start <= self.pos <= n,
                self.pos == spec_skip(s, start, false),
            decreases n - self.pos,
        {
            let ghost iter_start = self.pos as int;
            while self.pos < n && is_ws_char(self.input[self.pos])
                invariant
                    self.input@ == s,
                    n == s.len(),
                    start <= iter_start <= self.pos <= n,
                    spec_skip(s, start, false) == spec_skip(s, self.pos as int, false),
                decreases n - self.pos,
            {
                self.pos += 1;
            }
            if n - self.pos >= 2 && self.input[self.pos] == '/' && self.input[self.pos + 1] == '/' {
                self.pos += 2;
                while self.pos < n && self.input[self.pos] != '\n'
                    invariant
                        self.input@ == s,
                        n == s.len(),
                        start <= self.pos <= n,
                        iter_start + 2 <= self.pos,
                        spec_skip(s, start, false) == spec_skip(s, self.pos as int, true),
                    decreases n - self.pos,
                {
                    self.pos += 1;
                }
                continue ;
            }
            break ;
        }
    }

    /// Reads a quoted string; `self.pos` is at the opening quote.
    #[verifier::loop_isolation(false)]
    fn read_quoted(&mut self) -> (r: Option<String>)
        requires
            old(self).pos < old(self).input@.len(),
        ensures
            final(self).input@ == old(self).input@,
            final(self).pos <= final(self).input@.len(),
            match r {
                Some(t) => spec_read_quoted(old(self).input@, old(self).pos + 1, Seq::empty())
                    == Some((t@, final(self).pos as int)) && old(self).pos < final(self).pos,
                None => spec_read_quoted(old(self).input@, old(self).pos + 1, Seq::empty()) is None,
            },
    {
        let ghost s = self.input@;
        let ghost start = self.pos + 1;
        let n = self.input.len();
        self.pos += 1;
        let mut out: Vec<char> = Vec::new();
        while self.pos < n
            invariant
                self.input@ == s,
                n == s.len(),
                start <= self.pos <= n,
                spec_read_quoted(s, start, Seq::empty()) == spec_read_quoted(
                    s,
                    self.pos as int,
                    out@,
                ),
            decreases n - self.pos,
        {
            let byte = self.input[self.pos];
            self.pos += 1;
            if byte == '"' {
                return Some(string_from_chars(&out));
            } else if byte == '\\' {
                if self.pos >= n {
                    return None;
                }
                let escaped = self.input[self.pos];
                self.pos += 1;
                let c = if escaped == 'n' {
                    '\n'
                } else if escaped == 't' {
                    '\t'
                } else if escaped == 'r' {
                    '\r'
                } else {
                    escaped
                };
                out.push(c);
            } else {
                out.push(byte);
            }
        }
        None
    }

    /// Reads an unquoted token; `self.pos` is at a character that is neither whitespace nor
    /// a brace.
    #[verifier::loop_isolation(false)]
    fn read_bare(&mut self) -> (r: Option<String>)
        requires
            old(self).pos <= old(self).input@.len(),
        ensures
            final(self).input@ == old(self).input@,
            final(self).pos == spec_bare_end(old(self).input@, old(self).pos as int),
            final(self).pos <= final(self).input@.len(),
            match r {
                Some(t) => t@ == old(self).input@.subrange(old(self).pos as int, final(self).pos as int)
                    && old(self).pos < final(self).pos,
                None => final(self).pos == old(self).pos,
            },
    {
        let ghost s = self.input@;
        let start = self.pos;
        let n = self.input.len();
        let mut out: Vec<char> = Vec::new();
        while self.pos < n && is_bare(self.input[self.pos])
            invariant
                self.input@ == s,
                n == s.len(),
                start <= self.pos <= n,
                out@ == s.subrange(start as int, self.pos as int),
                spec_bare_end(s, start as int) == spec_bare_end(s, self.pos as int),
            decreases n - self.pos,
        {
            out.push(self.input[self.pos]);
            self.pos += 1;
            assert(out@ =~= s.subrange(start as int, self.pos as int));
        }
        if self.pos > start {
            Some(string_from_chars(&out))
        } else {
            None
        }
    }
}

fn is_bare(c: char) -> (r: bool)
    ensures
        r == is_bare_char(c),
{
    !is_ws_char(c) && c != '{' && c != '}'
}

// ------------------------------------------------------------------------------------------
// The parser
// ------------------------------------------------------------------------------------------

/// The abstract result of a parse.
pub open spec fn parsed_view(r: Option<VdfMap>) -> Option<Seq<(Seq<char>, VdfNode)>> {
    match r {
        Some(m) => Some(m@),
        None => None,
    }
}

/// Parse a text-VDF document into its root map. Returns `None` on malformed input: an
/// unterminated quoted string or block, a brace where a key is expected, or a key without
/// a value.
#[verifier::loop_isolation(false)]
pub fn parse(input: &str) -> (r: Option<VdfMap>)
    ensures
        parsed_view(r) == spec_parse(input@),
{
    let mut lexer = Lexer::new(input);
    let ghost s = input@;
    let mut root = VdfMap::empty();
    let n = lexer.input.len();
    loop
        invariant
            lexer.input@ == s,
            n == s.len(),
            lexer.pos <= n,
            spec_parse(s) == spec_parse_doc(s, lexer.pos as int, root@),
        decreases n - lexer.pos,
    {
        let ghost pos = lexer.pos as int;
        match lexer.next_token() {
            None => {
                return None;
            },
            Some(Token::Eof) => {
                return Some(root);
            },
            Some(Token::Str(key)) => {
                match parse_value(&mut lexer) {
                    None => {
                        return None;
                    },
                    Some(value) => {
                        root.push_entry(key, value);
                    },
                }
            },
            Some(Token::Open) => {
                return None;
            },
            Some(Token::Close) => {
                return None;
            },
        }
    }
}

fn parse_value(lexer: &mut Lexer) -> (r: Option<VdfValue>)
    requires
        old(lexer).pos <= old(lexer).input@.len(),
    ensures
        final(lexer).input@ == old(lexer).input@,
        final(lexer).pos <= final(lexer).input@.len(),
        match r {
            Some(v) => spec_parse_value(old(lexer).input@, old(lexer).pos as int) == Some(
                (v.node(), final(lexer).pos as int),
            ) && old(lexer).pos < final(lexer).pos,
            None => spec_parse_value(old(lexer).input@, old(lexer).pos as int) is None,
        },
    decreases old(lexer).input@.len() - old(lexer).pos, 1int,
{
    match lexer.next_token() {
        Some(Token::Str(s)) => Some(VdfValue::Str(s)),
        Some(Token::Open) => match parse_map(lexer) {
            Some(m) => Some(VdfValue::Block(m)),
            None => None,
        },
        _ => None,
    }
}

/// Parses the body of a `{ … }` block up to and including the closing brace.
#[verifier::loop_isolation(false)]
fn parse_map(lexer: &mut Lexer) -> (r: Option<VdfMap>)
    requires
        old(lexer).pos <= old(lexer).input@.len(),
    ensures
        final(lexer).input@ == old(lexer).input@,
        final(lexer).pos <= final(lexer).input@.len(),
        match r {
            Some(m) => spec_parse_map(old(lexer).input@, old(lexer).pos as int, Seq::empty())
                == Some((m@, final(lexer).pos as int)) && old(lexer).pos < final(lexer).pos,
            None => spec_parse_map(old(lexer).input@, old(lexer).pos as int, Seq::empty()) is None,
        },
    decreases old(lexer).input@.len() - old(lexer).pos, 0int,
{
    let ghost s = lexer.input@;
    let ghost start = lexer.pos as int;
    let n = lexer.input.len();
    let mut map = VdfMap::empty();
    loop
        invariant
            lexer.input@ == s,
            n == s.len(),
            start <= lexer.pos <= n,
            spec_parse_map(s, start, Seq::empty()) == spec_parse_map(s, lexer.pos as int, map@),
        decreases n - lexer.pos,
    {
        match lexer.next_token() {
            Some(Token::Close) => {
                return Some(map);
            },
            Some(Token::Str(key)) => {
                match parse_value(lexer) {
                    None => {
                        return None;
                    },
                    Some(value) => {
                        map.push_entry(key, value);
                    },
                }
            },
            _ => {
                return None;
            },
        }
    }
}

} // verus!
