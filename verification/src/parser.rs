//! The two configuration grammars: the key-binding file and the compact
//! column-format string. Both are parsed by recursive descent over the
//! characters of the input; each recognizer has a specification-level
//! counterpart that defines the grammar, and the executable parser is proved
//! to agree with it. Parse failures carry the character offset at which the
//! input stopped matching the grammar.

use vstd::prelude::*;

use crate::keys::{all_digits, dec_value};

verus! {

/// The error taxonomy of the configuration loaders: a failure to read a
/// source (raised by the caller that owns the file handle, with the failing
/// path), or a grammar mismatch at a character offset.
#[derive(Debug, Clone, PartialEq)]
pub enum ParserError {
    Io(String),
    Parse(usize),
}

/// The classes of characters that the grammars scan over.
#[derive(Clone, Copy, Debug)]
pub enum CharClass {
    /// Horizontal whitespace: space or tab.
    Space,
    /// Any whitespace, line endings too.
    Multispace,
    /// A carriage return or line feed.
    LineEnding,
    /// Anything but a carriage return or line feed.
    NonLineEnding,
    /// A character allowed in an action name: ASCII letters and underscore.
    ActionName,
}

pub open spec fn is_space_char(c: char) -> bool {
    c == ' ' || c == '\t'
}

pub open spec fn is_line_ending_char(c: char) -> bool {
    c == '\r' || c == '\n'
}

pub open spec fn is_action_char(c: char) -> bool {
    ('a' as int <= c as int && c as int <= 'z' as int) || ('A' as int <= c as int && c as int
        <= 'Z' as int) || c == '_'
}

pub open spec fn in_class(cls: CharClass, c: char) -> bool {
    match cls {
        CharClass::Space => is_space_char(c),
        CharClass::Multispace => is_space_char(c) || is_line_ending_char(c),
        CharClass::LineEnding => is_line_ending_char(c),
        CharClass::NonLineEnding => !is_line_ending_char(c),
        CharClass::ActionName => is_action_char(c),
    }
}

/// Whether one character may appear in an action name: ASCII letters and
/// underscore.
pub fn is_action_name_char(ch: char) -> (r: bool)
    ensures
        r == is_action_char(ch),
{
    let u = ch as u32;
    (65 <= u && u <= 90) || (97 <= u && u <= 122) || ch == '_'
}

/// Whether one character ends a line.
pub fn is_line_ending_s(ch: char) -> (r: bool)
    ensures
        r == is_line_ending_char(ch),
{
    ch == '\r' || ch == '\n'
}

fn char_in_class(cls: CharClass, c: char) -> (r: bool)
    ensures
        r == in_class(cls, c),
{
    match cls {
        CharClass::Space => c == ' ' || c == '\t',
        CharClass::Multispace => c == ' ' || c == '\t' || c == '\r' || c == '\n',
        CharClass::LineEnding => c == '\r' || c == '\n',
        CharClass::NonLineEnding => !(c == '\r' || c == '\n'),
        CharClass::ActionName => is_action_name_char(c),
    }
}

/// The first position at or after `pos` whose character falls outside the
/// class (or the end of the input).
pub open spec fn scan(s: Seq<char>, pos: int, cls: CharClass) -> int
    decreases s.len() - pos,
{
    if pos < s.len() && in_class(cls, s[pos]) {
        scan(s, pos + 1, cls)
    } else {
        pos
    }
}

pub proof fn lemma_scan(s: Seq<char>, pos: int, cls: CharClass)
    requires
        0 <= pos <= s.len(),
    ensures
        pos <= scan(s, pos, cls) <= s.len(),
        forall|j: int| pos <= j < scan(s, pos, cls) ==> in_class(cls, #[trigger] s[j]),
        scan(s, pos, cls) < s.len() ==> !in_class(cls, s[scan(s, pos, cls)]),
    decreases s.len() - pos,
{
    if pos < s.len() && in_class(cls, s[pos]) {
        lemma_scan(s, pos + 1, cls);
    }
}

fn scan_from(s: &str, len: usize, pos: usize, cls: CharClass) -> (r: usize)
    requires
        len == s@.len(),
        pos <= len,
    ensures
        r as int == scan(s@, pos as int, cls),
        pos <= r <= len,
{
    let mut i: usize = pos;
    while i < len && char_in_class(cls, s.get_char(i))
        invariant
            pos <= i <= len,
            len == s@.len(),
            scan(s@, pos as int, cls) == scan(s@, i as int, cls),
        decreases len - i,
    {
        i = i + 1;
    }
    i
}

/// The position of the first occurrence of `c` at or after `pos`, if any.
pub open spec fn find_char(s: Seq<char>, pos: int, c: char) -> Option<int>
    decreases s.len() - pos,
{
    if pos >= s.len() {
        None
    } else if s[pos] == c {
        Some(pos)
    } else {
        find_char(s, pos + 1, c)
    }
}

pub proof fn lemma_find_char(s: Seq<char>, pos: int, c: char)
    requires
        0 <= pos <= s.len(),
    ensures
        match find_char(s, pos, c) {
            Some(q) => pos <= q < s.len() && s[q] == c && forall|j: int|
                pos <= j < q ==> #[trigger] s[j] != c,
            None => forall|j: int| pos <= j < s.len() ==> #[trigger] s[j] != c,
        },
    decreases s.len() - pos,
{
    if pos < s.len() && s[pos] != c {
        lemma_find_char(s, pos + 1, c);
    }
}

fn find_char_from(s: &str, len: usize, pos: usize, c: char) -> (r: Option<usize>)
    requires
        len == s@.len(),
        pos <= len,
    ensures
        match r {
            Some(q) => find_char(s@, pos as int, c) == Some(q as int) && pos <= q < len,
            None => find_char(s@, pos as int, c) is None,
        },
{
    let mut i: usize = pos;
    while i < len
        invariant
            pos <= i <= len,
            len == s@.len(),
            find_char(s@, pos as int, c) == find_char(s@, i as int, c),
        decreases len - i,
    {
        if s.get_char(i) == c {
            return Some(i);
        }
        i = i + 1;
    }
    None
}

/// Whether the characters of `t` appear verbatim at position `pos` of `s`.
pub open spec fn matches_at(s: Seq<char>, pos: int, t: Seq<char>) -> bool {
    pos + t.len() <= s.len() && s.subrange(pos, pos + t.len()) == t
}

fn tag_at(s: &str, len: usize, pos: usize, t: &str) -> (r: bool)
    requires
        len == s@.len(),
        pos <= len,
    ensures
        r == matches_at(s@, pos as int, t@),
{
    let tlen = t.unicode_len();
    if tlen > len - pos {
        return false;
    }
    let mut j: usize = 0;
    while j < tlen
        invariant
            0 <= j <= tlen,
            len == s@.len(),
            tlen == t@.len(),
            pos + tlen <= len,
            forall|k: int| 0 <= k < j ==> s@[pos + k] == t@[k],
        decreases tlen - j,
    {
        if s.get_char(pos + j) != t.get_char(j) {
            proof {
                assert(s@.subrange(pos as int, pos + t@.len())[j as int] == s@[pos + j]);
            }
            return false;
        }
        j = j + 1;
    }
    proof {
        assert(s@.subrange(pos as int, pos + t@.len()) =~= t@);
    }
    true
}

// ---------------------------------------------------------------------------
// Grammar primitives: comments, line endings, ignorable lines.
// ---------------------------------------------------------------------------
/// A run of one or more line-ending characters.
pub open spec fn p_line_ending(s: Seq<char>, pos: int) -> Option<int> {
    let q = scan(s, pos, CharClass::LineEnding);
    if q > pos {
        Some(q)
    } else {
        None
    }
}

/// A `#` and everything up to (not through) the end of the line.
pub open spec fn p_comment(s: Seq<char>, pos: int) -> Option<int> {
    if pos < s.len() && s[pos] == '#' {
        Some(scan(s, pos + 1, CharClass::NonLineEnding))
    } else {
        None
    }
}

/// A line terminator, optionally preceded by a comment.
pub open spec fn p_line_ending_or_comment(s: Seq<char>, pos: int) -> Option<int> {
    let p1 = match p_comment(s, pos) {
        Some(q) => q,
        None => pos,
    };
    p_line_ending(s, p1)
}

/// One stretch of ignorable noise: a whitespace run, or an optionally
/// indented comment line with its terminator.
pub open spec fn p_ignored_line(s: Seq<char>, pos: int) -> Option<int> {
    if pos < s.len() && in_class(CharClass::Multispace, s[pos]) {
        Some(scan(s, pos, CharClass::Multispace))
    } else {
        p_line_ending_or_comment(s, pos)
    }
}

pub proof fn lemma_ignored_line(s: Seq<char>, pos: int)
    requires
        0 <= pos <= s.len(),
    ensures
        match p_ignored_line(s, pos) {
            Some(q) => pos < q <= s.len(),
            None => true,
        },
{
    lemma_scan(s, pos, CharClass::Multispace);
    if pos < s.len() {
        lemma_scan(s, pos + 1, CharClass::NonLineEnding);
    }
    match p_comment(s, pos) {
        Some(q) => {
            lemma_scan(s, q, CharClass::LineEnding);
        },
        None => {
            lemma_scan(s, pos, CharClass::LineEnding);
        },
    }
}

/// The position after every ignorable line that follows `pos`.
pub open spec fn skip_ignored(s: Seq<char>, pos: int) -> int
    decreases s.len() - pos,
{
    if 0 <= pos <= s.len() {
        match p_ignored_line(s, pos) {
            Some(q) => if pos < q <= s.len() {
                skip_ignored(s, q)
            } else {
                pos
            },
            None => pos,
        }
    } else {
        pos
    }
}

pub proof fn lemma_skip_ignored(s: Seq<char>, pos: int)
    requires
        0 <= pos <= s.len(),
    ensures
        pos <= skip_ignored(s, pos) <= s.len(),
        p_ignored_line(s, skip_ignored(s, pos)) is None,
    decreases s.len() - pos,
{
    lemma_ignored_line(s, pos);
    match p_ignored_line(s, pos) {
        Some(q) => {
            lemma_skip_ignored(s, q);
        },
        None => {},
    }
}

/// Recognizes one comment, returning the position of the line ending
/// (or input end) that follows it.
pub fn comment(s: &str, pos: usize) -> (r: Option<usize>)
    requires
        pos <= s@.len(),
    ensures
        match r {
            Some(q) => p_comment(s@, pos as int) == Some(q as int) && q <= s@.len(),
            None => p_comment(s@, pos as int) is None,
        },
{
    let len = s.unicode_len();
    if pos < len && s.get_char(pos) == '#' {
        let q = scan_from(s, len, pos + 1, CharClass::NonLineEnding);
        Some(q)
    } else {
        None
    }
}

fn line_ending_or_comment(s: &str, len: usize, pos: usize) -> (r: Option<usize>)
    requires
        len == s@.len(),
        pos <= len,
    ensures
        match r {
            Some(q) => p_line_ending_or_comment(s@, pos as int) == Some(q as int) && pos < q
                <= len,
            None => p_line_ending_or_comment(s@, pos as int) is None,
        },
{
    let p1 = match comment(s, pos) {
        Some(q) => q,
        None => pos,
    };
    proof {
        if pos < s@.len() {
            lemma_scan(s@, pos + 1, CharClass::NonLineEnding);
        }
    }
    let q = scan_from(s, len, p1, CharClass::LineEnding);
    if q > p1 {
        Some(q)
    } else {
        None
    }
}

/// Recognizes one stretch of ignorable noise (whitespace or a comment line).
pub fn ignored_line(s: &str, pos: usize) -> (r: Option<usize>)
    requires
        pos <= s@.len(),
    ensures
        match r {
            Some(q) => p_ignored_line(s@, pos as int) == Some(q as int) && pos < q <= s@.len(),
            None => p_ignored_line(s@, pos as int) is None,
        },
{
    let len = s.unicode_len();
    if pos < len && char_in_class(CharClass::Multispace, s.get_char(pos)) {
        let q = scan_from(s, len, pos, CharClass::Multispace);
        proof {
            lemma_scan(s@, pos as int, CharClass::Multispace);
        }
        Some(q)
    } else {
        line_ending_or_comment(s, len, pos)
    }
}

fn skip_ignored_from(s: &str, len: usize, pos: usize) -> (r: usize)
    requires
        len == s@.len(),
        pos <= len,
    ensures
        r as int == skip_ignored(s@, pos as int),
        pos <= r <= len,
{
    let mut i: usize = pos;
    loop
        invariant
            pos <= i <= len,
            len == s@.len(),
            skip_ignored(s@, pos as int) == skip_ignored(s@, i as int),
        ensures
            i as int == skip_ignored(s@, pos as int),
            pos <= i <= len,
        decreases len - i,
    {
        match ignored_line(s, i) {
            Some(q) => {
                i = q;
            },
            None => {
                break ;
            },
        }
    }
    i
}

// ---------------------------------------------------------------------------
// The key-binding grammar.
// ---------------------------------------------------------------------------
/// A `def_key` header: the keyword, one or more spaces, the quoted key text,
/// optional trailing spaces, and a line terminator (optionally preceded by a
/// comment). Yields the key text.
pub open spec fn p_def_key(s: Seq<char>, pos: int) -> Option<(int, Seq<char>)> {
    if !matches_at(s, pos, "def_key"@) {
        None
    } else {
        let p1 = pos + "def_key"@.len();
        let p2 = scan(s, p1, CharClass::Space);
        if p2 == p1 {
            None
        } else if !(p2 < s.len() && s[p2] == '"') {
            None
        } else {
            match find_char(s, p2 + 1, '"') {
                None => None,
                Some(q) => {
                    let key = s.subrange(p2 + 1, q);
                    let p4 = scan(s, q + 1, CharClass::Space);
                    match p_line_ending_or_comment(s, p4) {
                        None => None,
                        Some(p5) => Some((p5, key)),
                    }
                },
            }
        }
    }
}

pub proof fn lemma_p_def_key(s: Seq<char>, pos: int)
    requires
        0 <= pos <= s.len(),
    ensures
        match p_def_key(s, pos) {
            Some(v) => pos < v.0 <= s.len(),
            None => true,
        },
{
    if matches_at(s, pos, "def_key"@) {
        let p1 = pos + "def_key"@.len();
        lemma_scan(s, p1, CharClass::Space);
        let p2 = scan(s, p1, CharClass::Space);
        if p2 > p1 && p2 < s.len() && s[p2] == '"' {
            lemma_find_char(s, p2 + 1, '"');
            match find_char(s, p2 + 1, '"') {
                Some(q) => {
                    lemma_scan(s, q + 1, CharClass::Space);
                    let p4 = scan(s, q + 1, CharClass::Space);
                    if p4 < s.len() {
                        lemma_scan(s, p4 + 1, CharClass::NonLineEnding);
                    }
                    match p_comment(s, p4) {
                        Some(c1) => {
                            lemma_scan(s, c1, CharClass::LineEnding);
                        },
                        None => {
                            lemma_scan(s, p4, CharClass::LineEnding);
                        },
                    }
                },
                None => {},
            }
        }
    }
}

/// One action line: one or more spaces, a non-empty action name, optional
/// trailing spaces, and an optional line terminator. Yields the name.
pub open spec fn p_action(s: Seq<char>, pos: int) -> Option<(int, Seq<char>)> {
    let p1 = scan(s, pos, CharClass::Space);
    if p1 == pos {
        None
    } else {
        let p2 = scan(s, p1, CharClass::ActionName);
        if p2 == p1 {
            None
        } else {
            let name = s.subrange(p1, p2);
            let p3 = scan(s, p2, CharClass::Space);
            let p4 = match p_line_ending_or_comment(s, p3) {
                Some(q) => q,
                None => p3,
            };
            Some((p4, name))
        }
    }
}

pub proof fn lemma_p_action(s: Seq<char>, pos: int)
    requires
        0 <= pos <= s.len(),
    ensures
        match p_action(s, pos) {
            Some(v) => pos < v.0 <= s.len() && v.1.len() > 0,
            None => true,
        },
{
    lemma_scan(s, pos, CharClass::Space);
    let p1 = scan(s, pos, CharClass::Space);
    if p1 > pos {
        lemma_scan(s, p1, CharClass::ActionName);
        let p2 = scan(s, p1, CharClass::ActionName);
        if p2 > p1 {
            lemma_scan(s, p2, CharClass::Space);
            let p3 = scan(s, p2, CharClass::Space);
            if p3 < s.len() {
                lemma_scan(s, p3 + 1, CharClass::NonLineEnding);
            }
            match p_comment(s, p3) {
                Some(c1) => {
                    lemma_scan(s, c1, CharClass::LineEnding);
                },
                None => {
                    lemma_scan(s, p3, CharClass::LineEnding);
                },
            }
        }
    }
}

/// Every action line that follows `pos`, in order.
pub open spec fn p_actions(s: Seq<char>, pos: int) -> (int, Seq<Seq<char>>)
    decreases s.len() - pos,
{
    if 0 <= pos <= s.len() {
        match p_action(s, pos) {
            Some(v) => if pos < v.0 <= s.len() {
                let tail = p_actions(s, v.0);
                (tail.0, seq![v.1] + tail.1)
            } else {
                (pos, Seq::empty())
            },
            None => (pos, Seq::empty()),
        }
    } else {
        (pos, Seq::empty())
    }
}

/// One key block: leading ignorable lines, a `def_key` header, its one or
/// more action lines, and trailing ignorable lines. Yields the key text and
/// the ordered action names.
pub open spec fn p_key_block(s: Seq<char>, pos: int) -> Option<(int, (Seq<char>, Seq<Seq<char>>))> {
    let p0 = skip_ignored(s, pos);
    match p_def_key(s, p0) {
        None => None,
        Some(h) => {
            let acts = p_actions(s, h.0);
            if acts.1.len() == 0 {
                None
            } else {
                let p3 = skip_ignored(s, acts.0);
                Some((p3, (h.1, acts.1)))
            }
        },
    }
}

/// Every key block that follows `pos`, in order.
pub open spec fn p_key_blocks(s: Seq<char>, pos: int) -> (int, Seq<(Seq<char>, Seq<Seq<char>>)>)
    decreases s.len() - pos,
{
    if 0 <= pos <= s.len() {
        match p_key_block(s, pos) {
            Some(v) => if pos < v.0 <= s.len() {
                let tail = p_key_blocks(s, v.0);
                (tail.0, seq![v.1] + tail.1)
            } else {
                (pos, Seq::empty())
            },
            None => (pos, Seq::empty()),
        }
    } else {
        (pos, Seq::empty())
    }
}

/// Where the binding-file parse stops: the end of the last well-formed key
/// block, trailing noise skipped.
pub open spec fn bindings_stop(s: Seq<char>) -> int {
    skip_ignored(s, p_key_blocks(s, 0).0)
}

/// The parse of a whole binding file: the ordered (key text, action names)
/// pairs, provided the entire input is consumed; `None` on a grammar
/// mismatch.
pub open spec fn bindings_of(s: Seq<char>) -> Option<Seq<(Seq<char>, Seq<Seq<char>>)>> {
    if bindings_stop(s) == s.len() {
        Some(p_key_blocks(s, 0).1)
    } else {
        None
    }
}

/// Recognizes a `def_key` header, yielding the position after its line
/// terminator and the quoted key text.
pub fn def_key(s: &str, pos: usize) -> (r: Option<(usize, String)>)
    requires
        pos <= s@.len(),
    ensures
        match r {
            Some(v) => p_def_key(s@, pos as int) == Some((v.0 as int, v.1@)) && pos < v.0
                <= s@.len(),
            None => p_def_key(s@, pos as int) is None,
        },
{
    let len = s.unicode_len();
    if !tag_at(s, len, pos, "def_key") {
        return None;
    }
    proof {
        reveal_strlit("def_key");
        lemma_p_def_key(s@, pos as int);
    }
    let p1 = pos + 7;
    let p2 = scan_from(s, len, p1, CharClass::Space);
    if p2 == p1 {
        return None;
    }
    if !(p2 < len) {
        return None;
    }
    if s.get_char(p2) != '"' {
        return None;
    }
    match find_char_from(s, len, p2 + 1, '"') {
        None => None,
        Some(q) => {
            let key = s.substring_char(p2 + 1, q).to_owned();
            let p4 = scan_from(s, len, q + 1, CharClass::Space);
            match line_ending_or_comment(s, len, p4) {
                None => None,
                Some(p5) => Some((p5, key)),
            }
        },
    }
}

/// Recognizes one action line, yielding the position after it and the
/// action name.
pub fn action(s: &str, pos: usize) -> (r: Option<(usize, String)>)
    requires
        pos <= s@.len(),
    ensures
        match r {
            Some(v) => p_action(s@, pos as int) == Some((v.0 as int, v.1@)) && pos < v.0
                <= s@.len(),
            None => p_action(s@, pos as int) is None,
        },
{
    let len = s.unicode_len();
    proof {
        lemma_p_action(s@, pos as int);
    }
    let p1 = scan_from(s, len, pos, CharClass::Space);
    if p1 == pos {
        return None;
    }
    let p2 = scan_from(s, len, p1, CharClass::ActionName);
    if p2 == p1 {
        return None;
    }
    let name = s.substring_char(p1, p2).to_owned();
    let p3 = scan_from(s, len, p2, CharClass::Space);
    let p4 = match line_ending_or_comment(s, len, p3) {
        Some(q) => q,
        None => p3,
    };
    Some((p4, name))
}

fn actions_from(s: &str, len: usize, pos: usize) -> (r: (usize, Vec<String>))
    requires
        len == s@.len(),
        pos <= len,
    ensures
        r.0 as int == p_actions(s@, pos as int).0,
        r.1.deep_view() == p_actions(s@, pos as int).1,
        pos <= r.0 <= len,
{
    let mut i: usize = pos;
    let mut acc: Vec<String> = Vec::new();
    proof {
        assert(acc.deep_view() =~= Seq::<Seq<char>>::empty());
    }
    loop
        invariant
            pos <= i <= len,
            len == s@.len(),
            p_actions(s@, pos as int).0 == p_actions(s@, i as int).0,
            p_actions(s@, pos as int).1 == acc.deep_view() + p_actions(s@, i as int).1,
        ensures
            i as int == p_actions(s@, pos as int).0,
            acc.deep_view() == p_actions(s@, pos as int).1,
            pos <= i <= len,
        decreases len - i,
    {
        let ghost prev = acc.deep_view();
        match action(s, i) {
            Some(v) => {
                let q = v.0;
                acc.push(v.1);
                proof {
                    assert(acc.deep_view() =~= prev.push(v.1@));
                    assert(p_actions(s@, i as int).1 =~= seq![v.1@] + p_actions(s@, q as int).1);
                    assert(prev.push(v.1@) + p_actions(s@, q as int).1 =~= prev + p_actions(
                        s@,
                        i as int,
                    ).1);
                }
                i = q;
            },
            None => {
                proof {
                    assert(p_actions(s@, i as int).1 =~= Seq::<Seq<char>>::empty());
                    assert(acc.deep_view() + Seq::<Seq<char>>::empty() =~= acc.deep_view());
                }
                break ;
            },
        }
    }
    (i, acc)
}

/// Recognizes one key block, yielding the position after it, the key text,
/// and the ordered action names.
pub fn key_actions(s: &str, pos: usize) -> (r: Option<(usize, (String, Vec<String>))>)
    requires
        pos <= s@.len(),
    ensures
        match r {
            Some(v) => {
                &&& p_key_block(s@, pos as int) == Some(
                    (v.0 as int, (v.1.0@, v.1.1.deep_view())),
                )
                &&& pos <= v.0 <= s@.len()
            },
            None => p_key_block(s@, pos as int) is None,
        },
{
    let len = s.unicode_len();
    let p0 = skip_ignored_from(s, len, pos);
    match def_key(s, p0) {
        None => None,
        Some(h) => {
            let acts = actions_from(s, len, h.0);
            if acts.1.len() == 0 {
                proof {
                    assert(p_actions(s@, h.0 as int).1 =~= acts.1.deep_view());
                }
                None
            } else {
                let p3 = skip_ignored_from(s, len, acts.0);
                Some((p3, (h.1, acts.1)))
            }
        },
    }
}

/// Recognizes every key block from `pos` on, yielding the stop position and
/// the blocks in file order.
pub fn key_actions_aggregator(s: &str, pos: usize) -> (r: (usize, Vec<(String, Vec<String>)>))
    requires
        pos <= s@.len(),
    ensures
        r.0 as int == p_key_blocks(s@, pos as int).0,
        pos <= r.0 <= s@.len(),
        r.1@.len() == p_key_blocks(s@, pos as int).1.len(),
        forall|k: int|
            0 <= k < r.1@.len() ==> (#[trigger] r.1@[k].0)@ == p_key_blocks(s@, pos as int).1[k].0
                && r.1@[k].1.deep_view() == p_key_blocks(s@, pos as int).1[k].1,
{
    let len = s.unicode_len();
    let mut i: usize = pos;
    let mut acc: Vec<(String, Vec<String>)> = Vec::new();
    let ghost mut accspec: Seq<(Seq<char>, Seq<Seq<char>>)> = Seq::empty();
    loop
        invariant
            pos <= i <= len,
            len == s@.len(),
            p_key_blocks(s@, pos as int).0 == p_key_blocks(s@, i as int).0,
            p_key_blocks(s@, pos as int).1 == accspec + p_key_blocks(s@, i as int).1,
            accspec.len() == acc@.len(),
            forall|k: int|
                0 <= k < acc@.len() ==> (#[trigger] acc@[k].0)@ == accspec[k].0
                    && acc@[k].1.deep_view() == accspec[k].1,
        ensures
            i as int == p_key_blocks(s@, pos as int).0,
            pos <= i <= len,
            accspec == p_key_blocks(s@, pos as int).1,
            accspec.len() == acc@.len(),
            forall|k: int|
                0 <= k < acc@.len() ==> (#[trigger] acc@[k].0)@ == accspec[k].0
                    && acc@[k].1.deep_view() == accspec[k].1,
        decreases len - i,
    {
        let ghost prev = accspec;
        match key_actions(s, i) {
            Some(v) => {
                if v.0 == i {
                    // A key block always consumes input; this branch is
                    // unreachable, and leaving the loop keeps the measure.
                    proof {
                        assert(false) by {
                            lemma_block_consumes(s@, i as int);
                        }
                    }
                    break ;
                }
                let q = v.0;
                proof {
                    accspec = prev.push((v.1.0@, v.1.1.deep_view()));
                    assert(p_key_blocks(s@, i as int).1 =~= seq![(v.1.0@, v.1.1.deep_view())]
                        + p_key_blocks(s@, q as int).1);
                    assert(prev + p_key_blocks(s@, i as int).1 =~= accspec + p_key_blocks(
                        s@,
                        q as int,
                    ).1);
                }
                acc.push(v.1);
                i = q;
            },
            None => {
                proof {
                    assert(p_key_blocks(s@, i as int).1 =~= Seq::<(
                        Seq<char>,
                        Seq<Seq<char>>,
                    )>::empty());
                    assert(accspec + p_key_blocks(s@, i as int).1 =~= accspec);
                }
                break ;
            },
        }
    }
    (i, acc)
}

proof fn lemma_block_consumes(s: Seq<char>, pos: int)
    requires
        0 <= pos <= s.len(),
    ensures
        match p_key_block(s, pos) {
            Some(v) => pos < v.0 <= s.len(),
            None => true,
        },
{
    lemma_skip_ignored(s, pos);
    let p0 = skip_ignored(s, pos);
    lemma_p_def_key(s, p0);
    match p_def_key(s, p0) {
        Some(h) => {
            lemma_p_actions(s, h.0);
            let acts = p_actions(s, h.0);
            lemma_skip_ignored(s, acts.0);
        },
        None => {},
    }
}

pub proof fn lemma_p_actions(s: Seq<char>, pos: int)
    requires
        0 <= pos <= s.len(),
    ensures
        pos <= p_actions(s, pos).0 <= s.len(),
    decreases s.len() - pos,
{
    lemma_p_action(s, pos);
    match p_action(s, pos) {
        Some(v) => {
            if pos < v.0 <= s.len() {
                lemma_p_actions(s, v.0);
            }
        },
        None => {},
    }
}

/// Parses a whole binding file into its ordered (key text, action names)
/// pairs. Succeeds exactly when the entire input matches the grammar, and
/// otherwise reports the character offset at which matching stopped.
pub fn parse_bindings(s: &str) -> (r: Result<Vec<(String, Vec<String>)>, ParserError>)
    ensures
        match r {
            Ok(v) => {
                &&& bindings_of(s@) is Some
                &&& v@.len() == bindings_of(s@)->Some_0.len()
                &&& forall|k: int|
                    0 <= k < v@.len() ==> (#[trigger] v@[k].0)@ == bindings_of(s@)->Some_0[k].0
                        && v@[k].1.deep_view() == bindings_of(s@)->Some_0[k].1
            },
            Err(e) => {
                &&& bindings_of(s@) is None
                &&& e == ParserError::Parse(bindings_stop(s@) as usize)
            },
        },
{
    let len = s.unicode_len();
    let blocks = key_actions_aggregator(s, 0);
    let stop = skip_ignored_from(s, len, blocks.0);
    if stop == len {
        Ok(blocks.1)
    } else {
        Err(ParserError::Parse(stop))
    }
}

// ---------------------------------------------------------------------------
// The column-format grammar.
// ---------------------------------------------------------------------------
/// The width field of one column: a trailing `f` marks the width as fixed,
/// and the rest must be a plain decimal number; anything unparsable (or out
/// of range) falls back to a width of 1.
pub open spec fn width_of(t: Seq<char>) -> (int, bool) {
    let fixed = t.len() > 0 && t.last() == 'f';
    let digits = if fixed {
        t.drop_last()
    } else {
        t
    };
    let w = if digits.len() > 0 && all_digits(digits) && dec_value(digits) <= 0x7fffffff {
        dec_value(digits)
    } else {
        1
    };
    (w, fixed)
}

fn dec_value_exec(s: &str, len: usize, from: usize, to: usize) -> (r: Option<i32>)
    requires
        len == s@.len(),
        from <= to <= len,
    ensures
        match r {
            Some(v) => all_digits(s@.subrange(from as int, to as int)) && v as int == dec_value(
                s@.subrange(from as int, to as int),
            ) && v >= 0,
            None => !all_digits(s@.subrange(from as int, to as int)) || dec_value(
                s@.subrange(from as int, to as int),
            ) > 0x7fffffff,
        },
{
    let ghost whole = s@.subrange(from as int, to as int);
    let mut value: i64 = 0;
    let mut i: usize = from;
    while i < to
        invariant
            from <= i <= to <= len,
            len == s@.len(),
            whole == s@.subrange(from as int, to as int),
            all_digits(s@.subrange(from as int, i as int)),
            value == dec_value(s@.subrange(from as int, i as int)),
            0 <= value <= 0x7fffffff,
        decreases to - i,
    {
        let c = s.get_char(i);
        let u = c as u32;
        if !(48 <= u && u <= 57) {
            proof {
                assert(whole[i - from] == s@[i as int]);
                assert(!all_digits(whole));
            }
            return None;
        }
        let d = (u - 48) as i64;
        let next = value * 10 + d;
        proof {
            let p = s@.subrange(from as int, i + 1);
            assert(p.drop_last() =~= s@.subrange(from as int, i as int));
            assert(p.last() == s@[i as int]);
        }
        if next > 0x7fffffff {
            proof {
                if all_digits(whole) {
                    assert(s@.subrange(from as int, i + 1) =~= whole.take(i + 1 - from));
                    crate::keys::lemma_dec_value_prefix(whole, i + 1 - from);
                }
            }
            return None;
        }
        value = next;
        i = i + 1;
    }
    proof {
        assert(s@.subrange(from as int, to as int) =~= s@.subrange(from as int, i as int));
    }
    Some(value as i32)
}

/// Interprets the width field of one column: the numeric width and whether
/// it is fixed.
pub fn to_width(t: &str) -> (r: (i32, bool))
    ensures
        r.0 as int == width_of(t@).0,
        r.1 == width_of(t@).1,
{
    let tlen = t.unicode_len();
    let fixed = tlen > 0 && t.get_char(tlen - 1) == 'f';
    let end = if fixed {
        tlen - 1
    } else {
        tlen
    };
    proof {
        if fixed {
            assert(t@.subrange(0, end as int) =~= t@.drop_last());
        } else {
            assert(t@.subrange(0, end as int) =~= t@);
        }
    }
    if end == 0 {
        return (1, fixed);
    }
    match dec_value_exec(t, tlen, 0, end) {
        Some(v) => (v, fixed),
        None => (1, fixed),
    }
}

/// One column descriptor: optional leading spaces, the parenthesized width,
/// the bracketed color name, and the braced property tag. Yields the width,
/// the fixed flag, the color text, and the tag text.
pub open spec fn p_column(s: Seq<char>, pos: int) -> Option<
    (int, (int, bool, Seq<char>, Seq<char>)),
> {
    let p0 = scan(s, pos, CharClass::Space);
    if !(p0 < s.len() && s[p0] == '(') {
        None
    } else {
        match find_char(s, p0 + 1, ')') {
            None => None,
            Some(q1) => {
                let w = width_of(s.subrange(p0 + 1, q1));
                if !(q1 + 1 < s.len() && s[q1 + 1] == '[') {
                    None
                } else {
                    match find_char(s, q1 + 2, ']') {
                        None => None,
                        Some(q2) => {
                            let color = s.subrange(q1 + 2, q2);
                            if !(q2 + 1 < s.len() && s[q2 + 1] == '{') {
                                None
                            } else {
                                match find_char(s, q2 + 2, '}') {
                                    None => None,
                                    Some(q3) => Some(
                                        (q3 + 1, (w.0, w.1, color, s.subrange(q2 + 2, q3))),
                                    ),
                                }
                            }
                        },
                    }
                }
            },
        }
    }
}

pub proof fn lemma_p_column(s: Seq<char>, pos: int)
    requires
        0 <= pos <= s.len(),
    ensures
        match p_column(s, pos) {
            Some(v) => pos < v.0 <= s.len(),
            None => true,
        },
{
    lemma_scan(s, pos, CharClass::Space);
    let p0 = scan(s, pos, CharClass::Space);
    if p0 < s.len() && s[p0] == '(' {
        lemma_find_char(s, p0 + 1, ')');
        match find_char(s, p0 + 1, ')') {
            Some(q1) => {
                if q1 + 1 < s.len() && s[q1 + 1] == '[' {
                    lemma_find_char(s, q1 + 2, ']');
                    match find_char(s, q1 + 2, ']') {
                        Some(q2) => {
                            if q2 + 1 < s.len() && s[q2 + 1] == '{' {
                                lemma_find_char(s, q2 + 2, '}');
                            }
                        },
                        None => {},
                    }
                }
            },
            None => {},
        }
    }
}

/// Every column descriptor from `pos` on, in order.
pub open spec fn p_columns(s: Seq<char>, pos: int) -> (int, Seq<(int, bool, Seq<char>, Seq<char>)>)
    decreases s.len() - pos,
{
    if 0 <= pos <= s.len() {
        match p_column(s, pos) {
            Some(v) => if pos < v.0 <= s.len() {
                let tail = p_columns(s, v.0);
                (tail.0, seq![v.1] + tail.1)
            } else {
                (pos, Seq::empty())
            },
            None => (pos, Seq::empty()),
        }
    } else {
        (pos, Seq::empty())
    }
}

/// Where the column-format parse stops: the end of the last well-formed
/// column, trailing whitespace skipped.
pub open spec fn columns_stop(s: Seq<char>) -> int {
    scan(s, p_columns(s, 0).0, CharClass::Multispace)
}

/// The parse of a whole column-format string: the ordered raw descriptors,
/// provided there is at least one and the entire input is consumed.
pub open spec fn columns_format_of(s: Seq<char>) -> Option<
    Seq<(int, bool, Seq<char>, Seq<char>)>,
> {
    let c = p_columns(s, 0);
    if c.1.len() > 0 && columns_stop(s) == s.len() {
        Some(c.1)
    } else {
        None
    }
}

/// Skips any run of whitespace (line endings too) from `pos` on.
pub fn skip_multispace(s: &str, pos: usize) -> (r: usize)
    requires
        pos <= s@.len(),
    ensures
        r as int == scan(s@, pos as int, CharClass::Multispace),
        pos <= r <= s@.len(),
{
    let len = s.unicode_len();
    scan_from(s, len, pos, CharClass::Multispace)
}

/// Recognizes one column descriptor.
pub fn column(s: &str, pos: usize) -> (r: Option<(usize, (i32, bool, String, String))>)
    requires
        pos <= s@.len(),
    ensures
        match r {
            Some(v) => {
                &&& p_column(s@, pos as int) == Some(
                    (v.0 as int, (v.1.0 as int, v.1.1, v.1.2@, v.1.3@)),
                )
                &&& pos < v.0 <= s@.len()
            },
            None => p_column(s@, pos as int) is None,
        },
{
    let len = s.unicode_len();
    proof {
        lemma_p_column(s@, pos as int);
    }
    let p0 = scan_from(s, len, pos, CharClass::Space);
    if !(p0 < len) {
        return None;
    }
    if s.get_char(p0) != '(' {
        return None;
    }
    match find_char_from(s, len, p0 + 1, ')') {
        None => None,
        Some(q1) => {
            let w = to_width(s.substring_char(p0 + 1, q1));
            if !(q1 + 1 < len) {
                return None;
            }
            if s.get_char(q1 + 1) != '[' {
                return None;
            }
            match find_char_from(s, len, q1 + 2, ']') {
                None => None,
                Some(q2) => {
                    let color = s.substring_char(q1 + 2, q2).to_owned();
                    if !(q2 + 1 < len) {
                        return None;
                    }
                    if s.get_char(q2 + 1) != '{' {
                        return None;
                    }
                    match find_char_from(s, len, q2 + 2, '}') {
                        None => None,
                        Some(q3) => {
                            let tag = s.substring_char(q2 + 2, q3).to_owned();
                            Some((q3 + 1, (w.0, w.1, color, tag)))
                        },
                    }
                },
            }
        },
    }
}

/// Recognizes every column descriptor from `pos` on, yielding the stop
/// position and the raw descriptors in order.
pub fn get_columns_format(s: &str, pos: usize) -> (r: (usize, Vec<(i32, bool, String, String)>))
    requires
        pos <= s@.len(),
    ensures
        r.0 as int == p_columns(s@, pos as int).0,
        pos <= r.0 <= s@.len(),
        r.1@.len() == p_columns(s@, pos as int).1.len(),
        forall|k: int|
            0 <= k < r.1@.len() ==> {
                let v = #[trigger] r.1@[k];
                let w = p_columns(s@, pos as int).1[k];
                v.0 as int == w.0 && v.1 == w.1 && v.2@ == w.2 && v.3@ == w.3
            },
{
    let len = s.unicode_len();
    let mut i: usize = pos;
    let mut acc: Vec<(i32, bool, String, String)> = Vec::new();
    let ghost mut accspec: Seq<(int, bool, Seq<char>, Seq<char>)> = Seq::empty();
    loop
        invariant
            pos <= i <= len,
            len == s@.len(),
            p_columns(s@, pos as int).0 == p_columns(s@, i as int).0,
            p_columns(s@, pos as int).1 == accspec + p_columns(s@, i as int).1,
            accspec.len() == acc@.len(),
            forall|k: int|
                0 <= k < acc@.len() ==> {
                    let v = #[trigger] acc@[k];
                    v.0 as int == accspec[k].0 && v.1 == accspec[k].1 && v.2@ == accspec[k].2
                        && v.3@ == accspec[k].3
                },
        ensures
            i as int == p_columns(s@, pos as int).0,
            pos <= i <= len,
            accspec == p_columns(s@, pos as int).1,
            accspec.len() == acc@.len(),
            forall|k: int|
                0 <= k < acc@.len() ==> {
                    let v = #[trigger] acc@[k];
                    v.0 as int == accspec[k].0 && v.1 == accspec[k].1 && v.2@ == accspec[k].2
                        && v.3@ == accspec[k].3
                },
        decreases len - i,
    {
        let ghost prev = accspec;
        match column(s, i) {
            Some(v) => {
                let q = v.0;
                proof {
                    accspec = prev.push((v.1.0 as int, v.1.1, v.1.2@, v.1.3@));
                    assert(p_columns(s@, i as int).1 =~= seq![(v.1.0 as int, v.1.1, v.1.2@, v.1.3@)]
                        + p_columns(s@, q as int).1);
                    assert(prev + p_columns(s@, i as int).1 =~= accspec + p_columns(
                        s@,
                        q as int,
                    ).1);
                }
                acc.push(v.1);
                i = q;
            },
            None => {
                proof {
                    assert(p_columns(s@, i as int).1 =~= Seq::<(
                        int,
                        bool,
                        Seq<char>,
                        Seq<char>,
                    )>::empty());
                    assert(accspec + p_columns(s@, i as int).1 =~= accspec);
                }
                break ;
            },
        }
    }
    (i, acc)
}

} // verus!
