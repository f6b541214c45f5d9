//! Characters, strings and the splitting of a text into lines.
use vstd::prelude::*;

verus! {

/// A line as it is stored before its end: one trailing carriage return is
/// part of a `\r\n` line ending and is dropped.
pub open spec fn strip_cr(line: Seq<char>) -> Seq<char> {
    if line.len() > 0 && line.last() == '\r' {
        line.drop_last()
    } else {
        line
    }
}

/// Reading `s` from the left: the lines closed by a `\n` so far, and the
/// characters of the line still open.
pub open spec fn split_state(s: Seq<char>) -> (Seq<Seq<char>>, Seq<char>)
    decreases s.len(),
{
    if s.len() == 0 {
        (Seq::empty(), Seq::empty())
    } else {
        let (done, open) = split_state(s.drop_last());
        if s.last() == '\n' {
            (done.push(strip_cr(open)), Seq::empty())
        } else {
            (done, open.push(s.last()))
        }
    }
}

/// The lines of a text: every `\n` (or `\r\n`) ends a line, and the text after
/// the last `\n` is one more line when it is not empty.
pub open spec fn text_lines(s: Seq<char>) -> Seq<Seq<char>> {
    let (done, open) = split_state(s);
    if open.len() == 0 {
        done
    } else {
        done.push(open)
    }
}

/// A final line ending is optional: a text that does not end in a line
/// ending has the same lines once one is added.
pub proof fn lemma_final_newline_optional(s: Seq<char>)
    requires
        s.len() > 0,
        s.last() != '\n',
        s.last() != '\r',
    ensures
        text_lines(s.push('\n')) == text_lines(s),
{
    assert(s.push('\n').drop_last() == s);
    let (done, open) = split_state(s.drop_last());
    assert(split_state(s) == (done, open.push(s.last())));
}

/// A line may end in `\r\n` or in `\n`: both give the same lines, unless
/// the `\r` would follow another `\r`.
pub proof fn lemma_crlf_is_newline(s: Seq<char>)
    requires
        s.len() == 0 || s.last() != '\r',
    ensures
        text_lines(s.push('\r').push('\n')) == text_lines(s.push('\n')),
{
    assert(s.push('\r').push('\n').drop_last() == s.push('\r'));
    assert(s.push('\r').drop_last() == s);
    assert(s.push('\n').drop_last() == s);
    let (done, open) = split_state(s);
    if s.len() > 0 && s.last() != '\n' {
        assert(s.drop_last().push(s.last()) == s);
        let (d0, o0) = split_state(s.drop_last());
        assert(open == o0.push(s.last()));
    }
    assert(strip_cr(open.push('\r')) == open);
    assert(strip_cr(open) == open);
    assert(split_state(s.push('\r')) == (done, open.push('\r')));
    assert(split_state(s.push('\r').push('\n')) == (done.push(open), Seq::<char>::empty()));
    assert(split_state(s.push('\n')) == (done.push(open), Seq::<char>::empty()));
}

/// `char::is_whitespace`: the characters with the Unicode `White_Space` property.
pub open spec fn is_white_space(c: char) -> bool {
    ||| '\u{9}' <= c <= '\u{d}'
    ||| c == ' '
    ||| c == '\u{85}'
    ||| c == '\u{a0}'
    ||| c == '\u{1680}'
    ||| '\u{2000}' <= c <= '\u{200a}'
    ||| c == '\u{2028}'
    ||| c == '\u{2029}'
    ||| c == '\u{202f}'
    ||| c == '\u{205f}'
    ||| c == '\u{3000}'
}

/// `char::to_ascii_uppercase`: `a`..=`z` become `A`..=`Z`, all else stays.
pub open spec fn ascii_upper(c: char) -> char {
    if 'a' <= c <= 'z' {
        ((c as u32) - 32) as char
    } else {
        c
    }
}

/// Whether `c` is white space (see [`is_white_space`]).
pub fn is_whitespace(c: char) -> (b: bool)
    ensures
        b == is_white_space(c),
{
    ('\u{9}' <= c && c <= '\u{d}') || c == ' ' || c == '\u{85}' || c == '\u{a0}' || c
        == '\u{1680}' || ('\u{2000}' <= c && c <= '\u{200a}') || c == '\u{2028}' || c
        == '\u{2029}' || c == '\u{202f}' || c == '\u{205f}' || c == '\u{3000}'
}

/// The ASCII upper-case form of `c` (see [`ascii_upper`]).
pub fn to_ascii_uppercase(c: char) -> (u: char)
    ensures
        u == ascii_upper(c),
{
    if 'a' <= c && c <= 'z' {
        let code: u32 = (c as u32) - 32;
        assert(0x41 <= code <= 0x5a);
        char_from_ascii(code)
    } else {
        c
    }
}

/// The character with an ASCII code.
fn char_from_ascii(code: u32) -> (c: char)
    requires
        code < 128,
    ensures
        c == code as char,
{
    let b: u8 = code as u8;
    b as char
}

/// `String::push` appends one character at the end.
#[verifier::external_body]
pub(crate) fn push_char(s: &mut String, c: char)
    ensures
        final(s)@ == old(s)@.push(c),
{
    s.push(c)
}

/// `String::pop` takes the last character off, if there is one.
#[verifier::external_body]
pub(crate) fn pop_char(s: &mut String) -> (r: Option<char>)
    ensures
        old(s)@.len() == 0 ==> r is None && final(s)@ == old(s)@,
        old(s)@.len() > 0 ==> r == Some(old(s)@.last()) && final(s)@ == old(s)@.drop_last(),
{
    s.pop()
}

/// The characters of a string slice, in order.
pub fn chars_of(s: &str) -> (res: Vec<char>)
    ensures
        res@ == s@,
{
    let mut res: Vec<char> = Vec::new();
    for c in it: s.chars()
        invariant
            res@ == it.seq().take(it.index() as int),
    {
        res.push(c);
    }
    res
}

/// A string made of the given characters.
pub fn string_from_chars(chars: &Vec<char>) -> (s: String)
    ensures
        s@ == chars@,
{
    let mut s = String::new();
    let n = chars.len();
    for i in 0..n
        invariant
            n == chars.len(),
            s@ == chars@.take(i as int),
    {
        push_char(&mut s, chars[i]);
        assert(chars@.take(i + 1) == chars@.take(i as int).push(chars@[i as int]));
    }
    assert(chars@.take(n as int) == chars@);
    s
}

/// The view of a sequence of strings.
pub open spec fn strings_view(v: Seq<String>) -> Seq<Seq<char>> {
    v.map_values(|l: String| l@)
}

/// Splits a text into its lines (see [`text_lines`]).
pub fn split_lines(text: &str) -> (lines: Vec<String>)
    ensures
        strings_view(lines@) == text_lines(text@),
        lines@.len() <= text@.len(),
{
    let chars = chars_of(text);
    let n = chars.len();
    let mut lines: Vec<String> = Vec::new();
    let mut open: Vec<char> = Vec::new();
    for i in 0..n
        invariant
            n == chars.len(),
            chars@ == text@,
            (strings_view(lines@), open@) == split_state(chars@.take(i as int)),
            lines@.len() + open@.len() <= i,
    {
        let c = chars[i];
        assert(chars@.take(i + 1).drop_last() == chars@.take(i as int));
        if c == '\n' {
            if open.len() > 0 && open[open.len() - 1] == '\r' {
                open.pop();
            }
            let line = string_from_chars(&open);
            lines.push(line);
            open = Vec::new();
            assert(strings_view(lines@) == split_state(chars@.take(i + 1)).0);
            assert(open@ == split_state(chars@.take(i + 1)).1);
        } else {
            open.push(c);
        }
    }
    assert(chars@.take(n as int) == chars@);
    if open.len() > 0 {
        let line = string_from_chars(&open);
        lines.push(line);
        assert(strings_view(lines@) == text_lines(text@));
    }
    lines
}

/// Whether a path ends in a `..` component.
pub open spec fn ends_in_parent(path: Seq<char>) -> bool {
    &&& path.len() >= 2
    &&& path[path.len() - 1] == '.'
    &&& path[path.len() - 2] == '.'
    &&& (path.len() == 2 || path[path.len() - 3] == '/')
}

/// Calls `std::path::Path::file_name` on `path` and turns the name it gives
/// into a `String` (a name taken from a `&str` is valid UTF-8). std documents
/// that it gives the final component of the path, and nothing when the path
/// ends in `..`; what a component is follows the path syntax of the platform
/// the program is built for, so only the `..` case is stated.
#[verifier::external_body]
fn path_file_name(path: &str) -> (name: Option<String>)
    ensures
        ends_in_parent(path@) ==> name is None,
{
    match std::path::Path::new(path).file_name() {
        Some(n) => match n.to_str() {
            Some(s) => Some(s.to_owned()),
            None => None,
        },
        None => None,
    }
}

/// The name to show for a file: its file name, or the whole path when it has
/// none.
pub fn name_for(path: &str, file_name: Option<String>) -> (name: String)
    ensures
        name@ == match file_name {
            Some(n) => n@,
            None => path@,
        },
{
    match file_name {
        Some(n) => n,
        None => path.to_owned(),
    }
}

/// The name under which a file's session is recorded: the file name of
/// `path` (see [`name_for`]); the path itself when it ends in `..`.
pub fn display_name(path: &str) -> (name: String)
    ensures
        ends_in_parent(path@) ==> name@ == path@,
{
    let file_name = path_file_name(path);
    name_for(path, file_name)
}

} // verus!
