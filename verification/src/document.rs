//! A text being typed: its lines, the line on screen and the cursor in it.
use vstd::prelude::*;

use crate::text::{chars_of, split_lines, strings_view, text_lines};

verus! {

/// Whether there is still text to type.
#[derive(Debug, Clone, Copy, PartialEq, Eq, Structural)]
pub enum Progress {
    Active,
    Finished,
}

/// The abstract state of a [`Document`].
pub struct DocumentView {
    /// All lines of the text, blank ones included.
    pub lines: Seq<Seq<char>>,
    /// Index of the line that was last reached in `lines`.
    pub line_idx: int,
    /// Position of the cursor in the current line.
    pub char_idx: int,
    /// The line being typed.
    pub current: Seq<char>,
    pub progress: Progress,
}

/// The first index at or after `from` that holds a non-blank line, or
/// `max(from, lines.len())` when there is none.
pub open spec fn scan_nonempty(lines: Seq<Seq<char>>, from: int) -> int
    decreases lines.len() - from,
{
    if from >= lines.len() {
        from
    } else if lines[from].len() > 0 {
        from
    } else {
        scan_nonempty(lines, from + 1)
    }
}

/// What a scan finds: a position at or after `from`, inside the lines when
/// started inside them, and a non-blank line whenever it stops inside.
pub proof fn lemma_scan_nonempty(lines: Seq<Seq<char>>, from: int)
    ensures
        from <= scan_nonempty(lines, from),
        from <= lines.len() ==> scan_nonempty(lines, from) <= lines.len(),
        scan_nonempty(lines, from) < lines.len() ==> lines[scan_nonempty(lines, from)].len() > 0,
        forall|k: int| from <= k < scan_nonempty(lines, from) && k < lines.len() ==> lines[k].len() == 0,
    decreases lines.len() - from,
{
    if from < lines.len() && lines[from].len() == 0 {
        lemma_scan_nonempty(lines, from + 1);
    }
}

/// Typing the expected character of a consistent text keeps its line index
/// within the text.
pub proof fn lemma_advance_within_text(v: DocumentView)
    requires
        v.well_formed(),
        expected_of(v) is Some,
    ensures
        advance_view(v).line_idx <= v.lines.len(),
{
    lemma_scan_nonempty(v.lines, v.line_idx + 1);
}

/// The first non-blank line, or the empty line when every line is blank.
pub open spec fn first_line(lines: Seq<Seq<char>>) -> Seq<char> {
    let j = scan_nonempty(lines, 0);
    if j < lines.len() {
        lines[j]
    } else {
        Seq::empty()
    }
}

/// The state in which typing of `lines` starts.
pub open spec fn start_view(lines: Seq<Seq<char>>) -> DocumentView {
    DocumentView {
        lines,
        line_idx: 0,
        char_idx: 0,
        current: first_line(lines),
        progress: Progress::Active,
    }
}

/// The state after one more character has been typed: the cursor moves on;
/// past the end of the line the next non-blank line becomes current, and
/// when there is none the text is finished.
pub open spec fn advance_view(v: DocumentView) -> DocumentView {
    let c = v.char_idx + 1;
    if c < v.current.len() {
        DocumentView { char_idx: c, ..v }
    } else {
        let j = scan_nonempty(v.lines, v.line_idx + 1);
        if j < v.lines.len() {
            DocumentView {
                line_idx: j,
                char_idx: 0,
                current: v.lines[j],
                progress: Progress::Active,
                ..v
            }
        } else {
            DocumentView { line_idx: j, char_idx: c, progress: Progress::Finished, ..v }
        }
    }
}

/// The character under the cursor, if the cursor is inside the line.
pub open spec fn expected_of(v: DocumentView) -> Option<char> {
    if 0 <= v.char_idx < v.current.len() {
        Some(v.current[v.char_idx])
    } else {
        None
    }
}

/// The non-blank lines at or after index `from`, in order.
pub open spec fn nonempty_from(lines: Seq<Seq<char>>, from: int) -> Seq<Seq<char>>
    decreases lines.len() - from,
{
    if from >= lines.len() {
        Seq::empty()
    } else if lines[from].len() > 0 {
        seq![lines[from]] + nonempty_from(lines, from + 1)
    } else {
        nonempty_from(lines, from + 1)
    }
}

/// At most `count` of the non-blank lines after the current one.
pub open spec fn upcoming_view(v: DocumentView, count: int) -> Seq<Seq<char>> {
    let after = nonempty_from(v.lines, v.line_idx + 1);
    if count <= after.len() {
        after.take(count)
    } else {
        after
    }
}

/// The number of non-blank lines in `s`.
pub open spec fn count_nonempty(s: Seq<Seq<char>>) -> nat
    decreases s.len(),
{
    if s.len() == 0 {
        0
    } else {
        count_nonempty(s.drop_last()) + if s.last().len() > 0 {
            1nat
        } else {
            0nat
        }
    }
}

/// The number of characters in a sequence of lines.
pub open spec fn total_len(lines: Seq<Seq<char>>) -> int
    decreases lines.len(),
{
    if lines.len() == 0 {
        0
    } else {
        lines[0].len() + total_len(lines.drop_first())
    }
}

/// How many characters are left to type: the rest of the current line and
/// all non-blank lines after the current index.
pub open spec fn chars_left(v: DocumentView) -> int {
    (v.current.len() - v.char_idx) + total_len(nonempty_from(v.lines, v.line_idx + 1))
}

/// The non-blank lines from `from` on are the line the scan stops at (if it
/// stops inside) and those after it.
proof fn lemma_nonempty_from_scan(lines: Seq<Seq<char>>, from: int)
    requires
        0 <= from,
    ensures
        scan_nonempty(lines, from) < lines.len() ==> nonempty_from(lines, from) == seq![lines[scan_nonempty(lines, from)]]
            + nonempty_from(lines, scan_nonempty(lines, from) + 1),
        scan_nonempty(lines, from) >= lines.len() ==> nonempty_from(lines, from) == Seq::<Seq<char>>::empty(),
    decreases lines.len() - from,
{
    if from < lines.len() && lines[from].len() == 0 {
        lemma_nonempty_from_scan(lines, from + 1);
    }
}

proof fn lemma_total_len_cons(line: Seq<char>, rest: Seq<Seq<char>>)
    ensures
        total_len(seq![line] + rest) == line.len() + total_len(rest),
{
    assert((seq![line] + rest).drop_first() == rest);
}

/// Typing the expected character of a consistent text leaves one character
/// fewer to type; the text is finished exactly when that was the last one,
/// and otherwise there is again a character to type.
pub proof fn lemma_typing_counts_down(v: DocumentView)
    requires
        v.well_formed(),
        expected_of(v) is Some,
    ensures
        chars_left(advance_view(v)) == chars_left(v) - 1,
        (advance_view(v).progress == Progress::Finished) == (chars_left(v) == 1),
        advance_view(v).progress == Progress::Active ==> expected_of(advance_view(v)) is Some,
{
    let c = v.char_idx + 1;
    let w = advance_view(v);
    lemma_nonempty_from_scan(v.lines, v.line_idx + 1);
    lemma_scan_nonempty(v.lines, v.line_idx + 1);
    lemma_total_len_nonneg(nonempty_from(v.lines, v.line_idx + 1));
    if c < v.current.len() {
    } else {
        let j = scan_nonempty(v.lines, v.line_idx + 1);
        if j < v.lines.len() {
            lemma_total_len_cons(v.lines[j], nonempty_from(v.lines, j + 1));
            lemma_total_len_nonneg(nonempty_from(v.lines, j + 1));
        } else {
            assert(total_len(Seq::<Seq<char>>::empty()) == 0);
        }
    }
}

proof fn lemma_total_len_nonneg(lines: Seq<Seq<char>>)
    ensures
        total_len(lines) >= 0,
    decreases lines.len(),
{
    if lines.len() > 0 {
        lemma_total_len_nonneg(lines.drop_first());
    }
}

/// A text starts active; there is a character to type whenever any is
/// left; and when its first line is not blank, the characters left to type
/// are exactly those of its non-blank lines.
pub proof fn lemma_start_counts(lines: Seq<Seq<char>>)
    requires
        lines.len() > 0,
    ensures
        start_view(lines).progress == Progress::Active,
        chars_left(start_view(lines)) > 0 ==> expected_of(start_view(lines)) is Some,
        lines[0].len() > 0 ==> chars_left(start_view(lines)) == total_len(nonempty_from(lines, 0)),
{
    let v = start_view(lines);
    lemma_scan_nonempty(lines, 0);
    lemma_nonempty_from_scan(lines, 0);
    lemma_nonempty_from_scan(lines, 1);
    lemma_scan_nonempty(lines, 1);
    if lines[0].len() > 0 {
        lemma_total_len_cons(lines[0], nonempty_from(lines, 1));
    } else {
        let j = scan_nonempty(lines, 0);
        if j >= lines.len() {
            assert(forall|k: int| 1 <= k < lines.len() ==> lines[k].len() == 0);
            lemma_all_blank(lines, 1);
        }
    }
}

/// Lines that are all blank from `from` on have no non-blank line there.
proof fn lemma_all_blank(lines: Seq<Seq<char>>, from: int)
    requires
        0 <= from,
        forall|k: int| from <= k < lines.len() ==> lines[k].len() == 0,
    ensures
        nonempty_from(lines, from) == Seq::<Seq<char>>::empty(),
    decreases lines.len() - from,
{
    if from < lines.len() {
        lemma_all_blank(lines, from + 1);
    }
}

/// The number of the current line among the non-blank lines, counted from 1.
pub open spec fn line_number(v: DocumentView) -> int {
    count_nonempty(v.lines.take(v.line_idx)) + 1int
}

/// Counting the non-blank lines of a longer prefix never gives fewer.
proof fn lemma_count_take_mono(s: Seq<Seq<char>>, a: int, b: int)
    requires
        0 <= a <= b <= s.len(),
    ensures
        count_nonempty(s.take(a)) <= count_nonempty(s.take(b)),
    decreases b - a,
{
    if a < b {
        assert(s.take(b).drop_last() =~= s.take(b - 1));
        lemma_count_take_mono(s, a, b - 1);
    }
}

/// Each line adds itself to the count when it is not blank.
proof fn lemma_count_take_step(s: Seq<Seq<char>>, k: int)
    requires
        0 <= k < s.len(),
    ensures
        count_nonempty(s.take(k + 1)) == count_nonempty(s.take(k)) + if s[k].len() > 0 {
            1int
        } else {
            0int
        },
{
    assert(s.take(k + 1).drop_last() =~= s.take(k));
}

/// A text starts consistent (see [`DocumentView::well_formed`]).
pub proof fn lemma_start_well_formed(lines: Seq<Seq<char>>)
    requires
        0 < lines.len() <= usize::MAX,
        forall|i: int| 0 <= i < lines.len() ==> #[trigger] lines[i].len() <= usize::MAX,
    ensures
        start_view(lines).well_formed(),
{
    lemma_scan_nonempty(lines, 0);
}

/// Typing a character keeps a text consistent, as long as its positions
/// can still be counted.
pub proof fn lemma_advance_well_formed(v: DocumentView)
    requires
        v.well_formed(),
        v.char_idx < usize::MAX,
        v.line_idx < usize::MAX,
        forall|i: int| 0 <= i < v.lines.len() ==> #[trigger] v.lines[i].len() <= usize::MAX,
    ensures
        advance_view(v).well_formed(),
{
    lemma_scan_nonempty(v.lines, v.line_idx + 1);
}

/// A finished text stays finished whatever more is typed, and has no
/// character to type; an active text has one exactly when its line is not
/// blank.
pub proof fn lemma_finished_stays_finished(v: DocumentView)
    requires
        v.well_formed(),
    ensures
        v.progress == Progress::Finished ==> expected_of(v) is None && advance_view(v).progress
            == Progress::Finished,
        v.progress == Progress::Active ==> (expected_of(v) is Some <==> v.current.len() > 0),
{
    lemma_scan_nonempty(v.lines, v.line_idx + 1);
}

/// While a text with a non-blank line is active, its line number lies
/// between 1 and the number of non-blank lines, and typing never lowers it.
pub proof fn lemma_line_number_bounds(v: DocumentView)
    requires
        v.well_formed(),
        v.progress == Progress::Active,
        count_nonempty(v.lines) >= 1,
    ensures
        1 <= line_number(v) <= count_nonempty(v.lines),
        advance_view(v).line_idx <= v.lines.len(),
        line_number(v) <= line_number(advance_view(v)),
{
    let s = v.lines;
    assert(s.take(s.len() as int) =~= s);
    assert(s.take(0) =~= Seq::<Seq<char>>::empty());
    if v.line_idx > 0 {
        lemma_count_take_step(s, v.line_idx);
        lemma_count_take_mono(s, v.line_idx + 1, s.len() as int);
    }
    lemma_scan_nonempty(s, v.line_idx + 1);
    lemma_count_take_mono(s, v.line_idx, advance_view(v).line_idx);
}

/// The characters of a sequence of lines, one line after the other.
pub open spec fn joined(lines: Seq<Seq<char>>) -> Seq<char>
    decreases lines.len(),
{
    if lines.len() == 0 {
        Seq::empty()
    } else {
        lines[0] + joined(lines.drop_first())
    }
}

/// The characters still to type, in order: the rest of the current line,
/// then the non-blank lines after the current index.
pub open spec fn remaining_text(v: DocumentView) -> Seq<char> {
    v.current.skip(v.char_idx) + joined(nonempty_from(v.lines, v.line_idx + 1))
}

proof fn lemma_joined_cons(line: Seq<char>, rest: Seq<Seq<char>>)
    ensures
        joined(seq![line] + rest) == line + joined(rest),
{
    assert((seq![line] + rest).drop_first() == rest);
}

/// Typing runs through the text in order, each character once: the
/// character to type is the first of those still to type, and typing it
/// leaves the others; the text is finished exactly when none is left. A
/// text whose first line is not blank starts with all the characters of its
/// non-blank lines to type.
pub proof fn lemma_typing_runs_through_text(v: DocumentView)
    requires
        v.well_formed(),
        expected_of(v) is Some,
    ensures
        remaining_text(v).len() > 0,
        expected_of(v) == Some(remaining_text(v)[0]),
        remaining_text(advance_view(v)) == remaining_text(v).drop_first(),
        advance_view(v).progress == Progress::Finished <==> remaining_text(advance_view(v)).len() == 0,
{
    let c = v.char_idx + 1;
    let w = advance_view(v);
    let rest = joined(nonempty_from(v.lines, v.line_idx + 1));
    lemma_nonempty_from_scan(v.lines, v.line_idx + 1);
    lemma_scan_nonempty(v.lines, v.line_idx + 1);
    assert(v.current.skip(v.char_idx)[0] == v.current[v.char_idx]);
    if c < v.current.len() {
        assert(v.current.skip(c) =~= v.current.skip(v.char_idx).drop_first());
        assert((v.current.skip(v.char_idx) + rest).drop_first() =~= v.current.skip(c) + rest);
        assert(w.current.skip(c).len() > 0);
    } else {
        let j = scan_nonempty(v.lines, v.line_idx + 1);
        assert(v.current.skip(v.char_idx) =~= seq![v.current[v.char_idx]]);
        if j < v.lines.len() {
            lemma_joined_cons(v.lines[j], nonempty_from(v.lines, j + 1));
            assert(w.current.skip(0) =~= v.lines[j]);
            assert((seq![v.current[v.char_idx]] + rest).drop_first() =~= rest);
            lemma_nonempty_from_scan(v.lines, j + 1);
        } else {
            assert(w.current.skip(c) =~= Seq::<char>::empty());
            assert(joined(Seq::<Seq<char>>::empty()) == Seq::<char>::empty());
            assert(rest =~= Seq::<char>::empty());
            lemma_nonempty_from_empty(v.lines, j + 1);
            assert((seq![v.current[v.char_idx]] + rest).drop_first() =~= Seq::<char>::empty());
        }
    }
}

/// Past the last line there are no non-blank lines.
proof fn lemma_nonempty_from_empty(lines: Seq<Seq<char>>, from: int)
    requires
        from >= lines.len(),
    ensures
        nonempty_from(lines, from) == Seq::<Seq<char>>::empty(),
{
}

/// A text whose first line is not blank starts with the characters of all
/// its non-blank lines to type, in order.
pub proof fn lemma_start_runs_whole_text(lines: Seq<Seq<char>>)
    requires
        lines.len() > 0,
        lines[0].len() > 0,
    ensures
        remaining_text(start_view(lines)) == joined(nonempty_from(lines, 0)),
{
    lemma_scan_nonempty(lines, 0);
    lemma_nonempty_from_scan(lines, 0);
    lemma_joined_cons(lines[0], nonempty_from(lines, 1));
    assert(lines[0].skip(0) =~= lines[0]);
}

impl DocumentView {
    /// What every document keeps: there is a line; a finished text has its
    /// cursor past its line and its line index past its lines; an active
    /// text stands at a line of it, a non-blank one unless it is the first,
    /// with its cursor inside the line unless the line is blank.
    pub open spec fn well_formed(self) -> bool {
        &&& 0 < self.lines.len() <= usize::MAX
        &&& self.current.len() <= usize::MAX
        &&& 0 <= self.line_idx <= usize::MAX
        &&& 0 <= self.char_idx <= usize::MAX
        &&& self.progress == Progress::Finished ==> self.char_idx >= self.current.len()
        &&& self.progress == Progress::Finished ==> self.line_idx >= self.lines.len()
        &&& self.progress == Progress::Active ==> self.line_idx < self.lines.len()
        &&& self.progress == Progress::Active ==> self.line_idx == 0 || self.lines[self.line_idx].len() > 0
        &&& self.progress == Progress::Active && self.current.len() > 0 ==> self.char_idx < self.current.len()
        &&& self.progress == Progress::Active ==> self.char_idx <= self.current.len()
    }
}

/// A text being typed, line by line.
#[derive(Debug, Clone)]
pub struct Document {
    lines: Vec<String>,
    line_idx: usize,
    char_idx: usize,
    pub current_line: String,
    current_chars: Vec<char>,
    pub progress: Progress,
}

impl View for Document {
    type V = DocumentView;

    closed spec fn view(&self) -> DocumentView {
        DocumentView {
            lines: strings_view(self.lines@),
            line_idx: self.line_idx as int,
            char_idx: self.char_idx as int,
            current: self.current_line@,
            progress: self.progress,
        }
    }
}

/// The index of the first non-blank line at or after `from` (see [`scan_nonempty`]).
fn scan_from(lines: &Vec<String>, from: usize) -> (j: usize)
    ensures
        j == scan_nonempty(strings_view(lines@), from as int),
{
    let ghost v = strings_view(lines@);
    let mut j = from;
    while j < lines.len() && lines[j].as_str().is_empty()
        invariant
            from <= j,
            v == strings_view(lines@),
            scan_nonempty(v, j as int) == scan_nonempty(v, from as int),
        decreases lines.len() - j,
    {
        j += 1;
    }
    j
}

impl Document {
    /// Whether the document is consistent (see [`DocumentView::well_formed`]).
    pub closed spec fn wf(&self) -> bool {
        &&& self.current_chars@ == self.current_line@
        &&& self@.well_formed()
    }

    /// Every document keeps its invariant in view.
    pub proof fn lemma_wf(&self)
        requires
            self.wf(),
        ensures
            self@.well_formed(),
    {
    }

    /// A document over the lines of `text`; an error when it has no line.
    pub fn from_text(text: &str) -> (res: Result<Self, String>)
        ensures
            res is Err <==> text_lines(text@).len() == 0,
            res matches Ok(d) ==> d.wf() && d@ == start_view(text_lines(text@)),
            res matches Err(e) ==> e@ == "Text is empty"@,
    {
        let lines = split_lines(text);
        if lines.len() == 0 {
            return Err("Text is empty".to_owned());
        }
        let j = scan_from(&lines, 0);
        let first = if j < lines.len() {
            lines[j].clone()
        } else {
            String::new()
        };
        let current_chars = chars_of(first.as_str());
        assert(current_chars.len() == current_chars@.len());
        Ok(Document {
            lines,
            line_idx: 0,
            char_idx: 0,
            current_line: first,
            current_chars,
            progress: Progress::Active,
        })
    }

    /// Back to the start of the text.
    pub fn reset(&mut self)
        requires
            old(self).wf(),
        ensures
            final(self).wf(),
            final(self)@ == start_view(old(self)@.lines),
    {
        self.line_idx = 0;
        self.char_idx = 0;
        let j = scan_from(&self.lines, 0);
        self.current_line = if j < self.lines.len() {
            self.lines[j].clone()
        } else {
            String::new()
        };
        self.current_chars = chars_of(self.current_line.as_str());
        assert(self.current_chars.len() == self.current_chars@.len());
        self.progress = Progress::Active;
    }

    /// The line being typed.
    pub fn line(&self) -> (s: &str)
        ensures
            s@ == self@.current,
    {
        self.current_line.as_str()
    }

    /// Whether there is still text to type.
    pub fn progress(&self) -> (p: Progress)
        ensures
            p == self@.progress,
    {
        self.progress
    }

    /// The position of the cursor in the current line.
    pub fn cursor_position(&self) -> (pos: usize)
        ensures
            pos == self@.char_idx,
    {
        self.char_idx
    }

    /// The character to be typed next, if the cursor is inside the line.
    pub fn expected_char(&self) -> (c: Option<char>)
        requires
            self.wf(),
        ensures
            c == expected_of(self@),
    {
        if self.char_idx < self.current_chars.len() {
            Some(self.current_chars[self.char_idx])
        } else {
            None
        }
    }

    /// Up to `count` non-blank lines that follow the current one.
    pub fn upcoming_lines(&self, count: usize) -> (res: Vec<&str>)
        ensures
            res@.map_values(|s: &str| s@) == upcoming_view(self@, count as int),
    {
        let ghost v = strings_view(self.lines@);
        let mut result: Vec<&str> = Vec::new();
        if self.line_idx >= self.lines.len() {
            assert(nonempty_from(v, self.line_idx + 1) == Seq::<Seq<char>>::empty());
            assert(result@.map_values(|s: &str| s@) == Seq::<Seq<char>>::empty());
            return result;
        }
        let ghost start = self.line_idx + 1;
        let mut idx = self.line_idx + 1;
        while result.len() < count && idx < self.lines.len()
            invariant
                v == strings_view(self.lines@),
                start == self.line_idx + 1,
                start <= idx,
                result.len() <= count,
                nonempty_from(v, start) == result@.map_values(|s: &str| s@) + nonempty_from(
                    v,
                    idx as int,
                ),
            decreases self.lines.len() - idx,
        {
            let line = self.lines[idx].as_str();
            if !line.is_empty() {
                let ghost before = result@.map_values(|s: &str| s@);
                result.push(line);
                assert(result@.map_values(|s: &str| s@) == before.push(v[idx as int]));
                assert(nonempty_from(v, idx as int) == seq![v[idx as int]] + nonempty_from(
                    v,
                    idx + 1,
                ));
                assert(before + (seq![v[idx as int]] + nonempty_from(v, idx + 1)) == before.push(
                    v[idx as int],
                ) + nonempty_from(v, idx + 1));
            }
            idx += 1;
        }
        let ghost got = result@.map_values(|s: &str| s@);
        let ghost after = nonempty_from(v, start);
        if result.len() < count {
            assert(nonempty_from(v, idx as int) == Seq::<Seq<char>>::empty());
            assert(after == got);
        } else {
            assert(after.take(count as int) == got);
        }
        result
    }

    /// The number of the current line among the non-blank lines (counted
    /// from 1), and how many non-blank lines there are.
    pub fn line_progress(&self) -> (res: (usize, usize))
        requires
            self@.line_idx <= self@.lines.len(),
        ensures
            res.1 == count_nonempty(self@.lines),
            res.0 as int == if count_nonempty(self@.lines.take(self@.line_idx)) < usize::MAX {
                count_nonempty(self@.lines.take(self@.line_idx)) + 1
            } else {
                usize::MAX as nat
            },
    {
        let ghost v = strings_view(self.lines@);
        let n = self.lines.len();
        let mut total: usize = 0;
        let mut before: usize = 0;
        for i in 0..n
            invariant
                n == self.lines.len(),
                v == strings_view(self.lines@),
                self.line_idx <= n,
                total <= i,
                total == count_nonempty(v.take(i as int)),
                before == count_nonempty(v.take(if i <= self.line_idx { i as int } else { self.line_idx as int })),
        {
            assert(v.take(i + 1).drop_last() == v.take(i as int));
            if !self.lines[i].as_str().is_empty() {
                total += 1;
                if i < self.line_idx {
                    before += 1;
                }
            }
        }
        assert(v.take(n as int) == v);
        let current = if before < usize::MAX {
            before + 1
        } else {
            before
        };
        (current, total)
    }

    /// One more character has been typed (see [`advance_view`]).
    pub fn advance(&mut self)
        requires
            old(self).wf(),
            old(self)@.char_idx < usize::MAX,
            old(self)@.line_idx < usize::MAX,
        ensures
            final(self).wf(),
            final(self)@ == advance_view(old(self)@),
    {
        self.char_idx += 1;
        if self.char_idx >= self.current_chars.len() {
            let j = scan_from(&self.lines, self.line_idx + 1);
            proof {
                lemma_scan_nonempty(strings_view(self.lines@), self.line_idx + 1);
            }
            self.line_idx = j;
            if j < self.lines.len() {
                self.char_idx = 0;
                self.current_line = self.lines[j].clone();
                self.current_chars = chars_of(self.current_line.as_str());
                assert(self.current_chars.len() == self.current_chars@.len());
                self.progress = Progress::Active;
            } else {
                self.progress = Progress::Finished;
            }
        }
    }
}

} // verus!
