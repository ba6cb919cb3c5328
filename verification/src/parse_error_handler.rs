//! Reporting errors with the lines of text where they happen.

use vstd::prelude::*;
use crate::range::Range;
use crate::parse_error::{ParseError, ParseErrorV, error_text, err_view};
use crate::read_token::{is_whitespace, char_is_whitespace};
use crate::text::{decimal, push_decimal, push_str, chars_of, string_of};

verus! {

/// The index of the first new line character in `s` at or after `i`,
/// or the length of `s` if there is none.
pub open spec fn next_newline(s: Seq<char>, i: int) -> int
    decreases s.len() - i,
{
    if i < 0 || i >= s.len() {
        s.len() as int
    } else if s[i] == '\n' {
        i
    } else {
        next_newline(s, i + 1)
    }
}

/// The next new line is at or after the place where the search starts,
/// with no new line before it.
pub proof fn lemma_next_newline(s: Seq<char>, i: int)
    requires
        0 <= i <= s.len(),
    ensures
        i <= next_newline(s, i) <= s.len(),
        next_newline(s, i) < s.len() ==> s[next_newline(s, i)] == '\n',
        forall|j: int| i <= j < next_newline(s, i) ==> s[j] != '\n',
    decreases s.len() - i,
{
    if i < s.len() && s[i] != '\n' {
        lemma_next_newline(s, i + 1);
    }
}

/// The lines of `s` from the character offset `start` on, split at new
/// line characters, each with its range of characters.
pub open spec fn lines_of(s: Seq<char>, start: int) -> Seq<(Range, Seq<char>)>
    decreases s.len() - start,
{
    let e = next_newline(s, start);
    let entry = (Range { offset: start as usize, length: (e - start) as usize, data: () }, s.subrange(start, e));
    proof {
        if 0 <= start <= s.len() {
            lemma_next_newline(s, start);
        }
    }
    if start < 0 || start > s.len() || e >= s.len() {
        seq![entry]
    } else {
        seq![entry] + lines_of(s, e + 1)
    }
}

/// Where two ranges meet, their ends included.
pub open spec fn ends_intersect_spec(a: Range, b: Range) -> Option<Range> {
    if b.end() < a.offset || b.offset > a.end() {
        None
    } else {
        let offset = if a.offset >= b.offset { a.offset } else { b.offset };
        let end = if a.end() <= b.end() { a.end() } else { b.end() };
        Some(Range { offset, length: (end - offset) as usize, data: () })
    }
}

impl Range {
    /// Intersects a range with another, where ends are included.
    pub fn ends_intersect(&self, other: &Range) -> (r: Option<Range>)
        requires
            self.end() <= usize::MAX,
            other.end() <= usize::MAX,
        ensures
            r == ends_intersect_spec(*self, *other),
    {
        if other.next_offset() < self.offset || other.offset > self.next_offset() {
            None
        } else {
            let offset = if self.offset >= other.offset { self.offset } else { other.offset };
            let end = if self.next_offset() <= other.next_offset() { self.next_offset() } else { other.next_offset() };
            Some(Range::new(offset, end - offset))
        }
    }
}

/// Appends the characters from `a` up to `b`.
fn push_chars(out: &mut Vec<char>, chars: &Vec<char>, a: usize, b: usize)
    requires
        a <= b <= chars@.len(),
    ensures
        final(out)@ == old(out)@ + chars@.subrange(a as int, b as int),
{
    let ghost start = out@;
    let mut m: usize = a;
    while m < b
        invariant
            a <= m <= b <= chars@.len(),
            out@ == start + chars@.subrange(a as int, m as int),
        decreases b - m,
    {
        out.push(chars[m]);
        m = m + 1;
        proof {
            assert(out@ =~= start + chars@.subrange(a as int, m as int));
        }
    }
}

/// Appends the markers under the characters from `a` up to `b`.
fn push_markers(out: &mut Vec<char>, chars: &Vec<char>, a: usize, b: usize)
    requires
        a <= b <= chars@.len(),
    ensures
        final(out)@ == old(out)@ + markers(chars@.subrange(a as int, b as int)),
{
    let ghost start = out@;
    let mut m: usize = a;
    while m < b
        invariant
            a <= m <= b <= chars@.len(),
            out@ == start + markers(chars@.subrange(a as int, m as int)),
        decreases b - m,
    {
        if chars[m] == '\t' {
            out.push('\t');
        } else {
            out.push(' ');
        }
        m = m + 1;
        proof {
            assert(markers(chars@.subrange(a as int, m as int)) =~= markers(chars@.subrange(a as int, m - 1)).push(marker(chars@[m - 1])));
            assert(out@ =~= start + markers(chars@.subrange(a as int, m as int)));
        }
    }
}

/// The report of the line `k` if a range meets it.
pub open spec fn line_part(range: Range, k: int, line: (Range, Seq<char>)) -> Seq<char> {
    match ends_intersect_spec(range, line.0) {
        Some(intersect) => if intersect.offset >= line.0.offset { line_report(k, line, intersect) } else { Seq::empty() },
        None => Seq::empty(),
    }
}

/// Appends the report of the line `k`, with range `r` and text `text`,
/// if a range meets it.
#[verifier::rlimit(40)]
fn push_line_part(out: &mut Vec<char>, range: Range, k: usize, r: Range, text: &str)
    requires
        range.end() <= usize::MAX,
        r.end() < usize::MAX,
        r.length == text@.len(),
        k < usize::MAX,
    ensures
        final(out)@ == old(out)@ + line_part(range, k as int, (r, text@)),
{
    match range.ends_intersect(&r) {
        Some(intersect) => {
            if intersect.offset >= r.offset {
                let chars = chars_of(text);
                let j = intersect.offset - r.offset;
                let s = if j > 75 { j - 50 } else { 0 };
                let e = if r.length - s >= 100 { s + 100 } else { r.length };
                let ghost start = out@;
                let ghost p = position(k as int, j as int);
                let ghost shown = chars@.subrange(s as int, e as int);
                let ghost before = chars@.subrange(s as int, j as int);
                push_position(out, k, j);
                push_chars(out, &chars, s, e);
                push_str(out, "\n");
                push_position(out, k, j);
                push_markers(out, &chars, s, j);
                push_str(out, "^\n");
                proof {
                    assert(out@ =~= start + (p + shown + "\n"@ + p + markers(before) + "^\n"@));
                    assert(text@.skip(s as int).take(e - s) =~= shown);
                    assert(text@.skip(s as int).take(j - s) =~= before);
                }
            }
        },
        None => {},
    }
}

/// Whether a line holds whitespace only.
pub open spec fn all_whitespace(s: Seq<char>) -> bool {
    forall|i: int| 0 <= i < s.len() ==> char_is_whitespace(#[trigger] s[i])
}

/// The last line before line `k` that holds more than whitespace,
/// or the first line if there is none.
pub open spec fn last_content_line(lines: Seq<(Range, Seq<char>)>, k: int) -> int
    decreases k,
{
    if k <= 0 {
        0
    } else if !all_whitespace(lines[k - 1].1) {
        k - 1
    } else if k == 1 {
        0
    } else {
        last_content_line(lines, k - 1)
    }
}

/// The first line from the `k`-th on that the range meets, with the
/// index of the line and where they meet.
pub open spec fn first_line_from(lines: Seq<(Range, Seq<char>)>, range: Range, k: int) -> Option<(int, Range)>
    decreases lines.len() - k,
{
    if k < 0 || k >= lines.len() {
        None
    } else {
        match ends_intersect_spec(range, lines[k].0) {
            Some(intersect) => Some((k, intersect)),
            None => first_line_from(lines, range, k + 1),
        }
    }
}

/// The character that marks a column under a character of a line:
/// tabs stay, others become spaces.
pub open spec fn marker(c: char) -> char {
    if c == '\t' { '\t' } else { ' ' }
}

/// The markers under the characters of a line.
pub open spec fn markers(s: Seq<char>) -> Seq<char> {
    s.map_values(|c: char| marker(c))
}

/// The prefix `line,column: ` of a report line.
pub open spec fn position(i: int, j: int) -> Seq<char> {
    decimal((i + 1) as nat) + ","@ + decimal((j + 1) as nat) + ": "@
}

/// The two report lines that show where a range meets the line `i`:
/// the text around the place, and a caret under it.
pub open spec fn line_report(i: int, line: (Range, Seq<char>), intersect: Range) -> Seq<char> {
    let r = line.0;
    let j = intersect.offset - r.offset;
    let s = if j > 75 { j - 50 } else { 0 };
    let e = if s + 100 <= r.length { s + 100 } else { r.length as int };
    let shown = line.1.skip(s).take(e - s);
    let before = line.1.skip(s).take(j - s);
    position(i, j) + shown + "\n"@ + position(i, j) + markers(before) + "^\n"@
}

/// The report of the lines from the `k`-th on that a range meets.
pub open spec fn report_from(lines: Seq<(Range, Seq<char>)>, range: Range, k: int) -> Seq<char>
    decreases lines.len() - k,
{
    if k < 0 || k >= lines.len() {
        Seq::empty()
    } else {
        line_part(range, k, lines[k]) + report_from(lines, range, k + 1)
    }
}

/// The lines from `a` up to `b`, each after its number.
pub open spec fn numbered_lines(lines: Seq<(Range, Seq<char>)>, a: int, b: int) -> Seq<char>
    decreases b - a,
{
    if a >= b || a < 0 || b > lines.len() {
        Seq::empty()
    } else {
        decimal((a + 1) as nat) + ": "@ + lines[a].1 + "\n"@ + numbered_lines(lines, a + 1, b)
    }
}

/// The lines shown before the report of an expected tag: those from the
/// last line with content before the error's line up to that line.
pub open spec fn context(lines: Seq<(Range, Seq<char>)>, range: Range) -> Seq<char> {
    match first_line_from(lines, range, 0) {
        Some((k, _)) => numbered_lines(lines, last_content_line(lines, k), k),
        None => Seq::empty(),
    }
}

/// The full report of an error.
pub open spec fn error_report(lines: Seq<(Range, Seq<char>)>, e: Range<ParseErrorV>) -> Seq<char> {
    let range = Range { offset: e.offset, length: e.length, data: () };
    let ctx = match e.data {
        ParseErrorV::ExpectedTag(_, _) => context(lines, range),
        _ => Seq::empty(),
    };
    "Error "@ + error_text(e.data) + "\n"@ + ctx + report_from(lines, range, 0)
}

/// Reports error.
pub struct ParseErrorHandler<'a> {
    lines: Vec<(Range, &'a str)>,
}

impl<'a> View for ParseErrorHandler<'a> {
    type V = Seq<(Range, Seq<char>)>;

    closed spec fn view(&self) -> Seq<(Range, Seq<char>)> {
        self.lines@.map_values(|l: (Range, &'a str)| (l.0, l.1@))
    }
}

impl<'a> ParseErrorHandler<'a> {
    /// Creates a new error handler.
    pub fn new(text: &'a str) -> (h: ParseErrorHandler<'a>)
        requires
            text@.len() < usize::MAX,
        ensures
            h@ == lines_of(text@, 0),
            h.wf(),
    {
        proof {
            lemma_lines_of_wf(text@, 0);
        }
        let chars = chars_of(text);
        let n = chars.len();
        let mut lines: Vec<(Range, &'a str)> = Vec::new();
        let mut start: usize = 0;
        let mut i: usize = 0;
        loop
            invariant_except_break
                lines@.map_values(|l: (Range, &'a str)| (l.0, l.1@)) + lines_of(text@, start as int) == lines_of(text@, 0),
            invariant
                chars@ == text@,
                n == text@.len(),
                n < usize::MAX,
                start <= i <= n,
                next_newline(text@, start as int) == next_newline(text@, i as int),
            ensures
                lines@.map_values(|l: (Range, &'a str)| (l.0, l.1@)) == lines_of(text@, 0),
            decreases n - i,
        {
            if i == n || chars[i] == '\n' {
                let line = text.substring_char(start, i);
                let ghost before = lines@;
                lines.push((Range::new(start, i - start), line));
                proof {
                    let f = |l: (Range, &'a str)| (l.0, l.1@);
                    assert(lines@.map_values(f) =~= before.map_values(f).push((Range { offset: start, length: (i - start) as usize, data: () }, text@.subrange(start as int, i as int))));
                }
                if i == n {
                    proof {
                        let f = |l: (Range, &'a str)| (l.0, l.1@);
                        assert(lines_of(text@, start as int) =~= seq![(Range { offset: start, length: (i - start) as usize, data: () }, text@.subrange(start as int, i as int))]);
                        assert(lines@.map_values(f) =~= lines_of(text@, 0));
                    }
                    break;
                }
                proof {
                    let f = |l: (Range, &'a str)| (l.0, l.1@);
                    let entry = (Range { offset: start, length: (i - start) as usize, data: () }, text@.subrange(start as int, i as int));
                    assert(lines_of(text@, start as int) == seq![entry] + lines_of(text@, i + 1));
                    assert(lines@.map_values(f) + lines_of(text@, i + 1) =~= before.map_values(f) + lines_of(text@, start as int));
                }
                start = i + 1;
                i = i + 1;
            } else {
                i = i + 1;
            }
        }
        ParseErrorHandler { lines }
    }
}


/// Whether each line's range is as long as the line and ends within `usize`.
pub open spec fn lines_wf(lines: Seq<(Range, Seq<char>)>) -> bool {
    forall|k: int| 0 <= k < lines.len() ==> (#[trigger] lines[k]).0.length == lines[k].1.len() && lines[k].0.end() < usize::MAX
}

/// The lines of a text have ranges as long as the lines, within the text.
pub proof fn lemma_lines_of_wf(s: Seq<char>, start: int)
    requires
        0 <= start <= s.len(),
        s.len() < usize::MAX,
    ensures
        lines_wf(lines_of(s, start)),
    decreases s.len() - start,
{
    lemma_next_newline(s, start);
    let e = next_newline(s, start);
    if e < s.len() {
        lemma_lines_of_wf(s, e + 1);
        let entry = (Range { offset: start as usize, length: (e - start) as usize, data: () }, s.subrange(start, e));
        assert(lines_of(s, start) == seq![entry] + lines_of(s, e + 1));
        assert forall|k: int| 0 <= k < lines_of(s, start).len() implies (#[trigger] lines_of(s, start)[k]).0.length == lines_of(s, start)[k].1.len() && lines_of(s, start)[k].0.end() < usize::MAX by {
            if k > 0 {
                assert(lines_of(s, start)[k] == lines_of(s, e + 1)[k - 1]);
            }
        }
    }
}

/// Appends the position prefix of a report line.
fn push_position(out: &mut Vec<char>, i: usize, j: usize)
    requires
        i < usize::MAX,
        j < usize::MAX,
    ensures
        final(out)@ == old(out)@ + position(i as int, j as int),
{
    push_decimal(out, i + 1);
    push_str(out, ",");
    push_decimal(out, j + 1);
    push_str(out, ": ");
    proof {
        assert(final(out)@ =~= old(out)@ + position(i as int, j as int));
    }
}

/// Whether a line holds whitespace only.
fn is_all_whitespace(text: &str) -> (r: bool)
    ensures
        r == all_whitespace(text@),
{
    let chars = chars_of(text);
    let mut i: usize = 0;
    while i < chars.len()
        invariant
            chars@ == text@,
            i <= chars@.len(),
            forall|k: int| 0 <= k < i ==> char_is_whitespace(#[trigger] chars@[k]),
        decreases chars@.len() - i,
    {
        if !is_whitespace(chars[i]) {
            return false;
        }
        i = i + 1;
    }
    true
}

impl<'a> ParseErrorHandler<'a> {
    /// Whether each line's range is as long as the line.
    pub open spec fn wf(&self) -> bool {
        lines_wf(self@)
    }

    /// Appends the report of the line `k` that a range meets.
    fn push_line_report(&self, out: &mut Vec<char>, range: Range, k: usize)
        requires
            self.wf(),
            range.end() <= usize::MAX,
            k < self@.len(),
        ensures
            final(out)@ == old(out)@ + line_part(range, k as int, self@[k as int]),
    {
        proof {
            assert(self@.len() == self.lines@.len());
        }
        let nlines = self.lines.len();
        let (r, text) = self.lines[k];
        proof {
            assert(self@[k as int] == (r, text@));
        }
        push_line_part(out, range, k, r, text);
    }

    /// Appends the report of the lines that a range meets.
    fn push_report(&self, out: &mut Vec<char>, range: Range)
        requires
            self.wf(),
            range.end() <= usize::MAX,
        ensures
            final(out)@ == old(out)@ + report_from(self@, range, 0),
    {
        let ghost start = out@;
        let mut k: usize = 0;
        while k < self.lines.len()
            invariant
                self.wf(),
                range.end() <= usize::MAX,
                k <= self@.len(),
                self@.len() == self.lines@.len(),
                start + report_from(self@, range, 0) == out@ + report_from(self@, range, k as int),
            decreases self.lines@.len() - k,
        {
            let ghost before = out@;
            self.push_line_report(out, range, k);
            proof {
                assert(report_from(self@, range, k as int) == line_part(range, k as int, self@[k as int]) + report_from(self@, range, k + 1));
            }
            k = k + 1;
            proof {
                assert(before + report_from(self@, range, k - 1) =~= out@ + report_from(self@, range, k as int));
            }
        }
        proof {
            assert(out@ =~= out@ + report_from(self@, range, k as int));
        }
    }

    /// Writes message.
    pub fn write_msg(&self, range: Range, msg: &str) -> (s: String)
        requires
            self.wf(),
            range.end() <= usize::MAX,
        ensures
            s@ == msg@ + "\n"@ + report_from(self@, range, 0),
    {
        let mut out: Vec<char> = Vec::new();
        push_str(&mut out, msg);
        push_str(&mut out, "\n");
        self.push_report(&mut out, range);
        proof {
            assert(out@ =~= msg@ + "\n"@ + report_from(self@, range, 0));
        }
        string_of(&out)
    }

    /// Gets the first line that a range meets.
    fn first_line(&self, range: Range) -> (r: Option<(usize, Range)>)
        requires
            self.wf(),
            range.end() <= usize::MAX,
        ensures
            match r {
                Some((k, intersect)) => first_line_from(self@, range, 0) == Some((k as int, intersect)),
                None => first_line_from(self@, range, 0) is None,
            },
            r matches Some((k, _)) ==> k < self@.len(),
    {
        let mut k: usize = 0;
        while k < self.lines.len()
            invariant
                self.wf(),
                range.end() <= usize::MAX,
                k <= self@.len(),
                self@.len() == self.lines@.len(),
                first_line_from(self@, range, 0) == first_line_from(self@, range, k as int),
            decreases self.lines@.len() - k,
        {
            let (r, _) = self.lines[k];
            proof {
                assert(self@[k as int].0 == r);
            }
            if let Some(intersect) = range.ends_intersect(&r) {
                return Some((k, intersect));
            }
            k = k + 1;
        }
        None
    }

    /// Appends the lines shown before the report of an expected tag.
    fn push_context(&self, out: &mut Vec<char>, range: Range)
        requires
            self.wf(),
            range.end() <= usize::MAX,
        ensures
            final(out)@ == old(out)@ + context(self@, range),
    {
        let ghost start = out@;
        if let Some((first, _)) = self.first_line(range) {
            let mut prev_line: usize = 0;
            let mut i: usize = first;
            while i > 0
                invariant
                    i <= first < self@.len(),
                    self@.len() == self.lines@.len(),
                    i == 0 ==> prev_line == 0,
                    prev_line <= first,
                    last_content_line(self@, first as int) == last_content_line(self@, i as int),
                ensures
                    prev_line == last_content_line(self@, first as int),
                decreases i,
            {
                let (_, text) = self.lines[i - 1];
                proof {
                    assert(self@[i - 1].1 == text@);
                }
                prev_line = i - 1;
                if !is_all_whitespace(text) {
                    break;
                }
                i = i - 1;
            }
            let mut a: usize = prev_line;
            while a < first
                invariant
                    prev_line <= a <= first < self@.len(),
                    self@.len() == self.lines@.len(),
                    start + numbered_lines(self@, prev_line as int, first as int) == out@ + numbered_lines(self@, a as int, first as int),
                decreases first - a,
            {
                let (_, text) = self.lines[a];
                proof {
                    assert(self@[a as int].1 == text@);
                }
                let ghost before = out@;
                push_decimal(out, a + 1);
                push_str(out, ": ");
                push_str(out, text);
                push_str(out, "\n");
                a = a + 1;
                proof {
                    assert(before + numbered_lines(self@, a - 1, first as int) =~= out@ + numbered_lines(self@, a as int, first as int));
                }
            }
            proof {
                assert(out@ =~= out@ + numbered_lines(self@, a as int, first as int));
            }
        }
    }

    /// Writes error message.
    pub fn write(&self, range_err: Range<ParseError>) -> (s: String)
        requires
            self.wf(),
            range_err.offset + range_err.length <= usize::MAX,
        ensures
            s@ == error_report(self@, err_view(range_err)),
    {
        let range = Range::new(range_err.offset, range_err.length);
        let mut out: Vec<char> = Vec::new();
        push_str(&mut out, "Error ");
        range_err.data.push_text(&mut out);
        push_str(&mut out, "\n");
        if let ParseError::ExpectedTag(_, _) = &range_err.data {
            self.push_context(&mut out, range);
        }
        self.push_report(&mut out, range);
        proof {
            assert(out@ =~= error_report(self@, err_view(range_err)));
        }
        string_of(&out)
    }
}


/// When an error happens, gives its report, which the caller writes to
/// standard error before it panics; else gives the value.
pub fn stderr_unwrap<T>(source: &str, res: Result<T, Range<ParseError>>) -> (r: Result<T, String>)
    requires
        source@.len() < usize::MAX,
        res matches Err(e) ==> e.offset + e.length <= usize::MAX,
    ensures
        match res {
            Ok(v) => r == Ok::<T, String>(v),
            Err(e) => r matches Err(m) && m@ == error_report(lines_of(source@, 0), err_view(e)),
        },
{
    match res {
        Err(range_err) => Err(ParseErrorHandler::new(source).write(range_err)),
        Ok(val) => Ok(val),
    }
}


/// The texts of lines joined with new lines between them.
pub open spec fn joined(lines: Seq<(Range, Seq<char>)>) -> Seq<char>
    decreases lines.len(),
{
    if lines.len() == 0 {
        Seq::empty()
    } else if lines.len() == 1 {
        lines[0].1
    } else {
        lines[0].1 + seq!['\n'] + joined(lines.drop_first())
    }
}

/// Splitting a text into lines loses nothing: the lines joined with new
/// lines give back the text, and no line holds a new line.
pub proof fn lemma_lines_join(s: Seq<char>, start: int)
    requires
        0 <= start <= s.len(),
    ensures
        joined(lines_of(s, start)) == s.subrange(start, s.len() as int),
        forall|k: int, j: int| 0 <= k < lines_of(s, start).len() && 0 <= j < lines_of(s, start)[k].1.len() ==> lines_of(s, start)[k].1[j] != '\n',
    decreases s.len() - start,
{
    lemma_next_newline(s, start);
    let e = next_newline(s, start);
    let entry = (Range { offset: start as usize, length: (e - start) as usize, data: () }, s.subrange(start, e));
    if e >= s.len() {
        assert(lines_of(s, start) == seq![entry]);
    } else {
        lemma_lines_join(s, e + 1);
        let rest = lines_of(s, e + 1);
        assert(lines_of(s, start) == seq![entry] + rest);
        assert((seq![entry] + rest).drop_first() =~= rest);
        assert(rest.len() >= 1);
        assert(joined(seq![entry] + rest) == s.subrange(start, e) + seq!['\n'] + joined(rest));
        assert(s.subrange(start, e) + seq!['\n'] + s.subrange(e + 1, s.len() as int) =~= s.subrange(start, s.len() as int));
        assert forall|k: int, j: int| 0 <= k < lines_of(s, start).len() && 0 <= j < lines_of(s, start)[k].1.len() implies lines_of(s, start)[k].1[j] != '\n' by {
            if k > 0 {
                assert(lines_of(s, start)[k] == rest[k - 1]);
            }
        }
    }
}

} // verus!
