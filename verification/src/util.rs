//! Conversions between LSP positions (line, UTF-16 column) and byte offsets.

use crate::document::Document;
use crate::error::Error;
use crate::lsp::Position;
use crate::text::{
    char_len_utf16, char_len_utf8, chars_of, lemma_prefix_lengths_increase, lemma_take_all, lemma_take_step,
    lemma_utf16_le_utf8, lemma_utf8_len_split, str_byte_len, utf16_len, utf8_len,
};
use vstd::prelude::*;

verus! {

/// Whether `character` is the UTF-16 width of the first `i` characters of `line`.
pub open spec fn is_column_index(line: Seq<char>, character: int, i: int) -> bool {
    0 <= i <= line.len() && utf16_len(line.take(i)) == character
}

/// Whether the UTF-16 column `character` falls on a character boundary of `line`.
pub open spec fn has_column(line: Seq<char>, character: int) -> bool {
    exists|i: int| is_column_index(line, character, i)
}

/// The result of converting UTF-16 column `character` of `line` to a byte offset:
/// `Ok(b)` when some prefix of `line` is `character` code units wide and `b` bytes
/// long, else `ColumnOutOfBounds` with the line's UTF-16 width and byte length.
pub open spec fn column_offset_ok(line: Seq<char>, character: int, b: int) -> bool {
    exists|i: int| #[trigger] is_column_index(line, character, i) && b == utf8_len(line.take(i))
}

/// The error for a column that falls on no character boundary of `line`.
pub open spec fn column_error(line: Seq<char>) -> Error {
    Error::ColumnOutOfBounds { given: utf16_len(line) as usize, max: utf8_len(line) as usize }
}

/// A column index is unique: prefixes of different lengths differ in UTF-16 width.
pub proof fn lemma_column_index_unique(line: Seq<char>, character: int, i: int, j: int)
    requires
        is_column_index(line, character, i),
        is_column_index(line, character, j),
    ensures
        i == j,
{
    if i < j {
        lemma_prefix_lengths_increase(line, i, j);
    } else if j < i {
        lemma_prefix_lengths_increase(line, j, i);
    }
}

/// Byte offset of UTF-16 column `character` within the characters `line`.
fn offset_in(line: &Vec<char>, character: usize) -> (res: Result<usize, Error>)
    requires
        utf8_len(line@) <= usize::MAX,
    ensures
        match res {
            Ok(b) => column_offset_ok(line@, character as int, b as int),
            Err(e) => !has_column(line@, character as int) && e == column_error(line@),
        },
{
    let ghost s = line@;
    let mut offset: usize = 0;
    let mut pos: usize = 0;
    let mut i: usize = 0;
    while i < line.len()
        invariant
            s == line@,
            utf8_len(s) <= usize::MAX,
            i <= s.len(),
            offset == utf16_len(s.take(i as int)),
            pos == utf8_len(s.take(i as int)),
            forall|j: int| 0 <= j < i ==> !#[trigger] is_column_index(s, character as int, j),
        decreases s.len() - i,
    {
        let c = line[i];
        if offset == character {
            assert(is_column_index(s, character as int, i as int));
            return Ok(pos);
        }
        proof {
            lemma_take_step(s, i as int);
            lemma_prefix_lengths_increase(s, i as int + 1, s.len() as int);
            lemma_take_all(s);
            lemma_utf16_le_utf8(s.take(i as int + 1));
        }
        offset = offset + char_len_utf16(c);
        pos = pos + char_len_utf8(c);
        i = i + 1;
    }
    proof {
        lemma_take_all(s);
    }
    if offset == character {
        assert(is_column_index(s, character as int, i as int));
        Ok(pos)
    } else {
        assert forall|j: int| !is_column_index(s, character as int, j) by {
            if is_column_index(s, character as int, j) && j == s.len() {
            }
        }
        Err(Error::ColumnOutOfBounds { given: offset, max: pos })
    }
}

/// Byte offset, within `line_text`, of the UTF-16 column `character`.
pub fn offset(line_text: &str, character: usize) -> (res: Result<usize, Error>)
    ensures
        match res {
            Ok(b) => column_offset_ok(line_text@, character as int, b as int),
            Err(e) => !has_column(line_text@, character as int) && e == column_error(line_text@),
        },
{
    let _ = str_byte_len(line_text);
    let line = chars_of(line_text);
    offset_in(&line, character)
}


/// Character index just after each line break (`'\n'`) of `s`, in order.
pub open spec fn line_break_ends(s: Seq<char>) -> Seq<int>
    decreases s.len(),
{
    if s.len() == 0 {
        Seq::empty()
    } else if s.last() == '\n' {
        line_break_ends(s.drop_last()).push(s.len() as int)
    } else {
        line_break_ends(s.drop_last())
    }
}

/// Character index at which each line of `s` begins.
pub open spec fn line_char_starts(s: Seq<char>) -> Seq<int> {
    seq![0int] + line_break_ends(s)
}

/// Byte offset at which each line of `s` begins.
pub open spec fn line_byte_starts(s: Seq<char>) -> Seq<int> {
    line_char_starts(s).map_values(|ci: int| utf8_len(s.take(ci)) as int)
}

/// Byte offset at which line `k` of `s` begins, where line `k` may be the empty line
/// just past the text.
pub open spec fn line_bound(s: Seq<char>, k: int) -> Option<int> {
    let starts = line_byte_starts(s);
    if 0 <= k < starts.len() {
        Some(starts[k])
    } else if k == starts.len() {
        Some(utf8_len(s) as int)
    } else {
        None
    }
}

/// Character index at which line `k` of `s` ends (just after its line break, if any).
pub open spec fn line_char_end(s: Seq<char>, k: int) -> int {
    let starts = line_char_starts(s);
    if k + 1 < starts.len() {
        starts[k + 1]
    } else {
        s.len() as int
    }
}

/// The characters of line `k` of `s`, its line break included.
pub open spec fn line_chars(s: Seq<char>, k: int) -> Seq<char> {
    s.subrange(line_char_starts(s)[k], line_char_end(s, k))
}

/// The line-break ends of a prefix grow by one entry at each line break.
proof fn lemma_line_break_ends_step(s: Seq<char>, i: int)
    requires
        0 <= i < s.len(),
    ensures
        line_break_ends(s.take(i + 1)) == if s[i] == '\n' {
            line_break_ends(s.take(i)).push(i + 1)
        } else {
            line_break_ends(s.take(i))
        },
{
    assert(s.take(i + 1).drop_last() =~= s.take(i));
}

/// Line-break ends lie in `1..=s.len()` and increase strictly.
proof fn lemma_line_break_ends_bounds(s: Seq<char>)
    ensures
        forall|k: int| 0 <= k < line_break_ends(s).len() ==> 1 <= #[trigger] line_break_ends(s)[k] <= s.len(),
        forall|j: int, k: int| 0 <= j < k < line_break_ends(s).len()
            ==> line_break_ends(s)[j] < line_break_ends(s)[k],
        line_break_ends(s).len() <= s.len(),
        forall|k: int| 0 <= k < line_break_ends(s).len() ==> s[#[trigger] line_break_ends(s)[k] - 1] == '\n',
    decreases s.len(),
{
    if s.len() > 0 {
        lemma_line_break_ends_bounds(s.drop_last());
        assert forall|k: int| 0 <= k < line_break_ends(s.drop_last()).len()
            implies s[#[trigger] line_break_ends(s.drop_last())[k] - 1] == '\n' by {
            assert(s.drop_last()[line_break_ends(s.drop_last())[k] - 1] == '\n');
        }
    }
}

/// Line starts of `s` by character index and by byte offset.
fn line_starts_in(chars: &Vec<char>) -> (res: (Vec<usize>, Vec<usize>))
    requires
        utf8_len(chars@) <= usize::MAX,
    ensures
        res.0@.len() == line_char_starts(chars@).len(),
        res.1@.len() == line_char_starts(chars@).len(),
        forall|k: int| 0 <= k < res.0@.len() ==> res.0@[k] == line_char_starts(chars@)[k],
        forall|k: int| 0 <= k < res.1@.len() ==> res.1@[k] == line_byte_starts(chars@)[k],
{
    let ghost s = chars@;
    let mut char_starts: Vec<usize> = Vec::new();
    let mut byte_starts: Vec<usize> = Vec::new();
    char_starts.push(0);
    byte_starts.push(0);
    let mut pos: usize = 0;
    let mut i: usize = 0;
    proof {
        assert(s.take(0) =~= Seq::<char>::empty());
        assert(line_char_starts(s.take(0)) =~= seq![0int]);
    }
    while i < chars.len()
        invariant
            s == chars@,
            utf8_len(s) <= usize::MAX,
            i <= s.len(),
            pos == utf8_len(s.take(i as int)),
            char_starts@.len() == line_char_starts(s.take(i as int)).len(),
            byte_starts@.len() == char_starts@.len(),
            forall|k: int| 0 <= k < char_starts@.len() ==> char_starts@[k] == line_char_starts(s.take(i as int))[k],
            forall|k: int| 0 <= k < byte_starts@.len() ==> byte_starts@[k] == utf8_len(s.take(char_starts@[k] as int)),
        decreases s.len() - i,
    {
        let c = chars[i];
        proof {
            lemma_take_step(s, i as int);
            lemma_prefix_lengths_increase(s, i as int + 1, s.len() as int);
            lemma_take_all(s);
            lemma_line_break_ends_step(s, i as int);
        }
        pos = pos + char_len_utf8(c);
        i = i + 1;
        if c == '\n' {
            char_starts.push(i);
            byte_starts.push(pos);
        }
        assert(line_char_starts(s.take(i as int)) =~= seq![0int] + line_break_ends(s.take(i as int)));
    }
    proof {
        lemma_take_all(s);
    }
    (char_starts, byte_starts)
}

/// Byte offset at which each line of `source` begins: 0, then one past each line break.
pub fn starts(source: &str) -> (res: Vec<usize>)
    ensures
        res@.len() == line_byte_starts(source@).len(),
        forall|k: int| 0 <= k < res@.len() ==> res@[k] == line_byte_starts(source@)[k],
{
    let _ = str_byte_len(source);
    let chars = chars_of(source);
    let (_, byte_starts) = line_starts_in(&chars);
    byte_starts
}

/// Byte offset at which line `line_index` begins, given the line starts of `document`.
pub fn start(document: &Document, line_starts: &[usize], line_index: usize) -> (res: Result<usize, Error>)
    ensures
        line_index < line_starts@.len() ==> res == Ok::<usize, Error>(line_starts@[line_index as int]),
        line_index == line_starts@.len() ==> res == Ok::<usize, Error>(utf8_len(document.text()) as usize),
        line_index > line_starts@.len() ==> res == Err::<usize, Error>(
            Error::LineOutOfBounds { given: line_index, max: line_starts@.len() as usize },
        ),
{
    if line_index < line_starts.len() {
        Ok(line_starts[line_index])
    } else if line_index == line_starts.len() {
        Ok(document.len_bytes())
    } else {
        Err(Error::LineOutOfBounds { given: line_index, max: line_starts.len() })
    }
}


/// The byte span of line `line_index` of `document`: from its start to the start of
/// the next line, or to the end of the text for the last line.
pub fn span(document: &Document, line_index: usize) -> (res: Result<(usize, usize), Error>)
    requires
        line_index < usize::MAX,
    ensures
        ({
            let s = document.text();
            let n = line_byte_starts(s).len();
            &&& line_index < n ==> res == Ok::<(usize, usize), Error>(
                (
                    line_bound(s, line_index as int)->0 as usize,
                    line_bound(s, line_index + 1)->0 as usize,
                ),
            )
            &&& line_index == n ==> res == Err::<(usize, usize), Error>(
                Error::LineOutOfBounds { given: (line_index + 1) as usize, max: n as usize },
            )
            &&& line_index > n ==> res == Err::<(usize, usize), Error>(
                Error::LineOutOfBounds { given: line_index, max: n as usize },
            )
        }),
{
    let source = document.to_text();
    let line_starts = starts(source.as_str());
    proof {
        assert(line_starts@.len() == line_byte_starts(document.text()).len());
    }
    let this_start = start(document, line_starts.as_slice(), line_index)?;
    let next_start = start(document, line_starts.as_slice(), line_index + 1)?;
    Ok((this_start, next_start))
}

/// The byte range of line `line_index` of `document`, if the line exists.
pub fn range(document: &Document, line_index: usize) -> (res: Option<core::ops::Range<usize>>)
    requires
        line_index < usize::MAX,
    ensures
        ({
            let s = document.text();
            match res {
                Some(r) => line_index < line_byte_starts(s).len() && r.start == line_bound(
                    s,
                    line_index as int,
                )->0 as usize && r.end == line_bound(s, line_index + 1)->0 as usize,
                None => line_index >= line_byte_starts(s).len(),
            }
        }),
{
    match span(document, line_index) {
        Ok((start, end)) => Some(start..end),
        Err(_) => None,
    }
}


/// The characters of `chars` whose encodings lie in the byte range `start..end`, where
/// `start` and `end` are the encoded lengths of the prefixes of length `lo` and `hi`.
pub(crate) fn chars_in_byte_range(chars: &Vec<char>, start: usize, end: usize, Ghost(lo): Ghost<int>, Ghost(hi): Ghost<int>) -> (res: Vec<char>)
    requires
        0 <= lo <= hi <= chars@.len(),
        utf8_len(chars@) <= usize::MAX,
        start == utf8_len(chars@.take(lo)),
        end == utf8_len(chars@.take(hi)),
    ensures
        res@ == chars@.subrange(lo, hi),
{
    let ghost s = chars@;
    let n = chars.len();
    let mut pos: usize = 0;
    let mut i: usize = 0;
    proof {
        assert(s.take(0) =~= Seq::<char>::empty());
    }
    while pos < start
        invariant
            s == chars@,
            n == s.len(),
            0 <= lo <= hi <= s.len(),
            utf8_len(s) <= usize::MAX,
            start == utf8_len(s.take(lo)),
            i <= lo,
            pos == utf8_len(s.take(i as int)),
        decreases lo - i,
    {
        proof {
            if i as int == lo {
                assert(false);
            }
            lemma_take_step(s, i as int);
            lemma_prefix_lengths_increase(s, i as int + 1, s.len() as int);
            lemma_take_all(s);
        }
        pos = pos + char_len_utf8(chars[i]);
        i = i + 1;
    }
    proof {
        if (i as int) < lo {
            lemma_prefix_lengths_increase(s, i as int, lo);
        }
    }
    let mut res: Vec<char> = Vec::new();
    while pos < end
        invariant
            s == chars@,
            n == s.len(),
            0 <= lo <= hi <= s.len(),
            utf8_len(s) <= usize::MAX,
            end == utf8_len(s.take(hi)),
            lo <= i <= hi,
            pos == utf8_len(s.take(i as int)),
            res@ == s.subrange(lo, i as int),
        decreases hi - i,
    {
        proof {
            if i as int == hi {
                assert(false);
            }
            lemma_take_step(s, i as int);
            lemma_prefix_lengths_increase(s, i as int + 1, s.len() as int);
            lemma_take_all(s);
        }
        res.push(chars[i]);
        pos = pos + char_len_utf8(chars[i]);
        i = i + 1;
        assert(res@ =~= s.subrange(lo, i as int));
    }
    proof {
        if (i as int) < hi {
            lemma_prefix_lengths_increase(s, i as int, hi);
        }
    }
    res
}

/// Line `k` begins and ends where the line bounds say, within the text.
proof fn lemma_line_chars_bounds(s: Seq<char>, k: int)
    requires
        0 <= k < line_byte_starts(s).len(),
    ensures
        0 <= line_char_starts(s)[k] <= line_char_end(s, k) <= s.len(),
        line_bound(s, k) == Some(utf8_len(s.take(line_char_starts(s)[k])) as int),
        line_bound(s, k + 1) == Some(utf8_len(s.take(line_char_end(s, k))) as int),
        utf8_len(s.take(line_char_starts(s)[k])) <= utf8_len(s.take(line_char_end(s, k))) <= utf8_len(s),
{
    lemma_line_break_ends_bounds(s);
    let cs = line_char_starts(s);
    assert(cs[0] == 0);
    assert forall|j: int| 1 <= j < cs.len() implies cs[j] == line_break_ends(s)[j - 1] by {}
    lemma_take_all(s);
    lemma_prefix_lengths_increase(s, line_char_end(s, k), s.len() as int);
    if k + 1 < cs.len() {
        assert(cs[k + 1] == line_break_ends(s)[k]);
        if k > 0 {
            assert(cs[k] == line_break_ends(s)[k - 1]);
        }
    } else {
        if k > 0 {
            assert(cs[k] == line_break_ends(s)[k - 1]);
        }
    }
    lemma_prefix_lengths_increase(s, cs[k], line_char_end(s, k));
}

/// Byte offset in `document` of an LSP position (zero-based line, UTF-16 column):
/// the start of the line plus the offset of the column within the line.
pub fn byte_index(document: &Document, position: &Position) -> (res: Result<usize, Error>)
    requires
        (position.line as int) < line_byte_starts(document.text()).len(),
        (position.line as int) < usize::MAX,
    ensures
        ({
            let s = document.text();
            let k = position.line as int;
            let line = line_chars(s, k);
            let line_start = line_byte_starts(s)[k];
            match res {
                Ok(b) => column_offset_ok(line, position.character as int, b - line_start),
                Err(e) => !has_column(line, position.character as int) && e == column_error(line),
            }
        }),
{
    let ghost s = document.text();
    let ghost k = position.line as int;
    let _ = document.len_bytes();
    let source = document.to_text();
    let line_index = position.line as usize;
    proof {
        lemma_line_chars_bounds(s, k);
    }
    let line_span = range(document, line_index).unwrap();
    let chars = chars_of(source.as_str());
    let line_text = chars_in_byte_range(
        &chars,
        line_span.start,
        line_span.end,
        Ghost(line_char_starts(s)[k]),
        Ghost(line_char_end(s, k)),
    );
    proof {
        lemma_utf8_len_split(s, line_char_starts(s)[k], line_char_end(s, k));
    }
    let character = position.character as usize;
    let byte_offset = offset_in(&line_text, character)?;
    proof {
        let i = choose|i: int| #[trigger] is_column_index(line_text@, character as int, i) && byte_offset == utf8_len(line_text@.take(i));
        lemma_prefix_lengths_increase(line_text@, i, line_text@.len() as int);
        lemma_take_all(line_text@);
    }
    Ok(line_span.start + byte_offset)
}

} // verus!
