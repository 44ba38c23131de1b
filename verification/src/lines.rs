//! Framing of a line-delimited log: the text is cut at line feeds, and a line
//! made of white space alone carries no record.

use vstd::prelude::*;

verus! {

/// The Unicode `White_Space` property.
pub open spec fn white_space(c: char) -> bool {
    let n = c as u32;
    ||| 0x09 <= n <= 0x0D
    ||| n == 0x20
    ||| n == 0x85
    ||| n == 0xA0
    ||| n == 0x1680
    ||| 0x2000 <= n <= 0x200A
    ||| n == 0x2028
    ||| n == 0x2029
    ||| n == 0x202F
    ||| n == 0x205F
    ||| n == 0x3000
}

/// A line is blank when every character of it is white space.
pub open spec fn blank(line: Seq<char>) -> bool {
    forall|i: int| 0 <= i < line.len() ==> white_space(#[trigger] line[i])
}

/// The lines of `text`: the pieces between its line feeds, in order. A text
/// with `n` line feeds has `n + 1` lines, the last of which may be empty.
pub open spec fn lines_of(text: Seq<char>) -> Seq<Seq<char>>
    decreases text.len(),
{
    if text.len() == 0 {
        seq![Seq::<char>::empty()]
    } else {
        let before = lines_of(text.drop_last());
        if text.last() == '\n' {
            before.push(Seq::<char>::empty())
        } else {
            before.drop_last().push(before.last().push(text.last()))
        }
    }
}

/// Every text has at least one line, and never more lines than characters
/// plus one.
pub proof fn lemma_line_count(text: Seq<char>)
    ensures
        1 <= lines_of(text).len() <= text.len() + 1,
    decreases text.len(),
{
    if text.len() > 0 {
        lemma_line_count(text.drop_last());
    }
}

/// No line holds a line feed.
pub proof fn lemma_lines_hold_no_line_feed(text: Seq<char>, i: int, j: int)
    requires
        0 <= i < lines_of(text).len(),
        0 <= j < lines_of(text)[i].len(),
    ensures
        lines_of(text)[i][j] != '\n',
    decreases text.len(),
{
    if text.len() > 0 {
        let before = lines_of(text.drop_last());
        lemma_line_count(text.drop_last());
        if text.last() == '\n' {
            lemma_lines_hold_no_line_feed(text.drop_last(), i, j);
        } else if i < before.len() - 1 {
            lemma_lines_hold_no_line_feed(text.drop_last(), i, j);
        } else if j < before.last().len() {
            lemma_lines_hold_no_line_feed(text.drop_last(), i, j);
        }
    }
}

/// The lines put together again, with a line feed between neighbours.
pub open spec fn joined(lines: Seq<Seq<char>>) -> Seq<char>
    decreases lines.len(),
{
    if lines.len() == 0 {
        Seq::empty()
    } else if lines.len() == 1 {
        lines[0]
    } else {
        joined(lines.drop_last()).push('\n') + lines.last()
    }
}

/// Cutting a text into lines loses nothing: joined again, the lines are the
/// text.
pub proof fn lemma_lines_join(text: Seq<char>)
    ensures
        joined(lines_of(text)) == text,
    decreases text.len(),
{
    if text.len() > 0 {
        let front = text.drop_last();
        let before = lines_of(front);
        lemma_line_count(front);
        lemma_lines_join(front);
        assert(text == front.push(text.last()));
        if text.last() == '\n' {
            assert(before.push(Seq::<char>::empty()).drop_last() == before);
        } else if before.len() > 1 {
            let grown = before.last().push(text.last());
            assert(before.drop_last().push(grown).drop_last() == before.drop_last());
        }
    }
}

/// Whether a character is white space.
pub fn is_white_space(c: char) -> (r: bool)
    ensures
        r == white_space(c),
{
    let n: u32 = c as u32;
    (0x09 <= n && n <= 0x0D) || n == 0x20 || n == 0x85 || n == 0xA0 || n == 0x1680 || (0x2000 <= n
        && n <= 0x200A) || n == 0x2028 || n == 0x2029 || n == 0x202F || n == 0x205F || n == 0x3000
}

/// The characters of `text`, one by one.
pub fn chars_of(text: &str) -> (r: Vec<char>)
    ensures
        r@ == text@,
{
    let mut out: Vec<char> = Vec::new();
    for c in it: text.chars()
        invariant
            out@ == it.seq().take(it.index() as int),
    {
        out.push(c);
    }
    out
}

/// Collects characters into a `String` with `String::from_iter`, which keeps
/// them in order.
#[verifier::external_body]
fn string_from_chars(chars: &Vec<char>) -> (r: String)
    ensures
        r@ == chars@,
{
    String::from_iter(chars.iter())
}

/// The texts held by a list of strings.
pub open spec fn line_texts(lines: Seq<String>) -> Seq<Seq<char>> {
    Seq::new(lines.len(), |i: int| lines[i]@)
}

/// Cuts `text` at its line feeds.
pub fn split_lines(text: &str) -> (r: Vec<String>)
    ensures
        line_texts(r@) == lines_of(text@),
{
    let chars = chars_of(text);
    let mut lines: Vec<String> = Vec::new();
    let mut current: Vec<char> = Vec::new();
    let mut i: usize = 0;
    while i < chars.len()
        invariant
            i <= chars.len(),
            lines_of(chars@.take(i as int)) == line_texts(lines@).push(current@),
        decreases chars.len() - i,
    {
        let c = chars[i];
        assert(chars@.take(i as int + 1).drop_last() == chars@.take(i as int));
        if c == '\n' {
            lines.push(string_from_chars(&current));
            current = Vec::new();
        } else {
            current.push(c);
        }
        i += 1;
    }
    assert(chars@.take(i as int) == chars@);
    lines.push(string_from_chars(&current));
    lines
}

/// Whether a line holds white space only.
pub fn is_blank(line: &str) -> (r: bool)
    ensures
        r == blank(line@),
{
    let mut all_white = true;
    for c in it: line.chars()
        invariant
            all_white == (forall|j: int| 0 <= j < it.index() ==> white_space(#[trigger] it.seq()[j])),
    {
        if !is_white_space(c) {
            all_white = false;
        }
    }
    all_white
}

} // verus!
