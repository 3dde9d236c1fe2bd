//! Texts of symbols and of the differences between them.

use crate::text::{
    appended, at_byte_is_unique, byte_len, byte_len_push, byte_slice, char_bytes, char_count,
    char_width, chars_of, copy_text, ends, ends_text, lines_of, slice_bytes, text_lines, text_of,
    texts,
};
use similar::TextDiff;
use vstd::prelude::*;

verus! {

/// The unified difference of two texts, line by line, with lines of context
/// around each change and the names of both sides before the first.
pub uninterp spec fn unified_diff(
    before: Seq<char>,
    after: Seq<char>,
    context: usize,
    base: Seq<char>,
    head: Seq<char>,
) -> Seq<char>;

/// `similar::TextDiff::from_lines` compares two texts line by line, and
/// `unified_diff` writes the difference with `context_radius` lines of context
/// and the two names of `header`. The text depends on these five alone. It counts
/// the lines that differ from one another in thirty-two bits, and doubles the
/// lines of context.
#[verifier::external_body]
pub(crate) fn unified_diff_text(
    before: &str,
    after: &str,
    context: usize,
    base: &str,
    head: &str,
) -> (r: String)
    requires
        byte_len(before@) + byte_len(after@) <= u32::MAX,
        context <= u32::MAX / 2,
    ensures
        r@ == unified_diff(before@, after@, context, base@, head@),
{
    TextDiff::from_lines(before, after)
        .unified_diff()
        .context_radius(context)
        .header(base, head)
        .to_string()
}

/// A text that a response may cut short.
#[derive(Debug, Clone, Copy)]
pub enum HistoryText<'a> {
    Symbol(&'a str),
    Diff(&'a str),
}

impl<'a> HistoryText<'a> {
    /// The text.
    pub open spec fn text(self) -> Seq<char> {
        match self {
            HistoryText::Symbol(content) => content@,
            HistoryText::Diff(content) => content@,
        }
    }

    /// The text.
    pub fn content(self) -> (r: &'a str)
        ensures
            r@ == self.text(),
    {
        match self {
            HistoryText::Symbol(content) => content,
            HistoryText::Diff(content) => content,
        }
    }
}

/// Whether numbers are the byte offsets between the characters of a text, its
/// start and its end among them.
pub open spec fn bounds_of(text: Seq<char>, bounds: Seq<usize>) -> bool {
    &&& bounds.len() == text.len() + 1
    &&& forall|i: int| 0 <= i < bounds.len() ==> #[trigger] bounds[i] == byte_len(text.take(i))
}

/// The byte offsets between the characters of a text.
pub fn char_boundaries(value: &str) -> (r: Vec<usize>)
    ensures
        bounds_of(value@, r@),
{
    let chars = chars_of(value);
    let mut out: Vec<usize> = Vec::new();
    let mut used: usize = 0;
    let size: usize = value.as_bytes().len();
    out.push(0);
    let mut i: usize = 0;
    assert(value@.take(0) =~= Seq::<char>::empty());
    while i < chars.len()
        invariant
            i <= chars.len(),
            chars@ == value@,
            size == byte_len(value@),
            used == byte_len(value@.take(i as int)),
            out.len() == i + 1,
            forall|k: int| 0 <= k <= i ==> #[trigger] out@[k] == byte_len(value@.take(k)),
        decreases chars.len() - i,
    {
        proof {
            byte_len_push(value@.take(i as int), value@[i as int]);
            assert(value@.take(i + 1) =~= value@.take(i as int).push(value@[i as int]));
            crate::text::byte_len_take(value@, i + 1, value@.len() as int);
            assert(value@.take(value@.len() as int) =~= value@);
        }
        used += char_bytes(chars[i]);
        out.push(used);
        i += 1;
    }
    out
}

/// The first characters of a text, by the byte offset behind them.
pub fn prefix_at(text: &str, bounds: &Vec<usize>, keep: usize) -> (r: String)
    requires
        bounds_of(text@, bounds@),
        keep < bounds.len(),
    ensures
        r@ == text@.take(keep as int),
{
    proof {
        let end = bounds@[keep as int];
        assert(text@.take(0) =~= Seq::<char>::empty());
        assert(byte_len(text@.take(0)) == 0);
        at_byte_is_unique(text@, 0, 0);
        at_byte_is_unique(text@, end as nat, keep as int);
        assert(byte_slice(text@, 0, end as nat) == Some(text@.subrange(0, keep as int)));
        assert(text@.subrange(0, keep as int) =~= text@.take(keep as int));
    }
    match slice_bytes(text, 0, bounds[keep]) {
        Some(prefix) => prefix,
        None => String::new(),
    }
}

/// A text with a line feed at its end, where it has any character.
pub open spec fn ended_line(content: Seq<char>) -> Seq<char> {
    if content.len() == 0 || ends(content, "\n"@) {
        content
    } else {
        content + "\n"@
    }
}

/// A line feed adds one byte.
pub(crate) proof fn ended_line_bytes(content: Seq<char>)
    ensures
        byte_len(ended_line(content)) <= byte_len(content) + 1,
{
    reveal_strlit("\n");
    assert(content + "\n"@ =~= content.push('\n'));
    byte_len_push(content, '\n');
    assert(char_width('\n') == 1);
}

/// A text as it is compared: with a line feed at its end.
pub fn symbol_diff_buffer(content: &str) -> (r: String)
    ensures
        r@ == ended_line(content@),
{
    if char_count(content) == 0 || ends_text(content, "\n") {
        copy_text(content)
    } else {
        appended(copy_text(content), "\n")
    }
}

/// The longest prefix of a text with no more than `max_bytes` bytes.
pub open spec fn longest_within(text: Seq<char>, max_bytes: nat) -> Seq<char>
    decreases text.len(),
{
    if text.len() == 0 || byte_len(text) <= max_bytes {
        text
    } else {
        longest_within(text.drop_last(), max_bytes)
    }
}

/// The longest prefix within a number of bytes is a prefix, takes no more than
/// that, and is the text itself or takes more with its next character.
pub proof fn the_longest_prefix_is_cut_once(text: Seq<char>, max_bytes: nat)
    ensures
        longest_within(text, max_bytes).is_prefix_of(text),
        byte_len(longest_within(text, max_bytes)) <= max_bytes,
        longest_within(text, max_bytes).len() < text.len() ==> byte_len(
            text.take((longest_within(text, max_bytes).len() + 1) as int),
        ) > max_bytes,
    decreases text.len(),
{
    if text.len() == 0 {
        assert(text =~= Seq::<char>::empty());
    } else if byte_len(text) > max_bytes {
        let shorter = text.drop_last();
        the_longest_prefix_is_cut_once(shorter, max_bytes);
        let kept = longest_within(shorter, max_bytes).len() as int;
        if kept < shorter.len() {
            assert(shorter.take(kept + 1) =~= text.take(kept + 1));
        } else {
            assert(text.take(kept + 1) =~= text);
        }
    }
}

proof fn longest_is(text: Seq<char>, max_bytes: nat, keep: int)
    requires
        0 <= keep <= text.len(),
        byte_len(text.take(keep)) <= max_bytes,
        keep < text.len() ==> byte_len(text.take(keep + 1)) > max_bytes,
    ensures
        longest_within(text, max_bytes) == text.take(keep),
    decreases text.len(),
{
    if keep == text.len() {
        assert(text.take(keep) =~= text);
    } else {
        let shorter = text.drop_last();
        crate::text::byte_len_take(text, keep + 1, text.len() as int);
        assert(text.take(text.len() as int) =~= text);
        assert(shorter.take(keep) =~= text.take(keep));
        if keep < shorter.len() {
            assert(shorter.take(keep + 1) =~= text.take(keep + 1));
        }
        longest_is(shorter, max_bytes, keep);
    }
}

/// The longest prefix of a text with no more than `max_bytes` bytes.
pub fn utf8_prefix(value: &str, max_bytes: usize) -> (r: String)
    ensures
        r@ == longest_within(value@, max_bytes as nat),
{
    let chars = chars_of(value);
    let mut used: usize = 0;
    let mut i: usize = 0;
    assert(value@.take(0) =~= Seq::<char>::empty());
    while i < chars.len() && char_bytes(chars[i]) <= max_bytes - used
        invariant
            i <= chars.len(),
            chars@ == value@,
            used == byte_len(value@.take(i as int)),
            used <= max_bytes,
        decreases chars.len() - i,
    {
        proof {
            byte_len_push(value@.take(i as int), value@[i as int]);
            assert(value@.take(i + 1) =~= value@.take(i as int).push(value@[i as int]));
        }
        used += char_bytes(chars[i]);
        i += 1;
    }
    proof {
        if i < chars.len() {
            byte_len_push(value@.take(i as int), value@[i as int]);
            assert(value@.take(i + 1) =~= value@.take(i as int).push(value@[i as int]));
        }
        longest_is(value@, max_bytes as nat, i as int);
    }
    let r = text_of(chars.as_slice(), 0, i);
    assert(r@ =~= value@.take(i as int));
    r
}

/// The last line of a text that starts on a line.
pub open spec fn end_line(start_line: usize, content: Seq<char>) -> usize {
    let lines = text_lines(content).len();
    let more = if lines > 0 {
        lines - 1
    } else {
        0
    };
    if start_line + more > usize::MAX {
        usize::MAX
    } else {
        (start_line + more) as usize
    }
}

/// The last line of a text that starts on a line.
pub fn returned_end_line(start_line: usize, content: &str) -> (r: usize)
    ensures
        r == end_line(start_line, content@),
{
    let lines = lines_of(content);
    assert(texts(lines@).len() == lines@.len());
    start_line.saturating_add(lines.len().saturating_sub(1))
}

} // verus!
