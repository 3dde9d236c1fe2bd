//! Operations on text, stated over sequences of characters.

use vstd::prelude::*;
use vstd::utf8::{decode_utf8, encode_utf8, valid_utf8};

verus! {

/// `String::push` appends one character.
pub assume_specification[ String::push ](s: &mut String, c: char)
    ensures
        final(s)@ == old(s)@.push(c),
;

/// `String::push_str` appends the whole of another text.
pub assume_specification[ String::push_str ](s: &mut String, other: &str)
    ensures
        final(s)@ == old(s)@ + other@,
;

/// Whether Unicode counts a character as a letter or a number.
pub uninterp spec fn unicode_alphanumeric(c: char) -> bool;

/// Whether Unicode counts a character as a letter.
pub uninterp spec fn unicode_alphabetic(c: char) -> bool;

/// Whether Unicode counts a character as a capital letter.
pub uninterp spec fn unicode_uppercase(c: char) -> bool;

/// The text in small letters by the rules of Unicode.
pub uninterp spec fn unicode_lowercase(s: Seq<char>) -> Seq<char>;

/// Whether a character is an ASCII letter or digit.
pub open spec fn ascii_alphanumeric(c: char) -> bool {
    ||| 'a' <= c && c <= 'z'
    ||| 'A' <= c && c <= 'Z'
    ||| '0' <= c && c <= '9'
}

/// `char::is_alphanumeric` goes by the Unicode properties of letters and
/// numbers; among the ASCII characters those are the letters and digits.
pub assume_specification[ char::is_alphanumeric ](c: char) -> (r: bool)
    ensures
        r == unicode_alphanumeric(c),
        c as u32 <= 0x7F ==> r == ascii_alphanumeric(c),
;

/// `char::is_alphabetic` goes by the Unicode property of letters; among the
/// ASCII characters those are the letters.
pub assume_specification[ char::is_alphabetic ](c: char) -> (r: bool)
    ensures
        r == unicode_alphabetic(c),
        c as u32 <= 0x7F ==> r == (('a' <= c && c <= 'z') || ('A' <= c && c <= 'Z')),
;

/// `char::is_uppercase` goes by the Unicode property of capital letters; among
/// the ASCII characters those are the capitals.
pub assume_specification[ char::is_uppercase ](c: char) -> (r: bool)
    ensures
        r == unicode_uppercase(c),
        c as u32 <= 0x7F ==> r == ('A' <= c && c <= 'Z'),
;

/// `str::to_lowercase` gives the text in small letters by the rules of Unicode.
pub assume_specification[ str::to_lowercase ](s: &str) -> (r: String)
    ensures
        r@ == unicode_lowercase(s@),
;

/// The number of bytes of a text in UTF-8.
pub open spec fn byte_len(s: Seq<char>) -> nat {
    encode_utf8(s).len()
}

/// The texts that a list of strings holds.
pub open spec fn texts(list: Seq<String>) -> Seq<Seq<char>> {
    Seq::new(list.len(), |i: int| list[i]@)
}

/// Whether `needle` stands in `hay` at position `at`.
pub open spec fn stands_at(hay: Seq<char>, needle: Seq<char>, at: int) -> bool {
    &&& 0 <= at
    &&& at + needle.len() <= hay.len()
    &&& hay.subrange(at, at + needle.len()) == needle
}

/// Whether `needle` occurs somewhere in `hay`.
pub open spec fn occurs(hay: Seq<char>, needle: Seq<char>) -> bool {
    exists|at: int| #[trigger] stands_at(hay, needle, at)
}

/// The first position at or after `from` at which `needle` stands in `hay`.
pub open spec fn first_at(hay: Seq<char>, needle: Seq<char>, from: int) -> Option<int>
    decreases hay.len() - from + 1,
{
    if from < 0 || from > hay.len() {
        None
    } else if stands_at(hay, needle, from) {
        Some(from)
    } else {
        first_at(hay, needle, from + 1)
    }
}

/// The first position is the one before which nothing stands.
pub proof fn lemma_first_at(hay: Seq<char>, needle: Seq<char>, from: int, at: int)
    requires
        0 <= from <= at,
        stands_at(hay, needle, at),
        forall|k: int| from <= k < at ==> !stands_at(hay, needle, k),
    ensures
        first_at(hay, needle, from) == Some(at),
    decreases at - from,
{
    if from < at {
        assert(!stands_at(hay, needle, from));
        lemma_first_at(hay, needle, from + 1, at);
    }
}

proof fn lemma_none_at(hay: Seq<char>, needle: Seq<char>, from: int)
    requires
        0 <= from,
        forall|k: int| from <= k ==> !stands_at(hay, needle, k),
    ensures
        first_at(hay, needle, from) is None,
    decreases hay.len() - from + 1,
{
    if from <= hay.len() {
        assert(!stands_at(hay, needle, from));
        lemma_none_at(hay, needle, from + 1);
    }
}

/// Whether `prefix` begins `s`.
pub open spec fn begins(s: Seq<char>, prefix: Seq<char>) -> bool {
    stands_at(s, prefix, 0)
}

/// Whether `suffix` ends `s`.
pub open spec fn ends(s: Seq<char>, suffix: Seq<char>) -> bool {
    stands_at(s, suffix, s.len() - suffix.len())
}

/// A character with an ASCII capital letter replaced by its small letter.
pub open spec fn lower(c: char) -> char {
    if 'A' <= c && c <= 'Z' {
        ((c as u32) + 32) as char
    } else {
        c
    }
}

/// A text with its ASCII capital letters replaced by small letters.
pub open spec fn lowered(s: Seq<char>) -> Seq<char> {
    Seq::new(s.len(), |i: int| lower(s[i]))
}

/// The characters that have the Unicode property `White_Space`.
pub open spec fn white(c: char) -> bool {
    let u = c as u32;
    ||| 9 <= u <= 13
    ||| u == 32
    ||| u == 0x85
    ||| u == 0xA0
    ||| u == 0x1680
    ||| 0x2000 <= u <= 0x200A
    ||| u == 0x2028
    ||| u == 0x2029
    ||| u == 0x202F
    ||| u == 0x205F
    ||| u == 0x3000
}

/// The text without its leading white space.
pub open spec fn trimmed_start(s: Seq<char>) -> Seq<char>
    decreases s.len(),
{
    if s.len() > 0 && white(s[0]) {
        trimmed_start(s.subrange(1, s.len() as int))
    } else {
        s
    }
}

/// The text without its trailing white space.
pub open spec fn trimmed_end(s: Seq<char>) -> Seq<char>
    decreases s.len(),
{
    if s.len() > 0 && white(s.last()) {
        trimmed_end(s.drop_last())
    } else {
        s
    }
}

/// The text without white space at either end.
pub open spec fn trimmed(s: Seq<char>) -> Seq<char> {
    trimmed_end(trimmed_start(s))
}

/// The pieces of a text between separators.
pub open spec fn pieces(s: Seq<char>, sep: spec_fn(char) -> bool) -> Seq<Seq<char>>
    decreases s.len(),
{
    if s.len() == 0 {
        seq![Seq::empty()]
    } else {
        let front = pieces(s.drop_last(), sep);
        if sep(s.last()) {
            front.push(Seq::empty())
        } else {
            front.update(front.len() - 1, front.last().push(s.last()))
        }
    }
}

/// Separation by one character.
pub open spec fn only(c: char) -> spec_fn(char) -> bool {
    |x: char| x == c
}

/// Separation by white space.
pub open spec fn by_white() -> spec_fn(char) -> bool {
    |x: char| white(x)
}

/// The pieces that hold something.
pub open spec fn nonempty(list: Seq<Seq<char>>) -> Seq<Seq<char>>
    decreases list.len(),
{
    if list.len() == 0 {
        Seq::empty()
    } else if list.last().len() == 0 {
        nonempty(list.drop_last())
    } else {
        nonempty(list.drop_last()).push(list.last())
    }
}

/// The words of a text.
pub open spec fn words(s: Seq<char>) -> Seq<Seq<char>> {
    nonempty(pieces(s, by_white()))
}

/// Texts with a separator between them.
pub open spec fn joined_by(list: Seq<Seq<char>>, sep: Seq<char>) -> Seq<char>
    decreases list.len(),
{
    if list.len() == 0 {
        Seq::empty()
    } else if list.len() == 1 {
        list[0]
    } else {
        joined_by(list.drop_last(), sep) + sep + list.last()
    }
}

/// A text with each backslash replaced by a slash.
pub open spec fn slashed(s: Seq<char>) -> Seq<char> {
    Seq::new(
        s.len(),
        |i: int|
            if s[i] == '\\' {
                '/'
            } else {
                s[i]
            },
    )
}

/// The part of a path behind its last slash.
pub open spec fn file_name(path: Seq<char>) -> Seq<char> {
    pieces(path, only('/')).last()
}

/// The part of a name before its first dot.
pub open spec fn stem(name: Seq<char>) -> Seq<char> {
    pieces(name, only('.'))[0]
}

/// There is always at least one piece.
pub proof fn pieces_exist(s: Seq<char>, sep: spec_fn(char) -> bool)
    ensures
        pieces(s, sep).len() >= 1,
    decreases s.len(),
{
    if s.len() > 0 {
        pieces_exist(s.drop_last(), sep);
    }
}

/// The order of texts: by the first character that differs, the shorter
/// first where one begins the other.
pub open spec fn text_le(a: Seq<char>, b: Seq<char>) -> bool
    decreases a.len(),
{
    if a.len() == 0 {
        true
    } else if b.len() == 0 {
        false
    } else if a[0] != b[0] {
        a[0] < b[0]
    } else {
        text_le(a.subrange(1, a.len() as int), b.subrange(1, b.len() as int))
    }
}

/// Whether a list of texts is in strictly ascending order.
pub open spec fn ascending(list: Seq<Seq<char>>) -> bool {
    forall|i: int, j: int|
        0 <= i < j < list.len() ==> #[trigger] text_le(list[i], list[j]) && list[i] != list[j]
}

/// The decimal digits of a number.
pub open spec fn decimal_text(n: nat) -> Seq<char>
    decreases n,
{
    if n < 10 {
        seq![digit(n)]
    } else {
        decimal_text(n / 10).push(digit(n % 10))
    }
}

/// The character of a decimal digit.
pub open spec fn digit(n: nat) -> char {
    ((48 + n) as u32) as char
}

/// The number of bytes of one character in UTF-8.
pub open spec fn char_width(c: char) -> nat {
    let u = c as u32;
    if u <= 0x7F {
        1
    } else if u <= 0x7FF {
        2
    } else if u <= 0xFFFF {
        3
    } else {
        4
    }
}

/// The bytes of a text that is put together from two.
pub proof fn encode_concat(a: Seq<char>, b: Seq<char>)
    ensures
        encode_utf8(a + b) == encode_utf8(a) + encode_utf8(b),
        byte_len(a + b) == byte_len(a) + byte_len(b),
    decreases a.len(),
{
    if a.len() == 0 {
        assert(a + b =~= b);
        assert(encode_utf8(a) + encode_utf8(b) =~= encode_utf8(b));
    } else {
        encode_concat(a.drop_first(), b);
        assert((a + b).drop_first() =~= a.drop_first() + b);
        assert(encode_utf8(a + b) =~= encode_utf8(a) + encode_utf8(b));
    }
}

/// The bytes of a text with one more character.
pub proof fn byte_len_push(s: Seq<char>, c: char)
    ensures
        byte_len(s.push(c)) == byte_len(s) + char_width(c),
        1 <= char_width(c) <= 4,
{
    let one = seq![c];
    assert(s.push(c) =~= s + one);
    encode_concat(s, one);
    assert(one.drop_first() =~= Seq::<char>::empty());
    vstd::utf8::char_is_scalar(c);
    assert(encode_utf8(one.drop_first()).len() == 0);
    assert(encode_utf8(one) =~= vstd::utf8::encode_scalar(c as u32));
}

/// A longer prefix has at least as many bytes.
pub proof fn byte_len_take(s: Seq<char>, i: int, j: int)
    requires
        0 <= i <= j <= s.len(),
    ensures
        byte_len(s.take(i)) <= byte_len(s.take(j)),
{
    assert(s.take(j) =~= s.take(i) + s.subrange(i, j));
    encode_concat(s.take(i), s.subrange(i, j));
}

/// The number of bytes of one character in UTF-8.
pub fn char_bytes(c: char) -> (r: usize)
    ensures
        r == char_width(c),
{
    let u: u32 = c as u32;
    if u <= 0x7F {
        1
    } else if u <= 0x7FF {
        2
    } else if u <= 0xFFFF {
        3
    } else {
        4
    }
}

/// The characters of a text as a vector.
pub fn chars_of(s: &str) -> (r: Vec<char>)
    ensures
        r@ == s@,
{
    let mut out: Vec<char> = Vec::new();
    for c in it: s.chars()
        invariant
            out@ == it.seq().take(it.index() as int),
            it.seq() == s@,
    {
        out.push(c);
    }
    assert(s@.take(s@.len() as int) == s@);
    out
}

/// The text that a range of characters spells.
pub fn text_of(chars: &[char], from: usize, to: usize) -> (r: String)
    requires
        from <= to <= chars.len(),
    ensures
        r@ == chars@.subrange(from as int, to as int),
{
    let mut out = String::new();
    let mut i: usize = from;
    while i < to
        invariant
            from <= i <= to <= chars.len(),
            out@ == chars@.subrange(from as int, i as int),
        decreases to - i,
    {
        out.push(chars[i]);
        assert(chars@.subrange(from as int, i + 1) == chars@.subrange(from as int, i as int).push(
            chars@[i as int],
        ));
        i += 1;
    }
    out
}

/// The text that a whole character vector spells.
pub fn text_of_all(chars: &Vec<char>) -> (r: String)
    ensures
        r@ == chars@,
{
    let r = text_of(chars.as_slice(), 0, chars.len());
    assert(chars@.subrange(0, chars@.len() as int) == chars@);
    r
}

/// An owned copy of a text.
pub fn copy_text(s: &str) -> (r: String)
    ensures
        r@ == s@,
{
    s.to_owned()
}

/// Whether two texts are equal.
pub fn same_text(a: &str, b: &str) -> (r: bool)
    ensures
        r == (a@ == b@),
{
    let x = a.as_bytes();
    let y = b.as_bytes();
    if x.len() != y.len() {
        return false;
    }
    let mut i: usize = 0;
    while i < x.len()
        invariant
            i <= x.len() == y.len(),
            x@ == encode_utf8(a@),
            y@ == encode_utf8(b@),
            forall|j: int| 0 <= j < i ==> x@[j] == y@[j],
        decreases x.len() - i,
    {
        if x[i] != y[i] {
            return false;
        }
        i += 1;
    }
    proof {
        assert(x@ =~= y@);
        vstd::utf8::encode_utf8_decode_utf8(a@);
        vstd::utf8::encode_utf8_decode_utf8(b@);
    }
    true
}

/// Whether `needle` stands in `hay` at position `at`.
pub fn chars_at(hay: &Vec<char>, needle: &Vec<char>, at: usize) -> (r: bool)
    ensures
        r == stands_at(hay@, needle@, at as int),
{
    if needle.len() > hay.len() || at > hay.len() - needle.len() {
        return false;
    }
    let mut i: usize = 0;
    while i < needle.len()
        invariant
            at + needle.len() <= hay.len(),
            i <= needle.len(),
            forall|j: int| 0 <= j < i ==> hay@[at + j] == needle@[j],
        decreases needle.len() - i,
    {
        if hay[at + i] != needle[i] {
            assert(hay@.subrange(at as int, at + needle@.len())[i as int] == hay@[at + i]);
            return false;
        }
        i += 1;
    }
    assert(hay@.subrange(at as int, at + needle@.len()) =~= needle@);
    true
}

/// The first position at or after `from` at which `needle` stands in `hay`.
pub fn find_from(hay: &Vec<char>, needle: &Vec<char>, from: usize) -> (r: Option<usize>)
    ensures
        match r {
            Some(at) => from <= at && stands_at(hay@, needle@, at as int) && forall|k: int|
                from <= k < at ==> !stands_at(hay@, needle@, k),
            None => forall|k: int| from <= k ==> !stands_at(hay@, needle@, k),
        },
        first_at(hay@, needle@, from as int) == match r {
            Some(at) => Some(at as int),
            None => None,
        },
{
    if needle.len() > hay.len() || from > hay.len() - needle.len() {
        proof {
            lemma_none_at(hay@, needle@, from as int);
        }
        return None;
    }
    let last: usize = hay.len() - needle.len();
    let mut at: usize = from;
    while at < last
        invariant
            from <= at <= last == hay.len() - needle.len(),
            forall|k: int| from <= k < at ==> !stands_at(hay@, needle@, k),
        decreases last - at,
    {
        if chars_at(hay, needle, at) {
            proof {
                lemma_first_at(hay@, needle@, from as int, at as int);
            }
            return Some(at);
        }
        at += 1;
    }
    if chars_at(hay, needle, last) {
        proof {
            lemma_first_at(hay@, needle@, from as int, last as int);
        }
        Some(last)
    } else {
        proof {
            assert forall|k: int| from <= k implies !stands_at(hay@, needle@, k) by {}
            lemma_none_at(hay@, needle@, from as int);
        }
        None
    }
}

/// Whether `needle` occurs in `hay`.
pub fn contains_text(hay: &str, needle: &str) -> (r: bool)
    ensures
        r == occurs(hay@, needle@),
{
    let h = chars_of(hay);
    let n = chars_of(needle);
    let found = find_from(&h, &n, 0);
    proof {
        if found.is_none() {
            assert forall|at: int| !stands_at(hay@, needle@, at) by {
                if at >= 0 {
                    assert(!stands_at(h@, n@, at));
                }
            }
        }
    }
    found.is_some()
}

/// Whether `prefix` begins `s`.
pub fn starts_text(s: &str, prefix: &str) -> (r: bool)
    ensures
        r == begins(s@, prefix@),
{
    let h = chars_of(s);
    let n = chars_of(prefix);
    chars_at(&h, &n, 0)
}

/// Whether `suffix` ends `s`.
pub fn ends_text(s: &str, suffix: &str) -> (r: bool)
    ensures
        r == ends(s@, suffix@),
{
    let h = chars_of(s);
    let n = chars_of(suffix);
    if n.len() > h.len() {
        return false;
    }
    chars_at(&h, &n, h.len() - n.len())
}

/// The small letter of an ASCII capital, any other character unchanged.
pub fn lower_char(c: char) -> (r: char)
    ensures
        r == lower(c),
{
    if 'A' <= c && c <= 'Z' {
        let u: u8 = (c as u32) as u8;
        let l: u8 = u + 32;
        assert(c as u32 == u as u32);
        l as char
    } else {
        c
    }
}

/// The text with ASCII capital letters replaced by small letters.
pub fn lower_text(s: &str) -> (r: String)
    ensures
        r@ == lowered(s@),
{
    let chars = chars_of(s);
    let mut out = String::new();
    let mut i: usize = 0;
    while i < chars.len()
        invariant
            i <= chars.len(),
            chars@ == s@,
            out@ == lowered(s@.take(i as int)),
        decreases chars.len() - i,
    {
        out.push(lower_char(chars[i]));
        assert(lowered(s@.take(i + 1)) =~= lowered(s@.take(i as int)).push(lower(s@[i as int])));
        i += 1;
    }
    assert(s@.take(s@.len() as int) =~= s@);
    out
}

/// Whether a character is white space.
pub fn is_white(c: char) -> (r: bool)
    ensures
        r == white(c),
{
    let u: u32 = c as u32;
    (9 <= u && u <= 13) || u == 32 || u == 0x85 || u == 0xA0 || u == 0x1680 || (0x2000 <= u && u
        <= 0x200A) || u == 0x2028 || u == 0x2029 || u == 0x202F || u == 0x205F || u == 0x3000
}

/// The bounds of the part of a text that is left after trimming.
pub fn trim_bounds(chars: &Vec<char>) -> (r: (usize, usize))
    ensures
        r.0 <= r.1 <= chars.len(),
        chars@.subrange(r.0 as int, r.1 as int) == trimmed(chars@),
{
    let mut from: usize = 0;
    let n: usize = chars.len();
    assert(chars@.subrange(0, n as int) == chars@);
    while from < n && is_white(chars[from])
        invariant
            from <= n == chars.len(),
            trimmed_start(chars@.subrange(from as int, n as int)) == trimmed_start(chars@),
        decreases n - from,
    {
        let ghost rest = chars@.subrange(from as int, n as int);
        assert(rest.subrange(1, rest.len() as int) == chars@.subrange(from + 1, n as int));
        from += 1;
    }
    assert(trimmed_start(chars@) == chars@.subrange(from as int, n as int));
    let mut to: usize = n;
    while to > from && is_white(chars[to - 1])
        invariant
            from <= to <= n == chars.len(),
            trimmed_end(chars@.subrange(from as int, to as int)) == trimmed(chars@),
        decreases to - from,
    {
        let ghost rest = chars@.subrange(from as int, to as int);
        assert(rest.drop_last() == chars@.subrange(from as int, to - 1));
        to -= 1;
    }
    (from, to)
}

/// The text without white space at either end.
pub fn trim_text(s: &str) -> (r: String)
    ensures
        r@ == trimmed(s@),
{
    let chars = chars_of(s);
    let (from, to) = trim_bounds(&chars);
    text_of(chars.as_slice(), from, to)
}

/// Whether one text comes before another or equals it.
pub fn chars_le(a: &Vec<char>, b: &Vec<char>) -> (r: bool)
    ensures
        r == text_le(a@, b@),
{
    let mut i: usize = 0;
    assert(a@.subrange(0, a@.len() as int) == a@);
    assert(b@.subrange(0, b@.len() as int) == b@);
    while i < a.len() && i < b.len() && a[i] == b[i]
        invariant
            i <= a.len(),
            i <= b.len(),
            text_le(a@, b@) == text_le(
                a@.subrange(i as int, a@.len() as int),
                b@.subrange(i as int, b@.len() as int),
            ),
        decreases a.len() - i,
    {
        let ghost x = a@.subrange(i as int, a@.len() as int);
        let ghost y = b@.subrange(i as int, b@.len() as int);
        assert(x.subrange(1, x.len() as int) == a@.subrange(i + 1, a@.len() as int));
        assert(y.subrange(1, y.len() as int) == b@.subrange(i + 1, b@.len() as int));
        i += 1;
    }
    if i >= a.len() {
        true
    } else if i >= b.len() {
        false
    } else {
        a[i] < b[i]
    }
}

/// Whether one text comes before another or equals it.
pub fn text_before(a: &str, b: &str) -> (r: bool)
    ensures
        r == text_le(a@, b@),
{
    let x = chars_of(a);
    let y = chars_of(b);
    chars_le(&x, &y)
}

/// Whether a list holds a text.
pub fn list_has(list: &Vec<String>, s: &str) -> (r: bool)
    ensures
        r == texts(list@).contains(s@),
{
    let mut i: usize = 0;
    while i < list.len()
        invariant
            i <= list.len(),
            forall|j: int| 0 <= j < i ==> list@[j]@ != s@,
        decreases list.len() - i,
    {
        if same_text(list[i].as_str(), s) {
            assert(texts(list@)[i as int] == s@);
            return true;
        }
        i += 1;
    }
    assert forall|j: int| 0 <= j < texts(list@).len() implies texts(list@)[j] != s@ by {
        assert(list@[j]@ != s@);
    }
    false
}

/// The pieces of a text between the characters that `is_sep` picks.
pub(crate) fn split_text<F: Fn(char) -> bool>(
    s: &str,
    is_sep: F,
    Ghost(sep): Ghost<spec_fn(char) -> bool>,
) -> (r: Vec<String>)
    requires
        forall|c: char| call_requires(is_sep, (c,)),
        forall|c: char, answer: bool| call_ensures(is_sep, (c,), answer) ==> answer == sep(c),
    ensures
        texts(r@) == pieces(s@, sep),
        r@.len() >= 1,
{
    let chars = chars_of(s);
    let mut out: Vec<String> = Vec::new();
    let mut current = String::new();
    let mut i: usize = 0;
    assert(texts(out@).push(current@) =~= pieces(s@.take(0), sep));
    while i < chars.len()
        invariant
            i <= chars.len(),
            chars@ == s@,
            forall|c: char| call_requires(is_sep, (c,)),
            forall|c: char, answer: bool| call_ensures(is_sep, (c,), answer) ==> answer == sep(c),
            texts(out@).push(current@) == pieces(s@.take(i as int), sep),
        decreases chars.len() - i,
    {
        let c = chars[i];
        let ghost front = pieces(s@.take(i as int), sep);
        assert(s@.take(i + 1).drop_last() =~= s@.take(i as int));
        if is_sep(c) {
            out.push(current);
            current = String::new();
            assert(texts(out@) =~= front);
            assert(texts(out@).push(current@) =~= front.push(Seq::empty()));
        } else {
            current.push(c);
            assert(texts(out@).push(current@) =~= front.update(
                front.len() - 1,
                front.last().push(c),
            ));
        }
        i += 1;
    }
    assert(s@.take(s@.len() as int) =~= s@);
    let ghost parts = texts(out@).push(current@);
    out.push(current);
    assert(texts(out@) =~= parts);
    out
}

/// The pieces of a text between one character.
pub fn split_on(s: &str, sep: char) -> (r: Vec<String>)
    ensures
        texts(r@) == pieces(s@, only(sep)),
        r@.len() >= 1,
{
    let chars = chars_of(s);
    let mut out: Vec<String> = Vec::new();
    let mut current = String::new();
    let mut i: usize = 0;
    assert(texts(out@).push(current@) =~= pieces(s@.take(0), only(sep)));
    while i < chars.len()
        invariant
            i <= chars.len(),
            chars@ == s@,
            texts(out@).push(current@) == pieces(s@.take(i as int), only(sep)),
        decreases chars.len() - i,
    {
        let c = chars[i];
        let ghost front = pieces(s@.take(i as int), only(sep));
        assert(s@.take(i + 1).drop_last() =~= s@.take(i as int));
        if c == sep {
            out.push(current);
            current = String::new();
            assert(texts(out@) =~= front);
            assert(texts(out@).push(current@) =~= front.push(Seq::empty()));
        } else {
            current.push(c);
            assert(texts(out@).push(current@) =~= front.update(
                front.len() - 1,
                front.last().push(c),
            ));
        }
        i += 1;
    }
    assert(s@.take(s@.len() as int) =~= s@);
    let ghost parts = texts(out@).push(current@);
    out.push(current);
    assert(texts(out@) =~= parts);
    out
}

/// The pieces that hold something.
pub fn drop_empty(list: Vec<String>) -> (r: Vec<String>)
    ensures
        texts(r@) == nonempty(texts(list@)),
{
    let mut out: Vec<String> = Vec::new();
    let mut i: usize = 0;
    assert(texts(out@) =~= nonempty(texts(list@).take(0)));
    while i < list.len()
        invariant
            i <= list.len(),
            texts(out@) == nonempty(texts(list@).take(i as int)),
        decreases list.len() - i,
    {
        assert(texts(list@).take(i + 1).drop_last() =~= texts(list@).take(i as int));
        let ghost before = texts(out@);
        if !list[i].as_str().is_empty() {
            out.push(list[i].clone());
            assert(texts(out@) =~= before.push(list@[i as int]@));
        }
        i += 1;
    }
    assert(texts(list@).take(list@.len() as int) =~= texts(list@));
    out
}

/// The words of a text.
pub fn words_of(s: &str) -> (r: Vec<String>)
    ensures
        texts(r@) == words(s@),
{
    drop_empty(split_text(s, is_white, Ghost(by_white())))
}

/// Texts with a separator between them.
pub fn join_texts(list: &Vec<String>, sep: &str) -> (r: String)
    ensures
        r@ == joined_by(texts(list@), sep@),
{
    let mut out = String::new();
    let mut i: usize = 0;
    assert(out@ =~= joined_by(texts(list@).take(0), sep@));
    while i < list.len()
        invariant
            i <= list.len(),
            out@ == joined_by(texts(list@).take(i as int), sep@),
        decreases list.len() - i,
    {
        let ghost before = out@;
        assert(texts(list@).take(i + 1).drop_last() =~= texts(list@).take(i as int));
        if i > 0 {
            out.push_str(sep);
        }
        out.push_str(list[i].as_str());
        assert(out@ =~= joined_by(texts(list@).take(i + 1), sep@));
        i += 1;
    }
    assert(texts(list@).take(list@.len() as int) =~= texts(list@));
    out
}

/// A text with each backslash replaced by a slash.
pub fn slash_text(s: &str) -> (r: String)
    ensures
        r@ == slashed(s@),
{
    let chars = chars_of(s);
    let mut out = String::new();
    let mut i: usize = 0;
    while i < chars.len()
        invariant
            i <= chars.len(),
            chars@ == s@,
            out@ == slashed(s@.take(i as int)),
        decreases chars.len() - i,
    {
        let c = chars[i];
        if c == '\\' {
            out.push('/');
        } else {
            out.push(c);
        }
        assert(out@ =~= slashed(s@.take(i + 1)));
        i += 1;
    }
    assert(s@.take(s@.len() as int) =~= s@);
    out
}

/// The part of a path behind its last slash.
pub fn name_of(path: &str) -> (r: String)
    ensures
        r@ == file_name(path@),
{
    let parts = split_on(path, '/');
    let last: usize = parts.len() - 1;
    assert(texts(parts@).last() == parts@[last as int]@);
    parts[last].clone()
}

/// The part of a name before its first dot.
pub fn stem_of(name: &str) -> (r: String)
    ensures
        r@ == stem(name@),
{
    let parts = split_on(name, '.');
    assert(texts(parts@)[0] == parts@[0]@);
    parts[0].clone()
}

/// Whether character `i` of a text starts at byte `offset`.
pub open spec fn starts_at_byte(s: Seq<char>, offset: nat, i: int) -> bool {
    0 <= i <= s.len() && byte_len(s.take(i)) == offset
}

/// The character that starts at a byte offset.
pub open spec fn at_byte(s: Seq<char>, offset: nat) -> Option<int> {
    if exists|i: int| starts_at_byte(s, offset, i) {
        Some(choose|i: int| starts_at_byte(s, offset, i))
    } else {
        None
    }
}

/// The part of a text between two byte offsets, where both are between
/// characters.
pub open spec fn byte_slice(s: Seq<char>, start: nat, end: nat) -> Option<Seq<char>> {
    match (at_byte(s, start), at_byte(s, end)) {
        (Some(i), Some(j)) => if start <= end {
            Some(s.subrange(i, j))
        } else {
            None
        },
        _ => None,
    }
}

/// A longer prefix has more bytes.
pub proof fn byte_len_grows(s: Seq<char>, i: int, j: int)
    requires
        0 <= i < j <= s.len(),
    ensures
        byte_len(s.take(i)) < byte_len(s.take(j)),
{
    byte_len_push(s.take(i), s[i]);
    assert(s.take(i + 1) =~= s.take(i).push(s[i]));
    byte_len_take(s, i + 1, j);
}

/// A part of a text has no more bytes than the text.
pub proof fn byte_slice_bytes(s: Seq<char>, start: nat, end: nat)
    ensures
        byte_slice(s, start, end) matches Some(part) ==> byte_len(part) <= byte_len(s),
{
    if byte_slice(s, start, end) is Some {
        let i = at_byte(s, start)->0;
        let j = at_byte(s, end)->0;
        assert(starts_at_byte(s, start, i));
        assert(starts_at_byte(s, end, j));
        if j < i {
            byte_len_grows(s, j, i);
        }
        let part = s.subrange(i, j);
        assert(s.take(j) =~= s.take(i) + part);
        encode_concat(s.take(i), part);
        byte_len_take(s, j, s.len() as int);
        assert(s.take(s.len() as int) =~= s);
    }
}

/// At most one character starts at a byte offset.
pub proof fn at_byte_is_unique(s: Seq<char>, offset: nat, i: int)
    requires
        starts_at_byte(s, offset, i),
    ensures
        at_byte(s, offset) == Some(i),
{
    let j = choose|j: int| starts_at_byte(s, offset, j);
    if i < j {
        byte_len_grows(s, i, j);
    } else if j < i {
        byte_len_grows(s, j, i);
    }
}

/// The character that starts at a byte offset.
pub fn char_at_byte(chars: &Vec<char>, offset: usize) -> (r: Option<usize>)
    ensures
        at_byte(chars@, offset as nat) == match r {
            Some(i) => Some(i as int),
            None => None,
        },
        r matches Some(i) ==> i <= chars.len() && byte_len(chars@.take(i as int)) == offset,
{
    let mut i: usize = 0;
    let mut used: usize = 0;
    assert(chars@.take(0) =~= Seq::<char>::empty());
    while i < chars.len() && used < offset && char_bytes(chars[i]) <= offset - used
        invariant
            i <= chars.len(),
            used == byte_len(chars@.take(i as int)),
            used <= offset,
        decreases chars.len() - i,
    {
        proof {
            byte_len_push(chars@.take(i as int), chars@[i as int]);
            assert(chars@.take(i + 1) =~= chars@.take(i as int).push(chars@[i as int]));
        }
        used += char_bytes(chars[i]);
        i += 1;
    }
    if used == offset {
        proof {
            at_byte_is_unique(chars@, offset as nat, i as int);
        }
        Some(i)
    } else {
        proof {
            assert forall|j: int| !starts_at_byte(chars@, offset as nat, j) by {
                if starts_at_byte(chars@, offset as nat, j) {
                    if j < i {
                        byte_len_grows(chars@, j, i as int);
                    } else if j > i {
                        byte_len_push(chars@.take(i as int), chars@[i as int]);
                        assert(chars@.take(i + 1) =~= chars@.take(i as int).push(
                            chars@[i as int],
                        ));
                        byte_len_take(chars@, i + 1, j);
                    }
                }
            }
        }
        None
    }
}

/// The part of a text between two byte offsets, where both are between
/// characters.
pub fn slice_bytes(s: &str, start: usize, end: usize) -> (r: Option<String>)
    ensures
        optional_text(r) == byte_slice(s@, start as nat, end as nat),
{
    let chars = chars_of(s);
    if start > end {
        return None;
    }
    match (char_at_byte(&chars, start), char_at_byte(&chars, end)) {
        (Some(i), Some(j)) => {
            proof {
                if j < i {
                    byte_len_grows(s@, j as int, i as int);
                }
            }
            Some(text_of(chars.as_slice(), i, j))
        },
        _ => None,
    }
}

/// The small letter or digit of a four-bit number.
pub open spec fn hex_digit(n: u8) -> char {
    if n < 10 {
        (48 + n) as u8 as char
    } else {
        (87 + n) as u8 as char
    }
}

/// Two hexadecimal digits for each byte.
pub open spec fn hex_text(bytes: Seq<u8>) -> Seq<char>
    decreases bytes.len(),
{
    if bytes.len() == 0 {
        Seq::empty()
    } else {
        hex_text(bytes.drop_last()).push(hex_digit(bytes.last() / 16)).push(
            hex_digit(bytes.last() % 16),
        )
    }
}

/// The small letter or digit of a four-bit number.
pub fn hex_char(n: u8) -> (r: char)
    requires
        n < 16,
    ensures
        r == hex_digit(n),
{
    if n < 10 {
        (48 + n) as char
    } else {
        (87 + n) as char
    }
}

/// Two hexadecimal digits for each byte.
pub fn hex_of(bytes: &[u8]) -> (r: String)
    ensures
        r@ == hex_text(bytes@),
{
    let mut out = String::new();
    let mut i: usize = 0;
    assert(hex_text(bytes@.take(0)) =~= Seq::<char>::empty());
    while i < bytes.len()
        invariant
            i <= bytes.len(),
            out@ == hex_text(bytes@.take(i as int)),
        decreases bytes.len() - i,
    {
        let b: u8 = bytes[i];
        assert(bytes@.take(i + 1).drop_last() =~= bytes@.take(i as int));
        out.push(hex_char(b / 16));
        out.push(hex_char(b % 16));
        i += 1;
    }
    assert(bytes@.take(bytes@.len() as int) =~= bytes@);
    out
}

/// Whether a character is a decimal digit.
pub open spec fn is_digit(c: char) -> bool {
    '0' <= c && c <= '9'
}

/// The number that decimal digits spell.
pub open spec fn digits_value(s: Seq<char>) -> nat
    decreases s.len(),
{
    if s.len() == 0 {
        0
    } else {
        digits_value(s.drop_last()) * 10 + ((s.last() as u32) - 48) as nat
    }
}

/// The number that decimal digits spell, where there are any and it is no more
/// than `max`.
pub open spec fn digits_number(digits: Seq<char>, max: nat) -> Option<nat> {
    if digits.len() > 0 && (forall|i: int| 0 <= i < digits.len() ==> is_digit(#[trigger] digits[i]))
        && digits_value(digits) <= max {
        Some(digits_value(digits))
    } else {
        None
    }
}

/// The number that a text stands for: decimal digits behind an optional plus
/// sign, no more than `max`.
pub open spec fn number_of(s: Seq<char>, max: nat) -> Option<nat> {
    digits_number(
        if s.len() > 0 && s[0] == '+' {
            s.subrange(1, s.len() as int)
        } else {
            s
        },
        max,
    )
}

proof fn lemma_digits_grow(s: Seq<char>, i: int)
    requires
        0 <= i <= s.len(),
    ensures
        digits_value(s.take(i)) <= digits_value(s),
    decreases s.len() - i,
{
    if i < s.len() {
        assert(s.take(i + 1).drop_last() =~= s.take(i));
        lemma_digits_grow(s, i + 1);
    } else {
        assert(s.take(i) =~= s);
    }
}

/// The number that a text stands for, unless it is more than `max`.
pub fn parse_number(s: &str, max: u64) -> (r: Option<u64>)
    ensures
        number_of(s@, max as nat) == match r {
            Some(n) => Some(n as nat),
            None => None,
        },
{
    let chars = chars_of(s);
    let mut from: usize = 0;
    if chars.len() > 0 && chars[0] == '+' {
        from = 1;
    }
    let ghost digits = if s@.len() > 0 && s@[0] == '+' {
        s@.subrange(1, s@.len() as int)
    } else {
        s@
    };
    assert(digits =~= s@.subrange(from as int, s@.len() as int));
    if from == chars.len() {
        return None;
    }
    let mut value: u64 = 0;
    let mut i: usize = from;
    while i < chars.len()
        invariant
            from <= i <= chars.len(),
            chars@ == s@,
            digits == s@.subrange(from as int, s@.len() as int),
            number_of(s@, max as nat) == digits_number(digits, max as nat),
            forall|k: int| 0 <= k < i - from ==> is_digit(#[trigger] digits[k]),
            value == digits_value(digits.take(i - from)),
            value <= max,
        decreases chars.len() - i,
    {
        let c = chars[i];
        proof {
            assert(digits[i - from] == c);
            assert(digits.take(i - from + 1).drop_last() =~= digits.take(i - from));
            lemma_digits_grow(digits, i - from + 1);
        }
        if !('0' <= c && c <= '9') {
            return None;
        }
        let d: u64 = (c as u32 - 48) as u64;
        if value > (u64::MAX - d) / 10 {
            return None;
        }
        value = value * 10 + d;
        if value > max {
            return None;
        }
        i += 1;
    }
    assert(digits.take(digits.len() as int) =~= digits);
    Some(value)
}

proof fn lemma_decimal(n: nat)
    ensures
        decimal_text(n).len() > 0,
        forall|i: int| 0 <= i < decimal_text(n).len() ==> is_digit(#[trigger] decimal_text(n)[i]),
        digits_value(decimal_text(n)) == n,
    decreases n,
{
    if n < 10 {
        assert(decimal_text(n) =~= seq![digit(n)]);
        assert(seq![digit(n)].drop_last() =~= Seq::<char>::empty());
        assert(digits_value(seq![digit(n)].drop_last()) == 0);
    } else {
        lemma_decimal(n / 10);
        assert(decimal_text(n).drop_last() =~= decimal_text(n / 10));
    }
}

/// A number comes back from its decimal digits.
pub proof fn decimal_round_trip(n: nat, max: nat)
    requires
        n <= max,
    ensures
        number_of(decimal_text(n), max) == Some(n),
        forall|i: int| 0 <= i < decimal_text(n).len() ==> is_digit(#[trigger] decimal_text(n)[i]),
{
    lemma_decimal(n);
    assert(is_digit(decimal_text(n)[0]));
}

spec fn power10(k: nat) -> nat
    decreases k,
{
    if k == 0 {
        1
    } else {
        10 * power10((k - 1) as nat)
    }
}

proof fn lemma_decimal_len(n: nat, k: nat)
    requires
        k >= 1,
        n < power10(k),
    ensures
        decimal_text(n).len() <= k,
    decreases k,
{
    if n >= 10 {
        if k == 1 {
            assert(power10(0) == 1);
        } else {
            lemma_decimal_len(n / 10, (k - 1) as nat);
        }
    }
}

/// A 64-bit number has at most twenty digits.
pub proof fn decimal_is_short(n: u64)
    ensures
        decimal_text(n as nat).len() <= 20,
{
    reveal_with_fuel(power10, 21);
    lemma_decimal_len(n as nat, 20);
}

/// A text of ASCII characters has as many bytes as characters.
pub proof fn ascii_bytes(s: Seq<char>)
    requires
        forall|i: int| 0 <= i < s.len() ==> (#[trigger] s[i]) as u32 <= 0x7F,
    ensures
        byte_len(s) == s.len(),
    decreases s.len(),
{
    if s.len() > 0 {
        let front = s.drop_last();
        assert forall|i: int| 0 <= i < front.len() implies (#[trigger] front[i]) as u32
            <= 0x7F by {
            assert(front[i] == s[i]);
        }
        ascii_bytes(front);
        byte_len_push(front, s.last());
        assert(s =~= front.push(s.last()));
    }
}

/// Hexadecimal text holds two small letters or digits for each byte.
pub proof fn hex_shape(bytes: Seq<u8>)
    ensures
        hex_text(bytes).len() == 2 * bytes.len(),
        forall|i: int|
            0 <= i < hex_text(bytes).len() ==> (is_digit(#[trigger] hex_text(bytes)[i]) || ('a'
                <= hex_text(bytes)[i] && hex_text(bytes)[i] <= 'f')),
    decreases bytes.len(),
{
    if bytes.len() > 0 {
        hex_shape(bytes.drop_last());
    }
}

/// The four-bit number of a small letter or digit.
pub open spec fn nibble_of(c: u8) -> Option<u8> {
    if 48 <= c <= 57 {
        Some((c - 48) as u8)
    } else if 97 <= c <= 102 {
        Some((c - 87) as u8)
    } else {
        None
    }
}

/// The bytes that hexadecimal digits spell.
pub open spec fn hex_bytes(digits: Seq<u8>) -> Option<Seq<u8>>
    decreases digits.len(),
{
    if digits.len() == 0 {
        Some(Seq::empty())
    } else if digits.len() == 1 {
        None
    } else {
        match (
            hex_bytes(digits.take(digits.len() - 2)),
            nibble_of(digits[digits.len() - 2]),
            nibble_of(digits.last()),
        ) {
            (Some(front), Some(high), Some(low)) => Some(front.push((high * 16 + low) as u8)),
            _ => None,
        }
    }
}

/// The text whose bytes hexadecimal digits spell.
pub open spec fn unhexed(s: Seq<char>) -> Option<Seq<char>> {
    match hex_bytes(encode_utf8(s)) {
        Some(bytes) => if valid_utf8(bytes) {
            Some(decode_utf8(bytes))
        } else {
            None
        },
        None => None,
    }
}

proof fn lemma_ascii_push(s: Seq<char>, c: char)
    requires
        c as u32 <= 0x7F,
    ensures
        encode_utf8(s.push(c)) == encode_utf8(s).push(c as u8),
{
    let one = seq![c];
    assert(s.push(c) =~= s + one);
    encode_concat(s, one);
    assert(one.drop_first() =~= Seq::<char>::empty());
    assert(encode_utf8(one.drop_first()).len() == 0);
    let u = c as u32;
    assert(u & 0x7F == u) by (bit_vector)
        requires
            u <= 0x7Fu32,
    ;
    assert(encode_utf8(one) =~= seq![c as u8]);
    assert(encode_utf8(s) + seq![c as u8] =~= encode_utf8(s).push(c as u8));
}

proof fn lemma_hex_bytes(bytes: Seq<u8>)
    ensures
        hex_bytes(encode_utf8(hex_text(bytes))) == Some(bytes),
    decreases bytes.len(),
{
    if bytes.len() == 0 {
        assert(encode_utf8(hex_text(bytes)) =~= Seq::<u8>::empty());
        assert(bytes =~= Seq::<u8>::empty());
    } else {
        let front = bytes.drop_last();
        let b = bytes.last();
        lemma_hex_bytes(front);
        let high = hex_digit(b / 16);
        let low = hex_digit(b % 16);
        let text = hex_text(front);
        lemma_ascii_push(text, high);
        lemma_ascii_push(text.push(high), low);
        let digits = encode_utf8(hex_text(bytes));
        assert(digits.take(digits.len() - 2) =~= encode_utf8(text));
        assert(nibble_of(high as u8) == Some((b / 16) as u8));
        assert(nibble_of(low as u8) == Some((b % 16) as u8));
        assert(bytes =~= front.push(b));
    }
}

/// A text comes back from the hexadecimal digits of its bytes.
pub proof fn hex_round_trip(s: Seq<char>)
    ensures
        unhexed(hex_text(encode_utf8(s))) == Some(s),
{
    lemma_hex_bytes(encode_utf8(s));
    vstd::utf8::encode_utf8_valid_utf8(s);
    vstd::utf8::encode_utf8_decode_utf8(s);
}

/// The parts of a text before and behind the first separator.
pub open spec fn split_first(s: Seq<char>, sep: Seq<char>) -> Option<(Seq<char>, Seq<char>)> {
    match first_at(s, sep, 0) {
        Some(at) => Some((s.take(at), s.subrange(at + sep.len(), s.len() as int))),
        None => None,
    }
}

/// The rest of a text behind a prefix.
pub open spec fn stripped(s: Seq<char>, prefix: Seq<char>) -> Option<Seq<char>> {
    if begins(s, prefix) {
        Some(s.subrange(prefix.len() as int, s.len() as int))
    } else {
        None
    }
}

/// The rest of a text before a suffix.
pub open spec fn stripped_end(s: Seq<char>, suffix: Seq<char>) -> Option<Seq<char>> {
    if ends(s, suffix) {
        Some(s.take(s.len() - suffix.len()))
    } else {
        None
    }
}

/// The parts of a text before and behind the first separator.
pub fn split_once_text(s: &str, sep: &str) -> (r: Option<(String, String)>)
    ensures
        match r {
            Some((left, right)) => split_first(s@, sep@) == Some((left@, right@)),
            None => split_first(s@, sep@) is None,
        },
{
    let chars = chars_of(s);
    let needle = chars_of(sep);
    match find_from(&chars, &needle, 0) {
        Some(at) => {
            assert(at + needle@.len() <= chars@.len());
            assert(needle.len() <= chars.len());
            let left = text_of(chars.as_slice(), 0, at);
            let right = text_of(chars.as_slice(), at + needle.len(), chars.len());
            assert(left@ =~= s@.take(at as int));
            Some((left, right))
        },
        None => None,
    }
}

/// The rest of a text behind a prefix.
pub fn strip_text(s: &str, prefix: &str) -> (r: Option<String>)
    ensures
        optional_text(r) == stripped(s@, prefix@),
{
    let chars = chars_of(s);
    let head = chars_of(prefix);
    if chars_at(&chars, &head, 0) {
        Some(text_of(chars.as_slice(), head.len(), chars.len()))
    } else {
        None
    }
}

/// The rest of a text before a suffix.
pub fn strip_end_text(s: &str, suffix: &str) -> (r: Option<String>)
    ensures
        optional_text(r) == stripped_end(s@, suffix@),
{
    let chars = chars_of(s);
    let tail = chars_of(suffix);
    if tail.len() <= chars.len() && chars_at(&chars, &tail, chars.len() - tail.len()) {
        let rest = text_of(chars.as_slice(), 0, chars.len() - tail.len());
        assert(rest@ =~= s@.take(s@.len() - suffix@.len()));
        Some(rest)
    } else {
        None
    }
}

/// How often a text occurs in another, no two occurrences overlapping.
pub open spec fn match_count(hay: Seq<char>, needle: Seq<char>, from: int) -> nat
    decreases hay.len() - from + 1,
    when needle.len() > 0
    via match_count_ends
{
    match first_at(hay, needle, from) {
        Some(at) => 1 + match_count(hay, needle, at + needle.len()),
        None => 0,
    }
}

#[via_fn]
proof fn match_count_ends(hay: Seq<char>, needle: Seq<char>, from: int) {
    first_at_bounds(hay, needle, from);
}

/// The first position lies in the text, at or behind where the search starts.
pub proof fn first_at_bounds(hay: Seq<char>, needle: Seq<char>, from: int)
    ensures
        first_at(hay, needle, from) matches Some(at) ==> 0 <= from <= at && at + needle.len()
            <= hay.len() && stands_at(hay, needle, at),
    decreases hay.len() - from + 1,
{
    if 0 <= from <= hay.len() && !stands_at(hay, needle, from) {
        first_at_bounds(hay, needle, from + 1);
    }
}

/// How often a text occurs in another, no two occurrences overlapping.
pub fn count_text(hay: &str, needle: &str) -> (r: usize)
    requires
        needle@.len() > 0,
    ensures
        r == match_count(hay@, needle@, 0),
{
    let h = chars_of(hay);
    let n = chars_of(needle);
    let mut count: usize = 0;
    let mut from: usize = 0;
    let mut more = true;
    while more
        invariant
            h@ == hay@,
            n@ == needle@,
            n@.len() > 0,
            from <= h.len(),
            count <= from,
            more ==> match_count(hay@, needle@, 0) == count + match_count(
                hay@,
                needle@,
                from as int,
            ),
            !more ==> match_count(hay@, needle@, 0) == count,
        decreases h.len() - from + (if more { 1int } else { 0 }),
    {
        match find_from(&h, &n, from) {
            Some(at) => {
                count += 1;
                from = at + n.len();
            },
            None => {
                more = false;
            },
        }
    }
    count
}

/// A copy of a list of texts.
pub fn copy_texts(list: &Vec<String>) -> (r: Vec<String>)
    ensures
        r@ == list@,
{
    let mut out: Vec<String> = Vec::new();
    let mut i: usize = 0;
    while i < list.len()
        invariant
            i <= list.len(),
            out@ == list@.take(i as int),
        decreases list.len() - i,
    {
        out.push(list[i].clone());
        assert(list@.take(i + 1) =~= list@.take(i as int).push(list@[i as int]));
        i += 1;
    }
    assert(list@.take(list@.len() as int) =~= list@);
    out
}

/// A copy of a text that may be missing.
pub fn copy_optional_text(value: &Option<String>) -> (r: Option<String>)
    ensures
        r == *value,
{
    match value {
        Some(text) => Some(text.clone()),
        None => None,
    }
}

/// A text that may be missing, as characters.
pub open spec fn optional_text(value: Option<String>) -> Option<Seq<char>> {
    match value {
        Some(text) => Some(text@),
        None => None,
    }
}

/// The decimal digits of a number.
pub fn decimal(n: u64) -> (r: String)
    ensures
        r@ == decimal_text(n as nat),
    decreases n,
{
    if n < 10 {
        let mut out = String::new();
        out.push((48u8 + n as u8) as char);
        assert(out@ =~= decimal_text(n as nat));
        out
    } else {
        let mut out = decimal(n / 10);
        out.push((48u8 + (n % 10) as u8) as char);
        out
    }
}

/// `String::from_utf8` gives the text that the bytes encode, or fails where
/// they are not UTF-8.
#[verifier::external_body]
pub(crate) fn utf8_text(bytes: Vec<u8>) -> (r: Option<String>)
    ensures
        r.is_some() == valid_utf8(bytes@),
        r.is_some() ==> r.unwrap()@ == decode_utf8(bytes@),
{
    String::from_utf8(bytes).ok()
}

/// Whether the order of texts is total and antisymmetric, and how it chains.
pub proof fn text_order(a: Seq<char>, b: Seq<char>, c: Seq<char>)
    ensures
        text_le(a, a),
        text_le(a, b) || text_le(b, a),
        text_le(a, b) && text_le(b, a) ==> a == b,
        text_le(a, b) && text_le(b, c) ==> text_le(a, c),
    decreases a.len(),
{
    let x = a.subrange(1, a.len() as int);
    let y = b.subrange(1, b.len() as int);
    let z = c.subrange(1, c.len() as int);
    if a.len() > 0 {
        text_order(x, y, z);
        if b.len() > 0 && a[0] == b[0] && x == y {
            assert(a =~= seq![a[0]] + x);
            assert(b =~= seq![b[0]] + y);
        }
    } else if b.len() == 0 {
        assert(a =~= b);
    }
}

/// A text with another behind it.
pub fn appended(start: String, more: &str) -> (r: String)
    ensures
        r@ == start@ + more@,
{
    let mut out = start;
    out.push_str(more);
    out
}

/// Whether two texts are the same but for the case of ASCII letters.
pub fn same_folded(a: &str, b: &str) -> (r: bool)
    ensures
        r == (lowered(a@) == lowered(b@)),
{
    same_text(lower_text(a).as_str(), lower_text(b).as_str())
}

/// Texts in small ASCII letters.
pub open spec fn lowered_all(list: Seq<Seq<char>>) -> Seq<Seq<char>> {
    Seq::new(list.len(), |i: int| lowered(list[i]))
}

/// Texts in small ASCII letters.
pub fn lower_all(list: &Vec<String>) -> (r: Vec<String>)
    ensures
        texts(r@) == lowered_all(texts(list@)),
{
    let mut out: Vec<String> = Vec::new();
    let mut i: usize = 0;
    while i < list.len()
        invariant
            i <= list.len(),
            texts(out@) == lowered_all(texts(list@)).take(i as int),
        decreases list.len() - i,
    {
        let ghost before = texts(out@);
        out.push(lower_text(list[i].as_str()));
        assert(texts(out@) =~= before.push(lowered(list@[i as int]@)));
        assert(texts(out@) =~= lowered_all(texts(list@)).take(i + 1));
        i += 1;
    }
    assert(texts(out@) =~= lowered_all(texts(list@)));
    out
}

/// The number of characters of a text.
pub fn char_count(s: &str) -> (r: usize)
    ensures
        r == s@.len(),
{
    chars_of(s).len()
}

/// Whether a text holds a character.
pub fn has_char(s: &str, c: char) -> (r: bool)
    ensures
        r == s@.contains(c),
{
    let chars = chars_of(s);
    let mut i: usize = 0;
    while i < chars.len()
        invariant
            i <= chars.len(),
            chars@ == s@,
            forall|k: int| 0 <= k < i ==> s@[k] != c,
        decreases chars.len() - i,
    {
        if chars[i] == c {
            assert(s@[i as int] == c);
            return true;
        }
        i += 1;
    }
    false
}

/// What parts words: all but letters, numbers and the underscore.
pub open spec fn word_break() -> spec_fn(char) -> bool {
    |c: char| !unicode_alphanumeric(c) && c != '_'
}

/// What parts plain words: all but letters and numbers.
pub open spec fn plain_break() -> spec_fn(char) -> bool {
    |c: char| !unicode_alphanumeric(c)
}

fn breaks_word(c: char) -> (r: bool)
    ensures
        r == word_break()(c),
{
    !c.is_alphanumeric() && c != '_'
}

fn breaks_plain(c: char) -> (r: bool)
    ensures
        r == plain_break()(c),
{
    !c.is_alphanumeric()
}

/// The words of letters, numbers and underscores.
pub open spec fn code_words(s: Seq<char>) -> Seq<Seq<char>> {
    nonempty(pieces(s, word_break()))
}

/// The words of letters and numbers.
pub open spec fn plain_words(s: Seq<char>) -> Seq<Seq<char>> {
    nonempty(pieces(s, plain_break()))
}

/// The words of letters, numbers and underscores.
pub fn code_words_of(s: &str) -> (r: Vec<String>)
    ensures
        texts(r@) == code_words(s@),
{
    drop_empty(split_text(s, breaks_word, Ghost(word_break())))
}

/// The words of letters and numbers.
pub fn plain_words_of(s: &str) -> (r: Vec<String>)
    ensures
        texts(r@) == plain_words(s@),
{
    drop_empty(split_text(s, breaks_plain, Ghost(plain_break())))
}

/// The distinct texts of a list, each where it first stands.
pub open spec fn distinct(list: Seq<Seq<char>>) -> Seq<Seq<char>>
    decreases list.len(),
{
    if list.len() == 0 {
        Seq::empty()
    } else {
        let front = distinct(list.drop_last());
        if front.contains(list.last()) {
            front
        } else {
            front.push(list.last())
        }
    }
}

/// The distinct texts of a list, each where it first stands.
pub fn distinct_texts(list: &Vec<String>) -> (r: Vec<String>)
    ensures
        texts(r@) == distinct(texts(list@)),
{
    let mut out: Vec<String> = Vec::new();
    let mut i: usize = 0;
    assert(texts(out@) =~= distinct(texts(list@).take(0)));
    while i < list.len()
        invariant
            i <= list.len(),
            texts(out@) == distinct(texts(list@).take(i as int)),
        decreases list.len() - i,
    {
        let ghost before = texts(out@);
        assert(texts(list@).take(i + 1).drop_last() =~= texts(list@).take(i as int));
        if !list_has(&out, list[i].as_str()) {
            out.push(list[i].clone());
            assert(texts(out@) =~= before.push(list@[i as int]@));
        }
        i += 1;
    }
    assert(texts(list@).take(list@.len() as int) =~= texts(list@));
    out
}

/// What is distinct of a list is in the list, and nothing of it twice.
pub proof fn distinct_is_a_set(list: Seq<Seq<char>>)
    ensures
        distinct(list).no_duplicates(),
        distinct(list).len() <= list.len(),
        forall|t: Seq<char>| #[trigger] distinct(list).contains(t) <==> list.contains(t),
    decreases list.len(),
{
    if list.len() > 0 {
        let front = list.drop_last();
        distinct_is_a_set(front);
        let out = distinct(list);
        assert(list =~= front.push(list.last()));
        assert forall|t: Seq<char>| #[trigger] out.contains(t) <==> list.contains(t) by {
            if list.contains(t) {
                let k = choose|k: int| 0 <= k < list.len() && list[k] == t;
                if k < front.len() {
                    assert(front[k] == t);
                    assert(distinct(front).contains(t));
                    let m = choose|m: int| 0 <= m < distinct(front).len() && distinct(front)[m]
                        == t;
                    assert(out[m] == t);
                } else if distinct(front).contains(t) {
                    let m = choose|m: int| 0 <= m < distinct(front).len() && distinct(front)[m]
                        == t;
                    assert(out[m] == t);
                } else {
                    assert(out[out.len() - 1] == t);
                }
            }
            if out.contains(t) {
                let k = choose|k: int| 0 <= k < out.len() && out[k] == t;
                if k < distinct(front).len() {
                    assert(distinct(front)[k] == t);
                    assert(distinct(front).contains(t));
                    assert(front.contains(t));
                    let m = choose|m: int| 0 <= m < front.len() && front[m] == t;
                    assert(list[m] == t);
                } else {
                    assert(list[list.len() - 1] == t);
                }
            }
        }
    }
}

/// A line without the carriage return at its end.
pub open spec fn without_return(line: Seq<char>) -> Seq<char> {
    if line.len() > 0 && line.last() == '\r' {
        line.drop_last()
    } else {
        line
    }
}

/// The lines of a text, each ended by a line feed or by the end of the text.
pub open spec fn text_lines(s: Seq<char>) -> Seq<Seq<char>> {
    let parts = pieces(s, only('\n'));
    let ended = Seq::new((parts.len() - 1) as nat, |i: int| without_return(parts[i]));
    if parts.last().len() > 0 {
        ended.push(parts.last())
    } else {
        ended
    }
}

fn drop_return(line: &str) -> (r: String)
    ensures
        r@ == without_return(line@),
{
    let chars = chars_of(line);
    let total: usize = chars.len();
    if total > 0 && chars[total - 1] == '\r' {
        let r = text_of(chars.as_slice(), 0, total - 1);
        assert(r@ =~= line@.drop_last());
        r
    } else {
        copy_text(line)
    }
}

/// The lines of a text.
pub fn lines_of(s: &str) -> (r: Vec<String>)
    ensures
        texts(r@) == text_lines(s@),
{
    let parts = split_on(s, '\n');
    let ghost all = texts(parts@);
    proof {
        pieces_exist(s@, only('\n'));
        assert(all.len() == parts@.len());
    }
    let last: usize = parts.len() - 1;
    let ghost ended = Seq::new((all.len() - 1) as nat, |i: int| without_return(all[i]));
    let mut out: Vec<String> = Vec::new();
    let mut i: usize = 0;
    assert(texts(out@) =~= ended.take(0));
    while i < last
        invariant
            i <= last,
            last == parts.len() - 1,
            all == texts(parts@),
            ended == Seq::new((all.len() - 1) as nat, |i: int| without_return(all[i])),
            texts(out@) == ended.take(i as int),
        decreases last - i,
    {
        let ghost before = texts(out@);
        let line = drop_return(parts[i].as_str());
        let ghost added = line@;
        out.push(line);
        assert(texts(out@) =~= before.push(added));
        assert(texts(out@) =~= ended.take(i + 1));
        i += 1;
    }
    assert(ended.take(ended.len() as int) =~= ended);
    assert(all.last() == parts@[last as int]@);
    if char_count(parts[last].as_str()) > 0 {
        out.push(parts[last].clone());
        assert(texts(out@) =~= ended.push(parts@[last as int]@));
    }
    out
}

} // verus!
