//! JMESPath expressions.

use crate::text::{byte_len, chars_of};
use crate::validation::byte_size;
use vstd::prelude::*;

verus! {

/// The most signs of an expression that is compiled here, outside quotes: letters,
/// digits and blanks do not count. Only a sign nests one expression in another, and
/// expressions are compiled and evaluated recursively.
pub const MAX_EXPRESSION_SIGNS: usize = 64;

/// The most digits of a number in an expression that is compiled here.
pub const MAX_NUMBER_DIGITS: usize = 9;

/// The largest document that is searched here.
pub const MAX_DOCUMENT_BYTES: usize = 1073741824;

/// Why an expression could not be compiled or evaluated, and where in it.
#[derive(Debug)]
pub struct SelectorFailure {
    pub offset: usize,
    pub line: usize,
    pub column: usize,
    pub reason: String,
}

/// A failure, as what it says.
pub open spec fn failure_view(failure: SelectorFailure) -> (usize, usize, usize, Seq<char>) {
    (failure.offset, failure.line, failure.column, failure.reason@)
}

/// Where in an expression a character stands behind.
#[derive(Debug, Clone, Copy, PartialEq, Eq, Structural)]
pub enum ExpressionPlace {
    Outside,
    Name,
    Number,
    Minus,
    Quoted(char),
    Escaped(char),
}

/// What the characters of an expression up to a place come to: how many signs and how
/// many digits of a number in a row stand outside quotes, and whether a number is
/// large or a minus sign comes before another script.
pub struct ExpressionRead {
    pub place: ExpressionPlace,
    pub signs: nat,
    pub digits: nat,
    pub odd: bool,
}

/// Whether a character opens or closes a quoted part.
pub open spec fn quote_mark(c: char) -> bool {
    c == '"' || c == '\'' || c == '`'
}

/// Whether a character begins a name.
pub open spec fn begins_name(c: char) -> bool {
    'a' <= c <= 'z' || 'A' <= c <= 'Z' || c == '_'
}

/// Whether a character is a blank of an expression.
pub open spec fn expression_blank(c: char) -> bool {
    c == ' ' || c == '\n' || c == '\t' || c == '\r'
}

/// The place behind one more character.
pub open spec fn expression_place(before: ExpressionPlace, c: char) -> ExpressionPlace {
    match before {
        ExpressionPlace::Escaped(quote) => ExpressionPlace::Quoted(quote),
        ExpressionPlace::Quoted(quote) => if c == quote {
            ExpressionPlace::Outside
        } else if c == '\\' {
            ExpressionPlace::Escaped(quote)
        } else {
            before
        },
        _ => if quote_mark(c) {
            ExpressionPlace::Quoted(c)
        } else if begins_name(c) || ('0' <= c <= '9' && before is Name) {
            ExpressionPlace::Name
        } else if '0' <= c <= '9' {
            ExpressionPlace::Number
        } else if c == '-' {
            ExpressionPlace::Minus
        } else {
            ExpressionPlace::Outside
        },
    }
}

/// Whether a character that was read behind a place is a sign.
pub open spec fn counts_as_sign(before: ExpressionPlace, c: char) -> bool {
    !(before is Quoted) && !(before is Escaped) && !quote_mark(c) && !begins_name(c) && !('0' <= c
        <= '9') && !expression_blank(c)
}

/// What an expression comes to up to a place.
pub open spec fn expression_read(s: Seq<char>, upto: int) -> ExpressionRead
    decreases upto,
{
    if upto <= 0 || upto > s.len() {
        ExpressionRead { place: ExpressionPlace::Outside, signs: 0, digits: 0, odd: false }
    } else {
        let before = expression_read(s, upto - 1);
        let c = s[upto - 1];
        let place = expression_place(before.place, c);
        let digits = if place is Number {
            before.digits + 1
        } else {
            0
        };
        ExpressionRead {
            place,
            signs: before.signs + if counts_as_sign(before.place, c) {
                1nat
            } else {
                0nat
            },
            digits,
            odd: before.odd || digits > MAX_NUMBER_DIGITS || (before.place is Minus && c as u32
                > 0x7f),
        }
    }
}

/// Whether an expression has few signs, its numbers are small, and only plain
/// characters follow its minus signs. Quoted parts may hold anything.
pub open spec fn plain_expression(s: Seq<char>) -> bool {
    let all = expression_read(s, s.len() as int);
    all.signs <= MAX_EXPRESSION_SIGNS && !all.odd
}

/// What compiling an expression says.
pub uninterp spec fn jmespath_compiles(expression: Seq<char>) -> Result<
    (),
    (usize, usize, usize, Seq<char>),
>;

/// What evaluating an expression on the text of a document says: the text of
/// what it found.
pub uninterp spec fn jmespath_finds(expression: Seq<char>, document: Seq<char>) -> Result<
    Seq<char>,
    (usize, usize, usize, Seq<char>),
>;

/// A result, as what it says.
pub open spec fn compile_result(r: Result<(), SelectorFailure>) -> Result<
    (),
    (usize, usize, usize, Seq<char>),
> {
    match r {
        Ok(_) => Ok(()),
        Err(failure) => Err(failure_view(failure)),
    }
}

/// A result, as what it says.
pub open spec fn search_result(r: Result<String, SelectorFailure>) -> Result<
    Seq<char>,
    (usize, usize, usize, Seq<char>),
> {
    match r {
        Ok(text) => Ok(text@),
        Err(failure) => Err(failure_view(failure)),
    }
}

/// `jmespath::compile` compiles an expression, or says where it is wrong and why.
/// It fails on a number that is larger than its integers, and it nests as deep as the
/// signs of the expression, so the numbers are kept small and the signs few.
#[verifier::external_body]
fn compile_text(expression: &str) -> (r: Result<(), SelectorFailure>)
    requires
        plain_expression(expression@),
    ensures
        compile_result(r) == jmespath_compiles(expression@),
{
    match jmespath::compile(expression) {
        Ok(_) => Ok(()),
        Err(e) => Err(
            SelectorFailure {
                offset: e.offset,
                line: e.line,
                column: e.column,
                reason: e.reason.to_string(),
            },
        ),
    }
}

/// `jmespath::Expression::search` evaluates a compiled expression on a document,
/// and `to_string` writes what it found as JSON. Steps of slices are kept small
/// with the numbers of the expression, and the document within a size.
#[verifier::external_body]
fn search_text(expression: &str, document: &str) -> (r: Result<String, SelectorFailure>)
    requires
        plain_expression(expression@),
        byte_len(document@) <= MAX_DOCUMENT_BYTES,
    ensures
        search_result(r) == jmespath_finds(expression@, document@),
{
    let data = jmespath::Variable::from_json(document).map_err(
        |reason| SelectorFailure { offset: 0, line: 0, column: 0, reason },
    )?;
    jmespath::compile(expression).and_then(|compiled| compiled.search(data)).map(
        |found| found.to_string(),
    ).map_err(
        |e| SelectorFailure {
            offset: e.offset,
            line: e.line,
            column: e.column,
            reason: e.reason.to_string(),
        },
    )
}

fn move_expression_place(before: ExpressionPlace, c: char) -> (r: ExpressionPlace)
    ensures
        r == expression_place(before, c),
{
    match before {
        ExpressionPlace::Escaped(quote) => ExpressionPlace::Quoted(quote),
        ExpressionPlace::Quoted(quote) => if c == quote {
            ExpressionPlace::Outside
        } else if c == '\\' {
            ExpressionPlace::Escaped(quote)
        } else {
            before
        },
        _ => {
            let digit = '0' <= c && c <= '9';
            let letter = ('a' <= c && c <= 'z') || ('A' <= c && c <= 'Z') || c == '_';
            if c == '"' || c == '\'' || c == '`' {
                ExpressionPlace::Quoted(c)
            } else if letter || (digit && before == ExpressionPlace::Name) {
                ExpressionPlace::Name
            } else if digit {
                ExpressionPlace::Number
            } else if c == '-' {
                ExpressionPlace::Minus
            } else {
                ExpressionPlace::Outside
            }
        },
    }
}

fn is_sign(before: ExpressionPlace, c: char) -> (r: bool)
    ensures
        r == counts_as_sign(before, c),
{
    let quoted = match before {
        ExpressionPlace::Quoted(_) => true,
        ExpressionPlace::Escaped(_) => true,
        _ => false,
    };
    let quote = c == '"' || c == '\'' || c == '`';
    let letter = ('a' <= c && c <= 'z') || ('A' <= c && c <= 'Z') || c == '_';
    let digit = '0' <= c && c <= '9';
    let space = c == ' ' || c == '\n' || c == '\t' || c == '\r';
    !quoted && !quote && !letter && !digit && !space
}

proof fn a_reading_grows(s: Seq<char>, from: int, upto: int)
    requires
        0 <= from <= upto <= s.len(),
    ensures
        expression_read(s, from).signs <= expression_read(s, upto).signs,
        expression_read(s, from).odd ==> expression_read(s, upto).odd,
    decreases upto - from,
{
    if from < upto {
        a_reading_grows(s, from, upto - 1);
    }
}

fn is_plain(expression: &str) -> (r: bool)
    ensures
        r == plain_expression(expression@),
{
    let chars = chars_of(expression);
    let mut place = ExpressionPlace::Outside;
    let mut signs: usize = 0;
    let mut digits: usize = 0;
    let mut i: usize = 0;
    while i < chars.len()
        invariant
            i <= chars.len(),
            chars@ == expression@,
            place == expression_read(expression@, i as int).place,
            signs == expression_read(expression@, i as int).signs,
            digits == expression_read(expression@, i as int).digits,
            !expression_read(expression@, i as int).odd,
            signs <= MAX_EXPRESSION_SIGNS,
            digits <= MAX_NUMBER_DIGITS,
        decreases chars.len() - i,
    {
        let c = chars[i];
        let next = move_expression_place(place, c);
        if is_sign(place, c) {
            signs += 1;
        }
        if next == ExpressionPlace::Number {
            digits += 1;
        } else {
            digits = 0;
        }
        let foreign = place == ExpressionPlace::Minus && c as u32 > 0x7f;
        proof {
            assert(expression_read(expression@, i + 1).signs == signs);
            assert(expression_read(expression@, i + 1).digits == digits);
            assert(expression_read(expression@, i + 1).odd == (digits > MAX_NUMBER_DIGITS
                || foreign));
            a_reading_grows(expression@, i + 1, expression@.len() as int);
        }
        if signs > MAX_EXPRESSION_SIGNS || digits > MAX_NUMBER_DIGITS || foreign {
            return false;
        }
        place = next;
        i += 1;
    }
    true
}

/// Compiles an expression, where its signs are few and its numbers small.
pub fn compile_jmespath(expression: &str) -> (r: Option<Result<(), SelectorFailure>>)
    ensures
        match r {
            Some(outcome) => plain_expression(expression@) && compile_result(outcome)
                == jmespath_compiles(expression@),
            None => !plain_expression(expression@),
        },
{
    if is_plain(expression) {
        Some(compile_text(expression))
    } else {
        None
    }
}

/// Evaluates an expression on the text of a document, where the signs of the
/// expression are few, its numbers small and the document not too large.
pub fn search_jmespath(expression: &str, document: &str) -> (r: Option<
    Result<String, SelectorFailure>,
>)
    ensures
        match r {
            Some(outcome) => {
                &&& plain_expression(expression@)
                &&& byte_len(document@) <= MAX_DOCUMENT_BYTES
                &&& search_result(outcome) == jmespath_finds(expression@, document@)
            },
            None => !plain_expression(expression@) || byte_len(document@) > MAX_DOCUMENT_BYTES,
        },
{
    if is_plain(expression) && byte_size(document) <= MAX_DOCUMENT_BYTES {
        Some(search_text(expression, document))
    } else {
        None
    }
}

} // verus!
