//! The scanning rules: what each kind of token matches at a place in the
//! source, which rule wins there, and the scanner that finds the winner.

use crate::lex::{CommentStyle, LineWhitespaceStyle, TokenName};
use crate::context::{lemma_boundary, lemma_boundary_after_ascii};
use vstd::prelude::*;
use vstd::utf8::*;

verus! {

/// The sets of bytes that the rules are built from.
#[derive(Debug, Clone, Copy, PartialEq, Eq)]
pub enum ByteClass {
    /// Letters, digits and the underscore.
    Word,
    /// The decimal digits.
    Digit,
    /// Space, tab and form feed.
    Blank,
    /// Everything but carriage return and line feed.
    LineContent,
    /// The trailing bytes of a multi-byte character.
    Continuation,
}

/// True for a letter or the underscore.
pub open spec fn is_word_start(b: u8) -> bool {
    (('a' as u8) <= b <= ('z' as u8)) || (('A' as u8) <= b <= ('Z' as u8)) || b == ('_' as u8)
}

impl ByteClass {
    /// True when `b` belongs to the class.
    pub open spec fn holds(self, b: u8) -> bool {
        match self {
            ByteClass::Word => is_word_start(b) || (('0' as u8) <= b <= ('9' as u8)),
            ByteClass::Digit => ('0' as u8) <= b <= ('9' as u8),
            ByteClass::Blank => b == (' ' as u8) || b == ('\t' as u8) || b == 0x0c,
            ByteClass::LineContent => b != ('\r' as u8) && b != ('\n' as u8),
            ByteClass::Continuation => 0x80 <= b <= 0xbf,
        }
    }

    /// Tests whether `b` belongs to the class.
    pub fn contains(&self, b: u8) -> (r: bool)
        ensures
            r == self.holds(b),
    {
        match self {
            ByteClass::Word => {
                (('a' as u8) <= b && b <= ('z' as u8)) || (('A' as u8) <= b && b <= ('Z' as u8)) || b == ('_' as u8) || (('0' as u8) <= b
                    && b <= ('9' as u8))
            },
            ByteClass::Digit => ('0' as u8) <= b && b <= ('9' as u8),
            ByteClass::Blank => b == (' ' as u8) || b == ('\t' as u8) || b == 0x0c,
            ByteClass::LineContent => b != ('\r' as u8) && b != ('\n' as u8),
            ByteClass::Continuation => 0x80 <= b && b <= 0xbf,
        }
    }
}

/// The end of the longest run of bytes of `class` that starts at `i`.
pub open spec fn run_end(s: Seq<u8>, i: int, class: ByteClass) -> int
    decreases s.len() - i,
{
    if 0 <= i < s.len() && class.holds(s[i]) {
        run_end(s, i + 1, class)
    } else {
        i
    }
}

/// What the end of a run is: everything before it belongs to the class, and
/// the byte there, if there is one, does not.
pub proof fn lemma_run_end(s: Seq<u8>, i: int, class: ByteClass)
    requires
        0 <= i <= s.len(),
    ensures
        i <= run_end(s, i, class) <= s.len(),
        forall|k: int| i <= k < run_end(s, i, class) ==> class.holds(#[trigger] s[k]),
        run_end(s, i, class) < s.len() ==> !class.holds(s[run_end(s, i, class)]),
    decreases s.len() - i,
{
    if i < s.len() && class.holds(s[i]) {
        lemma_run_end(s, i + 1, class);
    }
}

/// Finds the end of the longest run of bytes of `class` that starts at `i`.
pub fn scan_run(bytes: &[u8], i: usize, class: ByteClass) -> (end: usize)
    requires
        i <= bytes@.len(),
    ensures
        end == run_end(bytes@, i as int, class),
        i <= end <= bytes@.len(),
{
    let mut j = i;
    while j < bytes.len() && class.contains(bytes[j])
        invariant
            i <= j <= bytes@.len(),
            run_end(bytes@, j as int, class) == run_end(bytes@, i as int, class),
        decreases bytes@.len() - j,
    {
        j += 1;
    }
    j
}

/// True when the byte at `i` is `b`.
pub open spec fn at(s: Seq<u8>, i: int, b: u8) -> bool {
    0 <= i < s.len() && s[i] == b
}

/// The end of the quoted literal whose body starts at `j`: the offset just
/// behind the first quote that no backslash escapes. A backslash and the
/// character behind it form a pair that is skipped as a whole; a backslash
/// before a line feed, or as the last byte, forms none, and the literal does
/// not close.
pub open spec fn literal_close(s: Seq<u8>, j: int) -> Option<int>
    decreases s.len() - j,
{
    if j < 0 || j >= s.len() {
        None
    } else if s[j] == '\'' as u8 {
        Some(j + 1)
    } else if s[j] == '\\' as u8 {
        if j + 1 < s.len() && s[j + 1] != '\n' as u8 {
            literal_close(s, j + 2)
        } else {
            None
        }
    } else {
        literal_close(s, j + 1)
    }
}

/// The end of the block comment whose body starts at `j`: the offset just
/// behind the first `*/` found at or after `j`.
pub open spec fn comment_close(s: Seq<u8>, j: int) -> Option<int>
    decreases s.len() - j,
{
    if j < 0 || j + 1 >= s.len() {
        None
    } else if s[j] == '*' as u8 && s[j + 1] == '/' as u8 {
        Some(j + 2)
    } else {
        comment_close(s, j + 1)
    }
}

/// The length of a fixed spelling of one byte at `i`, or 0.
pub open spec fn one(s: Seq<u8>, i: int, a: u8) -> int {
    if at(s, i, a) {
        1
    } else {
        0
    }
}

/// The length of a fixed spelling of two bytes at `i`, or 0.
pub open spec fn two(s: Seq<u8>, i: int, a: u8, b: u8) -> int {
    if at(s, i, a) && at(s, i + 1, b) {
        2
    } else {
        0
    }
}

/// The length of what the error rule takes at `i`: an unterminated block
/// comment or an unterminated quoted literal up to the end of the input, and
/// otherwise one character, whatever it is.
pub open spec fn error_len(s: Seq<u8>, i: int) -> int {
    if !(0 <= i < s.len()) {
        0
    } else if at(s, i, '/' as u8) && at(s, i + 1, '*' as u8) && comment_close(s, i + 2).is_none() {
        s.len() - i
    } else if at(s, i, '\'' as u8) && literal_close(s, i + 1).is_none() {
        s.len() - i
    } else if s[i] <= 0x7f {
        1
    } else {
        run_end(s, i + 1, ByteClass::Continuation) - i
    }
}

/// The number of bytes that the rule for `kind` matches at `i`; 0 when the
/// rule does not match there.
pub open spec fn match_len(kind: TokenName, s: Seq<u8>, i: int) -> int {
    match kind {
        TokenName::If => if at(s, i, 'i' as u8) && at(s, i + 1, 'f' as u8) {
            2
        } else {
            0
        },
        TokenName::Auto => if at(s, i, 'a' as u8) && at(s, i + 1, 'u' as u8) && at(
            s,
            i + 2,
            't' as u8,
        ) && at(s, i + 3, 'o' as u8) {
            4
        } else {
            0
        },
        TokenName::Extrn => if at(s, i, 'e' as u8) && at(s, i + 1, 'x' as u8) && at(
            s,
            i + 2,
            't' as u8,
        ) && at(s, i + 3, 'r' as u8) && at(s, i + 4, 'n' as u8) {
            5
        } else {
            0
        },
        TokenName::Case => if at(s, i, 'c' as u8) && at(s, i + 1, 'a' as u8) && at(
            s,
            i + 2,
            's' as u8,
        ) && at(s, i + 3, 'e' as u8) {
            4
        } else {
            0
        },
        TokenName::While => if at(s, i, 'w' as u8) && at(s, i + 1, 'h' as u8) && at(
            s,
            i + 2,
            'i' as u8,
        ) && at(s, i + 3, 'l' as u8) && at(s, i + 4, 'e' as u8) {
            5
        } else {
            0
        },
        TokenName::Switch => if at(s, i, 's' as u8) && at(s, i + 1, 'w' as u8) && at(
            s,
            i + 2,
            'i' as u8,
        ) && at(s, i + 3, 't' as u8) && at(s, i + 4, 'c' as u8) && at(s, i + 5, 'h' as u8) {
            6
        } else {
            0
        },
        TokenName::Goto => if at(s, i, 'g' as u8) && at(s, i + 1, 'o' as u8) && at(
            s,
            i + 2,
            't' as u8,
        ) && at(s, i + 3, 'o' as u8) {
            4
        } else {
            0
        },
        TokenName::Return => if at(s, i, 'r' as u8) && at(s, i + 1, 'e' as u8) && at(
            s,
            i + 2,
            't' as u8,
        ) && at(s, i + 3, 'u' as u8) && at(s, i + 4, 'r' as u8) && at(s, i + 5, 'n' as u8) {
            6
        } else {
            0
        },
        TokenName::Identifier => if 0 <= i < s.len() && is_word_start(s[i]) {
            run_end(s, i + 1, ByteClass::Word) - i
        } else {
            0
        },
        TokenName::Number => if 0 <= i < s.len() {
            run_end(s, i, ByteClass::Digit) - i
        } else {
            0
        },
        TokenName::StringLiteral => if at(s, i, '\'' as u8) && literal_close(s, i + 1).is_some() {
            literal_close(s, i + 1).unwrap() - i
        } else {
            0
        },
        TokenName::Comment(CommentStyle::Line) => if at(s, i, '/' as u8) && at(
            s,
            i + 1,
            '/' as u8,
        ) {
            run_end(s, i + 2, ByteClass::LineContent) - i
        } else {
            0
        },
        TokenName::Comment(CommentStyle::Block) => if at(s, i, '/' as u8) && at(
            s,
            i + 1,
            '*' as u8,
        ) && comment_close(s, i + 2).is_some() {
            comment_close(s, i + 2).unwrap() - i
        } else {
            0
        },
        TokenName::PlusPlus => two(s, i, '+' as u8, '+' as u8),
        TokenName::MinusMinus => two(s, i, '-' as u8, '-' as u8),
        TokenName::EqualsEquals => two(s, i, '=' as u8, '=' as u8),
        TokenName::ExclamationEquals => two(s, i, '!' as u8, '=' as u8),
        TokenName::LessThanEquals => two(s, i, '<' as u8, '=' as u8),
        TokenName::LessThanLessThan => two(s, i, '<' as u8, '<' as u8),
        TokenName::GreaterThanEquals => two(s, i, '>' as u8, '=' as u8),
        TokenName::GreaterThanGreaterThan => two(s, i, '>' as u8, '>' as u8),
        TokenName::LeftParen => one(s, i, '(' as u8),
        TokenName::RightParen => one(s, i, ')' as u8),
        TokenName::LeftBrace => one(s, i, '{' as u8),
        TokenName::RightBrace => one(s, i, '}' as u8),
        TokenName::Semicolon => one(s, i, ';' as u8),
        TokenName::Comma => one(s, i, ',' as u8),
        TokenName::SingleQuote => one(s, i, '\'' as u8),
        TokenName::Quote => one(s, i, '"' as u8),
        TokenName::Plus => one(s, i, '+' as u8),
        TokenName::Minus => one(s, i, '-' as u8),
        TokenName::Exclamation => one(s, i, '!' as u8),
        TokenName::Ampersand => one(s, i, '&' as u8),
        TokenName::VerticalBar => one(s, i, '|' as u8),
        TokenName::Equals => one(s, i, '=' as u8),
        TokenName::LessThan => one(s, i, '<' as u8),
        TokenName::GreaterThan => one(s, i, '>' as u8),
        TokenName::Percent => one(s, i, '%' as u8),
        TokenName::Asterisks => one(s, i, '*' as u8),
        TokenName::ForwardSlash => one(s, i, '/' as u8),
        TokenName::Whitespace => if 0 <= i < s.len() {
            run_end(s, i, ByteClass::Blank) - i
        } else {
            0
        },
        TokenName::LineWhitespace(LineWhitespaceStyle::CarriageReturnLineFeed) => two(
            s,
            i,
            '\r' as u8,
            '\n' as u8,
        ),
        TokenName::LineWhitespace(LineWhitespaceStyle::CarriageReturn) => one(s, i, '\r' as u8),
        TokenName::LineWhitespace(LineWhitespaceStyle::LineFeed) => one(s, i, '\n' as u8),
        TokenName::Error => error_len(s, i),
    }
}

/// The precedence of a rule: of two rules that match the same number of
/// bytes, the one with the smaller rank wins. Keywords come first, then
/// identifiers, numbers, quoted literals, comments, the punctuators of two
/// bytes, those of one, blanks, line breaks, and the error rule last.
pub open spec fn rank(kind: TokenName) -> int {
    match kind {
        TokenName::If => 0,
        TokenName::Auto => 1,
        TokenName::Extrn => 2,
        TokenName::Case => 3,
        TokenName::While => 4,
        TokenName::Switch => 5,
        TokenName::Goto => 6,
        TokenName::Return => 7,
        TokenName::Identifier => 8,
        TokenName::Number => 9,
        TokenName::StringLiteral => 10,
        TokenName::Comment(CommentStyle::Line) => 11,
        TokenName::Comment(CommentStyle::Block) => 12,
        TokenName::PlusPlus => 13,
        TokenName::MinusMinus => 14,
        TokenName::EqualsEquals => 15,
        TokenName::ExclamationEquals => 16,
        TokenName::LessThanEquals => 17,
        TokenName::LessThanLessThan => 18,
        TokenName::GreaterThanEquals => 19,
        TokenName::GreaterThanGreaterThan => 20,
        TokenName::LeftParen => 21,
        TokenName::RightParen => 22,
        TokenName::LeftBrace => 23,
        TokenName::RightBrace => 24,
        TokenName::Semicolon => 25,
        TokenName::Comma => 26,
        TokenName::SingleQuote => 27,
        TokenName::Quote => 28,
        TokenName::Plus => 29,
        TokenName::Minus => 30,
        TokenName::Exclamation => 31,
        TokenName::Ampersand => 32,
        TokenName::VerticalBar => 33,
        TokenName::Equals => 34,
        TokenName::LessThan => 35,
        TokenName::GreaterThan => 36,
        TokenName::Percent => 37,
        TokenName::Asterisks => 38,
        TokenName::ForwardSlash => 39,
        TokenName::Whitespace => 40,
        TokenName::LineWhitespace(LineWhitespaceStyle::CarriageReturnLineFeed) => 41,
        TokenName::LineWhitespace(LineWhitespaceStyle::CarriageReturn) => 42,
        TokenName::LineWhitespace(LineWhitespaceStyle::LineFeed) => 43,
        TokenName::Error => 44,
    }
}

/// True when the rule for `kind` is the one that scanning takes at `i`: it
/// matches there, no rule matches more bytes, and among the rules that match
/// as many it has the highest precedence.
pub open spec fn wins(kind: TokenName, s: Seq<u8>, i: int) -> bool {
    &&& match_len(kind, s, i) > 0
    &&& forall|other: TokenName|
        {
            let m = #[trigger] match_len(other, s, i);
            m < match_len(kind, s, i) || (m == match_len(kind, s, i) && rank(kind) <= rank(other))
        }
}

/// At most one rule wins at a place.
pub proof fn lemma_winner_unique(a: TokenName, b: TokenName, s: Seq<u8>, i: int)
    requires
        wins(a, s, i),
        wins(b, s, i),
    ensures
        a == b,
{
    assert(match_len(a, s, i) == match_len(b, s, i));
    assert(rank(a) == rank(b));
}

/// The error rule matches at every place inside the input: no place is
/// without a rule that matches.
pub proof fn lemma_some_rule_matches(s: Seq<u8>, i: int)
    requires
        0 <= i < s.len(),
    ensures
        match_len(TokenName::Error, s, i) > 0,
{
    lemma_run_end(s, i + 1, ByteClass::Continuation);
}

/// Tests whether the byte at `i` is `b`.
pub fn byte_is(bytes: &[u8], i: usize, b: u8) -> (r: bool)
    ensures
        r == at(bytes@, i as int, b),
{
    i < bytes.len() && bytes[i] == b
}

/// Finds the end of the quoted literal whose body starts at `j`.
pub fn find_literal_close(bytes: &[u8], j: usize) -> (end: Option<usize>)
    requires
        j <= bytes@.len(),
    ensures
        end.is_some() == literal_close(bytes@, j as int).is_some(),
        end.is_some() ==> end.unwrap() == literal_close(bytes@, j as int).unwrap() && j < end.unwrap()
            <= bytes@.len(),
{
    let mut k = j;
    while k < bytes.len()
        invariant
            j <= k <= bytes@.len(),
            literal_close(bytes@, k as int) == literal_close(bytes@, j as int),
        decreases bytes@.len() - k,
    {
        let b = bytes[k];
        if b == '\'' as u8 {
            return Some(k + 1);
        } else if b == '\\' as u8 {
            if k + 1 < bytes.len() && bytes[k + 1] != '\n' as u8 {
                k += 2;
            } else {
                return None;
            }
        } else {
            k += 1;
        }
    }
    None
}

/// Finds the end of the block comment whose body starts at `j`.
pub fn find_comment_close(bytes: &[u8], j: usize) -> (end: Option<usize>)
    requires
        j <= bytes@.len(),
    ensures
        end.is_some() == comment_close(bytes@, j as int).is_some(),
        end.is_some() ==> end.unwrap() == comment_close(bytes@, j as int).unwrap() && j + 1
            < end.unwrap() <= bytes@.len(),
{
    let mut k = j;
    while k < bytes.len() && k + 1 < bytes.len()
        invariant
            j <= k <= bytes@.len(),
            comment_close(bytes@, k as int) == comment_close(bytes@, j as int),
        decreases bytes@.len() - k,
    {
        if bytes[k] == '*' as u8 && bytes[k + 1] == '/' as u8 {
            return Some(k + 2);
        }
        k += 1;
    }
    None
}

/// True for the kinds that are keywords.
pub open spec fn is_keyword(kind: TokenName) -> bool {
    rank(kind) < rank(TokenName::Identifier)
}

/// Finds the keyword that is spelled by the `n` bytes at `i`, if any; `n`
/// is at least 1.
pub fn keyword(bytes: &[u8], i: usize, n: usize) -> (found: Option<TokenName>)
    requires
        1 <= n,
        i + n <= bytes@.len(),
    ensures
        match found {
            Some(kind) => is_keyword(kind) && match_len(kind, bytes@, i as int) == n,
            None => forall|kind: TokenName|
                is_keyword(kind) ==> #[trigger] match_len(kind, bytes@, i as int) != n,
        },
{
    if n < 2 || n > 6 {
        return None;
    }
    let a = bytes[i];
    let b = bytes[i + 1];
    if n == 2 {
        if a == 'i' as u8 && b == 'f' as u8 {
            return Some(TokenName::If);
        }
        return None;
    }
    if n == 3 {
        return None;
    }
    let c = bytes[i + 2];
    let d = bytes[i + 3];
    if n == 4 {
        if a == 'a' as u8 && b == 'u' as u8 && c == 't' as u8 && d == 'o' as u8 {
            return Some(TokenName::Auto);
        }
        if a == 'c' as u8 && b == 'a' as u8 && c == 's' as u8 && d == 'e' as u8 {
            return Some(TokenName::Case);
        }
        if a == 'g' as u8 && b == 'o' as u8 && c == 't' as u8 && d == 'o' as u8 {
            return Some(TokenName::Goto);
        }
        return None;
    }
    let e = bytes[i + 4];
    if n == 5 {
        if a == 'e' as u8 && b == 'x' as u8 && c == 't' as u8 && d == 'r' as u8 && e == 'n' as u8 {
            return Some(TokenName::Extrn);
        }
        if a == 'w' as u8 && b == 'h' as u8 && c == 'i' as u8 && d == 'l' as u8 && e == 'e' as u8 {
            return Some(TokenName::While);
        }
        return None;
    }
    let f = bytes[i + 5];
    if a == 's' as u8 && b == 'w' as u8 && c == 'i' as u8 && d == 't' as u8 && e == 'c' as u8 && f
        == 'h' as u8 {
        return Some(TokenName::Switch);
    }
    if a == 'r' as u8 && b == 'e' as u8 && c == 't' as u8 && d == 'u' as u8 && e == 'r' as u8 && f
        == 'n' as u8 {
        return Some(TokenName::Return);
    }
    None
}

/// True when no character can straddle the offset `e`: it is the end of the
/// input, or the byte before it is a character of its own, or the byte at it
/// does not continue a character.
pub open spec fn ends_cleanly(s: Seq<u8>, e: int) -> bool {
    0 < e <= s.len() && (e == s.len() || s[e - 1] <= 0x7f || !ByteClass::Continuation.holds(s[e]))
}

/// In valid UTF-8 a clean end is a character boundary.
pub proof fn lemma_clean_end_is_boundary(s: Seq<u8>, e: int)
    requires
        valid_utf8(s),
        ends_cleanly(s, e),
    ensures
        is_char_boundary(s, e),
{
    if e < s.len() && s[e - 1] <= 0x7f {
        lemma_boundary_after_ascii(s, e - 1);
    } else {
        lemma_boundary(s, e);
    }
}

/// True when the token that starts at `i` is of `kind` and `len` bytes long.
pub open spec fn is_token_at(s: Seq<u8>, i: int, kind: TokenName, len: int) -> bool {
    wins(kind, s, i) && len == match_len(kind, s, i)
}

/// The punctuator that the single byte `b` spells when no second byte can
/// extend it.
fn plain_punctuator(b: u8) -> (found: Option<TokenName>)
    ensures
        match found {
            Some(kind) => b <= 0x7f && forall|s: Seq<u8>, i: int|
                0 <= i < s.len() && s[i] == b ==> is_token_at(s, i, kind, 1),
            None => b != '(' as u8 && b != ')' as u8 && b != '{' as u8 && b != '}' as u8 && b
                != ';' as u8 && b != ',' as u8 && b != '"' as u8 && b != '&' as u8 && b
                != '|' as u8 && b != '%' as u8 && b != '*' as u8,
        },
{
    if b == '(' as u8 {
        Some(TokenName::LeftParen)
    } else if b == ')' as u8 {
        Some(TokenName::RightParen)
    } else if b == '{' as u8 {
        Some(TokenName::LeftBrace)
    } else if b == '}' as u8 {
        Some(TokenName::RightBrace)
    } else if b == ';' as u8 {
        Some(TokenName::Semicolon)
    } else if b == ',' as u8 {
        Some(TokenName::Comma)
    } else if b == '"' as u8 {
        Some(TokenName::Quote)
    } else if b == '&' as u8 {
        Some(TokenName::Ampersand)
    } else if b == '|' as u8 {
        Some(TokenName::VerticalBar)
    } else if b == '%' as u8 {
        Some(TokenName::Percent)
    } else if b == '*' as u8 {
        Some(TokenName::Asterisks)
    } else {
        None
    }
}

/// The punctuator that starts with the byte `b` at `i` where a second byte
/// may extend it: the spelling of two bytes where it is there, else the one
/// of one byte.
fn extensible_punctuator(bytes: &[u8], i: usize, b: u8) -> (found: Option<(TokenName, usize)>)
    requires
        i < bytes@.len(),
        bytes@[i as int] == b,
    ensures
        match found {
            Some((kind, len)) => is_token_at(bytes@, i as int, kind, len as int) && 1 <= len
                && i + len <= bytes@.len() && ends_cleanly(bytes@, i + len),
            None => b != '+' as u8 && b != '-' as u8 && b != '=' as u8 && b != '!' as u8 && b
                != '<' as u8 && b != '>' as u8,
        },
{
    let len = bytes.len();
    if b == '+' as u8 {
        if byte_is(bytes, i + 1, '+' as u8) {
            Some((TokenName::PlusPlus, 2))
        } else {
            Some((TokenName::Plus, 1))
        }
    } else if b == '-' as u8 {
        if byte_is(bytes, i + 1, '-' as u8) {
            Some((TokenName::MinusMinus, 2))
        } else {
            Some((TokenName::Minus, 1))
        }
    } else if b == '=' as u8 {
        if byte_is(bytes, i + 1, '=' as u8) {
            Some((TokenName::EqualsEquals, 2))
        } else {
            Some((TokenName::Equals, 1))
        }
    } else if b == '!' as u8 {
        if byte_is(bytes, i + 1, '=' as u8) {
            Some((TokenName::ExclamationEquals, 2))
        } else {
            Some((TokenName::Exclamation, 1))
        }
    } else if b == '<' as u8 {
        if byte_is(bytes, i + 1, '=' as u8) {
            Some((TokenName::LessThanEquals, 2))
        } else if byte_is(bytes, i + 1, '<' as u8) {
            Some((TokenName::LessThanLessThan, 2))
        } else {
            Some((TokenName::LessThan, 1))
        }
    } else if b == '>' as u8 {
        if byte_is(bytes, i + 1, '=' as u8) {
            Some((TokenName::GreaterThanEquals, 2))
        } else if byte_is(bytes, i + 1, '>' as u8) {
            Some((TokenName::GreaterThanGreaterThan, 2))
        } else {
            Some((TokenName::GreaterThan, 1))
        }
    } else {
        None
    }
}

/// Scans a word: the longest run of letters, digits and underscores at `i`,
/// which is a keyword where it spells one and an identifier otherwise.
fn scan_word(bytes: &[u8], i: usize) -> (r: (TokenName, usize))
    requires
        i < bytes@.len(),
        is_word_start(bytes@[i as int]),
    ensures
        is_token_at(bytes@, i as int, r.0, r.1 as int),
        1 <= r.1,
        i + r.1 <= bytes@.len(),
        ends_cleanly(bytes@, i + r.1),
{
    let len = bytes.len();
    let end = scan_run(bytes, i + 1, ByteClass::Word);
    let n = end - i;
    proof {
        lemma_run_end(bytes@, i + 1, ByteClass::Word);
    }
    match keyword(bytes, i, n) {
        Some(kind) => (kind, n),
        None => (TokenName::Identifier, n),
    }
}

/// Scans what starts with a quote at `i`: a quoted literal where it is
/// closed; the quote alone where it is the last byte of the input; and an
/// error up to the end of the input otherwise.
fn scan_quoted(bytes: &[u8], i: usize) -> (r: (TokenName, usize))
    requires
        i < bytes@.len(),
        bytes@[i as int] == '\'' as u8,
    ensures
        is_token_at(bytes@, i as int, r.0, r.1 as int),
        1 <= r.1,
        i + r.1 <= bytes@.len(),
        ends_cleanly(bytes@, i + r.1),
{
    let len = bytes.len();
    match find_literal_close(bytes, i + 1) {
        Some(end) => {
            proof {
                lemma_literal_close(bytes@, i + 1);
            }
            (TokenName::StringLiteral, end - i)
        },
        None => {
            if i + 1 == len {
                (TokenName::SingleQuote, 1)
            } else {
                (TokenName::Error, len - i)
            }
        },
    }
}

/// Scans what starts with a slash at `i`: a comment, an unterminated block
/// comment (an error up to the end of the input), or the slash alone.
fn scan_slash(bytes: &[u8], i: usize) -> (r: (TokenName, usize))
    requires
        i < bytes@.len(),
        bytes@[i as int] == '/' as u8,
    ensures
        is_token_at(bytes@, i as int, r.0, r.1 as int),
        1 <= r.1,
        i + r.1 <= bytes@.len(),
        ends_cleanly(bytes@, i + r.1),
{
    let len = bytes.len();
    if byte_is(bytes, i + 1, '/' as u8) {
        let end = scan_run(bytes, i + 2, ByteClass::LineContent);
        proof {
            lemma_run_end(bytes@, i + 2, ByteClass::LineContent);
        }
        (TokenName::Comment(CommentStyle::Line), end - i)
    } else if byte_is(bytes, i + 1, '*' as u8) {
        match find_comment_close(bytes, i + 2) {
            Some(end) => {
                proof {
                    lemma_comment_close(bytes@, i + 2);
                }
                (TokenName::Comment(CommentStyle::Block), end - i)
            },
            None => (TokenName::Error, len - i),
        }
    } else {
        (TokenName::ForwardSlash, 1)
    }
}

/// Where a quoted literal closes, a quote stands just before.
pub proof fn lemma_literal_close(s: Seq<u8>, j: int)
    requires
        0 <= j,
        literal_close(s, j).is_some(),
    ensures
        j < literal_close(s, j).unwrap() <= s.len(),
        s[literal_close(s, j).unwrap() - 1] == '\'' as u8,
    decreases s.len() - j,
{
    if s[j] == '\'' as u8 {
    } else if s[j] == '\\' as u8 {
        lemma_literal_close(s, j + 2);
    } else {
        lemma_literal_close(s, j + 1);
    }
}

/// Where a block comment closes, `*/` stands just before.
pub proof fn lemma_comment_close(s: Seq<u8>, j: int)
    requires
        0 <= j,
        comment_close(s, j).is_some(),
    ensures
        j + 2 <= comment_close(s, j).unwrap() <= s.len(),
        s[comment_close(s, j).unwrap() - 2] == '*' as u8,
        s[comment_close(s, j).unwrap() - 1] == '/' as u8,
    decreases s.len() - j,
{
    if s[j] == '*' as u8 && s[j + 1] == '/' as u8 {
    } else {
        lemma_comment_close(s, j + 1);
    }
}

/// Scans the token that starts at `i`: the rule that wins there and the
/// number of bytes it matches. The token never ends inside a character.
pub fn next_token(bytes: &[u8], i: usize) -> (r: (TokenName, usize))
    requires
        i < bytes@.len(),
    ensures
        is_token_at(bytes@, i as int, r.0, r.1 as int),
        1 <= r.1,
        i + r.1 <= bytes@.len(),
        ends_cleanly(bytes@, i + r.1),
{
    let len = bytes.len();
    let b = bytes[i];
    if (b >= 'a' as u8 && b <= 'z' as u8) || (b >= 'A' as u8 && b <= 'Z' as u8) || b == '_' as u8 {
        return scan_word(bytes, i);
    }
    if ByteClass::Digit.contains(b) {
        let end = scan_run(bytes, i, ByteClass::Digit);
        proof {
            lemma_run_end(bytes@, i as int, ByteClass::Digit);
        }
        return (TokenName::Number, end - i);
    }
    if ByteClass::Blank.contains(b) {
        let end = scan_run(bytes, i, ByteClass::Blank);
        proof {
            lemma_run_end(bytes@, i as int, ByteClass::Blank);
        }
        return (TokenName::Whitespace, end - i);
    }
    if b == '\'' as u8 {
        return scan_quoted(bytes, i);
    }
    if b == '/' as u8 {
        return scan_slash(bytes, i);
    }
    if let Some(kind) = plain_punctuator(b) {
        return (kind, 1);
    }
    if let Some(found) = extensible_punctuator(bytes, i, b) {
        return found;
    }
    if b == '\r' as u8 {
        if byte_is(bytes, i + 1, '\n' as u8) {
            return (TokenName::LineWhitespace(LineWhitespaceStyle::CarriageReturnLineFeed), 2);
        }
        return (TokenName::LineWhitespace(LineWhitespaceStyle::CarriageReturn), 1);
    }
    if b == '\n' as u8 {
        return (TokenName::LineWhitespace(LineWhitespaceStyle::LineFeed), 1);
    }
    if b <= 0x7f {
        return (TokenName::Error, 1);
    }
    let end = scan_run(bytes, i + 1, ByteClass::Continuation);
    proof {
        lemma_run_end(bytes@, i + 1, ByteClass::Continuation);
    }
    (TokenName::Error, end - i)
}

/// A keyword is a whole word: where a keyword is the token, no letter, digit
/// or underscore follows it.
pub proof fn lemma_keyword_is_whole_word(kind: TokenName, s: Seq<u8>, i: int)
    requires
        is_keyword(kind),
        wins(kind, s, i),
    ensures
        i + match_len(kind, s, i) == s.len() || !ByteClass::Word.holds(s[i + match_len(kind, s, i)]),
{
    lemma_run_end(s, i + 1, ByteClass::Word);
    assert(match_len(TokenName::Identifier, s, i) <= match_len(kind, s, i));
}

/// A block comment that is never closed is an error that takes the rest of
/// the input.
pub proof fn lemma_unterminated_comment(s: Seq<u8>, i: int)
    requires
        at(s, i, '/' as u8),
        at(s, i + 1, '*' as u8),
        comment_close(s, i + 2).is_none(),
    ensures
        is_token_at(s, i, TokenName::Error, s.len() - i),
{
    lemma_run_end(s, i, ByteClass::Digit);
    lemma_run_end(s, i, ByteClass::Blank);
}

/// Of two punctuators that start alike the longer one is the token: `<=` is
/// never `<` and then `=`.
pub proof fn lemma_longer_punctuator_wins(s: Seq<u8>, i: int, short: TokenName, long: TokenName)
    requires
        match_len(short, s, i) == 1,
        match_len(long, s, i) == 2,
    ensures
        !wins(short, s, i),
{
}

} // verus!
