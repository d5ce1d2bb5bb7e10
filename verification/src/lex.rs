//! Tokens of the B language and the tokenizer that produces them.

use crate::context::{coords_text, is_scannable, push_coords, scannable, Context, Span};
use crate::scan::{is_keyword, is_token_at, next_token};
use crate::state::CompilationConfiguration;
use vstd::prelude::*;
use vstd::string::*;
use vstd::utf8::*;

verus! {

/// How a comment is written.
#[derive(Debug, Clone, Copy, PartialEq, Eq)]
pub enum CommentStyle {
    /// `// ...` up to the end of the line.
    Line,
    /// `/* ... */`.
    Block,
}

/// How a line break is written.
#[derive(Debug, Clone, Copy, PartialEq, Eq)]
pub enum LineWhitespaceStyle {
    CarriageReturn,
    LineFeed,
    CarriageReturnLineFeed,
}

impl LineWhitespaceStyle {
    /// The number that stands for the style: 1 for the carriage return
    /// plus 2 for the line feed, as far as each is there.
    pub open spec fn bits_view(self) -> int {
        match self {
            LineWhitespaceStyle::CarriageReturn => 1,
            LineWhitespaceStyle::LineFeed => 2,
            LineWhitespaceStyle::CarriageReturnLineFeed => 3,
        }
    }

    /// The number that stands for the style.
    pub fn bits(&self) -> (bits: u8)
        ensures
            bits == self.bits_view(),
    {
        match self {
            LineWhitespaceStyle::CarriageReturn => 0x01,
            LineWhitespaceStyle::LineFeed => 0x02,
            LineWhitespaceStyle::CarriageReturnLineFeed => 0x03,
        }
    }
}

/// The kind of a token.
#[derive(Debug, Clone, Copy, PartialEq, Eq)]
pub enum TokenName {
    Identifier,
    Number,
    StringLiteral,
    // Keywords
    If,
    Auto,
    Extrn,
    Case,
    While,
    Switch,
    Goto,
    Return,
    // Punctuators
    LeftParen,
    RightParen,
    LeftBrace,
    RightBrace,
    Semicolon,
    Comma,
    SingleQuote,
    Quote,
    Plus,
    PlusPlus,
    Minus,
    MinusMinus,
    Exclamation,
    Ampersand,
    VerticalBar,
    Equals,
    EqualsEquals,
    ExclamationEquals,
    LessThan,
    LessThanLessThan,
    LessThanEquals,
    GreaterThan,
    GreaterThanGreaterThan,
    GreaterThanEquals,
    Percent,
    Asterisks,
    ForwardSlash,
    Comment(CommentStyle),
    Whitespace,
    LineWhitespace(LineWhitespaceStyle),
    Error,
}

/// A token: what kind it is and where it stands.
#[derive(Debug, Clone, Copy)]
pub struct Token {
    pub name: TokenName,
    pub span: Span,
}

/// The coarse groups that tokens fall into, for diagnostics and printing.
#[derive(Debug, Clone, Copy, PartialEq, Eq)]
pub enum TokenCategory {
    Identifier,
    NumericLiteral,
    StringLiteral,
    Keyword,
    Punctuator,
    Whitespace,
    LineWhitespace,
    Error,
}

/// The group that a kind of token belongs to. Comments count as whitespace;
/// every kind that is neither a word, a literal, blank nor an error is a
/// punctuator.
pub open spec fn category_of(name: TokenName) -> TokenCategory {
    if is_keyword(name) {
        TokenCategory::Keyword
    } else {
        match name {
            TokenName::Identifier => TokenCategory::Identifier,
            TokenName::Number => TokenCategory::NumericLiteral,
            TokenName::StringLiteral => TokenCategory::StringLiteral,
            TokenName::Comment(_) | TokenName::Whitespace => TokenCategory::Whitespace,
            TokenName::LineWhitespace(_) => TokenCategory::LineWhitespace,
            TokenName::Error => TokenCategory::Error,
            _ => TokenCategory::Punctuator,
        }
    }
}

impl TokenName {
    /// The name of the kind as a reader sees it.
    pub open spec fn label_view(self) -> Seq<char> {
        match self {
            TokenName::Identifier => "Identifier"@,
            TokenName::Number => "Number"@,
            TokenName::StringLiteral => "StringLiteral"@,
            TokenName::If => "if"@,
            TokenName::Auto => "auto"@,
            TokenName::Extrn => "extrn"@,
            TokenName::Case => "case"@,
            TokenName::While => "while"@,
            TokenName::Switch => "switch"@,
            TokenName::Goto => "goto"@,
            TokenName::Return => "return"@,
            TokenName::LeftParen => "Left Parenthesis"@,
            TokenName::RightParen => "Right Parenthesis"@,
            TokenName::LeftBrace => "Left Brace"@,
            TokenName::RightBrace => "Right Brace"@,
            TokenName::Semicolon => "Semicolon"@,
            TokenName::Comma => "Comma"@,
            TokenName::SingleQuote => "Single Quotation Mark"@,
            TokenName::Quote => "Double Quotation Mark"@,
            TokenName::Plus => "Plus"@,
            TokenName::PlusPlus => "Plus Plus"@,
            TokenName::Minus => "Minus"@,
            TokenName::MinusMinus => "Minus Minus"@,
            TokenName::Exclamation => "Exclamation"@,
            TokenName::Ampersand => "Ampersand"@,
            TokenName::VerticalBar => "Vertical Bar"@,
            TokenName::Equals => "Equals"@,
            TokenName::EqualsEquals => "Equals Equals"@,
            TokenName::ExclamationEquals => "Exclamation Equals"@,
            TokenName::LessThan => "Less Than"@,
            TokenName::LessThanLessThan => "Less Less Than"@,
            TokenName::LessThanEquals => "Less Than or Equals"@,
            TokenName::GreaterThan => "Greater Than"@,
            TokenName::GreaterThanGreaterThan => "Greater Greater Than"@,
            TokenName::GreaterThanEquals => "Greater than or Equals"@,
            TokenName::Percent => "Percent"@,
            TokenName::Asterisks => "Asterisks"@,
            TokenName::ForwardSlash => "Forward Slash"@,
            TokenName::Whitespace => "Whitespace"@,
            TokenName::Comment(CommentStyle::Line) => "Line Comment"@,
            TokenName::Comment(CommentStyle::Block) => "Block Comment"@,
            TokenName::LineWhitespace(LineWhitespaceStyle::CarriageReturn) => " Newline \\r"@,
            TokenName::LineWhitespace(LineWhitespaceStyle::LineFeed) => "Newline \\n"@,
            TokenName::LineWhitespace(LineWhitespaceStyle::CarriageReturnLineFeed) => "Newline \\r\\n"@,
            TokenName::Error => "Unrecognized Token"@,
        }
    }

    /// The name of the kind as a reader sees it.
    pub fn label(&self) -> (text: &'static str)
        ensures
            text@ == self.label_view(),
    {
        match self {
            TokenName::Identifier => "Identifier",
            TokenName::Number => "Number",
            TokenName::StringLiteral => "StringLiteral",
            // Keywords
            TokenName::If => "if",
            TokenName::Auto => "auto",
            TokenName::Extrn => "extrn",
            TokenName::Case => "case",
            TokenName::While => "while",
            TokenName::Switch => "switch",
            TokenName::Goto => "goto",
            TokenName::Return => "return",
            // Punctuators
            TokenName::LeftParen => "Left Parenthesis",
            TokenName::RightParen => "Right Parenthesis",
            TokenName::LeftBrace => "Left Brace",
            TokenName::RightBrace => "Right Brace",
            TokenName::Semicolon => "Semicolon",
            TokenName::Comma => "Comma",
            TokenName::SingleQuote => "Single Quotation Mark",
            TokenName::Quote => "Double Quotation Mark",
            TokenName::Plus => "Plus",
            TokenName::PlusPlus => "Plus Plus",
            TokenName::Minus => "Minus",
            TokenName::MinusMinus => "Minus Minus",
            TokenName::Exclamation => "Exclamation",
            TokenName::Ampersand => "Ampersand",
            TokenName::VerticalBar => "Vertical Bar",
            TokenName::Equals => "Equals",
            TokenName::EqualsEquals => "Equals Equals",
            TokenName::ExclamationEquals => "Exclamation Equals",
            TokenName::LessThan => "Less Than",
            TokenName::LessThanLessThan => "Less Less Than",
            TokenName::LessThanEquals => "Less Than or Equals",
            TokenName::GreaterThan => "Greater Than",
            TokenName::GreaterThanGreaterThan => "Greater Greater Than",
            TokenName::GreaterThanEquals => "Greater than or Equals",
            TokenName::Percent => "Percent",
            TokenName::Asterisks => "Asterisks",
            TokenName::ForwardSlash => "Forward Slash",
            // Whitespace
            TokenName::Whitespace => "Whitespace",
            TokenName::Comment(style) => match style {
                CommentStyle::Line => "Line Comment",
                CommentStyle::Block => "Block Comment",
            },
            TokenName::LineWhitespace(style) => match style {
                LineWhitespaceStyle::CarriageReturn => " Newline \\r",
                LineWhitespaceStyle::LineFeed => "Newline \\n",
                LineWhitespaceStyle::CarriageReturnLineFeed => "Newline \\r\\n",
            },
            TokenName::Error => "Unrecognized Token",
        }
    }
}

impl Token {
    /// The group that this token belongs to.
    pub fn categorize(&self) -> (category: TokenCategory)
        ensures
            category == category_of(self.name),
    {
        match self.name {
            TokenName::Identifier => TokenCategory::Identifier,
            TokenName::Number => TokenCategory::NumericLiteral,
            TokenName::StringLiteral => TokenCategory::StringLiteral,
            // Keywords
            TokenName::If
            | TokenName::Auto
            | TokenName::Extrn
            | TokenName::Case
            | TokenName::While
            | TokenName::Switch
            | TokenName::Goto
            | TokenName::Return => TokenCategory::Keyword,
            // Punctuators
            TokenName::LeftParen
            | TokenName::RightParen
            | TokenName::LeftBrace
            | TokenName::RightBrace
            | TokenName::Semicolon
            | TokenName::Comma
            | TokenName::SingleQuote
            | TokenName::Quote
            | TokenName::Plus
            | TokenName::PlusPlus
            | TokenName::Minus
            | TokenName::MinusMinus
            | TokenName::Exclamation
            | TokenName::Ampersand
            | TokenName::VerticalBar
            | TokenName::Equals
            | TokenName::EqualsEquals
            | TokenName::ExclamationEquals
            | TokenName::LessThan
            | TokenName::LessThanLessThan
            | TokenName::LessThanEquals
            | TokenName::GreaterThan
            | TokenName::GreaterThanGreaterThan
            | TokenName::GreaterThanEquals
            | TokenName::Percent
            | TokenName::Asterisks
            | TokenName::ForwardSlash => TokenCategory::Punctuator,
            // Whitespace
            TokenName::Whitespace | TokenName::Comment(_) => TokenCategory::Whitespace,
            TokenName::LineWhitespace(_) => TokenCategory::LineWhitespace,
            TokenName::Error => TokenCategory::Error,
        }
    }
}

/// The errors of the tokenizer. Their codes start with B1.
#[derive(Debug, Clone, Copy, PartialEq, Eq)]
pub enum Error {
    UnrecognizedToken,
}

impl Error {
    /// The text of the error: its code and what it means.
    pub open spec fn describe_view(self) -> Seq<char> {
        match self {
            Error::UnrecognizedToken => "B1-0000 - Unrecognized token"@,
        }
    }

    /// The number of the error within the tokenizer's errors.
    pub fn code(&self) -> (code: u32)
        ensures
            code == 0,
    {
        match self {
            Error::UnrecognizedToken => 0x0000,
        }
    }

    /// The text of the error: its code and what it means.
    pub fn describe(&self) -> (text: &'static str)
        ensures
            text@ == self.describe_view(),
    {
        match self {
            Error::UnrecognizedToken => "B1-0000 - Unrecognized token",
        }
    }
}

/// What the tokenizer reports about a piece of input that it could not
/// recognize: the error, where it is, and the offending text.
#[derive(Debug, Clone)]
pub struct Diagnostic {
    pub kind: Error,
    pub span: Span,
    pub text: String,
}

/// The message of a diagnostic at `line` and `col` (counted from zero) of
/// the source at `path`, about the text `slice`.
pub open spec fn message_text(
    path: Seq<char>,
    line: int,
    col: int,
    kind: Error,
    slice: Seq<char>,
) -> Seq<char> {
    path + ":("@ + crate::text::decimal((line + 1) as nat) + ","@ + crate::text::decimal(
        (col + 1) as nat,
    ) + ") - Error "@ + kind.describe_view()
        + "\n\tunrecognized input text during scanning/lexing of sequence '"@ + slice + "'"@
}

impl Diagnostic {
    /// True when the diagnostic belongs to `ctx`: its span is one of the
    /// context's and its text is the text of that span.
    pub open spec fn belongs_to(&self, ctx: &Context) -> bool {
        ctx.owns(self.span) && self.text@ == decode_utf8(ctx.span_bytes(self.span))
    }

    /// The message that tells a reader of this diagnostic.
    pub fn message(&self, ctx: &Context) -> (text: String)
        requires
            ctx.owns(self.span),
        ensures
            text@ == message_text(
                ctx.path_view(),
                ctx.record(self.span).line,
                ctx.record(self.span).col,
                self.kind,
                self.text@,
            ),
    {
        let (line, col) = self.span.coords(ctx);
        let mut text = String::new();
        text.append(ctx.path());
        text.append(":(");
        crate::text::push_decimal(&mut text, line as u64 + 1);
        text.append(",");
        crate::text::push_decimal(&mut text, col as u64 + 1);
        text.append(") - Error ");
        text.append(self.kind.describe());
        text.append("\n\tunrecognized input text during scanning/lexing of sequence '");
        text.append(self.text.as_str());
        text.append("'");
        proof {
            assert(text@ =~= message_text(
                ctx.path_view(),
                ctx.record(self.span).line,
                ctx.record(self.span).col,
                self.kind,
                self.text@,
            ));
        }
        text
    }
}

/// The spans of the error tokens among `tokens`, in order.
pub open spec fn error_spans(tokens: Seq<Token>) -> Seq<Span>
    decreases tokens.len(),
{
    if tokens.len() == 0 {
        Seq::empty()
    } else if tokens.last().name == TokenName::Error {
        error_spans(tokens.drop_last()).push(tokens.last().span)
    } else {
        error_spans(tokens.drop_last())
    }
}

/// The tokens of one source text with the context that resolves their
/// spans, the diagnostics of the pieces that were not recognized, and, where
/// it was asked for, the printed form of the tokens.
#[derive(Debug)]
pub struct TokenList {
    pub tokens: Vec<Token>,
    pub context: Context,
    pub diagnostics: Vec<Diagnostic>,
    pub dump: Option<String>,
}

impl TokenList {
    /// True when the tokens tile the first `upto` bytes of the source: the
    /// k-th token holds the k-th span of the context, the first span starts
    /// at 0, every other span starts where the one before ends, the last one
    /// ends at `upto`, where the cursor stands, and each token is the one
    /// that the scanning rules give at the place where it starts.
    pub open spec fn tiles(&self, upto: int) -> bool {
        let s = self.context.bytes();
        let recs = self.context.records();
        &&& self.context.wf()
        &&& self.context.cursor().offset == upto
        &&& self.tokens@.len() == recs.len()
        &&& forall|k: int|
            0 <= k < recs.len() ==> {
                &&& (#[trigger] self.tokens@[k]).span.index() == k
                &&& recs[k].start == (if k == 0 {
                    0
                } else {
                    recs[k - 1].end
                })
                &&& is_token_at(s, recs[k].start, self.tokens@[k].name, recs[k].end - recs[k].start)
            }
        &&& (if recs.len() == 0 {
            upto == 0
        } else {
            recs.last().end == upto
        })
    }

    /// True when the diagnostics are those of the error tokens: one for
    /// each, in order, with the token's span and text.
    pub open spec fn reports_errors(&self) -> bool {
        &&& self.diagnostics@.len() == error_spans(self.tokens@).len()
        &&& forall|k: int|
            0 <= k < self.diagnostics@.len() ==> {
                &&& (#[trigger] self.diagnostics@[k]).span == error_spans(self.tokens@)[k]
                &&& self.diagnostics@[k].kind == Error::UnrecognizedToken
                &&& self.diagnostics@[k].belongs_to(&self.context)
            }
    }

    /// True when the list is the token stream of its whole source.
    pub open spec fn is_complete(&self) -> bool {
        self.tiles(self.context.bytes().len() as int) && self.reports_errors()
    }

    /// An empty list over the given path and source.
    pub fn new(path: String, source: String) -> (list: TokenList)
        requires
            scannable(source@),
        ensures
            list.tokens@.len() == 0,
            list.diagnostics@.len() == 0,
            list.dump.is_none(),
            list.context.path_view() == path@,
            list.context.source_view() == source@,
            list.tiles(0),
            list.reports_errors(),
    {
        TokenList {
            tokens: Vec::new(),
            context: Context::new(path, source),
            diagnostics: Vec::new(),
            dump: None,
        }
    }
}

/// The printed form of one token of kind `name` that starts at `line` and
/// `col` (counted from zero) and reads `text`: `[Kind [line:col] "text"]`,
/// without the text for blanks, comments and line breaks, and as
/// `[Keyword kind [line:col]]` for keywords. A space follows, and after a
/// line break a new line.
pub open spec fn token_text(name: TokenName, line: int, col: int, text: Seq<char>) -> Seq<char> {
    let place = coords_text(line, col);
    match category_of(name) {
        TokenCategory::Whitespace => "["@ + name.label_view() + " "@ + place + "]"@ + " "@,
        TokenCategory::LineWhitespace => "["@ + name.label_view() + " "@ + place + "]"@ + " "@
            + "\n"@,
        TokenCategory::Keyword => "[Keyword "@ + name.label_view() + " "@ + place + "]"@ + " "@,
        _ => "["@ + name.label_view() + " "@ + place + " \""@ + text + "\"]"@ + " "@,
    }
}

/// Appends the printed form of a token without its text: `open`, the
/// token's `label`, the place, and the closing bracket with a space.
fn push_terse(out: &mut String, open: &str, label: &str, line: u32, col: u32)
    ensures
        final(out)@ == old(out)@ + (open@ + label@ + " "@ + coords_text(line as int, col as int)
            + "]"@ + " "@),
{
    out.append(open);
    out.append(label);
    out.append(" ");
    push_coords(out, line, col);
    out.append("]");
    out.append(" ");
    proof {
        assert(out@ =~= old(out)@ + (open@ + label@ + " "@ + coords_text(line as int, col as int)
            + "]"@ + " "@));
    }
}

/// Appends the printed form of a token with its text.
fn push_quoting(out: &mut String, label: &str, line: u32, col: u32, slice: &str)
    ensures
        final(out)@ == old(out)@ + ("["@ + label@ + " "@ + coords_text(line as int, col as int)
            + " \""@ + slice@ + "\"]"@ + " "@),
{
    out.append("[");
    out.append(label);
    out.append(" ");
    push_coords(out, line, col);
    out.append(" \"");
    out.append(slice);
    out.append("\"]");
    out.append(" ");
    proof {
        assert(out@ =~= old(out)@ + ("["@ + label@ + " "@ + coords_text(line as int, col as int)
            + " \""@ + slice@ + "\"]"@ + " "@));
    }
}

/// The printed form of the first `k` of `tokens`, one after the other, with
/// places and texts as `ctx` resolves them.
pub open spec fn dump_text(tokens: Seq<Token>, ctx: &Context, k: int) -> Seq<char>
    decreases k,
{
    if k <= 0 {
        Seq::empty()
    } else {
        let token = tokens[k - 1];
        let record = ctx.record(token.span);
        dump_text(tokens, ctx, k - 1) + token_text(
            token.name,
            record.line,
            record.col,
            decode_utf8(ctx.span_bytes(token.span)),
        )
    }
}

impl TokenList {
    /// True when every token's span is one of the context's.
    pub open spec fn resolvable(&self) -> bool {
        &&& self.context.wf()
        &&& forall|k: int|
            0 <= k < self.tokens@.len() ==> self.context.owns((#[trigger] self.tokens@[k]).span)
    }

    /// The printed form of all the tokens.
    pub open spec fn dump_view(&self) -> Seq<char> {
        dump_text(self.tokens@, &self.context, self.tokens@.len() as int)
    }

    /// Prints the tokens, one after the other.
    pub fn render(&self) -> (text: String)
        requires
            self.resolvable(),
        ensures
            text@ == self.dump_view(),
    {
        let mut text = String::new();
        let mut k: usize = 0;
        while k < self.tokens.len()
            invariant
                0 <= k <= self.tokens@.len(),
                self.resolvable(),
                text@ == dump_text(self.tokens@, &self.context, k as int),
            decreases self.tokens@.len() - k,
        {
            let token = &self.tokens[k];
            let (line, col) = token.span.coords(&self.context);
            match token.categorize() {
                TokenCategory::Whitespace => {
                    push_terse(&mut text, "[", token.name.label(), line, col);
                },
                TokenCategory::LineWhitespace => {
                    push_terse(&mut text, "[", token.name.label(), line, col);
                    text.append("\n");
                },
                TokenCategory::Keyword => {
                    push_terse(&mut text, "[Keyword ", token.name.label(), line, col);
                },
                _ => {
                    let slice = token.span.text(&self.context);
                    push_quoting(&mut text, token.name.label(), line, col, slice);
                },
            }
            k += 1;
        }
        text
    }
}

/// The bytes of the first `k` of `tokens`, one token after the other.
pub open spec fn joined_bytes(tokens: Seq<Token>, ctx: &Context, k: int) -> Seq<u8>
    decreases k,
{
    if k <= 0 {
        Seq::empty()
    } else {
        joined_bytes(tokens, ctx, k - 1) + ctx.span_bytes(tokens[k - 1].span)
    }
}

/// The texts of the first `k` of `tokens`, one token after the other.
pub open spec fn joined_text(tokens: Seq<Token>, ctx: &Context, k: int) -> Seq<char>
    decreases k,
{
    if k <= 0 {
        Seq::empty()
    } else {
        joined_text(tokens, ctx, k - 1) + decode_utf8(ctx.span_bytes(tokens[k - 1].span))
    }
}

/// Where the first `k` spans of a tiling end.
pub open spec fn end_of(ctx: &Context, k: int) -> int {
    if k <= 0 {
        0
    } else {
        ctx.records()[k - 1].end
    }
}

/// The first `k` tokens of a tiling, joined, are the source up to the end of
/// the k-th: as bytes and as text.
pub proof fn lemma_joined_prefix(list: &TokenList, upto: int, k: int)
    requires
        list.tiles(upto),
        0 <= k <= list.tokens@.len(),
    ensures
        0 <= end_of(&list.context, k) <= list.context.bytes().len(),
        is_char_boundary(list.context.bytes(), end_of(&list.context, k)),
        joined_bytes(list.tokens@, &list.context, k) == list.context.bytes().subrange(
            0,
            end_of(&list.context, k),
        ),
        joined_text(list.tokens@, &list.context, k) == decode_utf8(
            list.context.bytes().subrange(0, end_of(&list.context, k)),
        ),
    decreases k,
{
    let ctx = &list.context;
    let s = ctx.bytes();
    encode_utf8_valid_utf8(ctx.source_view());
    if k == 0 {
        assert(s.subrange(0, 0) =~= Seq::<u8>::empty());
        is_char_boundary_start_end_of_seq(s);
    } else {
        lemma_joined_prefix(list, upto, k - 1);
        let token = list.tokens@[k - 1];
        let r = ctx.records()[k - 1];
        assert(token.span.index() == k - 1);
        assert(crate::context::is_record(s, r));
        assert(r.start == end_of(ctx, k - 1));
        let head = s.subrange(0, r.end);
        assert(head.subrange(0, r.start) =~= s.subrange(0, r.start));
        assert(head.subrange(r.start, head.len() as int) =~= ctx.span_bytes(token.span));
        assert(s.subrange(0, r.start) + ctx.span_bytes(token.span) =~= head);
        crate::context::lemma_boundary_in_prefix(s, r.start, r.end);
        decode_utf8_split(head, r.start);
    }
}

/// Joining the texts of all the tokens of a complete list, in order, gives
/// the source back exactly, with no gap and no overlap.
pub proof fn lemma_coverage(list: &TokenList)
    requires
        list.is_complete(),
    ensures
        joined_bytes(list.tokens@, &list.context, list.tokens@.len() as int)
            == list.context.bytes(),
        joined_text(list.tokens@, &list.context, list.tokens@.len() as int)
            == list.context.source_view(),
{
    let s = list.context.bytes();
    lemma_joined_prefix(list, s.len() as int, list.tokens@.len() as int);
    assert(s.subrange(0, s.len() as int) =~= s);
    encode_utf8_decode_utf8(list.context.source_view());
}

/// In a tiling a later token never starts before an earlier one, and never
/// before the earlier one ends.
pub proof fn lemma_starts_ascend(list: &TokenList, upto: int, j: int, k: int)
    requires
        list.tiles(upto),
        0 <= j < k < list.tokens@.len(),
    ensures
        list.context.records()[j].start < list.context.records()[j].end
            <= list.context.records()[k].start,
    decreases k - j,
{
    let recs = list.context.records();
    assert(list.tokens@[j].span.index() == j);
    assert(list.tokens@[k].span.index() == k);
    assert(list.tokens@[k - 1].span.index() == k - 1);
    if j + 1 < k {
        lemma_starts_ascend(list, upto, j, k - 1);
    }
}

/// Two tilings of the same text agree token by token as far as both go:
/// the same kinds over the same ranges.
pub proof fn lemma_tilings_agree(a: &TokenList, b: &TokenList, upto_a: int, upto_b: int, k: int)
    requires
        a.tiles(upto_a),
        b.tiles(upto_b),
        a.context.bytes() == b.context.bytes(),
        0 <= k < a.tokens@.len(),
        k < b.tokens@.len(),
    ensures
        a.tokens@[k].name == b.tokens@[k].name,
        a.context.records()[k] == b.context.records()[k],
    decreases k,
{
    let s = a.context.bytes();
    let ra = a.context.records()[k];
    let rb = b.context.records()[k];
    assert(a.tokens@[k].span.index() == k);
    assert(b.tokens@[k].span.index() == k);
    if k > 0 {
        lemma_tilings_agree(a, b, upto_a, upto_b, k - 1);
    }
    assert(ra.start == rb.start);
    crate::scan::lemma_winner_unique(a.tokens@[k].name, b.tokens@[k].name, s, ra.start);
    assert(crate::context::is_record(s, ra));
    assert(crate::context::is_record(s, rb));
}

/// The token stream of a text is unique: two complete lists over the same
/// text have the same tokens, kind for kind and range for range.
pub proof fn lemma_stream_unique(a: &TokenList, b: &TokenList)
    requires
        a.is_complete(),
        b.is_complete(),
        a.context.bytes() == b.context.bytes(),
    ensures
        a.tokens@.len() == b.tokens@.len(),
        forall|k: int|
            0 <= k < a.tokens@.len() ==> (#[trigger] a.tokens@[k]).name == b.tokens@[k].name
                && a.context.records()[k] == b.context.records()[k],
{
    let s = a.context.bytes();
    let n = s.len() as int;
    let la = a.tokens@.len() as int;
    let lb = b.tokens@.len() as int;
    assert forall|k: int| 0 <= k < la && k < lb implies (#[trigger] a.tokens@[k]).name
        == b.tokens@[k].name && a.context.records()[k] == b.context.records()[k] by {
        lemma_tilings_agree(a, b, n, n, k);
    }
    if la <= lb {
        lemma_no_more_tokens(a, b);
    } else {
        lemma_no_more_tokens(b, a);
    }
}

proof fn lemma_no_more_tokens(short: &TokenList, long: &TokenList)
    requires
        short.is_complete(),
        long.is_complete(),
        short.context.bytes() == long.context.bytes(),
        short.tokens@.len() <= long.tokens@.len(),
    ensures
        short.tokens@.len() == long.tokens@.len(),
{
    let s = short.context.bytes();
    let n = s.len() as int;
    let k = short.tokens@.len() as int;
    if k < long.tokens@.len() {
        let extra = long.context.records()[k];
        assert(long.tokens@[k].span.index() == k);
        assert(crate::context::is_record(s, extra));
        if k > 0 {
            lemma_tilings_agree(short, long, n, n, k - 1);
            assert(long.tokens@[k - 1].span.index() == k - 1);
        }
        assert(extra.start == n);
    }
}

/// Given the following source, parse it into a list of tokens.
///
/// The tokens cover the source from its first byte to its last, each one the
/// longest that the scanning rules allow at its place. A piece of input that
/// no rule recognizes becomes an error token with a diagnostic, and scanning
/// goes on behind it. If `config.print_tokens` is set, the list also holds
/// the printed form of the tokens.
pub fn lex(
    input_path: String,
    input_source: String,
    config: &CompilationConfiguration,
) -> (list: TokenList)
    requires
        scannable(input_source@),
    ensures
        list.context.path_view() == input_path@,
        list.context.source_view() == input_source@,
        list.is_complete(),
        joined_text(list.tokens@, &list.context, list.tokens@.len() as int) == input_source@,
        match list.dump {
            Some(text) => config.print_tokens && text@ == list.dump_view(),
            None => !config.print_tokens,
        },
{
    let mut list = TokenList::new(input_path, input_source);
    let len = list.context.source().len();
    proof {
        encode_utf8_valid_utf8(list.context.source_view());
    }
    while list.context.offset() < len
        invariant
            len == list.context.bytes().len(),
            valid_utf8(list.context.bytes()),
            list.context.path_view() == input_path@,
            list.context.source_view() == input_source@,
            list.tiles(list.context.cursor().offset),
            list.context.records().len() <= list.context.cursor().offset,
            list.reports_errors(),
            list.dump.is_none(),
        decreases len - list.context.cursor().offset,
    {
        let ghost before = list;
        let offset = list.context.offset();
        let (name, n) = next_token(list.context.source().as_bytes(), offset);
        proof {
            crate::scan::lemma_clean_end_is_boundary(list.context.bytes(), offset + n);
            crate::context::lemma_position_bounds(list.context.bytes(), offset + n);
        }
        let span = list.context.next_span(n);
        if let TokenName::Error = name {
            let text = span.text(&list.context).to_owned();
            list.diagnostics.push(Diagnostic { kind: Error::UnrecognizedToken, span, text });
        }
        list.tokens.push(Token { name, span });
        proof {
            assert(list.tokens@.drop_last() =~= before.tokens@);
            let recs = list.context.records();
            assert forall|k: int| 0 <= k < recs.len() implies {
                &&& (#[trigger] list.tokens@[k]).span.index() == k
                &&& recs[k].start == (if k == 0 {
                    0
                } else {
                    recs[k - 1].end
                })
                &&& is_token_at(
                    list.context.bytes(),
                    recs[k].start,
                    list.tokens@[k].name,
                    recs[k].end - recs[k].start,
                )
            } by {
                if k < recs.len() - 1 {
                    assert(list.tokens@[k] == before.tokens@[k]);
                    assert(recs[k] == before.context.records()[k]);
                }
            }
            assert forall|k: int| 0 <= k < list.diagnostics@.len() implies {
                &&& (#[trigger] list.diagnostics@[k]).span == error_spans(list.tokens@)[k]
                &&& list.diagnostics@[k].kind == Error::UnrecognizedToken
                &&& list.diagnostics@[k].belongs_to(&list.context)
            } by {
                if k < before.diagnostics@.len() {
                    assert(list.diagnostics@[k] == before.diagnostics@[k]);
                    assert(before.diagnostics@[k].belongs_to(&before.context));
                }
            }
        }
    }
    proof {
        lemma_coverage(&list);
    }
    if config.print_tokens {
        let text = list.render();
        list.dump = Some(text);
    }
    list
}

/// Scans the source as [`lex`] does where it is short enough, and gives
/// `None` where it is not.
pub fn try_lex(
    input_path: String,
    input_source: String,
    config: &CompilationConfiguration,
) -> (found: Option<TokenList>)
    ensures
        found.is_some() == scannable(input_source@),
        match found {
            Some(list) => {
                &&& list.context.path_view() == input_path@
                &&& list.context.source_view() == input_source@
                &&& list.is_complete()
                &&& joined_text(list.tokens@, &list.context, list.tokens@.len() as int)
                    == input_source@
                &&& match list.dump {
                    Some(text) => config.print_tokens && text@ == list.dump_view(),
                    None => !config.print_tokens,
                }
            },
            None => true,
        },
{
    if is_scannable(input_source.as_str()) {
        Some(lex(input_path, input_source, config))
    } else {
        None
    }
}

} // verus!
