use bad::context::Context;
use bad::lex::{
    CommentStyle, Error, LineWhitespaceStyle, Token, TokenCategory, TokenList, TokenName,
};
use bad::scan::{
    byte_is, find_comment_close, find_literal_close, keyword, next_token, scan_run, ByteClass,
};
use bad::state::{CompilationConfiguration, VerbosityLevel, VerbosityLevels};
use bad::text::{digit_str, push_decimal};
use bad::{compile, parse, SyntaxTree};

fn category(name: TokenName) -> TokenCategory {
    let mut ctx = Context::new(String::from("p"), String::from(""));
    let span = ctx.next_span(0);
    Token { name, span }.categorize()
}

#[test]
fn categorize_words_and_literals() {
    assert_eq!(category(TokenName::Identifier), TokenCategory::Identifier);
    assert_eq!(category(TokenName::Number), TokenCategory::NumericLiteral);
    assert_eq!(category(TokenName::StringLiteral), TokenCategory::StringLiteral);
    assert_eq!(category(TokenName::Error), TokenCategory::Error);
}

#[test]
fn categorize_keywords() {
    for name in [
        TokenName::If,
        TokenName::Auto,
        TokenName::Extrn,
        TokenName::Case,
        TokenName::While,
        TokenName::Switch,
        TokenName::Goto,
        TokenName::Return,
    ] {
        assert_eq!(category(name), TokenCategory::Keyword);
    }
}

#[test]
fn categorize_punctuators() {
    for name in [
        TokenName::LeftParen,
        TokenName::RightParen,
        TokenName::LeftBrace,
        TokenName::RightBrace,
        TokenName::Semicolon,
        TokenName::Comma,
        TokenName::SingleQuote,
        TokenName::Quote,
        TokenName::Plus,
        TokenName::PlusPlus,
        TokenName::Minus,
        TokenName::MinusMinus,
        TokenName::Exclamation,
        TokenName::Ampersand,
        TokenName::VerticalBar,
        TokenName::Equals,
        TokenName::EqualsEquals,
        TokenName::ExclamationEquals,
        TokenName::LessThan,
        TokenName::LessThanLessThan,
        TokenName::LessThanEquals,
        TokenName::GreaterThan,
        TokenName::GreaterThanGreaterThan,
        TokenName::GreaterThanEquals,
        TokenName::Percent,
        TokenName::Asterisks,
        TokenName::ForwardSlash,
    ] {
        assert_eq!(category(name), TokenCategory::Punctuator);
    }
}

#[test]
fn categorize_whitespace_and_comments() {
    assert_eq!(category(TokenName::Whitespace), TokenCategory::Whitespace);
    assert_eq!(category(TokenName::Comment(CommentStyle::Line)), TokenCategory::Whitespace);
    assert_eq!(category(TokenName::Comment(CommentStyle::Block)), TokenCategory::Whitespace);
    for style in [
        LineWhitespaceStyle::CarriageReturn,
        LineWhitespaceStyle::LineFeed,
        LineWhitespaceStyle::CarriageReturnLineFeed,
    ] {
        assert_eq!(category(TokenName::LineWhitespace(style)), TokenCategory::LineWhitespace);
    }
}

#[test]
fn labels_of_token_kinds() {
    assert_eq!(TokenName::Identifier.label(), "Identifier");
    assert_eq!(TokenName::If.label(), "if");
    assert_eq!(TokenName::Return.label(), "return");
    assert_eq!(TokenName::LeftParen.label(), "Left Parenthesis");
    assert_eq!(TokenName::LessThanLessThan.label(), "Less Less Than");
    assert_eq!(TokenName::GreaterThanEquals.label(), "Greater than or Equals");
    assert_eq!(TokenName::Comment(CommentStyle::Line).label(), "Line Comment");
    assert_eq!(TokenName::Comment(CommentStyle::Block).label(), "Block Comment");
    assert_eq!(
        TokenName::LineWhitespace(LineWhitespaceStyle::CarriageReturn).label(),
        " Newline \\r"
    );
    assert_eq!(TokenName::LineWhitespace(LineWhitespaceStyle::LineFeed).label(), "Newline \\n");
    assert_eq!(
        TokenName::LineWhitespace(LineWhitespaceStyle::CarriageReturnLineFeed).label(),
        "Newline \\r\\n"
    );
    assert_eq!(TokenName::Error.label(), "Unrecognized Token");
}

#[test]
fn lexer_error_describes_itself() {
    assert_eq!(Error::UnrecognizedToken.code(), 0);
    assert_eq!(Error::UnrecognizedToken.describe(), "B1-0000 - Unrecognized token");
}

#[test]
fn new_token_list_is_empty() {
    let list = TokenList::new(String::from("a.b"), String::from("auto x;"));
    assert!(list.tokens.is_empty());
    assert!(list.diagnostics.is_empty());
    assert_eq!(list.dump, None);
    assert_eq!(list.context.path(), "a.b");
    assert_eq!(list.context.source(), "auto x;");
    assert_eq!(list.context.offset(), 0);
    assert_eq!(list.render(), "");
}

#[test]
fn verbosity_levels() {
    assert_eq!(VerbosityLevel::Silent.label(), "silent");
    assert_eq!(VerbosityLevel::Trace.label(), "trace");
    assert_eq!(VerbosityLevel::Debug.label(), "debug");
    assert_eq!(VerbosityLevel::Silent.level(), 0);
    assert_eq!(VerbosityLevel::Trace.level(), 1);
    assert_eq!(VerbosityLevel::Debug.level(), 2);
    let levels = VerbosityLevels::uniform(VerbosityLevel::Trace);
    assert_eq!(levels.lex_verbosity_level, VerbosityLevel::Trace);
    assert_eq!(levels.parse_verbosity_level, VerbosityLevel::Trace);
    assert_eq!(levels.parse_execute_verbosity_level, VerbosityLevel::Trace);
    assert_eq!(levels.generate_verbosity_level, VerbosityLevel::Trace);
}

#[test]
fn default_configuration() {
    let config = CompilationConfiguration::default();
    assert_eq!(config.verbosity_level, VerbosityLevel::Silent);
    assert_eq!(config.verbosity_levels.lex_verbosity_level, VerbosityLevel::Silent);
    assert!(config.print_tokens);
    assert!(config.print_ast);
}

#[test]
fn compile_gives_a_tree() {
    let config = CompilationConfiguration::default();
    let tree = compile(String::from("main.b"), String::from("main() { return(0); }"), &config);
    assert_eq!(tree, SyntaxTree {});
    let list = TokenList::new(String::from("main.b"), String::from(""));
    assert_eq!(parse(list, &config), SyntaxTree {});
}

#[test]
fn decimal_numerals() {
    let mut out = String::from("n=");
    push_decimal(&mut out, 0);
    assert_eq!(out, "n=0");
    let mut out = String::new();
    push_decimal(&mut out, 9);
    push_decimal(&mut out, 10);
    assert_eq!(out, "910");
    let mut out = String::new();
    push_decimal(&mut out, 4294967296);
    assert_eq!(out, "4294967296");
    let mut out = String::new();
    push_decimal(&mut out, u64::MAX);
    assert_eq!(out, "18446744073709551615");
    assert_eq!(digit_str(0), "0");
    assert_eq!(digit_str(7), "7");
    assert_eq!(digit_str(9), "9");
}

#[test]
fn byte_classes() {
    assert!(ByteClass::Word.contains(b'a'));
    assert!(ByteClass::Word.contains(b'Z'));
    assert!(ByteClass::Word.contains(b'_'));
    assert!(ByteClass::Word.contains(b'5'));
    assert!(!ByteClass::Word.contains(b'-'));
    assert!(ByteClass::Digit.contains(b'0'));
    assert!(!ByteClass::Digit.contains(b'a'));
    assert!(ByteClass::Blank.contains(b' '));
    assert!(ByteClass::Blank.contains(b'\t'));
    assert!(ByteClass::Blank.contains(0x0c));
    assert!(!ByteClass::Blank.contains(b'\n'));
    assert!(ByteClass::LineContent.contains(b'x'));
    assert!(!ByteClass::LineContent.contains(b'\r'));
    assert!(!ByteClass::LineContent.contains(b'\n'));
    assert!(ByteClass::Continuation.contains(0x80));
    assert!(ByteClass::Continuation.contains(0xbf));
    assert!(!ByteClass::Continuation.contains(0x7f));
    assert!(!ByteClass::Continuation.contains(0xc0));
}

#[test]
fn runs_and_closes() {
    let bytes = "abc12 x".as_bytes();
    assert_eq!(scan_run(bytes, 0, ByteClass::Word), 5);
    assert_eq!(scan_run(bytes, 0, ByteClass::Digit), 0);
    assert_eq!(scan_run(bytes, 3, ByteClass::Digit), 5);
    assert_eq!(scan_run(bytes, 7, ByteClass::Word), 7);
    assert!(byte_is(bytes, 5, b' '));
    assert!(!byte_is(bytes, 7, b' '));
    assert_eq!(find_literal_close("ab' c'".as_bytes(), 0), Some(3));
    assert_eq!(find_literal_close("a\\'b'".as_bytes(), 0), Some(5));
    assert_eq!(find_literal_close("a\\'".as_bytes(), 0), None);
    assert_eq!(find_literal_close("a\\".as_bytes(), 0), None);
    assert_eq!(find_literal_close("".as_bytes(), 0), None);
    assert_eq!(find_literal_close("a\\\n'".as_bytes(), 0), None);
    assert_eq!(find_literal_close("a\\\r'".as_bytes(), 0), Some(4));
    assert_eq!(find_comment_close(" a */ b */".as_bytes(), 0), Some(5));
    assert_eq!(find_comment_close("/".as_bytes(), 0), None);
    assert_eq!(find_comment_close("* /".as_bytes(), 0), None);
    assert_eq!(find_comment_close("**/".as_bytes(), 0), Some(3));
}

#[test]
fn keyword_lookup() {
    assert_eq!(keyword("if".as_bytes(), 0, 2), Some(TokenName::If));
    assert_eq!(keyword("x auto".as_bytes(), 2, 4), Some(TokenName::Auto));
    assert_eq!(keyword("extrn".as_bytes(), 0, 5), Some(TokenName::Extrn));
    assert_eq!(keyword("case".as_bytes(), 0, 4), Some(TokenName::Case));
    assert_eq!(keyword("while".as_bytes(), 0, 5), Some(TokenName::While));
    assert_eq!(keyword("switch".as_bytes(), 0, 6), Some(TokenName::Switch));
    assert_eq!(keyword("goto".as_bytes(), 0, 4), Some(TokenName::Goto));
    assert_eq!(keyword("return".as_bytes(), 0, 6), Some(TokenName::Return));
    assert_eq!(keyword("returns".as_bytes(), 0, 7), None);
    assert_eq!(keyword("retur".as_bytes(), 0, 5), None);
    assert_eq!(keyword("iff".as_bytes(), 0, 3), None);
    assert_eq!(keyword("i".as_bytes(), 0, 1), None);
}

#[test]
fn next_token_at_a_place() {
    let bytes = "x<=y".as_bytes();
    assert_eq!(next_token(bytes, 0), (TokenName::Identifier, 1));
    assert_eq!(next_token(bytes, 1), (TokenName::LessThanEquals, 2));
    assert_eq!(next_token(bytes, 2), (TokenName::Equals, 1));
    assert_eq!(next_token("/* a".as_bytes(), 0), (TokenName::Error, 4));
    assert_eq!(next_token("é".as_bytes(), 0), (TokenName::Error, 2));
}
