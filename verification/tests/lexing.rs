use bad::lex::{lex, try_lex, CommentStyle, LineWhitespaceStyle, TokenList, TokenName};
use bad::state::CompilationConfiguration;

fn lex_str(source: &str) -> TokenList {
    let config = CompilationConfiguration::default();
    lex(String::from("main.b"), String::from(source), &config)
}

fn kinds(list: &TokenList) -> Vec<TokenName> {
    list.tokens.iter().map(|t| t.name).collect()
}

fn texts(list: &TokenList) -> Vec<String> {
    list.tokens.iter().map(|t| t.span.text(&list.context).to_string()).collect()
}

#[test]
fn maximal_munch_prefers_plus_plus() {
    let list = lex_str("x++ +y");
    assert_eq!(
        kinds(&list),
        vec![
            TokenName::Identifier,
            TokenName::PlusPlus,
            TokenName::Whitespace,
            TokenName::Plus,
            TokenName::Identifier,
        ]
    );
    assert_eq!(texts(&list), vec!["x", "++", " ", "+", "y"]);
    assert!(list.diagnostics.is_empty());
}

#[test]
fn keyword_prefix_of_identifier_is_identifier() {
    let list = lex_str("ifx");
    assert_eq!(kinds(&list), vec![TokenName::Identifier]);
    assert_eq!(texts(&list), vec!["ifx"]);
}

#[test]
fn keyword_before_parenthesis_is_keyword() {
    let list = lex_str("if(x)");
    assert_eq!(
        kinds(&list),
        vec![
            TokenName::If,
            TokenName::LeftParen,
            TokenName::Identifier,
            TokenName::RightParen,
        ]
    );
    assert_eq!(texts(&list), vec!["if", "(", "x", ")"]);
}

#[test]
fn every_keyword_is_recognized() {
    let list = lex_str("if auto extrn case while switch goto return");
    let words: Vec<TokenName> =
        kinds(&list).into_iter().filter(|k| *k != TokenName::Whitespace).collect();
    assert_eq!(
        words,
        vec![
            TokenName::If,
            TokenName::Auto,
            TokenName::Extrn,
            TokenName::Case,
            TokenName::While,
            TokenName::Switch,
            TokenName::Goto,
            TokenName::Return,
        ]
    );
}

#[test]
fn keywords_inside_longer_words_are_identifiers() {
    let list = lex_str("auto1 _if returns Switch gotos i");
    let words: Vec<TokenName> =
        kinds(&list).into_iter().filter(|k| *k != TokenName::Whitespace).collect();
    assert_eq!(words, vec![TokenName::Identifier; 6]);
}

#[test]
fn less_than_equals_is_one_token() {
    let list = lex_str("<=");
    assert_eq!(kinds(&list), vec![TokenName::LessThanEquals]);
    assert_eq!(list.tokens[0].span.range(&list.context), (0, 2));
}

#[test]
fn shift_between_identifiers() {
    let list = lex_str("a<<b");
    assert_eq!(
        kinds(&list),
        vec![TokenName::Identifier, TokenName::LessThanLessThan, TokenName::Identifier]
    );
}

#[test]
fn two_byte_punctuators_win_over_their_prefixes() {
    let list = lex_str("++--==!=<=<<>=>>");
    assert_eq!(
        kinds(&list),
        vec![
            TokenName::PlusPlus,
            TokenName::MinusMinus,
            TokenName::EqualsEquals,
            TokenName::ExclamationEquals,
            TokenName::LessThanEquals,
            TokenName::LessThanLessThan,
            TokenName::GreaterThanEquals,
            TokenName::GreaterThanGreaterThan,
        ]
    );
}

#[test]
fn single_byte_punctuators() {
    let list = lex_str("(){};,\"+-!&|=<>%*/");
    assert_eq!(
        kinds(&list),
        vec![
            TokenName::LeftParen,
            TokenName::RightParen,
            TokenName::LeftBrace,
            TokenName::RightBrace,
            TokenName::Semicolon,
            TokenName::Comma,
            TokenName::Quote,
            TokenName::Plus,
            TokenName::Minus,
            TokenName::Exclamation,
            TokenName::Ampersand,
            TokenName::VerticalBar,
            TokenName::Equals,
            TokenName::LessThan,
            TokenName::GreaterThan,
            TokenName::Percent,
            TokenName::Asterisks,
            TokenName::ForwardSlash,
        ]
    );
}

#[test]
fn three_pluses_are_two_tokens() {
    let list = lex_str("+++");
    assert_eq!(kinds(&list), vec![TokenName::PlusPlus, TokenName::Plus]);
}

#[test]
fn newline_tracking_moves_to_next_line() {
    let list = lex_str("a\nb");
    assert_eq!(
        kinds(&list),
        vec![
            TokenName::Identifier,
            TokenName::LineWhitespace(LineWhitespaceStyle::LineFeed),
            TokenName::Identifier,
        ]
    );
    assert_eq!(list.tokens[2].span.coords(&list.context), (1, 0));
    assert_eq!(list.tokens[2].span.line_number(&list.context), 1);
    assert_eq!(list.tokens[2].span.col_number(&list.context), 0);
    assert_eq!(list.tokens[1].span.coords(&list.context), (0, 1));
}

#[test]
fn carriage_return_line_feed_is_one_token() {
    let list = lex_str("a\r\nb\rc");
    assert_eq!(
        kinds(&list),
        vec![
            TokenName::Identifier,
            TokenName::LineWhitespace(LineWhitespaceStyle::CarriageReturnLineFeed),
            TokenName::Identifier,
            TokenName::LineWhitespace(LineWhitespaceStyle::CarriageReturn),
            TokenName::Identifier,
        ]
    );
    // Only the line feed starts a new line; a carriage return is one column.
    assert_eq!(list.tokens[2].span.coords(&list.context), (1, 0));
    assert_eq!(list.tokens[4].span.coords(&list.context), (1, 2));
}

#[test]
fn auto_statement_scenario() {
    let source = "auto x, y; x = 1 + 2;";
    let list = lex_str(source);
    assert_eq!(
        kinds(&list),
        vec![
            TokenName::Auto,
            TokenName::Whitespace,
            TokenName::Identifier,
            TokenName::Comma,
            TokenName::Whitespace,
            TokenName::Identifier,
            TokenName::Semicolon,
            TokenName::Whitespace,
            TokenName::Identifier,
            TokenName::Whitespace,
            TokenName::Equals,
            TokenName::Whitespace,
            TokenName::Number,
            TokenName::Whitespace,
            TokenName::Plus,
            TokenName::Whitespace,
            TokenName::Number,
            TokenName::Semicolon,
        ]
    );
    assert_eq!(
        texts(&list),
        vec![
            "auto", " ", "x", ",", " ", "y", ";", " ", "x", " ", "=", " ", "1", " ", "+", " ", "2",
            ";"
        ]
    );
    assert_eq!(texts(&list).concat(), source);
    assert_eq!(list.tokens.last().unwrap().span.range(&list.context), (20, 21));
    assert!(list.diagnostics.is_empty());
}

#[test]
fn unterminated_block_comment_is_one_error_token() {
    let source = "/* unterminated";
    let list = lex_str(source);
    assert_eq!(kinds(&list), vec![TokenName::Error]);
    assert_eq!(list.tokens[0].span.range(&list.context), (0, source.len()));
    assert_eq!(list.diagnostics.len(), 1);
    assert_eq!(list.diagnostics[0].text, source);
    assert_eq!(list.diagnostics[0].span, list.tokens[0].span);
}

#[test]
fn unterminated_block_comment_after_code() {
    let list = lex_str("x /*/ y\n z *");
    assert_eq!(
        kinds(&list),
        vec![TokenName::Identifier, TokenName::Whitespace, TokenName::Error]
    );
    assert_eq!(list.tokens[2].span.range(&list.context), (2, 12));
}

#[test]
fn block_comment_ends_at_first_close() {
    let list = lex_str("/* a * b **/*/");
    assert_eq!(
        kinds(&list),
        vec![
            TokenName::Comment(CommentStyle::Block),
            TokenName::Asterisks,
            TokenName::ForwardSlash,
        ]
    );
    assert_eq!(texts(&list)[0], "/* a * b **/");
    let list = lex_str("/**/");
    assert_eq!(kinds(&list), vec![TokenName::Comment(CommentStyle::Block)]);
}

#[test]
fn block_comment_may_span_lines() {
    let list = lex_str("/* a\nb */c");
    assert_eq!(kinds(&list), vec![TokenName::Comment(CommentStyle::Block), TokenName::Identifier]);
    assert_eq!(list.tokens[1].span.coords(&list.context), (1, 4));
}

#[test]
fn line_comment_stops_before_the_line_break() {
    let list = lex_str("x // note\r\ny");
    assert_eq!(
        kinds(&list),
        vec![
            TokenName::Identifier,
            TokenName::Whitespace,
            TokenName::Comment(CommentStyle::Line),
            TokenName::LineWhitespace(LineWhitespaceStyle::CarriageReturnLineFeed),
            TokenName::Identifier,
        ]
    );
    assert_eq!(texts(&list)[2], "// note");
    let list = lex_str("//");
    assert_eq!(kinds(&list), vec![TokenName::Comment(CommentStyle::Line)]);
}

#[test]
fn quoted_literal_with_escapes() {
    let list = lex_str("'a\\'b' 'c'");
    assert_eq!(
        kinds(&list),
        vec![TokenName::StringLiteral, TokenName::Whitespace, TokenName::StringLiteral]
    );
    assert_eq!(texts(&list), vec!["'a\\'b'", " ", "'c'"]);
    let list = lex_str("''");
    assert_eq!(kinds(&list), vec![TokenName::StringLiteral]);
    let list = lex_str("'\\\\'x");
    assert_eq!(kinds(&list), vec![TokenName::StringLiteral, TokenName::Identifier]);
}

#[test]
fn unterminated_literal_is_an_error_to_the_end() {
    let source = "x = 'abc; y";
    let list = lex_str(source);
    assert_eq!(
        kinds(&list),
        vec![
            TokenName::Identifier,
            TokenName::Whitespace,
            TokenName::Equals,
            TokenName::Whitespace,
            TokenName::Error,
        ]
    );
    assert_eq!(list.tokens[4].span.range(&list.context), (4, source.len()));
    assert_eq!(list.diagnostics.len(), 1);
    assert_eq!(list.diagnostics[0].text, "'abc; y");
    let list = lex_str("'a\\'");
    assert_eq!(kinds(&list), vec![TokenName::Error]);
    let list = lex_str("'a\\");
    assert_eq!(kinds(&list), vec![TokenName::Error]);
}

#[test]
fn backslash_before_line_feed_escapes_nothing() {
    let source = "'a\\\nb' c";
    let list = lex_str(source);
    assert_eq!(kinds(&list), vec![TokenName::Error]);
    assert_eq!(list.tokens[0].span.range(&list.context), (0, source.len()));
    // Any other character, of however many bytes, is escaped.
    let list = lex_str("'a\\\rb' '\\é' c");
    assert_eq!(
        kinds(&list),
        vec![
            TokenName::StringLiteral,
            TokenName::Whitespace,
            TokenName::StringLiteral,
            TokenName::Whitespace,
            TokenName::Identifier,
        ]
    );
}

#[test]
fn quote_as_last_byte_is_a_punctuator() {
    let list = lex_str("x'");
    assert_eq!(kinds(&list), vec![TokenName::Identifier, TokenName::SingleQuote]);
    assert!(list.diagnostics.is_empty());
}

#[test]
fn blanks_are_one_token() {
    let list = lex_str(" \t\x0c x");
    assert_eq!(kinds(&list), vec![TokenName::Whitespace, TokenName::Identifier]);
    assert_eq!(list.tokens[0].span.range(&list.context), (0, 4));
    assert_eq!(list.tokens[1].span.coords(&list.context), (0, 4));
}

#[test]
fn digits_then_letters_are_two_tokens() {
    let list = lex_str("12ab 007");
    assert_eq!(
        kinds(&list),
        vec![
            TokenName::Number,
            TokenName::Identifier,
            TokenName::Whitespace,
            TokenName::Number,
        ]
    );
    assert_eq!(texts(&list), vec!["12", "ab", " ", "007"]);
}

#[test]
fn unrecognized_byte_is_an_error_and_scanning_goes_on() {
    let list = lex_str("a@b#");
    assert_eq!(
        kinds(&list),
        vec![TokenName::Identifier, TokenName::Error, TokenName::Identifier, TokenName::Error]
    );
    assert_eq!(list.diagnostics.len(), 2);
    assert_eq!(list.diagnostics[0].text, "@");
    assert_eq!(list.diagnostics[0].span.range(&list.context), (1, 2));
    assert_eq!(list.diagnostics[1].text, "#");
    assert_eq!(list.diagnostics[1].span, list.tokens[3].span);
}

#[test]
fn unrecognized_character_of_several_bytes_is_one_error() {
    let list = lex_str("é€𝄞x");
    assert_eq!(
        kinds(&list),
        vec![TokenName::Error, TokenName::Error, TokenName::Error, TokenName::Identifier]
    );
    assert_eq!(texts(&list), vec!["é", "€", "𝄞", "x"]);
    assert_eq!(list.tokens[1].span.range(&list.context), (2, 5));
    assert_eq!(list.tokens[2].span.range(&list.context), (5, 9));
    // Columns count characters, not bytes.
    assert_eq!(list.tokens[3].span.coords(&list.context), (0, 3));
}

#[test]
fn columns_count_characters_inside_literals_and_comments() {
    let list = lex_str("'é' /* ü */ x");
    assert_eq!(
        kinds(&list),
        vec![
            TokenName::StringLiteral,
            TokenName::Whitespace,
            TokenName::Comment(CommentStyle::Block),
            TokenName::Whitespace,
            TokenName::Identifier,
        ]
    );
    assert_eq!(list.tokens[4].span.coords(&list.context), (0, 12));
    assert_eq!(list.tokens[4].span.range(&list.context), (14, 15));
}

#[test]
fn empty_source_has_no_tokens() {
    let list = lex_str("");
    assert!(list.tokens.is_empty());
    assert!(list.diagnostics.is_empty());
    assert_eq!(list.context.offset(), 0);
}

#[test]
fn spans_round_trip_to_the_source() {
    let source = "auto é;\n/* c */ 'q' 12\r\nreturn(x<<2) @";
    let list = lex_str(source);
    for token in &list.tokens {
        let (start, end) = token.span.range(&list.context);
        assert!(start <= end);
        assert!(end <= source.len());
        assert_eq!(token.span.text(&list.context), &source[start..end]);
    }
}

#[test]
fn tokens_cover_the_source_without_gaps() {
    let source = "auto é;\n/* c */ 'q' 12\r\nreturn(x<<2) @ 'open";
    let list = lex_str(source);
    assert_eq!(texts(&list).concat(), source);
    let mut expected_start = 0;
    for token in &list.tokens {
        let (start, end) = token.span.range(&list.context);
        assert_eq!(start, expected_start);
        assert!(start < end);
        expected_start = end;
    }
    assert_eq!(expected_start, source.len());
    assert_eq!(list.context.offset(), source.len());
}

#[test]
fn span_starts_never_decrease() {
    let list = lex_str("while (i < 10) { i = i + 1; }\n// done\n");
    let starts: Vec<usize> =
        list.tokens.iter().map(|t| t.span.range(&list.context).0).collect();
    for pair in starts.windows(2) {
        assert!(pair[0] <= pair[1]);
    }
}

#[test]
fn lex_keeps_path_and_source() {
    let list = lex_str("x");
    assert_eq!(list.context.path(), "main.b");
    assert_eq!(list.context.source(), "x");
}

#[test]
fn dump_is_made_only_when_asked_for() {
    let mut config = CompilationConfiguration::default();
    config.print_tokens = false;
    let list = lex(String::from("main.b"), String::from("x"), &config);
    assert_eq!(list.dump, None);
    config.print_tokens = true;
    let list = lex(String::from("main.b"), String::from("x"), &config);
    assert_eq!(list.dump, Some(String::from("[Identifier [1:1] \"x\"] ")));
}

#[test]
fn dump_of_a_line() {
    let list = lex_str("if x\n// c\n1");
    assert_eq!(
        list.dump.as_deref(),
        Some(
            "[Keyword if [1:1]] [Whitespace [1:3]] [Identifier [1:4] \"x\"] [Newline \\n [1:5]] \n\
             [Line Comment [2:1]] [Newline \\n [2:5]] \n\
             [Number [3:1] \"1\"] "
        )
    );
    assert_eq!(list.render(), list.dump.clone().unwrap());
}

#[test]
fn dump_shows_errors_with_their_text() {
    let list = lex_str("@");
    assert_eq!(list.dump.as_deref(), Some("[Unrecognized Token [1:1] \"@\"] "));
}

#[test]
fn diagnostic_message_format() {
    let list = lex_str("x\n  @");
    assert_eq!(list.diagnostics.len(), 1);
    assert_eq!(
        list.diagnostics[0].message(&list.context),
        "main.b:(2,3) - Error B1-0000 - Unrecognized token\n\tunrecognized input text during scanning/lexing of sequence '@'"
    );
}

#[test]
fn try_lex_scans_what_fits() {
    let config = CompilationConfiguration::default();
    let list = try_lex(String::from("main.b"), String::from("goto end;"), &config).unwrap();
    assert_eq!(
        kinds(&list),
        vec![
            TokenName::Goto,
            TokenName::Whitespace,
            TokenName::Identifier,
            TokenName::Semicolon,
        ]
    );
    assert_eq!(list.context.path(), "main.b");
    assert_eq!(list.context.offset(), 9);
}

#[test]
fn line_break_styles_have_their_bits() {
    assert_eq!(LineWhitespaceStyle::CarriageReturn.bits(), 1);
    assert_eq!(LineWhitespaceStyle::LineFeed.bits(), 2);
    assert_eq!(LineWhitespaceStyle::CarriageReturnLineFeed.bits(), 3);
}

#[test]
fn error_diagnostics_follow_the_error_tokens() {
    let list = lex_str("a $ 'b' ` /* c");
    let errors: Vec<_> = list
        .tokens
        .iter()
        .filter(|t| t.name == TokenName::Error)
        .map(|t| (t.span, t.span.text(&list.context).to_string()))
        .collect();
    let reported: Vec<_> =
        list.diagnostics.iter().map(|d| (d.span, d.text.clone())).collect();
    assert_eq!(errors, reported);
    assert_eq!(errors.len(), 3);
    assert_eq!(reported[2].1, "/* c");
}

#[test]
fn generated_sources_are_covered_token_by_token() {
    let alphabet = [
        "a", "if", "x1", "_", "9", " ", "\t", "\n", "\r", "'", "\\", "/", "*", "+", "-", "=", "<",
        ">", "!", "(", ")", "{", "}", ";", ",", "\"", "&", "|", "%", "@", "é", "€", "𝄞", "return",
        "//", "/*", "*/",
    ];
    let mut state: u64 = 0x2545_f491_4f6c_dd1d;
    for round in 0..300 {
        let mut source = String::new();
        let pieces = round % 23;
        for _ in 0..pieces {
            state = state.wrapping_mul(6364136223846793005).wrapping_add(1442695040888963407);
            let pick = ((state >> 33) as usize) % alphabet.len();
            source.push_str(alphabet[pick]);
        }
        let list = lex_str(&source);
        assert_eq!(texts(&list).concat(), source);
        let mut expected_start = 0;
        let mut errors = 0;
        for token in &list.tokens {
            let (start, end) = token.span.range(&list.context);
            assert_eq!(start, expected_start);
            assert!(start < end);
            expected_start = end;
            if token.name == TokenName::Error {
                errors += 1;
            }
            let before = &source[..start];
            let line = before.matches('\n').count() as u32;
            let col = match before.rfind('\n') {
                Some(at) => before[at + 1..].chars().count() as u32,
                None => before.chars().count() as u32,
            };
            assert_eq!(token.span.coords(&list.context), (line, col));
        }
        assert_eq!(expected_start, source.len());
        assert_eq!(list.diagnostics.len(), errors);
    }
}
