use rlox::error_handler::ErrorHandler;
use rlox::scanner::{keywords, Scanner};
use rlox::token::{LiteralType, Token};
use rlox::token_type::TokenType;

fn to_number(text: String) -> u64 {
    text.parse::<f64>().unwrap().to_bits()
}

fn scan(source: &str) -> (Vec<Token>, ErrorHandler) {
    let mut errors = ErrorHandler::new();
    let mut scanner = Scanner::new(source.to_string(), &to_number);
    let tokens = scanner.scan_tokens(&mut errors).clone();
    (tokens, errors)
}

fn kinds(tokens: &Vec<Token>) -> Vec<TokenType> {
    tokens.iter().map(|t| t.token_type).collect()
}

#[test]
fn empty_source_gives_the_end_marker() {
    let (tokens, errors) = scan("");
    assert_eq!(tokens.len(), 1);
    assert_eq!(tokens[0], Token::new(TokenType::EOF, String::new(), LiteralType::Absent, 1));
    assert!(!errors.had_error);
    assert!(errors.diagnostics.is_empty());
}

#[test]
fn punctuation_of_one_character() {
    let (tokens, errors) = scan("(){},.-+;*?:/");
    assert_eq!(
        kinds(&tokens),
        vec![
            TokenType::LeftParen,
            TokenType::RightParen,
            TokenType::LeftBrace,
            TokenType::RightBrace,
            TokenType::Comma,
            TokenType::Dot,
            TokenType::Minus,
            TokenType::Plus,
            TokenType::Semicolon,
            TokenType::Star,
            TokenType::Question,
            TokenType::Colon,
            TokenType::Slash,
            TokenType::EOF,
        ]
    );
    assert_eq!(tokens[0].lexeme, "(");
    assert_eq!(tokens[12].lexeme, "/");
    assert!(!errors.had_error);
}

#[test]
fn operators_of_one_or_two_characters() {
    let (tokens, errors) = scan("! != = == < <= > >=");
    assert_eq!(
        kinds(&tokens),
        vec![
            TokenType::Bang,
            TokenType::BangEqual,
            TokenType::Equal,
            TokenType::EqualEqual,
            TokenType::Less,
            TokenType::LessEqual,
            TokenType::Greater,
            TokenType::GreaterEqual,
            TokenType::EOF,
        ]
    );
    assert_eq!(tokens[1].lexeme, "!=");
    assert_eq!(tokens[7].lexeme, ">=");
    assert!(!errors.had_error);
}

#[test]
fn operator_at_the_end_of_the_text() {
    let (tokens, _) = scan("<");
    assert_eq!(kinds(&tokens), vec![TokenType::Less, TokenType::EOF]);
    let (tokens, _) = scan("===");
    assert_eq!(kinds(&tokens), vec![TokenType::EqualEqual, TokenType::Equal, TokenType::EOF]);
}

#[test]
fn numbers_with_and_without_fraction() {
    let (tokens, errors) = scan("123 45.67 0.5");
    assert_eq!(kinds(&tokens), vec![TokenType::Number, TokenType::Number, TokenType::Number, TokenType::EOF]);
    assert_eq!(tokens[0].lexeme, "123");
    assert_eq!(tokens[0].literal, LiteralType::Number(123.0f64.to_bits()));
    assert_eq!(tokens[1].lexeme, "45.67");
    assert_eq!(tokens[1].literal, LiteralType::Number(45.67f64.to_bits()));
    assert_eq!(tokens[2].literal, LiteralType::Number(0.5f64.to_bits()));
    assert!(!errors.had_error);
}

#[test]
fn point_without_digit_after_it_is_not_part_of_the_number() {
    let (tokens, _) = scan("12.");
    assert_eq!(kinds(&tokens), vec![TokenType::Number, TokenType::Dot, TokenType::EOF]);
    assert_eq!(tokens[0].lexeme, "12");
    assert_eq!(tokens[0].literal, LiteralType::Number(12.0f64.to_bits()));
    let (tokens, _) = scan("1.2.3");
    assert_eq!(
        kinds(&tokens),
        vec![TokenType::Number, TokenType::Dot, TokenType::Number, TokenType::EOF]
    );
    assert_eq!(tokens[0].lexeme, "1.2");
    assert_eq!(tokens[2].lexeme, "3");
    let (tokens, _) = scan(".5");
    assert_eq!(kinds(&tokens), vec![TokenType::Dot, TokenType::Number, TokenType::EOF]);
}

#[test]
fn strings_carry_the_text_between_the_quotes() {
    let (tokens, errors) = scan("\"abc\" \"\"");
    assert_eq!(kinds(&tokens), vec![TokenType::String, TokenType::String, TokenType::EOF]);
    assert_eq!(tokens[0].lexeme, "\"abc\"");
    assert_eq!(tokens[0].literal, LiteralType::String("abc".to_string()));
    assert_eq!(tokens[1].lexeme, "\"\"");
    assert_eq!(tokens[1].literal, LiteralType::String(String::new()));
    assert!(!errors.had_error);
}

#[test]
fn string_over_several_lines_ends_on_its_last_line() {
    let (tokens, errors) = scan("\"a\nb\nc\" 1");
    assert_eq!(kinds(&tokens), vec![TokenType::String, TokenType::Number, TokenType::EOF]);
    assert_eq!(tokens[0].literal, LiteralType::String("a\nb\nc".to_string()));
    assert_eq!(tokens[0].line, 3);
    assert_eq!(tokens[1].line, 3);
    assert_eq!(tokens[2].line, 3);
    assert!(!errors.had_error);
}

#[test]
fn keywords_and_identifiers() {
    let (tokens, errors) = scan("and class else false for fun if nil or print return super this true var while foo _bar x1 classy");
    assert_eq!(
        kinds(&tokens),
        vec![
            TokenType::And,
            TokenType::Class,
            TokenType::Else,
            TokenType::False,
            TokenType::For,
            TokenType::Fun,
            TokenType::If,
            TokenType::Nil,
            TokenType::Or,
            TokenType::Print,
            TokenType::Return,
            TokenType::Super,
            TokenType::This,
            TokenType::True,
            TokenType::Var,
            TokenType::While,
            TokenType::Identifier,
            TokenType::Identifier,
            TokenType::Identifier,
            TokenType::Identifier,
            TokenType::EOF,
        ]
    );
    assert_eq!(tokens[17].lexeme, "_bar");
    assert_eq!(tokens[19].lexeme, "classy");
    assert_eq!(tokens[0].literal, LiteralType::Absent);
    assert!(!errors.had_error);
}

#[test]
fn keyword_table() {
    assert_eq!(keywords("and"), TokenType::And);
    assert_eq!(keywords("while"), TokenType::While);
    assert_eq!(keywords("nil"), TokenType::Nil);
    assert_eq!(keywords("Nil"), TokenType::Identifier);
    assert_eq!(keywords("an"), TokenType::Identifier);
    assert_eq!(keywords("andy"), TokenType::Identifier);
    assert_eq!(keywords(""), TokenType::Identifier);
}

#[test]
fn white_space_is_skipped_and_lines_are_counted() {
    let (tokens, errors) = scan(" 1\t\r\n  2\n\n3");
    assert_eq!(kinds(&tokens), vec![TokenType::Number, TokenType::Number, TokenType::Number, TokenType::EOF]);
    assert_eq!(tokens[0].line, 1);
    assert_eq!(tokens[1].line, 2);
    assert_eq!(tokens[2].line, 4);
    assert_eq!(tokens[3].line, 4);
    assert!(!errors.had_error);
}

#[test]
fn line_comment_runs_to_the_end_of_the_line() {
    let (tokens, errors) = scan("1 // two 2 /* \n3 // the end");
    assert_eq!(kinds(&tokens), vec![TokenType::Number, TokenType::Number, TokenType::EOF]);
    assert_eq!(tokens[1].lexeme, "3");
    assert_eq!(tokens[1].line, 2);
    assert!(!errors.had_error);
}

#[test]
fn slash_alone_is_division() {
    let (tokens, _) = scan("8 / 2");
    assert_eq!(kinds(&tokens), vec![TokenType::Number, TokenType::Slash, TokenType::Number, TokenType::EOF]);
}

#[test]
fn nested_block_comment_spans_to_the_outer_end() {
    let (tokens, errors) = scan("/* a /* b */ c */ 1");
    assert_eq!(tokens.len(), 2);
    assert_eq!(tokens[0], Token::new(TokenType::Number, "1".to_string(), LiteralType::Number(1.0f64.to_bits()), 1));
    assert_eq!(tokens[1].token_type, TokenType::EOF);
    assert!(!errors.had_error);
    assert!(errors.diagnostics.is_empty());
}

#[test]
fn block_comment_counts_its_lines() {
    let (tokens, errors) = scan("/* a\n b\n */ 1\n/**/ 2");
    assert_eq!(kinds(&tokens), vec![TokenType::Number, TokenType::Number, TokenType::EOF]);
    assert_eq!(tokens[0].line, 3);
    assert_eq!(tokens[1].line, 4);
    assert!(!errors.had_error);
}

#[test]
fn comment_delimiters_are_read_as_wholes() {
    // The `/*` inside opens a second comment; the `/` after it closes nothing.
    let (tokens, errors) = scan("/* /*/ */ 1");
    assert_eq!(kinds(&tokens), vec![TokenType::EOF]);
    assert_eq!(errors.diagnostics.len(), 1);
    assert_eq!(errors.diagnostics[0].message, "Unterminated comment block");
    let (tokens, errors) = scan("/* /*/ */ */ 1");
    assert_eq!(kinds(&tokens), vec![TokenType::Number, TokenType::EOF]);
    assert!(!errors.had_error);
}

#[test]
fn unterminated_string_is_reported_once() {
    let (tokens, errors) = scan("\"abc");
    assert_eq!(kinds(&tokens), vec![TokenType::EOF]);
    assert!(errors.had_error);
    assert_eq!(errors.diagnostics.len(), 1);
    assert_eq!(errors.diagnostics[0].line, 1);
    assert_eq!(errors.diagnostics[0].location, "");
    assert_eq!(errors.diagnostics[0].message, "Unterminated string");
}

#[test]
fn unterminated_string_is_reported_on_the_last_line() {
    let (tokens, errors) = scan("1 \"ab\nc\n");
    assert_eq!(kinds(&tokens), vec![TokenType::Number, TokenType::EOF]);
    assert_eq!(errors.diagnostics.len(), 1);
    assert_eq!(errors.diagnostics[0].line, 3);
    assert_eq!(tokens[1].line, 3);
}

#[test]
fn unterminated_comment_is_reported_once() {
    let (tokens, errors) = scan("/* abc");
    assert_eq!(kinds(&tokens), vec![TokenType::EOF]);
    assert!(errors.had_error);
    assert_eq!(errors.diagnostics.len(), 1);
    assert_eq!(errors.diagnostics[0].line, 1);
    assert_eq!(errors.diagnostics[0].message, "Unterminated comment block");
}

#[test]
fn unterminated_nested_comment_is_reported() {
    let (tokens, errors) = scan("1 /* a /* b */ c\n");
    assert_eq!(kinds(&tokens), vec![TokenType::Number, TokenType::EOF]);
    assert_eq!(errors.diagnostics.len(), 1);
    assert_eq!(errors.diagnostics[0].line, 2);
    assert_eq!(errors.diagnostics[0].message, "Unterminated comment block");
}

#[test]
fn unexpected_character_is_reported_and_skipped() {
    let (tokens, errors) = scan("1 @ 2 #");
    assert_eq!(kinds(&tokens), vec![TokenType::Number, TokenType::Number, TokenType::EOF]);
    assert!(errors.had_error);
    assert_eq!(errors.diagnostics.len(), 2);
    assert_eq!(errors.diagnostics[0].message, "Unexpected character. @");
    assert_eq!(errors.diagnostics[1].message, "Unexpected character. #");
    assert_eq!(errors.diagnostics[0].render(), "[line: 1] Error : Unexpected character. @");
}

#[test]
fn characters_outside_ascii_are_unexpected() {
    let (tokens, errors) = scan("é1");
    assert_eq!(kinds(&tokens), vec![TokenType::Number, TokenType::EOF]);
    assert_eq!(errors.diagnostics.len(), 1);
    assert_eq!(errors.diagnostics[0].message, "Unexpected character. é");
    let (tokens, errors) = scan("\"é\"");
    assert_eq!(tokens[0].literal, LiteralType::String("é".to_string()));
    assert_eq!(tokens[0].lexeme, "\"é\"");
    assert!(!errors.had_error);
}

#[test]
fn second_scan_adds_another_end_marker() {
    let mut errors = ErrorHandler::new();
    let mut scanner = Scanner::new("1".to_string(), &to_number);
    assert_eq!(scanner.scan_tokens(&mut errors).len(), 2);
    let tokens = scanner.scan_tokens(&mut errors).clone();
    assert_eq!(kinds(&tokens), vec![TokenType::Number, TokenType::EOF, TokenType::EOF]);
}

#[test]
fn number_text_is_what_the_converter_is_handed() {
    fn length(text: String) -> u64 {
        text.len() as u64
    }
    let mut errors = ErrorHandler::new();
    let mut scanner = Scanner::new("7 12.5 100".to_string(), &length);
    let tokens = scanner.scan_tokens(&mut errors).clone();
    assert_eq!(tokens[0].literal, LiteralType::Number(1));
    assert_eq!(tokens[1].literal, LiteralType::Number(4));
    assert_eq!(tokens[2].literal, LiteralType::Number(3));
}
