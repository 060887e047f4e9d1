use kaulin::error::{ErrorKind, LexError};
use kaulin::frontend::lexer::{
    classify, get_keywords, is_alpha, is_float_or_int, is_skippable, tokenize, Token, TokenType,
};

fn kinds(source: &str) -> Vec<TokenType> {
    tokenize(source).unwrap().iter().map(|t| t.token_type).collect()
}

fn texts(source: &str) -> Vec<String> {
    tokenize(source).unwrap().iter().map(|t| t.value.clone()).collect()
}

#[test]
fn empty_source_gives_only_the_end_token() {
    let tokens = tokenize("").unwrap();
    assert_eq!(tokens, vec![Token::new("EndOfFile".to_string(), TokenType::EOF)]);
}

#[test]
fn every_token_sequence_ends_with_the_only_end_token() {
    for source in ["", "x", "olkoon x = 5;", "// only a comment", "1 + 2 /* c */ * 3"] {
        let tokens = tokenize(source).unwrap();
        let last = tokens.len() - 1;
        assert_eq!(tokens[last].token_type, TokenType::EOF);
        assert_eq!(tokens[last].value, "EndOfFile");
        assert!(tokens[..last].iter().all(|t| t.token_type != TokenType::EOF));
    }
}

#[test]
fn declaration_is_split_into_its_tokens() {
    assert_eq!(
        kinds("olkoon x = 5;"),
        vec![
            TokenType::Let,
            TokenType::Identifier,
            TokenType::Assign,
            TokenType::Integer,
            TokenType::SemiColon,
            TokenType::EOF
        ]
    );
    assert_eq!(texts("olkoon x = 5;"), vec!["olkoon", "x", "=", "5", ";", "EndOfFile"]);
}

#[test]
fn keywords_have_their_own_classes() {
    assert_eq!(
        kinds("olkoon vakio funktio jos muuten kun toista"),
        vec![
            TokenType::Let,
            TokenType::Const,
            TokenType::Fn,
            TokenType::If,
            TokenType::Else,
            TokenType::While,
            TokenType::For,
            TokenType::EOF
        ]
    );
    assert_eq!(classify("jos"), TokenType::If);
    assert_eq!(classify("josta"), TokenType::Identifier);
    assert_eq!(classify(""), TokenType::Identifier);
}

#[test]
fn keyword_table_lists_the_seven_keywords_in_order() {
    let table = get_keywords();
    let words: Vec<&str> = table.iter().map(|entry| entry.0).collect();
    assert_eq!(words, vec!["olkoon", "vakio", "funktio", "jos", "muuten", "kun", "toista"]);
    assert_eq!(table[0].1, TokenType::Let);
    assert_eq!(table[6].1, TokenType::For);
}

#[test]
fn a_word_that_only_starts_like_a_keyword_is_an_identifier() {
    assert_eq!(kinds("kunta olkoonpa"), vec![TokenType::Identifier, TokenType::Identifier, TokenType::EOF]);
}

#[test]
fn identifiers_may_hold_letters_of_any_alphabet_digits_and_underscores() {
    assert_eq!(texts("äiti_2 _x yö"), vec!["äiti_2", "_x", "yö", "EndOfFile"]);
    assert_eq!(
        kinds("äiti_2 _x yö"),
        vec![TokenType::Identifier, TokenType::Identifier, TokenType::Identifier, TokenType::EOF]
    );
}

#[test]
fn character_classes() {
    assert!(is_alpha('a'));
    assert!(is_alpha('Ä'));
    assert!(is_alpha('_'));
    assert!(!is_alpha('1'));
    assert!(!is_alpha(' '));
    assert!(is_skippable(' '));
    assert!(is_skippable('\n'));
    assert!(is_skippable('\t'));
    assert!(!is_skippable('x'));
    assert!(is_float_or_int('0'));
    assert!(is_float_or_int('9'));
    assert!(is_float_or_int('.'));
    assert!(!is_float_or_int('a'));
    assert!(!is_float_or_int('/'));
    assert!(!is_float_or_int(':'));
}

#[test]
fn whitespace_of_every_kind_separates_tokens() {
    assert_eq!(texts(" a\tb\nc\r\n d "), vec!["a", "b", "c", "d", "EndOfFile"]);
}

#[test]
fn two_character_operators_come_before_their_first_character() {
    assert_eq!(
        texts("== != <= >= && || += -= **"),
        vec!["==", "!=", "<=", ">=", "&&", "||", "+=", "-=", "**", "EndOfFile"]
    );
    assert_eq!(
        kinds("== != <= >= && || += -= **"),
        vec![
            TokenType::Equal,
            TokenType::NotEqual,
            TokenType::LessThanOrEqual,
            TokenType::GreaterThanOrEqual,
            TokenType::BinaryOperator,
            TokenType::BinaryOperator,
            TokenType::PlusEqual,
            TokenType::MinusEqual,
            TokenType::BinaryOperator,
            TokenType::EOF
        ]
    );
}

#[test]
fn single_character_operators() {
    assert_eq!(
        texts("= ! < > & | + - * / %"),
        vec!["=", "!", "<", ">", "&", "|", "+", "-", "*", "/", "%", "EndOfFile"]
    );
    assert_eq!(
        kinds("= ! < > & | + - * / %"),
        vec![
            TokenType::Assign,
            TokenType::BinaryOperator,
            TokenType::LessThan,
            TokenType::GreaterThan,
            TokenType::BinaryOperator,
            TokenType::BinaryOperator,
            TokenType::BinaryOperator,
            TokenType::BinaryOperator,
            TokenType::BinaryOperator,
            TokenType::BinaryOperator,
            TokenType::BinaryOperator,
            TokenType::EOF
        ]
    );
}

#[test]
fn three_stars_are_a_power_and_a_product() {
    assert_eq!(texts("a***b"), vec!["a", "**", "*", "b", "EndOfFile"]);
}

#[test]
fn punctuation() {
    assert_eq!(
        kinds("( ) { } [ ] ; : , ."),
        vec![
            TokenType::OpenParen,
            TokenType::CloseParen,
            TokenType::OpenBrace,
            TokenType::CloseBrace,
            TokenType::OpenBracket,
            TokenType::CloseBracket,
            TokenType::SemiColon,
            TokenType::Colon,
            TokenType::Comma,
            TokenType::Dot,
            TokenType::EOF
        ]
    );
}

#[test]
fn numbers_are_integers_or_floats() {
    assert_eq!(kinds("12 3.5 7."), vec![TokenType::Integer, TokenType::Float, TokenType::Float, TokenType::EOF]);
    assert_eq!(texts("12 3.5 7."), vec!["12", "3.5", "7.", "EndOfFile"]);
}

#[test]
fn a_dot_before_digits_is_a_dot() {
    assert_eq!(kinds(".5"), vec![TokenType::Dot, TokenType::Integer, TokenType::EOF]);
}

#[test]
fn a_number_ends_where_a_word_starts() {
    assert_eq!(texts("12ab"), vec!["12", "ab", "EndOfFile"]);
    assert_eq!(kinds("12ab"), vec![TokenType::Integer, TokenType::Identifier, TokenType::EOF]);
}

#[test]
fn second_dot_in_a_number_is_an_error() {
    assert_eq!(tokenize("1.2.3"), Err(LexError::MalformedNumber { position: 3 }));
    assert_eq!(tokenize("x = 1..2"), Err(LexError::MalformedNumber { position: 6 }));
}

#[test]
fn quoted_literals_hold_the_text_between_the_quotes() {
    assert_eq!(texts("\"hei maailma\" 'a \"b\" c'"), vec!["hei maailma", "a \"b\" c", "EndOfFile"]);
    assert_eq!(
        kinds("\"hei maailma\" 'a \"b\" c'"),
        vec![TokenType::StringLiteral, TokenType::StringLiteral, TokenType::EOF]
    );
}

#[test]
fn an_empty_quoted_literal_is_a_token() {
    assert_eq!(texts("\"\""), vec!["", "EndOfFile"]);
    assert_eq!(kinds("''"), vec![TokenType::StringLiteral, TokenType::EOF]);
}

#[test]
fn a_quoted_literal_may_hold_what_looks_like_a_comment() {
    assert_eq!(texts("\"// ei kommentti\""), vec!["// ei kommentti", "EndOfFile"]);
}

#[test]
fn unterminated_string_is_an_error() {
    assert_eq!(tokenize("x = \"abc"), Err(LexError::UnterminatedString { position: 4 }));
    assert_eq!(tokenize("'"), Err(LexError::UnterminatedString { position: 0 }));
    assert_eq!(tokenize("\"abc'"), Err(LexError::UnterminatedString { position: 0 }));
}

#[test]
fn line_comments_run_to_the_end_of_the_line() {
    assert_eq!(texts("a // b c\nd"), vec!["a", "d", "EndOfFile"]);
    assert_eq!(texts("a // b c"), vec!["a", "EndOfFile"]);
    assert_eq!(texts("//"), vec!["EndOfFile"]);
}

#[test]
fn block_comments_end_at_the_first_closing_mark() {
    assert_eq!(texts("a /* b */ c */ d"), vec!["a", "c", "*", "/", "d", "EndOfFile"]);
    assert_eq!(texts("a /* b \n c **/ d"), vec!["a", "d", "EndOfFile"]);
    assert_eq!(texts("/**/x"), vec!["x", "EndOfFile"]);
}

#[test]
fn unterminated_block_comment_is_an_error() {
    assert_eq!(tokenize("a /* b"), Err(LexError::UnterminatedComment { position: 2 }));
    assert_eq!(tokenize("/*/"), Err(LexError::UnterminatedComment { position: 0 }));
    assert_eq!(tokenize("/*"), Err(LexError::UnterminatedComment { position: 0 }));
}

#[test]
fn unknown_character_is_an_error() {
    assert_eq!(tokenize("a # b"), Err(LexError::UnexpectedCharacter { character: '#', position: 2 }));
    assert_eq!(tokenize("@"), Err(LexError::UnexpectedCharacter { character: '@', position: 0 }));
    assert_eq!(tokenize("ä ?"), Err(LexError::UnexpectedCharacter { character: '?', position: 2 }));
}

#[test]
fn lexical_errors_have_kind_position_and_message() {
    let error = LexError::MalformedNumber { position: 3 };
    assert_eq!(error.kind(), ErrorKind::LexicalError);
    assert_eq!(error.position(), 3);
    assert_eq!(error.message(), "Odottamaton '.' numerossa");
    assert_eq!(
        LexError::UnexpectedCharacter { character: '#', position: 7 }.message(),
        "Lähteestä löytyi tuntematon merkki"
    );
    assert_eq!(LexError::UnexpectedCharacter { character: '#', position: 7 }.position(), 7);
    assert_eq!(LexError::UnterminatedString { position: 1 }.position(), 1);
    assert_eq!(LexError::UnterminatedComment { position: 2 }.position(), 2);
    assert_ne!(
        LexError::UnterminatedString { position: 1 }.message(),
        LexError::UnterminatedComment { position: 1 }.message()
    );
}

#[test]
fn token_new_keeps_text_and_class() {
    let token = Token::new("abc".to_string(), TokenType::Identifier);
    assert_eq!(token.value, "abc");
    assert_eq!(token.token_type, TokenType::Identifier);
}
