//! The tokenizer.

use vstd::prelude::*;
use vstd::string::StringExecFns;
use crate::error::LexError;
use crate::text::{alphabetic, chars_of, is_decimal_digit, is_digit, string_of, whitespace};

verus! {

/// The class of a token.
///
/// The tokenizer tells the operators `+ - * / % ** && || ! & |` apart by
/// their text and gives them all the class `BinaryOperator`. It yields no
/// token of the classes `LogicalAnd`, `LogicalOr`, `Exponent`, `Absolute`,
/// `SingleLineComment` and `MultiLineComment`; they are for token sequences
/// that are made by other means.
#[derive(Clone, Copy, Debug, PartialEq, Eq, Structural)]
pub enum TokenType {
    Integer,
    Float,
    Identifier,
    StringLiteral,
    PlusEqual,
    MinusEqual,
    Equal,
    NotEqual,
    LessThan,
    GreaterThan,
    LessThanOrEqual,
    GreaterThanOrEqual,
    SingleLineComment,
    MultiLineComment,
    LogicalAnd,
    LogicalOr,
    Let,
    Const,
    Fn,
    If,
    Else,
    While,
    For,
    Absolute,
    BinaryOperator,
    Assign,
    Comma,
    Dot,
    Exponent,
    Colon,
    SemiColon,
    OpenParen,
    CloseParen,
    OpenBrace,
    CloseBrace,
    OpenBracket,
    CloseBracket,
    EOF,
}

/// A token: its text and its class.
#[derive(Clone, Debug, PartialEq, Eq)]
pub struct Token {
    pub value: String,
    pub token_type: TokenType,
}

/// What a token is to the contracts: its text as a sequence of characters,
/// and its class.
pub struct TokenView {
    pub value: Seq<char>,
    pub token_type: TokenType,
}

impl View for Token {
    type V = TokenView;

    open spec fn view(&self) -> TokenView {
        TokenView { value: self.value@, token_type: self.token_type }
    }
}

impl Token {
    pub fn new(value: String, token_type: TokenType) -> (token: Self)
        ensures
            token.value == value,
            token.token_type == token_type,
    {
        Self { value, token_type }
    }
}


/// A character that may start or continue a word: alphabetic, or `_`.
pub open spec fn alpha(c: char) -> bool {
    alphabetic(c) || c == '_'
}

/// A character that may stand in a numeric literal: a digit or `.`.
pub open spec fn float_or_int(c: char) -> bool {
    is_digit(c) || c == '.'
}

pub fn is_alpha(c: char) -> (b: bool)
    ensures
        b == alpha(c),
{
    c.is_alphabetic() || c == '_'
}

pub fn is_skippable(c: char) -> (b: bool)
    ensures
        b == whitespace(c),
{
    c.is_whitespace()
}

pub fn is_float_or_int(c: char) -> (b: bool)
    ensures
        b == float_or_int(c),
{
    is_decimal_digit(c) || c == '.'
}

/// The class of a word: that of the keyword it spells, else `Identifier`.
pub open spec fn classify_word(word: Seq<char>) -> TokenType {
    if word == "olkoon"@ {
        TokenType::Let
    } else if word == "vakio"@ {
        TokenType::Const
    } else if word == "funktio"@ {
        TokenType::Fn
    } else if word == "jos"@ {
        TokenType::If
    } else if word == "muuten"@ {
        TokenType::Else
    } else if word == "kun"@ {
        TokenType::While
    } else if word == "toista"@ {
        TokenType::For
    } else {
        TokenType::Identifier
    }
}

/// The keywords with their classes, in the order in which
/// [`classify_word`] tries them.
pub open spec fn keyword_table() -> Seq<(Seq<char>, TokenType)> {
    seq![
        ("olkoon"@, TokenType::Let),
        ("vakio"@, TokenType::Const),
        ("funktio"@, TokenType::Fn),
        ("jos"@, TokenType::If),
        ("muuten"@, TokenType::Else),
        ("kun"@, TokenType::While),
        ("toista"@, TokenType::For),
    ]
}

/// The class that a table gives a word: that of the first entry, from
/// `from` on, that spells it.
pub open spec fn lookup_word(table: Seq<(Seq<char>, TokenType)>, from: int, word: Seq<char>)
    -> TokenType
    decreases table.len() - from,
{
    if from < 0 || from >= table.len() {
        TokenType::Identifier
    } else if table[from].0 == word {
        table[from].1
    } else {
        lookup_word(table, from + 1, word)
    }
}

/// Looking a word up in the keyword table classifies it.
pub proof fn lemma_keyword_table(word: Seq<char>)
    ensures
        lookup_word(keyword_table(), 0, word) == classify_word(word),
{
    reveal_with_fuel(lookup_word, 8);
}

pub fn get_keywords() -> (table: Vec<(&'static str, TokenType)>)
    ensures
        table@.len() == keyword_table().len(),
        forall|i: int|
            0 <= i < table@.len() ==> (#[trigger] table@[i]).0@ == keyword_table()[i].0
                && table@[i].1 == keyword_table()[i].1,
{
    let mut table: Vec<(&'static str, TokenType)> = Vec::new();
    table.push(("olkoon", TokenType::Let));
    table.push(("vakio", TokenType::Const));
    table.push(("funktio", TokenType::Fn));
    table.push(("jos", TokenType::If));
    table.push(("muuten", TokenType::Else));
    table.push(("kun", TokenType::While));
    table.push(("toista", TokenType::For));
    table
}

/// Decides [`classify_word`].
pub fn classify(word: &str) -> (kind: TokenType)
    ensures
        kind == classify_word(word@),
{
    let keywords = get_keywords();
    let mut i: usize = 0;
    while i < keywords.len()
        invariant
            i <= keywords.len(),
            keywords@.len() == keyword_table().len(),
            forall|k: int|
                0 <= k < keywords@.len() ==> (#[trigger] keywords@[k]).0@ == keyword_table()[k].0
                    && keywords@[k].1 == keyword_table()[k].1,
            lookup_word(keyword_table(), 0, word@) == lookup_word(
                keyword_table(),
                i as int,
                word@,
            ),
        decreases keywords.len() - i,
    {
        let entry = keywords[i];
        assert(keywords@[i as int].0@ == keyword_table()[i as int].0 && keywords@[i as int].1
            == keyword_table()[i as int].1);
        if entry.0.eq(word) {
            proof {
                lemma_keyword_table(word@);
            }
            return entry.1;
        }
        i += 1;
    }
    proof {
        lemma_keyword_table(word@);
    }
    TokenType::Identifier
}


/// Where a `//` comment stops: at the first newline from `pos` on, or at the
/// end of the text.
pub open spec fn line_end(src: Seq<char>, pos: nat) -> nat
    decreases src.len() - pos,
{
    if pos >= src.len() || src[pos as int] == '\n' {
        pos
    } else {
        line_end(src, pos + 1)
    }
}

/// Where a `/*` comment stops: just behind the first `*/` that starts at
/// `pos` or later; `None` if there is none.
pub open spec fn comment_end(src: Seq<char>, pos: nat) -> Option<nat>
    decreases src.len() - pos,
{
    if pos + 1 >= src.len() {
        None
    } else if src[pos as int] == '*' && src[pos as int + 1] == '/' {
        Some(pos + 2)
    } else {
        comment_end(src, pos + 1)
    }
}

/// The index of the first `quote` from `pos` on; `None` if there is none.
pub open spec fn quote_index(src: Seq<char>, pos: nat, quote: char) -> Option<nat>
    decreases src.len() - pos,
{
    if pos >= src.len() {
        None
    } else if src[pos as int] == quote {
        Some(pos)
    } else {
        quote_index(src, pos + 1, quote)
    }
}

/// Where the word that holds `pos` stops: at the first character from `pos`
/// on that is neither alphabetic, `_` nor a digit.
pub open spec fn word_end(src: Seq<char>, pos: nat) -> nat
    decreases src.len() - pos,
{
    if pos >= src.len() || !(alpha(src[pos as int]) || is_digit(src[pos as int])) {
        pos
    } else {
        word_end(src, pos + 1)
    }
}

/// Where the numeric literal that holds `pos` stops, and whether it holds a
/// `.`; `seen_dot` says whether one stands before `pos`. A second `.` is an
/// error.
pub open spec fn number_end(src: Seq<char>, pos: nat, seen_dot: bool) -> Result<
    (nat, bool),
    LexError,
>
    decreases src.len() - pos,
{
    if pos >= src.len() {
        Ok((pos, seen_dot))
    } else if src[pos as int] == '.' {
        if seen_dot {
            Err(LexError::MalformedNumber { position: pos as usize })
        } else {
            number_end(src, pos + 1, true)
        }
    } else if is_digit(src[pos as int]) {
        number_end(src, pos + 1, seen_dot)
    } else {
        Ok((pos, seen_dot))
    }
}

pub proof fn lemma_line_end_bounds(src: Seq<char>, pos: nat)
    requires
        pos <= src.len(),
    ensures
        pos <= line_end(src, pos) <= src.len(),
    decreases src.len() - pos,
{
    if !(pos >= src.len() || src[pos as int] == '\n') {
        lemma_line_end_bounds(src, pos + 1);
    }
}

pub proof fn lemma_comment_end_bounds(src: Seq<char>, pos: nat)
    requires
        pos <= src.len(),
    ensures
        comment_end(src, pos) matches Some(end) ==> pos + 2 <= end <= src.len(),
    decreases src.len() - pos,
{
    if pos + 1 < src.len() && !(src[pos as int] == '*' && src[pos as int + 1] == '/') {
        lemma_comment_end_bounds(src, pos + 1);
    }
}

pub proof fn lemma_quote_index_bounds(src: Seq<char>, pos: nat, quote: char)
    requires
        pos <= src.len(),
    ensures
        quote_index(src, pos, quote) matches Some(at) ==> pos <= at < src.len(),
    decreases src.len() - pos,
{
    if pos < src.len() && src[pos as int] != quote {
        lemma_quote_index_bounds(src, pos + 1, quote);
    }
}

pub proof fn lemma_word_end_bounds(src: Seq<char>, pos: nat)
    requires
        pos <= src.len(),
    ensures
        pos <= word_end(src, pos) <= src.len(),
    decreases src.len() - pos,
{
    if !(pos >= src.len() || !(alpha(src[pos as int]) || is_digit(src[pos as int]))) {
        lemma_word_end_bounds(src, pos + 1);
    }
}

pub proof fn lemma_number_end_bounds(src: Seq<char>, pos: nat, seen_dot: bool)
    requires
        pos <= src.len(),
    ensures
        number_end(src, pos, seen_dot) matches Ok((end, _)) ==> pos <= end <= src.len(),
    decreases src.len() - pos,
{
    if pos < src.len() {
        if src[pos as int] == '.' {
            if !seen_dot {
                lemma_number_end_bounds(src, pos + 1, true);
            }
        } else if is_digit(src[pos as int]) {
            lemma_number_end_bounds(src, pos + 1, seen_dot);
        }
    }
}

/// Computes [`line_end`].
fn scan_line(chars: &Vec<char>, from: usize) -> (end: usize)
    requires
        from <= chars.len(),
    ensures
        end == line_end(chars@, from as nat),
        from <= end <= chars.len(),
{
    let mut i: usize = from;
    while i < chars.len() && chars[i] != '\n'
        invariant
            from <= i <= chars.len(),
            line_end(chars@, from as nat) == line_end(chars@, i as nat),
        decreases chars.len() - i,
    {
        i += 1;
    }
    i
}

/// Computes [`comment_end`].
fn scan_comment(chars: &Vec<char>, from: usize) -> (end: Option<usize>)
    requires
        from <= chars.len(),
    ensures
        match end {
            Some(e) => comment_end(chars@, from as nat) == Some(e as nat) && from + 2 <= e
                <= chars.len(),
            None => comment_end(chars@, from as nat) is None,
        },
{
    let mut i: usize = from;
    while i < chars.len() && i + 1 < chars.len()
        invariant
            from <= i <= chars.len(),
            comment_end(chars@, from as nat) == comment_end(chars@, i as nat),
        decreases chars.len() - i,
    {
        if chars[i] == '*' && chars[i + 1] == '/' {
            return Some(i + 2);
        }
        i += 1;
    }
    None
}

/// Computes [`quote_index`].
fn scan_quote(chars: &Vec<char>, from: usize, quote: char) -> (at: Option<usize>)
    requires
        from <= chars.len(),
    ensures
        match at {
            Some(i) => quote_index(chars@, from as nat, quote) == Some(i as nat) && from <= i
                < chars.len(),
            None => quote_index(chars@, from as nat, quote) is None,
        },
{
    let mut i: usize = from;
    while i < chars.len()
        invariant
            from <= i <= chars.len(),
            quote_index(chars@, from as nat, quote) == quote_index(chars@, i as nat, quote),
        decreases chars.len() - i,
    {
        if chars[i] == quote {
            return Some(i);
        }
        i += 1;
    }
    None
}

/// Computes [`word_end`].
fn scan_word(chars: &Vec<char>, from: usize) -> (end: usize)
    requires
        from <= chars.len(),
    ensures
        end == word_end(chars@, from as nat),
        from <= end <= chars.len(),
{
    let mut i: usize = from;
    while i < chars.len() && (is_alpha(chars[i]) || is_decimal_digit(chars[i]))
        invariant
            from <= i <= chars.len(),
            word_end(chars@, from as nat) == word_end(chars@, i as nat),
        decreases chars.len() - i,
    {
        i += 1;
    }
    i
}

/// Computes [`number_end`] for a literal that starts at `from`.
fn scan_number(chars: &Vec<char>, from: usize) -> (result: Result<(usize, bool), LexError>)
    requires
        from <= chars.len(),
    ensures
        match result {
            Ok((end, dot)) => number_end(chars@, from as nat, false) == Ok::<
                (nat, bool),
                LexError,
            >((end as nat, dot)) && from <= end <= chars.len(),
            Err(e) => number_end(chars@, from as nat, false) == Err::<(nat, bool), LexError>(e),
        },
{
    let mut i: usize = from;
    let mut has_dot = false;
    while i < chars.len()
        invariant
            from <= i <= chars.len(),
            number_end(chars@, from as nat, false) == number_end(chars@, i as nat, has_dot),
        decreases chars.len() - i,
    {
        let c = chars[i];
        if c == '.' {
            if has_dot {
                return Err(LexError::MalformedNumber { position: i });
            }
            has_dot = true;
        } else if !is_decimal_digit(c) {
            return Ok((i, has_dot));
        }
        i += 1;
    }
    Ok((i, has_dot))
}


/// One step of the tokenizer: the token that it found, if it found one
/// (comments and whitespace give none), and where the next step starts.
pub struct Step {
    pub token: Option<TokenView>,
    pub next: nat,
}

/// The class of a bracket, separator or dot.
pub open spec fn punctuation(c: char) -> Option<TokenType> {
    if c == '(' {
        Some(TokenType::OpenParen)
    } else if c == ')' {
        Some(TokenType::CloseParen)
    } else if c == '{' {
        Some(TokenType::OpenBrace)
    } else if c == '}' {
        Some(TokenType::CloseBrace)
    } else if c == '[' {
        Some(TokenType::OpenBracket)
    } else if c == ']' {
        Some(TokenType::CloseBracket)
    } else if c == ';' {
        Some(TokenType::SemiColon)
    } else if c == ':' {
        Some(TokenType::Colon)
    } else if c == ',' {
        Some(TokenType::Comma)
    } else if c == '.' {
        Some(TokenType::Dot)
    } else {
        None
    }
}

/// Whether the character behind `pos` is `c`.
pub open spec fn followed_by(src: Seq<char>, pos: nat, c: char) -> bool {
    pos + 1 < src.len() && src[pos as int + 1] == c
}

/// The operator that starts at `pos`, as its length and class: the
/// two-character operators `**`, `+=`, `-=`, `&&`, `||`, `==`, `!=`, `<=`,
/// `>=` come before their first character alone. `/` is not among them, since
/// it may open a comment.
pub open spec fn operator(src: Seq<char>, pos: nat) -> Option<(nat, TokenType)>
    recommends
        pos < src.len(),
{
    let c = src[pos as int];
    if c == '*' {
        Some((if followed_by(src, pos, '*') { 2nat } else { 1nat }, TokenType::BinaryOperator))
    } else if c == '+' {
        if followed_by(src, pos, '=') {
            Some((2, TokenType::PlusEqual))
        } else {
            Some((1, TokenType::BinaryOperator))
        }
    } else if c == '-' {
        if followed_by(src, pos, '=') {
            Some((2, TokenType::MinusEqual))
        } else {
            Some((1, TokenType::BinaryOperator))
        }
    } else if c == '%' {
        Some((1, TokenType::BinaryOperator))
    } else if c == '&' {
        Some((if followed_by(src, pos, '&') { 2nat } else { 1nat }, TokenType::BinaryOperator))
    } else if c == '|' {
        Some((if followed_by(src, pos, '|') { 2nat } else { 1nat }, TokenType::BinaryOperator))
    } else if c == '=' {
        if followed_by(src, pos, '=') {
            Some((2, TokenType::Equal))
        } else {
            Some((1, TokenType::Assign))
        }
    } else if c == '!' {
        if followed_by(src, pos, '=') {
            Some((2, TokenType::NotEqual))
        } else {
            Some((1, TokenType::BinaryOperator))
        }
    } else if c == '<' {
        if followed_by(src, pos, '=') {
            Some((2, TokenType::LessThanOrEqual))
        } else {
            Some((1, TokenType::LessThan))
        }
    } else if c == '>' {
        if followed_by(src, pos, '=') {
            Some((2, TokenType::GreaterThanOrEqual))
        } else {
            Some((1, TokenType::GreaterThan))
        }
    } else {
        None
    }
}

/// A step that yields the token of class `kind` whose text is the source
/// from `from` to `to`, and goes on at `next`.
pub open spec fn emit(src: Seq<char>, from: nat, to: nat, kind: TokenType, next: nat) -> Result<
    Step,
    LexError,
> {
    Ok(
        Step {
            token: Some(TokenView { value: src.subrange(from as int, to as int), token_type: kind }),
            next,
        },
    )
}

/// A step that yields no token and goes on at `next`.
pub open spec fn skip(next: nat) -> Result<Step, LexError> {
    Ok(Step { token: None, next })
}

/// What the tokenizer does at `pos`, by the first rule that applies:
/// punctuation; a `//` or `/* */` comment, or the operator `/`; another
/// operator; a quoted literal, whose token holds the text between the quotes;
/// a numeric literal, `Float` if it holds a `.`, else `Integer`; a word, a
/// keyword or an identifier; whitespace. Any other character is an error.
pub open spec fn lex_step(src: Seq<char>, pos: nat) -> Result<Step, LexError>
    recommends
        pos < src.len(),
{
    let c = src[pos as int];
    if let Some(kind) = punctuation(c) {
        emit(src, pos, pos + 1, kind, pos + 1)
    } else if c == '/' {
        if followed_by(src, pos, '/') {
            skip(line_end(src, pos + 2))
        } else if followed_by(src, pos, '*') {
            match comment_end(src, pos + 2) {
                Some(end) => skip(end),
                None => Err(LexError::UnterminatedComment { position: pos as usize }),
            }
        } else {
            emit(src, pos, pos + 1, TokenType::BinaryOperator, pos + 1)
        }
    } else if let Some((length, kind)) = operator(src, pos) {
        emit(src, pos, pos + length, kind, pos + length)
    } else if c == '"' || c == '\'' {
        match quote_index(src, pos + 1, c) {
            Some(close) => emit(src, pos + 1, close, TokenType::StringLiteral, close + 1),
            None => Err(LexError::UnterminatedString { position: pos as usize }),
        }
    } else if is_digit(c) {
        match number_end(src, pos, false) {
            Ok((end, dot)) => emit(
                src,
                pos,
                end,
                if dot {
                    TokenType::Float
                } else {
                    TokenType::Integer
                },
                end,
            ),
            Err(e) => Err(e),
        }
    } else if alpha(c) {
        let end = word_end(src, pos);
        emit(src, pos, end, classify_word(src.subrange(pos as int, end as int)), end)
    } else if whitespace(c) {
        skip(pos + 1)
    } else {
        Err(LexError::UnexpectedCharacter { character: c, position: pos as usize })
    }
}

/// Every step consumes at least one character and stays inside the text.
pub proof fn lemma_step_advances(src: Seq<char>, pos: nat)
    requires
        pos < src.len(),
    ensures
        lex_step(src, pos) matches Ok(step) ==> pos < step.next <= src.len(),
{
    let c = src[pos as int];
    if c == '/' {
        if followed_by(src, pos, '/') {
            lemma_line_end_bounds(src, pos + 2);
        } else if followed_by(src, pos, '*') {
            lemma_comment_end_bounds(src, pos + 2);
        }
    } else if c == '"' || c == '\'' {
        lemma_quote_index_bounds(src, pos + 1, c);
    } else if is_digit(c) {
        lemma_number_end_bounds(src, pos + 1, false);
    } else if alpha(c) {
        lemma_word_end_bounds(src, pos + 1);
    }
}

/// The token that ends every token sequence.
pub open spec fn end_of_file() -> TokenView {
    TokenView { value: "EndOfFile"@, token_type: TokenType::EOF }
}

/// `tokens` behind the token of `step`, if it has one.
pub open spec fn after_step(step: Step, tokens: Seq<TokenView>) -> Seq<TokenView> {
    match step.token {
        Some(token) => seq![token] + tokens,
        None => tokens,
    }
}

/// The tokens of the text from `pos` on, closed by [`end_of_file`], or the
/// first error.
pub open spec fn tokens_from(src: Seq<char>, pos: nat) -> Result<Seq<TokenView>, LexError>
    decreases src.len() - pos,
{
    if pos >= src.len() {
        Ok(seq![end_of_file()])
    } else {
        match lex_step(src, pos) {
            Err(e) => Err(e),
            Ok(step) => {
                proof {
                    lemma_step_advances(src, pos);
                }
                match tokens_from(src, step.next) {
                    Err(e) => Err(e),
                    Ok(rest) => Ok(after_step(step, rest)),
                }
            },
        }
    }
}

/// The tokens of a source text: what [`tokenize`] computes.
pub open spec fn lex(src: Seq<char>) -> Result<Seq<TokenView>, LexError> {
    tokens_from(src, 0)
}

/// The views of a sequence of tokens.
pub open spec fn token_views(tokens: Seq<Token>) -> Seq<TokenView> {
    Seq::new(tokens.len(), |i: int| tokens[i]@)
}

/// `rest` behind `prefix`, where `rest` is no error.
pub open spec fn behind(prefix: Seq<TokenView>, rest: Result<Seq<TokenView>, LexError>) -> Result<
    Seq<TokenView>,
    LexError,
> {
    match rest {
        Ok(tokens) => Ok(prefix + tokens),
        Err(e) => Err(e),
    }
}


/// Decides [`punctuation`].
fn punctuation_kind(c: char) -> (kind: Option<TokenType>)
    ensures
        kind == punctuation(c),
{
    if c == '(' {
        Some(TokenType::OpenParen)
    } else if c == ')' {
        Some(TokenType::CloseParen)
    } else if c == '{' {
        Some(TokenType::OpenBrace)
    } else if c == '}' {
        Some(TokenType::CloseBrace)
    } else if c == '[' {
        Some(TokenType::OpenBracket)
    } else if c == ']' {
        Some(TokenType::CloseBracket)
    } else if c == ';' {
        Some(TokenType::SemiColon)
    } else if c == ':' {
        Some(TokenType::Colon)
    } else if c == ',' {
        Some(TokenType::Comma)
    } else if c == '.' {
        Some(TokenType::Dot)
    } else {
        None
    }
}

/// Decides [`followed_by`].
fn is_followed_by(chars: &Vec<char>, pos: usize, c: char) -> (b: bool)
    requires
        pos < chars.len(),
    ensures
        b == followed_by(chars@, pos as nat, c),
{
    pos + 1 < chars.len() && chars[pos + 1] == c
}

/// Computes [`operator`].
fn scan_operator(chars: &Vec<char>, pos: usize) -> (found: Option<(usize, TokenType)>)
    requires
        pos < chars.len(),
    ensures
        match found {
            Some((length, kind)) => operator(chars@, pos as nat) == Some((length as nat, kind))
                && 1 <= length && pos + length <= chars.len(),
            None => operator(chars@, pos as nat) is None,
        },
{
    let c = chars[pos];
    if c == '*' {
        if is_followed_by(chars, pos, '*') {
            Some((2, TokenType::BinaryOperator))
        } else {
            Some((1, TokenType::BinaryOperator))
        }
    } else if c == '+' {
        if is_followed_by(chars, pos, '=') {
            Some((2, TokenType::PlusEqual))
        } else {
            Some((1, TokenType::BinaryOperator))
        }
    } else if c == '-' {
        if is_followed_by(chars, pos, '=') {
            Some((2, TokenType::MinusEqual))
        } else {
            Some((1, TokenType::BinaryOperator))
        }
    } else if c == '%' {
        Some((1, TokenType::BinaryOperator))
    } else if c == '&' {
        if is_followed_by(chars, pos, '&') {
            Some((2, TokenType::BinaryOperator))
        } else {
            Some((1, TokenType::BinaryOperator))
        }
    } else if c == '|' {
        if is_followed_by(chars, pos, '|') {
            Some((2, TokenType::BinaryOperator))
        } else {
            Some((1, TokenType::BinaryOperator))
        }
    } else if c == '=' {
        if is_followed_by(chars, pos, '=') {
            Some((2, TokenType::Equal))
        } else {
            Some((1, TokenType::Assign))
        }
    } else if c == '!' {
        if is_followed_by(chars, pos, '=') {
            Some((2, TokenType::NotEqual))
        } else {
            Some((1, TokenType::BinaryOperator))
        }
    } else if c == '<' {
        if is_followed_by(chars, pos, '=') {
            Some((2, TokenType::LessThanOrEqual))
        } else {
            Some((1, TokenType::LessThan))
        }
    } else if c == '>' {
        if is_followed_by(chars, pos, '=') {
            Some((2, TokenType::GreaterThanOrEqual))
        } else {
            Some((1, TokenType::GreaterThan))
        }
    } else {
        None
    }
}

/// The token of class `kind` whose text is `chars` from `from` to `to`.
fn token_of(chars: &Vec<char>, from: usize, to: usize, kind: TokenType) -> (token: Token)
    requires
        from <= to <= chars.len(),
    ensures
        token@ == (TokenView {
            value: chars@.subrange(from as int, to as int),
            token_type: kind,
        }),
{
    Token::new(string_of(chars, from, to), kind)
}

/// One step of the tokenizer at `pos`: computes [`lex_step`].
fn scan(chars: &Vec<char>, pos: usize) -> (result: Result<(Option<Token>, usize), LexError>)
    requires
        pos < chars.len(),
    ensures
        match result {
            Ok((token, next)) => lex_step(chars@, pos as nat) == Ok::<Step, LexError>(
                Step {
                    token: match token {
                        Some(t) => Some(t@),
                        None => None,
                    },
                    next: next as nat,
                },
            ) && pos < next <= chars.len(),
            Err(e) => lex_step(chars@, pos as nat) == Err::<Step, LexError>(e),
        },
{
    let c = chars[pos];
    if let Some(kind) = punctuation_kind(c) {
        return Ok((Some(token_of(chars, pos, pos + 1, kind)), pos + 1));
    }
    if c == '/' {
        if is_followed_by(chars, pos, '/') {
            return Ok((None, scan_line(chars, pos + 2)));
        }
        if is_followed_by(chars, pos, '*') {
            return match scan_comment(chars, pos + 2) {
                Some(end) => Ok((None, end)),
                None => Err(LexError::UnterminatedComment { position: pos }),
            };
        }
        return Ok((Some(token_of(chars, pos, pos + 1, TokenType::BinaryOperator)), pos + 1));
    }
    if let Some((length, kind)) = scan_operator(chars, pos) {
        return Ok((Some(token_of(chars, pos, pos + length, kind)), pos + length));
    }
    if c == '"' || c == '\'' {
        return match scan_quote(chars, pos + 1, c) {
            Some(close) => Ok(
                (Some(token_of(chars, pos + 1, close, TokenType::StringLiteral)), close + 1),
            ),
            None => Err(LexError::UnterminatedString { position: pos }),
        };
    }
    if is_decimal_digit(c) {
        let (end, dot) = scan_number(chars, pos)?;
        let kind = if dot {
            TokenType::Float
        } else {
            TokenType::Integer
        };
        proof {
            lemma_step_advances(chars@, pos as nat);
        }
        return Ok((Some(token_of(chars, pos, end, kind)), end));
    }
    if is_alpha(c) {
        let end = scan_word(chars, pos);
        let word = string_of(chars, pos, end);
        let kind = classify(word.as_str());
        proof {
            lemma_step_advances(chars@, pos as nat);
        }
        return Ok((Some(Token::new(word, kind)), end));
    }
    if is_skippable(c) {
        return Ok((None, pos + 1));
    }
    Err(LexError::UnexpectedCharacter { character: c, position: pos })
}

/// Splits a source text into its tokens, closed by the token `EndOfFile` of
/// class `EOF`. Comments and whitespace yield no token. The result is that of
/// [`lex`]: the tokens, or the first lexical error.
pub fn tokenize(source_code: &str) -> (result: Result<Vec<Token>, LexError>)
    ensures
        match result {
            Ok(tokens) => lex(source_code@) == Ok::<Seq<TokenView>, LexError>(
                token_views(tokens@),
            ),
            Err(e) => lex(source_code@) == Err::<Seq<TokenView>, LexError>(e),
        },
{
    let chars = chars_of(source_code);
    let mut tokens: Vec<Token> = Vec::new();
    let mut pos: usize = 0;
    assert(token_views(tokens@) + tokens_from(chars@, 0)->Ok_0 =~= tokens_from(chars@, 0)->Ok_0);
    while pos < chars.len()
        invariant
            pos <= chars.len(),
            chars@ == source_code@,
            lex(chars@) == behind(token_views(tokens@), tokens_from(chars@, pos as nat)),
        decreases chars.len() - pos,
    {
        let ghost before = token_views(tokens@);
        match scan(&chars, pos) {
            Err(e) => {
                return Err(e);
            },
            Ok((token, next)) => {
                if let Some(t) = token {
                    tokens.push(t);
                    proof {
                        assert(token_views(tokens@) =~= before + seq![t@]);
                        let rest = tokens_from(chars@, next as nat);
                        if let Ok(following) = rest {
                            assert((before + seq![t@]) + following =~= before + (seq![t@]
                                + following));
                        }
                    }
                }
                pos = next;
            },
        }
    }
    let end = Token::new(String::from_str("EndOfFile"), TokenType::EOF);
    let ghost before = token_views(tokens@);
    tokens.push(end);
    assert(token_views(tokens@) =~= before + seq![end_of_file()]);
    Ok(tokens)
}


/// A token sequence as the tokenizer yields it: the last token, and no
/// other, is of class `EOF`.
pub open spec fn closed_by_eof(tokens: Seq<TokenView>) -> bool {
    &&& tokens.len() >= 1
    &&& tokens[tokens.len() - 1] == end_of_file()
    &&& forall|i: int| 0 <= i < tokens.len() - 1 ==> (#[trigger] tokens[i]).token_type != TokenType::EOF
}

/// No step yields a token of class `EOF`.
pub proof fn lemma_step_token_not_eof(src: Seq<char>, pos: nat)
    requires
        pos < src.len(),
    ensures
        lex_step(src, pos) matches Ok(step) ==> (step.token matches Some(token)
            ==> token.token_type != TokenType::EOF),
{
}

/// The tokens of every text that has tokens end with the `EOF` token and
/// hold no other of that class.
pub proof fn lemma_tokens_closed_by_eof(src: Seq<char>, pos: nat)
    ensures
        tokens_from(src, pos) matches Ok(tokens) ==> closed_by_eof(tokens),
    decreases src.len() - pos,
{
    if pos < src.len() {
        if let Ok(step) = lex_step(src, pos) {
            lemma_step_advances(src, pos);
            lemma_step_token_not_eof(src, pos);
            lemma_tokens_closed_by_eof(src, step.next);
            if let Ok(rest) = tokens_from(src, step.next) {
                let tokens = after_step(step, rest);
                if let Some(token) = step.token {
                    assert forall|i: int| 0 <= i < tokens.len() - 1 implies (#[trigger] tokens[i]).token_type
                        != TokenType::EOF by {
                        if i > 0 {
                            assert(tokens[i] == rest[i - 1]);
                        }
                    }
                }
            }
        }
    }
}

/// Tokenizing is total up to lexical errors, and what it yields is closed by
/// the one `EOF` token.
pub proof fn lemma_lex_closed_by_eof(src: Seq<char>)
    ensures
        lex(src) matches Ok(tokens) ==> closed_by_eof(tokens),
{
    lemma_tokens_closed_by_eof(src, 0);
}

} // verus!

