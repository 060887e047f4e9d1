//! The errors that stop a run, one type for each stage.

use vstd::prelude::*;
use vstd::string::StringExecFns;
use crate::frontend::lexer::TokenType;

verus! {

/// Why a source text is not a sequence of tokens. Positions count characters
/// from the start of the text.
#[derive(Clone, Copy, Debug, PartialEq, Eq, Structural)]
pub enum LexError {
    /// A character that starts no token.
    UnexpectedCharacter { character: char, position: usize },
    /// A second `.` inside one numeric literal, found at `position`.
    MalformedNumber { position: usize },
    /// A quoted literal that opens at `position` and is never closed.
    UnterminatedString { position: usize },
    /// A `/*` comment that opens at `position` and is never closed.
    UnterminatedComment { position: usize },
}


/// Why a token sequence is not a program. Positions count tokens from the
/// start of the sequence.
#[derive(Clone, Copy, Debug, PartialEq, Eq, Structural)]
pub enum SyntaxError {
    /// The token at `position` can start no expression.
    UnexpectedToken { position: usize },
    /// The token at `position` should have been of class `expected`.
    ExpectedToken { expected: TokenType, position: usize },
    /// The constant declared at `position` has no value.
    MissingInitializer { position: usize },
    /// The parameter list that opens at `position` holds something other
    /// than names.
    InvalidParameter { position: usize },
}


/// The classes of errors.
#[derive(Clone, Copy, Debug, PartialEq, Eq, Structural)]
pub enum ErrorKind {
    /// The text is not a sequence of tokens.
    LexicalError,
    /// The tokens are not a program.
    SyntaxError,
    /// A name is declared twice in one scope, not declared at all, or is
    /// that of a constant that the program assigns to.
    NameError,
    /// A value is not of the type that its use requires.
    TypeError,
    /// A division or remainder by zero, or an integer result out of range.
    ArithmeticError,
    /// The run took more steps than it was given.
    ResourceError,
}

/// Why a run stopped.
#[derive(Clone, Copy, Debug, PartialEq, Eq, Structural)]
pub enum RuntimeError {
    /// The name is already declared in the current scope.
    AlreadyDeclared,
    /// The name is declared in no scope that is visible.
    NotDeclared,
    /// The name is that of a constant.
    AssignedConstant,
    /// The operator does not take operands of these types.
    UnsupportedOperands,
    /// The sign of a unary expression is neither `-` nor `!`.
    UnsupportedOperator,
    /// The condition of `jos` is no truth value.
    ConditionNotBool,
    /// The value called is no function.
    NotCallable,
    /// The number of arguments is not the number of parameters.
    ArityMismatch,
    /// The value before `.` is no object.
    NotAnObject,
    /// The object has no entry of that name.
    MissingProperty,
    /// What names the entry is no plain name.
    InvalidProperty,
    /// The target of an assignment is no plain name.
    InvalidAssignmentTarget,
    /// The literal is not the text of a number.
    InvalidNumber,
    /// A native function was given an argument that it does not take.
    InvalidArgument,
    /// Division or remainder by zero.
    DivisionByZero,
    /// The result of an integer operation is out of range.
    IntegerOverflow,
    /// The run took more steps than it was given.
    OutOfFuel,
}

/// The class of a runtime error.
pub open spec fn runtime_kind(error: RuntimeError) -> ErrorKind {
    match error {
        RuntimeError::AlreadyDeclared | RuntimeError::NotDeclared | RuntimeError::AssignedConstant => {
            ErrorKind::NameError
        },
        RuntimeError::DivisionByZero | RuntimeError::IntegerOverflow => ErrorKind::ArithmeticError,
        RuntimeError::OutOfFuel => ErrorKind::ResourceError,
        _ => ErrorKind::TypeError,
    }
}

impl RuntimeError {
    pub fn kind(&self) -> (kind: ErrorKind)
        ensures
            kind == runtime_kind(*self),
    {
        match self {
            RuntimeError::AlreadyDeclared | RuntimeError::NotDeclared | RuntimeError::AssignedConstant => {
                ErrorKind::NameError
            },
            RuntimeError::DivisionByZero | RuntimeError::IntegerOverflow => {
                ErrorKind::ArithmeticError
            },
            RuntimeError::OutOfFuel => ErrorKind::ResourceError,
            _ => ErrorKind::TypeError,
        }
    }
}


/// Why a source text is not a program.
#[derive(Clone, Copy, Debug, PartialEq, Eq, Structural)]
pub enum ParseError {
    Lexical(LexError),
    Syntax(SyntaxError),
}

/// What a lexical error says.
pub open spec fn lex_message(error: LexError) -> Seq<char> {
    match error {
        LexError::UnexpectedCharacter { .. } => "Lähteestä löytyi tuntematon merkki"@,
        LexError::MalformedNumber { .. } => "Odottamaton '.' numerossa"@,
        LexError::UnterminatedString { .. } => "Merkkijonolta puuttuu sulkeva lainausmerkki"@,
        LexError::UnterminatedComment { .. } => "Kommentilta puuttuu sulkeva '*/'"@,
    }
}

/// What a syntax error says.
pub open spec fn syntax_message(error: SyntaxError) -> Seq<char> {
    match error {
        SyntaxError::UnexpectedToken { .. } => "Odottamaton tunnus löytyi jäsentämisen aikana"@,
        SyntaxError::ExpectedToken { .. } => "Odotettua tunnusta ei löytynyt"@,
        SyntaxError::MissingInitializer { .. } => "Vakiolausekkeelle on annettava arvo ja arvoa ei ole annettu"@,
        SyntaxError::InvalidParameter { .. } => "Funktiomäärityksen sisällä olevien parametrien odotetaan olevan tyyppiä merkkijono"@,
    }
}

/// What a runtime error says.
pub open spec fn runtime_message(error: RuntimeError) -> Seq<char> {
    match error {
        RuntimeError::AlreadyDeclared => "Ei voida määrittää muuttujaa, sillä se on jo määritelty"@,
        RuntimeError::NotDeclared => "Kohdetta ei voida ratkaista, koska sitä ei ole olemassa"@,
        RuntimeError::AssignedConstant => "Ei voida määrittää uudelleen muuttujaa, koska se luotiin vakioksi"@,
        RuntimeError::UnsupportedOperands => "Tukematon operandityyppi"@,
        RuntimeError::UnsupportedOperator => "Odottamaton unaarinen operaattori"@,
        RuntimeError::ConditionNotBool => "jos-muuten-lausekkeen ehto on arvioitava totuusarvoksi"@,
        RuntimeError::NotCallable => "Ei voida kutsua arvoa, joka ei ole funktio"@,
        RuntimeError::ArityMismatch => "Väärä argumenttien määrä"@,
        RuntimeError::NotAnObject => "Vain olioilla on ominaisuuksia"@,
        RuntimeError::MissingProperty => "Oliossa ei ole ominaisuutta"@,
        RuntimeError::InvalidProperty => "Omaisuuden on oltava tunniste"@,
        RuntimeError::InvalidAssignmentTarget => "Virheellinen vasen puoli lausekkeen sisällä"@,
        RuntimeError::InvalidNumber => "Lukua ei voitu lukea"@,
        RuntimeError::InvalidArgument => "Virheellinen argumentti"@,
        RuntimeError::DivisionByZero => "Jako nollavirheellä"@,
        RuntimeError::IntegerOverflow => "Kokonaisluvun ylivuoto"@,
        RuntimeError::OutOfFuel => "Suorituksen askelraja ylittyi"@,
    }
}

impl LexError {
    pub fn kind(&self) -> (kind: ErrorKind)
        ensures
            kind == ErrorKind::LexicalError,
    {
        ErrorKind::LexicalError
    }

    /// The character position at which the error was found.
    pub fn position(&self) -> (position: usize)
        ensures
            position == match *self {
                LexError::UnexpectedCharacter { position, .. } => position,
                LexError::MalformedNumber { position } => position,
                LexError::UnterminatedString { position } => position,
                LexError::UnterminatedComment { position } => position,
            },
    {
        match self {
            LexError::UnexpectedCharacter { position, .. } => *position,
            LexError::MalformedNumber { position } => *position,
            LexError::UnterminatedString { position } => *position,
            LexError::UnterminatedComment { position } => *position,
        }
    }

    pub fn message(&self) -> (message: String)
        ensures
            message@ == lex_message(*self),
    {
        match self {
            LexError::UnexpectedCharacter { .. } => String::from_str(
                "Lähteestä löytyi tuntematon merkki",
            ),
            LexError::MalformedNumber { .. } => String::from_str("Odottamaton '.' numerossa"),
            LexError::UnterminatedString { .. } => String::from_str(
                "Merkkijonolta puuttuu sulkeva lainausmerkki",
            ),
            LexError::UnterminatedComment { .. } => String::from_str(
                "Kommentilta puuttuu sulkeva '*/'",
            ),
        }
    }
}

impl SyntaxError {
    pub fn kind(&self) -> (kind: ErrorKind)
        ensures
            kind == ErrorKind::SyntaxError,
    {
        ErrorKind::SyntaxError
    }

    /// The token position at which the error was found.
    pub fn position(&self) -> (position: usize)
        ensures
            position == match *self {
                SyntaxError::UnexpectedToken { position } => position,
                SyntaxError::ExpectedToken { position, .. } => position,
                SyntaxError::MissingInitializer { position } => position,
                SyntaxError::InvalidParameter { position } => position,
            },
    {
        match self {
            SyntaxError::UnexpectedToken { position } => *position,
            SyntaxError::ExpectedToken { position, .. } => *position,
            SyntaxError::MissingInitializer { position } => *position,
            SyntaxError::InvalidParameter { position } => *position,
        }
    }

    pub fn message(&self) -> (message: String)
        ensures
            message@ == syntax_message(*self),
    {
        match self {
            SyntaxError::UnexpectedToken { .. } => String::from_str(
                "Odottamaton tunnus löytyi jäsentämisen aikana",
            ),
            SyntaxError::ExpectedToken { .. } => String::from_str("Odotettua tunnusta ei löytynyt"),
            SyntaxError::MissingInitializer { .. } => String::from_str(
                "Vakiolausekkeelle on annettava arvo ja arvoa ei ole annettu",
            ),
            SyntaxError::InvalidParameter { .. } => String::from_str(
                "Funktiomäärityksen sisällä olevien parametrien odotetaan olevan tyyppiä merkkijono",
            ),
        }
    }
}

impl RuntimeError {
    pub fn message(&self) -> (message: String)
        ensures
            message@ == runtime_message(*self),
    {
        match self {
            RuntimeError::AlreadyDeclared => String::from_str(
                "Ei voida määrittää muuttujaa, sillä se on jo määritelty",
            ),
            RuntimeError::NotDeclared => String::from_str(
                "Kohdetta ei voida ratkaista, koska sitä ei ole olemassa",
            ),
            RuntimeError::AssignedConstant => String::from_str(
                "Ei voida määrittää uudelleen muuttujaa, koska se luotiin vakioksi",
            ),
            RuntimeError::UnsupportedOperands => String::from_str("Tukematon operandityyppi"),
            RuntimeError::UnsupportedOperator => String::from_str("Odottamaton unaarinen operaattori"),
            RuntimeError::ConditionNotBool => String::from_str(
                "jos-muuten-lausekkeen ehto on arvioitava totuusarvoksi",
            ),
            RuntimeError::NotCallable => String::from_str(
                "Ei voida kutsua arvoa, joka ei ole funktio",
            ),
            RuntimeError::ArityMismatch => String::from_str("Väärä argumenttien määrä"),
            RuntimeError::NotAnObject => String::from_str("Vain olioilla on ominaisuuksia"),
            RuntimeError::MissingProperty => String::from_str("Oliossa ei ole ominaisuutta"),
            RuntimeError::InvalidProperty => String::from_str("Omaisuuden on oltava tunniste"),
            RuntimeError::InvalidAssignmentTarget => String::from_str(
                "Virheellinen vasen puoli lausekkeen sisällä",
            ),
            RuntimeError::InvalidNumber => String::from_str("Lukua ei voitu lukea"),
            RuntimeError::InvalidArgument => String::from_str("Virheellinen argumentti"),
            RuntimeError::DivisionByZero => String::from_str("Jako nollavirheellä"),
            RuntimeError::IntegerOverflow => String::from_str("Kokonaisluvun ylivuoto"),
            RuntimeError::OutOfFuel => String::from_str("Suorituksen askelraja ylittyi"),
        }
    }
}

impl ParseError {
    pub fn kind(&self) -> (kind: ErrorKind)
        ensures
            kind == match *self {
                ParseError::Lexical(_) => ErrorKind::LexicalError,
                ParseError::Syntax(_) => ErrorKind::SyntaxError,
            },
    {
        match self {
            ParseError::Lexical(_) => ErrorKind::LexicalError,
            ParseError::Syntax(_) => ErrorKind::SyntaxError,
        }
    }

    pub fn message(&self) -> (message: String)
        ensures
            message@ == match *self {
                ParseError::Lexical(e) => lex_message(e),
                ParseError::Syntax(e) => syntax_message(e),
            },
    {
        match self {
            ParseError::Lexical(e) => e.message(),
            ParseError::Syntax(e) => e.message(),
        }
    }
}


/// Why running a source text stopped: it is no program, or the program
/// failed.
#[derive(Clone, Copy, Debug, PartialEq, Eq, Structural)]
pub enum Error {
    Parse(ParseError),
    Runtime(RuntimeError),
}

/// The class of an error.
pub open spec fn error_kind(error: Error) -> ErrorKind {
    match error {
        Error::Parse(ParseError::Lexical(_)) => ErrorKind::LexicalError,
        Error::Parse(ParseError::Syntax(_)) => ErrorKind::SyntaxError,
        Error::Runtime(e) => runtime_kind(e),
    }
}

/// What an error says.
pub open spec fn error_message(error: Error) -> Seq<char> {
    match error {
        Error::Parse(ParseError::Lexical(e)) => lex_message(e),
        Error::Parse(ParseError::Syntax(e)) => syntax_message(e),
        Error::Runtime(e) => runtime_message(e),
    }
}

impl Error {
    pub fn kind(&self) -> (kind: ErrorKind)
        ensures
            kind == error_kind(*self),
    {
        match self {
            Error::Parse(e) => e.kind(),
            Error::Runtime(e) => e.kind(),
        }
    }

    pub fn message(&self) -> (message: String)
        ensures
            message@ == error_message(*self),
    {
        match self {
            Error::Parse(e) => e.message(),
            Error::Runtime(e) => e.message(),
        }
    }
}

} // verus!
