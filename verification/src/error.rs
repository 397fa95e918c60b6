//! What can be wrong with a call expression, and where.

use vstd::prelude::*;

verus! {

/// What the grammar asked for at the place where the input did not fit.
#[derive(Clone, Copy, Debug, PartialEq, Eq, Hash, Structural)]
pub enum Expected {
    /// A word that is not reserved.
    Identifier,
    /// The word `static` in front of the class of a static call.
    Static,
    /// The `.` between a receiver and the method name.
    Dot,
    /// The `::` between the class of a static call and the method name.
    PathSeparator,
    /// The `(` that opens a parameter list or a value.
    OpenParenthesis,
    /// The bracket that closes a group.
    ClosingBracket,
    /// The `->` in front of the return type.
    Arrow,
    /// The `<` that opens the arguments of `Option` or `Result`.
    LessThan,
    /// The `>` that closes the arguments of `Option` or `Result`.
    GreaterThan,
    /// The `,` between two parameters, or between the two arguments of `Result`.
    Comma,
    /// A value: at least one token.
    Expression,
    /// The end of the input, or of the enclosing group.
    End,
}

/// The kinds of error that parsing reports.
#[derive(Clone, Copy, Debug, PartialEq, Eq, Hash, Structural)]
pub enum ParseErrorKind {
    /// A class path without a single segment.
    EmptyPath,
    /// A class path that names a class but no package.
    MissingPackage,
    /// A `.` or `$` of a class path with no segment behind it.
    TrailingSeparator,
    /// `void` as the type of a parameter.
    VoidNotAllowedHere,
    /// `Option` around a type that is not a class.
    OptionRequiresObjectType,
    /// `Result` as the first argument of `Result`.
    NestedResultNotAllowed,
    /// An error type of `Result` other than `String`.
    UnsupportedErrorType,
    /// Any other mismatch, with what was expected.
    SyntaxError(Expected),
}

/// An error of parsing: its kind, and the index of the token that caused it.
/// Where the input, or a group, ended too early, that is the index just behind
/// the last token read.
#[derive(Clone, Copy, Debug, PartialEq, Eq, Hash, Structural)]
pub struct ParseError {
    pub kind: ParseErrorKind,
    pub position: usize,
}

/// The error of kind `kind` at index `position`.
pub open spec fn error_at(kind: ParseErrorKind, position: int) -> ParseError {
    ParseError { kind, position: position as usize }
}

/// A syntax error at index `position`, where `expected` was asked for.
pub open spec fn syntax_error(expected: Expected, position: int) -> ParseError {
    error_at(ParseErrorKind::SyntaxError(expected), position)
}

/// What reading a prefix of `len` tokens gave, taken as the reading of all of
/// them: the value, where nothing is left behind it.
pub open spec fn whole<T>(len: nat, read: Result<(T, int), ParseError>) -> Result<T, ParseError> {
    match read {
        Ok((value, next)) => if next == len {
            Ok(value)
        } else {
            Err(syntax_error(Expected::End, next))
        },
        Err(e) => Err(e),
    }
}

impl Expected {
    /// The words that name this expectation in a message.
    pub open spec fn description(self) -> Seq<char> {
        match self {
            Expected::Identifier => "identifier"@,
            Expected::Static => "`static`"@,
            Expected::Dot => "`.`"@,
            Expected::PathSeparator => "`::`"@,
            Expected::OpenParenthesis => "`(`"@,
            Expected::ClosingBracket => "closing bracket"@,
            Expected::Arrow => "`->`"@,
            Expected::LessThan => "`<`"@,
            Expected::GreaterThan => "`>`"@,
            Expected::Comma => "`,`"@,
            Expected::Expression => "expression"@,
            Expected::End => "end of input"@,
        }
    }

    /// The words that name this expectation in a message.
    pub fn describe(&self) -> (r: &'static str)
        ensures
            r@ == self.description(),
    {
        match self {
            Expected::Identifier => "identifier",
            Expected::Static => "`static`",
            Expected::Dot => "`.`",
            Expected::PathSeparator => "`::`",
            Expected::OpenParenthesis => "`(`",
            Expected::ClosingBracket => "closing bracket",
            Expected::Arrow => "`->`",
            Expected::LessThan => "`<`",
            Expected::GreaterThan => "`>`",
            Expected::Comma => "`,`",
            Expected::Expression => "expression",
            Expected::End => "end of input",
        }
    }
}

impl ParseErrorKind {
    /// The text of the diagnostic for this kind of error.
    pub open spec fn message(self) -> Seq<char> {
        match self {
            ParseErrorKind::EmptyPath => "Java Class Path must not be empty"@,
            ParseErrorKind::MissingPackage =>
                "Java Class Path must have more than one component, such as `me.author`"@,
            ParseErrorKind::TrailingSeparator =>
                "Java Class Path must not end with a separator"@,
            ParseErrorKind::VoidNotAllowedHere => "Parameters can't have type Void"@,
            ParseErrorKind::OptionRequiresObjectType =>
                "Option cannot be used with primitives, only Classes."@,
            ParseErrorKind::NestedResultNotAllowed => "Can't nest a Result within a Result"@,
            ParseErrorKind::UnsupportedErrorType =>
                "For now, only 'String' is supported as the Error type of the Result."@,
            ParseErrorKind::SyntaxError(expected) => "expected "@ + expected.description(),
        }
    }

    /// The text of the diagnostic for this kind of error.
    pub fn to_string(&self) -> (r: String)
        ensures
            r@ == self.message(),
    {
        match self {
            ParseErrorKind::EmptyPath => String::from_str("Java Class Path must not be empty"),
            ParseErrorKind::MissingPackage => String::from_str(
                "Java Class Path must have more than one component, such as `me.author`",
            ),
            ParseErrorKind::TrailingSeparator => String::from_str(
                "Java Class Path must not end with a separator",
            ),
            ParseErrorKind::VoidNotAllowedHere => String::from_str(
                "Parameters can't have type Void",
            ),
            ParseErrorKind::OptionRequiresObjectType => String::from_str(
                "Option cannot be used with primitives, only Classes.",
            ),
            ParseErrorKind::NestedResultNotAllowed => String::from_str(
                "Can't nest a Result within a Result",
            ),
            ParseErrorKind::UnsupportedErrorType => String::from_str(
                "For now, only 'String' is supported as the Error type of the Result.",
            ),
            ParseErrorKind::SyntaxError(expected) => String::from_str("expected ").concat(
                expected.describe(),
            ),
        }
    }
}

} // verus!
