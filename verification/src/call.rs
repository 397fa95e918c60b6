//! The call expression: its syntax tree and the grammar that reads it.
//!
//! ```text
//! call        ::= target method_name '(' (param (',' param)*)? ')' '->' return_spec
//! target      ::= 'static' class_path '::'
//!               | receiver '.'
//! param       ::= type '(' value ')'
//!               | '[' type ']' '(' value ')'
//!               | '[' type ']' '(' '[' (value (',' value)*)? ']' ')'
//! return_spec ::= type
//!               | 'Option' '<' class_path '>'
//!               | 'Result' '<' (type | 'Option' '<' class_path '>') ',' 'String' '>'
//! ```
//!
//! A receiver is an identifier, or any tokens enclosed in parentheses or
//! braces. A value is a run of at least one token; in an array literal it
//! ends at the next comma outside every bracket. A list may end with a comma.

use crate::balance::{lemma_call_balanced, lemma_param_balanced};
use crate::error::{error_at, syntax_error, whole, Expected, ParseError, ParseErrorKind};
use crate::token::{
    close_of, copy_range, find_close, ident_at, lemma_close_bounds, lemma_runs_push, open_at,
    pair_at, punct_at, runs, text_at, word_at, Delimiter, Token,
};
use crate::types::{
    class_path_at, lemma_type_advances, type_at, ClassPath, ClassPathView, Type, TypeView,
};
use vstd::prelude::*;

verus! {

/// The target of a call to a static method: the class that has the method.
/// It is written `static me.author.Class::`.
#[derive(Debug, PartialEq, Eq, Hash)]
pub struct StaticMethod(pub ClassPath);

/// The target of a call to a method of an object: the tokens of the
/// expression that gives the object. It is written `object.`, or, where the
/// expression is more than an identifier, `(expression).` or `{expression}.`.
#[derive(Debug, PartialEq, Eq, Hash)]
pub struct ObjectMethod(pub Vec<Token>);

/// What a method is called on.
#[derive(Debug, PartialEq, Eq, Hash)]
pub enum CallType {
    /// A class, for a static method.
    Static(StaticMethod),
    /// An object.
    Object(ObjectMethod),
}

/// A parameter of a call: a type and a value, or a type and the elements of an array.
#[derive(Debug, PartialEq, Eq, Hash)]
pub enum Parameter {
    /// `int(value)` or `java.lang.String(value)`
    Single { ty: Type, value: Vec<Token> },
    /// `[int](value)` or `[java.lang.String](value)`: an array that exists already.
    Array { ty: Type, value: Vec<Token> },
    /// `[int]([value1, value2])`: an array made of the values given.
    ArrayLiteral { ty: Type, array: Vec<Vec<Token>> },
}

/// The first argument of `Result`: a type, or `Option` around a class.
#[derive(Debug, PartialEq, Eq, Hash)]
pub enum ResultType {
    Assertive(Type),
    Option(ClassPath),
}

/// What the caller expects a call to give back.
#[derive(Debug, PartialEq, Eq, Hash)]
pub enum Return {
    /// A value of the type. The method neither returns `null` nor throws.
    Assertive(Type),
    /// An object of the class, or nothing where the method returns `null`.
    Option(ClassPath),
    /// What the first field says, or an error where the method throws. The
    /// error is a `String`: the only error type there is.
    Result(ResultType, ()),
}

/// A call of a Java method: where it goes, the name of the method, the
/// parameters in order, and what comes back.
#[derive(Debug, PartialEq, Eq, Hash)]
pub struct MethodCall {
    pub call_type: CallType,
    pub method_name: String,
    pub parameters: Vec<Parameter>,
    pub return_type: Return,
}

/// The target of a call as mathematical data.
pub enum CallTypeView {
    Static(ClassPathView),
    Object(Seq<Token>),
}

/// A parameter as mathematical data.
pub enum ParameterView {
    Single { ty: TypeView, value: Seq<Token> },
    Array { ty: TypeView, value: Seq<Token> },
    ArrayLiteral { ty: TypeView, array: Seq<Seq<Token>> },
}

/// The first argument of `Result` as mathematical data.
pub enum ResultTypeView {
    Assertive(TypeView),
    Option(ClassPathView),
}

/// A return specification as mathematical data.
pub enum ReturnView {
    Assertive(TypeView),
    Option(ClassPathView),
    Result(ResultTypeView),
}

/// A call as mathematical data.
pub struct MethodCallView {
    pub call_type: CallTypeView,
    pub method_name: Seq<char>,
    pub parameters: Seq<ParameterView>,
    pub return_type: ReturnView,
}

impl View for CallType {
    type V = CallTypeView;

    open spec fn view(&self) -> CallTypeView {
        match self {
            CallType::Static(target) => CallTypeView::Static(target.0@),
            CallType::Object(target) => CallTypeView::Object(target.0@),
        }
    }
}

impl View for Parameter {
    type V = ParameterView;

    open spec fn view(&self) -> ParameterView {
        match self {
            Parameter::Single { ty, value } => ParameterView::Single { ty: ty@, value: value@ },
            Parameter::Array { ty, value } => ParameterView::Array { ty: ty@, value: value@ },
            Parameter::ArrayLiteral { ty, array } => ParameterView::ArrayLiteral {
                ty: ty@,
                array: runs(array@),
            },
        }
    }
}

impl View for ResultType {
    type V = ResultTypeView;

    open spec fn view(&self) -> ResultTypeView {
        match self {
            ResultType::Assertive(ty) => ResultTypeView::Assertive(ty@),
            ResultType::Option(class) => ResultTypeView::Option(class@),
        }
    }
}

impl View for Return {
    type V = ReturnView;

    open spec fn view(&self) -> ReturnView {
        match self {
            Return::Assertive(ty) => ReturnView::Assertive(ty@),
            Return::Option(class) => ReturnView::Option(class@),
            Return::Result(ok, _) => ReturnView::Result(ok@),
        }
    }
}

/// The views of a list of parameters.
pub open spec fn parameter_views(items: Seq<Parameter>) -> Seq<ParameterView> {
    items.map_values(|parameter: Parameter| parameter@)
}

/// Appending a parameter to a list appends its view to the list's views.
pub proof fn lemma_parameter_views_push(items: Seq<Parameter>, last: Parameter)
    ensures
        parameter_views(items.push(last)) == parameter_views(items).push(last@),
{
    assert(parameter_views(items.push(last)) =~= parameter_views(items).push(last@));
}

impl View for MethodCall {
    type V = MethodCallView;

    open spec fn view(&self) -> MethodCallView {
        MethodCallView {
            call_type: self.call_type@,
            method_name: self.method_name@,
            parameters: parameter_views(self.parameters@),
            return_type: self.return_type@,
        }
    }
}

impl ParameterView {
    /// The type of the parameter: of the value, or of each element of the array.
    pub open spec fn ty(self) -> TypeView {
        match self {
            ParameterView::Single { ty, .. } => ty,
            ParameterView::Array { ty, .. } => ty,
            ParameterView::ArrayLiteral { ty, .. } => ty,
        }
    }

    /// Whether the parameter is an array, given as it is or by its elements.
    pub open spec fn is_array(self) -> bool {
        !(self is Single)
    }

    /// A parameter is well formed when its type is not `void`.
    pub open spec fn well_formed(self) -> bool {
        !(self.ty() is Void)
    }
}

impl MethodCallView {
    /// A call is well formed when none of its parameters has the type `void`.
    pub open spec fn well_formed(self) -> bool {
        forall|i: int|
            0 <= i < self.parameters.len() ==> (#[trigger] self.parameters[i]).well_formed()
    }
}

impl ResultTypeView {
    /// The type of the value that crosses the bridge.
    pub open spec fn payload(self) -> TypeView {
        match self {
            ResultTypeView::Assertive(ty) => ty,
            ResultTypeView::Option(class) => TypeView::Object(class),
        }
    }
}

impl ReturnView {
    /// The type of the value that crosses the bridge: what is left when
    /// `Option` and `Result` are taken away.
    pub open spec fn payload(self) -> TypeView {
        match self {
            ReturnView::Assertive(ty) => ty,
            ReturnView::Option(class) => TypeView::Object(class),
            ReturnView::Result(ok) => ok.payload(),
        }
    }
}

/// The list `head` in front of the list that `tail` holds, or the error that it holds.
pub open spec fn prepend<T>(head: Seq<T>, tail: Result<Seq<T>, ParseError>) -> Result<
    Seq<T>,
    ParseError,
> {
    match tail {
        Ok(rest) => Ok(head + rest),
        Err(e) => Err(e),
    }
}

/// The index at which the value that starts at index `i` ends: that of the
/// next comma outside every bracket, or the end of `t`.
pub open spec fn element_end(t: Seq<Token>, i: int) -> int
    decreases t.len() - i,
{
    if i < 0 || i >= t.len() {
        t.len() as int
    } else if punct_at(t, i, ',') {
        i
    } else if t[i] is Open {
        match close_of(t, i) {
            Some(c) => {
                proof {
                    lemma_close_bounds(t, i);
                }
                element_end(t, c + 1)
            },
            None => t.len() as int,
        }
    } else {
        element_end(t, i + 1)
    }
}

/// A value ends at or behind its start, and inside the input.
pub proof fn lemma_element_end_bounds(t: Seq<Token>, i: int)
    requires
        0 <= i <= t.len(),
    ensures
        i <= element_end(t, i) <= t.len(),
    decreases t.len() - i,
{
    if i >= t.len() {
    } else if punct_at(t, i, ',') {
    } else if t[i] is Open {
        match close_of(t, i) {
            Some(c) => {
                lemma_close_bounds(t, i);
                lemma_element_end_bounds(t, c + 1);
            },
            None => {},
        }
    } else {
        lemma_element_end_bounds(t, i + 1);
    }
}

/// Reads the values of an array literal from index `i` to the end of `t`:
/// runs of tokens with a comma between them, and perhaps one behind the last.
pub open spec fn elements_from(t: Seq<Token>, i: int) -> Result<Seq<Seq<Token>>, ParseError>
    decreases t.len() - i,
{
    if i < 0 || i >= t.len() {
        Ok(Seq::empty())
    } else {
        let e = element_end(t, i);
        if e <= i {
            Err(syntax_error(Expected::Expression, i))
        } else if e >= t.len() {
            Ok(seq![t.subrange(i, t.len() as int)])
        } else {
            prepend(seq![t.subrange(i, e)], elements_from(t, e + 1))
        }
    }
}

/// Reads the parenthesised value that starts at index `p`. Gives the index
/// of the closing parenthesis; the value lies between the two.
pub open spec fn value_at(t: Seq<Token>, p: int) -> Result<int, ParseError> {
    if !open_at(t, p, Delimiter::Parenthesis) {
        Err(syntax_error(Expected::OpenParenthesis, p))
    } else {
        match close_of(t, p) {
            None => Err(syntax_error(Expected::ClosingBracket, p)),
            Some(c) => if c == p + 1 {
                Err(syntax_error(Expected::Expression, c))
            } else {
                Ok(c)
            },
        }
    }
}

/// Reads what follows the bracketed type of an array parameter: the value, or
/// the bracketed list of the elements. `p` is the index of the opening parenthesis.
pub open spec fn array_value_at(t: Seq<Token>, ty: TypeView, p: int) -> Result<
    (ParameterView, int),
    ParseError,
> {
    match value_at(t, p) {
        Err(e) => Err(e),
        Ok(c) => if !open_at(t, p + 1, Delimiter::Bracket) {
            Ok((ParameterView::Array { ty, value: t.subrange(p + 1, c) }, c + 1))
        } else {
            match close_of(t.take(c), p + 1) {
                None => Err(syntax_error(Expected::ClosingBracket, p + 1)),
                Some(b) => if b + 1 != c {
                    Err(syntax_error(Expected::ClosingBracket, b + 1))
                } else {
                    match elements_from(t.take(b), p + 2) {
                        Err(e) => Err(e),
                        Ok(array) => Ok((ParameterView::ArrayLiteral { ty, array }, c + 1)),
                    }
                },
            }
        },
    }
}

/// Reads the parameter that starts at index `p`. Gives the parameter and the
/// index behind it.
pub open spec fn param_at(t: Seq<Token>, p: int) -> Result<(ParameterView, int), ParseError> {
    if open_at(t, p, Delimiter::Bracket) {
        match close_of(t, p) {
            None => Err(syntax_error(Expected::ClosingBracket, p)),
            Some(c) => match type_at(t.take(c), p + 1) {
                Err(e) => Err(e),
                Ok((ty, next)) => if next != c {
                    Err(syntax_error(Expected::ClosingBracket, next))
                } else if ty is Void {
                    Err(error_at(ParseErrorKind::VoidNotAllowedHere, p + 1))
                } else {
                    array_value_at(t, ty, c + 1)
                },
            },
        }
    } else {
        match type_at(t, p) {
            Err(e) => Err(e),
            Ok((ty, next)) => if ty is Void {
                Err(error_at(ParseErrorKind::VoidNotAllowedHere, p))
            } else {
                match value_at(t, next) {
                    Err(e) => Err(e),
                    Ok(c) => Ok((ParameterView::Single { ty, value: t.subrange(next + 1, c) }, c + 1)),
                }
            },
        }
    }
}

/// A parameter that was read ends behind its start and inside the input, and
/// its type is not `void`.
pub proof fn lemma_param_advances(t: Seq<Token>, p: int)
    ensures
        param_at(t, p) matches Ok((parameter, next)) ==> p < next <= t.len() && !(
        parameter.ty() is Void),
{
    if open_at(t, p, Delimiter::Bracket) {
        lemma_close_bounds(t, p);
        match close_of(t, p) {
            Some(c) => {
                lemma_close_bounds(t, c + 1);
            },
            None => {},
        }
    } else {
        lemma_type_advances(t, p);
        match type_at(t, p) {
            Ok((_, next)) => {
                lemma_close_bounds(t, next);
            },
            Err(_) => {},
        }
    }
}

/// Reads the parameters from index `q` to the end of `t`, with a comma
/// between them, and perhaps one behind the last.
pub open spec fn params_from(t: Seq<Token>, q: int) -> Result<Seq<ParameterView>, ParseError>
    decreases t.len() - q,
{
    if q < 0 || q >= t.len() {
        Ok(Seq::empty())
    } else {
        match param_at(t, q) {
            Err(e) => Err(e),
            Ok((parameter, next)) => if next >= t.len() {
                Ok(seq![parameter])
            } else if !punct_at(t, next, ',') {
                Err(syntax_error(Expected::Comma, next))
            } else {
                proof {
                    lemma_param_advances(t, q);
                }
                prepend(seq![parameter], params_from(t, next + 1))
            },
        }
    }
}

/// Reads the argument of `Option`: `<`, a class path, `>`. `p` is the index
/// behind the word `Option`.
pub open spec fn option_at(t: Seq<Token>, p: int) -> Result<(ClassPathView, int), ParseError> {
    if !punct_at(t, p, '<') {
        Err(syntax_error(Expected::LessThan, p))
    } else {
        match type_at(t, p + 1) {
            Err(e) => Err(e),
            Ok((ty, next)) => match ty {
                TypeView::Object(class) => if punct_at(t, next, '>') {
                    Ok((class, next + 1))
                } else {
                    Err(syntax_error(Expected::GreaterThan, next))
                },
                _ => Err(error_at(ParseErrorKind::OptionRequiresObjectType, p + 1)),
            },
        }
    }
}

/// Reads the first argument of `Result`, which starts at index `p`.
pub open spec fn result_type_at(t: Seq<Token>, p: int) -> Result<(ResultTypeView, int), ParseError> {
    if word_at(t, p, "Option"@) {
        match option_at(t, p + 1) {
            Ok((class, next)) => Ok((ResultTypeView::Option(class), next)),
            Err(e) => Err(e),
        }
    } else if word_at(t, p, "Result"@) {
        Err(error_at(ParseErrorKind::NestedResultNotAllowed, p))
    } else {
        match type_at(t, p) {
            Ok((ty, next)) => Ok((ResultTypeView::Assertive(ty), next)),
            Err(e) => Err(e),
        }
    }
}

/// Reads the return specification that starts at index `p`.
pub open spec fn return_at(t: Seq<Token>, p: int) -> Result<(ReturnView, int), ParseError> {
    if word_at(t, p, "Option"@) {
        match option_at(t, p + 1) {
            Ok((class, next)) => Ok((ReturnView::Option(class), next)),
            Err(e) => Err(e),
        }
    } else if word_at(t, p, "Result"@) {
        if !punct_at(t, p + 1, '<') {
            Err(syntax_error(Expected::LessThan, p + 1))
        } else {
            match result_type_at(t, p + 2) {
                Err(e) => Err(e),
                Ok((ok, next)) => if !punct_at(t, next, ',') {
                    Err(syntax_error(Expected::Comma, next))
                } else if !word_at(t, next + 1, "String"@) {
                    Err(error_at(ParseErrorKind::UnsupportedErrorType, next + 1))
                } else if !punct_at(t, next + 2, '>') {
                    Err(syntax_error(Expected::GreaterThan, next + 2))
                } else {
                    Ok((ReturnView::Result(ok), next + 3))
                },
            }
        }
    } else {
        match type_at(t, p) {
            Ok((ty, next)) => Ok((ReturnView::Assertive(ty), next)),
            Err(e) => Err(e),
        }
    }
}

/// `Option` takes a class and nothing else: around `void` or a primitive,
/// under its Java name or its Rust name, it is an error, which is reported at
/// the type. Around a class path that is closed by `>` it is read.
pub proof fn lemma_option_requires_object(t: Seq<Token>, p: int)
    requires
        word_at(t, p, "Option"@),
        punct_at(t, p + 1, '<'),
    ensures
        match type_at(t, p + 2) {
            Ok((TypeView::Object(class), next)) => punct_at(t, next, '>') ==> return_at(t, p)
                == Ok::<(ReturnView, int), ParseError>((ReturnView::Option(class), next + 1)),
            Ok(_) => return_at(t, p) == Err::<(ReturnView, int), ParseError>(
                error_at(ParseErrorKind::OptionRequiresObjectType, p + 2),
            ),
            Err(e) => return_at(t, p) == Err::<(ReturnView, int), ParseError>(e),
        },
{
}

/// `Result` does not take `Result` as its first argument: the error is
/// reported at the inner word, whatever follows it.
pub proof fn lemma_nested_result_rejected(t: Seq<Token>, p: int)
    requires
        word_at(t, p, "Result"@),
        punct_at(t, p + 1, '<'),
        word_at(t, p + 2, "Result"@),
    ensures
        return_at(t, p) == Err::<(ReturnView, int), ParseError>(
            error_at(ParseErrorKind::NestedResultNotAllowed, p + 2),
        ),
{
    reveal_strlit("Option");
    reveal_strlit("Result");
    assert("Option"@[0] == 'O' && "Result"@[0] == 'R');
}

/// Reads the target of a static call at index `p`: `static`, a class path, `::`.
pub open spec fn static_method_at(t: Seq<Token>, p: int) -> Result<(ClassPathView, int), ParseError> {
    if !word_at(t, p, "static"@) {
        Err(syntax_error(Expected::Static, p))
    } else {
        match class_path_at(t, p + 1) {
            Err(e) => Err(e),
            Ok((class, next)) => if pair_at(t, next, ':', ':') {
                Ok((class, next + 2))
            } else {
                Err(syntax_error(Expected::PathSeparator, next))
            },
        }
    }
}

/// Reads the target of a call on an object at index `p`: an identifier, or
/// tokens in parentheses or braces, and a `.` behind it.
pub open spec fn object_method_at(t: Seq<Token>, p: int) -> Result<(Seq<Token>, int), ParseError> {
    if open_at(t, p, Delimiter::Parenthesis) || open_at(t, p, Delimiter::Brace) {
        match close_of(t, p) {
            None => Err(syntax_error(Expected::ClosingBracket, p)),
            Some(c) => if c == p + 1 {
                Err(syntax_error(Expected::Expression, c))
            } else if !punct_at(t, c + 1, '.') {
                Err(syntax_error(Expected::Dot, c + 1))
            } else {
                Ok((t.subrange(p + 1, c), c + 2))
            },
        }
    } else if !ident_at(t, p) {
        Err(syntax_error(Expected::Identifier, p))
    } else if !punct_at(t, p + 1, '.') {
        Err(syntax_error(Expected::Dot, p + 1))
    } else {
        Ok((t.subrange(p, p + 1), p + 2))
    }
}

/// Reads the target of a call at index `p`. The word `static` starts the
/// target of a static call, anything else that of a call on an object.
pub open spec fn target_at(t: Seq<Token>, p: int) -> Result<(CallTypeView, int), ParseError> {
    if word_at(t, p, "static"@) {
        match static_method_at(t, p) {
            Ok((class, next)) => Ok((CallTypeView::Static(class), next)),
            Err(e) => Err(e),
        }
    } else {
        match object_method_at(t, p) {
            Ok((receiver, next)) => Ok((CallTypeView::Object(receiver), next)),
            Err(e) => Err(e),
        }
    }
}

/// Reads the parenthesised list of parameters that starts at index `p`.
/// Gives the parameters and the index behind the closing parenthesis.
pub open spec fn arguments_at(t: Seq<Token>, p: int) -> Result<
    (Seq<ParameterView>, int),
    ParseError,
> {
    if !open_at(t, p, Delimiter::Parenthesis) {
        Err(syntax_error(Expected::OpenParenthesis, p))
    } else {
        match close_of(t, p) {
            None => Err(syntax_error(Expected::ClosingBracket, p)),
            Some(c) => match params_from(t.take(c), p + 1) {
                Err(e) => Err(e),
                Ok(parameters) => Ok((parameters, c + 1)),
            },
        }
    }
}

/// Reads `->` and a return specification, from index `p` to the end of `t`.
pub open spec fn arrow_return_at(t: Seq<Token>, p: int) -> Result<ReturnView, ParseError> {
    if !pair_at(t, p, '-', '>') {
        Err(syntax_error(Expected::Arrow, p))
    } else {
        whole(t.len(), return_at(t, p + 2))
    }
}

/// Reads the method name at index `q` and what follows it: the parameters
/// in parentheses, `->` and the return specification, to the end of `t`.
pub open spec fn call_from(t: Seq<Token>, call_type: CallTypeView, q: int) -> Result<
    MethodCallView,
    ParseError,
> {
    if !ident_at(t, q) {
        Err(syntax_error(Expected::Identifier, q))
    } else {
        match arguments_at(t, q + 1) {
            Err(e) => Err(e),
            Ok((parameters, next)) => match arrow_return_at(t, next) {
                Err(e) => Err(e),
                Ok(return_type) => Ok(
                    MethodCallView { call_type, method_name: text_at(t, q), parameters, return_type },
                ),
            },
        }
    }
}

/// Reads a call that takes up the whole of `t`.
pub open spec fn call_of(t: Seq<Token>) -> Result<MethodCallView, ParseError> {
    match target_at(t, 0) {
        Err(e) => Err(e),
        Ok((call_type, q)) => call_from(t, call_type, q),
    }
}

/// No parameter that was read has the type `void`.
pub proof fn lemma_params_well_formed(t: Seq<Token>, q: int)
    ensures
        params_from(t, q) matches Ok(parameters) ==> forall|i: int|
            0 <= i < parameters.len() ==> (#[trigger] parameters[i]).well_formed(),
    decreases t.len() - q,
{
    if 0 <= q < t.len() {
        lemma_param_advances(t, q);
        match param_at(t, q) {
            Ok((parameter, next)) => {
                if next < t.len() && punct_at(t, next, ',') {
                    lemma_params_well_formed(t, next + 1);
                }
            },
            Err(_) => {},
        }
    }
}

/// A call that was read is well formed.
pub proof fn lemma_call_well_formed(t: Seq<Token>)
    ensures
        call_of(t) matches Ok(call) ==> call.well_formed(),
{
    match target_at(t, 0) {
        Ok((_, q)) => {
            match close_of(t, q + 1) {
                Some(c) => {
                    lemma_params_well_formed(t.take(c), q + 2);
                },
                None => {},
            }
        },
        Err(_) => {},
    }
}

/// Whether an identifier stands at index `p`, before `end`.
fn at_ident(tokens: &Vec<Token>, p: usize, end: usize) -> (r: bool)
    requires
        end <= tokens.len(),
    ensures
        r == ident_at(tokens@.take(end as int), p as int),
{
    p < end && tokens[p].is_ident()
}

/// Whether the word `word` stands at index `p`, before `end`.
fn at_word(tokens: &Vec<Token>, p: usize, end: usize, word: &str) -> (r: bool)
    requires
        end <= tokens.len(),
    ensures
        r == word_at(tokens@.take(end as int), p as int, word@),
{
    p < end && tokens[p].is_word(word)
}

/// Whether the punctuation character `c` stands at index `p`, before `end`.
fn at_punct(tokens: &Vec<Token>, p: usize, end: usize, c: char) -> (r: bool)
    requires
        end <= tokens.len(),
    ensures
        r == punct_at(tokens@.take(end as int), p as int, c),
{
    p < end && tokens[p].is_punct(c)
}

/// Whether the two-character punctuation `first second` starts at index `p`
/// and ends before `end`.
fn at_pair(tokens: &Vec<Token>, p: usize, end: usize, first: char, second: char) -> (r: bool)
    requires
        end <= tokens.len(),
    ensures
        r == pair_at(tokens@.take(end as int), p as int, first, second),
{
    p < end && end - p > 1 && tokens[p].is_joint(first) && tokens[p + 1].is_punct(second)
}

/// Whether a bracket of kind `d` opens a group at index `p`, before `end`.
fn at_open(tokens: &Vec<Token>, p: usize, end: usize, d: Delimiter) -> (r: bool)
    requires
        end <= tokens.len(),
    ensures
        r == open_at(tokens@.take(end as int), p as int, d),
{
    p < end && tokens[p].opens(d)
}

/// The syntax error at index `position` where `expected` was asked for.
fn unexpected(expected: Expected, position: usize) -> (r: ParseError)
    ensures
        r == syntax_error(expected, position as int),
{
    ParseError { kind: ParseErrorKind::SyntaxError(expected), position }
}

/// Takes what was read from a prefix as the reading of all the tokens before `end`.
fn finish<T>(read: Result<(T, usize), ParseError>, end: usize) -> (r: Result<T, ParseError>)
    ensures
        r == match read {
            Ok((value, next)) => if next == end {
                Ok::<T, ParseError>(value)
            } else {
                Err(syntax_error(Expected::End, next as int))
            },
            Err(e) => Err(e),
        },
{
    match read {
        Ok((value, next)) => if next == end {
            Ok(value)
        } else {
            Err(unexpected(Expected::End, next))
        },
        Err(e) => Err(e),
    }
}

/// Finds the end of the value that starts at index `start`: the next comma
/// outside every bracket, or `end`.
fn find_element_end(tokens: &Vec<Token>, start: usize, end: usize) -> (r: usize)
    requires
        start <= end <= tokens.len(),
    ensures
        r == element_end(tokens@.take(end as int), start as int),
        start <= r <= end,
{
    let ghost t = tokens@.take(end as int);
    let mut i: usize = start;
    while i < end
        invariant
            start <= i <= end <= tokens.len(),
            t == tokens@.take(end as int),
            element_end(t, start as int) == element_end(t, i as int),
        decreases end - i,
    {
        if tokens[i].is_punct(',') {
            return i;
        }
        if tokens[i].is_open() {
            match find_close(tokens, i, end) {
                Some(c) => {
                    i = c + 1;
                },
                None => {
                    return end;
                },
            }
        } else {
            i = i + 1;
        }
    }
    i
}

/// Reads the values of an array literal between `start` and `end`.
fn read_elements(tokens: &Vec<Token>, start: usize, end: usize) -> (r: Result<
    Vec<Vec<Token>>,
    ParseError,
>)
    requires
        start <= end <= tokens.len(),
    ensures
        match r {
            Ok(array) => elements_from(tokens@.take(end as int), start as int) == Ok::<
                Seq<Seq<Token>>,
                ParseError,
            >(runs(array@)),
            Err(e) => elements_from(tokens@.take(end as int), start as int) == Err::<
                Seq<Seq<Token>>,
                ParseError,
            >(e) && e.position <= end,
        },
{
    let ghost t = tokens@.take(end as int);
    let mut array: Vec<Vec<Token>> = Vec::new();
    let mut i: usize = start;
    assert(runs(array@) + Seq::<Seq<Token>>::empty() =~= runs(array@));
    assert(runs(array@) =~= Seq::<Seq<Token>>::empty());
    while i < end
        invariant
            start <= i <= end <= tokens.len(),
            t == tokens@.take(end as int),
            elements_from(t, start as int) == prepend(runs(array@), elements_from(t, i as int)),
        decreases end - i,
    {
        let e = find_element_end(tokens, i, end);
        if e == i {
            return Err(unexpected(Expected::Expression, i));
        }
        let value = copy_range(tokens, i, e);
        proof {
            lemma_runs_push(array@, value);
            assert(value@ == t.subrange(i as int, e as int));
            if e < end {
                let rest = elements_from(t, e + 1);
                match rest {
                    Ok(more) => {
                        assert(runs(array@) + (seq![value@] + more) =~= runs(array@).push(value@)
                            + more);
                    },
                    Err(_) => {},
                }
            } else {
                assert(runs(array@) + seq![value@] =~= runs(array@).push(value@));
            }
        }
        array.push(value);
        if e == end {
            return Ok(array);
        }
        i = e + 1;
    }
    proof {
        assert(runs(array@) + Seq::<Seq<Token>>::empty() =~= runs(array@));
    }
    Ok(array)
}

/// Reads the parenthesised value that starts at index `p`. Gives the index
/// of the closing parenthesis.
fn read_value(tokens: &Vec<Token>, p: usize, end: usize) -> (r: Result<usize, ParseError>)
    requires
        p <= end <= tokens.len(),
    ensures
        match r {
            Ok(c) => value_at(tokens@.take(end as int), p as int) == Ok::<int, ParseError>(
                c as int,
            ) && p + 1 < c < end,
            Err(e) => value_at(tokens@.take(end as int), p as int) == Err::<int, ParseError>(e)
                && e.position <= end,
        },
{
    if !at_open(tokens, p, end, Delimiter::Parenthesis) {
        return Err(unexpected(Expected::OpenParenthesis, p));
    }
    match find_close(tokens, p, end) {
        None => Err(unexpected(Expected::ClosingBracket, p)),
        Some(c) => if c == p + 1 {
            Err(unexpected(Expected::Expression, c))
        } else {
            Ok(c)
        },
    }
}

impl Parameter {
    /// The type of the parameter: of the value, or of each element of the array.
    pub fn ty(&self) -> (r: &Type)
        ensures
            r@ == self@.ty(),
    {
        match self {
            Parameter::Single { ty, .. } => ty,
            Parameter::Array { ty, .. } => ty,
            Parameter::ArrayLiteral { ty, .. } => ty,
        }
    }

    /// Whether the parameter is an array, given as it is or by its elements.
    pub fn is_array(&self) -> (r: bool)
        ensures
            r == self@.is_array(),
    {
        match self {
            Parameter::Single { .. } => false,
            Parameter::Array { .. } | Parameter::ArrayLiteral { .. } => true,
        }
    }

    /// Reads what follows the bracketed type of an array parameter.
    fn parse_array_value(tokens: &Vec<Token>, ty: Type, p: usize, end: usize) -> (r: Result<
        (Parameter, usize),
        ParseError,
    >)
        requires
            p <= end <= tokens.len(),
        ensures
            match r {
                Ok((parameter, next)) => array_value_at(tokens@.take(end as int), ty@, p as int)
                    == Ok::<(ParameterView, int), ParseError>((parameter@, next as int)) && p < next
                    <= end,
                Err(e) => array_value_at(tokens@.take(end as int), ty@, p as int) == Err::<
                    (ParameterView, int),
                    ParseError,
                >(e) && e.position <= end,
            },
    {
        let ghost t = tokens@.take(end as int);
        let c = match read_value(tokens, p, end) {
            Ok(c) => c,
            Err(e) => { return Err(e); },
        };
        if !at_open(tokens, p + 1, end, Delimiter::Bracket) {
            let value = copy_range(tokens, p + 1, c);
            assert(value@ == t.subrange(p + 1, c as int));
            return Ok((Parameter::Array { ty, value }, c + 1));
        }
        assert(t.take(c as int) =~= tokens@.take(c as int));
        let b = match find_close(tokens, p + 1, c) {
            Some(b) => b,
            None => { return Err(unexpected(Expected::ClosingBracket, p + 1)); },
        };
        if b + 1 != c {
            return Err(unexpected(Expected::ClosingBracket, b + 1));
        }
        assert(t.take(b as int) =~= tokens@.take(b as int));
        match read_elements(tokens, p + 2, b) {
            Ok(array) => Ok((Parameter::ArrayLiteral { ty, array }, c + 1)),
            Err(e) => Err(e),
        }
    }

    /// Reads a parameter that starts at index `start` and ends before `end`.
    /// Gives the parameter and the index behind its last token.
    pub fn parse_prefix(tokens: &Vec<Token>, start: usize, end: usize) -> (r: Result<
        (Parameter, usize),
        ParseError,
    >)
        requires
            start <= end <= tokens.len(),
        ensures
            match r {
                Ok((parameter, next)) => {
                    &&& param_at(tokens@.take(end as int), start as int) == Ok::<
                        (ParameterView, int),
                        ParseError,
                    >((parameter@, next as int))
                    &&& start < next <= end
                    &&& parameter@.well_formed()
                    &&& parameter@.balanced()
                },
                Err(e) => param_at(tokens@.take(end as int), start as int) == Err::<
                    (ParameterView, int),
                    ParseError,
                >(e) && e.position <= end,
            },
    {
        let ghost t = tokens@.take(end as int);
        proof {
            lemma_param_advances(t, start as int);
            lemma_param_balanced(t, start as int);
        }
        if at_open(tokens, start, end, Delimiter::Bracket) {
            let c = match find_close(tokens, start, end) {
                Some(c) => c,
                None => { return Err(unexpected(Expected::ClosingBracket, start)); },
            };
            assert(t.take(c as int) =~= tokens@.take(c as int));
            let (ty, next) = match Type::parse_prefix(tokens, start + 1, c) {
                Ok(read) => read,
                Err(e) => { return Err(e); },
            };
            if next != c {
                return Err(unexpected(Expected::ClosingBracket, next));
            }
            if ty.is_void() {
                return Err(
                    ParseError { kind: ParseErrorKind::VoidNotAllowedHere, position: start + 1 },
                );
            }
            Parameter::parse_array_value(tokens, ty, c + 1, end)
        } else {
            let (ty, next) = match Type::parse_prefix(tokens, start, end) {
                Ok(read) => read,
                Err(e) => { return Err(e); },
            };
            if ty.is_void() {
                return Err(ParseError { kind: ParseErrorKind::VoidNotAllowedHere, position: start });
            }
            let c = match read_value(tokens, next, end) {
                Ok(c) => c,
                Err(e) => { return Err(e); },
            };
            let value = copy_range(tokens, next + 1, c);
            assert(value@ == t.subrange(next + 1, c as int));
            Ok((Parameter::Single { ty, value }, c + 1))
        }
    }

    /// Reads a parameter that takes up the whole of `tokens`.
    pub fn parse(tokens: &Vec<Token>) -> (r: Result<Parameter, ParseError>)
        ensures
            match r {
                Ok(parameter) => whole(tokens@.len(), param_at(tokens@, 0)) == Ok::<
                    ParameterView,
                    ParseError,
                >(parameter@) && parameter@.well_formed() && parameter@.balanced(),
                Err(e) => whole(tokens@.len(), param_at(tokens@, 0)) == Err::<
                    ParameterView,
                    ParseError,
                >(e) && e.position <= tokens.len(),
            },
    {
        assert(tokens@.take(tokens.len() as int) == tokens@);
        finish(Parameter::parse_prefix(tokens, 0, tokens.len()), tokens.len())
    }
}

/// Reads the parameters between `start` and `end`.
fn read_parameters(tokens: &Vec<Token>, start: usize, end: usize) -> (r: Result<
    Vec<Parameter>,
    ParseError,
>)
    requires
        start <= end <= tokens.len(),
    ensures
        match r {
            Ok(parameters) => params_from(tokens@.take(end as int), start as int) == Ok::<
                Seq<ParameterView>,
                ParseError,
            >(parameter_views(parameters@)),
            Err(e) => params_from(tokens@.take(end as int), start as int) == Err::<
                Seq<ParameterView>,
                ParseError,
            >(e) && e.position <= end,
        },
{
    let ghost t = tokens@.take(end as int);
    let mut parameters: Vec<Parameter> = Vec::new();
    let mut q: usize = start;
    assert(parameter_views(parameters@) =~= Seq::<ParameterView>::empty());
    while q < end
        invariant
            start <= q <= end <= tokens.len(),
            t == tokens@.take(end as int),
            params_from(t, start as int) == prepend(
                parameter_views(parameters@),
                params_from(t, q as int),
            ),
        decreases end - q,
    {
        let (parameter, next) = match Parameter::parse_prefix(tokens, q, end) {
            Ok(read) => read,
            Err(e) => { return Err(e); },
        };
        proof {
            lemma_parameter_views_push(parameters@, parameter);
            let before = parameter_views(parameters@);
            if next < end && punct_at(t, next as int, ',') {
                match params_from(t, next + 1) {
                    Ok(more) => {
                        assert(before + (seq![parameter@] + more) =~= before.push(parameter@)
                            + more);
                    },
                    Err(_) => {},
                }
            } else {
                assert(before + seq![parameter@] =~= before.push(parameter@));
            }
        }
        parameters.push(parameter);
        if next == end {
            return Ok(parameters);
        }
        if !at_punct(tokens, next, end, ',') {
            return Err(unexpected(Expected::Comma, next));
        }
        q = next + 1;
    }
    proof {
        assert(parameter_views(parameters@) + Seq::<ParameterView>::empty() =~= parameter_views(
            parameters@,
        ));
    }
    Ok(parameters)
}

impl Return {
    /// Reads the argument of `Option`: `<`, a class path, `>`. `p` is the
    /// index behind the word `Option`.
    fn parse_option(tokens: &Vec<Token>, p: usize, end: usize) -> (r: Result<
        (ClassPath, usize),
        ParseError,
    >)
        requires
            p <= end <= tokens.len(),
        ensures
            match r {
                Ok((class, next)) => option_at(tokens@.take(end as int), p as int) == Ok::<
                    (ClassPathView, int),
                    ParseError,
                >((class@, next as int)) && p < next <= end,
                Err(e) => option_at(tokens@.take(end as int), p as int) == Err::<
                    (ClassPathView, int),
                    ParseError,
                >(e) && e.position <= end,
            },
    {
        if !at_punct(tokens, p, end, '<') {
            return Err(unexpected(Expected::LessThan, p));
        }
        let (ty, next) = match Type::parse_prefix(tokens, p + 1, end) {
            Ok(read) => read,
            Err(e) => { return Err(e); },
        };
        match ty {
            Type::Object(class) => {
                if at_punct(tokens, next, end, '>') {
                    Ok((class, next + 1))
                } else {
                    Err(unexpected(Expected::GreaterThan, next))
                }
            },
            _ => Err(
                ParseError { kind: ParseErrorKind::OptionRequiresObjectType, position: p + 1 },
            ),
        }
    }

    /// Reads a return specification that starts at index `start` and ends
    /// before `end`. Gives it and the index behind its last token.
    pub fn parse_prefix(tokens: &Vec<Token>, start: usize, end: usize) -> (r: Result<
        (Return, usize),
        ParseError,
    >)
        requires
            start <= end <= tokens.len(),
        ensures
            match r {
                Ok((return_type, next)) => return_at(tokens@.take(end as int), start as int)
                    == Ok::<(ReturnView, int), ParseError>((return_type@, next as int)) && start
                    < next <= end,
                Err(e) => return_at(tokens@.take(end as int), start as int) == Err::<
                    (ReturnView, int),
                    ParseError,
                >(e) && e.position <= end,
            },
    {
        if at_word(tokens, start, end, "Option") {
            return match Return::parse_option(tokens, start + 1, end) {
                Ok((class, next)) => Ok((Return::Option(class), next)),
                Err(e) => Err(e),
            };
        }
        if at_word(tokens, start, end, "Result") {
            if !at_punct(tokens, start + 1, end, '<') {
                return Err(unexpected(Expected::LessThan, start + 1));
            }
            let (ok, next) = match ResultType::parse_prefix(tokens, start + 2, end) {
                Ok(read) => read,
                Err(e) => { return Err(e); },
            };
            if !at_punct(tokens, next, end, ',') {
                return Err(unexpected(Expected::Comma, next));
            }
            if !at_word(tokens, next + 1, end, "String") {
                return Err(
                    ParseError {
                        kind: ParseErrorKind::UnsupportedErrorType,
                        position: next + 1,
                    },
                );
            }
            if !at_punct(tokens, next + 2, end, '>') {
                return Err(unexpected(Expected::GreaterThan, next + 2));
            }
            return Ok((Return::Result(ok, ()), next + 3));
        }
        match Type::parse_prefix(tokens, start, end) {
            Ok((ty, next)) => Ok((Return::Assertive(ty), next)),
            Err(e) => Err(e),
        }
    }

    /// Reads a return specification that takes up the whole of `tokens`.
    pub fn parse(tokens: &Vec<Token>) -> (r: Result<Return, ParseError>)
        ensures
            match r {
                Ok(return_type) => whole(tokens@.len(), return_at(tokens@, 0)) == Ok::<
                    ReturnView,
                    ParseError,
                >(return_type@),
                Err(e) => whole(tokens@.len(), return_at(tokens@, 0)) == Err::<
                    ReturnView,
                    ParseError,
                >(e) && e.position <= tokens.len(),
            },
    {
        assert(tokens@.take(tokens.len() as int) == tokens@);
        finish(Return::parse_prefix(tokens, 0, tokens.len()), tokens.len())
    }
}

impl ResultType {
    /// Reads the first argument of `Result`, from index `start` and no
    /// further than `end`. Gives it and the index behind its last token.
    pub fn parse_prefix(tokens: &Vec<Token>, start: usize, end: usize) -> (r: Result<
        (ResultType, usize),
        ParseError,
    >)
        requires
            start <= end <= tokens.len(),
        ensures
            match r {
                Ok((ok, next)) => result_type_at(tokens@.take(end as int), start as int) == Ok::<
                    (ResultTypeView, int),
                    ParseError,
                >((ok@, next as int)) && start < next <= end,
                Err(e) => result_type_at(tokens@.take(end as int), start as int) == Err::<
                    (ResultTypeView, int),
                    ParseError,
                >(e) && e.position <= end,
            },
    {
        if at_word(tokens, start, end, "Option") {
            return match Return::parse_option(tokens, start + 1, end) {
                Ok((class, next)) => Ok((ResultType::Option(class), next)),
                Err(e) => Err(e),
            };
        }
        if at_word(tokens, start, end, "Result") {
            return Err(
                ParseError { kind: ParseErrorKind::NestedResultNotAllowed, position: start },
            );
        }
        match Type::parse_prefix(tokens, start, end) {
            Ok((ty, next)) => Ok((ResultType::Assertive(ty), next)),
            Err(e) => Err(e),
        }
    }
}

impl StaticMethod {
    /// Reads the target of a static call: `static`, a class path, `::`.
    /// Gives the target and the index behind it.
    pub fn parse_prefix(tokens: &Vec<Token>, start: usize, end: usize) -> (r: Result<
        (StaticMethod, usize),
        ParseError,
    >)
        requires
            start <= end <= tokens.len(),
        ensures
            match r {
                Ok((target, next)) => static_method_at(tokens@.take(end as int), start as int)
                    == Ok::<(ClassPathView, int), ParseError>((target.0@, next as int)) && start
                    < next <= end,
                Err(e) => static_method_at(tokens@.take(end as int), start as int) == Err::<
                    (ClassPathView, int),
                    ParseError,
                >(e) && e.position <= end,
            },
    {
        if !at_word(tokens, start, end, "static") {
            return Err(unexpected(Expected::Static, start));
        }
        let (class, next) = match ClassPath::parse_prefix(tokens, start + 1, end) {
            Ok(read) => read,
            Err(e) => { return Err(e); },
        };
        if !at_pair(tokens, next, end, ':', ':') {
            return Err(unexpected(Expected::PathSeparator, next));
        }
        Ok((StaticMethod(class), next + 2))
    }
}

impl ObjectMethod {
    /// Reads the target of a call on an object: an identifier, or tokens in
    /// parentheses or braces, and a `.` behind it. Gives the target and the
    /// index behind the `.`.
    pub fn parse_prefix(tokens: &Vec<Token>, start: usize, end: usize) -> (r: Result<
        (ObjectMethod, usize),
        ParseError,
    >)
        requires
            start <= end <= tokens.len(),
        ensures
            match r {
                Ok((target, next)) => object_method_at(tokens@.take(end as int), start as int)
                    == Ok::<(Seq<Token>, int), ParseError>((target.0@, next as int)) && start < next
                    <= end,
                Err(e) => object_method_at(tokens@.take(end as int), start as int) == Err::<
                    (Seq<Token>, int),
                    ParseError,
                >(e) && e.position <= end,
            },
    {
        let ghost t = tokens@.take(end as int);
        if at_open(tokens, start, end, Delimiter::Parenthesis) || at_open(
            tokens,
            start,
            end,
            Delimiter::Brace,
        ) {
            let c = match find_close(tokens, start, end) {
                Some(c) => c,
                None => { return Err(unexpected(Expected::ClosingBracket, start)); },
            };
            if c == start + 1 {
                return Err(unexpected(Expected::Expression, c));
            }
            if !at_punct(tokens, c + 1, end, '.') {
                return Err(unexpected(Expected::Dot, c + 1));
            }
            let receiver = copy_range(tokens, start + 1, c);
            assert(receiver@ == t.subrange(start + 1, c as int));
            return Ok((ObjectMethod(receiver), c + 2));
        }
        if !at_ident(tokens, start, end) {
            return Err(unexpected(Expected::Identifier, start));
        }
        if !at_punct(tokens, start + 1, end, '.') {
            return Err(unexpected(Expected::Dot, start + 1));
        }
        let receiver = copy_range(tokens, start, start + 1);
        assert(receiver@ == t.subrange(start as int, start + 1));
        Ok((ObjectMethod(receiver), start + 2))
    }
}

impl MethodCall {
    /// Reads the target of a call at index `start`.
    fn parse_target(tokens: &Vec<Token>, start: usize, end: usize) -> (r: Result<
        (CallType, usize),
        ParseError,
    >)
        requires
            start <= end <= tokens.len(),
        ensures
            match r {
                Ok((call_type, next)) => target_at(tokens@.take(end as int), start as int) == Ok::<
                    (CallTypeView, int),
                    ParseError,
                >((call_type@, next as int)) && start < next <= end,
                Err(e) => target_at(tokens@.take(end as int), start as int) == Err::<
                    (CallTypeView, int),
                    ParseError,
                >(e) && e.position <= end,
            },
    {
        if at_word(tokens, start, end, "static") {
            match StaticMethod::parse_prefix(tokens, start, end) {
                Ok((target, next)) => Ok((CallType::Static(target), next)),
                Err(e) => Err(e),
            }
        } else {
            match ObjectMethod::parse_prefix(tokens, start, end) {
                Ok((target, next)) => Ok((CallType::Object(target), next)),
                Err(e) => Err(e),
            }
        }
    }

    /// Reads the parenthesised list of parameters that starts at index `p`.
    fn parse_arguments(tokens: &Vec<Token>, p: usize, end: usize) -> (r: Result<
        (Vec<Parameter>, usize),
        ParseError,
    >)
        requires
            p <= end <= tokens.len(),
        ensures
            match r {
                Ok((parameters, next)) => arguments_at(tokens@.take(end as int), p as int) == Ok::<
                    (Seq<ParameterView>, int),
                    ParseError,
                >((parameter_views(parameters@), next as int)) && p < next <= end,
                Err(e) => arguments_at(tokens@.take(end as int), p as int) == Err::<
                    (Seq<ParameterView>, int),
                    ParseError,
                >(e) && e.position <= end,
            },
    {
        if !at_open(tokens, p, end, Delimiter::Parenthesis) {
            return Err(unexpected(Expected::OpenParenthesis, p));
        }
        let c = match find_close(tokens, p, end) {
            Some(c) => c,
            None => { return Err(unexpected(Expected::ClosingBracket, p)); },
        };
        assert(tokens@.take(end as int).take(c as int) =~= tokens@.take(c as int));
        match read_parameters(tokens, p + 1, c) {
            Ok(parameters) => Ok((parameters, c + 1)),
            Err(e) => Err(e),
        }
    }

    /// Reads `->` and a return specification, from index `p` to the end.
    fn parse_arrow_return(tokens: &Vec<Token>, p: usize) -> (r: Result<Return, ParseError>)
        requires
            p <= tokens.len(),
        ensures
            match r {
                Ok(return_type) => arrow_return_at(tokens@, p as int) == Ok::<
                    ReturnView,
                    ParseError,
                >(return_type@),
                Err(e) => arrow_return_at(tokens@, p as int) == Err::<ReturnView, ParseError>(e)
                    && e.position <= tokens.len(),
            },
    {
        let end = tokens.len();
        assert(tokens@.take(end as int) == tokens@);
        if !at_pair(tokens, p, end, '-', '>') {
            return Err(unexpected(Expected::Arrow, p));
        }
        finish(Return::parse_prefix(tokens, p + 2, end), end)
    }

    /// Reads the method name at index `q` and what follows it, to the end.
    fn parse_from(tokens: &Vec<Token>, call_type: CallType, q: usize) -> (r: Result<
        MethodCall,
        ParseError,
    >)
        requires
            q <= tokens.len(),
        ensures
            match r {
                Ok(call) => call_from(tokens@, call_type@, q as int) == Ok::<
                    MethodCallView,
                    ParseError,
                >(call@),
                Err(e) => call_from(tokens@, call_type@, q as int) == Err::<
                    MethodCallView,
                    ParseError,
                >(e) && e.position <= tokens.len(),
            },
    {
        let end = tokens.len();
        assert(tokens@.take(end as int) == tokens@);
        if !at_ident(tokens, q, end) {
            return Err(unexpected(Expected::Identifier, q));
        }
        let method_name = match &tokens[q] {
            Token::Ident(word) => word.clone(),
            _ => String::new(),
        };
        let (parameters, next) = match MethodCall::parse_arguments(tokens, q + 1, end) {
            Ok(read) => read,
            Err(e) => { return Err(e); },
        };
        match MethodCall::parse_arrow_return(tokens, next) {
            Ok(return_type) => Ok(MethodCall { call_type, method_name, parameters, return_type }),
            Err(e) => Err(e),
        }
    }

    /// Reads a call expression that takes up the whole of `tokens`.
    ///
    /// The result is the call that the grammar reads from the tokens, or the
    /// first error on the way, with the index of the token that caused it.
    pub fn parse(tokens: &Vec<Token>) -> (r: Result<MethodCall, ParseError>)
        ensures
            match r {
                Ok(call) => {
                    &&& call_of(tokens@) == Ok::<MethodCallView, ParseError>(call@)
                    &&& call@.well_formed()
                    &&& call@.balanced()
                },
                Err(e) => call_of(tokens@) == Err::<MethodCallView, ParseError>(e) && e.position
                    <= tokens.len(),
            },
    {
        proof {
            lemma_call_well_formed(tokens@);
            lemma_call_balanced(tokens@);
        }
        assert(tokens@.take(tokens.len() as int) == tokens@);
        match MethodCall::parse_target(tokens, 0, tokens.len()) {
            Ok((call_type, q)) => MethodCall::parse_from(tokens, call_type, q),
            Err(e) => Err(e),
        }
    }
}

} // verus!
