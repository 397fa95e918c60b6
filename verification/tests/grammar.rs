use jni_macros::call::{CallType, MethodCall, Parameter, ResultType, Return};
use jni_macros::error::{Expected, ParseError, ParseErrorKind};
use jni_macros::token::{copy_range, find_close, keyword, Delimiter, Spacing, Token};
use jni_macros::types::Type;
use proc_macro2::{TokenStream, TokenTree};
use std::str::FromStr;

fn flatten_all(stream: TokenStream, out: &mut Vec<Token>) {
    for tree in stream {
        match tree {
            TokenTree::Ident(ident) => out.push(Token::Ident(ident.to_string())),
            TokenTree::Punct(punct) => out.push(Token::Punct(
                punct.as_char(),
                match punct.spacing() {
                    proc_macro2::Spacing::Joint => Spacing::Joint,
                    proc_macro2::Spacing::Alone => Spacing::Alone,
                },
            )),
            TokenTree::Literal(literal) => out.push(Token::Literal(literal.to_string())),
            TokenTree::Group(group) => {
                let delimiter = match group.delimiter() {
                    proc_macro2::Delimiter::Parenthesis => Delimiter::Parenthesis,
                    proc_macro2::Delimiter::Brace => Delimiter::Brace,
                    proc_macro2::Delimiter::Bracket => Delimiter::Bracket,
                    proc_macro2::Delimiter::None => Delimiter::Invisible,
                };
                out.push(Token::Open(delimiter));
                flatten_all(group.stream(), out);
                out.push(Token::Close(delimiter));
            }
        }
    }
}

fn scan(source: &str) -> Vec<Token> {
    let mut out = Vec::new();
    flatten_all(TokenStream::from_str(source).unwrap(), &mut out);
    out
}

fn call_error(source: &str) -> ParseError {
    MethodCall::parse(&scan(source)).unwrap_err()
}

fn return_error(source: &str) -> ParseError {
    Return::parse(&scan(source)).unwrap_err()
}

fn at(kind: ParseErrorKind, position: usize) -> ParseError {
    ParseError { kind, position }
}

fn syntax(expected: Expected, position: usize) -> ParseError {
    at(ParseErrorKind::SyntaxError(expected), position)
}

#[test]
fn option_takes_classes_only() {
    for primitive in [
        "byte", "boolean", "char", "short", "int", "long", "float", "double", "void", "bool",
        "u8", "i8", "u16", "i16", "u32", "i32", "u64", "i64", "f32", "f64",
    ] {
        let source = format!("Option<{primitive}>");
        assert_eq!(
            return_error(&source),
            at(ParseErrorKind::OptionRequiresObjectType, 2),
            "{source}"
        );
    }
    match Return::parse(&scan("Option<java.lang.String>")).unwrap() {
        Return::Option(class) => assert_eq!(class.to_string(), "java.lang.String"),
        other => panic!("{other:?}"),
    }
    assert_eq!(
        return_error("Result<Option<int>, String>"),
        at(ParseErrorKind::OptionRequiresObjectType, 4)
    );
    assert_eq!(return_error("Option"), syntax(Expected::LessThan, 1));
    assert_eq!(return_error("Option<a.b"), syntax(Expected::GreaterThan, 5));
    assert_eq!(return_error("Option<a.b, c.d>"), syntax(Expected::GreaterThan, 5));
    assert_eq!(return_error("Option<String>"), at(ParseErrorKind::MissingPackage, 2));
}

#[test]
fn result_does_not_nest() {
    assert_eq!(
        return_error("Result<Result<int, String>, String>"),
        at(ParseErrorKind::NestedResultNotAllowed, 2)
    );
    assert_eq!(return_error("Result<Result, String>"), at(ParseErrorKind::NestedResultNotAllowed, 2));
    assert!(matches!(
        Return::parse(&scan("Result<int, String>")).unwrap(),
        Return::Result(ResultType::Assertive(Type::JavaPrimitive { .. }), ())
    ));
    assert!(matches!(
        Return::parse(&scan("Result<void, String>")).unwrap(),
        Return::Result(ResultType::Assertive(Type::Void { .. }), ())
    ));
    assert!(matches!(
        Return::parse(&scan("Result<Option<java.lang.Object>, String>")).unwrap(),
        Return::Result(ResultType::Option(_), ())
    ));
}

#[test]
fn result_takes_string_errors_only() {
    assert_eq!(return_error("Result<int, Error>"), at(ParseErrorKind::UnsupportedErrorType, 4));
    assert_eq!(
        return_error("Result<int, std::io::Error>"),
        at(ParseErrorKind::UnsupportedErrorType, 4)
    );
    assert_eq!(return_error("Result<int, >"), at(ParseErrorKind::UnsupportedErrorType, 4));
    assert_eq!(return_error("Result<int,"), at(ParseErrorKind::UnsupportedErrorType, 4));
    assert_eq!(return_error("Result<int>"), syntax(Expected::Comma, 3));
    assert_eq!(return_error("Result"), syntax(Expected::LessThan, 1));
    assert_eq!(return_error("Result<int, String"), syntax(Expected::GreaterThan, 5));
    assert_eq!(return_error("Result<int, String> x"), syntax(Expected::End, 6));
}

#[test]
fn void_is_no_parameter_type() {
    assert_eq!(call_error("a.f(void(x)) -> int"), at(ParseErrorKind::VoidNotAllowedHere, 4));
    assert_eq!(call_error("a.f([void](x)) -> int"), at(ParseErrorKind::VoidNotAllowedHere, 5));
    assert_eq!(call_error("a.f([void]([x])) -> int"), at(ParseErrorKind::VoidNotAllowedHere, 5));
    assert_eq!(
        call_error("a.f(int(1), void(x)) -> int"),
        at(ParseErrorKind::VoidNotAllowedHere, 9)
    );
    assert_eq!(Parameter::parse(&scan("void(x)")).unwrap_err().position, 0);
    MethodCall::parse(&scan("a.f() -> void")).unwrap();
    MethodCall::parse(&scan("a.f() -> Result<void, String>")).unwrap();
}

#[test]
fn structure_errors() {
    assert_eq!(call_error(""), syntax(Expected::Identifier, 0));
    assert_eq!(call_error("a"), syntax(Expected::Dot, 1));
    assert_eq!(call_error("a."), syntax(Expected::Identifier, 2));
    assert_eq!(call_error("a.f"), syntax(Expected::OpenParenthesis, 3));
    assert_eq!(call_error("a.f()"), syntax(Expected::Arrow, 5));
    assert_eq!(call_error("a.f() int"), syntax(Expected::Arrow, 5));
    assert_eq!(call_error("a.f() - > int"), syntax(Expected::Arrow, 5));
    assert_eq!(call_error("a.f() ->"), syntax(Expected::Identifier, 7));
    assert_eq!(call_error("a.f() -> int int"), syntax(Expected::End, 8));
    assert_eq!(call_error("a.f[] -> int"), syntax(Expected::OpenParenthesis, 3));
    assert_eq!(call_error("a.f(int) -> int"), syntax(Expected::OpenParenthesis, 5));
    assert_eq!(call_error("a.f(int()) -> int"), syntax(Expected::Expression, 6));
    assert_eq!(call_error("a.f([int]()) -> int"), syntax(Expected::Expression, 8));
    assert_eq!(call_error("a.f(int(1) int(2)) -> int"), syntax(Expected::Comma, 8));
    assert_eq!(call_error("a.f([int x](1)) -> int"), syntax(Expected::ClosingBracket, 6));
    assert_eq!(call_error("a.f([int]([1] 2)) -> int"), syntax(Expected::ClosingBracket, 11));
    assert_eq!(call_error("a.f([int]([1,,2])) -> int"), syntax(Expected::Expression, 11));
    assert_eq!(call_error("a.f([int]([,1])) -> int"), syntax(Expected::Expression, 9));
    assert_eq!(call_error("a.f(,) -> int"), syntax(Expected::Identifier, 4));
    assert_eq!(call_error("().f() -> int"), syntax(Expected::Expression, 1));
    assert_eq!(call_error("(a) f() -> int"), syntax(Expected::Dot, 3));
    assert_eq!(call_error("self.f() -> int"), syntax(Expected::Identifier, 0));
    assert_eq!(call_error("a.type() -> int"), syntax(Expected::Identifier, 2));
}

#[test]
fn static_target_errors() {
    assert_eq!(call_error("static"), at(ParseErrorKind::EmptyPath, 1));
    assert_eq!(call_error("static Test::f() -> int"), at(ParseErrorKind::MissingPackage, 1));
    assert_eq!(call_error("static me.::f() -> int"), at(ParseErrorKind::TrailingSeparator, 2));
    assert_eq!(call_error("static me.Test.f() -> int"), syntax(Expected::PathSeparator, 6));
    assert_eq!(call_error("static me.Test:f() -> int"), syntax(Expected::PathSeparator, 4));
    assert_eq!(call_error("static me.Test::() -> int"), syntax(Expected::Identifier, 6));
}

#[test]
fn unmatched_brackets_are_syntax_errors() {
    let open = Token::Open(Delimiter::Parenthesis);
    let close = Token::Close(Delimiter::Parenthesis);
    let a = Token::Ident(String::from("a"));
    let f = Token::Ident(String::from("f"));
    let dot = Token::Punct('.', Spacing::Alone);
    let input = vec![a.clone(), dot.clone(), f.clone(), open.clone()];
    assert_eq!(MethodCall::parse(&input).unwrap_err(), syntax(Expected::ClosingBracket, 3));
    let input = vec![a, dot, f, open.clone(), Token::Close(Delimiter::Bracket)];
    assert_eq!(MethodCall::parse(&input).unwrap_err(), syntax(Expected::ClosingBracket, 3));
    let input = vec![open, Token::Open(Delimiter::Bracket), close];
    assert_eq!(MethodCall::parse(&input).unwrap_err(), syntax(Expected::ClosingBracket, 0));
}

#[test]
fn brackets_are_matched_by_kind() {
    let input = scan("( a [ b ( c ) ] { d } ) e ( )");
    assert_eq!(find_close(&input, 0, input.len()), Some(11));
    assert_eq!(find_close(&input, 2, input.len()), Some(7));
    assert_eq!(find_close(&input, 4, input.len()), Some(6));
    assert_eq!(find_close(&input, 8, input.len()), Some(10));
    assert_eq!(find_close(&input, 13, input.len()), Some(14));
    assert_eq!(find_close(&input, 0, 11), None);
    assert_eq!(copy_range(&input, 4, 7), scan("(c)"));
    assert_eq!(copy_range(&input, 3, 3), Vec::new());
}

#[test]
fn reserved_words() {
    for word in ["static", "self", "Self", "type", "fn", "_", "final", "extern", "yield"] {
        assert!(keyword(word), "{word}");
        assert!(!Token::Ident(String::from(word)).is_ident(), "{word}");
    }
    for word in ["me", "Static", "int", "void", "Option", "Result", "String", "r#type", ""] {
        assert!(!keyword(word), "{word}");
    }
    assert!(Token::Ident(String::from("me")).is_ident());
    assert!(!Token::Literal(String::from("me")).is_ident());
    assert!(Token::Ident(String::from("static")).is_word("static"));
    assert!(Token::Punct('-', Spacing::Joint).is_joint('-'));
    assert!(!Token::Punct('-', Spacing::Alone).is_joint('-'));
    assert!(Token::Punct('-', Spacing::Alone).is_punct('-'));
    assert!(Token::Open(Delimiter::Brace).opens(Delimiter::Brace));
    assert!(!Token::Open(Delimiter::Brace).opens(Delimiter::Bracket));
    assert!(Token::Open(Delimiter::Brace).is_open());
    assert!(!Token::Close(Delimiter::Brace).is_open());
}

#[test]
fn receivers() {
    let read = MethodCall::parse(&scan("object.myMethod() -> void")).unwrap();
    assert_eq!(read.call_type, CallType::Object(jni_macros::call::ObjectMethod(scan("object"))));
    let read = MethodCall::parse(&scan("(something.object()).myMethod() -> void")).unwrap();
    match read.call_type {
        CallType::Object(target) => assert_eq!(target.0, scan("something.object()")),
        other => panic!("{other:?}"),
    }
    let read = MethodCall::parse(&scan("{ let o = make(); o }.myMethod() -> void")).unwrap();
    match read.call_type {
        CallType::Object(target) => assert_eq!(target.0, scan("let o = make(); o")),
        other => panic!("{other:?}"),
    }
    let read = MethodCall::parse(&scan("static me.test.Test$Inner::run() -> void")).unwrap();
    match read.call_type {
        CallType::Static(target) => assert_eq!(target.0.to_jni_class_path(), "me/test/Test$Inner"),
        other => panic!("{other:?}"),
    }
}

#[test]
fn parameters_keep_their_values() {
    let read = MethodCall::parse(&scan(
        "o.m(int(2 + 2), me.author.ClassName(value), [bool]([true, f(a, b), (1, 2).0,]), [java.lang.String](names),) -> int",
    ))
    .unwrap();
    assert_eq!(read.parameters.len(), 4);
    match &read.parameters[0] {
        Parameter::Single { ty, value } => {
            assert_eq!(ty.to_string(), "int");
            assert_eq!(value, &scan("2 + 2"));
        }
        other => panic!("{other:?}"),
    }
    match &read.parameters[1] {
        Parameter::Single { ty, value } => {
            assert_eq!(ty.to_string(), "Object(me/author/ClassName)");
            assert_eq!(value, &scan("value"));
        }
        other => panic!("{other:?}"),
    }
    match &read.parameters[2] {
        Parameter::ArrayLiteral { ty, array } => {
            assert_eq!(ty.to_string(), "boolean");
            assert_eq!(array, &vec![scan("true"), scan("f(a, b)"), scan("(1, 2).0")]);
        }
        other => panic!("{other:?}"),
    }
    match &read.parameters[3] {
        Parameter::Array { ty, value } => {
            assert_eq!(ty.to_string(), "Object(java/lang/String)");
            assert_eq!(value, &scan("names"));
        }
        other => panic!("{other:?}"),
    }
    assert_eq!(read.signature(), "(ILme/author/ClassName;[Z[Ljava/lang/String;)I");
    for parameter in &read.parameters {
        assert!(!parameter.ty().is_void());
    }
}

#[test]
fn reserved_words_are_those_that_syn_refuses() {
    let words = [
        "_", "abstract", "as", "async", "await", "become", "box", "break", "const", "continue",
        "crate", "do", "dyn", "else", "enum", "extern", "false", "final", "fn", "for", "if",
        "impl", "in", "let", "loop", "macro", "match", "mod", "move", "mut", "override", "priv",
        "pub", "ref", "return", "Self", "self", "static", "struct", "super", "trait", "true",
        "try", "type", "typeof", "unsafe", "unsized", "use", "virtual", "where", "while", "yield",
        "me", "author", "MyClass", "int", "void", "boolean", "Option", "Result", "String",
        "union", "auto", "default", "macro_rules", "raw", "r#type", "r#static", "Static", "SELF",
        "__", "_a", "a_", "selfish", "types", "i", "x1",
    ];
    for word in words {
        assert_eq!(syn::parse_str::<syn::Ident>(word).is_ok(), !keyword(word), "{word}");
    }
}
