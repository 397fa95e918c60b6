use jni_macros::error::{Expected, ParseError, ParseErrorKind};
use jni_macros::text::first_char_uppercase;
use jni_macros::token::{Delimiter, Spacing, Token};
use jni_macros::types::{ClassPath, Conversion, JavaPrimitive, RustPrimitive, SigType, Type};
use proc_macro2::{TokenStream, TokenTree};
use std::str::FromStr;

fn flatten_into(stream: TokenStream, out: &mut Vec<Token>) {
    for tree in stream {
        match tree {
            TokenTree::Ident(ident) => out.push(Token::Ident(ident.to_string())),
            TokenTree::Punct(punct) => out.push(Token::Punct(
                punct.as_char(),
                match punct.spacing() {
                    proc_macro2::Spacing::Joint => Spacing::Joint,
                    proc_macro2::Spacing::Alone => Spacing::Alone,
                },
            )),
            TokenTree::Literal(literal) => out.push(Token::Literal(literal.to_string())),
            TokenTree::Group(group) => {
                let delimiter = match group.delimiter() {
                    proc_macro2::Delimiter::Parenthesis => Delimiter::Parenthesis,
                    proc_macro2::Delimiter::Brace => Delimiter::Brace,
                    proc_macro2::Delimiter::Bracket => Delimiter::Bracket,
                    proc_macro2::Delimiter::None => Delimiter::Invisible,
                };
                out.push(Token::Open(delimiter));
                flatten_into(group.stream(), out);
                out.push(Token::Close(delimiter));
            }
        }
    }
}

fn tokens(source: &str) -> Vec<Token> {
    let mut out = Vec::new();
    flatten_into(TokenStream::from_str(source).unwrap(), &mut out);
    out
}

fn path(source: &str) -> Result<ClassPath, ParseError> {
    ClassPath::parse(&tokens(source))
}

fn path_error(source: &str) -> ParseErrorKind {
    path(source).unwrap_err().kind
}

#[test]
fn class_path() {
    path("me.author.MyClass").unwrap();
    path("me.MyClass").unwrap();
    path("me.author.MyClass$Nested").unwrap();
    path("me.author.MyClass$Nested$Nested2").unwrap();
    ClassPath::parse_with_trailing_method(&tokens("me.author.MyClass.method")).unwrap();
    ClassPath::parse_with_trailing_method(&tokens("me.MyClass.method")).unwrap();
    ClassPath::parse_with_trailing_method(&tokens("me.author.MyClass$Nested.method")).unwrap();
    ClassPath::parse_with_trailing_method(&tokens("me.author.MyClass$Nested$Nested2.method"))
        .unwrap();

    // Test errors
    path("").unwrap_err();
    path("me").unwrap_err();
    path("me.author.MyClass.").unwrap_err();
    path(".me.author.MyClass").unwrap_err();
    path("MyClass$Nested").unwrap_err();
    path("me.author.MyClass$").unwrap_err();
    path("me.author.MyClass$Nested$").unwrap_err();
    ClassPath::parse_with_trailing_method(&tokens("MyClass.method")).unwrap_err();
    ClassPath::parse_with_trailing_method(&tokens("MyClass$Nested.method")).unwrap_err();
}

#[test]
fn class_path_parts() {
    let read = path("me.author.MyClass$Nested$Nested2").unwrap();
    assert_eq!(read.packages, vec!["me", "author"]);
    assert_eq!(read.class, "MyClass");
    let nested = read.nested_path.as_ref().unwrap();
    assert_eq!(nested.classes, vec!["Nested"]);
    assert_eq!(nested.final_class, "Nested2");
    assert_eq!(read.span().start, 0);
    assert_eq!(read.span().end, 9);
    let plain = path("java.lang.String").unwrap();
    assert_eq!(plain.packages, vec!["java", "lang"]);
    assert_eq!(plain.class, "String");
    assert!(plain.nested_path.is_none());
}

#[test]
fn class_path_renders_both_forms() {
    let plain = path("java.lang.String").unwrap();
    assert_eq!(plain.to_jni_class_path(), "java/lang/String");
    assert_eq!(plain.to_string(), "java.lang.String");
    assert_eq!(plain.sig_type(), "Ljava/lang/String;");
    assert_eq!(plain.sig_char(), 'l');
    let short = path("me.MyClass").unwrap();
    assert_eq!(short.to_jni_class_path(), "me/MyClass");
    assert_eq!(short.to_string(), "me.MyClass");
    let nested = path("me.author.MyClass$Nested$Nested2").unwrap();
    assert_eq!(nested.to_jni_class_path(), "me/author/MyClass$Nested$Nested2");
    assert_eq!(nested.to_string(), "me.author.MyClass.Nested.Nested2");
    assert_eq!(nested.sig_type(), "Lme/author/MyClass$Nested$Nested2;");
}

#[test]
fn class_path_round_trip_on_plain_paths() {
    for source in ["a.b", "me.author.MyClass", "java.util.concurrent.atomic.AtomicInteger"] {
        let read = path(source).unwrap();
        assert_eq!(read.to_string(), source);
        assert_eq!(read.to_jni_class_path(), source.replace('.', "/"));
    }
    for source in ["a.b$c", "me.author.MyClass$Nested$Nested2"] {
        let read = path(source).unwrap();
        assert_eq!(read.to_jni_class_path(), source.replace('.', "/"));
    }
}

#[test]
fn class_path_errors_by_kind() {
    assert_eq!(path_error(""), ParseErrorKind::EmptyPath);
    assert_eq!(path_error(".me.author.MyClass"), ParseErrorKind::EmptyPath);
    assert_eq!(path_error("MyClass"), ParseErrorKind::MissingPackage);
    assert_eq!(path_error("MyClass$Nested"), ParseErrorKind::MissingPackage);
    assert_eq!(path_error("a.b."), ParseErrorKind::TrailingSeparator);
    assert_eq!(path_error("a.b$"), ParseErrorKind::TrailingSeparator);
    assert_eq!(path_error("me.author.MyClass$Nested$"), ParseErrorKind::TrailingSeparator);
    assert_eq!(path_error("MyClass."), ParseErrorKind::TrailingSeparator);
    assert_eq!(path_error("a.b c"), ParseErrorKind::SyntaxError(Expected::End));
    // A reserved word is no segment.
    assert_eq!(path_error("self.b"), ParseErrorKind::EmptyPath);
    assert_eq!(path_error("a.type"), ParseErrorKind::TrailingSeparator);
}

#[test]
fn class_path_errors_name_the_offending_token() {
    assert_eq!(path("").unwrap_err().position, 0);
    assert_eq!(path("MyClass").unwrap_err().position, 0);
    assert_eq!(path("a.b.").unwrap_err().position, 3);
    assert_eq!(path("a.b$").unwrap_err().position, 3);
    assert_eq!(path("a.b$c$").unwrap_err().position, 5);
    assert_eq!(path("a.b c").unwrap_err().position, 3);
}

#[test]
fn trailing_method_is_split_off() {
    let (read, method) =
        ClassPath::parse_with_trailing_method(&tokens("me.author.MyClass.method")).unwrap();
    assert_eq!(read.packages, vec!["me", "author"]);
    assert_eq!(read.class, "MyClass");
    assert!(read.nested_path.is_none());
    assert_eq!(method, "method");
    assert_eq!(read.span().end, 5);
    let (read, method) =
        ClassPath::parse_with_trailing_method(&tokens("me.author.MyClass$Nested.method"))
            .unwrap();
    assert_eq!(read.class, "MyClass");
    assert_eq!(read.nested_path.unwrap().final_class, "Nested");
    assert_eq!(method, "method");
    assert_eq!(
        ClassPath::parse_with_trailing_method(&tokens("MyClass.method")).unwrap_err().kind,
        ParseErrorKind::MissingPackage
    );
    assert_eq!(
        ClassPath::parse_with_trailing_method(&tokens("MyClass$Nested.method"))
            .unwrap_err()
            .kind,
        ParseErrorKind::MissingPackage
    );
    assert_eq!(
        ClassPath::parse_with_trailing_method(&tokens("a.b$c")).unwrap_err().kind,
        ParseErrorKind::SyntaxError(Expected::Dot)
    );
    assert_eq!(
        ClassPath::parse_with_trailing_method(&tokens("a.b$c.")).unwrap_err().kind,
        ParseErrorKind::SyntaxError(Expected::Identifier)
    );
}

#[test]
fn java_primitive_signatures() {
    let table = [
        (JavaPrimitive::Byte, "byte", 'b', "B"),
        (JavaPrimitive::Boolean, "boolean", 'z', "Z"),
        (JavaPrimitive::Char, "char", 'c', "C"),
        (JavaPrimitive::Short, "short", 's', "S"),
        (JavaPrimitive::Int, "int", 'i', "I"),
        (JavaPrimitive::Long, "long", 'j', "J"),
        (JavaPrimitive::Float, "float", 'f', "F"),
        (JavaPrimitive::Double, "double", 'd', "D"),
    ];
    for (kind, name, letter, signature) in table {
        assert_eq!(JavaPrimitive::from_str(name), Ok(kind));
        assert_eq!(kind.to_string(), name);
        assert_eq!(kind.sig_char(), letter);
        assert_eq!(kind.sig_type(), signature);
        assert!(letter.is_ascii_lowercase());
        assert_eq!(kind.sig_type(), letter.to_uppercase().to_string());
    }
    assert_eq!(JavaPrimitive::from_str("void"), Err(()));
    assert_eq!(JavaPrimitive::from_str("Int"), Err(()));
    assert_eq!(JavaPrimitive::from_str(""), Err(()));
}

#[test]
fn rust_primitives_map_onto_java_primitives() {
    let table = [
        (RustPrimitive::Bool, "bool", JavaPrimitive::Boolean),
        (RustPrimitive::Char, "char", JavaPrimitive::Char),
        (RustPrimitive::U8, "u8", JavaPrimitive::Byte),
        (RustPrimitive::I8, "i8", JavaPrimitive::Byte),
        (RustPrimitive::U16, "u16", JavaPrimitive::Short),
        (RustPrimitive::I16, "i16", JavaPrimitive::Short),
        (RustPrimitive::U32, "u32", JavaPrimitive::Int),
        (RustPrimitive::I32, "i32", JavaPrimitive::Int),
        (RustPrimitive::U64, "u64", JavaPrimitive::Long),
        (RustPrimitive::I64, "i64", JavaPrimitive::Long),
        (RustPrimitive::F32, "f32", JavaPrimitive::Float),
        (RustPrimitive::F64, "f64", JavaPrimitive::Double),
    ];
    for (kind, name, java) in table {
        assert_eq!(RustPrimitive::from_str(name), Ok(kind));
        assert_eq!(kind.to_string(), name);
        assert_eq!(JavaPrimitive::from(kind), java);
        assert_eq!(JavaPrimitive::from(RustPrimitive::from(java)), java);
    }
    assert_eq!(RustPrimitive::from(JavaPrimitive::Byte), RustPrimitive::I8);
    assert_eq!(RustPrimitive::from(JavaPrimitive::Long), RustPrimitive::I64);
    assert_eq!(RustPrimitive::from_str("usize"), Err(()));
    assert_eq!(RustPrimitive::from_str("int"), Err(()));
}

#[test]
fn special_cases_of_rust_primitives() {
    for kind in [RustPrimitive::U8, RustPrimitive::U16, RustPrimitive::U32, RustPrimitive::U64] {
        assert!(kind.is_unsigned());
        assert_eq!(kind.special_case_conversion(), Some(Conversion::Reinterpret(kind)));
    }
    assert_eq!(RustPrimitive::Char.special_case_conversion(), Some(Conversion::DecodeUtf16));
    for kind in [
        RustPrimitive::Bool,
        RustPrimitive::I8,
        RustPrimitive::I16,
        RustPrimitive::I32,
        RustPrimitive::I64,
        RustPrimitive::F32,
        RustPrimitive::F64,
    ] {
        assert!(!kind.is_unsigned());
        assert_eq!(kind.special_case_conversion(), None);
    }
    assert!(!RustPrimitive::Char.is_unsigned());
}

fn read_type(source: &str) -> Type {
    let input = tokens(source);
    let (ty, next) = Type::parse_prefix(&input, 0, input.len()).unwrap();
    assert_eq!(next, input.len());
    ty
}

#[test]
fn type_prefers_rust_names() {
    assert!(matches!(read_type("char"), Type::RustPrimitive { ty: RustPrimitive::Char, .. }));
    assert!(matches!(read_type("u8"), Type::RustPrimitive { ty: RustPrimitive::U8, .. }));
    assert!(matches!(read_type("int"), Type::JavaPrimitive { ty: JavaPrimitive::Int, .. }));
    assert!(matches!(read_type("boolean"), Type::JavaPrimitive { ty: JavaPrimitive::Boolean, .. }));
    assert!(matches!(read_type("void"), Type::Void { .. }));
    assert!(matches!(read_type("java.lang.String"), Type::Object(_)));
}

#[test]
fn type_signatures_and_names() {
    let cases = [
        ("void", 'v', "V", "void"),
        ("int", 'i', "I", "int"),
        ("i32", 'i', "I", "int"),
        ("u32", 'i', "I", "int"),
        ("bool", 'z', "Z", "boolean"),
        ("u8", 'b', "B", "byte"),
        ("f64", 'd', "D", "double"),
        ("java.lang.String", 'l', "Ljava/lang/String;", "Object(java/lang/String)"),
        ("a.B$C", 'l', "La/B$C;", "Object(a/B$C)"),
    ];
    for (source, letter, signature, name) in cases {
        let ty = read_type(source);
        assert_eq!(ty.sig_char(), letter, "{source}");
        assert_eq!(ty.sig_type(), signature, "{source}");
        assert_eq!(ty.to_string(), name, "{source}");
        assert_eq!(ty.is_void(), source == "void");
        assert_eq!(ty.span().start, 0);
    }
    assert_eq!(read_type("u16").primitive(), Some(JavaPrimitive::Short));
    assert_eq!(read_type("a.b").primitive(), None);
    assert_eq!(read_type("void").primitive(), None);
}

#[test]
fn type_errors() {
    let input = tokens("(int)");
    assert_eq!(
        Type::parse_prefix(&input, 0, input.len()).unwrap_err(),
        ParseError { kind: ParseErrorKind::SyntaxError(Expected::Identifier), position: 0 }
    );
    let input = tokens("String");
    assert_eq!(
        Type::parse_prefix(&input, 0, input.len()).unwrap_err().kind,
        ParseErrorKind::MissingPackage
    );
    let input = tokens("int x");
    assert_eq!(Type::parse_prefix(&input, 0, input.len()).unwrap().1, 1);
    assert_eq!(Type::parse_prefix(&input, 0, 0).unwrap_err().position, 0);
}

#[test]
fn first_letter_is_capitalized() {
    assert_eq!(first_char_uppercase(String::from("byte")), "Byte");
    assert_eq!(first_char_uppercase(String::from("int")), "Int");
    assert_eq!(first_char_uppercase(String::from("Int")), "Int");
    assert_eq!(first_char_uppercase(String::from("x")), "X");
    assert_eq!(first_char_uppercase(String::new()), "");
    assert_eq!(first_char_uppercase(String::from("1st")), "1st");
    assert_eq!(first_char_uppercase(String::from("\u{df}a")), "SSa");
    assert_eq!(first_char_uppercase(String::from("\u{e9}t\u{e9}")), "\u{c9}t\u{e9}");
}

#[test]
fn error_messages() {
    assert_eq!(ParseErrorKind::EmptyPath.to_string(), "Java Class Path must not be empty");
    assert_eq!(
        ParseErrorKind::MissingPackage.to_string(),
        "Java Class Path must have more than one component, such as `me.author`"
    );
    assert_eq!(
        ParseErrorKind::VoidNotAllowedHere.to_string(),
        "Parameters can't have type Void"
    );
    assert_eq!(
        ParseErrorKind::OptionRequiresObjectType.to_string(),
        "Option cannot be used with primitives, only Classes."
    );
    assert_eq!(
        ParseErrorKind::NestedResultNotAllowed.to_string(),
        "Can't nest a Result within a Result"
    );
    assert_eq!(ParseErrorKind::SyntaxError(Expected::Arrow).to_string(), "expected `->`");
    assert_eq!(
        ParseErrorKind::SyntaxError(Expected::Identifier).to_string(),
        "expected identifier"
    );
    assert_eq!(Expected::Comma.describe(), "`,`");
}
