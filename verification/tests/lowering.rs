use jni_macros::call::{MethodCall, Parameter, Return};
use jni_macros::demarshal::{
    ExceptionHandling, Fault, NullHandling, Outcome, Payload, Raw, ReturnPolicy,
};
use jni_macros::marshal::{copy_runs, copy_tokens, Argument, BridgeCall, ValueForm};
use jni_macros::plan::Invocation;
use jni_macros::text::{decimal, replace_first};
use jni_macros::token::{Delimiter, Spacing, Token};
use jni_macros::types::JavaPrimitive;
use proc_macro2::{TokenStream, TokenTree};
use std::str::FromStr;

fn flatten_tree(stream: TokenStream, out: &mut Vec<Token>) {
    for tree in stream {
        match tree {
            TokenTree::Ident(ident) => out.push(Token::Ident(ident.to_string())),
            TokenTree::Punct(punct) => out.push(Token::Punct(
                punct.as_char(),
                match punct.spacing() {
                    proc_macro2::Spacing::Joint => Spacing::Joint,
                    proc_macro2::Spacing::Alone => Spacing::Alone,
                },
            )),
            TokenTree::Literal(literal) => out.push(Token::Literal(literal.to_string())),
            TokenTree::Group(group) => {
                let delimiter = match group.delimiter() {
                    proc_macro2::Delimiter::Parenthesis => Delimiter::Parenthesis,
                    proc_macro2::Delimiter::Brace => Delimiter::Brace,
                    proc_macro2::Delimiter::Bracket => Delimiter::Bracket,
                    proc_macro2::Delimiter::None => Delimiter::Invisible,
                };
                out.push(Token::Open(delimiter));
                flatten_tree(group.stream(), out);
                out.push(Token::Close(delimiter));
            }
        }
    }
}

fn read(source: &str) -> Vec<Token> {
    let mut out = Vec::new();
    flatten_tree(TokenStream::from_str(source).unwrap(), &mut out);
    out
}

fn policy(source: &str) -> ReturnPolicy {
    Return::parse(&read(source)).unwrap().policy()
}

fn came_back(value: i32, is_null: bool, exception: Option<&'static str>) -> Raw<i32, &'static str> {
    Raw::Returned { value, is_null, exception }
}

#[test]
fn option_yields_absent_for_null() {
    let option = policy("Option<java.lang.Object>");
    assert_eq!(option.demarshal(came_back(7, true, None)), Outcome::Plain(Payload::Absent));
    assert_eq!(option.demarshal(came_back(7, false, None)), Outcome::Plain(Payload::Present(7)));
    // An exception is not looked at.
    assert_eq!(
        option.demarshal(came_back(7, false, Some("thrown"))),
        Outcome::Plain(Payload::Present(7))
    );
}

#[test]
fn result_yields_error_for_pending_exception() {
    let result = policy("Result<int, String>");
    assert_eq!(result.demarshal(came_back(0, false, Some("thrown"))), Outcome::Failure("thrown"));
    assert_eq!(result.demarshal(came_back(-1, false, Some("thrown"))), Outcome::Failure("thrown"));
    assert_eq!(result.demarshal(came_back(99, true, Some("thrown"))), Outcome::Failure("thrown"));
    assert_eq!(result.demarshal(came_back(5, false, None)), Outcome::Success(Payload::Value(5)));
}

#[test]
fn return_table() {
    let primitive = policy("int");
    assert_eq!(
        primitive,
        ReturnPolicy { null: NullHandling::NotApplicable, exception: ExceptionHandling::NotChecked }
    );
    assert_eq!(primitive.demarshal(came_back(5, false, Some("x"))), Outcome::Plain(Payload::Value(5)));

    let object = policy("java.lang.Object");
    assert_eq!(
        object,
        ReturnPolicy { null: NullHandling::Abort, exception: ExceptionHandling::NotChecked }
    );
    assert_eq!(object.demarshal(came_back(5, true, None)), Outcome::Abort(Fault::NullReturned));
    assert_eq!(object.demarshal(came_back(5, false, None)), Outcome::Plain(Payload::Value(5)));

    let fallible_object = policy("Result<java.lang.Object, String>");
    assert_eq!(
        fallible_object,
        ReturnPolicy { null: NullHandling::Abort, exception: ExceptionHandling::Checked }
    );
    // The check for null comes before the check for an exception.
    assert_eq!(
        fallible_object.demarshal(came_back(5, true, Some("x"))),
        Outcome::Abort(Fault::NullReturned)
    );
    assert_eq!(fallible_object.demarshal(came_back(5, false, Some("x"))), Outcome::Failure("x"));
    assert_eq!(
        fallible_object.demarshal(came_back(5, false, None)),
        Outcome::Success(Payload::Value(5))
    );

    let fallible_option = policy("Result<Option<java.lang.Object>, String>");
    assert_eq!(
        fallible_option,
        ReturnPolicy { null: NullHandling::Empty, exception: ExceptionHandling::Checked }
    );
    assert_eq!(fallible_option.demarshal(came_back(5, true, None)), Outcome::Success(Payload::Absent));
    assert_eq!(
        fallible_option.demarshal(came_back(5, false, None)),
        Outcome::Success(Payload::Present(5))
    );
    assert_eq!(fallible_option.demarshal(came_back(5, true, Some("x"))), Outcome::Failure("x"));

    for source in ["int", "a.B", "Option<a.B>", "Result<int, String>"] {
        let any = policy(source);
        assert_eq!(any.demarshal(Raw::<i32, &str>::CallFailed), Outcome::Abort(Fault::CallFailed));
        assert_eq!(any.demarshal(Raw::<i32, &str>::TypeMismatch), Outcome::Abort(Fault::TypeMismatch));
    }
}

#[test]
fn object_array_literal_is_created_once_and_stored_in_order() {
    let parameter = Parameter::parse(&read("[java.lang.String]([first, make(2), third.clone()])"))
        .unwrap();
    let steps = match parameter.marshal() {
        Argument::NewArray { steps } => steps,
        other => panic!("{other:?}"),
    };
    assert_eq!(
        steps,
        vec![
            BridgeCall::NewObjectArray { class: String::from("java/lang/String"), length: 3 },
            BridgeCall::SetObjectArrayElement { index: 0, element: read("first") },
            BridgeCall::SetObjectArrayElement { index: 1, element: read("make(2)") },
            BridgeCall::SetObjectArrayElement { index: 2, element: read("third.clone()") },
        ]
    );
    let creations =
        steps.iter().filter(|step| matches!(step, BridgeCall::NewObjectArray { .. })).count();
    let stores =
        steps.iter().filter(|step| matches!(step, BridgeCall::SetObjectArrayElement { .. })).count();
    assert_eq!((creations, stores), (1, 3));
}

#[test]
fn primitive_array_literal_is_created_and_filled() {
    let parameter = Parameter::parse(&read("[bool]([true, false, x])")).unwrap();
    assert_eq!(
        parameter.marshal(),
        Argument::NewArray {
            steps: vec![
                BridgeCall::NewPrimitiveArray { kind: JavaPrimitive::Boolean, length: 3 },
                BridgeCall::FillPrimitiveArray {
                    kind: JavaPrimitive::Boolean,
                    form: ValueForm::Narrowed,
                    elements: vec![read("true"), read("false"), read("x")],
                },
            ],
        }
    );
    let parameter = Parameter::parse(&read("[int]([])")).unwrap();
    assert_eq!(
        parameter.marshal(),
        Argument::NewArray {
            steps: vec![
                BridgeCall::NewPrimitiveArray { kind: JavaPrimitive::Int, length: 0 },
                BridgeCall::FillPrimitiveArray {
                    kind: JavaPrimitive::Int,
                    form: ValueForm::Plain,
                    elements: vec![],
                },
            ],
        }
    );
}

#[test]
fn single_values_and_existing_arrays() {
    assert_eq!(
        Parameter::parse(&read("boolean(flag)")).unwrap().marshal(),
        Argument::Primitive {
            kind: JavaPrimitive::Boolean,
            form: ValueForm::Narrowed,
            value: read("flag")
        }
    );
    assert_eq!(
        Parameter::parse(&read("u64(n)")).unwrap().marshal(),
        Argument::Primitive {
            kind: JavaPrimitive::Long,
            form: ValueForm::Reinterpreted,
            value: read("n")
        }
    );
    assert_eq!(
        Parameter::parse(&read("java.lang.String(s)")).unwrap().marshal(),
        Argument::Reference { value: read("s") }
    );
    assert_eq!(
        Parameter::parse(&read("[int](numbers)")).unwrap().marshal(),
        Argument::Reference { value: read("numbers") }
    );
}

#[test]
fn bridge_operations_and_messages() {
    let create = BridgeCall::NewPrimitiveArray { kind: JavaPrimitive::Boolean, length: 2 };
    assert_eq!(create.function(), "new_boolean_array");
    assert_eq!(create.failure_message(), "Failed to create Java boolean array: {err}");
    let fill = BridgeCall::FillPrimitiveArray {
        kind: JavaPrimitive::Int,
        form: ValueForm::Plain,
        elements: vec![],
    };
    assert_eq!(fill.function(), "set_int_array_region");
    assert_eq!(fill.failure_message(), "Error filling int array: {err}");
    let objects = BridgeCall::NewObjectArray { class: String::from("java/lang/String"), length: 1 };
    assert_eq!(objects.function(), "new_object_array");
    assert_eq!(
        objects.failure_message(),
        "Failed to create Java Object \"java/lang/String\" array: {err}"
    );
    let store = BridgeCall::SetObjectArrayElement { index: 12, element: read("x") };
    assert_eq!(store.function(), "set_object_array_element");
    assert_eq!(
        store.failure_message(),
        "Failed to set the value of Object array at index 12: {err}"
    );
}

#[test]
fn variant_names() {
    assert_eq!(JavaPrimitive::Boolean.variant_name(), "Bool");
    assert_eq!(JavaPrimitive::Byte.variant_name(), "Byte");
    assert_eq!(JavaPrimitive::Char.variant_name(), "Char");
    assert_eq!(JavaPrimitive::Short.variant_name(), "Short");
    assert_eq!(JavaPrimitive::Int.variant_name(), "Int");
    assert_eq!(JavaPrimitive::Long.variant_name(), "Long");
    assert_eq!(JavaPrimitive::Float.variant_name(), "Float");
    assert_eq!(JavaPrimitive::Double.variant_name(), "Double");
}

#[test]
fn numbers_in_decimal() {
    assert_eq!(decimal(0), "0");
    assert_eq!(decimal(7), "7");
    assert_eq!(decimal(10), "10");
    assert_eq!(decimal(109), "109");
    assert_eq!(decimal(65535), "65535");
    assert_eq!(decimal(usize::MAX), usize::MAX.to_string());
}

#[test]
fn first_character_is_replaced() {
    assert_eq!(replace_first(String::from("SS"), "\u{df}a"), "SSa");
    assert_eq!(replace_first(String::new(), "abc"), "bc");
    assert_eq!(replace_first(String::from("X"), "x"), "X");
    assert_eq!(replace_first(String::from("X"), ""), "X");
}

#[test]
fn copies_are_equal() {
    let tokens = read("f(a, [1, 2], \"s\")");
    assert_eq!(copy_tokens(&tokens), tokens);
    let lists = vec![read("a"), read("b + c"), vec![]];
    assert_eq!(copy_runs(&lists), lists);
    assert_eq!(tokens[0].clone(), Token::Ident(String::from("f")));
}

#[test]
fn plan_of_a_static_call() {
    let plan = jni_macros::call(&read(
        "static me.author.ClassName$Inner::methodName(int(arg1), java.lang.String(arg2)) -> Result<java.lang.String, String>",
    ))
    .unwrap();
    assert_eq!(plan.invocation, Invocation::Static { class: String::from("me/author/ClassName$Inner") });
    assert_eq!(plan.method_name, "methodName");
    assert_eq!(plan.signature, "(ILjava/lang/String;)Ljava/lang/String;");
    assert_eq!(plan.letter, 'l');
    assert_eq!(plan.conversion, None);
    assert_eq!(
        plan.call_failed_message,
        "Failed to call static method methodName() on me.author.ClassName.Inner: {err}"
    );
    assert_eq!(
        plan.incorrect_type_message,
        "Expected methodName() to return java.lang.String: {err}"
    );
    assert_eq!(plan.non_null_message, "Expected Object returned by methodName() to not be NULL");
    assert_eq!(plan.arguments.len(), 2);
}

#[test]
fn plan_of_a_call_on_an_object() {
    let plan = jni_macros::call(&read("(something.object()).myMethod() -> u16")).unwrap();
    assert_eq!(plan.invocation, Invocation::Object { receiver: read("something.object()") });
    assert_eq!(plan.call_failed_message, "Failed to call myMethod(): {err}");
    assert_eq!(plan.incorrect_type_message, "Expected myMethod() to return short: {err}");
    assert_eq!(plan.signature, "()S");
    let parsed = MethodCall::parse(&read("(something.object()).myMethod() -> u16")).unwrap();
    assert_eq!(parsed.plan(), plan);
    assert_eq!(parsed.return_type.sig_char(), 's');
    assert_eq!(parsed.return_type.sig_type(), "S");
    let error = jni_macros::call(&read("object.myMethod(void(x)) -> u16")).unwrap_err();
    assert_eq!(error, MethodCall::parse(&read("object.myMethod(void(x)) -> u16")).unwrap_err());
}
