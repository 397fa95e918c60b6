//! The types of the Java side: primitives under their Java names and under
//! their Rust names, and classes by their path.

use crate::error::{error_at, syntax_error, Expected, ParseError, ParseErrorKind};
use crate::text::{intersperse, joined, lemma_texts_push, text_equal, texts};
use crate::token::{ident_at, punct_at, text_at, Span, Token};
use vstd::prelude::*;

verus! {

/// The capital of an ASCII lowercase letter; any other character is left as it is.
pub open spec fn capital(c: char) -> char {
    if 'a' <= c && c <= 'z' {
        ((c as u8 - 32) as u8) as char
    } else {
        c
    }
}

/// What a type contributes to a JNI method signature.
pub trait SigType {
    /// The lowercase letter of the type: it names the operation that turns
    /// the raw result of a call into a value of this type.
    spec fn sig_letter(&self) -> char;

    /// The type as it is written in a method signature, such as `I` or
    /// `Ljava/lang/String;`.
    spec fn sig_text(&self) -> Seq<char>;

    /// The lowercase letter of the type.
    fn sig_char(&self) -> (c: char)
        ensures
            c == self.sig_letter(),
    ;

    /// The type as it is written in a method signature.
    fn sig_type(&self) -> (s: String)
        ensures
            s@ == self.sig_text(),
    ;
}

/// A primitive type under its Rust name.
#[derive(Debug, Copy, Clone, PartialEq, Eq, Hash, Structural)]
pub enum RustPrimitive {
    Bool,
    Char,
    U8,
    U16,
    U32,
    U64,
    I8,
    I16,
    I32,
    I64,
    F32,
    F64,
}

/// A primitive type under its Java name.
#[derive(Debug, Copy, Clone, PartialEq, Eq, Hash, Structural)]
pub enum JavaPrimitive {
    Byte,
    Boolean,
    Char,
    Short,
    Int,
    Long,
    Float,
    Double,
}

/// What has to be done to a value that the bridge hands back before it is a
/// value of the Rust type that was asked for.
#[derive(Debug, Copy, Clone, PartialEq, Eq, Hash, Structural)]
pub enum Conversion {
    /// The bits of the signed value are read as the unsigned type of the same
    /// size, as [`RustPrimitive::reinterpret_unsigned`] does.
    Reinterpret(RustPrimitive),
    /// The value is one UTF-16 code unit. It is decoded on its own, and the
    /// replacement character U+FFFD stands in for an unpaired surrogate, as
    /// in [`crate::wire::decode_utf16_unit`].
    DecodeUtf16,
}

impl RustPrimitive {
    /// The primitive that `name` names, if any.
    pub open spec fn named(name: Seq<char>) -> Option<RustPrimitive> {
        if name == "bool"@ {
            Some(RustPrimitive::Bool)
        } else if name == "char"@ {
            Some(RustPrimitive::Char)
        } else if name == "u8"@ {
            Some(RustPrimitive::U8)
        } else if name == "i8"@ {
            Some(RustPrimitive::I8)
        } else if name == "u16"@ {
            Some(RustPrimitive::U16)
        } else if name == "i16"@ {
            Some(RustPrimitive::I16)
        } else if name == "u32"@ {
            Some(RustPrimitive::U32)
        } else if name == "i32"@ {
            Some(RustPrimitive::I32)
        } else if name == "u64"@ {
            Some(RustPrimitive::U64)
        } else if name == "i64"@ {
            Some(RustPrimitive::I64)
        } else if name == "f32"@ {
            Some(RustPrimitive::F32)
        } else if name == "f64"@ {
            Some(RustPrimitive::F64)
        } else {
            None
        }
    }

    /// The name of the primitive.
    pub open spec fn name(self) -> Seq<char> {
        match self {
            RustPrimitive::Bool => "bool"@,
            RustPrimitive::Char => "char"@,
            RustPrimitive::U8 => "u8"@,
            RustPrimitive::I8 => "i8"@,
            RustPrimitive::U16 => "u16"@,
            RustPrimitive::I16 => "i16"@,
            RustPrimitive::U32 => "u32"@,
            RustPrimitive::I32 => "i32"@,
            RustPrimitive::U64 => "u64"@,
            RustPrimitive::I64 => "i64"@,
            RustPrimitive::F32 => "f32"@,
            RustPrimitive::F64 => "f64"@,
        }
    }

    /// The Java primitive that stands for this one on the other side of the bridge.
    pub open spec fn java(self) -> JavaPrimitive {
        match self {
            RustPrimitive::Bool => JavaPrimitive::Boolean,
            RustPrimitive::Char => JavaPrimitive::Char,
            RustPrimitive::U8 => JavaPrimitive::Byte,
            RustPrimitive::I8 => JavaPrimitive::Byte,
            RustPrimitive::U16 => JavaPrimitive::Short,
            RustPrimitive::I16 => JavaPrimitive::Short,
            RustPrimitive::U32 => JavaPrimitive::Int,
            RustPrimitive::I32 => JavaPrimitive::Int,
            RustPrimitive::U64 => JavaPrimitive::Long,
            RustPrimitive::I64 => JavaPrimitive::Long,
            RustPrimitive::F32 => JavaPrimitive::Float,
            RustPrimitive::F64 => JavaPrimitive::Double,
        }
    }

    /// Whether the type has no sign.
    pub open spec fn unsigned(self) -> bool {
        self is U8 || self is U16 || self is U32 || self is U64
    }

    /// The conversion that a value of the Java counterpart needs to become a
    /// value of this type, if it needs one.
    pub open spec fn conversion(self) -> Option<Conversion> {
        if self.unsigned() {
            Some(Conversion::Reinterpret(self))
        } else if self is Char {
            Some(Conversion::DecodeUtf16)
        } else {
            None
        }
    }

    /// Reads the name of a primitive.
    pub fn from_str(s: &str) -> (r: Result<RustPrimitive, ()>)
        ensures
            r == match RustPrimitive::named(s@) {
                Some(ty) => Ok::<RustPrimitive, ()>(ty),
                None => Err(()),
            },
    {
        if text_equal(s, "bool") {
            Ok(RustPrimitive::Bool)
        } else if text_equal(s, "char") {
            Ok(RustPrimitive::Char)
        } else if text_equal(s, "u8") {
            Ok(RustPrimitive::U8)
        } else if text_equal(s, "i8") {
            Ok(RustPrimitive::I8)
        } else if text_equal(s, "u16") {
            Ok(RustPrimitive::U16)
        } else if text_equal(s, "i16") {
            Ok(RustPrimitive::I16)
        } else if text_equal(s, "u32") {
            Ok(RustPrimitive::U32)
        } else if text_equal(s, "i32") {
            Ok(RustPrimitive::I32)
        } else if text_equal(s, "u64") {
            Ok(RustPrimitive::U64)
        } else if text_equal(s, "i64") {
            Ok(RustPrimitive::I64)
        } else if text_equal(s, "f32") {
            Ok(RustPrimitive::F32)
        } else if text_equal(s, "f64") {
            Ok(RustPrimitive::F64)
        } else {
            Err(())
        }
    }

    /// The name of the primitive.
    pub fn to_string(&self) -> (r: String)
        ensures
            r@ == self.name(),
    {
        String::from_str(
            match self {
                RustPrimitive::Bool => "bool",
                RustPrimitive::Char => "char",
                RustPrimitive::U8 => "u8",
                RustPrimitive::I8 => "i8",
                RustPrimitive::U16 => "u16",
                RustPrimitive::I16 => "i16",
                RustPrimitive::U32 => "u32",
                RustPrimitive::I32 => "i32",
                RustPrimitive::U64 => "u64",
                RustPrimitive::I64 => "i64",
                RustPrimitive::F32 => "f32",
                RustPrimitive::F64 => "f64",
            },
        )
    }

    /// Whether the type has no sign.
    pub fn is_unsigned(self) -> (r: bool)
        ensures
            r == self.unsigned(),
    {
        match self {
            RustPrimitive::U8 | RustPrimitive::U16 | RustPrimitive::U32 | RustPrimitive::U64 => true,
            _ => false,
        }
    }

    /// The conversion that a value of the Java counterpart needs to become a
    /// value of this type. `None` where the value can be used as it comes.
    pub fn special_case_conversion(self) -> (r: Option<Conversion>)
        ensures
            r == self.conversion(),
    {
        if self.is_unsigned() {
            Some(Conversion::Reinterpret(self))
        } else if self == RustPrimitive::Char {
            Some(Conversion::DecodeUtf16)
        } else {
            None
        }
    }
}

impl JavaPrimitive {
    /// The primitive that `name` names, if any.
    pub open spec fn named(name: Seq<char>) -> Option<JavaPrimitive> {
        if name == "byte"@ {
            Some(JavaPrimitive::Byte)
        } else if name == "boolean"@ {
            Some(JavaPrimitive::Boolean)
        } else if name == "char"@ {
            Some(JavaPrimitive::Char)
        } else if name == "short"@ {
            Some(JavaPrimitive::Short)
        } else if name == "int"@ {
            Some(JavaPrimitive::Int)
        } else if name == "long"@ {
            Some(JavaPrimitive::Long)
        } else if name == "float"@ {
            Some(JavaPrimitive::Float)
        } else if name == "double"@ {
            Some(JavaPrimitive::Double)
        } else {
            None
        }
    }

    /// The name of the primitive.
    pub open spec fn name(self) -> Seq<char> {
        match self {
            JavaPrimitive::Byte => "byte"@,
            JavaPrimitive::Boolean => "boolean"@,
            JavaPrimitive::Char => "char"@,
            JavaPrimitive::Short => "short"@,
            JavaPrimitive::Int => "int"@,
            JavaPrimitive::Long => "long"@,
            JavaPrimitive::Float => "float"@,
            JavaPrimitive::Double => "double"@,
        }
    }

    /// The Rust primitive of the same size, the signed one where there are two.
    pub open spec fn rust(self) -> RustPrimitive {
        match self {
            JavaPrimitive::Boolean => RustPrimitive::Bool,
            JavaPrimitive::Char => RustPrimitive::Char,
            JavaPrimitive::Byte => RustPrimitive::I8,
            JavaPrimitive::Short => RustPrimitive::I16,
            JavaPrimitive::Int => RustPrimitive::I32,
            JavaPrimitive::Long => RustPrimitive::I64,
            JavaPrimitive::Float => RustPrimitive::F32,
            JavaPrimitive::Double => RustPrimitive::F64,
        }
    }

    /// The lowercase letter of the primitive.
    pub open spec fn letter(self) -> char {
        match self {
            JavaPrimitive::Byte => 'b',
            JavaPrimitive::Boolean => 'z',
            JavaPrimitive::Char => 'c',
            JavaPrimitive::Short => 's',
            JavaPrimitive::Int => 'i',
            JavaPrimitive::Long => 'j',
            JavaPrimitive::Float => 'f',
            JavaPrimitive::Double => 'd',
        }
    }

    /// Reads the name of a primitive.
    pub fn from_str(s: &str) -> (r: Result<JavaPrimitive, ()>)
        ensures
            r == match JavaPrimitive::named(s@) {
                Some(ty) => Ok::<JavaPrimitive, ()>(ty),
                None => Err(()),
            },
    {
        if text_equal(s, "byte") {
            Ok(JavaPrimitive::Byte)
        } else if text_equal(s, "boolean") {
            Ok(JavaPrimitive::Boolean)
        } else if text_equal(s, "char") {
            Ok(JavaPrimitive::Char)
        } else if text_equal(s, "short") {
            Ok(JavaPrimitive::Short)
        } else if text_equal(s, "int") {
            Ok(JavaPrimitive::Int)
        } else if text_equal(s, "long") {
            Ok(JavaPrimitive::Long)
        } else if text_equal(s, "float") {
            Ok(JavaPrimitive::Float)
        } else if text_equal(s, "double") {
            Ok(JavaPrimitive::Double)
        } else {
            Err(())
        }
    }

    /// The name of the primitive.
    pub fn to_string(&self) -> (r: String)
        ensures
            r@ == self.name(),
    {
        String::from_str(
            match self {
                JavaPrimitive::Byte => "byte",
                JavaPrimitive::Boolean => "boolean",
                JavaPrimitive::Char => "char",
                JavaPrimitive::Short => "short",
                JavaPrimitive::Int => "int",
                JavaPrimitive::Long => "long",
                JavaPrimitive::Float => "float",
                JavaPrimitive::Double => "double",
            },
        )
    }
}

impl SigType for JavaPrimitive {
    open spec fn sig_letter(&self) -> char {
        self.letter()
    }

    open spec fn sig_text(&self) -> Seq<char> {
        seq![capital(self.letter())]
    }

    fn sig_char(&self) -> (c: char) {
        match self {
            JavaPrimitive::Byte => 'b',
            JavaPrimitive::Boolean => 'z',
            JavaPrimitive::Char => 'c',
            JavaPrimitive::Short => 's',
            JavaPrimitive::Int => 'i',
            JavaPrimitive::Long => 'j',
            JavaPrimitive::Float => 'f',
            JavaPrimitive::Double => 'd',
        }
    }

    fn sig_type(&self) -> (s: String) {
        proof {
            reveal_strlit("B");
            reveal_strlit("Z");
            reveal_strlit("C");
            reveal_strlit("S");
            reveal_strlit("I");
            reveal_strlit("J");
            reveal_strlit("F");
            reveal_strlit("D");
        }
        let s = String::from_str(
            match self {
                JavaPrimitive::Byte => "B",
                JavaPrimitive::Boolean => "Z",
                JavaPrimitive::Char => "C",
                JavaPrimitive::Short => "S",
                JavaPrimitive::Int => "I",
                JavaPrimitive::Long => "J",
                JavaPrimitive::Float => "F",
                JavaPrimitive::Double => "D",
            },
        );
        assert(s@ =~= seq![capital(self.letter())]);
        s
    }
}

impl From<RustPrimitive> for JavaPrimitive {
    fn from(value: RustPrimitive) -> (r: JavaPrimitive) {
        match value {
            RustPrimitive::Bool => JavaPrimitive::Boolean,
            RustPrimitive::Char => JavaPrimitive::Char,
            RustPrimitive::U8 => JavaPrimitive::Byte,
            RustPrimitive::I8 => JavaPrimitive::Byte,
            RustPrimitive::U16 => JavaPrimitive::Short,
            RustPrimitive::I16 => JavaPrimitive::Short,
            RustPrimitive::U32 => JavaPrimitive::Int,
            RustPrimitive::I32 => JavaPrimitive::Int,
            RustPrimitive::U64 => JavaPrimitive::Long,
            RustPrimitive::I64 => JavaPrimitive::Long,
            RustPrimitive::F32 => JavaPrimitive::Float,
            RustPrimitive::F64 => JavaPrimitive::Double,
        }
    }
}

impl vstd::std_specs::convert::FromSpecImpl<RustPrimitive> for JavaPrimitive {
    open spec fn obeys_from_spec() -> bool {
        true
    }

    open spec fn from_spec(value: RustPrimitive) -> JavaPrimitive {
        value.java()
    }
}

impl From<JavaPrimitive> for RustPrimitive {
    fn from(value: JavaPrimitive) -> (r: RustPrimitive) {
        match value {
            JavaPrimitive::Boolean => RustPrimitive::Bool,
            JavaPrimitive::Char => RustPrimitive::Char,
            JavaPrimitive::Byte => RustPrimitive::I8,
            JavaPrimitive::Short => RustPrimitive::I16,
            JavaPrimitive::Int => RustPrimitive::I32,
            JavaPrimitive::Long => RustPrimitive::I64,
            JavaPrimitive::Float => RustPrimitive::F32,
            JavaPrimitive::Double => RustPrimitive::F64,
        }
    }
}

impl vstd::std_specs::convert::FromSpecImpl<JavaPrimitive> for RustPrimitive {
    open spec fn obeys_from_spec() -> bool {
        true
    }

    open spec fn from_spec(value: JavaPrimitive) -> RustPrimitive {
        value.rust()
    }
}

/// Every Java primitive is the counterpart of the Rust primitive that stands for it.
pub proof fn lemma_java_of_rust(ty: JavaPrimitive)
    ensures
        ty.rust().java() == ty,
{
}

/// The classes nested in the class of a path, from the outermost in.
#[derive(Debug, PartialEq, Eq, Hash)]
pub struct NestedPath {
    /// The classes that enclose the last one.
    pub classes: Vec<String>,
    /// The innermost class.
    pub final_class: String,
}

/// The path of a Java class, such as `java.lang.String`: packages, the class,
/// and the classes nested in it, if any. A path names at least one package.
#[derive(Debug, PartialEq, Eq, Hash)]
pub struct ClassPath {
    /// The packages, outermost first.
    pub packages: Vec<String>,
    /// The class.
    pub class: String,
    /// The classes nested in `class`, where the path goes on behind it.
    pub nested_path: Option<NestedPath>,
    /// The tokens the path was read from.
    pub span: Span,
}

/// A nested path as mathematical data.
pub struct NestedPathView {
    pub classes: Seq<Seq<char>>,
    pub final_class: Seq<char>,
}

/// A class path as mathematical data.
pub struct ClassPathView {
    pub packages: Seq<Seq<char>>,
    pub class: Seq<char>,
    pub nested_path: Option<NestedPathView>,
    pub span: Span,
}

impl View for NestedPath {
    type V = NestedPathView;

    open spec fn view(&self) -> NestedPathView {
        NestedPathView { classes: texts(self.classes@), final_class: self.final_class@ }
    }
}

impl View for ClassPath {
    type V = ClassPathView;

    open spec fn view(&self) -> ClassPathView {
        ClassPathView {
            packages: texts(self.packages@),
            class: self.class@,
            nested_path: match self.nested_path {
                Some(nested) => Some(nested@),
                None => None,
            },
            span: self.span,
        }
    }
}

impl NestedPathView {
    /// All the classes of the nested path, outermost first.
    pub open spec fn segments(self) -> Seq<Seq<char>> {
        self.classes.push(self.final_class)
    }
}

impl ClassPathView {
    /// The packages and the class, in order.
    pub open spec fn segments(self) -> Seq<Seq<char>> {
        self.packages.push(self.class)
    }

    /// A path is well formed when it names at least one package.
    pub open spec fn well_formed(self) -> bool {
        self.packages.len() >= 1
    }

    /// The path as text: packages and class with `sep` between them, then
    /// each nested class with `nested_sep` in front of it.
    pub open spec fn rendered(self, sep: Seq<char>, nested_sep: Seq<char>) -> Seq<char> {
        joined(self.segments(), sep) + match self.nested_path {
            Some(nested) => nested_sep + joined(nested.segments(), nested_sep),
            None => Seq::empty(),
        }
    }

    /// The path as JNI writes it: `java/lang/String`, `me/author/Class$Nested`.
    pub open spec fn jni_form(self) -> Seq<char> {
        self.rendered(seq!['/'], seq!['$'])
    }

    /// The path as it is shown to a reader: every segment, with `.` between them.
    pub open spec fn display_form(self) -> Seq<char> {
        self.rendered(seq!['.'], seq!['.'])
    }
}

/// The number of segments in the run `segment (sep segment)*` that starts
/// with the identifier at index `p`, taken as long as it can be.
pub open spec fn run_len(t: Seq<Token>, p: int, sep: char) -> nat
    decreases t.len() - p,
{
    if punct_at(t, p + 1, sep) && ident_at(t, p + 2) {
        1 + run_len(t, p + 2, sep)
    } else {
        1
    }
}

/// A run of segments ends inside the input.
pub proof fn lemma_run_inside(t: Seq<Token>, p: int, sep: char)
    requires
        ident_at(t, p),
    ensures
        p + 2 * run_len(t, p, sep) - 1 <= t.len(),
    decreases t.len() - p,
{
    if punct_at(t, p + 1, sep) && ident_at(t, p + 2) {
        lemma_run_inside(t, p + 2, sep);
    }
}

/// In a run of segments every second token is an identifier, and between two
/// of them stands the separator.
pub proof fn lemma_run_shape(t: Seq<Token>, p: int, sep: char, i: int)
    requires
        ident_at(t, p),
        0 <= i < run_len(t, p, sep),
    ensures
        ident_at(t, p + 2 * i),
        i + 1 < run_len(t, p, sep) ==> punct_at(t, p + 2 * i + 1, sep),
    decreases i,
{
    if i > 0 {
        lemma_run_shape(t, p + 2, sep, i - 1);
    }
}

/// The words of `count` segments, the first at index `p`, each two tokens
/// behind the one before.
pub open spec fn segment_names(t: Seq<Token>, p: int, count: nat) -> Seq<Seq<char>> {
    Seq::new(count, |i: int| text_at(t, p + 2 * i))
}

/// Reads a class path that starts at index `p`:
/// `segment ('.' segment)+ ('$' segment ('$' segment)*)?`.
/// Gives the path and the index behind it.
pub open spec fn class_path_at(t: Seq<Token>, p: int) -> Result<(ClassPathView, int), ParseError> {
    if !ident_at(t, p) {
        Err(error_at(ParseErrorKind::EmptyPath, p))
    } else {
        let n = run_len(t, p, '.');
        let e = p + 2 * n - 1;
        let names = segment_names(t, p, n);
        if punct_at(t, e, '.') {
            Err(error_at(ParseErrorKind::TrailingSeparator, e))
        } else if n < 2 {
            Err(error_at(ParseErrorKind::MissingPackage, p))
        } else if !punct_at(t, e, '$') {
            Ok(
                (
                    ClassPathView {
                        packages: names.drop_last(),
                        class: names.last(),
                        nested_path: None,
                        span: Span { start: p as usize, end: e as usize },
                    },
                    e,
                ),
            )
        } else if !ident_at(t, e + 1) {
            Err(error_at(ParseErrorKind::TrailingSeparator, e))
        } else {
            let m = run_len(t, e + 1, '$');
            let f = e + 2 * m;
            let nested = segment_names(t, e + 1, m);
            if punct_at(t, f, '$') {
                Err(error_at(ParseErrorKind::TrailingSeparator, f))
            } else {
                Ok(
                    (
                        ClassPathView {
                            packages: names.drop_last(),
                            class: names.last(),
                            nested_path: Some(
                                NestedPathView {
                                    classes: nested.drop_last(),
                                    final_class: nested.last(),
                                },
                            ),
                            span: Span { start: p as usize, end: f as usize },
                        },
                        f,
                    ),
                )
            }
        }
    }
}

/// A class path that was read ends behind its start and inside the input,
/// and names at least one package.
pub proof fn lemma_class_path_advances(t: Seq<Token>, p: int)
    ensures
        class_path_at(t, p) matches Ok((path, next)) ==> p < next <= t.len() && path.well_formed(),
{
    if ident_at(t, p) {
        lemma_run_inside(t, p, '.');
        let e = p + 2 * run_len(t, p, '.') - 1;
        if ident_at(t, e + 1) {
            lemma_run_inside(t, e + 1, '$');
        }
    }
}

/// Reads a class path that takes up the whole of `t`.
pub open spec fn class_path_of(t: Seq<Token>) -> Result<ClassPathView, ParseError> {
    match class_path_at(t, 0) {
        Ok((path, next)) => if next == t.len() {
            Ok(path)
        } else {
            Err(syntax_error(Expected::End, next))
        },
        Err(e) => Err(e),
    }
}

/// Reads a class path at index `p` with a method name behind it. Where the
/// path has nested classes, the name follows a `.`; where it has none, the
/// last segment of the dotted part is the name, and the one before it the class.
pub open spec fn class_path_and_method_at(t: Seq<Token>, p: int) -> Result<
    (ClassPathView, Seq<char>, int),
    ParseError,
> {
    match class_path_at(t, p) {
        Err(e) => Err(e),
        Ok((path, next)) => match path.nested_path {
            Some(_) => if !punct_at(t, next, '.') {
                Err(syntax_error(Expected::Dot, next))
            } else if !ident_at(t, next + 1) {
                Err(syntax_error(Expected::Identifier, next + 1))
            } else {
                Ok((path, text_at(t, next + 1), next + 2))
            },
            None => if path.packages.len() < 2 {
                Err(error_at(ParseErrorKind::MissingPackage, p))
            } else {
                Ok(
                    (
                        ClassPathView {
                            packages: path.packages.drop_last(),
                            class: path.packages.last(),
                            nested_path: None,
                            span: Span { start: p as usize, end: (next - 2) as usize },
                        },
                        path.class,
                        next,
                    ),
                )
            },
        },
    }
}

/// Reads a class path with a method name behind it that together take up the
/// whole of `t`.
pub open spec fn class_path_and_method_of(t: Seq<Token>) -> Result<
    (ClassPathView, Seq<char>),
    ParseError,
> {
    match class_path_and_method_at(t, 0) {
        Ok((path, method, next)) => if next == t.len() {
            Ok((path, method))
        } else {
            Err(syntax_error(Expected::End, next))
        },
        Err(e) => Err(e),
    }
}

/// The word of the identifier at index `p`.
fn word(tokens: &Vec<Token>, p: usize) -> (r: String)
    requires
        p < tokens.len(),
    ensures
        r@ == text_at(tokens@, p as int),
{
    match &tokens[p] {
        Token::Ident(w) => w.clone(),
        _ => String::new(),
    }
}

/// Reads the run of segments that starts with the identifier at `start`.
/// Gives their words and the index behind the last of them.
fn read_run(tokens: &Vec<Token>, start: usize, end: usize, sep: char) -> (r: (Vec<String>, usize))
    requires
        start < end <= tokens.len(),
        ident_at(tokens@.take(end as int), start as int),
    ensures
        texts(r.0@) == segment_names(
            tokens@.take(end as int),
            start as int,
            run_len(tokens@.take(end as int), start as int, sep),
        ),
        r.0@.len() == run_len(tokens@.take(end as int), start as int, sep),
        r.1 == start + 2 * run_len(tokens@.take(end as int), start as int, sep) - 1,
        start < r.1 <= end,
{
    let ghost t = tokens@.take(end as int);
    let mut names: Vec<String> = Vec::new();
    let mut cur: usize = start;
    let ghost mut k: nat = 0;
    while end - cur > 2 && tokens[cur + 1].is_punct(sep) && tokens[cur + 2].is_ident()
        invariant
            start <= cur < end <= tokens.len(),
            t == tokens@.take(end as int),
            cur == start + 2 * k,
            names@.len() == k,
            ident_at(t, cur as int),
            texts(names@) == segment_names(t, start as int, k),
            run_len(t, start as int, sep) == k + run_len(t, cur as int, sep),
        decreases end - cur,
    {
        let segment = word(tokens, cur);
        proof {
            lemma_texts_push(names@, segment);
            assert(segment_names(t, start as int, k).push(segment@) =~= segment_names(
                t,
                start as int,
                k + 1,
            ));
            k = k + 1;
        }
        names.push(segment);
        cur = cur + 2;
    }
    let segment = word(tokens, cur);
    proof {
        lemma_texts_push(names@, segment);
        assert(segment_names(t, start as int, k).push(segment@) =~= segment_names(
            t,
            start as int,
            k + 1,
        ));
    }
    names.push(segment);
    (names, cur + 1)
}

impl ClassPath {
    /// The tokens the path was read from.
    pub fn span(&self) -> (r: Span)
        ensures
            r == self@.span,
    {
        self.span
    }

    /// Reads a class path that starts at index `start` and ends before `end`.
    /// Gives the path and the index behind its last token.
    pub fn parse_prefix(tokens: &Vec<Token>, start: usize, end: usize) -> (r: Result<
        (ClassPath, usize),
        ParseError,
    >)
        requires
            start <= end <= tokens.len(),
        ensures
            match r {
                Ok((path, next)) => {
                    &&& class_path_at(tokens@.take(end as int), start as int) == Ok::<
                        (ClassPathView, int),
                        ParseError,
                    >((path@, next as int))
                    &&& path@.well_formed()
                    &&& start < next <= end
                },
                Err(e) => class_path_at(tokens@.take(end as int), start as int) == Err::<
                    (ClassPathView, int),
                    ParseError,
                >(e) && start <= e.position <= end,
            },
    {
        let ghost t = tokens@.take(end as int);
        if start >= end || !tokens[start].is_ident() {
            return Err(ParseError { kind: ParseErrorKind::EmptyPath, position: start });
        }
        let (mut names, e) = read_run(tokens, start, end, '.');
        if e < end && tokens[e].is_punct('.') {
            return Err(ParseError { kind: ParseErrorKind::TrailingSeparator, position: e });
        }
        if names.len() < 2 {
            return Err(ParseError { kind: ParseErrorKind::MissingPackage, position: start });
        }
        let ghost all = names@;
        let class = names.pop().unwrap();
        proof {
            assert(texts(names@) =~= texts(all).drop_last());
        }
        if !(e < end && tokens[e].is_punct('$')) {
            let path = ClassPath {
                packages: names,
                class,
                nested_path: None,
                span: Span { start, end: e },
            };
            return Ok((path, e));
        }
        if !(e + 1 < end && tokens[e + 1].is_ident()) {
            return Err(ParseError { kind: ParseErrorKind::TrailingSeparator, position: e });
        }
        let (mut nested, f) = read_run(tokens, e + 1, end, '$');
        if f < end && tokens[f].is_punct('$') {
            return Err(ParseError { kind: ParseErrorKind::TrailingSeparator, position: f });
        }
        let ghost inner = nested@;
        let final_class = nested.pop().unwrap();
        proof {
            assert(texts(nested@) =~= texts(inner).drop_last());
        }
        let path = ClassPath {
            packages: names,
            class,
            nested_path: Some(NestedPath { classes: nested, final_class }),
            span: Span { start, end: f },
        };
        Ok((path, f))
    }

    /// Reads a class path that takes up the whole of `tokens`.
    pub fn parse(tokens: &Vec<Token>) -> (r: Result<ClassPath, ParseError>)
        ensures
            match r {
                Ok(path) => class_path_of(tokens@) == Ok::<ClassPathView, ParseError>(path@)
                    && path@.well_formed(),
                Err(e) => class_path_of(tokens@) == Err::<ClassPathView, ParseError>(e),
            },
    {
        assert(tokens@.take(tokens.len() as int) == tokens@);
        match ClassPath::parse_prefix(tokens, 0, tokens.len()) {
            Ok((path, next)) => {
                if next == tokens.len() {
                    Ok(path)
                } else {
                    Err(
                        ParseError {
                            kind: ParseErrorKind::SyntaxError(Expected::End),
                            position: next,
                        },
                    )
                }
            },
            Err(e) => Err(e),
        }
    }

    /// Reads a class path with a method name behind it, from index `start`
    /// and no further than `end`. Gives the path, the name and the index
    /// behind the name.
    pub fn parse_with_trailing_method_prefix(tokens: &Vec<Token>, start: usize, end: usize) -> (r:
        Result<(ClassPath, String, usize), ParseError>)
        requires
            start <= end <= tokens.len(),
        ensures
            match r {
                Ok((path, method, next)) => {
                    &&& class_path_and_method_at(tokens@.take(end as int), start as int) == Ok::<
                        (ClassPathView, Seq<char>, int),
                        ParseError,
                    >((path@, method@, next as int))
                    &&& path@.well_formed()
                    &&& start < next <= end
                },
                Err(e) => class_path_and_method_at(tokens@.take(end as int), start as int)
                    == Err::<(ClassPathView, Seq<char>, int), ParseError>(e),
            },
    {
        let (path, next) = match ClassPath::parse_prefix(tokens, start, end) {
            Ok(found) => found,
            Err(e) => { return Err(e); },
        };
        let ClassPath { packages, class, nested_path, span } = path;
        match nested_path {
            Some(nested) => {
                if !(next < end && tokens[next].is_punct('.')) {
                    return Err(
                        ParseError {
                            kind: ParseErrorKind::SyntaxError(Expected::Dot),
                            position: next,
                        },
                    );
                }
                if !(next + 1 < end && tokens[next + 1].is_ident()) {
                    return Err(
                        ParseError {
                            kind: ParseErrorKind::SyntaxError(Expected::Identifier),
                            position: next + 1,
                        },
                    );
                }
                let method = word(tokens, next + 1);
                let path = ClassPath { packages, class, nested_path: Some(nested), span };
                Ok((path, method, next + 2))
            },
            None => {
                let mut packages = packages;
                if packages.len() < 2 {
                    return Err(
                        ParseError { kind: ParseErrorKind::MissingPackage, position: start },
                    );
                }
                let ghost all = packages@;
                let last = packages.pop().unwrap();
                proof {
                    assert(texts(packages@) =~= texts(all).drop_last());
                }
                let path = ClassPath {
                    packages,
                    class: last,
                    nested_path: None,
                    span: Span { start, end: next - 2 },
                };
                Ok((path, class, next))
            },
        }
    }

    /// Reads a class path whose last component is a method name, and which
    /// takes up the whole of `tokens`. Gives the path and the name.
    pub fn parse_with_trailing_method(tokens: &Vec<Token>) -> (r: Result<
        (ClassPath, String),
        ParseError,
    >)
        ensures
            match r {
                Ok((path, method)) => class_path_and_method_of(tokens@) == Ok::<
                    (ClassPathView, Seq<char>),
                    ParseError,
                >((path@, method@)) && path@.well_formed(),
                Err(e) => class_path_and_method_of(tokens@) == Err::<
                    (ClassPathView, Seq<char>),
                    ParseError,
                >(e),
            },
    {
        assert(tokens@.take(tokens.len() as int) == tokens@);
        match ClassPath::parse_with_trailing_method_prefix(tokens, 0, tokens.len()) {
            Ok((path, method, next)) => {
                if next == tokens.len() {
                    Ok((path, method))
                } else {
                    Err(
                        ParseError {
                            kind: ParseErrorKind::SyntaxError(Expected::End),
                            position: next,
                        },
                    )
                }
            },
            Err(e) => Err(e),
        }
    }

    /// The path as text: packages and class with `sep` between them, then
    /// each nested class with `nested_sep` in front of it.
    fn to_string_helper(&self, sep: &str, nested_sep: &str) -> (r: String)
        ensures
            r@ == self@.rendered(sep@, nested_sep@),
    {
        let mut segments = copy_strings(&self.packages);
        proof {
            lemma_texts_push(segments@, self.class);
        }
        segments.push(self.class.clone());
        let mut out = intersperse(&segments, sep);
        match &self.nested_path {
            Some(nested) => {
                let mut inner = copy_strings(&nested.classes);
                proof {
                    lemma_texts_push(inner@, nested.final_class);
                }
                inner.push(nested.final_class.clone());
                let tail = intersperse(&inner, nested_sep);
                out.append(nested_sep);
                out.append(tail.as_str());
                assert(out@ =~= self@.rendered(sep@, nested_sep@));
            },
            None => {
                assert(out@ =~= self@.rendered(sep@, nested_sep@));
            },
        }
        out
    }

    /// The path as JNI writes it, with a slash between the components and a
    /// `$` in front of each nested class: `java/lang/String`, `me/author/Class$Nested`.
    pub fn to_jni_class_path(&self) -> (r: String)
        ensures
            r@ == self@.jni_form(),
    {
        proof {
            reveal_strlit("/");
            reveal_strlit("$");
            assert("/"@ =~= seq!['/']);
            assert("$"@ =~= seq!['$']);
        }
        self.to_string_helper("/", "$")
    }

    /// The path as it is shown to a reader, with a `.` in front of every
    /// component but the first: `me.author.Class.Nested`.
    pub fn to_string(&self) -> (r: String)
        ensures
            r@ == self@.display_form(),
    {
        proof {
            reveal_strlit(".");
            assert("."@ =~= seq!['.']);
        }
        self.to_string_helper(".", ".")
    }
}

/// A copy of a list of strings.
fn copy_strings(items: &Vec<String>) -> (r: Vec<String>)
    ensures
        r@ == items@,
{
    let mut out: Vec<String> = Vec::new();
    let mut i: usize = 0;
    while i < items.len()
        invariant
            i <= items.len(),
            out@ == items@.take(i as int),
        decreases items.len() - i,
    {
        out.push(items[i].clone());
        assert(items@.take(i as int).push(items@[i as int]) == items@.take(i + 1));
        i = i + 1;
    }
    assert(items@.take(items.len() as int) == items@);
    out
}

impl SigType for ClassPath {
    open spec fn sig_letter(&self) -> char {
        'l'
    }

    open spec fn sig_text(&self) -> Seq<char> {
        seq!['L'] + self@.jni_form() + seq![';']
    }

    fn sig_char(&self) -> (c: char) {
        'l'
    }

    fn sig_type(&self) -> (s: String) {
        proof {
            reveal_strlit("L");
            reveal_strlit(";");
            assert("L"@ =~= seq!['L']);
            assert(";"@ =~= seq![';']);
        }
        let mut s = String::from_str("L");
        let path = self.to_jni_class_path();
        s.append(path.as_str());
        s.append(";");
        s
    }
}

/// A type of the Java side: `void`, a primitive under its Java or its Rust
/// name, or a class.
#[allow(inconsistent_fields)]
#[derive(Debug, PartialEq, Eq, Hash)]
pub enum Type {
    /// `void`: no value. It can only be returned.
    Void { span: Span },
    /// A primitive written with its Java name, such as `int`.
    JavaPrimitive { ty: JavaPrimitive, span: Span },
    /// A primitive written with its Rust name, such as `i32`.
    RustPrimitive { ty: RustPrimitive, span: Span },
    /// A class, by its path.
    Object(ClassPath),
}

/// A type as mathematical data.
#[allow(inconsistent_fields)]
pub enum TypeView {
    Void { span: Span },
    JavaPrimitive { ty: JavaPrimitive, span: Span },
    RustPrimitive { ty: RustPrimitive, span: Span },
    Object(ClassPathView),
}

impl View for Type {
    type V = TypeView;

    open spec fn view(&self) -> TypeView {
        match self {
            Type::Void { span } => TypeView::Void { span: *span },
            Type::JavaPrimitive { ty, span } => TypeView::JavaPrimitive { ty: *ty, span: *span },
            Type::RustPrimitive { ty, span } => TypeView::RustPrimitive { ty: *ty, span: *span },
            Type::Object(class) => TypeView::Object(class@),
        }
    }
}

impl TypeView {
    /// The tokens the type was read from.
    pub open spec fn span(self) -> Span {
        match self {
            TypeView::Void { span } => span,
            TypeView::JavaPrimitive { span, .. } => span,
            TypeView::RustPrimitive { span, .. } => span,
            TypeView::Object(class) => class.span,
        }
    }

    /// The Java primitive that values of the type are on the Java side, if
    /// the type is a primitive.
    pub open spec fn primitive(self) -> Option<JavaPrimitive> {
        match self {
            TypeView::JavaPrimitive { ty, .. } => Some(ty),
            TypeView::RustPrimitive { ty, .. } => Some(ty.java()),
            _ => None,
        }
    }

    /// The lowercase letter of the type.
    pub open spec fn letter(self) -> char {
        match self {
            TypeView::Void { .. } => 'v',
            TypeView::JavaPrimitive { ty, .. } => ty.letter(),
            TypeView::RustPrimitive { ty, .. } => ty.java().letter(),
            TypeView::Object(_) => 'l',
        }
    }

    /// The type as it is written in a method signature.
    pub open spec fn sig_text(self) -> Seq<char> {
        match self {
            TypeView::Object(class) => seq!['L'] + class.jni_form() + seq![';'],
            _ => seq![capital(self.letter())],
        }
    }

    /// The type in words: the Java name of a primitive, `Object(..)` around
    /// the JNI form of a class path.
    pub open spec fn name(self) -> Seq<char> {
        match self {
            TypeView::Void { .. } => "void"@,
            TypeView::JavaPrimitive { ty, .. } => ty.name(),
            TypeView::RustPrimitive { ty, .. } => ty.java().name(),
            TypeView::Object(class) => "Object("@ + class.jni_form() + ")"@,
        }
    }
}

/// Reads a type that starts at index `p`. A Rust name is looked for first,
/// then a Java name, and any other identifier starts a class path.
pub open spec fn type_at(t: Seq<Token>, p: int) -> Result<(TypeView, int), ParseError> {
    if !ident_at(t, p) {
        Err(syntax_error(Expected::Identifier, p))
    } else {
        let name = text_at(t, p);
        let span = Span { start: p as usize, end: (p + 1) as usize };
        match RustPrimitive::named(name) {
            Some(ty) => Ok((TypeView::RustPrimitive { ty, span }, p + 1)),
            None => match JavaPrimitive::named(name) {
                Some(ty) => Ok((TypeView::JavaPrimitive { ty, span }, p + 1)),
                None => if name == "void"@ {
                    Ok((TypeView::Void { span }, p + 1))
                } else {
                    match class_path_at(t, p) {
                        Ok((class, next)) => Ok((TypeView::Object(class), next)),
                        Err(e) => Err(e),
                    }
                },
            },
        }
    }
}

/// A type that was read ends behind its start and inside the input.
pub proof fn lemma_type_advances(t: Seq<Token>, p: int)
    ensures
        type_at(t, p) matches Ok((_, next)) ==> p < next <= t.len(),
{
    lemma_class_path_advances(t, p);
}

/// The signature of a type. A type other than a class has a lowercase letter
/// for its letter, and its signature is that letter as a capital. The
/// signature of a class is `L`, the JNI form of its path, and `;`.
pub proof fn lemma_signature_text(ty: TypeView)
    ensures
        match ty {
            TypeView::Object(class) => ty.letter() == 'l' && ty.sig_text() == seq!['L']
                + class.jni_form() + seq![';'],
            _ => {
                &&& 'a' <= ty.letter() <= 'z'
                &&& 'A' <= capital(ty.letter()) <= 'Z'
                &&& ty.sig_text() == seq![capital(ty.letter())]
            },
        },
{
}

impl Type {
    /// The tokens the type was read from.
    pub fn span(&self) -> (r: Span)
        ensures
            r == self@.span(),
    {
        match self {
            Type::Void { span } => *span,
            Type::JavaPrimitive { span, .. } => *span,
            Type::RustPrimitive { span, .. } => *span,
            Type::Object(class) => class.span(),
        }
    }

    /// Whether the type is `void`.
    pub fn is_void(&self) -> (r: bool)
        ensures
            r == (self@ is Void),
    {
        match self {
            Type::Void { .. } => true,
            _ => false,
        }
    }

    /// The Java primitive that values of the type are on the Java side, if
    /// the type is a primitive.
    pub fn primitive(&self) -> (r: Option<JavaPrimitive>)
        ensures
            r == self@.primitive(),
    {
        match self {
            Type::JavaPrimitive { ty, .. } => Some(*ty),
            Type::RustPrimitive { ty, .. } => Some(JavaPrimitive::from(*ty)),
            _ => None,
        }
    }

    /// Reads a type that starts at index `start` and ends before `end`.
    /// Gives the type and the index behind its last token.
    pub fn parse_prefix(tokens: &Vec<Token>, start: usize, end: usize) -> (r: Result<
        (Type, usize),
        ParseError,
    >)
        requires
            start <= end <= tokens.len(),
        ensures
            match r {
                Ok((ty, next)) => type_at(tokens@.take(end as int), start as int) == Ok::<
                    (TypeView, int),
                    ParseError,
                >((ty@, next as int)) && start < next <= end,
                Err(e) => type_at(tokens@.take(end as int), start as int) == Err::<
                    (TypeView, int),
                    ParseError,
                >(e) && start <= e.position <= end,
            },
    {
        if start >= end || !tokens[start].is_ident() {
            return Err(
                ParseError {
                    kind: ParseErrorKind::SyntaxError(Expected::Identifier),
                    position: start,
                },
            );
        }
        let name = word(tokens, start);
        let span = Span { start, end: start + 1 };
        if let Ok(ty) = RustPrimitive::from_str(name.as_str()) {
            return Ok((Type::RustPrimitive { ty, span }, start + 1));
        }
        if let Ok(ty) = JavaPrimitive::from_str(name.as_str()) {
            return Ok((Type::JavaPrimitive { ty, span }, start + 1));
        }
        if text_equal(name.as_str(), "void") {
            return Ok((Type::Void { span }, start + 1));
        }
        match ClassPath::parse_prefix(tokens, start, end) {
            Ok((class, next)) => Ok((Type::Object(class), next)),
            Err(e) => Err(e),
        }
    }

    /// The type in words: the Java name of a primitive, `Object(..)` around
    /// the JNI form of a class path.
    pub fn to_string(&self) -> (r: String)
        ensures
            r@ == self@.name(),
    {
        match self {
            Type::Void { .. } => String::from_str("void"),
            Type::JavaPrimitive { ty, .. } => ty.to_string(),
            Type::RustPrimitive { ty, .. } => JavaPrimitive::from(*ty).to_string(),
            Type::Object(class) => {
                let mut s = String::from_str("Object(");
                let path = class.to_jni_class_path();
                s.append(path.as_str());
                s.append(")");
                s
            },
        }
    }
}

impl SigType for Type {
    open spec fn sig_letter(&self) -> char {
        self@.letter()
    }

    open spec fn sig_text(&self) -> Seq<char> {
        self@.sig_text()
    }

    fn sig_char(&self) -> (c: char) {
        match self {
            Type::Void { .. } => 'v',
            Type::JavaPrimitive { ty, .. } => ty.sig_char(),
            Type::RustPrimitive { ty, .. } => JavaPrimitive::from(*ty).sig_char(),
            Type::Object(class) => class.sig_char(),
        }
    }

    fn sig_type(&self) -> (s: String) {
        match self {
            Type::Void { .. } => {
                proof {
                    reveal_strlit("V");
                    assert("V"@ =~= seq![capital('v')]);
                }
                String::from_str("V")
            },
            Type::JavaPrimitive { ty, .. } => ty.sig_type(),
            Type::RustPrimitive { ty, .. } => JavaPrimitive::from(*ty).sig_type(),
            Type::Object(class) => class.sig_type(),
        }
    }
}

} // verus!
