//! How each parameter of a call is made into an argument for the bridge.
//!
//! A primitive is passed by value, an object and an array by reference. The
//! elements of an array literal are put into a new array first: a primitive
//! array is created and filled in one go, an object array is created and its
//! elements are stored one by one.

use crate::call::{Parameter, ParameterView};
use crate::text::{capitalized, decimal, decimal_digits, first_char_uppercase};
use crate::token::{copy_range, lemma_runs_push, runs, Token};
use crate::types::{JavaPrimitive, RustPrimitive, Type, TypeView};
use vstd::prelude::*;

verus! {

/// How a primitive value is written where it is handed to the bridge.
#[derive(Clone, Copy, Debug, PartialEq, Eq, Hash, Structural)]
pub enum ValueForm {
    /// As it is.
    Plain,
    /// A boolean, narrowed to the 8 bits in which it crosses the bridge, as
    /// [`crate::wire::narrow_boolean`] does.
    Narrowed,
    /// An unsigned number, its bits read as the signed type of the same size,
    /// as [`crate::types::RustPrimitive::reinterpret_signed`] does.
    Reinterpreted,
}

/// One call to the bridge that helps to build an array. Each of them stops
/// the program where it fails.
#[derive(Debug, PartialEq, Eq, Hash)]
pub enum BridgeCall {
    /// Creates an array of `length` primitives.
    NewPrimitiveArray { kind: JavaPrimitive, length: usize },
    /// Fills the array that was created, from its start, with all the elements.
    FillPrimitiveArray { kind: JavaPrimitive, form: ValueForm, elements: Vec<Vec<Token>> },
    /// Creates an array of `length` objects of the class, which is given in JNI form.
    NewObjectArray { class: String, length: usize },
    /// Stores one element into the array that was created.
    SetObjectArrayElement { index: usize, element: Vec<Token> },
}

/// An argument as the bridge gets it.
#[derive(Debug, PartialEq, Eq, Hash)]
pub enum Argument {
    /// A primitive, passed by value.
    Primitive { kind: JavaPrimitive, form: ValueForm, value: Vec<Token> },
    /// An object, or an array that exists already, passed by reference.
    Reference { value: Vec<Token> },
    /// An array that the calls of `steps` build, in this order. It is passed
    /// by reference.
    NewArray { steps: Vec<BridgeCall> },
}

/// A call to the bridge as mathematical data.
pub enum BridgeCallView {
    NewPrimitiveArray { kind: JavaPrimitive, length: nat },
    FillPrimitiveArray { kind: JavaPrimitive, form: ValueForm, elements: Seq<Seq<Token>> },
    NewObjectArray { class: Seq<char>, length: nat },
    SetObjectArrayElement { index: nat, element: Seq<Token> },
}

/// An argument as mathematical data.
pub enum ArgumentView {
    Primitive { kind: JavaPrimitive, form: ValueForm, value: Seq<Token> },
    Reference { value: Seq<Token> },
    NewArray { steps: Seq<BridgeCallView> },
}

impl View for BridgeCall {
    type V = BridgeCallView;

    open spec fn view(&self) -> BridgeCallView {
        match self {
            BridgeCall::NewPrimitiveArray { kind, length } => BridgeCallView::NewPrimitiveArray {
                kind: *kind,
                length: *length as nat,
            },
            BridgeCall::FillPrimitiveArray {
                kind,
                form,
                elements,
            } => BridgeCallView::FillPrimitiveArray {
                kind: *kind,
                form: *form,
                elements: runs(elements@),
            },
            BridgeCall::NewObjectArray { class, length } => BridgeCallView::NewObjectArray {
                class: class@,
                length: *length as nat,
            },
            BridgeCall::SetObjectArrayElement {
                index,
                element,
            } => BridgeCallView::SetObjectArrayElement { index: *index as nat, element: element@ },
        }
    }
}

/// The views of a list of calls.
pub open spec fn bridge_call_views(items: Seq<BridgeCall>) -> Seq<BridgeCallView> {
    items.map_values(|step: BridgeCall| step@)
}

/// Appending a call to a list appends its view to the list's views.
pub proof fn lemma_bridge_call_views_push(items: Seq<BridgeCall>, last: BridgeCall)
    ensures
        bridge_call_views(items.push(last)) == bridge_call_views(items).push(last@),
{
    assert(bridge_call_views(items.push(last)) =~= bridge_call_views(items).push(last@));
}

impl View for Argument {
    type V = ArgumentView;

    open spec fn view(&self) -> ArgumentView {
        match self {
            Argument::Primitive { kind, form, value } => ArgumentView::Primitive {
                kind: *kind,
                form: *form,
                value: value@,
            },
            Argument::Reference { value } => ArgumentView::Reference { value: value@ },
            Argument::NewArray { steps } => ArgumentView::NewArray {
                steps: bridge_call_views(steps@),
            },
        }
    }
}

impl JavaPrimitive {
    /// The name of the variant in which the bridge takes a value of this
    /// primitive: the name of the primitive with a capital, but `Bool` for
    /// `boolean`.
    pub open spec fn variant(self) -> Seq<char> {
        match self {
            JavaPrimitive::Boolean => "Bool"@,
            _ => capitalized(self.name()),
        }
    }

    /// The name of the variant in which the bridge takes a value of this primitive.
    pub fn variant_name(&self) -> (r: String)
        ensures
            r@ == self.variant(),
    {
        match self {
            JavaPrimitive::Boolean => String::from_str("Bool"),
            _ => first_char_uppercase(self.to_string()),
        }
    }
}

impl TypeView {
    /// How a value of this type is written where it is handed to the bridge.
    pub open spec fn form(self) -> ValueForm {
        match self {
            TypeView::JavaPrimitive { ty, .. } => if ty is Boolean {
                ValueForm::Narrowed
            } else {
                ValueForm::Plain
            },
            TypeView::RustPrimitive { ty, .. } => if ty is Bool {
                ValueForm::Narrowed
            } else if ty.unsigned() {
                ValueForm::Reinterpreted
            } else {
                ValueForm::Plain
            },
            _ => ValueForm::Plain,
        }
    }
}

impl Type {
    /// How a value of this type is written where it is handed to the bridge.
    pub fn form(&self) -> (r: ValueForm)
        ensures
            r == self@.form(),
    {
        match self {
            Type::JavaPrimitive { ty: JavaPrimitive::Boolean, .. } => ValueForm::Narrowed,
            Type::RustPrimitive { ty: RustPrimitive::Bool, .. } => ValueForm::Narrowed,
            Type::RustPrimitive { ty, .. } => if ty.is_unsigned() {
                ValueForm::Reinterpreted
            } else {
                ValueForm::Plain
            },
            _ => ValueForm::Plain,
        }
    }
}

/// The calls that store the elements of `array` one by one, each at its index.
pub open spec fn stores(array: Seq<Seq<Token>>) -> Seq<BridgeCallView> {
    Seq::new(
        array.len(),
        |i: int| BridgeCallView::SetObjectArrayElement { index: i as nat, element: array[i] },
    )
}

/// The calls that build an array of the elements of `array`, which are of type `ty`.
pub open spec fn array_steps(ty: TypeView, array: Seq<Seq<Token>>) -> Seq<BridgeCallView> {
    match ty {
        TypeView::Object(class) => seq![
            BridgeCallView::NewObjectArray { class: class.jni_form(), length: array.len() },
        ] + stores(array),
        _ => match ty.primitive() {
            Some(kind) => seq![
                BridgeCallView::NewPrimitiveArray { kind, length: array.len() },
                BridgeCallView::FillPrimitiveArray { kind, form: ty.form(), elements: array },
            ],
            None => Seq::empty(),
        },
    }
}

impl ParameterView {
    /// The argument that the parameter becomes.
    pub open spec fn argument(self) -> ArgumentView {
        match self {
            ParameterView::Single { ty, value } => match ty.primitive() {
                Some(kind) => ArgumentView::Primitive { kind, form: ty.form(), value },
                None => ArgumentView::Reference { value },
            },
            ParameterView::Array { value, .. } => ArgumentView::Reference { value },
            ParameterView::ArrayLiteral { ty, array } => ArgumentView::NewArray {
                steps: array_steps(ty, array),
            },
        }
    }
}

impl BridgeCallView {
    /// The name of the operation of the bridge that the call goes to.
    pub open spec fn function(self) -> Seq<char> {
        match self {
            BridgeCallView::NewPrimitiveArray { kind, .. } => "new_"@ + kind.name() + "_array"@,
            BridgeCallView::FillPrimitiveArray { kind, .. } => "set_"@ + kind.name()
                + "_array_region"@,
            BridgeCallView::NewObjectArray { .. } => "new_object_array"@,
            BridgeCallView::SetObjectArrayElement { .. } => "set_object_array_element"@,
        }
    }

    /// What the program says when the call fails, before it stops. `{err}`
    /// stands where the error of the bridge goes.
    pub open spec fn failure_message(self) -> Seq<char> {
        match self {
            BridgeCallView::NewPrimitiveArray { kind, .. } => "Failed to create Java "@
                + kind.name() + " array: {err}"@,
            BridgeCallView::FillPrimitiveArray { kind, .. } => "Error filling "@ + kind.name()
                + " array: {err}"@,
            BridgeCallView::NewObjectArray { class, .. } => "Failed to create Java Object \""@
                + class + "\" array: {err}"@,
            BridgeCallView::SetObjectArrayElement {
                index,
                ..
            } => "Failed to set the value of Object array at index "@ + decimal_digits(index)
                + ": {err}"@,
        }
    }
}

impl BridgeCall {
    /// The name of the operation of the bridge that the call goes to.
    pub fn function(&self) -> (r: String)
        ensures
            r@ == self@.function(),
    {
        match self {
            BridgeCall::NewPrimitiveArray { kind, .. } => {
                let mut s = String::from_str("new_");
                s.append(kind.to_string().as_str());
                s.append("_array");
                s
            },
            BridgeCall::FillPrimitiveArray { kind, .. } => {
                let mut s = String::from_str("set_");
                s.append(kind.to_string().as_str());
                s.append("_array_region");
                s
            },
            BridgeCall::NewObjectArray { .. } => String::from_str("new_object_array"),
            BridgeCall::SetObjectArrayElement { .. } => String::from_str("set_object_array_element"),
        }
    }

    /// What the program says when the call fails, before it stops.
    pub fn failure_message(&self) -> (r: String)
        ensures
            r@ == self@.failure_message(),
    {
        match self {
            BridgeCall::NewPrimitiveArray { kind, .. } => {
                let mut s = String::from_str("Failed to create Java ");
                s.append(kind.to_string().as_str());
                s.append(" array: {err}");
                s
            },
            BridgeCall::FillPrimitiveArray { kind, .. } => {
                let mut s = String::from_str("Error filling ");
                s.append(kind.to_string().as_str());
                s.append(" array: {err}");
                s
            },
            BridgeCall::NewObjectArray { class, .. } => {
                let mut s = String::from_str("Failed to create Java Object \"");
                s.append(class.as_str());
                s.append("\" array: {err}");
                s
            },
            BridgeCall::SetObjectArrayElement { index, .. } => {
                let mut s = String::from_str("Failed to set the value of Object array at index ");
                s.append(decimal(*index).as_str());
                s.append(": {err}");
                s
            },
        }
    }
}

/// A copy of a run of tokens.
pub fn copy_tokens(tokens: &Vec<Token>) -> (r: Vec<Token>)
    ensures
        r@ == tokens@,
{
    assert(tokens@.subrange(0, tokens.len() as int) == tokens@);
    copy_range(tokens, 0, tokens.len())
}

/// A copy of a list of runs of tokens.
pub fn copy_runs(items: &Vec<Vec<Token>>) -> (r: Vec<Vec<Token>>)
    ensures
        runs(r@) == runs(items@),
        r@.len() == items@.len(),
{
    let mut out: Vec<Vec<Token>> = Vec::new();
    let mut i: usize = 0;
    assert(runs(out@) =~= runs(items@.take(0)));
    while i < items.len()
        invariant
            i <= items.len(),
            out@.len() == i,
            runs(out@) == runs(items@.take(i as int)),
        decreases items.len() - i,
    {
        let run = copy_tokens(&items[i]);
        proof {
            lemma_runs_push(out@, run);
            lemma_runs_push(items@.take(i as int), items@[i as int]);
            assert(items@.take(i as int).push(items@[i as int]) == items@.take(i + 1));
        }
        out.push(run);
        i = i + 1;
    }
    assert(items@.take(items.len() as int) == items@);
    out
}

/// The calls that store the elements of `array` one by one.
fn store_elements(steps: &mut Vec<BridgeCall>, array: &Vec<Vec<Token>>)
    ensures
        bridge_call_views(final(steps)@) == bridge_call_views(old(steps)@) + stores(runs(array@)),
{
    let ghost before = bridge_call_views(steps@);
    let mut i: usize = 0;
    assert(before + stores(runs(array@)).take(0) =~= before);
    while i < array.len()
        invariant
            i <= array.len(),
            bridge_call_views(steps@) == before + stores(runs(array@)).take(i as int),
        decreases array.len() - i,
    {
        let step = BridgeCall::SetObjectArrayElement { index: i, element: copy_tokens(&array[i]) };
        proof {
            lemma_bridge_call_views_push(steps@, step);
            assert((before + stores(runs(array@)).take(i as int)).push(step@) =~= before + stores(
                runs(array@),
            ).take(i + 1));
        }
        steps.push(step);
        i = i + 1;
    }
    assert(stores(runs(array@)).take(array.len() as int) =~= stores(runs(array@)));
}

impl Parameter {
    /// Makes the parameter into the argument that the bridge gets.
    ///
    /// A primitive value is passed by value, a boolean narrowed and an
    /// unsigned number reinterpreted. An object and an existing array are
    /// passed by reference. An array literal becomes the calls that build
    /// the array: for primitives one that creates it and one that fills it,
    /// for objects one that creates it and one for each element, in order.
    pub fn marshal(&self) -> (r: Argument)
        requires
            self@.well_formed(),
        ensures
            r@ == self@.argument(),
    {
        match self {
            Parameter::Single { ty, value } => match ty.primitive() {
                Some(kind) => Argument::Primitive {
                    kind,
                    form: ty.form(),
                    value: copy_tokens(value),
                },
                None => Argument::Reference { value: copy_tokens(value) },
            },
            Parameter::Array { value, .. } => Argument::Reference { value: copy_tokens(value) },
            Parameter::ArrayLiteral { ty, array } => {
                let mut steps: Vec<BridgeCall> = Vec::new();
                match ty {
                    Type::Object(class) => {
                        let first = BridgeCall::NewObjectArray {
                            class: class.to_jni_class_path(),
                            length: array.len(),
                        };
                        proof {
                            lemma_bridge_call_views_push(steps@, first);
                            assert(bridge_call_views(steps@).push(first@) =~= seq![first@]);
                        }
                        steps.push(first);
                        store_elements(&mut steps, array);
                    },
                    _ => match ty.primitive() {
                        Some(kind) => {
                            let create = BridgeCall::NewPrimitiveArray { kind, length: array.len() };
                            let fill = BridgeCall::FillPrimitiveArray {
                                kind,
                                form: ty.form(),
                                elements: copy_runs(array),
                            };
                            proof {
                                lemma_bridge_call_views_push(steps@, create);
                                lemma_bridge_call_views_push(steps@.push(create), fill);
                                assert(bridge_call_views(steps@).push(create@).push(fill@)
                                    =~= seq![create@, fill@]);
                            }
                            steps.push(create);
                            steps.push(fill);
                        },
                        None => {},
                    },
                }
                Argument::NewArray { steps }
            },
        }
    }
}

/// An array literal of objects becomes one call that creates an array of as
/// many elements as the literal has, and behind it one call for each element
/// that stores it, in the order of the literal, each at its own index.
pub proof fn lemma_object_array_steps(parameter: ParameterView)
    requires
        parameter matches ParameterView::ArrayLiteral { ty, .. } && ty is Object,
    ensures
        ({
            let array = parameter->ArrayLiteral_array;
            let class = parameter.ty()->Object_0;
            &&& parameter.argument() matches ArgumentView::NewArray { steps }
            &&& steps.len() == array.len() + 1
            &&& steps[0] == BridgeCallView::NewObjectArray {
                class: class.jni_form(),
                length: array.len(),
            }
            &&& forall|i: int|
                0 <= i < array.len() ==> #[trigger] steps[i + 1]
                    == BridgeCallView::SetObjectArrayElement { index: i as nat, element: array[i] }
        }),
{
}

} // verus!
