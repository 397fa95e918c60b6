//! The whole of a call, lowered: what the bridge is asked to invoke, with
//! which signature and arguments, and how the result is treated.

use crate::call::{
    CallType, CallTypeView, MethodCall, MethodCallView, ParameterView, ResultType, Return,
};
use crate::demarshal::ReturnPolicy;
use crate::marshal::{copy_tokens, Argument, ArgumentView};
use crate::token::Token;
use crate::types::{Conversion, SigType, Type, TypeView};
use vstd::prelude::*;

verus! {

/// What the bridge is asked to invoke the method on.
#[derive(Debug, PartialEq, Eq, Hash)]
pub enum Invocation {
    /// A class, named in JNI form: the method is static.
    Static { class: String },
    /// The object that the tokens give. It is passed by reference.
    Object { receiver: Vec<Token> },
}

/// A call as the generated program makes it.
///
/// The program invokes the method through the bridge and stops with
/// `call_failed_message` where the bridge cannot make the call. It converts
/// the raw result with the operation that `letter` names and stops with
/// `incorrect_type_message` where the result is of another type. Where
/// `conversion` is set, it applies it to the value. Then it treats the value
/// as `policy` says; where that stops the program because of a `null`, it
/// does so with `non_null_message`.
#[derive(Debug, PartialEq, Eq, Hash)]
pub struct CallPlan {
    pub invocation: Invocation,
    pub method_name: String,
    pub signature: String,
    pub arguments: Vec<Argument>,
    pub call_failed_message: String,
    pub letter: char,
    pub incorrect_type_message: String,
    pub conversion: Option<Conversion>,
    pub policy: ReturnPolicy,
    pub non_null_message: String,
}

/// The target of an invocation as mathematical data.
pub enum InvocationView {
    Static { class: Seq<char> },
    Object { receiver: Seq<Token> },
}

/// A lowered call as mathematical data.
pub struct CallPlanView {
    pub invocation: InvocationView,
    pub method_name: Seq<char>,
    pub signature: Seq<char>,
    pub arguments: Seq<ArgumentView>,
    pub call_failed_message: Seq<char>,
    pub letter: char,
    pub incorrect_type_message: Seq<char>,
    pub conversion: Option<Conversion>,
    pub policy: ReturnPolicy,
    pub non_null_message: Seq<char>,
}

impl View for Invocation {
    type V = InvocationView;

    open spec fn view(&self) -> InvocationView {
        match self {
            Invocation::Static { class } => InvocationView::Static { class: class@ },
            Invocation::Object { receiver } => InvocationView::Object { receiver: receiver@ },
        }
    }
}

/// The views of a list of arguments.
pub open spec fn argument_views(items: Seq<Argument>) -> Seq<ArgumentView> {
    items.map_values(|argument: Argument| argument@)
}

/// Appending an argument to a list appends its view to the list's views.
pub proof fn lemma_argument_views_push(items: Seq<Argument>, last: Argument)
    ensures
        argument_views(items.push(last)) == argument_views(items).push(last@),
{
    assert(argument_views(items.push(last)) =~= argument_views(items).push(last@));
}

impl View for CallPlan {
    type V = CallPlanView;

    open spec fn view(&self) -> CallPlanView {
        CallPlanView {
            invocation: self.invocation@,
            method_name: self.method_name@,
            signature: self.signature@,
            arguments: argument_views(self.arguments@),
            call_failed_message: self.call_failed_message@,
            letter: self.letter,
            incorrect_type_message: self.incorrect_type_message@,
            conversion: self.conversion,
            policy: self.policy,
            non_null_message: self.non_null_message@,
        }
    }
}

/// What a parameter adds to the signature of a method: the signature of its
/// type, with `[` in front of it where the parameter is an array.
pub open spec fn parameter_signature(parameter: ParameterView) -> Seq<char> {
    if parameter.is_array() {
        seq!['['] + parameter.ty().sig_text()
    } else {
        parameter.ty().sig_text()
    }
}

/// What the parameters add to the signature of a method, in order.
pub open spec fn parameters_signature(parameters: Seq<ParameterView>) -> Seq<char>
    decreases parameters.len(),
{
    if parameters.len() == 0 {
        Seq::empty()
    } else {
        parameters_signature(parameters.drop_last()) + parameter_signature(parameters.last())
    }
}

impl TypeView {
    /// The conversion that a value of this type needs once the bridge has
    /// handed it back.
    pub open spec fn conversion(self) -> Option<Conversion> {
        match self {
            TypeView::RustPrimitive { ty, .. } => ty.conversion(),
            _ => None,
        }
    }

    /// How the type is named to the reader of a message: a class by the
    /// display form of its path, any other type by its name.
    pub open spec fn shown(self) -> Seq<char> {
        match self {
            TypeView::Object(class) => class.display_form(),
            _ => self.name(),
        }
    }
}

impl MethodCallView {
    /// The JNI signature of the method: the parameters in parentheses, then
    /// the type of the value that crosses the bridge on the way back.
    pub open spec fn signature(self) -> Seq<char> {
        seq!['('] + parameters_signature(self.parameters) + seq![')']
            + self.return_type.payload().sig_text()
    }

    /// What the bridge is asked to invoke the method on.
    pub open spec fn invocation(self) -> InvocationView {
        match self.call_type {
            CallTypeView::Static(class) => InvocationView::Static { class: class.jni_form() },
            CallTypeView::Object(receiver) => InvocationView::Object { receiver },
        }
    }

    /// What the program says when the bridge cannot make the call.
    pub open spec fn call_failed_message(self) -> Seq<char> {
        match self.call_type {
            CallTypeView::Static(class) => "Failed to call static method "@ + self.method_name
                + "() on "@ + class.display_form() + ": {err}"@,
            CallTypeView::Object(_) => "Failed to call "@ + self.method_name + "(): {err}"@,
        }
    }

    /// What the program says when the result is not of the declared type.
    pub open spec fn incorrect_type_message(self) -> Seq<char> {
        "Expected "@ + self.method_name + "() to return "@ + self.return_type.payload().shown()
            + ": {err}"@
    }

    /// What the program says when `null` came back against the declaration.
    pub open spec fn non_null_message(self) -> Seq<char> {
        "Expected Object returned by "@ + self.method_name + "() to not be NULL"@
    }

    /// The call, lowered.
    pub open spec fn plan(self) -> CallPlanView {
        CallPlanView {
            invocation: self.invocation(),
            method_name: self.method_name,
            signature: self.signature(),
            arguments: self.parameters.map_values(|parameter: ParameterView| parameter.argument()),
            call_failed_message: self.call_failed_message(),
            letter: self.return_type.payload().letter(),
            incorrect_type_message: self.incorrect_type_message(),
            conversion: self.return_type.payload().conversion(),
            policy: self.return_type.policy(),
            non_null_message: self.non_null_message(),
        }
    }
}

impl ResultType {
    /// The type of the value that crosses the bridge.
    fn payload_letter(&self) -> (c: char)
        ensures
            c == self@.payload().letter(),
    {
        match self {
            ResultType::Assertive(ty) => ty.sig_char(),
            ResultType::Option(class) => class.sig_char(),
        }
    }
}

impl Return {
    /// The lowercase letter of the type of the value that crosses the bridge.
    pub fn sig_char(&self) -> (c: char)
        ensures
            c == self@.payload().letter(),
    {
        match self {
            Return::Assertive(ty) => ty.sig_char(),
            Return::Option(class) => class.sig_char(),
            Return::Result(ok, _) => ok.payload_letter(),
        }
    }

    /// The type of the value that crosses the bridge, as it is written in a
    /// method signature: `Option` and `Result` leave no trace in it.
    pub fn sig_type(&self) -> (s: String)
        ensures
            s@ == self@.payload().sig_text(),
    {
        match self {
            Return::Assertive(ty) => ty.sig_type(),
            Return::Option(class) => class.sig_type(),
            Return::Result(ResultType::Assertive(ty), _) => ty.sig_type(),
            Return::Result(ResultType::Option(class), _) => class.sig_type(),
        }
    }

    /// The conversion that the value needs once the bridge has handed it back.
    pub fn conversion(&self) -> (r: Option<Conversion>)
        ensures
            r == self@.payload().conversion(),
    {
        match self {
            Return::Assertive(Type::RustPrimitive { ty, .. }) => ty.special_case_conversion(),
            Return::Result(ResultType::Assertive(Type::RustPrimitive { ty, .. }), _) =>
                ty.special_case_conversion(),
            _ => None,
        }
    }

    /// How the type of the value that crosses the bridge is named in a message.
    fn shown(&self) -> (s: String)
        ensures
            s@ == self@.payload().shown(),
    {
        match self {
            Return::Assertive(Type::Object(class)) => class.to_string(),
            Return::Assertive(ty) => ty.to_string(),
            Return::Option(class) => class.to_string(),
            Return::Result(ResultType::Assertive(Type::Object(class)), _) => class.to_string(),
            Return::Result(ResultType::Assertive(ty), _) => ty.to_string(),
            Return::Result(ResultType::Option(class), _) => class.to_string(),
        }
    }
}

impl MethodCall {
    /// The JNI signature of the method that is called, such as `(Z[I)V`.
    pub fn signature(&self) -> (r: String)
        ensures
            r@ == self@.signature(),
    {
        proof {
            reveal_strlit("(");
            reveal_strlit(")");
            reveal_strlit("[");
            assert("("@ =~= seq!['(']);
            assert(")"@ =~= seq![')']);
            assert("["@ =~= seq!['[']);
        }
        let ghost views = self@.parameters;
        let mut out = String::from_str("(");
        let mut i: usize = 0;
        assert(views.take(0) =~= Seq::<ParameterView>::empty());
        assert(out@ =~= seq!['('] + parameters_signature(views.take(0)));
        while i < self.parameters.len()
            invariant
                i <= self.parameters.len(),
                views == self@.parameters,
                "["@ == seq!['['],
                out@ == seq!['('] + parameters_signature(views.take(i as int)),
            decreases self.parameters.len() - i,
        {
            let parameter = &self.parameters[i];
            proof {
                assert(views.take(i + 1).drop_last() =~= views.take(i as int));
                assert(views.take(i + 1).last() == parameter@);
            }
            if parameter.is_array() {
                out.append("[");
            }
            let ty = parameter.ty().sig_type();
            out.append(ty.as_str());
            assert(out@ =~= seq!['('] + parameters_signature(views.take(i + 1)));
            i = i + 1;
        }
        assert(views.take(self.parameters.len() as int) =~= views);
        out.append(")");
        let tail = self.return_type.sig_type();
        out.append(tail.as_str());
        out
    }

    /// What the program says when the bridge cannot make the call.
    fn call_failed_message(&self) -> (r: String)
        ensures
            r@ == self@.call_failed_message(),
    {
        match &self.call_type {
            CallType::Static(target) => {
                let mut s = String::from_str("Failed to call static method ");
                s.append(self.method_name.as_str());
                s.append("() on ");
                s.append(target.0.to_string().as_str());
                s.append(": {err}");
                s
            },
            CallType::Object(_) => {
                let mut s = String::from_str("Failed to call ");
                s.append(self.method_name.as_str());
                s.append("(): {err}");
                s
            },
        }
    }

    /// What the program says when the result is not of the declared type.
    fn incorrect_type_message(&self) -> (r: String)
        ensures
            r@ == self@.incorrect_type_message(),
    {
        let mut s = String::from_str("Expected ");
        s.append(self.method_name.as_str());
        s.append("() to return ");
        s.append(self.return_type.shown().as_str());
        s.append(": {err}");
        s
    }

    /// What the program says when `null` came back against the declaration.
    fn non_null_message(&self) -> (r: String)
        ensures
            r@ == self@.non_null_message(),
    {
        let mut s = String::from_str("Expected Object returned by ");
        s.append(self.method_name.as_str());
        s.append("() to not be NULL");
        s
    }

    /// The arguments that the parameters become, in order.
    fn arguments(&self) -> (r: Vec<Argument>)
        requires
            self@.well_formed(),
        ensures
            argument_views(r@) == self@.parameters.map_values(
                |parameter: ParameterView| parameter.argument(),
            ),
    {
        let ghost wanted = self@.parameters.map_values(
            |parameter: ParameterView| parameter.argument(),
        );
        let mut out: Vec<Argument> = Vec::new();
        let mut i: usize = 0;
        assert(argument_views(out@) =~= wanted.take(0));
        while i < self.parameters.len()
            invariant
                i <= self.parameters.len(),
                self@.well_formed(),
                wanted == self@.parameters.map_values(
                    |parameter: ParameterView| parameter.argument(),
                ),
                argument_views(out@) == wanted.take(i as int),
            decreases self.parameters.len() - i,
        {
            assert(self@.parameters[i as int] == self.parameters[i as int]@);
            let argument = self.parameters[i].marshal();
            proof {
                lemma_argument_views_push(out@, argument);
                assert(wanted.take(i as int).push(argument@) =~= wanted.take(i + 1));
            }
            out.push(argument);
            i = i + 1;
        }
        assert(wanted.take(self.parameters.len() as int) =~= wanted);
        out
    }

    /// Lowers the call: what is invoked, with which signature and arguments,
    /// and how the result is treated.
    pub fn plan(&self) -> (r: CallPlan)
        requires
            self@.well_formed(),
        ensures
            r@ == self@.plan(),
    {
        let invocation = match &self.call_type {
            CallType::Static(target) => Invocation::Static { class: target.0.to_jni_class_path() },
            CallType::Object(target) => Invocation::Object { receiver: copy_tokens(&target.0) },
        };
        CallPlan {
            invocation,
            method_name: self.method_name.clone(),
            signature: self.signature(),
            arguments: self.arguments(),
            call_failed_message: self.call_failed_message(),
            letter: self.return_type.sig_char(),
            incorrect_type_message: self.incorrect_type_message(),
            conversion: self.return_type.conversion(),
            policy: self.return_type.policy(),
            non_null_message: self.non_null_message(),
        }
    }
}

} // verus!
