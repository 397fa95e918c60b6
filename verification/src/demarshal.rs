//! What is done with the raw result of a call before the caller gets it:
//! the check for `null`, the check for a pending exception, and the shape of
//! what is handed back.

use crate::call::{ResultType, ResultTypeView, Return, ReturnView};
use crate::types::{Type, TypeView};
use vstd::prelude::*;

verus! {

/// What is done where the call returned a `null` reference.
#[derive(Clone, Copy, Debug, PartialEq, Eq, Hash, Structural)]
pub enum NullHandling {
    /// The result is a primitive: it cannot be `null`, and nothing is checked.
    NotApplicable,
    /// The caller has said that the method never returns `null`: the program stops.
    Abort,
    /// `null` is the empty option, any other reference a present one.
    Empty,
}

/// What is done about an exception that the call may have thrown.
#[derive(Clone, Copy, Debug, PartialEq, Eq, Hash, Structural)]
pub enum ExceptionHandling {
    /// Nothing: the caller has said that the method does not throw.
    NotChecked,
    /// The bridge is asked whether an exception is pending; one that is
    /// becomes the error of the result.
    Checked,
}

/// How the result of a call is treated: first the check for `null`, then the
/// check for an exception.
#[derive(Clone, Copy, Debug, PartialEq, Eq, Hash, Structural)]
pub struct ReturnPolicy {
    pub null: NullHandling,
    pub exception: ExceptionHandling,
}

/// Why a generated program stops instead of going on with a wrong value.
#[derive(Clone, Copy, Debug, PartialEq, Eq, Hash, Structural)]
pub enum Fault {
    /// The bridge could not make the call.
    CallFailed,
    /// The value that came back is not of the type that was declared.
    TypeMismatch,
    /// `null` came back where the caller has said it never would.
    NullReturned,
}

/// What the bridge reports of one call: that it could not make it, that the
/// result is not of the declared type, or the converted value with whether
/// it is a `null` reference and the exception that is pending, if one is.
#[derive(Debug, PartialEq, Eq, Hash)]
pub enum Raw<V, E> {
    CallFailed,
    TypeMismatch,
    Returned { value: V, is_null: bool, exception: Option<E> },
}

/// A value that came back, as the caller sees it.
#[derive(Debug, PartialEq, Eq, Hash)]
pub enum Payload<V> {
    /// The value itself.
    Value(V),
    /// The empty option.
    Absent,
    /// The option that holds the value.
    Present(V),
}

/// What a generated program does in the end.
#[derive(Debug, PartialEq, Eq, Hash)]
pub enum Outcome<V, E> {
    /// It stops.
    Abort(Fault),
    /// It yields the payload as it is.
    Plain(Payload<V>),
    /// It yields the success branch of a result, with the payload.
    Success(Payload<V>),
    /// It yields the error branch of a result, with the exception.
    Failure(E),
}

impl ResultTypeView {
    /// What is done about `null` for this first argument of `Result`.
    pub open spec fn null_handling(self) -> NullHandling {
        match self {
            ResultTypeView::Assertive(TypeView::Object(_)) => NullHandling::Abort,
            ResultTypeView::Assertive(_) => NullHandling::NotApplicable,
            ResultTypeView::Option(_) => NullHandling::Empty,
        }
    }
}

impl ReturnView {
    /// How the result of a call with this return specification is treated.
    pub open spec fn policy(self) -> ReturnPolicy {
        match self {
            ReturnView::Assertive(TypeView::Object(_)) => ReturnPolicy {
                null: NullHandling::Abort,
                exception: ExceptionHandling::NotChecked,
            },
            ReturnView::Assertive(_) => ReturnPolicy {
                null: NullHandling::NotApplicable,
                exception: ExceptionHandling::NotChecked,
            },
            ReturnView::Option(_) => ReturnPolicy {
                null: NullHandling::Empty,
                exception: ExceptionHandling::NotChecked,
            },
            ReturnView::Result(ok) => ReturnPolicy {
                null: ok.null_handling(),
                exception: ExceptionHandling::Checked,
            },
        }
    }
}

impl ReturnPolicy {
    /// The payload that a value becomes under this policy, once it is known
    /// that the program goes on.
    pub open spec fn payload<V>(self, value: V, is_null: bool) -> Payload<V> {
        match self.null {
            NullHandling::Empty => if is_null {
                Payload::Absent
            } else {
                Payload::Present(value)
            },
            _ => Payload::Value(value),
        }
    }

    /// What the generated program does with what the bridge reports. A call
    /// that failed and a value of the wrong type stop it. Then `null` is
    /// looked at, and only then the exception.
    pub open spec fn outcome<V, E>(self, raw: Raw<V, E>) -> Outcome<V, E> {
        match raw {
            Raw::CallFailed => Outcome::Abort(Fault::CallFailed),
            Raw::TypeMismatch => Outcome::Abort(Fault::TypeMismatch),
            Raw::Returned { value, is_null, exception } => if self.null == NullHandling::Abort
                && is_null {
                Outcome::Abort(Fault::NullReturned)
            } else {
                match self.exception {
                    ExceptionHandling::NotChecked => Outcome::Plain(self.payload(value, is_null)),
                    ExceptionHandling::Checked => match exception {
                        Some(e) => Outcome::Failure(e),
                        None => Outcome::Success(self.payload(value, is_null)),
                    },
                }
            },
        }
    }

    /// Does with what the bridge reports what the generated program does with it.
    pub fn demarshal<V, E>(&self, raw: Raw<V, E>) -> (r: Outcome<V, E>)
        ensures
            r == self.outcome(raw),
    {
        match raw {
            Raw::CallFailed => Outcome::Abort(Fault::CallFailed),
            Raw::TypeMismatch => Outcome::Abort(Fault::TypeMismatch),
            Raw::Returned { value, is_null, exception } => {
                if is_null {
                    match self.null {
                        NullHandling::Abort => { return Outcome::Abort(Fault::NullReturned); },
                        _ => {},
                    }
                }
                let empty = match self.null {
                    NullHandling::Empty => true,
                    _ => false,
                };
                match self.exception {
                    ExceptionHandling::NotChecked => Outcome::Plain(
                        if !empty {
                            Payload::Value(value)
                        } else if is_null {
                            Payload::Absent
                        } else {
                            Payload::Present(value)
                        },
                    ),
                    ExceptionHandling::Checked => match exception {
                        Some(e) => Outcome::Failure(e),
                        None => Outcome::Success(
                            if !empty {
                                Payload::Value(value)
                            } else if is_null {
                                Payload::Absent
                            } else {
                                Payload::Present(value)
                            },
                        ),
                    },
                }
            },
        }
    }
}

impl ResultType {
    /// What is done about `null` for this first argument of `Result`.
    pub fn null_handling(&self) -> (r: NullHandling)
        ensures
            r == self@.null_handling(),
    {
        match self {
            ResultType::Assertive(Type::Object(_)) => NullHandling::Abort,
            ResultType::Assertive(_) => NullHandling::NotApplicable,
            ResultType::Option(_) => NullHandling::Empty,
        }
    }
}

impl Return {
    /// How the result of a call with this return specification is treated.
    pub fn policy(&self) -> (r: ReturnPolicy)
        ensures
            r == self@.policy(),
    {
        match self {
            Return::Assertive(Type::Object(_)) => ReturnPolicy {
                null: NullHandling::Abort,
                exception: ExceptionHandling::NotChecked,
            },
            Return::Assertive(_) => ReturnPolicy {
                null: NullHandling::NotApplicable,
                exception: ExceptionHandling::NotChecked,
            },
            Return::Option(_) => ReturnPolicy {
                null: NullHandling::Empty,
                exception: ExceptionHandling::NotChecked,
            },
            Return::Result(ok, _) => ReturnPolicy {
                null: ok.null_handling(),
                exception: ExceptionHandling::Checked,
            },
        }
    }
}

/// A call that is declared to return `Option` of a class yields the empty
/// option where the reference that came back is `null`, and the option that
/// holds the reference where it is not. An exception is not looked at.
pub proof fn lemma_option_outcome<V, E>(
    return_type: ReturnView,
    value: V,
    is_null: bool,
    exception: Option<E>,
)
    requires
        return_type is Option,
    ensures
        return_type.policy().outcome(Raw::Returned { value, is_null, exception })
            == Outcome::<V, E>::Plain(
            if is_null {
                Payload::Absent
            } else {
                Payload::Present(value)
            },
        ),
{
}

/// A call that is declared to return `Result` of a primitive yields the error
/// branch where an exception is pending, whatever the value is that came
/// back, and the success branch with that value where none is.
pub proof fn lemma_result_outcome<V, E>(
    return_type: ReturnView,
    value: V,
    is_null: bool,
    exception: Option<E>,
)
    requires
        return_type matches ReturnView::Result(ResultTypeView::Assertive(ty)) && !(ty is Object),
    ensures
        return_type.policy().outcome(Raw::Returned { value, is_null, exception }) == match exception {
            Some(e) => Outcome::<V, E>::Failure(e),
            None => Outcome::<V, E>::Success(Payload::Value(value)),
        },
{
}

/// Whatever the return specification is: a `null` stops the program only
/// where an object was declared without `Option`; an exception is looked at
/// only under `Result`, and only after the check for `null`; and apart from
/// these the value is never lost.
pub proof fn lemma_outcome_table<V, E>(
    return_type: ReturnView,
    value: V,
    is_null: bool,
    exception: Option<E>,
)
    ensures
        ({
            let outcome = return_type.policy().outcome(Raw::Returned { value, is_null, exception });
            let object = return_type.payload() is Object;
            let optional = return_type is Option || return_type matches ReturnView::Result(
                ResultTypeView::Option(_),
            );
            let payload = if !optional {
                Payload::Value(value)
            } else if is_null {
                Payload::Absent
            } else {
                Payload::Present(value)
            };
            if object && !optional && is_null {
                outcome == Outcome::<V, E>::Abort(Fault::NullReturned)
            } else if !(return_type is Result) {
                outcome == Outcome::<V, E>::Plain(payload)
            } else {
                outcome == match exception {
                    Some(e) => Outcome::<V, E>::Failure(e),
                    None => Outcome::<V, E>::Success(payload),
                }
            }
        }),
{
}

} // verus!
