//! Compiles a compact description of a Java method call into the sequence of
//! operations that performs it through a JNI-style call bridge.
//!
//! The input is a flat sequence of [`token::Token`]s. [`call::MethodCall::parse`]
//! reads it into a syntax tree, [`call::MethodCall::plan`] lowers the tree to
//! a [`plan::CallPlan`], and [`call()`] does both.

use crate::call::{call_of, MethodCall, MethodCallView};
use crate::error::ParseError;
use crate::plan::CallPlan;
use crate::token::Token;
use vstd::prelude::*;

pub mod balance;
pub mod call;
pub mod demarshal;
pub mod error;
pub mod export;
pub mod marshal;
pub mod path_laws;
pub mod plan;
pub mod text;
pub mod token;
pub mod types;
pub mod wire;

verus! {

/// Compiles a call expression: reads it and lowers it.
///
/// The result is the plan of the call that the grammar reads from the
/// tokens, or the first error on the way, with the index of the token that
/// caused it.
pub fn call(tokens: &Vec<Token>) -> (r: Result<CallPlan, ParseError>)
    ensures
        match r {
            Ok(plan) => call_of(tokens@) matches Ok(read) && plan@ == read.plan()
                && read.well_formed() && read.balanced(),
            Err(e) => call_of(tokens@) == Err::<MethodCallView, ParseError>(e) && e.position
                <= tokens.len(),
        },
{
    match MethodCall::parse(tokens) {
        Ok(read) => Ok(read.plan()),
        Err(e) => Err(e),
    }
}

} // verus!
