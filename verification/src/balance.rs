//! Runs of tokens whose brackets match.
//!
//! Every value that the grammar hands out lies between two matching
//! brackets, or between commas inside them, and so its own brackets match:
//! it can be made into a tree of groups again.

use crate::call::{
    arguments_at, array_value_at, call_of, element_end, elements_from, lemma_element_end_bounds,
    lemma_param_advances, object_method_at, param_at, params_from, target_at, value_at,
    CallTypeView, MethodCallView, ParameterView,
};
use crate::token::{
    close_of, lemma_close_bounds, lemma_scan_bounds, open_at, punct_at, scan, Delimiter, Token,
};
use crate::types::type_at;
use vstd::prelude::*;

verus! {

/// The brackets that are open behind the tokens of `s`, where those of
/// `stack` were open in front of them, innermost last. There are none to
/// give where a closing bracket does not match the bracket opened last.
pub open spec fn open_after(s: Seq<Token>, stack: Seq<Delimiter>) -> Option<Seq<Delimiter>>
    decreases s.len(),
{
    if s.len() == 0 {
        Some(stack)
    } else {
        match s[0] {
            Token::Open(d) => open_after(s.drop_first(), stack.push(d)),
            Token::Close(d) => if stack.len() > 0 && stack.last() == d {
                open_after(s.drop_first(), stack.drop_last())
            } else {
                None
            },
            _ => open_after(s.drop_first(), stack),
        }
    }
}

/// The brackets of `s` match: each one that is opened is closed by one of
/// its kind, in the right order, and none is closed that was not opened.
pub open spec fn balanced(s: Seq<Token>) -> bool {
    open_after(s, Seq::empty()) == Some(Seq::<Delimiter>::empty())
}

/// Walking over two runs, one behind the other, is walking over the first
/// and going on over the second.
pub proof fn lemma_open_after_concat(a: Seq<Token>, b: Seq<Token>, stack: Seq<Delimiter>)
    ensures
        open_after(a + b, stack) == match open_after(a, stack) {
            Some(between) => open_after(b, between),
            None => None,
        },
    decreases a.len(),
{
    if a.len() == 0 {
        assert(a + b =~= b);
    } else {
        assert((a + b).drop_first() =~= a.drop_first() + b);
        assert((a + b)[0] == a[0]);
        match a[0] {
            Token::Open(d) => lemma_open_after_concat(a.drop_first(), b, stack.push(d)),
            Token::Close(d) => {
                if stack.len() > 0 && stack.last() == d {
                    lemma_open_after_concat(a.drop_first(), b, stack.drop_last());
                }
            },
            _ => lemma_open_after_concat(a.drop_first(), b, stack),
        }
    }
}

/// Behind a single token, what was open is open still, with the bracket
/// that the token opens added or the one that it closes taken away.
pub proof fn lemma_open_after_one(only: Token, stack: Seq<Delimiter>)
    ensures
        open_after(seq![only], stack) == match only {
            Token::Open(d) => Some(stack.push(d)),
            Token::Close(d) => if stack.len() > 0 && stack.last() == d {
                Some(stack.drop_last())
            } else {
                None
            },
            _ => Some(stack),
        },
{
    reveal_with_fuel(open_after, 2);
    assert(seq![only].drop_first().len() == 0);
}

/// Two balanced runs, one behind the other, are balanced.
pub proof fn lemma_balanced_concat(a: Seq<Token>, b: Seq<Token>)
    requires
        balanced(a),
        balanced(b),
    ensures
        balanced(a + b),
{
    lemma_open_after_concat(a, b, Seq::empty());
}

/// The walk from the bracket behind the one that opens a group ends, at the
/// bracket that closes the group, with nothing open but the group itself.
proof fn lemma_scan_closes(t: Seq<Token>, i: int, stack: Seq<Delimiter>)
    requires
        0 <= i,
        stack.len() >= 1,
    ensures
        scan(t, i, stack) matches Some(c) ==> open_after(t.subrange(i, c), stack.drop_first())
            == Some(Seq::<Delimiter>::empty()) && t[c] == Token::Close(stack[0]),
    decreases t.len() - i,
{
    let rest = stack.drop_first();
    match scan(t, i, stack) {
        None => {},
        Some(c) => {
            lemma_scan_bounds(t, i, stack);
            let run = t.subrange(i, c);
            if i < c {
                assert(run.drop_first() =~= t.subrange(i + 1, c));
                assert(run[0] == t[i]);
            }
            match t[i] {
                Token::Open(d) => {
                    lemma_scan_bounds(t, i + 1, stack.push(d));
                    lemma_scan_closes(t, i + 1, stack.push(d));
                    assert(stack.push(d).drop_first() =~= rest.push(d));
                },
                Token::Close(d) => {
                    if stack.len() == 1 {
                        assert(rest =~= Seq::<Delimiter>::empty());
                    } else {
                        lemma_scan_bounds(t, i + 1, stack.drop_last());
                        lemma_scan_closes(t, i + 1, stack.drop_last());
                        assert(stack.drop_last().drop_first() =~= rest.drop_last());
                        assert(rest.last() == stack.last());
                    }
                },
                _ => {
                    lemma_scan_bounds(t, i + 1, stack);
                    lemma_scan_closes(t, i + 1, stack);
                },
            }
        },
    }
}

/// What lies between the two brackets of a group is balanced, and so is the
/// group with its brackets.
pub proof fn lemma_group_balanced(t: Seq<Token>, p: int)
    ensures
        close_of(t, p) matches Some(c) ==> balanced(t.subrange(p + 1, c)) && balanced(
            t.subrange(p, c + 1),
        ),
{
    match close_of(t, p) {
        None => {},
        Some(c) => {
            let d = t[p]->Open_0;
            lemma_scan_bounds(t, p + 1, seq![d]);
            lemma_scan_closes(t, p + 1, seq![d]);
            assert(seq![d].drop_first() =~= Seq::<Delimiter>::empty());
            let inner = t.subrange(p + 1, c);
            let group = t.subrange(p, c + 1);
            assert(group =~= seq![t[p]] + inner + seq![t[c]]);
            lemma_open_after_one(t[p], Seq::empty());
            assert(Seq::<Delimiter>::empty().push(d) =~= seq![d]);
            lemma_open_after_frame(inner, Seq::empty(), seq![d]);
            assert(seq![d] + Seq::<Delimiter>::empty() =~= seq![d]);
            lemma_open_after_one(t[c], seq![d]);
            assert(seq![d].drop_last() =~= Seq::<Delimiter>::empty());
            lemma_open_after_concat(seq![t[p]], inner, Seq::empty());
            lemma_open_after_concat(seq![t[p]] + inner, seq![t[c]], Seq::empty());
        },
    }
}

/// Brackets that are open in front of a run and that the run does not touch
/// are still open behind it.
pub proof fn lemma_open_after_frame(s: Seq<Token>, stack: Seq<Delimiter>, below: Seq<Delimiter>)
    ensures
        open_after(s, stack) matches Some(left) ==> open_after(s, below + stack) == Some(
            below + left,
        ),
    decreases s.len(),
{
    if s.len() > 0 {
        match s[0] {
            Token::Open(d) => {
                lemma_open_after_frame(s.drop_first(), stack.push(d), below);
                assert((below + stack).push(d) =~= below + stack.push(d));
            },
            Token::Close(d) => {
                if stack.len() > 0 && stack.last() == d {
                    lemma_open_after_frame(s.drop_first(), stack.drop_last(), below);
                    assert((below + stack).drop_last() =~= below + stack.drop_last());
                }
            },
            _ => lemma_open_after_frame(s.drop_first(), stack, below),
        }
    }
}

/// A value that is cut out of a balanced run ends where the rest is
/// balanced again, and is balanced itself.
proof fn lemma_element_balanced(t: Seq<Token>, i: int)
    requires
        0 <= i <= t.len(),
        balanced(t.subrange(i, t.len() as int)),
    ensures
        i <= element_end(t, i) <= t.len(),
        balanced(t.subrange(i, element_end(t, i))),
        element_end(t, i) < t.len() ==> balanced(
            t.subrange(element_end(t, i) + 1, t.len() as int),
        ),
    decreases t.len() - i,
{
    let len = t.len() as int;
    let all = t.subrange(i, len);
    let e = element_end(t, i);
    lemma_element_end_bounds(t, i);
    if i >= len {
    } else {
        assert(all[0] == t[i]);
        assert(all.drop_first() =~= t.subrange(i + 1, len));
        if punct_at(t, i, ',') {
        } else if t[i] is Open {
            match close_of(t, i) {
                Some(c) => {
                    lemma_close_bounds(t, i);
                    lemma_group_balanced(t, i);
                    let group = t.subrange(i, c + 1);
                    let rest = t.subrange(c + 1, len);
                    assert(all =~= group + rest);
                    lemma_open_after_concat(group, rest, Seq::empty());
                    lemma_element_balanced(t, c + 1);
                    assert(t.subrange(i, e) =~= group + t.subrange(c + 1, e));
                    lemma_balanced_concat(group, t.subrange(c + 1, e));
                },
                None => {},
            }
        } else {
            lemma_element_balanced(t, i + 1);
            lemma_element_end_bounds(t, i + 1);
            lemma_open_after_one(t[i], Seq::empty());
            assert(t.subrange(i, e) =~= seq![t[i]] + t.subrange(i + 1, e));
            lemma_open_after_concat(seq![t[i]], t.subrange(i + 1, e), Seq::empty());
        }
    }
}

/// The values of an array literal that are cut out of a balanced run are balanced.
proof fn lemma_elements_balanced(t: Seq<Token>, i: int)
    requires
        0 <= i <= t.len(),
        balanced(t.subrange(i, t.len() as int)),
    ensures
        elements_from(t, i) matches Ok(array) ==> forall|k: int|
            0 <= k < array.len() ==> balanced(#[trigger] array[k]),
    decreases t.len() - i,
{
    if i < t.len() {
        let e = element_end(t, i);
        lemma_element_balanced(t, i);
        if i < e < t.len() {
            lemma_elements_balanced(t, e + 1);
        }
    }
}

impl ParameterView {
    /// The brackets of the value, or of each element, match.
    pub open spec fn balanced(self) -> bool {
        match self {
            ParameterView::Single { value, .. } => balanced(value),
            ParameterView::Array { value, .. } => balanced(value),
            ParameterView::ArrayLiteral { array, .. } => forall|k: int|
                0 <= k < array.len() ==> balanced(#[trigger] array[k]),
        }
    }
}

impl MethodCallView {
    /// The brackets of the receiver and of every value match.
    pub open spec fn balanced(self) -> bool {
        &&& self.call_type matches CallTypeView::Object(receiver) ==> balanced(receiver)
        &&& forall|i: int|
            0 <= i < self.parameters.len() ==> (#[trigger] self.parameters[i]).balanced()
    }
}

/// The value of an array parameter that was read is balanced.
proof fn lemma_array_value_balanced(t: Seq<Token>, ty: crate::types::TypeView, p: int)
    requires
        0 <= p,
    ensures
        array_value_at(t, ty, p) matches Ok((parameter, _)) ==> parameter.balanced(),
{
    lemma_group_balanced(t, p);
    lemma_close_bounds(t, p);
    match value_at(t, p) {
        Ok(c) => {
            if open_at(t, p + 1, Delimiter::Bracket) {
                let inside = t.take(c);
                lemma_group_balanced(inside, p + 1);
                lemma_close_bounds(inside, p + 1);
                match close_of(inside, p + 1) {
                    Some(b) => {
                        let content = t.take(b);
                        assert(inside.subrange(p + 2, b) =~= content.subrange(
                            p + 2,
                            content.len() as int,
                        ));
                        lemma_elements_balanced(content, p + 2);
                    },
                    None => {},
                }
            }
        },
        Err(_) => {},
    }
}

/// The value of a parameter that was read, or each of its elements, is balanced.
pub proof fn lemma_param_balanced(t: Seq<Token>, p: int)
    requires
        0 <= p,
    ensures
        param_at(t, p) matches Ok((parameter, _)) ==> parameter.balanced(),
{
    if open_at(t, p, Delimiter::Bracket) {
        lemma_close_bounds(t, p);
        match close_of(t, p) {
            Some(c) => match type_at(t.take(c), p + 1) {
                Ok((ty, _)) => lemma_array_value_balanced(t, ty, c + 1),
                Err(_) => {},
            },
            None => {},
        }
    } else {
        crate::types::lemma_type_advances(t, p);
        match type_at(t, p) {
            Ok((_, next)) => lemma_group_balanced(t, next),
            Err(_) => {},
        }
    }
}

/// The values of the parameters that were read are balanced.
proof fn lemma_params_balanced(t: Seq<Token>, q: int)
    requires
        0 <= q,
    ensures
        params_from(t, q) matches Ok(parameters) ==> forall|i: int|
            0 <= i < parameters.len() ==> (#[trigger] parameters[i]).balanced(),
    decreases t.len() - q,
{
    if q < t.len() {
        lemma_param_advances(t, q);
        lemma_param_balanced(t, q);
        match param_at(t, q) {
            Ok((_, next)) => {
                if next < t.len() && punct_at(t, next, ',') {
                    lemma_params_balanced(t, next + 1);
                }
            },
            Err(_) => {},
        }
    }
}

/// In a call that was read, the brackets of the receiver and of every value
/// match: each of them can be made into a tree of groups again.
pub proof fn lemma_call_balanced(t: Seq<Token>)
    ensures
        call_of(t) matches Ok(call) ==> call.balanced(),
{
    match target_at(t, 0) {
        Ok((call_type, q)) => {
            match object_method_at(t, 0) {
                Ok((receiver, _)) => {
                    lemma_group_balanced(t, 0);
                    if !(t[0] is Open) {
                        lemma_open_after_one(t[0], Seq::empty());
                        assert(t.subrange(0, 1) =~= seq![t[0]]);
                    }
                },
                Err(_) => {},
            }
            if q >= 0 {
                lemma_close_bounds(t, q + 1);
                match arguments_at(t, q + 1) {
                    Ok(_) => {
                        let c = close_of(t, q + 1)->Some_0;
                        lemma_params_balanced(t.take(c), q + 2);
                    },
                    Err(_) => {},
                }
            }
        },
        Err(_) => {},
    }
}

} // verus!
