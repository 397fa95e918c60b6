//! What reading a class path and writing it back have to do with each other.

use crate::error::ParseError;
use crate::text::{joined, lemma_mapped_joined, mapped, mapped_parts};
use crate::token::{
    ident_at, lemma_spelling_concat, lemma_spelling_one, lemma_spelling_push, spelling, Token,
};
use crate::types::{
    class_path_of, lemma_run_inside, lemma_run_shape, run_len, segment_names, ClassPathView,
};
use vstd::prelude::*;

verus! {

/// A `.` becomes a `/`; every other character stays what it is.
pub open spec fn slash() -> spec_fn(char) -> char {
    |c: char|
        if c == '.' {
            '/'
        } else {
            c
        }
}

/// The dots of a text turned into slashes; every other character is kept.
pub open spec fn slashed(s: Seq<char>) -> Seq<char> {
    mapped(s, slash())
}

/// The first `k` segments of a run, spelled out, are their words joined by
/// the separator.
pub proof fn lemma_run_spelling(t: Seq<Token>, p: int, sep: char, k: nat)
    requires
        ident_at(t, p),
        1 <= k <= run_len(t, p, sep),
    ensures
        spelling(t.subrange(p, p + 2 * k - 1)) == joined(segment_names(t, p, k), seq![sep]),
    decreases k,
{
    lemma_run_inside(t, p, sep);
    lemma_run_shape(t, p, sep, k - 1);
    let names = segment_names(t, p, k);
    if k == 1 {
        lemma_spelling_one(t[p]);
        assert(t.subrange(p, p + 1) =~= seq![t[p]]);
    } else {
        lemma_run_shape(t, p, sep, k - 2);
        lemma_run_spelling(t, p, sep, (k - 1) as nat);
        let before = t.subrange(p, p + 2 * (k - 1) - 1);
        let dot = t[p + 2 * k - 3];
        let last = t[p + 2 * k - 2];
        assert(t.subrange(p, p + 2 * k - 1) =~= before.push(dot).push(last));
        lemma_spelling_push(before, dot);
        lemma_spelling_push(before.push(dot), last);
        assert(names.drop_last() =~= segment_names(t, p, (k - 1) as nat));
        assert(names.last() == last.text());
        assert(dot.text() =~= seq![sep]);
    }
}

/// A word holds no `.`, so turning dots into slashes leaves the words of a
/// run as they are.
proof fn lemma_names_keep(t: Seq<Token>, p: int, sep: char, k: nat)
    requires
        ident_at(t, p),
        k <= run_len(t, p, sep),
        forall|i: int| 0 <= i < t.len() ==> (#[trigger] t[i]).well_formed(),
    ensures
        mapped_parts(segment_names(t, p, k), slash()) == segment_names(t, p, k),
{
    let names = segment_names(t, p, k);
    let replaced = mapped_parts(names, slash());
    assert forall|i: int| 0 <= i < k implies replaced[i] == names[i] by {
        lemma_run_shape(t, p, sep, i);
        assert(t[p + 2 * i].well_formed());
        assert(mapped(names[i], slash()) =~= names[i]);
    }
    assert(replaced =~= names);
}

/// Reading a class path and writing it back.
///
/// Let the tokens of `t` be well formed and be, as a whole, the class path
/// `path`. Then the JNI form of `path` is the spelling of `t` with every `.`
/// turned into `/` and every other character, `$` among them, kept. And where
/// the path has no nested class, its display form is the spelling of `t`.
pub proof fn lemma_class_path_round_trip(t: Seq<Token>, path: ClassPathView)
    requires
        class_path_of(t) == Ok::<ClassPathView, ParseError>(path),
        forall|i: int| 0 <= i < t.len() ==> (#[trigger] t[i]).well_formed(),
    ensures
        path.jni_form() == slashed(spelling(t)),
        path.nested_path is None ==> path.display_form() == spelling(t),
{
    let n = run_len(t, 0, '.');
    let e = 2 * n - 1;
    let names = segment_names(t, 0, n);
    lemma_run_inside(t, 0, '.');
    lemma_run_spelling(t, 0, '.', n);
    lemma_names_keep(t, 0, '.', n);
    lemma_mapped_joined(names, seq!['.'], slash());
    assert(mapped(seq!['.'], slash()) =~= seq!['/']);
    assert(path.segments() =~= names);
    let head = t.subrange(0, e);
    assert(slashed(spelling(head)) == joined(names, seq!['/']));
    match path.nested_path {
        None => {
            assert(head =~= t);
            assert(path.jni_form() =~= joined(names, seq!['/']));
            assert(path.display_form() =~= joined(names, seq!['.']));
        },
        Some(nested) => {
            let m = run_len(t, e + 1, '$');
            let inner = segment_names(t, e + 1, m);
            lemma_run_inside(t, e + 1, '$');
            lemma_run_spelling(t, e + 1, '$', m);
            lemma_names_keep(t, e + 1, '$', m);
            lemma_mapped_joined(inner, seq!['$'], slash());
            assert(mapped(seq!['$'], slash()) =~= seq!['$']);
            assert(nested.segments() =~= inner);
            let tail = t.subrange(e + 1, e + 2 * m);
            lemma_spelling_push(head, t[e]);
            lemma_spelling_concat(head.push(t[e]), tail);
            assert(t =~= head.push(t[e]) + tail);
            assert(t[e].text() =~= seq!['$']);
            assert(slashed(spelling(t)) =~= slashed(spelling(head)) + seq!['$'] + slashed(
                spelling(tail),
            ));
            assert(path.jni_form() =~= joined(names, seq!['/']) + seq!['$'] + joined(
                inner,
                seq!['$'],
            ));
        },
    }
}

} // verus!
