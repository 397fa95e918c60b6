//! The names under which a function is exported so that the JVM finds it.

use crate::text::{push_char, text_equal};
use vstd::prelude::*;

verus! {

/// A `.` and a `/` become `_`; every other character stays what it is.
pub open spec fn underscore() -> spec_fn(char) -> char {
    |c: char|
        if c == '.' || c == '/' {
            '_'
        } else {
            c
        }
}

/// The text with `1` put behind each `_`.
pub open spec fn escaped(s: Seq<char>) -> Seq<char>
    decreases s.len(),
{
    if s.len() == 0 {
        Seq::empty()
    } else if s.last() == '_' {
        escaped(s.drop_last()) + seq!['_', '1']
    } else {
        escaped(s.drop_last()).push(s.last())
    }
}

/// The name of the class that a function belongs to, as it stands in the
/// exported name: the package, a `.`, and what the attribute adds to it,
/// with `_` for each `.` and `/`.
pub open spec fn class_part(package: Seq<char>, extra: Seq<char>) -> Seq<char> {
    (package + seq!['.'] + extra).map_values(underscore())
}

/// The exported name of the function `name`: `Java_`, the class part, `_`,
/// and the name with `_1` for each `_`.
pub open spec fn exported(package: Seq<char>, extra: Seq<char>, name: Seq<char>) -> Seq<char> {
    "Java_"@ + class_part(package, extra) + seq!['_'] + escaped(name)
}

/// Appends `s` to `out`, with `_` for each `.` and `/`.
fn append_underscored(out: &mut String, s: &str)
    ensures
        final(out)@ == old(out)@ + s@.map_values(underscore()),
{
    let n = s.unicode_len();
    let ghost before = out@;
    let mut i: usize = 0;
    assert(before + s@.take(0).map_values(underscore()) =~= before);
    while i < n
        invariant
            i <= n == s@.len(),
            out@ == before + s@.take(i as int).map_values(underscore()),
        decreases n - i,
    {
        let c = s.get_char(i);
        let d = if c == '.' || c == '/' {
            '_'
        } else {
            c
        };
        push_char(out, d);
        assert(out@ =~= before + s@.take(i + 1).map_values(underscore()));
        i = i + 1;
    }
    assert(s@.take(n as int) =~= s@);
}

/// Appends `s` to `out`, with `_1` for each `_`.
fn append_escaped(out: &mut String, s: &str)
    ensures
        final(out)@ == old(out)@ + escaped(s@),
{
    let n = s.unicode_len();
    let ghost before = out@;
    let mut i: usize = 0;
    assert(before + escaped(s@.take(0)) =~= before);
    while i < n
        invariant
            i <= n == s@.len(),
            out@ == before + escaped(s@.take(i as int)),
        decreases n - i,
    {
        let c = s.get_char(i);
        proof {
            assert(s@.take(i + 1).drop_last() =~= s@.take(i as int));
            assert(s@.take(i + 1).last() == c);
        }
        push_char(out, c);
        if c == '_' {
            push_char(out, '1');
        }
        assert(out@ =~= before + escaped(s@.take(i + 1)));
        i = i + 1;
    }
    assert(s@.take(n as int) =~= s@);
}

/// The name under which the function `name` is exported for the class that
/// `package` and `extra` name, such as
/// `Java_me_author_packagename_MyClass_hello_1world`.
pub fn exported_name(package: &str, extra: &str, name: &str) -> (r: String)
    ensures
        r@ == exported(package@, extra@, name@),
{
    proof {
        reveal_strlit(".");
        assert("."@ =~= seq!['.']);
    }
    let mut out = String::from_str("Java_");
    append_underscored(&mut out, package);
    append_underscored(&mut out, ".");
    append_underscored(&mut out, extra);
    push_char(&mut out, '_');
    append_escaped(&mut out, name);
    assert(out@ =~= exported(package@, extra@, name@));
    out
}

/// Whether a function that is to be exported may have an argument of this
/// name: `env` and `_class` are taken by the arguments that are added to it.
pub fn argument_name_is_free(name: &str) -> (r: bool)
    ensures
        r == (name@ != "env"@ && name@ != "_class"@),
{
    !text_equal(name, "env") && !text_equal(name, "_class")
}

/// Whether a function that is to be exported may have a lifetime of this
/// name: `local` is taken by the lifetime that is added to it.
pub fn lifetime_name_is_free(name: &str) -> (r: bool)
    ensures
        r == (name@ != "local"@),
{
    !text_equal(name, "local")
}

} // verus!
