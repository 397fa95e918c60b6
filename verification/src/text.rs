//! Strings as sequences of characters: joining, comparing, capitalising.

use itertools::Itertools;
use vstd::prelude::*;

verus! {

/// The characters of each string of `items`, in order.
pub open spec fn texts(items: Seq<String>) -> Seq<Seq<char>> {
    items.map_values(|s: String| s@)
}

/// The strings of `parts` written one after another, with `sep` between neighbours.
pub open spec fn joined(parts: Seq<Seq<char>>, sep: Seq<char>) -> Seq<char>
    decreases parts.len(),
{
    if parts.len() == 0 {
        Seq::empty()
    } else if parts.len() == 1 {
        parts[0]
    } else {
        joined(parts.drop_last(), sep) + sep + parts.last()
    }
}

/// Appending a string to a list appends its characters to the list's texts.
pub proof fn lemma_texts_push(items: Seq<String>, last: String)
    ensures
        texts(items.push(last)) == texts(items).push(last@),
{
    assert(texts(items.push(last)) =~= texts(items).push(last@));
}

/// `s` with each of its characters replaced by what `f` makes of it.
pub open spec fn mapped(s: Seq<char>, f: spec_fn(char) -> char) -> Seq<char> {
    s.map_values(f)
}

/// Each text of `parts` with each of its characters replaced by what `f` makes of it.
pub open spec fn mapped_parts(parts: Seq<Seq<char>>, f: spec_fn(char) -> char) -> Seq<Seq<char>> {
    parts.map_values(|part: Seq<char>| mapped(part, f))
}

/// Replacing characters in a joined text is joining the replaced parts with
/// the replaced separator.
pub proof fn lemma_mapped_joined(parts: Seq<Seq<char>>, sep: Seq<char>, f: spec_fn(char) -> char)
    ensures
        mapped(joined(parts, sep), f) == joined(mapped_parts(parts, f), mapped(sep, f)),
    decreases parts.len(),
{
    let replaced = mapped_parts(parts, f);
    if parts.len() == 0 {
        assert(mapped(joined(parts, sep), f) =~= joined(replaced, mapped(sep, f)));
    } else if parts.len() == 1 {
    } else {
        lemma_mapped_joined(parts.drop_last(), sep, f);
        assert(replaced.drop_last() =~= mapped_parts(parts.drop_last(), f));
        assert(mapped(joined(parts, sep), f) =~= mapped(joined(parts.drop_last(), sep), f) + mapped(
            sep,
            f,
        ) + mapped(parts.last(), f));
    }
}

/// The uppercase mapping that Unicode gives to `c`: one character or several.
pub uninterp spec fn uppercase_mapping(c: char) -> Seq<char>;

/// `s` with its first character replaced by that character's uppercase mapping.
pub open spec fn capitalized(s: Seq<char>) -> Seq<char> {
    if s.len() == 0 {
        s
    } else {
        uppercase_mapping(s[0]) + s.skip(1)
    }
}

/// Trusted: `==` of `str`. Two string slices are equal exactly when they hold
/// the same characters.
#[verifier::external_body]
pub(crate) fn text_equal(a: &str, b: &str) -> (r: bool)
    ensures
        r == (a@ == b@),
{
    a == b
}

/// Trusted: `String::push`. The character is appended to the string.
#[verifier::external_body]
pub(crate) fn push_char(s: &mut String, c: char)
    ensures
        final(s)@ == old(s)@.push(c),
{
    s.push(c)
}

/// Trusted: `itertools::Itertools::intersperse`, collected into one string.
/// The adaptor yields the items of `parts` in order with a copy of `sep`
/// between each two neighbours, and collecting concatenates what it yields.
#[verifier::external_body]
pub(crate) fn intersperse(parts: &Vec<String>, sep: &str) -> (r: String)
    ensures
        r@ == joined(texts(parts@), sep@),
{
    Itertools::intersperse(parts.iter().cloned(), sep.to_string()).collect::<String>()
}

/// Trusted: `char::to_uppercase`, collected into a string. The result is the
/// uppercase mapping of `c`, whatever Unicode says it is.
#[verifier::external_body]
pub(crate) fn to_uppercase(c: char) -> (r: String)
    ensures
        r@ == uppercase_mapping(c),
{
    c.to_uppercase().collect::<String>()
}

/// The decimal digit for a number below ten.
pub open spec fn digit(d: nat) -> char {
    ('0' as u8 + d) as u8 as char
}

/// A number written in decimal digits, without leading zeros.
pub open spec fn decimal_digits(n: nat) -> Seq<char>
    decreases n,
{
    if n < 10 {
        seq![digit(n)]
    } else {
        decimal_digits(n / 10).push(digit(n % 10))
    }
}

/// Writes a number in decimal digits.
pub fn decimal(n: usize) -> (r: String)
    ensures
        r@ == decimal_digits(n as nat),
    decreases n,
{
    let mut out = if n < 10 {
        String::new()
    } else {
        decimal(n / 10)
    };
    let last: u8 = (n % 10) as u8;
    push_char(&mut out, (48u8 + last) as char);
    assert(out@ =~= decimal_digits(n as nat));
    out
}

/// `s` with `head` in place of its first character; `head` alone where `s` is empty.
pub open spec fn with_head(head: Seq<char>, s: Seq<char>) -> Seq<char> {
    if s.len() == 0 {
        head
    } else {
        head + s.skip(1)
    }
}

/// Puts `head` in place of the first character of `s`.
pub fn replace_first(head: String, s: &str) -> (r: String)
    ensures
        r@ == with_head(head@, s@),
{
    let n = s.unicode_len();
    if n == 0 {
        return head;
    }
    let rest = s.substring_char(1, n);
    assert(s@.subrange(1, n as int) == s@.skip(1));
    head.concat(rest)
}

/// Converts the first letter of a string into uppercase; an empty string stays empty.
pub fn first_char_uppercase(s: String) -> (r: String)
    ensures
        r@ == capitalized(s@),
{
    let n = s.as_str().unicode_len();
    if n == 0 {
        return s;
    }
    let head = to_uppercase(s.as_str().get_char(0));
    replace_first(head, s.as_str())
}

} // verus!
