//! The tokens a call expression is made of, and how groups of them nest.

use crate::text::text_equal;
use vstd::prelude::*;

verus! {

/// The brackets that enclose a group of tokens.
#[derive(Clone, Copy, Debug, PartialEq, Eq, Hash, Structural)]
pub enum Delimiter {
    /// `( ... )`
    Parenthesis,
    /// `{ ... }`
    Brace,
    /// `[ ... ]`
    Bracket,
    /// A group without visible brackets, as a macro substitution leaves it.
    Invisible,
}

/// Whether a punctuation character is directly followed by another one.
#[derive(Clone, Copy, Debug, PartialEq, Eq, Hash, Structural)]
pub enum Spacing {
    /// Something other than punctuation follows.
    Alone,
    /// Another punctuation character follows at once, as the `-` of `->`.
    Joint,
}

/// One token of the input. A group is held flat: its opening bracket, its
/// tokens, its closing bracket.
#[derive(Debug, PartialEq, Eq, Hash)]
pub enum Token {
    /// A word: an identifier or a keyword.
    Ident(String),
    /// A single punctuation character.
    Punct(char, Spacing),
    /// A literal, by its source text.
    Literal(String),
    /// The opening bracket of a group.
    Open(Delimiter),
    /// The closing bracket of a group.
    Close(Delimiter),
}

/// A run of tokens: those at the indices from `start` up to, not including, `end`.
#[derive(Clone, Copy, Debug, PartialEq, Eq, Hash, Structural)]
pub struct Span {
    pub start: usize,
    pub end: usize,
}

/// The characters a word is made of: letters, digits, `_`, and whatever lies
/// outside ASCII. No punctuation, no bracket and no blank is among them.
pub open spec fn is_word_char(c: char) -> bool {
    ||| 'a' <= c && c <= 'z'
    ||| 'A' <= c && c <= 'Z'
    ||| '0' <= c && c <= '9'
    ||| c == '_'
    ||| c as u32 >= 128
}

impl Delimiter {
    /// The bracket that opens a group of this kind, as text.
    pub open spec fn opening(self) -> Seq<char> {
        match self {
            Delimiter::Parenthesis => seq!['('],
            Delimiter::Brace => seq!['{'],
            Delimiter::Bracket => seq!['['],
            Delimiter::Invisible => Seq::empty(),
        }
    }

    /// The bracket that closes a group of this kind, as text.
    pub open spec fn closing(self) -> Seq<char> {
        match self {
            Delimiter::Parenthesis => seq![')'],
            Delimiter::Brace => seq!['}'],
            Delimiter::Bracket => seq![']'],
            Delimiter::Invisible => Seq::empty(),
        }
    }
}

impl Token {
    /// A word is well formed when it is not empty and made of word
    /// characters only. Every other token is well formed.
    pub open spec fn well_formed(self) -> bool {
        match self {
            Token::Ident(word) => word@.len() > 0 && forall|i: int|
                0 <= i < word@.len() ==> is_word_char(#[trigger] word@[i]),
            _ => true,
        }
    }

    /// The token as text.
    pub open spec fn text(self) -> Seq<char> {
        match self {
            Token::Ident(word) => word@,
            Token::Punct(c, _) => seq![c],
            Token::Literal(text) => text@,
            Token::Open(d) => d.opening(),
            Token::Close(d) => d.closing(),
        }
    }
}

/// The tokens of `t` as text, written one after another without blanks.
pub open spec fn spelling(t: Seq<Token>) -> Seq<char>
    decreases t.len(),
{
    if t.len() == 0 {
        Seq::empty()
    } else {
        spelling(t.drop_last()) + t.last().text()
    }
}

/// One more token at the end adds its text to the spelling.
pub proof fn lemma_spelling_push(t: Seq<Token>, last: Token)
    ensures
        spelling(t.push(last)) == spelling(t) + last.text(),
{
    assert(t.push(last).drop_last() =~= t);
}

/// The spelling of a single token is its text.
pub proof fn lemma_spelling_one(only: Token)
    ensures
        spelling(seq![only]) == only.text(),
{
    lemma_spelling_push(Seq::empty(), only);
    assert(Seq::<Token>::empty().push(only) =~= seq![only]);
    assert(spelling(Seq::<Token>::empty()) + only.text() =~= only.text());
}

/// The spelling of two runs of tokens, one behind the other, is the spelling
/// of the first followed by that of the second.
pub proof fn lemma_spelling_concat(a: Seq<Token>, b: Seq<Token>)
    ensures
        spelling(a + b) == spelling(a) + spelling(b),
    decreases b.len(),
{
    if b.len() == 0 {
        assert(a + b =~= a);
        assert(spelling(a) + spelling(b) =~= spelling(a));
    } else {
        assert((a + b).drop_last() =~= a + b.drop_last());
        assert((a + b).last() == b.last());
        lemma_spelling_concat(a, b.drop_last());
        assert(spelling(a + b) =~= spelling(a) + spelling(b));
    }
}

/// The words that are reserved and so never read as identifiers.
pub open spec fn is_keyword(word: Seq<char>) -> bool {
    ||| word == "_"@
    ||| word == "abstract"@
    ||| word == "as"@
    ||| word == "async"@
    ||| word == "await"@
    ||| word == "become"@
    ||| word == "box"@
    ||| word == "break"@
    ||| word == "const"@
    ||| word == "continue"@
    ||| word == "crate"@
    ||| word == "do"@
    ||| word == "dyn"@
    ||| word == "else"@
    ||| word == "enum"@
    ||| word == "extern"@
    ||| word == "false"@
    ||| word == "final"@
    ||| word == "fn"@
    ||| word == "for"@
    ||| word == "if"@
    ||| word == "impl"@
    ||| word == "in"@
    ||| word == "let"@
    ||| word == "loop"@
    ||| word == "macro"@
    ||| word == "match"@
    ||| word == "mod"@
    ||| word == "move"@
    ||| word == "mut"@
    ||| word == "override"@
    ||| word == "priv"@
    ||| word == "pub"@
    ||| word == "ref"@
    ||| word == "return"@
    ||| word == "Self"@
    ||| word == "self"@
    ||| word == "static"@
    ||| word == "struct"@
    ||| word == "super"@
    ||| word == "trait"@
    ||| word == "true"@
    ||| word == "try"@
    ||| word == "type"@
    ||| word == "typeof"@
    ||| word == "unsafe"@
    ||| word == "unsized"@
    ||| word == "use"@
    ||| word == "virtual"@
    ||| word == "where"@
    ||| word == "while"@
    ||| word == "yield"@
}

/// Whether `word` is reserved.
pub fn keyword(word: &str) -> (r: bool)
    ensures
        r == is_keyword(word@),
{
    text_equal(word, "_") || text_equal(word, "abstract") || text_equal(word, "as") || text_equal(
        word,
        "async",
    ) || text_equal(word, "await") || text_equal(word, "become") || text_equal(word, "box")
        || text_equal(word, "break") || text_equal(word, "const") || text_equal(word, "continue")
        || text_equal(word, "crate") || text_equal(word, "do") || text_equal(word, "dyn")
        || text_equal(word, "else") || text_equal(word, "enum") || text_equal(word, "extern")
        || text_equal(word, "false") || text_equal(word, "final") || text_equal(word, "fn")
        || text_equal(word, "for") || text_equal(word, "if") || text_equal(word, "impl")
        || text_equal(word, "in") || text_equal(word, "let") || text_equal(word, "loop")
        || text_equal(word, "macro") || text_equal(word, "match") || text_equal(word, "mod")
        || text_equal(word, "move") || text_equal(word, "mut") || text_equal(word, "override")
        || text_equal(word, "priv") || text_equal(word, "pub") || text_equal(word, "ref")
        || text_equal(word, "return") || text_equal(word, "Self") || text_equal(word, "self")
        || text_equal(word, "static") || text_equal(word, "struct") || text_equal(word, "super")
        || text_equal(word, "trait") || text_equal(word, "true") || text_equal(word, "try")
        || text_equal(word, "type") || text_equal(word, "typeof") || text_equal(word, "unsafe")
        || text_equal(word, "unsized") || text_equal(word, "use") || text_equal(word, "virtual")
        || text_equal(word, "where") || text_equal(word, "while") || text_equal(word, "yield")
}

/// An identifier stands at index `p`: a word that is not reserved.
pub open spec fn ident_at(t: Seq<Token>, p: int) -> bool {
    &&& 0 <= p < t.len()
    &&& t[p] matches Token::Ident(word)
    &&& !is_keyword(word@)
}

/// The word `word` stands at index `p`, reserved or not.
pub open spec fn word_at(t: Seq<Token>, p: int, word: Seq<char>) -> bool {
    &&& 0 <= p < t.len()
    &&& t[p] matches Token::Ident(w)
    &&& w@ == word
}

/// The characters of the word at index `p`.
pub open spec fn text_at(t: Seq<Token>, p: int) -> Seq<char> {
    match t[p] {
        Token::Ident(word) => word@,
        _ => Seq::empty(),
    }
}

/// The punctuation character `c` stands at index `p`.
pub open spec fn punct_at(t: Seq<Token>, p: int, c: char) -> bool {
    &&& 0 <= p < t.len()
    &&& t[p] matches Token::Punct(ch, _)
    &&& ch == c
}

/// The two-character punctuation `first second` starts at index `p`.
pub open spec fn pair_at(t: Seq<Token>, p: int, first: char, second: char) -> bool {
    &&& 0 <= p < t.len()
    &&& t[p] == Token::Punct(first, Spacing::Joint)
    &&& punct_at(t, p + 1, second)
}

/// An opening bracket of kind `d` stands at index `p`.
pub open spec fn open_at(t: Seq<Token>, p: int, d: Delimiter) -> bool {
    0 <= p < t.len() && t[p] == Token::Open(d)
}

/// Walks right from index `i` with the brackets in `stack` still open, and
/// gives the index at which the outermost of them is closed. There is none
/// where the input ends first, or where a closing bracket does not match the
/// bracket opened last.
pub open spec fn scan(t: Seq<Token>, i: int, stack: Seq<Delimiter>) -> Option<int>
    decreases t.len() - i,
{
    if i < 0 || i >= t.len() || stack.len() == 0 {
        None
    } else {
        match t[i] {
            Token::Open(d) => scan(t, i + 1, stack.push(d)),
            Token::Close(d) => if stack.last() != d {
                None
            } else if stack.len() == 1 {
                Some(i)
            } else {
                scan(t, i + 1, stack.drop_last())
            },
            _ => scan(t, i + 1, stack),
        }
    }
}

/// The index of the bracket that closes the group opened at index `p`.
pub open spec fn close_of(t: Seq<Token>, p: int) -> Option<int> {
    if 0 <= p < t.len() {
        match t[p] {
            Token::Open(d) => scan(t, p + 1, seq![d]),
            _ => None,
        }
    } else {
        None
    }
}

/// The views of a list of token runs.
pub open spec fn runs(items: Seq<Vec<Token>>) -> Seq<Seq<Token>> {
    items.map_values(|run: Vec<Token>| run@)
}

/// Appending a run to a list appends its view to the list's views.
pub proof fn lemma_runs_push(items: Seq<Vec<Token>>, last: Vec<Token>)
    ensures
        runs(items.push(last)) == runs(items).push(last@),
{
    assert(runs(items.push(last)) =~= runs(items).push(last@));
}

/// The bracket that closes a group lies behind the one that opens it.
pub proof fn lemma_close_bounds(t: Seq<Token>, p: int)
    ensures
        close_of(t, p) matches Some(c) ==> p < c < t.len() && t[c] is Close,
{
    if 0 <= p < t.len() {
        match t[p] {
            Token::Open(d) => lemma_scan_bounds(t, p + 1, seq![d]),
            _ => {},
        }
    }
}

/// Where `scan` finds a closing bracket, it lies at or after the start and
/// inside the input.
pub proof fn lemma_scan_bounds(t: Seq<Token>, i: int, stack: Seq<Delimiter>)
    ensures
        scan(t, i, stack) matches Some(c) ==> i <= c < t.len() && t[c] is Close,
    decreases t.len() - i,
{
    if i < 0 || i >= t.len() || stack.len() == 0 {
    } else {
        match t[i] {
            Token::Open(d) => lemma_scan_bounds(t, i + 1, stack.push(d)),
            Token::Close(d) => {
                if stack.last() == d && stack.len() > 1 {
                    lemma_scan_bounds(t, i + 1, stack.drop_last());
                }
            },
            _ => lemma_scan_bounds(t, i + 1, stack),
        }
    }
}

impl Clone for Token {
    fn clone(&self) -> (r: Token)
        ensures
            r == *self,
    {
        match self {
            Token::Ident(word) => Token::Ident(word.clone()),
            Token::Punct(c, spacing) => Token::Punct(*c, *spacing),
            Token::Literal(text) => Token::Literal(text.clone()),
            Token::Open(d) => Token::Open(*d),
            Token::Close(d) => Token::Close(*d),
        }
    }
}

impl Token {
    /// Whether this token is an identifier: a word that is not reserved.
    pub fn is_ident(&self) -> (r: bool)
        ensures
            r == (*self matches Token::Ident(word) && !is_keyword(word@)),
    {
        match self {
            Token::Ident(word) => !keyword(word.as_str()),
            _ => false,
        }
    }

    /// Whether this token is the word `word`.
    pub fn is_word(&self, word: &str) -> (r: bool)
        ensures
            r == (*self matches Token::Ident(w) && w@ == word@),
    {
        match self {
            Token::Ident(w) => text_equal(w.as_str(), word),
            _ => false,
        }
    }

    /// Whether this token is the punctuation character `c`.
    pub fn is_punct(&self, c: char) -> (r: bool)
        ensures
            r == (*self matches Token::Punct(ch, _) && ch == c),
    {
        match self {
            Token::Punct(ch, _) => *ch == c,
            _ => false,
        }
    }

    /// Whether this token is the punctuation character `c` with another
    /// punctuation character directly behind it.
    pub fn is_joint(&self, c: char) -> (r: bool)
        ensures
            r == (*self == Token::Punct(c, Spacing::Joint)),
    {
        match self {
            Token::Punct(ch, Spacing::Joint) => *ch == c,
            _ => false,
        }
    }

    /// Whether this token opens a group.
    pub fn is_open(&self) -> (r: bool)
        ensures
            r == (*self is Open),
    {
        match self {
            Token::Open(_) => true,
            _ => false,
        }
    }

    /// Whether this token opens a group with the bracket `d`.
    pub fn opens(&self, d: Delimiter) -> (r: bool)
        ensures
            r == (*self == Token::Open(d)),
    {
        match self {
            Token::Open(own) => *own == d,
            _ => false,
        }
    }
}

/// Copies the tokens of `tokens` from index `start` up to, not including, `end`.
pub fn copy_range(tokens: &Vec<Token>, start: usize, end: usize) -> (r: Vec<Token>)
    requires
        start <= end <= tokens.len(),
    ensures
        r@ == tokens@.subrange(start as int, end as int),
{
    let mut out: Vec<Token> = Vec::new();
    let mut i: usize = start;
    while i < end
        invariant
            start <= i <= end <= tokens.len(),
            out@ == tokens@.subrange(start as int, i as int),
        decreases end - i,
    {
        out.push(tokens[i].clone());
        assert(tokens@.subrange(start as int, i as int).push(tokens@[i as int])
            == tokens@.subrange(start as int, i + 1));
        i = i + 1;
    }
    out
}

/// Finds the bracket that closes the group opened at index `open`, looking no
/// further than index `end`.
pub fn find_close(tokens: &Vec<Token>, open: usize, end: usize) -> (r: Option<usize>)
    requires
        open < end <= tokens.len(),
        tokens[open as int] is Open,
    ensures
        match r {
            Some(c) => close_of(tokens@.take(end as int), open as int) == Some(c as int) && open
                < c < end,
            None => close_of(tokens@.take(end as int), open as int) is None,
        },
{
    let ghost t = tokens@.take(end as int);
    let mut stack: Vec<Delimiter> = Vec::new();
    match &tokens[open] {
        Token::Open(d) => stack.push(*d),
        _ => {},
    }
    let mut i: usize = open + 1;
    while i < end
        invariant
            open < i <= end <= tokens.len(),
            t == tokens@.take(end as int),
            stack@.len() > 0,
            close_of(t, open as int) == scan(t, i as int, stack@),
        decreases end - i,
    {
        match &tokens[i] {
            Token::Open(d) => {
                stack.push(*d);
            },
            Token::Close(d) => {
                let top = stack[stack.len() - 1];
                if top != *d {
                    return None;
                }
                if stack.len() == 1 {
                    return Some(i);
                }
                stack.pop();
            },
            _ => {},
        }
        i = i + 1;
    }
    None
}

} // verus!
