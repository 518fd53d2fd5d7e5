//! The token model that declarations are read from and written to.
//!
//! A delimited group appears flattened: an `Open` token, the group's
//! tokens, and the matching `Close` token.
use vstd::prelude::*;

verus! {

#[derive(Clone, Copy, Debug, PartialEq, Eq, Structural)]
pub enum Delim {
    Paren,
    Bracket,
    Brace,
    Invisible,
}

/// One token. A punctuation character carries whether it is joined to the
/// punctuation character that follows it (as in `::` or `->`).
#[derive(Debug)]
pub enum Tok {
    Ident(Vec<char>),
    Punct(char, bool),
    Literal(Vec<char>),
    Open(Delim),
    Close(Delim),
}

/// What a token stands for, with its text as a sequence of characters.
pub enum TokV {
    Ident(Seq<char>),
    Punct(char, bool),
    Literal(Seq<char>),
    Open(Delim),
    Close(Delim),
}

impl View for Tok {
    type V = TokV;

    open spec fn view(&self) -> TokV {
        match self {
            Tok::Ident(s) => TokV::Ident(s@),
            Tok::Punct(c, j) => TokV::Punct(*c, *j),
            Tok::Literal(s) => TokV::Literal(s@),
            Tok::Open(d) => TokV::Open(*d),
            Tok::Close(d) => TokV::Close(*d),
        }
    }
}

pub open spec fn toks_view(t: Seq<Tok>) -> Seq<TokV> {
    t.map_values(|x: Tok| x@)
}

pub proof fn lemma_toks_view_push(t: Seq<Tok>, x: Tok)
    ensures
        toks_view(t.push(x)) == toks_view(t).push(x@),
        toks_view(t).len() == t.len(),
{
    assert(toks_view(t.push(x)) =~= toks_view(t).push(x@));
}

fn copy_chars(v: &Vec<char>) -> (r: Vec<char>)
    ensures
        r@ == v@,
{
    let mut r: Vec<char> = Vec::new();
    let mut i: usize = 0;
    while i < v.len()
        invariant
            i <= v.len(),
            r@ == v@.subrange(0, i as int),
        decreases v.len() - i,
    {
        r.push(v[i]);
        i = i + 1;
        assert(r@ =~= v@.subrange(0, i as int));
    }
    assert(v@.subrange(0, v.len() as int) =~= v@);
    r
}

/// The characters of a string, in order.
pub fn chars_of(s: &str) -> (r: Vec<char>)
    ensures
        r@ == s@,
{
    let n = s.unicode_len();
    let mut r: Vec<char> = Vec::new();
    let mut i: usize = 0;
    while i < n
        invariant
            n == s@.len(),
            i <= n,
            r@ == s@.subrange(0, i as int),
        decreases n - i,
    {
        r.push(s.get_char(i));
        i = i + 1;
        assert(r@ =~= s@.subrange(0, i as int));
    }
    assert(s@.subrange(0, n as int) =~= s@);
    r
}

/// Whether the characters of `v` spell out the word `w`.
pub fn spells(v: &Vec<char>, w: &str) -> (r: bool)
    ensures
        r == (v@ == w@),
{
    let n = w.unicode_len();
    if v.len() != n {
        return false;
    }
    let mut i: usize = 0;
    while i < n
        invariant
            n == w@.len(),
            n == v@.len(),
            i <= n,
            v@.subrange(0, i as int) == w@.subrange(0, i as int),
        decreases n - i,
    {
        if v[i] != w.get_char(i) {
            assert(v@[i as int] != w@[i as int]);
            return false;
        }
        i = i + 1;
        assert(v@.subrange(0, i as int) =~= w@.subrange(0, i as int));
    }
    assert(v@ =~= v@.subrange(0, n as int));
    assert(w@ =~= w@.subrange(0, n as int));
    true
}

impl Tok {
    /// A new token equal to this one.
    pub fn duplicate(&self) -> (r: Tok)
        ensures
            r@ == self@,
    {
        match self {
            Tok::Ident(s) => Tok::Ident(copy_chars(s)),
            Tok::Punct(c, j) => Tok::Punct(*c, *j),
            Tok::Literal(s) => Tok::Literal(copy_chars(s)),
            Tok::Open(d) => Tok::Open(*d),
            Tok::Close(d) => Tok::Close(*d),
        }
    }

    /// An identifier token with the given text.
    pub fn word(s: &str) -> (r: Tok)
        ensures
            r@ == TokV::Ident(s@),
    {
        Tok::Ident(chars_of(s))
    }
}

} // verus!
