//! Whether a run of tokens is well-formed Rust of a given kind: the tokens
//! are written out as text, and syn reads the text.
use vstd::prelude::*;
use crate::token::{Delim, Tok, TokV, toks_view};

verus! {

pub open spec fn open_text(d: Delim) -> Seq<char> {
    match d {
        Delim::Paren => seq!['('],
        Delim::Bracket => seq!['['],
        Delim::Brace => seq!['{'],
        Delim::Invisible => seq![],
    }
}

pub open spec fn close_text(d: Delim) -> Seq<char> {
    match d {
        Delim::Paren => seq![')'],
        Delim::Bracket => seq![']'],
        Delim::Brace => seq!['}'],
        Delim::Invisible => seq![],
    }
}

/// The text of one token: a space follows it unless it is punctuation
/// joined to the next token or a delimiter.
pub open spec fn tok_text(x: TokV) -> Seq<char> {
    match x {
        TokV::Ident(s) => s + seq![' '],
        TokV::Punct(c, joint) => if joint { seq![c] } else { seq![c, ' '] },
        TokV::Literal(s) => s + seq![' '],
        TokV::Open(d) => open_text(d),
        TokV::Close(d) => close_text(d),
    }
}

/// The text of a run of tokens.
pub open spec fn render(t: Seq<TokV>) -> Seq<char>
    decreases t.len(),
{
    if t.len() == 0 {
        seq![]
    } else {
        render(t.drop_last()) + tok_text(t.last())
    }
}

/// syn reads the text as exactly one type.
pub uninterp spec fn is_type_text(s: Seq<char>) -> bool;

/// syn reads the text as exactly one generic parameter.
pub uninterp spec fn is_generic_param_text(s: Seq<char>) -> bool;

/// syn reads the text as exactly one `where` clause.
pub uninterp spec fn is_where_clause_text(s: Seq<char>) -> bool;

/// syn reads the text as exactly one identifier that is not a keyword.
pub uninterp spec fn is_ident_text(s: Seq<char>) -> bool;

/// Relies on `syn::parse_str::<syn::Type>`, which succeeds only where the
/// whole text is one type; the answer depends on the text alone.
#[verifier::external_body]
fn type_text_ok(s: &Vec<char>) -> (r: bool)
    ensures
        r == is_type_text(s@),
{
    let text: String = s.iter().collect();
    syn::parse_str::<syn::Type>(&text).is_ok()
}

/// Relies on `syn::parse_str::<syn::GenericParam>`, which succeeds only
/// where the whole text is one lifetime, type or const parameter.
#[verifier::external_body]
fn generic_param_text_ok(s: &Vec<char>) -> (r: bool)
    ensures
        r == is_generic_param_text(s@),
{
    let text: String = s.iter().collect();
    syn::parse_str::<syn::GenericParam>(&text).is_ok()
}

/// Relies on `syn::parse_str::<syn::WhereClause>`, which succeeds only
/// where the whole text is `where` followed by well-formed predicates.
#[verifier::external_body]
fn where_clause_text_ok(s: &Vec<char>) -> (r: bool)
    ensures
        r == is_where_clause_text(s@),
{
    let text: String = s.iter().collect();
    syn::parse_str::<syn::WhereClause>(&text).is_ok()
}

/// Relies on `syn::parse_str::<syn::Ident>`, which succeeds only where the
/// whole text is one identifier and refuses keywords.
#[verifier::external_body]
fn ident_text_ok(s: &Vec<char>) -> (r: bool)
    ensures
        r == is_ident_text(s@),
{
    let text: String = s.iter().collect();
    syn::parse_str::<syn::Ident>(&text).is_ok()
}

fn push_chars(out: &mut Vec<char>, s: &Vec<char>)
    ensures
        final(out)@ == old(out)@ + s@,
{
    let mut i: usize = 0;
    while i < s.len()
        invariant
            i <= s.len(),
            out@ == old(out)@ + s@.take(i as int),
        decreases s.len() - i,
    {
        out.push(s[i]);
        i = i + 1;
        assert(out@ =~= old(out)@ + s@.take(i as int));
    }
    assert(s@.take(s.len() as int) =~= s@);
}

fn push_tok_text(out: &mut Vec<char>, x: &Tok)
    ensures
        final(out)@ == old(out)@ + tok_text(x@),
{
    match x {
        Tok::Ident(s) => {
            push_chars(out, s);
            out.push(' ');
        },
        Tok::Literal(s) => {
            push_chars(out, s);
            out.push(' ');
        },
        Tok::Punct(c, joint) => {
            out.push(*c);
            if !*joint {
                out.push(' ');
            }
        },
        Tok::Open(d) => match d {
            Delim::Paren => out.push('('),
            Delim::Bracket => out.push('['),
            Delim::Brace => out.push('{'),
            Delim::Invisible => {},
        },
        Tok::Close(d) => match d {
            Delim::Paren => out.push(')'),
            Delim::Bracket => out.push(']'),
            Delim::Brace => out.push('}'),
            Delim::Invisible => {},
        },
    }
    assert(final(out)@ =~= old(out)@ + tok_text(x@));
}

/// The text of the tokens `t[a..b]`.
pub fn render_span(t: &Vec<Tok>, a: usize, b: usize) -> (r: Vec<char>)
    requires
        a <= b <= t.len(),
    ensures
        r@ == render(toks_view(t@).subrange(a as int, b as int)),
{
    let ghost tv = toks_view(t@);
    let mut r: Vec<char> = Vec::new();
    let mut i: usize = a;
    assert(tv.subrange(a as int, a as int) =~= Seq::<TokV>::empty());
    while i < b
        invariant
            a <= i <= b <= t.len(),
            tv == toks_view(t@),
            r@ == render(tv.subrange(a as int, i as int)),
        decreases b - i,
    {
        push_tok_text(&mut r, &t[i]);
        assert(tv.subrange(a as int, i + 1).drop_last() =~= tv.subrange(a as int, i as int));
        i = i + 1;
    }
    r
}

/// Whether `t[a..b]` is one type.
pub fn is_type(t: &Vec<Tok>, a: usize, b: usize) -> (r: bool)
    requires
        a <= b <= t.len(),
    ensures
        r == is_type_text(render(toks_view(t@).subrange(a as int, b as int))),
{
    type_text_ok(&render_span(t, a, b))
}

/// Whether `t[a..b]` is one generic parameter.
pub fn is_generic_param(t: &Vec<Tok>, a: usize, b: usize) -> (r: bool)
    requires
        a <= b <= t.len(),
    ensures
        r == is_generic_param_text(render(toks_view(t@).subrange(a as int, b as int))),
{
    generic_param_text_ok(&render_span(t, a, b))
}

/// Whether `t[a..b]` is one `where` clause.
pub fn is_where_clause(t: &Vec<Tok>, a: usize, b: usize) -> (r: bool)
    requires
        a <= b <= t.len(),
    ensures
        r == is_where_clause_text(render(toks_view(t@).subrange(a as int, b as int))),
{
    where_clause_text_ok(&render_span(t, a, b))
}

/// Whether `t[a..b]` is one identifier that is not a keyword.
pub fn is_plain_ident(t: &Vec<Tok>, a: usize, b: usize) -> (r: bool)
    requires
        a <= b <= t.len(),
    ensures
        r == is_ident_text(render(toks_view(t@).subrange(a as int, b as int))),
{
    ident_text_ok(&render_span(t, a, b))
}

} // verus!
