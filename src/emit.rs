//! Writing out the wrapper type and its `Wrapper` implementation for a
//! parsed declaration.
use vstd::prelude::*;
use crate::decl::{Decl, DeclModel, Param, ParamKind, ParseError, decl_ok, param_ok, span_ok, parse_decl, parse_spec};
use crate::token::{Delim, Tok, TokV, toks_view, lemma_toks_view_push};

verus! {

/// Which parts of a generic parameter are written.
#[derive(Clone, Copy, Debug, PartialEq, Eq, Structural)]
pub enum Form {
    /// Head, bounds and default: the parameter list of the type.
    Full,
    /// Head and bounds: the parameter list of the `impl`.
    Impl,
    /// The name alone: the arguments after the type's name.
    Args,
}

pub open spec fn slice_of(t: Seq<TokV>, s: (usize, usize)) -> Seq<TokV> {
    t.subrange(s.0 as int, s.1 as int)
}

pub open spec fn punct(c: char) -> TokV {
    TokV::Punct(c, false)
}

pub open spec fn joint(c: char) -> TokV {
    TokV::Punct(c, true)
}

pub open spec fn word(s: Seq<char>) -> TokV {
    TokV::Ident(s)
}

/// The attributes, one after the other, as they stood.
pub open spec fn attrs_out(t: Seq<TokV>, a: Seq<(usize, usize)>) -> Seq<TokV>
    decreases a.len(),
{
    if a.len() == 0 {
        seq![]
    } else {
        attrs_out(t, a.drop_last()) + slice_of(t, a.last())
    }
}

/// `#[repr(transparent)]`: the wrapper is laid out exactly as its field.
pub open spec fn repr_attr() -> Seq<TokV> {
    seq![
        punct('#'),
        TokV::Open(Delim::Bracket),
        word("repr"@),
        TokV::Open(Delim::Paren),
        word("transparent"@),
        TokV::Close(Delim::Paren),
        TokV::Close(Delim::Bracket),
    ]
}

pub open spec fn opt_out(t: Seq<TokV>, lead: TokV, s: Option<(usize, usize)>) -> Seq<TokV> {
    match s {
        Some(s) => seq![lead] + slice_of(t, s),
        None => seq![],
    }
}

pub open spec fn param_out(t: Seq<TokV>, p: Param, f: Form) -> Seq<TokV> {
    match f {
        Form::Full => slice_of(t, p.attrs) + slice_of(t, p.head) + opt_out(t, punct(':'), p.bounds) + opt_out(t, punct('='), p.default),
        Form::Impl => slice_of(t, p.attrs) + slice_of(t, p.head) + opt_out(t, punct(':'), p.bounds),
        Form::Args => slice_of(t, p.name),
    }
}

/// The lifetime parameters (`lifetimes`) or the others, each followed by
/// a comma, in the order in which they were declared.
pub open spec fn list_out(t: Seq<TokV>, ps: Seq<Param>, f: Form, lifetimes: bool) -> Seq<TokV>
    decreases ps.len(),
{
    if ps.len() == 0 {
        seq![]
    } else {
        list_out(t, ps.drop_last(), f, lifetimes) + if (ps.last().kind == ParamKind::Lifetime) == lifetimes {
            param_out(t, ps.last(), f) + seq![punct(',')]
        } else {
            seq![]
        }
    }
}

/// The parameter list in the given form, lifetimes first; nothing where
/// there are no parameters.
pub open spec fn generics_out(t: Seq<TokV>, ps: Seq<Param>, f: Form) -> Seq<TokV> {
    if ps.len() == 0 {
        seq![]
    } else {
        seq![punct('<')] + list_out(t, ps, f, true) + list_out(t, ps, f, false) + seq![punct('>')]
    }
}

/// The `where` clause; nothing where it has no predicates.
pub open spec fn clause_out(t: Seq<TokV>, c: Option<(usize, usize)>) -> Seq<TokV> {
    match c {
        Some(s) => if s.0 < s.1 { seq![word("where"@)] + slice_of(t, s) } else { seq![] },
        None => seq![],
    }
}

/// `trapper::Wrapper for`
pub open spec fn trait_path() -> Seq<TokV> {
    seq![word("trapper"@), joint(':'), punct(':'), word("Wrapper"@), word("for"@)]
}

/// `{ type Inner =`
pub open spec fn body_head() -> Seq<TokV> {
    seq![TokV::Open(Delim::Brace), word("type"@), word("Inner"@), punct('=')]
}

/// `; fn wrap(inner: Self::Inner) -> Self { Self(inner) }
/// fn unwrap(self) -> Self::Inner { self.0 } }`
pub open spec fn body_tail() -> Seq<TokV> {
    seq![
        punct(';'),
        word("fn"@), word("wrap"@),
        TokV::Open(Delim::Paren), word("inner"@), punct(':'), word("Self"@), joint(':'), punct(':'), word("Inner"@), TokV::Close(Delim::Paren),
        joint('-'), punct('>'), word("Self"@),
        TokV::Open(Delim::Brace), word("Self"@), TokV::Open(Delim::Paren), word("inner"@), TokV::Close(Delim::Paren), TokV::Close(Delim::Brace),
        word("fn"@), word("unwrap"@),
        TokV::Open(Delim::Paren), word("self"@), TokV::Close(Delim::Paren),
        joint('-'), punct('>'), word("Self"@), joint(':'), punct(':'), word("Inner"@),
        TokV::Open(Delim::Brace), word("self"@), punct('.'), TokV::Literal("0"@), TokV::Close(Delim::Brace),
        TokV::Close(Delim::Brace),
    ]
}

/// What follows the representation attribute: the type definition from its
/// visibility on, the `Wrapper` implementation, and the `unsafe`
/// implementation of the trait at path `refs` that carries the reference
/// conversions, which are sound because of that attribute.
pub open spec fn after_repr(t: Seq<TokV>, d: DeclModel, refs: Seq<TokV>) -> Seq<TokV> {
    slice_of(t, d.vis) + seq![word("struct"@), t[d.name as int]]
        + generics_out(t, d.params, Form::Full) + seq![TokV::Open(Delim::Paren)] + slice_of(t, d.inner)
        + seq![TokV::Close(Delim::Paren)] + clause_out(t, d.clause) + seq![punct(';')]
        + seq![word("impl"@)] + generics_out(t, d.params, Form::Impl) + trait_path()
        + seq![t[d.name as int]] + generics_out(t, d.params, Form::Args) + clause_out(t, d.clause)
        + body_head() + slice_of(t, d.inner) + body_tail()
        + seq![word("unsafe"@), word("impl"@)] + generics_out(t, d.params, Form::Impl) + refs
        + seq![word("for"@), t[d.name as int]] + generics_out(t, d.params, Form::Args) + clause_out(t, d.clause)
        + seq![TokV::Open(Delim::Brace), TokV::Close(Delim::Brace)]
}

/// The generated type definition followed by its implementations.
pub open spec fn emit_spec(t: Seq<TokV>, d: DeclModel, refs: Seq<TokV>) -> Seq<TokV> {
    attrs_out(t, d.attrs) + repr_attr() + after_repr(t, d, refs)
}

fn push_tok(out: &mut Vec<Tok>, x: Tok)
    ensures
        toks_view(final(out)@) == toks_view(old(out)@) + seq![x@],
{
    proof {
        lemma_toks_view_push(out@, x);
    }
    let ghost xv = x@;
    out.push(x);
    assert(toks_view(old(out)@).push(xv) =~= toks_view(old(out)@) + seq![xv]);
}

fn push_all(out: &mut Vec<Tok>, xs: Vec<Tok>)
    ensures
        toks_view(final(out)@) == toks_view(old(out)@) + toks_view(xs@),
{
    let ghost base = toks_view(out@);
    let mut i: usize = 0;
    while i < xs.len()
        invariant
            i <= xs.len(),
            toks_view(out@) == base + toks_view(xs@.take(i as int)),
        decreases xs.len() - i,
    {
        let x = xs[i].duplicate();
        push_tok(out, x);
        assert(toks_view(xs@.take(i + 1)) =~= toks_view(xs@.take(i as int)) + seq![xs@[i as int]@]);
        i = i + 1;
    }
    assert(xs@.take(xs.len() as int) =~= xs@);
}

fn push_span(out: &mut Vec<Tok>, t: &Vec<Tok>, s: (usize, usize))
    requires
        span_ok(s, t.len() as int),
    ensures
        toks_view(final(out)@) == toks_view(old(out)@) + slice_of(toks_view(t@), s),
{
    let ghost base = toks_view(out@);
    let ghost tv = toks_view(t@);
    let mut i: usize = s.0;
    while i < s.1
        invariant
            s.0 <= i <= s.1 <= t.len(),
            tv == toks_view(t@),
            toks_view(out@) == base + tv.subrange(s.0 as int, i as int),
        decreases s.1 - i,
    {
        let x = t[i].duplicate();
        push_tok(out, x);
        assert(tv.subrange(s.0 as int, i + 1) =~= tv.subrange(s.0 as int, i as int) + seq![tv[i as int]]);
        i = i + 1;
    }
}

fn push_attrs(out: &mut Vec<Tok>, t: &Vec<Tok>, a: &Vec<(usize, usize)>)
    requires
        forall|k: int| 0 <= k < a@.len() ==> span_ok(#[trigger] a@[k], t.len() as int),
    ensures
        toks_view(final(out)@) == toks_view(old(out)@) + attrs_out(toks_view(t@), a@),
{
    let ghost base = toks_view(out@);
    let ghost tv = toks_view(t@);
    let mut i: usize = 0;
    while i < a.len()
        invariant
            i <= a.len(),
            tv == toks_view(t@),
            forall|k: int| 0 <= k < a@.len() ==> span_ok(#[trigger] a@[k], t.len() as int),
            toks_view(out@) == base + attrs_out(tv, a@.take(i as int)),
        decreases a.len() - i,
    {
        push_span(out, t, a[i]);
        assert(a@.take(i + 1).drop_last() =~= a@.take(i as int));
        assert(base + attrs_out(tv, a@.take(i + 1)) =~= base + attrs_out(tv, a@.take(i as int)) + slice_of(tv, a@[i as int]));
        i = i + 1;
    }
    assert(a@.take(a.len() as int) =~= a@);
}

fn push_opt(out: &mut Vec<Tok>, t: &Vec<Tok>, lead: char, s: Option<(usize, usize)>)
    requires
        s is Some ==> span_ok(s->Some_0, t.len() as int),
    ensures
        toks_view(final(out)@) == toks_view(old(out)@) + opt_out(toks_view(t@), punct(lead), s),
{
    match s {
        Some(s) => {
            let ghost mid = toks_view(out@);
            push_tok(out, Tok::Punct(lead, false));
            push_span(out, t, s);
            assert(mid + seq![punct(lead)] + slice_of(toks_view(t@), s) =~= mid + (seq![punct(lead)] + slice_of(toks_view(t@), s)));
        },
        None => {
            assert(toks_view(out@) + seq![] =~= toks_view(out@));
        },
    }
}

fn push_param(out: &mut Vec<Tok>, t: &Vec<Tok>, p: Param, f: Form)
    requires
        param_ok(p, t.len() as int),
    ensures
        toks_view(final(out)@) == toks_view(old(out)@) + param_out(toks_view(t@), p, f),
{
    let ghost base = toks_view(out@);
    let ghost tv = toks_view(t@);
    match f {
        Form::Full => {
            push_span(out, t, p.attrs);
            push_span(out, t, p.head);
            push_opt(out, t, ':', p.bounds);
            push_opt(out, t, '=', p.default);
            assert(base + slice_of(tv, p.attrs) + slice_of(tv, p.head) + opt_out(tv, punct(':'), p.bounds) + opt_out(tv, punct('='), p.default)
                =~= base + param_out(tv, p, f));
        },
        Form::Impl => {
            push_span(out, t, p.attrs);
            push_span(out, t, p.head);
            push_opt(out, t, ':', p.bounds);
            assert(base + slice_of(tv, p.attrs) + slice_of(tv, p.head) + opt_out(tv, punct(':'), p.bounds) =~= base + param_out(tv, p, f));
        },
        Form::Args => {
            push_span(out, t, p.name);
        },
    }
}

fn push_list(out: &mut Vec<Tok>, t: &Vec<Tok>, ps: &Vec<Param>, f: Form, lifetimes: bool)
    requires
        forall|k: int| 0 <= k < ps@.len() ==> param_ok(#[trigger] ps@[k], t.len() as int),
    ensures
        toks_view(final(out)@) == toks_view(old(out)@) + list_out(toks_view(t@), ps@, f, lifetimes),
{
    let ghost base = toks_view(out@);
    let ghost tv = toks_view(t@);
    let mut i: usize = 0;
    while i < ps.len()
        invariant
            i <= ps.len(),
            tv == toks_view(t@),
            forall|k: int| 0 <= k < ps@.len() ==> param_ok(#[trigger] ps@[k], t.len() as int),
            toks_view(out@) == base + list_out(tv, ps@.take(i as int), f, lifetimes),
        decreases ps.len() - i,
    {
        let p = ps[i];
        let ghost mid = toks_view(out@);
        assert(ps@.take(i + 1).drop_last() =~= ps@.take(i as int));
        assert(ps@.take(i + 1).last() == p);
        if (p.kind == ParamKind::Lifetime) == lifetimes {
            push_param(out, t, p, f);
            push_tok(out, Tok::Punct(',', false));
            assert(mid + param_out(tv, p, f) + seq![punct(',')] =~= mid + (param_out(tv, p, f) + seq![punct(',')]));
        } else {
            assert(mid + seq![] =~= mid);
        }
        assert(toks_view(out@) =~= base + list_out(tv, ps@.take(i + 1), f, lifetimes));
        i = i + 1;
    }
    assert(ps@.take(ps.len() as int) =~= ps@);
}

fn push_generics(out: &mut Vec<Tok>, t: &Vec<Tok>, ps: &Vec<Param>, f: Form)
    requires
        forall|k: int| 0 <= k < ps@.len() ==> param_ok(#[trigger] ps@[k], t.len() as int),
    ensures
        toks_view(final(out)@) == toks_view(old(out)@) + generics_out(toks_view(t@), ps@, f),
{
    let ghost base = toks_view(out@);
    let ghost tv = toks_view(t@);
    if ps.len() == 0 {
        assert(base + seq![] =~= base);
        return;
    }
    push_tok(out, Tok::Punct('<', false));
    push_list(out, t, ps, f, true);
    push_list(out, t, ps, f, false);
    push_tok(out, Tok::Punct('>', false));
    assert(base + seq![punct('<')] + list_out(tv, ps@, f, true) + list_out(tv, ps@, f, false) + seq![punct('>')]
        =~= base + generics_out(tv, ps@, f));
}

fn push_clause(out: &mut Vec<Tok>, t: &Vec<Tok>, c: Option<(usize, usize)>)
    requires
        c is Some ==> span_ok(c->Some_0, t.len() as int),
    ensures
        toks_view(final(out)@) == toks_view(old(out)@) + clause_out(toks_view(t@), c),
{
    let ghost base = toks_view(out@);
    let ghost tv = toks_view(t@);
    match c {
        Some(s) => {
            if s.0 < s.1 {
                push_tok(out, Tok::word("where"));
                push_span(out, t, s);
                assert(base + seq![word("where"@)] + slice_of(tv, s) =~= base + clause_out(tv, c));
                return;
            }
        },
        None => {},
    }
    assert(base + seq![] =~= base);
}

fn repr_tokens() -> (r: Vec<Tok>)
    ensures
        toks_view(r@) == repr_attr(),
{
    let r = vec![
        Tok::Punct('#', false),
        Tok::Open(Delim::Bracket),
        Tok::word("repr"),
        Tok::Open(Delim::Paren),
        Tok::word("transparent"),
        Tok::Close(Delim::Paren),
        Tok::Close(Delim::Bracket),
    ];
    assert(toks_view(r@) =~= repr_attr());
    r
}

fn trait_tokens() -> (r: Vec<Tok>)
    ensures
        toks_view(r@) == trait_path(),
{
    let r = vec![Tok::word("trapper"), Tok::Punct(':', true), Tok::Punct(':', false), Tok::word("Wrapper"), Tok::word("for")];
    assert(toks_view(r@) =~= trait_path());
    r
}

fn body_head_tokens() -> (r: Vec<Tok>)
    ensures
        toks_view(r@) == body_head(),
{
    let r = vec![Tok::Open(Delim::Brace), Tok::word("type"), Tok::word("Inner"), Tok::Punct('=', false)];
    assert(toks_view(r@) =~= body_head());
    r
}

fn body_tail_tokens() -> (r: Vec<Tok>)
    ensures
        toks_view(r@) == body_tail(),
{
    let r = vec![
        Tok::Punct(';', false),
        Tok::word("fn"), Tok::word("wrap"),
        Tok::Open(Delim::Paren), Tok::word("inner"), Tok::Punct(':', false), Tok::word("Self"), Tok::Punct(':', true), Tok::Punct(':', false), Tok::word("Inner"), Tok::Close(Delim::Paren),
        Tok::Punct('-', true), Tok::Punct('>', false), Tok::word("Self"),
        Tok::Open(Delim::Brace), Tok::word("Self"), Tok::Open(Delim::Paren), Tok::word("inner"), Tok::Close(Delim::Paren), Tok::Close(Delim::Brace),
        Tok::word("fn"), Tok::word("unwrap"),
        Tok::Open(Delim::Paren), Tok::word("self"), Tok::Close(Delim::Paren),
        Tok::Punct('-', true), Tok::Punct('>', false), Tok::word("Self"), Tok::Punct(':', true), Tok::Punct(':', false), Tok::word("Inner"),
        Tok::Open(Delim::Brace), Tok::word("self"), Tok::Punct('.', false), Tok::Literal(crate::token::chars_of("0")), Tok::Close(Delim::Brace),
        Tok::Close(Delim::Brace),
    ];
    assert(toks_view(r@) =~= body_tail());
    r
}

/// Writes the wrapper type and its implementations for the declaration `d`
/// read from the tokens `t`; `refs` is the path of the trait that carries
/// the reference conversions.
pub fn emit(t: &Vec<Tok>, d: &Decl, refs: &Vec<Tok>) -> (r: Vec<Tok>)
    requires
        decl_ok(d@, t.len() as int),
    ensures
        toks_view(r@) == emit_spec(toks_view(t@), d@, toks_view(refs@)),
{
    let ghost tv = toks_view(t@);
    assert forall|k: int| 0 <= k < d.params@.len() implies param_ok(#[trigger] d.params@[k], t.len() as int) by {
        assert(d@.params[k] == d.params@[k]);
    }
    assert forall|k: int| 0 <= k < d.attrs@.len() implies span_ok(#[trigger] d.attrs@[k], t.len() as int) by {
        assert(d@.attrs[k] == d.attrs@[k]);
    }
    let mut out: Vec<Tok> = Vec::new();
    push_attrs(&mut out, t, &d.attrs);
    assert(toks_view(out@) =~= attrs_out(tv, d@.attrs));
    push_all(&mut out, repr_tokens());
    let mut rest: Vec<Tok> = Vec::new();
    push_span(&mut rest, t, d.vis);
    assert(toks_view(rest@) =~= slice_of(tv, d.vis));
    let name = t[d.name].duplicate();
    let head = vec![Tok::word("struct"), name];
    assert(toks_view(head@) =~= seq![word("struct"@), tv[d.name as int]]);
    push_all(&mut rest, head);
    push_generics(&mut rest, t, &d.params, Form::Full);
    push_tok(&mut rest, Tok::Open(Delim::Paren));
    push_span(&mut rest, t, d.inner);
    push_tok(&mut rest, Tok::Close(Delim::Paren));
    push_clause(&mut rest, t, d.clause);
    push_tok(&mut rest, Tok::Punct(';', false));
    push_tok(&mut rest, Tok::word("impl"));
    push_generics(&mut rest, t, &d.params, Form::Impl);
    push_all(&mut rest, trait_tokens());
    push_tok(&mut rest, t[d.name].duplicate());
    push_generics(&mut rest, t, &d.params, Form::Args);
    push_clause(&mut rest, t, d.clause);
    push_all(&mut rest, body_head_tokens());
    push_span(&mut rest, t, d.inner);
    push_all(&mut rest, body_tail_tokens());
    let unsafe_impl = vec![Tok::word("unsafe"), Tok::word("impl")];
    assert(toks_view(unsafe_impl@) =~= seq![word("unsafe"@), word("impl"@)]);
    push_all(&mut rest, unsafe_impl);
    push_generics(&mut rest, t, &d.params, Form::Impl);
    push_span(&mut rest, refs, (0, refs.len()));
    assert(slice_of(toks_view(refs@), (0usize, refs.len())) =~= toks_view(refs@));
    let for_name = vec![Tok::word("for"), t[d.name].duplicate()];
    assert(toks_view(for_name@) =~= seq![word("for"@), tv[d.name as int]]);
    push_all(&mut rest, for_name);
    push_generics(&mut rest, t, &d.params, Form::Args);
    push_clause(&mut rest, t, d.clause);
    let braces = vec![Tok::Open(Delim::Brace), Tok::Close(Delim::Brace)];
    assert(toks_view(braces@) =~= seq![TokV::Open(Delim::Brace), TokV::Close(Delim::Brace)]);
    push_all(&mut rest, braces);
    push_all(&mut out, rest);
    out
}

} // verus!

verus! {

/// Reads a wrapper declaration from the tokens `t` and writes out the
/// wrapper type, its `Wrapper` implementation and its implementation of the
/// reference-conversion trait at path `refs`; fails, with the position of
/// the first token out of place, where `t` is not such a declaration.
pub fn newtype(t: &Vec<Tok>, refs: &Vec<Tok>) -> (r: Result<Vec<Tok>, ParseError>)
    ensures
        match (r, parse_spec(toks_view(t@))) {
            (Ok(out), Ok(d)) => toks_view(out@) == emit_spec(toks_view(t@), d, toks_view(refs@)),
            (Err(e), Err(at)) => e.at == at,
            _ => false,
        },
{
    match parse_decl(t) {
        Ok(d) => Ok(emit(t, &d, refs)),
        Err(e) => Err(e),
    }
}

} // verus!
