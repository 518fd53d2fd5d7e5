//! Reading a wrapper declaration:
//! `attributes* visibility? type Name generics? ( Type ) where-clause? ;?`
//!
//! The parts are kept as spans `(start, end)` of positions in the tokens
//! that were read, so that they can be written out again as they stood.
use vstd::prelude::*;
use crate::scan::{Mode, span_end, is_punct, is_ident, is_word, is_open, is_close, is_gt, punct_at, ident_at, word_at, open_at, close_at, gt_at, find_end};
use crate::token::{Delim, Tok, TokV, toks_view};
use crate::syntax::{render, is_type_text, is_generic_param_text, is_where_clause_text, is_ident_text, is_type, is_generic_param, is_where_clause, is_plain_ident};

verus! {

#[derive(Clone, Copy, Debug, PartialEq, Eq, Structural)]
pub enum ParamKind {
    Lifetime,
    Type,
    Const,
}

/// One generic parameter. `head` is `'a`, `T` or `const N`; `name` is what
/// stands for the parameter in a list of arguments (`'a`, `T`, `N`);
/// `attrs` are its attributes.
/// `bounds` follows a `:` (for a const parameter, its type), `default` an `=`.
#[derive(Clone, Copy, Debug, PartialEq, Eq)]
pub struct Param {
    pub attrs: (usize, usize),
    pub kind: ParamKind,
    pub head: (usize, usize),
    pub name: (usize, usize),
    pub bounds: Option<(usize, usize)>,
    pub default: Option<(usize, usize)>,
}

/// A parsed declaration. `attrs` are the spans of the attributes, each
/// `#` and its bracketed group; `vis` is empty where no visibility was
/// given; `name` is the position of the type's name; `inner` is the
/// contents of the parentheses; `clause` the predicates after `where`.
#[derive(Debug)]
pub struct Decl {
    pub attrs: Vec<(usize, usize)>,
    pub vis: (usize, usize),
    pub name: usize,
    pub params: Vec<Param>,
    pub inner: (usize, usize),
    pub clause: Option<(usize, usize)>,
    pub semi: bool,
}

pub struct DeclModel {
    pub attrs: Seq<(usize, usize)>,
    pub vis: (usize, usize),
    pub name: usize,
    pub params: Seq<Param>,
    pub inner: (usize, usize),
    pub clause: Option<(usize, usize)>,
    pub semi: bool,
}

impl View for Decl {
    type V = DeclModel;

    open spec fn view(&self) -> DeclModel {
        DeclModel {
            attrs: self.attrs@,
            vis: self.vis,
            name: self.name,
            params: self.params@,
            inner: self.inner,
            clause: self.clause,
            semi: self.semi,
        }
    }
}

/// The declaration does not have the required shape; `at` is the position
/// of the first token that does not fit (the length of the input where the
/// input ended early).
#[derive(Clone, Copy, Debug, PartialEq, Eq, Structural)]
pub struct ParseError {
    pub at: usize,
}

pub open spec fn span_ok(s: (usize, usize), n: int) -> bool {
    s.0 <= s.1 <= n
}

pub open spec fn opt_span_ok(s: Option<(usize, usize)>, n: int) -> bool {
    s is Some ==> span_ok(s->Some_0, n)
}

pub open spec fn param_ok(p: Param, n: int) -> bool {
    span_ok(p.attrs, n) && span_ok(p.head, n) && span_ok(p.name, n) && opt_span_ok(p.bounds, n) && opt_span_ok(p.default, n)
}

/// Every span of the declaration lies within `n` tokens.
pub open spec fn decl_ok(d: DeclModel, n: int) -> bool {
    &&& forall|k: int| 0 <= k < d.attrs.len() ==> span_ok(#[trigger] d.attrs[k], n)
    &&& span_ok(d.vis, n)
    &&& d.name < n
    &&& forall|k: int| 0 <= k < d.params.len() ==> param_ok(#[trigger] d.params[k], n)
    &&& span_ok(d.inner, n)
    &&& opt_span_ok(d.clause, n)
}

/// The attributes from position `i` on, and the position after them.
pub open spec fn attrs_spec(t: Seq<TokV>, i: int) -> (Seq<(usize, usize)>, int)
    decreases t.len() - i,
{
    if is_punct(t, i as int, '#') && is_open(t, i + 1, Delim::Bracket) {
        let e = span_end(t, i + 2, 0, 0, Mode::Group);
        if i < e < t.len() {
            let rest = attrs_spec(t, e + 1);
            (seq![(i as usize, (e + 1) as usize)] + rest.0, rest.1)
        } else {
            (seq![], i)
        }
    } else {
        (seq![], i)
    }
}

/// The visibility at position `i` (an empty span if there is none).
pub open spec fn vis_spec(t: Seq<TokV>, i: int) -> (usize, usize) {
    if is_word(t, i as int, "pub"@) {
        if is_open(t, i + 1, Delim::Paren) && span_end(t, i + 2, 0, 0, Mode::Group) < t.len() {
            (i as usize, (span_end(t, i + 2, 0, 0, Mode::Group) + 1) as usize)
        } else {
            (i as usize, (i + 1) as usize)
        }
    } else {
        (i as usize, i as usize)
    }
}

pub open spec fn with_default(t: Seq<TokV>, p: Param, j: int) -> Result<(Param, int), int> {
    if is_punct(t, j as int, '=') {
        let e = span_end(t, j + 1, 0, 0, Mode::Default);
        if e == j + 1 {
            Err(e)
        } else {
            Ok((Param { default: Some(((j + 1) as usize, e as usize)), ..p }, e))
        }
    } else {
        Ok((p, j))
    }
}

/// A generic parameter without attributes at position `i`, and the
/// position after it.
pub open spec fn param_body_spec(t: Seq<TokV>, i: int) -> Result<(Param, int), int> {
    if is_punct(t, i as int, '\'') && is_ident(t, i + 1) {
        let h = (i as usize, (i + 2) as usize);
        if is_punct(t, i + 2, ':') {
            let e = span_end(t, i + 3, 0, 0, Mode::Default);
            Ok((Param { attrs: (i as usize, i as usize), kind: ParamKind::Lifetime, head: h, name: h, bounds: Some(((i + 3) as usize, e as usize)), default: None }, e))
        } else {
            Ok((Param { attrs: (i as usize, i as usize), kind: ParamKind::Lifetime, head: h, name: h, bounds: None, default: None }, i + 2))
        }
    } else if is_word(t, i as int, "const"@) {
        if !is_ident(t, i + 1) {
            Err(i + 1)
        } else if !is_punct(t, i + 2, ':') {
            Err(i + 2)
        } else {
            let e = span_end(t, i + 3, 0, 0, Mode::Param);
            if e == i + 3 {
                Err(e)
            } else {
            with_default(t, Param {
                attrs: (i as usize, i as usize),
                kind: ParamKind::Const,
                head: (i as usize, (i + 2) as usize),
                name: ((i + 1) as usize, (i + 2) as usize),
                bounds: Some(((i + 3) as usize, e as usize)),
                default: None,
            }, e)
            }
        }
    } else if is_ident(t, i as int) {
        let h = (i as usize, (i + 1) as usize);
        if is_punct(t, i + 1, ':') {
            let e = span_end(t, i + 2, 0, 0, Mode::Param);
            with_default(t, Param { attrs: (i as usize, i as usize), kind: ParamKind::Type, head: h, name: h, bounds: Some(((i + 2) as usize, e as usize)), default: None }, e)
        } else {
            with_default(t, Param { attrs: (i as usize, i as usize), kind: ParamKind::Type, head: h, name: h, bounds: None, default: None }, i + 1)
        }
    } else {
        Err(i)
    }
}

/// The generic parameter at position `i`, with its attributes, and the
/// position after it.
pub open spec fn param_spec(t: Seq<TokV>, i: int) -> Result<(Param, int), int> {
    let k = attrs_spec(t, i).1;
    match param_body_spec(t, k) {
        Ok((p, j)) => Ok((Param { attrs: (i as usize, k as usize), ..p }, j)),
        Err(e) => Err(e),
    }
}

/// Puts `acc` in front of the parameters of a successful result.
pub open spec fn prepend(acc: Seq<Param>, r: Result<(Seq<Param>, int), int>) -> Result<(Seq<Param>, int), int> {
    match r {
        Ok((ps, k)) => Ok((acc + ps, k)),
        Err(e) => Err(e),
    }
}

/// The parameters from position `i` up to the closing `>`, and the position
/// after it.
pub open spec fn params_spec(t: Seq<TokV>, i: int) -> Result<(Seq<Param>, int), int>
    decreases t.len() - i,
{
    if is_gt(t, i as int) {
        Ok((seq![], i + 1))
    } else {
        match param_spec(t, i) {
            Err(e) => Err(e),
            Ok((p, j)) => if !is_generic_param_text(render(t.subrange(i, j))) {
                Err(i)
            } else if is_gt(t, j as int) {
                Ok((seq![p], j + 1))
            } else if is_punct(t, j as int, ',') && i <= j {
                prepend(seq![p], params_spec(t, j + 1))
            } else {
                Err(j)
            },
        }
    }
}

/// The generic parameter list at position `i`, if there is one.
pub open spec fn generics_spec(t: Seq<TokV>, i: int) -> Result<(Seq<Param>, int), int> {
    if is_punct(t, i as int, '<') {
        params_spec(t, i + 1)
    } else {
        Ok((seq![], i))
    }
}

/// What a declaration made of the tokens `t` holds, or the position of the
/// first token that does not fit its shape.
pub open spec fn parse_spec(t: Seq<TokV>) -> Result<DeclModel, int> {
    let (attrs, at_vis) = attrs_spec(t, 0);
    let vis = vis_spec(t, at_vis);
    let at_type = vis.1 as int;
    if !is_word(t, at_type as int, "type"@) {
        Err(at_type)
    } else if !is_ident(t, at_type + 1) || !is_ident_text(render(t.subrange(at_type + 1, at_type + 2))) {
        Err(at_type + 1)
    } else {
        match generics_spec(t, at_type + 2) {
            Err(e) => Err(e),
            Ok((params, at_field)) => if !is_open(t, at_field as int, Delim::Paren) {
                Err(at_field)
            } else if is_word(t, at_field + 1, "pub"@) || is_punct(t, at_field + 1, '#') {
                Err(at_field + 1)
            } else {
                let e = span_end(t, at_field + 1, 0, 0, Mode::Field);
                if !is_close(t, e as int) || e == at_field + 1 {
                    Err(e)
                } else if !is_type_text(render(t.subrange(at_field + 1, e))) {
                    Err(at_field + 1)
                } else {
                    let after_field = e + 1;
                    let has_where = is_word(t, after_field as int, "where"@);
                    let clause_end = if has_where { span_end(t, after_field + 1, 0, 0, Mode::Clause) } else { after_field };
                    let semi = is_punct(t, clause_end as int, ';');
                    let at_end = if semi { clause_end + 1 } else { clause_end };
                    if has_where && !is_where_clause_text(render(t.subrange(after_field, clause_end))) {
                        Err(after_field)
                    } else if at_end != t.len() {
                        Err(at_end)
                    } else {
                        Ok(DeclModel {
                            attrs,
                            vis,
                            name: (at_type + 1) as usize,
                            params,
                            inner: ((at_field + 1) as usize, e as usize),
                            clause: if has_where { Some(((after_field + 1) as usize, clause_end as usize)) } else { None },
                            semi,
                        })
                    }
                }
            },
        }
    }
}

fn parse_attrs(t: &Vec<Tok>, i0: usize) -> (r: (Vec<(usize, usize)>, usize))
    requires
        i0 <= t.len(),
    ensures
        r.0@ == attrs_spec(toks_view(t@), i0 as int).0,
        r.1 == attrs_spec(toks_view(t@), i0 as int).1,
        i0 <= r.1 <= t.len(),
        forall|k: int| 0 <= k < r.0@.len() ==> span_ok(#[trigger] r.0@[k], t.len() as int),
{
    let ghost tv = toks_view(t@);
    let mut acc: Vec<(usize, usize)> = Vec::new();
    let mut i: usize = i0;
    loop
        invariant
            i0 <= i <= t.len(),
            tv == toks_view(t@),
            tv.len() == t.len(),
            attrs_spec(tv, i0 as int).0 == acc@ + attrs_spec(tv, i as int).0,
            attrs_spec(tv, i0 as int).1 == attrs_spec(tv, i as int).1,
            forall|k: int| 0 <= k < acc@.len() ==> span_ok(#[trigger] acc@[k], t.len() as int),
        decreases t.len() - i,
    {
        if punct_at(t, i, '#') && open_at(t, i + 1, Delim::Bracket) {
            let e = find_end(t, i + 2, Mode::Group);
            if e < t.len() {
                let ghost rest = attrs_spec(tv, (e + 1) as int);
                assert(attrs_spec(tv, i as int).0 == seq![(i, (e + 1) as usize)] + rest.0);
                acc.push((i, e + 1));
                assert(attrs_spec(tv, i0 as int).0 =~= acc@ + rest.0);
                i = e + 1;
            } else {
                assert(acc@ + attrs_spec(tv, i as int).0 =~= acc@);
                return (acc, i);
            }
        } else {
            assert(acc@ + attrs_spec(tv, i as int).0 =~= acc@);
            return (acc, i);
        }
    }
}

fn parse_vis(t: &Vec<Tok>, i: usize) -> (r: (usize, usize))
    requires
        i <= t.len(),
    ensures
        r == vis_spec(toks_view(t@), i as int),
        i == r.0 <= r.1 <= t.len(),
{
    if word_at(t, i, "pub") {
        if open_at(t, i + 1, Delim::Paren) {
            let e = find_end(t, i + 2, Mode::Group);
            if e < t.len() {
                return (i, e + 1);
            }
        }
        (i, i + 1)
    } else {
        (i, i)
    }
}

fn parse_default(t: &Vec<Tok>, p: Param, j: usize) -> (r: Result<(Param, usize), ParseError>)
    requires
        j <= t.len(),
        param_ok(p, t.len() as int),
    ensures
        match (r, with_default(toks_view(t@), p, j as int)) {
            (Ok((q, k)), Ok((qs, ks))) => q == qs && k == ks && j <= k <= t.len() && param_ok(q, t.len() as int),
            (Err(e), Err(es)) => e.at == es,
            _ => false,
        },
{
    if punct_at(t, j, '=') {
        let e = find_end(t, j + 1, Mode::Default);
        if e == j + 1 {
            return Err(ParseError { at: e });
        }
        Ok((Param { default: Some((j + 1, e)), ..p }, e))
    } else {
        Ok((p, j))
    }
}

fn parse_param_body(t: &Vec<Tok>, i: usize) -> (r: Result<(Param, usize), ParseError>)
    requires
        i <= t.len(),
    ensures
        match (r, param_body_spec(toks_view(t@), i as int)) {
            (Ok((q, k)), Ok((qs, ks))) => q == qs && k == ks && i < k <= t.len() && param_ok(q, t.len() as int),
            (Err(e), Err(es)) => e.at == es,
            _ => false,
        },
{
    if punct_at(t, i, '\'') && ident_at(t, i + 1) {
        let h = (i, i + 2);
        if punct_at(t, i + 2, ':') {
            let e = find_end(t, i + 3, Mode::Default);
            Ok((Param { attrs: (i, i), kind: ParamKind::Lifetime, head: h, name: h, bounds: Some((i + 3, e)), default: None }, e))
        } else {
            Ok((Param { attrs: (i, i), kind: ParamKind::Lifetime, head: h, name: h, bounds: None, default: None }, i + 2))
        }
    } else if word_at(t, i, "const") {
        if !ident_at(t, i + 1) {
            Err(ParseError { at: i + 1 })
        } else if !punct_at(t, i + 2, ':') {
            Err(ParseError { at: i + 2 })
        } else {
            let e = find_end(t, i + 3, Mode::Param);
            if e == i + 3 {
                return Err(ParseError { at: e });
            }
            parse_default(t, Param {
                attrs: (i, i),
                kind: ParamKind::Const,
                head: (i, i + 2),
                name: (i + 1, i + 2),
                bounds: Some((i + 3, e)),
                default: None,
            }, e)
        }
    } else if ident_at(t, i) {
        let h = (i, i + 1);
        if punct_at(t, i + 1, ':') {
            let e = find_end(t, i + 2, Mode::Param);
            parse_default(t, Param { attrs: (i, i), kind: ParamKind::Type, head: h, name: h, bounds: Some((i + 2, e)), default: None }, e)
        } else {
            parse_default(t, Param { attrs: (i, i), kind: ParamKind::Type, head: h, name: h, bounds: None, default: None }, i + 1)
        }
    } else {
        Err(ParseError { at: i })
    }
}

fn parse_param(t: &Vec<Tok>, i: usize) -> (r: Result<(Param, usize), ParseError>)
    requires
        i <= t.len(),
    ensures
        match (r, param_spec(toks_view(t@), i as int)) {
            (Ok((q, k)), Ok((qs, ks))) => q == qs && k == ks && i < k <= t.len() && param_ok(q, t.len() as int),
            (Err(e), Err(es)) => e.at == es,
            _ => false,
        },
{
    let (_, k) = parse_attrs(t, i);
    match parse_param_body(t, k) {
        Ok((p, j)) => Ok((Param { attrs: (i, k), ..p }, j)),
        Err(e) => Err(e),
    }
}

fn parse_generics(t: &Vec<Tok>, i0: usize) -> (r: Result<(Vec<Param>, usize), ParseError>)
    requires
        i0 <= t.len(),
    ensures
        match (r, generics_spec(toks_view(t@), i0 as int)) {
            (Ok((ps, k)), Ok((pss, ks))) => ps@ == pss && k == ks && i0 <= k <= t.len()
                && forall|n: int| 0 <= n < ps@.len() ==> param_ok(#[trigger] ps@[n], t.len() as int),
            (Err(e), Err(es)) => e.at == es,
            _ => false,
        },
{
    let ghost tv = toks_view(t@);
    let mut acc: Vec<Param> = Vec::new();
    if !punct_at(t, i0, '<') {
        return Ok((acc, i0));
    }
    let mut i: usize = i0 + 1;
    loop
        invariant
            i0 < i <= t.len(),
            tv == toks_view(t@),
            tv.len() == t.len(),
            generics_spec(tv, i0 as int) == prepend(acc@, params_spec(tv, i as int)),
            forall|n: int| 0 <= n < acc@.len() ==> param_ok(#[trigger] acc@[n], t.len() as int),
        decreases t.len() - i,
    {
        if gt_at(t, i) {
            assert(acc@ + seq![] =~= acc@);
            return Ok((acc, i + 1));
        }
        match parse_param(t, i) {
            Err(e) => {
                return Err(e);
            },
            Ok((p, j)) => {
                if !is_generic_param(t, i, j) {
                    return Err(ParseError { at: i });
                }
                if gt_at(t, j) {
                    acc.push(p);
                    return Ok((acc, j + 1));
                } else if punct_at(t, j, ',') {
                    let ghost old_acc = acc@;
                    acc.push(p);
                    assert(forall|x: Seq<Param>| old_acc + (seq![p] + x) =~= acc@ + x);
                    i = j + 1;
                } else {
                    return Err(ParseError { at: j });
                }
            },
        }
    }
}

/// Reads a declaration from the tokens `t`.
pub fn parse_decl(t: &Vec<Tok>) -> (r: Result<Decl, ParseError>)
    ensures
        match (r, parse_spec(toks_view(t@))) {
            (Ok(d), Ok(ds)) => d@ == ds,
            (Err(e), Err(es)) => e.at == es,
            _ => false,
        },
        r is Ok ==> decl_ok(r->Ok_0@, t.len() as int),
{
    let (attrs, at_vis) = parse_attrs(t, 0);
    let vis = parse_vis(t, at_vis);
    let at_type = vis.1;
    if !word_at(t, at_type, "type") {
        return Err(ParseError { at: at_type });
    }
    if !ident_at(t, at_type + 1) || !is_plain_ident(t, at_type + 1, at_type + 2) {
        return Err(ParseError { at: at_type + 1 });
    }
    let (params, at_field) = match parse_generics(t, at_type + 2) {
        Err(e) => {
            return Err(e);
        },
        Ok(g) => g,
    };
    if !open_at(t, at_field, Delim::Paren) {
        return Err(ParseError { at: at_field });
    }
    if word_at(t, at_field + 1, "pub") || punct_at(t, at_field + 1, '#') {
        return Err(ParseError { at: at_field + 1 });
    }
    let e = find_end(t, at_field + 1, Mode::Field);
    if !close_at(t, e) || e == at_field + 1 {
        return Err(ParseError { at: e });
    }
    if !is_type(t, at_field + 1, e) {
        return Err(ParseError { at: at_field + 1 });
    }
    let after_field = e + 1;
    let has_where = word_at(t, after_field, "where");
    let clause_end = if has_where { find_end(t, after_field + 1, Mode::Clause) } else { after_field };
    let semi = punct_at(t, clause_end, ';');
    let at_end = if semi { clause_end + 1 } else { clause_end };
    if has_where && !is_where_clause(t, after_field, clause_end) {
        return Err(ParseError { at: after_field });
    }
    if at_end != t.len() {
        return Err(ParseError { at: at_end });
    }
    Ok(Decl {
        attrs,
        vis,
        name: at_type + 1,
        params,
        inner: (at_field + 1, e),
        clause: if has_where { Some((after_field + 1, clause_end)) } else { None },
        semi,
    })
}

} // verus!
