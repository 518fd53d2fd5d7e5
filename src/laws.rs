//! Facts about declarations that hold across inputs.
use vstd::prelude::*;
use crate::decl::{decl_ok, param_ok, span_ok, DeclModel, Param, ParamKind, attrs_spec, vis_spec, param_spec, param_body_spec, with_default, params_spec, generics_spec, parse_spec};
use crate::emit::{attrs_out, list_out, emit_spec, after_repr, param_out, repr_attr, slice_of, Form};
use crate::scan::{Mode, span_end, is_punct, is_ident, is_word, is_open, is_close, is_gt, stops, counts_angles};
use crate::token::{Delim, TokV};

verus! {

/// Every generated type carries `#[repr(transparent)]` directly after the
/// attributes of its declaration, so that it is laid out exactly as its
/// single field.
pub proof fn lemma_generated_is_transparent(t: Seq<TokV>, d: DeclModel, refs: Seq<TokV>)
    requires
        decl_ok(d, t.len() as int),
    ensures
        ({
            let out = emit_spec(t, d, refs);
            let a = attrs_out(t, d.attrs).len() as int;
            &&& out.subrange(0, a) == attrs_out(t, d.attrs)
            &&& out.subrange(a, a + 7) == repr_attr()
        }),
{
    let out = emit_spec(t, d, refs);
    let a = attrs_out(t, d.attrs).len() as int;
    assert(out.subrange(0, a) =~= attrs_out(t, d.attrs));
    assert(out.subrange(a, a + 7) =~= repr_attr());
}

pub open spec fn semicolon() -> TokV {
    TokV::Punct(';', false)
}

proof fn lemma_span_end_push(t: Seq<TokV>, x: TokV, i: int, g: nat, a: nat, m: Mode)
    requires
        0 <= i <= t.len(),
    ensures
        i <= span_end(t, i, g, a, m) <= t.len(),
        span_end(t, i, g, a, m) < t.len() ==> span_end(t.push(x), i, g, a, m) == span_end(t, i, g, a, m),
        span_end(t, i, g, a, m) == t.len() ==> span_end(t.push(x), i, g, a, m) >= t.len(),
        span_end(t.push(x), i, g, a, m) <= t.len() ==> span_end(t, i, g, a, m) == span_end(t.push(x), i, g, a, m),
        i <= span_end(t.push(x), i, g, a, m) <= t.len() + 1,
        span_end(t, i, g, a, m) < t.len() ==> stops(t, span_end(t, i, g, a, m), m),
        (span_end(t, i, g, a, m) == t.len() && !stops(t.push(x), t.len() as int, m) && !(x is Open) && !(x is Close))
            ==> span_end(t.push(x), i, g, a, m) == t.len() + 1,
    decreases t.len() - i,
{
    let u = t.push(x);
    if i < t.len() {
        assert(u[i] == t[i]);
        assert(i > 0 ==> u[i - 1] == t[i - 1]);
        assert(stops(u, i, m) == stops(t, i, m));
        assert(is_gt(u, i) == is_gt(t, i));
        if !(g == 0 && a == 0 && stops(t, i, m)) {
            if t[i] is Open {
                lemma_span_end_push(t, x, i + 1, g + 1, a, m);
            } else if is_close(t, i) && g > 0 {
                lemma_span_end_push(t, x, i + 1, (g - 1) as nat, a, m);
            } else if g == 0 && counts_angles(m) && is_punct(t, i, '<') {
                lemma_span_end_push(t, x, i + 1, g, a + 1, m);
            } else if g == 0 && counts_angles(m) && is_gt(t, i) && a > 0 {
                lemma_span_end_push(t, x, i + 1, g, (a - 1) as nat, m);
            } else {
                lemma_span_end_push(t, x, i + 1, g, a, m);
            }
        }
    } else {
        if !(g == 0 && a == 0 && stops(u, i, m)) {
            assert(span_end(u, i + 1, g + 1, a, m) == u.len());
            assert(span_end(u, i + 1, g, a + 1, m) == u.len());
            assert(span_end(u, i + 1, g, a, m) == u.len());
            if g > 0 {
                assert(span_end(u, i + 1, (g - 1) as nat, a, m) == u.len());
            }
            if a > 0 {
                assert(span_end(u, i + 1, g, (a - 1) as nat, m) == u.len());
            }
        }
    }
}

proof fn lemma_attrs_semi(t: Seq<TokV>, i: int)
    requires
        t.len() < usize::MAX,
        0 <= i <= t.len(),
    ensures
        attrs_spec(t.push(semicolon()), i) == attrs_spec(t, i),
        i <= attrs_spec(t, i).1 <= t.len(),
        forall|k: int| 0 <= k < attrs_spec(t, i).0.len() ==> span_ok(#[trigger] attrs_spec(t, i).0[k], t.len() as int),
    decreases t.len() - i,
{
    let u = t.push(semicolon());
    if i + 1 < t.len() {
        assert(u[i] == t[i] && u[i + 1] == t[i + 1]);
    }
    if is_punct(t, i, '#') && is_open(t, i + 1, Delim::Bracket) {
        lemma_span_end_push(t, semicolon(), i + 2, 0, 0, Mode::Group);
        let e = span_end(t, i + 2, 0, 0, Mode::Group);
        if i < e < t.len() {
            lemma_attrs_semi(t, e + 1);
            let r = attrs_spec(t, e + 1);
            assert forall|k: int| 0 <= k < attrs_spec(t, i).0.len() implies span_ok(#[trigger] attrs_spec(t, i).0[k], t.len() as int) by {
                if k > 0 {
                    assert(attrs_spec(t, i).0[k] == r.0[k - 1]);
                }
            }
        }
    }
}

proof fn lemma_vis_semi(t: Seq<TokV>, i: int)
    requires
        t.len() < usize::MAX,
        0 <= i <= t.len(),
    ensures
        vis_spec(t.push(semicolon()), i) == vis_spec(t, i),
        span_ok(vis_spec(t, i), t.len() as int),
        vis_spec(t, i).0 == i,
{
    let u = t.push(semicolon());
    if i + 1 < t.len() {
        assert(u[i] == t[i] && u[i + 1] == t[i + 1]);
    }
    if i < t.len() {
        assert(u[i] == t[i]);
    }
    if i + 2 <= t.len() {
        lemma_span_end_push(t, semicolon(), i + 2, 0, 0, Mode::Group);
    }
}

proof fn lemma_default_semi(t: Seq<TokV>, p: Param, j: int)
    requires
        t.len() < usize::MAX,
        0 <= j <= t.len(),
        param_ok(p, t.len() as int),
        with_default(t.push(semicolon()), p, j) is Ok,
        (with_default(t.push(semicolon()), p, j)->Ok_0).1 <= t.len(),
    ensures
        with_default(t, p, j) == with_default(t.push(semicolon()), p, j),
        param_ok((with_default(t, p, j)->Ok_0).0, t.len() as int),
{
    let u = t.push(semicolon());
    if j < t.len() {
        assert(u[j] == t[j]);
    }
    if is_punct(u, j, '=') {
        lemma_span_end_push(t, semicolon(), j + 1, 0, 0, Mode::Default);
    }
}

proof fn lemma_param_body_semi(t: Seq<TokV>, i: int)
    requires
        t.len() < usize::MAX,
        0 <= i <= t.len(),
        param_body_spec(t.push(semicolon()), i) is Ok,
        (param_body_spec(t.push(semicolon()), i)->Ok_0).1 <= t.len(),
    ensures
        param_body_spec(t, i) == param_body_spec(t.push(semicolon()), i),
        param_ok((param_body_spec(t, i)->Ok_0).0, t.len() as int),
        i < (param_body_spec(t, i)->Ok_0).1,
{
    let u = t.push(semicolon());
    assert(forall|k: int| 0 <= k < t.len() ==> u[k] == t[k]);
    if is_punct(u, i, '\'') && is_ident(u, i + 1) {
        if is_punct(u, i + 2, ':') {
            lemma_span_end_push(t, semicolon(), i + 3, 0, 0, Mode::Default);
        }
    } else if is_word(u, i, "const"@) {
        lemma_span_end_push(t, semicolon(), i + 3, 0, 0, Mode::Param);
        let e = span_end(u, i + 3, 0, 0, Mode::Param);
        let p = Param {
            attrs: (i as usize, i as usize),
            kind: ParamKind::Const,
            head: (i as usize, (i + 2) as usize),
            name: ((i + 1) as usize, (i + 2) as usize),
            bounds: Some(((i + 3) as usize, e as usize)),
            default: None,
        };
        if is_punct(u, e, '=') {
            lemma_span_end_push(t, semicolon(), e + 1, 0, 0, Mode::Default);
        }
        lemma_default_semi(t, p, e);
    } else if is_ident(u, i) {
        let h = (i as usize, (i + 1) as usize);
        if is_punct(u, i + 1, ':') {
            lemma_span_end_push(t, semicolon(), i + 2, 0, 0, Mode::Param);
            let e = span_end(u, i + 2, 0, 0, Mode::Param);
            if is_punct(u, e, '=') {
                lemma_span_end_push(t, semicolon(), e + 1, 0, 0, Mode::Default);
            }
            lemma_default_semi(t, Param { attrs: (i as usize, i as usize), kind: ParamKind::Type, head: h, name: h, bounds: Some(((i + 2) as usize, e as usize)), default: None }, e);
        } else {
            if is_punct(u, i + 1, '=') {
                lemma_span_end_push(t, semicolon(), i + 2, 0, 0, Mode::Default);
            }
            lemma_default_semi(t, Param { attrs: (i as usize, i as usize), kind: ParamKind::Type, head: h, name: h, bounds: None, default: None }, i + 1);
        }
    }
}

proof fn lemma_param_semi(t: Seq<TokV>, i: int)
    requires
        t.len() < usize::MAX,
        0 <= i <= t.len(),
        param_spec(t.push(semicolon()), i) is Ok,
        (param_spec(t.push(semicolon()), i)->Ok_0).1 <= t.len(),
    ensures
        param_spec(t, i) == param_spec(t.push(semicolon()), i),
        param_ok((param_spec(t, i)->Ok_0).0, t.len() as int),
        i < (param_spec(t, i)->Ok_0).1,
{
    lemma_attrs_semi(t, i);
    lemma_param_body_semi(t, attrs_spec(t, i).1);
}

proof fn lemma_param_semi_up(t: Seq<TokV>, i: int)
    requires
        t.len() < usize::MAX,
        0 <= i <= t.len(),
        param_spec(t, i) is Ok,
        (param_spec(t, i)->Ok_0).1 < t.len(),
    ensures
        param_spec(t.push(semicolon()), i) == param_spec(t, i),
        i < (param_spec(t, i)->Ok_0).1,
{
    lemma_attrs_semi(t, i);
    lemma_param_body_semi_up(t, attrs_spec(t, i).1);
}

proof fn lemma_params_semi(t: Seq<TokV>, i: int)
    requires
        t.len() < usize::MAX,
        0 <= i <= t.len(),
        params_spec(t.push(semicolon()), i) is Ok,
    ensures
        params_spec(t, i) == params_spec(t.push(semicolon()), i),
        (params_spec(t, i)->Ok_0).1 <= t.len(),
        forall|k: int| 0 <= k < (params_spec(t, i)->Ok_0).0.len()
            ==> param_ok(#[trigger] (params_spec(t, i)->Ok_0).0[k], t.len() as int),
    decreases t.len() - i,
{
    let u = t.push(semicolon());
    assert(forall|k: int| 0 <= k < t.len() ==> u[k] == t[k]);
    if !is_gt(u, i) {
        let (p, j) = param_spec(u, i)->Ok_0;
        lemma_param_semi(t, i);
        assert(u.subrange(i, j) =~= t.subrange(i, j));
        if !is_gt(u, j) {
            lemma_params_semi(t, j + 1);
            let rest = params_spec(t, j + 1)->Ok_0;
            let all = params_spec(t, i)->Ok_0;
            assert forall|k: int| 0 <= k < all.0.len() implies param_ok(#[trigger] all.0[k], t.len() as int) by {
                if k > 0 {
                    assert(all.0[k] == rest.0[k - 1]);
                }
            }
        }
    }
}

proof fn lemma_slice_semi(t: Seq<TokV>, s: (usize, usize))
    requires
        span_ok(s, t.len() as int),
    ensures
        slice_of(t.push(semicolon()), s) == slice_of(t, s),
{
    assert(slice_of(t.push(semicolon()), s) =~= slice_of(t, s));
}

proof fn lemma_param_out_semi(t: Seq<TokV>, p: Param, f: Form)
    requires
        param_ok(p, t.len() as int),
    ensures
        param_out(t.push(semicolon()), p, f) == param_out(t, p, f),
{
    lemma_slice_semi(t, p.attrs);
    lemma_slice_semi(t, p.head);
    lemma_slice_semi(t, p.name);
    if p.bounds is Some {
        lemma_slice_semi(t, p.bounds->Some_0);
    }
    if p.default is Some {
        lemma_slice_semi(t, p.default->Some_0);
    }
}

proof fn lemma_list_out_semi(t: Seq<TokV>, ps: Seq<Param>, f: Form, lifetimes: bool)
    requires
        forall|k: int| 0 <= k < ps.len() ==> param_ok(#[trigger] ps[k], t.len() as int),
    ensures
        list_out(t.push(semicolon()), ps, f, lifetimes) == list_out(t, ps, f, lifetimes),
    decreases ps.len(),
{
    if ps.len() > 0 {
        assert(param_ok(ps[ps.len() - 1], t.len() as int));
        lemma_param_out_semi(t, ps.last(), f);
        let q = ps.drop_last();
        assert forall|k: int| 0 <= k < q.len() implies param_ok(#[trigger] q[k], t.len() as int) by {
            assert(q[k] == ps[k]);
        }
        lemma_list_out_semi(t, q, f, lifetimes);
    }
}

proof fn lemma_attrs_out_semi(t: Seq<TokV>, a: Seq<(usize, usize)>)
    requires
        forall|k: int| 0 <= k < a.len() ==> span_ok(#[trigger] a[k], t.len() as int),
    ensures
        attrs_out(t.push(semicolon()), a) == attrs_out(t, a),
    decreases a.len(),
{
    if a.len() > 0 {
        assert(span_ok(a[a.len() - 1], t.len() as int));
        lemma_slice_semi(t, a.last());
        let q = a.drop_last();
        assert forall|k: int| 0 <= k < q.len() implies span_ok(#[trigger] q[k], t.len() as int) by {
            assert(q[k] == a[k]);
        }
        lemma_attrs_out_semi(t, q);
    }
}

proof fn lemma_emit_semi(t: Seq<TokV>, d: DeclModel, refs: Seq<TokV>)
    requires
        decl_ok(d, t.len() as int),
    ensures
        emit_spec(t.push(semicolon()), d, refs) == emit_spec(t, d, refs),
{
    let u = t.push(semicolon());
    lemma_attrs_out_semi(t, d.attrs);
    lemma_slice_semi(t, d.vis);
    lemma_slice_semi(t, d.inner);
    if d.clause is Some {
        lemma_slice_semi(t, d.clause->Some_0);
    }
    assert(u[d.name as int] == t[d.name as int]);
    lemma_list_out_semi(t, d.params, Form::Full, true);
    lemma_list_out_semi(t, d.params, Form::Full, false);
    lemma_list_out_semi(t, d.params, Form::Impl, true);
    lemma_list_out_semi(t, d.params, Form::Impl, false);
    lemma_list_out_semi(t, d.params, Form::Args, true);
    lemma_list_out_semi(t, d.params, Form::Args, false);
    assert(after_repr(u, d, refs) == after_repr(t, d, refs));
}

/// A declaration closed by `;` and the same declaration without it read
/// alike: if the tokens `t` followed by `;` make a declaration that ends
/// with that terminator, `t` alone makes the same declaration without it,
/// and the same type and implementation are generated from both.
pub proof fn lemma_terminator_is_optional(t: Seq<TokV>, refs: Seq<TokV>)
    requires
        t.len() < usize::MAX,
        parse_spec(t.push(semicolon())) is Ok,
        (parse_spec(t.push(semicolon()))->Ok_0).semi,
    ensures
        parse_spec(t) == Ok::<DeclModel, int>(DeclModel { semi: false, ..parse_spec(t.push(semicolon()))->Ok_0 }),
        decl_ok(parse_spec(t)->Ok_0, t.len() as int),
        emit_spec(t, parse_spec(t)->Ok_0, refs) == emit_spec(t.push(semicolon()), parse_spec(t.push(semicolon()))->Ok_0, refs),
{
    let u = t.push(semicolon());
    assert(forall|k: int| 0 <= k < t.len() ==> u[k] == t[k]);
    lemma_attrs_semi(t, 0);
    let at_vis = attrs_spec(t, 0).1;
    lemma_vis_semi(t, at_vis);
    let at_type = vis_spec(t, at_vis).1 as int;
    if is_punct(u, at_type + 2, '<') {
        lemma_params_semi(t, at_type + 3);
    }
    let at_field = (generics_spec(u, at_type + 2)->Ok_0).1;
    assert(u.subrange(at_type + 1, at_type + 2) =~= t.subrange(at_type + 1, at_type + 2));
    lemma_span_end_push(t, semicolon(), at_field + 1, 0, 0, Mode::Field);
    let e = span_end(u, at_field + 1, 0, 0, Mode::Field);
    let after_field = e + 1;
    assert(u.subrange(at_field + 1, e) =~= t.subrange(at_field + 1, e));
    assert(u.subrange(after_field, t.len() as int) =~= t.subrange(after_field, t.len() as int));
    if is_word(u, after_field, "where"@) {
        lemma_span_end_push(t, semicolon(), after_field + 1, 0, 0, Mode::Clause);
    }
    lemma_emit_semi(t, parse_spec(t)->Ok_0, refs);
}

/// The attributes read from position `i` on lie one after the other from
/// `i`, each a `#` with a bracketed group, and end where reading stopped.
proof fn lemma_attrs_shape(t: Seq<TokV>, i: int)
    requires
        0 <= i <= t.len(),
        t.len() < usize::MAX,
    ensures
        ({
            let r = attrs_spec(t, i);
            &&& r.0.len() == 0 ==> r.1 == i
            &&& r.0.len() > 0 ==> r.0[0].0 == i && r.0.last().1 == r.1
            &&& forall|k: int| 0 <= k < r.0.len() - 1 ==> (#[trigger] r.0[k]).1 == r.0[k + 1].0
            &&& forall|k: int| 0 <= k < r.0.len() ==> is_punct(t, (#[trigger] r.0[k]).0 as int, '#')
                && is_open(t, r.0[k].0 + 1, Delim::Bracket) && is_close(t, r.0[k].1 - 1)
        }),
    decreases t.len() - i,
{
    if is_punct(t, i, '#') && is_open(t, i + 1, Delim::Bracket) {
        lemma_span_end_push(t, semicolon(), i + 2, 0, 0, Mode::Group);
        let e = span_end(t, i + 2, 0, 0, Mode::Group);
        if i < e < t.len() {
            lemma_attrs_shape(t, e + 1);
            let rest = attrs_spec(t, e + 1);
            let r = attrs_spec(t, i);
            assert(r.0 == seq![(i as usize, (e + 1) as usize)] + rest.0);
            assert forall|k: int| 0 <= k < r.0.len() - 1 implies (#[trigger] r.0[k]).1 == r.0[k + 1].0 by {
                if k > 0 {
                    assert(r.0[k] == rest.0[k - 1]);
                }
                assert(r.0[k + 1] == rest.0[k]);
            }
            assert forall|k: int| 0 <= k < r.0.len() implies is_punct(t, (#[trigger] r.0[k]).0 as int, '#')
                && is_open(t, r.0[k].0 + 1, Delim::Bracket) && is_close(t, r.0[k].1 - 1) by {
                if k > 0 {
                    assert(r.0[k] == rest.0[k - 1]);
                }
            }
            if rest.0.len() > 0 {
                assert(r.0.last() == rest.0.last());
            }
        }
    }
}

/// A declaration that is read divides its tokens, in order and with none
/// left over, into: its attributes (each a `#` with a bracketed group, from
/// the first token on, one after the other), its visibility, the word
/// `type`, the name, the generic parameters (opened by `<` where there are
/// any), the parenthesised type (not empty), an optional `where` clause and
/// an optional `;`.
pub proof fn lemma_parts_in_order(t: Seq<TokV>)
    requires
        t.len() < usize::MAX,
        parse_spec(t) is Ok,
    ensures
        ({
            let d = parse_spec(t)->Ok_0;
            let after_clause: int = match d.clause {
                Some(c) => c.1 as int,
                None => d.inner.1 + 1,
            };
            &&& d.attrs.len() == 0 ==> d.vis.0 == 0
            &&& d.attrs.len() > 0 ==> d.attrs[0].0 == 0 && d.attrs.last().1 == d.vis.0
            &&& forall|k: int| 0 <= k < d.attrs.len() - 1 ==> (#[trigger] d.attrs[k]).1 == d.attrs[k + 1].0
            &&& forall|k: int| 0 <= k < d.attrs.len() ==> is_punct(t, (#[trigger] d.attrs[k]).0 as int, '#')
                && is_open(t, d.attrs[k].0 + 1, Delim::Bracket) && is_close(t, d.attrs[k].1 - 1)
            &&& d.vis.0 < d.vis.1 ==> is_word(t, d.vis.0 as int, "pub"@)
            &&& is_word(t, d.vis.1 as int, "type"@)
            &&& d.name == d.vis.1 + 1 && is_ident(t, d.name as int)
            &&& d.params.len() > 0 ==> is_punct(t, d.name + 1, '<')
            &&& is_open(t, d.inner.0 - 1, Delim::Paren) && d.inner.0 < d.inner.1 && is_close(t, d.inner.1 as int)
            &&& d.clause is Some ==> is_word(t, d.inner.1 + 1, "where"@) && (d.clause->Some_0).0 == d.inner.1 + 2
            &&& d.semi ==> after_clause + 1 == t.len() && is_punct(t, after_clause, ';')
            &&& !d.semi ==> after_clause == t.len()
        }),
{
    lemma_attrs_shape(t, 0);
    let at_vis = attrs_spec(t, 0).1;
    lemma_vis_semi(t, at_vis);
    let at_field = (parse_spec(t)->Ok_0).inner.0 - 1;
    lemma_span_end_push(t, semicolon(), at_field + 1, 0, 0, Mode::Field);
}

proof fn lemma_default_semi_up(t: Seq<TokV>, p: Param, j: int)
    requires
        t.len() < usize::MAX,
        0 <= j <= t.len(),
        with_default(t, p, j) is Ok,
        (with_default(t, p, j)->Ok_0).1 < t.len(),
    ensures
        with_default(t.push(semicolon()), p, j) == with_default(t, p, j),
{
    let u = t.push(semicolon());
    if j < t.len() {
        assert(u[j] == t[j]);
    }
    if is_punct(t, j, '=') {
        lemma_span_end_push(t, semicolon(), j + 1, 0, 0, Mode::Default);
    }
}

proof fn lemma_param_body_semi_up(t: Seq<TokV>, i: int)
    requires
        t.len() < usize::MAX,
        0 <= i <= t.len(),
        param_body_spec(t, i) is Ok,
        (param_body_spec(t, i)->Ok_0).1 < t.len(),
    ensures
        param_body_spec(t.push(semicolon()), i) == param_body_spec(t, i),
        i < (param_body_spec(t, i)->Ok_0).1,
{
    let u = t.push(semicolon());
    assert(forall|k: int| 0 <= k < t.len() ==> u[k] == t[k]);
    if is_punct(t, i, '\'') && is_ident(t, i + 1) {
        if is_punct(t, i + 2, ':') {
            lemma_span_end_push(t, semicolon(), i + 3, 0, 0, Mode::Default);
        }
    } else if is_word(t, i, "const"@) {
        lemma_span_end_push(t, semicolon(), i + 3, 0, 0, Mode::Param);
        let e = span_end(t, i + 3, 0, 0, Mode::Param);
        if is_punct(t, e, '=') {
            lemma_span_end_push(t, semicolon(), e + 1, 0, 0, Mode::Default);
        }
        lemma_default_semi_up(t, Param {
            attrs: (i as usize, i as usize),
            kind: ParamKind::Const,
            head: (i as usize, (i + 2) as usize),
            name: ((i + 1) as usize, (i + 2) as usize),
            bounds: Some(((i + 3) as usize, e as usize)),
            default: None,
        }, e);
    } else if is_ident(t, i) {
        let h = (i as usize, (i + 1) as usize);
        if is_punct(t, i + 1, ':') {
            lemma_span_end_push(t, semicolon(), i + 2, 0, 0, Mode::Param);
            let e = span_end(t, i + 2, 0, 0, Mode::Param);
            if is_punct(t, e, '=') {
                lemma_span_end_push(t, semicolon(), e + 1, 0, 0, Mode::Default);
            }
            lemma_default_semi_up(t, Param { attrs: (i as usize, i as usize), kind: ParamKind::Type, head: h, name: h, bounds: Some(((i + 2) as usize, e as usize)), default: None }, e);
        } else {
            if is_punct(t, i + 1, '=') {
                lemma_span_end_push(t, semicolon(), i + 2, 0, 0, Mode::Default);
            }
            lemma_default_semi_up(t, Param { attrs: (i as usize, i as usize), kind: ParamKind::Type, head: h, name: h, bounds: None, default: None }, i + 1);
        }
    }
}

proof fn lemma_params_semi_up(t: Seq<TokV>, i: int)
    requires
        t.len() < usize::MAX,
        0 <= i <= t.len(),
        params_spec(t, i) is Ok,
    ensures
        params_spec(t.push(semicolon()), i) == params_spec(t, i),
    decreases t.len() - i,
{
    let u = t.push(semicolon());
    assert(forall|k: int| 0 <= k < t.len() ==> u[k] == t[k]);
    if !is_gt(t, i) {
        let (p, j) = param_spec(t, i)->Ok_0;
        assert(j < t.len());
        lemma_param_semi_up(t, i);
        assert(u.subrange(i, j) =~= t.subrange(i, j));
        if !is_gt(t, j) {
            lemma_params_semi_up(t, j + 1);
        }
    }
}

/// The converse: a declaration without a terminator still reads, with only
/// the terminator added, once `;` is appended, and gives the same output.
/// Excluded is a `where` clause that leaves a group open, so that the
/// appended `;` would fall inside it: scanning the clause with the `;`
/// appended must stop at that `;`.
#[verifier::rlimit(60)]
pub proof fn lemma_terminator_can_be_added(t: Seq<TokV>, refs: Seq<TokV>)
    requires
        t.len() < usize::MAX,
        parse_spec(t) is Ok,
        !(parse_spec(t)->Ok_0).semi,
        (parse_spec(t)->Ok_0).clause is Some ==> span_end(
            t.push(semicolon()),
            ((parse_spec(t)->Ok_0).clause->Some_0).0 as int,
            0,
            0,
            Mode::Clause,
        ) == t.len(),
    ensures
        parse_spec(t.push(semicolon())) == Ok::<DeclModel, int>(DeclModel { semi: true, ..parse_spec(t)->Ok_0 }),
        emit_spec(t.push(semicolon()), parse_spec(t.push(semicolon()))->Ok_0, refs) == emit_spec(t, parse_spec(t)->Ok_0, refs),
{
    let u = t.push(semicolon());
    assert(forall|k: int| 0 <= k < t.len() ==> u[k] == t[k]);
    lemma_attrs_semi(t, 0);
    let at_vis = attrs_spec(t, 0).1;
    lemma_vis_semi(t, at_vis);
    let at_type = vis_spec(t, at_vis).1 as int;
    assert(u.subrange(at_type + 1, at_type + 2) =~= t.subrange(at_type + 1, at_type + 2));
    if is_punct(t, at_type + 2, '<') {
        lemma_params_semi_up(t, at_type + 3);
    }
    let at_field = (generics_spec(t, at_type + 2)->Ok_0).1;
    lemma_span_end_push(t, semicolon(), at_field + 1, 0, 0, Mode::Field);
    let e = span_end(t, at_field + 1, 0, 0, Mode::Field);
    let after_field = e + 1;
    assert(u.subrange(at_field + 1, e) =~= t.subrange(at_field + 1, e));
    assert(u.subrange(after_field, t.len() as int) =~= t.subrange(after_field, t.len() as int));
    if is_word(t, after_field, "where"@) {
        lemma_span_end_push(t, semicolon(), after_field + 1, 0, 0, Mode::Clause);
    }
    assert(parse_spec(u) == Ok::<DeclModel, int>(DeclModel { semi: true, ..parse_spec(t)->Ok_0 }));
    lemma_terminator_is_optional(t, refs);
}

} // verus!
