use proc_macro2::{Delimiter, Group, Ident, Punct, Spacing, Span, TokenStream, TokenTree};
use trapper::{newtype, parse_decl, Delim, ParamKind, Tok, Wrapper};

fn flatten(ts: TokenStream, out: &mut Vec<Tok>) {
    for tt in ts {
        match tt {
            TokenTree::Group(g) => {
                let d = match g.delimiter() {
                    Delimiter::Parenthesis => Delim::Paren,
                    Delimiter::Bracket => Delim::Bracket,
                    Delimiter::Brace => Delim::Brace,
                    Delimiter::None => Delim::Invisible,
                };
                out.push(Tok::Open(d));
                flatten(g.stream(), out);
                out.push(Tok::Close(d));
            }
            TokenTree::Ident(i) => out.push(Tok::Ident(i.to_string().chars().collect())),
            TokenTree::Punct(p) => out.push(Tok::Punct(p.as_char(), p.spacing() == Spacing::Joint)),
            TokenTree::Literal(l) => out.push(Tok::Literal(l.to_string().chars().collect())),
        }
    }
}

fn lex(s: &str) -> Vec<Tok> {
    let mut out = Vec::new();
    flatten(s.parse::<TokenStream>().unwrap(), &mut out);
    out
}

fn build(toks: &[Tok], i: &mut usize) -> TokenStream {
    let mut ts = TokenStream::new();
    while *i < toks.len() {
        let tt: TokenTree = match &toks[*i] {
            Tok::Close(_) => return ts,
            Tok::Open(d) => {
                *i += 1;
                let inner = build(toks, i);
                let delim = match d {
                    Delim::Paren => Delimiter::Parenthesis,
                    Delim::Bracket => Delimiter::Bracket,
                    Delim::Brace => Delimiter::Brace,
                    Delim::Invisible => Delimiter::None,
                };
                Group::new(delim, inner).into()
            }
            Tok::Ident(s) => Ident::new(&s.iter().collect::<String>(), Span::call_site()).into(),
            Tok::Punct(c, j) => Punct::new(*c, if *j { Spacing::Joint } else { Spacing::Alone }).into(),
            Tok::Literal(s) => s.iter().collect::<String>().parse::<TokenStream>().unwrap().into_iter().next().unwrap(),
        };
        ts.extend(std::iter::once(tt));
        *i += 1;
    }
    ts
}

fn render(toks: &[Tok]) -> String {
    let mut i = 0;
    build(toks, &mut i).to_string()
}

/// The text without white space, so that outputs compare whatever their spacing.
fn norm(s: &str) -> String {
    s.chars().filter(|c| !c.is_whitespace()).collect()
}

const REFS: &str = "trapper_ref::TransparentRef";

fn generate(s: &str) -> Result<Vec<Tok>, trapper::ParseError> {
    newtype(&lex(s), &lex(REFS))
}

fn expand(s: &str) -> String {
    norm(&render(&generate(s).unwrap()))
}

const BODY: &str = "{ type Inner = i32 ; fn wrap (inner : Self :: Inner) -> Self { Self (inner) } fn unwrap (self) -> Self :: Inner { self . 0 } }";

#[test]
fn in_function() {
    let out = expand("#[allow(dead_code)] type InFunction(i32)");
    let want = format!(
        "#[allow(dead_code)] #[repr(transparent)] struct InFunction(i32); impl trapper::Wrapper for InFunction {} \
         unsafe impl trapper_ref::TransparentRef for InFunction {{}}",
        BODY
    );
    assert_eq!(out, norm(&want));
}

#[test]
fn in_module_with_visibility() {
    let out = expand("pub type WithVisibility(i32)");
    let want = format!(
        "#[repr(transparent)] pub struct WithVisibility(i32); impl trapper::Wrapper for WithVisibility {} \
         unsafe impl trapper_ref::TransparentRef for WithVisibility {{}}",
        BODY
    );
    assert_eq!(out, norm(&want));
}

#[test]
fn restricted_visibility_is_kept() {
    let out = expand("pub(crate) type Local(i32);");
    assert!(out.starts_with(&norm("#[repr(transparent)] pub(crate) struct Local(i32);")));
}

#[test]
fn with_lifetimes() {
    let out = expand("type WithLifetimes<'a>(std::io::StderrLock<'a>)");
    let want = "#[repr(transparent)] struct WithLifetimes<'a,>(std::io::StderrLock<'a>); \
        impl<'a,> trapper::Wrapper for WithLifetimes<'a,> { type Inner = std::io::StderrLock<'a> ; \
        fn wrap (inner : Self :: Inner) -> Self { Self (inner) } fn unwrap (self) -> Self :: Inner { self . 0 } } \
        unsafe impl<'a,> trapper_ref::TransparentRef for WithLifetimes<'a,> {}";
    assert_eq!(out, norm(want));
}

#[test]
fn with_type_parameters() {
    let out = expand("type WithTypeParameters<T>(T)");
    assert!(out.starts_with(&norm("#[repr(transparent)] struct WithTypeParameters<T,>(T); impl<T,> trapper::Wrapper for WithTypeParameters<T,> { type Inner = T ;")));
}

#[test]
fn lifetime_and_type_over_reference() {
    let out = expand("type WithBoth<'a, T>(&'a T)");
    assert!(out.starts_with(&norm("#[repr(transparent)] struct WithBoth<'a, T,>(&'a T); impl<'a, T,> trapper::Wrapper for WithBoth<'a, T,> { type Inner = &'a T ;")));
}

#[test]
fn clause_after_field() {
    let out = expand("type WithClause<'a, T>(&'a T) where T: Default");
    assert!(out.starts_with(&norm(
        "#[repr(transparent)] struct WithClause<'a, T,>(&'a T) where T: Default; impl<'a, T,> trapper::Wrapper for WithClause<'a, T,> where T: Default { type Inner = &'a T ;"
    )));
}

#[test]
fn docs_lifetimes_types_clauses_and_semicolon() {
    let src = "#[allow(dead_code)] #[doc = \" doc\"] type Full<'a, 'b, 'c, T>(&'a &'b &'c T) where T: Default + Clone, 'a: 'b;";
    let out = expand(src);
    assert!(out.starts_with(&norm(
        "#[allow(dead_code)] #[doc = \" doc\"] #[repr(transparent)] struct Full<'a, 'b, 'c, T,>(&'a &'b &'c T) where T: Default + Clone, 'a: 'b; \
         impl<'a, 'b, 'c, T,> trapper::Wrapper for Full<'a, 'b, 'c, T,> where T: Default + Clone, 'a: 'b { type Inner = &'a &'b &'c T ;"
    )));
}

#[test]
fn defaults_and_lifetime_bounds() {
    let out = expand("type NoWhereClause<'a: 'b, 'b, T = i32>(&'b &'a T);");
    assert!(out.starts_with(&norm(
        "#[repr(transparent)] struct NoWhereClause<'a: 'b, 'b, T = i32,>(&'b &'a T); impl<'a: 'b, 'b, T,> trapper::Wrapper for NoWhereClause<'a, 'b, T,> { type Inner = &'b &'a T ;"
    )));
}

#[test]
fn lifetimes_are_written_first() {
    let out = expand("type Mixed<T: Clone, 'a, const N: usize = 4>([&'a T; N])");
    assert!(out.starts_with(&norm(
        "#[repr(transparent)] struct Mixed<'a, T: Clone, const N: usize = 4,>([&'a T; N]); impl<'a, T: Clone, const N: usize,> trapper::Wrapper for Mixed<'a, T, N,>"
    )));
}

#[test]
fn bounds_with_nested_generics_and_arrows() {
    let out = expand("type Call<F: Fn(u8) -> Vec<u8>, T: Into<Vec<u8>> = Vec<u8>>(F);");
    assert!(out.contains(&norm("impl<F: Fn(u8) -> Vec<u8>, T: Into<Vec<u8>>,> trapper::Wrapper for Call<F, T,>")));
    let d = parse_decl(&lex("type Call<F: Fn(u8) -> Vec<u8>, T: Into<Vec<u8>> = Vec<u8>>(F)")).unwrap();
    assert_eq!(d.params.len(), 2);
    assert_eq!(d.params[1].kind, ParamKind::Type);
    assert!(d.params[1].default.is_some());
}

#[test]
fn clause_position_gives_same_structure() {
    let a = parse_decl(&lex("type WithClause<'a, T>(&'a T) where T: Default")).unwrap();
    let b = parse_decl(&lex("type WithDefault<'a, T = i32>(&'a T)")).unwrap();
    assert_eq!(a.attrs, b.attrs);
    assert_eq!(a.vis, b.vis);
    assert_eq!(a.name, b.name);
    assert_eq!(a.params.len(), b.params.len());
    for (p, q) in a.params.iter().zip(b.params.iter()) {
        assert_eq!(p.kind, q.kind);
        assert_eq!(p.head, q.head);
        assert_eq!(p.bounds, q.bounds);
    }
    assert_eq!(a.params[1].default, None);
    assert_eq!(b.params[1].default, Some((8, 9)));
    assert_eq!(a.clause, Some((15, 18)));
    assert_eq!(b.clause, None);
    assert!(!a.semi && !b.semi);
}

#[test]
fn semicolon_is_optional() {
    assert_eq!(expand("type X(T)"), expand("type X(T);"));
    assert!(parse_decl(&lex("type X(T);")).unwrap().semi);
}

#[test]
fn two_fields_are_refused() {
    let t = lex("type X(i32, i32)");
    let e = newtype(&t, &lex(REFS)).unwrap_err();
    assert_eq!(e.at, 4);
}

#[test]
fn trailing_comma_in_field_is_refused() {
    assert_eq!(generate("type X(i32,)").unwrap_err().at, 4);
}

#[test]
fn empty_field_is_refused() {
    assert_eq!(generate("type X()").unwrap_err().at, 3);
}

#[test]
fn missing_type_keyword_is_refused() {
    assert_eq!(generate("pub struct X(i32)").unwrap_err().at, 1);
}

#[test]
fn missing_name_is_refused() {
    assert_eq!(generate("type (i32)").unwrap_err().at, 1);
}

#[test]
fn named_field_is_refused() {
    assert!(generate("type X { a: i32 }").is_err());
}

#[test]
fn malformed_generics_are_refused() {
    assert_eq!(generate("type X<1>(i32)").unwrap_err().at, 3);
    assert_eq!(generate("type X<T U>(i32)").unwrap_err().at, 4);
}

#[test]
fn trailing_tokens_are_refused() {
    assert_eq!(generate("type X(i32); type Y(i32)").unwrap_err().at, 6);
}

#[test]
fn empty_where_clause_is_dropped() {
    assert_eq!(expand("type X(T) where;"), expand("type X(T);"));
}

/// What `type NumberWrapper(i32)` expands to, written out (tests cannot
/// run the expansion through the compiler).
#[derive(Debug, PartialEq, Clone, Copy)]
struct NumberWrapper(i32);

impl Wrapper for NumberWrapper {
    type Inner = i32;

    fn wrap(inner: i32) -> Self {
        NumberWrapper(inner)
    }

    fn unwrap(self) -> i32 {
        self.0
    }
}

#[test]
fn expansion_matches_the_written_out_wrapper() {
    let out = expand("#[derive(Debug, PartialEq, Clone, Copy)] type NumberWrapper(i32)");
    assert!(out.contains(&norm("struct NumberWrapper(i32);")));
    assert!(out.contains(&norm("impl trapper::Wrapper for NumberWrapper { type Inner = i32 ; fn wrap (inner : Self :: Inner) -> Self { Self (inner) } fn unwrap (self) -> Self :: Inner { self . 0 } }")));
}

#[test]
fn wrap_then_unwrap_gives_the_value() {
    let w = NumberWrapper::wrap(12);
    assert_eq!(w, NumberWrapper::wrap(12));
    assert_eq!(w.unwrap(), 12);
    for v in [i32::MIN, -1, 0, 1, i32::MAX] {
        assert_eq!(NumberWrapper::wrap(v).unwrap(), v);
    }
}

#[test]
fn shifts_inside_an_array_length_are_accepted() {
    let out = expand("type Mask([u8; 1 << 3])");
    assert!(out.starts_with(&norm("#[repr(transparent)] struct Mask([u8; 1 << 3]); impl trapper::Wrapper for Mask { type Inner = [u8; 1 << 3] ;")));
}

#[test]
fn comparison_inside_a_const_block_is_accepted() {
    let out = expand("type Pick<T>(Choose<T, { 2 > 1 }>)");
    assert!(out.contains(&norm("type Inner = Choose<T, { 2 > 1 }> ;")));
}

#[test]
fn generated_type_gets_the_reference_conversions() {
    let out = expand("type WithClause<'a, T>(&'a T) where T: Default");
    assert!(out.ends_with(&norm("unsafe impl<'a, T,> trapper_ref::TransparentRef for WithClause<'a, T,> where T: Default {}")));
}

#[test]
fn named_field_is_refused_at_its_colon() {
    assert_eq!(generate("type X(a: i32)").unwrap_err().at, 4);
}

#[test]
fn path_in_field_is_accepted() {
    assert!(generate("type X(std::num::Wrapping<u8>)").is_ok());
    assert!(generate("type X(<T as Iterator>::Item)").is_ok());
}

#[test]
fn field_visibility_is_refused() {
    assert_eq!(generate("type X(pub i32)").unwrap_err().at, 3);
}

#[test]
fn field_attribute_is_refused() {
    assert_eq!(generate("type X(#[allow(unused)] i32)").unwrap_err().at, 3);
}

#[test]
fn empty_default_is_refused() {
    assert_eq!(generate("type X<T = >(i32)").unwrap_err().at, 5);
}

#[test]
fn empty_const_type_is_refused() {
    assert_eq!(generate("type X<const N: >(i32)").unwrap_err().at, 6);
}

#[test]
fn bounds_without_plus_are_refused() {
    assert_eq!(generate("type X<T: Clone Copy>(i32)").unwrap_err().at, 3);
}

#[test]
fn literal_bound_is_refused() {
    assert_eq!(generate("type X<T: 1>(i32)").unwrap_err().at, 3);
}

#[test]
fn field_that_is_not_one_type_is_refused() {
    assert_eq!(generate("type X(1 2)").unwrap_err().at, 3);
}

#[test]
fn predicate_without_bounds_is_refused() {
    assert_eq!(generate("type X(i32) where T").unwrap_err().at, 5);
}

#[test]
fn keyword_as_name_is_refused() {
    assert_eq!(generate("type fn(i32)").unwrap_err().at, 1);
}

#[test]
fn well_formed_clause_and_defaults_are_accepted() {
    assert!(generate("type X<'a, T: Clone + 'a = Vec<u8>, const N: usize = 3>([&'a T; N]) where T: Default, 'a: 'static;").is_ok());
}

#[test]
fn parameter_attributes_are_kept() {
    let out = expand("type X<#[allow(unused)] T: Clone>(T)");
    assert!(out.starts_with(&norm("#[repr(transparent)] struct X<#[allow(unused)] T: Clone,>(T); impl<#[allow(unused)] T: Clone,> trapper::Wrapper for X<T,>")));
    let d = parse_decl(&lex("type X<#[allow(unused)] T: Clone>(T)")).unwrap();
    assert_eq!(d.params[0].attrs, (3, 10));
    assert_eq!(d.params[0].head, (10, 11));
}
