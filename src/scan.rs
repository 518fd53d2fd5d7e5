//! Looking at single tokens, and finding where a run of tokens ends.
use vstd::prelude::*;
use crate::token::{Delim, Tok, TokV, toks_view, spells};

verus! {

/// What ends a run of tokens, besides a closing token at its own level.
#[derive(Clone, Copy, Debug, PartialEq, Eq, Structural)]
pub enum Mode {
    /// The contents of a delimited group: only the closing token ends it.
    Group,
    /// The bounds of a type parameter, or the type of a const parameter:
    /// `,`, `=` or the `>` that closes the parameter list.
    Param,
    /// A default, or the bounds of a lifetime: `,` or the closing `>`.
    Default,
    /// The contents of the field list: `,`.
    Field,
    /// The predicates of a `where` clause: `;`.
    Clause,
}

pub open spec fn is_punct(t: Seq<TokV>, i: int, c: char) -> bool {
    0 <= i < t.len() && t[i] is Punct && t[i]->Punct_0 == c
}

pub open spec fn is_ident(t: Seq<TokV>, i: int) -> bool {
    0 <= i < t.len() && t[i] is Ident
}

pub open spec fn is_word(t: Seq<TokV>, i: int, w: Seq<char>) -> bool {
    0 <= i < t.len() && t[i] is Ident && t[i]->Ident_0 == w
}

pub open spec fn is_open(t: Seq<TokV>, i: int, d: Delim) -> bool {
    0 <= i < t.len() && t[i] is Open && t[i]->Open_0 == d
}

pub open spec fn is_close(t: Seq<TokV>, i: int) -> bool {
    0 <= i < t.len() && t[i] is Close
}

/// A `>` that is not the second half of `->`.
pub open spec fn is_gt(t: Seq<TokV>, i: int) -> bool {
    is_punct(t, i, '>') && !(is_punct(t, i - 1, '-') && t[i - 1]->Punct_1)
}

/// A `:` that is not part of a `::`.
pub open spec fn is_lone_colon(t: Seq<TokV>, i: int) -> bool {
    is_punct(t, i, ':') && !t[i]->Punct_1 && !(is_punct(t, i - 1, ':') && t[i - 1]->Punct_1)
}

/// Whether angle brackets nest in this kind of run (outside any group).
pub open spec fn counts_angles(m: Mode) -> bool {
    m == Mode::Param || m == Mode::Default || m == Mode::Field
}

pub open spec fn stops(t: Seq<TokV>, i: int, m: Mode) -> bool {
    is_close(t, i) || match m {
        Mode::Group => false,
        Mode::Param => is_punct(t, i, ',') || is_punct(t, i, '=') || is_gt(t, i),
        Mode::Default => is_punct(t, i, ',') || is_gt(t, i),
        Mode::Field => is_punct(t, i, ',') || is_lone_colon(t, i),
        Mode::Clause => is_punct(t, i, ';'),
    }
}

/// The first position at or after `i` where the run ends, `g` groups and
/// `a` angle brackets deep; the length of `t` if none. Angle brackets count
/// only outside groups, where `<` and `>` cannot be operators.
pub open spec fn span_end(t: Seq<TokV>, i: int, g: nat, a: nat, m: Mode) -> int
    decreases t.len() - i,
{
    if i < 0 || i >= t.len() {
        t.len() as int
    } else if g == 0 && a == 0 && stops(t, i, m) {
        i
    } else if 0 <= i < t.len() && t[i] is Open {
        span_end(t, i + 1, g + 1, a, m)
    } else if is_close(t, i) && g > 0 {
        span_end(t, i + 1, (g - 1) as nat, a, m)
    } else if g == 0 && counts_angles(m) && is_punct(t, i, '<') {
        span_end(t, i + 1, g, a + 1, m)
    } else if g == 0 && counts_angles(m) && is_gt(t, i) && a > 0 {
        span_end(t, i + 1, g, (a - 1) as nat, m)
    } else {
        span_end(t, i + 1, g, a, m)
    }
}

pub fn punct_at(t: &Vec<Tok>, i: usize, c: char) -> (r: bool)
    ensures
        r == is_punct(toks_view(t@), i as int, c),
{
    i < t.len() && match &t[i] {
        Tok::Punct(p, _) => *p == c,
        _ => false,
    }
}

pub fn ident_at(t: &Vec<Tok>, i: usize) -> (r: bool)
    ensures
        r == is_ident(toks_view(t@), i as int),
{
    i < t.len() && match &t[i] {
        Tok::Ident(_) => true,
        _ => false,
    }
}

pub fn word_at(t: &Vec<Tok>, i: usize, w: &str) -> (r: bool)
    ensures
        r == is_word(toks_view(t@), i as int, w@),
{
    i < t.len() && match &t[i] {
        Tok::Ident(s) => spells(s, w),
        _ => false,
    }
}

pub fn open_at(t: &Vec<Tok>, i: usize, d: Delim) -> (r: bool)
    ensures
        r == is_open(toks_view(t@), i as int, d),
{
    i < t.len() && match &t[i] {
        Tok::Open(e) => *e == d,
        _ => false,
    }
}

pub fn close_at(t: &Vec<Tok>, i: usize) -> (r: bool)
    ensures
        r == is_close(toks_view(t@), i as int),
{
    i < t.len() && match &t[i] {
        Tok::Close(_) => true,
        _ => false,
    }
}

pub fn gt_at(t: &Vec<Tok>, i: usize) -> (r: bool)
    ensures
        r == is_gt(toks_view(t@), i as int),
{
    if !punct_at(t, i, '>') {
        return false;
    }
    if i == 0 || !punct_at(t, i - 1, '-') {
        return true;
    }
    match &t[i - 1] {
        Tok::Punct(_, joint) => !*joint,
        _ => true,
    }
}

fn lone_colon_at(t: &Vec<Tok>, i: usize) -> (r: bool)
    ensures
        r == is_lone_colon(toks_view(t@), i as int),
{
    if !punct_at(t, i, ':') {
        return false;
    }
    let joint = match &t[i] {
        Tok::Punct(_, j) => *j,
        _ => false,
    };
    if joint {
        return false;
    }
    if i == 0 || !punct_at(t, i - 1, ':') {
        return true;
    }
    match &t[i - 1] {
        Tok::Punct(_, j) => !*j,
        _ => true,
    }
}

fn stops_at(t: &Vec<Tok>, i: usize, m: Mode) -> (r: bool)
    ensures
        r == stops(toks_view(t@), i as int, m),
{
    close_at(t, i) || match m {
        Mode::Group => false,
        Mode::Param => punct_at(t, i, ',') || punct_at(t, i, '=') || gt_at(t, i),
        Mode::Default => punct_at(t, i, ',') || gt_at(t, i),
        Mode::Field => punct_at(t, i, ',') || lone_colon_at(t, i),
        Mode::Clause => punct_at(t, i, ';'),
    }
}

fn any_open_at(t: &Vec<Tok>, i: usize) -> (r: bool)
    ensures
        r == (0 <= i < t.len() && toks_view(t@)[i as int] is Open),
{
    i < t.len() && match &t[i] {
        Tok::Open(_) => true,
        _ => false,
    }
}

/// Where the run that starts at `i0`, at the outer level, ends.
pub fn find_end(t: &Vec<Tok>, i0: usize, m: Mode) -> (r: usize)
    requires
        i0 <= t.len(),
    ensures
        r == span_end(toks_view(t@), i0 as int, 0, 0, m),
        i0 <= r <= t.len(),
{
    let ghost tv = toks_view(t@);
    let angles = m == Mode::Param || m == Mode::Default || m == Mode::Field;
    let mut i: usize = i0;
    let mut g: usize = 0;
    let mut a: usize = 0;
    while i < t.len()
        invariant
            i0 <= i <= t.len(),
            g <= i,
            a <= i,
            angles == counts_angles(m),
            tv == toks_view(t@),
            span_end(tv, i0 as int, 0, 0, m) == span_end(tv, i as int, g as nat, a as nat, m),
        decreases t.len() - i,
    {
        if g == 0 && a == 0 && stops_at(t, i, m) {
            return i;
        }
        if any_open_at(t, i) {
            g = g + 1;
        } else if close_at(t, i) && g > 0 {
            g = g - 1;
        } else if g == 0 && angles && punct_at(t, i, '<') {
            a = a + 1;
        } else if g == 0 && angles && gt_at(t, i) && a > 0 {
            a = a - 1;
        }
        i = i + 1;
    }
    i
}

} // verus!
