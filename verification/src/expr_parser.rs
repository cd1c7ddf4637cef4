//! The executable parser for expressions, strings, blocks and statements.
//!
//! Each function implements the rule of the same name in `syntax` and is proved
//! to give exactly what that rule gives: `None` where the rule fails, and
//! otherwise the tree whose model the rule describes and the same end position.
use vstd::prelude::*;
use crate::ast::{
    exprs_model, group_models, inits_model, lemma_push_deep_view, parts_model, stmts_model,
    arms_model, BinOp, Expr, SpecExpr, SpecStmt, Stmt, StringPart, StructInitializer, SwitchArm,
};
use crate::syntax;
use crate::syntax::{Dialect, SpecPostfixOp};
use crate::text::{char_at, lit_at, at_char, at_lit, scan_ident, scan_number, scan_text, scan_until, text_of, ws, ws1};

verus! {

broadcast use crate::text::group_text_bounds;

/// The executable result `r` of a rule is the rule's result `g`.
pub open spec fn agrees<T: DeepView>(r: Option<(T, usize)>, g: Option<(T::V, int)>) -> bool {
    match r {
        Some((v, q)) => g == Some((v.deep_view(), q as int)),
        None => g is None,
    }
}

/// A match that starts at `p` ends between `p` and `n`.
pub open spec fn within<T>(r: Option<(T, usize)>, p: usize, n: int) -> bool {
    r matches Some((_, q)) ==> p <= q <= n
}

/// A match that starts at `p` consumes at least one character and ends by `n`.
pub open spec fn consumes<T>(r: Option<(T, usize)>, p: usize, n: int) -> bool {
    r matches Some((_, q)) ==> p < q <= n
}

/// An identifier of the dialect (`syntax::name`).
pub fn name(d: Dialect, s: &Vec<char>, p: usize) -> (r: Option<(String, usize)>)
    requires
        p <= s.len(),
    ensures
        agrees(r, syntax::name(d, s@, p as int)),
        consumes(r, p, s.len() as int),
{
    let reserved = match d {
        Dialect::Kon => false,
        Dialect::Konc => true,
    };
    scan_ident(s, p, reserved)
}

/// Implements `syntax::trailing_comma`.
pub fn trailing_comma(s: &Vec<char>, p: usize) -> (r: usize)
    requires
        p <= s.len(),
    ensures
        r == syntax::trailing_comma(s@, p as int),
        p <= r <= s.len(),
{
    let w = ws(s, p);
    if at_char(s, w, ',') {
        ws(s, w + 1)
    } else {
        ws(s, w)
    }
}

/// Implements `syntax::name_list`.
pub fn name_list(d: Dialect, s: &Vec<char>, p: usize) -> (r: (Vec<String>, usize))
    requires
        p <= s.len(),
    ensures
        r.0.deep_view() == syntax::name_list(d, s@, p as int).0,
        r.1 == syntax::name_list(d, s@, p as int).1,
        p <= r.1 <= s.len(),
{
    let mut acc: Vec<String> = Vec::new();
    let (n, q0) = match name(d, s, p) {
        Some(x) => x,
        None => return (acc, p),
    };
    let ghost a0 = acc;
    acc.push(n);
    proof {
        lemma_push_deep_view(a0, acc, n);
        assert(acc.deep_view() =~= seq![n@]);
    }
    let mut q = q0;
    loop
        invariant
            p <= q <= s.len(),
            syntax::name_list(d, s@, p as int) == syntax::name_list_rest(
                d,
                s@,
                q as int,
                acc.deep_view(),
            ),
        decreases s.len() - q,
    {
        let w = ws(s, q);
        if !at_char(s, w, ',') {
            return (acc, q);
        }
        match name(d, s, ws(s, w + 1)) {
            Some((n, q2)) => {
                let ghost a1 = acc;
                acc.push(n);
                proof {
                    lemma_push_deep_view(a1, acc, n);
                }
                q = q2;
            },
            None => return (acc, q),
        }
    }
}

/// Implements `syntax::variant`.
pub fn variant(d: Dialect, s: &Vec<char>, p: usize) -> (r: Option<(String, usize)>)
    requires
        p <= s.len(),
    ensures
        agrees(r, syntax::variant(d, s@, p as int)),
        consumes(r, p, s.len() as int),
{
    if !at_char(s, p, '.') {
        return None;
    }
    name(d, s, p + 1)
}

/// Implements `syntax::variant_list`.
pub fn variant_list(d: Dialect, s: &Vec<char>, p: usize) -> (r: (Vec<String>, usize))
    requires
        p <= s.len(),
    ensures
        r.0.deep_view() == syntax::variant_list(d, s@, p as int).0,
        r.1 == syntax::variant_list(d, s@, p as int).1,
        p <= r.1 <= s.len(),
{
    let mut acc: Vec<String> = Vec::new();
    let (v, q0) = match variant(d, s, p) {
        Some(x) => x,
        None => return (acc, p),
    };
    let ghost a0 = acc;
    acc.push(v);
    proof {
        lemma_push_deep_view(a0, acc, v);
        assert(acc.deep_view() =~= seq![v@]);
    }
    let mut q = q0;
    loop
        invariant
            p <= q <= s.len(),
            syntax::variant_list(d, s@, p as int) == syntax::variant_list_rest(
                d,
                s@,
                q as int,
                acc.deep_view(),
            ),
        decreases s.len() - q,
    {
        let w = ws(s, q);
        if !at_char(s, w, ',') {
            return (acc, q);
        }
        match variant(d, s, ws(s, w + 1)) {
            Some((v, q2)) => {
                let ghost a1 = acc;
                acc.push(v);
                proof {
                    lemma_push_deep_view(a1, acc, v);
                }
                q = q2;
            },
            None => return (acc, q),
        }
    }
}

// ---------------------------------------------------------------------------
// Simple primaries
// ---------------------------------------------------------------------------

pub fn type_variant(d: Dialect, s: &Vec<char>, p: usize) -> (r: Option<(Expr, usize)>)
    requires
        p <= s.len(),
    ensures
        agrees(r, syntax::type_variant(d, s@, p as int)),
        consumes(r, p, s.len() as int),
{
    let (ty, a) = match name(d, s, p) {
        Some(x) => x,
        None => return None,
    };
    if !at_char(s, a, '.') {
        return None;
    }
    match name(d, s, a + 1) {
        Some((v, b)) => Some((Expr::EnumVariant(ty, v), b)),
        None => None,
    }
}

pub fn dot_variant(d: Dialect, s: &Vec<char>, p: usize) -> (r: Option<(Expr, usize)>)
    requires
        p <= s.len(),
    ensures
        agrees(r, syntax::dot_variant(d, s@, p as int)),
        consumes(r, p, s.len() as int),
{
    if !at_char(s, p, '.') {
        return None;
    }
    match name(d, s, p + 1) {
        Some((v, b)) => Some((Expr::DotVariant(v), b)),
        None => None,
    }
}

pub fn number_expr(s: &Vec<char>, p: usize) -> (r: Option<(Expr, usize)>)
    requires
        p <= s.len(),
    ensures
        agrees(r, syntax::number_expr(s@, p as int)),
        consumes(r, p, s.len() as int),
{
    match scan_number(s, p) {
        Some((t, q)) => Some((Expr::Number(t), q)),
        None => None,
    }
}

pub fn ident_expr(d: Dialect, s: &Vec<char>, p: usize) -> (r: Option<(Expr, usize)>)
    requires
        p <= s.len(),
    ensures
        agrees(r, syntax::ident_expr(d, s@, p as int)),
        consumes(r, p, s.len() as int),
{
    match name(d, s, p) {
        Some((t, q)) => Some((Expr::Ident(t), q)),
        None => None,
    }
}

// ---------------------------------------------------------------------------
// Expressions
// ---------------------------------------------------------------------------

/// Implements `syntax::expr`.
pub fn expr(d: Dialect, s: &Vec<char>, p: usize) -> (r: Option<(Expr, usize)>)
    requires
        p <= s.len(),
    ensures
        agrees(r, syntax::expr(d, s@, p as int)),
        within(r, p, s.len() as int),
    decreases s.len() - p, 26nat,
{
    infix(d, s, 0, p)
}

/// Implements `syntax::infix` (and the repetition `syntax::infix_loop`).
pub fn infix(d: Dialect, s: &Vec<char>, min: u8, p: usize) -> (r: Option<(Expr, usize)>)
    requires
        p <= s.len(),
    ensures
        agrees(r, syntax::infix(d, s@, min as int, p as int)),
        within(r, p, s.len() as int),
    decreases s.len() - p, 25nat,
{
    let (first, q0) = match prefix_atom(d, s, p) {
        Some(x) => x,
        None => return None,
    };
    let ghost g0 = first.deep_view();
    let mut acc = first;
    let mut q = q0;
    loop
        invariant
            p <= q0 <= q <= s.len(),
            syntax::prefix_atom(d, s@, p as int) == Some((g0, q0 as int)),
            syntax::infix_loop(d, s@, min as int, q0 as int, g0) == syntax::infix_loop(
                d,
                s@,
                min as int,
                q as int,
                acc.deep_view(),
            ),
        decreases s.len() - q,
    {
        match infix_step(d, s, min, q) {
            Some((op, y, q2)) => {
                acc = Expr::Binary(Box::new(acc), op, Box::new(y));
                q = q2;
            },
            None => {
                assert(syntax::infix_loop(d, s@, min as int, q as int, acc.deep_view()) == (
                    acc.deep_view(),
                    q as int,
                ));
                return Some((acc, q));
            },
        }
    }
}

/// Implements `syntax::infix_step`.
pub fn infix_step(d: Dialect, s: &Vec<char>, min: u8, q: usize) -> (r: Option<(BinOp, Expr, usize)>)
    requires
        q <= s.len(),
    ensures
        match r {
            Some((op, y, q2)) => syntax::infix_step(d, s@, min as int, q as int) == Some(
                (op, y.deep_view(), q2 as int),
            ) && q < q2 <= s.len(),
            None => syntax::infix_step(d, s@, min as int, q as int) is None,
        },
    decreases s.len() - q, 23nat,
{
    if min <= 0 {
        if let Some(r) = infix_op(d, s, q, '+', BinOp::Add, 1) {
            return Some(r);
        }
        if let Some(r) = infix_op(d, s, q, '-', BinOp::Sub, 1) {
            return Some(r);
        }
    }
    if min <= 1 {
        if let Some(r) = infix_op(d, s, q, '*', BinOp::Mul, 2) {
            return Some(r);
        }
        if let Some(r) = infix_op(d, s, q, '/', BinOp::Div, 2) {
            return Some(r);
        }
    }
    None
}

/// Implements `syntax::infix_op`.
pub fn infix_op(d: Dialect, s: &Vec<char>, q: usize, c: char, op: BinOp, next: u8) -> (r: Option<
    (BinOp, Expr, usize),
>)
    requires
        q <= s.len(),
    ensures
        match r {
            Some((op2, y, q2)) => syntax::infix_op(d, s@, q as int, c, op, next as int) == Some(
                (op2, y.deep_view(), q2 as int),
            ) && q < q2 <= s.len(),
            None => syntax::infix_op(d, s@, q as int, c, op, next as int) is None,
        },
    decreases s.len() - q, 22nat,
{
    let w = ws(s, q);
    if !at_char(s, w, c) {
        return None;
    }
    match infix(d, s, next, ws(s, w + 1)) {
        Some((y, e)) => Some((op, y, e)),
        None => None,
    }
}

/// Implements `syntax::prefix_atom`.
pub fn prefix_atom(d: Dialect, s: &Vec<char>, p: usize) -> (r: Option<(Expr, usize)>)
    requires
        p <= s.len(),
    ensures
        agrees(r, syntax::prefix_atom(d, s@, p as int)),
        within(r, p, s.len() as int),
    decreases s.len() - p, 21nat,
{
    if at_char(s, p, '-') {
        if let Some((e, q)) = infix(d, s, 3, p + 1) {
            return Some((Expr::Neg(Box::new(e)), q));
        }
    }
    postfix(d, s, p)
}

/// What a postfix operation applies to the expression before it.
pub enum PostfixOp {
    MethodCall(String, Vec<Expr>),
    Field(String),
    Call(Vec<Expr>),
    Index(Expr),
}

impl DeepView for PostfixOp {
    type V = SpecPostfixOp;

    open spec fn deep_view(&self) -> SpecPostfixOp {
        match self {
            PostfixOp::MethodCall(m, args) => SpecPostfixOp::MethodCall(m@, args.deep_view()),
            PostfixOp::Field(f) => SpecPostfixOp::Field(f@),
            PostfixOp::Call(args) => SpecPostfixOp::Call(args.deep_view()),
            PostfixOp::Index(i) => SpecPostfixOp::Index(i.deep_view()),
        }
    }
}

/// Implements `syntax::apply_postfix`.
pub fn apply_postfix(acc: Expr, op: PostfixOp) -> (r: Expr)
    ensures
        r.deep_view() == syntax::apply_postfix(acc.deep_view(), op.deep_view()),
{
    broadcast use group_models;

    match op {
        PostfixOp::MethodCall(m, args) => {
            assert(exprs_model(args) == args.deep_view());
            Expr::MethodCall(Box::new(acc), m, args)
        },
        PostfixOp::Field(f) => Expr::Field(Box::new(acc), f),
        PostfixOp::Call(args) => {
            assert(exprs_model(args) == args.deep_view());
            Expr::Call(Box::new(acc), args)
        },
        PostfixOp::Index(i) => Expr::Index(Box::new(acc), Box::new(i)),
    }
}

/// Implements `syntax::postfix` (and the repetition `syntax::postfix_ops`).
pub fn postfix(d: Dialect, s: &Vec<char>, p: usize) -> (r: Option<(Expr, usize)>)
    requires
        p <= s.len(),
    ensures
        agrees(r, syntax::postfix(d, s@, p as int)),
        within(r, p, s.len() as int),
    decreases s.len() - p, 20nat,
{
    let (first, q0) = match primary(d, s, p) {
        Some(x) => x,
        None => return None,
    };
    let ghost g0 = first.deep_view();
    let mut acc = first;
    let mut q = q0;
    loop
        invariant
            p <= q0 <= q <= s.len(),
            syntax::primary(d, s@, p as int) == Some((g0, q0 as int)),
            syntax::postfix_ops(d, s@, q0 as int, g0) == syntax::postfix_ops(
                d,
                s@,
                q as int,
                acc.deep_view(),
            ),
        decreases s.len() - q,
    {
        match postfix_op(d, s, q) {
            Some((op, q2)) => {
                acc = apply_postfix(acc, op);
                q = q2;
            },
            None => {
                assert(syntax::postfix_ops(d, s@, q as int, acc.deep_view()) == (
                    acc.deep_view(),
                    q as int,
                ));
                return Some((acc, q));
            },
        }
    }
}

/// Implements `syntax::postfix_op`.
pub fn postfix_op(d: Dialect, s: &Vec<char>, q: usize) -> (r: Option<(PostfixOp, usize)>)
    requires
        q <= s.len(),
    ensures
        agrees(r, syntax::postfix_op(d, s@, q as int)),
        consumes(r, q, s.len() as int),
    decreases s.len() - q, 18nat,
{
    if let Some(r) = method_op(d, s, q) {
        return Some(r);
    }
    if let Some(r) = field_op(d, s, q) {
        return Some(r);
    }
    if let Some(r) = call_op(d, s, q) {
        return Some(r);
    }
    index_op(d, s, q)
}

pub fn method_op(d: Dialect, s: &Vec<char>, q: usize) -> (r: Option<(PostfixOp, usize)>)
    requires
        q <= s.len(),
    ensures
        agrees(r, syntax::method_op(d, s@, q as int)),
        consumes(r, q, s.len() as int),
    decreases s.len() - q, 17nat,
{
    let w = ws(s, q);
    if !at_char(s, w, '.') {
        return None;
    }
    let (m, a) = match name(d, s, w + 1) {
        Some(x) => x,
        None => return None,
    };
    let b = ws(s, a);
    if !at_char(s, b, '(') {
        return None;
    }
    let (args, e) = expr_list(d, s, ws(s, b + 1));
    let f = ws(s, e);
    if !at_char(s, f, ')') {
        return None;
    }
    Some((PostfixOp::MethodCall(m, args), f + 1))
}

pub fn field_op(d: Dialect, s: &Vec<char>, q: usize) -> (r: Option<(PostfixOp, usize)>)
    requires
        q <= s.len(),
    ensures
        agrees(r, syntax::field_op(d, s@, q as int)),
        consumes(r, q, s.len() as int),
    decreases s.len() - q, 17nat,
{
    let w = ws(s, q);
    if !at_char(s, w, '.') {
        return None;
    }
    match name(d, s, w + 1) {
        Some((f, a)) => Some((PostfixOp::Field(f), a)),
        None => None,
    }
}

pub fn call_op(d: Dialect, s: &Vec<char>, q: usize) -> (r: Option<(PostfixOp, usize)>)
    requires
        q <= s.len(),
    ensures
        agrees(r, syntax::call_op(d, s@, q as int)),
        consumes(r, q, s.len() as int),
    decreases s.len() - q, 17nat,
{
    let w = ws(s, q);
    if !at_char(s, w, '(') {
        return None;
    }
    let (args, e) = expr_list(d, s, ws(s, w + 1));
    let f = ws(s, e);
    if !at_char(s, f, ')') {
        return None;
    }
    Some((PostfixOp::Call(args), f + 1))
}

pub fn index_op(d: Dialect, s: &Vec<char>, q: usize) -> (r: Option<(PostfixOp, usize)>)
    requires
        q <= s.len(),
    ensures
        agrees(r, syntax::index_op(d, s@, q as int)),
        consumes(r, q, s.len() as int),
    decreases s.len() - q, 17nat,
{
    let w = ws(s, q);
    if !at_char(s, w, '[') {
        return None;
    }
    let (i, e) = match expr(d, s, ws(s, w + 1)) {
        Some(x) => x,
        None => return None,
    };
    let f = ws(s, e);
    if !at_char(s, f, ']') {
        return None;
    }
    Some((PostfixOp::Index(i), f + 1))
}

/// Implements `syntax::expr_list`.
pub fn expr_list(d: Dialect, s: &Vec<char>, p: usize) -> (r: (Vec<Expr>, usize))
    requires
        p <= s.len(),
    ensures
        r.0.deep_view() == syntax::expr_list(d, s@, p as int).0,
        r.1 == syntax::expr_list(d, s@, p as int).1,
        p <= r.1 <= s.len(),
    decreases s.len() - p, 28nat,
{
    let mut acc: Vec<Expr> = Vec::new();
    let (e, q0) = match expr(d, s, p) {
        Some(x) => x,
        None => return (acc, p),
    };
    let ghost a0 = acc;
    acc.push(e);
    proof {
        lemma_push_deep_view(a0, acc, e);
        assert(acc.deep_view() =~= seq![e.deep_view()]);
    }
    let mut q = q0;
    loop
        invariant
            p <= q <= s.len(),
            syntax::expr_list(d, s@, p as int) == syntax::expr_list_rest(
                d,
                s@,
                q as int,
                acc.deep_view(),
            ),
        decreases s.len() - q,
    {
        let w = ws(s, q);
        if !at_char(s, w, ',') {
            return (acc, q);
        }
        match expr(d, s, ws(s, w + 1)) {
            Some((e, q2)) => {
                let ghost a1 = acc;
                acc.push(e);
                proof {
                    lemma_push_deep_view(a1, acc, e);
                }
                q = q2;
            },
            None => return (acc, q),
        }
    }
}

/// Implements `syntax::primary`.
pub fn primary(d: Dialect, s: &Vec<char>, p: usize) -> (r: Option<(Expr, usize)>)
    requires
        p <= s.len(),
    ensures
        agrees(r, syntax::primary(d, s@, p as int)),
        within(r, p, s.len() as int),
    decreases s.len() - p, 16nat,
{
    if let Some(r) = switch_expr(d, s, p) {
        return Some(r);
    }
    if let Some(r) = for_expr(d, s, p) {
        return Some(r);
    }
    if let Some(r) = struct_lit(d, s, p) {
        return Some(r);
    }
    if let Some(r) = type_variant(d, s, p) {
        return Some(r);
    }
    if let Some(r) = dot_variant(d, s, p) {
        return Some(r);
    }
    if let Some(r) = string_expr(d, s, p) {
        return Some(r);
    }
    if let Some(r) = number_expr(s, p) {
        return Some(r);
    }
    if let Some(r) = paren(d, s, p) {
        return Some(r);
    }
    ident_expr(d, s, p)
}

pub fn paren(d: Dialect, s: &Vec<char>, p: usize) -> (r: Option<(Expr, usize)>)
    requires
        p <= s.len(),
    ensures
        agrees(r, syntax::paren(d, s@, p as int)),
        consumes(r, p, s.len() as int),
    decreases s.len() - p, 15nat,
{
    if !at_char(s, p, '(') {
        return None;
    }
    let (e, b) = match expr(d, s, ws(s, p + 1)) {
        Some(x) => x,
        None => return None,
    };
    let c = ws(s, b);
    if !at_char(s, c, ')') {
        return None;
    }
    Some((e, c + 1))
}

// ---------------------------------------------------------------------------
// Struct literals
// ---------------------------------------------------------------------------

pub fn struct_lit(d: Dialect, s: &Vec<char>, p: usize) -> (r: Option<(Expr, usize)>)
    requires
        p <= s.len(),
    ensures
        agrees(r, syntax::struct_lit(d, s@, p as int)),
        consumes(r, p, s.len() as int),
    decreases s.len() - p, 15nat,
{
    broadcast use group_models;

    let (n, a) = match name(d, s, p) {
        Some(x) => x,
        None => return None,
    };
    let b = ws(s, a);
    if !at_char(s, b, '{') {
        return None;
    }
    let (fields, e) = struct_fields(d, s, ws(s, b + 1));
    let h = trailing_comma(s, e);
    if !at_char(s, h, '}') {
        return None;
    }
    assert(inits_model(fields) == fields.deep_view());
    Some((Expr::StructLit(n, fields), h + 1))
}

pub fn struct_fields(d: Dialect, s: &Vec<char>, p: usize) -> (r: (Vec<StructInitializer>, usize))
    requires
        p <= s.len(),
    ensures
        r.0.deep_view() == syntax::struct_fields(d, s@, p as int).0,
        r.1 == syntax::struct_fields(d, s@, p as int).1,
        p <= r.1 <= s.len(),
    decreases s.len() - p, 31nat,
{
    let mut acc: Vec<StructInitializer> = Vec::new();
    let (f, q0) = match struct_field(d, s, p) {
        Some(x) => x,
        None => return (acc, p),
    };
    let ghost a0 = acc;
    acc.push(f);
    proof {
        lemma_push_deep_view(a0, acc, f);
        assert(acc.deep_view() =~= seq![f.deep_view()]);
    }
    let mut q = q0;
    loop
        invariant
            p <= q <= s.len(),
            syntax::struct_fields(d, s@, p as int) == syntax::struct_fields_rest(
                d,
                s@,
                q as int,
                acc.deep_view(),
            ),
        decreases s.len() - q,
    {
        let w = ws(s, q);
        if !at_char(s, w, ',') {
            return (acc, q);
        }
        match struct_field(d, s, ws(s, w + 1)) {
            Some((f, q2)) => {
                let ghost a1 = acc;
                acc.push(f);
                proof {
                    lemma_push_deep_view(a1, acc, f);
                }
                q = q2;
            },
            None => return (acc, q),
        }
    }
}

pub fn struct_field(d: Dialect, s: &Vec<char>, p: usize) -> (r: Option<(StructInitializer, usize)>)
    requires
        p <= s.len(),
    ensures
        agrees(r, syntax::struct_field(d, s@, p as int)),
        within(r, p, s.len() as int),
    decreases s.len() - p, 29nat,
{
    let (n, a) = match name(d, s, p) {
        Some(x) => x,
        None => return None,
    };
    let b = ws(s, a);
    if !at_char(s, b, ':') {
        return None;
    }
    match expr(d, s, ws(s, b + 1)) {
        Some((v, e)) => Some((StructInitializer { label: n, value: v }, e)),
        None => None,
    }
}

// ---------------------------------------------------------------------------
// Switch and for
// ---------------------------------------------------------------------------

pub fn switch_expr(d: Dialect, s: &Vec<char>, p: usize) -> (r: Option<(Expr, usize)>)
    requires
        p <= s.len(),
    ensures
        agrees(r, syntax::switch_expr(d, s@, p as int)),
        consumes(r, p, s.len() as int),
    decreases s.len() - p, 15nat,
{
    broadcast use group_models;

    if !at_lit(s, p, &['s', 'w', 'i', 't', 'c', 'h']) {
        return None;
    }
    let a = ws(s, p + 6);
    if !at_char(s, a, '(') {
        return None;
    }
    let b = ws(s, a + 1);
    let (subject, c) = match expr(d, s, b) {
        Some(x) => x,
        None => return None,
    };
    let e = ws(s, c);
    if !at_char(s, e, ')') {
        return None;
    }
    let f = ws(s, e + 1);
    if !at_char(s, f, '{') {
        return None;
    }
    let (arms, h) = switch_arms(d, s, ws(s, f + 1));
    let k = trailing_comma(s, h);
    if !at_char(s, k, '}') {
        return None;
    }
    assert(arms_model(arms) == arms.deep_view());
    Some((Expr::Switch(Box::new(subject), arms), k + 1))
}

pub fn switch_arms(d: Dialect, s: &Vec<char>, p: usize) -> (r: (Vec<SwitchArm>, usize))
    requires
        p <= s.len(),
    ensures
        r.0.deep_view() == syntax::switch_arms(d, s@, p as int).0,
        r.1 == syntax::switch_arms(d, s@, p as int).1,
        p <= r.1 <= s.len(),
    decreases s.len() - p, 36nat,
{
    let mut acc: Vec<SwitchArm> = Vec::new();
    let (arm, q0) = match switch_arm(d, s, p) {
        Some(x) => x,
        None => return (acc, p),
    };
    let ghost a0 = acc;
    acc.push(arm);
    proof {
        lemma_push_deep_view(a0, acc, arm);
        assert(acc.deep_view() =~= seq![arm.deep_view()]);
    }
    let mut q = q0;
    loop
        invariant
            p <= q <= s.len(),
            syntax::switch_arms(d, s@, p as int) == syntax::switch_arms_rest(
                d,
                s@,
                q as int,
                acc.deep_view(),
            ),
        decreases s.len() - q,
    {
        let w = ws(s, q);
        if !at_char(s, w, ',') {
            return (acc, q);
        }
        match switch_arm(d, s, ws(s, w + 1)) {
            Some((arm, q2)) => {
                let ghost a1 = acc;
                acc.push(arm);
                proof {
                    lemma_push_deep_view(a1, acc, arm);
                }
                q = q2;
            },
            None => return (acc, q),
        }
    }
}

/// Implements `syntax::switch_arm` (and the repetition `syntax::patterns_rest`).
pub fn switch_arm(d: Dialect, s: &Vec<char>, p: usize) -> (r: Option<(SwitchArm, usize)>)
    requires
        p <= s.len(),
    ensures
        agrees(r, syntax::switch_arm(d, s@, p as int)),
        within(r, p, s.len() as int),
    decreases s.len() - p, 34nat,
{
    broadcast use group_models;

    let mut pats: Vec<Expr> = Vec::new();
    let (pat, q0) = match switch_pattern(d, s, p) {
        Some(x) => x,
        None => return None,
    };
    let ghost a0 = pats;
    pats.push(pat);
    proof {
        lemma_push_deep_view(a0, pats, pat);
        assert(pats.deep_view() =~= seq![pat.deep_view()]);
    }
    let ghost first = pats.deep_view();
    let mut q = q0;
    loop
        invariant
            p <= q0 <= q <= s.len(),
            syntax::patterns_rest(d, s@, q0 as int, first) == syntax::patterns_rest(
                d,
                s@,
                q as int,
                pats.deep_view(),
            ),
        ensures
            p <= q <= s.len(),
            syntax::patterns_rest(d, s@, q0 as int, first) == (pats.deep_view(), q as int),
        decreases s.len() - q,
    {
        let w = ws(s, q);
        if !at_char(s, w, '|') {
            break;
        }
        match switch_pattern(d, s, ws(s, w + 1)) {
            Some((pat, q2)) => {
                let ghost a1 = pats;
                pats.push(pat);
                proof {
                    lemma_push_deep_view(a1, pats, pat);
                }
                q = q2;
            },
            None => break,
        }
    }
    let w = ws(s, q);
    if !at_lit(s, w, &['=', '>']) {
        return None;
    }
    match expr(d, s, ws(s, w + 2)) {
        Some((b, e)) => {
            assert(exprs_model(pats) == pats.deep_view());
            Some((SwitchArm { patterns: pats, body: b }, e))
        },
        None => None,
    }
}

pub fn switch_pattern(d: Dialect, s: &Vec<char>, p: usize) -> (r: Option<(Expr, usize)>)
    requires
        p <= s.len(),
    ensures
        agrees(r, syntax::switch_pattern(d, s@, p as int)),
        within(r, p, s.len() as int),
    decreases s.len() - p, 32nat,
{
    if let Some(r) = dot_variant(d, s, p) {
        return Some(r);
    }
    expr(d, s, p)
}

pub fn for_expr(d: Dialect, s: &Vec<char>, p: usize) -> (r: Option<(Expr, usize)>)
    requires
        p <= s.len(),
    ensures
        agrees(r, syntax::for_expr(d, s@, p as int)),
        consumes(r, p, s.len() as int),
    decreases s.len() - p, 15nat,
{
    broadcast use group_models;

    if !at_lit(s, p, &['f', 'o', 'r']) {
        return None;
    }
    let a = match ws1(s, p + 3) {
        Some(a) => a,
        None => return None,
    };
    let (binders, b) = name_list(d, s, a);
    let c = match ws1(s, b) {
        Some(c) => c,
        None => return None,
    };
    if !at_lit(s, c, &['i', 'n']) {
        return None;
    }
    let e = match ws1(s, c + 2) {
        Some(e) => e,
        None => return None,
    };
    let (it, f) = match expr(d, s, e) {
        Some(x) => x,
        None => return None,
    };
    match block(d, s, ws(s, f)) {
        Some((body, h)) => {
            assert(stmts_model(body) == body.deep_view());
            Some((Expr::For { binders, iter: Box::new(it), body }, h))
        },
        None => None,
    }
}

// ---------------------------------------------------------------------------
// Strings
// ---------------------------------------------------------------------------

pub fn string_expr(d: Dialect, s: &Vec<char>, p: usize) -> (r: Option<(Expr, usize)>)
    requires
        p <= s.len(),
    ensures
        agrees(r, syntax::string_expr(d, s@, p as int)),
        consumes(r, p, s.len() as int),
    decreases s.len() - p, 15nat,
{
    if let Some(r) = multiline_string(d, s, p) {
        return Some(r);
    }
    quoted_string(d, s, p)
}

/// Implements `syntax::quoted_string` (and the repetition `syntax::string_parts`).
pub fn quoted_string(d: Dialect, s: &Vec<char>, p: usize) -> (r: Option<(Expr, usize)>)
    requires
        p <= s.len(),
    ensures
        agrees(r, syntax::quoted_string(d, s@, p as int)),
        consumes(r, p, s.len() as int),
    decreases s.len() - p, 14nat,
{
    broadcast use group_models;

    if !at_char(s, p, '"') {
        return None;
    }
    let mut parts: Vec<StringPart> = Vec::new();
    let mut q = p + 1;
    proof {
        assert(parts.deep_view() =~= Seq::<crate::ast::SpecStringPart>::empty());
    }
    loop
        invariant
            p < q <= s.len(),
            char_at(s@, p as int, '"'),
            syntax::string_parts(d, s@, p + 1, seq![]) == syntax::string_parts(
                d,
                s@,
                q as int,
                parts.deep_view(),
            ),
        decreases s.len() - q,
    {
        match string_part(d, s, q) {
            Some((part, q2)) => {
                let ghost a1 = parts;
                parts.push(part);
                proof {
                    lemma_push_deep_view(a1, parts, part);
                }
                q = q2;
            },
            None => {
                if !at_char(s, q, '"') {
                    return None;
                }
                assert(parts_model(parts) == parts.deep_view());
                return Some((Expr::Str(parts), q + 1));
            },
        }
    }
}

pub fn string_part(d: Dialect, s: &Vec<char>, p: usize) -> (r: Option<(StringPart, usize)>)
    requires
        p <= s.len(),
    ensures
        agrees(r, syntax::string_part(d, s@, p as int)),
        consumes(r, p, s.len() as int),
    decreases s.len() - p, 10nat,
{
    if let Some(r) = interp(d, s, p) {
        return Some(r);
    }
    literal_part(s, p, '"')
}

pub fn literal_part(s: &Vec<char>, p: usize, stop: char) -> (r: Option<(StringPart, usize)>)
    requires
        p <= s.len(),
    ensures
        agrees(r, syntax::literal_part(s@, p as int, stop)),
        consumes(r, p, s.len() as int),
{
    let e = scan_text(s, p, stop);
    if p < e {
        Some((StringPart::Literal(text_of(s, p, e)), e))
    } else {
        None
    }
}

pub fn format_spec(s: &Vec<char>, p: usize) -> (r: (Option<String>, usize))
    requires
        p <= s.len(),
    ensures
        r.0.deep_view() == syntax::format_spec(s@, p as int).0,
        r.1 == syntax::format_spec(s@, p as int).1,
        p <= r.1 <= s.len(),
{
    if at_char(s, p, ':') {
        let e = scan_until(s, p + 1, ')');
        if p + 1 < e {
            return (Some(text_of(s, p + 1, e)), e);
        }
    }
    (None, p)
}

pub fn interp(d: Dialect, s: &Vec<char>, p: usize) -> (r: Option<(StringPart, usize)>)
    requires
        p <= s.len(),
    ensures
        agrees(r, syntax::interp(d, s@, p as int)),
        consumes(r, p, s.len() as int),
    decreases s.len() - p, 9nat,
{
    if !at_lit(s, p, &['\\', '(']) {
        return None;
    }
    let (e, b) = match expr(d, s, ws(s, p + 2)) {
        Some(x) => x,
        None => return None,
    };
    let (fmt, c) = format_spec(s, b);
    let g = ws(s, c);
    if !at_char(s, g, ')') {
        return None;
    }
    Some((StringPart::Interp { expr: Box::new(e), format: fmt }, g + 1))
}

/// Implements `syntax::multiline_string` (and the repetition
/// `syntax::multiline_rest`).
pub fn multiline_string(d: Dialect, s: &Vec<char>, p: usize) -> (r: Option<(Expr, usize)>)
    requires
        p <= s.len(),
    ensures
        agrees(r, syntax::multiline_string(d, s@, p as int)),
        consumes(r, p, s.len() as int),
    decreases s.len() - p, 14nat,
{
    broadcast use group_models;

    let (mut parts, q0) = match multiline_line(d, s, p) {
        Some(x) => x,
        None => return None,
    };
    let ghost first = parts.deep_view();
    let mut q = q0;
    loop
        invariant
            p < q0 <= q <= s.len(),
            syntax::multiline_line(d, s@, p as int) == Some((first, q0 as int)),
            syntax::multiline_rest(d, s@, q0 as int, first) == syntax::multiline_rest(
                d,
                s@,
                q as int,
                parts.deep_view(),
            ),
        decreases s.len() - q,
    {
        match multiline_line(d, s, ws(s, q)) {
            Some((line, q2)) => {
                let ghost a1 = parts;
                let mut newline = String::new();
                newline.push('\n');
                let nl = StringPart::Literal(newline);
                parts.push(nl);
                let ghost a2 = parts;
                let mut line = line;
                let ghost lv = line.deep_view();
                let ghost l0 = line;
                parts.append(&mut line);
                proof {
                    lemma_push_deep_view(a1, a2, nl);
                    assert(parts.deep_view() =~= a2.deep_view() + l0.deep_view());
                }
                q = q2;
            },
            None => {
                assert(parts_model(parts) == parts.deep_view());
                return Some((Expr::Str(parts), q));
            },
        }
    }
}

/// Implements `syntax::multiline_line` (and the repetition
/// `syntax::multiline_parts`).
pub fn multiline_line(d: Dialect, s: &Vec<char>, p: usize) -> (r: Option<(Vec<StringPart>, usize)>)
    requires
        p <= s.len(),
    ensures
        agrees(r, syntax::multiline_line(d, s@, p as int)),
        consumes(r, p, s.len() as int),
    decreases s.len() - p, 12nat,
{
    if !at_lit(s, p, &['\\', '\\']) {
        return None;
    }
    let mut parts: Vec<StringPart> = Vec::new();
    let mut q = p + 2;
    proof {
        assert(parts.deep_view() =~= Seq::<crate::ast::SpecStringPart>::empty());
    }
    loop
        invariant
            p < q <= s.len(),
            lit_at(s@, p as int, seq!['\\', '\\']),
            syntax::multiline_parts(d, s@, p + 2, seq![]) == syntax::multiline_parts(
                d,
                s@,
                q as int,
                parts.deep_view(),
            ),
        decreases s.len() - q,
    {
        match multiline_part(d, s, q) {
            Some((part, q2)) => {
                let ghost a1 = parts;
                parts.push(part);
                proof {
                    lemma_push_deep_view(a1, parts, part);
                }
                q = q2;
            },
            None => {
                let e = if at_char(s, q, '\n') {
                    q + 1
                } else {
                    q
                };
                return Some((parts, e));
            },
        }
    }
}

pub fn multiline_part(d: Dialect, s: &Vec<char>, p: usize) -> (r: Option<(StringPart, usize)>)
    requires
        p <= s.len(),
    ensures
        agrees(r, syntax::multiline_part(d, s@, p as int)),
        consumes(r, p, s.len() as int),
    decreases s.len() - p, 10nat,
{
    if let Some(r) = interp(d, s, p) {
        return Some(r);
    }
    literal_part(s, p, '\n')
}

// ---------------------------------------------------------------------------
// Blocks and statements
// ---------------------------------------------------------------------------

/// Implements `syntax::block`.
pub fn block(d: Dialect, s: &Vec<char>, p: usize) -> (r: Option<(Vec<Stmt>, usize)>)
    requires
        p <= s.len(),
    ensures
        agrees(r, syntax::block(d, s@, p as int)),
        consumes(r, p, s.len() as int),
    decreases s.len() - p, 15nat,
{
    if !at_char(s, p, '{') {
        return None;
    }
    let a = ws(s, p + 1);
    let (mut stmts, b) = block_stmts(d, s, a);
    let c = ws(s, b);
    let t = match expr(d, s, c) {
        Some((e, t)) => {
            let ghost a1 = stmts;
            let st = Stmt::Tail(e);
            stmts.push(st);
            proof {
                lemma_push_deep_view(a1, stmts, st);
            }
            t
        },
        None => c,
    };
    let g = ws(s, t);
    if !at_char(s, g, '}') {
        return None;
    }
    Some((stmts, g + 1))
}

/// Implements `syntax::block_stmts`.
pub fn block_stmts(d: Dialect, s: &Vec<char>, p: usize) -> (r: (Vec<Stmt>, usize))
    requires
        p <= s.len(),
    ensures
        r.0.deep_view() == syntax::block_stmts(d, s@, p as int).0,
        r.1 == syntax::block_stmts(d, s@, p as int).1,
        p <= r.1 <= s.len(),
    decreases s.len() - p, 42nat,
{
    let mut acc: Vec<Stmt> = Vec::new();
    proof {
        assert(acc.deep_view() =~= Seq::<SpecStmt>::empty());
    }
    match d {
        Dialect::Kon => {
            let (st, q0) = match stmt(d, s, p) {
                Some(x) => x,
                None => return (acc, p),
            };
            let ghost a0 = acc;
            acc.push(st);
            proof {
                lemma_push_deep_view(a0, acc, st);
                assert(acc.deep_view() =~= seq![st.deep_view()]);
            }
            let mut q = q0;
            loop
                invariant
                    p <= q <= s.len(),
                    d == Dialect::Kon,
                    syntax::block_stmts(d, s@, p as int) == syntax::stmt_list_rest(
                        d,
                        s@,
                        q as int,
                        acc.deep_view(),
                    ),
                decreases s.len() - q,
            {
                match stmt(d, s, ws(s, q)) {
                    Some((st, q2)) => {
                        let ghost a1 = acc;
                        acc.push(st);
                        proof {
                            lemma_push_deep_view(a1, acc, st);
                        }
                        q = q2;
                    },
                    None => return (acc, q),
                }
            }
        },
        Dialect::Konc => {
            let mut q = p;
            loop
                invariant
                    p <= q <= s.len(),
                    d == Dialect::Konc,
                    syntax::block_stmts(d, s@, p as int) == syntax::stmt_star(
                        d,
                        s@,
                        q as int,
                        acc.deep_view(),
                    ),
                decreases s.len() - q,
            {
                match stmt(d, s, q) {
                    Some((st, q2)) => {
                        let ghost a1 = acc;
                        acc.push(st);
                        proof {
                            lemma_push_deep_view(a1, acc, st);
                        }
                        q = q2;
                    },
                    None => return (acc, q),
                }
            }
        },
    }
}

/// Implements `syntax::stmt`.
pub fn stmt(d: Dialect, s: &Vec<char>, p: usize) -> (r: Option<(Stmt, usize)>)
    requires
        p <= s.len(),
    ensures
        agrees(r, syntax::stmt(d, s@, p as int)),
        consumes(r, p, s.len() as int),
    decreases s.len() - p, 38nat,
{
    if let Some(r) = let_stmt(d, s, p) {
        return Some(r);
    }
    if let Dialect::Konc = d {
        if let Some(r) = return_stmt(d, s, p) {
            return Some(r);
        }
    }
    if let Some(r) = switch_stmt(d, s, p) {
        return Some(r);
    }
    expr_stmt(d, s, p)
}

pub fn let_stmt(d: Dialect, s: &Vec<char>, p: usize) -> (r: Option<(Stmt, usize)>)
    requires
        p <= s.len(),
    ensures
        agrees(r, syntax::let_stmt(d, s@, p as int)),
        consumes(r, p, s.len() as int),
    decreases s.len() - p, 37nat,
{
    if !at_lit(s, p, &['l', 'e', 't']) {
        return None;
    }
    let a = match ws1(s, p + 3) {
        Some(a) => a,
        None => return None,
    };
    let (n, b) = match name(d, s, a) {
        Some(x) => x,
        None => return None,
    };
    let c = ws(s, b);
    if !at_char(s, c, '=') {
        return None;
    }
    let (e, f) = match expr(d, s, ws(s, c + 1)) {
        Some(x) => x,
        None => return None,
    };
    let g = ws(s, f);
    if !at_char(s, g, ';') {
        return None;
    }
    Some((Stmt::Let(n, e), g + 1))
}

pub fn return_stmt(d: Dialect, s: &Vec<char>, p: usize) -> (r: Option<(Stmt, usize)>)
    requires
        p <= s.len(),
    ensures
        agrees(r, syntax::return_stmt(d, s@, p as int)),
        consumes(r, p, s.len() as int),
    decreases s.len() - p, 37nat,
{
    if !at_lit(s, p, &['r', 'e', 't', 'u', 'r', 'n']) {
        return None;
    }
    let a = ws(s, p + 6);
    let (value, b) = match expr(d, s, a) {
        Some((e, b)) => (Some(e), b),
        None => (None, a),
    };
    let c = ws(s, b);
    if !at_char(s, c, ';') {
        return None;
    }
    Some((Stmt::Return(value), c + 1))
}

pub fn switch_stmt(d: Dialect, s: &Vec<char>, p: usize) -> (r: Option<(Stmt, usize)>)
    requires
        p <= s.len(),
    ensures
        agrees(r, syntax::switch_stmt(d, s@, p as int)),
        consumes(r, p, s.len() as int),
    decreases s.len() - p, 37nat,
{
    let (e, q) = match switch_expr(d, s, p) {
        Some(x) => x,
        None => return None,
    };
    let w = ws(s, q);
    let end = if at_char(s, w, ';') {
        w + 1
    } else {
        w
    };
    Some((Stmt::Expr(e), end))
}

pub fn expr_stmt(d: Dialect, s: &Vec<char>, p: usize) -> (r: Option<(Stmt, usize)>)
    requires
        p <= s.len(),
    ensures
        agrees(r, syntax::expr_stmt(d, s@, p as int)),
        consumes(r, p, s.len() as int),
    decreases s.len() - p, 37nat,
{
    let (e, q) = match expr(d, s, p) {
        Some(x) => x,
        None => return None,
    };
    let w = ws(s, q);
    if !at_char(s, w, ';') {
        return None;
    }
    Some((Stmt::Expr(e), w + 1))
}

} // verus!
