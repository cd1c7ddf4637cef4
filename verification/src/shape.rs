//! What the expression grammar builds.
//!
//! Neither dialect ever builds a `Block` expression (the variant exists for the
//! users of the tree), the kon dialect never builds a `return` statement, a
//! statement list holds a `Tail` statement at most once and only as its last
//! statement, and every switch arm has at least one pattern. The predicates below
//! state this of a whole tree; the lemmas prove, rule by rule,
//! that every tree a rule of `syntax` gives satisfies them. Each lemma follows the
//! recursion of its rule and uses the same measure.
use vstd::prelude::*;
use crate::ast::{SpecExpr, SpecStmt, SpecStringPart, SpecStructInitializer, SpecSwitchArm};
use crate::syntax;
use crate::syntax::{adv, name, Dialect, SpecPostfixOp};
use crate::text::{char_at, lit_at, skip_ws, skip_ws1};

verus! {

broadcast use crate::text::group_text_bounds;

// ---------------------------------------------------------------------------
// Trees of a dialect
// ---------------------------------------------------------------------------

/// `e` holds no `Block` expression; in the kon dialect, no `return` statement;
/// every statement list in it is a `block_body`; every switch arm in it has a
/// pattern.
pub open spec fn dialect_expr(d: Dialect, e: SpecExpr) -> bool
    decreases e,
{
    match e {
        SpecExpr::Number(_) => true,
        SpecExpr::Ident(_) => true,
        SpecExpr::Str(parts) => dialect_parts(d, parts),
        SpecExpr::EnumVariant(_, _) => true,
        SpecExpr::DotVariant(_) => true,
        SpecExpr::Neg(x) => dialect_expr(d, *x),
        SpecExpr::Binary(x, _, y) => dialect_expr(d, *x) && dialect_expr(d, *y),
        SpecExpr::Call(f, args) => dialect_expr(d, *f) && dialect_exprs(d, args),
        SpecExpr::MethodCall(r, _, args) => dialect_expr(d, *r) && dialect_exprs(d, args),
        SpecExpr::Field(x, _) => dialect_expr(d, *x),
        SpecExpr::Index(x, i) => dialect_expr(d, *x) && dialect_expr(d, *i),
        SpecExpr::StructLit(_, fields) => dialect_inits(d, fields),
        SpecExpr::Switch(x, arms) => dialect_expr(d, *x) && dialect_arms(d, arms),
        SpecExpr::For { binders: _, iter, body } => dialect_expr(d, *iter) && dialect_stmts(
            d,
            body,
        ) && tail_last(body),
        SpecExpr::Block(_) => false,
    }
}

/// Every expression of `es` is one of the dialect.
pub open spec fn dialect_exprs(d: Dialect, es: Seq<SpecExpr>) -> bool
    decreases es,
{
    if es.len() == 0 {
        true
    } else {
        dialect_exprs(d, es.subrange(0, es.len() - 1)) && dialect_expr(d, es[es.len() - 1])
    }
}

pub open spec fn dialect_part(d: Dialect, p: SpecStringPart) -> bool
    decreases p,
{
    match p {
        SpecStringPart::Literal(_) => true,
        SpecStringPart::Interp { expr, format: _ } => dialect_expr(d, *expr),
    }
}

pub open spec fn dialect_parts(d: Dialect, ps: Seq<SpecStringPart>) -> bool
    decreases ps,
{
    if ps.len() == 0 {
        true
    } else {
        dialect_parts(d, ps.subrange(0, ps.len() - 1)) && dialect_part(d, ps[ps.len() - 1])
    }
}

pub open spec fn dialect_inits(d: Dialect, fs: Seq<SpecStructInitializer>) -> bool
    decreases fs,
{
    if fs.len() == 0 {
        true
    } else {
        dialect_inits(d, fs.subrange(0, fs.len() - 1)) && dialect_expr(d, fs[fs.len() - 1].value)
    }
}

pub open spec fn dialect_arm(d: Dialect, a: SpecSwitchArm) -> bool
    decreases a,
{
    a.patterns.len() >= 1 && dialect_exprs(d, a.patterns) && dialect_expr(d, a.body)
}

pub open spec fn dialect_arms(d: Dialect, arms: Seq<SpecSwitchArm>) -> bool
    decreases arms,
{
    if arms.len() == 0 {
        true
    } else {
        dialect_arms(d, arms.subrange(0, arms.len() - 1)) && dialect_arm(d, arms[arms.len() - 1])
    }
}

/// A statement of the dialect: `return` belongs to konc alone.
pub open spec fn dialect_stmt(d: Dialect, st: SpecStmt) -> bool
    decreases st,
{
    match st {
        SpecStmt::Let(_, e) => dialect_expr(d, e),
        SpecStmt::Expr(e) => dialect_expr(d, e),
        SpecStmt::Tail(e) => dialect_expr(d, e),
        SpecStmt::Return(value) => d is Konc && match value {
            Some(e) => dialect_expr(d, e),
            None => true,
        },
    }
}

pub open spec fn dialect_stmts(d: Dialect, sts: Seq<SpecStmt>) -> bool
    decreases sts,
{
    if sts.len() == 0 {
        true
    } else {
        dialect_stmts(d, sts.subrange(0, sts.len() - 1)) && dialect_stmt(d, sts[sts.len() - 1])
    }
}

// ---------------------------------------------------------------------------
// Growing sequences of trees
// ---------------------------------------------------------------------------

pub proof fn lemma_exprs_push(d: Dialect, acc: Seq<SpecExpr>, e: SpecExpr)
    requires
        dialect_exprs(d, acc),
        dialect_expr(d, e),
    ensures
        dialect_exprs(d, acc.push(e)),
{
    assert(acc.push(e).subrange(0, acc.len() as int) =~= acc);
}

pub proof fn lemma_parts_push(d: Dialect, acc: Seq<SpecStringPart>, part: SpecStringPart)
    requires
        dialect_parts(d, acc),
        dialect_part(d, part),
    ensures
        dialect_parts(d, acc.push(part)),
{
    assert(acc.push(part).subrange(0, acc.len() as int) =~= acc);
}

pub proof fn lemma_inits_push(d: Dialect, acc: Seq<SpecStructInitializer>, f: SpecStructInitializer)
    requires
        dialect_inits(d, acc),
        dialect_expr(d, f.value),
    ensures
        dialect_inits(d, acc.push(f)),
{
    assert(acc.push(f).subrange(0, acc.len() as int) =~= acc);
}

pub proof fn lemma_arms_push(d: Dialect, acc: Seq<SpecSwitchArm>, a: SpecSwitchArm)
    requires
        dialect_arms(d, acc),
        dialect_arm(d, a),
    ensures
        dialect_arms(d, acc.push(a)),
{
    assert(acc.push(a).subrange(0, acc.len() as int) =~= acc);
}

pub proof fn lemma_stmts_push(d: Dialect, acc: Seq<SpecStmt>, st: SpecStmt)
    requires
        dialect_stmts(d, acc),
        dialect_stmt(d, st),
    ensures
        dialect_stmts(d, acc.push(st)),
{
    assert(acc.push(st).subrange(0, acc.len() as int) =~= acc);
}

/// The parts of `a` followed by those of `b`.
pub proof fn lemma_parts_concat(d: Dialect, a: Seq<SpecStringPart>, b: Seq<SpecStringPart>)
    requires
        dialect_parts(d, a),
        dialect_parts(d, b),
    ensures
        dialect_parts(d, a + b),
    decreases b.len(),
{
    if b.len() == 0 {
        assert(a + b =~= a);
    } else {
        let b0 = b.subrange(0, b.len() - 1);
        lemma_parts_concat(d, a, b0);
        assert((a + b).subrange(0, (a + b).len() - 1) =~= a + b0);
        assert((a + b)[(a + b).len() - 1] == b[b.len() - 1]);
    }
}

/// No statement but the last one is a `Tail` statement.
pub open spec fn tail_last(sts: Seq<SpecStmt>) -> bool {
    forall|i: int| 0 <= i < sts.len() - 1 ==> !(#[trigger] sts[i] is Tail)
}

/// No statement is a `Tail` statement.
pub open spec fn no_tail(sts: Seq<SpecStmt>) -> bool {
    forall|i: int| 0 <= i < sts.len() ==> !(#[trigger] sts[i] is Tail)
}

/// The statements of a block: statements of the dialect, of which only the last
/// may be a `Tail` statement.
pub open spec fn block_body(d: Dialect, sts: Seq<SpecStmt>) -> bool {
    dialect_stmts(d, sts) && tail_last(sts)
}

pub proof fn lemma_no_tail_push(acc: Seq<SpecStmt>, st: SpecStmt)
    requires
        no_tail(acc),
        !(st is Tail),
    ensures
        no_tail(acc.push(st)),
{
    assert forall|i: int| 0 <= i < acc.push(st).len() implies !(#[trigger] acc.push(st)[i] is Tail) by {
        if i < acc.len() {
            assert(acc.push(st)[i] == acc[i]);
        }
    }
}

pub open spec fn dialect_op(d: Dialect, op: SpecPostfixOp) -> bool {
    match op {
        SpecPostfixOp::MethodCall(_, args) => dialect_exprs(d, args),
        SpecPostfixOp::Field(_) => true,
        SpecPostfixOp::Call(args) => dialect_exprs(d, args),
        SpecPostfixOp::Index(i) => dialect_expr(d, i),
    }
}

// ---------------------------------------------------------------------------
// Expressions
// ---------------------------------------------------------------------------

pub proof fn lemma_expr(d: Dialect, s: Seq<char>, p: int)
    ensures
        syntax::expr(d, s, p) matches Some((e, _)) ==> dialect_expr(d, e),
    decreases s.len() - p, 26nat,
{
    lemma_infix(d, s, 0, p);
}

pub proof fn lemma_infix(d: Dialect, s: Seq<char>, min: int, p: int)
    ensures
        syntax::infix(d, s, min, p) matches Some((e, _)) ==> dialect_expr(d, e),
    decreases s.len() - p, 25nat,
{
    lemma_prefix_atom(d, s, p);
    if let Some((e, q)) = syntax::prefix_atom(d, s, p) {
        if adv(s, p, q) {
            lemma_infix_loop(d, s, min, q, e);
        }
    }
}

pub proof fn lemma_infix_loop(d: Dialect, s: Seq<char>, min: int, q: int, acc: SpecExpr)
    requires
        dialect_expr(d, acc),
    ensures
        dialect_expr(d, syntax::infix_loop(d, s, min, q, acc).0),
    decreases s.len() - q, 24nat,
{
    lemma_infix_step(d, s, min, q);
    if let Some((op, y, q2)) = syntax::infix_step(d, s, min, q) {
        if q < q2 <= s.len() {
            lemma_infix_loop(d, s, min, q2, SpecExpr::Binary(Box::new(acc), op, Box::new(y)));
        }
    }
}

pub proof fn lemma_infix_step(d: Dialect, s: Seq<char>, min: int, q: int)
    ensures
        syntax::infix_step(d, s, min, q) matches Some((_, y, _)) ==> dialect_expr(d, y),
    decreases s.len() - q, 23nat,
{
    lemma_infix_op(d, s, q, '+', crate::ast::BinOp::Add, 1);
    lemma_infix_op(d, s, q, '-', crate::ast::BinOp::Sub, 1);
    lemma_infix_op(d, s, q, '*', crate::ast::BinOp::Mul, 2);
    lemma_infix_op(d, s, q, '/', crate::ast::BinOp::Div, 2);
}

pub proof fn lemma_infix_op(
    d: Dialect,
    s: Seq<char>,
    q: int,
    c: char,
    op: crate::ast::BinOp,
    next: int,
)
    ensures
        syntax::infix_op(d, s, q, c, op, next) matches Some((_, y, _)) ==> dialect_expr(d, y),
    decreases s.len() - q, 22nat,
{
    let w = skip_ws(s, q);
    if char_at(s, w, c) {
        lemma_infix(d, s, next, skip_ws(s, w + 1));
    }
}

pub proof fn lemma_prefix_atom(d: Dialect, s: Seq<char>, p: int)
    ensures
        syntax::prefix_atom(d, s, p) matches Some((e, _)) ==> dialect_expr(d, e),
    decreases s.len() - p, 21nat,
{
    if char_at(s, p, '-') {
        lemma_infix(d, s, 3, p + 1);
    }
    lemma_postfix(d, s, p);
}

pub proof fn lemma_postfix(d: Dialect, s: Seq<char>, p: int)
    ensures
        syntax::postfix(d, s, p) matches Some((e, _)) ==> dialect_expr(d, e),
    decreases s.len() - p, 20nat,
{
    lemma_primary(d, s, p);
    if let Some((b, q)) = syntax::primary(d, s, p) {
        if adv(s, p, q) {
            lemma_postfix_ops(d, s, q, b);
        }
    }
}

pub proof fn lemma_postfix_ops(d: Dialect, s: Seq<char>, q: int, acc: SpecExpr)
    requires
        dialect_expr(d, acc),
    ensures
        dialect_expr(d, syntax::postfix_ops(d, s, q, acc).0),
    decreases s.len() - q, 19nat,
{
    lemma_postfix_op(d, s, q);
    if let Some((op, q2)) = syntax::postfix_op(d, s, q) {
        if q < q2 <= s.len() {
            lemma_postfix_ops(d, s, q2, syntax::apply_postfix(acc, op));
        }
    }
}

/// The four postfix operations of `syntax::postfix_op`.
#[verifier::spinoff_prover]
#[verifier::rlimit(40)]
pub proof fn lemma_postfix_op(d: Dialect, s: Seq<char>, q: int)
    ensures
        syntax::postfix_op(d, s, q) matches Some((op, _)) ==> dialect_op(d, op),
    decreases s.len() - q, 18nat,
{
    let w = skip_ws(s, q);
    if char_at(s, w, '.') {
        if let Some((m, a)) = name(d, s, w + 1) {
            let b = skip_ws(s, a);
            if char_at(s, b, '(') {
                lemma_expr_list(d, s, skip_ws(s, b + 1));
            }
        }
    }
    if char_at(s, w, '(') {
        lemma_expr_list(d, s, skip_ws(s, w + 1));
    }
    if char_at(s, w, '[') {
        lemma_expr(d, s, skip_ws(s, w + 1));
    }
}

pub proof fn lemma_expr_list(d: Dialect, s: Seq<char>, p: int)
    ensures
        dialect_exprs(d, syntax::expr_list(d, s, p).0),
    decreases s.len() - p, 28nat,
{
    lemma_expr(d, s, p);
    if let Some((e, q)) = syntax::expr(d, s, p) {
        if adv(s, p, q) {
            lemma_exprs_push(d, seq![], e);
            assert(seq![e] =~= Seq::<SpecExpr>::empty().push(e));
            lemma_expr_list_rest(d, s, q, seq![e]);
        }
    }
}

pub proof fn lemma_expr_list_rest(d: Dialect, s: Seq<char>, q: int, acc: Seq<SpecExpr>)
    requires
        dialect_exprs(d, acc),
    ensures
        dialect_exprs(d, syntax::expr_list_rest(d, s, q, acc).0),
    decreases s.len() - q, 27nat,
{
    let w = skip_ws(s, q);
    if char_at(s, w, ',') {
        let w2 = skip_ws(s, w + 1);
        lemma_expr(d, s, w2);
        if let Some((e, q2)) = syntax::expr(d, s, w2) {
            if adv(s, w2, q2) {
                lemma_exprs_push(d, acc, e);
                lemma_expr_list_rest(d, s, q2, acc.push(e));
            }
        }
    }
}

pub proof fn lemma_primary(d: Dialect, s: Seq<char>, p: int)
    ensures
        syntax::primary(d, s, p) matches Some((e, _)) ==> dialect_expr(d, e),
    decreases s.len() - p, 16nat,
{
    lemma_switch_expr(d, s, p);
    lemma_for_expr(d, s, p);
    lemma_struct_lit(d, s, p);
    lemma_string_expr(d, s, p);
    lemma_paren(d, s, p);
}

pub proof fn lemma_paren(d: Dialect, s: Seq<char>, p: int)
    ensures
        syntax::paren(d, s, p) matches Some((e, _)) ==> dialect_expr(d, e),
    decreases s.len() - p, 15nat,
{
    if char_at(s, p, '(') {
        lemma_expr(d, s, skip_ws(s, p + 1));
    }
}

// ---------------------------------------------------------------------------
// Struct literals, switch and for
// ---------------------------------------------------------------------------

#[verifier::spinoff_prover]
#[verifier::rlimit(40)]
pub proof fn lemma_struct_lit(d: Dialect, s: Seq<char>, p: int)
    ensures
        syntax::struct_lit(d, s, p) matches Some((e, _)) ==> dialect_expr(d, e),
    decreases s.len() - p, 15nat,
{
    if let Some((n, a)) = name(d, s, p) {
        let b = skip_ws(s, a);
        if char_at(s, b, '{') {
            lemma_struct_fields(d, s, skip_ws(s, b + 1));
        }
    }
}

pub proof fn lemma_struct_fields(d: Dialect, s: Seq<char>, p: int)
    ensures
        dialect_inits(d, syntax::struct_fields(d, s, p).0),
    decreases s.len() - p, 31nat,
{
    lemma_struct_field(d, s, p);
    if let Some((f, q)) = syntax::struct_field(d, s, p) {
        if adv(s, p, q) {
            lemma_inits_push(d, seq![], f);
            assert(seq![f] =~= Seq::<SpecStructInitializer>::empty().push(f));
            lemma_struct_fields_rest(d, s, q, seq![f]);
        }
    }
}

pub proof fn lemma_struct_fields_rest(
    d: Dialect,
    s: Seq<char>,
    q: int,
    acc: Seq<SpecStructInitializer>,
)
    requires
        dialect_inits(d, acc),
    ensures
        dialect_inits(d, syntax::struct_fields_rest(d, s, q, acc).0),
    decreases s.len() - q, 30nat,
{
    let w = skip_ws(s, q);
    if char_at(s, w, ',') {
        let w2 = skip_ws(s, w + 1);
        lemma_struct_field(d, s, w2);
        if let Some((f, q2)) = syntax::struct_field(d, s, w2) {
            if adv(s, w2, q2) {
                lemma_inits_push(d, acc, f);
                lemma_struct_fields_rest(d, s, q2, acc.push(f));
            }
        }
    }
}

pub proof fn lemma_struct_field(d: Dialect, s: Seq<char>, p: int)
    ensures
        syntax::struct_field(d, s, p) matches Some((f, _)) ==> dialect_expr(d, f.value),
    decreases s.len() - p, 29nat,
{
    if let Some((n, a)) = name(d, s, p) {
        let b = skip_ws(s, a);
        if char_at(s, b, ':') {
            lemma_expr(d, s, skip_ws(s, b + 1));
        }
    }
}

#[verifier::spinoff_prover]
#[verifier::rlimit(40)]
pub proof fn lemma_switch_expr(d: Dialect, s: Seq<char>, p: int)
    ensures
        syntax::switch_expr(d, s, p) matches Some((e, _)) ==> dialect_expr(d, e),
    decreases s.len() - p, 15nat,
{
    if lit_at(s, p, seq!['s', 'w', 'i', 't', 'c', 'h']) {
        let a = skip_ws(s, p + 6);
        if char_at(s, a, '(') {
            let b = skip_ws(s, a + 1);
            lemma_expr(d, s, b);
            if let Some((subject, c)) = syntax::expr(d, s, b) {
                if adv(s, b, c) {
                    let e = skip_ws(s, c);
                    if char_at(s, e, ')') {
                        let f = skip_ws(s, e + 1);
                        if char_at(s, f, '{') {
                            lemma_switch_arms(d, s, skip_ws(s, f + 1));
                        }
                    }
                }
            }
        }
    }
}

pub proof fn lemma_switch_arms(d: Dialect, s: Seq<char>, p: int)
    ensures
        dialect_arms(d, syntax::switch_arms(d, s, p).0),
    decreases s.len() - p, 36nat,
{
    lemma_switch_arm(d, s, p);
    if let Some((a, q)) = syntax::switch_arm(d, s, p) {
        if adv(s, p, q) {
            lemma_arms_push(d, seq![], a);
            assert(seq![a] =~= Seq::<SpecSwitchArm>::empty().push(a));
            lemma_switch_arms_rest(d, s, q, seq![a]);
        }
    }
}

pub proof fn lemma_switch_arms_rest(d: Dialect, s: Seq<char>, q: int, acc: Seq<SpecSwitchArm>)
    requires
        dialect_arms(d, acc),
    ensures
        dialect_arms(d, syntax::switch_arms_rest(d, s, q, acc).0),
    decreases s.len() - q, 35nat,
{
    let w = skip_ws(s, q);
    if char_at(s, w, ',') {
        let w2 = skip_ws(s, w + 1);
        lemma_switch_arm(d, s, w2);
        if let Some((a, q2)) = syntax::switch_arm(d, s, w2) {
            if adv(s, w2, q2) {
                lemma_arms_push(d, acc, a);
                lemma_switch_arms_rest(d, s, q2, acc.push(a));
            }
        }
    }
}

#[verifier::spinoff_prover]
#[verifier::rlimit(80)]
pub proof fn lemma_switch_arm(d: Dialect, s: Seq<char>, p: int)
    ensures
        syntax::switch_arm(d, s, p) matches Some((a, _)) ==> dialect_arm(d, a),
    decreases s.len() - p, 34nat,
{
    lemma_switch_pattern(d, s, p);
    if let Some((pat, q)) = syntax::switch_pattern(d, s, p) {
        if adv(s, p, q) {
            lemma_exprs_push(d, seq![], pat);
            assert(seq![pat] =~= Seq::<SpecExpr>::empty().push(pat));
            lemma_patterns_rest(d, s, q, seq![pat]);
            let (pats, r) = syntax::patterns_rest(d, s, q, seq![pat]);
            assert(pats.len() >= 1 && dialect_exprs(d, pats));
            if adv(s, q, r) {
                let w = skip_ws(s, r);
                if lit_at(s, w, seq!['=', '>']) {
                    let b0 = skip_ws(s, w + 2);
                    lemma_expr(d, s, b0);
                    if let Some((b, e)) = syntax::expr(d, s, b0) {
                        assert(dialect_arm(d, SpecSwitchArm { patterns: pats, body: b }));
                    }
                }
            }
        }
    }
}

pub proof fn lemma_patterns_rest(d: Dialect, s: Seq<char>, q: int, acc: Seq<SpecExpr>)
    requires
        dialect_exprs(d, acc),
    ensures
        dialect_exprs(d, syntax::patterns_rest(d, s, q, acc).0),
        syntax::patterns_rest(d, s, q, acc).0.len() >= acc.len(),
    decreases s.len() - q, 33nat,
{
    let w = skip_ws(s, q);
    if char_at(s, w, '|') {
        let w2 = skip_ws(s, w + 1);
        lemma_switch_pattern(d, s, w2);
        if let Some((pat, q2)) = syntax::switch_pattern(d, s, w2) {
            if adv(s, w2, q2) {
                lemma_exprs_push(d, acc, pat);
                lemma_patterns_rest(d, s, q2, acc.push(pat));
            }
        }
    }
}

pub proof fn lemma_switch_pattern(d: Dialect, s: Seq<char>, p: int)
    ensures
        syntax::switch_pattern(d, s, p) matches Some((e, _)) ==> dialect_expr(d, e),
    decreases s.len() - p, 32nat,
{
    lemma_expr(d, s, p);
}

#[verifier::spinoff_prover]
#[verifier::rlimit(40)]
pub proof fn lemma_for_expr(d: Dialect, s: Seq<char>, p: int)
    ensures
        syntax::for_expr(d, s, p) matches Some((e, _)) ==> dialect_expr(d, e),
    decreases s.len() - p, 15nat,
{
    if lit_at(s, p, seq!['f', 'o', 'r']) {
        if let Some(a) = skip_ws1(s, p + 3) {
            syntax::lemma_name_list(d, s, a);
            let (binders, b) = syntax::name_list(d, s, a);
            if let Some(c) = skip_ws1(s, b) {
                if lit_at(s, c, seq!['i', 'n']) {
                    if let Some(e) = skip_ws1(s, c + 2) {
                        lemma_expr(d, s, e);
                        if let Some((it, f)) = syntax::expr(d, s, e) {
                            if adv(s, e, f) {
                                lemma_block(d, s, skip_ws(s, f));
                            }
                        }
                    }
                }
            }
        }
    }
}

// ---------------------------------------------------------------------------
// Strings
// ---------------------------------------------------------------------------

pub proof fn lemma_string_expr(d: Dialect, s: Seq<char>, p: int)
    ensures
        syntax::string_expr(d, s, p) matches Some((e, _)) ==> dialect_expr(d, e),
    decreases s.len() - p, 15nat,
{
    lemma_multiline_string(d, s, p);
    lemma_quoted_string(d, s, p);
}

pub proof fn lemma_quoted_string(d: Dialect, s: Seq<char>, p: int)
    ensures
        syntax::quoted_string(d, s, p) matches Some((e, _)) ==> dialect_expr(d, e),
    decreases s.len() - p, 14nat,
{
    if char_at(s, p, '"') {
        lemma_string_parts(d, s, p + 1, seq![]);
    }
}

pub proof fn lemma_string_parts(d: Dialect, s: Seq<char>, q: int, acc: Seq<SpecStringPart>)
    requires
        dialect_parts(d, acc),
    ensures
        dialect_parts(d, syntax::string_parts(d, s, q, acc).0),
    decreases s.len() - q, 11nat,
{
    lemma_string_part(d, s, q);
    if let Some((part, q2)) = syntax::string_part(d, s, q) {
        if q < q2 <= s.len() {
            lemma_parts_push(d, acc, part);
            lemma_string_parts(d, s, q2, acc.push(part));
        }
    }
}

pub proof fn lemma_string_part(d: Dialect, s: Seq<char>, p: int)
    ensures
        syntax::string_part(d, s, p) matches Some((part, _)) ==> dialect_part(d, part),
    decreases s.len() - p, 10nat,
{
    lemma_interp(d, s, p);
}

pub proof fn lemma_interp(d: Dialect, s: Seq<char>, p: int)
    ensures
        syntax::interp(d, s, p) matches Some((part, _)) ==> dialect_part(d, part),
    decreases s.len() - p, 9nat,
{
    if lit_at(s, p, seq!['\\', '(']) {
        lemma_expr(d, s, skip_ws(s, p + 2));
    }
}

pub proof fn lemma_multiline_string(d: Dialect, s: Seq<char>, p: int)
    ensures
        syntax::multiline_string(d, s, p) matches Some((e, _)) ==> dialect_expr(d, e),
    decreases s.len() - p, 14nat,
{
    lemma_multiline_line(d, s, p);
    if let Some((parts, q)) = syntax::multiline_line(d, s, p) {
        if adv(s, p, q) {
            lemma_multiline_rest(d, s, q, parts);
        }
    }
}

pub proof fn lemma_multiline_rest(d: Dialect, s: Seq<char>, q: int, acc: Seq<SpecStringPart>)
    requires
        dialect_parts(d, acc),
    ensures
        dialect_parts(d, syntax::multiline_rest(d, s, q, acc).0),
    decreases s.len() - q, 13nat,
{
    lemma_multiline_line(d, s, skip_ws(s, q));
    if let Some((line, q2)) = syntax::multiline_line(d, s, skip_ws(s, q)) {
        if q < q2 <= s.len() {
            let next = acc.push(SpecStringPart::Literal(seq!['\n'])) + line;
            lemma_join_lines(d, acc, line);
            lemma_multiline_rest(d, s, q2, next);
        }
    }
}

/// Joining the parts of two lines with a newline literal keeps them parts of the
/// dialect.
pub proof fn lemma_join_lines(d: Dialect, acc: Seq<SpecStringPart>, line: Seq<SpecStringPart>)
    requires
        dialect_parts(d, acc),
        dialect_parts(d, line),
    ensures
        dialect_parts(d, acc.push(SpecStringPart::Literal(seq!['\n'])) + line),
{
    lemma_parts_push(d, acc, SpecStringPart::Literal(seq!['\n']));
    lemma_parts_concat(d, acc.push(SpecStringPart::Literal(seq!['\n'])), line);
}

pub proof fn lemma_multiline_line(d: Dialect, s: Seq<char>, p: int)
    ensures
        syntax::multiline_line(d, s, p) matches Some((parts, _)) ==> dialect_parts(d, parts),
    decreases s.len() - p, 12nat,
{
    if lit_at(s, p, seq!['\\', '\\']) {
        lemma_multiline_parts(d, s, p + 2, seq![]);
    }
}

pub proof fn lemma_multiline_parts(d: Dialect, s: Seq<char>, q: int, acc: Seq<SpecStringPart>)
    requires
        dialect_parts(d, acc),
    ensures
        dialect_parts(d, syntax::multiline_parts(d, s, q, acc).0),
    decreases s.len() - q, 11nat,
{
    lemma_multiline_part(d, s, q);
    if let Some((part, q2)) = syntax::multiline_part(d, s, q) {
        if q < q2 <= s.len() {
            lemma_parts_push(d, acc, part);
            lemma_multiline_parts(d, s, q2, acc.push(part));
        }
    }
}

pub proof fn lemma_multiline_part(d: Dialect, s: Seq<char>, p: int)
    ensures
        syntax::multiline_part(d, s, p) matches Some((part, _)) ==> dialect_part(d, part),
    decreases s.len() - p, 10nat,
{
    lemma_interp(d, s, p);
}

// ---------------------------------------------------------------------------
// Blocks and statements
// ---------------------------------------------------------------------------

#[verifier::spinoff_prover]
#[verifier::rlimit(40)]
pub proof fn lemma_block(d: Dialect, s: Seq<char>, p: int)
    ensures
        syntax::block(d, s, p) matches Some((stmts, _)) ==> block_body(d, stmts),
    decreases s.len() - p, 15nat,
{
    if char_at(s, p, '{') {
        let a = skip_ws(s, p + 1);
        lemma_block_stmts(d, s, a);
        let (stmts, b) = syntax::block_stmts(d, s, a);
        if adv(s, a, b) {
            let c = skip_ws(s, b);
            lemma_expr(d, s, c);
            if let Some((e, t)) = syntax::expr(d, s, c) {
                lemma_stmts_push(d, stmts, SpecStmt::Tail(e));
                let all = stmts.push(SpecStmt::Tail(e));
                assert forall|i: int| 0 <= i < all.len() - 1 implies !(#[trigger] all[i] is Tail) by {
                    assert(all[i] == stmts[i]);
                }
            }
        }
    }
}

pub proof fn lemma_block_stmts(d: Dialect, s: Seq<char>, p: int)
    ensures
        dialect_stmts(d, syntax::block_stmts(d, s, p).0),
        no_tail(syntax::block_stmts(d, s, p).0),
    decreases s.len() - p, 42nat,
{
    match d {
        Dialect::Kon => lemma_stmt_list(d, s, p),
        Dialect::Konc => {
            lemma_stmt_star(d, s, p, seq![]);
        },
    }
}

pub proof fn lemma_stmt_list(d: Dialect, s: Seq<char>, p: int)
    ensures
        dialect_stmts(d, syntax::stmt_list(d, s, p).0),
        no_tail(syntax::stmt_list(d, s, p).0),
    decreases s.len() - p, 41nat,
{
    lemma_stmt(d, s, p);
    if let Some((st, q)) = syntax::stmt(d, s, p) {
        if adv(s, p, q) {
            lemma_stmts_push(d, seq![], st);
            lemma_no_tail_push(seq![], st);
            assert(seq![st] =~= Seq::<SpecStmt>::empty().push(st));
            lemma_stmt_list_rest(d, s, q, seq![st]);
        }
    }
}

pub proof fn lemma_stmt_list_rest(d: Dialect, s: Seq<char>, q: int, acc: Seq<SpecStmt>)
    requires
        dialect_stmts(d, acc),
        no_tail(acc),
    ensures
        dialect_stmts(d, syntax::stmt_list_rest(d, s, q, acc).0),
        no_tail(syntax::stmt_list_rest(d, s, q, acc).0),
    decreases s.len() - q, 40nat,
{
    lemma_stmt(d, s, skip_ws(s, q));
    if let Some((st, q2)) = syntax::stmt(d, s, skip_ws(s, q)) {
        if q < q2 <= s.len() {
            lemma_stmts_push(d, acc, st);
            lemma_no_tail_push(acc, st);
            lemma_stmt_list_rest(d, s, q2, acc.push(st));
        }
    }
}

pub proof fn lemma_stmt_star(d: Dialect, s: Seq<char>, q: int, acc: Seq<SpecStmt>)
    requires
        dialect_stmts(d, acc),
        no_tail(acc),
    ensures
        dialect_stmts(d, syntax::stmt_star(d, s, q, acc).0),
        no_tail(syntax::stmt_star(d, s, q, acc).0),
    decreases s.len() - q, 40nat,
{
    lemma_stmt(d, s, q);
    if let Some((st, q2)) = syntax::stmt(d, s, q) {
        if q < q2 <= s.len() {
            lemma_stmts_push(d, acc, st);
            lemma_no_tail_push(acc, st);
            lemma_stmt_star(d, s, q2, acc.push(st));
        }
    }
}

/// The `let`, `return`, switch and expression statements of `syntax::stmt`.
pub proof fn lemma_stmt(d: Dialect, s: Seq<char>, p: int)
    ensures
        syntax::stmt(d, s, p) matches Some((st, _)) ==> dialect_stmt(d, st) && !(st is Tail),
    decreases s.len() - p, 38nat,
{
    lemma_let_stmt(d, s, p);
    lemma_return_stmt(d, s, p);
    lemma_switch_stmt(d, s, p);
    lemma_expr_stmt(d, s, p);
}

#[verifier::spinoff_prover]
#[verifier::rlimit(40)]
pub proof fn lemma_let_stmt(d: Dialect, s: Seq<char>, p: int)
    ensures
        syntax::let_stmt(d, s, p) matches Some((st, _)) ==> dialect_stmt(d, st),
    decreases s.len() - p, 37nat,
{
    if lit_at(s, p, seq!['l', 'e', 't']) {
        if let Some(a) = skip_ws1(s, p + 3) {
            if let Some((n, b)) = name(d, s, a) {
                let c = skip_ws(s, b);
                if char_at(s, c, '=') {
                    lemma_expr(d, s, skip_ws(s, c + 1));
                }
            }
        }
    }
}

#[verifier::spinoff_prover]
#[verifier::rlimit(40)]
pub proof fn lemma_return_stmt(d: Dialect, s: Seq<char>, p: int)
    ensures
        syntax::return_stmt(d, s, p) matches Some((st, _)) ==> (d is Konc ==> dialect_stmt(d, st)),
    decreases s.len() - p, 37nat,
{
    if lit_at(s, p, seq!['r', 'e', 't', 'u', 'r', 'n']) {
        let a = skip_ws(s, p + 6);
        lemma_expr(d, s, a);
        if let Some((e, b)) = syntax::expr(d, s, a) {
            assert(d is Konc ==> dialect_stmt(d, SpecStmt::Return(Some(e))));
        } else {
            assert(d is Konc ==> dialect_stmt(d, SpecStmt::Return(None)));
        }
    }
}

pub proof fn lemma_switch_stmt(d: Dialect, s: Seq<char>, p: int)
    ensures
        syntax::switch_stmt(d, s, p) matches Some((st, _)) ==> dialect_stmt(d, st),
    decreases s.len() - p, 37nat,
{
    lemma_switch_expr(d, s, p);
}

pub proof fn lemma_expr_stmt(d: Dialect, s: Seq<char>, p: int)
    ensures
        syntax::expr_stmt(d, s, p) matches Some((st, _)) ==> dialect_stmt(d, st),
    decreases s.len() - p, 37nat,
{
    lemma_expr(d, s, p);
}

} // verus!
