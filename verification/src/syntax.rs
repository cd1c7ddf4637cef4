//! The grammar of expressions, strings, blocks and statements, stated as spec
//! functions.
//!
//! Each rule is a function of the text `s` and a start position `p`. It gives
//! `None` when the rule does not match there, and otherwise the model of what it
//! matched together with the position right after the match. The rules follow
//! parsing expression grammar semantics: `a / b` tries `b` only when `a` fails,
//! repetitions are greedy, and nothing is retried once an alternative has matched.
//!
//! The same rules serve both dialects; `Dialect` selects the three places where
//! they differ (reserved words, the `return` statement and how the statements of a
//! block are separated).
//!
//! Each recursive rule is ranked; a rule calls another at its own start position
//! only when the callee has a lower rank, and otherwise at a later position. Where
//! a later position comes from the result of another recursive rule, the rule
//! checks that this result did not move backwards (`adv`), and repetitions stop on
//! a step that would not move forward; the executable parser proves that these
//! checks always pass.
use vstd::prelude::*;
use crate::ast::{BinOp, SpecExpr, SpecStmt, SpecStringPart, SpecStructInitializer, SpecSwitchArm};
use crate::text::{char_at, ident, lit_at, number, skip_ws, skip_ws1, text_run, until_char};

verus! {

broadcast use crate::text::group_text_bounds;

/// The two grammars of the language: `Kon` is the grammar of the kon-parser
/// library, `Konc` the one of the konc compiler.
#[derive(Debug, Clone, Copy, PartialEq, Eq, Structural)]
pub enum Dialect {
    Kon,
    Konc,
}

/// In the konc grammar reserved words are not identifiers.
pub open spec fn reserved(d: Dialect) -> bool {
    d is Konc
}

/// An identifier of the dialect.
pub open spec fn name(d: Dialect, s: Seq<char>, p: int) -> Option<(Seq<char>, int)> {
    ident(s, p, reserved(d))
}

/// `q` lies between `p` and the end of the text.
pub open spec fn adv(s: Seq<char>, p: int, q: int) -> bool {
    p <= q <= s.len()
}

/// The first of two alternatives that matches.
pub open spec fn either<T>(a: Option<T>, b: Option<T>) -> Option<T> {
    if a is Some {
        a
    } else {
        b
    }
}

/// The `_ ","? _` that may end a list before its closing bracket.
pub open spec fn trailing_comma(s: Seq<char>, p: int) -> int {
    let w = skip_ws(s, p);
    skip_ws(s, if char_at(s, w, ',') { w + 1 } else { w })
}

// ---------------------------------------------------------------------------
// Identifier lists: `ident ** (_ "," _)`
// ---------------------------------------------------------------------------

pub open spec fn name_list(d: Dialect, s: Seq<char>, p: int) -> (Seq<Seq<char>>, int) {
    match name(d, s, p) {
        Some((n, q)) => name_list_rest(d, s, q, seq![n]),
        None => (seq![], p),
    }
}

pub open spec fn name_list_rest(d: Dialect, s: Seq<char>, q: int, acc: Seq<Seq<char>>) -> (
    Seq<Seq<char>>,
    int,
)
    decreases s.len() - q,
{
    let w = skip_ws(s, q);
    if char_at(s, w, ',') {
        match name(d, s, skip_ws(s, w + 1)) {
            Some((n, q2)) => name_list_rest(d, s, q2, acc.push(n)),
            None => (acc, q),
        }
    } else {
        (acc, q)
    }
}

pub broadcast proof fn lemma_name_list_rest(
    d: Dialect,
    s: Seq<char>,
    q: int,
    acc: Seq<Seq<char>>,
)
    ensures
        q <= (#[trigger] name_list_rest(d, s, q, acc)).1,
        q <= s.len() ==> name_list_rest(d, s, q, acc).1 <= s.len(),
    decreases s.len() - q,
{
    let w = skip_ws(s, q);
    if char_at(s, w, ',') {
        if let Some((n, q2)) = name(d, s, skip_ws(s, w + 1)) {
            lemma_name_list_rest(d, s, q2, acc.push(n));
        }
    }
}

pub broadcast proof fn lemma_name_list(d: Dialect, s: Seq<char>, p: int)
    ensures
        p <= (#[trigger] name_list(d, s, p)).1,
        p <= s.len() ==> name_list(d, s, p).1 <= s.len(),
{
    if let Some((n, q)) = name(d, s, p) {
        lemma_name_list_rest(d, s, q, seq![n]);
    }
}


// ---------------------------------------------------------------------------
// Enum variant lists: `("." ident()) ** (_ "," _)`
// ---------------------------------------------------------------------------

/// `"." v:ident()`: an enum variant name.
pub open spec fn variant(d: Dialect, s: Seq<char>, p: int) -> Option<(Seq<char>, int)> {
    if char_at(s, p, '.') {
        name(d, s, p + 1)
    } else {
        None
    }
}

pub open spec fn variant_list(d: Dialect, s: Seq<char>, p: int) -> (Seq<Seq<char>>, int) {
    match variant(d, s, p) {
        Some((v, q)) => variant_list_rest(d, s, q, seq![v]),
        None => (seq![], p),
    }
}

pub open spec fn variant_list_rest(d: Dialect, s: Seq<char>, q: int, acc: Seq<Seq<char>>) -> (
    Seq<Seq<char>>,
    int,
)
    decreases s.len() - q,
{
    let w = skip_ws(s, q);
    if char_at(s, w, ',') {
        match variant(d, s, skip_ws(s, w + 1)) {
            Some((v, q2)) => variant_list_rest(d, s, q2, acc.push(v)),
            None => (acc, q),
        }
    } else {
        (acc, q)
    }
}

// ---------------------------------------------------------------------------
// Simple primaries
// ---------------------------------------------------------------------------

/// `ty:ident() "." v:ident()`
pub open spec fn type_variant(d: Dialect, s: Seq<char>, p: int) -> Option<(SpecExpr, int)> {
    match name(d, s, p) {
        Some((ty, a)) => if char_at(s, a, '.') {
            match name(d, s, a + 1) {
                Some((v, b)) => Some((SpecExpr::EnumVariant(ty, v), b)),
                None => None,
            }
        } else {
            None
        },
        None => None,
    }
}

/// `"." v:ident()`
pub open spec fn dot_variant(d: Dialect, s: Seq<char>, p: int) -> Option<(SpecExpr, int)> {
    if char_at(s, p, '.') {
        match name(d, s, p + 1) {
            Some((v, b)) => Some((SpecExpr::DotVariant(v), b)),
            None => None,
        }
    } else {
        None
    }
}

pub open spec fn number_expr(s: Seq<char>, p: int) -> Option<(SpecExpr, int)> {
    match number(s, p) {
        Some((t, q)) => Some((SpecExpr::Number(t), q)),
        None => None,
    }
}

pub open spec fn ident_expr(d: Dialect, s: Seq<char>, p: int) -> Option<(SpecExpr, int)> {
    match name(d, s, p) {
        Some((t, q)) => Some((SpecExpr::Ident(t), q)),
        None => None,
    }
}

// ---------------------------------------------------------------------------
// Expressions
// ---------------------------------------------------------------------------

/// `expr()`: the operator precedence expression, starting at the lowest level.
pub open spec fn expr(d: Dialect, s: Seq<char>, p: int) -> Option<(SpecExpr, int)>
    decreases s.len() - p, 26nat,
{
    infix(d, s, 0, p)
}

/// The expressions whose binary operators all have a level of at least `min`
/// (level 0: `+ -`, level 1: `* /`; both associate to the left).
pub open spec fn infix(d: Dialect, s: Seq<char>, min: int, p: int) -> Option<(SpecExpr, int)>
    decreases s.len() - p, 25nat,
{
    match prefix_atom(d, s, p) {
        Some((e, q)) => if adv(s, p, q) {
            Some(infix_loop(d, s, min, q, e))
        } else {
            None
        },
        None => None,
    }
}

/// Extends `acc` with `op operand` steps for as long as one matches.
pub open spec fn infix_loop(d: Dialect, s: Seq<char>, min: int, q: int, acc: SpecExpr) -> (
    SpecExpr,
    int,
)
    decreases s.len() - q, 24nat,
{
    match infix_step(d, s, min, q) {
        Some((op, y, q2)) => if q < q2 <= s.len() {
            infix_loop(d, s, min, q2, SpecExpr::Binary(Box::new(acc), op, Box::new(y)))
        } else {
            (acc, q)
        },
        None => (acc, q),
    }
}

/// One `_ op _ operand` step: the operators of level 0 are tried first, then those
/// of level 1, each only when its level is at least `min`.
pub open spec fn infix_step(d: Dialect, s: Seq<char>, min: int, q: int) -> Option<
    (BinOp, SpecExpr, int),
>
    decreases s.len() - q, 23nat,
{
    let add = if min <= 0 {
        infix_op(d, s, q, '+', BinOp::Add, 1)
    } else {
        None
    };
    let sub = if min <= 0 {
        infix_op(d, s, q, '-', BinOp::Sub, 1)
    } else {
        None
    };
    let mul = if min <= 1 {
        infix_op(d, s, q, '*', BinOp::Mul, 2)
    } else {
        None
    };
    let div = if min <= 1 {
        infix_op(d, s, q, '/', BinOp::Div, 2)
    } else {
        None
    };
    either(add, either(sub, either(mul, div)))
}

/// `_ c _` followed by an operand of level at least `next`.
pub open spec fn infix_op(d: Dialect, s: Seq<char>, q: int, c: char, op: BinOp, next: int) -> Option<
    (BinOp, SpecExpr, int),
>
    decreases s.len() - q, 22nat,
{
    let w = skip_ws(s, q);
    if char_at(s, w, c) {
        match infix(d, s, next, skip_ws(s, w + 1)) {
            Some((y, e)) => Some((op, y, e)),
            None => None,
        }
    } else {
        None
    }
}

/// A prefix `-` applied to an operand above every binary level, or a postfix
/// expression.
pub open spec fn prefix_atom(d: Dialect, s: Seq<char>, p: int) -> Option<(SpecExpr, int)>
    decreases s.len() - p, 21nat,
{
    let neg = if char_at(s, p, '-') {
        match infix(d, s, 3, p + 1) {
            Some((e, q)) => Some((SpecExpr::Neg(Box::new(e)), q)),
            None => None,
        }
    } else {
        None
    };
    either(neg, postfix(d, s, p))
}

/// What a postfix operation applies to the expression before it.
pub enum SpecPostfixOp {
    MethodCall(Seq<char>, Seq<SpecExpr>),
    Field(Seq<char>),
    Call(Seq<SpecExpr>),
    Index(SpecExpr),
}

pub open spec fn apply_postfix(acc: SpecExpr, op: SpecPostfixOp) -> SpecExpr {
    match op {
        SpecPostfixOp::MethodCall(m, args) => SpecExpr::MethodCall(Box::new(acc), m, args),
        SpecPostfixOp::Field(f) => SpecExpr::Field(Box::new(acc), f),
        SpecPostfixOp::Call(args) => SpecExpr::Call(Box::new(acc), args),
        SpecPostfixOp::Index(i) => SpecExpr::Index(Box::new(acc), Box::new(i)),
    }
}

/// `base:primary() ops:postfix_op()*`, the operations applied from left to right.
pub open spec fn postfix(d: Dialect, s: Seq<char>, p: int) -> Option<(SpecExpr, int)>
    decreases s.len() - p, 20nat,
{
    match primary(d, s, p) {
        Some((b, q)) => if adv(s, p, q) {
            Some(postfix_ops(d, s, q, b))
        } else {
            None
        },
        None => None,
    }
}

pub open spec fn postfix_ops(d: Dialect, s: Seq<char>, q: int, acc: SpecExpr) -> (SpecExpr, int)
    decreases s.len() - q, 19nat,
{
    match postfix_op(d, s, q) {
        Some((op, q2)) => if q < q2 <= s.len() {
            postfix_ops(d, s, q2, apply_postfix(acc, op))
        } else {
            (acc, q)
        },
        None => (acc, q),
    }
}

/// A method call, a field access, a call or an index, tried in that order.
pub open spec fn postfix_op(d: Dialect, s: Seq<char>, q: int) -> Option<(SpecPostfixOp, int)>
    decreases s.len() - q, 18nat,
{
    either(method_op(d, s, q), either(field_op(d, s, q), either(call_op(d, s, q), index_op(d, s, q))))
}

/// `_ "." name:ident() _ "(" _ args:(expr() ** (_ "," _)) _ ")"`
pub open spec fn method_op(d: Dialect, s: Seq<char>, q: int) -> Option<(SpecPostfixOp, int)>
    decreases s.len() - q, 17nat,
{
    let w = skip_ws(s, q);
    if char_at(s, w, '.') {
        match name(d, s, w + 1) {
            Some((m, a)) => {
                let b = skip_ws(s, a);
                if char_at(s, b, '(') {
                    let (args, e) = expr_list(d, s, skip_ws(s, b + 1));
                    let f = skip_ws(s, e);
                    if char_at(s, f, ')') {
                        Some((SpecPostfixOp::MethodCall(m, args), f + 1))
                    } else {
                        None
                    }
                } else {
                    None
                }
            },
            None => None,
        }
    } else {
        None
    }
}

/// `_ "." name:ident()`
pub open spec fn field_op(d: Dialect, s: Seq<char>, q: int) -> Option<(SpecPostfixOp, int)>
    decreases s.len() - q, 17nat,
{
    let w = skip_ws(s, q);
    if char_at(s, w, '.') {
        match name(d, s, w + 1) {
            Some((f, a)) => Some((SpecPostfixOp::Field(f), a)),
            None => None,
        }
    } else {
        None
    }
}

/// `_ "(" _ args:(expr() ** (_ "," _)) _ ")"`
pub open spec fn call_op(d: Dialect, s: Seq<char>, q: int) -> Option<(SpecPostfixOp, int)>
    decreases s.len() - q, 17nat,
{
    let w = skip_ws(s, q);
    if char_at(s, w, '(') {
        let (args, e) = expr_list(d, s, skip_ws(s, w + 1));
        let f = skip_ws(s, e);
        if char_at(s, f, ')') {
            Some((SpecPostfixOp::Call(args), f + 1))
        } else {
            None
        }
    } else {
        None
    }
}

/// `_ "[" _ idx:expr() _ "]"`
pub open spec fn index_op(d: Dialect, s: Seq<char>, q: int) -> Option<(SpecPostfixOp, int)>
    decreases s.len() - q, 17nat,
{
    let w = skip_ws(s, q);
    if char_at(s, w, '[') {
        match expr(d, s, skip_ws(s, w + 1)) {
            Some((i, e)) => {
                let f = skip_ws(s, e);
                if char_at(s, f, ']') {
                    Some((SpecPostfixOp::Index(i), f + 1))
                } else {
                    None
                }
            },
            None => None,
        }
    } else {
        None
    }
}

/// `expr() ** (_ "," _)`
pub open spec fn expr_list(d: Dialect, s: Seq<char>, p: int) -> (Seq<SpecExpr>, int)
    decreases s.len() - p, 28nat,
{
    match expr(d, s, p) {
        Some((e, q)) => if adv(s, p, q) {
            expr_list_rest(d, s, q, seq![e])
        } else {
            (seq![], p)
        },
        None => (seq![], p),
    }
}

pub open spec fn expr_list_rest(d: Dialect, s: Seq<char>, q: int, acc: Seq<SpecExpr>) -> (
    Seq<SpecExpr>,
    int,
)
    decreases s.len() - q, 27nat,
{
    let w = skip_ws(s, q);
    if char_at(s, w, ',') {
        let w2 = skip_ws(s, w + 1);
        match expr(d, s, w2) {
            Some((e, q2)) => if adv(s, w2, q2) {
                expr_list_rest(d, s, q2, acc.push(e))
            } else {
                (acc, q)
            },
            None => (acc, q),
        }
    } else {
        (acc, q)
    }
}

/// The primary expressions, tried in order: switch, for, struct literal,
/// `Type.Variant`, `.Variant`, string, number, parenthesized expression, identifier.
pub open spec fn primary(d: Dialect, s: Seq<char>, p: int) -> Option<(SpecExpr, int)>
    decreases s.len() - p, 16nat,
{
    either(
        switch_expr(d, s, p),
        either(
            for_expr(d, s, p),
            either(
                struct_lit(d, s, p),
                either(
                    type_variant(d, s, p),
                    either(
                        dot_variant(d, s, p),
                        either(
                            string_expr(d, s, p),
                            either(number_expr(s, p), either(paren(d, s, p), ident_expr(d, s, p))),
                        ),
                    ),
                ),
            ),
        ),
    )
}

/// `"(" _ e:expr() _ ")"`
pub open spec fn paren(d: Dialect, s: Seq<char>, p: int) -> Option<(SpecExpr, int)>
    decreases s.len() - p, 15nat,
{
    if char_at(s, p, '(') {
        match expr(d, s, skip_ws(s, p + 1)) {
            Some((e, b)) => {
                let c = skip_ws(s, b);
                if char_at(s, c, ')') {
                    Some((e, c + 1))
                } else {
                    None
                }
            },
            None => None,
        }
    } else {
        None
    }
}

// ---------------------------------------------------------------------------
// Struct literals
// ---------------------------------------------------------------------------

/// `name:ident() _ "{" _ fields:(struct_field() ** (_ "," _)) _ ","? _ "}"`
pub open spec fn struct_lit(d: Dialect, s: Seq<char>, p: int) -> Option<(SpecExpr, int)>
    decreases s.len() - p, 15nat,
{
    match name(d, s, p) {
        Some((n, a)) => {
            let b = skip_ws(s, a);
            if char_at(s, b, '{') {
                let (fields, e) = struct_fields(d, s, skip_ws(s, b + 1));
                let h = trailing_comma(s, e);
                if char_at(s, h, '}') {
                    Some((SpecExpr::StructLit(n, fields), h + 1))
                } else {
                    None
                }
            } else {
                None
            }
        },
        None => None,
    }
}

pub open spec fn struct_fields(d: Dialect, s: Seq<char>, p: int) -> (
    Seq<SpecStructInitializer>,
    int,
)
    decreases s.len() - p, 31nat,
{
    match struct_field(d, s, p) {
        Some((f, q)) => if adv(s, p, q) {
            struct_fields_rest(d, s, q, seq![f])
        } else {
            (seq![], p)
        },
        None => (seq![], p),
    }
}

pub open spec fn struct_fields_rest(
    d: Dialect,
    s: Seq<char>,
    q: int,
    acc: Seq<SpecStructInitializer>,
) -> (Seq<SpecStructInitializer>, int)
    decreases s.len() - q, 30nat,
{
    let w = skip_ws(s, q);
    if char_at(s, w, ',') {
        let w2 = skip_ws(s, w + 1);
        match struct_field(d, s, w2) {
            Some((f, q2)) => if adv(s, w2, q2) {
                struct_fields_rest(d, s, q2, acc.push(f))
            } else {
                (acc, q)
            },
            None => (acc, q),
        }
    } else {
        (acc, q)
    }
}

/// `name:ident() _ ":" _ e:expr()`
pub open spec fn struct_field(d: Dialect, s: Seq<char>, p: int) -> Option<
    (SpecStructInitializer, int),
>
    decreases s.len() - p, 29nat,
{
    match name(d, s, p) {
        Some((n, a)) => {
            let b = skip_ws(s, a);
            if char_at(s, b, ':') {
                match expr(d, s, skip_ws(s, b + 1)) {
                    Some((v, e)) => Some((SpecStructInitializer { label: n, value: v }, e)),
                    None => None,
                }
            } else {
                None
            }
        },
        None => None,
    }
}

// ---------------------------------------------------------------------------
// Switch and for
// ---------------------------------------------------------------------------

/// `"switch" _ "(" _ subject:expr() _ ")" _ "{" _
///  arms:(switch_arm() ** (_ "," _)) _ ","? _ "}"`
pub open spec fn switch_expr(d: Dialect, s: Seq<char>, p: int) -> Option<(SpecExpr, int)>
    decreases s.len() - p, 15nat,
{
    if lit_at(s, p, seq!['s', 'w', 'i', 't', 'c', 'h']) {
        let a = skip_ws(s, p + 6);
        if char_at(s, a, '(') {
            let b = skip_ws(s, a + 1);
            match expr(d, s, b) {
                Some((subject, c)) => if adv(s, b, c) {
                    let e = skip_ws(s, c);
                    if char_at(s, e, ')') {
                        let f = skip_ws(s, e + 1);
                        if char_at(s, f, '{') {
                            let (arms, h) = switch_arms(d, s, skip_ws(s, f + 1));
                            let k = trailing_comma(s, h);
                            if char_at(s, k, '}') {
                                Some((SpecExpr::Switch(Box::new(subject), arms), k + 1))
                            } else {
                                None
                            }
                        } else {
                            None
                        }
                    } else {
                        None
                    }
                } else {
                    None
                },
                None => None,
            }
        } else {
            None
        }
    } else {
        None
    }
}

pub open spec fn switch_arms(d: Dialect, s: Seq<char>, p: int) -> (Seq<SpecSwitchArm>, int)
    decreases s.len() - p, 36nat,
{
    match switch_arm(d, s, p) {
        Some((a, q)) => if adv(s, p, q) {
            switch_arms_rest(d, s, q, seq![a])
        } else {
            (seq![], p)
        },
        None => (seq![], p),
    }
}

pub open spec fn switch_arms_rest(d: Dialect, s: Seq<char>, q: int, acc: Seq<SpecSwitchArm>) -> (
    Seq<SpecSwitchArm>,
    int,
)
    decreases s.len() - q, 35nat,
{
    let w = skip_ws(s, q);
    if char_at(s, w, ',') {
        let w2 = skip_ws(s, w + 1);
        match switch_arm(d, s, w2) {
            Some((a, q2)) => if adv(s, w2, q2) {
                switch_arms_rest(d, s, q2, acc.push(a))
            } else {
                (acc, q)
            },
            None => (acc, q),
        }
    } else {
        (acc, q)
    }
}

/// `patterns:(switch_pattern() ++ (_ "|" _)) _ "=>" _ body:expr()`
pub open spec fn switch_arm(d: Dialect, s: Seq<char>, p: int) -> Option<(SpecSwitchArm, int)>
    decreases s.len() - p, 34nat,
{
    match switch_pattern(d, s, p) {
        Some((pat, q)) => if adv(s, p, q) {
            let (pats, r) = patterns_rest(d, s, q, seq![pat]);
            if adv(s, q, r) {
                let w = skip_ws(s, r);
                if lit_at(s, w, seq!['=', '>']) {
                    match expr(d, s, skip_ws(s, w + 2)) {
                        Some((b, e)) => Some((SpecSwitchArm { patterns: pats, body: b }, e)),
                        None => None,
                    }
                } else {
                    None
                }
            } else {
                None
            }
        } else {
            None
        },
        None => None,
    }
}

pub open spec fn patterns_rest(d: Dialect, s: Seq<char>, q: int, acc: Seq<SpecExpr>) -> (
    Seq<SpecExpr>,
    int,
)
    decreases s.len() - q, 33nat,
{
    let w = skip_ws(s, q);
    if char_at(s, w, '|') {
        let w2 = skip_ws(s, w + 1);
        match switch_pattern(d, s, w2) {
            Some((pat, q2)) => if adv(s, w2, q2) {
                patterns_rest(d, s, q2, acc.push(pat))
            } else {
                (acc, q)
            },
            None => (acc, q),
        }
    } else {
        (acc, q)
    }
}

/// `dot_variant() / expr()`
pub open spec fn switch_pattern(d: Dialect, s: Seq<char>, p: int) -> Option<(SpecExpr, int)>
    decreases s.len() - p, 32nat,
{
    either(dot_variant(d, s, p), expr(d, s, p))
}

/// `"for" __ binders:(ident() ** (_ "," _)) __ "in" __ iter:expr() _ body:block()`
pub open spec fn for_expr(d: Dialect, s: Seq<char>, p: int) -> Option<(SpecExpr, int)>
    decreases s.len() - p, 15nat,
{
    if lit_at(s, p, seq!['f', 'o', 'r']) {
        match skip_ws1(s, p + 3) {
            Some(a) => {
                proof {
                    lemma_name_list(d, s, a);
                }
                let (binders, b) = name_list(d, s, a);
                match skip_ws1(s, b) {
                    Some(c) => if lit_at(s, c, seq!['i', 'n']) {
                        match skip_ws1(s, c + 2) {
                            Some(e) => match expr(d, s, e) {
                                Some((it, f)) => if adv(s, e, f) {
                                    match block(d, s, skip_ws(s, f)) {
                                        Some((body, h)) => Some(
                                            (SpecExpr::For { binders, iter: Box::new(it), body }, h),
                                        ),
                                        None => None,
                                    }
                                } else {
                                    None
                                },
                                None => None,
                            },
                            None => None,
                        }
                    } else {
                        None
                    },
                    None => None,
                }
            },
            None => None,
        }
    } else {
        None
    }
}

// ---------------------------------------------------------------------------
// Strings
// ---------------------------------------------------------------------------

/// `multiline_string() / quoted_string()`
pub open spec fn string_expr(d: Dialect, s: Seq<char>, p: int) -> Option<(SpecExpr, int)>
    decreases s.len() - p, 15nat,
{
    either(multiline_string(d, s, p), quoted_string(d, s, p))
}

/// `"\"" parts:string_part()* "\""`
pub open spec fn quoted_string(d: Dialect, s: Seq<char>, p: int) -> Option<(SpecExpr, int)>
    decreases s.len() - p, 14nat,
{
    if char_at(s, p, '"') {
        let (parts, q) = string_parts(d, s, p + 1, seq![]);
        if char_at(s, q, '"') {
            Some((SpecExpr::Str(parts), q + 1))
        } else {
            None
        }
    } else {
        None
    }
}

pub open spec fn string_parts(d: Dialect, s: Seq<char>, q: int, acc: Seq<SpecStringPart>) -> (
    Seq<SpecStringPart>,
    int,
)
    decreases s.len() - q, 11nat,
{
    match string_part(d, s, q) {
        Some((part, q2)) => if q < q2 <= s.len() {
            string_parts(d, s, q2, acc.push(part))
        } else {
            (acc, q)
        },
        None => (acc, q),
    }
}

/// An interpolation, or one or more characters up to a `"` or a `\(`.
pub open spec fn string_part(d: Dialect, s: Seq<char>, p: int) -> Option<(SpecStringPart, int)>
    decreases s.len() - p, 10nat,
{
    either(interp(d, s, p), literal_part(s, p, '"'))
}

/// One or more characters of string text, up to `stop` or a `\(`.
pub open spec fn literal_part(s: Seq<char>, p: int, stop: char) -> Option<(SpecStringPart, int)> {
    let e = text_run(s, p, stop);
    if p < e {
        Some((SpecStringPart::Literal(s.subrange(p, e)), e))
    } else {
        None
    }
}

/// The optional `":" f:$([^ ')']+)` after an interpolated expression: the format
/// and the position after it, or no format and `p` itself.
pub open spec fn format_spec(s: Seq<char>, p: int) -> (Option<Seq<char>>, int) {
    if char_at(s, p, ':') {
        let e = until_char(s, p + 1, ')');
        if p + 1 < e {
            (Some(s.subrange(p + 1, e)), e)
        } else {
            (None, p)
        }
    } else {
        (None, p)
    }
}

/// `"\\(" _ e:expr() fmt:(":" f:$([^ ')']+))? _ ")"`
pub open spec fn interp(d: Dialect, s: Seq<char>, p: int) -> Option<(SpecStringPart, int)>
    decreases s.len() - p, 9nat,
{
    if lit_at(s, p, seq!['\\', '(']) {
        match expr(d, s, skip_ws(s, p + 2)) {
            Some((e, b)) => {
                let (fmt, c) = format_spec(s, b);
                let g = skip_ws(s, c);
                if char_at(s, g, ')') {
                    Some((SpecStringPart::Interp { expr: Box::new(e), format: fmt }, g + 1))
                } else {
                    None
                }
            },
            None => None,
        }
    } else {
        None
    }
}

/// `lines:(multiline_line() ++ (_))`, the lines' parts joined with a newline
/// literal between consecutive lines.
pub open spec fn multiline_string(d: Dialect, s: Seq<char>, p: int) -> Option<(SpecExpr, int)>
    decreases s.len() - p, 14nat,
{
    match multiline_line(d, s, p) {
        Some((parts, q)) => if adv(s, p, q) {
            let (all, r) = multiline_rest(d, s, q, parts);
            Some((SpecExpr::Str(all), r))
        } else {
            None
        },
        None => None,
    }
}

pub open spec fn multiline_rest(d: Dialect, s: Seq<char>, q: int, acc: Seq<SpecStringPart>) -> (
    Seq<SpecStringPart>,
    int,
)
    decreases s.len() - q, 13nat,
{
    match multiline_line(d, s, skip_ws(s, q)) {
        Some((line, q2)) => if q < q2 <= s.len() {
            multiline_rest(d, s, q2, acc.push(SpecStringPart::Literal(seq!['\n'])) + line)
        } else {
            (acc, q)
        },
        None => (acc, q),
    }
}

/// `"\\\\" parts:multiline_part()* "\n"?`
pub open spec fn multiline_line(d: Dialect, s: Seq<char>, p: int) -> Option<
    (Seq<SpecStringPart>, int),
>
    decreases s.len() - p, 12nat,
{
    if lit_at(s, p, seq!['\\', '\\']) {
        let (parts, q) = multiline_parts(d, s, p + 2, seq![]);
        Some((parts, if char_at(s, q, '\n') { q + 1 } else { q }))
    } else {
        None
    }
}

pub open spec fn multiline_parts(
    d: Dialect,
    s: Seq<char>,
    q: int,
    acc: Seq<SpecStringPart>,
) -> (Seq<SpecStringPart>, int)
    decreases s.len() - q, 11nat,
{
    match multiline_part(d, s, q) {
        Some((part, q2)) => if q < q2 <= s.len() {
            multiline_parts(d, s, q2, acc.push(part))
        } else {
            (acc, q)
        },
        None => (acc, q),
    }
}

/// An interpolation, or one or more characters up to a newline or a `\(`.
pub open spec fn multiline_part(d: Dialect, s: Seq<char>, p: int) -> Option<(SpecStringPart, int)>
    decreases s.len() - p, 10nat,
{
    either(interp(d, s, p), literal_part(s, p, '\n'))
}

// ---------------------------------------------------------------------------
// Blocks and statements
// ---------------------------------------------------------------------------

/// `"{" _ stmts _ tail:expr()? _ "}"`; a tail expression becomes a final
/// `Tail` statement.
pub open spec fn block(d: Dialect, s: Seq<char>, p: int) -> Option<(Seq<SpecStmt>, int)>
    decreases s.len() - p, 15nat,
{
    if char_at(s, p, '{') {
        let a = skip_ws(s, p + 1);
        let (stmts, b) = block_stmts(d, s, a);
        if adv(s, a, b) {
            let c = skip_ws(s, b);
            let (all, t) = match expr(d, s, c) {
                Some((e, t)) => (stmts.push(SpecStmt::Tail(e)), t),
                None => (stmts, c),
            };
            let g = skip_ws(s, t);
            if char_at(s, g, '}') {
                Some((all, g + 1))
            } else {
                None
            }
        } else {
            None
        }
    } else {
        None
    }
}

/// The statements of a block: `stmt() ** _` in the kon grammar, `stmt()*` in the
/// konc grammar.
pub open spec fn block_stmts(d: Dialect, s: Seq<char>, p: int) -> (Seq<SpecStmt>, int)
    decreases s.len() - p, 42nat,
{
    match d {
        Dialect::Kon => stmt_list(d, s, p),
        Dialect::Konc => stmt_star(d, s, p, seq![]),
    }
}

pub open spec fn stmt_list(d: Dialect, s: Seq<char>, p: int) -> (Seq<SpecStmt>, int)
    decreases s.len() - p, 41nat,
{
    match stmt(d, s, p) {
        Some((st, q)) => if adv(s, p, q) {
            stmt_list_rest(d, s, q, seq![st])
        } else {
            (seq![], p)
        },
        None => (seq![], p),
    }
}

pub open spec fn stmt_list_rest(d: Dialect, s: Seq<char>, q: int, acc: Seq<SpecStmt>) -> (
    Seq<SpecStmt>,
    int,
)
    decreases s.len() - q, 40nat,
{
    match stmt(d, s, skip_ws(s, q)) {
        Some((st, q2)) => if q < q2 <= s.len() {
            stmt_list_rest(d, s, q2, acc.push(st))
        } else {
            (acc, q)
        },
        None => (acc, q),
    }
}

pub open spec fn stmt_star(d: Dialect, s: Seq<char>, q: int, acc: Seq<SpecStmt>) -> (
    Seq<SpecStmt>,
    int,
)
    decreases s.len() - q, 40nat,
{
    match stmt(d, s, q) {
        Some((st, q2)) => if q < q2 <= s.len() {
            stmt_star(d, s, q2, acc.push(st))
        } else {
            (acc, q)
        },
        None => (acc, q),
    }
}

/// A `let` statement, (konc only) a `return` statement, a switch statement, or an
/// expression statement, tried in that order.
pub open spec fn stmt(d: Dialect, s: Seq<char>, p: int) -> Option<(SpecStmt, int)>
    decreases s.len() - p, 38nat,
{
    let ret = match d {
        Dialect::Kon => None,
        Dialect::Konc => return_stmt(d, s, p),
    };
    either(let_stmt(d, s, p), either(ret, either(switch_stmt(d, s, p), expr_stmt(d, s, p))))
}

/// `"let" __ name:ident() _ "=" _ e:expr() _ ";"`
pub open spec fn let_stmt(d: Dialect, s: Seq<char>, p: int) -> Option<(SpecStmt, int)>
    decreases s.len() - p, 37nat,
{
    if lit_at(s, p, seq!['l', 'e', 't']) {
        match skip_ws1(s, p + 3) {
            Some(a) => match name(d, s, a) {
                Some((n, b)) => {
                    let c = skip_ws(s, b);
                    if char_at(s, c, '=') {
                        match expr(d, s, skip_ws(s, c + 1)) {
                            Some((e, f)) => {
                                let g = skip_ws(s, f);
                                if char_at(s, g, ';') {
                                    Some((SpecStmt::Let(n, e), g + 1))
                                } else {
                                    None
                                }
                            },
                            None => None,
                        }
                    } else {
                        None
                    }
                },
                None => None,
            },
            None => None,
        }
    } else {
        None
    }
}

/// `"return" _ e:expr()? _ ";"`
pub open spec fn return_stmt(d: Dialect, s: Seq<char>, p: int) -> Option<(SpecStmt, int)>
    decreases s.len() - p, 37nat,
{
    if lit_at(s, p, seq!['r', 'e', 't', 'u', 'r', 'n']) {
        let a = skip_ws(s, p + 6);
        let (value, b) = match expr(d, s, a) {
            Some((e, b)) => (Some(e), b),
            None => (None, a),
        };
        let c = skip_ws(s, b);
        if char_at(s, c, ';') {
            Some((SpecStmt::Return(value), c + 1))
        } else {
            None
        }
    } else {
        None
    }
}

/// `e:block_expr() _ ";"?` where a block expression is a switch.
pub open spec fn switch_stmt(d: Dialect, s: Seq<char>, p: int) -> Option<(SpecStmt, int)>
    decreases s.len() - p, 37nat,
{
    match switch_expr(d, s, p) {
        Some((e, q)) => {
            let w = skip_ws(s, q);
            Some((SpecStmt::Expr(e), if char_at(s, w, ';') { w + 1 } else { w }))
        },
        None => None,
    }
}

/// `e:expr() _ ";"`
pub open spec fn expr_stmt(d: Dialect, s: Seq<char>, p: int) -> Option<(SpecStmt, int)>
    decreases s.len() - p, 37nat,
{
    match expr(d, s, p) {
        Some((e, q)) => {
            let w = skip_ws(s, q);
            if char_at(s, w, ';') {
                Some((SpecStmt::Expr(e), w + 1))
            } else {
                None
            }
        },
        None => None,
    }
}

} // verus!
