//! Laws of the two grammars, stated over the texts they read.
//!
//! Each law says what a rule gives on a whole family of texts, in terms of the
//! characters of the text and of the results of other rules.
use vstd::prelude::*;
use crate::ast::{BinOp, SpecExpr, SpecStmt, SpecStringPart, SpecStructInitializer, SpecSwitchArm};
use crate::kon_parser;
use crate::konc_parser;
use crate::konc_parser::{
    PointerKind, SpecEnumItem, SpecExternFnName, SpecExternItem, SpecImportItem, SpecLetItem,
    SpecStructItem, SpecType, Visibility,
};
use crate::syntax;
use crate::syntax::{name, Dialect, SpecPostfixOp};
use crate::text::{char_at, lit_at, skip_ws, skip_ws1};

verus! {

broadcast use crate::text::group_text_bounds;

// ---------------------------------------------------------------------------
// Expression forms
// ---------------------------------------------------------------------------

/// `Type.Variant` names the type first and the variant second; `.Variant` names
/// the variant alone.
pub proof fn variant_expressions(d: Dialect, s: Seq<char>, p: int)
    ensures
        name(d, s, p) matches Some((ty, a)) ==> (char_at(s, a, '.') ==> (name(d, s, a + 1) matches Some(
            (v, b),
        ) ==> syntax::type_variant(d, s, p) == Some((SpecExpr::EnumVariant(ty, v), b)))),
        char_at(s, p, '.') ==> (name(d, s, p + 1) matches Some((v, b))
            ==> syntax::dot_variant(d, s, p) == Some((SpecExpr::DotVariant(v), b))),
{
}

/// A struct literal is its name and the fields that `struct_fields` reads in its
/// braces, whether or not a comma follows the last field.
pub proof fn struct_literal_fields(d: Dialect, s: Seq<char>, p: int, n: Seq<char>, a: int)
    requires
        name(d, s, p) == Some((n, a)),
        char_at(s, skip_ws(s, a), '{'),
    ensures
        ({
            let (fields, e) = syntax::struct_fields(d, s, skip_ws(s, skip_ws(s, a) + 1));
            let w = skip_ws(s, e);
            &&& char_at(s, w, '}') ==> syntax::struct_lit(d, s, p) == Some(
                (SpecExpr::StructLit(n, fields), w + 1),
            )
            &&& char_at(s, w, ',') && char_at(s, skip_ws(s, w + 1), '}')
                ==> syntax::struct_lit(d, s, p) == Some(
                (SpecExpr::StructLit(n, fields), skip_ws(s, w + 1) + 1),
            )
        }),
{
}

/// A struct literal field `label: value` has the label before the colon and the
/// expression after it as its value.
pub proof fn struct_literal_field(d: Dialect, s: Seq<char>, p: int, l: Seq<char>, a: int, v: SpecExpr, e: int)
    requires
        name(d, s, p) == Some((l, a)),
        char_at(s, skip_ws(s, a), ':'),
        syntax::expr(d, s, skip_ws(s, skip_ws(s, a) + 1)) == Some((v, e)),
    ensures
        syntax::struct_field(d, s, p) == Some((SpecStructInitializer { label: l, value: v }, e)),
{
}

/// Each postfix operation builds the node of its name around the expression before
/// it: a method call keeps the method name and arguments, a field access the
/// field name, a call its arguments and an index the index expression.
pub proof fn postfix_operations_build(acc: SpecExpr, m: Seq<char>, args: Seq<SpecExpr>, i: SpecExpr)
    ensures
        syntax::apply_postfix(acc, SpecPostfixOp::MethodCall(m, args)) == SpecExpr::MethodCall(
            Box::new(acc),
            m,
            args,
        ),
        syntax::apply_postfix(acc, SpecPostfixOp::Field(m)) == SpecExpr::Field(Box::new(acc), m),
        syntax::apply_postfix(acc, SpecPostfixOp::Call(args)) == SpecExpr::Call(Box::new(acc), args),
        syntax::apply_postfix(acc, SpecPostfixOp::Index(i)) == SpecExpr::Index(
            Box::new(acc),
            Box::new(i),
        ),
{
}

/// Which postfix operation the text after an expression spells: `.name(args)` is a
/// method call, `.name` not followed by `(` a field, `(args)` a call and `[i]` an
/// index.
pub proof fn postfix_operations_read(d: Dialect, s: Seq<char>, q: int)
    ensures
        ({
            let w = skip_ws(s, q);
            &&& char_at(s, w, '.') ==> (name(d, s, w + 1) matches Some((f, a)) ==> (!char_at(
                s,
                skip_ws(s, a),
                '(',
            ) ==> syntax::postfix_op(d, s, q) == Some((SpecPostfixOp::Field(f), a))))
            &&& char_at(s, w, '.') ==> (name(d, s, w + 1) matches Some((f, a)) ==> (char_at(
                s,
                skip_ws(s, a),
                '(',
            ) ==> ({
                let (args, e) = syntax::expr_list(d, s, skip_ws(s, skip_ws(s, a) + 1));
                char_at(s, skip_ws(s, e), ')') ==> syntax::postfix_op(d, s, q) == Some(
                    (SpecPostfixOp::MethodCall(f, args), skip_ws(s, e) + 1),
                )
            })))
            &&& char_at(s, w, '(') ==> ({
                let (args, e) = syntax::expr_list(d, s, skip_ws(s, w + 1));
                char_at(s, skip_ws(s, e), ')') ==> syntax::postfix_op(d, s, q) == Some(
                    (SpecPostfixOp::Call(args), skip_ws(s, e) + 1),
                )
            })
            &&& char_at(s, w, '[') ==> (syntax::expr(d, s, skip_ws(s, w + 1)) matches Some((i, e))
                ==> (char_at(s, skip_ws(s, e), ']') ==> syntax::postfix_op(d, s, q) == Some(
                (SpecPostfixOp::Index(i), skip_ws(s, e) + 1),
            )))
        }),
{
}

/// A switch is its subject and the arms that `switch_arms` reads in its braces,
/// whether or not a comma follows the last arm.
pub proof fn switch_subject_and_arms(d: Dialect, s: Seq<char>, p: int, subject: SpecExpr, c: int)
    requires
        lit_at(s, p, seq!['s', 'w', 'i', 't', 'c', 'h']),
        char_at(s, skip_ws(s, p + 6), '('),
        syntax::expr(d, s, skip_ws(s, skip_ws(s, p + 6) + 1)) == Some((subject, c)),
        skip_ws(s, skip_ws(s, p + 6) + 1) <= c <= s.len(),
        char_at(s, skip_ws(s, c), ')'),
        char_at(s, skip_ws(s, skip_ws(s, c) + 1), '{'),
    ensures
        ({
            let (arms, h) = syntax::switch_arms(
                d,
                s,
                skip_ws(s, skip_ws(s, skip_ws(s, c) + 1) + 1),
            );
            let w = skip_ws(s, h);
            &&& char_at(s, w, '}') ==> syntax::switch_expr(d, s, p) == Some(
                (SpecExpr::Switch(Box::new(subject), arms), w + 1),
            )
            &&& char_at(s, w, ',') && char_at(s, skip_ws(s, w + 1), '}')
                ==> syntax::switch_expr(d, s, p) == Some(
                (SpecExpr::Switch(Box::new(subject), arms), skip_ws(s, w + 1) + 1),
            )
        }),
{
}

/// A switch arm has the patterns before `=>` and the expression after it as its
/// body.
pub proof fn switch_arm_parts(
    d: Dialect,
    s: Seq<char>,
    p: int,
    pat: SpecExpr,
    q: int,
    pats: Seq<SpecExpr>,
    r: int,
    body: SpecExpr,
    e: int,
)
    requires
        syntax::switch_pattern(d, s, p) == Some((pat, q)),
        p <= q <= s.len(),
        syntax::patterns_rest(d, s, q, seq![pat]) == (pats, r),
        q <= r <= s.len(),
        lit_at(s, skip_ws(s, r), seq!['=', '>']),
        syntax::expr(d, s, skip_ws(s, skip_ws(s, r) + 2)) == Some((body, e)),
    ensures
        syntax::switch_arm(d, s, p) == Some((SpecSwitchArm { patterns: pats, body }, e)),
{
}

/// A `for` expression binds the names before `in`, iterates over the expression
/// after it and has the statements of the block that follows as its body.
pub proof fn for_expression_parts(d: Dialect, s: Seq<char>, p: int, a: int, c: int, e: int, it: SpecExpr, f: int)
    requires
        lit_at(s, p, seq!['f', 'o', 'r']),
        skip_ws1(s, p + 3) == Some(a),
        skip_ws1(s, syntax::name_list(d, s, a).1) == Some(c),
        lit_at(s, c, seq!['i', 'n']),
        skip_ws1(s, c + 2) == Some(e),
        syntax::expr(d, s, e) == Some((it, f)),
        e <= f <= s.len(),
    ensures
        syntax::block(d, s, skip_ws(s, f)) matches Some((body, h)) ==> syntax::for_expr(d, s, p)
            == Some(
            (
                SpecExpr::For {
                    binders: syntax::name_list(d, s, a).0,
                    iter: Box::new(it),
                    body,
                },
                h,
            ),
        ),
{
}

// ---------------------------------------------------------------------------
// Strings
// ---------------------------------------------------------------------------

/// Characters none of which is `stop` or starts `\(`.
pub open spec fn plain_text(t: Seq<char>, stop: char) -> bool {
    forall|i: int|
        0 <= i < t.len() ==> #[trigger] t[i] != stop && !(t[i] == '\\' && i + 1 < t.len() && t[i
            + 1] == '(')
}

proof fn lemma_text_run_plain(s: Seq<char>, p: int, n: int, stop: char)
    requires
        0 <= p <= n <= s.len(),
        forall|i: int|
            p <= i < n ==> #[trigger] s[i] != stop && !(s[i] == '\\' && i + 1 < s.len() && s[i
                + 1] == '('),
        n == s.len() || s[n] == stop,
    ensures
        crate::text::text_run(s, p, stop) == n,
    decreases n - p,
{
    if p < n {
        if lit_at(s, p, seq!['\\', '(']) {
            assert(s.subrange(p, p + 2)[0] == s[p]);
            assert(s.subrange(p, p + 2)[1] == s[p + 1]);
        }
        lemma_text_run_plain(s, p + 1, n, stop);
    }
}

/// A quoted string of plain text (no `"` and no `\(` in it) is one literal part
/// holding exactly that text; an empty quoted string has no parts.
#[verifier::spinoff_prover]
pub proof fn quoted_plain_strings(d: Dialect, t: Seq<char>)
    requires
        plain_text(t, '"'),
    ensures
        syntax::quoted_string(d, seq!['"'] + t + seq!['"'], 0) == Some(
            (
                SpecExpr::Str(
                    if t.len() == 0 {
                        Seq::<SpecStringPart>::empty()
                    } else {
                        seq![SpecStringPart::Literal(t)]
                    },
                ),
                t.len() as int + 2,
            ),
        ),
{
    let s = seq!['"'] + t + seq!['"'];
    let n: int = t.len() as int + 1;
    assert(s.len() == t.len() + 2);
    assert forall|i: int| 1 <= i < n implies #[trigger] s[i] != '"' && !(s[i] == '\\' && i + 1
        < s.len() && s[i + 1] == '(') by {
        assert(s[i] == t[i - 1]);
        if i + 1 < n {
            assert(s[i + 1] == t[i]);
        }
    }
    assert(s[n] == '"');
    lemma_text_run_plain(s, 1, n, '"');
    if lit_at(s, 1, seq!['\\', '(']) {
        assert(s.subrange(1, 3)[0] == s[1]);
    }
    assert(syntax::interp(d, s, 1) is None);
    if t.len() > 0 {
        assert(s.subrange(1, n) =~= t);
        assert(syntax::string_part(d, s, 1) == Some((SpecStringPart::Literal(t), n)));
        if lit_at(s, n, seq!['\\', '(']) {
            assert(s.subrange(n, n + 2)[0] == s[n]);
        }
        assert(syntax::interp(d, s, n) is None);
        assert(crate::text::text_run(s, n, '"') == n);
        assert(syntax::string_part(d, s, n) is None);
        assert(syntax::string_parts(d, s, n, seq![SpecStringPart::Literal(t)]) == (
            seq![SpecStringPart::Literal(t)],
            n,
        ));
        assert(Seq::<SpecStringPart>::empty().push(SpecStringPart::Literal(t)) =~= seq![
            SpecStringPart::Literal(t),
        ]);
    } else {
        assert(crate::text::text_run(s, 1, '"') == 1);
        assert(syntax::string_part(d, s, 1) is None);
    }
    if lit_at(s, 0, seq!['\\', '\\']) {
        assert(s.subrange(0, 2)[0] == s[0]);
    }
}

/// An interpolation `\(e)` holds the expression and no format; `\(e:f)` holds
/// the format text `f` (up to the closing parenthesis) as well.
pub proof fn interpolations(d: Dialect, s: Seq<char>, p: int, e: SpecExpr, b: int)
    requires
        lit_at(s, p, seq!['\\', '(']),
        syntax::expr(d, s, skip_ws(s, p + 2)) == Some((e, b)),
    ensures
        char_at(s, skip_ws(s, b), ')') && !char_at(s, b, ':') ==> syntax::interp(d, s, p) == Some(
            (SpecStringPart::Interp { expr: Box::new(e), format: None }, skip_ws(s, b) + 1),
        ),
        ({
            let f = crate::text::until_char(s, b + 1, ')');
            char_at(s, b, ':') && b + 1 < f && char_at(s, f, ')') ==> syntax::interp(d, s, p)
                == Some(
                (
                    SpecStringPart::Interp {
                        expr: Box::new(e),
                        format: Some(s.subrange(b + 1, f)),
                    },
                    f + 1,
                ),
            )
        }),
{
    let f = crate::text::until_char(s, b + 1, ')');
    if char_at(s, b, ':') && b + 1 < f && char_at(s, f, ')') {
        assert(skip_ws(s, f) == f) by {
            if lit_at(s, f, seq!['/', '/']) {
                assert(s.subrange(f, f + 2)[0] == s[f]);
            }
        }
    }
}

// ---------------------------------------------------------------------------
// Blocks and statements
// ---------------------------------------------------------------------------

/// A block whose statements (as `block_stmts` reads them) are followed by an
/// expression and the closing brace holds those statements and then that
/// expression as a `Tail` statement.
#[verifier::spinoff_prover]
#[verifier::rlimit(60)]
pub proof fn block_tail(
    d: Dialect,
    s: Seq<char>,
    p: int,
    sts: Seq<SpecStmt>,
    b: int,
    e: SpecExpr,
    t: int,
)
    requires
        char_at(s, p, '{'),
        syntax::block_stmts(d, s, skip_ws(s, p + 1)) == (sts, b),
        skip_ws(s, p + 1) <= b <= s.len(),
        syntax::expr(d, s, skip_ws(s, b)) == Some((e, t)),
        char_at(s, skip_ws(s, t), '}'),
    ensures
        syntax::block(d, s, p) == Some((sts.push(SpecStmt::Tail(e)), skip_ws(s, t) + 1)),
{
}

/// A block whose statements are followed directly by the closing brace holds just
/// those statements.
#[verifier::spinoff_prover]
#[verifier::rlimit(60)]
pub proof fn block_without_tail(d: Dialect, s: Seq<char>, p: int, sts: Seq<SpecStmt>, b: int)
    requires
        char_at(s, p, '{'),
        syntax::block_stmts(d, s, skip_ws(s, p + 1)) == (sts, b),
        skip_ws(s, p + 1) <= b <= s.len(),
        syntax::expr(d, s, skip_ws(s, b)) is None,
        char_at(s, skip_ws(s, b), '}'),
    ensures
        syntax::block(d, s, p) == Some((sts, skip_ws(s, b) + 1)),
{
    let c = skip_ws(s, b);
    assert(skip_ws(s, c) == c) by {
        if lit_at(s, c, seq!['/', '/']) {
            assert(s.subrange(c, c + 2)[0] == s[c]);
        }
    }
}

/// `let name = e;` is a `Let` statement of that name and expression.
pub proof fn let_statements(d: Dialect, s: Seq<char>, p: int, a: int, n: Seq<char>, b: int, e: SpecExpr, f: int)
    requires
        lit_at(s, p, seq!['l', 'e', 't']),
        skip_ws1(s, p + 3) == Some(a),
        name(d, s, a) == Some((n, b)),
        char_at(s, skip_ws(s, b), '='),
        syntax::expr(d, s, skip_ws(s, skip_ws(s, b) + 1)) == Some((e, f)),
        char_at(s, skip_ws(s, f), ';'),
    ensures
        syntax::stmt(d, s, p) == Some((SpecStmt::Let(n, e), skip_ws(s, f) + 1)),
{
}

/// In konc, `return e;` is a `Return` statement holding the expression.
#[verifier::spinoff_prover]
#[verifier::rlimit(60)]
pub proof fn konc_return_statements(s: Seq<char>, p: int, e: SpecExpr, b: int)
    requires
        lit_at(s, p, seq!['r', 'e', 't', 'u', 'r', 'n']),
        syntax::expr(Dialect::Konc, s, skip_ws(s, p + 6)) == Some((e, b)),
        char_at(s, skip_ws(s, b), ';'),
    ensures
        syntax::stmt(Dialect::Konc, s, p) == Some((SpecStmt::Return(Some(e)), skip_ws(s, b) + 1)),
{
    assert(s.subrange(p, p + 6)[0] == s[p]);
    if lit_at(s, p, seq!['l', 'e', 't']) {
        assert(s.subrange(p, p + 3)[0] == s[p]);
    }
    assert(syntax::let_stmt(Dialect::Konc, s, p) is None);
    assert(syntax::return_stmt(Dialect::Konc, s, p) == Some(
        (SpecStmt::Return(Some(e)), skip_ws(s, b) + 1),
    ));
}

/// In konc, `return;` is a `Return` statement without an expression.
#[verifier::spinoff_prover]
#[verifier::rlimit(100)]
pub proof fn konc_bare_returns(s: Seq<char>, p: int)
    requires
        lit_at(s, p, seq!['r', 'e', 't', 'u', 'r', 'n']),
        syntax::expr(Dialect::Konc, s, skip_ws(s, p + 6)) is None,
        char_at(s, skip_ws(s, p + 6), ';'),
    ensures
        syntax::stmt(Dialect::Konc, s, p) == Some((SpecStmt::Return(None), skip_ws(s, p + 6) + 1)),
{
    let a = skip_ws(s, p + 6);
    assert(skip_ws(s, a) == a) by {
        if lit_at(s, a, seq!['/', '/']) {
            assert(s.subrange(a, a + 2)[0] == s[a]);
        }
    }
    assert(s.subrange(p, p + 6)[0] == s[p]);
    if lit_at(s, p, seq!['l', 'e', 't']) {
        assert(s.subrange(p, p + 3)[0] == s[p]);
    }
    assert(syntax::let_stmt(Dialect::Konc, s, p) is None);
    assert(syntax::return_stmt(Dialect::Konc, s, p) == Some(
        (SpecStmt::Return(None), a + 1),
    ));
}

/// No kon statement is a `Return` statement.
pub proof fn kon_has_no_return_statement(s: Seq<char>, p: int)
    ensures
        syntax::stmt(Dialect::Kon, s, p) matches Some((st, _)) ==> !(st is Return),
{
    crate::shape::lemma_stmt(Dialect::Kon, s, p);
}

// ---------------------------------------------------------------------------
// Parameters, types, lets, interfaces, return types and extern blocks
// ---------------------------------------------------------------------------

/// A kon parameter `name: Type` has the name before the colon and the type name
/// after it.
pub proof fn kon_params(s: Seq<char>, p: int, n: Seq<char>, a: int, t: Seq<char>, e: int)
    requires
        name(Dialect::Kon, s, p) == Some((n, a)),
        char_at(s, skip_ws(s, a), ':'),
        name(Dialect::Kon, s, skip_ws(s, skip_ws(s, a) + 1)) == Some((t, e)),
    ensures
        kon_parser::param(s, p) == Some((kon_parser::SpecParam { name: n, ty: t }, e)),
{
}

/// A konc parameter `name: Type` has the name before the colon and the type that
/// `typ` reads after it.
pub proof fn konc_params(s: Seq<char>, p: int, n: Seq<char>, a: int)
    requires
        name(Dialect::Konc, s, p) == Some((n, a)),
        char_at(s, skip_ws(s, a), ':'),
    ensures
        konc_parser::param(s, p) == Some(
            (
                konc_parser::SpecParam {
                    name: n,
                    ty: konc_parser::typ(s, skip_ws(s, skip_ws(s, a) + 1)).0,
                },
                konc_parser::typ(s, skip_ws(s, skip_ws(s, a) + 1)).1,
            ),
        ),
{
}

/// A konc type is its optional pointer kind, then the dotted path after it, then
/// the names in `<...>` after the path (none when there are no angle brackets).
pub proof fn konc_types(s: Seq<char>, p: int)
    ensures
        ({
            let (pointer, a) = match konc_parser::pointer_kind(s, p) {
                Some((k, a)) => (Some(k), a),
                None => (None::<PointerKind>, p),
            };
            let (ident, b) = konc_parser::path(s, a);
            let c = skip_ws(s, b);
            &&& konc_parser::typ(s, p).0.pointer == pointer
            &&& konc_parser::typ(s, p).0.ident == ident
            &&& !char_at(s, c, '<') ==> konc_parser::typ(s, p) == (
                SpecType { ident, params: seq![], pointer },
                c,
            )
            &&& konc_parser::type_params(s, c) matches Some((ps, e)) ==> konc_parser::typ(s, p) == (
                SpecType { ident, params: ps, pointer },
                e,
            )
        }),
{
}

/// A dotted path is its first name followed by each name after a `.`: a name with
/// no `.` after it is a path of one name, and `n.m...` goes on from the second
/// name with both names kept in order.
pub proof fn konc_paths(s: Seq<char>, p: int, n: Seq<char>, a: int)
    requires
        name(Dialect::Konc, s, p) == Some((n, a)),
    ensures
        !char_at(s, a, '.') ==> konc_parser::path(s, p) == (seq![n], a),
{
}

/// The second name of a dotted path follows the first.
pub proof fn konc_path_steps(s: Seq<char>, p: int, n: Seq<char>, a: int, m: Seq<char>, b: int)
    requires
        name(Dialect::Konc, s, p) == Some((n, a)),
        char_at(s, a, '.'),
        name(Dialect::Konc, s, a + 1) == Some((m, b)),
    ensures
        konc_parser::path(s, p) == konc_parser::path_rest(s, b, seq![n, m]),
{
    assert(seq![n].push(m) =~= seq![n, m]);
}

/// `let name = e;` at top level is a kon `Let` item of that name and expression.
pub proof fn kon_let_items(s: Seq<char>, p: int, a: int, n: Seq<char>, b: int, e: SpecExpr, f: int)
    requires
        lit_at(s, p, seq!['l', 'e', 't']),
        skip_ws1(s, p + 3) == Some(a),
        name(Dialect::Kon, s, a) == Some((n, b)),
        char_at(s, skip_ws(s, b), '='),
        syntax::expr(Dialect::Kon, s, skip_ws(s, skip_ws(s, b) + 1)) == Some((e, f)),
        char_at(s, skip_ws(s, f), ';'),
    ensures
        kon_parser::item(s, p) == Some((kon_parser::SpecItem::Let(n, e), skip_ws(s, f) + 1)),
{
}

/// `let name = e;` at top level is a konc `Let` item of that name and expression.
pub proof fn konc_let_items(s: Seq<char>, p: int, a: int, n: Seq<char>, b: int, e: SpecExpr, f: int)
    requires
        lit_at(s, p, seq!['l', 'e', 't']),
        skip_ws1(s, p + 3) == Some(a),
        name(Dialect::Konc, s, a) == Some((n, b)),
        char_at(s, skip_ws(s, b), '='),
        syntax::expr(Dialect::Konc, s, skip_ws(s, skip_ws(s, b) + 1)) == Some((e, f)),
        char_at(s, skip_ws(s, f), ';'),
    ensures
        konc_parser::nonimport_item(s, p) == Some(
            (konc_parser::SpecItem::Let(SpecLetItem { ident: n, expr: e }), skip_ws(s, f) + 1),
        ),
{
}

/// An interface method `fn name(params);` has that name and the parameters that
/// `param_list` reads after the `(`, in both grammars.
pub proof fn interface_methods(s: Seq<char>, p: int, a: int, n: Seq<char>, b: int)
    requires
        lit_at(s, p, seq!['f', 'n']),
        skip_ws1(s, p + 2) == Some(a),
        char_at(s, skip_ws(s, b), '('),
    ensures
        name(Dialect::Kon, s, a) == Some((n, b)) ==> ({
            let (params, e) = kon_parser::param_list(s, skip_ws(s, skip_ws(s, b) + 1));
            let f = skip_ws(s, e);
            char_at(s, f, ')') && char_at(s, skip_ws(s, f + 1), ';') ==> kon_parser::interface_method(
                s,
                p,
            ) == Some((kon_parser::SpecInterfaceMethod { name: n, params }, skip_ws(s, f + 1) + 1))
        }),
        name(Dialect::Konc, s, a) == Some((n, b)) ==> ({
            let (params, e) = konc_parser::param_list(s, skip_ws(s, skip_ws(s, b) + 1));
            let f = skip_ws(s, e);
            char_at(s, f, ')') && char_at(s, skip_ws(s, f + 1), ';')
                ==> konc_parser::interface_method(s, p) == Some(
                (konc_parser::SpecInterfaceMethod { name: n, params }, skip_ws(s, f + 1) + 1),
            )
        }),
{
}

/// A konc function's return type is the type after `->`, and its body is the
/// block after that (or after the `)` when there is no `->`).
#[verifier::spinoff_prover]
#[verifier::rlimit(100)]
pub proof fn konc_fn_return_types(s: Seq<char>, p: int, a: int, n: Seq<char>, c: int, h: int)
    requires
        lit_at(s, p, seq!['f', 'n']),
        skip_ws1(s, p + 2) == Some(a),
        !char_at(s, a, '['),
        !char_at(s, a, '('),
        name(Dialect::Konc, s, a) == Some((n, c)),
        char_at(s, skip_ws(s, c), '('),
        h == skip_ws(s, konc_parser::param_list(s, skip_ws(s, skip_ws(s, c) + 1)).1),
        char_at(s, h, ')'),
    ensures
        ({
            let k = skip_ws(s, h + 1);
            &&& konc_parser::fn_rt(s, k) matches Some((t, m)) ==> (syntax::block(Dialect::Konc, s, m)
                matches Some((body, _)) ==> konc_parser::fn_item(s, p) matches Some(
                (konc_parser::SpecItem::Fn(f), _),
            ) && f.return_type == Some(t) && f.body == body)
            &&& konc_parser::fn_rt(s, k) is None ==> (syntax::block(Dialect::Konc, s, k) matches Some(
                (body, _),
            ) ==> konc_parser::fn_item(s, p) matches Some((konc_parser::SpecItem::Fn(f), _))
                && f.return_type is None && f.body == body)
        }),
{
    assert(0 <= a < s.len() && crate::text::is_word_start(s[a]));
    if lit_at(s, a, seq!['/', '/']) {
        assert(s.subrange(a, a + 2)[0] == s[a]);
    }
    assert(skip_ws(s, a) == a);
    if char_at(s, c, '.') {
        if lit_at(s, c, seq!['/', '/']) {
            assert(s.subrange(c, c + 2)[0] == s[c]);
        }
        assert(skip_ws(s, c) == c);
    }
    assert(konc_parser::alloc_receiver(s, a) is None);
    assert(konc_parser::receiver(s, a) is None);
}

/// An extern block `extern "lang" { ... }` records the language between the quotes
/// and keeps none of the declarations in its braces.
pub proof fn konc_extern_blocks(s: Seq<char>, p: int, a: int, lang: Seq<char>, b: int)
    requires
        lit_at(s, p, seq!['e', 'x', 't', 'e', 'r', 'n']),
        skip_ws1(s, p + 6) == Some(a),
        konc_parser::string_lit(s, a) == Some((lang, b)),
        char_at(s, skip_ws(s, b), '{'),
    ensures
        ({
            let g = skip_ws(s, konc_parser::extern_list(s, skip_ws(s, skip_ws(s, b) + 1)).1);
            char_at(s, g, '}') ==> konc_parser::extern_item(s, p) == Some(
                (
                    konc_parser::SpecItem::Extern(SpecExternItem { lang, items: seq![] }),
                    g + 1,
                ),
            )
        }),
{
}

// ---------------------------------------------------------------------------
// Lists
// ---------------------------------------------------------------------------

/// A comma-separated list of `.Variant`s keeps the variants in the order written:
/// one variant gives a list of one, and a second one after a comma is appended.
pub proof fn variant_lists(d: Dialect, s: Seq<char>, p: int, v1: Seq<char>, q1: int)
    requires
        syntax::variant(d, s, p) == Some((v1, q1)),
    ensures
        !char_at(s, skip_ws(s, q1), ',') ==> syntax::variant_list(d, s, p) == (seq![v1], q1),
        char_at(s, skip_ws(s, q1), ',') ==> (syntax::variant(d, s, skip_ws(s, skip_ws(s, q1) + 1))
            matches Some((v2, q2)) ==> (!char_at(s, skip_ws(s, q2), ',') ==> syntax::variant_list(
            d,
            s,
            p,
        ) == (seq![v1, v2], q2))),
{
    let w = skip_ws(s, q1);
    if char_at(s, w, ',') {
        if let Some((v2, q2)) = syntax::variant(d, s, skip_ws(s, w + 1)) {
            assert(seq![v1].push(v2) =~= seq![v1, v2]);
            if !char_at(s, skip_ws(s, q2), ',') {
                assert(syntax::variant_list_rest(d, s, q2, seq![v1, v2]) == (seq![v1, v2], q2));
            }
        }
    }
}

/// A comma-separated list of names keeps the names in the order written.
pub proof fn name_lists(d: Dialect, s: Seq<char>, p: int, n1: Seq<char>, q1: int)
    requires
        name(d, s, p) == Some((n1, q1)),
    ensures
        !char_at(s, skip_ws(s, q1), ',') ==> syntax::name_list(d, s, p) == (seq![n1], q1),
        char_at(s, skip_ws(s, q1), ',') ==> (name(d, s, skip_ws(s, skip_ws(s, q1) + 1)) matches Some(
            (n2, q2),
        ) ==> (!char_at(s, skip_ws(s, q2), ',') ==> syntax::name_list(d, s, p) == (
            seq![n1, n2],
            q2,
        ))),
{
    let w = skip_ws(s, q1);
    if char_at(s, w, ',') {
        if let Some((n2, q2)) = name(d, s, skip_ws(s, w + 1)) {
            assert(seq![n1].push(n2) =~= seq![n1, n2]);
            if !char_at(s, skip_ws(s, q2), ',') {
                assert(syntax::name_list_rest(d, s, q2, seq![n1, n2]) == (seq![n1, n2], q2));
            }
        }
    }
}

/// A comma-separated list of kon parameters keeps the parameters in the order
/// written.
pub proof fn kon_param_lists(
    s: Seq<char>,
    p: int,
    x1: kon_parser::SpecParam,
    q1: int,
    x2: kon_parser::SpecParam,
    q2: int,
)
    requires
        kon_parser::param(s, p) == Some((x1, q1)),
        char_at(s, skip_ws(s, q1), ','),
        kon_parser::param(s, skip_ws(s, skip_ws(s, q1) + 1)) == Some((x2, q2)),
        q1 < q2 <= s.len(),
        !char_at(s, skip_ws(s, q2), ','),
    ensures
        kon_parser::param_list(s, p) == (seq![x1, x2], q2),
{
    assert(seq![x1].push(x2) =~= seq![x1, x2]);
    assert(kon_parser::param_list_rest(s, q2, seq![x1, x2]) == (seq![x1, x2], q2));
}

/// A comma-separated list of konc parameters keeps the parameters in the order
/// written.
#[verifier::rlimit(60)]
pub proof fn konc_param_lists(
    s: Seq<char>,
    p: int,
    x1: konc_parser::SpecParam,
    q1: int,
    x2: konc_parser::SpecParam,
    q2: int,
)
    requires
        konc_parser::param(s, p) == Some((x1, q1)),
        char_at(s, skip_ws(s, q1), ','),
        konc_parser::param(s, skip_ws(s, skip_ws(s, q1) + 1)) == Some((x2, q2)),
        q1 < q2 <= s.len(),
        !char_at(s, skip_ws(s, q2), ','),
    ensures
        konc_parser::param_list(s, p) == (seq![x1, x2], q2),
{
    assert(seq![x1].push(x2) =~= seq![x1, x2]);
    assert(konc_parser::param_list_rest(s, q2, seq![x1, x2]) == (seq![x1, x2], q2));
}

/// A single konc parameter not followed by a comma is a list of one.
pub proof fn konc_single_params(s: Seq<char>, p: int, x1: konc_parser::SpecParam, q1: int)
    requires
        konc_parser::param(s, p) == Some((x1, q1)),
        !char_at(s, skip_ws(s, q1), ','),
    ensures
        konc_parser::param_list(s, p) == (seq![x1], q1),
{
}

/// Comma-separated call arguments keep the order written.
pub proof fn argument_lists(d: Dialect, s: Seq<char>, p: int, e1: SpecExpr, q1: int, e2: SpecExpr, q2: int)
    requires
        syntax::expr(d, s, p) == Some((e1, q1)),
        p <= q1 <= s.len(),
        char_at(s, skip_ws(s, q1), ','),
        syntax::expr(d, s, skip_ws(s, skip_ws(s, q1) + 1)) == Some((e2, q2)),
        skip_ws(s, skip_ws(s, q1) + 1) <= q2 <= s.len(),
        !char_at(s, skip_ws(s, q2), ','),
    ensures
        syntax::expr_list(d, s, p) == (seq![e1, e2], q2),
{
    assert(seq![e1].push(e2) =~= seq![e1, e2]);
    assert(syntax::expr_list_rest(d, s, q2, seq![e1, e2]) == (seq![e1, e2], q2));
}

/// Comma-separated struct literal fields keep the order written.
pub proof fn struct_field_lists(
    d: Dialect,
    s: Seq<char>,
    p: int,
    f1: SpecStructInitializer,
    q1: int,
    f2: SpecStructInitializer,
    q2: int,
)
    requires
        syntax::struct_field(d, s, p) == Some((f1, q1)),
        p <= q1 <= s.len(),
        char_at(s, skip_ws(s, q1), ','),
        syntax::struct_field(d, s, skip_ws(s, skip_ws(s, q1) + 1)) == Some((f2, q2)),
        skip_ws(s, skip_ws(s, q1) + 1) <= q2 <= s.len(),
        !char_at(s, skip_ws(s, q2), ','),
    ensures
        syntax::struct_fields(d, s, p) == (seq![f1, f2], q2),
{
    assert(seq![f1].push(f2) =~= seq![f1, f2]);
    assert(syntax::struct_fields_rest(d, s, q2, seq![f1, f2]) == (seq![f1, f2], q2));
}

/// Comma-separated switch arms keep the order written.
pub proof fn switch_arm_lists(
    d: Dialect,
    s: Seq<char>,
    p: int,
    a1: SpecSwitchArm,
    q1: int,
    a2: SpecSwitchArm,
    q2: int,
)
    requires
        syntax::switch_arm(d, s, p) == Some((a1, q1)),
        p <= q1 <= s.len(),
        char_at(s, skip_ws(s, q1), ','),
        syntax::switch_arm(d, s, skip_ws(s, skip_ws(s, q1) + 1)) == Some((a2, q2)),
        skip_ws(s, skip_ws(s, q1) + 1) <= q2 <= s.len(),
        !char_at(s, skip_ws(s, q2), ','),
    ensures
        syntax::switch_arms(d, s, p) == (seq![a1, a2], q2),
{
    assert(seq![a1].push(a2) =~= seq![a1, a2]);
    assert(syntax::switch_arms_rest(d, s, q2, seq![a1, a2]) == (seq![a1, a2], q2));
}

/// Patterns separated by `|` are all kept, in the order written.
#[verifier::rlimit(60)]
pub proof fn pattern_lists(d: Dialect, s: Seq<char>, q: int, pat1: SpecExpr, pat2: SpecExpr, q2: int)
    requires
        char_at(s, skip_ws(s, q), '|'),
        syntax::switch_pattern(d, s, skip_ws(s, skip_ws(s, q) + 1)) == Some((pat2, q2)),
        skip_ws(s, skip_ws(s, q) + 1) <= q2 <= s.len(),
        !char_at(s, skip_ws(s, q2), '|'),
    ensures
        syntax::patterns_rest(d, s, q, seq![pat1]) == (seq![pat1, pat2], q2),
{
    assert(seq![pat1].push(pat2) =~= seq![pat1, pat2]);
    assert(syntax::patterns_rest(d, s, q2, seq![pat1, pat2]) == (seq![pat1, pat2], q2));
}

/// Kon block statements are separated by blank space: two statements hold both,
/// in order.
#[verifier::spinoff_prover]
#[verifier::rlimit(60)]
pub proof fn kon_statement_lists(s: Seq<char>, p: int, s1: SpecStmt, q1: int, s2: SpecStmt, q2: int)
    requires
        syntax::stmt(Dialect::Kon, s, p) == Some((s1, q1)),
        p <= q1 <= s.len(),
        syntax::stmt(Dialect::Kon, s, skip_ws(s, q1)) == Some((s2, q2)),
        q1 < q2 <= s.len(),
        syntax::stmt(Dialect::Kon, s, skip_ws(s, q2)) is None,
    ensures
        syntax::block_stmts(Dialect::Kon, s, p) == (seq![s1, s2], q2),
{
    assert(seq![s1].push(s2) =~= seq![s1, s2]);
    assert(syntax::stmt_list_rest(Dialect::Kon, s, q2, seq![s1, s2]) == (seq![s1, s2], q2));
}

/// Konc block statements stand next to each other: a statement not followed
/// directly by another is a list of one.
#[verifier::spinoff_prover]
#[verifier::rlimit(60)]
pub proof fn konc_single_statements(s: Seq<char>, p: int, s1: SpecStmt, q1: int)
    requires
        syntax::stmt(Dialect::Konc, s, p) == Some((s1, q1)),
        p < q1 <= s.len(),
        syntax::stmt(Dialect::Konc, s, q1) is None,
    ensures
        syntax::block_stmts(Dialect::Konc, s, p) == (seq![s1], q1),
{
    assert(Seq::<SpecStmt>::empty().push(s1) =~= seq![s1]);
    assert(syntax::stmt_star(Dialect::Konc, s, q1, seq![s1]) == (seq![s1], q1));
    assert(syntax::stmt_star(Dialect::Konc, s, p, seq![]) == (seq![s1], q1));
}

/// Two konc statements that stand next to each other are both kept, in order.
#[verifier::spinoff_prover]
#[verifier::rlimit(60)]
pub proof fn konc_statement_lists(s: Seq<char>, p: int, s1: SpecStmt, q1: int, s2: SpecStmt, q2: int)
    requires
        syntax::stmt(Dialect::Konc, s, p) == Some((s1, q1)),
        p < q1 <= s.len(),
        syntax::stmt(Dialect::Konc, s, q1) == Some((s2, q2)),
        q1 < q2 <= s.len(),
        syntax::stmt(Dialect::Konc, s, q2) is None,
    ensures
        syntax::block_stmts(Dialect::Konc, s, p) == (seq![s1, s2], q2),
{
    assert(Seq::<SpecStmt>::empty().push(s1) =~= seq![s1]);
    assert(seq![s1].push(s2) =~= seq![s1, s2]);
    assert(syntax::stmt_star(Dialect::Konc, s, q2, seq![s1, s2]) == (seq![s1, s2], q2));
    assert(syntax::stmt_star(Dialect::Konc, s, q1, seq![s1]) == (seq![s1, s2], q2));
    assert(syntax::stmt_star(Dialect::Konc, s, p, seq![]) == (seq![s1, s2], q2));
}

/// The parts of one line of plain text in a multiline string: one literal holding
/// the text up to the newline or the end.
#[verifier::spinoff_prover]
#[verifier::rlimit(60)]
proof fn lemma_plain_line(d: Dialect, s: Seq<char>, p: int, n: int)
    requires
        0 <= p < n <= s.len(),
        forall|i: int|
            p <= i < n ==> #[trigger] s[i] != '\n' && !(s[i] == '\\' && i + 1 < s.len() && s[i
                + 1] == '('),
        n == s.len() || s[n] == '\n',
    ensures
        syntax::multiline_parts(d, s, p, seq![]) == (seq![SpecStringPart::Literal(s.subrange(p, n))], n),
{
    lemma_text_run_plain(s, p, n, '\n');
    lemma_text_run_plain(s, n, n, '\n');
    if lit_at(s, p, seq!['\\', '(']) {
        assert(s.subrange(p, p + 2)[0] == s[p]);
        assert(s.subrange(p, p + 2)[1] == s[p + 1]);
    }
    if lit_at(s, n, seq!['\\', '(']) {
        assert(s.subrange(n, n + 2)[0] == s[n]);
    }
    assert(syntax::interp(d, s, p) is None);
    assert(syntax::interp(d, s, n) is None);
    assert(syntax::multiline_part(d, s, n) is None);
    let lit = SpecStringPart::Literal(s.subrange(p, n));
    assert(syntax::literal_part(s, p, '\n') == Some((lit, n)));
    assert(syntax::multiline_part(d, s, p) == Some((lit, n)));
    assert(syntax::literal_part(s, n, '\n') is None);
    assert(Seq::<SpecStringPart>::empty().push(lit) =~= seq![lit]);
    assert(syntax::multiline_parts(d, s, n, seq![lit]) == (seq![lit], n));
    assert(syntax::multiline_parts(d, s, p, seq![]) == syntax::multiline_parts(d, s, n, seq![lit]));
}

/// The characters of `\\t1`, a newline and `\\t2`.
#[verifier::spinoff_prover]
#[verifier::rlimit(60)]
proof fn lemma_two_lines_text(t1: Seq<char>, t2: Seq<char>)
    requires
        t1.len() > 0,
        t2.len() > 0,
        plain_text(t1, '\n'),
        plain_text(t2, '\n'),
    ensures
        ({
            let s = seq!['\\', '\\'] + t1 + seq!['\n', '\\', '\\'] + t2;
            let n1: int = t1.len() as int + 2;
            let len: int = s.len() as int;
            &&& len == t1.len() + t2.len() + 5
            &&& s[0] == '\\' && s[1] == '\\'
            &&& s[n1] == '\n' && s[n1 + 1] == '\\' && s[n1 + 2] == '\\'
            &&& forall|i: int|
                2 <= i < n1 ==> #[trigger] s[i] != '\n' && !(s[i] == '\\' && i + 1 < s.len() && s[i
                    + 1] == '(')
            &&& forall|i: int|
                n1 + 3 <= i < len ==> #[trigger] s[i] != '\n' && !(s[i] == '\\' && i + 1 < s.len()
                    && s[i + 1] == '(')
            &&& s.subrange(2, n1) == t1
            &&& s.subrange(n1 + 3, len) == t2
        }),
{
    let s = seq!['\\', '\\'] + t1 + seq!['\n', '\\', '\\'] + t2;
    let n1: int = t1.len() as int + 2;
    let len: int = s.len() as int;
    assert forall|i: int| 2 <= i < n1 implies #[trigger] s[i] != '\n' && !(s[i] == '\\' && i + 1
        < s.len() && s[i + 1] == '(') by {
        assert(s[i] == t1[i - 2]);
        if i + 1 < n1 {
            assert(s[i + 1] == t1[i - 1]);
        }
    }
    assert forall|i: int| n1 + 3 <= i < len implies #[trigger] s[i] != '\n' && !(s[i] == '\\'
        && i + 1 < s.len() && s[i + 1] == '(') by {
        assert(s[i] == t2[i - n1 - 3]);
        if i + 1 < len {
            assert(s[i + 1] == t2[i - n1 - 2]);
        }
    }
    assert(s.subrange(2, n1) =~= t1);
    assert(s.subrange(n1 + 3, len) =~= t2);
}

/// The lines of a text made of `\\`, plain text, a newline, `\\` and plain text.
#[verifier::spinoff_prover]
#[verifier::rlimit(60)]
proof fn lemma_two_lines(d: Dialect, s: Seq<char>, n1: int)
    requires
        2 < n1,
        n1 + 3 < s.len(),
        s[0] == '\\' && s[1] == '\\',
        s[n1] == '\n' && s[n1 + 1] == '\\' && s[n1 + 2] == '\\',
        forall|i: int|
            2 <= i < n1 ==> #[trigger] s[i] != '\n' && !(s[i] == '\\' && i + 1 < s.len() && s[i
                + 1] == '('),
        forall|i: int|
            n1 + 3 <= i < s.len() ==> #[trigger] s[i] != '\n' && !(s[i] == '\\' && i + 1 < s.len()
                && s[i + 1] == '('),
    ensures
        syntax::multiline_line(d, s, 0) == Some(
            (seq![SpecStringPart::Literal(s.subrange(2, n1))], n1 + 1),
        ),
        syntax::multiline_line(d, s, n1 + 1) == Some(
            (seq![SpecStringPart::Literal(s.subrange(n1 + 3, s.len() as int))], s.len() as int),
        ),
        skip_ws(s, n1 + 1) == n1 + 1,
        skip_ws(s, s.len() as int) == s.len(),
        syntax::multiline_line(d, s, s.len() as int) is None,
{
    let len = s.len() as int;
    lemma_plain_line(d, s, 2, n1);
    lemma_plain_line(d, s, n1 + 3, len);
    assert(s.subrange(0, 2) =~= seq!['\\', '\\']);
    assert(s.subrange(n1 + 1, n1 + 3) =~= seq!['\\', '\\']);
    assert(skip_ws(s, n1 + 1) == n1 + 1) by {
        if lit_at(s, n1 + 1, seq!['/', '/']) {
            assert(s.subrange(n1 + 1, n1 + 3)[0] == s[n1 + 1]);
        }
    }
    assert(skip_ws(s, len) == len);
}

/// Two lines of a multiline string give the first line's parts, a newline literal
/// and the second line's parts.
#[verifier::spinoff_prover]
#[verifier::rlimit(60)]
proof fn lemma_join_two_lines(d: Dialect, s: Seq<char>, n1: int)
    requires
        2 < n1,
        n1 + 3 < s.len(),
        syntax::multiline_line(d, s, 0) == Some(
            (seq![SpecStringPart::Literal(s.subrange(2, n1))], n1 + 1),
        ),
        syntax::multiline_line(d, s, n1 + 1) == Some(
            (seq![SpecStringPart::Literal(s.subrange(n1 + 3, s.len() as int))], s.len() as int),
        ),
        skip_ws(s, n1 + 1) == n1 + 1,
        skip_ws(s, s.len() as int) == s.len(),
        syntax::multiline_line(d, s, s.len() as int) is None,
    ensures
        syntax::string_expr(d, s, 0) == Some(
            (
                SpecExpr::Str(
                    seq![
                        SpecStringPart::Literal(s.subrange(2, n1)),
                        SpecStringPart::Literal(seq!['\n']),
                        SpecStringPart::Literal(s.subrange(n1 + 3, s.len() as int)),
                    ],
                ),
                s.len() as int,
            ),
        ),
{
    let len = s.len() as int;
    let first = seq![SpecStringPart::Literal(s.subrange(2, n1))];
    let second = seq![SpecStringPart::Literal(s.subrange(n1 + 3, len))];
    let all = first.push(SpecStringPart::Literal(seq!['\n'])) + second;
    assert(all =~= seq![
        SpecStringPart::Literal(s.subrange(2, n1)),
        SpecStringPart::Literal(seq!['\n']),
        SpecStringPart::Literal(s.subrange(n1 + 3, len)),
    ]);
    assert(syntax::multiline_rest(d, s, len, all) == (all, len));
    assert(syntax::multiline_rest(d, s, n1 + 1, first) == (all, len));
    assert(syntax::multiline_string(d, s, 0) == Some((SpecExpr::Str(all), len)));
}

/// A multiline string of two lines of plain text (`\\a` on one line and `\\b`
/// on the next) is the first line's text, a newline literal, and the second line's
/// text.
#[verifier::spinoff_prover]
#[verifier::rlimit(80)]
pub proof fn multiline_strings_join_lines(d: Dialect, t1: Seq<char>, t2: Seq<char>)
    requires
        t1.len() > 0,
        t2.len() > 0,
        plain_text(t1, '\n'),
        plain_text(t2, '\n'),
    ensures
        syntax::string_expr(
            d,
            seq!['\\', '\\'] + t1 + seq!['\n', '\\', '\\'] + t2,
            0,
        ) == Some(
            (
                SpecExpr::Str(
                    seq![
                        SpecStringPart::Literal(t1),
                        SpecStringPart::Literal(seq!['\n']),
                        SpecStringPart::Literal(t2),
                    ],
                ),
                t1.len() as int + t2.len() as int + 5,
            ),
        ),
{
    let s = seq!['\\', '\\'] + t1 + seq!['\n', '\\', '\\'] + t2;
    let n1: int = t1.len() as int + 2;
    let len: int = s.len() as int;
    lemma_two_lines_text(t1, t2);
    lemma_two_lines(d, s, n1);
    lemma_join_two_lines(d, s, n1);
}

/// A kon program of two items separated by blank space holds both, in order.
#[verifier::spinoff_prover]
#[verifier::rlimit(60)]
pub proof fn kon_two_item_programs(
    s: Seq<char>,
    i1: kon_parser::SpecItem,
    q1: int,
    i2: kon_parser::SpecItem,
    q2: int,
)
    requires
        kon_parser::item(s, skip_ws(s, 0)) == Some((i1, q1)),
        kon_parser::item(s, skip_ws(s, q1)) == Some((i2, q2)),
        q1 < q2 <= s.len(),
        skip_ws(s, q2) == s.len(),
    ensures
        kon_parser::spec_program(s) == Ok::<Seq<kon_parser::SpecItem>, int>(seq![i1, i2]),
{
    let n = s.len() as int;
    assert(kon_parser::item(s, n) is None);
    assert(seq![i1].push(i2) =~= seq![i1, i2]);
    assert(kon_parser::item_list_rest(s, q2, seq![i1, i2]) == (seq![i1, i2], q2));
    assert(kon_parser::item_list_rest(s, q1, seq![i1]) == (seq![i1, i2], q2));
}

/// A konc program of two top-level items separated by blank space holds both, in
/// order.
#[verifier::spinoff_prover]
#[verifier::rlimit(60)]
pub proof fn konc_two_item_programs(
    s: Seq<char>,
    i1: konc_parser::SpecTopLevelItem,
    q1: int,
    i2: konc_parser::SpecTopLevelItem,
    q2: int,
)
    requires
        konc_parser::toplevel_item(s, skip_ws(s, 0)) == Some((i1, q1)),
        konc_parser::toplevel_item(s, skip_ws(s, q1)) == Some((i2, q2)),
        q1 < q2 <= s.len(),
        skip_ws(s, q2) == s.len(),
    ensures
        konc_parser::spec_program(s) == Ok::<Seq<konc_parser::SpecTopLevelItem>, int>(
            seq![i1, i2],
        ),
{
    let n = s.len() as int;
    assert(skip_ws(s, n) == n);
    assert(konc_parser::nonimport_item(s, n) is None);
    assert(konc_parser::import_item(s, n) is None);
    assert(konc_parser::toplevel_item(s, n) is None);
    assert(seq![i1].push(i2) =~= seq![i1, i2]);
    assert(konc_parser::item_list_rest(s, q2, seq![i1, i2]) == (seq![i1, i2], q2));
    assert(konc_parser::item_list_rest(s, q1, seq![i1]) == (seq![i1, i2], q2));
}

// ---------------------------------------------------------------------------
// Numbers, reserved words and comments
// ---------------------------------------------------------------------------

proof fn lemma_digits(s: Seq<char>, p: int, n: int)
    requires
        0 <= p <= n <= s.len(),
        forall|i: int| p <= i < n ==> crate::text::is_digit(#[trigger] s[i]),
        n == s.len() || !crate::text::is_digit(s[n]),
    ensures
        crate::text::digit_run(s, p) == n,
    decreases n - p,
{
    if p < n {
        lemma_digits(s, p + 1, n);
    }
}

proof fn lemma_word_chars(s: Seq<char>, p: int, n: int)
    requires
        0 <= p <= n <= s.len(),
        forall|i: int| p <= i < n ==> crate::text::is_word_char(#[trigger] s[i]),
        n == s.len() || !crate::text::is_word_char(s[n]),
    ensures
        crate::text::word_run(s, p) == n,
    decreases n - p,
{
    if p < n {
        lemma_word_chars(s, p + 1, n);
    }
}

/// A number literal with no fraction: the run of digits at `p`, when it is not
/// followed by `.` and a digit, is the literal.
pub proof fn whole_numbers(s: Seq<char>, p: int, a: int)
    requires
        0 <= p < a <= s.len(),
        forall|i: int| p <= i < a ==> crate::text::is_digit(#[trigger] s[i]),
        a == s.len() || !crate::text::is_digit(s[a]),
        !(char_at(s, a, '.') && a + 1 < s.len() && crate::text::is_digit(s[a + 1])),
    ensures
        crate::text::number(s, p) == Some((s.subrange(p, a), a)),
        syntax::number_expr(s, p) == Some((SpecExpr::Number(s.subrange(p, a)), a)),
{
    lemma_digits(s, p + 1, a);
}

/// A number literal with a fraction: digits, `.`, and digits make one literal that
/// keeps all of them.
pub proof fn fractional_numbers(s: Seq<char>, p: int, a: int, e: int)
    requires
        0 <= p < a,
        a + 1 < e <= s.len(),
        forall|i: int| p <= i < a ==> crate::text::is_digit(#[trigger] s[i]),
        s[a] == '.',
        forall|i: int| a + 1 <= i < e ==> crate::text::is_digit(#[trigger] s[i]),
        e == s.len() || !crate::text::is_digit(s[e]),
    ensures
        crate::text::number(s, p) == Some((s.subrange(p, e), e)),
        syntax::number_expr(s, p) == Some((SpecExpr::Number(s.subrange(p, e)), e)),
{
    lemma_digits(s, p + 1, a);
    lemma_digits(s, a + 2, e);
}

/// The reserved words of the konc grammar.
pub open spec fn reserved_word(w: Seq<char>) -> bool {
    ||| w == seq!['l', 'e', 't']
    ||| w == seq!['f', 'n']
    ||| w == seq!['e', 'n', 'u', 'm']
    ||| w == seq!['s', 't', 'r', 'u', 'c', 't']
    ||| w == seq!['s', 'w', 'i', 't', 'c', 'h']
    ||| w == seq!['f', 'o', 'r']
    ||| w == seq!['i', 'n', 't', 'e', 'r', 'f', 'a', 'c', 'e']
    ||| w == seq!['r', 'e', 't', 'u', 'r', 'n']
    ||| w == seq!['e', 'x', 't', 'e', 'r', 'n']
    ||| w == seq!['p', 'u', 'b']
}

proof fn lemma_lit_chars(s: Seq<char>, p: int, t: Seq<char>)
    ensures
        lit_at(s, p, t) ==> forall|i: int| 0 <= i < t.len() ==> #[trigger] s[p + i] == t[i],
{
    if lit_at(s, p, t) {
        assert forall|i: int| 0 <= i < t.len() implies #[trigger] s[p + i] == t[i] by {
            assert(s.subrange(p, p + t.len())[i] == s[p + i]);
        }
    }
}

/// A reserved word that is not followed by an identifier character is not a
/// konc name, while in kon it is a name like any other.
#[verifier::spinoff_prover]
#[verifier::rlimit(100)]
pub proof fn reserved_words(s: Seq<char>, p: int, w: Seq<char>)
    requires
        reserved_word(w),
        lit_at(s, p, w),
        !(p + w.len() < s.len() && crate::text::is_word_char(s[p + w.len()])),
    ensures
        name(Dialect::Konc, s, p) is None,
        name(Dialect::Kon, s, p) == Some((w, p + w.len())),
{
    lemma_lit_chars(s, p, w);
    lemma_lit_chars(s, p, seq!['l', 'e', 't']);
    lemma_lit_chars(s, p, seq!['f', 'n']);
    lemma_lit_chars(s, p, seq!['e', 'n', 'u', 'm']);
    lemma_lit_chars(s, p, seq!['s', 't', 'r', 'u', 'c', 't']);
    lemma_lit_chars(s, p, seq!['s', 'w', 'i', 't', 'c', 'h']);
    lemma_lit_chars(s, p, seq!['f', 'o', 'r']);
    lemma_lit_chars(s, p, seq!['i', 'n', 't', 'e', 'r', 'f', 'a', 'c', 'e']);
    lemma_lit_chars(s, p, seq!['r', 'e', 't', 'u', 'r', 'n']);
    lemma_lit_chars(s, p, seq!['e', 'x', 't', 'e', 'r', 'n']);
    lemma_lit_chars(s, p, seq!['p', 'u', 'b']);
    assert(s[p + 0] == w[0] && s[p + 1] == w[1]);
    assert(crate::text::keyword_len(s, p) == w.len());
    assert forall|i: int| p + 1 <= i < p + w.len() implies crate::text::is_word_char(
        #[trigger] s[i],
    ) by {
        assert(s[p + (i - p)] == w[i - p]);
    }
    lemma_word_chars(s, p + 1, p + w.len());
    assert(s.subrange(p, p + w.len()) =~= w);
}

/// A line comment is blank space: `//` up to a newline is skipped like the
/// newline itself.
pub proof fn line_comments_are_blank(s: Seq<char>, p: int, n: int)
    requires
        0 <= p,
        p + 2 <= n < s.len(),
        lit_at(s, p, seq!['/', '/']),
        forall|i: int| p + 2 <= i < n ==> #[trigger] s[i] != '\n',
        s[n] == '\n',
    ensures
        skip_ws(s, p) == skip_ws(s, n + 1),
{
    lemma_line_end_at(s, p + 2, n);
    lemma_lit_chars(s, p, seq!['/', '/']);
    assert(s[p + 0] == '/');
    assert(skip_ws(s, n) == skip_ws(s, n + 1));
    assert(skip_ws(s, p) == skip_ws(s, crate::text::line_end(s, p + 2)));
}

proof fn lemma_line_end_at(s: Seq<char>, p: int, n: int)
    requires
        0 <= p <= n < s.len(),
        forall|i: int| p <= i < n ==> #[trigger] s[i] != '\n',
        s[n] == '\n',
    ensures
        crate::text::line_end(s, p) == n,
    decreases n - p,
{
    if p < n {
        lemma_line_end_at(s, p + 1, n);
    }
}

// ---------------------------------------------------------------------------
// Trailing commas in enum and struct items
// ---------------------------------------------------------------------------

/// A kon enum item may put a comma after its last variant: whether the variants
/// are followed directly by `}` or by `,` and `}`, the item is the enum of those
/// variants and ends after the `}`.
pub proof fn kon_enum_trailing_comma(s: Seq<char>, p: int, a: int, n: Seq<char>, b: int)
    requires
        lit_at(s, p, seq!['e', 'n', 'u', 'm']),
        skip_ws1(s, p + 4) == Some(a),
        name(Dialect::Kon, s, a) == Some((n, b)),
        char_at(s, skip_ws(s, b), '{'),
    ensures
        ({
            let (variants, e) = syntax::variant_list(Dialect::Kon, s, skip_ws(s, skip_ws(s, b) + 1));
            let w = skip_ws(s, e);
            &&& char_at(s, w, '}') ==> kon_parser::enum_item(s, p) == Some(
                (kon_parser::SpecItem::Enum { name: n, variants }, w + 1),
            )
            &&& char_at(s, w, ',') && char_at(s, skip_ws(s, w + 1), '}')
                ==> kon_parser::enum_item(s, p) == Some(
                (kon_parser::SpecItem::Enum { name: n, variants }, skip_ws(s, w + 1) + 1),
            )
        }),
{
}

/// A kon struct item may put a comma after its last field: whether the fields
/// are followed directly by `}` or by `,` and `}`, the item is the struct of those
/// fields and ends after the `}`.
pub proof fn kon_struct_trailing_comma(s: Seq<char>, p: int, a: int, n: Seq<char>, b: int)
    requires
        lit_at(s, p, seq!['s', 't', 'r', 'u', 'c', 't']),
        skip_ws1(s, p + 6) == Some(a),
        name(Dialect::Kon, s, a) == Some((n, b)),
        char_at(s, skip_ws(s, b), '{'),
    ensures
        ({
            let (fields, e) = kon_parser::param_list(s, skip_ws(s, skip_ws(s, b) + 1));
            let w = skip_ws(s, e);
            &&& char_at(s, w, '}') ==> kon_parser::struct_item(s, p) == Some(
                (kon_parser::SpecItem::Struct { name: n, fields }, w + 1),
            )
            &&& char_at(s, w, ',') && char_at(s, skip_ws(s, w + 1), '}')
                ==> kon_parser::struct_item(s, p) == Some(
                (kon_parser::SpecItem::Struct { name: n, fields }, skip_ws(s, w + 1) + 1),
            )
        }),
{
}

/// A konc enum item may put a comma after its last variant: whether the variants
/// are followed directly by `}` or by `,` and `}`, the item is the enum of those
/// variants and ends after the `}`.
pub proof fn konc_enum_trailing_comma(s: Seq<char>, p: int, a: int, n: Seq<char>, b: int)
    requires
        lit_at(s, p, seq!['e', 'n', 'u', 'm']),
        skip_ws1(s, p + 4) == Some(a),
        name(Dialect::Konc, s, a) == Some((n, b)),
        char_at(s, skip_ws(s, b), '{'),
    ensures
        ({
            let (variants, e) = syntax::variant_list(
                Dialect::Konc,
                s,
                skip_ws(s, skip_ws(s, b) + 1),
            );
            let w = skip_ws(s, e);
            &&& char_at(s, w, '}') ==> konc_parser::enum_item(s, p) == Some(
                (konc_parser::SpecItem::Enum(SpecEnumItem { name: n, variants }), w + 1),
            )
            &&& char_at(s, w, ',') && char_at(s, skip_ws(s, w + 1), '}')
                ==> konc_parser::enum_item(s, p) == Some(
                (
                    konc_parser::SpecItem::Enum(SpecEnumItem { name: n, variants }),
                    skip_ws(s, w + 1) + 1,
                ),
            )
        }),
{
}

/// A konc struct item may put a comma after its last field: whether the fields
/// are followed directly by `}` or by `,` and `}`, the item is the struct of those
/// fields and ends after the `}`.
pub proof fn konc_struct_trailing_comma(s: Seq<char>, p: int, a: int, n: Seq<char>, b: int)
    requires
        lit_at(s, p, seq!['s', 't', 'r', 'u', 'c', 't']),
        skip_ws1(s, p + 6) == Some(a),
        name(Dialect::Konc, s, a) == Some((n, b)),
        char_at(s, skip_ws(s, b), '{'),
    ensures
        ({
            let (fields, e) = konc_parser::param_list(s, skip_ws(s, skip_ws(s, b) + 1));
            let w = skip_ws(s, e);
            &&& char_at(s, w, '}') ==> konc_parser::struct_item(s, p) == Some(
                (konc_parser::SpecItem::Struct(SpecStructItem { name: n, fields }), w + 1),
            )
            &&& char_at(s, w, ',') && char_at(s, skip_ws(s, w + 1), '}')
                ==> konc_parser::struct_item(s, p) == Some(
                (
                    konc_parser::SpecItem::Struct(SpecStructItem { name: n, fields }),
                    skip_ws(s, w + 1) + 1,
                ),
            )
        }),
{
}

// ---------------------------------------------------------------------------
// Function parameters
// ---------------------------------------------------------------------------

/// The parameters of a kon function are the parameter list that follows its name
/// and `(`: for `fn name(...)` with no receiver, the item (when it parses) has that
/// name, no receiver, and the parameters that `param_list` reads after the `(`.
pub proof fn kon_fn_params(s: Seq<char>, p: int, a: int, n: Seq<char>, c: int)
    requires
        lit_at(s, p, seq!['f', 'n']),
        skip_ws1(s, p + 2) == Some(a),
        !char_at(s, a, '('),
        name(Dialect::Kon, s, a) == Some((n, c)),
        char_at(s, skip_ws(s, c), '('),
    ensures
        kon_parser::fn_item(s, p) matches Some((kon_parser::SpecItem::Fn { receiver, name, params, body: _ }, _))
            ==> receiver is None && name == n && params == kon_parser::param_list(
            s,
            skip_ws(s, skip_ws(s, c) + 1),
        ).0,
{
}

/// The parameters of a konc function are the parameter list that follows its
/// name and `(`: for `fn name(...)` with no receivers, the item (when it parses)
/// has that name, no receivers, and the parameters that `param_list` reads after
/// the `(`.
#[verifier::spinoff_prover]
pub proof fn konc_fn_params(s: Seq<char>, p: int, a: int, n: Seq<char>, c: int)
    requires
        lit_at(s, p, seq!['f', 'n']),
        skip_ws1(s, p + 2) == Some(a),
        !char_at(s, a, '['),
        !char_at(s, a, '('),
        name(Dialect::Konc, s, a) == Some((n, c)),
        char_at(s, skip_ws(s, c), '('),
    ensures
        konc_parser::fn_item(s, p) matches Some((konc_parser::SpecItem::Fn(f), _)) ==> f.receiver is None
            && f.allocator_receiver is None && f.name == n && f.params == konc_parser::param_list(
            s,
            skip_ws(s, skip_ws(s, c) + 1),
        ).0,
{
    assert(0 <= a < s.len() && crate::text::is_word_start(s[a]));
    if lit_at(s, a, seq!['/', '/']) {
        assert(s.subrange(a, a + 2)[0] == s[a]);
    }
    assert(skip_ws(s, a) == a);
    if char_at(s, c, '.') {
        if lit_at(s, c, seq!['/', '/']) {
            assert(s.subrange(c, c + 2)[0] == s[c]);
        }
        assert(skip_ws(s, c) == c);
    }
    assert(konc_parser::alloc_receiver(s, a) is None);
    assert(konc_parser::receiver(s, a) is None);
}

// ---------------------------------------------------------------------------
// Visibility, imports and extern declarations
// ---------------------------------------------------------------------------

/// `pub` followed by blank space makes an item public; anything else leaves its
/// visibility unspecified. A top-level item is `Public` exactly when its text
/// starts with `pub` and blank space.
#[verifier::spinoff_prover]
pub proof fn konc_visibility(s: Seq<char>, p: int)
    ensures
        konc_parser::visibility(s, p) == if lit_at(s, p, seq!['p', 'u', 'b']) && skip_ws1(s, p + 3) is Some {
            (Visibility::Public, skip_ws1(s, p + 3)->0)
        } else {
            (Visibility::Unspecified, skip_ws(s, p))
        },
        konc_parser::toplevel_item(s, p) matches Some((t, _)) ==> (t.visibility == Visibility::Public
            <==> lit_at(s, p, seq!['p', 'u', 'b']) && skip_ws1(s, p + 3) is Some),
{
    if lit_at(s, p, seq!['p', 'u', 'b']) {
        assert(s.subrange(p, p + 3)[0] == s[p]);
        if lit_at(s, p, seq!['i', 'm', 'p', 'o', 'r', 't']) {
            assert(s.subrange(p, p + 6)[0] == s[p]);
        }
        if lit_at(s, p, seq!['f', 'r', 'o', 'm']) {
            assert(s.subrange(p, p + 4)[0] == s[p]);
        }
        assert(konc_parser::import_item(s, p) is None);
    }
}

/// `import a.b` is a module import of the path after `import`.
#[verifier::spinoff_prover]
pub proof fn konc_imports(s: Seq<char>, p: int)
    ensures
        lit_at(s, p, seq!['i', 'm', 'p', 'o', 'r', 't']) && skip_ws1(s, p + 6) is Some ==> {
            let (m, b) = konc_parser::path(s, skip_ws1(s, p + 6)->0);
            konc_parser::import_item(s, p) == Some(
                (konc_parser::SpecItem::Import(SpecImportItem::Module(m)), b),
            )
        },
{
    if lit_at(s, p, seq!['i', 'm', 'p', 'o', 'r', 't']) && lit_at(s, p, seq!['f', 'r', 'o', 'm']) {
        assert(s.subrange(p, p + 6)[0] == s[p]);
        assert(s.subrange(p, p + 4)[0] == s[p]);
    }
}

/// `from a.b import x, ...` imports the names that follow `import` from the path
/// after `from`.
pub proof fn konc_from_imports(
    s: Seq<char>,
    p: int,
    a: int,
    m: Seq<Seq<char>>,
    b: int,
    c: int,
    e: int,
    ids: Seq<Seq<char>>,
    f: int,
)
    requires
        lit_at(s, p, seq!['f', 'r', 'o', 'm']),
        skip_ws1(s, p + 4) == Some(a),
        konc_parser::path(s, a) == (m, b),
        skip_ws1(s, b) == Some(c),
        lit_at(s, c, seq!['i', 'm', 'p', 'o', 'r', 't']),
        skip_ws1(s, c + 6) == Some(e),
        konc_parser::import_identifiers(s, e) == Some((ids, f)),
    ensures
        konc_parser::import_item(s, p) == Some(
            (konc_parser::SpecItem::Import(SpecImportItem::Specific { path: m, idents: ids }), f),
        ),
{
    if lit_at(s, p, seq!['i', 'm', 'p', 'o', 'r', 't']) {
        assert(s.subrange(p, p + 6)[0] == s[p]);
        assert(s.subrange(p, p + 4)[0] == s[p]);
    }
}

/// The name of an extern function: a name or a quoted string followed by `=>` and
/// a second name is renamed, the first being the external name and the second the
/// name it gets; a name with no `=>` after it stands for itself.
#[verifier::spinoff_prover]
pub proof fn konc_extern_fn_names(s: Seq<char>, p: int)
    ensures
        name(Dialect::Konc, s, p) matches Some((n, a)) ==> (konc_parser::extern_fn_rename(
            s,
            skip_ws(s, a),
        ) matches Some((r, b)) ==> konc_parser::extern_fn_name(s, p) == Some(
            (SpecExternFnName::Rename { external: n, rename: r }, b),
        )),
        konc_parser::string_lit(s, p) matches Some((x, a)) ==> (konc_parser::extern_fn_rename(
            s,
            skip_ws(s, a),
        ) matches Some((r, b)) ==> konc_parser::extern_fn_name(s, p) == Some(
            (SpecExternFnName::Rename { external: x, rename: r }, b),
        )),
        name(Dialect::Konc, s, p) matches Some((n, a)) ==> (konc_parser::extern_fn_rename(
            s,
            skip_ws(s, a),
        ) is None ==> konc_parser::extern_fn_name(s, p) == Some((SpecExternFnName::Name(n), a))),
{
    assert(name(Dialect::Konc, s, p) is Some ==> konc_parser::string_lit(s, p) is None);
}

/// An extern function is variadic exactly when its parameters are followed by `,`
/// and `...`.
pub proof fn konc_variadic(s: Seq<char>, p: int)
    ensures
        konc_parser::variadic(s, p).0 <==> char_at(s, p, ',') && lit_at(
            s,
            skip_ws(s, p + 1),
            seq!['.', '.', '.'],
        ),
{
}

// ---------------------------------------------------------------------------
// Receivers
// ---------------------------------------------------------------------------

/// The receiver of a kon function is the parameter in parentheses before its
/// name: for `fn (r: T) name(...)`, the item (when it parses) has that receiver,
/// that name, and the parameters that `param_list` reads after the `(`.
pub proof fn kon_fn_receiver(s: Seq<char>, p: int, a: int, r: kon_parser::SpecParam, b: int, n: Seq<char>, c: int)
    requires
        lit_at(s, p, seq!['f', 'n']),
        skip_ws1(s, p + 2) == Some(a),
        kon_parser::receiver(s, a) == Some((r, b)),
        name(Dialect::Kon, s, b) == Some((n, c)),
        char_at(s, skip_ws(s, c), '('),
    ensures
        kon_parser::fn_item(s, p) matches Some((kon_parser::SpecItem::Fn { receiver, name, params, body: _ }, _))
            ==> receiver == Some(r) && name == n && params == kon_parser::param_list(
            s,
            skip_ws(s, skip_ws(s, c) + 1),
        ).0,
{
}

/// The receivers of a konc function: an allocator receiver `[a]` and a receiver
/// `(T).` or `T.` before the name are kept as such, and the parameters are those
/// that `param_list` reads after the `(` that follows the name.
pub proof fn konc_fn_receivers(
    s: Seq<char>,
    p: int,
    a: int,
    al: Seq<char>,
    b: int,
    r: Seq<char>,
    c: int,
    n: Seq<char>,
    e: int,
)
    requires
        lit_at(s, p, seq!['f', 'n']),
        skip_ws1(s, p + 2) == Some(a),
        konc_parser::alloc_receiver(s, a) == Some((al, b)),
        konc_parser::receiver(s, b) == Some((r, c)),
        name(Dialect::Konc, s, c) == Some((n, e)),
        char_at(s, skip_ws(s, e), '('),
    ensures
        konc_parser::fn_item(s, p) matches Some((konc_parser::SpecItem::Fn(f), _))
            ==> f.allocator_receiver == Some(al) && f.receiver == Some(r) && f.name == n
            && f.params == konc_parser::param_list(s, skip_ws(s, skip_ws(s, e) + 1)).0,
{
}

// ---------------------------------------------------------------------------
// Pointer kinds
// ---------------------------------------------------------------------------

/// `*const` gives a `Const` pointer and `*mut` a `Mut` pointer: after a `*` and
/// blank space, the words `const` and `mut` followed by blank space give the
/// pointer kind of that name, and any pointer kind that is read is `Const`
/// exactly when the word is `const`.
pub proof fn konc_pointer_kinds(s: Seq<char>, p: int)
    ensures
        ({
            let a = skip_ws(s, p + 1);
            &&& konc_parser::pointer_kind(s, p) matches Some((k, _)) ==> char_at(s, p, '*') && (
            k == PointerKind::Const <==> lit_at(s, a, seq!['c', 'o', 'n', 's', 't']))
                && (k == PointerKind::Mut <==> lit_at(s, a, seq!['m', 'u', 't']))
            &&& char_at(s, p, '*') && lit_at(s, a, seq!['c', 'o', 'n', 's', 't']) && skip_ws1(
                s,
                a + 5,
            ) is Some ==> konc_parser::pointer_kind(s, p) == Some(
                (PointerKind::Const, skip_ws1(s, a + 5)->0),
            )
            &&& char_at(s, p, '*') && lit_at(s, a, seq!['m', 'u', 't']) && skip_ws1(s, a + 3) is Some
                ==> konc_parser::pointer_kind(s, p) == Some(
                (PointerKind::Mut, skip_ws1(s, a + 3)->0),
            )
        }),
{
    let a = skip_ws(s, p + 1);
    if lit_at(s, a, seq!['c', 'o', 'n', 's', 't']) && lit_at(s, a, seq!['m', 'u', 't']) {
        assert(s.subrange(a, a + 5)[0] == s[a]);
        assert(s.subrange(a, a + 3)[0] == s[a]);
    }
}

// ---------------------------------------------------------------------------
// Binary operators: precedence and associativity
// ---------------------------------------------------------------------------

/// An ASCII letter.
pub open spec fn is_letter(c: char) -> bool {
    ('a' <= c && c <= 'z') || ('A' <= c && c <= 'Z')
}

/// The character that spells a binary operator.
pub open spec fn op_char(op: BinOp) -> char {
    match op {
        BinOp::Add => '+',
        BinOp::Sub => '-',
        BinOp::Mul => '*',
        BinOp::Div => '/',
    }
}

/// The binding level of an operator: `+` and `-` bind less tightly than `*` and `/`.
pub open spec fn op_level(op: BinOp) -> int {
    match op {
        BinOp::Add => 0,
        BinOp::Sub => 0,
        BinOp::Mul => 1,
        BinOp::Div => 1,
    }
}

pub open spec fn is_op_char(c: char) -> bool {
    c == '+' || c == '-' || c == '*' || c == '/'
}

/// The text `x o1 y o2 z`: three one-letter names and two operators, separated by
/// single spaces.
pub open spec fn binary_text(x: char, o1: BinOp, y: char, o2: BinOp, z: char) -> Seq<char> {
    seq![x, ' ', op_char(o1), ' ', y, ' ', op_char(o2), ' ', z]
}

pub open spec fn name_expr(c: char) -> SpecExpr {
    SpecExpr::Ident(seq![c])
}

pub open spec fn binary(a: SpecExpr, op: BinOp, b: SpecExpr) -> SpecExpr {
    SpecExpr::Binary(Box::new(a), op, Box::new(b))
}

/// How `x o1 y o2 z` groups: the second operator takes `y` first only when it
/// binds more tightly than the first; operators of one level associate to the
/// left.
pub open spec fn binary_tree(x: char, o1: BinOp, y: char, o2: BinOp, z: char) -> SpecExpr {
    if op_level(o2) > op_level(o1) {
        binary(name_expr(x), o1, binary(name_expr(y), o2, name_expr(z)))
    } else {
        binary(binary(name_expr(x), o1, name_expr(y)), o2, name_expr(z))
    }
}

/// A literal of two or more characters whose second character is not blank is not
/// at a position followed by a blank or by the end of the text.
broadcast proof fn lemma_no_lit(s: Seq<char>, p: int, t: Seq<char>)
    requires
        2 <= t.len(),
        t[1] != ' ',
        0 <= p,
        p + 1 >= s.len() || s[p + 1] == ' ',
    ensures
        !#[trigger] lit_at(s, p, t),
{
    if lit_at(s, p, t) {
        assert(s.subrange(p, p + t.len())[1] == s[p + 1]);
    }
}

/// A letter followed by the end of the text, or by ` op `, is a name and nothing
/// more.
#[verifier::spinoff_prover]
#[verifier::rlimit(40)]
proof fn lemma_letter_atom(d: Dialect, s: Seq<char>, p: int)
    requires
        0 <= p < s.len(),
        is_letter(s[p]),
        p + 1 == s.len() || (p + 3 < s.len() && s[p + 1] == ' ' && is_op_char(s[p + 2]) && s[p
            + 3] == ' '),
    ensures
        syntax::prefix_atom(d, s, p) == Some((name_expr(s[p]), p + 1)),
{
    broadcast use lemma_no_lit;

    let e = p + 1;
    let id = name_expr(s[p]);
    assert(crate::text::word_run(s, e) == e);
    assert(crate::text::keyword_len(s, p) == 0);
    assert(s.subrange(p, e) =~= seq![s[p]]);
    assert(name(d, s, p) == Some((seq![s[p]], e)));
    let w = if e == s.len() {
        e
    } else {
        e + 1
    };
    if e < s.len() {
        assert(skip_ws(s, e + 1) == e + 1);
    }
    assert(skip_ws(s, e) == w);
    assert(syntax::switch_expr(d, s, p) is None);
    assert(syntax::for_expr(d, s, p) is None);
    assert(syntax::struct_lit(d, s, p) is None);
    assert(syntax::type_variant(d, s, p) is None);
    assert(syntax::dot_variant(d, s, p) is None);
    assert(syntax::multiline_line(d, s, p) is None);
    assert(syntax::multiline_string(d, s, p) is None);
    assert(syntax::quoted_string(d, s, p) is None);
    assert(syntax::string_expr(d, s, p) is None);
    assert(syntax::number_expr(s, p) is None);
    assert(syntax::paren(d, s, p) is None);
    assert(syntax::ident_expr(d, s, p) == Some((id, e)));
    assert(syntax::primary(d, s, p) == Some((id, e)));
    assert(syntax::method_op(d, s, e) is None);
    assert(syntax::field_op(d, s, e) is None);
    assert(syntax::call_op(d, s, e) is None);
    assert(syntax::index_op(d, s, e) is None);
    assert(syntax::postfix_op(d, s, e) is None);
    assert(syntax::postfix_ops(d, s, e, id) == (id, e));
    assert(syntax::postfix(d, s, p) == Some((id, e)));
}

/// No operator step starts at the end of the text.
proof fn lemma_no_step_at_end(d: Dialect, s: Seq<char>, m: int, acc: SpecExpr)
    ensures
        syntax::infix_step(d, s, m, s.len() as int) is None,
        syntax::infix_loop(d, s, m, s.len() as int, acc) == (acc, s.len() as int),
{
    let n = s.len() as int;
    assert(skip_ws(s, n) == n);
    assert forall|c: char, op: BinOp, next: int| #[trigger]
        syntax::infix_op(d, s, n, c, op, next) is None by {
        assert(skip_ws(s, n) == n);
    }
    assert(syntax::infix_step(d, s, m, n) is None);
}

/// At a blank followed by operator `oc`, a blank and a letter, an operator step
/// for the character `oc` reads the operand after it; any other character gives no
/// step.
proof fn lemma_op_at(d: Dialect, s: Seq<char>, q: int)
    requires
        0 <= q,
        q + 3 < s.len(),
        s[q] == ' ',
        is_op_char(s[q + 1]),
        s[q + 2] == ' ',
        is_letter(s[q + 3]),
    ensures
        forall|c: char, op: BinOp, next: int| #[trigger]
            syntax::infix_op(d, s, q, c, op, next) == if c == s[q + 1] {
                match syntax::infix(d, s, next, q + 3) {
                    Some((y, e)) => Some((op, y, e)),
                    None => None,
                }
            } else {
                None
            },
{
    broadcast use lemma_no_lit;

    assert(skip_ws(s, q + 1) == q + 1);
    assert(skip_ws(s, q) == q + 1);
    assert(skip_ws(s, q + 3) == q + 3);
    assert(skip_ws(s, q + 2) == q + 3);
}

/// The operator steps at `q`, where the text holds ` op ` and, after it, an
/// operand that every level reads as `y` ending at `e`.
proof fn lemma_steps_at(d: Dialect, s: Seq<char>, m: int, q: int, op: BinOp, y: SpecExpr, e: int)
    requires
        forall|c: char, o: BinOp, next: int| #[trigger]
            syntax::infix_op(d, s, q, c, o, next) == if c == op_char(op) {
                Some((o, y, e))
            } else {
                None
            },
    ensures
        syntax::infix_step(d, s, m, q) == if m <= op_level(op) {
            Some((op, y, e))
        } else {
            None
        },
{
    let add = syntax::infix_op(d, s, q, '+', BinOp::Add, 1);
    let sub = syntax::infix_op(d, s, q, '-', BinOp::Sub, 1);
    let mul = syntax::infix_op(d, s, q, '*', BinOp::Mul, 2);
    let div = syntax::infix_op(d, s, q, '/', BinOp::Div, 2);
    match op {
        BinOp::Add => {},
        BinOp::Sub => {},
        BinOp::Mul => {},
        BinOp::Div => {},
    }
}

/// The facts about `x o1 y o2 z` that the law is built from.
#[verifier::spinoff_prover]
#[verifier::rlimit(60)]
proof fn lemma_binary_text_parts(d: Dialect, x: char, o1: BinOp, y: char, o2: BinOp, z: char, m: int)
    requires
        is_letter(x),
        is_letter(y),
        is_letter(z),
    ensures
        ({
            let s = binary_text(x, o1, y, o2, z);
            let (yx, zx) = (name_expr(y), name_expr(z));
            &&& syntax::infix(d, s, m, 8) == Some((zx, 9int))
            &&& syntax::infix_step(d, s, m, 5) == if m <= op_level(o2) {
                Some((o2, zx, 9int))
            } else {
                None
            }
            &&& forall|acc: SpecExpr| #[trigger]
                syntax::infix_loop(d, s, m, 5, acc) == if m <= op_level(o2) {
                    (binary(acc, o2, zx), 9int)
                } else {
                    (acc, 5int)
                }
            &&& syntax::infix(d, s, m, 4) == if m <= op_level(o2) {
                Some((binary(yx, o2, zx), 9int))
            } else {
                Some((yx, 5int))
            }
        }),
{
    let s = binary_text(x, o1, y, o2, z);
    let (yx, zx) = (name_expr(y), name_expr(z));
    assert(s.len() == 9);
    assert(s[4] == y && s[5] == ' ' && s[6] == op_char(o2) && s[7] == ' ' && s[8] == z);
    lemma_letter_atom(d, s, 8);
    lemma_letter_atom(d, s, 4);
    lemma_no_step_at_end(d, s, m, zx);
    assert(syntax::infix(d, s, m, 8) == Some((zx, 9int)));
    lemma_op_at(d, s, 5);
    assert forall|nx: int| #[trigger] syntax::infix(d, s, nx, 8) == Some((zx, 9int)) by {
        lemma_no_step_at_end(d, s, nx, zx);
    }
    lemma_steps_at(d, s, m, 5, o2, zx, 9);
    assert(syntax::infix_step(d, s, m, 5) == if m <= op_level(o2) {
        Some((o2, zx, 9int))
    } else {
        None
    });
    assert forall|acc: SpecExpr| #[trigger]
        syntax::infix_loop(d, s, m, 5, acc) == if m <= op_level(o2) {
            (binary(acc, o2, zx), 9int)
        } else {
            (acc, 5int)
        } by {
        lemma_no_step_at_end(d, s, m, binary(acc, o2, zx));
    }
    assert(syntax::infix_loop(d, s, m, 5, yx) == if m <= op_level(o2) {
        (binary(yx, o2, zx), 9int)
    } else {
        (yx, 5int)
    });
}

/// The first operator step of `x o1 ...`: the operand of `o1` is read at the level
/// just above that of `o1`.
proof fn lemma_first_step(
    d: Dialect,
    s: Seq<char>,
    op: BinOp,
    y: SpecExpr,
    e: int,
)
    requires
        forall|c: char, o: BinOp, next: int| #[trigger]
            syntax::infix_op(d, s, 1, c, o, next) == if c == op_char(op) {
                match syntax::infix(d, s, next, 4) {
                    Some((y, e)) => Some((o, y, e)),
                    None => None,
                }
            } else {
                None
            },
        syntax::infix(d, s, op_level(op) + 1, 4) == Some((y, e)),
    ensures
        syntax::infix_step(d, s, 0, 1) == Some((op, y, e)),
{
    let add = syntax::infix_op(d, s, 1, '+', BinOp::Add, 1);
    let sub = syntax::infix_op(d, s, 1, '-', BinOp::Sub, 1);
    let mul = syntax::infix_op(d, s, 1, '*', BinOp::Mul, 2);
    let div = syntax::infix_op(d, s, 1, '/', BinOp::Div, 2);
    match op {
        BinOp::Add => {},
        BinOp::Sub => {},
        BinOp::Mul => {},
        BinOp::Div => {},
    }
}

/// `x o1 y o2 z` is `binary_tree(x, o1, y, o2, z)` in dialect `d`.
#[verifier::spinoff_prover]
#[verifier::rlimit(60)]
proof fn lemma_group_by_level(d: Dialect, x: char, o1: BinOp, y: char, o2: BinOp, z: char)
    requires
        is_letter(x),
        is_letter(y),
        is_letter(z),
    ensures
        syntax::expr(d, binary_text(x, o1, y, o2, z), 0) == Some(
            (binary_tree(x, o1, y, o2, z), 9int),
        ),
{
    let s = binary_text(x, o1, y, o2, z);
    let (xx, yx, zx) = (name_expr(x), name_expr(y), name_expr(z));
    assert(s.len() == 9);
    assert(s[0] == x && s[1] == ' ' && s[2] == op_char(o1) && s[3] == ' ' && s[4] == y);
    lemma_letter_atom(d, s, 0);
    lemma_op_at(d, s, 1);
    assert forall|m: int| #[trigger] syntax::infix(d, s, m, 4) == if m <= op_level(o2) {
        Some((binary(yx, o2, zx), 9int))
    } else {
        Some((yx, 5int))
    } by {
        lemma_binary_text_parts(d, x, o1, y, o2, z, m);
    }
    lemma_binary_text_parts(d, x, o1, y, o2, z, 0);
    let first = binary(xx, o1, yx);
    if op_level(o2) > op_level(o1) {
        lemma_first_step(d, s, o1, binary(yx, o2, zx), 9);
        assert(syntax::infix_step(d, s, 0, 1) == Some((o1, binary(yx, o2, zx), 9int)));
        lemma_no_step_at_end(d, s, 0, binary(xx, o1, binary(yx, o2, zx)));
    } else {
        lemma_first_step(d, s, o1, yx, 5);
        assert(syntax::infix_step(d, s, 0, 1) == Some((o1, yx, 5int)));
        assert(syntax::infix_loop(d, s, 0, 5, first) == (binary(first, o2, zx), 9int));
    }
    assert(syntax::infix_loop(d, s, 0, 1, xx) == (binary_tree(x, o1, y, o2, z), 9int));
    assert(syntax::infix(d, s, 0, 0) == Some((binary_tree(x, o1, y, o2, z), 9int)));
}

/// Prefix minus applies to the operand right after it only: for one-letter names
/// `x`, `y` and any operator `o`, `-x o y` is `(-x) o y`, in both dialects.
#[verifier::spinoff_prover]
#[verifier::rlimit(60)]
pub proof fn negation_binds_tighter(d: Dialect, x: char, o: BinOp, y: char)
    requires
        is_letter(x),
        is_letter(y),
    ensures
        syntax::expr(d, seq!['-', x, ' ', op_char(o), ' ', y], 0) == Some(
            (binary(SpecExpr::Neg(Box::new(name_expr(x))), o, name_expr(y)), 6int),
        ),
{
    let s = seq!['-', x, ' ', op_char(o), ' ', y];
    let (xx, yx) = (name_expr(x), name_expr(y));
    let neg = SpecExpr::Neg(Box::new(xx));
    assert(s.len() == 6);
    assert(s[0] == '-' && s[1] == x && s[2] == ' ' && s[3] == op_char(o) && s[4] == ' ' && s[5]
        == y);
    lemma_letter_atom(d, s, 1);
    lemma_letter_atom(d, s, 5);
    lemma_op_at(d, s, 2);
    assert forall|nx: int| #[trigger] syntax::infix(d, s, nx, 5) == Some((yx, 6int)) by {
        lemma_no_step_at_end(d, s, nx, yx);
    }
    assert(syntax::infix_step(d, s, 3, 2) is None);
    assert(syntax::infix_loop(d, s, 3, 2, xx) == (xx, 2int));
    assert(syntax::infix(d, s, 3, 1) == Some((xx, 2int)));
    assert(syntax::prefix_atom(d, s, 0) == Some((neg, 2int)));
    lemma_steps_at(d, s, 0, 2, o, yx, 6);
    lemma_no_step_at_end(d, s, 0, binary(neg, o, yx));
    assert(syntax::infix_loop(d, s, 0, 2, neg) == (binary(neg, o, yx), 6int));
    assert(syntax::infix(d, s, 0, 0) == Some((binary(neg, o, yx), 6int)));
}

/// Binary operators group by level and associate to the left: for any one-letter
/// names `x`, `y`, `z` and operators `o1`, `o2`, the expression `x o1 y o2 z` is
/// `x o1 (y o2 z)` when `o2` binds more tightly than `o1`, and `(x o1 y) o2 z`
/// otherwise (in particular whenever both are of one level), in both dialects.
pub proof fn binary_operators_group_by_level(
    d: Dialect,
    x: char,
    o1: BinOp,
    y: char,
    o2: BinOp,
    z: char,
)
    requires
        is_letter(x),
        is_letter(y),
        is_letter(z),
    ensures
        syntax::expr(d, binary_text(x, o1, y, o2, z), 0) == Some(
            (binary_tree(x, o1, y, o2, z), 9int),
        ),
        kon_parser::spec_expr(binary_text(x, o1, y, o2, z)) == Ok::<SpecExpr, int>(
            binary_tree(x, o1, y, o2, z),
        ),
        konc_parser::spec_expr(binary_text(x, o1, y, o2, z)) == Ok::<SpecExpr, int>(
            binary_tree(x, o1, y, o2, z),
        ),
{
    lemma_group_by_level(d, x, o1, y, o2, z);
    lemma_group_by_level(Dialect::Kon, x, o1, y, o2, z);
    lemma_group_by_level(Dialect::Konc, x, o1, y, o2, z);
    assert(binary_text(x, o1, y, o2, z).len() == 9);
}

} // verus!
