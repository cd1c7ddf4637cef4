//! The kon-parser grammar: a program is a list of `let`, `enum`, `struct`, `fn`
//! and `interface` items.
//!
//! `program` and `expr` parse a whole text; `parse` is `program` for texts that
//! are known to parse. The grammar is stated by the spec functions of this module
//! (items) and of `syntax` (expressions and blocks, with `Dialect::Kon`).
use vstd::prelude::*;
pub use crate::ast::{BinOp, Expr, Stmt, StringPart, StructInitializer, SwitchArm};
use crate::ast::{SpecExpr, SpecStmt};
use crate::expr_parser;
use crate::expr_parser::{agrees, consumes, trailing_comma, within};
use crate::syntax;
use crate::shape;
use crate::shape::{block_body, dialect_expr};
use crate::syntax::{adv, either, name, Dialect};
use crate::text::{at_char, at_lit, char_at, chars_of, lit_at, skip_ws, skip_ws1, ws, ws1};

verus! {

broadcast use crate::text::group_text_bounds;

/// `name: Type`
#[derive(Debug)]
pub struct Param {
    pub name: String,
    pub ty: String,
}

/// A top-level item.
#[derive(Debug)]
pub enum Item {
    Let(String, Expr),
    Enum { name: String, variants: Vec<String> },
    Struct { name: String, fields: Vec<Param> },
    Fn { receiver: Option<Param>, name: String, params: Vec<Param>, body: Vec<Stmt> },
    Interface { name: String, methods: Vec<InterfaceMethod> },
}

/// `fn name(params);` inside an interface.
#[derive(Debug)]
pub struct InterfaceMethod {
    pub name: String,
    pub params: Vec<Param>,
}

/// Why a text is not a program or an expression: `offset` is the position (in
/// characters) where the parse stopped short of the end of the text, that is,
/// where the last item (or the expression) that matched ends. It is not the
/// furthest position at which some alternative failed: for `let x = 1` the
/// offset is 0 (no item matched), although the parse got as far as position 9
/// before the missing `;`. No line, column or expected tokens are reported.
#[derive(Debug)]
pub struct ParseError {
    pub offset: usize,
}

// ---------------------------------------------------------------------------
// Models
// ---------------------------------------------------------------------------

pub struct SpecParam {
    pub name: Seq<char>,
    pub ty: Seq<char>,
}

pub struct SpecInterfaceMethod {
    pub name: Seq<char>,
    pub params: Seq<SpecParam>,
}

pub enum SpecItem {
    Let(Seq<char>, SpecExpr),
    Enum { name: Seq<char>, variants: Seq<Seq<char>> },
    Struct { name: Seq<char>, fields: Seq<SpecParam> },
    Fn {
        receiver: Option<SpecParam>,
        name: Seq<char>,
        params: Seq<SpecParam>,
        body: Seq<SpecStmt>,
    },
    Interface { name: Seq<char>, methods: Seq<SpecInterfaceMethod> },
}

impl DeepView for Param {
    type V = SpecParam;

    open spec fn deep_view(&self) -> SpecParam {
        SpecParam { name: self.name@, ty: self.ty@ }
    }
}

impl DeepView for InterfaceMethod {
    type V = SpecInterfaceMethod;

    open spec fn deep_view(&self) -> SpecInterfaceMethod {
        SpecInterfaceMethod { name: self.name@, params: self.params.deep_view() }
    }
}

impl DeepView for Item {
    type V = SpecItem;

    open spec fn deep_view(&self) -> SpecItem {
        match self {
            Item::Let(n, e) => SpecItem::Let(n@, e.deep_view()),
            Item::Enum { name, variants } => SpecItem::Enum {
                name: name@,
                variants: variants.deep_view(),
            },
            Item::Struct { name, fields } => SpecItem::Struct {
                name: name@,
                fields: fields.deep_view(),
            },
            Item::Fn { receiver, name, params, body } => SpecItem::Fn {
                receiver: receiver.deep_view(),
                name: name@,
                params: params.deep_view(),
                body: body.deep_view(),
            },
            Item::Interface { name, methods } => SpecItem::Interface {
                name: name@,
                methods: methods.deep_view(),
            },
        }
    }
}

// ---------------------------------------------------------------------------
// Grammar
// ---------------------------------------------------------------------------

/// `name:ident() _ ":" _ ty:ident()`
pub open spec fn param(s: Seq<char>, p: int) -> Option<(SpecParam, int)> {
    match name(Dialect::Kon, s, p) {
        Some((n, a)) => {
            let b = skip_ws(s, a);
            if char_at(s, b, ':') {
                match name(Dialect::Kon, s, skip_ws(s, b + 1)) {
                    Some((t, e)) => Some((SpecParam { name: n, ty: t }, e)),
                    None => None,
                }
            } else {
                None
            }
        },
        None => None,
    }
}

/// `param() ** (_ "," _)`
pub open spec fn param_list(s: Seq<char>, p: int) -> (Seq<SpecParam>, int) {
    match param(s, p) {
        Some((x, q)) => param_list_rest(s, q, seq![x]),
        None => (seq![], p),
    }
}

pub open spec fn param_list_rest(s: Seq<char>, q: int, acc: Seq<SpecParam>) -> (
    Seq<SpecParam>,
    int,
)
    decreases s.len() - q,
{
    let w = skip_ws(s, q);
    if char_at(s, w, ',') {
        match param(s, skip_ws(s, w + 1)) {
            Some((x, q2)) => if q < q2 <= s.len() {
                param_list_rest(s, q2, acc.push(x))
            } else {
                (acc, q)
            },
            None => (acc, q),
        }
    } else {
        (acc, q)
    }
}

/// `"let" __ name:ident() _ "=" _ e:expr() _ ";"`
pub open spec fn let_item(s: Seq<char>, p: int) -> Option<(SpecItem, int)> {
    if lit_at(s, p, seq!['l', 'e', 't']) {
        match skip_ws1(s, p + 3) {
            Some(a) => match name(Dialect::Kon, s, a) {
                Some((n, b)) => {
                    let c = skip_ws(s, b);
                    if char_at(s, c, '=') {
                        match syntax::expr(Dialect::Kon, s, skip_ws(s, c + 1)) {
                            Some((e, f)) => {
                                let g = skip_ws(s, f);
                                if char_at(s, g, ';') {
                                    Some((SpecItem::Let(n, e), g + 1))
                                } else {
                                    None
                                }
                            },
                            None => None,
                        }
                    } else {
                        None
                    }
                },
                None => None,
            },
            None => None,
        }
    } else {
        None
    }
}

/// `"enum" __ name:ident() _ "{" _ variants:(enum_variant() ** (_ "," _)) _ ","? _ "}"`
pub open spec fn enum_item(s: Seq<char>, p: int) -> Option<(SpecItem, int)> {
    if lit_at(s, p, seq!['e', 'n', 'u', 'm']) {
        match skip_ws1(s, p + 4) {
            Some(a) => match name(Dialect::Kon, s, a) {
                Some((n, b)) => {
                    let c = skip_ws(s, b);
                    if char_at(s, c, '{') {
                        let (variants, e) = syntax::variant_list(
                            Dialect::Kon,
                            s,
                            skip_ws(s, c + 1),
                        );
                        let h = syntax::trailing_comma(s, e);
                        if char_at(s, h, '}') {
                            Some((SpecItem::Enum { name: n, variants }, h + 1))
                        } else {
                            None
                        }
                    } else {
                        None
                    }
                },
                None => None,
            },
            None => None,
        }
    } else {
        None
    }
}

/// `"struct" __ name:ident() _ "{" _ fields:(param() ** (_ "," _)) _ ","? _ "}"`
pub open spec fn struct_item(s: Seq<char>, p: int) -> Option<(SpecItem, int)> {
    if lit_at(s, p, seq!['s', 't', 'r', 'u', 'c', 't']) {
        match skip_ws1(s, p + 6) {
            Some(a) => match name(Dialect::Kon, s, a) {
                Some((n, b)) => {
                    let c = skip_ws(s, b);
                    if char_at(s, c, '{') {
                        let (fields, e) = param_list(s, skip_ws(s, c + 1));
                        let h = syntax::trailing_comma(s, e);
                        if char_at(s, h, '}') {
                            Some((SpecItem::Struct { name: n, fields }, h + 1))
                        } else {
                            None
                        }
                    } else {
                        None
                    }
                },
                None => None,
            },
            None => None,
        }
    } else {
        None
    }
}

/// `"(" _ p:param() _ ")" _`
pub open spec fn receiver(s: Seq<char>, p: int) -> Option<(SpecParam, int)> {
    if char_at(s, p, '(') {
        match param(s, skip_ws(s, p + 1)) {
            Some((x, c)) => {
                let e = skip_ws(s, c);
                if char_at(s, e, ')') {
                    Some((x, skip_ws(s, e + 1)))
                } else {
                    None
                }
            },
            None => None,
        }
    } else {
        None
    }
}

/// `"fn" __ recv:receiver()? name:ident() _ "(" _ params:(param() ** (_ "," _)) _ ")" _
///  body:block()`
pub open spec fn fn_item(s: Seq<char>, p: int) -> Option<(SpecItem, int)> {
    if lit_at(s, p, seq!['f', 'n']) {
        match skip_ws1(s, p + 2) {
            Some(a) => {
                let (recv, b) = match receiver(s, a) {
                    Some((x, b)) => (Some(x), b),
                    None => (None, a),
                };
                match name(Dialect::Kon, s, b) {
                    Some((n, c)) => {
                        let e = skip_ws(s, c);
                        if char_at(s, e, '(') {
                            let (params, f) = param_list(s, skip_ws(s, e + 1));
                            let g = skip_ws(s, f);
                            if char_at(s, g, ')') {
                                match syntax::block(Dialect::Kon, s, skip_ws(s, g + 1)) {
                                    Some((body, k)) => Some(
                                        (SpecItem::Fn { receiver: recv, name: n, params, body }, k),
                                    ),
                                    None => None,
                                }
                            } else {
                                None
                            }
                        } else {
                            None
                        }
                    },
                    None => None,
                }
            },
            None => None,
        }
    } else {
        None
    }
}

/// `"fn" __ name:ident() _ "(" _ params:(param() ** (_ "," _)) _ ")" _ ";"`
pub open spec fn interface_method(s: Seq<char>, p: int) -> Option<(SpecInterfaceMethod, int)> {
    if lit_at(s, p, seq!['f', 'n']) {
        match skip_ws1(s, p + 2) {
            Some(a) => match name(Dialect::Kon, s, a) {
                Some((n, b)) => {
                    let c = skip_ws(s, b);
                    if char_at(s, c, '(') {
                        let (params, e) = param_list(s, skip_ws(s, c + 1));
                        let f = skip_ws(s, e);
                        if char_at(s, f, ')') {
                            let g = skip_ws(s, f + 1);
                            if char_at(s, g, ';') {
                                Some((SpecInterfaceMethod { name: n, params }, g + 1))
                            } else {
                                None
                            }
                        } else {
                            None
                        }
                    } else {
                        None
                    }
                },
                None => None,
            },
            None => None,
        }
    } else {
        None
    }
}

/// `interface_method() ** _`
pub open spec fn method_list(s: Seq<char>, p: int) -> (Seq<SpecInterfaceMethod>, int) {
    match interface_method(s, p) {
        Some((m, q)) => method_list_rest(s, q, seq![m]),
        None => (seq![], p),
    }
}

pub open spec fn method_list_rest(s: Seq<char>, q: int, acc: Seq<SpecInterfaceMethod>) -> (
    Seq<SpecInterfaceMethod>,
    int,
)
    decreases s.len() - q,
{
    match interface_method(s, skip_ws(s, q)) {
        Some((m, q2)) => if q < q2 <= s.len() {
            method_list_rest(s, q2, acc.push(m))
        } else {
            (acc, q)
        },
        None => (acc, q),
    }
}

/// `"interface" __ name:ident() _ "{" _ methods:(interface_method() ** _) _ "}"`
pub open spec fn interface_item(s: Seq<char>, p: int) -> Option<(SpecItem, int)> {
    if lit_at(s, p, seq!['i', 'n', 't', 'e', 'r', 'f', 'a', 'c', 'e']) {
        match skip_ws1(s, p + 9) {
            Some(a) => match name(Dialect::Kon, s, a) {
                Some((n, b)) => {
                    let c = skip_ws(s, b);
                    if char_at(s, c, '{') {
                        let (methods, e) = method_list(s, skip_ws(s, c + 1));
                        let g = skip_ws(s, e);
                        if char_at(s, g, '}') {
                            Some((SpecItem::Interface { name: n, methods }, g + 1))
                        } else {
                            None
                        }
                    } else {
                        None
                    }
                },
                None => None,
            },
            None => None,
        }
    } else {
        None
    }
}

/// `let_item() / enum_item() / struct_item() / fn_item() / interface_item()`
pub open spec fn item(s: Seq<char>, p: int) -> Option<(SpecItem, int)> {
    either(
        let_item(s, p),
        either(
            enum_item(s, p),
            either(struct_item(s, p), either(fn_item(s, p), interface_item(s, p))),
        ),
    )
}

/// `item() ** _`
pub open spec fn item_list(s: Seq<char>, p: int) -> (Seq<SpecItem>, int) {
    match item(s, p) {
        Some((it, q)) => item_list_rest(s, q, seq![it]),
        None => (seq![], p),
    }
}

pub open spec fn item_list_rest(s: Seq<char>, q: int, acc: Seq<SpecItem>) -> (Seq<SpecItem>, int)
    decreases s.len() - q,
{
    match item(s, skip_ws(s, q)) {
        Some((it, q2)) => if q < q2 <= s.len() {
            item_list_rest(s, q2, acc.push(it))
        } else {
            (acc, q)
        },
        None => (acc, q),
    }
}

/// `_ items:(item() ** _) _`: the items and the position where the rule stops.
pub open spec fn program_prefix(s: Seq<char>) -> (Seq<SpecItem>, int) {
    let (items, b) = item_list(s, skip_ws(s, 0));
    (items, skip_ws(s, b))
}

/// The program that the text spells, or the position where the parse stopped
/// short of the end of the text.
pub open spec fn spec_program(s: Seq<char>) -> Result<Seq<SpecItem>, int> {
    let (items, e) = program_prefix(s);
    if e == s.len() {
        Ok(items)
    } else {
        Err(e)
    }
}

/// The expression that the whole text spells, or the position where the parse
/// stopped short of the end of the text (0 when no expression starts the text).
pub open spec fn spec_expr(s: Seq<char>) -> Result<SpecExpr, int> {
    match syntax::expr(Dialect::Kon, s, 0) {
        Some((e, q)) => if q == s.len() {
            Ok(e)
        } else {
            Err(q)
        },
        None => Err(0),
    }
}

// ---------------------------------------------------------------------------
// What the grammar builds
// ---------------------------------------------------------------------------

/// The expressions and statements of the item are trees of the kon dialect, and
/// the body of a function is a `block_body`.
pub open spec fn kon_item(it: SpecItem) -> bool {
    match it {
        SpecItem::Let(_, e) => dialect_expr(Dialect::Kon, e),
        SpecItem::Fn { receiver: _, name: _, params: _, body } => block_body(Dialect::Kon, body),
        _ => true,
    }
}

pub open spec fn kon_items(items: Seq<SpecItem>) -> bool {
    forall|i: int| 0 <= i < items.len() ==> #[trigger] kon_item(items[i])
}

proof fn lemma_let_item(s: Seq<char>, p: int)
    ensures
        let_item(s, p) matches Some((it, _)) ==> kon_item(it),
{
    if lit_at(s, p, seq!['l', 'e', 't']) {
        if let Some(a) = skip_ws1(s, p + 3) {
            if let Some((n, b)) = name(Dialect::Kon, s, a) {
                let c = skip_ws(s, b);
                if char_at(s, c, '=') {
                    shape::lemma_expr(Dialect::Kon, s, skip_ws(s, c + 1));
                }
            }
        }
    }
}

proof fn lemma_fn_item(s: Seq<char>, p: int)
    ensures
        fn_item(s, p) matches Some((it, _)) ==> kon_item(it),
{
    if lit_at(s, p, seq!['f', 'n']) {
        if let Some(a) = skip_ws1(s, p + 2) {
            let b = match receiver(s, a) {
                Some((x, b)) => b,
                None => a,
            };
            if let Some((n, c)) = name(Dialect::Kon, s, b) {
                let e = skip_ws(s, c);
                if char_at(s, e, '(') {
                    let (params, f) = param_list(s, skip_ws(s, e + 1));
                    let g = skip_ws(s, f);
                    if char_at(s, g, ')') {
                        shape::lemma_block(Dialect::Kon, s, skip_ws(s, g + 1));
                    }
                }
            }
        }
    }
}

proof fn lemma_item_list_rest(s: Seq<char>, q: int, acc: Seq<SpecItem>)
    requires
        kon_items(acc),
    ensures
        kon_items(item_list_rest(s, q, acc).0),
    decreases s.len() - q,
{
    let w = skip_ws(s, q);
    lemma_let_item(s, w);
    lemma_fn_item(s, w);
    if let Some((it, q2)) = item(s, w) {
        if q < q2 <= s.len() {
            assert(kon_items(acc.push(it))) by {
                assert forall|i: int| 0 <= i < acc.push(it).len() implies #[trigger] kon_item(
                    acc.push(it)[i],
                ) by {
                    if i < acc.len() {
                        assert(acc.push(it)[i] == acc[i]);
                    }
                }
            }
            lemma_item_list_rest(s, q2, acc.push(it));
        }
    }
}

/// The kon grammar builds no `return` statement and no block expression, ends a
/// statement list with at most one `Tail` statement (which is then its last), and
/// gives every switch arm a pattern: every program and every expression that it
/// accepts is a tree of the kon dialect.
pub proof fn kon_parses_are_kon_trees(text: Seq<char>)
    ensures
        spec_program(text) matches Ok(items) ==> kon_items(items),
        spec_expr(text) matches Ok(e) ==> dialect_expr(Dialect::Kon, e),
{
    let p = skip_ws(text, 0);
    lemma_let_item(text, p);
    lemma_fn_item(text, p);
    if let Some((it, q)) = item(text, p) {
        assert(kon_items(seq![it]));
        lemma_item_list_rest(text, q, seq![it]);
    }
    shape::lemma_expr(Dialect::Kon, text, 0);
}

// ---------------------------------------------------------------------------
// Parser
// ---------------------------------------------------------------------------

/// Implements `param`.
pub fn parse_param(s: &Vec<char>, p: usize) -> (r: Option<(Param, usize)>)
    requires
        p <= s.len(),
    ensures
        agrees(r, param(s@, p as int)),
        consumes(r, p, s.len() as int),
{
    let (n, a) = match expr_parser::name(Dialect::Kon, s, p) {
        Some(x) => x,
        None => return None,
    };
    let b = ws(s, a);
    if !at_char(s, b, ':') {
        return None;
    }
    match expr_parser::name(Dialect::Kon, s, ws(s, b + 1)) {
        Some((t, e)) => Some((Param { name: n, ty: t }, e)),
        None => None,
    }
}

/// Implements `param_list`.
pub fn parse_param_list(s: &Vec<char>, p: usize) -> (r: (Vec<Param>, usize))
    requires
        p <= s.len(),
    ensures
        r.0.deep_view() == param_list(s@, p as int).0,
        r.1 == param_list(s@, p as int).1,
        p <= r.1 <= s.len(),
{
    let mut acc: Vec<Param> = Vec::new();
    let (x, q0) = match parse_param(s, p) {
        Some(x) => x,
        None => return (acc, p),
    };
    let ghost a0 = acc;
    acc.push(x);
    proof {
        crate::ast::lemma_push_deep_view(a0, acc, x);
        assert(acc.deep_view() =~= seq![x.deep_view()]);
    }
    let mut q = q0;
    loop
        invariant
            p <= q <= s.len(),
            param_list(s@, p as int) == param_list_rest(s@, q as int, acc.deep_view()),
        decreases s.len() - q,
    {
        let w = ws(s, q);
        if !at_char(s, w, ',') {
            return (acc, q);
        }
        match parse_param(s, ws(s, w + 1)) {
            Some((x, q2)) => {
                let ghost a1 = acc;
                acc.push(x);
                proof {
                    crate::ast::lemma_push_deep_view(a1, acc, x);
                }
                q = q2;
            },
            None => return (acc, q),
        }
    }
}

/// Implements `let_item`.
pub fn parse_let_item(s: &Vec<char>, p: usize) -> (r: Option<(Item, usize)>)
    requires
        p <= s.len(),
    ensures
        agrees(r, let_item(s@, p as int)),
        consumes(r, p, s.len() as int),
{
    if !at_lit(s, p, &['l', 'e', 't']) {
        return None;
    }
    let a = match ws1(s, p + 3) {
        Some(a) => a,
        None => return None,
    };
    let (n, b) = match expr_parser::name(Dialect::Kon, s, a) {
        Some(x) => x,
        None => return None,
    };
    let c = ws(s, b);
    if !at_char(s, c, '=') {
        return None;
    }
    let (e, f) = match expr_parser::expr(Dialect::Kon, s, ws(s, c + 1)) {
        Some(x) => x,
        None => return None,
    };
    let g = ws(s, f);
    if !at_char(s, g, ';') {
        return None;
    }
    Some((Item::Let(n, e), g + 1))
}

/// Implements `enum_item`.
pub fn parse_enum_item(s: &Vec<char>, p: usize) -> (r: Option<(Item, usize)>)
    requires
        p <= s.len(),
    ensures
        agrees(r, enum_item(s@, p as int)),
        consumes(r, p, s.len() as int),
{
    if !at_lit(s, p, &['e', 'n', 'u', 'm']) {
        return None;
    }
    let a = match ws1(s, p + 4) {
        Some(a) => a,
        None => return None,
    };
    let (n, b) = match expr_parser::name(Dialect::Kon, s, a) {
        Some(x) => x,
        None => return None,
    };
    let c = ws(s, b);
    if !at_char(s, c, '{') {
        return None;
    }
    let (variants, e) = expr_parser::variant_list(Dialect::Kon, s, ws(s, c + 1));
    let h = trailing_comma(s, e);
    if !at_char(s, h, '}') {
        return None;
    }
    Some((Item::Enum { name: n, variants }, h + 1))
}

/// Implements `struct_item`.
pub fn parse_struct_item(s: &Vec<char>, p: usize) -> (r: Option<(Item, usize)>)
    requires
        p <= s.len(),
    ensures
        agrees(r, struct_item(s@, p as int)),
        consumes(r, p, s.len() as int),
{
    if !at_lit(s, p, &['s', 't', 'r', 'u', 'c', 't']) {
        return None;
    }
    let a = match ws1(s, p + 6) {
        Some(a) => a,
        None => return None,
    };
    let (n, b) = match expr_parser::name(Dialect::Kon, s, a) {
        Some(x) => x,
        None => return None,
    };
    let c = ws(s, b);
    if !at_char(s, c, '{') {
        return None;
    }
    let (fields, e) = parse_param_list(s, ws(s, c + 1));
    let h = trailing_comma(s, e);
    if !at_char(s, h, '}') {
        return None;
    }
    Some((Item::Struct { name: n, fields }, h + 1))
}

/// Implements `receiver`.
pub fn parse_receiver(s: &Vec<char>, p: usize) -> (r: Option<(Param, usize)>)
    requires
        p <= s.len(),
    ensures
        agrees(r, receiver(s@, p as int)),
        consumes(r, p, s.len() as int),
{
    if !at_char(s, p, '(') {
        return None;
    }
    let (x, c) = match parse_param(s, ws(s, p + 1)) {
        Some(x) => x,
        None => return None,
    };
    let e = ws(s, c);
    if !at_char(s, e, ')') {
        return None;
    }
    Some((x, ws(s, e + 1)))
}

/// Implements `fn_item`.
pub fn parse_fn_item(s: &Vec<char>, p: usize) -> (r: Option<(Item, usize)>)
    requires
        p <= s.len(),
    ensures
        agrees(r, fn_item(s@, p as int)),
        consumes(r, p, s.len() as int),
{
    if !at_lit(s, p, &['f', 'n']) {
        return None;
    }
    let a = match ws1(s, p + 2) {
        Some(a) => a,
        None => return None,
    };
    let (recv, b) = match parse_receiver(s, a) {
        Some((x, b)) => (Some(x), b),
        None => (None, a),
    };
    let (n, c) = match expr_parser::name(Dialect::Kon, s, b) {
        Some(x) => x,
        None => return None,
    };
    let e = ws(s, c);
    if !at_char(s, e, '(') {
        return None;
    }
    let (params, f) = parse_param_list(s, ws(s, e + 1));
    let g = ws(s, f);
    if !at_char(s, g, ')') {
        return None;
    }
    match expr_parser::block(Dialect::Kon, s, ws(s, g + 1)) {
        Some((body, k)) => Some((Item::Fn { receiver: recv, name: n, params, body }, k)),
        None => None,
    }
}

/// Implements `interface_method`.
pub fn parse_interface_method(s: &Vec<char>, p: usize) -> (r: Option<(InterfaceMethod, usize)>)
    requires
        p <= s.len(),
    ensures
        agrees(r, interface_method(s@, p as int)),
        consumes(r, p, s.len() as int),
{
    if !at_lit(s, p, &['f', 'n']) {
        return None;
    }
    let a = match ws1(s, p + 2) {
        Some(a) => a,
        None => return None,
    };
    let (n, b) = match expr_parser::name(Dialect::Kon, s, a) {
        Some(x) => x,
        None => return None,
    };
    let c = ws(s, b);
    if !at_char(s, c, '(') {
        return None;
    }
    let (params, e) = parse_param_list(s, ws(s, c + 1));
    let f = ws(s, e);
    if !at_char(s, f, ')') {
        return None;
    }
    let g = ws(s, f + 1);
    if !at_char(s, g, ';') {
        return None;
    }
    Some((InterfaceMethod { name: n, params }, g + 1))
}

/// Implements `method_list`.
pub fn parse_method_list(s: &Vec<char>, p: usize) -> (r: (Vec<InterfaceMethod>, usize))
    requires
        p <= s.len(),
    ensures
        r.0.deep_view() == method_list(s@, p as int).0,
        r.1 == method_list(s@, p as int).1,
        p <= r.1 <= s.len(),
{
    let mut acc: Vec<InterfaceMethod> = Vec::new();
    let (m, q0) = match parse_interface_method(s, p) {
        Some(x) => x,
        None => return (acc, p),
    };
    let ghost a0 = acc;
    acc.push(m);
    proof {
        crate::ast::lemma_push_deep_view(a0, acc, m);
        assert(acc.deep_view() =~= seq![m.deep_view()]);
    }
    let mut q = q0;
    loop
        invariant
            p <= q <= s.len(),
            method_list(s@, p as int) == method_list_rest(s@, q as int, acc.deep_view()),
        decreases s.len() - q,
    {
        match parse_interface_method(s, ws(s, q)) {
            Some((m, q2)) => {
                let ghost a1 = acc;
                acc.push(m);
                proof {
                    crate::ast::lemma_push_deep_view(a1, acc, m);
                }
                q = q2;
            },
            None => return (acc, q),
        }
    }
}

/// Implements `interface_item`.
pub fn parse_interface_item(s: &Vec<char>, p: usize) -> (r: Option<(Item, usize)>)
    requires
        p <= s.len(),
    ensures
        agrees(r, interface_item(s@, p as int)),
        consumes(r, p, s.len() as int),
{
    if !at_lit(s, p, &['i', 'n', 't', 'e', 'r', 'f', 'a', 'c', 'e']) {
        return None;
    }
    let a = match ws1(s, p + 9) {
        Some(a) => a,
        None => return None,
    };
    let (n, b) = match expr_parser::name(Dialect::Kon, s, a) {
        Some(x) => x,
        None => return None,
    };
    let c = ws(s, b);
    if !at_char(s, c, '{') {
        return None;
    }
    let (methods, e) = parse_method_list(s, ws(s, c + 1));
    let g = ws(s, e);
    if !at_char(s, g, '}') {
        return None;
    }
    Some((Item::Interface { name: n, methods }, g + 1))
}

/// Implements `item`.
pub fn parse_item(s: &Vec<char>, p: usize) -> (r: Option<(Item, usize)>)
    requires
        p <= s.len(),
    ensures
        agrees(r, item(s@, p as int)),
        consumes(r, p, s.len() as int),
{
    if let Some(r) = parse_let_item(s, p) {
        return Some(r);
    }
    if let Some(r) = parse_enum_item(s, p) {
        return Some(r);
    }
    if let Some(r) = parse_struct_item(s, p) {
        return Some(r);
    }
    if let Some(r) = parse_fn_item(s, p) {
        return Some(r);
    }
    parse_interface_item(s, p)
}

/// Implements `program_prefix`.
pub fn parse_program_prefix(s: &Vec<char>) -> (r: (Vec<Item>, usize))
    ensures
        r.0.deep_view() == program_prefix(s@).0,
        r.1 == program_prefix(s@).1,
        r.1 <= s.len(),
{
    let mut acc: Vec<Item> = Vec::new();
    let p = ws(s, 0);
    proof {
        assert(acc.deep_view() =~= Seq::<SpecItem>::empty());
    }
    let (it, q0) = match parse_item(s, p) {
        Some(x) => x,
        None => return (acc, ws(s, p)),
    };
    let ghost a0 = acc;
    acc.push(it);
    proof {
        crate::ast::lemma_push_deep_view(a0, acc, it);
        assert(acc.deep_view() =~= seq![it.deep_view()]);
    }
    let mut q = q0;
    loop
        invariant
            p <= q <= s.len(),
            p == skip_ws(s@, 0),
            item_list(s@, p as int) == item_list_rest(s@, q as int, acc.deep_view()),
        decreases s.len() - q,
    {
        match parse_item(s, ws(s, q)) {
            Some((it, q2)) => {
                let ghost a1 = acc;
                acc.push(it);
                proof {
                    crate::ast::lemma_push_deep_view(a1, acc, it);
                }
                q = q2;
            },
            None => return (acc, ws(s, q)),
        }
    }
}

/// Parses a whole program: `Ok` with its items exactly when the items and the
/// blank space around them make up the whole text, and otherwise `Err` with the
/// position where they stop.
pub fn program(text: &str) -> (r: Result<Vec<Item>, ParseError>)
    ensures
        match r {
            Ok(items) => spec_program(text@) == Ok::<Seq<SpecItem>, int>(items.deep_view()),
            Err(e) => spec_program(text@) == Err::<Seq<SpecItem>, int>(e.offset as int)
                && e.offset < text@.len(),
        },
{
    let s = chars_of(text);
    let (items, e) = parse_program_prefix(&s);
    if e == s.len() {
        Ok(items)
    } else {
        Err(ParseError { offset: e })
    }
}

/// Parses a text that is one whole expression (with no blank space around it).
pub fn expr(text: &str) -> (r: Result<Expr, ParseError>)
    ensures
        match r {
            Ok(e) => spec_expr(text@) == Ok::<SpecExpr, int>(e.deep_view()),
            Err(err) => spec_expr(text@) == Err::<SpecExpr, int>(err.offset as int) && err.offset
                <= text@.len(),
        },
{
    let s = chars_of(text);
    match expr_parser::expr(Dialect::Kon, &s, 0) {
        Some((e, q)) => if q == s.len() {
            Ok(e)
        } else {
            Err(ParseError { offset: q })
        },
        None => Err(ParseError { offset: 0 }),
    }
}

/// The items of a text that is a program.
pub fn parse(text: &str) -> (r: Vec<Item>)
    requires
        spec_program(text@) is Ok,
    ensures
        spec_program(text@) == Ok::<Seq<SpecItem>, int>(r.deep_view()),
{
    match program(text) {
        Ok(items) => items,
        Err(_) => Vec::new(),
    }
}

} // verus!
