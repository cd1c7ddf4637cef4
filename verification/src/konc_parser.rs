//! The konc grammar: a program is a list of top-level items, each an import or an
//! optionally `pub` `let`, `extern`, `enum`, `struct`, `fn` or `interface` item.
//!
//! `program` and `expr` parse a whole text; `parse` is `program` for texts that
//! are known to parse. The grammar is stated by the spec functions of this module
//! (items and types) and of `syntax` (expressions and blocks, with
//! `Dialect::Konc`, where reserved words are not identifiers).
use vstd::prelude::*;
pub use crate::ast::{BinOp, Expr, Stmt, StringPart, StructInitializer, SwitchArm};
use crate::ast::{SpecExpr, SpecStmt};
use crate::expr_parser;
use crate::expr_parser::{agrees, consumes, trailing_comma, within};
use crate::syntax;
use crate::shape;
use crate::shape::{block_body, dialect_expr};
use crate::syntax::{either, name, Dialect};
use crate::text::{
    at_char, at_lit, char_at, chars_of, lit_at, scan_text, scan_until, skip_ws, skip_ws1, text_of,
    text_run, until_char, ws, ws1,
};

verus! {

broadcast use crate::text::group_text_bounds;

/// `name: Type`
#[derive(Debug)]
pub struct Param {
    pub name: String,
    pub ty: Type,
}

/// Whether a top-level item is marked `pub`.
#[derive(Debug, Clone, Copy, PartialEq, Eq, Structural)]
pub enum Visibility {
    Public,
    Unspecified,
}

/// An item of a program with its visibility.
#[derive(Debug)]
pub struct TopLevelItem {
    pub visibility: Visibility,
    pub item: Item,
}

/// An item.
#[derive(Debug)]
pub enum Item {
    Let(Box<LetItem>),
    Enum(Box<EnumItem>),
    Struct(Box<StructItem>),
    Fn(Box<FnItem>),
    Interface(Box<InterfaceItem>),
    Import(Box<ImportItem>),
    Extern(Box<ExternItem>),
    ExternFnItem(Box<ExternFnItem>),
    /// `#include` inside an extern block.
    CMacroInclude(String),
}

/// `import a.b` or `from a.b import (x, y)`.
#[derive(Debug)]
pub enum ImportItem {
    Module(Path),
    Specific { path: Path, idents: Vec<String> },
}

#[derive(Debug)]
pub struct LetItem {
    pub ident: String,
    pub expr: Expr,
}

#[derive(Debug)]
pub struct EnumItem {
    pub name: String,
    pub variants: Vec<String>,
}

#[derive(Debug)]
pub struct StructItem {
    pub name: String,
    pub fields: Vec<Param>,
}

#[derive(Debug)]
pub struct FnItem {
    pub receiver: Option<String>,
    pub allocator_receiver: Option<String>,
    pub name: String,
    pub params: Vec<Param>,
    pub body: Vec<Stmt>,
    pub return_type: Option<Type>,
}

/// A function declared in an extern block; `variadic_args` records a final `...`.
#[derive(Debug)]
pub struct ExternFnItem {
    pub name: ExternFnName,
    pub params: Vec<Param>,
    pub return_type: Option<Type>,
    pub variadic_args: bool,
}

/// The name of an extern function, possibly renamed: `external => rename`.
#[derive(Debug)]
pub enum ExternFnName {
    Name(String),
    Rename { external: String, rename: String },
}

#[derive(Debug)]
pub struct InterfaceItem {
    pub name: String,
    pub methods: Vec<InterfaceMethod>,
}

#[derive(Debug)]
pub struct InterfaceMethod {
    pub name: String,
    pub params: Vec<Param>,
}

/// `extern "lang" { ... }`. The declarations inside the braces are checked but
/// not kept: `items` is always empty.
#[derive(Debug)]
pub struct ExternItem {
    pub lang: String,
    pub items: Vec<Stmt>,
}

/// A dotted path `a.b.c`.
#[derive(Debug)]
pub struct Path(pub Vec<String>);

/// `*const path<params>`, `*mut path<params>` or `path<params>`.
#[derive(Debug)]
pub struct Type {
    pub ident: Path,
    pub params: Vec<String>,
    pub pointer: Option<PointerKind>,
}

#[derive(Debug, Clone, Copy, PartialEq, Eq, Structural)]
pub enum PointerKind {
    Const,
    Mut,
}

/// Why a text is not a program or an expression: `offset` is the position (in
/// characters) where the parse stopped short of the end of the text, that is,
/// where the last item (or the expression) that matched ends. It is not the
/// furthest position at which some alternative failed: for `let x = 1` the
/// offset is 0 (no item matched), although the parse got as far as position 9
/// before the missing `;`. No line, column or expected tokens are reported.
#[derive(Debug)]
pub struct ParseError {
    pub offset: usize,
}

// ---------------------------------------------------------------------------
// Models
// ---------------------------------------------------------------------------

pub struct SpecType {
    pub ident: Seq<Seq<char>>,
    pub params: Seq<Seq<char>>,
    pub pointer: Option<PointerKind>,
}

pub struct SpecParam {
    pub name: Seq<char>,
    pub ty: SpecType,
}

pub struct SpecTopLevelItem {
    pub visibility: Visibility,
    pub item: SpecItem,
}

pub enum SpecItem {
    Let(SpecLetItem),
    Enum(SpecEnumItem),
    Struct(SpecStructItem),
    Fn(SpecFnItem),
    Interface(SpecInterfaceItem),
    Import(SpecImportItem),
    Extern(SpecExternItem),
    ExternFnItem(SpecExternFnItem),
    CMacroInclude(Seq<char>),
}

pub enum SpecImportItem {
    Module(Seq<Seq<char>>),
    Specific { path: Seq<Seq<char>>, idents: Seq<Seq<char>> },
}

pub struct SpecLetItem {
    pub ident: Seq<char>,
    pub expr: SpecExpr,
}

pub struct SpecEnumItem {
    pub name: Seq<char>,
    pub variants: Seq<Seq<char>>,
}

pub struct SpecStructItem {
    pub name: Seq<char>,
    pub fields: Seq<SpecParam>,
}

pub struct SpecFnItem {
    pub receiver: Option<Seq<char>>,
    pub allocator_receiver: Option<Seq<char>>,
    pub name: Seq<char>,
    pub params: Seq<SpecParam>,
    pub body: Seq<SpecStmt>,
    pub return_type: Option<SpecType>,
}

pub struct SpecExternFnItem {
    pub name: SpecExternFnName,
    pub params: Seq<SpecParam>,
    pub return_type: Option<SpecType>,
    pub variadic_args: bool,
}

pub enum SpecExternFnName {
    Name(Seq<char>),
    Rename { external: Seq<char>, rename: Seq<char> },
}

pub struct SpecInterfaceItem {
    pub name: Seq<char>,
    pub methods: Seq<SpecInterfaceMethod>,
}

pub struct SpecInterfaceMethod {
    pub name: Seq<char>,
    pub params: Seq<SpecParam>,
}

pub struct SpecExternItem {
    pub lang: Seq<char>,
    pub items: Seq<SpecStmt>,
}

impl DeepView for Path {
    type V = Seq<Seq<char>>;

    open spec fn deep_view(&self) -> Seq<Seq<char>> {
        self.0.deep_view()
    }
}

impl DeepView for Type {
    type V = SpecType;

    open spec fn deep_view(&self) -> SpecType {
        SpecType {
            ident: self.ident.deep_view(),
            params: self.params.deep_view(),
            pointer: self.pointer,
        }
    }
}

impl DeepView for Param {
    type V = SpecParam;

    open spec fn deep_view(&self) -> SpecParam {
        SpecParam { name: self.name@, ty: self.ty.deep_view() }
    }
}

impl DeepView for TopLevelItem {
    type V = SpecTopLevelItem;

    open spec fn deep_view(&self) -> SpecTopLevelItem {
        SpecTopLevelItem { visibility: self.visibility, item: self.item.deep_view() }
    }
}

impl DeepView for ImportItem {
    type V = SpecImportItem;

    open spec fn deep_view(&self) -> SpecImportItem {
        match self {
            ImportItem::Module(p) => SpecImportItem::Module(p.deep_view()),
            ImportItem::Specific { path, idents } => SpecImportItem::Specific {
                path: path.deep_view(),
                idents: idents.deep_view(),
            },
        }
    }
}

impl DeepView for LetItem {
    type V = SpecLetItem;

    open spec fn deep_view(&self) -> SpecLetItem {
        SpecLetItem { ident: self.ident@, expr: self.expr.deep_view() }
    }
}

impl DeepView for EnumItem {
    type V = SpecEnumItem;

    open spec fn deep_view(&self) -> SpecEnumItem {
        SpecEnumItem { name: self.name@, variants: self.variants.deep_view() }
    }
}

impl DeepView for StructItem {
    type V = SpecStructItem;

    open spec fn deep_view(&self) -> SpecStructItem {
        SpecStructItem { name: self.name@, fields: self.fields.deep_view() }
    }
}

impl DeepView for FnItem {
    type V = SpecFnItem;

    open spec fn deep_view(&self) -> SpecFnItem {
        SpecFnItem {
            receiver: self.receiver.deep_view(),
            allocator_receiver: self.allocator_receiver.deep_view(),
            name: self.name@,
            params: self.params.deep_view(),
            body: self.body.deep_view(),
            return_type: self.return_type.deep_view(),
        }
    }
}

impl DeepView for ExternFnName {
    type V = SpecExternFnName;

    open spec fn deep_view(&self) -> SpecExternFnName {
        match self {
            ExternFnName::Name(n) => SpecExternFnName::Name(n@),
            ExternFnName::Rename { external, rename } => SpecExternFnName::Rename {
                external: external@,
                rename: rename@,
            },
        }
    }
}

impl DeepView for ExternFnItem {
    type V = SpecExternFnItem;

    open spec fn deep_view(&self) -> SpecExternFnItem {
        SpecExternFnItem {
            name: self.name.deep_view(),
            params: self.params.deep_view(),
            return_type: self.return_type.deep_view(),
            variadic_args: self.variadic_args,
        }
    }
}

impl DeepView for InterfaceMethod {
    type V = SpecInterfaceMethod;

    open spec fn deep_view(&self) -> SpecInterfaceMethod {
        SpecInterfaceMethod { name: self.name@, params: self.params.deep_view() }
    }
}

impl DeepView for InterfaceItem {
    type V = SpecInterfaceItem;

    open spec fn deep_view(&self) -> SpecInterfaceItem {
        SpecInterfaceItem { name: self.name@, methods: self.methods.deep_view() }
    }
}

impl DeepView for ExternItem {
    type V = SpecExternItem;

    open spec fn deep_view(&self) -> SpecExternItem {
        SpecExternItem { lang: self.lang@, items: self.items.deep_view() }
    }
}

impl DeepView for Item {
    type V = SpecItem;

    open spec fn deep_view(&self) -> SpecItem {
        match self {
            Item::Let(x) => SpecItem::Let(x.deep_view()),
            Item::Enum(x) => SpecItem::Enum(x.deep_view()),
            Item::Struct(x) => SpecItem::Struct(x.deep_view()),
            Item::Fn(x) => SpecItem::Fn(x.deep_view()),
            Item::Interface(x) => SpecItem::Interface(x.deep_view()),
            Item::Import(x) => SpecItem::Import(x.deep_view()),
            Item::Extern(x) => SpecItem::Extern(x.deep_view()),
            Item::ExternFnItem(x) => SpecItem::ExternFnItem(x.deep_view()),
            Item::CMacroInclude(n) => SpecItem::CMacroInclude(n@),
        }
    }
}

// ---------------------------------------------------------------------------
// Grammar: types and parameters
// ---------------------------------------------------------------------------

/// `ident() ** "."`
pub open spec fn path(s: Seq<char>, p: int) -> (Seq<Seq<char>>, int) {
    match name(Dialect::Konc, s, p) {
        Some((n, q)) => path_rest(s, q, seq![n]),
        None => (seq![], p),
    }
}

pub open spec fn path_rest(s: Seq<char>, q: int, acc: Seq<Seq<char>>) -> (Seq<Seq<char>>, int)
    decreases s.len() - q,
{
    if char_at(s, q, '.') {
        match name(Dialect::Konc, s, q + 1) {
            Some((n, q2)) => path_rest(s, q2, acc.push(n)),
            None => (acc, q),
        }
    } else {
        (acc, q)
    }
}

/// `"*" _ "const" __` or `"*" _ "mut" __`
pub open spec fn pointer_kind(s: Seq<char>, p: int) -> Option<(PointerKind, int)> {
    if char_at(s, p, '*') {
        let a = skip_ws(s, p + 1);
        let konst = if lit_at(s, a, seq!['c', 'o', 'n', 's', 't']) {
            match skip_ws1(s, a + 5) {
                Some(q) => Some((PointerKind::Const, q)),
                None => None,
            }
        } else {
            None
        };
        let mutable = if lit_at(s, a, seq!['m', 'u', 't']) {
            match skip_ws1(s, a + 3) {
                Some(q) => Some((PointerKind::Mut, q)),
                None => None,
            }
        } else {
            None
        };
        either(konst, mutable)
    } else {
        None
    }
}

/// `"<" _ params:(ident() ** (_ "," _)) _ ">"`
pub open spec fn type_params(s: Seq<char>, p: int) -> Option<(Seq<Seq<char>>, int)> {
    if char_at(s, p, '<') {
        let (params, e) = syntax::name_list(Dialect::Konc, s, skip_ws(s, p + 1));
        let g = skip_ws(s, e);
        if char_at(s, g, '>') {
            Some((params, g + 1))
        } else {
            None
        }
    } else {
        None
    }
}

/// `pointer:pointer_kind()? p:path() _ params:type_params()?` (always matches).
pub open spec fn typ(s: Seq<char>, p: int) -> (SpecType, int) {
    let (pointer, a) = match pointer_kind(s, p) {
        Some((k, a)) => (Some(k), a),
        None => (None, p),
    };
    let (ident, b) = path(s, a);
    let c = skip_ws(s, b);
    let (params, e) = match type_params(s, c) {
        Some((ps, e)) => (ps, e),
        None => (seq![], c),
    };
    (SpecType { ident, params, pointer }, e)
}

/// `name:ident() _ ":" _ ty:typ()`
pub open spec fn param(s: Seq<char>, p: int) -> Option<(SpecParam, int)> {
    match name(Dialect::Konc, s, p) {
        Some((n, a)) => {
            let b = skip_ws(s, a);
            if char_at(s, b, ':') {
                let (t, e) = typ(s, skip_ws(s, b + 1));
                Some((SpecParam { name: n, ty: t }, e))
            } else {
                None
            }
        },
        None => None,
    }
}

/// `param() ** (_ "," _)`
pub open spec fn param_list(s: Seq<char>, p: int) -> (Seq<SpecParam>, int) {
    match param(s, p) {
        Some((x, q)) => param_list_rest(s, q, seq![x]),
        None => (seq![], p),
    }
}

pub open spec fn param_list_rest(s: Seq<char>, q: int, acc: Seq<SpecParam>) -> (
    Seq<SpecParam>,
    int,
)
    decreases s.len() - q,
{
    let w = skip_ws(s, q);
    if char_at(s, w, ',') {
        match param(s, skip_ws(s, w + 1)) {
            Some((x, q2)) => if q < q2 <= s.len() {
                param_list_rest(s, q2, acc.push(x))
            } else {
                (acc, q)
            },
            None => (acc, q),
        }
    } else {
        (acc, q)
    }
}

/// `"->" _ typ:typ() _`
pub open spec fn fn_rt(s: Seq<char>, p: int) -> Option<(SpecType, int)> {
    if lit_at(s, p, seq!['-', '>']) {
        let (t, b) = typ(s, skip_ws(s, p + 2));
        Some((t, skip_ws(s, b)))
    } else {
        None
    }
}

/// `"\"" lit:$((!("\"" / "\\(") [_])+) "\""`: the characters between the quotes.
pub open spec fn string_lit(s: Seq<char>, p: int) -> Option<(Seq<char>, int)> {
    if char_at(s, p, '"') {
        let e = text_run(s, p + 1, '"');
        if p + 1 < e && char_at(s, e, '"') {
            Some((s.subrange(p + 1, e), e + 1))
        } else {
            None
        }
    } else {
        None
    }
}

// ---------------------------------------------------------------------------
// Grammar: items
// ---------------------------------------------------------------------------

/// `"let" __ name:ident() _ "=" _ e:expr() _ ";"`
pub open spec fn let_item(s: Seq<char>, p: int) -> Option<(SpecItem, int)> {
    if lit_at(s, p, seq!['l', 'e', 't']) {
        match skip_ws1(s, p + 3) {
            Some(a) => match name(Dialect::Konc, s, a) {
                Some((n, b)) => {
                    let c = skip_ws(s, b);
                    if char_at(s, c, '=') {
                        match syntax::expr(Dialect::Konc, s, skip_ws(s, c + 1)) {
                            Some((e, f)) => {
                                let g = skip_ws(s, f);
                                if char_at(s, g, ';') {
                                    Some((SpecItem::Let(SpecLetItem { ident: n, expr: e }), g + 1))
                                } else {
                                    None
                                }
                            },
                            None => None,
                        }
                    } else {
                        None
                    }
                },
                None => None,
            },
            None => None,
        }
    } else {
        None
    }
}

/// `"enum" __ name:ident() _ "{" _ variants:(enum_variant() ** (_ "," _)) _ ","? _ "}"`
pub open spec fn enum_item(s: Seq<char>, p: int) -> Option<(SpecItem, int)> {
    if lit_at(s, p, seq!['e', 'n', 'u', 'm']) {
        match skip_ws1(s, p + 4) {
            Some(a) => match name(Dialect::Konc, s, a) {
                Some((n, b)) => {
                    let c = skip_ws(s, b);
                    if char_at(s, c, '{') {
                        let (variants, e) = syntax::variant_list(
                            Dialect::Konc,
                            s,
                            skip_ws(s, c + 1),
                        );
                        let h = syntax::trailing_comma(s, e);
                        if char_at(s, h, '}') {
                            Some((SpecItem::Enum(SpecEnumItem { name: n, variants }), h + 1))
                        } else {
                            None
                        }
                    } else {
                        None
                    }
                },
                None => None,
            },
            None => None,
        }
    } else {
        None
    }
}

/// `"struct" __ name:ident() _ "{" _ fields:(param() ** (_ "," _)) _ ","? _ "}"`
pub open spec fn struct_item(s: Seq<char>, p: int) -> Option<(SpecItem, int)> {
    if lit_at(s, p, seq!['s', 't', 'r', 'u', 'c', 't']) {
        match skip_ws1(s, p + 6) {
            Some(a) => match name(Dialect::Konc, s, a) {
                Some((n, b)) => {
                    let c = skip_ws(s, b);
                    if char_at(s, c, '{') {
                        let (fields, e) = param_list(s, skip_ws(s, c + 1));
                        let h = syntax::trailing_comma(s, e);
                        if char_at(s, h, '}') {
                            Some((SpecItem::Struct(SpecStructItem { name: n, fields }), h + 1))
                        } else {
                            None
                        }
                    } else {
                        None
                    }
                },
                None => None,
            },
            None => None,
        }
    } else {
        None
    }
}

/// `"[" _ name:ident() _ "]" _`
pub open spec fn alloc_receiver(s: Seq<char>, p: int) -> Option<(Seq<char>, int)> {
    if char_at(s, p, '[') {
        match name(Dialect::Konc, s, skip_ws(s, p + 1)) {
            Some((n, b)) => {
                let c = skip_ws(s, b);
                if char_at(s, c, ']') {
                    Some((n, skip_ws(s, c + 1)))
                } else {
                    None
                }
            },
            None => None,
        }
    } else {
        None
    }
}

/// `"(" _ p:ident() _ ")" "."` or `_ p:ident() "."`
pub open spec fn receiver(s: Seq<char>, p: int) -> Option<(Seq<char>, int)> {
    let paren = if char_at(s, p, '(') {
        match name(Dialect::Konc, s, skip_ws(s, p + 1)) {
            Some((n, b)) => {
                let c = skip_ws(s, b);
                if char_at(s, c, ')') && char_at(s, c + 1, '.') {
                    Some((n, c + 2))
                } else {
                    None
                }
            },
            None => None,
        }
    } else {
        None
    };
    let bare = match name(Dialect::Konc, s, skip_ws(s, p)) {
        Some((n, b)) => if char_at(s, b, '.') {
            Some((n, b + 1))
        } else {
            None
        },
        None => None,
    };
    either(paren, bare)
}

/// `"fn" __ alloc_recv:alloc_receiver()? recv:receiver()? name:ident() _
///  "(" _ params:(param() ** (_ "," _)) _ ")" _ rt:fn_rt()? body:block()`
pub open spec fn fn_item(s: Seq<char>, p: int) -> Option<(SpecItem, int)> {
    if lit_at(s, p, seq!['f', 'n']) {
        match skip_ws1(s, p + 2) {
            Some(a) => {
                let (alloc, b) = match alloc_receiver(s, a) {
                    Some((n, b)) => (Some(n), b),
                    None => (None, a),
                };
                let (recv, c) = match receiver(s, b) {
                    Some((n, c)) => (Some(n), c),
                    None => (None, b),
                };
                match name(Dialect::Konc, s, c) {
                    Some((n, e)) => {
                        let f = skip_ws(s, e);
                        if char_at(s, f, '(') {
                            let (params, g) = param_list(s, skip_ws(s, f + 1));
                            let h = skip_ws(s, g);
                            if char_at(s, h, ')') {
                                let k = skip_ws(s, h + 1);
                                let (rt, m) = match fn_rt(s, k) {
                                    Some((t, m)) => (Some(t), m),
                                    None => (None, k),
                                };
                                match syntax::block(Dialect::Konc, s, m) {
                                    Some((body, t)) => Some(
                                        (
                                            SpecItem::Fn(
                                                SpecFnItem {
                                                    receiver: recv,
                                                    allocator_receiver: alloc,
                                                    name: n,
                                                    params,
                                                    body,
                                                    return_type: rt,
                                                },
                                            ),
                                            t,
                                        ),
                                    ),
                                    None => None,
                                }
                            } else {
                                None
                            }
                        } else {
                            None
                        }
                    },
                    None => None,
                }
            },
            None => None,
        }
    } else {
        None
    }
}

/// `"fn" __ name:ident() _ "(" _ params:(param() ** (_ "," _)) _ ")" _ ";"`
pub open spec fn interface_method(s: Seq<char>, p: int) -> Option<(SpecInterfaceMethod, int)> {
    if lit_at(s, p, seq!['f', 'n']) {
        match skip_ws1(s, p + 2) {
            Some(a) => match name(Dialect::Konc, s, a) {
                Some((n, b)) => {
                    let c = skip_ws(s, b);
                    if char_at(s, c, '(') {
                        let (params, e) = param_list(s, skip_ws(s, c + 1));
                        let f = skip_ws(s, e);
                        if char_at(s, f, ')') {
                            let g = skip_ws(s, f + 1);
                            if char_at(s, g, ';') {
                                Some((SpecInterfaceMethod { name: n, params }, g + 1))
                            } else {
                                None
                            }
                        } else {
                            None
                        }
                    } else {
                        None
                    }
                },
                None => None,
            },
            None => None,
        }
    } else {
        None
    }
}

/// `interface_method() ** _`
pub open spec fn method_list(s: Seq<char>, p: int) -> (Seq<SpecInterfaceMethod>, int) {
    match interface_method(s, p) {
        Some((m, q)) => method_list_rest(s, q, seq![m]),
        None => (seq![], p),
    }
}

pub open spec fn method_list_rest(s: Seq<char>, q: int, acc: Seq<SpecInterfaceMethod>) -> (
    Seq<SpecInterfaceMethod>,
    int,
)
    decreases s.len() - q,
{
    match interface_method(s, skip_ws(s, q)) {
        Some((m, q2)) => if q < q2 <= s.len() {
            method_list_rest(s, q2, acc.push(m))
        } else {
            (acc, q)
        },
        None => (acc, q),
    }
}

/// `"interface" __ name:ident() _ "{" _ methods:(interface_method() ** _) _ "}"`
pub open spec fn interface_item(s: Seq<char>, p: int) -> Option<(SpecItem, int)> {
    if lit_at(s, p, seq!['i', 'n', 't', 'e', 'r', 'f', 'a', 'c', 'e']) {
        match skip_ws1(s, p + 9) {
            Some(a) => match name(Dialect::Konc, s, a) {
                Some((n, b)) => {
                    let c = skip_ws(s, b);
                    if char_at(s, c, '{') {
                        let (methods, e) = method_list(s, skip_ws(s, c + 1));
                        let g = skip_ws(s, e);
                        if char_at(s, g, '}') {
                            Some((SpecItem::Interface(SpecInterfaceItem { name: n, methods }), g + 1))
                        } else {
                            None
                        }
                    } else {
                        None
                    }
                },
                None => None,
            },
            None => None,
        }
    } else {
        None
    }
}

/// `"=>" _ name:ident() _`
pub open spec fn extern_fn_rename(s: Seq<char>, p: int) -> Option<(Seq<char>, int)> {
    if lit_at(s, p, seq!['=', '>']) {
        match name(Dialect::Konc, s, skip_ws(s, p + 2)) {
            Some((n, b)) => Some((n, skip_ws(s, b))),
            None => None,
        }
    } else {
        None
    }
}

/// `external:(string_lit() / ident()) _ rename:extern_fn_rename()` or `name:ident()`
pub open spec fn extern_fn_name(s: Seq<char>, p: int) -> Option<(SpecExternFnName, int)> {
    let renamed = match either(string_lit(s, p), name(Dialect::Konc, s, p)) {
        Some((external, a)) => match extern_fn_rename(s, skip_ws(s, a)) {
            Some((rename, b)) => Some((SpecExternFnName::Rename { external, rename }, b)),
            None => None,
        },
        None => None,
    };
    let plain = match name(Dialect::Konc, s, p) {
        Some((n, a)) => Some((SpecExternFnName::Name(n), a)),
        None => None,
    };
    either(renamed, plain)
}

/// `("," _ "...")?` after the parameters: whether it is there, and where it ends.
pub open spec fn variadic(s: Seq<char>, p: int) -> (bool, int) {
    if char_at(s, p, ',') && lit_at(s, skip_ws(s, p + 1), seq!['.', '.', '.']) {
        (true, skip_ws(s, p + 1) + 3)
    } else {
        (false, p)
    }
}

/// `"fn" __ name:extern_fn_name() _ "(" _ params:(param() ** (_ "," _)) _
///  variadic:("," _ "...")? _ ")" _ rt:fn_rt()? ";"`
pub open spec fn extern_fn_item(s: Seq<char>, p: int) -> Option<(SpecItem, int)> {
    if lit_at(s, p, seq!['f', 'n']) {
        match skip_ws1(s, p + 2) {
            Some(a) => match extern_fn_name(s, a) {
                Some((fname, b)) => {
                    let c = skip_ws(s, b);
                    if char_at(s, c, '(') {
                        let (params, e) = param_list(s, skip_ws(s, c + 1));
                        let (va, f) = variadic(s, skip_ws(s, e));
                        let h = skip_ws(s, f);
                        if char_at(s, h, ')') {
                            let k = skip_ws(s, h + 1);
                            let (rt, m) = match fn_rt(s, k) {
                                Some((t, m)) => (Some(t), m),
                                None => (None, k),
                            };
                            if char_at(s, m, ';') {
                                Some(
                                    (
                                        SpecItem::ExternFnItem(
                                            SpecExternFnItem {
                                                name: fname,
                                                params,
                                                return_type: rt,
                                                variadic_args: va,
                                            },
                                        ),
                                        m + 1,
                                    ),
                                )
                            } else {
                                None
                            }
                        } else {
                            None
                        }
                    } else {
                        None
                    }
                },
                None => None,
            },
            None => None,
        }
    } else {
        None
    }
}

/// `string_lit()` or `"<" _ name:$((!['>'] [_])+) _ ">"`
pub open spec fn extern_include_name(s: Seq<char>, p: int) -> Option<(Seq<char>, int)> {
    let angle = if char_at(s, p, '<') {
        let a = skip_ws(s, p + 1);
        let e = until_char(s, a, '>');
        if a < e {
            let g = skip_ws(s, e);
            if char_at(s, g, '>') {
                Some((s.subrange(a, e), g + 1))
            } else {
                None
            }
        } else {
            None
        }
    } else {
        None
    };
    either(string_lit(s, p), angle)
}

/// `"#include" __ name:extern_include_name()`
pub open spec fn extern_include_item(s: Seq<char>, p: int) -> Option<(SpecItem, int)> {
    if lit_at(s, p, seq!['#', 'i', 'n', 'c', 'l', 'u', 'd', 'e']) {
        match skip_ws1(s, p + 8) {
            Some(a) => match extern_include_name(s, a) {
                Some((n, b)) => Some((SpecItem::CMacroInclude(n), b)),
                None => None,
            },
            None => None,
        }
    } else {
        None
    }
}

/// `struct_item() / enum_item() / extern_fn_item() / extern_include_item()`
pub open spec fn extern_item_body(s: Seq<char>, p: int) -> Option<(SpecItem, int)> {
    either(
        struct_item(s, p),
        either(enum_item(s, p), either(extern_fn_item(s, p), extern_include_item(s, p))),
    )
}

/// `extern_item_body() ** _`
pub open spec fn extern_list(s: Seq<char>, p: int) -> (Seq<SpecItem>, int) {
    match extern_item_body(s, p) {
        Some((it, q)) => extern_list_rest(s, q, seq![it]),
        None => (seq![], p),
    }
}

pub open spec fn extern_list_rest(s: Seq<char>, q: int, acc: Seq<SpecItem>) -> (
    Seq<SpecItem>,
    int,
)
    decreases s.len() - q,
{
    match extern_item_body(s, skip_ws(s, q)) {
        Some((it, q2)) => if q < q2 <= s.len() {
            extern_list_rest(s, q2, acc.push(it))
        } else {
            (acc, q)
        },
        None => (acc, q),
    }
}

/// `"extern" __ lang:string_lit() _ "{" _ (extern_item_body() ** _) _ "}"`; the
/// declarations in the braces are not kept.
pub open spec fn extern_item(s: Seq<char>, p: int) -> Option<(SpecItem, int)> {
    if lit_at(s, p, seq!['e', 'x', 't', 'e', 'r', 'n']) {
        match skip_ws1(s, p + 6) {
            Some(a) => match string_lit(s, a) {
                Some((lang, b)) => {
                    let c = skip_ws(s, b);
                    if char_at(s, c, '{') {
                        let (_decls, e) = extern_list(s, skip_ws(s, c + 1));
                        let g = skip_ws(s, e);
                        if char_at(s, g, '}') {
                            Some((SpecItem::Extern(SpecExternItem { lang, items: seq![] }), g + 1))
                        } else {
                            None
                        }
                    } else {
                        None
                    }
                },
                None => None,
            },
            None => None,
        }
    } else {
        None
    }
}

/// `let_item() / extern_item() / enum_item() / struct_item() / fn_item() /
///  interface_item()`
pub open spec fn nonimport_item(s: Seq<char>, p: int) -> Option<(SpecItem, int)> {
    either(
        let_item(s, p),
        either(
            extern_item(s, p),
            either(
                enum_item(s, p),
                either(struct_item(s, p), either(fn_item(s, p), interface_item(s, p))),
            ),
        ),
    )
}

/// `"(" _ idents:(ident() ** (_ "," _)) ")"` or a single identifier.
pub open spec fn import_identifiers(s: Seq<char>, p: int) -> Option<(Seq<Seq<char>>, int)> {
    let listed = if char_at(s, p, '(') {
        let (ids, b) = syntax::name_list(Dialect::Konc, s, skip_ws(s, p + 1));
        if char_at(s, b, ')') {
            Some((ids, b + 1))
        } else {
            None
        }
    } else {
        None
    };
    let single = match name(Dialect::Konc, s, p) {
        Some((n, q)) => Some((seq![n], q)),
        None => None,
    };
    either(listed, single)
}

/// `"import" __ module:path()` or
/// `"from" __ module:path() __ "import" __ idents:import_identifiers()`
pub open spec fn import_item(s: Seq<char>, p: int) -> Option<(SpecItem, int)> {
    let module = if lit_at(s, p, seq!['i', 'm', 'p', 'o', 'r', 't']) {
        match skip_ws1(s, p + 6) {
            Some(a) => {
                let (m, b) = path(s, a);
                Some((SpecItem::Import(SpecImportItem::Module(m)), b))
            },
            None => None,
        }
    } else {
        None
    };
    let specific = if lit_at(s, p, seq!['f', 'r', 'o', 'm']) {
        match skip_ws1(s, p + 4) {
            Some(a) => {
                let (m, b) = path(s, a);
                match skip_ws1(s, b) {
                    Some(c) => if lit_at(s, c, seq!['i', 'm', 'p', 'o', 'r', 't']) {
                        match skip_ws1(s, c + 6) {
                            Some(e) => match import_identifiers(s, e) {
                                Some((idents, f)) => Some(
                                    (
                                        SpecItem::Import(
                                            SpecImportItem::Specific { path: m, idents },
                                        ),
                                        f,
                                    ),
                                ),
                                None => None,
                            },
                            None => None,
                        }
                    } else {
                        None
                    },
                    None => None,
                }
            },
            None => None,
        }
    } else {
        None
    };
    either(module, specific)
}

/// `"pub" __` gives `Public`; otherwise `_` gives `Unspecified`.
pub open spec fn visibility(s: Seq<char>, p: int) -> (Visibility, int) {
    if lit_at(s, p, seq!['p', 'u', 'b']) && skip_ws1(s, p + 3) is Some {
        (Visibility::Public, skip_ws1(s, p + 3)->0)
    } else {
        (Visibility::Unspecified, skip_ws(s, p))
    }
}

/// `vis:visibility() itm:nonimport_item()` or an import (with unspecified
/// visibility).
pub open spec fn toplevel_item(s: Seq<char>, p: int) -> Option<(SpecTopLevelItem, int)> {
    let (vis, a) = visibility(s, p);
    let declared = match nonimport_item(s, a) {
        Some((it, b)) => Some((SpecTopLevelItem { visibility: vis, item: it }, b)),
        None => None,
    };
    let imported = match import_item(s, p) {
        Some((it, b)) => Some(
            (SpecTopLevelItem { visibility: Visibility::Unspecified, item: it }, b),
        ),
        None => None,
    };
    either(declared, imported)
}

/// `toplevel_item() ** _`
pub open spec fn item_list(s: Seq<char>, p: int) -> (Seq<SpecTopLevelItem>, int) {
    match toplevel_item(s, p) {
        Some((it, q)) => item_list_rest(s, q, seq![it]),
        None => (seq![], p),
    }
}

pub open spec fn item_list_rest(s: Seq<char>, q: int, acc: Seq<SpecTopLevelItem>) -> (
    Seq<SpecTopLevelItem>,
    int,
)
    decreases s.len() - q,
{
    match toplevel_item(s, skip_ws(s, q)) {
        Some((it, q2)) => if q < q2 <= s.len() {
            item_list_rest(s, q2, acc.push(it))
        } else {
            (acc, q)
        },
        None => (acc, q),
    }
}

/// `_ items:(toplevel_item() ** _) _`: the items and the position where the rule
/// stops.
pub open spec fn program_prefix(s: Seq<char>) -> (Seq<SpecTopLevelItem>, int) {
    let (items, b) = item_list(s, skip_ws(s, 0));
    (items, skip_ws(s, b))
}

/// The program that the text spells, or the position where the parse stopped
/// short of the end of the text.
pub open spec fn spec_program(s: Seq<char>) -> Result<Seq<SpecTopLevelItem>, int> {
    let (items, e) = program_prefix(s);
    if e == s.len() {
        Ok(items)
    } else {
        Err(e)
    }
}

/// The expression that the whole text spells, or the position where the parse
/// stopped short of the end of the text (0 when no expression starts the text).
pub open spec fn spec_expr(s: Seq<char>) -> Result<SpecExpr, int> {
    match syntax::expr(Dialect::Konc, s, 0) {
        Some((e, q)) => if q == s.len() {
            Ok(e)
        } else {
            Err(q)
        },
        None => Err(0),
    }
}

// ---------------------------------------------------------------------------
// What the grammar builds
// ---------------------------------------------------------------------------

/// A declaration that the konc grammar can give at top level: its expressions and
/// statements are trees of the konc dialect (a function body is a `block_body`), an extern block keeps none of its
/// declarations, and the declarations that only an extern block holds (`fn`
/// signatures and `#include`s) never stand alone.
pub open spec fn konc_decl(it: SpecItem) -> bool {
    match it {
        SpecItem::Let(l) => dialect_expr(Dialect::Konc, l.expr),
        SpecItem::Fn(f) => block_body(Dialect::Konc, f.body),
        SpecItem::Extern(x) => x.items.len() == 0,
        SpecItem::ExternFnItem(_) => false,
        SpecItem::CMacroInclude(_) => false,
        _ => true,
    }
}

/// A top-level item of the konc grammar: a declaration as above, and an import
/// has no visibility of its own.
pub open spec fn konc_item(t: SpecTopLevelItem) -> bool {
    konc_decl(t.item) && (t.item is Import ==> t.visibility is Unspecified)
}

pub open spec fn konc_items(items: Seq<SpecTopLevelItem>) -> bool {
    forall|i: int| 0 <= i < items.len() ==> #[trigger] konc_item(items[i])
}

proof fn lemma_let_item(s: Seq<char>, p: int)
    ensures
        let_item(s, p) matches Some((it, _)) ==> konc_decl(it),
{
    if lit_at(s, p, seq!['l', 'e', 't']) {
        if let Some(a) = skip_ws1(s, p + 3) {
            if let Some((n, b)) = name(Dialect::Konc, s, a) {
                let c = skip_ws(s, b);
                if char_at(s, c, '=') {
                    shape::lemma_expr(Dialect::Konc, s, skip_ws(s, c + 1));
                }
            }
        }
    }
}

proof fn lemma_fn_item(s: Seq<char>, p: int)
    ensures
        fn_item(s, p) matches Some((it, _)) ==> konc_decl(it),
{
    if lit_at(s, p, seq!['f', 'n']) {
        if let Some(a) = skip_ws1(s, p + 2) {
            let b = match alloc_receiver(s, a) {
                Some((n, b)) => b,
                None => a,
            };
            let c = match receiver(s, b) {
                Some((n, c)) => c,
                None => b,
            };
            if let Some((n, e)) = name(Dialect::Konc, s, c) {
                let f = skip_ws(s, e);
                if char_at(s, f, '(') {
                    let (params, g) = param_list(s, skip_ws(s, f + 1));
                    let h = skip_ws(s, g);
                    if char_at(s, h, ')') {
                        let k = skip_ws(s, h + 1);
                        let m = match fn_rt(s, k) {
                            Some((t, m)) => m,
                            None => k,
                        };
                        shape::lemma_block(Dialect::Konc, s, m);
                    }
                }
            }
        }
    }
}

proof fn lemma_toplevel_item(s: Seq<char>, p: int)
    ensures
        toplevel_item(s, p) matches Some((t, _)) ==> konc_item(t),
{
    let (vis, a) = visibility(s, p);
    lemma_let_item(s, a);
    lemma_fn_item(s, a);
}

proof fn lemma_item_list_rest(s: Seq<char>, q: int, acc: Seq<SpecTopLevelItem>)
    requires
        konc_items(acc),
    ensures
        konc_items(item_list_rest(s, q, acc).0),
    decreases s.len() - q,
{
    lemma_toplevel_item(s, skip_ws(s, q));
    if let Some((it, q2)) = toplevel_item(s, skip_ws(s, q)) {
        if q < q2 <= s.len() {
            assert(konc_items(acc.push(it))) by {
                assert forall|i: int| 0 <= i < acc.push(it).len() implies #[trigger] konc_item(
                    acc.push(it)[i],
                ) by {
                    if i < acc.len() {
                        assert(acc.push(it)[i] == acc[i]);
                    }
                }
            }
            lemma_item_list_rest(s, q2, acc.push(it));
        }
    }
}

/// What every program and expression that the konc grammar accepts is made of:
/// trees of the konc dialect (no block expression, a `Tail` statement only as the
/// last statement of a list, a pattern in every switch arm), extern blocks that
/// keep none of their declarations, no extern declaration outside an extern
/// block, and imports without visibility.
pub proof fn konc_parses_are_konc_trees(text: Seq<char>)
    ensures
        spec_program(text) matches Ok(items) ==> konc_items(items),
        spec_expr(text) matches Ok(e) ==> dialect_expr(Dialect::Konc, e),
{
    let p = skip_ws(text, 0);
    lemma_toplevel_item(text, p);
    if let Some((it, q)) = toplevel_item(text, p) {
        assert(konc_items(seq![it]));
        lemma_item_list_rest(text, q, seq![it]);
    }
    shape::lemma_expr(Dialect::Konc, text, 0);
}

// ---------------------------------------------------------------------------
// Parser: types and parameters
// ---------------------------------------------------------------------------

fn konc_name(s: &Vec<char>, p: usize) -> (r: Option<(String, usize)>)
    requires
        p <= s.len(),
    ensures
        agrees(r, name(Dialect::Konc, s@, p as int)),
        consumes(r, p, s.len() as int),
{
    expr_parser::name(Dialect::Konc, s, p)
}

/// Implements `path`.
pub fn parse_path(s: &Vec<char>, p: usize) -> (r: (Vec<String>, usize))
    requires
        p <= s.len(),
    ensures
        r.0.deep_view() == path(s@, p as int).0,
        r.1 == path(s@, p as int).1,
        p <= r.1 <= s.len(),
{
    let mut acc: Vec<String> = Vec::new();
    let (n, q0) = match konc_name(s, p) {
        Some(x) => x,
        None => return (acc, p),
    };
    let ghost a0 = acc;
    acc.push(n);
    proof {
        crate::ast::lemma_push_deep_view(a0, acc, n);
        assert(acc.deep_view() =~= seq![n@]);
    }
    let mut q = q0;
    loop
        invariant
            p <= q <= s.len(),
            path(s@, p as int) == path_rest(s@, q as int, acc.deep_view()),
        decreases s.len() - q,
    {
        if !at_char(s, q, '.') {
            return (acc, q);
        }
        match konc_name(s, q + 1) {
            Some((n, q2)) => {
                let ghost a1 = acc;
                acc.push(n);
                proof {
                    crate::ast::lemma_push_deep_view(a1, acc, n);
                }
                q = q2;
            },
            None => return (acc, q),
        }
    }
}

/// Implements `pointer_kind`.
pub fn parse_pointer_kind(s: &Vec<char>, p: usize) -> (r: Option<(PointerKind, usize)>)
    requires
        p <= s.len(),
    ensures
        match r {
            Some((k, q)) => pointer_kind(s@, p as int) == Some((k, q as int)),
            None => pointer_kind(s@, p as int) is None,
        },
        consumes(r, p, s.len() as int),
{
    if !at_char(s, p, '*') {
        return None;
    }
    let a = ws(s, p + 1);
    if at_lit(s, a, &['c', 'o', 'n', 's', 't']) {
        if let Some(q) = ws1(s, a + 5) {
            return Some((PointerKind::Const, q));
        }
    }
    if at_lit(s, a, &['m', 'u', 't']) {
        if let Some(q) = ws1(s, a + 3) {
            return Some((PointerKind::Mut, q));
        }
    }
    None
}

/// Implements `type_params`.
pub fn parse_type_params(s: &Vec<char>, p: usize) -> (r: Option<(Vec<String>, usize)>)
    requires
        p <= s.len(),
    ensures
        agrees(r, type_params(s@, p as int)),
        consumes(r, p, s.len() as int),
{
    if !at_char(s, p, '<') {
        return None;
    }
    let (params, e) = expr_parser::name_list(Dialect::Konc, s, ws(s, p + 1));
    let g = ws(s, e);
    if !at_char(s, g, '>') {
        return None;
    }
    Some((params, g + 1))
}

/// Implements `typ`.
pub fn parse_type(s: &Vec<char>, p: usize) -> (r: (Type, usize))
    requires
        p <= s.len(),
    ensures
        r.0.deep_view() == typ(s@, p as int).0,
        r.1 == typ(s@, p as int).1,
        p <= r.1 <= s.len(),
{
    let (pointer, a) = match parse_pointer_kind(s, p) {
        Some((k, a)) => (Some(k), a),
        None => (None, p),
    };
    let (ident, b) = parse_path(s, a);
    let c = ws(s, b);
    let (params, e) = match parse_type_params(s, c) {
        Some((ps, e)) => (ps, e),
        None => {
            let ps: Vec<String> = Vec::new();
            assert(ps.deep_view() =~= Seq::<Seq<char>>::empty());
            (ps, c)
        },
    };
    (Type { ident: Path(ident), params, pointer }, e)
}

/// Implements `param`.
pub fn parse_param(s: &Vec<char>, p: usize) -> (r: Option<(Param, usize)>)
    requires
        p <= s.len(),
    ensures
        agrees(r, param(s@, p as int)),
        consumes(r, p, s.len() as int),
{
    let (n, a) = match konc_name(s, p) {
        Some(x) => x,
        None => return None,
    };
    let b = ws(s, a);
    if !at_char(s, b, ':') {
        return None;
    }
    let (t, e) = parse_type(s, ws(s, b + 1));
    Some((Param { name: n, ty: t }, e))
}

/// Implements `param_list`.
pub fn parse_param_list(s: &Vec<char>, p: usize) -> (r: (Vec<Param>, usize))
    requires
        p <= s.len(),
    ensures
        r.0.deep_view() == param_list(s@, p as int).0,
        r.1 == param_list(s@, p as int).1,
        p <= r.1 <= s.len(),
{
    let mut acc: Vec<Param> = Vec::new();
    let (x, q0) = match parse_param(s, p) {
        Some(x) => x,
        None => return (acc, p),
    };
    let ghost a0 = acc;
    acc.push(x);
    proof {
        crate::ast::lemma_push_deep_view(a0, acc, x);
        assert(acc.deep_view() =~= seq![x.deep_view()]);
    }
    let mut q = q0;
    loop
        invariant
            p <= q <= s.len(),
            param_list(s@, p as int) == param_list_rest(s@, q as int, acc.deep_view()),
        decreases s.len() - q,
    {
        let w = ws(s, q);
        if !at_char(s, w, ',') {
            return (acc, q);
        }
        match parse_param(s, ws(s, w + 1)) {
            Some((x, q2)) => {
                let ghost a1 = acc;
                acc.push(x);
                proof {
                    crate::ast::lemma_push_deep_view(a1, acc, x);
                }
                q = q2;
            },
            None => return (acc, q),
        }
    }
}

/// Implements `fn_rt`.
pub fn parse_fn_rt(s: &Vec<char>, p: usize) -> (r: Option<(Type, usize)>)
    requires
        p <= s.len(),
    ensures
        agrees(r, fn_rt(s@, p as int)),
        consumes(r, p, s.len() as int),
{
    if !at_lit(s, p, &['-', '>']) {
        return None;
    }
    let (t, b) = parse_type(s, ws(s, p + 2));
    Some((t, ws(s, b)))
}

/// Implements `string_lit`.
pub fn parse_string_lit(s: &Vec<char>, p: usize) -> (r: Option<(String, usize)>)
    requires
        p <= s.len(),
    ensures
        agrees(r, string_lit(s@, p as int)),
        consumes(r, p, s.len() as int),
{
    if !at_char(s, p, '"') {
        return None;
    }
    let e = scan_text(s, p + 1, '"');
    if p + 1 < e && at_char(s, e, '"') {
        Some((text_of(s, p + 1, e), e + 1))
    } else {
        None
    }
}

// ---------------------------------------------------------------------------
// Parser: items
// ---------------------------------------------------------------------------

/// Implements `let_item`.
pub fn parse_let_item(s: &Vec<char>, p: usize) -> (r: Option<(Item, usize)>)
    requires
        p <= s.len(),
    ensures
        agrees(r, let_item(s@, p as int)),
        consumes(r, p, s.len() as int),
{
    if !at_lit(s, p, &['l', 'e', 't']) {
        return None;
    }
    let a = match ws1(s, p + 3) {
        Some(a) => a,
        None => return None,
    };
    let (n, b) = match konc_name(s, a) {
        Some(x) => x,
        None => return None,
    };
    let c = ws(s, b);
    if !at_char(s, c, '=') {
        return None;
    }
    let (e, f) = match expr_parser::expr(Dialect::Konc, s, ws(s, c + 1)) {
        Some(x) => x,
        None => return None,
    };
    let g = ws(s, f);
    if !at_char(s, g, ';') {
        return None;
    }
    Some((Item::Let(Box::new(LetItem { ident: n, expr: e })), g + 1))
}

/// Implements `enum_item`.
pub fn parse_enum_item(s: &Vec<char>, p: usize) -> (r: Option<(Item, usize)>)
    requires
        p <= s.len(),
    ensures
        agrees(r, enum_item(s@, p as int)),
        consumes(r, p, s.len() as int),
{
    if !at_lit(s, p, &['e', 'n', 'u', 'm']) {
        return None;
    }
    let a = match ws1(s, p + 4) {
        Some(a) => a,
        None => return None,
    };
    let (n, b) = match konc_name(s, a) {
        Some(x) => x,
        None => return None,
    };
    let c = ws(s, b);
    if !at_char(s, c, '{') {
        return None;
    }
    let (variants, e) = expr_parser::variant_list(Dialect::Konc, s, ws(s, c + 1));
    let h = trailing_comma(s, e);
    if !at_char(s, h, '}') {
        return None;
    }
    Some((Item::Enum(Box::new(EnumItem { name: n, variants })), h + 1))
}

/// Implements `struct_item`.
pub fn parse_struct_item(s: &Vec<char>, p: usize) -> (r: Option<(Item, usize)>)
    requires
        p <= s.len(),
    ensures
        agrees(r, struct_item(s@, p as int)),
        consumes(r, p, s.len() as int),
{
    if !at_lit(s, p, &['s', 't', 'r', 'u', 'c', 't']) {
        return None;
    }
    let a = match ws1(s, p + 6) {
        Some(a) => a,
        None => return None,
    };
    let (n, b) = match konc_name(s, a) {
        Some(x) => x,
        None => return None,
    };
    let c = ws(s, b);
    if !at_char(s, c, '{') {
        return None;
    }
    let (fields, e) = parse_param_list(s, ws(s, c + 1));
    let h = trailing_comma(s, e);
    if !at_char(s, h, '}') {
        return None;
    }
    Some((Item::Struct(Box::new(StructItem { name: n, fields })), h + 1))
}

/// Implements `alloc_receiver`.
pub fn parse_alloc_receiver(s: &Vec<char>, p: usize) -> (r: Option<(String, usize)>)
    requires
        p <= s.len(),
    ensures
        agrees(r, alloc_receiver(s@, p as int)),
        consumes(r, p, s.len() as int),
{
    if !at_char(s, p, '[') {
        return None;
    }
    let (n, b) = match konc_name(s, ws(s, p + 1)) {
        Some(x) => x,
        None => return None,
    };
    let c = ws(s, b);
    if !at_char(s, c, ']') {
        return None;
    }
    Some((n, ws(s, c + 1)))
}

/// Implements `receiver`.
pub fn parse_receiver(s: &Vec<char>, p: usize) -> (r: Option<(String, usize)>)
    requires
        p <= s.len(),
    ensures
        agrees(r, receiver(s@, p as int)),
        consumes(r, p, s.len() as int),
{
    if at_char(s, p, '(') {
        if let Some((n, b)) = konc_name(s, ws(s, p + 1)) {
            let c = ws(s, b);
            if at_char(s, c, ')') && at_char(s, c + 1, '.') {
                return Some((n, c + 2));
            }
        }
    }
    match konc_name(s, ws(s, p)) {
        Some((n, b)) => if at_char(s, b, '.') {
            Some((n, b + 1))
        } else {
            None
        },
        None => None,
    }
}

/// Implements `fn_item`.
pub fn parse_fn_item(s: &Vec<char>, p: usize) -> (r: Option<(Item, usize)>)
    requires
        p <= s.len(),
    ensures
        agrees(r, fn_item(s@, p as int)),
        consumes(r, p, s.len() as int),
{
    if !at_lit(s, p, &['f', 'n']) {
        return None;
    }
    let a = match ws1(s, p + 2) {
        Some(a) => a,
        None => return None,
    };
    let (alloc, b) = match parse_alloc_receiver(s, a) {
        Some((n, b)) => (Some(n), b),
        None => (None, a),
    };
    let (recv, c) = match parse_receiver(s, b) {
        Some((n, c)) => (Some(n), c),
        None => (None, b),
    };
    let (n, e) = match konc_name(s, c) {
        Some(x) => x,
        None => return None,
    };
    let f = ws(s, e);
    if !at_char(s, f, '(') {
        return None;
    }
    let (params, g) = parse_param_list(s, ws(s, f + 1));
    let h = ws(s, g);
    if !at_char(s, h, ')') {
        return None;
    }
    let k = ws(s, h + 1);
    let (rt, m) = match parse_fn_rt(s, k) {
        Some((t, m)) => (Some(t), m),
        None => (None, k),
    };
    match expr_parser::block(Dialect::Konc, s, m) {
        Some((body, t)) => Some(
            (
                Item::Fn(
                    Box::new(
                        FnItem {
                            receiver: recv,
                            allocator_receiver: alloc,
                            name: n,
                            params,
                            body,
                            return_type: rt,
                        },
                    ),
                ),
                t,
            ),
        ),
        None => None,
    }
}

/// Implements `interface_method`.
pub fn parse_interface_method(s: &Vec<char>, p: usize) -> (r: Option<(InterfaceMethod, usize)>)
    requires
        p <= s.len(),
    ensures
        agrees(r, interface_method(s@, p as int)),
        consumes(r, p, s.len() as int),
{
    if !at_lit(s, p, &['f', 'n']) {
        return None;
    }
    let a = match ws1(s, p + 2) {
        Some(a) => a,
        None => return None,
    };
    let (n, b) = match konc_name(s, a) {
        Some(x) => x,
        None => return None,
    };
    let c = ws(s, b);
    if !at_char(s, c, '(') {
        return None;
    }
    let (params, e) = parse_param_list(s, ws(s, c + 1));
    let f = ws(s, e);
    if !at_char(s, f, ')') {
        return None;
    }
    let g = ws(s, f + 1);
    if !at_char(s, g, ';') {
        return None;
    }
    Some((InterfaceMethod { name: n, params }, g + 1))
}

/// Implements `method_list`.
pub fn parse_method_list(s: &Vec<char>, p: usize) -> (r: (Vec<InterfaceMethod>, usize))
    requires
        p <= s.len(),
    ensures
        r.0.deep_view() == method_list(s@, p as int).0,
        r.1 == method_list(s@, p as int).1,
        p <= r.1 <= s.len(),
{
    let mut acc: Vec<InterfaceMethod> = Vec::new();
    let (m, q0) = match parse_interface_method(s, p) {
        Some(x) => x,
        None => return (acc, p),
    };
    let ghost a0 = acc;
    acc.push(m);
    proof {
        crate::ast::lemma_push_deep_view(a0, acc, m);
        assert(acc.deep_view() =~= seq![m.deep_view()]);
    }
    let mut q = q0;
    loop
        invariant
            p <= q <= s.len(),
            method_list(s@, p as int) == method_list_rest(s@, q as int, acc.deep_view()),
        decreases s.len() - q,
    {
        match parse_interface_method(s, ws(s, q)) {
            Some((m, q2)) => {
                let ghost a1 = acc;
                acc.push(m);
                proof {
                    crate::ast::lemma_push_deep_view(a1, acc, m);
                }
                q = q2;
            },
            None => return (acc, q),
        }
    }
}

/// Implements `interface_item`.
pub fn parse_interface_item(s: &Vec<char>, p: usize) -> (r: Option<(Item, usize)>)
    requires
        p <= s.len(),
    ensures
        agrees(r, interface_item(s@, p as int)),
        consumes(r, p, s.len() as int),
{
    if !at_lit(s, p, &['i', 'n', 't', 'e', 'r', 'f', 'a', 'c', 'e']) {
        return None;
    }
    let a = match ws1(s, p + 9) {
        Some(a) => a,
        None => return None,
    };
    let (n, b) = match konc_name(s, a) {
        Some(x) => x,
        None => return None,
    };
    let c = ws(s, b);
    if !at_char(s, c, '{') {
        return None;
    }
    let (methods, e) = parse_method_list(s, ws(s, c + 1));
    let g = ws(s, e);
    if !at_char(s, g, '}') {
        return None;
    }
    Some((Item::Interface(Box::new(InterfaceItem { name: n, methods })), g + 1))
}

/// Implements `extern_fn_rename`.
pub fn parse_extern_fn_rename(s: &Vec<char>, p: usize) -> (r: Option<(String, usize)>)
    requires
        p <= s.len(),
    ensures
        agrees(r, extern_fn_rename(s@, p as int)),
        consumes(r, p, s.len() as int),
{
    if !at_lit(s, p, &['=', '>']) {
        return None;
    }
    match konc_name(s, ws(s, p + 2)) {
        Some((n, b)) => Some((n, ws(s, b))),
        None => None,
    }
}

/// Implements `extern_fn_name`.
pub fn parse_extern_fn_name(s: &Vec<char>, p: usize) -> (r: Option<(ExternFnName, usize)>)
    requires
        p <= s.len(),
    ensures
        agrees(r, extern_fn_name(s@, p as int)),
        consumes(r, p, s.len() as int),
{
    let external = match parse_string_lit(s, p) {
        Some(x) => Some(x),
        None => konc_name(s, p),
    };
    if let Some((external, a)) = external {
        if let Some((rename, b)) = parse_extern_fn_rename(s, ws(s, a)) {
            return Some((ExternFnName::Rename { external, rename }, b));
        }
    }
    match konc_name(s, p) {
        Some((n, a)) => Some((ExternFnName::Name(n), a)),
        None => None,
    }
}

/// Implements `variadic`.
pub fn parse_variadic(s: &Vec<char>, p: usize) -> (r: (bool, usize))
    requires
        p <= s.len(),
    ensures
        r.0 == variadic(s@, p as int).0,
        r.1 == variadic(s@, p as int).1,
        p <= r.1 <= s.len(),
{
    if at_char(s, p, ',') {
        let g = ws(s, p + 1);
        if at_lit(s, g, &['.', '.', '.']) {
            return (true, g + 3);
        }
    }
    (false, p)
}

/// Implements `extern_fn_item`.
pub fn parse_extern_fn_item(s: &Vec<char>, p: usize) -> (r: Option<(Item, usize)>)
    requires
        p <= s.len(),
    ensures
        agrees(r, extern_fn_item(s@, p as int)),
        consumes(r, p, s.len() as int),
{
    if !at_lit(s, p, &['f', 'n']) {
        return None;
    }
    let a = match ws1(s, p + 2) {
        Some(a) => a,
        None => return None,
    };
    let (fname, b) = match parse_extern_fn_name(s, a) {
        Some(x) => x,
        None => return None,
    };
    let c = ws(s, b);
    if !at_char(s, c, '(') {
        return None;
    }
    let (params, e) = parse_param_list(s, ws(s, c + 1));
    let (va, f) = parse_variadic(s, ws(s, e));
    let h = ws(s, f);
    if !at_char(s, h, ')') {
        return None;
    }
    let k = ws(s, h + 1);
    let (rt, m) = match parse_fn_rt(s, k) {
        Some((t, m)) => (Some(t), m),
        None => (None, k),
    };
    if !at_char(s, m, ';') {
        return None;
    }
    Some(
        (
            Item::ExternFnItem(
                Box::new(ExternFnItem { name: fname, params, return_type: rt, variadic_args: va }),
            ),
            m + 1,
        ),
    )
}

/// Implements `extern_include_name`.
pub fn parse_extern_include_name(s: &Vec<char>, p: usize) -> (r: Option<(String, usize)>)
    requires
        p <= s.len(),
    ensures
        agrees(r, extern_include_name(s@, p as int)),
        consumes(r, p, s.len() as int),
{
    if let Some(r) = parse_string_lit(s, p) {
        return Some(r);
    }
    if !at_char(s, p, '<') {
        return None;
    }
    let a = ws(s, p + 1);
    let e = scan_until(s, a, '>');
    if !(a < e) {
        return None;
    }
    let g = ws(s, e);
    if !at_char(s, g, '>') {
        return None;
    }
    Some((text_of(s, a, e), g + 1))
}

/// Implements `extern_include_item`.
pub fn parse_extern_include_item(s: &Vec<char>, p: usize) -> (r: Option<(Item, usize)>)
    requires
        p <= s.len(),
    ensures
        agrees(r, extern_include_item(s@, p as int)),
        consumes(r, p, s.len() as int),
{
    if !at_lit(s, p, &['#', 'i', 'n', 'c', 'l', 'u', 'd', 'e']) {
        return None;
    }
    let a = match ws1(s, p + 8) {
        Some(a) => a,
        None => return None,
    };
    match parse_extern_include_name(s, a) {
        Some((n, b)) => Some((Item::CMacroInclude(n), b)),
        None => None,
    }
}

/// Implements `extern_item_body`.
pub fn parse_extern_item_body(s: &Vec<char>, p: usize) -> (r: Option<(Item, usize)>)
    requires
        p <= s.len(),
    ensures
        agrees(r, extern_item_body(s@, p as int)),
        consumes(r, p, s.len() as int),
{
    if let Some(r) = parse_struct_item(s, p) {
        return Some(r);
    }
    if let Some(r) = parse_enum_item(s, p) {
        return Some(r);
    }
    if let Some(r) = parse_extern_fn_item(s, p) {
        return Some(r);
    }
    parse_extern_include_item(s, p)
}

/// Implements `extern_list`.
pub fn parse_extern_list(s: &Vec<char>, p: usize) -> (r: (Vec<Item>, usize))
    requires
        p <= s.len(),
    ensures
        r.0.deep_view() == extern_list(s@, p as int).0,
        r.1 == extern_list(s@, p as int).1,
        p <= r.1 <= s.len(),
{
    let mut acc: Vec<Item> = Vec::new();
    let (it, q0) = match parse_extern_item_body(s, p) {
        Some(x) => x,
        None => return (acc, p),
    };
    let ghost a0 = acc;
    acc.push(it);
    proof {
        crate::ast::lemma_push_deep_view(a0, acc, it);
        assert(acc.deep_view() =~= seq![it.deep_view()]);
    }
    let mut q = q0;
    loop
        invariant
            p <= q <= s.len(),
            extern_list(s@, p as int) == extern_list_rest(s@, q as int, acc.deep_view()),
        decreases s.len() - q,
    {
        match parse_extern_item_body(s, ws(s, q)) {
            Some((it, q2)) => {
                let ghost a1 = acc;
                acc.push(it);
                proof {
                    crate::ast::lemma_push_deep_view(a1, acc, it);
                }
                q = q2;
            },
            None => return (acc, q),
        }
    }
}

/// Implements `extern_item`.
pub fn parse_extern_item(s: &Vec<char>, p: usize) -> (r: Option<(Item, usize)>)
    requires
        p <= s.len(),
    ensures
        agrees(r, extern_item(s@, p as int)),
        consumes(r, p, s.len() as int),
{
    if !at_lit(s, p, &['e', 'x', 't', 'e', 'r', 'n']) {
        return None;
    }
    let a = match ws1(s, p + 6) {
        Some(a) => a,
        None => return None,
    };
    let (lang, b) = match parse_string_lit(s, a) {
        Some(x) => x,
        None => return None,
    };
    let c = ws(s, b);
    if !at_char(s, c, '{') {
        return None;
    }
    let (_decls, e) = parse_extern_list(s, ws(s, c + 1));
    let g = ws(s, e);
    if !at_char(s, g, '}') {
        return None;
    }
    let items: Vec<Stmt> = Vec::new();
    assert(items.deep_view() =~= Seq::<SpecStmt>::empty());
    Some((Item::Extern(Box::new(ExternItem { lang, items })), g + 1))
}

/// Implements `nonimport_item`.
pub fn parse_nonimport_item(s: &Vec<char>, p: usize) -> (r: Option<(Item, usize)>)
    requires
        p <= s.len(),
    ensures
        agrees(r, nonimport_item(s@, p as int)),
        consumes(r, p, s.len() as int),
{
    if let Some(r) = parse_let_item(s, p) {
        return Some(r);
    }
    if let Some(r) = parse_extern_item(s, p) {
        return Some(r);
    }
    if let Some(r) = parse_enum_item(s, p) {
        return Some(r);
    }
    if let Some(r) = parse_struct_item(s, p) {
        return Some(r);
    }
    if let Some(r) = parse_fn_item(s, p) {
        return Some(r);
    }
    parse_interface_item(s, p)
}

/// Implements `import_identifiers`.
pub fn parse_import_identifiers(s: &Vec<char>, p: usize) -> (r: Option<(Vec<String>, usize)>)
    requires
        p <= s.len(),
    ensures
        agrees(r, import_identifiers(s@, p as int)),
        consumes(r, p, s.len() as int),
{
    if at_char(s, p, '(') {
        let (ids, b) = expr_parser::name_list(Dialect::Konc, s, ws(s, p + 1));
        if at_char(s, b, ')') {
            return Some((ids, b + 1));
        }
    }
    match konc_name(s, p) {
        Some((n, q)) => {
            let mut ids: Vec<String> = Vec::new();
            ids.push(n);
            assert(ids.deep_view() =~= seq![n@]);
            Some((ids, q))
        },
        None => None,
    }
}

/// Implements `import_item`.
pub fn parse_import_item(s: &Vec<char>, p: usize) -> (r: Option<(Item, usize)>)
    requires
        p <= s.len(),
    ensures
        agrees(r, import_item(s@, p as int)),
        consumes(r, p, s.len() as int),
{
    if at_lit(s, p, &['i', 'm', 'p', 'o', 'r', 't']) {
        if let Some(a) = ws1(s, p + 6) {
            let (m, b) = parse_path(s, a);
            return Some((Item::Import(Box::new(ImportItem::Module(Path(m)))), b));
        }
    }
    if !at_lit(s, p, &['f', 'r', 'o', 'm']) {
        return None;
    }
    let a = match ws1(s, p + 4) {
        Some(a) => a,
        None => return None,
    };
    let (m, b) = parse_path(s, a);
    let c = match ws1(s, b) {
        Some(c) => c,
        None => return None,
    };
    if !at_lit(s, c, &['i', 'm', 'p', 'o', 'r', 't']) {
        return None;
    }
    let e = match ws1(s, c + 6) {
        Some(e) => e,
        None => return None,
    };
    match parse_import_identifiers(s, e) {
        Some((idents, f)) => Some(
            (Item::Import(Box::new(ImportItem::Specific { path: Path(m), idents })), f),
        ),
        None => None,
    }
}

/// Implements `visibility`.
pub fn parse_visibility(s: &Vec<char>, p: usize) -> (r: (Visibility, usize))
    requires
        p <= s.len(),
    ensures
        r.0 == visibility(s@, p as int).0,
        r.1 == visibility(s@, p as int).1,
        p <= r.1 <= s.len(),
{
    if at_lit(s, p, &['p', 'u', 'b']) {
        if let Some(q) = ws1(s, p + 3) {
            return (Visibility::Public, q);
        }
    }
    (Visibility::Unspecified, ws(s, p))
}

/// Implements `toplevel_item`.
pub fn parse_toplevel_item(s: &Vec<char>, p: usize) -> (r: Option<(TopLevelItem, usize)>)
    requires
        p <= s.len(),
    ensures
        agrees(r, toplevel_item(s@, p as int)),
        consumes(r, p, s.len() as int),
{
    let (vis, a) = parse_visibility(s, p);
    if let Some((it, b)) = parse_nonimport_item(s, a) {
        return Some((TopLevelItem { visibility: vis, item: it }, b));
    }
    match parse_import_item(s, p) {
        Some((it, b)) => Some((TopLevelItem { visibility: Visibility::Unspecified, item: it }, b)),
        None => None,
    }
}

/// Implements `program_prefix`.
pub fn parse_program_prefix(s: &Vec<char>) -> (r: (Vec<TopLevelItem>, usize))
    ensures
        r.0.deep_view() == program_prefix(s@).0,
        r.1 == program_prefix(s@).1,
        r.1 <= s.len(),
{
    let mut acc: Vec<TopLevelItem> = Vec::new();
    let p = ws(s, 0);
    proof {
        assert(acc.deep_view() =~= Seq::<SpecTopLevelItem>::empty());
    }
    let (it, q0) = match parse_toplevel_item(s, p) {
        Some(x) => x,
        None => return (acc, ws(s, p)),
    };
    let ghost a0 = acc;
    acc.push(it);
    proof {
        crate::ast::lemma_push_deep_view(a0, acc, it);
        assert(acc.deep_view() =~= seq![it.deep_view()]);
    }
    let mut q = q0;
    loop
        invariant
            p <= q <= s.len(),
            p == skip_ws(s@, 0),
            item_list(s@, p as int) == item_list_rest(s@, q as int, acc.deep_view()),
        decreases s.len() - q,
    {
        match parse_toplevel_item(s, ws(s, q)) {
            Some((it, q2)) => {
                let ghost a1 = acc;
                acc.push(it);
                proof {
                    crate::ast::lemma_push_deep_view(a1, acc, it);
                }
                q = q2;
            },
            None => return (acc, ws(s, q)),
        }
    }
}

/// Parses a whole program: `Ok` with its items exactly when the items and the
/// blank space around them make up the whole text, and otherwise `Err` with the
/// position where they stop.
pub fn program(text: &str) -> (r: Result<Vec<TopLevelItem>, ParseError>)
    ensures
        match r {
            Ok(items) => spec_program(text@) == Ok::<Seq<SpecTopLevelItem>, int>(
                items.deep_view(),
            ),
            Err(e) => spec_program(text@) == Err::<Seq<SpecTopLevelItem>, int>(e.offset as int)
                && e.offset < text@.len(),
        },
{
    let s = chars_of(text);
    let (items, e) = parse_program_prefix(&s);
    if e == s.len() {
        Ok(items)
    } else {
        Err(ParseError { offset: e })
    }
}

/// Parses a text that is one whole expression (with no blank space around it).
pub fn expr(text: &str) -> (r: Result<Expr, ParseError>)
    ensures
        match r {
            Ok(e) => spec_expr(text@) == Ok::<SpecExpr, int>(e.deep_view()),
            Err(err) => spec_expr(text@) == Err::<SpecExpr, int>(err.offset as int) && err.offset
                <= text@.len(),
        },
{
    let s = chars_of(text);
    match expr_parser::expr(Dialect::Konc, &s, 0) {
        Some((e, q)) => if q == s.len() {
            Ok(e)
        } else {
            Err(ParseError { offset: q })
        },
        None => Err(ParseError { offset: 0 }),
    }
}

/// The items of a text that is a program.
pub fn parse(text: &str) -> (r: Vec<TopLevelItem>)
    requires
        spec_program(text@) is Ok,
    ensures
        spec_program(text@) == Ok::<Seq<SpecTopLevelItem>, int>(r.deep_view()),
{
    match program(text) {
        Ok(items) => items,
        Err(_) => Vec::new(),
    }
}

} // verus!
