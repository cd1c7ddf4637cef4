//! The expression and statement syntax tree that both dialects share, its
//! mathematical model, and deep copying.
//!
//! Every executable node has a `deep_view`: the same tree with strings seen as
//! character sequences and vectors as sequences. The grammar is stated over these
//! models.
use vstd::prelude::*;

verus! {

/// A piece of a string literal.
#[derive(Debug)]
pub enum StringPart {
    /// Text taken as it stands.
    Literal(String),
    /// `\(expr)` or `\(expr:format)`.
    Interp { expr: Box<Expr>, format: Option<String> },
}

/// An expression. A number literal is kept as the characters that spell it.
#[derive(Debug)]
pub enum Expr {
    Number(String),
    Ident(String),
    Str(Vec<StringPart>),
    /// `Type.Variant`
    EnumVariant(String, String),
    /// `.Variant`
    DotVariant(String),
    Neg(Box<Expr>),
    Binary(Box<Expr>, BinOp, Box<Expr>),
    Call(Box<Expr>, Vec<Expr>),
    MethodCall(Box<Expr>, String, Vec<Expr>),
    Field(Box<Expr>, String),
    Index(Box<Expr>, Box<Expr>),
    StructLit(String, Vec<StructInitializer>),
    Switch(Box<Expr>, Vec<SwitchArm>),
    For { binders: Vec<String>, iter: Box<Expr>, body: Vec<Stmt> },
    Block(Vec<Stmt>),
}

/// `label: value` inside a struct literal.
#[derive(Debug)]
pub struct StructInitializer {
    pub label: String,
    pub value: Expr,
}

/// `pattern | pattern => body` inside a switch.
#[derive(Debug)]
pub struct SwitchArm {
    pub patterns: Vec<Expr>,
    pub body: Expr,
}

/// A binary operator.
#[derive(Debug, Clone, Copy, PartialEq, Eq, Structural)]
pub enum BinOp {
    Add,
    Sub,
    Mul,
    Div,
}

/// A statement of a block. `Return` is produced by the konc dialect only.
#[derive(Debug)]
pub enum Stmt {
    Let(String, Expr),
    Expr(Expr),
    Tail(Expr),
    Return(Option<Expr>),
}

// ---------------------------------------------------------------------------
// Models
// ---------------------------------------------------------------------------

/// Model of `StringPart`.
pub enum SpecStringPart {
    Literal(Seq<char>),
    Interp { expr: Box<SpecExpr>, format: Option<Seq<char>> },
}

/// Model of `Expr`.
pub enum SpecExpr {
    Number(Seq<char>),
    Ident(Seq<char>),
    Str(Seq<SpecStringPart>),
    EnumVariant(Seq<char>, Seq<char>),
    DotVariant(Seq<char>),
    Neg(Box<SpecExpr>),
    Binary(Box<SpecExpr>, BinOp, Box<SpecExpr>),
    Call(Box<SpecExpr>, Seq<SpecExpr>),
    MethodCall(Box<SpecExpr>, Seq<char>, Seq<SpecExpr>),
    Field(Box<SpecExpr>, Seq<char>),
    Index(Box<SpecExpr>, Box<SpecExpr>),
    StructLit(Seq<char>, Seq<SpecStructInitializer>),
    Switch(Box<SpecExpr>, Seq<SpecSwitchArm>),
    For { binders: Seq<Seq<char>>, iter: Box<SpecExpr>, body: Seq<SpecStmt> },
    Block(Seq<SpecStmt>),
}

/// Model of `StructInitializer`.
pub struct SpecStructInitializer {
    pub label: Seq<char>,
    pub value: SpecExpr,
}

/// Model of `SwitchArm`.
pub struct SpecSwitchArm {
    pub patterns: Seq<SpecExpr>,
    pub body: SpecExpr,
}

/// Model of `Stmt`.
pub enum SpecStmt {
    Let(Seq<char>, SpecExpr),
    Expr(SpecExpr),
    Tail(SpecExpr),
    Return(Option<SpecExpr>),
}

pub open spec fn part_model(p: StringPart) -> SpecStringPart
    decreases p,
{
    match p {
        StringPart::Literal(t) => SpecStringPart::Literal(t@),
        StringPart::Interp { expr, format } => SpecStringPart::Interp {
            expr: Box::new(expr_model(*expr)),
            format: format.deep_view(),
        },
    }
}

pub open spec fn parts_model(v: Vec<StringPart>) -> Seq<SpecStringPart>
    decreases v,
{
    Seq::new(
        v.len() as nat,
        |i: int|
            if 0 <= i < v.len() {
                part_model(v[i])
            } else {
                SpecStringPart::Literal(Seq::empty())
            },
    )
}

pub open spec fn exprs_model(v: Vec<Expr>) -> Seq<SpecExpr>
    decreases v,
{
    Seq::new(
        v.len() as nat,
        |i: int|
            if 0 <= i < v.len() {
                expr_model(v[i])
            } else {
                SpecExpr::Block(Seq::empty())
            },
    )
}

pub open spec fn init_model(f: StructInitializer) -> SpecStructInitializer
    decreases f,
{
    SpecStructInitializer { label: f.label@, value: expr_model(f.value) }
}

pub open spec fn inits_model(v: Vec<StructInitializer>) -> Seq<SpecStructInitializer>
    decreases v,
{
    Seq::new(
        v.len() as nat,
        |i: int|
            if 0 <= i < v.len() {
                init_model(v[i])
            } else {
                SpecStructInitializer { label: Seq::empty(), value: SpecExpr::Block(Seq::empty()) }
            },
    )
}

pub open spec fn arm_model(a: SwitchArm) -> SpecSwitchArm
    decreases a,
{
    SpecSwitchArm { patterns: exprs_model(a.patterns), body: expr_model(a.body) }
}

pub open spec fn arms_model(v: Vec<SwitchArm>) -> Seq<SpecSwitchArm>
    decreases v,
{
    Seq::new(
        v.len() as nat,
        |i: int|
            if 0 <= i < v.len() {
                arm_model(v[i])
            } else {
                SpecSwitchArm { patterns: Seq::empty(), body: SpecExpr::Block(Seq::empty()) }
            },
    )
}

pub open spec fn stmt_model(s: Stmt) -> SpecStmt
    decreases s,
{
    match s {
        Stmt::Let(name, e) => SpecStmt::Let(name@, expr_model(e)),
        Stmt::Expr(e) => SpecStmt::Expr(expr_model(e)),
        Stmt::Tail(e) => SpecStmt::Tail(expr_model(e)),
        Stmt::Return(o) => SpecStmt::Return(
            match o {
                Some(e) => Some(expr_model(e)),
                None => None,
            },
        ),
    }
}

pub open spec fn stmts_model(v: Vec<Stmt>) -> Seq<SpecStmt>
    decreases v,
{
    Seq::new(
        v.len() as nat,
        |i: int|
            if 0 <= i < v.len() {
                stmt_model(v[i])
            } else {
                SpecStmt::Expr(SpecExpr::Block(Seq::empty()))
            },
    )
}

pub open spec fn expr_model(e: Expr) -> SpecExpr
    decreases e,
{
    match e {
        Expr::Number(t) => SpecExpr::Number(t@),
        Expr::Ident(t) => SpecExpr::Ident(t@),
        Expr::Str(parts) => SpecExpr::Str(parts_model(parts)),
        Expr::EnumVariant(ty, v) => SpecExpr::EnumVariant(ty@, v@),
        Expr::DotVariant(v) => SpecExpr::DotVariant(v@),
        Expr::Neg(x) => SpecExpr::Neg(Box::new(expr_model(*x))),
        Expr::Binary(x, op, y) => SpecExpr::Binary(
            Box::new(expr_model(*x)),
            op,
            Box::new(expr_model(*y)),
        ),
        Expr::Call(f, args) => SpecExpr::Call(Box::new(expr_model(*f)), exprs_model(args)),
        Expr::MethodCall(r, m, args) => SpecExpr::MethodCall(
            Box::new(expr_model(*r)),
            m@,
            exprs_model(args),
        ),
        Expr::Field(x, name) => SpecExpr::Field(Box::new(expr_model(*x)), name@),
        Expr::Index(x, i) => SpecExpr::Index(Box::new(expr_model(*x)), Box::new(expr_model(*i))),
        Expr::StructLit(name, fields) => SpecExpr::StructLit(name@, inits_model(fields)),
        Expr::Switch(x, arms) => SpecExpr::Switch(Box::new(expr_model(*x)), arms_model(arms)),
        Expr::For { binders, iter, body } => SpecExpr::For {
            binders: binders.deep_view(),
            iter: Box::new(expr_model(*iter)),
            body: stmts_model(body),
        },
        Expr::Block(stmts) => SpecExpr::Block(stmts_model(stmts)),
    }
}

impl DeepView for StringPart {
    type V = SpecStringPart;

    open spec fn deep_view(&self) -> SpecStringPart {
        part_model(*self)
    }
}

impl DeepView for Expr {
    type V = SpecExpr;

    open spec fn deep_view(&self) -> SpecExpr {
        expr_model(*self)
    }
}

impl DeepView for StructInitializer {
    type V = SpecStructInitializer;

    open spec fn deep_view(&self) -> SpecStructInitializer {
        init_model(*self)
    }
}

impl DeepView for SwitchArm {
    type V = SpecSwitchArm;

    open spec fn deep_view(&self) -> SpecSwitchArm {
        arm_model(*self)
    }
}

impl DeepView for Stmt {
    type V = SpecStmt;

    open spec fn deep_view(&self) -> SpecStmt {
        stmt_model(*self)
    }
}

pub broadcast proof fn lemma_parts_model(v: Vec<StringPart>)
    ensures
        #[trigger] parts_model(v) == v.deep_view(),
{
    assert(parts_model(v) =~= v.deep_view());
}

pub broadcast proof fn lemma_exprs_model(v: Vec<Expr>)
    ensures
        #[trigger] exprs_model(v) == v.deep_view(),
{
    assert(exprs_model(v) =~= v.deep_view());
}

pub broadcast proof fn lemma_inits_model(v: Vec<StructInitializer>)
    ensures
        #[trigger] inits_model(v) == v.deep_view(),
{
    assert(inits_model(v) =~= v.deep_view());
}

pub broadcast proof fn lemma_arms_model(v: Vec<SwitchArm>)
    ensures
        #[trigger] arms_model(v) == v.deep_view(),
{
    assert(arms_model(v) =~= v.deep_view());
}

pub broadcast proof fn lemma_stmts_model(v: Vec<Stmt>)
    ensures
        #[trigger] stmts_model(v) == v.deep_view(),
{
    assert(stmts_model(v) =~= v.deep_view());
}

pub broadcast group group_models {
    lemma_parts_model,
    lemma_exprs_model,
    lemma_inits_model,
    lemma_arms_model,
    lemma_stmts_model,
}

/// Appending to a vector appends the model of the new element to its model.
pub proof fn lemma_push_deep_view<T: DeepView>(old_v: Vec<T>, new_v: Vec<T>, x: T)
    requires
        new_v@ == old_v@.push(x),
    ensures
        new_v.deep_view() == old_v.deep_view().push(x.deep_view()),
{
    assert(new_v.deep_view() =~= old_v.deep_view().push(x.deep_view()));
}

// ---------------------------------------------------------------------------
// Deep copies
// ---------------------------------------------------------------------------

fn clone_string(t: &String) -> (r: String)
    ensures
        r@ == t@,
{
    t.clone()
}

fn clone_strings(v: &Vec<String>) -> (r: Vec<String>)
    ensures
        r.deep_view() == v.deep_view(),
{
    let mut r: Vec<String> = Vec::new();
    let mut i: usize = 0;
    while i < v.len()
        invariant
            i <= v.len(),
            r.deep_view() == v.deep_view().take(i as int),
        decreases v.len() - i,
    {
        let ghost old_r = r;
        let t = clone_string(&v[i]);
        r.push(t);
        proof {
            lemma_push_deep_view(old_r, r, t);
            assert(v.deep_view().take(i + 1) =~= v.deep_view().take(i as int).push(
                v@[i as int].deep_view(),
            ));
        }
        i = i + 1;
    }
    assert(v.deep_view().take(v.len() as int) =~= v.deep_view());
    r
}

fn clone_exprs(v: &Vec<Expr>) -> (r: Vec<Expr>)
    ensures
        r.deep_view() == v.deep_view(),
    decreases v,
{
    let mut r: Vec<Expr> = Vec::new();
    let mut i: usize = 0;
    while i < v.len()
        invariant
            i <= v.len(),
            r.deep_view() == v.deep_view().take(i as int),
        decreases v.len() - i,
    {
        let ghost old_r = r;
        proof {
            assert(decreases_to!(v => v[i as int]));
        }
        let e = v[i].clone_in();
        r.push(e);
        proof {
            lemma_push_deep_view(old_r, r, e);
            assert(v.deep_view().take(i + 1) =~= v.deep_view().take(i as int).push(
                v@[i as int].deep_view(),
            ));
        }
        i = i + 1;
    }
    assert(v.deep_view().take(v.len() as int) =~= v.deep_view());
    r
}

fn clone_parts(v: &Vec<StringPart>) -> (r: Vec<StringPart>)
    ensures
        r.deep_view() == v.deep_view(),
    decreases v,
{
    let mut r: Vec<StringPart> = Vec::new();
    let mut i: usize = 0;
    while i < v.len()
        invariant
            i <= v.len(),
            r.deep_view() == v.deep_view().take(i as int),
        decreases v.len() - i,
    {
        let ghost old_r = r;
        proof {
            assert(decreases_to!(v => v[i as int]));
        }
        let e = v[i].clone_in();
        r.push(e);
        proof {
            lemma_push_deep_view(old_r, r, e);
            assert(v.deep_view().take(i + 1) =~= v.deep_view().take(i as int).push(
                v@[i as int].deep_view(),
            ));
        }
        i = i + 1;
    }
    assert(v.deep_view().take(v.len() as int) =~= v.deep_view());
    r
}

fn clone_inits(v: &Vec<StructInitializer>) -> (r: Vec<StructInitializer>)
    ensures
        r.deep_view() == v.deep_view(),
    decreases v,
{
    let mut r: Vec<StructInitializer> = Vec::new();
    let mut i: usize = 0;
    while i < v.len()
        invariant
            i <= v.len(),
            r.deep_view() == v.deep_view().take(i as int),
        decreases v.len() - i,
    {
        let ghost old_r = r;
        proof {
            assert(decreases_to!(v => v[i as int]));
        }
        let e = v[i].clone_in();
        r.push(e);
        proof {
            lemma_push_deep_view(old_r, r, e);
            assert(v.deep_view().take(i + 1) =~= v.deep_view().take(i as int).push(
                v@[i as int].deep_view(),
            ));
        }
        i = i + 1;
    }
    assert(v.deep_view().take(v.len() as int) =~= v.deep_view());
    r
}

fn clone_arms(v: &Vec<SwitchArm>) -> (r: Vec<SwitchArm>)
    ensures
        r.deep_view() == v.deep_view(),
    decreases v,
{
    let mut r: Vec<SwitchArm> = Vec::new();
    let mut i: usize = 0;
    while i < v.len()
        invariant
            i <= v.len(),
            r.deep_view() == v.deep_view().take(i as int),
        decreases v.len() - i,
    {
        let ghost old_r = r;
        proof {
            assert(decreases_to!(v => v[i as int]));
        }
        let e = v[i].clone_in();
        r.push(e);
        proof {
            lemma_push_deep_view(old_r, r, e);
            assert(v.deep_view().take(i + 1) =~= v.deep_view().take(i as int).push(
                v@[i as int].deep_view(),
            ));
        }
        i = i + 1;
    }
    assert(v.deep_view().take(v.len() as int) =~= v.deep_view());
    r
}

fn clone_stmts(v: &Vec<Stmt>) -> (r: Vec<Stmt>)
    ensures
        r.deep_view() == v.deep_view(),
    decreases v,
{
    let mut r: Vec<Stmt> = Vec::new();
    let mut i: usize = 0;
    while i < v.len()
        invariant
            i <= v.len(),
            r.deep_view() == v.deep_view().take(i as int),
        decreases v.len() - i,
    {
        let ghost old_r = r;
        proof {
            assert(decreases_to!(v => v[i as int]));
        }
        let e = v[i].clone_in();
        r.push(e);
        proof {
            lemma_push_deep_view(old_r, r, e);
            assert(v.deep_view().take(i + 1) =~= v.deep_view().take(i as int).push(
                v@[i as int].deep_view(),
            ));
        }
        i = i + 1;
    }
    assert(v.deep_view().take(v.len() as int) =~= v.deep_view());
    r
}

impl StringPart {
    /// A deep copy: a new tree equal to this one.
    pub fn clone_in(&self) -> (r: StringPart)
        ensures
            r.deep_view() == self.deep_view(),
        decreases self,
    {
        match self {
            StringPart::Literal(t) => StringPart::Literal(clone_string(t)),
            StringPart::Interp { expr, format } => {
                let f = match format {
                    Some(f) => Some(clone_string(f)),
                    None => None,
                };
                StringPart::Interp { expr: Box::new((**expr).clone_in()), format: f }
            },
        }
    }
}

impl StructInitializer {
    /// A deep copy: a new initializer equal to this one.
    pub fn clone_in(&self) -> (r: StructInitializer)
        ensures
            r.deep_view() == self.deep_view(),
        decreases self,
    {
        StructInitializer { label: clone_string(&self.label), value: self.value.clone_in() }
    }
}

impl SwitchArm {
    /// A deep copy: a new arm equal to this one.
    pub fn clone_in(&self) -> (r: SwitchArm)
        ensures
            r.deep_view() == self.deep_view(),
        decreases self,
    {
        broadcast use group_models;

        let ps = clone_exprs(&self.patterns);
        let b = self.body.clone_in();
        let r = SwitchArm { patterns: ps, body: b };
        assert(exprs_model(ps) == ps.deep_view());
        assert(exprs_model(ps) == exprs_model(self.patterns));
        assert(expr_model(b) == expr_model(self.body));
        assert(r.deep_view() == arm_model(r));
        r
    }
}

impl Stmt {
    /// A deep copy: a new statement equal to this one.
    pub fn clone_in(&self) -> (r: Stmt)
        ensures
            r.deep_view() == self.deep_view(),
        decreases self,
    {
        match self {
            Stmt::Let(name, e) => Stmt::Let(clone_string(name), e.clone_in()),
            Stmt::Expr(e) => Stmt::Expr(e.clone_in()),
            Stmt::Tail(e) => Stmt::Tail(e.clone_in()),
            Stmt::Return(o) => Stmt::Return(
                match o {
                    Some(e) => Some(e.clone_in()),
                    None => None,
                },
            ),
        }
    }
}

impl Expr {
    /// A deep copy: a new expression tree equal to this one.
    pub fn clone_in(&self) -> (r: Expr)
        ensures
            r.deep_view() == self.deep_view(),
        decreases self,
    {
        broadcast use group_models;

        let r = match self {
            Expr::Number(t) => Expr::Number(clone_string(t)),
            Expr::Ident(t) => Expr::Ident(clone_string(t)),
            Expr::Str(parts) => {
                let ps = clone_parts(parts);
                assert(parts_model(ps) == parts_model(*parts));
                Expr::Str(ps)
            },
            Expr::EnumVariant(ty, v) => Expr::EnumVariant(clone_string(ty), clone_string(v)),
            Expr::DotVariant(v) => Expr::DotVariant(clone_string(v)),
            Expr::Neg(x) => Expr::Neg(Box::new((**x).clone_in())),
            Expr::Binary(x, op, y) => Expr::Binary(
                Box::new((**x).clone_in()),
                *op,
                Box::new((**y).clone_in()),
            ),
            Expr::Call(f, args) => {
                let g = (**f).clone_in();
                let a = clone_exprs(args);
                assert(exprs_model(a) == exprs_model(*args));
                Expr::Call(Box::new(g), a)
            },
            Expr::MethodCall(recv, m, args) => {
                let g = (**recv).clone_in();
                let a = clone_exprs(args);
                assert(exprs_model(a) == exprs_model(*args));
                Expr::MethodCall(Box::new(g), clone_string(m), a)
            },
            Expr::Field(x, name) => Expr::Field(Box::new((**x).clone_in()), clone_string(name)),
            Expr::Index(x, i) => Expr::Index(
                Box::new((**x).clone_in()),
                Box::new((**i).clone_in()),
            ),
            Expr::StructLit(name, fields) => {
                let fs = clone_inits(fields);
                assert(inits_model(fs) == inits_model(*fields));
                Expr::StructLit(clone_string(name), fs)
            },
            Expr::Switch(x, arms) => {
                let g = (**x).clone_in();
                let a = clone_arms(arms);
                assert(arms_model(a) == arms_model(*arms));
                Expr::Switch(Box::new(g), a)
            },
            Expr::For { binders, iter, body } => {
                let bs = clone_strings(binders);
                let it = (**iter).clone_in();
                let b = clone_stmts(body);
                assert(stmts_model(b) == stmts_model(*body));
                Expr::For { binders: bs, iter: Box::new(it), body: b }
            },
            Expr::Block(stmts) => {
                let b = clone_stmts(stmts);
                assert(stmts_model(b) == stmts_model(*stmts));
                Expr::Block(b)
            },
        };
        r
    }
}

} // verus!
