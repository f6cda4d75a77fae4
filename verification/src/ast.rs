//! The syntax tree that the enumeration reads.
//!
//! Constructs that the enumeration tells apart have a variant of their own.
//! Every other construct is only walked: it is held as the list of the nodes
//! directly below it, in source order.

use vstd::prelude::*;

use crate::text::{str_view, text_eq};

verus! {

/// A hygiene mark. The mark of a module's free identifiers is the
/// *unresolved* mark of that module.
#[derive(Debug, Clone, Copy, PartialEq, Eq, Structural)]
pub struct Mark(pub u32);

/// An identifier after scope resolution: two identifiers denote the same
/// binding exactly when they agree in `sym` and `ctxt`.
#[derive(Debug)]
pub struct Ident {
    pub sym: String,
    pub ctxt: u32,
    /// The outermost mark of `ctxt`.
    pub outer: Mark,
}

/// A resolved binding: a name together with its syntax context.
#[derive(Debug, Clone, PartialEq, Eq)]
pub struct Id {
    pub sym: String,
    pub ctxt: u32,
}

#[derive(Debug, Clone, Copy, PartialEq, Eq, Structural)]
pub enum BinaryOp {
    Add,
    LogicalOr,
    LogicalAnd,
    Other,
}

#[derive(Debug, Clone, Copy, PartialEq, Eq, Structural)]
pub enum AssignOp {
    /// `=`
    Assign,
    Other,
}

#[derive(Debug, Clone, Copy, PartialEq, Eq, Structural)]
pub enum MetaPropKind {
    NewTarget,
    ImportMeta,
}

#[derive(Debug)]
pub enum Lit {
    /// A string literal; `None` when the literal is not valid Unicode text
    /// (it holds an unpaired surrogate).
    Str(Option<String>),
    /// A number literal, as the bits of its double-precision value.
    Num(u64),
    Null,
    /// A regular expression literal, by its pattern.
    Regex(String),
    Other,
}

/// `${..}` template literal: `quasis` are the cooked literal parts (`None`
/// when a part has no valid Unicode text), `exprs` the parts between them.
#[derive(Debug)]
pub struct Tpl {
    pub quasis: Vec<Option<String>>,
    pub exprs: Vec<Expr>,
}

#[derive(Debug)]
pub struct BinExpr {
    pub op: BinaryOp,
    pub left: Box<Expr>,
    pub right: Box<Expr>,
}

/// What is written: the left-hand side of an assignment, the operand of `++`
/// or `--`, the head of a `for` loop over something, or a part of a pattern.
#[derive(Debug)]
pub enum AssignTarget {
    Ident(Ident),
    Member(MemberExpr),
    /// `(target)`
    Paren(Box<AssignTarget>),
    /// A destructuring pattern, or any other target: the nodes of it, each
    /// part that is written as a [`Node::Write`].
    Other(Vec<Node>),
}

#[derive(Debug)]
pub struct AssignExpr {
    pub op: AssignOp,
    pub left: AssignTarget,
    pub right: Box<Expr>,
}

#[derive(Debug)]
pub enum MemberProp {
    /// `.name`
    Ident(String),
    /// `[expr]`
    Computed(Box<Expr>),
    /// `.#name`
    Private,
}

#[derive(Debug)]
pub struct MemberExpr {
    pub obj: Box<Expr>,
    pub prop: MemberProp,
}

#[derive(Debug)]
pub enum Callee {
    Expr(Box<Expr>),
    /// `import(..)`
    Import,
    /// `super(..)`
    Super,
}

#[derive(Debug)]
pub struct ExprOrSpread {
    /// Whether the element is written `...expr`.
    pub spread: bool,
    pub expr: Expr,
}

#[derive(Debug)]
pub struct CallExpr {
    pub callee: Callee,
    pub args: Vec<ExprOrSpread>,
}

#[derive(Debug)]
pub enum PropName {
    Ident(String),
    Str(Option<String>),
    Num(u64),
    /// Any other key; a computed key holds its expression.
    Other(Vec<Node>),
}

#[derive(Debug)]
pub struct KeyValueProp {
    pub key: PropName,
    pub value: Expr,
}

/// A member of an object literal.
#[derive(Debug)]
pub enum Prop {
    KeyValue(KeyValueProp),
    /// A spread, a shorthand, a method or an accessor.
    Other(Vec<Node>),
}

/// A binding pattern.
#[derive(Debug)]
pub enum Pat {
    Ident(Ident),
    /// A destructuring pattern: the nodes of it, each binding as a
    /// [`Node::Write`].
    Other(Vec<Node>),
}

#[derive(Debug)]
pub struct Param {
    pub decorators: Vec<Node>,
    pub pat: Pat,
}

/// A statement of a function body.
#[derive(Debug)]
pub enum Stmt {
    Return(Option<Box<Expr>>),
    Other(Vec<Node>),
}

#[derive(Debug)]
pub struct Function {
    pub params: Vec<Param>,
    pub decorators: Vec<Node>,
    pub body: Option<Vec<Stmt>>,
    pub is_generator: bool,
    pub is_async: bool,
}

#[derive(Debug)]
pub enum ArrowFunctionBody {
    Expr(Box<Expr>),
    FunctionBody(Vec<Stmt>),
}

#[derive(Debug)]
pub struct ArrowExpr {
    pub params: Vec<Param>,
    pub body: ArrowFunctionBody,
    pub is_async: bool,
    pub is_generator: bool,
}

#[derive(Debug)]
pub struct CondExpr {
    pub test: Box<Expr>,
    pub cons: Box<Expr>,
    pub alt: Box<Expr>,
}

#[derive(Debug)]
pub enum Expr {
    Paren(Box<Expr>),
    Ident(Ident),
    Lit(Lit),
    Tpl(Tpl),
    Bin(BinExpr),
    Assign(AssignExpr),
    Member(MemberExpr),
    Call(CallExpr),
    /// An array literal; `None` is a hole.
    Array(Vec<Option<ExprOrSpread>>),
    Object(Vec<Prop>),
    Fn(Function),
    Arrow(ArrowExpr),
    Sequence(Vec<Expr>),
    Cond(CondExpr),
    MetaProp(MetaPropKind),
    Other(Vec<Node>),
}

#[derive(Debug)]
pub struct FnDecl {
    pub ident: Ident,
    pub function: Function,
}

#[derive(Debug)]
pub struct VarDeclarator {
    pub name: Pat,
    pub init: Option<Box<Expr>>,
}

/// A node below a construct that is only walked.
#[derive(Debug)]
pub enum Node {
    Expr(Expr),
    FnDecl(FnDecl),
    VarDeclarator(VarDeclarator),
    /// A write of a value that is not given as an expression of its own: a
    /// part of a destructuring pattern, the operand of `++` or `--`, or the
    /// head of a `for` loop over something.
    Write(AssignTarget),
}

#[derive(Debug)]
pub enum ModuleItem {
    /// `import .. from "src"`
    Import(Option<String>, Vec<Node>),
    /// `export { .. }`, or `export { .. } from "src"`
    ExportNamed(Option<Option<String>>, Vec<Node>),
    /// `export * from "src"`
    ExportAll(Option<String>, Vec<Node>),
    Other(Vec<Node>),
}

#[derive(Debug)]
pub struct Module {
    pub body: Vec<ModuleItem>,
}

// ---------------------------------------------------------------------------
// Bindings
// ---------------------------------------------------------------------------

/// What identifies a binding: a name and a syntax context.
pub type Binding = (Seq<char>, u32);

impl View for Id {
    type V = Binding;

    open spec fn view(&self) -> Binding {
        (self.sym@, self.ctxt)
    }
}

impl Id {
    /// Whether two ids name the same binding.
    pub fn same(&self, other: &Id) -> (r: bool)
        ensures
            r == (self@ == other@),
    {
        self.ctxt == other.ctxt && text_eq(self.sym.as_str(), other.sym.as_str())
    }

    /// A copy of the id.
    pub fn copy(&self) -> (r: Id)
        ensures
            r@ == self@,
    {
        Id { sym: self.sym.clone(), ctxt: self.ctxt }
    }
}

impl Ident {
    /// The binding that the identifier denotes.
    pub open spec fn binding(&self) -> Binding {
        (self.sym@, self.ctxt)
    }

    /// The id of the binding that the identifier denotes.
    pub fn to_id(&self) -> (r: Id)
        ensures
            r@ == self.binding(),
    {
        Id { sym: self.sym.clone(), ctxt: self.ctxt }
    }
}

// ---------------------------------------------------------------------------
// Reading expressions
// ---------------------------------------------------------------------------

/// The expression inside any parentheses around `expr`.
pub open spec fn stripped(expr: &Expr) -> &Expr
    decreases expr,
{
    match expr {
        Expr::Paren(inner) => stripped(inner),
        _ => expr,
    }
}

/// Remove the parentheses around an expression.
pub fn strip_parens(expr: &Expr) -> (r: &Expr)
    ensures
        r == stripped(expr),
        !(r is Paren),
    decreases expr,
{
    match expr {
        Expr::Paren(inner) => strip_parens(inner),
        _ => expr,
    }
}

/// `expr` is an identifier for the given binding.
pub open spec fn is_ident_of(expr: &Expr, binding: Binding) -> bool {
    match stripped(expr) {
        Expr::Ident(ident) => ident.binding() == binding,
        _ => false,
    }
}

/// Whether `expr` is an identifier for the binding `id`.
pub fn ident_is(expr: &Expr, id: &Id) -> (r: bool)
    ensures
        r == is_ident_of(expr, id@),
{
    match strip_parens(expr) {
        Expr::Ident(ident) => ident.to_id().same(id),
        _ => false,
    }
}

/// The text of a string literal, if `expr` is one with a text.
pub open spec fn string_text(expr: &Expr) -> Option<Seq<char>> {
    match stripped(expr) {
        Expr::Lit(Lit::Str(Some(text))) => Some(text@),
        _ => None,
    }
}

/// The text of a string literal.
pub fn string_literal(expr: &Expr) -> (r: Option<&str>)
    ensures
        str_view(r) == string_text(expr),
{
    match strip_parens(expr) {
        Expr::Lit(Lit::Str(Some(text))) => Some(text.as_str()),
        _ => None,
    }
}

/// `prop` is the property `.name`.
pub open spec fn names_prop(prop: &MemberProp, name: Seq<char>) -> bool {
    match prop {
        MemberProp::Ident(sym) => sym@ == name,
        _ => false,
    }
}

/// Whether `prop` is the property `.expected`.
pub fn member_prop_is(prop: &MemberProp, expected: &str) -> (r: bool)
    ensures
        r == names_prop(prop, expected@),
{
    match prop {
        MemberProp::Ident(sym) => text_eq(sym.as_str(), expected),
        _ => false,
    }
}

/// Whether `expr` is the empty string literal.
pub fn is_empty_string(expr: &Expr) -> (r: bool)
    ensures
        r == (string_text(expr) == Some(Seq::<char>::empty())),
{
    match string_literal(expr) {
        Some(text) => {
            proof {
                assert(text@.len() == 0 ==> text@ == Seq::<char>::empty());
            }
            text.is_empty()
        },
        None => false,
    }
}

/// The text of the only argument of a call, if it is a string literal.
pub open spec fn only_string_argument(call: &CallExpr) -> Option<Seq<char>> {
    if call.args@.len() == 1 && !call.args@[0].spread {
        string_text(&call.args@[0].expr)
    } else {
        None
    }
}

/// The text of the only argument of a call, if it is a string literal.
pub fn single_string_argument(call: &CallExpr) -> (r: Option<&str>)
    ensures
        str_view(r) == only_string_argument(call),
{
    if call.args.len() != 1 || call.args[0].spread {
        return None;
    }
    string_literal(&call.args[0].expr)
}

/// The pattern of a regular expression literal.
pub open spec fn regex_pattern(expr: &Expr) -> Option<Seq<char>> {
    match stripped(expr) {
        Expr::Lit(Lit::Regex(pattern)) => Some(pattern@),
        _ => None,
    }
}

/// The two arguments of a call whose first one is a regular expression and
/// whose second one is a string literal: the pattern and the text.
pub open spec fn regex_and_string(call: &CallExpr) -> Option<(Seq<char>, Seq<char>)> {
    if call.args@.len() == 2 && !call.args@[0].spread && !call.args@[1].spread {
        match (regex_pattern(&call.args@[0].expr), string_text(&call.args@[1].expr)) {
            (Some(pattern), Some(text)) => Some((pattern, text)),
            _ => None,
        }
    } else {
        None
    }
}

/// The pattern and the text of the two arguments of a call, if the first one
/// is a regular expression and the second one a string literal.
pub fn regex_and_string_arguments(call: &CallExpr) -> (r: Option<(&str, &str)>)
    ensures
        match r {
            Some((pattern, text)) => regex_and_string(call) == Some((pattern@, text@)),
            None => regex_and_string(call) is None,
        },
{
    if call.args.len() != 2 || call.args[0].spread || call.args[1].spread {
        return None;
    }
    match (strip_parens(&call.args[0].expr), string_literal(&call.args[1].expr)) {
        (Expr::Lit(Lit::Regex(pattern)), Some(text)) => Some((pattern.as_str(), text)),
        _ => None,
    }
}

} // verus!
