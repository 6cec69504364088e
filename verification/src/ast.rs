//! The syntax-tree model that the detectors consume.
//!
//! The front end (an external parser) turns source text into this tree; every
//! detector is a total, recursive walk over it.  The model keeps exactly the
//! shapes the detectors read — anything else collapses into `Unknown`/`Other`
//! nodes, whose children are still walked by the detectors that visit every
//! expression.  Line numbers and rendered extents (`loc`) are taken from the
//! front end's span information and carried here as plain values.

use vstd::prelude::*;

verus! {

/// Binary operators, as far as the detectors distinguish them.
#[derive(Clone, Copy, PartialEq, Eq, Structural)]
pub enum BinOp {
    Add,
    Sub,
    Mul,
    AddAssign,
    SubAssign,
    MulAssign,
    And,
    Or,
    Other,
}

/// Literal values, as far as the detectors distinguish them.
pub enum Lit {
    Str(String),
    Int(u64),
    Other,
}

/// An expression node.
pub enum Expr {
    /// A binary or compound-assignment operation; `line` is the source line
    /// of the left operand.
    Binary { op: BinOp, left: Box<Expr>, right: Box<Expr>, line: usize },
    /// A method call `receiver.name(args...)`.
    MethodCall { name: String, receiver: Box<Expr>, args: Vec<Expr> },
    /// A call `func(args...)`; `line` is the source line of the call.
    Call { func: Box<Expr>, args: Vec<Expr>, line: usize },
    /// A macro invocation in expression position.  `str_arg` holds the macro's
    /// argument when it is a single string literal; `line` is its source line.
    MacroCall { path: Vec<String>, str_arg: Option<String>, line: usize },
    /// A block expression.
    Block { stmts: Vec<Stmt> },
    /// An `if` expression; the else branch, when present, is a block or a
    /// further `if`.
    If { cond: Box<Expr>, then_branch: Vec<Stmt>, else_branch: Option<Box<Expr>> },
    /// A `match` expression; each arm's body is one expression.
    Match { scrutinee: Box<Expr>, arms: Vec<Expr> },
    /// A `for` loop over `iter`.
    ForLoop { iter: Box<Expr>, body: Vec<Stmt> },
    /// A `while` loop.
    While { cond: Box<Expr>, body: Vec<Stmt> },
    /// A bare `loop`.
    Loop { body: Vec<Stmt> },
    /// A closure.
    Closure { body_expr: Box<Expr> },
    /// A field access `base.member`.
    Field { base: Box<Expr>, member: String },
    /// A path such as `DataKey::Val`, kept as its segments.
    Path { segments: Vec<String> },
    /// A literal.
    Literal { lit: Lit },
    /// Any other expression form; `children` are its sub-expressions, so the
    /// exhaustive walks still descend.
    Unknown { children: Vec<Expr> },
}

/// A statement.
pub enum Stmt {
    /// A `let` binding with an optional explicit type and initializer.
    Local { ty: Option<TyExpr>, init: Option<Expr> },
    /// An expression statement.
    ExprStmt { expr: Expr },
    /// A macro invocation in statement position.
    MacroStmt { path: Vec<String> },
    /// Any other statement form.
    Other,
}

/// A type as written in the source.
pub enum TyExpr {
    /// A path type, kept as its last segment's name and that segment's type
    /// arguments.
    Named { name: String, args: Vec<TyExpr> },
    /// A fixed-size array `[elem; len]`; `len` is `None` when its length is
    /// not a plain integer literal.
    Array { elem: Box<TyExpr>, len: Option<usize> },
    /// Any other type form.
    Other,
}

/// A function definition, free or inside an `impl` block.
///
/// `param_count` is the signature's argument count (any receiver or
/// environment parameter included); `loc` is the number of source lines the
/// function's rendered text spans.  Both come from the front end.
pub struct FnDef {
    pub name: String,
    pub is_public: bool,
    pub param_count: usize,
    pub loc: usize,
    pub body: Vec<Stmt>,
}

/// A top-level item.
pub enum Item {
    /// A struct; `persisted` records the presence of the persisted-layout
    /// marker attribute, `fields` the types of all its fields.
    Struct { name: String, persisted: bool, fields: Vec<TyExpr> },
    /// An enum; each variant is the list of its field types.
    Enum { name: String, persisted: bool, variants: Vec<Vec<TyExpr>> },
    /// A top-level constant; `str_value` holds its initializer when that is a
    /// string literal, and `line` its source line.
    Const { name: String, str_value: Option<String>, line: usize },
    /// An `impl` block, kept as the functions defined in it.
    Impl { fns: Vec<FnDef> },
    /// A free function.
    FreeFn { func: FnDef },
    /// A `use` or `extern crate` item (counted as a dependency).
    Use,
    /// Any other item form.
    Other,
}

/// One parsed source file.
pub struct SourceFile {
    pub items: Vec<Item>,
}

} // verus!
