//! The program the Rust converter builds: functions, statements and token-level
//! expressions.
use vstd::prelude::*;
use crate::text::strings_view;

verus! {

/// A whole converted program.
#[derive(Debug)]
pub struct Program {
    pub constants: Vec<Constant>,
    pub struct_factories: Vec<StructFactory>,
    pub namespace_aliases: Vec<NamespaceAlias>,
    pub functions: Vec<Function>,
    pub main: Vec<Stmt>,
}

/// A module-level constant, such as an enum variant.
#[derive(Debug, Clone, PartialEq, Eq)]
pub struct Constant {
    pub name: String,
    pub value: String,
}

/// A struct, written as a function that builds a dict.
#[derive(Debug, Clone, PartialEq, Eq)]
pub struct StructFactory {
    pub name: String,
    pub fields: Vec<String>,
}

/// A path such as `helpers::clear_tile` and the Python name it becomes.
#[derive(Debug, Clone, PartialEq, Eq)]
pub struct NamespaceAlias {
    pub path: Vec<String>,
    pub output: String,
}

/// A function definition.
#[derive(Debug)]
pub struct Function {
    pub name: String,
    pub params: Vec<FunctionParam>,
    pub body: Vec<Stmt>,
}

/// A parameter, with its default value if it has one.
#[derive(Debug, Clone, PartialEq, Eq)]
pub struct FunctionParam {
    pub name: String,
    pub default: Option<Expr>,
}

/// A statement.
#[derive(Debug)]
pub enum Stmt {
    Noop,
    Comment(String),
    Function(Function),
    Loop(Vec<Stmt>),
    While { condition: Expr, body: Vec<Stmt> },
    If { condition: Expr, then_body: Vec<Stmt>, else_branch: Option<ElseBranch> },
    For { variable: String, start: Expr, end: Expr, body: Vec<Stmt> },
    ForEach { variable: String, iterable: Expr, body: Vec<Stmt> },
    Let { name: String, value: Expr },
    Assign { target: Expr, value: Expr },
    Expr(Expr),
    Break,
    Continue,
    Return(Option<Expr>),
}

/// What follows an `if` block.
#[derive(Debug)]
pub enum ElseBranch {
    ElseIf { condition: Expr, then_body: Vec<Stmt>, else_branch: Option<Box<ElseBranch>> },
    Else(Vec<Stmt>),
}

/// An expression, kept as the tokens it was written with.
#[derive(Debug, Clone, PartialEq, Eq)]
pub struct Expr {
    pub tokens: Vec<ExprToken>,
}

/// A token inside an expression.
#[derive(Debug, Clone, PartialEq, Eq)]
pub enum ExprToken {
    Ident(String),
    Number(String),
    String(String),
    Symbol(char),
    Operator(String),
}

/// What an expression token holds.
pub enum ExprTokV {
    Ident(Seq<char>),
    Number(Seq<char>),
    Str(Seq<char>),
    Symbol(char),
    Operator(Seq<char>),
}

impl ExprToken {
    pub open spec fn view_tok(self) -> ExprTokV {
        match self {
            ExprToken::Ident(s) => ExprTokV::Ident(s@),
            ExprToken::Number(s) => ExprTokV::Number(s@),
            ExprToken::String(s) => ExprTokV::Str(s@),
            ExprToken::Symbol(c) => ExprTokV::Symbol(c),
            ExprToken::Operator(s) => ExprTokV::Operator(s@),
        }
    }
}

/// The views of expression tokens.
pub open spec fn etoks_view(ts: Seq<ExprToken>) -> Seq<ExprTokV> {
    ts.map_values(|t: ExprToken| t.view_tok())
}

impl ExprToken {
    /// A copy of this token.
    pub fn duplicate(&self) -> (r: ExprToken)
        ensures
            r.view_tok() == self.view_tok(),
    {
        match self {
            ExprToken::Ident(s) => ExprToken::Ident(s.clone()),
            ExprToken::Number(s) => ExprToken::Number(s.clone()),
            ExprToken::String(s) => ExprToken::String(s.clone()),
            ExprToken::Symbol(c) => ExprToken::Symbol(*c),
            ExprToken::Operator(s) => ExprToken::Operator(s.clone()),
        }
    }
}

/// Copies of `ts[from..to]`.
pub fn copy_tokens(ts: &Vec<ExprToken>, from: usize, to: usize) -> (r: Vec<ExprToken>)
    requires
        from <= to <= ts@.len(),
    ensures
        etoks_view(r@) == etoks_view(ts@).subrange(from as int, to as int),
        r@.len() == to - from,
{
    let mut r: Vec<ExprToken> = Vec::new();
    let mut i: usize = from;
    while i < to
        invariant
            from <= i <= to <= ts@.len(),
            r@.len() == i - from,
            forall|k: int| 0 <= k < r@.len() ==> r@[k].view_tok() == ts@[from + k].view_tok(),
        decreases to - i,
    {
        r.push(ts[i].duplicate());
        i = i + 1;
    }
    proof {
        assert(etoks_view(r@) =~= etoks_view(ts@).subrange(from as int, to as int));
    }
    r
}

impl Expr {
    /// The view of this expression's tokens.
    pub open spec fn view_expr(self) -> Seq<ExprTokV> {
        etoks_view(self.tokens@)
    }

    /// An expression made of `tokens`.
    pub fn new(tokens: Vec<ExprToken>) -> (e: Self)
        ensures
            e.tokens == tokens,
    {
        Expr { tokens }
    }

    /// Whether the expression has no tokens.
    pub fn is_empty(&self) -> (r: bool)
        ensures
            r == (self.tokens.len() == 0),
    {
        self.tokens.len() == 0
    }
}


/// A parameter: its name and default value.
pub struct ParamV {
    pub name: Seq<char>,
    pub default: Option<Seq<ExprTokV>>,
}

/// A function: its name, parameters and body.
pub struct FunctionV {
    pub name: Seq<char>,
    pub params: Seq<ParamV>,
    pub body: Seq<StmtV>,
}

/// What a statement says.
pub enum StmtV {
    Noop,
    Comment(Seq<char>),
    Function(FunctionV),
    Loop(Seq<StmtV>),
    While { condition: Seq<ExprTokV>, body: Seq<StmtV> },
    If { condition: Seq<ExprTokV>, then_body: Seq<StmtV>, else_branch: Option<ElseV> },
    For { variable: Seq<char>, start: Seq<ExprTokV>, end: Seq<ExprTokV>, body: Seq<StmtV> },
    ForEach { variable: Seq<char>, iterable: Seq<ExprTokV>, body: Seq<StmtV> },
    Let { name: Seq<char>, value: Seq<ExprTokV> },
    Assign { target: Seq<ExprTokV>, value: Seq<ExprTokV> },
    Expr(Seq<ExprTokV>),
    Break,
    Continue,
    Return(Option<Seq<ExprTokV>>),
}

/// What an `else` part says.
pub enum ElseV {
    ElseIf { condition: Seq<ExprTokV>, then_body: Seq<StmtV>, else_branch: Option<Box<ElseV>> },
    Else(Seq<StmtV>),
}

/// What a parameter says.
pub open spec fn param_v(p: FunctionParam) -> ParamV {
    ParamV {
        name: p.name@,
        default: match p.default {
            Some(e) => Some(e.view_expr()),
            None => None,
        },
    }
}

/// What a statement says.
pub open spec fn stmt_v(s: Stmt) -> StmtV
    decreases s, 0nat,
{
    match s {
        Stmt::Noop => StmtV::Noop,
        Stmt::Comment(t) => StmtV::Comment(t@),
        Stmt::Function(f) => StmtV::Function(function_v(f)),
        Stmt::Loop(b) => StmtV::Loop(stmts_v(b@)),
        Stmt::While { condition, body } => StmtV::While { condition: condition.view_expr(), body: stmts_v(body@) },
        Stmt::If { condition, then_body, else_branch } => StmtV::If {
            condition: condition.view_expr(),
            then_body: stmts_v(then_body@),
            else_branch: match else_branch {
                Some(e) => Some(else_v(e)),
                None => None,
            },
        },
        Stmt::For { variable, start, end, body } => StmtV::For {
            variable: variable@,
            start: start.view_expr(),
            end: end.view_expr(),
            body: stmts_v(body@),
        },
        Stmt::ForEach { variable, iterable, body } => StmtV::ForEach {
            variable: variable@,
            iterable: iterable.view_expr(),
            body: stmts_v(body@),
        },
        Stmt::Let { name, value } => StmtV::Let { name: name@, value: value.view_expr() },
        Stmt::Assign { target, value } => StmtV::Assign { target: target.view_expr(), value: value.view_expr() },
        Stmt::Expr(e) => StmtV::Expr(e.view_expr()),
        Stmt::Break => StmtV::Break,
        Stmt::Continue => StmtV::Continue,
        Stmt::Return(v) => StmtV::Return(
            match v {
                Some(e) => Some(e.view_expr()),
                None => None,
            },
        ),
    }
}

/// What an `else` part says.
pub open spec fn else_v(e: ElseBranch) -> ElseV
    decreases e, 0nat,
{
    match e {
        ElseBranch::ElseIf { condition, then_body, else_branch } => ElseV::ElseIf {
            condition: condition.view_expr(),
            then_body: stmts_v(then_body@),
            else_branch: match else_branch {
                Some(b) => Some(Box::new(else_v(*b))),
                None => None,
            },
        },
        ElseBranch::Else(b) => ElseV::Else(stmts_v(b@)),
    }
}

/// What a function says.
pub open spec fn function_v(f: Function) -> FunctionV
    decreases f, 0nat,
{
    FunctionV { name: f.name@, params: f.params@.map_values(|p: FunctionParam| param_v(p)), body: stmts_v(f.body@) }
}

/// What each statement of a block says.
pub open spec fn stmts_v(b: Seq<Stmt>) -> Seq<StmtV>
    decreases b, 0nat,
{
    Seq::new(b.len(), |i: int| if 0 <= i < b.len() { stmt_v(b[i]) } else { StmtV::Noop })
}

/// The items a program collects: constants, struct factories, `::` path aliases and
/// functions.
pub struct ItemsV {
    pub constants: Seq<(Seq<char>, Seq<char>)>,
    pub factories: Seq<(Seq<char>, Seq<Seq<char>>)>,
    pub aliases: Seq<(Seq<Seq<char>>, Seq<char>)>,
    pub functions: Seq<FunctionV>,
}

/// What a program says: its items and the body of `main`.
pub struct ProgramV {
    pub items: ItemsV,
    pub main: Seq<StmtV>,
}

/// A constant's name and value.
pub open spec fn constant_v(k: Constant) -> (Seq<char>, Seq<char>) {
    (k.name@, k.value@)
}

/// A struct factory's name and field names.
pub open spec fn factory_v(f: StructFactory) -> (Seq<char>, Seq<Seq<char>>) {
    (f.name@, strings_view(f.fields@))
}

/// An alias's path and Python name.
pub open spec fn alias_v(a: NamespaceAlias) -> (Seq<Seq<char>>, Seq<char>) {
    (strings_view(a.path@), a.output@)
}

/// The items held in four vectors.
pub open spec fn items_v(
    constants: Seq<Constant>,
    factories: Seq<StructFactory>,
    aliases: Seq<NamespaceAlias>,
    functions: Seq<Function>,
) -> ItemsV {
    ItemsV {
        constants: constants.map_values(|k: Constant| constant_v(k)),
        factories: factories.map_values(|f: StructFactory| factory_v(f)),
        aliases: aliases.map_values(|a: NamespaceAlias| alias_v(a)),
        functions: functions.map_values(|f: Function| function_v(f)),
    }
}

/// What a program says.
pub open spec fn program_v(p: Program) -> ProgramV {
    ProgramV {
        items: items_v(p.constants@, p.struct_factories@, p.namespace_aliases@, p.functions@),
        main: stmts_v(p.main@),
    }
}

/// The view of each statement of a block.
pub proof fn lemma_stmts_v_index(b: Seq<Stmt>, i: int)
    requires
        0 <= i < b.len(),
    ensures
        stmts_v(b).len() == b.len(),
        stmts_v(b)[i] == stmt_v(b[i]),
{
}

/// A statement's view has the statement's own variant.
pub proof fn lemma_stmt_v_kind(s: Stmt)
    ensures
        (s is Comment) <==> (stmt_v(s) is Comment),
        (s is Noop) <==> (stmt_v(s) is Noop),
{
}

} // verus!
