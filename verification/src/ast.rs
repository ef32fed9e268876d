//! The abstract syntax tree: `Program`, `Statement`, `Expression` and
//! `BlockStatement`, together with their specification-level mirrors over
//! `Seq` and `Seq<char>`, and the operator-precedence ladder.

use vstd::prelude::*;

verus! {

use vstd::string::{StrSliceExecFns, StringExecFns};
use crate::text::{i64_to_string, join_comma, joined, render_i64};

/// The root of a parse: the program's statements in order.
#[derive(Debug, PartialEq)]
pub struct Program {
    pub statements: Vec<Statement>,
}

/// A statement: a `let` binding, a `return`, or a bare expression.
#[derive(Debug, PartialEq)]
pub enum Statement {
    Let { ident: Expression, value: Expression },
    Return(Expression),
    Expression(Expression),
}

/// An expression; subtrees are owned, the tree is acyclic.
#[derive(Debug, PartialEq)]
pub enum Expression {
    Ident(String),
    Int(i64),
    Boolean(bool),
    Prefix { op: String, right: Box<Expression> },
    Infix { left: Box<Expression>, op: String, right: Box<Expression> },
    If {
        condition: Box<Expression>,
        consequence: BlockStatement,
        alternative: Option<BlockStatement>,
    },
    Function { parameters: Vec<String>, body: BlockStatement },
    Call { function: Box<Expression>, arguments: Vec<Expression> },
}

/// The body of an `if` arm or of a function literal.
#[derive(Debug, PartialEq)]
pub struct BlockStatement {
    pub statements: Vec<Statement>,
}

/// Operator binding powers, lowest to highest; used only as a comparison
/// threshold while parsing expressions.
#[derive(Debug, Clone, Copy, PartialEq, Eq, Structural)]
pub enum Precedence {
    Lowest,
    Equals,
    Lessgreater,
    Sum,
    Product,
    Prefix,
    Call,
}

/// The position of a precedence level on the ladder.
pub open spec fn precedence_rank(p: Precedence) -> u8 {
    match p {
        Precedence::Lowest => 0,
        Precedence::Equals => 1,
        Precedence::Lessgreater => 2,
        Precedence::Sum => 3,
        Precedence::Product => 4,
        Precedence::Prefix => 5,
        Precedence::Call => 6,
    }
}

impl Precedence {
    /// The numeric height of this level, for threshold comparisons.
    pub fn rank(&self) -> (r: u8)
        ensures
            r == precedence_rank(*self),
    {
        match self {
            Precedence::Lowest => 0,
            Precedence::Equals => 1,
            Precedence::Lessgreater => 2,
            Precedence::Sum => 3,
            Precedence::Product => 4,
            Precedence::Prefix => 5,
            Precedence::Call => 6,
        }
    }
}

/// Specification-level mirror of an [`Expression`].
pub enum ExprV {
    Ident(Seq<char>),
    Int(i64),
    Boolean(bool),
    Prefix { op: Seq<char>, right: Box<ExprV> },
    Infix { left: Box<ExprV>, op: Seq<char>, right: Box<ExprV> },
    If { condition: Box<ExprV>, consequence: Seq<StmtV>, alternative: Option<Seq<StmtV>> },
    Function { parameters: Seq<Seq<char>>, body: Seq<StmtV> },
    Call { function: Box<ExprV>, arguments: Seq<ExprV> },
}

/// Specification-level mirror of a [`Statement`].
pub enum StmtV {
    Let { ident: ExprV, value: ExprV },
    Return(ExprV),
    Expression(ExprV),
}

/// The mirror of an expression tree.
pub open spec fn view_of_expr(e: Expression) -> ExprV
    decreases e,
{
    match e {
        Expression::Ident(name) => ExprV::Ident(name@),
        Expression::Int(value) => ExprV::Int(value),
        Expression::Boolean(value) => ExprV::Boolean(value),
        Expression::Prefix { op, right } => ExprV::Prefix {
            op: op@,
            right: Box::new(view_of_expr(*right)),
        },
        Expression::Infix { left, op, right } => ExprV::Infix {
            left: Box::new(view_of_expr(*left)),
            op: op@,
            right: Box::new(view_of_expr(*right)),
        },
        Expression::If { condition, consequence, alternative } => ExprV::If {
            condition: Box::new(view_of_expr(*condition)),
            consequence: view_of_stmts(consequence.statements@),
            alternative: match alternative {
                Some(block) => Some(view_of_stmts(block.statements@)),
                None => None,
            },
        },
        Expression::Function { parameters, body } => ExprV::Function {
            parameters: parameters.deep_view(),
            body: view_of_stmts(body.statements@),
        },
        Expression::Call { function, arguments } => ExprV::Call {
            function: Box::new(view_of_expr(*function)),
            arguments: view_of_exprs(arguments@),
        },
    }
}

/// The mirror of a statement.
pub open spec fn view_of_stmt(s: Statement) -> StmtV
    decreases s,
{
    match s {
        Statement::Let { ident, value } => StmtV::Let {
            ident: view_of_expr(ident),
            value: view_of_expr(value),
        },
        Statement::Return(e) => StmtV::Return(view_of_expr(e)),
        Statement::Expression(e) => StmtV::Expression(view_of_expr(e)),
    }
}

/// The mirror of a sequence of statements, element by element.
pub open spec fn view_of_stmts(s: Seq<Statement>) -> Seq<StmtV>
    decreases s,
{
    if s.len() == 0 {
        Seq::empty()
    } else {
        view_of_stmts(s.drop_last()).push(view_of_stmt(s.last()))
    }
}

/// The mirror of a sequence of expressions, element by element.
pub open spec fn view_of_exprs(s: Seq<Expression>) -> Seq<ExprV>
    decreases s,
{
    if s.len() == 0 {
        Seq::empty()
    } else {
        view_of_exprs(s.drop_last()).push(view_of_expr(s.last()))
    }
}

impl DeepView for Expression {
    type V = ExprV;

    open spec fn deep_view(&self) -> ExprV {
        view_of_expr(*self)
    }
}

impl DeepView for Statement {
    type V = StmtV;

    open spec fn deep_view(&self) -> StmtV {
        view_of_stmt(*self)
    }
}

impl DeepView for BlockStatement {
    type V = Seq<StmtV>;

    open spec fn deep_view(&self) -> Seq<StmtV> {
        view_of_stmts(self.statements@)
    }
}

impl DeepView for Program {
    type V = Seq<StmtV>;

    open spec fn deep_view(&self) -> Seq<StmtV> {
        view_of_stmts(self.statements@)
    }
}

/// Deep copy of a list of names (function parameters).
pub fn clone_names(names: &Vec<String>) -> (r: Vec<String>)
    ensures
        r.deep_view() == names.deep_view(),
{
    let mut out: Vec<String> = Vec::new();
    let mut i: usize = 0;
    while i < names.len()
        invariant
            i <= names@.len(),
            out@.len() == i,
            forall|j: int| 0 <= j < i ==> out@[j]@ == names@[j]@,
        decreases names@.len() - i,
    {
        out.push((&names[i]).clone());
        i += 1;
    }
    proof {
        assert(out.deep_view() =~= names.deep_view());
    }
    out
}

/// Deep copy of a list of statements.
pub fn clone_statements(stmts: &Vec<Statement>) -> (r: Vec<Statement>)
    ensures
        view_of_stmts(r@) == view_of_stmts(stmts@),
    decreases *stmts,
{
    let mut out: Vec<Statement> = Vec::new();
    let mut i: usize = 0;
    while i < stmts.len()
        invariant
            i <= stmts@.len(),
            out@.len() == i,
            forall|j: int| 0 <= j < i ==> view_of_stmt(out@[j]) == view_of_stmt(stmts@[j]),
        decreases stmts@.len() - i,
    {
        out.push((&stmts[i]).clone());
        i += 1;
    }
    proof {
        lemma_view_of_stmts_index(out@);
        lemma_view_of_stmts_index(stmts@);
        assert(view_of_stmts(out@) =~= view_of_stmts(stmts@));
    }
    out
}

/// Deep copy of a list of expressions (call arguments).
pub fn clone_expressions(exprs: &Vec<Expression>) -> (r: Vec<Expression>)
    ensures
        view_of_exprs(r@) == view_of_exprs(exprs@),
    decreases *exprs,
{
    let mut out: Vec<Expression> = Vec::new();
    let mut i: usize = 0;
    while i < exprs.len()
        invariant
            i <= exprs@.len(),
            out@.len() == i,
            forall|j: int| 0 <= j < i ==> view_of_expr(out@[j]) == view_of_expr(exprs@[j]),
        decreases exprs@.len() - i,
    {
        out.push((&exprs[i]).clone());
        i += 1;
    }
    proof {
        lemma_view_of_exprs_index(out@);
        lemma_view_of_exprs_index(exprs@);
        assert(view_of_exprs(out@) =~= view_of_exprs(exprs@));
    }
    out
}

impl Clone for Expression {
    fn clone(&self) -> (r: Self)
        ensures
            r.deep_view() == self.deep_view(),
        decreases self,
    {
        match self {
            Expression::Ident(name) => Expression::Ident(name.clone()),
            Expression::Int(value) => Expression::Int(*value),
            Expression::Boolean(value) => Expression::Boolean(*value),
            Expression::Prefix { op, right } => Expression::Prefix {
                op: op.clone(),
                right: Box::new((&**right).clone()),
            },
            Expression::Infix { left, op, right } => Expression::Infix {
                left: Box::new((&**left).clone()),
                op: op.clone(),
                right: Box::new((&**right).clone()),
            },
            Expression::If { condition, consequence, alternative } => Expression::If {
                condition: Box::new((&**condition).clone()),
                consequence: consequence.clone(),
                alternative: match alternative {
                    Some(block) => Some(block.clone()),
                    None => None,
                },
            },
            Expression::Function { parameters, body } => Expression::Function {
                parameters: clone_names(parameters),
                body: body.clone(),
            },
            Expression::Call { function, arguments } => Expression::Call {
                function: Box::new((&**function).clone()),
                arguments: clone_expressions(arguments),
            },
        }
    }
}

impl Clone for Statement {
    fn clone(&self) -> (r: Self)
        ensures
            r.deep_view() == self.deep_view(),
        decreases self,
    {
        match self {
            Statement::Let { ident, value } => Statement::Let {
                ident: ident.clone(),
                value: value.clone(),
            },
            Statement::Return(e) => Statement::Return(e.clone()),
            Statement::Expression(e) => Statement::Expression(e.clone()),
        }
    }
}

impl Clone for BlockStatement {
    fn clone(&self) -> (r: Self)
        ensures
            r.deep_view() == self.deep_view(),
        decreases self,
    {
        BlockStatement { statements: clone_statements(&self.statements) }
    }
}

/// The canonical rendering of an expression: infix and prefix expressions
/// fully parenthesized, functions as `fn (params) { body }`.
pub open spec fn render_expr(e: ExprV) -> Seq<char>
    decreases e,
{
    match e {
        ExprV::Ident(name) => name,
        ExprV::Int(value) => render_i64(value),
        ExprV::Boolean(value) => if value {
            "true"@
        } else {
            "false"@
        },
        ExprV::Prefix { op, right } => "("@ + op + render_expr(*right) + ")"@,
        ExprV::Infix { left, op, right } => "("@ + render_expr(*left) + " "@ + op + " "@
            + render_expr(*right) + ")"@,
        ExprV::If { condition, consequence, alternative } => {
            let base = "if "@ + render_expr(*condition) + " "@ + render_stmts(consequence);
            match alternative {
                Some(block) => base + render_stmts(block),
                None => base,
            }
        },
        ExprV::Function { parameters, body } => "fn ("@ + joined(parameters) + ") { "@
            + render_stmts(body) + " }"@,
        ExprV::Call { function, arguments } => render_expr(*function) + "("@ + joined(
            rendered_exprs(arguments),
        ) + ")"@,
    }
}

/// The canonical rendering of one statement.
pub open spec fn render_stmt(s: StmtV) -> Seq<char>
    decreases s,
{
    match s {
        StmtV::Let { ident, value } => "let "@ + render_expr(ident) + " = "@ + render_expr(value)
            + ";"@,
        StmtV::Return(e) => "return "@ + render_expr(e) + ";"@,
        StmtV::Expression(e) => render_expr(e),
    }
}

/// The canonical rendering of a statement sequence: the statements,
/// concatenated.
pub open spec fn render_stmts(stmts: Seq<StmtV>) -> Seq<char>
    decreases stmts,
{
    if stmts.len() == 0 {
        Seq::empty()
    } else {
        render_stmts(stmts.drop_last()) + render_stmt(stmts.last())
    }
}

/// The renderings of a list of expressions, element by element.
pub open spec fn rendered_exprs(args: Seq<ExprV>) -> Seq<Seq<char>>
    decreases args,
{
    if args.len() == 0 {
        Seq::empty()
    } else {
        rendered_exprs(args.drop_last()).push(render_expr(args.last()))
    }
}

/// The canonical rendering of a program: one line per statement.
pub open spec fn render_program(stmts: Seq<StmtV>) -> Seq<char>
    decreases stmts,
{
    if stmts.len() == 0 {
        Seq::empty()
    } else {
        render_program(stmts.drop_last()) + render_stmt(stmts.last()) + "\n"@
    }
}

/// The element-by-element renderings agree with pointwise rendering.
pub proof fn lemma_rendered_exprs_index(s: Seq<ExprV>)
    ensures
        rendered_exprs(s).len() == s.len(),
        forall|i: int| 0 <= i < s.len() ==> rendered_exprs(s)[i] == render_expr(s[i]),
    decreases s,
{
    if s.len() > 0 {
        lemma_rendered_exprs_index(s.drop_last());
    }
}

impl Expression {
    /// Canonical stringification: infix and prefix expressions fully
    /// parenthesized, functions as `fn (params) { body }`.
    pub fn to_string(&self) -> (r: String)
        ensures
            r@ == render_expr(self.deep_view()),
        decreases self,
    {
        match self {
            Expression::Ident(name) => name.clone(),
            Expression::Int(value) => i64_to_string(*value),
            Expression::Boolean(value) => {
                if *value {
                    String::from_str("true")
                } else {
                    String::from_str("false")
                }
            },
            Expression::Prefix { op, right } => {
                let mut out = String::from_str("(");
                out.append(op.as_str());
                let rendered = (&**right).to_string();
                out.append(rendered.as_str());
                out.append(")");
                out
            },
            Expression::Infix { left, op, right } => {
                let mut out = String::from_str("(");
                let left_rendered = (&**left).to_string();
                out.append(left_rendered.as_str());
                out.append(" ");
                out.append(op.as_str());
                out.append(" ");
                let right_rendered = (&**right).to_string();
                out.append(right_rendered.as_str());
                out.append(")");
                out
            },
            Expression::If { condition, consequence, alternative } => {
                let mut out = String::from_str("if ");
                let cond_rendered = (&**condition).to_string();
                out.append(cond_rendered.as_str());
                out.append(" ");
                let cons_rendered = consequence.to_string();
                out.append(cons_rendered.as_str());
                match alternative {
                    Some(block) => {
                        let alt_rendered = block.to_string();
                        out.append(alt_rendered.as_str());
                    },
                    None => {},
                }
                out
            },
            Expression::Function { parameters, body } => {
                let mut out = String::from_str("fn (");
                let params = join_comma(parameters);
                out.append(params.as_str());
                out.append(") { ");
                let body_rendered = body.to_string();
                out.append(body_rendered.as_str());
                out.append(" }");
                out
            },
            Expression::Call { function, arguments } => {
                let mut out = (&**function).to_string();
                out.append("(");
                let rendered = expressions_to_strings(arguments);
                let args = join_comma(&rendered);
                out.append(args.as_str());
                out.append(")");
                out
            },
        }
    }
}

/// Renders each expression of a list.
fn expressions_to_strings(exprs: &Vec<Expression>) -> (r: Vec<String>)
    ensures
        r.deep_view() == rendered_exprs(view_of_exprs(exprs@)),
    decreases *exprs,
{
    let mut rendered: Vec<String> = Vec::new();
    let mut i: usize = 0;
    while i < exprs.len()
        invariant
            i <= exprs@.len(),
            rendered@.len() == i,
            forall|j: int| 0 <= j < i ==> rendered@[j]@ == render_expr(view_of_expr(exprs@[j])),
        decreases exprs@.len() - i,
    {
        rendered.push((&exprs[i]).to_string());
        i += 1;
    }
    proof {
        lemma_rendered_exprs_index(view_of_exprs(exprs@));
        lemma_view_of_exprs_index(exprs@);
        assert(rendered.deep_view() =~= rendered_exprs(view_of_exprs(exprs@)));
    }
    rendered
}

impl Statement {
    /// Canonical stringification of one statement.
    pub fn to_string(&self) -> (r: String)
        ensures
            r@ == render_stmt(self.deep_view()),
        decreases self,
    {
        match self {
            Statement::Let { ident, value } => {
                let mut out = String::from_str("let ");
                let ident_rendered = ident.to_string();
                out.append(ident_rendered.as_str());
                out.append(" = ");
                let value_rendered = value.to_string();
                out.append(value_rendered.as_str());
                out.append(";");
                out
            },
            Statement::Return(expr) => {
                let mut out = String::from_str("return ");
                let rendered = expr.to_string();
                out.append(rendered.as_str());
                out.append(";");
                out
            },
            Statement::Expression(expr) => expr.to_string(),
        }
    }
}

impl BlockStatement {
    /// Canonical stringification: the statements, concatenated.
    pub fn to_string(&self) -> (r: String)
        ensures
            r@ == render_stmts(self.deep_view()),
        decreases self,
    {
        let ghost all = view_of_stmts(self.statements@);
        let mut out = String::new();
        let mut i: usize = 0;
        proof {
            lemma_view_of_stmts_index(self.statements@);
            assert(all.take(0) =~= Seq::<StmtV>::empty());
        }
        while i < self.statements.len()
            invariant
                i <= self.statements@.len(),
                all == view_of_stmts(self.statements@),
                all.len() == self.statements@.len(),
                out@ == render_stmts(all.take(i as int)),
            decreases self.statements@.len() - i,
        {
            let rendered = (&self.statements[i]).to_string();
            out.append(rendered.as_str());
            proof {
                lemma_view_of_stmts_index(self.statements@);
                assert(all.take(i as int + 1).drop_last() =~= all.take(i as int));
                assert(all.take(i as int + 1).last() == view_of_stmt(self.statements@[i as int]));
            }
            i += 1;
        }
        proof {
            lemma_view_of_stmts_index(self.statements@);
            assert(all.take(self.statements@.len() as int) =~= all);
        }
        out
    }
}

impl Program {
    /// Canonical stringification: one line per statement.
    pub fn to_string(&self) -> String {
        let mut out = String::new();
        let mut i: usize = 0;
        while i < self.statements.len()
            invariant
                i <= self.statements@.len(),
            decreases self.statements@.len() - i,
        {
            let rendered = (&self.statements[i]).to_string();
            out.append(rendered.as_str());
            out.append("\n");
            i += 1;
        }
        out
    }
}

/// The element-by-element mirrors agree with pointwise mirroring.
pub proof fn lemma_view_of_stmts_index(s: Seq<Statement>)
    ensures
        view_of_stmts(s).len() == s.len(),
        forall|i: int| 0 <= i < s.len() ==> view_of_stmts(s)[i] == view_of_stmt(s[i]),
    decreases s,
{
    if s.len() > 0 {
        lemma_view_of_stmts_index(s.drop_last());
    }
}

/// The element-by-element mirrors agree with pointwise mirroring.
pub proof fn lemma_view_of_exprs_index(s: Seq<Expression>)
    ensures
        view_of_exprs(s).len() == s.len(),
        forall|i: int| 0 <= i < s.len() ==> view_of_exprs(s)[i] == view_of_expr(s[i]),
    decreases s,
{
    if s.len() > 0 {
        lemma_view_of_exprs_index(s.drop_last());
    }
}

} // verus!
