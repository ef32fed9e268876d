//! The tree-walking evaluator. The language's semantics is stated once, as
//! specification-level functions over the mirrors of the AST, values and
//! environments; the executable evaluator is proved equal to them.
//!
//! Evaluation runs on an explicit depth budget (`MAX_EVAL_DEPTH`): each
//! nested evaluation step consumes one unit, and exhausting the budget yields
//! a runtime error value. This models, as a defined error, the call-stack
//! exhaustion that unbounded recursion in the evaluated program would
//! otherwise cause. Integer overflow and division by zero, which the
//! language's own error model leaves implementation-defined, likewise become
//! runtime error values rather than faults.
//!
//! The `Return` control-flow wrapper is internal: it propagates outward
//! through every composition point exactly like an error value and is
//! stripped at the program and call boundaries, so no caller, environment or
//! error message ever sees it.

use vstd::prelude::*;

verus! {

use vstd::string::StringExecFns;
use crate::ast::{
    BlockStatement, ExprV, Expression, Program, Statement, StmtV, lemma_view_of_exprs_index,
    lemma_view_of_stmts_index, view_of_expr, view_of_exprs, view_of_stmt, view_of_stmts,
};
use crate::environment::{EnvV, Environment, env_lookup};
use crate::object::{ObjV, Object, type_label, view_of_obj};
use crate::text::str_eq;

/// The evaluator's recursion budget: the depth of nested evaluation steps
/// allowed before evaluation yields a "recursion limit reached" error value.
pub const MAX_EVAL_DEPTH: u64 = 2048;

/// What one evaluation step produces: a value, and the environment as the
/// step left it.
pub struct EvalOut {
    pub value: ObjV,
    pub env: EnvV,
}

/// What evaluating an argument list produces: the values in order, or the
/// first error or `Return` unwinding out; and the environment as evaluation
/// left it.
pub struct ArgsOut {
    pub args: Result<Seq<ObjV>, ObjV>,
    pub env: EnvV,
}

/// The error value produced when the depth budget runs out.
pub open spec fn depth_error() -> ObjV {
    ObjV::Error("recursion limit reached"@)
}

/// Whether a value stops the surrounding evaluation: a runtime error, or an
/// in-flight `Return` unwinding outward. Both propagate unchanged through
/// every composition point, so a `Return` wrapper can never be bound, used
/// as an operand, or otherwise observed as a value.
pub open spec fn unwinds(o: ObjV) -> bool {
    o is Error || o is Return
}

/// Strips `Return` wrappers down to the carried value.
pub open spec fn unwrap_return(o: ObjV) -> ObjV
    decreases o,
{
    match o {
        ObjV::Return(inner) => unwrap_return(*inner),
        _ => o,
    }
}

/// Stripping `Return` wrappers never leaves a wrapper.
pub proof fn lemma_unwrap_return_not_return(o: ObjV)
    ensures
        !(unwrap_return(o) is Return),
    decreases o,
{
    match o {
        ObjV::Return(inner) => lemma_unwrap_return_not_return(*inner),
        _ => {},
    }
}

/// Truthiness: `false` and `Null` are falsy, every other value is truthy.
pub open spec fn truthy(o: ObjV) -> bool {
    match o {
        ObjV::Null => false,
        ObjV::Boolean(value) => value,
        _ => true,
    }
}

/// `!` with coercion: `true`/`false` negate, `Null` is `true`, all else `false`.
pub open spec fn eval_bang(right: ObjV) -> ObjV {
    match right {
        ObjV::Boolean(value) => ObjV::Boolean(!value),
        ObjV::Null => ObjV::Boolean(true),
        _ => ObjV::Boolean(false),
    }
}

/// Arithmetic negation: valid only on integers; negating `i64::MIN` is the
/// one overflow case.
pub open spec fn eval_minus(right: ObjV) -> ObjV {
    match right {
        ObjV::Int(value) => if value == i64::MIN {
            ObjV::Error("integer overflow"@)
        } else {
            ObjV::Int((-value) as i64)
        },
        _ => ObjV::Error("unknown operator: -"@ + type_label(right)),
    }
}

/// A prefix operator applied to an evaluated operand.
pub open spec fn eval_prefix(op: Seq<char>, right: ObjV) -> ObjV {
    if op == "!"@ {
        eval_bang(right)
    } else if op == "-"@ {
        eval_minus(right)
    } else {
        ObjV::Error("unknown operator: "@ + op + type_label(right))
    }
}

/// An infix operator applied to two integers. `+ - * /` produce integers,
/// comparisons produce booleans; overflow and division by zero are runtime
/// error values.
pub open spec fn eval_int_infix(op: Seq<char>, left: i64, right: i64) -> ObjV {
    if op == "+"@ {
        match left.checked_add(right) {
            Some(value) => ObjV::Int(value),
            None => ObjV::Error("integer overflow"@),
        }
    } else if op == "-"@ {
        match left.checked_sub(right) {
            Some(value) => ObjV::Int(value),
            None => ObjV::Error("integer overflow"@),
        }
    } else if op == "*"@ {
        match left.checked_mul(right) {
            Some(value) => ObjV::Int(value),
            None => ObjV::Error("integer overflow"@),
        }
    } else if op == "/"@ {
        if right == 0 {
            ObjV::Error("division by zero"@)
        } else {
            match left.checked_div(right) {
                Some(value) => ObjV::Int(value),
                None => ObjV::Error("integer overflow"@),
            }
        }
    } else if op == "<"@ {
        ObjV::Boolean(left < right)
    } else if op == ">"@ {
        ObjV::Boolean(left > right)
    } else if op == "=="@ {
        ObjV::Boolean(left == right)
    } else if op == "!="@ {
        ObjV::Boolean(left != right)
    } else {
        ObjV::Error("unknown operator: INTEGER "@ + op + " INTEGER"@)
    }
}

/// An infix operator applied to two evaluated operands: integer arithmetic,
/// boolean (in)equality, and otherwise a type-mismatch or unknown-operator
/// error.
pub open spec fn eval_infix(op: Seq<char>, left: ObjV, right: ObjV) -> ObjV {
    match (left, right) {
        (ObjV::Int(l), ObjV::Int(r)) => eval_int_infix(op, l, r),
        (ObjV::Boolean(l), ObjV::Boolean(r)) => {
            if op == "=="@ {
                ObjV::Boolean(l == r)
            } else if op == "!="@ {
                ObjV::Boolean(l != r)
            } else {
                ObjV::Error(
                    "unknown operator: "@ + type_label(left) + " "@ + op + " "@ + type_label(
                        right,
                    ),
                )
            }
        },
        _ => {
            if type_label(left) != type_label(right) {
                ObjV::Error(
                    "type mismatch: "@ + type_label(left) + " "@ + op + " "@ + type_label(right),
                )
            } else {
                ObjV::Error(
                    "unknown operator: "@ + type_label(left) + " "@ + op + " "@ + type_label(
                        right,
                    ),
                )
            }
        },
    }
}

/// Name resolution as a value: the bound value, or an error for an
/// unresolved name.
pub open spec fn eval_ident(env: EnvV, name: Seq<char>) -> ObjV {
    match env_lookup(env, name) {
        Some(value) => value,
        None => ObjV::Error("identifier not found: "@ + name),
    }
}

/// The bindings a call frame starts with: each parameter bound to its
/// positional argument, later duplicates shadowing earlier ones.
pub open spec fn bind_args(params: Seq<Seq<char>>, args: Seq<ObjV>) -> Map<Seq<char>, ObjV>
    decreases params.len(),
{
    if params.len() == 0 {
        Map::empty()
    } else {
        bind_args(params.drop_last(), args).insert(
            params.last(),
            args[params.len() - 1],
        )
    }
}

/// A statement sequence, statement by statement: `Return` and error values
/// stop the walk; otherwise the last value stands.
#[verifier::opaque]
pub open spec fn eval_stmts(stmts: Seq<StmtV>, env: EnvV, last: ObjV, depth: u64) -> EvalOut
    decreases depth, stmts.len(),
{
    if depth == 0 {
        EvalOut { value: depth_error(), env }
    } else if stmts.len() == 0 {
        EvalOut { value: last, env }
    } else {
        let step = eval_stmt(stmts[0], env, (depth - 1) as u64);
        if step.value is Return || step.value is Error {
            step
        } else {
            eval_stmts(stmts.drop_first(), step.env, step.value, depth)
        }
    }
}

/// A block: its statements evaluated in the current environment, starting
/// from `Null`.
#[verifier::opaque]
pub open spec fn eval_block(stmts: Seq<StmtV>, env: EnvV, depth: u64) -> EvalOut
    decreases depth, stmts.len() + 1,
{
    eval_stmts(stmts, env, ObjV::Null, depth)
}

/// One statement.
#[verifier::opaque]
pub open spec fn eval_stmt(stmt: StmtV, env: EnvV, depth: u64) -> EvalOut
    decreases depth, 0nat,
{
    if depth == 0 {
        EvalOut { value: depth_error(), env }
    } else {
        match stmt {
            StmtV::Let { ident, value } => eval_let(ident, value, env, (depth - 1) as u64),
            StmtV::Return(expr) => eval_return(expr, env, (depth - 1) as u64),
            StmtV::Expression(expr) => eval_expr(expr, env, (depth - 1) as u64),
        }
    }
}

/// A `let`: evaluate the right-hand side (errors short-circuit) and bind the
/// name in the current scope; the bound value is the statement's value.
#[verifier::opaque]
pub open spec fn eval_let(ident: ExprV, value: ExprV, env: EnvV, depth: u64) -> EvalOut
    decreases depth, 0nat,
{
    if depth == 0 {
        EvalOut { value: depth_error(), env }
    } else {
        match ident {
            ExprV::Ident(name) => {
                let step = eval_expr(value, env, (depth - 1) as u64);
                if unwinds(step.value) {
                    step
                } else {
                    EvalOut {
                        value: step.value,
                        env: EnvV {
                            bindings: step.env.bindings.insert(name, step.value),
                            outer: step.env.outer,
                        },
                    }
                }
            },
            _ => EvalOut { value: ObjV::Error("let binding requires an identifier"@), env },
        }
    }
}

/// A `return`: evaluate the expression (errors short-circuit) and wrap it as
/// an in-flight `Return` value.
#[verifier::opaque]
pub open spec fn eval_return(expr: ExprV, env: EnvV, depth: u64) -> EvalOut
    decreases depth, 0nat,
{
    if depth == 0 {
        EvalOut { value: depth_error(), env }
    } else {
        let step = eval_expr(expr, env, (depth - 1) as u64);
        if unwinds(step.value) {
            step
        } else {
            EvalOut { value: ObjV::Return(Box::new(step.value)), env: step.env }
        }
    }
}

/// One expression.
#[verifier::opaque]
pub open spec fn eval_expr(expr: ExprV, env: EnvV, depth: u64) -> EvalOut
    decreases depth, 0nat,
{
    if depth == 0 {
        EvalOut { value: depth_error(), env }
    } else {
        let next = (depth - 1) as u64;
        match expr {
            ExprV::Int(value) => EvalOut { value: ObjV::Int(value), env },
            ExprV::Boolean(value) => EvalOut { value: ObjV::Boolean(value), env },
            ExprV::Ident(name) => EvalOut { value: eval_ident(env, name), env },
            ExprV::Prefix { op, right } => {
                let step = eval_expr(*right, env, next);
                if unwinds(step.value) {
                    step
                } else {
                    EvalOut { value: eval_prefix(op, step.value), env: step.env }
                }
            },
            ExprV::Infix { left, op, right } => {
                let lstep = eval_expr(*left, env, next);
                if unwinds(lstep.value) {
                    lstep
                } else {
                    let rstep = eval_expr(*right, lstep.env, next);
                    if unwinds(rstep.value) {
                        rstep
                    } else {
                        EvalOut { value: eval_infix(op, lstep.value, rstep.value), env: rstep.env }
                    }
                }
            },
            ExprV::If { condition, consequence, alternative } => eval_if(
                *condition,
                consequence,
                alternative,
                env,
                next,
            ),
            ExprV::Function { parameters, body } => EvalOut {
                value: ObjV::Function { parameters, body, environment: env },
                env,
            },
            ExprV::Call { function, arguments } => {
                let fstep = eval_expr(*function, env, next);
                if unwinds(fstep.value) {
                    fstep
                } else {
                    let astep = eval_args(arguments, Seq::empty(), fstep.env, next);
                    match astep.args {
                        Err(err) => EvalOut { value: err, env: astep.env },
                        Ok(values) => EvalOut {
                            value: eval_apply(fstep.value, values, next),
                            env: astep.env,
                        },
                    }
                }
            },
        }
    }
}

/// An `if`: the branch chosen by the condition's truthiness, evaluated in
/// the same environment; a missing alternative yields `Null`.
#[verifier::opaque]
pub open spec fn eval_if(
    condition: ExprV,
    consequence: Seq<StmtV>,
    alternative: Option<Seq<StmtV>>,
    env: EnvV,
    depth: u64,
) -> EvalOut
    decreases depth, 0nat,
{
    if depth == 0 {
        EvalOut { value: depth_error(), env }
    } else {
        let step = eval_expr(condition, env, (depth - 1) as u64);
        if unwinds(step.value) {
            step
        } else if truthy(step.value) {
            eval_block(consequence, step.env, (depth - 1) as u64)
        } else {
            match alternative {
                Some(block) => eval_block(block, step.env, (depth - 1) as u64),
                None => EvalOut { value: ObjV::Null, env: step.env },
            }
        }
    }
}

/// Call arguments, left to right, short-circuiting on the first error;
/// `done` holds the values already evaluated.
#[verifier::opaque]
pub open spec fn eval_args(
    args: Seq<ExprV>,
    done: Seq<ObjV>,
    env: EnvV,
    depth: u64,
) -> ArgsOut
    decreases depth, args.len(),
{
    if depth == 0 {
        ArgsOut { args: Err(depth_error()), env }
    } else if args.len() == 0 {
        ArgsOut { args: Ok(done), env }
    } else {
        let step = eval_expr(args[0], env, (depth - 1) as u64);
        if unwinds(step.value) {
            ArgsOut { args: Err(step.value), env: step.env }
        } else {
            eval_args(args.drop_first(), done.push(step.value), step.env, depth)
        }
    }
}

/// Application: a new scope over the function's captured environment binds
/// the parameters, the body runs there, and a `Return` result is unwrapped.
#[verifier::opaque]
pub open spec fn eval_apply(callee: ObjV, args: Seq<ObjV>, depth: u64) -> ObjV
    decreases depth, 0nat,
{
    if depth == 0 {
        depth_error()
    } else {
        match callee {
            ObjV::Function { parameters, body, environment } => {
                if args.len() != parameters.len() {
                    ObjV::Error("wrong number of arguments"@)
                } else {
                    let frame = EnvV {
                        bindings: bind_args(parameters, args),
                        outer: Some(Box::new(environment)),
                    };
                    let step = eval_block(body, frame, (depth - 1) as u64);
                    unwrap_return(step.value)
                }
            },
            _ => ObjV::Error("not a function: "@ + type_label(callee)),
        }
    }
}

/// A whole program: statements in order; a `Return` unwinds with its inner
/// value, an error stops evaluation; the last value stands. Each statement
/// gets a fresh depth budget.
#[verifier::opaque]
pub open spec fn eval_program(stmts: Seq<StmtV>, env: EnvV, last: ObjV, depth: u64) -> EvalOut
    decreases stmts.len(),
{
    if stmts.len() == 0 {
        EvalOut { value: last, env }
    } else {
        let step = eval_stmt(stmts[0], env, depth);
        match step.value {
            ObjV::Return(_) => EvalOut { value: unwrap_return(step.value), env: step.env },
            ObjV::Error(_) => step,
            _ => eval_program(stmts.drop_first(), step.env, step.value, depth),
        }
    }
}

/// Return short-circuit: once a statement sequence unwinds with a `Return`
/// (or stops on an error value), statements appended after it cannot affect
/// the outcome.
#[verifier::spinoff_prover]
pub proof fn lemma_return_short_circuit(
    stmts: Seq<StmtV>,
    rest: Seq<StmtV>,
    env: EnvV,
    last: ObjV,
    depth: u64,
)
    requires
        !(last is Return),
        !(last is Error),
        eval_stmts(stmts, env, last, depth).value is Return || eval_stmts(
            stmts,
            env,
            last,
            depth,
        ).value is Error,
    ensures
        eval_stmts(stmts + rest, env, last, depth) == eval_stmts(stmts, env, last, depth),
    decreases stmts.len(),
{
    reveal_with_fuel(eval_stmts, 2);
    if depth == 0 {
        assert((stmts + rest).len() >= 0);
    } else if stmts.len() == 0 {
        assert(eval_stmts(stmts, env, last, depth).value == last);
        assert(false);
    } else {
        assert((stmts + rest)[0] == stmts[0]);
        let step = eval_stmt(stmts[0], env, (depth - 1) as u64);
        if step.value is Return || step.value is Error {
            assert(eval_stmts(stmts, env, last, depth) == step);
            assert(eval_stmts(stmts + rest, env, last, depth) == step);
        } else {
            assert(eval_stmts(stmts, env, last, depth) == eval_stmts(
                stmts.drop_first(),
                step.env,
                step.value,
                depth,
            ));
            assert((stmts + rest).drop_first() =~= stmts.drop_first() + rest);
            assert(eval_stmts(stmts + rest, env, last, depth) == eval_stmts(
                stmts.drop_first() + rest,
                step.env,
                step.value,
                depth,
            ));
            lemma_return_short_circuit(stmts.drop_first(), rest, step.env, step.value, depth);
        }
    }
}

/// The tree-walking evaluator: owns the environment it evaluates against.
pub struct Evaluator {
    pub env: Environment,
}

impl Evaluator {
    /// An evaluator over the given environment.
    pub fn new(env: Environment) -> (r: Evaluator)
        ensures
            r.env == env,
    {
        Evaluator { env }
    }

    /// Truthiness of an evaluated value.
    pub fn is_truthy(obj: Object) -> (r: bool)
        ensures
            r == truthy(obj.deep_view()),
    {
        match obj {
            Object::Null => false,
            Object::Boolean(value) => value,
            _ => true,
        }
    }

    /// Whether a value stops the surrounding evaluation: an error, or an
    /// in-flight `Return` unwinding outward.
    fn is_unwind(obj: &Object) -> (r: bool)
        ensures
            r == unwinds(obj.deep_view()),
    {
        match obj {
            Object::Error(_) => true,
            Object::Return(_) => true,
            _ => false,
        }
    }

    /// Strips `Return` wrappers down to the carried value.
    fn unwrap_return_value(obj: Object) -> (r: Object)
        ensures
            r.deep_view() == unwrap_return(obj.deep_view()),
        decreases obj,
    {
        match obj {
            Object::Return(inner) => Self::unwrap_return_value(*inner),
            _ => obj,
        }
    }

    /// Resolves an identifier in the current environment, or produces the
    /// "identifier not found" error value.
    fn evaluate_identifier(&self, name: String) -> (r: Object)
        ensures
            r.deep_view() == eval_ident(self.env@, name@),
    {
        match self.env.get(name.as_str()) {
            Some(obj) => obj,
            None => {
                let mut message = String::from_str("identifier not found: ");
                message.append(name.as_str());
                Object::Error(message)
            },
        }
    }

    /// `!` applied to an evaluated operand.
    fn evaluate_bang_operator_expression(&self, right: Object) -> (r: Object)
        ensures
            r.deep_view() == eval_bang(right.deep_view()),
    {
        match right {
            Object::Boolean(true) => Object::Boolean(false),
            Object::Boolean(false) => Object::Boolean(true),
            Object::Null => Object::Boolean(true),
            _ => Object::Boolean(false),
        }
    }

    /// `-` applied to an evaluated operand.
    fn evaluate_minus_prefix_operator_expression(&self, right: Object) -> (r: Object)
        ensures
            r.deep_view() == eval_minus(right.deep_view()),
    {
        match right {
            Object::Int(value) => {
                if value == i64::MIN {
                    Object::Error(String::from_str("integer overflow"))
                } else {
                    Object::Int(-value)
                }
            },
            _ => {
                let mut message = String::from_str("unknown operator: -");
                let label = right.type_info();
                message.append(label.as_str());
                Object::Error(message)
            },
        }
    }

    /// A prefix operator applied to an evaluated operand.
    fn evaluate_prefix_expression(&self, op: String, right: Object) -> (r: Object)
        ensures
            r.deep_view() == eval_prefix(op@, right.deep_view()),
    {
        if str_eq(op.as_str(), "!") {
            self.evaluate_bang_operator_expression(right)
        } else if str_eq(op.as_str(), "-") {
            self.evaluate_minus_prefix_operator_expression(right)
        } else {
            let mut message = String::from_str("unknown operator: ");
            message.append(op.as_str());
            let label = right.type_info();
            message.append(label.as_str());
            Object::Error(message)
        }
    }

    /// An infix operator applied to two evaluated integers.
    fn evaluate_int_infix_expression(&self, op: String, left: i64, right: i64) -> (r: Object)
        ensures
            r.deep_view() == eval_int_infix(op@, left, right),
    {
        if str_eq(op.as_str(), "+") {
            match left.checked_add(right) {
                Some(value) => Object::Int(value),
                None => Object::Error(String::from_str("integer overflow")),
            }
        } else if str_eq(op.as_str(), "-") {
            match left.checked_sub(right) {
                Some(value) => Object::Int(value),
                None => Object::Error(String::from_str("integer overflow")),
            }
        } else if str_eq(op.as_str(), "*") {
            match left.checked_mul(right) {
                Some(value) => Object::Int(value),
                None => Object::Error(String::from_str("integer overflow")),
            }
        } else if str_eq(op.as_str(), "/") {
            if right == 0 {
                Object::Error(String::from_str("division by zero"))
            } else {
                match left.checked_div(right) {
                    Some(value) => Object::Int(value),
                    None => Object::Error(String::from_str("integer overflow")),
                }
            }
        } else if str_eq(op.as_str(), "<") {
            Object::Boolean(left < right)
        } else if str_eq(op.as_str(), ">") {
            Object::Boolean(left > right)
        } else if str_eq(op.as_str(), "==") {
            Object::Boolean(left == right)
        } else if str_eq(op.as_str(), "!=") {
            Object::Boolean(left != right)
        } else {
            let mut message = String::from_str("unknown operator: INTEGER ");
            message.append(op.as_str());
            message.append(" INTEGER");
            Object::Error(message)
        }
    }

    /// An infix operator applied to two evaluated operands.
    fn evaluate_infix_expression(&self, op: String, left: Object, right: Object) -> (r: Object)
        ensures
            r.deep_view() == eval_infix(op@, left.deep_view(), right.deep_view()),
    {
        if let (Object::Int(l), Object::Int(r)) = (&left, &right) {
            return self.evaluate_int_infix_expression(op, *l, *r);
        }
        if let (Object::Boolean(l), Object::Boolean(r)) = (&left, &right) {
            if str_eq(op.as_str(), "==") {
                return Object::Boolean(*l == *r);
            }
            if str_eq(op.as_str(), "!=") {
                return Object::Boolean(*l != *r);
            }
        }
        let left_label = left.type_info();
        let right_label = right.type_info();
        let mut message = if !str_eq(left_label.as_str(), right_label.as_str()) {
            String::from_str("type mismatch: ")
        } else {
            String::from_str("unknown operator: ")
        };
        message.append(left_label.as_str());
        message.append(" ");
        message.append(op.as_str());
        message.append(" ");
        message.append(right_label.as_str());
        Object::Error(message)
    }

    /// Evaluates a whole program against the owned environment: statements in
    /// order, a `Return` unwinding with its inner value, an error stopping
    /// evaluation. Each statement gets a fresh depth budget.
    #[verifier::spinoff_prover]
    pub fn evaluate(&mut self, program: Program) -> (r: Object)
        ensures
            ({
                let out = eval_program(
                    program.deep_view(),
                    old(self).env@,
                    ObjV::Null,
                    MAX_EVAL_DEPTH,
                );
                r.deep_view() == out.value && final(self).env@ == out.env && !(r.deep_view()
                    is Return)
            }),
    {
        let ghost all = program.deep_view();
        let ghost env0 = self.env@;
        proof {
            assert(all.skip(0) =~= all);
        }
        let mut obj = Object::Null;
        let mut i: usize = 0;
        while i < program.statements.len()
            invariant
                i <= program.statements@.len(),
                all == view_of_stmts(program.statements@),
                env0 == old(self).env@,
                !(obj.deep_view() is Return),
                !(obj.deep_view() is Error),
                eval_program(all, env0, ObjV::Null, MAX_EVAL_DEPTH) == eval_program(
                    all.skip(i as int),
                    self.env@,
                    obj.deep_view(),
                    MAX_EVAL_DEPTH,
                ),
            decreases program.statements@.len() - i,
        {
            let ghost env_pre = self.env@;
            let ghost obj_pre = obj.deep_view();
            proof {
                lemma_view_of_stmts_index(program.statements@);
            }
            let stmt = (&program.statements[i]).clone();
            obj = self.evaluate_statement(stmt, MAX_EVAL_DEPTH);
            proof {
                reveal_with_fuel(eval_program, 1);
                assert(all.skip(i as int)[0] == view_of_stmt(program.statements@[i as int]));
                assert(all.skip(i as int).drop_first() =~= all.skip(i as int + 1));
                assert(eval_program(all.skip(i as int), env_pre, obj_pre, MAX_EVAL_DEPTH)
                    == (match obj.deep_view() {
                        ObjV::Return(_) => EvalOut {
                            value: unwrap_return(obj.deep_view()),
                            env: self.env@,
                        },
                        ObjV::Error(_) => EvalOut { value: obj.deep_view(), env: self.env@ },
                        _ => eval_program(
                            all.skip(i as int + 1),
                            self.env@,
                            obj.deep_view(),
                            MAX_EVAL_DEPTH,
                        ),
                    }));
            }
            match &obj {
                Object::Return(_) => {
                    proof {
                        lemma_unwrap_return_not_return(obj.deep_view());
                        assert(eval_program(all, env0, ObjV::Null, MAX_EVAL_DEPTH)
                            == (EvalOut {
                                value: unwrap_return(obj.deep_view()),
                                env: self.env@,
                            }));
                    }
                    return Self::unwrap_return_value(obj);
                },
                Object::Error(_) => {
                    proof {
                        assert(eval_program(all, env0, ObjV::Null, MAX_EVAL_DEPTH)
                            == (EvalOut { value: obj.deep_view(), env: self.env@ }));
                    }
                    return obj;
                },
                _ => {},
            }
            i += 1;
        }
        proof {
            reveal_with_fuel(eval_program, 1);
            lemma_view_of_stmts_index(program.statements@);
            assert(all.skip(all.len() as int) =~= Seq::<StmtV>::empty());
            assert(eval_program(all, env0, ObjV::Null, MAX_EVAL_DEPTH)
                == (EvalOut { value: obj.deep_view(), env: self.env@ }));
        }
        obj
    }

    /// Evaluates the statements of a block in the current environment; a
    /// `Return` or error value stops the walk and is handed back unchanged.
    #[verifier::spinoff_prover]
    fn evaluate_block_statement(&mut self, block: BlockStatement, depth: u64) -> (r: Object)
        ensures
            ({
                let out = eval_block(block.deep_view(), old(self).env@, depth);
                r.deep_view() == out.value && final(self).env@ == out.env
            }),
        decreases depth,
    {
        let ghost all = block.deep_view();
        let ghost env0 = self.env@;
        if depth == 0 {
            proof {
                reveal_with_fuel(eval_block, 1);
                reveal_with_fuel(eval_stmts, 1);
                assert(eval_block(all, env0, depth)
                    == (EvalOut { value: depth_error(), env: env0 }));
            }
            return Object::Error(String::from_str("recursion limit reached"));
        }
        proof {
            assert(all.skip(0) =~= all);
        }
        let mut obj = Object::Null;
        let mut i: usize = 0;
        while i < block.statements.len()
            invariant
                depth > 0,
                i <= block.statements@.len(),
                all == view_of_stmts(block.statements@),
                env0 == old(self).env@,
                !(obj.deep_view() is Return),
                !(obj.deep_view() is Error),
                eval_stmts(all, env0, ObjV::Null, depth) == eval_stmts(
                    all.skip(i as int),
                    self.env@,
                    obj.deep_view(),
                    depth,
                ),
            decreases block.statements@.len() - i,
        {
            let ghost env_pre = self.env@;
            let ghost obj_pre = obj.deep_view();
            proof {
                lemma_view_of_stmts_index(block.statements@);
            }
            let stmt = (&block.statements[i]).clone();
            obj = self.evaluate_statement(stmt, depth - 1);
            proof {
                reveal_with_fuel(eval_stmts, 1);
                assert(all.skip(i as int)[0] == view_of_stmt(block.statements@[i as int]));
                assert(all.skip(i as int).drop_first() =~= all.skip(i as int + 1));
                assert(eval_stmts(all.skip(i as int), env_pre, obj_pre, depth)
                    == (if obj.deep_view() is Return || obj.deep_view() is Error {
                        EvalOut { value: obj.deep_view(), env: self.env@ }
                    } else {
                        eval_stmts(all.skip(i as int + 1), self.env@, obj.deep_view(), depth)
                    }));
            }
            match &obj {
                Object::Return(_) => {
                    proof {
                        reveal_with_fuel(eval_block, 1);
                        assert(eval_stmts(all, env0, ObjV::Null, depth)
                            == (EvalOut { value: obj.deep_view(), env: self.env@ }));
                    }
                    return obj;
                },
                Object::Error(_) => {
                    proof {
                        reveal_with_fuel(eval_block, 1);
                        assert(eval_stmts(all, env0, ObjV::Null, depth)
                            == (EvalOut { value: obj.deep_view(), env: self.env@ }));
                    }
                    return obj;
                },
                _ => {},
            }
            i += 1;
        }
        proof {
            reveal_with_fuel(eval_block, 1);
            reveal_with_fuel(eval_stmts, 1);
            lemma_view_of_stmts_index(block.statements@);
            assert(all.skip(all.len() as int) =~= Seq::<StmtV>::empty());
            assert(eval_stmts(all, env0, ObjV::Null, depth)
                == (EvalOut { value: obj.deep_view(), env: self.env@ }));
        }
        obj
    }

    /// Evaluates one statement.
    #[verifier::spinoff_prover]
    pub fn evaluate_statement(&mut self, stmt: Statement, depth: u64) -> (r: Object)
        ensures
            ({
                let out = eval_stmt(stmt.deep_view(), old(self).env@, depth);
                r.deep_view() == out.value && final(self).env@ == out.env
            }),
        decreases depth,
    {
        let ghost sv = stmt.deep_view();
        let ghost env0 = self.env@;
        if depth == 0 {
            proof {
                reveal_with_fuel(eval_stmt, 1);
                assert(eval_stmt(sv, env0, depth) == (EvalOut { value: depth_error(), env: env0 }));
            }
            return Object::Error(String::from_str("recursion limit reached"));
        }
        match stmt {
            Statement::Expression(expr) => {
                let ghost e_v = expr.deep_view();
                let r = self.evaluate_expression(expr, depth - 1);
                proof {
                    reveal_with_fuel(eval_stmt, 1);
                    assert(eval_stmt(sv, env0, depth) == eval_expr(e_v, env0, (depth - 1) as u64));
                }
                r
            },
            Statement::Let { ident, value } => {
                let ghost i_v = ident.deep_view();
                let ghost v_v = value.deep_view();
                let r = self.evaluate_let_statement(ident, value, depth - 1);
                proof {
                    reveal_with_fuel(eval_stmt, 1);
                    assert(eval_stmt(sv, env0, depth) == eval_let(i_v, v_v, env0, (depth
                        - 1) as u64));
                }
                r
            },
            Statement::Return(expr) => {
                let ghost e_v = expr.deep_view();
                let r = self.evaluate_return_statement(expr, depth - 1);
                proof {
                    reveal_with_fuel(eval_stmt, 1);
                    assert(eval_stmt(sv, env0, depth) == eval_return(e_v, env0, (depth
                        - 1) as u64));
                }
                r
            },
        }
    }

    /// A `let`: evaluate the right-hand side (errors short-circuit) and bind
    /// the name in the current scope.
    #[verifier::spinoff_prover]
    fn evaluate_let_statement(&mut self, ident: Expression, expr: Expression, depth: u64) -> (r:
        Object)
        ensures
            ({
                let out = eval_let(ident.deep_view(), expr.deep_view(), old(self).env@, depth);
                r.deep_view() == out.value && final(self).env@ == out.env
            }),
        decreases depth,
    {
        let ghost i_v = ident.deep_view();
        let ghost v_v = expr.deep_view();
        let ghost env0 = self.env@;
        if depth == 0 {
            proof {
                reveal_with_fuel(eval_let, 1);
                assert(eval_let(i_v, v_v, env0, depth)
                    == (EvalOut { value: depth_error(), env: env0 }));
            }
            return Object::Error(String::from_str("recursion limit reached"));
        }
        let name = match ident {
            Expression::Ident(name) => name,
            _ => {
                proof {
                    reveal_with_fuel(eval_let, 1);
                    assert(eval_let(i_v, v_v, env0, depth) == (EvalOut {
                        value: ObjV::Error("let binding requires an identifier"@),
                        env: env0,
                    }));
                }
                return Object::Error(String::from_str("let binding requires an identifier"));
            },
        };
        let ghost name_v = name@;
        let obj = self.evaluate_expression(expr, depth - 1);
        if Self::is_unwind(&obj) {
            proof {
                reveal_with_fuel(eval_let, 1);
                assert(eval_let(i_v, v_v, env0, depth)
                    == (EvalOut { value: obj.deep_view(), env: self.env@ }));
            }
            return obj;
        }
        let ghost obj_v = obj.deep_view();
        let r = self.env.set(name.as_str(), obj);
        proof {
            reveal_with_fuel(eval_let, 1);
            assert(eval_let(i_v, v_v, env0, depth)
                == (EvalOut { value: obj_v, env: self.env@ }));
        }
        r
    }

    /// A `return`: evaluate the expression (errors short-circuit) and wrap it
    /// as an in-flight `Return` value.
    #[verifier::spinoff_prover]
    fn evaluate_return_statement(&mut self, expr: Expression, depth: u64) -> (r: Object)
        ensures
            ({
                let out = eval_return(expr.deep_view(), old(self).env@, depth);
                r.deep_view() == out.value && final(self).env@ == out.env
            }),
        decreases depth,
    {
        let ghost e_v = expr.deep_view();
        let ghost env0 = self.env@;
        if depth == 0 {
            proof {
                reveal_with_fuel(eval_return, 1);
                assert(eval_return(e_v, env0, depth)
                    == (EvalOut { value: depth_error(), env: env0 }));
            }
            return Object::Error(String::from_str("recursion limit reached"));
        }
        let obj = self.evaluate_expression(expr, depth - 1);
        if Self::is_unwind(&obj) {
            proof {
                reveal_with_fuel(eval_return, 1);
                assert(eval_return(e_v, env0, depth)
                    == (EvalOut { value: obj.deep_view(), env: self.env@ }));
            }
            return obj;
        }
        let ghost obj_v = obj.deep_view();
        let r = Object::Return(Box::new(obj));
        proof {
            reveal_with_fuel(eval_return, 1);
            assert(eval_return(e_v, env0, depth)
                == (EvalOut { value: ObjV::Return(Box::new(obj_v)), env: self.env@ }));
        }
        r
    }

    /// Evaluates one expression.
    #[verifier::spinoff_prover]
    pub fn evaluate_expression(&mut self, expr: Expression, depth: u64) -> (r: Object)
        ensures
            ({
                let out = eval_expr(expr.deep_view(), old(self).env@, depth);
                r.deep_view() == out.value && final(self).env@ == out.env
            }),
        decreases depth,
    {
        let ghost ev = expr.deep_view();
        let ghost env0 = self.env@;
        if depth == 0 {
            proof {
                reveal_with_fuel(eval_expr, 1);
                assert(eval_expr(ev, env0, depth) == (EvalOut { value: depth_error(), env: env0 }));
            }
            return Object::Error(String::from_str("recursion limit reached"));
        }
        match expr {
            Expression::Int(value) => {
                proof {
                    reveal_with_fuel(eval_expr, 1);
                    assert(eval_expr(ev, env0, depth)
                        == (EvalOut { value: ObjV::Int(value), env: env0 }));
                }
                Object::Int(value)
            },
            Expression::Boolean(value) => {
                proof {
                    reveal_with_fuel(eval_expr, 1);
                    assert(eval_expr(ev, env0, depth)
                        == (EvalOut { value: ObjV::Boolean(value), env: env0 }));
                }
                Object::Boolean(value)
            },
            Expression::Ident(name) => {
                let ghost name_v = name@;
                let r = self.evaluate_identifier(name);
                proof {
                    reveal_with_fuel(eval_expr, 1);
                    assert(eval_expr(ev, env0, depth)
                        == (EvalOut { value: eval_ident(env0, name_v), env: env0 }));
                }
                r
            },
            Expression::Prefix { op, right } => {
                let ghost op_v = op@;
                let right_obj = self.evaluate_expression(*right, depth - 1);
                let ghost env1 = self.env@;
                let ghost right_v = right_obj.deep_view();
                if Self::is_unwind(&right_obj) {
                    proof {
                        reveal_with_fuel(eval_expr, 1);
                        assert(eval_expr(ev, env0, depth)
                            == (EvalOut { value: right_v, env: env1 }));
                    }
                    return right_obj;
                }
                let r = self.evaluate_prefix_expression(op, right_obj);
                proof {
                    reveal_with_fuel(eval_expr, 1);
                    assert(eval_expr(ev, env0, depth)
                        == (EvalOut { value: eval_prefix(op_v, right_v), env: env1 }));
                }
                r
            },
            Expression::Infix { left, op, right } => {
                let ghost op_v = op@;
                let left_obj = self.evaluate_expression(*left, depth - 1);
                let ghost env1 = self.env@;
                let ghost left_v = left_obj.deep_view();
                if Self::is_unwind(&left_obj) {
                    proof {
                        reveal_with_fuel(eval_expr, 1);
                        assert(eval_expr(ev, env0, depth)
                            == (EvalOut { value: left_v, env: env1 }));
                    }
                    return left_obj;
                }
                let right_obj = self.evaluate_expression(*right, depth - 1);
                let ghost env2 = self.env@;
                let ghost right_v = right_obj.deep_view();
                if Self::is_unwind(&right_obj) {
                    proof {
                        reveal_with_fuel(eval_expr, 1);
                        assert(eval_expr(ev, env0, depth)
                            == (EvalOut { value: right_v, env: env2 }));
                    }
                    return right_obj;
                }
                let r = self.evaluate_infix_expression(op, left_obj, right_obj);
                proof {
                    reveal_with_fuel(eval_expr, 1);
                    assert(eval_expr(ev, env0, depth)
                        == (EvalOut { value: eval_infix(op_v, left_v, right_v), env: env2 }));
                }
                r
            },
            Expression::If { condition, consequence, alternative } => {
                let ghost cond_v = (*condition).deep_view();
                let ghost cons_v = consequence.deep_view();
                let ghost alt_v = alternative.deep_view();
                let r = self.evaluate_if_expression(*condition, consequence, alternative, depth
                    - 1);
                proof {
                    reveal_with_fuel(eval_expr, 1);
                    assert(eval_expr(ev, env0, depth)
                        == eval_if(cond_v, cons_v, alt_v, env0, (depth - 1) as u64));
                }
                r
            },
            Expression::Function { parameters, body } => {
                let ghost params_v = parameters.deep_view();
                let ghost body_v = body.deep_view();
                let environment = self.env.clone();
                let r = Object::Function { parameters, body, environment };
                proof {
                    reveal_with_fuel(eval_expr, 1);
                    assert(eval_expr(ev, env0, depth) == (EvalOut {
                        value: ObjV::Function {
                            parameters: params_v,
                            body: body_v,
                            environment: env0,
                        },
                        env: env0,
                    }));
                }
                r
            },
            Expression::Call { function, arguments } => {
                let ghost args_v = view_of_exprs(arguments@);
                let func = self.evaluate_expression(*function, depth - 1);
                let ghost env1 = self.env@;
                let ghost func_v = func.deep_view();
                if Self::is_unwind(&func) {
                    proof {
                        reveal_with_fuel(eval_expr, 1);
                        assert(eval_expr(ev, env0, depth)
                            == (EvalOut { value: func_v, env: env1 }));
                    }
                    return func;
                }
                let args = match self.evaluate_expressions(arguments, depth - 1) {
                    Ok(args) => args,
                    Err(err) => {
                        proof {
                            reveal_with_fuel(eval_expr, 1);
                            assert(eval_expr(ev, env0, depth)
                                == (EvalOut { value: err.deep_view(), env: self.env@ }));
                        }
                        return err;
                    },
                };
                let ghost env2 = self.env@;
                let ghost args_vals = args.deep_view();
                let r = self.apply_function(func, args, depth - 1);
                proof {
                    reveal_with_fuel(eval_expr, 1);
                    assert(eval_expr(ev, env0, depth) == (EvalOut {
                        value: eval_apply(func_v, args_vals, (depth - 1) as u64),
                        env: env2,
                    }));
                }
                r
            },
        }
    }

    /// An `if`: the branch chosen by the condition's truthiness, evaluated in
    /// the same environment; a missing alternative yields `Null`.
    #[verifier::spinoff_prover]
    fn evaluate_if_expression(
        &mut self,
        condition: Expression,
        consequence: BlockStatement,
        alternative: Option<BlockStatement>,
        depth: u64,
    ) -> (r: Object)
        ensures
            ({
                let out = eval_if(
                    condition.deep_view(),
                    consequence.deep_view(),
                    alternative.deep_view(),
                    old(self).env@,
                    depth,
                );
                r.deep_view() == out.value && final(self).env@ == out.env
            }),
        decreases depth,
    {
        let ghost cond_v = condition.deep_view();
        let ghost cons_v = consequence.deep_view();
        let ghost alt_v = alternative.deep_view();
        let ghost env0 = self.env@;
        if depth == 0 {
            proof {
                reveal_with_fuel(eval_if, 1);
                assert(eval_if(cond_v, cons_v, alt_v, env0, depth)
                    == (EvalOut { value: depth_error(), env: env0 }));
            }
            return Object::Error(String::from_str("recursion limit reached"));
        }
        let condition_obj = self.evaluate_expression(condition, depth - 1);
        let ghost env1 = self.env@;
        let ghost cobj_v = condition_obj.deep_view();
        if Self::is_unwind(&condition_obj) {
            proof {
                reveal_with_fuel(eval_if, 1);
                assert(eval_if(cond_v, cons_v, alt_v, env0, depth)
                    == (EvalOut { value: cobj_v, env: env1 }));
            }
            return condition_obj;
        }
        if Self::is_truthy(condition_obj) {
            let r = self.evaluate_block_statement(consequence, depth - 1);
            proof {
                reveal_with_fuel(eval_if, 1);
                assert(eval_if(cond_v, cons_v, alt_v, env0, depth)
                    == eval_block(cons_v, env1, (depth - 1) as u64));
            }
            return r;
        }
        if let Some(alternative) = alternative {
            let r = self.evaluate_block_statement(alternative, depth - 1);
            proof {
                reveal_with_fuel(eval_if, 1);
                assert(eval_if(cond_v, cons_v, alt_v, env0, depth)
                    == eval_block(alt_v->0, env1, (depth - 1) as u64));
            }
            return r;
        }
        proof {
            reveal_with_fuel(eval_if, 1);
            assert(eval_if(cond_v, cons_v, alt_v, env0, depth)
                == (EvalOut { value: ObjV::Null, env: env1 }));
        }
        Object::Null
    }

    /// Evaluates call arguments left to right, short-circuiting on the first
    /// error value.
    #[verifier::spinoff_prover]
    fn evaluate_expressions(&mut self, exprs: Vec<Expression>, depth: u64) -> (r: Result<
        Vec<Object>,
        Object,
    >)
        ensures
            ({
                let out = eval_args(view_of_exprs(exprs@), Seq::empty(), old(self).env@, depth);
                final(self).env@ == out.env && (match (r, out.args) {
                    (Ok(values), Ok(spec_values)) => values.deep_view() == spec_values,
                    (Err(err), Err(spec_err)) => err.deep_view() == spec_err,
                    _ => false,
                })
            }),
        decreases depth,
    {
        let ghost all = view_of_exprs(exprs@);
        let ghost env0 = self.env@;
        if depth == 0 {
            proof {
                reveal_with_fuel(eval_args, 1);
                assert(eval_args(all, Seq::empty(), env0, depth)
                    == (ArgsOut { args: Err(depth_error()), env: env0 }));
            }
            return Err(Object::Error(String::from_str("recursion limit reached")));
        }
        let mut result: Vec<Object> = Vec::new();
        proof {
            assert(all.skip(0) =~= all);
            assert(result.deep_view() =~= Seq::<ObjV>::empty());
        }
        let mut i: usize = 0;
        while i < exprs.len()
            invariant
                depth > 0,
                i <= exprs@.len(),
                all == view_of_exprs(exprs@),
                env0 == old(self).env@,
                result@.len() == i,
                eval_args(all, Seq::empty(), env0, depth) == eval_args(
                    all.skip(i as int),
                    result.deep_view(),
                    self.env@,
                    depth,
                ),
            decreases exprs@.len() - i,
        {
            let ghost done_before = result.deep_view();
            let ghost env_pre = self.env@;
            proof {
                lemma_view_of_exprs_index(exprs@);
            }
            let expr = (&exprs[i]).clone();
            let obj = self.evaluate_expression(expr, depth - 1);
            proof {
                reveal_with_fuel(eval_args, 1);
                assert(all.skip(i as int)[0] == view_of_expr(exprs@[i as int]));
                assert(all.skip(i as int).drop_first() =~= all.skip(i as int + 1));
            }
            if Self::is_unwind(&obj) {
                proof {
                    reveal_with_fuel(eval_args, 1);
                    assert(eval_args(all.skip(i as int), done_before, env_pre, depth)
                        == (ArgsOut { args: Err(obj.deep_view()), env: self.env@ }));
                    assert(eval_args(all, Seq::empty(), env0, depth)
                        == (ArgsOut { args: Err(obj.deep_view()), env: self.env@ }));
                }
                return Err(obj);
            }
            result.push(obj);
            proof {
                reveal_with_fuel(eval_args, 1);
                assert(result.deep_view() =~= done_before.push(result@[i as int].deep_view()));
                assert(eval_args(all.skip(i as int), done_before, env_pre, depth)
                    == eval_args(all.skip(i as int + 1), result.deep_view(), self.env@, depth));
            }
            i += 1;
        }
        proof {
            reveal_with_fuel(eval_args, 1);
            lemma_view_of_exprs_index(exprs@);
            assert(all.skip(all.len() as int) =~= Seq::<ExprV>::empty());
            assert(eval_args(all, Seq::empty(), env0, depth)
                == (ArgsOut { args: Ok(result.deep_view()), env: self.env@ }));
        }
        Ok(result)
    }

    /// Applies an evaluated callee to evaluated arguments: a new scope over
    /// the captured environment binds the parameters positionally, the body
    /// runs there, and a `Return` result is unwrapped. A non-function callee
    /// or an arity mismatch is a runtime error value.
    #[verifier::spinoff_prover]
    fn apply_function(&self, func: Object, args: Vec<Object>, depth: u64) -> (r: Object)
        ensures
            r.deep_view() == eval_apply(func.deep_view(), args.deep_view(), depth),
        decreases depth,
    {
        let ghost f_v = func.deep_view();
        let ghost a_v = args.deep_view();
        if depth == 0 {
            proof {
                reveal_with_fuel(eval_apply, 1);
                assert(eval_apply(f_v, a_v, depth) == depth_error());
            }
            return Object::Error(String::from_str("recursion limit reached"));
        }
        match func {
            Object::Function { parameters, body, environment } => {
                let ghost body_v = body.deep_view();
                if args.len() != parameters.len() {
                    proof {
                        reveal_with_fuel(eval_apply, 1);
                        assert(eval_apply(f_v, a_v, depth)
                            == ObjV::Error("wrong number of arguments"@));
                    }
                    return Object::Error(String::from_str("wrong number of arguments"));
                }
                let ghost captured = environment@;
                let mut env = Environment::new_enclosed(environment);
                let mut i: usize = 0;
                while i < parameters.len()
                    invariant
                        i <= parameters@.len(),
                        args@.len() == parameters@.len(),
                        a_v == args.deep_view(),
                        env@ == (EnvV {
                            bindings: bind_args(parameters.deep_view().take(i as int), a_v),
                            outer: Some(Box::new(captured)),
                        }),
                    decreases parameters@.len() - i,
                {
                    let ghost bound_before = parameters.deep_view().take(i as int);
                    let value = (&args[i]).clone();
                    env.set((&parameters[i]).as_str(), value);
                    proof {
                        assert(parameters.deep_view().take(i as int + 1).drop_last()
                            =~= bound_before);
                        assert(parameters.deep_view().take(i as int + 1).last()
                            == parameters.deep_view()[i as int]);
                    }
                    i += 1;
                }
                proof {
                    assert(parameters.deep_view().take(parameters@.len() as int)
                        =~= parameters.deep_view());
                }
                let mut evaluator = Evaluator::new(env);
                let obj = evaluator.evaluate_block_statement(body, depth - 1);
                proof {
                    reveal_with_fuel(eval_apply, 1);
                    assert(eval_apply(f_v, a_v, depth) == unwrap_return(obj.deep_view()));
                }
                Self::unwrap_return_value(obj)
            },
            _ => {
                proof {
                    reveal_with_fuel(eval_apply, 1);
                    assert(eval_apply(f_v, a_v, depth)
                        == ObjV::Error("not a function: "@ + type_label(f_v)));
                }
                let mut message = String::from_str("not a function: ");
                let label = func.type_info();
                message.append(label.as_str());
                Object::Error(message)
            },
        }
    }
}

} // verus!
