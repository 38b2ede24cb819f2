//! The evaluator and the executor.
use vstd::prelude::*;
use crate::interpreter::error::Error;
use crate::interpreter::error::ErrorView;
use crate::interpreter::error::Operation;
use crate::interpreter::machine::push_cont;
use crate::interpreter::machine::running;
use crate::interpreter::machine::stack_view;
use crate::interpreter::machine::Cont;
use crate::interpreter::machine::Control;
use crate::interpreter::machine::Progress;
use crate::interpreter::machine::ValueRequest;
use crate::interpreter::numeric::boolean_op;
use crate::interpreter::numeric::integer_arith;
use crate::interpreter::numeric::integer_compare;
use crate::interpreter::numeric::Number;
use crate::interpreter::semantics::call_step;
use crate::interpreter::semantics::combine;
use crate::interpreter::semantics::enter_step;
use crate::interpreter::semantics::eval_step;
use crate::interpreter::semantics::execute_step;
use crate::interpreter::semantics::number_of;
use crate::interpreter::semantics::truth;
use crate::interpreter::semantics::truth_of;
use crate::interpreter::semantics::Combined;
use crate::ir::ast::expressions_view;
use crate::ir::ast::lemma_call_view;
use crate::ir::ast::ArithOp;
use crate::ir::ast::BinaryOp;
use crate::ir::ast::BoolOp;
use crate::ir::ast::Constant;
use crate::ir::ast::Expression;
use crate::ir::ast::ExpressionView;
use crate::ir::ast::Function;
use crate::ir::ast::FunctionView;
use crate::ir::ast::Name;
use crate::ir::ast::RelOp;
use crate::ir::ast::Statement;
use crate::ir::environment::resolve;
use crate::ir::environment::Environment;
use crate::ir::environment::Scopes;

verus! {

/// A value of the running program: a constant expression or a function.
///
/// An expression held here is meant to be fully reduced, that is one of the
/// four kinds of constant.
#[derive(Debug, PartialEq)]
pub enum EnvValue {
    Exp(Expression),
    Func(Function),
}

/// How the execution of a statement ended: at its end, with the
/// environment it leaves, or at a `return`, with the value returned.
#[derive(Debug, PartialEq)]
pub enum ControlFlow {
    Continue(Environment),
    Return(EnvValue),
}

/// The view of an [`EnvValue`]: a constant, a function, or, for an
/// expression that is not reduced, that expression.
pub ghost enum ValueView {
    Constant(Constant),
    Function(FunctionView),
    Unreduced(ExpressionView),
}

impl ValueView {
    /// The value is a constant or a function.
    pub open spec fn is_reduced(self) -> bool {
        !(self is Unreduced)
    }
}

/// The view of a [`ControlFlow`].
pub ghost enum ControlFlowView {
    Continue(Scopes),
    Return(ValueView),
}

impl View for EnvValue {
    type V = ValueView;

    open spec fn view(&self) -> ValueView {
        match self {
            EnvValue::Exp(exp) => match exp@ {
                ExpressionView::Constant(constant) => ValueView::Constant(constant),
                other => ValueView::Unreduced(other),
            },
            EnvValue::Func(func) => ValueView::Function(func@),
        }
    }
}

impl View for ControlFlow {
    type V = ControlFlowView;

    open spec fn view(&self) -> ControlFlowView {
        match self {
            ControlFlow::Continue(env) => ControlFlowView::Continue(env@),
            ControlFlow::Return(value) => ControlFlowView::Return(value@),
        }
    }
}

impl Clone for EnvValue {
    /// A deep copy.
    fn clone(&self) -> (res: Self)
        ensures
            res@ == self@,
    {
        match self {
            EnvValue::Exp(exp) => EnvValue::Exp(exp.clone()),
            EnvValue::Func(func) => EnvValue::Func(func.clone()),
        }
    }
}

/// What a binary operator makes of two values: the result, or the outside
/// work that gives it.
#[derive(Debug, PartialEq)]
pub enum Reduction {
    Value(EnvValue),
    Ask(ValueRequest),
}

/// The view of what a binary operator gave.
pub open spec fn reduction_view(outcome: Result<Reduction, Error>) -> Combined {
    match outcome {
        Ok(Reduction::Value(value)) => Combined::Value(value@),
        Ok(Reduction::Ask(request)) => Combined::Ask(request@),
        Err(error) => Combined::Fail(error@),
    }
}

/// The view of what an operator on booleans gave.
pub open spec fn settled_view(outcome: Result<EnvValue, Error>) -> Combined {
    match outcome {
        Ok(value) => Combined::Value(value@),
        Err(error) => Combined::Fail(error@),
    }
}

/// Whether the expression is one of the four kinds of constant.
pub fn is_constant(exp: &Expression) -> (res: bool)
    ensures
        res == (exp@ is Constant),
{
    match exp {
        Expression::CTrue => true,
        Expression::CFalse => true,
        Expression::CInt(_) => true,
        Expression::CReal(_) => true,
        Expression::CString(_) => true,
        _ => false,
    }
}

/// The number that a value is, if it is one.
pub fn number_of_value(value: &EnvValue) -> (res: Option<Number>)
    ensures
        res == number_of(value@),
{
    match value {
        EnvValue::Exp(Expression::CInt(i)) => Some(Number::Int(*i)),
        EnvValue::Exp(Expression::CReal(r)) => Some(Number::Real(*r)),
        _ => None,
    }
}

/// The boolean that a value is, if it is one.
pub fn truth_of_value(value: &EnvValue) -> (res: Option<bool>)
    ensures
        res == truth_of(value@),
{
    match value {
        EnvValue::Exp(Expression::CTrue) => Some(true),
        EnvValue::Exp(Expression::CFalse) => Some(false),
        _ => None,
    }
}

/// The boolean constant.
pub fn truth_value(b: bool) -> (res: EnvValue)
    ensures
        res@ == truth(b),
{
    if b {
        EnvValue::Exp(Expression::CTrue)
    } else {
        EnvValue::Exp(Expression::CFalse)
    }
}

/// The value that `name` resolves to along the scope chain of `env`, from
/// the current frame to the root.
pub fn lookup(name: Name, env: &Environment) -> (res: Result<EnvValue, Error>)
    requires
        env.wf(),
    ensures
        match resolve(env@, name@) {
            Some(value) => res matches Ok(found) && found@ == value,
            None => res matches Err(error) && error@ == ErrorView::UndefinedName(name@),
        },
{
    let mut curr_scope = env.scope_key();
    proof {
        env.lemma_chain();
        assert(env@.take(curr_scope + 1) =~= env@);
    }
    loop
        invariant
            env.wf(),
            curr_scope < env@.len(),
            resolve(env@, name@) == resolve(env@.take(curr_scope + 1), name@),
        decreases curr_scope,
    {
        let frame = env.get_frame(curr_scope);
        proof {
            env.lemma_chain();
            assert(env@.take(curr_scope + 1).last() == frame@);
            assert(env@.take(curr_scope + 1).drop_last() =~= env@.take(curr_scope as int));
        }
        match frame.get(&name) {
            Some(value) => {
                return Ok(value.clone());
            },
            None => match frame.parent_key() {
                Some(key) => {
                    curr_scope = key;
                },
                None => {
                    assert(resolve(env@.take(0), name@) is None);
                    return Err(Error::UndefinedName(name));
                },
            },
        }
    }
}

/* Arithmetic operations */

/// An arithmetic operator on two values. Both must be numbers. Two
/// integers give an integer, computed here; with a real on either side the
/// result is a real, and the outside world is asked for it.
pub fn eval_binary_arith_op(op: ArithOp, lhs: EnvValue, rhs: EnvValue) -> (res: Result<
    Reduction,
    Error,
>)
    ensures
        reduction_view(res) == combine(BinaryOp::Arith(op), lhs@, rhs@),
{
    match (number_of_value(&lhs), number_of_value(&rhs)) {
        (Some(Number::Int(a)), Some(Number::Int(b))) => Ok(
            Reduction::Value(EnvValue::Exp(Expression::CInt(integer_arith(op, a, b)))),
        ),
        (Some(a), Some(b)) => Ok(Reduction::Ask(ValueRequest::Arith(op, a, b))),
        _ => Err(Error::TypeError(Operation::Binary(BinaryOp::Arith(op)))),
    }
}

/// `lhs + rhs`.
pub fn add(lhs: EnvValue, rhs: EnvValue) -> (res: Result<Reduction, Error>)
    ensures
        reduction_view(res) == combine(BinaryOp::Arith(ArithOp::Add), lhs@, rhs@),
{
    eval_binary_arith_op(ArithOp::Add, lhs, rhs)
}

/// `lhs - rhs`.
pub fn sub(lhs: EnvValue, rhs: EnvValue) -> (res: Result<Reduction, Error>)
    ensures
        reduction_view(res) == combine(BinaryOp::Arith(ArithOp::Sub), lhs@, rhs@),
{
    eval_binary_arith_op(ArithOp::Sub, lhs, rhs)
}

/// `lhs * rhs`.
pub fn mul(lhs: EnvValue, rhs: EnvValue) -> (res: Result<Reduction, Error>)
    ensures
        reduction_view(res) == combine(BinaryOp::Arith(ArithOp::Mul), lhs@, rhs@),
{
    eval_binary_arith_op(ArithOp::Mul, lhs, rhs)
}

/// `lhs / rhs`.
pub fn div(lhs: EnvValue, rhs: EnvValue) -> (res: Result<Reduction, Error>)
    ensures
        reduction_view(res) == combine(BinaryOp::Arith(ArithOp::Div), lhs@, rhs@),
{
    eval_binary_arith_op(ArithOp::Div, lhs, rhs)
}

/* Boolean expressions */

/// A binary boolean operator on two values. Both must be booleans.
pub fn eval_binary_boolean_op(op: BoolOp, lhs: EnvValue, rhs: EnvValue) -> (res: Result<
    EnvValue,
    Error,
>)
    ensures
        settled_view(res) == combine(BinaryOp::Bool(op), lhs@, rhs@),
{
    match (truth_of_value(&lhs), truth_of_value(&rhs)) {
        (Some(a), Some(b)) => Ok(truth_value(boolean_op(op, a, b))),
        _ => Err(Error::TypeError(Operation::Binary(BinaryOp::Bool(op)))),
    }
}

/// `lhs and rhs`.
pub fn and(lhs: EnvValue, rhs: EnvValue) -> (res: Result<EnvValue, Error>)
    ensures
        settled_view(res) == combine(BinaryOp::Bool(BoolOp::And), lhs@, rhs@),
{
    eval_binary_boolean_op(BoolOp::And, lhs, rhs)
}

/// `lhs or rhs`.
pub fn or(lhs: EnvValue, rhs: EnvValue) -> (res: Result<EnvValue, Error>)
    ensures
        settled_view(res) == combine(BinaryOp::Bool(BoolOp::Or), lhs@, rhs@),
{
    eval_binary_boolean_op(BoolOp::Or, lhs, rhs)
}

/// What `not` makes of a value.
pub open spec fn negation(value: ValueView) -> Combined {
    match truth_of(value) {
        Some(b) => Combined::Value(truth(!b)),
        None => Combined::Fail(ErrorView::TypeError(Operation::Not)),
    }
}

/// `not value`. The value must be a boolean.
pub fn not(value: EnvValue) -> (res: Result<EnvValue, Error>)
    ensures
        settled_view(res) == negation(value@),
{
    match truth_of_value(&value) {
        Some(b) => Ok(truth_value(!b)),
        None => Err(Error::TypeError(Operation::Not)),
    }
}

/* Relational operations */

/// A relational operator on two values. Both must be numbers. Two integers
/// are compared here; with a real on either side the outside world is
/// asked.
pub fn eval_binary_rel_op(op: RelOp, lhs: EnvValue, rhs: EnvValue) -> (res: Result<
    Reduction,
    Error,
>)
    ensures
        reduction_view(res) == combine(BinaryOp::Rel(op), lhs@, rhs@),
{
    match (number_of_value(&lhs), number_of_value(&rhs)) {
        (Some(Number::Int(a)), Some(Number::Int(b))) => Ok(
            Reduction::Value(truth_value(integer_compare(op, a, b))),
        ),
        (Some(a), Some(b)) => Ok(Reduction::Ask(ValueRequest::Compare(op, a, b))),
        _ => Err(Error::TypeError(Operation::Binary(BinaryOp::Rel(op)))),
    }
}

/// `lhs == rhs`.
pub fn eq(lhs: EnvValue, rhs: EnvValue) -> (res: Result<Reduction, Error>)
    ensures
        reduction_view(res) == combine(BinaryOp::Rel(RelOp::EQ), lhs@, rhs@),
{
    eval_binary_rel_op(RelOp::EQ, lhs, rhs)
}

/// `lhs > rhs`.
pub fn gt(lhs: EnvValue, rhs: EnvValue) -> (res: Result<Reduction, Error>)
    ensures
        reduction_view(res) == combine(BinaryOp::Rel(RelOp::GT), lhs@, rhs@),
{
    eval_binary_rel_op(RelOp::GT, lhs, rhs)
}

/// `lhs < rhs`.
pub fn lt(lhs: EnvValue, rhs: EnvValue) -> (res: Result<Reduction, Error>)
    ensures
        reduction_view(res) == combine(BinaryOp::Rel(RelOp::LT), lhs@, rhs@),
{
    eval_binary_rel_op(RelOp::LT, lhs, rhs)
}

/// `lhs >= rhs`.
pub fn gte(lhs: EnvValue, rhs: EnvValue) -> (res: Result<Reduction, Error>)
    ensures
        reduction_view(res) == combine(BinaryOp::Rel(RelOp::GTE), lhs@, rhs@),
{
    eval_binary_rel_op(RelOp::GTE, lhs, rhs)
}

/// `lhs <= rhs`.
pub fn lte(lhs: EnvValue, rhs: EnvValue) -> (res: Result<Reduction, Error>)
    ensures
        reduction_view(res) == combine(BinaryOp::Rel(RelOp::LTE), lhs@, rhs@),
{
    eval_binary_rel_op(RelOp::LTE, lhs, rhs)
}

/// A binary operator on two values.
pub fn apply_binary(op: BinaryOp, lhs: EnvValue, rhs: EnvValue) -> (res: Result<Reduction, Error>)
    ensures
        reduction_view(res) == combine(op, lhs@, rhs@),
{
    match op {
        BinaryOp::Arith(ArithOp::Add) => self::add(lhs, rhs),
        BinaryOp::Arith(ArithOp::Sub) => self::sub(lhs, rhs),
        BinaryOp::Arith(ArithOp::Mul) => self::mul(lhs, rhs),
        BinaryOp::Arith(ArithOp::Div) => div(lhs, rhs),
        BinaryOp::Bool(BoolOp::And) => match and(lhs, rhs) {
            Ok(value) => Ok(Reduction::Value(value)),
            Err(error) => Err(error),
        },
        BinaryOp::Bool(BoolOp::Or) => match or(lhs, rhs) {
            Ok(value) => Ok(Reduction::Value(value)),
            Err(error) => Err(error),
        },
        BinaryOp::Rel(RelOp::EQ) => eq(lhs, rhs),
        BinaryOp::Rel(RelOp::GT) => gt(lhs, rhs),
        BinaryOp::Rel(RelOp::LT) => lt(lhs, rhs),
        BinaryOp::Rel(RelOp::GTE) => gte(lhs, rhs),
        BinaryOp::Rel(RelOp::LTE) => lte(lhs, rhs),
    }
}

/* Calls */

/// Enters the body of `func`, in the frame of the call, once the
/// parameters are bound. Where no frame of the chain binds the function's
/// own name, the frame of the call binds it to the function, so that the
/// body can call itself. A function without a body cannot be entered.
pub fn enter(func: Function, env: Environment, stack: Vec<Cont>) -> (res: Progress)
    requires
        env.wf(),
    ensures
        res@ == enter_step(func@, env@, stack_view(stack@)),
        res.wf(),
{
    let mut env = env;
    let bound = env.search_frame(func.name.clone()).is_some();
    if !bound {
        env.insert_variable(func.name.clone(), EnvValue::Func(func.clone()));
    }
    match func.body {
        Some(body) => {
            let stack = push_cont(stack, Cont::Body(func.name));
            running(env, Control::Exec(*body), stack)
        },
        None => Progress::Failed(Error::UnsupportedOperation),
    }
}

/// Calls the function that `name` resolves to on `args`.
///
/// The name must resolve to a function that declares as many parameters as
/// there are arguments. The call opens a frame in the current one; the
/// arguments are then evaluated in that frame, in order, each bound to its
/// parameter before the next is evaluated.
pub fn call(name: Name, args: Vec<Expression>, env: Environment, stack: Vec<Cont>) -> (res:
    Progress)
    requires
        env.wf(),
    ensures
        res@ == call_step(name@, expressions_view(args@), env@, stack_view(stack@)),
        res.wf(),
{
    match lookup(name.clone(), &env) {
        Ok(EnvValue::Func(func)) => {
            let expected = match &func.params {
                Some(params) => params.len(),
                None => 0,
            };
            if args.len() != expected {
                return Progress::Failed(Error::ArityMismatch { name, expected, found: args.len() });
            }
            let mut env = env;
            env.insert_frame();
            if args.len() == 0 {
                enter(func, env, stack)
            } else {
                let first = args[0].clone();
                let stack = push_cont(stack, Cont::Argument { func, args, next: 0 });
                running(env, Control::Eval(first), stack)
            }
        },
        Ok(EnvValue::Exp(_)) => Progress::Failed(Error::NotAFunction(name)),
        Err(error) => Progress::Failed(error),
    }
}

/* Expressions and statements */

/// Takes up a binary expression: the left operand is evaluated first.
fn descend(op: BinaryOp, lhs: Expression, rhs: Expression, env: Environment, stack: Vec<Cont>) -> (res:
    Progress)
    requires
        env.wf(),
    ensures
        res@ == eval_step(
            ExpressionView::Binary(op, Box::new(lhs@), Box::new(rhs@)),
            env@,
            stack_view(stack@),
        ),
        res.wf(),
{
    let stack = push_cont(stack, Cont::BinaryLeft(op, rhs));
    running(env, Control::Eval(lhs), stack)
}

/// One step of the evaluation of `exp` in `env`, with `stack` still to do.
///
/// A constant is its own value and a variable the value it resolves to. An
/// operator, a call or a file read takes up its first operand and leaves
/// the rest on the stack. Reading from standard input has no rule.
pub fn eval(exp: Expression, env: Environment, stack: Vec<Cont>) -> (res: Progress)
    requires
        env.wf(),
    ensures
        res@ == eval_step(exp@, env@, stack_view(stack@)),
        res.wf(),
{
    match exp {
        Expression::Add(lhs, rhs) => descend(BinaryOp::Arith(ArithOp::Add), *lhs, *rhs, env, stack),
        Expression::Sub(lhs, rhs) => descend(BinaryOp::Arith(ArithOp::Sub), *lhs, *rhs, env, stack),
        Expression::Mul(lhs, rhs) => descend(BinaryOp::Arith(ArithOp::Mul), *lhs, *rhs, env, stack),
        Expression::Div(lhs, rhs) => descend(BinaryOp::Arith(ArithOp::Div), *lhs, *rhs, env, stack),
        Expression::And(lhs, rhs) => descend(BinaryOp::Bool(BoolOp::And), *lhs, *rhs, env, stack),
        Expression::Or(lhs, rhs) => descend(BinaryOp::Bool(BoolOp::Or), *lhs, *rhs, env, stack),
        Expression::Not(operand) => {
            let stack = push_cont(stack, Cont::Not);
            running(env, Control::Eval(*operand), stack)
        },
        Expression::EQ(lhs, rhs) => descend(BinaryOp::Rel(RelOp::EQ), *lhs, *rhs, env, stack),
        Expression::GT(lhs, rhs) => descend(BinaryOp::Rel(RelOp::GT), *lhs, *rhs, env, stack),
        Expression::LT(lhs, rhs) => descend(BinaryOp::Rel(RelOp::LT), *lhs, *rhs, env, stack),
        Expression::GTE(lhs, rhs) => descend(BinaryOp::Rel(RelOp::GTE), *lhs, *rhs, env, stack),
        Expression::LTE(lhs, rhs) => descend(BinaryOp::Rel(RelOp::LTE), *lhs, *rhs, env, stack),
        Expression::Var(name) => match lookup(name, &env) {
            Ok(value) => running(env, Control::Value(value), stack),
            Err(error) => Progress::Failed(error),
        },
        Expression::FuncCall(name, args) => {
            proof {
                lemma_call_view(name, args);
            }
            call(name, args, env, stack)
        },
        Expression::ReadFile(path) => {
            let stack = push_cont(stack, Cont::ReadPath);
            running(env, Control::Eval(*path), stack)
        },
        constant => if is_constant(&constant) {
            running(env, Control::Value(EnvValue::Exp(constant)), stack)
        } else {
            Progress::Failed(Error::UnsupportedOperation)
        },
    }
}

/// One step of the execution of `stmt` in `env`, with `stack` still to do.
///
/// A function definition binds the function to its name in the current
/// frame. Every other statement takes up its first expression or
/// statement and leaves the rest on the stack.
pub fn execute(stmt: Statement, env: Environment, stack: Vec<Cont>) -> (res: Progress)
    requires
        env.wf(),
    ensures
        res@ == execute_step(stmt@, env@, stack_view(stack@)),
        res.wf(),
{
    match stmt {
        Statement::Assignment(name, exp, _) => {
            let stack = push_cont(stack, Cont::Assign(name));
            running(env, Control::Eval(*exp), stack)
        },
        Statement::IfThenElse(cond, stmt_then, stmt_else) => {
            let stmt_else = match stmt_else {
                Some(stmt_else) => Some(*stmt_else),
                None => None,
            };
            let stack = push_cont(stack, Cont::Branch(*stmt_then, stmt_else));
            running(env, Control::Eval(*cond), stack)
        },
        Statement::While(cond, body) => {
            let test = (*cond).clone();
            let stack = push_cont(stack, Cont::LoopTest(*cond, *body));
            running(env, Control::Eval(test), stack)
        },
        Statement::Sequence(first, second) => {
            let stack = push_cont(stack, Cont::Then(*second));
            running(env, Control::Exec(*first), stack)
        },
        Statement::FuncDef(func) => {
            let mut env = env;
            env.insert_variable(func.name.clone(), EnvValue::Func(func));
            running(env, Control::Completed, stack)
        },
        Statement::Return(exp) => {
            let stack = push_cont(stack, Cont::ReturnValue);
            running(env, Control::Eval(*exp), stack)
        },
        Statement::WriteToFile(path, content) => {
            let stack = push_cont(stack, Cont::WritePath(*content));
            running(env, Control::Eval(*path), stack)
        },
        Statement::Print(exp) => {
            let stack = push_cont(stack, Cont::Print);
            running(env, Control::Eval(*exp), stack)
        },
    }
}

} // verus!
