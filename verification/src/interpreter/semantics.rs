//! The semantics of the language, as an abstract machine.
//!
//! A state of the machine holds the scopes, what is under way (the
//! control) and what is still to be done with its result (a stack of
//! continuations, the innermost last). One step looks at the control and at
//! the innermost continuation and gives what comes next: another state, a
//! request for work that only the outside world can do, or the end of the
//! run. The machine computes nothing on reals and touches no file and no
//! output stream: it asks, and is resumed with the answer.
use vstd::prelude::*;
use crate::interpreter::error::ErrorView;
use crate::interpreter::error::Operation;
use crate::interpreter::interpreter::ControlFlowView;
use crate::interpreter::interpreter::ValueView;
use crate::interpreter::numeric::boolean_result;
use crate::interpreter::numeric::integer_relation;
use crate::interpreter::numeric::integer_result;
use crate::interpreter::numeric::Number;
use crate::interpreter::render::boolean_text;
use crate::interpreter::render::decimal;
use crate::ir::ast::ArithOp;
use crate::ir::ast::BinaryOp;
use crate::ir::ast::Constant;
use crate::ir::ast::ExpressionView;
use crate::ir::ast::FunctionView;
use crate::ir::ast::Real;
use crate::ir::ast::RelOp;
use crate::ir::ast::StatementView;
use crate::ir::environment::declare;
use crate::ir::environment::pop_scope;
use crate::ir::environment::push_scope;
use crate::ir::environment::resolve;
use crate::ir::environment::Scopes;

verus! {

/// Outside work that yields a value.
pub ghost enum ValueRequestView {
    /// Apply the operator to the two numbers in double precision, an
    /// integer operand converted first. The answer is a real.
    Arith(ArithOp, Number, Number),
    /// Compare the two numbers in double precision, an integer operand
    /// converted first. The answer is a boolean.
    Compare(RelOp, Number, Number),
    /// Read the whole file at the path as text. The answer is a string.
    ReadFile(Seq<char>),
}

/// Outside work that yields nothing but its being done.
pub ghost enum EffectRequestView {
    /// Write the content to the file at the path, creating or truncating it.
    WriteFile(Seq<char>, Seq<char>),
    /// Write the text and a line end to standard output.
    PrintLine(Seq<char>),
    /// Write the real, in its natural text, and a line end to standard
    /// output.
    PrintReal(Real),
}

/// What a binary operator makes of two values.
pub ghost enum Combined {
    /// The result, computed.
    Value(ValueView),
    /// The result is a real or depends on one: the outside world computes it.
    Ask(ValueRequestView),
    /// An operand is of the wrong kind.
    Fail(ErrorView),
}

/// What is still to be done once the work under way has given its result.
pub ghost enum ContView {
    /// The left operand is under way; the right one comes next.
    BinaryLeft(BinaryOp, ExpressionView),
    /// The right operand is under way; the left one gave this value.
    BinaryRight(BinaryOp, ValueView),
    /// The operand of `not` is under way.
    Not,
    /// The path of a file to read is under way.
    ReadPath,
    /// Argument `next` of a call of `func` is under way, in the frame of
    /// the call.
    Argument { func: FunctionView, args: Seq<ExpressionView>, next: nat },
    /// The body of the function of this name is under way.
    Body(Seq<char>),
    /// The value to bind to the name is under way.
    Assign(Seq<char>),
    /// The condition of a conditional is under way.
    Branch(StatementView, Option<StatementView>),
    /// The condition of a loop is under way.
    LoopTest(ExpressionView, StatementView),
    /// The body of a loop is under way.
    LoopBody(ExpressionView, StatementView),
    /// The first statement of a sequence is under way; this one comes next.
    Then(StatementView),
    /// The value to return is under way.
    ReturnValue,
    /// The path of a file to write is under way; the content comes next.
    WritePath(ExpressionView),
    /// The content of a file to write is under way; the path gave this value.
    WriteContent(ValueView),
    /// The value to print is under way.
    Print,
}

/// What the machine is doing.
pub ghost enum ControlView {
    /// About to evaluate the expression.
    Eval(ExpressionView),
    /// About to execute the statement.
    Exec(StatementView),
    /// An expression has given this value.
    Value(ValueView),
    /// A statement has run to its end.
    Completed,
    /// A statement has returned this value.
    Returning(ValueView),
}

/// A state of the machine.
pub ghost struct State {
    pub env: Scopes,
    pub control: ControlView,
    pub stack: Seq<ContView>,
}

/// A machine that waits for the outside world: a state without control.
pub ghost struct Pending {
    pub env: Scopes,
    pub stack: Seq<ContView>,
}

/// What one step gives.
pub ghost enum ProgressView {
    /// The next state.
    Running(State),
    /// The run goes on once the outside world has given a value.
    NeedsValue(ValueRequestView, Pending),
    /// The run goes on once the outside world has done its work.
    NeedsEffect(EffectRequestView, Pending),
    /// The run of an expression has ended with this value.
    Evaluated(ValueView),
    /// The run of a statement has ended.
    Executed(ControlFlowView),
    /// The run has failed.
    Failed(ErrorView),
}

/// The number that a value is, if it is one.
pub open spec fn number_of(value: ValueView) -> Option<Number> {
    match value {
        ValueView::Constant(Constant::Int(i)) => Some(Number::Int(i)),
        ValueView::Constant(Constant::Real(r)) => Some(Number::Real(r)),
        _ => None,
    }
}

/// The boolean that a value is, if it is one.
pub open spec fn truth_of(value: ValueView) -> Option<bool> {
    match value {
        ValueView::Constant(Constant::Bool(b)) => Some(b),
        _ => None,
    }
}

/// The string that a value is, if it is one.
pub open spec fn text_of(value: ValueView) -> Option<Seq<char>> {
    match value {
        ValueView::Constant(Constant::Text(s)) => Some(s),
        _ => None,
    }
}

/// The boolean constant.
pub open spec fn truth(b: bool) -> ValueView {
    ValueView::Constant(Constant::Bool(b))
}

/// What a binary operator makes of two values.
///
/// The arithmetic and the relational operators ask for two numbers. On two
/// integers they are computed here; with a real on either side, the
/// outside world is asked. The boolean operators ask for two booleans.
pub open spec fn combine(op: BinaryOp, lhs: ValueView, rhs: ValueView) -> Combined {
    match op {
        BinaryOp::Arith(arith) => match (number_of(lhs), number_of(rhs)) {
            (Some(Number::Int(a)), Some(Number::Int(b))) => Combined::Value(
                ValueView::Constant(Constant::Int(integer_result(arith, a as int, b as int) as i32)),
            ),
            (Some(a), Some(b)) => Combined::Ask(ValueRequestView::Arith(arith, a, b)),
            _ => Combined::Fail(ErrorView::TypeError(Operation::Binary(op))),
        },
        BinaryOp::Rel(rel) => match (number_of(lhs), number_of(rhs)) {
            (Some(Number::Int(a)), Some(Number::Int(b))) => Combined::Value(
                truth(integer_relation(rel, a as int, b as int)),
            ),
            (Some(a), Some(b)) => Combined::Ask(ValueRequestView::Compare(rel, a, b)),
            _ => Combined::Fail(ErrorView::TypeError(Operation::Binary(op))),
        },
        BinaryOp::Bool(boolean) => match (truth_of(lhs), truth_of(rhs)) {
            (Some(a), Some(b)) => Combined::Value(truth(boolean_result(boolean, a, b))),
            _ => Combined::Fail(ErrorView::TypeError(Operation::Binary(op))),
        },
    }
}

/// The state that goes on from `env` and `stack` with the given control.
pub open spec fn running(env: Scopes, control: ControlView, stack: Seq<ContView>) -> ProgressView {
    ProgressView::Running(State { env, control, stack })
}

/// Entering the body of `func`, in the frame of the call, once the
/// parameters are bound. Where no frame of the chain binds the function's
/// own name, the frame of the call binds it to the function, so that the
/// body can call itself. A function without a body cannot be entered.
pub open spec fn enter_step(func: FunctionView, env: Scopes, stack: Seq<ContView>) -> ProgressView {
    match func.body {
        Some(body) => running(
            if resolve(env, func.name) is None {
                declare(env, func.name, ValueView::Function(func))
            } else {
                env
            },
            ControlView::Exec(*body),
            stack.push(ContView::Body(func.name)),
        ),
        None => ProgressView::Failed(ErrorView::UnsupportedOperation),
    }
}

/// A call of `name` on `args`.
///
/// The name must resolve to a function that declares as many parameters as
/// there are arguments. The call opens a frame in the current one; the
/// arguments are evaluated in that frame, in order, each bound to its
/// parameter before the next is evaluated.
pub open spec fn call_step(
    name: Seq<char>,
    args: Seq<ExpressionView>,
    env: Scopes,
    stack: Seq<ContView>,
) -> ProgressView {
    match resolve(env, name) {
        None => ProgressView::Failed(ErrorView::UndefinedName(name)),
        Some(ValueView::Function(func)) => if args.len() != func.param_names().len() {
            ProgressView::Failed(
                ErrorView::ArityMismatch {
                    name,
                    expected: func.param_names().len(),
                    found: args.len(),
                },
            )
        } else if args.len() == 0 {
            enter_step(func, push_scope(env), stack)
        } else {
            running(
                push_scope(env),
                ControlView::Eval(args[0]),
                stack.push(ContView::Argument { func, args, next: 0 }),
            )
        },
        Some(_) => ProgressView::Failed(ErrorView::NotAFunction(name)),
    }
}

/// One step on an expression.
pub open spec fn eval_step(exp: ExpressionView, env: Scopes, stack: Seq<ContView>) -> ProgressView {
    match exp {
        ExpressionView::Constant(constant) => running(
            env,
            ControlView::Value(ValueView::Constant(constant)),
            stack,
        ),
        ExpressionView::Var(name) => match resolve(env, name) {
            Some(value) => running(env, ControlView::Value(value), stack),
            None => ProgressView::Failed(ErrorView::UndefinedName(name)),
        },
        ExpressionView::FuncCall(name, args) => call_step(name, args, env, stack),
        ExpressionView::ReadFile(path) => running(
            env,
            ControlView::Eval(*path),
            stack.push(ContView::ReadPath),
        ),
        ExpressionView::Binary(op, lhs, rhs) => running(
            env,
            ControlView::Eval(*lhs),
            stack.push(ContView::BinaryLeft(op, *rhs)),
        ),
        ExpressionView::Not(operand) => running(
            env,
            ControlView::Eval(*operand),
            stack.push(ContView::Not),
        ),
        ExpressionView::ReadString | ExpressionView::ReadInt | ExpressionView::ReadFloat =>
            ProgressView::Failed(ErrorView::UnsupportedOperation),
    }
}

/// One step on a statement.
pub open spec fn execute_step(stmt: StatementView, env: Scopes, stack: Seq<ContView>) -> ProgressView {
    match stmt {
        StatementView::Assignment(name, exp, _) => running(
            env,
            ControlView::Eval(exp),
            stack.push(ContView::Assign(name)),
        ),
        StatementView::IfThenElse(cond, then_stmt, else_stmt) => running(
            env,
            ControlView::Eval(cond),
            stack.push(
                ContView::Branch(
                    *then_stmt,
                    match else_stmt {
                        Some(else_stmt) => Some(*else_stmt),
                        None => None,
                    },
                ),
            ),
        ),
        StatementView::While(cond, body) => running(
            env,
            ControlView::Eval(cond),
            stack.push(ContView::LoopTest(cond, *body)),
        ),
        StatementView::Sequence(first, second) => running(
            env,
            ControlView::Exec(*first),
            stack.push(ContView::Then(*second)),
        ),
        StatementView::FuncDef(func) => running(
            declare(env, func.name, ValueView::Function(func)),
            ControlView::Completed,
            stack,
        ),
        StatementView::Return(exp) => running(
            env,
            ControlView::Eval(exp),
            stack.push(ContView::ReturnValue),
        ),
        StatementView::WriteToFile(path, content) => running(
            env,
            ControlView::Eval(path),
            stack.push(ContView::WritePath(content)),
        ),
        StatementView::Print(exp) => running(env, ControlView::Eval(exp), stack.push(ContView::Print)),
    }
}

/// Printing a value: a constant is handed to the outside world, an integer
/// in decimal, a boolean as `true` or `false`, a string as it is, a real
/// for the outside world to render.
pub open spec fn print_step(value: ValueView, env: Scopes, stack: Seq<ContView>) -> ProgressView {
    match value {
        ValueView::Constant(Constant::Int(i)) => ProgressView::NeedsEffect(
            EffectRequestView::PrintLine(decimal(i as int)),
            Pending { env, stack },
        ),
        ValueView::Constant(Constant::Real(r)) => ProgressView::NeedsEffect(
            EffectRequestView::PrintReal(r),
            Pending { env, stack },
        ),
        ValueView::Constant(Constant::Text(s)) => ProgressView::NeedsEffect(
            EffectRequestView::PrintLine(s),
            Pending { env, stack },
        ),
        ValueView::Constant(Constant::Bool(b)) => ProgressView::NeedsEffect(
            EffectRequestView::PrintLine(boolean_text(b)),
            Pending { env, stack },
        ),
        _ => ProgressView::Failed(ErrorView::TypeError(Operation::Print)),
    }
}

/// One step on a value, handed to the continuation `cont` that stood
/// on top of `stack`.
///
/// A continuation that waits for a statement to end and not for a value
/// (the last three) is dropped, and an argument that is none of the
/// arguments of its call, or of a call with another number of arguments
/// than parameters, is refused as such a call is.
pub open spec fn value_step(
    cont: ContView,
    value: ValueView,
    env: Scopes,
    stack: Seq<ContView>,
) -> ProgressView {
    match cont {
        ContView::BinaryLeft(op, rhs) => running(
            env,
            ControlView::Eval(rhs),
            stack.push(ContView::BinaryRight(op, value)),
        ),
        ContView::BinaryRight(op, lhs) => match combine(op, lhs, value) {
            Combined::Value(result) => running(env, ControlView::Value(result), stack),
            Combined::Ask(request) => ProgressView::NeedsValue(request, Pending { env, stack }),
            Combined::Fail(error) => ProgressView::Failed(error),
        },
        ContView::Not => match truth_of(value) {
            Some(b) => running(env, ControlView::Value(truth(!b)), stack),
            None => ProgressView::Failed(ErrorView::TypeError(Operation::Not)),
        },
        ContView::ReadPath => match text_of(value) {
            Some(path) => ProgressView::NeedsValue(
                ValueRequestView::ReadFile(path),
                Pending { env, stack },
            ),
            None => ProgressView::Failed(ErrorView::TypeError(Operation::ReadFile)),
        },
        ContView::Argument { func, args, next } => if !(next < args.len() && args.len()
            == func.param_names().len()) {
            ProgressView::Failed(
                ErrorView::ArityMismatch {
                    name: func.name,
                    expected: func.param_names().len(),
                    found: args.len(),
                },
            )
        } else if next + 1 < args.len() {
            running(
                declare(env, func.param_names()[next as int], value),
                ControlView::Eval(args[next as int + 1]),
                stack.push(ContView::Argument { func, args, next: next + 1 }),
            )
        } else {
            enter_step(func, declare(env, func.param_names()[next as int], value), stack)
        },
        ContView::Assign(name) => running(declare(env, name, value), ControlView::Completed, stack),
        ContView::Branch(then_stmt, else_stmt) => match truth_of(value) {
            Some(true) => running(env, ControlView::Exec(then_stmt), stack),
            Some(false) => match else_stmt {
                Some(else_stmt) => running(env, ControlView::Exec(else_stmt), stack),
                None => running(env, ControlView::Completed, stack),
            },
            None => ProgressView::Failed(ErrorView::TypeError(Operation::If)),
        },
        ContView::LoopTest(cond, body) => match truth_of(value) {
            Some(true) => running(
                env,
                ControlView::Exec(body),
                stack.push(ContView::LoopBody(cond, body)),
            ),
            Some(false) => running(env, ControlView::Completed, stack),
            None => ProgressView::Failed(ErrorView::TypeError(Operation::While)),
        },
        ContView::ReturnValue => running(env, ControlView::Returning(value), stack),
        ContView::WritePath(content) => running(
            env,
            ControlView::Eval(content),
            stack.push(ContView::WriteContent(value)),
        ),
        ContView::WriteContent(path) => match (text_of(path), text_of(value)) {
            (Some(path), Some(content)) => ProgressView::NeedsEffect(
                EffectRequestView::WriteFile(path, content),
                Pending { env, stack },
            ),
            _ => ProgressView::Failed(ErrorView::TypeError(Operation::WriteToFile)),
        },
        ContView::Print => print_step(value, env, stack),
        ContView::Body(_) | ContView::LoopBody(_, _) | ContView::Then(_) => running(
            env,
            ControlView::Value(value),
            stack,
        ),
    }
}

/// One step on the end of a statement, handed to the continuation `cont`
/// that stood on top of `stack`.
///
/// A sequence goes on with its second statement, a loop tests its
/// condition again, and a function body that ends without returning is an
/// error. A continuation that waits for a value is dropped.
pub open spec fn completed_step(cont: ContView, env: Scopes, stack: Seq<ContView>) -> ProgressView {
    match cont {
        ContView::Then(second) => running(env, ControlView::Exec(second), stack),
        ContView::LoopBody(cond, body) => running(
            env,
            ControlView::Eval(cond),
            stack.push(ContView::LoopTest(cond, body)),
        ),
        ContView::Body(name) => ProgressView::Failed(ErrorView::MissingReturn(name)),
        _ => running(env, ControlView::Completed, stack),
    }
}

/// One step on a `return`, handed to the continuation `cont` that stood on
/// top of `stack`.
///
/// The body of a function catches it: the frame of the call is dropped and
/// the call gives the value returned. Every other continuation is dropped:
/// what was left of a sequence or of a loop does not run.
pub open spec fn return_step(
    cont: ContView,
    value: ValueView,
    env: Scopes,
    stack: Seq<ContView>,
) -> ProgressView {
    match cont {
        ContView::Body(_) => running(pop_scope(env), ControlView::Value(value), stack),
        _ => running(env, ControlView::Returning(value), stack),
    }
}

/// One step of the machine.
///
/// With no continuation left, a value, the end of a statement or a
/// `return` ends the run.
pub open spec fn step(state: State) -> ProgressView {
    match state.control {
        ControlView::Eval(exp) => eval_step(exp, state.env, state.stack),
        ControlView::Exec(stmt) => execute_step(stmt, state.env, state.stack),
        ControlView::Value(value) => if state.stack.len() == 0 {
            ProgressView::Evaluated(value)
        } else {
            value_step(state.stack.last(), value, state.env, state.stack.drop_last())
        },
        ControlView::Completed => if state.stack.len() == 0 {
            ProgressView::Executed(ControlFlowView::Continue(state.env))
        } else {
            completed_step(state.stack.last(), state.env, state.stack.drop_last())
        },
        ControlView::Returning(value) => if state.stack.len() == 0 {
            ProgressView::Executed(ControlFlowView::Return(value))
        } else {
            return_step(state.stack.last(), value, state.env, state.stack.drop_last())
        },
    }
}

/// What the outside world answers to a request for a value.
pub ghost enum ValueReply {
    /// The real asked for.
    Real(Real),
    /// The boolean asked for.
    Truth(bool),
    /// The text asked for.
    Text(Seq<char>),
    /// The outside world failed, with this message.
    Failure(Seq<char>),
}

/// What the outside world answers to a request for work.
pub ghost enum EffectReply {
    /// The work asked for is done.
    Done,
    /// The outside world failed, with this message.
    Failure(Seq<char>),
}

/// The answers of the outside world to the requests of a run: request
/// `n` is answered by `values(n)` where it asks for a value and by
/// `effects(n)` where it asks for work.
pub ghost struct Replies {
    pub values: spec_fn(nat) -> ValueReply,
    pub effects: spec_fn(nat) -> EffectReply,
}

/// How a machine that waits for a value goes on with the answer: the
/// value answered is the value of the expression that asked for it, and a
/// failure ends the run.
pub open spec fn resume_value(pending: Pending, reply: ValueReply) -> ProgressView {
    match reply {
        ValueReply::Real(r) => running(
            pending.env,
            ControlView::Value(ValueView::Constant(Constant::Real(r))),
            pending.stack,
        ),
        ValueReply::Truth(b) => running(pending.env, ControlView::Value(truth(b)), pending.stack),
        ValueReply::Text(s) => running(
            pending.env,
            ControlView::Value(ValueView::Constant(Constant::Text(s))),
            pending.stack,
        ),
        ValueReply::Failure(message) => ProgressView::Failed(ErrorView::IoFailure(message)),
    }
}

/// How a machine that waits for work goes on with the answer: work done
/// completes the statement that asked for it, and a failure ends the run.
pub open spec fn resume_effect(pending: Pending, reply: EffectReply) -> ProgressView {
    match reply {
        EffectReply::Done => running(pending.env, ControlView::Completed, pending.stack),
        EffectReply::Failure(message) => ProgressView::Failed(ErrorView::IoFailure(message)),
    }
}

/// Where a run stands, and how many requests it has made so far.
pub ghost struct Run {
    pub progress: ProgressView,
    pub asked: nat,
}

/// The run after at most `fuel` more moves. A move is a step of the
/// machine or the answer to a request. A run that has ended stays as it
/// is.
pub open spec fn run(from: Run, replies: Replies, fuel: nat) -> Run
    decreases fuel,
{
    if fuel == 0 {
        from
    } else {
        match from.progress {
            ProgressView::Running(state) => run(
                Run { progress: step(state), asked: from.asked },
                replies,
                (fuel - 1) as nat,
            ),
            ProgressView::NeedsValue(_, pending) => run(
                Run {
                    progress: resume_value(pending, (replies.values)(from.asked)),
                    asked: from.asked + 1,
                },
                replies,
                (fuel - 1) as nat,
            ),
            ProgressView::NeedsEffect(_, pending) => run(
                Run {
                    progress: resume_effect(pending, (replies.effects)(from.asked)),
                    asked: from.asked + 1,
                },
                replies,
                (fuel - 1) as nat,
            ),
            _ => from,
        }
    }
}

/// The start of a run: the machine in `state`, no request made yet.
pub open spec fn start(state: State) -> Run {
    Run { progress: ProgressView::Running(state), asked: 0 }
}

/// The progress after at most `fuel` steps of the machine alone: the
/// steps stop at the first request, where the run ends, or where the fuel
/// does.
pub open spec fn advance(progress: ProgressView, fuel: nat) -> ProgressView
    decreases fuel,
{
    if fuel == 0 {
        progress
    } else {
        match progress {
            ProgressView::Running(state) => advance(step(state), (fuel - 1) as nat),
            _ => progress,
        }
    }
}

} // verus!
