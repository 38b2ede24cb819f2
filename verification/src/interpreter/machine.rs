//! The machine that runs the semantics, one step at a time.
//!
//! A caller builds a machine for an expression or a statement and calls
//! [`Machine::step`] until the run ends. Where a step asks for outside
//! work, the caller does the work and resumes the machine through the
//! waiter that came with the request.
use vstd::prelude::*;
use crate::interpreter::error::Error;
use crate::interpreter::error::Operation;
use crate::interpreter::interpreter::apply_binary;
use crate::interpreter::interpreter::enter;
use crate::interpreter::interpreter::eval;
use crate::interpreter::interpreter::execute;
use crate::interpreter::interpreter::not;
use crate::interpreter::interpreter::truth_of_value;
use crate::interpreter::interpreter::truth_value;
use crate::interpreter::interpreter::Reduction;
use crate::interpreter::render::boolean_word;
use crate::interpreter::render::integer_text;
use crate::interpreter::semantics::advance;
use crate::interpreter::semantics::completed_step;
use crate::interpreter::semantics::resume_effect;
use crate::interpreter::semantics::resume_value;
use crate::interpreter::semantics::return_step;
use crate::interpreter::semantics::EffectReply;
use crate::interpreter::semantics::ValueReply;
use crate::interpreter::semantics::step;
use crate::interpreter::semantics::value_step;
use crate::interpreter::interpreter::ControlFlow;
use crate::interpreter::interpreter::EnvValue;
use crate::interpreter::numeric::Number;
use crate::interpreter::semantics::ContView;
use crate::interpreter::semantics::ControlView;
use crate::interpreter::semantics::EffectRequestView;
use crate::interpreter::semantics::Pending;
use crate::interpreter::semantics::ProgressView;
use crate::interpreter::semantics::State;
use crate::interpreter::semantics::ValueRequestView;
use crate::ir::ast::expressions_view;
use crate::ir::ast::ArithOp;
use crate::ir::ast::BinaryOp;
use crate::ir::ast::Expression;
use crate::ir::ast::Function;
use crate::ir::ast::Name;
use crate::ir::ast::Real;
use crate::ir::ast::RelOp;
use crate::ir::ast::Statement;
use crate::ir::environment::Environment;

verus! {

/// Outside work that yields a value.
#[derive(Debug, PartialEq)]
pub enum ValueRequest {
    /// Apply the operator to the two numbers in double precision, an
    /// integer operand converted first. The answer is a real.
    Arith(ArithOp, Number, Number),
    /// Compare the two numbers in double precision, an integer operand
    /// converted first. The answer is a boolean.
    Compare(RelOp, Number, Number),
    /// Read the whole file at the path as text. The answer is a string.
    ReadFile(String),
}

/// Outside work that yields nothing but its being done.
#[derive(Debug, PartialEq)]
pub enum EffectRequest {
    /// Write the content to the file at the path, creating or truncating it.
    WriteFile(String, String),
    /// Write the text and a line end to standard output.
    PrintLine(String),
    /// Write the real, in its natural text, and a line end to standard
    /// output.
    PrintReal(Real),
}

impl View for ValueRequest {
    type V = ValueRequestView;

    open spec fn view(&self) -> ValueRequestView {
        match self {
            ValueRequest::Arith(op, lhs, rhs) => ValueRequestView::Arith(*op, *lhs, *rhs),
            ValueRequest::Compare(op, lhs, rhs) => ValueRequestView::Compare(*op, *lhs, *rhs),
            ValueRequest::ReadFile(path) => ValueRequestView::ReadFile(path@),
        }
    }
}

impl View for EffectRequest {
    type V = EffectRequestView;

    open spec fn view(&self) -> EffectRequestView {
        match self {
            EffectRequest::WriteFile(path, content) => EffectRequestView::WriteFile(path@, content@),
            EffectRequest::PrintLine(text) => EffectRequestView::PrintLine(text@),
            EffectRequest::PrintReal(number) => EffectRequestView::PrintReal(*number),
        }
    }
}

/// What is still to be done once the work under way has given its result.
#[derive(Debug, PartialEq)]
pub enum Cont {
    /// The left operand is under way; the right one comes next.
    BinaryLeft(BinaryOp, Expression),
    /// The right operand is under way; the left one gave this value.
    BinaryRight(BinaryOp, EnvValue),
    /// The operand of `not` is under way.
    Not,
    /// The path of a file to read is under way.
    ReadPath,
    /// Argument `next` of a call of `func` is under way, in the frame of
    /// the call.
    Argument { func: Function, args: Vec<Expression>, next: usize },
    /// The body of the function of this name is under way.
    Body(Name),
    /// The value to bind to the name is under way.
    Assign(Name),
    /// The condition of a conditional is under way.
    Branch(Statement, Option<Statement>),
    /// The condition of a loop is under way.
    LoopTest(Expression, Statement),
    /// The body of a loop is under way.
    LoopBody(Expression, Statement),
    /// The first statement of a sequence is under way; this one comes next.
    Then(Statement),
    /// The value to return is under way.
    ReturnValue,
    /// The path of a file to write is under way; the content comes next.
    WritePath(Expression),
    /// The content of a file to write is under way; the path gave this value.
    WriteContent(EnvValue),
    /// The value to print is under way.
    Print,
}

impl View for Cont {
    type V = ContView;

    open spec fn view(&self) -> ContView {
        match self {
            Cont::BinaryLeft(op, rhs) => ContView::BinaryLeft(*op, rhs@),
            Cont::BinaryRight(op, lhs) => ContView::BinaryRight(*op, lhs@),
            Cont::Not => ContView::Not,
            Cont::ReadPath => ContView::ReadPath,
            Cont::Argument { func, args, next } => ContView::Argument {
                func: func@,
                args: expressions_view(args@),
                next: *next as nat,
            },
            Cont::Body(name) => ContView::Body(name@),
            Cont::Assign(name) => ContView::Assign(name@),
            Cont::Branch(then_stmt, else_stmt) => ContView::Branch(
                then_stmt@,
                match else_stmt {
                    Some(else_stmt) => Some(else_stmt@),
                    None => None,
                },
            ),
            Cont::LoopTest(cond, body) => ContView::LoopTest(cond@, body@),
            Cont::LoopBody(cond, body) => ContView::LoopBody(cond@, body@),
            Cont::Then(second) => ContView::Then(second@),
            Cont::ReturnValue => ContView::ReturnValue,
            Cont::WritePath(content) => ContView::WritePath(content@),
            Cont::WriteContent(path) => ContView::WriteContent(path@),
            Cont::Print => ContView::Print,
        }
    }
}

/// The views of a stack of continuations, the innermost last.
pub open spec fn stack_view(stack: Seq<Cont>) -> Seq<ContView> {
    Seq::new(stack.len(), |i: int| stack[i]@)
}

/// What the machine is doing.
#[derive(Debug, PartialEq)]
pub enum Control {
    /// About to evaluate the expression.
    Eval(Expression),
    /// About to execute the statement.
    Exec(Statement),
    /// An expression has given this value.
    Value(EnvValue),
    /// A statement has run to its end.
    Completed,
    /// A statement has returned this value.
    Returning(EnvValue),
}

impl View for Control {
    type V = ControlView;

    open spec fn view(&self) -> ControlView {
        match self {
            Control::Eval(exp) => ControlView::Eval(exp@),
            Control::Exec(stmt) => ControlView::Exec(stmt@),
            Control::Value(value) => ControlView::Value(value@),
            Control::Completed => ControlView::Completed,
            Control::Returning(value) => ControlView::Returning(value@),
        }
    }
}

/// Puts `cont` on top of `stack`.
pub fn push_cont(stack: Vec<Cont>, cont: Cont) -> (res: Vec<Cont>)
    ensures
        stack_view(res@) == stack_view(stack@).push(cont@),
{
    let mut res = stack;
    res.push(cont);
    assert(stack_view(res@) =~= stack_view(stack@).push(cont@));
    res
}

/// A machine under way.
#[derive(Debug, PartialEq)]
pub struct Machine {
    pub env: Environment,
    pub control: Control,
    pub stack: Vec<Cont>,
}

/// A machine that waits for a value from the outside world.
#[derive(Debug, PartialEq)]
pub struct ValueWaiter {
    pub env: Environment,
    pub stack: Vec<Cont>,
}

/// A machine that waits for the outside world to do its work.
#[derive(Debug, PartialEq)]
pub struct FlowWaiter {
    pub env: Environment,
    pub stack: Vec<Cont>,
}

/// What one step gives.
#[derive(Debug, PartialEq)]
pub enum Progress {
    /// The machine goes on: step again.
    Running(Machine),
    /// The machine goes on once the waiter is given the value asked for.
    NeedsValue(ValueRequest, ValueWaiter),
    /// The machine goes on once the work asked for is done.
    NeedsEffect(EffectRequest, FlowWaiter),
    /// The run of an expression has ended with this value.
    Evaluated(EnvValue),
    /// The run of a statement has ended.
    Executed(ControlFlow),
    /// The run has failed.
    Failed(Error),
}

impl View for Machine {
    type V = State;

    open spec fn view(&self) -> State {
        State { env: self.env@, control: self.control@, stack: stack_view(self.stack@) }
    }
}

impl View for ValueWaiter {
    type V = Pending;

    open spec fn view(&self) -> Pending {
        Pending { env: self.env@, stack: stack_view(self.stack@) }
    }
}

impl View for FlowWaiter {
    type V = Pending;

    open spec fn view(&self) -> Pending {
        Pending { env: self.env@, stack: stack_view(self.stack@) }
    }
}

impl View for Progress {
    type V = ProgressView;

    open spec fn view(&self) -> ProgressView {
        match self {
            Progress::Running(machine) => ProgressView::Running(machine@),
            Progress::NeedsValue(request, waiter) => ProgressView::NeedsValue(request@, waiter@),
            Progress::NeedsEffect(request, waiter) => ProgressView::NeedsEffect(request@, waiter@),
            Progress::Evaluated(value) => ProgressView::Evaluated(value@),
            Progress::Executed(flow) => ProgressView::Executed(flow@),
            Progress::Failed(error) => ProgressView::Failed(error@),
        }
    }
}

impl Machine {
    /// The environment is a chain of frames.
    pub open spec fn wf(&self) -> bool {
        self.env.wf()
    }
}

impl ValueWaiter {
    /// The environment is a chain of frames.
    pub open spec fn wf(&self) -> bool {
        self.env.wf()
    }
}

impl FlowWaiter {
    /// The environment is a chain of frames.
    pub open spec fn wf(&self) -> bool {
        self.env.wf()
    }
}

impl Progress {
    /// What the progress holds is well formed.
    pub open spec fn wf(&self) -> bool {
        match self {
            Progress::Running(machine) => machine.wf(),
            Progress::NeedsValue(_, waiter) => waiter.wf(),
            Progress::NeedsEffect(_, waiter) => waiter.wf(),
            Progress::Executed(ControlFlow::Continue(env)) => env.wf(),
            _ => true,
        }
    }
}

/// The machine that goes on from `env` and `stack` with the given control.
pub fn running(env: Environment, control: Control, stack: Vec<Cont>) -> (res: Progress)
    requires
        env.wf(),
    ensures
        res@ == crate::interpreter::semantics::running(env@, control@, stack_view(stack@)),
        res.wf(),
{
    Progress::Running(Machine { env, control, stack })
}

/// Takes the innermost continuation off the stack.
fn pop_cont(stack: Vec<Cont>) -> (res: (Cont, Vec<Cont>))
    requires
        stack@.len() > 0,
    ensures
        res.0@ == stack_view(stack@).last(),
        stack_view(res.1@) == stack_view(stack@).drop_last(),
{
    let mut rest = stack;
    let cont = rest.pop().unwrap();
    assert(stack_view(rest@) =~= stack_view(stack@).drop_last());
    assert(cont@ == stack_view(stack@)[stack@.len() - 1]);
    (cont, rest)
}

/// The string that a value is, if it is one.
fn text_of_value(value: EnvValue) -> (res: Option<String>)
    ensures
        match res {
            Some(text) => crate::interpreter::semantics::text_of(value@) == Some(text@),
            None => crate::interpreter::semantics::text_of(value@) is None,
        },
{
    match value {
        EnvValue::Exp(Expression::CString(text)) => Some(text),
        _ => None,
    }
}

/// Hands a value to be printed to the outside world.
fn print(value: EnvValue, env: Environment, stack: Vec<Cont>) -> (res: Progress)
    requires
        env.wf(),
    ensures
        res@ == crate::interpreter::semantics::print_step(value@, env@, stack_view(stack@)),
        res.wf(),
{
    match value {
        EnvValue::Exp(Expression::CInt(i)) => Progress::NeedsEffect(
            EffectRequest::PrintLine(integer_text(i)),
            FlowWaiter { env, stack },
        ),
        EnvValue::Exp(Expression::CReal(r)) => Progress::NeedsEffect(
            EffectRequest::PrintReal(r),
            FlowWaiter { env, stack },
        ),
        EnvValue::Exp(Expression::CString(text)) => Progress::NeedsEffect(
            EffectRequest::PrintLine(text),
            FlowWaiter { env, stack },
        ),
        EnvValue::Exp(Expression::CTrue) => Progress::NeedsEffect(
            EffectRequest::PrintLine(boolean_word(true)),
            FlowWaiter { env, stack },
        ),
        EnvValue::Exp(Expression::CFalse) => Progress::NeedsEffect(
            EffectRequest::PrintLine(boolean_word(false)),
            FlowWaiter { env, stack },
        ),
        _ => Progress::Failed(Error::TypeError(Operation::Print)),
    }
}

/// Binds the parameter of the argument that gave `value`, then takes up
/// the next argument or, after the last, enters the body.
fn bind_argument(
    func: Function,
    args: Vec<Expression>,
    next: usize,
    value: EnvValue,
    env: Environment,
    stack: Vec<Cont>,
) -> (res: Progress)
    requires
        env.wf(),
    ensures
        res@ == value_step(
            Cont::Argument { func, args, next }@,
            value@,
            env@,
            stack_view(stack@),
        ),
        res.wf(),
{
    let mut env = env;
    let count = args.len();
    assert(expressions_view(args@).len() == args@.len());
    let param = match &func.params {
        Some(params) => {
            if next >= count || count != params.len() {
                return Progress::Failed(
                    Error::ArityMismatch { name: func.name, expected: params.len(), found: count },
                );
            }
            params[next].0.clone()
        },
        None => {
            return Progress::Failed(
                Error::ArityMismatch { name: func.name, expected: 0, found: count },
            );
        },
    };
    env.insert_variable(param, value);
    if next + 1 < count {
        let following = args[next + 1].clone();
        let stack = push_cont(stack, Cont::Argument { func, args, next: next + 1 });
        running(env, Control::Eval(following), stack)
    } else {
        enter(func, env, stack)
    }
}

/// One step on a value, handed to the continuation `cont` that stood on
/// top of `stack`.
pub fn give_value(cont: Cont, value: EnvValue, env: Environment, stack: Vec<Cont>) -> (res:
    Progress)
    requires
        env.wf(),
    ensures
        res@ == value_step(cont@, value@, env@, stack_view(stack@)),
        res.wf(),
{
    match cont {
        Cont::BinaryLeft(op, rhs) => {
            let stack = push_cont(stack, Cont::BinaryRight(op, value));
            running(env, Control::Eval(rhs), stack)
        },
        Cont::BinaryRight(op, lhs) => match apply_binary(op, lhs, value) {
            Ok(Reduction::Value(result)) => running(env, Control::Value(result), stack),
            Ok(Reduction::Ask(request)) => Progress::NeedsValue(request, ValueWaiter { env, stack }),
            Err(error) => Progress::Failed(error),
        },
        Cont::Not => match not(value) {
            Ok(result) => running(env, Control::Value(result), stack),
            Err(error) => Progress::Failed(error),
        },
        Cont::ReadPath => match text_of_value(value) {
            Some(path) => Progress::NeedsValue(
                ValueRequest::ReadFile(path),
                ValueWaiter { env, stack },
            ),
            None => Progress::Failed(Error::TypeError(Operation::ReadFile)),
        },
        Cont::Argument { func, args, next } => bind_argument(func, args, next, value, env, stack),
        Cont::Assign(name) => {
            let mut env = env;
            env.insert_variable(name, value);
            running(env, Control::Completed, stack)
        },
        Cont::Branch(then_stmt, else_stmt) => match truth_of_value(&value) {
            Some(true) => running(env, Control::Exec(then_stmt), stack),
            Some(false) => match else_stmt {
                Some(else_stmt) => running(env, Control::Exec(else_stmt), stack),
                None => running(env, Control::Completed, stack),
            },
            None => Progress::Failed(Error::TypeError(Operation::If)),
        },
        Cont::LoopTest(cond, body) => match truth_of_value(&value) {
            Some(true) => {
                let round = body.clone();
                let stack = push_cont(stack, Cont::LoopBody(cond, body));
                running(env, Control::Exec(round), stack)
            },
            Some(false) => running(env, Control::Completed, stack),
            None => Progress::Failed(Error::TypeError(Operation::While)),
        },
        Cont::ReturnValue => running(env, Control::Returning(value), stack),
        Cont::WritePath(content) => {
            let stack = push_cont(stack, Cont::WriteContent(value));
            running(env, Control::Eval(content), stack)
        },
        Cont::WriteContent(path) => match (text_of_value(path), text_of_value(value)) {
            (Some(path), Some(content)) => Progress::NeedsEffect(
                EffectRequest::WriteFile(path, content),
                FlowWaiter { env, stack },
            ),
            _ => Progress::Failed(Error::TypeError(Operation::WriteToFile)),
        },
        Cont::Print => print(value, env, stack),
        Cont::Body(_) | Cont::LoopBody(_, _) | Cont::Then(_) => running(
            env,
            Control::Value(value),
            stack,
        ),
    }
}

/// One step on the end of a statement, handed to the continuation `cont`
/// that stood on top of `stack`.
pub fn give_completed(cont: Cont, env: Environment, stack: Vec<Cont>) -> (res: Progress)
    requires
        env.wf(),
    ensures
        res@ == completed_step(cont@, env@, stack_view(stack@)),
        res.wf(),
{
    match cont {
        Cont::Then(second) => running(env, Control::Exec(second), stack),
        Cont::LoopBody(cond, body) => {
            let test = cond.clone();
            let stack = push_cont(stack, Cont::LoopTest(cond, body));
            running(env, Control::Eval(test), stack)
        },
        Cont::Body(name) => Progress::Failed(Error::MissingReturn(name)),
        _ => running(env, Control::Completed, stack),
    }
}

/// One step on a `return`, handed to the continuation `cont` that stood on
/// top of `stack`.
pub fn give_return(cont: Cont, value: EnvValue, env: Environment, stack: Vec<Cont>) -> (res:
    Progress)
    requires
        env.wf(),
    ensures
        res@ == return_step(cont@, value@, env@, stack_view(stack@)),
        res.wf(),
{
    match cont {
        Cont::Body(_) => {
            let mut env = env;
            env.remove_frame();
            running(env, Control::Value(value), stack)
        },
        _ => running(env, Control::Returning(value), stack),
    }
}

impl Machine {
    /// A machine that is about to evaluate `exp` in a copy of `env`.
    pub fn evaluating(exp: Expression, env: &Environment) -> (res: Machine)
        requires
            env.wf(),
        ensures
            res.wf(),
            res@ == (State { env: env@, control: ControlView::Eval(exp@), stack: Seq::empty() }),
    {
        let res = Machine { env: env.clone(), control: Control::Eval(exp), stack: Vec::new() };
        assert(stack_view(res.stack@) =~= Seq::empty());
        res
    }

    /// A machine that is about to execute `stmt` in a copy of `env`.
    pub fn executing(stmt: Statement, env: &Environment) -> (res: Machine)
        requires
            env.wf(),
        ensures
            res.wf(),
            res@ == (State { env: env@, control: ControlView::Exec(stmt@), stack: Seq::empty() }),
    {
        let res = Machine { env: env.clone(), control: Control::Exec(stmt), stack: Vec::new() };
        assert(stack_view(res.stack@) =~= Seq::empty());
        res
    }

    /// One step of the machine.
    pub fn step(self) -> (res: Progress)
        requires
            self.wf(),
        ensures
            res@ == step(self@),
            res.wf(),
    {
        let Machine { env, control, stack } = self;
        match control {
            Control::Eval(exp) => eval(exp, env, stack),
            Control::Exec(stmt) => execute(stmt, env, stack),
            Control::Value(value) => {
                if stack.len() == 0 {
                    Progress::Evaluated(value)
                } else {
                    let (cont, rest) = pop_cont(stack);
                    give_value(cont, value, env, rest)
                }
            },
            Control::Completed => {
                if stack.len() == 0 {
                    Progress::Executed(ControlFlow::Continue(env))
                } else {
                    let (cont, rest) = pop_cont(stack);
                    give_completed(cont, env, rest)
                }
            },
            Control::Returning(value) => {
                if stack.len() == 0 {
                    Progress::Executed(ControlFlow::Return(value))
                } else {
                    let (cont, rest) = pop_cont(stack);
                    give_return(cont, value, env, rest)
                }
            },
        }
    }
}

impl Machine {
    /// Steps the machine until it asks for outside work or the run ends,
    /// `budget` times at most.
    pub fn advance(self, budget: u64) -> (res: Progress)
        requires
            self.wf(),
        ensures
            res@ == advance(ProgressView::Running(self@), budget as nat),
            res.wf(),
    {
        let ghost whole = ProgressView::Running(self@);
        let mut progress = Progress::Running(self);
        let mut left = budget;
        while left > 0
            invariant
                progress.wf(),
                whole == ProgressView::Running(self@),
                advance(progress@, left as nat) == advance(whole, budget as nat),
            decreases left,
        {
            match progress {
                Progress::Running(machine) => {
                    progress = machine.step();
                },
                other => {
                    return other;
                },
            }
            left = left - 1;
        }
        progress
    }
}

impl ValueWaiter {
    /// Goes on with the real that the outside world computed.
    pub fn supply_real(self, answer: Real) -> (res: Progress)
        requires
            self.wf(),
        ensures
            res@ == resume_value(self@, ValueReply::Real(answer)),
            res.wf(),
    {
        running(self.env, Control::Value(EnvValue::Exp(Expression::CReal(answer))), self.stack)
    }

    /// Goes on with the boolean that the outside world found.
    pub fn supply_truth(self, answer: bool) -> (res: Progress)
        requires
            self.wf(),
        ensures
            res@ == resume_value(self@, ValueReply::Truth(answer)),
            res.wf(),
    {
        running(self.env, Control::Value(truth_value(answer)), self.stack)
    }

    /// Goes on with the text that the outside world read.
    pub fn supply_text(self, answer: String) -> (res: Progress)
        requires
            self.wf(),
        ensures
            res@ == resume_value(self@, ValueReply::Text(answer@)),
            res.wf(),
    {
        running(self.env, Control::Value(EnvValue::Exp(Expression::CString(answer))), self.stack)
    }

    /// Ends the run: the outside world failed, with this message.
    pub fn fail(self, message: String) -> (res: Progress)
        ensures
            res@ == resume_value(self@, ValueReply::Failure(message@)),
            res.wf(),
    {
        Progress::Failed(Error::IoFailure(message))
    }
}

impl FlowWaiter {
    /// Goes on: the outside world has done the work.
    pub fn proceed(self) -> (res: Progress)
        requires
            self.wf(),
        ensures
            res@ == resume_effect(self@, EffectReply::Done),
            res.wf(),
    {
        running(self.env, Control::Completed, self.stack)
    }

    /// Ends the run: the outside world failed, with this message.
    pub fn fail(self, message: String) -> (res: Progress)
        ensures
            res@ == resume_effect(self@, EffectReply::Failure(message@)),
            res.wf(),
    {
        Progress::Failed(Error::IoFailure(message))
    }
}

} // verus!
