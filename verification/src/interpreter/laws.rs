//! Laws of the semantics.
use vstd::prelude::*;
use crate::interpreter::error::ErrorView;
use crate::interpreter::interpreter::ControlFlowView;
use crate::interpreter::interpreter::ValueView;
use crate::interpreter::semantics::advance;
use crate::interpreter::semantics::call_step;
use crate::interpreter::semantics::combine;
use crate::interpreter::semantics::completed_step;
use crate::interpreter::semantics::enter_step;
use crate::interpreter::semantics::eval_step;
use crate::interpreter::semantics::execute_step;
use crate::interpreter::semantics::number_of;
use crate::interpreter::semantics::print_step;
use crate::interpreter::semantics::text_of;
use crate::interpreter::semantics::truth;
use crate::interpreter::semantics::EffectRequestView;
use crate::interpreter::semantics::running;
use crate::interpreter::semantics::truth_of;
use crate::interpreter::semantics::resume_effect;
use crate::interpreter::semantics::resume_value;
use crate::interpreter::semantics::run;
use crate::interpreter::semantics::start;
use crate::interpreter::semantics::step;
use crate::interpreter::semantics::value_step;
use crate::interpreter::semantics::Combined;
use crate::interpreter::semantics::ContView;
use crate::interpreter::semantics::ControlView;
use crate::interpreter::semantics::Pending;
use crate::interpreter::semantics::ProgressView;
use crate::interpreter::semantics::Replies;
use crate::interpreter::semantics::ValueReply;
use crate::interpreter::semantics::Run;
use crate::interpreter::semantics::State;
use crate::interpreter::semantics::ValueRequestView;
use crate::ir::ast::ArithOp;
use crate::ir::ast::BinaryOp;
use crate::ir::ast::Constant;
use crate::ir::ast::ExpressionView;
use crate::ir::ast::FunctionView;
use crate::ir::ast::StatementView;
use crate::ir::environment::declare;
use crate::ir::environment::pop_scope;
use crate::ir::environment::push_scope;
use crate::ir::environment::resolve;
use crate::ir::environment::Scopes;

verus! {

/// The progress with `base` put under its stack. A run that has ended has
/// no stack and stays as it is.
pub open spec fn under(progress: ProgressView, base: Seq<ContView>) -> ProgressView {
    match progress {
        ProgressView::Running(state) => ProgressView::Running(
            State { env: state.env, control: state.control, stack: base + state.stack },
        ),
        ProgressView::NeedsValue(request, pending) => ProgressView::NeedsValue(
            request,
            Pending { env: pending.env, stack: base + pending.stack },
        ),
        ProgressView::NeedsEffect(request, pending) => ProgressView::NeedsEffect(
            request,
            Pending { env: pending.env, stack: base + pending.stack },
        ),
        other => other,
    }
}

/// The run has ended with a value or with a control flow.
pub open spec fn finished(progress: ProgressView) -> bool {
    progress is Evaluated || progress is Executed
}

proof fn lemma_push_under(base: Seq<ContView>, stack: Seq<ContView>, cont: ContView)
    ensures
        (base + stack).push(cont) == base + stack.push(cont),
{
    assert((base + stack).push(cont) =~= base + stack.push(cont));
}

proof fn lemma_enter_under(func: FunctionView, env: Scopes, stack: Seq<ContView>, base: Seq<ContView>)
    ensures
        enter_step(func, env, base + stack) == under(enter_step(func, env, stack), base),
{
    lemma_push_under(base, stack, ContView::Body(func.name));
}

proof fn lemma_call_under(
    name: Seq<char>,
    args: Seq<ExpressionView>,
    env: Scopes,
    stack: Seq<ContView>,
    base: Seq<ContView>,
)
    ensures
        call_step(name, args, env, base + stack) == under(call_step(name, args, env, stack), base),
{
    match crate::ir::environment::resolve(env, name) {
        Some(ValueView::Function(func)) => {
            lemma_enter_under(func, crate::ir::environment::push_scope(env), stack, base);
            lemma_push_under(base, stack, ContView::Argument { func, args, next: 0 });
        },
        _ => {},
    }
}

proof fn lemma_eval_under(exp: ExpressionView, env: Scopes, stack: Seq<ContView>, base: Seq<ContView>)
    ensures
        eval_step(exp, env, base + stack) == under(eval_step(exp, env, stack), base),
{
    match exp {
        ExpressionView::FuncCall(name, args) => {
            lemma_call_under(name, args, env, stack, base);
        },
        ExpressionView::ReadFile(path) => {
            lemma_push_under(base, stack, ContView::ReadPath);
        },
        ExpressionView::Binary(op, lhs, rhs) => {
            lemma_push_under(base, stack, ContView::BinaryLeft(op, *rhs));
        },
        ExpressionView::Not(operand) => {
            lemma_push_under(base, stack, ContView::Not);
        },
        _ => {},
    }
}

proof fn lemma_execute_under(
    stmt: StatementView,
    env: Scopes,
    stack: Seq<ContView>,
    base: Seq<ContView>,
)
    ensures
        execute_step(stmt, env, base + stack) == under(execute_step(stmt, env, stack), base),
{
    match stmt {
        StatementView::Assignment(name, exp, _) => {
            lemma_push_under(base, stack, ContView::Assign(name));
        },
        StatementView::IfThenElse(cond, then_stmt, else_stmt) => {
            lemma_push_under(
                base,
                stack,
                ContView::Branch(
                    *then_stmt,
                    match else_stmt {
                        Some(else_stmt) => Some(*else_stmt),
                        None => None,
                    },
                ),
            );
        },
        StatementView::While(cond, body) => {
            lemma_push_under(base, stack, ContView::LoopTest(cond, *body));
        },
        StatementView::Sequence(first, second) => {
            lemma_push_under(base, stack, ContView::Then(*second));
        },
        StatementView::FuncDef(func) => {},
        StatementView::Return(exp) => {
            lemma_push_under(base, stack, ContView::ReturnValue);
        },
        StatementView::WriteToFile(path, content) => {
            lemma_push_under(base, stack, ContView::WritePath(content));
        },
        StatementView::Print(exp) => {
            lemma_push_under(base, stack, ContView::Print);
        },
    }
}

proof fn lemma_value_under(
    cont: ContView,
    value: ValueView,
    env: Scopes,
    stack: Seq<ContView>,
    base: Seq<ContView>,
)
    ensures
        value_step(cont, value, env, base + stack) == under(
            value_step(cont, value, env, stack),
            base,
        ),
{
    match cont {
        ContView::BinaryLeft(op, rhs) => {
            lemma_push_under(base, stack, ContView::BinaryRight(op, value));
        },
        ContView::Argument { func, args, next } => {
            let bound = crate::ir::environment::declare(env, func.param_names()[next as int], value);
            lemma_push_under(base, stack, ContView::Argument { func, args, next: next + 1 });
            lemma_enter_under(func, bound, stack, base);
        },
        ContView::LoopTest(cond, body) => {
            lemma_push_under(base, stack, ContView::LoopBody(cond, body));
        },
        ContView::WritePath(content) => {
            lemma_push_under(base, stack, ContView::WriteContent(value));
        },
        _ => {},
    }
}

proof fn lemma_completed_under(cont: ContView, env: Scopes, stack: Seq<ContView>, base: Seq<ContView>)
    ensures
        completed_step(cont, env, base + stack) == under(completed_step(cont, env, stack), base),
{
    match cont {
        ContView::LoopBody(cond, body) => {
            lemma_push_under(base, stack, ContView::LoopTest(cond, body));
        },
        _ => {},
    }
}

/// One step looks at the innermost continuation only: what lies under the
/// stack is carried along. This holds of every state but one whose step
/// ends the run for want of a continuation.
pub proof fn lemma_step_under(state: State, base: Seq<ContView>)
    requires
        !finished(step(state)),
    ensures
        step(State { env: state.env, control: state.control, stack: base + state.stack }) == under(
            step(state),
            base,
        ),
{
    let stack = state.stack;
    match state.control {
        ControlView::Eval(exp) => {
            lemma_eval_under(exp, state.env, stack, base);
        },
        ControlView::Exec(stmt) => {
            lemma_execute_under(stmt, state.env, stack, base);
        },
        ControlView::Value(value) => {
            assert((base + stack).drop_last() =~= base + stack.drop_last());
            lemma_value_under(stack.last(), value, state.env, stack.drop_last(), base);
        },
        ControlView::Completed => {
            assert((base + stack).drop_last() =~= base + stack.drop_last());
            lemma_completed_under(stack.last(), state.env, stack.drop_last(), base);
        },
        ControlView::Returning(value) => {
            assert((base + stack).drop_last() =~= base + stack.drop_last());
        },
    }
}

/// A run looks at its own stack only. Where a run has not ended with a
/// value or a control flow after `fuel` moves, the same run with `base`
/// under its stack makes the same moves and the same requests, and ends
/// where the first one does but for `base` under the stack.
pub proof fn lemma_run_under(
    from: Run,
    replies: Replies,
    fuel: nat,
    base: Seq<ContView>,
)
    requires
        !finished(run(from, replies, fuel).progress),
    ensures
        run(Run { progress: under(from.progress, base), asked: from.asked }, replies, fuel) == (Run {
            progress: under(run(from, replies, fuel).progress, base),
            asked: run(from, replies, fuel).asked,
        }),
    decreases fuel,
{
    if fuel > 0 {
        match from.progress {
            ProgressView::Running(state) => {
                let next = Run { progress: step(state), asked: from.asked };
                if finished(step(state)) {
                    assert(run(next, replies, (fuel - 1) as nat) == next) by {
                        reveal_with_fuel(run, 2);
                    }
                }
                lemma_step_under(state, base);
                lemma_run_under(next, replies, (fuel - 1) as nat, base);
            },
            ProgressView::NeedsValue(_, pending) => {
                let next = Run {
                    progress: resume_value(pending, (replies.values)(from.asked)),
                    asked: from.asked + 1,
                };
                lemma_run_under(next, replies, (fuel - 1) as nat, base);
            },
            ProgressView::NeedsEffect(_, pending) => {
                let next = Run {
                    progress: resume_effect(pending, (replies.effects)(from.asked)),
                    asked: from.asked + 1,
                };
                lemma_run_under(next, replies, (fuel - 1) as nat, base);
            },
            _ => {},
        }
    }
}

/// A run of `first + second` moves is a run of `first` moves followed by a
/// run of `second` moves.
pub proof fn lemma_run_split(from: Run, replies: Replies, first: nat, second: nat)
    ensures
        run(from, replies, first + second) == run(run(from, replies, first), replies, second),
    decreases first,
{
    if first > 0 {
        match from.progress {
            ProgressView::Running(state) => {
                lemma_run_split(
                    Run { progress: step(state), asked: from.asked },
                    replies,
                    (first - 1) as nat,
                    second,
                );
            },
            ProgressView::NeedsValue(_, pending) => {
                lemma_run_split(
                    Run {
                        progress: resume_value(pending, (replies.values)(from.asked)),
                        asked: from.asked + 1,
                    },
                    replies,
                    (first - 1) as nat,
                    second,
                );
            },
            ProgressView::NeedsEffect(_, pending) => {
                lemma_run_split(
                    Run {
                        progress: resume_effect(pending, (replies.effects)(from.asked)),
                        asked: from.asked + 1,
                    },
                    replies,
                    (first - 1) as nat,
                    second,
                );
            },
            _ => {
                lemma_run_ended(from, replies, second);
            },
        }
    }
}

/// A run that has ended stays where it is.
pub proof fn lemma_run_ended(from: Run, replies: Replies, fuel: nat)
    requires
        finished(from.progress) || from.progress is Failed,
    ensures
        run(from, replies, fuel) == from,
{
}

/// The run that stands at the given state, `asked` requests made so far.
pub open spec fn at(env: Scopes, control: ControlView, stack: Seq<ContView>, asked: nat) -> Run {
    Run { progress: running(env, control, stack), asked }
}

/// One move of a machine under way is one step.
pub proof fn lemma_one_step(state: State, asked: nat, replies: Replies)
    ensures
        run(Run { progress: ProgressView::Running(state), asked }, replies, 1) == (Run {
            progress: step(state),
            asked,
        }),
{
    reveal_with_fuel(run, 2);
}

/// What a piece of work does alone, it does with any stack under it: a
/// run that goes from one state with an empty stack to another goes the
/// same way, in as many moves and with the same requests, on top of
/// `stack`.
pub proof fn lemma_alone_then_under(
    env: Scopes,
    control: ControlView,
    asked: nat,
    replies: Replies,
    fuel: nat,
    end_env: Scopes,
    end_control: ControlView,
    end_asked: nat,
    stack: Seq<ContView>,
)
    requires
        run(at(env, control, Seq::empty(), asked), replies, fuel) == at(
            end_env,
            end_control,
            Seq::empty(),
            end_asked,
        ),
    ensures
        run(at(env, control, stack, asked), replies, fuel) == at(
            end_env,
            end_control,
            stack,
            end_asked,
        ),
{
    lemma_run_under(at(env, control, Seq::empty(), asked), replies, fuel, stack);
    assert(stack + Seq::<ContView>::empty() =~= stack);
}

/// A run that fails alone fails with any stack under it, in as many moves
/// and with the same error.
pub proof fn lemma_fails_under(
    env: Scopes,
    control: ControlView,
    asked: nat,
    replies: Replies,
    fuel: nat,
    error: ErrorView,
    stack: Seq<ContView>,
)
    requires
        run(at(env, control, Seq::empty(), asked), replies, fuel).progress == ProgressView::Failed(
            error,
        ),
    ensures
        run(at(env, control, stack, asked), replies, fuel).progress == ProgressView::Failed(error),
{
    lemma_run_under(at(env, control, Seq::empty(), asked), replies, fuel, stack);
    assert(stack + Seq::<ContView>::empty() =~= stack);
}

/// Evaluating a constant takes two steps, asks nothing of the outside
/// world and gives the constant itself, whatever the environment holds.
/// Evaluating it again gives the same.
pub proof fn lemma_constant_evaluates_to_itself(
    constant: Constant,
    env: Scopes,
    replies: Replies,
)
    ensures
        run(
            start(
                State {
                    env,
                    control: ControlView::Eval(ExpressionView::Constant(constant)),
                    stack: Seq::empty(),
                },
            ),
            replies,
            2,
        ) == (Run { progress: ProgressView::Evaluated(ValueView::Constant(constant)), asked: 0 }),
{
    reveal_with_fuel(run, 3);
}

/// A binary operator evaluates its left operand first and then, whatever
/// value that gave, its right operand: no operator stops at a left
/// operand that settles the result. Where the left operand alone runs
/// from `env` to the value `left` in `fuel` moves, the operator on top of
/// `stack` stands, two moves later, at the right operand.
pub proof fn lemma_right_operand_follows(
    op: BinaryOp,
    lhs: ExpressionView,
    rhs: ExpressionView,
    env: Scopes,
    asked: nat,
    replies: Replies,
    fuel: nat,
    left_env: Scopes,
    left: ValueView,
    left_asked: nat,
    stack: Seq<ContView>,
)
    requires
        run(at(env, ControlView::Eval(lhs), Seq::empty(), asked), replies, fuel) == at(
            left_env,
            ControlView::Value(left),
            Seq::empty(),
            left_asked,
        ),
    ensures
        run(
            at(
                env,
                ControlView::Eval(ExpressionView::Binary(op, Box::new(lhs), Box::new(rhs))),
                stack,
                asked,
            ),
            replies,
            fuel + 2,
        ) == at(
            left_env,
            ControlView::Eval(rhs),
            stack.push(ContView::BinaryRight(op, left)),
            left_asked,
        ),
{
    let whole = ControlView::Eval(ExpressionView::Binary(op, Box::new(lhs), Box::new(rhs)));
    let waiting = stack.push(ContView::BinaryLeft(op, rhs));
    lemma_one_step(State { env, control: whole, stack }, asked, replies);
    lemma_alone_then_under(
        env,
        ControlView::Eval(lhs),
        asked,
        replies,
        fuel,
        left_env,
        ControlView::Value(left),
        left_asked,
        waiting,
    );
    lemma_one_step(
        State { env: left_env, control: ControlView::Value(left), stack: waiting },
        left_asked,
        replies,
    );
    assert(waiting.drop_last() =~= stack);
    lemma_run_split(at(env, whole, stack, asked), replies, 1, fuel);
    lemma_run_split(at(env, whole, stack, asked), replies, 1 + fuel, 1);
}

/// An error in the right operand of a binary operator comes to light
/// whatever the left operand gave, also where the left operand alone
/// settles the result of `and` or `or`.
pub proof fn lemma_right_operand_error_surfaces(
    op: BinaryOp,
    lhs: ExpressionView,
    rhs: ExpressionView,
    env: Scopes,
    asked: nat,
    replies: Replies,
    fuel: nat,
    left_env: Scopes,
    left: ValueView,
    left_asked: nat,
    right_fuel: nat,
    error: ErrorView,
    stack: Seq<ContView>,
)
    requires
        run(at(env, ControlView::Eval(lhs), Seq::empty(), asked), replies, fuel) == at(
            left_env,
            ControlView::Value(left),
            Seq::empty(),
            left_asked,
        ),
        run(
            at(left_env, ControlView::Eval(rhs), Seq::empty(), left_asked),
            replies,
            right_fuel,
        ).progress == ProgressView::Failed(error),
    ensures
        run(
            at(
                env,
                ControlView::Eval(ExpressionView::Binary(op, Box::new(lhs), Box::new(rhs))),
                stack,
                asked,
            ),
            replies,
            fuel + 2 + right_fuel,
        ).progress == ProgressView::Failed(error),
{
    let whole = ControlView::Eval(ExpressionView::Binary(op, Box::new(lhs), Box::new(rhs)));
    lemma_right_operand_follows(
        op,
        lhs,
        rhs,
        env,
        asked,
        replies,
        fuel,
        left_env,
        left,
        left_asked,
        stack,
    );
    lemma_fails_under(
        left_env,
        ControlView::Eval(rhs),
        left_asked,
        replies,
        right_fuel,
        error,
        stack.push(ContView::BinaryRight(op, left)),
    );
    lemma_run_split(at(env, whole, stack, asked), replies, fuel + 2, right_fuel);
}

/// What the machine does with what a binary operator made of two values.
pub open spec fn combined_progress(combined: Combined, env: Scopes, stack: Seq<ContView>) -> ProgressView {
    match combined {
        Combined::Value(result) => running(env, ControlView::Value(result), stack),
        Combined::Ask(request) => ProgressView::NeedsValue(request, Pending { env, stack }),
        Combined::Fail(error) => ProgressView::Failed(error),
    }
}

/// A binary operator evaluates its left operand, then its right operand,
/// and then combines the two values.
pub proof fn lemma_binary_combines(
    op: BinaryOp,
    lhs: ExpressionView,
    rhs: ExpressionView,
    env: Scopes,
    asked: nat,
    replies: Replies,
    fuel: nat,
    left_env: Scopes,
    left: ValueView,
    left_asked: nat,
    right_fuel: nat,
    right_env: Scopes,
    right: ValueView,
    right_asked: nat,
    stack: Seq<ContView>,
)
    requires
        run(at(env, ControlView::Eval(lhs), Seq::empty(), asked), replies, fuel) == at(
            left_env,
            ControlView::Value(left),
            Seq::empty(),
            left_asked,
        ),
        run(
            at(left_env, ControlView::Eval(rhs), Seq::empty(), left_asked),
            replies,
            right_fuel,
        ) == at(right_env, ControlView::Value(right), Seq::empty(), right_asked),
    ensures
        run(
            at(
                env,
                ControlView::Eval(ExpressionView::Binary(op, Box::new(lhs), Box::new(rhs))),
                stack,
                asked,
            ),
            replies,
            fuel + 2 + right_fuel + 1,
        ) == (Run {
            progress: combined_progress(combine(op, left, right), right_env, stack),
            asked: right_asked,
        }),
{
    let whole = ControlView::Eval(ExpressionView::Binary(op, Box::new(lhs), Box::new(rhs)));
    let waiting = stack.push(ContView::BinaryRight(op, left));
    lemma_right_operand_follows(
        op,
        lhs,
        rhs,
        env,
        asked,
        replies,
        fuel,
        left_env,
        left,
        left_asked,
        stack,
    );
    lemma_alone_then_under(
        left_env,
        ControlView::Eval(rhs),
        left_asked,
        replies,
        right_fuel,
        right_env,
        ControlView::Value(right),
        right_asked,
        waiting,
    );
    lemma_one_step(
        State { env: right_env, control: ControlView::Value(right), stack: waiting },
        right_asked,
        replies,
    );
    assert(waiting.drop_last() =~= stack);
    lemma_run_split(at(env, whole, stack, asked), replies, fuel + 2, right_fuel);
    lemma_run_split(at(env, whole, stack, asked), replies, fuel + 2 + right_fuel, 1);
}

/// Arithmetic on an integer and a real, or on two reals, gives a real: the
/// outside world is asked for it, and its answer comes back as a real
/// constant.
pub proof fn lemma_mixed_arithmetic_is_real(
    op: ArithOp,
    lhs: ValueView,
    rhs: ValueView,
    env: Scopes,
    stack: Seq<ContView>,
    answer: crate::ir::ast::Real,
)
    requires
        number_of(lhs) is Some,
        number_of(rhs) is Some,
        number_of(lhs)->0 is Real || number_of(rhs)->0 is Real,
    ensures
        combine(BinaryOp::Arith(op), lhs, rhs) == Combined::Ask(
            ValueRequestView::Arith(op, number_of(lhs)->0, number_of(rhs)->0),
        ),
        resume_value(Pending { env, stack }, ValueReply::Real(answer)) == running(
            env,
            ControlView::Value(ValueView::Constant(Constant::Real(answer))),
            stack,
        ),
{
}

/// An assignment evaluates its expression and binds the name to the value
/// in the current frame. Where the expression alone runs from `env` to
/// `value`, the assignment on top of `stack` has run to its end two
/// moves later.
pub proof fn lemma_assignment_binds(
    name: Seq<char>,
    exp: ExpressionView,
    kind: Option<crate::ir::ast::Type>,
    env: Scopes,
    asked: nat,
    replies: Replies,
    fuel: nat,
    end_env: Scopes,
    value: ValueView,
    end_asked: nat,
    stack: Seq<ContView>,
)
    requires
        run(at(env, ControlView::Eval(exp), Seq::empty(), asked), replies, fuel) == at(
            end_env,
            ControlView::Value(value),
            Seq::empty(),
            end_asked,
        ),
    ensures
        run(
            at(env, ControlView::Exec(StatementView::Assignment(name, exp, kind)), stack, asked),
            replies,
            fuel + 2,
        ) == at(declare(end_env, name, value), ControlView::Completed, stack, end_asked),
{
    let whole = ControlView::Exec(StatementView::Assignment(name, exp, kind));
    let waiting = stack.push(ContView::Assign(name));
    lemma_one_step(State { env, control: whole, stack }, asked, replies);
    lemma_alone_then_under(
        env,
        ControlView::Eval(exp),
        asked,
        replies,
        fuel,
        end_env,
        ControlView::Value(value),
        end_asked,
        waiting,
    );
    lemma_one_step(
        State { env: end_env, control: ControlView::Value(value), stack: waiting },
        end_asked,
        replies,
    );
    assert(waiting.drop_last() =~= stack);
    lemma_run_split(at(env, whole, stack, asked), replies, 1, fuel);
    lemma_run_split(at(env, whole, stack, asked), replies, 1 + fuel, 1);
}

/// A variable evaluates, in one step, to the value its name resolves to;
/// a name that no frame of the chain binds is an error.
pub proof fn lemma_variable_resolves(
    name: Seq<char>,
    env: Scopes,
    stack: Seq<ContView>,
    asked: nat,
    replies: Replies,
)
    ensures
        run(at(env, ControlView::Eval(ExpressionView::Var(name)), stack, asked), replies, 1) == (Run {
            progress: match resolve(env, name) {
                Some(value) => running(env, ControlView::Value(value), stack),
                None => ProgressView::Failed(ErrorView::UndefinedName(name)),
            },
            asked,
        }),
{
    lemma_one_step(
        State { env, control: ControlView::Eval(ExpressionView::Var(name)), stack },
        asked,
        replies,
    );
}

/// What is assigned is what is read back: after a constant is assigned to
/// a name, the name evaluates to that constant.
pub proof fn lemma_assign_then_read(
    name: Seq<char>,
    constant: Constant,
    kind: Option<crate::ir::ast::Type>,
    env: Scopes,
    replies: Replies,
)
    requires
        env.len() > 0,
    ensures
        ({
            let assigned = run(
                start(
                    State {
                        env,
                        control: ControlView::Exec(
                            StatementView::Assignment(name, ExpressionView::Constant(constant), kind),
                        ),
                        stack: Seq::empty(),
                    },
                ),
                replies,
                4,
            );
            let after = declare(env, name, ValueView::Constant(constant));
            &&& assigned == (Run {
                progress: ProgressView::Executed(ControlFlowView::Continue(after)),
                asked: 0,
            })
            &&& run(
                start(
                    State {
                        env: after,
                        control: ControlView::Eval(ExpressionView::Var(name)),
                        stack: Seq::empty(),
                    },
                ),
                replies,
                2,
            ) == (Run { progress: ProgressView::Evaluated(ValueView::Constant(constant)), asked: 0 })
        }),
{
    reveal_with_fuel(run, 5);
    let after = declare(env, name, ValueView::Constant(constant));
    let waiting = Seq::<ContView>::empty().push(ContView::Assign(name));
    assert(waiting.drop_last() =~= Seq::<ContView>::empty());
    crate::ir::environment::lemma_declare_then_resolve(env, name, ValueView::Constant(constant));
}

/// A sequence executes its first statement and, where that runs to its
/// end, goes on with the second in the environment the first has left.
pub proof fn lemma_sequence_goes_on(
    first: StatementView,
    second: StatementView,
    env: Scopes,
    asked: nat,
    replies: Replies,
    fuel: nat,
    end_env: Scopes,
    end_asked: nat,
    stack: Seq<ContView>,
)
    requires
        run(at(env, ControlView::Exec(first), Seq::empty(), asked), replies, fuel) == at(
            end_env,
            ControlView::Completed,
            Seq::empty(),
            end_asked,
        ),
    ensures
        run(
            at(
                env,
                ControlView::Exec(StatementView::Sequence(Box::new(first), Box::new(second))),
                stack,
                asked,
            ),
            replies,
            fuel + 2,
        ) == at(end_env, ControlView::Exec(second), stack, end_asked),
{
    let whole = ControlView::Exec(StatementView::Sequence(Box::new(first), Box::new(second)));
    let waiting = stack.push(ContView::Then(second));
    lemma_one_step(State { env, control: whole, stack }, asked, replies);
    lemma_alone_then_under(
        env,
        ControlView::Exec(first),
        asked,
        replies,
        fuel,
        end_env,
        ControlView::Completed,
        end_asked,
        waiting,
    );
    lemma_one_step(
        State { env: end_env, control: ControlView::Completed, stack: waiting },
        end_asked,
        replies,
    );
    assert(waiting.drop_last() =~= stack);
    lemma_run_split(at(env, whole, stack, asked), replies, 1, fuel);
    lemma_run_split(at(env, whole, stack, asked), replies, 1 + fuel, 1);
}

/// A sequence whose first statement returns a value returns that value:
/// the second statement does not run.
pub proof fn lemma_sequence_returns_early(
    first: StatementView,
    second: StatementView,
    env: Scopes,
    asked: nat,
    replies: Replies,
    fuel: nat,
    end_env: Scopes,
    value: ValueView,
    end_asked: nat,
    stack: Seq<ContView>,
)
    requires
        run(at(env, ControlView::Exec(first), Seq::empty(), asked), replies, fuel) == at(
            end_env,
            ControlView::Returning(value),
            Seq::empty(),
            end_asked,
        ),
    ensures
        run(
            at(
                env,
                ControlView::Exec(StatementView::Sequence(Box::new(first), Box::new(second))),
                stack,
                asked,
            ),
            replies,
            fuel + 2,
        ) == at(end_env, ControlView::Returning(value), stack, end_asked),
{
    let whole = ControlView::Exec(StatementView::Sequence(Box::new(first), Box::new(second)));
    let waiting = stack.push(ContView::Then(second));
    lemma_one_step(State { env, control: whole, stack }, asked, replies);
    lemma_alone_then_under(
        env,
        ControlView::Exec(first),
        asked,
        replies,
        fuel,
        end_env,
        ControlView::Returning(value),
        end_asked,
        waiting,
    );
    lemma_one_step(
        State { env: end_env, control: ControlView::Returning(value), stack: waiting },
        end_asked,
        replies,
    );
    assert(waiting.drop_last() =~= stack);
    lemma_run_split(at(env, whole, stack, asked), replies, 1, fuel);
    lemma_run_split(at(env, whole, stack, asked), replies, 1 + fuel, 1);
}

/// Where a conditional goes once its condition has given `value`: to the
/// first branch on true, to the second on false, to its end on false with
/// no second branch; a condition that is no boolean is a type error.
pub open spec fn branch_taken(
    value: ValueView,
    then_stmt: StatementView,
    else_stmt: Option<StatementView>,
    env: Scopes,
    stack: Seq<ContView>,
) -> ProgressView {
    match truth_of(value) {
        Some(true) => running(env, ControlView::Exec(then_stmt), stack),
        Some(false) => match else_stmt {
            Some(else_stmt) => running(env, ControlView::Exec(else_stmt), stack),
            None => running(env, ControlView::Completed, stack),
        },
        None => ProgressView::Failed(
            ErrorView::TypeError(crate::interpreter::error::Operation::If),
        ),
    }
}

/// A conditional evaluates its condition and takes the branch that the
/// value picks.
pub proof fn lemma_conditional_branches(
    cond: ExpressionView,
    then_stmt: StatementView,
    else_stmt: Option<StatementView>,
    env: Scopes,
    asked: nat,
    replies: Replies,
    fuel: nat,
    end_env: Scopes,
    value: ValueView,
    end_asked: nat,
    stack: Seq<ContView>,
)
    requires
        run(at(env, ControlView::Eval(cond), Seq::empty(), asked), replies, fuel) == at(
            end_env,
            ControlView::Value(value),
            Seq::empty(),
            end_asked,
        ),
    ensures
        run(
            at(
                env,
                ControlView::Exec(
                    StatementView::IfThenElse(
                        cond,
                        Box::new(then_stmt),
                        match else_stmt {
                            Some(else_stmt) => Some(Box::new(else_stmt)),
                            None => None,
                        },
                    ),
                ),
                stack,
                asked,
            ),
            replies,
            fuel + 2,
        ) == (Run {
            progress: branch_taken(value, then_stmt, else_stmt, end_env, stack),
            asked: end_asked,
        }),
{
    let whole = ControlView::Exec(
        StatementView::IfThenElse(
            cond,
            Box::new(then_stmt),
            match else_stmt {
                Some(else_stmt) => Some(Box::new(else_stmt)),
                None => None,
            },
        ),
    );
    let waiting = stack.push(ContView::Branch(then_stmt, else_stmt));
    lemma_one_step(State { env, control: whole, stack }, asked, replies);
    lemma_alone_then_under(
        env,
        ControlView::Eval(cond),
        asked,
        replies,
        fuel,
        end_env,
        ControlView::Value(value),
        end_asked,
        waiting,
    );
    lemma_one_step(
        State { env: end_env, control: ControlView::Value(value), stack: waiting },
        end_asked,
        replies,
    );
    assert(waiting.drop_last() =~= stack);
    lemma_run_split(at(env, whole, stack, asked), replies, 1, fuel);
    lemma_run_split(at(env, whole, stack, asked), replies, 1 + fuel, 1);
}

/// Where a loop goes once its condition has given `value`: into its body
/// on true, to its end on false; a condition that is no boolean is a type
/// error.
pub open spec fn loop_taken(
    value: ValueView,
    cond: ExpressionView,
    body: StatementView,
    env: Scopes,
    stack: Seq<ContView>,
) -> ProgressView {
    match truth_of(value) {
        Some(true) => running(
            env,
            ControlView::Exec(body),
            stack.push(ContView::LoopBody(cond, body)),
        ),
        Some(false) => running(env, ControlView::Completed, stack),
        None => ProgressView::Failed(
            ErrorView::TypeError(crate::interpreter::error::Operation::While),
        ),
    }
}

/// A loop evaluates its condition; on false it ends and leaves the
/// environment as the condition left it, on true it executes its body.
pub proof fn lemma_loop_tests(
    cond: ExpressionView,
    body: StatementView,
    env: Scopes,
    asked: nat,
    replies: Replies,
    fuel: nat,
    end_env: Scopes,
    value: ValueView,
    end_asked: nat,
    stack: Seq<ContView>,
)
    requires
        run(at(env, ControlView::Eval(cond), Seq::empty(), asked), replies, fuel) == at(
            end_env,
            ControlView::Value(value),
            Seq::empty(),
            end_asked,
        ),
    ensures
        run(
            at(env, ControlView::Exec(StatementView::While(cond, Box::new(body))), stack, asked),
            replies,
            fuel + 2,
        ) == (Run { progress: loop_taken(value, cond, body, end_env, stack), asked: end_asked }),
{
    let whole = ControlView::Exec(StatementView::While(cond, Box::new(body)));
    let waiting = stack.push(ContView::LoopTest(cond, body));
    lemma_one_step(State { env, control: whole, stack }, asked, replies);
    lemma_alone_then_under(
        env,
        ControlView::Eval(cond),
        asked,
        replies,
        fuel,
        end_env,
        ControlView::Value(value),
        end_asked,
        waiting,
    );
    lemma_one_step(
        State { env: end_env, control: ControlView::Value(value), stack: waiting },
        end_asked,
        replies,
    );
    assert(waiting.drop_last() =~= stack);
    lemma_run_split(at(env, whole, stack, asked), replies, 1, fuel);
    lemma_run_split(at(env, whole, stack, asked), replies, 1 + fuel, 1);
}

/// A loop whose body has run to its end starts over: it stands where the
/// same loop stands after its first step in the environment that the body
/// has left.
pub proof fn lemma_loop_repeats(
    cond: ExpressionView,
    body: StatementView,
    env: Scopes,
    asked: nat,
    replies: Replies,
    fuel: nat,
    end_env: Scopes,
    end_asked: nat,
    stack: Seq<ContView>,
)
    requires
        run(at(env, ControlView::Exec(body), Seq::empty(), asked), replies, fuel) == at(
            end_env,
            ControlView::Completed,
            Seq::empty(),
            end_asked,
        ),
    ensures
        run(
            at(env, ControlView::Exec(body), stack.push(ContView::LoopBody(cond, body)), asked),
            replies,
            fuel + 1,
        ) == run(
            at(
                end_env,
                ControlView::Exec(StatementView::While(cond, Box::new(body))),
                stack,
                end_asked,
            ),
            replies,
            1,
        ),
{
    let waiting = stack.push(ContView::LoopBody(cond, body));
    lemma_alone_then_under(
        env,
        ControlView::Exec(body),
        asked,
        replies,
        fuel,
        end_env,
        ControlView::Completed,
        end_asked,
        waiting,
    );
    lemma_one_step(
        State { env: end_env, control: ControlView::Completed, stack: waiting },
        end_asked,
        replies,
    );
    lemma_one_step(
        State {
            env: end_env,
            control: ControlView::Exec(StatementView::While(cond, Box::new(body))),
            stack,
        },
        end_asked,
        replies,
    );
    assert(waiting.drop_last() =~= stack);
    lemma_run_split(at(env, ControlView::Exec(body), waiting, asked), replies, fuel, 1);
}

/// A loop whose body returns a value ends at once and returns that value:
/// the condition is not tested again.
pub proof fn lemma_loop_returns_early(
    cond: ExpressionView,
    body: StatementView,
    env: Scopes,
    asked: nat,
    replies: Replies,
    fuel: nat,
    end_env: Scopes,
    value: ValueView,
    end_asked: nat,
    stack: Seq<ContView>,
)
    requires
        run(at(env, ControlView::Exec(body), Seq::empty(), asked), replies, fuel) == at(
            end_env,
            ControlView::Returning(value),
            Seq::empty(),
            end_asked,
        ),
    ensures
        run(
            at(env, ControlView::Exec(body), stack.push(ContView::LoopBody(cond, body)), asked),
            replies,
            fuel + 1,
        ) == at(end_env, ControlView::Returning(value), stack, end_asked),
{
    let waiting = stack.push(ContView::LoopBody(cond, body));
    lemma_alone_then_under(
        env,
        ControlView::Exec(body),
        asked,
        replies,
        fuel,
        end_env,
        ControlView::Returning(value),
        end_asked,
        waiting,
    );
    lemma_one_step(
        State { env: end_env, control: ControlView::Returning(value), stack: waiting },
        end_asked,
        replies,
    );
    assert(waiting.drop_last() =~= stack);
    lemma_run_split(at(env, ControlView::Exec(body), waiting, asked), replies, fuel, 1);
}

/// A `return` evaluates its expression and returns the value.
pub proof fn lemma_return_returns(
    exp: ExpressionView,
    env: Scopes,
    asked: nat,
    replies: Replies,
    fuel: nat,
    end_env: Scopes,
    value: ValueView,
    end_asked: nat,
    stack: Seq<ContView>,
)
    requires
        run(at(env, ControlView::Eval(exp), Seq::empty(), asked), replies, fuel) == at(
            end_env,
            ControlView::Value(value),
            Seq::empty(),
            end_asked,
        ),
    ensures
        run(at(env, ControlView::Exec(StatementView::Return(exp)), stack, asked), replies, fuel + 2)
            == at(end_env, ControlView::Returning(value), stack, end_asked),
{
    let whole = ControlView::Exec(StatementView::Return(exp));
    let waiting = stack.push(ContView::ReturnValue);
    lemma_one_step(State { env, control: whole, stack }, asked, replies);
    lemma_alone_then_under(
        env,
        ControlView::Eval(exp),
        asked,
        replies,
        fuel,
        end_env,
        ControlView::Value(value),
        end_asked,
        waiting,
    );
    lemma_one_step(
        State { env: end_env, control: ControlView::Value(value), stack: waiting },
        end_asked,
        replies,
    );
    assert(waiting.drop_last() =~= stack);
    lemma_run_split(at(env, whole, stack, asked), replies, 1, fuel);
    lemma_run_split(at(env, whole, stack, asked), replies, 1 + fuel, 1);
}

/// A call gives the value that the body of the function returns, and the
/// frame of the call is dropped. Where the body alone runs to a `return`,
/// the body of a call on top of `stack` has, one move later, given the
/// value returned to what waited for the call.
pub proof fn lemma_call_gives_returned_value(
    name: Seq<char>,
    body: StatementView,
    env: Scopes,
    asked: nat,
    replies: Replies,
    fuel: nat,
    end_env: Scopes,
    value: ValueView,
    end_asked: nat,
    stack: Seq<ContView>,
)
    requires
        run(at(env, ControlView::Exec(body), Seq::empty(), asked), replies, fuel) == at(
            end_env,
            ControlView::Returning(value),
            Seq::empty(),
            end_asked,
        ),
    ensures
        run(at(env, ControlView::Exec(body), stack.push(ContView::Body(name)), asked), replies, fuel + 1)
            == at(pop_scope(end_env), ControlView::Value(value), stack, end_asked),
{
    let waiting = stack.push(ContView::Body(name));
    lemma_alone_then_under(
        env,
        ControlView::Exec(body),
        asked,
        replies,
        fuel,
        end_env,
        ControlView::Returning(value),
        end_asked,
        waiting,
    );
    lemma_one_step(
        State { env: end_env, control: ControlView::Returning(value), stack: waiting },
        end_asked,
        replies,
    );
    assert(waiting.drop_last() =~= stack);
    lemma_run_split(at(env, ControlView::Exec(body), waiting, asked), replies, fuel, 1);
}

/// A call whose body runs to its end without a `return` is an error.
pub proof fn lemma_call_needs_return(
    name: Seq<char>,
    body: StatementView,
    env: Scopes,
    asked: nat,
    replies: Replies,
    fuel: nat,
    end_env: Scopes,
    end_asked: nat,
    stack: Seq<ContView>,
)
    requires
        run(at(env, ControlView::Exec(body), Seq::empty(), asked), replies, fuel) == at(
            end_env,
            ControlView::Completed,
            Seq::empty(),
            end_asked,
        ),
    ensures
        run(at(env, ControlView::Exec(body), stack.push(ContView::Body(name)), asked), replies, fuel + 1)
            == (Run { progress: ProgressView::Failed(ErrorView::MissingReturn(name)), asked: end_asked }),
{
    let waiting = stack.push(ContView::Body(name));
    lemma_alone_then_under(
        env,
        ControlView::Exec(body),
        asked,
        replies,
        fuel,
        end_env,
        ControlView::Completed,
        end_asked,
        waiting,
    );
    lemma_one_step(
        State { env: end_env, control: ControlView::Completed, stack: waiting },
        end_asked,
        replies,
    );
    assert(waiting.drop_last() =~= stack);
    lemma_run_split(at(env, ControlView::Exec(body), waiting, asked), replies, fuel, 1);
}

/// An error ends the run at once, whatever is left on the stack: no
/// continuation catches it.
pub proof fn lemma_failure_is_final(error: ErrorView, asked: nat, replies: Replies, fuel: nat)
    ensures
        run(Run { progress: ProgressView::Failed(error), asked }, replies, fuel) == (Run {
            progress: ProgressView::Failed(error),
            asked,
        }),
{
}

/// The steps that the machine takes alone are the first moves of every
/// run: where they come to no request, a run of as many moves stands where
/// they do, and has asked nothing more of the outside world.
pub proof fn lemma_advance_is_run(from: Run, replies: Replies, fuel: nat)
    requires
        !(advance(from.progress, fuel) is NeedsValue),
        !(advance(from.progress, fuel) is NeedsEffect),
    ensures
        run(from, replies, fuel) == (Run {
            progress: advance(from.progress, fuel),
            asked: from.asked,
        }),
    decreases fuel,
{
    if fuel > 0 {
        match from.progress {
            ProgressView::Running(state) => {
                lemma_advance_is_run(
                    Run { progress: step(state), asked: from.asked },
                    replies,
                    (fuel - 1) as nat,
                );
            },
            _ => {},
        }
    }
}

/// What `not` makes of the value of its operand: the other boolean, or a
/// type error where the value is no boolean.
pub open spec fn negated(value: ValueView, env: Scopes, stack: Seq<ContView>) -> ProgressView {
    match truth_of(value) {
        Some(b) => running(env, ControlView::Value(truth(!b)), stack),
        None => ProgressView::Failed(
            ErrorView::TypeError(crate::interpreter::error::Operation::Not),
        ),
    }
}

/// `not` evaluates its operand and negates the value.
pub proof fn lemma_not_negates(
    operand: ExpressionView,
    env: Scopes,
    asked: nat,
    replies: Replies,
    fuel: nat,
    end_env: Scopes,
    value: ValueView,
    end_asked: nat,
    stack: Seq<ContView>,
)
    requires
        run(at(env, ControlView::Eval(operand), Seq::empty(), asked), replies, fuel) == at(
            end_env,
            ControlView::Value(value),
            Seq::empty(),
            end_asked,
        ),
    ensures
        run(
            at(env, ControlView::Eval(ExpressionView::Not(Box::new(operand))), stack, asked),
            replies,
            fuel + 2,
        ) == (Run { progress: negated(value, end_env, stack), asked: end_asked }),
{
    let whole = ControlView::Eval(ExpressionView::Not(Box::new(operand)));
    let waiting = stack.push(ContView::Not);
    lemma_one_step(State { env, control: whole, stack }, asked, replies);
    lemma_alone_then_under(
        env,
        ControlView::Eval(operand),
        asked,
        replies,
        fuel,
        end_env,
        ControlView::Value(value),
        end_asked,
        waiting,
    );
    lemma_one_step(
        State { env: end_env, control: ControlView::Value(value), stack: waiting },
        end_asked,
        replies,
    );
    assert(waiting.drop_last() =~= stack);
    lemma_run_split(at(env, whole, stack, asked), replies, 1, fuel);
    lemma_run_split(at(env, whole, stack, asked), replies, 1 + fuel, 1);
}

/// What a file read makes of the value of its path: a request to read the
/// file, or a type error where the value is no string.
pub open spec fn read_asked(value: ValueView, env: Scopes, stack: Seq<ContView>) -> ProgressView {
    match text_of(value) {
        Some(path) => ProgressView::NeedsValue(
            ValueRequestView::ReadFile(path),
            Pending { env, stack },
        ),
        None => ProgressView::Failed(
            ErrorView::TypeError(crate::interpreter::error::Operation::ReadFile),
        ),
    }
}

/// A file read evaluates its path and asks the outside world for the
/// text of the file; the answer is the value of the read, and a failure
/// of the outside world ends the run.
pub proof fn lemma_read_file_asks(
    path: ExpressionView,
    env: Scopes,
    asked: nat,
    replies: Replies,
    fuel: nat,
    end_env: Scopes,
    value: ValueView,
    end_asked: nat,
    stack: Seq<ContView>,
)
    requires
        run(at(env, ControlView::Eval(path), Seq::empty(), asked), replies, fuel) == at(
            end_env,
            ControlView::Value(value),
            Seq::empty(),
            end_asked,
        ),
    ensures
        run(
            at(env, ControlView::Eval(ExpressionView::ReadFile(Box::new(path))), stack, asked),
            replies,
            fuel + 2,
        ) == (Run { progress: read_asked(value, end_env, stack), asked: end_asked }),
        text_of(value) is Some ==> run(
            at(env, ControlView::Eval(ExpressionView::ReadFile(Box::new(path))), stack, asked),
            replies,
            fuel + 3,
        ) == (Run {
            progress: resume_value(Pending { env: end_env, stack }, (replies.values)(end_asked)),
            asked: end_asked + 1,
        }),
{
    let whole = ControlView::Eval(ExpressionView::ReadFile(Box::new(path)));
    let waiting = stack.push(ContView::ReadPath);
    lemma_one_step(State { env, control: whole, stack }, asked, replies);
    lemma_alone_then_under(
        env,
        ControlView::Eval(path),
        asked,
        replies,
        fuel,
        end_env,
        ControlView::Value(value),
        end_asked,
        waiting,
    );
    lemma_one_step(
        State { env: end_env, control: ControlView::Value(value), stack: waiting },
        end_asked,
        replies,
    );
    assert(waiting.drop_last() =~= stack);
    lemma_run_split(at(env, whole, stack, asked), replies, 1, fuel);
    lemma_run_split(at(env, whole, stack, asked), replies, 1 + fuel, 1);
    lemma_run_split(at(env, whole, stack, asked), replies, fuel + 2, 1);
    reveal_with_fuel(run, 2);
}

/// What a file write makes of the values of its path and its content: a
/// request to write the file, or a type error where either is no string.
pub open spec fn write_asked(
    path: ValueView,
    content: ValueView,
    env: Scopes,
    stack: Seq<ContView>,
) -> ProgressView {
    match (text_of(path), text_of(content)) {
        (Some(path), Some(content)) => ProgressView::NeedsEffect(
            EffectRequestView::WriteFile(path, content),
            Pending { env, stack },
        ),
        _ => ProgressView::Failed(
            ErrorView::TypeError(crate::interpreter::error::Operation::WriteToFile),
        ),
    }
}

/// A file write evaluates its path, then its content, checks that both are
/// strings and asks the outside world to write the file.
pub proof fn lemma_write_file_asks(
    path: ExpressionView,
    content: ExpressionView,
    env: Scopes,
    asked: nat,
    replies: Replies,
    fuel: nat,
    path_env: Scopes,
    path_value: ValueView,
    path_asked: nat,
    content_fuel: nat,
    end_env: Scopes,
    content_value: ValueView,
    end_asked: nat,
    stack: Seq<ContView>,
)
    requires
        run(at(env, ControlView::Eval(path), Seq::empty(), asked), replies, fuel) == at(
            path_env,
            ControlView::Value(path_value),
            Seq::empty(),
            path_asked,
        ),
        run(
            at(path_env, ControlView::Eval(content), Seq::empty(), path_asked),
            replies,
            content_fuel,
        ) == at(end_env, ControlView::Value(content_value), Seq::empty(), end_asked),
    ensures
        run(
            at(env, ControlView::Exec(StatementView::WriteToFile(path, content)), stack, asked),
            replies,
            fuel + 2 + content_fuel + 1,
        ) == (Run {
            progress: write_asked(path_value, content_value, end_env, stack),
            asked: end_asked,
        }),
{
    let whole = ControlView::Exec(StatementView::WriteToFile(path, content));
    let first = stack.push(ContView::WritePath(content));
    let second = stack.push(ContView::WriteContent(path_value));
    lemma_one_step(State { env, control: whole, stack }, asked, replies);
    lemma_alone_then_under(
        env,
        ControlView::Eval(path),
        asked,
        replies,
        fuel,
        path_env,
        ControlView::Value(path_value),
        path_asked,
        first,
    );
    lemma_one_step(
        State { env: path_env, control: ControlView::Value(path_value), stack: first },
        path_asked,
        replies,
    );
    assert(first.drop_last() =~= stack);
    lemma_alone_then_under(
        path_env,
        ControlView::Eval(content),
        path_asked,
        replies,
        content_fuel,
        end_env,
        ControlView::Value(content_value),
        end_asked,
        second,
    );
    lemma_one_step(
        State { env: end_env, control: ControlView::Value(content_value), stack: second },
        end_asked,
        replies,
    );
    assert(second.drop_last() =~= stack);
    lemma_run_split(at(env, whole, stack, asked), replies, 1, fuel);
    lemma_run_split(at(env, whole, stack, asked), replies, 1 + fuel, 1);
    lemma_run_split(at(env, whole, stack, asked), replies, fuel + 2, content_fuel);
    lemma_run_split(at(env, whole, stack, asked), replies, fuel + 2 + content_fuel, 1);
}

/// `print` evaluates its expression and hands the value to the outside
/// world: an integer in decimal, a boolean as `true` or `false`, a string
/// as it is, a real as a real. A value that is no constant is a type
/// error. The environment is left as the expression left it.
pub proof fn lemma_print_asks(
    exp: ExpressionView,
    env: Scopes,
    asked: nat,
    replies: Replies,
    fuel: nat,
    end_env: Scopes,
    value: ValueView,
    end_asked: nat,
    stack: Seq<ContView>,
)
    requires
        run(at(env, ControlView::Eval(exp), Seq::empty(), asked), replies, fuel) == at(
            end_env,
            ControlView::Value(value),
            Seq::empty(),
            end_asked,
        ),
    ensures
        run(at(env, ControlView::Exec(StatementView::Print(exp)), stack, asked), replies, fuel + 2)
            == (Run { progress: print_step(value, end_env, stack), asked: end_asked }),
{
    let whole = ControlView::Exec(StatementView::Print(exp));
    let waiting = stack.push(ContView::Print);
    lemma_one_step(State { env, control: whole, stack }, asked, replies);
    lemma_alone_then_under(
        env,
        ControlView::Eval(exp),
        asked,
        replies,
        fuel,
        end_env,
        ControlView::Value(value),
        end_asked,
        waiting,
    );
    lemma_one_step(
        State { env: end_env, control: ControlView::Value(value), stack: waiting },
        end_asked,
        replies,
    );
    assert(waiting.drop_last() =~= stack);
    lemma_run_split(at(env, whole, stack, asked), replies, 1, fuel);
    lemma_run_split(at(env, whole, stack, asked), replies, 1 + fuel, 1);
}

/// A function definition binds the function to its name in the current
/// frame, in one step.
pub proof fn lemma_definition_binds(
    func: FunctionView,
    env: Scopes,
    stack: Seq<ContView>,
    asked: nat,
    replies: Replies,
)
    ensures
        run(at(env, ControlView::Exec(StatementView::FuncDef(func)), stack, asked), replies, 1)
            == at(
            declare(env, func.name, ValueView::Function(func)),
            ControlView::Completed,
            stack,
            asked,
        ),
{
    lemma_one_step(
        State { env, control: ControlView::Exec(StatementView::FuncDef(func)), stack },
        asked,
        replies,
    );
}

/// A call of a name that resolves to a function with as many parameters
/// as the call has arguments, at least one, opens a frame and takes up the
/// first argument in it.
pub proof fn lemma_call_opens_frame(
    name: Seq<char>,
    args: Seq<ExpressionView>,
    func: FunctionView,
    env: Scopes,
    stack: Seq<ContView>,
    asked: nat,
    replies: Replies,
)
    requires
        resolve(env, name) == Some(ValueView::Function(func)),
        args.len() == func.param_names().len(),
        args.len() > 0,
    ensures
        run(at(env, ControlView::Eval(ExpressionView::FuncCall(name, args)), stack, asked), replies, 1)
            == at(
            push_scope(env),
            ControlView::Eval(args[0]),
            stack.push(ContView::Argument { func, args, next: 0 }),
            asked,
        ),
{
    lemma_one_step(
        State { env, control: ControlView::Eval(ExpressionView::FuncCall(name, args)), stack },
        asked,
        replies,
    );
}

/// A call is refused before any of its arguments is evaluated where its
/// name is bound nowhere, is bound to a constant, or is bound to a
/// function with another number of parameters.
pub proof fn lemma_call_refused(
    name: Seq<char>,
    args: Seq<ExpressionView>,
    env: Scopes,
    stack: Seq<ContView>,
    asked: nat,
    replies: Replies,
)
    ensures
        resolve(env, name) is None ==> run(
            at(env, ControlView::Eval(ExpressionView::FuncCall(name, args)), stack, asked),
            replies,
            1,
        ).progress == ProgressView::Failed(ErrorView::UndefinedName(name)),
        resolve(env, name) matches Some(value) && !(value is Function) ==> run(
            at(env, ControlView::Eval(ExpressionView::FuncCall(name, args)), stack, asked),
            replies,
            1,
        ).progress == ProgressView::Failed(ErrorView::NotAFunction(name)),
        resolve(env, name) matches Some(ValueView::Function(func)) && func.param_names().len()
            != args.len() ==> run(
            at(env, ControlView::Eval(ExpressionView::FuncCall(name, args)), stack, asked),
            replies,
            1,
        ).progress == ProgressView::Failed(
            ErrorView::ArityMismatch {
                name,
                expected: resolve(env, name)->0->Function_0.param_names().len(),
                found: args.len(),
            },
        ),
{
    lemma_one_step(
        State { env, control: ControlView::Eval(ExpressionView::FuncCall(name, args)), stack },
        asked,
        replies,
    );
}

/// An argument of a call is evaluated in the frame of the call and bound
/// to its parameter there; then the next argument is taken up or, after
/// the last, the body is entered.
pub proof fn lemma_argument_is_bound(
    func: FunctionView,
    args: Seq<ExpressionView>,
    next: nat,
    env: Scopes,
    asked: nat,
    replies: Replies,
    fuel: nat,
    end_env: Scopes,
    value: ValueView,
    end_asked: nat,
    stack: Seq<ContView>,
)
    requires
        next < args.len(),
        args.len() == func.param_names().len(),
        run(at(env, ControlView::Eval(args[next as int]), Seq::empty(), asked), replies, fuel) == at(
            end_env,
            ControlView::Value(value),
            Seq::empty(),
            end_asked,
        ),
    ensures
        run(
            at(
                env,
                ControlView::Eval(args[next as int]),
                stack.push(ContView::Argument { func, args, next }),
                asked,
            ),
            replies,
            fuel + 1,
        ) == (Run {
            progress: if next + 1 < args.len() {
                running(
                    declare(end_env, func.param_names()[next as int], value),
                    ControlView::Eval(args[next as int + 1]),
                    stack.push(ContView::Argument { func, args, next: next + 1 }),
                )
            } else {
                enter_step(func, declare(end_env, func.param_names()[next as int], value), stack)
            },
            asked: end_asked,
        }),
{
    let waiting = stack.push(ContView::Argument { func, args, next });
    lemma_alone_then_under(
        env,
        ControlView::Eval(args[next as int]),
        asked,
        replies,
        fuel,
        end_env,
        ControlView::Value(value),
        end_asked,
        waiting,
    );
    lemma_one_step(
        State { env: end_env, control: ControlView::Value(value), stack: waiting },
        end_asked,
        replies,
    );
    assert(waiting.drop_last() =~= stack);
    lemma_run_split(
        at(env, ControlView::Eval(args[next as int]), waiting, asked),
        replies,
        fuel,
        1,
    );
}

} // verus!
