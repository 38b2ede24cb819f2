//! The discipline of frames: what a run leaves of the environment it
//! started in.
//!
//! Evaluating an expression reads the environment and leaves it as it
//! was. Executing a statement declares names in the current frame and
//! leaves every frame under it as it was. A call works in a frame of its
//! own, which is gone when the call has given its value.
use vstd::prelude::*;
use crate::interpreter::interpreter::ControlFlowView;
use crate::interpreter::interpreter::ValueView;
use crate::interpreter::laws::at;
use crate::interpreter::semantics::call_step;
use crate::interpreter::semantics::completed_step;
use crate::interpreter::semantics::enter_step;
use crate::interpreter::semantics::eval_step;
use crate::interpreter::semantics::execute_step;
use crate::interpreter::semantics::resume_effect;
use crate::interpreter::semantics::resume_value;
use crate::interpreter::semantics::return_step;
use crate::interpreter::semantics::run;
use crate::interpreter::semantics::step;
use crate::interpreter::semantics::value_step;
use crate::interpreter::semantics::ContView;
use crate::interpreter::semantics::ControlView;
use crate::interpreter::semantics::ProgressView;
use crate::interpreter::semantics::Replies;
use crate::interpreter::semantics::Run;
use crate::interpreter::semantics::State;
use crate::ir::ast::ExpressionView;
use crate::ir::ast::FunctionView;
use crate::ir::ast::StatementView;
use crate::ir::environment::declare;
use crate::ir::environment::pop_scope;
use crate::ir::environment::push_scope;
use crate::ir::environment::resolve;
use crate::ir::environment::Scopes;

verus! {

/// The continuation waits for a value, not for the end of a statement.
pub open spec fn takes_value(cont: ContView) -> bool {
    !(cont is Body || cont is LoopBody || cont is Then)
}

/// The continuation is part of an expression: what it hands on is a
/// value, not the end of a statement.
pub open spec fn gives_value(cont: ContView) -> bool {
    cont is BinaryLeft || cont is BinaryRight || cont is Not || cont is ReadPath
        || cont is Argument || cont is Body
}

/// The continuation belongs to a call under way, which has a frame of its
/// own.
pub open spec fn holds_frame(cont: ContView) -> bool {
    cont is Argument || cont is Body
}

/// The number of calls under way.
pub open spec fn frames_held(stack: Seq<ContView>) -> nat
    decreases stack.len(),
{
    if stack.len() == 0 {
        0
    } else {
        frames_held(stack.drop_last()) + if holds_frame(stack.last()) {
            1nat
        } else {
            0nat
        }
    }
}

/// Each continuation hands on what the one under it waits for.
pub open spec fn layered(stack: Seq<ContView>) -> bool {
    forall|i: int| 0 < i < stack.len() ==> gives_value(#[trigger] stack[i]) == takes_value(stack[i - 1])
}

/// The control is about to give a value, not the end of a statement.
pub open spec fn yields_value(control: ControlView) -> bool {
    control is Eval || control is Value
}

/// Where a run started: its environment, and whether it runs an
/// expression or a statement.
pub ghost struct Origin {
    pub env: Scopes,
    pub for_value: bool,
}

impl Origin {
    /// The number of frames that the run must leave as they are: all of
    /// them for an expression, all but the current one for a statement.
    pub open spec fn kept(self) -> int {
        if self.for_value {
            self.env.len() as int
        } else {
            self.env.len() - 1
        }
    }
}

/// A machine with this environment and this stack, about to give a value
/// or the end of a statement, keeps the discipline of a run from `origin`:
/// the stack is layered and ends in what the run is to give, every call
/// under way has its frame and there is no other new frame, and the frames
/// that the run must leave are as they were.
pub open spec fn sound(env: Scopes, value_due: bool, stack: Seq<ContView>, origin: Origin) -> bool {
    &&& origin.env.len() > 0
    &&& layered(stack)
    &&& stack.len() > 0 ==> takes_value(stack.last()) == value_due
    &&& if stack.len() == 0 {
        value_due == origin.for_value
    } else {
        gives_value(stack[0]) == origin.for_value
    }
    &&& env.len() == origin.env.len() + frames_held(stack)
    &&& env.take(origin.kept()) == origin.env.take(origin.kept())
}

/// The progress keeps the discipline of a run from `origin`. A run that
/// has ended has given what it was to give, and a statement that has run
/// to its end has left as many frames as there were, all but the current
/// one as they were.
pub open spec fn progress_sound(progress: ProgressView, origin: Origin) -> bool {
    match progress {
        ProgressView::Running(state) => sound(
            state.env,
            yields_value(state.control),
            state.stack,
            origin,
        ),
        ProgressView::NeedsValue(_, pending) => sound(pending.env, true, pending.stack, origin),
        ProgressView::NeedsEffect(_, pending) => sound(pending.env, false, pending.stack, origin),
        ProgressView::Evaluated(_) => origin.for_value,
        ProgressView::Executed(ControlFlowView::Continue(env)) => !origin.for_value && env.len()
            == origin.env.len() && env.drop_last() == origin.env.drop_last(),
        ProgressView::Executed(ControlFlowView::Return(_)) => !origin.for_value,
        ProgressView::Failed(_) => true,
    }
}

proof fn lemma_push(stack: Seq<ContView>, cont: ContView)
    requires
        layered(stack),
        stack.len() > 0 ==> gives_value(cont) == takes_value(stack.last()),
    ensures
        layered(stack.push(cont)),
        frames_held(stack.push(cont)) == frames_held(stack) + if holds_frame(cont) {
            1nat
        } else {
            0nat
        },
        stack.push(cont)[0] == (if stack.len() == 0 {
            cont
        } else {
            stack[0]
        }),
        stack.push(cont).last() == cont,
{
    assert(stack.push(cont).drop_last() =~= stack);
}

proof fn lemma_pop(stack: Seq<ContView>)
    requires
        layered(stack),
        stack.len() > 0,
    ensures
        layered(stack.drop_last()),
        frames_held(stack) == frames_held(stack.drop_last()) + if holds_frame(stack.last()) {
            1nat
        } else {
            0nat
        },
        stack.len() > 1 ==> stack.drop_last()[0] == stack[0] && takes_value(
            stack.drop_last().last(),
        ) == gives_value(stack.last()),
{
    let rest = stack.drop_last();
    assert forall|i: int| 0 < i < rest.len() implies gives_value(#[trigger] rest[i]) == takes_value(
        rest[i - 1],
    ) by {
        assert(rest[i] == stack[i]);
        assert(rest[i - 1] == stack[i - 1]);
    }
    if stack.len() > 1 {
        assert(stack.last() == stack[stack.len() - 1]);
        assert(rest.last() == stack[stack.len() - 2]);
    }
}

/// A statement within an expression is within a call: where the stack
/// ends in an expression and its top waits for the end of a statement, a
/// call is under way.
proof fn lemma_statement_in_call(stack: Seq<ContView>)
    requires
        layered(stack),
        stack.len() > 0,
        gives_value(stack[0]),
        !takes_value(stack.last()),
    ensures
        frames_held(stack) >= 1,
    decreases stack.len(),
{
    lemma_pop(stack);
    if !(stack.last() is Body) {
        assert(stack.len() > 1);
        lemma_statement_in_call(stack.drop_last());
    }
}

/// Where the machine is about to declare a name and the discipline holds,
/// the frame it declares in is none of those that the run must leave.
proof fn lemma_may_declare(env: Scopes, stack: Seq<ContView>, origin: Origin)
    requires
        origin.env.len() > 0,
        layered(stack),
        env.len() == origin.env.len() + frames_held(stack),
        origin.for_value ==> stack.len() > 0 && gives_value(stack[0]) && !takes_value(stack.last()),
    ensures
        origin.kept() < env.len(),
{
    if origin.for_value {
        lemma_statement_in_call(stack);
    }
}

proof fn lemma_declare_keeps(env: Scopes, name: Seq<char>, value: ValueView, kept: int)
    requires
        0 <= kept < env.len(),
    ensures
        declare(env, name, value).len() == env.len(),
        declare(env, name, value).take(kept) == env.take(kept),
{
    assert(declare(env, name, value).take(kept) =~= env.take(kept));
}

proof fn lemma_push_scope_keeps(env: Scopes, kept: int)
    requires
        0 <= kept <= env.len(),
    ensures
        push_scope(env).len() == env.len() + 1,
        push_scope(env).take(kept) == env.take(kept),
{
    assert(push_scope(env).take(kept) =~= env.take(kept));
}

proof fn lemma_pop_scope_keeps(env: Scopes, kept: int)
    requires
        0 <= kept < env.len(),
        env.len() > 1,
    ensures
        pop_scope(env).len() == env.len() - 1,
        pop_scope(env).take(kept) == env.take(kept),
{
    assert(pop_scope(env).take(kept) =~= env.take(kept));
}

proof fn lemma_enter_sound(func: FunctionView, env: Scopes, stack: Seq<ContView>, origin: Origin)
    requires
        origin.env.len() > 0,
        layered(stack),
        stack.len() > 0 ==> takes_value(stack.last()),
        if stack.len() == 0 {
            origin.for_value
        } else {
            gives_value(stack[0]) == origin.for_value
        },
        env.len() == origin.env.len() + frames_held(stack) + 1,
        env.take(origin.kept()) == origin.env.take(origin.kept()),
    ensures
        progress_sound(enter_step(func, env, stack), origin),
{
    lemma_push(stack, ContView::Body(func.name));
    lemma_declare_keeps(env, func.name, ValueView::Function(func), origin.kept());
}

proof fn lemma_call_sound(
    name: Seq<char>,
    args: Seq<ExpressionView>,
    env: Scopes,
    stack: Seq<ContView>,
    origin: Origin,
)
    requires
        sound(env, true, stack, origin),
    ensures
        progress_sound(call_step(name, args, env, stack), origin),
{
    lemma_push_scope_keeps(env, origin.kept());
    match resolve(env, name) {
        Some(ValueView::Function(func)) => {
            lemma_enter_sound(func, push_scope(env), stack, origin);
            lemma_push(stack, ContView::Argument { func, args, next: 0 });
        },
        _ => {},
    }
}

proof fn lemma_eval_sound(exp: ExpressionView, env: Scopes, stack: Seq<ContView>, origin: Origin)
    requires
        sound(env, true, stack, origin),
    ensures
        progress_sound(eval_step(exp, env, stack), origin),
{
    match exp {
        ExpressionView::FuncCall(name, args) => {
            lemma_call_sound(name, args, env, stack, origin);
        },
        ExpressionView::ReadFile(path) => {
            lemma_push(stack, ContView::ReadPath);
        },
        ExpressionView::Binary(op, lhs, rhs) => {
            lemma_push(stack, ContView::BinaryLeft(op, *rhs));
        },
        ExpressionView::Not(operand) => {
            lemma_push(stack, ContView::Not);
        },
        _ => {},
    }
}

proof fn lemma_execute_sound(stmt: StatementView, env: Scopes, stack: Seq<ContView>, origin: Origin)
    requires
        sound(env, false, stack, origin),
    ensures
        progress_sound(execute_step(stmt, env, stack), origin),
{
    match stmt {
        StatementView::Assignment(name, exp, _) => {
            lemma_push(stack, ContView::Assign(name));
        },
        StatementView::IfThenElse(cond, then_stmt, else_stmt) => {
            lemma_push(
                stack,
                ContView::Branch(
                    *then_stmt,
                    match else_stmt {
                        Some(else_stmt) => Some(*else_stmt),
                        None => None,
                    },
                ),
            );
        },
        StatementView::While(cond, body) => {
            lemma_push(stack, ContView::LoopTest(cond, *body));
        },
        StatementView::Sequence(first, second) => {
            lemma_push(stack, ContView::Then(*second));
        },
        StatementView::FuncDef(func) => {
            lemma_may_declare(env, stack, origin);
            lemma_declare_keeps(env, func.name, ValueView::Function(func), origin.kept());
        },
        StatementView::Return(exp) => {
            lemma_push(stack, ContView::ReturnValue);
        },
        StatementView::WriteToFile(path, content) => {
            lemma_push(stack, ContView::WritePath(content));
        },
        StatementView::Print(exp) => {
            lemma_push(stack, ContView::Print);
        },
    }
}

proof fn lemma_value_sound(
    cont: ContView,
    value: ValueView,
    env: Scopes,
    stack: Seq<ContView>,
    origin: Origin,
)
    requires
        sound(env, true, stack.push(cont), origin),
    ensures
        progress_sound(value_step(cont, value, env, stack), origin),
{
    let whole = stack.push(cont);
    assert(whole.drop_last() =~= stack);
    lemma_pop(whole);
    match cont {
        ContView::BinaryLeft(op, rhs) => {
            lemma_push(stack, ContView::BinaryRight(op, value));
        },
        ContView::Argument { func, args, next } => {
            let name = func.param_names()[next as int];
            lemma_declare_keeps(env, name, value, origin.kept());
            lemma_push(stack, ContView::Argument { func, args, next: next + 1 });
            lemma_enter_sound(func, declare(env, name, value), stack, origin);
        },
        ContView::Assign(name) => {
            lemma_may_declare(env, stack, origin);
            lemma_declare_keeps(env, name, value, origin.kept());
        },
        ContView::LoopTest(cond, body) => {
            lemma_push(stack, ContView::LoopBody(cond, body));
        },
        ContView::WritePath(content) => {
            lemma_push(stack, ContView::WriteContent(value));
        },
        _ => {},
    }
}

proof fn lemma_completed_sound(cont: ContView, env: Scopes, stack: Seq<ContView>, origin: Origin)
    requires
        sound(env, false, stack.push(cont), origin),
    ensures
        progress_sound(completed_step(cont, env, stack), origin),
{
    let whole = stack.push(cont);
    assert(whole.drop_last() =~= stack);
    lemma_pop(whole);
    match cont {
        ContView::LoopBody(cond, body) => {
            lemma_push(stack, ContView::LoopTest(cond, body));
        },
        _ => {},
    }
}

proof fn lemma_return_sound(
    cont: ContView,
    value: ValueView,
    env: Scopes,
    stack: Seq<ContView>,
    origin: Origin,
)
    requires
        sound(env, false, stack.push(cont), origin),
    ensures
        progress_sound(return_step(cont, value, env, stack), origin),
{
    let whole = stack.push(cont);
    assert(whole.drop_last() =~= stack);
    lemma_pop(whole);
    if cont is Body {
        lemma_pop_scope_keeps(env, origin.kept());
    }
}

/// One step keeps the discipline.
pub proof fn lemma_step_sound(state: State, origin: Origin)
    requires
        progress_sound(ProgressView::Running(state), origin),
    ensures
        progress_sound(step(state), origin),
{
    let stack = state.stack;
    if stack.len() > 0 {
        assert(stack.drop_last().push(stack.last()) =~= stack);
    }
    match state.control {
        ControlView::Eval(exp) => {
            lemma_eval_sound(exp, state.env, stack, origin);
        },
        ControlView::Exec(stmt) => {
            lemma_execute_sound(stmt, state.env, stack, origin);
        },
        ControlView::Value(value) => {
            if stack.len() > 0 {
                lemma_value_sound(stack.last(), value, state.env, stack.drop_last(), origin);
            }
        },
        ControlView::Completed => {
            if stack.len() > 0 {
                lemma_completed_sound(stack.last(), state.env, stack.drop_last(), origin);
            } else {
                assert(state.env.take(origin.kept()) =~= state.env.drop_last());
                assert(origin.env.take(origin.kept()) =~= origin.env.drop_last());
            }
        },
        ControlView::Returning(value) => {
            if stack.len() > 0 {
                lemma_return_sound(stack.last(), value, state.env, stack.drop_last(), origin);
            }
        },
    }
}

/// A run keeps the discipline, whatever the outside world answers.
pub proof fn lemma_run_sound(from: Run, replies: Replies, fuel: nat, origin: Origin)
    requires
        progress_sound(from.progress, origin),
    ensures
        progress_sound(run(from, replies, fuel).progress, origin),
    decreases fuel,
{
    if fuel > 0 {
        match from.progress {
            ProgressView::Running(state) => {
                lemma_step_sound(state, origin);
                lemma_run_sound(
                    Run { progress: step(state), asked: from.asked },
                    replies,
                    (fuel - 1) as nat,
                    origin,
                );
            },
            ProgressView::NeedsValue(_, pending) => {
                lemma_run_sound(
                    Run {
                        progress: resume_value(pending, (replies.values)(from.asked)),
                        asked: from.asked + 1,
                    },
                    replies,
                    (fuel - 1) as nat,
                    origin,
                );
            },
            ProgressView::NeedsEffect(_, pending) => {
                lemma_run_sound(
                    Run {
                        progress: resume_effect(pending, (replies.effects)(from.asked)),
                        asked: from.asked + 1,
                    },
                    replies,
                    (fuel - 1) as nat,
                    origin,
                );
            },
            _ => {},
        }
    }
}

/// Evaluating an expression leaves the environment as it was: whatever
/// the expression calls, and whatever the outside world answers, a run
/// that has come to the value of the expression stands in the environment
/// it started in.
pub proof fn lemma_evaluation_keeps_environment(
    exp: ExpressionView,
    env: Scopes,
    asked: nat,
    replies: Replies,
    fuel: nat,
    end_env: Scopes,
    value: ValueView,
    end_asked: nat,
)
    requires
        env.len() > 0,
        run(at(env, ControlView::Eval(exp), Seq::empty(), asked), replies, fuel) == at(
            end_env,
            ControlView::Value(value),
            Seq::empty(),
            end_asked,
        ),
    ensures
        end_env == env,
{
    let origin = Origin { env, for_value: true };
    lemma_run_sound(at(env, ControlView::Eval(exp), Seq::empty(), asked), replies, fuel, origin);
    assert(end_env.take(end_env.len() as int) =~= end_env);
    assert(env.take(env.len() as int) =~= env);
}

/// Executing a statement leaves as many frames as there were, and every
/// frame but the current one as it was: whatever the statement calls, and
/// whatever the outside world answers, a run that has come to the end of
/// the statement stands in an environment that differs from the one it
/// started in by the current frame at most.
pub proof fn lemma_execution_keeps_outer_frames(
    stmt: StatementView,
    env: Scopes,
    asked: nat,
    replies: Replies,
    fuel: nat,
    end_env: Scopes,
    end_asked: nat,
)
    requires
        env.len() > 0,
        run(at(env, ControlView::Exec(stmt), Seq::empty(), asked), replies, fuel) == at(
            end_env,
            ControlView::Completed,
            Seq::empty(),
            end_asked,
        ),
    ensures
        end_env.len() == env.len(),
        end_env.drop_last() == env.drop_last(),
{
    let origin = Origin { env, for_value: false };
    lemma_run_sound(at(env, ControlView::Exec(stmt), Seq::empty(), asked), replies, fuel, origin);
    assert(end_env.take(end_env.len() - 1) =~= end_env.drop_last());
    assert(env.take(env.len() - 1) =~= env.drop_last());
}

} // verus!
