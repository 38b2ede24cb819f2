//! Every value of a run is reduced.
//!
//! A value is a constant or a function, never an expression that is still
//! to be evaluated. A run that starts with reduced values only, in its
//! environment and on its stack, holds reduced values only at every move.
use vstd::prelude::*;
use crate::interpreter::interpreter::ControlFlowView;
use crate::interpreter::interpreter::ValueView;
use crate::interpreter::semantics::combine;
use crate::interpreter::semantics::resume_effect;
use crate::interpreter::semantics::resume_value;
use crate::interpreter::semantics::run;
use crate::interpreter::semantics::step;
use crate::interpreter::semantics::Combined;
use crate::interpreter::semantics::ContView;
use crate::interpreter::semantics::ControlView;
use crate::interpreter::semantics::ProgressView;
use crate::interpreter::semantics::Replies;
use crate::interpreter::semantics::Run;
use crate::interpreter::semantics::State;
use crate::ir::ast::BinaryOp;
use crate::ir::environment::declare;
use crate::ir::environment::resolve;
use crate::ir::environment::Scopes;

verus! {

/// Every value that the scopes bind is reduced.
pub open spec fn scopes_reduced(scopes: Scopes) -> bool {
    forall|i: int, name: Seq<char>|
        0 <= i < scopes.len() && (#[trigger] scopes[i]).dom().contains(name) ==> (
        #[trigger] scopes[i][name]).is_reduced()
}

/// The value that the continuation holds, if it holds one, is reduced.
pub open spec fn cont_reduced(cont: ContView) -> bool {
    match cont {
        ContView::BinaryRight(_, value) => value.is_reduced(),
        ContView::WriteContent(value) => value.is_reduced(),
        _ => true,
    }
}

/// Every value that the stack holds is reduced.
pub open spec fn stack_reduced(stack: Seq<ContView>) -> bool {
    forall|i: int| 0 <= i < stack.len() ==> cont_reduced(#[trigger] stack[i])
}

/// The value that the control holds, if it holds one, is reduced.
pub open spec fn control_reduced(control: ControlView) -> bool {
    match control {
        ControlView::Value(value) => value.is_reduced(),
        ControlView::Returning(value) => value.is_reduced(),
        _ => true,
    }
}

/// Every value that the progress holds is reduced.
pub open spec fn progress_reduced(progress: ProgressView) -> bool {
    match progress {
        ProgressView::Running(state) => scopes_reduced(state.env) && control_reduced(state.control)
            && stack_reduced(state.stack),
        ProgressView::NeedsValue(_, pending) => scopes_reduced(pending.env) && stack_reduced(
            pending.stack,
        ),
        ProgressView::NeedsEffect(_, pending) => scopes_reduced(pending.env) && stack_reduced(
            pending.stack,
        ),
        ProgressView::Evaluated(value) => value.is_reduced(),
        ProgressView::Executed(ControlFlowView::Continue(env)) => scopes_reduced(env),
        ProgressView::Executed(ControlFlowView::Return(value)) => value.is_reduced(),
        ProgressView::Failed(_) => true,
    }
}

/// What a name resolves to in reduced scopes is reduced.
pub proof fn lemma_resolve_reduced(scopes: Scopes, name: Seq<char>)
    requires
        scopes_reduced(scopes),
    ensures
        resolve(scopes, name) matches Some(value) ==> value.is_reduced(),
    decreases scopes.len(),
{
    if scopes.len() > 0 && !scopes.last().dom().contains(name) {
        let rest = scopes.drop_last();
        assert forall|i: int, other: Seq<char>|
            0 <= i < rest.len() && (#[trigger] rest[i]).dom().contains(other) implies (
        #[trigger] rest[i][other]).is_reduced() by {
            assert(rest[i] == scopes[i]);
        }
        lemma_resolve_reduced(rest, name);
    }
}

/// Declaring a reduced value leaves the scopes reduced.
pub proof fn lemma_declare_reduced(scopes: Scopes, name: Seq<char>, value: ValueView)
    requires
        scopes_reduced(scopes),
        value.is_reduced(),
    ensures
        scopes_reduced(declare(scopes, name, value)),
{
    let after = declare(scopes, name, value);
    assert forall|i: int, other: Seq<char>|
        0 <= i < after.len() && (#[trigger] after[i]).dom().contains(other) implies (
    #[trigger] after[i][other]).is_reduced() by {
        if i < scopes.len() - 1 {
            assert(after[i] == scopes[i]);
        } else if other != name {
            assert(scopes[i].dom().contains(other));
            assert(after[i][other] == scopes[i][other]);
        }
    }
}

/// What an operator makes of two values is a constant.
pub proof fn lemma_combine_reduced(op: BinaryOp, lhs: ValueView, rhs: ValueView)
    ensures
        combine(op, lhs, rhs) matches Combined::Value(value) ==> value is Constant,
{
}

proof fn lemma_push_reduced(stack: Seq<ContView>, cont: ContView)
    requires
        stack_reduced(stack),
        cont_reduced(cont),
    ensures
        stack_reduced(stack.push(cont)),
{
}

proof fn lemma_pop_reduced(stack: Seq<ContView>)
    requires
        stack_reduced(stack),
        stack.len() > 0,
    ensures
        stack_reduced(stack.drop_last()),
        cont_reduced(stack.last()),
{
    let rest = stack.drop_last();
    assert forall|i: int| 0 <= i < rest.len() implies cont_reduced(#[trigger] rest[i]) by {
        assert(rest[i] == stack[i]);
    }
}

proof fn lemma_scopes_reduced_after(scopes: Scopes)
    requires
        scopes_reduced(scopes),
    ensures
        scopes_reduced(crate::ir::environment::push_scope(scopes)),
        scopes_reduced(crate::ir::environment::pop_scope(scopes)),
{
    let pushed = crate::ir::environment::push_scope(scopes);
    assert forall|i: int, other: Seq<char>|
        0 <= i < pushed.len() && (#[trigger] pushed[i]).dom().contains(other) implies (
    #[trigger] pushed[i][other]).is_reduced() by {
        if i < scopes.len() {
            assert(pushed[i] == scopes[i]);
        }
    }
    let popped = crate::ir::environment::pop_scope(scopes);
    assert forall|i: int, other: Seq<char>|
        0 <= i < popped.len() && (#[trigger] popped[i]).dom().contains(other) implies (
    #[trigger] popped[i][other]).is_reduced() by {
        assert(popped[i] == scopes[i]);
    }
}

/// One step of a machine that holds reduced values only gives reduced
/// values only.
pub proof fn lemma_step_reduced(state: State)
    requires
        progress_reduced(ProgressView::Running(state)),
    ensures
        progress_reduced(step(state)),
{
    let env = state.env;
    let stack = state.stack;
    lemma_scopes_reduced_after(env);
    let pushed = crate::ir::environment::push_scope(env);
    assert forall|name: Seq<char>| (#[trigger] resolve(env, name)) is Some implies resolve(
        env,
        name,
    )->0.is_reduced() by {
        lemma_resolve_reduced(env, name);
    }
    assert forall|name: Seq<char>, value: ValueView| value.is_reduced() implies scopes_reduced(
        #[trigger] declare(env, name, value),
    ) && scopes_reduced(#[trigger] declare(pushed, name, value)) by {
        lemma_declare_reduced(env, name, value);
        lemma_declare_reduced(pushed, name, value);
    }
    assert forall|cont: ContView| cont_reduced(cont) implies stack_reduced(
        #[trigger] stack.push(cont),
    ) by {
        lemma_push_reduced(stack, cont);
    }
    if stack.len() > 0 {
        let rest = stack.drop_last();
        lemma_pop_reduced(stack);
        assert forall|cont: ContView| cont_reduced(cont) implies stack_reduced(
            #[trigger] rest.push(cont),
        ) by {
            lemma_push_reduced(rest, cont);
        }
    }
}

/// A run that starts with reduced values only holds reduced values only,
/// whatever the outside world answers.
pub proof fn lemma_run_reduced(from: Run, replies: Replies, fuel: nat)
    requires
        progress_reduced(from.progress),
    ensures
        progress_reduced(run(from, replies, fuel).progress),
    decreases fuel,
{
    if fuel > 0 {
        match from.progress {
            ProgressView::Running(state) => {
                lemma_step_reduced(state);
                lemma_run_reduced(
                    Run { progress: step(state), asked: from.asked },
                    replies,
                    (fuel - 1) as nat,
                );
            },
            ProgressView::NeedsValue(_, pending) => {
                lemma_run_reduced(
                    Run {
                        progress: resume_value(pending, (replies.values)(from.asked)),
                        asked: from.asked + 1,
                    },
                    replies,
                    (fuel - 1) as nat,
                );
            },
            ProgressView::NeedsEffect(_, pending) => {
                lemma_run_reduced(
                    Run {
                        progress: resume_effect(pending, (replies.effects)(from.asked)),
                        asked: from.asked + 1,
                    },
                    replies,
                    (fuel - 1) as nat,
                );
            },
            _ => {},
        }
    }
}

} // verus!
