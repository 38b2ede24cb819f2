use r_python::interpreter::error::Error;
use r_python::interpreter::error::Operation;
use r_python::interpreter::interpreter::add;
use r_python::interpreter::interpreter::and;
use r_python::interpreter::interpreter::apply_binary;
use r_python::interpreter::interpreter::call;
use r_python::interpreter::interpreter::div;
use r_python::interpreter::interpreter::eq;
use r_python::interpreter::interpreter::eval;
use r_python::interpreter::interpreter::eval_binary_arith_op;
use r_python::interpreter::interpreter::eval_binary_boolean_op;
use r_python::interpreter::interpreter::eval_binary_rel_op;
use r_python::interpreter::interpreter::execute;
use r_python::interpreter::interpreter::gt;
use r_python::interpreter::interpreter::gte;
use r_python::interpreter::interpreter::is_constant;
use r_python::interpreter::interpreter::lt;
use r_python::interpreter::interpreter::lte;
use r_python::interpreter::interpreter::mul;
use r_python::interpreter::interpreter::not;
use r_python::interpreter::interpreter::or;
use r_python::interpreter::interpreter::sub;
use r_python::interpreter::interpreter::ControlFlow;
use r_python::interpreter::interpreter::EnvValue;
use r_python::interpreter::interpreter::Reduction;
use r_python::interpreter::machine::Cont;
use r_python::interpreter::machine::Control;
use r_python::interpreter::machine::EffectRequest;
use r_python::interpreter::machine::Machine;
use r_python::interpreter::machine::Progress;
use r_python::interpreter::machine::ValueRequest;
use r_python::interpreter::numeric::Number;
use r_python::ir::ast::ArithOp;
use r_python::ir::ast::BinaryOp;
use r_python::ir::ast::BoolOp;
use r_python::ir::ast::Expression;
use r_python::ir::ast::Expression::{
    Add, And, CFalse, CInt, CReal, CString, CTrue, Div, FuncCall, Mul, Not, Or, ReadFile,
    ReadFloat, ReadInt, ReadString, Sub, Var, EQ, GT, GTE, LT, LTE,
};
use r_python::ir::ast::Function;
use r_python::ir::ast::Real;
use r_python::ir::ast::RelOp;
use r_python::ir::ast::Statement;
use r_python::ir::ast::Statement::{
    Assignment, FuncDef, IfThenElse, Print, Return, Sequence, While, WriteToFile,
};
use r_python::ir::ast::Type::{TInteger, TString};
use r_python::ir::environment::Environment;

/// An outside world held in memory: files by path and the lines printed.
struct World {
    files: Vec<(String, String)>,
    printed: Vec<String>,
    requests: usize,
}

fn world() -> World {
    World { files: Vec::new(), printed: Vec::new(), requests: 0 }
}

fn real_of(x: f64) -> Real {
    Real { bits: x.to_bits() }
}

fn double(n: Number) -> f64 {
    match n {
        Number::Int(i) => i as f64,
        Number::Real(r) => f64::from_bits(r.bits),
    }
}

fn drive(machine: Machine, world: &mut World) -> Progress {
    let mut progress = Progress::Running(machine);
    loop {
        progress = match progress {
            Progress::Running(machine) => machine.advance(1000),
            Progress::NeedsValue(request, waiter) => {
                world.requests += 1;
                match request {
                    ValueRequest::Arith(op, lhs, rhs) => {
                        let (a, b) = (double(lhs), double(rhs));
                        waiter.supply_real(real_of(match op {
                            ArithOp::Add => a + b,
                            ArithOp::Sub => a - b,
                            ArithOp::Mul => a * b,
                            ArithOp::Div => a / b,
                        }))
                    }
                    ValueRequest::Compare(op, lhs, rhs) => {
                        let (a, b) = (double(lhs), double(rhs));
                        waiter.supply_truth(match op {
                            RelOp::EQ => a == b,
                            RelOp::GT => a > b,
                            RelOp::LT => a < b,
                            RelOp::GTE => a >= b,
                            RelOp::LTE => a <= b,
                        })
                    }
                    ValueRequest::ReadFile(path) => {
                        match world.files.iter().find(|(p, _)| *p == path) {
                            Some((_, content)) => waiter.supply_text(content.clone()),
                            None => waiter.fail(format!("{}: not found", path)),
                        }
                    }
                }
            }
            Progress::NeedsEffect(request, waiter) => {
                world.requests += 1;
                match request {
                    EffectRequest::WriteFile(path, content) => {
                        if path.is_empty() {
                            waiter.fail("empty path".to_string())
                        } else {
                            world.files.retain(|(p, _)| *p != path);
                            world.files.push((path, content));
                            waiter.proceed()
                        }
                    }
                    EffectRequest::PrintLine(text) => {
                        world.printed.push(text);
                        waiter.proceed()
                    }
                    EffectRequest::PrintReal(r) => {
                        world.printed.push(format!("{}", f64::from_bits(r.bits)));
                        waiter.proceed()
                    }
                }
            }
            done => return done,
        }
    }
}

fn evaluate_in(exp: Expression, env: &Environment, world: &mut World) -> Result<EnvValue, Error> {
    match drive(Machine::evaluating(exp, env), world) {
        Progress::Evaluated(value) => Ok(value),
        Progress::Failed(error) => Err(error),
        other => panic!("an expression ended with {:?}", other),
    }
}

fn evaluate(exp: Expression, env: &Environment) -> Result<EnvValue, Error> {
    evaluate_in(exp, env, &mut world())
}

fn run_in(stmt: Statement, env: &Environment, world: &mut World) -> Result<ControlFlow, Error> {
    match drive(Machine::executing(stmt, env), world) {
        Progress::Executed(flow) => Ok(flow),
        Progress::Failed(error) => Err(error),
        other => panic!("a statement ended with {:?}", other),
    }
}

fn run(stmt: Statement, env: &Environment) -> Result<ControlFlow, Error> {
    run_in(stmt, env, &mut world())
}

fn env_after(stmt: Statement, env: &Environment) -> Environment {
    match run(stmt, env) {
        Ok(ControlFlow::Continue(env)) => env,
        other => panic!("the statement ended with {:?}", other),
    }
}

fn boxed(exp: Expression) -> Box<Expression> {
    Box::new(exp)
}

fn var(name: &str) -> Expression {
    Var(name.to_string())
}

fn assign(name: &str, exp: Expression) -> Statement {
    Assignment(name.to_string(), boxed(exp), None)
}

fn seq(first: Statement, second: Statement) -> Statement {
    Sequence(Box::new(first), Box::new(second))
}

fn text(s: &str) -> Expression {
    CString(s.to_string())
}

fn value(exp: Expression) -> EnvValue {
    EnvValue::Exp(exp)
}

fn function(name: &str, params: Option<Vec<&str>>, body: Option<Statement>) -> Function {
    Function {
        name: name.to_string(),
        kind: Some(TInteger),
        params: params.map(|names| names.into_iter().map(|n| (n.to_string(), TInteger)).collect()),
        body: body.map(Box::new),
    }
}

fn found(env: &Environment, name: &str) -> Option<EnvValue> {
    env.search_frame(name.to_string()).cloned()
}

/* constants */

#[test]
fn constants_evaluate_to_themselves() {
    let env = Environment::new();
    for constant in [CTrue, CFalse, CInt(-5), CReal(real_of(2.5)), text("hello")] {
        assert_eq!(evaluate(constant.clone(), &env), Ok(value(constant)));
    }
}

#[test]
fn evaluating_a_constant_twice_gives_the_same_and_asks_nothing() {
    let mut env = Environment::new();
    env.insert_variable("x".to_string(), value(CInt(1)));
    let before = env.clone();
    let mut world = world();
    let first = evaluate_in(CInt(42), &env, &mut world);
    let second = evaluate_in(CInt(42), &env, &mut world);
    assert_eq!(first, Ok(value(CInt(42))));
    assert_eq!(second, first);
    assert_eq!(world.requests, 0);
    assert!(world.printed.is_empty());
    assert!(world.files.is_empty());
    assert_eq!(env, before);
}

#[test]
fn a_constant_takes_two_steps() {
    let env = Environment::new();
    let machine = Machine::evaluating(CInt(7), &env);
    let second = match machine.step() {
        Progress::Running(machine) => machine,
        other => panic!("{:?}", other),
    };
    assert_eq!(second.control, Control::Value(value(CInt(7))));
    assert!(second.stack.is_empty());
    assert_eq!(second.step(), Progress::Evaluated(value(CInt(7))));
}

#[test]
fn only_constants_are_constant() {
    assert!(is_constant(&CTrue));
    assert!(is_constant(&CFalse));
    assert!(is_constant(&CInt(0)));
    assert!(is_constant(&CReal(real_of(0.5))));
    assert!(is_constant(&text("")));
    assert!(!is_constant(&var("x")));
    assert!(!is_constant(&ReadString));
    assert!(!is_constant(&Add(boxed(CInt(1)), boxed(CInt(2)))));
    assert!(!is_constant(&Not(boxed(CTrue))));
    assert!(!is_constant(&FuncCall("f".to_string(), vec![])));
}

/* arithmetic */

#[test]
fn mixed_arithmetic_gives_a_real() {
    let env = Environment::new();
    assert_eq!(
        evaluate(Add(boxed(CInt(10)), boxed(CReal(real_of(20.5)))), &env),
        Ok(value(CReal(real_of(30.5))))
    );
    assert_eq!(
        evaluate(Add(boxed(CReal(real_of(20.5))), boxed(CInt(10))), &env),
        Ok(value(CReal(real_of(30.5))))
    );
    assert_eq!(
        evaluate(Mul(boxed(CReal(real_of(1.5))), boxed(CReal(real_of(2.0)))), &env),
        Ok(value(CReal(real_of(3.0))))
    );
    assert_eq!(
        evaluate(Div(boxed(CReal(real_of(4.0))), boxed(CInt(2))), &env),
        Ok(value(CReal(real_of(2.0))))
    );
    assert_eq!(
        evaluate(Sub(boxed(CInt(1)), boxed(CReal(real_of(0.5)))), &env),
        Ok(value(CReal(real_of(0.5))))
    );
}

#[test]
fn mixed_arithmetic_asks_the_outside_world() {
    assert_eq!(
        add(value(CInt(10)), value(CReal(real_of(20.5)))),
        Ok(Reduction::Ask(ValueRequest::Arith(
            ArithOp::Add,
            Number::Int(10),
            Number::Real(real_of(20.5))
        )))
    );
    assert_eq!(
        div(value(CReal(real_of(1.0))), value(CReal(real_of(3.0)))),
        Ok(Reduction::Ask(ValueRequest::Arith(
            ArithOp::Div,
            Number::Real(real_of(1.0)),
            Number::Real(real_of(3.0))
        )))
    );
    assert_eq!(
        lt(value(CReal(real_of(1.0))), value(CInt(3))),
        Ok(Reduction::Ask(ValueRequest::Compare(
            RelOp::LT,
            Number::Real(real_of(1.0)),
            Number::Int(3)
        )))
    );
}

#[test]
fn integer_arithmetic_is_computed_at_once() {
    assert_eq!(add(value(CInt(10)), value(CInt(20))), Ok(Reduction::Value(value(CInt(30)))));
    assert_eq!(sub(value(CInt(10)), value(CInt(20))), Ok(Reduction::Value(value(CInt(-10)))));
    assert_eq!(mul(value(CInt(10)), value(CInt(20))), Ok(Reduction::Value(value(CInt(200)))));
    assert_eq!(div(value(CInt(10)), value(CInt(3))), Ok(Reduction::Value(value(CInt(3)))));
    assert_eq!(div(value(CInt(21)), value(CInt(3))), Ok(Reduction::Value(value(CInt(7)))));
    assert_eq!(div(value(CInt(-7)), value(CInt(2))), Ok(Reduction::Value(value(CInt(-3)))));
    assert_eq!(
        eval_binary_arith_op(ArithOp::Add, value(CInt(i32::MAX)), value(CInt(1))),
        Ok(Reduction::Value(value(CInt(i32::MAX))))
    );
    assert_eq!(
        apply_binary(BinaryOp::Arith(ArithOp::Mul), value(CInt(3)), value(CInt(4))),
        Ok(Reduction::Value(value(CInt(12))))
    );
}

#[test]
fn integer_division_by_zero_is_no_error() {
    let env = Environment::new();
    assert_eq!(evaluate(Div(boxed(CInt(5)), boxed(CInt(0))), &env), Ok(value(CInt(i32::MAX))));
    assert_eq!(evaluate(Div(boxed(CInt(-5)), boxed(CInt(0))), &env), Ok(value(CInt(i32::MIN))));
    assert_eq!(evaluate(Div(boxed(CInt(0)), boxed(CInt(0))), &env), Ok(value(CInt(0))));
}

#[test]
fn arithmetic_is_defined_for_numbers_only() {
    let env = Environment::new();
    let cases: Vec<(Expression, ArithOp, &str)> = vec![
        (
            Add(boxed(CInt(1)), boxed(CTrue)),
            ArithOp::Add,
            "addition '(+)' is only defined for numbers (integers and real).",
        ),
        (
            Sub(boxed(text("a")), boxed(CInt(1))),
            ArithOp::Sub,
            "subtraction '(-)' is only defined for numbers (integers and real).",
        ),
        (
            Mul(boxed(CFalse), boxed(CReal(real_of(1.0)))),
            ArithOp::Mul,
            "multiplication '(*)' is only defined for numbers (integers and real).",
        ),
        (
            Div(boxed(text("a")), boxed(text("b"))),
            ArithOp::Div,
            "division '(/)' is only defined for numbers (integers and real).",
        ),
    ];
    for (exp, op, message) in cases {
        let error = evaluate(exp, &env).unwrap_err();
        assert_eq!(error, Error::TypeError(Operation::Binary(BinaryOp::Arith(op))));
        assert_eq!(error.message(), message);
    }
}

/* relations */

#[test]
fn relations_compare_numbers() {
    let env = Environment::new();
    assert_eq!(evaluate(EQ(boxed(CInt(3)), boxed(CInt(3))), &env), Ok(value(CTrue)));
    assert_eq!(evaluate(EQ(boxed(CInt(3)), boxed(CInt(4))), &env), Ok(value(CFalse)));
    assert_eq!(evaluate(GT(boxed(CInt(4)), boxed(CInt(3))), &env), Ok(value(CTrue)));
    assert_eq!(evaluate(LT(boxed(CInt(4)), boxed(CInt(3))), &env), Ok(value(CFalse)));
    assert_eq!(evaluate(GTE(boxed(CInt(3)), boxed(CInt(3))), &env), Ok(value(CTrue)));
    assert_eq!(evaluate(LTE(boxed(CInt(4)), boxed(CInt(3))), &env), Ok(value(CFalse)));
    assert_eq!(
        evaluate(EQ(boxed(CInt(3)), boxed(CReal(real_of(3.0)))), &env),
        Ok(value(CTrue))
    );
    assert_eq!(
        evaluate(LT(boxed(CReal(real_of(2.5))), boxed(CInt(3))), &env),
        Ok(value(CTrue))
    );
    assert_eq!(
        evaluate(GTE(boxed(CReal(real_of(2.5))), boxed(CReal(real_of(3.5)))), &env),
        Ok(value(CFalse))
    );
    assert_eq!(eq(value(CInt(1)), value(CInt(1))), Ok(Reduction::Value(value(CTrue))));
    assert_eq!(gt(value(CInt(1)), value(CInt(1))), Ok(Reduction::Value(value(CFalse))));
    assert_eq!(gte(value(CInt(1)), value(CInt(1))), Ok(Reduction::Value(value(CTrue))));
    assert_eq!(lte(value(CInt(2)), value(CInt(1))), Ok(Reduction::Value(value(CFalse))));
    assert_eq!(
        eval_binary_rel_op(RelOp::LT, value(CInt(-1)), value(CInt(1))),
        Ok(Reduction::Value(value(CTrue)))
    );
}

#[test]
fn equality_is_not_defined_for_strings_and_booleans() {
    let env = Environment::new();
    let strings = evaluate(EQ(boxed(text("a")), boxed(text("a"))), &env).unwrap_err();
    assert_eq!(strings, Error::TypeError(Operation::Binary(BinaryOp::Rel(RelOp::EQ))));
    assert_eq!(strings.message(), "(==) is only defined for numbers (integers and real).");
    assert_eq!(
        evaluate(EQ(boxed(CTrue), boxed(CTrue)), &env),
        Err(Error::TypeError(Operation::Binary(BinaryOp::Rel(RelOp::EQ))))
    );
    let messages = [
        (RelOp::GT, "(>) is only defined for numbers (integers and real)."),
        (RelOp::LT, "(<) is only defined for numbers (integers and real)."),
        (RelOp::GTE, "(>=) is only defined for numbers (integers and real)."),
        (RelOp::LTE, "(<=) is only defined for numbers (integers and real)."),
    ];
    for (op, message) in messages {
        let error = eval_binary_rel_op(op, value(CInt(1)), value(CTrue)).unwrap_err();
        assert_eq!(error, Error::TypeError(Operation::Binary(BinaryOp::Rel(op))));
        assert_eq!(error.message(), message);
    }
}

/* booleans */

#[test]
fn boolean_operators_on_booleans() {
    let env = Environment::new();
    assert_eq!(evaluate(And(boxed(CTrue), boxed(CTrue)), &env), Ok(value(CTrue)));
    assert_eq!(evaluate(And(boxed(CTrue), boxed(CFalse)), &env), Ok(value(CFalse)));
    assert_eq!(evaluate(Or(boxed(CFalse), boxed(CTrue)), &env), Ok(value(CTrue)));
    assert_eq!(evaluate(Or(boxed(CFalse), boxed(CFalse)), &env), Ok(value(CFalse)));
    assert_eq!(evaluate(Not(boxed(CFalse)), &env), Ok(value(CTrue)));
    assert_eq!(evaluate(Not(boxed(CTrue)), &env), Ok(value(CFalse)));
    assert_eq!(and(value(CTrue), value(CFalse)), Ok(value(CFalse)));
    assert_eq!(or(value(CTrue), value(CFalse)), Ok(value(CTrue)));
    assert_eq!(not(value(CTrue)), Ok(value(CFalse)));
    assert_eq!(
        eval_binary_boolean_op(BoolOp::Or, value(CFalse), value(CFalse)),
        Ok(value(CFalse))
    );
}

#[test]
fn boolean_operators_are_defined_for_booleans_only() {
    let and_error = and(value(CInt(1)), value(CTrue)).unwrap_err();
    assert_eq!(and_error, Error::TypeError(Operation::Binary(BinaryOp::Bool(BoolOp::And))));
    assert_eq!(and_error.message(), "'and' is only defined for booleans.");
    let or_error = or(value(CTrue), value(text("x"))).unwrap_err();
    assert_eq!(or_error, Error::TypeError(Operation::Binary(BinaryOp::Bool(BoolOp::Or))));
    assert_eq!(or_error.message(), "'or' is only defined for booleans.");
    let not_error = not(value(CInt(0))).unwrap_err();
    assert_eq!(not_error, Error::TypeError(Operation::Not));
    assert_eq!(not_error.message(), "'not' is only defined for booleans.");
}

#[test]
fn and_or_evaluate_both_operands() {
    let env = Environment::new();
    assert_eq!(
        evaluate(And(boxed(CFalse), boxed(var("missing"))), &env),
        Err(Error::UndefinedName("missing".to_string()))
    );
    assert_eq!(
        evaluate(Or(boxed(CTrue), boxed(var("missing"))), &env),
        Err(Error::UndefinedName("missing".to_string()))
    );
    assert_eq!(
        evaluate(Or(boxed(CTrue), boxed(Add(boxed(CInt(1)), boxed(CTrue)))), &env),
        Err(Error::TypeError(Operation::Binary(BinaryOp::Arith(ArithOp::Add))))
    );
    assert_eq!(
        evaluate(And(boxed(CFalse), boxed(CInt(1))), &env),
        Err(Error::TypeError(Operation::Binary(BinaryOp::Bool(BoolOp::And))))
    );
}

#[test]
fn left_operand_is_evaluated_before_the_right_one() {
    let env = Environment::new();
    assert_eq!(
        evaluate(Add(boxed(var("first")), boxed(var("second"))), &env),
        Err(Error::UndefinedName("first".to_string()))
    );
    assert_eq!(
        evaluate(Add(boxed(CTrue), boxed(var("second"))), &env),
        Err(Error::UndefinedName("second".to_string()))
    );
}

/* variables and assignment */

#[test]
fn undefined_variable_is_an_error() {
    let env = Environment::new();
    let error = evaluate(var("nowhere"), &env).unwrap_err();
    assert_eq!(error, Error::UndefinedName("nowhere".to_string()));
    assert_eq!(error.message(), "undefined name: nowhere");
}

#[test]
fn assignment_then_lookup_round_trips() {
    let env = Environment::new();
    let after = env_after(Assignment("x".to_string(), boxed(CInt(42)), Some(TInteger)), &env);
    assert_eq!(found(&after, "x"), Some(value(CInt(42))));
    assert_eq!(evaluate(var("x"), &after), Ok(value(CInt(42))));
    assert_eq!(found(&env, "x"), None);
}

#[test]
fn execution_works_on_a_copy_of_the_environment() {
    let mut env = Environment::new();
    env.insert_variable("x".to_string(), value(CInt(1)));
    let after = env_after(assign("x", CInt(2)), &env);
    assert_eq!(found(&after, "x"), Some(value(CInt(2))));
    assert_eq!(found(&env, "x"), Some(value(CInt(1))));
}

/* conditionals and loops */

#[test]
fn conditional_without_else_does_nothing_on_false() {
    let mut env = Environment::new();
    env.insert_variable("y".to_string(), value(CInt(0)));
    let stmt = IfThenElse(boxed(CFalse), Box::new(assign("y", CInt(1))), None);
    let after = env_after(stmt, &env);
    assert_eq!(after, env);
}

#[test]
fn condition_must_be_a_boolean() {
    let env = Environment::new();
    let conditional = IfThenElse(boxed(CInt(1)), Box::new(assign("y", CInt(1))), None);
    let error = run(conditional, &env).unwrap_err();
    assert_eq!(error, Error::TypeError(Operation::If));
    assert_eq!(error.message(), "the condition of 'if' must be a boolean.");
    let repeated = While(boxed(text("yes")), Box::new(assign("y", CInt(1))));
    let error = run(repeated, &env).unwrap_err();
    assert_eq!(error, Error::TypeError(Operation::While));
    assert_eq!(error.message(), "the condition of 'while' must be a boolean.");
}

#[test]
fn loop_accumulates() {
    let env = Environment::new();
    let program = seq(
        assign("x", CInt(10)),
        seq(
            assign("y", CInt(0)),
            While(
                boxed(GT(boxed(var("x")), boxed(CInt(0)))),
                Box::new(seq(
                    assign("y", Add(boxed(var("y")), boxed(var("x")))),
                    assign("x", Sub(boxed(var("x")), boxed(CInt(1)))),
                )),
            ),
        ),
    );
    let after = env_after(program, &env);
    assert_eq!(found(&after, "x"), Some(value(CInt(0))));
    assert_eq!(found(&after, "y"), Some(value(CInt(55))));
}

#[test]
fn loop_with_false_condition_leaves_the_environment() {
    let mut env = Environment::new();
    env.insert_variable("x".to_string(), value(CInt(0)));
    let stmt = While(boxed(GT(boxed(var("x")), boxed(CInt(0)))), Box::new(assign("x", CInt(9))));
    assert_eq!(env_after(stmt, &env), env);
}

#[test]
fn loop_runs_long_without_growing_the_frame() {
    let env = Environment::new();
    let program = seq(
        assign("n", CInt(0)),
        While(
            boxed(LT(boxed(var("n")), boxed(CInt(20000)))),
            Box::new(assign("n", Add(boxed(var("n")), boxed(CInt(1))))),
        ),
    );
    let after = env_after(program, &env);
    assert_eq!(found(&after, "n"), Some(value(CInt(20000))));
    let mut expected = Environment::new();
    expected.insert_variable("n".to_string(), value(CInt(20000)));
    assert_eq!(after, expected);
}

#[test]
fn return_in_a_loop_ends_it_at_once() {
    let env = Environment::new();
    let program = seq(
        assign("x", CInt(0)),
        seq(
            While(
                boxed(CTrue),
                Box::new(seq(
                    assign("x", Add(boxed(var("x")), boxed(CInt(1)))),
                    IfThenElse(
                        boxed(GTE(boxed(var("x")), boxed(CInt(3)))),
                        Box::new(Return(boxed(var("x")))),
                        None,
                    ),
                )),
            ),
            assign("x", CInt(100)),
        ),
    );
    assert_eq!(run(program, &env), Ok(ControlFlow::Return(value(CInt(3)))));
}

#[test]
fn return_skips_the_rest_of_a_sequence() {
    let env = Environment::new();
    let mut world = world();
    let program = seq(
        Return(boxed(CInt(1))),
        seq(Print(boxed(text("never"))), Return(boxed(var("missing")))),
    );
    assert_eq!(run_in(program, &env, &mut world), Ok(ControlFlow::Return(value(CInt(1)))));
    assert!(world.printed.is_empty());
}

/* functions */

fn double_function() -> Function {
    function(
        "twice",
        Some(vec!["n"]),
        Some(Return(boxed(Mul(boxed(var("n")), boxed(CInt(2)))))),
    )
}

#[test]
fn function_definition_binds_the_function() {
    let env = Environment::new();
    let after = env_after(FuncDef(double_function()), &env);
    assert_eq!(found(&after, "twice"), Some(EnvValue::Func(double_function())));
}

#[test]
fn call_gives_the_returned_value() {
    let env = env_after(FuncDef(double_function()), &Environment::new());
    assert_eq!(
        evaluate(FuncCall("twice".to_string(), vec![CInt(21)]), &env),
        Ok(value(CInt(42)))
    );
}

#[test]
fn call_leaves_the_environment_of_the_caller() {
    let setter = function(
        "setter",
        Some(vec!["a"]),
        Some(seq(
            assign("x", CInt(99)),
            seq(assign("local", var("a")), Return(boxed(var("x")))),
        )),
    );
    let mut env = Environment::new();
    env.insert_variable("x".to_string(), value(CInt(1)));
    let env = env_after(FuncDef(setter), &env);
    let after = env_after(
        assign("r", FuncCall("setter".to_string(), vec![CInt(5)])),
        &env,
    );
    assert_eq!(found(&after, "r"), Some(value(CInt(99))));
    assert_eq!(found(&after, "x"), Some(value(CInt(1))));
    assert_eq!(found(&after, "local"), None);
    assert_eq!(found(&after, "a"), None);
    assert_eq!(after.scope_key(), 0);
}

#[test]
fn callee_sees_the_variables_of_the_caller() {
    let reader = function("reader", Some(vec![]), Some(Return(boxed(var("outside")))));
    let mut env = Environment::new();
    env.insert_variable("outside".to_string(), value(CInt(7)));
    let env = env_after(FuncDef(reader), &env);
    assert_eq!(evaluate(FuncCall("reader".to_string(), vec![]), &env), Ok(value(CInt(7))));
}

#[test]
fn arguments_are_bound_in_order_in_the_frame_of_the_call() {
    let pair = function(
        "pair",
        Some(vec!["a", "b"]),
        Some(Return(boxed(Sub(boxed(var("a")), boxed(var("b")))))),
    );
    let env = env_after(FuncDef(pair), &Environment::new());
    assert_eq!(
        evaluate(FuncCall("pair".to_string(), vec![CInt(10), CInt(3)]), &env),
        Ok(value(CInt(7)))
    );
    assert_eq!(
        evaluate(
            FuncCall("pair".to_string(), vec![CInt(10), Add(boxed(var("a")), boxed(CInt(1)))]),
            &env
        ),
        Ok(value(CInt(-1)))
    );
}

#[test]
fn recursion_through_self_binding() {
    let countdown = function(
        "down",
        Some(vec!["n"]),
        Some(seq(
            IfThenElse(
                boxed(LTE(boxed(var("n")), boxed(CInt(0)))),
                Box::new(Return(boxed(CInt(0)))),
                None,
            ),
            Return(boxed(FuncCall(
                "down".to_string(),
                vec![Sub(boxed(var("n")), boxed(CInt(1)))],
            ))),
        )),
    );
    let mut env = Environment::new();
    env.insert_variable("alias".to_string(), EnvValue::Func(countdown));
    assert_eq!(found(&env, "down"), None);
    assert_eq!(evaluate(FuncCall("alias".to_string(), vec![CInt(5)]), &env), Ok(value(CInt(0))));
}

#[test]
fn deep_recursion_does_not_exhaust_the_host() {
    let countdown = function(
        "down",
        Some(vec!["n"]),
        Some(seq(
            IfThenElse(
                boxed(LTE(boxed(var("n")), boxed(CInt(0)))),
                Box::new(Return(boxed(CInt(0)))),
                None,
            ),
            Return(boxed(Add(
                boxed(CInt(1)),
                boxed(FuncCall("down".to_string(), vec![Sub(boxed(var("n")), boxed(CInt(1)))])),
            ))),
        )),
    );
    let env = env_after(FuncDef(countdown), &Environment::new());
    assert_eq!(
        evaluate(FuncCall("down".to_string(), vec![CInt(3000)]), &env),
        Ok(value(CInt(3000)))
    );
}

#[test]
fn calling_an_undefined_name_is_an_error() {
    let env = Environment::new();
    assert_eq!(
        evaluate(FuncCall("ghost".to_string(), vec![]), &env),
        Err(Error::UndefinedName("ghost".to_string()))
    );
}

#[test]
fn calling_a_constant_is_an_error() {
    let mut env = Environment::new();
    env.insert_variable("x".to_string(), value(CInt(1)));
    let error = evaluate(FuncCall("x".to_string(), vec![]), &env).unwrap_err();
    assert_eq!(error, Error::NotAFunction("x".to_string()));
    assert_eq!(error.message(), "not a function: x");
}

#[test]
fn wrong_number_of_arguments_is_an_error() {
    let env = env_after(FuncDef(double_function()), &Environment::new());
    let none = evaluate(FuncCall("twice".to_string(), vec![]), &env).unwrap_err();
    assert_eq!(
        none,
        Error::ArityMismatch { name: "twice".to_string(), expected: 1, found: 0 }
    );
    assert_eq!(none.message(), "wrong number of arguments in a call of twice");
    assert_eq!(
        evaluate(FuncCall("twice".to_string(), vec![CInt(1), CInt(2)]), &env),
        Err(Error::ArityMismatch { name: "twice".to_string(), expected: 1, found: 2 })
    );
    let bare = function("bare", None, Some(Return(boxed(CInt(1)))));
    let env = env_after(FuncDef(bare), &Environment::new());
    assert_eq!(evaluate(FuncCall("bare".to_string(), vec![]), &env), Ok(value(CInt(1))));
    assert_eq!(
        evaluate(FuncCall("bare".to_string(), vec![CInt(1)]), &env),
        Err(Error::ArityMismatch { name: "bare".to_string(), expected: 0, found: 1 })
    );
}

#[test]
fn arity_is_checked_before_any_argument_is_evaluated() {
    let env = env_after(FuncDef(double_function()), &Environment::new());
    assert_eq!(
        evaluate(FuncCall("twice".to_string(), vec![var("missing"), CInt(2)]), &env),
        Err(Error::ArityMismatch { name: "twice".to_string(), expected: 1, found: 2 })
    );
}

#[test]
fn body_without_return_is_an_error() {
    let silent = function("silent", Some(vec![]), Some(assign("x", CInt(1))));
    let env = env_after(FuncDef(silent), &Environment::new());
    let error = evaluate(FuncCall("silent".to_string(), vec![]), &env).unwrap_err();
    assert_eq!(error, Error::MissingReturn("silent".to_string()));
    assert_eq!(error.message(), "missing return in the body of silent");
}

#[test]
fn declaration_stub_cannot_be_called() {
    let stub = function("stub", Some(vec!["n"]), None);
    let env = env_after(FuncDef(stub), &Environment::new());
    let error = evaluate(FuncCall("stub".to_string(), vec![CInt(1)]), &env).unwrap_err();
    assert_eq!(error, Error::UnsupportedOperation);
    assert_eq!(error.message(), "Not implemented yet.");
}

#[test]
fn call_starts_by_opening_a_frame() {
    let env = env_after(FuncDef(double_function()), &Environment::new());
    match call("twice".to_string(), vec![CInt(21)], env, Vec::new()) {
        Progress::Running(machine) => {
            assert_eq!(machine.env.scope_key(), 1);
            assert_eq!(machine.control, Control::Eval(CInt(21)));
            assert_eq!(
                machine.stack,
                vec![Cont::Argument { func: double_function(), args: vec![CInt(21)], next: 0 }]
            );
        }
        other => panic!("{:?}", other),
    }
}

/* single steps */

#[test]
fn binary_expression_takes_up_its_left_operand() {
    let env = Environment::new();
    match eval(And(boxed(CFalse), boxed(var("y"))), env, vec![Cont::Print]) {
        Progress::Running(machine) => {
            assert_eq!(machine.control, Control::Eval(CFalse));
            assert_eq!(
                machine.stack,
                vec![Cont::Print, Cont::BinaryLeft(BinaryOp::Bool(BoolOp::And), var("y"))]
            );
            match machine.step() {
                Progress::Running(machine) => match machine.step() {
                    Progress::Running(machine) => {
                        assert_eq!(machine.control, Control::Eval(var("y")));
                        assert_eq!(
                            machine.stack,
                            vec![
                                Cont::Print,
                                Cont::BinaryRight(BinaryOp::Bool(BoolOp::And), value(CFalse))
                            ]
                        );
                    }
                    other => panic!("{:?}", other),
                },
                other => panic!("{:?}", other),
            }
        }
        other => panic!("{:?}", other),
    }
}

#[test]
fn statement_takes_up_its_first_part() {
    let env = Environment::new();
    match execute(seq(assign("x", CInt(1)), assign("y", CInt(2))), env, Vec::new()) {
        Progress::Running(machine) => {
            assert_eq!(machine.control, Control::Exec(assign("x", CInt(1))));
            assert_eq!(machine.stack, vec![Cont::Then(assign("y", CInt(2)))]);
        }
        other => panic!("{:?}", other),
    }
}

/* input and output */

#[test]
fn reading_from_standard_input_has_no_rule() {
    let env = Environment::new();
    for exp in [ReadString, ReadInt, ReadFloat] {
        assert_eq!(evaluate(exp, &env), Err(Error::UnsupportedOperation));
    }
    assert_eq!(
        run(Print(boxed(ReadString)), &env),
        Err(Error::UnsupportedOperation)
    );
}

#[test]
fn print_renders_each_kind_of_constant() {
    let env = Environment::new();
    let mut world = world();
    let program = seq(
        Print(boxed(CInt(-12))),
        seq(
            Print(boxed(text("hello, world!"))),
            seq(
                Print(boxed(CTrue)),
                seq(
                    Print(boxed(CFalse)),
                    seq(
                        Print(boxed(CReal(real_of(2.5)))),
                        Print(boxed(Add(boxed(CReal(real_of(3.15))), boxed(CReal(real_of(2.1)))))),
                    ),
                ),
            ),
        ),
    );
    let after = match run_in(program, &env, &mut world) {
        Ok(ControlFlow::Continue(after)) => after,
        other => panic!("{:?}", other),
    };
    assert_eq!(after, env);
    assert_eq!(
        world.printed,
        vec!["-12", "hello, world!", "true", "false", "2.5", "5.25"]
    );
}

#[test]
fn function_cannot_be_printed() {
    let env = env_after(FuncDef(double_function()), &Environment::new());
    let mut world = world();
    let error = run_in(Print(boxed(var("twice"))), &env, &mut world).unwrap_err();
    assert_eq!(error, Error::TypeError(Operation::Print));
    assert_eq!(error.message(), "Cannot print this type of value");
    assert!(world.printed.is_empty());
}

#[test]
fn write_then_read_round_trips() {
    let env = Environment::new();
    let mut world = world();
    let program = seq(
        WriteToFile(boxed(text("notes.txt")), boxed(text("first"))),
        seq(
            WriteToFile(boxed(text("notes.txt")), boxed(text("line one\nline two"))),
            Assignment("content".to_string(), boxed(ReadFile(boxed(text("notes.txt")))), Some(TString)),
        ),
    );
    let after = match run_in(program, &env, &mut world) {
        Ok(ControlFlow::Continue(after)) => after,
        other => panic!("{:?}", other),
    };
    assert_eq!(found(&after, "content"), Some(value(text("line one\nline two"))));
    assert_eq!(
        world.files,
        vec![("notes.txt".to_string(), "line one\nline two".to_string())]
    );
}

#[test]
fn failure_of_the_outside_world_is_an_error() {
    let env = Environment::new();
    let read = evaluate(ReadFile(boxed(text("nowhere.txt"))), &env).unwrap_err();
    assert_eq!(read, Error::IoFailure("nowhere.txt: not found".to_string()));
    assert_eq!(read.message(), "nowhere.txt: not found");
    assert_eq!(
        run(WriteToFile(boxed(text("")), boxed(text("x"))), &env),
        Err(Error::IoFailure("empty path".to_string()))
    );
}

#[test]
fn file_paths_and_contents_must_be_strings() {
    let env = Environment::new();
    let read = evaluate(ReadFile(boxed(CInt(1))), &env).unwrap_err();
    assert_eq!(read, Error::TypeError(Operation::ReadFile));
    assert_eq!(read.message(), "read_file expects a string as the file path");
    let write = run(WriteToFile(boxed(text("a.txt")), boxed(CInt(1))), &env).unwrap_err();
    assert_eq!(write, Error::TypeError(Operation::WriteToFile));
    assert_eq!(write.message(), "write_to_file expects two string arguments");
    assert_eq!(
        run(WriteToFile(boxed(CTrue), boxed(text("x"))), &env),
        Err(Error::TypeError(Operation::WriteToFile))
    );
}

#[test]
fn both_operands_of_a_write_are_evaluated_before_they_are_checked() {
    let env = Environment::new();
    assert_eq!(
        run(WriteToFile(boxed(CInt(1)), boxed(var("missing"))), &env),
        Err(Error::UndefinedName("missing".to_string()))
    );
}

/* steps that need no outside work */

#[test]
fn integer_programs_run_without_the_outside_world() {
    let env = Environment::new();
    let exp = Add(
        boxed(Mul(boxed(CInt(2)), boxed(CInt(3)))),
        boxed(Sub(boxed(CInt(10)), boxed(CInt(4)))),
    );
    assert_eq!(
        Machine::evaluating(exp, &env).advance(100),
        Progress::Evaluated(value(CInt(12)))
    );
    let mut expected = Environment::new();
    expected.insert_variable("x".to_string(), value(CInt(42)));
    assert_eq!(
        Machine::executing(assign("x", CInt(42)), &env).advance(4),
        Progress::Executed(ControlFlow::Continue(expected))
    );
}

#[test]
fn advancing_stops_at_a_request() {
    let env = Environment::new();
    let exp = Add(boxed(CInt(1)), boxed(Mul(boxed(CInt(2)), boxed(CReal(real_of(1.5))))));
    match Machine::evaluating(exp, &env).advance(u64::MAX) {
        Progress::NeedsValue(request, waiter) => {
            assert_eq!(
                request,
                ValueRequest::Arith(ArithOp::Mul, Number::Int(2), Number::Real(real_of(1.5)))
            );
            assert_eq!(
                waiter.stack,
                vec![Cont::BinaryRight(BinaryOp::Arith(ArithOp::Add), value(CInt(1)))]
            );
            match waiter.supply_real(real_of(3.0)) {
                Progress::Running(machine) => assert_eq!(
                    machine.advance(u64::MAX),
                    Progress::NeedsValue(
                        ValueRequest::Arith(
                            ArithOp::Add,
                            Number::Int(1),
                            Number::Real(real_of(3.0))
                        ),
                        r_python::interpreter::machine::ValueWaiter {
                            env: Environment::new(),
                            stack: vec![]
                        }
                    )
                ),
                other => panic!("{:?}", other),
            }
        }
        other => panic!("{:?}", other),
    }
}

#[test]
fn advancing_stops_when_the_budget_is_spent() {
    let env = Environment::new();
    let endless = While(boxed(CTrue), Box::new(assign("x", CInt(1))));
    match Machine::executing(endless, &env).advance(1000) {
        Progress::Running(machine) => assert_eq!(machine.env.scope_key(), 0),
        other => panic!("{:?}", other),
    }
    let machine = Machine::evaluating(CInt(1), &env);
    assert_eq!(
        machine.advance(0),
        Progress::Running(Machine::evaluating(CInt(1), &env))
    );
    assert_eq!(
        Machine::evaluating(CInt(1), &env).advance(1),
        Progress::Running(Machine {
            env: Environment::new(),
            control: Control::Value(value(CInt(1))),
            stack: vec![]
        })
    );
    assert_eq!(
        Machine::evaluating(CInt(1), &env).advance(2),
        Progress::Evaluated(value(CInt(1)))
    );
}

#[test]
fn argument_that_is_none_of_the_call_is_refused() {
    let misplaced = Machine {
        env: Environment::new(),
        control: Control::Value(value(CInt(1))),
        stack: vec![Cont::Argument { func: double_function(), args: vec![CInt(1)], next: 1 }],
    };
    assert_eq!(
        misplaced.step(),
        Progress::Failed(Error::ArityMismatch { name: "twice".to_string(), expected: 1, found: 1 })
    );
    let unmatched = Machine {
        env: Environment::new(),
        control: Control::Value(value(CInt(1))),
        stack: vec![Cont::Argument {
            func: function("bare", None, None),
            args: vec![CInt(1), CInt(2)],
            next: 0,
        }],
    };
    assert_eq!(
        unmatched.step(),
        Progress::Failed(Error::ArityMismatch { name: "bare".to_string(), expected: 0, found: 2 })
    );
}

#[test]
fn continuation_that_takes_no_value_is_dropped() {
    let machine = Machine {
        env: Environment::new(),
        control: Control::Value(value(CInt(1))),
        stack: vec![Cont::Then(assign("x", CInt(2)))],
    };
    assert_eq!(
        machine.step(),
        Progress::Running(Machine {
            env: Environment::new(),
            control: Control::Value(value(CInt(1))),
            stack: vec![]
        })
    );
}
