//! Abstract syntax: expressions, statements and function definitions.
//!
//! Each tree type has a mathematical view in which names and texts are
//! sequences of characters and argument lists are sequences of views. The
//! views are what every contract of the crate speaks of.
use vstd::prelude::*;

verus! {

/// A variable or function name.
pub type Name = String;

/// A declared type. Declarations are advisory: evaluation never reads them.
#[derive(Clone, Copy, Debug, PartialEq, Eq)]
pub enum Type {
    TInteger,
    TBool,
    TReal,
    TString,
}

/// A real number, carried as the 64 bits of its IEEE 754 double-precision
/// encoding. The library moves reals around and never computes with them.
#[derive(Clone, Copy, Debug, PartialEq, Eq)]
pub struct Real {
    pub bits: u64,
}

/// The arithmetic operators, defined on numbers.
#[derive(Clone, Copy, Debug, PartialEq, Eq)]
pub enum ArithOp {
    Add,
    Sub,
    Mul,
    Div,
}

/// The binary boolean operators, defined on booleans.
#[derive(Clone, Copy, Debug, PartialEq, Eq)]
pub enum BoolOp {
    And,
    Or,
}

/// The relational operators, defined on numbers.
#[derive(Clone, Copy, Debug, PartialEq, Eq)]
pub enum RelOp {
    EQ,
    GT,
    LT,
    GTE,
    LTE,
}

/// The binary operators.
#[derive(Clone, Copy, Debug, PartialEq, Eq)]
pub enum BinaryOp {
    Arith(ArithOp),
    Bool(BoolOp),
    Rel(RelOp),
}

/// An expression tree.
#[derive(Debug, PartialEq)]
pub enum Expression {
    /* constants */
    CTrue,
    CFalse,
    CInt(i32),
    CReal(Real),
    CString(String),
    /* variable reference */
    Var(Name),
    /* function call */
    FuncCall(Name, Vec<Expression>),
    /* input */
    ReadFile(Box<Expression>),
    ReadString,
    ReadInt,
    ReadFloat,
    /* arithmetic expressions over numbers */
    Add(Box<Expression>, Box<Expression>),
    Sub(Box<Expression>, Box<Expression>),
    Mul(Box<Expression>, Box<Expression>),
    Div(Box<Expression>, Box<Expression>),
    /* boolean expressions over booleans */
    And(Box<Expression>, Box<Expression>),
    Or(Box<Expression>, Box<Expression>),
    Not(Box<Expression>),
    /* relational expressions over numbers */
    EQ(Box<Expression>, Box<Expression>),
    GT(Box<Expression>, Box<Expression>),
    LT(Box<Expression>, Box<Expression>),
    GTE(Box<Expression>, Box<Expression>),
    LTE(Box<Expression>, Box<Expression>),
}

/// A statement tree.
#[derive(Debug, PartialEq)]
pub enum Statement {
    Assignment(Name, Box<Expression>, Option<Type>),
    IfThenElse(Box<Expression>, Box<Statement>, Option<Box<Statement>>),
    While(Box<Expression>, Box<Statement>),
    Sequence(Box<Statement>, Box<Statement>),
    FuncDef(Function),
    Return(Box<Expression>),
    WriteToFile(Box<Expression>, Box<Expression>),
    Print(Box<Expression>),
}

/// A function definition. One without a body is a declaration stub.
#[derive(Debug, PartialEq)]
pub struct Function {
    pub name: Name,
    pub kind: Option<Type>,
    pub params: Option<Vec<(Name, Type)>>,
    pub body: Option<Box<Statement>>,
}

/// A fully reduced expression: one of the four kinds of constant.
pub ghost enum Constant {
    Bool(bool),
    Int(i32),
    Real(Real),
    Text(Seq<char>),
}

/// The view of an [`Expression`]. The constants are gathered under one
/// variant and the eleven binary forms under another.
pub ghost enum ExpressionView {
    Constant(Constant),
    Var(Seq<char>),
    FuncCall(Seq<char>, Seq<ExpressionView>),
    ReadFile(Box<ExpressionView>),
    ReadString,
    ReadInt,
    ReadFloat,
    Binary(BinaryOp, Box<ExpressionView>, Box<ExpressionView>),
    Not(Box<ExpressionView>),
}

/// The view of a [`Statement`].
pub ghost enum StatementView {
    Assignment(Seq<char>, ExpressionView, Option<Type>),
    IfThenElse(ExpressionView, Box<StatementView>, Option<Box<StatementView>>),
    While(ExpressionView, Box<StatementView>),
    Sequence(Box<StatementView>, Box<StatementView>),
    FuncDef(FunctionView),
    Return(ExpressionView),
    WriteToFile(ExpressionView, ExpressionView),
    Print(ExpressionView),
}

/// The view of a [`Function`].
pub ghost struct FunctionView {
    pub name: Seq<char>,
    pub kind: Option<Type>,
    pub params: Option<Seq<(Seq<char>, Type)>>,
    pub body: Option<Box<StatementView>>,
}

impl FunctionView {
    /// The names of the parameters, in order; none where the list is missing.
    pub open spec fn param_names(self) -> Seq<Seq<char>> {
        match self.params {
            Some(params) => Seq::new(params.len(), |i: int| params[i].0),
            None => Seq::empty(),
        }
    }
}

pub open spec fn binary_view(op: BinaryOp, lhs: ExpressionView, rhs: ExpressionView) -> ExpressionView {
    ExpressionView::Binary(op, Box::new(lhs), Box::new(rhs))
}

pub open spec fn expression_view(exp: Expression) -> ExpressionView
    decreases exp,
{
    match exp {
        Expression::CTrue => ExpressionView::Constant(Constant::Bool(true)),
        Expression::CFalse => ExpressionView::Constant(Constant::Bool(false)),
        Expression::CInt(i) => ExpressionView::Constant(Constant::Int(i)),
        Expression::CReal(r) => ExpressionView::Constant(Constant::Real(r)),
        Expression::CString(s) => ExpressionView::Constant(Constant::Text(s@)),
        Expression::Var(name) => ExpressionView::Var(name@),
        Expression::FuncCall(name, args) => ExpressionView::FuncCall(
            name@,
            Seq::new(
                args@.len(),
                |i: int|
                    if 0 <= i < args@.len() {
                        expression_view(args@[i])
                    } else {
                        ExpressionView::ReadString
                    },
            ),
        ),
        Expression::ReadFile(path) => ExpressionView::ReadFile(Box::new(expression_view(*path))),
        Expression::ReadString => ExpressionView::ReadString,
        Expression::ReadInt => ExpressionView::ReadInt,
        Expression::ReadFloat => ExpressionView::ReadFloat,
        Expression::Add(l, r) => binary_view(BinaryOp::Arith(ArithOp::Add), expression_view(*l), expression_view(*r)),
        Expression::Sub(l, r) => binary_view(BinaryOp::Arith(ArithOp::Sub), expression_view(*l), expression_view(*r)),
        Expression::Mul(l, r) => binary_view(BinaryOp::Arith(ArithOp::Mul), expression_view(*l), expression_view(*r)),
        Expression::Div(l, r) => binary_view(BinaryOp::Arith(ArithOp::Div), expression_view(*l), expression_view(*r)),
        Expression::And(l, r) => binary_view(BinaryOp::Bool(BoolOp::And), expression_view(*l), expression_view(*r)),
        Expression::Or(l, r) => binary_view(BinaryOp::Bool(BoolOp::Or), expression_view(*l), expression_view(*r)),
        Expression::Not(e) => ExpressionView::Not(Box::new(expression_view(*e))),
        Expression::EQ(l, r) => binary_view(BinaryOp::Rel(RelOp::EQ), expression_view(*l), expression_view(*r)),
        Expression::GT(l, r) => binary_view(BinaryOp::Rel(RelOp::GT), expression_view(*l), expression_view(*r)),
        Expression::LT(l, r) => binary_view(BinaryOp::Rel(RelOp::LT), expression_view(*l), expression_view(*r)),
        Expression::GTE(l, r) => binary_view(BinaryOp::Rel(RelOp::GTE), expression_view(*l), expression_view(*r)),
        Expression::LTE(l, r) => binary_view(BinaryOp::Rel(RelOp::LTE), expression_view(*l), expression_view(*r)),
    }
}

/// The views of a list of expressions, in order.
pub open spec fn expressions_view(exps: Seq<Expression>) -> Seq<ExpressionView> {
    Seq::new(exps.len(), |i: int| expression_view(exps[i]))
}

/// The view of a call holds the views of its arguments.
pub proof fn lemma_call_view(name: Name, args: Vec<Expression>)
    ensures
        Expression::FuncCall(name, args)@ == ExpressionView::FuncCall(name@, expressions_view(args@)),
{
    assert(Expression::FuncCall(name, args)@->FuncCall_1 =~= expressions_view(args@));
}

pub open spec fn params_view(params: Option<Vec<(Name, Type)>>) -> Option<Seq<(Seq<char>, Type)>> {
    match params {
        Some(params) => Some(Seq::new(params@.len(), |i: int| (params@[i].0@, params@[i].1))),
        None => None,
    }
}

pub open spec fn statement_view(stmt: Statement) -> StatementView
    decreases stmt,
{
    match stmt {
        Statement::Assignment(name, exp, kind) => StatementView::Assignment(name@, expression_view(*exp), kind),
        Statement::IfThenElse(cond, then_stmt, else_stmt) => StatementView::IfThenElse(
            expression_view(*cond),
            Box::new(statement_view(*then_stmt)),
            match else_stmt {
                Some(else_stmt) => Some(Box::new(statement_view(*else_stmt))),
                None => None,
            },
        ),
        Statement::While(cond, body) => StatementView::While(
            expression_view(*cond),
            Box::new(statement_view(*body)),
        ),
        Statement::Sequence(first, second) => StatementView::Sequence(
            Box::new(statement_view(*first)),
            Box::new(statement_view(*second)),
        ),
        Statement::FuncDef(func) => StatementView::FuncDef(function_view(func)),
        Statement::Return(exp) => StatementView::Return(expression_view(*exp)),
        Statement::WriteToFile(path, content) => StatementView::WriteToFile(
            expression_view(*path),
            expression_view(*content),
        ),
        Statement::Print(exp) => StatementView::Print(expression_view(*exp)),
    }
}

pub open spec fn function_view(func: Function) -> FunctionView
    decreases func,
{
    FunctionView {
        name: func.name@,
        kind: func.kind,
        params: params_view(func.params),
        body: match func.body {
            Some(body) => Some(Box::new(statement_view(*body))),
            None => None,
        },
    }
}

impl View for Expression {
    type V = ExpressionView;

    open spec fn view(&self) -> ExpressionView {
        expression_view(*self)
    }
}

impl View for Statement {
    type V = StatementView;

    open spec fn view(&self) -> StatementView {
        statement_view(*self)
    }
}

impl View for Function {
    type V = FunctionView;

    open spec fn view(&self) -> FunctionView {
        function_view(*self)
    }
}

impl Clone for Expression {
    /// A deep copy.
    fn clone(&self) -> (res: Self)
        ensures
            res@ == self@,
        decreases self,
    {
        match self {
            Expression::CTrue => Expression::CTrue,
            Expression::CFalse => Expression::CFalse,
            Expression::CInt(i) => Expression::CInt(*i),
            Expression::CReal(r) => Expression::CReal(*r),
            Expression::CString(s) => Expression::CString(s.clone()),
            Expression::Var(name) => Expression::Var(name.clone()),
            Expression::FuncCall(name, args) => {
                let mut copies: Vec<Expression> = Vec::new();
                let mut i: usize = 0;
                while i < args.len()
                    invariant
                        *self matches Expression::FuncCall(_, a) && a == *args,
                        i <= args.len(),
                        copies@.len() == i,
                        forall|j: int| 0 <= j < i ==> copies@[j]@ == args@[j]@,
                    decreases args.len() - i,
                {
                    copies.push(args[i].clone());
                    i += 1;
                }
                let res = Expression::FuncCall(name.clone(), copies);
                assert(res@->FuncCall_1 =~= self@->FuncCall_1);
                res
            },
            Expression::ReadFile(path) => Expression::ReadFile(Box::new((**path).clone())),
            Expression::ReadString => Expression::ReadString,
            Expression::ReadInt => Expression::ReadInt,
            Expression::ReadFloat => Expression::ReadFloat,
            Expression::Add(l, r) => Expression::Add(Box::new((**l).clone()), Box::new((**r).clone())),
            Expression::Sub(l, r) => Expression::Sub(Box::new((**l).clone()), Box::new((**r).clone())),
            Expression::Mul(l, r) => Expression::Mul(Box::new((**l).clone()), Box::new((**r).clone())),
            Expression::Div(l, r) => Expression::Div(Box::new((**l).clone()), Box::new((**r).clone())),
            Expression::And(l, r) => Expression::And(Box::new((**l).clone()), Box::new((**r).clone())),
            Expression::Or(l, r) => Expression::Or(Box::new((**l).clone()), Box::new((**r).clone())),
            Expression::Not(e) => Expression::Not(Box::new((**e).clone())),
            Expression::EQ(l, r) => Expression::EQ(Box::new((**l).clone()), Box::new((**r).clone())),
            Expression::GT(l, r) => Expression::GT(Box::new((**l).clone()), Box::new((**r).clone())),
            Expression::LT(l, r) => Expression::LT(Box::new((**l).clone()), Box::new((**r).clone())),
            Expression::GTE(l, r) => Expression::GTE(Box::new((**l).clone()), Box::new((**r).clone())),
            Expression::LTE(l, r) => Expression::LTE(Box::new((**l).clone()), Box::new((**r).clone())),
        }
    }
}

impl Clone for Statement {
    /// A deep copy.
    fn clone(&self) -> (res: Self)
        ensures
            res@ == self@,
        decreases self,
    {
        match self {
            Statement::Assignment(name, exp, kind) => Statement::Assignment(
                name.clone(),
                Box::new((**exp).clone()),
                *kind,
            ),
            Statement::IfThenElse(cond, then_stmt, else_stmt) => Statement::IfThenElse(
                Box::new((**cond).clone()),
                Box::new((**then_stmt).clone()),
                match else_stmt {
                    Some(else_stmt) => Some(Box::new((**else_stmt).clone())),
                    None => None,
                },
            ),
            Statement::While(cond, body) => Statement::While(
                Box::new((**cond).clone()),
                Box::new((**body).clone()),
            ),
            Statement::Sequence(first, second) => Statement::Sequence(
                Box::new((**first).clone()),
                Box::new((**second).clone()),
            ),
            Statement::FuncDef(func) => Statement::FuncDef(func.clone()),
            Statement::Return(exp) => Statement::Return(Box::new((**exp).clone())),
            Statement::WriteToFile(path, content) => Statement::WriteToFile(
                Box::new((**path).clone()),
                Box::new((**content).clone()),
            ),
            Statement::Print(exp) => Statement::Print(Box::new((**exp).clone())),
        }
    }
}

impl Clone for Function {
    /// A deep copy.
    fn clone(&self) -> (res: Self)
        ensures
            res@ == self@,
        decreases self,
    {
        let params = match &self.params {
            Some(params) => {
                let mut copies: Vec<(Name, Type)> = Vec::new();
                let mut i: usize = 0;
                while i < params.len()
                    invariant
                        i <= params.len(),
                        copies@.len() == i,
                        forall|j: int| 0 <= j < i ==> copies@[j].0@ == params@[j].0@ && copies@[j].1 == params@[j].1,
                    decreases params.len() - i,
                {
                    copies.push((params[i].0.clone(), params[i].1));
                    i += 1;
                }
                assert(params_view(Some(copies)) =~= params_view(self.params)) by {
                    assert(params_view(Some(copies))->0 =~= params_view(self.params)->0);
                }
                Some(copies)
            },
            None => None,
        };
        let body = match &self.body {
            Some(body) => Some(Box::new((**body).clone())),
            None => None,
        };
        Function { name: self.name.clone(), kind: self.kind, params, body }
    }
}

} // verus!
