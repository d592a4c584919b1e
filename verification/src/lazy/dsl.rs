//! Expressions: what a query computes from the columns of a frame.

use vstd::prelude::*;

verus! {

/// The operators of a binary expression.
#[derive(Clone, Copy, Debug, PartialEq, Eq, Structural)]
pub enum Operator {
    Eq,
    NotEq,
    Lt,
    LtEq,
    Gt,
    GtEq,
    Plus,
    Minus,
    Multiply,
    Divide,
    Modulus,
    And,
    Or,
    Not,
    Like,
    NotLike,
}

/// A literal value in an expression.  Floats are held by their bits.
#[derive(Clone, Debug)]
pub enum ScalarValue {
    Null,
    Boolean(bool),
    Utf8(String),
    Int8(i8),
    Int16(i16),
    Int32(i32),
    Int64(i64),
    UInt8(u8),
    UInt16(u16),
    UInt32(u32),
    UInt64(u64),
    Float32(u32),
    Float64(u64),
}

/// An expression over the columns of a frame.
#[derive(Debug)]
pub enum Expr {
    Alias(Box<Expr>, String),
    Column(String),
    Literal(ScalarValue),
    BinaryExpr { left: Box<Expr>, op: Operator, right: Box<Expr> },
    Not(Box<Expr>),
    IsNotNull(Box<Expr>),
    IsNull(Box<Expr>),
    Sort { expr: Box<Expr>, reverse: bool },
    AggMin(Box<Expr>),
}

/// The mathematical model of a literal value.
pub enum ScalarModel {
    Null,
    Boolean(bool),
    Utf8(Seq<char>),
    Int8(i8),
    Int16(i16),
    Int32(i32),
    Int64(i64),
    UInt8(u8),
    UInt16(u16),
    UInt32(u32),
    UInt64(u64),
    Float32(u32),
    Float64(u64),
}

/// The mathematical model of an expression: the same tree, with names as
/// sequences of characters.
pub enum ExprModel {
    Alias(Box<ExprModel>, Seq<char>),
    Column(Seq<char>),
    Literal(ScalarModel),
    BinaryExpr { left: Box<ExprModel>, op: Operator, right: Box<ExprModel> },
    Not(Box<ExprModel>),
    IsNotNull(Box<ExprModel>),
    IsNull(Box<ExprModel>),
    Sort { expr: Box<ExprModel>, reverse: bool },
    AggMin(Box<ExprModel>),
}

impl View for ScalarValue {
    type V = ScalarModel;

    open spec fn view(&self) -> ScalarModel {
        match self {
            ScalarValue::Null => ScalarModel::Null,
            ScalarValue::Boolean(v) => ScalarModel::Boolean(*v),
            ScalarValue::Utf8(v) => ScalarModel::Utf8(v@),
            ScalarValue::Int8(v) => ScalarModel::Int8(*v),
            ScalarValue::Int16(v) => ScalarModel::Int16(*v),
            ScalarValue::Int32(v) => ScalarModel::Int32(*v),
            ScalarValue::Int64(v) => ScalarModel::Int64(*v),
            ScalarValue::UInt8(v) => ScalarModel::UInt8(*v),
            ScalarValue::UInt16(v) => ScalarModel::UInt16(*v),
            ScalarValue::UInt32(v) => ScalarModel::UInt32(*v),
            ScalarValue::UInt64(v) => ScalarModel::UInt64(*v),
            ScalarValue::Float32(v) => ScalarModel::Float32(*v),
            ScalarValue::Float64(v) => ScalarModel::Float64(*v),
        }
    }
}

/// The model of an expression.
pub open spec fn expr_model(e: Expr) -> ExprModel
    decreases e,
{
    match e {
        Expr::Alias(inner, name) => ExprModel::Alias(Box::new(expr_model(*inner)), name@),
        Expr::Column(name) => ExprModel::Column(name@),
        Expr::Literal(v) => ExprModel::Literal(v@),
        Expr::BinaryExpr { left, op, right } => ExprModel::BinaryExpr {
            left: Box::new(expr_model(*left)),
            op,
            right: Box::new(expr_model(*right)),
        },
        Expr::Not(inner) => ExprModel::Not(Box::new(expr_model(*inner))),
        Expr::IsNotNull(inner) => ExprModel::IsNotNull(Box::new(expr_model(*inner))),
        Expr::IsNull(inner) => ExprModel::IsNull(Box::new(expr_model(*inner))),
        Expr::Sort { expr, reverse } => ExprModel::Sort {
            expr: Box::new(expr_model(*expr)),
            reverse,
        },
        Expr::AggMin(inner) => ExprModel::AggMin(Box::new(expr_model(*inner))),
    }
}

impl View for Expr {
    type V = ExprModel;

    open spec fn view(&self) -> ExprModel {
        expr_model(*self)
    }
}

/// The binary expression `l op r`.
pub open spec fn binary_model(l: ExprModel, op: Operator, r: ExprModel) -> ExprModel {
    ExprModel::BinaryExpr { left: Box::new(l), op, right: Box::new(r) }
}

/// The binary expression `l op r`.
pub fn binary_expr(l: Expr, op: Operator, r: Expr) -> (e: Expr)
    ensures
        e@ == binary_model(l@, op, r@),
{
    Expr::BinaryExpr { left: Box::new(l), op, right: Box::new(r) }
}

impl Expr {
    /// Whether this expression equals the other.
    pub fn eq(self, other: Expr) -> (e: Expr)
        ensures
            e@ == binary_model(self@, Operator::Eq, other@),
    {
        binary_expr(self, Operator::Eq, other)
    }

    /// Whether this expression differs from the other.
    pub fn neq(self, other: Expr) -> (e: Expr)
        ensures
            e@ == binary_model(self@, Operator::NotEq, other@),
    {
        binary_expr(self, Operator::NotEq, other)
    }

    /// Whether this expression is below the other.
    pub fn lt(self, other: Expr) -> (e: Expr)
        ensures
            e@ == binary_model(self@, Operator::Lt, other@),
    {
        binary_expr(self, Operator::Lt, other)
    }

    /// Whether this expression is above the other.
    pub fn gt(self, other: Expr) -> (e: Expr)
        ensures
            e@ == binary_model(self@, Operator::Gt, other@),
    {
        binary_expr(self, Operator::Gt, other)
    }

    /// Whether this expression is not below the other.
    pub fn gt_eq(self, other: Expr) -> (e: Expr)
        ensures
            e@ == binary_model(self@, Operator::GtEq, other@),
    {
        binary_expr(self, Operator::GtEq, other)
    }

    /// Whether this expression is not above the other.
    pub fn lt_eq(self, other: Expr) -> (e: Expr)
        ensures
            e@ == binary_model(self@, Operator::LtEq, other@),
    {
        binary_expr(self, Operator::LtEq, other)
    }

    /// The negation of this expression.
    pub fn not(self) -> (e: Expr)
        ensures
            e@ == ExprModel::Not(Box::new(self@)),
    {
        Expr::Not(Box::new(self))
    }

    /// This expression under another name.
    pub fn alias(self, name: &str) -> (e: Expr)
        ensures
            e@ == ExprModel::Alias(Box::new(self@), name@),
    {
        Expr::Alias(Box::new(self), name.to_owned())
    }

    /// Whether this expression is null.
    pub fn is_null(self) -> (e: Expr)
        ensures
            e@ == ExprModel::IsNull(Box::new(self@)),
    {
        Expr::IsNull(Box::new(self))
    }

    /// Whether this expression is not null.
    pub fn is_not_null(self) -> (e: Expr)
        ensures
            e@ == ExprModel::IsNotNull(Box::new(self@)),
    {
        Expr::IsNotNull(Box::new(self))
    }

    /// The smallest value of this expression.
    pub fn agg_min(self) -> (e: Expr)
        ensures
            e@ == ExprModel::AggMin(Box::new(self@)),
    {
        Expr::AggMin(Box::new(self))
    }
}

impl ScalarValue {
    /// A copy of the value.
    pub fn duplicate(&self) -> (r: ScalarValue)
        ensures
            r@ == self@,
    {
        match self {
            ScalarValue::Null => ScalarValue::Null,
            ScalarValue::Boolean(v) => ScalarValue::Boolean(*v),
            ScalarValue::Utf8(v) => ScalarValue::Utf8(v.clone()),
            ScalarValue::Int8(v) => ScalarValue::Int8(*v),
            ScalarValue::Int16(v) => ScalarValue::Int16(*v),
            ScalarValue::Int32(v) => ScalarValue::Int32(*v),
            ScalarValue::Int64(v) => ScalarValue::Int64(*v),
            ScalarValue::UInt8(v) => ScalarValue::UInt8(*v),
            ScalarValue::UInt16(v) => ScalarValue::UInt16(*v),
            ScalarValue::UInt32(v) => ScalarValue::UInt32(*v),
            ScalarValue::UInt64(v) => ScalarValue::UInt64(*v),
            ScalarValue::Float32(v) => ScalarValue::Float32(*v),
            ScalarValue::Float64(v) => ScalarValue::Float64(*v),
        }
    }
}

impl Expr {
    /// A copy of the expression.
    pub fn duplicate(&self) -> (r: Expr)
        ensures
            r@ == self@,
        decreases self,
    {
        match self {
            Expr::Alias(inner, name) => Expr::Alias(Box::new(inner.duplicate()), name.clone()),
            Expr::Column(name) => Expr::Column(name.clone()),
            Expr::Literal(v) => Expr::Literal(v.duplicate()),
            Expr::BinaryExpr { left, op, right } => Expr::BinaryExpr {
                left: Box::new(left.duplicate()),
                op: *op,
                right: Box::new(right.duplicate()),
            },
            Expr::Not(inner) => Expr::Not(Box::new(inner.duplicate())),
            Expr::IsNotNull(inner) => Expr::IsNotNull(Box::new(inner.duplicate())),
            Expr::IsNull(inner) => Expr::IsNull(Box::new(inner.duplicate())),
            Expr::Sort { expr, reverse } => Expr::Sort {
                expr: Box::new(expr.duplicate()),
                reverse: *reverse,
            },
            Expr::AggMin(inner) => Expr::AggMin(Box::new(inner.duplicate())),
        }
    }
}

/// The column of the given name.
pub fn col(name: &str) -> (e: Expr)
    ensures
        e@ == ExprModel::Column(name@),
{
    Expr::Column(name.to_owned())
}

/// A value that can stand as a literal in an expression.
pub trait Literal: Sized {
    /// The literal, as a value.
    spec fn scalar(self) -> ScalarModel;

    fn lit(self) -> (e: Expr)
        ensures
            e@ == ExprModel::Literal(self.scalar()),
    ;
}

impl Literal for String {
    open spec fn scalar(self) -> ScalarModel {
        ScalarModel::Utf8(self@)
    }

    fn lit(self) -> (e: Expr) {
        Expr::Literal(ScalarValue::Utf8(self))
    }
}

impl<'a> Literal for &'a str {
    open spec fn scalar(self) -> ScalarModel {
        ScalarModel::Utf8(self@)
    }

    fn lit(self) -> (e: Expr) {
        Expr::Literal(ScalarValue::Utf8(self.to_owned()))
    }
}

impl Literal for bool {
    open spec fn scalar(self) -> ScalarModel {
        ScalarModel::Boolean(self)
    }

    fn lit(self) -> (e: Expr) {
        Expr::Literal(ScalarValue::Boolean(self))
    }
}

impl Literal for i8 {
    open spec fn scalar(self) -> ScalarModel {
        ScalarModel::Int8(self)
    }

    fn lit(self) -> (e: Expr) {
        Expr::Literal(ScalarValue::Int8(self))
    }
}

impl Literal for i16 {
    open spec fn scalar(self) -> ScalarModel {
        ScalarModel::Int16(self)
    }

    fn lit(self) -> (e: Expr) {
        Expr::Literal(ScalarValue::Int16(self))
    }
}

impl Literal for i32 {
    open spec fn scalar(self) -> ScalarModel {
        ScalarModel::Int32(self)
    }

    fn lit(self) -> (e: Expr) {
        Expr::Literal(ScalarValue::Int32(self))
    }
}

impl Literal for i64 {
    open spec fn scalar(self) -> ScalarModel {
        ScalarModel::Int64(self)
    }

    fn lit(self) -> (e: Expr) {
        Expr::Literal(ScalarValue::Int64(self))
    }
}

impl Literal for u8 {
    open spec fn scalar(self) -> ScalarModel {
        ScalarModel::UInt8(self)
    }

    fn lit(self) -> (e: Expr) {
        Expr::Literal(ScalarValue::UInt8(self))
    }
}

impl Literal for u16 {
    open spec fn scalar(self) -> ScalarModel {
        ScalarModel::UInt16(self)
    }

    fn lit(self) -> (e: Expr) {
        Expr::Literal(ScalarValue::UInt16(self))
    }
}

impl Literal for u32 {
    open spec fn scalar(self) -> ScalarModel {
        ScalarModel::UInt32(self)
    }

    fn lit(self) -> (e: Expr) {
        Expr::Literal(ScalarValue::UInt32(self))
    }
}

impl Literal for u64 {
    open spec fn scalar(self) -> ScalarModel {
        ScalarModel::UInt64(self)
    }

    fn lit(self) -> (e: Expr) {
        Expr::Literal(ScalarValue::UInt64(self))
    }
}

/// The literal expression of a value.
pub fn lit<L: Literal>(t: L) -> (e: Expr)
    ensures
        e@ == ExprModel::Literal(t.scalar()),
{
    t.lit()
}

/// The negation of an expression.
pub fn not(expr: Expr) -> (e: Expr)
    ensures
        e@ == ExprModel::Not(Box::new(expr@)),
{
    Expr::Not(Box::new(expr))
}

} // verus!
