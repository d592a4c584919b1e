//! Expressions as text.

use crate::fmt_text::{format_int, format_quoted, int_text, quoted_text};
use crate::lazy::dsl::{Expr, ExprModel, Operator, ScalarModel, ScalarValue};
use vstd::prelude::*;
use vstd::string::StringExecFns;

verus! {

/// The name of an operator.
pub open spec fn op_text(op: Operator) -> Seq<char> {
    match op {
        Operator::Eq => "Eq"@,
        Operator::NotEq => "NotEq"@,
        Operator::Lt => "Lt"@,
        Operator::LtEq => "LtEq"@,
        Operator::Gt => "Gt"@,
        Operator::GtEq => "GtEq"@,
        Operator::Plus => "Plus"@,
        Operator::Minus => "Minus"@,
        Operator::Multiply => "Multiply"@,
        Operator::Divide => "Divide"@,
        Operator::Modulus => "Modulus"@,
        Operator::And => "And"@,
        Operator::Or => "Or"@,
        Operator::Not => "Not"@,
        Operator::Like => "Like"@,
        Operator::NotLike => "NotLike"@,
    }
}

/// A value in brackets behind the name of its kind.
pub open spec fn tagged(kind: Seq<char>, value: Seq<char>) -> Seq<char> {
    kind + "("@ + value + ")"@
}

/// A literal as text: its kind, and its value in brackets.  A float is
/// shown by its bit pattern.
pub open spec fn scalar_text(v: ScalarModel) -> Seq<char> {
    match v {
        ScalarModel::Null => "Null"@,
        ScalarModel::Boolean(b) => tagged("Boolean"@, if b { "true"@ } else { "false"@ }),
        ScalarModel::Utf8(s) => tagged("Utf8"@, quoted_text(s)),
        ScalarModel::Int8(x) => tagged("Int8"@, int_text(x as int)),
        ScalarModel::Int16(x) => tagged("Int16"@, int_text(x as int)),
        ScalarModel::Int32(x) => tagged("Int32"@, int_text(x as int)),
        ScalarModel::Int64(x) => tagged("Int64"@, int_text(x as int)),
        ScalarModel::UInt8(x) => tagged("UInt8"@, int_text(x as int)),
        ScalarModel::UInt16(x) => tagged("UInt16"@, int_text(x as int)),
        ScalarModel::UInt32(x) => tagged("UInt32"@, int_text(x as int)),
        ScalarModel::UInt64(x) => tagged("UInt64"@, int_text(x as int)),
        ScalarModel::Float32(x) => tagged("Float32"@, int_text(x as int)),
        ScalarModel::Float64(x) => tagged("Float64"@, int_text(x as int)),
    }
}

/// An expression as text.
pub open spec fn expr_text(e: ExprModel) -> Seq<char>
    decreases e,
{
    match e {
        ExprModel::Alias(inner, name) => expr_text(*inner) + " AS "@ + name,
        ExprModel::Column(name) => "COLUMN "@ + name,
        ExprModel::Literal(v) => scalar_text(v),
        ExprModel::BinaryExpr { left, op, right } => expr_text(*left) + " "@ + op_text(op) + " "@
            + expr_text(*right),
        ExprModel::Not(inner) => "NOT "@ + expr_text(*inner),
        ExprModel::IsNull(inner) => expr_text(*inner) + " IS NULL"@,
        ExprModel::IsNotNull(inner) => expr_text(*inner) + " IS NOT NULL"@,
        ExprModel::Sort { expr, reverse } => expr_text(*expr) + if reverse {
            " DESC"@
        } else {
            " ASC"@
        },
        ExprModel::AggMin(inner) => "AGGREGATE MIN "@ + expr_text(*inner),
    }
}

/// The name of an operator.
pub fn op_name(op: Operator) -> (r: &'static str)
    ensures
        r@ == op_text(op),
{
    match op {
        Operator::Eq => "Eq",
        Operator::NotEq => "NotEq",
        Operator::Lt => "Lt",
        Operator::LtEq => "LtEq",
        Operator::Gt => "Gt",
        Operator::GtEq => "GtEq",
        Operator::Plus => "Plus",
        Operator::Minus => "Minus",
        Operator::Multiply => "Multiply",
        Operator::Divide => "Divide",
        Operator::Modulus => "Modulus",
        Operator::And => "And",
        Operator::Or => "Or",
        Operator::Not => "Not",
        Operator::Like => "Like",
        Operator::NotLike => "NotLike",
    }
}

/// A value in brackets behind the name of its kind.
fn tag(kind: &str, value: &str) -> (r: String)
    ensures
        r@ == tagged(kind@, value@),
{
    let mut out = String::new();
    out.append(kind);
    out.append("(");
    out.append(value);
    out.append(")");
    assert(out@ =~= tagged(kind@, value@));
    out
}

impl ScalarValue {
    /// The literal as text.
    pub fn fmt(&self) -> (r: String)
        ensures
            r@ == scalar_text(self@),
    {
        match self {
            ScalarValue::Null => "Null".to_owned(),
            ScalarValue::Boolean(b) => tag("Boolean", if *b { "true" } else { "false" }),
            ScalarValue::Utf8(s) => tag("Utf8", format_quoted(s.as_str()).as_str()),
            ScalarValue::Int8(x) => tag("Int8", format_int(*x as i128).as_str()),
            ScalarValue::Int16(x) => tag("Int16", format_int(*x as i128).as_str()),
            ScalarValue::Int32(x) => tag("Int32", format_int(*x as i128).as_str()),
            ScalarValue::Int64(x) => tag("Int64", format_int(*x as i128).as_str()),
            ScalarValue::UInt8(x) => tag("UInt8", format_int(*x as i128).as_str()),
            ScalarValue::UInt16(x) => tag("UInt16", format_int(*x as i128).as_str()),
            ScalarValue::UInt32(x) => tag("UInt32", format_int(*x as i128).as_str()),
            ScalarValue::UInt64(x) => tag("UInt64", format_int(*x as i128).as_str()),
            ScalarValue::Float32(x) => tag("Float32", format_int(*x as i128).as_str()),
            ScalarValue::Float64(x) => tag("Float64", format_int(*x as i128).as_str()),
        }
    }
}

impl Expr {
    /// The expression as text.
    pub fn fmt(&self) -> (r: String)
        ensures
            r@ == expr_text(self@),
        decreases self,
    {
        match self {
            Expr::Alias(expr, name) => {
                let mut out = expr.fmt();
                out.append(" AS ");
                out.append(name.as_str());
                out
            },
            Expr::Column(name) => {
                let mut out = String::new();
                out.append("COLUMN ");
                out.append(name.as_str());
                assert(out@ =~= "COLUMN "@ + name@);
                out
            },
            Expr::Literal(v) => v.fmt(),
            Expr::BinaryExpr { left, op, right } => {
                let mut out = left.fmt();
                out.append(" ");
                out.append(op_name(*op));
                out.append(" ");
                let rhs = right.fmt();
                out.append(rhs.as_str());
                out
            },
            Expr::Not(expr) => {
                let mut out = String::new();
                out.append("NOT ");
                let inner = expr.fmt();
                out.append(inner.as_str());
                assert(out@ =~= "NOT "@ + inner@);
                out
            },
            Expr::IsNull(expr) => {
                let mut out = expr.fmt();
                out.append(" IS NULL");
                out
            },
            Expr::IsNotNull(expr) => {
                let mut out = expr.fmt();
                out.append(" IS NOT NULL");
                out
            },
            Expr::Sort { expr, reverse } => {
                let mut out = expr.fmt();
                if *reverse {
                    out.append(" DESC");
                } else {
                    out.append(" ASC");
                }
                out
            },
            Expr::AggMin(expr) => {
                let mut out = String::new();
                out.append("AGGREGATE MIN ");
                let inner = expr.fmt();
                out.append(inner.as_str());
                assert(out@ =~= "AGGREGATE MIN "@ + inner@);
                out
            },
        }
    }
}

} // verus!
