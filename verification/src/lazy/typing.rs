//! The type and the field that an expression gives over a schema.

use crate::error::{PolarsError, PolarsResult};
use crate::lazy::dsl::{Expr, ExprModel, Operator, ScalarModel, ScalarValue};
use crate::lazy::schema::{
    field_index, get_supertype, supertype, ArrowDataType, Field, FieldModel, Schema,
};
use vstd::prelude::*;
use vstd::string::StringExecFns;

verus! {

/// The type of a literal.
pub open spec fn scalar_type(v: ScalarModel) -> ArrowDataType {
    match v {
        ScalarModel::Null => ArrowDataType::Null,
        ScalarModel::Boolean(_) => ArrowDataType::Boolean,
        ScalarModel::Utf8(_) => ArrowDataType::Utf8,
        ScalarModel::Int8(_) => ArrowDataType::Int8,
        ScalarModel::Int16(_) => ArrowDataType::Int16,
        ScalarModel::Int32(_) => ArrowDataType::Int32,
        ScalarModel::Int64(_) => ArrowDataType::Int64,
        ScalarModel::UInt8(_) => ArrowDataType::UInt8,
        ScalarModel::UInt16(_) => ArrowDataType::UInt16,
        ScalarModel::UInt32(_) => ArrowDataType::UInt32,
        ScalarModel::UInt64(_) => ArrowDataType::UInt64,
        ScalarModel::Float32(_) => ArrowDataType::Float32,
        ScalarModel::Float64(_) => ArrowDataType::Float64,
    }
}

/// Whether an operator gives a truth value whatever its operands are.
pub open spec fn is_predicate(op: Operator) -> bool {
    op is Not || op is Lt || op is Gt || op is Eq || op is NotEq || op is And || op is LtEq
        || op is GtEq || op is Or || op is NotLike || op is Like
}

/// The type that an operation on two typed operands gives.
pub open spec fn operation_type(
    l: Result<ArrowDataType, PolarsError>,
    r: Result<ArrowDataType, PolarsError>,
) -> Result<ArrowDataType, PolarsError> {
    match l {
        Err(e) => Err(e),
        Ok(lt) => match r {
            Err(e) => Err(e),
            Ok(rt) => match supertype(lt, rt) {
                Some(t) => Ok(t),
                None => Err(PolarsError::DataTypeMisMatch),
            },
        },
    }
}

/// The type of the values of an expression over a schema.
pub open spec fn type_of(e: ExprModel, schema: Seq<FieldModel>) -> Result<
    ArrowDataType,
    PolarsError,
>
    decreases e,
{
    match e {
        ExprModel::Alias(inner, _) => type_of(*inner, schema),
        ExprModel::Column(name) => match field_index(schema, name) {
            Some(i) => Ok(schema[i].data_type),
            None => Err(PolarsError::NotFound),
        },
        ExprModel::Literal(v) => Ok(scalar_type(v)),
        ExprModel::BinaryExpr { left, op, right } => if is_predicate(op) {
            Ok(ArrowDataType::Boolean)
        } else {
            operation_type(type_of(*left, schema), type_of(*right, schema))
        },
        ExprModel::Not(_) => Ok(ArrowDataType::Boolean),
        ExprModel::IsNull(_) => Ok(ArrowDataType::Boolean),
        ExprModel::IsNotNull(_) => Ok(ArrowDataType::Boolean),
        ExprModel::Sort { expr, reverse } => type_of(*expr, schema),
        ExprModel::AggMin(inner) => type_of(*inner, schema),
    }
}

/// A nullable field.
pub open spec fn nullable_field(name: Seq<char>, t: Result<ArrowDataType, PolarsError>) -> Result<
    FieldModel,
    PolarsError,
> {
    match t {
        Ok(data_type) => Ok(FieldModel { name, data_type, nullable: true }),
        Err(e) => Err(e),
    }
}

/// The field of the values of an expression over a schema: a column gives
/// its field, an alias its name, a smallest value the column's name with
/// `_min` behind it; the others are named after what they are.
pub open spec fn field_of(e: ExprModel, schema: Seq<FieldModel>) -> Result<FieldModel, PolarsError>
    decreases e,
{
    match e {
        ExprModel::Alias(inner, name) => nullable_field(name, type_of(*inner, schema)),
        ExprModel::Column(name) => match field_index(schema, name) {
            Some(i) => Ok(schema[i]),
            None => Err(PolarsError::NotFound),
        },
        ExprModel::Literal(v) => nullable_field("lit"@, Ok(scalar_type(v))),
        ExprModel::BinaryExpr { left, op, right } => nullable_field(
            "binary_expr"@,
            operation_type(type_of(*left, schema), type_of(*right, schema)),
        ),
        ExprModel::Not(_) => nullable_field("not"@, Ok(ArrowDataType::Boolean)),
        ExprModel::IsNull(_) => nullable_field("is_null"@, Ok(ArrowDataType::Boolean)),
        ExprModel::IsNotNull(_) => nullable_field("is_not_null"@, Ok(ArrowDataType::Boolean)),
        ExprModel::Sort { expr, reverse } => field_of(*expr, schema),
        ExprModel::AggMin(inner) => match field_of(*inner, schema) {
            Ok(f) => Ok(
                FieldModel {
                    name: f.name + "_min"@,
                    data_type: f.data_type,
                    nullable: f.nullable,
                },
            ),
            Err(e) => Err(e),
        },
    }
}

/// What a fallible field computation returned, as a model.
pub open spec fn field_outcome(r: PolarsResult<Field>) -> Result<FieldModel, PolarsError> {
    match r {
        Ok(f) => Ok(f@),
        Err(e) => Err(e),
    }
}

impl ScalarValue {
    /// The type of the literal.
    pub fn get_datatype(&self) -> (t: ArrowDataType)
        ensures
            t == scalar_type(self@),
    {
        match self {
            ScalarValue::Null => ArrowDataType::Null,
            ScalarValue::Boolean(_) => ArrowDataType::Boolean,
            ScalarValue::Utf8(_) => ArrowDataType::Utf8,
            ScalarValue::Int8(_) => ArrowDataType::Int8,
            ScalarValue::Int16(_) => ArrowDataType::Int16,
            ScalarValue::Int32(_) => ArrowDataType::Int32,
            ScalarValue::Int64(_) => ArrowDataType::Int64,
            ScalarValue::UInt8(_) => ArrowDataType::UInt8,
            ScalarValue::UInt16(_) => ArrowDataType::UInt16,
            ScalarValue::UInt32(_) => ArrowDataType::UInt32,
            ScalarValue::UInt64(_) => ArrowDataType::UInt64,
            ScalarValue::Float32(_) => ArrowDataType::Float32,
            ScalarValue::Float64(_) => ArrowDataType::Float64,
        }
    }
}

/// Whether an operator gives a truth value whatever its operands are.
pub fn predicate(op: Operator) -> (r: bool)
    ensures
        r == is_predicate(op),
{
    match op {
        Operator::Not | Operator::Lt | Operator::Gt | Operator::Eq | Operator::NotEq
        | Operator::And | Operator::LtEq | Operator::GtEq | Operator::Or | Operator::NotLike
        | Operator::Like => true,
        _ => false,
    }
}

impl Expr {
    /// The type of the values of the expression; the schema is that of the
    /// input.
    pub fn get_type(&self, schema: &Schema) -> (r: PolarsResult<ArrowDataType>)
        ensures
            r == type_of(self@, schema@),
        decreases self,
    {
        match self {
            Expr::Alias(expr, _) => expr.get_type(schema),
            Expr::Column(name) => match schema.field_with_name(name.as_str()) {
                Ok(f) => Ok(f.data_type),
                Err(e) => Err(e),
            },
            Expr::Literal(sv) => Ok(sv.get_datatype()),
            Expr::BinaryExpr { left, op, right } => {
                if predicate(*op) {
                    Ok(ArrowDataType::Boolean)
                } else {
                    let left_type = match left.get_type(schema) {
                        Ok(t) => t,
                        Err(e) => {
                            return Err(e);
                        },
                    };
                    let right_type = match right.get_type(schema) {
                        Ok(t) => t,
                        Err(e) => {
                            return Err(e);
                        },
                    };
                    get_supertype(left_type, right_type)
                }
            },
            Expr::Not(_) => Ok(ArrowDataType::Boolean),
            Expr::IsNull(_) => Ok(ArrowDataType::Boolean),
            Expr::IsNotNull(_) => Ok(ArrowDataType::Boolean),
            Expr::Sort { expr, .. } => expr.get_type(schema),
            Expr::AggMin(expr) => expr.get_type(schema),
        }
    }

    /// The field of the values of the expression; the schema is that of the
    /// input.
    pub fn to_field(&self, schema: &Schema) -> (r: PolarsResult<Field>)
        ensures
            field_outcome(r) == field_of(self@, schema@),
        decreases self,
    {
        match self {
            Expr::Alias(expr, name) => match expr.get_type(schema) {
                Ok(t) => Ok(Field::new(name.as_str(), t, true)),
                Err(e) => Err(e),
            },
            Expr::Column(name) => match schema.field_with_name(name.as_str()) {
                Ok(f) => Ok(f.duplicate()),
                Err(e) => Err(e),
            },
            Expr::Literal(sv) => Ok(Field::new("lit", sv.get_datatype(), true)),
            Expr::BinaryExpr { left, right, .. } => match operand_type(left, right, schema) {
                Ok(t) => Ok(Field::new("binary_expr", t, true)),
                Err(e) => Err(e),
            },
            Expr::Not(_) => Ok(Field::new("not", ArrowDataType::Boolean, true)),
            Expr::IsNull(_) => Ok(Field::new("is_null", ArrowDataType::Boolean, true)),
            Expr::IsNotNull(_) => Ok(Field::new("is_not_null", ArrowDataType::Boolean, true)),
            Expr::Sort { expr, .. } => expr.to_field(schema),
            Expr::AggMin(expr) => match expr.to_field(schema) {
                Ok(field) => {
                    let name = field.name.clone().concat("_min");
                    Ok(Field::new(name.as_str(), field.data_type, field.nullable))
                },
                Err(e) => Err(e),
            },
        }
    }
}

/// The type that an operation on two expressions gives.
pub fn operand_type(left: &Expr, right: &Expr, schema: &Schema) -> (r: PolarsResult<ArrowDataType>)
    ensures
        r == operation_type(type_of(left@, schema@), type_of(right@, schema@)),
{
    let left_type = match left.get_type(schema) {
        Ok(t) => t,
        Err(e) => {
            return Err(e);
        },
    };
    let right_type = match right.get_type(schema) {
        Ok(t) => t,
        Err(e) => {
            return Err(e);
        },
    };
    get_supertype(left_type, right_type)
}

} // verus!
