//! From the plan of a query as it was written to the plan of how it is
//! run.

use crate::error::{PolarsError, PolarsResult};
use crate::frame::DataFrame;
use crate::lazy::dsl::{Expr, ExprModel, Operator, ScalarValue};
use crate::lazy::schema::{fields_view, Field, FieldModel, Schema};
use crate::series::SeriesView;
use vstd::prelude::*;

verus! {

/// A query as it was written.
pub enum LogicalPlan {
    Filter { input: Box<LogicalPlan>, predicate: Expr },
    CsvScan { path: String, schema: Schema, has_header: bool, delimiter: Option<u8> },
    Projection { expr: Vec<Expr>, input: Box<LogicalPlan> },
    DataFrameScan { df: DataFrame },
    Sort { input: Box<LogicalPlan>, expr: Vec<Expr> },
}

/// An expression as it is evaluated.
pub enum PhysicalExpr {
    Literal(ScalarValue),
    Binary { left: Box<PhysicalExpr>, op: Operator, right: Box<PhysicalExpr> },
    Column(String),
    Sort { expr: Box<PhysicalExpr>, reverse: bool },
    Not(Box<PhysicalExpr>),
    Alias(Box<PhysicalExpr>, String),
    IsNull(Box<PhysicalExpr>),
    IsNotNull(Box<PhysicalExpr>),
}

/// The steps that run a query.
pub enum Executor {
    /// Keeps the rows of the input for which the predicate holds.
    Filter { predicate: PhysicalExpr, input: Box<Executor> },
    /// Reads a file of comma-separated values.
    Csv { path: String, schema: Schema, has_header: bool, delimiter: Option<u8> },
    /// Evaluates expressions over the input.
    Pipe { operation: String, input: Box<Executor>, exprs: Vec<PhysicalExpr> },
    /// Hands out a frame that is in memory.
    DataFrame { df: DataFrame },
}

/// The model of a written query.
pub enum LogicalPlanModel {
    Filter { input: Box<LogicalPlanModel>, predicate: ExprModel },
    CsvScan { path: Seq<char>, schema: Seq<FieldModel>, has_header: bool, delimiter: Option<u8> },
    Projection { expr: Seq<ExprModel>, input: Box<LogicalPlanModel> },
    DataFrameScan { df: Seq<SeriesView> },
    Sort { input: Box<LogicalPlanModel>, expr: Seq<ExprModel> },
}

/// The model of the steps that run a query.
pub enum ExecutorModel {
    Filter { predicate: ExprModel, input: Box<ExecutorModel> },
    Csv { path: Seq<char>, schema: Seq<FieldModel>, has_header: bool, delimiter: Option<u8> },
    Pipe { operation: Seq<char>, input: Box<ExecutorModel>, exprs: Seq<ExprModel> },
    DataFrame { df: Seq<SeriesView> },
}

/// The models of a vector of expressions.
pub open spec fn exprs_view(exprs: Seq<Expr>) -> Seq<ExprModel> {
    Seq::new(exprs.len(), |i: int| exprs[i]@)
}

/// The model of an expression as it is evaluated: the expression that it
/// evaluates.
pub open spec fn physical_model(e: PhysicalExpr) -> ExprModel
    decreases e,
{
    match e {
        PhysicalExpr::Literal(v) => ExprModel::Literal(v@),
        PhysicalExpr::Binary { left, op, right } => ExprModel::BinaryExpr {
            left: Box::new(physical_model(*left)),
            op,
            right: Box::new(physical_model(*right)),
        },
        PhysicalExpr::Column(name) => ExprModel::Column(name@),
        PhysicalExpr::Sort { expr, reverse } => ExprModel::Sort {
            expr: Box::new(physical_model(*expr)),
            reverse,
        },
        PhysicalExpr::Not(inner) => ExprModel::Not(Box::new(physical_model(*inner))),
        PhysicalExpr::Alias(inner, name) => ExprModel::Alias(
            Box::new(physical_model(*inner)),
            name@,
        ),
        PhysicalExpr::IsNull(inner) => ExprModel::IsNull(Box::new(physical_model(*inner))),
        PhysicalExpr::IsNotNull(inner) => ExprModel::IsNotNull(Box::new(physical_model(*inner))),
    }
}

impl View for PhysicalExpr {
    type V = ExprModel;

    open spec fn view(&self) -> ExprModel {
        physical_model(*self)
    }
}

/// The models of a vector of expressions as they are evaluated.
pub open spec fn physical_view(exprs: Seq<PhysicalExpr>) -> Seq<ExprModel> {
    Seq::new(exprs.len(), |i: int| exprs[i]@)
}

/// The model of a written query.
pub open spec fn logical_model(p: LogicalPlan) -> LogicalPlanModel
    decreases p,
{
    match p {
        LogicalPlan::Filter { input, predicate } => LogicalPlanModel::Filter {
            input: Box::new(logical_model(*input)),
            predicate: predicate@,
        },
        LogicalPlan::CsvScan { path, schema, has_header, delimiter } => LogicalPlanModel::CsvScan {
            path: path@,
            schema: schema@,
            has_header,
            delimiter,
        },
        LogicalPlan::Projection { expr, input } => LogicalPlanModel::Projection {
            expr: exprs_view(expr@),
            input: Box::new(logical_model(*input)),
        },
        LogicalPlan::DataFrameScan { df } => LogicalPlanModel::DataFrameScan { df: df@ },
        LogicalPlan::Sort { input, expr } => LogicalPlanModel::Sort {
            input: Box::new(logical_model(*input)),
            expr: exprs_view(expr@),
        },
    }
}

impl View for LogicalPlan {
    type V = LogicalPlanModel;

    open spec fn view(&self) -> LogicalPlanModel {
        logical_model(*self)
    }
}

/// The model of the steps that run a query.
pub open spec fn executor_model(p: Executor) -> ExecutorModel
    decreases p,
{
    match p {
        Executor::Filter { predicate, input } => ExecutorModel::Filter {
            predicate: predicate@,
            input: Box::new(executor_model(*input)),
        },
        Executor::Csv { path, schema, has_header, delimiter } => ExecutorModel::Csv {
            path: path@,
            schema: schema@,
            has_header,
            delimiter,
        },
        Executor::Pipe { operation, input, exprs } => ExecutorModel::Pipe {
            operation: operation@,
            input: Box::new(executor_model(*input)),
            exprs: physical_view(exprs@),
        },
        Executor::DataFrame { df } => ExecutorModel::DataFrame { df: df@ },
    }
}

impl View for Executor {
    type V = ExecutorModel;

    open spec fn view(&self) -> ExecutorModel {
        executor_model(*self)
    }
}

/// Whether an expression can be evaluated row by row: it holds no
/// aggregation.
pub open spec fn evaluable(e: ExprModel) -> bool
    decreases e,
{
    match e {
        ExprModel::Alias(inner, _) => evaluable(*inner),
        ExprModel::Column(_) => true,
        ExprModel::Literal(_) => true,
        ExprModel::BinaryExpr { left, op, right } => evaluable(*left) && evaluable(*right),
        ExprModel::Not(inner) => evaluable(*inner),
        ExprModel::IsNull(inner) => evaluable(*inner),
        ExprModel::IsNotNull(inner) => evaluable(*inner),
        ExprModel::Sort { expr, reverse } => evaluable(*expr),
        ExprModel::AggMin(_) => false,
    }
}

/// Whether all of the expressions can be evaluated row by row.
pub open spec fn all_evaluable(exprs: Seq<ExprModel>) -> bool {
    forall|i: int| 0 <= i < exprs.len() ==> evaluable(#[trigger] exprs[i])
}

/// Whether a written query can be planned: all its expressions can be
/// evaluated row by row.
pub open spec fn plannable(p: LogicalPlanModel) -> bool
    decreases p,
{
    match p {
        LogicalPlanModel::Filter { input, predicate } => plannable(*input) && evaluable(predicate),
        LogicalPlanModel::CsvScan { .. } => true,
        LogicalPlanModel::Projection { expr, input } => plannable(*input) && all_evaluable(expr),
        LogicalPlanModel::DataFrameScan { .. } => true,
        LogicalPlanModel::Sort { input, expr } => plannable(*input) && all_evaluable(expr),
    }
}

/// The steps that run a written query: a filter filters, a scan reads, a
/// projection and a sort evaluate their expressions over their input.
pub open spec fn plan_of(p: LogicalPlanModel) -> ExecutorModel
    decreases p,
{
    match p {
        LogicalPlanModel::Filter { input, predicate } => ExecutorModel::Filter {
            predicate,
            input: Box::new(plan_of(*input)),
        },
        LogicalPlanModel::CsvScan { path, schema, has_header, delimiter } => ExecutorModel::Csv {
            path,
            schema,
            has_header,
            delimiter,
        },
        LogicalPlanModel::Projection { expr, input } => ExecutorModel::Pipe {
            operation: "projection"@,
            input: Box::new(plan_of(*input)),
            exprs: expr,
        },
        LogicalPlanModel::DataFrameScan { df } => ExecutorModel::DataFrame { df },
        LogicalPlanModel::Sort { input, expr } => ExecutorModel::Pipe {
            operation: "sort"@,
            input: Box::new(plan_of(*input)),
            exprs: expr,
        },
    }
}

/// Plans queries with the means that are built in.
pub struct DefaultPlanner {}

impl Default for DefaultPlanner {
    fn default() -> (r: DefaultPlanner) {
        DefaultPlanner {  }
    }
}

impl Schema {
    /// A copy of the schema.
    pub fn duplicate(&self) -> (r: Schema)
        ensures
            r@ == self@,
    {
        let mut fields: Vec<Field> = Vec::with_capacity(self.fields.len());
        let mut i: usize = 0;
        while i < self.fields.len()
            invariant
                i <= self.fields.len(),
                fields.len() == i,
                forall|j: int| 0 <= j < i ==> (#[trigger] fields[j])@ == self.fields[j]@,
            decreases self.fields.len() - i,
        {
            fields.push(self.fields[i].duplicate());
            i += 1;
        }
        assert(fields_view(fields@) =~= fields_view(self.fields@));
        Schema { fields }
    }
}

impl DefaultPlanner {
    /// The steps that run a query; `InvalidOperation` where one of its
    /// expressions cannot be evaluated row by row.
    pub fn create_physical_plan(&self, logical_plan: &LogicalPlan) -> (r: PolarsResult<Executor>)
        ensures
            match r {
                Ok(p) => plannable(logical_plan@) && p@ == plan_of(logical_plan@),
                Err(e) => !plannable(logical_plan@) && e == PolarsError::InvalidOperation,
            },
    {
        self.create_initial_physical_plan(logical_plan)
    }

    /// The steps that run a query, before any rewriting.
    pub fn create_initial_physical_plan(&self, logical_plan: &LogicalPlan) -> (r: PolarsResult<
        Executor,
    >)
        ensures
            match r {
                Ok(p) => plannable(logical_plan@) && p@ == plan_of(logical_plan@),
                Err(e) => !plannable(logical_plan@) && e == PolarsError::InvalidOperation,
            },
        decreases logical_plan,
    {
        match logical_plan {
            LogicalPlan::Filter { input, predicate } => {
                let input = match self.create_initial_physical_plan(input) {
                    Ok(p) => p,
                    Err(e) => {
                        return Err(e);
                    },
                };
                let predicate = match self.create_physical_expr(predicate) {
                    Ok(p) => p,
                    Err(e) => {
                        return Err(e);
                    },
                };
                Ok(Executor::Filter { predicate, input: Box::new(input) })
            },
            LogicalPlan::CsvScan { path, schema, has_header, delimiter } => Ok(
                Executor::Csv {
                    path: path.clone(),
                    schema: schema.duplicate(),
                    has_header: *has_header,
                    delimiter: *delimiter,
                },
            ),
            LogicalPlan::Projection { expr, input } => {
                let input = match self.create_initial_physical_plan(input) {
                    Ok(p) => p,
                    Err(e) => {
                        return Err(e);
                    },
                };
                let phys_expr = match self.create_physical_exprs(expr) {
                    Ok(p) => p,
                    Err(e) => {
                        return Err(e);
                    },
                };
                Ok(
                    Executor::Pipe {
                        operation: "projection".to_owned(),
                        input: Box::new(input),
                        exprs: phys_expr,
                    },
                )
            },
            LogicalPlan::DataFrameScan { df } => Ok(Executor::DataFrame { df: df.duplicate() }),
            LogicalPlan::Sort { input, expr } => {
                let input = match self.create_initial_physical_plan(input) {
                    Ok(p) => p,
                    Err(e) => {
                        return Err(e);
                    },
                };
                let phys_expr = match self.create_physical_exprs(expr) {
                    Ok(p) => p,
                    Err(e) => {
                        return Err(e);
                    },
                };
                Ok(
                    Executor::Pipe {
                        operation: "sort".to_owned(),
                        input: Box::new(input),
                        exprs: phys_expr,
                    },
                )
            },
        }
    }

    /// The expressions as they are evaluated, in order.
    pub fn create_physical_exprs(&self, exprs: &Vec<Expr>) -> (r: PolarsResult<Vec<PhysicalExpr>>)
        ensures
            match r {
                Ok(p) => all_evaluable(exprs_view(exprs@)) && physical_view(p@) == exprs_view(
                    exprs@,
                ),
                Err(e) => !all_evaluable(exprs_view(exprs@)) && e == PolarsError::InvalidOperation,
            },
    {
        let mut out: Vec<PhysicalExpr> = Vec::with_capacity(exprs.len());
        let mut i: usize = 0;
        while i < exprs.len()
            invariant
                i <= exprs.len(),
                out.len() == i,
                forall|j: int| 0 <= j < i ==> evaluable(#[trigger] exprs_view(exprs@)[j]),
                forall|j: int| 0 <= j < i ==> (#[trigger] out[j])@ == exprs[j]@,
            decreases exprs.len() - i,
        {
            match self.create_physical_expr(&exprs[i]) {
                Ok(p) => {
                    out.push(p);
                },
                Err(e) => {
                    assert(!evaluable(exprs_view(exprs@)[i as int]));
                    return Err(e);
                },
            }
            i += 1;
        }
        assert(physical_view(out@) =~= exprs_view(exprs@));
        Ok(out)
    }

    /// The expression as it is evaluated; `InvalidOperation` for an
    /// expression that cannot be evaluated row by row.
    pub fn create_physical_expr(&self, expr: &Expr) -> (r: PolarsResult<PhysicalExpr>)
        ensures
            match r {
                Ok(p) => evaluable(expr@) && p@ == expr@,
                Err(e) => !evaluable(expr@) && e == PolarsError::InvalidOperation,
            },
        decreases expr,
    {
        match expr {
            Expr::Literal(value) => Ok(PhysicalExpr::Literal(value.duplicate())),
            Expr::BinaryExpr { left, op, right } => {
                let lhs = match self.create_physical_expr(left) {
                    Ok(p) => p,
                    Err(e) => {
                        return Err(e);
                    },
                };
                let rhs = match self.create_physical_expr(right) {
                    Ok(p) => p,
                    Err(e) => {
                        return Err(e);
                    },
                };
                Ok(PhysicalExpr::Binary { left: Box::new(lhs), op: *op, right: Box::new(rhs) })
            },
            Expr::Column(column) => Ok(PhysicalExpr::Column(column.clone())),
            Expr::Sort { expr, reverse } => {
                match self.create_physical_expr(expr) {
                    Ok(phys_expr) => Ok(
                        PhysicalExpr::Sort { expr: Box::new(phys_expr), reverse: *reverse },
                    ),
                    Err(e) => Err(e),
                }
            },
            Expr::Not(expr) => {
                match self.create_physical_expr(expr) {
                    Ok(phys_expr) => Ok(PhysicalExpr::Not(Box::new(phys_expr))),
                    Err(e) => Err(e),
                }
            },
            Expr::Alias(expr, name) => {
                match self.create_physical_expr(expr) {
                    Ok(phys_expr) => Ok(PhysicalExpr::Alias(Box::new(phys_expr), name.clone())),
                    Err(e) => Err(e),
                }
            },
            Expr::IsNull(expr) => {
                match self.create_physical_expr(expr) {
                    Ok(phys_expr) => Ok(PhysicalExpr::IsNull(Box::new(phys_expr))),
                    Err(e) => Err(e),
                }
            },
            Expr::IsNotNull(expr) => {
                match self.create_physical_expr(expr) {
                    Ok(phys_expr) => Ok(PhysicalExpr::IsNotNull(Box::new(phys_expr))),
                    Err(e) => Err(e),
                }
            },
            Expr::AggMin(_) => Err(PolarsError::InvalidOperation),
        }
    }
}

} // verus!
