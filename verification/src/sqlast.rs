use vstd::prelude::*;
use crate::types::{SqlDataType, FileType};

verus! {

// ---------------------------------------------------------------------------
// The SQL abstract syntax tree this translator recognizes
// ---------------------------------------------------------------------------
//
// Shapes the translator does not support carry an `Other` variant holding the
// text of the construct, so that they travel through and are rejected with a
// precise diagnostic at the point where they matter.

/// A literal value token.
pub enum SqlValue {
    /// A numeric literal, kept as its text.
    Number(String),
    /// A single-quoted string literal.
    SingleQuotedString(String),
    /// Any other literal form.
    Other(String),
}

/// A SQL unary operator.
pub enum SqlUnaryOperator {
    Not,
    Other(String),
}

/// A SQL binary operator.
pub enum SqlBinaryOperator {
    Gt,
    GtEq,
    Lt,
    LtEq,
    Eq,
    NotEq,
    Plus,
    Minus,
    Multiply,
    Divide,
    Modulus,
    And,
    Or,
    Like,
    NotLike,
    Other(String),
}

/// A scalar SQL expression.
pub enum SqlExpr {
    Value(SqlValue),
    Identifier(String),
    CompoundIdentifier(Vec<String>),
    Wildcard,
    Cast { expr: Box<SqlExpr>, data_type: SqlDataType },
    IsNull(Box<SqlExpr>),
    IsNotNull(Box<SqlExpr>),
    UnaryOp { op: SqlUnaryOperator, expr: Box<SqlExpr> },
    BinaryOp { left: Box<SqlExpr>, op: SqlBinaryOperator, right: Box<SqlExpr> },
    Function(SqlFunction),
    Nested(Box<SqlExpr>),
    Other(String),
}

/// A function call in SQL source.
pub struct SqlFunction {
    pub name: String,
    pub args: Vec<SqlExpr>,
    pub distinct: bool,
}

/// One item of a SELECT projection list.
pub enum SelectItem {
    UnnamedExpr(SqlExpr),
    ExprWithAlias { expr: SqlExpr, alias: String },
    Wildcard,
    QualifiedWildcard(String),
}

/// A relation in the FROM clause.
pub enum TableFactor {
    Table { name: String, alias: Option<String> },
    Derived { subquery: Box<Query>, alias: Option<String> },
    Other(String),
}

/// A FROM entry. Joins are not supported, so only the base relation is kept.
pub struct TableWithJoins {
    pub relation: TableFactor,
}

/// A SELECT statement body.
pub struct Select {
    pub projection: Vec<SelectItem>,
    pub from: Vec<TableWithJoins>,
    pub selection: Option<SqlExpr>,
    pub group_by: Vec<SqlExpr>,
    pub having: Option<SqlExpr>,
}

/// A set operation.
pub enum SetOperator {
    Union,
    Other(String),
}

/// The body of a query: a plain SELECT or a set operation over two bodies.
pub enum SetExpr {
    Select(Box<Select>),
    SetOperation { op: SetOperator, all: bool, left: Box<SetExpr>, right: Box<SetExpr> },
    Other(String),
}

/// One ORDER BY key.
pub struct OrderByExpr {
    pub expr: SqlExpr,
    pub asc: Option<bool>,
    pub nulls_first: Option<bool>,
}

/// A full query: body, ordering, limit.
pub struct Query {
    pub body: SetExpr,
    pub order_by: Vec<OrderByExpr>,
    pub limit: Option<SqlExpr>,
}

/// An option on a column definition.
pub enum ColumnOption {
    Null,
    Other(String),
}

/// One column of a CREATE EXTERNAL TABLE statement.
pub struct ColumnDef {
    pub name: String,
    pub data_type: SqlDataType,
    pub options: Vec<ColumnOption>,
}

/// A CREATE EXTERNAL TABLE statement.
pub struct CreateExternalTable {
    pub name: String,
    pub columns: Vec<ColumnDef>,
    pub file_type: FileType,
    pub has_header: bool,
    pub location: String,
}

/// A standard SQL statement.
pub enum SqlStatement {
    Query(Box<Query>),
    Other(String),
}

/// An EXPLAIN statement.
pub struct ExplainPlan {
    pub verbose: bool,
    pub statement: Box<Statement>,
}

/// A statement handed to the translator.
pub enum Statement {
    CreateExternalTable(CreateExternalTable),
    Statement(SqlStatement),
    Explain(ExplainPlan),
}

} // verus!
