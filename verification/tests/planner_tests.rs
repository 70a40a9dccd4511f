// The original planner tests, driven by real SQL text: sqlparser produces the
// AST, a converter below maps it into the library's AST, and the library
// builds the plan.

use sql_planner::error::PlanError;
use sql_planner::expr::{ScalarUdf, AggregateUdf};
use sql_planner::plan::{format_plan, LogicalPlan};
use sql_planner::planner::SqlToRel;
use sql_planner::provider::MemoryProvider;
use sql_planner::schema::{Field, Schema};
use sql_planner::sqlast as ast;
use sql_planner::types::{DataType, FileType, SqlDataType, TimeUnit};

use sqlparser::ast as sp;
use sqlparser::dialect::GenericDialect;
use sqlparser::parser::Parser;

// ---------------------------------------------------------------------------
// Converting the sqlparser AST into the library's AST
// ---------------------------------------------------------------------------

fn conv_data_type(t: &sp::DataType) -> SqlDataType {
    match t {
        sp::DataType::Boolean => SqlDataType::Boolean,
        sp::DataType::SmallInt(_) => SqlDataType::SmallInt,
        sp::DataType::Int(_) | sp::DataType::Integer(_) => SqlDataType::Int,
        sp::DataType::BigInt(_) => SqlDataType::BigInt,
        sp::DataType::Float(n) => SqlDataType::Float(match n {
            sp::ExactNumberInfo::Precision(p) => Some(*p),
            _ => None,
        }),
        sp::DataType::Real => SqlDataType::Real,
        sp::DataType::Double(_) | sp::DataType::DoublePrecision => SqlDataType::Double,
        sp::DataType::Decimal(_) => SqlDataType::Decimal(None, None),
        sp::DataType::Char(_) => SqlDataType::Char(None),
        sp::DataType::Varchar(_) => SqlDataType::Varchar(None),
        sp::DataType::Text => SqlDataType::Text,
        sp::DataType::Date => SqlDataType::Date,
        sp::DataType::Time(_, _) => SqlDataType::Time,
        sp::DataType::Timestamp(_, _) => SqlDataType::Timestamp,
        other => SqlDataType::Other(format!("{other}")),
    }
}

fn conv_value(v: &sp::Value) -> ast::SqlValue {
    match v {
        sp::Value::Number(n, _) => ast::SqlValue::Number(n.clone()),
        sp::Value::SingleQuotedString(s) => ast::SqlValue::SingleQuotedString(s.clone()),
        other => ast::SqlValue::Other(format!("{other}")),
    }
}

fn conv_binop(op: &sp::BinaryOperator) -> ast::SqlBinaryOperator {
    match op {
        sp::BinaryOperator::Gt => ast::SqlBinaryOperator::Gt,
        sp::BinaryOperator::GtEq => ast::SqlBinaryOperator::GtEq,
        sp::BinaryOperator::Lt => ast::SqlBinaryOperator::Lt,
        sp::BinaryOperator::LtEq => ast::SqlBinaryOperator::LtEq,
        sp::BinaryOperator::Eq => ast::SqlBinaryOperator::Eq,
        sp::BinaryOperator::NotEq => ast::SqlBinaryOperator::NotEq,
        sp::BinaryOperator::Plus => ast::SqlBinaryOperator::Plus,
        sp::BinaryOperator::Minus => ast::SqlBinaryOperator::Minus,
        sp::BinaryOperator::Multiply => ast::SqlBinaryOperator::Multiply,
        sp::BinaryOperator::Divide => ast::SqlBinaryOperator::Divide,
        sp::BinaryOperator::Modulo => ast::SqlBinaryOperator::Modulus,
        sp::BinaryOperator::And => ast::SqlBinaryOperator::And,
        sp::BinaryOperator::Or => ast::SqlBinaryOperator::Or,
        other => ast::SqlBinaryOperator::Other(format!("{other}")),
    }
}

fn conv_function(f: &sp::Function) -> ast::SqlExpr {
    let name = f.name.to_string();
    let mut args = Vec::new();
    let mut distinct = false;
    match &f.args {
        sp::FunctionArguments::None => {}
        sp::FunctionArguments::List(list) => {
            distinct = list.duplicate_treatment == Some(sp::DuplicateTreatment::Distinct);
            for a in &list.args {
                match a {
                    sp::FunctionArg::Unnamed(sp::FunctionArgExpr::Expr(e)) => {
                        args.push(conv_expr(e));
                    }
                    sp::FunctionArg::Unnamed(sp::FunctionArgExpr::Wildcard) => {
                        args.push(ast::SqlExpr::Wildcard);
                    }
                    other => args.push(ast::SqlExpr::Other(format!("{other}"))),
                }
            }
        }
        sp::FunctionArguments::Subquery(q) => {
            args.push(ast::SqlExpr::Other(format!("{q}")));
        }
    }
    ast::SqlExpr::Function(ast::SqlFunction { name, args, distinct })
}

fn conv_expr(e: &sp::Expr) -> ast::SqlExpr {
    match e {
        sp::Expr::Value(v) => ast::SqlExpr::Value(conv_value(&v.value)),
        sp::Expr::Identifier(id) => ast::SqlExpr::Identifier(id.value.clone()),
        sp::Expr::CompoundIdentifier(ids) => {
            ast::SqlExpr::CompoundIdentifier(ids.iter().map(|i| i.value.clone()).collect())
        }
        sp::Expr::Wildcard(_) => ast::SqlExpr::Wildcard,
        sp::Expr::Cast {
            kind: sp::CastKind::Cast,
            expr,
            data_type,
            ..
        } => ast::SqlExpr::Cast {
            expr: Box::new(conv_expr(expr)),
            data_type: conv_data_type(data_type),
        },
        sp::Expr::IsNull(inner) => ast::SqlExpr::IsNull(Box::new(conv_expr(inner))),
        sp::Expr::IsNotNull(inner) => ast::SqlExpr::IsNotNull(Box::new(conv_expr(inner))),
        sp::Expr::UnaryOp { op, expr } => ast::SqlExpr::UnaryOp {
            op: match op {
                sp::UnaryOperator::Not => ast::SqlUnaryOperator::Not,
                other => ast::SqlUnaryOperator::Other(format!("{other}")),
            },
            expr: Box::new(conv_expr(expr)),
        },
        sp::Expr::BinaryOp { left, op, right } => ast::SqlExpr::BinaryOp {
            left: Box::new(conv_expr(left)),
            op: conv_binop(op),
            right: Box::new(conv_expr(right)),
        },
        sp::Expr::Function(f) => conv_function(f),
        sp::Expr::Nested(inner) => ast::SqlExpr::Nested(Box::new(conv_expr(inner))),
        other => ast::SqlExpr::Other(format!("{other}")),
    }
}

fn conv_select_item(item: &sp::SelectItem) -> ast::SelectItem {
    match item {
        sp::SelectItem::UnnamedExpr(e) => ast::SelectItem::UnnamedExpr(conv_expr(e)),
        sp::SelectItem::ExprWithAlias { expr, alias } => ast::SelectItem::ExprWithAlias {
            expr: conv_expr(expr),
            alias: alias.value.clone(),
        },
        sp::SelectItem::Wildcard(_) => ast::SelectItem::Wildcard,
        sp::SelectItem::QualifiedWildcard(kind, _) => {
            ast::SelectItem::QualifiedWildcard(format!("{kind}"))
        }
        other => ast::SelectItem::UnnamedExpr(ast::SqlExpr::Other(format!("{other}"))),
    }
}

fn conv_table_factor(tf: &sp::TableFactor) -> ast::TableFactor {
    match tf {
        sp::TableFactor::Table { name, alias, .. } => ast::TableFactor::Table {
            name: name.to_string(),
            alias: alias.as_ref().map(|a| a.name.value.clone()),
        },
        sp::TableFactor::Derived {
            subquery, alias, ..
        } => ast::TableFactor::Derived {
            subquery: Box::new(conv_query(subquery)),
            alias: alias.as_ref().map(|a| a.name.value.clone()),
        },
        other => ast::TableFactor::Other(format!("{other}")),
    }
}

fn conv_select(s: &sp::Select) -> ast::Select {
    let group_by = match &s.group_by {
        sp::GroupByExpr::Expressions(v, _) => v.iter().map(conv_expr).collect(),
        sp::GroupByExpr::All(_) => Vec::new(),
    };
    ast::Select {
        projection: s.projection.iter().map(conv_select_item).collect(),
        from: s
            .from
            .iter()
            .map(|t| ast::TableWithJoins {
                relation: conv_table_factor(&t.relation),
            })
            .collect(),
        selection: s.selection.as_ref().map(conv_expr),
        group_by,
        having: s.having.as_ref().map(conv_expr),
    }
}

fn conv_set_expr(se: &sp::SetExpr) -> ast::SetExpr {
    match se {
        sp::SetExpr::Select(s) => ast::SetExpr::Select(Box::new(conv_select(s))),
        sp::SetExpr::SetOperation {
            left,
            op,
            set_quantifier,
            right,
        } => ast::SetExpr::SetOperation {
            op: match op {
                sp::SetOperator::Union => ast::SetOperator::Union,
                other => ast::SetOperator::Other(format!("{other}")),
            },
            all: *set_quantifier == sp::SetQuantifier::All,
            left: Box::new(conv_set_expr(left)),
            right: Box::new(conv_set_expr(right)),
        },
        other => ast::SetExpr::Other(format!("{other}")),
    }
}

fn conv_query(q: &sp::Query) -> ast::Query {
    let order_by = match &q.order_by {
        Some(ob) => match &ob.kind {
            sp::OrderByKind::Expressions(exprs) => exprs
                .iter()
                .map(|o| ast::OrderByExpr {
                    expr: conv_expr(&o.expr),
                    asc: match o.options.sort {
                        Some(sp::OrderBySort::Asc) => Some(true),
                        Some(sp::OrderBySort::Desc) => Some(false),
                        _ => None,
                    },
                    nulls_first: o.options.nulls_first,
                })
                .collect(),
            _ => Vec::new(),
        },
        None => Vec::new(),
    };
    let limit = match &q.limit_clause {
        Some(sp::LimitClause::LimitOffset { limit, .. }) => limit.as_ref().map(conv_expr),
        _ => None,
    };
    ast::Query {
        body: conv_set_expr(&q.body),
        order_by,
        limit,
    }
}

fn conv_statement(s: &sp::Statement) -> ast::Statement {
    match s {
        sp::Statement::Query(q) => {
            ast::Statement::Statement(ast::SqlStatement::Query(Box::new(conv_query(q))))
        }
        sp::Statement::Explain {
            verbose, statement, ..
        } => ast::Statement::Explain(ast::ExplainPlan {
            verbose: *verbose,
            statement: Box::new(conv_statement(statement)),
        }),
        other => ast::Statement::Statement(ast::SqlStatement::Other(format!("{other}"))),
    }
}

// ---------------------------------------------------------------------------
// A small reader for CREATE EXTERNAL TABLE statements, which standard SQL
// parsing does not cover
// ---------------------------------------------------------------------------

fn parse_external_table(sql: &str) -> ast::Statement {
    let rest = sql.trim().strip_prefix("CREATE EXTERNAL TABLE ").unwrap();
    let (head, tail) = rest.split_once(" STORED AS ").unwrap();
    let head = head.trim();
    let (name, columns) = match head.split_once('(') {
        Some((name, cols)) => {
            let cols = cols.trim_end_matches(')');
            let columns = cols
                .split(',')
                .filter(|c| !c.trim().is_empty())
                .map(|c| {
                    let mut parts = c.trim().split_whitespace();
                    let cname = parts.next().unwrap().to_string();
                    let ctype = parts.next().unwrap_or("int").to_lowercase();
                    let data_type = match ctype.as_str() {
                        "boolean" => SqlDataType::Boolean,
                        "smallint" => SqlDataType::SmallInt,
                        "int" | "integer" => SqlDataType::Int,
                        "bigint" => SqlDataType::BigInt,
                        "float" => SqlDataType::Float(None),
                        "real" => SqlDataType::Real,
                        "double" => SqlDataType::Double,
                        "text" => SqlDataType::Text,
                        "date" => SqlDataType::Date,
                        "time" => SqlDataType::Time,
                        "timestamp" => SqlDataType::Timestamp,
                        other => SqlDataType::Other(other.to_string()),
                    };
                    let nullable = c.to_lowercase().contains(" null");
                    let options = if nullable {
                        vec![ast::ColumnOption::Null]
                    } else {
                        Vec::new()
                    };
                    ast::ColumnDef {
                        name: cname,
                        data_type,
                        options,
                    }
                })
                .collect();
            (name.trim().to_string(), columns)
        }
        None => (head.to_string(), Vec::new()),
    };
    let (ftype, tail) = tail.split_once(" LOCATION ").unwrap();
    let file_type = match ftype.trim() {
        "CSV" => FileType::CSV,
        "PARQUET" => FileType::Parquet,
        _ => FileType::NdJson,
    };
    let location = tail.trim().trim_matches('\'').to_string();
    ast::Statement::CreateExternalTable(ast::CreateExternalTable {
        name,
        columns,
        file_type,
        has_header: false,
        location,
    })
}

// ---------------------------------------------------------------------------
// The catalog the tests run against
// ---------------------------------------------------------------------------

fn mock_provider() -> MemoryProvider {
    let mut p = MemoryProvider::new();
    p.add_table(
        "person".to_string(),
        Schema::new(vec![
            Field::new("id".to_string(), DataType::UInt32, false),
            Field::new("first_name".to_string(), DataType::Utf8, false),
            Field::new("last_name".to_string(), DataType::Utf8, false),
            Field::new("age".to_string(), DataType::Int32, false),
            Field::new("state".to_string(), DataType::Utf8, false),
            Field::new("salary".to_string(), DataType::Float64, false),
            Field::new(
                "birth_date".to_string(),
                DataType::Timestamp(TimeUnit::Nanosecond, None),
                false,
            ),
        ]),
    );
    p.add_table(
        "aggregate_test_100".to_string(),
        Schema::new(vec![
            Field::new("c1".to_string(), DataType::Utf8, false),
            Field::new("c2".to_string(), DataType::UInt32, false),
            Field::new("c3".to_string(), DataType::Int8, false),
            Field::new("c4".to_string(), DataType::Int16, false),
            Field::new("c5".to_string(), DataType::Int32, false),
            Field::new("c6".to_string(), DataType::Int64, false),
            Field::new("c7".to_string(), DataType::UInt8, false),
            Field::new("c8".to_string(), DataType::UInt16, false),
            Field::new("c9".to_string(), DataType::UInt32, false),
            Field::new("c10".to_string(), DataType::UInt64, false),
            Field::new("c11".to_string(), DataType::Float32, false),
            Field::new("c12".to_string(), DataType::Float64, false),
            Field::new("c13".to_string(), DataType::Utf8, false),
        ]),
    );
    p.add_scalar_udf("my_sqrt".to_string());
    p
}

fn logical_plan(sql: &str) -> Result<LogicalPlan, PlanError> {
    let statement = if sql.trim_start().starts_with("CREATE EXTERNAL TABLE") {
        parse_external_table(sql)
    } else {
        let parsed = Parser::parse_sql(&GenericDialect {}, sql).unwrap();
        conv_statement(&parsed[0])
    };
    let provider = mock_provider();
    let planner = SqlToRel::new(&provider);
    planner.statement_to_plan(&statement)
}

fn quick_test(sql: &str, expected: &str) {
    let plan = logical_plan(sql).unwrap();
    assert_eq!(expected, format_plan(&plan));
}

// ---------------------------------------------------------------------------
// The planner tests
// ---------------------------------------------------------------------------

#[test]
fn select_no_relation() {
    quick_test(
        "SELECT 1",
        "Projection: Int64(1)\
             \n  EmptyRelation",
    );
}

#[test]
fn select_scalar_func_with_literal_no_relation() {
    quick_test(
        "SELECT sqrt(9)",
        "Projection: sqrt(Int64(9))\
             \n  EmptyRelation",
    );
}

#[test]
fn select_simple_filter() {
    let sql = "SELECT id, first_name, last_name \
                   FROM person WHERE state = 'CO'";
    let expected = "Projection: #id, #first_name, #last_name\
                        \n  Filter: #state Eq Utf8(\"CO\")\
                        \n    TableScan: person projection=None";
    quick_test(sql, expected);
}

#[test]
fn select_neg_filter() {
    let sql = "SELECT id, first_name, last_name \
                   FROM person WHERE NOT state";
    let expected = "Projection: #id, #first_name, #last_name\
                        \n  Filter: NOT #state\
                        \n    TableScan: person projection=None";
    quick_test(sql, expected);
}

#[test]
fn select_compound_filter() {
    let sql = "SELECT id, first_name, last_name \
                   FROM person WHERE state = 'CO' AND age >= 21 AND age <= 65";
    let expected = "Projection: #id, #first_name, #last_name\
            \n  Filter: #state Eq Utf8(\"CO\") And #age GtEq Int64(21) And #age LtEq Int64(65)\
            \n    TableScan: person projection=None";
    quick_test(sql, expected);
}

#[test]
fn test_timestamp_filter() {
    let sql = "SELECT state FROM person WHERE birth_date < CAST (158412331400600000 as timestamp)";
    let expected = "Projection: #state\
            \n  Filter: #birth_date Lt CAST(Int64(158412331400600000) AS Timestamp(Nanosecond, None))\
            \n    TableScan: person projection=None";
    quick_test(sql, expected);
}

#[test]
fn select_all_boolean_operators() {
    let sql = "SELECT age, first_name, last_name \
                   FROM person \
                   WHERE age = 21 \
                   AND age != 21 \
                   AND age > 21 \
                   AND age >= 21 \
                   AND age < 65 \
                   AND age <= 65";
    let expected = "Projection: #age, #first_name, #last_name\
                        \n  Filter: #age Eq Int64(21) \
                        And #age NotEq Int64(21) \
                        And #age Gt Int64(21) \
                        And #age GtEq Int64(21) \
                        And #age Lt Int64(65) \
                        And #age LtEq Int64(65)\
                        \n    TableScan: person projection=None";
    quick_test(sql, expected);
}

#[test]
fn select_binary_expr() {
    let sql = "SELECT age + salary from person";
    let expected = "Projection: #age Plus #salary\
                        \n  TableScan: person projection=None";
    quick_test(sql, expected);
}

#[test]
fn select_binary_expr_nested() {
    let sql = "SELECT (age + salary)/2 from person";
    let expected = "Projection: #age Plus #salary Divide Int64(2)\
                        \n  TableScan: person projection=None";
    quick_test(sql, expected);
}

#[test]
fn select_simple_aggregate() {
    quick_test(
        "SELECT MIN(age) FROM person",
        "Aggregate: groupBy=[[]], aggr=[[MIN(#age)]]\
             \n  TableScan: person projection=None",
    );
}

#[test]
fn test_sum_aggregate() {
    quick_test(
        "SELECT SUM(age) from person",
        "Aggregate: groupBy=[[]], aggr=[[SUM(#age)]]\
             \n  TableScan: person projection=None",
    );
}

#[test]
fn select_simple_aggregate_with_groupby() {
    quick_test(
        "SELECT state, MIN(age), MAX(age) FROM person GROUP BY state",
        "Aggregate: groupBy=[[#state]], aggr=[[MIN(#age), MAX(#age)]]\
             \n  TableScan: person projection=None",
    );
}

#[test]
fn test_wildcard() {
    quick_test(
        "SELECT * from person",
        "Projection: #id, #first_name, #last_name, #age, #state, #salary, #birth_date\
            \n  TableScan: person projection=None",
    );
}

#[test]
fn select_count_one() {
    let sql = "SELECT COUNT(1) FROM person";
    let expected = "Aggregate: groupBy=[[]], aggr=[[COUNT(UInt8(1))]]\
                        \n  TableScan: person projection=None";
    quick_test(sql, expected);
}

#[test]
fn select_count_column() {
    let sql = "SELECT COUNT(id) FROM person";
    let expected = "Aggregate: groupBy=[[]], aggr=[[COUNT(#id)]]\
                        \n  TableScan: person projection=None";
    quick_test(sql, expected);
}

#[test]
fn select_scalar_func() {
    let sql = "SELECT sqrt(age) FROM person";
    let expected = "Projection: sqrt(#age)\
                        \n  TableScan: person projection=None";
    quick_test(sql, expected);
}

#[test]
fn select_aliased_scalar_func() {
    let sql = "SELECT sqrt(age) AS square_people FROM person";
    let expected = "Projection: sqrt(#age) AS square_people\
                        \n  TableScan: person projection=None";
    quick_test(sql, expected);
}

#[test]
fn select_order_by() {
    let sql = "SELECT id FROM person ORDER BY id";
    let expected = "Sort: #id ASC NULLS FIRST\
                        \n  Projection: #id\
                        \n    TableScan: person projection=None";
    quick_test(sql, expected);
}

#[test]
fn select_order_by_desc() {
    let sql = "SELECT id FROM person ORDER BY id DESC";
    let expected = "Sort: #id DESC NULLS FIRST\
                        \n  Projection: #id\
                        \n    TableScan: person projection=None";
    quick_test(sql, expected);
}

#[test]
fn select_order_by_nulls_last() {
    quick_test(
        "SELECT id FROM person ORDER BY id DESC NULLS LAST",
        "Sort: #id DESC NULLS LAST\
            \n  Projection: #id\
            \n    TableScan: person projection=None",
    );
    quick_test(
        "SELECT id FROM person ORDER BY id NULLS LAST",
        "Sort: #id ASC NULLS LAST\
            \n  Projection: #id\
            \n    TableScan: person projection=None",
    );
}

#[test]
fn select_group_by() {
    let sql = "SELECT state FROM person GROUP BY state";
    let expected = "Aggregate: groupBy=[[#state]], aggr=[[]]\
                        \n  TableScan: person projection=None";
    quick_test(sql, expected);
}

#[test]
fn select_group_by_needs_projection() {
    let sql = "SELECT COUNT(state), state FROM person GROUP BY state";
    let expected = "\
        Projection: #COUNT(state), #state\
        \n  Aggregate: groupBy=[[#state]], aggr=[[COUNT(#state)]]\
        \n    TableScan: person projection=None";
    quick_test(sql, expected);
}

#[test]
fn select_group_by_needs_projection_with_replace() {
    let sql = "SELECT SUM(salary) / NULLIF(COUNT(state), 0), state FROM person GROUP BY state";
    let expected = "\
        Projection: #SUM(salary) Divide if(#COUNT(state) NotEq Int64(0), #COUNT(state)), #state\
        \n  Aggregate: groupBy=[[#state]], aggr=[[SUM(#salary), COUNT(#state)]]\
        \n    TableScan: person projection=None";
    quick_test(sql, expected);
}

#[test]
fn select_7480_1() {
    let sql = "SELECT c1, MIN(c12) FROM aggregate_test_100 GROUP BY c1, c13";
    let err = logical_plan(sql).expect_err("query should have failed");
    assert_eq!(
        "Plan(\"Projection references non-aggregate values\")",
        format!("{:?}", err)
    );
}

#[test]
fn select_7480_2() {
    let sql = "SELECT c1, c13, MIN(c12) FROM aggregate_test_100 GROUP BY c1";
    let err = logical_plan(sql).expect_err("query should have failed");
    assert_eq!(
        "Plan(\"Projection references non-aggregate values\")",
        format!("{:?}", err)
    );
}

#[test]
fn create_external_table_csv() {
    let sql = "CREATE EXTERNAL TABLE t(c1 int) STORED AS CSV LOCATION 'foo.csv'";
    let expected = "CreateExternalTable: \"t\"";
    quick_test(sql, expected);
}

#[test]
fn create_external_table_csv_no_schema() {
    let sql = "CREATE EXTERNAL TABLE t STORED AS CSV LOCATION 'foo.csv'";
    let err = logical_plan(sql).expect_err("query should have failed");
    assert_eq!(
        "Plan(\"Column definitions required for CSV files. None found\")",
        format!("{:?}", err)
    );
}

#[test]
fn create_external_table_parquet() {
    let sql = "CREATE EXTERNAL TABLE t(c1 int) STORED AS PARQUET LOCATION 'foo.parquet'";
    let err = logical_plan(sql).expect_err("query should have failed");
    assert_eq!(
        "Plan(\"Column definitions can not be specified for PARQUET files.\")",
        format!("{:?}", err)
    );
}

#[test]
fn create_external_table_parquet_no_schema() {
    let sql = "CREATE EXTERNAL TABLE t STORED AS PARQUET LOCATION 'foo.parquet'";
    let expected = "CreateExternalTable: \"t\"";
    quick_test(sql, expected);
}

// ---------------------------------------------------------------------------
// Further behavior the library promises
// ---------------------------------------------------------------------------

#[test]
fn determinism_same_input_same_plan() {
    let sql = "SELECT state, MIN(age) FROM person WHERE id > 1 GROUP BY state ORDER BY state";
    let a = format_plan(&logical_plan(sql).unwrap());
    let b = format_plan(&logical_plan(sql).unwrap());
    assert_eq!(a, b);
}

#[test]
fn formatting_is_stable() {
    let plan = logical_plan("SELECT id FROM person ORDER BY id LIMIT 5").unwrap();
    let once = format_plan(&plan);
    let twice = format_plan(&plan);
    assert_eq!(once, twice);
    assert_eq!(
        once,
        "Limit: 5\
        \n  Sort: #id ASC NULLS FIRST\
        \n    Projection: #id\
        \n      TableScan: person projection=None"
    );
}

#[test]
fn case_insensitive_function_names() {
    // fails if case folding hands its argument back unchanged
    quick_test(
        "SELECT SqRt(age) FROM person",
        "Projection: sqrt(#age)\
        \n  TableScan: person projection=None",
    );
}

#[test]
fn udf_uppercase_fallback() {
    // the uppercase fallback for user-defined function lookup
    let mut provider = MemoryProvider::new();
    provider.add_table(
        "t".to_string(),
        Schema::new(vec![Field::new("a".to_string(), DataType::Int32, false)]),
    );
    provider.add_scalar_udf("MY_FUNC".to_string());
    let parsed = Parser::parse_sql(&GenericDialect {}, "SELECT my_func(a) FROM t").unwrap();
    let statement = conv_statement(&parsed[0]);
    let planner = SqlToRel::new(&provider);
    let plan = planner.statement_to_plan(&statement).unwrap();
    assert_eq!(
        "Projection: MY_FUNC(#a)\
        \n  TableScan: t projection=None",
        format_plan(&plan)
    );
}

#[test]
fn udaf_lookup() {
    let mut provider = MemoryProvider::new();
    provider.add_table(
        "t".to_string(),
        Schema::new(vec![Field::new("a".to_string(), DataType::Int32, false)]),
    );
    provider.add_aggregate_udf("median".to_string());
    let parsed = Parser::parse_sql(&GenericDialect {}, "SELECT median(a) FROM t").unwrap();
    let statement = conv_statement(&parsed[0]);
    let planner = SqlToRel::new(&provider);
    let plan = planner.statement_to_plan(&statement).unwrap();
    assert_eq!(
        "Aggregate: groupBy=[[]], aggr=[[median(#a)]]\
        \n  TableScan: t projection=None",
        format_plan(&plan)
    );
}

#[test]
fn unknown_identifier_is_rejected() {
    let err = logical_plan("SELECT doesnotexist FROM person").expect_err("should fail");
    assert!(matches!(err, PlanError::Plan(_)));
}

#[test]
fn unknown_table_is_rejected() {
    let err = logical_plan("SELECT a FROM not_a_table").expect_err("should fail");
    assert!(matches!(err, PlanError::Plan(_)));
}

#[test]
fn unknown_function_is_rejected() {
    let err = logical_plan("SELECT no_such_fn(age) FROM person").expect_err("should fail");
    assert_eq!("Plan(\"Invalid function 'no_such_fn'\")", format!("{:?}", err));
}

#[test]
fn having_is_rejected() {
    let err = logical_plan("SELECT COUNT(id) FROM person HAVING COUNT(id) > 1")
        .expect_err("should fail");
    assert!(matches!(err, PlanError::NotImplemented(_)));
}

#[test]
fn multiple_tables_are_rejected() {
    let err = logical_plan("SELECT id FROM person, aggregate_test_100").expect_err("should fail");
    assert!(matches!(err, PlanError::NotImplemented(_)));
}

#[test]
fn non_select_statement_is_rejected() {
    let err = logical_plan("DROP TABLE person").expect_err("should fail");
    assert!(matches!(err, PlanError::NotImplemented(_)));
}

#[test]
fn group_by_position_out_of_range() {
    let err = logical_plan("SELECT state FROM person GROUP BY 2").expect_err("should fail");
    assert_eq!(
        "General(\"Select column reference should be within 1..1 but found 2\")",
        format!("{:?}", err)
    );
}

#[test]
fn group_by_position_resolves() {
    quick_test(
        "SELECT state FROM person GROUP BY 1",
        "Aggregate: groupBy=[[#state]], aggr=[[]]\
        \n  TableScan: person projection=None",
    );
}

#[test]
fn group_by_aggregate_position_is_rejected() {
    let err = logical_plan("SELECT COUNT(id) FROM person GROUP BY 1").expect_err("should fail");
    assert!(matches!(err, PlanError::General(_)));
}

#[test]
fn limit_requires_integer_literal() {
    let err = logical_plan("SELECT id FROM person LIMIT 'a'").expect_err("should fail");
    assert_eq!(
        "Plan(\"Unexpected expression for LIMIT clause\")",
        format!("{:?}", err)
    );
}

#[test]
fn union_all_plans() {
    quick_test(
        "SELECT id FROM person UNION ALL SELECT id FROM person",
        "Union\
        \n  Projection: #id\
        \n    TableScan: person projection=None\
        \n  Projection: #id\
        \n    TableScan: person projection=None",
    );
}

#[test]
fn union_without_all_is_rejected() {
    let err = logical_plan("SELECT id FROM person UNION SELECT id FROM person")
        .expect_err("should fail");
    assert!(matches!(err, PlanError::NotImplemented(_)));
}

#[test]
fn union_schema_mismatch_is_rejected() {
    let err = logical_plan("SELECT id FROM person UNION ALL SELECT state FROM person")
        .expect_err("should fail");
    assert_eq!(
        "Execution(\"UNION ALL schema expected to be the same across selects\")",
        format!("{:?}", err)
    );
}

#[test]
fn explain_wraps_the_plan() {
    let plan = logical_plan("EXPLAIN SELECT id FROM person").unwrap();
    assert_eq!(
        "Explain\
        \n  Projection: #id\
        \n    TableScan: person projection=None",
        format_plan(&plan)
    );
}

#[test]
fn derived_table_with_alias() {
    quick_test(
        "SELECT id FROM (SELECT id, state FROM person) AS p",
        "Projection: #id\
        \n  Projection: #id, #state\
        \n    TableScan: person projection=None",
    );
}

#[test]
fn scalar_variable_reference() {
    let parsed = Parser::parse_sql(&GenericDialect {}, "SELECT 1").unwrap();
    // build the expression by hand: identifiers that begin with `@`
    let _ = parsed;
    let statement = ast::Statement::Statement(ast::SqlStatement::Query(Box::new(ast::Query {
        body: ast::SetExpr::Select(Box::new(ast::Select {
            projection: vec![ast::SelectItem::UnnamedExpr(ast::SqlExpr::Identifier(
                "@session_id".to_string(),
            ))],
            from: Vec::new(),
            selection: None,
            group_by: Vec::new(),
            having: None,
        })),
        order_by: Vec::new(),
        limit: None,
    })));
    let provider = mock_provider();
    let planner = SqlToRel::new(&provider);
    let plan = planner.statement_to_plan(&statement).unwrap();
    assert_eq!(
        "Projection: @session_id\
        \n  EmptyRelation",
        format_plan(&plan)
    );
}

#[test]
fn count_wildcard_becomes_constant() {
    quick_test(
        "SELECT COUNT(*) FROM person",
        "Aggregate: groupBy=[[]], aggr=[[COUNT(UInt8(1))]]\
        \n  TableScan: person projection=None",
    );
}

#[test]
fn duplicate_aggregates_are_shared() {
    quick_test(
        "SELECT MIN(age) + MIN(age) FROM person",
        "Projection: #MIN(age) Plus #MIN(age)\
        \n  Aggregate: groupBy=[[]], aggr=[[MIN(#age)]]\
        \n    TableScan: person projection=None",
    );
}

#[test]
fn cast_text_types() {
    quick_test(
        "SELECT CAST(age AS varchar) FROM person",
        "Projection: CAST(#age AS Utf8)\
        \n  TableScan: person projection=None",
    );
}

#[test]
fn nullable_column_definition() {
    let plan =
        logical_plan("CREATE EXTERNAL TABLE t(c1 int, c2 int null) STORED AS CSV LOCATION 'x.csv'")
            .unwrap();
    match plan {
        LogicalPlan::CreateExternalTable { schema, .. } => {
            assert_eq!(2, schema.fields.len());
            assert!(!schema.fields[0].nullable);
            assert!(schema.fields[1].nullable);
        }
        _ => panic!("expected a CreateExternalTable plan"),
    }
}

#[test]
fn udf_descriptors_keep_their_names() {
    let s = ScalarUdf {
        name: "f".to_string(),
    };
    let a = AggregateUdf {
        name: "g".to_string(),
    };
    assert_eq!("f", s.name);
    assert_eq!("g", a.name);
}
