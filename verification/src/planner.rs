use vstd::prelude::*;
use crate::error::{PlanError, ErrKind};
use crate::types::{SqlDataType, FileType, DataType, convert_data_type, convert_data_type_spec,
    make_data_type, make_data_type_spec};
use crate::schema::{Schema, Field, FieldS, has_field, field_of, fields_view,
    lemma_field_index_in_range, schema_str};
use crate::expr::{Expr, ExprS, ScalarValue, ScalarValueS, Operator, BuiltinScalarFunction,
    AggregateFunction, ScalarUdf, AggregateUdf, view_expr, view_exprs, lemma_view_exprs_index,
    expr_name_s, expr_name_of, clone_expr, is_aggregate_s, is_aggregate_expr, collect_agg_s,
    collect_aggregate_expr, replace_agg_s, replace_agg_list, replace_aggregate_expr_in_projection,
    scalar_fun_of, scalar_fun_from_name, aggregate_fun_of, aggregate_fun_from_name, contains_name,
    names_contain};
use crate::plan::{LogicalPlan, PlanS, schema_of, aliases_of, alias_map_has, AliasMap, view_plans, view_plan,
    lemma_view_plans_index, format_plan, fmt_plan};
use crate::builder::{empty_spec, empty_plan, scan_spec, scan_plan, filter_spec, filter_plan,
    projection_spec, project_plan, aggregate_spec, aggregate_plan, sort_spec, sort_plan,
    limit_spec, limit_plan, expr_type_s, expr_type};
use crate::provider::{SchemaProvider, CatalogS};
use crate::sqlast::{SqlValue, SqlUnaryOperator, SqlBinaryOperator, SqlExpr, SqlFunction,
    SelectItem, TableFactor, TableWithJoins, Select, SetOperator, SetExpr, OrderByExpr, Query,
    ColumnOption, ColumnDef, CreateExternalTable, SqlStatement, ExplainPlan, Statement};
use crate::strutil::{str_eq, parse_i64, parse_i64_spec, parse_u64, parse_u64_spec, names_view,
    sort_names, names_eq, same_name_multiset, u64_to_string};

verus! {

// ---------------------------------------------------------------------------
// Case folding, through the standard library
// ---------------------------------------------------------------------------

/// What `str::to_lowercase` returns: a function of the characters alone.
pub uninterp spec fn lower_of(s: Seq<char>) -> Seq<char>;

/// What `str::to_uppercase` returns: a function of the characters alone.
pub uninterp spec fn upper_of(s: Seq<char>) -> Seq<char>;

/// Relies on str::to_lowercase: Unicode-folds a function name before lookup;
/// the result depends on the characters alone.
#[verifier::external_body]
fn to_lowercase(s: &str) -> (r: String)
    ensures
        r@ == lower_of(s@),
{
    s.to_lowercase()
}

/// Relies on str::to_uppercase: the uppercase fallback for user-defined
/// function lookup; the result depends on the characters alone.
#[verifier::external_body]
fn to_uppercase(s: &str) -> (r: String)
    ensures
        r@ == upper_of(s@),
{
    s.to_uppercase()
}

// ---------------------------------------------------------------------------
// Lowering scalar expressions: the specification
// ---------------------------------------------------------------------------

/// The operator an AST binary operator lowers to; `None` is unsupported.
pub open spec fn operator_of(op: SqlBinaryOperator) -> Option<Operator> {
    match op {
        SqlBinaryOperator::Gt => Some(Operator::Gt),
        SqlBinaryOperator::GtEq => Some(Operator::GtEq),
        SqlBinaryOperator::Lt => Some(Operator::Lt),
        SqlBinaryOperator::LtEq => Some(Operator::LtEq),
        SqlBinaryOperator::Eq => Some(Operator::Eq),
        SqlBinaryOperator::NotEq => Some(Operator::NotEq),
        SqlBinaryOperator::Plus => Some(Operator::Plus),
        SqlBinaryOperator::Minus => Some(Operator::Minus),
        SqlBinaryOperator::Multiply => Some(Operator::Multiply),
        SqlBinaryOperator::Divide => Some(Operator::Divide),
        SqlBinaryOperator::Modulus => Some(Operator::Modulus),
        SqlBinaryOperator::And => Some(Operator::And),
        SqlBinaryOperator::Or => Some(Operator::Or),
        SqlBinaryOperator::Like => Some(Operator::Like),
        SqlBinaryOperator::NotLike => Some(Operator::NotLike),
        SqlBinaryOperator::Other(_) => None,
    }
}

/// A number literal lowers to a signed 64-bit integer where its text parses
/// as one, and otherwise stays a floating-point literal holding its text.
pub open spec fn number_literal(text: Seq<char>) -> ExprS {
    match parse_i64_spec(text) {
        Some(v) => ExprS::Literal(ScalarValueS::Int64(v)),
        None => ExprS::Literal(ScalarValueS::Float64(text)),
    }
}

/// What lowering a SQL scalar expression against `schema` yields, with the
/// aliased-schema map `aliases` and the catalog snapshot `cat` in scope.
pub open spec fn rex_spec(
    sql: SqlExpr,
    schema: Seq<FieldS>,
    aliases: Seq<(Seq<char>, Seq<FieldS>)>,
    cat: CatalogS,
) -> Result<ExprS, ErrKind>
    decreases sql, 0int,
{
    match sql {
        SqlExpr::Value(v) => match v {
            SqlValue::Number(n) => Ok(number_literal(n@)),
            SqlValue::SingleQuotedString(s) => Ok(ExprS::Literal(ScalarValueS::Utf8(s@))),
            SqlValue::Other(_) => Err(ErrKind::NotImplemented),
        },
        SqlExpr::Identifier(id) => if id@.len() > 0 && id@[0] == '@' {
            Ok(ExprS::ScalarVariable(seq![id@]))
        } else if has_field(schema, id@) {
            Ok(ExprS::Column(field_of(schema, id@).name))
        } else {
            Err(ErrKind::Plan)
        },
        SqlExpr::CompoundIdentifier(ids) => if ids@.len() < 2 {
            Err(ErrKind::Internal)
        } else if ids@[0]@.len() > 0 && ids@[0]@[0] == '@' {
            Ok(ExprS::ScalarVariable(ids@.map_values(|p: String| p@)))
        } else if alias_map_has(aliases, ids@[0]@) {
            if has_field(schema, ids@[1]@) {
                Ok(ExprS::Column(field_of(schema, ids@[1]@).name))
            } else {
                Err(ErrKind::Execution)
            }
        } else {
            Err(ErrKind::Plan)
        },
        SqlExpr::Wildcard => Ok(ExprS::Wildcard),
        SqlExpr::Cast { expr, data_type } => match rex_spec(*expr, schema, aliases, cat) {
            Ok(e) => match convert_data_type_spec(data_type) {
                Some(dt) => Ok(ExprS::Cast { expr: Box::new(e), data_type: dt }),
                None => Err(ErrKind::NotImplemented),
            },
            Err(k) => Err(k),
        },
        SqlExpr::IsNull(expr) => match rex_spec(*expr, schema, aliases, cat) {
            Ok(e) => Ok(ExprS::IsNull(Box::new(e))),
            Err(k) => Err(k),
        },
        SqlExpr::IsNotNull(expr) => match rex_spec(*expr, schema, aliases, cat) {
            Ok(e) => Ok(ExprS::IsNotNull(Box::new(e))),
            Err(k) => Err(k),
        },
        SqlExpr::UnaryOp { op, expr } => match op {
            SqlUnaryOperator::Not => match rex_spec(*expr, schema, aliases, cat) {
                Ok(e) => Ok(ExprS::Not(Box::new(e))),
                Err(k) => Err(k),
            },
            SqlUnaryOperator::Other(_) => Err(ErrKind::Internal),
        },
        SqlExpr::BinaryOp { left, op, right } => match operator_of(op) {
            None => Err(ErrKind::NotImplemented),
            Some(operator) => match (
                rex_spec(*left, schema, aliases, cat),
                rex_spec(*right, schema, aliases, cat),
            ) {
                (Ok(l), Ok(r)) => Ok(
                    ExprS::BinaryExpr { left: Box::new(l), op: operator, right: Box::new(r) },
                ),
                (Err(k), _) => Err(k),
                (_, Err(k)) => Err(k),
            },
        },
        SqlExpr::Function(f) => function_spec(f, schema, aliases, cat),
        SqlExpr::Nested(e) => rex_spec(*e, schema, aliases, cat),
        SqlExpr::Other(_) => Err(ErrKind::NotImplemented),
    }
}

/// Lowering of every expression of a list.
pub open spec fn rex_list_spec(
    s: Seq<SqlExpr>,
    schema: Seq<FieldS>,
    aliases: Seq<(Seq<char>, Seq<FieldS>)>,
    cat: CatalogS,
) -> Result<Seq<ExprS>, ErrKind>
    decreases s, 1int,
{
    if s.len() == 0 {
        Ok(Seq::empty())
    } else {
        match (rex_list_spec(s.drop_last(), schema, aliases, cat), rex_spec(
            s.last(),
            schema,
            aliases,
            cat,
        )) {
            (Ok(es), Ok(e)) => Ok(es.push(e)),
            (Err(k), _) => Err(k),
            (_, Err(k)) => Err(k),
        }
    }
}

/// Lowering of `COUNT` arguments: a number literal or a wildcard becomes the
/// constant `1`, so that row counting does not depend on the argument.
pub open spec fn count_arg_spec(
    a: SqlExpr,
    schema: Seq<FieldS>,
    aliases: Seq<(Seq<char>, Seq<FieldS>)>,
    cat: CatalogS,
) -> Result<ExprS, ErrKind>
    decreases a, 1int,
{
    match a {
        SqlExpr::Value(v) => match v {
            SqlValue::Number(_) => Ok(ExprS::Literal(ScalarValueS::UInt8(1))),
            _ => rex_spec(a, schema, aliases, cat),
        },
        SqlExpr::Wildcard => Ok(ExprS::Literal(ScalarValueS::UInt8(1))),
        _ => rex_spec(a, schema, aliases, cat),
    }
}

pub open spec fn count_args_spec(
    s: Seq<SqlExpr>,
    schema: Seq<FieldS>,
    aliases: Seq<(Seq<char>, Seq<FieldS>)>,
    cat: CatalogS,
) -> Result<Seq<ExprS>, ErrKind>
    decreases s, 2int,
{
    if s.len() == 0 {
        Ok(Seq::empty())
    } else {
        match (count_args_spec(s.drop_last(), schema, aliases, cat), count_arg_spec(
            s.last(),
            schema,
            aliases,
            cat,
        )) {
            (Ok(es), Ok(e)) => Ok(es.push(e)),
            (Err(k), _) => Err(k),
            (_, Err(k)) => Err(k),
        }
    }
}

/// Function lowering: built-in scalar functions first, then the `NULLIF`
/// rewriting, then built-in aggregates with the `COUNT` argument rule, then
/// user-defined scalar and aggregate functions, tried under the lowercased
/// and then the uppercased name.
pub open spec fn function_spec(
    f: SqlFunction,
    schema: Seq<FieldS>,
    aliases: Seq<(Seq<char>, Seq<FieldS>)>,
    cat: CatalogS,
) -> Result<ExprS, ErrKind>
    decreases f, 3int,
{
    let name = lower_of(f.name@);
    if scalar_fun_of(name) is Some {
        match rex_list_spec(f.args@, schema, aliases, cat) {
            Ok(args) => Ok(
                ExprS::ScalarFunction { fun: scalar_fun_of(name)->Some_0, args },
            ),
            Err(k) => Err(k),
        }
    } else if name == "nullif"@ {
        if f.args@.len() != 2 {
            Err(ErrKind::General)
        } else {
            match (rex_spec(f.args@[0], schema, aliases, cat), rex_spec(
                f.args@[1],
                schema,
                aliases,
                cat,
            )) {
                (Ok(a0), Ok(a1)) => Ok(
                    ExprS::ScalarFunction {
                        fun: BuiltinScalarFunction::If,
                        args: seq![
                            ExprS::BinaryExpr {
                                left: Box::new(a0),
                                op: Operator::NotEq,
                                right: Box::new(a1),
                            },
                            a0,
                        ],
                    },
                ),
                (Err(k), _) => Err(k),
                (_, Err(k)) => Err(k),
            }
        }
    } else if aggregate_fun_of(name) is Some {
        let fun = aggregate_fun_of(name)->Some_0;
        let args_r = if fun == AggregateFunction::Count {
            count_args_spec(f.args@, schema, aliases, cat)
        } else {
            rex_list_spec(f.args@, schema, aliases, cat)
        };
        match args_r {
            Ok(args) => Ok(ExprS::AggregateFunction { fun, distinct: f.distinct, args }),
            Err(k) => Err(k),
        }
    } else if cat.scalar_udfs.contains_key(name) || cat.scalar_udfs.contains_key(upper_of(name)) {
        let fun = if cat.scalar_udfs.contains_key(name) {
            cat.scalar_udfs[name]
        } else {
            cat.scalar_udfs[upper_of(name)]
        };
        match rex_list_spec(f.args@, schema, aliases, cat) {
            Ok(args) => Ok(ExprS::ScalarUDF { fun, args }),
            Err(k) => Err(k),
        }
    } else if cat.aggregate_udfs.contains_key(name) || cat.aggregate_udfs.contains_key(
        upper_of(name),
    ) {
        let fun = if cat.aggregate_udfs.contains_key(name) {
            cat.aggregate_udfs[name]
        } else {
            cat.aggregate_udfs[upper_of(name)]
        };
        match rex_list_spec(f.args@, schema, aliases, cat) {
            Ok(args) => Ok(ExprS::AggregateUDF { fun, args }),
            Err(k) => Err(k),
        }
    } else {
        Err(ErrKind::Plan)
    }
}

} // verus!

verus! {

// ---------------------------------------------------------------------------
// Lowering statements: the specification
// ---------------------------------------------------------------------------

/// Lowering of one SELECT list item.
pub open spec fn select_item_spec(
    item: SelectItem,
    schema: Seq<FieldS>,
    aliases: Seq<(Seq<char>, Seq<FieldS>)>,
    cat: CatalogS,
) -> Result<ExprS, ErrKind> {
    match item {
        SelectItem::UnnamedExpr(e) => rex_spec(e, schema, aliases, cat),
        SelectItem::ExprWithAlias { expr, alias } => match rex_spec(expr, schema, aliases, cat) {
            Ok(e) => Ok(ExprS::Alias(Box::new(e), alias@)),
            Err(k) => Err(k),
        },
        SelectItem::Wildcard => Ok(ExprS::Wildcard),
        SelectItem::QualifiedWildcard(_) => Err(ErrKind::NotImplemented),
    }
}

pub open spec fn select_items_spec(
    items: Seq<SelectItem>,
    schema: Seq<FieldS>,
    aliases: Seq<(Seq<char>, Seq<FieldS>)>,
    cat: CatalogS,
) -> Result<Seq<ExprS>, ErrKind>
    decreases items,
{
    if items.len() == 0 {
        Ok(Seq::empty())
    } else {
        match (select_items_spec(items.drop_last(), schema, aliases, cat), select_item_spec(
            items.last(),
            schema,
            aliases,
            cat,
        )) {
            (Ok(es), Ok(e)) => Ok(es.push(e)),
            (Err(k), _) => Err(k),
            (_, Err(k)) => Err(k),
        }
    }
}

/// The aggregate subexpressions of the projection, in order: each projection
/// expression that counts as aggregate contributes its collected aggregates.
pub open spec fn collect_proj(s: Seq<ExprS>) -> Seq<ExprS>
    decreases s,
{
    if s.len() == 0 {
        Seq::empty()
    } else {
        collect_proj(s.drop_last()) + (if is_aggregate_s(s.last()) {
            collect_agg_s(s.last(), Seq::empty())
        } else {
            Seq::empty()
        })
    }
}

/// Whether some expression of the list has this computed name.
pub open spec fn name_in_exprs(s: Seq<ExprS>, n: Seq<char>) -> bool {
    exists|i: int| 0 <= i < s.len() && expr_name_s(#[trigger] s[i]) == Some(n)
}

/// Deduplication of aggregate expressions by computed name: the first
/// occurrence of each name stays. A nameless expression is an internal fault.
pub open spec fn dedup_spec(s: Seq<ExprS>) -> Result<Seq<ExprS>, ErrKind>
    decreases s,
{
    if s.len() == 0 {
        Ok(Seq::empty())
    } else {
        match (dedup_spec(s.drop_last()), expr_name_s(s.last())) {
            (Ok(prev), Some(n)) => if name_in_exprs(prev, n) {
                Ok(prev)
            } else {
                Ok(prev.push(s.last()))
            },
            (Err(k), _) => Err(k),
            (_, None) => Err(ErrKind::Internal),
        }
    }
}

/// The computed names of the expressions, in order; a nameless expression is
/// an internal fault.
pub open spec fn names_of(s: Seq<ExprS>) -> Result<Seq<Seq<char>>, ErrKind>
    decreases s,
{
    if s.len() == 0 {
        Ok(Seq::empty())
    } else {
        match (names_of(s.drop_last()), expr_name_s(s.last())) {
            (Ok(ns), Some(n)) => Ok(ns.push(n)),
            (Err(k), _) => Err(k),
            (_, None) => Err(ErrKind::Internal),
        }
    }
}

/// The non-aggregate expressions of the list, in order.
pub open spec fn filter_nonaggr(s: Seq<ExprS>) -> Seq<ExprS>
    decreases s,
{
    if s.len() == 0 {
        Seq::empty()
    } else if is_aggregate_s(s.last()) {
        filter_nonaggr(s.drop_last())
    } else {
        filter_nonaggr(s.drop_last()).push(s.last())
    }
}

/// The field names of a schema, in order.
pub open spec fn schema_names(fields: Seq<FieldS>) -> Seq<Seq<char>> {
    fields.map_values(|f: FieldS| f.name)
}

/// Lowering of the GROUP BY items: a bare integer literal is a 1-based index
/// into the projection, which must be in range and must not pick an
/// aggregate; anything else is lowered against the input schema.
pub open spec fn group_exprs_spec(
    gb: Seq<SqlExpr>,
    proj: Seq<ExprS>,
    input: PlanS,
    cat: CatalogS,
) -> Result<Seq<ExprS>, ErrKind>
    decreases gb,
{
    if gb.len() == 0 {
        Ok(Seq::empty())
    } else {
        match (group_exprs_spec(gb.drop_last(), proj, input, cat), group_expr_spec(
            gb.last(),
            proj,
            input,
            cat,
        )) {
            (Ok(es), Ok(e)) => Ok(es.push(e)),
            (Err(k), _) => Err(k),
            (_, Err(k)) => Err(k),
        }
    }
}

pub open spec fn group_expr_spec(item: SqlExpr, proj: Seq<ExprS>, input: PlanS, cat: CatalogS)
    -> Result<ExprS, ErrKind> {
    match item {
        SqlExpr::Value(v) => match v {
            SqlValue::Number(n) => match parse_u64_spec(n@) {
                Some(v) => if 1 <= v && v - 1 < proj.len() {
                    if is_aggregate_s(proj[v - 1]) {
                        Err(ErrKind::General)
                    } else {
                        Ok(proj[v - 1])
                    }
                } else {
                    Err(ErrKind::General)
                },
                None => Err(ErrKind::General),
            },
            _ => rex_spec(item, schema_of(input), aliases_of(input), cat),
        },
        _ => rex_spec(item, schema_of(input), aliases_of(input), cat),
    }
}

/// The aggregate branch of a SELECT: group expressions, the consistency
/// check between group names and non-aggregate projection names, the
/// aggregate node, and a final projection where the aggregate's column order
/// differs from the requested one.
pub open spec fn aggregate_branch_spec(
    input: PlanS,
    proj: Seq<ExprS>,
    gb: Seq<SqlExpr>,
    aggr: Seq<ExprS>,
    cat: CatalogS,
) -> Result<PlanS, ErrKind> {
    match group_exprs_spec(gb, proj, input, cat) {
        Err(k) => Err(k),
        Ok(group) => match (names_of(group), names_of(filter_nonaggr(proj))) {
            (Ok(gn), Ok(pn)) => if gn.to_multiset() == pn.to_multiset() {
                match aggregate_spec(group, aggr, input) {
                    Err(k) => Err(k),
                    Ok(agg) => {
                        let fnames = schema_names(schema_of(agg));
                        match replace_agg_list(proj, fnames) {
                            None => Err(ErrKind::Internal),
                            Some(expected) => match names_of(expected) {
                                Err(k) => Err(k),
                                Ok(en) => if en == fnames {
                                    Ok(agg)
                                } else {
                                    projection_spec(expected, agg)
                                },
                            },
                        }
                    },
                }
            } else {
                Err(ErrKind::Plan)
            },
            (Err(k), _) => Err(k),
            (_, Err(k)) => Err(k),
        },
    }
}

/// Lowering of the FROM clause: no table is an empty relation, one named
/// table is a scan of its catalog schema, one derived table is the lowered
/// subquery; more than one table is unsupported.
pub open spec fn from_spec(from: Seq<TableWithJoins>, cat: CatalogS) -> Result<PlanS, ErrKind>
    decreases from, 0int,
{
    if from.len() == 0 {
        Ok(empty_spec())
    } else if from.len() != 1 {
        Err(ErrKind::NotImplemented)
    } else {
        match from[0].relation {
            TableFactor::Table { name, alias } => if cat.tables.contains_key(name@) {
                Ok(scan_spec(name@, cat.tables[name@], match alias {
                    Some(a) => Some(a@),
                    None => None,
                }))
            } else {
                Err(ErrKind::Plan)
            },
            TableFactor::Derived { subquery, alias } => query_spec(*subquery, match alias {
                Some(a) => Some(a@),
                None => None,
            }, cat),
            TableFactor::Other(_) => Err(ErrKind::NotImplemented),
        }
    }
}

/// The filter step: where a WHERE clause stands, its predicate lowered
/// against the current plan's schema and wrapped in a filter node.
pub open spec fn filter_step_spec(plan: PlanS, predicate: Option<SqlExpr>, cat: CatalogS) -> Result<
    PlanS,
    ErrKind,
> {
    match predicate {
        Some(p) => match rex_spec(p, schema_of(plan), aliases_of(plan), cat) {
            Ok(e) => filter_spec(e, plan),
            Err(k) => Err(k),
        },
        None => Ok(plan),
    }
}

/// An alias as a character sequence.
pub open spec fn opt_str_view(o: Option<String>) -> Option<Seq<char>> {
    match o {
        Some(a) => Some(a@),
        None => None,
    }
}

/// Lowering of one SELECT: scan, then filter, then aggregate or projection.
pub open spec fn select_spec(s: Select, cat: CatalogS) -> Result<PlanS, ErrKind>
    decreases s, 1int,
{
    if s.having is Some {
        Err(ErrKind::NotImplemented)
    } else {
        match from_spec(s.from@, cat) {
            Err(k) => Err(k),
            Ok(scan) => {
                match filter_step_spec(scan, s.selection, cat) {
                    Err(k) => Err(k),
                    Ok(plan) => match select_items_spec(
                        s.projection@,
                        schema_of(plan),
                        aliases_of(plan),
                        cat,
                    ) {
                        Err(k) => Err(k),
                        Ok(proj) => match dedup_spec(collect_proj(proj)) {
                            Err(k) => Err(k),
                            Ok(aggr) => if s.group_by@.len() > 0 || aggr.len() > 0 {
                                aggregate_branch_spec(plan, proj, s.group_by@, aggr, cat)
                            } else {
                                projection_spec(proj, plan)
                            },
                        },
                    },
                }
            },
        }
    }
}

/// The inputs a plan contributes to a UNION: a union's own inputs, flattened
/// one level; any other plan stands for itself.
pub open spec fn union_inputs_of(p: PlanS) -> Seq<PlanS> {
    match p {
        PlanS::Union { inputs, .. } => inputs,
        x => seq![x],
    }
}

/// Whether all plans of the list share this schema.
pub open spec fn all_schemas_eq(s: Seq<PlanS>, schema: Seq<FieldS>) -> bool {
    forall|i: int| 0 <= i < s.len() ==> schema_of(#[trigger] s[i]) == schema
}

/// Lowering of a query body: a SELECT, or UNION ALL over two bodies whose
/// schemas agree.
pub open spec fn set_expr_spec(se: SetExpr, alias: Option<Seq<char>>, cat: CatalogS) -> Result<
    PlanS,
    ErrKind,
>
    decreases se, 2int,
{
    match se {
        SetExpr::Select(s) => select_spec(*s, cat),
        SetExpr::SetOperation { op, all, left, right } => match op {
            SetOperator::Union => if all {
                match (set_expr_spec(*left, None, cat), set_expr_spec(*right, None, cat)) {
                    (Ok(lp), Ok(rp)) => {
                        let inputs = union_inputs_of(lp) + union_inputs_of(rp);
                        if inputs.len() == 0 {
                            Err(ErrKind::Execution)
                        } else if !all_schemas_eq(inputs, schema_of(inputs[0])) {
                            Err(ErrKind::Execution)
                        } else {
                            Ok(
                                PlanS::Union { inputs, schema: schema_of(inputs[0]), alias },
                            )
                        }
                    },
                    (Err(k), _) => Err(k),
                    (_, Err(k)) => Err(k),
                }
            } else {
                Err(ErrKind::NotImplemented)
            },
            SetOperator::Other(_) => Err(ErrKind::NotImplemented),
        },
        SetExpr::Other(_) => Err(ErrKind::NotImplemented),
    }
}

/// Lowering of ORDER BY: each key against the current schema, ascending and
/// nulls-first by default.
pub open spec fn order_by_exprs_spec(
    order_by: Seq<OrderByExpr>,
    schema: Seq<FieldS>,
    aliases: Seq<(Seq<char>, Seq<FieldS>)>,
    cat: CatalogS,
) -> Result<Seq<ExprS>, ErrKind>
    decreases order_by,
{
    if order_by.len() == 0 {
        Ok(Seq::empty())
    } else {
        match (order_by_exprs_spec(order_by.drop_last(), schema, aliases, cat), rex_spec(
            order_by.last().expr,
            schema,
            aliases,
            cat,
        )) {
            (Ok(es), Ok(e)) => Ok(
                es.push(
                    ExprS::Sort {
                        expr: Box::new(e),
                        asc: (match order_by.last().asc {
                            Some(b) => b,
                            None => true,
                        }),
                        nulls_first: (match order_by.last().nulls_first {
                            Some(b) => b,
                            None => true,
                        }),
                    },
                ),
            ),
            (Err(k), _) => Err(k),
            (_, Err(k)) => Err(k),
        }
    }
}

pub open spec fn order_by_spec(
    plan: PlanS,
    order_by: Seq<OrderByExpr>,
    cat: CatalogS,
) -> Result<PlanS, ErrKind> {
    if order_by.len() == 0 {
        Ok(plan)
    } else {
        match order_by_exprs_spec(order_by, schema_of(plan), aliases_of(plan), cat) {
            Ok(es) => sort_spec(es, plan),
            Err(k) => Err(k),
        }
    }
}

/// Lowering of LIMIT: the expression must lower to a nonnegative 64-bit
/// integer literal that fits the machine's size type.
pub open spec fn limit_step_spec(plan: PlanS, limit: Option<SqlExpr>, cat: CatalogS) -> Result<
    PlanS,
    ErrKind,
> {
    match limit {
        None => Ok(plan),
        Some(e) => match rex_spec(e, schema_of(plan), aliases_of(plan), cat) {
            Err(k) => Err(k),
            Ok(le) => match le {
                ExprS::Literal(v) => match v {
                    ScalarValueS::Int64(n) => if 0 <= n <= usize::MAX {
                        Ok(limit_spec(n as usize, plan))
                    } else {
                        Err(ErrKind::Plan)
                    },
                    _ => Err(ErrKind::Plan),
                },
                _ => Err(ErrKind::Plan),
            },
        },
    }
}

/// Lowering of a full query: body, then ORDER BY, then LIMIT.
pub open spec fn query_spec(q: Query, alias: Option<Seq<char>>, cat: CatalogS) -> Result<
    PlanS,
    ErrKind,
>
    decreases q, 3int,
{
    match set_expr_spec(q.body, alias, cat) {
        Err(k) => Err(k),
        Ok(p) => match order_by_spec(p, q.order_by@, cat) {
            Err(k) => Err(k),
            Ok(p2) => limit_step_spec(p2, q.limit, cat),
        },
    }
}

// ---------------------------------------------------------------------------
// CREATE EXTERNAL TABLE and EXPLAIN: the specification
// ---------------------------------------------------------------------------

pub open spec fn column_nullable(opts: Seq<ColumnOption>) -> bool {
    exists|i: int| 0 <= i < opts.len() && (#[trigger] opts[i]) is Null
}

/// The schema the column definitions denote; a column of an unsupported SQL
/// type is rejected.
pub open spec fn build_schema_spec(cols: Seq<ColumnDef>) -> Result<Seq<FieldS>, ErrKind>
    decreases cols,
{
    if cols.len() == 0 {
        Ok(Seq::empty())
    } else {
        match (build_schema_spec(cols.drop_last()), make_data_type_spec(cols.last().data_type)) {
            (Ok(fs), Some(dt)) => Ok(
                fs.push(
                    FieldS {
                        name: cols.last().name@,
                        data_type: dt,
                        nullable: column_nullable(cols.last().options@),
                    },
                ),
            ),
            (Err(k), _) => Err(k),
            (_, None) => Err(ErrKind::NotImplemented),
        }
    }
}

/// Lowering of CREATE EXTERNAL TABLE: CSV requires column definitions,
/// Parquet forbids them, NDJSON takes either.
pub open spec fn cet_spec(s: CreateExternalTable) -> Result<PlanS, ErrKind> {
    if s.file_type == FileType::CSV && s.columns@.len() == 0 {
        Err(ErrKind::Plan)
    } else if s.file_type == FileType::Parquet && s.columns@.len() != 0 {
        Err(ErrKind::Plan)
    } else {
        match build_schema_spec(s.columns@) {
            Err(k) => Err(k),
            Ok(fields) => Ok(
                PlanS::CreateExternalTable {
                    name: s.name@,
                    schema: fields,
                    location: s.location@,
                    file_type: s.file_type,
                    has_header: s.has_header,
                },
            ),
        }
    }
}

/// The fixed schema of an EXPLAIN result.
pub open spec fn explain_schema_s() -> Seq<FieldS> {
    seq![
        FieldS { name: "plan_type"@, data_type: crate::types::DataTypeS::Utf8, nullable: false },
        FieldS { name: "plan"@, data_type: crate::types::DataTypeS::Utf8, nullable: false },
    ]
}

/// Lowering of a statement: queries and CREATE EXTERNAL TABLE directly,
/// EXPLAIN around the lowered inner statement; anything else is unsupported.
pub open spec fn statement_spec(s: Statement, cat: CatalogS) -> Result<PlanS, ErrKind>
    decreases s,
{
    match s {
        Statement::CreateExternalTable(cet) => cet_spec(cet),
        Statement::Statement(st) => sql_statement_spec(st, cat),
        Statement::Explain(ep) => match statement_spec(*ep.statement, cat) {
            Err(k) => Err(k),
            Ok(p) => Ok(
                PlanS::Explain {
                    verbose: ep.verbose,
                    plan: Box::new(p),
                    stringified_plans: seq![fmt_plan(p, Seq::empty())],
                    schema: explain_schema_s(),
                },
            ),
        },
    }
}

pub open spec fn sql_statement_spec(s: SqlStatement, cat: CatalogS) -> Result<PlanS, ErrKind>
    decreases s,
{
    match s {
        SqlStatement::Query(q) => query_spec(*q, None, cat),
        SqlStatement::Other(_) => Err(ErrKind::NotImplemented),
    }
}

/// The model of a translation result: the plan's model, or the error's kind.
pub open spec fn plan_result(r: Result<LogicalPlan, PlanError>) -> Result<PlanS, ErrKind> {
    match r {
        Ok(p) => Ok(p@),
        Err(e) => Err(e.kind()),
    }
}

} // verus!

verus! {

// ---------------------------------------------------------------------------
// Early-error lemmas for the list specifications
// ---------------------------------------------------------------------------

proof fn lemma_rex_list_prefix_ok(
    s: Seq<SqlExpr>,
    schema: Seq<FieldS>,
    aliases: Seq<(Seq<char>, Seq<FieldS>)>,
    cat: CatalogS,
)
    requires
        forall|j: int| 0 <= j < s.len() ==> rex_spec(#[trigger] s[j], schema, aliases, cat) is Ok,
    ensures
        rex_list_spec(s, schema, aliases, cat) is Ok,
    decreases s,
{
    if s.len() > 0 {
        assert(forall|j: int| 0 <= j < s.drop_last().len() ==> #[trigger] s.drop_last()[j] == s[j]);
        lemma_rex_list_prefix_ok(s.drop_last(), schema, aliases, cat);
    }
}

proof fn lemma_rex_list_err(
    s: Seq<SqlExpr>,
    schema: Seq<FieldS>,
    aliases: Seq<(Seq<char>, Seq<FieldS>)>,
    cat: CatalogS,
    i: int,
    k: ErrKind,
)
    requires
        0 <= i < s.len(),
        rex_spec(s[i], schema, aliases, cat) == Err::<ExprS, ErrKind>(k),
        forall|j: int| 0 <= j < i ==> rex_spec(#[trigger] s[j], schema, aliases, cat) is Ok,
    ensures
        rex_list_spec(s, schema, aliases, cat) == Err::<Seq<ExprS>, ErrKind>(k),
    decreases s,
{
    assert(forall|j: int| 0 <= j < s.drop_last().len() ==> #[trigger] s.drop_last()[j] == s[j]);
    if i == s.len() - 1 {
        lemma_rex_list_prefix_ok(s.drop_last(), schema, aliases, cat);
    } else {
        lemma_rex_list_err(s.drop_last(), schema, aliases, cat, i, k);
    }
}

proof fn lemma_count_args_prefix_ok(
    s: Seq<SqlExpr>,
    schema: Seq<FieldS>,
    aliases: Seq<(Seq<char>, Seq<FieldS>)>,
    cat: CatalogS,
)
    requires
        forall|j: int|
            0 <= j < s.len() ==> count_arg_spec(#[trigger] s[j], schema, aliases, cat) is Ok,
    ensures
        count_args_spec(s, schema, aliases, cat) is Ok,
    decreases s,
{
    if s.len() > 0 {
        assert(forall|j: int| 0 <= j < s.drop_last().len() ==> #[trigger] s.drop_last()[j] == s[j]);
        lemma_count_args_prefix_ok(s.drop_last(), schema, aliases, cat);
    }
}

proof fn lemma_count_args_err(
    s: Seq<SqlExpr>,
    schema: Seq<FieldS>,
    aliases: Seq<(Seq<char>, Seq<FieldS>)>,
    cat: CatalogS,
    i: int,
    k: ErrKind,
)
    requires
        0 <= i < s.len(),
        count_arg_spec(s[i], schema, aliases, cat) == Err::<ExprS, ErrKind>(k),
        forall|j: int| 0 <= j < i ==> count_arg_spec(#[trigger] s[j], schema, aliases, cat) is Ok,
    ensures
        count_args_spec(s, schema, aliases, cat) == Err::<Seq<ExprS>, ErrKind>(k),
    decreases s,
{
    assert(forall|j: int| 0 <= j < s.drop_last().len() ==> #[trigger] s.drop_last()[j] == s[j]);
    if i == s.len() - 1 {
        lemma_count_args_prefix_ok(s.drop_last(), schema, aliases, cat);
    } else {
        lemma_count_args_err(s.drop_last(), schema, aliases, cat, i, k);
    }
}

proof fn lemma_select_items_prefix_ok(
    s: Seq<SelectItem>,
    schema: Seq<FieldS>,
    aliases: Seq<(Seq<char>, Seq<FieldS>)>,
    cat: CatalogS,
)
    requires
        forall|j: int|
            0 <= j < s.len() ==> select_item_spec(#[trigger] s[j], schema, aliases, cat) is Ok,
    ensures
        select_items_spec(s, schema, aliases, cat) is Ok,
    decreases s,
{
    if s.len() > 0 {
        assert(forall|j: int| 0 <= j < s.drop_last().len() ==> #[trigger] s.drop_last()[j] == s[j]);
        lemma_select_items_prefix_ok(s.drop_last(), schema, aliases, cat);
    }
}

proof fn lemma_select_items_err(
    s: Seq<SelectItem>,
    schema: Seq<FieldS>,
    aliases: Seq<(Seq<char>, Seq<FieldS>)>,
    cat: CatalogS,
    i: int,
    k: ErrKind,
)
    requires
        0 <= i < s.len(),
        select_item_spec(s[i], schema, aliases, cat) == Err::<ExprS, ErrKind>(k),
        forall|j: int| 0 <= j < i ==> select_item_spec(#[trigger] s[j], schema, aliases, cat) is Ok,
    ensures
        select_items_spec(s, schema, aliases, cat) == Err::<Seq<ExprS>, ErrKind>(k),
    decreases s,
{
    assert(forall|j: int| 0 <= j < s.drop_last().len() ==> #[trigger] s.drop_last()[j] == s[j]);
    if i == s.len() - 1 {
        lemma_select_items_prefix_ok(s.drop_last(), schema, aliases, cat);
    } else {
        lemma_select_items_err(s.drop_last(), schema, aliases, cat, i, k);
    }
}

proof fn lemma_group_exprs_prefix_ok(s: Seq<SqlExpr>, proj: Seq<ExprS>, input: PlanS, cat: CatalogS)
    requires
        forall|j: int| 0 <= j < s.len() ==> group_expr_spec(#[trigger] s[j], proj, input, cat) is Ok,
    ensures
        group_exprs_spec(s, proj, input, cat) is Ok,
    decreases s,
{
    if s.len() > 0 {
        assert(forall|j: int| 0 <= j < s.drop_last().len() ==> #[trigger] s.drop_last()[j] == s[j]);
        lemma_group_exprs_prefix_ok(s.drop_last(), proj, input, cat);
    }
}

proof fn lemma_group_exprs_err(
    s: Seq<SqlExpr>,
    proj: Seq<ExprS>,
    input: PlanS,
    cat: CatalogS,
    i: int,
    k: ErrKind,
)
    requires
        0 <= i < s.len(),
        group_expr_spec(s[i], proj, input, cat) == Err::<ExprS, ErrKind>(k),
        forall|j: int| 0 <= j < i ==> group_expr_spec(#[trigger] s[j], proj, input, cat) is Ok,
    ensures
        group_exprs_spec(s, proj, input, cat) == Err::<Seq<ExprS>, ErrKind>(k),
    decreases s,
{
    assert(forall|j: int| 0 <= j < s.drop_last().len() ==> #[trigger] s.drop_last()[j] == s[j]);
    if i == s.len() - 1 {
        lemma_group_exprs_prefix_ok(s.drop_last(), proj, input, cat);
    } else {
        lemma_group_exprs_err(s.drop_last(), proj, input, cat, i, k);
    }
}

proof fn lemma_order_by_prefix_ok(
    s: Seq<OrderByExpr>,
    schema: Seq<FieldS>,
    aliases: Seq<(Seq<char>, Seq<FieldS>)>,
    cat: CatalogS,
)
    requires
        forall|j: int|
            0 <= j < s.len() ==> rex_spec((#[trigger] s[j]).expr, schema, aliases, cat) is Ok,
    ensures
        order_by_exprs_spec(s, schema, aliases, cat) is Ok,
    decreases s,
{
    if s.len() > 0 {
        assert(forall|j: int| 0 <= j < s.drop_last().len() ==> #[trigger] s.drop_last()[j] == s[j]);
        lemma_order_by_prefix_ok(s.drop_last(), schema, aliases, cat);
    }
}

proof fn lemma_order_by_err(
    s: Seq<OrderByExpr>,
    schema: Seq<FieldS>,
    aliases: Seq<(Seq<char>, Seq<FieldS>)>,
    cat: CatalogS,
    i: int,
    k: ErrKind,
)
    requires
        0 <= i < s.len(),
        rex_spec(s[i].expr, schema, aliases, cat) == Err::<ExprS, ErrKind>(k),
        forall|j: int|
            0 <= j < i ==> rex_spec((#[trigger] s[j]).expr, schema, aliases, cat) is Ok,
    ensures
        order_by_exprs_spec(s, schema, aliases, cat) == Err::<Seq<ExprS>, ErrKind>(k),
    decreases s,
{
    assert(forall|j: int| 0 <= j < s.drop_last().len() ==> #[trigger] s.drop_last()[j] == s[j]);
    if i == s.len() - 1 {
        lemma_order_by_prefix_ok(s.drop_last(), schema, aliases, cat);
    } else {
        lemma_order_by_err(s.drop_last(), schema, aliases, cat, i, k);
    }
}

proof fn lemma_names_of_prefix_ok(s: Seq<ExprS>)
    requires
        forall|j: int| 0 <= j < s.len() ==> expr_name_s(#[trigger] s[j]) is Some,
    ensures
        names_of(s) is Ok,
    decreases s,
{
    if s.len() > 0 {
        assert(forall|j: int| 0 <= j < s.drop_last().len() ==> #[trigger] s.drop_last()[j] == s[j]);
        lemma_names_of_prefix_ok(s.drop_last());
    }
}

proof fn lemma_names_of_err(s: Seq<ExprS>, i: int)
    requires
        0 <= i < s.len(),
        expr_name_s(s[i]) is None,
        forall|j: int| 0 <= j < i ==> expr_name_s(#[trigger] s[j]) is Some,
    ensures
        names_of(s) == Err::<Seq<Seq<char>>, ErrKind>(ErrKind::Internal),
    decreases s,
{
    assert(forall|j: int| 0 <= j < s.drop_last().len() ==> #[trigger] s.drop_last()[j] == s[j]);
    if i == s.len() - 1 {
        lemma_names_of_prefix_ok(s.drop_last());
    } else {
        lemma_names_of_err(s.drop_last(), i);
    }
}

proof fn lemma_build_schema_prefix_ok(s: Seq<ColumnDef>)
    requires
        forall|j: int|
            0 <= j < s.len() ==> make_data_type_spec((#[trigger] s[j]).data_type) is Some,
    ensures
        build_schema_spec(s) is Ok,
    decreases s,
{
    if s.len() > 0 {
        assert(forall|j: int| 0 <= j < s.drop_last().len() ==> #[trigger] s.drop_last()[j] == s[j]);
        lemma_build_schema_prefix_ok(s.drop_last());
    }
}

proof fn lemma_build_schema_err(s: Seq<ColumnDef>, i: int)
    requires
        0 <= i < s.len(),
        make_data_type_spec(s[i].data_type) is None,
        forall|j: int|
            0 <= j < i ==> make_data_type_spec((#[trigger] s[j]).data_type) is Some,
    ensures
        build_schema_spec(s) == Err::<Seq<FieldS>, ErrKind>(ErrKind::NotImplemented),
    decreases s,
{
    assert(forall|j: int| 0 <= j < s.drop_last().len() ==> #[trigger] s.drop_last()[j] == s[j]);
    if i == s.len() - 1 {
        lemma_build_schema_prefix_ok(s.drop_last());
    } else {
        lemma_build_schema_err(s.drop_last(), i);
    }
}

} // verus!

verus! {

// ---------------------------------------------------------------------------
// The translator
// ---------------------------------------------------------------------------

/// The model of an expression-lowering result.
pub open spec fn expr_result(r: Result<Expr, PlanError>) -> Result<ExprS, ErrKind> {
    match r {
        Ok(e) => Ok(e@),
        Err(e) => Err(e.kind()),
    }
}

/// The computed names of the expressions, as strings.
fn expr_names(v: &Vec<Expr>) -> (r: Result<Vec<String>, PlanError>)
    ensures
        (match r {
            Ok(ns) => names_of(view_exprs(v@)) == Ok::<Seq<Seq<char>>, ErrKind>(names_view(ns@)),
            Err(err) => names_of(view_exprs(v@)) == Err::<Seq<Seq<char>>, ErrKind>(err.kind())
                && err.kind() == ErrKind::Internal,
        }),
{
    let ghost vs = view_exprs(v@);
    proof {
        lemma_view_exprs_index(v@);
    }
    let mut ns: Vec<String> = Vec::new();
    let mut i: usize = 0;
    proof {
        assert(vs.take(0) =~= Seq::<ExprS>::empty());
        assert(names_view(ns@) =~= Seq::<Seq<char>>::empty());
    }
    while i < v.len()
        invariant
            0 <= i <= v@.len(),
            vs == view_exprs(v@),
            vs.len() == v@.len(),
            forall|j: int| 0 <= j < v@.len() ==> #[trigger] vs[j] == view_expr(v@[j]),
            forall|j: int| 0 <= j < i ==> expr_name_s(#[trigger] vs[j]) is Some,
            names_of(vs.take(i as int)) == Ok::<Seq<Seq<char>>, ErrKind>(names_view(ns@)),
        decreases v@.len() - i,
    {
        proof {
            assert(vs.take(i + 1).drop_last() =~= vs.take(i as int));
            assert(vs.take(i + 1).last() == vs[i as int]);
        }
        match expr_name_of(&v[i]) {
            Ok(n) => {
                let ghost before = ns@;
                ns.push(n);
                proof {
                    assert(ns@.drop_last() =~= before);
                    assert(names_view(ns@) =~= names_view(before).push(n@));
                }
            },
            Err(err) => {
                proof {
                    lemma_names_of_err(vs, i as int);
                }
                return Err(err);
            },
        }
        i = i + 1;
    }
    proof {
        assert(vs.take(vs.len() as int) =~= vs);
    }
    Ok(ns)
}

/// Aggregates with a repeated computed name are kept once, first come first
/// kept.
fn dedup_aggregates(collected: Vec<Expr>) -> (r: Result<Vec<Expr>, PlanError>)
    ensures
        (match r {
            Ok(out) => dedup_spec(view_exprs(collected@)) == Ok::<Seq<ExprS>, ErrKind>(
                view_exprs(out@),
            ),
            Err(err) => dedup_spec(view_exprs(collected@)) == Err::<Seq<ExprS>, ErrKind>(
                err.kind(),
            ) && err.kind() == ErrKind::Internal,
        }),
{
    let ghost vs = view_exprs(collected@);
    proof {
        lemma_view_exprs_index(collected@);
    }
    let mut out: Vec<Expr> = Vec::new();
    let mut seen: Vec<String> = Vec::new();
    let mut i: usize = 0;
    proof {
        assert(vs.take(0) =~= Seq::<ExprS>::empty());
    }
    while i < collected.len()
        invariant
            0 <= i <= collected@.len(),
            vs == view_exprs(collected@),
            vs.len() == collected@.len(),
            forall|j: int| 0 <= j < collected@.len() ==> #[trigger] vs[j] == view_expr(
                collected@[j],
            ),
            forall|j: int| 0 <= j < i ==> expr_name_s(#[trigger] vs[j]) is Some,
            dedup_spec(vs.take(i as int)) == Ok::<Seq<ExprS>, ErrKind>(view_exprs(out@)),
            forall|n: Seq<char>|
                names_view(seen@).contains(n) <==> name_in_exprs(view_exprs(out@), n),
        decreases collected@.len() - i,
    {
        proof {
            assert(vs.take(i + 1).drop_last() =~= vs.take(i as int));
            assert(vs.take(i + 1).last() == vs[i as int]);
        }
        let name = match expr_name_of(&collected[i]) {
            Ok(n) => n,
            Err(err) => {
                proof {
                    lemma_dedup_err(vs, i as int);
                }
                return Err(err);
            },
        };
        if !contains_name(&seen, name.as_str()) {
            let ghost out_before = view_exprs(out@);
            let ghost seen_before = seen@;
            let ghost raw_out = out@;
            out.push(clone_expr(&collected[i]));
            seen.push(name);
            proof {
                assert(out@.drop_last() =~= raw_out);
                assert(view_exprs(out@) == out_before.push(view_expr(out@.last())));
                assert(seen@.drop_last() =~= seen_before);
                assert(names_view(seen@) =~= names_view(seen_before).push(seen@.last()@));
                assert forall|n: Seq<char>|
                    names_view(seen@).contains(n) <==> name_in_exprs(view_exprs(out@), n) by {
                    let so = names_view(seen_before);
                    let oo = out_before;
                    let nw = view_exprs(out@);
                    assert(nw == oo.push(vs[i as int]));
                    if names_view(seen@).contains(n) {
                        if so.contains(n) {
                            let w = choose|w: int| 0 <= w < oo.len() && expr_name_s(#[trigger] oo[w]) == Some(n);
                            assert(nw[w] == oo[w]);
                        } else {
                            assert(names_view(seen@).last() == n);
                            assert(expr_name_s(nw[nw.len() - 1]) == Some(n));
                        }
                    }
                    if name_in_exprs(nw, n) {
                        let w = choose|w: int| 0 <= w < nw.len() && expr_name_s(#[trigger] nw[w]) == Some(n);
                        if w < oo.len() {
                            assert(oo[w] == nw[w]);
                            assert(name_in_exprs(oo, n));
                            assert(so.contains(n));
                            let u = choose|u: int| 0 <= u < so.len() && so[u] == n;
                            assert(names_view(seen@)[u] == n);
                        } else {
                            assert(nw[w] == vs[i as int]);
                            assert(names_view(seen@).last() == n);
                        }
                    }
                }
            }
        } else {
            proof {
                assert(name_in_exprs(view_exprs(out@), name@));
            }
        }
        i = i + 1;
    }
    proof {
        assert(vs.take(vs.len() as int) =~= vs);
    }
    Ok(out)
}

proof fn lemma_dedup_err(s: Seq<ExprS>, i: int)
    requires
        0 <= i < s.len(),
        expr_name_s(s[i]) is None,
        forall|j: int| 0 <= j < i ==> expr_name_s(#[trigger] s[j]) is Some,
    ensures
        dedup_spec(s) == Err::<Seq<ExprS>, ErrKind>(ErrKind::Internal),
    decreases s,
{
    assert(forall|j: int| 0 <= j < s.drop_last().len() ==> #[trigger] s.drop_last()[j] == s[j]);
    if i == s.len() - 1 {
        lemma_dedup_prefix_ok(s.drop_last());
    } else {
        lemma_dedup_err(s.drop_last(), i);
    }
}

proof fn lemma_dedup_prefix_ok(s: Seq<ExprS>)
    requires
        forall|j: int| 0 <= j < s.len() ==> expr_name_s(#[trigger] s[j]) is Some,
    ensures
        dedup_spec(s) is Ok,
    decreases s,
{
    if s.len() > 0 {
        assert(forall|j: int| 0 <= j < s.drop_last().len() ==> #[trigger] s.drop_last()[j] == s[j]);
        lemma_dedup_prefix_ok(s.drop_last());
    }
}

/// The SQL query translator: turns parsed statements into logical plans,
/// resolving tables and functions through a `SchemaProvider`.
pub struct SqlToRel<'a, S: SchemaProvider> {
    schema_provider: &'a S,
}

impl<'a, S: SchemaProvider> SqlToRel<'a, S> {
    /// The catalog snapshot every answer of this translator is measured
    /// against.
    pub closed spec fn cat(&self) -> CatalogS {
        self.schema_provider.catalog()
    }

    /// Creates a translator over the given catalog.
    pub fn new(schema_provider: &'a S) -> (r: Self)
        ensures
            r.cat() == schema_provider.catalog(),
    {
        SqlToRel { schema_provider }
    }

    /// Translates a statement into a logical plan.
    pub fn statement_to_plan(&self, statement: &Statement) -> (r: Result<LogicalPlan, PlanError>)
        ensures
            plan_result(r) == statement_spec(*statement, self.cat()),
        decreases *statement,
    {
        match statement {
            Statement::CreateExternalTable(s) => self.external_table_to_plan(s),
            Statement::Statement(s) => self.sql_statement_to_plan(s),
            Statement::Explain(s) => self.explain_statement_to_plan(s),
        }
    }

    /// Translates a standard SQL statement; only queries are implemented.
    pub fn sql_statement_to_plan(&self, sql: &SqlStatement) -> (r: Result<LogicalPlan, PlanError>)
        ensures
            plan_result(r) == sql_statement_spec(*sql, self.cat()),
        decreases *sql,
    {
        match sql {
            SqlStatement::Query(query) => self.query_to_plan(query),
            SqlStatement::Other(_) => Err(
                PlanError::NotImplemented(
                    String::from_str("Only SELECT statements are implemented"),
                ),
            ),
        }
    }

    fn query_to_plan(&self, query: &Query) -> (r: Result<LogicalPlan, PlanError>)
        ensures
            plan_result(r) == query_spec(*query, None, self.cat()),
        decreases *query, 1int,
    {
        self.query_to_plan_with_alias(query, &None)
    }

    /// Translates a query, giving the resulting relation an optional alias.
    pub fn query_to_plan_with_alias(&self, query: &Query, alias: &Option<String>) -> (r: Result<
        LogicalPlan,
        PlanError,
    >)
        ensures
            plan_result(r) == query_spec(*query, opt_str_view(*alias), self.cat()),
        decreases *query, 0int,
    {
        let plan = self.set_expr_to_plan(&query.body, alias)?;
        let plan = self.order_by(plan, &query.order_by)?;
        self.limit(plan, &query.limit)
    }

    fn set_expr_to_plan(&self, set_expr: &SetExpr, alias: &Option<String>) -> (r: Result<
        LogicalPlan,
        PlanError,
    >)
        ensures
            plan_result(r) == set_expr_spec(*set_expr, opt_str_view(*alias), self.cat()),
        decreases *set_expr,
    {
        match set_expr {
            SetExpr::Select(s) => self.select_to_plan(s),
            SetExpr::SetOperation { op, all, left, right } => match op {
                SetOperator::Union => {
                    if !*all {
                        return Err(
                            PlanError::NotImplemented(
                                String::from_str("Only UNION ALL is supported"),
                            ),
                        );
                    }
                    let left_plan = self.set_expr_to_plan(left, &None)?;
                    let right_plan = self.set_expr_to_plan(right, &None)?;
                    let ghost lpv = left_plan@;
                    let ghost rpv = right_plan@;
                    let mut inputs = union_inputs(left_plan);
                    let mut rhs = union_inputs(right_plan);
                    let ghost sa = inputs@;
                    let ghost sb = rhs@;
                    inputs.append(&mut rhs);
                    proof {
                        assert(inputs@ == sa + sb);
                        lemma_view_plans_append(sa, sb);
                        assert(view_plans(inputs@) == union_inputs_of(lpv) + union_inputs_of(rpv));
                    }
                    if inputs.len() == 0 {
                        return Err(
                            PlanError::Execution(String::from_str("Empty UNION")),
                        );
                    }
                    let ghost ivs = view_plans(inputs@);
                    proof {
                        lemma_view_plans_index(inputs@);
                    }
                    let schema0 = inputs[0].schema();
                    let mut all_eq = true;
                    let mut i: usize = 0;
                    while i < inputs.len()
                        invariant
                            0 <= i <= inputs@.len(),
                            ivs == view_plans(inputs@),
                            ivs.len() == inputs@.len(),
                            inputs@.len() > 0,
                            forall|j: int| 0 <= j < inputs@.len() ==> #[trigger] ivs[j]
                                == view_plan(inputs@[j]),
                            schema0@ == schema_of(ivs[0]),
                            all_eq == (forall|j: int|
                                0 <= j < i ==> schema_of(#[trigger] ivs[j]) == schema0@),
                        decreases inputs@.len() - i,
                    {
                        let si = inputs[i].schema();
                        if !schema0.schema_eq(&si) {
                            proof {
                                assert(schema_of(ivs[i as int]) != schema0@);
                            }
                            all_eq = false;
                        }
                        i = i + 1;
                    }
                    if !all_eq {
                        proof {
                            assert(!all_schemas_eq(ivs, schema_of(ivs[0])));
                        }
                        return Err(
                            PlanError::Execution(
                                String::from_str(
                                    "UNION ALL schema expected to be the same across selects",
                                ),
                            ),
                        );
                    }
                    let out_alias = match alias {
                        Some(a) => Some(a.clone()),
                        None => None,
                    };
                    proof {
                        assert(all_schemas_eq(ivs, schema_of(ivs[0])));
                    }
                    let result = LogicalPlan::Union { inputs, schema: schema0, alias: out_alias };
                    proof {
                        assert(result@ =~= (PlanS::Union {
                            inputs: ivs,
                            schema: schema_of(ivs[0]),
                            alias: opt_str_view(*alias),
                        }));
                    }
                    Ok(result)
                },
                SetOperator::Other(_) => Err(
                    PlanError::NotImplemented(String::from_str("Only UNION ALL is supported")),
                ),
            },
            SetExpr::Other(_) => Err(
                PlanError::NotImplemented(String::from_str("Query body not implemented yet")),
            ),
        }
    }

    fn from_join_to_plan(&self, from: &Vec<TableWithJoins>) -> (r: Result<LogicalPlan, PlanError>)
        ensures
            plan_result(r) == from_spec(from@, self.cat()),
        decreases *from,
    {
        if from.len() == 0 {
            return Ok(empty_plan());
        }
        if from.len() != 1 {
            return Err(
                PlanError::NotImplemented(
                    String::from_str("FROM with multiple tables is still not implemented"),
                ),
            );
        }
        match &from[0].relation {
            TableFactor::Table { name, alias } => {
                match self.schema_provider.get_table_meta(name.as_str()) {
                    Some(schema) => {
                        let out_alias = match alias {
                            Some(a) => Some(a.clone()),
                            None => None,
                        };
                        Ok(scan_plan(name.clone(), schema, out_alias))
                    },
                    None => {
                        let mut m = String::from_str("no schema found for table ");
                        m.append(name.as_str());
                        Err(PlanError::Plan(m))
                    },
                }
            },
            TableFactor::Derived { subquery, alias } => {
                let out_alias = match alias {
                    Some(a) => Some(a.clone()),
                    None => None,
                };
                self.query_to_plan_with_alias(subquery, &out_alias)
            },
            TableFactor::Other(_) => Err(
                PlanError::NotImplemented(String::from_str("Subqueries are still not supported")),
            ),
        }
    }

    fn select_to_plan(&self, select: &Select) -> (r: Result<LogicalPlan, PlanError>)
        ensures
            plan_result(r) == select_spec(*select, self.cat()),
        decreases *select,
    {
        if select.having.is_some() {
            return Err(
                PlanError::NotImplemented(String::from_str("HAVING is not implemented yet")),
            );
        }
        let plan = self.from_join_to_plan(&select.from)?;
        let plan = self.filter(plan, &select.selection)?;
        let schema = plan.schema();
        let aliases = plan.aliased_schema();
        let projection_expr = self.select_items(&select.projection, &schema, &aliases)?;
        let ghost pvs = view_exprs(projection_expr@);
        proof {
            lemma_view_exprs_index(projection_expr@);
        }
        let mut collected: Vec<Expr> = Vec::new();
        let mut i: usize = 0;
        proof {
            assert(pvs.take(0) =~= Seq::<ExprS>::empty());
            assert(view_exprs(collected@) =~= collect_proj(pvs.take(0)));
        }
        while i < projection_expr.len()
            invariant
                0 <= i <= projection_expr@.len(),
                pvs == view_exprs(projection_expr@),
                pvs.len() == projection_expr@.len(),
                forall|j: int| 0 <= j < projection_expr@.len() ==> #[trigger] pvs[j] == view_expr(
                    projection_expr@[j],
                ),
                view_exprs(collected@) == collect_proj(pvs.take(i as int)),
            decreases projection_expr@.len() - i,
        {
            let ghost cv = view_exprs(collected@);
            proof {
                assert(pvs.take(i + 1).drop_last() =~= pvs.take(i as int));
                assert(pvs.take(i + 1).last() == pvs[i as int]);
            }
            if is_aggregate_expr(&projection_expr[i]) {
                collected = collect_aggregate_expr(&projection_expr[i], collected);
                proof {
                    lemma_collect_agg_prepend(pvs[i as int], cv);
                }
            } else {
                proof {
                    assert(cv + Seq::<ExprS>::empty() =~= cv);
                }
            }
            i = i + 1;
        }
        proof {
            assert(pvs.take(pvs.len() as int) =~= pvs);
        }
        let aggr_expr = dedup_aggregates(collected)?;
        if select.group_by.len() > 0 || aggr_expr.len() > 0 {
            self.aggregate(plan, projection_expr, &select.group_by, aggr_expr)
        } else {
            self.project(plan, projection_expr)
        }
    }

    fn filter(&self, plan: LogicalPlan, predicate: &Option<SqlExpr>) -> (r: Result<
        LogicalPlan,
        PlanError,
    >)
        ensures
            plan_result(r) == filter_step_spec(plan@, *predicate, self.cat()),
    {
        match predicate {
            Some(predicate_expr) => {
                let schema = plan.schema();
                let aliases = plan.aliased_schema();
                let e = self.sql_to_rex(predicate_expr, &schema, &aliases)?;
                filter_plan(e, plan)
            },
            None => Ok(plan),
        }
    }

    fn project(&self, input: LogicalPlan, expr: Vec<Expr>) -> (r: Result<LogicalPlan, PlanError>)
        ensures
            plan_result(r) == projection_spec(view_exprs(expr@), input@),
    {
        project_plan(expr, input)
    }

    fn limit(&self, input: LogicalPlan, limit: &Option<SqlExpr>) -> (r: Result<
        LogicalPlan,
        PlanError,
    >)
        ensures
            plan_result(r) == limit_step_spec(input@, *limit, self.cat()),
    {
        match limit {
            Some(limit_expr) => {
                let schema = input.schema();
                let aliases = input.aliased_schema();
                let le = self.sql_to_rex(limit_expr, &schema, &aliases)?;
                match le {
                    Expr::Literal(v) => match v {
                        ScalarValue::Int64(n) => {
                            if n >= 0 && n as u64 <= usize::MAX as u64 {
                                Ok(limit_plan(n as usize, input))
                            } else {
                                Err(
                                    PlanError::Plan(
                                        String::from_str("Unexpected expression for LIMIT clause"),
                                    ),
                                )
                            }
                        },
                        _ => Err(
                            PlanError::Plan(
                                String::from_str("Unexpected expression for LIMIT clause"),
                            ),
                        ),
                    },
                    _ => Err(
                        PlanError::Plan(
                            String::from_str("Unexpected expression for LIMIT clause"),
                        ),
                    ),
                }
            },
            None => Ok(input),
        }
    }

    fn order_by(&self, plan: LogicalPlan, order_by: &Vec<OrderByExpr>) -> (r: Result<
        LogicalPlan,
        PlanError,
    >)
        ensures
            plan_result(r) == order_by_spec(plan@, order_by@, self.cat()),
    {
        if order_by.len() == 0 {
            return Ok(plan);
        }
        let schema = plan.schema();
        let aliases = plan.aliased_schema();
        let mut exprs: Vec<Expr> = Vec::new();
        let mut i: usize = 0;
        proof {
            assert(order_by@.take(0) =~= Seq::<OrderByExpr>::empty());
            assert(view_exprs(exprs@) =~= Seq::<ExprS>::empty());
        }
        while i < order_by.len()
            invariant
                0 <= i <= order_by@.len(),
                schema@ == schema_of(plan@),
                aliases@ == aliases_of(plan@),
                order_by_exprs_spec(order_by@.take(i as int), schema@, aliases@, self.cat())
                    == Ok::<Seq<ExprS>, ErrKind>(view_exprs(exprs@)),
            decreases order_by@.len() - i,
        {
            proof {
                assert(order_by@.take(i + 1).drop_last() =~= order_by@.take(i as int));
                assert(order_by@.take(i + 1).last() == order_by@[i as int]);
            }
            match self.sql_to_rex(&order_by[i].expr, &schema, &aliases) {
                Ok(e) => {
                    let asc = match order_by[i].asc {
                        Some(b) => b,
                        None => true,
                    };
                    let nulls_first = match order_by[i].nulls_first {
                        Some(b) => b,
                        None => true,
                    };
                    let ghost raw = exprs@;
                    exprs.push(Expr::Sort { expr: Box::new(e), asc, nulls_first });
                    proof {
                        assert(exprs@.drop_last() =~= raw);
                        assert(view_exprs(exprs@) == view_exprs(raw).push(
                            view_expr(exprs@.last()),
                        ));
                    }
                },
                Err(err) => {
                    proof {
                        assert(forall|j: int|
                            0 <= j < i ==> rex_spec(
                                (#[trigger] order_by@[j]).expr,
                                schema@,
                                aliases@,
                                self.cat(),
                            ) is Ok) by {
                            lemma_order_by_ok_prefix(
                                order_by@.take(i as int),
                                order_by@,
                                schema@,
                                aliases@,
                                self.cat(),
                            );
                        }
                        lemma_order_by_err(order_by@, schema@, aliases@, self.cat(), i as int, err.kind());
                    }
                    return Err(err);
                },
            }
            i = i + 1;
        }
        proof {
            assert(order_by@.take(order_by@.len() as int) =~= order_by@);
        }
        sort_plan(exprs, plan)
    }

    fn select_items(
        &self,
        items: &Vec<SelectItem>,
        schema: &Schema,
        aliases: &AliasMap,
    ) -> (r: Result<Vec<Expr>, PlanError>)
        ensures
            (match r {
                Ok(es) => select_items_spec(items@, schema@, aliases@, self.cat()) == Ok::<
                    Seq<ExprS>,
                    ErrKind,
                >(view_exprs(es@)),
                Err(err) => select_items_spec(items@, schema@, aliases@, self.cat()) == Err::<
                    Seq<ExprS>,
                    ErrKind,
                >(err.kind()),
            }),
    {
        let mut es: Vec<Expr> = Vec::new();
        let mut i: usize = 0;
        proof {
            assert(items@.take(0) =~= Seq::<SelectItem>::empty());
            assert(view_exprs(es@) =~= Seq::<ExprS>::empty());
        }
        while i < items.len()
            invariant
                0 <= i <= items@.len(),
                forall|j: int|
                    0 <= j < i ==> select_item_spec(
                        #[trigger] items@[j],
                        schema@,
                        aliases@,
                        self.cat(),
                    ) is Ok,
                select_items_spec(items@.take(i as int), schema@, aliases@, self.cat()) == Ok::<
                    Seq<ExprS>,
                    ErrKind,
                >(view_exprs(es@)),
            decreases items@.len() - i,
        {
            proof {
                assert(items@.take(i + 1).drop_last() =~= items@.take(i as int));
                assert(items@.take(i + 1).last() == items@[i as int]);
            }
            match self.sql_select_to_rex(&items[i], schema, aliases) {
                Ok(e) => {
                    let ghost raw = es@;
                    es.push(e);
                    proof {
                        assert(es@.drop_last() =~= raw);
                        assert(view_exprs(es@) == view_exprs(raw).push(view_expr(es@.last())));
                    }
                },
                Err(err) => {
                    proof {
                        lemma_select_items_err(
                            items@,
                            schema@,
                            aliases@,
                            self.cat(),
                            i as int,
                            err.kind(),
                        );
                    }
                    return Err(err);
                },
            }
            i = i + 1;
        }
        proof {
            assert(items@.take(items@.len() as int) =~= items@);
        }
        Ok(es)
    }

    fn sql_select_to_rex(
        &self,
        sql: &SelectItem,
        schema: &Schema,
        aliases: &AliasMap,
    ) -> (r: Result<Expr, PlanError>)
        ensures
            expr_result(r) == select_item_spec(*sql, schema@, aliases@, self.cat()),
    {
        match sql {
            SelectItem::UnnamedExpr(expr) => self.sql_to_rex(expr, schema, aliases),
            SelectItem::ExprWithAlias { expr, alias } => {
                let e = self.sql_to_rex(expr, schema, aliases)?;
                Ok(Expr::Alias(Box::new(e), alias.clone()))
            },
            SelectItem::Wildcard => Ok(Expr::Wildcard),
            SelectItem::QualifiedWildcard(_) => Err(
                PlanError::NotImplemented(
                    String::from_str("Qualified wildcards are not supported"),
                ),
            ),
        }
    }
}

/// The inputs a plan contributes to a UNION.
fn union_inputs(p: LogicalPlan) -> (r: Vec<LogicalPlan>)
    ensures
        view_plans(r@) == union_inputs_of(p@),
{
    let ghost gp = p@;
    match p {
        LogicalPlan::Union { inputs, .. } => inputs,
        x => {
            let mut v: Vec<LogicalPlan> = Vec::new();
            v.push(x);
            proof {
                assert(v@.drop_last() =~= Seq::<LogicalPlan>::empty());
                assert(view_plans(Seq::<LogicalPlan>::empty()) =~= Seq::<PlanS>::empty());
                assert(view_plans(v@) =~= seq![view_plan(x)]);
                assert(view_plan(x) == gp);
                assert(!(gp is Union));
                assert(union_inputs_of(gp) =~= seq![gp]);
            }
            v
        },
    }
}

proof fn lemma_view_plans_append(a: Seq<LogicalPlan>, b: Seq<LogicalPlan>)
    ensures
        view_plans(a + b) == view_plans(a) + view_plans(b),
    decreases b,
{
    if b.len() == 0 {
        assert(a + b =~= a);
        assert(view_plans(a) + view_plans(b) =~= view_plans(a));
    } else {
        lemma_view_plans_append(a, b.drop_last());
        assert((a + b).drop_last() =~= a + b.drop_last());
        assert((a + b).last() == b.last());
        assert(view_plans(a + b) =~= view_plans(a) + view_plans(b));
    }
}

proof fn lemma_order_by_ok_prefix(
    t: Seq<OrderByExpr>,
    s: Seq<OrderByExpr>,
    schema: Seq<FieldS>,
    aliases: Seq<(Seq<char>, Seq<FieldS>)>,
    cat: CatalogS,
)
    requires
        order_by_exprs_spec(t, schema, aliases, cat) is Ok,
        forall|j: int| 0 <= j < t.len() ==> #[trigger] t[j] == s[j],
        t.len() <= s.len(),
    ensures
        forall|j: int| 0 <= j < t.len() ==> rex_spec((#[trigger] s[j]).expr, schema, aliases, cat) is Ok,
    decreases t,
{
    if t.len() > 0 {
        assert(forall|j: int| 0 <= j < t.drop_last().len() ==> #[trigger] t.drop_last()[j] == t[j]);
        lemma_order_by_ok_prefix(t.drop_last(), s, schema, aliases, cat);
        assert(t.last() == s[t.len() - 1]);
    }
}

/// Aggregate collection appended to an accumulator is the accumulator
/// followed by the collection from scratch.
proof fn lemma_collect_agg_prepend(e: ExprS, acc: Seq<ExprS>)
    ensures
        collect_agg_s(e, acc) == acc + collect_agg_s(e, Seq::empty()),
    decreases e, 0int,
{
    lemma_collect_agg_prepend_gen(e, acc, Seq::empty());
    assert(collect_agg_s(e, acc) =~= acc + collect_agg_s(e, Seq::empty()));
}

proof fn lemma_collect_agg_prepend_gen(e: ExprS, a: Seq<ExprS>, b: Seq<ExprS>)
    ensures
        collect_agg_s(e, a + b) == a + collect_agg_s(e, b),
    decreases e, 1int,
{
    match e {
        ExprS::AggregateFunction { .. } => {
            assert(collect_agg_s(e, a + b) =~= a + collect_agg_s(e, b));
        },
        ExprS::AggregateUDF { .. } => {
            assert(collect_agg_s(e, a + b) =~= a + collect_agg_s(e, b));
        },
        ExprS::Alias(inner, _) => {
            lemma_collect_agg_prepend_gen(*inner, a, b);
        },
        ExprS::BinaryExpr { left, right, .. } => {
            lemma_collect_agg_prepend_gen(*left, a, b);
            lemma_collect_agg_prepend_gen(*right, a, collect_agg_s(*left, b));
        },
        ExprS::ScalarFunction { args, .. } => {
            lemma_collect_list_prepend_gen(args, a, b);
        },
        _ => {},
    }
}

proof fn lemma_collect_list_prepend_gen(s: Seq<ExprS>, a: Seq<ExprS>, b: Seq<ExprS>)
    ensures
        crate::expr::collect_agg_list(s, a + b) == a + crate::expr::collect_agg_list(s, b),
    decreases s, 2int,
{
    if s.len() == 0 {
    } else {
        lemma_collect_list_prepend_gen(s.drop_last(), a, b);
        lemma_collect_agg_prepend_gen(s.last(), a, crate::expr::collect_agg_list(s.drop_last(), b));
    }
}

} // verus!

verus! {

impl<'a, S: SchemaProvider> SqlToRel<'a, S> {
    /// Lowers a SQL scalar expression into a relational expression against
    /// the given schema and alias map.
    pub fn sql_to_rex(
        &self,
        sql: &SqlExpr,
        schema: &Schema,
        aliased_schema: &AliasMap,
    ) -> (r: Result<Expr, PlanError>)
        ensures
            expr_result(r) == rex_spec(*sql, schema@, aliased_schema@, self.cat()),
        decreases *sql, 0int,
    {
        match sql {
            SqlExpr::Value(v) => match v {
                SqlValue::Number(n) => match parse_i64(n.as_str()) {
                    Some(x) => Ok(Expr::Literal(ScalarValue::Int64(x))),
                    None => Ok(Expr::Literal(ScalarValue::Float64(n.clone()))),
                },
                SqlValue::SingleQuotedString(s) => Ok(Expr::Literal(ScalarValue::Utf8(s.clone()))),
                SqlValue::Other(_) => Err(
                    PlanError::NotImplemented(
                        String::from_str("Unsupported literal in sqltorel"),
                    ),
                ),
            },
            SqlExpr::Identifier(id) => {
                if id.as_str().unicode_len() > 0 && id.as_str().get_char(0) == '@' {
                    let mut parts: Vec<String> = Vec::new();
                    parts.push(id.clone());
                    proof {
                        assert(parts@.map_values(|p: String| p@) =~= seq![id@]);
                    }
                    Ok(Expr::ScalarVariable(parts))
                } else {
                    match schema.field_with_name(id.as_str()) {
                        Some(field) => Ok(Expr::Column(field.name.clone())),
                        None => {
                            let mut m = String::from_str("Invalid identifier '");
                            m.append(id.as_str());
                            m.append("' for schema ");
                            m.append(schema.to_text().as_str());
                            Err(PlanError::Plan(m))
                        },
                    }
                }
            },
            SqlExpr::CompoundIdentifier(ids) => {
                if ids.len() < 2 {
                    return Err(
                        PlanError::Internal(
                            String::from_str("Compound identifier with less than two parts"),
                        ),
                    );
                }
                let first = &ids[0];
                if first.as_str().unicode_len() > 0 && first.as_str().get_char(0) == '@' {
                    let mut parts: Vec<String> = Vec::new();
                    let mut i: usize = 0;
                    while i < ids.len()
                        invariant
                            0 <= i <= ids@.len(),
                            parts@.len() == i,
                            forall|j: int| 0 <= j < i ==> (#[trigger] parts@[j])@ == ids@[j]@,
                        decreases ids@.len() - i,
                    {
                        parts.push(ids[i].clone());
                        i = i + 1;
                    }
                    proof {
                        assert(parts@.map_values(|p: String| p@) =~= ids@.map_values(
                            |p: String| p@,
                        ));
                    }
                    Ok(Expr::ScalarVariable(parts))
                } else if aliased_schema.contains_alias(first.as_str()) {
                    match schema.field_with_name(ids[1].as_str()) {
                        Some(field) => Ok(Expr::Column(field.name.clone())),
                        None => {
                            let mut m = String::from_str("Invalid identifier '");
                            m.append(ids[1].as_str());
                            m.append("' for schema ");
                            m.append(schema.to_text().as_str());
                            Err(PlanError::Execution(m))
                        },
                    }
                } else {
                    let mut m = String::from_str("Invalid compound identifier '");
                    m.append(first.as_str());
                    m.append("'. Alias not found");
                    Err(PlanError::Plan(m))
                }
            },
            SqlExpr::Wildcard => Ok(Expr::Wildcard),
            SqlExpr::Cast { expr, data_type } => {
                let e = self.sql_to_rex(expr, schema, aliased_schema)?;
                let dt = convert_data_type(data_type)?;
                Ok(Expr::Cast { expr: Box::new(e), data_type: dt })
            },
            SqlExpr::IsNull(expr) => {
                let e = self.sql_to_rex(expr, schema, aliased_schema)?;
                Ok(Expr::IsNull(Box::new(e)))
            },
            SqlExpr::IsNotNull(expr) => {
                let e = self.sql_to_rex(expr, schema, aliased_schema)?;
                Ok(Expr::IsNotNull(Box::new(e)))
            },
            SqlExpr::UnaryOp { op, expr } => match op {
                SqlUnaryOperator::Not => {
                    let e = self.sql_to_rex(expr, schema, aliased_schema)?;
                    Ok(Expr::Not(Box::new(e)))
                },
                SqlUnaryOperator::Other(_) => Err(
                    PlanError::Internal(
                        String::from_str(
                            "SQL binary operator cannot be interpreted as a unary operator",
                        ),
                    ),
                ),
            },
            SqlExpr::BinaryOp { left, op, right } => {
                let operator = match op {
                    SqlBinaryOperator::Gt => Operator::Gt,
                    SqlBinaryOperator::GtEq => Operator::GtEq,
                    SqlBinaryOperator::Lt => Operator::Lt,
                    SqlBinaryOperator::LtEq => Operator::LtEq,
                    SqlBinaryOperator::Eq => Operator::Eq,
                    SqlBinaryOperator::NotEq => Operator::NotEq,
                    SqlBinaryOperator::Plus => Operator::Plus,
                    SqlBinaryOperator::Minus => Operator::Minus,
                    SqlBinaryOperator::Multiply => Operator::Multiply,
                    SqlBinaryOperator::Divide => Operator::Divide,
                    SqlBinaryOperator::Modulus => Operator::Modulus,
                    SqlBinaryOperator::And => Operator::And,
                    SqlBinaryOperator::Or => Operator::Or,
                    SqlBinaryOperator::Like => Operator::Like,
                    SqlBinaryOperator::NotLike => Operator::NotLike,
                    SqlBinaryOperator::Other(_) => {
                        return Err(
                            PlanError::NotImplemented(
                                String::from_str("Unsupported SQL binary operator"),
                            ),
                        );
                    },
                };
                let l = self.sql_to_rex(left, schema, aliased_schema)?;
                let r = self.sql_to_rex(right, schema, aliased_schema)?;
                Ok(Expr::BinaryExpr { left: Box::new(l), op: operator, right: Box::new(r) })
            },
            SqlExpr::Function(f) => self.sql_function_to_rex(f, schema, aliased_schema),
            SqlExpr::Nested(e) => self.sql_to_rex(e, schema, aliased_schema),
            SqlExpr::Other(_) => Err(
                PlanError::NotImplemented(String::from_str("Unsupported ast node in sqltorel")),
            ),
        }
    }

    fn sql_function_to_rex(
        &self,
        f: &SqlFunction,
        schema: &Schema,
        aliases: &AliasMap,
    ) -> (r: Result<Expr, PlanError>)
        ensures
            expr_result(r) == function_spec(*f, schema@, aliases@, self.cat()),
        decreases *f, 3int,
    {
        let name = to_lowercase(f.name.as_str());
        if let Some(fun) = scalar_fun_from_name(name.as_str()) {
            let args = self.rex_list(&f.args, schema, aliases)?;
            return Ok(Expr::ScalarFunction { fun, args });
        }
        if str_eq(name.as_str(), "nullif") {
            if f.args.len() != 2 {
                return Err(
                    PlanError::General(String::from_str("nullif expects 2 arguments")),
                );
            }
            let a0 = self.sql_to_rex(&f.args[0], schema, aliases)?;
            let a1 = self.sql_to_rex(&f.args[1], schema, aliases)?;
            let a0_again = clone_expr(&a0);
            let mut args: Vec<Expr> = Vec::new();
            args.push(
                Expr::BinaryExpr { left: Box::new(a0), op: Operator::NotEq, right: Box::new(a1) },
            );
            args.push(a0_again);
            proof {
                lemma_view_exprs_index(args@);
                assert(view_exprs(args@) =~= function_spec(
                    *f,
                    schema@,
                    aliases@,
                    self.cat(),
                )->Ok_0->ScalarFunction_args);
            }
            return Ok(Expr::ScalarFunction { fun: BuiltinScalarFunction::If, args });
        }
        if let Some(fun) = aggregate_fun_from_name(name.as_str()) {
            let args = if fun == AggregateFunction::Count {
                self.count_args(&f.args, schema, aliases)?
            } else {
                self.rex_list(&f.args, schema, aliases)?
            };
            return Ok(Expr::AggregateFunction { fun, distinct: f.distinct, args });
        }
        let scalar_meta = match self.schema_provider.get_function_meta(name.as_str()) {
            Some(fm) => Some(fm),
            None => self.schema_provider.get_function_meta(
                to_uppercase(name.as_str()).as_str(),
            ),
        };
        if let Some(fm) = scalar_meta {
            let args = self.rex_list(&f.args, schema, aliases)?;
            return Ok(Expr::ScalarUDF { fun: fm, args });
        }
        let aggregate_meta = match self.schema_provider.get_aggregate_meta(name.as_str()) {
            Some(fm) => Some(fm),
            None => self.schema_provider.get_aggregate_meta(
                to_uppercase(name.as_str()).as_str(),
            ),
        };
        if let Some(fm) = aggregate_meta {
            let args = self.rex_list(&f.args, schema, aliases)?;
            return Ok(Expr::AggregateUDF { fun: fm, args });
        }
        let mut m = String::from_str("Invalid function '");
        m.append(name.as_str());
        m.append("'");
        Err(PlanError::Plan(m))
    }

    fn rex_list(&self, v: &Vec<SqlExpr>, schema: &Schema, aliases: &AliasMap) -> (r: Result<
        Vec<Expr>,
        PlanError,
    >)
        ensures
            (match r {
                Ok(es) => rex_list_spec(v@, schema@, aliases@, self.cat()) == Ok::<
                    Seq<ExprS>,
                    ErrKind,
                >(view_exprs(es@)),
                Err(err) => rex_list_spec(v@, schema@, aliases@, self.cat()) == Err::<
                    Seq<ExprS>,
                    ErrKind,
                >(err.kind()),
            }),
        decreases *v, 1int,
    {
        let mut es: Vec<Expr> = Vec::new();
        let mut i: usize = 0;
        proof {
            assert(v@.take(0) =~= Seq::<SqlExpr>::empty());
            assert(view_exprs(es@) =~= Seq::<ExprS>::empty());
        }
        while i < v.len()
            invariant
                0 <= i <= v@.len(),
                forall|j: int|
                    0 <= j < i ==> rex_spec(#[trigger] v@[j], schema@, aliases@, self.cat()) is Ok,
                rex_list_spec(v@.take(i as int), schema@, aliases@, self.cat()) == Ok::<
                    Seq<ExprS>,
                    ErrKind,
                >(view_exprs(es@)),
            decreases v@.len() - i,
        {
            proof {
                assert(v@.take(i + 1).drop_last() =~= v@.take(i as int));
                assert(v@.take(i + 1).last() == v@[i as int]);
            }
            match self.sql_to_rex(&v[i], schema, aliases) {
                Ok(e) => {
                    let ghost raw = es@;
                    es.push(e);
                    proof {
                        assert(es@.drop_last() =~= raw);
                        assert(view_exprs(es@) == view_exprs(raw).push(view_expr(es@.last())));
                    }
                },
                Err(err) => {
                    proof {
                        lemma_rex_list_err(v@, schema@, aliases@, self.cat(), i as int, err.kind());
                    }
                    return Err(err);
                },
            }
            i = i + 1;
        }
        proof {
            assert(v@.take(v@.len() as int) =~= v@);
        }
        Ok(es)
    }

    #[verifier::rlimit(60)]
    fn count_args(&self, v: &Vec<SqlExpr>, schema: &Schema, aliases: &AliasMap) -> (r: Result<
        Vec<Expr>,
        PlanError,
    >)
        ensures
            (match r {
                Ok(es) => count_args_spec(v@, schema@, aliases@, self.cat()) == Ok::<
                    Seq<ExprS>,
                    ErrKind,
                >(view_exprs(es@)),
                Err(err) => count_args_spec(v@, schema@, aliases@, self.cat()) == Err::<
                    Seq<ExprS>,
                    ErrKind,
                >(err.kind()),
            }),
        decreases *v, 2int,
    {
        let mut es: Vec<Expr> = Vec::new();
        let mut i: usize = 0;
        proof {
            assert(v@.take(0) =~= Seq::<SqlExpr>::empty());
            assert(view_exprs(es@) =~= Seq::<ExprS>::empty());
        }
        while i < v.len()
            invariant
                0 <= i <= v@.len(),
                forall|j: int|
                    0 <= j < i ==> count_arg_spec(
                        #[trigger] v@[j],
                        schema@,
                        aliases@,
                        self.cat(),
                    ) is Ok,
                count_args_spec(v@.take(i as int), schema@, aliases@, self.cat()) == Ok::<
                    Seq<ExprS>,
                    ErrKind,
                >(view_exprs(es@)),
            decreases v@.len() - i,
        {
            proof {
                assert(v@.take(i + 1).drop_last() =~= v@.take(i as int));
                assert(v@.take(i + 1).last() == v@[i as int]);
            }
            let one = match &v[i] {
                SqlExpr::Value(val) => match val {
                    SqlValue::Number(_) => true,
                    _ => false,
                },
                SqlExpr::Wildcard => true,
                _ => false,
            };
            let next = if one {
                Ok(Expr::Literal(ScalarValue::UInt8(1)))
            } else {
                self.sql_to_rex(&v[i], schema, aliases)
            };
            match next {
                Ok(e) => {
                    let ghost raw = es@;
                    es.push(e);
                    proof {
                        assert(es@.drop_last() =~= raw);
                        assert(view_exprs(es@) == view_exprs(raw).push(view_expr(es@.last())));
                    }
                },
                Err(err) => {
                    proof {
                        lemma_count_args_err(
                            v@,
                            schema@,
                            aliases@,
                            self.cat(),
                            i as int,
                            err.kind(),
                        );
                    }
                    return Err(err);
                },
            }
            i = i + 1;
        }
        proof {
            assert(v@.take(v@.len() as int) =~= v@);
        }
        Ok(es)
    }

    fn aggregate(
        &self,
        input: LogicalPlan,
        projection_expr: Vec<Expr>,
        group_by: &Vec<SqlExpr>,
        aggr_expr: Vec<Expr>,
    ) -> (r: Result<LogicalPlan, PlanError>)
        ensures
            plan_result(r) == aggregate_branch_spec(
                input@,
                view_exprs(projection_expr@),
                group_by@,
                view_exprs(aggr_expr@),
                self.cat(),
            ),
            (match r {
                Err(e) => e.kind() == ErrKind::Plan && aggregate_branch_names_differ(
                    input@,
                    view_exprs(projection_expr@),
                    group_by@,
                    self.cat(),
                ) ==> e.msg() == "Projection references non-aggregate values"@,
                Ok(_) => true,
            }),
    {
        let schema = input.schema();
        let aliases = input.aliased_schema();
        let ghost pvs = view_exprs(projection_expr@);
        proof {
            lemma_view_exprs_index(projection_expr@);
        }
        let mut group_expr: Vec<Expr> = Vec::new();
        let mut i: usize = 0;
        proof {
            assert(group_by@.take(0) =~= Seq::<SqlExpr>::empty());
            assert(view_exprs(group_expr@) =~= Seq::<ExprS>::empty());
        }
        while i < group_by.len()
            invariant
                0 <= i <= group_by@.len(),
                pvs == view_exprs(projection_expr@),
                pvs.len() == projection_expr@.len(),
                schema@ == schema_of(input@),
                aliases@ == aliases_of(input@),
                forall|j: int| 0 <= j < projection_expr@.len() ==> #[trigger] pvs[j] == view_expr(
                    projection_expr@[j],
                ),
                forall|j: int|
                    0 <= j < i ==> group_expr_spec(
                        #[trigger] group_by@[j],
                        pvs,
                        input@,
                        self.cat(),
                    ) is Ok,
                group_exprs_spec(group_by@.take(i as int), pvs, input@, self.cat()) == Ok::<
                    Seq<ExprS>,
                    ErrKind,
                >(view_exprs(group_expr@)),
            decreases group_by@.len() - i,
        {
            proof {
                assert(group_by@.take(i + 1).drop_last() =~= group_by@.take(i as int));
                assert(group_by@.take(i + 1).last() == group_by@[i as int]);
            }
            let is_index = match &group_by[i] {
                SqlExpr::Value(val) => match val {
                    SqlValue::Number(_) => true,
                    _ => false,
                },
                _ => false,
            };
            let next: Result<Expr, PlanError> = if is_index {
                let text = match &group_by[i] {
                    SqlExpr::Value(val) => match val {
                        SqlValue::Number(n) => n.as_str(),
                        _ => "",
                    },
                    _ => "",
                };
                match parse_u64(text) {
                    Some(v) => {
                        if v >= 1 && v - 1 < projection_expr.len() as u64 {
                            let idx = (v - 1) as usize;
                            if is_aggregate_expr(&projection_expr[idx]) {
                                Err(
                                    PlanError::General(
                                        String::from_str("Can't group by aggregate function"),
                                    ),
                                )
                            } else {
                                Ok(clone_expr(&projection_expr[idx]))
                            }
                        } else {
                            let mut m = String::from_str(
                                "Select column reference should be within 1..",
                            );
                            m.append(u64_to_string(projection_expr.len() as u64).as_str());
                            m.append(" but found ");
                            m.append(u64_to_string(v).as_str());
                            Err(PlanError::General(m))
                        }
                    },
                    None => {
                        let mut m = String::from_str("Can't parse ");
                        m.append(text);
                        m.append(" as number");
                        Err(PlanError::General(m))
                    },
                }
            } else {
                self.sql_to_rex(&group_by[i], &schema, &aliases)
            };
            match next {
                Ok(e) => {
                    let ghost raw = group_expr@;
                    group_expr.push(e);
                    proof {
                        assert(group_expr@.drop_last() =~= raw);
                        assert(view_exprs(group_expr@) == view_exprs(raw).push(
                            view_expr(group_expr@.last()),
                        ));
                    }
                },
                Err(err) => {
                    proof {
                        lemma_group_exprs_err(
                            group_by@,
                            pvs,
                            input@,
                            self.cat(),
                            i as int,
                            err.kind(),
                        );
                    }
                    return Err(err);
                },
            }
            i = i + 1;
        }
        proof {
            assert(group_by@.take(group_by@.len() as int) =~= group_by@);
        }
        // the GROUP BY / projection consistency check
        let group_names = expr_names(&group_expr)?;
        let mut non_aggr: Vec<Expr> = Vec::new();
        let mut k: usize = 0;
        proof {
            assert(pvs.take(0) =~= Seq::<ExprS>::empty());
            assert(view_exprs(non_aggr@) =~= filter_nonaggr(pvs.take(0)));
        }
        while k < projection_expr.len()
            invariant
                0 <= k <= projection_expr@.len(),
                pvs == view_exprs(projection_expr@),
                pvs.len() == projection_expr@.len(),
                forall|j: int| 0 <= j < projection_expr@.len() ==> #[trigger] pvs[j] == view_expr(
                    projection_expr@[j],
                ),
                view_exprs(non_aggr@) == filter_nonaggr(pvs.take(k as int)),
            decreases projection_expr@.len() - k,
        {
            proof {
                assert(pvs.take(k + 1).drop_last() =~= pvs.take(k as int));
                assert(pvs.take(k + 1).last() == pvs[k as int]);
            }
            if !is_aggregate_expr(&projection_expr[k]) {
                let ghost raw = non_aggr@;
                non_aggr.push(clone_expr(&projection_expr[k]));
                proof {
                    assert(non_aggr@.drop_last() =~= raw);
                    assert(view_exprs(non_aggr@) == view_exprs(raw).push(
                        view_expr(non_aggr@.last()),
                    ));
                }
            }
            k = k + 1;
        }
        proof {
            assert(pvs.take(pvs.len() as int) =~= pvs);
        }
        let non_aggr_names = expr_names(&non_aggr)?;
        if !same_name_multiset(group_names, non_aggr_names) {
            return Err(
                PlanError::Plan(String::from_str("Projection references non-aggregate values")),
            );
        }
        // the aggregate node and, where needed, a reordering projection
        let agg = aggregate_plan(group_expr, aggr_expr, input)?;
        let agg_schema = agg.schema();
        let mut field_names: Vec<String> = Vec::new();
        let mut k: usize = 0;
        while k < agg_schema.fields.len()
            invariant
                0 <= k <= agg_schema.fields@.len(),
                agg_schema.fields@.len() == agg_schema@.len(),
                field_names@.len() == k,
                forall|j: int| 0 <= j < k ==> (#[trigger] field_names@[j])@ == agg_schema@[j].name,
            decreases agg_schema.fields@.len() - k,
        {
            field_names.push(agg_schema.fields[k].name.clone());
            k = k + 1;
        }
        proof {
            assert(names_view(field_names@) =~= schema_names(agg_schema@));
        }
        let expected = match crate::expr::replace_aggregate_list(&projection_expr, &field_names) {
            Ok(es) => es,
            Err(err) => {
                return Err(err);
            },
        };
        let expected_names = expr_names(&expected)?;
        if names_eq(&expected_names, &field_names) {
            Ok(agg)
        } else {
            project_plan(expected, agg)
        }
    }

    /// Translates a CREATE EXTERNAL TABLE statement.
    pub fn external_table_to_plan(&self, statement: &CreateExternalTable) -> (r: Result<
        LogicalPlan,
        PlanError,
    >)
        ensures
            plan_result(r) == cet_spec(*statement),
            statement.file_type == FileType::CSV && statement.columns@.len() == 0 ==> (r is Err
                && r->Err_0.msg() == "Column definitions required for CSV files. None found"@),
            statement.file_type == FileType::Parquet && statement.columns@.len() != 0 ==> (r is Err
                && r->Err_0.msg()
                == "Column definitions can not be specified for PARQUET files."@),
    {
        if statement.file_type == FileType::CSV && statement.columns.len() == 0 {
            proof {
                reveal_strlit("Column definitions required for CSV files. None found");
            }
            return Err(
                PlanError::Plan(
                    String::from_str("Column definitions required for CSV files. None found"),
                ),
            );
        }
        if statement.file_type == FileType::Parquet && statement.columns.len() != 0 {
            proof {
                reveal_strlit("Column definitions can not be specified for PARQUET files.");
            }
            return Err(
                PlanError::Plan(
                    String::from_str(
                        "Column definitions can not be specified for PARQUET files.",
                    ),
                ),
            );
        }
        let fields = self.build_schema(&statement.columns)?;
        Ok(LogicalPlan::CreateExternalTable {
            name: statement.name.clone(),
            schema: fields,
            location: statement.location.clone(),
            file_type: statement.file_type,
            has_header: statement.has_header,
        })
    }

    fn build_schema(&self, columns: &Vec<ColumnDef>) -> (r: Result<Schema, PlanError>)
        ensures
            (match r {
                Ok(s) => build_schema_spec(columns@) == Ok::<Seq<FieldS>, ErrKind>(s@),
                Err(err) => build_schema_spec(columns@) == Err::<Seq<FieldS>, ErrKind>(err.kind()),
            }),
    {
        let mut fields: Vec<Field> = Vec::new();
        let mut i: usize = 0;
        proof {
            assert(columns@.take(0) =~= Seq::<ColumnDef>::empty());
            assert(fields_view(fields@) =~= Seq::<FieldS>::empty());
        }
        while i < columns.len()
            invariant
                0 <= i <= columns@.len(),
                forall|j: int|
                    0 <= j < i ==> make_data_type_spec((#[trigger] columns@[j]).data_type) is Some,
                build_schema_spec(columns@.take(i as int)) == Ok::<Seq<FieldS>, ErrKind>(
                    fields_view(fields@),
                ),
            decreases columns@.len() - i,
        {
            proof {
                assert(columns@.take(i + 1).drop_last() =~= columns@.take(i as int));
                assert(columns@.take(i + 1).last() == columns@[i as int]);
            }
            let column = &columns[i];
            let data_type = match make_data_type(&column.data_type) {
                Ok(dt) => dt,
                Err(err) => {
                    proof {
                        lemma_build_schema_err(columns@, i as int);
                    }
                    return Err(err);
                },
            };
            let mut allow_null = false;
            let mut k: usize = 0;
            while k < column.options.len()
                invariant
                    0 <= k <= column.options@.len(),
                    allow_null == exists|j: int|
                        0 <= j < k && (#[trigger] column.options@[j]) is Null,
                decreases column.options@.len() - k,
            {
                let is_null = match &column.options[k] {
                    ColumnOption::Null => true,
                    ColumnOption::Other(_) => false,
                };
                proof {
                    if is_null {
                        assert(column.options@[k as int] is Null);
                    }
                }
                allow_null = allow_null || is_null;
                k = k + 1;
            }
            proof {
                assert(allow_null == column_nullable(column.options@));
            }
            let ghost raw = fields@;
            fields.push(Field { name: column.name.clone(), data_type, nullable: allow_null });
            proof {
                assert(fields@.drop_last() =~= raw);
                assert(fields_view(fields@) =~= fields_view(raw).push(fields@.last()@));
            }
            i = i + 1;
        }
        proof {
            assert(columns@.take(columns@.len() as int) =~= columns@);
        }
        Ok(Schema::new(fields))
    }

    /// Translates an EXPLAIN statement: the inner statement's plan, together
    /// with its rendered text.
    pub fn explain_statement_to_plan(&self, explain_plan: &ExplainPlan) -> (r: Result<
        LogicalPlan,
        PlanError,
    >)
        ensures
            plan_result(r) == statement_spec(
                Statement::Explain(*explain_plan),
                self.cat(),
            ),
        decreases *explain_plan,
    {
        let verbose = explain_plan.verbose;
        let plan = self.statement_to_plan(&explain_plan.statement)?;
        let text = format_plan(&plan);
        let mut stringified_plans: Vec<String> = Vec::new();
        stringified_plans.push(text);
        let schema = explain_schema();
        proof {
            assert(stringified_plans@.map_values(|s: String| s@) =~= seq![
                fmt_plan(plan@, Seq::<char>::empty()),
            ]);
        }
        Ok(LogicalPlan::Explain { verbose, plan: Box::new(plan), stringified_plans, schema })
    }
}

/// Whether the aggregate branch reaches its consistency check and fails it:
/// every name resolves, and the group-name multiset differs from the
/// non-aggregate projection-name multiset.
pub open spec fn aggregate_branch_names_differ(
    input: PlanS,
    proj: Seq<ExprS>,
    gb: Seq<SqlExpr>,
    cat: CatalogS,
) -> bool {
    match group_exprs_spec(gb, proj, input, cat) {
        Err(_) => false,
        Ok(group) => match (names_of(group), names_of(filter_nonaggr(proj))) {
            (Ok(gn), Ok(pn)) => gn.to_multiset() != pn.to_multiset(),
            _ => false,
        },
    }
}

/// The fixed schema of an EXPLAIN result.
fn explain_schema() -> (r: Schema)
    ensures
        r@ == explain_schema_s(),
{
    let mut fields: Vec<Field> = Vec::new();
    fields.push(
        Field {
            name: String::from_str("plan_type"),
            data_type: crate::types::DataType::Utf8,
            nullable: false,
        },
    );
    fields.push(
        Field {
            name: String::from_str("plan"),
            data_type: crate::types::DataType::Utf8,
            nullable: false,
        },
    );
    let r = Schema::new(fields);
    proof {
        assert(r@ =~= explain_schema_s());
    }
    r
}

} // verus!
