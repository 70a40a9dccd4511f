use vstd::prelude::*;
use crate::error::{PlanError, ErrKind};
use crate::types::{DataType, DataTypeS, clone_data_type};
use crate::schema::{Schema, Field, FieldS, has_field, field_of, fields_view,
    lemma_field_index_in_range};
use crate::expr::{Expr, ExprS, ScalarValueS, Operator, AggregateFunction, view_expr, view_exprs,
    lemma_view_exprs_index, expr_name_s, expr_name_of, clone_expr};
use crate::plan::{LogicalPlan, PlanS, schema_of, view_plans};

verus! {

// ---------------------------------------------------------------------------
// Typing expressions against a schema
// ---------------------------------------------------------------------------

/// The engine type of a literal.
pub open spec fn literal_type(v: ScalarValueS) -> DataTypeS {
    match v {
        ScalarValueS::Boolean(_) => DataTypeS::Boolean,
        ScalarValueS::Int64(_) => DataTypeS::Int64,
        ScalarValueS::UInt8(_) => DataTypeS::UInt8,
        ScalarValueS::Utf8(_) => DataTypeS::Utf8,
        ScalarValueS::Float64(_) => DataTypeS::Float64,
    }
}

/// Operators whose result is a truth value.
pub open spec fn is_boolean_op(op: Operator) -> bool {
    match op {
        Operator::Eq => true,
        Operator::NotEq => true,
        Operator::Lt => true,
        Operator::LtEq => true,
        Operator::Gt => true,
        Operator::GtEq => true,
        Operator::And => true,
        Operator::Or => true,
        Operator::Like => true,
        Operator::NotLike => true,
        _ => false,
    }
}

/// The type of an expression evaluated against `schema`, or `None` where the
/// expression does not type: a column the schema lacks, anywhere in the tree,
/// or a wildcard. Arithmetic takes the type of its left side; functions whose
/// result type the translator does not track are carried as `Float64`, and
/// `COUNT` as `UInt64`.
pub open spec fn expr_type_s(e: ExprS, schema: Seq<FieldS>) -> Option<DataTypeS>
    decreases e, 0int,
{
    match e {
        ExprS::Column(c) => if has_field(schema, c) {
            Some(field_of(schema, c).data_type)
        } else {
            None
        },
        ExprS::Alias(x, _) => expr_type_s(*x, schema),
        ExprS::ScalarVariable(_) => Some(DataTypeS::Utf8),
        ExprS::Literal(v) => Some(literal_type(v)),
        ExprS::BinaryExpr { left, op, right } => match (
            expr_type_s(*left, schema),
            expr_type_s(*right, schema),
        ) {
            (Some(lt), Some(_)) => if is_boolean_op(op) {
                Some(DataTypeS::Boolean)
            } else {
                Some(lt)
            },
            _ => None,
        },
        ExprS::Not(x) => match expr_type_s(*x, schema) {
            Some(_) => Some(DataTypeS::Boolean),
            None => None,
        },
        ExprS::IsNull(x) => match expr_type_s(*x, schema) {
            Some(_) => Some(DataTypeS::Boolean),
            None => None,
        },
        ExprS::IsNotNull(x) => match expr_type_s(*x, schema) {
            Some(_) => Some(DataTypeS::Boolean),
            None => None,
        },
        ExprS::Cast { expr, data_type } => match expr_type_s(*expr, schema) {
            Some(_) => Some(data_type),
            None => None,
        },
        ExprS::Sort { expr, .. } => expr_type_s(*expr, schema),
        ExprS::ScalarFunction { args, .. } => if args_typed(args, schema) {
            Some(DataTypeS::Float64)
        } else {
            None
        },
        ExprS::AggregateFunction { fun, args, .. } => if args_typed(args, schema) {
            match fun {
                AggregateFunction::Count => Some(DataTypeS::UInt64),
                AggregateFunction::Avg => Some(DataTypeS::Float64),
                _ => if args.len() > 0 {
                    expr_type_s(args[0], schema)
                } else {
                    Some(DataTypeS::Float64)
                },
            }
        } else {
            None
        },
        ExprS::ScalarUDF { args, .. } => if args_typed(args, schema) {
            Some(DataTypeS::Float64)
        } else {
            None
        },
        ExprS::AggregateUDF { args, .. } => if args_typed(args, schema) {
            Some(DataTypeS::Float64)
        } else {
            None
        },
        ExprS::Wildcard => None,
    }
}

pub open spec fn args_typed(s: Seq<ExprS>, schema: Seq<FieldS>) -> bool
    decreases s, 1int,
{
    if s.len() == 0 {
        true
    } else {
        expr_type_s(s.last(), schema) is Some && args_typed(s.drop_last(), schema)
    }
}

pub proof fn lemma_args_typed_index(s: Seq<ExprS>, schema: Seq<FieldS>)
    ensures
        args_typed(s, schema) <==> forall|i: int|
            0 <= i < s.len() ==> expr_type_s(#[trigger] s[i], schema) is Some,
    decreases s,
{
    if s.len() > 0 {
        lemma_args_typed_index(s.drop_last(), schema);
        if args_typed(s, schema) {
            assert forall|i: int| 0 <= i < s.len() implies expr_type_s(
                #[trigger] s[i],
                schema,
            ) is Some by {
                if i < s.len() - 1 {
                    assert(s.drop_last()[i] == s[i]);
                }
            }
        } else {
            if expr_type_s(s.last(), schema) is Some {
                let i = choose|i: int|
                    0 <= i < s.drop_last().len() && !(expr_type_s(
                        #[trigger] s.drop_last()[i],
                        schema,
                    ) is Some);
                assert(s.drop_last()[i] == s[i]);
            }
        }
    }
}

fn no_field_error(name: &str) -> (r: PlanError)
    ensures
        r.kind() == ErrKind::Plan,
{
    let mut m = String::from_str("No field named '");
    m.append(name);
    m.append("' in the schema");
    PlanError::Plan(m)
}

fn untypable_error() -> (r: PlanError)
    ensures
        r.kind() == ErrKind::Plan,
{
    PlanError::Plan(String::from_str("Expression cannot be typed against the schema"))
}

/// Computes the type of an expression against a schema, failing where a
/// column does not resolve or a wildcard stands in the tree.
pub fn expr_type(e: &Expr, schema: &Schema) -> (r: Result<DataType, PlanError>)
    ensures
        (match r {
            Ok(dt) => expr_type_s(e@, schema@) == Some(dt@),
            Err(err) => expr_type_s(e@, schema@) is None && err.kind() == ErrKind::Plan,
        }),
    decreases *e, 0int,
{
    match e {
        Expr::Column(c) => match schema.field_with_name(c.as_str()) {
            Some(f) => Ok(clone_data_type(&f.data_type)),
            None => Err(no_field_error(c.as_str())),
        },
        Expr::Alias(x, _) => expr_type(x, schema),
        Expr::ScalarVariable(_) => Ok(DataType::Utf8),
        Expr::Literal(v) => Ok(
            match v {
                crate::expr::ScalarValue::Boolean(_) => DataType::Boolean,
                crate::expr::ScalarValue::Int64(_) => DataType::Int64,
                crate::expr::ScalarValue::UInt8(_) => DataType::UInt8,
                crate::expr::ScalarValue::Utf8(_) => DataType::Utf8,
                crate::expr::ScalarValue::Float64(_) => DataType::Float64,
            },
        ),
        Expr::BinaryExpr { left, op, right } => {
            let lt = expr_type(left, schema)?;
            let _rt = expr_type(right, schema)?;
            let boolean = match op {
                Operator::Eq => true,
                Operator::NotEq => true,
                Operator::Lt => true,
                Operator::LtEq => true,
                Operator::Gt => true,
                Operator::GtEq => true,
                Operator::And => true,
                Operator::Or => true,
                Operator::Like => true,
                Operator::NotLike => true,
                _ => false,
            };
            if boolean {
                Ok(DataType::Boolean)
            } else {
                Ok(lt)
            }
        },
        Expr::Not(x) => {
            let _t = expr_type(x, schema)?;
            Ok(DataType::Boolean)
        },
        Expr::IsNull(x) => {
            let _t = expr_type(x, schema)?;
            Ok(DataType::Boolean)
        },
        Expr::IsNotNull(x) => {
            let _t = expr_type(x, schema)?;
            Ok(DataType::Boolean)
        },
        Expr::Cast { expr, data_type } => {
            let _t = expr_type(expr, schema)?;
            Ok(clone_data_type(data_type))
        },
        Expr::Sort { expr, .. } => expr_type(expr, schema),
        Expr::ScalarFunction { args, .. } => {
            check_args_typed(args, schema)?;
            Ok(DataType::Float64)
        },
        Expr::AggregateFunction { fun, args, .. } => {
            check_args_typed(args, schema)?;
            match fun {
                AggregateFunction::Count => Ok(DataType::UInt64),
                AggregateFunction::Avg => Ok(DataType::Float64),
                _ => {
                    if args.len() > 0 {
                        proof {
                            lemma_view_exprs_index(args@);
                            lemma_args_typed_index(view_exprs(args@), schema@);
                        }
                        expr_type(&args[0], schema)
                    } else {
                        Ok(DataType::Float64)
                    }
                },
            }
        },
        Expr::ScalarUDF { args, .. } => {
            check_args_typed(args, schema)?;
            Ok(DataType::Float64)
        },
        Expr::AggregateUDF { args, .. } => {
            check_args_typed(args, schema)?;
            Ok(DataType::Float64)
        },
        Expr::Wildcard => Err(untypable_error()),
    }
}

fn check_args_typed(v: &Vec<Expr>, schema: &Schema) -> (r: Result<(), PlanError>)
    ensures
        (match r {
            Ok(_) => args_typed(view_exprs(v@), schema@),
            Err(err) => !args_typed(view_exprs(v@), schema@) && err.kind() == ErrKind::Plan,
        }),
    decreases *v, 1int,
{
    let ghost vs = view_exprs(v@);
    proof {
        lemma_view_exprs_index(v@);
        lemma_args_typed_index(vs, schema@);
    }
    let mut i: usize = 0;
    while i < v.len()
        invariant
            0 <= i <= v@.len(),
            vs == view_exprs(v@),
            vs.len() == v@.len(),
            forall|j: int| 0 <= j < v@.len() ==> #[trigger] vs[j] == view_expr(v@[j]),
            forall|j: int| 0 <= j < i ==> expr_type_s(#[trigger] vs[j], schema@) is Some,
        decreases v@.len() - i,
    {
        match expr_type(&v[i], schema) {
            Ok(_) => {},
            Err(err) => {
                proof {
                    assert(expr_type_s(vs[i as int], schema@) is None);
                    lemma_args_typed_index(vs, schema@);
                }
                return Err(err);
            },
        }
        i = i + 1;
    }
    proof {
        lemma_args_typed_index(vs, schema@);
    }
    Ok(())
}

/// Whether the expression's value may be null: a column reference takes its
/// field's nullability; any computed value counts as nullable.
pub open spec fn expr_nullable_s(e: ExprS, schema: Seq<FieldS>) -> bool
    decreases e,
{
    match e {
        ExprS::Column(c) => if has_field(schema, c) {
            field_of(schema, c).nullable
        } else {
            true
        },
        ExprS::Alias(x, _) => expr_nullable_s(*x, schema),
        _ => true,
    }
}

fn expr_nullable(e: &Expr, schema: &Schema) -> (r: bool)
    ensures
        r == expr_nullable_s(e@, schema@),
    decreases *e,
{
    match e {
        Expr::Column(c) => match schema.field_with_name(c.as_str()) {
            Some(f) => f.nullable,
            None => true,
        },
        Expr::Alias(x, _) => expr_nullable(x, schema),
        _ => true,
    }
}

// ---------------------------------------------------------------------------
// Fields for expressions
// ---------------------------------------------------------------------------

/// The schema field an expression produces: its computed name, its type, its
/// nullability. A nameless expression gives `Internal`; one that does not
/// type gives `Plan`.
pub open spec fn field_for(e: ExprS, schema: Seq<FieldS>) -> Result<FieldS, ErrKind> {
    match expr_name_s(e) {
        None => Err(ErrKind::Internal),
        Some(n) => match expr_type_s(e, schema) {
            None => Err(ErrKind::Plan),
            Some(dt) => Ok(
                FieldS { name: n, data_type: dt, nullable: expr_nullable_s(e, schema) },
            ),
        },
    }
}

pub open spec fn fields_for(s: Seq<ExprS>, schema: Seq<FieldS>) -> Result<Seq<FieldS>, ErrKind>
    decreases s,
{
    if s.len() == 0 {
        Ok(Seq::empty())
    } else {
        match (fields_for(s.drop_last(), schema), field_for(s.last(), schema)) {
            (Ok(fs), Ok(f)) => Ok(fs.push(f)),
            (Err(k), _) => Err(k),
            (_, Err(k)) => Err(k),
        }
    }
}

fn make_field(e: &Expr, schema: &Schema) -> (r: Result<Field, PlanError>)
    ensures
        (match r {
            Ok(f) => field_for(e@, schema@) == Ok::<FieldS, ErrKind>(f@),
            Err(err) => field_for(e@, schema@) == Err::<FieldS, ErrKind>(err.kind()),
        }),
{
    let name = expr_name_of(e)?;
    let dt = expr_type(e, schema)?;
    let nullable = expr_nullable(e, schema);
    Ok(Field { name, data_type: dt, nullable })
}

fn make_fields(v: &Vec<Expr>, schema: &Schema) -> (r: Result<Vec<Field>, PlanError>)
    ensures
        (match r {
            Ok(fs) => fields_for(view_exprs(v@), schema@) == Ok::<Seq<FieldS>, ErrKind>(
                fields_view(fs@),
            ),
            Err(err) => fields_for(view_exprs(v@), schema@) == Err::<Seq<FieldS>, ErrKind>(
                err.kind(),
            ),
        }),
{
    let ghost vs = view_exprs(v@);
    proof {
        lemma_view_exprs_index(v@);
    }
    let mut fs: Vec<Field> = Vec::new();
    let mut i: usize = 0;
    proof {
        assert(vs.take(0) =~= Seq::<ExprS>::empty());
        assert(fields_view(fs@) =~= Seq::<FieldS>::empty());
    }
    while i < v.len()
        invariant
            0 <= i <= v@.len(),
            vs == view_exprs(v@),
            vs.len() == v@.len(),
            forall|j: int| 0 <= j < v@.len() ==> #[trigger] vs[j] == view_expr(v@[j]),
            forall|j: int| 0 <= j < i ==> field_for(#[trigger] vs[j], schema@) is Ok,
            fields_for(vs.take(i as int), schema@) == Ok::<Seq<FieldS>, ErrKind>(fields_view(fs@)),
        decreases v@.len() - i,
    {
        proof {
            assert(vs.take(i + 1).drop_last() =~= vs.take(i as int));
            assert(vs.take(i + 1).last() == vs[i as int]);
        }
        match make_field(&v[i], schema) {
            Ok(f) => {
                let ghost before = fs@;
                fs.push(f);
                proof {
                    assert(fs@.drop_last() =~= before);
                    assert(fields_view(fs@) =~= fields_view(before).push(f@));
                }
            },
            Err(err) => {
                proof {
                    lemma_fields_for_err(vs, schema@, i as int, err.kind());
                }
                return Err(err);
            },
        }
        i = i + 1;
    }
    proof {
        assert(vs.take(vs.len() as int) =~= vs);
    }
    Ok(fs)
}

proof fn lemma_fields_for_err(s: Seq<ExprS>, schema: Seq<FieldS>, i: int, k: ErrKind)
    requires
        0 <= i < s.len(),
        field_for(s[i], schema) == Err::<FieldS, ErrKind>(k),
        forall|j: int| 0 <= j < i ==> field_for(#[trigger] s[j], schema) is Ok,
    ensures
        fields_for(s, schema) == Err::<Seq<FieldS>, ErrKind>(k),
    decreases s,
{
    if s.len() > 0 {
        if i == s.len() - 1 {
            lemma_fields_for_prefix_ok(s.drop_last(), schema);
            assert(forall|j: int|
                0 <= j < s.drop_last().len() ==> field_for(#[trigger] s.drop_last()[j], schema)
                    == field_for(s[j], schema));
        } else {
            assert(forall|j: int|
                0 <= j <= i ==> field_for(#[trigger] s.drop_last()[j], schema) == field_for(
                    s[j],
                    schema,
                ));
            lemma_fields_for_err(s.drop_last(), schema, i, k);
        }
    }
}

proof fn lemma_fields_for_prefix_ok(s: Seq<ExprS>, schema: Seq<FieldS>)
    requires
        forall|j: int| 0 <= j < s.len() ==> field_for(#[trigger] s[j], schema) is Ok,
    ensures
        fields_for(s, schema) is Ok,
    decreases s,
{
    if s.len() > 0 {
        assert(forall|j: int|
            0 <= j < s.drop_last().len() ==> field_for(#[trigger] s.drop_last()[j], schema)
                == field_for(s[j], schema));
        lemma_fields_for_prefix_ok(s.drop_last(), schema);
    }
}

} // verus!

verus! {

// ---------------------------------------------------------------------------
// Building validated plan nodes
// ---------------------------------------------------------------------------

/// One column reference per field of the schema, in order.
pub open spec fn columns_of(schema: Seq<FieldS>) -> Seq<ExprS> {
    Seq::new(schema.len(), |i: int| ExprS::Column(schema[i].name))
}

/// A projection list with each wildcard replaced by the input's columns.
pub open spec fn expand_wildcards(s: Seq<ExprS>, schema: Seq<FieldS>) -> Seq<ExprS>
    decreases s,
{
    if s.len() == 0 {
        Seq::empty()
    } else {
        expand_wildcards(s.drop_last(), schema) + (match s.last() {
            ExprS::Wildcard => columns_of(schema),
            e => seq![e],
        })
    }
}

fn expand_wildcard_exprs(exprs: Vec<Expr>, schema: &Schema) -> (r: Vec<Expr>)
    ensures
        view_exprs(r@) == expand_wildcards(view_exprs(exprs@), schema@),
{
    let ghost vs = view_exprs(exprs@);
    proof {
        lemma_view_exprs_index(exprs@);
    }
    let mut out: Vec<Expr> = Vec::new();
    let mut i: usize = 0;
    proof {
        assert(vs.take(0) =~= Seq::<ExprS>::empty());
        assert(view_exprs(out@) =~= expand_wildcards(vs.take(0), schema@));
    }
    while i < exprs.len()
        invariant
            0 <= i <= exprs@.len(),
            vs == view_exprs(exprs@),
            vs.len() == exprs@.len(),
            forall|j: int| 0 <= j < exprs@.len() ==> #[trigger] vs[j] == view_expr(exprs@[j]),
            view_exprs(out@) == expand_wildcards(vs.take(i as int), schema@),
        decreases exprs@.len() - i,
    {
        let ghost out_before = view_exprs(out@);
        proof {
            assert(vs.take(i + 1).drop_last() =~= vs.take(i as int));
            assert(vs.take(i + 1).last() == vs[i as int]);
        }
        let is_wildcard = match &exprs[i] {
            Expr::Wildcard => true,
            _ => false,
        };
        if is_wildcard {
            let mut k: usize = 0;
            proof {
                assert(columns_of(schema@).take(0) =~= Seq::<ExprS>::empty());
                assert(view_exprs(out@) =~= out_before + columns_of(schema@).take(0));
            }
            while k < schema.fields.len()
                invariant
                    0 <= k <= schema.fields@.len(),
                    schema.fields@.len() == schema@.len(),
                    view_exprs(out@) == out_before + columns_of(schema@).take(k as int),
                decreases schema.fields@.len() - k,
            {
                let ghost raw_before = out@;
                out.push(Expr::Column(schema.fields[k].name.clone()));
                proof {
                    assert(out@.drop_last() =~= raw_before);
                    assert(view_exprs(out@) == view_exprs(raw_before).push(view_expr(out@.last())));
                    assert(view_expr(out@.last()) == ExprS::Column(schema@[k as int].name));
                    assert(columns_of(schema@)[k as int] == ExprS::Column(schema@[k as int].name));
                    assert(columns_of(schema@).take(k + 1) =~= columns_of(schema@).take(
                        k as int,
                    ).push(columns_of(schema@)[k as int]));
                    assert(view_exprs(out@) =~= out_before + columns_of(schema@).take(k + 1));
                }
                k = k + 1;
            }
            proof {
                assert(columns_of(schema@).take(schema@.len() as int) =~= columns_of(schema@));
                assert(view_exprs(out@) =~= expand_wildcards(vs.take(i + 1), schema@));
            }
        } else {
            let ghost raw_before = out@;
            out.push(clone_expr(&exprs[i]));
            proof {
                assert(out@.drop_last() =~= raw_before);
                assert(view_exprs(out@) == view_exprs(raw_before).push(view_expr(out@.last())));
                assert(view_expr(out@.last()) == vs[i as int]);
                assert(out_before + seq![vs[i as int]] =~= out_before.push(vs[i as int]));
                assert(view_exprs(out@) =~= expand_wildcards(vs.take(i + 1), schema@));
            }
        }
        i = i + 1;
    }
    proof {
        assert(vs.take(vs.len() as int) =~= vs);
    }
    out
}

/// A relation with no input rows and no columns.
pub open spec fn empty_spec() -> PlanS {
    PlanS::EmptyRelation { schema: Seq::empty() }
}

pub fn empty_plan() -> (r: LogicalPlan)
    ensures
        r@ == empty_spec(),
{
    let r = LogicalPlan::EmptyRelation { schema: Schema::empty() };
    proof {
        assert(r@ =~= empty_spec());
    }
    r
}

/// A scan of a named table: the whole schema, no column projection.
pub open spec fn scan_spec(table_name: Seq<char>, schema: Seq<FieldS>, alias: Option<Seq<char>>)
    -> PlanS {
    PlanS::TableScan { table_name, schema, projection: None, alias }
}

pub fn scan_plan(table_name: String, schema: Schema, alias: Option<String>) -> (r: LogicalPlan)
    ensures
        r@ == scan_spec(table_name@, schema@, match alias {
            Some(a) => Some(a@),
            None => None,
        }),
{
    LogicalPlan::TableScan { table_name, schema, projection: None, alias }
}

/// A filter over `input`; the predicate must type against the input schema.
pub open spec fn filter_spec(predicate: ExprS, input: PlanS) -> Result<PlanS, ErrKind> {
    if expr_type_s(predicate, schema_of(input)) is Some {
        Ok(PlanS::Filter { predicate, input: Box::new(input) })
    } else {
        Err(ErrKind::Plan)
    }
}

pub fn filter_plan(predicate: Expr, input: LogicalPlan) -> (r: Result<LogicalPlan, PlanError>)
    ensures
        (match r {
            Ok(p) => filter_spec(predicate@, input@) == Ok::<PlanS, ErrKind>(p@),
            Err(err) => filter_spec(predicate@, input@) == Err::<PlanS, ErrKind>(err.kind())
                && err.kind() == ErrKind::Plan,
        }),
{
    let schema = input.schema();
    let _t = expr_type(&predicate, &schema)?;
    Ok(LogicalPlan::Filter { predicate, input: Box::new(input) })
}

/// A projection over `input`: wildcards are expanded to the input's columns,
/// and the schema holds one field per expression, named by its computed name.
pub open spec fn projection_spec(exprs: Seq<ExprS>, input: PlanS) -> Result<PlanS, ErrKind> {
    let ex = expand_wildcards(exprs, schema_of(input));
    match fields_for(ex, schema_of(input)) {
        Ok(fs) => Ok(PlanS::Projection { expr: ex, input: Box::new(input), schema: fs }),
        Err(k) => Err(k),
    }
}

pub fn project_plan(exprs: Vec<Expr>, input: LogicalPlan) -> (r: Result<LogicalPlan, PlanError>)
    ensures
        (match r {
            Ok(p) => projection_spec(view_exprs(exprs@), input@) == Ok::<PlanS, ErrKind>(p@),
            Err(err) => projection_spec(view_exprs(exprs@), input@) == Err::<PlanS, ErrKind>(
                err.kind(),
            ),
        }),
{
    let schema = input.schema();
    let expanded = expand_wildcard_exprs(exprs, &schema);
    let fields = make_fields(&expanded, &schema)?;
    Ok(LogicalPlan::Projection { expr: expanded, input: Box::new(input), schema: Schema::new(fields) })
}

/// An aggregation over `input`: the output schema holds one field per group
/// expression, then one per aggregate expression.
pub open spec fn aggregate_spec(group: Seq<ExprS>, aggr: Seq<ExprS>, input: PlanS) -> Result<
    PlanS,
    ErrKind,
> {
    match (fields_for(group, schema_of(input)), fields_for(aggr, schema_of(input))) {
        (Ok(f1), Ok(f2)) => Ok(
            PlanS::Aggregate {
                group_expr: group,
                aggr_expr: aggr,
                input: Box::new(input),
                schema: f1 + f2,
            },
        ),
        (Err(k), _) => Err(k),
        (_, Err(k)) => Err(k),
    }
}

pub fn aggregate_plan(group: Vec<Expr>, aggr: Vec<Expr>, input: LogicalPlan) -> (r: Result<
    LogicalPlan,
    PlanError,
>)
    ensures
        (match r {
            Ok(p) => aggregate_spec(view_exprs(group@), view_exprs(aggr@), input@) == Ok::<
                PlanS,
                ErrKind,
            >(p@),
            Err(err) => aggregate_spec(view_exprs(group@), view_exprs(aggr@), input@) == Err::<
                PlanS,
                ErrKind,
            >(err.kind()),
        }),
{
    let schema = input.schema();
    let f1 = make_fields(&group, &schema)?;
    let f2 = make_fields(&aggr, &schema)?;
    let mut fields = f1;
    let ghost f1v = fields_view(fields@);
    let ghost f2v = fields_view(f2@);
    let mut k: usize = 0;
    proof {
        assert(fields_view(f2@).take(0) =~= Seq::<FieldS>::empty());
        assert(fields_view(fields@) =~= f1v + f2v.take(0));
    }
    let mut f2 = f2;
    while k < f2.len()
        invariant
            0 <= k <= f2@.len(),
            f2v == fields_view(f2@),
            fields_view(fields@) == f1v + f2v.take(k as int),
        decreases f2@.len() - k,
    {
        let f = crate::schema::clone_field(&f2[k]);
        let ghost raw_before = fields@;
        let ghost before = fields_view(fields@);
        fields.push(f);
        proof {
            assert(fields@.drop_last() =~= raw_before);
            assert(fields_view(fields@) =~= before.push(f2v[k as int]));
            assert(f1v + f2v.take(k + 1) =~= (f1v + f2v.take(k as int)).push(f2v[k as int]));
        }
        k = k + 1;
    }
    proof {
        assert(f2v.take(f2v.len() as int) =~= f2v);
    }
    Ok(LogicalPlan::Aggregate {
        group_expr: group,
        aggr_expr: aggr,
        input: Box::new(input),
        schema: Schema::new(fields),
    })
}

/// A sort over `input`; every sort expression must type against the input
/// schema.
pub open spec fn sort_spec(exprs: Seq<ExprS>, input: PlanS) -> Result<PlanS, ErrKind> {
    if args_typed(exprs, schema_of(input)) {
        Ok(PlanS::Sort { expr: exprs, input: Box::new(input) })
    } else {
        Err(ErrKind::Plan)
    }
}

pub fn sort_plan(exprs: Vec<Expr>, input: LogicalPlan) -> (r: Result<LogicalPlan, PlanError>)
    ensures
        (match r {
            Ok(p) => sort_spec(view_exprs(exprs@), input@) == Ok::<PlanS, ErrKind>(p@),
            Err(err) => sort_spec(view_exprs(exprs@), input@) == Err::<PlanS, ErrKind>(err.kind())
                && err.kind() == ErrKind::Plan,
        }),
{
    let schema = input.schema();
    check_args_typed(&exprs, &schema)?;
    Ok(LogicalPlan::Sort { expr: exprs, input: Box::new(input) })
}

/// A limit over `input`.
pub open spec fn limit_spec(n: usize, input: PlanS) -> PlanS {
    PlanS::Limit { n, input: Box::new(input) }
}

pub fn limit_plan(n: usize, input: LogicalPlan) -> (r: LogicalPlan)
    ensures
        r@ == limit_spec(n, input@),
{
    LogicalPlan::Limit { n, input: Box::new(input) }
}

} // verus!
