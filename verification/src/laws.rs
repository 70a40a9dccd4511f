use vstd::prelude::*;
use vstd::seq_lib::group_to_multiset_ensures;
use crate::error::{PlanError, ErrKind};
use crate::schema::{FieldS, has_field};
use crate::expr::{ExprS, expr_name_s, is_aggregate_s, collect_agg_s, collect_agg_list};
use crate::plan::{LogicalPlan, PlanS, schema_of, fmt_plan};
use crate::builder::{expr_type_s, args_typed, lemma_args_typed_index, fields_for, filter_spec,
    projection_spec, aggregate_spec, sort_spec};
use crate::provider::CatalogS;
use crate::sqlast::{Statement, Select, SetExpr, SqlExpr};
use crate::planner::{statement_spec, select_spec, set_expr_spec, aggregate_branch_spec,
    group_exprs_spec, names_of, filter_nonaggr, collect_proj, dedup_spec, all_schemas_eq,
    plan_result};

verus! {

// ---------------------------------------------------------------------------
// Identifier closure
// ---------------------------------------------------------------------------

/// Whether every column reference anywhere in the expression names a field
/// of `schema`.
pub open spec fn columns_resolve(e: ExprS, schema: Seq<FieldS>) -> bool
    decreases e, 0int,
{
    match e {
        ExprS::Column(c) => has_field(schema, c),
        ExprS::Alias(x, _) => columns_resolve(*x, schema),
        ExprS::BinaryExpr { left, right, .. } => columns_resolve(*left, schema)
            && columns_resolve(*right, schema),
        ExprS::Not(x) => columns_resolve(*x, schema),
        ExprS::IsNull(x) => columns_resolve(*x, schema),
        ExprS::IsNotNull(x) => columns_resolve(*x, schema),
        ExprS::Cast { expr, .. } => columns_resolve(*expr, schema),
        ExprS::Sort { expr, .. } => columns_resolve(*expr, schema),
        ExprS::ScalarFunction { args, .. } => all_columns_resolve(args, schema),
        ExprS::AggregateFunction { args, .. } => all_columns_resolve(args, schema),
        ExprS::ScalarUDF { args, .. } => all_columns_resolve(args, schema),
        ExprS::AggregateUDF { args, .. } => all_columns_resolve(args, schema),
        _ => true,
    }
}

pub open spec fn all_columns_resolve(s: Seq<ExprS>, schema: Seq<FieldS>) -> bool
    decreases s, 1int,
{
    if s.len() == 0 {
        true
    } else {
        columns_resolve(s.last(), schema) && all_columns_resolve(s.drop_last(), schema)
    }
}

/// An expression that types against a schema has every column resolved in it:
/// typing visits the whole tree and fails on an unknown column.
pub proof fn lemma_typed_columns_resolve(e: ExprS, schema: Seq<FieldS>)
    requires
        expr_type_s(e, schema) is Some,
    ensures
        columns_resolve(e, schema),
    decreases e, 0int,
{
    match e {
        ExprS::Alias(x, _) => lemma_typed_columns_resolve(*x, schema),
        ExprS::BinaryExpr { left, right, .. } => {
            lemma_typed_columns_resolve(*left, schema);
            lemma_typed_columns_resolve(*right, schema);
        },
        ExprS::Not(x) => lemma_typed_columns_resolve(*x, schema),
        ExprS::IsNull(x) => lemma_typed_columns_resolve(*x, schema),
        ExprS::IsNotNull(x) => lemma_typed_columns_resolve(*x, schema),
        ExprS::Cast { expr, .. } => lemma_typed_columns_resolve(*expr, schema),
        ExprS::Sort { expr, .. } => lemma_typed_columns_resolve(*expr, schema),
        ExprS::ScalarFunction { args, .. } => lemma_typed_list_resolves(args, schema),
        ExprS::AggregateFunction { args, .. } => lemma_typed_list_resolves(args, schema),
        ExprS::ScalarUDF { args, .. } => lemma_typed_list_resolves(args, schema),
        ExprS::AggregateUDF { args, .. } => lemma_typed_list_resolves(args, schema),
        _ => {},
    }
}

proof fn lemma_typed_list_resolves(s: Seq<ExprS>, schema: Seq<FieldS>)
    requires
        args_typed(s, schema),
    ensures
        all_columns_resolve(s, schema),
    decreases s, 1int,
{
    if s.len() > 0 {
        lemma_typed_columns_resolve(s.last(), schema);
        lemma_typed_list_resolves(s.drop_last(), schema);
    }
}

/// Identifier closure, node by node: in every expression-bearing plan node
/// the translator emits — filters, projections, aggregates and sorts — every
/// column reference resolves against the schema of the node's input. Each
/// builder accepts its expressions only when they type against that schema.
pub proof fn lemma_filter_identifier_closure(predicate: ExprS, input: PlanS, p: PlanS)
    requires
        filter_spec(predicate, input) == Ok::<PlanS, ErrKind>(p),
    ensures
        p matches PlanS::Filter { predicate: q, input: inp } && columns_resolve(
            q,
            schema_of(*inp),
        ),
{
    lemma_typed_columns_resolve(predicate, schema_of(input));
}

pub proof fn lemma_projection_identifier_closure(exprs: Seq<ExprS>, input: PlanS, p: PlanS)
    requires
        projection_spec(exprs, input) == Ok::<PlanS, ErrKind>(p),
    ensures
        p matches PlanS::Projection { expr: es, input: inp, .. } && forall|i: int|
            0 <= i < es.len() ==> columns_resolve(#[trigger] es[i], schema_of(*inp)),
{
    let schema = schema_of(input);
    let ex = crate::builder::expand_wildcards(exprs, schema);
    lemma_fields_for_typed(ex, schema);
    assert forall|i: int| 0 <= i < ex.len() implies columns_resolve(
        #[trigger] ex[i],
        schema,
    ) by {
        lemma_typed_columns_resolve(ex[i], schema);
    }
}

pub proof fn lemma_sort_identifier_closure(exprs: Seq<ExprS>, input: PlanS, p: PlanS)
    requires
        sort_spec(exprs, input) == Ok::<PlanS, ErrKind>(p),
    ensures
        p matches PlanS::Sort { expr: es, input: inp } && forall|i: int|
            0 <= i < es.len() ==> columns_resolve(#[trigger] es[i], schema_of(*inp)),
{
    let schema = schema_of(input);
    lemma_args_typed_index(exprs, schema);
    assert forall|i: int| 0 <= i < exprs.len() implies columns_resolve(
        #[trigger] exprs[i],
        schema,
    ) by {
        lemma_typed_columns_resolve(exprs[i], schema);
    }
}

pub proof fn lemma_aggregate_identifier_closure(
    group: Seq<ExprS>,
    aggr: Seq<ExprS>,
    input: PlanS,
    p: PlanS,
)
    requires
        aggregate_spec(group, aggr, input) == Ok::<PlanS, ErrKind>(p),
    ensures
        p matches PlanS::Aggregate { group_expr: gs, aggr_expr: ags, input: inp, .. }
            && (forall|i: int|
            0 <= i < gs.len() ==> columns_resolve(#[trigger] gs[i], schema_of(*inp))) && (forall|
            i: int,
        |
            0 <= i < ags.len() ==> columns_resolve(#[trigger] ags[i], schema_of(*inp))),
{
    let schema = schema_of(input);
    lemma_fields_for_typed(group, schema);
    lemma_fields_for_typed(aggr, schema);
    assert forall|i: int| 0 <= i < group.len() implies columns_resolve(
        #[trigger] group[i],
        schema,
    ) by {
        lemma_typed_columns_resolve(group[i], schema);
    }
    assert forall|i: int| 0 <= i < aggr.len() implies columns_resolve(
        #[trigger] aggr[i],
        schema,
    ) by {
        lemma_typed_columns_resolve(aggr[i], schema);
    }
}

/// Field construction succeeds only for expressions that type.
proof fn lemma_fields_for_typed(s: Seq<ExprS>, schema: Seq<FieldS>)
    requires
        fields_for(s, schema) is Ok,
    ensures
        forall|i: int| 0 <= i < s.len() ==> expr_type_s(#[trigger] s[i], schema) is Some,
    decreases s,
{
    if s.len() > 0 {
        lemma_fields_for_typed(s.drop_last(), schema);
        assert forall|i: int| 0 <= i < s.len() implies expr_type_s(
            #[trigger] s[i],
            schema,
        ) is Some by {
            if i < s.len() - 1 {
                assert(s.drop_last()[i] == s[i]);
            }
        }
    }
}

// ---------------------------------------------------------------------------
// Aggregate purity
// ---------------------------------------------------------------------------

/// Whether an expression is an aggregate function call at its root.
pub open spec fn is_aggregate_node(e: ExprS) -> bool {
    e is AggregateFunction || e is AggregateUDF
}

pub open spec fn all_agg_nodes(s: Seq<ExprS>) -> bool {
    forall|i: int| 0 <= i < s.len() ==> is_aggregate_node(#[trigger] s[i])
}

proof fn lemma_collect_agg_nodes(e: ExprS, acc: Seq<ExprS>)
    requires
        all_agg_nodes(acc),
    ensures
        all_agg_nodes(collect_agg_s(e, acc)),
    decreases e, 0int,
{
    match e {
        ExprS::AggregateFunction { .. } => {
            assert(collect_agg_s(e, acc) == acc.push(e));
            assert forall|i: int| 0 <= i < acc.push(e).len() implies is_aggregate_node(
                #[trigger] acc.push(e)[i],
            ) by {
                if i < acc.len() {
                    assert(acc.push(e)[i] == acc[i]);
                } else {
                    assert(acc.push(e)[i] == e);
                }
            }
        },
        ExprS::AggregateUDF { .. } => {
            assert(collect_agg_s(e, acc) == acc.push(e));
            assert forall|i: int| 0 <= i < acc.push(e).len() implies is_aggregate_node(
                #[trigger] acc.push(e)[i],
            ) by {
                if i < acc.len() {
                    assert(acc.push(e)[i] == acc[i]);
                } else {
                    assert(acc.push(e)[i] == e);
                }
            }
        },
        ExprS::Alias(inner, _) => {
            lemma_collect_agg_nodes(*inner, acc);
            assert(collect_agg_s(e, acc) == collect_agg_s(*inner, acc));
        },
        ExprS::BinaryExpr { left, right, .. } => {
            lemma_collect_agg_nodes(*left, acc);
            lemma_collect_agg_nodes(*right, collect_agg_s(*left, acc));
            assert(collect_agg_s(e, acc) == collect_agg_s(*right, collect_agg_s(*left, acc)));
        },
        ExprS::ScalarFunction { args, .. } => {
            lemma_collect_list_nodes(args, acc);
            assert(collect_agg_s(e, acc) == collect_agg_list(args, acc));
        },
        _ => {
            assert(collect_agg_s(e, acc) == acc);
        },
    }
}

proof fn lemma_collect_list_nodes(s: Seq<ExprS>, acc: Seq<ExprS>)
    requires
        all_agg_nodes(acc),
    ensures
        all_agg_nodes(collect_agg_list(s, acc)),
    decreases s, 1int,
{
    if s.len() == 0 {
        assert(collect_agg_list(s, acc) == acc);
    } else {
        lemma_collect_list_nodes(s.drop_last(), acc);
        lemma_collect_agg_nodes(s.last(), collect_agg_list(s.drop_last(), acc));
        assert(collect_agg_list(s, acc) == collect_agg_s(
            s.last(),
            collect_agg_list(s.drop_last(), acc),
        ));
    }
}

proof fn lemma_collect_proj_nodes(s: Seq<ExprS>)
    ensures
        all_agg_nodes(collect_proj(s)),
    decreases s,
{
    if s.len() == 0 {
        assert(collect_proj(s) =~= Seq::<ExprS>::empty());
        assert(all_agg_nodes(collect_proj(s)));
    } else {
        lemma_collect_proj_nodes(s.drop_last());
        let tail: Seq<ExprS> = if is_aggregate_s(s.last()) {
            collect_agg_s(s.last(), Seq::empty())
        } else {
            Seq::empty()
        };
        if is_aggregate_s(s.last()) {
            assert(all_agg_nodes(Seq::<ExprS>::empty()));
            lemma_collect_agg_nodes(s.last(), Seq::empty());
        } else {
            assert(all_agg_nodes(tail));
        }
        assert(collect_proj(s) == collect_proj(s.drop_last()) + tail);
        assert forall|i: int| 0 <= i < collect_proj(s).len() implies is_aggregate_node(
            #[trigger] collect_proj(s)[i],
        ) by {
            if i < collect_proj(s.drop_last()).len() {
                assert(collect_proj(s)[i] == collect_proj(s.drop_last())[i]);
            } else {
                assert(collect_proj(s)[i] == tail[i - collect_proj(s.drop_last()).len()]);
            }
        }
    }
}

proof fn lemma_dedup_keeps_nodes(s: Seq<ExprS>)
    requires
        all_agg_nodes(s),
        dedup_spec(s) is Ok,
    ensures
        all_agg_nodes(dedup_spec(s)->Ok_0),
    decreases s,
{
    if s.len() > 0 {
        assert(forall|j: int| 0 <= j < s.drop_last().len() ==> #[trigger] s.drop_last()[j] == s[j]);
        assert(all_agg_nodes(s.drop_last()));
        lemma_dedup_keeps_nodes(s.drop_last());
        let prev = dedup_spec(s.drop_last())->Ok_0;
        if !crate::planner::name_in_exprs(prev, expr_name_s(s.last())->Some_0) {
            assert(dedup_spec(s)->Ok_0 == prev.push(s.last()));
            assert forall|i: int| 0 <= i < prev.push(s.last()).len() implies is_aggregate_node(
                #[trigger] prev.push(s.last())[i],
            ) by {
                if i < prev.len() {
                    assert(prev.push(s.last())[i] == prev[i]);
                } else {
                    assert(prev.push(s.last())[i] == s.last());
                    assert(is_aggregate_node(s[s.len() - 1]));
                }
            }
        }
    }
}

/// Aggregate purity, first half: every aggregate slot of the aggregate a
/// SELECT emits holds an aggregate function call — the collected, deduplicated
/// aggregate subexpressions of the projection.
pub proof fn lemma_aggregate_slots_pure(proj: Seq<ExprS>)
    requires
        dedup_spec(collect_proj(proj)) is Ok,
    ensures
        all_agg_nodes(dedup_spec(collect_proj(proj))->Ok_0),
{
    lemma_collect_proj_nodes(proj);
    lemma_dedup_keeps_nodes(collect_proj(proj));
}

/// Aggregate purity, second half: in an accepted aggregate query whose
/// computed names are faithful — no group expression classified as aggregate
/// shares its name with a non-aggregate projection expression — every group
/// expression is non-aggregate.
pub proof fn lemma_group_exprs_non_aggregate(
    input: PlanS,
    proj: Seq<ExprS>,
    gb: Seq<SqlExpr>,
    aggr: Seq<ExprS>,
    cat: CatalogS,
)
    requires
        aggregate_branch_spec(input, proj, gb, aggr, cat) is Ok,
        (forall|n: Seq<char>|
            names_of(filter_nonaggr(proj))->Ok_0.contains(n) ==> !exists|i: int|
                0 <= i < group_exprs_spec(gb, proj, input, cat)->Ok_0.len() && expr_name_s(
                    #[trigger] group_exprs_spec(gb, proj, input, cat)->Ok_0[i],
                ) == Some(n) && is_aggregate_s(group_exprs_spec(gb, proj, input, cat)->Ok_0[i])),
    ensures
        forall|i: int|
            0 <= i < group_exprs_spec(gb, proj, input, cat)->Ok_0.len() ==> !is_aggregate_s(
                #[trigger] group_exprs_spec(gb, proj, input, cat)->Ok_0[i],
            ),
{
    broadcast use group_to_multiset_ensures;

    let group = group_exprs_spec(gb, proj, input, cat)->Ok_0;
    let gn = names_of(group)->Ok_0;
    let pn = names_of(filter_nonaggr(proj))->Ok_0;
    assert(gn.to_multiset() == pn.to_multiset());
    lemma_names_of_index(group);
    assert forall|i: int| 0 <= i < group.len() implies !is_aggregate_s(
        #[trigger] group[i],
    ) by {
        if is_aggregate_s(group[i]) {
            assert(gn[i] == expr_name_s(group[i])->Some_0);
            assert(gn.contains(gn[i]));
            assert(gn.to_multiset().count(gn[i]) > 0);
            assert(pn.to_multiset().count(gn[i]) > 0);
            assert(pn.contains(gn[i]));
            assert(expr_name_s(group[i]) == Some(gn[i]));
            assert(false);
        }
    }
}

proof fn lemma_names_of_index(s: Seq<ExprS>)
    requires
        names_of(s) is Ok,
    ensures
        names_of(s)->Ok_0.len() == s.len(),
        forall|i: int|
            0 <= i < s.len() ==> Some(#[trigger] names_of(s)->Ok_0[i]) == expr_name_s(s[i]),
    decreases s,
{
    if s.len() > 0 {
        lemma_names_of_index(s.drop_last());
        assert forall|i: int| 0 <= i < s.len() implies Some(#[trigger] names_of(s)->Ok_0[i])
            == expr_name_s(s[i]) by {
            if i < s.len() - 1 {
                assert(s.drop_last()[i] == s[i]);
            }
        }
    }
}

// ---------------------------------------------------------------------------
// Projection / GROUP BY consistency
// ---------------------------------------------------------------------------

/// In every accepted aggregate query, the multiset of computed names of the
/// non-aggregate projection expressions equals the multiset of computed names
/// of the group expressions.
pub proof fn lemma_group_by_projection_consistency(
    input: PlanS,
    proj: Seq<ExprS>,
    gb: Seq<SqlExpr>,
    aggr: Seq<ExprS>,
    cat: CatalogS,
)
    requires
        aggregate_branch_spec(input, proj, gb, aggr, cat) is Ok,
    ensures
        group_exprs_spec(gb, proj, input, cat) is Ok,
        names_of(group_exprs_spec(gb, proj, input, cat)->Ok_0) is Ok,
        names_of(filter_nonaggr(proj)) is Ok,
        names_of(group_exprs_spec(gb, proj, input, cat)->Ok_0)->Ok_0.to_multiset() == names_of(
            filter_nonaggr(proj),
        )->Ok_0.to_multiset(),
{
}

// ---------------------------------------------------------------------------
// Union schema equality
// ---------------------------------------------------------------------------

/// Every union the translator emits has all child schemas equal to the
/// union's own schema: the lowering of a set operation checks them.
pub proof fn lemma_union_schema_equality(
    se: SetExpr,
    alias: Option<Seq<char>>,
    cat: CatalogS,
    p: PlanS,
)
    requires
        set_expr_spec(se, alias, cat) == Ok::<PlanS, ErrKind>(p),
        p is Union,
    ensures
        p matches PlanS::Union { inputs, schema, .. } && inputs.len() > 0 && all_schemas_eq(
            inputs,
            schema,
        ),
{
    match se {
        SetExpr::Select(s) => {
            lemma_select_not_union(*s, cat);
        },
        SetExpr::SetOperation { .. } => {},
        SetExpr::Other(_) => {},
    }
}

/// A plain SELECT never lowers to a union node.
proof fn lemma_select_not_union(s: Select, cat: CatalogS)
    requires
        select_spec(s, cat) is Ok,
    ensures
        !(select_spec(s, cat)->Ok_0 is Union),
{
}

// ---------------------------------------------------------------------------
// Determinism and stable formatting
// ---------------------------------------------------------------------------

/// Determinism: translation is a pure function of the statement and the
/// catalog snapshot. Any two results measured against the same statement and
/// snapshot are identical — in particular, two runs of the translator.
pub proof fn lemma_translation_deterministic(
    r1: Result<LogicalPlan, PlanError>,
    r2: Result<LogicalPlan, PlanError>,
    s: Statement,
    cat: CatalogS,
)
    requires
        plan_result(r1) == statement_spec(s, cat),
        plan_result(r2) == statement_spec(s, cat),
    ensures
        plan_result(r1) == plan_result(r2),
{
}

/// Stable formatting: rendering is a pure function of the plan, so rendering
/// an emitted plan again yields the same text.
pub proof fn lemma_formatting_stable(s1: String, s2: String, p: LogicalPlan)
    requires
        s1@ == fmt_plan(p@, Seq::<char>::empty()),
        s2@ == fmt_plan(p@, Seq::<char>::empty()),
    ensures
        s1@ == s2@,
{
}

} // verus!

verus! {

/// Aggregate purity at the emission site: when an accepted SELECT takes the
/// aggregate branch, the aggregate node it emits — directly, or under the
/// reordering projection — carries exactly the collected, deduplicated
/// aggregate subexpressions of the projection, and each of them is an
/// aggregate function call.
pub proof fn lemma_select_aggregate_purity(s: Select, cat: CatalogS)
    requires
        select_spec(s, cat) is Ok,
    ensures
        ({
            let scan = crate::planner::from_spec(s.from@, cat)->Ok_0;
            let plan = crate::planner::filter_step_spec(scan, s.selection, cat)->Ok_0;
            let proj = crate::planner::select_items_spec(
                s.projection@,
                schema_of(plan),
                crate::plan::aliases_of(plan),
                cat,
            )->Ok_0;
            let aggr = dedup_spec(collect_proj(proj))->Ok_0;
            (s.group_by@.len() > 0 || aggr.len() > 0) ==> (all_agg_nodes(aggr) && (
            match select_spec(s, cat)->Ok_0 {
                PlanS::Aggregate { aggr_expr, .. } => aggr_expr == aggr,
                PlanS::Projection { input, .. } => match *input {
                    PlanS::Aggregate { aggr_expr, .. } => aggr_expr == aggr,
                    _ => false,
                },
                _ => false,
            }))
        }),
{
    let scan = crate::planner::from_spec(s.from@, cat)->Ok_0;
    let plan = crate::planner::filter_step_spec(scan, s.selection, cat)->Ok_0;
    let proj = crate::planner::select_items_spec(
        s.projection@,
        schema_of(plan),
        crate::plan::aliases_of(plan),
        cat,
    )->Ok_0;
    let aggr = dedup_spec(collect_proj(proj))->Ok_0;
    if s.group_by@.len() > 0 || aggr.len() > 0 {
        lemma_aggregate_slots_pure(proj);
    }
}

} // verus!
