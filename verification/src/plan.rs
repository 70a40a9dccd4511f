use vstd::prelude::*;
use crate::types::FileType;
use crate::schema::{Schema, FieldS};
use crate::expr::{Expr, ExprS, view_exprs, expr_disp, disp_join, expr_display, display_join};
use crate::strutil::{dec_str, u64_to_string};

verus! {

// ---------------------------------------------------------------------------
// Logical plans
// ---------------------------------------------------------------------------

/// A logical plan: the translator's output. The tree is built once and never
/// mutated.
#[derive(Debug)]
pub enum LogicalPlan {
    EmptyRelation { schema: Schema },
    TableScan { table_name: String, schema: Schema, projection: Option<Vec<usize>>, alias: Option<
        String,
    > },
    Filter { predicate: Expr, input: Box<LogicalPlan> },
    Projection { expr: Vec<Expr>, input: Box<LogicalPlan>, schema: Schema },
    Aggregate { group_expr: Vec<Expr>, aggr_expr: Vec<Expr>, input: Box<LogicalPlan>, schema:
        Schema },
    Sort { expr: Vec<Expr>, input: Box<LogicalPlan> },
    Limit { n: usize, input: Box<LogicalPlan> },
    Union { inputs: Vec<LogicalPlan>, schema: Schema, alias: Option<String> },
    CreateExternalTable { name: String, schema: Schema, location: String, file_type: FileType,
        has_header: bool },
    Explain { verbose: bool, plan: Box<LogicalPlan>, stringified_plans: Vec<String>, schema:
        Schema },
}

/// The mathematical model of a `LogicalPlan`.
#[verifier::ext_equal]
pub enum PlanS {
    EmptyRelation { schema: Seq<FieldS> },
    TableScan { table_name: Seq<char>, schema: Seq<FieldS>, projection: Option<Seq<usize>>, alias:
        Option<Seq<char>> },
    Filter { predicate: ExprS, input: Box<PlanS> },
    Projection { expr: Seq<ExprS>, input: Box<PlanS>, schema: Seq<FieldS> },
    Aggregate { group_expr: Seq<ExprS>, aggr_expr: Seq<ExprS>, input: Box<PlanS>, schema: Seq<
        FieldS,
    > },
    Sort { expr: Seq<ExprS>, input: Box<PlanS> },
    Limit { n: usize, input: Box<PlanS> },
    Union { inputs: Seq<PlanS>, schema: Seq<FieldS>, alias: Option<Seq<char>> },
    CreateExternalTable { name: Seq<char>, schema: Seq<FieldS>, location: Seq<char>, file_type:
        FileType, has_header: bool },
    Explain { verbose: bool, plan: Box<PlanS>, stringified_plans: Seq<Seq<char>>, schema: Seq<
        FieldS,
    > },
}

pub open spec fn view_plan(p: LogicalPlan) -> PlanS
    decreases p,
{
    match p {
        LogicalPlan::EmptyRelation { schema } => PlanS::EmptyRelation { schema: schema@ },
        LogicalPlan::TableScan { table_name, schema, projection, alias } => PlanS::TableScan {
            table_name: table_name@,
            schema: schema@,
            projection: match projection {
                Some(v) => Some(v@),
                None => None,
            },
            alias: match alias {
                Some(a) => Some(a@),
                None => None,
            },
        },
        LogicalPlan::Filter { predicate, input } => PlanS::Filter {
            predicate: predicate@,
            input: Box::new(view_plan(*input)),
        },
        LogicalPlan::Projection { expr, input, schema } => PlanS::Projection {
            expr: view_exprs(expr@),
            input: Box::new(view_plan(*input)),
            schema: schema@,
        },
        LogicalPlan::Aggregate { group_expr, aggr_expr, input, schema } => PlanS::Aggregate {
            group_expr: view_exprs(group_expr@),
            aggr_expr: view_exprs(aggr_expr@),
            input: Box::new(view_plan(*input)),
            schema: schema@,
        },
        LogicalPlan::Sort { expr, input } => PlanS::Sort {
            expr: view_exprs(expr@),
            input: Box::new(view_plan(*input)),
        },
        LogicalPlan::Limit { n, input } => PlanS::Limit { n, input: Box::new(view_plan(*input)) },
        LogicalPlan::Union { inputs, schema, alias } => PlanS::Union {
            inputs: view_plans(inputs@),
            schema: schema@,
            alias: match alias {
                Some(a) => Some(a@),
                None => None,
            },
        },
        LogicalPlan::CreateExternalTable { name, schema, location, file_type, has_header } => PlanS::CreateExternalTable {
            name: name@,
            schema: schema@,
            location: location@,
            file_type,
            has_header,
        },
        LogicalPlan::Explain { verbose, plan, stringified_plans, schema } => PlanS::Explain {
            verbose,
            plan: Box::new(view_plan(*plan)),
            stringified_plans: stringified_plans@.map_values(|s: String| s@),
            schema: schema@,
        },
    }
}

pub open spec fn view_plans(s: Seq<LogicalPlan>) -> Seq<PlanS>
    decreases s,
{
    if s.len() == 0 {
        Seq::empty()
    } else {
        view_plans(s.drop_last()).push(view_plan(s.last()))
    }
}

impl View for LogicalPlan {
    type V = PlanS;

    open spec fn view(&self) -> PlanS {
        view_plan(*self)
    }
}

pub proof fn lemma_view_plans_index(s: Seq<LogicalPlan>)
    ensures
        view_plans(s).len() == s.len(),
        forall|i: int| 0 <= i < s.len() ==> #[trigger] view_plans(s)[i] == view_plan(s[i]),
    decreases s,
{
    if s.len() > 0 {
        lemma_view_plans_index(s.drop_last());
        assert forall|i: int| 0 <= i < s.len() implies #[trigger] view_plans(s)[i] == view_plan(
            s[i],
        ) by {
            if i < s.len() - 1 {
                assert(s.drop_last()[i] == s[i]);
            }
        }
    }
}

// ---------------------------------------------------------------------------
// The schema of a plan, and the alias map it exposes
// ---------------------------------------------------------------------------

/// The output schema of a plan node.
pub open spec fn schema_of(p: PlanS) -> Seq<FieldS>
    decreases p,
{
    match p {
        PlanS::EmptyRelation { schema } => schema,
        PlanS::TableScan { schema, .. } => schema,
        PlanS::Filter { input, .. } => schema_of(*input),
        PlanS::Projection { schema, .. } => schema,
        PlanS::Aggregate { schema, .. } => schema,
        PlanS::Sort { input, .. } => schema_of(*input),
        PlanS::Limit { input, .. } => schema_of(*input),
        PlanS::Union { schema, .. } => schema,
        PlanS::CreateExternalTable { schema, .. } => schema,
        PlanS::Explain { schema, .. } => schema,
    }
}

/// The alias map of a plan: the table or union alias it was introduced
/// under, seen through filters, projections, aggregates, sorts and limits.
pub open spec fn aliases_of(p: PlanS) -> Seq<(Seq<char>, Seq<FieldS>)>
    decreases p,
{
    match p {
        PlanS::TableScan { schema, alias, .. } => match alias {
            Some(a) => seq![(a, schema)],
            None => Seq::empty(),
        },
        PlanS::Union { schema, alias, .. } => match alias {
            Some(a) => seq![(a, schema)],
            None => Seq::empty(),
        },
        PlanS::Filter { input, .. } => aliases_of(*input),
        PlanS::Projection { input, .. } => aliases_of(*input),
        PlanS::Aggregate { input, .. } => aliases_of(*input),
        PlanS::Sort { input, .. } => aliases_of(*input),
        PlanS::Limit { input, .. } => aliases_of(*input),
        _ => Seq::empty(),
    }
}

/// The alias map a plan hands to expression lowering.
#[derive(Debug)]
pub struct AliasMap {
    pub entries: Vec<(String, Schema)>,
}

impl View for AliasMap {
    type V = Seq<(Seq<char>, Seq<FieldS>)>;

    open spec fn view(&self) -> Seq<(Seq<char>, Seq<FieldS>)> {
        self.entries@.map_values(|e: (String, Schema)| (e.0@, e.1@))
    }
}

pub open spec fn alias_map_has(m: Seq<(Seq<char>, Seq<FieldS>)>, name: Seq<char>) -> bool {
    exists|i: int| 0 <= i < m.len() && (#[trigger] m[i]).0 == name
}

impl AliasMap {
    pub fn new() -> (r: AliasMap)
        ensures
            r@ =~= Seq::<(Seq<char>, Seq<FieldS>)>::empty(),
    {
        AliasMap { entries: Vec::new() }
    }

    /// Whether the map holds an alias of this name.
    pub fn contains_alias(&self, name: &str) -> (r: bool)
        ensures
            r == alias_map_has(self@, name@),
    {
        let mut i: usize = 0;
        while i < self.entries.len()
            invariant
                0 <= i <= self.entries@.len(),
                forall|j: int| 0 <= j < i ==> (#[trigger] self@[j]).0 != name@,
            decreases self.entries@.len() - i,
        {
            if crate::strutil::str_eq(self.entries[i].0.as_str(), name) {
                proof {
                    assert((self@[i as int]).0 == name@);
                }
                return true;
            }
            i = i + 1;
        }
        false
    }
}

impl LogicalPlan {
    /// The output schema of this plan.
    pub fn schema(&self) -> (r: Schema)
        ensures
            r@ == schema_of(self@),
        decreases *self,
    {
        match self {
            LogicalPlan::EmptyRelation { schema } => schema.clone_schema(),
            LogicalPlan::TableScan { schema, .. } => schema.clone_schema(),
            LogicalPlan::Filter { input, .. } => input.schema(),
            LogicalPlan::Projection { schema, .. } => schema.clone_schema(),
            LogicalPlan::Aggregate { schema, .. } => schema.clone_schema(),
            LogicalPlan::Sort { input, .. } => input.schema(),
            LogicalPlan::Limit { input, .. } => input.schema(),
            LogicalPlan::Union { schema, .. } => schema.clone_schema(),
            LogicalPlan::CreateExternalTable { schema, .. } => schema.clone_schema(),
            LogicalPlan::Explain { schema, .. } => schema.clone_schema(),
        }
    }

    /// The alias map this plan exposes to expression lowering.
    pub fn aliased_schema(&self) -> (r: AliasMap)
        ensures
            r@ == aliases_of(self@),
        decreases *self,
    {
        match self {
            LogicalPlan::TableScan { schema, alias, .. } => match alias {
                Some(a) => {
                    let mut entries: Vec<(String, Schema)> = Vec::new();
                    entries.push((a.clone(), schema.clone_schema()));
                    let r = AliasMap { entries };
                    proof {
                        assert(r@ =~= aliases_of(self@));
                    }
                    r
                },
                None => AliasMap::new(),
            },
            LogicalPlan::Union { schema, alias, .. } => match alias {
                Some(a) => {
                    let mut entries: Vec<(String, Schema)> = Vec::new();
                    entries.push((a.clone(), schema.clone_schema()));
                    let r = AliasMap { entries };
                    proof {
                        assert(r@ =~= aliases_of(self@));
                    }
                    r
                },
                None => AliasMap::new(),
            },
            LogicalPlan::Filter { input, .. } => input.aliased_schema(),
            LogicalPlan::Projection { input, .. } => input.aliased_schema(),
            LogicalPlan::Aggregate { input, .. } => input.aliased_schema(),
            LogicalPlan::Sort { input, .. } => input.aliased_schema(),
            LogicalPlan::Limit { input, .. } => input.aliased_schema(),
            _ => AliasMap::new(),
        }
    }
}

} // verus!

verus! {

// ---------------------------------------------------------------------------
// Rendering plans
// ---------------------------------------------------------------------------

/// Column indices of a scan projection, comma-separated.
pub open spec fn idx_join(s: Seq<usize>) -> Seq<char>
    decreases s,
{
    if s.len() == 0 {
        Seq::empty()
    } else if s.len() == 1 {
        dec_str(s[0] as nat)
    } else {
        idx_join(s.drop_last()) + ", "@ + dec_str(s.last() as nat)
    }
}

pub open spec fn proj_str(p: Option<Seq<usize>>) -> Seq<char> {
    match p {
        None => "None"@,
        Some(v) => "Some(["@ + idx_join(v) + "])"@,
    }
}

/// A rendered plan: one line per node, each child two spaces further in.
/// `prefix` is the indentation of the children of this node's line.
pub open spec fn fmt_plan(p: PlanS, prefix: Seq<char>) -> Seq<char>
    decreases p, 0int,
{
    match p {
        PlanS::EmptyRelation { .. } => "EmptyRelation"@,
        PlanS::TableScan { table_name, projection, .. } => "TableScan: "@ + table_name
            + " projection="@ + proj_str(projection),
        PlanS::Filter { predicate, input } => "Filter: "@ + expr_disp(predicate) + fmt_child(
            *input,
            prefix,
        ),
        PlanS::Projection { expr, input, .. } => "Projection: "@ + disp_join(expr) + fmt_child(
            *input,
            prefix,
        ),
        PlanS::Aggregate { group_expr, aggr_expr, input, .. } => "Aggregate: groupBy=[["@
            + disp_join(group_expr) + "]], aggr=[["@ + disp_join(aggr_expr) + "]]"@ + fmt_child(
            *input,
            prefix,
        ),
        PlanS::Sort { expr, input } => "Sort: "@ + disp_join(expr) + fmt_child(*input, prefix),
        PlanS::Limit { n, input } => "Limit: "@ + dec_str(n as nat) + fmt_child(*input, prefix),
        PlanS::Union { inputs, .. } => "Union"@ + fmt_children(inputs, prefix),
        PlanS::CreateExternalTable { name, .. } => "CreateExternalTable: \""@ + name + "\""@,
        PlanS::Explain { plan, .. } => "Explain"@ + fmt_child(*plan, prefix),
    }
}

/// A child plan on its own line, one step further in.
pub open spec fn fmt_child(p: PlanS, prefix: Seq<char>) -> Seq<char>
    decreases p, 1int,
{
    "\n"@ + prefix + "  "@ + fmt_plan(p, prefix + "  "@)
}

pub open spec fn fmt_children(s: Seq<PlanS>, prefix: Seq<char>) -> Seq<char>
    decreases s, 2int,
{
    if s.len() == 0 {
        Seq::empty()
    } else {
        fmt_children(s.drop_last(), prefix) + fmt_child(s.last(), prefix)
    }
}

fn format_projection(p: &Option<Vec<usize>>) -> (r: String)
    ensures
        r@ == proj_str(match p {
            Some(v) => Some(v@),
            None => None,
        }),
{
    match p {
        None => String::from_str("None"),
        Some(v) => {
            let mut s = String::from_str("Some([");
            let mut i: usize = 0;
            while i < v.len()
                invariant
                    0 <= i <= v@.len(),
                    s@ == "Some(["@ + idx_join(v@.take(i as int)),
                decreases v@.len() - i,
            {
                if i > 0 {
                    s.append(", ");
                }
                s.append(u64_to_string(v[i] as u64).as_str());
                proof {
                    assert(v@.take(i + 1).drop_last() =~= v@.take(i as int));
                    assert(v@.take(1) =~= seq![v@[0]]);
                    assert(s@ =~= "Some(["@ + idx_join(v@.take(i + 1)));
                }
                i = i + 1;
            }
            s.append("])");
            proof {
                assert(v@.take(v@.len() as int) =~= v@);
                assert(s@ =~= proj_str(Some(v@)));
            }
            s
        },
    }
}

/// Renders a plan tree as text, one node per line.
pub fn format_plan(p: &LogicalPlan) -> (r: String)
    ensures
        r@ == fmt_plan(p@, Seq::<char>::empty()),
{
    let prefix = String::new();
    fmt_plan_rec(p, &prefix)
}

fn fmt_plan_rec(p: &LogicalPlan, prefix: &String) -> (r: String)
    ensures
        r@ == fmt_plan(p@, prefix@),
    decreases *p, 0int,
{
    match p {
        LogicalPlan::EmptyRelation { .. } => String::from_str("EmptyRelation"),
        LogicalPlan::TableScan { table_name, projection, .. } => {
            let mut s = String::from_str("TableScan: ");
            s.append(table_name.as_str());
            s.append(" projection=");
            s.append(format_projection(projection).as_str());
            proof {
                assert(s@ =~= fmt_plan(p@, prefix@));
            }
            s
        },
        LogicalPlan::Filter { predicate, input } => {
            let mut s = String::from_str("Filter: ");
            s.append(expr_display(predicate).as_str());
            s.append(fmt_child_rec(input, prefix).as_str());
            proof {
                assert(s@ =~= fmt_plan(p@, prefix@));
            }
            s
        },
        LogicalPlan::Projection { expr, input, .. } => {
            let mut s = String::from_str("Projection: ");
            s.append(display_join(expr).as_str());
            s.append(fmt_child_rec(input, prefix).as_str());
            proof {
                assert(s@ =~= fmt_plan(p@, prefix@));
            }
            s
        },
        LogicalPlan::Aggregate { group_expr, aggr_expr, input, .. } => {
            let mut s = String::from_str("Aggregate: groupBy=[[");
            s.append(display_join(group_expr).as_str());
            s.append("]], aggr=[[");
            s.append(display_join(aggr_expr).as_str());
            s.append("]]");
            s.append(fmt_child_rec(input, prefix).as_str());
            proof {
                assert(s@ =~= fmt_plan(p@, prefix@));
            }
            s
        },
        LogicalPlan::Sort { expr, input } => {
            let mut s = String::from_str("Sort: ");
            s.append(display_join(expr).as_str());
            s.append(fmt_child_rec(input, prefix).as_str());
            proof {
                assert(s@ =~= fmt_plan(p@, prefix@));
            }
            s
        },
        LogicalPlan::Limit { n, input } => {
            let mut s = String::from_str("Limit: ");
            s.append(u64_to_string(*n as u64).as_str());
            s.append(fmt_child_rec(input, prefix).as_str());
            proof {
                assert(s@ =~= fmt_plan(p@, prefix@));
            }
            s
        },
        LogicalPlan::Union { inputs, .. } => {
            let mut s = String::from_str("Union");
            s.append(fmt_children_rec(inputs, prefix).as_str());
            proof {
                assert(s@ =~= fmt_plan(p@, prefix@));
            }
            s
        },
        LogicalPlan::CreateExternalTable { name, .. } => {
            let mut s = String::from_str("CreateExternalTable: \"");
            s.append(name.as_str());
            s.append("\"");
            proof {
                assert(s@ =~= fmt_plan(p@, prefix@));
            }
            s
        },
        LogicalPlan::Explain { plan, .. } => {
            let mut s = String::from_str("Explain");
            s.append(fmt_child_rec(plan, prefix).as_str());
            proof {
                assert(s@ =~= fmt_plan(p@, prefix@));
            }
            s
        },
    }
}

fn fmt_child_rec(p: &LogicalPlan, prefix: &String) -> (r: String)
    ensures
        r@ == fmt_child(p@, prefix@),
    decreases *p, 1int,
{
    let mut child_prefix = prefix.clone();
    child_prefix.append("  ");
    let mut s = String::from_str("\n");
    s.append(child_prefix.as_str());
    s.append(fmt_plan_rec(p, &child_prefix).as_str());
    proof {
        assert(s@ =~= fmt_child(p@, prefix@));
    }
    s
}

fn fmt_children_rec(v: &Vec<LogicalPlan>, prefix: &String) -> (r: String)
    ensures
        r@ == fmt_children(view_plans(v@), prefix@),
    decreases *v, 2int,
{
    let ghost vs = view_plans(v@);
    proof {
        lemma_view_plans_index(v@);
    }
    let mut s = String::new();
    let mut i: usize = 0;
    while i < v.len()
        invariant
            0 <= i <= v@.len(),
            vs == view_plans(v@),
            vs.len() == v@.len(),
            forall|j: int| 0 <= j < v@.len() ==> #[trigger] vs[j] == view_plan(v@[j]),
            s@ == fmt_children(vs.take(i as int), prefix@),
        decreases v@.len() - i,
    {
        s.append(fmt_child_rec(&v[i], prefix).as_str());
        proof {
            assert(vs.take(i + 1).drop_last() =~= vs.take(i as int));
            assert(vs.take(i + 1).last() == vs[i as int]);
        }
        i = i + 1;
    }
    proof {
        assert(vs.take(vs.len() as int) =~= vs);
    }
    s
}

} // verus!
