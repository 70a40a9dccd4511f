use vstd::prelude::*;
use crate::error::{PlanError, ErrKind};
use crate::types::{DataType, DataTypeS, data_type_str, data_type_string, clone_data_type};
use crate::strutil::{str_eq, int_str, dec_str, i64_to_string, u64_to_string};

verus! {

// ---------------------------------------------------------------------------
// Functions
// ---------------------------------------------------------------------------

/// A built-in scalar function.
#[derive(Clone, Copy, PartialEq, Eq, Structural, Debug)]
pub enum BuiltinScalarFunction {
    Sqrt,
    Sin,
    Cos,
    Tan,
    Asin,
    Acos,
    Atan,
    Exp,
    Log,
    Log2,
    Log10,
    Floor,
    Ceil,
    Round,
    Trunc,
    Abs,
    Signum,
    Length,
    Concat,
    Lower,
    Upper,
    Trim,
    Ltrim,
    Rtrim,
    If,
}

/// The name under which a built-in scalar function is found and printed.
pub open spec fn scalar_fun_str(f: BuiltinScalarFunction) -> Seq<char> {
    match f {
        BuiltinScalarFunction::Sqrt => "sqrt"@,
        BuiltinScalarFunction::Sin => "sin"@,
        BuiltinScalarFunction::Cos => "cos"@,
        BuiltinScalarFunction::Tan => "tan"@,
        BuiltinScalarFunction::Asin => "asin"@,
        BuiltinScalarFunction::Acos => "acos"@,
        BuiltinScalarFunction::Atan => "atan"@,
        BuiltinScalarFunction::Exp => "exp"@,
        BuiltinScalarFunction::Log => "log"@,
        BuiltinScalarFunction::Log2 => "log2"@,
        BuiltinScalarFunction::Log10 => "log10"@,
        BuiltinScalarFunction::Floor => "floor"@,
        BuiltinScalarFunction::Ceil => "ceil"@,
        BuiltinScalarFunction::Round => "round"@,
        BuiltinScalarFunction::Trunc => "trunc"@,
        BuiltinScalarFunction::Abs => "abs"@,
        BuiltinScalarFunction::Signum => "signum"@,
        BuiltinScalarFunction::Length => "length"@,
        BuiltinScalarFunction::Concat => "concat"@,
        BuiltinScalarFunction::Lower => "lower"@,
        BuiltinScalarFunction::Upper => "upper"@,
        BuiltinScalarFunction::Trim => "trim"@,
        BuiltinScalarFunction::Ltrim => "ltrim"@,
        BuiltinScalarFunction::Rtrim => "rtrim"@,
        BuiltinScalarFunction::If => "if"@,
    }
}

/// The built-in scalar function with the given (already lowercased) name.
pub open spec fn scalar_fun_of(name: Seq<char>) -> Option<BuiltinScalarFunction> {
    if name == "sqrt"@ {
        Some(BuiltinScalarFunction::Sqrt)
    } else if name == "sin"@ {
        Some(BuiltinScalarFunction::Sin)
    } else if name == "cos"@ {
        Some(BuiltinScalarFunction::Cos)
    } else if name == "tan"@ {
        Some(BuiltinScalarFunction::Tan)
    } else if name == "asin"@ {
        Some(BuiltinScalarFunction::Asin)
    } else if name == "acos"@ {
        Some(BuiltinScalarFunction::Acos)
    } else if name == "atan"@ {
        Some(BuiltinScalarFunction::Atan)
    } else if name == "exp"@ {
        Some(BuiltinScalarFunction::Exp)
    } else if name == "log"@ {
        Some(BuiltinScalarFunction::Log)
    } else if name == "log2"@ {
        Some(BuiltinScalarFunction::Log2)
    } else if name == "log10"@ {
        Some(BuiltinScalarFunction::Log10)
    } else if name == "floor"@ {
        Some(BuiltinScalarFunction::Floor)
    } else if name == "ceil"@ {
        Some(BuiltinScalarFunction::Ceil)
    } else if name == "round"@ {
        Some(BuiltinScalarFunction::Round)
    } else if name == "trunc"@ {
        Some(BuiltinScalarFunction::Trunc)
    } else if name == "abs"@ {
        Some(BuiltinScalarFunction::Abs)
    } else if name == "signum"@ {
        Some(BuiltinScalarFunction::Signum)
    } else if name == "length"@ {
        Some(BuiltinScalarFunction::Length)
    } else if name == "concat"@ {
        Some(BuiltinScalarFunction::Concat)
    } else if name == "lower"@ {
        Some(BuiltinScalarFunction::Lower)
    } else if name == "upper"@ {
        Some(BuiltinScalarFunction::Upper)
    } else if name == "trim"@ {
        Some(BuiltinScalarFunction::Trim)
    } else if name == "ltrim"@ {
        Some(BuiltinScalarFunction::Ltrim)
    } else if name == "rtrim"@ {
        Some(BuiltinScalarFunction::Rtrim)
    } else if name == "if"@ {
        Some(BuiltinScalarFunction::If)
    } else {
        None
    }
}

/// Looks up a built-in scalar function by its lowercased name.
pub fn scalar_fun_from_name(name: &str) -> (r: Option<BuiltinScalarFunction>)
    ensures
        r == scalar_fun_of(name@),
{
    if str_eq(name, "sqrt") {
        Some(BuiltinScalarFunction::Sqrt)
    } else if str_eq(name, "sin") {
        Some(BuiltinScalarFunction::Sin)
    } else if str_eq(name, "cos") {
        Some(BuiltinScalarFunction::Cos)
    } else if str_eq(name, "tan") {
        Some(BuiltinScalarFunction::Tan)
    } else if str_eq(name, "asin") {
        Some(BuiltinScalarFunction::Asin)
    } else if str_eq(name, "acos") {
        Some(BuiltinScalarFunction::Acos)
    } else if str_eq(name, "atan") {
        Some(BuiltinScalarFunction::Atan)
    } else if str_eq(name, "exp") {
        Some(BuiltinScalarFunction::Exp)
    } else if str_eq(name, "log") {
        Some(BuiltinScalarFunction::Log)
    } else if str_eq(name, "log2") {
        Some(BuiltinScalarFunction::Log2)
    } else if str_eq(name, "log10") {
        Some(BuiltinScalarFunction::Log10)
    } else if str_eq(name, "floor") {
        Some(BuiltinScalarFunction::Floor)
    } else if str_eq(name, "ceil") {
        Some(BuiltinScalarFunction::Ceil)
    } else if str_eq(name, "round") {
        Some(BuiltinScalarFunction::Round)
    } else if str_eq(name, "trunc") {
        Some(BuiltinScalarFunction::Trunc)
    } else if str_eq(name, "abs") {
        Some(BuiltinScalarFunction::Abs)
    } else if str_eq(name, "signum") {
        Some(BuiltinScalarFunction::Signum)
    } else if str_eq(name, "length") {
        Some(BuiltinScalarFunction::Length)
    } else if str_eq(name, "concat") {
        Some(BuiltinScalarFunction::Concat)
    } else if str_eq(name, "lower") {
        Some(BuiltinScalarFunction::Lower)
    } else if str_eq(name, "upper") {
        Some(BuiltinScalarFunction::Upper)
    } else if str_eq(name, "trim") {
        Some(BuiltinScalarFunction::Trim)
    } else if str_eq(name, "ltrim") {
        Some(BuiltinScalarFunction::Ltrim)
    } else if str_eq(name, "rtrim") {
        Some(BuiltinScalarFunction::Rtrim)
    } else if str_eq(name, "if") {
        Some(BuiltinScalarFunction::If)
    } else {
        None
    }
}

fn scalar_fun_string(f: BuiltinScalarFunction) -> (r: &'static str)
    ensures
        r@ == scalar_fun_str(f),
{
    match f {
        BuiltinScalarFunction::Sqrt => "sqrt",
        BuiltinScalarFunction::Sin => "sin",
        BuiltinScalarFunction::Cos => "cos",
        BuiltinScalarFunction::Tan => "tan",
        BuiltinScalarFunction::Asin => "asin",
        BuiltinScalarFunction::Acos => "acos",
        BuiltinScalarFunction::Atan => "atan",
        BuiltinScalarFunction::Exp => "exp",
        BuiltinScalarFunction::Log => "log",
        BuiltinScalarFunction::Log2 => "log2",
        BuiltinScalarFunction::Log10 => "log10",
        BuiltinScalarFunction::Floor => "floor",
        BuiltinScalarFunction::Ceil => "ceil",
        BuiltinScalarFunction::Round => "round",
        BuiltinScalarFunction::Trunc => "trunc",
        BuiltinScalarFunction::Abs => "abs",
        BuiltinScalarFunction::Signum => "signum",
        BuiltinScalarFunction::Length => "length",
        BuiltinScalarFunction::Concat => "concat",
        BuiltinScalarFunction::Lower => "lower",
        BuiltinScalarFunction::Upper => "upper",
        BuiltinScalarFunction::Trim => "trim",
        BuiltinScalarFunction::Ltrim => "ltrim",
        BuiltinScalarFunction::Rtrim => "rtrim",
        BuiltinScalarFunction::If => "if",
    }
}

/// A built-in aggregate function.
#[derive(Clone, Copy, PartialEq, Eq, Structural, Debug)]
pub enum AggregateFunction {
    Min,
    Max,
    Sum,
    Avg,
    Count,
}

/// The name under which a built-in aggregate function is printed.
pub open spec fn aggregate_fun_str(f: AggregateFunction) -> Seq<char> {
    match f {
        AggregateFunction::Min => "MIN"@,
        AggregateFunction::Max => "MAX"@,
        AggregateFunction::Sum => "SUM"@,
        AggregateFunction::Avg => "AVG"@,
        AggregateFunction::Count => "COUNT"@,
    }
}

/// The built-in aggregate function with the given (already lowercased) name.
pub open spec fn aggregate_fun_of(name: Seq<char>) -> Option<AggregateFunction> {
    if name == "min"@ {
        Some(AggregateFunction::Min)
    } else if name == "max"@ {
        Some(AggregateFunction::Max)
    } else if name == "sum"@ {
        Some(AggregateFunction::Sum)
    } else if name == "avg"@ {
        Some(AggregateFunction::Avg)
    } else if name == "count"@ {
        Some(AggregateFunction::Count)
    } else {
        None
    }
}

/// Looks up a built-in aggregate function by its lowercased name.
pub fn aggregate_fun_from_name(name: &str) -> (r: Option<AggregateFunction>)
    ensures
        r == aggregate_fun_of(name@),
{
    if str_eq(name, "min") {
        Some(AggregateFunction::Min)
    } else if str_eq(name, "max") {
        Some(AggregateFunction::Max)
    } else if str_eq(name, "sum") {
        Some(AggregateFunction::Sum)
    } else if str_eq(name, "avg") {
        Some(AggregateFunction::Avg)
    } else if str_eq(name, "count") {
        Some(AggregateFunction::Count)
    } else {
        None
    }
}

fn aggregate_fun_string(f: AggregateFunction) -> (r: &'static str)
    ensures
        r@ == aggregate_fun_str(f),
{
    match f {
        AggregateFunction::Min => "MIN",
        AggregateFunction::Max => "MAX",
        AggregateFunction::Sum => "SUM",
        AggregateFunction::Avg => "AVG",
        AggregateFunction::Count => "COUNT",
    }
}

/// The descriptor of a user-defined scalar function: only its name matters to
/// the translator.
#[derive(Debug)]
pub struct ScalarUdf {
    pub name: String,
}

/// The descriptor of a user-defined aggregate function.
#[derive(Debug)]
pub struct AggregateUdf {
    pub name: String,
}

// ---------------------------------------------------------------------------
// Scalar values
// ---------------------------------------------------------------------------

/// A literal value. A floating-point literal keeps its decimal text: the
/// engine's numeric value is out of scope here, and the text is what naming
/// and formatting consume.
#[derive(Debug)]
pub enum ScalarValue {
    Boolean(bool),
    Int64(i64),
    UInt8(u8),
    Utf8(String),
    Float64(String),
}

/// The mathematical model of a `ScalarValue`.
pub enum ScalarValueS {
    Boolean(bool),
    Int64(i64),
    UInt8(u8),
    Utf8(Seq<char>),
    Float64(Seq<char>),
}

impl View for ScalarValue {
    type V = ScalarValueS;

    open spec fn view(&self) -> ScalarValueS {
        match self {
            ScalarValue::Boolean(b) => ScalarValueS::Boolean(*b),
            ScalarValue::Int64(n) => ScalarValueS::Int64(*n),
            ScalarValue::UInt8(n) => ScalarValueS::UInt8(*n),
            ScalarValue::Utf8(s) => ScalarValueS::Utf8(s@),
            ScalarValue::Float64(s) => ScalarValueS::Float64(s@),
        }
    }
}

/// How a literal is printed, both in names and in rendered plans.
pub open spec fn scalar_str(v: ScalarValueS) -> Seq<char> {
    match v {
        ScalarValueS::Boolean(b) => "Boolean("@ + (if b {
            "true"@
        } else {
            "false"@
        }) + ")"@,
        ScalarValueS::Int64(n) => "Int64("@ + int_str(n as int) + ")"@,
        ScalarValueS::UInt8(n) => "UInt8("@ + dec_str(n as nat) + ")"@,
        ScalarValueS::Utf8(s) => "Utf8(\""@ + s + "\")"@,
        ScalarValueS::Float64(s) => "Float64("@ + s + ")"@,
    }
}

/// Renders a literal.
pub fn scalar_to_string(v: &ScalarValue) -> (r: String)
    ensures
        r@ == scalar_str(v@),
{
    match v {
        ScalarValue::Boolean(b) => {
            let mut s = String::from_str("Boolean(");
            s.append(if *b {
                "true"
            } else {
                "false"
            });
            s.append(")");
            proof {
                assert(s@ =~= scalar_str(v@));
            }
            s
        },
        ScalarValue::Int64(n) => {
            let mut s = String::from_str("Int64(");
            s.append(i64_to_string(*n).as_str());
            s.append(")");
            proof {
                assert(s@ =~= scalar_str(v@));
            }
            s
        },
        ScalarValue::UInt8(n) => {
            let mut s = String::from_str("UInt8(");
            s.append(u64_to_string(*n as u64).as_str());
            s.append(")");
            proof {
                assert(s@ =~= scalar_str(v@));
            }
            s
        },
        ScalarValue::Utf8(text) => {
            let mut s = String::from_str("Utf8(\"");
            s.append(text.as_str());
            s.append("\")");
            proof {
                assert(s@ =~= scalar_str(v@));
            }
            s
        },
        ScalarValue::Float64(text) => {
            let mut s = String::from_str("Float64(");
            s.append(text.as_str());
            s.append(")");
            proof {
                assert(s@ =~= scalar_str(v@));
            }
            s
        },
    }
}

pub fn clone_scalar(v: &ScalarValue) -> (r: ScalarValue)
    ensures
        r@ == v@,
{
    match v {
        ScalarValue::Boolean(b) => ScalarValue::Boolean(*b),
        ScalarValue::Int64(n) => ScalarValue::Int64(*n),
        ScalarValue::UInt8(n) => ScalarValue::UInt8(*n),
        ScalarValue::Utf8(s) => ScalarValue::Utf8(s.clone()),
        ScalarValue::Float64(s) => ScalarValue::Float64(s.clone()),
    }
}

// ---------------------------------------------------------------------------
// Operators
// ---------------------------------------------------------------------------

#[derive(Clone, Copy, PartialEq, Eq, Structural, Debug)]
pub enum Operator {
    Eq,
    NotEq,
    Lt,
    LtEq,
    Gt,
    GtEq,
    Plus,
    Minus,
    Multiply,
    Divide,
    Modulus,
    And,
    Or,
    Like,
    NotLike,
}

/// How an operator is printed, both in names and in rendered plans.
pub open spec fn operator_str(op: Operator) -> Seq<char> {
    match op {
        Operator::Eq => "Eq"@,
        Operator::NotEq => "NotEq"@,
        Operator::Lt => "Lt"@,
        Operator::LtEq => "LtEq"@,
        Operator::Gt => "Gt"@,
        Operator::GtEq => "GtEq"@,
        Operator::Plus => "Plus"@,
        Operator::Minus => "Minus"@,
        Operator::Multiply => "Multiply"@,
        Operator::Divide => "Divide"@,
        Operator::Modulus => "Modulus"@,
        Operator::And => "And"@,
        Operator::Or => "Or"@,
        Operator::Like => "Like"@,
        Operator::NotLike => "NotLike"@,
    }
}

fn operator_string(op: Operator) -> (r: &'static str)
    ensures
        r@ == operator_str(op),
{
    match op {
        Operator::Eq => "Eq",
        Operator::NotEq => "NotEq",
        Operator::Lt => "Lt",
        Operator::LtEq => "LtEq",
        Operator::Gt => "Gt",
        Operator::GtEq => "GtEq",
        Operator::Plus => "Plus",
        Operator::Minus => "Minus",
        Operator::Multiply => "Multiply",
        Operator::Divide => "Divide",
        Operator::Modulus => "Modulus",
        Operator::And => "And",
        Operator::Or => "Or",
        Operator::Like => "Like",
        Operator::NotLike => "NotLike",
    }
}

// ---------------------------------------------------------------------------
// Relational expressions
// ---------------------------------------------------------------------------

/// A relational scalar expression: the contents of projections, predicates,
/// group keys and sort keys.
#[derive(Debug)]
pub enum Expr {
    Alias(Box<Expr>, String),
    Column(String),
    ScalarVariable(Vec<String>),
    Literal(ScalarValue),
    BinaryExpr { left: Box<Expr>, op: Operator, right: Box<Expr> },
    Not(Box<Expr>),
    IsNotNull(Box<Expr>),
    IsNull(Box<Expr>),
    Cast { expr: Box<Expr>, data_type: DataType },
    Sort { expr: Box<Expr>, asc: bool, nulls_first: bool },
    ScalarFunction { fun: BuiltinScalarFunction, args: Vec<Expr> },
    AggregateFunction { fun: AggregateFunction, distinct: bool, args: Vec<Expr> },
    ScalarUDF { fun: ScalarUdf, args: Vec<Expr> },
    AggregateUDF { fun: AggregateUdf, args: Vec<Expr> },
    Wildcard,
}

/// The mathematical model of an `Expr`.
#[verifier::ext_equal]
pub enum ExprS {
    Alias(Box<ExprS>, Seq<char>),
    Column(Seq<char>),
    ScalarVariable(Seq<Seq<char>>),
    Literal(ScalarValueS),
    BinaryExpr { left: Box<ExprS>, op: Operator, right: Box<ExprS> },
    Not(Box<ExprS>),
    IsNotNull(Box<ExprS>),
    IsNull(Box<ExprS>),
    Cast { expr: Box<ExprS>, data_type: DataTypeS },
    Sort { expr: Box<ExprS>, asc: bool, nulls_first: bool },
    ScalarFunction { fun: BuiltinScalarFunction, args: Seq<ExprS> },
    AggregateFunction { fun: AggregateFunction, distinct: bool, args: Seq<ExprS> },
    ScalarUDF { fun: Seq<char>, args: Seq<ExprS> },
    AggregateUDF { fun: Seq<char>, args: Seq<ExprS> },
    Wildcard,
}

pub open spec fn view_expr(e: Expr) -> ExprS
    decreases e,
{
    match e {
        Expr::Alias(inner, a) => ExprS::Alias(Box::new(view_expr(*inner)), a@),
        Expr::Column(c) => ExprS::Column(c@),
        Expr::ScalarVariable(parts) => ExprS::ScalarVariable(parts@.map_values(|p: String| p@)),
        Expr::Literal(v) => ExprS::Literal(v@),
        Expr::BinaryExpr { left, op, right } => ExprS::BinaryExpr {
            left: Box::new(view_expr(*left)),
            op,
            right: Box::new(view_expr(*right)),
        },
        Expr::Not(inner) => ExprS::Not(Box::new(view_expr(*inner))),
        Expr::IsNotNull(inner) => ExprS::IsNotNull(Box::new(view_expr(*inner))),
        Expr::IsNull(inner) => ExprS::IsNull(Box::new(view_expr(*inner))),
        Expr::Cast { expr, data_type } => ExprS::Cast {
            expr: Box::new(view_expr(*expr)),
            data_type: data_type@,
        },
        Expr::Sort { expr, asc, nulls_first } => ExprS::Sort {
            expr: Box::new(view_expr(*expr)),
            asc,
            nulls_first,
        },
        Expr::ScalarFunction { fun, args } => ExprS::ScalarFunction {
            fun,
            args: view_exprs(args@),
        },
        Expr::AggregateFunction { fun, distinct, args } => ExprS::AggregateFunction {
            fun,
            distinct,
            args: view_exprs(args@),
        },
        Expr::ScalarUDF { fun, args } => ExprS::ScalarUDF {
            fun: fun.name@,
            args: view_exprs(args@),
        },
        Expr::AggregateUDF { fun, args } => ExprS::AggregateUDF {
            fun: fun.name@,
            args: view_exprs(args@),
        },
        Expr::Wildcard => ExprS::Wildcard,
    }
}

pub open spec fn view_exprs(s: Seq<Expr>) -> Seq<ExprS>
    decreases s,
{
    if s.len() == 0 {
        Seq::empty()
    } else {
        view_exprs(s.drop_last()).push(view_expr(s.last()))
    }
}

impl View for Expr {
    type V = ExprS;

    open spec fn view(&self) -> ExprS {
        view_expr(*self)
    }
}

/// Index form of `view_exprs`: the model of a list is the list of models.
pub proof fn lemma_view_exprs_index(s: Seq<Expr>)
    ensures
        view_exprs(s).len() == s.len(),
        forall|i: int| 0 <= i < s.len() ==> #[trigger] view_exprs(s)[i] == view_expr(s[i]),
    decreases s,
{
    if s.len() > 0 {
        lemma_view_exprs_index(s.drop_last());
        assert forall|i: int| 0 <= i < s.len() implies #[trigger] view_exprs(s)[i] == view_expr(
            s[i],
        ) by {
            if i < s.len() - 1 {
                assert(s.drop_last()[i] == s[i]);
            }
        }
    }
}

/// Deep clone of an expression; the clone has the same model.
pub fn clone_expr(e: &Expr) -> (r: Expr)
    ensures
        r@ == e@,
    decreases *e,
{
    match e {
        Expr::Alias(inner, a) => Expr::Alias(Box::new(clone_expr(inner)), a.clone()),
        Expr::Column(c) => Expr::Column(c.clone()),
        Expr::ScalarVariable(parts) => {
            let mut ps: Vec<String> = Vec::new();
            let mut i: usize = 0;
            while i < parts.len()
                invariant
                    0 <= i <= parts@.len(),
                    ps@.len() == i,
                    forall|j: int| 0 <= j < i ==> (#[trigger] ps@[j])@ == parts@[j]@,
                decreases parts@.len() - i,
            {
                ps.push(parts[i].clone());
                i = i + 1;
            }
            proof {
                assert(ps@.map_values(|p: String| p@) =~= parts@.map_values(|p: String| p@));
            }
            Expr::ScalarVariable(ps)
        },
        Expr::Literal(v) => Expr::Literal(clone_scalar(v)),
        Expr::BinaryExpr { left, op, right } => Expr::BinaryExpr {
            left: Box::new(clone_expr(left)),
            op: *op,
            right: Box::new(clone_expr(right)),
        },
        Expr::Not(inner) => Expr::Not(Box::new(clone_expr(inner))),
        Expr::IsNotNull(inner) => Expr::IsNotNull(Box::new(clone_expr(inner))),
        Expr::IsNull(inner) => Expr::IsNull(Box::new(clone_expr(inner))),
        Expr::Cast { expr, data_type } => Expr::Cast {
            expr: Box::new(clone_expr(expr)),
            data_type: clone_data_type(data_type),
        },
        Expr::Sort { expr, asc, nulls_first } => Expr::Sort {
            expr: Box::new(clone_expr(expr)),
            asc: *asc,
            nulls_first: *nulls_first,
        },
        Expr::ScalarFunction { fun, args } => Expr::ScalarFunction {
            fun: *fun,
            args: clone_exprs(args),
        },
        Expr::AggregateFunction { fun, distinct, args } => Expr::AggregateFunction {
            fun: *fun,
            distinct: *distinct,
            args: clone_exprs(args),
        },
        Expr::ScalarUDF { fun, args } => Expr::ScalarUDF {
            fun: ScalarUdf { name: fun.name.clone() },
            args: clone_exprs(args),
        },
        Expr::AggregateUDF { fun, args } => Expr::AggregateUDF {
            fun: AggregateUdf { name: fun.name.clone() },
            args: clone_exprs(args),
        },
        Expr::Wildcard => Expr::Wildcard,
    }
}

/// Deep clone of an expression list.
pub fn clone_exprs(v: &Vec<Expr>) -> (r: Vec<Expr>)
    ensures
        view_exprs(r@) == view_exprs(v@),
    decreases v,
{
    let mut r: Vec<Expr> = Vec::new();
    let mut i: usize = 0;
    while i < v.len()
        invariant
            0 <= i <= v@.len(),
            r@.len() == i,
            forall|j: int| 0 <= j < i ==> view_expr(#[trigger] r@[j]) == view_expr(v@[j]),
        decreases v@.len() - i,
    {
        let c = clone_expr(&v[i]);
        r.push(c);
        i = i + 1;
    }
    proof {
        lemma_view_exprs_index(r@);
        lemma_view_exprs_index(v@);
        assert(view_exprs(r@) =~= view_exprs(v@));
    }
    r
}

} // verus!

verus! {

// ---------------------------------------------------------------------------
// Expression naming and rendering
// ---------------------------------------------------------------------------

/// Compound identifier parts joined by dots.
pub open spec fn parts_join(s: Seq<Seq<char>>) -> Seq<char>
    decreases s,
{
    if s.len() == 0 {
        Seq::empty()
    } else if s.len() == 1 {
        s[0]
    } else {
        parts_join(s.drop_last()) + "."@ + s.last()
    }
}

/// The computed name of an expression: the deterministic textual identifier
/// that drives aggregate deduplication, the GROUP BY consistency check and
/// schema field naming. `None` for shapes that have no name (a wildcard, a
/// sort key).
pub open spec fn expr_name_s(e: ExprS) -> Option<Seq<char>>
    decreases e,
{
    match e {
        ExprS::Alias(_, a) => Some(a),
        ExprS::Column(c) => Some(c),
        ExprS::ScalarVariable(parts) => Some(parts_join(parts)),
        ExprS::Literal(v) => Some(scalar_str(v)),
        ExprS::BinaryExpr { left, op, right } => match (expr_name_s(*left), expr_name_s(*right)) {
            (Some(l), Some(r)) => Some(l + " "@ + operator_str(op) + " "@ + r),
            _ => None,
        },
        ExprS::Not(x) => match expr_name_s(*x) {
            Some(n) => Some("NOT "@ + n),
            None => None,
        },
        ExprS::IsNotNull(x) => match expr_name_s(*x) {
            Some(n) => Some(n + " IS NOT NULL"@),
            None => None,
        },
        ExprS::IsNull(x) => match expr_name_s(*x) {
            Some(n) => Some(n + " IS NULL"@),
            None => None,
        },
        ExprS::Cast { expr, data_type } => match expr_name_s(*expr) {
            Some(n) => Some("CAST("@ + n + " AS "@ + data_type_str(data_type) + ")"@),
            None => None,
        },
        ExprS::Sort { .. } => None,
        ExprS::ScalarFunction { fun, args } => match name_join(args) {
            Some(a) => Some(scalar_fun_str(fun) + "("@ + a + ")"@),
            None => None,
        },
        ExprS::AggregateFunction { fun, distinct, args } => match name_join(args) {
            Some(a) => Some(aggregate_fun_str(fun) + "("@ + a + ")"@),
            None => None,
        },
        ExprS::ScalarUDF { fun, args } => match name_join(args) {
            Some(a) => Some(fun + "("@ + a + ")"@),
            None => None,
        },
        ExprS::AggregateUDF { fun, args } => match name_join(args) {
            Some(a) => Some(fun + "("@ + a + ")"@),
            None => None,
        },
        ExprS::Wildcard => None,
    }
}

/// Argument names joined by `, `; `None` as soon as one argument is nameless.
pub open spec fn name_join(s: Seq<ExprS>) -> Option<Seq<char>>
    decreases s,
{
    if s.len() == 0 {
        Some(Seq::empty())
    } else if s.len() == 1 {
        expr_name_s(s[0])
    } else {
        match (name_join(s.drop_last()), expr_name_s(s.last())) {
            (Some(a), Some(n)) => Some(a + ", "@ + n),
            _ => None,
        }
    }
}

/// How an expression is printed inside a rendered plan: like its name, but
/// with a `#` before each column reference, and total.
pub open spec fn expr_disp(e: ExprS) -> Seq<char>
    decreases e,
{
    match e {
        ExprS::Alias(x, a) => expr_disp(*x) + " AS "@ + a,
        ExprS::Column(c) => "#"@ + c,
        ExprS::ScalarVariable(parts) => parts_join(parts),
        ExprS::Literal(v) => scalar_str(v),
        ExprS::BinaryExpr { left, op, right } => expr_disp(*left) + " "@ + operator_str(op) + " "@
            + expr_disp(*right),
        ExprS::Not(x) => "NOT "@ + expr_disp(*x),
        ExprS::IsNotNull(x) => expr_disp(*x) + " IS NOT NULL"@,
        ExprS::IsNull(x) => expr_disp(*x) + " IS NULL"@,
        ExprS::Cast { expr, data_type } => "CAST("@ + expr_disp(*expr) + " AS "@ + data_type_str(
            data_type,
        ) + ")"@,
        ExprS::Sort { expr, asc, nulls_first } => expr_disp(*expr) + (if asc {
            " ASC"@
        } else {
            " DESC"@
        }) + (if nulls_first {
            " NULLS FIRST"@
        } else {
            " NULLS LAST"@
        }),
        ExprS::ScalarFunction { fun, args } => scalar_fun_str(fun) + "("@ + disp_join(args) + ")"@,
        ExprS::AggregateFunction { fun, distinct, args } => aggregate_fun_str(fun) + "("@
            + disp_join(args) + ")"@,
        ExprS::ScalarUDF { fun, args } => fun + "("@ + disp_join(args) + ")"@,
        ExprS::AggregateUDF { fun, args } => fun + "("@ + disp_join(args) + ")"@,
        ExprS::Wildcard => "*"@,
    }
}

/// Rendered arguments joined by `, `.
pub open spec fn disp_join(s: Seq<ExprS>) -> Seq<char>
    decreases s,
{
    if s.len() == 0 {
        Seq::empty()
    } else if s.len() == 1 {
        expr_disp(s[0])
    } else {
        disp_join(s.drop_last()) + ", "@ + expr_disp(s.last())
    }
}

fn join_parts(parts: &Vec<String>) -> (r: String)
    ensures
        r@ == parts_join(parts@.map_values(|p: String| p@)),
{
    let ghost ps = parts@.map_values(|p: String| p@);
    let mut s = String::new();
    let mut i: usize = 0;
    while i < parts.len()
        invariant
            0 <= i <= parts@.len(),
            ps == parts@.map_values(|p: String| p@),
            s@ == parts_join(ps.take(i as int)),
        decreases parts@.len() - i,
    {
        if i > 0 {
            s.append(".");
        }
        s.append(parts[i].as_str());
        proof {
            reveal_strlit(".");
            assert(ps.take(i + 1).drop_last() =~= ps.take(i as int));
            assert(ps.take(i + 1).last() == ps[i as int]);
            assert(ps.take(1) =~= seq![ps[0]]);
        }
        i = i + 1;
    }
    proof {
        assert(ps.take(ps.len() as int) =~= ps);
    }
    s
}

/// Renders an expression as it appears inside a plan line.
pub fn expr_display(e: &Expr) -> (r: String)
    ensures
        r@ == expr_disp(e@),
    decreases *e,
{
    match e {
        Expr::Alias(x, a) => {
            let mut s = expr_display(x);
            s.append(" AS ");
            s.append(a.as_str());
            proof {
                assert(s@ =~= expr_disp(e@));
            }
            s
        },
        Expr::Column(c) => {
            let mut s = String::from_str("#");
            s.append(c.as_str());
            proof {
                assert(s@ =~= expr_disp(e@));
            }
            s
        },
        Expr::ScalarVariable(parts) => join_parts(parts),
        Expr::Literal(v) => scalar_to_string(v),
        Expr::BinaryExpr { left, op, right } => {
            let mut s = expr_display(left);
            s.append(" ");
            s.append(operator_string(*op));
            s.append(" ");
            s.append(expr_display(right).as_str());
            proof {
                assert(s@ =~= expr_disp(e@));
            }
            s
        },
        Expr::Not(x) => {
            let mut s = String::from_str("NOT ");
            s.append(expr_display(x).as_str());
            proof {
                assert(s@ =~= expr_disp(e@));
            }
            s
        },
        Expr::IsNotNull(x) => {
            let mut s = expr_display(x);
            s.append(" IS NOT NULL");
            proof {
                assert(s@ =~= expr_disp(e@));
            }
            s
        },
        Expr::IsNull(x) => {
            let mut s = expr_display(x);
            s.append(" IS NULL");
            proof {
                assert(s@ =~= expr_disp(e@));
            }
            s
        },
        Expr::Cast { expr, data_type } => {
            let mut s = String::from_str("CAST(");
            s.append(expr_display(expr).as_str());
            s.append(" AS ");
            s.append(data_type_string(data_type).as_str());
            s.append(")");
            proof {
                assert(s@ =~= expr_disp(e@));
            }
            s
        },
        Expr::Sort { expr, asc, nulls_first } => {
            let mut s = expr_display(expr);
            s.append(if *asc {
                " ASC"
            } else {
                " DESC"
            });
            s.append(if *nulls_first {
                " NULLS FIRST"
            } else {
                " NULLS LAST"
            });
            proof {
                assert(s@ =~= expr_disp(e@));
            }
            s
        },
        Expr::ScalarFunction { fun, args } => {
            let mut s = String::from_str(scalar_fun_string(*fun));
            s.append("(");
            s.append(display_join(args).as_str());
            s.append(")");
            proof {
                assert(s@ =~= expr_disp(e@));
            }
            s
        },
        Expr::AggregateFunction { fun, distinct, args } => {
            let mut s = String::from_str(aggregate_fun_string(*fun));
            s.append("(");
            s.append(display_join(args).as_str());
            s.append(")");
            proof {
                assert(s@ =~= expr_disp(e@));
            }
            s
        },
        Expr::ScalarUDF { fun, args } => {
            let mut s = fun.name.clone();
            s.append("(");
            s.append(display_join(args).as_str());
            s.append(")");
            proof {
                assert(s@ =~= expr_disp(e@));
            }
            s
        },
        Expr::AggregateUDF { fun, args } => {
            let mut s = fun.name.clone();
            s.append("(");
            s.append(display_join(args).as_str());
            s.append(")");
            proof {
                assert(s@ =~= expr_disp(e@));
            }
            s
        },
        Expr::Wildcard => String::from_str("*"),
    }
}

/// Renders an argument list, comma-separated.
pub fn display_join(v: &Vec<Expr>) -> (r: String)
    ensures
        r@ == disp_join(view_exprs(v@)),
    decreases *v,
{
    let ghost vs = view_exprs(v@);
    proof {
        lemma_view_exprs_index(v@);
    }
    let mut s = String::new();
    let mut i: usize = 0;
    while i < v.len()
        invariant
            0 <= i <= v@.len(),
            vs == view_exprs(v@),
            vs.len() == v@.len(),
            forall|j: int| 0 <= j < v@.len() ==> #[trigger] vs[j] == view_expr(v@[j]),
            s@ == disp_join(vs.take(i as int)),
        decreases v@.len() - i,
    {
        if i > 0 {
            s.append(", ");
        }
        s.append(expr_display(&v[i]).as_str());
        proof {
            assert(vs.take(i + 1).drop_last() =~= vs.take(i as int));
            assert(vs.take(i + 1).last() == vs[i as int]);
            assert(vs.take(1) =~= seq![vs[0]]);
        }
        i = i + 1;
    }
    proof {
        assert(vs.take(vs.len() as int) =~= vs);
    }
    s
}

fn nameless_error() -> (r: PlanError)
    ensures
        r.kind() == ErrKind::Internal,
{
    PlanError::Internal(String::from_str("Cannot derive a name for the expression"))
}

/// Computes the name of an expression, or fails for a nameless shape.
pub fn expr_name_of(e: &Expr) -> (r: Result<String, PlanError>)
    ensures
        (match r {
            Ok(n) => expr_name_s(e@) == Some(n@),
            Err(err) => expr_name_s(e@) is None && err.kind() == ErrKind::Internal,
        }),
    decreases *e,
{
    match e {
        Expr::Alias(_, a) => Ok(a.clone()),
        Expr::Column(c) => Ok(c.clone()),
        Expr::ScalarVariable(parts) => Ok(join_parts(parts)),
        Expr::Literal(v) => Ok(scalar_to_string(v)),
        Expr::BinaryExpr { left, op, right } => {
            let l = expr_name_of(left)?;
            let r = expr_name_of(right)?;
            let mut s = l;
            s.append(" ");
            s.append(operator_string(*op));
            s.append(" ");
            s.append(r.as_str());
            proof {
                assert(expr_name_s(e@) == Some(s@)) by {
                    assert(s@ =~= expr_name_s(e@)->Some_0);
                }
            }
            Ok(s)
        },
        Expr::Not(x) => {
            let n = expr_name_of(x)?;
            let mut s = String::from_str("NOT ");
            s.append(n.as_str());
            proof {
                assert(s@ =~= expr_name_s(e@)->Some_0);
            }
            Ok(s)
        },
        Expr::IsNotNull(x) => {
            let mut s = expr_name_of(x)?;
            s.append(" IS NOT NULL");
            proof {
                assert(s@ =~= expr_name_s(e@)->Some_0);
            }
            Ok(s)
        },
        Expr::IsNull(x) => {
            let mut s = expr_name_of(x)?;
            s.append(" IS NULL");
            proof {
                assert(s@ =~= expr_name_s(e@)->Some_0);
            }
            Ok(s)
        },
        Expr::Cast { expr, data_type } => {
            let n = expr_name_of(expr)?;
            let mut s = String::from_str("CAST(");
            s.append(n.as_str());
            s.append(" AS ");
            s.append(data_type_string(data_type).as_str());
            s.append(")");
            proof {
                assert(s@ =~= expr_name_s(e@)->Some_0);
            }
            Ok(s)
        },
        Expr::Sort { .. } => Err(nameless_error()),
        Expr::ScalarFunction { fun, args } => {
            let a = name_join_of(args)?;
            let mut s = String::from_str(scalar_fun_string(*fun));
            s.append("(");
            s.append(a.as_str());
            s.append(")");
            proof {
                assert(s@ =~= expr_name_s(e@)->Some_0);
            }
            Ok(s)
        },
        Expr::AggregateFunction { fun, distinct, args } => {
            let a = name_join_of(args)?;
            let mut s = String::from_str(aggregate_fun_string(*fun));
            s.append("(");
            s.append(a.as_str());
            s.append(")");
            proof {
                assert(s@ =~= expr_name_s(e@)->Some_0);
            }
            Ok(s)
        },
        Expr::ScalarUDF { fun, args } => {
            let a = name_join_of(args)?;
            let mut s = fun.name.clone();
            s.append("(");
            s.append(a.as_str());
            s.append(")");
            proof {
                assert(s@ =~= expr_name_s(e@)->Some_0);
            }
            Ok(s)
        },
        Expr::AggregateUDF { fun, args } => {
            let a = name_join_of(args)?;
            let mut s = fun.name.clone();
            s.append("(");
            s.append(a.as_str());
            s.append(")");
            proof {
                assert(s@ =~= expr_name_s(e@)->Some_0);
            }
            Ok(s)
        },
        Expr::Wildcard => Err(nameless_error()),
    }
}

/// Computes the comma-joined names of an argument list.
fn name_join_of(v: &Vec<Expr>) -> (r: Result<String, PlanError>)
    ensures
        (match r {
            Ok(n) => name_join(view_exprs(v@)) == Some(n@),
            Err(err) => name_join(view_exprs(v@)) is None && err.kind() == ErrKind::Internal,
        }),
    decreases *v,
{
    let ghost vs = view_exprs(v@);
    proof {
        lemma_view_exprs_index(v@);
    }
    let mut s = String::new();
    let mut i: usize = 0;
    while i < v.len()
        invariant
            0 <= i <= v@.len(),
            vs == view_exprs(v@),
            vs.len() == v@.len(),
            forall|j: int| 0 <= j < v@.len() ==> #[trigger] vs[j] == view_expr(v@[j]),
            name_join(vs.take(i as int)) == Some(s@),
        decreases v@.len() - i,
    {
        if i > 0 {
            s.append(", ");
        }
        let n = expr_name_of(&v[i]);
        proof {
            assert(vs.take(i + 1).drop_last() =~= vs.take(i as int));
            assert(vs.take(i + 1).last() == vs[i as int]);
            assert(vs.take(1) =~= seq![vs[0]]);
        }
        match n {
            Ok(n) => {
                s.append(n.as_str());
            },
            Err(err) => {
                proof {
                    lemma_name_join_none(vs, i as int);
                }
                return Err(err);
            },
        }
        i = i + 1;
    }
    proof {
        assert(vs.take(vs.len() as int) =~= vs);
    }
    Ok(s)
}

/// A nameless argument makes the whole argument list nameless.
proof fn lemma_name_join_none(s: Seq<ExprS>, i: int)
    requires
        0 <= i < s.len(),
        expr_name_s(s[i]) is None,
    ensures
        name_join(s) is None,
    decreases s,
{
    if s.len() == 1 {
    } else if i == s.len() - 1 {
    } else {
        assert(s.drop_last()[i] == s[i]);
        lemma_name_join_none(s.drop_last(), i);
    }
}

} // verus!

verus! {

// ---------------------------------------------------------------------------
// Aggregate analysis
// ---------------------------------------------------------------------------

/// Whether the expression tree holds an aggregate function, looking through
/// aliases, binary expressions and built-in scalar function arguments only.
/// Other shapes count as non-aggregate at this layer.
pub open spec fn is_aggregate_s(e: ExprS) -> bool
    decreases e,
{
    match e {
        ExprS::AggregateFunction { .. } => true,
        ExprS::AggregateUDF { .. } => true,
        ExprS::Alias(inner, _) => is_aggregate_s(*inner),
        ExprS::BinaryExpr { left, right, .. } => is_aggregate_s(*left) || is_aggregate_s(*right),
        ExprS::ScalarFunction { args, .. } => any_aggregate(args),
        _ => false,
    }
}

pub open spec fn any_aggregate(s: Seq<ExprS>) -> bool
    decreases s,
{
    s.len() > 0 && (is_aggregate_s(s.last()) || any_aggregate(s.drop_last()))
}

pub proof fn lemma_any_aggregate_index(s: Seq<ExprS>)
    ensures
        any_aggregate(s) <==> exists|i: int| 0 <= i < s.len() && is_aggregate_s(#[trigger] s[i]),
    decreases s,
{
    if s.len() > 0 {
        lemma_any_aggregate_index(s.drop_last());
        if any_aggregate(s) {
            if is_aggregate_s(s.last()) {
                assert(is_aggregate_s(s[s.len() - 1]));
            } else {
                let i = choose|i: int|
                    0 <= i < s.drop_last().len() && is_aggregate_s(#[trigger] s.drop_last()[i]);
                assert(s.drop_last()[i] == s[i]);
            }
        } else {
            assert forall|i: int| 0 <= i < s.len() implies !is_aggregate_s(#[trigger] s[i]) by {
                if i < s.len() - 1 {
                    assert(s.drop_last()[i] == s[i]);
                }
            }
        }
    }
}

/// Decides whether an expression counts as aggregate.
pub fn is_aggregate_expr(e: &Expr) -> (r: bool)
    ensures
        r == is_aggregate_s(e@),
    decreases *e,
{
    match e {
        Expr::AggregateFunction { .. } => true,
        Expr::AggregateUDF { .. } => true,
        Expr::Alias(inner, _) => is_aggregate_expr(inner),
        Expr::BinaryExpr { left, right, .. } => is_aggregate_expr(left) || is_aggregate_expr(
            right,
        ),
        Expr::ScalarFunction { args, .. } => any_aggregate_expr(args),
        _ => false,
    }
}

/// Whether any expression of the list counts as aggregate.
fn any_aggregate_expr(v: &Vec<Expr>) -> (r: bool)
    ensures
        r == any_aggregate(view_exprs(v@)),
    decreases *v,
{
    let ghost vs = view_exprs(v@);
    proof {
        lemma_view_exprs_index(v@);
    }
    let mut i: usize = 0;
    while i < v.len()
        invariant
            0 <= i <= v@.len(),
            vs == view_exprs(v@),
            vs.len() == v@.len(),
            forall|j: int| 0 <= j < v@.len() ==> #[trigger] vs[j] == view_expr(v@[j]),
            !any_aggregate(vs.take(i as int)),
        decreases v@.len() - i,
    {
        proof {
            assert(vs.take(i + 1).drop_last() =~= vs.take(i as int));
            assert(vs.take(i + 1).last() == vs[i as int]);
        }
        if is_aggregate_expr(&v[i]) {
            proof {
                lemma_any_aggregate_index(vs);
                assert(any_aggregate(vs));
            }
            return true;
        }
        i = i + 1;
    }
    proof {
        assert(vs.take(vs.len() as int) =~= vs);
    }
    false
}

/// Every aggregate subexpression reachable through aliases, binary
/// expressions and built-in scalar function arguments, appended to `acc` in
/// prefix order.
pub open spec fn collect_agg_s(e: ExprS, acc: Seq<ExprS>) -> Seq<ExprS>
    decreases e,
{
    match e {
        ExprS::AggregateFunction { .. } => acc.push(e),
        ExprS::AggregateUDF { .. } => acc.push(e),
        ExprS::Alias(inner, _) => collect_agg_s(*inner, acc),
        ExprS::BinaryExpr { left, right, .. } => collect_agg_s(*right, collect_agg_s(*left, acc)),
        ExprS::ScalarFunction { args, .. } => collect_agg_list(args, acc),
        _ => acc,
    }
}

pub open spec fn collect_agg_list(s: Seq<ExprS>, acc: Seq<ExprS>) -> Seq<ExprS>
    decreases s,
{
    if s.len() == 0 {
        acc
    } else {
        collect_agg_s(s.last(), collect_agg_list(s.drop_last(), acc))
    }
}

/// Collects the aggregate subexpressions of `e` onto `result`.
pub fn collect_aggregate_expr(e: &Expr, result: Vec<Expr>) -> (r: Vec<Expr>)
    ensures
        view_exprs(r@) == collect_agg_s(e@, view_exprs(result@)),
    decreases *e,
{
    match e {
        Expr::AggregateFunction { .. } => {
            let mut r = result;
            let ghost before = r@;
            r.push(clone_expr(e));
            proof {
                assert(r@.drop_last() =~= before);
                assert(view_exprs(r@) == view_exprs(before).push(e@));
            }
            r
        },
        Expr::AggregateUDF { .. } => {
            let mut r = result;
            let ghost before = r@;
            r.push(clone_expr(e));
            proof {
                assert(r@.drop_last() =~= before);
                assert(view_exprs(r@) == view_exprs(before).push(e@));
            }
            r
        },
        Expr::Alias(inner, _) => collect_aggregate_expr(inner, result),
        Expr::BinaryExpr { left, right, .. } => {
            let mid = collect_aggregate_expr(left, result);
            collect_aggregate_expr(right, mid)
        },
        Expr::ScalarFunction { args, .. } => collect_aggregate_list(args, result),
        _ => result,
    }
}

/// Collects the aggregate subexpressions of each expression in the list.
fn collect_aggregate_list(v: &Vec<Expr>, result: Vec<Expr>) -> (r: Vec<Expr>)
    ensures
        view_exprs(r@) == collect_agg_list(view_exprs(v@), view_exprs(result@)),
    decreases *v,
{
    let ghost vs = view_exprs(v@);
    let ghost acc0 = view_exprs(result@);
    proof {
        lemma_view_exprs_index(v@);
    }
    let mut r = result;
    let mut i: usize = 0;
    while i < v.len()
        invariant
            0 <= i <= v@.len(),
            vs == view_exprs(v@),
            vs.len() == v@.len(),
            forall|j: int| 0 <= j < v@.len() ==> #[trigger] vs[j] == view_expr(v@[j]),
            view_exprs(r@) == collect_agg_list(vs.take(i as int), acc0),
        decreases v@.len() - i,
    {
        r = collect_aggregate_expr(&v[i], r);
        proof {
            assert(vs.take(i + 1).drop_last() =~= vs.take(i as int));
            assert(vs.take(i + 1).last() == vs[i as int]);
        }
        i = i + 1;
    }
    proof {
        assert(vs.take(vs.len() as int) =~= vs);
    }
    r
}

/// Whether a list of names holds `n`.
pub open spec fn names_contain(ns: Seq<Seq<char>>, n: Seq<char>) -> bool {
    ns.contains(n)
}

/// Membership of a name in a list of names.
pub fn contains_name(ns: &Vec<String>, n: &str) -> (r: bool)
    ensures
        r == names_contain(crate::strutil::names_view(ns@), n@),
{
    let ghost nv = crate::strutil::names_view(ns@);
    let mut i: usize = 0;
    while i < ns.len()
        invariant
            0 <= i <= ns@.len(),
            nv == crate::strutil::names_view(ns@),
            nv.len() == ns@.len(),
            forall|j: int| 0 <= j < ns@.len() ==> #[trigger] nv[j] == ns@[j]@,
            forall|j: int| 0 <= j < i ==> #[trigger] nv[j] != n@,
        decreases ns@.len() - i,
    {
        if str_eq(ns[i].as_str(), n) {
            proof {
                assert(nv[i as int] == n@);
            }
            return true;
        }
        i = i + 1;
    }
    proof {
        assert(forall|j: int| 0 <= j < nv.len() ==> #[trigger] nv[j] != n@);
    }
    false
}

/// Rewrites a projection expression over an aggregate output schema: every
/// subexpression whose computed name is among `names` becomes a column
/// reference to the matching output field. The rewrite recurses into aliases,
/// binary expressions and built-in scalar function arguments; other shapes
/// are kept as they are. `None` when a visited shape has no name.
pub open spec fn replace_agg_s(e: ExprS, names: Seq<Seq<char>>) -> Option<ExprS>
    decreases e,
{
    match expr_name_s(e) {
        None => None,
        Some(n) => if names_contain(names, n) {
            Some(ExprS::Column(n))
        } else {
            match e {
                ExprS::Alias(inner, a) => match replace_agg_s(*inner, names) {
                    Some(x) => Some(ExprS::Alias(Box::new(x), a)),
                    None => None,
                },
                ExprS::BinaryExpr { left, op, right } => match (
                    replace_agg_s(*left, names),
                    replace_agg_s(*right, names),
                ) {
                    (Some(l), Some(r)) => Some(
                        ExprS::BinaryExpr { left: Box::new(l), op, right: Box::new(r) },
                    ),
                    _ => None,
                },
                ExprS::ScalarFunction { fun, args } => match replace_agg_list(args, names) {
                    Some(aa) => Some(ExprS::ScalarFunction { fun, args: aa }),
                    None => None,
                },
                x => Some(x),
            }
        },
    }
}

pub open spec fn replace_agg_list(s: Seq<ExprS>, names: Seq<Seq<char>>) -> Option<Seq<ExprS>>
    decreases s,
{
    if s.len() == 0 {
        Some(Seq::empty())
    } else {
        match (replace_agg_list(s.drop_last(), names), replace_agg_s(s.last(), names)) {
            (Some(aa), Some(x)) => Some(aa.push(x)),
            _ => None,
        }
    }
}

/// Rewrites a projection expression so that aggregate results are read from
/// the aggregate's output columns.
pub fn replace_aggregate_expr_in_projection(e: &Expr, names: &Vec<String>) -> (r: Result<
    Expr,
    PlanError,
>)
    ensures
        (match r {
            Ok(x) => replace_agg_s(e@, crate::strutil::names_view(names@)) == Some(x@),
            Err(err) => replace_agg_s(e@, crate::strutil::names_view(names@)) is None && err.kind()
                == ErrKind::Internal,
        }),
    decreases *e,
{
    let ghost nv = crate::strutil::names_view(names@);
    let name = expr_name_of(e)?;
    if contains_name(names, name.as_str()) {
        return Ok(Expr::Column(name));
    }
    match e {
        Expr::Alias(inner, a) => {
            let x = replace_aggregate_expr_in_projection(inner, names)?;
            Ok(Expr::Alias(Box::new(x), a.clone()))
        },
        Expr::BinaryExpr { left, op, right } => {
            let l = replace_aggregate_expr_in_projection(left, names)?;
            let r = replace_aggregate_expr_in_projection(right, names)?;
            Ok(Expr::BinaryExpr { left: Box::new(l), op: *op, right: Box::new(r) })
        },
        Expr::ScalarFunction { fun, args } => {
            let aa = replace_aggregate_list(args, names)?;
            Ok(Expr::ScalarFunction { fun: *fun, args: aa })
        },
        other => Ok(clone_expr(other)),
    }
}

/// Rewrites each expression of an argument list.
pub fn replace_aggregate_list(v: &Vec<Expr>, names: &Vec<String>) -> (r: Result<Vec<Expr>, PlanError>)
    ensures
        (match r {
            Ok(aa) => replace_agg_list(view_exprs(v@), crate::strutil::names_view(names@)) == Some(
                view_exprs(aa@),
            ),
            Err(err) => replace_agg_list(view_exprs(v@), crate::strutil::names_view(names@))
                is None && err.kind() == ErrKind::Internal,
        }),
    decreases *v,
{
    let ghost nv = crate::strutil::names_view(names@);
    let ghost vs = view_exprs(v@);
    proof {
        lemma_view_exprs_index(v@);
    }
    let mut aa: Vec<Expr> = Vec::new();
    let mut i: usize = 0;
    while i < v.len()
        invariant
            0 <= i <= v@.len(),
            nv == crate::strutil::names_view(names@),
            vs == view_exprs(v@),
            vs.len() == v@.len(),
            forall|j: int| 0 <= j < v@.len() ==> #[trigger] vs[j] == view_expr(v@[j]),
            replace_agg_list(vs.take(i as int), nv) == Some(view_exprs(aa@)),
        decreases v@.len() - i,
    {
        proof {
            assert(vs.take(i + 1).drop_last() =~= vs.take(i as int));
            assert(vs.take(i + 1).last() == vs[i as int]);
        }
        match replace_aggregate_expr_in_projection(&v[i], names) {
            Ok(x) => {
                let ghost before = aa@;
                aa.push(x);
                proof {
                    assert(aa@.drop_last() =~= before);
                }
            },
            Err(err) => {
                proof {
                    lemma_replace_agg_list_none(vs, nv, i as int);
                }
                return Err(err);
            },
        }
        i = i + 1;
    }
    proof {
        assert(vs.take(vs.len() as int) =~= vs);
    }
    Ok(aa)
}

proof fn lemma_replace_agg_list_none(s: Seq<ExprS>, names: Seq<Seq<char>>, i: int)
    requires
        0 <= i < s.len(),
        replace_agg_s(s[i], names) is None,
    ensures
        replace_agg_list(s, names) is None,
    decreases s,
{
    if s.len() > 0 {
        if i == s.len() - 1 {
        } else {
            assert(s.drop_last()[i] == s[i]);
            lemma_replace_agg_list_none(s.drop_last(), names, i);
        }
    }
}

} // verus!
