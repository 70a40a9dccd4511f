//! A SQL query translator: given a parsed SQL statement and a catalog of
//! table schemas and user-defined functions, it produces a validated logical
//! plan — a relational-algebra tree ready for optimization and execution
//! planning.
//!
//! The translator itself is verified: every public operation carries a
//! contract that pins its result, for every input, to a specification-level
//! lowering function, and the structural guarantees of emitted plans —
//! resolved column references, pure aggregate nodes, consistent GROUP BY
//! projections, equal union schemas, determinism and stable rendering — are
//! stated and proved in `laws`.

pub mod error;
pub mod strutil;
pub mod types;
pub mod schema;
pub mod expr;
pub mod plan;
pub mod builder;
pub mod sqlast;
pub mod provider;
pub mod planner;
pub mod laws;
