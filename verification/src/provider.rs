use vstd::prelude::*;
use crate::schema::{Schema, FieldS, fields_view};
use crate::expr::{ScalarUdf, AggregateUdf};
use crate::strutil::str_eq;

verus! {

// ---------------------------------------------------------------------------
// The catalog the translator consults
// ---------------------------------------------------------------------------

/// A snapshot of a catalog: table schemas, and the names under which
/// user-defined scalar and aggregate functions are registered. Function
/// lookups map a lookup name to the descriptor's own name.
pub struct CatalogS {
    pub tables: Map<Seq<char>, Seq<FieldS>>,
    pub scalar_udfs: Map<Seq<char>, Seq<char>>,
    pub aggregate_udfs: Map<Seq<char>, Seq<char>>,
}

/// The catalog capability the translator consumes: table schemas and
/// user-defined function descriptors. The spec-level `catalog` snapshot is
/// what every answer is measured against, so a provider behaves as a pure
/// lookup into that snapshot.
pub trait SchemaProvider {
    spec fn catalog(&self) -> CatalogS;

    /// The schema of a named table.
    fn get_table_meta(&self, name: &str) -> (r: Option<Schema>)
        ensures
            (match r {
                Some(s) => self.catalog().tables.contains_key(name@) && self.catalog().tables[name@]
                    == s@,
                None => !self.catalog().tables.contains_key(name@),
            }),
    ;

    /// The descriptor of a user-defined scalar function.
    fn get_function_meta(&self, name: &str) -> (r: Option<ScalarUdf>)
        ensures
            (match r {
                Some(f) => self.catalog().scalar_udfs.contains_key(name@)
                    && self.catalog().scalar_udfs[name@] == f.name@,
                None => !self.catalog().scalar_udfs.contains_key(name@),
            }),
    ;

    /// The descriptor of a user-defined aggregate function.
    fn get_aggregate_meta(&self, name: &str) -> (r: Option<AggregateUdf>)
        ensures
            (match r {
                Some(f) => self.catalog().aggregate_udfs.contains_key(name@)
                    && self.catalog().aggregate_udfs[name@] == f.name@,
                None => !self.catalog().aggregate_udfs.contains_key(name@),
            }),
    ;
}

// ---------------------------------------------------------------------------
// An in-memory provider
// ---------------------------------------------------------------------------

/// The tables map an entry list denotes: a later entry for the same name
/// replaces an earlier one.
pub open spec fn table_map(s: Seq<(String, Schema)>) -> Map<Seq<char>, Seq<FieldS>>
    decreases s,
{
    if s.len() == 0 {
        Map::empty()
    } else {
        table_map(s.drop_last()).insert(s.last().0@, s.last().1@)
    }
}

/// The self-map of a list of names: each registered name maps to itself.
pub open spec fn name_map(s: Seq<String>) -> Map<Seq<char>, Seq<char>>
    decreases s,
{
    if s.len() == 0 {
        Map::empty()
    } else {
        name_map(s.drop_last()).insert(s.last()@, s.last()@)
    }
}

proof fn lemma_table_map_at(s: Seq<(String, Schema)>, i: int)
    requires
        0 <= i < s.len(),
        forall|j: int| i < j < s.len() ==> (#[trigger] s[j]).0@ != s[i].0@,
    ensures
        table_map(s).contains_key(s[i].0@),
        table_map(s)[s[i].0@] == s[i].1@,
    decreases s,
{
    if i == s.len() - 1 {
    } else {
        assert(forall|j: int|
            i < j < s.drop_last().len() ==> (#[trigger] s.drop_last()[j]).0@ != s.drop_last()[
                i
            ].0@);
        lemma_table_map_at(s.drop_last(), i);
        assert(s.last().0@ != s[i].0@);
    }
}

proof fn lemma_table_map_absent(s: Seq<(String, Schema)>, name: Seq<char>)
    requires
        forall|j: int| 0 <= j < s.len() ==> (#[trigger] s[j]).0@ != name,
    ensures
        !table_map(s).contains_key(name),
    decreases s,
{
    if s.len() > 0 {
        assert(forall|j: int|
            0 <= j < s.drop_last().len() ==> (#[trigger] s.drop_last()[j]).0@ != name);
        lemma_table_map_absent(s.drop_last(), name);
    }
}

proof fn lemma_name_map_at(s: Seq<String>, i: int)
    requires
        0 <= i < s.len(),
    ensures
        name_map(s).contains_key(s[i]@),
        name_map(s)[s[i]@] == s[i]@,
    decreases s,
{
    if i == s.len() - 1 {
    } else {
        lemma_name_map_at(s.drop_last(), i);
        assert(s.drop_last()[i] == s[i]);
    }
}

proof fn lemma_name_map_absent(s: Seq<String>, name: Seq<char>)
    requires
        forall|j: int| 0 <= j < s.len() ==> (#[trigger] s[j])@ != name,
    ensures
        !name_map(s).contains_key(name),
    decreases s,
{
    if s.len() > 0 {
        assert(forall|j: int| 0 <= j < s.drop_last().len() ==> (#[trigger] s.drop_last()[j])@ != name);
        lemma_name_map_absent(s.drop_last(), name);
    }
}

/// A catalog held in memory: tables registered by name, and the names of the
/// user-defined functions the session knows.
pub struct MemoryProvider {
    pub tables: Vec<(String, Schema)>,
    pub scalar_udfs: Vec<String>,
    pub aggregate_udfs: Vec<String>,
}

impl MemoryProvider {
    pub fn new() -> (r: MemoryProvider)
        ensures
            r.catalog().tables =~= Map::<Seq<char>, Seq<FieldS>>::empty(),
            r.catalog().scalar_udfs =~= Map::<Seq<char>, Seq<char>>::empty(),
            r.catalog().aggregate_udfs =~= Map::<Seq<char>, Seq<char>>::empty(),
    {
        MemoryProvider { tables: Vec::new(), scalar_udfs: Vec::new(), aggregate_udfs: Vec::new() }
    }

    /// Registers a table; a table of the same name is replaced.
    pub fn add_table(&mut self, name: String, schema: Schema)
        ensures
            final(self).catalog().tables == old(self).catalog().tables.insert(name@, schema@),
            final(self).catalog().scalar_udfs == old(self).catalog().scalar_udfs,
            final(self).catalog().aggregate_udfs == old(self).catalog().aggregate_udfs,
    {
        let ghost before = self.tables@;
        self.tables.push((name, schema));
        proof {
            assert(self.tables@.drop_last() =~= before);
        }
    }

    /// Registers a user-defined scalar function under its name.
    pub fn add_scalar_udf(&mut self, name: String)
        ensures
            final(self).catalog().scalar_udfs == old(self).catalog().scalar_udfs.insert(
                name@,
                name@,
            ),
            final(self).catalog().tables == old(self).catalog().tables,
            final(self).catalog().aggregate_udfs == old(self).catalog().aggregate_udfs,
    {
        let ghost before = self.scalar_udfs@;
        self.scalar_udfs.push(name);
        proof {
            assert(self.scalar_udfs@.drop_last() =~= before);
        }
    }

    /// Registers a user-defined aggregate function under its name.
    pub fn add_aggregate_udf(&mut self, name: String)
        ensures
            final(self).catalog().aggregate_udfs == old(self).catalog().aggregate_udfs.insert(
                name@,
                name@,
            ),
            final(self).catalog().tables == old(self).catalog().tables,
            final(self).catalog().scalar_udfs == old(self).catalog().scalar_udfs,
    {
        let ghost before = self.aggregate_udfs@;
        self.aggregate_udfs.push(name);
        proof {
            assert(self.aggregate_udfs@.drop_last() =~= before);
        }
    }

    fn find_name(v: &Vec<String>, name: &str) -> (r: Option<String>)
        ensures
            (match r {
                Some(n) => name_map(v@).contains_key(name@) && name_map(v@)[name@] == n@,
                None => !name_map(v@).contains_key(name@),
            }),
    {
        let mut i: usize = 0;
        while i < v.len()
            invariant
                0 <= i <= v@.len(),
                forall|j: int| 0 <= j < i ==> (#[trigger] v@[j])@ != name@,
            decreases v@.len() - i,
        {
            if str_eq(v[i].as_str(), name) {
                proof {
                    lemma_name_map_at(v@, i as int);
                }
                return Some(v[i].clone());
            }
            i = i + 1;
        }
        proof {
            lemma_name_map_absent(v@, name@);
        }
        None
    }
}

impl SchemaProvider for MemoryProvider {
    open spec fn catalog(&self) -> CatalogS {
        CatalogS {
            tables: table_map(self.tables@),
            scalar_udfs: name_map(self.scalar_udfs@),
            aggregate_udfs: name_map(self.aggregate_udfs@),
        }
    }

    fn get_table_meta(&self, name: &str) -> (r: Option<Schema>) {
        let n = self.tables.len();
        let mut i: usize = n;
        while i > 0
            invariant
                0 <= i <= n,
                n == self.tables@.len(),
                forall|j: int| i <= j < n ==> (#[trigger] self.tables@[j]).0@ != name@,
            decreases i,
        {
            i = i - 1;
            if str_eq(self.tables[i].0.as_str(), name) {
                proof {
                    lemma_table_map_at(self.tables@, i as int);
                }
                return Some(self.tables[i].1.clone_schema());
            }
        }
        proof {
            lemma_table_map_absent(self.tables@, name@);
        }
        None
    }

    fn get_function_meta(&self, name: &str) -> (r: Option<ScalarUdf>) {
        match Self::find_name(&self.scalar_udfs, name) {
            Some(n) => Some(ScalarUdf { name: n }),
            None => None,
        }
    }

    fn get_aggregate_meta(&self, name: &str) -> (r: Option<AggregateUdf>) {
        match Self::find_name(&self.aggregate_udfs, name) {
            Some(n) => Some(AggregateUdf { name: n }),
            None => None,
        }
    }
}

} // verus!
