use vstd::prelude::*;
use crate::types::{DataType, DataTypeS, data_type_str, data_type_string, data_type_eq,
    clone_data_type};
use crate::strutil::str_eq;

verus! {

// ---------------------------------------------------------------------------
// Schemas: ordered sequences of named, typed fields
// ---------------------------------------------------------------------------

/// One column of a relation.
#[derive(Debug)]
pub struct Field {
    pub name: String,
    pub data_type: DataType,
    pub nullable: bool,
}

/// The mathematical model of a `Field`.
pub struct FieldS {
    pub name: Seq<char>,
    pub data_type: DataTypeS,
    pub nullable: bool,
}

impl View for Field {
    type V = FieldS;

    open spec fn view(&self) -> FieldS {
        FieldS { name: self.name@, data_type: self.data_type@, nullable: self.nullable }
    }
}

impl Field {
    pub fn new(name: String, data_type: DataType, nullable: bool) -> (r: Field)
        ensures
            r@ == (FieldS { name: name@, data_type: data_type@, nullable }),
    {
        Field { name, data_type, nullable }
    }
}

pub fn clone_field(f: &Field) -> (r: Field)
    ensures
        r@ == f@,
{
    Field { name: f.name.clone(), data_type: clone_data_type(&f.data_type), nullable: f.nullable }
}

/// The fields of a schema, as models.
pub open spec fn fields_view(s: Seq<Field>) -> Seq<FieldS> {
    s.map_values(|f: Field| f@)
}

/// An ordered collection of fields. Schemas are immutable once built.
#[derive(Debug)]
pub struct Schema {
    pub fields: Vec<Field>,
}

impl View for Schema {
    type V = Seq<FieldS>;

    open spec fn view(&self) -> Seq<FieldS> {
        fields_view(self.fields@)
    }
}

/// The position of the first field called `name`, if any.
pub open spec fn field_index(s: Seq<FieldS>, name: Seq<char>) -> Option<int>
    decreases s.len(),
{
    if s.len() == 0 {
        None
    } else if s[0].name == name {
        Some(0int)
    } else {
        match field_index(s.drop_first(), name) {
            Some(i) => Some(i + 1),
            None => None,
        }
    }
}

/// Whether a schema holds a field called `name`.
pub open spec fn has_field(s: Seq<FieldS>, name: Seq<char>) -> bool {
    field_index(s, name) is Some
}

/// The first field called `name`.
pub open spec fn field_of(s: Seq<FieldS>, name: Seq<char>) -> FieldS
    recommends
        has_field(s, name),
{
    s[field_index(s, name)->Some_0]
}

pub proof fn lemma_field_index_in_range(s: Seq<FieldS>, name: Seq<char>)
    ensures
        (match field_index(s, name) {
            Some(i) => 0 <= i < s.len() && s[i].name == name,
            None => forall|i: int| 0 <= i < s.len() ==> (#[trigger] s[i]).name != name,
        }),
    decreases s.len(),
{
    if s.len() > 0 {
        lemma_field_index_in_range(s.drop_first(), name);
        if s[0].name != name {
            match field_index(s.drop_first(), name) {
                Some(i) => {
                    assert(s.drop_first()[i] == s[i + 1]);
                },
                None => {
                    assert forall|i: int| 0 <= i < s.len() implies (#[trigger] s[i]).name
                        != name by {
                        if i > 0 {
                            assert(s[i] == s.drop_first()[i - 1]);
                        }
                    }
                },
            }
        }
    }
}

impl Schema {
    pub fn new(fields: Vec<Field>) -> (r: Schema)
        ensures
            r@ == fields_view(fields@),
    {
        Schema { fields }
    }

    pub fn empty() -> (r: Schema)
        ensures
            r@ =~= Seq::<FieldS>::empty(),
    {
        Schema { fields: Vec::new() }
    }

    pub fn len(&self) -> (r: usize)
        ensures
            r == self@.len(),
    {
        self.fields.len()
    }

    pub fn clone_schema(&self) -> (r: Schema)
        ensures
            r@ == self@,
    {
        let mut fields: Vec<Field> = Vec::new();
        let mut i: usize = 0;
        while i < self.fields.len()
            invariant
                0 <= i <= self.fields@.len(),
                fields@.len() == i,
                forall|j: int| 0 <= j < i ==> (#[trigger] fields@[j])@ == self.fields@[j]@,
            decreases self.fields@.len() - i,
        {
            fields.push(clone_field(&self.fields[i]));
            i = i + 1;
        }
        proof {
            assert(fields_view(fields@) =~= fields_view(self.fields@));
        }
        Schema { fields }
    }

    /// The first field called `name`, or `None` when the schema has no such
    /// field.
    pub fn field_with_name(&self, name: &str) -> (r: Option<&Field>)
        ensures
            (match r {
                Some(f) => has_field(self@, name@) && f@ == field_of(self@, name@),
                None => !has_field(self@, name@),
            }),
    {
        proof {
            lemma_field_index_in_range(self@, name@);
        }
        let n = self.fields.len();
        let mut i: usize = 0;
        while i < n
            invariant
                0 <= i <= n,
                n == self.fields@.len(),
                forall|j: int| 0 <= j < i ==> (#[trigger] self@[j]).name != name@,
            decreases n - i,
        {
            let f = &self.fields[i];
            if str_eq(f.name.as_str(), name) {
                proof {
                    lemma_field_index_first(self@, name@, i as int);
                }
                return Some(f);
            }
            i = i + 1;
        }
        None
    }

    /// Structural schema equality.
    pub fn schema_eq(&self, other: &Schema) -> (r: bool)
        ensures
            r == (self@ == other@),
    {
        let n = self.fields.len();
        if n != other.fields.len() {
            proof {
                assert(self@.len() != other@.len());
            }
            return false;
        }
        let mut i: usize = 0;
        while i < n
            invariant
                0 <= i <= n,
                n == self.fields@.len() == other.fields@.len(),
                forall|j: int| 0 <= j < i ==> #[trigger] self@[j] == other@[j],
            decreases n - i,
        {
            let a = &self.fields[i];
            let b = &other.fields[i];
            let names_same = str_eq(a.name.as_str(), b.name.as_str());
            if !(names_same && data_type_eq(&a.data_type, &b.data_type) && a.nullable
                == b.nullable) {
                proof {
                    assert(self@[i as int] != other@[i as int]);
                }
                return false;
            }
            i = i + 1;
        }
        proof {
            assert(self@ =~= other@);
        }
        true
    }

    /// Renders a schema for a diagnostic: the fields, comma-separated.
    pub fn to_text(&self) -> (r: String)
        ensures
            r@ == schema_str(self@),
    {
        let mut s = String::new();
        let mut i: usize = 0;
        while i < self.fields.len()
            invariant
                0 <= i <= self.fields@.len(),
                s@ == schema_str_prefix(self@, i as int),
            decreases self.fields@.len() - i,
        {
            if i > 0 {
                s.append(", ");
            }
            s.append(self.fields[i].name.as_str());
            s.append(": ");
            s.append(data_type_string(&self.fields[i].data_type).as_str());
            i = i + 1;
        }
        s
    }
}

/// A field as it appears in a rendered schema.
pub open spec fn field_str(f: FieldS) -> Seq<char> {
    f.name + ": "@ + data_type_str(f.data_type)
}

pub open spec fn schema_str_prefix(s: Seq<FieldS>, n: int) -> Seq<char>
    decreases n,
{
    if n <= 0 {
        Seq::empty()
    } else if n == 1 {
        field_str(s[0])
    } else {
        schema_str_prefix(s, n - 1) + ", "@ + field_str(s[n - 1])
    }
}

/// A rendered schema: its fields with their types, comma-separated.
pub open spec fn schema_str(s: Seq<FieldS>) -> Seq<char> {
    schema_str_prefix(s, s.len() as int)
}

proof fn lemma_field_index_first(s: Seq<FieldS>, name: Seq<char>, i: int)
    requires
        0 <= i < s.len(),
        s[i].name == name,
        forall|j: int| 0 <= j < i ==> (#[trigger] s[j]).name != name,
    ensures
        field_index(s, name) == Some(i),
    decreases s.len(),
{
    if i == 0 {
    } else {
        assert forall|j: int| 0 <= j < i - 1 implies (#[trigger] s.drop_first()[j]).name != name by {
            assert(s.drop_first()[j] == s[j + 1]);
        }
        assert(s.drop_first()[i - 1] == s[i]);
        lemma_field_index_first(s.drop_first(), name, i - 1);
    }
}

} // verus!
