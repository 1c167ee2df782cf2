//! Records: what is handed to a sink for one span or one event.
//!
//! A record maps field names to scalar values. No name occurs twice, and the
//! order in which the fields were written carries no meaning.

use crate::text::same_text;
use vstd::prelude::*;
use vstd::string::*;

verus! {

/// What a field value stands for: nothing, a truth value, a whole number or a text.
pub enum Scalar {
    Null,
    Bool(bool),
    Int(int),
    Text(Seq<char>),
}

/// What a record stands for: a mapping from names to scalars.
pub type Fields = Map<Seq<char>, Scalar>;

/// The value of one field of a record.
#[derive(Debug, PartialEq, Eq)]
pub enum FieldValue {
    Null,
    Bool(bool),
    I64(i64),
    U64(u64),
    Str(String),
}

impl View for FieldValue {
    type V = Scalar;

    open spec fn view(&self) -> Scalar {
        match self {
            FieldValue::Null => Scalar::Null,
            FieldValue::Bool(b) => Scalar::Bool(*b),
            FieldValue::I64(n) => Scalar::Int(*n as int),
            FieldValue::U64(n) => Scalar::Int(*n as int),
            FieldValue::Str(s) => Scalar::Text(s@),
        }
    }
}

impl Clone for FieldValue {
    fn clone(&self) -> (copy: FieldValue)
        ensures
            copy == *self,
    {
        match self {
            FieldValue::Null => FieldValue::Null,
            FieldValue::Bool(b) => FieldValue::Bool(*b),
            FieldValue::I64(n) => FieldValue::I64(*n),
            FieldValue::U64(n) => FieldValue::U64(*n),
            FieldValue::Str(s) => FieldValue::Str(s.clone()),
        }
    }
}

/// A field: a name and its value.
#[derive(Debug, PartialEq, Eq)]
pub struct Field {
    pub name: String,
    pub value: FieldValue,
}

impl Clone for Field {
    fn clone(&self) -> (copy: Field)
        ensures
            copy == *self,
    {
        Field { name: self.name.clone(), value: self.value.clone() }
    }
}

/// The mapping that a list of fields stands for: a later field replaces an
/// earlier one of the same name.
pub open spec fn fields_map(fields: Seq<Field>) -> Fields
    decreases fields.len(),
{
    if fields.len() == 0 {
        Map::empty()
    } else {
        fields_map(fields.drop_last()).insert(fields.last().name@, fields.last().value@)
    }
}

/// Whether no two fields of the list share a name.
pub open spec fn distinct_names(fields: Seq<Field>) -> bool {
    forall|i: int, j: int|
        0 <= i < j < fields.len() ==> (#[trigger] fields[i]).name@ != (#[trigger] fields[j]).name@
}

/// A name is mapped exactly if a field of the list bears it.
pub proof fn lemma_fields_map_dom(fields: Seq<Field>, name: Seq<char>)
    ensures
        fields_map(fields).contains_key(name) <==> exists|i: int|
            0 <= i < fields.len() && (#[trigger] fields[i]).name@ == name,
    decreases fields.len(),
{
    if fields.len() > 0 {
        let front = fields.drop_last();
        lemma_fields_map_dom(front, name);
        if fields_map(fields).contains_key(name) {
            if fields.last().name@ == name {
                assert(fields[fields.len() - 1].name@ == name);
            } else {
                let i = choose|i: int| 0 <= i < front.len() && (#[trigger] front[i]).name@ == name;
                assert(fields[i].name@ == name);
            }
        }
        if exists|i: int| 0 <= i < fields.len() && (#[trigger] fields[i]).name@ == name {
            let i = choose|i: int| 0 <= i < fields.len() && (#[trigger] fields[i]).name@ == name;
            if i < fields.len() - 1 {
                assert(front[i].name@ == name);
            }
        }
    }
}

/// Where names differ, each field of the list is mapped to its own value.
pub proof fn lemma_fields_map_at(fields: Seq<Field>, i: int)
    requires
        distinct_names(fields),
        0 <= i < fields.len(),
    ensures
        fields_map(fields).contains_key(fields[i].name@),
        fields_map(fields)[fields[i].name@] == fields[i].value@,
    decreases fields.len(),
{
    let last = fields.len() - 1;
    if i < last {
        let front = fields.drop_last();
        assert(distinct_names(front)) by {
            assert forall|a: int, b: int| 0 <= a < b < front.len() implies (#[trigger] front[a]).name@
                != (#[trigger] front[b]).name@ by {
                assert(front[a] == fields[a] && front[b] == fields[b]);
            }
        }
        lemma_fields_map_at(front, i);
        assert(front[i] == fields[i]);
        assert(fields[i].name@ != fields[last].name@);
    }
}

/// Where names differ, giving a field a new value under its old name changes
/// the mapping at that name only.
pub proof fn lemma_fields_map_update(fields: Seq<Field>, i: int, field: Field)
    requires
        distinct_names(fields),
        0 <= i < fields.len(),
        field.name@ == fields[i].name@,
    ensures
        distinct_names(fields.update(i, field)),
        fields_map(fields.update(i, field)) == fields_map(fields).insert(field.name@, field.value@),
    decreases fields.len(),
{
    let changed = fields.update(i, field);
    let last = fields.len() - 1;
    assert(distinct_names(changed)) by {
        assert forall|a: int, b: int| 0 <= a < b < changed.len() implies (#[trigger] changed[a]).name@
            != (#[trigger] changed[b]).name@ by {
            assert(changed[a].name@ == fields[a].name@);
            assert(changed[b].name@ == fields[b].name@);
        }
    }
    let front = fields.drop_last();
    if i == last {
        assert(changed.drop_last() =~= front);
        assert(fields_map(changed) =~= fields_map(fields).insert(field.name@, field.value@));
    } else {
        assert(distinct_names(front)) by {
            assert forall|a: int, b: int| 0 <= a < b < front.len() implies (#[trigger] front[a]).name@
                != (#[trigger] front[b]).name@ by {
                assert(front[a] == fields[a] && front[b] == fields[b]);
            }
        }
        assert(front[i] == fields[i]);
        lemma_fields_map_update(front, i, field);
        assert(changed.drop_last() =~= front.update(i, field));
        assert(changed.last() == fields.last());
        assert(fields[i].name@ != fields[last].name@);
        assert(fields_map(changed) =~= fields_map(fields).insert(field.name@, field.value@));
    }
}

/// Where names differ, the mapping holds as many names as the list holds fields.
pub proof fn lemma_fields_map_len(fields: Seq<Field>)
    requires
        distinct_names(fields),
    ensures
        fields_map(fields).dom().finite(),
        fields_map(fields).len() == fields.len(),
    decreases fields.len(),
{
    if fields.len() > 0 {
        let front = fields.drop_last();
        let last = fields.len() - 1;
        assert(distinct_names(front)) by {
            assert forall|a: int, b: int| 0 <= a < b < front.len() implies (#[trigger] front[a]).name@
                != (#[trigger] front[b]).name@ by {
                assert(front[a] == fields[a] && front[b] == fields[b]);
            }
        }
        lemma_fields_map_len(front);
        lemma_fields_map_dom(front, fields[last].name@);
        assert(!fields_map(front).contains_key(fields[last].name@)) by {
            if fields_map(front).contains_key(fields[last].name@) {
                let i = choose|i: int|
                    0 <= i < front.len() && (#[trigger] front[i]).name@ == fields[last].name@;
                assert(front[i] == fields[i]);
                assert(fields[i].name@ != fields[last].name@);
            }
        }
        assert(fields_map(fields).dom() =~= fields_map(front).dom().insert(fields[last].name@));
    }
}

/// A mapping from field names to values.
#[derive(Debug)]
pub struct Record {
    fields: Vec<Field>,
}

impl View for Record {
    type V = Fields;

    closed spec fn view(&self) -> Fields {
        fields_map(self.fields@)
    }
}

impl Record {
    #[verifier::type_invariant]
    closed spec fn names_differ(self) -> bool {
        distinct_names(self.fields@)
    }

    /// The record without fields.
    pub fn new() -> (record: Record)
        ensures
            record@ == Fields::empty(),
    {
        Record { fields: Vec::new() }
    }

    fn position(&self, name: &str) -> (at: Option<usize>)
        ensures
            match at {
                Some(i) => i < self.fields.len() && self.fields[i as int].name@ == name@,
                None => forall|i: int| 0 <= i < self.fields.len() ==> (#[trigger] self.fields[i]).name@ != name@,
            },
    {
        let mut i: usize = 0;
        while i < self.fields.len()
            invariant
                i <= self.fields.len(),
                forall|j: int| 0 <= j < i ==> (#[trigger] self.fields[j]).name@ != name@,
            decreases self.fields.len() - i,
        {
            if same_text(self.fields[i].name.as_str(), name) {
                return Some(i);
            }
            i = i + 1;
        }
        None
    }

    /// Writes a field: the name is mapped to the value, whatever it was
    /// mapped to before.
    pub fn insert(&mut self, name: String, value: FieldValue)
        ensures
            final(self)@ == old(self)@.insert(name@, value@),
    {
        proof {
            use_type_invariant(&*self);
        }
        let at = self.position(name.as_str());
        let mut fields: Vec<Field> = Vec::new();
        core::mem::swap(&mut self.fields, &mut fields);
        let ghost before = fields@;
        let field = Field { name, value };
        match at {
            Some(i) => {
                proof {
                    lemma_fields_map_update(before, i as int, field);
                }
                fields.set(i, field);
            },
            None => {
                fields.push(field);
                assert(fields@.drop_last() =~= before);
                assert(distinct_names(fields@)) by {
                    assert forall|a: int, b: int| 0 <= a < b < fields@.len() implies (
                    #[trigger] fields@[a]).name@ != (#[trigger] fields@[b]).name@ by {
                        assert(fields@[a] == before[a]);
                        if b < before.len() {
                            assert(fields@[b] == before[b]);
                        }
                    }
                }
            },
        }
        self.fields = fields;
    }

    /// The value that the name is mapped to, if any.
    pub fn get(&self, name: &str) -> (value: Option<&FieldValue>)
        ensures
            match value {
                Some(v) => self@.contains_key(name@) && self@[name@] == v@,
                None => !self@.contains_key(name@),
            },
    {
        proof {
            use_type_invariant(self);
            lemma_fields_map_dom(self.fields@, name@);
        }
        match self.position(name) {
            Some(i) => {
                proof {
                    lemma_fields_map_at(self.fields@, i as int);
                }
                Some(&self.fields[i].value)
            },
            None => None,
        }
    }

    /// Whether the name is mapped to a value.
    pub fn contains_key(&self, name: &str) -> (found: bool)
        ensures
            found == self@.contains_key(name@),
    {
        self.get(name).is_some()
    }

    /// How many names the record maps.
    pub fn len(&self) -> (n: usize)
        ensures
            self@.dom().finite(),
            n == self@.len(),
    {
        proof {
            use_type_invariant(self);
            lemma_fields_map_len(self.fields@);
        }
        self.fields.len()
    }

    /// The fields of the record, each name once, in no particular order.
    pub fn fields(&self) -> (fields: &Vec<Field>)
        ensures
            distinct_names(fields@),
            fields_map(fields@) == self@,
    {
        proof {
            use_type_invariant(self);
        }
        &self.fields
    }
}

} // verus!
