//! Header fields: a map from names to values that remembers the order in
//! which names were first set.

use vstd::prelude::*;
use vstd::string::StringExecFns;
use crate::text::{index_of, lemma_index_of, lemma_index_of_unique};

verus! {

/// One header field in the model: its name and its value.
pub type Field = (Seq<char>, Seq<char>);

/// The names of the fields, in order.
pub open spec fn names(fields: Seq<Field>) -> Seq<Seq<char>> {
    fields.map_values(|field: Field| field.0)
}

/// The value that `fields` holds for `name`: that of the first field so named.
pub open spec fn lookup(fields: Seq<Field>, name: Seq<char>) -> Option<Seq<char>> {
    let i = index_of(names(fields), name);
    if i < fields.len() {
        Some(fields[i].1)
    } else {
        None
    }
}

/// The fields as a map from names to values.
pub open spec fn to_map(fields: Seq<Field>) -> Map<Seq<char>, Seq<char>> {
    Map::new(
        |name: Seq<char>| lookup(fields, name) is Some,
        |name: Seq<char>| lookup(fields, name)->0,
    )
}

/// The fields after `name` is set to `value`: a field of that name keeps its
/// place and takes the new value; a new name goes to the end.
pub open spec fn put(fields: Seq<Field>, name: Seq<char>, value: Seq<char>) -> Seq<Field> {
    let i = index_of(names(fields), name);
    if i < fields.len() {
        fields.update(i, (name, value))
    } else {
        fields.push((name, value))
    }
}

/// The map that setting the fields one after another builds: of two fields
/// with one name the later one counts.
pub open spec fn collected(fields: Seq<Field>) -> Map<Seq<char>, Seq<char>>
    decreases fields.len(),
{
    if fields.len() == 0 {
        Map::empty()
    } else {
        collected(fields.drop_last()).insert(fields.last().0, fields.last().1)
    }
}

/// No two fields share a name.
pub open spec fn distinct_names(fields: Seq<Field>) -> bool {
    forall|i: int, j: int| 0 <= i < j < fields.len() ==> fields[i].0 != fields[j].0
}

/// After `put`, `name` maps to `value` and every other name to what it
/// mapped to before.
pub proof fn lemma_put_lookup(fields: Seq<Field>, name: Seq<char>, value: Seq<char>, other: Seq<char>)
    ensures
        lookup(put(fields, name, value), other) == if other == name {
            Some(value)
        } else {
            lookup(fields, other)
        },
{
    let after = put(fields, name, value);
    let i = index_of(names(fields), name);
    let j = index_of(names(fields), other);
    lemma_index_of(names(fields), name);
    lemma_index_of(names(fields), other);
    if other == name {
        assert forall|m: int| 0 <= m < i implies names(after)[m] != name by {
            assert(names(after)[m] == names(fields)[m]);
        }
        assert(names(after)[i] == name);
        lemma_index_of_unique(names(after), name, i);
    } else {
        if j < fields.len() {
            assert(names(fields)[j] == other);
            assert(j != i);
        }
        assert forall|m: int| 0 <= m < j implies names(after)[m] != other by {
            if m != i {
                assert(names(after)[m] == names(fields)[m]);
            }
        }
        if j < fields.len() {
            lemma_index_of_unique(names(after), other, j);
        } else if i < fields.len() {
            lemma_index_of_unique(names(after), other, j);
        } else {
            assert(names(after)[j] == name);
            lemma_index_of_unique(names(after), other, j + 1);
        }
    }
}

/// `put` is `insert` on the map, and keeps names distinct.
pub proof fn lemma_put(fields: Seq<Field>, name: Seq<char>, value: Seq<char>)
    ensures
        to_map(put(fields, name, value)) == to_map(fields).insert(name, value),
        distinct_names(fields) ==> distinct_names(put(fields, name, value)),
{
    let after = put(fields, name, value);
    assert forall|other: Seq<char>|
        lookup(after, other) == if other == name {
            Some(value)
        } else {
            lookup(fields, other)
        } by {
        lemma_put_lookup(fields, name, value, other);
    }
    assert(to_map(after) =~= to_map(fields).insert(name, value));
    if distinct_names(fields) {
        let i = index_of(names(fields), name);
        lemma_index_of(names(fields), name);
        assert forall|a: int, b: int| 0 <= a < b < after.len() implies after[a].0 != after[b].0 by {
            if i < fields.len() {
                if a == i {
                    assert(fields[i].0 == names(fields)[i]);
                    assert(fields[a].0 != fields[b].0);
                } else if b == i {
                    assert(fields[i].0 == names(fields)[i]);
                    assert(fields[a].0 != fields[b].0);
                }
            } else {
                if b == fields.len() {
                    assert(names(fields)[a] != name);
                }
            }
        }
    }
}

/// A collection of header fields.
///
/// Names are compared exactly as written, case included. Setting a name
/// again replaces its value.
#[derive(Debug)]
pub struct Headers {
    entries: Vec<(String, String)>,
}

impl View for Headers {
    type V = Map<Seq<char>, Seq<char>>;

    open spec fn view(&self) -> Map<Seq<char>, Seq<char>> {
        to_map(self.fields())
    }
}

impl Headers {
    /// The fields in the order in which their names were first set.
    pub closed spec fn fields(&self) -> Seq<Field> {
        self.entries@.map_values(|entry: (String, String)| (entry.0@, entry.1@))
    }

    /// No name occurs twice. Every `Headers` that this module hands out is
    /// well formed.
    pub open spec fn wf(&self) -> bool {
        distinct_names(self.fields())
    }

    /// No fields.
    pub fn new() -> (headers: Headers)
        ensures
            headers.fields() == Seq::<Field>::empty(),
            headers@ == Map::<Seq<char>, Seq<char>>::empty(),
            headers.wf(),
    {
        let headers = Headers { entries: Vec::new() };
        assert(headers.fields() =~= Seq::<Field>::empty());
        assert(headers@ =~= Map::<Seq<char>, Seq<char>>::empty());
        headers
    }

    /// The number of fields.
    pub fn len(&self) -> (n: usize)
        ensures
            n == self.fields().len(),
    {
        self.entries.len()
    }

    /// The position of the field named `name`, or `len()` if there is none.
    fn position(&self, name: &String) -> (i: usize)
        ensures
            i == index_of(names(self.fields()), name@),
            i <= self.fields().len(),
    {
        let mut i: usize = 0;
        while i < self.entries.len() && self.entries[i].0 != *name
            invariant
                i <= self.entries.len(),
                forall|j: int| 0 <= j < i ==> names(self.fields())[j] != name@,
            decreases self.entries.len() - i,
        {
            i += 1;
        }
        proof {
            lemma_index_of_unique(names(self.fields()), name@, i as int);
        }
        i
    }

    /// Sets `name` to `value`.
    pub fn insert(&mut self, name: String, value: String)
        ensures
            final(self).fields() == put(old(self).fields(), name@, value@),
            final(self)@ == old(self)@.insert(name@, value@),
            old(self).wf() ==> final(self).wf(),
    {
        let i = self.position(&name);
        proof {
            lemma_put(self.fields(), name@, value@);
        }
        if i < self.entries.len() {
            self.entries.set(i, (name, value));
        } else {
            self.entries.push((name, value));
        }
        assert(self.fields() =~= put(old(self).fields(), name@, value@));
    }

    /// The value of the field named `name`.
    pub fn get(&self, name: &str) -> (value: Option<&String>)
        ensures
            value is Some == self@.contains_key(name@),
            value matches Some(v) ==> v@ == self@[name@],
            (match value {
                Some(v) => Some(v@),
                None => None,
            }) == lookup(self.fields(), name@),
    {
        let name = String::from_str(name);
        let i = self.position(&name);
        if i < self.entries.len() {
            Some(&self.entries[i].1)
        } else {
            None
        }
    }

    /// Whether there is a field named `name`.
    pub fn contains_key(&self, name: &str) -> (found: bool)
        ensures
            found == self@.contains_key(name@),
    {
        self.get(name).is_some()
    }

    /// The name and the value of the `i`-th field.
    pub fn field(&self, i: usize) -> (field: (&str, &str))
        requires
            i < self.fields().len(),
        ensures
            (field.0@, field.1@) == self.fields()[i as int],
    {
        (self.entries[i].0.as_str(), self.entries[i].1.as_str())
    }

    /// Whether every name set here is set to the same value in `other`.
    fn within(&self, other: &Headers) -> (all: bool)
        ensures
            all == forall|name: Seq<char>| #[trigger]
                self@.contains_key(name) ==> other@.contains_key(name) && other@[name]
                    == self@[name],
    {
        let mut i: usize = 0;
        while i < self.entries.len()
            invariant
                i <= self.entries.len(),
                forall|j: int|
                    0 <= j < i ==> lookup(other.fields(), #[trigger] names(self.fields())[j])
                        == lookup(self.fields(), names(self.fields())[j]),
            decreases self.entries.len() - i,
        {
            let name = &self.entries[i].0;
            let first = self.position(name);
            proof {
                lemma_index_of(names(self.fields()), name@);
                assert(names(self.fields())[i as int] == name@);
            }
            let same = match other.get(name.as_str()) {
                Some(value) => *value == self.entries[first].1,
                None => false,
            };
            if !same {
                assert(self@.contains_key(name@));
                return false;
            }
            i += 1;
        }
        proof {
            assert forall|name: Seq<char>| #[trigger] self@.contains_key(name) implies other@.contains_key(
                name,
            ) && other@[name] == self@[name] by {
                lemma_index_of(names(self.fields()), name);
                let k = index_of(names(self.fields()), name);
                assert(names(self.fields())[k] == name);
            }
        }
        true
    }
}

impl PartialEq for Headers {
    /// Two collections are equal when they map the same names to the same
    /// values, in whatever order.
    fn eq(&self, other: &Headers) -> (equal: bool) {
        let equal = self.within(other) && other.within(self);
        proof {
            if equal {
                assert(self@ =~= other@);
            }
        }
        equal
    }
}

impl vstd::std_specs::cmp::PartialEqSpecImpl for Headers {
    open spec fn obeys_eq_spec() -> bool {
        true
    }

    open spec fn eq_spec(&self, other: &Headers) -> bool {
        self@ == other@
    }
}

} // verus!
