//! The part of a DynamoDB attribute value that the library reads and writes,
//! and items as maps from attribute names to such values.
use crate::text::str_eq;
use vstd::prelude::*;

verus! {

/// A DynamoDB attribute value: a string (`S`), a number in its decimal text
/// (`N`), or any other kind of value.
#[derive(Debug, PartialEq, Eq)]
pub enum Attribute {
    S(String),
    N(String),
    Other,
}

/// What an attribute value holds.
pub enum AttributeModel {
    S(Seq<char>),
    N(Seq<char>),
    Other,
}

impl View for Attribute {
    type V = AttributeModel;

    open spec fn view(&self) -> AttributeModel {
        match self {
            Attribute::S(s) => AttributeModel::S(s@),
            Attribute::N(n) => AttributeModel::N(n@),
            Attribute::Other => AttributeModel::Other,
        }
    }
}

impl Attribute {
    pub fn as_s(&self) -> (r: Option<&String>)
        ensures
            self@ matches AttributeModel::S(s) ==> (r matches Some(t) && t@ == s),
            !(self@ is S) ==> r is None,
    {
        match self {
            Attribute::S(s) => Some(s),
            _ => None,
        }
    }
}

/// The distinct names of the entries.
pub open spec fn distinct_names(entries: Seq<(String, Attribute)>) -> bool {
    forall|i: int, j: int|
        0 <= i < j < entries.len() ==> (#[trigger] entries[i]).0@ != (#[trigger] entries[j]).0@
}

/// The map from names to values that distinct entries make.
pub open spec fn entries_map(entries: Seq<(String, Attribute)>) -> Map<Seq<char>, AttributeModel>
    decreases entries.len(),
{
    if entries.len() == 0 {
        Map::empty()
    } else {
        entries_map(entries.drop_last()).insert(entries.last().0@, entries.last().1@)
    }
}

/// A DynamoDB item: attribute values by name, each name at most once.
#[derive(Debug)]
pub struct Item {
    entries: Vec<(String, Attribute)>,
}

impl View for Item {
    type V = Map<Seq<char>, AttributeModel>;

    closed spec fn view(&self) -> Map<Seq<char>, AttributeModel> {
        entries_map(self.entries@)
    }
}

proof fn lemma_entries_map_get(entries: Seq<(String, Attribute)>, i: int)
    requires
        distinct_names(entries),
        0 <= i < entries.len(),
    ensures
        entries_map(entries).contains_key(entries[i].0@),
        entries_map(entries)[entries[i].0@] == entries[i].1@,
    decreases entries.len(),
{
    if i < entries.len() - 1 {
        lemma_entries_map_get(entries.drop_last(), i);
    }
}

proof fn lemma_entries_map_absent(entries: Seq<(String, Attribute)>, key: Seq<char>)
    requires
        forall|i: int| 0 <= i < entries.len() ==> (#[trigger] entries[i]).0@ != key,
    ensures
        !entries_map(entries).contains_key(key),
    decreases entries.len(),
{
    if entries.len() > 0 {
        lemma_entries_map_absent(entries.drop_last(), key);
    }
}

proof fn lemma_entries_map_update(entries: Seq<(String, Attribute)>, i: int, e: (String, Attribute))
    requires
        distinct_names(entries),
        0 <= i < entries.len(),
        e.0@ == entries[i].0@,
    ensures
        distinct_names(entries.update(i, e)),
        entries_map(entries.update(i, e)) == entries_map(entries).insert(e.0@, e.1@),
    decreases entries.len(),
{
    let u = entries.update(i, e);
    if i == entries.len() - 1 {
        assert(u.drop_last() =~= entries.drop_last());
        assert(entries_map(u) =~= entries_map(entries).insert(e.0@, e.1@));
    } else {
        lemma_entries_map_update(entries.drop_last(), i, e);
        assert(u.drop_last() =~= entries.drop_last().update(i, e));
        assert(entries_map(u) =~= entries_map(entries).insert(e.0@, e.1@));
    }
}

impl Item {
    #[verifier::type_invariant]
    pub closed spec fn well_formed(self) -> bool {
        distinct_names(self.entries@)
    }

    /// An item with no attributes.
    pub fn new() -> (r: Item)
        ensures
            r@ == Map::<Seq<char>, AttributeModel>::empty(),
    {
        Item { entries: Vec::new() }
    }

    /// The entries, each name once.
    pub fn entries(&self) -> (r: &Vec<(String, Attribute)>)
        ensures
            distinct_names(r@),
            entries_map(r@) == self@,
    {
        proof {
            use_type_invariant(self);
        }
        &self.entries
    }

    /// The value stored under a name.
    pub fn get(&self, key: &str) -> (r: Option<&Attribute>)
        ensures
            self@.contains_key(key@) ==> (r matches Some(a) && a@ == self@[key@]),
            !self@.contains_key(key@) ==> r is None,
    {
        proof {
            use_type_invariant(self);
        }
        let n = self.entries.len();
        let mut i: usize = 0;
        while i < n
            invariant
                n == self.entries@.len(),
                i <= n,
                distinct_names(self.entries@),
                forall|j: int| 0 <= j < i ==> (#[trigger] self.entries@[j]).0@ != key@,
            decreases n - i,
        {
            if str_eq(self.entries[i].0.as_str(), key) {
                proof {
                    lemma_entries_map_get(self.entries@, i as int);
                }
                return Some(&self.entries[i].1);
            }
            i = i + 1;
        }
        proof {
            lemma_entries_map_absent(self.entries@, key@);
        }
        None
    }

    /// Stores a value under a name, in place of what was stored there.
    pub fn insert(&mut self, key: String, value: Attribute)
        ensures
            final(self)@ == old(self)@.insert(key@, value@),
    {
        proof {
            use_type_invariant(&*self);
        }
        let n = self.entries.len();
        let mut i: usize = 0;
        while i < n
            invariant
                n == self.entries@.len(),
                i <= n,
                distinct_names(self.entries@),
                self.entries@ == old(self).entries@,
                forall|j: int| 0 <= j < i ==> (#[trigger] self.entries@[j]).0@ != key@,
            decreases n - i,
        {
            if str_eq(self.entries[i].0.as_str(), key.as_str()) {
                let ghost old_entries = self.entries@;
                let ghost e = (key, value);
                proof {
                    lemma_entries_map_update(old_entries, i as int, e);
                }
                let mut entries = Vec::new();
                std::mem::swap(&mut entries, &mut self.entries);
                entries.set(i, (key, value));
                self.entries = entries;
                assert(self.entries@ == old_entries.update(i as int, e));
                return;
            }
            i = i + 1;
        }
        let ghost old_entries = self.entries@;
        proof {
            lemma_entries_map_absent(old_entries, key@);
        }
        let mut entries = Vec::new();
        std::mem::swap(&mut entries, &mut self.entries);
        entries.push((key, value));
        proof {
            assert(entries@.drop_last() =~= old_entries);
            assert forall|a: int, b: int| 0 <= a < b < entries@.len() implies (#[trigger] entries@[a]).0@
                != (#[trigger] entries@[b]).0@ by {
                if b < entries@.len() - 1 {
                    assert(entries@[a] == old_entries[a]);
                    assert(entries@[b] == old_entries[b]);
                } else {
                    assert(entries@[a] == old_entries[a]);
                }
            }
        }
        self.entries = entries;
        proof {
            assert(self.entries@.drop_last() =~= old_entries);
        }
    }
}

} // verus!
