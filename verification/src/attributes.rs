//! The attributes of a span: a map from names to values, both strings.
//!
//! Each name is held once. Recording a value under a name that is there
//! replaces the value and leaves the name in its place.

use crate::text::compare;
use crate::text::Rank;
use vstd::prelude::*;

verus! {

/// The entries of `entries` as pairs of character sequences.
pub open spec fn pairs(entries: Seq<(String, String)>) -> Seq<(Seq<char>, Seq<char>)> {
    Seq::new(entries.len(), |i: int| (entries[i].0@, entries[i].1@))
}

/// The map that a sequence of entries stands for; of two entries with one
/// name the later one counts.
pub open spec fn map_of(entries: Seq<(Seq<char>, Seq<char>)>) -> Map<Seq<char>, Seq<char>>
    decreases entries.len(),
{
    if entries.len() == 0 {
        Map::empty()
    } else {
        map_of(entries.drop_last()).insert(entries.last().0, entries.last().1)
    }
}

/// No two entries have the same name.
pub open spec fn distinct_names(entries: Seq<(Seq<char>, Seq<char>)>) -> bool {
    forall|i: int, j: int|
        0 <= i < j < entries.len() ==> (#[trigger] entries[i]).0 != (#[trigger] entries[j]).0
}

/// The map of some entries holds exactly their names.
pub proof fn lemma_map_of_names(entries: Seq<(Seq<char>, Seq<char>)>, name: Seq<char>)
    ensures
        map_of(entries).contains_key(name) <==> exists|i: int|
            0 <= i < entries.len() && (#[trigger] entries[i]).0 == name,
    decreases entries.len(),
{
    if entries.len() > 0 {
        let rest = entries.drop_last();
        lemma_map_of_names(rest, name);
        if map_of(entries).contains_key(name) {
            if entries.last().0 == name {
                assert(entries[entries.len() - 1].0 == name);
            } else {
                let i = choose|i: int| 0 <= i < rest.len() && (#[trigger] rest[i]).0 == name;
                assert(entries[i].0 == name);
            }
        }
        if exists|i: int| 0 <= i < entries.len() && (#[trigger] entries[i]).0 == name {
            let i = choose|i: int| 0 <= i < entries.len() && (#[trigger] entries[i]).0 == name;
            if i < rest.len() {
                assert(rest[i].0 == name);
            }
        }
    }
}

/// Where names are distinct, the map gives each name the value of its
/// entry.
pub proof fn lemma_map_of_value(entries: Seq<(Seq<char>, Seq<char>)>, at: int)
    requires
        distinct_names(entries),
        0 <= at < entries.len(),
    ensures
        map_of(entries).contains_key(entries[at].0),
        map_of(entries)[entries[at].0] == entries[at].1,
    decreases entries.len(),
{
    let rest = entries.drop_last();
    if at < rest.len() {
        assert(entries[at].0 != entries[entries.len() - 1].0);
        assert(distinct_names(rest)) by {
            assert forall|i: int, j: int| 0 <= i < j < rest.len() implies (#[trigger] rest[i]).0 != (
            #[trigger] rest[j]).0 by {
                assert(rest[i] == entries[i] && rest[j] == entries[j]);
            }
        }
        assert(rest[at] == entries[at]);
        lemma_map_of_value(rest, at);
    }
}

/// Where names are distinct, a new value in the entry of a name is that
/// value inserted under the name.
pub proof fn lemma_map_of_update(entries: Seq<(Seq<char>, Seq<char>)>, at: int, value: Seq<char>)
    requires
        distinct_names(entries),
        0 <= at < entries.len(),
    ensures
        map_of(entries.update(at, (entries[at].0, value))) == map_of(entries).insert(
            entries[at].0,
            value,
        ),
        distinct_names(entries.update(at, (entries[at].0, value))),
    decreases entries.len(),
{
    let name = entries[at].0;
    let changed = entries.update(at, (name, value));
    let rest = entries.drop_last();
    assert(distinct_names(changed)) by {
        assert forall|i: int, j: int| 0 <= i < j < changed.len() implies (#[trigger] changed[i]).0
            != (#[trigger] changed[j]).0 by {
            assert(changed[i].0 == entries[i].0 && changed[j].0 == entries[j].0);
        }
    }
    if at == entries.len() - 1 {
        assert(changed.drop_last() =~= rest);
        assert(map_of(changed) =~= map_of(entries).insert(name, value));
    } else {
        assert(distinct_names(rest)) by {
            assert forall|i: int, j: int| 0 <= i < j < rest.len() implies (#[trigger] rest[i]).0 != (
            #[trigger] rest[j]).0 by {
                assert(rest[i] == entries[i] && rest[j] == entries[j]);
            }
        }
        assert(rest[at] == entries[at]);
        lemma_map_of_update(rest, at, value);
        assert(changed.drop_last() =~= rest.update(at, (name, value)));
        assert(changed.last() == entries.last());
        assert(entries[at].0 != entries[entries.len() - 1].0);
        assert(map_of(changed) =~= map_of(entries).insert(name, value));
    }
}

/// The attributes of a span.
#[derive(Debug)]
pub struct Attributes {
    entries: Vec<(String, String)>,
}

impl View for Attributes {
    type V = Map<Seq<char>, Seq<char>>;

    /// The value of each name.
    closed spec fn view(&self) -> Map<Seq<char>, Seq<char>> {
        map_of(pairs(self.entries@))
    }
}

impl Attributes {
    /// The names with their values, in the order in which the names were
    /// first recorded.
    pub closed spec fn entries(&self) -> Seq<(Seq<char>, Seq<char>)> {
        pairs(self.entries@)
    }

    /// No name is held twice.
    #[verifier::type_invariant]
    pub closed spec fn wf(&self) -> bool {
        distinct_names(self.entries())
    }

    /// No attributes.
    pub fn new() -> (attributes: Attributes)
        ensures
            attributes@ == Map::<Seq<char>, Seq<char>>::empty(),
            attributes.entries() == Seq::<(Seq<char>, Seq<char>)>::empty(),
            attributes.wf(),
    {
        let attributes = Attributes { entries: Vec::new() };
        assert(attributes.entries() =~= Seq::<(Seq<char>, Seq<char>)>::empty());
        attributes
    }

    /// The number of names.
    pub fn len(&self) -> (n: usize)
        ensures
            n == self.entries().len(),
    {
        self.entries.len()
    }

    /// The place of `name` among the entries, if it is there.
    fn find(&self, name: &str) -> (place: Option<usize>)
        ensures
            match place {
                Some(at) => at < self.entries().len() && self.entries()[at as int].0 == name@,
                None => forall|i: int|
                    0 <= i < self.entries().len() ==> (#[trigger] self.entries()[i]).0 != name@,
            },
    {
        let n: usize = self.entries.len();
        let mut i: usize = 0;
        while i < n
            invariant
                i <= n,
                n == self.entries@.len(),
                self.entries().len() == n,
                forall|j: int| 0 <= j < i ==> (#[trigger] self.entries()[j]).0 != name@,
            decreases n - i,
        {
            assert(self.entries()[i as int].0 == self.entries@[i as int].0@);
            if compare(self.entries[i].0.as_str(), name) == Rank::Same {
                return Some(i);
            }
            i = i + 1;
        }
        None
    }

    /// The value recorded under `name`, if there is one.
    pub fn get(&self, name: &str) -> (value: Option<&String>)
        ensures
            match value {
                Some(v) => self@.contains_key(name@) && self@[name@] == v@,
                None => !self@.contains_key(name@),
            },
    {
        proof {
            use_type_invariant(self);
            lemma_map_of_names(self.entries(), name@);
        }
        match self.find(name) {
            Some(at) => {
                proof {
                    lemma_map_of_value(self.entries(), at as int);
                }
                Some(&self.entries[at].1)
            },
            None => None,
        }
    }

    /// Records `value` under `name`, in place of what was recorded there
    /// before.
    pub fn insert(&mut self, name: String, value: String)
        ensures
            final(self)@ == old(self)@.insert(name@, value@),
            final(self).wf(),
    {
        proof {
            use_type_invariant(&*self);
        }
        let place = self.find(name.as_str());
        let ghost before = self.entries();
        let ghost pair = (name@, value@);
        let mut taken = Attributes::new();
        core::mem::swap(self, &mut taken);
        let mut entries = taken.entries;
        match place {
            Some(at) => {
                entries.set(at, (name, value));
                proof {
                    lemma_map_of_update(before, at as int, pair.1);
                    assert(pairs(entries@) =~= before.update(at as int, (before[at as int].0, pair.1)));
                }
            },
            None => {
                entries.push((name, value));
                proof {
                    let after = pairs(entries@);
                    assert(after =~= before.push(pair));
                    assert(after.drop_last() =~= before);
                    assert forall|i: int, j: int| 0 <= i < j < after.len() implies (
                    #[trigger] after[i]).0 != (#[trigger] after[j]).0 by {
                        if j < before.len() {
                            assert(after[i] == before[i] && after[j] == before[j]);
                        } else {
                            assert(after[i] == before[i]);
                        }
                    }
                }
            },
        }
        *self = Attributes { entries };
    }

    /// The names with their values, in the order in which the names were
    /// first recorded.
    pub fn to_vec(&self) -> (list: Vec<(String, String)>)
        ensures
            pairs(list@) == self.entries(),
            map_of(pairs(list@)) == self@,
            distinct_names(pairs(list@)),
    {
        proof {
            use_type_invariant(self);
        }
        let n: usize = self.entries.len();
        let mut list: Vec<(String, String)> = Vec::new();
        let mut i: usize = 0;
        while i < n
            invariant
                i <= n,
                n == self.entries@.len(),
                list@.len() == i,
                forall|j: int|
                    0 <= j < i ==> (#[trigger] list@[j]).0@ == self.entries@[j].0@ && list@[j].1@
                        == self.entries@[j].1@,
            decreases n - i,
        {
            list.push((self.entries[i].0.clone(), self.entries[i].1.clone()));
            i = i + 1;
        }
        assert(pairs(list@) =~= self.entries());
        list
    }
}

impl Clone for Attributes {
    /// A copy with the same entries.
    fn clone(&self) -> (copy: Attributes)
        ensures
            copy@ == self@,
            copy.entries() == self.entries(),
            copy.wf(),
    {
        proof {
            use_type_invariant(self);
        }
        Attributes { entries: self.to_vec() }
    }
}

} // verus!
