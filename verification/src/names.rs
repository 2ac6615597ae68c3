//! The mapping from package names to owners that a scan builds.

use vstd::prelude::*;

verus! {

/// No name occurs at two positions of `order`.
pub open spec fn names_distinct(order: Seq<(Seq<char>, u32)>) -> bool {
    forall|i: int, j: int|
        0 <= i < j < order.len() ==> (#[trigger] order[i]).0 != (#[trigger] order[j]).0
}

/// `name` occurs at position `i` of `order`.
pub open spec fn named_at(order: Seq<(Seq<char>, u32)>, name: Seq<char>, i: int) -> bool {
    0 <= i < order.len() && order[i].0 == name
}

/// `name` occurs in `order`.
pub open spec fn has_name(order: Seq<(Seq<char>, u32)>, name: Seq<char>) -> bool {
    exists|i: int| named_at(order, name, i)
}

/// A position at which `name` occurs in `order`, where it occurs at all.
pub open spec fn position_of(order: Seq<(Seq<char>, u32)>, name: Seq<char>) -> int {
    choose|i: int| named_at(order, name, i)
}

/// The mapping that the pairs of `order` describe.
pub open spec fn as_map(order: Seq<(Seq<char>, u32)>) -> Map<Seq<char>, u32> {
    Map::new(
        |name: Seq<char>| has_name(order, name),
        |name: Seq<char>| order[position_of(order, name)].1,
    )
}

/// The pairs after `name` was given the owner `uid`: a name already present
/// keeps its place and takes the new owner, a new name goes to the end.
pub open spec fn insert_ordered(order: Seq<(Seq<char>, u32)>, name: Seq<char>, uid: u32) -> Seq<
    (Seq<char>, u32),
> {
    if has_name(order, name) {
        order.update(position_of(order, name), (name, uid))
    } else {
        order.push((name, uid))
    }
}

/// Giving a name an owner keeps the names distinct, and the mapping
/// described afterwards is the earlier one with that one key set.
pub proof fn lemma_insert_ordered(order: Seq<(Seq<char>, u32)>, name: Seq<char>, uid: u32)
    requires
        names_distinct(order),
    ensures
        names_distinct(insert_ordered(order, name, uid)),
        as_map(insert_ordered(order, name, uid)) == as_map(order).insert(name, uid),
        insert_ordered(order, name, uid).len() == if has_name(order, name) {
            order.len()
        } else {
            order.len() + 1
        },
{
    let after = insert_ordered(order, name, uid);
    let at: int = if has_name(order, name) {
        position_of(order, name)
    } else {
        order.len() as int
    };
    assert(named_at(after, name, at));
    assert forall|k: int| 0 <= k < after.len() && k != at implies named_at(order, after[k].0, k)
        && after[k] == order[k] && after[k].0 != name by {
        if has_name(order, name) {
            assert(named_at(order, name, at));
            if k < at {
                assert(order[k].0 != order[at].0);
            } else {
                assert(order[at].0 != order[k].0);
            }
        } else {
            if order[k].0 == name {
                assert(named_at(order, name, k));
            }
        }
    }
    assert forall|i: int, j: int| 0 <= i < j < after.len() implies (#[trigger] after[i]).0 != (
    #[trigger] after[j]).0 by {
        if i != at && j != at {
            assert(order[i].0 != order[j].0);
        }
    }
    assert forall|other: Seq<char>| has_name(after, other) <==> (other == name || has_name(
        order,
        other,
    )) by {
        if has_name(order, other) && other != name {
            let i = position_of(order, other);
            assert(named_at(order, other, i));
            assert(named_at(after, other, i));
        }
        if has_name(after, other) && other != name {
            let i = position_of(after, other);
            assert(named_at(after, other, i));
            assert(named_at(order, other, i));
        }
    }
    assert forall|other: Seq<char>| has_name(after, other) implies as_map(after)[other] == (if other
        == name {
        uid
    } else {
        as_map(order)[other]
    }) by {
        let j = position_of(after, other);
        assert(named_at(after, other, j));
        if other == name {
            if j < at {
                assert(after[j].0 != after[at].0);
            }
            if at < j {
                assert(after[at].0 != after[j].0);
            }
        } else {
            let i = position_of(order, other);
            assert(named_at(order, other, i));
            if i < j {
                assert(order[i].0 != order[j].0);
            }
            if j < i {
                assert(order[j].0 != order[i].0);
            }
        }
    }
    assert(as_map(after) =~= as_map(order).insert(name, uid));
}

/// What `order` says of `name`: its owner, or nothing.
pub open spec fn owner_of(order: Seq<(Seq<char>, u32)>, name: Seq<char>) -> Option<u32> {
    if has_name(order, name) {
        Some(order[position_of(order, name)].1)
    } else {
        None
    }
}

/// Where the names are distinct, a name found at a position is found at no
/// other, so that position is the one `position_of` gives.
pub proof fn lemma_position_unique(order: Seq<(Seq<char>, u32)>, name: Seq<char>, i: int)
    requires
        names_distinct(order),
        named_at(order, name, i),
    ensures
        has_name(order, name),
        position_of(order, name) == i,
{
    let p = position_of(order, name);
    assert(named_at(order, name, p));
    if p < i {
        assert(order[p].0 != order[i].0);
    }
    if i < p {
        assert(order[i].0 != order[p].0);
    }
}

/// A package name with the user ID that owns its data.
#[derive(Debug)]
pub struct PackageUid {
    pub name: String,
    pub uid: u32,
}

impl PackageUid {
    /// The pair as plain values.
    pub open spec fn view(&self) -> (Seq<char>, u32) {
        (self.name@, self.uid)
    }
}

/// A mapping from package names to owners. No name is held twice, and the
/// names keep the order in which each was first inserted.
#[derive(Debug)]
pub struct PackageUidMap {
    entries: Vec<PackageUid>,
}

impl PackageUidMap {
    #[verifier::type_invariant]
    spec fn unique_names(self) -> bool {
        names_distinct(self.order())
    }

    /// The pairs held, in the order in which the names were first inserted.
    pub closed spec fn order(&self) -> Seq<(Seq<char>, u32)> {
        self.entries@.map_values(|e: PackageUid| e@)
    }

    /// The mapping held.
    pub open spec fn view(&self) -> Map<Seq<char>, u32> {
        as_map(self.order())
    }

    /// A mapping without names.
    pub fn new() -> (made: Self)
        ensures
            made.order() == Seq::<(Seq<char>, u32)>::empty(),
    {
        let made = PackageUidMap { entries: Vec::new() };
        assert(made.order() =~= Seq::<(Seq<char>, u32)>::empty());
        made
    }

    /// The number of names held. The names are pairwise distinct.
    pub fn len(&self) -> (n: usize)
        ensures
            n == self.order().len(),
            names_distinct(self.order()),
    {
        proof {
            use_type_invariant(self);
        }
        self.entries.len()
    }

    /// Whether no name is held.
    pub fn is_empty(&self) -> (empty: bool)
        ensures
            empty == (self.order().len() == 0),
    {
        self.entries.len() == 0
    }

    /// The pair at position `index` of the order.
    pub fn entry(&self, index: usize) -> (pair: &PackageUid)
        requires
            index < self.order().len(),
        ensures
            pair@ == self.order()[index as int],
    {
        &self.entries[index]
    }

    /// The position at which `name` is held, if it is held.
    fn find(entries: &Vec<PackageUid>, name: &String) -> (found: Option<usize>)
        ensures
            match found {
                Some(i) => i < entries@.len() && entries@[i as int].name@ == name@,
                None => forall|k: int| 0 <= k < entries@.len() ==> entries@[k].name@ != name@,
            },
    {
        let mut i: usize = 0;
        while i < entries.len()
            invariant
                i <= entries@.len(),
                forall|k: int| 0 <= k < i ==> entries@[k].name@ != name@,
            decreases entries@.len() - i,
        {
            if entries[i].name == *name {
                return Some(i);
            }
            i += 1;
        }
        None
    }

    /// The owner recorded for `name`, if the name is held.
    pub fn get(&self, name: &str) -> (owner: Option<u32>)
        ensures
            owner == owner_of(self.order(), name@),
    {
        proof {
            use_type_invariant(self);
        }
        let key = name.to_owned();
        match Self::find(&self.entries, &key) {
            Some(i) => {
                proof {
                    assert(named_at(self.order(), name@, i as int));
                    lemma_position_unique(self.order(), name@, i as int);
                }
                Some(self.entries[i].uid)
            },
            None => {
                assert forall|k: int| !named_at(self.order(), name@, k) by {}
                None
            },
        }
    }

    /// Records `uid` as the owner of `name` and returns the owner recorded
    /// before, if there was one. A name already held keeps its place.
    pub fn insert(&mut self, name: String, uid: u32) -> (previous: Option<u32>)
        ensures
            final(self).order() == insert_ordered(old(self).order(), name@, uid),
            names_distinct(final(self).order()),
            previous == owner_of(old(self).order(), name@),
    {
        proof {
            use_type_invariant(&*self);
            lemma_insert_ordered(self.order(), name@, uid);
        }
        let mut taken = PackageUidMap { entries: Vec::new() };
        assert(taken.order() =~= Seq::<(Seq<char>, u32)>::empty());
        core::mem::swap(self, &mut taken);
        let PackageUidMap { entries } = taken;
        let mut entries = entries;
        let ghost before = entries@.map_values(|e: PackageUid| e@);
        assert(before == old(self).order());
        let previous = match Self::find(&entries, &name) {
            Some(i) => {
                proof {
                    assert(named_at(before, name@, i as int));
                    lemma_position_unique(before, name@, i as int);
                }
                let was = entries[i].uid;
                entries.set(i, PackageUid { name, uid });
                Some(was)
            },
            None => {
                assert forall|k: int| !named_at(before, name@, k) by {}
                entries.push(PackageUid { name, uid });
                None
            },
        };
        assert(entries@.map_values(|e: PackageUid| e@) =~= insert_ordered(before, name@, uid));
        *self = PackageUidMap { entries };
        previous
    }
}

} // verus!
