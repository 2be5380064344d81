//! The groups of a policy, by name, and the resolution of a user's groups.

use vstd::prelude::*;
use crate::model::NacmGroup;
use crate::text::same_text;

verus! {

/// The keys of `entries` are pairwise different.
spec fn distinct_keys(entries: Seq<(String, NacmGroup)>) -> bool {
    forall|i: int, j: int|
        0 <= i < j < entries.len() ==> (#[trigger] entries[i]).0@ != (#[trigger] entries[j]).0@
}

/// Some entry of `entries` has the key `k`.
spec fn has_key(entries: Seq<(String, NacmGroup)>, k: Seq<char>) -> bool {
    exists|i: int| 0 <= i < entries.len() && (#[trigger] entries[i]).0@ == k
}

/// The index of an entry of `entries` with the key `k`.
spec fn index_of(entries: Seq<(String, NacmGroup)>, k: Seq<char>) -> int {
    choose|i: int| 0 <= i < entries.len() && (#[trigger] entries[i]).0@ == k
}

/// The keys of the first `n` entries.
spec fn keys_before(entries: Seq<(String, NacmGroup)>, n: int) -> Set<Seq<char>> {
    Set::new(|k: Seq<char>| exists|i: int| 0 <= i < n && (#[trigger] entries[i]).0@ == k)
}

/// One of the first `n` entries has the key `g` and a group that holds `user`.
spec fn member_before(
    entries: Seq<(String, NacmGroup)>,
    n: int,
    user: Seq<char>,
    g: Seq<char>,
) -> bool {
    exists|k: int|
        0 <= k < n && (#[trigger] entries[k]).0@ == g && entries[k].1.spec_has_user(user)
}

/// The names in `names`, as a set.
pub open spec fn name_set(names: Seq<&str>) -> Set<Seq<char>> {
    Set::new(|g: Seq<char>| exists|i: int| 0 <= i < names.len() && (#[trigger] names[i])@ == g)
}

proof fn lemma_index_of(entries: Seq<(String, NacmGroup)>, i: int)
    requires
        distinct_keys(entries),
        0 <= i < entries.len(),
    ensures
        has_key(entries, entries[i].0@),
        index_of(entries, entries[i].0@) == i,
{
    let k = entries[i].0@;
    let j = index_of(entries, k);
    assert(0 <= j < entries.len() && entries[j].0@ == k);
    if j < i {
        assert(entries[j].0@ != entries[i].0@);
    } else if i < j {
        assert(entries[i].0@ != entries[j].0@);
    }
}

proof fn lemma_keys_before_len(entries: Seq<(String, NacmGroup)>, n: int)
    requires
        distinct_keys(entries),
        0 <= n <= entries.len(),
    ensures
        keys_before(entries, n).finite(),
        keys_before(entries, n).len() == n,
    decreases n,
{
    if n == 0 {
        assert(keys_before(entries, 0) =~= Set::<Seq<char>>::empty());
    } else {
        lemma_keys_before_len(entries, n - 1);
        let k = entries[n - 1].0@;
        let before = keys_before(entries, n - 1);
        assert(!before.contains(k)) by {
            if before.contains(k) {
                let i = choose|i: int| 0 <= i < n - 1 && (#[trigger] entries[i]).0@ == k;
                assert(entries[i].0@ != entries[n - 1].0@);
            }
        }
        assert(keys_before(entries, n) =~= before.insert(k)) by {
            assert forall|q: Seq<char>| keys_before(entries, n).contains(q) implies before.insert(
                k,
            ).contains(q) by {
                let i = choose|i: int| 0 <= i < n && (#[trigger] entries[i]).0@ == q;
                if i < n - 1 {
                    assert(before.contains(q));
                }
            }
            assert forall|q: Seq<char>| before.insert(k).contains(q) implies keys_before(
                entries,
                n,
            ).contains(q) by {
                if q == k {
                    assert(entries[n - 1].0@ == q);
                } else {
                    let i = choose|i: int| 0 <= i < n - 1 && (#[trigger] entries[i]).0@ == q;
                    assert(entries[i].0@ == q);
                }
            }
        }
    }
}

/// A map from group names to groups. Its view is a `Map` keyed by the names'
/// characters.
#[derive(Debug)]
pub struct GroupMap {
    entries: Vec<(String, NacmGroup)>,
}

impl View for GroupMap {
    type V = Map<Seq<char>, NacmGroup>;

    closed spec fn view(&self) -> Map<Seq<char>, NacmGroup> {
        Map::new(
            |k: Seq<char>| has_key(self.entries@, k),
            |k: Seq<char>| self.entries@[index_of(self.entries@, k)].1,
        )
    }
}

impl Clone for GroupMap {
    fn clone(&self) -> (r: Self)
        ensures
            r@.dom() == self@.dom(),
            forall|k: Seq<char>| self@.contains_key(k) ==> (#[trigger] r@[k]).same_as(&self@[k]),
    {
        proof {
            use_type_invariant(self);
        }
        let mut entries: Vec<(String, NacmGroup)> = Vec::new();
        let mut i: usize = 0;
        while i < self.entries.len()
            invariant
                i <= self.entries@.len(),
                entries@.len() == i,
                forall|k: int|
                    0 <= k < i ==> (#[trigger] entries@[k]).0@ == self.entries@[k].0@
                        && entries@[k].1.same_as(&self.entries@[k].1),
            decreases self.entries@.len() - i,
        {
            let e = &self.entries[i];
            entries.push((e.0.clone(), e.1.clone()));
            i += 1;
        }
        proof {
            assert(distinct_keys(entries@)) by {
                assert forall|a: int, b: int| 0 <= a < b < entries@.len() implies (
                #[trigger] entries@[a]).0@ != (#[trigger] entries@[b]).0@ by {
                    assert(self.entries@[a].0@ != self.entries@[b].0@);
                }
            }
        }
        let r = GroupMap { entries };
        proof {
            assert forall|k: Seq<char>| has_key(r.entries@, k) == has_key(self.entries@, k) by {
                if has_key(r.entries@, k) {
                    let a = index_of(r.entries@, k);
                    assert(self.entries@[a].0@ == k);
                }
                if has_key(self.entries@, k) {
                    let a = index_of(self.entries@, k);
                    assert(r.entries@[a].0@ == k);
                }
            }
            assert(r@.dom() =~= self@.dom());
            assert forall|k: Seq<char>| self@.contains_key(k) implies (#[trigger] r@[k]).same_as(
                &self@[k],
            ) by {
                let a = index_of(self.entries@, k);
                assert(r.entries@[a].0@ == k);
                lemma_index_of(r.entries@, a);
            }
        }
        r
    }
}

impl GroupMap {
    /// No two entries have the same key.
    #[verifier::type_invariant]
    closed spec fn well_formed(&self) -> bool {
        distinct_keys(self.entries@)
    }

    /// The empty map.
    pub fn new() -> (r: Self)
        ensures
            r@ == Map::<Seq<char>, NacmGroup>::empty(),
    {
        let r = GroupMap { entries: Vec::new() };
        assert(r@ =~= Map::<Seq<char>, NacmGroup>::empty());
        r
    }

    /// The place of the entry with key `name`, if there is one.
    fn find(&self, name: &str) -> (r: Option<usize>)
        ensures
            match r {
                Some(i) => i < self.entries@.len() && self.entries@[i as int].0@ == name@
                    && has_key(self.entries@, name@) && index_of(self.entries@, name@) == i,
                None => !has_key(self.entries@, name@),
            },
    {
        proof {
            use_type_invariant(self);
        }
        let mut i: usize = 0;
        while i < self.entries.len()
            invariant
                distinct_keys(self.entries@),
                i <= self.entries@.len(),
                forall|k: int| 0 <= k < i ==> (#[trigger] self.entries@[k]).0@ != name@,
            decreases self.entries@.len() - i,
        {
            if same_text(self.entries[i].0.as_str(), name) {
                proof {
                    lemma_index_of(self.entries@, i as int);
                }
                return Some(i);
            }
            i += 1;
        }
        None
    }

    /// The number of groups.
    pub fn len(&self) -> (r: usize)
        ensures
            self@.dom().finite(),
            r == self@.len(),
    {
        proof {
            use_type_invariant(self);
            lemma_keys_before_len(self.entries@, self.entries@.len() as int);
            assert(self@.dom() =~= keys_before(self.entries@, self.entries@.len() as int));
        }
        self.entries.len()
    }

    /// Whether there is no group.
    pub fn is_empty(&self) -> (r: bool)
        ensures
            r == (self@ == Map::<Seq<char>, NacmGroup>::empty()),
    {
        let r = self.entries.len() == 0;
        proof {
            if r {
                assert(self@ =~= Map::<Seq<char>, NacmGroup>::empty());
            } else {
                assert(has_key(self.entries@, self.entries@[0].0@));
                assert(self@.dom().contains(self.entries@[0].0@));
            }
        }
        r
    }

    /// Whether a group is stored under `name`.
    pub fn contains_key(&self, name: &str) -> (r: bool)
        ensures
            r == self@.contains_key(name@),
    {
        self.find(name).is_some()
    }

    /// The group stored under `name`, if there is one.
    pub fn get(&self, name: &str) -> (r: Option<&NacmGroup>)
        ensures
            match r {
                Some(g) => self@.contains_key(name@) && *g == self@[name@],
                None => !self@.contains_key(name@),
            },
    {
        match self.find(name) {
            Some(i) => Some(&self.entries[i].1),
            None => None,
        }
    }

    /// Stores `group` under `name` and hands back the group that was stored
    /// there before, if there was one.
    pub fn insert(&mut self, name: String, group: NacmGroup) -> (r: Option<NacmGroup>)
        ensures
            final(self)@ == old(self)@.insert(name@, group),
            match r {
                Some(g) => old(self)@.contains_key(name@) && g == old(self)@[name@],
                None => !old(self)@.contains_key(name@),
            },
    {
        proof {
            use_type_invariant(&*self);
        }
        let found = self.find(name.as_str());
        let mut entries: Vec<(String, NacmGroup)> = Vec::new();
        core::mem::swap(&mut entries, &mut self.entries);
        let ghost before = entries@;
        let r = match found {
            Some(i) => {
                let e = entries.remove(i);
                Some(e.1)
            },
            None => None,
        };
        let ghost kept = entries@;
        entries.push((name, group));
        proof {
            assert forall|a: int| 0 <= a < kept.len() implies (#[trigger] kept[a]).0@ != name@ by {
                match found {
                    Some(i) => {
                        if a < i {
                            assert(kept[a] == before[a]);
                            assert(before[a].0@ != before[i as int].0@);
                        } else {
                            assert(kept[a] == before[a + 1]);
                            assert(before[i as int].0@ != before[a + 1].0@);
                        }
                    },
                    None => {
                        assert(kept[a] == before[a]);
                        if before[a].0@ == name@ {
                            assert(has_key(before, name@));
                        }
                    },
                }
            }
            assert(distinct_keys(kept)) by {
                assert forall|a: int, b: int| 0 <= a < b < kept.len() implies (#[trigger] kept[a]).0@
                    != (#[trigger] kept[b]).0@ by {
                    match found {
                        Some(i) => {
                            let a0 = if a < i { a } else { a + 1 };
                            let b0 = if b < i { b } else { b + 1 };
                            assert(kept[a] == before[a0]);
                            assert(kept[b] == before[b0]);
                            assert(before[a0].0@ != before[b0].0@);
                        },
                        None => {
                            assert(before[a].0@ != before[b].0@);
                        },
                    }
                }
            }
            assert(distinct_keys(entries@)) by {
                assert forall|a: int, b: int| 0 <= a < b < entries@.len() implies (
                #[trigger] entries@[a]).0@ != (#[trigger] entries@[b]).0@ by {
                    if b < kept.len() {
                        assert(kept[a].0@ != kept[b].0@);
                    } else {
                        assert(entries@[a] == kept[a]);
                        assert(kept[a].0@ != name@);
                    }
                }
            }
        }
        self.entries = entries;
        proof {
            let after = self.entries@;
            let last = after.len() - 1;
            assert(after[last].0@ == name@ && after[last].1 == group);
            lemma_index_of(after, last);
            assert forall|q: Seq<char>| q != name@ implies has_key(after, q) == has_key(
                before,
                q,
            ) && (has_key(before, q) ==> after[index_of(after, q)].1 == before[index_of(
                before,
                q,
            )].1) by {
                if has_key(before, q) {
                    let b0 = index_of(before, q);
                    lemma_index_of(before, b0);
                    let a0: int = match found {
                        Some(i) => if b0 < i { b0 } else { b0 - 1 },
                        None => b0,
                    };
                    match found {
                        Some(i) => {
                            assert(b0 != i);
                        },
                        None => {},
                    }
                    assert(after[a0] == before[b0]);
                    lemma_index_of(after, a0);
                }
                if has_key(after, q) {
                    let a1 = index_of(after, q);
                    assert(a1 != last);
                    let b1: int = match found {
                        Some(i) => if a1 < i { a1 } else { a1 + 1 },
                        None => a1,
                    };
                    assert(after[a1] == before[b1]);
                    lemma_index_of(before, b1);
                }
            }
            assert(self@ =~= old(self)@.insert(name@, group));
        }
        r
    }

    /// The names under which groups are stored, in no particular order.
    pub fn keys(&self) -> (r: Vec<&str>)
        ensures
            name_set(r@) == self@.dom(),
            r@.len() == self@.len(),
    {
        proof {
            use_type_invariant(self);
            lemma_keys_before_len(self.entries@, self.entries@.len() as int);
            assert(self@.dom() =~= keys_before(self.entries@, self.entries@.len() as int));
        }
        let mut names: Vec<&str> = Vec::new();
        let mut i: usize = 0;
        while i < self.entries.len()
            invariant
                i <= self.entries@.len(),
                names@.len() == i,
                forall|k: int| 0 <= k < i ==> (#[trigger] names@[k])@ == self.entries@[k].0@,
            decreases self.entries@.len() - i,
        {
            names.push(self.entries[i].0.as_str());
            i += 1;
        }
        proof {
            assert forall|g: Seq<char>| name_set(names@).contains(g) == self@.dom().contains(g) by {
                if name_set(names@).contains(g) {
                    let n = choose|n: int| 0 <= n < names@.len() && (#[trigger] names@[n])@ == g;
                    assert(self.entries@[n].0@ == g);
                }
                if self@.dom().contains(g) {
                    let k = index_of(self.entries@, g);
                    assert(names@[k]@ == g);
                }
            }
            assert(name_set(names@) =~= self@.dom());
        }
        names
    }

    /// The names of the groups that `user` belongs to.
    pub open spec fn spec_groups_of(&self, user: Seq<char>) -> Set<Seq<char>> {
        Set::new(|g: Seq<char>| self@.contains_key(g) && self@[g].spec_has_user(user))
    }

    /// The names of the groups whose list of users holds `user`.
    pub fn groups_of(&self, user: &str) -> (r: Vec<&str>)
        ensures
            name_set(r@) == self.spec_groups_of(user@),
    {
        proof {
            use_type_invariant(self);
        }
        let mut names: Vec<&str> = Vec::new();
        let mut i: usize = 0;
        while i < self.entries.len()
            invariant
                i <= self.entries@.len(),
                forall|g: Seq<char>|
                    name_set(names@).contains(g) == member_before(self.entries@, i as int, user@, g),
            decreases self.entries@.len() - i,
        {
            let ghost prior = names@;
            let ghost key = self.entries@[i as int].0@;
            let member = self.entries[i].1.has_user(user);
            if member {
                names.push(self.entries[i].0.as_str());
            }
            proof {
                assert forall|g: Seq<char>|
                    name_set(names@).contains(g) == member_before(
                        self.entries@,
                        i + 1,
                        user@,
                        g,
                    ) by {
                    if name_set(names@).contains(g) {
                        let n = choose|n: int| 0 <= n < names@.len() && (#[trigger] names@[n])@ == g;
                        if n < prior.len() {
                            assert(prior[n]@ == g);
                            assert(name_set(prior).contains(g));
                            let k = choose|k: int|
                                0 <= k < i && (#[trigger] self.entries@[k]).0@ == g
                                    && self.entries@[k].1.spec_has_user(user@);
                            assert(self.entries@[k].0@ == g);
                        } else {
                            assert(self.entries@[i as int].0@ == g);
                        }
                        assert(member_before(self.entries@, i + 1, user@, g));
                    }
                    if member_before(self.entries@, i + 1, user@, g) {
                        let k = choose|k: int|
                            0 <= k < i + 1 && (#[trigger] self.entries@[k]).0@ == g
                                && self.entries@[k].1.spec_has_user(user@);
                        if k < i {
                            assert(member_before(self.entries@, i as int, user@, g));
                            assert(name_set(prior).contains(g));
                            let n = choose|n: int| 0 <= n < prior.len() && (#[trigger] prior[n])@ == g;
                            assert(names@[n]@ == g);
                        } else {
                            assert(member);
                            assert(names@[names@.len() - 1]@ == g);
                        }
                        assert(name_set(names@).contains(g));
                    }
                }
            }
            i += 1;
        }
        proof {
            assert forall|g: Seq<char>| name_set(names@).contains(g) == self.spec_groups_of(
                user@,
            ).contains(g) by {
                if member_before(self.entries@, i as int, user@, g) {
                    let k = choose|k: int|
                        0 <= k < i && (#[trigger] self.entries@[k]).0@ == g
                            && self.entries@[k].1.spec_has_user(user@);
                    lemma_index_of(self.entries@, k);
                }
                if self.spec_groups_of(user@).contains(g) {
                    let k = index_of(self.entries@, g);
                    assert(self.entries@[k].0@ == g);
                    assert(self.entries@[k].1.spec_has_user(user@));
                    assert(member_before(self.entries@, i as int, user@, g));
                }
            }
            assert(name_set(names@) =~= self.spec_groups_of(user@));
        }
        names
    }
}

} // verus!
