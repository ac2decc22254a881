//! A small string-keyed table, the storage shape behind the in-memory store.
//!
//! Entries are held in insertion order; the abstract view is the `Map` that
//! results from inserting every pair in order, so a later entry for the same
//! key shadows an earlier one. Lookups search from the rear, and updates
//! rewrite the entry in place.

use vstd::prelude::*;

verus! {

/// A string-keyed table with a `Map` view.
pub struct Table<V> {
    entries: Vec<(String, V)>,
}

/// The map induced by an entry sequence: pairs inserted in order, so the
/// last entry for a key wins.
pub open spec fn map_of<V>(s: Seq<(String, V)>) -> Map<Seq<char>, V>
    decreases s.len(),
{
    if s.len() == 0 {
        Map::empty()
    } else {
        map_of(s.drop_last()).insert(s.last().0@, s.last().1)
    }
}

/// Inserting for two distinct keys commutes.
proof fn lemma_insert_commutes<V>(m: Map<Seq<char>, V>, k1: Seq<char>, v1: V, k2: Seq<char>, v2: V)
    requires
        k1 != k2,
    ensures
        m.insert(k1, v1).insert(k2, v2) == m.insert(k2, v2).insert(k1, v1),
{
    assert(m.insert(k1, v1).insert(k2, v2) =~= m.insert(k2, v2).insert(k1, v1));
}

/// Rewriting entry `i` in place is, on the map, an insert for its key,
/// provided no later entry shadows that key.
proof fn lemma_update_is_insert<V>(s: Seq<(String, V)>, i: int, v: V)
    requires
        0 <= i < s.len(),
        forall|j: int| i < j < s.len() ==> s[j].0@ != s[i].0@,
    ensures
        map_of(s.update(i, (s[i].0, v))) == map_of(s).insert(s[i].0@, v),
    decreases s.len(),
{
    let s2 = s.update(i, (s[i].0, v));
    if i == s.len() - 1 {
        assert(s2.drop_last() =~= s.drop_last());
        assert(map_of(s2) == map_of(s.drop_last()).insert(s[i].0@, v));
        assert(map_of(s).insert(s[i].0@, v) =~= map_of(s.drop_last()).insert(s[i].0@, v));
    } else {
        let front = s.drop_last();
        assert(s2.drop_last() =~= front.update(i, (front[i].0, v)));
        assert(s2.last() == s.last());
        lemma_update_is_insert(front, i, v);
        lemma_insert_commutes(map_of(front), front[i].0@, v, s.last().0@, s.last().1);
    }
}

/// If no entry of `s` from position `i` on has key `k`, then `k`'s binding in
/// the map is decided by the first `i` entries.
proof fn lemma_absent_after<V>(s: Seq<(String, V)>, i: int, k: Seq<char>)
    requires
        0 <= i <= s.len(),
        forall|j: int| i <= j < s.len() ==> s[j].0@ != k,
    ensures
        map_of(s).contains_key(k) == map_of(s.take(i)).contains_key(k),
        map_of(s).contains_key(k) ==> map_of(s)[k] == map_of(s.take(i))[k],
    decreases s.len() - i,
{
    if i < s.len() {
        let front = s.drop_last();
        assert(front =~= s.take(s.len() - 1));
        lemma_absent_after(front, i, k);
        assert(front.take(i) =~= s.take(i));
    } else {
        assert(s.take(i) =~= s);
    }
}

impl<V> Table<V> {
    /// The abstract contents of the table.
    pub closed spec fn view(&self) -> Map<Seq<char>, V> {
        map_of(self.entries@)
    }

    /// An empty table.
    pub fn new() -> (r: Table<V>)
        ensures
            r@ == Map::<Seq<char>, V>::empty(),
    {
        Table { entries: Vec::new() }
    }

    /// Looks the key up.
    pub fn get(&self, key: &str) -> (r: Option<&V>)
        ensures
            match r {
                Some(v) => self@.contains_key(key@) && *v == self@[key@],
                None => !self@.contains_key(key@),
            },
    {
        let owned: String = key.to_owned();
        let n = self.entries.len();
        let mut i = n;
        while i > 0
            invariant
                i <= n,
                owned@ == key@,
                n == self.entries.len(),
                forall|j: int| i <= j < n ==> self.entries@[j].0@ != key@,
            decreases i,
        {
            i = i - 1;
            if self.entries[i].0 == owned {
                proof {
                    lemma_absent_after(self.entries@, i + 1, key@);
                    assert(self.entries@.take(i + 1).drop_last() =~= self.entries@.take(i as int));
                    assert(self.entries@.take(i + 1).last() == self.entries@[i as int]);
                }
                return Some(&self.entries[i].1);
            }
        }
        proof {
            lemma_absent_after(self.entries@, 0, key@);
            assert(self.entries@.take(0) =~= Seq::<(String, V)>::empty());
        }
        None
    }

    /// Binds the key to the value, replacing any earlier binding.
    pub fn set(&mut self, key: String, value: V)
        ensures
            final(self)@ == old(self)@.insert(key@, value),
    {
        let n = self.entries.len();
        let mut i = n;
        while i > 0
            invariant
                i <= n,
                n == self.entries.len(),
                self.entries == old(self).entries,
                forall|j: int| i <= j < n ==> self.entries@[j].0@ != key@,
            decreases i,
        {
            i = i - 1;
            if self.entries[i].0 == key {
                proof {
                    lemma_update_is_insert(self.entries@, i as int, value);
                }
                let ghost s_old = self.entries@;
                self.entries[i].1 = value;
                proof {
                    assert(self.entries@ =~= s_old.update(i as int, (s_old[i as int].0, value)));
                }
                return ;
            }
        }
        self.entries.push((key, value));
        proof {
            assert(self.entries@.drop_last() =~= old(self).entries@);
        }
    }
}

} // verus!
