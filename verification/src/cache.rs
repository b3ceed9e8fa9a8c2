//! Key-value stores behind the subscription caches: association lists with
//! unique keys, viewed as mathematical maps.  One store keeps the last value
//! of every (item, field) pair; a second, keyed by (item, key, field), keeps
//! the COMMAND-mode key table.

use vstd::prelude::*;

verus! {

/// The map an association list stands for; a later entry overrides an
/// earlier one with the same key, though the stores below keep keys unique.
pub open spec fn entries_map<K, V>(s: Seq<(K, V)>) -> Map<K, V>
    decreases s.len(),
{
    if s.len() == 0 {
        Map::empty()
    } else {
        entries_map(s.drop_last()).insert(s.last().0, s.last().1)
    }
}

/// No two entries share a key.
pub open spec fn unique_keys<K, V>(s: Seq<(K, V)>) -> bool {
    forall|i: int, j: int| 0 <= i < j < s.len() ==> s[i].0 != s[j].0
}

/// Every entry of a unique-keyed list is in the map, with its value.
pub proof fn lemma_entry_in_map<K, V>(s: Seq<(K, V)>, i: int)
    requires
        unique_keys(s),
        0 <= i < s.len(),
    ensures
        entries_map(s).contains_key(s[i].0),
        entries_map(s)[s[i].0] == s[i].1,
    decreases s.len(),
{
    if i == s.len() - 1 {
    } else {
        assert(s.drop_last()[i] == s[i]);
        lemma_entry_in_map(s.drop_last(), i);
        assert(s[i].0 != s.last().0);
    }
}

/// Every key of the map comes from some entry of the list.
pub proof fn lemma_map_key_has_entry<K, V>(s: Seq<(K, V)>, k: K)
    requires
        entries_map(s).contains_key(k),
    ensures
        exists|i: int| 0 <= i < s.len() && s[i].0 == k,
    decreases s.len(),
{
    if s.len() > 0 {
        if s.last().0 == k {
            assert(s[s.len() - 1].0 == k);
        } else {
            lemma_map_key_has_entry(s.drop_last(), k);
            let i = choose|i: int| 0 <= i < s.drop_last().len() && s.drop_last()[i].0 == k;
            assert(s[i] == s.drop_last()[i]);
        }
    }
}

/// Replacing the value of the entry at `i` updates exactly that key.
pub proof fn lemma_map_after_update<K, V>(s: Seq<(K, V)>, i: int, v: V)
    requires
        unique_keys(s),
        0 <= i < s.len(),
    ensures
        unique_keys(s.update(i, (s[i].0, v))),
        entries_map(s.update(i, (s[i].0, v))) == entries_map(s).insert(s[i].0, v),
    decreases s.len(),
{
    let s2 = s.update(i, (s[i].0, v));
    assert(forall|j: int| 0 <= j < s.len() ==> s2[j].0 == s[j].0);
    if i == s.len() - 1 {
        assert(s2.drop_last() =~= s.drop_last());
        assert(s2.last() == (s[i].0, v));
        assert(entries_map(s2) =~= entries_map(s).insert(s[i].0, v));
    } else {
        assert(s2.drop_last() =~= s.drop_last().update(i, (s[i].0, v)));
        assert(s.drop_last()[i] == s[i]);
        lemma_map_after_update(s.drop_last(), i, v);
        assert(s2.last() == s.last());
        assert(s[i].0 != s.last().0);
        assert(entries_map(s2) =~= entries_map(s).insert(s[i].0, v));
    }
}

/// Appending an entry with a fresh key inserts exactly that key.
pub proof fn lemma_map_after_push<K, V>(s: Seq<(K, V)>, k: K, v: V)
    requires
        unique_keys(s),
        forall|i: int| 0 <= i < s.len() ==> s[i].0 != k,
    ensures
        unique_keys(s.push((k, v))),
        entries_map(s.push((k, v))) == entries_map(s).insert(k, v),
{
    let s2 = s.push((k, v));
    assert(forall|j: int| 0 <= j < s.len() ==> s2[j] == s[j]);
    assert(s2.drop_last() =~= s);
    assert(s2.last() == (k, v));
}

/// Removing the entry at `i` removes exactly that key.
pub proof fn lemma_map_after_remove<K, V>(s: Seq<(K, V)>, i: int)
    requires
        unique_keys(s),
        0 <= i < s.len(),
    ensures
        unique_keys(s.remove(i)),
        entries_map(s.remove(i)) == entries_map(s).remove(s[i].0),
    decreases s.len(),
{
    let s2 = s.remove(i);
    assert(forall|j: int| 0 <= j < i ==> s2[j] == s[j]);
    assert(forall|j: int| i <= j < s2.len() ==> s2[j] == s[j + 1]);
    if i == s.len() - 1 {
        assert(s2 =~= s.drop_last());
        lemma_entry_absent(s.drop_last(), s[i].0);
        assert(entries_map(s2) =~= entries_map(s).remove(s[i].0));
    } else {
        assert(s2.drop_last() =~= s.drop_last().remove(i));
        assert(s.drop_last()[i] == s[i]);
        lemma_map_after_remove(s.drop_last(), i);
        assert(s2.last() == s.last());
        assert(s[i].0 != s.last().0);
        assert(entries_map(s2) =~= entries_map(s).remove(s[i].0));
    }
}

/// A key held by no entry is not in the map.
pub proof fn lemma_entry_absent<K, V>(s: Seq<(K, V)>, k: K)
    requires
        forall|i: int| 0 <= i < s.len() ==> s[i].0 != k,
    ensures
        !entries_map(s).contains_key(k),
    decreases s.len(),
{
    if s.len() > 0 {
        assert(forall|i: int| 0 <= i < s.drop_last().len() ==> s.drop_last()[i] == s[i]);
        lemma_entry_absent(s.drop_last(), k);
    }
}

/// The last value received for each (item position, field position) pair of
/// a subscription.  An explicit null is kept as an absent key: reading it
/// and reading a never-valued field both give `None`, and a later
/// "unchanged" token keeps the null.
pub struct ValueCache {
    entries: Vec<((usize, usize), String)>,
}

impl View for ValueCache {
    type V = Map<(usize, usize), Seq<char>>;

    closed spec fn view(&self) -> Map<(usize, usize), Seq<char>> {
        entries_map(self.entries.deep_view())
    }
}

impl ValueCache {
    /// Validity: keys are unique, so the list is a map.
    pub closed spec fn wf(&self) -> bool {
        unique_keys(self.entries.deep_view())
    }

    /// An empty cache.
    pub fn new() -> (r: ValueCache)
        ensures
            r.wf(),
            r@ == Map::<(usize, usize), Seq<char>>::empty(),
    {
        let entries: Vec<((usize, usize), String)> = Vec::new();
        proof {
            assert(entries.deep_view() =~= Seq::<((usize, usize), Seq<char>)>::empty());
        }
        ValueCache { entries }
    }

    /// The position of the entry for the given key, if one is held.
    fn find(&self, item_pos: usize, field_pos: usize) -> (r: Option<usize>)
        ensures
            r is Some ==> 0 <= r.unwrap() < self.entries.deep_view().len()
                && self.entries.deep_view()[r.unwrap() as int].0 == (item_pos, field_pos),
            r is None ==> forall|i: int|
                0 <= i < self.entries.deep_view().len() ==> self.entries.deep_view()[i].0 != (
                item_pos,
                field_pos,
                ),
    {
        let n = self.entries.len();
        let mut i: usize = 0;
        while i < n
            invariant
                n == self.entries.deep_view().len(),
                0 <= i <= n,
                forall|j: int| 0 <= j < i ==> self.entries.deep_view()[j].0 != (
                    item_pos,
                    field_pos,
                ),
            decreases n - i,
        {
            let e = &self.entries[i];
            if e.0.0 == item_pos && e.0.1 == field_pos {
                proof {
                    assert(self.entries.deep_view()[i as int].0 == (item_pos, field_pos));
                }
                return Some(i);
            }
            proof {
                assert(self.entries.deep_view()[i as int].0 != (item_pos, field_pos));
            }
            i = i + 1;
        }
        None
    }

    /// The cached value of the given (item, field) pair, if one is held.
    pub fn get(&self, item_pos: usize, field_pos: usize) -> (r: Option<&String>)
        requires
            self.wf(),
        ensures
            r is Some <==> self@.contains_key((item_pos, field_pos)),
            r is Some ==> r.unwrap()@ == self@[(item_pos, field_pos)],
    {
        match self.find(item_pos, field_pos) {
            Some(i) => {
                proof {
                    lemma_entry_in_map(self.entries.deep_view(), i as int);
                }
                Some(&self.entries[i].1)
            },
            None => {
                proof {
                    lemma_entry_absent(self.entries.deep_view(), (item_pos, field_pos));
                }
                None
            },
        }
    }

    /// Stores a value for the pair, or drops the pair on an explicit null.
    pub fn set(&mut self, item_pos: usize, field_pos: usize, value: Option<String>)
        requires
            old(self).wf(),
        ensures
            final(self).wf(),
            value is Some ==> final(self)@ == old(self)@.insert(
                (item_pos, field_pos),
                value.unwrap()@,
            ),
            value is None ==> final(self)@ == old(self)@.remove((item_pos, field_pos)),
    {
        let found = self.find(item_pos, field_pos);
        match value {
            Some(v) => {
                match found {
                    Some(i) => {
                        let ghost s = self.entries.deep_view();
                        proof {
                            lemma_map_after_update(s, i as int, v@);
                        }
                        self.entries[i].1 = v;
                        proof {
                            assert(self.entries.deep_view() =~= s.update(
                                i as int,
                                (s[i as int].0, v@),
                            ));
                        }
                    },
                    None => {
                        let ghost s = self.entries.deep_view();
                        proof {
                            lemma_map_after_push(s, (item_pos, field_pos), v@);
                        }
                        self.entries.push(((item_pos, field_pos), v));
                        proof {
                            assert(self.entries.deep_view() =~= s.push(
                                ((item_pos, field_pos), v@),
                            ));
                        }
                    },
                }
            },
            None => {
                match found {
                    Some(i) => {
                        let ghost s = self.entries.deep_view();
                        proof {
                            lemma_map_after_remove(s, i as int);
                        }
                        self.entries.remove(i);
                        proof {
                            assert(self.entries.deep_view() =~= s.remove(i as int));
                        }
                    },
                    None => {
                        proof {
                            lemma_entry_absent(self.entries.deep_view(), (item_pos, field_pos));
                            assert(old(self)@ =~= old(self)@.remove((item_pos, field_pos)));
                        }
                    },
                }
            },
        }
    }

    /// Empties the cache.
    pub fn clear(&mut self)
        ensures
            final(self).wf(),
            final(self)@ == Map::<(usize, usize), Seq<char>>::empty(),
    {
        self.entries.clear();
        proof {
            assert(self.entries.deep_view() =~= Seq::<((usize, usize), Seq<char>)>::empty());
        }
    }
}

/// The COMMAND-mode key table of a subscription: for every item position and
/// key, the last value written to each field position by an ADD or UPDATE
/// command.  A DELETE command drops every field of its key at once.
pub struct CommandTable {
    entries: Vec<((usize, usize, String), String)>,
}

/// The keys of the table that belong to the given (item, key) pair.
pub open spec fn command_key_set(item_pos: usize, key: Seq<char>) -> Set<(usize, usize, Seq<char>)> {
    Set::new(|k: (usize, usize, Seq<char>)| k.0 == item_pos && k.2 == key)
}

/// The keys of the table that belong to the given item.
pub open spec fn command_item_set(item_pos: usize) -> Set<(usize, usize, Seq<char>)> {
    Set::new(|k: (usize, usize, Seq<char>)| k.0 == item_pos)
}

impl View for CommandTable {
    type V = Map<(usize, usize, Seq<char>), Seq<char>>;

    closed spec fn view(&self) -> Map<(usize, usize, Seq<char>), Seq<char>> {
        entries_map(self.entries.deep_view())
    }
}

impl CommandTable {
    /// Validity: keys are unique, so the list is a map.
    pub closed spec fn wf(&self) -> bool {
        unique_keys(self.entries.deep_view())
    }

    /// An empty table.
    pub fn new() -> (r: CommandTable)
        ensures
            r.wf(),
            r@ == Map::<(usize, usize, Seq<char>), Seq<char>>::empty(),
    {
        let entries: Vec<((usize, usize, String), String)> = Vec::new();
        proof {
            assert(entries.deep_view() =~= Seq::<((usize, usize, Seq<char>), Seq<char>)>::empty());
        }
        CommandTable { entries }
    }

    /// The position of the entry for the given key, if one is held.
    fn find(&self, item_pos: usize, field_pos: usize, key: &str) -> (r: Option<usize>)
        ensures
            r is Some ==> 0 <= r.unwrap() < self.entries.deep_view().len()
                && self.entries.deep_view()[r.unwrap() as int].0 == (item_pos, field_pos, key@),
            r is None ==> forall|i: int|
                0 <= i < self.entries.deep_view().len() ==> self.entries.deep_view()[i].0 != (
                item_pos,
                field_pos,
                key@,
                ),
    {
        let owned = key.to_owned();
        let n = self.entries.len();
        let mut i: usize = 0;
        while i < n
            invariant
                owned@ == key@,
                n == self.entries.deep_view().len(),
                0 <= i <= n,
                forall|j: int| 0 <= j < i ==> self.entries.deep_view()[j].0 != (
                    item_pos,
                    field_pos,
                    key@,
                ),
            decreases n - i,
        {
            let e = &self.entries[i];
            if e.0.0 == item_pos && e.0.1 == field_pos && e.0.2.eq(&owned) {
                proof {
                    assert(self.entries.deep_view()[i as int].0 == (item_pos, field_pos, key@));
                }
                return Some(i);
            }
            proof {
                assert(self.entries.deep_view()[i as int].0 != (item_pos, field_pos, key@));
            }
            i = i + 1;
        }
        None
    }

    /// The value last written to the given field of the given (item, key)
    /// pair, if the key is present and the field was written.
    pub fn get(&self, item_pos: usize, key: &str, field_pos: usize) -> (r: Option<&String>)
        requires
            self.wf(),
        ensures
            r is Some <==> self@.contains_key((item_pos, field_pos, key@)),
            r is Some ==> r.unwrap()@ == self@[(item_pos, field_pos, key@)],
    {
        match self.find(item_pos, field_pos, key) {
            Some(i) => {
                proof {
                    lemma_entry_in_map(self.entries.deep_view(), i as int);
                }
                Some(&self.entries[i].1)
            },
            None => {
                proof {
                    lemma_entry_absent(self.entries.deep_view(), (item_pos, field_pos, key@));
                }
                None
            },
        }
    }

    /// Writes, overwrites or drops one field of an (item, key) pair, as an
    /// ADD or UPDATE command does; a null value drops the field.
    pub fn set(&mut self, item_pos: usize, key: &str, field_pos: usize, value: Option<String>)
        requires
            old(self).wf(),
        ensures
            final(self).wf(),
            value is Some ==> final(self)@ == old(self)@.insert(
                (item_pos, field_pos, key@),
                value.unwrap()@,
            ),
            value is None ==> final(self)@ == old(self)@.remove((item_pos, field_pos, key@)),
    {
        let found = self.find(item_pos, field_pos, key);
        match value {
            Some(v) => {
                match found {
                    Some(i) => {
                        let ghost s = self.entries.deep_view();
                        proof {
                            lemma_map_after_update(s, i as int, v@);
                        }
                        self.entries[i].1 = v;
                        proof {
                            assert(self.entries.deep_view() =~= s.update(
                                i as int,
                                (s[i as int].0, v@),
                            ));
                        }
                    },
                    None => {
                        let ghost s = self.entries.deep_view();
                        proof {
                            lemma_map_after_push(s, (item_pos, field_pos, key@), v@);
                        }
                        self.entries.push(((item_pos, field_pos, key.to_owned()), v));
                        proof {
                            assert(self.entries.deep_view() =~= s.push(
                                ((item_pos, field_pos, key@), v@),
                            ));
                        }
                    },
                }
            },
            None => {
                match found {
                    Some(i) => {
                        let ghost s = self.entries.deep_view();
                        proof {
                            lemma_map_after_remove(s, i as int);
                        }
                        self.entries.remove(i);
                        proof {
                            assert(self.entries.deep_view() =~= s.remove(i as int));
                        }
                    },
                    None => {
                        proof {
                            lemma_entry_absent(
                                self.entries.deep_view(),
                                (item_pos, field_pos, key@),
                            );
                            assert(old(self)@ =~= old(self)@.remove((item_pos, field_pos, key@)));
                        }
                    },
                }
            },
        }
    }

    /// Whether any field is held for the given (item, key) pair.
    pub fn contains_key(&self, item_pos: usize, key: &str) -> (r: bool)
        requires
            self.wf(),
        ensures
            r <==> !self@.dom().intersect(command_key_set(item_pos, key@)).is_empty(),
    {
        let owned = key.to_owned();
        let n = self.entries.len();
        let mut i: usize = 0;
        while i < n
            invariant
                owned@ == key@,
                n == self.entries.deep_view().len(),
                unique_keys(self.entries.deep_view()),
                self@ == entries_map(self.entries.deep_view()),
                0 <= i <= n,
                forall|j: int| 0 <= j < i ==> !(self.entries.deep_view()[j].0.0 == item_pos
                    && self.entries.deep_view()[j].0.2 == key@),
            decreases n - i,
        {
            let e = &self.entries[i];
            if e.0.0 == item_pos && e.0.2.eq(&owned) {
                proof {
                    let s = self.entries.deep_view();
                    lemma_entry_in_map(s, i as int);
                    assert(self@.dom().contains(s[i as int].0));
                    assert(command_key_set(item_pos, key@).contains(s[i as int].0));
                    assert(self@.dom().intersect(command_key_set(item_pos, key@)).contains(
                        s[i as int].0,
                    ));
                }
                return true;
            }
            proof {
                assert(!(self.entries.deep_view()[i as int].0.0 == item_pos
                    && self.entries.deep_view()[i as int].0.2 == key@));
            }
            i = i + 1;
        }
        proof {
            let s = self.entries.deep_view();
            let inter = self@.dom().intersect(command_key_set(item_pos, key@));
            assert forall|k: (usize, usize, Seq<char>)| !inter.contains(k) by {
                if self@.dom().contains(k) && command_key_set(item_pos, key@).contains(k) {
                    lemma_map_key_has_entry(s, k);
                }
            }
            assert(inter =~= Set::empty());
        }
        false
    }

    /// Drops every field of the given (item, key) pair, as a DELETE command
    /// does.
    pub fn delete_key(&mut self, item_pos: usize, key: &str)
        requires
            old(self).wf(),
        ensures
            final(self).wf(),
            final(self)@ == old(self)@.remove_keys(command_key_set(item_pos, key@)),
    {
        let owned = key.to_owned();
        let ghost victims = command_key_set(item_pos, key@);
        let ghost orig = self@;
        let mut i: usize = 0;
        while i < self.entries.len()
            invariant
                owned@ == key@,
                victims == command_key_set(item_pos, key@),
                unique_keys(self.entries.deep_view()),
                0 <= i <= self.entries.deep_view().len(),
                forall|j: int| 0 <= j < i ==> !victims.contains(
                    self.entries.deep_view()[j].0,
                ),
                forall|k: (usize, usize, Seq<char>)|
                    !victims.contains(k) ==> (entries_map(self.entries.deep_view()).contains_key(k)
                        <==> orig.contains_key(k)),
                forall|k: (usize, usize, Seq<char>)|
                    !victims.contains(k) && orig.contains_key(k) ==> entries_map(
                        self.entries.deep_view(),
                    )[k] == orig[k],
                forall|k: (usize, usize, Seq<char>)|
                    entries_map(self.entries.deep_view()).contains_key(k) ==> orig.contains_key(k),
            decreases self.entries.deep_view().len() - i,
        {
            let e = &self.entries[i];
            if e.0.0 == item_pos && e.0.2.eq(&owned) {
                let ghost s = self.entries.deep_view();
                proof {
                    assert(victims.contains(s[i as int].0));
                    lemma_map_after_remove(s, i as int);
                }
                self.entries.remove(i);
                proof {
                    assert(self.entries.deep_view() =~= s.remove(i as int));
                    assert(forall|j: int| 0 <= j < i ==> self.entries.deep_view()[j] == s[j]);
                }
            } else {
                proof {
                    assert(!victims.contains(self.entries.deep_view()[i as int].0));
                }
                i = i + 1;
            }
        }
        proof {
            let s = self.entries.deep_view();
            let target = orig.remove_keys(victims);
            assert forall|k: (usize, usize, Seq<char>)|
                entries_map(s).contains_key(k) implies !victims.contains(k) by {
                lemma_map_key_has_entry(s, k);
            }
            assert(entries_map(s) =~= target);
        }
    }

    /// Drops every key of the given item, as a clear-snapshot request does.
    pub fn clear_item(&mut self, item_pos: usize)
        requires
            old(self).wf(),
        ensures
            final(self).wf(),
            final(self)@ == old(self)@.remove_keys(command_item_set(item_pos)),
    {
        let ghost victims = command_item_set(item_pos);
        let ghost orig = self@;
        let mut i: usize = 0;
        while i < self.entries.len()
            invariant
                victims == command_item_set(item_pos),
                unique_keys(self.entries.deep_view()),
                0 <= i <= self.entries.deep_view().len(),
                forall|j: int| 0 <= j < i ==> !victims.contains(
                    self.entries.deep_view()[j].0,
                ),
                forall|k: (usize, usize, Seq<char>)|
                    !victims.contains(k) ==> (entries_map(self.entries.deep_view()).contains_key(k)
                        <==> orig.contains_key(k)),
                forall|k: (usize, usize, Seq<char>)|
                    !victims.contains(k) && orig.contains_key(k) ==> entries_map(
                        self.entries.deep_view(),
                    )[k] == orig[k],
                forall|k: (usize, usize, Seq<char>)|
                    entries_map(self.entries.deep_view()).contains_key(k) ==> orig.contains_key(k),
            decreases self.entries.deep_view().len() - i,
        {
            let e = &self.entries[i];
            if e.0.0 == item_pos {
                let ghost s = self.entries.deep_view();
                proof {
                    assert(victims.contains(s[i as int].0));
                    lemma_map_after_remove(s, i as int);
                }
                self.entries.remove(i);
                proof {
                    assert(self.entries.deep_view() =~= s.remove(i as int));
                    assert(forall|j: int| 0 <= j < i ==> self.entries.deep_view()[j] == s[j]);
                }
            } else {
                proof {
                    assert(!victims.contains(self.entries.deep_view()[i as int].0));
                }
                i = i + 1;
            }
        }
        proof {
            let s = self.entries.deep_view();
            let target = orig.remove_keys(victims);
            assert forall|k: (usize, usize, Seq<char>)|
                entries_map(s).contains_key(k) implies !victims.contains(k) by {
                lemma_map_key_has_entry(s, k);
            }
            assert(entries_map(s) =~= target);
        }
    }

    /// Empties the table.
    pub fn clear(&mut self)
        ensures
            final(self).wf(),
            final(self)@ == Map::<(usize, usize, Seq<char>), Seq<char>>::empty(),
    {
        self.entries.clear();
        proof {
            assert(self.entries.deep_view() =~= Seq::<
                ((usize, usize, Seq<char>), Seq<char>),
            >::empty());
        }
    }
}

} // verus!
