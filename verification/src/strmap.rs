//! A string-keyed map held as a vector of entries with unique keys, in
//! insertion order. The account state serializes its maps, so the entry
//! order is part of the data; the view is the finite map of the entries.

use vstd::prelude::*;

verus! {

broadcast use vstd::seq::group_seq_axioms, vstd::std_specs::vec::group_vec_axioms;

/// The finite map of an entry sequence; a later entry overrides an earlier.
pub open spec fn map_of<V>(s: Seq<(String, V)>) -> Map<Seq<char>, V>
    decreases s.len(),
{
    if s.len() == 0 {
        Map::empty()
    } else {
        map_of(s.drop_last()).insert(s.last().0@, s.last().1)
    }
}

/// No two entries share a key.
pub open spec fn unique_keys<V>(s: Seq<(String, V)>) -> bool {
    forall|i: int, j: int| 0 <= i < j < s.len() ==> s[i].0@ != s[j].0@
}

/// A string-keyed map: entries in insertion order, keys unique.
#[derive(Debug)]
pub struct StringMap<V> {
    entries: Vec<(String, V)>,
}

impl<V> View for StringMap<V> {
    type V = Map<Seq<char>, V>;

    closed spec fn view(&self) -> Map<Seq<char>, V> {
        map_of(self.entries@)
    }
}

pub proof fn lemma_map_of_absent<V>(s: Seq<(String, V)>, k: Seq<char>)
    requires
        forall|i: int| 0 <= i < s.len() ==> s[i].0@ != k,
    ensures
        !map_of(s).contains_key(k),
    decreases s.len(),
{
    if s.len() > 0 {
        lemma_map_of_absent(s.drop_last(), k);
    }
}

pub proof fn lemma_map_of_index<V>(s: Seq<(String, V)>, i: int)
    requires
        unique_keys(s),
        0 <= i < s.len(),
    ensures
        map_of(s).contains_key(s[i].0@),
        map_of(s)[s[i].0@] == s[i].1,
    decreases s.len(),
{
    if i == s.len() - 1 {
    } else {
        assert(s.drop_last()[i] == s[i]);
        lemma_map_of_index(s.drop_last(), i);
        assert(s.last().0@ != s[i].0@);
    }
}

pub proof fn lemma_map_of_remove<V>(s: Seq<(String, V)>, i: int)
    requires
        unique_keys(s),
        0 <= i < s.len(),
    ensures
        map_of(s.remove(i)) == map_of(s).remove(s[i].0@),
    decreases s.len(),
{
    if i == s.len() - 1 {
        assert(s.remove(i) =~= s.drop_last());
        lemma_map_of_absent(s.drop_last(), s[i].0@);
        assert(map_of(s).remove(s[i].0@) =~= map_of(s.drop_last()));
    } else {
        assert(s.remove(i).drop_last() =~= s.drop_last().remove(i));
        assert(s.remove(i).last() == s.last());
        lemma_map_of_remove(s.drop_last(), i);
        assert(s.drop_last()[i] == s[i]);
        assert(s[i].0@ != s.last().0@);
        assert(map_of(s.remove(i)) == map_of(s.drop_last().remove(i)).insert(
            s.last().0@,
            s.last().1,
        ));
        assert(map_of(s.drop_last()).remove(s[i].0@).insert(s.last().0@, s.last().1)
            =~= map_of(s.drop_last()).insert(s.last().0@, s.last().1).remove(s[i].0@));
    }
}

impl<V> StringMap<V> {
    /// The keys of the entries are unique.
    pub closed spec fn wf(&self) -> bool {
        unique_keys(self.entries@)
    }

    /// The entries, in insertion order.
    pub closed spec fn entries_seq(&self) -> Seq<(String, V)> {
        self.entries@
    }

    /// The view is exactly the finite map of the entry sequence.
    pub proof fn lemma_view_is_map_of(&self)
        ensures
            self@ == map_of(self.entries_seq()),
    {
    }

    /// Well-formedness is exactly key-uniqueness of the entries.
    pub proof fn lemma_wf_is_unique_keys(&self)
        ensures
            self.wf() == unique_keys(self.entries_seq()),
    {
    }

    /// A key the map holds names some entry.
    pub proof fn lemma_contains_has_entry(&self, k: Seq<char>)
        requires
            self@.contains_key(k),
        ensures
            exists|i: int|
                0 <= i < self.entries_seq().len() && (#[trigger] self.entries_seq()[i]).0@ == k,
    {
        if forall|i: int| 0 <= i < self.entries@.len() ==> (#[trigger] self.entries@[i]).0@ != k {
            lemma_map_of_absent(self.entries@, k);
        } else {
            let w = choose|i: int|
                0 <= i < self.entries@.len() && (#[trigger] self.entries@[i]).0@ == k;
            assert(self.entries_seq()[w].0@ == k);
        }
    }

    /// The empty map.
    pub fn new() -> (r: StringMap<V>)
        ensures
            r@ == Map::<Seq<char>, V>::empty(),
            r.wf(),
            r.entries_seq() == Seq::<(String, V)>::empty(),
    {
        StringMap { entries: Vec::new() }
    }

    /// The entries, in insertion order, for serialization.
    pub fn entries(&self) -> (r: &Vec<(String, V)>)
        ensures
            r@ == self.entries_seq(),
    {
        &self.entries
    }

    /// How many entries the map holds.
    pub fn len(&self) -> (r: usize)
        ensures
            r == self.entries_seq().len(),
    {
        self.entries.len()
    }

    /// The value under `key`, if any.
    #[verifier::loop_isolation(false)]
    pub fn get<'a>(&'a self, key: &str) -> (r: Option<&'a V>)
        requires
            self.wf(),
        ensures
            (match r {
                Some(v) => self@.contains_key(key@) && self@[key@] == *v,
                None => !self@.contains_key(key@),
            }),
    {
        let n = self.entries.len();
        let mut i: usize = 0;
        while i < n
            invariant
                n == self.entries@.len(),
                i <= n,
                forall|t: int| 0 <= t < i ==> self.entries@[t].0@ != key@,
            decreases n - i,
        {
            if crate::strutil::string_eq_str(&self.entries[i].0, key) {
                proof {
                    lemma_map_of_index(self.entries@, i as int);
                }
                return Some(&self.entries[i].1);
            }
            i = i + 1;
        }
        proof {
            lemma_map_of_absent(self.entries@, key@);
        }
        None
    }

    /// Whether the keys are unique, checked at run time (a map built from an
    /// untrusted source may not be).
    #[verifier::loop_isolation(false)]
    pub fn wf_exec(&self) -> (r: bool)
        ensures
            r == self.wf(),
    {
        let n = self.entries.len();
        let mut i: usize = 0;
        while i < n
            invariant
                i <= n,
                n == self.entries@.len(),
                forall|a: int, b: int| 0 <= a < b < self.entries@.len() && a < i ==> self.entries@[a].0@ != self.entries@[b].0@,
            decreases n - i,
        {
            let mut j: usize = i + 1;
            while j < n
                invariant
                    i < j <= n,
                    n == self.entries@.len(),
                    forall|b: int| i < b < j ==> self.entries@[i as int].0@ != self.entries@[b].0@,
                decreases n - j,
            {
                if crate::strutil::string_eq_str(&self.entries[i].0, self.entries[j].0.as_str()) {
                    return false;
                }
                j = j + 1;
            }
            i = i + 1;
        }
        true
    }

    /// Whether the map holds `key`.
    pub fn contains_key(&self, key: &str) -> (r: bool)
        requires
            self.wf(),
        ensures
            r == self@.contains_key(key@),
    {
        match self.get(key) {
            Some(_) => true,
            None => false,
        }
    }

    /// Bind `key` to `value`, replacing any earlier binding.
    #[verifier::loop_isolation(false)]
    pub fn insert(&mut self, key: String, value: V)
        requires
            old(self).wf(),
        ensures
            final(self)@ == old(self)@.insert(key@, value),
            final(self).wf(),
            !old(self)@.contains_key(key@) ==> final(self).entries_seq() == old(
                self,
            ).entries_seq().push((key, value)),
    {
        let n = self.entries.len();
        let mut i: usize = 0;
        while i < n
            invariant
                self.entries@ == old(self).entries@,
                n == self.entries@.len(),
                i <= n,
                forall|t: int| 0 <= t < i ==> self.entries@[t].0@ != key@,
            decreases n - i,
        {
            if crate::strutil::string_eq_str(&self.entries[i].0, key.as_str()) {
                proof {
                    lemma_map_of_index(self.entries@, i as int);
                    lemma_map_of_remove(self.entries@, i as int);
                }
                let ghost removed = self.entries@.remove(i as int);
                self.entries.remove(i);
                proof {
                    assert forall|a: int, b: int|
                        0 <= a < b < removed.len() implies removed[a].0@ != removed[b].0@ by {
                        if b < i {
                        } else if a < i {
                            assert(removed[b] == self.entries@[b]);
                        }
                    }
                    assert forall|t: int| 0 <= t < removed.len() implies removed[t].0@ != key@ by {
                        if t < i {
                        }
                    }
                    lemma_map_of_absent(removed, key@);
                }
                self.entries.push((key, value));
                proof {
                    assert(self.entries@.drop_last() =~= removed);
                    assert(final(self)@ =~= old(self)@.insert(
                        self.entries@.last().0@,
                        self.entries@.last().1,
                    ));
                    assert forall|a: int, b: int|
                        0 <= a < b < self.entries@.len() implies self.entries@[a].0@
                        != self.entries@[b].0@ by {
                        if b < self.entries@.len() - 1 {
                            assert(self.entries@[a] == removed[a] && self.entries@[b] == removed[b]);
                        } else {
                            assert(self.entries@[a] == removed[a]);
                            assert(removed[a].0@ != key@);
                        }
                    }
                }
                return ;
            }
            i = i + 1;
        }
        proof {
            lemma_map_of_absent(self.entries@, key@);
        }
        self.entries.push((key, value));
        proof {
            assert(self.entries@.drop_last() =~= old(self).entries@);
            assert forall|a: int, b: int|
                0 <= a < b < self.entries@.len() implies self.entries@[a].0@
                != self.entries@[b].0@ by {
                if b < self.entries@.len() - 1 {
                    assert(self.entries@[a] == old(self).entries@[a] && self.entries@[b] == old(
                        self,
                    ).entries@[b]);
                } else {
                    assert(self.entries@[a] == old(self).entries@[a]);
                    assert(old(self).entries@[a].0@ != key@);
                }
            }
        }
    }
}

impl StringMap<String> {
    /// A copy with equal entries.
    pub fn duplicate(&self) -> (r: StringMap<String>)
        ensures
            r@ == self@,
            r.entries_seq() == self.entries_seq(),
            r.wf() == self.wf(),
    {
        let n = self.entries.len();
        let mut entries: Vec<(String, String)> = Vec::new();
        let mut i: usize = 0;
        while i < n
            invariant
                i <= n,
                n == self.entries@.len(),
                entries@.len() == i,
                forall|t: int| 0 <= t < i ==> entries@[t] == self.entries@[t],
            decreases n - i,
        {
            entries.push((self.entries[i].0.clone(), self.entries[i].1.clone()));
            i = i + 1;
        }
        proof {
            assert(entries@ =~= self.entries@);
        }
        StringMap { entries }
    }
}

} // verus!
