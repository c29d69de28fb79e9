//! Small association maps backing the namespace tables.
//!
//! Each map is a vector of key/value entries with pairwise-distinct keys,
//! abstracted as a `Map` from the key's mathematical value to the entry
//! value: binding identities for declaration tables, character sequences for
//! export tables, and plain integers for the session-wide identity tables.

use vstd::prelude::*;
use crate::ast::AstId;

verus! {

/// The mathematical key of a binding identity.
pub open spec fn ast_id_key(a: AstId) -> (u64, Seq<char>) {
    (a.id, a.name@)
}

/// The map denoted by an entry sequence with binding-identity keys.
pub open spec fn ast_entries_map<V>(s: Seq<(AstId, V)>) -> Map<(u64, Seq<char>), V>
    decreases s.len(),
{
    if s.len() == 0 {
        Map::empty()
    } else {
        ast_entries_map(s.drop_last()).insert(ast_id_key(s.last().0), s.last().1)
    }
}

/// Pairwise distinctness of the binding-identity keys of an entry sequence.
pub open spec fn ast_entries_distinct<V>(s: Seq<(AstId, V)>) -> bool {
    forall|i: int, j: int|
        0 <= i < j < s.len() ==> ast_id_key(s[i].0) != ast_id_key(s[j].0)
}

/// A key of `ast_entries_map` is exactly a key of some entry.
pub proof fn lemma_ast_entries_dom<V>(s: Seq<(AstId, V)>, k: (u64, Seq<char>))
    ensures
        ast_entries_map(s).contains_key(k) <==> exists|i: int|
            0 <= i < s.len() && ast_id_key(s[i].0) == k,
    decreases s.len(),
{
    if s.len() > 0 {
        lemma_ast_entries_dom(s.drop_last(), k);
        if ast_entries_map(s).contains_key(k) {
            if ast_id_key(s.last().0) == k {
                assert(ast_id_key(s[s.len() - 1].0) == k);
            } else {
                let i = choose|i: int|
                    0 <= i < s.drop_last().len() && ast_id_key(s.drop_last()[i].0) == k;
                assert(ast_id_key(s[i].0) == k);
            }
        }
        if exists|i: int| 0 <= i < s.len() && ast_id_key(s[i].0) == k {
            let i = choose|i: int| 0 <= i < s.len() && ast_id_key(s[i].0) == k;
            if i < s.len() - 1 {
                assert(ast_id_key(s.drop_last()[i].0) == k);
            }
        }
    }
}

/// With distinct keys, each entry is reflected verbatim in the map.
pub proof fn lemma_ast_entries_at<V>(s: Seq<(AstId, V)>, i: int)
    requires
        ast_entries_distinct(s),
        0 <= i < s.len(),
    ensures
        ast_entries_map(s).contains_key(ast_id_key(s[i].0)),
        ast_entries_map(s)[ast_id_key(s[i].0)] == s[i].1,
    decreases s.len(),
{
    if i == s.len() - 1 {
    } else {
        assert(ast_entries_distinct(s.drop_last()));
        lemma_ast_entries_at(s.drop_last(), i);
        assert(ast_id_key(s[i].0) != ast_id_key(s[s.len() - 1].0));
    }
}

/// Declaration table keyed by binding identity.
#[derive(Debug)]
pub struct AstIdMap<V> {
    entries: Vec<(AstId, V)>,
}

impl<V> View for AstIdMap<V> {
    type V = Map<(u64, Seq<char>), V>;

    closed spec fn view(&self) -> Map<(u64, Seq<char>), V> {
        ast_entries_map(self.entries@)
    }
}

impl<V> AstIdMap<V> {
    /// Well-formedness: keys are pairwise distinct.
    pub closed spec fn wf(&self) -> bool {
        ast_entries_distinct(self.entries@)
    }

    /// The empty table.
    pub fn new() -> (r: Self)
        ensures
            r@ == Map::<(u64, Seq<char>), V>::empty(),
            r.wf(),
    {
        AstIdMap { entries: Vec::new() }
    }

    /// Whether `k` is present.
    pub fn contains_key(&self, k: &AstId) -> (r: bool)
        requires
            self.wf(),
        ensures
            r == self@.contains_key(ast_id_key(*k)),
    {
        proof {
            lemma_ast_entries_dom(self.entries@, ast_id_key(*k));
        }
        let n = self.entries.len();
        for i in 0..n
            invariant
                self.wf(),
                n == self.entries.len(),
                forall|j: int| 0 <= j < i ==> ast_id_key(self.entries@[j].0) != ast_id_key(*k),
        {
            let e = &self.entries[i];
            if e.0.id == k.id && e.0.name == k.name {
                proof {
                    assert(ast_id_key(self.entries@[i as int].0) == ast_id_key(*k));
                    lemma_ast_entries_dom(self.entries@, ast_id_key(*k));
                }
                return true;
            }
        }
        false
    }

    /// The value under `k`, when present.
    pub fn get(&self, k: &AstId) -> (r: Option<&V>)
        requires
            self.wf(),
        ensures
            match r {
                Some(v) => self@.contains_key(ast_id_key(*k)) && self@[ast_id_key(*k)] == *v,
                None => !self@.contains_key(ast_id_key(*k)),
            },
    {
        proof {
            lemma_ast_entries_dom(self.entries@, ast_id_key(*k));
        }
        let n = self.entries.len();
        for i in 0..n
            invariant
                self.wf(),
                n == self.entries.len(),
                forall|j: int| 0 <= j < i ==> ast_id_key(self.entries@[j].0) != ast_id_key(*k),
        {
            let e = &self.entries[i];
            if e.0.id == k.id && e.0.name == k.name {
                proof {
                    assert(ast_id_key(self.entries@[i as int].0) == ast_id_key(*k));
                    lemma_ast_entries_at(self.entries@, i as int);
                }
                return Some(&self.entries[i].1);
            }
        }
        None
    }

    /// Adds an entry under an absent key.
    pub fn insert_new(&mut self, k: AstId, v: V)
        requires
            old(self).wf(),
            !old(self)@.contains_key(ast_id_key(k)),
        ensures
            final(self).wf(),
            final(self)@ == old(self)@.insert(ast_id_key(k), v),
    {
        proof {
            lemma_ast_entries_dom(self.entries@, ast_id_key(k));
        }
        let ghost old_entries = self.entries@;
        self.entries.push((k, v));
        proof {
            assert(self.entries@.drop_last() =~= old_entries);
        }
    }
}

/// The map denoted by an entry sequence with string keys.
pub open spec fn name_entries_map<V>(s: Seq<(String, V)>) -> Map<Seq<char>, V>
    decreases s.len(),
{
    if s.len() == 0 {
        Map::empty()
    } else {
        name_entries_map(s.drop_last()).insert(s.last().0@, s.last().1)
    }
}

/// Pairwise distinctness of the string keys of an entry sequence.
pub open spec fn name_entries_distinct<V>(s: Seq<(String, V)>) -> bool {
    forall|i: int, j: int| 0 <= i < j < s.len() ==> s[i].0@ != s[j].0@
}

/// A key of `name_entries_map` is exactly a key of some entry.
pub proof fn lemma_name_entries_dom<V>(s: Seq<(String, V)>, k: Seq<char>)
    ensures
        name_entries_map(s).contains_key(k) <==> exists|i: int|
            0 <= i < s.len() && s[i].0@ == k,
    decreases s.len(),
{
    if s.len() > 0 {
        lemma_name_entries_dom(s.drop_last(), k);
        if name_entries_map(s).contains_key(k) {
            if s.last().0@ == k {
                assert(s[s.len() - 1].0@ == k);
            } else {
                let i = choose|i: int| 0 <= i < s.drop_last().len() && s.drop_last()[i].0@ == k;
                assert(s[i].0@ == k);
            }
        }
        if exists|i: int| 0 <= i < s.len() && s[i].0@ == k {
            let i = choose|i: int| 0 <= i < s.len() && s[i].0@ == k;
            if i < s.len() - 1 {
                assert(s.drop_last()[i].0@ == k);
            }
        }
    }
}

/// With distinct keys, each entry is reflected verbatim in the map.
pub proof fn lemma_name_entries_at<V>(s: Seq<(String, V)>, i: int)
    requires
        name_entries_distinct(s),
        0 <= i < s.len(),
    ensures
        name_entries_map(s).contains_key(s[i].0@),
        name_entries_map(s)[s[i].0@] == s[i].1,
    decreases s.len(),
{
    if i == s.len() - 1 {
    } else {
        assert(name_entries_distinct(s.drop_last()));
        lemma_name_entries_at(s.drop_last(), i);
        assert(s[i].0@ != s[s.len() - 1].0@);
    }
}

/// Replacing the value of entry `i` leaves the denoted map as an insert.
proof fn lemma_name_entries_update<V>(s: Seq<(String, V)>, i: int, k: String, v: V)
    requires
        name_entries_distinct(s),
        0 <= i < s.len(),
        k@ == s[i].0@,
    ensures
        name_entries_map(s.update(i, (k, v))) == name_entries_map(s).insert(k@, v),
        name_entries_distinct(s.update(i, (k, v))),
    decreases s.len(),
{
    let t = s.update(i, (k, v));
    assert(forall|j: int| 0 <= j < s.len() && j != i ==> t[j] == s[j]);
    if i == s.len() - 1 {
        assert(t.drop_last() =~= s.drop_last());
        assert(name_entries_map(t) =~= name_entries_map(s).insert(k@, v));
    } else {
        assert(name_entries_distinct(s.drop_last()));
        lemma_name_entries_update(s.drop_last(), i, k, v);
        assert(t.drop_last() =~= s.drop_last().update(i, (k, v)));
        assert(t.last() == s.last());
        lemma_name_entries_dom(s.drop_last(), s.last().0@);
        assert(s[i].0@ != s[s.len() - 1].0@);
        assert(name_entries_map(t) =~= name_entries_map(s).insert(k@, v));
    }
}

/// Export table keyed by export name.
#[derive(Debug)]
pub struct NameMap<V> {
    entries: Vec<(String, V)>,
}

impl<V> View for NameMap<V> {
    type V = Map<Seq<char>, V>;

    closed spec fn view(&self) -> Map<Seq<char>, V> {
        name_entries_map(self.entries@)
    }
}

impl<V> NameMap<V> {
    /// Well-formedness: keys are pairwise distinct.
    pub closed spec fn wf(&self) -> bool {
        name_entries_distinct(self.entries@)
    }

    /// The empty table.
    pub fn new() -> (r: Self)
        ensures
            r@ == Map::<Seq<char>, V>::empty(),
            r.wf(),
    {
        NameMap { entries: Vec::new() }
    }

    /// The value under `k`, when present.
    pub fn get(&self, k: &String) -> (r: Option<&V>)
        requires
            self.wf(),
        ensures
            match r {
                Some(v) => self@.contains_key(k@) && self@[k@] == *v,
                None => !self@.contains_key(k@),
            },
    {
        proof {
            lemma_name_entries_dom(self.entries@, k@);
        }
        let n = self.entries.len();
        for i in 0..n
            invariant
                self.wf(),
                n == self.entries.len(),
                forall|j: int| 0 <= j < i ==> self.entries@[j].0@ != k@,
        {
            if self.entries[i].0 == *k {
                proof {
                    lemma_name_entries_at(self.entries@, i as int);
                }
                return Some(&self.entries[i].1);
            }
        }
        None
    }

    /// Binds `k` to `v`, replacing any earlier binding.
    pub fn set(&mut self, k: String, v: V)
        requires
            old(self).wf(),
        ensures
            final(self).wf(),
            final(self)@ == old(self)@.insert(k@, v),
    {
        proof {
            lemma_name_entries_dom(self.entries@, k@);
        }
        let n = self.entries.len();
        for i in 0..n
            invariant
                self.wf(),
                self == old(self),
                n == self.entries.len(),
                forall|j: int| 0 <= j < i ==> self.entries@[j].0@ != k@,
        {
            if self.entries[i].0 == k {
                proof {
                    lemma_name_entries_update(self.entries@, i as int, k, v);
                }
                self.entries[i] = (k, v);
                return;
            }
        }
        proof {
            lemma_name_entries_dom(self.entries@, k@);
        }
        let ghost old_entries = self.entries@;
        self.entries.push((k, v));
        proof {
            assert(self.entries@.drop_last() =~= old_entries);
        }
    }
}

/// The map denoted by an entry sequence with integer keys.
pub open spec fn id_entries_map<V>(s: Seq<(u64, V)>) -> Map<u64, V>
    decreases s.len(),
{
    if s.len() == 0 {
        Map::empty()
    } else {
        id_entries_map(s.drop_last()).insert(s.last().0, s.last().1)
    }
}

/// Pairwise distinctness of the integer keys of an entry sequence.
pub open spec fn id_entries_distinct<V>(s: Seq<(u64, V)>) -> bool {
    forall|i: int, j: int| 0 <= i < j < s.len() ==> s[i].0 != s[j].0
}

/// A key of `id_entries_map` is exactly a key of some entry.
pub proof fn lemma_id_entries_dom<V>(s: Seq<(u64, V)>, k: u64)
    ensures
        id_entries_map(s).contains_key(k) <==> exists|i: int| 0 <= i < s.len() && s[i].0 == k,
    decreases s.len(),
{
    if s.len() > 0 {
        lemma_id_entries_dom(s.drop_last(), k);
        if id_entries_map(s).contains_key(k) {
            if s.last().0 == k {
                assert(s[s.len() - 1].0 == k);
            } else {
                let i = choose|i: int| 0 <= i < s.drop_last().len() && s.drop_last()[i].0 == k;
                assert(s[i].0 == k);
            }
        }
        if exists|i: int| 0 <= i < s.len() && s[i].0 == k {
            let i = choose|i: int| 0 <= i < s.len() && s[i].0 == k;
            if i < s.len() - 1 {
                assert(s.drop_last()[i].0 == k);
            }
        }
    }
}

/// With distinct keys, each entry is reflected verbatim in the map.
pub proof fn lemma_id_entries_at<V>(s: Seq<(u64, V)>, i: int)
    requires
        id_entries_distinct(s),
        0 <= i < s.len(),
    ensures
        id_entries_map(s).contains_key(s[i].0),
        id_entries_map(s)[s[i].0] == s[i].1,
    decreases s.len(),
{
    if i == s.len() - 1 {
    } else {
        assert(id_entries_distinct(s.drop_last()));
        lemma_id_entries_at(s.drop_last(), i);
        assert(s[i].0 != s[s.len() - 1].0);
    }
}

/// Replacing the value of entry `i` leaves the denoted map as an insert.
proof fn lemma_id_entries_update<V>(s: Seq<(u64, V)>, i: int, k: u64, v: V)
    requires
        id_entries_distinct(s),
        0 <= i < s.len(),
        k == s[i].0,
    ensures
        id_entries_map(s.update(i, (k, v))) == id_entries_map(s).insert(k, v),
        id_entries_distinct(s.update(i, (k, v))),
    decreases s.len(),
{
    let t = s.update(i, (k, v));
    assert(forall|j: int| 0 <= j < s.len() && j != i ==> t[j] == s[j]);
    if i == s.len() - 1 {
        assert(t.drop_last() =~= s.drop_last());
        assert(id_entries_map(t) =~= id_entries_map(s).insert(k, v));
    } else {
        assert(id_entries_distinct(s.drop_last()));
        lemma_id_entries_update(s.drop_last(), i, k, v);
        assert(t.drop_last() =~= s.drop_last().update(i, (k, v)));
        assert(t.last() == s.last());
        lemma_id_entries_dom(s.drop_last(), s.last().0);
        assert(s[i].0 != s[s.len() - 1].0);
        assert(id_entries_map(t) =~= id_entries_map(s).insert(k, v));
    }
}

/// Session table keyed by a small integer identity.
#[derive(Debug)]
pub struct IdMap<V> {
    entries: Vec<(u64, V)>,
}

impl<V> View for IdMap<V> {
    type V = Map<u64, V>;

    closed spec fn view(&self) -> Map<u64, V> {
        id_entries_map(self.entries@)
    }
}

impl<V> IdMap<V> {
    /// Well-formedness: keys are pairwise distinct.
    pub closed spec fn wf(&self) -> bool {
        id_entries_distinct(self.entries@)
    }

    /// The empty table.
    pub fn new() -> (r: Self)
        ensures
            r@ == Map::<u64, V>::empty(),
            r.wf(),
    {
        IdMap { entries: Vec::new() }
    }

    /// Whether `k` is present.
    pub fn contains_key(&self, k: u64) -> (r: bool)
        requires
            self.wf(),
        ensures
            r == self@.contains_key(k),
    {
        proof {
            lemma_id_entries_dom(self.entries@, k);
        }
        let n = self.entries.len();
        for i in 0..n
            invariant
                self.wf(),
                n == self.entries.len(),
                forall|j: int| 0 <= j < i ==> self.entries@[j].0 != k,
        {
            if self.entries[i].0 == k {
                proof {
                    lemma_id_entries_dom(self.entries@, k);
                }
                return true;
            }
        }
        false
    }

    /// The value under `k`, when present.
    pub fn get(&self, k: u64) -> (r: Option<&V>)
        requires
            self.wf(),
        ensures
            match r {
                Some(v) => self@.contains_key(k) && self@[k] == *v,
                None => !self@.contains_key(k),
            },
    {
        proof {
            lemma_id_entries_dom(self.entries@, k);
        }
        let n = self.entries.len();
        for i in 0..n
            invariant
                self.wf(),
                n == self.entries.len(),
                forall|j: int| 0 <= j < i ==> self.entries@[j].0 != k,
        {
            if self.entries[i].0 == k {
                proof {
                    lemma_id_entries_at(self.entries@, i as int);
                }
                return Some(&self.entries[i].1);
            }
        }
        None
    }

    /// Adds an entry under an absent key.
    pub fn insert_new(&mut self, k: u64, v: V)
        requires
            old(self).wf(),
            !old(self)@.contains_key(k),
        ensures
            final(self).wf(),
            final(self)@ == old(self)@.insert(k, v),
    {
        proof {
            lemma_id_entries_dom(self.entries@, k);
        }
        let ghost old_entries = self.entries@;
        self.entries.push((k, v));
        proof {
            assert(self.entries@.drop_last() =~= old_entries);
        }
    }

    /// Binds `k` to `v`, replacing any earlier binding.
    pub fn set(&mut self, k: u64, v: V)
        requires
            old(self).wf(),
        ensures
            final(self).wf(),
            final(self)@ == old(self)@.insert(k, v),
    {
        proof {
            lemma_id_entries_dom(self.entries@, k);
        }
        let n = self.entries.len();
        for i in 0..n
            invariant
                self.wf(),
                self == old(self),
                n == self.entries.len(),
                forall|j: int| 0 <= j < i ==> self.entries@[j].0 != k,
        {
            if self.entries[i].0 == k {
                proof {
                    lemma_id_entries_update(self.entries@, i as int, k, v);
                }
                self.entries[i] = (k, v);
                return;
            }
        }
        proof {
            lemma_id_entries_dom(self.entries@, k);
        }
        let ghost old_entries = self.entries@;
        self.entries.push((k, v));
        proof {
            assert(self.entries@.drop_last() =~= old_entries);
        }
    }
}

} // verus!
