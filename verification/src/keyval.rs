//! An ordered key/value store with overwrite-on-duplicate semantics.
//!
//! Headers, cookies and template parameters live in one of these. Unlike a
//! hash map, the store keeps its pairs in insertion order, so everything
//! serialized from it is deterministic; like a map, a key occurs at most
//! once and a second `add` of the same key replaces the value in place.

use vstd::prelude::*;

verus! {

/// Position of the first pair in `ps` whose key is `k`, or `-1`.
pub open spec fn key_index(ps: Seq<(Seq<char>, Seq<char>)>, k: Seq<char>) -> int
    decreases ps.len(),
{
    if ps.len() == 0 {
        -1
    } else if ps[0].0 == k {
        0
    } else {
        let r = key_index(ps.drop_first(), k);
        if r == -1 {
            -1
        } else {
            r + 1
        }
    }
}

/// Some pair in `ps` has key `k`.
pub open spec fn has_key(ps: Seq<(Seq<char>, Seq<char>)>, k: Seq<char>) -> bool {
    exists|i: int| 0 <= i < ps.len() && (#[trigger] ps[i]).0 == k
}

/// The value stored under `k` (meaningful only when `has_key` holds).
pub open spec fn value_of(ps: Seq<(Seq<char>, Seq<char>)>, k: Seq<char>) -> Seq<char> {
    ps[key_index(ps, k)].1
}

/// What [`key_index`] returns: `-1` and no such key, or the position of
/// the first pair with that key.
pub proof fn lemma_key_index(ps: Seq<(Seq<char>, Seq<char>)>, k: Seq<char>)
    ensures
        key_index(ps, k) == -1 ==> !has_key(ps, k),
        key_index(ps, k) != -1 ==> {
            let i = key_index(ps, k);
            &&& 0 <= i < ps.len()
            &&& ps[i].0 == k
            &&& forall|j: int| 0 <= j < i ==> (#[trigger] ps[j]).0 != k
        },
        has_key(ps, k) ==> key_index(ps, k) != -1,
    decreases ps.len(),
{
    if ps.len() > 0 && ps[0].0 != k {
        let t = ps.drop_first();
        lemma_key_index(t, k);
        assert forall|j: int| 1 <= j < ps.len() implies t[j - 1] == ps[j] by {}
        if has_key(ps, k) {
            let w = choose|i: int| 0 <= i < ps.len() && (#[trigger] ps[i]).0 == k;
            assert(t[w - 1].0 == k);
            assert(has_key(t, k));
        }
        let r = key_index(t, k);
        if r != -1 {
            assert forall|j: int| 0 <= j < r + 1 implies (#[trigger] ps[j]).0 != k by {
                if j > 0 {
                    assert(t[j - 1] == ps[j]);
                }
            }
        }
    }
}

/// The pairs after storing `v` under `k`: an existing key keeps its place
/// and takes the new value, a new key is appended.
pub open spec fn spec_kv_add(ps: Seq<(Seq<char>, Seq<char>)>, k: Seq<char>, v: Seq<char>) -> Seq<
    (Seq<char>, Seq<char>),
> {
    if has_key(ps, k) {
        ps.update(key_index(ps, k), (k, v))
    } else {
        ps.push((k, v))
    }
}

/// What a store holds after [`spec_kv_add`]: the stored key maps to the
/// new value, and every other key is untouched.
pub proof fn lemma_kv_add(ps: Seq<(Seq<char>, Seq<char>)>, k: Seq<char>, v: Seq<char>)
    ensures
        has_key(spec_kv_add(ps, k, v), k),
        value_of(spec_kv_add(ps, k, v), k) == v,
        forall|k2: Seq<char>|
            k2 != k ==> #[trigger] has_key(spec_kv_add(ps, k, v), k2) == has_key(ps, k2),
        forall|k2: Seq<char>|
            k2 != k && has_key(ps, k2) ==> #[trigger] value_of(spec_kv_add(ps, k, v), k2)
                == value_of(ps, k2),
{
    lemma_key_index(ps, k);
    let new = spec_kv_add(ps, k, v);
    if has_key(ps, k) {
        let i = key_index(ps, k);
        assert(new =~= ps.update(i, (k, v)));
        assert(new[i].0 == k);
        assert(has_key(new, k));
        lemma_key_index(new, k);
        let ni = key_index(new, k);
        assert(ni == i) by {
            if ni < i {
                assert(ps[ni] == new[ni]);
            }
            if ni > i {
                assert((#[trigger] new[i]).0 == k);
            }
        }
        assert(value_of(new, k) == v);
        assert forall|k2: Seq<char>| k2 != k implies #[trigger] has_key(new, k2) == has_key(
            ps,
            k2,
        ) by {
            if has_key(ps, k2) {
                let w = choose|j: int| 0 <= j < ps.len() && (#[trigger] ps[j]).0 == k2;
                assert(new[w].0 == k2);
            }
            if has_key(new, k2) {
                let w = choose|j: int| 0 <= j < new.len() && (#[trigger] new[j]).0 == k2;
                assert(ps[w].0 == k2);
            }
        }
        assert forall|k2: Seq<char>| k2 != k && has_key(ps, k2) implies #[trigger] value_of(
            new,
            k2,
        ) == value_of(ps, k2) by {
            lemma_key_index(ps, k2);
            lemma_key_index(new, k2);
            let a = key_index(ps, k2);
            let b = key_index(new, k2);
            assert(has_key(new, k2)) by {
                assert((#[trigger] new[a]).0 == k2);
            }
            assert(a == b) by {
                if a < b {
                    assert((#[trigger] new[a]).0 == k2);
                }
                if b < a {
                    assert((#[trigger] ps[b]).0 == k2);
                }
            }
            assert(new[b].1 == ps[a].1);
        }
    } else {
        assert(new =~= ps.push((k, v)));
        let n = ps.len() as int;
        assert(new[n].0 == k);
        assert(has_key(new, k));
        lemma_key_index(new, k);
        let ni = key_index(new, k);
        assert(ni == n) by {
            if ni < n {
                assert((#[trigger] ps[ni]).0 == k);
            }
        }
        assert(value_of(new, k) == v);
        assert forall|k2: Seq<char>| k2 != k implies #[trigger] has_key(new, k2) == has_key(
            ps,
            k2,
        ) by {
            if has_key(ps, k2) {
                let w = choose|j: int| 0 <= j < ps.len() && (#[trigger] ps[j]).0 == k2;
                assert(new[w].0 == k2);
            }
            if has_key(new, k2) {
                let w = choose|j: int| 0 <= j < new.len() && (#[trigger] new[j]).0 == k2;
                assert(w < n);
                assert(ps[w].0 == k2);
            }
        }
        assert forall|k2: Seq<char>| k2 != k && has_key(ps, k2) implies #[trigger] value_of(
            new,
            k2,
        ) == value_of(ps, k2) by {
            lemma_key_index(ps, k2);
            lemma_key_index(new, k2);
            let a = key_index(ps, k2);
            let b = key_index(new, k2);
            assert(has_key(new, k2)) by {
                assert((#[trigger] new[a]).0 == k2);
            }
            assert(a == b) by {
                if a < b {
                    assert((#[trigger] new[a]).0 == k2);
                }
                if b < a {
                    assert((#[trigger] ps[b]).0 == k2);
                }
            }
            assert(new[b].1 == ps[a].1);
        }
    }
}

/// An insertion-ordered list of key/value pairs with unique keys.
#[derive(Debug, Clone)]
pub struct KeyVal {
    pairs: Vec<(String, String)>,
}

impl KeyVal {
    /// The pairs held, as character sequences, in insertion order.
    pub closed spec fn view_pairs(&self) -> Seq<(Seq<char>, Seq<char>)> {
        self.pairs@.map_values(|p: (String, String)| (p.0@, p.1@))
    }

    /// Keys are unique.
    pub open spec fn wf(&self) -> bool {
        forall|i: int, j: int|
            0 <= i < j < self.view_pairs().len() ==> (#[trigger] self.view_pairs()[i]).0 != (
            #[trigger] self.view_pairs()[j]).0
    }

    /// An empty store.
    pub fn new() -> (r: KeyVal)
        ensures
            r.view_pairs() == Seq::<(Seq<char>, Seq<char>)>::empty(),
            r.wf(),
    {
        let r = KeyVal { pairs: Vec::new() };
        proof {
            assert(r.view_pairs() =~= Seq::<(Seq<char>, Seq<char>)>::empty());
        }
        r
    }

    /// Position of `key` in the store, if present.
    fn index_of(&self, key: &str) -> (r: Option<usize>)
        ensures
            r is Some ==> key_index(self.view_pairs(), key@) == r->Some_0,
            r is None ==> key_index(self.view_pairs(), key@) == -1,
    {
        let n: usize = self.pairs.len();
        let mut i: usize = 0;
        proof {
            lemma_key_index(self.view_pairs(), key@);
        }
        while i < n
            invariant
                n == self.view_pairs().len(),
                i <= n,
                forall|j: int| 0 <= j < i ==> (#[trigger] self.view_pairs()[j]).0 != key@,
            decreases n - i,
        {
            if crate::strutil::str_eq(self.pairs[i].0.as_str(), key) {
                proof {
                    lemma_key_index(self.view_pairs(), key@);
                    let ki = key_index(self.view_pairs(), key@);
                    assert(ki != -1) by {
                        assert(self.view_pairs()[i as int].0 == key@);
                        assert(has_key(self.view_pairs(), key@));
                    }
                    assert(ki == i as int) by {
                        if ki > i as int {
                            assert((#[trigger] self.view_pairs()[i as int]).0 != key@);
                        }
                    }
                }
                return Some(i);
            }
            i = i + 1;
        }
        proof {
            lemma_key_index(self.view_pairs(), key@);
            if has_key(self.view_pairs(), key@) {
                let w = choose|j: int|
                    0 <= j < self.view_pairs().len() && (#[trigger] self.view_pairs()[j]).0
                        == key@;
                assert(false);
            }
        }
        None
    }

    /// Store `value` under `key`. A new key is appended at the end; an
    /// existing key keeps its position and only its value changes, and the
    /// replaced value is handed back.
    pub fn add(&mut self, key: String, value: String) -> (r: Option<String>)
        requires
            old(self).wf(),
        ensures
            final(self).wf(),
            has_key(old(self).view_pairs(), key@) ==> {
                &&& r is Some
                &&& r->Some_0@ == value_of(old(self).view_pairs(), key@)
                &&& final(self).view_pairs() == old(self).view_pairs().update(
                    key_index(old(self).view_pairs(), key@),
                    (key@, value@),
                )
            },
            !has_key(old(self).view_pairs(), key@) ==> {
                &&& r is None
                &&& final(self).view_pairs() == old(self).view_pairs().push((key@, value@))
            },
            final(self).view_pairs() == spec_kv_add(old(self).view_pairs(), key@, value@),
    {
        proof {
            lemma_key_index(old(self).view_pairs(), key@);
        }
        match self.index_of(key.as_str()) {
            Some(i) => {
                let old_pair = self.pairs.remove(i);
                self.pairs.insert(i, (key, value));
                proof {
                    let oldps = old(self).view_pairs();
                    let newps = self.view_pairs();
                    assert(newps =~= oldps.update(i as int, (key@, value@)));
                    assert(has_key(oldps, key@)) by {
                        assert((#[trigger] oldps[i as int]).0 == key@);
                    }
                    assert forall|a: int, b: int|
                        0 <= a < b < newps.len() implies (#[trigger] newps[a]).0 != (
                    #[trigger] newps[b]).0 by {
                        if a != i as int && b != i as int {
                            assert(oldps[a].0 != oldps[b].0);
                        } else if a == i as int {
                            assert(oldps[b].0 != key@);
                        } else {
                            assert(oldps[a].0 != key@);
                        }
                    }
                }
                Some(old_pair.1)
            },
            None => {
                proof {
                    lemma_key_index(old(self).view_pairs(), key@);
                }
                self.pairs.push((key, value));
                proof {
                    let oldps = old(self).view_pairs();
                    let newps = self.view_pairs();
                    assert(newps =~= oldps.push((key@, value@)));
                    assert forall|a: int, b: int|
                        0 <= a < b < newps.len() implies (#[trigger] newps[a]).0 != (
                    #[trigger] newps[b]).0 by {
                        if b == oldps.len() as int {
                            assert(oldps[a].0 != key@);
                        }
                    }
                }
                None
            },
        }
    }

    /// Remove `key`, handing back the value it held, if any.
    pub fn del(&mut self, key: &str) -> (r: Option<String>)
        requires
            old(self).wf(),
        ensures
            final(self).wf(),
            has_key(old(self).view_pairs(), key@) ==> {
                &&& r is Some
                &&& r->Some_0@ == value_of(old(self).view_pairs(), key@)
                &&& final(self).view_pairs() == old(self).view_pairs().remove(
                    key_index(old(self).view_pairs(), key@),
                )
            },
            !has_key(old(self).view_pairs(), key@) ==> {
                &&& r is None
                &&& *final(self) == *old(self)
            },
    {
        proof {
            lemma_key_index(old(self).view_pairs(), key@);
        }
        match self.index_of(key) {
            Some(i) => {
                let old_pair = self.pairs.remove(i);
                proof {
                    let oldps = old(self).view_pairs();
                    let newps = self.view_pairs();
                    assert(has_key(oldps, key@)) by {
                        assert((#[trigger] oldps[i as int]).0 == key@);
                    }
                    assert(newps =~= oldps.remove(i as int));
                    assert forall|a: int, b: int|
                        0 <= a < b < newps.len() implies (#[trigger] newps[a]).0 != (
                    #[trigger] newps[b]).0 by {
                        let oa: int = if a < i as int {
                            a
                        } else {
                            a + 1
                        };
                        let ob: int = if b < i as int {
                            b
                        } else {
                            b + 1
                        };
                        assert(oldps[oa].0 != oldps[ob].0);
                    }
                }
                Some(old_pair.1)
            },
            None => None,
        }
    }

    /// `key` is present in the store.
    pub fn contains(&self, key: &str) -> (r: bool)
        ensures
            r == has_key(self.view_pairs(), key@),
    {
        proof {
            lemma_key_index(self.view_pairs(), key@);
        }
        match self.index_of(key) {
            Some(_) => {
                proof {
                    lemma_key_index(self.view_pairs(), key@);
                }
                true
            },
            None => false,
        }
    }

    /// The value stored under `key`, if any.
    pub fn get(&self, key: &str) -> (r: Option<&String>)
        ensures
            r is Some <==> has_key(self.view_pairs(), key@),
            r is Some ==> r->Some_0@ == value_of(self.view_pairs(), key@),
    {
        proof {
            lemma_key_index(self.view_pairs(), key@);
        }
        match self.index_of(key) {
            Some(i) => {
                proof {
                    lemma_key_index(self.view_pairs(), key@);
                }
                Some(&self.pairs[i].1)
            },
            None => None,
        }
    }

    /// The store holds nothing.
    pub fn is_empty(&self) -> (r: bool)
        ensures
            r == (self.view_pairs().len() == 0),
    {
        self.pairs.is_empty()
    }

    /// How many pairs the store holds.
    pub fn len(&self) -> (r: usize)
        ensures
            r == self.view_pairs().len(),
    {
        self.pairs.len()
    }

    /// Drop every pair.
    pub fn clear(&mut self)
        ensures
            final(self).view_pairs() == Seq::<(Seq<char>, Seq<char>)>::empty(),
            final(self).wf(),
    {
        self.pairs.clear();
        proof {
            assert(self.view_pairs() =~= Seq::<(Seq<char>, Seq<char>)>::empty());
        }
    }

    /// The pairs, in insertion order.
    pub fn iter(&self) -> (r: &Vec<(String, String)>)
        ensures
            r@.len() == self.view_pairs().len(),
            forall|i: int|
                0 <= i < r@.len() ==> ((#[trigger] r@[i]).0@, r@[i].1@) == self.view_pairs()[i],
    {
        &self.pairs
    }
}

impl Default for KeyVal {
    /// The default store is empty.
    fn default() -> (r: KeyVal)
        ensures
            r.view_pairs() == Seq::<(Seq<char>, Seq<char>)>::empty(),
            r.wf(),
    {
        KeyVal::new()
    }
}

} // verus!
