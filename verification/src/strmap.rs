//! A small string-to-string map that keeps its entries in insertion order.
use vstd::prelude::*;

verus! {

/// The map that a list of key/value pairs describes, later pairs taking
/// precedence over earlier ones with the same key.
pub open spec fn pairs_to_map<V>(s: Seq<(Seq<char>, V)>) -> Map<Seq<char>, V>
    decreases s.len(),
{
    if s.len() == 0 {
        Map::empty()
    } else {
        pairs_to_map(s.drop_last()).insert(s.last().0, s.last().1)
    }
}

/// No key occurs twice in the list.
pub open spec fn keys_distinct<V>(s: Seq<(Seq<char>, V)>) -> bool {
    forall|i: int, j: int| 0 <= i < j < s.len() ==> s[i].0 != s[j].0
}

pub proof fn lemma_pairs_to_map_lookup<V>(s: Seq<(Seq<char>, V)>, k: Seq<char>)
    requires
        keys_distinct(s),
    ensures
        pairs_to_map(s).contains_key(k) <==> (exists|i: int| 0 <= i < s.len() && s[i].0 == k),
        forall|i: int|
            0 <= i < s.len() && s[i].0 == k ==> pairs_to_map(s)[k] == #[trigger] s[i].1,
    decreases s.len(),
{
    if s.len() > 0 {
        let p = s.drop_last();
        assert(keys_distinct(p));
        lemma_pairs_to_map_lookup(p, k);
        if pairs_to_map(s).contains_key(k) && s.last().0 != k {
            let i = choose|i: int| 0 <= i < p.len() && p[i].0 == k;
            assert(s[i].0 == k);
        }
        if exists|i: int| 0 <= i < s.len() && s[i].0 == k {
            let i = choose|i: int| 0 <= i < s.len() && s[i].0 == k;
            if i < s.len() - 1 {
                assert(p[i].0 == k);
            }
        }
        assert forall|i: int| 0 <= i < s.len() && s[i].0 == k implies pairs_to_map(s)[k] == #[trigger] s[i].1 by {
            if i < s.len() - 1 {
                assert(p[i] == s[i]);
                assert(s.last().0 != k);
            }
        }
    }
}

pub proof fn lemma_pairs_to_map_update<V>(s: Seq<(Seq<char>, V)>, i: int, v: V)
    requires
        keys_distinct(s),
        0 <= i < s.len(),
    ensures
        keys_distinct(s.update(i, (s[i].0, v))),
        pairs_to_map(s.update(i, (s[i].0, v))) == pairs_to_map(s).insert(s[i].0, v),
{
    let t = s.update(i, (s[i].0, v));
    assert(keys_distinct(t));
    lemma_pairs_to_map_lookup(s, s[i].0);
    assert forall|k: Seq<char>| #![auto] pairs_to_map(t).contains_key(k) <==> pairs_to_map(s).insert(s[i].0, v).contains_key(k) by {
        lemma_pairs_to_map_lookup(s, k);
        lemma_pairs_to_map_lookup(t, k);
        if exists|j: int| 0 <= j < s.len() && s[j].0 == k {
            let j = choose|j: int| 0 <= j < s.len() && s[j].0 == k;
            assert(t[j].0 == k);
        }
        if exists|j: int| 0 <= j < t.len() && t[j].0 == k {
            let j = choose|j: int| 0 <= j < t.len() && t[j].0 == k;
            assert(s[j].0 == k);
        }
    }
    assert forall|k: Seq<char>| #![auto] pairs_to_map(t).contains_key(k) implies pairs_to_map(t)[k] == pairs_to_map(s).insert(s[i].0, v)[k] by {
        lemma_pairs_to_map_lookup(s, k);
        lemma_pairs_to_map_lookup(t, k);
        let j = choose|j: int| 0 <= j < t.len() && t[j].0 == k;
        assert(t[j].1 == pairs_to_map(t)[k]);
        if j != i {
            assert(s[j].0 == k);
            assert(s[j].1 == pairs_to_map(s)[k]);
        }
    }
    assert(pairs_to_map(t) =~= pairs_to_map(s).insert(s[i].0, v));
}

/// A map from strings to strings. No key occurs twice; entries keep the
/// order in which their keys were first inserted.
#[derive(Debug)]
pub struct StrMap {
    entries: Vec<(String, String)>,
}

impl View for StrMap {
    type V = Map<Seq<char>, Seq<char>>;

    closed spec fn view(&self) -> Map<Seq<char>, Seq<char>> {
        pairs_to_map(self.entries.deep_view())
    }
}

impl DeepView for StrMap {
    type V = Map<Seq<char>, Seq<char>>;

    open spec fn deep_view(&self) -> Map<Seq<char>, Seq<char>> {
        self@
    }
}

impl StrMap {
    /// The entries, in insertion order.
    pub closed spec fn pairs(&self) -> Seq<(Seq<char>, Seq<char>)> {
        self.entries.deep_view()
    }

    #[verifier::type_invariant]
    closed spec fn inv(&self) -> bool {
        keys_distinct(self.entries.deep_view())
    }

    /// An empty map.
    pub fn new() -> (m: StrMap)
        ensures
            m@ == Map::<Seq<char>, Seq<char>>::empty(),
            m.pairs().len() == 0,
    {
        let m = StrMap { entries: Vec::new() };
        assert(m.entries.deep_view() =~= Seq::<(Seq<char>, Seq<char>)>::empty());
        m
    }

    /// The number of keys.
    pub fn len(&self) -> (n: usize)
        ensures
            n == self@.dom().len(),
            n == self.pairs().len(),
    {
        proof {
            use_type_invariant(self);
            lemma_pairs_domain(self.pairs());
        }
        self.entries.len()
    }

    /// The entries, in insertion order.
    pub fn entries(&self) -> (e: &Vec<(String, String)>)
        ensures
            e.deep_view() == self.pairs(),
    {
        &self.entries
    }

    /// The position of `key` among the entries, if it is there.
    fn position(&self, key: &str) -> (r: Option<usize>)
        ensures
            match r {
                Some(i) => i < self.pairs().len() && self.pairs()[i as int].0 == key@,
                None => forall|i: int| 0 <= i < self.pairs().len() ==> self.pairs()[i].0 != key@,
            },
    {
        let k = key.to_owned();
        let mut i: usize = 0;
        while i < self.entries.len()
            invariant
                i <= self.entries.len(),
                k@ == key@,
                self.pairs() == self.entries.deep_view(),
                forall|j: int| 0 <= j < i ==> self.pairs()[j].0 != key@,
            decreases self.entries.len() - i,
        {
            assert(self.pairs()[i as int].0 == self.entries@[i as int].0@);
            if self.entries[i].0 == k {
                return Some(i);
            }
            i = i + 1;
        }
        None
    }

    /// The value stored under `key`.
    pub fn get(&self, key: &str) -> (r: Option<&String>)
        ensures
            match r {
                Some(v) => self@.contains_key(key@) && self@[key@] == v@,
                None => !self@.contains_key(key@),
            },
    {
        proof {
            use_type_invariant(self);
            lemma_pairs_to_map_lookup(self.pairs(), key@);
        }
        match self.position(key) {
            Some(i) => {
                assert(self.pairs()[i as int].1 == self.entries@[i as int].1@);
                Some(&self.entries[i].1)
            },
            None => None,
        }
    }

    /// Stores `value` under `key`, replacing what was there.
    pub fn insert(&mut self, key: String, value: String)
        ensures
            final(self)@ == old(self)@.insert(key@, value@),
    {
        proof {
            use_type_invariant(&*self);
        }
        let ghost s = self.pairs();
        match self.position(key.as_str()) {
            Some(i) => {
                proof {
                    lemma_pairs_to_map_update(s, i as int, value@);
                }
                let mut entries: Vec<(String, String)> = Vec::new();
                std::mem::swap(&mut entries, &mut self.entries);
                let old_pair = entries.remove(i);
                entries.insert(i, (old_pair.0, value));
                assert(entries.deep_view() =~= s.update(i as int, (s[i as int].0, value@)));
                self.entries = entries;
            },
            None => {
                let ghost k = key@;
                let mut entries: Vec<(String, String)> = Vec::new();
                std::mem::swap(&mut entries, &mut self.entries);
                entries.push((key, value));
                assert(entries.deep_view() =~= s.push((k, value@)));
                assert(entries.deep_view().drop_last() =~= s);
                self.entries = entries;
            },
        }
    }

    /// Removes every entry.
    pub fn clear(&mut self)
        ensures
            final(self)@ == Map::<Seq<char>, Seq<char>>::empty(),
    {
        self.entries = Vec::new();
        assert(self.entries.deep_view() =~= Seq::<(Seq<char>, Seq<char>)>::empty());
    }

    /// A copy of this map.
    pub fn duplicate(&self) -> (m: StrMap)
        ensures
            m@ == self@,
            m.pairs() == self.pairs(),
    {
        proof {
            use_type_invariant(self);
        }
        let mut v: Vec<(String, String)> = Vec::new();
        let mut i: usize = 0;
        while i < self.entries.len()
            invariant
                i <= self.entries.len(),
                v.deep_view() == self.entries.deep_view().subrange(0, i as int),
            decreases self.entries.len() - i,
        {
            let k = self.entries[i].0.clone();
            let x = self.entries[i].1.clone();
            assert(self.entries.deep_view()[i as int] == (k@, x@));
            let ghost old_v = v.deep_view();
            let ghost pk = (k@, x@);
            v.push((k, x));
            assert(v.deep_view() =~= old_v.push(pk)) by {
                assert(v@.len() == old_v.len() + 1);
                assert forall|j: int| 0 <= j < v@.len() implies v.deep_view()[j] == old_v.push(pk)[j] by {
                    if j < old_v.len() {
                        assert(v.deep_view()[j] == v@[j].deep_view());
                    }
                }
            }
            i = i + 1;
            assert(v.deep_view() =~= self.entries.deep_view().subrange(0, i as int));
        }
        assert(v.deep_view() =~= self.entries.deep_view());
        StrMap { entries: v }
    }

    /// Builds a map from pairs; a later pair with the same key replaces an
    /// earlier one.
    pub fn from_pairs(pairs: Vec<(String, String)>) -> (m: StrMap)
        ensures
            m@ == pairs_to_map(pairs.deep_view()),
    {
        let mut m = StrMap::new();
        let ghost src = pairs.deep_view();
        let mut rest = pairs;
        let mut taken: Vec<(String, String)> = Vec::new();
        // consume from the front by reversing once
        let mut rev: Vec<(String, String)> = Vec::new();
        while rest.len() > 0
            invariant
                rev.deep_view() + rest.deep_view().reverse() == src.reverse(),
            decreases rest.len(),
        {
            let ghost r0 = rest.deep_view();
            let p = rest.pop().unwrap();
            rev.push(p);
            assert(r0 =~= rest.deep_view().push(p.deep_view()));
            assert(rev.deep_view() + rest.deep_view().reverse() =~= src.reverse());
        }
        assert(rev.deep_view() =~= src.reverse());
        let mut n: usize = 0;
        let total = rev.len();
        while rev.len() > 0
            invariant
                n + rev.len() == total,
                total == src.len(),
                rev.deep_view() == src.reverse().subrange(0, (total - n) as int),
                m@ == pairs_to_map(src.subrange(0, n as int)),
            decreases rev.len(),
        {
            let ghost rv = rev.deep_view();
            let p = rev.pop().unwrap();
            proof {
                assert(rv.last() == p.deep_view());
                assert(rv.last() == src.reverse()[(total - n - 1) as int]);
                assert(p.deep_view() == src[n as int]);
                assert(src.subrange(0, n + 1).drop_last() =~= src.subrange(0, n as int));
            }
            m.insert(p.0, p.1);
            n = n + 1;
            assert(rev.deep_view() =~= src.reverse().subrange(0, (total - n) as int));
        }
        assert(src.subrange(0, n as int) =~= src);
        m
    }
}

impl Clone for StrMap {
    fn clone(&self) -> (m: Self)
        ensures
            m@ == self@,
    {
        self.duplicate()
    }
}

/// Inserting a pair under a new key anywhere in the list adds that key.
pub proof fn lemma_pairs_to_map_insert_at<V>(s: Seq<(Seq<char>, V)>, j: int, x: (Seq<char>, V))
    requires
        keys_distinct(s),
        0 <= j <= s.len(),
        forall|i: int| 0 <= i < s.len() ==> s[i].0 != x.0,
    ensures
        keys_distinct(s.insert(j, x)),
        pairs_to_map(s.insert(j, x)) == pairs_to_map(s).insert(x.0, x.1),
{
    let t = s.insert(j, x);
    assert forall|a: int, b: int| 0 <= a < b < t.len() implies t[a].0 != t[b].0 by {
        if a < j && b < j {
        } else if a < j && b == j {
        } else if a < j {
            assert(t[b] == s[b - 1]);
        } else if a == j {
            assert(t[b] == s[b - 1]);
        } else {
            assert(t[a] == s[a - 1]);
            assert(t[b] == s[b - 1]);
        }
    }
    assert forall|k: Seq<char>| #![auto] pairs_to_map(t).contains_key(k) <==> pairs_to_map(s).insert(x.0, x.1).contains_key(k) by {
        lemma_pairs_to_map_lookup(s, k);
        lemma_pairs_to_map_lookup(t, k);
        if exists|i: int| 0 <= i < s.len() && s[i].0 == k {
            let i = choose|i: int| 0 <= i < s.len() && s[i].0 == k;
            if i < j {
                assert(t[i].0 == k);
            } else {
                assert(t[i + 1].0 == k);
            }
        }
        if k == x.0 {
            assert(t[j].0 == k);
        }
        if exists|i: int| 0 <= i < t.len() && t[i].0 == k {
            let i = choose|i: int| 0 <= i < t.len() && t[i].0 == k;
            if i < j {
                assert(s[i].0 == k);
            } else if i > j {
                assert(s[i - 1].0 == k);
            }
        }
    }
    assert forall|k: Seq<char>| #![auto] pairs_to_map(t).contains_key(k) implies pairs_to_map(t)[k] == pairs_to_map(s).insert(x.0, x.1)[k] by {
        lemma_pairs_to_map_lookup(s, k);
        lemma_pairs_to_map_lookup(t, k);
        let i = choose|i: int| 0 <= i < t.len() && t[i].0 == k;
        assert(t[i].1 == pairs_to_map(t)[k]);
        if i < j {
            assert(s[i].0 == k);
            assert(s[i].1 == pairs_to_map(s)[k]);
        } else if i > j {
            assert(s[i - 1].0 == k);
            assert(s[i - 1].1 == pairs_to_map(s)[k]);
        }
    }
    assert(pairs_to_map(t) =~= pairs_to_map(s).insert(x.0, x.1));
}

pub proof fn lemma_pairs_domain<V>(s: Seq<(Seq<char>, V)>)
    requires
        keys_distinct(s),
    ensures
        pairs_to_map(s).dom().finite(),
        pairs_to_map(s).dom().len() == s.len(),
    decreases s.len(),
{
    if s.len() > 0 {
        let p = s.drop_last();
        assert(keys_distinct(p));
        lemma_pairs_domain(p);
        lemma_pairs_to_map_lookup(p, s.last().0);
        if pairs_to_map(p).contains_key(s.last().0) {
            let i = choose|i: int| 0 <= i < p.len() && p[i].0 == s.last().0;
            assert(s[i].0 == s[s.len() - 1].0);
        }
    }
}

} // verus!
