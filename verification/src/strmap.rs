//! A string-to-string map with last-write-wins semantics, stored as a plain
//! vector of pairs and viewed as a mathematical `Map<Seq<char>, Seq<char>>`.

use vstd::prelude::*;

verus! {

/// The mathematical meaning of a pair list: entries are inserted first to
/// last, so the last entry with a given key wins.
pub open spec fn entries_map(s: Seq<(String, String)>) -> Map<Seq<char>, Seq<char>>
    decreases s.len(),
{
    if s.len() == 0 {
        Map::empty()
    } else {
        entries_map(s.drop_last()).insert(s.last().0@, s.last().1@)
    }
}

/// `s` with every entry whose key views as `k` dropped.
pub open spec fn drop_key(s: Seq<(String, String)>, k: Seq<char>) -> Seq<(String, String)>
    decreases s.len(),
{
    if s.len() == 0 {
        s
    } else if s.last().0@ == k {
        drop_key(s.drop_last(), k)
    } else {
        drop_key(s.drop_last(), k).push(s.last())
    }
}

/// Entries before index `j` say everything the map says about keys that do
/// not occur at `j` or later.
proof fn lemma_entries_map_prefix(s: Seq<(String, String)>, j: int, k: Seq<char>)
    requires
        0 <= j <= s.len(),
        forall|m: int| j <= m < s.len() ==> (#[trigger] s[m]).0@ != k,
    ensures
        entries_map(s).contains_key(k) == entries_map(s.take(j)).contains_key(k),
        entries_map(s).contains_key(k) ==> entries_map(s)[k] == entries_map(s.take(j))[k],
    decreases s.len() - j,
{
    if j == s.len() {
        assert(s.take(j) =~= s);
    } else {
        lemma_entries_map_prefix(s, j + 1, k);
        assert(s.take(j + 1).drop_last() =~= s.take(j));
        assert(s.take(j + 1).last() == s[j]);
    }
}

/// Dropping a key from the entries is removing it from the map.
proof fn lemma_drop_key_map(s: Seq<(String, String)>, k: Seq<char>)
    ensures
        entries_map(drop_key(s, k)) =~= entries_map(s).remove(k),
    decreases s.len(),
{
    if s.len() > 0 {
        lemma_drop_key_map(s.drop_last(), k);
        if s.last().0@ != k {
            let kept = drop_key(s.drop_last(), k);
            assert(kept.push(s.last()).drop_last() =~= kept);
            assert(kept.push(s.last()).last() == s.last());
        }
    }
}

/// A string-keyed, string-valued map. Later insertions shadow earlier ones,
/// so its view is an ordinary mathematical map.
pub struct StrMap {
    entries: Vec<(String, String)>,
}

impl View for StrMap {
    type V = Map<Seq<char>, Seq<char>>;

    closed spec fn view(&self) -> Map<Seq<char>, Seq<char>> {
        entries_map(self.entries@)
    }
}

impl StrMap {
    /// The empty map.
    pub fn new() -> (r: StrMap)
        ensures
            r@ == Map::<Seq<char>, Seq<char>>::empty(),
    {
        StrMap { entries: Vec::new() }
    }

    /// Binds `name` to `value`, shadowing any earlier binding.
    pub fn insert(&mut self, name: String, value: String)
        ensures
            final(self)@ == old(self)@.insert(name@, value@),
    {
        let ghost pre = self.entries@;
        self.entries.push((name, value));
        proof {
            assert(self.entries@.drop_last() =~= pre);
        }
    }

    /// Looks `name` up; `None` exactly when no binding exists.
    pub fn get(&self, name: &str) -> (r: Option<&String>)
        ensures
            match r {
                Some(v) => self@.contains_key(name@) && v@ == self@[name@],
                None => !self@.contains_key(name@),
            },
    {
        let key = String::from_str(name);
        let n = self.entries.len();
        let mut j: usize = n;
        while j > 0
            invariant
                0 <= j <= n,
                n == self.entries@.len(),
                key@ == name@,
                forall|m: int| j <= m < n ==> (#[trigger] self.entries@[m]).0@ != name@,
            decreases j,
        {
            j = j - 1;
            let entry = &self.entries[j];
            if entry.0.eq(&key) {
                proof {
                    lemma_entries_map_prefix(self.entries@, j + 1, name@);
                    assert(self.entries@.take(j + 1).last() == self.entries@[j as int]);
                    assert(self.entries@.take(j + 1).drop_last() =~= self.entries@.take(
                        j as int,
                    ));
                }
                return Some(&entry.1);
            }
        }
        proof {
            lemma_entries_map_prefix(self.entries@, 0, name@);
            assert(self.entries@.take(0) =~= Seq::<(String, String)>::empty());
        }
        None
    }

    /// Whether a binding for `name` exists.
    pub fn contains_key(&self, name: &str) -> (r: bool)
        ensures
            r == self@.contains_key(name@),
    {
        match self.get(name) {
            Some(_) => true,
            None => false,
        }
    }

    /// Drops the binding for `name`, if any.
    pub fn remove(&mut self, name: &str)
        ensures
            final(self)@ == old(self)@.remove(name@),
    {
        let key = String::from_str(name);
        let n = self.entries.len();
        let mut kept: Vec<(String, String)> = Vec::new();
        let mut i: usize = 0;
        while i < n
            invariant
                0 <= i <= n,
                n == self.entries@.len(),
                key@ == name@,
                kept@ =~= drop_key(self.entries@.take(i as int), name@),
            decreases n - i,
        {
            let entry = &self.entries[i];
            proof {
                assert(self.entries@.take(i + 1).drop_last() =~= self.entries@.take(i as int));
                assert(self.entries@.take(i + 1).last() == self.entries@[i as int]);
            }
            if entry.0.eq(&key) {
                // dropped
            } else {
                let k = entry.0.clone();
                let v = entry.1.clone();
                kept.push((k, v));
                proof {
                    assert((k, v) == self.entries@[i as int]);
                }
            }
            i = i + 1;
        }
        proof {
            assert(self.entries@.take(n as int) =~= self.entries@);
            lemma_drop_key_map(self.entries@, name@);
        }
        self.entries = kept;
    }

    /// An independent copy with the same bindings.
    pub fn duplicate(&self) -> (r: StrMap)
        ensures
            r@ == self@,
    {
        let n = self.entries.len();
        let mut out: Vec<(String, String)> = Vec::new();
        let mut i: usize = 0;
        while i < n
            invariant
                0 <= i <= n,
                n == self.entries@.len(),
                out@ =~= self.entries@.take(i as int),
            decreases n - i,
        {
            let entry = &self.entries[i];
            let k = entry.0.clone();
            let v = entry.1.clone();
            out.push((k, v));
            proof {
                assert((k, v) == self.entries@[i as int]);
                assert(self.entries@.take(i + 1).drop_last() =~= self.entries@.take(i as int));
            }
            i = i + 1;
        }
        proof {
            assert(out@ =~= self.entries@);
        }
        StrMap { entries: out }
    }
}

} // verus!
