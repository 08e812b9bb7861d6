//! A string-to-string map (labels, annotations, node selectors) as an entry list.
use vstd::prelude::*;
use crate::text::text_eq;

verus! {

/// The map that a list of entries denotes: a later entry overrides an earlier one.
pub open spec fn entries_map(s: Seq<(Seq<char>, Seq<char>)>) -> Map<Seq<char>, Seq<char>>
    decreases s.len(),
{
    if s.len() == 0 {
        Map::empty()
    } else {
        entries_map(s.drop_last()).insert(s.last().0, s.last().1)
    }
}

/// The entries with key `k` taken out.
pub open spec fn without_key(s: Seq<(Seq<char>, Seq<char>)>, k: Seq<char>) -> Seq<(Seq<char>, Seq<char>)>
    decreases s.len(),
{
    if s.len() == 0 {
        s
    } else if s.last().0 == k {
        without_key(s.drop_last(), k)
    } else {
        without_key(s.drop_last(), k).push(s.last())
    }
}

/// A map of text keys to text values, such as the labels of a manifest.
#[derive(Debug)]
pub struct StringMap {
    pub entries: Vec<(String, String)>,
}

impl StringMap {
    /// The entries as plain text pairs.
    pub open spec fn entry_views(&self) -> Seq<(Seq<char>, Seq<char>)> {
        self.entries@.map_values(|e: (String, String)| (e.0@, e.1@))
    }
}

impl View for StringMap {
    type V = Map<Seq<char>, Seq<char>>;

    open spec fn view(&self) -> Map<Seq<char>, Seq<char>> {
        entries_map(self.entry_views())
    }
}

/// The map of a list of entries is finite.
pub proof fn lemma_entries_map_finite(s: Seq<(Seq<char>, Seq<char>)>)
    ensures
        entries_map(s).dom().finite(),
    decreases s.len(),
{
    if s.len() > 0 {
        lemma_entries_map_finite(s.drop_last());
    }
}

/// Removing the entries of one key removes that key from the map.
pub proof fn lemma_without_key(s: Seq<(Seq<char>, Seq<char>)>, k: Seq<char>)
    ensures
        entries_map(without_key(s, k)) == entries_map(s).remove(k),
    decreases s.len(),
{
    if s.len() > 0 {
        lemma_without_key(s.drop_last(), k);
        if s.last().0 == k {
            assert(entries_map(s).remove(k) =~= entries_map(s.drop_last()).remove(k));
        } else {
            let w = without_key(s.drop_last(), k).push(s.last());
            assert(w.drop_last() == without_key(s.drop_last(), k));
            assert(entries_map(s).remove(k) =~= entries_map(s.drop_last()).remove(k).insert(
                s.last().0,
                s.last().1,
            ));
        }
    }
}

/// Entries after position `n` that do not have key `k` do not change what `k` maps to.
pub proof fn lemma_suffix_without_key(s: Seq<(Seq<char>, Seq<char>)>, n: int, k: Seq<char>)
    requires
        0 <= n <= s.len(),
        forall|j: int| n <= j < s.len() ==> #[trigger] s[j].0 != k,
    ensures
        entries_map(s).contains_key(k) == entries_map(s.take(n)).contains_key(k),
        entries_map(s).contains_key(k) ==> entries_map(s)[k] == entries_map(s.take(n))[k],
    decreases s.len(),
{
    if s.len() > n {
        assert(s.drop_last().take(n) == s.take(n));
        assert(s[s.len() - 1].0 != k);
        lemma_suffix_without_key(s.drop_last(), n, k);
    } else {
        assert(s.take(n) == s);
    }
}

impl StringMap {
    /// An empty map.
    pub fn new() -> (res: Self)
        ensures
            res@ == Map::<Seq<char>, Seq<char>>::empty(),
            res.entries@.len() == 0,
    {
        StringMap { entries: Vec::new() }
    }

    /// The value for `key`, if there is one.
    pub fn get(&self, key: &str) -> (res: Option<String>)
        ensures
            res is Some == self@.contains_key(key@),
            res matches Some(v) ==> v@ == self@[key@],
    {
        let ghost s = self.entry_views();
        let mut i = self.entries.len();
        while i > 0
            invariant
                i <= self.entries.len(),
                s == self.entry_views(),
                forall|j: int| i <= j < s.len() ==> #[trigger] s[j].0 != key@,
            decreases i,
        {
            let e = &self.entries[i - 1];
            if text_eq(e.0.as_str(), key) {
                proof {
                    lemma_suffix_without_key(s, i as int, key@);
                    assert(s.take(i as int).last() == s[i - 1]);
                    assert(s.take(i as int).drop_last() == s.take(i - 1));
                }
                return Some(e.1.clone());
            }
            i = i - 1;
        }
        proof {
            lemma_suffix_without_key(s, 0, key@);
        }
        None
    }

    /// Whether `key` has a value.
    pub fn contains_key(&self, key: &str) -> (res: bool)
        ensures
            res == self@.contains_key(key@),
    {
        self.get(key).is_some()
    }

    /// Sets `key` to `value`, replacing any value it had.
    pub fn insert(&mut self, key: String, value: String)
        ensures
            final(self)@ == old(self)@.insert(key@, value@),
    {
        let ghost old_s = self.entry_views();
        let mut kept: Vec<(String, String)> = Vec::new();
        let mut i: usize = 0;
        while i < self.entries.len()
            invariant
                i <= self.entries.len(),
                old_s == self.entry_views(),
                kept@.map_values(|e: (String, String)| (e.0@, e.1@)) == without_key(old_s.take(i as int), key@),
            decreases self.entries.len() - i,
        {
            let e = &self.entries[i];
            proof {
                assert(old_s.take(i + 1).drop_last() == old_s.take(i as int));
                assert(old_s.take(i + 1).last() == (e.0@, e.1@));
            }
            if !text_eq(e.0.as_str(), key.as_str()) {
                let ghost before = kept@;
                kept.push((e.0.clone(), e.1.clone()));
                proof {
                    assert(kept@.map_values(|e: (String, String)| (e.0@, e.1@)) =~= before.map_values(
                        |e: (String, String)| (e.0@, e.1@),
                    ).push((e.0@, e.1@)));
                }
            }
            i = i + 1;
        }
        proof {
            assert(old_s.take(i as int) == old_s);
            lemma_without_key(old_s, key@);
        }
        let ghost before = kept@;
        kept.push((key, value));
        self.entries = kept;
        proof {
            let w = self.entry_views();
            assert(w =~= before.map_values(|e: (String, String)| (e.0@, e.1@)).push((key@, value@)));
            assert(w.drop_last() == without_key(old_s, key@));
            assert(entries_map(w) =~= entries_map(old_s).remove(key@).insert(key@, value@));
            assert(entries_map(old_s).remove(key@).insert(key@, value@) =~= entries_map(old_s).insert(key@, value@));
        }
    }

    /// The number of entries.
    pub fn len(&self) -> (res: usize)
        ensures
            res == self.entries@.len(),
    {
        self.entries.len()
    }
}

} // verus!
