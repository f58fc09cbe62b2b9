//! The store itself: an in-memory mapping from string keys to string
//! values, together with the functions that read it from and write it to
//! its persisted form, one JSON object of string values.

use vstd::prelude::*;
use crate::KvError;

verus! {

/// The mathematical content of a sequence of key-value entries: the map
/// that results from inserting the entries in order, so a later entry for
/// a key wins over an earlier one.
pub open spec fn pairs_map(es: Seq<(String, String)>) -> Map<Seq<char>, Seq<char>>
    decreases es.len(),
{
    if es.len() == 0 {
        Map::empty()
    } else {
        pairs_map(es.drop_last()).insert(es.last().0@, es.last().1@)
    }
}

/// No two entries bind the same key.
pub open spec fn unique_keys(es: Seq<(String, String)>) -> bool {
    forall|i: int, j: int| 0 <= i < j < es.len() ==> es[i].0@ != es[j].0@
}

/// The document that serializing a mapping produces. Serialization orders
/// the object's members by key, so the document is a function of the
/// mapping alone.
pub uninterp spec fn json_of(m: Map<Seq<char>, Seq<char>>) -> Seq<char>;

/// The mapping a document denotes: `None` when the text is not a JSON
/// object of string values, and the object's entries as a map when it
/// is. What parsing yields on a given text depends on that text alone.
pub uninterp spec fn doc_map(s: Seq<char>) -> Option<Map<Seq<char>, Seq<char>>>;

/// The mapping a backing file's contents denote: an absent file and a
/// zero-length file both denote the empty mapping; any other text
/// denotes what it parses to as a JSON object of string values, or
/// nothing at all, and nothing is a corrupt database.
pub open spec fn contents_map(c: Option<Seq<char>>) -> Option<Map<Seq<char>, Seq<char>>> {
    match c {
        Option::None => Some(Map::<Seq<char>, Seq<char>>::empty()),
        Option::Some(s) => if s.len() == 0 {
            Some(Map::<Seq<char>, Seq<char>>::empty())
        } else {
            doc_map(s)
        },
    }
}

/// What a piece of backing-file contents stands for: an absent file and a
/// zero-length file both stand for the empty mapping, and a serialized
/// document stands for the mapping it was made from. `contents_map`
/// speaks of every document; this predicate ties the canonical ones back
/// to the mapping they serialize.
pub open spec fn models_contents(c: Option<Seq<char>>, m: Map<Seq<char>, Seq<char>>) -> bool {
    match c {
        Option::None => m == Map::<Seq<char>, Seq<char>>::empty(),
        Option::Some(s) => (s.len() == 0 && m == Map::<Seq<char>, Seq<char>>::empty()) || (s.len()
            > 0 && s == json_of(m)),
    }
}

/// Relies on serde_json::to_string over a serde_json::Map built from the
/// entries. The map is ordered by key, every value is a JSON string, and
/// serializing such a map cannot fail, so the document depends on the
/// entries' mapping alone; an object document is at least `{}`, two
/// characters.
#[verifier::external_body]
fn json_encode(es: &Vec<(String, String)>) -> (r: String)
    ensures
        r@ == json_of(pairs_map(es@)),
        r@.len() >= 2,
{
    let mut m = serde_json::Map::new();
    for (k, v) in es.iter() {
        m.insert(k.clone(), serde_json::Value::String(v.clone()));
    }
    serde_json::to_string(&m).unwrap()
}

/// Relies on serde_json::from_str: what a text parses to depends on the
/// text alone, so the outcome bears the name `doc_map` — the parse
/// succeeds as an object of string values exactly when the text denotes
/// a mapping, and then yields that mapping's entries. A document that
/// serializing a mapping produced parses back to exactly that mapping.
#[verifier::external_body]
fn json_parse(s: &str) -> (r: Option<Vec<(String, String)>>)
    ensures
        r is Some <==> doc_map(s@) is Some,
        r matches Some(es) ==> doc_map(s@) == Some(pairs_map(es@)),
        r is None ==> forall|m: Map<Seq<char>, Seq<char>>| s@ != #[trigger] json_of(m),
        r matches Some(es) ==> forall|m: Map<Seq<char>, Seq<char>>|
            s@ == #[trigger] json_of(m) ==> pairs_map(es@) == m,
{
    let obj = match serde_json::from_str::<serde_json::Value>(s) {
        Ok(serde_json::Value::Object(m)) => m,
        _ => return None,
    };
    let mut out: Vec<(String, String)> = Vec::new();
    for (k, val) in obj {
        match val {
            serde_json::Value::String(t) => out.push((k, t)),
            _ => return None,
        }
    }
    Some(out)
}

/// The in-memory store: a mapping from keys to values, held as a list of
/// entries with pairwise distinct keys.
pub struct Store {
    entries: Vec<(String, String)>,
}

impl View for Store {
    type V = Map<Seq<char>, Seq<char>>;

    closed spec fn view(&self) -> Map<Seq<char>, Seq<char>> {
        pairs_map(self.entries@)
    }
}

impl Store {
    /// The store's internal invariant: no key appears twice.
    pub closed spec fn wf(&self) -> bool {
        unique_keys(self.entries@)
    }

    /// An empty store.
    pub fn new() -> (r: Store)
        ensures
            r@ == Map::<Seq<char>, Seq<char>>::empty(),
            r.wf(),
    {
        Store { entries: Vec::new() }
    }

    /// Insert a value under a key, overwriting any value the key had.
    pub fn set(&mut self, key: String, value: String)
        requires
            old(self).wf(),
        ensures
            final(self).wf(),
            final(self)@ == old(self)@.insert(key@, value@),
    {
        let mut i: usize = 0;
        while i < self.entries.len()
            invariant
                *self == *old(self),
                old(self).wf(),
                i <= self.entries@.len(),
                forall|j: int| 0 <= j < i ==> self.entries@[j].0@ != key@,
            decreases self.entries@.len() - i,
        {
            if self.entries[i].0 == key {
                let ghost es = self.entries@;
                proof {
                    lemma_pairs_map_update(es, i as int, key, value);
                }
                self.entries.set(i, (key, value));
                proof {
                    assert forall|a: int, b: int|
                        0 <= a < b < self.entries@.len() implies self.entries@[a].0@
                        != self.entries@[b].0@ by {
                        assert(self.entries@[a].0@ == es[a].0@);
                        assert(self.entries@[b].0@ == es[b].0@);
                    }
                }
                return ;
            }
            i += 1;
        }
        let ghost es = self.entries@;
        self.entries.push((key, value));
        proof {
            assert(self.entries@.drop_last() =~= es);
            assert forall|a: int, b: int|
                0 <= a < b < self.entries@.len() implies self.entries@[a].0@
                != self.entries@[b].0@ by {
                if b < es.len() {
                    assert(self.entries@[a] == es[a]);
                    assert(self.entries@[b] == es[b]);
                } else {
                    assert(self.entries@[a] == es[a]);
                    assert(self.entries@[b].0@ == key@);
                }
            }
        }
    }

    /// Look a key up, handing back its value if the key is bound.
    pub fn get(&self, key: &String) -> (r: Option<String>)
        requires
            self.wf(),
        ensures
            self@.contains_key(key@) ==> (r matches Some(v) && v@ == self@[key@]),
            !self@.contains_key(key@) ==> r is None,
    {
        let mut i: usize = 0;
        while i < self.entries.len()
            invariant
                self.wf(),
                i <= self.entries@.len(),
                forall|j: int| 0 <= j < i ==> self.entries@[j].0@ != key@,
            decreases self.entries@.len() - i,
        {
            if self.entries[i].0 == *key {
                proof {
                    lemma_key_found(self.entries@, i as int);
                }
                return Some(self.entries[i].1.clone());
            }
            i += 1;
        }
        proof {
            lemma_key_absent(self.entries@, key@);
        }
        None
    }

    /// Build a store from a list of entries; a later entry for a key wins.
    pub fn from_entries(es: Vec<(String, String)>) -> (r: Store)
        ensures
            r@ == pairs_map(es@),
            r.wf(),
    {
        let mut st = Store::new();
        let mut i: usize = 0;
        while i < es.len()
            invariant
                st.wf(),
                st@ == pairs_map(es@.take(i as int)),
                i <= es@.len(),
            decreases es@.len() - i,
        {
            let k = es[i].0.clone();
            let v = es[i].1.clone();
            st.set(k, v);
            proof {
                assert(es@.take(i + 1).drop_last() =~= es@.take(i as int));
                assert(es@.take(i + 1).last() == es@[i as int]);
            }
            i += 1;
        }
        proof {
            assert(es@.take(es@.len() as int) =~= es@);
        }
        st
    }

    /// Serialize the store as one JSON object of string values.
    pub fn to_json(&self) -> (r: String)
        ensures
            r@ == json_of(self@),
            r@.len() >= 2,
    {
        json_encode(&self.entries)
    }
}

/// Read a store back from the text of the backing file: a zero-length
/// text is the empty store, and anything else must be a JSON object of
/// string values, or the load fails with `CorruptDatabase` — corrupt
/// contents are never coerced into an empty or partial store.
pub fn load_from_str(s: &str) -> (r: Result<Store, KvError>)
    ensures
        forall|m: Map<Seq<char>, Seq<char>>| #[trigger] models_contents(Some(s@), m) ==> (r matches
            Ok(st) && st@ == m),
        contents_map(Some(s@)) matches Some(m) ==> (r matches Ok(st) && st@ == m),
        r is Err <==> contents_map(Some(s@)) is None,
        r matches Ok(st) ==> st.wf(),
        r matches Err(e) ==> e == KvError::CorruptDatabase,
{
    if s.is_empty() {
        Ok(Store::new())
    } else {
        match json_parse(s) {
            Some(es) => Ok(Store::from_entries(es)),
            None => Err(KvError::CorruptDatabase),
        }
    }
}

/// Read a store from the backing file's contents, where `None` stands for
/// a file that does not exist: absence is an empty store, never an error,
/// and contents that denote no mapping fail with `CorruptDatabase`.
pub fn load(contents: &Option<String>) -> (r: Result<Store, KvError>)
    ensures
        forall|m: Map<Seq<char>, Seq<char>>| #[trigger] models_contents(contents.deep_view(), m)
            ==> (r matches Ok(st) && st@ == m),
        contents_map(contents.deep_view()) matches Some(m) ==> (r matches Ok(st) && st@ == m),
        r is Err <==> contents_map(contents.deep_view()) is None,
        r matches Ok(st) ==> st.wf(),
        r matches Err(e) ==> e == KvError::CorruptDatabase,
{
    match contents {
        None => Ok(Store::new()),
        Some(s) => load_from_str(s.as_str()),
    }
}

/// In an entry list with pairwise distinct keys, the folded map binds
/// each entry's key to that entry's value.
proof fn lemma_key_found(es: Seq<(String, String)>, i: int)
    requires
        unique_keys(es),
        0 <= i < es.len(),
    ensures
        pairs_map(es).contains_key(es[i].0@),
        pairs_map(es)[es[i].0@] == es[i].1@,
    decreases es.len(),
{
    if i == es.len() - 1 {
    } else {
        assert forall|a: int, b: int|
            0 <= a < b < es.drop_last().len() implies es.drop_last()[a].0@
            != es.drop_last()[b].0@ by {
            assert(es.drop_last()[a] == es[a]);
            assert(es.drop_last()[b] == es[b]);
        }
        lemma_key_found(es.drop_last(), i);
        assert(es.last().0@ != es[i].0@);
    }
}

/// A key that no entry binds is not in the folded map.
proof fn lemma_key_absent(es: Seq<(String, String)>, k: Seq<char>)
    requires
        forall|i: int| 0 <= i < es.len() ==> es[i].0@ != k,
    ensures
        !pairs_map(es).contains_key(k),
    decreases es.len(),
{
    if es.len() > 0 {
        assert forall|i: int| 0 <= i < es.drop_last().len() implies es.drop_last()[i].0@ != k by {
            assert(es.drop_last()[i] == es[i]);
        }
        lemma_key_absent(es.drop_last(), k);
    }
}

/// Replacing the value of the one entry that binds a key folds to the
/// same map as inserting the new value.
proof fn lemma_pairs_map_update(es: Seq<(String, String)>, i: int, k: String, v: String)
    requires
        unique_keys(es),
        0 <= i < es.len(),
        k@ == es[i].0@,
    ensures
        pairs_map(es.update(i, (k, v))) == pairs_map(es).insert(k@, v@),
    decreases es.len(),
{
    let es2 = es.update(i, (k, v));
    if i == es.len() - 1 {
        assert(es2.drop_last() =~= es.drop_last());
        assert(pairs_map(es.drop_last()).insert(es[i].0@, es[i].1@).insert(k@, v@) =~= pairs_map(
            es.drop_last(),
        ).insert(k@, v@));
    } else {
        assert forall|a: int, b: int|
            0 <= a < b < es.drop_last().len() implies es.drop_last()[a].0@
            != es.drop_last()[b].0@ by {
            assert(es.drop_last()[a] == es[a]);
            assert(es.drop_last()[b] == es[b]);
        }
        lemma_pairs_map_update(es.drop_last(), i, k, v);
        assert(es2.drop_last() =~= es.drop_last().update(i, (k, v)));
        assert(es2.last() == es.last());
        assert(es.last().0@ != k@);
        assert(pairs_map(es.drop_last()).insert(k@, v@).insert(es.last().0@, es.last().1@)
            =~= pairs_map(es.drop_last()).insert(es.last().0@, es.last().1@).insert(k@, v@));
    }
}

} // verus!
