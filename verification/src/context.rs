//! Per-request timeout and metadata.
//!
//! Metadata maps each key to the list of its values, in the order they were
//! added. A timeout of zero means that the call has no client-side deadline.

use crate::messages::KeyValue;
use vstd::prelude::*;

verus! {

/// Metadata entries as sequences: each key with its list of values.
pub type PairsView = Seq<(Seq<char>, Seq<Seq<char>>)>;

/// The keys of a list of entries, in order.
pub open spec fn keys_of(s: PairsView) -> Seq<Seq<char>> {
    s.map_values(|p: (Seq<char>, Seq<Seq<char>>)| p.0)
}

/// No key occurs twice in a list of entries.
pub open spec fn distinct_keys(s: PairsView) -> bool {
    forall|i: int, j: int| 0 <= i < j < s.len() ==> s[i].0 != s[j].0
}

/// The map that a list of entries denotes.
pub open spec fn pairs_map(s: PairsView) -> Map<Seq<char>, Seq<Seq<char>>>
    decreases s.len(),
{
    if s.len() == 0 {
        Map::empty()
    } else {
        pairs_map(s.drop_last()).insert(s.last().0, s.last().1)
    }
}

/// A key that no entry has is absent from the map.
proof fn lemma_pairs_map_absent(s: PairsView, k: Seq<char>)
    requires
        forall|i: int| 0 <= i < s.len() ==> s[i].0 != k,
    ensures
        !pairs_map(s).contains_key(k),
    decreases s.len(),
{
    if s.len() > 0 {
        lemma_pairs_map_absent(s.drop_last(), k);
    }
}

/// With distinct keys, each entry's values are what the map holds for its key.
proof fn lemma_pairs_map_lookup(s: PairsView, i: int)
    requires
        distinct_keys(s),
        0 <= i < s.len(),
    ensures
        pairs_map(s).contains_key(s[i].0),
        pairs_map(s)[s[i].0] == s[i].1,
    decreases s.len(),
{
    if i < s.len() - 1 {
        lemma_pairs_map_lookup(s.drop_last(), i);
    }
}

/// The map of a list of entries is finite and has one key per entry.
proof fn lemma_pairs_map_len(s: PairsView)
    requires
        distinct_keys(s),
    ensures
        pairs_map(s).dom().finite(),
        pairs_map(s).dom().len() == s.len(),
    decreases s.len(),
{
    if s.len() > 0 {
        let t = s.drop_last();
        lemma_pairs_map_len(t);
        assert forall|i: int| 0 <= i < t.len() implies t[i].0 != s.last().0 by {
            assert(s[i].0 != s[s.len() - 1].0);
        }
        lemma_pairs_map_absent(t, s.last().0);
    }
}

/// A key is in the map exactly when some entry has it.
proof fn lemma_pairs_map_contains(s: PairsView, k: Seq<char>)
    requires
        distinct_keys(s),
    ensures
        pairs_map(s).contains_key(k) <==> exists|i: int| 0 <= i < s.len() && s[i].0 == k,
{
    if exists|i: int| 0 <= i < s.len() && s[i].0 == k {
        let i = choose|i: int| 0 <= i < s.len() && s[i].0 == k;
        lemma_pairs_map_lookup(s, i);
    } else {
        lemma_pairs_map_absent(s, k);
    }
}

/// Replacing the values of one entry replaces them in the map.
proof fn lemma_pairs_map_update(s: PairsView, i: int, v: Seq<Seq<char>>)
    requires
        distinct_keys(s),
        0 <= i < s.len(),
    ensures
        distinct_keys(s.update(i, (s[i].0, v))),
        pairs_map(s.update(i, (s[i].0, v))) == pairs_map(s).insert(s[i].0, v),
{
    let t = s.update(i, (s[i].0, v));
    assert(distinct_keys(t));
    assert forall|k: Seq<char>| #[trigger] pairs_map(t).contains_key(k) == pairs_map(s).insert(s[i].0, v).contains_key(k) by {
        lemma_pairs_map_contains(s, k);
        lemma_pairs_map_contains(t, k);
        if exists|j: int| 0 <= j < s.len() && s[j].0 == k {
            let j = choose|j: int| 0 <= j < s.len() && s[j].0 == k;
            assert(t[j].0 == k);
        }
        if exists|j: int| 0 <= j < t.len() && t[j].0 == k {
            let j = choose|j: int| 0 <= j < t.len() && t[j].0 == k;
            assert(s[j].0 == k);
        }
    }
    assert forall|k: Seq<char>| pairs_map(t).contains_key(k) implies #[trigger] pairs_map(t)[k] == pairs_map(s).insert(s[i].0, v)[k] by {
        lemma_pairs_map_contains(t, k);
        let j = choose|j: int| 0 <= j < t.len() && t[j].0 == k;
        lemma_pairs_map_lookup(t, j);
        if j != i {
            lemma_pairs_map_lookup(s, j);
        }
    }
    assert(pairs_map(t) =~= pairs_map(s).insert(s[i].0, v));
}

/// Removing one entry removes its key from the map.
proof fn lemma_pairs_map_remove(s: PairsView, i: int)
    requires
        distinct_keys(s),
        0 <= i < s.len(),
    ensures
        distinct_keys(s.remove(i)),
        pairs_map(s.remove(i)) == pairs_map(s).remove(s[i].0),
{
    let t = s.remove(i);
    assert forall|a: int, b: int| 0 <= a < b < t.len() implies t[a].0 != t[b].0 by {
        let a2 = if a < i { a } else { a + 1 };
        let b2 = if b < i { b } else { b + 1 };
        assert(t[a] == s[a2] && t[b] == s[b2]);
    }
    assert forall|k: Seq<char>| #[trigger] pairs_map(t).contains_key(k) == pairs_map(s).remove(s[i].0).contains_key(k) by {
        lemma_pairs_map_contains(s, k);
        lemma_pairs_map_contains(t, k);
        if exists|j: int| 0 <= j < s.len() && s[j].0 == k && j != i {
            let j = choose|j: int| 0 <= j < s.len() && s[j].0 == k && j != i;
            let j2 = if j < i { j } else { j - 1 };
            assert(t[j2] == s[j]);
        }
        if exists|j: int| 0 <= j < t.len() && t[j].0 == k {
            let j = choose|j: int| 0 <= j < t.len() && t[j].0 == k;
            let j2 = if j < i { j } else { j + 1 };
            assert(t[j] == s[j2]);
        }
    }
    assert forall|k: Seq<char>| pairs_map(t).contains_key(k) implies #[trigger] pairs_map(t)[k] == pairs_map(s).remove(s[i].0)[k] by {
        lemma_pairs_map_contains(t, k);
        let j = choose|j: int| 0 <= j < t.len() && t[j].0 == k;
        lemma_pairs_map_lookup(t, j);
        let j2 = if j < i { j } else { j + 1 };
        assert(t[j] == s[j2]);
        lemma_pairs_map_lookup(s, j2);
    }
    assert(pairs_map(t) =~= pairs_map(s).remove(s[i].0));
}

/// Appending an entry with a new key adds it to the map.
proof fn lemma_pairs_map_push(s: PairsView, k: Seq<char>, v: Seq<Seq<char>>)
    requires
        distinct_keys(s),
        !pairs_map(s).contains_key(k),
    ensures
        distinct_keys(s.push((k, v))),
        pairs_map(s.push((k, v))) == pairs_map(s).insert(k, v),
{
    lemma_pairs_map_contains(s, k);
    let t = s.push((k, v));
    assert forall|a: int, b: int| 0 <= a < b < t.len() implies t[a].0 != t[b].0 by {
        if b == s.len() {
            assert(t[a] == s[a]);
        } else {
            assert(t[a] == s[a] && t[b] == s[b]);
        }
    }
    assert(t.drop_last() =~= s);
}

/// Request metadata: each key with its values, kept in insertion order.
#[derive(Debug)]
pub struct Metadata {
    entries: Vec<(String, Vec<String>)>,
}

/// The view of one entry.
pub open spec fn entry_view(e: (String, Vec<String>)) -> (Seq<char>, Seq<Seq<char>>) {
    (e.0@, e.1@.map_values(|s: String| s@))
}

impl Metadata {
    /// The entries, as sequences, in insertion order.
    pub closed spec fn pairs(&self) -> PairsView {
        self.entries@.map_values(|e: (String, Vec<String>)| entry_view(e))
    }

    #[verifier::type_invariant]
    closed spec fn keys_distinct(&self) -> bool {
        distinct_keys(self.pairs())
    }
}

impl View for Metadata {
    type V = Map<Seq<char>, Seq<Seq<char>>>;

    closed spec fn view(&self) -> Map<Seq<char>, Seq<Seq<char>>> {
        pairs_map(self.pairs())
    }
}

/// The values of a list of strings, as sequences.
pub open spec fn strings_view(v: Seq<String>) -> Seq<Seq<char>> {
    v.map_values(|s: String| s@)
}

impl Metadata {
    /// Empty metadata.
    pub fn new() -> (m: Metadata)
        ensures
            m@ == Map::<Seq<char>, Seq<Seq<char>>>::empty(),
            m.pairs() == Seq::<(Seq<char>, Seq<Seq<char>>)>::empty(),
    {
        let m = Metadata { entries: Vec::new() };
        assert(m.pairs() =~= Seq::empty());
        m
    }

    /// Facts about the map of a list of entries without repeated keys.
    proof fn lemma_pairs_facts(&self)
        requires
            distinct_keys(self.pairs()),
        ensures
            self@.dom().finite(),
            self@.dom().len() == self.pairs().len(),
            distinct_keys(self.pairs()),
            forall|i: int| 0 <= i < self.pairs().len() ==> #[trigger] self@.contains_key(self.pairs()[i].0)
                && self@[self.pairs()[i].0] == self.pairs()[i].1,
            forall|k: Seq<char>| #[trigger] self@.contains_key(k) ==> exists|i: int| 0 <= i < self.pairs().len() && self.pairs()[i].0 == k,
    {
        lemma_pairs_map_len(self.pairs());
        assert forall|i: int| 0 <= i < self.pairs().len() implies #[trigger] self@.contains_key(self.pairs()[i].0)
            && self@[self.pairs()[i].0] == self.pairs()[i].1 by {
            lemma_pairs_map_lookup(self.pairs(), i);
        }
        assert forall|k: Seq<char>| #[trigger] self@.contains_key(k) implies exists|i: int| 0 <= i < self.pairs().len() && self.pairs()[i].0 == k by {
            lemma_pairs_map_contains(self.pairs(), k);
        }
    }

    /// The number of keys.
    pub fn len(&self) -> (n: usize)
        ensures
            n == self@.dom().len(),
    {
        proof {
            use_type_invariant(self);
            self.lemma_pairs_facts();
        }
        self.entries.len()
    }

    /// Whether there are no keys.
    pub fn is_empty(&self) -> (b: bool)
        ensures
            b == (self@.dom().len() == 0),
    {
        proof {
            use_type_invariant(self);
            self.lemma_pairs_facts();
        }
        self.entries.len() == 0
    }

    /// The entries, keys with their values, in insertion order.
    pub fn into_entries(self) -> (r: Vec<(String, Vec<String>)>)
        ensures
            r@.map_values(|e: (String, Vec<String>)| entry_view(e)) == self.pairs(),
    {
        self.entries
    }

    /// The position of `key` among the entries.
    fn find(&self, key: &str) -> (r: Option<usize>)
        ensures
            match r {
                Some(i) => i < self.pairs().len() && self.pairs()[i as int].0 == key@,
                None => forall|i: int| 0 <= i < self.pairs().len() ==> self.pairs()[i].0 != key@,
            },
    {
        let k = key.to_owned();
        let mut i: usize = 0;
        while i < self.entries.len()
            invariant
                i <= self.entries@.len(),
                k@ == key@,
                forall|j: int| 0 <= j < i ==> self.pairs()[j].0 != key@,
            decreases self.entries@.len() - i,
        {
            if self.entries[i].0 == k {
                return Some(i);
            }
            i = i + 1;
        }
        None
    }

    /// Whether `key` is present.
    pub fn contains_key(&self, key: &str) -> (b: bool)
        ensures
            b == self@.contains_key(key@),
    {
        proof {
            use_type_invariant(self);
            lemma_pairs_map_contains(self.pairs(), key@);
        }
        self.find(key).is_some()
    }

    /// The values of `key`, when it is present.
    pub fn get(&self, key: &str) -> (r: Option<&Vec<String>>)
        ensures
            match r {
                Some(v) => self@.contains_key(key@) && strings_view(v@) == self@[key@],
                None => !self@.contains_key(key@),
            },
    {
        proof {
            use_type_invariant(self);
            lemma_pairs_map_contains(self.pairs(), key@);
        }
        match self.find(key) {
            Some(i) => {
                proof {
                    lemma_pairs_map_lookup(self.pairs(), i as int);
                }
                Some(&self.entries[i].1)
            },
            None => None,
        }
    }

    /// Sets the values of `key`, replacing any it had; a new key goes last.
    pub fn insert(&mut self, key: String, values: Vec<String>)
        ensures
            final(self)@ == old(self)@.insert(key@, strings_view(values@)),
    {
        proof {
            use_type_invariant(&*self);
            lemma_pairs_map_contains(self.pairs(), key@);
        }
        match self.find(key.as_str()) {
            Some(i) => {
                let ghost old_pairs = self.pairs();
                let mut entries: Vec<(String, Vec<String>)> = Vec::new();
                std::mem::swap(&mut entries, &mut self.entries);
                let old_entry = entries.remove(i);
                entries.insert(i, (old_entry.0, values));
                proof {
                    assert(entries@.map_values(|e: (String, Vec<String>)| entry_view(e)) =~= old_pairs.update(i as int, (old_pairs[i as int].0, strings_view(values@))));
                    lemma_pairs_map_update(old_pairs, i as int, strings_view(values@));
                }
                self.entries = entries;
            },
            None => {
                let ghost old_pairs = self.pairs();
                let mut entries: Vec<(String, Vec<String>)> = Vec::new();
                std::mem::swap(&mut entries, &mut self.entries);
                entries.push((key, values));
                proof {
                    assert(entries@.map_values(|e: (String, Vec<String>)| entry_view(e)) =~= old_pairs.push((key@, strings_view(values@))));
                    lemma_pairs_map_push(old_pairs, key@, strings_view(values@));
                }
                self.entries = entries;
            },
        }
    }

    /// Appends `value` to the values of `key`, which must be present.
    fn push_value(&mut self, key: &str, value: String)
        requires
            old(self)@.contains_key(key@),
        ensures
            final(self)@ == old(self)@.insert(key@, old(self)@[key@].push(value@)),
    {
        proof {
            use_type_invariant(&*self);
            lemma_pairs_map_contains(self.pairs(), key@);
        }
        match self.find(key) {
            Some(i) => {
                let ghost old_pairs = self.pairs();
                proof {
                    lemma_pairs_map_lookup(old_pairs, i as int);
                }
                let mut entries: Vec<(String, Vec<String>)> = Vec::new();
                std::mem::swap(&mut entries, &mut self.entries);
                let old_entry = entries.remove(i);
                let (k, mut vl) = old_entry;
                let ghost old_vl = vl@;
                vl.push(value);
                entries.insert(i, (k, vl));
                proof {
                    assert(strings_view(vl@) =~= strings_view(old_vl).push(value@));
                    assert(entries@.map_values(|e: (String, Vec<String>)| entry_view(e)) =~= old_pairs.update(i as int, (old_pairs[i as int].0, old_pairs[i as int].1.push(value@))));
                    lemma_pairs_map_update(old_pairs, i as int, old_pairs[i as int].1.push(value@));
                }
                self.entries = entries;
            },
            None => {
                proof {
                    lemma_pairs_map_absent(self.pairs(), key@);
                }
            },
        }
    }

    /// Removes `key`, if present.
    pub fn remove(&mut self, key: &str)
        ensures
            final(self)@ == old(self)@.remove(key@),
    {
        proof {
            use_type_invariant(&*self);
            lemma_pairs_map_contains(self.pairs(), key@);
        }
        match self.find(key) {
            Some(i) => {
                let ghost old_pairs = self.pairs();
                let mut entries: Vec<(String, Vec<String>)> = Vec::new();
                std::mem::swap(&mut entries, &mut self.entries);
                let _ = entries.remove(i);
                proof {
                    assert(entries@.map_values(|e: (String, Vec<String>)| entry_view(e)) =~= old_pairs.remove(i as int));
                    lemma_pairs_map_remove(old_pairs, i as int);
                }
                self.entries = entries;
            },
            None => {
                proof {
                    lemma_pairs_map_absent(self.pairs(), key@);
                    assert(old(self)@.remove(key@) =~= old(self)@);
                }
            },
        }
    }
}

/// The lowercase form of a string, per the Unicode `Lowercase` property.
pub uninterp spec fn lowercase(s: Seq<char>) -> Seq<char>;

/// The lowercase form of `s`.
///
/// Calls `str::to_lowercase`, whose result depends on the characters alone and
/// is named by `lowercase`.
#[verifier::external_body]
fn to_lowercase(s: &str) -> (r: String)
    ensures
        r@ == lowercase(s@),
{
    s.to_lowercase()
}

/// A span of time: whole seconds and the nanoseconds past them.
#[derive(Debug, Clone, Copy, PartialEq, Eq, Structural)]
pub struct Duration {
    /// Whole seconds.
    pub secs: u64,
    /// Nanoseconds past the whole seconds.
    pub nanos: u32,
}

impl Duration {
    /// The whole span in nanoseconds.
    pub open spec fn total_nanos(self) -> int {
        self.secs * 1_000_000_000 + self.nanos
    }

    /// A span of `secs` whole seconds.
    pub fn from_secs(secs: u64) -> (d: Duration)
        ensures
            d.total_nanos() == secs * 1_000_000_000,
            d.nanos == 0,
    {
        Duration { secs, nanos: 0 }
    }

    /// A span of `nanos` nanoseconds, kept as whole seconds and the
    /// nanoseconds past them.
    pub fn from_nanos(nanos: u64) -> (d: Duration)
        ensures
            d.total_nanos() == nanos,
            d.nanos < 1_000_000_000,
    {
        let secs = nanos / 1_000_000_000;
        let rest = (nanos % 1_000_000_000) as u32;
        Duration { secs, nanos: rest }
    }

    /// The whole span in nanoseconds.
    pub fn as_nanos(&self) -> (n: u128)
        ensures
            n == self.total_nanos(),
    {
        (self.secs as u128) * 1_000_000_000 + (self.nanos as u128)
    }
}

/// Configuration carried with a single request: metadata and a timeout.
pub struct Context {
    /// Metadata values grouped by key.
    pub metadata: Metadata,
    /// Request timeout in nanoseconds, or zero for no timeout.
    pub timeout_nano: i64,
}

impl Default for Context {
    /// No metadata and no timeout.
    fn default() -> (c: Context)
        ensures
            c.metadata@ == Map::<Seq<char>, Seq<Seq<char>>>::empty(),
            c.timeout_nano == 0,
    {
        Context { metadata: Metadata::new(), timeout_nano: 0 }
    }
}

/// Creates a context with a timeout in nanoseconds and no metadata; zero
/// disables the timeout.
pub fn with_timeout(i: i64) -> (c: Context)
    ensures
        c.metadata@ == Map::<Seq<char>, Seq<Seq<char>>>::empty(),
        c.timeout_nano == i,
{
    Context { metadata: Metadata::new(), timeout_nano: i }
}

/// Creates a context whose timeout is the duration in nanoseconds, truncated to
/// 64 bits, and no metadata.
pub fn with_duration(du: Duration) -> (c: Context)
    ensures
        c.metadata@ == Map::<Seq<char>, Seq<Seq<char>>>::empty(),
        c.timeout_nano == du.total_nanos() as i64,
{
    let n = du.as_nanos();
    with_timeout(n as i64)
}

/// Creates a context with the given metadata and no timeout.
pub fn with_metadata(md: Metadata) -> (c: Context)
    ensures
        c.metadata@ == md@,
        c.timeout_nano == 0,
{
    Context { metadata: md, timeout_nano: 0 }
}

impl Context {
    /// Appends `value` to the values of `key`; a key that is not present is
    /// added in lowercase form with `value` as its only value.
    pub fn add(&mut self, key: String, value: String)
        ensures
            final(self).timeout_nano == old(self).timeout_nano,
            old(self).metadata@.contains_key(key@) ==> final(self).metadata@ == old(self).metadata@.insert(
                key@,
                old(self).metadata@[key@].push(value@),
            ),
            !old(self).metadata@.contains_key(key@) ==> final(self).metadata@ == old(self).metadata@.insert(
                lowercase(key@),
                seq![value@],
            ),
    {
        if self.metadata.contains_key(key.as_str()) {
            self.metadata.push_value(key.as_str(), value);
        } else {
            let lower = to_lowercase(key.as_str());
            let mut values: Vec<String> = Vec::new();
            values.push(value);
            proof {
                assert(strings_view(values@) =~= seq![value@]);
            }
            self.metadata.insert(lower, values);
        }
    }

    /// Replaces the values of `key`: a non-empty list is stored under the
    /// lowercase form of the key; an empty list removes `key` as given.
    pub fn set(&mut self, key: String, value: Vec<String>)
        ensures
            final(self).timeout_nano == old(self).timeout_nano,
            value@.len() == 0 ==> final(self).metadata@ == old(self).metadata@.remove(key@),
            value@.len() > 0 ==> final(self).metadata@ == old(self).metadata@.insert(
                lowercase(key@),
                strings_view(value@),
            ),
    {
        if value.len() == 0 {
            self.metadata.remove(key.as_str());
        } else {
            let lower = to_lowercase(key.as_str());
            self.metadata.insert(lower, value);
        }
    }
}

/// The metadata map that a list of key-value entries denotes: the values of
/// each key in the order they appear.
pub open spec fn group_pairs(kvs: Seq<(Seq<char>, Seq<char>)>) -> Map<Seq<char>, Seq<Seq<char>>>
    decreases kvs.len(),
{
    if kvs.len() == 0 {
        Map::empty()
    } else {
        let m = group_pairs(kvs.drop_last());
        let k = kvs.last().0;
        let v = kvs.last().1;
        if m.contains_key(k) {
            m.insert(k, m[k].push(v))
        } else {
            m.insert(k, seq![v])
        }
    }
}

/// The key-value entries of a list of metadata entries: each key once per
/// value, keys in entry order and values in list order.
pub open spec fn flatten_pairs(s: PairsView) -> Seq<(Seq<char>, Seq<char>)>
    decreases s.len(),
{
    if s.len() == 0 {
        Seq::empty()
    } else {
        flatten_pairs(s.drop_last()) + block(s.last().0, s.last().1)
    }
}

/// One key paired with each of its values.
pub open spec fn block(k: Seq<char>, vs: Seq<Seq<char>>) -> Seq<(Seq<char>, Seq<char>)> {
    vs.map_values(|v: Seq<char>| (k, v))
}

/// Converts key-value entries into a metadata map; repeated keys keep all
/// their values, in order.
pub fn from_pb(kvs: &Vec<KeyValue>) -> (m: Metadata)
    ensures
        m@ == group_pairs(kvs@.map_values(|kv: KeyValue| kv@)),
{
    let ghost all = kvs@.map_values(|kv: KeyValue| kv@);
    let mut meta = Metadata::new();
    let mut i: usize = 0;
    while i < kvs.len()
        invariant
            i <= kvs@.len(),
            all == kvs@.map_values(|kv: KeyValue| kv@),
            meta@ == group_pairs(all.take(i as int)),
        decreases kvs@.len() - i,
    {
        let kv = &kvs[i];
        proof {
            assert(all.take(i + 1).drop_last() =~= all.take(i as int));
            assert(all.take(i + 1).last() == (kv.key@, kv.value@));
        }
        if meta.contains_key(kv.key.as_str()) {
            meta.push_value(kv.key.as_str(), kv.value.clone());
        } else {
            let mut values: Vec<String> = Vec::new();
            values.push(kv.value.clone());
            proof {
                assert(strings_view(values@) =~= seq![kv.value@]);
            }
            meta.insert(kv.key.clone(), values);
        }
        i = i + 1;
    }
    proof {
        assert(all.take(kvs@.len() as int) =~= all);
    }
    meta
}

/// Converts a metadata map into key-value entries, one per value: keys in the
/// order they were added, each key's values in order.
pub fn to_pb(kvs: Metadata) -> (r: Vec<KeyValue>)
    ensures
        r@.map_values(|kv: KeyValue| kv@) == flatten_pairs(kvs.pairs()),
        distinct_keys(kvs.pairs()),
        pairs_map(kvs.pairs()) == kvs@,
{
    proof {
        use_type_invariant(&kvs);
    }
    let entries = kvs.into_entries();
    let ghost s = entries@.map_values(|e: (String, Vec<String>)| entry_view(e));
    let mut meta: Vec<KeyValue> = Vec::new();
    let mut i: usize = 0;
    while i < entries.len()
        invariant
            i <= entries@.len(),
            s == entries@.map_values(|e: (String, Vec<String>)| entry_view(e)),
            meta@.map_values(|kv: KeyValue| kv@) == flatten_pairs(s.take(i as int)),
        decreases entries@.len() - i,
    {
        let (k, vl) = (&entries[i].0, &entries[i].1);
        let ghost before = meta@.map_values(|kv: KeyValue| kv@);
        let mut j: usize = 0;
        while j < vl.len()
            invariant
                j <= vl@.len(),
                i < entries@.len(),
                k == &entries@[i as int].0,
                vl == &entries@[i as int].1,
                meta@.map_values(|kv: KeyValue| kv@) == before + block(k@, strings_view(vl@).take(j as int)),
            decreases vl@.len() - j,
        {
            let ghost prev = meta@;
            let kv = KeyValue { key: k.clone(), value: vl[j].clone() };
            assert(kv@ == (k@, vl@[j as int]@));
            meta.push(kv);
            proof {
                assert(meta@ == prev.push(kv));
                assert(meta@.map_values(|kv: KeyValue| kv@) =~= prev.map_values(|kv: KeyValue| kv@).push(kv@));
                assert(block(k@, strings_view(vl@).take(j + 1)) =~= block(k@, strings_view(vl@).take(j as int)).push((k@, vl@[j as int]@)));
                assert(strings_view(vl@).take(j + 1) =~= strings_view(vl@).take(j as int).push(vl@[j as int]@));
                assert(meta@.map_values(|kv: KeyValue| kv@) =~= before + block(k@, strings_view(vl@).take(j + 1)));
            }
            j = j + 1;
        }
        proof {
            assert(strings_view(vl@).take(vl@.len() as int) =~= strings_view(vl@));
            assert(s.take(i + 1).drop_last() =~= s.take(i as int));
            assert(s.take(i + 1).last() == entry_view(entries@[i as int]));
        }
        i = i + 1;
    }
    proof {
        assert(s.take(entries@.len() as int) =~= s);
    }
    meta
}

/// Grouping the entries of one key's block after other entries adds the key
/// with the block's values.
proof fn lemma_group_block(a: Seq<(Seq<char>, Seq<char>)>, k: Seq<char>, vs: Seq<Seq<char>>, j: int)
    requires
        !group_pairs(a).contains_key(k),
        1 <= j <= vs.len(),
    ensures
        group_pairs(a + block(k, vs.take(j))) == group_pairs(a).insert(k, vs.take(j)),
    decreases j,
{
    let x = a + block(k, vs.take(j));
    if j == 1 {
        assert(x.drop_last() =~= a);
        assert(seq![vs[0]] =~= vs.take(1));
    } else {
        lemma_group_block(a, k, vs, j - 1);
        assert(x.drop_last() =~= a + block(k, vs.take(j - 1)));
        assert(vs.take(j - 1).push(vs[j - 1]) =~= vs.take(j));
        assert(group_pairs(x) =~= group_pairs(a).insert(k, vs.take(j)));
    }
}

/// Converting metadata to key-value entries and grouping them again gives the
/// same metadata, provided no key has an empty list of values (such a key has
/// no entries and is lost).
pub proof fn lemma_group_flatten_roundtrip(s: PairsView)
    requires
        distinct_keys(s),
        forall|i: int| 0 <= i < s.len() ==> #[trigger] s[i].1.len() > 0,
    ensures
        group_pairs(flatten_pairs(s)) == pairs_map(s),
    decreases s.len(),
{
    if s.len() > 0 {
        let t = s.drop_last();
        assert(distinct_keys(t));
        lemma_group_flatten_roundtrip(t);
        assert forall|i: int| 0 <= i < t.len() implies t[i].0 != s.last().0 by {
            assert(s[i].0 != s[s.len() - 1].0);
        }
        lemma_pairs_map_absent(t, s.last().0);
        assert(s.last().1.len() > 0);
        lemma_group_block(flatten_pairs(t), s.last().0, s.last().1, s.last().1.len() as int);
        assert(s.last().1.take(s.last().1.len() as int) =~= s.last().1);
    }
}

} // verus!
