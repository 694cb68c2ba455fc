//! The script registry: a mapping from script name to script source text.
//!
//! The registry is kept as a list of entries in which no key occurs twice.
//! Its contracts speak of the mapping that the list stands for, `Registry::view`.

use vstd::prelude::*;

verus! {

/// One registered script: the name it is invoked by and its source text.
///
/// The source is opaque to the registry; only the engine gives it a meaning.
#[derive(Debug, PartialEq, Eq)]
pub struct ScriptEntry {
    pub key: String,
    pub source: String,
}

impl View for ScriptEntry {
    type V = (Seq<char>, Seq<char>);

    open spec fn view(&self) -> (Seq<char>, Seq<char>) {
        (self.key@, self.source@)
    }
}

/// The mapping that a list of entries stands for when the entries are applied
/// in order: a later entry replaces an earlier one that has the same key.
///
/// Read as a history, the list is the `set`s that a registry has seen since
/// it was empty, and the mapping is what they have left.
pub open spec fn entries_map(entries: Seq<ScriptEntry>) -> Map<Seq<char>, Seq<char>>
    decreases entries.len(),
{
    if entries.len() == 0 {
        Map::empty()
    } else {
        entries_map(entries.drop_last()).insert(entries.last().key@, entries.last().source@)
    }
}

/// No key occurs twice in the list.
pub open spec fn distinct_keys(entries: Seq<ScriptEntry>) -> bool {
    forall|i: int, j: int|
        0 <= i < j < entries.len() ==> (#[trigger] entries[i]).key@ != (#[trigger] entries[j]).key@
}

/// Some entry of the list has the key `key`.
pub open spec fn has_key(entries: Seq<ScriptEntry>, key: Seq<char>) -> bool {
    exists|i: int| 0 <= i < entries.len() && (#[trigger] entries[i]).key@ == key
}

/// The list holds each key of `mapping` exactly once, with the source that
/// `mapping` gives it, and nothing else.
pub open spec fn is_snapshot_of(
    entries: Seq<ScriptEntry>,
    mapping: Map<Seq<char>, Seq<char>>,
) -> bool {
    &&& distinct_keys(entries)
    &&& forall|i: int|
        0 <= i < entries.len() ==> mapping.contains_key((#[trigger] entries[i]).key@)
            && mapping[entries[i].key@] == entries[i].source@
    &&& forall|key: Seq<char>| #[trigger] mapping.contains_key(key) ==> has_key(entries, key)
}

/// What a lookup of `key` in `mapping` answers.
pub open spec fn lookup(mapping: Map<Seq<char>, Seq<char>>, key: Seq<char>) -> Option<Seq<char>> {
    if mapping.contains_key(key) {
        Some(mapping[key])
    } else {
        None
    }
}

/// What stable storage held when the process started.
#[derive(Debug, PartialEq, Eq)]
pub enum StoredSnapshot {
    /// No snapshot is there.
    Missing,
    /// A snapshot is there and could not be read.
    Unreadable,
    /// A snapshot was read and is not a snapshot of a registry; the field
    /// says why.
    Malformed(String),
    /// A snapshot was read; the field holds its entries.
    Parsed(Vec<ScriptEntry>),
}

/// A snapshot is present in stable storage and cannot be understood. A
/// process that meets this does not start: to go on with an empty registry
/// would lose the scripts without a word.
#[derive(Debug, PartialEq, Eq)]
pub struct CorruptSnapshot {
    pub reason: String,
}

/// The write of a snapshot to stable storage failed. The registry holds the
/// new source all the same.
#[derive(Debug, PartialEq, Eq)]
pub struct PersistError {
    pub reason: String,
}

/// The mapping that a process starts with, where it starts at all.
pub open spec fn initial_map(stored: StoredSnapshot) -> Option<Map<Seq<char>, Seq<char>>> {
    match stored {
        StoredSnapshot::Missing => Some(Map::empty()),
        StoredSnapshot::Unreadable => Some(Map::empty()),
        StoredSnapshot::Malformed(_) => None,
        StoredSnapshot::Parsed(entries) => Some(entries_map(entries@)),
    }
}

/// What a `set` answers once its snapshot has been handed to stable storage:
/// `written` is `Ok` where the write succeeded, and holds the reason where it
/// did not.
pub fn set_result(written: Result<(), String>) -> (result: Result<(), PersistError>)
    ensures
        match written {
            Ok(_) => result is Ok,
            Err(reason) => result matches Err(error) && error.reason@ == reason@,
        },
{
    match written {
        Ok(_) => Ok(()),
        Err(reason) => Err(PersistError { reason }),
    }
}

/// The mapping from script name to script source text.
#[derive(Debug)]
pub struct Registry {
    entries: Vec<ScriptEntry>,
}

impl View for Registry {
    type V = Map<Seq<char>, Seq<char>>;

    closed spec fn view(&self) -> Map<Seq<char>, Seq<char>> {
        entries_map(self.entries@)
    }
}

impl Registry {
    /// What every registry that this module hands out satisfies: no key
    /// occurs twice in its list.
    pub closed spec fn wf(&self) -> bool {
        distinct_keys(self.entries@)
    }

    /// The place of `key` in the list, if it is there.
    fn position(&self, key: &String) -> (found: Option<usize>)
        ensures
            match found {
                Some(i) => i < self.entries@.len() && self.entries@[i as int].key@ == key@,
                None => !has_key(self.entries@, key@),
            },
    {
        let mut i: usize = 0;
        while i < self.entries.len()
            invariant
                i <= self.entries@.len(),
                forall|j: int| 0 <= j < i ==> (#[trigger] self.entries@[j]).key@ != key@,
            decreases self.entries@.len() - i,
        {
            if self.entries[i].key == *key {
                return Some(i);
            }
            i += 1;
        }
        None
    }

    /// A registry without scripts.
    pub fn new() -> (registry: Registry)
        ensures
            registry.wf(),
            registry@ == Map::<Seq<char>, Seq<char>>::empty(),
    {
        Registry { entries: Vec::new() }
    }

    /// Looks up the source registered under `key`. The registry is left as it is.
    pub fn get(&self, key: &str) -> (source: Option<&String>)
        requires
            self.wf(),
        ensures
            match source {
                Some(text) => lookup(self@, key@) == Some(text@),
                None => lookup(self@, key@) is None,
            },
    {
        proof {
            lemma_entries_map_keys(self.entries@, key@);
        }
        let probe = key.to_owned();
        match self.position(&probe) {
            Some(i) => {
                proof {
                    lemma_entries_map_value(self.entries@, i as int);
                }
                Some(&self.entries[i].source)
            },
            None => None,
        }
    }

    /// Registers `source` under `key`, in place of what was registered there.
    /// Every other key keeps its source.
    ///
    /// Returns the entries of the registry as it stands after the change, for
    /// the caller to persist: taken within the same exclusive access as the
    /// change, they are a consistent view of it.
    pub fn set(&mut self, key: String, source: String) -> (snapshot: Vec<ScriptEntry>)
        requires
            old(self).wf(),
        ensures
            final(self).wf(),
            final(self)@ == old(self)@.insert(key@, source@),
            is_snapshot_of(snapshot@, final(self)@),
    {
        self.insert(key, source);
        self.snapshot()
    }

    /// Registers `source` under `key`, in place of what was registered there.
    fn insert(&mut self, key: String, source: String)
        requires
            old(self).wf(),
        ensures
            final(self).wf(),
            final(self)@ == old(self)@.insert(key@, source@),
    {
        match self.position(&key) {
            Some(i) => {
                let entry = ScriptEntry { key, source };
                proof {
                    lemma_entries_map_update(self.entries@, i as int, entry);
                }
                self.entries.set(i, entry);
            },
            None => {
                let entry = ScriptEntry { key, source };
                proof {
                    lemma_entries_map_push(self.entries@, entry);
                    let grown = self.entries@.push(entry);
                    assert(distinct_keys(grown));
                }
                self.entries.push(entry);
            },
        }
    }

    /// The entries of the registry: each key once, with its source.
    pub fn snapshot(&self) -> (snapshot: Vec<ScriptEntry>)
        requires
            self.wf(),
        ensures
            is_snapshot_of(snapshot@, self@),
    {
        let mut copy: Vec<ScriptEntry> = Vec::new();
        let mut i: usize = 0;
        while i < self.entries.len()
            invariant
                i <= self.entries@.len(),
                copy@.len() == i,
                forall|j: int| 0 <= j < i ==> (#[trigger] copy@[j])@ == self.entries@[j]@,
            decreases self.entries@.len() - i,
        {
            let entry = ScriptEntry {
                key: self.entries[i].key.clone(),
                source: self.entries[i].source.clone(),
            };
            copy.push(entry);
            i += 1;
        }
        proof {
            let own = self.entries@;
            let out = copy@;
            assert(distinct_keys(out));
            assert forall|j: int| 0 <= j < out.len() implies self@.contains_key(
                (#[trigger] out[j]).key@,
            ) && self@[out[j].key@] == out[j].source@ by {
                lemma_entries_map_value(own, j);
            }
            assert forall|key: Seq<char>| #[trigger] self@.contains_key(key) implies has_key(
                out,
                key,
            ) by {
                lemma_entries_map_keys(own, key);
                let j = choose|j: int| 0 <= j < own.len() && (#[trigger] own[j]).key@ == key;
                assert(out[j]@ == own[j]@);
            }
        }
        copy
    }

    /// The registry that a process starts with. Where stable storage holds
    /// no snapshot, or one that cannot be read, it is empty; where it holds a
    /// snapshot, it is what the stored entries stand for. A malformed
    /// snapshot gives no registry but the error, with the reason unchanged.
    pub fn load(stored: StoredSnapshot) -> (loaded: Result<Registry, CorruptSnapshot>)
        ensures
            match loaded {
                Ok(registry) => registry.wf() && initial_map(stored) == Some(registry@),
                Err(error) => stored matches StoredSnapshot::Malformed(reason) && error.reason@
                    == reason@,
            },
    {
        match stored {
            StoredSnapshot::Missing => Ok(Registry::new()),
            StoredSnapshot::Unreadable => Ok(Registry::new()),
            StoredSnapshot::Malformed(reason) => Err(CorruptSnapshot { reason }),
            StoredSnapshot::Parsed(entries) => Ok(Registry::from_entries(entries)),
        }
    }

    /// The registry that a list of entries stands for. The entries are applied
    /// in order, so of two entries with one key the later one stays.
    pub fn from_entries(entries: Vec<ScriptEntry>) -> (registry: Registry)
        ensures
            registry.wf(),
            registry@ == entries_map(entries@),
    {
        let mut registry = Registry::new();
        let mut i: usize = 0;
        while i < entries.len()
            invariant
                i <= entries@.len(),
                registry.wf(),
                registry@ == entries_map(entries@.take(i as int)),
            decreases entries@.len() - i,
        {
            let key = entries[i].key.clone();
            let source = entries[i].source.clone();
            proof {
                let upto = entries@.take(i as int + 1);
                assert(upto.drop_last() =~= entries@.take(i as int));
            }
            registry.insert(key, source);
            i += 1;
        }
        assert(entries@.take(entries@.len() as int) =~= entries@);
        registry
    }
}

// What holds of the operations together.

/// A script that has been set is what a lookup of its key answers, exactly.
pub proof fn lemma_get_after_set(
    before: Map<Seq<char>, Seq<char>>,
    key: Seq<char>,
    source: Seq<char>,
)
    ensures
        lookup(before.insert(key, source), key) == Some(source),
{
}

/// A `set` leaves every other key as it was.
pub proof fn lemma_set_keeps_other_keys(
    before: Map<Seq<char>, Seq<char>>,
    key: Seq<char>,
    source: Seq<char>,
    other: Seq<char>,
)
    requires
        other != key,
    ensures
        lookup(before.insert(key, source), other) == lookup(before, other),
{
}

/// Setting a key again overwrites: nothing of the earlier source is left,
/// and a lookup answers the later one.
pub proof fn lemma_set_again_overwrites(
    before: Map<Seq<char>, Seq<char>>,
    key: Seq<char>,
    earlier: Seq<char>,
    later: Seq<char>,
)
    ensures
        before.insert(key, earlier).insert(key, later) == before.insert(key, later),
        lookup(before.insert(key, earlier).insert(key, later), key) == Some(later),
{
}

/// Two `set`s of different keys give the same registry in either order, and
/// it holds both sources: neither update is lost.
pub proof fn lemma_sets_of_two_keys_commute(
    before: Map<Seq<char>, Seq<char>>,
    key_a: Seq<char>,
    source_a: Seq<char>,
    key_b: Seq<char>,
    source_b: Seq<char>,
)
    requires
        key_a != key_b,
    ensures
        before.insert(key_a, source_a).insert(key_b, source_b) == before.insert(
            key_b,
            source_b,
        ).insert(key_a, source_a),
        lookup(before.insert(key_a, source_a).insert(key_b, source_b), key_a) == Some(source_a),
        lookup(before.insert(key_a, source_a).insert(key_b, source_b), key_b) == Some(source_b),
{
    assert(before.insert(key_a, source_a).insert(key_b, source_b) =~= before.insert(
        key_b,
        source_b,
    ).insert(key_a, source_a));
}

/// One more `set` at the end of a history is one more `set` on the registry
/// that the history has left.
pub proof fn lemma_entries_map_push(entries: Seq<ScriptEntry>, entry: ScriptEntry)
    ensures
        entries_map(entries.push(entry)) == entries_map(entries).insert(entry.key@, entry.source@),
{
    assert(entries.push(entry).drop_last() =~= entries);
}

/// A key that no `set` of a history names is absent from the registry that
/// the history leaves, whatever the history sets otherwise.
pub proof fn lemma_unset_key_is_absent(history: Seq<ScriptEntry>, key: Seq<char>)
    requires
        !has_key(history, key),
    ensures
        lookup(entries_map(history), key) is None,
{
    lemma_entries_map_keys(history, key);
}

/// What `snapshot` hands out loads back as the mapping it was taken of: a
/// lookup in the reloaded registry answers as one in the registry did, for
/// every key.
pub proof fn lemma_snapshot_reloads(
    snapshot: Vec<ScriptEntry>,
    mapping: Map<Seq<char>, Seq<char>>,
)
    requires
        is_snapshot_of(snapshot@, mapping),
    ensures
        initial_map(StoredSnapshot::Parsed(snapshot)) == Some(mapping),
        forall|key: Seq<char>|
            lookup(#[trigger] initial_map(StoredSnapshot::Parsed(snapshot))->0, key) == lookup(
                mapping,
                key,
            ),
{
    lemma_snapshot_map(snapshot@, mapping);
}

/// After two `set`s of different keys, in whichever order they took effect,
/// a snapshot of the registry loads back with the sources of both.
pub proof fn lemma_reload_after_two_sets(
    before: Map<Seq<char>, Seq<char>>,
    key_a: Seq<char>,
    source_a: Seq<char>,
    key_b: Seq<char>,
    source_b: Seq<char>,
    snapshot: Vec<ScriptEntry>,
)
    requires
        key_a != key_b,
        is_snapshot_of(snapshot@, before.insert(key_a, source_a).insert(key_b, source_b))
            || is_snapshot_of(snapshot@, before.insert(key_b, source_b).insert(key_a, source_a)),
    ensures
        initial_map(StoredSnapshot::Parsed(snapshot)) matches Some(reloaded) && lookup(
            reloaded,
            key_a,
        ) == Some(source_a) && lookup(reloaded, key_b) == Some(source_b),
{
    lemma_sets_of_two_keys_commute(before, key_a, source_a, key_b, source_b);
    lemma_snapshot_reloads(snapshot, before.insert(key_a, source_a).insert(key_b, source_b));
}

/// A list that `is_snapshot_of` a mapping stands for exactly that mapping.
pub proof fn lemma_snapshot_map(entries: Seq<ScriptEntry>, mapping: Map<Seq<char>, Seq<char>>)
    requires
        is_snapshot_of(entries, mapping),
    ensures
        entries_map(entries) == mapping,
{
    assert forall|key: Seq<char>| entries_map(entries).contains_key(key) <==> mapping.contains_key(
        key,
    ) by {
        lemma_entries_map_keys(entries, key);
    }
    assert forall|key: Seq<char>| entries_map(entries).contains_key(key) implies entries_map(
        entries,
    )[key] == mapping[key] by {
        lemma_entries_map_keys(entries, key);
        let i = choose|i: int| 0 <= i < entries.len() && (#[trigger] entries[i]).key@ == key;
        lemma_entries_map_value(entries, i);
    }
}

// What the proofs above and the operations rest on.

/// The keys of `entries_map` are the keys that occur in the list.
proof fn lemma_entries_map_keys(entries: Seq<ScriptEntry>, key: Seq<char>)
    ensures
        entries_map(entries).contains_key(key) <==> has_key(entries, key),
    decreases entries.len(),
{
    if entries.len() > 0 {
        let front = entries.drop_last();
        lemma_entries_map_keys(front, key);
        if has_key(entries, key) {
            let i = choose|i: int| 0 <= i < entries.len() && (#[trigger] entries[i]).key@ == key;
            if i < front.len() {
                assert(front[i].key@ == key);
            }
        }
    }
}

/// Where no key occurs twice, `entries_map` gives each key the source that
/// stands beside it in the list.
proof fn lemma_entries_map_value(entries: Seq<ScriptEntry>, i: int)
    requires
        distinct_keys(entries),
        0 <= i < entries.len(),
    ensures
        entries_map(entries).contains_key(entries[i].key@),
        entries_map(entries)[entries[i].key@] == entries[i].source@,
    decreases entries.len(),
{
    if i < entries.len() - 1 {
        let front = entries.drop_last();
        assert(distinct_keys(front));
        lemma_entries_map_value(front, i);
    }
}

/// Where no key occurs twice, replacing an entry by one with the same key
/// inserts the new source into the mapping.
proof fn lemma_entries_map_update(entries: Seq<ScriptEntry>, i: int, entry: ScriptEntry)
    requires
        distinct_keys(entries),
        0 <= i < entries.len(),
        entry.key@ == entries[i].key@,
    ensures
        distinct_keys(entries.update(i, entry)),
        entries_map(entries.update(i, entry)) == entries_map(entries).insert(
            entry.key@,
            entry.source@,
        ),
    decreases entries.len(),
{
    let changed = entries.update(i, entry);
    let front = entries.drop_last();
    assert(distinct_keys(changed));
    if i == entries.len() - 1 {
        assert(changed.drop_last() =~= front);
    } else {
        assert(changed.drop_last() =~= front.update(i, entry));
        assert(distinct_keys(front));
        lemma_entries_map_update(front, i, entry);
    }
}

} // verus!
