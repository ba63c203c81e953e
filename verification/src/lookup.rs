//! The two tiers of storage for texts that do not fit in a key: one shared
//! table that owns every stored text, and one cache for each execution
//! context that is filled from it.
//!
//! Both tiers are indexed by the big-endian value of the key. A table is
//! changed only through an exclusive reference, so a caller that shares the
//! global table between threads guards it with a lock of its own.

use crate::hash::InternedStringHash;
use dashmap::mapref::entry::Entry;
use dashmap::DashMap;
use std::collections::HashMap;
use vstd::prelude::*;

verus! {

/// `dashmap::DashMap`, the concurrent hash map that backs the shared table.
/// Nothing inside it is visible to the proofs.
#[verifier::external_type_specification]
#[verifier::external_body]
#[verifier::reject_recursive_types(K)]
#[verifier::reject_recursive_types(V)]
#[verifier::reject_recursive_types(S)]
pub struct ExDashMap<K, V, S>(DashMap<K, V, S>);

/// The table without entries.
pub open spec fn empty_table() -> Map<u64, Seq<char>> {
    Map::empty()
}

/// The entries that a `dashmap::DashMap` holds: each key with the text
/// stored under it.
pub uninterp spec fn dash_entries(m: DashMap<u64, String>) -> Map<u64, Seq<char>>;

/// Calls `dashmap::DashMap::new`. Not proved: the new map holds no entry.
#[verifier::external_body]
fn dash_new() -> (m: DashMap<u64, String>)
    ensures
        dash_entries(m) == empty_table(),
{
    DashMap::new()
}

/// Calls `dashmap::DashMap::get` and copies the value out. Not proved: the
/// result is the text stored under `k`, if there is one.
#[verifier::external_body]
fn dash_get(m: &DashMap<u64, String>, k: u64) -> (found: Option<String>)
    ensures
        found is Some <==> dash_entries(*m).contains_key(k),
        found is Some ==> found.unwrap()@ == dash_entries(*m)[k],
{
    m.get(&k).map(|entry| entry.value().clone())
}

/// Calls `dashmap::DashMap::entry`. Not proved: an occupied entry leaves the
/// map as it was and yields a copy of the stored text; a vacant one stores a
/// copy of `v` under `k` and yields nothing.
#[verifier::external_body]
fn dash_insert_if_absent(m: &mut DashMap<u64, String>, k: u64, v: &String) -> (existing: Option<
    String,
>)
    ensures
        existing is Some <==> dash_entries(*old(m)).contains_key(k),
        existing is Some ==> existing.unwrap()@ == dash_entries(*old(m))[k] && dash_entries(
            *final(m),
        ) == dash_entries(*old(m)),
        existing is None ==> dash_entries(*final(m)) == dash_entries(*old(m)).insert(k, v@),
{
    match m.entry(k) {
        Entry::Occupied(occupied) => Some(occupied.get().clone()),
        Entry::Vacant(vacant) => {
            vacant.insert(v.clone());
            None
        },
    }
}

/// Calls `dashmap::DashMap::clear`. Not proved: no entry is left.
#[verifier::external_body]
fn dash_clear(m: &mut DashMap<u64, String>)
    ensures
        dash_entries(*final(m)) == empty_table(),
{
    m.clear()
}

/// Calls `dashmap::DashMap::len`. Not proved: it counts the entries.
#[verifier::external_body]
fn dash_len(m: &DashMap<u64, String>) -> (n: usize)
    requires
        dash_entries(*m).dom().finite(),
    ensures
        n == dash_entries(*m).len(),
{
    m.len()
}

/// A key is taken by another text: the integrity fault of a table.
pub open spec fn conflicts(m: Map<u64, Seq<char>>, k: u64, text: Seq<char>) -> bool {
    m.contains_key(k) && m[k] != text
}

/// What a context finds under a key: its own cache first, then the shared
/// table.
pub open spec fn two_tier_get(
    local: Map<u64, Seq<char>>,
    global: Map<u64, Seq<char>>,
    k: u64,
) -> Option<Seq<char>> {
    if local.contains_key(k) {
        Some(local[k])
    } else if global.contains_key(k) {
        Some(global[k])
    } else {
        None
    }
}

/// What a context finds under a key differs from the text to be stored.
pub open spec fn two_tier_conflicts(
    local: Map<u64, Seq<char>>,
    global: Map<u64, Seq<char>>,
    k: u64,
    text: Seq<char>,
) -> bool {
    two_tier_get(local, global, k) matches Some(t) && t != text
}

/// The shared table after a context has interned a text without conflict:
/// untouched where the context's cache had the key.
pub open spec fn global_after_intern(
    local: Map<u64, Seq<char>>,
    global: Map<u64, Seq<char>>,
    k: u64,
    text: Seq<char>,
) -> Map<u64, Seq<char>> {
    if local.contains_key(k) {
        global
    } else {
        global.insert(k, text)
    }
}

/// Every entry of the cache is an entry of the shared table.
pub open spec fn cache_coherent(local: Map<u64, Seq<char>>, global: Map<u64, Seq<char>>) -> bool {
    local.submap_of(global)
}

/// The text of an optional string.
pub open spec fn text_of(found: Option<String>) -> Option<Seq<char>> {
    match found {
        Some(s) => Some(s@),
        None => None,
    }
}

/// The shared table: the owner of every stored text, at most one for each
/// key.
pub struct GlobalLookupTable {
    table: DashMap<u64, String>,
}

impl View for GlobalLookupTable {
    type V = Map<u64, Seq<char>>;

    closed spec fn view(&self) -> Map<u64, Seq<char>> {
        dash_entries(self.table)
    }
}

impl GlobalLookupTable {
    /// The table holds finitely many entries.
    pub closed spec fn wf(&self) -> bool {
        self@.dom().finite()
    }

    /// An empty table.
    pub fn new() -> (table: Self)
        ensures
            table.wf(),
            table@ == empty_table(),
    {
        GlobalLookupTable { table: dash_new() }
    }

    /// Stores `s` under the key unless the key is taken, and returns the
    /// stored text. A key that is taken by another text is an integrity
    /// fault, which the caller rules out.
    pub fn intern(&mut self, hash: InternedStringHash, s: String) -> (stored: String)
        requires
            old(self).wf(),
            !conflicts(old(self)@, hash.value(), s@),
        ensures
            final(self).wf(),
            final(self)@ == old(self)@.insert(hash.value(), s@),
            stored@ == s@,
    {
        let k: u64 = hash.hash();
        let existing = dash_insert_if_absent(&mut self.table, k, &s);
        proof {
            assert(self@ =~= old(self)@.insert(k, s@));
        }
        match existing {
            Some(winner) => winner,
            None => s,
        }
    }

    /// Stores `s` under the key as `intern` does, or reports the integrity
    /// fault: nothing is returned and the table is left as it was exactly
    /// when the key is taken by another text.
    pub fn try_intern(&mut self, hash: InternedStringHash, s: String) -> (stored: Option<String>)
        requires
            old(self).wf(),
        ensures
            final(self).wf(),
            stored is None <==> conflicts(old(self)@, hash.value(), s@),
            stored is None ==> final(self)@ == old(self)@,
            stored is Some ==> stored.unwrap()@ == s@ && final(self)@ == old(self)@.insert(
                hash.value(),
                s@,
            ),
    {
        let fits = match self.lookup(hash) {
            Some(existing) => existing == s,
            None => true,
        };
        if fits {
            Some(self.intern(hash, s))
        } else {
            None
        }
    }

    /// The text stored under the key, if any. The table is not changed.
    pub fn lookup(&self, hash: InternedStringHash) -> (found: Option<String>)
        ensures
            text_of(found) == self@.get(hash.value()),
    {
        dash_get(&self.table, hash.hash())
    }

    /// The number of stored texts.
    pub fn len(&self) -> (n: usize)
        requires
            self.wf(),
        ensures
            n == self@.len(),
    {
        dash_len(&self.table)
    }
}

impl Default for GlobalLookupTable {
    fn default() -> (table: Self)
        ensures
            table.wf(),
            table@ == empty_table(),
    {
        GlobalLookupTable::new()
    }
}

/// The cache of one execution context.
pub struct LocalLookupTable {
    table: HashMap<u64, String>,
}

impl View for LocalLookupTable {
    type V = Map<u64, Seq<char>>;

    closed spec fn view(&self) -> Map<u64, Seq<char>> {
        self.table@.map_values(|s: String| s@)
    }
}

impl LocalLookupTable {
    /// An empty cache.
    pub fn new() -> (table: Self)
        ensures
            table@ == empty_table(),
    {
        let table = LocalLookupTable { table: HashMap::new() };
        assert(table@ =~= empty_table());
        table
    }

    /// Interns `s` under the key for this context and returns the stored
    /// text. Where the cache has the key the shared table is not touched;
    /// otherwise the text goes through the shared table and is cached. A key
    /// under which the context finds another text is an integrity fault,
    /// which the caller rules out.
    pub fn intern(
        &mut self,
        global: &mut GlobalLookupTable,
        hash: InternedStringHash,
        s: String,
    ) -> (stored: String)
        requires
            old(global).wf(),
            !two_tier_conflicts(old(self)@, old(global)@, hash.value(), s@),
        ensures
            final(global).wf(),
            stored@ == s@,
            final(self)@ == old(self)@.insert(hash.value(), s@),
            final(global)@ == global_after_intern(old(self)@, old(global)@, hash.value(), s@),
    {
        broadcast use vstd::std_specs::hash::group_hash_axioms;

        let k: u64 = hash.hash();
        if self.table.contains_key(&k) {
            proof {
                assert(self@ =~= old(self)@.insert(k, s@));
            }
            s
        } else {
            let winner = global.intern(hash, s);
            self.table.insert(k, winner.clone());
            proof {
                assert(self@ =~= old(self)@.insert(k, s@));
            }
            winner
        }
    }

    /// Interns `s` as `intern` does, or reports the integrity fault: nothing
    /// is returned and both tiers are left as they were exactly when the
    /// context finds another text under the key.
    pub fn try_intern(
        &mut self,
        global: &mut GlobalLookupTable,
        hash: InternedStringHash,
        s: String,
    ) -> (stored: Option<String>)
        requires
            old(global).wf(),
        ensures
            final(global).wf(),
            stored is None <==> two_tier_conflicts(old(self)@, old(global)@, hash.value(), s@),
            stored is None ==> final(self)@ == old(self)@ && final(global)@ == old(global)@,
            stored is Some ==> {
                &&& stored.unwrap()@ == s@
                &&& final(self)@ == old(self)@.insert(hash.value(), s@)
                &&& final(global)@ == global_after_intern(
                    old(self)@,
                    old(global)@,
                    hash.value(),
                    s@,
                )
            },
    {
        let fits = match self.peek(global, hash) {
            Some(existing) => existing == s,
            None => true,
        };
        if fits {
            Some(self.intern(global, hash, s))
        } else {
            None
        }
    }

    /// What this context finds under the key, without caching it.
    pub fn peek(&self, global: &GlobalLookupTable, hash: InternedStringHash) -> (found: Option<
        String,
    >)
        ensures
            text_of(found) == two_tier_get(self@, global@, hash.value()),
    {
        broadcast use vstd::std_specs::hash::group_hash_axioms;

        let k: u64 = hash.hash();
        match self.table.get(&k) {
            Some(s) => Some(s.clone()),
            None => global.lookup(hash),
        }
    }

    /// What this context finds under the key: the cache first, then the
    /// shared table, whose answer is cached.
    pub fn lookup(&mut self, global: &GlobalLookupTable, hash: InternedStringHash) -> (found:
        Option<String>)
        ensures
            text_of(found) == two_tier_get(old(self)@, global@, hash.value()),
            final(self)@ == match text_of(found) {
                Some(text) => old(self)@.insert(hash.value(), text),
                None => old(self)@,
            },
    {
        broadcast use vstd::std_specs::hash::group_hash_axioms;

        let k: u64 = hash.hash();
        let found = self.peek(global, hash);
        if !self.table.contains_key(&k) {
            if let Some(s) = &found {
                self.table.insert(k, s.clone());
            }
        }
        proof {
            assert(self@ =~= match text_of(found) {
                Some(text) => old(self)@.insert(k, text),
                None => old(self)@,
            });
        }
        found
    }

    /// The number of cached texts.
    pub fn len(&self) -> (n: usize)
        ensures
            n == self@.len(),
    {
        broadcast use vstd::std_specs::hash::group_hash_axioms;

        proof {
            assert(self@.dom() =~= self.table@.dom());
        }
        self.table.len()
    }

}

impl Default for LocalLookupTable {
    fn default() -> (table: Self)
        ensures
            table@ == empty_table(),
    {
        LocalLookupTable::new()
    }
}

/// What the context finds under the key; a hit in the shared table is
/// cached.
pub fn local_lookup(
    local: &mut LocalLookupTable,
    global: &GlobalLookupTable,
    hash: InternedStringHash,
) -> (found: Option<String>)
    ensures
        text_of(found) == two_tier_get(old(local)@, global@, hash.value()),
        final(local)@ == match text_of(found) {
            Some(text) => old(local)@.insert(hash.value(), text),
            None => old(local)@,
        },
{
    local.lookup(global, hash)
}

/// Hands the text to the context's cache, which stores it in the shared
/// table unless it is there already; the redundant copy is dropped.
pub fn local_intern(
    local: &mut LocalLookupTable,
    global: &mut GlobalLookupTable,
    hash: InternedStringHash,
    s: String,
) -> (stored: String)
    requires
        old(global).wf(),
        !two_tier_conflicts(old(local)@, old(global)@, hash.value(), s@),
    ensures
        final(global).wf(),
        stored@ == s@,
        final(local)@ == old(local)@.insert(hash.value(), s@),
        final(global)@ == global_after_intern(old(local)@, old(global)@, hash.value(), s@),
{
    local.intern(global, hash, s)
}

/// Local teardown: forgets every cached text of the context. The shared
/// table is not involved.
pub fn local_cleanup(local: &mut LocalLookupTable)
    ensures
        final(local)@ == empty_table(),
{
    local.table.clear();
    assert(local@ =~= empty_table());
}

/// Global teardown: removes every entry of the shared table and releases the
/// texts. A cache that is not torn down as well keeps its own copies.
pub fn global_cleanup(global: &mut GlobalLookupTable)
    ensures
        final(global).wf(),
        final(global)@ == empty_table(),
        final(global)@.len() == 0,
{
    dash_clear(&mut global.table);
}

} // verus!
