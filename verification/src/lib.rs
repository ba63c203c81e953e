//! Process-wide string interning: short strings are embedded in an 8-byte
//! key, longer ones are stored once in a shared table and cached per
//! execution context.
//!
//! The tables are explicit values: a caller creates one shared table for the
//! process and one cache for each execution context, and hands both to the
//! operations that need them.

pub mod hash;
pub mod lookup;
pub mod order;

pub use crate::hash::InternedStringHash;
use crate::hash::{
    be_value, encode, encode_marks_variant, encode_short_roundtrip, inline_text,
    is_inline_text_key, is_inlined_key,
};
use crate::lookup::{
    cache_coherent, conflicts, empty_table, global_after_intern, local_intern, local_lookup,
    text_of, two_tier_conflicts, two_tier_get, GlobalLookupTable, LocalLookupTable,
};
use vstd::prelude::*;
use vstd::utf8::encode_utf8;

verus! {

/// The index of a text in the tables: the big-endian value of its key.
pub open spec fn key_value(text: Seq<char>) -> u64 {
    be_value(encode(text))
}

/// The text does not fit in its key and lives in the tables.
pub open spec fn needs_table(text: Seq<char>) -> bool {
    !is_inlined_key(encode(text))
}

/// The context's cache after `from_str` of a text: untouched for a text that
/// fits in its key; otherwise it holds under the key what the context found
/// there, or the text where it found nothing.
pub open spec fn local_after_from_str(
    local: Map<u64, Seq<char>>,
    global: Map<u64, Seq<char>>,
    text: Seq<char>,
) -> Map<u64, Seq<char>> {
    if !needs_table(text) {
        local
    } else {
        match two_tier_get(local, global, key_value(text)) {
            Some(found) => local.insert(key_value(text), found),
            None => local.insert(key_value(text), text),
        }
    }
}

/// The shared table after `from_str` of a text: it gains an entry only where
/// the text needs the tables and the context found nothing under the key.
pub open spec fn global_after_from_str(
    local: Map<u64, Seq<char>>,
    global: Map<u64, Seq<char>>,
    text: Seq<char>,
) -> Map<u64, Seq<char>> {
    if needs_table(text) && two_tier_get(local, global, key_value(text)) is None {
        global.insert(key_value(text), text)
    } else {
        global
    }
}

/// The text that a key resolves to in a context: the embedded text of a
/// well-formed inlined key, otherwise what the context finds under the key.
pub open spec fn resolved_text(
    key: Seq<u8>,
    local: Map<u64, Seq<char>>,
    global: Map<u64, Seq<char>>,
) -> Option<Seq<char>> {
    if is_inlined_key(key) {
        if is_inline_text_key(key) {
            Some(inline_text(key))
        } else {
            None
        }
    } else {
        two_tier_get(local, global, be_value(key))
    }
}

/// The context's cache after resolving a key: a text found for a hashed key
/// is cached.
pub open spec fn local_after_resolve(
    key: Seq<u8>,
    local: Map<u64, Seq<char>>,
    global: Map<u64, Seq<char>>,
) -> Map<u64, Seq<char>> {
    if is_inlined_key(key) {
        local
    } else {
        match two_tier_get(local, global, be_value(key)) {
            Some(found) => local.insert(be_value(key), found),
            None => local,
        }
    }
}

/// The handle that stands for a string: it wraps one key.
#[derive(Clone, Copy, Eq, Hash, Debug)]
pub struct InternedString {
    hash: InternedStringHash,
}

impl InternedString {
    /// The key that the handle wraps.
    pub closed spec fn key(self) -> InternedStringHash {
        self.hash
    }

    /// Interns an owned text. A text that fits in its key touches no table.
    /// Any other text is handed to the context's cache; that the context
    /// finds another text under the key is an integrity fault, which the
    /// caller rules out.
    pub fn new(s: String, local: &mut LocalLookupTable, global: &mut GlobalLookupTable) -> (handle:
        InternedString)
        requires
            old(global).wf(),
            needs_table(s@) ==> !two_tier_conflicts(old(local)@, old(global)@, key_value(s@), s@),
        ensures
            final(global).wf(),
            handle.key()@ == encode(s@),
            final(local)@ == if needs_table(s@) {
                old(local)@.insert(key_value(s@), s@)
            } else {
                old(local)@
            },
            final(global)@ == if needs_table(s@) {
                global_after_intern(old(local)@, old(global)@, key_value(s@), s@)
            } else {
                old(global)@
            },
    {
        let hash = InternedStringHash::from_str(s.as_str());
        if !hash.is_inlined() {
            local_intern(local, global, hash, s);
        }
        InternedString { hash }
    }

    /// Interns an owned text as `new` does, or reports the integrity fault:
    /// no handle is returned and both tiers are left as they were exactly
    /// when the text needs the tables and the context finds another text
    /// under its key.
    pub fn try_new(
        s: String,
        local: &mut LocalLookupTable,
        global: &mut GlobalLookupTable,
    ) -> (handle: Option<InternedString>)
        requires
            old(global).wf(),
        ensures
            final(global).wf(),
            handle is None <==> needs_table(s@) && two_tier_conflicts(
                old(local)@,
                old(global)@,
                key_value(s@),
                s@,
            ),
            handle is None ==> final(local)@ == old(local)@ && final(global)@ == old(global)@,
            handle is Some ==> {
                &&& handle.unwrap().key()@ == encode(s@)
                &&& final(local)@ == if needs_table(s@) {
                    old(local)@.insert(key_value(s@), s@)
                } else {
                    old(local)@
                }
                &&& final(global)@ == if needs_table(s@) {
                    global_after_intern(old(local)@, old(global)@, key_value(s@), s@)
                } else {
                    old(global)@
                }
            },
    {
        let hash = InternedStringHash::from_str(s.as_str());
        let fits = hash.is_inlined() || match local.peek(global, hash) {
            Some(existing) => existing == s,
            None => true,
        };
        if fits {
            Some(InternedString::new(s, local, global))
        } else {
            None
        }
    }

    /// Interns a borrowed text. A text that fits in its key touches no table.
    /// For any other text the context looks the key up, and only where it
    /// finds nothing a copy of the text is stored.
    pub fn from_str(s: &str, local: &mut LocalLookupTable, global: &mut GlobalLookupTable) -> (handle:
        InternedString)
        requires
            old(global).wf(),
        ensures
            final(global).wf(),
            handle.key()@ == encode(s@),
            final(local)@ == local_after_from_str(old(local)@, old(global)@, s@),
            final(global)@ == global_after_from_str(old(local)@, old(global)@, s@),
    {
        let hash = InternedStringHash::from_str(s);
        if !hash.is_inlined() {
            let looked_up = local_lookup(local, global, hash);
            if looked_up.is_none() {
                let string = s.to_owned();
                local_intern(local, global, hash, string);
            }
        }
        InternedString { hash }
    }

    /// The handle of a key, taken on trust: whether it resolves is the
    /// caller's concern.
    pub fn from_hash(hash: InternedStringHash) -> (handle: InternedString)
        ensures
            handle.key() == hash,
    {
        InternedString { hash }
    }

    /// The text of a handle that resolves in the context.
    pub fn as_str(&self, local: &mut LocalLookupTable, global: &GlobalLookupTable) -> (text: String)
        requires
            resolved_text(self.key()@, old(local)@, global@) is Some,
        ensures
            Some(text@) == resolved_text(self.key()@, old(local)@, global@),
            final(local)@ == local_after_resolve(self.key()@, old(local)@, global@),
    {
        match self.try_as_str(local, global) {
            Some(text) => text,
            None => String::new(),
        }
    }

    /// The text of the handle, if it resolves in the context: decoded from an
    /// inlined key, otherwise looked up in the cache and then in the shared
    /// table.
    pub fn try_as_str(&self, local: &mut LocalLookupTable, global: &GlobalLookupTable) -> (text:
        Option<String>)
        ensures
            text_of(text) == resolved_text(self.key()@, old(local)@, global@),
            final(local)@ == local_after_resolve(self.key()@, old(local)@, global@),
    {
        if self.hash.is_inlined() {
            match self.hash.try_get_inlined_str() {
                Some(text) => Some(text.to_owned()),
                None => None,
            }
        } else {
            local_lookup(local, global, self.hash)
        }
    }

    /// The key of the handle.
    pub fn hash(&self) -> (key: InternedStringHash)
        ensures
            key == self.key(),
    {
        self.hash
    }
}

/// Two handles are equal exactly when their keys have the same bytes; no
/// table takes part in the comparison.
pub proof fn handle_eq_by_key(a: InternedString, b: InternedString)
    ensures
        a == b <==> a.key()@ == b.key()@,
{
    if a.key()@ == b.key()@ {
        a.key().eq_by_bytes(b.key());
    }
}

/// Interning is idempotent: two handles made from the same text, at any time
/// and in any context, are equal.
pub proof fn same_text_same_handle(a: InternedString, b: InternedString, text: Seq<char>)
    requires
        a.key()@ == encode(text),
        b.key()@ == encode(text),
    ensures
        a == b,
{
    handle_eq_by_key(a, b);
}

/// A text shorter than eight bytes is interned without touching either tier
/// and resolves to itself whatever the tiers hold.
pub proof fn short_text_needs_no_table(
    text: Seq<char>,
    local: Map<u64, Seq<char>>,
    global: Map<u64, Seq<char>>,
)
    requires
        encode_utf8(text).len() < 8,
    ensures
        !needs_table(text),
        local_after_from_str(local, global, text) == local,
        global_after_from_str(local, global, text) == global,
        resolved_text(encode(text), local, global) == Some(text),
        local_after_resolve(encode(text), local, global) == local,
{
    encode_marks_variant(text);
    encode_short_roundtrip(text);
}

/// A text of eight bytes or more, interned in a context that finds no other
/// text under its key, resolves to itself there; interning it again in the
/// same context, borrowed or owned, changes neither tier, so the shared
/// table keeps its size.
pub proof fn long_text_is_stored_once(
    text: Seq<char>,
    local: Map<u64, Seq<char>>,
    global: Map<u64, Seq<char>>,
)
    requires
        encode_utf8(text).len() >= 8,
        !two_tier_conflicts(local, global, key_value(text), text),
    ensures
        needs_table(text),
        ({
            let local_1 = local_after_from_str(local, global, text);
            let global_1 = global_after_from_str(local, global, text);
            &&& resolved_text(encode(text), local_1, global_1) == Some(text)
            &&& local_after_from_str(local_1, global_1, text) == local_1
            &&& global_after_from_str(local_1, global_1, text) == global_1
            &&& local_1.insert(key_value(text), text) == local_1
            &&& global_after_intern(local_1, global_1, key_value(text), text) == global_1
        }),
{
    encode_marks_variant(text);
    let k = key_value(text);
    let local_1 = local_after_from_str(local, global, text);
    let global_1 = global_after_from_str(local, global, text);
    assert(local_1 =~= local.insert(k, text));
    assert(local_after_from_str(local_1, global_1, text) =~= local_1);
    assert(local_1.insert(k, text) =~= local_1);
}

/// A text of eight bytes or more that one context has interned is found by
/// every other context through the shared table, and the lookup fills that
/// context's cache. A context that interns the same text afterwards adds
/// nothing to the shared table, which holds one entry for the key. The
/// caches hold only entries of the shared table, before and after, and the
/// shared table holds no other text under the key.
pub proof fn interned_text_is_shared(
    text: Seq<char>,
    local_a: Map<u64, Seq<char>>,
    local_b: Map<u64, Seq<char>>,
    global: Map<u64, Seq<char>>,
)
    requires
        encode_utf8(text).len() >= 8,
        cache_coherent(local_a, global),
        cache_coherent(local_b, global),
        !conflicts(global, key_value(text), text),
    ensures
        ({
            let global_1 = global_after_from_str(local_a, global, text);
            &&& global_1.dom() == global.dom().insert(key_value(text))
            &&& global_1[key_value(text)] == text
            &&& resolved_text(encode(text), local_b, global_1) == Some(text)
            &&& local_after_resolve(encode(text), local_b, global_1) == local_b.insert(
                key_value(text),
                text,
            )
            &&& cache_coherent(local_after_from_str(local_a, global, text), global_1)
            &&& cache_coherent(local_b.insert(key_value(text), text), global_1)
            &&& global_after_from_str(local_b, global_1, text) == global_1
            &&& local_after_from_str(local_b, global_1, text) == local_b.insert(
                key_value(text),
                text,
            )
        }),
{
    encode_marks_variant(text);
    let k = key_value(text);
    let global_1 = global_after_from_str(local_a, global, text);
    assert(global_1 =~= global.insert(k, text));
    assert(global_1.dom() =~= global.dom().insert(k));
    assert(local_after_from_str(local_a, global, text) =~= local_a.insert(k, text));
}

/// After a local teardown a context finds under any key exactly what the
/// shared table holds there, and resolving a handle whose text is stored
/// refills the cache with that text; once the shared table is torn down as
/// well, nothing is found and the shared table has no entry.
pub proof fn lookup_after_teardown(key: Seq<u8>, global: Map<u64, Seq<char>>)
    requires
        !is_inlined_key(key),
    ensures
        two_tier_get(empty_table(), global, be_value(key)) == global.get(be_value(key)),
        resolved_text(key, empty_table(), global) == global.get(be_value(key)),
        global.contains_key(be_value(key)) ==> local_after_resolve(key, empty_table(), global)
            == empty_table().insert(be_value(key), global[be_value(key)]),
        resolved_text(key, empty_table(), empty_table()) is None,
        local_after_resolve(key, empty_table(), empty_table()) == empty_table(),
        empty_table().len() == 0,
{
}

} // verus!
