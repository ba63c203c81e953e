//! Equality and order of keys and handles. Both go by the bytes of the key
//! alone, which is to go by its big-endian value; no table takes part.

use crate::hash::{be_value, InternedStringHash};
use crate::InternedString;
use std::cmp::Ordering;
use vstd::prelude::*;
use vstd::std_specs::cmp::{PartialEqSpec, PartialOrdSpec};

verus! {

/// Lexicographic order of byte strings of one length: the first place where
/// they differ decides.
pub open spec fn bytes_precede(a: Seq<u8>, b: Seq<u8>) -> bool
    decreases a.len(),
{
    if a.len() == 0 || b.len() == 0 {
        false
    } else if a[0] != b[0] {
        a[0] < b[0]
    } else {
        bytes_precede(a.drop_first(), b.drop_first())
    }
}

impl PartialEq for InternedStringHash {
    fn eq(&self, other: &Self) -> (same: bool) {
        self.hash() == other.hash()
    }
}

impl vstd::std_specs::cmp::PartialEqSpecImpl for InternedStringHash {
    open spec fn obeys_eq_spec() -> bool {
        true
    }

    open spec fn eq_spec(&self, other: &Self) -> bool {
        self.value() == other.value()
    }
}

impl PartialEq for InternedString {
    fn eq(&self, other: &Self) -> (same: bool) {
        self.hash().hash() == other.hash().hash()
    }
}

impl vstd::std_specs::cmp::PartialEqSpecImpl for InternedString {
    open spec fn obeys_eq_spec() -> bool {
        true
    }

    open spec fn eq_spec(&self, other: &Self) -> bool {
        self.key().value() == other.key().value()
    }
}

impl PartialOrd for InternedStringHash {
    fn partial_cmp(&self, other: &Self) -> (order: Option<Ordering>) {
        let mine: u64 = self.hash();
        let theirs: u64 = other.hash();
        if mine < theirs {
            Some(Ordering::Less)
        } else if mine == theirs {
            Some(Ordering::Equal)
        } else {
            Some(Ordering::Greater)
        }
    }
}

impl vstd::std_specs::cmp::PartialOrdSpecImpl for InternedStringHash {
    open spec fn obeys_partial_cmp_spec() -> bool {
        true
    }

    open spec fn partial_cmp_spec(&self, other: &Self) -> Option<Ordering> {
        if self.value() < other.value() {
            Some(Ordering::Less)
        } else if self.value() == other.value() {
            Some(Ordering::Equal)
        } else {
            Some(Ordering::Greater)
        }
    }
}

/// Eight-byte strings are in lexicographic order exactly when their
/// big-endian values are in numeric order.
pub proof fn value_order_is_byte_order(a: Seq<u8>, b: Seq<u8>)
    requires
        a.len() == 8,
        b.len() == 8,
    ensures
        be_value(a) < be_value(b) <==> bytes_precede(a, b),
{
    let (a0, a1, a2, a3, a4, a5, a6, a7) = (a[0], a[1], a[2], a[3], a[4], a[5], a[6], a[7]);
    let (b0, b1, b2, b3, b4, b5, b6, b7) = (b[0], b[1], b[2], b[3], b[4], b[5], b[6], b[7]);
    let by_bytes = a0 < b0 || (a0 == b0 && (a1 < b1 || (a1 == b1 && (a2 < b2 || (a2 == b2 && (a3
        < b3 || (a3 == b3 && (a4 < b4 || (a4 == b4 && (a5 < b5 || (a5 == b5 && (a6 < b6 || (a6
        == b6 && a7 < b7)))))))))))));
    assert((((a0 as u64) << 56) | ((a1 as u64) << 48) | ((a2 as u64) << 40) | ((a3 as u64) << 32)
        | ((a4 as u64) << 24) | ((a5 as u64) << 16) | ((a6 as u64) << 8) | (a7 as u64)) < (((
    b0 as u64) << 56) | ((b1 as u64) << 48) | ((b2 as u64) << 40) | ((b3 as u64) << 32) | ((
    b4 as u64) << 24) | ((b5 as u64) << 16) | ((b6 as u64) << 8) | (b7 as u64)) <==> (a0 < b0
        || (a0 == b0 && (a1 < b1 || (a1 == b1 && (a2 < b2 || (a2 == b2 && (a3 < b3 || (a3 == b3
        && (a4 < b4 || (a4 == b4 && (a5 < b5 || (a5 == b5 && (a6 < b6 || (a6 == b6 && a7
        < b7))))))))))))))) by (bit_vector);
    assert(bytes_precede(a, b) == by_bytes) by {
        lex_unfold(a, b);
        lex_unfold(a.drop_first(), b.drop_first());
        lex_unfold(a.subrange(2, 8), b.subrange(2, 8));
        lex_unfold(a.subrange(3, 8), b.subrange(3, 8));
        lex_unfold(a.subrange(4, 8), b.subrange(4, 8));
        lex_unfold(a.subrange(5, 8), b.subrange(5, 8));
        lex_unfold(a.subrange(6, 8), b.subrange(6, 8));
        lex_unfold(a.subrange(7, 8), b.subrange(7, 8));
        assert(a.drop_first() =~= a.subrange(1, 8));
        assert(b.drop_first() =~= b.subrange(1, 8));
        assert(a.subrange(1, 8).drop_first() =~= a.subrange(2, 8));
        assert(b.subrange(1, 8).drop_first() =~= b.subrange(2, 8));
        assert(a.subrange(2, 8).drop_first() =~= a.subrange(3, 8));
        assert(b.subrange(2, 8).drop_first() =~= b.subrange(3, 8));
        assert(a.subrange(3, 8).drop_first() =~= a.subrange(4, 8));
        assert(b.subrange(3, 8).drop_first() =~= b.subrange(4, 8));
        assert(a.subrange(4, 8).drop_first() =~= a.subrange(5, 8));
        assert(b.subrange(4, 8).drop_first() =~= b.subrange(5, 8));
        assert(a.subrange(5, 8).drop_first() =~= a.subrange(6, 8));
        assert(b.subrange(5, 8).drop_first() =~= b.subrange(6, 8));
        assert(a.subrange(6, 8).drop_first() =~= a.subrange(7, 8));
        assert(b.subrange(6, 8).drop_first() =~= b.subrange(7, 8));
        assert(a.subrange(7, 8).drop_first().len() == 0);
    }
}

/// One step of the lexicographic order.
proof fn lex_unfold(a: Seq<u8>, b: Seq<u8>)
    requires
        a.len() > 0,
        b.len() > 0,
    ensures
        bytes_precede(a, b) == if a[0] != b[0] {
            a[0] < b[0]
        } else {
            bytes_precede(a.drop_first(), b.drop_first())
        },
        a.drop_first().len() == 0 ==> !bytes_precede(a.drop_first(), b.drop_first()),
{
}

/// Keys compare as their bytes do, first byte first, and are equal exactly
/// when all their bytes are.
pub proof fn keys_compare_by_bytes(a: InternedStringHash, b: InternedStringHash)
    ensures
        a.partial_cmp_spec(&b) == Some(Ordering::Less) <==> bytes_precede(a@, b@),
        a.partial_cmp_spec(&b) == Some(Ordering::Equal) <==> a@ == b@,
        a.eq_spec(&b) <==> a@ == b@,
        a@ == b@ <==> a == b,
{
    a.view_len();
    b.view_len();
    value_order_is_byte_order(a@, b@);
    if a.value() == b.value() {
        crate::hash::value_determines_key(a, b);
    }
}

/// Handles are equal exactly when the bytes of their keys are.
pub proof fn handles_compare_by_key(a: InternedString, b: InternedString)
    ensures
        a.eq_spec(&b) <==> a.key()@ == b.key()@,
        a.key()@ == b.key()@ <==> a == b,
{
    keys_compare_by_bytes(a.key(), b.key());
    crate::handle_eq_by_key(a, b);
}

} // verus!
