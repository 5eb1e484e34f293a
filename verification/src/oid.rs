//! Object identifiers.

use vstd::prelude::*;

verus! {

/// Number of bytes in an object identifier.
pub const OID_LEN: usize = 20;

/// Identifier of a commit, tree or blob: twenty raw bytes.
///
/// Identifiers are ordered byte by byte, the first byte being the most
/// significant.
#[derive(Clone, Copy, Debug, PartialEq, Eq, PartialOrd, Ord, Hash)]
pub struct Oid {
    bytes: [u8; 20],
}

impl View for Oid {
    type V = Seq<u8>;

    closed spec fn view(&self) -> Seq<u8> {
        self.bytes@
    }
}

impl Oid {
    /// Two identifiers with the same bytes are the same identifier.
    pub proof fn lemma_view_injective(a: Oid, b: Oid)
        ensures
            a@.len() == OID_LEN,
            (a@ == b@) <==> (a == b),
    {
        if a@ == b@ {
            assert forall|i: int| 0 <= i < 20 implies a.bytes[i] == b.bytes[i] by {
                assert(a.bytes@[i] == b.bytes@[i]);
            }
            assert(a.bytes =~= b.bytes);
        }
    }

    /// Builds an identifier from its bytes.
    pub fn from_bytes(bytes: [u8; 20]) -> (id: Oid)
        ensures
            id@ == bytes@,
    {
        Oid { bytes }
    }

    /// The bytes of the identifier.
    pub fn as_bytes(&self) -> (bytes: &[u8; 20])
        ensures
            bytes@ == self@,
    {
        &self.bytes
    }

    /// The identifier whose bytes are all zero.
    pub fn zero() -> (id: Oid)
        ensures
            id@ == Seq::new(OID_LEN as nat, |i: int| 0u8),
    {
        let id = Oid { bytes: [0u8; 20] };
        assert(id@ =~= Seq::new(OID_LEN as nat, |i: int| 0u8));
        id
    }

    /// Whether every byte is zero.
    pub fn is_zero(&self) -> (zero: bool)
        ensures
            zero == (self@ == Seq::new(OID_LEN as nat, |i: int| 0u8)),
    {
        let mut i: usize = 0;
        while i < 20
            invariant
                i <= 20,
                forall|j: int| 0 <= j < i ==> self.bytes@[j] == 0u8,
            decreases 20 - i,
        {
            if self.bytes[i] != 0 {
                assert(self@[i as int] != Seq::new(OID_LEN as nat, |k: int| 0u8)[i as int]);
                return false;
            }
            i += 1;
        }
        assert(self@ =~= Seq::new(OID_LEN as nat, |i: int| 0u8));
        true
    }

    /// Whether two identifiers are equal.
    pub fn same(&self, other: &Oid) -> (equal: bool)
        ensures
            equal == (*self == *other),
    {
        let mut i: usize = 0;
        while i < 20
            invariant
                i <= 20,
                forall|j: int| 0 <= j < i ==> self.bytes@[j] == other.bytes@[j],
            decreases 20 - i,
        {
            if self.bytes[i] != other.bytes[i] {
                assert(self.bytes@[i as int] != other.bytes@[i as int]);
                return false;
            }
            i += 1;
        }
        proof {
            assert(self@ =~= other@);
            Oid::lemma_view_injective(*self, *other);
        }
        true
    }
}


/// Whether `a` comes before `b` in the order of identifiers: at the first
/// byte in which they differ, `a` has the smaller one.
pub open spec fn bytes_before(a: Seq<u8>, b: Seq<u8>) -> bool {
    exists|k: int|
        0 <= k < a.len() && k < b.len() && a.subrange(0, k) == b.subrange(0, k) && (#[trigger] a[k])
            < b[k]
}

impl Oid {
    /// Whether this identifier comes before the other.
    pub open spec fn before(self, other: Oid) -> bool {
        bytes_before(self@, other@)
    }

    /// Whether this identifier comes before the other.
    pub fn precedes(&self, other: &Oid) -> (before: bool)
        ensures
            before == self.before(*other),
    {
        let mut i: usize = 0;
        while i < 20
            invariant
                i <= 20,
                self.bytes@.subrange(0, i as int) == other.bytes@.subrange(0, i as int),
            decreases 20 - i,
        {
            if self.bytes[i] != other.bytes[i] {
                proof {
                    Oid::lemma_first_difference_decides(*self, *other, i as int);
                }
                return self.bytes[i] < other.bytes[i];
            }
            assert(self.bytes@.subrange(0, i + 1) =~= self.bytes@.subrange(0, i as int).push(
                self.bytes@[i as int],
            ));
            assert(other.bytes@.subrange(0, i + 1) =~= other.bytes@.subrange(0, i as int).push(
                other.bytes@[i as int],
            ));
            i += 1;
        }
        proof {
            assert(self@ =~= self@.subrange(0, 20));
            assert(other@ =~= other@.subrange(0, 20));
            Oid::lemma_order_irreflexive(*self);
        }
        false
    }

    /// Where two identifiers first differ, the smaller byte decides which
    /// comes first.
    pub proof fn lemma_first_difference_decides(a: Oid, b: Oid, at: int)
        requires
            0 <= at < OID_LEN,
            a@.subrange(0, at) == b@.subrange(0, at),
            a@[at] != b@[at],
        ensures
            a.before(b) == (a@[at] < b@[at]),
            b.before(a) == (b@[at] < a@[at]),
    {
        assert forall|k: int| 0 <= k < OID_LEN && a@.subrange(0, k) == b@.subrange(0, k) implies k
            <= at by {
            if k > at {
                assert(a@.subrange(0, k)[at] == a@[at]);
                assert(b@.subrange(0, k)[at] == b@[at]);
            }
        }
        assert forall|k: int| 0 <= k < at implies a@[k] == b@[k] by {
            assert(a@.subrange(0, at)[k] == a@[k]);
            assert(b@.subrange(0, at)[k] == b@[k]);
        }
        if a@[at] < b@[at] {
            assert(bytes_before(a@, b@));
        }
        if b@[at] < a@[at] {
            assert(bytes_before(b@, a@));
        }
    }

    /// No identifier comes before itself.
    pub proof fn lemma_order_irreflexive(a: Oid)
        ensures
            !a.before(a),
    {
    }

    /// Of two different identifiers exactly one comes before the other.
    pub proof fn lemma_order_total(a: Oid, b: Oid)
        ensures
            a == b || a.before(b) || b.before(a),
            !(a.before(b) && b.before(a)),
    {
        Oid::lemma_view_injective(a, b);
        Oid::lemma_view_injective(b, a);
        assert(a@.subrange(0, 0) =~= b@.subrange(0, 0));
        Oid::lemma_scan(a, b, 0);
    }

    /// Two identifiers that agree before `from` are equal, or differ at a
    /// first byte which decides their order.
    proof fn lemma_scan(a: Oid, b: Oid, from: int)
        requires
            0 <= from <= OID_LEN,
            a@.len() == OID_LEN,
            b@.len() == OID_LEN,
            a@.subrange(0, from) == b@.subrange(0, from),
        ensures
            a@ == b@ || a.before(b) || b.before(a),
            !(a.before(b) && b.before(a)),
        decreases OID_LEN - from,
    {
        if from == OID_LEN {
            assert(a@ =~= a@.subrange(0, 20));
            assert(b@ =~= b@.subrange(0, 20));
        } else if a@[from] != b@[from] {
            Oid::lemma_first_difference_decides(a, b, from);
        } else {
            assert(a@.subrange(0, from + 1) =~= a@.subrange(0, from).push(a@[from]));
            assert(b@.subrange(0, from + 1) =~= b@.subrange(0, from).push(b@[from]));
            Oid::lemma_scan(a, b, from + 1);
        }
    }

    /// The order of identifiers is transitive.
    pub proof fn lemma_order_transitive(a: Oid, b: Oid, c: Oid)
        requires
            a.before(b),
            b.before(c),
        ensures
            a.before(c),
    {
        let i = choose|k: int|
            0 <= k < a@.len() && k < b@.len() && a@.subrange(0, k) == b@.subrange(0, k)
                && (#[trigger] a@[k]) < b@[k];
        let j = choose|k: int|
            0 <= k < b@.len() && k < c@.len() && b@.subrange(0, k) == c@.subrange(0, k)
                && (#[trigger] b@[k]) < c@[k];
        let k = if i <= j {
            i
        } else {
            j
        };
        assert forall|m: int| 0 <= m < k implies a@[m] == c@[m] by {
            assert(a@.subrange(0, i)[m] == a@[m]);
            assert(b@.subrange(0, i)[m] == b@[m]);
            assert(b@.subrange(0, j)[m] == b@[m]);
            assert(c@.subrange(0, j)[m] == c@[m]);
        }
        assert(a@.subrange(0, k) =~= c@.subrange(0, k));
        if i < j {
            assert(b@.subrange(0, j)[i] == b@[i]);
            assert(c@.subrange(0, j)[i] == c@[i]);
        }
        if j < i {
            assert(a@.subrange(0, i)[j] == a@[j]);
            assert(b@.subrange(0, i)[j] == b@[j]);
        }
        assert(a@[k] < c@[k]);
    }
}

} // verus!
