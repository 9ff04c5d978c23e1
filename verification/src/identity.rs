//! Participants and the order in which their names sort.
//!
//! A participant is known by a name that was validated before it reached this
//! library. Two participants are the same when their names are equal, letter
//! for letter. Names sort by the length of their UTF-8 encoding first and, at
//! equal length, byte by byte: the order in which a byte-ordered key-value
//! store lists keys whose parts are written with their length in front.

use vstd::prelude::*;
use vstd::utf8::{encode_utf8, encode_utf8_decode_utf8};

verus! {

/// `a` and `b` agree before position `k`, and there `a` holds the smaller
/// byte.
pub open spec fn smaller_at(a: Seq<u8>, b: Seq<u8>, k: int) -> bool {
    &&& 0 <= k < a.len()
    &&& k < b.len()
    &&& forall|j: int| 0 <= j < k ==> a[j] == b[j]
    &&& a[k] < b[k]
}

/// `a` sorts strictly before `b`: it is shorter, or as long and smaller at
/// the first byte in which the two differ.
pub open spec fn bytes_precede(a: Seq<u8>, b: Seq<u8>) -> bool {
    a.len() < b.len() || (a.len() == b.len() && exists|k: int| smaller_at(a, b, k))
}

/// The name `a` sorts strictly before the name `b`.
pub open spec fn name_precedes(a: Seq<char>, b: Seq<char>) -> bool {
    bytes_precede(encode_utf8(a), encode_utf8(b))
}

/// No byte sequence sorts before itself.
pub proof fn lemma_bytes_irreflexive(a: Seq<u8>)
    ensures
        !bytes_precede(a, a),
{
}

/// The order of byte sequences is transitive.
pub proof fn lemma_bytes_transitive(a: Seq<u8>, b: Seq<u8>, c: Seq<u8>)
    requires
        bytes_precede(a, b),
        bytes_precede(b, c),
    ensures
        bytes_precede(a, c),
{
    if a.len() == b.len() && b.len() == c.len() {
        let i = choose|k: int| smaller_at(a, b, k);
        let j = choose|k: int| smaller_at(b, c, k);
        if i <= j {
            assert(smaller_at(a, c, i));
        } else {
            assert(smaller_at(a, c, j));
        }
    }
}

/// Two byte sequences of one length that agree before `k` are equal, or one
/// is smaller than the other at the first byte in which they differ.
proof fn lemma_bytes_total_from(a: Seq<u8>, b: Seq<u8>, k: int)
    requires
        a.len() == b.len(),
        0 <= k <= a.len(),
        forall|j: int| 0 <= j < k ==> a[j] == b[j],
    ensures
        a == b || bytes_precede(a, b) || bytes_precede(b, a),
    decreases a.len() - k,
{
    if k == a.len() {
        assert(a =~= b);
    } else if a[k] < b[k] {
        assert(smaller_at(a, b, k));
    } else if b[k] < a[k] {
        assert(smaller_at(b, a, k));
    } else {
        lemma_bytes_total_from(a, b, k + 1);
    }
}

/// Of two distinct byte sequences one sorts before the other.
pub proof fn lemma_bytes_total(a: Seq<u8>, b: Seq<u8>)
    ensures
        a == b || bytes_precede(a, b) || bytes_precede(b, a),
{
    if a.len() == b.len() {
        lemma_bytes_total_from(a, b, 0);
    }
}

/// No name sorts before itself.
pub proof fn lemma_names_irreflexive(a: Seq<char>)
    ensures
        !name_precedes(a, a),
{
    lemma_bytes_irreflexive(encode_utf8(a));
}

/// The order of names is transitive.
pub proof fn lemma_names_transitive(a: Seq<char>, b: Seq<char>, c: Seq<char>)
    requires
        name_precedes(a, b),
        name_precedes(b, c),
    ensures
        name_precedes(a, c),
{
    lemma_bytes_transitive(encode_utf8(a), encode_utf8(b), encode_utf8(c));
}

/// Of two distinct names one sorts before the other.
pub proof fn lemma_names_total(a: Seq<char>, b: Seq<char>)
    ensures
        a == b || name_precedes(a, b) || name_precedes(b, a),
{
    lemma_bytes_total(encode_utf8(a), encode_utf8(b));
    if encode_utf8(a) == encode_utf8(b) {
        encode_utf8_decode_utf8(a);
        encode_utf8_decode_utf8(b);
    }
}

/// A participant, known by a validated name.
#[derive(Debug, PartialEq, Eq)]
pub struct Identity {
    name: String,
}

impl View for Identity {
    type V = Seq<char>;

    closed spec fn view(&self) -> Seq<char> {
        self.name@
    }
}

impl Clone for Identity {
    fn clone(&self) -> (copy: Identity)
        ensures
            copy@ == self@,
    {
        Identity { name: self.name.clone() }
    }
}

impl Identity {
    /// The participant named `name`.
    pub fn new(name: &str) -> (identity: Identity)
        ensures
            identity@ == name@,
    {
        Identity { name: name.to_owned() }
    }

    /// The participant's name.
    pub fn as_str(&self) -> (name: &str)
        ensures
            name@ == self@,
    {
        self.name.as_str()
    }

    /// Whether both are the same participant.
    pub fn same_as(&self, other: &Identity) -> (same: bool)
        ensures
            same == (self@ == other@),
    {
        self.name == other.name
    }

    /// Whether this participant's name sorts strictly before `other`'s.
    pub fn precedes(&self, other: &Identity) -> (before: bool)
        ensures
            before == name_precedes(self@, other@),
    {
        let a = self.name.as_str().as_bytes();
        let b = other.name.as_str().as_bytes();
        if a.len() != b.len() {
            return a.len() < b.len();
        }
        let mut i: usize = 0;
        while i < a.len()
            invariant
                i <= a.len(),
                a.len() == b.len(),
                a@ == encode_utf8(self@),
                b@ == encode_utf8(other@),
                forall|j: int| 0 <= j < i ==> a@[j] == b@[j],
            decreases a.len() - i,
        {
            if a[i] != b[i] {
                let before = a[i] < b[i];
                proof {
                    if before {
                        assert(smaller_at(a@, b@, i as int));
                    } else {
                        // Any other position lies behind this difference.
                        assert forall|k: int| !smaller_at(a@, b@, k) by {}
                    }
                }
                return before;
            }
            i += 1;
        }
        assert forall|k: int| !smaller_at(a@, b@, k) by {}
        false
    }
}

} // verus!
