//! SHA-256 digests and the canonical pairing of two digests.

use vstd::prelude::*;

verus! {

/// The digest that `solana_program::hash::hashv` returns for the byte
/// strings `vals`, hashed one after the other.
pub uninterp spec fn spec_hashv(vals: Seq<Seq<u8>>) -> Seq<u8>;

/// The contents of a list of byte slices.
pub open spec fn slices_view(vals: Seq<&[u8]>) -> Seq<Seq<u8>> {
    Seq::new(vals.len(), |i: int| vals[i]@)
}

/// Calls `solana_program::hash::hashv`, which feeds the slices in order to
/// one SHA-256 hasher and returns its digest; `solana-program` builds the
/// hasher in, so the call returns for every input. The digest is not
/// computed by verified code: it is only named, as `spec_hashv` of the
/// slices' contents.
#[verifier::external_body]
pub(crate) fn hashv(vals: &[&[u8]]) -> (digest: [u8; 32])
    ensures
        digest@ == spec_hashv(slices_view(vals@)),
{
    solana_program::hash::hashv(vals).to_bytes()
}

/// Calls `solana_program::hash::hash`, which is `hashv` on the one-element
/// list holding `val`: the contract says no more than that.
#[verifier::external_body]
pub(crate) fn hash(val: &[u8]) -> (digest: [u8; 32])
    ensures
        digest@ == spec_hashv(seq![val@]),
{
    solana_program::hash::hash(val).to_bytes()
}

/// Lexicographic (big-endian) order on byte strings: the first differing
/// byte decides, and a proper prefix is smaller.
pub open spec fn lex_le(a: Seq<u8>, b: Seq<u8>) -> bool
    decreases a.len(),
{
    if a.len() == 0 {
        true
    } else if b.len() == 0 {
        false
    } else if a[0] != b[0] {
        a[0] < b[0]
    } else {
        lex_le(a.drop_first(), b.drop_first())
    }
}

/// The digest of a leaf value.
pub open spec fn leaf_hash(leaf: Seq<u8>) -> Seq<u8> {
    spec_hashv(seq![leaf])
}

/// The pairing of two digests: the digest of the smaller followed by the
/// larger.
pub open spec fn combine(a: Seq<u8>, b: Seq<u8>) -> Seq<u8> {
    if lex_le(a, b) {
        spec_hashv(seq![a, b])
    } else {
        spec_hashv(seq![b, a])
    }
}

/// Any two byte strings are ordered one way or the other.
pub proof fn lemma_lex_le_total(a: Seq<u8>, b: Seq<u8>)
    ensures
        lex_le(a, b) || lex_le(b, a),
    decreases a.len(),
{
    if a.len() > 0 && b.len() > 0 && a[0] == b[0] {
        lemma_lex_le_total(a.drop_first(), b.drop_first());
    }
}

/// Two byte strings that are ordered both ways are equal.
pub proof fn lemma_lex_le_antisymmetric(a: Seq<u8>, b: Seq<u8>)
    requires
        lex_le(a, b),
        lex_le(b, a),
    ensures
        a == b,
    decreases a.len(),
{
    if a.len() > 0 {
        lemma_lex_le_antisymmetric(a.drop_first(), b.drop_first());
        assert(a =~= seq![a[0]] + a.drop_first());
        assert(b =~= seq![b[0]] + b.drop_first());
    }
}

/// The pairing does not depend on the order of its arguments.
pub proof fn lemma_combine_commutes(a: Seq<u8>, b: Seq<u8>)
    ensures
        combine(a, b) == combine(b, a),
{
    lemma_lex_le_total(a, b);
    if lex_le(a, b) && lex_le(b, a) {
        lemma_lex_le_antisymmetric(a, b);
    }
}

/// Whether `a` comes before or equals `b` in lexicographic order.
pub fn hash_le(a: &[u8; 32], b: &[u8; 32]) -> (r: bool)
    ensures
        r == lex_le(a@, b@),
{
    let mut i: usize = 0;
    assert(a@.skip(0) =~= a@ && b@.skip(0) =~= b@);
    while i < 32
        invariant
            i <= 32,
            lex_le(a@, b@) == lex_le(a@.skip(i as int), b@.skip(i as int)),
        decreases 32 - i,
    {
        assert(a@.skip(i as int).drop_first() =~= a@.skip(i + 1));
        assert(b@.skip(i as int).drop_first() =~= b@.skip(i + 1));
        if a[i] != b[i] {
            return a[i] < b[i];
        }
        i += 1;
    }
    true
}

/// Whether two digests hold the same bytes.
pub fn hash_eq(a: &[u8; 32], b: &[u8; 32]) -> (r: bool)
    ensures
        r == (a@ == b@),
{
    let mut i: usize = 0;
    while i < 32
        invariant
            i <= 32,
            forall|j: int| 0 <= j < i ==> a@[j] == b@[j],
        decreases 32 - i,
    {
        if a[i] != b[i] {
            return false;
        }
        i += 1;
    }
    assert(a@ =~= b@);
    true
}

/// Returns the hash of left and right, sorted and concatenated, so that a
/// proof needs the sibling values only and not their sides.
pub fn hash_left_right(left: [u8; 32], right: [u8; 32]) -> (parent: [u8; 32])
    ensures
        parent@ == combine(left@, right@),
{
    if hash_le(&left, &right) {
        let pair: [&[u8]; 2] = [left.as_slice(), right.as_slice()];
        let vals: &[&[u8]] = pair.as_slice();
        assert(slices_view(vals@) =~= seq![left@, right@]);
        hashv(vals)
    } else {
        let pair: [&[u8]; 2] = [right.as_slice(), left.as_slice()];
        let vals: &[&[u8]] = pair.as_slice();
        assert(slices_view(vals@) =~= seq![right@, left@]);
        hashv(vals)
    }
}

/// The digest of a leaf value, which sets leaves apart from inner nodes.
pub fn hash_leaf(leaf: &[u8; 32]) -> (digest: [u8; 32])
    ensures
        digest@ == leaf_hash(leaf@),
{
    hash(leaf.as_slice())
}

} // verus!
