//! The total order in which image paths are kept.
//!
//! Paths are compared as exact strings. Their order is the lexicographic
//! order of the bytes of their UTF-8 encoding, which is the order of `str`.

use vstd::prelude::*;
use vstd::utf8::*;

verus! {

/// The result of comparing two strings.
#[derive(Clone, Copy, Debug, PartialEq, Eq, Structural)]
pub enum Rank {
    /// The first string sorts strictly before the second.
    Before,
    /// Both strings are the same.
    Same,
    /// The first string sorts strictly after the second.
    After,
}

/// The first `k` bytes of `a` and `b` exist and are the same.
pub open spec fn agree_upto(a: Seq<u8>, b: Seq<u8>, k: int) -> bool {
    &&& 0 <= k <= a.len()
    &&& k <= b.len()
    &&& forall|i: int| 0 <= i < k ==> a[i] == b[i]
}

/// `a` sorts strictly before `b`: after a common prefix, either `a` ends
/// first or `a` holds the smaller byte.
pub open spec fn bytes_before(a: Seq<u8>, b: Seq<u8>) -> bool {
    exists|k: int|
        #[trigger] agree_upto(a, b, k) && k < b.len() && (k == a.len() || a[k] < b[k])
}

/// `a` sorts strictly before `b` as a path.
pub open spec fn text_before(a: Seq<char>, b: Seq<char>) -> bool {
    bytes_before(encode_utf8(a), encode_utf8(b))
}

/// Nothing sorts before itself.
pub proof fn lemma_bytes_before_irreflexive(a: Seq<u8>)
    ensures
        !bytes_before(a, a),
{
}

/// The order is transitive.
pub proof fn lemma_bytes_before_transitive(a: Seq<u8>, b: Seq<u8>, c: Seq<u8>)
    requires
        bytes_before(a, b),
        bytes_before(b, c),
    ensures
        bytes_before(a, c),
{
    let k1 = choose|k: int|
        #[trigger] agree_upto(a, b, k) && k < b.len() && (k == a.len() || a[k] < b[k]);
    let k2 = choose|k: int|
        #[trigger] agree_upto(b, c, k) && k < c.len() && (k == b.len() || b[k] < c[k]);
    let k = if k1 <= k2 {
        k1
    } else {
        k2
    };
    assert(agree_upto(a, c, k));
}

/// Two byte strings that agree on their first `k` bytes are ordered one way
/// or the other, or are the same.
proof fn lemma_bytes_total_from(a: Seq<u8>, b: Seq<u8>, k: int)
    requires
        agree_upto(a, b, k),
    ensures
        bytes_before(a, b) || a == b || bytes_before(b, a),
    decreases a.len() - k,
{
    if k == a.len() {
        if k == b.len() {
            assert(a =~= b);
        } else {
            assert(agree_upto(a, b, k));
        }
    } else if k == b.len() {
        assert(agree_upto(b, a, k));
    } else if a[k] < b[k] {
        assert(agree_upto(a, b, k));
    } else if b[k] < a[k] {
        assert(agree_upto(b, a, k));
    } else {
        assert(agree_upto(a, b, k + 1));
        lemma_bytes_total_from(a, b, k + 1);
    }
}

/// The order is total.
pub proof fn lemma_bytes_before_total(a: Seq<u8>, b: Seq<u8>)
    ensures
        bytes_before(a, b) || a == b || bytes_before(b, a),
{
    assert(agree_upto(a, b, 0));
    lemma_bytes_total_from(a, b, 0);
}

/// Nothing sorts before itself.
pub proof fn lemma_text_before_irreflexive(a: Seq<char>)
    ensures
        !text_before(a, a),
{
    lemma_bytes_before_irreflexive(encode_utf8(a));
}

/// The order on paths is transitive.
pub proof fn lemma_text_before_transitive(a: Seq<char>, b: Seq<char>, c: Seq<char>)
    requires
        text_before(a, b),
        text_before(b, c),
    ensures
        text_before(a, c),
{
    lemma_bytes_before_transitive(encode_utf8(a), encode_utf8(b), encode_utf8(c));
}

/// No two paths sort before each other.
pub proof fn lemma_text_before_asymmetric(a: Seq<char>, b: Seq<char>)
    requires
        text_before(a, b),
    ensures
        !text_before(b, a),
{
    if text_before(b, a) {
        lemma_text_before_transitive(a, b, a);
        lemma_text_before_irreflexive(a);
    }
}

/// Two strings with the same encoding are the same string.
pub proof fn lemma_same_bytes_same_text(a: Seq<char>, b: Seq<char>)
    requires
        encode_utf8(a) == encode_utf8(b),
    ensures
        a == b,
{
    encode_utf8_decode_utf8(a);
    encode_utf8_decode_utf8(b);
}

/// The order on paths is total.
pub proof fn lemma_text_before_total(a: Seq<char>, b: Seq<char>)
    ensures
        text_before(a, b) || a == b || text_before(b, a),
{
    lemma_bytes_before_total(encode_utf8(a), encode_utf8(b));
    if encode_utf8(a) == encode_utf8(b) {
        lemma_same_bytes_same_text(a, b);
    }
}

/// What `compare` returns for `a` and `b`.
pub open spec fn spec_compare(a: Seq<char>, b: Seq<char>) -> Rank {
    if a == b {
        Rank::Same
    } else if text_before(a, b) {
        Rank::Before
    } else {
        Rank::After
    }
}

/// Compares two strings byte by byte.
pub fn compare(a: &str, b: &str) -> (rank: Rank)
    ensures
        rank == spec_compare(a@, b@),
        rank == Rank::Before <==> text_before(a@, b@),
        rank == Rank::Same <==> a@ == b@,
        rank == Rank::After <==> text_before(b@, a@),
{
    let x = a.as_bytes();
    let y = b.as_bytes();
    let n: usize = x.len();
    let m: usize = y.len();
    let mut i: usize = 0;
    while i < n && i < m
        invariant
            n == x@.len(),
            m == y@.len(),
            x@ == encode_utf8(a@),
            y@ == encode_utf8(b@),
            agree_upto(x@, y@, i as int),
        decreases n - i,
    {
        if x[i] < y[i] {
            proof {
                lemma_text_before_asymmetric(a@, b@);
                lemma_text_before_irreflexive(a@);
            }
            return Rank::Before;
        }
        if y[i] < x[i] {
            proof {
                assert(agree_upto(y@, x@, i as int));
                lemma_text_before_asymmetric(b@, a@);
                lemma_text_before_irreflexive(a@);
            }
            return Rank::After;
        }
        i = i + 1;
    }
    if n < m {
        proof {
            lemma_text_before_asymmetric(a@, b@);
            lemma_text_before_irreflexive(a@);
        }
        Rank::Before
    } else if m < n {
        proof {
            assert(agree_upto(y@, x@, i as int));
            lemma_text_before_asymmetric(b@, a@);
            lemma_text_before_irreflexive(a@);
        }
        Rank::After
    } else {
        proof {
            assert(x@ =~= y@);
            lemma_same_bytes_same_text(a@, b@);
            lemma_text_before_irreflexive(a@);
        }
        Rank::Same
    }
}

} // verus!
