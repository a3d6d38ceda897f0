//! Order-independent checksums over sets of names. A checksum is the
//! bytewise XOR of the 32-byte digests of the names folded into it; XOR is
//! commutative and associative with the all-zero checksum as identity, so
//! per-thread partial checksums can be combined in any order and the result
//! depends only on the multiset of names, never on thread interleaving.
//! That makes the checksum the system's correctness oracle: the multiset of
//! names produced equals the multiset consumed exactly when the combined
//! checksums agree.

use sha2::Digest;
use vstd::prelude::*;

verus! {

/// Number of bytes in a digest, and in every checksum.
pub const DIGEST_LEN: usize = 32;

/// The SHA-256 digest of a string's characters; a pure function of the
/// string, computed by an outside collaborator and never stated here.
pub uninterp spec fn sha256_of(s: Seq<char>) -> Seq<u8>;

/// A digest clipped or zero-padded to exactly `DIGEST_LEN` bytes, so that
/// every digest has the one length the checksum algebra works at. A real
/// SHA-256 digest is already 32 bytes long, so this changes nothing of it.
pub open spec fn normalized(d: Seq<u8>) -> Seq<u8> {
    Seq::new(DIGEST_LEN as nat, |i: int| if i < d.len() {
        d[i]
    } else {
        0u8
    })
}

/// The 32-byte digest of one name.
pub open spec fn digest_of(s: Seq<char>) -> Seq<u8> {
    normalized(sha256_of(s))
}

/// Bytewise XOR: the commutative, associative combining operator.
pub open spec fn combined(a: Seq<u8>, b: Seq<u8>) -> Seq<u8> {
    Seq::new(a.len(), |i: int| a[i] ^ b[i])
}

/// The identity checksum: all zeroes.
pub open spec fn empty_checksum() -> Seq<u8> {
    Seq::new(DIGEST_LEN as nat, |i: int| 0u8)
}

/// The checksum obtained by folding the digests of `names` into the empty
/// checksum, oldest name first.
pub open spec fn checksum_of_names(names: Seq<Seq<char>>) -> Seq<u8>
    decreases names.len(),
{
    if names.len() == 0 {
        empty_checksum()
    } else {
        combined(checksum_of_names(names.drop_last()), digest_of(names.last()))
    }
}

/// The lower-case hex digit for a value below 16.
pub open spec fn hex_digit(n: u8) -> char {
    if n == 0 {
        '0'
    } else if n == 1 {
        '1'
    } else if n == 2 {
        '2'
    } else if n == 3 {
        '3'
    } else if n == 4 {
        '4'
    } else if n == 5 {
        '5'
    } else if n == 6 {
        '6'
    } else if n == 7 {
        '7'
    } else if n == 8 {
        '8'
    } else if n == 9 {
        '9'
    } else if n == 10 {
        'a'
    } else if n == 11 {
        'b'
    } else if n == 12 {
        'c'
    } else if n == 13 {
        'd'
    } else if n == 14 {
        'e'
    } else {
        'f'
    }
}

/// The lower-case hex rendering of a byte string, two digits per byte,
/// high nibble first.
pub open spec fn hex_of(bytes: Seq<u8>) -> Seq<char> {
    Seq::new(bytes.len() * 2, |i: int| if i % 2 == 0 {
        hex_digit(bytes[i / 2] / 16)
    } else {
        hex_digit(bytes[i / 2] % 16)
    })
}

/// Appending one character to a string.
///
/// Relies on String::push of std: it appends the given char to the end.
pub assume_specification[ String::push ](s: &mut String, ch: char)
    ensures
        final(s)@ == old(s)@.push(ch),
;

/// An order-independent accumulator of name digests.
pub struct Checksum {
    bytes: Vec<u8>,
}

impl View for Checksum {
    type V = Seq<u8>;

    closed spec fn view(&self) -> Seq<u8> {
        self.bytes@
    }
}

impl Checksum {
    /// A checksum is always exactly `DIGEST_LEN` bytes.
    pub open spec fn wf(&self) -> bool {
        self@.len() == DIGEST_LEN
    }

    /// The digest of a single name, as a checksum of its own.
    ///
    /// Relies on sha2::Sha256: the digest is a pure function of the input
    /// bytes and is exactly 32 bytes long.
    #[verifier::external_body]
    pub fn with_sha256(name: &str) -> (r: Checksum)
        ensures
            r@ == sha256_of(name@),
            r@ == digest_of(name@),
            r.wf(),
    {
        Checksum { bytes: sha2::Sha256::digest(name.as_bytes()).to_vec() }
    }

    /// Folds `other` into `self` by bytewise XOR.
    pub fn update(&mut self, other: Checksum)
        requires
            old(self).wf(),
            other.wf(),
        ensures
            final(self).wf(),
            final(self)@ == combined(old(self)@, other@),
    {
        let mut i: usize = 0;
        while i < DIGEST_LEN
            invariant
                i <= DIGEST_LEN,
                old(self)@.len() == DIGEST_LEN,
                self@.len() == DIGEST_LEN,
                other.wf(),
                forall|j: int| 0 <= j < i ==> self@[j] == combined(old(self)@, other@)[j],
                forall|j: int| i <= j < DIGEST_LEN ==> self@[j] == old(self)@[j],
            decreases DIGEST_LEN - i,
        {
            let b: u8 = self.bytes[i] ^ other.bytes[i];
            self.bytes[i] = b;
            i += 1;
        }
        proof {
            assert(self@ =~= combined(old(self)@, other@));
        }
    }

    /// How many bytes the checksum holds.
    pub fn len(&self) -> (n: usize)
        ensures
            n == self@.len(),
    {
        self.bytes.len()
    }

    /// Whether two checksums hold the same bytes.
    pub fn equals(&self, other: &Checksum) -> (r: bool)
        ensures
            r == (self@ == other@),
    {
        if self.bytes.len() != other.bytes.len() {
            proof {
                assert(self@ != other@);
            }
            return false;
        }
        let n = self.bytes.len();
        let mut i: usize = 0;
        while i < n
            invariant
                i <= n,
                n == self@.len(),
                n == other@.len(),
                forall|j: int| 0 <= j < i ==> self@[j] == other@[j],
            decreases n - i,
        {
            if self.bytes[i] != other.bytes[i] {
                return false;
            }
            i += 1;
        }
        proof {
            assert(self@ =~= other@);
        }
        true
    }

    /// The stable human-readable rendering: lower-case hex, two digits per
    /// byte.
    pub fn to_hex(&self) -> (r: String)
        ensures
            r@ == hex_of(self@),
    {
        let mut r = String::new();
        let mut i: usize = 0;
        while i < self.bytes.len()
            invariant
                i <= self.bytes@.len(),
                r@ == hex_of(self.bytes@).take(2 * i as int),
            decreases self.bytes@.len() - i,
        {
            let b = self.bytes[i];
            r.push(hex_digit_char(b / 16));
            r.push(hex_digit_char(b % 16));
            proof {
                assert(r@ =~= hex_of(self.bytes@).take(2 * (i + 1)));
            }
            i += 1;
        }
        proof {
            assert(r@ =~= hex_of(self.bytes@));
        }
        r
    }
}

/// The lower-case hex digit for a value below 16.
fn hex_digit_char(n: u8) -> (c: char)
    requires
        n < 16,
    ensures
        c == hex_digit(n),
{
    if n == 0 {
        '0'
    } else if n == 1 {
        '1'
    } else if n == 2 {
        '2'
    } else if n == 3 {
        '3'
    } else if n == 4 {
        '4'
    } else if n == 5 {
        '5'
    } else if n == 6 {
        '6'
    } else if n == 7 {
        '7'
    } else if n == 8 {
        '8'
    } else if n == 9 {
        '9'
    } else if n == 10 {
        'a'
    } else if n == 11 {
        'b'
    } else if n == 12 {
        'c'
    } else if n == 13 {
        'd'
    } else if n == 14 {
        'e'
    } else {
        'f'
    }
}

impl Default for Checksum {
    /// The identity checksum: all zeroes.
    fn default() -> (r: Checksum)
        ensures
            r@ == empty_checksum(),
            r.wf(),
    {
        let mut bytes: Vec<u8> = Vec::new();
        let mut i: usize = 0;
        while i < DIGEST_LEN
            invariant
                i <= DIGEST_LEN,
                bytes@.len() == i,
                forall|j: int| 0 <= j < i ==> bytes@[j] == 0u8,
            decreases DIGEST_LEN - i,
        {
            bytes.push(0u8);
            i += 1;
        }
        proof {
            assert(bytes@ =~= empty_checksum());
        }
        Checksum { bytes }
    }
}

impl Clone for Checksum {
    /// A copy with the same bytes.
    fn clone(&self) -> (r: Checksum)
        ensures
            r@ == self@,
    {
        let mut bytes: Vec<u8> = Vec::new();
        let mut i: usize = 0;
        while i < self.bytes.len()
            invariant
                i <= self.bytes@.len(),
                bytes@ == self.bytes@.take(i as int),
            decreases self.bytes@.len() - i,
        {
            bytes.push(self.bytes[i]);
            proof {
                assert(bytes@ =~= self.bytes@.take(i + 1));
            }
            i += 1;
        }
        proof {
            assert(bytes@ =~= self.bytes@);
        }
        Checksum { bytes }
    }
}

/// Combining is commutative on equal-length operands.
pub proof fn lemma_combined_commutative(a: Seq<u8>, b: Seq<u8>)
    requires
        a.len() == b.len(),
    ensures
        combined(a, b) == combined(b, a),
{
    assert forall|i: int| 0 <= i < a.len() implies combined(a, b)[i] == combined(b, a)[i] by {
        let x = a[i];
        let y = b[i];
        assert(x ^ y == y ^ x) by (bit_vector);
    }
    assert(combined(a, b) =~= combined(b, a));
}

/// Combining is associative on equal-length operands.
pub proof fn lemma_combined_associative(a: Seq<u8>, b: Seq<u8>, c: Seq<u8>)
    requires
        a.len() == b.len(),
        b.len() == c.len(),
    ensures
        combined(combined(a, b), c) == combined(a, combined(b, c)),
{
    assert forall|i: int| 0 <= i < a.len() implies combined(combined(a, b), c)[i] == combined(
        a,
        combined(b, c),
    )[i] by {
        let x = a[i];
        let y = b[i];
        let z = c[i];
        assert((x ^ y) ^ z == x ^ (y ^ z)) by (bit_vector);
    }
    assert(combined(combined(a, b), c) =~= combined(a, combined(b, c)));
}

/// The empty checksum is the identity of combining.
pub proof fn lemma_combined_identity(a: Seq<u8>)
    requires
        a.len() == DIGEST_LEN,
    ensures
        combined(a, empty_checksum()) == a,
        combined(empty_checksum(), a) == a,
{
    assert forall|i: int| 0 <= i < a.len() implies combined(a, empty_checksum())[i] == a[i]
        && combined(empty_checksum(), a)[i] == a[i] by {
        let x = a[i];
        assert(x ^ 0u8 == x) by (bit_vector);
        assert(0u8 ^ x == x) by (bit_vector);
    }
    assert(combined(a, empty_checksum()) =~= a);
    assert(combined(empty_checksum(), a) =~= a);
}

/// Every checksum of names is `DIGEST_LEN` bytes long.
pub proof fn lemma_checksum_of_names_len(names: Seq<Seq<char>>)
    ensures
        checksum_of_names(names).len() == DIGEST_LEN,
    decreases names.len(),
{
    if names.len() > 0 {
        lemma_checksum_of_names_len(names.drop_last());
    }
}

/// Folding the names of `s` and then those of `t` gives the combination of
/// the two partial checksums: per-thread partials combine soundly.
pub proof fn lemma_checksum_of_concat(s: Seq<Seq<char>>, t: Seq<Seq<char>>)
    ensures
        checksum_of_names(s + t) == combined(checksum_of_names(s), checksum_of_names(t)),
    decreases t.len(),
{
    lemma_checksum_of_names_len(s);
    lemma_checksum_of_names_len(t);
    if t.len() == 0 {
        assert(s + t =~= s);
        lemma_combined_identity(checksum_of_names(s));
    } else {
        lemma_checksum_of_concat(s, t.drop_last());
        lemma_checksum_of_names_len(t.drop_last());
        assert((s + t).drop_last() =~= s + t.drop_last());
        assert((s + t).last() == t.last());
        lemma_combined_associative(
            checksum_of_names(s),
            checksum_of_names(t.drop_last()),
            digest_of(t.last()),
        );
    }
}

/// Removing the name at `j` and folding it back in last changes nothing:
/// the fold can take any one name out of order.
proof fn lemma_checksum_extract(s: Seq<Seq<char>>, j: int)
    requires
        0 <= j < s.len(),
    ensures
        checksum_of_names(s) == combined(checksum_of_names(s.remove(j)), digest_of(s[j])),
    decreases s.len(),
{
    if j == s.len() - 1 {
        assert(s.remove(j) =~= s.drop_last());
    } else {
        let shorter = s.drop_last();
        lemma_checksum_extract(shorter, j);
        assert(shorter.remove(j) =~= s.remove(j).drop_last());
        assert(s.remove(j).last() == s.last());
        let rest = s.remove(j).drop_last();
        lemma_checksum_of_names_len(rest);
        lemma_combined_associative(
            checksum_of_names(rest),
            digest_of(s[j]),
            digest_of(s.last()),
        );
        lemma_combined_commutative(digest_of(s[j]), digest_of(s.last()));
        lemma_combined_associative(
            checksum_of_names(rest),
            digest_of(s.last()),
            digest_of(s[j]),
        );
    }
}

/// Exactly-once oracle: the checksum depends only on the multiset of names
/// folded in, never on the order. Two sides that fold the same names in any
/// interleaving — producers on one side, consumers on the other — reach the
/// same checksum.
pub proof fn lemma_checksum_permutation(s1: Seq<Seq<char>>, s2: Seq<Seq<char>>)
    requires
        s1.to_multiset() == s2.to_multiset(),
    ensures
        checksum_of_names(s1) == checksum_of_names(s2),
    decreases s1.len(),
{
    broadcast use vstd::seq_lib::group_to_multiset_ensures;

    s1.to_multiset_ensures();
    s2.to_multiset_ensures();
    if s1.len() == 0 {
        assert(s2.len() == 0);
    } else {
        let x = s1.last();
        assert(s1.to_multiset().count(x) > 0);
        assert(s2.contains(x));
        let j = choose|j: int| 0 <= j < s2.len() && s2[j] == x;
        assert(s1.remove(s1.len() - 1) =~= s1.drop_last());
        assert(s1.drop_last().to_multiset() == s1.to_multiset().remove(x));
        assert(s2.remove(j).to_multiset() == s2.to_multiset().remove(x));
        lemma_checksum_permutation(s1.drop_last(), s2.remove(j));
        lemma_checksum_extract(s2, j);
    }
}

} // verus!
