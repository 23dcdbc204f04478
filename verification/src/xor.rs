//! 256-bit XOR names and the bit-string prefixes that locate sections in
//! name space. Distance between names is their bitwise XOR read as a
//! big-endian unsigned integer.

use vstd::prelude::*;

verus! {

/// Number of bytes in an XOR name.
pub const XOR_NAME_LEN: usize = 32;

/// Number of bits in an XOR name.
pub const XOR_NAME_BITS: usize = 256;

/// A 256-bit identifier for nodes and data.
#[derive(Clone, Debug, PartialEq, Eq, Hash)]
pub struct XorName {
    pub bytes: Vec<u8>,
}

impl View for XorName {
    type V = Seq<u8>;

    open spec fn view(&self) -> Seq<u8> {
        self.bytes@
    }
}

/// Bit `i` (most significant first) of the byte string `s`.
pub open spec fn spec_bit(s: Seq<u8>, i: int) -> bool {
    (s[i / 8] >> ((7 - i % 8) as u8)) & 1u8 == 1u8
}

impl XorName {
    /// A name is well formed when it holds exactly 32 bytes.
    pub open spec fn wf(&self) -> bool {
        self@.len() == XOR_NAME_LEN
    }

    /// Builds a name from its 32 bytes.
    pub fn from_bytes(bytes: Vec<u8>) -> (r: XorName)
        requires
            bytes@.len() == XOR_NAME_LEN,
        ensures
            r.wf(),
            r@ == bytes@,
    {
        XorName { bytes }
    }

    /// The name whose bytes are all zero.
    pub fn zero() -> (r: XorName)
        ensures
            r.wf(),
            forall|i: int| 0 <= i < XOR_NAME_LEN ==> r@[i] == 0u8,
    {
        let mut bytes: Vec<u8> = Vec::new();
        let mut i: usize = 0;
        while i < XOR_NAME_LEN
            invariant
                i <= XOR_NAME_LEN,
                bytes@.len() == i,
                forall|j: int| 0 <= j < i ==> bytes@[j] == 0u8,
            decreases XOR_NAME_LEN - i,
        {
            bytes.push(0u8);
            i = i + 1;
        }
        XorName { bytes }
    }

    /// Copies the name's bytes.
    pub fn to_bytes(&self) -> (r: Vec<u8>)
        ensures
            r@ == self@,
    {
        clone_bytes(&self.bytes)
    }

    /// A fresh copy of the name.
    pub fn duplicate(&self) -> (r: XorName)
        ensures
            r@ == self@,
    {
        XorName { bytes: clone_bytes(&self.bytes) }
    }

    /// Bit `i` of the name, most significant bit first.
    pub fn bit(&self, i: usize) -> (b: bool)
        requires
            self.wf(),
            i < XOR_NAME_BITS,
        ensures
            b == spec_bit(self@, i as int),
    {
        (self.bytes[i / 8] >> ((7 - i % 8) as u8)) & 1u8 == 1u8
    }

    /// Whether two names hold the same bytes.
    pub fn equals(&self, other: &XorName) -> (r: bool)
        ensures
            r == (self@ == other@),
    {
        bytes_eq(&self.bytes, &other.bytes)
    }

    /// The node age that a name carries in its final byte.
    pub fn age(&self) -> (r: u8)
        requires
            self.wf(),
        ensures
            r == self@[XOR_NAME_LEN - 1],
    {
        self.bytes[XOR_NAME_LEN - 1]
    }

    /// Returns a copy of the name with its final byte replaced by `age`.
    pub fn with_age(&self, age: u8) -> (r: XorName)
        requires
            self.wf(),
        ensures
            r.wf(),
            r@ == self@.update(XOR_NAME_LEN - 1, age),
    {
        let mut bytes = clone_bytes(&self.bytes);
        bytes.set(XOR_NAME_LEN - 1, age);
        XorName { bytes }
    }
}

/// Whether the XOR distance from `a` to `target` is strictly smaller than
/// the XOR distance from `b` to `target`, comparing the two XOR results as
/// big-endian unsigned integers.
pub open spec fn spec_closer(a: Seq<u8>, b: Seq<u8>, target: Seq<u8>, i: int) -> bool
    decreases a.len() - i when 0 <= i <= a.len() && a.len() == b.len() == target.len()
{
    if i >= a.len() {
        false
    } else if (a[i] ^ target[i]) == (b[i] ^ target[i]) {
        spec_closer(a, b, target, i + 1)
    } else {
        (a[i] ^ target[i]) < (b[i] ^ target[i])
    }
}

/// Whether `a` is strictly closer to `target` than `b` is, by XOR distance.
pub fn closer_to_target(a: &XorName, b: &XorName, target: &XorName) -> (r: bool)
    requires
        a.wf(),
        b.wf(),
        target.wf(),
    ensures
        r == spec_closer(a@, b@, target@, 0),
{
    let mut i: usize = 0;
    while i < XOR_NAME_LEN
        invariant
            a.wf(),
            b.wf(),
            target.wf(),
            i <= XOR_NAME_LEN,
            spec_closer(a@, b@, target@, 0) == spec_closer(a@, b@, target@, i as int),
            forall|j: int| 0 <= j < i ==> (a@[j] ^ target@[j]) == (b@[j] ^ target@[j]),
        decreases XOR_NAME_LEN - i,
    {
        let av = a.bit_byte(i) ^ target.bit_byte(i);
        let bv = b.bit_byte(i) ^ target.bit_byte(i);
        if av != bv {
            return av < bv;
        }
        i = i + 1;
    }
    false
}

/// The closeness relation never holds of a name and itself.
pub proof fn lemma_closer_irrefl(a: Seq<u8>, target: Seq<u8>, i: int)
    requires
        a.len() == target.len(),
        0 <= i <= a.len(),
    ensures
        !spec_closer(a, a, target, i),
    decreases a.len() - i,
{
    if i < a.len() {
        lemma_closer_irrefl(a, target, i + 1);
    }
}

/// Two names that differ somewhere at or after `i` compare one way or the
/// other: the closeness relation is connected.
pub proof fn lemma_closer_connex(a: Seq<u8>, b: Seq<u8>, target: Seq<u8>, i: int)
    requires
        a.len() == b.len() == target.len(),
        0 <= i <= a.len(),
    ensures
        spec_closer(a, b, target, i) || spec_closer(b, a, target, i)
            || (forall|j: int| i <= j < a.len() ==> a[j] == b[j]),
    decreases a.len() - i,
{
    if i < a.len() {
        let x = a[i];
        let y = b[i];
        let z = target[i];
        if x ^ z == y ^ z {
            assert(x == y) by (bit_vector)
                requires x ^ z == y ^ z;
            lemma_closer_connex(a, b, target, i + 1);
        }
    }
}

/// The closeness relation is transitive.
pub proof fn lemma_closer_trans(a: Seq<u8>, b: Seq<u8>, c: Seq<u8>, target: Seq<u8>, i: int)
    requires
        a.len() == b.len() == c.len() == target.len(),
        0 <= i <= a.len(),
        spec_closer(a, b, target, i),
        spec_closer(b, c, target, i),
    ensures
        spec_closer(a, c, target, i),
    decreases a.len() - i,
{
    if i < a.len() {
        let ax = a[i] ^ target[i];
        let bx = b[i] ^ target[i];
        let cx = c[i] ^ target[i];
        if ax == bx && bx == cx {
            lemma_closer_trans(a, b, c, target, i + 1);
        }
    }
}

impl XorName {
    /// Byte `i` of the name.
    pub fn bit_byte(&self, i: usize) -> (r: u8)
        requires
            self.wf(),
            i < XOR_NAME_LEN,
        ensures
            r == self@[i as int],
    {
        self.bytes[i]
    }
}

/// A section prefix: the sequence of leading bits shared by every name the
/// section covers. The empty prefix covers the whole name space.
#[derive(Clone, Debug, PartialEq, Eq, Hash)]
pub struct Prefix {
    pub bits: Vec<bool>,
}

impl View for Prefix {
    type V = Seq<bool>;

    open spec fn view(&self) -> Seq<bool> {
        self.bits@
    }
}

/// Whether the first `p.len()` bits of the name `n` equal `p`.
pub open spec fn spec_matches(p: Seq<bool>, n: Seq<u8>) -> bool {
    forall|i: int| 0 <= i < p.len() ==> p[i] == spec_bit(n, i)
}

/// Whether `anc` is an ancestor of `des`: every name matching `des` also
/// matches `anc`. A prefix is an ancestor of itself.
pub open spec fn spec_ancestor(anc: Seq<bool>, des: Seq<bool>) -> bool {
    anc.len() <= des.len() && anc == des.take(anc.len() as int)
}

impl Prefix {
    /// A prefix never holds more bits than a name.
    pub open spec fn wf(&self) -> bool {
        self@.len() <= XOR_NAME_BITS
    }

    /// The empty prefix, which covers all of name space.
    pub fn empty() -> (r: Prefix)
        ensures
            r.wf(),
            r@ == Seq::<bool>::empty(),
    {
        Prefix { bits: Vec::new() }
    }

    /// Number of bits in the prefix.
    pub fn bit_count(&self) -> (r: usize)
        ensures
            r == self@.len(),
    {
        self.bits.len()
    }

    /// Bit `i` of the prefix.
    pub fn bit(&self, i: usize) -> (r: bool)
        requires
            i < self@.len(),
        ensures
            r == self@[i as int],
    {
        self.bits[i]
    }

    /// A fresh copy of the prefix.
    pub fn duplicate(&self) -> (r: Prefix)
        ensures
            r@ == self@,
    {
        let mut bits: Vec<bool> = Vec::new();
        let mut i: usize = 0;
        while i < self.bits.len()
            invariant
                i <= self.bits@.len(),
                bits@ == self.bits@.take(i as int),
            decreases self.bits@.len() - i,
        {
            bits.push(self.bits[i]);
            proof {
                assert(bits@ =~= self.bits@.take(i + 1));
            }
            i = i + 1;
        }
        proof {
            assert(bits@ =~= self.bits@);
        }
        Prefix { bits }
    }

    /// The prefix extended by one more bit.
    pub fn pushed(&self, bit: bool) -> (r: Prefix)
        requires
            self.wf(),
            self@.len() < XOR_NAME_BITS,
        ensures
            r.wf(),
            r@ == self@.push(bit),
    {
        let mut p = self.duplicate();
        p.bits.push(bit);
        p
    }

    /// Whether this prefix matches the name `n`.
    pub fn matches(&self, n: &XorName) -> (r: bool)
        requires
            self.wf(),
            n.wf(),
        ensures
            r == spec_matches(self@, n@),
    {
        let mut i: usize = 0;
        while i < self.bits.len()
            invariant
                self.wf(),
                n.wf(),
                i <= self@.len(),
                forall|j: int| 0 <= j < i ==> self@[j] == spec_bit(n@, j),
            decreases self@.len() - i,
        {
            if self.bits[i] != n.bit(i) {
                return false;
            }
            i = i + 1;
        }
        true
    }

    /// Whether two prefixes hold the same bits.
    pub fn equals(&self, other: &Prefix) -> (r: bool)
        ensures
            r == (self@ == other@),
    {
        if self.bits.len() != other.bits.len() {
            proof {
                assert(self@ != other@);
            }
            return false;
        }
        let mut i: usize = 0;
        while i < self.bits.len()
            invariant
                self.bits@.len() == other.bits@.len(),
                i <= self@.len(),
                forall|j: int| 0 <= j < i ==> self@[j] == other@[j],
            decreases self@.len() - i,
        {
            if self.bits[i] != other.bits[i] {
                return false;
            }
            i = i + 1;
        }
        proof {
            assert(self@ =~= other@);
        }
        true
    }

    /// Whether this prefix is an ancestor of `other` (possibly equal to it).
    pub fn is_ancestor_of(&self, other: &Prefix) -> (r: bool)
        ensures
            r == spec_ancestor(self@, other@),
    {
        if self.bits.len() > other.bits.len() {
            return false;
        }
        let mut i: usize = 0;
        while i < self.bits.len()
            invariant
                self.bits@.len() <= other.bits@.len(),
                i <= self@.len(),
                forall|j: int| 0 <= j < i ==> self@[j] == other@.take(self@.len() as int)[j],
            decreases self@.len() - i,
        {
            if self.bits[i] != other.bits[i] {
                return false;
            }
            i = i + 1;
        }
        proof {
            assert(self@ =~= other@.take(self@.len() as int));
        }
        true
    }

    /// Whether `other` is a strict extension of this prefix.
    pub fn is_extension_of(&self, other: &Prefix) -> (r: bool)
        ensures
            r == (spec_ancestor(other@, self@) && other@.len() < self@.len()),
    {
        other.bit_count() < self.bit_count() && other.is_ancestor_of(self)
    }

    /// The name that stands for the prefix in distance comparisons: the
    /// prefix's bits followed by zeros.
    pub fn base_name(&self) -> (r: XorName)
        requires
            self.wf(),
        ensures
            r.wf(),
            r@ == spec_base_name(self@),
    {
        let mut bytes: Vec<u8> = Vec::new();
        let mut i: usize = 0;
        while i < XOR_NAME_LEN
            invariant
                self.wf(),
                i <= XOR_NAME_LEN,
                bytes@.len() == i,
                forall|j: int| 0 <= j < i ==> bytes@[j] == spec_base_name(self@)[j],
            decreases XOR_NAME_LEN - i,
        {
            let mut byte: u8 = 0;
            let mut k: usize = 0;
            while k < 8
                invariant
                    self.wf(),
                    i < XOR_NAME_LEN,
                    k <= 8,
                    byte == byte_from_bits(self@, (i * 8) as int, k as int),
                decreases 8 - k,
            {
                let bit_index = i * 8 + k;
                let b: bool = if bit_index < self.bits.len() {
                    self.bits[bit_index]
                } else {
                    false
                };
                if b {
                    byte = byte | (1u8 << ((7 - k) as u8));
                }
                k = k + 1;
            }
            bytes.push(byte);
            i = i + 1;
        }
        proof {
            assert(bytes@ =~= spec_base_name(self@));
        }
        XorName { bytes }
    }
}

/// Bit `i` of a prefix read as if the prefix were padded with zeros.
pub open spec fn bit_at(p: Seq<bool>, i: int) -> bool {
    if 0 <= i < p.len() {
        p[i]
    } else {
        false
    }
}

/// The byte whose most significant `k` bits are bits `start .. start + k` of
/// the zero-padded prefix `p` and whose remaining bits are zero.
pub open spec fn byte_from_bits(p: Seq<bool>, start: int, k: int) -> u8
    decreases k,
{
    if k <= 0 {
        0u8
    } else if bit_at(p, start + (k - 1)) {
        byte_from_bits(p, start, k - 1) | (1u8 << ((7 - (k - 1)) as u8))
    } else {
        byte_from_bits(p, start, k - 1)
    }
}

/// The 32 bytes that spell the prefix's bits followed by zeros.
pub open spec fn spec_base_name(p: Seq<bool>) -> Seq<u8> {
    Seq::new(XOR_NAME_LEN as nat, |i: int| byte_from_bits(p, i * 8, 8))
}

/// Compares two byte strings for equality.
pub fn bytes_eq(a: &Vec<u8>, b: &Vec<u8>) -> (r: bool)
    ensures
        r == (a@ == b@),
{
    if a.len() != b.len() {
        proof {
            assert(a@ != b@);
        }
        return false;
    }
    let mut i: usize = 0;
    while i < a.len()
        invariant
            a@.len() == b@.len(),
            i <= a@.len(),
            forall|j: int| 0 <= j < i ==> a@[j] == b@[j],
        decreases a@.len() - i,
    {
        if a[i] != b[i] {
            return false;
        }
        i = i + 1;
    }
    proof {
        assert(a@ =~= b@);
    }
    true
}

/// Copies a byte string.
pub fn clone_bytes(v: &Vec<u8>) -> (r: Vec<u8>)
    ensures
        r@ == v@,
{
    let mut r: Vec<u8> = Vec::new();
    let mut i: usize = 0;
    while i < v.len()
        invariant
            i <= v@.len(),
            r@ == v@.take(i as int),
        decreases v@.len() - i,
    {
        r.push(v[i]);
        proof {
            assert(r@ =~= v@.take(i + 1));
        }
        i = i + 1;
    }
    proof {
        assert(r@ =~= v@);
    }
    r
}

} // verus!
