//! Fixed-size values of the state trie and nibble paths.
use vstd::prelude::*;

verus! {

/// A 32-byte hash (an account or slot hash, a trie root).
#[derive(Clone, Copy, Debug, PartialEq, Eq)]
pub struct B256 {
    pub bytes: [u8; 32],
}

/// A 20-byte account address.
#[derive(Clone, Copy, Debug, PartialEq, Eq)]
pub struct Address {
    pub bytes: [u8; 20],
}

/// An unsigned 256-bit integer as four 64-bit limbs, least significant first.
#[derive(Clone, Copy, Debug, PartialEq, Eq)]
pub struct U256 {
    pub limbs: [u64; 4],
}

impl B256 {
    pub fn new(bytes: [u8; 32]) -> (r: B256)
        ensures
            r.bytes == bytes,
    {
        B256 { bytes }
    }

    /// Whether two hashes hold the same bytes.
    pub fn same(&self, other: &B256) -> (r: bool)
        ensures
            r == (self.bytes@ == other.bytes@),
    {
        slices_equal(self.bytes.as_slice(), other.bytes.as_slice())
    }
}

impl Address {
    pub fn new(bytes: [u8; 20]) -> (r: Address)
        ensures
            r.bytes == bytes,
    {
        Address { bytes }
    }
}

impl U256 {
    pub open spec fn is_zero_spec(&self) -> bool {
        self.limbs@ == seq![0u64, 0u64, 0u64, 0u64]
    }

    /// The number zero.
    pub fn zero() -> (r: U256)
        ensures
            r.is_zero_spec(),
    {
        let r = U256 { limbs: [0u64, 0u64, 0u64, 0u64] };
        assert(r.limbs@ =~= seq![0u64, 0u64, 0u64, 0u64]);
        r
    }

    /// The value of a 64-bit integer.
    pub fn from_u64(v: u64) -> (r: U256)
        ensures
            r.limbs@ == seq![v, 0u64, 0u64, 0u64],
    {
        let r = U256 { limbs: [v, 0u64, 0u64, 0u64] };
        assert(r.limbs@ =~= seq![v, 0u64, 0u64, 0u64]);
        r
    }

    pub fn is_zero(&self) -> (r: bool)
        ensures
            r == self.is_zero_spec(),
    {
        let r = self.limbs[0] == 0 && self.limbs[1] == 0 && self.limbs[2] == 0 && self.limbs[3]
            == 0;
        if r {
            assert(self.limbs@ =~= seq![0u64, 0u64, 0u64, 0u64]);
        }
        r
    }
}

/// Whether two byte slices are equal.
pub fn slices_equal(a: &[u8], b: &[u8]) -> (r: bool)
    ensures
        r == (a@ == b@),
{
    if a.len() != b.len() {
        return false;
    }
    let mut i: usize = 0;
    while i < a.len()
        invariant
            a@.len() == b@.len(),
            i <= a@.len(),
            a@.subrange(0, i as int) == b@.subrange(0, i as int),
        decreases a@.len() - i,
    {
        if a[i] != b[i] {
            assert(a@[i as int] != b@[i as int]);
            return false;
        }
        assert(a@.subrange(0, i + 1) =~= a@.subrange(0, i as int).push(a@[i as int]));
        assert(b@.subrange(0, i + 1) =~= b@.subrange(0, i as int).push(b@[i as int]));
        i = i + 1;
    }
    assert(a@ =~= a@.subrange(0, i as int));
    assert(b@ =~= b@.subrange(0, i as int));
    true
}

/// Copies a byte slice into a vector with the same contents.
pub fn bytes_to_vec(a: &[u8]) -> (r: Vec<u8>)
    ensures
        r@ == a@,
{
    let mut r: Vec<u8> = Vec::new();
    let mut i: usize = 0;
    while i < a.len()
        invariant
            i <= a@.len(),
            r@ == a@.subrange(0, i as int),
        decreases a@.len() - i,
    {
        r.push(a[i]);
        assert(a@.subrange(0, i + 1) =~= a@.subrange(0, i as int).push(a@[i as int]));
        i = i + 1;
    }
    assert(a@ =~= a@.subrange(0, i as int));
    r
}

/// The nibbles of a byte string: the high then the low half of each byte.
pub open spec fn unpack_spec(b: Seq<u8>) -> Seq<u8> {
    Seq::new(
        2 * b.len(),
        |i: int|
            if i % 2 == 0 {
                b[i / 2] / 16
            } else {
                b[i / 2] % 16
            },
    )
}

/// Whether every element is a nibble, that is below 16.
pub open spec fn all_nibbles(s: Seq<u8>) -> bool {
    forall|i: int| 0 <= i < s.len() ==> #[trigger] s[i] < 16
}

/// `p` is a prefix of `t`.
pub open spec fn is_prefix(p: Seq<u8>, t: Seq<u8>) -> bool {
    p.len() <= t.len() && t.subrange(0, p.len() as int) == p
}

/// `s` is a suffix of `t`.
pub open spec fn is_suffix(s: Seq<u8>, t: Seq<u8>) -> bool {
    s.len() <= t.len() && t.subrange(t.len() - s.len(), t.len() as int) == s
}

/// A path in a trie: a sequence of nibbles, each below 16.
#[derive(Debug, PartialEq, Eq)]
pub struct Nibbles {
    pub data: Vec<u8>,
}

impl View for Nibbles {
    type V = Seq<u8>;

    open spec fn view(&self) -> Seq<u8> {
        self.data@
    }
}

impl Nibbles {
    pub open spec fn wf(&self) -> bool {
        all_nibbles(self@)
    }

    /// The empty path, that of a trie's root.
    pub fn root() -> (r: Nibbles)
        ensures
            r@ == Seq::<u8>::empty(),
            r.wf(),
    {
        Nibbles { data: Vec::new() }
    }

    /// The path made of the given nibbles.
    pub fn from_nibbles(data: Vec<u8>) -> (r: Nibbles)
        requires
            all_nibbles(data@),
        ensures
            r@ == data@,
            r.wf(),
    {
        Nibbles { data }
    }

    /// The path of a hash: its 64 nibbles, high half of each byte first.
    pub fn unpack(b: &B256) -> (r: Nibbles)
        ensures
            r@ == unpack_spec(b.bytes@),
            r@.len() == 64,
            r.wf(),
    {
        let mut data: Vec<u8> = Vec::new();
        let mut i: usize = 0;
        while i < 32
            invariant
                i <= 32,
                data@.len() == 2 * i,
                forall|j: int|
                    0 <= j < 2 * i ==> data@[j] == #[trigger] unpack_spec(b.bytes@)[j],
            decreases 32 - i,
        {
            let byte = b.bytes[i];
            data.push(byte / 16);
            data.push(byte % 16);
            i = i + 1;
        }
        assert(data@ =~= unpack_spec(b.bytes@));
        Nibbles { data }
    }

    /// A copy of this path.
    pub fn duplicate(&self) -> (r: Nibbles)
        ensures
            r@ == self@,
    {
        Nibbles { data: bytes_to_vec(self.data.as_slice()) }
    }

    /// Whether the paths are equal.
    pub fn same(&self, other: &Nibbles) -> (r: bool)
        ensures
            r == (self@ == other@),
    {
        slices_equal(self.data.as_slice(), other.data.as_slice())
    }

    /// Whether `suffix` is a suffix of this path.
    pub fn ends_with(&self, suffix: &Nibbles) -> (r: bool)
        ensures
            r == is_suffix(suffix@, self@),
    {
        let n = self.data.len();
        let m = suffix.data.len();
        if m > n {
            return false;
        }
        let off = n - m;
        let mut i: usize = 0;
        while i < m
            invariant
                n == self@.len(),
                m == suffix@.len(),
                off + m == n,
                i <= m,
                forall|j: int| 0 <= j < i ==> self@[off + j] == suffix@[j],
            decreases m - i,
        {
            if self.data[off + i] != suffix.data[i] {
                assert(self@.subrange(off as int, n as int)[i as int] != suffix@[i as int]);
                return false;
            }
            i = i + 1;
        }
        assert(self@.subrange(off as int, n as int) =~= suffix@);
        true
    }
}

} // verus!

verus! {

impl Nibbles {
    /// Whether `prefix` followed by `suffix` is exactly this path.
    pub fn is_joined(&self, prefix: &Nibbles, suffix: &Nibbles) -> (r: bool)
        ensures
            r == (prefix@ + suffix@ == self@),
    {
        let n = self.data.len();
        let p = prefix.data.len();
        if p > n || suffix.data.len() != n - p {
            proof {
                if prefix@ + suffix@ == self@ {
                    assert((prefix@ + suffix@).len() == self@.len());
                }
            }
            return false;
        }
        let mut i: usize = 0;
        while i < p
            invariant
                p == prefix@.len(),
                n == self@.len(),
                p <= n,
                i <= p,
                forall|j: int| 0 <= j < i ==> self@[j] == prefix@[j],
            decreases p - i,
        {
            if self.data[i] != prefix.data[i] {
                assert((prefix@ + suffix@)[i as int] == prefix@[i as int]);
                return false;
            }
            i = i + 1;
        }
        let r = self.ends_with(suffix);
        if r {
            assert forall|j: int| 0 <= j < n implies (prefix@ + suffix@)[j] == self@[j] by {
                if j >= p {
                    assert(self@.subrange(n - suffix@.len(), n as int)[j - p] == self@[j]);
                }
            }
            assert(prefix@ + suffix@ =~= self@);
        } else {
            proof {
                if prefix@ + suffix@ == self@ {
                    assert(self@.subrange(n - suffix@.len(), n as int) =~= suffix@);
                }
            }
        }
        r
    }
}

} // verus!
