//! Byte strings: the string entity stored in an assembly's string arena.

use crate::bimap::InternValue;
use vstd::prelude::*;
use vstd::string::StringSliceAdditionalSpecFns;

verus! {

/// An immutable byte string. Interning hashes its bytes one by one, so two
/// differently constructed but equal strings always intern to one handle.
#[derive(Clone, Debug)]
pub struct IString {
    bytes: Vec<u8>,
}

impl View for IString {
    type V = Seq<u8>;

    closed spec fn view(&self) -> Seq<u8> {
        self.bytes@
    }
}

/// One mixing step of the structural hash.
pub open spec fn spec_mix(h: u64, x: u64) -> u64 {
    ((h << 5) ^ (h >> 59)) ^ x
}

/// Computes one mixing step of the structural hash.
pub fn mix(h: u64, x: u64) -> (r: u64)
    ensures
        r == spec_mix(h, x),
{
    ((h << 5u64) ^ (h >> 59u64)) ^ x
}

/// The hash of a byte sequence, folded byte by byte.
pub open spec fn spec_bytes_key(s: Seq<u8>) -> u64
    decreases s.len(),
{
    if s.len() == 0 {
        0x9e37u64
    } else {
        spec_mix(spec_bytes_key(s.drop_last()), s.last() as u64)
    }
}

impl IString {
    /// Wraps owned bytes.
    pub fn from_bytes(bytes: Vec<u8>) -> (r: Self)
        ensures
            r@ == bytes@,
    {
        IString { bytes }
    }

    /// Copies a string's UTF-8 bytes.
    pub fn from_str(s: &str) -> (r: Self)
        ensures
            r@ == s.spec_bytes(),
    {
        IString { bytes: vstd::slice::slice_to_vec(s.as_bytes()) }
    }

    /// Copies this byte string.
    pub fn duplicate(&self) -> (r: Self)
        ensures
            r@ == self@,
    {
        IString { bytes: vstd::slice::slice_to_vec(self.bytes.as_slice()) }
    }

    /// Read access to the bytes.
    pub fn bytes(&self) -> (r: &Vec<u8>)
        ensures
            r@ == self@,
    {
        &self.bytes
    }

    /// Length in bytes.
    pub fn len(&self) -> (n: usize)
        ensures
            n == self@.len(),
    {
        self.bytes.len()
    }
}

impl InternValue for IString {
    open spec fn keq(&self, other: &Self) -> bool {
        self@ == other@
    }

    open spec fn skey(&self) -> u64 {
        spec_bytes_key(self@)
    }

    open spec fn kids(&self) -> Seq<u64> {
        Seq::empty()
    }

    proof fn keq_laws(a: &Self, b: &Self, c: &Self) {
    }

    fn key(&self) -> (k: u64) {
        let n = self.bytes.len();
        let mut h: u64 = 0x9e37;
        let mut i: usize = 0;
        while i < n
            invariant
                n == self@.len(),
                i <= n,
                h == spec_bytes_key(self@.take(i as int)),
            decreases n - i,
        {
            proof {
                assert(self@.take(i + 1).drop_last() =~= self@.take(i as int));
                assert(self@.take(i + 1).last() == self@[i as int]);
            }
            h = mix(h, self.bytes[i] as u64);
            i += 1;
        }
        proof {
            assert(self@.take(n as int) =~= self@);
        }
        h
    }

    fn same(&self, other: &Self) -> (r: bool) {
        let n = self.bytes.len();
        if n != other.bytes.len() {
            proof {
                assert(self@ != other@);
            }
            return false;
        }
        let mut i: usize = 0;
        while i < n
            invariant
                n == self@.len(),
                n == other@.len(),
                i <= n,
                forall|t: int| 0 <= t < i ==> self@[t] == other@[t],
            decreases n - i,
        {
            if self.bytes[i] != other.bytes[i] {
                return false;
            }
            i += 1;
        }
        proof {
            assert(self@ =~= other@);
        }
        true
    }
}

} // verus!
