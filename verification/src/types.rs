use vstd::prelude::*;

use crate::errors::InvalidValueError;

verus! {

/// Length in bytes of a SHA-256 digest.
pub const SHA256_LEN: usize = 32;

/// Length in bytes of an account address.
pub const ACCOUNT_LEN: usize = 20;

/// A canonical 32-byte SHA-256 digest.
pub struct Sha256 {
    bytes: Vec<u8>,
}

/// A 20-byte account address held as its raw payload.
pub struct Address {
    bytes: Vec<u8>,
}

/// A 20-byte validator (proposer) address.
pub struct ValidatorAddress {
    bytes: Vec<u8>,
}

/// An application hash: a byte string of arbitrary length.
pub struct AppHash {
    bytes: Vec<u8>,
}

/// A non-empty byte string.
pub struct NonEmptyBz {
    bytes: Vec<u8>,
}

impl View for Sha256 {
    type V = Seq<u8>;

    closed spec fn view(&self) -> Seq<u8> {
        self.bytes@
    }
}

impl View for Address {
    type V = Seq<u8>;

    closed spec fn view(&self) -> Seq<u8> {
        self.bytes@
    }
}

impl View for ValidatorAddress {
    type V = Seq<u8>;

    closed spec fn view(&self) -> Seq<u8> {
        self.bytes@
    }
}

impl View for AppHash {
    type V = Seq<u8>;

    closed spec fn view(&self) -> Seq<u8> {
        self.bytes@
    }
}

impl View for NonEmptyBz {
    type V = Seq<u8>;

    closed spec fn view(&self) -> Seq<u8> {
        self.bytes@
    }
}

impl Sha256 {
    #[verifier::type_invariant]
    pub closed spec fn wf(self) -> bool {
        self.bytes@.len() == SHA256_LEN
    }

    pub fn new(hash: Vec<u8>) -> (r: Self)
        requires
            hash@.len() == SHA256_LEN,
        ensures
            r@ == hash@,
    {
        Sha256 { bytes: hash }
    }

    pub fn get(&self) -> (r: &Vec<u8>)
        ensures
            r@ == self@,
            r@.len() == SHA256_LEN,
    {
        proof {
            use_type_invariant(self);
        }
        &self.bytes
    }

    pub fn into_bytes(self) -> (r: Vec<u8>)
        ensures
            r@ == self@,
            r@.len() == SHA256_LEN,
    {
        proof {
            use_type_invariant(&self);
        }
        self.bytes
    }
}

impl Address {
    #[verifier::type_invariant]
    pub closed spec fn wf(self) -> bool {
        self.bytes@.len() == ACCOUNT_LEN
    }

    pub fn new(bz: Vec<u8>) -> (r: Self)
        requires
            bz@.len() == ACCOUNT_LEN,
        ensures
            r@ == bz@,
    {
        Address { bytes: bz }
    }

    pub fn as_bytes(&self) -> (r: &Vec<u8>)
        ensures
            r@ == self@,
            r@.len() == ACCOUNT_LEN,
    {
        proof {
            use_type_invariant(self);
        }
        &self.bytes
    }
}

impl ValidatorAddress {
    #[verifier::type_invariant]
    pub closed spec fn wf(self) -> bool {
        self.bytes@.len() == ACCOUNT_LEN
    }

    pub fn new(bz: Vec<u8>) -> (r: Self)
        requires
            bz@.len() == ACCOUNT_LEN,
        ensures
            r@ == bz@,
    {
        ValidatorAddress { bytes: bz }
    }

    pub fn get(&self) -> (r: &Vec<u8>)
        ensures
            r@ == self@,
            r@.len() == ACCOUNT_LEN,
    {
        proof {
            use_type_invariant(self);
        }
        &self.bytes
    }
}

impl AppHash {
    pub fn new(hash: Vec<u8>) -> (r: Self)
        ensures
            r@ == hash@,
    {
        AppHash { bytes: hash }
    }

    pub fn get(&self) -> (r: &Vec<u8>)
        ensures
            r@ == self@,
    {
        &self.bytes
    }

    pub fn into_bytes(self) -> (r: Vec<u8>)
        ensures
            r@ == self@,
    {
        self.bytes
    }
}

impl DeepView for NonEmptyBz {
    type V = Seq<u8>;

    open spec fn deep_view(&self) -> Seq<u8> {
        self.view()
    }
}

impl NonEmptyBz {
    #[verifier::type_invariant]
    pub closed spec fn wf(self) -> bool {
        self.bytes@.len() > 0
    }

    /// Accepts exactly the non-empty byte strings.
    pub fn new(bz: Vec<u8>) -> (r: Option<Self>)
        ensures
            bz@.len() > 0 ==> (r matches Some(v) && v@ == bz@),
            bz@.len() == 0 ==> r is None,
    {
        if bz.len() > 0 {
            Some(NonEmptyBz { bytes: bz })
        } else {
            None
        }
    }

    pub fn get(&self) -> (r: &Vec<u8>)
        ensures
            r@ == self@,
            r@.len() > 0,
    {
        proof {
            use_type_invariant(self);
        }
        &self.bytes
    }

    pub fn clone_bz(&self) -> (r: Self)
        ensures
            r@ == self@,
    {
        proof {
            use_type_invariant(self);
        }
        NonEmptyBz { bytes: clone_bytes(&self.bytes) }
    }

    pub fn into_inner(self) -> (r: Vec<u8>)
        ensures
            r@ == self@,
            r@.len() > 0,
    {
        proof {
            use_type_invariant(&self);
        }
        self.bytes
    }
}

/// Copies a byte vector; the copy has the same contents.
pub fn clone_bytes(v: &Vec<u8>) -> (r: Vec<u8>)
    ensures
        r@ == v@,
{
    let mut r: Vec<u8> = Vec::new();
    let mut i: usize = 0;
    while i < v.len()
        invariant
            0 <= i <= v@.len(),
            r@ == v@.subrange(0, i as int),
        decreases v@.len() - i,
    {
        r.push(v[i]);
        i = i + 1;
        proof {
            assert(r@ =~= v@.subrange(0, i as int));
        }
    }
    proof {
        assert(r@ =~= v@);
    }
    r
}

/// Copies the range `[start, end)` of a byte vector.
pub fn copy_range(v: &Vec<u8>, start: usize, end: usize) -> (r: Vec<u8>)
    requires
        start <= end <= v@.len(),
    ensures
        r@ == v@.subrange(start as int, end as int),
{
    let mut r: Vec<u8> = Vec::new();
    let mut i: usize = start;
    while i < end
        invariant
            start <= i <= end <= v@.len(),
            r@ == v@.subrange(start as int, i as int),
        decreases end - i,
    {
        r.push(v[i]);
        i = i + 1;
        proof {
            assert(r@ =~= v@.subrange(start as int, i as int));
        }
    }
    r
}

/// Compares two byte vectors for content equality.
pub fn bytes_eq(a: &Vec<u8>, b: &Vec<u8>) -> (r: bool)
    ensures
        r == (a@ == b@),
{
    if a.len() != b.len() {
        proof {
            assert(a@.len() != b@.len());
        }
        return false;
    }
    let mut i: usize = 0;
    while i < a.len()
        invariant
            i <= a@.len(),
            a@.len() == b@.len(),
            forall|j: int| 0 <= j < i ==> a@[j] == b@[j],
        decreases a@.len() - i,
    {
        if a[i] != b[i] {
            return false;
        }
        i = i + 1;
    }
    proof {
        assert(a@ =~= b@);
    }
    true
}

/// Converts a byte slice into a digest value; fails unless it is exactly
/// 32 bytes long.
pub fn bytes_to_sha256(bytes: &Vec<u8>) -> (r: Result<Sha256, InvalidValueError>)
    ensures
        bytes@.len() == SHA256_LEN ==> (r matches Ok(h) && h@ == bytes@),
        bytes@.len() != SHA256_LEN ==> (r matches Err(e) && e is Slice),
{
    if bytes.len() == SHA256_LEN {
        Ok(Sha256::new(clone_bytes(bytes)))
    } else {
        Err(InvalidValueError::Slice)
    }
}

} // verus!
