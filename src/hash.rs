use std::hash::BuildHasher;
use std::hash::Hash;
use std::hash::Hasher;
use vstd::prelude::*;

verus! {

/// Relies on `rustc_hash::FxBuildHasher::hash_one`: the Fx digest of a value,
/// which depends on nothing but the value's `Hash` writes.
#[verifier::external_body]
fn fx_hash_one<T: Hash>(value: &T) -> u64 {
    rustc_hash::FxBuildHasher.hash_one(value)
}

/// A value paired with its hash, computed once when the pair is made.
/// Equality compares the hashes first and the values after.
#[derive(Debug, Clone, PartialEq, Eq)]
pub struct Prehashed<T> {
    pub(crate) hash: u64,
    pub(crate) inner: T,
}

impl<T: Hash> Prehashed<T> {
    pub fn from(inner: T) -> (r: Self)
        ensures
            r.value() == inner,
    {
        let hash = fx_hash_one(&inner);
        Prehashed { hash, inner }
    }
}

impl<T> Prehashed<T> {
    /// The wrapped value.
    pub closed spec fn value(&self) -> T {
        self.inner
    }

    /// The hash stored beside the value.
    pub closed spec fn stored_hash(&self) -> u64 {
        self.hash
    }

    /// The wrapped value is structurally smaller than the pair.
    pub proof fn lemma_value_decreases(&self)
        ensures
            decreases_to!(*self => self.value()),
    {
        assert(decreases_to!(*self => self.inner));
    }

    pub fn as_ref(&self) -> (r: &T)
        ensures
            *r == self.value(),
    {
        &self.inner
    }

    pub fn hash_value(&self) -> (r: u64)
        ensures
            r == self.stored_hash(),
    {
        self.hash
    }
}

impl<T> Hash for Prehashed<T> {
    /// Relies on `Hasher::write_u64`: feeds the stored hash to the hasher.
    #[verifier::external_body]
    fn hash<H: Hasher>(&self, state: &mut H) {
        state.write_u64(self.hash);
    }
}

} // verus!
