//! Keys whose identity is one of their fields. Two keys with the same `id`
//! are the same key to `==` and to hashing, whatever their names are.

use std::collections::hash_map::DefaultHasher;
use std::hash::{Hash, Hasher};
use vstd::bytes::{spec_u32_to_le_bytes, u32_to_le_bytes};
use vstd::prelude::*;
use vstd::std_specs::cmp::PartialEqSpec;
use vstd::std_specs::hash::DefaultHasherAdditionalSpecFns;

verus! {

/// `u32`'s `Hash::hash` from the standard library, which feeds the integer
/// to the hasher. Nothing is claimed of the hasher's state afterwards.
pub assume_specification<H: Hasher>[ <u32 as Hash>::hash ](value: &u32, state: &mut H);

/// A key that is identified by `id` alone; `name` is carried along.
#[derive(Debug)]
pub struct CustomKey {
    pub id: u32,
    pub name: String,
}

/// The hash of the identity `id`: what the standard hasher returns after
/// it was fed the four bytes of `id`, lowest first.
pub open spec fn identity_hash(id: u32) -> u64 {
    DefaultHasher::spec_finish(seq![spec_u32_to_le_bytes(id)])
}

impl CustomKey {
    /// The key with the identity `id` and the name `name`.
    pub fn new(id: u32, name: String) -> (key: Self)
        ensures
            key.id == id,
            key.name == name,
    {
        CustomKey { id, name }
    }

    /// The hash of this key, as `hash_value` computes it.
    pub open spec fn spec_hash(&self) -> u64 {
        identity_hash(self.id)
    }

    /// The hash of this key. It depends on `id` only.
    pub fn hash_value(&self) -> (hash: u64)
        ensures
            hash == self.spec_hash(),
    {
        let mut state = DefaultHasher::new();
        let bytes = u32_to_le_bytes(self.id);
        state.write(bytes.as_slice());
        assert(state@ =~= seq![spec_u32_to_le_bytes(self.id)]);
        state.finish()
    }
}

impl PartialEq for CustomKey {
    /// Two keys are equal when their `id`s are.
    fn eq(&self, other: &Self) -> (same: bool) {
        self.id == other.id
    }
}

impl vstd::std_specs::cmp::PartialEqSpecImpl for CustomKey {
    open spec fn obeys_eq_spec() -> bool {
        true
    }

    open spec fn eq_spec(&self, other: &Self) -> bool {
        self.id == other.id
    }
}

impl Eq for CustomKey {

}

impl Hash for CustomKey {
    /// Feeds `id`, and nothing else, to the hasher.
    fn hash<H: Hasher>(&self, state: &mut H) {
        self.id.hash(state);
    }
}

/// Equality of keys is an equivalence: reflexive, symmetric and transitive.
pub proof fn lemma_key_equality_is_equivalence(a: CustomKey, b: CustomKey, c: CustomKey)
    ensures
        a.eq_spec(&a),
        a.eq_spec(&b) ==> b.eq_spec(&a),
        a.eq_spec(&b) && b.eq_spec(&c) ==> a.eq_spec(&c),
{
}

/// Keys that are equal have the same hash.
pub proof fn lemma_equal_keys_hash_alike(a: CustomKey, b: CustomKey)
    requires
        a.eq_spec(&b),
    ensures
        a.spec_hash() == b.spec_hash(),
{
}

/// Two keys with the same `id` are equal and have the same hash, whatever
/// their names are.
pub proof fn lemma_name_is_not_identity(id: u32, first: String, second: String)
    ensures
        (CustomKey { id, name: first }).eq_spec(&(CustomKey { id, name: second })),
        (CustomKey { id, name: first }).spec_hash() == (CustomKey { id, name: second }).spec_hash(),
{
}

/// Keys with different `id`s are not equal.
pub proof fn lemma_distinct_ids_differ(a: CustomKey, b: CustomKey)
    requires
        a.id != b.id,
    ensures
        !a.eq_spec(&b),
{
}

} // verus!
