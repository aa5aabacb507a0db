//! The signing identity: the base library's key material together with
//! what the client's contracts need to know of it — whether it holds the
//! secret side needed to sign.
//!
//! The fields are private: every constructor records the signing
//! capability truthfully, so `can_sign` always tells whether the key
//! material holds its keypair, and the deletion builder's contract can
//! promise success exactly there.

use vstd::prelude::*;

verus! {

/// A signing identity. Immutable for a client's lifetime.
pub struct Identity {
    keys: nostr_sdk_base::Keys,
    can_sign: bool,
}

impl Identity {
    /// Whether this identity holds the secret side needed to sign.
    pub closed spec fn can_sign(&self) -> bool {
        self.can_sign
    }

    /// The underlying key material.
    pub closed spec fn keys(&self) -> nostr_sdk_base::Keys {
        self.keys
    }

    /// Whether this identity can produce signed events.
    pub fn is_signer(&self) -> (r: bool)
        ensures
            r == self.can_sign(),
    {
        self.can_sign
    }

    /// The underlying key material, for hosts that need it.
    pub fn as_keys(&self) -> (r: &nostr_sdk_base::Keys)
        ensures
            *r == self.keys(),
    {
        &self.keys
    }

    /// An identity around existing key material. Relies on
    /// `nostr_sdk_base::Keys::key_pair`: key material built from a secret
    /// key holds its keypair and can sign; public-key-only material
    /// cannot.
    #[verifier::external_body]
    pub fn from_keys(keys: nostr_sdk_base::Keys) -> (r: Identity)
        ensures
            r.keys() == keys,
    {
        let can_sign = keys.key_pair().is_ok();
        Identity { keys, can_sign }
    }

    /// A fresh identity from the operating system's random source.
    /// Relies on `nostr_sdk_base::Keys::generate_from_os_random`: it
    /// builds from a fresh secret key, so the identity can sign; which
    /// key comes out depends on that source, so nothing more is promised.
    #[verifier::external_body]
    pub fn generate() -> (r: Identity)
        ensures
            r.can_sign(),
    {
        Identity { keys: nostr_sdk_base::Keys::generate_from_os_random(), can_sign: true }
    }
}

impl Clone for Identity {
    fn clone(&self) -> (r: Self)
        ensures
            r == *self,
    {
        Identity { keys: self.keys.clone(), can_sign: self.can_sign }
    }
}

/// Builds a signed deletion event referencing exactly the given ids, with
/// no reason text. Relies on `nostr_sdk_base::Event::delete` (through
/// `Event::new_generic`): its only fallible step is fetching the
/// identity's keypair, so it succeeds exactly when the identity can sign
/// (the digest is always 32 bytes, and schnorr signing with a held
/// keypair does not fail).
#[verifier::external_body]
pub(crate) fn build_delete_event(
    identity: &Identity,
    ids: Vec<bitcoin_hashes::sha256::Hash>,
) -> (r: Result<nostr_sdk_base::Event, anyhow::Error>)
    ensures
        r is Ok <==> identity.can_sign(),
{
    nostr_sdk_base::Event::delete(&identity.keys, ids, None)
}

} // verus!
