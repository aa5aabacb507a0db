//! Declarations of, and trusted wrappers around, the outside crates that
//! the client leans on: the protocol base library for identities and
//! signed events, and the hash library for event-id text.

use vstd::prelude::*;
use std::str::FromStr;

verus! {

#[verifier::external_type_specification]
#[verifier::external_body]
pub struct ExKeys(nostr_sdk_base::Keys);

#[verifier::external_type_specification]
#[verifier::external_body]
pub struct ExEvent(nostr_sdk_base::Event);

#[verifier::external_type_specification]
#[verifier::external_body]
pub struct ExSubscriptionFilter(nostr_sdk_base::SubscriptionFilter);

#[verifier::external_type_specification]
#[verifier::external_body]
pub struct ExSha256Hash(bitcoin_hashes::sha256::Hash);

#[verifier::external_type_specification]
#[verifier::external_body]
pub struct ExAnyhowError(anyhow::Error);

/// Relies on the derived `Clone` of `nostr_sdk_base::Keys`: the clone is
/// the same identity value, independent of the original.
pub assume_specification[ <nostr_sdk_base::Keys as Clone>::clone ](
    k: &nostr_sdk_base::Keys,
) -> (r: nostr_sdk_base::Keys)
    ensures
        r == *k,
;

/// Whether a character is a hexadecimal digit, in either case.
pub open spec fn is_hex_digit(c: char) -> bool {
    (('0' as u32) <= (c as u32) && (c as u32) <= ('9' as u32))
    || (('a' as u32) <= (c as u32) && (c as u32) <= ('f' as u32))
    || (('A' as u32) <= (c as u32) && (c as u32) <= ('F' as u32))
}

/// Well-formed event-id text: the hex encoding of a 32-byte digest,
/// 64 hex digits and nothing else.
pub open spec fn valid_event_id_text(s: Seq<char>) -> bool {
    s.len() == 64 && (forall|i: int| 0 <= i < s.len() ==> is_hex_digit(#[trigger] s[i]))
}

/// Relies on `bitcoin_hashes::sha256::Hash::from_str`: it decodes exactly
/// the strings of 64 hex digits (either case) and rejects any other text,
/// odd or wrong length included.
#[verifier::external_body]
pub(crate) fn parse_event_id(s: &str) -> (r: Option<bitcoin_hashes::sha256::Hash>)
    ensures
        r is Some <==> valid_event_id_text(s@),
{
    match bitcoin_hashes::sha256::Hash::from_str(s) {
        Ok(h) => Some(h),
        Err(_) => None,
    }
}

} // verus!
