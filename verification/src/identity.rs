//! The offline identity: the 16-byte version-3 name-based identifier that a
//! username deterministically maps to, derived under the DNS namespace from
//! the name `"OfflinePlayer:"` followed by the username.
use vstd::prelude::*;

use vstd::string::StringExecFns;

verus! {

/// The 16 identifier bytes that the version-3 name-based derivation under
/// the DNS namespace assigns to a name: a pure function of the name's
/// characters alone, the same in every process and on every machine.
pub uninterp spec fn uuid_v3_dns_of(name: Seq<char>) -> Seq<u8>;

/// Relies on `uuid::Uuid::new_v3` with `Uuid::NAMESPACE_DNS`: it digests the
/// fixed namespace bytes and the name's bytes into a 16-byte version-3
/// identifier, a pure function of the name alone.
#[verifier::external_body]
fn uuid_v3_dns(name: &str) -> (r: Vec<u8>)
    ensures
        r@ == uuid_v3_dns_of(name@),
        r@.len() == 16,
{
    uuid::Uuid::new_v3(&uuid::Uuid::NAMESPACE_DNS, name.as_bytes()).as_bytes().to_vec()
}

/// The identity bytes a username maps to: the version-3 derivation applied
/// to `"OfflinePlayer:"` followed by the username.
pub open spec fn spec_offline_identity(username: Seq<char>) -> Seq<u8> {
    uuid_v3_dns_of("OfflinePlayer:"@ + username)
}

/// Computes the offline identity of `username`: 16 bytes, computed on
/// demand, never stored.
pub fn offline_identity(username: &str) -> (r: Vec<u8>)
    ensures
        r@ == spec_offline_identity(username@),
        r@.len() == 16,
{
    let name = String::from_str("OfflinePlayer:").concat(username);
    uuid_v3_dns(name.as_str())
}

/// Law: the identity is deterministic. It depends on the username's
/// characters alone, so equal usernames give equal identities, across calls
/// and across process restarts.
pub proof fn lemma_identity_deterministic(a: Seq<char>, b: Seq<char>)
    requires
        a == b,
    ensures
        spec_offline_identity(a) == spec_offline_identity(b),
{
}

} // verus!
