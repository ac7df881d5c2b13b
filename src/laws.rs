use vstd::prelude::*;

use crate::chain::{chain_scope, is_digit, CHAIN_PREFIX_LEN};
use crate::error::DidError;
use crate::registry::{
    spec_add_alt_data, spec_add_delegate, spec_lookup, spec_register, spec_remove_delegate,
    spec_transfer, spec_update_did_data, state_wf, RegistryView,
};
use vstd::utf8::{encode_utf8, is_ascii_chars, is_ascii_chars_encode_utf8};

verus! {

/// Only the current owner of an identity can change it: every other caller is
/// rejected as unauthorized, while the owner's updates, appends and delegate
/// grants succeed, a revoke succeeds exactly when the relation exists, and a
/// transfer exactly when it names another account that holds no record.
pub proof fn lemma_only_owner_mutates(
    s: RegistryView,
    caller: Seq<char>,
    did: Seq<char>,
    uri: Seq<char>,
    uris: Seq<Seq<char>>,
    peer: Seq<char>,
    new_owner: Seq<char>,
)
    requires
        s.owners.contains_key(did),
    ensures
        s.owners[did] != caller ==> {
            &&& spec_update_did_data(s, caller, did, uri) == Err::<RegistryView, DidError>(DidError::Unauthorized)
            &&& spec_add_alt_data(s, caller, did, uris) == Err::<RegistryView, DidError>(DidError::Unauthorized)
            &&& spec_add_delegate(s, caller, peer, did) == Err::<RegistryView, DidError>(DidError::Unauthorized)
            &&& spec_remove_delegate(s, caller, peer, did) == Err::<RegistryView, DidError>(DidError::Unauthorized)
            &&& spec_transfer(s, caller, new_owner, did) == Err::<RegistryView, DidError>(DidError::Unauthorized)
        },
        s.owners[did] == caller ==> {
            &&& spec_update_did_data(s, caller, did, uri).is_ok()
            &&& spec_add_alt_data(s, caller, did, uris).is_ok()
            &&& spec_add_delegate(s, caller, peer, did).is_ok()
            &&& spec_remove_delegate(s, caller, peer, did).is_ok() == s.delegates.contains_key((peer, did))
            &&& spec_transfer(s, caller, new_owner, did).is_ok() == (new_owner != caller
                && !s.records.contains_key(new_owner))
        },
{
}

/// Every operation that succeeds on a state in which each registered identity
/// has a record under its owner leads to a state where this still holds.
pub proof fn lemma_operations_keep_records(
    s: RegistryView,
    caller: Seq<char>,
    did: Seq<char>,
    uri: Seq<char>,
    uris: Seq<Seq<char>>,
    peer: Seq<char>,
    new_owner: Seq<char>,
)
    requires
        state_wf(s),
    ensures
        spec_register(s, caller, did, uri).is_ok() ==> state_wf(spec_register(s, caller, did, uri).unwrap()),
        spec_update_did_data(s, caller, did, uri).is_ok() ==> state_wf(spec_update_did_data(s, caller, did, uri).unwrap()),
        spec_add_alt_data(s, caller, did, uris).is_ok() ==> state_wf(spec_add_alt_data(s, caller, did, uris).unwrap()),
        spec_add_delegate(s, caller, peer, did).is_ok() ==> state_wf(spec_add_delegate(s, caller, peer, did).unwrap()),
        spec_remove_delegate(s, caller, peer, did).is_ok() ==> state_wf(spec_remove_delegate(s, caller, peer, did).unwrap()),
        spec_transfer(s, caller, new_owner, did).is_ok() ==> state_wf(spec_transfer(s, caller, new_owner, did).unwrap()),
{
}

/// An ASCII identity string that is shorter than six characters, or has a
/// non-digit among its first six, is refused registration as an invalid chain
/// scope, whoever registers it and whatever chain the registry serves.
pub proof fn lemma_malformed_prefix_rejected(s: RegistryView, caller: Seq<char>, did: Seq<char>, uri: Seq<char>)
    requires
        is_ascii_chars(did),
        did.len() < 6 || exists|i: int| 0 <= i < 6 && i < did.len() && !('0' <= #[trigger] did[i] <= '9'),
    ensures
        spec_register(s, caller, did, uri) == Err::<RegistryView, DidError>(DidError::InvalidChainScope),
{
    is_ascii_chars_encode_utf8(did);
    let b = encode_utf8(did);
    if did.len() >= 6 {
        let i = choose|i: int| 0 <= i < 6 && i < did.len() && !('0' <= #[trigger] did[i] <= '9');
        assert(did[i] as u8 == b[i]);
        assert(!is_digit(b[i]));
    }
    assert(chain_scope(b) == Err::<u64, DidError>(DidError::InvalidChainScope));
}

/// The identity string `99999x` is never registered.
pub proof fn lemma_nine_digits_then_letter_rejected(s: RegistryView, caller: Seq<char>, uri: Seq<char>)
    ensures
        spec_register(s, caller, "99999x"@, uri) == Err::<RegistryView, DidError>(DidError::InvalidChainScope),
{
    reveal_strlit("99999x");
    let did = "99999x"@;
    assert(!('0' <= did[5] <= '9'));
    lemma_malformed_prefix_rejected(s, caller, did, uri);
}

/// The owner cannot transfer an identity to itself.
pub proof fn lemma_self_transfer_rejected(s: RegistryView, caller: Seq<char>, did: Seq<char>)
    requires
        s.owners.contains_key(did),
        s.owners[did] == caller,
    ensures
        spec_transfer(s, caller, caller, did) == Err::<RegistryView, DidError>(DidError::SelfTransfer),
{
}

/// Handing an identity to another account and back restores the registry:
/// the ownership entry and the record return to the first owner unchanged.
pub proof fn lemma_transfer_round_trip(s: RegistryView, a: Seq<char>, b: Seq<char>, did: Seq<char>)
    requires
        state_wf(s),
        s.owners.contains_key(did),
        s.owners[did] == a,
        spec_transfer(s, a, b, did).is_ok(),
    ensures
        spec_transfer(spec_transfer(s, a, b, did).unwrap(), b, a, did) == Ok::<RegistryView, DidError>(s),
{
    let s1 = spec_transfer(s, a, b, did).unwrap();
    assert(s1.owners[did] == b);
    assert(!s1.records.contains_key(a));
    let s2 = spec_transfer(s1, b, a, did).unwrap();
    assert(s2.owners =~= s.owners);
    assert(s.records[a].owner == a);
    assert(s2.records[a] == s.records[a]);
    assert(s2.records =~= s.records);
}

/// Two appends by the owner keep the existing pointers, then the first batch,
/// then the second, in order and with duplicates kept.
pub proof fn lemma_alt_data_appends(s: RegistryView, caller: Seq<char>, did: Seq<char>, first: Seq<Seq<char>>, second: Seq<Seq<char>>)
    requires
        s.owners.contains_key(did),
        s.owners[did] == caller,
        s.records.contains_key(caller),
    ensures
        spec_add_alt_data(s, caller, did, first).is_ok(),
        spec_add_alt_data(spec_add_alt_data(s, caller, did, first).unwrap(), caller, did, second).is_ok(),
        spec_lookup(spec_add_alt_data(spec_add_alt_data(s, caller, did, first).unwrap(), caller, did, second).unwrap(), did)
            .unwrap().alt_ipfs_uris == s.records[caller].alt_ipfs_uris + first + second,
{
    let s1 = spec_add_alt_data(s, caller, did, first).unwrap();
    let s2 = spec_add_alt_data(s1, caller, did, second).unwrap();
    assert(s2.records[caller].alt_ipfs_uris =~= s.records[caller].alt_ipfs_uris + first + second);
}

/// Revoking a granted delegate succeeds and keeps the relation as inactive;
/// revoking it again succeeds with the same outcome.
pub proof fn lemma_revoke_keeps_relation(s: RegistryView, caller: Seq<char>, peer: Seq<char>, did: Seq<char>)
    requires
        s.owners.contains_key(did),
        s.owners[did] == caller,
    ensures
        ({
            let granted = spec_add_delegate(s, caller, peer, did);
            let revoked = spec_remove_delegate(granted.unwrap(), caller, peer, did);
            let again = spec_remove_delegate(revoked.unwrap(), caller, peer, did);
            &&& granted.is_ok()
            &&& revoked.is_ok()
            &&& revoked.unwrap().delegates.contains_key((peer, did))
            &&& !revoked.unwrap().delegates[(peer, did)]
            &&& again.is_ok()
            &&& again.unwrap() == revoked.unwrap()
        }),
{
    let revoked = spec_remove_delegate(spec_add_delegate(s, caller, peer, did).unwrap(), caller, peer, did).unwrap();
    let again = spec_remove_delegate(revoked, caller, peer, did).unwrap();
    assert(again.delegates =~= revoked.delegates);
}

} // verus!
