use vstd::prelude::*;

use crate::error::DidError;
use crate::record::{strings_view, HealthDID};
use crate::registry::{
    spec_add_alt_data, spec_add_delegate, spec_lookup, spec_register,
    spec_remove_delegate, spec_transfer, spec_update_did_data, Registry, RegistryView,
};
use vstd::string::StringSliceAdditionalSpecFns;

verus! {

pub struct InstantiateMsg {}

/// A request that changes the registry. Accounts are given by their address.
pub enum ExecuteMsg {
    RegisterDID { health_did: String, uri: String },
    UpdateDIDData { health_did: String, uri: String },
    AddAltData { health_did: String, uris: Vec<String> },
    AddDelegateAddress { peer_address: String, health_did: String },
    RemoveDelegateAddress { peer_address: String, health_did: String },
    TransferOwnership { new_address: String, health_did: String },
}

pub enum QueryMsg {
    GetHealthDID { health_did: String },
}

/// What a successful operation reports: the messages it sends out (none
/// here) and its attributes, a `("method", label)` pair.
pub struct Response {
    pub messages: Vec<String>,
    pub attributes: Vec<(String, String)>,
}

/// `r` sends nothing and carries the single attribute `("method", label)`.
pub open spec fn labelled(r: Response, label: Seq<char>) -> bool {
    &&& r.messages@.len() == 0
    &&& r.attributes@.len() == 1
    &&& r.attributes@[0].0@ == "method"@
    &&& r.attributes@[0].1@ == label
}

fn labelled_response(label: &str) -> (r: Response)
    ensures
        labelled(r, label@),
{
    let mut attributes: Vec<(String, String)> = Vec::new();
    attributes.push(("method".to_owned(), label.to_owned()));
    Response { messages: Vec::new(), attributes }
}

/// The state that `msg` from `sender` leads to, or the error that rejects it.
pub open spec fn spec_execute(s: RegistryView, sender: Seq<char>, msg: ExecuteMsg) -> Result<RegistryView, DidError> {
    match msg {
        ExecuteMsg::RegisterDID { health_did, uri } => spec_register(s, sender, health_did@, uri@),
        ExecuteMsg::UpdateDIDData { health_did, uri } => spec_update_did_data(s, sender, health_did@, uri@),
        ExecuteMsg::AddAltData { health_did, uris } => spec_add_alt_data(s, sender, health_did@, strings_view(uris@)),
        ExecuteMsg::AddDelegateAddress { peer_address, health_did } => spec_add_delegate(s, sender, peer_address@, health_did@),
        ExecuteMsg::RemoveDelegateAddress { peer_address, health_did } => spec_remove_delegate(s, sender, peer_address@, health_did@),
        ExecuteMsg::TransferOwnership { new_address, health_did } => spec_transfer(s, sender, new_address@, health_did@),
    }
}

/// The label that a successful `msg` reports.
pub open spec fn method_label(msg: ExecuteMsg) -> Seq<char> {
    match msg {
        ExecuteMsg::RegisterDID { .. } => "register_did"@,
        ExecuteMsg::UpdateDIDData { .. } => "update_did_data"@,
        ExecuteMsg::AddAltData { .. } => "add_alt_data"@,
        ExecuteMsg::AddDelegateAddress { .. } => "add_delegate_address"@,
        ExecuteMsg::RemoveDelegateAddress { .. } => "remove_delegate_address"@,
        ExecuteMsg::TransferOwnership { .. } => "transfer_ownership"@,
    }
}

/// Sets up an empty registry for the chain `chain_id`.
pub fn instantiate(chain_id: u64, _msg: InstantiateMsg) -> (r: (Registry, Response))
    ensures
        r.0.wf(),
        r.0@.chain_id == chain_id,
        r.0@.owners.is_empty(),
        r.0@.records.is_empty(),
        r.0@.delegates.is_empty(),
        labelled(r.1, "instantiate"@),
{
    (Registry::new(chain_id), labelled_response("instantiate"))
}

/// Runs `msg` on behalf of the authenticated account `sender`. Either every
/// write of the operation is applied, or none is and the error says why.
pub fn execute(registry: &mut Registry, sender: String, msg: ExecuteMsg) -> (r: Result<Response, DidError>)
    requires
        old(registry).wf(),
    ensures
        final(registry).wf(),
        match spec_execute(old(registry)@, sender@, msg) {
            Ok(s) => r.is_ok() && labelled(r.unwrap(), method_label(msg)) && final(registry)@ == s,
            Err(e) => r == Err::<Response, DidError>(e) && final(registry)@ == old(registry)@,
        },
{
    let ghost m = msg;
    let (done, label) = match msg {
        ExecuteMsg::RegisterDID { health_did, uri } => (registry.register_did(sender, health_did, uri), "register_did"),
        ExecuteMsg::UpdateDIDData { health_did, uri } => (registry.update_did_data(sender, health_did, uri), "update_did_data"),
        ExecuteMsg::AddAltData { health_did, uris } => (registry.add_alt_data(sender, health_did, uris), "add_alt_data"),
        ExecuteMsg::AddDelegateAddress { peer_address, health_did } => (
            registry.add_delegate_address(sender, peer_address, health_did),
            "add_delegate_address",
        ),
        ExecuteMsg::RemoveDelegateAddress { peer_address, health_did } => (
            registry.remove_delegate_address(sender, peer_address, health_did),
            "remove_delegate_address",
        ),
        ExecuteMsg::TransferOwnership { new_address, health_did } => (
            registry.transfer_ownership(sender, new_address, health_did),
            "transfer_ownership",
        ),
    };
    assert(label@ == method_label(m));
    match done {
        Ok(_) => Ok(labelled_response(label)),
        Err(e) => Err(e),
    }
}

/// Answers `msg`: the full record of the identity, reached through its owner.
pub fn query(registry: &Registry, msg: QueryMsg) -> (r: Result<HealthDID, DidError>)
    requires
        registry.wf(),
    ensures
        match msg {
            QueryMsg::GetHealthDID { health_did } => match spec_lookup(registry@, health_did@) {
                Ok(v) => r.is_ok() && r.unwrap()@ == v,
                Err(e) => r == Err::<HealthDID, DidError>(e),
            },
        },
{
    match msg {
        QueryMsg::GetHealthDID { health_did } => registry.health_did(&health_did),
    }
}

/// `b` cut to 32 bytes, or padded with zero bytes up to 32.
pub open spec fn bytes32_of(b: Seq<u8>) -> Seq<u8> {
    Seq::new(32, |i: int| if i < b.len() { b[i] } else { 0u8 })
}

/// The first 32 bytes of `source`, zero-padded to exactly 32.
pub fn string_to_bytes32(source: &str) -> (r: Vec<u8>)
    ensures
        r@ == bytes32_of(source.spec_bytes()),
{
    let bytes = source.as_bytes();
    let mut r: Vec<u8> = Vec::new();
    let mut i: usize = 0;
    while i < 32
        invariant
            i <= 32,
            bytes@ == source.spec_bytes(),
            r@ == bytes32_of(bytes@).subrange(0, i as int),
        decreases 32 - i,
    {
        if i < bytes.len() {
            r.push(bytes[i]);
        } else {
            r.push(0u8);
        }
        i = i + 1;
        assert(r@ =~= bytes32_of(bytes@).subrange(0, i as int));
    }
    assert(r@ =~= bytes32_of(bytes@));
    r
}

} // verus!
