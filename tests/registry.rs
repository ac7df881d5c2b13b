use did_registry::chain::resolve_chain_id;
use did_registry::contract::{
    execute, instantiate, query, string_to_bytes32, ExecuteMsg, InstantiateMsg, QueryMsg,
};
use did_registry::error::DidError;
use did_registry::record::HealthDID;
use did_registry::registry::Registry;

const CHAIN: u64 = 123456;

fn s(x: &str) -> String {
    x.to_string()
}

fn fresh() -> Registry {
    instantiate(CHAIN, InstantiateMsg {}).0
}

fn register(r: &mut Registry, who: &str, did: &str, uri: &str) -> Result<(), DidError> {
    execute(r, s(who), ExecuteMsg::RegisterDID { health_did: s(did), uri: s(uri) }).map(|_| ())
}

fn lookup(r: &Registry, did: &str) -> Result<HealthDID, DidError> {
    query(r, QueryMsg::GetHealthDID { health_did: s(did) })
}

#[test]
fn test_register_did() {
    let (mut deps, res) = instantiate(CHAIN, InstantiateMsg {});
    assert_eq!(0, res.messages.len());

    let msg = ExecuteMsg::RegisterDID {
        health_did: "123456".to_string(),
        uri: "ipfs://example".to_string(),
    };
    let res = execute(&mut deps, "creator".to_string(), msg).unwrap();
    assert_eq!(0, res.messages.len());

    let msg = QueryMsg::GetHealthDID {
        health_did: "123456".to_string(),
    };
    let did = query(&deps, msg).unwrap();
    assert_eq!(did.health_did, "123456");
}

#[test]
fn responses_carry_method_label() {
    let (mut r, res) = instantiate(CHAIN, InstantiateMsg {});
    assert_eq!(res.attributes, vec![(s("method"), s("instantiate"))]);
    let res = execute(&mut r, s("a"), ExecuteMsg::RegisterDID { health_did: s("123456x"), uri: s("u") }).unwrap();
    assert_eq!(res.attributes, vec![(s("method"), s("register_did"))]);
    let res = execute(&mut r, s("a"), ExecuteMsg::AddAltData { health_did: s("123456x"), uris: vec![s("v")] }).unwrap();
    assert_eq!(res.attributes, vec![(s("method"), s("add_alt_data"))]);
}

#[test]
fn end_to_end_transfer_scenario() {
    let mut r = fresh();
    register(&mut r, "A", "123456xyz", "ipfs://a").unwrap();
    let rec = lookup(&r, "123456xyz").unwrap();
    assert_eq!(rec.owner, "A");
    assert_eq!(rec.ipfs_uri, "ipfs://a");
    assert_eq!(rec.reputation_score, 10);
    assert!(!rec.has_world_id && !rec.has_polygon_id && !rec.has_social_id);
    assert!(rec.alt_ipfs_uris.is_empty() && rec.delegate_addresses.is_empty());

    execute(&mut r, s("A"), ExecuteMsg::TransferOwnership { new_address: s("B"), health_did: s("123456xyz") }).unwrap();
    assert_eq!(lookup(&r, "123456xyz").unwrap().owner, "B");

    let err = execute(&mut r, s("A"), ExecuteMsg::UpdateDIDData { health_did: s("123456xyz"), uri: s("ipfs://x") });
    assert_eq!(err.err(), Some(DidError::Unauthorized));
    execute(&mut r, s("B"), ExecuteMsg::UpdateDIDData { health_did: s("123456xyz"), uri: s("ipfs://b") }).unwrap();
    assert_eq!(lookup(&r, "123456xyz").unwrap().ipfs_uri, "ipfs://b");
}

#[test]
fn duplicate_registration_rejected() {
    let mut r = fresh();
    register(&mut r, "A", "123456abc", "u").unwrap();
    assert_eq!(register(&mut r, "B", "123456abc", "v"), Err(DidError::AlreadyExists));
    assert_eq!(lookup(&r, "123456abc").unwrap().owner, "A");
}

#[test]
fn malformed_prefix_rejected() {
    for chain in [0u64, 99999, CHAIN] {
        let mut r = instantiate(chain, InstantiateMsg {}).0;
        for who in ["A", "B"] {
            assert_eq!(register(&mut r, who, "99999x", "u"), Err(DidError::InvalidChainScope));
        }
    }
    let mut r = fresh();
    assert_eq!(register(&mut r, "A", "12345", "u"), Err(DidError::InvalidChainScope));
    assert_eq!(register(&mut r, "A", "", "u"), Err(DidError::InvalidChainScope));
    assert_eq!(lookup(&r, "99999x").err(), Some(DidError::NotFound));
}

#[test]
fn wrong_chain_rejected() {
    let mut r = fresh();
    assert_eq!(register(&mut r, "A", "654321abc", "u"), Err(DidError::ChainMismatch));
    assert_eq!(lookup(&r, "654321abc").err(), Some(DidError::NotFound));
}

#[test]
fn chain_id_parsing() {
    assert_eq!(resolve_chain_id("123456xyz"), Ok(123456));
    assert_eq!(resolve_chain_id("000042"), Ok(42));
    assert_eq!(resolve_chain_id("999999"), Ok(999999));
    assert_eq!(resolve_chain_id("12a456"), Err(DidError::InvalidChainScope));
    assert_eq!(resolve_chain_id("1234"), Err(DidError::InvalidChainScope));
}

#[test]
fn non_owner_is_unauthorized_and_changes_nothing() {
    let mut r = fresh();
    register(&mut r, "A", "123456q", "u").unwrap();
    execute(&mut r, s("A"), ExecuteMsg::AddDelegateAddress { peer_address: s("D"), health_did: s("123456q") }).unwrap();
    let msgs = vec![
        ExecuteMsg::UpdateDIDData { health_did: s("123456q"), uri: s("x") },
        ExecuteMsg::AddAltData { health_did: s("123456q"), uris: vec![s("x")] },
        ExecuteMsg::AddDelegateAddress { peer_address: s("E"), health_did: s("123456q") },
        ExecuteMsg::RemoveDelegateAddress { peer_address: s("D"), health_did: s("123456q") },
        ExecuteMsg::TransferOwnership { new_address: s("C"), health_did: s("123456q") },
    ];
    for m in msgs {
        assert_eq!(execute(&mut r, s("C"), m).err(), Some(DidError::Unauthorized));
    }
    let rec = lookup(&r, "123456q").unwrap();
    assert_eq!(rec.owner, "A");
    assert_eq!(rec.ipfs_uri, "u");
    assert!(rec.alt_ipfs_uris.is_empty());
}

#[test]
fn unknown_identity_not_found() {
    let mut r = fresh();
    let err = execute(&mut r, s("A"), ExecuteMsg::UpdateDIDData { health_did: s("123456z"), uri: s("x") });
    assert_eq!(err.err(), Some(DidError::NotFound));
    assert_eq!(lookup(&r, "123456z").err(), Some(DidError::NotFound));
}

#[test]
fn self_transfer_rejected() {
    let mut r = fresh();
    register(&mut r, "A", "123456t", "u").unwrap();
    let err = execute(&mut r, s("A"), ExecuteMsg::TransferOwnership { new_address: s("A"), health_did: s("123456t") });
    assert_eq!(err.err(), Some(DidError::SelfTransfer));
    assert_eq!(lookup(&r, "123456t").unwrap().owner, "A");
}

#[test]
fn alt_data_appends_in_order() {
    let mut r = fresh();
    register(&mut r, "A", "123456p", "u").unwrap();
    execute(&mut r, s("A"), ExecuteMsg::AddAltData { health_did: s("123456p"), uris: vec![s("a")] }).unwrap();
    execute(&mut r, s("A"), ExecuteMsg::AddAltData { health_did: s("123456p"), uris: vec![s("b")] }).unwrap();
    assert_eq!(lookup(&r, "123456p").unwrap().alt_ipfs_uris, vec![s("a"), s("b")]);
    execute(&mut r, s("A"), ExecuteMsg::AddAltData { health_did: s("123456p"), uris: vec![s("a")] }).unwrap();
    assert_eq!(lookup(&r, "123456p").unwrap().alt_ipfs_uris, vec![s("a"), s("b"), s("a")]);
}

#[test]
fn revoke_is_repeatable() {
    let mut r = fresh();
    register(&mut r, "A", "123456d", "u").unwrap();
    let remove = || ExecuteMsg::RemoveDelegateAddress { peer_address: s("D"), health_did: s("123456d") };
    assert_eq!(execute(&mut r, s("A"), remove()).err(), Some(DidError::NotADelegate));
    execute(&mut r, s("A"), ExecuteMsg::AddDelegateAddress { peer_address: s("D"), health_did: s("123456d") }).unwrap();
    assert!(execute(&mut r, s("A"), remove()).is_ok());
    assert!(execute(&mut r, s("A"), remove()).is_ok());
}

#[test]
fn bytes32_pads_and_truncates() {
    let b = string_to_bytes32("ab");
    assert_eq!(b.len(), 32);
    assert_eq!(&b[..3], &[97, 98, 0]);
    let long = "x".repeat(40);
    assert_eq!(string_to_bytes32(&long), vec![120u8; 32]);
}

#[test]
fn errors_have_messages() {
    assert_eq!(DidError::SelfTransfer.message(), "Cannot transfer ownership to existing owner");
    assert_eq!(DidError::NotADelegate.message(), "This address isn't a delegate address");
    assert_eq!(DidError::AlreadyExists.message(), "DID already exists");
}

#[test]
fn snapshot_round_trip() {
    let mut r = fresh();
    register(&mut r, "A", "123456r", "u").unwrap();
    execute(&mut r, s("A"), ExecuteMsg::AddDelegateAddress { peer_address: s("D"), health_did: s("123456r") }).unwrap();
    let (chain, owners, records, delegates) = r.into_parts();
    assert_eq!(chain, CHAIN);
    assert_eq!(owners, vec![(s("123456r"), s("A"))]);
    let mut back = Registry::from_parts(chain, owners, records, delegates).unwrap();
    assert_eq!(lookup(&back, "123456r").unwrap().owner, "A");
    let remove = ExecuteMsg::RemoveDelegateAddress { peer_address: s("D"), health_did: s("123456r") };
    assert!(execute(&mut back, s("A"), remove).is_ok());
    assert!(Registry::from_parts(CHAIN, vec![(s("123456r"), s("A"))], vec![], vec![]).is_none());
}

#[test]
fn account_holds_one_identity() {
    let mut r = fresh();
    register(&mut r, "A", "123456a", "ipfs://a").unwrap();
    assert_eq!(register(&mut r, "A", "123456b", "ipfs://b"), Err(DidError::AlreadyExists));
    let rec = lookup(&r, "123456a").unwrap();
    assert_eq!(rec.health_did, "123456a");
    assert_eq!(rec.ipfs_uri, "ipfs://a");
    assert_eq!(lookup(&r, "123456b").err(), Some(DidError::NotFound));
}

#[test]
fn transfer_to_record_holder_rejected() {
    let mut r = fresh();
    register(&mut r, "A", "123456a", "ipfs://a").unwrap();
    register(&mut r, "B", "123456b", "ipfs://b").unwrap();
    let err = execute(&mut r, s("A"), ExecuteMsg::TransferOwnership { new_address: s("B"), health_did: s("123456a") });
    assert_eq!(err.err(), Some(DidError::AlreadyExists));
    assert_eq!(lookup(&r, "123456a").unwrap().owner, "A");
    assert_eq!(lookup(&r, "123456b").unwrap().ipfs_uri, "ipfs://b");
}

#[test]
fn transfer_moves_record_and_back() {
    let mut r = fresh();
    register(&mut r, "A", "123456m", "ipfs://m").unwrap();
    execute(&mut r, s("A"), ExecuteMsg::TransferOwnership { new_address: s("B"), health_did: s("123456m") }).unwrap();
    register(&mut r, "A", "123456n", "ipfs://n").unwrap();
    assert_eq!(lookup(&r, "123456m").unwrap().owner, "B");
    assert_eq!(lookup(&r, "123456n").unwrap().owner, "A");

    let mut r = fresh();
    register(&mut r, "A", "123456m", "ipfs://m").unwrap();
    execute(&mut r, s("A"), ExecuteMsg::TransferOwnership { new_address: s("B"), health_did: s("123456m") }).unwrap();
    execute(&mut r, s("B"), ExecuteMsg::TransferOwnership { new_address: s("A"), health_did: s("123456m") }).unwrap();
    let rec = lookup(&r, "123456m").unwrap();
    assert_eq!(rec.owner, "A");
    assert_eq!(rec.ipfs_uri, "ipfs://m");
    let (_, owners, records, _) = r.into_parts();
    assert_eq!(owners, vec![(s("123456m"), s("A"))]);
    assert_eq!(records.len(), 1);
    assert_eq!(records[0].0, "A");
}

#[test]
fn snapshot_with_stray_record_refused() {
    let mut r = fresh();
    register(&mut r, "A", "123456r", "u").unwrap();
    let (chain, owners, mut records, delegates) = r.into_parts();
    let mut stray = records[0].1.duplicate();
    stray.owner = s("C");
    records.push((s("C"), stray));
    assert!(Registry::from_parts(chain, owners, records, delegates).is_none());
}
