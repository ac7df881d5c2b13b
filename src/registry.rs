use vstd::prelude::*;

use crate::chain::{chain_scope, resolve_chain_id};
use crate::error::DidError;
use crate::record::{fresh_record, strings_view, HealthDID, RecordView};
use crate::table::{load, KeyEq, Table};
use vstd::string::StringSliceAdditionalSpecFns;

verus! {

/// Key of the delegate relation: a delegate account and an identity string.
pub struct DelegateKey {
    pub peer: String,
    pub did: String,
}

impl View for DelegateKey {
    type V = (Seq<char>, Seq<char>);

    open spec fn view(&self) -> (Seq<char>, Seq<char>) {
        (self.peer@, self.did@)
    }
}

impl KeyEq for DelegateKey {
    fn key_eq(&self, other: &Self) -> (r: bool) {
        self.peer == other.peer && self.did == other.did
    }
}

/// The registry's state: the chain it serves and its three tables.
pub struct RegistryView {
    pub chain_id: u64,
    /// identity string -> owning account
    pub owners: Map<Seq<char>, Seq<char>>,
    /// owning account -> record
    pub records: Map<Seq<char>, RecordView>,
    /// (delegate account, identity string) -> active
    pub delegates: Map<(Seq<char>, Seq<char>), bool>,
}

pub struct Registry {
    chain_id: u64,
    owners: Table<String, String>,
    records: Table<String, HealthDID>,
    delegates: Table<DelegateKey, bool>,
}

impl View for Registry {
    type V = RegistryView;

    closed spec fn view(&self) -> RegistryView {
        RegistryView {
            chain_id: self.chain_id,
            owners: self.owners@,
            records: self.records@,
            delegates: self.delegates@,
        }
    }
}

/// One record per registered identity: each identity's record is kept under
/// its current owner and names that identity, and each record is kept under
/// the account in its `owner` field, which owns the identity it names.
pub open spec fn state_wf(s: RegistryView) -> bool {
    &&& forall|did: Seq<char>| #[trigger]
        s.owners.contains_key(did) ==> s.records.contains_key(s.owners[did])
            && s.records[s.owners[did]].health_did == did
    &&& forall|acct: Seq<char>| #[trigger]
        s.records.contains_key(acct) ==> s.records[acct].owner == acct
            && s.owners.contains_key(s.records[acct].health_did)
            && s.owners[s.records[acct].health_did] == acct
}

/// Who may act on `did`: only its current owner.
pub open spec fn owner_check(s: RegistryView, caller: Seq<char>, did: Seq<char>) -> Result<(), DidError> {
    if !s.owners.contains_key(did) {
        Err(DidError::NotFound)
    } else if s.owners[did] != caller {
        Err(DidError::Unauthorized)
    } else {
        Ok(())
    }
}

pub open spec fn spec_register(s: RegistryView, caller: Seq<char>, did: Seq<char>, uri: Seq<char>) -> Result<RegistryView, DidError> {
    match chain_scope(vstd::utf8::encode_utf8(did)) {
        Err(e) => Err(e),
        Ok(c) => if s.owners.contains_key(did) || s.records.contains_key(caller) {
            Err(DidError::AlreadyExists)
        } else if c != s.chain_id {
            Err(DidError::ChainMismatch)
        } else {
            Ok(RegistryView {
                owners: s.owners.insert(did, caller),
                records: s.records.insert(caller, fresh_record(caller, did, uri)),
                ..s
            })
        },
    }
}

pub open spec fn spec_update_did_data(s: RegistryView, caller: Seq<char>, did: Seq<char>, uri: Seq<char>) -> Result<RegistryView, DidError> {
    match owner_check(s, caller, did) {
        Err(e) => Err(e),
        Ok(_) => Ok(RegistryView {
            records: s.records.insert(caller, RecordView { ipfs_uri: uri, ..s.records[caller] }),
            ..s
        }),
    }
}

pub open spec fn spec_add_alt_data(s: RegistryView, caller: Seq<char>, did: Seq<char>, uris: Seq<Seq<char>>) -> Result<RegistryView, DidError> {
    match owner_check(s, caller, did) {
        Err(e) => Err(e),
        Ok(_) => Ok(RegistryView {
            records: s.records.insert(
                caller,
                RecordView { alt_ipfs_uris: s.records[caller].alt_ipfs_uris + uris, ..s.records[caller] },
            ),
            ..s
        }),
    }
}

pub open spec fn spec_add_delegate(s: RegistryView, caller: Seq<char>, peer: Seq<char>, did: Seq<char>) -> Result<RegistryView, DidError> {
    match owner_check(s, caller, did) {
        Err(e) => Err(e),
        Ok(_) => Ok(RegistryView { delegates: s.delegates.insert((peer, did), true), ..s }),
    }
}

pub open spec fn spec_remove_delegate(s: RegistryView, caller: Seq<char>, peer: Seq<char>, did: Seq<char>) -> Result<RegistryView, DidError> {
    match owner_check(s, caller, did) {
        Err(e) => Err(e),
        Ok(_) => if !s.delegates.contains_key((peer, did)) {
            Err(DidError::NotADelegate)
        } else {
            Ok(RegistryView { delegates: s.delegates.insert((peer, did), false), ..s })
        },
    }
}

/// Transfer moves the identity and its record from the caller's account to
/// `new_owner`, whose `owner` field it then names. An account holds at most one
/// record, so an account that holds one already cannot receive another.
pub open spec fn spec_transfer(s: RegistryView, caller: Seq<char>, new_owner: Seq<char>, did: Seq<char>) -> Result<RegistryView, DidError> {
    match owner_check(s, caller, did) {
        Err(e) => Err(e),
        Ok(_) => if new_owner == caller {
            Err(DidError::SelfTransfer)
        } else if s.records.contains_key(new_owner) {
            Err(DidError::AlreadyExists)
        } else {
            Ok(RegistryView {
                owners: s.owners.insert(did, new_owner),
                records: s.records.remove(caller).insert(new_owner, RecordView { owner: new_owner, ..s.records[caller] }),
                ..s
            })
        },
    }
}

pub open spec fn spec_lookup(s: RegistryView, did: Seq<char>) -> Result<RecordView, DidError> {
    if s.owners.contains_key(did) && s.records.contains_key(s.owners[did]) {
        Ok(s.records[s.owners[did]])
    } else {
        Err(DidError::NotFound)
    }
}

/// `r` and `post` are what `expected` prescribes: its state on success, and
/// on a rejection its error with the state `pre` left as it was.
pub open spec fn applied(pre: RegistryView, post: RegistryView, r: Result<(), DidError>, expected: Result<RegistryView, DidError>) -> bool {
    match expected {
        Ok(s) => r == Ok::<(), DidError>(()) && post == s,
        Err(e) => r == Err::<(), DidError>(e) && post == pre,
    }
}

/// The state that table entries written in order describe.
pub open spec fn restored(
    chain_id: u64,
    owners: Seq<(String, String)>,
    records: Seq<(String, HealthDID)>,
    delegates: Seq<(DelegateKey, bool)>,
) -> RegistryView {
    RegistryView {
        chain_id,
        owners: load(Map::empty(), owners),
        records: load(Map::empty(), records),
        delegates: load(Map::empty(), delegates),
    }
}

impl Registry {
    pub closed spec fn wf(&self) -> bool {
        &&& self.owners.wf()
        &&& self.records.wf()
        &&& self.delegates.wf()
        &&& state_wf(self@)
    }

    /// The identity strings in storage order.
    pub closed spec fn identity_keys(&self) -> Seq<Seq<char>> {
        self.owners.keys()
    }

    /// The stored identity strings are exactly those registered, each once.
    pub proof fn lemma_identity_entries_unique(&self)
        requires
            self.wf(),
        ensures
            forall|i: int, j: int|
                0 <= i < j < self.identity_keys().len() ==> #[trigger] self.identity_keys()[i]
                    != #[trigger] self.identity_keys()[j],
            forall|did: Seq<char>| self@.owners.contains_key(did) <==> #[trigger] self.identity_keys().contains(did),
    {
        self.owners.lemma_keys_unique();
    }

    /// An empty registry serving chain `chain_id`.
    pub fn new(chain_id: u64) -> (r: Registry)
        ensures
            r.wf(),
            r@.chain_id == chain_id,
            r@.owners == Map::<Seq<char>, Seq<char>>::empty(),
            r@.records == Map::<Seq<char>, RecordView>::empty(),
            r@.delegates == Map::<(Seq<char>, Seq<char>), bool>::empty(),
    {
        Registry { chain_id, owners: Table::new(), records: Table::new(), delegates: Table::new() }
    }

    /// Takes the registry apart into its chain identifier and the entries of
    /// its three tables, each key once.
    pub fn into_parts(self) -> (r: (u64, Vec<(String, String)>, Vec<(String, HealthDID)>, Vec<(DelegateKey, bool)>))
        requires
            self.wf(),
        ensures
            r.0 == self@.chain_id,
            forall|i: int| 0 <= i < r.1@.len() ==> self@.owners.contains_key(#[trigger] r.1@[i].0@) && self@.owners[r.1@[i].0@] == r.1@[i].1@,
            forall|i: int| 0 <= i < r.2@.len() ==> self@.records.contains_key(#[trigger] r.2@[i].0@) && self@.records[r.2@[i].0@] == r.2@[i].1@,
            forall|i: int| 0 <= i < r.3@.len() ==> self@.delegates.contains_key(#[trigger] r.3@[i].0@) && self@.delegates[r.3@[i].0@] == r.3@[i].1@,
            forall|k: Seq<char>| #[trigger] self@.owners.contains_key(k) ==> exists|i: int| 0 <= i < r.1@.len() && #[trigger] r.1@[i].0@ == k,
            forall|k: Seq<char>| #[trigger] self@.records.contains_key(k) ==> exists|i: int| 0 <= i < r.2@.len() && #[trigger] r.2@[i].0@ == k,
            forall|k: (Seq<char>, Seq<char>)| #[trigger] self@.delegates.contains_key(k) ==> exists|i: int| 0 <= i < r.3@.len() && #[trigger] r.3@[i].0@ == k,
    {
        let ghost pre = self@;
        let Registry { chain_id, owners, records, delegates } = self;
        let o = owners.into_entries();
        let rc = records.into_entries();
        let d = delegates.into_entries();
        let res = (chain_id, o, rc, d);
        assert forall|k: Seq<char>| #[trigger] pre.owners.contains_key(k) implies exists|i: int|
            0 <= i < res.1@.len() && #[trigger] res.1@[i].0@ == k by {
            let i = choose|i: int| 0 <= i < o@.len() && #[trigger] o@[i].0@ == k;
            assert(res.1@[i].0@ == k);
        }
        assert forall|k: Seq<char>| #[trigger] pre.records.contains_key(k) implies exists|i: int|
            0 <= i < res.2@.len() && #[trigger] res.2@[i].0@ == k by {
            let i = choose|i: int| 0 <= i < rc@.len() && #[trigger] rc@[i].0@ == k;
            assert(res.2@[i].0@ == k);
        }
        assert forall|k: (Seq<char>, Seq<char>)| #[trigger] pre.delegates.contains_key(k) implies exists|i: int|
            0 <= i < res.3@.len() && #[trigger] res.3@[i].0@ == k by {
            let i = choose|i: int| 0 <= i < d@.len() && #[trigger] d@[i].0@ == k;
            assert(res.3@[i].0@ == k);
        }
        res
    }

    /// Rebuilds a registry from table entries written in order. Refused
    /// (`None`) exactly when the tables break `state_wf`.
    pub fn from_parts(
        chain_id: u64,
        owners: Vec<(String, String)>,
        records: Vec<(String, HealthDID)>,
        delegates: Vec<(DelegateKey, bool)>,
    ) -> (r: Option<Registry>)
        ensures
            match r {
                Some(reg) => reg.wf() && reg@ == restored(chain_id, owners@, records@, delegates@),
                None => !state_wf(restored(chain_id, owners@, records@, delegates@)),
            },
    {
        let ghost expected = restored(chain_id, owners@, records@, delegates@);
        let owners = Table::from_entries(owners);
        let records = Table::from_entries(records);
        let delegates = Table::from_entries(delegates);
        let reg = Registry { chain_id, owners, records, delegates };
        assert(reg@ == expected);
        if reg.linked() {
            Some(reg)
        } else {
            None
        }
    }

    pub fn chain_id(&self) -> (r: u64)
        ensures
            r == self@.chain_id,
    {
        self.chain_id
    }

    fn check_owner(&self, caller: &String, did: &String) -> (r: Result<(), DidError>)
        requires
            self.wf(),
        ensures
            r == owner_check(self@, caller@, did@),
    {
        match self.owners.get(did) {
            None => Err(DidError::NotFound),
            Some(owner) => if *owner == *caller {
                Ok(())
            } else {
                Err(DidError::Unauthorized)
            },
        }
    }

    /// Whether the tables, each well formed, satisfy `state_wf`.
    fn linked(&self) -> (r: bool)
        requires
            self.owners.wf(),
            self.records.wf(),
        ensures
            r == state_wf(self@),
    {
        proof {
            self.owners.lemma_keys_unique();
            self.records.lemma_keys_unique();
        }
        let mut i: usize = 0;
        while i < self.owners.len()
            invariant
                self.owners.wf(),
                self.records.wf(),
                i <= self.owners.keys().len(),
                forall|did: Seq<char>| self@.owners.contains_key(did) <==> #[trigger] self.owners.keys().contains(did),
                forall|j: int| 0 <= j < i ==> {
                    let did = #[trigger] self.owners.keys()[j];
                    self@.records.contains_key(self@.owners[did]) && self@.records[self@.owners[did]].health_did == did
                },
            decreases self.owners.keys().len() - i,
        {
            let (did, owner) = self.owners.entry(i);
            let ok = match self.records.get(owner) {
                None => false,
                Some(rec) => rec.health_did == *did,
            };
            if !ok {
                assert(self.owners.keys().contains(did@));
                return false;
            }
            i = i + 1;
        }
        let mut i: usize = 0;
        while i < self.records.len()
            invariant
                self.owners.wf(),
                self.records.wf(),
                i <= self.records.keys().len(),
                forall|a: Seq<char>| self@.records.contains_key(a) <==> #[trigger] self.records.keys().contains(a),
                forall|j: int| 0 <= j < i ==> {
                    let acct = #[trigger] self.records.keys()[j];
                    self@.records[acct].owner == acct && self@.owners.contains_key(self@.records[acct].health_did)
                        && self@.owners[self@.records[acct].health_did] == acct
                },
            decreases self.records.keys().len() - i,
        {
            let (acct, rec) = self.records.entry(i);
            let ok = rec.owner == *acct && match self.owners.get(&rec.health_did) {
                None => false,
                Some(o) => *o == *acct,
            };
            if !ok {
                assert(self.records.keys().contains(acct@));
                return false;
            }
            i = i + 1;
        }
        assert forall|did: Seq<char>| #[trigger] self@.owners.contains_key(did) implies self@.records.contains_key(
            self@.owners[did]) && self@.records[self@.owners[did]].health_did == did by {
            assert(self.owners.keys().contains(did));
            let j = choose|j: int| 0 <= j < self.owners.keys().len() && self.owners.keys()[j] == did;
            assert(self.owners.keys()[j] == did);
        }
        assert forall|a: Seq<char>| #[trigger] self@.records.contains_key(a) implies self@.records[a].owner == a
            && self@.owners.contains_key(self@.records[a].health_did) && self@.owners[self@.records[a].health_did] == a by {
            assert(self.records.keys().contains(a));
            let j = choose|j: int| 0 <= j < self.records.keys().len() && self.records.keys()[j] == a;
            assert(self.records.keys()[j] == a);
        }
        true
    }

    /// What well-formedness tells a caller about the state.
    pub proof fn lemma_wf_state(&self)
        requires
            self.wf(),
        ensures
            state_wf(self@),
    {
    }

    /// Registers `health_did` to `caller` with document `uri`. An account
    /// holds at most one identity.
    pub fn register_did(&mut self, caller: String, health_did: String, uri: String) -> (r: Result<(), DidError>)
        requires
            old(self).wf(),
        ensures
            final(self).wf(),
            applied(old(self)@, final(self)@, r, spec_register(old(self)@, caller@, health_did@, uri@)),
    {
        let chain = resolve_chain_id(health_did.as_str());
        match chain {
            Err(e) => Err(e),
            Ok(c) => {
                if self.owners.contains(&health_did) || self.records.contains(&caller) {
                    return Err(DidError::AlreadyExists);
                }
                if c != self.chain_id {
                    return Err(DidError::ChainMismatch);
                }
                let record = HealthDID::new_registered(caller.clone(), health_did.clone(), uri);
                self.owners.insert(health_did, caller.clone());
                self.records.insert(caller, record);
                Ok(())
            },
        }
    }

    /// Replaces the document pointer of `health_did`.
    pub fn update_did_data(&mut self, caller: String, health_did: String, uri: String) -> (r: Result<(), DidError>)
        requires
            old(self).wf(),
        ensures
            final(self).wf(),
            applied(old(self)@, final(self)@, r, spec_update_did_data(old(self)@, caller@, health_did@, uri@)),
    {
        match self.check_owner(&caller, &health_did) {
            Err(e) => Err(e),
            Ok(_) => {
                let mut record = self.records.get(&caller).unwrap().duplicate();
                record.ipfs_uri = uri;
                self.records.insert(caller, record);
                Ok(())
            },
        }
    }

    /// Appends `uris` to the alternative document pointers of `health_did`.
    pub fn add_alt_data(&mut self, caller: String, health_did: String, uris: Vec<String>) -> (r: Result<(), DidError>)
        requires
            old(self).wf(),
        ensures
            final(self).wf(),
            applied(old(self)@, final(self)@, r, spec_add_alt_data(old(self)@, caller@, health_did@, strings_view(uris@))),
    {
        match self.check_owner(&caller, &health_did) {
            Err(e) => Err(e),
            Ok(_) => {
                let mut record = self.records.get(&caller).unwrap().duplicate();
                let ghost before = record.alt_ipfs_uris@;
                let mut more = uris;
                record.alt_ipfs_uris.append(&mut more);
                assert(strings_view(record.alt_ipfs_uris@) =~= strings_view(before) + strings_view(uris@));
                self.records.insert(caller, record);
                Ok(())
            },
        }
    }

    /// Marks `peer_address` as an active delegate of `health_did`.
    pub fn add_delegate_address(&mut self, caller: String, peer_address: String, health_did: String) -> (r: Result<(), DidError>)
        requires
            old(self).wf(),
        ensures
            final(self).wf(),
            applied(old(self)@, final(self)@, r, spec_add_delegate(old(self)@, caller@, peer_address@, health_did@)),
    {
        match self.check_owner(&caller, &health_did) {
            Err(e) => Err(e),
            Ok(_) => {
                self.delegates.insert(DelegateKey { peer: peer_address, did: health_did }, true);
                Ok(())
            },
        }
    }

    /// Revokes the delegate relation of `peer_address` over `health_did`,
    /// keeping the relation's key.
    pub fn remove_delegate_address(&mut self, caller: String, peer_address: String, health_did: String) -> (r: Result<(), DidError>)
        requires
            old(self).wf(),
        ensures
            final(self).wf(),
            applied(old(self)@, final(self)@, r, spec_remove_delegate(old(self)@, caller@, peer_address@, health_did@)),
    {
        match self.check_owner(&caller, &health_did) {
            Err(e) => Err(e),
            Ok(_) => {
                let key = DelegateKey { peer: peer_address, did: health_did };
                if !self.delegates.contains(&key) {
                    return Err(DidError::NotADelegate);
                }
                self.delegates.insert(key, false);
                Ok(())
            },
        }
    }

    /// Hands `health_did` over to `new_address`.
    pub fn transfer_ownership(&mut self, caller: String, new_address: String, health_did: String) -> (r: Result<(), DidError>)
        requires
            old(self).wf(),
        ensures
            final(self).wf(),
            applied(old(self)@, final(self)@, r, spec_transfer(old(self)@, caller@, new_address@, health_did@)),
    {
        match self.check_owner(&caller, &health_did) {
            Err(e) => Err(e),
            Ok(_) => {
                if new_address == caller {
                    return Err(DidError::SelfTransfer);
                }
                if self.records.contains(&new_address) {
                    return Err(DidError::AlreadyExists);
                }
                let mut record = self.records.get(&caller).unwrap().duplicate();
                record.owner = new_address.clone();
                self.owners.insert(health_did, new_address.clone());
                self.records.remove(&caller);
                self.records.insert(new_address, record);
                Ok(())
            },
        }
    }

    /// The record of `health_did`, reached through its current owner.
    pub fn health_did(&self, health_did: &String) -> (r: Result<HealthDID, DidError>)
        requires
            self.wf(),
        ensures
            match spec_lookup(self@, health_did@) {
                Ok(v) => r.is_ok() && r.unwrap()@ == v,
                Err(e) => r == Err::<HealthDID, DidError>(e),
            },
    {
        match self.owners.get(health_did) {
            None => Err(DidError::NotFound),
            Some(owner) => match self.records.get(owner) {
                None => Err(DidError::NotFound),
                Some(record) => Ok(record.duplicate()),
            },
        }
    }
}

} // verus!
