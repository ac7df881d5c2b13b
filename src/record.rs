use vstd::prelude::*;

verus! {

/// The views of a sequence of strings.
pub open spec fn strings_view(v: Seq<String>) -> Seq<Seq<char>> {
    v.map_values(|s: String| s@)
}

/// An identity record, owned by one account.
pub struct HealthDID {
    pub owner: String,
    pub delegate_addresses: Vec<String>,
    pub health_did: String,
    pub ipfs_uri: String,
    pub alt_ipfs_uris: Vec<String>,
    pub reputation_score: u8,
    pub has_world_id: bool,
    pub has_polygon_id: bool,
    pub has_social_id: bool,
}

pub struct RecordView {
    pub owner: Seq<char>,
    pub delegate_addresses: Seq<Seq<char>>,
    pub health_did: Seq<char>,
    pub ipfs_uri: Seq<char>,
    pub alt_ipfs_uris: Seq<Seq<char>>,
    pub reputation_score: u8,
    pub has_world_id: bool,
    pub has_polygon_id: bool,
    pub has_social_id: bool,
}

impl View for HealthDID {
    type V = RecordView;

    open spec fn view(&self) -> RecordView {
        RecordView {
            owner: self.owner@,
            delegate_addresses: strings_view(self.delegate_addresses@),
            health_did: self.health_did@,
            ipfs_uri: self.ipfs_uri@,
            alt_ipfs_uris: strings_view(self.alt_ipfs_uris@),
            reputation_score: self.reputation_score,
            has_world_id: self.has_world_id,
            has_polygon_id: self.has_polygon_id,
            has_social_id: self.has_social_id,
        }
    }
}

/// Trust score that a newly registered identity starts with.
pub const INITIAL_TRUST_SCORE: u8 = 10;

/// The record that registration creates.
pub open spec fn fresh_record(owner: Seq<char>, did: Seq<char>, uri: Seq<char>) -> RecordView {
    RecordView {
        owner,
        delegate_addresses: Seq::empty(),
        health_did: did,
        ipfs_uri: uri,
        alt_ipfs_uris: Seq::empty(),
        reputation_score: INITIAL_TRUST_SCORE,
        has_world_id: false,
        has_polygon_id: false,
        has_social_id: false,
    }
}

pub fn clone_strings(v: &Vec<String>) -> (r: Vec<String>)
    ensures
        r@ == v@,
{
    let mut r: Vec<String> = Vec::new();
    let mut i: usize = 0;
    while i < v.len()
        invariant
            i <= v@.len(),
            r@ == v@.subrange(0, i as int),
        decreases v@.len() - i,
    {
        r.push(v[i].clone());
        i = i + 1;
        assert(r@ =~= v@.subrange(0, i as int));
    }
    assert(r@ =~= v@);
    r
}

impl HealthDID {
    pub fn new_registered(owner: String, health_did: String, ipfs_uri: String) -> (r: HealthDID)
        ensures
            r@ == fresh_record(owner@, health_did@, ipfs_uri@),
    {
        let r = HealthDID {
            owner,
            delegate_addresses: Vec::new(),
            health_did,
            ipfs_uri,
            alt_ipfs_uris: Vec::new(),
            reputation_score: INITIAL_TRUST_SCORE,
            has_world_id: false,
            has_polygon_id: false,
            has_social_id: false,
        };
        assert(r@.delegate_addresses =~= Seq::<Seq<char>>::empty());
        assert(r@.alt_ipfs_uris =~= Seq::<Seq<char>>::empty());
        r
    }

    pub fn duplicate(&self) -> (r: HealthDID)
        ensures
            r@ == self@,
    {
        HealthDID {
            owner: self.owner.clone(),
            delegate_addresses: clone_strings(&self.delegate_addresses),
            health_did: self.health_did.clone(),
            ipfs_uri: self.ipfs_uri.clone(),
            alt_ipfs_uris: clone_strings(&self.alt_ipfs_uris),
            reputation_score: self.reputation_score,
            has_world_id: self.has_world_id,
            has_polygon_id: self.has_polygon_id,
            has_social_id: self.has_social_id,
        }
    }
}

} // verus!
