//! The NFT registry: mints uniquely-identified collectible records, tracks
//! ownership, and keeps an owner index consistent with the records.

use vstd::prelude::*;

use crate::errors::NftErrorCode;
use crate::types::clone_bytes;

verus! {

/// Mathematical view of an [`NftMetadata`].
#[verifier::ext_equal]
pub struct NftMetadataView {
    pub title: Seq<u8>,
    pub description: Seq<u8>,
    pub image_uri: Seq<u8>,
    pub hunt_title: Seq<u8>,
    pub rarity: u32,
    pub tier: u32,
}

/// Display metadata of a collectible. `description` and `image_uri` stay
/// mutable for the owner; the rest is fixed at mint time.
#[derive(Debug)]
pub struct NftMetadata {
    pub title: Vec<u8>,
    pub description: Vec<u8>,
    pub image_uri: Vec<u8>,
    /// Hunt title at mint time, for display.
    pub hunt_title: Vec<u8>,
    /// Rarity tier: 0 = default, 1..=5 = common to legendary.
    pub rarity: u32,
    /// Custom tier; 0 = none.
    pub tier: u32,
}

impl View for NftMetadata {
    type V = NftMetadataView;

    open spec fn view(&self) -> NftMetadataView {
        NftMetadataView {
            title: self.title@,
            description: self.description@,
            image_uri: self.image_uri@,
            hunt_title: self.hunt_title@,
            rarity: self.rarity,
            tier: self.tier,
        }
    }
}

impl Clone for NftMetadata {
    /// Copies the metadata; the copy has the same view.
    fn clone(&self) -> (r: Self)
        ensures
            r@ == self@,
    {
        let r = NftMetadata {
            title: clone_bytes(&self.title),
            description: clone_bytes(&self.description),
            image_uri: clone_bytes(&self.image_uri),
            hunt_title: clone_bytes(&self.hunt_title),
            rarity: self.rarity,
            tier: self.tier,
        };
        proof {
            assert(r@ =~= self@);
        }
        r
    }
}

/// Mathematical view of an [`NftData`].
#[verifier::ext_equal]
pub struct NftDataView {
    pub nft_id: u64,
    pub hunt_id: u64,
    pub owner: u64,
    pub completion_player: u64,
    pub metadata: NftMetadataView,
    pub minted_at: u64,
}

/// A minted collectible record.
#[derive(Debug)]
pub struct NftData {
    /// Globally sequential, starting at 1; never reused.
    pub nft_id: u64,
    pub hunt_id: u64,
    pub owner: u64,
    /// The player that completed the hunt; preserved across transfers.
    pub completion_player: u64,
    pub metadata: NftMetadata,
    pub minted_at: u64,
}

impl View for NftData {
    type V = NftDataView;

    open spec fn view(&self) -> NftDataView {
        NftDataView {
            nft_id: self.nft_id,
            hunt_id: self.hunt_id,
            owner: self.owner,
            completion_player: self.completion_player,
            metadata: self.metadata@,
            minted_at: self.minted_at,
        }
    }
}

impl Clone for NftData {
    /// Copies the record; the copy has the same view.
    fn clone(&self) -> (r: Self)
        ensures
            r@ == self@,
    {
        let r = NftData {
            nft_id: self.nft_id,
            hunt_id: self.hunt_id,
            owner: self.owner,
            completion_player: self.completion_player,
            metadata: self.metadata.clone(),
            minted_at: self.minted_at,
        };
        proof {
            assert(r@ =~= self@);
        }
        r
    }
}

/// Mathematical view of an [`NftMetadataResponse`].
#[verifier::ext_equal]
pub struct NftMetadataResponseView {
    pub nft_id: u64,
    pub hunt_id: u64,
    pub hunt_title: Seq<u8>,
    pub completion_timestamp: u64,
    pub completion_player: u64,
    pub current_owner: u64,
    pub title: Seq<u8>,
    pub description: Seq<u8>,
    pub image_uri: Seq<u8>,
    pub rarity: u32,
    pub tier: u32,
}

/// Complete metadata of a collectible, including provenance.
#[derive(Debug)]
pub struct NftMetadataResponse {
    pub nft_id: u64,
    pub hunt_id: u64,
    pub hunt_title: Vec<u8>,
    pub completion_timestamp: u64,
    pub completion_player: u64,
    pub current_owner: u64,
    pub title: Vec<u8>,
    pub description: Vec<u8>,
    pub image_uri: Vec<u8>,
    pub rarity: u32,
    pub tier: u32,
}

impl View for NftMetadataResponse {
    type V = NftMetadataResponseView;

    open spec fn view(&self) -> NftMetadataResponseView {
        NftMetadataResponseView {
            nft_id: self.nft_id,
            hunt_id: self.hunt_id,
            hunt_title: self.hunt_title@,
            completion_timestamp: self.completion_timestamp,
            completion_player: self.completion_player,
            current_owner: self.current_owner,
            title: self.title@,
            description: self.description@,
            image_uri: self.image_uri@,
            rarity: self.rarity,
            tier: self.tier,
        }
    }
}

/// One owner's entry in the owner index.
#[derive(Debug)]
pub struct OwnerNfts {
    pub owner: u64,
    /// Ids currently owned, in acquisition order.
    pub nft_ids: Vec<u64>,
}

/// Copies a vector of NFT ids.
fn clone_u64s(v: &Vec<u64>) -> (r: Vec<u64>)
    ensures
        r@ == v@,
{
    let mut r: Vec<u64> = Vec::new();
    let mut i: usize = 0;
    while i < v.len()
        invariant
            0 <= i <= v@.len(),
            r@ =~= v@.subrange(0, i as int),
        decreases v@.len() - i,
    {
        r.push(v[i]);
        i = i + 1;
    }
    proof {
        assert(r@ =~= v@);
    }
    r
}

/// Finds the index of an owner's entry in the owner index.
fn find_owner_index(list: &Vec<OwnerNfts>, owner: u64) -> (r: Option<usize>)
    ensures
        match r {
            Some(a) => a < list@.len() && list@[a as int].owner == owner,
            None => forall|a: int| 0 <= a < list@.len() ==> (#[trigger] list@[a]).owner != owner,
        },
{
    let mut a: usize = 0;
    while a < list.len()
        invariant
            0 <= a <= list@.len(),
            forall|m: int| 0 <= m < a ==> (#[trigger] list@[m]).owner != owner,
        decreases list@.len() - a,
    {
        if list[a].owner == owner {
            return Some(a);
        }
        a = a + 1;
    }
    None
}

/// The metadata that a mint from an open-ended bag resolves to: missing
/// fields fall back to their defaults, a missing hunt title to the title.
pub open spec fn spec_metadata_from_map(
    title: Option<Vec<u8>>,
    description: Option<Vec<u8>>,
    image_uri: Option<Vec<u8>>,
    hunt_title: Option<Vec<u8>>,
    rarity: Option<u32>,
    tier: Option<u32>,
) -> NftMetadataView {
    let t = match title {
        Some(t) => t@,
        None => Seq::empty(),
    };
    NftMetadataView {
        title: t,
        description: match description {
            Some(d) => d@,
            None => Seq::empty(),
        },
        image_uri: match image_uri {
            Some(u) => u@,
            None => Seq::empty(),
        },
        hunt_title: match hunt_title {
            Some(h) => h@,
            None => t,
        },
        rarity: match rarity {
            Some(x) => x,
            None => 0,
        },
        tier: match tier {
            Some(x) => x,
            None => 0,
        },
    }
}

/// The NFT registry: the records by id, and an index from owner to the ids
/// it currently holds.
pub struct NftReward {
    /// The record with id `i + 1` lives at index `i`.
    pub nfts: Vec<NftData>,
    /// Owner index; one entry per owner that ever held a record.
    pub owners: Vec<OwnerNfts>,
}

impl NftReward {
    /// Structural invariant: ids are sequential, the owner index is keyed
    /// uniquely, and the index and the records agree on ownership.
    pub open spec fn wf(self) -> bool {
        &&& forall|i: int| 0 <= i < self.nfts@.len() ==> (#[trigger] self.nfts@[i]).nft_id == i + 1
        &&& forall|a: int, b: int|
            0 <= a < self.owners@.len() && 0 <= b < self.owners@.len() && a != b ==> (
            #[trigger] self.owners@[a]).owner != (#[trigger] self.owners@[b]).owner
        &&& forall|a: int, m: int|
            0 <= a < self.owners@.len() && 0 <= m < self.owners@[a].nft_ids@.len() ==> 1 <= (
            #[trigger] self.owners@[a].nft_ids@[m]) <= self.nfts@.len()
                && self.nfts@[self.owners@[a].nft_ids@[m] - 1].owner == self.owners@[a].owner
        &&& forall|a: int|
            0 <= a < self.owners@.len() ==> (#[trigger] self.owners@[a]).nft_ids@.no_duplicates()
        &&& forall|i: int|
            0 <= i < self.nfts@.len() ==> self.spec_owner_ids(
                (#[trigger] self.nfts@[i]).owner,
            ).contains((i + 1) as u64)
    }

    /// Tells whether the owner index holds an entry for this owner.
    pub open spec fn has_owner_entry(self, owner: u64) -> bool {
        exists|a: int|
            0 <= a < self.owners@.len() && (#[trigger] self.owners@[a]).owner == owner
    }

    /// Index of the owner's entry; meaningful only when it exists.
    pub open spec fn spec_owner_idx(self, owner: u64) -> int {
        choose|a: int|
            0 <= a < self.owners@.len() && (#[trigger] self.owners@[a]).owner == owner
    }

    /// The ids this owner currently holds, in acquisition order.
    pub open spec fn spec_owner_ids(self, owner: u64) -> Seq<u64> {
        if self.has_owner_entry(owner) {
            self.owners@[self.spec_owner_idx(owner)].nft_ids@
        } else {
            Seq::empty()
        }
    }

    /// Number of records minted so far.
    pub open spec fn spec_total_supply(self) -> nat {
        self.nfts@.len()
    }

    /// Tells whether a record with this id exists.
    pub open spec fn has_nft(self, nft_id: u64) -> bool {
        1 <= nft_id <= self.nfts@.len()
    }

    /// View of the record with this id; meaningful only when it exists.
    pub open spec fn spec_nft(self, nft_id: u64) -> NftDataView {
        self.nfts@[nft_id - 1]@
    }

    /// A fresh registry with no record.
    pub fn new() -> (r: NftReward)
        ensures
            r.wf(),
            r.spec_total_supply() == 0,
            r.nfts@.len() == 0,
            r.owners@.len() == 0,
    {
        NftReward { nfts: Vec::new(), owners: Vec::new() }
    }



    /// Mints a reward collectible from an open-ended metadata bag, the entry
    /// point for cross-service callers that do not share this crate's
    /// metadata type. The host decodes the bag and passes each recognised
    /// field; a missing field falls back to its default, and a missing hunt
    /// title falls back to the title.
    pub fn mint_reward_nft_from_map(
        &mut self,
        hunt_id: u64,
        player_address: u64,
        title: Option<Vec<u8>>,
        description: Option<Vec<u8>>,
        image_uri: Option<Vec<u8>>,
        hunt_title: Option<Vec<u8>>,
        rarity: Option<u32>,
        tier: Option<u32>,
        now: u64,
    ) -> (r: u64)
        requires
            old(self).wf(),
            old(self).spec_total_supply() < u64::MAX,
        ensures
            final(self).wf(),
            r == old(self).spec_total_supply() + 1,
            final(self).spec_total_supply() == old(self).spec_total_supply() + 1,
            final(self).nfts@.subrange(0, old(self).nfts@.len() as int) == old(self).nfts@,
            final(self).spec_nft(r) == (NftDataView {
                nft_id: r,
                hunt_id,
                owner: player_address,
                completion_player: player_address,
                metadata: spec_metadata_from_map(
                    title,
                    description,
                    image_uri,
                    hunt_title,
                    rarity,
                    tier,
                ),
                minted_at: now,
            }),
            final(self).spec_owner_ids(player_address) == old(self).spec_owner_ids(
                player_address,
            ).push(r),
            forall|o: u64|
                o != player_address ==> final(self).spec_owner_ids(o) == old(
                    self,
                ).spec_owner_ids(o),
    {
        let title = match title {
            Some(t) => t,
            None => Vec::new(),
        };
        let hunt_title = match hunt_title {
            Some(h) => h,
            None => clone_bytes(&title),
        };
        let meta = NftMetadata {
            title,
            description: match description {
                Some(d) => d,
                None => Vec::new(),
            },
            image_uri: match image_uri {
                Some(u) => u,
                None => Vec::new(),
            },
            hunt_title,
            rarity: match rarity {
                Some(x) => x,
                None => 0,
            },
            tier: match tier {
                Some(x) => x,
                None => 0,
            },
        };
        self.mint_reward_nft(hunt_id, player_address, meta, now)
    }

    /// Returns a copy of the record with this id.
    pub fn get_nft(&self, nft_id: u64) -> (r: Option<NftData>)
        requires
            self.wf(),
        ensures
            match r {
                Some(n) => self.has_nft(nft_id) && n@ == self.spec_nft(nft_id),
                None => !self.has_nft(nft_id),
            },
    {
        if nft_id == 0 || nft_id > self.nfts.len() as u64 {
            return None;
        }
        Some(self.nfts[(nft_id - 1) as usize].clone())
    }

    /// Returns the complete metadata of a record, provenance included.
    pub fn get_nft_metadata(&self, nft_id: u64) -> (r: Option<NftMetadataResponse>)
        requires
            self.wf(),
        ensures
            match r {
                Some(m) => self.has_nft(nft_id) && m@ == (NftMetadataResponseView {
                    nft_id,
                    hunt_id: self.spec_nft(nft_id).hunt_id,
                    hunt_title: self.spec_nft(nft_id).metadata.hunt_title,
                    completion_timestamp: self.spec_nft(nft_id).minted_at,
                    completion_player: self.spec_nft(nft_id).completion_player,
                    current_owner: self.spec_nft(nft_id).owner,
                    title: self.spec_nft(nft_id).metadata.title,
                    description: self.spec_nft(nft_id).metadata.description,
                    image_uri: self.spec_nft(nft_id).metadata.image_uri,
                    rarity: self.spec_nft(nft_id).metadata.rarity,
                    tier: self.spec_nft(nft_id).metadata.tier,
                }),
                None => !self.has_nft(nft_id),
            },
    {
        if nft_id == 0 || nft_id > self.nfts.len() as u64 {
            return None;
        }
        let n = &self.nfts[(nft_id - 1) as usize];
        let m = NftMetadataResponse {
            nft_id: n.nft_id,
            hunt_id: n.hunt_id,
            hunt_title: clone_bytes(&n.metadata.hunt_title),
            completion_timestamp: n.minted_at,
            completion_player: n.completion_player,
            current_owner: n.owner,
            title: clone_bytes(&n.metadata.title),
            description: clone_bytes(&n.metadata.description),
            image_uri: clone_bytes(&n.metadata.image_uri),
            rarity: n.metadata.rarity,
            tier: n.metadata.tier,
        };
        proof {
            assert(m@ =~= (NftMetadataResponseView {
                nft_id,
                hunt_id: self.spec_nft(nft_id).hunt_id,
                hunt_title: self.spec_nft(nft_id).metadata.hunt_title,
                completion_timestamp: self.spec_nft(nft_id).minted_at,
                completion_player: self.spec_nft(nft_id).completion_player,
                current_owner: self.spec_nft(nft_id).owner,
                title: self.spec_nft(nft_id).metadata.title,
                description: self.spec_nft(nft_id).metadata.description,
                image_uri: self.spec_nft(nft_id).metadata.image_uri,
                rarity: self.spec_nft(nft_id).metadata.rarity,
                tier: self.spec_nft(nft_id).metadata.tier,
            }));
        }
        Some(m)
    }

    /// Updates the mutable display fields (description and image reference)
    /// of a record; only its current owner may do so.
    pub fn update_nft_metadata(
        &mut self,
        nft_id: u64,
        updater: u64,
        new_description: Vec<u8>,
        new_image_uri: Vec<u8>,
    ) -> (r: Result<(), NftErrorCode>)
        requires
            old(self).wf(),
        ensures
            final(self).wf(),
            !old(self).has_nft(nft_id) ==> r == Err::<(), NftErrorCode>(NftErrorCode::NftNotFound)
                && *final(self) == *old(self),
            old(self).has_nft(nft_id) && old(self).spec_nft(nft_id).owner != updater ==> r
                == Err::<(), NftErrorCode>(NftErrorCode::NotOwner) && *final(self) == *old(self),
            old(self).has_nft(nft_id) && old(self).spec_nft(nft_id).owner == updater ==> {
                &&& r == Ok::<(), NftErrorCode>(())
                &&& final(self).nfts@.len() == old(self).nfts@.len()
                &&& final(self).spec_nft(nft_id) == (NftDataView {
                    metadata: (NftMetadataView {
                        description: new_description@,
                        image_uri: new_image_uri@,
                        ..old(self).spec_nft(nft_id).metadata
                    }),
                    ..old(self).spec_nft(nft_id)
                })
                &&& forall|j: int|
                    0 <= j < old(self).nfts@.len() && j != nft_id - 1 ==> final(self).nfts@[j]
                        == old(self).nfts@[j]
                &&& final(self).owners == old(self).owners
            },
    {
        if nft_id == 0 || nft_id > self.nfts.len() as u64 {
            return Err(NftErrorCode::NftNotFound);
        }
        let idx = (nft_id - 1) as usize;
        if self.nfts[idx].owner != updater {
            return Err(NftErrorCode::NotOwner);
        }
        let n = &mut self.nfts[idx];
        n.metadata.description = new_description;
        n.metadata.image_uri = new_image_uri;
        proof {
            assert(self.spec_nft(nft_id) =~= (NftDataView {
                metadata: (NftMetadataView {
                    description: new_description@,
                    image_uri: new_image_uri@,
                    ..old(self).spec_nft(nft_id).metadata
                }),
                ..old(self).spec_nft(nft_id)
            }));
            assert forall|i: int|
                0 <= i < self.nfts@.len() implies self.spec_owner_ids(
                (#[trigger] self.nfts@[i]).owner,
            ).contains((i + 1) as u64) by {
                assert(self.owners == old(self).owners);
                assert(self.nfts@[i].owner == old(self).nfts@[i].owner);
                assert(old(self).spec_owner_ids(old(self).nfts@[i].owner).contains(
                    (i + 1) as u64,
                ));
            }
        }
        Ok(())
    }

    /// Returns the number of records minted so far.
    pub fn total_supply(&self) -> (r: u64)
        requires
            self.wf(),
        ensures
            r == self.spec_total_supply(),
    {
        self.nfts.len() as u64
    }

    /// Returns the current owner of a record.
    pub fn owner_of(&self, nft_id: u64) -> (r: Option<u64>)
        requires
            self.wf(),
        ensures
            match r {
                Some(o) => self.has_nft(nft_id) && o == self.spec_nft(nft_id).owner,
                None => !self.has_nft(nft_id),
            },
    {
        if nft_id == 0 || nft_id > self.nfts.len() as u64 {
            return None;
        }
        Some(self.nfts[(nft_id - 1) as usize].owner)
    }

    /// Alias for [`Self::owner_of`].
    pub fn get_nft_owner(&self, nft_id: u64) -> (r: Option<u64>)
        requires
            self.wf(),
        ensures
            match r {
                Some(o) => self.has_nft(nft_id) && o == self.spec_nft(nft_id).owner,
                None => !self.has_nft(nft_id),
            },
    {
        self.owner_of(nft_id)
    }

    /// Returns the ids currently owned by an address, in acquisition order.
    pub fn get_player_nfts(&self, owner: u64) -> (r: Vec<u64>)
        requires
            self.wf(),
        ensures
            r@ == self.spec_owner_ids(owner),
    {
        match find_owner_index(&self.owners, owner) {
            Some(a) => {
                proof {
                    lemma_owner_entry_unique(*self, owner, a as int);
                }
                clone_u64s(&self.owners[a].nft_ids)
            },
            None => {
                proof {
                    if self.has_owner_entry(owner) {
                        let b = self.spec_owner_idx(owner);
                        assert(0 <= b < self.owners@.len() && self.owners@[b].owner == owner);
                    }
                    assert(self.spec_owner_ids(owner) =~= Seq::<u64>::empty());
                }
                Vec::new()
            },
        }
    }

    /// Transfers a record to a new owner: the sender must be the current
    /// owner and may not transfer to itself; the record and both owner-index
    /// entries are updated together.
    pub fn transfer_nft(&mut self, nft_id: u64, from_address: u64, to_address: u64) -> (r: Result<
        (),
        NftErrorCode,
    >)
        requires
            old(self).wf(),
        ensures
            final(self).wf(),
            !old(self).has_nft(nft_id) ==> r == Err::<(), NftErrorCode>(NftErrorCode::NftNotFound)
                && *final(self) == *old(self),
            old(self).has_nft(nft_id) && old(self).spec_nft(nft_id).owner != from_address ==> r
                == Err::<(), NftErrorCode>(NftErrorCode::NotOwner) && *final(self) == *old(self),
            old(self).has_nft(nft_id) && old(self).spec_nft(nft_id).owner == from_address
                && to_address == from_address ==> r == Err::<(), NftErrorCode>(
                NftErrorCode::InvalidRecipient,
            ) && *final(self) == *old(self),
            old(self).has_nft(nft_id) && old(self).spec_nft(nft_id).owner == from_address
                && to_address != from_address ==> {
                &&& r == Ok::<(), NftErrorCode>(())
                &&& final(self).nfts@.len() == old(self).nfts@.len()
                &&& final(self).spec_nft(nft_id) == (NftDataView {
                    owner: to_address,
                    ..old(self).spec_nft(nft_id)
                })
                &&& forall|j: int|
                    0 <= j < old(self).nfts@.len() && j != nft_id - 1 ==> final(self).nfts@[j]
                        == old(self).nfts@[j]
                &&& final(self).spec_owner_ids(from_address) == old(self).spec_owner_ids(
                    from_address,
                ).remove(old(self).spec_owner_ids(from_address).index_of(nft_id))
                &&& !final(self).spec_owner_ids(from_address).contains(nft_id)
                &&& final(self).spec_owner_ids(to_address) == old(self).spec_owner_ids(
                    to_address,
                ).push(nft_id)
                &&& forall|o: u64|
                    o != from_address && o != to_address ==> final(self).spec_owner_ids(o) == old(
                        self,
                    ).spec_owner_ids(o)
            },
    {
        if nft_id == 0 || nft_id > self.nfts.len() as u64 {
            return Err(NftErrorCode::NftNotFound);
        }
        let idx = (nft_id - 1) as usize;
        if self.nfts[idx].owner != from_address {
            return Err(NftErrorCode::NotOwner);
        }
        if to_address == from_address {
            return Err(NftErrorCode::InvalidRecipient);
        }
        let n = &mut self.nfts[idx];
        n.owner = to_address;
        proof {
            assert(self.spec_nft(nft_id) =~= (NftDataView {
                owner: to_address,
                ..old(self).spec_nft(nft_id)
            }));
        }
        let af = match find_owner_index(&self.owners, from_address) {
            Some(a) => a,
            None => {
                proof {
                    assert(old(self).spec_owner_ids(from_address).contains(nft_id));
                    assert(old(self).has_owner_entry(from_address));
                    let b = old(self).spec_owner_idx(from_address);
                    assert(0 <= b < old(self).owners@.len() && old(self).owners@[b].owner
                        == from_address);
                    assert(false);
                }
                vstd::pervasive::unreached()
            },
        };
        proof {
            lemma_owner_entry_unique(*old(self), from_address, af as int);
        }
        let pos = match find_id_pos(&self.owners[af].nft_ids, nft_id) {
            Some(p) => p,
            None => {
                proof {
                    assert(old(self).spec_owner_ids(from_address).contains(nft_id));
                    assert(false);
                }
                vstd::pervasive::unreached()
            },
        };
        let ef = &mut self.owners[af];
        let _removed = ef.nft_ids.remove(pos);
        proof {
            let os = *old(self);
            lemma_remove_at(os.owners@[af as int].nft_ids@, pos as int);
            assert(os.owners@[af as int].nft_ids@[pos as int] == nft_id);
            assert forall|b: int|
                0 <= b < self.owners@.len() && b != af as int implies self.owners@[b] == os.owners@[b] by {}
        }
        let ghost mid = *self;
        match find_owner_index(&self.owners, to_address) {
            Some(at) => {
                proof {
                    assert(mid.owners@[at as int].owner == to_address);
                    assert(af != at);
                }
                let et = &mut self.owners[at];
                et.nft_ids.push(nft_id);
                proof {
                    lemma_transfer_wf(
                        *old(self),
                        mid,
                        *self,
                        nft_id,
                        from_address,
                        to_address,
                        af as int,
                        pos as int,
                        at as int,
                    );
                }
            },
            None => {
                let mut ids: Vec<u64> = Vec::new();
                ids.push(nft_id);
                self.owners.push(OwnerNfts { owner: to_address, nft_ids: ids });
                proof {
                    lemma_transfer_wf(
                        *old(self),
                        mid,
                        *self,
                        nft_id,
                        from_address,
                        to_address,
                        af as int,
                        pos as int,
                        mid.owners@.len() as int,
                    );
                }
            },
        }
        Ok(())
    }
}

/// Re-establishes the registry invariant after a transfer, and names the
/// owner-index holdings of every owner afterwards. `os` is the state before
/// the transfer, `mid` the state after the record's owner was rewritten and
/// the id removed from the sender's entry at `af`, and `ns` the final state
/// where the id was appended to the recipient's entry at `at`.
#[verifier::rlimit(50)]
proof fn lemma_transfer_wf(
    os: NftReward,
    mid: NftReward,
    ns: NftReward,
    nft_id: u64,
    from: u64,
    to: u64,
    af: int,
    pos: int,
    at: int,
)
    requires
        os.wf(),
        to != from,
        1 <= nft_id <= os.nfts@.len(),
        os.nfts@[nft_id - 1].owner == from,
        mid.nfts@.len() == os.nfts@.len(),
        mid.nfts@ == os.nfts@.update(nft_id - 1, mid.nfts@[nft_id - 1]),
        mid.nfts@[nft_id - 1]@ == (NftDataView { owner: to, ..os.nfts@[nft_id - 1]@ }),
        0 <= af < os.owners@.len(),
        os.owners@[af].owner == from,
        mid.owners@.len() == os.owners@.len(),
        forall|b: int|
            0 <= b < os.owners@.len() && b != af ==> (#[trigger] mid.owners@[b])
                == os.owners@[b],
        mid.owners@[af].owner == from,
        0 <= pos < os.owners@[af].nft_ids@.len(),
        os.owners@[af].nft_ids@[pos] == nft_id,
        mid.owners@[af].nft_ids@ == os.owners@[af].nft_ids@.remove(pos),
        ns.nfts@ == mid.nfts@,
        mid.owners@.len() <= ns.owners@.len() <= mid.owners@.len() + 1,
        0 <= at < ns.owners@.len(),
        at != af,
        forall|b: int|
            0 <= b < ns.owners@.len() && b != at ==> b < mid.owners@.len() && (
            #[trigger] ns.owners@[b]) == mid.owners@[b],
        ns.owners@[at].owner == to,
        at < mid.owners@.len() ==> mid.owners@[at].owner == to && ns.owners@[at].nft_ids@
            == mid.owners@[at].nft_ids@.push(nft_id),
        at >= mid.owners@.len() ==> ns.owners@[at].nft_ids@ == Seq::<u64>::empty().push(nft_id)
            && !mid.has_owner_entry(to),
    ensures
        ns.wf(),
        ns.spec_owner_ids(from) == os.spec_owner_ids(from).remove(pos),
        !ns.spec_owner_ids(from).contains(nft_id),
        ns.spec_owner_ids(to) == os.spec_owner_ids(to).push(nft_id),
        forall|o: u64|
            o != from && o != to ==> #[trigger] ns.spec_owner_ids(o) == os.spec_owner_ids(o),
        os.spec_owner_ids(from).index_of(nft_id) == pos,
{
    let fids = os.owners@[af].nft_ids@;
    lemma_owner_entry_unique(os, from, af);
    lemma_remove_at(fids, pos);
    // every entry but the recipient's keeps its owner
    assert forall|b: int| 0 <= b < ns.owners@.len() && b != at implies b < mid.owners@.len() && (
    #[trigger] ns.owners@[b]).owner == os.owners@[b].owner by {
        assert(ns.owners@[b] == mid.owners@[b]);
        if b == af {
            assert(mid.owners@[af].owner == from);
        } else {
            assert(mid.owners@[b] == os.owners@[b]);
        }
    }
    // uniqueness of owners in ns
    assert forall|x: int, y: int|
        0 <= x < ns.owners@.len() && 0 <= y < ns.owners@.len() && x != y implies (
    #[trigger] ns.owners@[x]).owner != (#[trigger] ns.owners@[y]).owner by {
        if x == at {
            assert(y != at);
            assert(ns.owners@[y] == mid.owners@[y]);
            assert(y < mid.owners@.len());
            assert((ns.owners@[y]).owner == os.owners@[y].owner);
            if at < mid.owners@.len() {
                assert(os.owners@[at].owner == to);
                assert(os.owners@[y].owner != os.owners@[at].owner);
            } else if os.owners@[y].owner == to {
                assert(y != af);
                assert(mid.owners@[y] == os.owners@[y]);
                assert(mid.has_owner_entry(to));
                assert(false);
            }
        } else if y == at {
            assert(ns.owners@[x] == mid.owners@[x]);
            assert(x < mid.owners@.len());
            assert((ns.owners@[x]).owner == os.owners@[x].owner);
            if at < mid.owners@.len() {
                assert(os.owners@[at].owner == to);
                assert(os.owners@[x].owner != os.owners@[at].owner);
            } else if os.owners@[x].owner == to {
                assert(x != af);
                assert(mid.owners@[x] == os.owners@[x]);
                assert(mid.has_owner_entry(to));
                assert(false);
            }
        } else {
            assert(ns.owners@[x] == mid.owners@[x]);
            assert(x < mid.owners@.len());
            assert((ns.owners@[x]).owner == os.owners@[x].owner);
            assert(ns.owners@[y] == mid.owners@[y]);
            assert(y < mid.owners@.len());
            assert((ns.owners@[y]).owner == os.owners@[y].owner);
        }
    }
    lemma_owner_entry_unique(ns, from, af);
    lemma_owner_entry_unique(ns, to, at);
    // index_of names pos
    assert(fids.no_duplicates());
    let ip = fids.index_of(nft_id);
    assert(fids.contains(nft_id)) by {
        assert(fids[pos] == nft_id);
    }
    assert(0 <= ip < fids.len() && fids[ip] == nft_id);
    if ip != pos {
        assert(fids[ip] != fids[pos]);
        assert(false);
    }
    // other owners unchanged
    assert forall|o: u64| o != from && o != to implies #[trigger] ns.spec_owner_ids(o)
        == os.spec_owner_ids(o) by {
        if ns.has_owner_entry(o) {
            let b = ns.spec_owner_idx(o);
            assert(0 <= b < ns.owners@.len() && ns.owners@[b].owner == o);
            assert(b != at && b != af);
            assert(ns.owners@[b] == os.owners@[b]);
            lemma_owner_entry_unique(os, o, b);
            assert(ns.spec_owner_ids(o) == os.spec_owner_ids(o));
        } else {
            if os.has_owner_entry(o) {
                let c = os.spec_owner_idx(o);
                assert(0 <= c < os.owners@.len() && os.owners@[c].owner == o);
                assert(c != af && c != at);
                assert(ns.owners@[c] == os.owners@[c]);
                assert(ns.has_owner_entry(o));
                assert(false);
            }
            assert(ns.spec_owner_ids(o) =~= os.spec_owner_ids(o));
        }
    }
    if at >= mid.owners@.len() {
        assert(!os.has_owner_entry(to)) by {
            if os.has_owner_entry(to) {
                let c = os.spec_owner_idx(to);
                assert(0 <= c < os.owners@.len() && os.owners@[c].owner == to);
                assert(c != af);
                assert(mid.owners@[c] == os.owners@[c]);
                assert(mid.has_owner_entry(to));
            }
        }
        assert(os.spec_owner_ids(to) =~= Seq::<u64>::empty());
        assert(ns.spec_owner_ids(to) =~= os.spec_owner_ids(to).push(nft_id));
    } else {
        lemma_owner_entry_unique(os, to, at);
    }
    // wf clause: sequential ids
    assert forall|i: int| 0 <= i < ns.nfts@.len() implies (#[trigger] ns.nfts@[i]).nft_id == i
        + 1 by {
        if i != nft_id - 1 {
            assert(ns.nfts@[i] == os.nfts@[i]);
        }
    }
    // wf clause: entries' ids valid and pointing to their owner
    assert forall|b: int, m: int|
        0 <= b < ns.owners@.len() && 0 <= m < ns.owners@[b].nft_ids@.len() implies 1 <= (
    #[trigger] ns.owners@[b].nft_ids@[m]) <= ns.nfts@.len() && ns.nfts@[ns.owners@[b].nft_ids@[m]
        - 1].owner == ns.owners@[b].owner by {
        let id = ns.owners@[b].nft_ids@[m];
        if b == af {
            assert(ns.owners@[af].nft_ids@ == fids.remove(pos));
            assert(fids.remove(pos).contains(id)) by {
                assert(fids.remove(pos)[m] == id);
            }
            assert(fids.contains(id));
            let mm = choose|mm: int| 0 <= mm < fids.len() && fids[mm] == id;
            assert(1 <= id <= os.nfts@.len());
            assert(id != nft_id);
            assert(ns.nfts@[id - 1] == os.nfts@[id - 1]);
        } else if b == at {
            if at < mid.owners@.len() && m < os.owners@[at].nft_ids@.len() {
                assert(id == os.owners@[at].nft_ids@[m]);
                assert(1 <= id <= os.nfts@.len());
                assert(os.nfts@[id - 1].owner == to);
                if id == nft_id {
                    assert(os.nfts@[nft_id - 1].owner == from);
                    assert(false);
                }
                assert(ns.nfts@[id - 1] == os.nfts@[id - 1]);
            } else {
                assert(id == nft_id);
                assert(ns.nfts@[id - 1].owner == to);
            }
        } else {
            assert(ns.owners@[b] == os.owners@[b]);
            assert(1 <= id <= os.nfts@.len());
            assert(os.nfts@[id - 1].owner == os.owners@[b].owner);
            if id == nft_id {
                assert(os.owners@[b].owner == from);
                assert(os.owners@[af].owner == from);
                assert(false);
            }
            assert(ns.nfts@[id - 1] == os.nfts@[id - 1]);
        }
    }
    // wf clause: no duplicates in any entry
    assert forall|b: int| 0 <= b < ns.owners@.len() implies (
    #[trigger] ns.owners@[b]).nft_ids@.no_duplicates() by {
        if b == af {
        } else if b == at {
            let ids = ns.owners@[at].nft_ids@;
            assert forall|x: int, y: int|
                0 <= x < ids.len() && 0 <= y < ids.len() && x != y implies ids[x] != ids[y] by {
                if at < mid.owners@.len() {
                    let oids = os.owners@[at].nft_ids@;
                    if x < oids.len() && y < oids.len() {
                        assert(oids.no_duplicates());
                        assert(ids[x] == oids[x] && ids[y] == oids[y]);
                    } else if x < oids.len() {
                        assert(ids[y] == nft_id);
                        assert(os.nfts@[oids[x] - 1].owner == to);
                        if oids[x] == nft_id {
                            assert(os.nfts@[nft_id - 1].owner == from);
                        }
                    } else {
                        assert(ids[x] == nft_id);
                        assert(os.nfts@[oids[y] - 1].owner == to);
                        if oids[y] == nft_id {
                            assert(os.nfts@[nft_id - 1].owner == from);
                        }
                    }
                }
            }
        } else {
            assert(ns.owners@[b] == os.owners@[b]);
        }
    }
    // wf clause: every record's id is in its owner's entry
    assert forall|i: int| 0 <= i < ns.nfts@.len() implies ns.spec_owner_ids(
        (#[trigger] ns.nfts@[i]).owner,
    ).contains((i + 1) as u64) by {
        if i == nft_id - 1 {
            let ids = ns.spec_owner_ids(to);
            assert(ids[ids.len() - 1] == nft_id);
            assert(ids.contains((i + 1) as u64));
        } else {
            assert(ns.nfts@[i] == os.nfts@[i]);
            let o = os.nfts@[i].owner;
            assert(os.spec_owner_ids(o).contains((i + 1) as u64));
            if o == from {
                assert((i + 1) as u64 != nft_id);
                assert(fids.remove(pos).contains((i + 1) as u64));
                assert(ns.spec_owner_ids(from) == fids.remove(pos));
            } else if o == to {
                let oids = os.spec_owner_ids(to);
                let w = choose|w: int| 0 <= w < oids.len() && oids[w] == (i + 1) as u64;
                assert(ns.spec_owner_ids(to)[w] == (i + 1) as u64);
            }
        }
    }
}

impl NftReward {
    /// Mints a fresh collectible for a hunt completion: the record receives
    /// the next sequential id, the completing player becomes both owner and
    /// provenance, and the id is appended to the owner's index entry.
    pub fn mint_reward_nft(
        &mut self,
        hunt_id: u64,
        player_address: u64,
        metadata: NftMetadata,
        now: u64,
    ) -> (r: u64)
        requires
            old(self).wf(),
            old(self).spec_total_supply() < u64::MAX,
        ensures
            final(self).wf(),
            r == old(self).spec_total_supply() + 1,
            final(self).spec_total_supply() == old(self).spec_total_supply() + 1,
            final(self).nfts@.subrange(0, old(self).nfts@.len() as int) == old(self).nfts@,
            final(self).spec_nft(r) == (NftDataView {
                nft_id: r,
                hunt_id,
                owner: player_address,
                completion_player: player_address,
                metadata: metadata@,
                minted_at: now,
            }),
            final(self).spec_owner_ids(player_address) == old(self).spec_owner_ids(
                player_address,
            ).push(r),
            forall|o: u64|
                o != player_address ==> final(self).spec_owner_ids(o) == old(
                    self,
                ).spec_owner_ids(o),
    {
        let nft_id = (self.nfts.len() as u64) + 1;
        let nft = NftData {
            nft_id,
            hunt_id,
            owner: player_address,
            completion_player: player_address,
            metadata,
            minted_at: now,
        };
        self.nfts.push(nft);
        proof {
            assert(self.nfts@.subrange(0, old(self).nfts@.len() as int) =~= old(
                self,
            ).nfts@);
            assert(self.spec_nft(nft_id) =~= (NftDataView {
                nft_id,
                hunt_id,
                owner: player_address,
                completion_player: player_address,
                metadata: metadata@,
                minted_at: now,
            }));
        }
        match find_owner_index(&self.owners, player_address) {
            Some(a) => {
                let e = &mut self.owners[a];
                e.nft_ids.push(nft_id);
                proof {
                    let os = old(self);
                    let ns = *self;
                    lemma_owner_entry_unique(*os, player_address, a as int);
                    assert(os.spec_owner_idx(player_address) == a as int);
                    assert(ns.owners@[a as int].nft_ids@ == os.owners@[a as int].nft_ids@.push(
                        nft_id,
                    ));
                    assert(ns.owners@[a as int].owner == player_address);
                    assert forall|b: int|
                        0 <= b < ns.owners@.len() && b != a as int implies ns.owners@[b]
                        == os.owners@[b] by {}
                    lemma_owner_entry_unique(ns, player_address, a as int);
                    assert(ns.spec_owner_ids(player_address) == os.spec_owner_ids(
                        player_address,
                    ).push(nft_id));
                    assert forall|o: u64| o != player_address implies ns.spec_owner_ids(o)
                        == os.spec_owner_ids(o) by {
                        lemma_other_owner_same(*os, ns, o, a as int);
                    }
                    lemma_mint_wf(*os, ns, nft_id, player_address, a as int);
                }
            },
            None => {
                let mut ids: Vec<u64> = Vec::new();
                ids.push(nft_id);
                self.owners.push(OwnerNfts { owner: player_address, nft_ids: ids });
                proof {
                    let os = old(self);
                    let ns = *self;
                    let a = os.owners@.len() as int;
                    assert(ns.owners@[a].owner == player_address);
                    assert(!os.has_owner_entry(player_address));
                    assert(os.spec_owner_ids(player_address) =~= Seq::<u64>::empty());
                    lemma_owner_entry_unique(ns, player_address, a);
                    assert(ns.owners@[a].nft_ids@ =~= os.spec_owner_ids(player_address).push(
                        nft_id,
                    ));
                    assert(ns.spec_owner_ids(player_address) == os.spec_owner_ids(
                        player_address,
                    ).push(nft_id));
                    assert forall|o: u64| o != player_address implies ns.spec_owner_ids(o)
                        == os.spec_owner_ids(o) by {
                        lemma_other_owner_same(*os, ns, o, a);
                    }
                    lemma_mint_wf(*os, ns, nft_id, player_address, a);
                }
            },
        }
        nft_id
    }
}

/// In a registry whose owner index has pairwise distinct owners, an entry
/// that holds `owner` is the one that `spec_owner_idx` names.
proof fn lemma_owner_entry_unique(s: NftReward, owner: u64, a: int)
    requires
        forall|x: int, y: int|
            0 <= x < s.owners@.len() && 0 <= y < s.owners@.len() && x != y ==> (
            #[trigger] s.owners@[x]).owner != (#[trigger] s.owners@[y]).owner,
        0 <= a < s.owners@.len(),
        s.owners@[a].owner == owner,
    ensures
        s.has_owner_entry(owner),
        s.spec_owner_idx(owner) == a,
        s.spec_owner_ids(owner) == s.owners@[a].nft_ids@,
{
    assert(s.has_owner_entry(owner));
    let b = s.spec_owner_idx(owner);
    assert(0 <= b < s.owners@.len() && s.owners@[b].owner == owner);
    if a != b {
        assert(s.owners@[a].owner != s.owners@[b].owner);
        assert(false);
    }
}

/// Two registry states whose owner indexes differ at most in the entry at
/// `a` agree on the holdings of every owner other than that entry's owners.
proof fn lemma_other_owner_same(os: NftReward, ns: NftReward, o: u64, a: int)
    requires
        forall|x: int, y: int|
            0 <= x < os.owners@.len() && 0 <= y < os.owners@.len() && x != y ==> (
            #[trigger] os.owners@[x]).owner != (#[trigger] os.owners@[y]).owner,
        os.owners@.len() <= ns.owners@.len() <= os.owners@.len() + 1,
        0 <= a < ns.owners@.len(),
        forall|b: int|
            0 <= b < ns.owners@.len() && b != a ==> b < os.owners@.len() && ns.owners@[b]
                == os.owners@[b],
        a < os.owners@.len() ==> ns.owners@[a].owner == os.owners@[a].owner,
        ns.owners@[a].owner != o,
    ensures
        ns.spec_owner_ids(o) == os.spec_owner_ids(o),
{
    if ns.has_owner_entry(o) {
        let b = ns.spec_owner_idx(o);
        assert(0 <= b < ns.owners@.len() && ns.owners@[b].owner == o);
        assert(b != a);
        assert(os.owners@[b].owner == o);
        assert(os.has_owner_entry(o));
        let c = os.spec_owner_idx(o);
        assert(0 <= c < os.owners@.len() && os.owners@[c].owner == o);
        if c == a {
            assert(ns.owners@[a].owner == o);
            assert(false);
        }
        if b != c {
            assert(os.owners@[b].owner != os.owners@[c].owner);
            assert(false);
        }
    } else {
        if os.has_owner_entry(o) {
            let c = os.spec_owner_idx(o);
            assert(0 <= c < os.owners@.len() && os.owners@[c].owner == o);
            if c == a {
            } else {
                assert(ns.owners@[c] == os.owners@[c]);
            }
            assert(ns.has_owner_entry(o));
            assert(false);
        }
        assert(ns.spec_owner_ids(o) =~= os.spec_owner_ids(o));
    }
}

/// Re-establishes the registry invariant after a mint: the record list grew
/// by one record owned by `player`, and only the entry at `a` — the one for
/// `player` — gained the new id at its end.
proof fn lemma_mint_wf(os: NftReward, ns: NftReward, nft_id: u64, player: u64, a: int)
    requires
        os.wf(),
        nft_id == os.nfts@.len() + 1,
        ns.nfts@.len() == os.nfts@.len() + 1,
        ns.nfts@.subrange(0, os.nfts@.len() as int) == os.nfts@,
        ns.nfts@[nft_id - 1].nft_id == nft_id,
        ns.nfts@[nft_id - 1].owner == player,
        os.owners@.len() <= ns.owners@.len() <= os.owners@.len() + 1,
        0 <= a < ns.owners@.len(),
        forall|b: int|
            0 <= b < ns.owners@.len() && b != a ==> b < os.owners@.len() && ns.owners@[b]
                == os.owners@[b],
        ns.owners@[a].owner == player,
        a < os.owners@.len() ==> os.owners@[a].owner == player && ns.owners@[a].nft_ids@
            == os.owners@[a].nft_ids@.push(nft_id),
        a >= os.owners@.len() ==> ns.owners@[a].nft_ids@ == Seq::<u64>::empty().push(nft_id)
            && !os.has_owner_entry(player),
        forall|o: u64|
            o != player ==> #[trigger] ns.spec_owner_ids(o) == os.spec_owner_ids(o),
        ns.spec_owner_ids(player) == os.spec_owner_ids(player).push(nft_id),
    ensures
        ns.wf(),
{
    assert forall|i: int| 0 <= i < ns.nfts@.len() implies (#[trigger] ns.nfts@[i]).nft_id == i
        + 1 by {
        if i < os.nfts@.len() {
            assert(ns.nfts@[i] == os.nfts@[i]);
        }
    }
    assert forall|x: int, y: int|
        0 <= x < ns.owners@.len() && 0 <= y < ns.owners@.len() && x != y implies (
    #[trigger] ns.owners@[x]).owner != (#[trigger] ns.owners@[y]).owner by {
        if x != a && y != a {
            assert(ns.owners@[x] == os.owners@[x] && ns.owners@[y] == os.owners@[y]);
        } else if x == a {
            assert(ns.owners@[y] == os.owners@[y]);
            if a < os.owners@.len() {
                assert(os.owners@[a].owner != os.owners@[y].owner);
            } else {
                if os.owners@[y].owner == player {
                    assert(os.has_owner_entry(player));
                    assert(false);
                }
            }
        } else {
            assert(ns.owners@[x] == os.owners@[x]);
            if a < os.owners@.len() {
                assert(os.owners@[a].owner != os.owners@[x].owner);
            } else {
                if os.owners@[x].owner == player {
                    assert(os.has_owner_entry(player));
                    assert(false);
                }
            }
        }
    }
    assert forall|b: int, m: int|
        0 <= b < ns.owners@.len() && 0 <= m < ns.owners@[b].nft_ids@.len() implies 1 <= (
    #[trigger] ns.owners@[b].nft_ids@[m]) <= ns.nfts@.len() && ns.nfts@[ns.owners@[b].nft_ids@[m]
        - 1].owner == ns.owners@[b].owner by {
        if b != a {
            assert(ns.owners@[b] == os.owners@[b]);
            let id = ns.owners@[b].nft_ids@[m];
            assert(1 <= id <= os.nfts@.len());
            assert(ns.nfts@[id - 1] == os.nfts@[id - 1]);
        } else {
            let id = ns.owners@[a].nft_ids@[m];
            if a < os.owners@.len() && m < os.owners@[a].nft_ids@.len() {
                assert(id == os.owners@[a].nft_ids@[m]);
                assert(1 <= id <= os.nfts@.len());
                assert(ns.nfts@[id - 1] == os.nfts@[id - 1]);
            } else {
                assert(id == nft_id);
            }
        }
    }
    assert forall|b: int| 0 <= b < ns.owners@.len() implies (
    #[trigger] ns.owners@[b]).nft_ids@.no_duplicates() by {
        if b != a {
            assert(ns.owners@[b] == os.owners@[b]);
        } else {
            let ids = ns.owners@[a].nft_ids@;
            assert forall|x: int, y: int|
                0 <= x < ids.len() && 0 <= y < ids.len() && x != y implies ids[x] != ids[y] by {
                if a < os.owners@.len() {
                    let oids = os.owners@[a].nft_ids@;
                    if x < oids.len() && y < oids.len() {
                        assert(oids.no_duplicates());
                        assert(ids[x] == oids[x] && ids[y] == oids[y]);
                    } else if x < oids.len() {
                        assert(ids[y] == nft_id);
                        assert(1 <= oids[x] <= os.nfts@.len());
                    } else {
                        assert(ids[x] == nft_id);
                        assert(1 <= oids[y] <= os.nfts@.len());
                    }
                }
            }
        }
    }
    assert forall|i: int| 0 <= i < ns.nfts@.len() implies ns.spec_owner_ids(
        (#[trigger] ns.nfts@[i]).owner,
    ).contains((i + 1) as u64) by {
        if i < os.nfts@.len() {
            assert(ns.nfts@[i] == os.nfts@[i]);
            let o = os.nfts@[i].owner;
            assert(os.spec_owner_ids(o).contains((i + 1) as u64));
            if o == player {
                let oids = os.spec_owner_ids(player);
                let w = choose|w: int| 0 <= w < oids.len() && oids[w] == (i + 1) as u64;
                assert(ns.spec_owner_ids(player)[w] == (i + 1) as u64);
            }
        } else {
            let ids = ns.spec_owner_ids(player);
            assert(ids[ids.len() - 1] == nft_id);
            assert(ids.contains((i + 1) as u64));
        }
    }
}


/// Removing one position from a duplicate-free sequence keeps it
/// duplicate-free, keeps every other element, and drops the removed one.
proof fn lemma_remove_at(s: Seq<u64>, p: int)
    requires
        s.no_duplicates(),
        0 <= p < s.len(),
    ensures
        s.remove(p).no_duplicates(),
        forall|x: u64| s.remove(p).contains(x) ==> s.contains(x),
        forall|x: u64| s.contains(x) && x != s[p] ==> s.remove(p).contains(x),
        !s.remove(p).contains(s[p]),
{
    let t = s.remove(p);
    assert forall|x: int, y: int| 0 <= x < t.len() && 0 <= y < t.len() && x != y implies t[x]
        != t[y] by {
        let xs = if x < p {
            x
        } else {
            x + 1
        };
        let ys = if y < p {
            y
        } else {
            y + 1
        };
        assert(t[x] == s[xs] && t[y] == s[ys]);
    }
    assert forall|x: u64| t.contains(x) implies s.contains(x) by {
        let m = choose|m: int| 0 <= m < t.len() && t[m] == x;
        let ms = if m < p {
            m
        } else {
            m + 1
        };
        assert(s[ms] == x);
    }
    assert forall|x: u64| s.contains(x) && x != s[p] implies t.contains(x) by {
        let m = choose|m: int| 0 <= m < s.len() && s[m] == x;
        if m < p {
            assert(t[m] == x);
        } else {
            assert(m > p);
            assert(t[m - 1] == x);
        }
    }
    if t.contains(s[p]) {
        let m = choose|m: int| 0 <= m < t.len() && t[m] == s[p];
        let ms = if m < p {
            m
        } else {
            m + 1
        };
        assert(s[ms] == s[p] && ms != p);
    }
}

/// Finds the first position of an id in a list of ids.
fn find_id_pos(v: &Vec<u64>, x: u64) -> (r: Option<usize>)
    ensures
        match r {
            Some(pos) => pos < v@.len() && v@[pos as int] == x,
            None => !v@.contains(x),
        },
{
    let mut k: usize = 0;
    while k < v.len()
        invariant
            0 <= k <= v@.len(),
            forall|m: int| 0 <= m < k ==> v@[m] != x,
        decreases v@.len() - k,
    {
        if v[k] == x {
            return Some(k);
        }
        k = k + 1;
    }
    proof {
        if v@.contains(x) {
            let m = choose|m: int| 0 <= m < v@.len() && v@[m] == x;
            assert(false);
        }
    }
    None
}

} // verus!
