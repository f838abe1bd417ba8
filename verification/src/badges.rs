//! The achievement registry: badges that are minted to a user and stay with
//! that user. No operation hands a badge on.

use vstd::prelude::*;
use crate::access::{has_proof, holds_proof, Fault};

verus! {

/// What a badge was given for. The three investor kinds are not computed
/// here from any amount: whoever mints chooses the kind.
#[derive(Clone, Copy, Debug, PartialEq, Eq, Structural)]
pub enum AchievementType {
    Welcome,
    Creator,
    InvestorBronze,
    InvestorSilver,
    InvestorGold,
    ProjectFunded,
    EarlySupporter,
}

/// One badge.
#[derive(Debug, PartialEq, Eq)]
pub struct NFTMetadata {
    pub token_id: u64,
    pub owner: String,
    pub name: String,
    pub description: String,
    pub image_url: String,
    /// Free-form attributes, as text.
    pub attributes: String,
    pub achievement_type: AchievementType,
    pub minted_at: u64,
    pub is_soulbound: bool,
}

impl Clone for NFTMetadata {
    fn clone(&self) -> (copy: Self)
        ensures
            copy == *self,
    {
        NFTMetadata {
            token_id: self.token_id,
            owner: self.owner.clone(),
            name: self.name.clone(),
            description: self.description.clone(),
            image_url: self.image_url.clone(),
            attributes: self.attributes.clone(),
            achievement_type: self.achievement_type,
            minted_at: self.minted_at,
            is_soulbound: self.is_soulbound,
        }
    }
}

/// The token ids that were minted to one user, oldest first.
#[derive(Debug, PartialEq, Eq)]
pub struct UserTokens {
    pub user: String,
    pub token_ids: Vec<u64>,
}

impl View for UserTokens {
    type V = (Seq<char>, Seq<u64>);

    open spec fn view(&self) -> (Seq<char>, Seq<u64>) {
        (self.user@, self.token_ids@)
    }
}

/// No two badges of `nfts` have the same token id.
pub open spec fn tokens_differ(nfts: Seq<NFTMetadata>) -> bool {
    forall|i: int, j: int|
        0 <= i < j < nfts.len() ==> (#[trigger] nfts[i]).token_id != (#[trigger] nfts[j]).token_id
}

/// Whether `nfts` holds a badge with this token id.
pub open spec fn has_token(nfts: Seq<NFTMetadata>, token_id: u64) -> bool {
    exists|i: int| 0 <= i < nfts.len() && (#[trigger] nfts[i]).token_id == token_id
}

/// Where in `nfts` the badge with this token id stands, if `has_token`.
pub open spec fn token_slot(nfts: Seq<NFTMetadata>, token_id: u64) -> int {
    choose|i: int| 0 <= i < nfts.len() && (#[trigger] nfts[i]).token_id == token_id
}

/// `nfts` with `badge` in the place of the badge of the same token id, or
/// behind the others where there is none.
pub open spec fn with_token(nfts: Seq<NFTMetadata>, badge: NFTMetadata) -> Seq<NFTMetadata> {
    if has_token(nfts, badge.token_id) {
        nfts.update(token_slot(nfts, badge.token_id), badge)
    } else {
        nfts.push(badge)
    }
}

/// No two entries of `index` belong to the same user.
pub open spec fn users_differ(index: Seq<UserTokens>) -> bool {
    forall|i: int, j: int|
        0 <= i < j < index.len() ==> (#[trigger] index[i]).user@ != (#[trigger] index[j]).user@
}

/// Whether `index` holds an entry of `who`.
pub open spec fn has_user(index: Seq<UserTokens>, who: String) -> bool {
    exists|i: int| 0 <= i < index.len() && (#[trigger] index[i]).user@ == who@
}

/// Where in `index` the entry of `who` stands, if `has_user`.
pub open spec fn user_slot(index: Seq<UserTokens>, who: String) -> int {
    choose|i: int| 0 <= i < index.len() && (#[trigger] index[i]).user@ == who@
}

/// The token ids minted to `who`, oldest first; none for a user without an
/// entry.
pub open spec fn ids_of(index: Seq<UserTokens>, who: String) -> Seq<u64> {
    if has_user(index, who) {
        index[user_slot(index, who)].token_ids@
    } else {
        Seq::empty()
    }
}

/// The entries of `index` as plain values: each user with that user's ids.
pub open spec fn holdings(index: Seq<UserTokens>) -> Seq<(Seq<char>, Seq<u64>)> {
    Seq::new(index.len(), |i: int| index[i]@)
}

/// `index` as plain values after `token_id` was minted to `who`: the id
/// stands last in the user's entry, and a user without an entry gets one
/// behind the others.
pub open spec fn with_holding(index: Seq<UserTokens>, who: String, token_id: u64) -> Seq<
    (Seq<char>, Seq<u64>),
> {
    if has_user(index, who) {
        let slot = user_slot(index, who);
        holdings(index).update(slot, (index[slot].user@, index[slot].token_ids@.push(token_id)))
    } else {
        holdings(index).push((who@, seq![token_id]))
    }
}

/// The badges that `ids` name, in the order of `ids`, without the ids for
/// which `nfts` holds no badge.
pub open spec fn resolved(nfts: Seq<NFTMetadata>, ids: Seq<u64>) -> Seq<NFTMetadata>
    decreases ids.len(),
{
    if ids.len() == 0 {
        Seq::empty()
    } else {
        let before = resolved(nfts, ids.drop_last());
        if has_token(nfts, ids.last()) {
            before.push(nfts[token_slot(nfts, ids.last())])
        } else {
            before
        }
    }
}

/// Whether one of `badges` is of this kind.
pub open spec fn shows(badges: Seq<NFTMetadata>, achievement_type: AchievementType) -> bool {
    exists|i: int|
        0 <= i < badges.len() && (#[trigger] badges[i]).achievement_type == achievement_type
}

fn appended(ids: &Vec<u64>, token_id: u64) -> (grown: Vec<u64>)
    ensures
        grown@ == ids@.push(token_id),
{
    let mut grown: Vec<u64> = Vec::new();
    let mut i: usize = 0;
    while i < ids.len()
        invariant
            i <= ids@.len(),
            grown@ == ids@.take(i as int),
        decreases ids@.len() - i,
    {
        grown.push(ids[i]);
        assert(grown@ =~= ids@.take(i + 1));
        i += 1;
    }
    grown.push(token_id);
    assert(ids@.take(ids@.len() as int) =~= ids@);
    grown
}

/// The achievement registry's whole state. `admin` is `None` until the
/// registry is initialized.
pub struct SoulboundNFT {
    pub admin: Option<String>,
    /// The token id that was given out last.
    pub token_count: u64,
    pub nfts: Vec<NFTMetadata>,
    pub user_nfts: Vec<UserTokens>,
}

impl SoulboundNFT {
    /// Every token id stands for at most one badge, every badge is
    /// soulbound, and every user has at most one entry in the index.
    pub open spec fn wf(&self) -> bool {
        &&& tokens_differ(self.nfts@)
        &&& forall|i: int| 0 <= i < self.nfts@.len() ==> (#[trigger] self.nfts@[i]).is_soulbound
        &&& users_differ(self.user_nfts@)
    }

    /// The badges of `who`: the ids minted to `who`, resolved against the
    /// badge table.
    pub open spec fn badges_of(&self, who: String) -> Seq<NFTMetadata> {
        resolved(self.nfts@, ids_of(self.user_nfts@, who))
    }

    /// A registry that was never initialized and holds no badge.
    pub fn new() -> (registry: Self)
        ensures
            registry.wf(),
            registry.admin.is_none(),
            registry.token_count == 0,
            registry.nfts@.len() == 0,
            registry.user_nfts@.len() == 0,
    {
        SoulboundNFT { admin: None, token_count: 0, nfts: Vec::new(), user_nfts: Vec::new() }
    }

    fn find_token(&self, token_id: u64) -> (slot: Option<usize>)
        requires
            self.wf(),
        ensures
            slot.is_some() == has_token(self.nfts@, token_id),
            slot.is_some() ==> slot.unwrap() == token_slot(self.nfts@, token_id) && slot.unwrap()
                < self.nfts@.len(),
    {
        let mut i: usize = 0;
        while i < self.nfts.len()
            invariant
                self.wf(),
                i <= self.nfts@.len(),
                forall|k: int| 0 <= k < i ==> (#[trigger] self.nfts@[k]).token_id != token_id,
            decreases self.nfts@.len() - i,
        {
            if self.nfts[i].token_id == token_id {
                proof {
                    let chosen = token_slot(self.nfts@, token_id);
                    assert(self.nfts@[i as int].token_id == token_id);
                    assert(self.nfts@[chosen].token_id == token_id);
                }
                return Some(i);
            }
            i += 1;
        }
        None
    }

    fn find_user(&self, who: &String) -> (slot: Option<usize>)
        requires
            self.wf(),
        ensures
            slot.is_some() == has_user(self.user_nfts@, *who),
            slot.is_some() ==> slot.unwrap() == user_slot(self.user_nfts@, *who) && slot.unwrap()
                < self.user_nfts@.len(),
    {
        let mut i: usize = 0;
        while i < self.user_nfts.len()
            invariant
                self.wf(),
                i <= self.user_nfts@.len(),
                forall|k: int| 0 <= k < i ==> (#[trigger] self.user_nfts@[k]).user@ != who@,
            decreases self.user_nfts@.len() - i,
        {
            if self.user_nfts[i].user == *who {
                proof {
                    let chosen = user_slot(self.user_nfts@, *who);
                    assert(self.user_nfts@[i as int].user@ == who@);
                    assert(self.user_nfts@[chosen].user@ == who@);
                }
                return Some(i);
            }
            i += 1;
        }
        None
    }

    /// Names the admin, with the admin's own proof of intent, and sets the
    /// token counter to zero. Badges and the index stay as they are.
    pub fn initialize(&mut self, signers: &Vec<String>, admin: String) -> (outcome: Result<(), Fault>)
        requires
            old(self).wf(),
        ensures
            final(self).wf(),
            !holds_proof(signers@, admin) ==> outcome == Err::<(), Fault>(Fault::Unauthorized)
                && *final(self) == *old(self),
            holds_proof(signers@, admin) ==> {
                &&& outcome == Ok::<(), Fault>(())
                &&& final(self).admin == Some(admin)
                &&& final(self).token_count == 0
                &&& final(self).nfts == old(self).nfts
                &&& final(self).user_nfts == old(self).user_nfts
            },
    {
        if !has_proof(signers, &admin) {
            return Err(Fault::Unauthorized);
        }
        self.admin = Some(admin);
        self.token_count = 0;
        Ok(())
    }

    /// What `mint_achievement_nft` answers: the new token id, one more than
    /// the id that was given out last. The proof of intent has to be the
    /// admin's.
    pub open spec fn mint_outcome(&self, signers: Seq<String>) -> Result<u64, Fault> {
        if self.admin.is_none() {
            Err(Fault::NotInitialized)
        } else if !holds_proof(signers, self.admin.unwrap()) {
            Err(Fault::Unauthorized)
        } else if self.token_count == u64::MAX {
            Err(Fault::Overflow)
        } else {
            Ok((self.token_count + 1) as u64)
        }
    }

    /// How the minting of `badge` changes the registry: `self` is the
    /// registry before it, `after` the registry after it.
    pub open spec fn minted(&self, after: &Self, badge: NFTMetadata) -> bool {
        &&& after.admin == self.admin
        &&& after.token_count == badge.token_id
        &&& after.nfts@ == with_token(self.nfts@, badge)
        &&& holdings(after.user_nfts@) == with_holding(
            self.user_nfts@,
            badge.owner,
            badge.token_id,
        )
    }

    /// Mints a badge to `to`. The badge is soulbound and dated `now`; its id
    /// is put last among the ids of `to`.
    pub fn mint_achievement_nft(
        &mut self,
        signers: &Vec<String>,
        to: String,
        name: String,
        description: String,
        image_url: String,
        attributes: String,
        achievement_type: AchievementType,
        now: u64,
    ) -> (outcome: Result<u64, Fault>)
        requires
            old(self).wf(),
        ensures
            final(self).wf(),
            outcome == old(self).mint_outcome(signers@),
            outcome.is_err() ==> *final(self) == *old(self),
            outcome.is_ok() ==> old(self).minted(
                final(self),
                (NFTMetadata {
                    token_id: outcome.unwrap(),
                    owner: to,
                    name,
                    description,
                    image_url,
                    attributes,
                    achievement_type,
                    minted_at: now,
                    is_soulbound: true,
                }),
            ),
    {
        match &self.admin {
            None => {
                return Err(Fault::NotInitialized);
            },
            Some(admin) => {
                if !has_proof(signers, admin) {
                    return Err(Fault::Unauthorized);
                }
            },
        }
        if self.token_count == u64::MAX {
            return Err(Fault::Overflow);
        }
        let token_id: u64 = self.token_count + 1;
        let badge = NFTMetadata {
            token_id,
            owner: to.clone(),
            name,
            description,
            image_url,
            attributes,
            achievement_type,
            minted_at: now,
            is_soulbound: true,
        };
        match self.find_token(token_id) {
            Some(slot) => {
                self.nfts.set(slot, badge);
            },
            None => {
                self.nfts.push(badge);
            },
        }
        match self.find_user(&to) {
            Some(slot) => {
                let held = &self.user_nfts[slot];
                let grown = UserTokens {
                    user: held.user.clone(),
                    token_ids: appended(&held.token_ids, token_id),
                };
                self.user_nfts.set(slot, grown);
                assert(holdings(self.user_nfts@) =~= with_holding(
                    old(self).user_nfts@,
                    to,
                    token_id,
                ));
            },
            None => {
                let mut token_ids: Vec<u64> = Vec::new();
                token_ids.push(token_id);
                self.user_nfts.push(UserTokens { user: to, token_ids });
                assert(holdings(self.user_nfts@) =~= with_holding(
                    old(self).user_nfts@,
                    to,
                    token_id,
                ));
            },
        }
        self.token_count = token_id;
        Ok(token_id)
    }

    /// What `get_nft` answers: the badge with this token id, if there is one.
    pub open spec fn nft_outcome(&self, token_id: u64) -> Result<Option<NFTMetadata>, Fault> {
        if self.admin.is_none() {
            Err(Fault::NotInitialized)
        } else if has_token(self.nfts@, token_id) {
            Ok(Some(self.nfts@[token_slot(self.nfts@, token_id)]))
        } else {
            Ok(None)
        }
    }

    /// The badge with this token id in an initialized registry.
    pub fn get_nft(&self, token_id: u64) -> (outcome: Result<Option<NFTMetadata>, Fault>)
        requires
            self.wf(),
        ensures
            outcome == self.nft_outcome(token_id),
    {
        if self.admin.is_none() {
            return Err(Fault::NotInitialized);
        }
        match self.find_token(token_id) {
            None => Ok(None),
            Some(slot) => Ok(Some(self.nfts[slot].clone())),
        }
    }

    /// The badges of `user` in an initialized registry, oldest first. An id
    /// of the user's entry for which the registry holds no badge is passed
    /// over.
    pub fn get_user_nfts(&self, user: &String) -> (outcome: Result<Vec<NFTMetadata>, Fault>)
        requires
            self.wf(),
        ensures
            self.admin.is_none() ==> outcome == Err::<Vec<NFTMetadata>, Fault>(
                Fault::NotInitialized,
            ),
            self.admin.is_some() ==> outcome.is_ok() && outcome.unwrap()@ == self.badges_of(*user),
    {
        if self.admin.is_none() {
            return Err(Fault::NotInitialized);
        }
        let mut badges: Vec<NFTMetadata> = Vec::new();
        match self.find_user(user) {
            None => {},
            Some(entry) => {
                let ids = &self.user_nfts[entry].token_ids;
                let mut i: usize = 0;
                while i < ids.len()
                    invariant
                        self.wf(),
                        i <= ids@.len(),
                        badges@ == resolved(self.nfts@, ids@.take(i as int)),
                    decreases ids@.len() - i,
                {
                    assert(ids@.take(i + 1).drop_last() =~= ids@.take(i as int));
                    match self.find_token(ids[i]) {
                        Some(slot) => {
                            badges.push(self.nfts[slot].clone());
                        },
                        None => {},
                    }
                    i += 1;
                }
                assert(ids@.take(ids@.len() as int) =~= ids@);
            },
        }
        Ok(badges)
    }

    /// What `has_achievement` answers: whether one of the user's badges is of
    /// exactly this kind.
    pub open spec fn achievement_outcome(&self, user: String, achievement_type: AchievementType) -> Result<
        bool,
        Fault,
    > {
        if self.admin.is_none() {
            Err(Fault::NotInitialized)
        } else {
            Ok(shows(self.badges_of(user), achievement_type))
        }
    }

    /// Whether `user` holds a badge of exactly this kind, in an initialized
    /// registry.
    pub fn has_achievement(&self, user: &String, achievement_type: AchievementType) -> (outcome:
        Result<bool, Fault>)
        requires
            self.wf(),
        ensures
            outcome == self.achievement_outcome(*user, achievement_type),
    {
        let badges = match self.get_user_nfts(user) {
            Err(fault) => {
                return Err(fault);
            },
            Ok(badges) => badges,
        };
        let mut i: usize = 0;
        while i < badges.len()
            invariant
                self.admin.is_some(),
                i <= badges@.len(),
                badges@ == self.badges_of(*user),
                forall|k: int|
                    0 <= k < i ==> (#[trigger] badges@[k]).achievement_type != achievement_type,
            decreases badges@.len() - i,
        {
            if badges[i].achievement_type == achievement_type {
                assert(badges@[i as int].achievement_type == achievement_type);
                return Ok(true);
            }
            i += 1;
        }
        Ok(false)
    }

    /// How many token ids were given out since initialization.
    pub fn get_total_supply(&self) -> (outcome: Result<u64, Fault>)
        ensures
            self.admin.is_none() ==> outcome == Err::<u64, Fault>(Fault::NotInitialized),
            self.admin.is_some() ==> outcome == Ok::<u64, Fault>(self.token_count),
    {
        if self.admin.is_none() {
            Err(Fault::NotInitialized)
        } else {
            Ok(self.token_count)
        }
    }

    /// Refuses: a badge stays with the user it was minted to. The answer is
    /// `false` for every input, and the registry is left as it was.
    pub fn transfer(&mut self, from: &String, to: &String, token_id: u64) -> (moved: bool)
        ensures
            !moved,
            *final(self) == *old(self),
    {
        false
    }
}

impl SoulboundNFT {
    /// The badge table of a registry that was initialized once and has only
    /// minted since: the token ids 1 to `token_count`, each at its place.
    pub open spec fn in_sequence(&self) -> bool {
        &&& self.nfts@.len() == self.token_count
        &&& forall|i: int| 0 <= i < self.nfts@.len() ==> (#[trigger] self.nfts@[i]).token_id == i + 1
    }

    /// A user to whom nothing was minted holds no badge, and so no
    /// achievement of any kind.
    pub proof fn no_badge_no_achievement(&self, who: String, achievement_type: AchievementType)
        requires
            ids_of(self.user_nfts@, who).len() == 0,
        ensures
            self.badges_of(who).len() == 0,
            !shows(self.badges_of(who), achievement_type),
    {
    }

    /// Minting adds a badge and touches no other. In a registry whose badge
    /// table is in sequence, every badge that was there is there unchanged,
    /// its owner included, and the new badge stands last. `after` is the
    /// registry as `mint_achievement_nft` leaves it.
    pub proof fn minting_keeps_every_badge(&self, after: &Self, badge: NFTMetadata)
        requires
            self.in_sequence(),
            badge.token_id == self.token_count + 1,
            self.minted(after, badge),
        ensures
            after.in_sequence(),
            after.nfts@ == self.nfts@.push(badge),
            forall|i: int| 0 <= i < self.nfts@.len() ==> after.nfts@[i] == self.nfts@[i],
    {
        assert(!has_token(self.nfts@, badge.token_id));
    }
}

impl SoulboundNFT {
    /// A minted badge is held. After a badge was minted, it is the last of
    /// its owner's badges, so the owner has the achievement that it stands
    /// for. `after` is the registry as `mint_achievement_nft` leaves it.
    pub proof fn minted_badge_is_held(&self, after: &Self, badge: NFTMetadata)
        requires
            self.wf(),
            self.minted(after, badge),
        ensures
            after.badges_of(badge.owner).len() > 0,
            after.badges_of(badge.owner).last() == badge,
            shows(after.badges_of(badge.owner), badge.achievement_type),
    {
        let to = badge.owner;
        let id = badge.token_id;
        let index = self.user_nfts@;
        let grown = after.user_nfts@;
        let entries = holdings(grown);
        assert(entries.len() == grown.len());
        let place = if has_user(index, to) {
            user_slot(index, to)
        } else {
            index.len() as int
        };
        assert(entries[place] == grown[place]@);
        assert(grown[place].user@ == to@);
        assert(has_user(grown, to));
        let found = user_slot(grown, to);
        assert(grown[found].user@ == to@);
        assert(entries[found] == grown[found]@);
        if found != place {
            assert(holdings(index)[found] == index[found]@);
            assert(index[found].user@ == to@);
        }
        let ids = ids_of(grown, to);
        assert(ids.len() > 0 && ids.last() == id);

        let table = after.nfts@;
        let spot = if has_token(self.nfts@, id) {
            token_slot(self.nfts@, id)
        } else {
            self.nfts@.len() as int
        };
        assert(table[spot] == badge);
        assert(has_token(table, id));
        let hit = token_slot(table, id);
        assert(table[hit].token_id == id);
        if hit != spot {
            assert(self.nfts@[hit].token_id == id);
        }
        let badges = after.badges_of(to);
        assert(badges == resolved(table, ids.drop_last()).push(badge));
        assert(badges[badges.len() - 1].achievement_type == badge.achievement_type);
    }
}

} // verus!
