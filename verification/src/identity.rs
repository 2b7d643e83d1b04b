//! The identity registry and credentialing.
//!
//! Registration allocates user ids, verification flips the `verified` flag
//! exactly once, expertise areas are replaced wholesale, and a credential
//! token is minted only for a verified user. Every entry point takes the
//! authorization provider's verdict for the caller as the `attested` flag
//! and fails with `Unauthorized` when it is `false`.

use vstd::prelude::*;
use crate::state::ContributorReputation;
use crate::state::same_analytics;
use crate::state::same_counters;
use crate::state::same_credentials;
use crate::state::same_disputes;
use crate::state::same_identity;
use crate::state::same_probation;
use crate::state::same_recovery;
use crate::state::same_reputation;
use crate::strmap::StrMap;
use crate::types::CredentialToken;
use crate::types::EntityKind;
use crate::types::Error;
use crate::types::User;

verus! {

/// What registration returns: the id the allocator hands out, or
/// `Unauthorized` when the caller's attestation failed.
pub open spec fn spec_initialize_user_outcome(s: ContributorReputation, attested: bool) -> Result<
    u64,
    Error,
> {
    if !attested {
        Err(Error::Unauthorized)
    } else {
        Ok(s.next_user_id)
    }
}

/// `post` is `pre` after registering a user named `name`: the allocated id
/// now carries an unverified record with no expertise areas, the user id
/// counter moved one up, and nothing else changed.
pub open spec fn initialize_user_applied(
    pre: ContributorReputation,
    post: ContributorReputation,
    name: Seq<char>,
) -> bool {
    let id = pre.next_user_id;
    &&& post.next_user_id == pre.next_user_id + 1
    &&& post.next_token_id == pre.next_token_id
    &&& post.next_dispute_id == pre.next_dispute_id
    &&& post.users@.dom() == pre.users@.dom().insert(id)
    &&& post.users@[id].id == id
    &&& post.users@[id].name@ == name
    &&& !post.users@[id].verified
    &&& post.users@[id].expertise_areas@ == Map::<Seq<char>, u32>::empty()
    &&& forall|k: u64|
        k != id && pre.users@.dom().contains(k) ==> post.users@[k] == pre.users@[k]
    &&& same_reputation(pre, post)
    &&& same_credentials(pre, post)
    &&& same_disputes(pre, post)
    &&& same_recovery(pre, post)
    &&& same_probation(pre, post)
    &&& same_analytics(pre, post)
}

/// What verification returns for a given ledger, caller verdict, user and
/// details: `NotFound(User)` for an unknown id, `AlreadyVerified` the second
/// time, `ValidationFailed` for empty details, else success.
pub open spec fn spec_verify_user_outcome(
    s: ContributorReputation,
    attested: bool,
    user_id: u64,
    details: Seq<char>,
) -> Result<(), Error> {
    if !attested {
        Err(Error::Unauthorized)
    } else if !s.users@.dom().contains(user_id) {
        Err(Error::NotFound(EntityKind::User))
    } else if s.users@[user_id].verified {
        Err(Error::AlreadyVerified)
    } else if details.len() == 0 {
        Err(Error::ValidationFailed)
    } else {
        Ok(())
    }
}

/// `post` is `pre` with the user's `verified` flag set and every other
/// record and field kept.
pub open spec fn verify_user_applied(
    pre: ContributorReputation,
    post: ContributorReputation,
    user_id: u64,
) -> bool {
    &&& post.users@.dom() == pre.users@.dom()
    &&& post.users@[user_id].id == user_id
    &&& post.users@[user_id].name@ == pre.users@[user_id].name@
    &&& post.users@[user_id].verified
    &&& post.users@[user_id].expertise_areas@ == pre.users@[user_id].expertise_areas@
    &&& forall|k: u64|
        k != user_id && pre.users@.dom().contains(k) ==> post.users@[k] == pre.users@[k]
    &&& same_counters(pre, post)
    &&& same_reputation(pre, post)
    &&& same_credentials(pre, post)
    &&& same_disputes(pre, post)
    &&& same_recovery(pre, post)
    &&& same_probation(pre, post)
    &&& same_analytics(pre, post)
}

/// What replacing a user's expertise areas returns.
pub open spec fn spec_update_expertise_outcome(
    s: ContributorReputation,
    attested: bool,
    user_id: u64,
) -> Result<(), Error> {
    if !attested {
        Err(Error::Unauthorized)
    } else if !s.users@.dom().contains(user_id) {
        Err(Error::NotFound(EntityKind::User))
    } else {
        Ok(())
    }
}

/// `post` is `pre` with the user's expertise areas replaced wholesale by
/// `areas` and every other record and field kept.
pub open spec fn update_expertise_applied(
    pre: ContributorReputation,
    post: ContributorReputation,
    user_id: u64,
    areas: Map<Seq<char>, u32>,
) -> bool {
    &&& post.users@.dom() == pre.users@.dom()
    &&& post.users@[user_id].id == user_id
    &&& post.users@[user_id].name@ == pre.users@[user_id].name@
    &&& post.users@[user_id].verified == pre.users@[user_id].verified
    &&& post.users@[user_id].expertise_areas@ == areas
    &&& forall|k: u64|
        k != user_id && pre.users@.dom().contains(k) ==> post.users@[k] == pre.users@[k]
    &&& same_counters(pre, post)
    &&& same_reputation(pre, post)
    &&& same_credentials(pre, post)
    &&& same_disputes(pre, post)
    &&& same_recovery(pre, post)
    &&& same_probation(pre, post)
    &&& same_analytics(pre, post)
}

/// What minting returns: the allocated token id, or the error naming the
/// failed gate.
pub open spec fn spec_mint_credential_outcome(
    s: ContributorReputation,
    attested: bool,
    user_id: u64,
) -> Result<u64, Error> {
    if !attested {
        Err(Error::Unauthorized)
    } else if !s.users@.dom().contains(user_id) {
        Err(Error::NotFound(EntityKind::User))
    } else if !s.users@[user_id].verified {
        Err(Error::PreconditionNotMet)
    } else {
        Ok(s.next_token_id)
    }
}

/// `post` is `pre` after minting a credential for `user_id` at `now`: the
/// allocated token id carries the new token, the token counter moved one up,
/// and nothing else changed. The user is already verified — the mint gate
/// demands it — so marking the owner verified changes no record.
pub open spec fn mint_credential_applied(
    pre: ContributorReputation,
    post: ContributorReputation,
    user_id: u64,
    now: u64,
) -> bool {
    &&& post.next_token_id == pre.next_token_id + 1
    &&& post.next_user_id == pre.next_user_id
    &&& post.next_dispute_id == pre.next_dispute_id
    &&& post.credentials@ == pre.credentials@.insert(
        pre.next_token_id,
        CredentialToken { token_id: pre.next_token_id, user_id, issued_at: now },
    )
    &&& same_identity(pre, post)
    &&& same_reputation(pre, post)
    &&& same_disputes(pre, post)
    &&& same_recovery(pre, post)
    &&& same_probation(pre, post)
    &&& same_analytics(pre, post)
}

/// `true` when some credential token names `user_id` as its owner.
pub open spec fn spec_has_credential(s: ContributorReputation, user_id: u64) -> bool {
    exists|tid: u64| #[trigger]
        s.credentials@.dom().contains(tid) && s.credentials@[tid].user_id == user_id
}

/// What a content-verification check returns: the user must exist, be
/// verified, and hold an expertise entry for the subject.
pub open spec fn spec_verify_content_outcome(
    s: ContributorReputation,
    attested: bool,
    user_id: u64,
    subject: Seq<char>,
) -> Result<(), Error> {
    if !attested {
        Err(Error::Unauthorized)
    } else if !s.users@.dom().contains(user_id) {
        Err(Error::NotFound(EntityKind::User))
    } else if !s.users@[user_id].verified {
        Err(Error::PreconditionNotMet)
    } else if !s.users@[user_id].expertise_areas@.dom().contains(subject) {
        Err(Error::PreconditionNotMet)
    } else {
        Ok(())
    }
}

impl ContributorReputation {
    /// Registers a new user: allocates the next user id and stores an
    /// unverified record with no expertise areas.
    pub fn initialize_user(&mut self, attested: bool, name: String) -> (r: Result<u64, Error>)
        requires
            old(self).next_user_id < u64::MAX,
        ensures
            r == spec_initialize_user_outcome(*old(self), attested),
            attested ==> initialize_user_applied(*old(self), *final(self), name@),
            !attested ==> *final(self) == *old(self),
    {
        if !attested {
            return Err(Error::Unauthorized);
        }
        let user_id = self.increment_user_id();
        let user = User { id: user_id, name, verified: false, expertise_areas: StrMap::new() };
        self.store_user(user);
        proof {
            assert(final(self).users@.dom() =~= old(self).users@.dom().insert(user_id));
        }
        Ok(user_id)
    }

    /// Marks a user verified, exactly once: a second call fails with
    /// `AlreadyVerified`, and empty details fail with `ValidationFailed`.
    pub fn verify_user(&mut self, attested: bool, user_id: u64, details: &String) -> (r: Result<
        (),
        Error,
    >)
        ensures
            r == spec_verify_user_outcome(*old(self), attested, user_id, details@),
            r is Ok ==> verify_user_applied(*old(self), *final(self), user_id),
            r is Err ==> *final(self) == *old(self),
    {
        if !attested {
            return Err(Error::Unauthorized);
        }
        let user = match self.get_user(user_id) {
            Ok(u) => u,
            Err(e) => { return Err(e) },
        };
        if user.verified {
            return Err(Error::AlreadyVerified);
        }
        if details.as_str().is_empty() {
            return Err(Error::ValidationFailed);
        }
        let name = user.name.clone();
        let expertise_areas = user.expertise_areas.duplicate();
        let updated = User { id: user_id, name, verified: true, expertise_areas };
        self.store_user(updated);
        proof {
            assert(final(self).users@.dom() =~= old(self).users@.dom());
        }
        Ok(())
    }

    /// Replaces a user's expertise areas wholesale; there is no merge.
    pub fn update_expertise_areas(
        &mut self,
        attested: bool,
        user_id: u64,
        areas: StrMap<u32>,
    ) -> (r: Result<(), Error>)
        ensures
            r == spec_update_expertise_outcome(*old(self), attested, user_id),
            r is Ok ==> update_expertise_applied(*old(self), *final(self), user_id, areas@),
            r is Err ==> *final(self) == *old(self),
    {
        if !attested {
            return Err(Error::Unauthorized);
        }
        let user = match self.get_user(user_id) {
            Ok(u) => u,
            Err(e) => { return Err(e) },
        };
        let name = user.name.clone();
        let verified = user.verified;
        let updated = User { id: user_id, name, verified, expertise_areas: areas };
        self.store_user(updated);
        proof {
            assert(final(self).users@.dom() =~= old(self).users@.dom());
        }
        Ok(())
    }

    /// A user's expertise areas, or `NotFound(User)` for an unknown id.
    pub fn get_expertise_areas(&self, user_id: u64) -> (r: Result<&StrMap<u32>, Error>)
        ensures
            match r {
                Ok(m) => self.users@.dom().contains(user_id) && *m
                    == self.users@[user_id].expertise_areas,
                Err(e) => !self.users@.dom().contains(user_id) && e == Error::NotFound(
                    EntityKind::User,
                ),
            },
    {
        match self.get_user(user_id) {
            Ok(u) => Ok(&u.expertise_areas),
            Err(e) => Err(e),
        }
    }

    /// Mints a credential token for a verified user: allocates the next
    /// token id and stores the token stamped with `now`. Each successful
    /// call issues a fresh token, so a second mint for the same user simply
    /// issues a second one.
    pub fn mint_credential_token(&mut self, attested: bool, user_id: u64, now: u64) -> (r: Result<
        u64,
        Error,
    >)
        requires
            old(self).next_token_id < u64::MAX,
        ensures
            r == spec_mint_credential_outcome(*old(self), attested, user_id),
            r is Ok ==> mint_credential_applied(*old(self), *final(self), user_id, now),
            r is Err ==> *final(self) == *old(self),
            r is Ok ==> spec_has_credential(*final(self), user_id),
    {
        if !attested {
            return Err(Error::Unauthorized);
        }
        let user = match self.get_user(user_id) {
            Ok(u) => u,
            Err(e) => { return Err(e) },
        };
        if !user.verified {
            return Err(Error::PreconditionNotMet);
        }
        let token_id = self.increment_token_id();
        let credential = CredentialToken { token_id, user_id, issued_at: now };
        self.store_credential(credential);
        proof {
            assert(final(self).credentials@.dom().contains(token_id));
            assert(final(self).credentials@[token_id].user_id == user_id);
        }
        Ok(token_id)
    }

    /// Whether some stored credential token names `user_id` as its owner,
    /// found by scanning the token table.
    pub fn has_credential(&self, user_id: u64) -> (r: bool)
        ensures
            r == spec_has_credential(*self, user_id),
    {
        let n = self.credentials.len();
        let mut i: usize = 0;
        while i < n
            invariant
                i <= n,
                n == self.credentials.entries_seq().len(),
                forall|j: int|
                    0 <= j < i ==> (#[trigger] self.credentials.entries_seq()[j]).1.user_id
                        != user_id,
            decreases n - i,
        {
            let e = self.credentials.entry_at(i);
            if e.1.user_id == user_id {
                proof {
                    use_type_invariant(&self.credentials);
                    crate::idmap::lemma_id_map_dom(self.credentials.entries_seq());
                    crate::idmap::lemma_id_map_index(self.credentials.entries_seq());
                    let s = self.credentials.entries_seq();
                    assert(self.credentials@.dom().contains(s[i as int].0));
                    assert(self.credentials@[s[i as int].0].user_id == user_id);
                }
                return true;
            }
            i += 1;
        }
        proof {
            use_type_invariant(&self.credentials);
            crate::idmap::lemma_id_map_dom(self.credentials.entries_seq());
            crate::idmap::lemma_id_map_index(self.credentials.entries_seq());
            let s = self.credentials.entries_seq();
            assert forall|tid: u64| #[trigger]
                self.credentials@.dom().contains(tid) implies self.credentials@[tid].user_id
                != user_id by {
                let j = choose|j: int| 0 <= j < s.len() && (#[trigger] s[j]).0 == tid;
                assert(self.credentials@[s[j].0] == s[j].1);
            }
        }
        false
    }

    /// Checks that `user_id` may contribute content on `subject`: the user
    /// must exist, be verified, and hold an expertise entry for the subject.
    /// The check reads the ledger and changes nothing.
    pub fn verify_content(&self, attested: bool, user_id: u64, subject: &String) -> (r: Result<
        (),
        Error,
    >)
        ensures
            r == spec_verify_content_outcome(*self, attested, user_id, subject@),
    {
        if !attested {
            return Err(Error::Unauthorized);
        }
        let user = match self.get_user(user_id) {
            Ok(u) => u,
            Err(e) => { return Err(e) },
        };
        if !user.verified {
            return Err(Error::PreconditionNotMet);
        }
        if !user.expertise_areas.contains(subject) {
            return Err(Error::PreconditionNotMet);
        }
        Ok(())
    }
}

} // verus!
