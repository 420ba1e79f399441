//! The portfolio service: the owner's personal information and the wallet
//! and address-book stores.

use vstd::prelude::*;

use crate::error::PersonalError;
use crate::portfolio::domain::AddressProfile;
use crate::portfolio::domain::BuildProfile;
use crate::portfolio::domain::PersonalInfo;
use crate::portfolio::domain::WalletAddCommand;
use crate::portfolio::domain::WalletEditCommand;
use crate::portfolio::domain::WalletId;
use crate::portfolio::domain::WalletProfile;
use crate::portfolio::domain::WalletProfileView;
use crate::store::Keyed;
use crate::store::lemma_lookup_found;
use crate::store::lemma_lookup_none;
use crate::store::lemma_remove_at;
use crate::store::lemma_remove_sorted;
use crate::store::lemma_upsert_prefix;
use crate::store::lemma_upsert_sorted;
use crate::store::lookup;
use crate::store::remove_key;
use crate::store::sorted_by_key;
use crate::store::upsert;

verus! {

/// The owner's portfolio: personal information, wallets in ascending id
/// order, and address-book entries.
pub struct PersonalService {
    pub person_info: PersonalInfo,
    pub wallets: Vec<WalletProfile>,
    pub address_books: Vec<AddressProfile>,
}

impl Default for PersonalService {
    fn default() -> (r: Self)
        ensures
            r.wallets_view() == Seq::<WalletProfileView>::empty(),
            r.wf(),
    {
        let r = PersonalService {
            person_info: PersonalInfo { name: String::new(), email: Vec::new(), photos: Vec::new() },
            wallets: Vec::new(),
            address_books: Vec::new(),
        };
        proof {
            assert(r.wallets_view() =~= Seq::<WalletProfileView>::empty());
        }
        r
    }
}

impl PersonalService {
    /// The wallet store as a sequence of record values.
    pub open spec fn wallets_view(self) -> Seq<WalletProfileView> {
        self.wallets@.map_values(|w: WalletProfile| w@)
    }

    /// The service's invariant: wallets sit in strictly ascending id order.
    pub open spec fn wf(self) -> bool {
        sorted_by_key(self.wallets_view())
    }

    /// The index of the wallet with the given id, scanning from the front.
    fn find_wallet_index(&self, id: WalletId) -> (r: Option<usize>)
        ensures
            match r {
                Some(i) => i < self.wallets.len() && self.wallets_view()[i as int].id == id
                    && lookup(self.wallets_view(), id) == Some(self.wallets_view()[i as int]) && (
                forall|j: int| 0 <= j < i ==> self.wallets_view()[j].id != id),
                None => lookup(self.wallets_view(), id) is None,
            },
    {
        let mut i: usize = 0;
        while i < self.wallets.len()
            invariant
                i <= self.wallets.len(),
                forall|j: int| 0 <= j < i ==> self.wallets_view()[j].id != id,
            decreases self.wallets.len() - i,
        {
            if self.wallets[i].id == id {
                proof {
                    lemma_lookup_found(self.wallets_view(), id, i as int);
                }
                return Some(i);
            }
            i += 1;
        }
        proof {
            lemma_lookup_none(self.wallets_view(), id);
        }
        None
    }

    /// Add a wallet under the given id; refused when the id is taken.
    pub fn add_wallet(&mut self, cmd: WalletAddCommand, id: WalletId, updated_at: u64) -> (r:
        Result<u64, PersonalError>)
        requires
            old(self).wf(),
        ensures
            final(self).wf(),
            final(self).person_info == old(self).person_info,
            final(self).address_books == old(self).address_books,
            match r {
                Ok(rid) => rid == id && lookup(old(self).wallets_view(), id) is None && final(self).wallets_view() == upsert(old(self).wallets_view(), cmd.built(id, updated_at)@),
                Err(e) => e == PersonalError::WalletAlreadyExist && lookup(
                    old(self).wallets_view(),
                    id,
                ) is Some && final(self).wallets_view() == old(self).wallets_view(),
            },
    {
        match self.find_wallet_index(id) {
            Some(_) => Err(PersonalError::WalletAlreadyExist),
            None => {
                let ghost s = self.wallets_view();
                let profile = cmd.build_profile(id, updated_at);
                let mut i: usize = 0;
                while i < self.wallets.len() && self.wallets[i].id < profile.id
                    invariant
                        i <= self.wallets.len(),
                        forall|j: int| 0 <= j < i ==> self.wallets_view()[j].id < profile@.id,
                        *self == *old(self),
                        profile.id == id,
                    decreases self.wallets.len() - i,
                {
                    i += 1;
                }
                proof {
                    lemma_upsert_prefix(s, profile@, i as int);
                    lemma_upsert_sorted(s, profile@);
                }
                let ghost pos = i as int;
                if i < self.wallets.len() && self.wallets[i].id == profile.id {
                    // the earlier scan found no record under this id
                    proof {
                        assert(forall|j: int| 0 <= j < pos ==> s[j].id != id);
                        lemma_lookup_found(s, id, pos);
                    }
                    Err(PersonalError::WalletAlreadyExist)
                } else {
                    self.wallets.insert(i, profile);
                    proof {
                        if pos < s.len() {
                            assert(s.skip(pos)[0] == s[pos]);
                            assert(upsert(s.skip(pos), profile@) == seq![profile@] + s.skip(pos));
                        } else {
                            assert(s.skip(pos) =~= Seq::<WalletProfileView>::empty());
                        }
                        assert(self.wallets_view() =~= s.take(pos) + upsert(
                            s.skip(pos),
                            profile@,
                        ));
                    }
                    Ok(id)
                }
            },
        }
    }

    /// Check that the wallet exists and assemble the replacement profile;
    /// the stored record itself is left untouched.
    pub fn edit_wallet(&mut self, cmd: WalletEditCommand, updated_at: u64) -> (r: Option<bool>)
        requires
            old(self).wf(),
        ensures
            *final(self) == *old(self),
            match r {
                Some(b) => b && lookup(old(self).wallets_view(), cmd.id) is Some,
                None => lookup(old(self).wallets_view(), cmd.id) is None,
            },
    {
        match self.find_wallet_index(cmd.id) {
            Some(_) => {
                let id = cmd.id;
                let _ = cmd.build_profile(id, updated_at);
                Some(true)
            },
            None => None,
        }
    }

    /// Remove the wallet permanently.
    pub fn delete_wallet(&mut self, id: WalletId) -> (r: Option<bool>)
        requires
            old(self).wf(),
        ensures
            final(self).wf(),
            final(self).person_info == old(self).person_info,
            final(self).address_books == old(self).address_books,
            match r {
                Some(b) => b && lookup(old(self).wallets_view(), id) is Some && final(self).wallets_view() == remove_key(old(self).wallets_view(), id),
                None => lookup(old(self).wallets_view(), id) is None && final(self).wallets_view()
                    == old(self).wallets_view(),
            },
    {
        let ghost s = self.wallets_view();
        match self.find_wallet_index(id) {
            Some(i) => {
                self.wallets.remove(i);
                proof {
                    assert(self.wallets_view() =~= s.remove(i as int));
                    lemma_remove_at(s, id, i as int);
                    lemma_remove_sorted(s, id);
                }
                Some(true)
            },
            None => None,
        }
    }

    /// Look a wallet up by id and hand back a copy of it.
    pub fn get_wallet(&self, id: WalletId) -> (r: Option<WalletProfile>)
        ensures
            match r {
                Some(w) => lookup(self.wallets_view(), id) == Some(w@),
                None => lookup(self.wallets_view(), id) is None,
            },
    {
        match self.find_wallet_index(id) {
            Some(i) => Some(self.wallets[i].clone()),
            None => None,
        }
    }

    /// All wallets, in ascending id order.
    pub fn list_wallets(&self) -> (r: Vec<WalletProfile>)
        ensures
            r@.map_values(|w: WalletProfile| w@) == self.wallets_view(),
    {
        let mut r: Vec<WalletProfile> = Vec::new();
        let mut i: usize = 0;
        proof {
            assert(r@.map_values(|w: WalletProfile| w@) =~= self.wallets_view().take(0));
        }
        while i < self.wallets.len()
            invariant
                i <= self.wallets.len(),
                r@.map_values(|w: WalletProfile| w@) == self.wallets_view().take(i as int),
            decreases self.wallets.len() - i,
        {
            let ghost acc = r@.map_values(|w: WalletProfile| w@);
            r.push(self.wallets[i].clone());
            proof {
                assert(r@.map_values(|w: WalletProfile| w@) =~= acc.push(
                    self.wallets_view()[i as int],
                ));
                assert(self.wallets_view().take(i + 1) =~= self.wallets_view().take(
                    i as int,
                ).push(self.wallets_view()[i as int]));
            }
            i += 1;
        }
        proof {
            assert(self.wallets_view().take(self.wallets.len() as int) =~= self.wallets_view());
        }
        r
    }
}

} // verus!
