//! The portfolio data model: the owner's personal information, wallets and
//! address-book entries.

use vstd::prelude::*;

use crate::store::Keyed;

verus! {

pub type Timestamp = u64;

pub type WalletId = u64;

pub type AddressId = u64;

/// Builds a stored profile from a command, given the id and the update time.
pub trait BuildProfile<K, V>: Sized {
    /// What the command asks of the id it is combined with.
    spec fn build_pre(self, id: K, updated_at: Timestamp) -> bool;

    /// The profile the command builds.
    spec fn built(self, id: K, updated_at: Timestamp) -> V;

    fn build_profile(self, id: K, updated_at: Timestamp) -> (r: V)
        requires
            self.build_pre(id, updated_at),
        ensures
            r == self.built(id, updated_at),
    ;
}

/// The owner's personal information.
pub struct PersonalInfo {
    pub name: String,
    pub email: Vec<String>,
    pub photos: Vec<u64>,
}

/// A wallet record: a named account or wallet address.
pub struct WalletProfile {
    pub id: WalletId,
    pub name: String,
    pub account: String,
    pub updated_at: Timestamp,
}

/// The mathematical value of a wallet record.
#[verifier::ext_equal]
pub struct WalletProfileView {
    pub id: WalletId,
    pub name: Seq<char>,
    pub account: Seq<char>,
    pub updated_at: Timestamp,
}

impl View for WalletProfile {
    type V = WalletProfileView;

    open spec fn view(&self) -> WalletProfileView {
        WalletProfileView {
            id: self.id,
            name: self.name@,
            account: self.account@,
            updated_at: self.updated_at,
        }
    }
}

impl Keyed for WalletProfileView {
    open spec fn key(self) -> u64 {
        self.id
    }
}

impl Clone for WalletProfile {
    fn clone(&self) -> (r: Self)
        ensures
            r@ == self@,
    {
        let r = WalletProfile {
            id: self.id,
            name: self.name.clone(),
            account: self.account.clone(),
            updated_at: self.updated_at,
        };
        proof {
            assert(r@ =~= self@);
        }
        r
    }
}

/// The inputs for adding a wallet.
pub struct WalletAddCommand {
    pub name: String,
    pub account: String,
}

impl BuildProfile<u64, WalletProfile> for WalletAddCommand {
    open spec fn build_pre(self, id: u64, updated_at: Timestamp) -> bool {
        true
    }

    open spec fn built(self, id: u64, updated_at: Timestamp) -> WalletProfile {
        WalletProfile { id, name: self.name, account: self.account, updated_at }
    }

    fn build_profile(self, id: WalletId, updated_at: Timestamp) -> (r: WalletProfile) {
        WalletProfile { id, name: self.name, account: self.account, updated_at }
    }
}

/// The inputs for editing a wallet; the id names the record.
pub struct WalletEditCommand {
    pub id: WalletId,
    pub name: String,
    pub account: String,
    pub created_at: Timestamp,
}

impl BuildProfile<u64, WalletProfile> for WalletEditCommand {
    open spec fn build_pre(self, id: u64, updated_at: Timestamp) -> bool {
        id == self.id
    }

    open spec fn built(self, id: u64, updated_at: Timestamp) -> WalletProfile {
        WalletProfile { id, name: self.name, account: self.account, updated_at }
    }

    fn build_profile(self, id: WalletId, updated_at: Timestamp) -> (r: WalletProfile) {
        WalletProfile { id, name: self.name, account: self.account, updated_at }
    }
}

/// An address-book entry.
pub struct AddressProfile {
    pub id: AddressId,
    pub name: String,
    pub tel: Vec<String>,
    pub address: Vec<AddressValue>,
    pub created_at: Timestamp,
}

/// One tagged address of an address-book entry.
pub struct AddressValue {
    pub tag: String,
    pub address: String,
}

} // verus!
