use vstd::prelude::*;
use crate::identity::{same_bytes, Address};
use crate::profile::{ProfileView, UserProfile};
use crate::ttl::{EXTENDED_HORIZON, STANDARD_HORIZON};

verus! {

/// The address of a record in the ledger. The four classes of key never
/// address the same record.
#[derive(Clone, Copy, Debug, PartialEq, Eq)]
pub enum StorageKey {
    /// The administrator.
    Admin,
    /// The hash of the active session.
    ActiveHash,
    /// The presence of a user in the session with the given hash.
    Presence([u8; 32], Address),
    /// The profile of a user.
    UserProfile(Address),
}

impl StorageKey {
    /// Whether `self` and `other` address the same record.
    pub fn same(&self, other: &StorageKey) -> (r: bool)
        ensures
            r == (*self == *other),
    {
        match (self, other) {
            (StorageKey::Admin, StorageKey::Admin) => true,
            (StorageKey::ActiveHash, StorageKey::ActiveHash) => true,
            (StorageKey::Presence(h1, u1), StorageKey::Presence(h2, u2)) => same_bytes(h1, h2)
                && u1.same(u2),
            (StorageKey::UserProfile(u1), StorageKey::UserProfile(u2)) => u1.same(u2),
            _ => false,
        }
    }

    /// The lifetime asked for a record under this key whenever it is
    /// touched: the extended horizon for profiles, the standard one for all
    /// other records.
    pub open spec fn horizon_spec(&self) -> u32 {
        if self is UserProfile {
            EXTENDED_HORIZON
        } else {
            STANDARD_HORIZON
        }
    }

    #[verifier::when_used_as_spec(horizon_spec)]
    pub fn horizon(&self) -> (h: u32)
        ensures
            h == self.horizon_spec(),
    {
        match self {
            StorageKey::UserProfile(_) => EXTENDED_HORIZON,
            _ => STANDARD_HORIZON,
        }
    }
}

/// What a record holds. Each class of key has its own kind of value.
#[derive(Debug, PartialEq, Eq)]
pub enum Value {
    Admin(Address),
    Hash([u8; 32]),
    Flag(bool),
    Profile(UserProfile),
}

/// A stored value as a mathematical value.
pub enum ValueView {
    Admin(Address),
    Hash([u8; 32]),
    Flag(bool),
    Profile(ProfileView),
}

impl View for Value {
    type V = ValueView;

    open spec fn view(&self) -> ValueView {
        match *self {
            Value::Admin(a) => ValueView::Admin(a),
            Value::Hash(h) => ValueView::Hash(h),
            Value::Flag(b) => ValueView::Flag(b),
            Value::Profile(p) => ValueView::Profile(p@),
        }
    }
}

impl Clone for Value {
    fn clone(&self) -> (r: Value)
        ensures
            r == *self,
    {
        match self {
            Value::Admin(a) => Value::Admin(*a),
            Value::Hash(h) => Value::Hash(*h),
            Value::Flag(b) => Value::Flag(*b),
            Value::Profile(p) => Value::Profile(p.clone()),
        }
    }
}

impl ValueView {
    /// Whether a value of this kind may stand under `key`: an identity under
    /// `Admin`, a hash under `ActiveHash`, the flag `true` under a presence
    /// key (a presence record is written once and never says `false`), and
    /// a profile under a profile key.
    pub open spec fn fits(self, key: StorageKey) -> bool {
        match key {
            StorageKey::Admin => self is Admin,
            StorageKey::ActiveHash => self is Hash,
            StorageKey::Presence(_, _) => self == ValueView::Flag(true),
            StorageKey::UserProfile(_) => self is Profile,
        }
    }
}

impl Value {
    /// Whether this value may stand under `key`.
    pub fn fits(&self, key: &StorageKey) -> (ok: bool)
        ensures
            ok == self@.fits(*key),
    {
        match (key, self) {
            (StorageKey::Admin, Value::Admin(_)) => true,
            (StorageKey::ActiveHash, Value::Hash(_)) => true,
            (StorageKey::Presence(_, _), Value::Flag(b)) => *b,
            (StorageKey::UserProfile(_), Value::Profile(_)) => true,
            _ => false,
        }
    }
}

} // verus!
