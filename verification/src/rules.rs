use vstd::prelude::*;
use crate::error::{Error, Failure};
use crate::event::EventView;
use crate::identity::Address;
use crate::key::{StorageKey, ValueView};
use crate::profile::{valid_nickname, ProfileView};
use crate::state::LedgerView;

verus! {

/// What `initialize` answers: the contract is initialized once, by an
/// administrator who consents. Consent is asked for first, before the
/// ledger is looked at.
pub open spec fn initialize_result(pre: LedgerView, auth: Set<Address>, admin: Address) -> Result<
    (),
    Failure,
> {
    if !auth.contains(admin) {
        Err(Failure::Unauthorized(admin))
    } else if pre.has(StorageKey::Admin) {
        Err(Failure::Contract(Error::AlreadyInitialized))
    } else {
        Ok(())
    }
}

/// The ledger after `initialize`.
pub open spec fn after_initialize(pre: LedgerView, auth: Set<Address>, admin: Address)
    -> LedgerView {
    if initialize_result(pre, auth, admin) is Ok {
        pre.write(StorageKey::Admin, ValueView::Admin(admin)).touch(StorageKey::Admin).publish(
            EventView::Init { admin },
        )
    } else {
        pre
    }
}

/// What `set_hash` answers: only the administrator starts a session.
pub open spec fn set_hash_result(pre: LedgerView, auth: Set<Address>) -> Result<(), Failure> {
    match pre.admin() {
        None => Err(Failure::Contract(Error::NotInitialized)),
        Some(admin) => if !auth.contains(admin) {
            Err(Failure::Unauthorized(admin))
        } else {
            Ok(())
        },
    }
}

/// The ledger after `set_hash`: the new hash stands in place of the old
/// one, and no presence record is moved or removed.
pub open spec fn after_set_hash(pre: LedgerView, auth: Set<Address>, new_hash: [u8; 32])
    -> LedgerView {
    if set_hash_result(pre, auth) is Ok {
        pre.write(StorageKey::ActiveHash, ValueView::Hash(new_hash)).touch(
            StorageKey::ActiveHash,
        ).publish(EventView::NewSession { hash: new_hash })
    } else {
        pre
    }
}

/// What `register` answers: a consenting user registers once for the active
/// session, and only with its hash.
pub open spec fn register_result(
    pre: LedgerView,
    auth: Set<Address>,
    user: Address,
    submitted_hash: [u8; 32],
) -> Result<(), Failure> {
    if !auth.contains(user) {
        Err(Failure::Unauthorized(user))
    } else {
        match pre.session() {
            None => Err(Failure::Contract(Error::NoActiveSession)),
            Some(hash) => if submitted_hash != hash {
                Err(Failure::Contract(Error::IncorrectHash))
            } else if pre.has(StorageKey::Presence(hash, user)) {
                Err(Failure::Contract(Error::AlreadyRegistered))
            } else {
                Ok(())
            },
        }
    }
}

/// The nickname that a registration announces: that of the user's profile,
/// or the empty text where the user has none.
pub open spec fn announced_nickname(pre: LedgerView, user: Address) -> Seq<char> {
    match pre.profile(user) {
        Some(profile) => profile.nickname,
        None => Seq::empty(),
    }
}

/// The ledger after `register`. Once the user has consented and a session
/// is active, the session is touched, whatever the answer.
pub open spec fn after_register(
    pre: LedgerView,
    auth: Set<Address>,
    user: Address,
    submitted_hash: [u8; 32],
) -> LedgerView {
    if !auth.contains(user) || pre.session() is None {
        pre
    } else {
        let hash = pre.session().unwrap();
        let touched = pre.touch(StorageKey::ActiveHash);
        if register_result(pre, auth, user, submitted_hash) is Err {
            touched
        } else {
            let recorded = touched.write(
                StorageKey::Presence(hash, user),
                ValueView::Flag(true),
            ).touch(StorageKey::Presence(hash, user));
            let enriched = if pre.profile(user) is Some {
                recorded.touch(StorageKey::UserProfile(user))
            } else {
                recorded
            };
            enriched.publish(
                EventView::Present { user, hash, nickname: announced_nickname(pre, user) },
            )
        }
    }
}

/// What `transfer_admin` answers: the administrator in office and the new
/// one must both consent.
pub open spec fn transfer_admin_result(pre: LedgerView, auth: Set<Address>, new_admin: Address)
    -> Result<(), Failure> {
    match pre.admin() {
        None => Err(Failure::Contract(Error::NotInitialized)),
        Some(admin) => if !auth.contains(admin) {
            Err(Failure::Unauthorized(admin))
        } else if !auth.contains(new_admin) {
            Err(Failure::Unauthorized(new_admin))
        } else {
            Ok(())
        },
    }
}

/// The ledger after `transfer_admin`.
pub open spec fn after_transfer_admin(pre: LedgerView, auth: Set<Address>, new_admin: Address)
    -> LedgerView {
    if transfer_admin_result(pre, auth, new_admin) is Ok {
        pre.write(StorageKey::Admin, ValueView::Admin(new_admin)).touch(
            StorageKey::Admin,
        ).publish(
            EventView::AdminTransfer { old_admin: pre.admin().unwrap(), new_admin },
        )
    } else {
        pre
    }
}

/// What `set_profile` answers: a consenting user may take any nickname of
/// 3 to 32 characters.
pub open spec fn set_profile_result(auth: Set<Address>, user: Address, nickname: Seq<char>)
    -> Result<(), Failure> {
    if !auth.contains(user) {
        Err(Failure::Unauthorized(user))
    } else if !valid_nickname(nickname) {
        Err(Failure::Contract(Error::InvalidNickname))
    } else {
        Ok(())
    }
}

/// The ledger after `set_profile`: the profile is replaced as a whole and
/// dated with the current ledger.
pub open spec fn after_set_profile(
    pre: LedgerView,
    auth: Set<Address>,
    user: Address,
    nickname: Seq<char>,
) -> LedgerView {
    if set_profile_result(auth, user, nickname) is Ok {
        pre.write(
            StorageKey::UserProfile(user),
            ValueView::Profile(ProfileView { nickname, registered_at: pre.sequence }),
        ).touch(StorageKey::UserProfile(user)).publish(EventView::Profile { user, nickname })
    } else {
        pre
    }
}

/// The ledger after `get_profile`: a profile that was found is touched.
pub open spec fn after_get_profile(pre: LedgerView, user: Address) -> LedgerView {
    if pre.profile(user) is Some {
        pre.touch(StorageKey::UserProfile(user))
    } else {
        pre
    }
}

/// What `check_presence` answers: whether the user is on record for the
/// active session; `false` without one.
pub open spec fn check_presence_result(pre: LedgerView, user: Address) -> bool {
    match pre.session() {
        None => false,
        Some(hash) => pre.present(hash, user),
    }
}

/// The ledger after the presence of `user` in the session with `hash` was
/// looked up: a record that says `true` is touched.
pub open spec fn after_lookup(pre: LedgerView, hash: [u8; 32], user: Address) -> LedgerView {
    if pre.present(hash, user) {
        pre.touch(StorageKey::Presence(hash, user))
    } else {
        pre
    }
}

/// The ledger after `check_presence`: nothing happens without an active
/// session; with one, the session is touched and the user looked up.
pub open spec fn after_check_presence(pre: LedgerView, user: Address) -> LedgerView {
    match pre.session() {
        None => pre,
        Some(hash) => after_lookup(pre.touch(StorageKey::ActiveHash), hash, user),
    }
}

/// What `get_admin` answers.
pub open spec fn get_admin_result(pre: LedgerView) -> Result<Address, Error> {
    match pre.admin() {
        Some(admin) => Ok(admin),
        None => Err(Error::NotInitialized),
    }
}

/// The ledger after `get_admin`: the request to keep the administrator's
/// record alive is made whatever the answer.
pub open spec fn after_get_admin(pre: LedgerView) -> LedgerView {
    pre.touch(StorageKey::Admin)
}

/// The ledger after `get_session`: a session that was found is touched.
pub open spec fn after_get_session(pre: LedgerView) -> LedgerView {
    if pre.session() is Some {
        pre.touch(StorageKey::ActiveHash)
    } else {
        pre
    }
}

/// What `check_batch` answers: without an active session nothing at all;
/// with one, for each place of `users`, whether that user is on record.
pub open spec fn check_batch_result(pre: LedgerView, users: Seq<Address>) -> Seq<bool> {
    match pre.session() {
        None => Seq::empty(),
        Some(hash) => Seq::new(users.len(), |i: int| pre.present(hash, users[i])),
    }
}

/// The ledger after each of `users` was looked up in turn.
pub open spec fn after_lookups(pre: LedgerView, hash: [u8; 32], users: Seq<Address>) -> LedgerView
    decreases users.len(),
{
    if users.len() == 0 {
        pre
    } else {
        after_lookup(after_lookups(pre, hash, users.drop_last()), hash, users.last())
    }
}

/// The ledger after `check_batch`: nothing happens without an active
/// session; with one, the session is touched once and the users are looked
/// up in order, each occurrence for itself.
pub open spec fn after_check_batch(pre: LedgerView, users: Seq<Address>) -> LedgerView {
    match pre.session() {
        None => pre,
        Some(hash) => after_lookups(pre.touch(StorageKey::ActiveHash), hash, users),
    }
}

/// One call of the registry, with all that it is given.
pub enum Call {
    Initialize { auth: Set<Address>, admin: Address },
    SetHash { auth: Set<Address>, new_hash: [u8; 32] },
    Register { auth: Set<Address>, user: Address, submitted_hash: [u8; 32] },
    TransferAdmin { auth: Set<Address>, new_admin: Address },
    SetProfile { auth: Set<Address>, user: Address, nickname: Seq<char> },
    GetProfile { user: Address },
    CheckPresence { user: Address },
    GetAdmin,
    GetSession,
    CheckBatch { users: Seq<Address> },
}

impl Call {
    /// Whether the call only asks: the five calls that answer a question
    /// and store nothing.
    pub open spec fn is_query(self) -> bool {
        self is GetProfile || self is CheckPresence || self is GetAdmin || self is GetSession
            || self is CheckBatch
    }

    /// Whether the call, made of `pre`, succeeds. A query always does,
    /// but for `get_admin`, which needs an administrator.
    pub open spec fn succeeds(self, pre: LedgerView) -> bool {
        match self {
            Call::Initialize { auth, admin } => initialize_result(pre, auth, admin) is Ok,
            Call::SetHash { auth, new_hash } => set_hash_result(pre, auth) is Ok,
            Call::Register { auth, user, submitted_hash } => register_result(
                pre,
                auth,
                user,
                submitted_hash,
            ) is Ok,
            Call::TransferAdmin { auth, new_admin } => transfer_admin_result(
                pre,
                auth,
                new_admin,
            ) is Ok,
            Call::SetProfile { auth, user, nickname } => set_profile_result(
                auth,
                user,
                nickname,
            ) is Ok,
            Call::GetAdmin => get_admin_result(pre) is Ok,
            _ => true,
        }
    }

    /// The ledger after the call was made of `pre`.
    pub open spec fn after(self, pre: LedgerView) -> LedgerView {
        match self {
            Call::Initialize { auth, admin } => after_initialize(pre, auth, admin),
            Call::SetHash { auth, new_hash } => after_set_hash(pre, auth, new_hash),
            Call::Register { auth, user, submitted_hash } => after_register(
                pre,
                auth,
                user,
                submitted_hash,
            ),
            Call::TransferAdmin { auth, new_admin } => after_transfer_admin(pre, auth, new_admin),
            Call::SetProfile { auth, user, nickname } => after_set_profile(
                pre,
                auth,
                user,
                nickname,
            ),
            Call::GetProfile { user } => after_get_profile(pre, user),
            Call::CheckPresence { user } => after_check_presence(pre, user),
            Call::GetAdmin => after_get_admin(pre),
            Call::GetSession => after_get_session(pre),
            Call::CheckBatch { users } => after_check_batch(pre, users),
        }
    }

    /// The key under which the call stores a value when it succeeds; a
    /// query stores none.
    pub open spec fn stores(self, pre: LedgerView) -> Option<StorageKey> {
        match self {
            Call::Initialize { auth, admin } => Some(StorageKey::Admin),
            Call::SetHash { auth, new_hash } => Some(StorageKey::ActiveHash),
            Call::Register { auth, user, submitted_hash } => Some(
                StorageKey::Presence(submitted_hash, user),
            ),
            Call::TransferAdmin { auth, new_admin } => Some(StorageKey::Admin),
            Call::SetProfile { auth, user, nickname } => Some(StorageKey::UserProfile(user)),
            _ => None,
        }
    }

    /// The event that the call publishes when it succeeds; a query
    /// publishes none.
    pub open spec fn announces(self, pre: LedgerView) -> Option<EventView> {
        match self {
            Call::Initialize { auth, admin } => Some(EventView::Init { admin }),
            Call::SetHash { auth, new_hash } => Some(EventView::NewSession { hash: new_hash }),
            Call::Register { auth, user, submitted_hash } => Some(
                EventView::Present {
                    user,
                    hash: submitted_hash,
                    nickname: announced_nickname(pre, user),
                },
            ),
            Call::TransferAdmin { auth, new_admin } => Some(
                EventView::AdminTransfer { old_admin: pre.admin().unwrap(), new_admin },
            ),
            Call::SetProfile { auth, user, nickname } => Some(
                EventView::Profile { user, nickname },
            ),
            _ => None,
        }
    }
}

} // verus!
