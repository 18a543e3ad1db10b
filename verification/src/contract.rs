use vstd::prelude::*;
use crate::auth::Authorization;
use crate::error::{Error, Failure};
use crate::event::Event;
use crate::identity::{same_bytes, Address};
use crate::key::{StorageKey, Value};
use crate::ledger::Ledger;
use crate::profile::{is_valid_nickname, UserProfile};
use crate::rules::{
    after_check_batch, after_check_presence, after_get_admin, after_get_profile,
    after_get_session, after_initialize, after_lookup, after_lookups, after_register,
    after_set_hash, after_set_profile, after_transfer_admin, check_batch_result,
    check_presence_result, get_admin_result, initialize_result, register_result,
    set_hash_result, set_profile_result, transfer_admin_result,
};

verus! {

/// The registry. Its state is all in the ledger that each call is given.
pub struct AttendanceContract;

impl AttendanceContract {
    /// Gives the contract its first administrator.
    pub fn initialize(env: &mut Ledger, auth: &Authorization, admin: Address) -> (r: Result<
        (),
        Failure,
    >)
        requires
            old(env).wf(),
        ensures
            final(env).wf(),
            r == initialize_result(old(env)@, auth@, admin),
            final(env)@ == after_initialize(old(env)@, auth@, admin),
    {
        if !auth.covers(&admin) {
            return Err(Failure::Unauthorized(admin));
        }
        if env.has(&StorageKey::Admin) {
            return Err(Failure::Contract(Error::AlreadyInitialized));
        }
        env.set(StorageKey::Admin, Value::Admin(admin));
        env.touch(&StorageKey::Admin);
        env.publish(Event::Init { admin });
        Ok(())
    }

    /// Makes `new_hash` the hash of the active session.
    pub fn set_hash(env: &mut Ledger, auth: &Authorization, new_hash: [u8; 32]) -> (r: Result<
        (),
        Failure,
    >)
        requires
            old(env).wf(),
        ensures
            final(env).wf(),
            r == set_hash_result(old(env)@, auth@),
            final(env)@ == after_set_hash(old(env)@, auth@, new_hash),
    {
        let admin = match env.admin() {
            Some(admin) => admin,
            None => {
                return Err(Failure::Contract(Error::NotInitialized));
            },
        };
        if !auth.covers(&admin) {
            return Err(Failure::Unauthorized(admin));
        }
        env.set(StorageKey::ActiveHash, Value::Hash(new_hash));
        env.touch(&StorageKey::ActiveHash);
        env.publish(Event::NewSession { hash: new_hash });
        Ok(())
    }

    /// Puts `user` on record as present in the active session.
    pub fn register(
        env: &mut Ledger,
        auth: &Authorization,
        user: Address,
        submitted_hash: [u8; 32],
    ) -> (r: Result<(), Failure>)
        requires
            old(env).wf(),
        ensures
            final(env).wf(),
            r == register_result(old(env)@, auth@, user, submitted_hash),
            final(env)@ == after_register(old(env)@, auth@, user, submitted_hash),
    {
        if !auth.covers(&user) {
            return Err(Failure::Unauthorized(user));
        }
        let stored_hash = match env.session() {
            Some(hash) => hash,
            None => {
                return Err(Failure::Contract(Error::NoActiveSession));
            },
        };
        env.touch(&StorageKey::ActiveHash);
        if !same_bytes(&submitted_hash, &stored_hash) {
            return Err(Failure::Contract(Error::IncorrectHash));
        }
        let presence_key = StorageKey::Presence(stored_hash, user);
        if env.has(&presence_key) {
            return Err(Failure::Contract(Error::AlreadyRegistered));
        }
        env.set(presence_key, Value::Flag(true));
        env.touch(&presence_key);
        let nickname = match env.profile(&user) {
            Some(profile) => {
                env.touch(&StorageKey::UserProfile(user));
                profile.nickname
            },
            None => String::new(),
        };
        env.publish(Event::Present { user, hash: stored_hash, nickname });
        Ok(())
    }

    /// Hands the contract over to `new_admin`.
    pub fn transfer_admin(env: &mut Ledger, auth: &Authorization, new_admin: Address) -> (r:
        Result<(), Failure>)
        requires
            old(env).wf(),
        ensures
            final(env).wf(),
            r == transfer_admin_result(old(env)@, auth@, new_admin),
            final(env)@ == after_transfer_admin(old(env)@, auth@, new_admin),
    {
        let current_admin = match env.admin() {
            Some(admin) => admin,
            None => {
                return Err(Failure::Contract(Error::NotInitialized));
            },
        };
        if !auth.covers(&current_admin) {
            return Err(Failure::Unauthorized(current_admin));
        }
        if !auth.covers(&new_admin) {
            return Err(Failure::Unauthorized(new_admin));
        }
        env.set(StorageKey::Admin, Value::Admin(new_admin));
        env.touch(&StorageKey::Admin);
        env.publish(Event::AdminTransfer { old_admin: current_admin, new_admin });
        Ok(())
    }

    /// Writes the profile of `user`, in place of the one that was there.
    pub fn set_profile(env: &mut Ledger, auth: &Authorization, user: Address, nickname: String)
        -> (r: Result<(), Failure>)
        requires
            old(env).wf(),
        ensures
            final(env).wf(),
            r == set_profile_result(auth@, user, nickname@),
            final(env)@ == after_set_profile(old(env)@, auth@, user, nickname@),
    {
        if !auth.covers(&user) {
            return Err(Failure::Unauthorized(user));
        }
        if !is_valid_nickname(&nickname) {
            return Err(Failure::Contract(Error::InvalidNickname));
        }
        let profile = UserProfile { nickname: nickname.clone(), registered_at: env.sequence() };
        let profile_key = StorageKey::UserProfile(user);
        env.set(profile_key, Value::Profile(profile));
        env.touch(&profile_key);
        env.publish(Event::Profile { user, nickname });
        Ok(())
    }

    /// The profile of `user`, if there is one.
    pub fn get_profile(env: &mut Ledger, user: Address) -> (profile: Option<UserProfile>)
        requires
            old(env).wf(),
        ensures
            final(env).wf(),
            match profile {
                Some(p) => old(env)@.profile(user) == Some(p@),
                None => old(env)@.profile(user).is_none(),
            },
            final(env)@ == after_get_profile(old(env)@, user),
    {
        match env.profile(&user) {
            Some(profile) => {
                env.touch(&StorageKey::UserProfile(user));
                Some(profile)
            },
            None => None,
        }
    }

    /// Whether `user` is on record as present in the active session.
    pub fn check_presence(env: &mut Ledger, user: Address) -> (present: bool)
        requires
            old(env).wf(),
        ensures
            final(env).wf(),
            present == check_presence_result(old(env)@, user),
            final(env)@ == after_check_presence(old(env)@, user),
    {
        let current_hash = match env.session() {
            Some(hash) => hash,
            None => {
                return false;
            },
        };
        env.touch(&StorageKey::ActiveHash);
        Self::lookup(env, &current_hash, &user)
    }

    /// Looks up one presence record, and touches it where it says `true`.
    fn lookup(env: &mut Ledger, hash: &[u8; 32], user: &Address) -> (present: bool)
        requires
            old(env).wf(),
        ensures
            final(env).wf(),
            present == old(env)@.present(*hash, *user),
            final(env)@ == after_lookup(old(env)@, *hash, *user),
    {
        let is_present = env.is_present(hash, user);
        if is_present {
            env.touch(&StorageKey::Presence(*hash, *user));
        }
        is_present
    }

    /// The administrator.
    pub fn get_admin(env: &mut Ledger) -> (r: Result<Address, Error>)
        requires
            old(env).wf(),
        ensures
            final(env).wf(),
            r == get_admin_result(old(env)@),
            final(env)@ == after_get_admin(old(env)@),
    {
        env.touch(&StorageKey::Admin);
        match env.admin() {
            Some(admin) => Ok(admin),
            None => Err(Error::NotInitialized),
        }
    }

    /// The hash of the active session, if there is one.
    pub fn get_session(env: &mut Ledger) -> (hash: Option<[u8; 32]>)
        requires
            old(env).wf(),
        ensures
            final(env).wf(),
            hash == old(env)@.session(),
            final(env)@ == after_get_session(old(env)@),
    {
        match env.session() {
            Some(hash) => {
                env.touch(&StorageKey::ActiveHash);
                Some(hash)
            },
            None => None,
        }
    }

    /// For each of `users`, in order, whether that user is on record as
    /// present in the active session; nothing where no session is active.
    pub fn check_batch(env: &mut Ledger, users: Vec<Address>) -> (results: Vec<bool>)
        requires
            old(env).wf(),
        ensures
            final(env).wf(),
            results@ == check_batch_result(old(env)@, users@),
            final(env)@ == after_check_batch(old(env)@, users@),
    {
        let mut results: Vec<bool> = Vec::new();
        let current_hash = match Self::get_session(env) {
            Some(hash) => hash,
            None => {
                assert(results@ =~= check_batch_result(old(env)@, users@));
                return results;
            },
        };
        let ghost start = env@;
        let mut i: usize = 0;
        assert(users@.take(0) =~= Seq::<Address>::empty());
        while i < users.len()
            invariant
                i <= users.len(),
                env.wf(),
                old(env)@.session() == Some(current_hash),
                start == old(env)@.touch(StorageKey::ActiveHash),
                env@ == after_lookups(start, current_hash, users@.take(i as int)),
                forall|key: StorageKey| #[trigger] env@.get(key) == old(env)@.get(key),
                results@ =~= Seq::new(
                    i as nat,
                    |j: int| old(env)@.present(current_hash, users@[j]),
                ),
            decreases users.len() - i,
        {
            let ghost before = env@;
            let is_present = Self::lookup(env, &current_hash, &users[i]);
            results.push(is_present);
            proof {
                assert(users@.take(i + 1).drop_last() =~= users@.take(i as int));
                assert forall|key: StorageKey| #[trigger]
                    env@.get(key) == old(env)@.get(key) by {
                    assert(before.get(key) == old(env)@.get(key));
                }
            }
            i += 1;
        }
        assert(users@.take(i as int) =~= users@);
        results
    }
}

} // verus!
