use vstd::prelude::*;
use crate::effect::{events_of_push, EffectView};
use crate::error::{Error, Failure};
use crate::event::EventView;
use crate::identity::Address;
use crate::key::{StorageKey, ValueView};
use crate::profile::ProfileView;
use crate::rules::{
    Call, after_check_batch, after_check_presence, after_get_admin, after_get_profile,
    after_get_session, after_initialize, after_lookup, after_lookups, after_register,
    after_set_hash, after_set_profile, after_transfer_admin, announced_nickname,
    check_batch_result, check_presence_result, initialize_result, register_result,
    set_hash_result, set_profile_result, transfer_admin_result,
};
use crate::state::LedgerView;
use crate::ttl::{renewal_extends, STANDARD_HORIZON, TTL_THRESHOLD};

verus! {

/// Two ledgers hold the same values under the same keys.
pub open spec fn same_values(a: LedgerView, b: LedgerView) -> bool {
    forall|key: StorageKey| #[trigger] a.get(key) == b.get(key)
}

/// No record of `a` is missing from `b` or lives shorter in `b`.
pub open spec fn no_shorter(a: LedgerView, b: LedgerView) -> bool {
    forall|key: StorageKey| #[trigger]
        a.has(key) ==> b.has(key) && b.records[key].live_until >= a.records[key].live_until
}

/// A request to extend a lifetime follows the policy when it carries the
/// threshold, and the horizon that belongs to the class of its key.
pub open spec fn follows_policy(effect: EffectView) -> bool {
    effect matches EffectView::Extend { key, threshold, extend_to } ==> threshold == TTL_THRESHOLD
        && extend_to == key.horizon()
}

/// The log of `b` is that of `a` with more requests at its end, and each
/// of these follows the policy.
pub open spec fn grows_by_policy(a: LedgerView, b: LedgerView) -> bool {
    &&& a.effects.is_prefix_of(b.effects)
    &&& forall|i: int|
        a.effects.len() <= i < b.effects.len() ==> follows_policy(#[trigger] b.effects[i])
}

/// A request to extend a lifetime changes no value, publishes nothing,
/// shortens no lifetime, and is logged.
pub proof fn extending_changes_no_value(
    pre: LedgerView,
    key: StorageKey,
    threshold: u32,
    extend_to: u32,
)
    ensures
        same_values(pre.extend(key, threshold, extend_to), pre),
        no_shorter(pre, pre.extend(key, threshold, extend_to)),
        pre.extend(key, threshold, extend_to).events() == pre.events(),
        pre.extend(key, threshold, extend_to).sequence == pre.sequence,
        pre.extend(key, threshold, extend_to).effects == pre.effects.push(
            EffectView::Extend { key, threshold, extend_to },
        ),
        pre.wf() ==> pre.extend(key, threshold, extend_to).wf(),
        threshold == TTL_THRESHOLD && extend_to == key.horizon() ==> grows_by_policy(
            pre,
            pre.extend(key, threshold, extend_to),
        ),
{
    let post = pre.extend(key, threshold, extend_to);
    events_of_push(pre.effects, EffectView::Extend { key, threshold, extend_to });
    assert(pre.effects.is_prefix_of(post.effects));
    assert forall|k: StorageKey| #[trigger] post.get(k) == pre.get(k) by {}
    assert forall|k: StorageKey| #[trigger] pre.has(k) implies post.has(k) && post.records[k]
        .live_until >= pre.records[k].live_until by {
        if k == key {
            renewal_extends(pre.records[key].live_until, pre.sequence, threshold, extend_to);
        }
    }
    if pre.wf() {
        assert forall|k: StorageKey| #[trigger] post.records.contains_key(k) implies post
            .records[k].value.fits(k) by {
            assert(pre.records.contains_key(k));
        }
    }
}

/// Touch renews lifetime: a record that has just been touched has more
/// than the threshold left to live.
pub proof fn touching_renews(pre: LedgerView, key: StorageKey)
    requires
        pre.has(key),
    ensures
        pre.touch(key).has(key),
        pre.touch(key).records[key].live_until - pre.sequence > TTL_THRESHOLD,
        pre.touch(key).records[key].live_until >= pre.records[key].live_until,
{
    renewal_extends(pre.records[key].live_until, pre.sequence, TTL_THRESHOLD, key.horizon());
}

/// Storing a value changes the record under its key and no other,
/// publishes nothing, and is logged.
pub proof fn writing_changes_one_value(pre: LedgerView, key: StorageKey, value: ValueView)
    ensures
        pre.write(key, value).get(key) == Some(value),
        forall|other: StorageKey|
            other != key ==> #[trigger] pre.write(key, value).get(other) == pre.get(other),
        no_shorter(pre, pre.write(key, value)),
        pre.write(key, value).events() == pre.events(),
        pre.write(key, value).sequence == pre.sequence,
        pre.wf() && value.fits(key) ==> pre.write(key, value).wf(),
        grows_by_policy(pre, pre.write(key, value)),
{
    let post = pre.write(key, value);
    events_of_push(pre.effects, EffectView::Write { key, value });
    assert(pre.effects.is_prefix_of(post.effects));
    assert forall|k: StorageKey| #[trigger] pre.has(k) implies post.has(k) && post.records[k]
        .live_until >= pre.records[k].live_until by {}
    if pre.wf() && value.fits(key) {
        assert forall|k: StorageKey| #[trigger] post.records.contains_key(k) implies post
            .records[k].value.fits(k) by {
            if k != key {
                assert(pre.records.contains_key(k));
            }
        }
    }
}

/// Publishing an event adds it to the end of the event log and changes
/// nothing else.
pub proof fn publishing_adds_one_event(pre: LedgerView, event: EventView)
    ensures
        pre.publish(event).events() == pre.events().push(event),
        pre.publish(event).records == pre.records,
        pre.publish(event).sequence == pre.sequence,
        no_shorter(pre, pre.publish(event)),
        grows_by_policy(pre, pre.publish(event)),
{
    events_of_push(pre.effects, EffectView::Publish { event });
    assert(pre.effects.is_prefix_of(pre.publish(event).effects));
}

/// Looking users up changes no value and publishes nothing; it only asks
/// for longer lifetimes.
pub proof fn lookups_change_no_value(pre: LedgerView, hash: [u8; 32], users: Seq<Address>)
    ensures
        same_values(after_lookups(pre, hash, users), pre),
        no_shorter(pre, after_lookups(pre, hash, users)),
        after_lookups(pre, hash, users).events() == pre.events(),
        after_lookups(pre, hash, users).sequence == pre.sequence,
        pre.wf() ==> after_lookups(pre, hash, users).wf(),
        grows_by_policy(pre, after_lookups(pre, hash, users)),
    decreases users.len(),
{
    if users.len() == 0 {
        assert(pre.effects.is_prefix_of(pre.effects));
    } else {
        let earlier = after_lookups(pre, hash, users.drop_last());
        let post = after_lookups(pre, hash, users);
        lookups_change_no_value(pre, hash, users.drop_last());
        extending_changes_no_value(
            earlier,
            StorageKey::Presence(hash, users.last()),
            TTL_THRESHOLD,
            STANDARD_HORIZON,
        );
        assert(earlier.effects.is_prefix_of(earlier.effects));
        chain(pre, earlier, post);
        assert forall|k: StorageKey| #[trigger] post.get(k) == pre.get(k) by {
            assert(earlier.get(k) == pre.get(k));
        }
        assert forall|k: StorageKey| #[trigger] pre.has(k) implies post.has(k) && post.records[k]
            .live_until >= pre.records[k].live_until by {
            assert(earlier.has(k));
        }
    }
}

/// The contract is initialized once: after a successful `initialize`, the
/// next one fails with `AlreadyInitialized`, for whichever administrator
/// consents to it, and leaves the ledger as the first one left it. Without
/// that consent it fails for want of it, and changes as little.
pub proof fn initialize_is_once(
    pre: LedgerView,
    auth: Set<Address>,
    admin: Address,
    auth_again: Set<Address>,
    admin_again: Address,
)
    requires
        initialize_result(pre, auth, admin) is Ok,
    ensures
        after_initialize(pre, auth, admin).admin() == Some(admin),
        auth_again.contains(admin_again) ==> initialize_result(
            after_initialize(pre, auth, admin),
            auth_again,
            admin_again,
        ) == Err::<(), Failure>(Failure::Contract(Error::AlreadyInitialized)),
        !auth_again.contains(admin_again) ==> initialize_result(
            after_initialize(pre, auth, admin),
            auth_again,
            admin_again,
        ) == Err::<(), Failure>(Failure::Unauthorized(admin_again)),
        after_initialize(after_initialize(pre, auth, admin), auth_again, admin_again)
            == after_initialize(pre, auth, admin),
{
}

/// Consent comes first: `initialize` for an administrator who has not
/// consented fails for want of that consent, whether or not the contract
/// has an administrator, and leaves the ledger as it was.
pub proof fn initialize_asks_consent_first(pre: LedgerView, auth: Set<Address>, admin: Address)
    requires
        !auth.contains(admin),
    ensures
        initialize_result(pre, auth, admin) == Err::<(), Failure>(Failure::Unauthorized(admin)),
        after_initialize(pre, auth, admin) == pre,
{
}

/// A registration with a hash that is not the active one fails with
/// `IncorrectHash` and changes no value and publishes nothing, and still
/// the session has been touched: the request is logged, and the session
/// has more than the threshold left to live.
pub proof fn wrong_hash_still_renews_session(
    pre: LedgerView,
    auth: Set<Address>,
    user: Address,
    submitted_hash: [u8; 32],
)
    requires
        auth.contains(user),
        pre.session() is Some,
        pre.session() != Some(submitted_hash),
    ensures
        register_result(pre, auth, user, submitted_hash) == Err::<(), Failure>(
            Failure::Contract(Error::IncorrectHash),
        ),
        after_register(pre, auth, user, submitted_hash) == pre.touch(StorageKey::ActiveHash),
        same_values(after_register(pre, auth, user, submitted_hash), pre),
        after_register(pre, auth, user, submitted_hash).events() == pre.events(),
        after_register(pre, auth, user, submitted_hash).effects.last() == (EffectView::Extend {
            key: StorageKey::ActiveHash,
            threshold: TTL_THRESHOLD,
            extend_to: STANDARD_HORIZON,
        }),
        after_register(pre, auth, user, submitted_hash).records[StorageKey::ActiveHash].live_until
            - pre.sequence > TTL_THRESHOLD,
{
    extending_changes_no_value(pre, StorageKey::ActiveHash, TTL_THRESHOLD, STANDARD_HORIZON);
    touching_renews(pre, StorageKey::ActiveHash);
}

/// A user registers once for a session: after a successful `register`,
/// the same user with the same hash fails with `AlreadyRegistered`, and the
/// presence flag says `true` before and after that second call.
pub proof fn register_is_once(
    pre: LedgerView,
    auth: Set<Address>,
    user: Address,
    hash: [u8; 32],
    auth_again: Set<Address>,
)
    requires
        register_result(pre, auth, user, hash) is Ok,
        auth_again.contains(user),
    ensures
        after_register(pre, auth, user, hash).present(hash, user),
        register_result(after_register(pre, auth, user, hash), auth_again, user, hash) == Err::<
            (),
            Failure,
        >(Failure::Contract(Error::AlreadyRegistered)),
        after_register(after_register(pre, auth, user, hash), auth_again, user, hash).present(
            hash,
            user,
        ),
        same_values(
            after_register(after_register(pre, auth, user, hash), auth_again, user, hash),
            after_register(pre, auth, user, hash),
        ),
{
    let first = after_register(pre, auth, user, hash);
    assert(first.get(StorageKey::Presence(hash, user)) == Some(ValueView::Flag(true)));
    assert(first.session() == Some(hash));
    extending_changes_no_value(first, StorageKey::ActiveHash, TTL_THRESHOLD, STANDARD_HORIZON);
}

/// `set_profile` succeeds exactly for a consenting user and a nickname of 3
/// to 32 characters: 2 and 33 characters are turned down, 3 and 32 are
/// taken.
pub proof fn nickname_bounds(auth: Set<Address>, user: Address, nickname: Seq<char>)
    requires
        auth.contains(user),
    ensures
        set_profile_result(auth, user, nickname) is Ok <==> 3 <= nickname.len() <= 32,
        nickname.len() <= 2 || nickname.len() >= 33 ==> set_profile_result(auth, user, nickname)
            == Err::<(), Failure>(Failure::Contract(Error::InvalidNickname)),
{
}

/// A profile is replaced as a whole: after a successful `set_profile` the
/// user's profile holds the new nickname and the sequence number of the
/// ledger in which it was written, whatever it held before.
pub proof fn set_profile_replaces(
    pre: LedgerView,
    auth: Set<Address>,
    user: Address,
    nickname: Seq<char>,
)
    requires
        set_profile_result(auth, user, nickname) is Ok,
    ensures
        after_set_profile(pre, auth, user, nickname).profile(user) == Some(
            ProfileView { nickname, registered_at: pre.sequence },
        ),
        forall|key: StorageKey|
            key != StorageKey::UserProfile(user) ==> #[trigger] after_set_profile(
                pre,
                auth,
                user,
                nickname,
            ).get(key) == pre.get(key),
{
}

/// Without an active session `check_batch` answers with the empty list,
/// however many users it is asked about, and leaves the ledger alone.
pub proof fn batch_without_session_is_empty(pre: LedgerView, users: Seq<Address>)
    requires
        pre.session() is None,
    ensures
        check_batch_result(pre, users) == Seq::<bool>::empty(),
        after_check_batch(pre, users) == pre,
{
}

/// With an active session `check_batch` answers place by place: as many
/// answers as users, each the presence of the user at its place, so that
/// a user asked about twice is answered twice alike.
pub proof fn batch_answers_each_place(pre: LedgerView, users: Seq<Address>)
    requires
        pre.session() is Some,
    ensures
        check_batch_result(pre, users).len() == users.len(),
        forall|i: int|
            0 <= i < users.len() ==> #[trigger] check_batch_result(pre, users)[i]
                == check_presence_result(pre, users[i]),
        forall|i: int, j: int|
            0 <= i < users.len() && 0 <= j < users.len() && users[i] == users[j]
                ==> check_batch_result(pre, users)[i] == check_batch_result(pre, users)[j],
{
}

/// `transfer_admin` succeeds exactly when there is an administrator and
/// both that administrator and the new one consent. With the consent of
/// only one of the two it fails and names the one that is missing.
pub proof fn transfer_needs_both(pre: LedgerView, auth: Set<Address>, new_admin: Address)
    requires
        pre.admin() is Some,
    ensures
        transfer_admin_result(pre, auth, new_admin) is Ok <==> auth.contains(
            pre.admin().unwrap(),
        ) && auth.contains(new_admin),
        !auth.contains(pre.admin().unwrap()) ==> transfer_admin_result(pre, auth, new_admin)
            == Err::<(), Failure>(Failure::Unauthorized(pre.admin().unwrap())),
        auth.contains(pre.admin().unwrap()) && !auth.contains(new_admin)
            ==> transfer_admin_result(pre, auth, new_admin) == Err::<(), Failure>(
            Failure::Unauthorized(new_admin),
        ),
        transfer_admin_result(pre, auth, new_admin) is Ok ==> after_transfer_admin(
            pre,
            auth,
            new_admin,
        ).admin() == Some(new_admin),
        transfer_admin_result(pre, auth, new_admin) is Err ==> after_transfer_admin(
            pre,
            auth,
            new_admin,
        ) == pre,
{
}

/// Presence belongs to a session: once `set_hash` has made `new_hash` the
/// active hash, a user counts as present exactly if on record under
/// `new_hash`; records under any other hash stay where they are, out of
/// sight; and whoever is not on record under `new_hash` can register.
pub proof fn presence_is_scoped_to_session(
    pre: LedgerView,
    auth: Set<Address>,
    new_hash: [u8; 32],
    user: Address,
    user_auth: Set<Address>,
)
    requires
        set_hash_result(pre, auth) is Ok,
        user_auth.contains(user),
    ensures
        after_set_hash(pre, auth, new_hash).session() == Some(new_hash),
        check_presence_result(after_set_hash(pre, auth, new_hash), user) == pre.present(
            new_hash,
            user,
        ),
        forall|hash: [u8; 32], other: Address| #[trigger]
            after_set_hash(pre, auth, new_hash).get(StorageKey::Presence(hash, other)) == pre.get(
                StorageKey::Presence(hash, other),
            ),
        !pre.has(StorageKey::Presence(new_hash, user)) ==> register_result(
            after_set_hash(pre, auth, new_hash),
            user_auth,
            user,
            new_hash,
        ) is Ok,
{
}

/// Every call keeps the ledger well formed.
pub proof fn calls_keep_well_formed(pre: LedgerView, call: Call)
    requires
        pre.wf(),
    ensures
        call.after(pre).wf(),
{
    call_unfolded(pre, call);
}

/// Nothing is ever deleted and no lifetime is ever cut: whatever the call,
/// each record that was there is still there and lives at least as long.
pub proof fn records_are_never_removed(pre: LedgerView, call: Call)
    ensures
        no_shorter(pre, call.after(pre)),
        call.after(pre).sequence == pre.sequence,
{
    call_unfolded(pre, call);
}

/// A call that fails changes no value and publishes nothing; neither does
/// a query, whether it succeeds or not.
pub proof fn failures_and_queries_change_no_value(pre: LedgerView, call: Call)
    requires
        !call.succeeds(pre) || call.is_query(),
    ensures
        same_values(call.after(pre), pre),
        call.after(pre).events() == pre.events(),
{
    call_unfolded(pre, call);
}

/// A call that lacks a consent it needs leaves the ledger exactly as it
/// was: no value, no lifetime and no log entry changes.
pub proof fn unauthorized_calls_change_nothing(pre: LedgerView, call: Call)
    requires
        match call {
            Call::Initialize { auth, admin } => initialize_result(pre, auth, admin) matches Err(
                Failure::Unauthorized(_),
            ),
            Call::SetHash { auth, new_hash } => set_hash_result(pre, auth) matches Err(
                Failure::Unauthorized(_),
            ),
            Call::Register { auth, user, submitted_hash } => register_result(
                pre,
                auth,
                user,
                submitted_hash,
            ) matches Err(Failure::Unauthorized(_)),
            Call::TransferAdmin { auth, new_admin } => transfer_admin_result(
                pre,
                auth,
                new_admin,
            ) matches Err(Failure::Unauthorized(_)),
            Call::SetProfile { auth, user, nickname } => set_profile_result(
                auth,
                user,
                nickname,
            ) matches Err(Failure::Unauthorized(_)),
            _ => false,
        },
    ensures
        call.after(pre) == pre,
{
}

/// A call that is no query and succeeds publishes exactly one event, the
/// one that belongs to it, at the end of the event log.
pub proof fn each_success_publishes_one_event(pre: LedgerView, call: Call)
    requires
        !call.is_query(),
        call.succeeds(pre),
    ensures
        call.announces(pre) is Some,
        call.after(pre).events() == pre.events().push(call.announces(pre).unwrap()),
{
    call_unfolded(pre, call);
}

/// A presence record is written once: no call changes or removes one that
/// is there.
pub proof fn presence_is_write_once(pre: LedgerView, call: Call, hash: [u8; 32], user: Address)
    requires
        pre.has(StorageKey::Presence(hash, user)),
    ensures
        call.after(pre).get(StorageKey::Presence(hash, user)) == pre.get(
            StorageKey::Presence(hash, user),
        ),
{
    call_unfolded(pre, call);
}

/// Once there is an administrator there always is one, and only
/// `transfer_admin` puts another in office.
pub proof fn administrator_stays(pre: LedgerView, call: Call)
    requires
        pre.wf(),
        pre.admin() is Some,
    ensures
        call.after(pre).admin() is Some,
        !(call is TransferAdmin) ==> call.after(pre).admin() == pre.admin(),
{
    call_unfolded(pre, call);
    calls_keep_well_formed(pre, call);
}

/// The log only grows, and every request to extend a lifetime that a call
/// makes carries the threshold and the horizon of its key's class: the
/// standard horizon for the administrator, the session and presence
/// records, the extended one for profiles.
pub proof fn requests_follow_policy(pre: LedgerView, call: Call)
    ensures
        grows_by_policy(pre, call.after(pre)),
{
    call_unfolded(pre, call);
}

/// Whatever a call stores is renewed at once: the record it has written
/// has more than the threshold left to live.
pub proof fn stored_records_are_renewed(pre: LedgerView, call: Call)
    requires
        !call.is_query(),
        call.succeeds(pre),
    ensures
        call.stores(pre) is Some,
        call.after(pre).has(call.stores(pre).unwrap()),
        call.after(pre).records[call.stores(pre).unwrap()].live_until - pre.sequence
            > TTL_THRESHOLD,
{
    call_unfolded(pre, call);
}

/// What each call does to the ledger, step by step, with what each step
/// keeps: the facts from which the laws on all calls follow.
proof fn call_unfolded(pre: LedgerView, call: Call)
    ensures
        no_shorter(pre, call.after(pre)),
        call.after(pre).sequence == pre.sequence,
        pre.wf() ==> call.after(pre).wf(),
        !call.succeeds(pre) || call.is_query() ==> same_values(call.after(pre), pre)
            && call.after(pre).events() == pre.events(),
        !call.is_query() && call.succeeds(pre) ==> call.announces(pre) is Some && call.after(
            pre,
        ).events() == pre.events().push(call.announces(pre).unwrap()),
        forall|hash: [u8; 32], user: Address|
            pre.has(StorageKey::Presence(hash, user)) ==> #[trigger] call.after(pre).get(
                StorageKey::Presence(hash, user),
            ) == pre.get(StorageKey::Presence(hash, user)),
        pre.admin() is Some && !(call is TransferAdmin) ==> call.after(pre).admin() == pre.admin(),
        pre.admin() is Some ==> call.after(pre).admin() is Some,
        grows_by_policy(pre, call.after(pre)),
        !call.is_query() && call.succeeds(pre) ==> call.stores(pre) is Some && call.after(pre).has(
            call.stores(pre).unwrap(),
        ) && call.after(pre).records[call.stores(pre).unwrap()].live_until - pre.sequence
            > TTL_THRESHOLD,
{
    stays(pre);
    match call {
        Call::Initialize { auth, admin } => {
            if call.succeeds(pre) {
                let key = StorageKey::Admin;
                let written = pre.write(key, ValueView::Admin(admin));
                let touched = written.touch(key);
                writing_changes_one_value(pre, key, ValueView::Admin(admin));
                extending_changes_no_value(written, key, TTL_THRESHOLD, STANDARD_HORIZON);
                publishing_adds_one_event(touched, EventView::Init { admin });
                chain(pre, written, touched);
                touching_renews(written, key);
                chain(pre, touched, call.after(pre));
                assert forall|hash: [u8; 32], user: Address|
                    pre.has(StorageKey::Presence(hash, user)) implies #[trigger] call.after(
                    pre,
                ).get(StorageKey::Presence(hash, user)) == pre.get(
                    StorageKey::Presence(hash, user),
                ) by {
                    assert(touched.get(StorageKey::Presence(hash, user)) == written.get(
                        StorageKey::Presence(hash, user),
                    ));
                }
            }
        },
        Call::SetHash { auth, new_hash } => {
            if call.succeeds(pre) {
                let key = StorageKey::ActiveHash;
                let written = pre.write(key, ValueView::Hash(new_hash));
                let touched = written.touch(key);
                writing_changes_one_value(pre, key, ValueView::Hash(new_hash));
                extending_changes_no_value(written, key, TTL_THRESHOLD, STANDARD_HORIZON);
                publishing_adds_one_event(touched, EventView::NewSession { hash: new_hash });
                chain(pre, written, touched);
                touching_renews(written, key);
                chain(pre, touched, call.after(pre));
                assert(touched.get(StorageKey::Admin) == written.get(StorageKey::Admin));
                assert forall|hash: [u8; 32], user: Address|
                    pre.has(StorageKey::Presence(hash, user)) implies #[trigger] call.after(
                    pre,
                ).get(StorageKey::Presence(hash, user)) == pre.get(
                    StorageKey::Presence(hash, user),
                ) by {
                    assert(touched.get(StorageKey::Presence(hash, user)) == written.get(
                        StorageKey::Presence(hash, user),
                    ));
                }
            }
        },
        Call::Register { auth, user, submitted_hash } => {
            if auth.contains(user) && pre.session() is Some {
                let hash = pre.session().unwrap();
                let key = StorageKey::Presence(hash, user);
                let touched = pre.touch(StorageKey::ActiveHash);
                extending_changes_no_value(
                    pre,
                    StorageKey::ActiveHash,
                    TTL_THRESHOLD,
                    STANDARD_HORIZON,
                );
                if call.succeeds(pre) {
                    let written = touched.write(key, ValueView::Flag(true));
                    let recorded = written.touch(key);
                    let enriched = if pre.profile(user) is Some {
                        recorded.touch(StorageKey::UserProfile(user))
                    } else {
                        recorded
                    };
                    writing_changes_one_value(touched, key, ValueView::Flag(true));
                    extending_changes_no_value(written, key, TTL_THRESHOLD, STANDARD_HORIZON);
                    extending_changes_no_value(
                        recorded,
                        StorageKey::UserProfile(user),
                        TTL_THRESHOLD,
                        StorageKey::UserProfile(user).horizon(),
                    );
                    publishing_adds_one_event(
                        enriched,
                        EventView::Present {
                            user,
                            hash,
                            nickname: announced_nickname(pre, user),
                        },
                    );
                    stays(recorded);
                    chain(pre, touched, written);
                    chain(pre, written, recorded);
                    chain(pre, recorded, enriched);
                    chain(pre, enriched, call.after(pre));
                    touching_renews(written, key);
                    assert(recorded.has(key));
                    assert(touched.get(key) == pre.get(key));
                    assert(touched.get(StorageKey::Admin) == pre.get(StorageKey::Admin));
                    assert(recorded.get(StorageKey::Admin) == written.get(StorageKey::Admin));
                    assert(enriched.get(StorageKey::Admin) == recorded.get(StorageKey::Admin));
                    assert forall|h: [u8; 32], u: Address|
                        pre.has(StorageKey::Presence(h, u)) implies #[trigger] call.after(
                        pre,
                    ).get(StorageKey::Presence(h, u)) == pre.get(StorageKey::Presence(h, u)) by {
                        let k = StorageKey::Presence(h, u);
                        assert(touched.get(k) == pre.get(k));
                        assert(recorded.get(k) == written.get(k));
                        assert(enriched.get(k) == recorded.get(k));
                    }
                } else {
                    assert forall|h: [u8; 32], u: Address|
                        pre.has(StorageKey::Presence(h, u)) implies #[trigger] call.after(
                        pre,
                    ).get(StorageKey::Presence(h, u)) == pre.get(StorageKey::Presence(h, u)) by {
                        assert(touched.get(StorageKey::Presence(h, u)) == pre.get(
                            StorageKey::Presence(h, u),
                        ));
                    }
                    assert(touched.get(StorageKey::Admin) == pre.get(StorageKey::Admin));
                }
            }
        },
        Call::TransferAdmin { auth, new_admin } => {
            if call.succeeds(pre) {
                let key = StorageKey::Admin;
                let written = pre.write(key, ValueView::Admin(new_admin));
                let touched = written.touch(key);
                writing_changes_one_value(pre, key, ValueView::Admin(new_admin));
                extending_changes_no_value(written, key, TTL_THRESHOLD, STANDARD_HORIZON);
                publishing_adds_one_event(
                    touched,
                    EventView::AdminTransfer { old_admin: pre.admin().unwrap(), new_admin },
                );
                chain(pre, written, touched);
                touching_renews(written, key);
                chain(pre, touched, call.after(pre));
                assert(touched.get(key) == written.get(key));
                assert forall|hash: [u8; 32], user: Address|
                    pre.has(StorageKey::Presence(hash, user)) implies #[trigger] call.after(
                    pre,
                ).get(StorageKey::Presence(hash, user)) == pre.get(
                    StorageKey::Presence(hash, user),
                ) by {
                    assert(touched.get(StorageKey::Presence(hash, user)) == written.get(
                        StorageKey::Presence(hash, user),
                    ));
                }
            }
        },
        Call::SetProfile { auth, user, nickname } => {
            if call.succeeds(pre) {
                let key = StorageKey::UserProfile(user);
                let value = ValueView::Profile(
                    ProfileView { nickname, registered_at: pre.sequence },
                );
                let written = pre.write(key, value);
                let touched = written.touch(key);
                writing_changes_one_value(pre, key, value);
                extending_changes_no_value(written, key, TTL_THRESHOLD, key.horizon());
                publishing_adds_one_event(touched, EventView::Profile { user, nickname });
                chain(pre, written, touched);
                touching_renews(written, key);
                chain(pre, touched, call.after(pre));
                assert(touched.get(StorageKey::Admin) == written.get(StorageKey::Admin));
                assert forall|hash: [u8; 32], other: Address|
                    pre.has(StorageKey::Presence(hash, other)) implies #[trigger] call.after(
                    pre,
                ).get(StorageKey::Presence(hash, other)) == pre.get(
                    StorageKey::Presence(hash, other),
                ) by {
                    assert(touched.get(StorageKey::Presence(hash, other)) == written.get(
                        StorageKey::Presence(hash, other),
                    ));
                }
            }
        },
        Call::GetProfile { user } => {
            let key = StorageKey::UserProfile(user);
            extending_changes_no_value(pre, key, TTL_THRESHOLD, key.horizon());
            query_keeps(pre, call.after(pre));
        },
        Call::CheckPresence { user } => {
            if pre.session() is Some {
                let hash = pre.session().unwrap();
                let touched = pre.touch(StorageKey::ActiveHash);
                extending_changes_no_value(
                    pre,
                    StorageKey::ActiveHash,
                    TTL_THRESHOLD,
                    STANDARD_HORIZON,
                );
                extending_changes_no_value(
                    touched,
                    StorageKey::Presence(hash, user),
                    TTL_THRESHOLD,
                    STANDARD_HORIZON,
                );
                stays(touched);
                chain(pre, touched, call.after(pre));
                assert forall|key: StorageKey| #[trigger]
                    call.after(pre).get(key) == pre.get(key) by {
                    assert(touched.get(key) == pre.get(key));
                }
            }
            query_keeps(pre, call.after(pre));
        },
        Call::GetAdmin => {
            extending_changes_no_value(pre, StorageKey::Admin, TTL_THRESHOLD, STANDARD_HORIZON);
            query_keeps(pre, call.after(pre));
        },
        Call::GetSession => {
            extending_changes_no_value(
                pre,
                StorageKey::ActiveHash,
                TTL_THRESHOLD,
                STANDARD_HORIZON,
            );
            query_keeps(pre, call.after(pre));
        },
        Call::CheckBatch { users } => {
            if pre.session() is Some {
                let hash = pre.session().unwrap();
                let touched = pre.touch(StorageKey::ActiveHash);
                extending_changes_no_value(
                    pre,
                    StorageKey::ActiveHash,
                    TTL_THRESHOLD,
                    STANDARD_HORIZON,
                );
                lookups_change_no_value(touched, hash, users);
                chain(pre, touched, call.after(pre));
                assert forall|key: StorageKey| #[trigger]
                    call.after(pre).get(key) == pre.get(key) by {
                    assert(touched.get(key) == pre.get(key));
                }
            }
            query_keeps(pre, call.after(pre));
        },
    }
}

/// A ledger that stays as it is loses nothing and logs nothing.
proof fn stays(a: LedgerView)
    ensures
        no_shorter(a, a),
        grows_by_policy(a, a),
{
    assert(a.effects.is_prefix_of(a.effects));
}

/// What holds from `a` to `b` and from `b` to `c` holds from `a` to `c`.
proof fn chain(a: LedgerView, b: LedgerView, c: LedgerView)
    requires
        no_shorter(b, c),
        grows_by_policy(b, c),
    ensures
        no_shorter(a, b) ==> no_shorter(a, c),
        grows_by_policy(a, b) ==> grows_by_policy(a, c),
{
    if grows_by_policy(a, b) {
        assert(a.effects.is_prefix_of(c.effects));
        assert forall|i: int| a.effects.len() <= i < c.effects.len() implies follows_policy(
            #[trigger] c.effects[i],
        ) by {
            if i < b.effects.len() {
                assert(follows_policy(b.effects[i]));
                assert(c.effects[i] == b.effects[i]);
            }
        }
    }
    if no_shorter(a, b) {
        assert forall|key: StorageKey| #[trigger] a.has(key) implies c.has(key) && c.records[key]
            .live_until >= a.records[key].live_until by {
            assert(b.has(key));
        }
    }
}

/// A ledger with the same values has the same administrator and the same
/// presence records.
proof fn query_keeps(pre: LedgerView, post: LedgerView)
    requires
        same_values(post, pre),
    ensures
        post.admin() == pre.admin(),
        forall|hash: [u8; 32], user: Address| #[trigger]
            post.get(StorageKey::Presence(hash, user)) == pre.get(
                StorageKey::Presence(hash, user),
            ),
{
    assert(post.get(StorageKey::Admin) == pre.get(StorageKey::Admin));
}

} // verus!
