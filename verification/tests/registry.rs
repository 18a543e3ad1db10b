use ambassador_contract::auth::Authorization;
use ambassador_contract::contract::AttendanceContract;
use ambassador_contract::effect::Effect;
use ambassador_contract::error::{Error, Failure};
use ambassador_contract::event::Event;
use ambassador_contract::identity::Address;
use ambassador_contract::key::StorageKey;
use ambassador_contract::ledger::Ledger;
use ambassador_contract::profile::UserProfile;
use ambassador_contract::ttl::{EXTENDED_HORIZON, STANDARD_HORIZON, TTL_THRESHOLD};

fn who(n: u8) -> Address {
    Address::new([n; 32])
}

fn hash(n: u8) -> [u8; 32] {
    let mut h = [0u8; 32];
    h[0] = n;
    h[31] = n;
    h
}

fn nickname(len: usize) -> String {
    "n".repeat(len)
}

/// A ledger at sequence 100 with administrator 1 and the session `hash(7)`.
fn running() -> Ledger {
    let mut env = Ledger::new(100);
    let admin = who(1);
    let auth = Authorization::of(admin);
    assert_eq!(AttendanceContract::initialize(&mut env, &auth, admin), Ok(()));
    assert_eq!(AttendanceContract::set_hash(&mut env, &auth, hash(7)), Ok(()));
    env
}

#[test]
fn initialize_sets_the_admin() {
    let mut env = Ledger::new(100);
    let admin = who(1);
    let r = AttendanceContract::initialize(&mut env, &Authorization::of(admin), admin);
    assert_eq!(r, Ok(()));
    assert_eq!(env.admin(), Some(admin));
    assert_eq!(env.live_until(&StorageKey::Admin), Some(100 + 518_400));
    assert_eq!(env.events(), vec![Event::Init { admin }]);
    assert_eq!(AttendanceContract::get_admin(&mut env), Ok(admin));
}

#[test]
fn initialize_twice_fails_and_changes_nothing() {
    let mut env = Ledger::new(100);
    let admin = who(1);
    let auth = Authorization::of(admin).and(who(2));
    assert_eq!(AttendanceContract::initialize(&mut env, &auth, admin), Ok(()));
    let after_first = env.clone();
    assert_eq!(
        AttendanceContract::initialize(&mut env, &auth, admin),
        Err(Failure::Contract(Error::AlreadyInitialized))
    );
    assert_eq!(env, after_first);
    assert_eq!(
        AttendanceContract::initialize(&mut env, &auth, who(2)),
        Err(Failure::Contract(Error::AlreadyInitialized))
    );
    assert_eq!(env, after_first);
    assert_eq!(env.admin(), Some(admin));
    assert_eq!(env.events().len(), 1);
}

#[test]
fn initialize_asks_for_consent_first() {
    let mut env = Ledger::new(100);
    let admin = who(1);
    assert_eq!(AttendanceContract::initialize(&mut env, &Authorization::of(admin), admin), Ok(()));
    let before = env.clone();
    // An administrator is in office, and the new one has not consented:
    // the missing consent is what the call fails on.
    assert_eq!(
        AttendanceContract::initialize(&mut env, &Authorization::none(), who(2)),
        Err(Failure::Unauthorized(who(2)))
    );
    assert_eq!(
        AttendanceContract::initialize(&mut env, &Authorization::of(admin), who(2)),
        Err(Failure::Unauthorized(who(2)))
    );
    assert_eq!(env, before);
    // With the consent, the call fails on the administrator in office.
    assert_eq!(
        AttendanceContract::initialize(&mut env, &Authorization::of(who(2)), who(2)),
        Err(Failure::Contract(Error::AlreadyInitialized))
    );
    assert_eq!(env, before);
}

#[test]
fn initialize_needs_the_admins_consent() {
    let mut env = Ledger::new(100);
    let r = AttendanceContract::initialize(&mut env, &Authorization::of(who(2)), who(1));
    assert_eq!(r, Err(Failure::Unauthorized(who(1))));
    assert_eq!(env.admin(), None);
    assert!(env.effects().is_empty());
}

#[test]
fn set_hash_before_initialize_fails() {
    let mut env = Ledger::new(100);
    let r = AttendanceContract::set_hash(&mut env, &Authorization::of(who(1)), hash(7));
    assert_eq!(r, Err(Failure::Contract(Error::NotInitialized)));
    assert_eq!(env.session(), None);
    assert!(env.effects().is_empty());
}

#[test]
fn set_hash_needs_the_admin() {
    let mut env = running();
    let before = env.effects().len();
    let r = AttendanceContract::set_hash(&mut env, &Authorization::of(who(2)), hash(8));
    assert_eq!(r, Err(Failure::Unauthorized(who(1))));
    assert_eq!(env.session(), Some(hash(7)));
    assert_eq!(env.effects().len(), before);
}

#[test]
fn set_hash_overwrites_the_session() {
    let mut env = running();
    let auth = Authorization::of(who(1));
    assert_eq!(AttendanceContract::get_session(&mut env), Some(hash(7)));
    env.advance_to(150);
    assert_eq!(AttendanceContract::set_hash(&mut env, &auth, hash(8)), Ok(()));
    assert_eq!(AttendanceContract::get_session(&mut env), Some(hash(8)));
    assert_eq!(
        env.events(),
        vec![
            Event::Init { admin: who(1) },
            Event::NewSession { hash: hash(7) },
            Event::NewSession { hash: hash(8) },
        ]
    );
    // The session was good for far more than the threshold: no renewal yet.
    assert_eq!(env.live_until(&StorageKey::ActiveHash), Some(100 + 518_400));
}

#[test]
fn get_session_without_session_is_none_and_silent() {
    let mut env = Ledger::new(100);
    assert_eq!(AttendanceContract::get_session(&mut env), None);
    assert!(env.effects().is_empty());
}

#[test]
fn get_admin_before_initialize_fails_but_asks_for_renewal() {
    let mut env = Ledger::new(100);
    assert_eq!(AttendanceContract::get_admin(&mut env), Err(Error::NotInitialized));
    assert_eq!(
        env.effects(),
        &vec![Effect::Extend {
            key: StorageKey::Admin,
            threshold: TTL_THRESHOLD,
            extend_to: STANDARD_HORIZON,
        }]
    );
    assert_eq!(env.admin(), None);
    assert!(env.events().is_empty());
}

#[test]
fn register_without_session_fails() {
    let mut env = Ledger::new(100);
    let user = who(5);
    let r = AttendanceContract::register(&mut env, &Authorization::of(user), user, hash(7));
    assert_eq!(r, Err(Failure::Contract(Error::NoActiveSession)));
    assert!(env.effects().is_empty());
}

#[test]
fn register_needs_the_users_consent() {
    let mut env = running();
    let before = env.effects().len();
    let r = AttendanceContract::register(&mut env, &Authorization::of(who(1)), who(5), hash(7));
    assert_eq!(r, Err(Failure::Unauthorized(who(5))));
    assert_eq!(env.effects().len(), before);
    assert!(!AttendanceContract::check_presence(&mut env, who(5)));
}

#[test]
fn register_with_wrong_hash_fails_and_still_renews_the_session() {
    let mut env = running();
    let user = who(5);
    // Move on until the session has less than the threshold left.
    env.advance_to(100 + 518_400 - 1000);
    let events = env.events();
    let before = env.clone();
    let r = AttendanceContract::register(&mut env, &Authorization::of(user), user, hash(8));
    assert_eq!(r, Err(Failure::Contract(Error::IncorrectHash)));
    assert_ne!(env, before);
    assert_eq!(env.effects().len(), before.effects().len() + 1);
    assert_eq!(
        env.effects().last(),
        Some(&Effect::Extend {
            key: StorageKey::ActiveHash,
            threshold: 120_960,
            extend_to: 518_400,
        })
    );
    assert_eq!(
        env.live_until(&StorageKey::ActiveHash),
        Some(100 + 518_400 - 1000 + 518_400)
    );
    assert_eq!(env.session(), Some(hash(7)));
    assert!(!env.has(&StorageKey::Presence(hash(7), user)));
    assert!(!env.has(&StorageKey::Presence(hash(8), user)));
    assert_eq!(env.events(), events);
}

#[test]
fn register_twice_fails_the_second_time() {
    let mut env = running();
    let user = who(5);
    let auth = Authorization::of(user);
    assert_eq!(AttendanceContract::register(&mut env, &auth, user, hash(7)), Ok(()));
    assert!(env.is_present(&hash(7), &user));
    let events = env.events();
    assert_eq!(
        AttendanceContract::register(&mut env, &auth, user, hash(7)),
        Err(Failure::Contract(Error::AlreadyRegistered))
    );
    assert!(env.is_present(&hash(7), &user));
    assert!(AttendanceContract::check_presence(&mut env, user));
    assert_eq!(env.events(), events);
}

#[test]
fn register_announces_an_empty_nickname_without_profile() {
    let mut env = running();
    let user = who(5);
    assert_eq!(
        AttendanceContract::register(&mut env, &Authorization::of(user), user, hash(7)),
        Ok(())
    );
    assert_eq!(
        env.events().last(),
        Some(&Event::Present { user, hash: hash(7), nickname: String::new() })
    );
    assert_eq!(env.live_until(&StorageKey::Presence(hash(7), user)), Some(100 + 518_400));
    assert!(!env.has(&StorageKey::UserProfile(user)));
}

#[test]
fn register_announces_the_profiles_nickname_and_touches_it() {
    let mut env = running();
    let user = who(5);
    let auth = Authorization::of(user);
    assert_eq!(
        AttendanceContract::set_profile(&mut env, &auth, user, "alice".to_string()),
        Ok(())
    );
    let before = env.effects().len();
    assert_eq!(AttendanceContract::register(&mut env, &auth, user, hash(7)), Ok(()));
    let key = StorageKey::Presence(hash(7), user);
    let expected = vec![
        Effect::Extend {
            key: StorageKey::ActiveHash,
            threshold: TTL_THRESHOLD,
            extend_to: STANDARD_HORIZON,
        },
        Effect::Write { key, value: ambassador_contract::key::Value::Flag(true) },
        Effect::Extend { key, threshold: TTL_THRESHOLD, extend_to: STANDARD_HORIZON },
        Effect::Extend {
            key: StorageKey::UserProfile(user),
            threshold: TTL_THRESHOLD,
            extend_to: EXTENDED_HORIZON,
        },
        Effect::Publish {
            event: Event::Present { user, hash: hash(7), nickname: "alice".to_string() },
        },
    ];
    assert_eq!(&env.effects()[before..], &expected[..]);
}

#[test]
fn transfer_admin_needs_both_consents() {
    let old = who(1);
    let new = who(2);

    let mut env = running();
    let before = env.effects().len();
    assert_eq!(
        AttendanceContract::transfer_admin(&mut env, &Authorization::of(new), new),
        Err(Failure::Unauthorized(old))
    );
    assert_eq!(
        AttendanceContract::transfer_admin(&mut env, &Authorization::of(old), new),
        Err(Failure::Unauthorized(new))
    );
    assert_eq!(
        AttendanceContract::transfer_admin(&mut env, &Authorization::none(), new),
        Err(Failure::Unauthorized(old))
    );
    assert_eq!(env.admin(), Some(old));
    assert_eq!(env.effects().len(), before);

    assert_eq!(
        AttendanceContract::transfer_admin(&mut env, &Authorization::of(new).and(old), new),
        Ok(())
    );
    assert_eq!(AttendanceContract::get_admin(&mut env), Ok(new));
    assert_eq!(
        env.events().last(),
        Some(&Event::AdminTransfer { old_admin: old, new_admin: new })
    );
    // The old administrator has no say any more.
    assert_eq!(
        AttendanceContract::set_hash(&mut env, &Authorization::of(old), hash(9)),
        Err(Failure::Unauthorized(new))
    );
}

#[test]
fn transfer_admin_before_initialize_fails() {
    let mut env = Ledger::new(100);
    let auth = Authorization::of(who(1)).and(who(2));
    assert_eq!(
        AttendanceContract::transfer_admin(&mut env, &auth, who(2)),
        Err(Failure::Contract(Error::NotInitialized))
    );
    assert!(env.effects().is_empty());
}

#[test]
fn set_profile_checks_the_nickname_length() {
    let user = who(5);
    let auth = Authorization::of(user);
    for len in [0usize, 1, 2, 33, 34, 100] {
        let mut env = Ledger::new(100);
        assert_eq!(
            AttendanceContract::set_profile(&mut env, &auth, user, nickname(len)),
            Err(Failure::Contract(Error::InvalidNickname)),
            "length {}",
            len
        );
        assert!(env.effects().is_empty());
        assert_eq!(AttendanceContract::get_profile(&mut env, user), None);
    }
    for len in [3usize, 4, 31, 32] {
        let mut env = Ledger::new(100);
        assert_eq!(
            AttendanceContract::set_profile(&mut env, &auth, user, nickname(len)),
            Ok(()),
            "length {}",
            len
        );
        assert_eq!(
            AttendanceContract::get_profile(&mut env, user),
            Some(UserProfile { nickname: nickname(len), registered_at: 100 })
        );
    }
}

#[test]
fn set_profile_counts_characters() {
    let user = who(5);
    let auth = Authorization::of(user);
    let mut env = Ledger::new(100);
    // Two characters, though three and four bytes.
    assert_eq!(
        AttendanceContract::set_profile(&mut env, &auth, user, "a\u{e9}".to_string()),
        Err(Failure::Contract(Error::InvalidNickname))
    );
    assert_eq!(
        AttendanceContract::set_profile(&mut env, &auth, user, "\u{e9}\u{e9}".to_string()),
        Err(Failure::Contract(Error::InvalidNickname))
    );
    assert_eq!(AttendanceContract::get_profile(&mut env, user), None);
    assert!(env.effects().is_empty());
    // Three characters, six bytes.
    assert_eq!(
        AttendanceContract::set_profile(&mut env, &auth, user, "\u{e9}".repeat(3)),
        Ok(())
    );
    // Seventeen characters, thirty-four bytes.
    assert_eq!(
        AttendanceContract::set_profile(&mut env, &auth, user, "\u{e9}".repeat(17)),
        Ok(())
    );
    // Thirty-two characters of four bytes each.
    assert_eq!(
        AttendanceContract::set_profile(&mut env, &auth, user, "\u{1f600}".repeat(32)),
        Ok(())
    );
    assert_eq!(
        AttendanceContract::get_profile(&mut env, user),
        Some(UserProfile { nickname: "\u{1f600}".repeat(32), registered_at: 100 })
    );
    // Thirty-three characters.
    assert_eq!(
        AttendanceContract::set_profile(&mut env, &auth, user, "\u{e9}".repeat(33)),
        Err(Failure::Contract(Error::InvalidNickname))
    );
    assert_eq!(
        AttendanceContract::get_profile(&mut env, user),
        Some(UserProfile { nickname: "\u{1f600}".repeat(32), registered_at: 100 })
    );
}

#[test]
fn set_profile_needs_the_users_consent() {
    let mut env = Ledger::new(100);
    let r = AttendanceContract::set_profile(
        &mut env,
        &Authorization::of(who(6)),
        who(5),
        "alice".to_string(),
    );
    assert_eq!(r, Err(Failure::Unauthorized(who(5))));
    assert!(env.effects().is_empty());
}

#[test]
fn set_profile_asks_for_the_extended_horizon() {
    let mut env = Ledger::new(100);
    let user = who(5);
    assert_eq!(
        AttendanceContract::set_profile(
            &mut env,
            &Authorization::of(user),
            user,
            "alice".to_string()
        ),
        Ok(())
    );
    assert_eq!(env.live_until(&StorageKey::UserProfile(user)), Some(100 + 1_555_200));
    assert_eq!(
        env.events(),
        vec![Event::Profile { user, nickname: "alice".to_string() }]
    );
}

#[test]
fn get_profile_renews_a_profile_that_is_running_out() {
    let mut env = Ledger::new(100);
    let user = who(5);
    assert_eq!(
        AttendanceContract::set_profile(
            &mut env,
            &Authorization::of(user),
            user,
            "alice".to_string()
        ),
        Ok(())
    );
    // More than the threshold left: the request changes nothing.
    env.advance_to(1000);
    assert!(AttendanceContract::get_profile(&mut env, user).is_some());
    assert_eq!(env.live_until(&StorageKey::UserProfile(user)), Some(100 + 1_555_200));
    // Exactly the threshold left: renewed.
    env.advance_to(100 + 1_555_200 - 120_960);
    assert!(AttendanceContract::get_profile(&mut env, user).is_some());
    assert_eq!(
        env.live_until(&StorageKey::UserProfile(user)),
        Some(100 + 1_555_200 - 120_960 + 1_555_200)
    );
    assert_eq!(
        AttendanceContract::get_profile(&mut env, user),
        Some(UserProfile { nickname: "alice".to_string(), registered_at: 100 })
    );
}

#[test]
fn get_profile_of_a_stranger_is_none_and_silent() {
    let mut env = running();
    let before = env.effects().len();
    assert_eq!(AttendanceContract::get_profile(&mut env, who(9)), None);
    assert_eq!(env.effects().len(), before);
}

#[test]
fn check_presence_without_session_is_false_and_silent() {
    let mut env = Ledger::new(100);
    assert!(!AttendanceContract::check_presence(&mut env, who(5)));
    assert!(env.effects().is_empty());
}

#[test]
fn check_presence_touches_the_session_and_a_true_record() {
    let mut env = running();
    let user = who(5);
    let before = env.effects().len();
    assert!(!AttendanceContract::check_presence(&mut env, user));
    assert_eq!(
        &env.effects()[before..],
        &[Effect::Extend {
            key: StorageKey::ActiveHash,
            threshold: TTL_THRESHOLD,
            extend_to: STANDARD_HORIZON,
        }][..]
    );
    assert_eq!(
        AttendanceContract::register(&mut env, &Authorization::of(user), user, hash(7)),
        Ok(())
    );
    let before = env.effects().len();
    assert!(AttendanceContract::check_presence(&mut env, user));
    assert_eq!(
        &env.effects()[before..],
        &[
            Effect::Extend {
                key: StorageKey::ActiveHash,
                threshold: TTL_THRESHOLD,
                extend_to: STANDARD_HORIZON,
            },
            Effect::Extend {
                key: StorageKey::Presence(hash(7), user),
                threshold: TTL_THRESHOLD,
                extend_to: STANDARD_HORIZON,
            },
        ][..]
    );
}

#[test]
fn check_batch_without_session_is_empty() {
    let mut env = Ledger::new(100);
    let r = AttendanceContract::check_batch(&mut env, vec![who(1), who(2), who(3)]);
    assert_eq!(r, Vec::<bool>::new());
    assert!(env.effects().is_empty());
}

#[test]
fn check_batch_of_nobody_is_empty_but_touches_the_session() {
    let mut env = running();
    let before = env.effects().len();
    let r = AttendanceContract::check_batch(&mut env, Vec::new());
    assert_eq!(r, Vec::<bool>::new());
    assert_eq!(env.effects().len(), before + 1);
}

#[test]
fn check_batch_answers_duplicates_independently() {
    let mut env = running();
    let a = who(5);
    assert_eq!(
        AttendanceContract::register(&mut env, &Authorization::of(a), a, hash(7)),
        Ok(())
    );
    let before = env.effects().len();
    assert_eq!(AttendanceContract::check_batch(&mut env, vec![a, a]), vec![true, true]);
    let touch = Effect::Extend {
        key: StorageKey::Presence(hash(7), a),
        threshold: TTL_THRESHOLD,
        extend_to: STANDARD_HORIZON,
    };
    assert_eq!(
        &env.effects()[before..],
        &[
            Effect::Extend {
                key: StorageKey::ActiveHash,
                threshold: TTL_THRESHOLD,
                extend_to: STANDARD_HORIZON,
            },
            touch.clone(),
            touch,
        ][..]
    );
}

#[test]
fn check_batch_keeps_the_order() {
    let mut env = running();
    let (a, b, c) = (who(5), who(6), who(7));
    for user in [a, c] {
        assert_eq!(
            AttendanceContract::register(&mut env, &Authorization::of(user), user, hash(7)),
            Ok(())
        );
    }
    assert_eq!(
        AttendanceContract::check_batch(&mut env, vec![a, b, c, b, a]),
        vec![true, false, true, false, true]
    );
    assert_eq!(AttendanceContract::check_batch(&mut env, vec![b]), vec![false]);
}

#[test]
fn a_new_session_orphans_the_old_presence() {
    let mut env = Ledger::new(100);
    let x = who(1);
    let u1 = who(5);
    let (h1, h2) = (hash(1), hash(2));
    let admin = Authorization::of(x);
    let user = Authorization::of(u1);
    assert_eq!(AttendanceContract::initialize(&mut env, &admin, x), Ok(()));
    assert_eq!(AttendanceContract::set_hash(&mut env, &admin, h1), Ok(()));
    assert_eq!(AttendanceContract::register(&mut env, &user, u1, h1), Ok(()));
    assert!(AttendanceContract::check_presence(&mut env, u1));
    assert_eq!(AttendanceContract::set_hash(&mut env, &admin, h2), Ok(()));
    assert!(!AttendanceContract::check_presence(&mut env, u1));
    assert_eq!(AttendanceContract::check_batch(&mut env, vec![u1]), vec![false]);
    // The old record is still in the ledger, out of sight.
    assert!(env.is_present(&h1, &u1));
    assert_eq!(
        AttendanceContract::register(&mut env, &user, u1, h1),
        Err(Failure::Contract(Error::IncorrectHash))
    );
    assert_eq!(AttendanceContract::register(&mut env, &user, u1, h2), Ok(()));
    assert!(AttendanceContract::check_presence(&mut env, u1));
    // Back to the first session: the first record counts again.
    assert_eq!(AttendanceContract::set_hash(&mut env, &admin, h1), Ok(()));
    assert!(AttendanceContract::check_presence(&mut env, u1));
}

#[test]
fn a_profile_is_overwritten_with_a_later_date() {
    let mut env = Ledger::new(10);
    let u1 = who(5);
    let auth = Authorization::of(u1);
    assert_eq!(
        AttendanceContract::set_profile(&mut env, &auth, u1, "ab".to_string()),
        Err(Failure::Contract(Error::InvalidNickname))
    );
    assert_eq!(AttendanceContract::get_profile(&mut env, u1), None);

    env.advance_to(11);
    assert_eq!(AttendanceContract::set_profile(&mut env, &auth, u1, "abc".to_string()), Ok(()));
    let first = AttendanceContract::get_profile(&mut env, u1).unwrap();
    assert_eq!(first, UserProfile { nickname: "abc".to_string(), registered_at: 11 });

    env.advance_to(12);
    assert_eq!(AttendanceContract::set_profile(&mut env, &auth, u1, "abcd".to_string()), Ok(()));
    let second = AttendanceContract::get_profile(&mut env, u1).unwrap();
    assert_eq!(second, UserProfile { nickname: "abcd".to_string(), registered_at: 12 });
    assert!(second.registered_at > first.registered_at);

    // The same nickname again still moves the date.
    env.advance_to(20);
    assert_eq!(AttendanceContract::set_profile(&mut env, &auth, u1, "abcd".to_string()), Ok(()));
    assert_eq!(
        AttendanceContract::get_profile(&mut env, u1),
        Some(UserProfile { nickname: "abcd".to_string(), registered_at: 20 })
    );
    assert_eq!(env.events().len(), 3);
}

#[test]
fn every_success_publishes_one_event() {
    let mut env = Ledger::new(100);
    let admin = who(1);
    let user = who(5);
    let both = Authorization::of(admin).and(user);
    assert_eq!(AttendanceContract::initialize(&mut env, &both, admin), Ok(()));
    assert_eq!(env.events().len(), 1);
    assert_eq!(AttendanceContract::set_hash(&mut env, &both, hash(7)), Ok(()));
    assert_eq!(env.events().len(), 2);
    assert_eq!(
        AttendanceContract::set_profile(&mut env, &both, user, "alice".to_string()),
        Ok(())
    );
    assert_eq!(env.events().len(), 3);
    assert_eq!(AttendanceContract::register(&mut env, &both, user, hash(7)), Ok(()));
    assert_eq!(env.events().len(), 4);
    assert_eq!(AttendanceContract::transfer_admin(&mut env, &both, user), Ok(()));
    assert_eq!(env.events().len(), 5);
    // Queries publish nothing.
    let _ = AttendanceContract::get_admin(&mut env);
    let _ = AttendanceContract::get_session(&mut env);
    let _ = AttendanceContract::get_profile(&mut env, user);
    let _ = AttendanceContract::check_presence(&mut env, user);
    let _ = AttendanceContract::check_batch(&mut env, vec![user, admin]);
    let topics: Vec<&str> = env.events().iter().map(|e| e.topic()).collect();
    assert_eq!(topics, vec!["init", "new_sess", "profile", "present", "adm_xfer"]);
}

#[test]
fn a_call_without_consent_leaves_the_ledger_as_it_was() {
    let mut env = running();
    let nobody = Authorization::none();
    let before = env.clone();
    assert_eq!(
        AttendanceContract::set_hash(&mut env, &nobody, hash(8)),
        Err(Failure::Unauthorized(who(1)))
    );
    assert_eq!(
        AttendanceContract::register(&mut env, &nobody, who(5), hash(7)),
        Err(Failure::Unauthorized(who(5)))
    );
    assert_eq!(
        AttendanceContract::transfer_admin(&mut env, &nobody, who(2)),
        Err(Failure::Unauthorized(who(1)))
    );
    assert_eq!(
        AttendanceContract::set_profile(&mut env, &nobody, who(5), "alice".to_string()),
        Err(Failure::Unauthorized(who(5)))
    );
    assert_eq!(env, before);
}

#[test]
fn a_second_registration_only_renews_the_session() {
    let mut env = running();
    let user = who(5);
    let auth = Authorization::of(user);
    assert_eq!(AttendanceContract::register(&mut env, &auth, user, hash(7)), Ok(()));
    let before = env.effects().len();
    assert_eq!(
        AttendanceContract::register(&mut env, &auth, user, hash(7)),
        Err(Failure::Contract(Error::AlreadyRegistered))
    );
    assert_eq!(
        &env.effects()[before..],
        &[Effect::Extend {
            key: StorageKey::ActiveHash,
            threshold: TTL_THRESHOLD,
            extend_to: STANDARD_HORIZON,
        }][..]
    );
}
