use vstd::prelude::*;
use crate::effect::{events_of, EffectView};
use crate::event::EventView;
use crate::identity::Address;
use crate::key::{StorageKey, ValueView};
use crate::profile::ProfileView;
use crate::ttl::{renewed, TTL_THRESHOLD};

verus! {

/// A record as a mathematical value: what it holds, and the last ledger
/// through which it is kept alive.
pub struct RecordView {
    pub value: ValueView,
    pub live_until: u64,
}

/// The ledger as a mathematical value: the sequence number of the current
/// ledger, the records by key, and every request made so far, oldest first.
pub struct LedgerView {
    pub sequence: u32,
    pub records: Map<StorageKey, RecordView>,
    pub effects: Seq<EffectView>,
}

impl LedgerView {
    /// A ledger without records and without history.
    pub open spec fn empty(sequence: u32) -> LedgerView {
        LedgerView { sequence, records: Map::empty(), effects: Seq::empty() }
    }

    /// Every record holds a value of the kind that its key calls for.
    pub open spec fn wf(self) -> bool {
        forall|key: StorageKey| #[trigger]
            self.records.contains_key(key) ==> self.records[key].value.fits(key)
    }

    pub open spec fn has(self, key: StorageKey) -> bool {
        self.records.contains_key(key)
    }

    pub open spec fn get(self, key: StorageKey) -> Option<ValueView> {
        if self.has(key) {
            Some(self.records[key].value)
        } else {
            None
        }
    }

    pub open spec fn live_until(self, key: StorageKey) -> Option<u64> {
        if self.has(key) {
            Some(self.records[key].live_until)
        } else {
            None
        }
    }

    /// The administrator, if there is one.
    pub open spec fn admin(self) -> Option<Address> {
        match self.get(StorageKey::Admin) {
            Some(ValueView::Admin(admin)) => Some(admin),
            _ => None,
        }
    }

    /// The hash of the active session, if there is one.
    pub open spec fn session(self) -> Option<[u8; 32]> {
        match self.get(StorageKey::ActiveHash) {
            Some(ValueView::Hash(hash)) => Some(hash),
            _ => None,
        }
    }

    /// Whether `user` is on record as present in the session with `hash`.
    pub open spec fn present(self, hash: [u8; 32], user: Address) -> bool {
        self.get(StorageKey::Presence(hash, user)) == Some(ValueView::Flag(true))
    }

    /// The profile of `user`, if there is one.
    pub open spec fn profile(self, user: Address) -> Option<ProfileView> {
        match self.get(StorageKey::UserProfile(user)) {
            Some(ValueView::Profile(profile)) => Some(profile),
            _ => None,
        }
    }

    /// The event log: every event published so far, oldest first.
    pub open spec fn events(self) -> Seq<EventView> {
        events_of(self.effects)
    }

    /// The ledger after `value` was stored under `key`. A record that was
    /// there keeps its lifetime; a new one lives through the current ledger.
    pub open spec fn write(self, key: StorageKey, value: ValueView) -> LedgerView {
        let live_until = if self.has(key) {
            self.records[key].live_until
        } else {
            self.sequence as u64
        };
        LedgerView {
            records: self.records.insert(key, RecordView { value, live_until }),
            effects: self.effects.push(EffectView::Write { key, value }),
            ..self
        }
    }

    /// The ledger after a request to extend the lifetime of the record under
    /// `key`. The request is logged whether or not there is such a record.
    pub open spec fn extend(self, key: StorageKey, threshold: u32, extend_to: u32) -> LedgerView {
        let records = if self.has(key) {
            self.records.insert(
                key,
                RecordView {
                    live_until: renewed(
                        self.records[key].live_until,
                        self.sequence,
                        threshold,
                        extend_to,
                    ),
                    ..self.records[key]
                },
            )
        } else {
            self.records
        };
        LedgerView {
            records,
            effects: self.effects.push(EffectView::Extend { key, threshold, extend_to }),
            ..self
        }
    }

    /// The ledger after the record under `key` was touched: a request with
    /// the threshold and the horizon that the policy gives to its key.
    pub open spec fn touch(self, key: StorageKey) -> LedgerView {
        self.extend(key, TTL_THRESHOLD, key.horizon())
    }

    /// The ledger after `event` was published.
    pub open spec fn publish(self, event: EventView) -> LedgerView {
        LedgerView { effects: self.effects.push(EffectView::Publish { event }), ..self }
    }

    /// The ledger once the clock has reached `sequence`. The clock never
    /// runs backwards.
    pub open spec fn at(self, sequence: u32) -> LedgerView {
        LedgerView {
            sequence: if sequence > self.sequence {
                sequence
            } else {
                self.sequence
            },
            ..self
        }
    }
}

} // verus!
