use vstd::prelude::*;
use crate::effect::{effects_view, events_of, events_of_push, Effect};
use crate::event::{events_view, Event};
use crate::identity::Address;
use crate::key::{StorageKey, Value};
use crate::profile::UserProfile;
use crate::state::{LedgerView, RecordView};
use crate::ttl::{renew, TTL_THRESHOLD};

verus! {

#[derive(Debug, PartialEq, Eq)]
struct Record {
    key: StorageKey,
    value: Value,
    live_until: u64,
}

impl Clone for Record {
    fn clone(&self) -> (r: Record)
        ensures
            r == *self,
    {
        Record { key: self.key, value: self.value.clone(), live_until: self.live_until }
    }
}

impl View for Record {
    type V = RecordView;

    closed spec fn view(&self) -> RecordView {
        RecordView { value: self.value@, live_until: self.live_until }
    }
}

/// The record at place `i` of `records` stands under `key`.
spec fn keyed(records: Seq<Record>, i: int, key: StorageKey) -> bool {
    0 <= i < records.len() && records[i].key == key
}

/// No key stands twice in `records`.
spec fn distinct(records: Seq<Record>) -> bool {
    forall|i: int, j: int|
        0 <= i < j < records.len() ==> #[trigger] records[i].key != #[trigger] records[j].key
}

/// Each record of `records` holds a value that fits its key.
spec fn fitting(records: Seq<Record>) -> bool {
    forall|i: int| 0 <= i < records.len() ==> (#[trigger] records[i]).value@.fits(records[i].key)
}

/// The records by key.
spec fn by_key(records: Seq<Record>) -> Map<StorageKey, RecordView> {
    Map::new(
        |key: StorageKey| exists|i: int| keyed(records, i, key),
        |key: StorageKey| records[choose|i: int| keyed(records, i, key)]@,
    )
}

/// Where no key stands twice, the record at place `i` is the one that the
/// map gives for its key.
proof fn by_key_at(records: Seq<Record>, i: int)
    requires
        distinct(records),
        0 <= i < records.len(),
    ensures
        by_key(records).contains_key(records[i].key),
        by_key(records)[records[i].key] == records[i]@,
{
    let key = records[i].key;
    assert(keyed(records, i, key));
    let j = choose|j: int| keyed(records, j, key);
    assert(keyed(records, j, key));
    if j < i {
        assert(records[j].key != records[i].key);
    }
    if i < j {
        assert(records[i].key != records[j].key);
    }
}

/// Replacing the record at place `i` by one with the same key replaces what
/// the map gives for that key, and nothing else.
proof fn by_key_update(records: Seq<Record>, i: int, record: Record)
    requires
        distinct(records),
        0 <= i < records.len(),
        record.key == records[i].key,
    ensures
        distinct(records.update(i, record)),
        by_key(records.update(i, record)) == by_key(records).insert(record.key, record@),
{
    let after = records.update(i, record);
    assert forall|a: int, b: int| 0 <= a < b < after.len() implies #[trigger] after[a].key
        != #[trigger] after[b].key by {
        assert(records[a].key != records[b].key);
    }
    assert forall|key: StorageKey| #[trigger]
        by_key(after).contains_key(key) <==> by_key(records).insert(
            record.key,
            record@,
        ).contains_key(key) by {
        if by_key(after).contains_key(key) {
            let j = choose|j: int| keyed(after, j, key);
            assert(keyed(records, j, key));
        }
        if by_key(records).contains_key(key) {
            let j = choose|j: int| keyed(records, j, key);
            assert(keyed(after, j, key));
        }
        if key == record.key {
            assert(keyed(after, i, key));
        }
    }
    assert forall|key: StorageKey| #[trigger] by_key(after).contains_key(key) implies by_key(
        after,
    )[key] == by_key(records).insert(record.key, record@)[key] by {
        let j = choose|j: int| keyed(after, j, key);
        assert(keyed(after, j, key));
        by_key_at(after, j);
        if j != i {
            by_key_at(records, j);
        }
    }
    assert(by_key(after) =~= by_key(records).insert(record.key, record@));
}

/// Adding a record under a key that is not there yet adds it to the map, and
/// changes nothing else.
proof fn by_key_push(records: Seq<Record>, record: Record)
    requires
        distinct(records),
        forall|i: int| !keyed(records, i, record.key),
    ensures
        distinct(records.push(record)),
        by_key(records.push(record)) == by_key(records).insert(record.key, record@),
{
    let after = records.push(record);
    let last = records.len() as int;
    assert forall|a: int, b: int| 0 <= a < b < after.len() implies #[trigger] after[a].key
        != #[trigger] after[b].key by {
        if b < last {
            assert(records[a].key != records[b].key);
        } else {
            assert(!keyed(records, a, record.key));
        }
    }
    assert forall|key: StorageKey| #[trigger]
        by_key(after).contains_key(key) <==> by_key(records).insert(
            record.key,
            record@,
        ).contains_key(key) by {
        if by_key(after).contains_key(key) {
            let j = choose|j: int| keyed(after, j, key);
            if j < last {
                assert(keyed(records, j, key));
            }
        }
        if by_key(records).contains_key(key) {
            let j = choose|j: int| keyed(records, j, key);
            assert(keyed(after, j, key));
        }
        if key == record.key {
            assert(keyed(after, last, key));
        }
    }
    assert forall|key: StorageKey| #[trigger] by_key(after).contains_key(key) implies by_key(
        after,
    )[key] == by_key(records).insert(record.key, record@)[key] by {
        let j = choose|j: int| keyed(after, j, key);
        assert(keyed(after, j, key));
        by_key_at(after, j);
        if j < last {
            by_key_at(records, j);
        }
    }
    assert(by_key(after) =~= by_key(records).insert(record.key, record@));
}

/// A key-value ledger with a clock. It keeps its records by key, serves
/// requests to extend their lifetimes, and logs every request made of it.
#[derive(Debug, PartialEq, Eq)]
pub struct Ledger {
    sequence: u32,
    records: Vec<Record>,
    effects: Vec<Effect>,
}

impl View for Ledger {
    type V = LedgerView;

    closed spec fn view(&self) -> LedgerView {
        LedgerView {
            sequence: self.sequence,
            records: by_key(self.records@),
            effects: effects_view(self.effects@),
        }
    }
}

impl Clone for Ledger {
    /// A ledger of its own with the same clock, records and log.
    fn clone(&self) -> (r: Ledger)
        ensures
            r@ == self@,
            self.wf() ==> r.wf(),
    {
        let mut records: Vec<Record> = Vec::new();
        let mut i: usize = 0;
        while i < self.records.len()
            invariant
                i <= self.records.len(),
                records@ =~= self.records@.take(i as int),
            decreases self.records.len() - i,
        {
            records.push(self.records[i].clone());
            i += 1;
        }
        let mut effects: Vec<Effect> = Vec::new();
        let mut j: usize = 0;
        while j < self.effects.len()
            invariant
                j <= self.effects.len(),
                effects@ =~= self.effects@.take(j as int),
            decreases self.effects.len() - j,
        {
            effects.push(self.effects[j].clone());
            j += 1;
        }
        assert(records@ =~= self.records@);
        assert(effects@ =~= self.effects@);
        Ledger { sequence: self.sequence, records, effects }
    }
}

impl Ledger {
    /// No key stands twice in the ledger, and every record holds a value
    /// of the kind that its key calls for.
    pub closed spec fn wf(&self) -> bool {
        distinct(self.records@) && fitting(self.records@)
    }

    /// The records of a well-formed ledger are well formed as a map.
    pub proof fn well_formed(&self)
        requires
            self.wf(),
        ensures
            self@.wf(),
    {
        assert forall|key: StorageKey| #[trigger] self@.records.contains_key(key) implies self@
            .records[key].value.fits(key) by {
            let i = choose|i: int| keyed(self.records@, i, key);
            assert(keyed(self.records@, i, key));
        }
    }

    /// An empty ledger whose clock stands at `sequence`.
    pub fn new(sequence: u32) -> (ledger: Ledger)
        ensures
            ledger.wf(),
            ledger@ == LedgerView::empty(sequence),
    {
        let ledger = Ledger { sequence, records: Vec::new(), effects: Vec::new() };
        assert(ledger@.records =~= Map::empty());
        assert(ledger@.effects =~= Seq::empty());
        ledger
    }

    /// The sequence number of the current ledger.
    pub fn sequence(&self) -> (sequence: u32)
        ensures
            sequence == self@.sequence,
    {
        self.sequence
    }

    /// Moves the clock on to `sequence`, unless it is already past it.
    pub fn advance_to(&mut self, sequence: u32)
        requires
            old(self).wf(),
        ensures
            final(self).wf(),
            final(self)@ == old(self)@.at(sequence),
    {
        if sequence > self.sequence {
            self.sequence = sequence;
        }
    }

    /// The place of the record under `key`, if there is one.
    fn find(&self, key: &StorageKey) -> (place: Option<usize>)
        ensures
            match place {
                Some(i) => keyed(self.records@, i as int, *key),
                None => forall|i: int| !keyed(self.records@, i, *key),
            },
    {
        let mut i: usize = 0;
        while i < self.records.len()
            invariant
                i <= self.records.len(),
                forall|j: int| 0 <= j < i ==> !keyed(self.records@, j, *key),
            decreases self.records.len() - i,
        {
            if self.records[i].key.same(key) {
                return Some(i);
            }
            i += 1;
        }
        None
    }

    /// Whether there is a record under `key`.
    pub fn has(&self, key: &StorageKey) -> (yes: bool)
        ensures
            yes == self@.has(*key),
    {
        let place = self.find(key);
        proof {
            if let Some(i) = place {
                assert(keyed(self.records@, i as int, *key));
            }
        }
        place.is_some()
    }

    /// What the record under `key` holds, if there is one.
    pub fn get(&self, key: &StorageKey) -> (value: Option<Value>)
        requires
            self.wf(),
        ensures
            match value {
                Some(v) => self@.get(*key) == Some(v@),
                None => self@.get(*key).is_none(),
            },
    {
        match self.find(key) {
            Some(i) => {
                proof {
                    by_key_at(self.records@, i as int);
                }
                Some(self.records[i].value.clone())
            },
            None => None,
        }
    }

    /// The administrator, if there is one.
    pub fn admin(&self) -> (admin: Option<Address>)
        requires
            self.wf(),
        ensures
            admin == self@.admin(),
    {
        match self.get(&StorageKey::Admin) {
            Some(Value::Admin(admin)) => Some(admin),
            _ => None,
        }
    }

    /// The hash of the active session, if there is one.
    pub fn session(&self) -> (hash: Option<[u8; 32]>)
        requires
            self.wf(),
        ensures
            hash == self@.session(),
    {
        match self.get(&StorageKey::ActiveHash) {
            Some(Value::Hash(hash)) => Some(hash),
            _ => None,
        }
    }

    /// Whether `user` is on record as present in the session with `hash`.
    pub fn is_present(&self, hash: &[u8; 32], user: &Address) -> (present: bool)
        requires
            self.wf(),
        ensures
            present == self@.present(*hash, *user),
    {
        match self.get(&StorageKey::Presence(*hash, *user)) {
            Some(Value::Flag(flag)) => flag,
            _ => false,
        }
    }

    /// The profile of `user`, if there is one.
    pub fn profile(&self, user: &Address) -> (profile: Option<UserProfile>)
        requires
            self.wf(),
        ensures
            match profile {
                Some(p) => self@.profile(*user) == Some(p@),
                None => self@.profile(*user).is_none(),
            },
    {
        match self.get(&StorageKey::UserProfile(*user)) {
            Some(Value::Profile(profile)) => Some(profile),
            _ => None,
        }
    }

    /// Every request made of the ledger so far, oldest first.
    pub fn effects(&self) -> (effects: &Vec<Effect>)
        ensures
            effects_view(effects@) == self@.effects,
    {
        &self.effects
    }

    /// The event log: every event published so far, oldest first.
    pub fn events(&self) -> (events: Vec<Event>)
        ensures
            events_view(events@) == self@.events(),
    {
        let mut events: Vec<Event> = Vec::new();
        let mut i: usize = 0;
        assert(effects_view(self.effects@).take(0) =~= Seq::empty());
        while i < self.effects.len()
            invariant
                i <= self.effects.len(),
                events_view(events@) =~= events_of(effects_view(self.effects@).take(i as int)),
            decreases self.effects.len() - i,
        {
            proof {
                let seen = effects_view(self.effects@).take(i as int);
                assert(effects_view(self.effects@).take(i + 1) =~= seen.push(self.effects@[i as int]@));
                events_of_push(seen, self.effects@[i as int]@);
            }
            match &self.effects[i] {
                Effect::Publish { event } => {
                    events.push(event.clone());
                },
                _ => {},
            }
            i += 1;
        }
        assert(effects_view(self.effects@).take(i as int) =~= effects_view(self.effects@));
        events
    }

    /// The last ledger through which the record under `key` is kept alive,
    /// if there is such a record.
    pub fn live_until(&self, key: &StorageKey) -> (ledger: Option<u64>)
        requires
            self.wf(),
        ensures
            ledger == self@.live_until(*key),
    {
        match self.find(key) {
            Some(i) => {
                proof {
                    by_key_at(self.records@, i as int);
                }
                Some(self.records[i].live_until)
            },
            None => None,
        }
    }

    fn log(&mut self, effect: Effect)
        ensures
            final(self).sequence == old(self).sequence,
            final(self).records == old(self).records,
            effects_view(final(self).effects@) == effects_view(old(self).effects@).push(effect@),
    {
        self.effects.push(effect);
        assert(effects_view(self.effects@) =~= effects_view(old(self).effects@).push(effect@));
    }

    /// Stores `value` under `key`, in place of what was there.
    pub fn set(&mut self, key: StorageKey, value: Value)
        requires
            old(self).wf(),
            value@.fits(key),
        ensures
            final(self).wf(),
            final(self)@ == old(self)@.write(key, value@),
    {
        let logged = Effect::Write { key, value: value.clone() };
        match self.find(&key) {
            Some(i) => {
                proof {
                    let replaced = Record { value, ..self.records@[i as int] };
                    by_key_at(self.records@, i as int);
                    by_key_update(self.records@, i as int, replaced);
                }
                self.records[i].value = value;
            },
            None => {
                let record = Record { key, value, live_until: self.sequence as u64 };
                proof {
                    by_key_push(self.records@, record);
                }
                self.records.push(record);
            },
        }
        self.log(logged);
    }

    /// Asks that the record under `key` be kept alive: if it has no more
    /// than `threshold` ledgers left, it lives for `extend_to` ledgers from
    /// now. Without such a record the request is logged and changes nothing.
    pub fn extend_ttl(&mut self, key: &StorageKey, threshold: u32, extend_to: u32)
        requires
            old(self).wf(),
        ensures
            final(self).wf(),
            final(self)@ == old(self)@.extend(*key, threshold, extend_to),
    {
        match self.find(key) {
            Some(i) => {
                let live_until = renew(
                    self.records[i].live_until,
                    self.sequence,
                    threshold,
                    extend_to,
                );
                proof {
                    let renewed = Record { live_until, ..self.records@[i as int] };
                    by_key_at(self.records@, i as int);
                    by_key_update(self.records@, i as int, renewed);
                }
                self.records[i].live_until = live_until;
            },
            None => {},
        }
        self.log(Effect::Extend { key: *key, threshold, extend_to });
    }

    /// Touches the record under `key`: asks for the lifetime that the policy
    /// gives to its key.
    pub fn touch(&mut self, key: &StorageKey)
        requires
            old(self).wf(),
        ensures
            final(self).wf(),
            final(self)@ == old(self)@.touch(*key),
    {
        self.extend_ttl(key, TTL_THRESHOLD, key.horizon());
    }

    /// Appends `event` to the event log.
    pub fn publish(&mut self, event: Event)
        requires
            old(self).wf(),
        ensures
            final(self).wf(),
            final(self)@ == old(self)@.publish(event@),
    {
        self.log(Effect::Publish { event });
    }
}

} // verus!
