use vstd::prelude::*;
use crate::event::{Event, EventView};
use crate::key::{StorageKey, Value, ValueView};

verus! {

/// One request that the registry made of the ledger.
#[derive(Debug, PartialEq, Eq)]
pub enum Effect {
    /// Store `value` under `key`.
    Write { key: StorageKey, value: Value },
    /// Keep the record under `key` alive: if it has no more than
    /// `threshold` ledgers left, let it live for `extend_to` ledgers from now.
    Extend { key: StorageKey, threshold: u32, extend_to: u32 },
    /// Append `event` to the event log.
    Publish { event: Event },
}

/// A request as a mathematical value.
pub enum EffectView {
    Write { key: StorageKey, value: ValueView },
    Extend { key: StorageKey, threshold: u32, extend_to: u32 },
    Publish { event: EventView },
}

impl View for Effect {
    type V = EffectView;

    open spec fn view(&self) -> EffectView {
        match *self {
            Effect::Write { key, value } => EffectView::Write { key, value: value@ },
            Effect::Extend { key, threshold, extend_to } => EffectView::Extend {
                key,
                threshold,
                extend_to,
            },
            Effect::Publish { event } => EffectView::Publish { event: event@ },
        }
    }
}

impl Clone for Effect {
    fn clone(&self) -> (r: Effect)
        ensures
            r == *self,
    {
        match self {
            Effect::Write { key, value } => Effect::Write { key: *key, value: value.clone() },
            Effect::Extend { key, threshold, extend_to } => Effect::Extend {
                key: *key,
                threshold: *threshold,
                extend_to: *extend_to,
            },
            Effect::Publish { event } => Effect::Publish { event: event.clone() },
        }
    }
}

/// The requests in `effects`, each as a mathematical value.
pub open spec fn effects_view(effects: Seq<Effect>) -> Seq<EffectView> {
    Seq::new(effects.len(), |i: int| effects[i]@)
}

/// The events among `effects`, in the order of their publication.
pub open spec fn events_of(effects: Seq<EffectView>) -> Seq<EventView>
    decreases effects.len(),
{
    if effects.len() == 0 {
        Seq::empty()
    } else {
        let earlier = events_of(effects.drop_last());
        match effects.last() {
            EffectView::Publish { event } => earlier.push(event),
            _ => earlier,
        }
    }
}

/// One more request adds its event, if it publishes one, and nothing else.
pub proof fn events_of_push(effects: Seq<EffectView>, effect: EffectView)
    ensures
        events_of(effects.push(effect)) == match effect {
            EffectView::Publish { event } => events_of(effects).push(event),
            _ => events_of(effects),
        },
{
    assert(effects.push(effect).drop_last() =~= effects);
}

} // verus!
