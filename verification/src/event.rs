use vstd::prelude::*;
use crate::identity::Address;

verus! {

/// What a successful change of the ledger announces.
#[derive(Debug, PartialEq, Eq)]
pub enum Event {
    /// The contract got its first administrator.
    Init { admin: Address },
    /// A new session became the active one.
    NewSession { hash: [u8; 32] },
    /// A user registered for the active session.
    Present { user: Address, hash: [u8; 32], nickname: String },
    /// The administrator handed the contract over.
    AdminTransfer { old_admin: Address, new_admin: Address },
    /// A user wrote a profile.
    Profile { user: Address, nickname: String },
}

/// An event as a mathematical value.
pub enum EventView {
    Init { admin: Address },
    NewSession { hash: [u8; 32] },
    Present { user: Address, hash: [u8; 32], nickname: Seq<char> },
    AdminTransfer { old_admin: Address, new_admin: Address },
    Profile { user: Address, nickname: Seq<char> },
}

impl View for Event {
    type V = EventView;

    open spec fn view(&self) -> EventView {
        match *self {
            Event::Init { admin } => EventView::Init { admin },
            Event::NewSession { hash } => EventView::NewSession { hash },
            Event::Present { user, hash, nickname } => EventView::Present {
                user,
                hash,
                nickname: nickname@,
            },
            Event::AdminTransfer { old_admin, new_admin } => EventView::AdminTransfer {
                old_admin,
                new_admin,
            },
            Event::Profile { user, nickname } => EventView::Profile { user, nickname: nickname@ },
        }
    }
}

impl Clone for Event {
    fn clone(&self) -> (r: Event)
        ensures
            r == *self,
    {
        match self {
            Event::Init { admin } => Event::Init { admin: *admin },
            Event::NewSession { hash } => Event::NewSession { hash: *hash },
            Event::Present { user, hash, nickname } => Event::Present {
                user: *user,
                hash: *hash,
                nickname: nickname.clone(),
            },
            Event::AdminTransfer { old_admin, new_admin } => Event::AdminTransfer {
                old_admin: *old_admin,
                new_admin: *new_admin,
            },
            Event::Profile { user, nickname } => Event::Profile {
                user: *user,
                nickname: nickname.clone(),
            },
        }
    }
}

/// The events in `events`, each as a mathematical value.
pub open spec fn events_view(events: Seq<Event>) -> Seq<EventView> {
    Seq::new(events.len(), |i: int| events[i]@)
}

impl EventView {
    /// The topic under which the event is published.
    pub open spec fn topic(self) -> Seq<char> {
        match self {
            EventView::Init { .. } => "init"@,
            EventView::NewSession { .. } => "new_sess"@,
            EventView::Present { .. } => "present"@,
            EventView::AdminTransfer { .. } => "adm_xfer"@,
            EventView::Profile { .. } => "profile"@,
        }
    }
}

impl Event {
    /// The topic under which the event is published.
    pub fn topic(&self) -> (t: &'static str)
        ensures
            t@ == self@.topic(),
    {
        match self {
            Event::Init { .. } => "init",
            Event::NewSession { .. } => "new_sess",
            Event::Present { .. } => "present",
            Event::AdminTransfer { .. } => "adm_xfer",
            Event::Profile { .. } => "profile",
        }
    }
}

} // verus!
