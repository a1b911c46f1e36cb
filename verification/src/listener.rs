//! The decisions of the accept loop.
//!
//! While it is accepting, the loop takes a slot before each connection and
//! waits where none is free. A failed accept gives its slot back and the
//! loop goes on. When shutdown is asked for, no further connection is taken;
//! those that are being served get a grace period to end by themselves.

use crate::admission::{enter, has_room, leave, Admission, AdmissionView};
use vstd::prelude::*;

verus! {

/// The seconds that connections are given to end after a shutdown request.
pub const DEFAULT_GRACE: u64 = 5;

/// What the loop is doing.
#[derive(Clone, Copy, Debug, PartialEq, Eq, Structural)]
pub enum Phase {
    Accepting,
    Draining,
    Stopped,
}

/// What happened.
#[derive(Clone, Copy, Debug, PartialEq, Eq, Structural)]
pub enum ListenerEvent {
    /// The loop is ready for the next connection.
    Ready,
    /// The accept that was asked for has failed.
    AcceptFailed,
    /// A connection that was being served has ended.
    ConnectionClosed,
    /// Shutdown was asked for.
    ShutdownRequested,
    /// The grace period is over.
    GraceElapsed,
}

/// What the loop does next.
#[derive(Clone, Copy, Debug, PartialEq, Eq, Structural)]
pub enum ListenerAction {
    /// Accept a connection and serve it in a task of its own.
    Accept,
    /// Wait for the next event: no connection can be taken now.
    Wait,
    /// Go on.
    Continue,
    /// Take no further connection; leave after this many seconds.
    Drain(u64),
    /// Leave.
    Exit,
}

/// The state of an accept loop.
pub struct ListenerView {
    pub slots: AdmissionView,
    pub phase: Phase,
    pub grace: u64,
}

/// The accept loop's state: its slots, its phase and its grace period.
#[derive(Debug)]
pub struct Listener {
    admission: Admission,
    phase: Phase,
    grace: u64,
}

/// The phase after a connection has ended: a draining loop whose last
/// connection has ended is done.
pub open spec fn phase_after_leave(v: ListenerView) -> Phase {
    if v.phase == Phase::Draining && leave(v.slots).active == 0 {
        Phase::Stopped
    } else {
        v.phase
    }
}

/// The state after `event` in the state `v`.
pub open spec fn next_state(v: ListenerView, event: ListenerEvent) -> ListenerView {
    match (v.phase, event) {
        (Phase::Stopped, _) => v,
        (Phase::Accepting, ListenerEvent::Ready) => ListenerView {
            slots: enter(v.slots),
            phase: v.phase,
            grace: v.grace,
        },
        (_, ListenerEvent::AcceptFailed) | (_, ListenerEvent::ConnectionClosed) => ListenerView {
            slots: leave(v.slots),
            phase: phase_after_leave(v),
            grace: v.grace,
        },
        (Phase::Accepting, ListenerEvent::ShutdownRequested) => ListenerView {
            slots: v.slots,
            phase: if v.slots.active == 0 {
                Phase::Stopped
            } else {
                Phase::Draining
            },
            grace: v.grace,
        },
        (Phase::Draining, ListenerEvent::GraceElapsed) => ListenerView {
            slots: v.slots,
            phase: Phase::Stopped,
            grace: v.grace,
        },
        _ => v,
    }
}

/// What the loop does after `event` in the state `v`.
pub open spec fn next_action(v: ListenerView, event: ListenerEvent) -> ListenerAction {
    match (v.phase, event) {
        (Phase::Stopped, _) => ListenerAction::Exit,
        (Phase::Accepting, ListenerEvent::Ready) => if has_room(v.slots) {
            ListenerAction::Accept
        } else {
            ListenerAction::Wait
        },
        (Phase::Draining, ListenerEvent::Ready) => ListenerAction::Wait,
        (_, ListenerEvent::AcceptFailed) | (_, ListenerEvent::ConnectionClosed) => if next_state(
            v,
            event,
        ).phase == Phase::Stopped {
            ListenerAction::Exit
        } else {
            ListenerAction::Continue
        },
        (Phase::Accepting, ListenerEvent::ShutdownRequested) => if v.slots.active == 0 {
            ListenerAction::Exit
        } else {
            ListenerAction::Drain(v.grace)
        },
        (Phase::Draining, ListenerEvent::GraceElapsed) => ListenerAction::Exit,
        _ => ListenerAction::Continue,
    }
}

impl View for Listener {
    type V = ListenerView;

    closed spec fn view(&self) -> ListenerView {
        ListenerView { slots: self.admission@, phase: self.phase, grace: self.grace }
    }
}

impl Listener {
    /// A loop that accepts, with room for `max_connections` connections and
    /// `grace` seconds for them to end after a shutdown request.
    pub fn new(max_connections: u32, grace: u64) -> (l: Listener)
        ensures
            l@ == (ListenerView {
                slots: AdmissionView { active: 0, max: max_connections as nat },
                phase: Phase::Accepting,
                grace,
            }),
    {
        Listener { admission: Admission::new(max_connections), phase: Phase::Accepting, grace }
    }

    /// What the loop is doing.
    pub fn phase(&self) -> (p: Phase)
        ensures
            p == self@.phase,
    {
        self.phase
    }

    /// How many connections are being served.
    pub fn active(&self) -> (n: u32)
        ensures
            n == self@.slots.active,
            self@.slots.active <= self@.slots.max,
    {
        self.admission.active()
    }

    /// Takes note of `event` and says what the loop does next.
    pub fn on_event(&mut self, event: ListenerEvent) -> (action: ListenerAction)
        ensures
            final(self)@ == next_state(old(self)@, event),
            action == next_action(old(self)@, event),
    {
        match self.phase {
            Phase::Stopped => ListenerAction::Exit,
            Phase::Accepting => match event {
                ListenerEvent::Ready => {
                    if self.admission.try_acquire() {
                        ListenerAction::Accept
                    } else {
                        ListenerAction::Wait
                    }
                },
                ListenerEvent::AcceptFailed | ListenerEvent::ConnectionClosed => {
                    self.admission.release();
                    ListenerAction::Continue
                },
                ListenerEvent::ShutdownRequested => {
                    if self.admission.active() == 0 {
                        self.phase = Phase::Stopped;
                        ListenerAction::Exit
                    } else {
                        self.phase = Phase::Draining;
                        ListenerAction::Drain(self.grace)
                    }
                },
                ListenerEvent::GraceElapsed => ListenerAction::Continue,
            },
            Phase::Draining => match event {
                ListenerEvent::Ready => ListenerAction::Wait,
                ListenerEvent::AcceptFailed | ListenerEvent::ConnectionClosed => {
                    self.admission.release();
                    if self.admission.active() == 0 {
                        self.phase = Phase::Stopped;
                        ListenerAction::Exit
                    } else {
                        ListenerAction::Continue
                    }
                },
                ListenerEvent::ShutdownRequested => ListenerAction::Continue,
                ListenerEvent::GraceElapsed => {
                    self.phase = Phase::Stopped;
                    ListenerAction::Exit
                },
            },
        }
    }
}

/// A connection is accepted only by a loop that is accepting and has a free
/// slot, and the slot is then taken.
pub proof fn lemma_accept_takes_a_slot(v: ListenerView, event: ListenerEvent)
    requires
        next_action(v, event) == ListenerAction::Accept,
    ensures
        v.phase == Phase::Accepting,
        event == ListenerEvent::Ready,
        v.slots.active < v.slots.max,
        next_state(v, event).slots.active == v.slots.active + 1,
{
}

/// The number of connections never passes the bound.
pub proof fn lemma_bound_holds(v: ListenerView, event: ListenerEvent)
    requires
        v.slots.active <= v.slots.max,
    ensures
        next_state(v, event).slots.active <= next_state(v, event).slots.max,
        next_state(v, event).slots.max == v.slots.max,
        next_state(v, event).grace == v.grace,
{
}

/// After a shutdown request no connection is accepted any more, and a loop
/// that has stopped stays stopped.
pub proof fn lemma_no_accept_after_shutdown(v: ListenerView, event: ListenerEvent)
    requires
        v.phase != Phase::Accepting,
    ensures
        next_action(v, event) != ListenerAction::Accept,
        next_state(v, event).phase != Phase::Accepting,
        v.phase == Phase::Stopped ==> next_state(v, event) == v && next_action(v, event)
            == ListenerAction::Exit,
{
}

/// A shutdown request does not end the connections that are being served:
/// they keep their slots, and the loop leaves when the grace period is over
/// or the last of them has ended.
pub proof fn lemma_shutdown_drains(v: ListenerView)
    requires
        v.phase == Phase::Accepting,
        v.slots.active > 0,
    ensures
        next_state(v, ListenerEvent::ShutdownRequested).slots == v.slots,
        next_state(v, ListenerEvent::ShutdownRequested).phase == Phase::Draining,
        next_action(v, ListenerEvent::ShutdownRequested) == ListenerAction::Drain(v.grace),
        next_action(
            next_state(v, ListenerEvent::ShutdownRequested),
            ListenerEvent::GraceElapsed,
        ) == ListenerAction::Exit,
{
}

} // verus!
