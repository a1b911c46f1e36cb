//! The bound on the number of connections that are served at a time.
//!
//! A connection is taken in only while a slot is free. Where none is, the
//! listener waits until a connection ends: nothing is turned away.

use vstd::prelude::*;

verus! {

/// The slots of a listener: how many are taken and how many there are.
pub struct AdmissionView {
    pub active: nat,
    pub max: nat,
}

/// Counts the connections that are being served.
#[derive(Debug)]
pub struct Admission {
    active: u32,
    max: u32,
}

/// Whether a slot is free.
pub open spec fn has_room(v: AdmissionView) -> bool {
    v.active < v.max
}

/// The slots after a connection was let in, where there was room.
pub open spec fn enter(v: AdmissionView) -> AdmissionView {
    if has_room(v) {
        AdmissionView { active: v.active + 1, max: v.max }
    } else {
        v
    }
}

/// The slots after a connection ended.
pub open spec fn leave(v: AdmissionView) -> AdmissionView {
    if v.active > 0 {
        AdmissionView { active: (v.active - 1) as nat, max: v.max }
    } else {
        v
    }
}

/// The slots after `n` connections in a row asked to be let in.
pub open spec fn enter_many(v: AdmissionView, n: nat) -> AdmissionView
    decreases n,
{
    if n == 0 {
        v
    } else {
        enter(enter_many(v, (n - 1) as nat))
    }
}

impl View for Admission {
    type V = AdmissionView;

    closed spec fn view(&self) -> AdmissionView {
        AdmissionView { active: self.active as nat, max: self.max as nat }
    }
}

impl Admission {
    #[verifier::type_invariant]
    spec fn well_formed(self) -> bool {
        self.active <= self.max
    }

    /// No connection yet, and room for `max` of them.
    pub fn new(max: u32) -> (a: Admission)
        ensures
            a@ == (AdmissionView { active: 0, max: max as nat }),
    {
        Admission { active: 0, max }
    }

    /// How many connections are being served.
    pub fn active(&self) -> (r: u32)
        ensures
            r == self@.active,
            self@.active <= self@.max,
    {
        proof {
            use_type_invariant(self);
        }
        self.active
    }

    /// How many connections may be served at a time.
    pub fn max(&self) -> (r: u32)
        ensures
            r == self@.max,
    {
        self.max
    }

    /// Takes a slot where one is free, and says whether it did.
    pub fn try_acquire(&mut self) -> (admitted: bool)
        ensures
            admitted == has_room(old(self)@),
            final(self)@ == enter(old(self)@),
    {
        proof {
            use_type_invariant(&*self);
        }
        if self.active < self.max {
            let next = Admission { active: self.active + 1, max: self.max };
            *self = next;
            true
        } else {
            false
        }
    }

    /// Gives a slot back, and says whether one was taken.
    pub fn release(&mut self) -> (released: bool)
        ensures
            released == (old(self)@.active > 0),
            final(self)@ == leave(old(self)@),
    {
        proof {
            use_type_invariant(&*self);
        }
        if self.active > 0 {
            let next = Admission { active: self.active - 1, max: self.max };
            *self = next;
            true
        } else {
            false
        }
    }
}

/// Of `n` connections that arrive while none ends, the first `max` are let
/// in and no more.
pub proof fn lemma_lets_in_up_to_max(max: nat, n: nat)
    ensures
        enter_many(AdmissionView { active: 0, max }, n).max == max,
        n <= max ==> enter_many(AdmissionView { active: 0, max }, n).active == n,
        n > max ==> enter_many(AdmissionView { active: 0, max }, n).active == max,
    decreases n,
{
    if n > 0 {
        lemma_lets_in_up_to_max(max, (n - 1) as nat);
    }
}

/// With every slot taken the next connection waits, and it is let in as
/// soon as one of the connections has ended.
pub proof fn lemma_backpressure(max: nat)
    requires
        max > 0,
    ensures
        !has_room(enter_many(AdmissionView { active: 0, max }, max)),
        has_room(leave(enter_many(AdmissionView { active: 0, max }, max))),
        enter(leave(enter_many(AdmissionView { active: 0, max }, max))).active == max,
{
    lemma_lets_in_up_to_max(max, max);
}

/// The number of connections never passes the bound, whatever arrives and
/// ends.
pub proof fn lemma_never_over_max(v: AdmissionView)
    requires
        v.active <= v.max,
    ensures
        enter(v).active <= enter(v).max,
        leave(v).active <= leave(v).max,
        enter(v).max == v.max,
        leave(v).max == v.max,
{
}

} // verus!
