//! Bounded fan-out: which task may start next, and what the run has
//! come to so far.
//!
//! The caller owns the tasks. It asks the dispatcher for the next one to
//! start, runs it beside the others, and reports each one that ends.

use vstd::prelude::*;
use crate::summary::{Outcome, Summary, nothing};

verus! {

/// How many tasks may be in flight at once.
pub const MAX_IN_FLIGHT: usize = 32;

/// The type of a fetched archive: `bytes::Bytes`, a shared sequence of
/// bytes.
#[verifier::external_type_specification]
#[verifier::external_body]
pub struct ExBytes(bytes::Bytes);

/// The bytes that a fetched archive holds.
pub uninterp spec fn payload(data: bytes::Bytes) -> Seq<u8>;

/// `bytes::Bytes::len`: the number of bytes that the value holds.
pub assume_specification[ bytes::Bytes::len ](data: &bytes::Bytes) -> (n: usize)
    ensures
        n == payload(*data).len(),
;

/// A task counts as good when its archive was fetched and what was to be
/// written from it is in place; the bytes counted are those of the
/// archive. A task whose fetch failed, or whose archive was refused or
/// could not be restored, counts as bad.
pub open spec fn outcome_of(fetched: Option<&bytes::Bytes>, materialized: bool) -> Outcome {
    match fetched {
        Some(data) if materialized => Outcome::Good { bytes: payload(*data).len() as usize },
        _ => Outcome::Bad,
    }
}

/// The outcome that is counted for one package's task. `fetched` is the
/// package's archive, where the fetch succeeded; `materialized` says
/// whether the package then passed: for a registry package, that its
/// checksum held; for a repository, that every step of its restoration
/// succeeded.
pub fn task_outcome(fetched: Option<&bytes::Bytes>, materialized: bool) -> (o: Outcome)
    ensures
        o == outcome_of(fetched, materialized),
{
    match fetched {
        Some(data) => {
            if materialized {
                Outcome::Good { bytes: data.len() }
            } else {
                Outcome::Bad
            }
        },
        None => Outcome::Bad,
    }
}

/// The state of one fan-out over `total` tasks, numbered from 0.
#[derive(Debug, Clone, Copy)]
pub struct Dispatcher {
    /// Number of tasks in all.
    pub total: usize,
    /// Number of tasks started so far; the next to start has this number.
    pub started: usize,
    /// Number of tasks started and not yet ended.
    pub in_flight: usize,
    /// What the ended tasks have come to.
    pub summary: Summary,
}

impl Dispatcher {
    /// The bound on tasks in flight holds, every started task is in
    /// flight or counted, and the counters can take every task.
    pub open spec fn wf(&self) -> bool {
        &&& self.started <= self.total
        &&& self.total <= u32::MAX
        &&& self.in_flight <= MAX_IN_FLIGHT
        &&& self.summary.good + self.summary.bad + self.in_flight == self.started
    }

    /// All tasks have started and ended.
    pub open spec fn done(&self) -> bool {
        self.started == self.total && self.in_flight == 0
    }

    /// A fan-out over `total` tasks, none started. There is none for more
    /// tasks than the counters can count.
    pub fn new(total: usize) -> (d: Option<Dispatcher>)
        ensures
            d is Some == (total <= u32::MAX),
            d is Some ==> {
                &&& d->0.wf()
                &&& d->0.total == total
                &&& d->0.started == 0
                &&& d->0.in_flight == 0
                &&& d->0.summary@ == nothing()
            },
    {
        if total <= 0xffff_ffff {
            Some(Dispatcher { total, started: 0, in_flight: 0, summary: Summary::zero() })
        } else {
            None
        }
    }

    /// The number of the task to start now, if one may start: there is
    /// one left, and fewer than the bound are in flight.
    pub fn start_next(&mut self) -> (next: Option<usize>)
        requires
            old(self).wf(),
        ensures
            final(self).wf(),
            final(self).total == old(self).total,
            final(self).summary == old(self).summary,
            next is Some == (old(self).started < old(self).total && old(self).in_flight
                < MAX_IN_FLIGHT),
            next is Some ==> next->0 == old(self).started && final(self).started == old(
                self,
            ).started + 1 && final(self).in_flight == old(self).in_flight + 1,
            next is None ==> *final(self) == *old(self),
    {
        if self.started < self.total && self.in_flight < MAX_IN_FLIGHT {
            let n: usize = self.started;
            self.started = self.started + 1;
            self.in_flight = self.in_flight + 1;
            Some(n)
        } else {
            None
        }
    }

    /// Counts a task that ended. It gives back whether the outcome was
    /// counted: it is not where no task is in flight, or where the bytes
    /// would leave the counter's range; then nothing changes.
    pub fn complete(&mut self, o: Outcome) -> (counted: bool)
        requires
            old(self).wf(),
        ensures
            final(self).wf(),
            counted == (old(self).in_flight > 0 && old(self).summary@.plus(o).fits()),
            counted ==> {
                &&& final(self).summary@ == old(self).summary@.plus(o)
                &&& final(self).in_flight == old(self).in_flight - 1
                &&& final(self).started == old(self).started
                &&& final(self).total == old(self).total
            },
            !counted ==> *final(self) == *old(self),
    {
        if self.in_flight > 0 && self.summary.has_room(o) {
            self.summary.record(o);
            self.in_flight = self.in_flight - 1;
            true
        } else {
            false
        }
    }

    /// Whether every task has started and ended.
    pub fn is_done(&self) -> (r: bool)
        ensures
            r == self.done(),
    {
        self.started == self.total && self.in_flight == 0
    }
}

/// At no time are more tasks in flight than the bound allows.
pub proof fn lemma_in_flight_bounded(d: Dispatcher)
    requires
        d.wf(),
    ensures
        d.in_flight <= 32,
{
}

/// A fan-out that is not done can go on: a task may start, or one is in
/// flight and will end.
pub proof fn lemma_can_go_on(d: Dispatcher)
    requires
        d.wf(),
        !d.done(),
    ensures
        (d.started < d.total && d.in_flight < MAX_IN_FLIGHT) || d.in_flight > 0,
{
}

/// When a fan-out is done, every task has been counted once, as good or
/// as bad.
pub proof fn lemma_done_counts_all(d: Dispatcher)
    requires
        d.wf(),
        d.done(),
    ensures
        d.summary.good + d.summary.bad == d.total,
{
}

/// A fan-out over no tasks starts nothing and is done, with every
/// counter at zero.
pub proof fn lemma_nothing_to_do(d: Dispatcher)
    requires
        d.wf(),
        d.total == 0,
    ensures
        d.done(),
        d.summary.good == 0,
        d.summary.bad == 0,
{
}

} // verus!
