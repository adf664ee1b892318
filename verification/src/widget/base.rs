//! The widget interface and the snapshot cell behind every widget.

use crate::format::Format;
use crossbeam_channel::Sender;
use std::sync::Arc;
use vstd::prelude::*;
use vstd::rwlock::RwLock;

verus! {

/// The sending half of a crossbeam channel. The notifier bus is such a
/// channel of unit tokens.
#[verifier::external_type_specification]
#[verifier::external_body]
#[verifier::reject_recursive_types(T)]
pub struct ExSender<T>(crossbeam_channel::Sender<T>);

/// Sends one token on the bus (`Sender::send`): `true` when the token was
/// queued, `false` when the receiving half is gone. Nothing is promised
/// about which of the two happens. On a channel without a bound, as the
/// bus is, the call does not wait.
#[verifier::external_body]
pub(crate) fn ring(tx: &Sender<()>) -> (delivered: bool) {
    tx.send(()).is_ok()
}

/// Another sending half of the same channel (`Sender::clone`).
#[verifier::external_body]
pub(crate) fn fork(tx: &Sender<()>) -> (other: Sender<()>) {
    tx.clone()
}

/// Something that shows a value in the bar and keeps it fresh on its own.
pub trait Widget {
    /// Whether `value` is a value this widget may show. An implementation
    /// that says nothing may show any value.
    open spec fn displays(&self, value: Format) -> bool {
        true
    }

    /// Whether this widget may signal changes: a watcher of it may be
    /// running. An implementation that says nothing may have one at any
    /// time.
    open spec fn signals(&self) -> bool {
        true
    }

    /// The latest value of the widget, without waiting for the resource it
    /// watches.
    fn current_value(&self) -> (value: Format)
        ensures
            self.displays(value),
    ;

    /// Starts the watcher of this widget, which from then on replaces the
    /// value when the watched resource changes and sends one token on `tx`
    /// for each change. Afterwards the widget signals changes; what it may
    /// show stays as it is.
    fn spawn_notifier(&mut self, tx: Sender<()>)
        ensures
            final(self).signals(),
            forall|value: Format| final(self).displays(value) == old(self).displays(value),
    ;
}

impl<W: Widget + ?Sized> Widget for Box<W> {
    open spec fn displays(&self, value: Format) -> bool {
        (**self).displays(value)
    }

    open spec fn signals(&self) -> bool {
        (**self).signals()
    }

    fn current_value(&self) -> (value: Format) {
        (**self).current_value()
    }

    fn spawn_notifier(&mut self, tx: Sender<()>) {
        (**self).spawn_notifier(tx)
    }
}

/// The outcome of one refresh of a widget's value.
#[derive(Clone, Copy, Debug, PartialEq, Eq, Structural)]
pub enum Refresh {
    /// No new value could be had: the cell was left alone and no token sent.
    Skipped,
    /// The value was replaced and the token queued.
    Signalled,
    /// The value was replaced, but nobody listens on the bus any more.
    Unheard,
}

impl Refresh {
    /// The outcome of a refresh that replaced the value, from what became of
    /// its token: `delivered` says whether the token was queued.
    pub fn after_send(delivered: bool) -> (outcome: Refresh)
        ensures
            outcome == if delivered {
                Refresh::Signalled
            } else {
                Refresh::Unheard
            },
    {
        if delivered {
            Refresh::Signalled
        } else {
            Refresh::Unheard
        }
    }
}

/// What a cell holds after a refresh that found `attempt`: the new value, or
/// with none the value it held.
pub open spec fn settled(prior: Format, attempt: Option<Format>) -> Format {
    match attempt {
        Some(value) => value,
        None => prior,
    }
}

/// The value to keep after a refresh, and whether it is new: a refresh that
/// failed keeps the value that was there.
pub fn settle(prior: Format, attempt: Option<Format>) -> (kept: (Format, bool))
    ensures
        kept.0 == settled(prior, attempt),
        kept.1 == attempt.is_some(),
{
    match attempt {
        Some(value) => (value, true),
        None => (prior, false),
    }
}

/// The latest value of a widget, shared by the widget's watcher, which
/// replaces it, and the bar, which reads it. A reader gets a whole value,
/// the one before a replacement or the one after.
pub struct Snapshot {
    cell: Arc<RwLock<Format, spec_fn(Format) -> bool>>,
}

impl Snapshot {
    /// Whether the cell may hold `value`.
    pub closed spec fn admits(&self, value: Format) -> bool {
        self.cell.inv(value)
    }

    /// A cell that holds `value` and admits every value.
    pub fn new(value: Format) -> (cell: Self)
        ensures
            forall|v: Format| cell.admits(v),
    {
        Snapshot::restricted(value, Ghost(|v: Format| true))
    }

    /// A cell that holds `value` and admits the values of `allowed` only.
    pub fn restricted(value: Format, Ghost(allowed): Ghost<spec_fn(Format) -> bool>) -> (cell:
        Self)
        requires
            allowed(value),
        ensures
            forall|v: Format| cell.admits(v) == allowed(v),
    {
        Snapshot { cell: Arc::new(RwLock::new(value, Ghost(allowed))) }
    }

    /// A copy of the value held.
    pub fn load(&self) -> (value: Format)
        ensures
            self.admits(value),
    {
        let guard = self.cell.acquire_read();
        let value = guard.borrow().clone();
        guard.release_read();
        value
    }

    /// Settles one refresh under the write lock: with a new value the cell
    /// holds it afterwards, without one it holds what it held. Says whether
    /// the value is new.
    pub fn update(&self, attempt: Option<Format>) -> (changed: bool)
        requires
            attempt matches Some(value) ==> self.admits(value),
        ensures
            changed == attempt.is_some(),
    {
        let (prior, guard) = self.cell.acquire_write();
        let (next, changed) = settle(prior, attempt);
        guard.release_write(next);
        changed
    }

    /// One refresh as a watcher makes it: settles the value, then sends a
    /// token if and only if the value is new.
    pub fn publish(&self, attempt: Option<Format>, tx: &Sender<()>) -> (outcome: Refresh)
        requires
            attempt matches Some(value) ==> self.admits(value),
        ensures
            outcome == Refresh::Skipped <==> attempt.is_none(),
    {
        if self.update(attempt) {
            Refresh::after_send(ring(tx))
        } else {
            Refresh::Skipped
        }
    }

    /// Another handle to the same cell.
    pub fn share(&self) -> (other: Self)
        ensures
            other == *self,
    {
        Snapshot { cell: self.cell.clone() }
    }
}

} // verus!
