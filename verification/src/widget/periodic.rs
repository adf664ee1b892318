//! A widget that recomputes its value at a fixed interval.

use crate::format::Format;
use crate::widget::base::{Refresh, Snapshot};
use crossbeam_channel::Sender;
use std::sync::Arc;
use std::time::Duration;
use vstd::prelude::*;

verus! {

/// A value that `updater` computes anew every `interval`. The widget shows
/// the value of the latest computation.
pub struct Periodic<F: Fn() -> Format> {
    interval: Duration,
    updater: Arc<F>,
    last_value: Snapshot,
}

impl<F: Fn() -> Format> Periodic<F> {
    /// The updater may be called, and the cell holds its results only.
    #[verifier::type_invariant]
    spec fn inv(&self) -> bool {
        &&& call_requires(*self.updater, ())
        &&& forall|value: Format|
            self.last_value.admits(value) == call_ensures(*self.updater, (), value)
    }

    /// The time between two computations.
    pub closed spec fn interval(&self) -> Duration {
        self.interval
    }

    /// The function that computes the value.
    pub closed spec fn updater(&self) -> F {
        *self.updater
    }

    /// The cell that holds the value.
    pub closed spec fn cell(&self) -> Snapshot {
        self.last_value
    }

    /// Whether the widget may show `value`: it is a result of the updater.
    pub open spec fn displays(&self, value: Format) -> bool {
        call_ensures(self.updater(), (), value)
    }

    /// A widget for `updater`, which is called once to have a first value.
    pub fn new(interval: Duration, updater: F) -> (widget: Box<Periodic<F>>)
        requires
            call_requires(updater, ()),
        ensures
            widget.interval() == interval,
            widget.updater() == updater,
    {
        let value = updater();
        let last_value = Snapshot::restricted(
            value,
            Ghost(|v: Format| call_ensures(updater, (), v)),
        );
        Box::new(Periodic { interval, updater: Arc::new(updater), last_value })
    }

    /// The time between two computations.
    pub fn period(&self) -> (interval: Duration)
        ensures
            interval == self.interval(),
    {
        self.interval
    }

    /// The value of the latest computation.
    pub fn current_value(&self) -> (value: Format)
        ensures
            self.displays(value),
    {
        proof {
            use_type_invariant(self);
        }
        self.last_value.load()
    }

    /// What the watcher does when the interval has passed: computes the value
    /// anew, replaces the value shown, and sends one token on `tx`.
    pub fn refresh(&self, tx: &Sender<()>) -> (outcome: Refresh)
        ensures
            outcome != Refresh::Skipped,
    {
        proof {
            use_type_invariant(self);
        }
        let value = (*self.updater)();
        self.last_value.publish(Some(value), tx)
    }

    /// Another handle to the same widget, for its watcher.
    pub fn share(&self) -> (other: Self)
        ensures
            other == *self,
    {
        proof {
            use_type_invariant(self);
        }
        Periodic {
            interval: self.interval,
            updater: self.updater.clone(),
            last_value: self.last_value.share(),
        }
    }
}

} // verus!
