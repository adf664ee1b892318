//! The table of named callbacks that control input is dispatched to.

use vstd::prelude::*;

verus! {

/// One registered callback under its name.
struct Slot<C: FnMut()> {
    name: String,
    func: C,
    calls: Ghost<nat>,
}

/// Callbacks by name. A name is registered at most once: registering it again
/// replaces the callback it stood for.
pub struct Registry<C: FnMut()> {
    slots: Vec<Slot<C>>,
}

impl<C: FnMut()> Registry<C> {
    /// No name is registered twice, and every callback may be called.
    pub closed spec fn wf(&self) -> bool {
        &&& forall|i: int, j: int|
            0 <= i < j < self.slots@.len() ==> self.slots@[i].name@ != self.slots@[j].name@
        &&& forall|i: int|
            0 <= i < self.slots@.len() ==> call_requires((#[trigger] self.slots@[i]).func, ())
    }

    spec fn holds_at(&self, name: Seq<char>, i: int) -> bool {
        0 <= i < self.slots@.len() && self.slots@[i].name@ == name
    }

    spec fn named(&self, name: Seq<char>) -> bool {
        exists|i: int| self.holds_at(name, i)
    }

    spec fn position(&self, name: Seq<char>) -> int {
        choose|i: int| self.holds_at(name, i)
    }

    /// The registered callbacks, each under its name.
    pub closed spec fn entries(&self) -> Map<Seq<char>, C> {
        Map::new(
            |name: Seq<char>| self.named(name),
            |name: Seq<char>| self.slots@[self.position(name)].func,
        )
    }

    /// How often the callback under each name has been invoked since it was
    /// registered.
    pub closed spec fn invocations(&self) -> Map<Seq<char>, nat> {
        Map::new(
            |name: Seq<char>| self.named(name),
            |name: Seq<char>| self.slots@[self.position(name)].calls@,
        )
    }

    /// Whether a callback is registered under `name`.
    pub open spec fn contains(&self, name: Seq<char>) -> bool {
        self.entries().contains_key(name)
    }

    /// `next` is this registry after the callback under `name` ran exactly
    /// once and no other callback ran; with no callback under `name`, `next`
    /// is this registry unchanged.
    pub open spec fn dispatches(&self, name: Seq<char>, next: &Registry<C>) -> bool {
        &&& next.entries() == self.entries()
        &&& next.invocations() == if self.contains(name) {
            self.invocations().insert(name, self.invocations()[name] + 1)
        } else {
            self.invocations()
        }
    }

    /// `next` is this registry after at most one callback ran, and that one
    /// once.
    pub open spec fn steps_to(&self, next: &Registry<C>) -> bool {
        ||| next.entries() == self.entries() && next.invocations() == self.invocations()
        ||| exists|name: Seq<char>| self.contains(name) && #[trigger] self.dispatches(name, next)
    }

    /// A registry without callbacks.
    pub fn new() -> (fns: Self)
        ensures
            fns.wf(),
            fns.entries() == Map::<Seq<char>, C>::empty(),
            fns.invocations() == Map::<Seq<char>, nat>::empty(),
    {
        let fns = Registry { slots: Vec::new() };
        assert(fns.entries() =~= Map::empty());
        assert(fns.invocations() =~= Map::empty());
        fns
    }

    /// Where `name` is registered, if it is.
    fn find(&self, name: &String) -> (at: Option<usize>)
        ensures
            match at {
                Some(i) => self.holds_at(name@, i as int),
                None => !self.contains(name@),
            },
    {
        let mut i: usize = 0;
        while i < self.slots.len()
            invariant
                i <= self.slots@.len(),
                forall|k: int| 0 <= k < i ==> self.slots@[k].name@ != name@,
            decreases self.slots@.len() - i,
        {
            if self.slots[i].name == *name {
                return Some(i);
            }
            i = i + 1;
        }
        None
    }

    /// Whether a callback is registered under `name`.
    pub fn has(&self, name: &str) -> (found: bool)
        ensures
            found == self.contains(name@),
    {
        let key = name.to_owned();
        let at = self.find(&key);
        proof {
            if let Some(i) = at {
                assert(self.holds_at(name@, i as int));
            }
        }
        at.is_some()
    }

    /// Registers `func` under `name`, not yet invoked. A callback that was
    /// registered under that name is dropped; the others stay.
    pub fn register(&mut self, name: &str, func: C)
        requires
            old(self).wf(),
            call_requires(func, ()),
        ensures
            final(self).wf(),
            final(self).entries() == old(self).entries().insert(name@, func),
            final(self).invocations() == old(self).invocations().insert(name@, 0),
    {
        let key = name.to_owned();
        let slot = Slot { name: key, func, calls: Ghost(0) };
        match self.find(&slot.name) {
            Some(i) => {
                self.slots.set(i, slot);
                proof {
                    old(self).lemma_after_put(self, i as int);
                }
            },
            None => {
                self.slots.push(slot);
                proof {
                    old(self).lemma_after_put(self, old(self).slots@.len() as int);
                }
            },
        }
    }

    /// Runs the callback registered under `name` once, and no other. With no
    /// callback under that name nothing happens and the answer is `false`.
    pub fn invoke(&mut self, name: &str) -> (found: bool)
        requires
            old(self).wf(),
        ensures
            final(self).wf(),
            found == old(self).contains(name@),
            old(self).dispatches(name@, final(self)),
    {
        let key = name.to_owned();
        match self.find(&key) {
            Some(i) => {
                assert(self.holds_at(name@, i as int));
                let slot = &mut self.slots[i];
                (slot.func)();
                slot.calls = Ghost(slot.calls@ + 1);
                proof {
                    old(self).lemma_after_call(self, i as int);
                }
                true
            },
            None => false,
        }
    }

    /// Dispatching a line of control input by name is exact: a registered
    /// name has its callback run once, every other callback is left alone,
    /// and the names stay. An unregistered name changes nothing.
    pub proof fn lemma_dispatch_is_exact(&self, name: Seq<char>, next: &Registry<C>)
        requires
            self.dispatches(name, next),
        ensures
            forall|other: Seq<char>| next.contains(other) == self.contains(other),
            forall|other: Seq<char>|
                self.contains(other) ==> next.entries()[other] == self.entries()[other],
            self.contains(name) ==> next.invocations()[name] == self.invocations()[name] + 1,
            forall|other: Seq<char>|
                self.contains(other) && other != name ==> next.invocations()[other]
                    == self.invocations()[other],
            !self.contains(name) ==> next.invocations() == self.invocations(),
    {
    }

    /// Invocations are counted for the registered names, and for no others.
    pub proof fn lemma_counted_names(&self)
        ensures
            self.invocations().dom() == self.entries().dom(),
    {
        assert(self.invocations().dom() =~= self.entries().dom());
    }

    /// What the registry holds after the slot at `i` was written, in place or
    /// as a new last slot.
    proof fn lemma_after_put(&self, next: &Registry<C>, i: int)
        requires
            self.wf(),
            0 <= i <= self.slots@.len(),
            i < self.slots@.len() ==> next.slots@ == self.slots@.update(i, next.slots@[i]),
            i == self.slots@.len() ==> next.slots@ == self.slots@.push(next.slots@[i]),
            i < self.slots@.len() ==> self.slots@[i].name@ == next.slots@[i].name@,
            i == self.slots@.len() ==> !self.contains(next.slots@[i].name@),
            i < next.slots@.len(),
            call_requires(next.slots@[i].func, ()),
        ensures
            next.wf(),
            next.entries() == self.entries().insert(next.slots@[i].name@, next.slots@[i].func),
            next.invocations() == self.invocations().insert(
                next.slots@[i].name@,
                next.slots@[i].calls@,
            ),
    {
        let name = next.slots@[i].name@;
        assert forall|k: int| 0 <= k < self.slots@.len() && k != i implies self.slots@[k].name@
            != name by {
            if k < self.slots@.len() && self.slots@[k].name@ == name {
                assert(self.holds_at(name, k));
            }
        }
        assert(next.holds_at(name, i));
        assert forall|n: Seq<char>| n != name implies next.named(n) == self.named(n) by {
            if exists|k: int| next.holds_at(n, k) {
                let k = choose|k: int| next.holds_at(n, k);
                assert(self.holds_at(n, k));
            }
            if exists|k: int| self.holds_at(n, k) {
                let k = choose|k: int| self.holds_at(n, k);
                assert(next.holds_at(n, k));
            }
        }
        assert forall|n: Seq<char>| n != name && self.named(n) implies next.slots@[next.position(
            n,
        )] == self.slots@[self.position(n)] by {
            let k = self.position(n);
            assert(self.holds_at(n, k));
            assert(next.holds_at(n, k));
            assert(next.holds_at(n, next.position(n)));
        }
        assert(next.holds_at(name, next.position(name)));
        assert(next.entries() =~= self.entries().insert(name, next.slots@[i].func));
        assert(next.invocations() =~= self.invocations().insert(name, next.slots@[i].calls@));
    }

    /// What the registry holds after the callback in the slot at `i` ran once.
    proof fn lemma_after_call(&self, next: &Registry<C>, i: int)
        requires
            self.wf(),
            0 <= i < self.slots@.len(),
            next.slots@ == self.slots@.update(i, next.slots@[i]),
            next.slots@[i].name == self.slots@[i].name,
            next.slots@[i].func == self.slots@[i].func,
            next.slots@[i].calls@ == self.slots@[i].calls@ + 1,
        ensures
            next.wf(),
            self.dispatches(self.slots@[i].name@, next),
    {
        let name = self.slots@[i].name@;
        assert(self.holds_at(name, i));
        self.lemma_after_put(next, i);
        assert(self.holds_at(name, self.position(name)));
        assert(self.entries().insert(name, self.slots@[i].func) =~= self.entries());
    }
}

} // verus!
