//! The wrapper itself.
use vstd::prelude::*;
use crate::event::{bytes, events, told, DataWord, Step};

verus! {

/// The observer together with the record of what happened so far.
struct Tap<F> where F: Fn(DataWord) {
    f: F,
    log: Ghost<Seq<Step>>,
}

impl<F> Tap<F> where F: Fn(DataWord) {
    /// The observer accepts every event.
    #[verifier::type_invariant]
    spec fn accepts_all(self) -> bool {
        forall|w: DataWord| call_requires(self.f, (w,))
    }

    fn tell(&mut self, w: DataWord)
        ensures
            final(self).f == old(self).f,
            final(self).log@ == old(self).log@.push(Step::Told(w)),
            call_ensures(old(self).f, (w,), ()),
    {
        proof {
            use_type_invariant(&*self);
        }
        (self.f)(w);
        proof {
            self.log@ = self.log@.push(Step::Told(w));
        }
    }

    fn note_call(&mut self)
        ensures
            final(self).f == old(self).f,
            final(self).log@ == old(self).log@.push(Step::Called),
    {
        proof {
            use_type_invariant(&*self);
            self.log@ = self.log@.push(Step::Called);
        }
    }
}

/// A driver wrapped together with an observer.
///
/// The wrapper owns both. Its state is the driver, the observer, and the history of what it
/// has done since it was made.
pub struct Spy<T, F> where F: Fn(DataWord) {
    s: T,
    tap: Tap<F>,
}

/// Wraps the driver `s`, with `f` as the observer of everything that crosses the interface.
///
/// Nothing is told to the observer and the driver is not touched.
pub fn new<T, F>(s: T, f: F) -> (spy: Spy<T, F>) where F: Fn(DataWord)
    requires
        forall|w: DataWord| call_requires(f, (w,)),
    ensures
        spy.inner() == s,
        spy.observer() == f,
        spy.history() == Seq::<Step>::empty(),
{
    Spy { s, tap: Tap { f, log: Ghost(Seq::empty()) } }
}

/// The observer `f` was called with every event that `steps` tells, and came back.
pub open spec fn heard<F: Fn(DataWord)>(f: F, steps: Seq<Step>) -> bool {
    forall|i: int|
        0 <= i < steps.len() ==> (#[trigger] steps[i] matches Step::Told(w) ==> call_ensures(
            f,
            (w,),
            (),
        ))
}

/// An observer that heard two runs of steps heard the two run together.
pub proof fn lemma_heard_concat<F: Fn(DataWord)>(f: F, a: Seq<Step>, b: Seq<Step>)
    requires
        heard(f, a),
        heard(f, b),
    ensures
        heard(f, a + b),
{
    assert forall|i: int| 0 <= i < (a + b).len() implies (#[trigger] (a + b)[i] matches Step::Told(
        w,
    ) ==> call_ensures(f, (w,), ())) by {
        if i < a.len() {
            assert((a + b)[i] == a[i]);
        } else {
            assert((a + b)[i] == b[i - a.len()]);
        }
    }
}

impl<T, F> Spy<T, F> where F: Fn(DataWord) {
    /// The wrapped driver.
    pub closed spec fn inner(self) -> T {
        self.s
    }

    /// The observer.
    pub closed spec fn observer(self) -> F {
        self.tap.f
    }

    /// Everything the wrapper has done since it was made, oldest first.
    pub closed spec fn history(self) -> Seq<Step> {
        self.tap.log@
    }

    /// The events the observer has been told since the wrapper was made, oldest first.
    pub open spec fn observed(self) -> Seq<DataWord> {
        events(self.history())
    }

    /// `self` is `pre` after the steps `steps`: it has the same observer, its history is
    /// that of `pre` followed by `steps`, and the observer was called with every event that
    /// `steps` tells.
    pub open spec fn extends(self, pre: Self, steps: Seq<Step>) -> bool {
        &&& self.observer() == pre.observer()
        &&& self.history() == pre.history() + steps
        &&& heard(pre.observer(), steps)
    }

    /// Tells the observer one event.
    pub(crate) fn tell(&mut self, w: DataWord)
        ensures
            final(self).inner() == old(self).inner(),
            final(self).observer() == old(self).observer(),
            final(self).history() == old(self).history().push(Step::Told(w)),
            call_ensures(old(self).observer(), (w,), ()),
    {
        self.tap.tell(w);
    }

    /// Tells the observer one `Byte` event for each of `words`, in order.
    pub(crate) fn tell_bytes(&mut self, words: &[u8])
        ensures
            final(self).inner() == old(self).inner(),
            final(self).observer() == old(self).observer(),
            final(self).history() == old(self).history() + told(bytes(words@)),
            heard(old(self).observer(), told(bytes(words@))),
    {
        let n: usize = words.len();
        let mut i: usize = 0;
        while i < n
            invariant
                i <= n,
                n == words@.len(),
                self.inner() == old(self).inner(),
                self.observer() == old(self).observer(),
                self.history() == old(self).history() + told(bytes(words@.take(i as int))),
                heard(old(self).observer(), told(bytes(words@.take(i as int)))),
            decreases n - i,
        {
            self.tell(DataWord::Byte(words[i]));
            i = i + 1;
            assert(told(bytes(words@.take(i as int))) =~= told(bytes(words@.take(i - 1))).push(
                Step::Told(DataWord::Byte(words@[i - 1])),
            ));
        }
        assert(words@.take(n as int) =~= words@);
    }

    /// Hands out the driver for one call, and records that call.
    pub(crate) fn driver(&mut self) -> (d: &mut T)
        ensures
            *d == old(self).inner(),
            final(self).inner() == *final(d),
            final(self).observer() == old(self).observer(),
            final(self).history() == old(self).history().push(Step::Called),
    {
        self.tap.note_call();
        &mut self.s
    }
}

} // verus!
