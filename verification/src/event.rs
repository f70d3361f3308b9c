//! The events an observer is told, and the histories they are recorded in.
use vstd::prelude::*;

verus! {

/// One unit of information handed to the observer.
#[derive(Clone, Copy, Debug, PartialEq, Eq)]
pub enum DataWord {
    /// Empty marker, carries no meaning. No operation of the wrapper tells it.
    Empty,
    /// One word sent or received.
    Byte(u8),
    /// Told once before the first byte of a framed transaction.
    First,
    /// Told once after the last byte of a framed transaction.
    Last,
    /// Told between the outbound and the inbound bytes of a framed transaction.
    Response,
    /// Reserved for a failed call. No operation of the wrapper tells it.
    Failed,
    /// An output was flipped; the level it went to is not known.
    Toggle,
}

/// One step in the life of a wrapper.
pub enum Step {
    /// The observer was told this event.
    Told(DataWord),
    /// The wrapped driver was called.
    Called,
}

/// The byte by which a pin level is told: 1 for `true`, 0 for `false`.
pub open spec fn level(high: bool) -> u8 {
    if high {
        1u8
    } else {
        0u8
    }
}

/// One `Byte` event for each word, in order.
pub open spec fn bytes(words: Seq<u8>) -> Seq<DataWord> {
    Seq::new(words.len(), |i: int| DataWord::Byte(words[i]))
}

/// The steps in which the observer is told `events`, one after the other.
pub open spec fn told(events: Seq<DataWord>) -> Seq<Step> {
    Seq::new(events.len(), |i: int| Step::Told(events[i]))
}

/// The events that the observer was told in the course of `steps`, in order.
pub open spec fn events(steps: Seq<Step>) -> Seq<DataWord>
    decreases steps.len(),
{
    if steps.len() == 0 {
        Seq::empty()
    } else {
        match steps.last() {
            Step::Told(w) => events(steps.drop_last()).push(w),
            Step::Called => events(steps.drop_last()),
        }
    }
}

/// The events of two histories run one after the other are the events of the first followed
/// by the events of the second.
pub proof fn lemma_events_concat(a: Seq<Step>, b: Seq<Step>)
    ensures
        events(a + b) == events(a) + events(b),
    decreases b.len(),
{
    if b.len() == 0 {
        assert(a + b =~= a);
        assert(events(a) + events(b) =~= events(a));
    } else {
        assert((a + b).drop_last() =~= a + b.drop_last());
        assert((a + b).last() == b.last());
        lemma_events_concat(a, b.drop_last());
        match b.last() {
            Step::Told(w) => {
                assert((events(a) + events(b.drop_last())).push(w) =~= events(a) + events(
                    b.drop_last(),
                ).push(w));
            },
            Step::Called => {},
        }
    }
}

/// Telling a sequence of events leaves exactly those events in the history.
pub proof fn lemma_events_told(ev: Seq<DataWord>)
    ensures
        events(told(ev)) == ev,
    decreases ev.len(),
{
    if ev.len() == 0 {
        assert(events(told(ev)) =~= ev);
    } else {
        assert(told(ev).drop_last() =~= told(ev.drop_last()));
        lemma_events_told(ev.drop_last());
        assert(ev.drop_last().push(ev.last()) =~= ev);
    }
}

/// A call into the driver tells the observer nothing.
pub proof fn lemma_events_called()
    ensures
        events(seq![Step::Called]) == Seq::<DataWord>::empty(),
{
    assert(seq![Step::Called].drop_last() =~= Seq::<Step>::empty());
    assert(events(seq![Step::Called].drop_last()) =~= Seq::<DataWord>::empty());
}

} // verus!
