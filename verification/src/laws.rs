//! What holds of every wrapper, whatever driver it wraps and whatever that driver does.
use vstd::prelude::*;
use crate::digital::{is_high_steps, is_low_steps, set_steps, toggle_steps};
use crate::event::{
    bytes, events, lemma_events_called, lemma_events_concat, lemma_events_told, told, DataWord,
    Step,
};
use crate::spi::{read_steps, send_steps, transfer_steps, write_steps};
use crate::spy::Spy;

verus! {

/// A wrapper that went through `steps` has told its observer the events of `steps`, after
/// those it had told before.
pub proof fn law_observed_extends<T, F: Fn(DataWord)>(
    pre: Spy<T, F>,
    post: Spy<T, F>,
    steps: Seq<Step>,
)
    requires
        post.extends(pre, steps),
    ensures
        post.observed() == pre.observed() + events(steps),
{
    lemma_events_concat(pre.history(), steps);
}

/// A call into the driver tells the observer nothing by itself. Such are the steps of a read
/// or of a pin query that failed: the observer does not learn of it.
pub proof fn law_call_alone_tells_nothing<T, F: Fn(DataWord)>(pre: Spy<T, F>, post: Spy<T, F>)
    requires
        post.extends(pre, seq![Step::Called]),
    ensures
        post.observed() == pre.observed(),
{
    law_observed_extends(pre, post, seq![Step::Called]);
    lemma_events_called();
    assert(pre.observed() + Seq::<DataWord>::empty() =~= pre.observed());
}

/// A read that is answered with the word `w` tells the observer exactly one event, `Byte(w)`,
/// after the driver was called.
pub proof fn law_read_told_after_call<T, F: Fn(DataWord), E>(
    pre: Spy<T, F>,
    post: Spy<T, F>,
    w: u8,
)
    requires
        post.extends(pre, read_steps(Ok::<u8, E>(w))),
    ensures
        post.observed() == pre.observed().push(DataWord::Byte(w)),
        post.history().last() == Step::Told(DataWord::Byte(w)),
{
    law_observed_extends(pre, post, read_steps(Ok::<u8, E>(w)));
    lemma_events_two(Step::Called, Step::Told(DataWord::Byte(w)));
}

/// Sending words one after the other tells the observer exactly one `Byte` event for each
/// send, in the order of the calls, each with the word that was sent. This holds whether the
/// driver takes the words or not.
///
/// `states[i]` is the wrapper before the send of `words[i]`, and `states[i + 1]` the wrapper
/// after it.
pub proof fn law_sends_told_in_order<T, F: Fn(DataWord)>(
    states: Seq<Spy<T, F>>,
    words: Seq<u8>,
)
    requires
        states.len() == words.len() + 1,
        forall|i: int|
            0 <= i < words.len() ==> (#[trigger] states[i + 1]).extends(
                states[i],
                send_steps(words[i]),
            ),
    ensures
        states.last().observed() == states.first().observed() + bytes(words),
    decreases words.len(),
{
    if words.len() == 0 {
        assert(states.first().observed() + bytes(words) =~= states.first().observed());
    } else {
        let n = words.len() - 1;
        law_sends_told_in_order(states.drop_last(), words.drop_last());
        assert(states[n + 1].extends(states[n], send_steps(words[n])));
        law_observed_extends(states[n], states[n + 1], send_steps(words[n]));
        lemma_events_told(seq![DataWord::Byte(words[n])]);
        lemma_events_called();
        lemma_events_concat(told(seq![DataWord::Byte(words[n])]), seq![Step::Called]);
        assert(send_steps(words[n]) =~= told(seq![DataWord::Byte(words[n])]) + seq![
            Step::Called,
        ]);
        assert(states.drop_last().last() == states[n]);
        assert(states.drop_last().first() == states.first());
        assert(states.first().observed() + bytes(words.drop_last()) + seq![
            DataWord::Byte(words[n]),
        ] =~= states.first().observed() + bytes(words));
    }
}

/// A write of `words` tells the observer one `Byte` event for each word, in order, and no
/// other event; all of them are told before the driver is called. This holds whether the
/// driver's write succeeds or not.
pub proof fn law_write_tells_words_then_calls<T, F: Fn(DataWord)>(
    pre: Spy<T, F>,
    words: Seq<u8>,
    post: Spy<T, F>,
)
    requires
        post.extends(pre, write_steps(words)),
    ensures
        post.observed() == pre.observed() + bytes(words),
        post.observed().len() == pre.observed().len() + words.len(),
        post.history().last() == Step::Called,
        post.history().drop_last() == pre.history() + told(bytes(words)),
{
    law_observed_extends(pre, post, write_steps(words));
    lemma_events_told(bytes(words));
    lemma_events_called();
    lemma_events_concat(told(bytes(words)), seq![Step::Called]);
    assert(write_steps(words) =~= told(bytes(words)) + seq![Step::Called]);
    assert(bytes(words) + Seq::<DataWord>::empty() =~= bytes(words));
    assert(post.history().drop_last() =~= pre.history() + told(bytes(words)));
}

/// The events of a transfer up to the call into the driver: the transaction is opened, the
/// outbound words follow, and the response is announced.
pub open spec fn transfer_opening(out: Seq<u8>) -> Seq<DataWord> {
    seq![DataWord::First] + bytes(out) + seq![DataWord::Response]
}

/// A transfer that succeeds tells the observer: one `First`; one `Byte` for each outbound
/// word, in order; one `Response`; one `Byte` for each inbound word, in order; one `Last`.
/// That is three events more than there are outbound and inbound words together, and the
/// driver is called between `Response` and the first inbound word.
pub proof fn law_transfer_framed<T, F: Fn(DataWord), E>(
    pre: Spy<T, F>,
    out: Seq<u8>,
    post: Spy<T, F>,
    inbound: Seq<u8>,
)
    requires
        post.extends(pre, transfer_steps(out, Ok::<Seq<u8>, E>(inbound))),
    ensures
        post.observed() == pre.observed() + transfer_opening(out) + bytes(inbound) + seq![
            DataWord::Last,
        ],
        post.observed().len() == pre.observed().len() + out.len() + inbound.len() + 3,
        post.history() == pre.history() + told(transfer_opening(out)) + seq![Step::Called]
            + told(bytes(inbound) + seq![DataWord::Last]),
{
    let r = Ok::<Seq<u8>, E>(inbound);
    let opening = told(transfer_opening(out));
    let closing = told(bytes(inbound) + seq![DataWord::Last]);
    law_observed_extends(pre, post, transfer_steps(out, r));
    assert(transfer_steps(out, r) =~= opening + seq![Step::Called] + closing);
    lemma_events_concat(opening + seq![Step::Called], closing);
    lemma_events_concat(opening, seq![Step::Called]);
    lemma_events_called();
    lemma_events_told(transfer_opening(out));
    lemma_events_told(bytes(inbound) + seq![DataWord::Last]);
    assert(pre.observed() + (transfer_opening(out) + Seq::<DataWord>::empty() + (bytes(inbound)
        + seq![DataWord::Last])) =~= pre.observed() + transfer_opening(out) + bytes(inbound)
        + seq![DataWord::Last]);
    assert(post.history() =~= pre.history() + opening + seq![Step::Called] + closing);
}

/// A transfer that fails tells the observer one `First`, one `Byte` for each outbound word, in
/// order, and one `Response`, and nothing after the call into the driver: no `Last` is told
/// for that transfer.
pub proof fn law_failed_transfer_stays_open<T, F: Fn(DataWord), E>(
    pre: Spy<T, F>,
    out: Seq<u8>,
    post: Spy<T, F>,
    e: E,
)
    requires
        post.extends(pre, transfer_steps(out, Err::<Seq<u8>, E>(e))),
    ensures
        post.observed() == pre.observed() + transfer_opening(out),
        forall|i: int|
            pre.observed().len() <= i < post.observed().len() ==> post.observed()[i]
                != DataWord::Last,
        post.history().last() == Step::Called,
{
    let r = Err::<Seq<u8>, E>(e);
    law_observed_extends(pre, post, transfer_steps(out, r));
    assert(transfer_steps(out, r) =~= told(transfer_opening(out)) + seq![Step::Called]);
    lemma_events_concat(told(transfer_opening(out)), seq![Step::Called]);
    lemma_events_called();
    lemma_events_told(transfer_opening(out));
    assert(pre.observed() + (transfer_opening(out) + Seq::<DataWord>::empty()) =~= pre.observed()
        + transfer_opening(out));
}

/// A query "is it high?" that is answered tells the observer exactly one `Byte` event:
/// `Byte(1)` for `true` and `Byte(0)` for `false`. This holds of input pins and of stateful
/// output pins, in both forms of the pin capabilities.
pub proof fn law_is_high_told_as_level<T, F: Fn(DataWord)>(
    pre: Spy<T, F>,
    post: Spy<T, F>,
    state: bool,
)
    requires
        post.extends(pre, is_high_steps(state)),
    ensures
        post.observed() == pre.observed().push(
            DataWord::Byte(
                if state {
                    1
                } else {
                    0
                },
            ),
        ),
{
    law_observed_extends(pre, post, is_high_steps(state));
    lemma_events_two(Step::Called, is_high_steps(state)[1]);
}

/// A query "is it low?" that is answered tells the observer exactly one `Byte` event, and it
/// is the inverse of the answer: `Byte(1)` for `false` and `Byte(0)` for `true`. This holds of
/// input pins and of stateful output pins, in both forms of the pin capabilities.
pub proof fn law_is_low_told_inverted<T, F: Fn(DataWord)>(
    pre: Spy<T, F>,
    post: Spy<T, F>,
    state: bool,
)
    requires
        post.extends(pre, is_low_steps(state)),
    ensures
        post.observed() == pre.observed().push(
            DataWord::Byte(
                if state {
                    0
                } else {
                    1
                },
            ),
        ),
{
    law_observed_extends(pre, post, is_low_steps(state));
    lemma_events_two(Step::Called, is_low_steps(state)[1]);
}

/// Driving a pin tells the observer exactly one `Byte` event, `Byte(1)` for high and `Byte(0)`
/// for low, before the driver is called and whether or not the driver fails.
pub proof fn law_set_told_before_call<T, F: Fn(DataWord)>(
    pre: Spy<T, F>,
    post: Spy<T, F>,
    high: bool,
)
    requires
        post.extends(pre, set_steps(high)),
    ensures
        post.observed() == pre.observed().push(
            DataWord::Byte(
                if high {
                    1
                } else {
                    0
                },
            ),
        ),
        post.history().last() == Step::Called,
{
    law_observed_extends(pre, post, set_steps(high));
    lemma_events_two(set_steps(high)[0], Step::Called);
}

/// A toggle tells the observer exactly one `Toggle` event and no `Byte` event, whether or not
/// the driver fails, in both forms of the pin capabilities.
pub proof fn law_toggle_tells_one_toggle<T, F: Fn(DataWord)>(pre: Spy<T, F>, post: Spy<T, F>)
    requires
        post.extends(pre, toggle_steps()),
    ensures
        post.observed() == pre.observed().push(DataWord::Toggle),
        forall|i: int|
            pre.observed().len() <= i < post.observed().len() ==> !(post.observed()[i]
                is Byte),
{
    law_observed_extends(pre, post, toggle_steps());
    lemma_events_two(Step::Told(DataWord::Toggle), Step::Called);
}

/// The events of a history of two steps.
proof fn lemma_events_two(a: Step, b: Step)
    ensures
        events(seq![a, b]) == events(seq![a]) + events(seq![b]),
        events(seq![Step::Called]) == Seq::<DataWord>::empty(),
        forall|w: DataWord| #[trigger] events(seq![Step::Told(w)]) == seq![w],
{
    lemma_events_concat(seq![a], seq![b]);
    assert(seq![a] + seq![b] =~= seq![a, b]);
    lemma_events_called();
    assert forall|w: DataWord| #[trigger] events(seq![Step::Told(w)]) == seq![w] by {
        lemma_events_told(seq![w]);
        assert(told(seq![w]) =~= seq![Step::Told(w)]);
    }
}

} // verus!
