//! SPI capabilities: exchange of single words, blocking transfer and blocking write.
//!
//! Every operation of a capability comes with a relation, named after it, that says which
//! outcomes a call may have. A driver that keeps the relation it is given promises nothing:
//! every outcome is possible. The wrapper's relation is that of the driver it wraps, together
//! with the steps that the wrapper took.
use vstd::prelude::*;
use crate::event::{bytes, told, DataWord, Step};
use crate::spy::{lemma_heard_concat, Spy};

verus! {

/// `nb::Error`, the error of a non-blocking operation: the operation would block, or it failed
/// with an error of the driver. It is declared as an opaque type, and nothing is claimed of it:
/// the wrapper hands such errors on and never looks inside them.
#[verifier::external_type_specification]
#[verifier::external_body]
#[verifier::reject_recursive_types(E)]
pub struct ExNbError<E>(nb::Error<E>);

/// Exchange of single words, full duplex.
pub trait FullDuplex: Sized {
    /// What the driver fails with.
    type Error;

    /// `post` and `r` are a possible outcome of `read()` on `pre`.
    open spec fn read_outcome(pre: Self, post: Self, r: Result<u8, nb::Error<Self::Error>>) -> bool {
        true
    }

    /// Reads the word that came in with the last word sent.
    fn read(&mut self) -> (r: Result<u8, nb::Error<Self::Error>>)
        ensures
            Self::read_outcome(*old(self), *final(self), r),
    ;

    /// `post` and `r` are a possible outcome of `send(w)` on `pre`.
    open spec fn send_outcome(
        pre: Self,
        w: u8,
        post: Self,
        r: Result<(), nb::Error<Self::Error>>,
    ) -> bool {
        true
    }

    /// Sends one word.
    fn send(&mut self, w: u8) -> (r: Result<(), nb::Error<Self::Error>>)
        ensures
            Self::send_outcome(*old(self), w, *final(self), r),
    ;
}

/// The steps of a read that came back with `r`: the driver is called, and a word that was
/// read is told. A failed read tells nothing.
pub open spec fn read_steps<E>(r: Result<u8, E>) -> Seq<Step> {
    match r {
        Ok(w) => seq![Step::Called, Step::Told(DataWord::Byte(w))],
        Err(_) => seq![Step::Called],
    }
}

/// The steps of sending `w`: the word is told, then the driver is called.
pub open spec fn send_steps(w: u8) -> Seq<Step> {
    seq![Step::Told(DataWord::Byte(w)), Step::Called]
}

impl<T, F> FullDuplex for Spy<T, F> where T: FullDuplex, F: Fn(DataWord) {
    type Error = T::Error;

    open spec fn read_outcome(pre: Self, post: Self, r: Result<u8, nb::Error<Self::Error>>) -> bool {
        &&& T::read_outcome(pre.inner(), post.inner(), r)
        &&& post.extends(pre, read_steps(r))
    }

    fn read(&mut self) -> (r: Result<u8, nb::Error<Self::Error>>)
        ensures
            T::read_outcome(old(self).inner(), final(self).inner(), r),
            final(self).extends(*old(self), read_steps(r)),
    {
        let ans = self.driver().read();
        match &ans {
            Ok(w) => {
                self.tell(DataWord::Byte(*w));
            },
            Err(_) => {},
        }
        assert(self.history() =~= old(self).history() + read_steps(ans));
        ans
    }

    open spec fn send_outcome(
        pre: Self,
        w: u8,
        post: Self,
        r: Result<(), nb::Error<Self::Error>>,
    ) -> bool {
        &&& T::send_outcome(pre.inner(), w, post.inner(), r)
        &&& post.extends(pre, send_steps(w))
    }

    fn send(&mut self, w: u8) -> (r: Result<(), nb::Error<Self::Error>>)
        ensures
            T::send_outcome(old(self).inner(), w, final(self).inner(), r),
            final(self).extends(*old(self), send_steps(w)),
    {
        self.tell(DataWord::Byte(w));
        let r = self.driver().send(w);
        assert(self.history() =~= old(self).history() + send_steps(w));
        r
    }
}

/// Blocking full-duplex transfer of several words.
pub trait Transfer: Sized {
    /// What the driver fails with.
    type Error;

    /// `post`, `buf` and `r` are a possible outcome of `transfer` on `pre` with a buffer that
    /// holds `out`: `buf` is what the buffer holds afterwards, `r` the words handed back.
    open spec fn transfer_outcome(
        pre: Self,
        out: Seq<u8>,
        post: Self,
        buf: Seq<u8>,
        r: Result<Seq<u8>, Self::Error>,
    ) -> bool {
        true
    }

    /// Sends `words` and hands back the words received.
    fn transfer<'w>(&mut self, words: &'w mut [u8]) -> (r: Result<&'w [u8], Self::Error>)
        ensures
            Self::transfer_outcome(
                *old(self),
                old(words)@,
                *final(self),
                final(words)@,
                received(r),
            ),
    ;
}

/// The words that a transfer handed back, as a sequence.
pub open spec fn received<E>(r: Result<&[u8], E>) -> Result<Seq<u8>, E> {
    match r {
        Ok(words) => Ok(words@),
        Err(e) => Err(e),
    }
}

/// The steps of a transfer of `out` that came back with `r`.
///
/// The transaction is opened, the outbound words are told, the response is announced and the
/// driver is called. If it succeeds the inbound words are told and the transaction is closed;
/// if it fails nothing more is told, and the transaction stays open.
pub open spec fn transfer_steps<E>(out: Seq<u8>, r: Result<Seq<u8>, E>) -> Seq<Step> {
    let asked = told(seq![DataWord::First] + bytes(out) + seq![DataWord::Response]).push(
        Step::Called,
    );
    match r {
        Ok(inbound) => asked + told(bytes(inbound) + seq![DataWord::Last]),
        Err(_) => asked,
    }
}

impl<T, F> Transfer for Spy<T, F> where T: Transfer, F: Fn(DataWord) {
    type Error = T::Error;

    open spec fn transfer_outcome(
        pre: Self,
        out: Seq<u8>,
        post: Self,
        buf: Seq<u8>,
        r: Result<Seq<u8>, Self::Error>,
    ) -> bool {
        &&& T::transfer_outcome(pre.inner(), out, post.inner(), buf, r)
        &&& post.extends(pre, transfer_steps(out, r))
    }

    fn transfer<'w>(&mut self, words: &'w mut [u8]) -> (r: Result<&'w [u8], Self::Error>)
        ensures
            T::transfer_outcome(
                old(self).inner(),
                old(words)@,
                final(self).inner(),
                final(words)@,
                received(r),
            ),
            final(self).extends(*old(self), transfer_steps(old(words)@, received(r))),
    {
        let ghost out = words@;
        let ghost f = self.observer();
        let ghost opening = told(seq![DataWord::First] + bytes(out) + seq![DataWord::Response]);
        self.tell(DataWord::First);
        self.tell_bytes(words);
        self.tell(DataWord::Response);
        proof {
            let first = seq![Step::Told(DataWord::First)];
            let response = seq![Step::Told(DataWord::Response)];
            assert(opening =~= first + told(bytes(out)) + response);
            lemma_heard_concat(f, first, told(bytes(out)));
            lemma_heard_concat(f, first + told(bytes(out)), response);
            lemma_heard_concat(f, opening, seq![Step::Called]);
            assert(opening.push(Step::Called) =~= opening + seq![Step::Called]);
            assert(self.history() =~= old(self).history() + opening);
        }
        match self.driver().transfer(words) {
            Ok(ans) => {
                self.tell_bytes(ans);
                self.tell(DataWord::Last);
                proof {
                    let last = seq![Step::Told(DataWord::Last)];
                    let closing = told(bytes(ans@) + seq![DataWord::Last]);
                    assert(closing =~= told(bytes(ans@)) + last);
                    lemma_heard_concat(f, told(bytes(ans@)), last);
                    lemma_heard_concat(f, opening.push(Step::Called), closing);
                    assert(self.history() =~= old(self).history() + transfer_steps(
                        out,
                        Ok::<Seq<u8>, T::Error>(ans@),
                    ));
                }
                Ok(ans)
            },
            Err(e) => Err(e),
        }
    }
}

/// Blocking write of several words.
pub trait Write: Sized {
    /// What the driver fails with.
    type Error;

    /// `post` and `r` are a possible outcome of `write(words)` on `pre`.
    open spec fn write_outcome(pre: Self, words: Seq<u8>, post: Self, r: Result<(), Self::Error>) -> bool {
        true
    }

    /// Sends `words`, ignoring what comes in.
    fn write(&mut self, words: &[u8]) -> (r: Result<(), Self::Error>)
        ensures
            Self::write_outcome(*old(self), words@, *final(self), r),
    ;
}

/// The steps of a write: every word is told, then the driver is called.
pub open spec fn write_steps(words: Seq<u8>) -> Seq<Step> {
    told(bytes(words)).push(Step::Called)
}

impl<T, F> Write for Spy<T, F> where T: Write, F: Fn(DataWord) {
    type Error = T::Error;

    open spec fn write_outcome(pre: Self, words: Seq<u8>, post: Self, r: Result<(), Self::Error>) -> bool {
        &&& T::write_outcome(pre.inner(), words, post.inner(), r)
        &&& post.extends(pre, write_steps(words))
    }

    fn write(&mut self, words: &[u8]) -> (r: Result<(), Self::Error>)
        ensures
            T::write_outcome(old(self).inner(), words@, final(self).inner(), r),
            final(self).extends(*old(self), write_steps(words@)),
    {
        self.tell_bytes(words);
        self.driver().write(words)
    }
}

} // verus!
