//! Digital pins whose operations may fail with an error of the driver.
//!
//! Every operation comes with a relation, named after it, that says which outcomes a call may
//! have. A driver that keeps the relation it is given promises nothing.
use vstd::prelude::*;
use crate::digital::{is_high_steps, is_low_steps, level_byte, set_steps, toggle_steps};
use crate::event::{DataWord, Step};
use crate::spy::Spy;

verus! {

/// A pin that can be read.
pub trait InputPin: Sized {
    /// What the driver fails with.
    type Error;

    /// `post` and `r` are a possible outcome of `is_high()` on `pre`.
    open spec fn is_high_outcome(pre: Self, post: Self, r: Result<bool, Self::Error>) -> bool {
        true
    }

    /// Is the input high?
    fn is_high(&mut self) -> (r: Result<bool, Self::Error>)
        ensures
            Self::is_high_outcome(*old(self), *final(self), r),
    ;

    /// `post` and `r` are a possible outcome of `is_low()` on `pre`.
    open spec fn is_low_outcome(pre: Self, post: Self, r: Result<bool, Self::Error>) -> bool {
        true
    }

    /// Is the input low?
    fn is_low(&mut self) -> (r: Result<bool, Self::Error>)
        ensures
            Self::is_low_outcome(*old(self), *final(self), r),
    ;
}

/// A pin that can be driven.
pub trait OutputPin: Sized {
    /// What the driver fails with.
    type Error;

    /// `post` and `r` are a possible outcome of `set_low()` on `pre`.
    open spec fn set_low_outcome(pre: Self, post: Self, r: Result<(), Self::Error>) -> bool {
        true
    }

    /// Drives the pin low.
    fn set_low(&mut self) -> (r: Result<(), Self::Error>)
        ensures
            Self::set_low_outcome(*old(self), *final(self), r),
    ;

    /// `post` and `r` are a possible outcome of `set_high()` on `pre`.
    open spec fn set_high_outcome(pre: Self, post: Self, r: Result<(), Self::Error>) -> bool {
        true
    }

    /// Drives the pin high.
    fn set_high(&mut self) -> (r: Result<(), Self::Error>)
        ensures
            Self::set_high_outcome(*old(self), *final(self), r),
    ;
}

/// An output pin whose level can be flipped.
pub trait ToggleableOutputPin: Sized {
    /// What the driver fails with.
    type Error;

    /// `post` and `r` are a possible outcome of `toggle()` on `pre`.
    open spec fn toggle_outcome(pre: Self, post: Self, r: Result<(), Self::Error>) -> bool {
        true
    }

    /// Flips the level of the pin.
    fn toggle(&mut self) -> (r: Result<(), Self::Error>)
        ensures
            Self::toggle_outcome(*old(self), *final(self), r),
    ;
}

/// An output pin that can be asked what it was last driven to.
pub trait StatefulOutputPin: OutputPin {
    /// `post` and `r` are a possible outcome of `is_set_high()` on `pre`.
    open spec fn is_set_high_outcome(pre: Self, post: Self, r: Result<bool, Self::Error>) -> bool {
        true
    }

    /// Was the pin driven high?
    fn is_set_high(&mut self) -> (r: Result<bool, Self::Error>)
        ensures
            Self::is_set_high_outcome(*old(self), *final(self), r),
    ;

    /// `post` and `r` are a possible outcome of `is_set_low()` on `pre`.
    open spec fn is_set_low_outcome(pre: Self, post: Self, r: Result<bool, Self::Error>) -> bool {
        true
    }

    /// Was the pin driven low?
    fn is_set_low(&mut self) -> (r: Result<bool, Self::Error>)
        ensures
            Self::is_set_low_outcome(*old(self), *final(self), r),
    ;
}

/// The steps of a query "is it high?" that came back with `r`. A failed query tells nothing.
pub open spec fn try_is_high_steps<E>(r: Result<bool, E>) -> Seq<Step> {
    match r {
        Ok(state) => is_high_steps(state),
        Err(_) => seq![Step::Called],
    }
}

/// The steps of a query "is it low?" that came back with `r`. A failed query tells nothing.
pub open spec fn try_is_low_steps<E>(r: Result<bool, E>) -> Seq<Step> {
    match r {
        Ok(state) => is_low_steps(state),
        Err(_) => seq![Step::Called],
    }
}

impl<T, F> InputPin for Spy<T, F> where T: InputPin, F: Fn(DataWord) {
    type Error = T::Error;

    open spec fn is_high_outcome(pre: Self, post: Self, r: Result<bool, Self::Error>) -> bool {
        &&& T::is_high_outcome(pre.inner(), post.inner(), r)
        &&& post.extends(pre, try_is_high_steps(r))
    }

    fn is_high(&mut self) -> (r: Result<bool, Self::Error>)
        ensures
            T::is_high_outcome(old(self).inner(), final(self).inner(), r),
            final(self).extends(*old(self), try_is_high_steps(r)),
    {
        match self.driver().is_high() {
            Ok(state) => {
                self.tell(DataWord::Byte(level_byte(state)));
                assert(self.history() =~= old(self).history() + is_high_steps(state));
                Ok(state)
            },
            Err(e) => {
                assert(self.history() =~= old(self).history() + seq![Step::Called]);
                Err(e)
            },
        }
    }

    open spec fn is_low_outcome(pre: Self, post: Self, r: Result<bool, Self::Error>) -> bool {
        &&& T::is_low_outcome(pre.inner(), post.inner(), r)
        &&& post.extends(pre, try_is_low_steps(r))
    }

    fn is_low(&mut self) -> (r: Result<bool, Self::Error>)
        ensures
            T::is_low_outcome(old(self).inner(), final(self).inner(), r),
            final(self).extends(*old(self), try_is_low_steps(r)),
    {
        match self.driver().is_low() {
            Ok(state) => {
                self.tell(DataWord::Byte(level_byte(!state)));
                assert(self.history() =~= old(self).history() + is_low_steps(state));
                Ok(state)
            },
            Err(e) => {
                assert(self.history() =~= old(self).history() + seq![Step::Called]);
                Err(e)
            },
        }
    }
}

impl<T, F> OutputPin for Spy<T, F> where T: OutputPin, F: Fn(DataWord) {
    type Error = T::Error;

    open spec fn set_low_outcome(pre: Self, post: Self, r: Result<(), Self::Error>) -> bool {
        &&& T::set_low_outcome(pre.inner(), post.inner(), r)
        &&& post.extends(pre, set_steps(false))
    }

    fn set_low(&mut self) -> (r: Result<(), Self::Error>)
        ensures
            T::set_low_outcome(old(self).inner(), final(self).inner(), r),
            final(self).extends(*old(self), set_steps(false)),
    {
        self.tell(DataWord::Byte(0));
        let r = self.driver().set_low();
        assert(self.history() =~= old(self).history() + set_steps(false));
        r
    }

    open spec fn set_high_outcome(pre: Self, post: Self, r: Result<(), Self::Error>) -> bool {
        &&& T::set_high_outcome(pre.inner(), post.inner(), r)
        &&& post.extends(pre, set_steps(true))
    }

    fn set_high(&mut self) -> (r: Result<(), Self::Error>)
        ensures
            T::set_high_outcome(old(self).inner(), final(self).inner(), r),
            final(self).extends(*old(self), set_steps(true)),
    {
        self.tell(DataWord::Byte(1));
        let r = self.driver().set_high();
        assert(self.history() =~= old(self).history() + set_steps(true));
        r
    }
}

impl<T, F> ToggleableOutputPin for Spy<T, F> where T: ToggleableOutputPin, F: Fn(DataWord) {
    type Error = T::Error;

    open spec fn toggle_outcome(pre: Self, post: Self, r: Result<(), Self::Error>) -> bool {
        &&& T::toggle_outcome(pre.inner(), post.inner(), r)
        &&& post.extends(pre, toggle_steps())
    }

    fn toggle(&mut self) -> (r: Result<(), Self::Error>)
        ensures
            T::toggle_outcome(old(self).inner(), final(self).inner(), r),
            final(self).extends(*old(self), toggle_steps()),
    {
        self.tell(DataWord::Toggle);
        let r = self.driver().toggle();
        assert(self.history() =~= old(self).history() + toggle_steps());
        r
    }
}

impl<T, F> StatefulOutputPin for Spy<T, F> where T: StatefulOutputPin, F: Fn(DataWord) {
    open spec fn is_set_high_outcome(pre: Self, post: Self, r: Result<bool, Self::Error>) -> bool {
        &&& T::is_set_high_outcome(pre.inner(), post.inner(), r)
        &&& post.extends(pre, try_is_high_steps(r))
    }

    fn is_set_high(&mut self) -> (r: Result<bool, Self::Error>)
        ensures
            T::is_set_high_outcome(old(self).inner(), final(self).inner(), r),
            final(self).extends(*old(self), try_is_high_steps(r)),
    {
        match self.driver().is_set_high() {
            Ok(state) => {
                self.tell(DataWord::Byte(level_byte(state)));
                assert(self.history() =~= old(self).history() + is_high_steps(state));
                Ok(state)
            },
            Err(e) => {
                assert(self.history() =~= old(self).history() + seq![Step::Called]);
                Err(e)
            },
        }
    }

    open spec fn is_set_low_outcome(pre: Self, post: Self, r: Result<bool, Self::Error>) -> bool {
        &&& T::is_set_low_outcome(pre.inner(), post.inner(), r)
        &&& post.extends(pre, try_is_low_steps(r))
    }

    fn is_set_low(&mut self) -> (r: Result<bool, Self::Error>)
        ensures
            T::is_set_low_outcome(old(self).inner(), final(self).inner(), r),
            final(self).extends(*old(self), try_is_low_steps(r)),
    {
        match self.driver().is_set_low() {
            Ok(state) => {
                self.tell(DataWord::Byte(level_byte(!state)));
                assert(self.history() =~= old(self).history() + is_low_steps(state));
                Ok(state)
            },
            Err(e) => {
                assert(self.history() =~= old(self).history() + seq![Step::Called]);
                Err(e)
            },
        }
    }
}

} // verus!
