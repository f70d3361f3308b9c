//! Digital pins whose operations cannot fail.
//!
//! Every operation comes with a relation, named after it, that says which outcomes a call may
//! have. A driver that keeps the relation it is given promises nothing.
use vstd::prelude::*;
use crate::digital::{is_high_steps, is_low_steps, level_byte, set_steps, toggle_steps};
use crate::event::DataWord;
use crate::spy::Spy;

verus! {

/// A pin that can be read.
pub trait InputPin: Sized {
    /// `post` and `state` are a possible outcome of `is_high()` on `pre`.
    open spec fn is_high_outcome(pre: Self, post: Self, state: bool) -> bool {
        true
    }

    /// Is the input high?
    fn is_high(&mut self) -> (state: bool)
        ensures
            Self::is_high_outcome(*old(self), *final(self), state),
    ;

    /// `post` and `state` are a possible outcome of `is_low()` on `pre`.
    open spec fn is_low_outcome(pre: Self, post: Self, state: bool) -> bool {
        true
    }

    /// Is the input low?
    fn is_low(&mut self) -> (state: bool)
        ensures
            Self::is_low_outcome(*old(self), *final(self), state),
    ;
}

/// A pin that can be driven.
pub trait OutputPin: Sized {
    /// `post` is a possible outcome of `set_low()` on `pre`.
    open spec fn set_low_outcome(pre: Self, post: Self) -> bool {
        true
    }

    /// Drives the pin low.
    fn set_low(&mut self)
        ensures
            Self::set_low_outcome(*old(self), *final(self)),
    ;

    /// `post` is a possible outcome of `set_high()` on `pre`.
    open spec fn set_high_outcome(pre: Self, post: Self) -> bool {
        true
    }

    /// Drives the pin high.
    fn set_high(&mut self)
        ensures
            Self::set_high_outcome(*old(self), *final(self)),
    ;
}

/// An output pin whose level can be flipped.
pub trait ToggleableOutputPin: Sized {
    /// `post` is a possible outcome of `toggle()` on `pre`.
    open spec fn toggle_outcome(pre: Self, post: Self) -> bool {
        true
    }

    /// Flips the level of the pin.
    fn toggle(&mut self)
        ensures
            Self::toggle_outcome(*old(self), *final(self)),
    ;
}

/// An output pin that can be asked what it was last driven to.
pub trait StatefulOutputPin: Sized {
    /// `post` and `state` are a possible outcome of `is_set_high()` on `pre`.
    open spec fn is_set_high_outcome(pre: Self, post: Self, state: bool) -> bool {
        true
    }

    /// Was the pin driven high?
    fn is_set_high(&mut self) -> (state: bool)
        ensures
            Self::is_set_high_outcome(*old(self), *final(self), state),
    ;

    /// `post` and `state` are a possible outcome of `is_set_low()` on `pre`.
    open spec fn is_set_low_outcome(pre: Self, post: Self, state: bool) -> bool {
        true
    }

    /// Was the pin driven low?
    fn is_set_low(&mut self) -> (state: bool)
        ensures
            Self::is_set_low_outcome(*old(self), *final(self), state),
    ;
}

impl<T, F> InputPin for Spy<T, F> where T: InputPin, F: Fn(DataWord) {
    open spec fn is_high_outcome(pre: Self, post: Self, state: bool) -> bool {
        &&& T::is_high_outcome(pre.inner(), post.inner(), state)
        &&& post.extends(pre, is_high_steps(state))
    }

    fn is_high(&mut self) -> (state: bool)
        ensures
            T::is_high_outcome(old(self).inner(), final(self).inner(), state),
            final(self).extends(*old(self), is_high_steps(state)),
    {
        let state = self.driver().is_high();
        self.tell(DataWord::Byte(level_byte(state)));
        assert(self.history() =~= old(self).history() + is_high_steps(state));
        state
    }

    open spec fn is_low_outcome(pre: Self, post: Self, state: bool) -> bool {
        &&& T::is_low_outcome(pre.inner(), post.inner(), state)
        &&& post.extends(pre, is_low_steps(state))
    }

    fn is_low(&mut self) -> (state: bool)
        ensures
            T::is_low_outcome(old(self).inner(), final(self).inner(), state),
            final(self).extends(*old(self), is_low_steps(state)),
    {
        let state = self.driver().is_low();
        self.tell(DataWord::Byte(level_byte(!state)));
        assert(self.history() =~= old(self).history() + is_low_steps(state));
        state
    }
}

impl<T, F> OutputPin for Spy<T, F> where T: OutputPin, F: Fn(DataWord) {
    open spec fn set_low_outcome(pre: Self, post: Self) -> bool {
        &&& T::set_low_outcome(pre.inner(), post.inner())
        &&& post.extends(pre, set_steps(false))
    }

    fn set_low(&mut self)
        ensures
            T::set_low_outcome(old(self).inner(), final(self).inner()),
            final(self).extends(*old(self), set_steps(false)),
    {
        self.tell(DataWord::Byte(0));
        self.driver().set_low();
        assert(self.history() =~= old(self).history() + set_steps(false));
    }

    open spec fn set_high_outcome(pre: Self, post: Self) -> bool {
        &&& T::set_high_outcome(pre.inner(), post.inner())
        &&& post.extends(pre, set_steps(true))
    }

    fn set_high(&mut self)
        ensures
            T::set_high_outcome(old(self).inner(), final(self).inner()),
            final(self).extends(*old(self), set_steps(true)),
    {
        self.tell(DataWord::Byte(1));
        self.driver().set_high();
        assert(self.history() =~= old(self).history() + set_steps(true));
    }
}

impl<T, F> ToggleableOutputPin for Spy<T, F> where T: ToggleableOutputPin, F: Fn(DataWord) {
    open spec fn toggle_outcome(pre: Self, post: Self) -> bool {
        &&& T::toggle_outcome(pre.inner(), post.inner())
        &&& post.extends(pre, toggle_steps())
    }

    fn toggle(&mut self)
        ensures
            T::toggle_outcome(old(self).inner(), final(self).inner()),
            final(self).extends(*old(self), toggle_steps()),
    {
        self.tell(DataWord::Toggle);
        self.driver().toggle();
        assert(self.history() =~= old(self).history() + toggle_steps());
    }
}

impl<T, F> StatefulOutputPin for Spy<T, F> where T: StatefulOutputPin, F: Fn(DataWord) {
    open spec fn is_set_high_outcome(pre: Self, post: Self, state: bool) -> bool {
        &&& T::is_set_high_outcome(pre.inner(), post.inner(), state)
        &&& post.extends(pre, is_high_steps(state))
    }

    fn is_set_high(&mut self) -> (state: bool)
        ensures
            T::is_set_high_outcome(old(self).inner(), final(self).inner(), state),
            final(self).extends(*old(self), is_high_steps(state)),
    {
        let state = self.driver().is_set_high();
        self.tell(DataWord::Byte(level_byte(state)));
        assert(self.history() =~= old(self).history() + is_high_steps(state));
        state
    }

    open spec fn is_set_low_outcome(pre: Self, post: Self, state: bool) -> bool {
        &&& T::is_set_low_outcome(pre.inner(), post.inner(), state)
        &&& post.extends(pre, is_low_steps(state))
    }

    fn is_set_low(&mut self) -> (state: bool)
        ensures
            T::is_set_low_outcome(old(self).inner(), final(self).inner(), state),
            final(self).extends(*old(self), is_low_steps(state)),
    {
        let state = self.driver().is_set_low();
        self.tell(DataWord::Byte(level_byte(!state)));
        assert(self.history() =~= old(self).history() + is_low_steps(state));
        state
    }
}

} // verus!
