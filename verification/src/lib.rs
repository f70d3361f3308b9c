//! An observing wrapper for peripheral drivers.
//!
//! A [`Spy`] owns a driver (an SPI bus or a digital pin) and an observer function. It offers
//! the capabilities of the driver it wraps, and hands every word that crosses the interface to
//! the observer as a [`DataWord`], without changing what the driver is asked or what it answers.
//! The wrapper keeps nothing of what it sees: what becomes of the events is the observer's
//! business.
//!
//! The capabilities are traits of this crate: [`spi::FullDuplex`], [`spi::Transfer`],
//! [`spi::Write`], and the pin traits in [`digital::v2`] and [`digital::v1`]. A wrapper has a
//! capability exactly when the driver inside it has.
//!
//! Contracts are stated over the wrapper's [`history`](Spy::history): the events told to the
//! observer and the calls made into the driver, in the order in which they happened. What a
//! driver does when it is called is the driver's to say; the wrapper's contracts hand that on
//! unchanged. The module [`laws`] collects what follows for the observer.

pub mod digital;
pub mod event;
pub mod laws;
pub mod spi;
pub mod spy;

pub use event::DataWord;
pub use event::Step;
pub use spy::new;
pub use spy::Spy;
