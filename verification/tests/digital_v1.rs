use embedded_hal_spy::digital::v1::{InputPin, OutputPin, StatefulOutputPin, ToggleableOutputPin};
use embedded_hal_spy::DataWord;
use std::cell::RefCell;

#[derive(Debug, PartialEq, Eq, Clone)]
enum Seen {
    Told(DataWord),
    IsHigh,
    IsLow,
    SetHigh,
    SetLow,
    Toggle,
    IsSetHigh,
    IsSetLow,
}

/// A pin that cannot fail, and writes every call into a shared log.
struct Pin<'a> {
    log: &'a RefCell<Vec<Seen>>,
    high: bool,
}

impl<'a> InputPin for Pin<'a> {
    fn is_high(&mut self) -> bool {
        self.log.borrow_mut().push(Seen::IsHigh);
        self.high
    }

    fn is_low(&mut self) -> bool {
        self.log.borrow_mut().push(Seen::IsLow);
        !self.high
    }
}

impl<'a> OutputPin for Pin<'a> {
    fn set_low(&mut self) {
        self.log.borrow_mut().push(Seen::SetLow);
        self.high = false;
    }

    fn set_high(&mut self) {
        self.log.borrow_mut().push(Seen::SetHigh);
        self.high = true;
    }
}

impl<'a> ToggleableOutputPin for Pin<'a> {
    fn toggle(&mut self) {
        self.log.borrow_mut().push(Seen::Toggle);
        self.high = !self.high;
    }
}

impl<'a> StatefulOutputPin for Pin<'a> {
    fn is_set_high(&mut self) -> bool {
        self.log.borrow_mut().push(Seen::IsSetHigh);
        self.high
    }

    fn is_set_low(&mut self) -> bool {
        self.log.borrow_mut().push(Seen::IsSetLow);
        !self.high
    }
}

#[test]
fn legacy_is_high_is_told_as_the_level() {
    let log = RefCell::new(Vec::new());
    let mut spy =
        embedded_hal_spy::new(Pin { log: &log, high: true }, |w| log.borrow_mut().push(Seen::Told(w)));
    assert!(spy.is_high());
    assert_eq!(*log.borrow(), vec![Seen::IsHigh, Seen::Told(DataWord::Byte(1))]);
}

#[test]
fn legacy_is_high_false_is_told_as_zero() {
    let log = RefCell::new(Vec::new());
    let mut spy =
        embedded_hal_spy::new(Pin { log: &log, high: false }, |w| log.borrow_mut().push(Seen::Told(w)));
    assert!(!spy.is_high());
    assert_eq!(*log.borrow(), vec![Seen::IsHigh, Seen::Told(DataWord::Byte(0))]);
}

#[test]
fn legacy_is_low_is_told_inverted() {
    let log = RefCell::new(Vec::new());
    let mut spy =
        embedded_hal_spy::new(Pin { log: &log, high: false }, |w| log.borrow_mut().push(Seen::Told(w)));
    assert!(spy.is_low());
    assert_eq!(*log.borrow(), vec![Seen::IsLow, Seen::Told(DataWord::Byte(0))]);
    let log = RefCell::new(Vec::new());
    let mut spy =
        embedded_hal_spy::new(Pin { log: &log, high: true }, |w| log.borrow_mut().push(Seen::Told(w)));
    assert!(!spy.is_low());
    assert_eq!(*log.borrow(), vec![Seen::IsLow, Seen::Told(DataWord::Byte(1))]);
}

#[test]
fn legacy_set_is_told_before_the_pin_is_driven() {
    let log = RefCell::new(Vec::new());
    let mut spy =
        embedded_hal_spy::new(Pin { log: &log, high: true }, |w| log.borrow_mut().push(Seen::Told(w)));
    spy.set_low();
    spy.set_high();
    assert_eq!(
        *log.borrow(),
        vec![
            Seen::Told(DataWord::Byte(0)),
            Seen::SetLow,
            Seen::Told(DataWord::Byte(1)),
            Seen::SetHigh,
        ]
    );
}

#[test]
fn legacy_toggle_tells_one_toggle_and_no_byte() {
    let log = RefCell::new(Vec::new());
    let mut spy =
        embedded_hal_spy::new(Pin { log: &log, high: true }, |w| log.borrow_mut().push(Seen::Told(w)));
    spy.toggle();
    assert_eq!(*log.borrow(), vec![Seen::Told(DataWord::Toggle), Seen::Toggle]);
}

#[test]
fn legacy_is_set_high_and_is_set_low() {
    let log = RefCell::new(Vec::new());
    let mut spy =
        embedded_hal_spy::new(Pin { log: &log, high: true }, |w| log.borrow_mut().push(Seen::Told(w)));
    assert!(spy.is_set_high());
    assert!(!spy.is_set_low());
    spy.toggle();
    assert!(!spy.is_set_high());
    assert!(spy.is_set_low());
    assert_eq!(
        *log.borrow(),
        vec![
            Seen::IsSetHigh,
            Seen::Told(DataWord::Byte(1)),
            Seen::IsSetLow,
            Seen::Told(DataWord::Byte(1)),
            Seen::Told(DataWord::Toggle),
            Seen::Toggle,
            Seen::IsSetHigh,
            Seen::Told(DataWord::Byte(0)),
            Seen::IsSetLow,
            Seen::Told(DataWord::Byte(0)),
        ]
    );
}
