use embedded_hal_spy::digital::v2::{InputPin, OutputPin, StatefulOutputPin, ToggleableOutputPin};
use embedded_hal_spy::DataWord;
use std::cell::RefCell;

#[derive(Debug, PartialEq, Eq, Clone)]
enum Seen {
    Told(DataWord),
    IsHigh,
    IsLow,
    SetHigh,
    SetLow,
    Toggle,
    IsSetHigh,
    IsSetLow,
}

/// A pin that writes every call into a shared log. It fails every call with `fault`, if there
/// is one; else it answers from its level.
struct Pin<'a> {
    log: &'a RefCell<Vec<Seen>>,
    high: bool,
    fault: Option<&'static str>,
}

impl<'a> Pin<'a> {
    fn answer<V>(&self, v: V) -> Result<V, &'static str> {
        match self.fault {
            Some(e) => Err(e),
            None => Ok(v),
        }
    }
}

impl<'a> InputPin for Pin<'a> {
    type Error = &'static str;

    fn is_high(&mut self) -> Result<bool, &'static str> {
        self.log.borrow_mut().push(Seen::IsHigh);
        self.answer(self.high)
    }

    fn is_low(&mut self) -> Result<bool, &'static str> {
        self.log.borrow_mut().push(Seen::IsLow);
        self.answer(!self.high)
    }
}

impl<'a> OutputPin for Pin<'a> {
    type Error = &'static str;

    fn set_low(&mut self) -> Result<(), &'static str> {
        self.log.borrow_mut().push(Seen::SetLow);
        self.high = false;
        self.answer(())
    }

    fn set_high(&mut self) -> Result<(), &'static str> {
        self.log.borrow_mut().push(Seen::SetHigh);
        self.high = true;
        self.answer(())
    }
}

impl<'a> ToggleableOutputPin for Pin<'a> {
    type Error = &'static str;

    fn toggle(&mut self) -> Result<(), &'static str> {
        self.log.borrow_mut().push(Seen::Toggle);
        self.high = !self.high;
        self.answer(())
    }
}

impl<'a> StatefulOutputPin for Pin<'a> {
    fn is_set_high(&mut self) -> Result<bool, &'static str> {
        self.log.borrow_mut().push(Seen::IsSetHigh);
        self.answer(self.high)
    }

    fn is_set_low(&mut self) -> Result<bool, &'static str> {
        self.log.borrow_mut().push(Seen::IsSetLow);
        self.answer(!self.high)
    }
}

#[test]
fn is_high_is_told_as_the_level() {
    let log = RefCell::new(Vec::new());
    let pin = Pin { log: &log, high: true, fault: None };
    let mut spy = embedded_hal_spy::new(pin, |w| log.borrow_mut().push(Seen::Told(w)));
    assert_eq!(spy.is_high(), Ok(true));
    assert_eq!(*log.borrow(), vec![Seen::IsHigh, Seen::Told(DataWord::Byte(1))]);
}

#[test]
fn is_high_false_is_told_as_zero() {
    let log = RefCell::new(Vec::new());
    let pin = Pin { log: &log, high: false, fault: None };
    let mut spy = embedded_hal_spy::new(pin, |w| log.borrow_mut().push(Seen::Told(w)));
    assert_eq!(spy.is_high(), Ok(false));
    assert_eq!(*log.borrow(), vec![Seen::IsHigh, Seen::Told(DataWord::Byte(0))]);
}

#[test]
fn is_low_true_is_told_as_zero() {
    let log = RefCell::new(Vec::new());
    let pin = Pin { log: &log, high: false, fault: None };
    let mut spy = embedded_hal_spy::new(pin, |w| log.borrow_mut().push(Seen::Told(w)));
    assert_eq!(spy.is_low(), Ok(true));
    assert_eq!(*log.borrow(), vec![Seen::IsLow, Seen::Told(DataWord::Byte(0))]);
}

#[test]
fn is_low_false_is_told_as_one() {
    let log = RefCell::new(Vec::new());
    let pin = Pin { log: &log, high: true, fault: None };
    let mut spy = embedded_hal_spy::new(pin, |w| log.borrow_mut().push(Seen::Told(w)));
    assert_eq!(spy.is_low(), Ok(false));
    assert_eq!(*log.borrow(), vec![Seen::IsLow, Seen::Told(DataWord::Byte(1))]);
}

#[test]
fn failed_level_queries_tell_nothing() {
    let log = RefCell::new(Vec::new());
    let pin = Pin { log: &log, high: true, fault: Some("open circuit") };
    let mut spy = embedded_hal_spy::new(pin, |w| log.borrow_mut().push(Seen::Told(w)));
    assert_eq!(spy.is_high(), Err("open circuit"));
    assert_eq!(spy.is_low(), Err("open circuit"));
    assert_eq!(spy.is_set_high(), Err("open circuit"));
    assert_eq!(spy.is_set_low(), Err("open circuit"));
    assert_eq!(
        *log.borrow(),
        vec![Seen::IsHigh, Seen::IsLow, Seen::IsSetHigh, Seen::IsSetLow]
    );
}

#[test]
fn set_high_is_told_before_the_pin_is_driven() {
    let log = RefCell::new(Vec::new());
    let pin = Pin { log: &log, high: false, fault: None };
    let mut spy = embedded_hal_spy::new(pin, |w| log.borrow_mut().push(Seen::Told(w)));
    assert_eq!(spy.set_high(), Ok(()));
    assert_eq!(*log.borrow(), vec![Seen::Told(DataWord::Byte(1)), Seen::SetHigh]);
}

#[test]
fn set_low_is_told_before_the_pin_is_driven() {
    let log = RefCell::new(Vec::new());
    let pin = Pin { log: &log, high: true, fault: None };
    let mut spy = embedded_hal_spy::new(pin, |w| log.borrow_mut().push(Seen::Told(w)));
    assert_eq!(spy.set_low(), Ok(()));
    assert_eq!(*log.borrow(), vec![Seen::Told(DataWord::Byte(0)), Seen::SetLow]);
}

#[test]
fn failed_set_is_told_and_its_error_comes_back() {
    let log = RefCell::new(Vec::new());
    let pin = Pin { log: &log, high: true, fault: Some("stuck") };
    let mut spy = embedded_hal_spy::new(pin, |w| log.borrow_mut().push(Seen::Told(w)));
    assert_eq!(spy.set_high(), Err("stuck"));
    assert_eq!(spy.set_low(), Err("stuck"));
    assert_eq!(
        *log.borrow(),
        vec![
            Seen::Told(DataWord::Byte(1)),
            Seen::SetHigh,
            Seen::Told(DataWord::Byte(0)),
            Seen::SetLow,
        ]
    );
}

#[test]
fn toggle_tells_one_toggle_and_no_byte() {
    let log = RefCell::new(Vec::new());
    let pin = Pin { log: &log, high: true, fault: None };
    let mut spy = embedded_hal_spy::new(pin, |w| log.borrow_mut().push(Seen::Told(w)));
    assert_eq!(spy.toggle(), Ok(()));
    assert_eq!(*log.borrow(), vec![Seen::Told(DataWord::Toggle), Seen::Toggle]);
}

#[test]
fn failed_toggle_tells_one_toggle() {
    let log = RefCell::new(Vec::new());
    let pin = Pin { log: &log, high: true, fault: Some("stuck") };
    let mut spy = embedded_hal_spy::new(pin, |w| log.borrow_mut().push(Seen::Told(w)));
    assert_eq!(spy.toggle(), Err("stuck"));
    assert_eq!(*log.borrow(), vec![Seen::Told(DataWord::Toggle), Seen::Toggle]);
}

#[test]
fn is_set_high_and_is_set_low_are_told_like_the_input_queries() {
    let log = RefCell::new(Vec::new());
    let pin = Pin { log: &log, high: false, fault: None };
    let mut spy = embedded_hal_spy::new(pin, |w| log.borrow_mut().push(Seen::Told(w)));
    assert_eq!(spy.is_set_high(), Ok(false));
    assert_eq!(spy.is_set_low(), Ok(true));
    assert_eq!(spy.set_high(), Ok(()));
    assert_eq!(spy.is_set_high(), Ok(true));
    assert_eq!(spy.is_set_low(), Ok(false));
    assert_eq!(
        *log.borrow(),
        vec![
            Seen::IsSetHigh,
            Seen::Told(DataWord::Byte(0)),
            Seen::IsSetLow,
            Seen::Told(DataWord::Byte(0)),
            Seen::Told(DataWord::Byte(1)),
            Seen::SetHigh,
            Seen::IsSetHigh,
            Seen::Told(DataWord::Byte(1)),
            Seen::IsSetLow,
            Seen::Told(DataWord::Byte(1)),
        ]
    );
}

#[test]
fn blinking_is_told_in_call_order() {
    let log = RefCell::new(Vec::new());
    let pin = Pin { log: &log, high: true, fault: None };
    let mut spy = embedded_hal_spy::new(pin, |w| log.borrow_mut().push(Seen::Told(w)));
    for _ in 0..3 {
        assert_eq!(spy.set_low(), Ok(()));
        assert_eq!(spy.set_high(), Ok(()));
    }
    assert_eq!(spy.toggle(), Ok(()));
    let mut told = Vec::new();
    for s in log.borrow().iter() {
        if let Seen::Told(w) = s {
            told.push(*w);
        }
    }
    assert_eq!(
        told,
        vec![
            DataWord::Byte(0),
            DataWord::Byte(1),
            DataWord::Byte(0),
            DataWord::Byte(1),
            DataWord::Byte(0),
            DataWord::Byte(1),
            DataWord::Toggle,
        ]
    );
}
