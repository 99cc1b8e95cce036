//! Input.
//!
//! Multiplexes the three hardware touch inputs into the seven unique
//! output combinations an application or screen can react to.

use vstd::prelude::*;

verus! {

pub const LEFT: u8 = 1;

pub const MIDDLE: u8 = 2;

pub const RIGHT: u8 = 4;

pub const LEFT_MIDDLE: u8 = LEFT | MIDDLE;

pub const RIGHT_MIDDLE: u8 = RIGHT | MIDDLE;

pub const LEFT_RIGHT: u8 = LEFT | RIGHT;

pub const ALL: u8 = LEFT | MIDDLE | RIGHT;

pub const NONE: u8 = 0;

/// The highest pin index: pins 0, 1 and 2 feed the input vector.
pub const MAX_PIN_IDX: u8 = 2;

#[derive(Debug, Clone, Copy, PartialEq, Eq, Structural)]
pub enum InputEvent {
    Left,
    Middle,
    Right,
    Dual,
    Multi,
    LeftMiddle,
    RightMiddle,
}

#[derive(Debug, Copy, Clone, PartialEq, Eq, Structural)]
pub enum Error {
    NoInput,
    InvalidInputVector(u8),
    InvalidInputPin,
    Incomplete,
}

/// The event a complete input vector decodes to.
pub open spec fn decode_vector(raw: u8) -> Result<InputEvent, Error> {
    if raw == ALL {
        Ok(InputEvent::Multi)
    } else if raw == LEFT_RIGHT {
        Ok(InputEvent::Dual)
    } else if raw == LEFT_MIDDLE {
        Ok(InputEvent::LeftMiddle)
    } else if raw == RIGHT_MIDDLE {
        Ok(InputEvent::RightMiddle)
    } else if raw == LEFT {
        Ok(InputEvent::Left)
    } else if raw == MIDDLE {
        Ok(InputEvent::Middle)
    } else if raw == RIGHT {
        Ok(InputEvent::Right)
    } else if raw == NONE {
        Err(Error::NoInput)
    } else {
        Err(Error::InvalidInputVector(raw))
    }
}

/// Collects the raw pin readings into a bit vector and decodes it
/// into input events once all pins have reported.
pub struct InputManager {
    raw_vector: u8,
    last_vector: u8,
    count: usize,
}

impl InputManager {
    /// The bit vector being collected.
    pub closed spec fn raw_vector(self) -> u8 {
        self.raw_vector
    }

    /// The last vector that was reported, so held inputs do not
    /// repeat.
    pub closed spec fn last_vector(self) -> u8 {
        self.last_vector
    }

    /// How many pins have reported since the last decode.
    pub closed spec fn count(self) -> int {
        self.count as int
    }

    /// Creates a new instance of the InputManager
    pub fn new() -> (im: InputManager)
        ensures
            im.raw_vector() == 0,
            im.last_vector() == 0,
            im.count() == 0,
    {
        InputManager { raw_vector: 0, last_vector: 0, count: 0 }
    }

    /// Record the reading of the next pin in the bit vector.
    pub fn update_input(&mut self, active: bool)
        requires
            old(self).count() < 8,
        ensures
            final(self).raw_vector() == if active {
                old(self).raw_vector() | (1u8 << old(self).count())
            } else {
                old(self).raw_vector() & !(1u8 << old(self).count())
            },
            final(self).last_vector() == old(self).last_vector(),
            final(self).count() == old(self).count() + 1,
    {
        if active {
            self.raw_vector = self.raw_vector | (1u8 << self.count);
        } else {
            self.raw_vector = self.raw_vector & !(1u8 << self.count);
        }
        self.count = self.count + 1;
    }

    /// Decode the collected vector once every pin has reported; a
    /// vector equal to the last reported one, or an incomplete round
    /// of readings, produces no event.
    pub fn output(&mut self) -> (r: Result<InputEvent, Error>)
        ensures
            final(self).raw_vector() == old(self).raw_vector(),
            old(self).count() <= MAX_PIN_IDX ==> r == Err::<InputEvent, Error>(Error::Incomplete)
                && *final(self) == *old(self),
            old(self).count() > MAX_PIN_IDX ==> final(self).count() == 0,
            old(self).count() > MAX_PIN_IDX && old(self).raw_vector() == old(self).last_vector()
                ==> r == Err::<InputEvent, Error>(Error::NoInput) && final(self).last_vector()
                == old(self).last_vector(),
            old(self).count() > MAX_PIN_IDX && old(self).raw_vector() != old(self).last_vector()
                ==> r == decode_vector(old(self).raw_vector()) && final(self).last_vector() == old(
                self,
            ).raw_vector(),
    {
        if self.count > MAX_PIN_IDX as usize {
            self.count = 0;
            if self.raw_vector != self.last_vector {
                let result = if self.raw_vector == ALL {
                    Ok(InputEvent::Multi)
                } else if self.raw_vector == LEFT_RIGHT {
                    Ok(InputEvent::Dual)
                } else if self.raw_vector == LEFT_MIDDLE {
                    Ok(InputEvent::LeftMiddle)
                } else if self.raw_vector == RIGHT_MIDDLE {
                    Ok(InputEvent::RightMiddle)
                } else if self.raw_vector == LEFT {
                    Ok(InputEvent::Left)
                } else if self.raw_vector == MIDDLE {
                    Ok(InputEvent::Middle)
                } else if self.raw_vector == RIGHT {
                    Ok(InputEvent::Right)
                } else if self.raw_vector == NONE {
                    Err(Error::NoInput)
                } else {
                    Err(Error::InvalidInputVector(self.raw_vector))
                };
                self.last_vector = self.raw_vector;
                result
            } else {
                Err(Error::NoInput)
            }
        } else {
            Err(Error::Incomplete)
        }
    }

    /// The pin the next reading belongs to.
    pub fn current_pin(&self) -> (p: usize)
        ensures
            p == self.count(),
    {
        self.count
    }
}

} // verus!
