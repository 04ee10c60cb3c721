//! The parameters of the serial line, fixed for the life of one session.

use vstd::prelude::*;

verus! {

/// The number of data bits in a character.
#[derive(Copy, Clone, Debug, PartialEq, Eq, Structural)]
pub enum DataBits {
    Five,
    Six,
    Seven,
    Eight,
}

/// The parity bit of a character.
#[derive(Copy, Clone, Debug, PartialEq, Eq, Structural)]
pub enum Parity {
    /// No parity bit is sent.
    NoParity,
    Odd,
    Even,
}

/// The number of stop bits after a character.
#[derive(Copy, Clone, Debug, PartialEq, Eq, Structural)]
pub enum StopBits {
    One,
    Two,
}

/// The parameters with which a port is opened.
#[derive(Copy, Clone, Debug, PartialEq, Eq, Structural)]
pub struct Preferences {
    /// Symbols per second; a line needs a positive rate.
    pub baud_rate: u32,
    pub data_bits: DataBits,
    pub parity: Parity,
    pub stop_bits: StopBits,
    /// How long one read may wait, in milliseconds.
    pub timeout: u64,
}

impl Preferences {
    /// Whether a port can be opened with these parameters.
    pub open spec fn wf(self) -> bool {
        self.baud_rate > 0
    }

    /// The usual parameters, 115200 baud and 8 data bits with odd parity and
    /// one stop bit, with the given timeout in milliseconds. The timeout has
    /// no usual value.
    pub fn new(timeout: u64) -> (preferences: Self)
        ensures
            preferences == (Preferences {
                baud_rate: 115200,
                data_bits: DataBits::Eight,
                parity: Parity::Odd,
                stop_bits: StopBits::One,
                timeout,
            }),
            preferences.wf(),
    {
        Preferences {
            baud_rate: 115200,
            data_bits: DataBits::Eight,
            parity: Parity::Odd,
            stop_bits: StopBits::One,
            timeout,
        }
    }

    /// Tells whether a port can be opened with these parameters.
    pub fn is_valid(&self) -> (valid: bool)
        ensures
            valid == self.wf(),
    {
        self.baud_rate > 0
    }
}

} // verus!
