//! The request data object: the power contract negotiated with the source.
use vstd::prelude::*;
use crate::bits::{bit, field};

verus! {

/// A request data object, as read from the controller.
#[derive(Clone, Copy, Debug, PartialEq, Eq, Structural)]
pub struct Rdo(u32);

impl Rdo {
    /// The encoded word.
    pub closed spec fn word(self) -> u32 {
        self.0
    }

    /// The request data object encoded by `bits`; every word decodes.
    pub fn from_bits(bits: u32) -> (r: Rdo)
        ensures
            r.word() == bits,
    {
        Rdo(bits)
    }

    /// The encoded word.
    pub fn bits(&self) -> (r: u32)
        ensures
            r == self.word(),
    {
        self.0
    }

    /// Object position of the selected PDO, 1-indexed, bits 30:28.
    pub fn position(&self) -> (r: u32)
        ensures
            r == field(self.word(), 28, 7),
    {
        (self.0 >> 28) & 7
    }

    /// Give-back flag.
    pub fn give_back(&self) -> (r: bool)
        ensures
            r == bit(self.word(), 27),
    {
        (self.0 >> 27) & 1 == 1
    }

    /// Capability mismatch flag.
    pub fn capability_mismatch(&self) -> (r: bool)
        ensures
            r == bit(self.word(), 26),
    {
        (self.0 >> 26) & 1 == 1
    }

    /// USB communications capable flag.
    pub fn usb_communication_capable(&self) -> (r: bool)
        ensures
            r == bit(self.word(), 25),
    {
        (self.0 >> 25) & 1 == 1
    }

    /// No USB suspend flag.
    pub fn no_usb_suspend(&self) -> (r: bool)
        ensures
            r == bit(self.word(), 24),
    {
        (self.0 >> 24) & 1 == 1
    }

    /// Unchunked extended messages supported flag.
    pub fn unchunked_extended_messages(&self) -> (r: bool)
        ensures
            r == bit(self.word(), 23),
    {
        (self.0 >> 23) & 1 == 1
    }

    /// Operating current in 10 mA units, bits 19:10.
    pub fn operating_current(&self) -> (r: u32)
        ensures
            r == field(self.word(), 10, 0x3FF),
    {
        (self.0 >> 10) & 0x3FF
    }

    /// Maximum operating current in 10 mA units, bits 9:0.
    pub fn max_operating_current(&self) -> (r: u32)
        ensures
            r == field(self.word(), 0, 0x3FF),
    {
        (self.0 >> 0) & 0x3FF
    }

}

} // verus!
