//! Power data objects: the three sink capability layouts and their 32-bit encoding.
use vstd::prelude::*;
use crate::bits::{
    bit, field, lemma_set_bit_keeps_tag, lemma_set_field_keeps_tag, lemma_tag_values, set_bit, set_field,
    tag,
};

verus! {

/// Fast role swap support of a fixed supply.
#[derive(Clone, Copy, Debug, PartialEq, Eq, Structural)]
pub enum FastSwapSupport {
    /// Fast role swap is not supported.
    NotSupported,
    /// Default USB power.
    DefaultUsb,
    /// 1.5 A at 5 V.
    _1A5_5V,
    /// 3.0 A at 5 V.
    _3A0_5V,
}

impl FastSwapSupport {
    /// The two-bit field value.
    pub open spec fn code(self) -> u32 {
        match self {
            FastSwapSupport::NotSupported => 0,
            FastSwapSupport::DefaultUsb => 1,
            FastSwapSupport::_1A5_5V => 2,
            FastSwapSupport::_3A0_5V => 3,
        }
    }
}

impl Default for FastSwapSupport {
    fn default() -> (r: Self)
        ensures
            r == FastSwapSupport::NotSupported,
    {
        FastSwapSupport::NotSupported
    }
}

impl From<FastSwapSupport> for u32 {
    fn from(f: FastSwapSupport) -> (r: u32)
        ensures
            r == f.code(),
    {
        match f {
            FastSwapSupport::NotSupported => 0,
            FastSwapSupport::DefaultUsb => 1,
            FastSwapSupport::_1A5_5V => 2,
            FastSwapSupport::_3A0_5V => 3,
        }
    }
}

impl vstd::std_specs::convert::FromSpecImpl<FastSwapSupport> for u32 {
    open spec fn obeys_from_spec() -> bool {
        true
    }

    open spec fn from_spec(f: FastSwapSupport) -> u32 {
        f.code()
    }
}

/// A fixed supply PDO: tag `00`, five flags, fast role swap support, voltage in 50 mV units and
/// current in 10 mA units.
#[derive(Clone, Copy, Debug, PartialEq, Eq, Structural)]
pub struct FixedPdo(u32);

impl FixedPdo {
    /// The encoded word.
    pub closed spec fn word(self) -> u32 {
        self.0
    }

    /// The tag bits hold the fixed tag.
    pub open spec fn wf(self) -> bool {
        tag(self.word()) == 0
    }

    /// The encoded word.
    pub fn bits(&self) -> (r: u32)
        ensures
            r == self.word(),
    {
        self.0
    }

    /// The tag bits, always zero for a fixed supply.
    pub fn fixed(&self) -> (r: u32)
        ensures
            r == field(self.word(), 30, 3),
    {
        (self.0 >> 30) & 3
    }

    /// Dual-role power: the sink can also act as a source.
    pub fn dual_role_power(&self) -> (r: bool)
        ensures
            r == bit(self.word(), 29),
    {
        (self.0 >> 29) & 1 == 1
    }

    /// Sets the dual role power flag.
    pub fn set_dual_role_power(&mut self, value: bool)
        ensures
            final(self).word() == set_bit(old(self).word(), 29, value),
    {
        if value {
            self.0 = self.0 | (1u32 << 29u32);
        } else {
            self.0 = self.0 & !(1u32 << 29u32);
        }
    }

    /// The sink needs more than vSafe5V for full functionality.
    pub fn higher_capability(&self) -> (r: bool)
        ensures
            r == bit(self.word(), 28),
    {
        (self.0 >> 28) & 1 == 1
    }

    /// Sets the higher capability flag.
    pub fn set_higher_capability(&mut self, value: bool)
        ensures
            final(self).word() == set_bit(old(self).word(), 28, value),
    {
        if value {
            self.0 = self.0 | (1u32 << 28u32);
        } else {
            self.0 = self.0 & !(1u32 << 28u32);
        }
    }

    /// An external power source is available.
    pub fn unconstrained_power(&self) -> (r: bool)
        ensures
            r == bit(self.word(), 27),
    {
        (self.0 >> 27) & 1 == 1
    }

    /// Sets the unconstrained power flag.
    pub fn set_unconstrained_power(&mut self, value: bool)
        ensures
            final(self).word() == set_bit(old(self).word(), 27, value),
    {
        if value {
            self.0 = self.0 | (1u32 << 27u32);
        } else {
            self.0 = self.0 & !(1u32 << 27u32);
        }
    }

    /// The sink can communicate over USB.
    pub fn usb_communications_capable(&self) -> (r: bool)
        ensures
            r == bit(self.word(), 26),
    {
        (self.0 >> 26) & 1 == 1
    }

    /// Sets the usb communications capable flag.
    pub fn set_usb_communications_capable(&mut self, value: bool)
        ensures
            final(self).word() == set_bit(old(self).word(), 26, value),
    {
        if value {
            self.0 = self.0 | (1u32 << 26u32);
        } else {
            self.0 = self.0 & !(1u32 << 26u32);
        }
    }

    /// Dual-role data: the sink can also act as a data host.
    pub fn dual_role_data(&self) -> (r: bool)
        ensures
            r == bit(self.word(), 25),
    {
        (self.0 >> 25) & 1 == 1
    }

    /// Sets the dual role data flag.
    pub fn set_dual_role_data(&mut self, value: bool)
        ensures
            final(self).word() == set_bit(old(self).word(), 25, value),
    {
        if value {
            self.0 = self.0 | (1u32 << 25u32);
        } else {
            self.0 = self.0 & !(1u32 << 25u32);
        }
    }

    /// Fast role swap support, bits 24:23.
    pub fn fast_role_swap(&self) -> (r: u32)
        ensures
            r == field(self.word(), 23, 3),
    {
        (self.0 >> 23) & 3
    }

    /// Sets the fast role swap field to the low bits of `value`.
    pub fn set_fast_role_swap(&mut self, value: u32)
        ensures
            final(self).word() == set_field(old(self).word(), 23, 3, value),
    {
        self.0 = (self.0 & !(3u32 << 23u32)) | ((value & 3) << 23u32);
    }

    /// The reserved bits 22:20.
    pub fn reserved(&self) -> (r: u32)
        ensures
            r == field(self.word(), 20, 7),
    {
        (self.0 >> 20) & 7
    }

    /// Voltage in 50 mV units, bits 19:10.
    pub fn voltage(&self) -> (r: u32)
        ensures
            r == field(self.word(), 10, 0x3FF),
    {
        (self.0 >> 10) & 0x3FF
    }

    /// Sets the voltage field to the low bits of `value`.
    pub fn set_voltage(&mut self, value: u32)
        ensures
            final(self).word() == set_field(old(self).word(), 10, 0x3FF, value),
    {
        self.0 = (self.0 & !(0x3FFu32 << 10u32)) | ((value & 0x3FF) << 10u32);
    }

    /// Operational current in 10 mA units, bits 9:0.
    pub fn current(&self) -> (r: u32)
        ensures
            r == field(self.word(), 0, 0x3FF),
    {
        (self.0 >> 0) & 0x3FF
    }

    /// Sets the current field to the low bits of `value`.
    pub fn set_current(&mut self, value: u32)
        ensures
            final(self).word() == set_field(old(self).word(), 0, 0x3FF, value),
    {
        self.0 = (self.0 & !(0x3FFu32 << 0u32)) | ((value & 0x3FF) << 0u32);
    }

    /// A fixed supply PDO of `voltage` (50 mV units) and `current` (10 mA units), each cut to its
    /// low ten bits, with every flag clear.
    pub fn new(voltage: u16, current: u16) -> (r: FixedPdo)
        ensures
            r.word() == fixed_word(voltage as u32, current as u32),
            r.wf(),
    {
        let mut pdo = FixedPdo::default();
        pdo.set_voltage(voltage as u32);
        pdo.set_current(current as u32);
        proof {
            lemma_tag_values(0);
            lemma_set_field_keeps_tag(0, 10, voltage as u32);
            lemma_set_field_keeps_tag(set_field(0, 10, 0x3FF, voltage as u32), 0, current as u32);
        }
        pdo
    }
}

impl Default for FixedPdo {
    fn default() -> (r: Self)
        ensures
            r.word() == 0,
    {
        FixedPdo(0)
    }
}

/// The word of a fixed supply PDO with the given voltage and current fields and no flag set.
pub open spec fn fixed_word(voltage: u32, current: u32) -> u32 {
    set_field(set_field(0, 10, 0x3FF, voltage), 0, 0x3FF, current)
}

/// A variable supply PDO: tag `01`, maximum and minimum voltage in 50 mV units and current in
/// 10 mA units.
#[derive(Clone, Copy, Debug, PartialEq, Eq, Structural)]
pub struct VariablePdo(u32);

impl VariablePdo {
    /// The encoded word.
    pub closed spec fn word(self) -> u32 {
        self.0
    }

    /// The tag bits hold the variable tag.
    pub open spec fn wf(self) -> bool {
        tag(self.word()) == 1
    }

    /// The encoded word.
    pub fn bits(&self) -> (r: u32)
        ensures
            r == self.word(),
    {
        self.0
    }

    /// Maximum voltage in 50 mV units, bits 29:20.
    pub fn max_voltage(&self) -> (r: u32)
        ensures
            r == field(self.word(), 20, 0x3FF),
    {
        (self.0 >> 20) & 0x3FF
    }

    /// Sets the max voltage field to the low bits of `value`.
    pub fn set_max_voltage(&mut self, value: u32)
        ensures
            final(self).word() == set_field(old(self).word(), 20, 0x3FF, value),
    {
        self.0 = (self.0 & !(0x3FFu32 << 20u32)) | ((value & 0x3FF) << 20u32);
    }

    /// Minimum voltage in 50 mV units, bits 19:10.
    pub fn min_voltage(&self) -> (r: u32)
        ensures
            r == field(self.word(), 10, 0x3FF),
    {
        (self.0 >> 10) & 0x3FF
    }

    /// Sets the min voltage field to the low bits of `value`.
    pub fn set_min_voltage(&mut self, value: u32)
        ensures
            final(self).word() == set_field(old(self).word(), 10, 0x3FF, value),
    {
        self.0 = (self.0 & !(0x3FFu32 << 10u32)) | ((value & 0x3FF) << 10u32);
    }

    /// Operational current in 10 mA units, bits 9:0.
    pub fn current(&self) -> (r: u32)
        ensures
            r == field(self.word(), 0, 0x3FF),
    {
        (self.0 >> 0) & 0x3FF
    }

    /// Sets the current field to the low bits of `value`.
    pub fn set_current(&mut self, value: u32)
        ensures
            final(self).word() == set_field(old(self).word(), 0, 0x3FF, value),
    {
        self.0 = (self.0 & !(0x3FFu32 << 0u32)) | ((value & 0x3FF) << 0u32);
    }

}

impl Default for VariablePdo {
    fn default() -> (r: Self)
        ensures
            r.word() == 0x40000000,
            r.wf(),
    {
        proof {
            lemma_tag_values(0);
        }
        VariablePdo(0x40000000)
    }
}

/// A battery supply PDO: tag `10`, maximum and minimum voltage in 50 mV units and power in
/// 250 mW units.
#[derive(Clone, Copy, Debug, PartialEq, Eq, Structural)]
pub struct BatteryPdo(u32);

impl BatteryPdo {
    /// The encoded word.
    pub closed spec fn word(self) -> u32 {
        self.0
    }

    /// The tag bits hold the battery tag.
    pub open spec fn wf(self) -> bool {
        tag(self.word()) == 2
    }

    /// The encoded word.
    pub fn bits(&self) -> (r: u32)
        ensures
            r == self.word(),
    {
        self.0
    }

    /// Maximum voltage in 50 mV units, bits 29:20.
    pub fn max_voltage(&self) -> (r: u32)
        ensures
            r == field(self.word(), 20, 0x3FF),
    {
        (self.0 >> 20) & 0x3FF
    }

    /// Sets the max voltage field to the low bits of `value`.
    pub fn set_max_voltage(&mut self, value: u32)
        ensures
            final(self).word() == set_field(old(self).word(), 20, 0x3FF, value),
    {
        self.0 = (self.0 & !(0x3FFu32 << 20u32)) | ((value & 0x3FF) << 20u32);
    }

    /// Minimum voltage in 50 mV units, bits 19:10.
    pub fn min_voltage(&self) -> (r: u32)
        ensures
            r == field(self.word(), 10, 0x3FF),
    {
        (self.0 >> 10) & 0x3FF
    }

    /// Sets the min voltage field to the low bits of `value`.
    pub fn set_min_voltage(&mut self, value: u32)
        ensures
            final(self).word() == set_field(old(self).word(), 10, 0x3FF, value),
    {
        self.0 = (self.0 & !(0x3FFu32 << 10u32)) | ((value & 0x3FF) << 10u32);
    }

    /// Operational power in 250 mW units, bits 9:0.
    pub fn power(&self) -> (r: u32)
        ensures
            r == field(self.word(), 0, 0x3FF),
    {
        (self.0 >> 0) & 0x3FF
    }

    /// Sets the power field to the low bits of `value`.
    pub fn set_power(&mut self, value: u32)
        ensures
            final(self).word() == set_field(old(self).word(), 0, 0x3FF, value),
    {
        self.0 = (self.0 & !(0x3FFu32 << 0u32)) | ((value & 0x3FF) << 0u32);
    }

}

impl Default for BatteryPdo {
    fn default() -> (r: Self)
        ensures
            r.word() == 0x80000000,
            r.wf(),
    {
        proof {
            lemma_tag_values(0);
        }
        BatteryPdo(0x80000000)
    }
}

/// A sink power data object: one of three layouts, told apart by the two most significant bits.
#[derive(Clone, Copy, Debug, PartialEq, Eq, Structural)]
pub enum Pdo {
    Fixed(FixedPdo),
    Variable(VariablePdo),
    Battery(BatteryPdo),
}

/// `r` is what decoding `bits` gives: the layout that the tag names, holding `bits` unchanged, or
/// nothing for the reserved tag `11`.
pub open spec fn decodes_to(bits: u32, r: Option<Pdo>) -> bool {
    match r {
        Some(p) => {
            &&& p.word() == bits
            &&& p.wf()
            &&& tag(bits) != 3
        },
        None => tag(bits) == 3,
    }
}

/// `new` is `old` with flag bit `n` set to `value` when `old` is a fixed supply, and `old` itself
/// otherwise.
pub open spec fn flag_applied(old: Pdo, new: Pdo, n: u32, value: bool) -> bool {
    if old is Fixed {
        &&& new is Fixed
        &&& new.word() == set_bit(old.word(), n, value)
        &&& (old.wf() ==> new.wf())
    } else {
        new == old
    }
}

impl Pdo {
    /// The encoded word.
    pub open spec fn word(self) -> u32 {
        match self {
            Pdo::Fixed(p) => p.word(),
            Pdo::Variable(p) => p.word(),
            Pdo::Battery(p) => p.word(),
        }
    }

    /// The tag bits name the variant.
    pub open spec fn wf(self) -> bool {
        match self {
            Pdo::Fixed(p) => p.wf(),
            Pdo::Variable(p) => p.wf(),
            Pdo::Battery(p) => p.wf(),
        }
    }

    /// A fixed supply PDO of `voltage` (50 mV units) and `current` (10 mA units), each cut to its
    /// low ten bits, with every flag clear.
    pub fn new_fixed(voltage: u16, current: u16) -> (r: Self)
        ensures
            r is Fixed,
            r.word() == fixed_word(voltage as u32, current as u32),
            r.wf(),
    {
        Pdo::Fixed(FixedPdo::new(voltage, current))
    }

    /// Sets the dual-role power flag of a fixed supply; any other PDO is left as it is.
    pub fn dual_role_power(&mut self, dual: bool) -> (r: &mut Self)
        ensures
            flag_applied(*old(self), *r, 29, dual),
            *final(self) == *final(r),
    {
        if let Pdo::Fixed(x) = self {
            x.set_dual_role_power(dual);
            proof {
                lemma_set_bit_keeps_tag(old(self).word(), 29, dual);
            }
        }
        self
    }

    /// Sets the dual-role data flag of a fixed supply; any other PDO is left as it is.
    pub fn dual_role_data(&mut self, dual: bool) -> (r: &mut Self)
        ensures
            flag_applied(*old(self), *r, 25, dual),
            *final(self) == *final(r),
    {
        if let Pdo::Fixed(x) = self {
            x.set_dual_role_data(dual);
            proof {
                lemma_set_bit_keeps_tag(old(self).word(), 25, dual);
            }
        }
        self
    }

    /// Sets the USB communications capable flag of a fixed supply; any other PDO is left as it is.
    pub fn usb_communications_capable(&mut self, capable: bool) -> (r: &mut Self)
        ensures
            flag_applied(*old(self), *r, 26, capable),
            *final(self) == *final(r),
    {
        if let Pdo::Fixed(x) = self {
            x.set_usb_communications_capable(capable);
            proof {
                lemma_set_bit_keeps_tag(old(self).word(), 26, capable);
            }
        }
        self
    }

    /// Sets the higher capability flag of a fixed supply; any other PDO is left as it is.
    pub fn higher_capability(&mut self, capable: bool) -> (r: &mut Self)
        ensures
            flag_applied(*old(self), *r, 28, capable),
            *final(self) == *final(r),
    {
        if let Pdo::Fixed(x) = self {
            x.set_higher_capability(capable);
            proof {
                lemma_set_bit_keeps_tag(old(self).word(), 28, capable);
            }
        }
        self
    }

    /// Sets the unconstrained power flag of a fixed supply; any other PDO is left as it is.
    pub fn unconstrained_power(&mut self, unconstrained: bool) -> (r: &mut Self)
        ensures
            flag_applied(*old(self), *r, 27, unconstrained),
            *final(self) == *final(r),
    {
        if let Pdo::Fixed(x) = self {
            x.set_unconstrained_power(unconstrained);
            proof {
                lemma_set_bit_keeps_tag(old(self).word(), 27, unconstrained);
            }
        }
        self
    }

    /// The encoded word.
    pub fn bits(&self) -> (r: u32)
        ensures
            r == self.word(),
    {
        match self {
            Pdo::Fixed(a) => a.0,
            Pdo::Variable(a) => a.0,
            Pdo::Battery(a) => a.0,
        }
    }

    /// Decodes a word by its tag: `00` fixed, `01` variable, `10` battery, `11` nothing.
    pub fn from_bits(bits: u32) -> (r: Option<Self>)
        ensures
            decodes_to(bits, r),
            r matches Some(p) ==> {
                &&& (p is Fixed <==> tag(bits) == 0)
                &&& (p is Variable <==> tag(bits) == 1)
                &&& (p is Battery <==> tag(bits) == 2)
            },
    {
        proof {
            lemma_tag_values(bits);
        }
        let t = bits >> 30;
        if t == 0 {
            Some(Pdo::Fixed(FixedPdo(bits)))
        } else if t == 1 {
            Some(Pdo::Variable(VariablePdo(bits)))
        } else if t == 2 {
            Some(Pdo::Battery(BatteryPdo(bits)))
        } else {
            None
        }
    }
}

/// Decoding the encoding of a fixed supply PDO built from a ten-bit voltage and current gives a
/// fixed supply PDO with that voltage and current, no fast role swap support and every flag clear.
pub proof fn lemma_fixed_round_trip(voltage: u16, current: u16, decoded: Option<Pdo>)
    requires
        voltage < 1024,
        current < 1024,
        decodes_to(fixed_word(voltage as u32, current as u32), decoded),
    ensures
        decoded matches Some(Pdo::Fixed(f)) && {
            &&& field(f.word(), 10, 0x3FF) == voltage
            &&& field(f.word(), 0, 0x3FF) == current
            &&& field(f.word(), 23, 3) == 0
            &&& !bit(f.word(), 25)
            &&& !bit(f.word(), 26)
            &&& !bit(f.word(), 27)
            &&& !bit(f.word(), 28)
            &&& !bit(f.word(), 29)
        },
{
    let v = voltage as u32;
    let c = current as u32;
    let w = fixed_word(v, c);
    assert(tag(w) == 0 && field(w, 10, 0x3FF) == v && field(w, 0, 0x3FF) == c && field(w, 23, 3) == 0
        && !bit(w, 25) && !bit(w, 26) && !bit(w, 27) && !bit(w, 28) && !bit(w, 29)) by {
        assert(v < 1024 && c < 1024 ==> {
            let w = ((((0u32 & !(0x3FFu32 << 10u32)) | ((v & 0x3FFu32) << 10u32)) & !(0x3FFu32 << 0u32))
                | ((c & 0x3FFu32) << 0u32));
            &&& w >> 30u32 == 0
            &&& (w >> 10u32) & 0x3FFu32 == v
            &&& (w >> 0u32) & 0x3FFu32 == c
            &&& (w >> 23u32) & 3u32 == 0
            &&& (w >> 25u32) & 1u32 != 1
            &&& (w >> 26u32) & 1u32 != 1
            &&& (w >> 27u32) & 1u32 != 1
            &&& (w >> 28u32) & 1u32 != 1
            &&& (w >> 29u32) & 1u32 != 1
        }) by (bit_vector);
    }
}

/// Whatever flags are set on a well-formed fixed supply PDO, its tag bits stay zero.
pub proof fn lemma_fixed_flags_keep_tag(p: Pdo, n: u32, value: bool)
    requires
        p.wf(),
        p is Fixed,
        25 <= n <= 29,
    ensures
        tag(set_bit(p.word(), n, value)) == 0,
{
    lemma_set_bit_keeps_tag(p.word(), n, value);
}

} // verus!
