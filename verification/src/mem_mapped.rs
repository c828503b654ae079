//! The memory mapped device registers: their addresses, interrupt vectors and
//! priorities, and the bit layouts of the PSR and MCR.
use crate::isa::{Addr, Word, MEM_MAPPED_START_ADDR};
use vstd::prelude::*;

verus! {

pub const KBSR_ADDR: Addr = 0xFE00;
pub const KBDR_ADDR: Addr = 0xFE02;

pub const KEYBOARD_INT_VEC: u8 = 0x80;
pub const KEYBOARD_INT_PRIORITY: u8 = 4;

pub const DSR_ADDR: Addr = 0xFE04;
pub const DDR_ADDR: Addr = 0xFE06;

pub const DISPLAY_INT_VEC: u8 = 0x81;
pub const DISPLAY_INT_PRIORITY: u8 = 4;

pub const GPIO_OFFSET: u8 = 0x10;
/// Control register of pin 0 of GPIO bank A; each pin has a control register
/// and a data register, and each bank has eight pins.
pub const GPIO_MEM_MAPPED_BASE: Addr = 0xFE10;
pub const GPIO_BASE_INT_VEC: Addr = 0x0190;
/// Interrupt vector of pin 0 of GPIO bank A; the other pins follow in order.
pub const GA0_INT_VEC: u8 = 0x90;
pub const GPIO_INT_PRIORITY: u8 = 4;

pub const ADC_OFFSET: u8 = 0x40;
pub const ADC_MEM_MAPPED_BASE: Addr = 0xFE40;

pub const PWM_OFFSET: u8 = 0x50;
pub const PWM_MEM_MAPPED_BASE: Addr = 0xFE50;

pub const TIMER_OFFSET: u8 = 0x60;
pub const TIMER_MEM_MAPPED_BASE: Addr = 0xFE60;
pub const TIMER_BASE_INT_VEC: Addr = 0x01E0;
pub const T0_INT_VEC: u8 = 0xE0;
pub const T1_INT_VEC: u8 = 0xE1;
pub const TIMER_INT_PRIORITY: u8 = 4;

pub const MISC_OFFSET: u8 = 0x70;
pub const CLKR_ADDR: Addr = 0xFE70;

/// Whether the address is one of the device registers.
pub open spec fn is_device(a: Addr) -> bool {
    ||| a == KBSR_ADDR
    ||| a == KBDR_ADDR
    ||| a == DSR_ADDR
    ||| a == DDR_ADDR
    ||| (GPIO_MEM_MAPPED_BASE <= a < GPIO_MEM_MAPPED_BASE + 48)
    ||| (ADC_MEM_MAPPED_BASE <= a < ADC_MEM_MAPPED_BASE + 12)
    ||| (PWM_MEM_MAPPED_BASE <= a < PWM_MEM_MAPPED_BASE + 4)
    ||| (TIMER_MEM_MAPPED_BASE <= a < TIMER_MEM_MAPPED_BASE + 4)
    ||| a == CLKR_ADDR
}

pub fn device_register(a: Addr) -> (r: bool)
    ensures
        r == is_device(a),
{
    a == KBSR_ADDR || a == KBDR_ADDR || a == DSR_ADDR || a == DDR_ADDR || (GPIO_MEM_MAPPED_BASE
        <= a && a < GPIO_MEM_MAPPED_BASE + 48) || (ADC_MEM_MAPPED_BASE <= a && a
        < ADC_MEM_MAPPED_BASE + 12) || (PWM_MEM_MAPPED_BASE <= a && a < PWM_MEM_MAPPED_BASE + 4)
        || (TIMER_MEM_MAPPED_BASE <= a && a < TIMER_MEM_MAPPED_BASE + 4) || a == CLKR_ADDR
}

/// The device registers all lie in the device region.
pub proof fn law_devices_in_region(a: Addr)
    requires
        is_device(a),
    ensures
        a >= MEM_MAPPED_START_ADDR,
{
}

/// The PSR's priority field (bits 8 to 10).
pub open spec fn psr_priority(psr: Word) -> Word {
    (psr >> 8u16) & 7
}

/// The PSR with its priority field replaced by the low three bits of `priority`.
pub open spec fn psr_with_priority(psr: Word, priority: u8) -> Word {
    (psr & 0xF8FF) | (((priority as Word) & 7) << 8u16)
}

/// The PSR with its mode bit (bit 15) set for user mode or cleared for supervisor mode.
pub open spec fn psr_with_mode(psr: Word, user: bool) -> Word {
    (psr & 0x7FFF) | (if user {
        0x8000u16
    } else {
        0u16
    })
}

/// The condition code bits (n at bit 2, z at bit 1, p at bit 0) for a result.
pub open spec fn cc_bits(w: Word) -> Word {
    if w >= 0x8000 {
        4
    } else if w == 0 {
        2
    } else {
        1
    }
}

/// The PSR with its condition codes set for the result `w`.
pub open spec fn psr_with_cc(psr: Word, w: Word) -> Word {
    (psr & 0xFFF8) | cc_bits(w)
}

/// Reads of the PSR fields.
pub open spec fn psr_n(psr: Word) -> bool {
    psr & 4 != 0
}

pub open spec fn psr_z(psr: Word) -> bool {
    psr & 2 != 0
}

pub open spec fn psr_p(psr: Word) -> bool {
    psr & 1 != 0
}

pub open spec fn psr_user(psr: Word) -> bool {
    psr & 0x8000 != 0
}

/// The PSR as a value: its fields.
#[derive(Debug, Clone, Copy, PartialEq, Eq, Structural)]
pub struct PSR(pub Word);

impl PSR {
    pub fn get_priority(&self) -> (r: u8)
        ensures
            r == psr_priority(self.0),
    {
        let v = self.0;
        proof {
            assert((v >> 8u16) & 7 < 8) by (bit_vector);
        }
        ((v >> 8u16) & 7) as u8
    }

    pub fn with_priority(&self, priority: u8) -> (r: PSR)
        ensures
            r.0 == psr_with_priority(self.0, priority),
    {
        PSR((self.0 & 0xF8FF) | (((priority as Word) & 7) << 8u16))
    }

    pub fn in_user_mode(&self) -> (r: bool)
        ensures
            r == psr_user(self.0),
    {
        self.0 & 0x8000 != 0
    }

    pub fn in_privileged_mode(&self) -> (r: bool)
        ensures
            r == !psr_user(self.0),
    {
        !self.in_user_mode()
    }

    pub fn with_mode(&self, user: bool) -> (r: PSR)
        ensures
            r.0 == psr_with_mode(self.0, user),
    {
        PSR((self.0 & 0x7FFF) | (if user {
            0x8000u16
        } else {
            0u16
        }))
    }

    pub fn n(&self) -> (r: bool)
        ensures
            r == psr_n(self.0),
    {
        self.0 & 4 != 0
    }

    pub fn z(&self) -> (r: bool)
        ensures
            r == psr_z(self.0),
    {
        self.0 & 2 != 0
    }

    pub fn p(&self) -> (r: bool)
        ensures
            r == psr_p(self.0),
    {
        self.0 & 1 != 0
    }

    pub fn get_cc(&self) -> (r: (bool, bool, bool))
        ensures
            r == (psr_n(self.0), psr_z(self.0), psr_p(self.0)),
    {
        (self.n(), self.z(), self.p())
    }

    pub fn with_cc(&self, word: Word) -> (r: PSR)
        ensures
            r.0 == psr_with_cc(self.0, word),
    {
        let bits: Word = if word >= 0x8000 {
            4
        } else if word == 0 {
            2
        } else {
            1
        };
        PSR((self.0 & 0xFFF8) | bits)
    }
}

/// Setting the condition codes leaves exactly one of n, z, p set, and the one
/// that matches the sign of the result.
pub proof fn law_cc_one_hot(psr: Word, w: Word)
    ensures
        psr_n(psr_with_cc(psr, w)) == (w >= 0x8000),
        psr_z(psr_with_cc(psr, w)) == (w == 0),
        psr_p(psr_with_cc(psr, w)) == (0 < w < 0x8000),
        psr_priority(psr_with_cc(psr, w)) == psr_priority(psr),
        psr_user(psr_with_cc(psr, w)) == psr_user(psr),
{
    let x = psr_with_cc(psr, w);
    if w >= 0x8000 {
        assert(((psr & 0xFFF8) | 4u16) & 4 != 0 && ((psr & 0xFFF8) | 4u16) & 2 == 0 && ((psr
            & 0xFFF8) | 4u16) & 1 == 0) by (bit_vector);
    } else if w == 0 {
        assert(((psr & 0xFFF8) | 2u16) & 4 == 0 && ((psr & 0xFFF8) | 2u16) & 2 != 0 && ((psr
            & 0xFFF8) | 2u16) & 1 == 0) by (bit_vector);
    } else {
        assert(((psr & 0xFFF8) | 1u16) & 4 == 0 && ((psr & 0xFFF8) | 1u16) & 2 == 0 && ((psr
            & 0xFFF8) | 1u16) & 1 != 0) by (bit_vector);
    }
    assert(forall|b: u16|
        b < 8 ==> #[trigger] (((psr & 0xFFF8) | b) >> 8u16) & 7 == (psr >> 8u16) & 7 && (((
        psr & 0xFFF8) | b) & 0x8000 != 0) == (psr & 0x8000 != 0)) by (bit_vector);
}

/// Setting the priority reads back the low three bits of what was set, and
/// leaves the mode and condition codes alone.
pub proof fn law_priority_roundtrip(psr: Word, priority: u8)
    ensures
        psr_priority(psr_with_priority(psr, priority)) == (priority as Word) & 7,
        psr_user(psr_with_priority(psr, priority)) == psr_user(psr),
        psr_with_priority(psr, priority) & 7 == psr & 7,
{
    let p = priority as u16;
    assert((((psr & 0xF8FF) | ((p & 7) << 8u16)) >> 8u16) & 7 == p & 7) by (bit_vector);
    assert((((psr & 0xF8FF) | ((p & 7) << 8u16)) & 0x8000 != 0) == (psr & 0x8000 != 0))
        by (bit_vector);
    assert(((psr & 0xF8FF) | ((p & 7) << 8u16)) & 7 == psr & 7) by (bit_vector);
}

/// Setting the mode reads back what was set and leaves the priority and
/// condition codes alone.
pub proof fn law_mode_roundtrip(psr: Word, user: bool)
    ensures
        psr_user(psr_with_mode(psr, user)) == user,
        psr_priority(psr_with_mode(psr, user)) == psr_priority(psr),
        psr_with_mode(psr, user) & 7 == psr & 7,
{
    assert(((psr & 0x7FFF) | 0x8000u16) & 0x8000 != 0) by (bit_vector);
    assert(((psr & 0x7FFF) | 0u16) & 0x8000 == 0) by (bit_vector);
    assert(forall|b: u16|
        (b == 0 || b == 0x8000) ==> ((#[trigger] ((psr & 0x7FFF) | b)) >> 8u16) & 7 == (psr
            >> 8u16) & 7 && ((psr & 0x7FFF) | b) & 7 == psr & 7) by (bit_vector);
}

/// The MCR: bit 15 says whether the machine is running.
#[derive(Debug, Clone, Copy, PartialEq, Eq, Structural)]
pub struct MCR(pub Word);

impl MCR {
    pub fn is_running(&self) -> (r: bool)
        ensures
            r == (self.0 & 0x8000 != 0),
    {
        self.0 & 0x8000 != 0
    }

    pub fn with_running_bit(&self, bit: bool) -> (r: MCR)
        ensures
            r.0 == ((self.0 & 0x7FFF) | (if bit {
                0x8000u16
            } else {
                0u16
            })),
    {
        MCR((self.0 & 0x7FFF) | (if bit {
            0x8000u16
        } else {
            0u16
        }))
    }
}

} // verus!
