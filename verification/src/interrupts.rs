//! The interrupt sources of the machine, in the order the interpreter polls
//! them (keyboard, display, the eight pins of GPIO bank A, the two timers),
//! and what a poll of each reports.
use crate::interp::gpio_pin_spec;
use crate::peripherals::gpio::GpioPin;
use crate::peripherals::timers::TimerId;
use crate::peripherals::{same_except, DevicePart, DeviceState};
use vstd::prelude::*;

verus! {

/// The number of interrupt sources.
pub const NUM_SOURCES: usize = 12;

/// The device behind source `j`.
pub open spec fn source_part(j: int) -> DevicePart {
    if j == 0 {
        DevicePart::Input
    } else if j == 1 {
        DevicePart::Output
    } else if j < 10 {
        DevicePart::GpioPin(gpio_pin_spec(j - 2))
    } else if j == 10 {
        DevicePart::Timer(TimerId::T0)
    } else {
        DevicePart::Timer(TimerId::T1)
    }
}

/// Whether source `j` has its interrupts enabled.
pub open spec fn source_irq<D: DeviceState>(p: D, j: int) -> bool {
    if j == 0 {
        p.input_irq()
    } else if j == 1 {
        p.output_irq()
    } else if j < 10 {
        p.gpio_irq(gpio_pin_spec(j - 2))
    } else if j == 10 {
        p.timer_irq(TimerId::T0)
    } else {
        p.timer_irq(TimerId::T1)
    }
}

/// Whether a poll of source `j` reports an interrupt.
pub open spec fn source_pending<D: DeviceState>(p: D, j: int) -> bool {
    if j == 0 {
        p.input_pending()
    } else if j == 1 {
        p.output_pending()
    } else if j < 10 {
        p.gpio_pending(gpio_pin_spec(j - 2))
    } else if j == 10 {
        p.timer_pending(TimerId::T0)
    } else {
        p.timer_pending(TimerId::T1)
    }
}

/// Whether source `j` has its interrupt flag up.
pub open spec fn source_flag<D: DeviceState>(p: D, j: int) -> bool {
    if j == 0 {
        p.input_flag()
    } else if j == 1 {
        p.output_flag()
    } else if j < 10 {
        p.gpio_flag(gpio_pin_spec(j - 2))
    } else if j == 10 {
        p.timer_flag(TimerId::T0)
    } else {
        p.timer_flag(TimerId::T1)
    }
}

/// Source `j` asks for an interrupt: its interrupts are enabled and a poll
/// reports one.
pub open spec fn polled<D: DeviceState>(p: D, j: int) -> bool {
    source_irq(p, j) && source_pending(p, j)
}

/// Source `i` is the first, in polling order, that asks for an interrupt.
pub open spec fn first_polled<D: DeviceState>(p: D, i: int) -> bool {
    &&& 0 <= i < NUM_SOURCES
    &&& polled(p, i)
    &&& forall|j: int| 0 <= j < i ==> !#[trigger] polled(p, j)
}

/// No source asks for an interrupt.
pub open spec fn none_polled<D: DeviceState>(p: D) -> bool {
    forall|j: int| 0 <= j < NUM_SOURCES ==> !#[trigger] polled(p, j)
}

/// Source `j` has its flag down, or its interrupts off.
pub open spec fn source_quiet<D: DeviceState>(p: D, j: int) -> bool {
    !source_flag(p, j) || !source_irq(p, j)
}

/// `b` agrees with `a` on what every source from `k` on would answer a poll.
pub open spec fn agree_from<D: DeviceState>(a: D, b: D, k: int) -> bool {
    forall|j: int|
        #![trigger source_irq(b, j)]
        #![trigger source_pending(b, j)]
        k <= j < NUM_SOURCES ==> source_irq(b, j) == source_irq(a, j) && source_pending(b, j)
            == source_pending(a, j)
}

/// At most one source is the first to ask.
pub proof fn lemma_first_unique<D: DeviceState>(p: D, i: int, k: int)
    requires
        first_polled(p, i),
        first_polled(p, k),
    ensures
        i == k,
{
    if i < k {
        assert(!polled(p, i));
    } else if k < i {
        assert(!polled(p, k));
    }
}

/// When source `k` is the first to ask, no other source is.
pub proof fn lemma_only_first<D: DeviceState>(p: D, k: int)
    requires
        first_polled(p, k),
    ensures
        forall|i: int| first_polled(p, i) ==> i == k,
{
    assert forall|i: int| first_polled(p, i) implies i == k by {
        lemma_first_unique(p, i, k);
    }
}

/// Different sources are different devices.
pub proof fn lemma_source_parts_differ(j: int, k: int)
    requires
        0 <= j < NUM_SOURCES,
        0 <= k < NUM_SOURCES,
        j != k,
    ensures
        source_part(j) != source_part(k),
{
}

/// A call that touches only source `k`'s device leaves every other source as
/// it was.
pub proof fn lemma_other_source<D: DeviceState>(a: D, b: D, k: int, j: int)
    requires
        same_except(a, b, source_part(k)),
        0 <= j < NUM_SOURCES,
        0 <= k < NUM_SOURCES,
        j != k,
    ensures
        source_irq(b, j) == source_irq(a, j),
        source_pending(b, j) == source_pending(a, j),
        source_flag(b, j) == source_flag(a, j),
{
    lemma_source_parts_differ(j, k);
    if 2 <= j < 10 {
        let p = gpio_pin_spec(j - 2);
        assert(b.gpio_irq(p) == a.gpio_irq(p));
        assert(b.gpio_pending(p) == a.gpio_pending(p));
        assert(b.gpio_flag(p) == a.gpio_flag(p));
    } else if j == 10 {
        assert(b.timer_irq(TimerId::T0) == a.timer_irq(TimerId::T0));
        assert(b.timer_pending(TimerId::T0) == a.timer_pending(TimerId::T0));
        assert(b.timer_flag(TimerId::T0) == a.timer_flag(TimerId::T0));
    } else if j == 11 {
        assert(b.timer_irq(TimerId::T1) == a.timer_irq(TimerId::T1));
        assert(b.timer_pending(TimerId::T1) == a.timer_pending(TimerId::T1));
        assert(b.timer_flag(TimerId::T1) == a.timer_flag(TimerId::T1));
    }
}

/// A call on source `k`'s device keeps what the later sources would answer.
pub proof fn lemma_keep_later<D: DeviceState>(a: D, b: D, c: D, k: int)
    requires
        agree_from(a, b, k + 1),
        same_except(b, c, source_part(k)),
        0 <= k < NUM_SOURCES,
    ensures
        agree_from(a, c, k + 1),
{
    assert forall|j: int| k + 1 <= j < NUM_SOURCES implies source_irq(c, j) == source_irq(a, j)
        && source_pending(c, j) == source_pending(a, j) by {
        lemma_other_source(b, c, k, j);
        assert(source_irq(b, j) == source_irq(a, j));
        assert(source_pending(b, j) == source_pending(a, j));
    }
}

/// The sources in polling order are the keyboard, the display, GPIO bank A
/// pins 0 to 7 and timers 0 and 1, and what a poll of each reads is that
/// device's own interrupt enable, report and flag.
pub proof fn law_polling_order<D: DeviceState>(p: D)
    ensures
        source_part(0) == DevicePart::Input,
        source_irq(p, 0) == p.input_irq() && source_pending(p, 0) == p.input_pending() && source_flag(p, 0)
            == p.input_flag(),
        source_part(1) == DevicePart::Output,
        source_irq(p, 1) == p.output_irq() && source_pending(p, 1) == p.output_pending() && source_flag(p, 1)
            == p.output_flag(),
        forall|i: int|
            0 <= i < 8 ==> {
                &&& #[trigger] source_part(2 + i) == DevicePart::GpioPin(gpio_pin_spec(i))
                &&& source_irq(p, 2 + i) == p.gpio_irq(gpio_pin_spec(i))
                &&& source_pending(p, 2 + i) == p.gpio_pending(gpio_pin_spec(i))
                &&& source_flag(p, 2 + i) == p.gpio_flag(gpio_pin_spec(i))
            },
        source_part(10) == DevicePart::Timer(TimerId::T0),
        source_irq(p, 10) == p.timer_irq(TimerId::T0) && source_pending(p, 10) == p.timer_pending(TimerId::T0)
            && source_flag(p, 10) == p.timer_flag(TimerId::T0),
        source_part(11) == DevicePart::Timer(TimerId::T1),
        source_irq(p, 11) == p.timer_irq(TimerId::T1) && source_pending(p, 11) == p.timer_pending(TimerId::T1)
            && source_flag(p, 11) == p.timer_flag(TimerId::T1),
        gpio_pin_spec(0) == GpioPin::G0 && gpio_pin_spec(1) == GpioPin::G1 && gpio_pin_spec(2) == GpioPin::G2
            && gpio_pin_spec(3) == GpioPin::G3 && gpio_pin_spec(4) == GpioPin::G4 && gpio_pin_spec(5)
            == GpioPin::G5 && gpio_pin_spec(6) == GpioPin::G6 && gpio_pin_spec(7) == GpioPin::G7,
{
}

} // verus!
