//! The interface of a DMA channel, and the receiving side of a UART transport
//! whose bytes a DMA channel moves into a buffer.
use crate::fifo::{Fifo, DEFAULT_CAPACITY};
use vstd::prelude::*;

verus! {

/// A DMA channel of a device: a source, a destination, a length, and a
/// transfer that can be started, stopped and watched.
pub trait DmaChannel {
    /// Where the channel writes the bytes it moves.
    spec fn dma_destination(&self) -> usize;

    /// How many bytes a transfer moves.
    spec fn dma_length(&self) -> usize;

    /// What `dma_in_progress` reports now.
    spec fn dma_running(&self) -> bool;

    /// What `dma_num_bytes_transferred` reports now.
    spec fn dma_transferred(&self) -> usize;

    /// Whatever the device needs done before it can use DMA.
    fn dma_device_init(&mut self);

    /// Bytes are written starting at `address`.
    fn dma_set_destination_address(&mut self, address: usize)
        ensures
            final(self).dma_destination() == address,
    ;

    /// Bytes are read starting at `address`.
    fn dma_set_source_address(&mut self, address: usize);

    /// How many bytes to transfer; the destination stays.
    fn dma_set_transfer_length(&mut self, len: usize)
        ensures
            final(self).dma_length() == len,
            final(self).dma_destination() == old(self).dma_destination(),
    ;

    /// Starts a transfer to the destination and length set.
    fn dma_start(&mut self)
        ensures
            final(self).dma_length() == old(self).dma_length(),
            final(self).dma_destination() == old(self).dma_destination(),
    ;

    fn dma_stop(&mut self);

    /// Whether a transfer is under way; asking leaves the byte count alone.
    fn dma_in_progress(&mut self) -> (r: bool)
        ensures
            r == old(self).dma_running(),
            final(self).dma_transferred() == old(self).dma_transferred(),
    ;

    fn dma_num_bytes_transferred(&mut self) -> (r: usize)
        ensures
            r == old(self).dma_transferred(),
    ;
}

/// A call the receiver makes on its channel.
#[derive(Debug, Clone, Copy, PartialEq, Eq, Structural)]
pub enum DmaCall {
    Init,
    Destination(usize),
    Length(usize),
    Start,
    Stop,
}

/// The calls that set the channel up for a fresh transfer into the buffer at
/// `address`, `length` bytes long, and start it, in order.
pub open spec fn restart_calls(address: usize, length: usize) -> Seq<DmaCall> {
    seq![DmaCall::Init, DmaCall::Destination(address), DmaCall::Length(length), DmaCall::Start]
}

/// `times` rounds of a stop followed by a restart.
pub open spec fn stop_restarts(times: nat, address: usize, length: usize) -> Seq<DmaCall>
    decreases times,
{
    if times == 0 {
        Seq::empty()
    } else {
        stop_restarts((times - 1) as nat, address, length).push(DmaCall::Stop) + restart_calls(address, length)
    }
}

/// The calls that carry out an action.
pub open spec fn action_calls(action: DmaAction, address: usize, length: usize) -> Seq<DmaCall> {
    match action {
        DmaAction::Start => restart_calls(address, length),
        DmaAction::StopAndRestart(times) => stop_restarts(times as nat, address, length),
        DmaAction::Nothing => Seq::empty(),
    }
}

/// How many sentinels (zero bytes) `s` holds.
pub open spec fn sentinel_count(s: Seq<u8>) -> nat
    decreases s.len(),
{
    if s.len() == 0 {
        0
    } else {
        sentinel_count(s.drop_last()) + if s.last() == 0 {
            1nat
        } else {
            0nat
        }
    }
}

/// `s` repeated `k` times.
pub open spec fn repeat(s: Seq<u8>, k: nat) -> Seq<u8>
    decreases k,
{
    if k == 0 {
        Seq::empty()
    } else {
        repeat(s, (k - 1) as nat) + s
    }
}

/// What the received bytes add to the message buffer: for each sentinel among
/// them, every received byte but the last.
pub open spec fn dma_collected(received: Seq<u8>) -> Seq<u8> {
    repeat(received.drop_last(), sentinel_count(received))
}

proof fn lemma_repeat_monotonic(s: Seq<u8>, a: nat, b: nat)
    requires
        a <= b,
    ensures
        repeat(s, a).len() <= repeat(s, b).len(),
    decreases b,
{
    if a < b {
        lemma_repeat_monotonic(s, a, (b - 1) as nat);
    }
}

proof fn lemma_count_prefix(s: Seq<u8>, i: int)
    requires
        0 <= i < s.len(),
    ensures
        sentinel_count(s.take(i + 1)) == sentinel_count(s.take(i)) + if s[i] == 0 {
            1nat
        } else {
            0nat
        },
{
    assert(s.take(i + 1).drop_last() =~= s.take(i));
}

proof fn lemma_count_le_len(s: Seq<u8>)
    ensures
        sentinel_count(s) <= s.len(),
    decreases s.len(),
{
    if s.len() > 0 {
        lemma_count_le_len(s.drop_last());
    }
}

proof fn lemma_count_monotonic(s: Seq<u8>, i: int, j: int)
    requires
        0 <= i <= j <= s.len(),
    ensures
        sentinel_count(s.take(i)) <= sentinel_count(s.take(j)),
    decreases j - i,
{
    if i < j {
        lemma_count_prefix(s, j - 1);
        lemma_count_monotonic(s, i, j - 1);
    }
}

/// Appends to the message buffer what the received bytes carry (see
/// [`dma_collected`]); returns how many sentinels they held.
pub fn collect_dma_bytes(internal: &mut Fifo<u8>, received: &[u8]) -> (found: usize)
    requires
        old(internal).wf(),
        old(internal)@.len() + dma_collected(received@).len() <= old(internal).spec_capacity(),
    ensures
        final(internal).wf(),
        final(internal).spec_capacity() == old(internal).spec_capacity(),
        final(internal)@ == old(internal)@ + dma_collected(received@),
        found == sentinel_count(received@),
{
    let n = received.len();
    let ghost body = received@.drop_last();
    let mut found: usize = 0;
    let mut i: usize = 0;
    proof {
        assert(received@.take(0) =~= Seq::<u8>::empty());
        assert(received@.take(n as int) =~= received@);
    }
    while i < n
        invariant
            0 <= i <= n,
            n == received@.len(),
            body == received@.drop_last(),
            internal.wf(),
            internal.spec_capacity() == old(internal).spec_capacity(),
            found == sentinel_count(received@.take(i as int)),
            internal@ == old(internal)@ + repeat(body, found as nat),
            old(internal)@.len() + repeat(body, sentinel_count(received@)).len()
                <= old(internal).spec_capacity(),
            received@.take(n as int) == received@,
        decreases n - i,
    {
        proof {
            lemma_count_prefix(received@, i as int);
            lemma_count_monotonic(received@, i + 1, n as int);
            lemma_count_monotonic(received@, 0, i as int);
            lemma_count_le_len(received@.take(i + 1));
        }
        if received[i] == 0 {
            let ghost before = internal@;
            proof {
                lemma_repeat_monotonic(body, (found + 1) as nat, sentinel_count(received@));
                assert(sentinel_count(received@.take(0)) == 0);
            }
            let mut j: usize = 0;
            while j < n - 1
                invariant
                    0 <= j <= n - 1,
                    n == received@.len(),
                    n >= 1,
                    body == received@.drop_last(),
                    internal.wf(),
                    internal.spec_capacity() == old(internal).spec_capacity(),
                    internal@ == before + body.take(j as int),
                    before.len() + body.len() <= internal.spec_capacity(),
                decreases n - 1 - j,
            {
                proof {
                    internal.lemma_bounds();
                }
                let _ = internal.push(received[j]);
                assert(body.take(j + 1) =~= body.take(j as int).push(received@[j as int]));
                j = j + 1;
            }
            assert(body.take((n - 1) as int) =~= body);
            found = found + 1;
        }
        i = i + 1;
    }
    found
}

/// What the channel has to be told after a look at a transfer.
#[derive(Debug, Clone, Copy, PartialEq, Eq, Structural)]
pub enum DmaAction {
    /// No transfer was under way: start one.
    Start,
    /// A message was collected: stop and restart the transfer this many times
    /// (once per sentinel found).
    StopAndRestart(usize),
    /// Leave the transfer running.
    Nothing,
}

/// The bytes of the DMA buffer that the channel reports as transferred (a
/// count beyond the buffer is cut to its length).
pub open spec fn dma_received(reported: usize, buf: Seq<u8>) -> Seq<u8> {
    buf.take(
        if reported <= buf.len() {
            reported as int
        } else {
            buf.len() as int
        },
    )
}

/// What a look at a transfer amounts to, for a message buffer of capacity
/// `cap` holding `before` (and `after` once done), given whether a transfer
/// was under way (`busy`), the byte count the channel reported and the DMA
/// buffer: with no transfer one is started and there is no message; a transfer
/// whose bytes hold a sentinel, and whose collected bytes fit, gives the
/// message (the buffered bytes plus [`dma_collected`]) and a stop and restart
/// per sentinel; otherwise there is no message and nothing changes.
pub open spec fn dma_outcome(
    before: Seq<u8>,
    cap: nat,
    busy: bool,
    reported: usize,
    buf: Seq<u8>,
    action: DmaAction,
    r: Result<Fifo<u8>, Option<u32>>,
    after: Seq<u8>,
) -> bool {
    if !busy {
        &&& action == DmaAction::Start
        &&& r matches Err(None)
        &&& after == before
    } else {
        let rec = dma_received(reported, buf);
        if before.len() + dma_collected(rec).len() <= cap && sentinel_count(rec) > 0 {
            &&& action == DmaAction::StopAndRestart(sentinel_count(rec) as usize)
            &&& r matches Ok(m)
            &&& m.wf()
            &&& m@ == before + dma_collected(rec)
            &&& after == Seq::<u8>::empty()
        } else {
            &&& action == DmaAction::Nothing
            &&& r matches Err(None)
            &&& after == before
        }
    }
}

/// What a look at a transfer tells the channel to do (see [`dma_outcome`]).
pub open spec fn dma_action(before: Seq<u8>, cap: nat, busy: bool, reported: usize, buf: Seq<u8>) -> DmaAction {
    if !busy {
        DmaAction::Start
    } else {
        let rec = dma_received(reported, buf);
        if before.len() + dma_collected(rec).len() <= cap && sentinel_count(rec) > 0 {
            DmaAction::StopAndRestart(sentinel_count(rec) as usize)
        } else {
            DmaAction::Nothing
        }
    }
}

/// Whether what `received` carries fits in the message buffer `internal`.
fn dma_fits(internal: &Fifo<u8>, received: &Vec<u8>) -> (r: bool)
    requires
        internal.wf(),
    ensures
        r == (internal@.len() + dma_collected(received@).len() <= internal.spec_capacity()),
{
    proof {
        internal.lemma_bounds();
    }
    let n = received.len();
    let per = if n == 0 {
        0
    } else {
        n - 1
    };
    let room = internal.remaining();
    // Count sentinels while the running total still fits.
    let mut total: usize = 0;
    let mut i: usize = 0;
    let mut count: usize = 0;
    while i < n
        invariant
            0 <= i <= n,
            n == received@.len(),
            per == received@.drop_last().len() || n == 0,
            count == sentinel_count(received@.take(i as int)),
            total == repeat(received@.drop_last(), count as nat).len(),
            total <= room,
            room == internal.spec_capacity() - internal@.len(),
        decreases n - i,
    {
        proof {
            lemma_count_prefix(received@, i as int);
            lemma_count_le_len(received@.take(i + 1));
        }
        if received[i] == 0 {
            if per > room - total {
                proof {
                    lemma_count_monotonic(received@, i + 1, n as int);
                    assert(received@.take(n as int) =~= received@);
                    lemma_repeat_monotonic(
                        received@.drop_last(),
                        (count + 1) as nat,
                        sentinel_count(received@),
                    );
                }
                return false;
            }
            total = total + per;
            count = count + 1;
        }
        i = i + 1;
    }
    assert(received@.take(n as int) =~= received@);
    true
}

/// Decides what a look at a transfer gives (see [`dma_outcome`]), from whether
/// a transfer was under way, the byte count the channel reported and the DMA
/// buffer; the message buffer `internal` is updated accordingly.
pub fn take_transfer(internal: &mut Fifo<u8>, busy: bool, reported: usize, dma_buffer: &[u8]) -> (r: (
    DmaAction,
    Result<Fifo<u8>, Option<u32>>,
))
    requires
        old(internal).wf(),
    ensures
        final(internal).wf(),
        final(internal).spec_capacity() == old(internal).spec_capacity(),
        dma_outcome(
            old(internal)@,
            old(internal).spec_capacity(),
            busy,
            reported,
            dma_buffer@,
            r.0,
            r.1,
            final(internal)@,
        ),
{
    if !busy {
        return (DmaAction::Start, Err(None));
    }
    let n = if reported <= dma_buffer.len() {
        reported
    } else {
        dma_buffer.len()
    };
    let mut received: Vec<u8> = Vec::new();
    let mut k: usize = 0;
    while k < n
        invariant
            0 <= k <= n <= dma_buffer@.len(),
            received@ == dma_buffer@.take(k as int),
        decreases n - k,
    {
        received.push(dma_buffer[k]);
        assert(received@ =~= dma_buffer@.take(k + 1));
        k = k + 1;
    }
    assert(received@ == dma_received(reported, dma_buffer@));
    if !dma_fits(internal, &received) {
        return (DmaAction::Nothing, Err(None));
    }
    let found = collect_dma_bytes(internal, received.as_slice());
    if found == 0 {
        assert(dma_collected(received@) =~= Seq::<u8>::empty());
        assert(internal@ =~= old(internal)@);
        return (DmaAction::Nothing, Err(None));
    }
    proof {
        internal.lemma_bounds();
    }
    let capacity = internal.capacity();
    let mut fresh = Fifo::with_capacity(capacity);
    core::mem::swap(&mut fresh, internal);
    (DmaAction::StopAndRestart(found), Ok(fresh))
}

/// The receiving side of a UART transport whose incoming bytes a DMA channel
/// writes into a buffer at `dma_buffer_address`.
pub struct DmaReceiver<T: DmaChannel> {
    dma_unit: T,
    internal_buffer: Fifo<u8>,
    dma_buffer_address: usize,
    dma_transfer_length: usize,
    /// The calls this receiver has made on the channel since it was made,
    /// beyond the questions it asks.
    calls: Ghost<Seq<DmaCall>>,
}

impl<T: DmaChannel> DmaReceiver<T> {
    pub closed spec fn buffered(&self) -> Seq<u8> {
        self.internal_buffer@
    }

    /// The channel, as the receiver holds it.
    pub closed spec fn channel(&self) -> T {
        self.dma_unit
    }

    pub closed spec fn buffer_address(&self) -> usize {
        self.dma_buffer_address
    }

    pub closed spec fn transfer_length(&self) -> usize {
        self.dma_transfer_length
    }

    pub closed spec fn calls(&self) -> Seq<DmaCall> {
        self.calls@
    }

    pub closed spec fn wf(&self) -> bool {
        &&& self.internal_buffer.wf()
        &&& self.internal_buffer.spec_capacity() == DEFAULT_CAPACITY
    }

    /// A receiver over `dma_unit`, whose transfers go to the buffer at
    /// `dma_buffer_address`, `dma_transfer_length` bytes long.
    pub fn new(dma_unit: T, dma_buffer_address: usize, dma_transfer_length: usize) -> (r: DmaReceiver<T>)
        ensures
            r.wf(),
            r.buffered() == Seq::<u8>::empty(),
            r.channel() == dma_unit,
            r.buffer_address() == dma_buffer_address,
            r.transfer_length() == dma_transfer_length,
            r.calls() == Seq::<DmaCall>::empty(),
    {
        DmaReceiver {
            dma_unit,
            internal_buffer: Fifo::new(),
            dma_buffer_address,
            dma_transfer_length,
            calls: Ghost(Seq::empty()),
        }
    }

    /// Sets the channel up for a fresh transfer into the buffer and starts it.
    fn restart(&mut self)
        ensures
            final(self).internal_buffer == old(self).internal_buffer,
            final(self).dma_buffer_address == old(self).dma_buffer_address,
            final(self).dma_transfer_length == old(self).dma_transfer_length,
            final(self).calls@ == old(self).calls@ + restart_calls(
                old(self).dma_buffer_address,
                old(self).dma_transfer_length,
            ),
            final(self).dma_unit.dma_destination() == old(self).dma_buffer_address,
            final(self).dma_unit.dma_length() == old(self).dma_transfer_length,
    {
        self.dma_unit.dma_device_init();
        self.dma_unit.dma_set_destination_address(self.dma_buffer_address);
        self.dma_unit.dma_set_transfer_length(self.dma_transfer_length);
        self.dma_unit.dma_start();
        proof {
            self.calls@ = self.calls@ + restart_calls(self.dma_buffer_address, self.dma_transfer_length);
        }
    }

    /// Looks for a complete message: asks the channel whether a transfer is
    /// under way and, if so, how many bytes it moved, lets [`take_transfer`]
    /// decide, and tells the channel what that decided (start a transfer, or
    /// stop and restart it once per sentinel). `dma_buffer` holds what the
    /// channel wrote.
    pub fn get(&mut self, dma_buffer: &[u8]) -> (r: Result<Fifo<u8>, Option<u32>>)
        requires
            old(self).wf(),
        ensures
            final(self).wf(),
            final(self).buffer_address() == old(self).buffer_address(),
            final(self).transfer_length() == old(self).transfer_length(),
            ({
                let busy = old(self).channel().dma_running();
                let reported = if busy {
                    old(self).channel().dma_transferred()
                } else {
                    0
                };
                let action = dma_action(
                    old(self).buffered(),
                    DEFAULT_CAPACITY as nat,
                    busy,
                    reported,
                    dma_buffer@,
                );
                &&& dma_outcome(
                    old(self).buffered(),
                    DEFAULT_CAPACITY as nat,
                    busy,
                    reported,
                    dma_buffer@,
                    action,
                    r,
                    final(self).buffered(),
                )
                &&& final(self).calls() == old(self).calls() + action_calls(
                    action,
                    old(self).buffer_address(),
                    old(self).transfer_length(),
                )
                &&& final(self).calls() != old(self).calls() ==> final(self).channel().dma_destination()
                    == old(self).buffer_address() && final(self).channel().dma_length()
                    == old(self).transfer_length()
            }),
    {
        let busy = self.dma_unit.dma_in_progress();
        let reported = if busy {
            self.dma_unit.dma_num_bytes_transferred()
        } else {
            0
        };
        let (action, r) = take_transfer(&mut self.internal_buffer, busy, reported, dma_buffer);
        let ghost after = self.internal_buffer@;
        let ghost calls0 = self.calls@;
        match action {
            DmaAction::Start => self.restart(),
            DmaAction::StopAndRestart(times) => {
                let mut stops: usize = 0;
                while stops < times
                    invariant
                        self.wf(),
                        self.internal_buffer@ == after,
                        0 <= stops <= times,
                        self.calls@ == calls0 + stop_restarts(
                            stops as nat,
                            self.dma_buffer_address,
                            self.dma_transfer_length,
                        ),
                        self.dma_buffer_address == old(self).dma_buffer_address,
                        self.dma_transfer_length == old(self).dma_transfer_length,
                        stops > 0 ==> self.dma_unit.dma_destination() == self.dma_buffer_address
                            && self.dma_unit.dma_length() == self.dma_transfer_length,
                    decreases times - stops,
                {
                    self.dma_unit.dma_stop();
                    proof {
                        self.calls@ = self.calls@.push(DmaCall::Stop);
                    }
                    self.restart();
                    stops = stops + 1;
                    proof {
                        let a = self.dma_buffer_address;
                        let l = self.dma_transfer_length;
                        assert(self.calls@ =~= calls0 + stop_restarts(stops as nat, a, l));
                    }
                }
            },
            DmaAction::Nothing => {},
        }
        assert(self.calls@ =~= old(self).calls@ + action_calls(
            action,
            old(self).dma_buffer_address,
            old(self).dma_transfer_length,
        ));
        assert(dma_outcome(
            old(self).buffered(),
            DEFAULT_CAPACITY as nat,
            busy,
            reported,
            dma_buffer@,
            action,
            r,
            self.buffered(),
        ));
        r
    }
}

} // verus!
