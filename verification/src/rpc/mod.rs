//! Moving messages between a device and a host: the transport interface,
//! message framing, and a transport that also carries console I/O.
use crate::fifo::Fifo;
use vstd::prelude::*;

pub mod charenc;
pub mod dma;
pub mod multiplexed;

verus! {

/// The byte that ends a framed message.
pub const SENTINEL_BYTE: u8 = 0;

/// The messages a transport has sent so far, oldest first.
pub struct SentMessages {
    pub log: Ghost<Seq<Seq<u8>>>,
}

impl SentMessages {
    /// No message sent.
    pub fn none() -> (r: SentMessages)
        ensures
            r.log@ == Seq::<Seq<u8>>::empty(),
    {
        SentMessages { log: Ghost(Seq::empty()) }
    }
}

/// All the bytes of a run of messages, one message after another.
pub open spec fn flatten(msgs: Seq<Seq<u8>>) -> Seq<u8>
    decreases msgs.len(),
{
    if msgs.len() == 0 {
        Seq::empty()
    } else {
        flatten(msgs.drop_last()) + msgs.last()
    }
}

/// Something that moves byte messages: `send` puts one message on the wire,
/// `get` hands back a received message (`Err(None)` when there is none yet).
/// `ready` is the implementation's own consistency condition, which its
/// operations keep; `sent` is the log of the messages sent successfully.
pub trait Transport {
    type RecvErr;
    type SendErr;

    spec fn ready(&self) -> bool;

    /// The messages sent so far (see [`SentMessages`]).
    spec fn sent(&self) -> SentMessages;

    /// Sends one message; a message sent goes on the log, a failed send leaves
    /// the log as it was.
    fn send(&mut self, message: &[u8]) -> (r: Result<(), Self::SendErr>)
        requires
            old(self).ready(),
        ensures
            final(self).ready(),
            r is Ok ==> final(self).sent().log@ == old(self).sent().log@.push(message@),
            r is Err ==> final(self).sent().log@ == old(self).sent().log@,
    ;

    fn get(&mut self) -> (r: Result<Fifo<u8>, Option<Self::RecvErr>>)
        requires
            old(self).ready(),
        ensures
            final(self).ready(),
            final(self).sent().log@ == old(self).sent().log@,
    ;

    fn blocking_get(&mut self) -> (r: Result<Fifo<u8>, Option<Self::RecvErr>>)
        requires
            old(self).ready(),
        ensures
            final(self).ready(),
            final(self).sent().log@ == old(self).sent().log@,
    ;

    /// How many receive errors the transport has counted so far.
    spec fn errors_seen(&self) -> u64;

    fn num_get_errors(&self) -> (r: u64)
        ensures
            r == self.errors_seen(),
    ;
}

/// Where consumed bytes go: it takes a run of bytes, or refuses it. `taken` is
/// the log of the runs taken so far, oldest first.
pub trait ByteSink {
    type Err;

    spec fn taken(&self) -> SentMessages;

    /// A run taken goes on the log; a refused one leaves the log as it was.
    fn accept(&mut self, bytes: &[u8]) -> (r: Result<(), Self::Err>)
        ensures
            r is Ok ==> final(self).taken().log@ == old(self).taken().log@.push(bytes@),
            r is Err ==> final(self).taken().log@ == old(self).taken().log@,
    ;
}

/// `q`, split after its first `n` bytes, was handed to a sink whose log went
/// from `log0` to `log1`: on success both runs, front first; on a refusal
/// either nothing or the front run alone.
pub open spec fn runs_handed(q: Seq<u8>, n: int, log0: Seq<Seq<u8>>, log1: Seq<Seq<u8>>, ok: bool) -> bool {
    if ok {
        log1 == log0.push(q.take(n)).push(q.skip(n))
    } else {
        log1 == log0 || log1 == log0.push(q.take(n))
    }
}

/// Each byte of `s` as a run of its own.
pub open spec fn singletons(s: Seq<u8>) -> Seq<Seq<u8>> {
    Seq::new(s.len(), |i: int| seq![s[i]])
}

/// A message buffer whose contents can be handed to a sink (and are gone
/// afterwards).
pub trait ConsumeData {
    /// The buffer is in a consistent state.
    spec fn ready(&self) -> bool;

    /// Hands the bytes to `sink` one at a time, in order, stopping at the first
    /// refusal.
    fn consume<S: ByteSink>(&mut self, sink: &mut S) -> Result<(), S::Err>
        requires
            old(self).ready(),
    ;

    /// Hands the bytes to `sink` as the (at most two) runs in which they are
    /// stored, stopping at the first refusal.
    fn consume_slice<S: ByteSink>(&mut self, sink: &mut S) -> Result<(), S::Err>
        requires
            old(self).ready(),
    ;
}

/// Hands a queue's contents to `sink` as its two stored runs, front run first
/// (see [`Fifo::front_run_len`]); the queue is emptied once both are taken. The
/// first refusal stops it and leaves the queue as it was.
pub fn consume_slice<S: ByteSink>(fifo: &mut Fifo<u8>, sink: &mut S) -> (r: Result<(), S::Err>)
    requires
        old(fifo).wf(),
    ensures
        final(fifo).wf(),
        final(fifo).spec_capacity() == old(fifo).spec_capacity(),
        r is Ok ==> final(fifo)@ == Seq::<u8>::empty(),
        r is Err ==> final(fifo)@ == old(fifo)@,
        runs_handed(old(fifo)@, old(fifo).front_run_len(), old(sink).taken().log@, final(sink).taken().log@, r is Ok),
{
    let (a, b) = fifo.as_slice();
    proof {
        assert(a@ =~= old(fifo)@.take(old(fifo).front_run_len()));
        assert(b@ =~= old(fifo)@.skip(old(fifo).front_run_len()));
    }
    match sink.accept(a.as_slice()) {
        Ok(()) => {},
        Err(e) => {
            return Err(e);
        },
    }
    match sink.accept(b.as_slice()) {
        Ok(()) => {},
        Err(e) => {
            return Err(e);
        },
    }
    proof {
        fifo.lemma_bounds();
    }
    let n = a.len() + b.len();
    let mut k: usize = 0;
    while k < n
        invariant
            0 <= k <= n,
            n == old(fifo)@.len(),
            fifo.wf(),
            fifo.spec_capacity() == old(fifo).spec_capacity(),
            fifo@ == old(fifo)@.subrange(k as int, n as int),
        decreases n - k,
    {
        let _ = fifo.pop();
        k = k + 1;
    }
    Ok(())
}

/// Hands a queue's bytes to `sink` one at a time, front first. Each byte
/// leaves the queue as it is handed over, so a refusal of byte `k` leaves the
/// bytes after it, with the sink holding the `k` bytes before it.
pub fn consume_bytes<S: ByteSink>(fifo: &mut Fifo<u8>, sink: &mut S) -> (r: Result<(), S::Err>)
    requires
        old(fifo).wf(),
    ensures
        final(fifo).wf(),
        final(fifo).spec_capacity() == old(fifo).spec_capacity(),
        r is Ok ==> final(fifo)@ == Seq::<u8>::empty(),
        r is Ok ==> final(sink).taken().log@ == old(sink).taken().log@ + singletons(old(fifo)@),
        r is Err ==> exists|k: int|
            0 <= k < old(fifo)@.len() && final(fifo)@ == #[trigger] old(fifo)@.subrange(
                k + 1,
                old(fifo)@.len() as int,
            ) && final(sink).taken().log@ == old(sink).taken().log@ + singletons(old(fifo)@.take(k)),
{
    let ghost n = old(fifo)@.len();
    let mut k: usize = 0;
    proof {
        fifo.lemma_bounds();
        assert(old(fifo)@.subrange(0, n as int) =~= old(fifo)@);
    }
    while !fifo.is_empty()
        invariant
            fifo.wf(),
            fifo.spec_capacity() == old(fifo).spec_capacity(),
            0 <= k <= n,
            n == old(fifo)@.len(),
            n <= 0xFFFF,
            fifo@ == old(fifo)@.subrange(k as int, n as int),
            sink.taken().log@ == old(sink).taken().log@ + singletons(old(fifo)@.take(k as int)),
        decreases fifo@.len(),
    {
        let b = match fifo.pop() {
            Some(b) => b,
            None => {
                assert(false);
                0
            },
        };
        let one: [u8; 1] = [b];
        let ghost at = k as int;
        k = k + 1;
        match sink.accept(one.as_slice()) {
            Ok(()) => {
                assert(one@ =~= seq![old(fifo)@[at]]);
                assert(singletons(old(fifo)@.take(k as int)) =~= singletons(old(fifo)@.take(at)).push(
                    seq![old(fifo)@[at]],
                ));
            },
            Err(e) => {
                assert(fifo@ == old(fifo)@.subrange(at + 1, n as int));
                return Err(e);
            },
        }
    }
    assert(old(fifo)@.take(k as int) =~= old(fifo)@);
    Ok(())
}

impl ConsumeData for Fifo<u8> {
    open spec fn ready(&self) -> bool {
        self.wf()
    }

    fn consume<S: ByteSink>(&mut self, sink: &mut S) -> (r: Result<(), S::Err>)
        ensures
            final(self).wf(),
            r is Ok ==> final(self)@ == Seq::<u8>::empty(),
            r is Err ==> exists|k: int|
                0 <= k < old(self)@.len() && final(self)@ == #[trigger] old(self)@.subrange(
                    k + 1,
                    old(self)@.len() as int,
                ) && final(sink).taken().log@ == old(sink).taken().log@ + singletons(old(self)@.take(k)),
            r is Ok ==> final(sink).taken().log@ == old(sink).taken().log@ + singletons(old(self)@),
    {
        consume_bytes(self, sink)
    }

    fn consume_slice<S: ByteSink>(&mut self, sink: &mut S) -> (r: Result<(), S::Err>)
        ensures
            final(self).wf(),
            r is Ok ==> final(self)@ == Seq::<u8>::empty(),
            r is Err ==> final(self)@ == old(self)@,
            runs_handed(old(self)@, old(self).front_run_len(), old(sink).taken().log@, final(sink).taken().log@, r is Ok),
    {
        consume_slice(self, sink)
    }
}

impl ConsumeData for Vec<u8> {
    open spec fn ready(&self) -> bool {
        true
    }

    /// The vector is drained whatever the sink does; its bytes go to the sink
    /// one at a time until the first refusal.
    fn consume<S: ByteSink>(&mut self, sink: &mut S) -> (r: Result<(), S::Err>)
        ensures
            final(self)@ == Seq::<u8>::empty(),
            r is Ok ==> final(sink).taken().log@ == old(sink).taken().log@ + singletons(old(self)@),
            r is Err ==> exists|k: int|
                0 <= k < old(self)@.len() && final(sink).taken().log@ == old(sink).taken().log@
                    + singletons(#[trigger] old(self)@.take(k)),
    {
        let mut all: Vec<u8> = Vec::new();
        all.append(self);
        let mut k: usize = 0;
        while k < all.len()
            invariant
                self@ == Seq::<u8>::empty(),
                all@ == old(self)@,
                0 <= k <= all@.len(),
                sink.taken().log@ == old(sink).taken().log@ + singletons(all@.take(k as int)),
            decreases all.len() - k,
        {
            let one: [u8; 1] = [all[k]];
            let ghost at = k as int;
            match sink.accept(one.as_slice()) {
                Ok(()) => {
                    assert(one@ =~= seq![all@[at]]);
                    assert(singletons(all@.take(at + 1)) =~= singletons(all@.take(at)).push(seq![all@[at]]));
                },
                Err(e) => {
                    return Err(e);
                },
            }
            k = k + 1;
        }
        assert(all@.take(k as int) =~= all@);
        Ok(())
    }

    /// The vector goes to the sink as one run; it is cleared once the sink
    /// takes it, and kept when it refuses.
    fn consume_slice<S: ByteSink>(&mut self, sink: &mut S) -> (r: Result<(), S::Err>)
        ensures
            r is Ok ==> final(self)@ == Seq::<u8>::empty(),
            r is Err ==> final(self)@ == old(self)@,
            r is Ok ==> final(sink).taken().log@ == old(sink).taken().log@.push(old(self)@),
            r is Err ==> final(sink).taken().log@ == old(sink).taken().log@,
    {
        match sink.accept(self.as_slice()) {
            Ok(()) => {},
            Err(e) => {
                return Err(e);
            },
        }
        self.clear();
        Ok(())
    }
}

/// Taking in one received byte: a sentinel completes the message (which is
/// handed out, and the buffer starts over empty); any other byte is appended.
pub open spec fn take_byte(buffered: Seq<u8>, byte: u8) -> (Seq<u8>, Option<Seq<u8>>) {
    if byte == SENTINEL_BYTE {
        (Seq::empty(), Some(buffered))
    } else {
        (buffered.push(byte), None)
    }
}

/// Taking in a run of bytes one after another: what is left buffered, and the
/// last message completed on the way, if any.
pub open spec fn take_bytes(buffered: Seq<u8>, bytes: Seq<u8>) -> (Seq<u8>, Option<Seq<u8>>)
    decreases bytes.len(),
{
    if bytes.len() == 0 {
        (buffered, None)
    } else {
        let (b1, m1) = take_bytes(buffered, bytes.drop_last());
        let (b2, m2) = take_byte(b1, bytes.last());
        (b2, if m2 is Some { m2 } else { m1 })
    }
}

proof fn lemma_take_plain_bytes(buffered: Seq<u8>, msg: Seq<u8>)
    requires
        forall|i: int| 0 <= i < msg.len() ==> msg[i] != SENTINEL_BYTE,
    ensures
        take_bytes(buffered, msg) == (buffered + msg, None::<Seq<u8>>),
    decreases msg.len(),
{
    if msg.len() > 0 {
        lemma_take_plain_bytes(buffered, msg.drop_last());
        assert(buffered + msg.drop_last() + seq![msg.last()] =~= buffered + msg);
        assert((buffered + msg.drop_last()).push(msg.last()) =~= buffered + msg);
    } else {
        assert(buffered + msg =~= buffered);
    }
}

/// A message without sentinels, followed by a sentinel, is received intact:
/// it comes out as one message, after whatever was already buffered, and the
/// buffer is left empty.
pub proof fn law_frame_received_intact(buffered: Seq<u8>, msg: Seq<u8>)
    requires
        forall|i: int| 0 <= i < msg.len() ==> msg[i] != SENTINEL_BYTE,
    ensures
        take_bytes(buffered, msg.push(SENTINEL_BYTE)) == (Seq::<u8>::empty(), Some(buffered + msg)),
{
    let framed = msg.push(SENTINEL_BYTE);
    assert(framed.drop_last() =~= msg);
    lemma_take_plain_bytes(buffered, msg);
}

/// What a byte read off the wire does to the message being received: a sentinel
/// ends the message, any other byte is added to it.
pub enum FrameEvent {
    /// The message is complete; the buffer starts over empty.
    Complete(Fifo<u8>),
    /// The byte was added to the message.
    Pending,
}

/// Takes in one received byte. A sentinel hands back the buffered message and
/// leaves an empty buffer of the same capacity; any other byte is appended, which
/// requires room for it.
pub fn accept_byte(buffer: &mut Fifo<u8>, byte: u8) -> (r: FrameEvent)
    requires
        old(buffer).wf(),
        byte == SENTINEL_BYTE || old(buffer)@.len() < old(buffer).spec_capacity(),
    ensures
        final(buffer).wf(),
        final(buffer).spec_capacity() == old(buffer).spec_capacity(),
        byte == SENTINEL_BYTE ==> final(buffer)@ == Seq::<u8>::empty() && (match r {
            FrameEvent::Complete(m) => m.wf() && m@ == old(buffer)@,
            FrameEvent::Pending => false,
        }),
        byte != SENTINEL_BYTE ==> final(buffer)@ == old(buffer)@.push(byte) && r is Pending,
        ({
            let (left, done) = take_byte(old(buffer)@, byte);
            &&& final(buffer)@ == left
            &&& match r {
                FrameEvent::Complete(m) => done == Some(m@),
                FrameEvent::Pending => done is None,
            }
        }),
{
    proof {
        buffer.lemma_bounds();
    }
    if byte == SENTINEL_BYTE {
        let mut fresh = Fifo::with_capacity(buffer.capacity());
        core::mem::swap(&mut fresh, buffer);
        FrameEvent::Complete(fresh)
    } else {
        let _ = buffer.push(byte);
        FrameEvent::Pending
    }
}

/// What one attempt to read a byte off a serial line gave.
pub enum ReadOutcome<E> {
    Byte(u8),
    /// No byte is there yet.
    WouldBlock,
    Failed(E),
}

/// What receiving does after one read.
pub enum RecvStep<E> {
    /// Read again.
    Continue,
    /// Receiving is over, with this result.
    Done(Result<Fifo<u8>, Option<E>>),
}

/// The receiving side of a byte stream transport: the message assembled so far
/// and how many reads have failed.
pub struct Receiver {
    buffer: Fifo<u8>,
    error_count: u32,
}

impl Receiver {
    /// The bytes of the message received so far.
    pub closed spec fn buffered(&self) -> Seq<u8> {
        self.buffer@
    }

    pub closed spec fn errors(&self) -> u32 {
        self.error_count
    }

    pub closed spec fn room(&self) -> nat {
        self.buffer.spec_capacity()
    }

    pub closed spec fn wf(&self) -> bool {
        self.buffer.wf()
    }

    /// A receiver with an empty message buffer of `capacity` bytes.
    pub fn new(capacity: usize) -> (r: Receiver)
        requires
            1 <= capacity <= u16::MAX,
        ensures
            r.wf(),
            r.buffered() == Seq::<u8>::empty(),
            r.room() == capacity,
            r.errors() == 0,
    {
        Receiver { buffer: Fifo::with_capacity(capacity), error_count: 0 }
    }

    /// Whether one more (non-sentinel) byte fits in the message buffer.
    pub fn has_room(&self) -> (r: bool)
        requires
            self.wf(),
        ensures
            r == (self.buffered().len() < self.room()),
    {
        proof {
            self.buffer.lemma_bounds();
        }
        !self.buffer.is_full()
    }

    /// Takes in the outcome of one read. A sentinel ends the message, which is
    /// handed out; another byte is added to it (there must be room); no byte yet
    /// means reading on when blocking and `Err(None)` otherwise; a failed read is
    /// counted and handed out as `Err(Some(..))`.
    pub fn step<E>(&mut self, got: ReadOutcome<E>, blocking: bool) -> (r: RecvStep<E>)
        requires
            old(self).wf(),
            got matches ReadOutcome::Byte(b) && b != SENTINEL_BYTE ==> old(self).buffered().len()
                < old(self).room(),
        ensures
            final(self).wf(),
            final(self).room() == old(self).room(),
            match got {
                ReadOutcome::Byte(b) => {
                    &&& final(self).errors() == old(self).errors()
                    &&& final(self).buffered() == take_byte(old(self).buffered(), b).0
                    &&& match r {
                        RecvStep::Done(Ok(m)) => take_byte(old(self).buffered(), b).1 == Some(m@),
                        RecvStep::Continue => take_byte(old(self).buffered(), b).1 is None,
                        _ => false,
                    }
                    &&& b == SENTINEL_BYTE ==> final(self).buffered() == Seq::<u8>::empty() && (
                    match r {
                        RecvStep::Done(Ok(m)) => m.wf() && m@ == old(self).buffered(),
                        _ => false,
                    })
                    &&& b != SENTINEL_BYTE ==> final(self).buffered() == old(self).buffered().push(b)
                        && r is Continue
                },
                ReadOutcome::WouldBlock => {
                    &&& final(self).errors() == old(self).errors()
                    &&& final(self).buffered() == old(self).buffered()
                    &&& blocking ==> r is Continue
                    &&& !blocking ==> r matches RecvStep::Done(Err(None))
                },
                ReadOutcome::Failed(e) => {
                    &&& final(self).errors() == vstd::wrapping::u32_specs::wrapping_add(
                        old(self).errors(),
                        1,
                    )
                    &&& final(self).buffered() == old(self).buffered()
                    &&& r matches RecvStep::Done(Err(Some(x))) && x == e
                },
            },
    {
        match got {
            ReadOutcome::Byte(b) => match accept_byte(&mut self.buffer, b) {
                FrameEvent::Complete(m) => RecvStep::Done(Ok(m)),
                FrameEvent::Pending => RecvStep::Continue,
            },
            ReadOutcome::WouldBlock => if blocking {
                RecvStep::Continue
            } else {
                RecvStep::Done(Err(None))
            },
            ReadOutcome::Failed(e) => {
                self.error_count = self.error_count.wrapping_add(1);
                RecvStep::Done(Err(Some(e)))
            },
        }
    }

    /// How many reads have failed.
    pub fn num_get_errors(&self) -> (r: u64)
        ensures
            r == self.errors(),
    {
        self.error_count as u64
    }
}

/// How much room a send buffer has (`None`: it grows as needed).
pub trait ExtendLimit {
    fn limit(&self) -> Option<usize>;
}

impl ExtendLimit for Fifo<u8> {
    fn limit(&self) -> (r: Option<usize>)
        ensures
            self.wf() ==> r == Some((self.spec_capacity() - self@.len()) as usize),
    {
        Some(self.free_slots())
    }
}

impl ExtendLimit for Vec<u8> {
    fn limit(&self) -> (r: Option<usize>)
        ensures
            r is None,
    {
        None
    }
}

/// A borrowed queue used as a send buffer.
pub struct DynFifoBorrow<'f>(pub &'f mut Fifo<u8>);

impl<'f> ConsumeData for DynFifoBorrow<'f> {
    open spec fn ready(&self) -> bool {
        self.0.wf()
    }

    fn consume<S: ByteSink>(&mut self, sink: &mut S) -> (r: Result<(), S::Err>)
        ensures
            final(self).0.wf(),
            r is Ok ==> final(self).0@ == Seq::<u8>::empty(),
            r is Err ==> exists|k: int|
                0 <= k < old(self).0@.len() && final(self).0@ == #[trigger] old(self).0@.subrange(
                    k + 1,
                    old(self).0@.len() as int,
                ) && final(sink).taken().log@ == old(sink).taken().log@ + singletons(old(self).0@.take(k)),
            r is Ok ==> final(sink).taken().log@ == old(sink).taken().log@ + singletons(old(self).0@),
    {
        consume_bytes(self.0, sink)
    }

    fn consume_slice<S: ByteSink>(&mut self, sink: &mut S) -> (r: Result<(), S::Err>)
        ensures
            final(self).0.wf(),
            r is Ok ==> final(self).0@ == Seq::<u8>::empty(),
            r is Err ==> final(self).0@ == old(self).0@,
            runs_handed(old(self).0@, old(self).0.front_run_len(), old(sink).taken().log@, final(sink).taken().log@, r is Ok),
    {
        consume_slice(self.0, sink)
    }
}

impl<'f> ExtendLimit for DynFifoBorrow<'f> {
    fn limit(&self) -> (r: Option<usize>)
        ensures
            old(self.0).wf() ==> r == Some((old(self.0).spec_capacity() - old(self.0)@.len()) as usize),
    {
        self.0.limit()
    }
}

} // verus!
