//! A transport that carries console I/O characters alongside control messages.
//!
//! Every message received starts with a slug byte: control messages
//! ([`CONTROL_MSG_SLUG`]) are handed on without the slug; I/O messages
//! ([`IO_MSG_SLUG`]) carry one character as a four byte UTF-8 frame and are kept
//! as pending input. Output characters go out as a slug, the frame and a sentinel.
use super::charenc::{char_frame, char_from_bytes, char_to_bytes, Utf8DecodeError};
use super::{flatten, SentMessages, Transport, SENTINEL_BYTE};
use crate::fifo::Fifo;
use vstd::prelude::*;
use vstd::utf8::{decode_utf8, valid_utf8};

verus! {

pub const CONTROL_MSG_SLUG: u8 = 0x43;

pub const IO_MSG_SLUG: u8 = 0x49;

/// How many input characters are buffered before new ones are dropped.
pub const INPUT_BUF_LEN: usize = 32;

/// Bytes an output character takes on the wire: slug, frame, sentinel.
pub const SINGLE_CHAR_ENCODED_LENGTH: usize = 6;

#[derive(Debug, PartialEq, Eq)]
pub enum MultiplexedRecvError<Inner> {
    EmptyMessageFromInnerTransport,
    UnknownSlug { got: u8 },
    InvalidIoMsgLength { length: usize },
    CharacterDecodeError(Option<Utf8DecodeError>),
    InnerError(Inner),
}

/// A console I/O transport.
pub trait MultiplexedTransport: Transport {
    /// Sends an output character right away.
    fn put_output(&mut self, out: char) -> (r: Result<(), Self::SendErr>)
        requires
            old(self).ready(),
        ensures
            final(self).ready(),
    ;

    /// Sends each character of a string; an empty string sends nothing and
    /// succeeds.
    fn put_string(&mut self, s: &str) -> (r: Result<(), Self::SendErr>)
        requires
            old(self).ready(),
        ensures
            final(self).ready(),
            s@.len() == 0 ==> r is Ok,
    ;

    /// Takes the oldest pending input character, if any.
    fn get_input(&mut self) -> (r: Option<char>)
        requires
            old(self).ready(),
        ensures
            final(self).ready(),
    ;

    /// Whether an input character is pending.
    fn has_pending_input(&self) -> bool
        requires
            self.ready(),
    ;
}

/// What an inbound message amounts to.
pub enum Inbound {
    /// A control message, without its slug.
    Control(Seq<u8>),
    /// An input character.
    Input(char),
    Empty,
    UnknownSlug(u8),
    BadIoLength(nat),
    BadCharacter,
}

/// The classification of an inbound message.
pub open spec fn classify(m: Seq<u8>) -> Inbound {
    if m.len() == 0 {
        Inbound::Empty
    } else if m[0] == CONTROL_MSG_SLUG {
        Inbound::Control(m.drop_first())
    } else if m[0] == IO_MSG_SLUG {
        if m.len() != 5 {
            Inbound::BadIoLength((m.len() - 1) as nat)
        } else if valid_utf8(m.subrange(1, 5)) {
            Inbound::Input(decode_utf8(m.subrange(1, 5))[0])
        } else {
            Inbound::BadCharacter
        }
    } else {
        Inbound::UnknownSlug(m[0])
    }
}

/// The bytes that carry an output character: slug, frame, sentinel.
pub open spec fn output_frame(c: char) -> Seq<u8> {
    seq![IO_MSG_SLUG] + char_frame(c) + seq![SENTINEL_BYTE]
}

/// The bytes that carry a run of output characters, one frame after another.
pub open spec fn output_frames(chars: Seq<char>) -> Seq<u8>
    decreases chars.len(),
{
    if chars.len() == 0 {
        Seq::empty()
    } else {
        output_frames(chars.drop_last()) + output_frame(chars.last())
    }
}

/// The messages that send `chars` in runs of `per` characters, front first:
/// each message holds as many characters as fit, the last one the rest.
pub open spec fn chunked_frames(chars: Seq<char>, per: int) -> Seq<Seq<u8>>
    decreases chars.len(),
{
    if chars.len() == 0 {
        Seq::empty()
    } else if chars.len() <= per || per <= 0 {
        seq![output_frames(chars)]
    } else {
        seq![output_frames(chars.take(per))] + chunked_frames(chars.skip(per), per)
    }
}

/// How many characters fit in one send buffer of the given limit.
pub open spec fn chunk_chars(limit: Option<usize>) -> int {
    match limit {
        Some(b) => (b / SINGLE_CHAR_ENCODED_LENGTH) as int,
        None => usize::MAX as int,
    }
}

/// The wire bytes of an output character.
pub fn output_bytes(c: char) -> (r: [u8; 6])
    ensures
        r@ == output_frame(c),
{
    let enc = char_to_bytes(c);
    let r = [IO_MSG_SLUG, enc[0], enc[1], enc[2], enc[3], SENTINEL_BYTE];
    assert(r@ =~= output_frame(c));
    r
}

/// The wire bytes of the characters `chars[from..to]`.
pub fn output_chunk(chars: &Vec<char>, from: usize, to: usize) -> (r: Vec<u8>)
    requires
        from <= to <= chars@.len(),
    ensures
        r@ == output_frames(chars@.subrange(from as int, to as int)),
{
    let mut out: Vec<u8> = Vec::new();
    let mut k = from;
    while k < to
        invariant
            from <= k <= to <= chars@.len(),
            out@ == output_frames(chars@.subrange(from as int, k as int)),
        decreases to - k,
    {
        let frame = output_bytes(chars[k]);
        let mut j: usize = 0;
        let ghost before = out@;
        while j < 6
            invariant
                0 <= j <= 6,
                frame@ == output_frame(chars@[k as int]),
                out@ == before + frame@.subrange(0, j as int),
            decreases 6 - j,
        {
            out.push(frame[j]);
            j = j + 1;
        }
        proof {
            let s = chars@.subrange(from as int, k + 1);
            assert(s.drop_last() =~= chars@.subrange(from as int, k as int));
            assert(frame@.subrange(0, 6) =~= frame@);
        }
        k = k + 1;
    }
    out
}

/// What sorting out a received message `m` amounts to, for a transport whose
/// pending input goes from `pending0` to `pending1` and whose error count goes
/// from `errors0` to `errors1`, with `r` handed back: a control message comes
/// back without its slug; an input character is queued (dropped when the input
/// buffer is full) and `Err(None)` comes back; anything else is a counted error.
pub open spec fn processed_as<E>(
    pending0: Seq<char>,
    errors0: u32,
    m: Seq<u8>,
    r: Result<Fifo<u8>, Option<MultiplexedRecvError<E>>>,
    pending1: Seq<char>,
    errors1: u32,
) -> bool {
    let counted = vstd::wrapping::u32_specs::wrapping_add(errors0, 1);
    match classify(m) {
        Inbound::Control(rest) => {
            &&& errors1 == errors0
            &&& pending1 == pending0
            &&& r matches Ok(msg)
            &&& msg.wf()
            &&& msg@ == rest
        },
        Inbound::Input(c) => {
            &&& errors1 == errors0
            &&& r matches Err(None)
            &&& pending1 == (if pending0.len() < INPUT_BUF_LEN {
                pending0.push(c)
            } else {
                pending0
            })
        },
        Inbound::Empty => {
            &&& errors1 == counted
            &&& pending1 == pending0
            &&& r matches Err(Some(MultiplexedRecvError::EmptyMessageFromInnerTransport))
        },
        Inbound::UnknownSlug(s) => {
            &&& errors1 == counted
            &&& pending1 == pending0
            &&& r matches Err(Some(MultiplexedRecvError::UnknownSlug { got }))
            &&& got == s
        },
        Inbound::BadIoLength(n) => {
            &&& errors1 == counted
            &&& pending1 == pending0
            &&& r matches Err(Some(MultiplexedRecvError::InvalidIoMsgLength { length }))
            &&& length == n
        },
        Inbound::BadCharacter => {
            &&& errors1 == counted
            &&& pending1 == pending0
            &&& r matches Err(Some(MultiplexedRecvError::CharacterDecodeError(Some(_))))
        },
    }
}

/// What taking in the inner transport's answer `got` amounts to: no message is
/// no message; an inner error comes back wrapped; a consistent message is sorted
/// out (see [`processed_as`]); an inconsistent one is dropped as no message.
pub open spec fn received_as<E>(
    pending0: Seq<char>,
    errors0: u32,
    got: Result<Fifo<u8>, Option<E>>,
    r: Result<Fifo<u8>, Option<MultiplexedRecvError<E>>>,
    pending1: Seq<char>,
    errors1: u32,
) -> bool {
    match got {
        Err(None) => r matches Err(None) && pending1 == pending0 && errors1 == errors0,
        Err(Some(e)) => {
            &&& r matches Err(Some(MultiplexedRecvError::InnerError(x)))
            &&& x == e
            &&& pending1 == pending0
            &&& errors1 == errors0
        },
        Ok(recv) => if recv.wf() {
            processed_as(pending0, errors0, recv@, r, pending1, errors1)
        } else {
            r matches Err(None) && pending1 == pending0 && errors1 == errors0
        },
    }
}

/// A transport that interleaves console I/O with control messages over an
/// inner transport.
pub struct Multiplexed<Inner: Transport> {
    inner: Inner,
    pending_chars: Fifo<char>,
    send_limit: Option<usize>,
    recv_error_count: u32,
    control_sent: Ghost<Seq<Seq<u8>>>,
}

impl<Inner: Transport> Multiplexed<Inner> {
    pub closed spec fn pending(&self) -> Seq<char> {
        self.pending_chars@
    }

    /// The control messages sent so far.
    pub closed spec fn control_log(&self) -> Seq<Seq<u8>> {
        self.control_sent@
    }

    /// The messages handed to the inner transport and sent by it so far.
    pub closed spec fn inner_log(&self) -> Seq<Seq<u8>> {
        self.inner.sent().log@
    }

    pub closed spec fn inner(&self) -> Inner {
        self.inner
    }

    pub closed spec fn error_count(&self) -> u32 {
        self.recv_error_count
    }

    pub closed spec fn spec_send_limit(&self) -> Option<usize> {
        self.send_limit
    }

    pub closed spec fn wf(&self) -> bool {
        &&& self.pending_chars.wf()
        &&& self.pending_chars.spec_capacity() == INPUT_BUF_LEN
        &&& self.inner.ready()
    }

    /// A multiplexed transport over `inner`; `send_limit` is the room that a send
    /// buffer has (`None`: unbounded), which decides how strings are chunked.
    pub fn new(inner: Inner, send_limit: Option<usize>) -> (r: Multiplexed<Inner>)
        requires
            inner.ready(),
        ensures
            r.wf(),
            r.pending() == Seq::<char>::empty(),
            r.error_count() == 0,
            r.spec_send_limit() == send_limit,
            r.inner() == inner,
            r.control_log() == Seq::<Seq<u8>>::empty(),
    {
        Multiplexed {
            inner,
            pending_chars: Fifo::with_capacity(INPUT_BUF_LEN),
            send_limit,
            recv_error_count: 0,
            control_sent: Ghost(Seq::empty()),
        }
    }

    /// Counts a receive error and passes `t` through.
    fn err<T>(&mut self, t: T) -> (r: T)
        ensures
            r == t,
            final(self).error_count() == vstd::wrapping::u32_specs::wrapping_add(
                old(self).error_count(),
                1,
            ),
            final(self).pending() == old(self).pending(),
            final(self).wf() == old(self).wf(),
            final(self).spec_send_limit() == old(self).spec_send_limit(),
            final(self).control_log() == old(self).control_log(),
            final(self).inner() == old(self).inner(),
    {
        self.recv_error_count = self.recv_error_count.wrapping_add(1);
        t
    }

    /// Sorts out a received message: a control message comes back without its
    /// slug; an input character is queued (dropped when the input buffer is
    /// full) and `Err(None)` comes back; anything else is a counted error.
    pub fn post_process_received_output(&mut self, recv: Fifo<u8>) -> (r: Result<
        Fifo<u8>,
        Option<MultiplexedRecvError<Inner::RecvErr>>,
    >)
        requires
            old(self).wf(),
            recv.wf(),
        ensures
            final(self).wf(),
            final(self).spec_send_limit() == old(self).spec_send_limit(),
            final(self).control_log() == old(self).control_log(),
            final(self).inner() == old(self).inner(),
            processed_as(
                old(self).pending(),
                old(self).error_count(),
                recv@,
                r,
                final(self).pending(),
                final(self).error_count(),
            ),
    {
        let mut recv = recv;
        if recv.is_empty() {
            return self.err(Err(Some(MultiplexedRecvError::EmptyMessageFromInnerTransport)));
        }
        let ghost m = recv@;
        let slug = match recv.pop() {
            Some(s) => s,
            None => {
                assert(false);
                0
            },
        };
        if slug == CONTROL_MSG_SLUG {
            Ok(recv)
        } else if slug == IO_MSG_SLUG {
            if recv.length() == 4 {
                let frame = recv.to_vec();
                let arr: [u8; 4] = [frame[0], frame[1], frame[2], frame[3]];
                assert(arr@ =~= m.subrange(1, 5));
                match char_from_bytes(&arr) {
                    Ok(c) => {
                        proof {
                            self.pending_chars.lemma_bounds();
                        }
                        let _ = self.pending_chars.push(c);
                        Err(None)
                    },
                    Err(e) => self.err(Err(Some(MultiplexedRecvError::CharacterDecodeError(e)))),
                }
            } else {
                let length = recv.length();
                self.err(Err(Some(MultiplexedRecvError::InvalidIoMsgLength { length })))
            }
        } else {
            self.err(Err(Some(MultiplexedRecvError::UnknownSlug { got: slug })))
        }
    }

    /// Takes in what the inner transport's `get` returned.
    fn take_received(&mut self, got: Result<Fifo<u8>, Option<Inner::RecvErr>>) -> (r: Result<
        Fifo<u8>,
        Option<MultiplexedRecvError<Inner::RecvErr>>,
    >)
        requires
            old(self).wf(),
        ensures
            final(self).wf(),
            final(self).spec_send_limit() == old(self).spec_send_limit(),
            final(self).control_log() == old(self).control_log(),
            received_as(
                old(self).pending(),
                old(self).error_count(),
                got,
                r,
                final(self).pending(),
                final(self).error_count(),
            ),
    {
        match got {
            Err(None) => Err(None),
            Err(Some(e)) => Err(Some(MultiplexedRecvError::InnerError(e))),
            Ok(recv) => {
                if recv.is_consistent() {
                    self.post_process_received_output(recv)
                } else {
                    Err(None)
                }
            },
        }
    }

    /// Sends a control message: the slug as one message, then the message; a
    /// failed slug send stops it.
    pub fn send(&mut self, message: &[u8]) -> (r: Result<(), Inner::SendErr>)
        requires
            old(self).wf(),
        ensures
            final(self).wf(),
            final(self).pending() == old(self).pending(),
            final(self).error_count() == old(self).error_count(),
            final(self).spec_send_limit() == old(self).spec_send_limit(),
            r is Ok ==> final(self).control_log() == old(self).control_log().push(message@)
                && final(self).inner_log() == old(self).inner_log().push(seq![CONTROL_MSG_SLUG]).push(
                message@,
            ),
            r is Err ==> final(self).control_log() == old(self).control_log() && (final(self).inner_log() == old(self).inner_log() || final(self).inner_log() == old(self).inner_log().push(seq![CONTROL_MSG_SLUG])),
    {
        let slug: [u8; 1] = [CONTROL_MSG_SLUG];
        assert(slug@ =~= seq![CONTROL_MSG_SLUG]);
        match self.inner.send(slug.as_slice()) {
            Ok(()) => {},
            Err(e) => {
                return Err(e);
            },
        }
        let r = self.inner.send(message);
        if r.is_ok() {
            proof {
                self.control_sent = Ghost(self.control_sent@.push(message@));
            }
        }
        r
    }

    pub fn get(&mut self) -> (r: Result<Fifo<u8>, Option<MultiplexedRecvError<Inner::RecvErr>>>)
        requires
            old(self).wf(),
        ensures
            final(self).wf(),
            final(self).spec_send_limit() == old(self).spec_send_limit(),
            final(self).control_log() == old(self).control_log(),
            exists|got: Result<Fifo<u8>, Option<Inner::RecvErr>>|
                #[trigger] received_as(
                    old(self).pending(),
                    old(self).error_count(),
                    got,
                    r,
                    final(self).pending(),
                    final(self).error_count(),
                ),
    {
        let got = self.inner.get();
        let r = self.take_received(got);
        assert(received_as(
            old(self).pending(),
            old(self).error_count(),
            got,
            r,
            self.pending(),
            self.error_count(),
        ));
        r
    }

    pub fn blocking_get(&mut self) -> (r: Result<
        Fifo<u8>,
        Option<MultiplexedRecvError<Inner::RecvErr>>,
    >)
        requires
            old(self).wf(),
        ensures
            final(self).wf(),
            final(self).spec_send_limit() == old(self).spec_send_limit(),
            final(self).control_log() == old(self).control_log(),
            exists|got: Result<Fifo<u8>, Option<Inner::RecvErr>>|
                #[trigger] received_as(
                    old(self).pending(),
                    old(self).error_count(),
                    got,
                    r,
                    final(self).pending(),
                    final(self).error_count(),
                ),
    {
        let got = self.inner.blocking_get();
        let r = self.take_received(got);
        assert(received_as(
            old(self).pending(),
            old(self).error_count(),
            got,
            r,
            self.pending(),
            self.error_count(),
        ));
        r
    }

    /// The inner transport's receive errors plus this transport's own.
    pub closed spec fn errors_total(&self) -> u64 {
        vstd::wrapping::u64_specs::wrapping_add(self.inner.errors_seen(), self.recv_error_count as u64)
    }

    /// The inner transport's receive errors plus this transport's own.
    pub fn num_get_errors(&self) -> (r: u64)
        ensures
            r == self.errors_total(),
            r == vstd::wrapping::u64_specs::wrapping_add(
                self.inner().errors_seen(),
                self.error_count() as u64,
            ),
    {
        let inner = self.inner.num_get_errors();
        inner.wrapping_add(self.recv_error_count as u64)
    }

    /// Sends an output character as one message.
    pub fn put_output(&mut self, out: char) -> (r: Result<(), Inner::SendErr>)
        requires
            old(self).wf(),
        ensures
            final(self).wf(),
            final(self).pending() == old(self).pending(),
            final(self).error_count() == old(self).error_count(),
            final(self).spec_send_limit() == old(self).spec_send_limit(),
            final(self).control_log() == old(self).control_log(),
            r is Ok ==> final(self).inner_log() == old(self).inner_log().push(output_frame(out)),
            r is Err ==> final(self).inner_log() == old(self).inner_log(),
    {
        let buf = output_bytes(out);
        self.inner.send(buf.as_slice())
    }

    /// Sends a string as output, in as few messages as the send limit allows:
    /// each message holds the frames of as many characters as fit. A send
    /// buffer without room for one character's frame would never get a
    /// non-empty string out, so such a limit is ruled out for one.
    pub fn put_string(&mut self, s: &str) -> (r: Result<(), Inner::SendErr>)
        requires
            old(self).wf(),
            s@.len() > 0 ==> chunk_chars(old(self).spec_send_limit()) >= 1,
        ensures
            final(self).wf(),
            final(self).pending() == old(self).pending(),
            final(self).error_count() == old(self).error_count(),
            final(self).spec_send_limit() == old(self).spec_send_limit(),
            final(self).control_log() == old(self).control_log(),
            s@.len() == 0 ==> r is Ok,
            r is Ok ==> ({
                let sent = final(self).inner_log().subrange(
                    old(self).inner_log().len() as int,
                    final(self).inner_log().len() as int,
                );
                &&& final(self).inner_log().subrange(0, old(self).inner_log().len() as int)
                    == old(self).inner_log()
                &&& sent == chunked_frames(s@, chunk_chars(old(self).spec_send_limit()))
                &&& flatten(sent) == output_frames(s@)
                &&& forall|i: int|
                    0 <= i < sent.len() ==> 0 < #[trigger] sent[i].len() <= SINGLE_CHAR_ENCODED_LENGTH
                        * chunk_chars(old(self).spec_send_limit())
            }),
    {
        let n = s.unicode_len();
        let mut chars: Vec<char> = Vec::new();
        let mut i: usize = 0;
        while i < n
            invariant
                0 <= i <= n,
                n == s@.len(),
                chars@ == s@.subrange(0, i as int),
            decreases n - i,
        {
            chars.push(s.get_char(i));
            assert(chars@ =~= s@.subrange(0, i + 1));
            i = i + 1;
        }
        let per_chunk: usize = match self.send_limit {
            Some(bytes) => bytes / SINGLE_CHAR_ENCODED_LENGTH,
            None => usize::MAX,
        };
        let mut from: usize = 0;
        proof {
            assert(chars@.skip(0) =~= chars@);
            assert(self.inner_log().subrange(old(self).inner_log().len() as int, self.inner_log().len() as int)
                =~= Seq::<Seq<u8>>::empty());
            assert(Seq::<Seq<u8>>::empty() + chunked_frames(chars@, per_chunk as int) =~= chunked_frames(
                chars@,
                per_chunk as int,
            ));
        }
        while from < n
            invariant
                0 <= from <= n,
                n == chars@.len(),
                n == s@.len(),
                n > 0 ==> per_chunk >= 1,
                self.wf(),
                self.pending() == old(self).pending(),
                self.error_count() == old(self).error_count(),
                self.spec_send_limit() == old(self).spec_send_limit(),
                self.control_log() == old(self).control_log(),
                per_chunk == chunk_chars(old(self).spec_send_limit()),
                old(self).inner_log().len() <= self.inner_log().len(),
                self.inner_log().subrange(0, old(self).inner_log().len() as int)
                    == old(self).inner_log(),
                flatten(
                    self.inner_log().subrange(
                        old(self).inner_log().len() as int,
                        self.inner_log().len() as int,
                    ),
                ) == output_frames(chars@.subrange(0, from as int)),
                self.inner_log().subrange(old(self).inner_log().len() as int, self.inner_log().len() as int)
                    + chunked_frames(chars@.skip(from as int), per_chunk as int) == chunked_frames(
                    chars@,
                    per_chunk as int,
                ),
                forall|i: int|
                    old(self).inner_log().len() <= i < self.inner_log().len() ==> 0
                        < #[trigger] self.inner_log()[i].len() <= SINGLE_CHAR_ENCODED_LENGTH
                        * per_chunk,
            decreases n - from,
        {
            let to = if n - from <= per_chunk {
                n
            } else {
                from + per_chunk
            };
            let chunk = output_chunk(&chars, from, to);
            let ghost before = self.inner_log();
            match self.inner.send(chunk.as_slice()) {
                Ok(()) => {},
                Err(e) => {
                    return Err(e);
                },
            }
            proof {
                let k0 = old(self).inner_log().len() as int;
                let now = self.inner_log();
                assert(now == before.push(chunk@));
                assert(now.subrange(0, k0) =~= before.subrange(0, k0));
                assert(now.subrange(k0, now.len() as int) =~= before.subrange(
                    k0,
                    before.len() as int,
                ).push(chunk@));
                let prev = before.subrange(k0, before.len() as int);
                assert(prev.push(chunk@).drop_last() =~= prev);
                assert(flatten(prev.push(chunk@)) == flatten(prev) + chunk@);
                law_output_frames_concat(
                    chars@.subrange(0, from as int),
                    chars@.subrange(from as int, to as int),
                );
                assert(chars@.subrange(0, from as int) + chars@.subrange(from as int, to as int)
                    =~= chars@.subrange(0, to as int));
                lemma_frames_len(chars@.subrange(from as int, to as int));
                let rest = chars@.skip(from as int);
                if to < n {
                    assert(rest.take(per_chunk as int) =~= chars@.subrange(from as int, to as int));
                    assert(rest.skip(per_chunk as int) =~= chars@.skip(to as int));
                } else {
                    assert(rest =~= chars@.subrange(from as int, to as int));
                    assert(chars@.skip(to as int) =~= Seq::<char>::empty());
                }
                assert(chunked_frames(rest, per_chunk as int) =~= seq![chunk@] + chunked_frames(
                    chars@.skip(to as int),
                    per_chunk as int,
                ));
                let sent_now = now.subrange(k0, now.len() as int);
                assert(sent_now + chunked_frames(chars@.skip(to as int), per_chunk as int) =~= prev
                    + chunked_frames(rest, per_chunk as int));
                assert((to - from) * SINGLE_CHAR_ENCODED_LENGTH <= per_chunk * SINGLE_CHAR_ENCODED_LENGTH)
                    by (nonlinear_arith)
                    requires
                        to - from <= per_chunk,
                ;
            }
            from = to;
        }
        proof {
            assert(chars@.subrange(0, n as int) =~= s@);
            assert(chars@ =~= s@);
            assert(chars@.skip(n as int) =~= Seq::<char>::empty());
            let k0 = old(self).inner_log().len() as int;
            let sent = self.inner_log().subrange(k0, self.inner_log().len() as int);
            assert(sent + Seq::<Seq<u8>>::empty() =~= sent);
        }
        Ok(())
    }

    pub fn get_input(&mut self) -> (r: Option<char>)
        requires
            old(self).wf(),
        ensures
            final(self).wf(),
            old(self).pending().len() == 0 ==> r is None && final(self).pending() == old(self).pending(),
            old(self).pending().len() > 0 ==> r == Some(old(self).pending()[0]) && final(self).pending() == old(self).pending().drop_first(),
            final(self).error_count() == old(self).error_count(),
            final(self).inner() == old(self).inner(),
            final(self).spec_send_limit() == old(self).spec_send_limit(),
            final(self).control_log() == old(self).control_log(),
    {
        self.pending_chars.pop()
    }

    pub fn has_pending_input(&self) -> (r: bool)
        requires
            self.wf(),
        ensures
            r == (self.pending().len() > 0),
    {
        !self.pending_chars.is_empty()
    }

    pub fn get_inner(&self) -> (r: &Inner)
        ensures
            *r == self.inner(),
    {
        &self.inner
    }

    /// The inner transport, to be used in place; the multiplexed transport stays
    /// well formed as long as the inner one is left ready.
    pub fn get_inner_mut(&mut self) -> (r: &mut Inner)
        requires
            old(self).wf(),
        ensures
            *r == old(self).inner(),
            final(self).inner() == *final(r),
            final(self).wf() == final(r).ready(),
            final(self).pending() == old(self).pending(),
            final(self).error_count() == old(self).error_count(),
            final(self).spec_send_limit() == old(self).spec_send_limit(),
            final(self).control_log() == old(self).control_log(),
    {
        &mut self.inner
    }
}

/// As a transport, a multiplexed transport is ready when it is well formed and
/// its send buffers hold at least one character's frame.
impl<Inner: Transport> Transport for Multiplexed<Inner> {
    type RecvErr = MultiplexedRecvError<Inner::RecvErr>;

    type SendErr = Inner::SendErr;

    open spec fn errors_seen(&self) -> u64 {
        self.errors_total()
    }

    /// The control messages sent.
    open spec fn sent(&self) -> SentMessages {
        SentMessages { log: Ghost(self.control_log()) }
    }

    open spec fn ready(&self) -> bool {
        &&& self.wf()
        &&& chunk_chars(self.spec_send_limit()) >= 1
    }

    fn send(&mut self, message: &[u8]) -> (r: Result<(), Self::SendErr>)
        ensures
            final(self).pending() == old(self).pending(),
            final(self).error_count() == old(self).error_count(),
            final(self).spec_send_limit() == old(self).spec_send_limit(),
    {
        Multiplexed::send(self, message)
    }

    fn get(&mut self) -> (r: Result<Fifo<u8>, Option<Self::RecvErr>>)
        ensures
            final(self).spec_send_limit() == old(self).spec_send_limit(),
            final(self).control_log() == old(self).control_log(),
            exists|got: Result<Fifo<u8>, Option<Inner::RecvErr>>|
                #[trigger] received_as(
                    old(self).pending(),
                    old(self).error_count(),
                    got,
                    r,
                    final(self).pending(),
                    final(self).error_count(),
                ),
    {
        Multiplexed::get(self)
    }

    fn blocking_get(&mut self) -> (r: Result<Fifo<u8>, Option<Self::RecvErr>>)
        ensures
            final(self).spec_send_limit() == old(self).spec_send_limit(),
            final(self).control_log() == old(self).control_log(),
            exists|got: Result<Fifo<u8>, Option<Inner::RecvErr>>|
                #[trigger] received_as(
                    old(self).pending(),
                    old(self).error_count(),
                    got,
                    r,
                    final(self).pending(),
                    final(self).error_count(),
                ),
    {
        Multiplexed::blocking_get(self)
    }

    fn num_get_errors(&self) -> u64 {
        Multiplexed::num_get_errors(self)
    }
}

impl<Inner: Transport> MultiplexedTransport for Multiplexed<Inner> {
    fn put_output(&mut self, out: char) -> (r: Result<(), Self::SendErr>)
        ensures
            final(self).pending() == old(self).pending(),
            final(self).error_count() == old(self).error_count(),
            final(self).spec_send_limit() == old(self).spec_send_limit(),
            final(self).control_log() == old(self).control_log(),
    {
        Multiplexed::put_output(self, out)
    }

    fn put_string(&mut self, s: &str) -> (r: Result<(), Self::SendErr>)
        ensures
            final(self).pending() == old(self).pending(),
            final(self).error_count() == old(self).error_count(),
            final(self).spec_send_limit() == old(self).spec_send_limit(),
            final(self).control_log() == old(self).control_log(),
            s@.len() == 0 ==> r is Ok,
    {
        Multiplexed::put_string(self, s)
    }

    fn get_input(&mut self) -> (r: Option<char>)
        ensures
            old(self).pending().len() == 0 ==> r is None && final(self).pending() == old(self).pending(),
            old(self).pending().len() > 0 ==> r == Some(old(self).pending()[0]) && final(self).pending() == old(self).pending().drop_first(),
            final(self).error_count() == old(self).error_count(),
            final(self).inner() == old(self).inner(),
            final(self).spec_send_limit() == old(self).spec_send_limit(),
            final(self).control_log() == old(self).control_log(),
    {
        Multiplexed::get_input(self)
    }

    fn has_pending_input(&self) -> (r: bool)
        ensures
            r == (self.pending().len() > 0),
    {
        Multiplexed::has_pending_input(self)
    }
}

/// A multiplexed transport used as a text sink: strings and characters go out
/// as console output.
pub struct MultiplexedTransportAsWriteImplAdapter<'m, Mt: MultiplexedTransport> {
    inner: &'m mut Mt,
}

impl<'m, Mt: MultiplexedTransport> MultiplexedTransportAsWriteImplAdapter<'m, Mt> {
    pub closed spec fn ready(&self) -> bool {
        self.inner.ready()
    }

    /// Puts out a string; a failed send becomes `Err(())`, and an empty string
    /// succeeds.
    pub fn write_str(&mut self, s: &str) -> (r: Result<(), ()>)
        requires
            old(self).ready(),
        ensures
            final(self).ready(),
            s@.len() == 0 ==> r is Ok,
    {
        match self.inner.put_string(s) {
            Ok(()) => Ok(()),
            Err(_) => Err(()),
        }
    }

    /// Puts out a character; a failed send becomes `Err(())`.
    pub fn write_char(&mut self, c: char) -> (r: Result<(), ()>)
        requires
            old(self).ready(),
        ensures
            final(self).ready(),
    {
        match self.inner.put_output(c) {
            Ok(()) => Ok(()),
            Err(_) => Err(()),
        }
    }
}

/// Adds `as_writeable` to every multiplexed transport.
pub trait MultiplexedTransportExt: MultiplexedTransport + Sized {
    fn as_writeable(&mut self) -> (r: MultiplexedTransportAsWriteImplAdapter<'_, Self>)
        requires
            old(self).ready(),
        ensures
            r.ready(),
    {
        MultiplexedTransportAsWriteImplAdapter { inner: self }
    }
}

impl<Mt: MultiplexedTransport> MultiplexedTransportExt for Mt {

}

/// The frames of `chars` take one frame's length per character.
proof fn lemma_frames_len(chars: Seq<char>)
    ensures
        output_frames(chars).len() == chars.len() * SINGLE_CHAR_ENCODED_LENGTH,
    decreases chars.len(),
{
    if chars.len() > 0 {
        lemma_frames_len(chars.drop_last());
        super::charenc::lemma_char_frame_len(chars.last());
    }
}

/// Splitting a run of output characters into chunks does not change the bytes
/// that go out: the frames of `a` followed by those of `b` are the frames of
/// `a + b`.
pub proof fn law_output_frames_concat(a: Seq<char>, b: Seq<char>)
    ensures
        output_frames(a + b) == output_frames(a) + output_frames(b),
    decreases b.len(),
{
    if b.len() == 0 {
        assert(a + b =~= a);
        assert(output_frames(a) + output_frames(b) =~= output_frames(a));
    } else {
        law_output_frames_concat(a, b.drop_last());
        assert((a + b).drop_last() =~= a + b.drop_last());
        assert((a + b).last() == b.last());
        assert(output_frames(a) + output_frames(b.drop_last()) + output_frame(b.last())
            =~= output_frames(a) + (output_frames(b.drop_last()) + output_frame(b.last())));
    }
}

/// A character that goes out as output and comes back in as a message is
/// queued as that very character.
pub proof fn law_output_frame_classifies_as_input(c: char)
    ensures
        classify(output_frame(c).drop_last()) == Inbound::Input(c),
{
    let m = output_frame(c).drop_last();
    super::charenc::law_char_frame_roundtrip(c);
    assert(m.subrange(1, 5) =~= char_frame(c));
}

/// The wire format of the multiplexed messages: an output character goes out
/// as the byte `0x49` ('I'), its four byte UTF-8 frame and a zero sentinel; an
/// inbound message starting with `0x43` ('C') is a control message (the rest
/// of it), one starting with `0x49` and four more bytes of valid UTF-8 is that
/// character, and an empty one or one with any other first byte is refused.
pub proof fn law_wire_format(c: char, m: Seq<u8>)
    ensures
        output_frame(c).len() == 6,
        output_frame(c)[0] == 0x49u8,
        output_frame(c)[5] == 0u8,
        output_frame(c).subrange(1, 5) == char_frame(c),
        m.len() > 0 && m[0] == 0x43u8 ==> classify(m) == Inbound::Control(m.drop_first()),
        m.len() == 5 && m[0] == 0x49u8 && valid_utf8(m.subrange(1, 5)) ==> classify(m) == Inbound::Input(
            decode_utf8(m.subrange(1, 5))[0],
        ),
        m.len() == 0 ==> classify(m) == Inbound::Empty,
        m.len() > 0 && m[0] != 0x43u8 && m[0] != 0x49u8 ==> classify(m) == Inbound::UnknownSlug(m[0]),
{
    super::charenc::lemma_char_frame_len(c);
    assert(output_frame(c).subrange(1, 5) =~= char_frame(c));
}

} // verus!
