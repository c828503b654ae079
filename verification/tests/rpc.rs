use lc3_utp::fifo::Fifo;
use lc3_utp::rpc::dma::{collect_dma_bytes, take_transfer, DmaAction, DmaChannel, DmaReceiver};
use lc3_utp::rpc::multiplexed::{
    output_bytes, output_chunk, Multiplexed, MultiplexedRecvError, MultiplexedTransport,
    MultiplexedTransportExt, CONTROL_MSG_SLUG, IO_MSG_SLUG,
};
use lc3_utp::rpc::{SentMessages, 
    accept_byte, consume_slice, ByteSink, ConsumeData, DynFifoBorrow, ExtendLimit, FrameEvent, ReadOutcome,
    Receiver, RecvStep, Transport, SENTINEL_BYTE,
};

/// A transport that records what is sent and hands out queued messages.
#[derive(Default)]
struct Loopback {
    sent: Vec<Vec<u8>>,
    inbox: Vec<Vec<u8>>,
    fail_sends: bool,
}

impl Transport for Loopback {
    type RecvErr = ();
    type SendErr = ();

    fn ready(&self) -> bool {
        true
    }

    fn send(&mut self, message: &[u8]) -> Result<(), ()> {
        if self.fail_sends {
            return Err(());
        }
        self.sent.push(message.to_vec());
        Ok(())
    }

    fn get(&mut self) -> Result<Fifo<u8>, Option<()>> {
        if self.inbox.is_empty() {
            return Err(None);
        }
        let m = self.inbox.remove(0);
        let mut f = Fifo::new();
        f.push_slice(&m).unwrap();
        Ok(f)
    }

    fn blocking_get(&mut self) -> Result<Fifo<u8>, Option<()>> {
        self.get()
    }

    // The log of sent messages is ghost state: at run time it carries nothing.
    fn sent(&self) -> SentMessages {
        SentMessages::none()
    }

    fn errors_seen(&self) -> u64 {
        0
    }

    fn num_get_errors(&self) -> u64 {
        0
    }
}

fn fifo_of(bytes: &[u8]) -> Fifo<u8> {
    let mut f = Fifo::new();
    f.push_slice(bytes).unwrap();
    f
}

#[test]
fn control_messages_lose_their_slug() {
    let mut m = Multiplexed::new(Loopback::default(), None);
    let r = m.post_process_received_output(fifo_of(&[CONTROL_MSG_SLUG, 1, 2, 3]));
    assert_eq!(vec![1u8, 2, 3], r.unwrap().to_vec());
    assert_eq!(0, m.num_get_errors());
}

#[test]
fn io_messages_become_pending_input() {
    let mut m = Multiplexed::new(Loopback::default(), None);
    assert!(!m.has_pending_input());
    let r = m.post_process_received_output(fifo_of(&[IO_MSG_SLUG, b'a', 0, 0, 0]));
    assert!(matches!(r, Err(None)));
    let r = m.post_process_received_output(fifo_of(&[IO_MSG_SLUG, 0xF0, 0x9F, 0xA6, 0x80]));
    assert!(matches!(r, Err(None)));
    assert!(m.has_pending_input());
    assert_eq!(Some('a'), m.get_input());
    assert_eq!(Some('🦀'), m.get_input());
    assert_eq!(None, m.get_input());
}

#[test]
fn input_buffer_drops_characters_when_full() {
    let mut m = Multiplexed::new(Loopback::default(), None);
    for _ in 0..40 {
        let _ = m.post_process_received_output(fifo_of(&[IO_MSG_SLUG, b'x', 0, 0, 0]));
    }
    let mut n = 0;
    while m.get_input().is_some() {
        n += 1;
    }
    assert_eq!(32, n);
}

#[test]
fn bad_messages_are_counted() {
    let mut m = Multiplexed::new(Loopback::default(), None);
    assert_eq!(
        Err(Some(MultiplexedRecvError::EmptyMessageFromInnerTransport)),
        m.post_process_received_output(Fifo::new()).map(|f| f.to_vec())
    );
    assert_eq!(
        Err(Some(MultiplexedRecvError::UnknownSlug { got: 7 })),
        m.post_process_received_output(fifo_of(&[7, 1])).map(|f| f.to_vec())
    );
    assert_eq!(
        Err(Some(MultiplexedRecvError::InvalidIoMsgLength { length: 2 })),
        m.post_process_received_output(fifo_of(&[IO_MSG_SLUG, 1, 2])).map(|f| f.to_vec())
    );
    let r = m.post_process_received_output(fifo_of(&[IO_MSG_SLUG, 0xFF, 0, 0, 0]));
    assert!(matches!(r, Err(Some(MultiplexedRecvError::CharacterDecodeError(Some(_))))));
    assert_eq!(4, m.num_get_errors());
}

#[test]
fn get_goes_through_the_inner_transport() {
    let mut inner = Loopback::default();
    inner.inbox.push(vec![CONTROL_MSG_SLUG, 9]);
    inner.inbox.push(vec![IO_MSG_SLUG, b'z', 0, 0, 0]);
    let mut m = Multiplexed::new(inner, None);
    assert_eq!(vec![9u8], Transport::get(&mut m).unwrap().to_vec());
    assert!(matches!(Transport::blocking_get(&mut m), Err(None)));
    assert_eq!(Some('z'), MultiplexedTransport::get_input(&mut m));
    assert!(matches!(Transport::get(&mut m), Err(None)));
}

#[test]
fn control_sends_carry_the_slug_first() {
    let mut m = Multiplexed::new(Loopback::default(), None);
    assert_eq!(Ok(()), m.send(&[5, 6]));
    assert_eq!(vec![vec![CONTROL_MSG_SLUG], vec![5, 6]], m.get_inner().sent);
}

#[test]
fn output_characters_are_framed() {
    let mut m = Multiplexed::new(Loopback::default(), None);
    assert_eq!(Ok(()), m.put_output('A'));
    assert_eq!(vec![vec![IO_MSG_SLUG, b'A', 0, 0, 0, SENTINEL_BYTE]], m.get_inner().sent);
    assert_eq!([IO_MSG_SLUG, 0xC3, 0xA9, 0, 0, SENTINEL_BYTE], output_bytes('é'));
}

#[test]
fn strings_are_chunked_by_the_send_limit() {
    let mut m = Multiplexed::new(Loopback::default(), Some(13));
    assert_eq!(Ok(()), m.put_string("abc"));
    let sent = &m.get_inner().sent;
    assert_eq!(2, sent.len());
    assert_eq!(12, sent[0].len());
    assert_eq!(vec![IO_MSG_SLUG, b'c', 0, 0, 0, SENTINEL_BYTE], sent[1]);

    let mut unbounded = Multiplexed::new(Loopback::default(), None);
    assert_eq!(Ok(()), unbounded.put_string("hello"));
    assert_eq!(1, unbounded.get_inner().sent.len());
    assert_eq!(30, unbounded.get_inner().sent[0].len());

    let mut empty = Multiplexed::new(Loopback::default(), Some(1));
    assert_eq!(Ok(()), empty.put_string(""));
    assert!(empty.get_inner().sent.is_empty());
}

#[test]
fn failed_sends_are_reported() {
    let inner = Loopback { fail_sends: true, ..Default::default() };
    let mut m = Multiplexed::new(inner, None);
    assert_eq!(Err(()), m.put_string("x"));
    assert_eq!(Err(()), m.put_output('x'));
    let mut w = m.as_writeable();
    assert_eq!(Err(()), w.write_str("hi"));
    assert_eq!(Err(()), w.write_char('h'));
}

#[test]
fn writeable_adapter_puts_out_text() {
    let mut m = Multiplexed::new(Loopback::default(), None);
    {
        let mut w = m.as_writeable();
        assert_eq!(Ok(()), w.write_str("ok"));
        assert_eq!(Ok(()), w.write_char('!'));
    }
    assert_eq!(2, m.get_inner().sent.len());
}

#[test]
fn output_chunk_concatenates_frames() {
    let chars = vec!['a', 'b', 'c'];
    let bytes = output_chunk(&chars, 1, 3);
    assert_eq!(
        vec![IO_MSG_SLUG, b'b', 0, 0, 0, 0, IO_MSG_SLUG, b'c', 0, 0, 0, 0],
        bytes
    );
}

#[test]
fn frames_end_at_the_sentinel() {
    let mut buf = Fifo::<u8>::with_capacity(8);
    assert!(matches!(accept_byte(&mut buf, 4), FrameEvent::Pending));
    assert!(matches!(accept_byte(&mut buf, 5), FrameEvent::Pending));
    match accept_byte(&mut buf, SENTINEL_BYTE) {
        FrameEvent::Complete(m) => assert_eq!(vec![4u8, 5], m.to_vec()),
        FrameEvent::Pending => panic!("the sentinel ends the message"),
    }
    assert!(buf.is_empty());
    assert_eq!(8, buf.capacity());
}

#[test]
fn receiver_steps() {
    let mut r = Receiver::new(4);
    assert!(r.has_room());
    assert!(matches!(r.step::<u8>(ReadOutcome::Byte(1), false), RecvStep::Continue));
    assert!(matches!(r.step::<u8>(ReadOutcome::WouldBlock, true), RecvStep::Continue));
    assert!(matches!(r.step::<u8>(ReadOutcome::WouldBlock, false), RecvStep::Done(Err(None))));
    assert!(matches!(r.step::<u8>(ReadOutcome::Failed(3), false), RecvStep::Done(Err(Some(3)))));
    assert_eq!(1, r.num_get_errors());
    match r.step::<u8>(ReadOutcome::Byte(SENTINEL_BYTE), false) {
        RecvStep::Done(Ok(m)) => assert_eq!(vec![1u8], m.to_vec()),
        _ => panic!("the sentinel ends the message"),
    }
    for b in 1..=4u8 {
        assert!(matches!(r.step::<u8>(ReadOutcome::Byte(b), false), RecvStep::Continue));
    }
    assert!(!r.has_room());
}

/// A sink that records the runs it takes and refuses the run numbered `refuse_at`.
#[derive(Default)]
struct Collect {
    runs: Vec<Vec<u8>>,
    refuse_at: Option<usize>,
}

impl ByteSink for Collect {
    type Err = usize;

    // The log is ghost state; at run time `runs` is the record.
    fn taken(&self) -> SentMessages {
        SentMessages::none()
    }

    fn accept(&mut self, bytes: &[u8]) -> Result<(), usize> {
        if self.refuse_at == Some(self.runs.len()) {
            return Err(self.runs.len());
        }
        self.runs.push(bytes.to_vec());
        Ok(())
    }
}

#[test]
fn consuming_empties_the_buffer() {
    let mut f = Fifo::<u8>::with_capacity(3);
    f.push_slice(&[1, 2, 3]).unwrap();
    assert_eq!(Some(1), f.pop());
    f.push(4).unwrap();
    let mut sink = Collect::default();
    assert_eq!(Ok(()), consume_slice(&mut f, &mut sink));
    assert_eq!(vec![vec![2u8, 3], vec![4u8]], sink.runs);
    assert!(f.is_empty());

    let mut g = fifo_of(&[7, 8]);
    let mut sink = Collect::default();
    assert_eq!(Ok(()), ConsumeData::consume(&mut g, &mut sink));
    assert_eq!(vec![vec![7u8], vec![8u8]], sink.runs);
    assert!(g.is_empty());

    let mut v = vec![1u8, 2];
    let mut sink = Collect::default();
    assert_eq!(Ok(()), ConsumeData::consume_slice(&mut v, &mut sink));
    assert_eq!(vec![vec![1u8, 2]], sink.runs);
    assert!(v.is_empty());
}

#[test]
fn a_refusing_sink_stops_consuming() {
    let mut f = fifo_of(&[1, 2, 3]);
    let mut sink = Collect { refuse_at: Some(1), ..Default::default() };
    assert_eq!(Err(1), consume_slice(&mut f, &mut sink));
    assert_eq!(vec![1u8, 2, 3], f.to_vec());

    let mut sink = Collect { refuse_at: Some(1), ..Default::default() };
    assert_eq!(Err(1), ConsumeData::consume(&mut f, &mut sink));
    assert_eq!(vec![3u8], f.to_vec());

    let mut v = vec![5u8];
    let mut sink = Collect { refuse_at: Some(0), ..Default::default() };
    assert_eq!(Err(0), ConsumeData::consume_slice(&mut v, &mut sink));
    assert_eq!(vec![5u8], v);
}

#[test]
fn extend_limits() {
    let mut f = Fifo::<u8>::with_capacity(10);
    f.push_slice(&[1, 2, 3]).unwrap();
    assert_eq!(Some(7), f.limit());
    assert_eq!(None, Vec::<u8>::new().limit());
    assert_eq!(Some(7), DynFifoBorrow(&mut f).limit());
}

/// A DMA channel that records what it is told.
#[derive(Default)]
struct FakeDma {
    in_progress: bool,
    transferred: usize,
    starts: usize,
    stops: usize,
    destination: usize,
    length: usize,
}

impl DmaChannel for FakeDma {
    fn dma_destination(&self) -> usize {
        self.destination
    }
    fn dma_length(&self) -> usize {
        self.length
    }
    fn dma_running(&self) -> bool {
        self.in_progress
    }
    fn dma_transferred(&self) -> usize {
        self.transferred
    }
    fn dma_device_init(&mut self) {}
    fn dma_set_destination_address(&mut self, address: usize) {
        self.destination = address;
    }
    fn dma_set_source_address(&mut self, _address: usize) {}
    fn dma_set_transfer_length(&mut self, len: usize) {
        self.length = len;
    }
    fn dma_start(&mut self) {
        self.starts += 1;
        self.in_progress = true;
    }
    fn dma_stop(&mut self) {
        self.stops += 1;
    }
    fn dma_in_progress(&mut self) -> bool {
        self.in_progress
    }
    fn dma_num_bytes_transferred(&mut self) -> usize {
        self.transferred
    }
}

#[test]
fn dma_collection() {
    let mut f = Fifo::<u8>::new();
    assert_eq!(1, collect_dma_bytes(&mut f, &[5, 6, 0]));
    assert_eq!(vec![5u8, 6], f.to_vec());
    let mut g = Fifo::<u8>::new();
    assert_eq!(0, collect_dma_bytes(&mut g, &[5, 6]));
    assert!(g.is_empty());
    let mut h = Fifo::<u8>::new();
    assert_eq!(2, collect_dma_bytes(&mut h, &[0, 9, 0]));
    assert_eq!(vec![0u8, 9, 0, 9], h.to_vec());
}

#[test]
fn a_transfer_decides_the_channel_action() {
    let mut f = Fifo::<u8>::new();
    let (action, r) = take_transfer(&mut f, false, 0, &[1, 0]);
    assert_eq!(DmaAction::Start, action);
    assert!(matches!(r, Err(None)));
    let (action, r) = take_transfer(&mut f, true, 1, &[1, 0]);
    assert_eq!(DmaAction::Nothing, action);
    assert!(matches!(r, Err(None)));
    assert!(f.is_empty());
    let (action, r) = take_transfer(&mut f, true, 9, &[1, 0, 2, 0]);
    assert_eq!(DmaAction::StopAndRestart(2), action);
    assert_eq!(vec![1u8, 0, 2, 1, 0, 2], r.unwrap().to_vec());
    assert!(f.is_empty());
}

#[test]
fn dma_receiver_gets_messages() {
    let mut r = DmaReceiver::new(FakeDma::default(), 0x2000, 1024);
    let buffer = [3u8, 4, 0, 0];
    assert!(matches!(r.get(&buffer), Err(None)));
    let mut r2 = DmaReceiver::new(FakeDma { in_progress: true, transferred: 2, ..Default::default() }, 0x2000, 1024);
    assert!(matches!(r2.get(&buffer), Err(None)));
    let mut r3 = DmaReceiver::new(FakeDma { in_progress: true, transferred: 3, ..Default::default() }, 0x2000, 1024);
    assert_eq!(vec![3u8, 4], r3.get(&buffer).unwrap().to_vec());
}

#[test]
fn chunking_does_not_change_the_bytes() {
    let chars = vec!['x', 'é', '🦀', 'q'];
    let mut joined = output_chunk(&chars, 0, 1);
    joined.extend(output_chunk(&chars, 1, 4));
    assert_eq!(output_chunk(&chars, 0, 4), joined);
}

#[test]
fn a_frame_is_received_intact() {
    let mut r = Receiver::new(16);
    assert!(matches!(r.step::<u8>(ReadOutcome::Byte(9), false), RecvStep::Continue));
    for b in [1u8, 2, 3] {
        assert!(matches!(r.step::<u8>(ReadOutcome::Byte(b), false), RecvStep::Continue));
    }
    match r.step::<u8>(ReadOutcome::Byte(SENTINEL_BYTE), false) {
        RecvStep::Done(Ok(m)) => assert_eq!(vec![9u8, 1, 2, 3], m.to_vec()),
        _ => panic!("the sentinel ends the message"),
    }
}

#[test]
fn an_output_frame_reads_back_as_input() {
    let mut m = Multiplexed::new(Loopback::default(), None);
    let frame = output_bytes('ж');
    let r = m.post_process_received_output(fifo_of(&frame[..5]));
    assert!(matches!(r, Err(None)));
    assert_eq!(Some('ж'), m.get_input());
}

#[test]
fn borrowed_queues_are_consumed_in_place() {
    let mut f = fifo_of(&[4, 5, 6]);
    {
        let mut borrow = DynFifoBorrow(&mut f);
        let mut sink = Collect::default();
        assert_eq!(Ok(()), ConsumeData::consume(&mut borrow, &mut sink));
        assert_eq!(3, sink.runs.len());
    }
    assert!(f.is_empty());
    f.push_slice(&[1, 2]).unwrap();
    {
        let mut borrow = DynFifoBorrow(&mut f);
        let mut sink = Collect::default();
        assert_eq!(Ok(()), ConsumeData::consume_slice(&mut borrow, &mut sink));
        assert_eq!(vec![vec![1u8, 2], vec![]], sink.runs);
    }
    assert!(f.is_empty());
}

#[test]
fn empty_strings_send_nothing_and_succeed() {
    let inner = Loopback { fail_sends: true, ..Default::default() };
    let mut m = Multiplexed::new(inner, Some(6));
    assert_eq!(Ok(()), m.put_string(""));
    let mut w = m.as_writeable();
    assert_eq!(Ok(()), w.write_str(""));
}
