use eventio::pcap::{frame_of, Block, Input as PcapInput, Reply, Request, PCAP_BUFFER_SIZE};
use eventio::select::{Action, Signal};
use eventio::{Error, Input};
use pcap_parser::traits::PcapReaderIterator;
use pcap_parser::{create_reader, LegacyPcapBlock, PcapBlockOwned, PcapError, PcapHeader, ToVec};
use std::io::Cursor;

fn create_pcap() -> Cursor<Vec<u8>> {
    let fake_content = b"fake packet";
    let pkt = LegacyPcapBlock {
        ts_sec: 0,
        ts_usec: 0,
        caplen: fake_content.len() as u32,
        origlen: fake_content.len() as u32,
        data: fake_content,
    }
    .to_vec_raw()
    .unwrap();
    let mut buf = PcapHeader::new().to_vec_raw().unwrap();
    for _ in (0..10).into_iter() {
        buf.extend(pkt.iter());
    }
    Cursor::new(buf)
}

fn convert(block: &PcapBlockOwned<'_>) -> Block {
    match block {
        PcapBlockOwned::NG(pcap_parser::Block::EnhancedPacket(epb)) => {
            Block::EnhancedPacket { data: epb.data.to_vec(), caplen: epb.caplen }
        }
        PcapBlockOwned::NG(pcap_parser::Block::SimplePacket(spb)) => {
            Block::SimplePacket { data: spb.data.to_vec(), block_len1: spb.block_len1 }
        }
        PcapBlockOwned::NG(_) | PcapBlockOwned::LegacyHeader(_) => Block::Other,
        PcapBlockOwned::Legacy(lpb) => Block::Legacy { data: lpb.data.to_vec(), caplen: lpb.caplen },
    }
}

fn answer(reader: &mut Box<dyn PcapReaderIterator + Send>, request: Request) -> Reply {
    match request {
        Request::Next => match reader.next() {
            Ok((offset, block)) => {
                let block = convert(&block);
                reader.consume_noshift(offset);
                Reply::Block(block)
            }
            Err(PcapError::Eof) => Reply::Eof,
            Err(PcapError::Incomplete(_)) => Reply::Incomplete,
            Err(e) => Reply::Failed(format!("{:?}", e)),
        },
        Request::Refill => Reply::Refilled(reader.refill().map_err(|e| format!("{:?}", e))),
    }
}

#[test]
fn pcap_input() {
    let tester = create_pcap();
    let mut reader = create_reader(PCAP_BUFFER_SIZE, tester).expect("pcap error");
    let mut input = PcapInput::with_read();

    let mut events = Vec::new();
    let mut numbers = Vec::new();
    let mut action = input.start();
    loop {
        match action {
            Action::Request(request) => {
                action = input.step(Signal::Reply(answer(&mut reader, request)));
            }
            Action::Offer(event) => {
                let ack = event.seq_no;
                numbers.push(event.seq_no);
                events.push(event.raw);
                action = input.step(Signal::Sent);
                assert!(matches!(action, Action::Request(Request::Next)));
                let _ = ack;
            }
            Action::Drain => action = input.step(Signal::AckClosed),
            Action::Done(result) => {
                result.unwrap();
                break;
            }
            Action::Resume => unreachable!(),
        }
    }

    assert_eq!(events.len(), 10);
    assert!(events.iter().all(|raw| raw == b"fake packet"));
    assert_eq!(numbers, (1..=10).collect::<Vec<u64>>());
}

#[test]
fn pcap_frame_is_the_captured_part_of_the_data() {
    let data = b"0123456789".to_vec();
    assert_eq!(
        frame_of(&Block::EnhancedPacket { data: data.clone(), caplen: 4 }),
        Some(b"0123".to_vec())
    );
    assert_eq!(
        frame_of(&Block::Legacy { data: data.clone(), caplen: 10 }),
        Some(b"0123456789".to_vec())
    );
    assert_eq!(
        frame_of(&Block::SimplePacket { data: data.clone(), block_len1: 16 + 7 }),
        Some(b"0123456".to_vec())
    );
}

#[test]
fn pcap_blocks_without_a_frame() {
    let data = b"0123456789".to_vec();
    assert_eq!(frame_of(&Block::Other), None);
    assert_eq!(frame_of(&Block::EnhancedPacket { data: data.clone(), caplen: 0 }), None);
    assert_eq!(frame_of(&Block::EnhancedPacket { data: data.clone(), caplen: 11 }), None);
    assert_eq!(frame_of(&Block::Legacy { data: data.clone(), caplen: 11 }), None);
    assert_eq!(frame_of(&Block::Legacy { data: Vec::new(), caplen: 0 }), None);
    assert_eq!(frame_of(&Block::SimplePacket { data: data.clone(), block_len1: 16 }), None);
    assert_eq!(frame_of(&Block::SimplePacket { data: data.clone(), block_len1: 15 }), None);
    assert_eq!(frame_of(&Block::SimplePacket { data: data.clone(), block_len1: 0 }), None);
    assert_eq!(frame_of(&Block::SimplePacket { data, block_len1: 16 + 11 }), None);
}

#[test]
fn pcap_blocks_without_a_packet_are_passed_over() {
    let mut input = PcapInput::with_read();
    assert!(matches!(input.start(), Action::Request(Request::Next)));
    assert!(matches!(
        input.step(Signal::Reply(Reply::Block(Block::Other))),
        Action::Request(Request::Next)
    ));
    match input.step(Signal::Reply(Reply::Block(Block::Legacy { data: b"abc".to_vec(), caplen: 2 }))) {
        Action::Offer(event) => assert_eq!((event.raw, event.seq_no), (b"ab".to_vec(), 1)),
        _ => panic!("the packet is offered"),
    }
    assert!(matches!(input.step(Signal::Ack(9)), Action::Resume));
    assert!(matches!(input.step(Signal::Sent), Action::Request(Request::Next)));
    assert!(matches!(
        input.step(Signal::Reply(Reply::Block(Block::EnhancedPacket { data: b"abc".to_vec(), caplen: 9 }))),
        Action::Request(Request::Next)
    ));
    match input.step(Signal::Reply(Reply::Block(Block::EnhancedPacket {
        data: b"abc".to_vec(),
        caplen: 3,
    }))) {
        Action::Offer(event) => assert_eq!((event.raw, event.seq_no), (b"abc".to_vec(), 2)),
        _ => panic!("the packet is offered"),
    }
    assert!(matches!(input.step(Signal::Sent), Action::Request(Request::Next)));
    assert!(matches!(input.step(Signal::Reply(Reply::Eof)), Action::Drain));
    assert!(matches!(input.step(Signal::Ack(1)), Action::Drain));
    assert!(matches!(input.step(Signal::AckClosed), Action::Done(Ok(()))));
}

#[test]
fn pcap_incomplete_block_asks_for_a_refill() {
    let mut input = PcapInput::with_read();
    assert!(matches!(input.start(), Action::Request(Request::Next)));
    assert!(matches!(input.step(Signal::Reply(Reply::Incomplete)), Action::Request(Request::Refill)));
    assert!(matches!(
        input.step(Signal::Reply(Reply::Refilled(Ok(())))),
        Action::Request(Request::Next)
    ));
    assert!(matches!(input.step(Signal::Reply(Reply::Incomplete)), Action::Request(Request::Refill)));
    match input.step(Signal::Reply(Reply::Refilled(Err("ReadError".to_string())))) {
        Action::Done(Err(Error::CannotFetch(cause))) => {
            assert_eq!(cause, "cannot read packet from pcap: ReadError")
        }
        _ => panic!("a failed refill ends the run"),
    }
}

#[test]
fn pcap_unreadable_capture_is_cannot_fetch() {
    let mut input = PcapInput::with_read();
    assert!(matches!(input.start(), Action::Request(Request::Next)));
    match input.step(Signal::Reply(Reply::Failed("HeaderNotRecognized".to_string()))) {
        Action::Done(Err(Error::CannotFetch(cause))) => {
            assert_eq!(cause, "cannot read packet from pcap: HeaderNotRecognized")
        }
        _ => panic!("a failed read ends the run"),
    }
    assert!(matches!(input.step(Signal::Reply(Reply::Eof)), Action::Done(Err(Error::Fatal(_)))));
}

#[test]
fn pcap_closed_channel_begins_shutdown() {
    let mut input = PcapInput::with_read();
    assert!(matches!(input.start(), Action::Request(Request::Next)));
    assert!(matches!(
        input.step(Signal::Reply(Reply::Block(Block::Legacy { data: b"abc".to_vec(), caplen: 3 }))),
        Action::Offer(_)
    ));
    assert!(matches!(input.step(Signal::DataClosed), Action::Drain));
    assert!(matches!(input.step(Signal::AckClosed), Action::Done(Ok(()))));
    assert!(matches!(input.start(), Action::Done(Err(Error::ChannelClosed))));
}

#[test]
fn pcap_reply_out_of_turn_is_fatal() {
    let mut input = PcapInput::with_read();
    assert!(matches!(input.start(), Action::Request(Request::Next)));
    match input.step(Signal::Reply(Reply::Refilled(Ok(())))) {
        Action::Done(Err(Error::Fatal(message))) => assert_eq!(message, "unexpected signal"),
        _ => panic!("a reply to another request is refused"),
    }
    let mut input = PcapInput::with_read();
    assert!(matches!(input.start(), Action::Request(Request::Next)));
    assert!(matches!(input.step(Signal::Sent), Action::Done(Err(Error::Fatal(_)))));
}
