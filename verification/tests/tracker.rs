use clash_lib::chain::{ChainedStream, ChainedStreamWrapper, ProxyChain};
use clash_lib::session::{IpAddress, Network, Session, SocketAddress, SocksAddr, UdpPacket};
use clash_lib::tracker::{
    count, receive_verdict, transfer_verdict, CloseSignal, TrackedDatagram, TrackedStream,
    TrackerHandle, TransferError, Verdict, WriteOutcome,
};

fn client() -> SocketAddress {
    SocketAddress { ip: IpAddress::V4(0x7f00_0001), port: 50000 }
}

fn session(network: Network) -> Session {
    Session {
        network,
        source: client(),
        destination: SocksAddr::Domain("example.com".to_string(), 443),
        outbound_target: "direct".to_string(),
    }
}

fn packet(len: usize) -> UdpPacket {
    UdpPacket {
        data: vec![7u8; len],
        src_addr: SocksAddr::Ip(client()),
        dst_addr: SocksAddr::Domain("example.com".to_string(), 53),
    }
}

fn chained(names: &[&str]) -> ChainedStreamWrapper<Vec<u8>> {
    let mut inner = ChainedStreamWrapper::new(Vec::new());
    for n in names {
        inner.append_to_chain(n);
    }
    inner
}

#[test]
fn verdicts_follow_the_close_signal() {
    assert_eq!(transfer_verdict(CloseSignal::Empty), Verdict::Pass);
    assert_eq!(transfer_verdict(CloseSignal::Fired), Verdict::BrokenPipe);
    assert_eq!(transfer_verdict(CloseSignal::Closed), Verdict::BrokenPipe);
    assert_eq!(receive_verdict(CloseSignal::Empty), Verdict::Pass);
    assert_eq!(receive_verdict(CloseSignal::Fired), Verdict::EndOfStream);
    assert_eq!(receive_verdict(CloseSignal::Closed), Verdict::EndOfStream);
}

#[test]
fn count_adds_and_wraps() {
    assert_eq!(count(0, 0), 0);
    assert_eq!(count(10, 5), 15);
    assert_eq!(count(u64::MAX - 1, 1), u64::MAX);
    assert_eq!(count(u64::MAX, 1), 0);
    assert_eq!(count(u64::MAX, 10), 9);
}

#[test]
fn stream_record_starts_empty_and_takes_the_chain() {
    let inner = chained(&["relay-A", "vmess-B"]);
    let (stream, handle, _tx) =
        TrackedStream::new(inner, session(Network::Tcp), Some(("DomainSuffix", "example.com")));
    let info = stream.tracker_info();
    assert_eq!(info.uuid, stream.id());
    assert_eq!(info.upload_total, 0);
    assert_eq!(info.download_total, 0);
    assert_eq!(info.rule, "DomainSuffix");
    assert_eq!(info.rule_payload, "example.com");
    assert_eq!(info.proxy_chain_holder.names(), vec!["relay-A".to_string(), "vmess-B".to_string()]);
    assert_eq!(info.session_holder.source, client());
    assert_eq!(info.session_holder.network, Network::Tcp);
    assert_eq!(info.session_holder.outbound_target, "direct");
    assert!(matches!(&info.session_holder.destination, SocksAddr::Domain(d, 443) if d == "example.com"));
    assert!(info.start_time.secs > 1_500_000_000);
    assert!(info.start_time.nanos < 1_000_000_000);
    assert_eq!(handle.id(), stream.id());
    assert_eq!(handle.tracker_info().uuid, stream.id());
    assert_eq!(stream.inner().chain().len(), 2);
}

#[test]
fn stream_without_rule_has_empty_rule_texts() {
    let (stream, _handle, _tx) = TrackedStream::new(chained(&[]), session(Network::Tcp), None);
    let info = stream.tracker_info();
    assert_eq!(info.rule, "");
    assert_eq!(info.rule_payload, "");
    assert_eq!(info.proxy_chain_holder.len(), 0);
}

#[test]
fn tracked_handle_id_is_what_untrack_gets() {
    let (mut stream, handle, _tx) = TrackedStream::new(chained(&["direct"]), session(Network::Tcp), None);
    let tracked_as = handle.id();
    assert_eq!(stream.poll_read(), Verdict::Pass);
    stream.read_polled(10);
    stream.write_polled(WriteOutcome::Accepted(3));
    assert_eq!(stream.poll_shutdown(), Verdict::Pass);
    assert_eq!(stream.id(), tracked_as);

    let (mut datagram, handle, _tx) = TrackedDatagram::new((), session(Network::Udp), None);
    let tracked_as = handle.id();
    datagram.start_send(&packet(4)).unwrap();
    datagram.next_polled(Some(&packet(5)));
    assert_eq!(datagram.id(), tracked_as);
}

#[test]
fn identifiers_are_random_version_four() {
    let (a, _, _ta) = TrackedStream::new(chained(&[]), session(Network::Tcp), None);
    let (b, _, _tb) = TrackedStream::new(chained(&[]), session(Network::Tcp), None);
    assert_ne!(a.id(), b.id());
    assert_eq!(a.id().get_version_num(), 4);
    assert_eq!(b.id().get_version_num(), 4);
}

#[test]
fn stream_passes_while_the_signal_is_silent() {
    let (mut stream, _handle, _tx) = TrackedStream::new(chained(&[]), session(Network::Tcp), None);
    for _ in 0..3 {
        assert_eq!(stream.poll_read(), Verdict::Pass);
        assert_eq!(stream.poll_write(), Verdict::Pass);
        assert_eq!(stream.poll_flush(), Verdict::Pass);
        assert_eq!(stream.poll_shutdown(), Verdict::Pass);
    }
}

#[test]
fn stream_breaks_once_the_signal_fired() {
    let (mut stream, _handle, tx) = TrackedStream::new(chained(&[]), session(Network::Tcp), None);
    assert_eq!(stream.poll_read(), Verdict::Pass);
    tx.send(()).unwrap();
    assert_eq!(stream.poll_read(), Verdict::BrokenPipe);
    assert_eq!(stream.poll_read(), Verdict::BrokenPipe);
    assert_eq!(stream.poll_write(), Verdict::BrokenPipe);
    assert_eq!(stream.poll_flush(), Verdict::BrokenPipe);
    assert_eq!(stream.poll_shutdown(), Verdict::BrokenPipe);
}

#[test]
fn stream_breaks_when_the_sender_is_dropped() {
    let (mut stream, _handle, tx) = TrackedStream::new(chained(&[]), session(Network::Tcp), None);
    drop(tx);
    assert_eq!(stream.poll_write(), Verdict::BrokenPipe);
    assert_eq!(stream.poll_read(), Verdict::BrokenPipe);
}

#[test]
fn stream_counts_reads_whatever_the_poll_gave() {
    let (mut stream, handle, _tx) = TrackedStream::new(chained(&[]), session(Network::Tcp), None);
    assert_eq!(stream.read_polled(100), 100);
    assert_eq!(stream.read_polled(0), 0);
    assert_eq!(stream.read_polled(23), 23);
    let info = stream.tracker_info();
    assert_eq!(info.download_total, 123);
    assert_eq!(info.upload_total, 0);
    assert_eq!(handle.tracker_info().download_total, 0);
}

#[test]
fn stream_counts_only_accepted_writes() {
    let (mut stream, _handle, _tx) = TrackedStream::new(chained(&[]), session(Network::Tcp), None);
    assert_eq!(stream.write_polled(WriteOutcome::Accepted(40)), Some(40));
    assert_eq!(stream.write_polled(WriteOutcome::Pending), None);
    assert_eq!(stream.write_polled(WriteOutcome::Failed), None);
    assert_eq!(stream.write_polled(WriteOutcome::Accepted(0)), Some(0));
    assert_eq!(stream.write_polled(WriteOutcome::Accepted(2)), Some(2));
    let info = stream.tracker_info();
    assert_eq!(info.upload_total, 42);
    assert_eq!(info.download_total, 0);
}

#[test]
fn counters_equal_one_mebibyte_each_way() {
    let (mut stream, _handle, _tx) = TrackedStream::new(chained(&["direct"]), session(Network::Tcp), None);
    let mut last_up = 0;
    let mut last_down = 0;
    for _ in 0..128 {
        assert_eq!(stream.poll_write(), Verdict::Pass);
        stream.write_polled(WriteOutcome::Accepted(8192));
        assert_eq!(stream.poll_read(), Verdict::Pass);
        stream.read_polled(8192);
        let info = stream.tracker_info();
        assert!(info.upload_total > last_up);
        assert!(info.download_total > last_down);
        last_up = info.upload_total;
        last_down = info.download_total;
    }
    assert_eq!(last_up, 1024 * 1024);
    assert_eq!(last_down, 1024 * 1024);
}

#[test]
fn stream_inner_can_be_reached_and_changed() {
    let (mut stream, _handle, _tx) = TrackedStream::new(chained(&["a"]), session(Network::Tcp), None);
    stream.inner_mut().inner_mut().push(9);
    assert_eq!(stream.inner().inner(), &vec![9u8]);
    assert_eq!(stream.tracker_info().download_total, 0);
}

#[test]
fn datagram_record_starts_with_an_empty_chain() {
    let (datagram, handle, _tx) =
        TrackedDatagram::new(5u8, session(Network::Udp), Some(("Match", "")));
    let info = datagram.tracker_info();
    assert_eq!(info.uuid, datagram.id());
    assert_eq!(handle.id(), datagram.id());
    assert_eq!(info.rule, "Match");
    assert_eq!(info.rule_payload, "");
    assert_eq!(info.proxy_chain_holder.len(), 0);
    assert_eq!(info.upload_total, 0);
    assert_eq!(info.download_total, 0);
    assert_eq!(info.session_holder.network, Network::Udp);
    assert_eq!(*datagram.inner(), 5);
}

#[test]
fn datagram_counts_payloads() {
    let (mut datagram, _handle, _tx) = TrackedDatagram::new((), session(Network::Udp), None);
    assert_eq!(datagram.poll_ready(), Verdict::Pass);
    assert_eq!(datagram.start_send(&packet(10)), Ok(10));
    assert_eq!(datagram.start_send(&packet(0)), Ok(0));
    assert_eq!(datagram.start_send(&packet(32)), Ok(32));
    assert_eq!(datagram.poll_next(), Verdict::Pass);
    assert_eq!(datagram.next_polled(Some(&packet(1200))), Some(1200));
    assert_eq!(datagram.next_polled(None), None);
    assert_eq!(datagram.next_polled(Some(&packet(300))), Some(300));
    let info = datagram.tracker_info();
    assert_eq!(info.upload_total, 42);
    assert_eq!(info.download_total, 1500);
}

#[test]
fn datagram_ends_once_the_signal_fired() {
    let (mut datagram, _handle, tx) = TrackedDatagram::new((), session(Network::Udp), None);
    assert_eq!(datagram.poll_next(), Verdict::Pass);
    tx.send(()).unwrap();
    assert_eq!(datagram.poll_next(), Verdict::EndOfStream);
    assert_eq!(datagram.poll_next(), Verdict::EndOfStream);
    assert_eq!(datagram.poll_ready(), Verdict::BrokenPipe);
    assert_eq!(datagram.poll_flush(), Verdict::BrokenPipe);
    assert_eq!(datagram.poll_close(), Verdict::BrokenPipe);
    assert_eq!(datagram.start_send(&packet(10)), Err(TransferError::BrokenPipe));
    assert_eq!(datagram.tracker_info().upload_total, 0);
}

#[test]
fn datagram_ends_when_the_sender_is_dropped() {
    let (mut datagram, _handle, tx) = TrackedDatagram::new((), session(Network::Udp), None);
    drop(tx);
    assert_eq!(datagram.start_send(&packet(10)), Err(TransferError::BrokenPipe));
    assert_eq!(datagram.poll_next(), Verdict::EndOfStream);
    assert_eq!(datagram.tracker_info().upload_total, 0);
}

#[test]
fn send_started_counts_only_what_may_pass() {
    let (mut datagram, _handle, _tx) = TrackedDatagram::new((), session(Network::Udp), None);
    assert_eq!(datagram.send_started(Verdict::Pass, &packet(8)), Ok(8));
    assert_eq!(datagram.send_started(Verdict::BrokenPipe, &packet(8)), Err(TransferError::BrokenPipe));
    assert_eq!(datagram.send_started(Verdict::EndOfStream, &packet(8)), Err(TransferError::BrokenPipe));
    assert_eq!(datagram.tracker_info().upload_total, 8);
}

#[test]
fn tracker_handle_keeps_what_it_was_made_with() {
    let (stream, _h, _tx) = TrackedStream::new(chained(&[]), session(Network::Tcp), None);
    let info = stream.tracker_info();
    let handle = TrackerHandle::new(stream.id(), info.clone());
    assert_eq!(handle.id(), stream.id());
    assert!(std::sync::Arc::ptr_eq(&handle.tracker_info(), &info));
}

#[test]
fn chain_grows_at_the_end() {
    let mut chain = ProxyChain::new();
    assert_eq!(chain.len(), 0);
    chain.push("relay-A".to_string());
    chain.push("vmess-B".to_string());
    assert_eq!(chain.len(), 2);
    assert_eq!(chain.get(0), "relay-A");
    assert_eq!(chain.get(1), "vmess-B");
    let copy = chain.clone();
    chain.push("direct".to_string());
    assert_eq!(copy.names(), vec!["relay-A".to_string(), "vmess-B".to_string()]);
    assert_eq!(chain.names().len(), 3);
    assert_eq!(ProxyChain::default().len(), 0);
}

#[test]
fn chained_wrapper_starts_with_an_empty_chain() {
    let mut wrapper = ChainedStreamWrapper::new(3u32);
    assert_eq!(wrapper.chain().len(), 0);
    assert_eq!(*wrapper.inner(), 3);
    wrapper.append_to_chain("direct");
    assert_eq!(wrapper.chain().names(), vec!["direct".to_string()]);
    *wrapper.inner_mut() = 4;
    assert_eq!(wrapper.chain().len(), 1);
    assert_eq!(wrapper.into_inner(), 4);
}

#[test]
fn close_signal_is_not_seen_before_it_comes() {
    let (mut stream, _handle, _tx) = TrackedStream::new(chained(&[]), session(Network::Tcp), None);
    assert!(!stream.is_latched());
    assert_eq!(stream.poll_read(), Verdict::Pass);
    stream.read_polled(5);
    assert!(!stream.is_latched());
    let (mut datagram, _handle, _tx) = TrackedDatagram::new((), session(Network::Udp), None);
    assert!(!datagram.is_latched());
    assert_eq!(datagram.start_send(&packet(3)), Ok(3));
    assert!(!datagram.is_latched());
}

#[test]
fn close_signal_stays_seen() {
    let (mut stream, _handle, tx) = TrackedStream::new(chained(&[]), session(Network::Tcp), None);
    tx.send(()).unwrap();
    assert!(!stream.is_latched());
    assert_eq!(stream.poll_flush(), Verdict::BrokenPipe);
    assert!(stream.is_latched());
    stream.write_polled(WriteOutcome::Accepted(1));
    stream.inner_mut().append_to_chain("late");
    assert!(stream.is_latched());
    assert_eq!(stream.poll_write(), Verdict::BrokenPipe);
    assert!(stream.is_latched());

    let (mut datagram, _handle, tx) = TrackedDatagram::new((), session(Network::Udp), None);
    drop(tx);
    assert_eq!(datagram.poll_next(), Verdict::EndOfStream);
    assert!(datagram.is_latched());
    assert_eq!(datagram.start_send(&packet(3)), Err(TransferError::BrokenPipe));
    assert_eq!(datagram.poll_close(), Verdict::BrokenPipe);
    assert!(datagram.is_latched());
    assert_eq!(datagram.tracker_info().upload_total, 0);
}
