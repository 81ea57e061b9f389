//! Packets through the relay.

use hpn::net::{IpAddr, SocketAddr};
use hpn::relay::batch::{
    sockaddr_to_std, std_to_sockaddr, FlushAction, ReceivedPacket, RecvBatch, SendBatch,
    SendOutcome, MAX_BATCH_SIZE,
};
use hpn::relay::config::RelayConfig;
use hpn::relay::forward::{
    bind_addr_for, Completion, ForwardAction, ForwardEvent, ForwardPhase, HandshakeForward,
    ReassemblyStats, HANDSHAKE_RESPONSE_TIMEOUT_NS,
};
use hpn::relay::handshake_limiter::HandshakeRateLimiter;
use hpn::relay::http::{constant_time_eq, handle_request, MetricsHttpServer};
use hpn::relay::metrics::RelayMetrics;
use hpn::relay::server::{
    burst_continues, ClientAction, Received, RelayServer, UpstreamAction, RECV_BURST_BATCH,
};
use hpn::relay::session::SessionId;
use hpn::wire::{MessageType, PacketHeader};

fn client(n: u8) -> SocketAddr {
    SocketAddr::new(IpAddr::v4(192, 0, 2, n), 40000)
}

fn header(msg_type: MessageType, id: u64) -> Option<PacketHeader> {
    Some(PacketHeader { msg_type, session_id: SessionId(id) })
}

#[test]
fn test_sockaddr_roundtrip_v4() {
    let addr = SocketAddr::new(IpAddr::v4(192, 168, 1, 1), 51820);
    let storage = std_to_sockaddr(addr);
    let recovered = sockaddr_to_std(&storage);
    assert_eq!(recovered, Some(addr));
    assert_eq!(storage.family, 2);
    assert_eq!(storage.port, vec![0xca, 0x6c]);
    assert_eq!(storage.ip, vec![192, 168, 1, 1]);
}

#[test]
fn test_sockaddr_roundtrip_v6() {
    let addr = SocketAddr::new(IpAddr::V6(1), 51820);
    let storage = std_to_sockaddr(addr);
    let recovered = sockaddr_to_std(&storage);
    assert_eq!(recovered, Some(addr));
    let scoped = SocketAddr { ip: IpAddr::V6(0xfe80 << 112), port: 1, flowinfo: 7, scope_id: 3 };
    assert_eq!(sockaddr_to_std(&std_to_sockaddr(scoped)), Some(scoped));
    let mut unknown = std_to_sockaddr(scoped);
    unknown.family = 1;
    assert_eq!(sockaddr_to_std(&unknown), None);
}

#[test]
fn test_address_conversion() {
    // Test IPv4
    let addr_v4 = SocketAddr::new(IpAddr::v4(192, 168, 1, 1), 12345);
    assert_eq!(sockaddr_to_std(&std_to_sockaddr(addr_v4)), Some(addr_v4));

    // Test IPv6
    let addr_v6 = SocketAddr::new(IpAddr::V6(0x2001_0db8_0000_0000_0000_0000_0000_0001), 54321);
    assert_eq!(sockaddr_to_std(&std_to_sockaddr(addr_v6)), Some(addr_v6));
}

#[test]
fn test_recv_batch_new() {
    let batch = RecvBatch::new(32, 1500);
    assert_eq!(batch.count(), 0);
    assert_eq!(batch.batch_size, 32);
}

#[test]
fn test_send_batch_new() {
    let batch = SendBatch::new(32, 1500);
    assert!(batch.is_empty());
    assert!(!batch.is_full());
}

#[test]
fn test_send_batch_add() {
    let mut batch = SendBatch::new(2, 1500);
    let addr = SocketAddr::new(IpAddr::v4(127, 0, 0, 1), 1234);

    assert!(batch.add(b"hello", addr));
    assert!(!batch.is_empty());
    assert!(!batch.is_full());

    assert!(batch.add(b"world", addr));
    assert!(batch.is_full());

    // Batch full
    assert!(!batch.add(b"overflow", addr));
    assert_eq!(batch.get(1).data, b"world");
    batch.clear();
    assert!(batch.is_empty());
}

#[test]
fn test_max_batch_size_cap() {
    let batch = RecvBatch::new(999, 1500);
    assert_eq!(batch.batch_size, MAX_BATCH_SIZE);
}

#[test]
fn lengths_beyond_the_buffer_are_cut() {
    let mut batch = RecvBatch::new(4, 4);
    batch.store(vec![
        ReceivedPacket { buffer: vec![1, 2, 3, 4], reported_len: 9, source: None },
        ReceivedPacket { buffer: vec![1, 2, 3, 4], reported_len: 2, source: Some(client(1)) },
    ]);
    assert_eq!(batch.count(), 2);
    assert_eq!(batch.get(0), (&[1u8, 2, 3, 4][..], None));
    assert_eq!(batch.get(1), (&[1u8, 2][..], Some(client(1))));
    let mut send = SendBatch::new(4, 3);
    assert!(send.add(b"hello", client(1)));
    assert_eq!(send.get(0).data, b"hel");
}

#[test]
fn a_batch_is_sent_in_three_calls_at_most() {
    let mut batch = SendBatch::new(10, 10);
    for i in 0..10 {
        assert!(batch.add(&[i], client(i)));
    }
    let (mut run, first) = batch.begin_flush();
    assert_eq!(first, FlushAction::Send { from: 0, count: 10 });
    assert_eq!(run.step(SendOutcome::Sent(3)), FlushAction::Send { from: 3, count: 7 });
    assert_eq!(run.step(SendOutcome::Sent(3)), FlushAction::Send { from: 6, count: 4 });
    assert_eq!(run.step(SendOutcome::Sent(3)), FlushAction::Done(9));
    let (mut run, _) = batch.begin_flush();
    assert_eq!(run.step(SendOutcome::Sent(10)), FlushAction::Done(10));
    let (mut run, _) = batch.begin_flush();
    run.step(SendOutcome::Sent(4));
    assert_eq!(run.step(SendOutcome::WouldBlock), FlushAction::Done(4));
    let (mut run, _) = batch.begin_flush();
    assert_eq!(run.step(SendOutcome::Failed), FlushAction::Failed);
    let (mut run, _) = batch.begin_flush();
    assert_eq!(run.step(SendOutcome::Sent(0)), FlushAction::Done(0));
    assert_eq!(SendBatch::new(1, 1).begin_flush().1, FlushAction::Done(0));
}

#[test]
fn test_relay_server_creation() {
    let config = RelayConfig::default();
    let relay = RelayServer::new(config);
    assert!(relay.is_ok());
}

#[test]
fn test_relay_config_validation() {
    let config = RelayConfig { max_sessions: 0, ..Default::default() };
    let relay = RelayServer::new(config);
    assert!(relay.is_err());
}

/// Runs a handshake up to where the upstream's answer is awaited.
fn waiting(relay: &mut RelayServer, from: SocketAddr) -> HandshakeForward {
    let mut f = relay.begin_handshake(true, from, 100).unwrap();
    assert_eq!(relay.step_handshake_at(&mut f, ForwardEvent::Bound(true), 10), ForwardAction::Connect);
    assert_eq!(
        relay.step_handshake_at(&mut f, ForwardEvent::Connected(true), 10),
        ForwardAction::SendUpstream
    );
    assert_eq!(
        relay.step_handshake_at(&mut f, ForwardEvent::Sent(true), 10),
        ForwardAction::Receive { timeout_ns: HANDSHAKE_RESPONSE_TIMEOUT_NS }
    );
    f
}

fn answer(msg_type: MessageType, id: u64, inner: Option<MessageType>) -> ForwardEvent {
    ForwardEvent::Received { len: 50, header: header(msg_type, id), inner }
}

#[test]
fn a_response_binds_its_session_to_the_client() {
    let mut relay = RelayServer::new(RelayConfig::default()).unwrap();
    let mut f = waiting(&mut relay, client(1));
    assert_eq!(
        relay.step_handshake_at(&mut f, answer(MessageType::HandshakeResponse, 77, None), 20),
        ForwardAction::SendToClient
    );
    assert_eq!(relay.session_count(), 1);
    assert_eq!(
        relay.step_handshake_at(&mut f, ForwardEvent::Delivered(true), 20),
        ForwardAction::Finish
    );
    assert_eq!(f.phase, ForwardPhase::Done);
    assert_eq!(relay.metrics().sessions_total, 1);
    // Its packets pass, those of others do not.
    let data = header(MessageType::Data, 77);
    assert_eq!(relay.handle_client_packet_at(data, client(1), 10, 30), ClientAction::Forward);
    assert_eq!(relay.handle_client_packet_at(data, client(2), 10, 30), ClientAction::Drop);
    assert_eq!(relay.handle_upstream_packet_at(data, 10, 30), UpstreamAction::Return(client(1)));
}

#[test]
fn an_undelivered_response_leaves_no_session() {
    let mut relay = RelayServer::new(RelayConfig::default()).unwrap();
    let mut f = waiting(&mut relay, client(1));
    relay.step_handshake_at(&mut f, answer(MessageType::HandshakeResponse, 77, None), 20);
    assert_eq!(
        relay.step_handshake_at(&mut f, ForwardEvent::Delivered(false), 20),
        ForwardAction::Finish
    );
    assert_eq!(relay.session_count(), 0);
    assert_eq!(relay.metrics().packets_dropped, 1);
    assert_eq!(relay.metrics().sessions_total, 0);
}

#[test]
fn fragments_go_to_the_client_and_bind_when_complete() {
    let none = ReassemblyStats { fragments_dropped: 0, entries_rejected: 0, fragments_duplicate: 0 };
    let twice = ReassemblyStats { fragments_duplicate: 1, ..none };
    let fragment = answer(MessageType::HandshakeFragment, 0, Some(MessageType::HandshakeResponse));
    let mut relay = RelayServer::new(RelayConfig::default()).unwrap();
    let mut f = waiting(&mut relay, client(1));
    assert_eq!(relay.step_handshake_at(&mut f, fragment, 20), ForwardAction::Reassemble);
    let missing =
        ForwardEvent::Reassembled { before: none, after: none, completion: Completion::Missing };
    assert_eq!(relay.step_handshake_at(&mut f, missing, 20), ForwardAction::SendToClient);
    assert_eq!(
        relay.step_handshake_at(&mut f, ForwardEvent::Delivered(true), 20),
        ForwardAction::Receive { timeout_ns: HANDSHAKE_RESPONSE_TIMEOUT_NS - 10 }
    );
    // A refused fragment does not reach the client.
    relay.step_handshake_at(&mut f, fragment, 20);
    let refused =
        ForwardEvent::Reassembled { before: none, after: twice, completion: Completion::Missing };
    assert!(matches!(
        relay.step_handshake_at(&mut f, refused, 20),
        ForwardAction::Receive { .. }
    ));
    assert_eq!(relay.metrics().packets_dropped, 1);
    // The last one completes the response.
    relay.step_handshake_at(&mut f, fragment, 20);
    let complete = ForwardEvent::Reassembled {
        before: none,
        after: none,
        completion: Completion::Session(SessionId(5)),
    };
    relay.step_handshake_at(&mut f, complete, 20);
    assert_eq!(relay.session_count(), 0);
    assert_eq!(
        relay.step_handshake_at(&mut f, ForwardEvent::Delivered(true), 20),
        ForwardAction::Finish
    );
    assert_eq!(relay.session_count(), 1);
}

#[test]
fn handshakes_end_without_an_answer() {
    let mut relay = RelayServer::new(RelayConfig::default()).unwrap();
    let mut f = waiting(&mut relay, client(1));
    assert_eq!(relay.step_handshake_at(&mut f, ForwardEvent::TimedOut, 20), ForwardAction::Finish);
    let mut f = waiting(&mut relay, client(1));
    assert_eq!(
        relay.step_handshake_at(
            &mut f,
            answer(MessageType::Data, 1, None),
            10 + HANDSHAKE_RESPONSE_TIMEOUT_NS
        ),
        ForwardAction::Finish
    );
    let mut f = relay.begin_handshake(true, client(1), 100).unwrap();
    assert_eq!(relay.step_handshake_at(&mut f, ForwardEvent::Bound(false), 20), ForwardAction::Finish);
    assert_eq!(relay.metrics().packets_dropped, 4);
    assert!(relay.begin_handshake(false, client(1), 100).is_none());
    assert_eq!(relay.metrics().packets_dropped, 5);
    // A cookie request goes back and ends it.
    let mut f = waiting(&mut relay, client(1));
    assert_eq!(
        relay.step_handshake_at(&mut f, answer(MessageType::CookieRequest, 0, None), 20),
        ForwardAction::SendToClient
    );
    assert_eq!(
        relay.step_handshake_at(&mut f, ForwardEvent::Delivered(true), 20),
        ForwardAction::Finish
    );
    assert_eq!(relay.session_count(), 0);
}

#[test]
fn sockets_are_bound_in_the_family_of_the_upstream() {
    assert_eq!(bind_addr_for(client(1)), "0.0.0.0:0");
    assert_eq!(bind_addr_for(SocketAddr::new(IpAddr::V6(1), 1)), "[::]:0");
}

#[test]
fn clients_cannot_make_sessions() {
    let mut relay = RelayServer::new(RelayConfig::default()).unwrap();
    let data = header(MessageType::Data, 9);
    assert_eq!(relay.handle_client_packet_at(None, client(1), 10, 1), ClientAction::Ignore);
    assert_eq!(relay.handle_client_packet_at(data, client(1), 10, 1), ClientAction::Drop);
    assert_eq!(
        relay.handle_client_packet_at(header(MessageType::HandshakeInit, 0), client(1), 10, 1),
        ClientAction::TryHandshake
    );
    assert_eq!(relay.session_count(), 0);
    assert_eq!(relay.handle_upstream_packet_at(data, 10, 1), UpstreamAction::Ignore);
    assert_eq!(
        relay.handle_upstream_packet_at(header(MessageType::HandshakeResponse, 9), 10, 1),
        UpstreamAction::Drop
    );
    assert_eq!(relay.batch_upstream_packet_at(data, 10, 1), UpstreamAction::Drop);
    assert_eq!(
        relay.batch_client_packet_at(header(MessageType::HandshakeInit, 0), Some(client(1)), 10, 1),
        ClientAction::Ignore
    );
    assert_eq!(relay.batch_client_packet_at(data, None, 10, 1), ClientAction::Ignore);
}

#[test]
fn handshakes_are_limited_for_each_source_and_for_all() {
    let mut limiter = HandshakeRateLimiter::new(2, 4);
    let ip = |n: u8| IpAddr::v4(10, 0, 0, n);
    assert!(limiter.allow_at(ip(1), 1_000));
    assert!(limiter.allow_at(ip(1), 2_000));
    assert!(!limiter.allow_at(ip(1), 3_000));
    // What a source is refused counts for all together.
    assert!(limiter.allow_at(ip(2), 4_000));
    assert!(!limiter.allow_at(ip(3), 5_000));
    assert!(limiter.allow_at(ip(3), 2_000_000_000));
}

#[test]
fn bursts_end() {
    assert!(burst_continues(0, Received::Packet(3)));
    assert!(!burst_continues(RECV_BURST_BATCH, Received::Packet(3)));
    assert!(!burst_continues(0, Received::WouldBlock));
    assert!(!burst_continues(0, Received::Failed));
}

#[test]
fn sending_probing_and_stopping_are_counted() {
    let mut relay = RelayServer::new(RelayConfig::default()).unwrap();
    relay.client_packet_sent(true, 10);
    relay.client_packet_sent(false, 10);
    relay.upstream_packet_sent(true, 20);
    assert_eq!(relay.metrics().packets_forwarded, 1);
    assert_eq!(relay.metrics().packets_returned, 1);
    assert!(!relay.is_shutdown());
    relay.shutdown();
    assert!(relay.is_shutdown());
    assert_eq!(relay.max_concurrent_handshakes(), 256);
    let probes = relay.metrics().upstream_probes_total;
    relay.probe_sent(false);
    assert_eq!(relay.metrics().upstream_probes_total, probes + 1);
    assert_eq!(relay.metrics().upstream_probes_failed, 1);
}

#[test]
fn idle_sessions_are_cleaned_up() {
    let mut relay = RelayServer::new(RelayConfig::default()).unwrap();
    let mut f = waiting(&mut relay, client(1));
    relay.step_handshake_at(&mut f, answer(MessageType::HandshakeResponse, 77, None), 20);
    relay.step_handshake_at(&mut f, ForwardEvent::Delivered(true), 20);
    assert_eq!(relay.cleanup_at(100_000_000_000), 0);
    assert_eq!(relay.cleanup_at(1_000_000_000_000), 1);
    assert_eq!(relay.session_count(), 0);
}

#[test]
fn metrics_are_served_to_those_with_the_token() {
    let metrics = RelayMetrics::new();
    let open = |r: &str, token: Option<&str>| {
        handle_request(r, &token.map(|t| t.to_string()), &metrics, 7)
    };
    let ok = open("GET /metrics HTTP/1.1\r\n\r\n", None);
    assert!(ok.starts_with("HTTP/1.1 200 OK\r\n"));
    let health = open("GET /health HTTP/1.1\r\n\r\n", None);
    assert!(health.ends_with("\r\n\r\nOK\nUptime: 7s\nSessions: 0\n"));
    assert!(open("GET /other HTTP/1.1\r\n\r\n", None).starts_with("HTTP/1.1 404 Not Found\r\n"));
    let denied = open("GET /metrics HTTP/1.1\r\n\r\n", Some("secret"));
    assert!(denied.starts_with("HTTP/1.1 401 Unauthorized\r\n"));
    let given = open("GET /metrics HTTP/1.1\r\nAUTHORIZATION: Bearer secret\r\n\r\n", Some("secret"));
    assert!(given.starts_with("HTTP/1.1 200 OK\r\n"));
    let wrong = open("GET /metrics HTTP/1.1\r\nAuthorization: Bearer secre\r\n\r\n", Some("secret"));
    assert!(wrong.starts_with("HTTP/1.1 401 Unauthorized\r\n"));
    assert!(constant_time_eq(b"abc", b"abc"));
    assert!(!constant_time_eq(b"abc", b"abd"));
    assert!(!constant_time_eq(b"abc", b"ab"));
}

#[test]
fn requests_need_not_be_utf8() {
    let metrics = RelayMetrics::new();
    let server = MetricsHttpServer::new(client(1), None);
    assert!(server.is_open_to_all());
    assert!(server.handle(b"", &metrics, 1).is_none());
    let reply = server.handle(b"GET /metrics HTTP/1.1\r\nX: \xff\r\n\r\n", &metrics, 1).unwrap();
    assert!(reply.starts_with("HTTP/1.1 200 OK\r\n"));
}

#[test]
fn batches_are_queued_and_sent_when_full() {
    let mut relay = RelayServer::new(RelayConfig::default()).unwrap();
    let mut f = waiting(&mut relay, client(1));
    relay.step_handshake_at(&mut f, answer(MessageType::HandshakeResponse, 77, None), 20);
    relay.step_handshake_at(&mut f, ForwardEvent::Delivered(true), 20);
    let packet = |n: u8, from: u8| ReceivedPacket {
        buffer: vec![n; 4],
        reported_len: 3,
        source: Some(client(from)),
    };
    let mut received = RecvBatch::new(8, 4);
    received.store(vec![packet(1, 1), packet(2, 2), packet(3, 1), packet(4, 1)]);
    let data = header(MessageType::Data, 77);
    let mut queue = SendBatch::new(2, 2);
    assert!(!relay.queue_client_packet_at(&received, 0, data, &mut queue, 30));
    assert!(!relay.queue_client_packet_at(&received, 1, data, &mut queue, 30));
    assert!(!relay.queue_client_packet_at(&received, 2, None, &mut queue, 30));
    assert!(relay.queue_client_packet_at(&received, 3, data, &mut queue, 30));
    assert_eq!(queue.get(0).data, vec![1, 1]);
    assert_eq!(queue.get(1).data, vec![4, 4]);
    assert_eq!(queue.get(1).addr, RelayConfig::default().upstream_addr);
    assert_eq!(relay.metrics().packets_dropped, 1);
    queue.clear();
    assert!(!relay.queue_upstream_packet_at(&received, 0, data, &mut queue, 30));
    assert_eq!(queue.get(0).addr, client(1));
    assert!(!relay.queue_upstream_packet_at(&received, 1, header(MessageType::Data, 1), &mut queue, 30));
    assert!(relay.queue_upstream_packet_at(&received, 2, data, &mut queue, 30));
}
