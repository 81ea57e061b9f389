//! Detection, privileges, data path workers and errors.

use hpn::net::{IpAddr, SocketAddr};
use hpn::relay::session::SessionId;
use hpn::server::afxdp_workers::{
    continue_packet, control_message, invalid_descriptor, join_step, pinned_core, receive_packet,
    worker_name, AfXdpControl, AfXdpPoolConfig, AfXdpPoolStats, ControlKind, IdleState, JoinStep,
    PacketStep, Pause, PollResult, StepReply, XdpMode,
};
use hpn::server::auto_tune::{
    check_afxdp_support, check_io_uring_support, check_tun_multiqueue_support, detect_cpu_cores,
    detect_default_interface, detect_kernel_version, detect_nic_rx_queues, detect_nic_speed,
    detect_total_memory, NetworkBackend, RuntimeConfig, SystemCapabilities, SystemProbe,
};
use hpn::server::config::ServerConfig;
use hpn::server::error::{ServerError, ServerResult};
use hpn::server::io_uring_udp::{
    decode_user_data, encode_user_data, gso_size, io_uring_requirements, Completion,
    ControlMessage, IoUringUdp, ReceivedPacket, SendRefused, NUM_BUFFERS, OP_RECV, OP_SEND,
};
use hpn::server::privileges::{
    current_gid, current_uid, is_root, judge, Accounts, DropStep, PrivilegeDropper, ProcessIds,
    StepOutcome,
};
use hpn::server::routing::{
    disable_ip_forwarding, disable_ipv6_forwarding, enable_ip_forwarding, enable_ipv6_forwarding,
};
use hpn::wire::{MessageType, PacketHeader};

fn some(s: &str) -> Option<String> {
    Some(s.to_string())
}

fn probe() -> SystemProbe {
    SystemProbe {
        linux: true,
        parallelism: Some(4),
        meminfo: some("MemFree: 1 kB\nMemTotal:        8388608 kB\n"),
        routes: some("Iface Destination Gateway\neth0 0000A8C0 0\r\nwlan0  00000000 0102A8C0\n"),
        queue_names: Some(vec!["rx-0".to_string(), "rx-1".to_string(), "tx-0".to_string()]),
        link_speed: some("2500\n"),
        os_release: some("5.15.0-91-generic\n"),
        driver: some("e1000e"),
        afxdp_supported: false,
        io_uring_disabled: some("0\n"),
        io_uring_supported: true,
        tun_exists: true,
    }
}

#[test]
fn test_detect_cpu_cores() {
    let cores = detect_cpu_cores(None);
    assert!(cores >= 1);
    assert_eq!(detect_cpu_cores(Some(12)), 12);
    assert_eq!(detect_cpu_cores(Some(0)), 1);
}

#[test]
fn test_detect_total_memory() {
    let mem = detect_total_memory(&None);
    assert!(mem >= 1024 * 1024); // At least 1MB
    assert_eq!(detect_total_memory(&probe().meminfo), 8 * 1024 * 1024 * 1024);
    assert_eq!(detect_total_memory(&some("MemTotal: x kB\n")), 4 * 1024 * 1024 * 1024);
    assert_eq!(detect_total_memory(&some("MemTotal: x\nMemTotal: 2 kB")), 2048);
    assert_eq!(detect_total_memory(&some("")), 4 * 1024 * 1024 * 1024);
}

#[test]
fn test_network_backend_names() {
    assert_eq!(NetworkBackend::AfXdp.name(), "AF_XDP (zero-copy)");
    assert_eq!(NetworkBackend::IoUring.name(), "io_uring");
    assert_eq!(NetworkBackend::BatchedSyscalls.name(), "recvmmsg/sendmmsg");
    assert_eq!(NetworkBackend::Standard.name(), "standard UDP");
    assert_eq!(NetworkBackend::AfXdp.estimated_throughput(), "10+ Gbps");
    assert_eq!(NetworkBackend::Standard.estimated_throughput(), "~1 Gbps");
}

#[test]
fn test_runtime_config_auto() {
    let config = RuntimeConfig::auto(&SystemCapabilities::detect(&probe()));
    assert!(config.tun_queues >= 1);
    assert!(config.workers >= 1);
    assert!(config.recv_buffer_size >= 1024 * 1024); // At least 1MB
    assert!(config.batch_size >= 1);
    assert_eq!(config.interface, "wlan0");
    assert!(config.tun_multiqueue);
    assert_eq!(
        config.log(),
        vec![
            "Runtime configuration (auto-tuned):",
            "  Network backend: io_uring",
            "  TUN queues: 2",
            "  Worker threads: 2",
            "  Buffer sizes: 32 MB (recv/send)",
            "  Batch size: 64",
            "  TUN multiqueue: true",
        ]
    );
}

#[test]
fn test_system_capabilities() {
    let caps = SystemCapabilities::detect(&probe());
    assert!(caps.cpu_cores >= 1);
    assert!(caps.total_memory >= 1024 * 1024);
    assert!(caps.optimal_tun_queues() >= 1);
    assert!(caps.optimal_workers() >= 1);
    assert!(caps.optimal_buffer_size() >= 1024 * 1024);
    assert_eq!(caps.kernel_version, (5, 15));
    assert_eq!(caps.nic_speed_mbps, 2500);
    assert_eq!(caps.backend, NetworkBackend::IoUring);
    assert!(caps.queue_hint().is_none());
}

#[test]
fn capabilities_can_be_cloned() {
    let caps = SystemCapabilities::detect(&probe());
    let copy = caps.clone();
    assert_eq!(copy.default_interface.as_deref(), Some("wlan0"));
    assert_eq!(format!("{:?}", copy), format!("{:?}", caps));
}

#[test]
fn an_unknown_system_gets_the_defaults() {
    let caps = SystemCapabilities::detect(&SystemProbe {
        linux: false,
        parallelism: None,
        meminfo: None,
        routes: None,
        queue_names: None,
        link_speed: some("100"),
        os_release: None,
        driver: None,
        afxdp_supported: true,
        io_uring_disabled: None,
        io_uring_supported: true,
        tun_exists: true,
    });
    assert_eq!((caps.cpu_cores, caps.nic_rx_queues, caps.nic_speed_mbps), (1, 1, 0));
    assert_eq!(caps.backend, NetworkBackend::Standard);
    assert_eq!(caps.optimal_batch_size(), 1);
    assert_eq!(caps.optimal_tun_queues(), 1);
    assert_eq!(caps.optimal_buffer_size(), 16 * 1024 * 1024);
    assert!(AfXdpPoolConfig::from_server_config(&ServerConfig::default(), &caps).is_none());
}

#[test]
fn one_queue_and_many_cores_get_a_hint() {
    let mut p = probe();
    p.queue_names = None;
    p.parallelism = Some(12);
    let caps = SystemCapabilities::detect(&p);
    assert_eq!(
        caps.queue_hint().unwrap(),
        "Try: ethtool -L wlan0 combined 8 (if driver supports multi-queue)"
    );
}

#[test]
fn system_files_are_read_as_they_are_written() {
    assert_eq!(detect_default_interface(&some("Iface Destination\n")), None);
    assert_eq!(detect_default_interface(&some("x 00000000\ny 00000000")).as_deref(), Some("y"));
    assert_eq!(detect_nic_rx_queues(&Some(vec!["tx-0".to_string()])), 1);
    assert_eq!(detect_nic_speed(&None), 0);
    assert_eq!(detect_nic_speed(&some("0\n")), 0);
    assert_eq!(detect_nic_speed(&some("-1\n")), 0);
    assert_eq!(detect_nic_speed(&some("2147483648")), 0);
    assert_eq!(detect_nic_speed(&some("+40000")), 40000);
    assert_eq!(detect_kernel_version(&some("6")), (0, 0));
    assert_eq!(detect_kernel_version(&some("6.x")), (0, 0));
    assert_eq!(detect_kernel_version(&some(" 6.18.44-fc ")), (6, 18));
}

#[test]
fn backends_need_their_kernels() {
    let eth = some("eth0");
    assert!(check_afxdp_support((4, 18), &eth, &some("virtio_net"), true));
    assert!(!check_afxdp_support((4, 17), &eth, &some("virtio_net"), true));
    assert!(!check_afxdp_support((4, 18), &eth, &some("other"), true));
    assert!(check_afxdp_support((5, 0), &eth, &None, true));
    assert!(!check_afxdp_support((5, 0), &None, &None, true));
    assert!(!check_afxdp_support((5, 0), &eth, &None, false));
    assert!(check_io_uring_support((5, 1), &None, true));
    assert!(!check_io_uring_support((5, 0), &None, true));
    assert!(!check_io_uring_support((6, 0), &some("2\n"), true));
    assert!(check_tun_multiqueue_support((3, 8), true));
    assert!(!check_tun_multiqueue_support((3, 7), true));
    assert!(!check_tun_multiqueue_support((6, 0), false));
}

fn nobody() -> Accounts {
    Accounts { user: None, group: None, primary_group: None }
}

const ROOT: ProcessIds = ProcessIds { uid: 0, gid: 0 };
const USER: ProcessIds = ProcessIds { uid: 1000, gid: 1000 };

#[test]
fn test_is_root() {
    assert!(is_root(&ROOT));
    assert!(!is_root(&USER));
}

#[test]
fn test_current_uid_gid() {
    let uid = current_uid(&USER);
    let gid = current_gid(&USER);
    assert!(uid < u32::MAX);
    assert!(gid < u32::MAX);
}

#[test]
fn test_privilege_dropper_not_configured() {
    let dropper = PrivilegeDropper::new(None, None, &nobody()).unwrap();
    assert!(!dropper.is_configured());
    assert!(dropper.username().is_none());
    assert!(dropper.groupname().is_none());
}

#[test]
fn test_privilege_dropper_invalid_user() {
    // Try to create dropper with non-existent user
    let result = PrivilegeDropper::new(Some("__nonexistent_user_12345__"), None, &nobody());
    assert!(result.is_err());
}

#[test]
fn test_privilege_dropper_valid_user() {
    let found = Accounts { user: Some((0, 0)), group: None, primary_group: None };
    let result = PrivilegeDropper::new(Some("root"), None, &found);
    if let Ok(dropper) = result {
        assert!(dropper.is_configured());
        assert_eq!(dropper.username(), Some("root"));
        assert_eq!(dropper.groupname(), Some("0"));
    } else {
        panic!("the user was found");
    }
}

#[test]
fn test_drop_privileges_not_configured() {
    let dropper = PrivilegeDropper::new(None, None, &nobody()).unwrap();
    // Should succeed even when not configured
    assert!(dropper.drop_privileges(&ROOT).unwrap().next().is_none());
    assert!(dropper.drop_privileges(&USER).unwrap().next().is_none());
}

#[test]
fn names_are_resolved_or_refused() {
    let err = |u: Option<&str>, g: Option<&str>, a: &Accounts| {
        PrivilegeDropper::new(u, g, a).unwrap_err().message()
    };
    assert_eq!(
        err(Some("hpn"), None, &nobody()),
        "configuration error: User 'hpn' not found. Create it with: useradd -r -s /usr/sbin/nologin hpn"
    );
    assert_eq!(
        err(Some("h\0n"), None, &nobody()),
        "configuration error: Invalid username (contains null byte): h\0n"
    );
    assert_eq!(
        err(None, Some("g"), &nobody()),
        "configuration error: Group 'g' not found. Create it with: groupadd -r g"
    );
    assert_eq!(
        err(None, Some("\0"), &nobody()),
        "configuration error: Invalid group name (contains null byte): \0"
    );
    let found = Accounts { user: Some((5, 6)), group: Some(7), primary_group: some("staff") };
    let d = PrivilegeDropper::new(Some("u"), None, &found).unwrap();
    assert_eq!((d.target_uid, d.target_gid, d.groupname()), (Some(5), Some(6), Some("staff")));
    let d = PrivilegeDropper::new(Some("u"), Some("g"), &found).unwrap();
    assert_eq!((d.target_uid, d.target_gid, d.groupname()), (Some(5), Some(7), Some("g")));
    let d = PrivilegeDropper::new(None, Some("g"), &found).unwrap();
    assert_eq!((d.target_uid, d.target_gid, d.username()), (None, Some(7), None));
}

#[test]
fn privileges_are_dropped_in_order() {
    let found = Accounts { user: Some((5, 6)), group: None, primary_group: None };
    let d = PrivilegeDropper::new(Some("u"), None, &found).unwrap();
    assert_eq!(
        d.drop_privileges(&USER).unwrap_err().message(),
        "configuration error: Privilege dropping configured but not running as root (UID 1000)"
    );
    let mut run = d.drop_privileges(&ROOT).unwrap();
    let mut seen = Vec::new();
    while let Some(step) = run.next() {
        seen.push(step);
        let outcome = match step {
            DropStep::CheckUser => StepOutcome::RunsAs(5),
            DropStep::RegainRoot => StepOutcome::Failed("EPERM".to_string()),
            DropStep::NoNewPrivileges => StepOutcome::Failed("EINVAL".to_string()),
            _ => StepOutcome::Succeeded,
        };
        assert!(run.record(&outcome).is_ok());
    }
    assert_eq!(
        seen,
        vec![
            DropStep::ClearGroups,
            DropStep::SetGid(6),
            DropStep::SetEgid(6),
            DropStep::SetUid(5),
            DropStep::SetEuid(5),
            DropStep::CheckUser,
            DropStep::RegainRoot,
            DropStep::NoNewPrivileges,
            DropStep::NoCoreDumps,
        ]
    );
}

#[test]
fn failed_steps_stop_the_drop() {
    let failed = StepOutcome::Failed("EPERM".to_string());
    let text = |s: DropStep, o: &StepOutcome| judge(s, o).unwrap_err().message();
    let c = "configuration error: ";
    assert_eq!(text(DropStep::ClearGroups, &failed), format!("{}setgroups(0) failed: EPERM", c));
    assert_eq!(text(DropStep::SetGid(3), &failed), format!("{}setgid(3) failed: EPERM", c));
    assert_eq!(text(DropStep::SetEgid(3), &failed), format!("{}setegid(3) failed: EPERM", c));
    assert_eq!(text(DropStep::SetUid(3), &failed), format!("{}setuid(3) failed: EPERM", c));
    assert_eq!(text(DropStep::SetEuid(3), &failed), format!("{}seteuid(3) failed: EPERM", c));
    assert_eq!(
        text(DropStep::CheckUser, &StepOutcome::RunsAs(0)),
        format!("{}Failed to drop privileges: still root", c)
    );
    assert_eq!(
        text(DropStep::RegainRoot, &StepOutcome::Succeeded),
        format!("{}Privilege drop incomplete: can still setuid(0)", c)
    );
    assert!(judge(DropStep::NoCoreDumps, &failed).is_ok());
    let found = Accounts { user: Some((5, 6)), group: None, primary_group: None };
    let d = PrivilegeDropper::new(Some("u"), None, &found).unwrap();
    let mut run = d.drop_privileges(&ROOT).unwrap();
    assert!(run.record(&failed).is_err());
    assert_eq!(run.next(), Some(DropStep::ClearGroups));
}

#[test]
fn test_afxdp_pool_config() {
    let config = AfXdpPoolConfig {
        interface: "eth0".to_string(),
        num_workers: 4,
        ring_size: 4096,
        zero_copy: true,
        busy_poll: false,
    };

    assert_eq!(config.interface, "eth0");
    assert_eq!(config.num_workers, 4);
    assert_eq!(config.ring_size, 4096);
    assert!(config.zero_copy);
    assert!(!config.busy_poll);
    assert_eq!(config.first_mode(), XdpMode::Native);
    assert!(config.check_supported(true).is_ok());
    assert_eq!(
        config.check_supported(false).unwrap_err().message(),
        "internal error: AF_XDP not supported on this system"
    );
    let mut stats = AfXdpPoolStats::new();
    stats.rx_packets = 5;
    stats.invalid_desc_drops = 2;
    assert_eq!(
        stats.stopped_line(3),
        "AF_XDP worker 3 stopped (rx=5, tx=0, unknown=0, decrypt_err=0, replay=0, rate_limited=0, invalid_desc=2)"
    );
    assert_eq!(config.after_failed_attach(1, "no").unwrap(), XdpMode::Skb);
    assert_eq!(
        config.after_failed_attach(2, "no").unwrap_err().message(),
        "internal error: Failed to attach XDP program: no"
    );
    assert_eq!(config.buffer_pool_size(), 4096);
    assert_eq!(config.queue_ids(), vec![0, 1, 2, 3]);
    assert_eq!(worker_name(3), "afxdp-worker-3");
    assert_eq!(pinned_core(5, 4), Some(1));
    assert_eq!(pinned_core(5, 0), None);
}

fn packet(msg_type: MessageType) -> Option<PacketHeader> {
    Some(PacketHeader { msg_type, session_id: SessionId(8) })
}

#[test]
fn data_is_decrypted_before_the_session_changes() {
    let mut stats = AfXdpPoolStats::default();
    let mut steps = Vec::new();
    let mut step = receive_packet(&mut stats, 100, 40, packet(MessageType::Data));
    while step != PacketStep::Done {
        steps.push(step);
        let reply = match step {
            PacketStep::Decrypt(_) => StepReply::Decrypted(60),
            _ => StepReply::Yes,
        };
        step = continue_packet(&mut stats, step, reply);
    }
    let id = SessionId(8);
    assert_eq!(
        steps,
        vec![
            PacketStep::FindSession(id),
            PacketStep::TakeBuffer(id),
            PacketStep::Decrypt(id),
            PacketStep::CheckReplay(id, 60),
            PacketStep::CheckRate(id, 60),
            PacketStep::WriteTun(60),
        ]
    );
    assert_eq!((stats.rx_packets, stats.rx_bytes), (1, 60));
}

#[test]
fn dropped_packets_are_counted_by_reason() {
    let mut stats = AfXdpPoolStats::new();
    let id = SessionId(8);
    invalid_descriptor(&mut stats);
    assert_eq!(receive_packet(&mut stats, 39, 40, packet(MessageType::Data)), PacketStep::Done);
    assert_eq!(receive_packet(&mut stats, 40, 40, None), PacketStep::Done);
    assert_eq!(
        receive_packet(&mut stats, 40, 40, packet(MessageType::EncryptedHandshakeInit)),
        PacketStep::Done
    );
    assert_eq!(receive_packet(&mut stats, 40, 40, packet(MessageType::Other)), PacketStep::Done);
    let mut no = |s: PacketStep| assert_eq!(continue_packet(&mut stats, s, StepReply::No), PacketStep::Done);
    no(PacketStep::FindSession(id));
    no(PacketStep::TakeBuffer(id));
    no(PacketStep::Decrypt(id));
    no(PacketStep::CheckReplay(id, 1));
    no(PacketStep::CheckRate(id, 1));
    no(PacketStep::Forward(id, ControlKind::Rekey));
    assert_eq!(stats.invalid_desc_drops, 1);
    assert_eq!(stats.rx_packets, 4);
    assert_eq!(stats.unknown_session, 1);
    assert_eq!(stats.decrypt_errors, 1);
    assert_eq!(stats.replay_drops, 1);
    assert_eq!(stats.rate_limited_drops, 1);
    assert_eq!(stats.control_messages, 1);
    assert_eq!(stats.rx_bytes, 0);
}

#[test]
fn control_packets_go_to_the_main_thread() {
    let mut stats = AfXdpPoolStats::new();
    for (msg_type, kind) in [
        (MessageType::Keepalive, ControlKind::Keepalive),
        (MessageType::Rekey, ControlKind::Rekey),
        (MessageType::Control, ControlKind::Control),
    ] {
        let step = receive_packet(&mut stats, 50, 40, packet(msg_type));
        assert_eq!(step, PacketStep::Forward(SessionId(8), kind));
        assert_eq!(continue_packet(&mut stats, step, StepReply::Yes), PacketStep::Done);
    }
    assert_eq!(stats.control_messages, 3);
    match control_message(SessionId(8), ControlKind::Rekey, vec![1, 2]) {
        AfXdpControl::Rekey { session_id, data, addr } => {
            assert_eq!((session_id, data), (SessionId(8), vec![1, 2]));
            assert_eq!(addr.to_text(), "0.0.0.0:0");
        }
        _ => panic!("a key change was handed over"),
    }
}

#[test]
fn idle_workers_rest_longer_and_longer() {
    let mut idle = IdleState::new(false);
    assert_eq!(idle.on_poll(PollResult::Readable), None);
    for _ in 0..100 {
        assert_eq!(idle.on_poll(PollResult::Empty), Some(Pause::NoRest));
    }
    assert_eq!(idle.on_poll(PollResult::Empty), Some(Pause::SleepMicros(10)));
    for _ in 0..900 {
        idle.on_poll(PollResult::Empty);
    }
    assert_eq!(idle.consecutive_empty, 1001);
    assert_eq!(idle.on_poll(PollResult::Failed), Some(Pause::SleepMicros(1000)));
    assert_eq!(idle.on_batch(None), Pause::SleepMicros(100));
    assert_eq!(idle.on_batch(Some(3)), Pause::NoRest);
    assert_eq!(idle.on_batch(Some(0)), Pause::Spin);
    let mut busy = IdleState::new(true);
    assert_eq!(busy.on_batch(Some(0)), Pause::NoRest);
    assert_eq!(join_step(true, 9999), JoinStep::Join);
    assert_eq!(join_step(false, 2000), JoinStep::GiveUp);
    assert_eq!(join_step(false, 1999), JoinStep::Wait);
}

#[test]
fn test_requirements() {
    let req = io_uring_requirements();
    assert!(req.contains("Linux"));
}

#[test]
fn operations_come_back_with_their_numbers() {
    assert_eq!(encode_user_data(OP_SEND, 7), 2 | (7 << 32));
    assert_eq!(decode_user_data(encode_user_data(OP_RECV, 255)), (OP_RECV, 255));
}

#[test]
fn segment_sizes_come_from_control_messages() {
    let m = |level, kind, value| ControlMessage { level, kind, value };
    assert_eq!(gso_size(&vec![]), 0);
    assert_eq!(gso_size(&vec![m(17, 103, Some(9)), m(17, 104, None), m(17, 104, Some(1400))]), 1400);
    assert_eq!(gso_size(&vec![m(1, 104, Some(9))]), 0);
}

#[test]
fn buffers_and_slots_go_out_and_come_back() {
    let addr = SocketAddr::new(IpAddr::v4(10, 0, 0, 1), 1);
    let mut ring = IoUringUdp::new(2);
    for i in 0..NUM_BUFFERS {
        assert_eq!(ring.next_recv(), Some(i));
        ring.recv_submitted();
    }
    assert_eq!(ring.next_recv(), None);
    assert_eq!(ring.queue_send(vec![1], addr).unwrap(), 0);
    assert_eq!(ring.queue_send(vec![2], addr).unwrap(), 1);
    let SendRefused::WouldBlock(text) = ring.queue_send(vec![3], addr).unwrap_err();
    assert_eq!(text, "too many in-flight io_uring sends (max 2)");
    let s = ring.stats();
    assert_eq!((s.pending_recvs, s.pending_sends, s.free_buffers), (NUM_BUFFERS, 2, 0));
    let done = |op, idx, result, packet| Completion {
        user_data: encode_user_data(op, idx),
        result,
        packet,
    };
    let p = || Some(ReceivedPacket { data: vec![9], addr, gso_size: 0 });
    let received = ring.process_completions(vec![
        done(OP_SEND, 0, 1, None),
        done(OP_RECV, 5, 1, p()),
        done(OP_RECV, 6, -11, p()),
        done(OP_RECV, 7, 1, None),
        done(OP_SEND, 1, -5, None),
        done(9, 1, 0, None),
    ]);
    assert_eq!(received.len(), 1);
    assert_eq!(received[0].data, vec![9]);
    let s = ring.stats();
    assert_eq!((s.packets_received, s.recv_errors, s.packets_sent, s.send_errors), (1, 2, 1, 1));
    assert_eq!((s.pending_recvs, s.pending_sends, s.free_buffers), (NUM_BUFFERS - 3, 0, 3));
    assert_eq!(ring.next_recv(), Some(5));
    // The lowest slot is taken first again.
    assert_eq!(ring.queue_send(vec![4], addr).unwrap(), 0);
    assert!(!ring.is_shutdown());
    ring.shutdown();
    assert!(ring.is_shutdown());
    let standard = IoUringUdp::with_defaults();
    assert_eq!(standard.max_pending_sends, 256);
    assert_eq!(standard.pending_sends.len(), 256);
    assert_eq!(standard.free_send_indices.last(), Some(&0));
    assert_eq!(standard.free_buffers.len(), NUM_BUFFERS);
    assert!(!standard.shutdown);
    assert_eq!(standard.next_send_id, 0);
    assert_eq!((standard.stats_received, standard.stats_sent), (0, 0));
    assert_eq!((standard.stats_recv_errors, standard.stats_send_errors), (0, 0));
}

#[test]
fn test_server_error_display() {
    let err = ServerError::Config("invalid port".to_string());
    assert!(err.message().contains("configuration error"));
    assert!(err.message().contains("invalid port"));

    let err = ServerError::Tun("failed to create".to_string());
    assert!(err.message().contains("tun error"));
    assert!(err.message().contains("failed to create"));

    let err = ServerError::Shutdown;
    assert_eq!(err.message(), "server is shutting down");
}

#[test]
fn test_server_error_from_io() {
    let io_err = std::io::Error::new(std::io::ErrorKind::NotFound, "file not found");
    let err: ServerError = io_err.into();
    assert!(err.message().contains("io error"));
    assert_eq!(err.message(), "io error: file not found");
    assert_eq!(err.message_with("gone"), "io error: gone");
    assert_eq!(ServerError::Shutdown.message_with("gone"), "server is shutting down");
}

#[test]
fn test_server_error_all_variants() {
    let errors = vec![
        ServerError::Config("test".to_string()),
        ServerError::Tun("test".to_string()),
        ServerError::Session("test".to_string()),
        ServerError::IpAllocation("test".to_string()),
        ServerError::Nat("test".to_string()),
        ServerError::Internal("test".to_string()),
        ServerError::Shutdown,
    ];

    for err in errors {
        let _ = format!("{:?}", err);
        let _ = err.message();
    }
    assert_eq!(ServerError::Protocol("x".to_string()).message(), "protocol error: x");
    assert_eq!(ServerError::Crypto("x".to_string()).message(), "crypto error: x");
    assert_eq!(ServerError::Session("x".to_string()).message(), "session error: x");
    assert_eq!(ServerError::IpAllocation("x".to_string()).message(), "ip allocation error: x");
    assert_eq!(ServerError::Nat("x".to_string()).message(), "nat error: x");
    assert_eq!(ServerError::Internal("x".to_string()).message(), "internal error: x");
}

#[test]
fn test_server_error_debug() {
    let err = ServerError::Config("debug test".to_string());
    let debug = format!("{:?}", err);
    assert!(debug.contains("Config"));

    let err = ServerError::Shutdown;
    let debug = format!("{:?}", err);
    assert!(debug.contains("Shutdown"));
}

#[test]
fn test_server_result_ok() {
    let result: ServerResult<i32> = Ok(42);
    assert!(result.is_ok());
    assert_eq!(result.unwrap(), 42);
}

#[test]
fn test_server_result_err() {
    let result: ServerResult<i32> = Err(ServerError::Shutdown);
    assert!(result.is_err());
}

#[test]
fn forwarding_errors_say_what_failed() {
    let bad: Result<(), String> = Err("EACCES".to_string());
    assert!(enable_ip_forwarding(&Ok(())).is_ok());
    let c = "configuration error: failed to ";
    assert_eq!(
        enable_ip_forwarding(&bad).unwrap_err().message(),
        format!("{}enable IPv4 forwarding: EACCES", c)
    );
    assert_eq!(
        disable_ip_forwarding(&bad).unwrap_err().message(),
        format!("{}disable IPv4 forwarding: EACCES", c)
    );
    assert_eq!(
        enable_ipv6_forwarding(&bad).unwrap_err().message(),
        format!("{}enable IPv6 forwarding: EACCES", c)
    );
    assert_eq!(
        disable_ipv6_forwarding(&bad).unwrap_err().message(),
        format!("{}disable IPv6 forwarding: EACCES", c)
    );
}
