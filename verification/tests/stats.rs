use ddos_mitigation_tool::capture::stats::{protocol_class, window_elapsed, ProtocolClass, TrafficStats};

#[test]
fn records_packet_statistics() {
    let mut stats = TrafficStats::new();

    stats.record_packet(Some("192.168.1.10"), Some(443), "TCP", 100);

    assert_eq!(stats.packet_count, 1);
    assert_eq!(stats.byte_count, 100);
    assert_eq!(stats.tcp_packets, 1);
    assert_eq!(stats.udp_packets, 0);
    assert_eq!(stats.icmp_packets, 0);
}

#[test]
fn tracks_top_source_ips() {
    let mut stats = TrafficStats::new();

    for _ in 0..5 {
        stats.record_packet(Some("192.168.1.10"), Some(443), "TCP", 100);
    }

    for _ in 0..2 {
        stats.record_packet(Some("192.168.1.20"), Some(443), "TCP", 100);
    }

    let top = stats.top_source_ips(2);

    assert_eq!(top[0], ("192.168.1.10", 5));
    assert_eq!(top[1], ("192.168.1.20", 2));
}

#[test]
fn tracks_top_destination_ports() {
    let mut stats = TrafficStats::new();

    for _ in 0..5 {
        stats.record_packet(Some("192.168.1.10"), Some(443), "TCP", 100);
    }

    for _ in 0..2 {
        stats.record_packet(Some("192.168.1.10"), Some(80), "TCP", 100);
    }

    let top = stats.top_destination_ports(2);

    assert_eq!(top[0], (443, 5));
    assert_eq!(top[1], (80, 2));
}

#[test]
fn calculates_top_source_concentration() {
    let mut stats = TrafficStats::new();

    for _ in 0..8 {
        stats.record_packet(Some("192.168.1.10"), Some(443), "TCP", 100);
    }

    for _ in 0..2 {
        stats.record_packet(Some("192.168.1.20"), Some(443), "TCP", 100);
    }

    assert_eq!(stats.top_source_count(), 8);
    assert_eq!(stats.top_source_count() as f64 / stats.packet_count as f64, 0.8);
}

#[test]
fn calculates_top_destination_port_concentration() {
    let mut stats = TrafficStats::new();

    for _ in 0..8 {
        stats.record_packet(Some("192.168.1.10"), Some(443), "TCP", 100);
    }

    for _ in 0..2 {
        stats.record_packet(Some("192.168.1.10"), Some(80), "TCP", 100);
    }

    let concentration = stats.top_destination_port_count() as f64 / stats.packet_count as f64;

    assert_eq!(concentration, 0.8);
}

#[test]
fn reset_clears_statistics() {
    let mut stats = TrafficStats::new();

    stats.record_packet(Some("192.168.1.10"), Some(443), "TCP", 100);

    stats.reset_window();

    assert_eq!(stats.packet_count, 0);
    assert_eq!(stats.byte_count, 0);
    assert_eq!(stats.tcp_packets, 0);
    assert!(stats.top_source_ips(5).is_empty());
    assert!(stats.top_destination_ports(5).is_empty());
}

#[test]
fn protocol_names_are_matched_case_insensitively() {
    let mut stats = TrafficStats::new();

    stats.record_packet(None, None, "udp", 10);
    stats.record_packet(None, None, "Icmp", 10);
    stats.record_packet(None, None, "ICMPv4", 10);
    stats.record_packet(None, None, "Unknown", 10);

    assert_eq!(stats.packet_count, 4);
    assert_eq!(stats.byte_count, 40);
    assert_eq!(stats.tcp_packets, 0);
    assert_eq!(stats.udp_packets, 1);
    assert_eq!(stats.icmp_packets, 1);
    assert!(stats.top_source_ips(3).is_empty());
    assert_eq!(stats.top_source_count(), 0);
    assert_eq!(stats.top_destination_port_count(), 0);
}

#[test]
fn protocol_class_reads_uppercase_names() {
    assert_eq!(protocol_class("TCP"), ProtocolClass::Tcp);
    assert_eq!(protocol_class("UDP"), ProtocolClass::Udp);
    assert_eq!(protocol_class("ICMP"), ProtocolClass::Icmp);
    assert_eq!(protocol_class("tcp"), ProtocolClass::Other);
    assert_eq!(protocol_class("ICMPV4"), ProtocolClass::Other);
    assert_eq!(protocol_class(""), ProtocolClass::Other);
}

#[test]
fn ranking_is_limited_and_busiest_first() {
    let mut stats = TrafficStats::new();
    let plan = [("10.0.0.1", 3u16, 1), ("10.0.0.2", 4, 4), ("10.0.0.3", 5, 2), ("10.0.0.4", 6, 3)];
    for (ip, port, times) in plan {
        for _ in 0..times {
            stats.record_packet(Some(ip), Some(port), "TCP", 60);
        }
    }
    let top = stats.top_source_ips(3);
    assert_eq!(top, vec![("10.0.0.2", 4), ("10.0.0.4", 3), ("10.0.0.3", 2)]);
    let ports = stats.top_destination_ports(10);
    assert_eq!(ports, vec![(4, 4), (6, 3), (5, 2), (3, 1)]);
    assert!(stats.top_source_ips(0).is_empty());
    assert_eq!(stats.top_source_count(), 4);
}

#[test]
fn window_lasts_one_second() {
    assert!(!window_elapsed(0));
    assert!(!window_elapsed(999_999_999));
    assert!(window_elapsed(1_000_000_000));
    assert!(window_elapsed(5_000_000_000));
    let stats = TrafficStats::new();
    assert!(!stats.should_report());
}

#[test]
fn reset_starts_a_fresh_window() {
    let mut stats = TrafficStats::new();
    assert!(!stats.should_report());
    stats.record_packet(Some("192.168.1.10"), Some(443), "TCP", 100);
    stats.reset_window();
    assert!(!stats.should_report());
    assert_eq!(stats.packet_count, 0);
    assert!(stats.top_source_ips(usize::MAX).is_empty());
    assert!(stats.top_destination_ports(usize::MAX).is_empty());
}
