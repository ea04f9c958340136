use msu2_display::host::ip_detect::{
    add_address, add_default_route, collect_network_snapshot_best_effort, mark_dynamic, select_ipv4,
    AddressCandidate, NetworkSnapshot, Route, Selection, SelectionConfig,
};
use msu2_display::host::runtime::IoFailure;
use msu2_display::host::serial::SerialErrorKind;
use msu2_display::host::ipv4::Ipv4Addr;
use msu2_display::host::netlink::{
    dump_request, address_is_dynamic, interface_is_lower_up, parse_netlink_messages, parse_rtattrs, read_ifa_cache_info,
    read_ifaddr_msg, read_rt_msg, read_u32, route_is_default_ipv4, route_is_main_default_ipv4, ByteOrder,
    NetlinkError, AF_INET_BITS, IFA_F_PERMANENT_BITS, IFF_RUNNING_BITS, IFF_UP_BITS, INFINITE_LIFETIME,
    NLMSG_DONE_BITS, NLMSG_ERROR_BITS, RTA_TABLE_BITS, RTN_UNICAST_BITS, RT_TABLE_MAIN_BITS,
};

fn addr(interface: &str, address: [u8; 4], is_dynamic: bool) -> AddressCandidate {
    AddressCandidate {
        interface: interface.to_string(),
        address: Ipv4Addr(address[0], address[1], address[2], address[3]),
        is_dynamic,
        is_up: true,
        is_lower_up: true,
    }
}

fn native() -> ByteOrder {
    if u16::from_ne_bytes([1, 0]) == 1 {
        ByteOrder::Little
    } else {
        ByteOrder::Big
    }
}

fn push_header(out: &mut Vec<u8>, len: u32, kind: u16, seq: u32) {
    out.extend_from_slice(&len.to_ne_bytes());
    out.extend_from_slice(&kind.to_ne_bytes());
    out.extend_from_slice(&0u16.to_ne_bytes());
    out.extend_from_slice(&seq.to_ne_bytes());
    out.extend_from_slice(&0u32.to_ne_bytes());
}

#[test]
fn fixed_interface_wins_over_default_route() {
    let snapshot = NetworkSnapshot {
        addresses: vec![addr("eth0", [192, 168, 1, 10], true), addr("eth1", [10, 0, 0, 5], true)],
        routes: vec![Route { interface: "eth1".to_string(), is_default: true }],
    };
    let config = SelectionConfig { interface: Some("eth0".to_string()) };
    assert_eq!(select_ipv4(&snapshot, &config), Selection::Show(Ipv4Addr::new(192, 168, 1, 10)));
}

#[test]
fn default_route_interface_is_preferred() {
    let snapshot = NetworkSnapshot {
        addresses: vec![addr("eth0", [192, 168, 1, 10], true), addr("eth1", [10, 0, 0, 5], true)],
        routes: vec![Route { interface: "eth1".to_string(), is_default: true }],
    };
    assert_eq!(select_ipv4(&snapshot, &SelectionConfig::default()), Selection::Show(Ipv4Addr::new(10, 0, 0, 5)));
}

#[test]
fn isolated_single_normal_ipv4_is_displayed() {
    let snapshot = NetworkSnapshot { addresses: vec![addr("eth0", [192, 168, 55, 20], true)], routes: vec![] };
    assert_eq!(select_ipv4(&snapshot, &SelectionConfig::default()), Selection::Show(Ipv4Addr::new(192, 168, 55, 20)));
}

#[test]
fn multiple_without_default_prefers_dynamic() {
    let snapshot = NetworkSnapshot {
        addresses: vec![addr("eth0", [192, 168, 1, 10], false), addr("eth1", [10, 0, 0, 5], true)],
        routes: vec![],
    };
    assert_eq!(select_ipv4(&snapshot, &SelectionConfig::default()), Selection::Show(Ipv4Addr::new(10, 0, 0, 5)));
}

#[test]
fn link_local_only_is_failure_candidate_after_delay() {
    let snapshot = NetworkSnapshot { addresses: vec![addr("eth0", [169, 254, 1, 2], true)], routes: vec![] };
    assert_eq!(select_ipv4(&snapshot, &SelectionConfig::default()), Selection::FailureCandidate);
}

#[test]
fn virtual_interfaces_are_ignored_for_fallback() {
    let snapshot = NetworkSnapshot { addresses: vec![addr("docker0", [172, 17, 0, 1], false)], routes: vec![] };
    assert_eq!(select_ipv4(&snapshot, &SelectionConfig::default()), Selection::Pending);
}

#[test]
fn virtual_link_local_only_is_pending_for_fallback() {
    let snapshot = NetworkSnapshot { addresses: vec![addr("docker0", [169, 254, 1, 2], true)], routes: vec![] };
    assert_eq!(select_ipv4(&snapshot, &SelectionConfig::default()), Selection::Pending);
}

#[test]
fn two_static_addresses_without_default_route_are_ambiguous() {
    let snapshot = NetworkSnapshot {
        addresses: vec![addr("eth0", [192, 168, 1, 10], false), addr("eth1", [10, 0, 0, 5], false)],
        routes: vec![],
    };
    assert_eq!(select_ipv4(&snapshot, &SelectionConfig::default()), Selection::FailureCandidate);
}

#[test]
fn down_interfaces_are_not_candidates() {
    let mut down = addr("eth0", [192, 168, 1, 10], true);
    down.is_lower_up = false;
    let snapshot = NetworkSnapshot { addresses: vec![down], routes: vec![] };
    assert_eq!(select_ipv4(&snapshot, &SelectionConfig::default()), Selection::Pending);
}

#[test]
fn permanent_flags_without_finite_lifetimes_are_not_dynamic() {
    assert!(!address_is_dynamic(IFA_F_PERMANENT_BITS, Some(INFINITE_LIFETIME), Some(INFINITE_LIFETIME)));
}

#[test]
fn finite_lifetime_or_non_permanent_flags_mark_address_dynamic() {
    assert!(address_is_dynamic(0, None, None));
    assert!(address_is_dynamic(IFA_F_PERMANENT_BITS, Some(30), Some(INFINITE_LIFETIME)));
}

#[test]
fn default_route_helper_accepts_only_ipv4_default_unicast() {
    assert!(route_is_default_ipv4(AF_INET_BITS, 0, RTN_UNICAST_BITS));
    assert!(!route_is_default_ipv4(AF_INET_BITS, 24, RTN_UNICAST_BITS));
}

#[test]
fn lower_up_requires_running_flag_when_available() {
    let up_non_loopback = IFF_UP_BITS;
    assert!(!interface_is_lower_up(up_non_loopback));
    assert!(interface_is_lower_up(IFF_UP_BITS | IFF_RUNNING_BITS));
}

#[test]
fn default_route_helper_accepts_only_main_table_routes() {
    assert!(route_is_main_default_ipv4(AF_INET_BITS, 0, RTN_UNICAST_BITS, RT_TABLE_MAIN_BITS as u8, None));
    assert!(!route_is_main_default_ipv4(AF_INET_BITS, 0, RTN_UNICAST_BITS, 100, None));
    assert!(!route_is_main_default_ipv4(AF_INET_BITS, 0, RTN_UNICAST_BITS, RT_TABLE_MAIN_BITS as u8, Some(100)));
    assert!(route_is_main_default_ipv4(AF_INET_BITS, 0, RTN_UNICAST_BITS, 100, Some(RT_TABLE_MAIN_BITS)));
}

#[test]
fn netlink_message_parser_reads_unaligned_headers() {
    let payload = [7u8, 8, 9];
    let mut buffer = vec![0xaa];
    push_header(&mut buffer, 16 + payload.len() as u32, 99, 1);
    buffer.extend_from_slice(&payload);
    push_header(&mut buffer, 16, NLMSG_DONE_BITS, 1);

    let dump = parse_netlink_messages(&buffer[1..], native());
    let seen: Vec<(u16, Vec<u8>)> = dump.messages.iter().map(|m| (m.kind, m.payload.clone())).collect();
    assert_eq!(dump.error, None);
    assert_eq!(seen, vec![(99, payload.to_vec())]);
}

#[test]
fn netlink_message_parser_reads_unaligned_errors() {
    let mut buffer = vec![0xaa];
    push_header(&mut buffer, 16 + 20, NLMSG_ERROR_BITS, 1);
    buffer.extend_from_slice(&(-22i32).to_ne_bytes());
    push_header(&mut buffer, 16, 0, 1);

    let dump = parse_netlink_messages(&buffer[1..], native());
    assert_eq!(dump.error, Some(NetlinkError::Os(22)));
}

#[test]
fn route_attribute_parser_reads_unaligned_attributes() {
    let mut buffer = vec![0xaa];
    buffer.extend_from_slice(&8u16.to_ne_bytes());
    buffer.extend_from_slice(&RTA_TABLE_BITS.to_ne_bytes());
    buffer.extend_from_slice(&RT_TABLE_MAIN_BITS.to_ne_bytes());

    let attrs = parse_rtattrs(&buffer[1..], native()).unwrap();
    let seen: Vec<(u16, u32)> = attrs.iter().map(|a| (a.kind, read_u32(&a.data, native()).unwrap())).collect();
    assert_eq!(seen, vec![(RTA_TABLE_BITS, RT_TABLE_MAIN_BITS)]);
}

#[test]
fn netlink_body_readers_copy_from_unaligned_slices() {
    let mut ifaddr_buf = vec![0xaa, AF_INET_BITS, 24, IFA_F_PERMANENT_BITS as u8, 0];
    ifaddr_buf.extend_from_slice(&3u32.to_ne_bytes());
    let mut cache_buf = vec![0xaa];
    for v in [30u32, INFINITE_LIFETIME, 1, 2] {
        cache_buf.extend_from_slice(&v.to_ne_bytes());
    }
    let mut route_buf = vec![0xaa, AF_INET_BITS, 0, 0, 0, RT_TABLE_MAIN_BITS as u8, 0, 0, RTN_UNICAST_BITS];
    route_buf.extend_from_slice(&0u32.to_ne_bytes());

    assert_eq!(read_ifaddr_msg(&ifaddr_buf[1..], native()).unwrap().ifa_index, 3);
    assert_eq!(read_ifa_cache_info(&cache_buf[1..], native()).unwrap().ifa_prefered, 30);
    assert_eq!(read_rt_msg(&route_buf[1..], native()).unwrap().rtm_table, RT_TABLE_MAIN_BITS as u8);
}

#[test]
fn netlink_messages_stop_at_a_bad_length() {
    let mut buffer = Vec::new();
    push_header(&mut buffer, 8, 99, 1);
    assert_eq!(parse_netlink_messages(&buffer, native()).error, Some(NetlinkError::InvalidMessageLength));
    let mut buffer = Vec::new();
    push_header(&mut buffer, 40, 99, 1);
    assert_eq!(parse_netlink_messages(&buffer, native()).error, Some(NetlinkError::TruncatedMessage));
}

#[test]
fn snapshot_building_merges_addresses_and_routes() {
    let mut snapshot = NetworkSnapshot::default();
    add_address(&mut snapshot, "eth0".to_string(), Ipv4Addr::new(192, 168, 1, 10), IFF_UP_BITS | IFF_RUNNING_BITS);
    add_address(&mut snapshot, "eth0".to_string(), Ipv4Addr::new(192, 168, 1, 10), IFF_UP_BITS | IFF_RUNNING_BITS);
    assert_eq!(snapshot.addresses.len(), 1);
    assert!(!snapshot.addresses[0].is_dynamic);
    mark_dynamic(&mut snapshot, "eth0", Ipv4Addr::new(192, 168, 1, 10), true);
    assert!(snapshot.addresses[0].is_dynamic);
    add_default_route(&mut snapshot, "eth0".to_string());
    assert_eq!(snapshot.routes, vec![Route { interface: "eth0".to_string(), is_default: true }]);
    assert_eq!(select_ipv4(&snapshot, &SelectionConfig::default()), Selection::Show(Ipv4Addr::new(192, 168, 1, 10)));
}

fn stalled(message: &str) -> IoFailure {
    IoFailure { kind: SerialErrorKind::Other, message: message.to_string() }
}

#[test]
fn netlink_enrichment_errors_keep_collected_addresses() {
    let snapshot = collect_network_snapshot_best_effort(
        |snapshot: &mut NetworkSnapshot| {
            snapshot.addresses.push(addr("eth0", [192, 168, 55, 20], false));
            Ok(())
        },
        |_snapshot: &mut NetworkSnapshot| Err(stalled("addr netlink stalled")),
        |_snapshot: &mut NetworkSnapshot| Err(stalled("route netlink stalled")),
    )
    .unwrap();

    assert_eq!(
        select_ipv4(&snapshot, &SelectionConfig::default()),
        Selection::Show(Ipv4Addr::new(192, 168, 55, 20))
    );
}

#[test]
fn address_collection_failure_fails_the_snapshot() {
    let result = collect_network_snapshot_best_effort(
        |_snapshot: &mut NetworkSnapshot| Err(stalled("getifaddrs failed")),
        |_snapshot: &mut NetworkSnapshot| -> Result<(), IoFailure> { panic!("no enrichment after a failed collection") },
        |_snapshot: &mut NetworkSnapshot| -> Result<(), IoFailure> { panic!("no routes after a failed collection") },
    );
    assert_eq!(result, Err(stalled("getifaddrs failed")));
}

#[test]
fn enrichment_steps_see_collected_addresses() {
    let snapshot = collect_network_snapshot_best_effort(
        |snapshot: &mut NetworkSnapshot| -> Result<(), IoFailure> {
            snapshot.addresses.push(addr("eth0", [10, 0, 0, 2], false));
            Ok(())
        },
        |snapshot: &mut NetworkSnapshot| {
            assert_eq!(snapshot.addresses.len(), 1);
            snapshot.addresses[0].is_dynamic = true;
            Ok(())
        },
        |snapshot: &mut NetworkSnapshot| {
            assert!(snapshot.addresses[0].is_dynamic);
            snapshot.routes.push(Route { interface: "eth0".to_string(), is_default: true });
            Ok(())
        },
    )
    .unwrap();
    assert_eq!(snapshot.routes.len(), 1);
    assert!(snapshot.addresses[0].is_dynamic);
}

#[test]
fn dump_request_header_in_both_byte_orders() {
    let body = [2u8, 0, 0, 0, 0, 0, 0, 0];
    let little = dump_request(22, 1, &body, ByteOrder::Little);
    assert_eq!(
        little,
        vec![24, 0, 0, 0, 22, 0, 0x01, 0x03, 1, 0, 0, 0, 0, 0, 0, 0, 2, 0, 0, 0, 0, 0, 0, 0]
    );
    let big = dump_request(26, 2, &[2u8, 0, 0, 0], ByteOrder::Big);
    assert_eq!(big, vec![0, 0, 0, 20, 0, 26, 0x03, 0x01, 0, 0, 0, 2, 0, 0, 0, 0, 2, 0, 0, 0]);
    assert_eq!(read_u32(&little[..4], ByteOrder::Little), Some(24));
}
