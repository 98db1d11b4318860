use easytier::acl_chain::{
    determine_chain_type_correct_logic, determine_chain_type_current_logic, ChainType, IpAddr,
    Ipv4Addr, Ipv6Addr,
};

#[test]
fn test_current_logic_bug() {
    let my_ipv4: Option<Ipv4Addr> = None;
    let my_ipv6: Option<Ipv6Addr> = None;

    let packet_to_zero = IpAddr::V4(Ipv4Addr::new(0, 0, 0, 0));
    let packet_to_real_ip = IpAddr::V4(Ipv4Addr::new(10, 144, 144, 1));

    assert_eq!(
        determine_chain_type_current_logic(packet_to_zero, my_ipv4, my_ipv6),
        "Inbound"
    );
    assert_eq!(
        determine_chain_type_current_logic(packet_to_real_ip, my_ipv4, my_ipv6),
        "Forward"
    );
    assert_eq!(
        determine_chain_type_correct_logic(packet_to_zero, my_ipv4, my_ipv6),
        "Forward"
    );
    assert_eq!(
        determine_chain_type_correct_logic(packet_to_real_ip, my_ipv4, my_ipv6),
        "Forward"
    );
}

#[test]
fn test_normal_case() {
    let my_ipv4 = Some(Ipv4Addr::new(10, 144, 144, 1));
    let my_ipv6: Option<Ipv6Addr> = None;

    let packet_to_me = IpAddr::V4(Ipv4Addr::new(10, 144, 144, 1));
    let packet_to_other = IpAddr::V4(Ipv4Addr::new(10, 144, 144, 2));

    assert_eq!(
        determine_chain_type_current_logic(packet_to_me, my_ipv4, my_ipv6),
        determine_chain_type_correct_logic(packet_to_me, my_ipv4, my_ipv6)
    );
    assert_eq!(
        determine_chain_type_current_logic(packet_to_other, my_ipv4, my_ipv6),
        determine_chain_type_correct_logic(packet_to_other, my_ipv4, my_ipv6)
    );
}

#[test]
fn normal_case_results() {
    let my_ipv4 = Some(Ipv4Addr::new(10, 144, 144, 1));
    let cases = [
        (Ipv4Addr::new(10, 144, 144, 1), "Inbound", "Inbound"),
        (Ipv4Addr::new(10, 144, 144, 2), "Forward", "Forward"),
        (Ipv4Addr::new(0, 0, 0, 0), "Forward", "Forward"),
        (Ipv4Addr::new(127, 0, 0, 1), "Forward", "Forward"),
    ];
    for (dst, current, correct) in cases {
        assert_eq!(determine_chain_type_current_logic(IpAddr::V4(dst), my_ipv4, None), current);
        assert_eq!(determine_chain_type_correct_logic(IpAddr::V4(dst), my_ipv4, None), correct);
    }
}

#[test]
fn no_ipv4_case_results() {
    let cases = [
        (Ipv4Addr::new(10, 144, 144, 1), "Forward"),
        (Ipv4Addr::new(0, 0, 0, 0), "Inbound"),
        (Ipv4Addr::new(192, 168, 1, 1), "Forward"),
    ];
    for (dst, current) in cases {
        assert_eq!(determine_chain_type_current_logic(IpAddr::V4(dst), None, None), current);
        assert_eq!(determine_chain_type_correct_logic(IpAddr::V4(dst), None, None), "Forward");
    }
}

#[test]
fn mixed_ipv4_ipv6_case_results() {
    let my_ipv4 = Some(Ipv4Addr::new(10, 144, 144, 1));
    let my_ipv6 = Some(Ipv6Addr::new(0x2001, 0xdb8, 0, 0, 0, 0, 0, 1));
    let cases = [
        (IpAddr::V4(Ipv4Addr::new(10, 144, 144, 1)), "Inbound"),
        (IpAddr::V6(Ipv6Addr::new(0x2001, 0xdb8, 0, 0, 0, 0, 0, 1)), "Inbound"),
        (IpAddr::V4(Ipv4Addr::new(10, 144, 144, 2)), "Forward"),
        (IpAddr::V6(Ipv6Addr::new(0x2001, 0xdb8, 0, 0, 0, 0, 0, 2)), "Forward"),
    ];
    for (dst, expected) in cases {
        assert_eq!(determine_chain_type_current_logic(dst, my_ipv4, my_ipv6), expected);
        assert_eq!(determine_chain_type_correct_logic(dst, my_ipv4, my_ipv6), expected);
    }
}

#[test]
fn unspecified_node_address_edge_case() {
    let my_ipv4 = Some(Ipv4Addr::unspecified());
    let dst = IpAddr::V4(Ipv4Addr::unspecified());
    assert_eq!(determine_chain_type_current_logic(dst, my_ipv4, None), "Inbound");
    assert_eq!(determine_chain_type_correct_logic(dst, my_ipv4, None), "Inbound");
}

#[test]
fn unspecified_ipv6_without_ipv6_address_differs() {
    let my_ipv4 = Some(Ipv4Addr::new(10, 144, 144, 1));
    let dst = IpAddr::V6(Ipv6Addr::unspecified());
    assert_eq!(determine_chain_type_current_logic(dst, my_ipv4, None), "Inbound");
    assert_eq!(determine_chain_type_correct_logic(dst, my_ipv4, None), "Forward");
}

#[test]
fn address_constructors_give_network_order_bits() {
    assert_eq!(Ipv4Addr::new(10, 144, 144, 1).bits, 0x0a90_9001);
    assert_eq!(Ipv4Addr::new(255, 255, 255, 255).bits, u32::MAX);
    assert_eq!(Ipv4Addr::unspecified().bits, 0);
    assert_eq!(
        Ipv6Addr::new(0x2001, 0xdb8, 0, 0, 0, 0, 0, 1).bits,
        0x2001_0db8_0000_0000_0000_0000_0000_0001
    );
    assert_eq!(
        Ipv6Addr::new(0xffff, 0xffff, 0xffff, 0xffff, 0xffff, 0xffff, 0xffff, 0xffff).bits,
        u128::MAX
    );
    assert_eq!(Ipv6Addr::unspecified().bits, 0);
}

#[test]
fn chain_names() {
    assert_eq!(ChainType::Inbound.as_str(), "Inbound");
    assert_eq!(ChainType::Forward.as_str(), "Forward");
}
