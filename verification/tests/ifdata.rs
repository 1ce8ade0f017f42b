use moreutils::ifdata::{
    answer, get_address, get_broadcast, get_mac, get_netmask, get_network_address,
    ipv4_netmask_addr, ipv4_prefix_to_mask, parse_args, read_op, usage, Answer, Args, Field,
    Interface, IpAddress, IpNetwork, Op, Request,
};

fn tokens(words: &[&str]) -> Vec<Vec<u8>> {
    words.iter().map(|w| w.as_bytes().to_vec()).collect()
}

fn v4(a: u8, b: u8, c: u8, d: u8) -> u32 {
    u32::from_be_bytes([a, b, c, d])
}

fn interface(networks: Vec<IpNetwork>) -> Interface {
    Interface {
        ip_networks: networks,
        mac_address: [0x02, 0x42, 0xac, 0x11, 0x00, 0x02],
        mtu: 1500,
        total_received: 11,
        total_packets_received: 12,
        total_errors_on_received: 13,
        total_transmitted: 21,
        total_packets_transmitted: 22,
        total_errors_on_transmitted: 23,
        received: 31,
        transmitted: 32,
    }
}

fn typical() -> Interface {
    interface(vec![
        IpNetwork { addr: IpAddress::V6(0xfe80 << 112 | 1), prefix: 64 },
        IpNetwork { addr: IpAddress::V4(v4(192, 168, 1, 77)), prefix: 24 },
        IpNetwork { addr: IpAddress::V4(v4(10, 0, 0, 1)), prefix: 8 },
    ])
}

#[test]
fn masks_of_all_prefixes() {
    assert_eq!(ipv4_prefix_to_mask(0), 0);
    assert_eq!(ipv4_prefix_to_mask(1), 0x8000_0000);
    assert_eq!(ipv4_prefix_to_mask(8), 0xff00_0000);
    assert_eq!(ipv4_prefix_to_mask(16), 0xffff_0000);
    assert_eq!(ipv4_prefix_to_mask(24), 0xffff_ff00);
    assert_eq!(ipv4_prefix_to_mask(31), 0xffff_fffe);
    assert_eq!(ipv4_prefix_to_mask(32), 0xffff_ffff);
    for prefix in 0..=32u8 {
        let mask = ipv4_prefix_to_mask(prefix);
        assert_eq!(mask.leading_ones(), prefix as u32);
        assert_eq!(mask.count_ones(), prefix as u32);
        assert_eq!(mask as u64, (1u64 << 32) - (1u64 << (32 - prefix)));
        assert_eq!(ipv4_netmask_addr(prefix), IpAddress::V4(mask));
    }
}

#[test]
fn first_version_four_address_counts() {
    let found = typical();
    assert_eq!(get_address(&found.ip_networks), Some(IpAddress::V4(v4(192, 168, 1, 77))));
    assert_eq!(get_netmask(&found.ip_networks), Some(v4(255, 255, 255, 0)));
    assert_eq!(get_network_address(&found.ip_networks), Some(v4(192, 168, 1, 0)));
    assert_eq!(get_broadcast(&found.ip_networks), Some(v4(192, 168, 1, 255)));
}

#[test]
fn interface_without_a_version_four_address() {
    let only_six = vec![IpNetwork { addr: IpAddress::V6(1), prefix: 128 }];
    assert_eq!(get_address(&only_six), None);
    assert_eq!(get_netmask(&only_six), None);
    assert_eq!(get_network_address(&only_six), None);
    assert_eq!(get_broadcast(&only_six), None);
    assert_eq!(get_address(&vec![]), None);
}

#[test]
fn network_and_broadcast_of_odd_prefixes() {
    let nets = vec![IpNetwork { addr: IpAddress::V4(v4(172, 17, 200, 9)), prefix: 20 }];
    assert_eq!(get_netmask(&nets), Some(v4(255, 255, 240, 0)));
    assert_eq!(get_network_address(&nets), Some(v4(172, 17, 192, 0)));
    assert_eq!(get_broadcast(&nets), Some(v4(172, 17, 207, 255)));
    let host = vec![IpNetwork { addr: IpAddress::V4(v4(1, 2, 3, 4)), prefix: 32 }];
    assert_eq!(get_network_address(&host), Some(v4(1, 2, 3, 4)));
    assert_eq!(get_broadcast(&host), Some(v4(1, 2, 3, 4)));
    let all = vec![IpNetwork { addr: IpAddress::V4(v4(1, 2, 3, 4)), prefix: 0 }];
    assert_eq!(get_netmask(&all), Some(0));
    assert_eq!(get_network_address(&all), Some(0));
    assert_eq!(get_broadcast(&all), Some(0xffff_ffff));
}

#[test]
fn unspecified_hardware_address_is_none() {
    assert_eq!(get_mac([0; 6]), None);
    assert_eq!(get_mac([0, 0, 0, 0, 0, 1]), Some([0, 0, 0, 0, 0, 1]));
    assert_eq!(get_mac([1, 0, 0, 0, 0, 0]), Some([1, 0, 0, 0, 0, 0]));
}

#[test]
fn every_option_names_its_operation() {
    let cases = [
        ("-e", Op::ExitExistence),
        ("-p", Op::PrintConfiguration),
        ("-pe", Op::PrintExistence),
        ("-pa", Op::PrintAddress),
        ("-pn", Op::PrintNetmask),
        ("-pN", Op::PrintNetworkAddress),
        ("-pb", Op::PrintBroadcast),
        ("-pm", Op::PrintMtu),
        ("-ph", Op::PrintMac),
        ("-si", Op::PrintInputStats),
        ("-sip", Op::PrintInputPackets),
        ("-sib", Op::PrintInputBytes),
        ("-sie", Op::PrintInputErrors),
        ("-so", Op::PrintOutputStats),
        ("-sop", Op::PrintOutputPackets),
        ("-sob", Op::PrintOutputBytes),
        ("-soe", Op::PrintOutputErrors),
        ("-bips", Op::PrintInputBytesOverSecond),
        ("-bops", Op::PrintOutputBytesOverSecond),
    ];
    for (word, op) in cases {
        assert_eq!(read_op(&word.as_bytes().to_vec()), Some(op));
    }
    for word in ["", "-", "-h", "-pz", "eth0", "-PA", "-pa "] {
        assert_eq!(read_op(&word.as_bytes().to_vec()), None, "{:?}", word);
    }
}

#[test]
fn arguments_are_read() {
    assert_eq!(
        parse_args(&tokens(&["-pa", "eth0", "-pm"])),
        Request::Run(Args {
            ops: vec![Op::PrintAddress, Op::PrintMtu],
            interface: b"eth0".to_vec(),
            refresh_one_second: false
        })
    );
    assert_eq!(
        parse_args(&tokens(&["lo"])),
        Request::Run(Args { ops: vec![], interface: b"lo".to_vec(), refresh_one_second: false })
    );
}

#[test]
fn last_name_is_the_interface() {
    assert_eq!(
        parse_args(&tokens(&["eth0", "-e", "eth1"])),
        Request::Run(Args {
            ops: vec![Op::ExitExistence],
            interface: b"eth1".to_vec(),
            refresh_one_second: false
        })
    );
}

#[test]
fn rates_need_a_second_reading() {
    match parse_args(&tokens(&["-pa", "-bips", "eth0", "-pm"])) {
        Request::Run(args) => assert!(args.refresh_one_second),
        other => panic!("unexpected {:?}", other),
    }
    match parse_args(&tokens(&["-bops", "eth0"])) {
        Request::Run(args) => assert!(args.refresh_one_second),
        other => panic!("unexpected {:?}", other),
    }
}

#[test]
fn help_and_missing_interface() {
    assert_eq!(parse_args(&tokens(&["-pa", "eth0", "-h"])), Request::Help);
    assert_eq!(parse_args(&tokens(&["-h"])), Request::Help);
    assert_eq!(parse_args(&tokens(&[])), Request::MissingInterface);
    assert_eq!(parse_args(&tokens(&["-pa", "-pm"])), Request::MissingInterface);
    assert!(usage().starts_with("Usage: ifdata [OPTION]... INTERFACE\n"));
    assert!(usage().ends_with("  -soe  Print out the number of input errors\n"));
}

#[test]
fn answers_without_an_interface() {
    assert_eq!(answer(Op::ExitExistence, None), Answer::Exit(1));
    assert_eq!(answer(Op::PrintExistence, None), Answer::Existence(false));
    for op in [Op::PrintAddress, Op::PrintMtu, Op::PrintMac, Op::PrintConfiguration, Op::PrintInputStats, Op::PrintOutputBytesOverSecond] {
        assert_eq!(answer(op, None), Answer::NoSuchInterface);
    }
}

#[test]
fn answers_on_an_interface() {
    let found = typical();
    let on = |op| answer(op, Some(&found));
    assert_eq!(on(Op::ExitExistence), Answer::Exit(0));
    assert_eq!(on(Op::PrintExistence), Answer::Existence(true));
    assert_eq!(on(Op::PrintAddress), Answer::Line(vec![Field::Ipv4(v4(192, 168, 1, 77))]));
    assert_eq!(on(Op::PrintNetmask), Answer::Line(vec![Field::Ipv4(v4(255, 255, 255, 0))]));
    assert_eq!(on(Op::PrintNetworkAddress), Answer::Line(vec![Field::Ipv4(v4(192, 168, 1, 0))]));
    assert_eq!(on(Op::PrintBroadcast), Answer::Line(vec![Field::Ipv4(v4(192, 168, 1, 255))]));
    assert_eq!(on(Op::PrintMtu), Answer::Line(vec![Field::Number(1500)]));
    assert_eq!(on(Op::PrintMac), Answer::Line(vec![Field::Mac([0x02, 0x42, 0xac, 0x11, 0x00, 0x02])]));
    assert_eq!(
        on(Op::PrintConfiguration),
        Answer::Line(vec![
            Field::Ipv4(v4(192, 168, 1, 77)),
            Field::Ipv4(v4(255, 255, 255, 0)),
            Field::Ipv4(v4(192, 168, 1, 255)),
            Field::Number(1500)
        ])
    );
    assert_eq!(on(Op::PrintInputBytes), Answer::Line(vec![Field::Number(11)]));
    assert_eq!(on(Op::PrintInputPackets), Answer::Line(vec![Field::Number(12)]));
    assert_eq!(on(Op::PrintInputErrors), Answer::Line(vec![Field::Number(13)]));
    assert_eq!(
        on(Op::PrintInputStats),
        Answer::Line(vec![Field::Number(11), Field::Number(12), Field::Number(13)])
    );
    assert_eq!(on(Op::PrintOutputBytes), Answer::Line(vec![Field::Number(21)]));
    assert_eq!(on(Op::PrintOutputPackets), Answer::Line(vec![Field::Number(22)]));
    assert_eq!(on(Op::PrintOutputErrors), Answer::Line(vec![Field::Number(23)]));
    assert_eq!(
        on(Op::PrintOutputStats),
        Answer::Line(vec![Field::Number(21), Field::Number(22), Field::Number(23)])
    );
    assert_eq!(on(Op::PrintInputBytesOverSecond), Answer::Line(vec![Field::Number(31)]));
    assert_eq!(on(Op::PrintOutputBytesOverSecond), Answer::Line(vec![Field::Number(32)]));
}

#[test]
fn answers_on_an_interface_without_addresses() {
    let mut bare = interface(vec![]);
    bare.mac_address = [0; 6];
    assert_eq!(answer(Op::PrintAddress, Some(&bare)), Answer::Line(vec![]));
    assert_eq!(answer(Op::PrintBroadcast, Some(&bare)), Answer::Line(vec![]));
    assert_eq!(answer(Op::PrintConfiguration, Some(&bare)), Answer::Line(vec![Field::Number(1500)]));
    assert_eq!(answer(Op::PrintMac, Some(&bare)), Answer::NoHardwareAddress);
}
