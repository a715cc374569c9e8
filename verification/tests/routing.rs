use mrbgpd::error::BgpError;
use mrbgpd::routing::{
    lookup_network_route, netmask_of, octet_count_of, IpPrefix, Ipv4Addr, KernelRoute,
};

fn routing_prefix(a: u8, b: u8, c: u8, d: u8, len: u8) -> IpPrefix {
    IpPrefix::new(Ipv4Addr::new(a, b, c, d), len)
}

#[test]
fn test_does_ip_prefix_include() {
    let bigger_ip_prefix = IpPrefix {
        network_address: Ipv4Addr::new(192, 168, 0, 0),
        prefix_length: 16,
    };

    let smaller_ip_prefix = IpPrefix {
        network_address: Ipv4Addr::new(192, 168, 5, 0),
        prefix_length: 24,
    };

    assert_eq!(bigger_ip_prefix.does_include(&smaller_ip_prefix), true);
    assert_eq!(smaller_ip_prefix.does_include(&bigger_ip_prefix), false);
}

#[test]
fn address_octets_round_trip() {
    let address = Ipv4Addr::new(10, 0, 0, 1);
    assert_eq!(address.bits, 0x0a00_0001);
    assert_eq!(address.octets(), [10, 0, 0, 1]);
    assert_eq!(Ipv4Addr::new(255, 254, 253, 252).octets(), [255, 254, 253, 252]);
}

#[test]
fn netmask_values() {
    assert_eq!(netmask_of(0), 0);
    assert_eq!(netmask_of(1), 0x8000_0000);
    assert_eq!(netmask_of(8), 0xff00_0000);
    assert_eq!(netmask_of(24), 0xffff_ff00);
    assert_eq!(netmask_of(31), 0xffff_fffe);
    assert_eq!(netmask_of(32), 0xffff_ffff);
}

#[test]
fn octet_count_is_ceiling_of_eighth() {
    for len in 0u8..=32 {
        let expected: usize = (len as usize + 7) / 8;
        assert_eq!(octet_count_of(len), expected);
    }
}

#[test]
fn new_clears_host_bits() {
    let p = routing_prefix(192, 168, 5, 77, 24);
    assert_eq!(p.network_address, Ipv4Addr::new(192, 168, 5, 0));
    assert_eq!(p.prefix_length, 24);
    let q = routing_prefix(10, 255, 255, 255, 12);
    assert_eq!(q.network_address, Ipv4Addr::new(10, 240, 0, 0));
    let all = routing_prefix(1, 2, 3, 4, 0);
    assert_eq!(all.network_address, Ipv4Addr::new(0, 0, 0, 0));
    let host = routing_prefix(1, 2, 3, 4, 32);
    assert_eq!(host.network_address, Ipv4Addr::new(1, 2, 3, 4));
}

#[test]
fn prefix_encode_scenario() {
    let p = routing_prefix(192, 168, 5, 0, 24);
    assert_eq!(p.decode(), vec![0x18, 0xC0, 0xA8, 0x05]);
    let back = IpPrefix::encode(&vec![0x18, 0xC0, 0xA8, 0x05]);
    assert_eq!(back, Ok(routing_prefix(192, 168, 5, 0, 24)));
    let bigger = routing_prefix(192, 168, 0, 0, 16);
    assert!(bigger.does_include(&p));
    assert!(!p.does_include(&bigger));
}

#[test]
fn prefix_of_length_zero_is_one_octet() {
    assert_eq!(routing_prefix(0, 0, 0, 0, 0).decode(), vec![0]);
    assert_eq!(routing_prefix(10, 1, 2, 3, 0).decode(), vec![0]);
    assert_eq!(IpPrefix::encode(&vec![0]), Ok(routing_prefix(0, 0, 0, 0, 0)));
}

#[test]
fn prefix_of_length_32_is_five_octets() {
    assert_eq!(routing_prefix(10, 1, 2, 3, 32).decode(), vec![32, 10, 1, 2, 3]);
    assert_eq!(IpPrefix::encode(&vec![32, 10, 1, 2, 3]), Ok(routing_prefix(10, 1, 2, 3, 32)));
}

#[test]
fn prefix_encoding_is_minimal() {
    for len in 0u8..=32 {
        let p = routing_prefix(0xde, 0xad, 0xbe, 0xef, len);
        let bytes = p.decode();
        assert_eq!(bytes.len(), 1 + (len as usize + 7) / 8);
        assert_eq!(bytes[0], len);
        assert_eq!(IpPrefix::encode(&bytes), Ok(p));
    }
}

#[test]
fn prefix_decoding_masks_extra_bits() {
    let p = IpPrefix::encode(&vec![12, 10, 0xff]).unwrap();
    assert_eq!(p, routing_prefix(10, 0xf0, 0, 0, 12));
    assert_eq!(p.network_address.octets(), [10, 0xf0, 0, 0]);
}

#[test]
fn prefix_decoding_errors() {
    assert_eq!(IpPrefix::encode(&vec![]), Err(BgpError::InvalidNetworkField));
    assert_eq!(IpPrefix::encode(&vec![33, 1, 2, 3, 4]), Err(BgpError::InvalidNetworkField));
    assert_eq!(IpPrefix::encode(&vec![24, 192, 168]), Err(BgpError::InvalidNetworkField));
    assert_eq!(IpPrefix::encode(&vec![16, 192, 168, 5]), Err(BgpError::InvalidNetworkField));
}

#[test]
fn containment_is_a_partial_order_on_samples() {
    let samples = vec![
        routing_prefix(0, 0, 0, 0, 0),
        routing_prefix(10, 0, 0, 0, 8),
        routing_prefix(10, 1, 0, 0, 16),
        routing_prefix(10, 1, 2, 0, 24),
        routing_prefix(10, 1, 2, 3, 32),
        routing_prefix(10, 2, 0, 0, 16),
        routing_prefix(192, 168, 0, 0, 16),
        routing_prefix(192, 168, 5, 0, 24),
        routing_prefix(192, 168, 4, 0, 23),
    ];
    for a in &samples {
        assert!(a.does_include(a));
        for b in &samples {
            if a.does_include(b) && b.does_include(a) {
                assert_eq!(a, b);
            }
            for c in &samples {
                if a.does_include(b) && b.does_include(c) {
                    assert!(a.does_include(c));
                }
            }
        }
    }
    assert!(routing_prefix(192, 168, 4, 0, 23).does_include(&routing_prefix(192, 168, 5, 0, 24)));
    assert!(!routing_prefix(10, 1, 0, 0, 16).does_include(&routing_prefix(10, 2, 0, 0, 16)));
    assert!(routing_prefix(0, 0, 0, 0, 0).does_include(&routing_prefix(10, 2, 0, 0, 16)));
}

#[test]
fn lookup_keeps_routes_within_the_prefix_in_order() {
    let inside1 = KernelRoute {
        destination: Some(routing_prefix(10, 1, 0, 0, 16)),
        gateway: Some(Ipv4Addr::new(10, 0, 0, 254)),
    };
    let outside = KernelRoute {
        destination: Some(routing_prefix(192, 168, 0, 0, 16)),
        gateway: None,
    };
    let nowhere = KernelRoute { destination: None, gateway: Some(Ipv4Addr::new(10, 0, 0, 1)) };
    let wider = KernelRoute { destination: Some(routing_prefix(0, 0, 0, 0, 0)), gateway: None };
    let inside2 = KernelRoute { destination: Some(routing_prefix(10, 9, 9, 9, 32)), gateway: None };
    let all = vec![inside1, outside, nowhere, wider, inside2];
    let found = lookup_network_route(&routing_prefix(10, 0, 0, 0, 8), &all);
    assert_eq!(found, vec![inside1, inside2]);
    assert_eq!(lookup_network_route(&routing_prefix(172, 16, 0, 0, 12), &all), vec![]);
}
