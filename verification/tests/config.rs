use mrbgpd::bgp::AutonomousSystemNumber;
use mrbgpd::config::{
    parse_address, parse_mode, parse_number, parse_prefix, split_octets, ConfigError,
};
use mrbgpd::routing::{IpPrefix, Ipv4Addr};
use mrbgpd::{Config, Mode};

fn config_sample() -> Config {
    Config {
        as_number: AutonomousSystemNumber::new(65001),
        my_ip_addr: Ipv4Addr::new(10, 0, 0, 1),
        remote_as_number: AutonomousSystemNumber::new(65002),
        remote_ip_addr: Ipv4Addr::new(10, 0, 0, 2),
        mode: Mode::Active,
        advertisement_network: IpPrefix::new(Ipv4Addr::new(10, 100, 0, 0), 16),
    }
}

fn config_fields_with(index: usize, field: &'static str) -> Vec<&'static str> {
    let mut fields = vec!["65001", "10.0.0.1", "65002", "10.0.0.2", "active", "10.100.0.0/16"];
    fields[index] = field;
    fields
}

#[test]
fn splitting_keeps_empty_pieces() {
    assert_eq!(split_octets(&b"a b c".to_vec(), b' '), vec![b"a".to_vec(), b"b".to_vec(), b"c".to_vec()]);
    assert_eq!(split_octets(&b"".to_vec(), b' '), vec![Vec::<u8>::new()]);
    assert_eq!(split_octets(&b" ".to_vec(), b' '), vec![Vec::<u8>::new(), Vec::<u8>::new()]);
    assert_eq!(
        split_octets(&b".1..2.".to_vec(), b'.'),
        vec![b"".to_vec(), b"1".to_vec(), b"".to_vec(), b"2".to_vec(), b"".to_vec()]
    );
    assert_eq!(split_octets(&b"no separator".to_vec(), b'/'), vec![b"no separator".to_vec()]);
}

#[test]
fn numbers_are_decimal_digits_within_the_bound() {
    assert_eq!(parse_number(&b"0".to_vec(), 255), Some(0));
    assert_eq!(parse_number(&b"255".to_vec(), 255), Some(255));
    assert_eq!(parse_number(&b"256".to_vec(), 255), None);
    assert_eq!(parse_number(&b"65535".to_vec(), 65535), Some(65535));
    assert_eq!(parse_number(&b"65536".to_vec(), 65535), None);
    assert_eq!(parse_number(&b"00065001".to_vec(), 65535), Some(65001));
    assert_eq!(parse_number(&b"99999999999999999999".to_vec(), 65535), None);
    assert_eq!(parse_number(&b"".to_vec(), 65535), None);
    assert_eq!(parse_number(&b"+5".to_vec(), 65535), None);
    assert_eq!(parse_number(&b"-5".to_vec(), 65535), None);
    assert_eq!(parse_number(&b"12a".to_vec(), 65535), None);
    assert_eq!(parse_number(&b"9999999a".to_vec(), 65535), None);
    assert_eq!(parse_number(&b" 5".to_vec(), 65535), None);
    assert_eq!(parse_number(&b"32".to_vec(), 32), Some(32));
    assert_eq!(parse_number(&b"33".to_vec(), 32), None);
}

#[test]
fn addresses_are_four_numbers_between_dots() {
    assert_eq!(parse_address(&b"10.0.0.1".to_vec()), Some(Ipv4Addr::new(10, 0, 0, 1)));
    assert_eq!(parse_address(&b"255.255.255.255".to_vec()), Some(Ipv4Addr::new(255, 255, 255, 255)));
    assert_eq!(parse_address(&b"0.0.0.0".to_vec()), Some(Ipv4Addr::new(0, 0, 0, 0)));
    assert_eq!(parse_address(&b"192.168.005.1".to_vec()), Some(Ipv4Addr::new(192, 168, 5, 1)));
    assert_eq!(parse_address(&b"256.0.0.1".to_vec()), None);
    assert_eq!(parse_address(&b"1.2.3".to_vec()), None);
    assert_eq!(parse_address(&b"1.2.3.4.5".to_vec()), None);
    assert_eq!(parse_address(&b"1..2.3".to_vec()), None);
    assert_eq!(parse_address(&b"1.2.3.".to_vec()), None);
    assert_eq!(parse_address(&b"".to_vec()), None);
    assert_eq!(parse_address(&b"a.b.c.d".to_vec()), None);
    assert_eq!(parse_address(&b"1.2.3.4 ".to_vec()), None);
}

#[test]
fn prefixes_are_an_address_and_a_length() {
    assert_eq!(
        parse_prefix(&b"10.100.0.0/16".to_vec()),
        Some(IpPrefix::new(Ipv4Addr::new(10, 100, 0, 0), 16))
    );
    assert_eq!(
        parse_prefix(&b"10.1.2.3/8".to_vec()),
        Some(IpPrefix::new(Ipv4Addr::new(10, 0, 0, 0), 8))
    );
    assert_eq!(
        parse_prefix(&b"0.0.0.0/0".to_vec()),
        Some(IpPrefix::new(Ipv4Addr::new(0, 0, 0, 0), 0))
    );
    assert_eq!(
        parse_prefix(&b"1.2.3.4/32".to_vec()),
        Some(IpPrefix::new(Ipv4Addr::new(1, 2, 3, 4), 32))
    );
    assert_eq!(parse_prefix(&b"10.0.0.0/33".to_vec()), None);
    assert_eq!(parse_prefix(&b"10.0.0.0".to_vec()), None);
    assert_eq!(parse_prefix(&b"10.0.0.0/".to_vec()), None);
    assert_eq!(parse_prefix(&b"/8".to_vec()), None);
    assert_eq!(parse_prefix(&b"10.0.0.0/8/8".to_vec()), None);
    assert_eq!(parse_prefix(&b"10.0.0/8".to_vec()), None);
    assert_eq!(IpPrefix::from_str("192.168.0.0/16"), Ok(IpPrefix::new(Ipv4Addr::new(192, 168, 0, 0), 16)));
    assert_eq!(IpPrefix::from_str("192.168.0.0-16"), Err(ConfigError::Prefix));
}

#[test]
fn modes_are_two_words() {
    assert_eq!(parse_mode(&b"active".to_vec()), Some(Mode::Active));
    assert_eq!(parse_mode(&b"passive".to_vec()), Some(Mode::Passive));
    assert_eq!(parse_mode(&b"Active".to_vec()), None);
    assert_eq!(parse_mode(&b"activ".to_vec()), None);
    assert_eq!(parse_mode(&b"passive ".to_vec()), None);
    assert_eq!(parse_mode(&b"".to_vec()), None);
    assert_eq!(Mode::from_str("active"), Ok(Mode::Active));
    assert_eq!(Mode::from_str("passive"), Ok(Mode::Passive));
    assert_eq!(Mode::from_str("both"), Err(ConfigError::Mode));
}

#[test]
fn six_fields_make_a_configuration() {
    let fields = vec!["65001", "10.0.0.1", "65002", "10.0.0.2", "active", "10.100.0.0/16"];
    assert_eq!(Config::parse_args(fields), Ok(config_sample()));
    let passive = Config::parse_args(config_fields_with(4, "passive")).unwrap();
    assert_eq!(passive.mode, Mode::Passive);
    assert_eq!(passive.as_number, AutonomousSystemNumber(65001));
    assert_eq!(passive.remote_ip_addr, Ipv4Addr::new(10, 0, 0, 2));
}

#[test]
fn each_field_has_its_error() {
    assert_eq!(Config::parse_args(vec![]), Err(ConfigError::FieldCount));
    assert_eq!(
        Config::parse_args(vec!["65001", "10.0.0.1", "65002", "10.0.0.2", "active"]),
        Err(ConfigError::FieldCount)
    );
    assert_eq!(
        Config::parse_args(vec![
            "bgpd", "65001", "10.0.0.1", "65002", "10.0.0.2", "active", "10.100.0.0/16"
        ]),
        Err(ConfigError::FieldCount)
    );
    assert_eq!(Config::parse_args(config_fields_with(0, "65536")), Err(ConfigError::LocalAs));
    assert_eq!(Config::parse_args(config_fields_with(1, "10.0.0")), Err(ConfigError::LocalAddress));
    assert_eq!(Config::parse_args(config_fields_with(2, "")), Err(ConfigError::RemoteAs));
    assert_eq!(
        Config::parse_args(config_fields_with(3, "10.0.0.300")),
        Err(ConfigError::RemoteAddress)
    );
    assert_eq!(Config::parse_args(config_fields_with(4, "maybe")), Err(ConfigError::Mode));
    assert_eq!(Config::parse_args(config_fields_with(5, "10.100.0.0")), Err(ConfigError::Prefix));
    let mut two_wrong = config_fields_with(5, "x");
    two_wrong[2] = "y";
    assert_eq!(Config::parse_args(two_wrong), Err(ConfigError::RemoteAs));
}

#[test]
fn a_line_is_split_at_single_spaces() {
    let line = b"65001 10.0.0.1 65002 10.0.0.2 active 10.100.0.0/16".to_vec();
    assert_eq!(Config::parse_line(&line), Ok(config_sample()));
    let doubled = b"65001  10.0.0.1 65002 10.0.0.2 active 10.100.0.0/16".to_vec();
    assert_eq!(Config::parse_line(&doubled), Err(ConfigError::FieldCount));
    let trailing = b"65001 10.0.0.1 65002 10.0.0.2 active 10.100.0.0/16 ".to_vec();
    assert_eq!(Config::parse_line(&trailing), Err(ConfigError::FieldCount));
    assert_eq!(Config::parse_line(&b"".to_vec()), Err(ConfigError::FieldCount));
}

#[test]
fn a_text_holds_one_peer_for_each_line() {
    let text = b"65001 10.0.0.1 65002 10.0.0.2 active 10.100.0.0/16\n\n65001 10.0.0.1 65003 10.0.0.3 passive 10.0.0.0/8\n"
        .to_vec();
    let configs = Config::parse_text(&text).unwrap();
    assert_eq!(configs.len(), 2);
    assert_eq!(configs[0], config_sample());
    assert_eq!(configs[1].remote_as_number, AutonomousSystemNumber(65003));
    assert_eq!(configs[1].mode, Mode::Passive);
    assert_eq!(configs[1].advertisement_network, IpPrefix::new(Ipv4Addr::new(10, 0, 0, 0), 8));
    assert_eq!(Config::parse_text(&b"".to_vec()), Ok(vec![]));
    assert_eq!(Config::parse_text(&b"\n\n".to_vec()), Ok(vec![]));
    let broken = b"65001 10.0.0.1 65002 10.0.0.2 active 10.100.0.0/16\n65001 10.0.0.1 x 10.0.0.3 passive 10.0.0.0/8\nrubbish"
        .to_vec();
    assert_eq!(Config::parse_text(&broken), Err(ConfigError::RemoteAs));
}
