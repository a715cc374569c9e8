use mrbgpd::bgp::AutonomousSystemNumber;
use mrbgpd::path_attribute::{AsPath, Origin, PathAttribute};
use mrbgpd::rib::{
    find_next_hop, KernelRouteRequest, Rib, RoutingInformationEntry, RoutingInformationStatus,
    UpdateStatus,
};
use mrbgpd::routing::{IpPrefix, Ipv4Addr, KernelRoute};
use mrbgpd::update::BgpUpdateMessage;
use mrbgpd::{Config, Mode};

fn rib_prefix(a: u8, b: u8, c: u8, d: u8, len: u8) -> IpPrefix {
    IpPrefix::new(Ipv4Addr::new(a, b, c, d), len)
}

fn rib_entry(next_hop_last: u8, third: u8, status: RoutingInformationStatus) -> RoutingInformationEntry {
    RoutingInformationEntry::new(
        Ipv4Addr::new(10, 0, 0, next_hop_last),
        rib_prefix(10, 1, third, 0, 24),
        status,
        vec![PathAttribute::Origin(Origin::Igp)],
    )
}

fn rib_keys(rib: &Rib) -> Vec<(Ipv4Addr, IpPrefix)> {
    rib.0.iter().map(|e| (e.nexthop, e.destination_address)).collect()
}

fn rib_has_no_duplicates(rib: &Rib) -> bool {
    let keys = rib_keys(rib);
    for i in 0..keys.len() {
        for j in (i + 1)..keys.len() {
            if keys[i] == keys[j] {
                return false;
            }
        }
    }
    true
}

fn rib_scenario_update() -> BgpUpdateMessage {
    BgpUpdateMessage {
        withdrawn_routes: vec![],
        path_attributes: vec![
            PathAttribute::Origin(Origin::Igp),
            PathAttribute::AsPath(AsPath::AsSequence(vec![65002])),
            PathAttribute::NextHop(Ipv4Addr::new(10, 0, 0, 2)),
        ],
        network_layer_reachability_information: vec![rib_prefix(10, 1, 0, 0, 16)],
    }
}

#[test]
fn new_entry_awaits_installation() {
    let entry = rib_entry(1, 2, RoutingInformationStatus::Updated);
    assert_eq!(entry.nexthop, Ipv4Addr::new(10, 0, 0, 1));
    assert_eq!(entry.destination_address, rib_prefix(10, 1, 2, 0, 24));
    assert_eq!(entry.status, RoutingInformationStatus::Updated);
    assert_eq!(entry.update_status, UpdateStatus::ShouldUpdate);
    assert_eq!(entry.path_attributes, vec![PathAttribute::Origin(Origin::Igp)]);
}

#[test]
fn same_route_looks_at_next_hop_and_destination_only() {
    let a = rib_entry(1, 2, RoutingInformationStatus::Updated);
    let mut b = rib_entry(1, 2, RoutingInformationStatus::UnChanged);
    b.path_attributes = vec![];
    b.update_status = UpdateStatus::Updated;
    assert!(a.same_route(&b));
    assert!(a == b);
    assert!(a != rib_entry(2, 2, RoutingInformationStatus::Updated));
    assert!(a != rib_entry(1, 3, RoutingInformationStatus::Updated));
    assert!(!a.same_route(&rib_entry(2, 2, RoutingInformationStatus::Updated)));
    assert!(!a.same_route(&rib_entry(1, 3, RoutingInformationStatus::Updated)));
}

#[test]
fn insertion_is_a_no_op_for_a_known_route() {
    let mut rib = Rib::new(vec![]);
    assert_eq!(rib.0.len(), 0);
    rib.add_one_entry(rib_entry(1, 1, RoutingInformationStatus::Updated));
    rib.add_one_entry(rib_entry(1, 2, RoutingInformationStatus::Updated));
    let mut again = rib_entry(1, 1, RoutingInformationStatus::Withdrawn);
    again.path_attributes = vec![PathAttribute::LocalPref];
    assert!(rib.contains(&again));
    rib.add_one_entry(again);
    assert_eq!(rib.0.len(), 2);
    assert_eq!(rib.0[0].status, RoutingInformationStatus::Updated);
    assert_eq!(rib.0[0].path_attributes, vec![PathAttribute::Origin(Origin::Igp)]);
    assert_eq!(
        rib_keys(&rib),
        vec![
            (Ipv4Addr::new(10, 0, 0, 1), rib_prefix(10, 1, 1, 0, 24)),
            (Ipv4Addr::new(10, 0, 0, 1), rib_prefix(10, 1, 2, 0, 24)),
        ]
    );
}

#[test]
fn no_sequence_of_insertions_leaves_a_duplicate() {
    let mut offered: Vec<RoutingInformationEntry> = vec![];
    let mut seed: u32 = 12345;
    for _ in 0..200 {
        seed = seed.wrapping_mul(1103515245).wrapping_add(12345);
        let hop: u8 = ((seed >> 16) % 3) as u8;
        let third: u8 = ((seed >> 20) % 5) as u8;
        offered.push(rib_entry(hop, third, RoutingInformationStatus::Updated));
    }
    let from_new = Rib::new(offered.clone());
    assert!(rib_has_no_duplicates(&from_new));
    assert!(from_new.0.len() <= 15);
    let mut by_add = Rib::new(vec![]);
    by_add.add(offered.clone());
    assert_eq!(rib_keys(&by_add), rib_keys(&from_new));
    let mut one_by_one = Rib::new(vec![]);
    for entry in offered {
        one_by_one.add_one_entry(entry);
        assert!(rib_has_no_duplicates(&one_by_one));
    }
    assert_eq!(rib_keys(&one_by_one), rib_keys(&from_new));
}

#[test]
fn status_queries_and_marks() {
    let mut rib = Rib::new(vec![
        rib_entry(1, 1, RoutingInformationStatus::UnChanged),
        rib_entry(1, 2, RoutingInformationStatus::UnChanged),
    ]);
    assert!(!rib.does_have_new_route());
    assert!(rib.does_have_should_update_route());
    rib.add_one_entry(rib_entry(1, 3, RoutingInformationStatus::Withdrawn));
    assert!(rib.does_have_new_route());
    assert_eq!(rib.get_new_route().len(), 1);
    assert_eq!(rib.get_new_route()[0].destination_address, rib_prefix(10, 1, 3, 0, 24));
    rib.change_state_of_all_routing_information_to_unchanged();
    assert!(!rib.does_have_new_route());
    assert_eq!(rib.get_new_route().len(), 0);
    assert!(rib.0.iter().all(|e| e.status == RoutingInformationStatus::UnChanged));
    assert!(rib.0.iter().all(|e| e.update_status == UpdateStatus::ShouldUpdate));
    rib.change_update_state_of_all_routing_information_to_updated();
    assert!(!rib.does_have_should_update_route());
    assert!(rib.0.iter().all(|e| e.update_status == UpdateStatus::Updated));
    assert_eq!(rib.0.len(), 3);
}

#[test]
fn propagation_twice_leaves_everything_unchanged() {
    let mut source = Rib::new(vec![]);
    source.add_one_entry(rib_entry(1, 1, RoutingInformationStatus::Updated));
    source.add_one_entry(rib_entry(1, 2, RoutingInformationStatus::Updated));
    let mut target = Rib::new(vec![rib_entry(9, 9, RoutingInformationStatus::Updated)]);
    target.propagate_from(&source);
    assert_eq!(target.0.len(), 3);
    assert_eq!(target.0[0].status, RoutingInformationStatus::UnChanged);
    assert_eq!(target.0[1].status, RoutingInformationStatus::Updated);
    assert_eq!(target.0[2].status, RoutingInformationStatus::Updated);
    assert!(target.does_have_new_route());
    let keys_after_first = rib_keys(&target);
    target.propagate_from(&source);
    assert_eq!(rib_keys(&target), keys_after_first);
    assert!(!target.does_have_new_route());
    assert!(target.0.iter().all(|e| e.status == RoutingInformationStatus::UnChanged));
    target.propagate_from(&source);
    assert_eq!(rib_keys(&target), keys_after_first);
    assert!(!target.does_have_new_route());
}

#[test]
fn update_ingest_scenario() {
    let mut adj_rib_in = Rib::new(vec![]);
    adj_rib_in.add_from_update_message(rib_scenario_update(), &AutonomousSystemNumber::new(65001));
    assert_eq!(adj_rib_in.0.len(), 1);
    let entry = &adj_rib_in.0[0];
    assert_eq!(entry.nexthop, Ipv4Addr::new(10, 0, 0, 2));
    assert_eq!(entry.destination_address, rib_prefix(10, 1, 0, 0, 16));
    assert_eq!(entry.status, RoutingInformationStatus::Updated);
    assert_eq!(entry.update_status, UpdateStatus::ShouldUpdate);
    assert_eq!(
        entry.path_attributes,
        vec![
            PathAttribute::Origin(Origin::Egp),
            PathAttribute::AsPath(AsPath::AsSequence(vec![65002])),
            PathAttribute::NextHop(Ipv4Addr::new(10, 0, 0, 2)),
        ]
    );
    assert!(adj_rib_in.does_have_new_route());

    let mut loc_rib = Rib::new(vec![]);
    loc_rib.propagate_from(&adj_rib_in);
    let mut adj_rib_out = Rib::new(vec![]);
    adj_rib_out.propagate_from(&loc_rib);
    assert_eq!(rib_keys(&loc_rib), rib_keys(&adj_rib_in));
    assert_eq!(rib_keys(&adj_rib_out), rib_keys(&adj_rib_in));
}

#[test]
fn duplicate_update_scenario() {
    let mut adj_rib_in = Rib::new(vec![]);
    adj_rib_in.add_from_update_message(rib_scenario_update(), &AutonomousSystemNumber::new(65001));
    adj_rib_in.add_from_update_message(rib_scenario_update(), &AutonomousSystemNumber::new(65001));
    assert_eq!(adj_rib_in.0.len(), 1);
    assert_eq!(
        rib_keys(&adj_rib_in),
        vec![(Ipv4Addr::new(10, 0, 0, 2), rib_prefix(10, 1, 0, 0, 16))]
    );
}

#[test]
fn update_with_several_prefixes_and_no_next_hop() {
    let update = BgpUpdateMessage {
        withdrawn_routes: vec![],
        path_attributes: vec![PathAttribute::Origin(Origin::Incomplete)],
        network_layer_reachability_information: vec![
            rib_prefix(10, 1, 0, 0, 16),
            rib_prefix(10, 2, 0, 0, 16),
            rib_prefix(10, 1, 0, 0, 16),
        ],
    };
    let mut rib = Rib::new(vec![]);
    rib.add_from_update_message(update, &AutonomousSystemNumber::new(1));
    assert_eq!(
        rib_keys(&rib),
        vec![
            (Ipv4Addr::new(0, 0, 0, 0), rib_prefix(10, 1, 0, 0, 16)),
            (Ipv4Addr::new(0, 0, 0, 0), rib_prefix(10, 2, 0, 0, 16)),
        ]
    );
    assert_eq!(rib.0[1].path_attributes, vec![PathAttribute::Origin(Origin::Egp)]);
}

#[test]
fn next_hop_is_the_last_one_named() {
    assert_eq!(find_next_hop(&vec![]), Ipv4Addr::new(0, 0, 0, 0));
    assert_eq!(
        find_next_hop(&vec![
            PathAttribute::NextHop(Ipv4Addr::new(1, 1, 1, 1)),
            PathAttribute::Origin(Origin::Igp),
            PathAttribute::NextHop(Ipv4Addr::new(2, 2, 2, 2)),
            PathAttribute::LocalPref,
        ]),
        Ipv4Addr::new(2, 2, 2, 2)
    );
}

#[test]
fn routes_of_the_host_become_entries() {
    let routes = vec![
        KernelRoute {
            destination: Some(rib_prefix(10, 1, 0, 0, 16)),
            gateway: Some(Ipv4Addr::new(10, 0, 0, 254)),
        },
        KernelRoute { destination: None, gateway: Some(Ipv4Addr::new(10, 0, 0, 1)) },
        KernelRoute { destination: Some(rib_prefix(10, 2, 0, 0, 16)), gateway: None },
        KernelRoute {
            destination: Some(rib_prefix(10, 1, 0, 0, 16)),
            gateway: Some(Ipv4Addr::new(10, 0, 0, 254)),
        },
    ];
    let mut rib = Rib::new(vec![]);
    rib.add_from_route_message(&routes, vec![PathAttribute::AtomicAggregate]);
    assert_eq!(
        rib_keys(&rib),
        vec![
            (Ipv4Addr::new(10, 0, 0, 254), rib_prefix(10, 1, 0, 0, 16)),
            (Ipv4Addr::new(0, 0, 0, 0), rib_prefix(10, 2, 0, 0, 16)),
        ]
    );
    assert!(rib.0.iter().all(|e| e.status == RoutingInformationStatus::Updated));
    assert!(rib.0.iter().all(|e| e.update_status == UpdateStatus::ShouldUpdate));
    assert!(rib.0.iter().all(|e| e.path_attributes == vec![PathAttribute::AtomicAggregate]));
}

#[test]
fn installation_takes_updated_routes_in_order() {
    let mut rib = Rib::new(vec![
        rib_entry(1, 1, RoutingInformationStatus::UnChanged),
        rib_entry(2, 2, RoutingInformationStatus::Updated),
        rib_entry(3, 3, RoutingInformationStatus::Updated),
    ]);
    assert_eq!(
        rib.next_route_to_install(),
        Some((
            1,
            KernelRouteRequest {
                protocol: 3,
                destination: rib_prefix(10, 1, 2, 0, 24),
                gateway: Ipv4Addr::new(10, 0, 0, 2),
            }
        ))
    );
    rib.mark_installed(1);
    assert_eq!(rib.0[1].update_status, UpdateStatus::Updated);
    assert_eq!(rib.0[0].update_status, UpdateStatus::ShouldUpdate);
    assert_eq!(rib.next_route_to_install().map(|(i, _)| i), Some(2));
    rib.mark_installed(2);
    assert_eq!(rib.next_route_to_install(), None);
}

#[test]
fn entry_attribute_edits() {
    let mut entry = RoutingInformationEntry::new(
        Ipv4Addr::new(10, 0, 0, 2),
        rib_prefix(10, 1, 0, 0, 16),
        RoutingInformationStatus::Updated,
        vec![
            PathAttribute::Origin(Origin::Igp),
            PathAttribute::AsPath(AsPath::AsSequence(vec![65002])),
            PathAttribute::NextHop(Ipv4Addr::new(10, 0, 0, 2)),
            PathAttribute::AsPath(AsPath::AsSet(vec![])),
            PathAttribute::Unknown(vec![1]),
        ],
    );
    assert_eq!(entry.get_as_path(), &AsPath::AsSequence(vec![65002]));
    entry.add_as_path(65001);
    entry.change_nexthop(Ipv4Addr::new(10, 0, 0, 1));
    entry.change_origin(Origin::Incomplete);
    assert_eq!(
        entry.path_attributes,
        vec![
            PathAttribute::Origin(Origin::Incomplete),
            PathAttribute::AsPath(AsPath::AsSequence(vec![65002, 65001])),
            PathAttribute::NextHop(Ipv4Addr::new(10, 0, 0, 1)),
            PathAttribute::AsPath(AsPath::AsSet(vec![65001])),
            PathAttribute::Unknown(vec![1]),
        ]
    );
    assert_eq!(entry.nexthop, Ipv4Addr::new(10, 0, 0, 2));
    assert_eq!(entry.get_as_path(), &AsPath::AsSequence(vec![65002, 65001]));
    let copy = entry.clone();
    assert_eq!(copy.path_attributes, entry.path_attributes);
    assert!(copy.same_route(&entry));
}

#[test]
fn advertisement_from_adj_rib_out() {
    let config = Config {
        as_number: AutonomousSystemNumber::new(65001),
        my_ip_addr: Ipv4Addr::new(10, 0, 0, 1),
        remote_as_number: AutonomousSystemNumber::new(65002),
        remote_ip_addr: Ipv4Addr::new(10, 0, 0, 2),
        mode: Mode::Active,
        advertisement_network: rib_prefix(10, 0, 0, 0, 8),
    };
    let adj_rib_out = Rib::new(vec![
        rib_entry(1, 1, RoutingInformationStatus::Updated),
        rib_entry(1, 2, RoutingInformationStatus::UnChanged),
        rib_entry(1, 3, RoutingInformationStatus::Updated),
    ]);
    let update = BgpUpdateMessage::is_created_from_adj_rib_out(&adj_rib_out, &config);
    assert_eq!(update.withdrawn_routes, vec![]);
    assert_eq!(
        update.path_attributes,
        vec![
            PathAttribute::Origin(Origin::Igp),
            PathAttribute::AsPath(AsPath::AsSequence(vec![65001])),
            PathAttribute::NextHop(Ipv4Addr::new(10, 0, 0, 1)),
        ]
    );
    assert_eq!(
        update.network_layer_reachability_information,
        vec![rib_prefix(10, 1, 1, 0, 24), rib_prefix(10, 1, 3, 0, 24)]
    );
    let bytes = update.decode();
    assert_eq!(bytes.len(), 19 + 2 + 2 + 18 + 4 + 4);
    assert_eq!(&bytes[16..19], &[0, 49, 2]);
    assert_eq!(BgpUpdateMessage::encode(&bytes), Ok(update));
}
