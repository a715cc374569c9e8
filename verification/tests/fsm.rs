use mrbgpd::bgp::{
    AutonomousSystemNumber, BgpKeepaliveMessage, BgpNotificationMessage, BgpOpenMessage, HoldTime,
};
use mrbgpd::error::{BgpError, BgpErrorCode};
use mrbgpd::finite_state_machine::{
    fsm, has_expired, negotiate_hold_time, Action, Event, EventQueue, Queue, SessionAttribute,
    State,
};
use mrbgpd::message::{bgp_packet_handler, BgpMessage, PacketQueue};
use mrbgpd::path_attribute::{AsPath, Origin, PathAttribute};
use mrbgpd::peer::BgpPeers;
use mrbgpd::rib::{KernelRouteRequest, RoutingInformationStatus, UpdateStatus};
use mrbgpd::routing::{IpPrefix, Ipv4Addr, KernelRoute};
use mrbgpd::update::BgpUpdateMessage;
use mrbgpd::{Config, Mode};

fn fsm_config(mode: Mode) -> Config {
    Config {
        as_number: AutonomousSystemNumber::new(65001),
        my_ip_addr: Ipv4Addr::new(10, 0, 0, 1),
        remote_as_number: AutonomousSystemNumber::new(65002),
        remote_ip_addr: Ipv4Addr::new(10, 0, 0, 2),
        mode,
        advertisement_network: IpPrefix::new(Ipv4Addr::new(10, 100, 0, 0), 16),
    }
}

fn fsm_peer_open_bytes() -> Vec<u8> {
    vec![
        0xFF, 0xFF, 0xFF, 0xFF, 0xFF, 0xFF, 0xFF, 0xFF, 0xFF, 0xFF, 0xFF, 0xFF, 0xFF, 0xFF, 0xFF,
        0xFF, 0x00, 0x1D, 0x01, 0x04, 0xFD, 0xE9, 0x00, 0xF0, 0x0A, 0x00, 0x00, 0x01, 0x00,
    ]
}

fn fsm_peer_open() -> BgpOpenMessage {
    BgpOpenMessage::new(AutonomousSystemNumber::new(65001), Ipv4Addr::new(10, 0, 0, 1))
}

fn fsm_scenario_update() -> BgpUpdateMessage {
    BgpUpdateMessage {
        withdrawn_routes: vec![],
        path_attributes: vec![
            PathAttribute::Origin(Origin::Igp),
            PathAttribute::AsPath(AsPath::AsSequence(vec![65002])),
            PathAttribute::NextHop(Ipv4Addr::new(10, 0, 0, 2)),
        ],
        network_layer_reachability_information: vec![IpPrefix::new(
            Ipv4Addr::new(10, 1, 0, 0),
            16,
        )],
    }
}

fn fsm_drain(queue: &mut EventQueue) -> Vec<Event> {
    let mut events: Vec<Event> = vec![];
    while let Some(event) = queue.pop() {
        events.push(event);
    }
    events
}

/// Runs a fresh session to `Established` and returns it with every
/// action that it asked for on the way.
fn fsm_established(mode: Mode) -> (fsm, Vec<Action>) {
    let mut machine = fsm::new(fsm_config(mode), 1000);
    let mut actions: Vec<Action> = vec![];
    actions.extend(machine.handle_event(&Event::ManualStart, 1000));
    actions.extend(machine.handle_event(&Event::TcpConnectionConfirmed, 1001));
    machine.receive(&fsm_peer_open_bytes());
    actions.extend(machine.drain_one_event(1002));
    machine.receive(&BgpKeepaliveMessage::new().decode_to_u8());
    actions.extend(machine.drain_one_event(1003));
    (machine, actions)
}

#[test]
fn queue_is_first_in_first_out() {
    let mut queue: Queue<u32> = Queue::new();
    assert_eq!(queue.len(), 0);
    assert_eq!(queue.pop(), None);
    queue.push(1);
    queue.push(2);
    queue.push(3);
    assert_eq!(queue.len(), 3);
    assert_eq!(queue.pop(), Some(1));
    queue.push(4);
    assert_eq!(queue.pop(), Some(2));
    assert_eq!(queue.pop(), Some(3));
    assert_eq!(queue.pop(), Some(4));
    assert_eq!(queue.pop(), None);
    queue.push(5);
    queue.clear();
    assert_eq!(queue.pop(), None);
}

#[test]
fn session_attribute_at_creation() {
    let attribute = SessionAttribute::new(77);
    assert_eq!(*attribute.get_state(), State::Idle);
    assert_eq!(attribute.connect_retry_counter, 0);
    assert_eq!(attribute.connect_retry_timer, 77);
    assert_eq!(attribute.connect_retry_time, 120);
    assert_eq!(attribute.hold_timer, 77);
    assert_eq!(attribute.hold_time, 90);
    assert_eq!(attribute.keepalive_timer, 77);
    assert_eq!(attribute.keepalive_time, 30);
}

#[test]
fn timer_expiry_formula() {
    assert!(!has_expired(100, 0, 1_000_000));
    assert!(!has_expired(100, 30, 129));
    assert!(has_expired(100, 30, 130));
    assert!(has_expired(100, 30, 131));
    assert!(!has_expired(100, 30, 99));
    assert!(has_expired(0, u64::MAX, u64::MAX));
}

#[test]
fn cold_start_scenario() {
    let mut machine = fsm::new(fsm_config(Mode::Active), 1000);
    assert_eq!(*machine.get_state(), State::Idle);
    machine.event_queue.push(Event::ManualStart);

    let actions = machine.drain_one_event(1000);
    assert_eq!(*machine.get_state(), State::Connect);
    assert_eq!(actions, vec![Action::Connect(Ipv4Addr::new(10, 0, 0, 2))]);
    assert_eq!(machine.session_attribute.connect_retry_counter, 0);
    assert_eq!(machine.session_attribute.connect_retry_timer, 1000);
    assert_eq!(machine.session_attribute.connect_retry_time, 120);

    machine.event_queue.push(Event::TcpConnectionConfirmed);
    let actions = machine.drain_one_event(1001);
    assert_eq!(*machine.get_state(), State::OpenSent);
    assert_eq!(actions, vec![Action::Send(fsm_peer_open_bytes())]);
    assert_eq!(machine.session_attribute.connect_retry_time, 0);
    assert_eq!(machine.session_attribute.hold_timer, 1001);
    assert_eq!(machine.session_attribute.hold_time, 240);

    machine.receive(&fsm_peer_open_bytes());
    let actions = machine.drain_one_event(1002);
    assert_eq!(*machine.get_state(), State::OpenConfirm);
    assert_eq!(actions, vec![Action::Send(BgpKeepaliveMessage::new().decode_to_u8())]);
    assert_eq!(machine.session_attribute.hold_timer, 1002);
    assert_eq!(machine.session_attribute.hold_time, 90);
    assert_eq!(machine.session_attribute.keepalive_timer, 1002);
    assert_eq!(machine.session_attribute.keepalive_time, 30);

    machine.receive(&BgpKeepaliveMessage::new().decode_to_u8());
    let actions = machine.drain_one_event(1003);
    assert_eq!(*machine.get_state(), State::Established);
    assert_eq!(actions, vec![Action::LoadKernelRoutes]);
    assert_eq!(machine.session_attribute.hold_timer, 1003);
    assert_eq!(machine.event_queue.len(), 0);
}

#[test]
fn cold_start_sends_one_open_and_one_keepalive() {
    let (machine, actions) = fsm_established(Mode::Passive);
    assert_eq!(*machine.get_state(), State::Established);
    let open = BgpOpenMessage::new(AutonomousSystemNumber::new(65001), Ipv4Addr::new(10, 0, 0, 1));
    assert_eq!(
        actions,
        vec![
            Action::Accept,
            Action::Send(open.decode()),
            Action::Send(BgpKeepaliveMessage::new().decode_to_u8()),
            Action::LoadKernelRoutes,
        ]
    );
}

#[test]
fn packet_handler_raises_the_event_of_each_kind() {
    let mut events = EventQueue::new();
    let mut packets = PacketQueue::new();
    bgp_packet_handler(&fsm_peer_open_bytes(), &mut events, &mut packets);
    bgp_packet_handler(&BgpKeepaliveMessage::new().decode_to_u8(), &mut events, &mut packets);
    bgp_packet_handler(&fsm_scenario_update().decode(), &mut events, &mut packets);
    bgp_packet_handler(
        &BgpNotificationMessage::new(BgpErrorCode::Cease).decode(),
        &mut events,
        &mut packets,
    );
    bgp_packet_handler(
        &BgpNotificationMessage { error_code: 2, error_subcode: 1, data: vec![] }.decode(),
        &mut events,
        &mut packets,
    );
    assert_eq!(
        fsm_drain(&mut events),
        vec![
            Event::BgpOpen(fsm_peer_open()),
            Event::KeepAliveMsg,
            Event::UpdateMsg,
            Event::NotifMsg,
            Event::NotifMsgVerErr,
        ]
    );
    assert_eq!(packets.pop(), Some(BgpMessage::Update(fsm_scenario_update())));
    assert_eq!(packets.pop(), None);
}

#[test]
fn packet_handler_raises_error_events() {
    let mut events = EventQueue::new();
    let mut packets = PacketQueue::new();
    let mut bad_type = fsm_peer_open_bytes();
    bad_type[18] = 7;
    bgp_packet_handler(&bad_type, &mut events, &mut packets);
    let mut bad_version = fsm_peer_open_bytes();
    bad_version[19] = 3;
    bgp_packet_handler(&bad_version, &mut events, &mut packets);
    let mut with_parameters = fsm_peer_open_bytes();
    with_parameters[28] = 4;
    bgp_packet_handler(&with_parameters, &mut events, &mut packets);
    let mut bad_update = fsm_scenario_update().decode();
    bad_update[25] = 9;
    bgp_packet_handler(&bad_update, &mut events, &mut packets);
    bgp_packet_handler(&vec![1, 2, 3], &mut events, &mut packets);
    assert_eq!(
        fsm_drain(&mut events),
        vec![
            Event::BgpHeaderErr(BgpError::BadMessageType),
            Event::BgpOpenMsgErr(BgpError::UnsupportedVersion),
            Event::BgpOpenMsgErr(BgpError::UnsupportedOptionalParameter),
            Event::UpdateMsgErr(BgpError::AttributeLengthError),
            Event::BgpHeaderErr(BgpError::BadMessageLength),
        ]
    );
    assert_eq!(packets.len(), 0);
}

#[test]
fn update_pipeline_scenario() {
    let (mut machine, _) = fsm_established(Mode::Active);
    machine.receive(&fsm_scenario_update().decode());
    assert_eq!(machine.packet_queue.len(), 1);

    assert_eq!(machine.drain_one_event(1010), vec![]);
    assert_eq!(machine.packet_queue.len(), 0);
    assert_eq!(machine.adj_rib_in.0.len(), 1);
    assert_eq!(machine.adj_rib_in.0[0].nexthop, Ipv4Addr::new(10, 0, 0, 2));
    assert_eq!(
        machine.adj_rib_in.0[0].destination_address,
        IpPrefix::new(Ipv4Addr::new(10, 1, 0, 0), 16)
    );

    assert_eq!(machine.drain_one_event(1011), vec![Action::InstallRoutes]);
    assert_eq!(machine.loc_rib.0.len(), 1);
    assert_eq!(
        machine.next_route_to_install(),
        Some((
            0,
            KernelRouteRequest {
                protocol: 3,
                destination: IpPrefix::new(Ipv4Addr::new(10, 1, 0, 0), 16),
                gateway: Ipv4Addr::new(10, 0, 0, 2),
            }
        ))
    );
    machine.route_installed(0);
    assert_eq!(machine.loc_rib.0[0].update_status, UpdateStatus::Updated);
    assert_eq!(machine.next_route_to_install(), None);

    assert_eq!(machine.drain_one_event(1012), vec![]);
    assert_eq!(machine.adj_rib_out.0.len(), 1);
    assert_eq!(machine.adj_rib_out.0[0].nexthop, Ipv4Addr::new(10, 0, 0, 2));
    assert_eq!(
        machine.adj_rib_out.0[0].destination_address,
        IpPrefix::new(Ipv4Addr::new(10, 1, 0, 0), 16)
    );

    let actions = machine.drain_one_event(1013);
    let expected = BgpUpdateMessage {
        withdrawn_routes: vec![],
        path_attributes: vec![
            PathAttribute::Origin(Origin::Igp),
            PathAttribute::AsPath(AsPath::AsSequence(vec![65001])),
            PathAttribute::NextHop(Ipv4Addr::new(10, 0, 0, 1)),
        ],
        network_layer_reachability_information: vec![IpPrefix::new(
            Ipv4Addr::new(10, 1, 0, 0),
            16,
        )],
    };
    assert_eq!(actions, vec![Action::Send(expected.decode())]);
    assert_eq!(machine.event_queue.len(), 0);
    assert_eq!(*machine.get_state(), State::Established);
}

#[test]
fn duplicate_update_keeps_one_route() {
    let (mut machine, _) = fsm_established(Mode::Active);
    machine.receive(&fsm_scenario_update().decode());
    machine.receive(&fsm_scenario_update().decode());
    let mut sent: usize = 0;
    for tick in 0..20u64 {
        for action in machine.drain_one_event(1010 + tick) {
            if let Action::Send(_) = action {
                sent += 1;
            }
        }
    }
    assert_eq!(machine.adj_rib_in.0.len(), 1);
    assert_eq!(machine.loc_rib.0.len(), 1);
    assert_eq!(machine.adj_rib_out.0.len(), 1);
    assert_eq!(sent, 1);
    assert_eq!(machine.event_queue.len(), 0);
    assert!(machine.loc_rib.0.iter().all(|e| e.status == RoutingInformationStatus::UnChanged));
}

#[test]
fn kernel_routes_fill_loc_rib() {
    let (mut machine, _) = fsm_established(Mode::Active);
    let routes = vec![
        KernelRoute {
            destination: Some(IpPrefix::new(Ipv4Addr::new(10, 100, 1, 0), 24)),
            gateway: Some(Ipv4Addr::new(10, 0, 0, 254)),
        },
        KernelRoute {
            destination: Some(IpPrefix::new(Ipv4Addr::new(192, 168, 0, 0), 16)),
            gateway: None,
        },
        KernelRoute { destination: None, gateway: None },
        KernelRoute {
            destination: Some(IpPrefix::new(Ipv4Addr::new(10, 100, 2, 0), 24)),
            gateway: None,
        },
    ];
    machine.kernel_routes_loaded(&routes);
    assert_eq!(machine.loc_rib.0.len(), 2);
    assert_eq!(machine.loc_rib.0[0].nexthop, Ipv4Addr::new(10, 0, 0, 254));
    assert_eq!(machine.loc_rib.0[1].nexthop, Ipv4Addr::new(0, 0, 0, 0));
    assert_eq!(machine.loc_rib.0[1].path_attributes, vec![]);
    assert_eq!(machine.event_queue.pop(), Some(Event::LocRibChanged));
    assert_eq!(machine.handle_event(&Event::LocRibChanged, 1020), vec![]);
    assert_eq!(machine.adj_rib_out.0.len(), 2);
    assert_eq!(machine.event_queue.pop(), Some(Event::AdjRibOutChanged));
    let actions = machine.handle_event(&Event::AdjRibOutChanged, 1021);
    assert_eq!(actions.len(), 1);
    let bytes = match &actions[0] {
        Action::Send(bytes) => bytes.clone(),
        other => panic!("unexpected action {:?}", other),
    };
    let update = BgpUpdateMessage::encode(&bytes).unwrap();
    assert_eq!(
        update.network_layer_reachability_information,
        vec![
            IpPrefix::new(Ipv4Addr::new(10, 100, 1, 0), 24),
            IpPrefix::new(Ipv4Addr::new(10, 100, 2, 0), 24),
        ]
    );
}

#[test]
fn kernel_routes_are_not_taken_outside_established() {
    let mut machine = fsm::new(fsm_config(Mode::Active), 0);
    machine.kernel_routes_loaded(&vec![KernelRoute {
        destination: Some(IpPrefix::new(Ipv4Addr::new(10, 100, 1, 0), 24)),
        gateway: None,
    }]);
    assert_eq!(machine.loc_rib.0.len(), 0);
    assert_eq!(machine.event_queue.len(), 0);
}

#[test]
fn manual_stop_in_any_state() {
    let (mut machine, _) = fsm_established(Mode::Active);
    machine.receive(&fsm_scenario_update().decode());
    let _ = machine.drain_one_event(1010);
    machine.receive(&vec![0xFF; 5]);
    machine.session_attribute.connect_retry_counter = 4;
    let actions = machine.handle_event(&Event::ManualStop, 1011);
    assert_eq!(
        actions,
        vec![
            Action::Send(BgpNotificationMessage::new(BgpErrorCode::Cease).decode()),
            Action::CloseConnection,
        ]
    );
    assert_eq!(*machine.get_state(), State::Idle);
    assert_eq!(machine.session_attribute.connect_retry_counter, 0);
    assert_eq!(machine.session_attribute.connect_retry_time, 0);
    assert_eq!(machine.session_attribute.hold_time, 0);
    assert_eq!(machine.session_attribute.keepalive_time, 0);
    assert_eq!(machine.event_queue.len(), 0);
    assert_eq!(machine.packet_queue.len(), 0);
    assert_eq!(machine.data_buffer.buf.len(), 0);
    assert_eq!(machine.adj_rib_in.0.len(), 0);
    assert_eq!(machine.loc_rib.0.len(), 0);
    assert_eq!(machine.adj_rib_out.0.len(), 0);

    let mut idle = fsm::new(fsm_config(Mode::Active), 0);
    let actions = idle.handle_event(&Event::ManualStop, 1);
    assert_eq!(actions.len(), 2);
    assert_eq!(*idle.get_state(), State::Idle);
}

#[test]
fn message_error_fails_the_session() {
    let (mut machine, _) = fsm_established(Mode::Active);
    let mut bad = fsm_scenario_update().decode();
    bad[18] = 9;
    machine.receive(&bad);
    let actions = machine.drain_one_event(1010);
    assert_eq!(
        actions,
        vec![
            Action::Send(
                BgpNotificationMessage { error_code: 1, error_subcode: 3, data: vec![] }.decode()
            ),
            Action::CloseConnection,
            Action::Backoff,
        ]
    );
    assert_eq!(*machine.get_state(), State::Idle);
    assert_eq!(machine.session_attribute.connect_retry_counter, 1);
    assert_eq!(machine.event_queue.pop(), Some(Event::ManualStart));
    assert_eq!(machine.event_queue.pop(), None);

    let mut early = fsm::new(fsm_config(Mode::Active), 0);
    let actions = early.handle_event(&Event::UpdateMsgErr(BgpError::InvalidNextHopAttribute), 1);
    assert_eq!(
        actions[0],
        Action::Send(
            BgpNotificationMessage { error_code: 3, error_subcode: 8, data: vec![] }.decode()
        )
    );
    assert_eq!(early.session_attribute.connect_retry_counter, 1);
}

#[test]
fn hold_timer_expiry_fails_the_session() {
    for target in [State::OpenSent, State::OpenConfirm, State::Established] {
        let mut machine = fsm::new(fsm_config(Mode::Active), 0);
        let _ = machine.handle_event(&Event::ManualStart, 0);
        let _ = machine.handle_event(&Event::TcpCrAcked, 0);
        if target != State::OpenSent {
            let _ = machine.handle_event(&Event::BgpOpen(fsm_peer_open()), 0);
        }
        if target == State::Established {
            let _ = machine.handle_event(&Event::KeepAliveMsg, 0);
        }
        assert_eq!(*machine.get_state(), target);
        let actions = machine.handle_event(&Event::HoldTimerExpires, 500);
        assert_eq!(
            actions,
            vec![
                Action::Send(BgpNotificationMessage::new(BgpErrorCode::HoldTimerExpired).decode()),
                Action::CloseConnection,
                Action::Backoff,
            ]
        );
        assert_eq!(*machine.get_state(), State::Idle);
        assert_eq!(machine.session_attribute.connect_retry_counter, 1);
    }
}

#[test]
fn unexpected_events_in_established() {
    for event in [Event::BgpOpen(fsm_peer_open()), Event::ConnectRetryTimerExpires] {
        let (mut machine, _) = fsm_established(Mode::Active);
        let actions = machine.handle_event(&event, 2000);
        assert_eq!(
            actions,
            vec![
                Action::Send(
                    BgpNotificationMessage::new(BgpErrorCode::FiniteStateMachineError).decode()
                ),
                Action::CloseConnection,
                Action::Backoff,
            ]
        );
        assert_eq!(*machine.get_state(), State::Idle);
        assert_eq!(machine.event_queue.pop(), Some(Event::ManualStart));
    }
    for event in [Event::NotifMsg, Event::NotifMsgVerErr, Event::TcpConnectionFails] {
        let (mut machine, _) = fsm_established(Mode::Active);
        let actions = machine.handle_event(&event, 2000);
        assert_eq!(actions, vec![Action::CloseConnection, Action::Backoff]);
        assert_eq!(*machine.get_state(), State::Idle);
        assert_eq!(machine.session_attribute.connect_retry_counter, 1);
    }
    for event in [Event::ManualStart, Event::TcpCrAcked, Event::TcpConnectionConfirmed] {
        let (mut machine, _) = fsm_established(Mode::Active);
        assert_eq!(machine.handle_event(&event, 2000), vec![]);
        assert_eq!(*machine.get_state(), State::Established);
    }
}

#[test]
fn hold_time_is_the_smaller_of_90_and_the_offer() {
    assert_eq!(negotiate_hold_time(240), 90);
    assert_eq!(negotiate_hold_time(90), 90);
    assert_eq!(negotiate_hold_time(89), 89);
    assert_eq!(negotiate_hold_time(3), 3);
    assert_eq!(negotiate_hold_time(0), 0);
    for (offer, hold, keepalive) in [(240u16, 90u64, 30u64), (30, 30, 10), (10, 10, 3), (0, 0, 0)] {
        let mut machine = fsm::new(fsm_config(Mode::Active), 0);
        let _ = machine.handle_event(&Event::ManualStart, 1);
        let _ = machine.handle_event(&Event::TcpConnectionConfirmed, 2);
        let mut open = fsm_peer_open();
        open.hold_time = HoldTime(offer);
        machine.receive(&open.decode());
        let actions = machine.drain_one_event(3);
        assert_eq!(actions, vec![Action::Send(BgpKeepaliveMessage::new().decode_to_u8())]);
        assert_eq!(*machine.get_state(), State::OpenConfirm);
        assert_eq!(machine.session_attribute.hold_time, hold);
        assert_eq!(machine.session_attribute.keepalive_time, keepalive);
        assert_eq!(machine.session_attribute.hold_timer, 3);
        assert_eq!(machine.session_attribute.keepalive_timer, 3);
        machine.check_timers(1_000_000);
        if offer == 0 {
            assert_eq!(machine.event_queue.len(), 0);
        } else {
            assert_eq!(machine.event_queue.len(), 2);
        }
    }
}

#[test]
fn connection_failure_in_connect_retries() {
    let mut machine = fsm::new(fsm_config(Mode::Active), 0);
    let _ = machine.handle_event(&Event::ManualStart, 1);
    let actions = machine.handle_event(&Event::TcpConnectionFails, 2);
    assert_eq!(actions, vec![Action::Backoff]);
    assert_eq!(*machine.get_state(), State::Idle);
    assert_eq!(machine.event_queue.pop(), Some(Event::ManualStart));
    assert_eq!(machine.session_attribute.connect_retry_counter, 0);
}

#[test]
fn keepalive_restarts_the_hold_timer() {
    let (mut machine, _) = fsm_established(Mode::Active);
    assert_eq!(machine.handle_event(&Event::KeepAliveMsg, 1050), vec![]);
    assert_eq!(machine.session_attribute.hold_timer, 1050);
    assert_eq!(*machine.get_state(), State::Established);
    let actions = machine.handle_event(&Event::KeepaliveTimerExpires, 1060);
    assert_eq!(actions, vec![Action::Send(BgpKeepaliveMessage::new().decode_to_u8())]);
    assert_eq!(machine.session_attribute.keepalive_timer, 1060);
}

#[test]
fn events_without_use_change_nothing() {
    let mut machine = fsm::new(fsm_config(Mode::Active), 0);
    for event in [
        Event::KeepAliveMsg,
        Event::BgpOpen(fsm_peer_open()),
        Event::HoldTimerExpires,
        Event::TcpConnectionConfirmed,
        Event::AdjRibInChanged,
        Event::NotifMsg,
    ] {
        assert_eq!(machine.handle_event(&event, 9), vec![]);
        assert_eq!(machine.session_attribute, SessionAttribute::new(0));
    }
    machine.session_attribute.state = State::Active;
    assert_eq!(machine.handle_event(&Event::ManualStart, 9), vec![]);
    assert_eq!(*machine.get_state(), State::Active);

    let mut idle = fsm::new(fsm_config(Mode::Active), 0);
    idle.check_timers(29);
    assert_eq!(idle.event_queue.len(), 0);
    idle.check_timers(200);
    assert_eq!(
        fsm_drain(&mut idle.event_queue),
        vec![
            Event::ConnectRetryTimerExpires,
            Event::HoldTimerExpires,
            Event::KeepaliveTimerExpires,
        ]
    );
    assert_eq!(idle.drain_one_event(201), vec![]);
    assert_eq!(*idle.get_state(), State::Idle);
}

#[test]
fn update_message_outside_established_is_dropped() {
    let mut machine = fsm::new(fsm_config(Mode::Active), 0);
    machine.receive(&fsm_scenario_update().decode());
    assert_eq!(machine.packet_queue.len(), 1);
    assert_eq!(machine.drain_one_event(1), vec![]);
    assert_eq!(machine.packet_queue.len(), 0);
    assert_eq!(machine.adj_rib_in.0.len(), 0);
    assert_eq!(*machine.get_state(), State::Idle);
}

#[test]
fn timers_raise_their_events() {
    let (mut machine, _) = fsm_established(Mode::Active);
    machine.check_timers(1002 + 29);
    assert_eq!(machine.event_queue.len(), 0);
    machine.check_timers(1002 + 30);
    assert_eq!(machine.event_queue.pop(), Some(Event::KeepaliveTimerExpires));
    assert_eq!(machine.session_attribute.keepalive_timer, 1032);
    machine.check_timers(1003 + 90);
    assert_eq!(machine.event_queue.pop(), Some(Event::HoldTimerExpires));
    assert_eq!(machine.event_queue.pop(), Some(Event::KeepaliveTimerExpires));
    assert_eq!(machine.event_queue.pop(), None);
    assert_eq!(machine.session_attribute.hold_time, 0);
    machine.check_timers(5000);
    assert_eq!(machine.event_queue.pop(), Some(Event::KeepaliveTimerExpires));
    assert_eq!(machine.event_queue.pop(), None);

    let mut connecting = fsm::new(fsm_config(Mode::Active), 0);
    let _ = connecting.handle_event(&Event::ManualStart, 10);
    assert_eq!(connecting.session_attribute.hold_time, 0);
    assert_eq!(connecting.session_attribute.keepalive_time, 0);
    connecting.check_timers(129);
    assert_eq!(fsm_drain(&mut connecting.event_queue), vec![]);
    connecting.check_timers(130);
    assert_eq!(
        fsm_drain(&mut connecting.event_queue),
        vec![Event::ConnectRetryTimerExpires]
    );
    assert_eq!(connecting.session_attribute.connect_retry_time, 0);
}

#[test]
fn received_bytes_are_framed_across_deliveries() {
    let mut machine = fsm::new(fsm_config(Mode::Active), 0);
    let open = fsm_peer_open_bytes();
    machine.receive(&open[..7].to_vec());
    assert_eq!(machine.event_queue.len(), 0);
    let mut rest = open[7..].to_vec();
    rest.extend(BgpKeepaliveMessage::new().decode_to_u8());
    machine.receive(&rest);
    assert_eq!(machine.event_queue.len(), 1);
    assert_eq!(machine.data_buffer.buf.len(), 19);
    machine.receive(&vec![]);
    assert_eq!(
        fsm_drain(&mut machine.event_queue),
        vec![Event::BgpOpen(fsm_peer_open()), Event::KeepAliveMsg]
    );
    assert_eq!(machine.data_buffer.buf.len(), 0);
    let mut broken = BgpKeepaliveMessage::new().decode_to_u8();
    broken[17] = 3;
    machine.receive(&broken);
    assert_eq!(
        fsm_drain(&mut machine.event_queue),
        vec![Event::BgpHeaderErr(BgpError::BadMessageLength)]
    );
    assert_eq!(machine.data_buffer.buf.len(), 0);
}

#[test]
fn supervisor_keeps_one_session_per_peer() {
    let mut peers = BgpPeers::new(vec![fsm_config(Mode::Active), fsm_config(Mode::Passive)], 5);
    assert_eq!(peers.peers.len(), 2);
    assert_eq!(peers.loc_rib.0.len(), 0);
    assert_eq!(peers.drain_one_event(0, 6), vec![]);
    peers.start_all();
    assert_eq!(peers.drain_one_event(1, 6), vec![Action::Accept]);
    assert_eq!(*peers.peers[1].get_state(), State::Connect);
    assert_eq!(*peers.peers[0].get_state(), State::Idle);
    assert_eq!(peers.drain_one_event(0, 7), vec![Action::Connect(Ipv4Addr::new(10, 0, 0, 2))]);
    peers.deliver(0, &fsm_peer_open_bytes());
    assert_eq!(peers.peers[0].event_queue.len(), 1);
    assert_eq!(peers.peers[1].event_queue.len(), 0);
    assert_eq!(peers.drain_one_event(0, 8), vec![]);
    assert_eq!(*peers.peers[0].get_state(), State::Connect);
}
