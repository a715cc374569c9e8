//! The per-peer session state machine: its states, events and timers, the
//! queues that feed it, and the step that takes a state and an event to the
//! next state and the actions to perform.
//!
//! The machine performs no input or output. What a step asks of the outside
//! (a connection, bytes to send, routes of the host) it returns as actions;
//! what the outside has to report comes back as events and as calls of the
//! methods that take the result.

use crate::bgp::{
    keepalive_wire, BGPVersion, BgpKeepaliveMessage, BgpNotificationMessage, BgpOpenMessage,
    HoldTime, NotificationModel,
};
use crate::error::{BgpError, BgpErrorCode};
use crate::message::{
    bgp_packet_handler, event_of, framed, message_from_wire, message_models, packets_after,
    BgpMessage, MessageModel, PacketQueue, ReceiveBuffer,
};
use crate::path_attribute::{models, PathAttribute, PathAttributeModel};
use crate::rib::{
    awaits_install, has_new, inserted_all, install_request, installed, kernel_entries,
    learned_entries, propagated, unique, AdjRibIn, AdjRibOut, EntryModel, KernelRouteRequest,
    LocRib, Rib,
};
use crate::routing::{lookup_network_route, route_within, Ipv4Addr, KernelRoute};
use crate::update::{advertisement, BgpUpdateMessage};
use crate::{Config, Mode};
use vstd::prelude::*;

verus! {

/// The seconds that the connect-retry timer runs.
pub const CONNECT_RETRY_TIME: u64 = 120;

/// The hold time, in seconds, while this speaker waits for the peer's OPEN.
pub const LARGE_HOLD_TIME: u64 = 240;

/// The hold time, in seconds, of a session once the peer's OPEN has come.
pub const SESSION_HOLD_TIME: u64 = 90;

/// The TCP port of the protocol.
pub const BGP_PORT: u16 = 179;

/// The states of a session.
#[derive(Clone, Copy, Debug, PartialEq, Eq, Structural)]
pub enum State {
    Idle,
    Connect,
    /// Kept for completeness; no step enters it.
    Active,
    OpenConfirm,
    OpenSent,
    Established,
}

/// The events that drive a session. An event that reports a message in
/// error carries the error, from which the NOTIFICATION is derived.
#[derive(Clone, Copy, Debug, PartialEq, Eq, Structural)]
pub enum Event {
    ManualStart,
    ManualStop,
    ConnectRetryTimerExpires,
    HoldTimerExpires,
    KeepaliveTimerExpires,
    TcpCrAcked,
    TcpConnectionConfirmed,
    TcpConnectionFails,
    /// The peer's OPEN has come; the event carries it.
    BgpOpen(BgpOpenMessage),
    BgpHeaderErr(BgpError),
    BgpOpenMsgErr(BgpError),
    NotifMsgVerErr,
    NotifMsg,
    KeepAliveMsg,
    UpdateMsg,
    UpdateMsgErr(BgpError),
    AdjRibInChanged,
    LocRibChanged,
    AdjRibOutChanged,
}

/// A first-in first-out queue.
pub struct Queue<T> {
    data: Vec<T>,
}

impl<T> View for Queue<T> {
    type V = Seq<T>;

    /// The items of the queue, the oldest first.
    closed spec fn view(&self) -> Seq<T> {
        self.data@
    }
}

impl<T> Queue<T> {
    /// An empty queue.
    pub fn new() -> (queue: Self)
        ensures
            queue@ == Seq::<T>::empty(),
    {
        Self { data: Vec::new() }
    }

    /// Puts `d` at the end of the queue.
    pub fn push(&mut self, d: T)
        ensures
            final(self)@ == old(self)@.push(d),
    {
        self.data.push(d);
    }

    /// Takes the oldest item from the queue; `None` where the queue is empty.
    pub fn pop(&mut self) -> (item: Option<T>)
        ensures
            old(self)@.len() == 0 ==> item is None && final(self)@ == old(self)@,
            old(self)@.len() > 0 ==> item == Some(old(self)@[0]) && final(self)@ == old(
                self,
            )@.drop_first(),
    {
        if self.data.len() == 0 {
            None
        } else {
            let item = self.data.remove(0);
            assert(self.data@ =~= old(self).data@.drop_first());
            Some(item)
        }
    }

    /// The number of items in the queue.
    pub fn len(&self) -> (n: usize)
        ensures
            n == self@.len(),
    {
        self.data.len()
    }

    /// Takes every item from the queue.
    pub fn clear(&mut self)
        ensures
            final(self)@ == Seq::<T>::empty(),
    {
        self.data.clear();
    }
}

pub type EventQueue = Queue<Event>;

/// Whether a timer that was started at `started_at` to run `duration`
/// seconds has run out at `now`. A duration of 0 means that the timer does
/// not run.
pub open spec fn timer_expired(started_at: u64, duration: u64, now: u64) -> bool {
    duration > 0 && now >= started_at && now - started_at >= duration
}

/// The state of a session and its three timers. Times are in seconds; each
/// timer is the time at which it was started and the seconds that it runs,
/// and a timer of 0 seconds does not run.
#[derive(Clone, Copy, Debug, PartialEq, Eq, Structural)]
pub struct SessionAttribute {
    pub state: State,
    pub connect_retry_counter: usize,
    pub connect_retry_timer: u64,
    pub connect_retry_time: u64,
    pub hold_timer: u64,
    pub hold_time: u64,
    pub keepalive_timer: u64,
    pub keepalive_time: u64,
}

impl SessionAttribute {
    /// The attributes of a session that is created at `now`.
    pub open spec fn created(now: u64) -> SessionAttribute {
        SessionAttribute {
            state: State::Idle,
            connect_retry_counter: 0,
            connect_retry_timer: now,
            connect_retry_time: 120,
            hold_timer: now,
            hold_time: 90,
            keepalive_timer: now,
            keepalive_time: 30,
        }
    }

    /// The attributes with every timer stopped.
    pub open spec fn stopped(self) -> SessionAttribute {
        SessionAttribute { connect_retry_time: 0, hold_time: 0, keepalive_time: 0, ..self }
    }

    /// The counter one higher; it stays where it cannot grow.
    pub open spec fn counted(self) -> SessionAttribute {
        SessionAttribute {
            connect_retry_counter: if self.connect_retry_counter < usize::MAX {
                (self.connect_retry_counter + 1) as usize
            } else {
                self.connect_retry_counter
            },
            ..self
        }
    }

    /// The attributes with the hold timer started at `now` for `hold_time`
    /// seconds and the keepalive timer for a third of that. A hold time of 0
    /// leaves both timers off.
    pub open spec fn holding(self, hold_time: u64, now: u64) -> SessionAttribute {
        SessionAttribute {
            hold_timer: now,
            hold_time,
            keepalive_timer: now,
            keepalive_time: hold_time / 3,
            ..self
        }
    }

    /// The attributes of a session that is created at `now`: idle, no
    /// retries counted, a connect-retry time of 120 seconds, a hold time of
    /// 90 and a keepalive time of 30.
    pub fn new(now: u64) -> (attribute: Self)
        ensures
            attribute == Self::created(now),
    {
        SessionAttribute {
            state: State::Idle,
            connect_retry_counter: 0,
            connect_retry_timer: now,
            connect_retry_time: CONNECT_RETRY_TIME,
            hold_timer: now,
            hold_time: SESSION_HOLD_TIME,
            keepalive_timer: now,
            keepalive_time: SESSION_HOLD_TIME / 3,
        }
    }

    /// The state of the session.
    pub fn get_state(&self) -> (state: &State)
        ensures
            *state == self.state,
    {
        &self.state
    }
}

/// What a step asks of the outside.
#[derive(Debug, PartialEq, Eq)]
pub enum Action {
    /// Open a TCP connection to this address, port 179, and report
    /// `TcpConnectionConfirmed` or `TcpConnectionFails`.
    Connect(Ipv4Addr),
    /// Accept one TCP connection from the peer and report it in the same way.
    Accept,
    /// Write these bytes to the connection.
    Send(Vec<u8>),
    /// Close the connection.
    CloseConnection,
    /// Wait a moment before the next step.
    Backoff,
    /// Read the IPv4 routes of the host and hand them to
    /// `kernel_routes_loaded`.
    LoadKernelRoutes,
    /// Put the routes of Loc-RIB that await it into the host's table: see
    /// `next_route_to_install` and `route_installed`.
    InstallRoutes,
}

/// What an action holds.
pub enum ActionModel {
    Connect(Ipv4Addr),
    Accept,
    Send(Seq<u8>),
    CloseConnection,
    Backoff,
    LoadKernelRoutes,
    InstallRoutes,
}

impl View for Action {
    type V = ActionModel;

    open spec fn view(&self) -> ActionModel {
        match self {
            Action::Connect(address) => ActionModel::Connect(*address),
            Action::Accept => ActionModel::Accept,
            Action::Send(bytes) => ActionModel::Send(bytes@),
            Action::CloseConnection => ActionModel::CloseConnection,
            Action::Backoff => ActionModel::Backoff,
            Action::LoadKernelRoutes => ActionModel::LoadKernelRoutes,
            Action::InstallRoutes => ActionModel::InstallRoutes,
        }
    }
}

/// What a list of actions holds.
pub open spec fn action_models(actions: Seq<Action>) -> Seq<ActionModel> {
    Seq::new(actions.len(), |i: int| actions[i]@)
}

/// The session of one peer: its configuration, its state and timers, the
/// bytes and messages that have come, the events that wait, and the three
/// routing information bases.
#[allow(non_camel_case_types)]
pub struct fsm {
    pub config: Config,
    pub session_attribute: SessionAttribute,
    pub data_buffer: ReceiveBuffer,
    pub event_queue: EventQueue,
    pub packet_queue: PacketQueue,
    pub loc_rib: LocRib,
    pub adj_rib_out: AdjRibOut,
    pub adj_rib_in: AdjRibIn,
}

/// What a session holds.
#[verifier::ext_equal]
pub struct FsmModel {
    pub config: Config,
    pub session_attribute: SessionAttribute,
    pub data_buffer: Seq<u8>,
    pub event_queue: Seq<Event>,
    pub packet_queue: Seq<MessageModel>,
    pub loc_rib: Seq<EntryModel>,
    pub adj_rib_out: Seq<EntryModel>,
    pub adj_rib_in: Seq<EntryModel>,
}

impl View for fsm {
    type V = FsmModel;

    open spec fn view(&self) -> FsmModel {
        FsmModel {
            config: self.config,
            session_attribute: self.session_attribute,
            data_buffer: self.data_buffer@,
            event_queue: self.event_queue@,
            packet_queue: message_models(self.packet_queue@),
            loc_rib: self.loc_rib@,
            adj_rib_out: self.adj_rib_out@,
            adj_rib_in: self.adj_rib_in@,
        }
    }
}

/// The bytes of the NOTIFICATION without data that reports `code`.
pub open spec fn notification_bytes(code: BgpErrorCode) -> Seq<u8> {
    NotificationModel::of(code).wire()
}

/// The bytes of the OPEN that a speaker with this configuration sends.
pub open spec fn open_bytes(config: Config) -> Seq<u8> {
    (BgpOpenMessage {
        version: BGPVersion::V4,
        my_autonomous_system: config.as_number,
        hold_time: HoldTime(240),
        bgp_identifier: config.my_ip_addr,
    }).wire()
}

impl FsmModel {
    /// A session that is created at `now`: idle, with nothing received,
    /// nothing waiting and no routes.
    pub open spec fn created(config: Config, now: u64) -> FsmModel {
        FsmModel {
            config,
            session_attribute: SessionAttribute::created(now),
            data_buffer: Seq::empty(),
            event_queue: Seq::empty(),
            packet_queue: Seq::empty(),
            loc_rib: Seq::empty(),
            adj_rib_out: Seq::empty(),
            adj_rib_in: Seq::empty(),
        }
    }

    /// No base holds a route twice.
    pub open spec fn wf(self) -> bool {
        unique(self.loc_rib) && unique(self.adj_rib_out) && unique(self.adj_rib_in)
    }

    /// The session with its attributes replaced.
    pub open spec fn with_session(self, session_attribute: SessionAttribute) -> FsmModel {
        FsmModel { session_attribute, ..self }
    }

    /// The session with `event` at the end of its event queue.
    pub open spec fn queued(self, event: Event) -> FsmModel {
        FsmModel { event_queue: self.event_queue.push(event), ..self }
    }

    /// The session with `event` at the end of its event queue where
    /// `wanted` holds, unchanged where it does not.
    pub open spec fn queued_if(self, wanted: bool, event: Event) -> FsmModel {
        if wanted {
            self.queued(event)
        } else {
            self
        }
    }

    /// The session without the oldest of the messages that wait.
    pub open spec fn without_packet(self) -> FsmModel {
        if self.packet_queue.len() > 0 {
            FsmModel { packet_queue: self.packet_queue.drop_first(), ..self }
        } else {
            self
        }
    }

    /// The session after all that it held for the connection is let go:
    /// received bytes, waiting messages and events, and the routes of all
    /// three bases.
    pub open spec fn released(self) -> FsmModel {
        FsmModel {
            config: self.config,
            session_attribute: self.session_attribute,
            data_buffer: Seq::empty(),
            event_queue: Seq::empty(),
            packet_queue: Seq::empty(),
            loc_rib: Seq::empty(),
            adj_rib_out: Seq::empty(),
            adj_rib_in: Seq::empty(),
        }
    }

    /// A stop by the operator: a NOTIFICATION of Cease is sent and the
    /// connection closed; the session lets go of what it held, stops its
    /// timers, sets the retry counter to 0 and is idle.
    pub open spec fn stop(self) -> (FsmModel, Seq<ActionModel>) {
        (
            self.released().with_session(
                SessionAttribute {
                    state: State::Idle,
                    connect_retry_counter: 0,
                    ..self.session_attribute.stopped()
                },
            ),
            seq![
                ActionModel::Send(notification_bytes(BgpErrorCode::Cease)),
                ActionModel::CloseConnection,
            ],
        )
    }

    /// The session after its connection is given up: it lets go of what it
    /// held, stops its timers, counts one more retry, is idle, and has a
    /// `ManualStart` waiting so that it starts again.
    pub open spec fn restarted(self) -> FsmModel {
        self.released().with_session(
            SessionAttribute { state: State::Idle, ..self.session_attribute.stopped().counted() },
        ).queued(Event::ManualStart)
    }

    /// A failure of the session that is reported to the peer: the
    /// NOTIFICATION of `code` is sent, the connection closed, and the session
    /// starts again after a pause.
    pub open spec fn fail(self, code: BgpErrorCode) -> (FsmModel, Seq<ActionModel>) {
        (
            self.restarted(),
            seq![
                ActionModel::Send(notification_bytes(code)),
                ActionModel::CloseConnection,
                ActionModel::Backoff,
            ],
        )
    }

    /// The loss of the connection, or its end by the peer: the connection is
    /// closed and the session starts again after a pause.
    pub open spec fn abandon(self) -> (FsmModel, Seq<ActionModel>) {
        (self.restarted(), seq![ActionModel::CloseConnection, ActionModel::Backoff])
    }

    /// An event that the state has no use for: nothing changes, but for an
    /// `UpdateMsg`, whose message is taken from those that wait.
    pub open spec fn ignore(self, event: Event) -> (FsmModel, Seq<ActionModel>) {
        if event == Event::UpdateMsg {
            (self.without_packet(), Seq::empty())
        } else {
            (self, Seq::empty())
        }
    }

    /// The step of an idle session. `ManualStart` sets the retry counter to
    /// 0, starts the connect-retry timer with 120 seconds and leaves the
    /// other two timers off, drops received bytes, asks for a connection
    /// (outbound in active mode, inbound in passive mode) and leads to
    /// `Connect`.
    pub open spec fn step_idle(self, event: Event, now: u64) -> (FsmModel, Seq<ActionModel>) {
        match event {
            Event::ManualStart => (
                FsmModel {
                    session_attribute: SessionAttribute {
                        state: State::Connect,
                        connect_retry_counter: 0,
                        connect_retry_timer: now,
                        connect_retry_time: 120,
                        ..self.session_attribute.stopped()
                    },
                    data_buffer: Seq::empty(),
                    ..self
                },
                seq![
                    match self.config.mode {
                        Mode::Active => ActionModel::Connect(self.config.remote_ip_addr),
                        Mode::Passive => ActionModel::Accept,
                    },
                ],
            ),
            _ => self.ignore(event),
        }
    }

    /// The step of a session in `Connect`. A connection that stands stops
    /// the connect-retry timer, sends the OPEN, starts the hold timer with
    /// 240 seconds and leads to `OpenSent`. A connection that failed leads
    /// back to `Idle` after a pause, with a `ManualStart` waiting.
    pub open spec fn step_connect(self, event: Event, now: u64) -> (FsmModel, Seq<ActionModel>) {
        match event {
            Event::TcpCrAcked | Event::TcpConnectionConfirmed => (
                self.with_session(
                    SessionAttribute {
                        state: State::OpenSent,
                        connect_retry_time: 0,
                        hold_timer: now,
                        hold_time: 240,
                        ..self.session_attribute
                    },
                ),
                seq![ActionModel::Send(open_bytes(self.config))],
            ),
            Event::TcpConnectionFails => (
                self.with_session(
                    SessionAttribute { state: State::Idle, ..self.session_attribute },
                ).queued(Event::ManualStart),
                seq![ActionModel::Backoff],
            ),
            _ => self.ignore(event),
        }
    }

    /// The step of a session in `OpenSent`. The peer's OPEN stops the
    /// connect-retry timer, sends a KEEPALIVE, starts the hold timer with
    /// the negotiated hold time and the keepalive timer with a third of
    /// that, and leads to `OpenConfirm`.
    pub open spec fn step_open_sent(self, event: Event, now: u64) -> (FsmModel, Seq<ActionModel>) {
        match event {
            Event::BgpOpen(open) => (
                self.with_session(
                    SessionAttribute {
                        state: State::OpenConfirm,
                        connect_retry_time: 0,
                        ..self.session_attribute.holding(
                            negotiated_hold_time(open.hold_time.0),
                            now,
                        )
                    },
                ),
                seq![ActionModel::Send(keepalive_wire())],
            ),
            Event::HoldTimerExpires => self.fail(BgpErrorCode::HoldTimerExpired),
            Event::TcpConnectionFails | Event::NotifMsg | Event::NotifMsgVerErr => self.abandon(),
            _ => self.ignore(event),
        }
    }

    /// The step of a session in `OpenConfirm`. The peer's KEEPALIVE starts
    /// the hold timer again, leads to `Established`, and asks for the routes
    /// of the host.
    pub open spec fn step_open_confirm(self, event: Event, now: u64) -> (
        FsmModel,
        Seq<ActionModel>,
    ) {
        match event {
            Event::KeepAliveMsg => (
                self.with_session(
                    SessionAttribute {
                        state: State::Established,
                        hold_timer: now,
                        ..self.session_attribute
                    },
                ),
                seq![ActionModel::LoadKernelRoutes],
            ),
            Event::KeepaliveTimerExpires => self.keep_alive(now),
            Event::HoldTimerExpires => self.fail(BgpErrorCode::HoldTimerExpired),
            Event::TcpConnectionFails | Event::NotifMsg | Event::NotifMsgVerErr => self.abandon(),
            _ => self.ignore(event),
        }
    }

    /// The keepalive timer has run out: a KEEPALIVE is sent and the timer
    /// started again.
    pub open spec fn keep_alive(self, now: u64) -> (FsmModel, Seq<ActionModel>) {
        (
            self.with_session(SessionAttribute { keepalive_timer: now, ..self.session_attribute }),
            seq![ActionModel::Send(keepalive_wire())],
        )
    }

    /// An UPDATE has come to an established session: the oldest waiting
    /// message is taken; where it is an UPDATE, its routes are offered to
    /// Adj-RIB-In, and `AdjRibInChanged` is queued where that base then has
    /// a new route.
    pub open spec fn take_update(self) -> FsmModel {
        if self.packet_queue.len() > 0 {
            match self.packet_queue.first() {
                MessageModel::Update(update) => {
                    let adj_rib_in = inserted_all(
                        self.adj_rib_in,
                        learned_entries(
                            update.path_attributes,
                            update.network_layer_reachability_information,
                        ),
                    );
                    FsmModel { adj_rib_in, ..self.without_packet() }.queued_if(
                        has_new(adj_rib_in),
                        Event::AdjRibInChanged,
                    )
                },
                _ => self.without_packet(),
            }
        } else {
            self
        }
    }

    /// The bytes that announce the new routes of Adj-RIB-Out, as one action;
    /// no action where the UPDATE does not fit the wire.
    pub open spec fn announce(self) -> Seq<ActionModel> {
        let update = advertisement(self.adj_rib_out, self.config);
        if update.fits() {
            seq![ActionModel::Send(update.wire())]
        } else {
            Seq::empty()
        }
    }

    /// The step of an established session.
    ///
    /// `UpdateMsg` takes the UPDATE that waits into Adj-RIB-In.
    /// `AdjRibInChanged` brings Adj-RIB-In into Loc-RIB, asks for the new
    /// routes to be put into the host's table, and queues `LocRibChanged`
    /// where Loc-RIB then has a new route. `LocRibChanged` brings Loc-RIB
    /// into Adj-RIB-Out and queues `AdjRibOutChanged` in the same way.
    /// `AdjRibOutChanged` sends the UPDATE that announces the new routes of
    /// Adj-RIB-Out. `KeepAliveMsg` starts the hold timer again. The
    /// keepalive timer sends a KEEPALIVE; the hold timer fails the session.
    /// A second OPEN or the connect-retry timer is an error of the state
    /// machine. A NOTIFICATION or the loss of the connection gives the
    /// connection up. Anything else changes nothing.
    pub open spec fn step_established(self, event: Event, now: u64) -> (
        FsmModel,
        Seq<ActionModel>,
    ) {
        match event {
            Event::UpdateMsg => (self.take_update(), Seq::empty()),
            Event::AdjRibInChanged => {
                let loc_rib = propagated(self.adj_rib_in, self.loc_rib);
                (
                    FsmModel { loc_rib, ..self }.queued_if(has_new(loc_rib), Event::LocRibChanged),
                    seq![ActionModel::InstallRoutes],
                )
            },
            Event::LocRibChanged => {
                let adj_rib_out = propagated(self.loc_rib, self.adj_rib_out);
                (
                    FsmModel { adj_rib_out, ..self }.queued_if(
                        has_new(adj_rib_out),
                        Event::AdjRibOutChanged,
                    ),
                    Seq::empty(),
                )
            },
            Event::AdjRibOutChanged => (self, self.announce()),
            Event::KeepAliveMsg => (
                self.with_session(SessionAttribute { hold_timer: now, ..self.session_attribute }),
                Seq::empty(),
            ),
            Event::KeepaliveTimerExpires => self.keep_alive(now),
            Event::HoldTimerExpires => self.fail(BgpErrorCode::HoldTimerExpired),
            Event::ConnectRetryTimerExpires | Event::BgpOpen(_) => self.fail(
                BgpErrorCode::FiniteStateMachineError,
            ),
            Event::TcpConnectionFails | Event::NotifMsg | Event::NotifMsgVerErr => self.abandon(),
            _ => (self, Seq::empty()),
        }
    }

    /// One step of the session: the state after `event` at time `now`, and
    /// the actions that the outside is to perform, in order.
    ///
    /// In every state, `ManualStop` stops the session, and an event that
    /// reports a message in error fails it with the NOTIFICATION of that
    /// error. Every other event is handled by the state; one that the state
    /// has no use for changes nothing.
    pub open spec fn step(self, event: Event, now: u64) -> (FsmModel, Seq<ActionModel>) {
        match event {
            Event::ManualStop => self.stop(),
            Event::BgpHeaderErr(error) => self.fail(error.notification_code()),
            Event::BgpOpenMsgErr(error) => self.fail(error.notification_code()),
            Event::UpdateMsgErr(error) => self.fail(error.notification_code()),
            _ => match self.session_attribute.state {
                State::Idle => self.step_idle(event, now),
                State::Connect => self.step_connect(event, now),
                State::Active => self.ignore(event),
                State::OpenSent => self.step_open_sent(event, now),
                State::OpenConfirm => self.step_open_confirm(event, now),
                State::Established => self.step_established(event, now),
            },
        }
    }

    /// The routes of the host have been read: where the session is
    /// established, those whose destination lies within the advertised
    /// prefix are offered to Loc-RIB as new routes without attributes, and
    /// `LocRibChanged` is queued where that base then has a new route.
    pub open spec fn loaded(self, routes: Seq<KernelRoute>) -> FsmModel {
        if self.session_attribute.state == State::Established {
            let loc_rib = inserted_all(
                self.loc_rib,
                kernel_entries(
                    routes.filter(
                        |route: KernelRoute| route_within(self.config.advertisement_network, route),
                    ),
                    Seq::empty(),
                ),
            );
            FsmModel { loc_rib, ..self }.queued_if(has_new(loc_rib), Event::LocRibChanged)
        } else {
            self
        }
    }

    /// The session after its timers were looked at: for each timer that has
    /// run out at `now`, its event is queued, in the order connect-retry,
    /// hold, keepalive. The first two timers are then stopped; the keepalive
    /// timer is started again.
    pub open spec fn ticked(self, now: u64) -> FsmModel {
        let s = self.session_attribute;
        let retry = timer_expired(s.connect_retry_timer, s.connect_retry_time, now);
        let hold = timer_expired(s.hold_timer, s.hold_time, now);
        let keepalive = timer_expired(s.keepalive_timer, s.keepalive_time, now);
        self.with_session(
            SessionAttribute {
                connect_retry_time: if retry {
                    0
                } else {
                    s.connect_retry_time
                },
                hold_time: if hold {
                    0
                } else {
                    s.hold_time
                },
                keepalive_timer: if keepalive {
                    now
                } else {
                    s.keepalive_timer
                },
                ..s
            },
        ).queued_if(retry, Event::ConnectRetryTimerExpires).queued_if(
            hold,
            Event::HoldTimerExpires,
        ).queued_if(keepalive, Event::KeepaliveTimerExpires)
    }

    /// The session after `bytes` have come from the peer: they join the
    /// received bytes; where these then start with a whole message, it is
    /// taken and handled; where the length that they declare is under 19,
    /// the received bytes are dropped and a header error is queued.
    pub open spec fn received(self, bytes: Seq<u8>) -> FsmModel {
        let buffer = self.data_buffer + bytes;
        match framed(buffer) {
            Ok(length) => {
                let read = message_from_wire(buffer.take(length as int));
                FsmModel {
                    data_buffer: buffer.skip(length as int),
                    event_queue: self.event_queue.push(event_of(read)),
                    packet_queue: packets_after(self.packet_queue, read),
                    ..self
                }
            },
            Err(BgpError::BadMessageLength) => FsmModel {
                data_buffer: Seq::empty(),
                event_queue: self.event_queue.push(
                    Event::BgpHeaderErr(BgpError::BadMessageLength),
                ),
                ..self
            },
            Err(_) => FsmModel { data_buffer: buffer, ..self },
        }
    }
}

impl fsm {
    /// No base of the session holds a route twice.
    pub open spec fn wf(&self) -> bool {
        self@.wf()
    }

    /// A session that is created at `now`.
    pub fn new(config: Config, now: u64) -> (machine: Self)
        ensures
            machine@ == FsmModel::created(config, now),
            machine.wf(),
    {
        let machine = fsm {
            config,
            session_attribute: SessionAttribute::new(now),
            data_buffer: ReceiveBuffer::new(),
            event_queue: EventQueue::new(),
            packet_queue: PacketQueue::new(),
            loc_rib: Rib::new(Vec::new()),
            adj_rib_out: Rib::new(Vec::new()),
            adj_rib_in: Rib::new(Vec::new()),
        };
        assert(machine@ =~= FsmModel::created(config, now));
        machine
    }

    /// The state of the session.
    pub fn get_state(&self) -> (state: &State)
        ensures
            *state == self@.session_attribute.state,
    {
        self.session_attribute.get_state()
    }

    /// One step of the session: takes `event` at time `now` (in seconds)
    /// and returns the actions that the caller is to perform, in order.
    pub fn handle_event(&mut self, event: &Event, now: u64) -> (actions: Vec<Action>)
        ensures
            final(self)@ == old(self)@.step(*event, now).0,
            action_models(actions@) == old(self)@.step(*event, now).1,
            old(self).wf() ==> final(self).wf(),
    {
        match event {
            Event::ManualStop => self.stop(),
            Event::BgpHeaderErr(error) => self.fail(error.notification()),
            Event::BgpOpenMsgErr(error) => self.fail(error.notification()),
            Event::UpdateMsgErr(error) => self.fail(error.notification()),
            _ => match self.session_attribute.state {
                State::Idle => self.step_idle(event, now),
                State::Connect => self.step_connect(event, now),
                State::Active => self.ignore(event),
                State::OpenSent => self.step_open_sent(event, now),
                State::OpenConfirm => self.step_open_confirm(event, now),
                State::Established => self.step_established(event, now),
            },
        }
    }

    /// Lets go of all that the session held for its connection.
    fn release(&mut self)
        ensures
            final(self)@ == old(self)@.released(),
            final(self).wf(),
    {
        self.data_buffer.clear();
        self.event_queue.clear();
        self.packet_queue.clear();
        self.loc_rib = Rib::new(Vec::new());
        self.adj_rib_out = Rib::new(Vec::new());
        self.adj_rib_in = Rib::new(Vec::new());
        assert(self@ =~= old(self)@.released());
    }

    /// Gives the connection up and arms the next start.
    fn restart(&mut self)
        ensures
            final(self)@ == old(self)@.restarted(),
            final(self).wf(),
    {
        self.release();
        self.session_attribute.state = State::Idle;
        self.session_attribute.connect_retry_time = 0;
        self.session_attribute.hold_time = 0;
        self.session_attribute.keepalive_time = 0;
        if self.session_attribute.connect_retry_counter < usize::MAX {
            self.session_attribute.connect_retry_counter = self.session_attribute.connect_retry_counter
                + 1;
        }
        self.event_queue.push(Event::ManualStart);
        assert(self@ =~= old(self)@.restarted());
    }

    /// The step of `ManualStop`.
    fn stop(&mut self) -> (actions: Vec<Action>)
        ensures
            final(self)@ == old(self)@.stop().0,
            action_models(actions@) == old(self)@.stop().1,
            final(self).wf(),
    {
        self.release();
        self.session_attribute.state = State::Idle;
        self.session_attribute.connect_retry_counter = 0;
        self.session_attribute.connect_retry_time = 0;
        self.session_attribute.hold_time = 0;
        self.session_attribute.keepalive_time = 0;
        let mut actions: Vec<Action> = Vec::new();
        actions.push(Action::Send(BgpNotificationMessage::new(BgpErrorCode::Cease).decode()));
        actions.push(Action::CloseConnection);
        assert(self@ =~= old(self)@.stop().0);
        assert(action_models(actions@) =~= old(self)@.stop().1);
        actions
    }

    /// The step of a failure that is reported to the peer.
    fn fail(&mut self, code: BgpErrorCode) -> (actions: Vec<Action>)
        ensures
            final(self)@ == old(self)@.fail(code).0,
            action_models(actions@) == old(self)@.fail(code).1,
            final(self).wf(),
    {
        self.restart();
        let mut actions: Vec<Action> = Vec::new();
        actions.push(Action::Send(BgpNotificationMessage::new(code).decode()));
        actions.push(Action::CloseConnection);
        actions.push(Action::Backoff);
        assert(action_models(actions@) =~= old(self)@.fail(code).1);
        actions
    }

    /// The step of a connection that is lost or ended by the peer.
    fn abandon(&mut self) -> (actions: Vec<Action>)
        ensures
            final(self)@ == old(self)@.abandon().0,
            action_models(actions@) == old(self)@.abandon().1,
            final(self).wf(),
    {
        self.restart();
        let mut actions: Vec<Action> = Vec::new();
        actions.push(Action::CloseConnection);
        actions.push(Action::Backoff);
        assert(action_models(actions@) =~= old(self)@.abandon().1);
        actions
    }

    /// The step of an event that the state has no use for.
    fn ignore(&mut self, event: &Event) -> (actions: Vec<Action>)
        ensures
            final(self)@ == old(self)@.ignore(*event).0,
            action_models(actions@) == old(self)@.ignore(*event).1,
            old(self).wf() ==> final(self).wf(),
    {
        match event {
            Event::UpdateMsg => {
                self.discard_packet();
            },
            _ => {},
        }
        let actions: Vec<Action> = Vec::new();
        assert(action_models(actions@) =~= Seq::<ActionModel>::empty());
        actions
    }

    /// Takes the oldest waiting message and drops it.
    fn discard_packet(&mut self)
        ensures
            final(self)@ == old(self)@.without_packet(),
            old(self).wf() ==> final(self).wf(),
    {
        let _ = self.packet_queue.pop();
        assert(self@ =~= old(self)@.without_packet());
    }

    /// The step of the keepalive timer running out.
    fn keep_alive(&mut self, now: u64) -> (actions: Vec<Action>)
        ensures
            final(self)@ == old(self)@.keep_alive(now).0,
            action_models(actions@) == old(self)@.keep_alive(now).1,
            old(self).wf() ==> final(self).wf(),
    {
        self.session_attribute.keepalive_timer = now;
        let mut actions: Vec<Action> = Vec::new();
        actions.push(Action::Send(BgpKeepaliveMessage::new().decode_to_u8()));
        assert(action_models(actions@) =~= old(self)@.keep_alive(now).1);
        actions
    }

    /// The step of an idle session.
    fn step_idle(&mut self, event: &Event, now: u64) -> (actions: Vec<Action>)
        ensures
            final(self)@ == old(self)@.step_idle(*event, now).0,
            action_models(actions@) == old(self)@.step_idle(*event, now).1,
            old(self).wf() ==> final(self).wf(),
    {
        match event {
            Event::ManualStart => {
                self.data_buffer.clear();
                self.session_attribute.connect_retry_counter = 0;
                self.session_attribute.connect_retry_timer = now;
                self.session_attribute.connect_retry_time = CONNECT_RETRY_TIME;
                self.session_attribute.hold_time = 0;
                self.session_attribute.keepalive_time = 0;
                self.session_attribute.state = State::Connect;
                let mut actions: Vec<Action> = Vec::new();
                match self.config.mode {
                    Mode::Active => {
                        actions.push(Action::Connect(self.config.remote_ip_addr));
                    },
                    Mode::Passive => {
                        actions.push(Action::Accept);
                    },
                }
                assert(self@ =~= old(self)@.step_idle(*event, now).0);
                assert(action_models(actions@) =~= old(self)@.step_idle(*event, now).1);
                actions
            },
            _ => self.ignore(event),
        }
    }

    /// The step of a session in `Connect`.
    fn step_connect(&mut self, event: &Event, now: u64) -> (actions: Vec<Action>)
        ensures
            final(self)@ == old(self)@.step_connect(*event, now).0,
            action_models(actions@) == old(self)@.step_connect(*event, now).1,
            old(self).wf() ==> final(self).wf(),
    {
        match event {
            Event::TcpCrAcked | Event::TcpConnectionConfirmed => {
                self.session_attribute.connect_retry_time = 0;
                let open_message = BgpOpenMessage::new(self.config.as_number, self.config.my_ip_addr);
                let mut actions: Vec<Action> = Vec::new();
                actions.push(Action::Send(open_message.decode()));
                self.session_attribute.hold_time = LARGE_HOLD_TIME;
                self.session_attribute.hold_timer = now;
                self.session_attribute.state = State::OpenSent;
                assert(self@ =~= old(self)@.step_connect(*event, now).0);
                assert(action_models(actions@) =~= old(self)@.step_connect(*event, now).1);
                actions
            },
            Event::TcpConnectionFails => {
                self.session_attribute.state = State::Idle;
                self.event_queue.push(Event::ManualStart);
                let mut actions: Vec<Action> = Vec::new();
                actions.push(Action::Backoff);
                assert(self@ =~= old(self)@.step_connect(*event, now).0);
                assert(action_models(actions@) =~= old(self)@.step_connect(*event, now).1);
                actions
            },
            _ => self.ignore(event),
        }
    }

    /// The step of a session in `OpenSent`.
    fn step_open_sent(&mut self, event: &Event, now: u64) -> (actions: Vec<Action>)
        ensures
            final(self)@ == old(self)@.step_open_sent(*event, now).0,
            action_models(actions@) == old(self)@.step_open_sent(*event, now).1,
            old(self).wf() ==> final(self).wf(),
    {
        match event {
            Event::BgpOpen(open) => {
                self.session_attribute.connect_retry_time = 0;
                let mut actions: Vec<Action> = Vec::new();
                actions.push(Action::Send(BgpKeepaliveMessage::new().decode_to_u8()));
                let hold_time: u64 = negotiate_hold_time(open.hold_time.0);
                self.session_attribute.hold_timer = now;
                self.session_attribute.hold_time = hold_time;
                self.session_attribute.keepalive_timer = now;
                self.session_attribute.keepalive_time = hold_time / 3;
                self.session_attribute.state = State::OpenConfirm;
                assert(self@ =~= old(self)@.step_open_sent(*event, now).0);
                assert(action_models(actions@) =~= old(self)@.step_open_sent(*event, now).1);
                actions
            },
            Event::HoldTimerExpires => self.fail(BgpErrorCode::HoldTimerExpired),
            Event::TcpConnectionFails | Event::NotifMsg | Event::NotifMsgVerErr => self.abandon(),
            _ => self.ignore(event),
        }
    }

    /// The step of a session in `OpenConfirm`.
    fn step_open_confirm(&mut self, event: &Event, now: u64) -> (actions: Vec<Action>)
        ensures
            final(self)@ == old(self)@.step_open_confirm(*event, now).0,
            action_models(actions@) == old(self)@.step_open_confirm(*event, now).1,
            old(self).wf() ==> final(self).wf(),
    {
        match event {
            Event::KeepAliveMsg => {
                self.session_attribute.hold_timer = now;
                self.session_attribute.state = State::Established;
                let mut actions: Vec<Action> = Vec::new();
                actions.push(Action::LoadKernelRoutes);
                assert(self@ =~= old(self)@.step_open_confirm(*event, now).0);
                assert(action_models(actions@) =~= old(self)@.step_open_confirm(*event, now).1);
                actions
            },
            Event::KeepaliveTimerExpires => self.keep_alive(now),
            Event::HoldTimerExpires => self.fail(BgpErrorCode::HoldTimerExpired),
            Event::TcpConnectionFails | Event::NotifMsg | Event::NotifMsgVerErr => self.abandon(),
            _ => self.ignore(event),
        }
    }

    /// Takes the UPDATE that waits and offers its routes to Adj-RIB-In.
    fn take_update(&mut self)
        ensures
            final(self)@ == old(self)@.take_update(),
            old(self).wf() ==> final(self).wf(),
    {
        let ghost before = self.packet_queue@;
        let packet = self.packet_queue.pop();
        proof {
            if before.len() > 0 {
                assert(message_models(before.drop_first()) =~= message_models(before).drop_first());
                assert(message_models(before).first() == before[0]@);
            }
        }
        match packet {
            Some(BgpMessage::Update(bgp_update_message)) => {
                self.adj_rib_in.add_from_update_message(
                    bgp_update_message,
                    &self.config.as_number,
                );
                if self.adj_rib_in.does_have_new_route() {
                    self.event_queue.push(Event::AdjRibInChanged);
                }
                assert(self@ =~= old(self)@.take_update());
            },
            Some(_) => {
                assert(self@ =~= old(self)@.take_update());
            },
            None => {
                assert(self@ =~= old(self)@.take_update());
            },
        }
    }

    /// Brings the routes of Loc-RIB into Adj-RIB-Out.
    pub fn phase3_disseminate_route(&mut self)
        ensures
            final(self)@ == (FsmModel {
                adj_rib_out: propagated(old(self)@.loc_rib, old(self)@.adj_rib_out),
                ..old(self)@
            }),
            old(self).wf() ==> final(self).wf(),
    {
        self.adj_rib_out.propagate_from(&self.loc_rib);
    }

    /// The bytes that announce the new routes of Adj-RIB-Out.
    fn announce(&self) -> (actions: Vec<Action>)
        ensures
            action_models(actions@) == self@.announce(),
    {
        let bgp_update_message = BgpUpdateMessage::is_created_from_adj_rib_out(
            &self.adj_rib_out,
            &self.config,
        );
        let mut actions: Vec<Action> = Vec::new();
        match bgp_update_message.checked_decode() {
            Some(bytes) => {
                actions.push(Action::Send(bytes));
            },
            None => {},
        }
        assert(action_models(actions@) =~= self@.announce());
        actions
    }

    /// The step of an established session.
    fn step_established(&mut self, event: &Event, now: u64) -> (actions: Vec<Action>)
        ensures
            final(self)@ == old(self)@.step_established(*event, now).0,
            action_models(actions@) == old(self)@.step_established(*event, now).1,
            old(self).wf() ==> final(self).wf(),
    {
        match event {
            Event::UpdateMsg => {
                self.take_update();
                let actions: Vec<Action> = Vec::new();
                assert(action_models(actions@) =~= Seq::<ActionModel>::empty());
                actions
            },
            Event::AdjRibInChanged => {
                self.loc_rib.propagate_from(&self.adj_rib_in);
                if self.loc_rib.does_have_new_route() {
                    self.event_queue.push(Event::LocRibChanged);
                }
                let mut actions: Vec<Action> = Vec::new();
                actions.push(Action::InstallRoutes);
                assert(self@ =~= old(self)@.step_established(*event, now).0);
                assert(action_models(actions@) =~= old(self)@.step_established(*event, now).1);
                actions
            },
            Event::LocRibChanged => {
                self.phase3_disseminate_route();
                if self.adj_rib_out.does_have_new_route() {
                    self.event_queue.push(Event::AdjRibOutChanged);
                }
                let actions: Vec<Action> = Vec::new();
                assert(self@ =~= old(self)@.step_established(*event, now).0);
                assert(action_models(actions@) =~= Seq::<ActionModel>::empty());
                actions
            },
            Event::AdjRibOutChanged => self.announce(),
            Event::KeepAliveMsg => {
                self.session_attribute.hold_timer = now;
                let actions: Vec<Action> = Vec::new();
                assert(action_models(actions@) =~= Seq::<ActionModel>::empty());
                actions
            },
            Event::KeepaliveTimerExpires => self.keep_alive(now),
            Event::HoldTimerExpires => self.fail(BgpErrorCode::HoldTimerExpired),
            Event::ConnectRetryTimerExpires | Event::BgpOpen(_) => self.fail(
                BgpErrorCode::FiniteStateMachineError,
            ),
            Event::TcpConnectionFails | Event::NotifMsg | Event::NotifMsgVerErr => self.abandon(),
            _ => {
                let actions: Vec<Action> = Vec::new();
                assert(action_models(actions@) =~= Seq::<ActionModel>::empty());
                actions
            },
        }
    }

    /// Takes the routes of the host that were read for `LoadKernelRoutes`.
    pub fn kernel_routes_loaded(&mut self, routes: &Vec<KernelRoute>)
        ensures
            final(self)@ == old(self)@.loaded(routes@),
            old(self).wf() ==> final(self).wf(),
    {
        match self.session_attribute.state {
            State::Established => {
                let within: Vec<KernelRoute> = lookup_network_route(
                    &self.config.advertisement_network,
                    routes,
                );
                let path_attributes: Vec<PathAttribute> = Vec::new();
                assert(models(path_attributes@) =~= Seq::<PathAttributeModel>::empty());
                self.loc_rib.add_from_route_message(&within, path_attributes);
                if self.loc_rib.does_have_new_route() {
                    self.event_queue.push(Event::LocRibChanged);
                }
                assert(self@ =~= old(self)@.loaded(routes@));
            },
            _ => {},
        }
    }

    /// Looks at the three timers at time `now` and queues the event of each
    /// one that has run out.
    pub fn check_timers(&mut self, now: u64)
        ensures
            final(self)@ == old(self)@.ticked(now),
            old(self).wf() ==> final(self).wf(),
    {
        let s: SessionAttribute = self.session_attribute;
        if has_expired(s.connect_retry_timer, s.connect_retry_time, now) {
            self.session_attribute.connect_retry_time = 0;
            self.event_queue.push(Event::ConnectRetryTimerExpires);
        }
        if has_expired(s.hold_timer, s.hold_time, now) {
            self.session_attribute.hold_time = 0;
            self.event_queue.push(Event::HoldTimerExpires);
        }
        if has_expired(s.keepalive_timer, s.keepalive_time, now) {
            self.session_attribute.keepalive_timer = now;
            self.event_queue.push(Event::KeepaliveTimerExpires);
        }
        assert(self@ =~= old(self)@.ticked(now));
    }

    /// Takes bytes that have come from the peer.
    pub fn receive(&mut self, bytes: &Vec<u8>)
        ensures
            final(self)@ == old(self)@.received(bytes@),
            old(self).wf() ==> final(self).wf(),
    {
        self.data_buffer.append(bytes);
        match self.data_buffer.retrieve_one_bgp_message() {
            Ok(message) => {
                bgp_packet_handler(&message, &mut self.event_queue, &mut self.packet_queue);
                assert(self@ =~= old(self)@.received(bytes@));
            },
            Err(BgpError::BadMessageLength) => {
                self.data_buffer.clear();
                self.event_queue.push(Event::BgpHeaderErr(BgpError::BadMessageLength));
                assert(self@ =~= old(self)@.received(bytes@));
            },
            Err(_) => {
                assert(self@ =~= old(self)@.received(bytes@));
            },
        }
    }

    /// The first route of Loc-RIB that is to be put into the host's table,
    /// with the request that does so.
    pub fn next_route_to_install(&self) -> (next: Option<(usize, KernelRouteRequest)>)
        ensures
            match next {
                Some((i, request)) => {
                    &&& i < self@.loc_rib.len()
                    &&& awaits_install(self@.loc_rib[i as int])
                    &&& forall|j: int| 0 <= j < i ==> !awaits_install(#[trigger] self@.loc_rib[j])
                    &&& request == install_request(self@.loc_rib[i as int])
                },
                None => forall|j: int|
                    0 <= j < self@.loc_rib.len() ==> !awaits_install(#[trigger] self@.loc_rib[j]),
            },
    {
        self.loc_rib.next_route_to_install()
    }

    /// Marks route `index` of Loc-RIB as put into the host's table.
    pub fn route_installed(&mut self, index: usize)
        requires
            index < old(self)@.loc_rib.len(),
        ensures
            final(self)@ == (FsmModel {
                loc_rib: old(self)@.loc_rib.update(
                    index as int,
                    installed(old(self)@.loc_rib[index as int]),
                ),
                ..old(self)@
            }),
            old(self).wf() ==> final(self).wf(),
    {
        self.loc_rib.mark_installed(index);
    }
}

impl FsmModel {
    /// The session after the oldest waiting event was taken and handled at
    /// `now`, with the actions of that step; unchanged, with no action,
    /// where no event waits.
    pub open spec fn drained(self, now: u64) -> (FsmModel, Seq<ActionModel>) {
        if self.event_queue.len() > 0 {
            FsmModel { event_queue: self.event_queue.drop_first(), ..self }.step(
                self.event_queue.first(),
                now,
            )
        } else {
            (self, Seq::empty())
        }
    }
}

impl fsm {
    /// Takes the oldest waiting event, if there is one, and handles it at
    /// time `now`.
    pub fn drain_one_event(&mut self, now: u64) -> (actions: Vec<Action>)
        ensures
            final(self)@ == old(self)@.drained(now).0,
            action_models(actions@) == old(self)@.drained(now).1,
            old(self).wf() ==> final(self).wf(),
    {
        match self.event_queue.pop() {
            Some(event) => {
                assert(self@ =~= (FsmModel {
                    event_queue: old(self)@.event_queue.drop_first(),
                    ..old(self)@
                }));
                self.handle_event(&event, now)
            },
            None => {
                let actions: Vec<Action> = Vec::new();
                assert(action_models(actions@) =~= Seq::<ActionModel>::empty());
                actions
            },
        }
    }
}

/// A session that is idle becomes established by these four events, in
/// this order: `ManualStart`, the confirmation of the TCP connection, the
/// event that the bytes of any OPEN of version 4 raise, and the event that
/// the bytes of a KEEPALIVE raise. On the way it passes through `Connect`,
/// `OpenSent` and `OpenConfirm`, and the only bytes that it sends are one
/// OPEN and one KEEPALIVE. Whatever else the session holds, and whatever
/// the four times are.
pub proof fn lemma_session_establishes(
    idle: FsmModel,
    peer_open: BgpOpenMessage,
    t1: u64,
    t2: u64,
    t3: u64,
    t4: u64,
)
    requires
        idle.session_attribute.state == State::Idle,
        peer_open.version == BGPVersion::V4,
    ensures
        ({
            let open_event = event_of(message_from_wire(peer_open.wire()));
            let keepalive_event = event_of(message_from_wire(keepalive_wire()));
            let (connect, actions1) = idle.step(Event::ManualStart, t1);
            let (open_sent, actions2) = connect.step(Event::TcpConnectionConfirmed, t2);
            let (open_confirm, actions3) = open_sent.step(open_event, t3);
            let (established, actions4) = open_confirm.step(keepalive_event, t4);
            &&& open_event == Event::BgpOpen(peer_open)
            &&& keepalive_event == Event::KeepAliveMsg
            &&& connect.session_attribute.state == State::Connect
            &&& open_sent.session_attribute.state == State::OpenSent
            &&& open_confirm.session_attribute.state == State::OpenConfirm
            &&& established.session_attribute.state == State::Established
            &&& actions1 == seq![
                match idle.config.mode {
                    Mode::Active => ActionModel::Connect(idle.config.remote_ip_addr),
                    Mode::Passive => ActionModel::Accept,
                },
            ]
            &&& actions2 == seq![ActionModel::Send(open_bytes(idle.config))]
            &&& actions3 == seq![ActionModel::Send(keepalive_wire())]
            &&& actions4 == seq![ActionModel::LoadKernelRoutes]
        }),
{
    crate::message::lemma_message_round_trip(MessageModel::Open(peer_open));
    crate::message::lemma_message_round_trip(MessageModel::Keepalive(BgpKeepaliveMessage {  }));
}

/// The hold time of a session, in seconds: the smaller of this speaker's
/// own 90 seconds and the hold time that the peer's OPEN offers. An offer
/// of 0 gives 0, which leaves the hold and keepalive timers off.
pub open spec fn negotiated_hold_time(offered: u16) -> u64 {
    if offered < 90 {
        offered as u64
    } else {
        90
    }
}

/// The hold time of a session for the hold time that the peer offers.
pub fn negotiate_hold_time(offered: u16) -> (hold_time: u64)
    ensures
        hold_time == negotiated_hold_time(offered),
{
    if (offered as u64) < SESSION_HOLD_TIME {
        offered as u64
    } else {
        SESSION_HOLD_TIME
    }
}

/// Whether a timer has run out at `now`.
pub fn has_expired(started_at: u64, duration: u64, now: u64) -> (expired: bool)
    ensures
        expired == timer_expired(started_at, duration, now),
{
    duration > 0 && now >= started_at && now - started_at >= duration
}

} // verus!
