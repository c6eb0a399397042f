//! The receiving side: what the store makes of a datagram, and the
//! decisions of the listener between one piece of socket work and the next.
//!
//! The listener itself touches no socket. It is told what happened and
//! answers with what to do next; whoever owns the socket does it.

use crate::clock::Timestamp;
use crate::codec::{
    build_spec, lemma_parse_build_round_trip, parse, parse_spec, MalformedPacket, Packet,
    PacketView, CHANNEL_COUNT, CID_LEN,
};
use crate::model::{LogEntryView, LogLevel, UniverseView};
use crate::net::{
    is_valid_priority, is_valid_universe, multicast_group, universe_to_multicast, valid_priority,
    valid_universe, IpAddress, ACN_SDT_MULTICAST_PORT, MAX_UNIVERSE, MIN_UNIVERSE,
};
use crate::state::{AppState, AppStateView};
use crate::store_laws::{lemma_update_device, lemma_update_universe};
use crate::text::{concat2, concat3, decimal, decimal_string};
use vstd::prelude::*;

verus! {

/// Most bytes that one receive takes.
pub const RECEIVE_BUFFER_LEN: usize = 1500;

/// Milliseconds to wait after a receive that failed.
pub const BACKOFF_MILLIS: u64 = 50;

/// What became of a datagram.
#[derive(Clone, Copy, Debug, PartialEq, Eq, Structural)]
pub enum Received {
    /// It was a data packet, and the store holds it now.
    Accepted { universe: u16 },
    /// It was no packet, and was dropped.
    Malformed(MalformedPacket),
    /// It was a packet with a priority above the highest, and was dropped.
    PriorityOutOfRange { priority: u8 },
    /// It was a packet for a universe that does not exist, and was dropped.
    UniverseOutOfRange { universe: u16 },
}

/// The log line at `now` with the given level and words.
pub open spec fn log_line(now: Timestamp, level: LogLevel, message: Seq<char>) -> LogEntryView {
    LogEntryView { timestamp: now, level, message }
}

/// The words of the log line for a packet that was taken.
pub open spec fn received_message(universe: u16) -> Seq<char> {
    "Received DMX data on universe "@ + decimal(universe as nat) + ": 512 channels"@
}

/// The words of the log line for a datagram that was no packet.
pub open spec fn malformed_message(error: MalformedPacket) -> Seq<char> {
    "Dropped malformed packet: "@ + error.reason_spec()
}

/// The words of the log line for a packet with a priority out of range.
pub open spec fn priority_out_of_range_message(priority: u8) -> Seq<char> {
    "Dropped packet with priority "@ + decimal(priority as nat) + ": out of range"@
}

/// The words of the log line for a packet with a universe out of range.
pub open spec fn out_of_range_message(universe: u16) -> Seq<char> {
    "Dropped packet for universe "@ + decimal(universe as nat) + ": out of range"@
}

/// The store after a packet from `sender` was taken at `now`: the log has
/// one more line, the sender is in the table of sources with the packet's
/// universe, name and priority, and the snapshot of the universe is the
/// packet's channels, sender and sequence number.
pub open spec fn take_packet(
    s: AppStateView,
    sender: IpAddress,
    packet: PacketView,
    now: Timestamp,
) -> AppStateView {
    s.add_log(log_line(now, LogLevel::Rx, received_message(packet.universe))).update_device(
        sender,
        packet.universe,
        packet.source_name,
        packet.priority,
        now,
    ).update_universe(
        UniverseView {
            universe: packet.universe,
            channels: packet.channels,
            last_updated: now,
            source_ip: sender,
            sequence: packet.sequence,
        },
    )
}

/// What becomes of a datagram. The priority of a packet is looked at
/// before its universe.
pub open spec fn received(datagram: Seq<u8>) -> Received {
    match parse_spec(datagram) {
        Err(e) => Received::Malformed(e),
        Ok(packet) => if !valid_priority(packet.priority) {
            Received::PriorityOutOfRange { priority: packet.priority }
        } else if !valid_universe(packet.universe) {
            Received::UniverseOutOfRange { universe: packet.universe }
        } else {
            Received::Accepted { universe: packet.universe }
        },
    }
}

/// The store after a datagram from `sender` came at `now`. A packet with a
/// valid priority for a valid universe is taken; anything else is dropped
/// with one line in the log, and the tables stay as they are.
pub open spec fn receive(
    s: AppStateView,
    sender: IpAddress,
    datagram: Seq<u8>,
    now: Timestamp,
) -> AppStateView {
    match parse_spec(datagram) {
        Err(e) => s.add_log(log_line(now, LogLevel::Info, malformed_message(e))),
        Ok(packet) => if !valid_priority(packet.priority) {
            s.add_log(
                log_line(now, LogLevel::Info, priority_out_of_range_message(packet.priority)),
            )
        } else if !valid_universe(packet.universe) {
            s.add_log(log_line(now, LogLevel::Info, out_of_range_message(packet.universe)))
        } else {
            take_packet(s, sender, packet, now)
        },
    }
}

impl AppState {
    /// Takes a packet from `sender` that came at `now` into the store.
    pub fn handle_packet(&mut self, sender: IpAddress, packet: Packet, now: Timestamp)
        requires
            old(self).wf(),
            valid_universe(packet.universe),
            valid_priority(packet.priority),
        ensures
            final(self).wf(),
            final(self)@ == take_packet(old(self)@, sender, packet@, now),
    {
        let message = concat3(
            "Received DMX data on universe ",
            decimal_string(packet.universe as u64).as_str(),
            ": 512 channels",
        );
        self.add_log_at(LogLevel::Rx, message, now);
        self.update_device_at(sender, packet.universe, packet.source_name, packet.priority, now);
        self.update_universe_at(packet.universe, packet.channels, sender, packet.sequence, now);
    }

    /// Reads a datagram from `sender` that came at `now`, and takes it
    /// into the store if it is a packet with a valid priority for a valid
    /// universe.
    pub fn receive_datagram(
        &mut self,
        sender: IpAddress,
        datagram: &[u8],
        now: Timestamp,
    ) -> (outcome: Received)
        requires
            old(self).wf(),
        ensures
            final(self).wf(),
            final(self)@ == receive(old(self)@, sender, datagram@, now),
            outcome == received(datagram@),
    {
        match parse(datagram) {
            Err(e) => {
                let message = concat2("Dropped malformed packet: ", e.reason());
                self.add_log_at(LogLevel::Info, message, now);
                Received::Malformed(e)
            },
            Ok(packet) => {
                let universe = packet.universe;
                let priority = packet.priority;
                if !is_valid_priority(priority) {
                    let message = concat3(
                        "Dropped packet with priority ",
                        decimal_string(priority as u64).as_str(),
                        ": out of range",
                    );
                    self.add_log_at(LogLevel::Info, message, now);
                    Received::PriorityOutOfRange { priority }
                } else if !is_valid_universe(universe) {
                    let message = concat3(
                        "Dropped packet for universe ",
                        decimal_string(universe as u64).as_str(),
                        ": out of range",
                    );
                    self.add_log_at(LogLevel::Info, message, now);
                    Received::UniverseOutOfRange { universe }
                } else {
                    self.handle_packet(sender, packet, now);
                    Received::Accepted { universe }
                }
            },
        }
    }
}

/// Where the listener stands.
#[derive(Clone, Copy, Debug, PartialEq, Eq, Structural)]
pub enum ListenerState {
    /// No socket yet.
    Idle,
    /// The socket is bound, and the group of `next_universe` is being
    /// joined.
    Bound { next_universe: u16 },
    /// Every group has been tried, and datagrams are received.
    Listening,
    /// A receive failed, and the listener waits before the next.
    Backoff,
    /// The socket could not be bound. Nothing follows.
    Failed,
    /// The listener was told to stop. Nothing follows.
    Stopped,
}

/// What happened at the socket.
#[derive(Clone, Debug)]
pub enum ListenerEvent {
    /// The listener is asked to start.
    Start,
    /// The socket is open and bound.
    BindSucceeded,
    /// The socket could not be opened or bound, for the given reason.
    BindFailed(String),
    /// The group that was asked for is joined.
    JoinSucceeded,
    /// The group that was asked for could not be joined.
    JoinFailed(String),
    /// A datagram came.
    Datagram { sender: IpAddress, payload: Vec<u8> },
    /// A receive failed.
    ReceiveFailed(String),
    /// The wait after a failed receive is over.
    BackoffElapsed,
    /// The listener is asked to stop.
    Shutdown,
}

/// The mathematical value of a `ListenerEvent`.
pub enum EventView {
    Start,
    BindSucceeded,
    BindFailed(Seq<char>),
    JoinSucceeded,
    JoinFailed(Seq<char>),
    Datagram { sender: IpAddress, payload: Seq<u8> },
    ReceiveFailed(Seq<char>),
    BackoffElapsed,
    Shutdown,
}

impl View for ListenerEvent {
    type V = EventView;

    open spec fn view(&self) -> EventView {
        match *self {
            ListenerEvent::Start => EventView::Start,
            ListenerEvent::BindSucceeded => EventView::BindSucceeded,
            ListenerEvent::BindFailed(reason) => EventView::BindFailed(reason@),
            ListenerEvent::JoinSucceeded => EventView::JoinSucceeded,
            ListenerEvent::JoinFailed(reason) => EventView::JoinFailed(reason@),
            ListenerEvent::Datagram { sender, payload } => EventView::Datagram {
                sender,
                payload: payload@,
            },
            ListenerEvent::ReceiveFailed(reason) => EventView::ReceiveFailed(reason@),
            ListenerEvent::BackoffElapsed => EventView::BackoffElapsed,
            ListenerEvent::Shutdown => EventView::Shutdown,
        }
    }
}

/// What is to be done at the socket next.
#[derive(Clone, Copy, Debug, PartialEq, Eq, Structural)]
pub enum ListenerAction {
    /// Open a UDP socket, allow the reuse of its address, and bind it.
    Bind { ip: IpAddress, port: u16 },
    /// Join the multicast group.
    Join { group: IpAddress },
    /// Receive one datagram of `max_len` bytes at most.
    Receive { max_len: usize },
    /// Wait for so many milliseconds.
    Sleep { millis: u64 },
    /// Give up and tell the caller that the listener could not start.
    Abort,
    /// Close the socket.
    Close,
    /// Nothing: the event meant nothing where the listener stands.
    Nothing,
}

/// The listener: where it stands and the address it binds to.
#[derive(Clone, Copy, Debug)]
pub struct Listener {
    state: ListenerState,
    bind_ip: IpAddress,
}

/// The mathematical value of a `Listener`.
pub struct ListenerView {
    pub state: ListenerState,
    pub bind_ip: IpAddress,
}

impl View for Listener {
    type V = ListenerView;

    closed spec fn view(&self) -> ListenerView {
        ListenerView { state: self.state, bind_ip: self.bind_ip }
    }
}

/// The address to bind to: that of the adapter the store selects, or the
/// wildcard address where it selects none.
pub open spec fn bind_address(s: AppStateView) -> IpAddress {
    match s.selected_adapter_ip() {
        Some(ip) => ip,
        None => IpAddress::unspecified(),
    }
}

/// The words of the log line for a socket that is bound.
pub open spec fn bound_message(ip: IpAddress) -> Seq<char> {
    "sACN receiver created on "@ + ip.socket_text(ACN_SDT_MULTICAST_PORT)
}

/// The words of the log line for a socket that could not be bound.
pub open spec fn bind_failed_message(reason: Seq<char>) -> Seq<char> {
    "Failed to create sACN receiver: "@ + reason
}

/// The words of the log line for a group that could not be joined.
pub open spec fn join_failed_message(universe: u16, reason: Seq<char>) -> Seq<char> {
    "Failed to join the group of universe "@ + decimal(universe as nat) + ": "@ + reason
}

/// The words of the log line for a listener that has started.
pub open spec fn listening_message(ip: IpAddress) -> Seq<char> {
    "sACN listener started on "@ + ip.text() + " port "@ + decimal(ACN_SDT_MULTICAST_PORT as nat)
}

/// The words of the log line for a receive that failed.
pub open spec fn receive_failed_message(reason: Seq<char>) -> Seq<char> {
    "sACN receive error: "@ + reason
}

impl AppState {
    /// The address that a socket of this machine binds to: that of the
    /// selected adapter, or the wildcard address where none is selected.
    pub fn bind_address(&self) -> (ip: IpAddress)
        ensures
            ip == bind_address(self@),
    {
        match self.get_selected_adapter_ip() {
            Some(ip) => ip,
            None => IpAddress::V4(0, 0, 0, 0),
        }
    }
}

impl ListenerView {
    /// What always holds of a listener: the universe whose group it joins
    /// is a valid one.
    pub open spec fn wf(self) -> bool {
        self.state matches ListenerState::Bound { next_universe } ==> valid_universe(next_universe)
    }

    /// Whether nothing follows where the listener stands.
    pub open spec fn is_terminal(self) -> bool {
        self.state is Failed || self.state is Stopped
    }

    /// The listener after the group of `universe` has been tried, with what
    /// it asks for next: the next group, or the first receive once the
    /// last group has been tried.
    pub open spec fn after_join(self, s: AppStateView, universe: u16, now: Timestamp) -> (
        ListenerView,
        AppStateView,
        ListenerAction,
    ) {
        if universe >= MAX_UNIVERSE {
            (
                ListenerView { state: ListenerState::Listening, ..self },
                s.add_log(log_line(now, LogLevel::Info, listening_message(self.bind_ip))),
                ListenerAction::Receive { max_len: RECEIVE_BUFFER_LEN },
            )
        } else {
            (
                ListenerView {
                    state: ListenerState::Bound { next_universe: (universe + 1) as u16 },
                    ..self
                },
                s,
                ListenerAction::Join { group: multicast_group((universe + 1) as u16) },
            )
        }
    }

    /// The listener and the store after `event` at `now`, and what is to be
    /// done next.
    ///
    /// Asked to start, an idle listener asks for a socket bound to the
    /// selected adapter. Once that is bound it joins the group of every
    /// universe from the first to the last, one after the other; a group
    /// that cannot be joined is logged as a warning and passed over. Then
    /// it receives: a datagram goes to the store, a failed receive is
    /// logged as an error and followed by a short wait. A socket that
    /// cannot be bound ends the listener, and so does the request to stop.
    /// An event that means nothing where the listener stands changes
    /// nothing.
    pub open spec fn step(self, s: AppStateView, event: EventView, now: Timestamp) -> (
        ListenerView,
        AppStateView,
        ListenerAction,
    ) {
        match (self.state, event) {
            (ListenerState::Idle, EventView::Start) => (
                ListenerView { bind_ip: bind_address(s), ..self },
                s,
                ListenerAction::Bind { ip: bind_address(s), port: ACN_SDT_MULTICAST_PORT },
            ),
            (ListenerState::Idle, EventView::BindSucceeded) => (
                ListenerView { state: ListenerState::Bound { next_universe: MIN_UNIVERSE }, ..self },
                s.add_log(log_line(now, LogLevel::Info, bound_message(self.bind_ip))),
                ListenerAction::Join { group: multicast_group(MIN_UNIVERSE) },
            ),
            (ListenerState::Idle, EventView::BindFailed(reason)) => (
                ListenerView { state: ListenerState::Failed, ..self },
                s.add_log(log_line(now, LogLevel::Error, bind_failed_message(reason))),
                ListenerAction::Abort,
            ),
            (ListenerState::Bound { next_universe }, EventView::JoinSucceeded) => self.after_join(
                s,
                next_universe,
                now,
            ),
            (
                ListenerState::Bound { next_universe },
                EventView::JoinFailed(reason),
            ) => self.after_join(
                s.add_log(
                    log_line(now, LogLevel::Warning, join_failed_message(next_universe, reason)),
                ),
                next_universe,
                now,
            ),
            (ListenerState::Listening, EventView::Datagram { sender, payload }) => (
                self,
                receive(s, sender, payload, now),
                ListenerAction::Receive { max_len: RECEIVE_BUFFER_LEN },
            ),
            (ListenerState::Listening, EventView::ReceiveFailed(reason)) => (
                ListenerView { state: ListenerState::Backoff, ..self },
                s.add_log(log_line(now, LogLevel::Error, receive_failed_message(reason))),
                ListenerAction::Sleep { millis: BACKOFF_MILLIS },
            ),
            (ListenerState::Backoff, EventView::BackoffElapsed) => (
                ListenerView { state: ListenerState::Listening, ..self },
                s,
                ListenerAction::Receive { max_len: RECEIVE_BUFFER_LEN },
            ),
            (ListenerState::Failed, EventView::Shutdown) => (self, s, ListenerAction::Nothing),
            (ListenerState::Stopped, EventView::Shutdown) => (self, s, ListenerAction::Nothing),
            (_, EventView::Shutdown) => (
                ListenerView { state: ListenerState::Stopped, ..self },
                s,
                ListenerAction::Close,
            ),
            _ => (self, s, ListenerAction::Nothing),
        }
    }
}

impl Listener {
    /// Whether the listener is as every step leaves it.
    pub open spec fn wf(&self) -> bool {
        self@.wf()
    }

    /// An idle listener.
    pub fn new() -> (listener: Listener)
        ensures
            listener.wf(),
            listener@ == (ListenerView {
                state: ListenerState::Idle,
                bind_ip: IpAddress::unspecified(),
            }),
    {
        Listener { state: ListenerState::Idle, bind_ip: IpAddress::V4(0, 0, 0, 0) }
    }

    /// Where the listener stands.
    pub fn state(&self) -> (state: ListenerState)
        ensures
            state == self@.state,
    {
        self.state
    }

    /// The address that the listener binds to.
    pub fn bind_ip(&self) -> (ip: IpAddress)
        ensures
            ip == self@.bind_ip,
    {
        self.bind_ip
    }

    /// Moves on after the group of `universe` has been tried.
    fn advance(&mut self, store: &mut AppState, universe: u16, now: Timestamp) -> (action:
        ListenerAction)
        requires
            old(store).wf(),
            valid_universe(universe),
        ensures
            final(store).wf(),
            final(self).wf(),
            (final(self)@, final(store)@, action) == old(self)@.after_join(
                old(store)@,
                universe,
                now,
            ),
    {
        if universe >= MAX_UNIVERSE {
            self.state = ListenerState::Listening;
            let message = concat3(
                "sACN listener started on ",
                self.bind_ip.to_text().as_str(),
                concat2(" port ", decimal_string(ACN_SDT_MULTICAST_PORT as u64).as_str()).as_str(),
            );
            assert(message@ =~= listening_message(self.bind_ip));
            store.add_log_at(LogLevel::Info, message, now);
            ListenerAction::Receive { max_len: RECEIVE_BUFFER_LEN }
        } else {
            self.state = ListenerState::Bound { next_universe: universe + 1 };
            ListenerAction::Join { group: universe_to_multicast(universe + 1) }
        }
    }

    /// Takes note of what happened at the socket at `now`, brings the
    /// store up to date and says what is to be done next.
    pub fn step(&mut self, store: &mut AppState, event: ListenerEvent, now: Timestamp) -> (action:
        ListenerAction)
        requires
            old(self).wf(),
            old(store).wf(),
        ensures
            final(self).wf(),
            final(store).wf(),
            (final(self)@, final(store)@, action) == old(self)@.step(old(store)@, event@, now),
    {
        match (self.state, event) {
            (ListenerState::Idle, ListenerEvent::Start) => {
                let ip = store.bind_address();
                self.bind_ip = ip;
                ListenerAction::Bind { ip, port: ACN_SDT_MULTICAST_PORT }
            },
            (ListenerState::Idle, ListenerEvent::BindSucceeded) => {
                self.state = ListenerState::Bound { next_universe: MIN_UNIVERSE };
                let message = concat2(
                    "sACN receiver created on ",
                    self.bind_ip.to_socket_text(ACN_SDT_MULTICAST_PORT).as_str(),
                );
                store.add_log_at(LogLevel::Info, message, now);
                ListenerAction::Join { group: universe_to_multicast(MIN_UNIVERSE) }
            },
            (ListenerState::Idle, ListenerEvent::BindFailed(reason)) => {
                self.state = ListenerState::Failed;
                let message = concat2("Failed to create sACN receiver: ", reason.as_str());
                store.add_log_at(LogLevel::Error, message, now);
                ListenerAction::Abort
            },
            (ListenerState::Bound { next_universe }, ListenerEvent::JoinSucceeded) => {
                self.advance(store, next_universe, now)
            },
            (ListenerState::Bound { next_universe }, ListenerEvent::JoinFailed(reason)) => {
                let message = concat3(
                    "Failed to join the group of universe ",
                    decimal_string(next_universe as u64).as_str(),
                    concat2(": ", reason.as_str()).as_str(),
                );
                assert(message@ =~= join_failed_message(next_universe, reason@));
                store.add_log_at(LogLevel::Warning, message, now);
                self.advance(store, next_universe, now)
            },
            (ListenerState::Listening, ListenerEvent::Datagram { sender, payload }) => {
                store.receive_datagram(sender, payload.as_slice(), now);
                ListenerAction::Receive { max_len: RECEIVE_BUFFER_LEN }
            },
            (ListenerState::Listening, ListenerEvent::ReceiveFailed(reason)) => {
                self.state = ListenerState::Backoff;
                let message = concat2("sACN receive error: ", reason.as_str());
                store.add_log_at(LogLevel::Error, message, now);
                ListenerAction::Sleep { millis: BACKOFF_MILLIS }
            },
            (ListenerState::Backoff, ListenerEvent::BackoffElapsed) => {
                self.state = ListenerState::Listening;
                ListenerAction::Receive { max_len: RECEIVE_BUFFER_LEN }
            },
            (ListenerState::Failed, ListenerEvent::Shutdown) => ListenerAction::Nothing,
            (ListenerState::Stopped, ListenerEvent::Shutdown) => ListenerAction::Nothing,
            (_, ListenerEvent::Shutdown) => {
                self.state = ListenerState::Stopped;
                ListenerAction::Close
            },
            _ => ListenerAction::Nothing,
        }
    }
}

/// A datagram leaves the store well formed, whatever it holds. A packet
/// that is taken stands in both tables afterwards: its sender among the
/// sources with the packet's universe, and the packet's channels as the
/// snapshot of that universe. A datagram that is dropped changes neither
/// table.
pub proof fn lemma_receive(s: AppStateView, sender: IpAddress, datagram: Seq<u8>, now: Timestamp)
    requires
        s.wf(),
    ensures
        receive(s, sender, datagram, now).wf(),
        received(datagram) matches Received::Accepted { universe } ==> {
            let t = receive(s, sender, datagram, now);
            let packet = parse_spec(datagram)->Ok_0;
            &&& t.device(sender) is Some
            &&& t.device(sender)->0.universes.contains(universe)
            &&& t.device(sender)->0.source_name == packet.source_name
            &&& t.device(sender)->0.priority == packet.priority
            &&& t.universes.contains_key(universe)
            &&& t.universes[universe].channels == packet.channels
            &&& t.universes[universe].source_ip == sender
            &&& t.universes[universe].sequence == packet.sequence
        },
        !(received(datagram) is Accepted) ==> {
            let t = receive(s, sender, datagram, now);
            &&& t.devices == s.devices
            &&& t.universes == s.universes
        },
{
    match parse_spec(datagram) {
        Err(e) => {},
        Ok(packet) => {
            if valid_universe(packet.universe) && valid_priority(packet.priority) {
                let logged = s.add_log(
                    log_line(now, LogLevel::Rx, received_message(packet.universe)),
                );
                lemma_update_device(
                    logged,
                    sender,
                    packet.universe,
                    packet.source_name,
                    packet.priority,
                    now,
                );
                let known = logged.update_device(
                    sender,
                    packet.universe,
                    packet.source_name,
                    packet.priority,
                    now,
                );
                lemma_update_universe(
                    known,
                    UniverseView {
                        universe: packet.universe,
                        channels: packet.channels,
                        last_updated: now,
                        source_ip: sender,
                        sequence: packet.sequence,
                    },
                );
            }
        },
    }
}

/// A datagram that was built for a valid universe with a valid priority is
/// taken when it comes in: the store then holds, under that universe, the
/// channels and the sequence number that it was built from, and the sender
/// among the sources with that universe and that priority.
pub proof fn lemma_receive_built(
    s: AppStateView,
    sender: IpAddress,
    universe: u16,
    channels: Seq<u8>,
    name: Seq<u8>,
    priority: u8,
    sequence: u8,
    cid: Seq<u8>,
    now: Timestamp,
)
    requires
        s.wf(),
        valid_universe(universe),
        valid_priority(priority),
        channels.len() == CHANNEL_COUNT,
        cid.len() == CID_LEN,
    ensures
        ({
            let datagram = build_spec(universe, channels, name, priority, sequence, cid);
            let t = receive(s, sender, datagram, now);
            &&& received(datagram) == Received::Accepted { universe }
            &&& t.wf()
            &&& t.universes.contains_key(universe)
            &&& t.universes[universe].universe == universe
            &&& t.universes[universe].channels == channels
            &&& t.universes[universe].sequence == sequence
            &&& t.universes[universe].source_ip == sender
            &&& t.device(sender) is Some
            &&& t.device(sender)->0.universes.contains(universe)
            &&& t.device(sender)->0.priority == priority
        }),
{
    let datagram = build_spec(universe, channels, name, priority, sequence, cid);
    lemma_parse_build_round_trip(universe, channels, name, priority, sequence, cid);
    lemma_receive(s, sender, datagram, now);
}

/// Every step leaves listener and store well formed. A listener that has
/// ended stays as it is, and one that receives or waits leaves that only
/// when it is told to stop: no datagram and no failed receive ends it. The
/// one way to fail is a socket that cannot be bound.
pub proof fn lemma_step(l: ListenerView, s: AppStateView, event: EventView, now: Timestamp)
    requires
        l.wf(),
        s.wf(),
    ensures
        l.step(s, event, now).0.wf(),
        l.step(s, event, now).1.wf(),
        l.is_terminal() ==> l.step(s, event, now).0 == l && l.step(s, event, now).1 == s,
        (l.state is Listening || l.state is Backoff) && !(event is Shutdown) ==> {
            let next = l.step(s, event, now).0.state;
            next is Listening || next is Backoff
        },
        l.step(s, event, now).0.state is Failed ==> l.state is Failed || (l.state is Idle
            && event is BindFailed),
{
    match (l.state, event) {
        (ListenerState::Listening, EventView::Datagram { sender, payload }) => {
            lemma_receive(s, sender, payload, now);
        },
        _ => {},
    }
}

} // verus!
