//! The sending side: the datagram for one universe and where it goes, and
//! what the store notes of a send.
//!
//! The sender touches no socket: it hands out the datagram with its
//! destination, and is told afterwards how the send went.

use crate::clock::Timestamp;
use crate::codec::{build, build_spec};
use crate::listener::log_line;
use crate::model::LogLevel;
use crate::net::{
    multicast_group, universe_to_multicast, valid_universe, IpAddress, ACN_SDT_MULTICAST_PORT,
};
use crate::state::{AppState, AppStateView};
use crate::text::{concat2, concat3, decimal, decimal_string};
use std::collections::HashMap;
use vstd::prelude::*;
use vstd::string::StringSliceAdditionalSpecFns;

verus! {

broadcast use vstd::std_specs::hash::group_hash_axioms;

/// The priority of every packet that is sent.
pub const DEFAULT_PRIORITY: u8 = 100;

/// The name under which packets are sent.
pub const SOURCE_NAME: &'static str = "sACN Viewer";

/// The part of the socket work that failed.
#[derive(Clone, Copy, Debug, PartialEq, Eq, Structural)]
pub enum SocketErrorKind {
    Bind,
    Join,
    Send,
    Receive,
}

/// A failure at the socket, with its words.
#[derive(Clone, Debug)]
pub struct SocketError {
    pub kind: SocketErrorKind,
    pub message: String,
}

/// The mathematical value of a `SocketError`.
pub struct SocketErrorView {
    pub kind: SocketErrorKind,
    pub message: Seq<char>,
}

impl View for SocketError {
    type V = SocketErrorView;

    open spec fn view(&self) -> SocketErrorView {
        SocketErrorView { kind: self.kind, message: self.message@ }
    }
}

/// A datagram that is ready to go, and where it goes.
#[derive(Clone, Debug)]
pub struct Outgoing {
    pub destination: IpAddress,
    pub port: u16,
    pub payload: Vec<u8>,
}

/// The mathematical value of an `Outgoing`.
pub struct OutgoingView {
    pub destination: IpAddress,
    pub port: u16,
    pub payload: Seq<u8>,
}

impl View for Outgoing {
    type V = OutgoingView;

    open spec fn view(&self) -> OutgoingView {
        OutgoingView { destination: self.destination, port: self.port, payload: self.payload@ }
    }
}

/// One source of packets: its correlation identifier, which it keeps for
/// as long as it lives, and the sequence number that it last used for each
/// universe.
#[derive(Debug)]
pub struct Sender {
    cid: [u8; 16],
    sequences: HashMap<u16, u8>,
}

/// The mathematical value of a `Sender`.
pub struct SenderView {
    pub cid: Seq<u8>,
    pub sequences: Map<u16, u8>,
}

impl View for Sender {
    type V = SenderView;

    closed spec fn view(&self) -> SenderView {
        SenderView { cid: self.cid@, sequences: self.sequences@ }
    }
}

impl SenderView {
    /// The sequence number of the next packet for `universe`: 0 for the
    /// first, then one more each time, and 0 again after 255.
    pub open spec fn next_sequence(self, universe: u16) -> u8 {
        if self.sequences.contains_key(universe) {
            ((self.sequences[universe] + 1) % 256) as u8
        } else {
            0
        }
    }

    /// The next datagram for `universe` with its destination: the packet
    /// of these channels under the sender's name, priority and
    /// correlation identifier, for the port of the protocol at the
    /// multicast group of the universe.
    pub open spec fn datagram(self, universe: u16, channels: Seq<u8>) -> OutgoingView {
        OutgoingView {
            destination: multicast_group(universe),
            port: ACN_SDT_MULTICAST_PORT,
            payload: build_spec(
                universe,
                channels,
                SOURCE_NAME.spec_bytes(),
                DEFAULT_PRIORITY,
                self.next_sequence(universe),
                self.cid,
            ),
        }
    }

    /// The sender after it has handed out a datagram for `universe`.
    pub open spec fn after_datagram(self, universe: u16) -> SenderView {
        SenderView {
            sequences: self.sequences.insert(universe, self.next_sequence(universe)),
            ..self
        }
    }
}

impl Sender {
    /// A sender with the given correlation identifier that has sent
    /// nothing yet.
    pub fn new(cid: [u8; 16]) -> (sender: Sender)
        ensures
            sender@ == (SenderView { cid: cid@, sequences: Map::empty() }),
    {
        Sender { cid, sequences: HashMap::new() }
    }

    /// The correlation identifier of this sender.
    pub fn cid(&self) -> (cid: [u8; 16])
        ensures
            cid@ == self@.cid,
    {
        self.cid
    }

    /// Hands out the next datagram for `universe` and counts it.
    pub fn prepare(&mut self, universe: u16, channels: &[u8; 512]) -> (outgoing: Outgoing)
        requires
            valid_universe(universe),
        ensures
            outgoing@ == old(self)@.datagram(universe, channels@),
            final(self)@ == old(self)@.after_datagram(universe),
    {
        let sequence: u8 = match self.sequences.get(&universe) {
            Some(last) => if *last == 255 {
                0
            } else {
                *last + 1
            },
            None => 0,
        };
        let payload = build(
            universe,
            channels,
            SOURCE_NAME,
            DEFAULT_PRIORITY,
            sequence,
            &self.cid,
        );
        self.sequences.insert(universe, sequence);
        Outgoing {
            destination: universe_to_multicast(universe),
            port: ACN_SDT_MULTICAST_PORT,
            payload,
        }
    }
}

/// The words of the log line for a packet that was sent.
pub open spec fn sent_message(universe: u16) -> Seq<char> {
    "Sent DMX data to universe "@ + decimal(universe as nat) + ": 512 channels"@
}

/// The words of the log line for a send that failed.
pub open spec fn send_failed_message(reason: Seq<char>) -> Seq<char> {
    "Failed to send DMX data: "@ + reason
}

/// The store after a send for `universe` at `now`: one more log line, for
/// the packet that went out or for the failure with its reason.
pub open spec fn note_send(
    s: AppStateView,
    universe: u16,
    outcome: Result<(), Seq<char>>,
    now: Timestamp,
) -> AppStateView {
    match outcome {
        Ok(_) => s.add_log(log_line(now, LogLevel::Tx, sent_message(universe))),
        Err(reason) => s.add_log(log_line(now, LogLevel::Error, send_failed_message(reason))),
    }
}

/// The value of how a send went.
pub open spec fn outcome_view(outcome: Result<(), String>) -> Result<(), Seq<char>> {
    match outcome {
        Ok(_) => Ok(()),
        Err(reason) => Err(reason@),
    }
}

impl AppState {
    /// Notes at `now` how the send for `universe` went, and hands a
    /// failure on to the caller: a send that failed is never passed over.
    pub fn record_send(
        &mut self,
        universe: u16,
        outcome: Result<(), String>,
        now: Timestamp,
    ) -> (result: Result<(), SocketError>)
        requires
            old(self).wf(),
        ensures
            final(self).wf(),
            final(self)@ == note_send(old(self)@, universe, outcome_view(outcome), now),
            match result {
                Ok(_) => outcome is Ok,
                Err(error) => outcome is Err && error@ == (SocketErrorView {
                    kind: SocketErrorKind::Send,
                    message: send_failed_message(outcome->Err_0@),
                }),
            },
    {
        match outcome {
            Ok(_) => {
                let message = concat3(
                    "Sent DMX data to universe ",
                    decimal_string(universe as u64).as_str(),
                    ": 512 channels",
                );
                self.add_log_at(LogLevel::Tx, message, now);
                Ok(())
            },
            Err(reason) => {
                let message = concat2("Failed to send DMX data: ", reason.as_str());
                let words = message.clone();
                self.add_log_at(LogLevel::Error, message, now);
                Err(SocketError { kind: SocketErrorKind::Send, message: words })
            },
        }
    }
}

/// Each packet of a universe has the number that follows that of the
/// last, 0 following 255, and the numbers of other universes are left
/// alone.
pub proof fn lemma_sequence_follows(s: SenderView, universe: u16)
    ensures
        s.after_datagram(universe).sequences[universe] == s.next_sequence(universe),
        s.after_datagram(universe).next_sequence(universe) == (s.next_sequence(universe) + 1) % 256,
        forall|other: u16|
            other != universe ==> s.after_datagram(universe).next_sequence(other)
                == #[trigger] s.next_sequence(other),
{
}

} // verus!
