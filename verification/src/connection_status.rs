//! Connection status indicator: the state of the link to the relay network
//! and the icon, colour, label and tooltip it is shown with.
//!
//! The spinning animation of the connecting state is drawn by the
//! application.
use crate::chars::{chars_of, prefix_for_bytes, string_of, take_bytes, utf8_len};
use crate::text::{decimal, decimal_string};
use crate::clock::instant_now;
use std::time::Instant;
use vstd::prelude::*;
use vstd::string::StringExecFns;

verus! {

/// State of the connection to the network.
#[derive(Debug, Clone, PartialEq)]
pub enum ConnectionState {
    /// Fully connected to the relay network.
    Connected { relay_count: usize },
    /// Attempting to connect.
    Connecting,
    /// No network connection.
    Disconnected,
    /// Direct peer-to-peer connection established.
    DirectP2P { peer_id: String },
}

/// The icon of a state.
pub open spec fn state_icon(s: ConnectionState) -> Seq<char> {
    match s {
        ConnectionState::Connected { .. } => "●"@,
        ConnectionState::Connecting => "◐"@,
        ConnectionState::Disconnected => "○"@,
        ConnectionState::DirectP2P { .. } => "⟷"@,
    }
}

/// The colour of a state, as red, green and blue.
pub open spec fn state_rgb(s: ConnectionState) -> (u8, u8, u8) {
    match s {
        ConnectionState::Connected { .. } => (34, 197, 94),
        ConnectionState::Connecting => (251, 146, 60),
        ConnectionState::Disconnected => (239, 68, 68),
        ConnectionState::DirectP2P { .. } => (59, 130, 246),
    }
}

/// The label of a state: relays counted with a plural when not one, and a
/// direct peer named by the first 8 bytes of its id.
pub open spec fn state_label(s: ConnectionState) -> Seq<char> {
    match s {
        ConnectionState::Connected { relay_count } => "Connected to "@ + decimal(relay_count as nat)
            + " relay"@ + if relay_count == 1 {
            Seq::empty()
        } else {
            "s"@
        },
        ConnectionState::Connecting => "Connecting..."@,
        ConnectionState::Disconnected => "No connection"@,
        ConnectionState::DirectP2P { peer_id } => "Direct P2P with "@ + take_bytes(peer_id@, 8),
    }
}

/// The label of `s` can be made: a direct peer's id has at least 8 bytes,
/// and its eighth byte ends a character.
pub open spec fn label_defined(s: ConnectionState) -> bool {
    match s {
        ConnectionState::DirectP2P { peer_id } => utf8_len(take_bytes(peer_id@, 8)) == 8,
        _ => true,
    }
}

/// The tooltip of a state.
pub open spec fn state_tooltip(s: ConnectionState) -> Seq<char> {
    match s {
        ConnectionState::Connected { relay_count } => "Network Status: Connected\nActive Relays: "@
            + decimal(relay_count as nat)
            + "\nConnection Type: Relay Network\n\nYou can create and join games."@,
        ConnectionState::Connecting =>
            "Network Status: Connecting\n\nEstablishing connection to relay network...\nThis may take a few seconds."@,
        ConnectionState::Disconnected =>
            "Network Status: Disconnected\n\nNo connection to relay network.\nCheck your internet connection and firewall settings."@,
        ConnectionState::DirectP2P { peer_id } => "Network Status: Direct P2P\nPeer ID: "@ + peer_id@
            + "\nConnection Type: Direct\n\nYou have a direct connection to your opponent.\nThis provides the best performance."@,
    }
}

impl ConnectionState {
    /// The icon shown for the state.
    pub fn icon(&self) -> (s: &'static str)
        ensures
            s@ == state_icon(*self),
    {
        proof {
            reveal_strlit("●");
            reveal_strlit("◐");
            reveal_strlit("○");
            reveal_strlit("⟷");
        }
        match self {
            ConnectionState::Connected { .. } => "●",
            ConnectionState::Connecting => "◐",
            ConnectionState::Disconnected => "○",
            ConnectionState::DirectP2P { .. } => "⟷",
        }
    }

    /// The colour of the state, as red, green and blue.
    pub fn color_rgb(&self) -> (c: (u8, u8, u8))
        ensures
            c == state_rgb(*self),
    {
        match self {
            ConnectionState::Connected { .. } => (34, 197, 94),
            ConnectionState::Connecting => (251, 146, 60),
            ConnectionState::Disconnected => (239, 68, 68),
            ConnectionState::DirectP2P { .. } => (59, 130, 246),
        }
    }

    /// The human-readable label.
    pub fn label(&self) -> (s: String)
        requires
            label_defined(*self),
        ensures
            s@ == state_label(*self),
    {
        match self {
            ConnectionState::Connected { relay_count } => {
                let mut s = String::from_str("Connected to ");
                let n = decimal_string(*relay_count as u64);
                s.append(n.as_str());
                s.append(" relay");
                if *relay_count != 1 {
                    s.append("s");
                }
                proof {
                    reveal_strlit("Connected to ");
                    reveal_strlit(" relay");
                    reveal_strlit("s");
                    if *relay_count == 1 {
                        assert(s@ =~= "Connected to "@ + decimal(*relay_count as nat) + " relay"@
                            + Seq::<char>::empty());
                    }
                }
                s
            },
            ConnectionState::Connecting => {
                proof {
                    reveal_strlit("Connecting...");
                }
                String::from_str("Connecting...")
            },
            ConnectionState::Disconnected => {
                proof {
                    reveal_strlit("No connection");
                }
                String::from_str("No connection")
            },
            ConnectionState::DirectP2P { peer_id } => {
                let v = chars_of(peer_id.as_str());
                let (k, _) = prefix_for_bytes(&v, 8);
                let head = string_of(&v, 0, k);
                let mut s = String::from_str("Direct P2P with ");
                s.append(head.as_str());
                proof {
                    reveal_strlit("Direct P2P with ");
                    assert(v@.subrange(0, k as int) =~= v@.take(k as int));
                }
                s
            },
        }
    }

    /// The detailed tooltip.
    pub fn tooltip(&self) -> (s: String)
        ensures
            s@ == state_tooltip(*self),
    {
        match self {
            ConnectionState::Connected { relay_count } => {
                let mut s = String::from_str("Network Status: Connected\nActive Relays: ");
                let n = decimal_string(*relay_count as u64);
                s.append(n.as_str());
                s.append("\nConnection Type: Relay Network\n\nYou can create and join games.");
                proof {
                    reveal_strlit("Network Status: Connected\nActive Relays: ");
                    reveal_strlit("\nConnection Type: Relay Network\n\nYou can create and join games.");
                }
                s
            },
            ConnectionState::Connecting => {
                proof {
                    reveal_strlit(
                        "Network Status: Connecting\n\nEstablishing connection to relay network...\nThis may take a few seconds.",
                    );
                }
                String::from_str(
                    "Network Status: Connecting\n\nEstablishing connection to relay network...\nThis may take a few seconds.",
                )
            },
            ConnectionState::Disconnected => {
                proof {
                    reveal_strlit(
                        "Network Status: Disconnected\n\nNo connection to relay network.\nCheck your internet connection and firewall settings.",
                    );
                }
                String::from_str(
                    "Network Status: Disconnected\n\nNo connection to relay network.\nCheck your internet connection and firewall settings.",
                )
            },
            ConnectionState::DirectP2P { peer_id } => {
                let mut s = String::from_str("Network Status: Direct P2P\nPeer ID: ");
                s.append(peer_id.as_str());
                s.append(
                    "\nConnection Type: Direct\n\nYou have a direct connection to your opponent.\nThis provides the best performance.",
                );
                proof {
                    reveal_strlit("Network Status: Direct P2P\nPeer ID: ");
                    reveal_strlit(
                        "\nConnection Type: Direct\n\nYou have a direct connection to your opponent.\nThis provides the best performance.",
                    );
                }
                s
            },
        }
    }
}

/// The state after a connection report: connected means one relay.
pub open spec fn after_connection_report(connected: bool) -> ConnectionState {
    if connected {
        ConnectionState::Connected { relay_count: 1 }
    } else {
        ConnectionState::Disconnected
    }
}

/// The state after a relay health report: acting as a relay means connected
/// to one relay; otherwise the state stays.
pub open spec fn after_relay_report(s: ConnectionState, is_relay_node: bool) -> ConnectionState {
    if is_relay_node {
        ConnectionState::Connected { relay_count: 1 }
    } else {
        s
    }
}

/// Connection status indicator that follows network reports.
pub struct ConnectionStatusWidget {
    state: ConnectionState,
    last_update: Instant,
}

impl ConnectionStatusWidget {
    /// Disconnected.
    pub fn new() -> (w: Self)
        ensures
            w.state() == ConnectionState::Disconnected,
    {
        ConnectionStatusWidget { state: ConnectionState::Disconnected, last_update: instant_now() }
    }

    /// The state shown.
    pub closed spec fn state(&self) -> ConnectionState {
        self.state
    }

    /// The state shown.
    pub fn current_state(&self) -> (s: &ConnectionState)
        ensures
            *s == self.state(),
    {
        &self.state
    }

    /// When the state was last reported: the clock reading taken at
    /// construction or at the latest report.
    pub closed spec fn updated_at(&self) -> Instant {
        self.last_update
    }

    /// When the state was last reported.
    pub fn last_update(&self) -> (t: &Instant)
        ensures
            *t == self.updated_at(),
    {
        &self.last_update
    }

    /// Follow a report that the connection is up or down.
    pub fn on_connection_status(&mut self, connected: bool)
        ensures
            final(self).state() == after_connection_report(connected),
    {
        if connected {
            self.state = ConnectionState::Connected { relay_count: 1 };
        } else {
            self.state = ConnectionState::Disconnected;
        }
        self.last_update = instant_now();
    }

    /// Follow a relay health report.
    pub fn on_relay_health(&mut self, is_relay_node: bool)
        ensures
            final(self).state() == after_relay_report(old(self).state(), is_relay_node),
    {
        if is_relay_node {
            self.state = ConnectionState::Connected { relay_count: 1 };
        }
        self.last_update = instant_now();
    }

    /// The connecting state is drawn with an animation in place of its icon.
    pub fn is_animated(&self) -> (r: bool)
        ensures
            r == (self.state() is Connecting),
    {
        match self.state {
            ConnectionState::Connecting => true,
            _ => false,
        }
    }
}

} // verus!
