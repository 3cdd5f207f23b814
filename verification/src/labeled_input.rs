//! Game codes and connection tickets: what the labelled identifier boxes
//! say about each kind of identifier.
//!
//! The boxes themselves are drawn by the application.
use vstd::prelude::*;
use vstd::string::StringExecFns;

verus! {

/// Type of identifier being displayed or entered.
#[derive(Debug, Clone, Copy, PartialEq, Eq, Structural)]
pub enum IdentifierType {
    GameCode,
    ConnectionTicket,
}

/// The icon of an identifier type.
pub open spec fn id_icon(t: IdentifierType) -> Seq<char> {
    match t {
        IdentifierType::GameCode => "🎮"@,
        IdentifierType::ConnectionTicket => "🔑"@,
    }
}

/// The label of an identifier type.
pub open spec fn id_label(t: IdentifierType) -> Seq<char> {
    match t {
        IdentifierType::GameCode => "Game Code"@,
        IdentifierType::ConnectionTicket => "Connection Ticket"@,
    }
}

/// The one-line description of an identifier type.
pub open spec fn id_description(t: IdentifierType) -> Seq<char> {
    match t {
        IdentifierType::GameCode => "Share this code with others to join your game"@,
        IdentifierType::ConnectionTicket => "Use this for direct peer-to-peer connection"@,
    }
}

/// The help text of an identifier type.
pub open spec fn id_help(t: IdentifierType) -> Seq<char> {
    match t {
        IdentifierType::GameCode =>
            "Game codes are short identifiers for joining games through the relay network. They are easier to share and work when both players are online."@,
        IdentifierType::ConnectionTicket =>
            "Connection tickets establish direct peer-to-peer connections. They are longer but provide better performance and work even without relays."@,
    }
}

impl IdentifierType {
    /// The icon shown before the label.
    pub fn icon(&self) -> (s: &'static str)
        ensures
            s@ == id_icon(*self),
    {
        proof {
            reveal_strlit("🎮");
            reveal_strlit("🔑");
        }
        match self {
            IdentifierType::GameCode => "🎮",
            IdentifierType::ConnectionTicket => "🔑",
        }
    }

    /// The label of the box.
    pub fn label(&self) -> (s: &'static str)
        ensures
            s@ == id_label(*self),
    {
        proof {
            reveal_strlit("Game Code");
            reveal_strlit("Connection Ticket");
        }
        match self {
            IdentifierType::GameCode => "Game Code",
            IdentifierType::ConnectionTicket => "Connection Ticket",
        }
    }

    /// The line under the value.
    pub fn description(&self) -> (s: &'static str)
        ensures
            s@ == id_description(*self),
    {
        proof {
            reveal_strlit("Share this code with others to join your game");
            reveal_strlit("Use this for direct peer-to-peer connection");
        }
        match self {
            IdentifierType::GameCode => "Share this code with others to join your game",
            IdentifierType::ConnectionTicket => "Use this for direct peer-to-peer connection",
        }
    }

    /// The text behind the information button.
    pub fn help_text(&self) -> (s: &'static str)
        ensures
            s@ == id_help(*self),
    {
        proof {
            reveal_strlit(
                "Game codes are short identifiers for joining games through the relay network. They are easier to share and work when both players are online.",
            );
            reveal_strlit(
                "Connection tickets establish direct peer-to-peer connections. They are longer but provide better performance and work even without relays.",
            );
        }
        match self {
            IdentifierType::GameCode =>
                "Game codes are short identifiers for joining games through the relay network. They are easier to share and work when both players are online.",
            IdentifierType::ConnectionTicket =>
                "Connection tickets establish direct peer-to-peer connections. They are longer but provide better performance and work even without relays.",
        }
    }

    /// Tickets get a dashed border, game codes a solid one.
    pub fn is_dashed(&self) -> (r: bool)
        ensures
            r == (*self == IdentifierType::ConnectionTicket),
    {
        match self {
            IdentifierType::GameCode => false,
            IdentifierType::ConnectionTicket => true,
        }
    }

    /// The hover text of a compact badge showing `value`.
    pub fn badge_hover_text(&self, value: &str) -> (s: String)
        ensures
            s@ == id_label(*self) + ": "@ + value@,
    {
        let mut s = String::from_str(self.label());
        s.append(": ");
        s.append(value);
        proof {
            reveal_strlit(": ");
        }
        s
    }
}

} // verus!
