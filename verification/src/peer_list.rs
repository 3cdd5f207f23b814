//! The list of known peers and the text the peer panel shows for it.
use crate::text::{decimal, decimal_string};
use vstd::prelude::*;
use vstd::string::StringExecFns;

verus! {

/// A peer as the list shows it.
#[derive(Clone)]
pub struct PeerInfo {
    pub id: String,
    pub name: String,
    pub latency_ms: Option<u32>,
    pub connected: bool,
}

/// What the list keeps of a peer.
pub struct PeerView {
    pub id: Seq<char>,
    pub name: Seq<char>,
    pub latency_ms: Option<u32>,
    pub connected: bool,
}

impl View for PeerInfo {
    type V = PeerView;

    open spec fn view(&self) -> PeerView {
        PeerView {
            id: self.id@,
            name: self.name@,
            latency_ms: self.latency_ms,
            connected: self.connected,
        }
    }
}

/// The latency text of a peer: milliseconds followed by `ms`, when known.
pub open spec fn latency_label(p: PeerView) -> Option<Seq<char>> {
    match p.latency_ms {
        Some(l) => Some(decimal(l as nat) + "ms"@),
        None => None,
    }
}

impl PeerInfo {
    /// The latency text, when the latency is known.
    pub fn latency_text(&self) -> (t: Option<String>)
        ensures
            match t {
                Some(s) => latency_label(self@) == Some(s@),
                None => latency_label(self@) is None,
            },
    {
        match self.latency_ms {
            Some(l) => {
                let mut s = decimal_string(l as u64);
                s.append("ms");
                proof {
                    reveal_strlit("ms");
                }
                Some(s)
            },
            None => None,
        }
    }
}

/// Peer list display component.
pub struct PeerList {
    peers: Vec<PeerInfo>,
}

/// The heading of the list: the number of peers in brackets.
pub open spec fn peers_heading(n: nat) -> Seq<char> {
    "Connected Peers ("@ + decimal(n) + ")"@
}

impl PeerList {
    /// An empty list.
    pub fn new() -> (l: Self)
        ensures
            l.peers() == Seq::<PeerView>::empty(),
    {
        let l = PeerList { peers: Vec::new() };
        assert(l.peers() =~= Seq::<PeerView>::empty());
        l
    }

    /// The peers listed, in order.
    pub closed spec fn peers(&self) -> Seq<PeerView> {
        self.peers@.map_values(|p: PeerInfo| p@)
    }

    /// Replace the listed peers.
    pub fn update_peers(&mut self, peers: Vec<PeerInfo>)
        ensures
            final(self).peers() == peers@.map_values(|p: PeerInfo| p@),
    {
        self.peers = peers;
    }

    /// The peers listed, in order.
    pub fn peer_infos(&self) -> (v: &Vec<PeerInfo>)
        ensures
            v@.map_values(|p: PeerInfo| p@) == self.peers(),
    {
        &self.peers
    }

    /// The heading of the list.
    pub fn heading(&self) -> (s: String)
        ensures
            s@ == peers_heading(self.peers().len()),
    {
        let mut s = String::from_str("Connected Peers (");
        let n = decimal_string(self.peers.len() as u64);
        s.append(n.as_str());
        s.append(")");
        proof {
            reveal_strlit("Connected Peers (");
            reveal_strlit(")");
        }
        s
    }

    /// With no peers the list says so.
    pub fn is_empty(&self) -> (r: bool)
        ensures
            r == (self.peers().len() == 0),
    {
        self.peers.len() == 0
    }
}

} // verus!
