//! Game lobby for discovering relays and games: the games and relays known
//! (each once), the direct connect address, and the actions the lobby
//! offers for them.
//!
//! Peer ids and multiaddresses are held as their text; drawing the lobby
//! is done by the application.
use crate::chars::{chars_of, last_bytes, prefix_for_bytes, string_of, suffix_for_bytes, take_bytes, utf8_len};
use crate::clock::instant_now;
use crate::keyed::{keyed_map, keys_distinct, lemma_keyed_map_dom, lemma_keyed_map_push, lemma_keyed_map_update};
use crate::text::{decimal, decimal_string, push_decimal};
use std::time::Instant;
use vstd::prelude::*;
use vstd::string::StringExecFns;

verus! {

/// A game offered in the lobby.
pub struct GameListing {
    pub game_id: String,
    /// The host's peer id.
    pub host: String,
    pub players: Vec<String>,
    pub board_size: u8,
    pub time_control: String,
    pub created_at: Instant,
}

/// What the lobby keeps of a game.
pub struct ListingView {
    pub game_id: Seq<char>,
    pub host: Seq<char>,
    pub players: Seq<Seq<char>>,
    pub board_size: u8,
    pub time_control: Seq<char>,
}

impl View for GameListing {
    type V = ListingView;

    open spec fn view(&self) -> ListingView {
        ListingView {
            game_id: self.game_id@,
            host: self.host@,
            players: self.players@.map_values(|p: String| p@),
            board_size: self.board_size,
            time_control: self.time_control@,
        }
    }
}

/// A relay seen online.
pub struct RelayInfo {
    pub peer_id: String,
    pub addresses: Vec<String>,
    pub last_seen: Instant,
    pub connection_type: String,
    pub latency_ms: Option<u64>,
}

/// What the lobby keeps of a relay.
pub struct RelayView {
    pub peer_id: Seq<char>,
    pub addresses: Seq<Seq<char>>,
    pub connection_type: Seq<char>,
    pub latency_ms: Option<u64>,
}

impl View for RelayInfo {
    type V = RelayView;

    open spec fn view(&self) -> RelayView {
        RelayView {
            peer_id: self.peer_id@,
            addresses: self.addresses@.map_values(|a: String| a@),
            connection_type: self.connection_type@,
            latency_ms: self.latency_ms,
        }
    }
}

/// What the lobby asks of the application.
#[derive(Debug, Clone)]
pub enum LobbyAction {
    Refresh,
    DirectConnect(String),
    ConnectToPeer(String),
    CreateGame,
    JoinGame(String),
    SpectateGame(String),
}

/// Game lobby for discovering other relays and games.
pub struct GameLobby {
    games: Vec<GameListing>,
    relays: Vec<(String, RelayInfo)>,
    direct_connect_addr: String,
    status: String,
    last_refresh: Instant,
}

/// Abstract state of the lobby: the games and relays, each with its key.
pub struct LobbyView {
    pub games: Seq<(Seq<char>, ListingView)>,
    pub relays: Seq<(Seq<char>, RelayView)>,
    pub direct_connect_addr: Seq<char>,
    pub status: Seq<char>,
}

impl View for GameLobby {
    type V = LobbyView;

    closed spec fn view(&self) -> LobbyView {
        LobbyView {
            games: self.games@.map_values(|g: GameListing| (g.game_id@, g@)),
            relays: self.relays@.map_values(|r: (String, RelayInfo)| (r.0@, r.1@)),
            direct_connect_addr: self.direct_connect_addr@,
            status: self.status@,
        }
    }
}

impl GameLobby {
    /// Each game and each relay is listed once.
    pub closed spec fn wf(&self) -> bool {
        keys_distinct(self@.games) && keys_distinct(self@.relays)
    }

    /// An empty lobby searching for games.
    pub fn new() -> (l: Self)
        ensures
            l.wf(),
            l@.games == Seq::<(Seq<char>, ListingView)>::empty(),
            l@.relays == Seq::<(Seq<char>, RelayView)>::empty(),
            l@.direct_connect_addr == Seq::<char>::empty(),
            l@.status == "Searching for games..."@,
    {
        proof {
            reveal_strlit("Searching for games...");
        }
        let l = GameLobby {
            games: Vec::new(),
            relays: Vec::new(),
            direct_connect_addr: String::new(),
            status: String::from_str("Searching for games..."),
            last_refresh: instant_now(),
        };
        assert(l@.games =~= Seq::<(Seq<char>, ListingView)>::empty());
        assert(l@.relays =~= Seq::<(Seq<char>, RelayView)>::empty());
        l
    }

    /// Record relay `peer_id`, replacing what was known of it.
    pub fn update_relay(&mut self, peer_id: String, info: RelayInfo)
        requires
            old(self).wf(),
        ensures
            final(self).wf(),
            keyed_map(final(self)@.relays) == keyed_map(old(self)@.relays).insert(peer_id@, info@),
            final(self)@ == (LobbyView { relays: final(self)@.relays, ..old(self)@ }),
            final(self).refreshed_at() == old(self).refreshed_at(),
    {
        let ghost rs = self@.relays;
        let ghost x = (peer_id@, info@);
        let mut i: usize = 0;
        let mut found: Option<usize> = None;
        while i < self.relays.len()
            invariant_except_break
                found is None,
                forall|j: int| 0 <= j < i ==> #[trigger] rs[j].0 != peer_id@,
            invariant
                0 <= i <= self.relays@.len(),
                rs == self@.relays,
            ensures
                found matches Some(k) ==> k < rs.len() && rs[k as int].0 == peer_id@,
                found is None ==> forall|j: int| 0 <= j < rs.len() ==> #[trigger] rs[j].0 != peer_id@,
            decreases self.relays@.len() - i,
        {
            if self.relays[i].0 == peer_id {
                found = Some(i);
                break;
            }
            i += 1;
        }
        proof {
            lemma_keyed_map_dom(rs, x.0);
        }
        match found {
            Some(k) => {
                assert(rs[k as int].0 == peer_id@);
                self.relays.set(k, (peer_id, info));
                proof {
                    assert(self@.relays =~= rs.update(k as int, x));
                    lemma_keyed_map_update(rs, k as int, x);
                }
            },
            None => {
                self.relays.push((peer_id, info));
                proof {
                    assert(self@.relays =~= rs.push(x));
                    lemma_keyed_map_push(rs, x);
                }
            },
        }
    }

    /// Record `game`, replacing the listing with its id.
    pub fn update_game(&mut self, game: GameListing)
        requires
            old(self).wf(),
        ensures
            final(self).wf(),
            keyed_map(final(self)@.games) == keyed_map(old(self)@.games).insert(game.game_id@, game@),
            final(self)@ == (LobbyView { games: final(self)@.games, ..old(self)@ }),
            final(self).refreshed_at() == old(self).refreshed_at(),
    {
        let ghost gs = self@.games;
        let ghost x = (game.game_id@, game@);
        let mut i: usize = 0;
        let mut found: Option<usize> = None;
        while i < self.games.len()
            invariant_except_break
                found is None,
                forall|j: int| 0 <= j < i ==> #[trigger] gs[j].0 != game.game_id@,
            invariant
                0 <= i <= self.games@.len(),
                gs == self@.games,
            ensures
                found matches Some(k) ==> k < gs.len() && gs[k as int].0 == game.game_id@,
                found is None ==> forall|j: int| 0 <= j < gs.len() ==> #[trigger] gs[j].0 != game.game_id@,
            decreases self.games@.len() - i,
        {
            if self.games[i].game_id == game.game_id {
                found = Some(i);
                break;
            }
            i += 1;
        }
        match found {
            Some(k) => {
                assert(gs[k as int].0 == game.game_id@);
                self.games.set(k, game);
                proof {
                    assert(self@.games =~= gs.update(k as int, x));
                    lemma_keyed_map_update(gs, k as int, x);
                }
            },
            None => {
                self.games.push(game);
                proof {
                    assert(self@.games =~= gs.push(x));
                    lemma_keyed_map_push(gs, x);
                }
            },
        }
    }

    /// The games listed.
    pub fn games(&self) -> (v: &Vec<GameListing>)
        ensures
            v@.map_values(|g: GameListing| (g.game_id@, g@)) == self@.games,
    {
        &self.games
    }

    /// The relays listed, each with its peer id.
    pub fn relays(&self) -> (v: &Vec<(String, RelayInfo)>)
        ensures
            v@.map_values(|r: (String, RelayInfo)| (r.0@, r.1@)) == self@.relays,
    {
        &self.relays
    }

    /// The status line.
    pub fn status(&self) -> (s: &str)
        ensures
            s@ == self@.status,
    {
        self.status.as_str()
    }

    /// When the lobby was last refreshed: the clock reading taken at
    /// construction or at the latest `refresh`.
    pub closed spec fn refreshed_at(&self) -> Instant {
        self.last_refresh
    }

    /// When the lobby was last refreshed.
    pub fn last_refresh(&self) -> (t: &Instant)
        ensures
            *t == self.refreshed_at(),
    {
        &self.last_refresh
    }

    /// Refresh the lobby now.
    pub fn refresh(&mut self) -> (a: LobbyAction)
        ensures
            final(self)@ == old(self)@,
            final(self).wf() == old(self).wf(),
            a is Refresh,
    {
        self.last_refresh = instant_now();
        LobbyAction::Refresh
    }

    /// The address typed for a direct connection.
    pub fn direct_connect_addr(&self) -> (s: &String)
        ensures
            s@ == self@.direct_connect_addr,
    {
        &self.direct_connect_addr
    }

    /// Replace the address typed for a direct connection.
    pub fn set_direct_connect_addr(&mut self, addr: String)
        ensures
            final(self)@ == (LobbyView { direct_connect_addr: addr@, ..old(self)@ }),
            final(self).wf() == old(self).wf(),
            final(self).refreshed_at() == old(self).refreshed_at(),
    {
        self.direct_connect_addr = addr;
    }

    /// Connect directly to the typed address, if one was typed.
    pub fn direct_connect(&self) -> (a: Option<LobbyAction>)
        ensures
            self@.direct_connect_addr.len() == 0 ==> a is None,
            self@.direct_connect_addr.len() > 0 ==> (a matches Some(LobbyAction::DirectConnect(s))
                && s@ == self@.direct_connect_addr),
    {
        if self.direct_connect_addr.as_str().is_empty() {
            None
        } else {
            Some(LobbyAction::DirectConnect(self.direct_connect_addr.clone()))
        }
    }

    /// Creating a game is offered while no game is listed.
    pub fn create_game(&self) -> (a: Option<LobbyAction>)
        ensures
            self@.games.len() == 0 ==> a matches Some(LobbyAction::CreateGame),
            self@.games.len() > 0 ==> a is None,
    {
        if self.games.len() == 0 {
            Some(LobbyAction::CreateGame)
        } else {
            None
        }
    }
}

/// A game with fewer than two players can be joined; others can be
/// watched.
pub open spec fn joinable(g: ListingView) -> bool {
    g.players.len() < 2
}

/// The button offered for a listed game.
pub fn game_button_label(game: &GameListing) -> (s: &'static str)
    ensures
        s@ == if joinable(game@) {
            "Join"@
        } else {
            "Spectate"@
        },
{
    proof {
        reveal_strlit("Join");
        reveal_strlit("Spectate");
    }
    if game.players.len() < 2 {
        "Join"
    } else {
        "Spectate"
    }
}

/// The action of the button offered for a listed game.
pub fn game_action(game: &GameListing) -> (a: LobbyAction)
    ensures
        joinable(game@) ==> (a matches LobbyAction::JoinGame(id) && id@ == game.game_id@),
        !joinable(game@) ==> (a matches LobbyAction::SpectateGame(id) && id@ == game.game_id@),
{
    if game.players.len() < 2 {
        LobbyAction::JoinGame(game.game_id.clone())
    } else {
        LobbyAction::SpectateGame(game.game_id.clone())
    }
}

/// The icon of a relay's connection type.
pub open spec fn relay_icon_for(t: Seq<char>) -> Seq<char> {
    if t == "Direct"@ {
        "🟢"@
    } else if t == "Relayed"@ {
        "🟡"@
    } else if t == "Local"@ {
        "🔵"@
    } else {
        "⚫"@
    }
}

/// The icon of a relay's connection type.
pub fn relay_icon(connection_type: &str) -> (s: &'static str)
    ensures
        s@ == relay_icon_for(connection_type@),
{
    proof {
        reveal_strlit("Direct");
        reveal_strlit("Relayed");
        reveal_strlit("Local");
        reveal_strlit("🟢");
        reveal_strlit("🟡");
        reveal_strlit("🔵");
        reveal_strlit("⚫");
    }
    let t = String::from_str(connection_type);
    if t == String::from_str("Direct") {
        "🟢"
    } else if t == String::from_str("Relayed") {
        "🟡"
    } else if t == String::from_str("Local") {
        "🔵"
    } else {
        "⚫"
    }
}

/// A relay's peer id as the lobby shows it: its first 8 and last 4 bytes
/// around an ellipsis.
pub open spec fn relay_id_text(p: Seq<char>) -> Seq<char> {
    take_bytes(p, 8) + "..."@ + last_bytes(p, 4)
}

/// The peer id can be cut into its first 8 and last 4 bytes: it has at
/// least 8 bytes, and neither cut splits a character.
pub open spec fn relay_id_cuttable(p: Seq<char>) -> bool {
    utf8_len(take_bytes(p, 8)) == 8 && utf8_len(last_bytes(p, 4)) == 4
}

/// A relay's peer id as the lobby shows it.
pub fn short_relay_id(peer_id: &str) -> (s: String)
    requires
        relay_id_cuttable(peer_id@),
    ensures
        s@ == relay_id_text(peer_id@),
{
    let v = chars_of(peer_id);
    let (k1, _) = prefix_for_bytes(&v, 8);
    let (k2, _) = suffix_for_bytes(&v, 4);
    let mut out = string_of(&v, 0, k1);
    out.append("...");
    let tail = string_of(&v, k2, v.len());
    out.append(tail.as_str());
    proof {
        reveal_strlit("...");
        assert(v@.subrange(0, k1 as int) =~= v@.take(k1 as int));
        assert(v@.subrange(k2 as int, v@.len() as int) =~= v@.skip(k2 as int));
    }
    out
}

/// The board size of a listing: `9x9`.
pub fn board_size_text(size: u8) -> (s: String)
    ensures
        s@ == decimal(size as nat) + "x"@ + decimal(size as nat),
{
    let mut s = decimal_string(size as u64);
    s.append("x");
    push_decimal(&mut s, size as u64);
    proof {
        reveal_strlit("x");
    }
    s
}

/// The number of players of a listing.
pub fn players_text(count: usize) -> (s: String)
    ensures
        s@ == decimal(count as nat) + " players"@,
{
    let mut s = decimal_string(count as u64);
    s.append(" players");
    proof {
        reveal_strlit(" players");
    }
    s
}

/// How long ago the lobby was refreshed, in whole seconds.
pub fn refresh_age_text(secs: u64) -> (s: String)
    ensures
        s@ == "Last refresh: "@ + decimal(secs as nat) + "s ago"@,
{
    let mut s = String::from_str("Last refresh: ");
    push_decimal(&mut s, secs);
    s.append("s ago");
    proof {
        reveal_strlit("Last refresh: ");
        reveal_strlit("s ago");
    }
    s
}

/// A relay's latency: milliseconds followed by `ms`.
pub fn latency_text(ms: u64) -> (s: String)
    ensures
        s@ == decimal(ms as nat) + "ms"@,
{
    let mut s = decimal_string(ms);
    s.append("ms");
    proof {
        reveal_strlit("ms");
    }
    s
}

/// Listing a game again replaces its earlier listing: only the last one
/// counts.
pub proof fn lemma_relist_replaces(
    games: Seq<(Seq<char>, ListingView)>,
    id: Seq<char>,
    first: ListingView,
    second: ListingView,
)
    ensures
        keyed_map(games).insert(id, first).insert(id, second) == keyed_map(games).insert(id, second),
{
    assert(keyed_map(games).insert(id, first).insert(id, second) =~= keyed_map(games).insert(id, second));
}

} // verus!
