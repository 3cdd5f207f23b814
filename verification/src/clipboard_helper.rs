//! Connection tickets: finding a ticket in pasted text, shortening peer
//! addresses for display, and deciding how a ticket is copied.
use crate::chars::{
    chars_of, contains, find, find_from, find_from_exec, is_ws, trim_end, trim_start, last_bytes, lemma_find_from_some,
    lemma_find_shift, lines, occurs_at, occurs_at_exec, prefix_for_bytes, rfind, rfind_exec,
    starts_with, string_of, strip_cr, sub_vec, suffix_for_bytes, take_bytes, trim, trim_bounds,
    utf8_len, utf8_len_exceeds,
};
use crate::network_events::{effects_of, toast, AppEffect, EffectView, ToastKind};
use vstd::prelude::*;
use vstd::string::StringExecFns;

verus! {

/// A character that can appear in a base64-encoded ticket.
pub open spec fn is_ticket_char(c: char) -> bool {
    ||| 'a' <= c <= 'z'
    ||| 'A' <= c <= 'Z'
    ||| '0' <= c <= '9'
    ||| c == '+'
    ||| c == '/'
    ||| c == '='
}

/// A trimmed line that is taken for an encoded ticket: more than 50 bytes,
/// all of them ticket characters.
pub open spec fn looks_like_ticket(l: Seq<char>) -> bool {
    utf8_len(l) > 50 && forall|i: int| 0 <= i < l.len() ==> is_ticket_char(#[trigger] l[i])
}

/// The first line that, trimmed, looks like a ticket; the trimmed line.
pub open spec fn first_ticket_line(ls: Seq<Seq<char>>) -> Option<Seq<char>>
    decreases ls.len(),
{
    if ls.len() == 0 {
        None
    } else if looks_like_ticket(trim(ls[0])) {
        Some(trim(ls[0]))
    } else {
        first_ticket_line(ls.drop_first())
    }
}

/// The marker line that opens a formatted ticket.
pub open spec fn start_marker() -> Seq<char> {
    "=== P2P GO TICKET ==="@
}

/// The marker line that closes a formatted ticket.
pub open spec fn end_marker() -> Seq<char> {
    "======================"@
}

/// Text that starts with `/` (after trimming) is a multiaddress: its first
/// line, when longer than 10 bytes.
pub open spec fn multiaddr_in(t: Seq<char>) -> Option<Seq<char>> {
    let tr = trim(t);
    if tr.len() > 0 && tr[0] == '/' {
        let l = if lines(tr).len() > 0 {
            lines(tr)[0]
        } else {
            tr
        };
        if utf8_len(l) > 10 {
            Some(l)
        } else {
            None
        }
    } else {
        None
    }
}

/// The trimmed text between the first start marker and the first end
/// marker, when both occur, the end marker does not begin before the start
/// marker is over, and the text between them is not empty.
pub open spec fn marked_ticket_in(t: Seq<char>) -> Option<Seq<char>> {
    match (find(t, start_marker()), find(t, end_marker())) {
        (Some(a), Some(b)) => {
            if a + 21 <= b {
                let inner = trim(t.subrange(a as int + 21, b as int));
                if inner.len() > 0 {
                    Some(inner)
                } else {
                    None
                }
            } else {
                None
            }
        },
        _ => None,
    }
}

/// The ticket found in `t`: a multiaddress, else the first line that looks
/// like an encoded ticket, else the text between the ticket markers.
pub open spec fn ticket_in(t: Seq<char>) -> Option<Seq<char>> {
    match multiaddr_in(t) {
        Some(m) => Some(m),
        None => match first_ticket_line(lines(t)) {
            Some(l) => Some(l),
            None => marked_ticket_in(t),
        },
    }
}

/// The hint that follows a pretty ticket.
pub open spec fn paste_hint() -> Seq<char> {
    "Paste this ticket in the P2P Go app to join the game."@
}

/// The pretty form in which a ticket is copied: the start marker, the
/// ticket, the end marker and the hint, each on a line of its own.
pub open spec fn pretty_ticket(t: Seq<char>) -> Seq<char> {
    start_marker() + seq!['\n'] + t + seq!['\n'] + end_marker() + seq!['\n'] + paste_hint()
}

proof fn lemma_find_from_first(s: Seq<char>, pat: Seq<char>, i: int, n: int)
    requires
        0 <= i <= n,
        occurs_at(s, pat, n),
        forall|j: int| i <= j < n ==> !occurs_at(s, pat, j),
    ensures
        find_from(s, pat, i) == Some(n as nat),
    decreases n - i,
{
    if i < n {
        lemma_find_from_first(s, pat, i + 1, n);
    }
}

proof fn lemma_find_from_exists(s: Seq<char>, pat: Seq<char>, i: int, j: int)
    requires
        0 <= i <= j,
        occurs_at(s, pat, j),
    ensures
        find_from(s, pat, i) is Some,
    decreases j - i,
{
    if i < j && !occurs_at(s, pat, i) {
        lemma_find_from_exists(s, pat, i + 1, j);
    }
}

proof fn lemma_find_from_none(s: Seq<char>, pat: Seq<char>, i: int)
    requires
        0 <= i,
        forall|j: int| i <= j ==> !occurs_at(s, pat, j),
    ensures
        find_from(s, pat, i) is None,
    decreases s.len() + 1 - i,
{
    if i + pat.len() <= s.len() {
        lemma_find_from_none(s, pat, i + 1);
    }
}

/// A line without line feeds, a line feed and the rest split into the line
/// and the lines of the rest.
proof fn lemma_lines_cons(a: Seq<char>, rest: Seq<char>)
    requires
        !a.contains('\n'),
    ensures
        lines(a + seq!['\n'] + rest) == seq![strip_cr(a)] + lines(rest),
{
    let s = a + seq!['\n'] + rest;
    let n = a.len() as int;
    assert(s.subrange(n, n + 1) =~= seq!['\n']);
    assert forall|j: int| 0 <= j < n implies !occurs_at(s, seq!['\n'], j) by {
        if occurs_at(s, seq!['\n'], j) {
            assert(s.subrange(j, j + 1)[0] == s[j]);
            assert(a[j] == s[j]);
        }
    }
    lemma_find_from_first(s, seq!['\n'], 0, n);
    assert(s.take(n) =~= a);
    assert(s.skip(n + 1) =~= rest);
}

/// A non-empty text without line feeds is a single line.
proof fn lemma_lines_single(a: Seq<char>)
    requires
        a.len() > 0,
        !a.contains('\n'),
    ensures
        lines(a) == seq![a],
{
    assert forall|j: int| 0 <= j implies !occurs_at(a, seq!['\n'], j) by {
        if occurs_at(a, seq!['\n'], j) {
            assert(a.subrange(j, j + 1)[0] == a[j]);
        }
    }
    lemma_find_from_none(a, seq!['\n'], 0);
}

proof fn lemma_trim_start_len(s: Seq<char>)
    ensures
        trim_start(s).len() <= s.len(),
    decreases s.len(),
{
    if s.len() > 0 && is_ws(s[0]) {
        lemma_trim_start_len(s.drop_first());
    }
}

proof fn lemma_trim_end_len(s: Seq<char>)
    ensures
        trim_end(s).len() <= s.len(),
    decreases s.len(),
{
    if s.len() > 0 && is_ws(s.last()) {
        lemma_trim_end_len(s.drop_last());
    }
}

/// A trimmed non-empty text neither starts nor ends with whitespace.
proof fn lemma_trimmed_ends(t: Seq<char>)
    requires
        t == trim(t),
        t.len() > 0,
    ensures
        !is_ws(t[0]),
        !is_ws(t.last()),
        trim_start(t) == t,
        trim_end(t) == t,
{
    lemma_trim_start_len(t);
    lemma_trim_end_len(trim_start(t));
    if is_ws(t[0]) {
        lemma_trim_start_len(t.drop_first());
    }
    if is_ws(t.last()) {
        lemma_trim_end_len(t.drop_last());
    }
}

/// A text of ASCII characters has one byte per character.
proof fn lemma_utf8_len_ascii(s: Seq<char>)
    requires
        forall|i: int| 0 <= i < s.len() ==> (#[trigger] s[i] as u32) < 0x80,
    ensures
        utf8_len(s) == s.len(),
    decreases s.len(),
{
    if s.len() > 0 {
        assert forall|i: int| 0 <= i < s.drop_last().len() implies (#[trigger] s.drop_last()[i] as u32)
            < 0x80 by {
            assert(s.drop_last()[i] == s[i]);
        }
        lemma_utf8_len_ascii(s.drop_last());
        assert((s[s.len() - 1] as u32) < 0x80);
    }
}

/// A ticket copied in its pretty form is found again by the parser: the
/// text must be trimmed, not empty, on one line, and must not hold the end
/// marker.
pub proof fn lemma_pretty_ticket_round_trip(t: Seq<char>)
    requires
        t == trim(t),
        t.len() > 0,
        !t.contains('\n'),
        !t.contains('\r'),
        !contains(t, end_marker()),
    ensures
        ticket_in(pretty_ticket(t)) == Some(t),
{
    reveal_strlit("=== P2P GO TICKET ===");
    reveal_strlit("======================");
    reveal_strlit("Paste this ticket in the P2P Go app to join the game.");
    let sm = start_marker();
    let em = end_marker();
    let h = paste_hint();
    let n = t.len() as int;
    let p = pretty_ticket(t);
    lemma_trimmed_ends(t);
    // The text is already trimmed and does not start with `/`.
    assert(!is_ws(p[0]));
    assert(trim_start(p) == p);
    assert(p.last() == '.');
    assert(trim_end(p) == p);
    assert(multiaddr_in(p) is None);
    // Its lines are the markers, the ticket and the hint.
    let r2 = em + seq!['\n'] + h;
    let r1 = t + seq!['\n'] + r2;
    assert(p =~= sm + seq!['\n'] + r1);
    assert(!sm.contains('\n')) by {
        assert forall|i: int| 0 <= i < sm.len() implies sm[i] != '\n' by {}
    }
    assert(!em.contains('\n')) by {
        assert forall|i: int| 0 <= i < em.len() implies em[i] != '\n' by {}
    }
    assert(!h.contains('\n')) by {
        assert forall|i: int| 0 <= i < h.len() implies h[i] != '\n' by {}
    }
    lemma_lines_cons(sm, r1);
    lemma_lines_cons(t, r2);
    lemma_lines_cons(em, h);
    lemma_lines_single(h);
    assert(strip_cr(sm) == sm);
    assert(strip_cr(t) == t);
    assert(strip_cr(em) == em);
    let ls = lines(p);
    assert(ls =~= seq![sm, t, em, h]);
    // Neither the markers nor the hint look like a ticket.
    assert(trim_start(sm) == sm);
    assert(trim_end(sm) == sm);
    assert(!is_ticket_char(sm[3]));
    assert(!looks_like_ticket(trim(sm)));
    assert(trim_start(em) == em);
    assert(trim_end(em) == em);
    assert forall|i: int| 0 <= i < em.len() implies (#[trigger] em[i] as u32) < 0x80 by {}
    lemma_utf8_len_ascii(em);
    assert(!looks_like_ticket(trim(em)));
    assert(trim_start(h) == h);
    assert(trim_end(h) == h);
    assert(!is_ticket_char(h[5]));
    assert(!looks_like_ticket(trim(h)));
    assert(first_ticket_line(seq![h].drop_first()) is None);
    assert(first_ticket_line(seq![h]) is None);
    assert(seq![em, h].drop_first() =~= seq![h]);
    assert(first_ticket_line(seq![em, h]) is None);
    assert(seq![t, em, h].drop_first() =~= seq![em, h]);
    assert(seq![sm, t, em, h].drop_first() =~= seq![t, em, h]);
    if looks_like_ticket(t) {
        assert(first_ticket_line(seq![t, em, h]) == Some(t));
        assert(first_ticket_line(ls) == Some(t));
    } else {
        assert(first_ticket_line(seq![t, em, h]) is None);
        assert(first_ticket_line(ls) is None);
        // The markers are where the pretty form put them.
        assert(p.subrange(0, 21) =~= sm);
        lemma_find_from_first(p, sm, 0, 0);
        assert(p.subrange(23 + n, 45 + n) =~= em);
        assert(p[21] == '\n');
        assert(p[22 + n] == '\n');
        assert forall|j: int| 0 <= j < 23 + n implies !occurs_at(p, em, j) by {
            if occurs_at(p, em, j) {
                if j <= 21 {
                    assert(p.subrange(j, j + 22)[21 - j] == p[21]);
                } else if j + 22 <= 22 + n {
                    assert(t.subrange(j - 22, j) =~= p.subrange(j, j + 22));
                    lemma_find_from_exists(t, em, 0, j - 22);
                } else {
                    assert(p.subrange(j, j + 22)[22 + n - j] == p[22 + n]);
                }
            }
        }
        lemma_find_from_first(p, em, 0, 23 + n);
        // Between them lies the ticket with a line feed on each side.
        let between = p.subrange(21, 23 + n);
        assert(between =~= seq!['\n'] + t + seq!['\n']);
        assert(between.drop_first() =~= t + seq!['\n']);
        assert((t + seq!['\n'])[0] == t[0]);
        assert(trim_start(t + seq!['\n']) == t + seq!['\n']);
        assert(is_ws(between[0]));
        assert(trim_start(between) == trim_start(between.drop_first()));
        assert(trim_start(between) == t + seq!['\n']);
        assert((t + seq!['\n']).drop_last() =~= t);
        assert(trim_end(t + seq!['\n']) == t);
        assert(trim(between) == t);
    }
}

/// No ticket could be found in the text.
#[derive(Debug, Clone, Copy, PartialEq, Eq, Structural)]
pub enum TicketParseError {
    NotFound,
}

impl TicketParseError {
    /// The message shown for the error.
    pub fn message(&self) -> (s: &'static str)
        ensures
            s@ == "No valid ticket found in the text"@,
    {
        "No valid ticket found in the text"
    }
}

/// The text after position `k` up to the next `/`.
pub open spec fn port_after(s: Seq<char>, k: int) -> Seq<char> {
    let rest = s.skip(k);
    match find(rest, "/"@) {
        Some(e) => rest.take(e as int),
        None => rest,
    }
}

/// A peer id cut to its first 8 bytes plus an ellipsis when longer.
pub open spec fn short_peer(peer: Seq<char>) -> Seq<char> {
    if utf8_len(peer) > 8 {
        take_bytes(peer, 8) + "..."@
    } else {
        peer
    }
}

/// The transport named in a multiaddress.
pub open spec fn address_kind(a: Seq<char>) -> Seq<char> {
    if contains(a, "/tcp/"@) {
        "TCP"@
    } else if contains(a, "/udp/"@) {
        "UDP"@
    } else {
        Seq::empty()
    }
}

/// The port that follows the transport in a multiaddress.
pub open spec fn address_port(a: Seq<char>) -> Option<Seq<char>> {
    if contains(a, "/tcp/"@) {
        Some(port_after(a, find(a, "/tcp/"@)->0 as int + 5))
    } else if contains(a, "/udp/"@) {
        Some(port_after(a, find(a, "/udp/"@)->0 as int + 5))
    } else {
        None
    }
}

/// `a` is a multiaddress (starts with `/ip`) that names a peer (`/p2p/`).
pub open spec fn names_peer(a: Seq<char>) -> bool {
    starts_with(a, "/ip"@) && rfind(a, "/p2p/"@) is Some
}

/// The peer id: the text after the last `/p2p/`.
pub open spec fn peer_of(a: Seq<char>) -> Seq<char> {
    a.skip(rfind(a, "/p2p/"@)->0 as int + 5)
}

/// The display form of an address: short ones unchanged; multiaddresses
/// with a peer as transport, port and shortened peer id; others as their
/// first 10 and last 8 bytes around an ellipsis.
pub open spec fn shortened(a: Seq<char>) -> Seq<char> {
    if utf8_len(a) < 30 {
        a
    } else if names_peer(a) {
        let sp = short_peer(peer_of(a));
        match address_port(a) {
            Some(p) => address_kind(a) + " (...:"@ + p + ") ["@ + sp + "]"@,
            None => address_kind(a) + " ["@ + sp + "]"@,
        }
    } else {
        take_bytes(a, 10) + "..."@ + last_bytes(a, 8)
    }
}

/// Shortening would cut through a multi-byte character.
pub open spec fn shortening_splits_char(a: Seq<char>) -> bool {
    &&& utf8_len(a) >= 30
    &&& if names_peer(a) {
        utf8_len(peer_of(a)) > 8 && utf8_len(take_bytes(peer_of(a), 8)) != 8
    } else {
        utf8_len(take_bytes(a, 10)) != 10 || utf8_len(last_bytes(a, 8)) != 8
    }
}

/// How a ticket is copied.
#[derive(Debug, Clone, Copy, PartialEq, Eq, Structural)]
pub enum CopyPlan {
    /// Too short to be a ticket: report "No valid ticket available".
    Reject,
    /// A plain address: copy without a notification.
    CopyQuietly,
    /// A full ticket: copy and notify.
    CopyWithToast,
}

/// The copy plan for a ticket of `len_bytes` bytes.
pub open spec fn copy_plan_for(len_bytes: nat) -> CopyPlan {
    if len_bytes < 20 {
        CopyPlan::Reject
    } else if len_bytes < 50 {
        CopyPlan::CopyQuietly
    } else {
        CopyPlan::CopyWithToast
    }
}

/// The notifications that go with a copy plan: an error when there is no
/// ticket to copy, a confirmation for a full ticket, none for a plain
/// address.
pub open spec fn plan_effects(p: CopyPlan) -> Seq<EffectView> {
    match p {
        CopyPlan::Reject => seq![EffectView::Toast(ToastKind::Error, "No valid ticket available"@)],
        CopyPlan::CopyQuietly => Seq::empty(),
        CopyPlan::CopyWithToast => seq![
            EffectView::Toast(ToastKind::Success, "Connection ticket copied to clipboard!"@),
        ],
    }
}

/// Clipboard helper; the platform clipboard itself is reached by the
/// application.
pub struct ClipboardHelper {}

impl ClipboardHelper {
    pub fn new() -> (h: Self) {
        ClipboardHelper {}
    }

    /// How `ticket` is to be copied: empty or shorter than 20 bytes is not a
    /// ticket; under 50 bytes it is an address copied without notification;
    /// longer tickets are copied with a notification.
    pub fn copy_plan(&self, ticket: &str) -> (r: CopyPlan)
        ensures
            r == copy_plan_for(utf8_len(ticket@)),
    {
        let v = chars_of(ticket);
        assert(v@.subrange(0, v@.len() as int) =~= ticket@);
        if !utf8_len_exceeds(&v, 0, v.len(), 19) {
            CopyPlan::Reject
        } else if !utf8_len_exceeds(&v, 0, v.len(), 49) {
            CopyPlan::CopyQuietly
        } else {
            CopyPlan::CopyWithToast
        }
    }

    /// Copy a ticket: tickets of 50 bytes or more are announced, shorter
    /// ones (plain addresses) are copied quietly. Returns whether the copy
    /// is announced, with the notification; the application then puts
    /// `ticket` on the clipboard.
    pub fn copy_ticket(&self, ticket: &str) -> (r: (bool, Vec<AppEffect>))
        ensures
            r.0 == (utf8_len(ticket@) >= 50),
            effects_of(r.1@) == if r.0 {
                plan_effects(CopyPlan::CopyWithToast)
            } else {
                Seq::empty()
            },
    {
        let v = chars_of(ticket);
        assert(v@.subrange(0, v@.len() as int) =~= ticket@);
        let mut effects: Vec<AppEffect> = Vec::new();
        if !utf8_len_exceeds(&v, 0, v.len(), 49) {
            assert(effects_of(effects@) =~= Seq::<EffectView>::empty());
            return (false, effects);
        }
        proof {
            reveal_strlit("Connection ticket copied to clipboard!");
        }
        effects.push(toast(ToastKind::Success, String::from_str("Connection ticket copied to clipboard!")));
        assert(effects_of(effects@) =~= plan_effects(CopyPlan::CopyWithToast));
        (true, effects)
    }

    /// Copy a ticket with notification: below 20 bytes there is no ticket,
    /// which is reported and nothing is copied; otherwise as `copy_ticket`.
    /// Returns the plan and its notifications; the application copies
    /// `ticket` unless the plan is `Reject`.
    pub fn copy_ticket_with_toast(&self, ticket: &str) -> (r: (CopyPlan, Vec<AppEffect>))
        ensures
            r.0 == copy_plan_for(utf8_len(ticket@)),
            effects_of(r.1@) == plan_effects(r.0),
    {
        let plan = self.copy_plan(ticket);
        let mut effects: Vec<AppEffect> = Vec::new();
        match plan {
            CopyPlan::Reject => {
                proof {
                    reveal_strlit("No valid ticket available");
                }
                effects.push(toast(ToastKind::Error, String::from_str("No valid ticket available")));
            },
            CopyPlan::CopyQuietly => {},
            CopyPlan::CopyWithToast => {
                proof {
                    reveal_strlit("Connection ticket copied to clipboard!");
                }
                effects.push(
                    toast(ToastKind::Success, String::from_str("Connection ticket copied to clipboard!")),
                );
            },
        }
        assert(effects_of(effects@) =~= plan_effects(plan));
        (plan, effects)
    }

    /// The notification when the clipboard refused the ticket.
    pub fn copy_failed(&self) -> (effects: Vec<AppEffect>)
        ensures
            effects_of(effects@) == seq![EffectView::Toast(ToastKind::Error, "Failed to copy ticket"@)],
    {
        proof {
            reveal_strlit("Failed to copy ticket");
        }
        let mut effects: Vec<AppEffect> = Vec::new();
        effects.push(toast(ToastKind::Error, String::from_str("Failed to copy ticket")));
        assert(effects_of(effects@) =~= seq![
            EffectView::Toast(ToastKind::Error, "Failed to copy ticket"@),
        ]);
        effects
    }

    /// Shorten a multiaddress for display.
    pub fn shorten_for_display(&self, addr: &str) -> (s: String)
        requires
            !shortening_splits_char(addr@),
        ensures
            s@ == shortened(addr@),
    {
        let v = chars_of(addr);
        let ghost a = v@;
        assert(v@.subrange(0, v@.len() as int) =~= a);
        if !utf8_len_exceeds(&v, 0, v.len(), 29) {
            return String::from_str(addr);
        }
        let ip = chars_of("/ip");
        let p2p = chars_of("/p2p/");
        proof {
            reveal_strlit("/ip");
            reveal_strlit("/p2p/");
        }
        if occurs_at_exec(&v, &ip, 0) {
            if let Some(i) = rfind_exec(&v, &p2p) {
                proof {
                    lemma_rfind_some(a, "/p2p/"@);
                }
                let peer = sub_vec(&v, i + 5, v.len());
                assert(peer@ =~= peer_of(a));
                assert(peer@.subrange(0, peer@.len() as int) =~= peer@);
                let mut short = if utf8_len_exceeds(&peer, 0, peer.len(), 8) {
                    let (k, _) = prefix_for_bytes(&peer, 8);
                    let mut t = string_of(&peer, 0, k);
                    t.append("...");
                    t
                } else {
                    string_of(&peer, 0, peer.len())
                };
                proof {
                    reveal_strlit("...");
                }
                assert(short@ == short_peer(peer_of(a)));
                let tcp = chars_of("/tcp/");
                let udp = chars_of("/udp/");
                proof {
                    reveal_strlit("/tcp/");
                    reveal_strlit("/udp/");
                }
                let tcp_at = find_from_exec(&v, &tcp, 0);
                let udp_at = find_from_exec(&v, &udp, 0);
                let mut out = match tcp_at {
                    Some(_) => String::from_str("TCP"),
                    None => match udp_at {
                        Some(_) => String::from_str("UDP"),
                        None => String::new(),
                    },
                };
                proof {
                    reveal_strlit("TCP");
                    reveal_strlit("UDP");
                }
                assert(out@ == address_kind(a));
                let port_start = match tcp_at {
                    Some(j) => Some(j),
                    None => udp_at,
                };
                match port_start {
                    Some(j) => {
                        proof {
                            if tcp_at is Some {
                                lemma_find_from_some(a, "/tcp/"@, 0);
                            } else {
                                lemma_find_from_some(a, "/udp/"@, 0);
                            }
                        }
                        let port = self.port_text(&v, j + 5);
                        out.append(" (...:");
                        out.append(port.as_str());
                        out.append(") [");
                        out.append(short.as_str());
                        out.append("]");
                        proof {
                            reveal_strlit(" (...:");
                            reveal_strlit(") [");
                            reveal_strlit("]");
                        }
                    },
                    None => {
                        out.append(" [");
                        out.append(short.as_str());
                        out.append("]");
                        proof {
                            reveal_strlit(" [");
                            reveal_strlit("]");
                        }
                    },
                }
                return out;
            }
        }
        let (k1, _) = prefix_for_bytes(&v, 10);
        let (k2, _) = suffix_for_bytes(&v, 8);
        let mut out = string_of(&v, 0, k1);
        out.append("...");
        let tail = string_of(&v, k2, v.len());
        out.append(tail.as_str());
        proof {
            reveal_strlit("...");
            assert(v@.subrange(0, k1 as int) =~= v@.take(k1 as int));
            assert(v@.subrange(k2 as int, v@.len() as int) =~= v@.skip(k2 as int));
        }
        out
    }

    /// The text from position `k` of `v` up to the next `/`.
    fn port_text(&self, v: &Vec<char>, k: usize) -> (s: String)
        requires
            k <= v@.len(),
        ensures
            s@ == port_after(v@, k as int),
    {
        let slash = chars_of("/");
        proof {
            reveal_strlit("/");
            lemma_find_shift(v@, "/"@, k as int, 0);
            lemma_find_from_some(v@, "/"@, k as int);
            assert(v@.skip(k as int) =~= v@.subrange(k as int, v@.len() as int));
        }
        match find_from_exec(v, &slash, k) {
            Some(e) => {
                assert(v@.skip(k as int).take(e - k) =~= v@.subrange(k as int, e as int));
                string_of(v, k, e)
            },
            None => string_of(v, k, v.len()),
        }
    }
}

/// A position found by `rfind` is an occurrence.
proof fn lemma_rfind_some(s: Seq<char>, pat: Seq<char>)
    ensures
        rfind(s, pat) matches Some(n) ==> occurs_at(s, pat, n as int),
{
    lemma_rfind_upto_some(s, pat, s.len() - pat.len());
}

proof fn lemma_rfind_upto_some(s: Seq<char>, pat: Seq<char>, i: int)
    ensures
        crate::chars::rfind_upto(s, pat, i) matches Some(n) ==> occurs_at(s, pat, n as int),
    decreases i + 1,
{
    if i >= 0 && !occurs_at(s, pat, i) {
        lemma_rfind_upto_some(s, pat, i - 1);
    }
}

/// Whether `c` is a ticket character.
fn ticket_char(c: char) -> (r: bool)
    ensures
        r == is_ticket_char(c),
{
    ('a' <= c && c <= 'z') || ('A' <= c && c <= 'Z') || ('0' <= c && c <= '9') || c == '+' || c
        == '/' || c == '='
}

/// Whether `v[lo..hi]` looks like a ticket.
fn ticket_like(v: &Vec<char>, lo: usize, hi: usize) -> (r: bool)
    requires
        lo <= hi <= v@.len(),
    ensures
        r == looks_like_ticket(v@.subrange(lo as int, hi as int)),
{
    let ghost l = v@.subrange(lo as int, hi as int);
    if !utf8_len_exceeds(v, lo, hi, 50) {
        return false;
    }
    let mut i = lo;
    while i < hi
        invariant
            lo <= i <= hi <= v@.len(),
            l == v@.subrange(lo as int, hi as int),
            forall|j: int| 0 <= j < i - lo ==> is_ticket_char(#[trigger] l[j]),
        decreases hi - i,
    {
        if !ticket_char(v[i]) {
            assert(!is_ticket_char(l[i - lo]));
            return false;
        }
        i += 1;
    }
    true
}

/// The position of the first line feed in `v[from..]`, relative to `v`.
fn find_newline(v: &Vec<char>, from: usize) -> (r: Option<usize>)
    requires
        from <= v@.len(),
    ensures
        find(v@.subrange(from as int, v@.len() as int), seq!['\n']) == match r {
            Some(n) => Some((n - from) as nat),
            None => None::<nat>,
        },
        r matches Some(n) ==> from <= n < v@.len() && v@[n as int] == '\n',
{
    let nl = chars_of("\n");
    proof {
        reveal_strlit("\n");
        assert(nl@ =~= seq!['\n']);
        lemma_find_shift(v@, seq!['\n'], from as int, 0);
        lemma_find_from_some(v@, seq!['\n'], from as int);
    }
    let r = find_from_exec(v, &nl, from);
    proof {
        if let Some(n) = r {
            assert(v@.subrange(n as int, n + 1)[0] == '\n');
        }
    }
    r
}

/// Try to extract a ticket from arbitrary text: a multiaddress (text
/// starting with `/`, first line, over 10 bytes), else a line of more than
/// 50 base64 characters, else the text between the ticket markers.
pub fn parse_ticket_from_text(text: &str) -> (r: Result<String, TicketParseError>)
    ensures
        match ticket_in(text@) {
            Some(t) => r is Ok && r->Ok_0@ == t,
            None => r == Err::<String, TicketParseError>(TicketParseError::NotFound),
        },
{
    let v = chars_of(text);
    let ghost t = v@;
    // A multiaddress.
    let (a, b) = trim_bounds(&v, 0, v.len());
    assert(v@.subrange(0, v@.len() as int) =~= t);
    if a < b && v[a] == '/' {
        let tr = sub_vec(&v, a, b);
        let first_end = match find_newline(&tr, 0) {
            Some(n) => {
                if n > 0 && tr[n - 1] == '\r' {
                    n - 1
                } else {
                    n
                }
            },
            None => tr.len(),
        };
        proof {
            let trs = tr@;
            assert(trs.subrange(0, trs.len() as int) =~= trs);
            assert(trs.len() > 0);
            reveal_with_fuel(lines, 1);
            match find(trs, seq!['\n']) {
                Some(n) => {
                    assert(trs.take(n as int) =~= trs.subrange(0, n as int));
                    assert(strip_cr(trs.take(n as int)) =~= trs.subrange(0, first_end as int));
                },
                None => {},
            }
            assert(lines(trs).len() > 0);
            assert(lines(trs)[0] =~= trs.subrange(0, first_end as int));
        }
        if utf8_len_exceeds(&tr, 0, first_end, 10) {
            return Ok(string_of(&tr, 0, first_end));
        }
    }
    assert(multiaddr_in(t) is None);
    // A line that looks like an encoded ticket.
    let mut pos: usize = 0;
    assert(v@.subrange(0, v@.len() as int) =~= t);
    while pos < v.len()
        invariant
            0 <= pos <= v@.len(),
            t == v@,
            t == text@,
            multiaddr_in(t) is None,
            first_ticket_line(lines(t)) == first_ticket_line(
                lines(t.subrange(pos as int, t.len() as int)),
            ),
        decreases v@.len() - pos,
    {
        let ghost rest = t.subrange(pos as int, t.len() as int);
        let nl = find_newline(&v, pos);
        let (line_end, next) = match nl {
            Some(n) => {
                if n > pos && v[n - 1] == '\r' {
                    (n - 1, n + 1)
                } else {
                    (n, n + 1)
                }
            },
            None => (v.len(), v.len()),
        };
        let ghost line = t.subrange(pos as int, line_end as int);
        proof {
            reveal_with_fuel(lines, 1);
            match nl {
                Some(n) => {
                    assert(rest.take(n - pos) =~= t.subrange(pos as int, n as int));
                    assert(strip_cr(rest.take(n - pos)) =~= line);
                    assert(rest.skip(n - pos + 1) =~= t.subrange(next as int, t.len() as int));
                },
                None => {
                    assert(rest =~= line);
                },
            }
            let ls = lines(rest);
            assert(ls[0] == line);
            assert(ls.drop_first() =~= lines(t.subrange(next as int, t.len() as int)));
        }
        let (la, lb) = trim_bounds(&v, pos, line_end);
        if ticket_like(&v, la, lb) {
            proof {
                let ls = lines(rest);
                assert(trim(ls[0]) == t.subrange(la as int, lb as int));
                assert(first_ticket_line(ls) == Some(trim(ls[0])));
            }
            return Ok(string_of(&v, la, lb));
        }
        pos = next;
    }
    proof {
        assert(t.subrange(pos as int, t.len() as int) =~= Seq::<char>::empty());
        reveal_with_fuel(lines, 1);
    }
    assert(first_ticket_line(lines(t)) is None);
    // The text between the ticket markers.
    let start_pat = chars_of("=== P2P GO TICKET ===");
    let end_pat = chars_of("======================");
    proof {
        reveal_strlit("=== P2P GO TICKET ===");
        reveal_strlit("======================");
    }
    let start = find_from_exec(&v, &start_pat, 0);
    let end = find_from_exec(&v, &end_pat, 0);
    match (start, end) {
        (Some(sa), Some(eb)) => {
            proof {
                lemma_find_from_some(t, start_marker(), 0);
                lemma_find_from_some(t, end_marker(), 0);
            }
            if sa + 21 > eb {
                return Err(TicketParseError::NotFound);
            }
            let (ia, ib) = trim_bounds(&v, sa + 21, eb);
            if ia < ib {
                Ok(string_of(&v, ia, ib))
            } else {
                Err(TicketParseError::NotFound)
            }
        },
        _ => Err(TicketParseError::NotFound),
    }
}

} // verus!
