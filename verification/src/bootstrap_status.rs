//! Network bootstrap status: the phase reached, a short log of status
//! messages, and what the status panel shows of them.
//!
//! Drawing the panel is done by the application; this module holds the
//! state and decides what each part of the panel says.
use crate::chars::{chars_of, last_bytes, prefix_for_bytes, string_of, suffix_for_bytes, take_bytes, utf8_len, utf8_len_exceeds};
use crate::clock::instant_now;
use std::time::Instant;
use vstd::prelude::*;
use vstd::string::StringExecFns;

verus! {

/// The phases of network bootstrap, in the order they are entered.
#[derive(Debug, Clone, Copy, PartialEq, Eq, Structural)]
pub enum BootstrapPhase {
    NotStarted,
    Initializing,
    DetectingNAT,
    ConnectingBootstrap,
    SetupRelay,
    Ready,
    Failed,
}

/// The position of a phase in the bootstrap order.
pub open spec fn phase_rank(p: BootstrapPhase) -> nat {
    match p {
        BootstrapPhase::NotStarted => 0,
        BootstrapPhase::Initializing => 1,
        BootstrapPhase::DetectingNAT => 2,
        BootstrapPhase::ConnectingBootstrap => 3,
        BootstrapPhase::SetupRelay => 4,
        BootstrapPhase::Ready => 5,
        BootstrapPhase::Failed => 6,
    }
}

fn phase_rank_of(p: BootstrapPhase) -> (r: u8)
    ensures
        r == phase_rank(p),
{
    match p {
        BootstrapPhase::NotStarted => 0,
        BootstrapPhase::Initializing => 1,
        BootstrapPhase::DetectingNAT => 2,
        BootstrapPhase::ConnectingBootstrap => 3,
        BootstrapPhase::SetupRelay => 4,
        BootstrapPhase::Ready => 5,
        BootstrapPhase::Failed => 6,
    }
}

/// The name of a phase as it appears in the status log.
pub open spec fn phase_name(p: BootstrapPhase) -> Seq<char> {
    match p {
        BootstrapPhase::NotStarted => "NotStarted"@,
        BootstrapPhase::Initializing => "Initializing"@,
        BootstrapPhase::DetectingNAT => "DetectingNAT"@,
        BootstrapPhase::ConnectingBootstrap => "ConnectingBootstrap"@,
        BootstrapPhase::SetupRelay => "SetupRelay"@,
        BootstrapPhase::Ready => "Ready"@,
        BootstrapPhase::Failed => "Failed"@,
    }
}

fn phase_name_str(p: BootstrapPhase) -> (s: &'static str)
    ensures
        s@ == phase_name(p),
{
    proof {
        reveal_strlit("NotStarted");
        reveal_strlit("Initializing");
        reveal_strlit("DetectingNAT");
        reveal_strlit("ConnectingBootstrap");
        reveal_strlit("SetupRelay");
        reveal_strlit("Ready");
        reveal_strlit("Failed");
    }
    match p {
        BootstrapPhase::NotStarted => "NotStarted",
        BootstrapPhase::Initializing => "Initializing",
        BootstrapPhase::DetectingNAT => "DetectingNAT",
        BootstrapPhase::ConnectingBootstrap => "ConnectingBootstrap",
        BootstrapPhase::SetupRelay => "SetupRelay",
        BootstrapPhase::Ready => "Ready",
        BootstrapPhase::Failed => "Failed",
    }
}

/// The log message written when `p` is entered.
pub open spec fn phase_message(p: BootstrapPhase) -> Seq<char> {
    "Entering phase: "@ + phase_name(p)
}

/// Severity of a status message.
#[derive(Debug, Clone, Copy, PartialEq, Eq, Structural)]
pub enum MessageLevel {
    Info,
    Success,
    Warning,
    Error,
}

/// What is known of the NAT in front of this node.
#[derive(Debug, Clone, Copy, PartialEq, Eq, Structural)]
pub enum NATStatus {
    Unknown,
    Open,
    Restricted,
    Symmetric,
    UPnPSuccess,
}

/// The description of a NAT status on the panel.
pub open spec fn nat_text(s: NATStatus) -> Seq<char> {
    match s {
        NATStatus::Open => "Open (Direct connections possible)"@,
        NATStatus::UPnPSuccess => "UPnP configured"@,
        NATStatus::Restricted => "Restricted (Using relay)"@,
        NATStatus::Symmetric => "Symmetric (Relay required)"@,
        NATStatus::Unknown => "Unknown"@,
    }
}

/// The description of a NAT status on the panel.
pub fn nat_status_text(s: NATStatus) -> (t: &'static str)
    ensures
        t@ == nat_text(s),
{
    proof {
        reveal_strlit("Open (Direct connections possible)");
        reveal_strlit("UPnP configured");
        reveal_strlit("Restricted (Using relay)");
        reveal_strlit("Symmetric (Relay required)");
        reveal_strlit("Unknown");
    }
    match s {
        NATStatus::Open => "Open (Direct connections possible)",
        NATStatus::UPnPSuccess => "UPnP configured",
        NATStatus::Restricted => "Restricted (Using relay)",
        NATStatus::Symmetric => "Symmetric (Relay required)",
        NATStatus::Unknown => "Unknown",
    }
}

/// A line of the status log.
pub struct StatusMessage {
    pub timestamp: Instant,
    pub level: MessageLevel,
    pub text: String,
}

impl View for StatusMessage {
    type V = (MessageLevel, Seq<char>);

    open spec fn view(&self) -> (MessageLevel, Seq<char>) {
        (self.level, self.text@)
    }
}

/// The number of messages the log keeps.
pub open spec fn message_limit() -> nat {
    20
}

/// The log after adding `m`: when it grows past the limit, the oldest
/// message leaves.
pub open spec fn add_to_log(log: Seq<(MessageLevel, Seq<char>)>, m: (MessageLevel, Seq<char>)) -> Seq<
    (MessageLevel, Seq<char>),
> {
    if log.len() + 1 > message_limit() {
        log.push(m).drop_first()
    } else {
        log.push(m)
    }
}

/// The log after adding each of `ms` in turn to `log`.
pub open spec fn add_all(log: Seq<(MessageLevel, Seq<char>)>, ms: Seq<(MessageLevel, Seq<char>)>) -> Seq<
    (MessageLevel, Seq<char>),
>
    decreases ms.len(),
{
    if ms.len() == 0 {
        log
    } else {
        add_to_log(add_all(log, ms.drop_last()), ms.last())
    }
}

/// The last `n` elements of `s`, or all of them when there are fewer.
pub open spec fn last_n<A>(s: Seq<A>, n: nat) -> Seq<A> {
    if s.len() > n {
        s.skip(s.len() - n)
    } else {
        s
    }
}

/// Network bootstrap status.
pub struct BootstrapStatus {
    phase: BootstrapPhase,
    messages: Vec<StatusMessage>,
    start_time: Instant,
    addresses: Vec<String>,
    peer_id: Option<String>,
    nat_status: NATStatus,
}

/// Abstract state of the bootstrap status.
pub struct BootstrapView {
    pub phase: BootstrapPhase,
    pub messages: Seq<(MessageLevel, Seq<char>)>,
    pub addresses: Seq<Seq<char>>,
    pub peer_id: Option<Seq<char>>,
    pub nat_status: NATStatus,
}

impl View for BootstrapStatus {
    type V = BootstrapView;

    closed spec fn view(&self) -> BootstrapView {
        BootstrapView {
            phase: self.phase,
            messages: self.messages@.map_values(|m: StatusMessage| m@),
            addresses: self.addresses@.map_values(|a: String| a@),
            peer_id: match self.peer_id {
                Some(p) => Some(p@),
                None => None,
            },
            nat_status: self.nat_status,
        }
    }
}

impl BootstrapStatus {
    /// The log holds at most the limit of messages.
    pub closed spec fn wf(&self) -> bool {
        self.messages@.len() <= message_limit()
    }

    /// Not started, with an empty log, no network information and an
    /// unknown NAT.
    pub fn new() -> (s: Self)
        ensures
            s.wf(),
            s@.phase == BootstrapPhase::NotStarted,
            s@.messages == Seq::<(MessageLevel, Seq<char>)>::empty(),
            s@.addresses == Seq::<Seq<char>>::empty(),
            s@.peer_id is None,
            s@.nat_status == NATStatus::Unknown,
    {
        let s = BootstrapStatus {
            phase: BootstrapPhase::NotStarted,
            messages: Vec::new(),
            start_time: instant_now(),
            addresses: Vec::new(),
            peer_id: None,
            nat_status: NATStatus::Unknown,
        };
        assert(s@.messages =~= Seq::<(MessageLevel, Seq<char>)>::empty());
        assert(s@.addresses =~= Seq::<Seq<char>>::empty());
        s
    }

    /// Enter `phase`, logging it.
    pub fn set_phase(&mut self, phase: BootstrapPhase)
        requires
            old(self).wf(),
        ensures
            final(self).wf(),
            final(self)@.phase == phase,
            final(self)@.messages == add_to_log(
                old(self)@.messages,
                (MessageLevel::Info, phase_message(phase)),
            ),
            final(self)@.addresses == old(self)@.addresses,
            final(self)@.peer_id == old(self)@.peer_id,
            final(self)@.nat_status == old(self)@.nat_status,
            final(self).started_at() == old(self).started_at(),
    {
        self.phase = phase;
        let mut text = String::from_str("Entering phase: ");
        text.append(phase_name_str(phase));
        proof {
            reveal_strlit("Entering phase: ");
        }
        self.add_message(MessageLevel::Info, text);
    }

    /// Add a message to the log, keeping only the newest ones.
    pub fn add_message(&mut self, level: MessageLevel, text: String)
        requires
            old(self).wf(),
        ensures
            final(self).wf(),
            final(self)@.messages == add_to_log(old(self)@.messages, (level, text@)),
            final(self)@.phase == old(self)@.phase,
            final(self)@.addresses == old(self)@.addresses,
            final(self)@.peer_id == old(self)@.peer_id,
            final(self)@.nat_status == old(self)@.nat_status,
            final(self).started_at() == old(self).started_at(),
    {
        let ghost before = self.messages@.map_values(|m: StatusMessage| m@);
        let m = StatusMessage { timestamp: instant_now(), level, text };
        let ghost mv = m@;
        self.messages.push(m);
        assert(self.messages@.map_values(|m: StatusMessage| m@) =~= before.push(mv));
        if self.messages.len() > 20 {
            self.messages.remove(0);
            assert(self.messages@.map_values(|m: StatusMessage| m@) =~= before.push(mv).drop_first());
        }
    }

    /// Record this node's peer id and listening addresses.
    pub fn set_network_info(&mut self, peer_id: String, addresses: Vec<String>)
        requires
            old(self).wf(),
        ensures
            final(self).wf(),
            final(self)@.peer_id == Some(peer_id@),
            final(self)@.addresses == addresses@.map_values(|a: String| a@),
            final(self)@.phase == old(self)@.phase,
            final(self)@.messages == old(self)@.messages,
            final(self)@.nat_status == old(self)@.nat_status,
            final(self).started_at() == old(self).started_at(),
    {
        self.peer_id = Some(peer_id);
        self.addresses = addresses;
    }

    /// Record the NAT status.
    pub fn set_nat_status(&mut self, status: NATStatus)
        requires
            old(self).wf(),
        ensures
            final(self).wf(),
            final(self)@.nat_status == status,
            final(self)@.phase == old(self)@.phase,
            final(self)@.messages == old(self)@.messages,
            final(self)@.addresses == old(self)@.addresses,
            final(self)@.peer_id == old(self)@.peer_id,
            final(self).started_at() == old(self).started_at(),
    {
        self.nat_status = status;
    }

    /// The current phase.
    pub fn phase(&self) -> (p: BootstrapPhase)
        ensures
            p == self@.phase,
    {
        self.phase
    }

    /// The NAT status.
    pub fn nat_status(&self) -> (s: NATStatus)
        ensures
            s == self@.nat_status,
    {
        self.nat_status
    }

    /// The status log, oldest first.
    pub fn messages(&self) -> (ms: &Vec<StatusMessage>)
        ensures
            ms@.map_values(|m: StatusMessage| m@) == self@.messages,
    {
        &self.messages
    }

    /// The listening addresses.
    pub fn addresses(&self) -> (a: &Vec<String>)
        ensures
            a@.map_values(|s: String| s@) == self@.addresses,
    {
        &self.addresses
    }

    /// The peer id, once known.
    pub fn peer_id(&self) -> (p: Option<&String>)
        ensures
            match p {
                Some(s) => self@.peer_id == Some(s@),
                None => self@.peer_id is None,
            },
    {
        match &self.peer_id {
            Some(s) => Some(s),
            None => None,
        }
    }

    /// When bootstrap started: the clock reading taken when this status was
    /// made; no later call changes it.
    pub closed spec fn started_at(&self) -> Instant {
        self.start_time
    }

    /// When bootstrap started.
    pub fn start_time(&self) -> (t: &Instant)
        ensures
            *t == self.started_at(),
    {
        &self.start_time
    }

    /// The network information is shown once bootstrap is ready.
    pub fn shows_network_info(&self) -> (r: bool)
        ensures
            r == (self@.phase == BootstrapPhase::Ready),
    {
        self.phase == BootstrapPhase::Ready
    }

    /// Troubleshooting advice is shown once bootstrap failed.
    pub fn shows_troubleshooting(&self) -> (r: bool)
        ensures
            r == (self@.phase == BootstrapPhase::Failed),
    {
        self.phase == BootstrapPhase::Failed
    }

    /// How the phase indicator shows `step`.
    pub fn step_display(&self, step: BootstrapPhase) -> (d: StepDisplay)
        ensures
            d == step_display_for(self@.phase, step),
    {
        let complete = phase_rank_of(step) < phase_rank_of(self.phase);
        let color = if self.phase == BootstrapPhase::Failed {
            StepColor::Failed
        } else if complete {
            StepColor::Complete
        } else if step == self.phase {
            StepColor::Current
        } else {
            StepColor::Pending
        };
        StepDisplay { color, checked: complete }
    }
}

/// The colour of a step of the phase indicator.
#[derive(Debug, Clone, Copy, PartialEq, Eq, Structural)]
pub enum StepColor {
    Failed,
    Complete,
    Current,
    Pending,
}

/// How a step of the phase indicator is drawn: its colour, and whether it
/// is ticked.
#[derive(Debug, Clone, Copy, PartialEq, Eq, Structural)]
pub struct StepDisplay {
    pub color: StepColor,
    pub checked: bool,
}

/// A step is ticked when the current phase lies past it; the whole
/// indicator turns red on failure.
pub open spec fn step_display_for(current: BootstrapPhase, step: BootstrapPhase) -> StepDisplay {
    let complete = phase_rank(step) < phase_rank(current);
    StepDisplay {
        color: if current == BootstrapPhase::Failed {
            StepColor::Failed
        } else if complete {
            StepColor::Complete
        } else if step == current {
            StepColor::Current
        } else {
            StepColor::Pending
        },
        checked: complete,
    }
}

/// A peer id of more than 16 bytes shown as its first 8 and last 4 bytes
/// around an ellipsis; shorter ones in full.
pub open spec fn short_id(p: Seq<char>) -> Seq<char> {
    if utf8_len(p) > 16 {
        take_bytes(p, 8) + "..."@ + last_bytes(p, 4)
    } else {
        p
    }
}

/// Shortening `p` would cut through a multi-byte character.
pub open spec fn short_id_splits_char(p: Seq<char>) -> bool {
    utf8_len(p) > 16 && (utf8_len(take_bytes(p, 8)) != 8 || utf8_len(last_bytes(p, 4)) != 4)
}

/// The peer id as the panel shows it.
pub fn short_peer_id(peer_id: &str) -> (s: String)
    requires
        !short_id_splits_char(peer_id@),
    ensures
        s@ == short_id(peer_id@),
{
    let v = chars_of(peer_id);
    assert(v@.subrange(0, v@.len() as int) =~= v@);
    if !utf8_len_exceeds(&v, 0, v.len(), 16) {
        return String::from_str(peer_id);
    }
    let (k1, _) = prefix_for_bytes(&v, 8);
    let (k2, _) = suffix_for_bytes(&v, 4);
    let mut out = string_of(&v, 0, k1);
    out.append("...");
    let tail = string_of(&v, k2, v.len());
    out.append(tail.as_str());
    proof {
        reveal_strlit("...");
        assert(v@.subrange(0, k1 as int) =~= v@.take(k1 as int));
        assert(v@.subrange(k2 as int, v@.len() as int) =~= v@.skip(k2 as int));
    }
    out
}

/// Adding messages one at a time leaves the log holding the newest of all
/// messages ever added, at most the limit of them, oldest first.
pub proof fn lemma_log_keeps_newest(ms: Seq<(MessageLevel, Seq<char>)>)
    ensures
        add_all(Seq::empty(), ms) == last_n(ms, message_limit()),
    decreases ms.len(),
{
    if ms.len() > 0 {
        lemma_log_keeps_newest(ms.drop_last());
        let prev = last_n(ms.drop_last(), message_limit());
        if ms.len() > message_limit() {
            if ms.drop_last().len() > message_limit() {
                assert(prev.push(ms.last()).drop_first() =~= ms.skip(ms.len() - message_limit()));
            } else {
                assert(prev =~= ms.drop_last());
                assert(prev.push(ms.last()).drop_first() =~= ms.skip(ms.len() - message_limit()));
            }
        } else {
            assert(prev.push(ms.last()) =~= ms);
        }
    } else {
        assert(last_n(ms, message_limit()) =~= ms);
    }
}

} // verus!
