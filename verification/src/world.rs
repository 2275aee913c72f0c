//! The lifecycle of the Durable Object that hosts one server: which phase the
//! server is in, how an inbound connection is admitted, how connections are
//! counted, and what the status and server-list responders report.
//!
//! The server itself, its timers and the platform's promises are driven from
//! outside the library, which asks `Lifecycle` what to do and tells it what
//! happened.

use vstd::prelude::*;
use crate::settings::Settings;

verus! {

/// The port of the server's listener.
pub const PORT: u16 = 25565;

/// Where the server stands.
#[derive(Clone, Copy, PartialEq, Eq, Debug, Structural)]
pub enum Phase {
    /// No server runs.
    Idle,
    /// The server is starting for a connection.
    Starting,
    /// The server runs and takes connections.
    Running,
    /// The last connection left and the world is being checkpointed.
    Saving,
    /// The server is stopping after its reconnect window.
    Stopping,
    /// Starting or running the server failed; the object refuses connections.
    Failed,
}

/// The name that the status responder reports for a phase.
pub open spec fn phase_name(phase: Phase) -> Seq<char> {
    match phase {
        Phase::Idle => "idle"@,
        Phase::Starting => "starting"@,
        Phase::Running => "running"@,
        Phase::Saving => "saving"@,
        Phase::Stopping => "stopping"@,
        Phase::Failed => "failed"@,
    }
}

impl Phase {
    /// The name that the status responder reports.
    pub fn name(self) -> (name: &'static str)
        ensures
            name@ == phase_name(self),
    {
        match self {
            Phase::Idle => "idle",
            Phase::Starting => "starting",
            Phase::Running => "running",
            Phase::Saving => "saving",
            Phase::Stopping => "stopping",
            Phase::Failed => "failed",
        }
    }
}

/// The authority that routes a connection to the server's listener.
pub fn authority() -> (authority: String)
    ensures
        authority@ == "world:25565"@,
{
    String::from_str("world:25565")
}

/// The state of the object, as values.
pub struct LifecycleView {
    pub phase: Phase,
    /// The message of the failure that stopped the object, or of the
    /// settings' refusal, if any.
    pub failure: Option<Seq<char>>,
    /// The connections routed to the server and not yet closed.
    pub connections: nat,
    /// The servers started in this object's lifetime.
    pub starts: nat,
    /// Whether a connection waits for the next phase change.
    pub waiting: bool,
    /// Whether a connection was routed since the reconnect window opened.
    pub routed_in_window: bool,
    /// The message of the last checkpoint that failed, if any.
    pub checkpoint_failure: Option<Seq<char>>,
}

/// The state of the object.
pub struct Lifecycle {
    phase: Phase,
    failure: Option<String>,
    connections: u32,
    starts: u32,
    waiting: bool,
    routed_in_window: bool,
    checkpoint_failure: Option<String>,
}

impl View for Lifecycle {
    type V = LifecycleView;

    closed spec fn view(&self) -> LifecycleView {
        LifecycleView {
            phase: self.phase,
            failure: match self.failure {
                Some(m) => Some(m@),
                None => None,
            },
            connections: self.connections as nat,
            starts: self.starts as nat,
            waiting: self.waiting,
            routed_in_window: self.routed_in_window,
            checkpoint_failure: match self.checkpoint_failure {
                Some(m) => Some(m@),
                None => None,
            },
        }
    }
}

/// How an inbound connection is admitted.
pub enum Admission {
    /// Route it to the running server.
    Route,
    /// Refuse it with this message.
    Refuse(String),
    /// Wait for the next phase change, then ask again.
    Wait,
    /// Start the server for it.
    Start,
}

/// How an inbound connection is admitted, as values.
pub enum AdmissionView {
    Route,
    Refuse(Seq<char>),
    Wait,
    Start,
}

/// How a connection is admitted in state `s`.
pub open spec fn admission(s: LifecycleView) -> AdmissionView {
    match s.phase {
        Phase::Running => AdmissionView::Route,
        Phase::Failed => AdmissionView::Refuse(
            match s.failure {
                Some(m) => m,
                None => "failed"@,
            },
        ),
        Phase::Starting | Phase::Saving | Phase::Stopping => AdmissionView::Wait,
        Phase::Idle => AdmissionView::Start,
    }
}

/// The state after a change to `phase`, which releases any waiting
/// connection.
pub open spec fn changed(s: LifecycleView, phase: Phase) -> LifecycleView {
    LifecycleView { phase, waiting: false, ..s }
}

/// The state after the failure `message`: the first failure is kept.
pub open spec fn failed(s: LifecycleView, message: Seq<char>) -> LifecycleView {
    if s.phase == Phase::Failed {
        s
    } else {
        LifecycleView { failure: Some(message), ..changed(s, Phase::Failed) }
    }
}

/// The state after a connection was routed.
pub open spec fn routed(s: LifecycleView) -> LifecycleView {
    LifecycleView { connections: s.connections + 1, routed_in_window: true, ..s }
}

/// Whether a server is up, running or checkpointing, so that its players
/// and statistics are reported.
pub open spec fn server_up(phase: Phase) -> bool {
    phase == Phase::Running || phase == Phase::Saving
}

/// What happened to the idle watch of a running server.
pub enum IdleEvent {
    /// The last connection closed.
    Notified,
    /// The checkpoint after the last connection closed is done.
    Checkpointed,
    /// The reconnect window is over.
    WindowElapsed,
}

/// What the idle watch of a running server does next.
#[derive(Clone, Copy, PartialEq, Eq, Debug, Structural)]
pub enum IdleAction {
    /// Wait until the last connection closes.
    AwaitIdle,
    /// Checkpoint the world: save it and make the writes durable.
    Checkpoint,
    /// Keep the server up for the reconnect window.
    OpenWindow,
    /// Stop the server; its final save follows.
    Stop,
}

/// The state and action after `event` in state `s`.
pub open spec fn idle_outcome(s: LifecycleView, event: IdleEvent) -> (LifecycleView, IdleAction) {
    match event {
        IdleEvent::Notified => if s.connections != 0 {
            (s, IdleAction::AwaitIdle)
        } else {
            (changed(s, Phase::Saving), IdleAction::Checkpoint)
        },
        IdleEvent::Checkpointed => if s.connections != 0 {
            (changed(s, Phase::Running), IdleAction::AwaitIdle)
        } else {
            (
                LifecycleView { routed_in_window: false, ..changed(s, Phase::Running) },
                IdleAction::OpenWindow,
            )
        },
        IdleEvent::WindowElapsed => if s.connections == 0 && !s.routed_in_window {
            (changed(s, Phase::Stopping), IdleAction::Stop)
        } else {
            (LifecycleView { routed_in_window: false, ..s }, IdleAction::AwaitIdle)
        },
    }
}

/// The state after a routed connection closed.
pub open spec fn closed(s: LifecycleView) -> LifecycleView {
    LifecycleView { connections: (s.connections - 1) as nat, ..s }
}

/// What the status responder reports of the object.
pub struct StatusReport {
    pub phase: &'static str,
    pub connections: u32,
    pub failure: Option<String>,
    /// The message of the last checkpoint that failed, if any.
    pub checkpoint_failure: Option<String>,
    pub runtime_starts: u32,
    /// Whether the effective settings are shown; they are not when they were
    /// refused.
    pub settings_shown: bool,
    /// Whether the running server's statistics are shown.
    pub server_shown: bool,
}

/// What the server-list responder reports.
pub struct ServerListing {
    /// The description shown in the server list.
    pub text: String,
    pub max_players: u32,
    pub online: usize,
}

impl Lifecycle {
    /// An object that has not started a server. `refused` is the message of
    /// the settings' error, if they were refused; it is reported as the
    /// object's failure from the start.
    pub fn new(refused: Option<String>) -> (lifecycle: Lifecycle)
        ensures
            lifecycle@ == (LifecycleView {
                phase: Phase::Idle,
                failure: match refused {
                    Some(m) => Some(m@),
                    None => None,
                },
                connections: 0,
                starts: 0,
                waiting: false,
                routed_in_window: false,
                checkpoint_failure: None,
            }),
    {
        Lifecycle {
            phase: Phase::Idle,
            failure: refused,
            connections: 0,
            starts: 0,
            waiting: false,
            routed_in_window: false,
            checkpoint_failure: None,
        }
    }

    /// The current phase.
    pub fn phase(&self) -> (phase: Phase)
        ensures
            phase == self@.phase,
    {
        self.phase
    }

    /// The connections routed and not yet closed.
    pub fn connections(&self) -> (n: u32)
        ensures
            n == self@.connections,
    {
        self.connections
    }

    /// The servers started so far.
    pub fn starts(&self) -> (n: u32)
        ensures
            n == self@.starts,
    {
        self.starts
    }

    /// How an inbound connection is admitted.
    pub fn connection_admission(&self) -> (a: Admission)
        ensures
            match admission(self@) {
                AdmissionView::Route => a is Route,
                AdmissionView::Refuse(m) => a matches Admission::Refuse(r) && r@ == m,
                AdmissionView::Wait => a is Wait,
                AdmissionView::Start => a is Start,
            },
    {
        match self.phase {
            Phase::Running => Admission::Route,
            Phase::Failed => Admission::Refuse(
                match &self.failure {
                    Some(m) => m.clone(),
                    None => String::from_str("failed"),
                },
            ),
            Phase::Starting | Phase::Saving | Phase::Stopping => Admission::Wait,
            Phase::Idle => Admission::Start,
        }
    }

    /// A connection waits for the next phase change. Returns whether it is
    /// the first to wait since the last change, so that the promise of the
    /// change is to be made.
    pub fn wait_for_change(&mut self) -> (first: bool)
        ensures
            first == !old(self)@.waiting,
            final(self)@ == (LifecycleView { waiting: true, ..old(self)@ }),
    {
        let first = !self.waiting;
        self.waiting = true;
        first
    }

    /// Changes the phase. Returns whether connections wait for the change, so
    /// that its promise is to be resolved.
    pub fn set_phase(&mut self, phase: Phase) -> (release: bool)
        ensures
            release == old(self)@.waiting,
            final(self)@ == changed(old(self)@, phase),
    {
        let release = self.waiting;
        self.phase = phase;
        self.waiting = false;
        release
    }

    /// Records the failure `message` unless the object already failed.
    /// Returns whether connections wait for the change.
    pub fn fail(&mut self, message: String) -> (release: bool)
        ensures
            release == (old(self)@.phase != Phase::Failed && old(self)@.waiting),
            final(self)@ == failed(old(self)@, message@),
    {
        if self.phase != Phase::Failed {
            let release = self.set_phase(Phase::Failed);
            self.failure = Some(message);
            release
        } else {
            false
        }
    }

    /// The server started and runs. Returns whether connections wait for the
    /// change.
    pub fn started(&mut self) -> (release: bool)
        requires
            old(self)@.starts < u32::MAX,
        ensures
            release == old(self)@.waiting,
            final(self)@ == (LifecycleView { starts: old(self)@.starts + 1, ..changed(old(self)@, Phase::Running) }),
    {
        let release = self.set_phase(Phase::Running);
        self.starts = self.starts + 1;
        release
    }

    /// A connection was routed to the server.
    pub fn route(&mut self)
        requires
            old(self)@.connections < u32::MAX,
        ensures
            final(self)@ == routed(old(self)@),
    {
        self.connections = self.connections + 1;
        self.routed_in_window = true;
    }

    /// Decides what the idle watch of the running server does after `event`:
    /// once the last connection closes the world is checkpointed, then the
    /// server stays up for the reconnect window, and it stops at the end of
    /// the window unless a connection is open or was routed during it.
    /// `release` tells whether connections wait for a phase change made here.
    pub fn idle_step(&mut self, event: IdleEvent) -> (step: (IdleAction, bool))
        ensures
            (final(self)@, step.0) == idle_outcome(old(self)@, event),
            step.1 == (old(self)@.waiting && !final(self)@.waiting),
    {
        match event {
            IdleEvent::Notified => {
                if self.connections != 0 {
                    (IdleAction::AwaitIdle, false)
                } else {
                    let release = self.set_phase(Phase::Saving);
                    (IdleAction::Checkpoint, release)
                }
            },
            IdleEvent::Checkpointed => {
                let release = self.set_phase(Phase::Running);
                if self.connections != 0 {
                    (IdleAction::AwaitIdle, release)
                } else {
                    self.routed_in_window = false;
                    (IdleAction::OpenWindow, release)
                }
            },
            IdleEvent::WindowElapsed => {
                if self.connections == 0 && !self.routed_in_window {
                    let release = self.set_phase(Phase::Stopping);
                    (IdleAction::Stop, release)
                } else {
                    self.routed_in_window = false;
                    (IdleAction::AwaitIdle, false)
                }
            },
        }
    }

    /// Records that a checkpoint failed with `message`.
    pub fn checkpoint_failed(&mut self, message: String)
        ensures
            final(self)@ == (LifecycleView { checkpoint_failure: Some(message@), ..old(self)@ }),
    {
        self.checkpoint_failure = Some(message);
    }

    /// A routed connection closed. Returns whether it was the last one, so
    /// that the server is told it is idle.
    pub fn close(&mut self) -> (last: bool)
        requires
            old(self)@.connections > 0,
        ensures
            final(self)@ == closed(old(self)@),
            last == (final(self)@.connections == 0),
    {
        self.connections = self.connections - 1;
        self.connections == 0
    }

    /// What the status responder reports, given whether the settings were
    /// accepted and whether a server is present.
    pub fn status(&self, settings_accepted: bool, server_present: bool) -> (report: StatusReport)
        ensures
            report.phase@ == phase_name(self@.phase),
            report.connections == self@.connections,
            match self@.failure {
                Some(m) => report.failure matches Some(f) && f@ == m,
                None => report.failure is None,
            },
            match self@.checkpoint_failure {
                Some(m) => report.checkpoint_failure matches Some(f) && f@ == m,
                None => report.checkpoint_failure is None,
            },
            report.runtime_starts == self@.starts,
            report.settings_shown == settings_accepted,
            report.server_shown == (server_up(self@.phase) && server_present),
            report.server_shown ==> (self@.phase == Phase::Running || self@.phase == Phase::Saving),
    {
        StatusReport {
            phase: self.phase.name(),
            connections: self.connections,
            failure: match &self.failure {
                Some(m) => Some(m.clone()),
                None => None,
            },
            checkpoint_failure: match &self.checkpoint_failure {
                Some(m) => Some(m.clone()),
                None => None,
            },
            runtime_starts: self.starts,
            settings_shown: settings_accepted,
            server_shown: (self.phase == Phase::Running || self.phase == Phase::Saving)
                && server_present,
        }
    }

    /// What the server-list responder reports, without starting a server:
    /// the settings' description, or a notice once the object failed; the
    /// player limit; and the players online, counted only while the server
    /// runs or checkpoints. `players` is the running server's player count, if a server is
    /// present. Refused settings are reported as the error.
    pub fn server_listing(&self, settings: &Result<Settings, String>, players: Option<usize>) -> (listing: Result<ServerListing, String>)
        ensures
            match settings {
                Err(e) => listing matches Err(r) && r@ == e@,
                Ok(s) => listing matches Ok(l) && {
                    &&& l.text@ == if self@.phase == Phase::Failed {
                        "Server unavailable"@
                    } else {
                        s.motd@
                    }
                    &&& l.max_players == s.max_players
                    &&& l.online != 0 ==> (self@.phase == Phase::Running || self@.phase
                        == Phase::Saving)
                    &&& l.online == match players {
                        Some(n) => if server_up(self@.phase) {
                            n
                        } else {
                            0
                        },
                        None => 0,
                    }
                },
            },
    {
        let settings = match settings {
            Ok(s) => s,
            Err(e) => return Err(e.clone()),
        };
        let online = match players {
            Some(n) => if self.phase == Phase::Running || self.phase == Phase::Saving {
                n
            } else {
                0
            },
            None => 0,
        };
        let text = if self.phase == Phase::Failed {
            String::from_str("Server unavailable")
        } else {
            settings.motd.clone()
        };
        Ok(ServerListing { text, max_players: settings.max_players, online })
    }
}

/// Once the object failed, every connection is refused with the message of
/// the first failure, and later failures change nothing.
pub proof fn lemma_failure_is_final(s: LifecycleView, first: Seq<char>, later: Seq<char>)
    requires
        s.phase != Phase::Failed,
    ensures
        admission(failed(s, first)) == AdmissionView::Refuse(first),
        failed(failed(s, first), later) == failed(s, first),
{
}

/// Routing a connection and closing it leaves the count as it was, and
/// marks that a connection came during the reconnect window.
pub proof fn lemma_route_close(s: LifecycleView)
    ensures
        closed(routed(s)) == (LifecycleView { routed_in_window: true, ..s }),
{
}

/// After the checkpoint that follows the last connection, a reconnect window
/// in which nobody connects ends with the server stopping.
pub proof fn lemma_quiet_window_stops(s: LifecycleView)
    requires
        s.connections == 0,
    ensures
        idle_outcome(s, IdleEvent::Notified).1 == IdleAction::Checkpoint,
        idle_outcome(idle_outcome(s, IdleEvent::Notified).0, IdleEvent::Checkpointed).1
            == IdleAction::OpenWindow,
        idle_outcome(
            idle_outcome(idle_outcome(s, IdleEvent::Notified).0, IdleEvent::Checkpointed).0,
            IdleEvent::WindowElapsed,
        ) == (LifecycleView { routed_in_window: false, ..changed(s, Phase::Stopping) }, IdleAction::Stop),
{
}

/// A connection that joins during the reconnect window cancels the pending
/// stop, whether it is still open or already left when the window ends.
pub proof fn lemma_reconnect_cancels_stop(s: LifecycleView, leaves: bool)
    ensures
        ({
            let joined = routed(s);
            let at_end = if leaves {
                closed(joined)
            } else {
                joined
            };
            idle_outcome(at_end, IdleEvent::WindowElapsed).1 == IdleAction::AwaitIdle
        }),
{
}

/// A server is reported, with its statistics and players, only while it
/// runs or checkpoints: never while it starts, stops, has stopped or failed.
pub proof fn lemma_reported_only_while_up(phase: Phase)
    ensures
        server_up(phase) <==> (phase == Phase::Running || phase == Phase::Saving),
        !server_up(Phase::Idle),
        !server_up(Phase::Starting),
        !server_up(Phase::Stopping),
        !server_up(Phase::Failed),
{
}

/// Once the idle watch decides to stop the server, the server is no longer
/// reported as up, and no connection is routed to it.
pub proof fn lemma_stopping_not_reported(s: LifecycleView)
    ensures
        idle_outcome(s, IdleEvent::WindowElapsed).1 == IdleAction::Stop ==> {
            &&& !server_up(idle_outcome(s, IdleEvent::WindowElapsed).0.phase)
            &&& admission(idle_outcome(s, IdleEvent::WindowElapsed).0) is Wait
        },
{
}

} // verus!
