//! The daemon's connection and display state machine: from device and network
//! events to the next state and the screen actions to perform.

use vstd::prelude::*;

use crate::host::cli::{OptionsView, RunOptions};
use crate::host::ip_detect::{
    select_ipv4, select_spec, AddressView, NetworkSnapshot, Selection, SelectionConfig,
};
use crate::host::ipv4::Ipv4Addr;
use crate::text::push_str;

verus! {

#[derive(Debug, Clone, Copy, PartialEq, Eq, Structural)]
pub enum DaemonState {
    Listening,
    Connecting,
    ConnectedPendingIp,
    ConnectedDhcpFailed,
    ConnectedShowingIp(Ipv4Addr),
}

/// Something that happened; `now_ms` is a monotonic clock reading in milliseconds.
#[derive(Debug)]
pub enum DaemonEvent {
    DeviceCandidateFound,
    HandshakeOk,
    DeviceDisconnected,
    NetworkSnapshot { snapshot: NetworkSnapshot, now_ms: u64 },
}

pub ghost enum EventView {
    DeviceCandidateFound,
    HandshakeOk,
    DeviceDisconnected,
    NetworkSnapshot {
        addresses: Seq<AddressView>,
        routes: Seq<(Seq<char>, bool)>,
        now_ms: u64,
    },
}

impl View for DaemonEvent {
    type V = EventView;

    open spec fn view(&self) -> EventView {
        match self {
            DaemonEvent::DeviceCandidateFound => EventView::DeviceCandidateFound,
            DaemonEvent::HandshakeOk => EventView::HandshakeOk,
            DaemonEvent::DeviceDisconnected => EventView::DeviceDisconnected,
            DaemonEvent::NetworkSnapshot { snapshot, now_ms } => EventView::NetworkSnapshot {
                addresses: snapshot@.0,
                routes: snapshot@.1,
                now_ms: *now_ms,
            },
        }
    }
}

/// What the caller has to do on the device.
#[derive(Debug, Clone, Copy, PartialEq, Eq, Structural)]
pub enum DaemonAction {
    OpenDevice,
    CloseDevice,
    ShowPending,
    ShowDhcpFailed,
    ShowIp(Ipv4Addr),
}

pub struct Daemon {
    pub state: DaemonState,
    options: RunOptions,
    failure_since: Option<u64>,
}

pub open spec fn is_connected_spec(state: DaemonState) -> bool {
    match state {
        DaemonState::ConnectedPendingIp | DaemonState::ConnectedDhcpFailed | DaemonState::ConnectedShowingIp(
            _,
        ) => true,
        _ => false,
    }
}

/// Whether at least `delay_secs` seconds lie between `since_ms` and `now_ms`
/// (a clock reading before `since_ms` counts as no time at all).
pub open spec fn delay_elapsed(since_ms: u64, now_ms: u64, delay_secs: u64) -> bool {
    let elapsed: int = if now_ms >= since_ms {
        now_ms - since_ms
    } else {
        0
    };
    elapsed >= delay_secs * 1000
}

/// The state, the start of the current failure period, and the actions.
pub type StepResult = (DaemonState, Option<u64>, Seq<DaemonAction>);

/// One step of the daemon.
pub open spec fn step(
    state: DaemonState,
    failure_since: Option<u64>,
    options: OptionsView,
    event: EventView,
) -> StepResult {
    match event {
        EventView::DeviceCandidateFound => if state == DaemonState::Listening {
            (DaemonState::Connecting, failure_since, seq![DaemonAction::OpenDevice])
        } else {
            (state, failure_since, seq![])
        },
        EventView::HandshakeOk => if state == DaemonState::Connecting {
            (DaemonState::ConnectedPendingIp, None, seq![DaemonAction::ShowPending])
        } else {
            (state, failure_since, seq![])
        },
        EventView::DeviceDisconnected => (DaemonState::Listening, None, seq![DaemonAction::CloseDevice]),
        EventView::NetworkSnapshot { addresses, routes, now_ms } => if !is_connected_spec(state) {
            (state, failure_since, seq![])
        } else {
            match select_spec(addresses, routes, options.interface) {
                Selection::Show(ip) => if state == DaemonState::ConnectedShowingIp(ip) {
                    (state, None, seq![])
                } else {
                    (DaemonState::ConnectedShowingIp(ip), None, seq![DaemonAction::ShowIp(ip)])
                },
                Selection::Pending => if state == DaemonState::ConnectedPendingIp {
                    (state, None, seq![])
                } else {
                    (DaemonState::ConnectedPendingIp, None, seq![DaemonAction::ShowPending])
                },
                Selection::FailureCandidate => match failure_since {
                    Some(first_seen) => if delay_elapsed(first_seen, now_ms, options.delay) {
                        if state == DaemonState::ConnectedDhcpFailed {
                            (state, failure_since, seq![])
                        } else {
                            (DaemonState::ConnectedDhcpFailed, failure_since, seq![DaemonAction::ShowDhcpFailed])
                        }
                    } else {
                        (state, failure_since, seq![])
                    },
                    None => (state, Some(now_ms), seq![]),
                },
            }
        },
    }
}

/// A failure period is only being timed while a device is connected.
pub open spec fn daemon_inv(state: DaemonState, failure_since: Option<u64>) -> bool {
    failure_since is Some ==> is_connected_spec(state)
}

pub fn is_connected(state: DaemonState) -> (r: bool)
    ensures
        r == is_connected_spec(state),
{
    match state {
        DaemonState::ConnectedPendingIp | DaemonState::ConnectedDhcpFailed | DaemonState::ConnectedShowingIp(
            _,
        ) => true,
        _ => false,
    }
}

fn elapsed_at_least(since_ms: u64, now_ms: u64, delay_secs: u64) -> (r: bool)
    ensures
        r == delay_elapsed(since_ms, now_ms, delay_secs),
{
    let elapsed: u64 = if now_ms >= since_ms {
        now_ms - since_ms
    } else {
        0
    };
    (elapsed as u128) >= (delay_secs as u128) * 1000
}

fn one_action(a: DaemonAction) -> (r: Vec<DaemonAction>)
    ensures
        r@ == seq![a],
{
    let mut v = Vec::new();
    v.push(a);
    v
}

fn copy_interface(i: &Option<String>) -> (r: Option<String>)
    ensures
        match r {
            Some(s) => i is Some && s@ == i->0@,
            None => i is None,
        },
{
    match i {
        Some(s) => {
            let mut c = String::new();
            push_str(&mut c, s.as_str());
            Some(c)
        },
        None => None,
    }
}

impl Daemon {
    pub closed spec fn current(&self) -> DaemonState {
        self.state
    }

    /// The timing of a failure period only runs while connected.
    pub closed spec fn wf(&self) -> bool {
        daemon_inv(self.state, self.failure_since)
    }

    pub fn state(&self) -> (r: DaemonState)
        ensures
            r == self.current(),
    {
        self.state
    }

    pub closed spec fn failure_since(&self) -> Option<u64> {
        self.failure_since
    }

    pub closed spec fn options(&self) -> OptionsView {
        self.options@
    }

    pub fn new(options: RunOptions) -> (r: Daemon)
        ensures
            r.current() == DaemonState::Listening,
            r.wf(),
            r.failure_since() is None,
            r.options() == options@,
    {
        Daemon { state: DaemonState::Listening, options, failure_since: None }
    }

    /// Applies one event (see [`step`]) and returns the actions to perform, in order.
    pub fn handle_event(&mut self, event: DaemonEvent) -> (r: Vec<DaemonAction>)
        ensures
            (final(self).current(), final(self).failure_since(), r@) == step(
                old(self).current(),
                old(self).failure_since(),
                old(self).options(),
                event@,
            ),
            final(self).options() == old(self).options(),
            old(self).wf() ==> final(self).wf(),
    {
        match event {
            DaemonEvent::DeviceCandidateFound => {
                if self.state == DaemonState::Listening {
                    self.state = DaemonState::Connecting;
                    one_action(DaemonAction::OpenDevice)
                } else {
                    Vec::new()
                }
            },
            DaemonEvent::HandshakeOk => {
                if self.state == DaemonState::Connecting {
                    self.state = DaemonState::ConnectedPendingIp;
                    self.failure_since = None;
                    one_action(DaemonAction::ShowPending)
                } else {
                    Vec::new()
                }
            },
            DaemonEvent::DeviceDisconnected => {
                self.state = DaemonState::Listening;
                self.failure_since = None;
                one_action(DaemonAction::CloseDevice)
            },
            DaemonEvent::NetworkSnapshot { snapshot, now_ms } => {
                if !is_connected(self.state) {
                    return Vec::new();
                }
                let config = SelectionConfig { interface: copy_interface(&self.options.interface) };
                match select_ipv4(&snapshot, &config) {
                    Selection::Show(ip) => {
                        self.failure_since = None;
                        if self.state == DaemonState::ConnectedShowingIp(ip) {
                            Vec::new()
                        } else {
                            self.state = DaemonState::ConnectedShowingIp(ip);
                            one_action(DaemonAction::ShowIp(ip))
                        }
                    },
                    Selection::Pending => {
                        self.failure_since = None;
                        if self.state == DaemonState::ConnectedPendingIp {
                            Vec::new()
                        } else {
                            self.state = DaemonState::ConnectedPendingIp;
                            one_action(DaemonAction::ShowPending)
                        }
                    },
                    Selection::FailureCandidate => {
                        match self.failure_since {
                            Some(first_seen) => {
                                if elapsed_at_least(first_seen, now_ms, self.options.dhcp_fail_delay_secs) {
                                    if self.state == DaemonState::ConnectedDhcpFailed {
                                        Vec::new()
                                    } else {
                                        self.state = DaemonState::ConnectedDhcpFailed;
                                        one_action(DaemonAction::ShowDhcpFailed)
                                    }
                                } else {
                                    Vec::new()
                                }
                            },
                            None => {
                                self.failure_since = Some(now_ms);
                                Vec::new()
                            },
                        }
                    },
                }
            },
        }
    }
}

/// A new daemon starts in the invariant, and every step keeps it.
pub proof fn lemma_step_keeps_invariant(
    state: DaemonState,
    failure_since: Option<u64>,
    options: OptionsView,
    event: EventView,
)
    requires
        daemon_inv(state, failure_since),
    ensures
        daemon_inv(step(state, failure_since, options, event).0, step(state, failure_since, options, event).1),
{
}

/// A disconnect, from any state, closes the device and goes back to listening
/// with no failure period running.
pub proof fn lemma_disconnect_resets(state: DaemonState, failure_since: Option<u64>, options: OptionsView)
    ensures
        step(state, failure_since, options, EventView::DeviceDisconnected) == (
            DaemonState::Listening,
            None::<u64>,
            seq![DaemonAction::CloseDevice],
        ),
{
}

/// Every action a step asks for matches the state it leaves behind: the screen
/// shows what the state says.
pub proof fn lemma_actions_match_state(
    state: DaemonState,
    failure_since: Option<u64>,
    options: OptionsView,
    event: EventView,
)
    ensures
        ({
            let (s, _, acts) = step(state, failure_since, options, event);
            &&& acts.len() <= 1
            &&& acts.len() == 1 ==> match acts[0] {
                DaemonAction::OpenDevice => s == DaemonState::Connecting,
                DaemonAction::CloseDevice => s == DaemonState::Listening,
                DaemonAction::ShowPending => s == DaemonState::ConnectedPendingIp,
                DaemonAction::ShowDhcpFailed => s == DaemonState::ConnectedDhcpFailed,
                DaemonAction::ShowIp(ip) => s == DaemonState::ConnectedShowingIp(ip),
            }
            &&& acts.len() == 0 ==> s == state
        }),
{
}

/// Feeding the same network snapshot again right after a step changes nothing
/// on the screen: the screen is only redrawn when what it shows changes.
pub proof fn lemma_repeat_snapshot_is_quiet(
    state: DaemonState,
    failure_since: Option<u64>,
    options: OptionsView,
    addresses: Seq<AddressView>,
    routes: Seq<(Seq<char>, bool)>,
    now_ms: u64,
)
    requires
        is_connected_spec(state),
        select_spec(addresses, routes, options.interface) != Selection::FailureCandidate,
    ensures
        ({
            let ev = EventView::NetworkSnapshot { addresses, routes, now_ms };
            let (s1, f1, _) = step(state, failure_since, options, ev);
            step(s1, f1, options, ev).2.len() == 0
        }),
{
}

/// The failure page is only put up once a failure has been seen for the whole
/// configured delay, and the first sighting only starts the clock.
pub proof fn lemma_failure_page_waits(
    state: DaemonState,
    failure_since: Option<u64>,
    options: OptionsView,
    event: EventView,
)
    ensures
        step(state, failure_since, options, event).2.contains(DaemonAction::ShowDhcpFailed) ==> ({
            &&& event matches EventView::NetworkSnapshot { now_ms, .. }
            &&& failure_since matches Some(t)
            &&& delay_elapsed(t, now_ms, options.delay)
        }),
{
    let acts = step(state, failure_since, options, event).2;
    if acts.contains(DaemonAction::ShowDhcpFailed) {
        let k = choose|k: int| 0 <= k < acts.len() && acts[k] == DaemonAction::ShowDhcpFailed;
        assert(acts[k] == DaemonAction::ShowDhcpFailed);
    }
}


/// While connected, a snapshot with a showable address puts that address on
/// the screen at once and ends any failure period; one without (still
/// pending) also ends it.
pub proof fn lemma_address_shown_at_once(
    state: DaemonState,
    failure_since: Option<u64>,
    options: OptionsView,
    addresses: Seq<AddressView>,
    routes: Seq<(Seq<char>, bool)>,
    now_ms: u64,
)
    requires
        is_connected_spec(state),
    ensures
        ({
            let (s, f, acts) = step(
                state,
                failure_since,
                options,
                EventView::NetworkSnapshot { addresses, routes, now_ms },
            );
            match select_spec(addresses, routes, options.interface) {
                Selection::Show(ip) => s == DaemonState::ConnectedShowingIp(ip) && f is None && (acts == seq![
                    DaemonAction::ShowIp(ip),
                ] || (state == s && acts.len() == 0)),
                Selection::Pending => s == DaemonState::ConnectedPendingIp && f is None,
                Selection::FailureCandidate => true,
            }
        }),
{
}

/// The daemon after a run of events, one step each, with every action asked for, in order.
pub open spec fn run(
    state: DaemonState,
    failure_since: Option<u64>,
    options: OptionsView,
    events: Seq<EventView>,
) -> StepResult
    decreases events.len(),
{
    if events.len() == 0 {
        (state, failure_since, seq![])
    } else {
        let (s1, f1, a1) = step(state, failure_since, options, events[0]);
        let (s2, f2, a2) = run(s1, f1, options, events.drop_first());
        (s2, f2, a1 + a2)
    }
}

/// A network snapshot in which no address can be shown, and no pending one waits.
pub open spec fn failure_snapshot(e: EventView, options: OptionsView) -> bool {
    e matches EventView::NetworkSnapshot { addresses, routes, .. } && select_spec(addresses, routes, options.interface)
        == Selection::FailureCandidate
}

/// The clock reading a snapshot was taken at.
pub open spec fn snapshot_time(e: EventView) -> u64 {
    match e {
        EventView::NetworkSnapshot { now_ms, .. } => now_ms,
        _ => 0,
    }
}

proof fn lemma_failure_run_keeps_start(
    state: DaemonState,
    first_seen: u64,
    options: OptionsView,
    events: Seq<EventView>,
)
    requires
        is_connected_spec(state),
        forall|i: int| 0 <= i < events.len() ==> #[trigger] failure_snapshot(events[i], options),
    ensures
        is_connected_spec(run(state, Some(first_seen), options, events).0),
        run(state, Some(first_seen), options, events).1 == Some(first_seen),
        events.len() > 0 && delay_elapsed(first_seen, snapshot_time(events.last()), options.delay) ==> run(
            state,
            Some(first_seen),
            options,
            events,
        ).0 == DaemonState::ConnectedDhcpFailed,
    decreases events.len(),
{
    if events.len() > 0 {
        assert(failure_snapshot(events[0], options));
        let (s1, f1, a1) = step(state, Some(first_seen), options, events[0]);
        let rest = events.drop_first();
        assert forall|i: int| 0 <= i < rest.len() implies #[trigger] failure_snapshot(rest[i], options) by {
            assert(rest[i] == events[i + 1]);
            assert(failure_snapshot(events[i + 1], options));
        }
        lemma_failure_run_keeps_start(s1, first_seen, options, rest);
        if rest.len() > 0 {
            assert(rest.last() == events.last());
        }
    }
}

/// With a device connected and no failure being timed, a run of snapshots
/// that show no address ends on the DHCP-failed screen once the last one
/// comes at least the configured delay after the first: the first snapshot
/// starts the timing, and none of them stops it.
pub proof fn lemma_dhcp_failed_after_delay(
    state: DaemonState,
    options: OptionsView,
    events: Seq<EventView>,
)
    requires
        is_connected_spec(state),
        events.len() >= 2,
        forall|i: int| 0 <= i < events.len() ==> #[trigger] failure_snapshot(events[i], options),
        delay_elapsed(snapshot_time(events[0]), snapshot_time(events.last()), options.delay),
    ensures
        run(state, None, options, events).0 == DaemonState::ConnectedDhcpFailed,
        run(state, None, options, events).1 == Some(snapshot_time(events[0])),
{
    assert(failure_snapshot(events[0], options));
    let t0 = snapshot_time(events[0]);
    assert(step(state, None, options, events[0]) == (state, Some(t0), Seq::<DaemonAction>::empty()));
    let rest = events.drop_first();
    assert forall|i: int| 0 <= i < rest.len() implies #[trigger] failure_snapshot(rest[i], options) by {
        assert(rest[i] == events[i + 1]);
        assert(failure_snapshot(events[i + 1], options));
    }
    assert(rest.last() == events.last());
    lemma_failure_run_keeps_start(state, t0, options, rest);
}

/// An event that leaves a running failure period running: a snapshot with
/// no address to show, or a device event that changes nothing once connected.
pub open spec fn keeps_failure_timer(e: EventView, options: OptionsView) -> bool {
    ||| failure_snapshot(e, options)
    ||| e is DeviceCandidateFound
    ||| e is HandshakeOk
}

/// The failure screen is owed by `events[..=j]`: from a snapshot `i` that
/// started the failure period, every event up to `j` kept it running, and
/// snapshot `j` came at least the configured delay after snapshot `i`.
pub open spec fn failure_lasted(events: Seq<EventView>, options: OptionsView, i: int, j: int) -> bool {
    &&& 0 <= i <= j < events.len()
    &&& failure_snapshot(events[i], options)
    &&& failure_snapshot(events[j], options)
    &&& forall|m: int| i < m <= j ==> #[trigger] keeps_failure_timer(events[m], options)
    &&& delay_elapsed(snapshot_time(events[i]), snapshot_time(events[j]), options.delay)
}

/// A snapshot that selects an address, or finds one still pending, ends any
/// failure period while connected.
pub proof fn lemma_selection_restarts_timer(
    state: DaemonState,
    failure_since: Option<u64>,
    options: OptionsView,
    event: EventView,
)
    requires
        is_connected_spec(state),
        event matches EventView::NetworkSnapshot { addresses, routes, .. } && select_spec(
            addresses,
            routes,
            options.interface,
        ) != Selection::FailureCandidate,
    ensures
        step(state, failure_since, options, event).1 is None,
{
}

proof fn lemma_failure_shown_only_after_delay_from(
    state: DaemonState,
    failure_since: Option<u64>,
    options: OptionsView,
    events: Seq<EventView>,
)
    requires
        daemon_inv(state, failure_since),
        run(state, failure_since, options, events).2.contains(DaemonAction::ShowDhcpFailed),
    ensures
        (exists|i: int, j: int| #[trigger] failure_lasted(events, options, i, j)) || (failure_since matches Some(t)
            && exists|j: int|
            0 <= j < events.len() && failure_snapshot(events[j], options) && (forall|m: int|
                0 <= m <= j ==> #[trigger] keeps_failure_timer(events[m], options)) && delay_elapsed(
                t,
                snapshot_time(events[j]),
                options.delay,
            )),
    decreases events.len(),
{
    let (s1, f1, a1) = step(state, failure_since, options, events[0]);
    let rest = events.drop_first();
    let (s2, f2, a2) = run(s1, f1, options, rest);
    assert(run(state, failure_since, options, events).2 == a1 + a2);
    lemma_step_keeps_invariant(state, failure_since, options, events[0]);
    if a1.contains(DaemonAction::ShowDhcpFailed) {
        let k = choose|k: int| 0 <= k < a1.len() && a1[k] == DaemonAction::ShowDhcpFailed;
        assert(a1[k] == DaemonAction::ShowDhcpFailed);
        assert(failure_snapshot(events[0], options));
        assert(keeps_failure_timer(events[0], options));
        assert(forall|m: int| 0 <= m <= 0 ==> #[trigger] keeps_failure_timer(events[m], options));
    } else {
        let acts = a1 + a2;
        let k = choose|k: int| 0 <= k < acts.len() && acts[k] == DaemonAction::ShowDhcpFailed;
        assert(a2[k - a1.len()] == DaemonAction::ShowDhcpFailed);
        assert(a2.contains(DaemonAction::ShowDhcpFailed));
        lemma_failure_shown_only_after_delay_from(s1, f1, options, rest);
        if exists|i: int, j: int| #[trigger] failure_lasted(rest, options, i, j) {
            let (i, j) = choose|i: int, j: int| #[trigger] failure_lasted(rest, options, i, j);
            assert forall|m: int| i + 1 < m <= j + 1 implies #[trigger] keeps_failure_timer(events[m], options) by {
                assert(events[m] == rest[m - 1]);
                assert(keeps_failure_timer(rest[m - 1], options));
            }
            assert(events[i + 1] == rest[i] && events[j + 1] == rest[j]);
            assert(failure_lasted(events, options, i + 1, j + 1));
        } else {
            let t = f1->0;
            let j = choose|j: int|
                0 <= j < rest.len() && failure_snapshot(rest[j], options) && (forall|m: int|
                    0 <= m <= j ==> #[trigger] keeps_failure_timer(rest[m], options)) && delay_elapsed(
                    t,
                    snapshot_time(rest[j]),
                    options.delay,
                );
            assert(events[j + 1] == rest[j]);
            if failure_since == Some(t) {
                assert(keeps_failure_timer(events[0], options));
                assert forall|m: int| 0 <= m <= j + 1 implies #[trigger] keeps_failure_timer(events[m], options) by {
                    if m > 0 {
                        assert(events[m] == rest[m - 1]);
                        assert(keeps_failure_timer(rest[m - 1], options));
                    }
                }
            } else {
                assert(failure_snapshot(events[0], options));
                assert(snapshot_time(events[0]) == t);
                assert forall|m: int| 0 < m <= j + 1 implies #[trigger] keeps_failure_timer(events[m], options) by {
                    assert(events[m] == rest[m - 1]);
                    assert(keeps_failure_timer(rest[m - 1], options));
                }
                assert(failure_lasted(events, options, 0, j + 1));
            }
        }
    }
}

/// Starting with no failure period, the DHCP-failed screen is only ever
/// asked for after a snapshot with no address started a failure period,
/// every event since kept it running, and a later such snapshot came at
/// least the configured delay after it.
pub proof fn lemma_dhcp_failed_only_after_delay(state: DaemonState, options: OptionsView, events: Seq<EventView>)
    requires
        run(state, None, options, events).2.contains(DaemonAction::ShowDhcpFailed),
    ensures
        exists|i: int, j: int| #[trigger] failure_lasted(events, options, i, j),
{
    lemma_failure_shown_only_after_delay_from(state, None, options, events);
}

} // verus!
