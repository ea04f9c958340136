//! The daemon's main loop, one tick at a time: scanning for the screen,
//! connecting with back-off, feeding network snapshots to the state machine,
//! drawing what it asks for, refreshing status pages and keeping the screen
//! alive. All device, network and clock access goes through [`RuntimeIo`].

use vstd::prelude::*;

use crate::host::cli::{DisplayMode, RunOptions, ShowView};
use crate::host::daemon::{is_connected_spec, Daemon, DaemonAction, DaemonEvent, DaemonState};
use crate::host::device_scan::TtyDevice;
use crate::host::display::{
    ip_writes, page_writes, pixel_writes_spec, region_writes, wire_view, DisplayRenderer, WireWrite, KEEPALIVE_X,
    KEEPALIVE_Y, RGB565_BLACK, RGB565_WHITE, SCREEN_HEIGHT, SCREEN_WIDTH,
};
use crate::host::ipv4::Ipv4Addr;
use crate::host::protocol::{DHCP_FAILED_PAGE, PENDING_PAGE};
use crate::host::qr_display::qr_render_result;
use crate::host::ip_detect::NetworkSnapshot;
use crate::host::serial::{SerialErrorKind, TimeoutCounter};
use crate::text::push_str;

verus! {

pub const KEEPALIVE_INTERVAL_MS: u64 = 800;

pub const NETWORK_SNAPSHOT_STALE_INTERVAL_MS: u64 = 2000;

pub const STATUS_PAGE_REFRESH_INTERVAL_MS: u64 = 2000;

pub const CONNECT_RETRY_MIN_INTERVAL_MS: u64 = 500;

pub const CONNECT_RETRY_MAX_INTERVAL_MS: u64 = 2000;

/// How long every tick sleeps before returning.
pub const TICK_SLEEP_MS: u64 = 500;

/// Consecutive serial timeouts after which the screen is dropped.
pub const SERIAL_TIMEOUT_LIMIT: u32 = 3;

/// A failed device, network or serial operation, already classified.
#[derive(Debug, Clone, PartialEq, Eq)]
pub struct IoFailure {
    pub kind: SerialErrorKind,
    pub message: String,
}

/// The write batches handed to the screen, one per `send_writes` call.
pub type DrawLog = Seq<Seq<(Seq<u8>, bool)>>;

/// The outside world of the daemon. `now` is a monotonic clock in milliseconds.
pub trait RuntimeIo {
    fn scan_devices(&mut self) -> Result<Vec<TtyDevice>, IoFailure>;

    fn connect(&mut self, device: &TtyDevice) -> Result<(), IoFailure>;

    fn disconnect(&mut self);

    fn network_snapshot(&mut self) -> Result<Option<NetworkSnapshot>, IoFailure>;

    fn send_writes(&mut self, writes: &[WireWrite]) -> Result<(), IoFailure>;

    fn sleep(&mut self, duration_ms: u64);

    fn now(&self) -> u64;
}

/// A batch the daemon may draw in a display mode: a status page, a
/// keepalive pixel, or the address screen of that mode for some address.
pub open spec fn is_screen_batch(batch: Seq<(Seq<u8>, bool)>, mode: ShowView) -> bool {
    ||| batch == page_writes(PENDING_PAGE)
    ||| batch == page_writes(DHCP_FAILED_PAGE)
    ||| batch == pixel_writes_spec(KEEPALIVE_X, KEEPALIVE_Y, RGB565_BLACK)
    ||| batch == pixel_writes_spec(KEEPALIVE_X, KEEPALIVE_Y, RGB565_WHITE)
    ||| match mode {
        ShowView::Text => exists|ip: Ipv4Addr| batch == #[trigger] ip_writes(ip),
        ShowView::Qr(template) => exists|ip: Ipv4Addr|
            #[trigger] qr_render_result(template, ip) is Ok && batch == region_writes(
                0,
                0,
                SCREEN_WIDTH,
                SCREEN_HEIGHT,
                qr_render_result(template, ip)->Ok_0,
            ),
    }
}

/// The batch that drawing an action hands to the screen, if it draws one (a
/// QR screen whose rendering fails draws nothing).
pub open spec fn action_batch(a: DaemonAction, mode: ShowView) -> Option<Seq<(Seq<u8>, bool)>> {
    match a {
        DaemonAction::ShowPending => Some(page_writes(PENDING_PAGE)),
        DaemonAction::ShowDhcpFailed => Some(page_writes(DHCP_FAILED_PAGE)),
        DaemonAction::ShowIp(ip) => match mode {
            ShowView::Text => Some(ip_writes(ip)),
            ShowView::Qr(template) => match qr_render_result(template, ip) {
                Ok(bytes) => Some(region_writes(0, 0, SCREEN_WIDTH, SCREEN_HEIGHT, bytes)),
                Err(_) => None,
            },
        },
        _ => None,
    }
}

/// The page a state puts on the screen, if any.
pub open spec fn state_page(s: DaemonState, mode: ShowView) -> Option<Seq<(Seq<u8>, bool)>> {
    match s {
        DaemonState::ConnectedPendingIp => action_batch(DaemonAction::ShowPending, mode),
        DaemonState::ConnectedDhcpFailed => action_batch(DaemonAction::ShowDhcpFailed, mode),
        DaemonState::ConnectedShowingIp(ip) => action_batch(DaemonAction::ShowIp(ip), mode),
        _ => None,
    }
}

/// A display action still waiting to be drawn on an open session is the first
/// thing the next tick draws.
pub open spec fn owed_first_batch(connected: bool, pending: Option<DaemonAction>, mode: ShowView) -> Option<
    Seq<(Seq<u8>, bool)>,
> {
    if connected {
        match pending {
            Some(a) => action_batch(a, mode),
            None => None,
        }
    } else {
        None
    }
}

/// Between `before` and `after`, the page of state `s` was handed to the screen.
pub open spec fn page_drawn_since(before: DrawLog, after: DrawLog, s: DaemonState, mode: ShowView) -> bool {
    match state_page(s, mode) {
        Some(b) => exists|k: int| before.len() <= k < after.len() && #[trigger] after[k] == b,
        None => true,
    }
}

proof fn lemma_action_batch_is_screen(a: DaemonAction, mode: ShowView)
    ensures
        action_batch(a, mode) matches Some(b) ==> is_screen_batch(b, mode),
{
    if let DaemonAction::ShowIp(ip) = a {
        match mode {
            ShowView::Text => {
                assert(action_batch(a, mode) == Some(ip_writes(ip)));
            },
            ShowView::Qr(template) => {
                assert(qr_render_result(template, ip) is Ok ==> action_batch(a, mode) == Some(
                    region_writes(0, 0, SCREEN_WIDTH, SCREEN_HEIGHT, qr_render_result(template, ip)->Ok_0),
                ));
            },
        }
    }
}

/// `after` is `before` followed by screen batches only.
pub open spec fn draws_screen_batches(before: DrawLog, after: DrawLog, mode: ShowView) -> bool {
    &&& before.len() <= after.len()
    &&& after.subrange(0, before.len() as int) == before
    &&& forall|k: int| before.len() <= k < after.len() ==> is_screen_batch(#[trigger] after[k], mode)
}

proof fn lemma_draws_refl(log: DrawLog, mode: ShowView)
    ensures
        draws_screen_batches(log, log, mode),
{
    assert(log.subrange(0, log.len() as int) =~= log);
}

proof fn lemma_draws_push(log: DrawLog, batch: Seq<(Seq<u8>, bool)>, mode: ShowView)
    requires
        is_screen_batch(batch, mode),
    ensures
        draws_screen_batches(log, log.push(batch), mode),
{
    assert(log.push(batch).subrange(0, log.len() as int) =~= log);
}

proof fn lemma_draws_trans(a: DrawLog, b: DrawLog, c: DrawLog, mode: ShowView)
    requires
        draws_screen_batches(a, b, mode),
        draws_screen_batches(b, c, mode),
    ensures
        draws_screen_batches(a, c, mode),
{
    assert(c.subrange(0, a.len() as int) =~= c.subrange(0, b.len() as int).subrange(0, a.len() as int));
    assert forall|k: int| a.len() <= k < c.len() implies is_screen_batch(#[trigger] c[k], mode) by {
        if k < b.len() {
            assert(c[k] == c.subrange(0, b.len() as int)[k]);
        }
    }
}

#[derive(Debug, Clone, Copy, PartialEq, Eq, Structural)]
pub enum KeepalivePixel {
    Black,
    White,
}

/// Whether `interval_ms` has passed since `since_ms` (a clock reading before
/// `since_ms` counts as no time at all).
pub open spec fn is_due_spec(now_ms: u64, since_ms: u64, interval_ms: u64) -> bool {
    (if now_ms >= since_ms {
        now_ms - since_ms
    } else {
        0
    }) >= interval_ms
}

pub fn is_due(now_ms: u64, since_ms: u64, interval_ms: u64) -> (r: bool)
    ensures
        r == is_due_spec(now_ms, since_ms, interval_ms),
{
    let elapsed: u64 = if now_ms >= since_ms {
        now_ms - since_ms
    } else {
        0
    };
    elapsed >= interval_ms
}

/// The back-off after one more failed connect: doubled, at most the maximum.
pub open spec fn next_backoff(backoff: u64) -> u64 {
    if backoff * 2 <= CONNECT_RETRY_MAX_INTERVAL_MS {
        (backoff * 2) as u64
    } else {
        CONNECT_RETRY_MAX_INTERVAL_MS
    }
}

/// `now + delay`, saturating.
pub open spec fn later(now_ms: u64, delay_ms: u64) -> u64 {
    if now_ms + delay_ms <= u64::MAX {
        (now_ms + delay_ms) as u64
    } else {
        u64::MAX
    }
}

pub open spec fn is_display_action(a: DaemonAction) -> bool {
    match a {
        DaemonAction::ShowPending | DaemonAction::ShowDhcpFailed | DaemonAction::ShowIp(_) => true,
        _ => false,
    }
}

/// Status pages are redrawn every refresh interval while they are shown.
pub open spec fn status_refresh_spec(state: DaemonState, now_ms: u64, last_ms: u64) -> Option<DaemonAction> {
    if !is_due_spec(now_ms, last_ms, STATUS_PAGE_REFRESH_INTERVAL_MS) {
        None
    } else {
        match state {
            DaemonState::ConnectedPendingIp => Some(DaemonAction::ShowPending),
            DaemonState::ConnectedDhcpFailed => Some(DaemonAction::ShowDhcpFailed),
            _ => None,
        }
    }
}

fn copy_display_mode(m: &DisplayMode) -> (r: DisplayMode)
    ensures
        r@ == m@,
{
    match m {
        DisplayMode::Text => DisplayMode::Text,
        DisplayMode::Qr { template } => {
            let mut t = String::new();
            push_str(&mut t, template.as_str());
            DisplayMode::Qr { template: t }
        },
    }
}

pub struct Runtime<T> {
    daemon: Daemon,
    io: T,
    display_mode: DisplayMode,
    connected: bool,
    last_keepalive: u64,
    last_network_snapshot: u64,
    last_status_page_refresh: u64,
    timeout_counter: TimeoutCounter,
    pending_display_action: Option<DaemonAction>,
    next_connect_at: Option<u64>,
    connect_backoff: u64,
    keepalive_pixel: KeepalivePixel,
    drawn: Ghost<DrawLog>,
    serial: Ghost<Seq<SerialEvent>>,
}

/// What a tick has achieved so far, from the draw log `d0` and state `s0`
/// it started with: only screen batches were drawn; a state other than the
/// starting one has had its page drawn; and a batch owed first came first.
spec fn tick_progress(
    d0: DrawLog,
    s0: DaemonState,
    first: Option<Seq<(Seq<u8>, bool)>>,
    log: DrawLog,
    s: DaemonState,
    mode: ShowView,
) -> bool {
    &&& draws_screen_batches(d0, log, mode)
    &&& (s == s0 || page_drawn_since(d0, log, s, mode))
    &&& (first matches Some(b) ==> log.len() > d0.len() && log[d0.len() as int] == b)
}

proof fn lemma_progress_start(d0: DrawLog, s0: DaemonState, mode: ShowView)
    ensures
        tick_progress(d0, s0, None, d0, s0, mode),
{
    lemma_draws_refl(d0, mode);
}

/// More screen batches, with the state kept (or left for one without a page).
proof fn lemma_progress_extends(
    d0: DrawLog,
    s0: DaemonState,
    first: Option<Seq<(Seq<u8>, bool)>>,
    log1: DrawLog,
    log2: DrawLog,
    s1: DaemonState,
    s2: DaemonState,
    mode: ShowView,
)
    requires
        tick_progress(d0, s0, first, log1, s1, mode),
        draws_screen_batches(log1, log2, mode),
        s2 == s1 || state_page(s2, mode) is None,
    ensures
        tick_progress(d0, s0, first, log2, s2, mode),
{
    lemma_draws_trans(d0, log1, log2, mode);
    assert forall|k: int| 0 <= k < log1.len() implies log2[k] == log1[k] by {
        assert(log2.subrange(0, log1.len() as int)[k] == log2[k]);
    }
    if s2 == s1 && s1 != s0 {
        if let Some(b) = state_page(s1, mode) {
            let k = choose|k: int| d0.len() <= k < log1.len() && #[trigger] log1[k] == b;
            assert(log2[k] == b);
        }
    }
}

/// A state change whose page is then drawn.
proof fn lemma_progress_page_drawn(
    d0: DrawLog,
    s0: DaemonState,
    first: Option<Seq<(Seq<u8>, bool)>>,
    log: DrawLog,
    s_prev: DaemonState,
    s1: DaemonState,
    a: DaemonAction,
    mode: ShowView,
)
    requires
        tick_progress(d0, s0, first, log, s_prev, mode),
        state_page(s1, mode) == action_batch(a, mode),
    ensures
        tick_progress(
            d0,
            s0,
            first,
            match action_batch(a, mode) {
                Some(b) => log.push(b),
                None => log,
            },
            s1,
            mode,
        ),
{
    lemma_action_batch_is_screen(a, mode);
    match action_batch(a, mode) {
        Some(b) => {
            lemma_draws_push(log, b, mode);
            lemma_draws_trans(d0, log, log.push(b), mode);
            assert(log.push(b)[log.len() as int] == b);
            if let Some(f) = first {
                assert(log.push(b)[d0.len() as int] == log[d0.len() as int]);
            }
        },
        None => {},
    }
}

/// The action a step asks for is the page of the state it leaves behind.
proof fn lemma_action_is_state_page(
    state: DaemonState,
    failure_since: Option<u64>,
    options: crate::host::cli::OptionsView,
    event: crate::host::daemon::EventView,
    mode: ShowView,
)
    ensures
        ({
            let (s, _, acts) = crate::host::daemon::step(state, failure_since, options, event);
            &&& acts.len() <= 1
            &&& acts.len() == 0 ==> s == state
            &&& acts.len() == 1 && is_display_action(acts[0]) ==> state_page(s, mode) == action_batch(acts[0], mode)
        }),
{
    crate::host::daemon::lemma_actions_match_state(state, failure_since, options, event);
}

/// `batch` was handed to the screen's `send_writes`, which succeeded exactly
/// when `ok`.
pub open spec fn send_made<T: RuntimeIo>(batch: Seq<(Seq<u8>, bool)>, ok: bool) -> bool {
    exists|q: &mut T, w: &[WireWrite], o: Result<(), IoFailure>|
        #[trigger] call_ensures(T::send_writes, (q, w), o) && wire_view(w@) == batch && (o is Ok) == ok
}

/// `batch` was handed to the screen's `send_writes`.
pub open spec fn batch_sent<T: RuntimeIo>(batch: Seq<(Seq<u8>, bool)>) -> bool {
    send_made::<T>(batch, true) || send_made::<T>(batch, false)
}

/// What happened on the serial line, oldest first.
pub ghost enum SerialEvent {
    /// A batch was exchanged with the screen.
    Exchanged,
    /// A batch failed with an error of this kind.
    Failed(SerialErrorKind),
    /// A session was opened.
    Opened,
    /// A session was closed.
    Closed,
}

/// Serial timeouts since the last exchange or session change (errors of
/// other kinds neither count nor break the run).
pub open spec fn trailing_timeouts(log: Seq<SerialEvent>) -> nat
    decreases log.len(),
{
    if log.len() == 0 {
        0
    } else {
        match log.last() {
            SerialEvent::Failed(SerialErrorKind::Timeout) => trailing_timeouts(log.drop_last()) + 1,
            SerialEvent::Failed(SerialErrorKind::Other) => trailing_timeouts(log.drop_last()),
            _ => 0,
        }
    }
}

/// The third serial timeout in a row ends the session: no run of timeouts
/// is longer than the limit, and right after a run that reaches it the
/// session is closed.
pub open spec fn timeouts_close_session(log: Seq<SerialEvent>) -> bool {
    forall|n: int|
        0 <= n <= log.len() ==> #[trigger] trailing_timeouts(log.take(n)) <= SERIAL_TIMEOUT_LIMIT && (
        trailing_timeouts(log.take(n)) == SERIAL_TIMEOUT_LIMIT && n < log.len() ==> log[n] == SerialEvent::Closed)
}

/// `after` is `before` with more events appended.
pub open spec fn log_extends(before: Seq<SerialEvent>, after: Seq<SerialEvent>) -> bool {
    &&& before.len() <= after.len()
    &&& forall|k: int| 0 <= k < before.len() ==> #[trigger] after[k] == before[k]
}

/// No `Closed` was appended on the way from `before` to `after`.
spec fn no_close_between(before: Seq<SerialEvent>, after: Seq<SerialEvent>) -> bool {
    forall|k: int| before.len() <= k < after.len() ==> #[trigger] after[k] != SerialEvent::Closed
}

proof fn lemma_no_close_trans(a: Seq<SerialEvent>, b: Seq<SerialEvent>, c: Seq<SerialEvent>)
    requires
        log_extends(a, b),
        log_extends(b, c),
        no_close_between(a, b),
        no_close_between(b, c),
    ensures
        no_close_between(a, c),
{
    assert forall|k: int| a.len() <= k < c.len() implies #[trigger] c[k] != SerialEvent::Closed by {
        if k < b.len() {
            assert(c[k] == b[k]);
        }
    }
}

/// In a log that keeps the timeout rule and does not end at the limit, the
/// timeout that reaches the limit is followed by `Closed`.
proof fn lemma_limit_timeout_closes(log: Seq<SerialEvent>)
    requires
        timeouts_close_session(log),
        trailing_timeouts(log) < SERIAL_TIMEOUT_LIMIT,
    ensures
        forall|k: int|
            0 <= k < log.len() && #[trigger] trailing_timeouts(log.take(k + 1)) == SERIAL_TIMEOUT_LIMIT ==> k + 1
                < log.len() && log[k + 1] == SerialEvent::Closed,
{
    assert forall|k: int|
        0 <= k < log.len() && #[trigger] trailing_timeouts(log.take(k + 1)) == SERIAL_TIMEOUT_LIMIT implies k + 1
            < log.len() && log[k + 1] == SerialEvent::Closed by {
        if k + 1 == log.len() {
            assert(log.take(k + 1) =~= log);
        }
    }
}

/// Three serial timeouts in a row are followed by the end of the session.
pub proof fn lemma_third_timeout_closes(log: Seq<SerialEvent>, k: int)
    requires
        timeouts_close_session(log),
        0 <= k,
        k + 3 < log.len(),
        log[k] == SerialEvent::Failed(SerialErrorKind::Timeout),
        log[k + 1] == SerialEvent::Failed(SerialErrorKind::Timeout),
        log[k + 2] == SerialEvent::Failed(SerialErrorKind::Timeout),
    ensures
        log[k + 3] == SerialEvent::Closed,
{
    assert(log.take(k + 3).drop_last() =~= log.take(k + 2));
    assert(log.take(k + 2).drop_last() =~= log.take(k + 1));
    assert(log.take(k + 1).drop_last() =~= log.take(k));
    assert(log.take(k + 3).last() == log[k + 2]);
    assert(log.take(k + 2).last() == log[k + 1]);
    assert(log.take(k + 1).last() == log[k]);
    assert(log.take(k + 1).len() > 0);
    assert(trailing_timeouts(log.take(k + 1)) == trailing_timeouts(log.take(k)) + 1);
    assert(trailing_timeouts(log.take(k + 2)) == trailing_timeouts(log.take(k + 1)) + 1);
    assert(trailing_timeouts(log.take(k + 3)) == trailing_timeouts(log.take(k + 2)) + 1);
    assert(trailing_timeouts(log.take(k + 3)) <= SERIAL_TIMEOUT_LIMIT);
}

/// A serial event stands for a real call: an exchange or a failure for a
/// `send_writes` that gave that outcome, an opening for a `connect` that
/// succeeded, a closing for a `disconnect`.
pub open spec fn event_backed<T: RuntimeIo>(e: SerialEvent) -> bool {
    match e {
        SerialEvent::Exchanged => exists|q: &mut T, w: &[WireWrite], o: Result<(), IoFailure>|
            #[trigger] call_ensures(T::send_writes, (q, w), o) && o is Ok,
        SerialEvent::Failed(kind) => exists|q: &mut T, w: &[WireWrite], o: Result<(), IoFailure>|
            #[trigger] call_ensures(T::send_writes, (q, w), o) && (o matches Err(err) && err.kind == kind),
        SerialEvent::Opened => exists|q: &mut T, d: &TtyDevice, c: Result<(), IoFailure>|
            #[trigger] call_ensures(T::connect, (q, d), c) && c is Ok,
        SerialEvent::Closed => exists|q: &mut T| #[trigger] call_ensures(T::disconnect, (q,), ()),
    }
}

/// Appending an event keeps the rule when a run at the limit is followed by `Closed`.
proof fn lemma_push_event(log: Seq<SerialEvent>, x: SerialEvent)
    requires
        timeouts_close_session(log),
        trailing_timeouts(log) < SERIAL_TIMEOUT_LIMIT || x == SerialEvent::Closed,
    ensures
        timeouts_close_session(log.push(x)),
        trailing_timeouts(log.push(x)) == match x {
            SerialEvent::Failed(SerialErrorKind::Timeout) => trailing_timeouts(log) + 1,
            SerialEvent::Failed(SerialErrorKind::Other) => trailing_timeouts(log),
            _ => 0nat,
        },
{
    let l2 = log.push(x);
    assert(l2.drop_last() =~= log);
    assert(trailing_timeouts(log.take(log.len() as int)) <= SERIAL_TIMEOUT_LIMIT) by {
        assert(log.take(log.len() as int) =~= log);
    }
    assert forall|n: int| 0 <= n <= l2.len() implies #[trigger] trailing_timeouts(l2.take(n)) <= SERIAL_TIMEOUT_LIMIT && (
    trailing_timeouts(l2.take(n)) == SERIAL_TIMEOUT_LIMIT && n < l2.len() ==> l2[n] == SerialEvent::Closed) by {
        if n <= log.len() {
            assert(l2.take(n) =~= log.take(n));
            if n == log.len() {
                assert(log.take(n) =~= log);
            }
        } else {
            assert(l2.take(n) =~= l2);
        }
    }
}

impl<T: RuntimeIo> Runtime<T> {
    /// The back-off stays between its minimum and maximum, a display action
    /// waiting for a retry is only held while connected, and the serial
    /// timeout limit is the fixed one.
    closed spec fn inv(&self) -> bool {
        &&& self.inv_core()
        &&& self.timeout_counter.consecutive() < SERIAL_TIMEOUT_LIMIT
        &&& self.timeout_counter.consecutive() == trailing_timeouts(self.serial@)
        &&& !self.connected ==> self.timeout_counter.consecutive() == 0
    }

    /// The state right after a failed exchange, before the failure is handled.
    closed spec fn failed_on(&self, kind: SerialErrorKind) -> bool {
        &&& self.inv_core()
        &&& self.timeout_counter.consecutive() < SERIAL_TIMEOUT_LIMIT
        &&& self.serial@.len() > 0
        &&& self.serial@.last() == SerialEvent::Failed(kind)
        &&& self.timeout_counter.consecutive() == trailing_timeouts(self.serial@.drop_last())
        &&& !self.connected ==> self.timeout_counter.consecutive() == 0
    }

    /// The invariant, but for the timeout count.
    closed spec fn inv_core(&self) -> bool {
        &&& CONNECT_RETRY_MIN_INTERVAL_MS <= self.connect_backoff <= CONNECT_RETRY_MAX_INTERVAL_MS
        &&& match self.pending_display_action {
            Some(a) => self.connected && is_display_action(a),
            None => true,
        }
        &&& self.timeout_counter.limit() == SERIAL_TIMEOUT_LIMIT
        &&& self.daemon.wf()
        &&& self.daemon.current() == DaemonState::Listening ==> self.next_connect_at is None
        &&& forall|k: int| 0 <= k < self.drawn@.len() ==> #[trigger] batch_sent::<T>(self.drawn@[k])
        &&& timeouts_close_session(self.serial@)
        &&& forall|k: int| 0 <= k < self.serial@.len() ==> #[trigger] event_backed::<T>(self.serial@[k])
    }

    /// The internal invariant, and an open session only in a connected state.
    pub closed spec fn wf(&self) -> bool {
        &&& self.inv()
        &&& self.connected ==> is_connected_spec(self.daemon.current())
    }

    /// The outside world as it is now.
    pub closed spec fn io_spec(&self) -> T {
        self.io
    }

    /// Every batch of writes handed to the screen so far, oldest first.
    pub closed spec fn drawn_log(&self) -> DrawLog {
        self.drawn@
    }

    pub closed spec fn connected_spec(&self) -> bool {
        self.connected
    }

    pub closed spec fn state_spec(&self) -> DaemonState {
        self.daemon.current()
    }

    pub closed spec fn backoff_spec(&self) -> u64 {
        self.connect_backoff
    }

    pub closed spec fn next_connect_spec(&self) -> Option<u64> {
        self.next_connect_at
    }

    pub closed spec fn pending_spec(&self) -> Option<DaemonAction> {
        self.pending_display_action
    }

    pub closed spec fn display_mode_spec(&self) -> ShowView {
        self.display_mode@
    }

    /// Serial timeouts since the last successful exchange.
    /// Every exchange, failure, opening and closing on the serial line so far.
    pub closed spec fn serial_log(&self) -> Seq<SerialEvent> {
        self.serial@
    }

    pub closed spec fn timeouts_spec(&self) -> u32 {
        self.timeout_counter.consecutive()
    }

    pub fn new(options: RunOptions, io: T) -> (r: Runtime<T>)
        ensures
            r.wf(),
            !r.connected_spec(),
            r.state_spec() == DaemonState::Listening,
            r.backoff_spec() == CONNECT_RETRY_MIN_INTERVAL_MS,
            r.next_connect_spec() is None,
            r.pending_spec() is None,
            r.display_mode_spec() == options.show@,
            r.io_spec() == io,
            r.drawn_log() == Seq::<Seq<(Seq<u8>, bool)>>::empty(),
    {
        let now = io.now();
        let display_mode = copy_display_mode(&options.show);
        Runtime {
            daemon: Daemon::new(options),
            io,
            display_mode,
            connected: false,
            last_keepalive: now,
            last_network_snapshot: now,
            last_status_page_refresh: now,
            timeout_counter: TimeoutCounter::new(SERIAL_TIMEOUT_LIMIT),
            pending_display_action: None,
            next_connect_at: None,
            connect_backoff: CONNECT_RETRY_MIN_INTERVAL_MS,
            keepalive_pixel: KeepalivePixel::Black,
            drawn: Ghost(Seq::empty()),
            serial: Ghost(Seq::empty()),
        }
    }

    /// The outside world the runtime drives.
    pub fn io(&self) -> (r: &T)
        ensures
            *r == self.io_spec(),
    {
        &self.io
    }

    /// Whether a screen session is open.
    pub fn connected(&self) -> (r: bool)
        ensures
            r == self.connected_spec(),
    {
        self.connected
    }

    /// The state of the daemon's state machine.
    pub fn state(&self) -> (r: DaemonState)
        ensures
            r == self.state_spec(),
    {
        self.daemon.state()
    }

    /// One turn of the main loop. Without a session it scans, and when the
    /// scan finds a screen while listening it connects to the first one and,
    /// once connected, draws the pending page. With a session it draws what
    /// is owed, feeds a network snapshot to the state machine, refreshes a
    /// status page and keeps the screen alive. A lost screen, or a third
    /// serial timeout in a row, drops the session; every tick that does not
    /// fail ends with a sleep of [`TICK_SLEEP_MS`].
    #[verifier::rlimit(100)]
    #[verifier::spinoff_prover]
    pub fn tick(&mut self) -> (r: Result<(), IoFailure>)
        requires
            old(self).wf(),
        ensures
            log_extends(old(self).serial_log(), final(self).serial_log()),
            final(self).wf(),
            final(self).display_mode_spec() == old(self).display_mode_spec(),
            draws_screen_batches(old(self).drawn_log(), final(self).drawn_log(), old(self).display_mode_spec()),
            final(self).state_spec() != old(self).state_spec() ==> page_drawn_since(
                old(self).drawn_log(),
                final(self).drawn_log(),
                final(self).state_spec(),
                old(self).display_mode_spec(),
            ),
            owed_first_batch(old(self).connected_spec(), old(self).pending_spec(), old(self).display_mode_spec())
                matches Some(b) ==> final(self).drawn_log().len() > old(self).drawn_log().len()
                && final(self).drawn_log()[old(self).drawn_log().len() as int] == b,
            final(self).connected_spec() ==> is_connected_spec(final(self).state_spec()),
            old(self).connected_spec() && !final(self).connected_spec() ==> final(self).state_spec() == DaemonState::Listening,
            r matches Err(e) ==> !old(self).connected_spec() || (e.kind == SerialErrorKind::Other && final(self).connected_spec()),
            r is Ok ==> exists|q: &mut T|
                #[trigger] call_ensures(T::sleep, (q, TICK_SLEEP_MS), ()) && *final(q) == final(self).io_spec(),
            final(self).timeouts_spec() < SERIAL_TIMEOUT_LIMIT,
            old(self).connected_spec() && !final(self).connected_spec() ==> exists|q: &mut T, q2: &mut T|
                #![trigger call_ensures(T::disconnect, (q,), ()), call_ensures(T::sleep, (q2, TICK_SLEEP_MS), ())]
                call_ensures(T::disconnect, (q,), ()) && call_ensures(T::sleep, (q2, TICK_SLEEP_MS), ()) && *q2
                    == *final(q) && *final(q2) == final(self).io_spec(),
            final(self).timeouts_spec() == trailing_timeouts(final(self).serial_log()),
            timeouts_close_session(final(self).serial_log()),
            old(self).connected_spec() && final(self).connected_spec() ==> forall|k: int|
                old(self).serial_log().len() <= k < final(self).serial_log().len()
                    ==> #[trigger] final(self).serial_log()[k] != SerialEvent::Closed,
            old(self).connected_spec() && (exists|k: int|
                old(self).serial_log().len() <= k < final(self).serial_log().len() && final(self).serial_log()[k]
                    == SerialEvent::Failed(SerialErrorKind::Timeout) && #[trigger] trailing_timeouts(
                    final(self).serial_log().take(k + 1),
                ) == SERIAL_TIMEOUT_LIMIT) ==> !final(self).connected_spec(),
            forall|k: int|
                0 <= k < final(self).serial_log().len() ==> #[trigger] event_backed::<T>(final(self).serial_log()[k]),
            !old(self).connected_spec() ==> exists|q1: &mut T, o1: Result<Vec<TtyDevice>, IoFailure>|
                #[trigger] call_ensures(T::scan_devices, (q1,), o1) && *q1 == old(self).io_spec() && match o1 {
                    Err(e) => r == Err::<(), IoFailure>(e),
                    Ok(devs) => devs@.len() > 0 && old(self).state_spec() == DaemonState::Listening ==> exists|
                        q2: &mut T,
                        d: &TtyDevice,
                        c: Result<(), IoFailure>,
                    |
                        #[trigger] call_ensures(T::connect, (q2, d), c) && *q2 == *final(q1) && *d == devs@[0] && (c is Ok
                            ==> exists|q3: &mut T, w: &[WireWrite], o3: Result<(), IoFailure>|
                            #[trigger] call_ensures(T::send_writes, (q3, w), o3) && *q3 == *final(q2) && wire_view(w@)
                                == page_writes(PENDING_PAGE)),
                },
    {
        let ghost d0 = self.drawn@;
        let ghost dm = self.display_mode;
        let ghost s0 = self.daemon.current();
        let ghost mut first: Option<Seq<(Seq<u8>, bool)>> = None;
        let ghost log_start = self.serial@;
        proof {
            lemma_progress_start(d0, s0, dm@);
        }
        if !self.connected {
            match self.tick_connect() {
                Some(r) => {
                    return r;
                },
                None => {},
            }
        }

        if let Some(action) = self.pending_display_action {
            let ghost log1 = self.drawn@;
            let result = self.apply_action(action);
            proof {
                lemma_action_batch_is_screen(action, dm@);
                let prev_first = first;
                if old(self).connected {
                    first = owed_first_batch(old(self).connected, old(self).pending_display_action, dm@);
                }
                match action_batch(action, dm@) {
                    Some(b) => {
                        lemma_draws_push(log1, b, dm@);
                    },
                    None => {
                        lemma_draws_refl(log1, dm@);
                    },
                }
                lemma_progress_extends(d0, s0, prev_first, log1, self.drawn@, self.daemon.current(), self.daemon.current(), dm@);
            }
            if let Err(err) = result {
                let ghost log2 = self.drawn@;
                let ghost st2 = self.daemon.current();
                let ghost serial_mid = self.serial@;
                let r = self.handle_runtime_error(err, true);
                proof {
                    lemma_progress_extends(d0, s0, first, log2, self.drawn@, st2, self.daemon.current(), dm@);
                    if old(self).connected && self.connected {
                        lemma_no_close_trans(log_start, serial_mid, self.serial@);
                    }
                    lemma_limit_timeout_closes(self.serial@);
                }
                return r;
            }
            self.pending_display_action = None;
            let now = self.io.now();
            self.last_keepalive = now;
            self.last_status_page_refresh = now;
        }
        let now = self.io.now();
        let snapshot = match self.io.network_snapshot() {
            Ok(Some(snapshot)) => {
                self.last_network_snapshot = now;
                Some(snapshot)
            },
            Ok(None) => self.stale_network_snapshot(now),
            Err(_) => self.stale_network_snapshot(now),
        };
        if let Some(snapshot) = snapshot {
            let event = DaemonEvent::NetworkSnapshot { snapshot, now_ms: now };
            let ghost s_prev = self.daemon.current();
            proof {
                lemma_action_is_state_page(s_prev, self.daemon.failure_since(), self.daemon.options(), event@, dm@);
            }
            let actions = self.daemon.handle_event(event);
            let mut i: usize = 0;
            while i < actions.len()
                invariant
                    self.wf(),
                    self.connected,
                    self.display_mode == dm,
                    dm == old(self).display_mode,
                    d0 == old(self).drawn@,
                    s0 == old(self).daemon.current(),
                    first == owed_first_batch(old(self).connected, old(self).pending_display_action, dm@),
                    log_extends(old(self).serial@, self.serial@),
                    log_start == old(self).serial@,
                    old(self).connected ==> no_close_between(log_start, self.serial@),
                    !old(self).connected ==> exists|q1: &mut T, o1: Result<Vec<TtyDevice>, IoFailure>|
                        #[trigger] call_ensures(T::scan_devices, (q1,), o1) && *q1 == old(self).io && (o1 matches Ok(
                            devs,
                        ) && (devs@.len() > 0 && old(self).daemon.current() == DaemonState::Listening ==> exists|
                            q2: &mut T,
                            d: &TtyDevice,
                            c: Result<(), IoFailure>,
                        |
                            #[trigger] call_ensures(T::connect, (q2, d), c) && *q2 == *final(q1) && *d == devs@[0] && (c is Ok
                                ==> exists|q3: &mut T, w: &[WireWrite], o3: Result<(), IoFailure>|
                                #[trigger] call_ensures(T::send_writes, (q3, w), o3) && *q3 == *final(q2) && wire_view(w@)
                                    == page_writes(PENDING_PAGE)))),
                    i <= actions@.len(),
                    actions@.len() <= 1,
                    forall|k: int| 0 <= k < actions@.len() ==> is_display_action(#[trigger] actions@[k]),
                    i == actions@.len() ==> tick_progress(d0, s0, first, self.drawn@, self.daemon.current(), dm@),
                    i < actions@.len() ==> tick_progress(d0, s0, first, self.drawn@, s_prev, dm@) && state_page(
                        self.daemon.current(),
                        dm@,
                    ) == action_batch(actions@[i as int], dm@),
                decreases actions@.len() - i,
            {
                let ghost log1 = self.drawn@;
                let ghost sb = self.serial@;
                let result = self.apply_daemon_action(actions[i]);
                proof {
                    lemma_progress_page_drawn(d0, s0, first, log1, s_prev, self.daemon.current(), actions@[i as int], dm@);
                    if old(self).connected {
                        lemma_no_close_trans(log_start, sb, self.serial@);
                    }
                }
                if let Err(err) = result {
                    let ghost log2 = self.drawn@;
                    let ghost st2 = self.daemon.current();
                    let ghost serial_mid = self.serial@;
                    let r = self.handle_runtime_error(err, true);
                    proof {
                        lemma_progress_extends(d0, s0, first, log2, self.drawn@, st2, self.daemon.current(), dm@);
                        if old(self).connected && self.connected {
                            lemma_no_close_trans(log_start, serial_mid, self.serial@);
                        }
                        lemma_limit_timeout_closes(self.serial@);
                    }
                    return r;
                }
                i = i + 1;
            }
        }
        if let Some(action) = self.status_page_refresh_action(now) {
            let ghost log1 = self.drawn@;
            let ghost sb = self.serial@;
            let result = self.apply_daemon_action(action);
            proof {
                lemma_progress_extends(d0, s0, first, log1, self.drawn@, self.daemon.current(), self.daemon.current(), dm@);
                if old(self).connected {
                    lemma_no_close_trans(log_start, sb, self.serial@);
                }
            }
            if let Err(err) = result {
                let ghost log2 = self.drawn@;
                let ghost st2 = self.daemon.current();
                let ghost serial_mid = self.serial@;
                let r = self.handle_runtime_error(err, true);
                proof {
                    lemma_progress_extends(d0, s0, first, log2, self.drawn@, st2, self.daemon.current(), dm@);
                    if old(self).connected && self.connected {
                        lemma_no_close_trans(log_start, serial_mid, self.serial@);
                    }
                    lemma_limit_timeout_closes(self.serial@);
                }
                return r;
            }
            self.last_status_page_refresh = now;
        }
        if is_due(now, self.last_keepalive, KEEPALIVE_INTERVAL_MS) {
            let writes = match self.keepalive_pixel {
                KeepalivePixel::Black => DisplayRenderer::keepalive(),
                KeepalivePixel::White => DisplayRenderer::keepalive_white(),
            };
            let ghost log1 = self.drawn@;
            let ghost sb = self.serial@;
            let sent = self.send_batch(writes.as_slice());
            proof {
                lemma_progress_extends(d0, s0, first, log1, self.drawn@, self.daemon.current(), self.daemon.current(), dm@);
                if old(self).connected {
                    lemma_no_close_trans(log_start, sb, self.serial@);
                }
            }
            if let Err(err) = sent {
                let ghost log2 = self.drawn@;
                let ghost st2 = self.daemon.current();
                let ghost serial_mid = self.serial@;
                let r = self.handle_runtime_error(err, true);
                proof {
                    lemma_progress_extends(d0, s0, first, log2, self.drawn@, st2, self.daemon.current(), dm@);
                    if old(self).connected && self.connected {
                        lemma_no_close_trans(log_start, serial_mid, self.serial@);
                    }
                    lemma_limit_timeout_closes(self.serial@);
                }
                return r;
            }
            self.last_keepalive = now;
        }
        self.io.sleep(TICK_SLEEP_MS);
        assert(exists|q: &mut T| #[trigger] call_ensures(T::sleep, (q, TICK_SLEEP_MS), ()) && *final(q) == self.io);
        proof {
            lemma_limit_timeout_closes(self.serial@);
        }
        Ok(())
    }

    /// The first half of a tick without a session: scan, and connect to the
    /// first screen found (with back-off). `Some` ends the tick with its result.
    fn tick_connect(&mut self) -> (r: Option<Result<(), IoFailure>>)
        requires
            old(self).wf(),
            !old(self).connected,
        ensures
            log_extends(old(self).serial@, final(self).serial@),
            final(self).wf(),
            final(self).display_mode == old(self).display_mode,
            tick_progress(
                old(self).drawn@,
                old(self).daemon.current(),
                None,
                final(self).drawn@,
                final(self).daemon.current(),
                old(self).display_mode@,
            ),
            r is None ==> final(self).connected && final(self).pending_display_action is None,
            r matches Some(Ok(_)) ==> exists|q: &mut T|
                #[trigger] call_ensures(T::sleep, (q, TICK_SLEEP_MS), ()) && *final(q) == final(self).io,
            exists|q1: &mut T, o1: Result<Vec<TtyDevice>, IoFailure>|
                #[trigger] call_ensures(T::scan_devices, (q1,), o1) && *q1 == old(self).io && match o1 {
                    Err(e) => r == Some(Err::<(), IoFailure>(e)),
                    Ok(devs) => (r is None || (r matches Some(Ok(_)))) && (devs@.len() > 0 && old(
                        self,
                    ).daemon.current() == DaemonState::Listening ==> exists|
                        q2: &mut T,
                        d: &TtyDevice,
                        c: Result<(), IoFailure>,
                    |
                        #[trigger] call_ensures(T::connect, (q2, d), c) && *q2 == *final(q1) && *d == devs@[0] && (c is Ok
                            ==> exists|q3: &mut T, w: &[WireWrite], o3: Result<(), IoFailure>|
                            #[trigger] call_ensures(T::send_writes, (q3, w), o3) && *q3 == *final(q2) && wire_view(w@)
                                == page_writes(PENDING_PAGE))),
                },
    {
        let ghost d0 = self.drawn@;
        let ghost dm = self.display_mode;
        let ghost s0 = self.daemon.current();
        let ghost first: Option<Seq<(Seq<u8>, bool)>> = None;
        proof {
            lemma_progress_start(d0, s0, dm@);
        }
        let ghost io0 = self.io;
        let scanned = self.io.scan_devices();
        let ghost io1 = self.io;
        assert(exists|q1: &mut T, o1: Result<Vec<TtyDevice>, IoFailure>|
            #[trigger] call_ensures(T::scan_devices, (q1,), o1) && *q1 == io0 && *final(q1) == io1 && o1 == scanned);
        let ghost scan_out = scanned;
        let devices = match scanned {
            Ok(devices) => devices,
            Err(e) => {
                return Some(Err(e));
            },
        };
        if devices.len() == 0 {
            if self.daemon.state() != DaemonState::Listening {
                let ghost (log1, st1) = (self.drawn@, self.daemon.current());
                self.disconnect_device();
                proof {
                    lemma_progress_extends(d0, s0, first, log1, self.drawn@, st1, self.daemon.current(), dm@);
                }
            }
            self.reset_connect_retry();
            self.io.sleep(TICK_SLEEP_MS);
            assert(exists|q: &mut T| #[trigger] call_ensures(T::sleep, (q, TICK_SLEEP_MS), ()) && *final(q) == self.io);
            return Some(Ok(()));
        }
        let device = &devices[0];
        let ghost was_listening = self.daemon.current() == DaemonState::Listening;
        if self.daemon.state() == DaemonState::Listening {
            let actions = self.daemon.handle_event(DaemonEvent::DeviceCandidateFound);
            let mut i: usize = 0;
            while i < actions.len()
                invariant
                    self.wf(),
                    !self.connected,
                    self.display_mode == dm,
                    dm == old(self).display_mode,
                    d0 == old(self).drawn@,
                    s0 == old(self).daemon.current(),
                    first is None,
                    tick_progress(d0, s0, first, self.drawn@, self.daemon.current(), dm@),
                    self.daemon.current() == DaemonState::Connecting,
                    self.io == io1,
                    log_extends(old(self).serial@, self.serial@),
                    was_listening,
                    self.next_connect_at is None,
                    i <= actions@.len(),
                    forall|k: int| 0 <= k < actions@.len() ==> actions@[k] == DaemonAction::OpenDevice,
                decreases actions@.len() - i,
            {
                let opened = self.apply_action(actions[i]);
                if let Err(e) = opened {
                    return Some(Err(e));
                }
                i = i + 1;
            }
        }
        let retry_at = self.next_connect_at;
        if let Some(next_connect_at) = retry_at {
            let now = self.io.now();
            if now < next_connect_at {
                self.io.sleep(TICK_SLEEP_MS);
                assert(exists|q: &mut T| #[trigger] call_ensures(T::sleep, (q, TICK_SLEEP_MS), ()) && *final(q) == self.io);
                return Some(Ok(()));
            }
        }
        let ghost io_before_connect = self.io;
        let connected = self.io.connect(device);
        let ghost io2 = self.io;
        assert(exists|q2: &mut T, d: &TtyDevice, c: Result<(), IoFailure>|
            #[trigger] call_ensures(T::connect, (q2, d), c) && *q2 == io_before_connect && *final(q2) == io2 && *d == devices@[0] && c == connected);
        match connected {
            Ok(()) => {},
            Err(_) => {
                let ghost log1 = self.drawn@;
                self.handle_connect_failure();
                proof {
                    lemma_progress_extends(d0, s0, first, log1, self.drawn@, self.daemon.current(), self.daemon.current(), dm@);
                }
                return Some(Ok(()));
            },
        }
        assert(self.daemon.current() != DaemonState::Listening);
        assert(was_listening ==> self.daemon.current() == DaemonState::Connecting);
        assert(was_listening ==> io_before_connect == io1);
        self.reset_connect_retry();
        let ghost log0 = self.serial@;
        proof {
            lemma_push_event(log0, SerialEvent::Opened);
        }
        self.serial = Ghost(self.serial@.push(SerialEvent::Opened));
        assert(forall|k: int| 0 <= k < log0.len() ==> self.serial@[k] == log0[k]);
        assert(event_backed::<T>(self.serial@[log0.len() as int]));
        self.timeout_counter.record_success();
        let now = self.io.now();
        self.last_keepalive = now;
        self.last_network_snapshot = now;
        self.last_status_page_refresh = now;
        let ghost s_prev = self.daemon.current();
        proof {
            lemma_action_is_state_page(
                s_prev,
                self.daemon.failure_since(),
                self.daemon.options(),
                crate::host::daemon::EventView::HandshakeOk,
                dm@,
            );
        }
        let actions = self.daemon.handle_event(DaemonEvent::HandshakeOk);
        self.connected = true;
        let mut i: usize = 0;
        while i < actions.len()
            invariant
                self.wf(),
                self.connected,
                !old(self).connected,
                self.display_mode == dm,
                dm == old(self).display_mode,
                d0 == old(self).drawn@,
                s0 == old(self).daemon.current(),
                first is None,
                was_listening ==> actions@ == seq![DaemonAction::ShowPending],
                i == 0 ==> self.io == io2,
                was_listening && i > 0 ==> exists|q3: &mut T, w: &[WireWrite], o3: Result<(), IoFailure>|
                    #[trigger] call_ensures(T::send_writes, (q3, w), o3) && *q3 == io2 && wire_view(w@) == page_writes(
                        PENDING_PAGE,
                    ),
                self.daemon.current() != DaemonState::Listening,
                self.pending_display_action is None,
                self.timeout_counter.consecutive() == 0,
                log_extends(old(self).serial@, self.serial@),
                io0 == old(self).io,
                was_listening == (old(self).daemon.current() == DaemonState::Listening),
                scan_out == Ok::<Vec<TtyDevice>, IoFailure>(devices),
                devices@.len() > 0,
                exists|q1: &mut T, o1: Result<Vec<TtyDevice>, IoFailure>|
                    #[trigger] call_ensures(T::scan_devices, (q1,), o1) && *q1 == io0 && *final(q1) == io1 && o1
                        == scan_out,
                was_listening ==> exists|q2: &mut T, d: &TtyDevice, c: Result<(), IoFailure>|
                    #[trigger] call_ensures(T::connect, (q2, d), c) && *q2 == io1 && *final(q2) == io2 && *d
                        == devices@[0] && c is Ok,
                i <= actions@.len(),
                actions@.len() <= 1,
                forall|k: int| 0 <= k < actions@.len() ==> is_display_action(#[trigger] actions@[k]),
                i == actions@.len() ==> tick_progress(d0, s0, first, self.drawn@, self.daemon.current(), dm@),
                i < actions@.len() ==> tick_progress(d0, s0, first, self.drawn@, s_prev, dm@) && state_page(
                    self.daemon.current(),
                    dm@,
                ) == action_batch(actions@[i as int], dm@),
            decreases actions@.len() - i,
        {
            let ghost log1 = self.drawn@;
            let ghost io_before = self.io;
            let result = self.apply_daemon_action(actions[i]);
            proof {
                lemma_progress_page_drawn(d0, s0, first, log1, s_prev, self.daemon.current(), actions@[i as int], dm@);
                if was_listening {
                    assert(action_batch(actions@[i as int], dm@) == Some(page_writes(PENDING_PAGE)));
                    assert(io_before == io2);
                }
            }
            assert(was_listening ==> exists|q3: &mut T, w: &[WireWrite], o3: Result<(), IoFailure>|
                #[trigger] call_ensures(T::send_writes, (q3, w), o3) && *q3 == io2 && wire_view(w@) == page_writes(
                    PENDING_PAGE,
                ));
            if let Err(_) = result {
                let ghost log2 = self.drawn@;
                self.handle_connect_failure();
                proof {
                    lemma_progress_extends(d0, s0, first, log2, self.drawn@, self.daemon.current(), self.daemon.current(), dm@);
                }
                return Some(Ok(()));
            }
            i = i + 1;
        }
        None
    }

    /// Applies an action of the state machine; a display action is held for a
    /// retry until it has been drawn.
    fn apply_daemon_action(&mut self, action: DaemonAction) -> (r: Result<(), IoFailure>)
        requires
            old(self).wf(),
            old(self).connected,
            is_display_action(action),
        ensures
            log_extends(old(self).serial@, final(self).serial@),
            no_close_between(old(self).serial@, final(self).serial@),
            r is Ok ==> final(self).wf(),
            r matches Err(e) ==> final(self).failed_on(e.kind) && final(self).timeout_counter == old(self).timeout_counter,
            final(self).timeout_counter.consecutive() == 0 || final(self).timeout_counter == old(self).timeout_counter,
            r is Ok ==> final(self).pending_display_action is None,
            r is Err ==> final(self).pending_display_action == Some(action),
            final(self).connected,
            final(self).daemon.current() == old(self).daemon.current(),
            final(self).display_mode == old(self).display_mode,
            final(self).drawn@ == match action_batch(action, old(self).display_mode@) {
                Some(b) => old(self).drawn@.push(b),
                None => old(self).drawn@,
            },
            draws_screen_batches(old(self).drawn@, final(self).drawn@, old(self).display_mode@),
            action_batch(action, old(self).display_mode@) matches Some(b) ==> exists|
                q: &mut T,
                w: &[WireWrite],
                o: Result<(), IoFailure>,
            | #[trigger] call_ensures(T::send_writes, (q, w), o) && *q == old(self).io && wire_view(w@) == b,
    {
        self.pending_display_action = Some(action);
        self.apply_action(action)?;
        self.pending_display_action = None;
        let now = self.io.now();
        self.last_keepalive = now;
        self.last_status_page_refresh = now;
        Ok(())
    }

    fn apply_action(&mut self, action: DaemonAction) -> (r: Result<(), IoFailure>)
        requires
            action != DaemonAction::CloseDevice ==> old(self).inv(),
            action == DaemonAction::CloseDevice ==> old(self).inv_core() && old(
                self,
            ).pending_display_action is None,
        ensures
            log_extends(old(self).serial@, final(self).serial@),
            r is Ok && action != DaemonAction::CloseDevice ==> final(self).inv(),
            action == DaemonAction::CloseDevice ==> final(self).inv_core() && final(self).serial@ == old(
                self,
            ).serial@,
            action != DaemonAction::CloseDevice ==> no_close_between(old(self).serial@, final(self).serial@),
            r matches Err(e) ==> final(self).failed_on(e.kind) && final(self).timeout_counter == old(self).timeout_counter,
            final(self).timeout_counter.consecutive() == 0 || final(self).timeout_counter == old(self).timeout_counter,
            final(self).pending_display_action == old(self).pending_display_action,
            final(self).daemon.current() == old(self).daemon.current(),
            final(self).connected == (old(self).connected && action != DaemonAction::CloseDevice),
            action == DaemonAction::OpenDevice ==> r is Ok,
            final(self).display_mode == old(self).display_mode,
            final(self).next_connect_at == old(self).next_connect_at,
            final(self).connect_backoff == old(self).connect_backoff,
            action == DaemonAction::CloseDevice ==> final(self).timeout_counter == old(self).timeout_counter,
            final(self).drawn@ == match action_batch(action, old(self).display_mode@) {
                Some(b) => old(self).drawn@.push(b),
                None => old(self).drawn@,
            },
            draws_screen_batches(old(self).drawn@, final(self).drawn@, old(self).display_mode@),
            action_batch(action, old(self).display_mode@) matches Some(b) ==> exists|
                q: &mut T,
                w: &[WireWrite],
                o: Result<(), IoFailure>,
            |
                #[trigger] call_ensures(T::send_writes, (q, w), o) && *q == old(self).io && *final(q) == final(self).io && wire_view(w@) == b && match o {
                    Ok(_) => r is Ok,
                    Err(e) => r == Err::<(), IoFailure>(e),
                },
            action_batch(action, old(self).display_mode@) is None && action != DaemonAction::CloseDevice ==> r is Ok
                && final(self).io == old(self).io,
            action == DaemonAction::CloseDevice ==> r is Ok && exists|q: &mut T|
                #[trigger] call_ensures(T::disconnect, (q,), ()) && *q == old(self).io && *final(q) == final(self).io,
    {
        let ghost d0 = self.drawn@;
        let ghost mode = self.display_mode@;
        proof {
            lemma_draws_refl(d0, mode);
        }
        match action {
            DaemonAction::OpenDevice => Ok(()),
            DaemonAction::CloseDevice => {
                self.io.disconnect();
                self.connected = false;
                self.keepalive_pixel = KeepalivePixel::Black;
                Ok(())
            },
            DaemonAction::ShowPending => {
                let writes = DisplayRenderer::pending();
                self.send_batch(writes.as_slice())?;
                self.keepalive_pixel = KeepalivePixel::Black;
                Ok(())
            },
            DaemonAction::ShowDhcpFailed => {
                let writes = DisplayRenderer::dhcp_failed();
                self.send_batch(writes.as_slice())?;
                self.keepalive_pixel = KeepalivePixel::Black;
                Ok(())
            },
            DaemonAction::ShowIp(ip) => {
                match &self.display_mode {
                    DisplayMode::Text => {
                        let writes = DisplayRenderer::ip(ip);
                        self.send_batch(writes.as_slice())?;
                        self.keepalive_pixel = KeepalivePixel::Black;
                    },
                    DisplayMode::Qr { template } => {
                        let writes = match DisplayRenderer::qr(ip, template.as_str()) {
                            Ok(writes) => writes,
                            Err(_) => {
                                return Ok(());
                            },
                        };
                        proof {
                            assert(qr_render_result(template@, ip) is Ok);
                        }
                        self.send_batch(writes.as_slice())?;
                        self.keepalive_pixel = KeepalivePixel::White;
                    },
                }
                Ok(())
            },
        }
    }

    /// Hands a batch to the screen and records it in the draw log.
    fn send_batch(&mut self, writes: &[WireWrite]) -> (r: Result<(), IoFailure>)
        requires
            old(self).inv(),
            is_screen_batch(wire_view(writes@), old(self).display_mode@),
        ensures
            log_extends(old(self).serial@, final(self).serial@),
            no_close_between(old(self).serial@, final(self).serial@),
            r is Ok ==> final(self).inv() && final(self).timeout_counter.consecutive() == 0,
            r matches Err(e) ==> final(self).failed_on(e.kind) && final(self).timeout_counter == old(self).timeout_counter,
            final(self).timeout_counter.limit() == old(self).timeout_counter.limit(),
            final(self).pending_display_action == old(self).pending_display_action,
            final(self).daemon == old(self).daemon,
            final(self).connected == old(self).connected,
            final(self).display_mode == old(self).display_mode,
            final(self).next_connect_at == old(self).next_connect_at,
            final(self).keepalive_pixel == old(self).keepalive_pixel,
            final(self).last_keepalive == old(self).last_keepalive,
            final(self).last_status_page_refresh == old(self).last_status_page_refresh,
            final(self).last_network_snapshot == old(self).last_network_snapshot,
            final(self).connect_backoff == old(self).connect_backoff,
            final(self).drawn@ == old(self).drawn@.push(wire_view(writes@)),
            draws_screen_batches(old(self).drawn@, final(self).drawn@, old(self).display_mode@),
            exists|q: &mut T, w: &[WireWrite], o: Result<(), IoFailure>|
                #[trigger] call_ensures(T::send_writes, (q, w), o) && *q == old(self).io && *final(q) == final(self).io && w@ == writes@ && match o {
                    Ok(_) => r is Ok,
                    Err(e) => r == Err::<(), IoFailure>(e),
                },
    {
        let ghost d0 = self.drawn@;
        let ghost io0 = self.io;
        let sent = self.io.send_writes(writes);
        proof {
            assert(send_made::<T>(wire_view(writes@), sent is Ok));
            lemma_draws_push(d0, wire_view(writes@), self.display_mode@);
        }
        self.drawn = Ghost(self.drawn@.push(wire_view(writes@)));
        assert(forall|k: int| 0 <= k < d0.len() ==> self.drawn@[k] == d0[k]);
        assert(batch_sent::<T>(self.drawn@[d0.len() as int]));
        let ghost log0 = self.serial@;
        match &sent {
            Ok(()) => {
                let ghost event = SerialEvent::Exchanged;
                proof {
                    assert(event_backed::<T>(event));
                    lemma_push_event(log0, event);
                }
                self.serial = Ghost(self.serial@.push(event));
                self.timeout_counter.record_success();
                assert(self.serial@[log0.len() as int] == event);
            },
            Err(e) => {
                let ghost event = SerialEvent::Failed(e.kind);
                proof {
                    assert(event_backed::<T>(event));
                    lemma_push_event(log0, event);
                    assert(self.serial@.push(event).drop_last() =~= log0);
                }
                self.serial = Ghost(self.serial@.push(event));
                assert(self.serial@[log0.len() as int] == event);
            },
        }
        assert(forall|k: int| 0 <= k < log0.len() ==> self.serial@[k] == log0[k]);
        assert(self.serial@.len() == log0.len() + 1 && self.serial@[log0.len() as int] != SerialEvent::Closed);
        sent
    }

    fn disconnect_device(&mut self)
        requires
            old(self).inv_core(),
        ensures
            log_extends(old(self).serial@, final(self).serial@),
            final(self).wf(),
            !final(self).connected,
            final(self).daemon.current() == DaemonState::Listening,
            final(self).pending_display_action is None,
            final(self).next_connect_at is None,
            final(self).connect_backoff == CONNECT_RETRY_MIN_INTERVAL_MS,
            final(self).display_mode == old(self).display_mode,
            final(self).timeout_counter.consecutive() == 0,
            draws_screen_batches(old(self).drawn@, final(self).drawn@, old(self).display_mode@),
            exists|q: &mut T| #[trigger] call_ensures(T::disconnect, (q,), ()) && *q == old(self).io && *final(q) == final(self).io,
    {
        let ghost d0 = self.drawn@;
        let ghost dm = self.display_mode;
        proof {
            lemma_draws_refl(d0, dm@);
        }
        self.pending_display_action = None;
        let ghost io0 = self.io;
        self.next_connect_at = None;
        self.connect_backoff = CONNECT_RETRY_MIN_INTERVAL_MS;
        let actions = self.daemon.handle_event(DaemonEvent::DeviceDisconnected);
        let mut i: usize = 0;
        while i < actions.len()
            invariant
                self.inv_core(),
                self.display_mode == dm,
                draws_screen_batches(d0, self.drawn@, dm@),
                self.pending_display_action is None,
                self.daemon.current() == DaemonState::Listening,
                actions@ == seq![DaemonAction::CloseDevice],
                self.serial@ == old(self).serial@,
                self.next_connect_at is None,
                self.connect_backoff == CONNECT_RETRY_MIN_INTERVAL_MS,
                i <= 1,
                i == 0 ==> self.io == io0,
                i == 1 ==> !self.connected && exists|q: &mut T|
                    #[trigger] call_ensures(T::disconnect, (q,), ()) && *q == io0 && *final(q) == self.io,
            decreases actions@.len() - i,
        {
            let ghost before = self.drawn@;
            let _ = self.apply_action(actions[i]);
            proof {
                lemma_draws_trans(d0, before, self.drawn@, dm@);
            }
            i = i + 1;
        }
        let ghost log0 = self.serial@;
        proof {
            assert(log0.take(log0.len() as int) =~= log0);
            lemma_push_event(log0, SerialEvent::Closed);
        }
        self.serial = Ghost(self.serial@.push(SerialEvent::Closed));
        assert(forall|k: int| 0 <= k < log0.len() ==> self.serial@[k] == log0[k]);
        assert(event_backed::<T>(self.serial@[log0.len() as int]));
        self.timeout_counter.record_success();
    }

    /// Drops the screen after an error the loop cannot get past, so that the
    /// next tick starts over from scanning.
    pub fn recover_after_unexpected_tick_error(&mut self, err: IoFailure)
        requires
            old(self).wf(),
        ensures
            log_extends(old(self).serial_log(), final(self).serial_log()),
            final(self).wf(),
            !final(self).connected_spec(),
            final(self).state_spec() == DaemonState::Listening,
            final(self).pending_spec() is None,
            final(self).next_connect_spec() is None,
            final(self).backoff_spec() == CONNECT_RETRY_MIN_INTERVAL_MS,
            final(self).display_mode_spec() == old(self).display_mode_spec(),
            draws_screen_batches(old(self).drawn_log(), final(self).drawn_log(), old(self).display_mode_spec()),
    {
        self.disconnect_device();
        self.io.sleep(TICK_SLEEP_MS);
    }

    /// A lost device ends the session; a timeout counts toward the limit,
    /// which ends it too; any other error is passed on.
    fn handle_runtime_error(&mut self, err: IoFailure, counts_serial_timeout: bool) -> (r: Result<(), IoFailure>)
        requires
            old(self).failed_on(err.kind),
            old(self).connected,
            is_connected_spec(old(self).daemon.current()),
            counts_serial_timeout || err.kind != SerialErrorKind::Timeout,
        ensures
            log_extends(old(self).serial@, final(self).serial@),
            final(self).connected ==> no_close_between(old(self).serial@, final(self).serial@),
            final(self).wf(),
            (r is Err) == (err.kind == SerialErrorKind::Other),
            r is Err ==> final(self).connected == old(self).connected,
            r matches Err(e) ==> e == err,
            err.kind == SerialErrorKind::Disconnected ==> !final(self).connected
                && final(self).daemon.current() == DaemonState::Listening,
            (final(self).connected == old(self).connected && final(self).daemon.current() == old(self).daemon.current())
                || (!final(self).connected && final(self).daemon.current() == DaemonState::Listening),
            final(self).display_mode == old(self).display_mode,
            draws_screen_batches(old(self).drawn@, final(self).drawn@, old(self).display_mode@),
            r is Ok ==> exists|q: &mut T|
                #[trigger] call_ensures(T::sleep, (q, TICK_SLEEP_MS), ()) && *final(q) == final(self).io,
            !final(self).connected ==> exists|q: &mut T, q2: &mut T|
                #![trigger call_ensures(T::disconnect, (q,), ()), call_ensures(T::sleep, (q2, TICK_SLEEP_MS), ())]
                call_ensures(T::disconnect, (q,), ()) && call_ensures(T::sleep, (q2, TICK_SLEEP_MS), ()) && *q2
                    == *final(q) && *final(q2) == final(self).io,
            err.kind == SerialErrorKind::Timeout && counts_serial_timeout ==> if old(
                self,
            ).timeout_counter.consecutive() + 1 >= SERIAL_TIMEOUT_LIMIT {
                !final(self).connected && final(self).daemon.current() == DaemonState::Listening
                    && final(self).timeout_counter.consecutive() == 0
            } else {
                final(self).connected == old(self).connected && final(self).daemon.current() == old(
                    self,
                ).daemon.current() && final(self).timeout_counter.consecutive() == old(
                    self,
                ).timeout_counter.consecutive() + 1
            },
    {
        proof {
            lemma_draws_refl(self.drawn@, self.display_mode@);
        }
        match err.kind {
            SerialErrorKind::Disconnected => {
                self.disconnect_device();
                let ghost io_closed = self.io;
                self.io.sleep(TICK_SLEEP_MS);
                assert(exists|q: &mut T| #[trigger] call_ensures(T::sleep, (q, TICK_SLEEP_MS), ()) && *q == io_closed && *final(q) == self.io);
                Ok(())
            },
            SerialErrorKind::Timeout => {
                let tripped = counts_serial_timeout && self.timeout_counter.record_timeout();
                if tripped {
                    self.disconnect_device();
                }
                let ghost io_closed = self.io;
                self.io.sleep(TICK_SLEEP_MS);
                assert(exists|q: &mut T| #[trigger] call_ensures(T::sleep, (q, TICK_SLEEP_MS), ()) && *q == io_closed && *final(q) == self.io);
                Ok(())
            },
            SerialErrorKind::Other => Err(err),
        }
    }

    fn handle_connect_failure(&mut self)
        requires
            old(self).inv_core(),
            old(self).timeout_counter.consecutive() == 0,
            old(self).daemon.current() != DaemonState::Listening,
        ensures
            log_extends(old(self).serial@, final(self).serial@),
            final(self).wf(),
            !final(self).connected,
            final(self).pending_display_action is None,
            final(self).daemon.current() == old(self).daemon.current(),
            final(self).display_mode == old(self).display_mode,
            draws_screen_batches(old(self).drawn@, final(self).drawn@, old(self).display_mode@),
            exists|q: &mut T| #[trigger] call_ensures(T::sleep, (q, TICK_SLEEP_MS), ()) && *final(q) == final(self).io,
            exists|q: &mut T| #[trigger] call_ensures(T::disconnect, (q,), ()) && *q == old(self).io,
    {
        proof {
            lemma_draws_refl(self.drawn@, self.display_mode@);
        }
        let ghost io_start = self.io;
        self.io.disconnect();
        self.connected = false;
        self.pending_display_action = None;
        let ghost log0 = self.serial@;
        proof {
            lemma_push_event(log0, SerialEvent::Closed);
        }
        self.serial = Ghost(self.serial@.push(SerialEvent::Closed));
        assert(forall|k: int| 0 <= k < log0.len() ==> self.serial@[k] == log0[k]);
        assert(exists|q: &mut T| #[trigger] call_ensures(T::disconnect, (q,), ()) && *q == io_start);
        assert(event_backed::<T>(self.serial@[log0.len() as int]));
        let now = self.io.now();
        self.schedule_connect_retry(now);
        self.io.sleep(TICK_SLEEP_MS);
        assert(exists|q: &mut T| #[trigger] call_ensures(T::sleep, (q, TICK_SLEEP_MS), ()) && *final(q) == self.io);
    }

    fn schedule_connect_retry(&mut self, now_ms: u64)
        requires
            old(self).wf(),
            old(self).daemon.current() != DaemonState::Listening,
        ensures
            log_extends(old(self).serial@, final(self).serial@),
            final(self).wf(),
            final(self).next_connect_at == Some(later(now_ms, old(self).connect_backoff)),
            final(self).connect_backoff == next_backoff(old(self).connect_backoff),
            final(self).connected == old(self).connected,
            final(self).pending_display_action == old(self).pending_display_action,
            final(self).daemon.current() == old(self).daemon.current(),
            final(self).io == old(self).io,
            final(self).display_mode == old(self).display_mode,
            final(self).drawn == old(self).drawn,
    {
        let delay = self.connect_backoff;
        let at: u64 = if now_ms <= u64::MAX - delay {
            now_ms + delay
        } else {
            u64::MAX
        };
        self.next_connect_at = Some(at);
        self.connect_backoff = if delay <= CONNECT_RETRY_MAX_INTERVAL_MS / 2 {
            delay * 2
        } else {
            CONNECT_RETRY_MAX_INTERVAL_MS
        };
    }

    fn reset_connect_retry(&mut self)
        requires
            old(self).wf(),
        ensures
            log_extends(old(self).serial@, final(self).serial@),
            final(self).wf(),
            final(self).next_connect_at is None,
            final(self).connect_backoff == CONNECT_RETRY_MIN_INTERVAL_MS,
            final(self).connected == old(self).connected,
            final(self).pending_display_action == old(self).pending_display_action,
            final(self).daemon.current() == old(self).daemon.current(),
            final(self).io == old(self).io,
            final(self).display_mode == old(self).display_mode,
            final(self).drawn == old(self).drawn,
    {
        self.next_connect_at = None;
        self.connect_backoff = CONNECT_RETRY_MIN_INTERVAL_MS;
    }

    /// With no fresh network result for the stale interval, an empty snapshot
    /// stands in, so the screen falls back to the pending page.
    fn stale_network_snapshot(&self, now_ms: u64) -> (r: Option<NetworkSnapshot>)
        ensures
            r is Some == is_due_spec(now_ms, self.last_network_snapshot, NETWORK_SNAPSHOT_STALE_INTERVAL_MS),
            r matches Some(s) ==> s@.0.len() == 0 && s@.1.len() == 0,
    {
        if is_due(now_ms, self.last_network_snapshot, NETWORK_SNAPSHOT_STALE_INTERVAL_MS) {
            Some(NetworkSnapshot::default())
        } else {
            None
        }
    }

    fn status_page_refresh_action(&self, now_ms: u64) -> (r: Option<DaemonAction>)
        ensures
            r == status_refresh_spec(self.daemon.current(), now_ms, self.last_status_page_refresh),
            r matches Some(a) ==> is_display_action(a),
    {
        if !is_due(now_ms, self.last_status_page_refresh, STATUS_PAGE_REFRESH_INTERVAL_MS) {
            return None;
        }
        match self.daemon.state() {
            DaemonState::ConnectedPendingIp => Some(DaemonAction::ShowPending),
            DaemonState::ConnectedDhcpFailed => Some(DaemonAction::ShowDhcpFailed),
            _ => None,
        }
    }
}

/// After any number of failed connects the back-off lies between the minimum
/// and the maximum, and from the minimum it reaches the maximum after two
/// failures and stays there.
pub proof fn lemma_backoff_bounded(backoff: u64)
    requires
        CONNECT_RETRY_MIN_INTERVAL_MS <= backoff <= CONNECT_RETRY_MAX_INTERVAL_MS,
    ensures
        CONNECT_RETRY_MIN_INTERVAL_MS <= next_backoff(backoff) <= CONNECT_RETRY_MAX_INTERVAL_MS,
        next_backoff(next_backoff(backoff)) == CONNECT_RETRY_MAX_INTERVAL_MS,
        next_backoff(CONNECT_RETRY_MIN_INTERVAL_MS) == 1000,
{
}

} // verus!
