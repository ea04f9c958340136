//! What the flasher window shows: the session phase with the selected device,
//! the status line, and the log (a short line for the window, a detail for
//! copying).

use vstd::prelude::*;

use crate::text::{push_str, string_of, trim, trim_spec};

verus! {

#[derive(Debug, Clone, Copy, PartialEq, Eq, Structural)]
pub enum SessionPhase {
    NoDevice,
    Ready,
    Flashing,
    Done,
    Error,
}

/// The name of a phase, as the window knows it.
pub open spec fn phase_kind(p: SessionPhase) -> Seq<char> {
    match p {
        SessionPhase::NoDevice => "NoDevice"@,
        SessionPhase::Ready => "Ready"@,
        SessionPhase::Flashing => "Flashing"@,
        SessionPhase::Done => "Done"@,
        SessionPhase::Error => "Error"@,
    }
}

/// The title a phase starts with.
pub open spec fn phase_title(p: SessionPhase) -> Seq<char> {
    match p {
        SessionPhase::NoDevice => "未连接"@,
        SessionPhase::Ready => "准备就绪"@,
        SessionPhase::Flashing => "写入中"@,
        SessionPhase::Done => "写入完成"@,
        SessionPhase::Error => "无法写入"@,
    }
}

/// The write button is offered when a device is ready, and again after a flash.
pub open spec fn phase_button(p: SessionPhase) -> bool {
    p == SessionPhase::Ready || p == SessionPhase::Done
}

impl SessionPhase {
    pub fn kind(self) -> (r: &'static str)
        ensures
            r@ == phase_kind(self),
    {
        match self {
            SessionPhase::NoDevice => "NoDevice",
            SessionPhase::Ready => "Ready",
            SessionPhase::Flashing => "Flashing",
            SessionPhase::Done => "Done",
            SessionPhase::Error => "Error",
        }
    }

    pub fn default_title(self) -> (r: &'static str)
        ensures
            r@ == phase_title(self),
    {
        match self {
            SessionPhase::NoDevice => "未连接",
            SessionPhase::Ready => "准备就绪",
            SessionPhase::Flashing => "写入中",
            SessionPhase::Done => "写入完成",
            SessionPhase::Error => "无法写入",
        }
    }

    pub fn button_enabled(self) -> (r: bool)
        ensures
            r == phase_button(self),
    {
        match self {
            SessionPhase::Ready | SessionPhase::Done => true,
            _ => false,
        }
    }
}

pub open spec fn opt_view(o: Option<String>) -> Option<Seq<char>> {
    match o {
        Some(s) => Some(s@),
        None => None,
    }
}

pub fn copy_opt(o: &Option<String>) -> (r: Option<String>)
    ensures
        opt_view(r) == opt_view(*o),
{
    match o {
        Some(s) => Some(string_of(s.as_str())),
        None => None,
    }
}

/// The session as the window reads it.
#[derive(Debug, Clone, PartialEq, Eq)]
pub struct SessionSnapshot {
    pub phase: SessionPhase,
    pub port_name: Option<String>,
    pub vid_pid: Option<String>,
    pub serial: Option<String>,
    pub button_enabled: bool,
    pub title: String,
}

/// The device status event the window receives.
#[derive(Debug, Clone, PartialEq, Eq)]
pub struct UiDeviceStatus {
    pub kind: String,
    pub title: String,
    pub port_name: Option<String>,
    pub vid_pid: Option<String>,
    pub serial: Option<String>,
    pub button_enabled: bool,
}

/// A field shown only when it is more than whitespace, and then trimmed.
pub open spec fn optional_field_spec(value: Seq<char>) -> Option<Seq<char>> {
    if trim_spec(value).len() == 0 {
        None
    } else {
        Some(trim_spec(value))
    }
}

fn optional_field(value: &str) -> (r: Option<String>)
    ensures
        opt_view(r) == optional_field_spec(value@),
{
    let trimmed = trim(value);
    if trimmed.as_str().unicode_len() == 0 {
        None
    } else {
        Some(trimmed)
    }
}

impl UiDeviceStatus {
    pub fn no_device() -> (r: UiDeviceStatus)
        ensures
            r.kind@ == "NoDevice"@,
            r.title@ == "未连接"@,
            r.port_name is None,
            r.vid_pid is None,
            r.serial is None,
            !r.button_enabled,
    {
        UiDeviceStatus {
            kind: string_of("NoDevice"),
            title: string_of("未连接"),
            port_name: None,
            vid_pid: None,
            serial: None,
            button_enabled: false,
        }
    }

    /// A device that is ready; empty ID fields are left out.
    pub fn ready(port_name: &str, vid_pid: &str, serial: &str) -> (r: UiDeviceStatus)
        ensures
            r.kind@ == "Ready"@,
            r.title@ == "准备就绪"@,
            opt_view(r.port_name) == Some(port_name@),
            opt_view(r.vid_pid) == optional_field_spec(vid_pid@),
            opt_view(r.serial) == optional_field_spec(serial@),
            r.button_enabled,
    {
        UiDeviceStatus {
            kind: string_of("Ready"),
            title: string_of("准备就绪"),
            port_name: Some(string_of(port_name)),
            vid_pid: optional_field(vid_pid),
            serial: optional_field(serial),
            button_enabled: true,
        }
    }

    /// The status event for a session snapshot.
    pub fn from(snapshot: SessionSnapshot) -> (r: UiDeviceStatus)
        ensures
            r.kind@ == phase_kind(snapshot.phase),
            r.title == snapshot.title,
            r.port_name == snapshot.port_name,
            r.vid_pid == snapshot.vid_pid,
            r.serial == snapshot.serial,
            r.button_enabled == snapshot.button_enabled,
    {
        UiDeviceStatus {
            kind: string_of(snapshot.phase.kind()),
            title: snapshot.title,
            port_name: snapshot.port_name,
            vid_pid: snapshot.vid_pid,
            serial: snapshot.serial,
            button_enabled: snapshot.button_enabled,
        }
    }
}

/// One log line: the short text for the window and the detail for copying.
#[derive(Debug, Clone, PartialEq, Eq)]
pub struct LogEntry {
    pub user_message: String,
    pub detail: String,
}

/// The most log entries kept; the oldest go first.
pub const MAX_LOG_ENTRIES: usize = 500;

pub open spec fn log_views(logs: Seq<LogEntry>) -> Seq<(Seq<char>, Seq<char>)> {
    logs.map_values(|e: LogEntry| (e.user_message@, e.detail@))
}

/// The log after adding an entry: appended, and the oldest dropped past the cap.
pub open spec fn pushed_log(
    logs: Seq<(Seq<char>, Seq<char>)>,
    entry: (Seq<char>, Seq<char>),
) -> Seq<(Seq<char>, Seq<char>)> {
    let longer = logs.push(entry);
    if longer.len() > MAX_LOG_ENTRIES {
        longer.drop_first()
    } else {
        longer
    }
}

/// The copyable log: one `user | detail` line per entry.
pub open spec fn log_text(logs: Seq<(Seq<char>, Seq<char>)>) -> Seq<char>
    decreases logs.len(),
{
    if logs.len() == 0 {
        seq![]
    } else if logs.len() == 1 {
        logs[0].0 + " | "@ + logs[0].1
    } else {
        log_text(logs.drop_last()) + "\n"@ + logs.last().0 + " | "@ + logs.last().1
    }
}

/// Appends an entry, keeping at most [`MAX_LOG_ENTRIES`].
pub fn push_log_entry(logs: &mut Vec<LogEntry>, user_message: &str, detail: &str)
    ensures
        log_views(final(logs)@) == pushed_log(log_views(old(logs)@), (user_message@, detail@)),
{
    let ghost before = log_views(logs@);
    logs.push(LogEntry { user_message: string_of(user_message), detail: string_of(detail) });
    assert(log_views(logs@) =~= before.push((user_message@, detail@)));
    if logs.len() > MAX_LOG_ENTRIES {
        let ghost longer = logs@;
        logs.remove(0);
        assert(log_views(logs@) =~= log_views(longer).drop_first());
    }
}

pub fn last_user_message(logs: &Vec<LogEntry>) -> (r: Option<String>)
    ensures
        opt_view(r) == (if logs@.len() == 0 {
            None
        } else {
            Some(log_views(logs@).last().0)
        }),
{
    if logs.len() == 0 {
        None
    } else {
        Some(string_of(logs[logs.len() - 1].user_message.as_str()))
    }
}

pub fn log_to_text(logs: &Vec<LogEntry>) -> (r: String)
    ensures
        r@ == log_text(log_views(logs@)),
{
    let ghost all = log_views(logs@);
    let mut out = String::new();
    let mut i: usize = 0;
    while i < logs.len()
        invariant
            all == log_views(logs@),
            i <= logs@.len(),
            out@ == log_text(all.subrange(0, i as int)),
        decreases logs@.len() - i,
    {
        assert(all.subrange(0, i + 1).drop_last() =~= all.subrange(0, i as int));
        if i > 0 {
            push_str(&mut out, "\n");
        }
        push_str(&mut out, logs[i].user_message.as_str());
        push_str(&mut out, " | ");
        push_str(&mut out, logs[i].detail.as_str());
        proof {
            if i == 0 {
                assert(out@ =~= log_text(all.subrange(0, 1)));
            }
        }
        assert(out@ =~= log_text(all.subrange(0, i + 1)));
        i = i + 1;
    }
    assert(all.subrange(0, logs@.len() as int) =~= all);
    out
}

/// The session held by the window.
pub ghost struct SessionView {
    pub phase: SessionPhase,
    pub port_name: Option<Seq<char>>,
    pub vid_pid: Option<Seq<char>>,
    pub serial: Option<Seq<char>>,
    pub title: Seq<char>,
}

/// The state of the flasher window: the session and the log.
pub struct AppState {
    phase: SessionPhase,
    port_name: Option<String>,
    vid_pid: Option<String>,
    serial: Option<String>,
    title: String,
    logs: Vec<LogEntry>,
}

/// No device: the state a window starts in, and returns to.
pub open spec fn no_device_session() -> SessionView {
    SessionView { phase: SessionPhase::NoDevice, port_name: None, vid_pid: None, serial: None, title: "未连接"@ }
}

/// A device in a phase, with the phase's default title.
pub open spec fn device_session(
    phase: SessionPhase,
    port: Seq<char>,
    vid_pid: Option<Seq<char>>,
    serial: Option<Seq<char>>,
) -> SessionView {
    SessionView { phase, port_name: Some(port), vid_pid, serial, title: phase_title(phase) }
}

impl AppState {
    pub closed spec fn session(&self) -> SessionView {
        SessionView {
            phase: self.phase,
            port_name: opt_view(self.port_name),
            vid_pid: opt_view(self.vid_pid),
            serial: opt_view(self.serial),
            title: self.title@,
        }
    }

    pub closed spec fn log(&self) -> Seq<(Seq<char>, Seq<char>)> {
        log_views(self.logs@)
    }

    pub fn new() -> (r: AppState)
        ensures
            r.session() == no_device_session(),
            r.log().len() == 0,
    {
        AppState {
            phase: SessionPhase::NoDevice,
            port_name: None,
            vid_pid: None,
            serial: None,
            title: string_of("未连接"),
            logs: Vec::new(),
        }
    }

    pub fn snapshot(&self) -> (r: SessionSnapshot)
        ensures
            r.phase == self.session().phase,
            opt_view(r.port_name) == self.session().port_name,
            opt_view(r.vid_pid) == self.session().vid_pid,
            opt_view(r.serial) == self.session().serial,
            r.title@ == self.session().title,
            r.button_enabled == phase_button(self.session().phase),
    {
        SessionSnapshot {
            phase: self.phase,
            port_name: copy_opt(&self.port_name),
            vid_pid: copy_opt(&self.vid_pid),
            serial: copy_opt(&self.serial),
            button_enabled: self.phase.button_enabled(),
            title: string_of(self.title.as_str()),
        }
    }

    fn set_device(&mut self, phase: SessionPhase, port_name: String, vid_pid: Option<String>, serial: Option<String>)
        ensures
            final(self).session() == device_session(phase, port_name@, opt_view(vid_pid), opt_view(serial)),
            final(self).log() == old(self).log(),
    {
        self.phase = phase;
        self.port_name = Some(port_name);
        self.vid_pid = vid_pid;
        self.serial = serial;
        self.title = string_of(phase.default_title());
    }

    pub fn set_ready(&mut self, port: String, vid_pid: Option<String>, serial: Option<String>)
        ensures
            final(self).session() == device_session(SessionPhase::Ready, port@, opt_view(vid_pid), opt_view(serial)),
            final(self).log() == old(self).log(),
    {
        self.set_device(SessionPhase::Ready, port, vid_pid, serial);
    }

    pub fn set_flashing(&mut self, port: String, vid_pid: Option<String>, serial: Option<String>)
        ensures
            final(self).session() == device_session(
                SessionPhase::Flashing,
                port@,
                opt_view(vid_pid),
                opt_view(serial),
            ),
            final(self).log() == old(self).log(),
    {
        self.set_device(SessionPhase::Flashing, port, vid_pid, serial);
    }

    pub fn set_done(&mut self, port: String, vid_pid: Option<String>, serial: Option<String>)
        ensures
            final(self).session() == device_session(SessionPhase::Done, port@, opt_view(vid_pid), opt_view(serial)),
            final(self).log() == old(self).log(),
    {
        self.set_device(SessionPhase::Done, port, vid_pid, serial);
    }

    /// An error on a device (or none), with the title to show.
    pub fn set_error(&mut self, port: Option<String>, vid_pid: Option<String>, serial: Option<String>, title: &str)
        ensures
            final(self).session() == (SessionView {
                phase: SessionPhase::Error,
                port_name: opt_view(port),
                vid_pid: opt_view(vid_pid),
                serial: opt_view(serial),
                title: title@,
            }),
            final(self).log() == old(self).log(),
    {
        self.phase = SessionPhase::Error;
        self.port_name = port;
        self.vid_pid = vid_pid;
        self.serial = serial;
        self.title = string_of(title);
    }

    pub fn set_ready_device(&mut self, port: String, vid_pid: Option<String>, serial: Option<String>)
        ensures
            final(self).session() == device_session(SessionPhase::Ready, port@, opt_view(vid_pid), opt_view(serial)),
            final(self).log() == old(self).log(),
    {
        self.set_ready(port, vid_pid, serial);
    }

    pub fn clear_device(&mut self)
        ensures
            final(self).session() == no_device_session(),
            final(self).log() == old(self).log(),
    {
        self.phase = SessionPhase::NoDevice;
        self.port_name = None;
        self.vid_pid = None;
        self.serial = None;
        self.title = string_of("未连接");
    }

    pub fn selected_port(&self) -> (r: Option<String>)
        ensures
            opt_view(r) == self.session().port_name,
    {
        copy_opt(&self.port_name)
    }

    pub fn push_log(&mut self, user_message: &str, detail: &str)
        ensures
            final(self).log() == pushed_log(old(self).log(), (user_message@, detail@)),
            final(self).session() == old(self).session(),
    {
        push_log_entry(&mut self.logs, user_message, detail);
    }

    pub fn last_user_log(&self) -> (r: Option<String>)
        ensures
            opt_view(r) == (if self.log().len() == 0 {
                None
            } else {
                Some(self.log().last().0)
            }),
    {
        last_user_message(&self.logs)
    }

    pub fn copy_log(&self) -> (r: String)
        ensures
            r@ == log_text(self.log()),
    {
        log_to_text(&self.logs)
    }
}

impl Default for AppState {
    fn default() -> (r: Self)
        ensures
            r.session() == no_device_session(),
            r.log().len() == 0,
    {
        AppState::new()
    }
}

/// After a log entry is pushed, it is the last one and the window's line
/// shows it; the log never holds more than [`MAX_LOG_ENTRIES`] entries, and
/// the entries before it are kept (but for the oldest, once the log is full).
pub proof fn lemma_push_log_keeps_latest(logs: Seq<(Seq<char>, Seq<char>)>, entry: (Seq<char>, Seq<char>))
    requires
        logs.len() <= MAX_LOG_ENTRIES,
    ensures
        pushed_log(logs, entry).len() <= MAX_LOG_ENTRIES,
        pushed_log(logs, entry).last() == entry,
        logs.len() < MAX_LOG_ENTRIES ==> pushed_log(logs, entry) == logs.push(entry),
        logs.len() == MAX_LOG_ENTRIES ==> pushed_log(logs, entry) == logs.drop_first().push(entry),
{
    if logs.len() == MAX_LOG_ENTRIES {
        assert(logs.push(entry).drop_first() =~= logs.drop_first().push(entry));
    }
}

/// The copied log contains every entry's detail.
pub proof fn lemma_log_text_contains_details(logs: Seq<(Seq<char>, Seq<char>)>, i: int)
    requires
        0 <= i < logs.len(),
    ensures
        crate::text::contains_text(log_text(logs), logs[i].1),
    decreases logs.len(),
{
    let t = log_text(logs);
    if i == logs.len() - 1 {
        let d = logs[i].1;
        let k = t.len() - d.len();
        if logs.len() == 1 {
            assert(t.subrange(k, k + d.len()) =~= d);
        } else {
            assert(t.subrange(k, k + d.len()) =~= d);
        }
        assert(crate::text::occurs_at(t, d, k));
    } else {
        lemma_log_text_contains_details(logs.drop_last(), i);
        let p = log_text(logs.drop_last());
        let d = logs[i].1;
        assert(logs.drop_last()[i] == logs[i]);
        let k = choose|k: int| crate::text::occurs_at(p, d, k);
        assert(t.subrange(k, k + d.len()) =~= p.subrange(k, k + d.len()));
        assert(crate::text::occurs_at(t, d, k));
    }
}

} // verus!
