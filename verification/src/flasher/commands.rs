//! The decisions behind the window's commands: scanning for the screen (and
//! keeping a status worker on it), starting a flash job, and recording how
//! the job ended. Opening ports, starting threads and talking to the window
//! are handed in as closures.

use vstd::prelude::*;

use crate::flasher::app_state::{
    device_session, no_device_session, opt_view, optional_field_spec, phase_button, phase_kind, pushed_log, AppState, SessionPhase,
    SessionView, UiDeviceStatus,
};
use crate::flasher::assets::{plan_error, validate_plan, FlashAsset};
use crate::flasher::device::{handshake, DeviceInfo, PortIo};
use crate::flasher::errors::{detail_spec, user_message_spec, AppError, AppResult, ErrorView, UiError};
use crate::flasher::flashing::{flash_images_with_screen_status, flash_inputs_ok, FlashProgress};
use crate::flasher::screen_status::StatusScreens;
use crate::flasher::session::DisplayWorkerMode;
use crate::text::{push_str, string_of};

verus! {

/// The status of no device: its kind and title, no port, no identifiers, and
/// no write button.
pub open spec fn is_no_device_status(r: UiDeviceStatus) -> bool {
    &&& r.kind@ == "NoDevice"@
    &&& r.title@ == "未连接"@
    &&& r.port_name is None
    &&& r.vid_pid is None
    &&& r.serial is None
    &&& !r.button_enabled
}

/// An optional field's text, empty when absent.
pub open spec fn text_or_empty(o: Option<String>) -> Seq<char> {
    match o {
        Some(s) => s@,
        None => seq![],
    }
}

/// The ready status of a candidate: its port, and its VID:PID and serial as
/// the window shows them (trimmed, left out when blank).
pub open spec fn is_ready_status_for(r: UiDeviceStatus, d: DeviceInfo) -> bool {
    &&& r.kind@ == "Ready"@
    &&& r.title@ == "准备就绪"@
    &&& opt_view(r.port_name) == Some(d.port_name@)
    &&& opt_view(r.vid_pid) == optional_field_spec(text_or_empty(d.vid_pid))
    &&& opt_view(r.serial) == optional_field_spec(text_or_empty(d.serial))
    &&& r.button_enabled
}

/// Forgets the device, logs why, and reports that there is none.
pub fn scan_no_device(state: &mut AppState, user_message: &str, detail: &str) -> (r: UiDeviceStatus)
    ensures
        final(state).session() == no_device_session(),
        final(state).log() == pushed_log(old(state).log(), (user_message@, detail@)),
        is_no_device_status(r),
{
    state.clear_device();
    state.push_log(user_message, detail);
    UiDeviceStatus::no_device()
}

/// `port, VID:PID v, ID s`, leaving out what is unknown.
pub open spec fn candidate_line(d: DeviceInfo) -> Seq<char> {
    d.port_name@ + (match d.vid_pid {
        Some(v) => ", VID:PID "@ + v@,
        None => seq![],
    }) + (match d.serial {
        Some(s) => ", ID "@ + s@,
        None => seq![],
    })
}

pub fn candidate_debug_line(candidate: &DeviceInfo) -> (r: String)
    ensures
        r@ == candidate_line(*candidate),
{
    let mut s = string_of(candidate.port_name.as_str());
    if let Some(vid_pid) = &candidate.vid_pid {
        push_str(&mut s, ", VID:PID ");
        push_str(&mut s, vid_pid.as_str());
    }
    if let Some(serial) = &candidate.serial {
        push_str(&mut s, ", ID ");
        push_str(&mut s, serial.as_str());
    }
    s
}

fn any_port_named(candidates: &Vec<DeviceInfo>, port: &str) -> (r: bool)
    ensures
        r == exists|i: int| 0 <= i < candidates@.len() && (#[trigger] candidates@[i]).port_name@ == port@,
{
    let mut i: usize = 0;
    while i < candidates.len()
        invariant
            i <= candidates@.len(),
            forall|j: int| 0 <= j < i ==> (#[trigger] candidates@[j]).port_name@ != port@,
        decreases candidates@.len() - i,
    {
        if crate::text::str_eq(candidates[i].port_name.as_str(), port) {
            return true;
        }
        i = i + 1;
    }
    false
}

/// The session of a state as a status event.
pub open spec fn status_matches_session(r: UiDeviceStatus, state: AppState) -> bool {
    &&& r.kind@ == phase_kind(state.session().phase)
    &&& r.title@ == state.session().title
    &&& opt_view(r.port_name) == state.session().port_name
    &&& opt_view(r.vid_pid) == state.session().vid_pid
    &&& opt_view(r.serial) == state.session().serial
    &&& r.button_enabled == phase_button(state.session().phase)
}

/// Scans: keeps a flash job and a still-present ready (or done) device as
/// they are; forgets a ready device whose port went away; otherwise starts a
/// waiting-screen worker on the first candidate that takes one and selects
/// it. With no candidate (or no worker started) the device is forgotten.
pub fn scan_devices_with<FStart: FnMut(&DeviceInfo) -> AppResult<()>, FStop: FnMut()>(
    state: &mut AppState,
    candidates: AppResult<Vec<DeviceInfo>>,
    start_waiting_worker: FStart,
    stop_display_worker: FStop,
) -> (r: UiDeviceStatus)
    requires
        forall|d: &DeviceInfo| call_requires(start_waiting_worker, (d,)),
        call_requires(stop_display_worker, ()),
    ensures
        old(state).session().phase == SessionPhase::Flashing ==> *final(state) == *old(state) && status_matches_session(
            r,
            *old(state),
        ),
        old(state).session().phase != SessionPhase::Flashing ==> match candidates {
            Err(e) => final(state).session() == no_device_session() && final(state).log() == pushed_log(
                old(state).log(),
                (user_message_spec(e), detail_spec(e)),
            ) && is_no_device_status(r) && call_ensures(stop_display_worker, (), ()),
            Ok(list) => if list@.len() == 0 {
                final(state).session() == no_device_session() && final(state).log() == pushed_log(
                    old(state).log(),
                    ("未连接"@, "No candidate ports"@),
                ) && is_no_device_status(r) && call_ensures(stop_display_worker, (), ())
            } else {
                match old(state).session().port_name {
                    Some(p) if (exists|i: int| 0 <= i < list@.len() && (#[trigger] list@[i]).port_name@ == p)
                        && (old(state).session().phase == SessionPhase::Ready || old(state).session().phase
                        == SessionPhase::Done) => *final(state) == *old(state) && status_matches_session(
                        r,
                        *old(state),
                    ),
                    Some(p) if !(exists|i: int| 0 <= i < list@.len() && (#[trigger] list@[i]).port_name@ == p)
                        && (old(state).session().phase == SessionPhase::Ready || old(state).session().phase
                        == SessionPhase::Done) => final(state).session() == no_device_session()
                        && final(state).log() == pushed_log(
                        old(state).log(),
                        ("未连接"@, "Selected port "@ + p + " disappeared"@),
                    ) && is_no_device_status(r) && call_ensures(stop_display_worker, (), ()),
                    _ => tried_candidates(start_waiting_worker, list@, *old(state), *final(state), r),
                }
            },
        },
{
    let mut start_waiting_worker = start_waiting_worker;
    let mut stop_display_worker = stop_display_worker;
    let snapshot = state.snapshot();
    if snapshot.phase == SessionPhase::Flashing {
        return UiDeviceStatus::from(snapshot);
    }
    let candidates = match candidates {
        Ok(candidates) => candidates,
        Err(err) => {
            stop_display_worker();
            let user = err.user_message();
            let detail = err.detail();
            return scan_no_device(state, user.as_str(), detail.as_str());
        },
    };
    if candidates.len() == 0 {
        stop_display_worker();
        return scan_no_device(state, "未连接", "No candidate ports");
    }
    if let Some(selected_port) = &snapshot.port_name {
        let present = any_port_named(&candidates, selected_port.as_str());
        let keeps = snapshot.phase == SessionPhase::Ready || snapshot.phase == SessionPhase::Done;
        if present {
            if keeps {
                return UiDeviceStatus::from(snapshot);
            }
        } else if keeps {
            stop_display_worker();
            let mut detail = string_of("Selected port ");
            push_str(&mut detail, selected_port.as_str());
            push_str(&mut detail, " disappeared");
            return scan_no_device(state, "未连接", detail.as_str());
        }
    }
    try_candidates(state, &candidates, &mut start_waiting_worker)
}

/// The failure lines of a scan, one per candidate with the error its worker
/// start gave, joined by `"; "`.
pub open spec fn failure_lines(candidates: Seq<DeviceInfo>, errs: Seq<AppError>) -> Seq<char>
    decreases candidates.len(),
{
    if candidates.len() == 0 || errs.len() != candidates.len() {
        seq![]
    } else {
        let prev = failure_lines(candidates.drop_last(), errs.drop_last());
        let line = candidate_line(candidates.last()) + " -> "@ + detail_spec(errs.last());
        if candidates.len() == 1 {
            line
        } else {
            prev + "; "@ + line
        }
    }
}

/// Every candidate before `i` refused a worker start.
pub open spec fn refused_before<F: FnMut(&DeviceInfo) -> AppResult<()>>(
    start: F,
    candidates: Seq<DeviceInfo>,
    i: int,
) -> bool {
    forall|j: int| 0 <= j < i ==> #[trigger] refused_on(start, candidates[j])
}

/// A worker start on `d` can fail.
pub open spec fn refused_on<F: FnMut(&DeviceInfo) -> AppResult<()>>(start: F, d: DeviceInfo) -> bool {
    exists|o: AppResult<()>| #[trigger] call_ensures(start, (&d,), o) && o is Err
}

/// A worker start on `d` can succeed.
pub open spec fn started_on<F: FnMut(&DeviceInfo) -> AppResult<()>>(start: F, d: DeviceInfo) -> bool {
    exists|o: AppResult<()>| #[trigger] call_ensures(start, (&d,), o) && o is Ok
}

/// The outcome of trying the candidates in order: the first one a worker
/// starts on is selected and logged as ready; when every start fails, the
/// device is forgotten and each candidate's failure is logged.
pub open spec fn tried_candidates<F: FnMut(&DeviceInfo) -> AppResult<()>>(
    start: F,
    candidates: Seq<DeviceInfo>,
    before: AppState,
    after: AppState,
    r: UiDeviceStatus,
) -> bool {
    ||| is_no_device_status(r) && after.session() == no_device_session() && exists|errs: Seq<AppError>|
        errs.len() == candidates.len() && (forall|j: int|
            0 <= j < candidates.len() ==> call_ensures(start, (&candidates[j],), Err(#[trigger] errs[j])))
            && after.log() == pushed_log(before.log(), ("未连接"@, failure_lines(candidates, errs)))
    ||| exists|i: int|
        0 <= i < candidates.len() && refused_before(start, candidates, i) && started_on(start, candidates[i])
            && is_ready_status_for(r, candidates[i]) && after.session() == device_session(
            SessionPhase::Ready,
            (#[trigger] candidates[i]).port_name@,
            opt_view(candidates[i].vid_pid),
            opt_view(candidates[i].serial),
        ) && after.log() == pushed_log(before.log(), ("设备就绪"@, "Ready on "@ + candidate_line(candidates[i])))
}

/// Selects the first candidate a waiting-screen worker starts on; when none
/// does, the device is forgotten and the failures are logged.
fn try_candidates<FStart: FnMut(&DeviceInfo) -> AppResult<()>>(
    state: &mut AppState,
    candidates: &Vec<DeviceInfo>,
    start_waiting_worker: &mut FStart,
) -> (r: UiDeviceStatus)
    requires
        forall|d: &DeviceInfo| call_requires(*old(start_waiting_worker), (d,)),
    ensures
        tried_candidates(*old(start_waiting_worker), candidates@, *old(state), *final(state), r),
{
    let ghost f0 = *start_waiting_worker;
    let ghost mut errs: Seq<AppError> = seq![];
    let mut failures = String::new();
    let mut i: usize = 0;
    while i < candidates.len()
        invariant
            i <= candidates@.len(),
            state.log() == old(state).log(),
            *start_waiting_worker == f0,
            f0 == *old(start_waiting_worker),
            forall|d: &DeviceInfo| call_requires(*start_waiting_worker, (d,)),
            errs.len() == i,
            forall|j: int| 0 <= j < i ==> call_ensures(f0, (&candidates@[j],), Err(#[trigger] errs[j])),
            failures@ == failure_lines(candidates@.take(i as int), errs),
        decreases candidates@.len() - i,
    {
        let candidate = &candidates[i];
        proof {
            assert(candidates@.take(i + 1).drop_last() =~= candidates@.take(i as int));
            assert(candidates@.take(i + 1).last() == candidates@[i as int]);
        }
        let started = start_waiting_worker(candidate);
        assert(call_ensures(f0, (candidate,), started));
        match started {
            Err(err) => {
                let ghost prev = failures@;
                if failures.as_str().unicode_len() > 0 {
                    push_str(&mut failures, "; ");
                }
                let line = candidate_debug_line(candidate);
                push_str(&mut failures, line.as_str());
                push_str(&mut failures, " -> ");
                push_str(&mut failures, err.detail().as_str());
                proof {
                    assert(errs.push(err).drop_last() =~= errs);
                    if i > 0 {
                        assert(prev.len() > 0) by {
                            reveal_strlit(" -> ");
                            let t = candidates@.take(i as int);
                            let line = candidate_line(t.last()) + " -> "@ + detail_spec(errs.last());
                            assert(line.len() >= 4);
                        }
                    }
                    errs = errs.push(err);
                    assert(failures@ =~= failure_lines(candidates@.take(i + 1), errs));
                }
            },
            Ok(()) => {
                assert(started is Ok && call_ensures(f0, (&candidates@[i as int],), started));
                state.set_ready(
                    string_of(candidate.port_name.as_str()),
                    crate::flasher::app_state::copy_opt(&candidate.vid_pid),
                    crate::flasher::app_state::copy_opt(&candidate.serial),
                );
                let line = candidate_debug_line(candidate);
                let mut detail = string_of("Ready on ");
                push_str(&mut detail, line.as_str());
                state.push_log("设备就绪", detail.as_str());
                let vid_pid: &str = match &candidate.vid_pid {
                    Some(v) => v.as_str(),
                    None => "",
                };
                let serial: &str = match &candidate.serial {
                    Some(s) => s.as_str(),
                    None => "",
                };
                let r = UiDeviceStatus::ready(candidate.port_name.as_str(), vid_pid, serial);
                assert(candidates@[i as int] == *candidate);
                proof {
                    reveal_strlit("");
                    assert(vid_pid@ == text_or_empty(candidate.vid_pid));
                    assert(serial@ == text_or_empty(candidate.serial));
                }
                assert(is_ready_status_for(r, candidates@[i as int]));
                assert forall|j: int| 0 <= j < i implies #[trigger] refused_on(f0, candidates@[j]) by {
                    assert(call_ensures(f0, (&candidates@[j],), Err(errs[j])));
                }
                assert(refused_before(f0, candidates@, i as int));
                return r;
            },
        }
        i = i + 1;
    }
    assert(candidates@.take(candidates@.len() as int) =~= candidates@);
    scan_no_device(state, "未连接", failures.as_str())
}


/// Starts a flash job on the selected device: refused while one runs or when
/// no device is ready (or done); otherwise the status worker is stopped, the
/// session becomes "flashing", and the job is dispatched with the port.
pub fn queue_flash_start<FStop: FnMut(), FDispatch: FnOnce(String)>(
    state: &mut AppState,
    stop_display_worker: FStop,
    dispatch: FDispatch,
) -> (r: AppResult<()>)
    requires
        call_requires(stop_display_worker, ()),
        forall|s: String| call_requires(dispatch, (s,)),
    ensures
        old(state).session().phase == SessionPhase::Flashing ==> (r matches Err(e) && e@
            == ErrorView::FlashAlreadyRunning && *final(state) == *old(state)),
        (old(state).session().phase != SessionPhase::Flashing && !phase_button(old(state).session().phase))
            ==> (r matches Err(e) && e@ == ErrorView::NoDevice && *final(state) == *old(state)),
        phase_button(old(state).session().phase) ==> match old(state).session().port_name {
            None => (r matches Err(e) && e@ == ErrorView::NoDevice && *final(state) == *old(state)),
            Some(p) => r is Ok && final(state).session() == device_session(
                SessionPhase::Flashing,
                p,
                old(state).session().vid_pid,
                old(state).session().serial,
            ) && final(state).log() == old(state).log() && call_ensures(stop_display_worker, (), ()) && exists|
                s: String,
            | s@ == p && #[trigger] call_ensures(dispatch, (s,), ()),
        },
{
    let mut stop_display_worker = stop_display_worker;
    let snapshot = state.snapshot();
    if snapshot.phase == SessionPhase::Flashing {
        return Err(AppError::FlashAlreadyRunning);
    }
    if !(snapshot.phase == SessionPhase::Ready || snapshot.phase == SessionPhase::Done) {
        return Err(AppError::NoDevice);
    }
    let port_name = match snapshot.port_name {
        Some(p) => p,
        None => {
            return Err(AppError::NoDevice);
        },
    };
    stop_display_worker();
    state.set_flashing(string_of(port_name.as_str()), snapshot.vid_pid, snapshot.serial);
    let ghost sent = port_name;
    dispatch(port_name);
    assert(call_ensures(dispatch, (sent,), ()));
    Ok(())
}

/// After a successful flash: the "done" worker is started on the port and,
/// once it runs, the session becomes "done" and the log says so.
pub fn complete_flash_success_with<F: FnOnce(&str, DisplayWorkerMode) -> AppResult<()>>(
    state: &mut AppState,
    port_name: &str,
    start_done_worker: F,
) -> (r: AppResult<()>)
    requires
        call_requires(start_done_worker, (port_name, DisplayWorkerMode::FlashDone)),
    ensures
        r matches Err(e) ==> call_ensures(start_done_worker, (port_name, DisplayWorkerMode::FlashDone), Err(e)),
        r is Ok ==> exists|o: AppResult<()>|
            #[trigger] call_ensures(start_done_worker, (port_name, DisplayWorkerMode::FlashDone), o) && o is Ok,
        r is Err ==> *final(state) == *old(state),
        r is Ok ==> final(state).session() == device_session(
            SessionPhase::Done,
            port_name@,
            old(state).session().vid_pid,
            old(state).session().serial,
        ) && final(state).log() == pushed_log(old(state).log(), ("写入完成"@, "DONE"@)),
{
    let snapshot = state.snapshot();
    start_done_worker(port_name, DisplayWorkerMode::FlashDone)?;
    state.set_done(string_of(port_name), snapshot.vid_pid, snapshot.serial);
    state.push_log("写入完成", "DONE");
    Ok(())
}

/// A failed flash leaves the device selected, in the error phase, titled
/// with the error's short text.
pub fn mark_flash_error(state: &mut AppState, err: &AppError)
    ensures
        final(state).session().phase == SessionPhase::Error,
        final(state).session().port_name == old(state).session().port_name,
        final(state).session().vid_pid == old(state).session().vid_pid,
        final(state).session().serial == old(state).session().serial,
        final(state).session().title == user_message_spec(*err),
        final(state).log() == old(state).log(),
{
    let snapshot = state.snapshot();
    let title = err.user_message();
    state.set_error(snapshot.port_name, snapshot.vid_pid, snapshot.serial, title.as_str());
}

/// Logs a failure and gives the window its message and detail.
pub fn record_flash_failure(state: &mut AppState, err: &AppError) -> (r: UiError)
    ensures
        r.message@ == user_message_spec(*err),
        r.detail@ == detail_spec(*err),
        final(state).log() == pushed_log(old(state).log(), (user_message_spec(*err), detail_spec(*err))),
        final(state).session() == old(state).session(),
{
    let ui = err.to_ui_error();
    state.push_log(ui.message.as_str(), ui.detail.as_str());
    ui
}

/// Checks the flash plan before any port is opened; a bad plan is an asset error.
pub fn check_flash_plan(plan: &[FlashAsset<'_>]) -> (r: AppResult<()>)
    requires
        crate::flasher::assets::reached_end_pages_defined(plan@),
    ensures
        r is Ok <==> plan_error(plan@) is None,
        r matches Err(e) ==> e@ == ErrorView::Asset(
            crate::flasher::assets::asset_error_text(plan_error(plan@)->0),
        ),
{
    match validate_plan(plan) {
        Ok(()) => Ok(()),
        Err(err) => Err(AppError::Asset(err.to_string())),
    }
}

/// On an opened port: handshake, log the start, and flash the plan with the
/// progress drawn on the screen.
pub fn flash_on_port<P: PortIo, F: FnMut(FlashProgress)>(
    state: &mut AppState,
    port: &mut P,
    port_name: &str,
    plan: &[FlashAsset<'_>],
    screens: &StatusScreens,
    emit: F,
) -> (r: AppResult<()>)
    requires
        flash_inputs_ok(plan@),
        screens.wf(),
        forall|p: FlashProgress| call_requires(emit, (p,)),
    ensures
        final(state).session() == old(state).session(),
        final(state).log() == pushed_log(old(state).log(), ("写入中"@, "Starting flash on "@ + port_name@)) || (
        final(state).log() == old(state).log() && r is Err),
        r is Ok ==> final(state).log() == pushed_log(old(state).log(), ("写入中"@, "Starting flash on "@ + port_name@)),
        final(state).log() != old(state).log() ==> (crate::flasher::flashing::first_size_error(plan@) matches Some(e)
            ==> (r matches Err(err) && err@ == ErrorView::Asset(crate::flasher::assets::asset_error_text(e)))),
        exists|p1: &mut P, h: AppResult<()>|
            #[trigger] call_ensures(handshake::<P>, (p1,), h) && *p1 == *old(port) && match h {
                Err(e) => r == Err::<(), AppError>(e) && *final(port) == *final(p1) && final(state).log() == old(
                    state,
                ).log(),
                Ok(_) => final(state).log() == pushed_log(
                    old(state).log(),
                    ("写入中"@, "Starting flash on "@ + port_name@),
                ) && exists|p2: &mut P|
                    #[trigger] call_ensures(flash_images_with_screen_status::<P, F>, (p2, plan, emit, screens), r)
                        && *p2 == *final(p1) && *final(port) == *final(p2),
            },
{
    handshake(port)?;
    let mut detail = string_of("Starting flash on ");
    push_str(&mut detail, port_name);
    state.push_log("写入中", detail.as_str());
    flash_images_with_screen_status(port, plan, emit, screens)
}


/// The session after a failed job: still on its device, in the error phase,
/// titled with the error's short text.
pub open spec fn failed_session(before: SessionView, err: AppError) -> SessionView {
    SessionView { phase: SessionPhase::Error, title: user_message_spec(err), ..before }
}

/// Marks the session as failed and logs the error; returns what the window shows.
fn fail_flash_job(state: &mut AppState, err: &AppError) -> (r: UiError)
    ensures
        final(state).session() == failed_session(old(state).session(), *err),
        final(state).log() == pushed_log(old(state).log(), (user_message_spec(*err), detail_spec(*err))),
        r.message@ == user_message_spec(*err),
        r.detail@ == detail_spec(*err),
{
    mark_flash_error(state, err);
    record_flash_failure(state, err)
}

/// Ends a flash job with its outcome: after a successful job the "done"
/// worker is started and the session becomes "done"; a failed job, or a done
/// worker that does not start, fails the session and is logged, and the
/// window gets the error to show.
pub fn conclude_flash_job<F: FnOnce(&str, DisplayWorkerMode) -> AppResult<()>>(
    state: &mut AppState,
    port_name: &str,
    outcome: AppResult<()>,
    start_done_worker: F,
) -> (r: Result<(), UiError>)
    requires
        call_requires(start_done_worker, (port_name, DisplayWorkerMode::FlashDone)),
    ensures
        match outcome {
            Err(e) => r matches Err(ui) && ui.message@ == user_message_spec(e) && ui.detail@ == detail_spec(e)
                && final(state).session() == failed_session(old(state).session(), e) && final(state).log()
                == pushed_log(old(state).log(), (user_message_spec(e), detail_spec(e))),
            Ok(()) => match r {
                Ok(()) => (exists|o: AppResult<()>|
                    #[trigger] call_ensures(start_done_worker, (port_name, DisplayWorkerMode::FlashDone), o) && o is Ok)
                    && final(state).session() == device_session(
                    SessionPhase::Done,
                    port_name@,
                    old(state).session().vid_pid,
                    old(state).session().serial,
                ) && final(state).log() == pushed_log(old(state).log(), ("写入完成"@, "DONE"@)),
                Err(ui) => exists|e: AppError|
                    #[trigger] call_ensures(start_done_worker, (port_name, DisplayWorkerMode::FlashDone), Err(e))
                        && ui.message@ == user_message_spec(e) && ui.detail@ == detail_spec(e)
                        && final(state).session() == failed_session(old(state).session(), e) && final(state).log()
                        == pushed_log(old(state).log(), (user_message_spec(e), detail_spec(e))),
            },
        },
{
    match outcome {
        Ok(()) => match complete_flash_success_with(state, port_name, start_done_worker) {
            Ok(()) => Ok(()),
            Err(err) => Err(fail_flash_job(state, &err)),
        },
        Err(err) => Err(fail_flash_job(state, &err)),
    }
}

/// The status worker on `port_name` lost the screen: the loss is logged, and
/// when that port is the selected device the device is forgotten and the new
/// status is returned for the window.
pub fn keepalive_lost(state: &mut AppState, port_name: &str, err: &AppError) -> (r: Option<UiDeviceStatus>)
    ensures
        final(state).log() == pushed_log(old(state).log(), ("设备已断开"@, detail_spec(*err))),
        old(state).session().port_name == Some(port_name@) ==> final(state).session() == no_device_session() && (
        r matches Some(status) && status_matches_session(status, *final(state))),
        old(state).session().port_name != Some(port_name@) ==> final(state).session() == old(state).session()
            && r is None,
{
    let detail = err.detail();
    state.push_log("设备已断开", detail.as_str());
    let selected = state.selected_port();
    let is_selected = match &selected {
        Some(p) => crate::text::str_eq(p.as_str(), port_name),
        None => false,
    };
    if is_selected {
        state.clear_device();
        Some(UiDeviceStatus::from(state.snapshot()))
    } else {
        None
    }
}

} // verus!
