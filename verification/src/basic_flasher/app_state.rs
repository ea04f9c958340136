//! State of the single-window flasher: the selected device and the log.

use vstd::prelude::*;

pub use crate::flasher::app_state::{LogEntry, UiDeviceStatus};

use crate::flasher::app_state::{
    copy_opt, last_user_message, log_text, log_to_text, log_views, opt_view, push_log_entry, pushed_log,
};

verus! {

pub struct AppState {
    selected_port: Option<String>,
    selected_vid_pid: Option<String>,
    selected_serial: Option<String>,
    logs: Vec<LogEntry>,
}

impl AppState {
    /// The selected port, its `VID:PID` and its serial number.
    pub closed spec fn selection(&self) -> (Option<Seq<char>>, Option<Seq<char>>, Option<Seq<char>>) {
        (opt_view(self.selected_port), opt_view(self.selected_vid_pid), opt_view(self.selected_serial))
    }

    pub closed spec fn log(&self) -> Seq<(Seq<char>, Seq<char>)> {
        log_views(self.logs@)
    }

    pub fn new() -> (r: AppState)
        ensures
            r.selection() == (None::<Seq<char>>, None::<Seq<char>>, None::<Seq<char>>),
            r.log().len() == 0,
    {
        AppState { selected_port: None, selected_vid_pid: None, selected_serial: None, logs: Vec::new() }
    }

    pub fn set_ready_device(&mut self, port: String, vid_pid: Option<String>, serial: Option<String>)
        ensures
            final(self).selection() == (Some(port@), opt_view(vid_pid), opt_view(serial)),
            final(self).log() == old(self).log(),
    {
        self.selected_port = Some(port);
        self.selected_vid_pid = vid_pid;
        self.selected_serial = serial;
    }

    pub fn clear_device(&mut self)
        ensures
            final(self).selection() == (None::<Seq<char>>, None::<Seq<char>>, None::<Seq<char>>),
            final(self).log() == old(self).log(),
    {
        self.selected_port = None;
        self.selected_vid_pid = None;
        self.selected_serial = None;
    }

    pub fn selected_port(&self) -> (r: Option<String>)
        ensures
            opt_view(r) == self.selection().0,
    {
        copy_opt(&self.selected_port)
    }

    pub fn push_log(&mut self, user_message: &str, detail: &str)
        ensures
            final(self).log() == pushed_log(old(self).log(), (user_message@, detail@)),
            final(self).selection() == old(self).selection(),
    {
        push_log_entry(&mut self.logs, user_message, detail);
    }

    pub fn last_user_log(&self) -> (r: Option<String>)
        ensures
            opt_view(r) == (if self.log().len() == 0 {
                None
            } else {
                Some(self.log().last().0)
            }),
    {
        last_user_message(&self.logs)
    }

    pub fn copy_log(&self) -> (r: String)
        ensures
            r@ == log_text(self.log()),
    {
        log_to_text(&self.logs)
    }
}

impl Default for AppState {
    fn default() -> (r: Self)
        ensures
            r.selection() == (None::<Seq<char>>, None::<Seq<char>>, None::<Seq<char>>),
            r.log().len() == 0,
    {
        AppState::new()
    }
}

} // verus!
