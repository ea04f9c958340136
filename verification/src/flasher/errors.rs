//! Errors of the flasher, with the short text the window shows and the
//! detail that goes to the copyable log.

use vstd::prelude::*;

use crate::text::{push_str, string_of};

verus! {

#[derive(Debug, Clone, PartialEq, Eq)]
pub enum AppError {
    NoDevice,
    FlashAlreadyRunning,
    PortBusy(String),
    HandshakeFailed,
    Protocol(String),
    Disconnected,
    Asset(String),
    Io(String),
}

pub type AppResult<T> = Result<T, AppError>;

pub ghost enum ErrorView {
    NoDevice,
    FlashAlreadyRunning,
    PortBusy(Seq<char>),
    HandshakeFailed,
    Protocol(Seq<char>),
    Disconnected,
    Asset(Seq<char>),
    Io(Seq<char>),
}

impl View for AppError {
    type V = ErrorView;

    open spec fn view(&self) -> ErrorView {
        match self {
            AppError::NoDevice => ErrorView::NoDevice,
            AppError::FlashAlreadyRunning => ErrorView::FlashAlreadyRunning,
            AppError::PortBusy(p) => ErrorView::PortBusy(p@),
            AppError::HandshakeFailed => ErrorView::HandshakeFailed,
            AppError::Protocol(d) => ErrorView::Protocol(d@),
            AppError::Disconnected => ErrorView::Disconnected,
            AppError::Asset(d) => ErrorView::Asset(d@),
            AppError::Io(d) => ErrorView::Io(d@),
        }
    }
}

/// What the window shows for an error, and the detail for the log.
#[derive(Debug, Clone, PartialEq, Eq)]
pub struct UiError {
    pub message: String,
    pub detail: String,
}

/// The short user-facing text of an error.
pub open spec fn user_message_spec(e: AppError) -> Seq<char> {
    match e {
        AppError::NoDevice => "未连接"@,
        AppError::FlashAlreadyRunning => "正在写入"@,
        AppError::PortBusy(port) => port@ + " 被占用"@,
        AppError::HandshakeFailed => "设备无响应"@,
        AppError::Protocol(_) => "写入失败"@,
        AppError::Disconnected => "设备已断开"@,
        AppError::Asset(_) => "写入失败"@,
        AppError::Io(_) => "写入失败"@,
    }
}

/// The log detail of an error.
pub open spec fn detail_spec(e: AppError) -> Seq<char> {
    match e {
        AppError::NoDevice => "No target serial device found"@,
        AppError::FlashAlreadyRunning => "Flash job is already running"@,
        AppError::PortBusy(port) => "Failed to open serial port "@ + port@,
        AppError::HandshakeFailed => "Handshake did not return expected MSNCN bytes"@,
        AppError::Protocol(detail) => detail@,
        AppError::Disconnected => "Serial read/write failed during flashing"@,
        AppError::Asset(detail) => detail@,
        AppError::Io(detail) => detail@,
    }
}

impl AppError {
    pub fn user_message(&self) -> (r: String)
        ensures
            r@ == user_message_spec(*self),
    {
        match self {
            AppError::NoDevice => string_of("未连接"),
            AppError::FlashAlreadyRunning => string_of("正在写入"),
            AppError::PortBusy(port) => {
                let mut s = string_of(port.as_str());
                push_str(&mut s, " 被占用");
                s
            },
            AppError::HandshakeFailed => string_of("设备无响应"),
            AppError::Protocol(_) => string_of("写入失败"),
            AppError::Disconnected => string_of("设备已断开"),
            AppError::Asset(_) => string_of("写入失败"),
            AppError::Io(_) => string_of("写入失败"),
        }
    }

    /// The text of the error, as shown to the user.
    pub fn to_string(&self) -> (r: String)
        ensures
            r@ == user_message_spec(*self),
    {
        self.user_message()
    }

    pub fn detail(&self) -> (r: String)
        ensures
            r@ == detail_spec(*self),
    {
        match self {
            AppError::NoDevice => string_of("No target serial device found"),
            AppError::FlashAlreadyRunning => string_of("Flash job is already running"),
            AppError::PortBusy(port) => {
                let mut s = string_of("Failed to open serial port ");
                push_str(&mut s, port.as_str());
                s
            },
            AppError::HandshakeFailed => string_of("Handshake did not return expected MSNCN bytes"),
            AppError::Protocol(detail) => string_of(detail.as_str()),
            AppError::Disconnected => string_of("Serial read/write failed during flashing"),
            AppError::Asset(detail) => string_of(detail.as_str()),
            AppError::Io(detail) => string_of(detail.as_str()),
        }
    }

    pub fn to_ui_error(&self) -> (r: UiError)
        ensures
            r.message@ == user_message_spec(*self),
            r.detail@ == detail_spec(*self),
    {
        UiError { message: self.user_message(), detail: self.detail() }
    }
}

} // verus!
