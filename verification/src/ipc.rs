//! The messages exchanged with the daemon over its Unix socket.
use vstd::prelude::*;
use crate::config::{join_path, path_join, LcdAlign, MacroStep};
use crate::text::str_eq;

verus! {

/// A request to the daemon. The image transform of
/// `SetLcdImageTransform` is floating point: the application applies it to
/// the transform it keeps and hands the request on without it.
#[derive(Debug)]
pub enum Request {
    Status,
    Reload,
    SetColor { rgb: [u8; 3] },
    SetBinding { key: String, action: String },
    SetDeadzone { value: u8 },
    SetJoystickCenter { x: Option<u8>, y: Option<u8> },
    SetBank { bank: u8 },
    LoadProfile { name: String },
    SaveProfileAs { name: String },
    RenameProfile { name: String },
    DeleteProfile,
    SetLcdEnabled { enabled: bool },
    SetLcdPage { page: u8 },
    SetLcdLines { lines: [String; 4] },
    SetLcdAlign { align: [LcdAlign; 4] },
    SetLcdImage { path: String },
    SetLcdImageTransform,
    LcdRefresh,
    RecordToggle,
    RecordTarget { key: String },
    RecordEvent { key: String, down: bool },
}

/// The daemon's answer: its status after handling a request.
#[derive(Debug)]
pub struct Reply {
    pub ok: bool,
    pub message: String,
    pub connected: bool,
    pub x: u8,
    pub y: u8,
    pub center_x: u8,
    pub center_y: u8,
    pub pressed: Vec<String>,
    pub active_bank: u8,
    pub recording: bool,
    pub record_target: Option<String>,
    pub record_preview: Vec<MacroStep>,
    pub macro_targets: Vec<String>,
    pub lcd_ok: bool,
    pub lcd_enabled: bool,
    pub lcd_page: u8,
    pub profile_name: String,
    pub profiles: Vec<String>,
}

/// The joystick center assumed where a reply does not give one.
pub fn default_axis_center() -> (r: u8)
    ensures
        r == 127,
{
    127
}

/// The daemon's socket: `g13-nexus.sock` in the user's runtime directory
/// (`XDG_RUNTIME_DIR`), or in `/tmp` where none is set.
pub fn socket_path(runtime_dir: Option<String>) -> (r: String)
    ensures
        r@ == path_join(
            match runtime_dir {
                Some(d) => d@,
                None => "/tmp"@,
            },
            "g13-nexus.sock"@,
        ),
{
    match runtime_dir {
        Some(d) => join_path(d.as_str(), "g13-nexus.sock"),
        None => join_path("/tmp", "g13-nexus.sock"),
    }
}

/// The request of the command-line client for its first argument:
/// `reload` asks for a reload, anything else (or nothing) for the status.
pub fn command_request(arg: Option<String>) -> (r: Request)
    ensures
        match arg {
            Some(a) if a@ == "reload"@ => r is Reload,
            _ => r is Status,
        },
{
    match arg {
        Some(a) => if str_eq(a.as_str(), "reload") {
            Request::Reload
        } else {
            Request::Status
        },
        None => Request::Status,
    }
}

} // verus!
