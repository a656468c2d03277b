//! Errors that the shell's commands report, and the work area of a monitor.
use vstd::prelude::*;

verus! {

/// Errors of the shell's commands.
#[derive(Debug, Clone)]
pub enum AppError {
    /// The lock around the shared state was poisoned.
    StatePoisoned,
    /// The window system reported an error; the text describes it.
    Tauri(String),
    /// A service URL could not be parsed; the text says why.
    InvalidUrl(String),
    /// Fetching a resource over HTTP failed; the text says why.
    Http(String),
}

impl AppError {
    /// The text by which the error presents itself.
    pub open spec fn text(&self) -> Seq<char> {
        match self {
            AppError::StatePoisoned => "State lock poisoned"@,
            AppError::Tauri(m) => "Tauri error: "@ + m@,
            AppError::InvalidUrl(m) => "Invalid URL: "@ + m@,
            AppError::Http(m) => "HTTP error: "@ + m@,
        }
    }

    /// The text by which the error presents itself.
    pub fn message(&self) -> (r: String)
        ensures
            r@ == self.text(),
    {
        match self {
            AppError::StatePoisoned => "State lock poisoned".to_owned(),
            AppError::Tauri(m) => {
                let mut s = "Tauri error: ".to_owned();
                s.append(m.as_str());
                s
            },
            AppError::InvalidUrl(m) => {
                let mut s = "Invalid URL: ".to_owned();
                s.append(m.as_str());
                s
            },
            AppError::Http(m) => {
                let mut s = "HTTP error: ".to_owned();
                s.append(m.as_str());
                s
            },
        }
    }
}

/// The part of a monitor that windows may cover (the screen without task bar or dock), in
/// physical pixels.
#[derive(Debug, Clone, Copy)]
pub struct WorkArea {
    pub x: i32,
    pub y: i32,
    pub width: u32,
    pub height: u32,
}

impl WorkArea {
    /// The work area bounded by the given edges. A width or height whose edges are reversed
    /// wraps around as an unsigned number.
    pub fn from_edges(left: i32, top: i32, right: i32, bottom: i32) -> (r: WorkArea)
        requires
            i32::MIN <= right - left <= i32::MAX,
            i32::MIN <= bottom - top <= i32::MAX,
        ensures
            r.x == left,
            r.y == top,
            r.width == (right - left) as u32,
            r.height == (bottom - top) as u32,
    {
        let w: i32 = right - left;
        let h: i32 = bottom - top;
        WorkArea { x: left, y: top, width: w as u32, height: h as u32 }
    }
}

} // verus!
