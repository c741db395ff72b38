//! What a capture request asks for, and how a capture can fail.

use vstd::prelude::*;

verus! {

/// How the screen image is obtained.
#[derive(Clone, Copy, Debug, PartialEq, Eq, Structural)]
pub enum CaptureMode {
    /// Full screen, then selection in the editor.
    Graphical,
    /// Full screen, no editor.
    Fullscreen,
    /// One screen.
    Screen,
}

/// A set of export tasks, one bit each.
#[derive(Clone, Copy, Debug, PartialEq, Eq, Structural)]
pub struct ExportTask {
    pub bits: u32,
}

pub const TASK_COPY: u32 = 1;

pub const TASK_SAVE: u32 = 2;

pub const TASK_PIN: u32 = 4;

pub const TASK_UPLOAD: u32 = 8;

impl ExportTask {
    /// The empty set.
    pub fn none() -> (t: ExportTask)
        ensures
            t.bits == 0,
    {
        ExportTask { bits: 0 }
    }

    /// The set holding exactly the tasks whose bits are given.
    pub fn from_bits(bits: u32) -> (t: ExportTask)
        ensures
            t.bits == bits,
    {
        ExportTask { bits }
    }

    /// Every task of `other` is in `self`.
    pub fn contains(&self, other: ExportTask) -> (r: bool)
        ensures
            r == (self.bits & other.bits == other.bits),
    {
        self.bits & other.bits == other.bits
    }

    /// The tasks of either set.
    pub fn union(&self, other: ExportTask) -> (t: ExportTask)
        ensures
            t.bits == self.bits | other.bits,
    {
        ExportTask { bits: self.bits | other.bits }
    }

    pub fn is_empty(&self) -> (r: bool)
        ensures
            r == (self.bits == 0),
    {
        self.bits == 0
    }
}

/// One request for a capture.
#[derive(Debug)]
pub struct CaptureRequest {
    pub mode: CaptureMode,
    pub delay_ms: u64,
    pub tasks: ExportTask,
    pub save_path: Option<String>,
}

impl Default for CaptureRequest {
    /// An immediate graphical capture with no export tasks and no path.
    fn default() -> (r: CaptureRequest)
        ensures
            r.mode == CaptureMode::Graphical,
            r.delay_ms == 0,
            r.tasks.bits == 0,
            r.save_path is None,
    {
        CaptureRequest { mode: CaptureMode::Graphical, delay_ms: 0, tasks: ExportTask::none(), save_path: None }
    }
}

/// Why no screen image could be had.
#[derive(Debug)]
pub enum CaptureError {
    /// The desktop portal refused or failed the request.
    Portal(String),
    /// The image could not be read.
    Io(String),
    /// The request cannot be served here.
    Unsupported(String),
}

} // verus!
