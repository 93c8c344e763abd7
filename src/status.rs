//! What the window shows about a run, independent of how it is drawn.

use vstd::prelude::*;
use crate::error::{PackError, error_text};
use crate::plan::ProgressInfo;
use crate::run::ProcessProgress;
use crate::text::{decimal, owned, push_decimal};

verus! {

/// The stage the window is in.
#[derive(Debug, Clone, PartialEq, Eq)]
pub enum AppStatus {
    Ready,
    Processing,
    Error(String),
    Done,
}

/// The window's view of a run: its stage, the last progress reported, and whether
/// events are still awaited.
#[derive(Debug)]
pub struct StatusBoard {
    pub status: AppStatus,
    pub progress: Option<ProgressInfo>,
    pub listening: bool,
}

/// The text shown for progress `(name, current, total)`.
pub open spec fn progress_text(info: (Seq<char>, nat, nat)) -> Seq<char> {
    "Converting file "@ + decimal(info.1 + 1) + " of "@ + decimal(info.2) + ": "@ + info.0
}

impl StatusBoard {
    /// Ready to start, nothing reported yet.
    pub fn ready() -> (r: StatusBoard)
        ensures
            r.status == AppStatus::Ready,
            r.progress is None,
            !r.listening,
    {
        StatusBoard { status: AppStatus::Ready, progress: None, listening: false }
    }

    /// The resources could not be located: the window only shows why.
    pub fn setup_failed(e: &PackError) -> (r: StatusBoard)
        ensures
            r.status is Error,
            r.status->Error_0@ == "Failed to setup resources: "@ + error_text(*e),
            r.progress is None,
            !r.listening,
    {
        let mut text = owned("Failed to setup resources: ");
        text.append(e.message().as_str());
        StatusBoard { status: AppStatus::Error(text), progress: None, listening: false }
    }

    /// A run was started: events are awaited from now on.
    pub fn begin(&mut self)
        ensures
            final(self).status == AppStatus::Processing,
            final(self).progress is None,
            final(self).listening,
    {
        self.status = AppStatus::Processing;
        self.progress = None;
        self.listening = true;
    }

    /// Takes in one event of the run.
    pub fn receive(&mut self, event: ProcessProgress)
        ensures
            match event {
                ProcessProgress::Finished => {
                    &&& final(self).status == AppStatus::Done
                    &&& final(self).progress is None
                    &&& !final(self).listening
                },
                ProcessProgress::Error(e) => {
                    &&& final(self).status is Error
                    &&& final(self).status->Error_0@ == "Failed to process: "@ + error_text(e)
                    &&& final(self).progress is None
                    &&& !final(self).listening
                },
                ProcessProgress::Processing(info) => {
                    &&& final(self).status == old(self).status
                    &&& final(self).progress == Some(info)
                    &&& final(self).listening == old(self).listening
                },
            },
    {
        match event {
            ProcessProgress::Finished => {
                self.status = AppStatus::Done;
                self.progress = None;
                self.listening = false;
            },
            ProcessProgress::Error(e) => {
                let mut text = owned("Failed to process: ");
                text.append(e.message().as_str());
                self.status = AppStatus::Error(text);
                self.progress = None;
                self.listening = false;
            },
            ProcessProgress::Processing(info) => {
                self.progress = Some(info);
            },
        }
    }
}

/// The line shown for a progress report, counting files from one.
pub fn progress_label(info: &ProgressInfo) -> (r: String)
    requires
        info.current < info.total,
    ensures
        r@ == progress_text(info@),
{
    let mut r = owned("Converting file ");
    push_decimal(&mut r, (info.current + 1) as u64);
    r.append(" of ");
    push_decimal(&mut r, info.total as u64);
    r.append(": ");
    r.append(info.filename.as_str());
    r
}

} // verus!
