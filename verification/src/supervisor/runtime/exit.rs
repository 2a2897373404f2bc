//! How children exit.

use vstd::prelude::*;

use crate::supervisor::child::{BoxError, ChildResult};
use crate::supervisor::event::ExitStatusView;

verus! {

/// How a child task came to an end.
#[derive(Debug)]
pub enum ExitStatus {
    /// It returned cleanly.
    Completed,
    /// It returned an error.
    Failed(BoxError),
    /// It panicked.
    Panicked,
    /// It was aborted.
    Aborted,
}

impl ExitStatus {
    /// Every end but a clean one is a failure.
    pub open spec fn failure(self) -> bool {
        !(self is Completed)
    }

    /// Whether `view` shows the status.
    pub open spec fn shown_as(self, view: ExitStatusView) -> bool {
        match self {
            ExitStatus::Completed => view is Completed,
            ExitStatus::Failed(error) => view matches ExitStatusView::Failed(message) && message@
                == error.text(),
            ExitStatus::Panicked => view is Panicked,
            ExitStatus::Aborted => view is Aborted,
        }
    }

    /// The status of a child that returned `result`.
    pub fn from_child_result(result: ChildResult) -> (r: Self)
        ensures
            r == match result {
                Ok(()) => ExitStatus::Completed,
                Err(error) => ExitStatus::Failed(error),
            },
    {
        match result {
            Ok(()) => ExitStatus::Completed,
            Err(error) => ExitStatus::Failed(error),
        }
    }

    /// Whether the status counts as a failure.
    pub fn is_failure(&self) -> (r: bool)
        ensures
            r == self.failure(),
    {
        match self {
            ExitStatus::Completed => false,
            _ => true,
        }
    }

    /// The status as it is shown to the outside.
    pub fn view_status(&self) -> (r: ExitStatusView)
        ensures
            self.shown_as(r),
    {
        match self {
            ExitStatus::Completed => ExitStatusView::Completed,
            ExitStatus::Failed(error) => ExitStatusView::Failed(error.message()),
            ExitStatus::Panicked => ExitStatusView::Panicked,
            ExitStatus::Aborted => ExitStatusView::Aborted,
        }
    }
}

} // verus!
