//! The end of a conversion run: sending the results, reporting errors, removing temporary
//! files and closing the exchange, one step at a time.
use vstd::prelude::*;
use crate::dialogue::State;
use crate::jobs::ConversionRun;
use crate::text::joined;

verus! {

/// Where the end of a run stands.
#[derive(Clone, Copy, Debug, PartialEq, Eq, Structural)]
pub enum FinishStage {
    /// Nothing done yet.
    Begin,
    /// Converted files are being sent; `next` is the index of the next one.
    Sending { next: usize },
    /// The error report is due.
    Summary,
    /// Temporary files are due for removal.
    Cleanup,
    /// The exchange is due to be closed.
    Close,
    /// All is done.
    Finished,
}

/// What the caller does next.
#[derive(Debug)]
pub enum FinishAction {
    /// Remove the progress message; a failure is ignored.
    DeleteProgress,
    /// Send the converted file at `index` under its display name.
    SendDocument { index: usize },
    /// Replace the progress message with `text`.
    EditProgress { text: String },
    /// Send the error report `text`; a failure is only logged.
    SendSummary { text: String },
    /// Remove every path the run listed for cleanup.
    RemoveFiles,
    /// End with the error of the failed send, leaving the chat's state as it is.
    Fail,
    /// Move the chat to `next` and acknowledge the button press.
    Complete { next: State },
    /// Nothing more.
    Done,
}

/// The end of a run for `documents` converted files, with or without errors to report.
pub struct RunFinish {
    pub stage: FinishStage,
    pub documents: usize,
    pub has_errors: bool,
    pub send_failed: bool,
}

/// The note that replaces the progress message when no file was converted.
pub open spec fn nothing_converted_text() -> Seq<char> {
    "Не удалось конвертировать ни один файл."@
}

/// The report listing `errors`, one per line.
pub open spec fn summary_text(errors: Seq<Seq<char>>) -> Seq<char> {
    "Некоторые ошибки:\n"@ + joined(errors, "\n"@)
}

/// The stage after the results were delivered: the report where there are errors, the
/// cleanup otherwise.
pub open spec fn after_delivery(has_errors: bool) -> FinishStage {
    if has_errors {
        FinishStage::Summary
    } else {
        FinishStage::Cleanup
    }
}

impl RunFinish {
    /// `self` belongs to `run`, and a send in progress points at one of its files.
    pub open spec fn fits(&self, run: &ConversionRun) -> bool {
        &&& self.documents == run.converted.len()
        &&& self.has_errors == (run.errors.len() > 0)
        &&& self.stage matches FinishStage::Sending { next } ==> next < self.documents
        &&& self.stage == FinishStage::Summary ==> self.has_errors
    }

    /// The end of `run`, not begun yet.
    pub fn new(run: &ConversionRun) -> (res: Self)
        ensures
            res.stage == FinishStage::Begin,
            !res.send_failed,
            res.fits(run),
    {
        RunFinish {
            stage: FinishStage::Begin,
            documents: run.converted.len(),
            has_errors: run.errors.len() > 0,
            send_failed: false,
        }
    }

    /// The next step: remove the progress message and send the files in order, or replace
    /// the message with a note where nothing was converted; then the error report, where
    /// there are errors; then the cleanup; then either the failure of a send, or the move
    /// back to waiting for files.
    pub fn action(&self, run: &ConversionRun) -> (res: FinishAction)
        requires
            self.fits(run),
        ensures
            match self.stage {
                FinishStage::Begin => if self.documents > 0 {
                    res matches FinishAction::DeleteProgress
                } else {
                    res matches FinishAction::EditProgress { text } && text@ == nothing_converted_text()
                },
                FinishStage::Sending { next } => res matches FinishAction::SendDocument { index }
                    && index == next,
                FinishStage::Summary => res matches FinishAction::SendSummary { text } && text@
                    == summary_text(run.errors.deep_view()),
                FinishStage::Cleanup => res is RemoveFiles,
                FinishStage::Close => if self.send_failed {
                    res is Fail
                } else {
                    res matches FinishAction::Complete { next } && next == State::ReceiveFiles
                },
                FinishStage::Finished => res is Done,
            },
    {
        match self.stage {
            FinishStage::Begin => {
                match run.nothing_converted_note() {
                    None => FinishAction::DeleteProgress,
                    Some(text) => FinishAction::EditProgress { text },
                }
            },
            FinishStage::Sending { next } => FinishAction::SendDocument { index: next },
            FinishStage::Summary => {
                let text = match run.error_summary() {
                    Some(t) => t,
                    None => String::new(),
                };
                FinishAction::SendSummary { text }
            },
            FinishStage::Cleanup => FinishAction::RemoveFiles,
            FinishStage::Close => {
                if self.send_failed {
                    FinishAction::Fail
                } else {
                    FinishAction::Complete { next: State::ReceiveFiles }
                }
            },
            FinishStage::Finished => FinishAction::Done,
        }
    }

    /// Moves on once the current step was carried out; `ok` tells whether it succeeded.
    /// A failed send stops the sending and is remembered; the progress message's removal
    /// and the error report may fail without consequence.
    pub fn advance(&mut self, ok: bool)
        requires
            old(self).stage matches FinishStage::Sending { next } ==> next < old(self).documents,
        ensures
            final(self).documents == old(self).documents,
            final(self).has_errors == old(self).has_errors,
            final(self).stage matches FinishStage::Sending { next } ==> next < final(self).documents,
            final(self).stage == FinishStage::Summary ==> final(self).has_errors,
            match old(self).stage {
                FinishStage::Begin => if old(self).documents > 0 {
                    final(self).stage == (FinishStage::Sending { next: 0 }) && final(self).send_failed
                        == old(self).send_failed
                } else {
                    final(self).stage == after_delivery(old(self).has_errors) && final(self).send_failed
                        == !ok
                },
                FinishStage::Sending { next } => if !ok {
                    final(self).stage == after_delivery(old(self).has_errors) && final(self).send_failed
                } else if next + 1 < old(self).documents {
                    final(self).stage == (FinishStage::Sending { next: (next + 1) as usize })
                        && final(self).send_failed == old(self).send_failed
                } else {
                    final(self).stage == after_delivery(old(self).has_errors) && final(self).send_failed
                        == old(self).send_failed
                },
                FinishStage::Summary => final(self).stage == FinishStage::Cleanup && final(self).send_failed
                    == old(self).send_failed,
                FinishStage::Cleanup => final(self).stage == FinishStage::Close && final(self).send_failed
                    == old(self).send_failed,
                FinishStage::Close => final(self).stage == FinishStage::Finished && final(self).send_failed
                    == old(self).send_failed,
                FinishStage::Finished => final(self).stage == FinishStage::Finished
                    && final(self).send_failed == old(self).send_failed,
            },
    {
        let next_stage = if self.has_errors {
            FinishStage::Summary
        } else {
            FinishStage::Cleanup
        };
        match self.stage {
            FinishStage::Begin => {
                if self.documents > 0 {
                    self.stage = FinishStage::Sending { next: 0 };
                } else {
                    self.send_failed = !ok;
                    self.stage = next_stage;
                }
            },
            FinishStage::Sending { next } => {
                if !ok {
                    self.send_failed = true;
                    self.stage = next_stage;
                } else if next + 1 < self.documents {
                    self.stage = FinishStage::Sending { next: next + 1 };
                } else {
                    self.stage = next_stage;
                }
            },
            FinishStage::Summary => {
                self.stage = FinishStage::Cleanup;
            },
            FinishStage::Cleanup => {
                self.stage = FinishStage::Close;
            },
            FinishStage::Close => {
                self.stage = FinishStage::Finished;
            },
            FinishStage::Finished => {},
        }
    }
}

} // verus!
