//! The log handler of one build step: it collects the step's log lines while
//! the step runs and, when the step stops, turns them into the final report.

use vstd::prelude::*;
use crate::action::{Action, BuildStepId, HandlerResult, Meaning, ResultFields};
use crate::replay::{is_report, prefixed, replay_line, retained, skip_notice, truncation};
use crate::style::{renders, DIM};
use crate::text::{text_of, texts};

verus! {

/// What the handler wants done after an event. The handler itself performs
/// no output: the caller pushes `window_line` to the attached window, prints
/// `output` line by line, and then obeys `result`.
pub struct Outcome {
    /// Whether the handler stays or is retired.
    pub result: HandlerResult,
    /// The line to show in the attached log window, if there is one to show.
    pub window_line: Option<String>,
    /// The styled lines to print, in order.
    pub output: Vec<String>,
}

impl Outcome {
    /// The line for the window, as characters.
    pub open spec fn forwarded(&self) -> Option<Seq<char>> {
        text_of(self.window_line)
    }

    /// The lines to print, as characters.
    pub open spec fn printed(&self) -> Seq<Seq<char>> {
        texts(self.output@)
    }
}

/// Log history of one build step, with an optional handle on the window
/// that mirrors its most recent lines. The handle is whatever the caller uses
/// to reach the window; the handler only keeps it and never looks inside.
pub struct LogHandler<W> {
    id: BuildStepId,
    logs: Vec<String>,
    logs_window: Option<W>,
}

impl<W> Default for LogHandler<W> {
    /// A handler for the default step, with no history and no window.
    fn default() -> (handler: Self)
        ensures
            handler.step() == BuildStepId(0),
            handler.history() == Seq::<Seq<char>>::empty(),
            handler.attached() is None,
    {
        LogHandler::new(BuildStepId::default())
    }
}

impl<W> LogHandler<W> {
    /// The step this handler listens to.
    pub closed spec fn step(&self) -> BuildStepId {
        self.id
    }

    /// The lines collected so far, oldest first.
    pub closed spec fn history(&self) -> Seq<Seq<char>> {
        texts(self.logs@)
    }

    /// The handle of the attached window, if one is attached.
    pub closed spec fn attached(&self) -> Option<W> {
        self.logs_window
    }

    /// A handler for step `id`, with no history and no window.
    pub fn new(id: BuildStepId) -> (handler: Self)
        ensures
            handler.step() == id,
            handler.history() == Seq::<Seq<char>>::empty(),
            handler.attached() is None,
    {
        let handler = Self { id, logs: Vec::new(), logs_window: None };
        assert(handler.history() =~= Seq::<Seq<char>>::empty());
        handler
    }

    /// Attaches a window: from now on every appended line is also handed on
    /// to it.
    pub fn with_logs_window(self, logs_window: W) -> (handler: Self)
        ensures
            handler.step() == self.step(),
            handler.history() == self.history(),
            handler.attached() == Some(logs_window),
    {
        let mut handler = self;
        handler.logs_window = Some(logs_window);
        handler
    }

    /// The step this handler listens to.
    pub fn id(&self) -> (id: BuildStepId)
        ensures
            id == self.step(),
    {
        self.id
    }

    /// The lines collected so far, oldest first.
    pub fn logs(&self) -> (logs: &Vec<String>)
        ensures
            texts(logs@) == self.history(),
    {
        &self.logs
    }

    /// The handle of the attached window, if one is attached.
    pub fn logs_window(&self) -> (window: Option<&W>)
        ensures
            match window {
                Some(handle) => self.attached() == Some(*handle),
                None => self.attached() is None,
            },
    {
        self.logs_window.as_ref()
    }

    /// Appends `msg` to the history. Returns the line to push to the window:
    /// a copy of `msg` if a window is attached, nothing otherwise.
    pub fn append_line(&mut self, msg: &String) -> (forward: Option<String>)
        ensures
            final(self).step() == old(self).step(),
            final(self).attached() == old(self).attached(),
            final(self).history() == old(self).history().push(msg@),
            text_of(forward) == if old(self).attached() is Some {
                Some(msg@)
            } else {
                None
            },
    {
        self.logs.push(msg.clone());
        assert(self.history() =~= old(self).history().push(msg@));
        if self.logs_window.is_some() {
            Some(msg.clone())
        } else {
            None
        }
    }

    /// Ends the step's log: drops the oldest lines beyond `log_history_len`,
    /// and returns the report to print: the notice of how many lines were
    /// dropped, if any were, followed by the retained lines as a nested block.
    pub fn finalize(&mut self, log_history_len: Option<usize>) -> (output: Vec<String>)
        ensures
            final(self).step() == old(self).step(),
            final(self).attached() == old(self).attached(),
            final(self).history() == retained(old(self).history(), log_history_len),
            is_report(old(self).history(), log_history_len, texts(output@)),
    {
        let truncated = truncation(self.logs.len(), log_history_len);
        let mut output: Vec<String> = Vec::new();

        if truncated > 0 {
            let kept = self.logs.split_off(truncated);
            self.logs = kept;
            output.push(skip_notice(truncated));
        }
        assert(self.history() =~= retained(old(self).history(), log_history_len));

        let ghost lead: int = if truncated > 0 {
            1
        } else {
            0
        };
        let ghost head = texts(output@);
        let logs_len = self.logs.len();
        let mut i: usize = 0;
        while i < logs_len
            invariant
                i <= logs_len,
                logs_len == self.logs@.len(),
                output@.len() == lead + i,
                lead == 0 || lead == 1,
                head.len() == lead,
                lead == 1 ==> texts(output@)[0] == head[0],
                forall|k: int|
                    0 <= k < i ==> renders(
                        DIM,
                        prefixed(k, logs_len as int, #[trigger] self.logs@[k]@),
                        output@[lead + k]@,
                    ),
            decreases logs_len - i,
        {
            let line = replay_line(i, logs_len, self.logs[i].as_str());
            output.push(line);
            i += 1;
        }
        output
    }

    /// Handles one event of the stream. A log line of this handler's step is
    /// appended to the history, and handed on if a window is attached. The
    /// stop of this handler's step ends the log: the outcome carries the
    /// final report and asks for the handler to be closed. Every other event
    /// is ignored.
    pub fn on_action(&mut self, log_history_len: Option<usize>, action: &Action) -> (outcome:
        Outcome)
        ensures
            final(self).step() == old(self).step(),
            final(self).attached() == old(self).attached(),
            match action.meaning_for(old(self).step()) {
                Meaning::Line(text) => {
                    &&& final(self).history() == old(self).history().push(text)
                    &&& outcome.result == HandlerResult::Continue
                    &&& outcome.forwarded() == if old(self).attached() is Some {
                        Some(text)
                    } else {
                        None
                    }
                    &&& outcome.printed().len() == 0
                },
                Meaning::Stopped => {
                    &&& final(self).history() == retained(old(self).history(), log_history_len)
                    &&& outcome.result == HandlerResult::Close
                    &&& outcome.forwarded() is None
                    &&& is_report(old(self).history(), log_history_len, outcome.printed())
                },
                Meaning::Other => {
                    &&& final(self).history() == old(self).history()
                    &&& outcome.result == HandlerResult::Continue
                    &&& outcome.forwarded() is None
                    &&& outcome.printed().len() == 0
                },
            },
    {
        match action {
            Action::Result { id, fields } => {
                if *id == self.id {
                    match fields {
                        ResultFields::BuildLogLine(msg) => {
                            let window_line = self.append_line(msg);
                            return Outcome {
                                result: HandlerResult::Continue,
                                window_line,
                                output: Vec::new(),
                            };
                        },
                        _ => {},
                    }
                }
            },
            Action::Stop { id } => {
                if *id == self.id {
                    let output = self.finalize(log_history_len);
                    return Outcome { result: HandlerResult::Close, window_line: None, output };
                }
            },
            _ => {},
        }

        Outcome { result: HandlerResult::Continue, window_line: None, output: Vec::new() }
    }
}

} // verus!
