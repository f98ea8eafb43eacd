//! The events that a step's log handler receives, and what it answers.

use vstd::prelude::*;

verus! {

/// Opaque token that identifies one build step.
#[derive(Clone, Copy, PartialEq, Eq, Structural, Debug, Hash)]
pub struct BuildStepId(pub u64);

impl Default for BuildStepId {
    fn default() -> (id: Self)
        ensures
            id == BuildStepId(0),
    {
        BuildStepId(0)
    }
}

/// Payload of a result event.
#[derive(Clone, Debug)]
pub enum ResultFields {
    /// One line of the step's build log.
    BuildLogLine(String),
    /// The step entered the named phase.
    SetPhase(String),
}

/// One event of the stream, tagged with the step it belongs to.
#[derive(Clone, Debug)]
pub enum Action {
    /// The step began.
    Start { id: BuildStepId },
    /// The step reported something while running.
    Result { id: BuildStepId, fields: ResultFields },
    /// The step finished.
    Stop { id: BuildStepId },
}

/// What a handler asks of the dispatcher after an event.
#[derive(Clone, Copy, PartialEq, Eq, Structural, Debug)]
pub enum HandlerResult {
    /// Keep the handler and go on delivering events to it.
    Continue,
    /// Retire the handler: it accepts no further events.
    Close,
}

/// What an event means to the handler of step `id`.
pub enum Meaning {
    /// The step logged the given line.
    Line(Seq<char>),
    /// The step stopped.
    Stopped,
    /// The event is about another step, or of a kind the handler ignores.
    Other,
}

impl Action {
    /// Reads the event from the point of view of the handler of step `id`.
    pub open spec fn meaning_for(&self, id: BuildStepId) -> Meaning {
        match *self {
            Action::Result { id: step, fields: ResultFields::BuildLogLine(msg) } if step == id => {
                Meaning::Line(msg@)
            },
            Action::Stop { id: step } if step == id => Meaning::Stopped,
            _ => Meaning::Other,
        }
    }
}

} // verus!
