//! The cycle that leads from the rectangle gesture over the confirmation
//! stroke to the copy, as a function from stage and event to the next stage
//! and the action to perform.
//!
//! Times are milliseconds on any clock that does not run backwards.
use vstd::prelude::*;
use crate::copy::CopyError;

verus! {

/// How long after the rectangle the confirmation stroke may come.
pub const CONFIRMATION_WINDOW_MS: u64 = 10_000;

/// The errors that end a cycle.
#[derive(Clone, Copy, Debug, PartialEq, Eq, Structural)]
pub enum ErrorKind {
    /// The configuration is missing or malformed.
    Configuration,
    /// No confirmation stroke came before the deadline.
    GestureTimeout,
    /// A stroke came in place of the confirmation stroke.
    GestureMismatch,
    /// The source directory does not exist.
    SourceNotFound,
    /// The destination has less free space than the copy needs.
    InsufficientSpace,
    /// No destination volume was found.
    DestinationUnavailable,
    /// Reading or writing failed during the copy.
    IoFailure,
    /// A recognizer stopped without reporting.
    Channel,
}

/// Where a cycle stands.
#[derive(Clone, Copy, Debug, PartialEq, Eq, Structural)]
pub enum Stage {
    /// The primary recognizer runs and no rectangle has been drawn.
    Primary,
    /// A rectangle has been drawn; the confirmation recognizer runs until
    /// `deadline`.
    Confirmation { deadline: u64 },
    /// The gesture is confirmed; volumes are selected and the copy runs.
    Copying,
    /// The copy is done.
    Finished,
}

/// What happened outside.
#[derive(Clone, Copy, Debug, PartialEq, Eq, Structural)]
pub enum Event {
    /// The primary recognizer reported a complete rectangle at `now`.
    RectangleComplete { now: u64 },
    /// The confirmation recognizer reported a confirmation stroke at `now`.
    Confirmed { now: u64 },
    /// The confirmation recognizer reported another stroke.
    Mismatch,
    /// Time has passed: it is `now`.
    Tick { now: u64 },
    /// The running recognizer stopped without reporting.
    Disconnected,
    /// The configuration, the volume selection or the copy failed.
    Failed { kind: ErrorKind },
    /// The copy succeeded.
    Copied,
}

/// What to do next.
#[derive(Clone, Copy, Debug, PartialEq, Eq, Structural)]
pub enum Action {
    /// Nothing; go on waiting.
    Wait,
    /// Cancel the primary recognizer and start the confirmation recognizer,
    /// which has until `deadline`.
    AwaitConfirmation { deadline: u64 },
    /// Cancel the confirmation recognizer, select the volumes and copy.
    Copy,
    /// Cancel what is running, log the error, notify the user if `notify`
    /// says so, and start the primary recognizer again.
    Restart { kind: ErrorKind, notify: bool },
    /// Report the success.
    Finish,
}

/// Whether the user is notified of an error of this kind. Every error is
/// logged; a mismatched confirmation stroke and a stopped recognizer are not
/// shown to the user.
pub open spec fn spec_notifies(kind: ErrorKind) -> bool {
    kind != ErrorKind::GestureMismatch && kind != ErrorKind::Channel
}

/// The kind of error that ends the cycle when a copy is refused.
pub open spec fn spec_kind_of(error: CopyError) -> ErrorKind {
    match error {
        CopyError::SourceNotFound => ErrorKind::SourceNotFound,
        CopyError::DestinationUnavailable => ErrorKind::DestinationUnavailable,
        CopyError::InsufficientSpace { .. } => ErrorKind::InsufficientSpace,
    }
}

/// The end of the confirmation window that opens at `now`: ten seconds later,
/// or the last instant of the clock if that comes first.
pub open spec fn spec_deadline(now: u64) -> u64 {
    if now + CONFIRMATION_WINDOW_MS > u64::MAX {
        u64::MAX
    } else {
        (now + CONFIRMATION_WINDOW_MS) as u64
    }
}

/// The restart that an error of this kind asks for.
pub open spec fn restart(kind: ErrorKind) -> (Stage, Action) {
    (Stage::Primary, Action::Restart { kind, notify: spec_notifies(kind) })
}

/// The stage after an event, and the action that the event asks for.
///
/// A rectangle opens the confirmation window. A confirmation stroke before
/// the deadline starts the copy; the deadline, once reached, ends the cycle
/// with a timeout, as do a mismatched stroke, a stopped recognizer and any
/// failure. An event that the stage does not wait for changes nothing.
pub open spec fn transition(stage: Stage, event: Event) -> (Stage, Action) {
    match stage {
        Stage::Primary => match event {
            Event::RectangleComplete { now } => (
                Stage::Confirmation { deadline: spec_deadline(now) },
                Action::AwaitConfirmation { deadline: spec_deadline(now) },
            ),
            Event::Disconnected => restart(ErrorKind::Channel),
            Event::Failed { kind } => restart(kind),
            _ => (stage, Action::Wait),
        },
        Stage::Confirmation { deadline } => match event {
            Event::Confirmed { now } => if now < deadline {
                (Stage::Copying, Action::Copy)
            } else {
                restart(ErrorKind::GestureTimeout)
            },
            Event::Tick { now } => if now < deadline {
                (stage, Action::Wait)
            } else {
                restart(ErrorKind::GestureTimeout)
            },
            Event::Mismatch => restart(ErrorKind::GestureMismatch),
            Event::Disconnected => restart(ErrorKind::Channel),
            Event::Failed { kind } => restart(kind),
            _ => (stage, Action::Wait),
        },
        Stage::Copying => match event {
            Event::Copied => (Stage::Finished, Action::Finish),
            Event::Failed { kind } => restart(kind),
            _ => (stage, Action::Wait),
        },
        Stage::Finished => (stage, Action::Wait),
    }
}

/// The passing of time ends a cycle exactly when the confirmation recognizer
/// runs and its deadline has been reached. The cycle is then back at the
/// primary stage, where no later instant ends it again.
pub proof fn lemma_timeout_fires_once(stage: Stage, now: u64, later: u64)
    ensures
        transition(stage, Event::Tick { now }).1 == (Action::Restart {
            kind: ErrorKind::GestureTimeout,
            notify: true,
        }) <==> (stage matches Stage::Confirmation { deadline } && now >= deadline),
        transition(stage, Event::Tick { now }).1 != Action::Wait ==> {
            &&& transition(stage, Event::Tick { now }).0 == Stage::Primary
            &&& transition(Stage::Primary, Event::Tick { now: later }) == (
                Stage::Primary,
                Action::Wait,
            )
        },
{
}

/// Every error leads back to the primary stage, whatever the stage it came
/// in, unless the cycle is finished.
pub proof fn lemma_failure_restarts(stage: Stage, kind: ErrorKind)
    requires
        stage != Stage::Finished,
    ensures
        transition(stage, Event::Failed { kind }) == (
            Stage::Primary,
            Action::Restart { kind, notify: spec_notifies(kind) },
        ),
{
}

/// The kind of error that ends the cycle when a copy is refused.
pub fn kind_of(error: CopyError) -> (kind: ErrorKind)
    ensures
        kind == spec_kind_of(error),
{
    match error {
        CopyError::SourceNotFound => ErrorKind::SourceNotFound,
        CopyError::DestinationUnavailable => ErrorKind::DestinationUnavailable,
        CopyError::InsufficientSpace { .. } => ErrorKind::InsufficientSpace,
    }
}

/// Whether the user is notified of an error of this kind.
pub fn notifies(kind: ErrorKind) -> (notify: bool)
    ensures
        notify == spec_notifies(kind),
{
    match kind {
        ErrorKind::GestureMismatch => false,
        ErrorKind::Channel => false,
        _ => true,
    }
}

/// The end of the confirmation window that opens at `now`.
pub fn deadline_after(now: u64) -> (deadline: u64)
    ensures
        deadline == spec_deadline(now),
{
    if now > u64::MAX - CONFIRMATION_WINDOW_MS {
        u64::MAX
    } else {
        now + CONFIRMATION_WINDOW_MS
    }
}

/// The stage after an event, and the action to perform.
pub fn step(stage: Stage, event: Event) -> (next: (Stage, Action))
    ensures
        next == transition(stage, event),
{
    match stage {
        Stage::Primary => match event {
            Event::RectangleComplete { now } => {
                let deadline: u64 = deadline_after(now);
                (Stage::Confirmation { deadline }, Action::AwaitConfirmation { deadline })
            },
            Event::Disconnected => fail(ErrorKind::Channel),
            Event::Failed { kind } => fail(kind),
            _ => (stage, Action::Wait),
        },
        Stage::Confirmation { deadline } => match event {
            Event::Confirmed { now } => if now < deadline {
                (Stage::Copying, Action::Copy)
            } else {
                fail(ErrorKind::GestureTimeout)
            },
            Event::Tick { now } => if now < deadline {
                (stage, Action::Wait)
            } else {
                fail(ErrorKind::GestureTimeout)
            },
            Event::Mismatch => fail(ErrorKind::GestureMismatch),
            Event::Disconnected => fail(ErrorKind::Channel),
            Event::Failed { kind } => fail(kind),
            _ => (stage, Action::Wait),
        },
        Stage::Copying => match event {
            Event::Copied => (Stage::Finished, Action::Finish),
            Event::Failed { kind } => fail(kind),
            _ => (stage, Action::Wait),
        },
        Stage::Finished => (stage, Action::Wait),
    }
}

/// The restart that an error of this kind asks for.
fn fail(kind: ErrorKind) -> (next: (Stage, Action))
    ensures
        next == restart(kind),
{
    (Stage::Primary, Action::Restart { kind, notify: notifies(kind) })
}

} // verus!
