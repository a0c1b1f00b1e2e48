use gesture_backup::coordinator::{
    deadline_after, kind_of, notifies, step, Action, ErrorKind, Event, Stage,
    CONFIRMATION_WINDOW_MS,
};
use gesture_backup::copy::CopyError;

const KINDS: [ErrorKind; 8] = [
    ErrorKind::Configuration,
    ErrorKind::GestureTimeout,
    ErrorKind::GestureMismatch,
    ErrorKind::SourceNotFound,
    ErrorKind::InsufficientSpace,
    ErrorKind::DestinationUnavailable,
    ErrorKind::IoFailure,
    ErrorKind::Channel,
];

#[test]
fn window_is_ten_seconds() {
    assert_eq!(CONFIRMATION_WINDOW_MS, 10_000);
    assert_eq!(deadline_after(1_000), 11_000);
    assert_eq!(deadline_after(u64::MAX - 10_000), u64::MAX);
    assert_eq!(deadline_after(u64::MAX - 9_999), u64::MAX);
    assert_eq!(deadline_after(u64::MAX), u64::MAX);
}

#[test]
fn rectangle_opens_the_confirmation_window() {
    assert_eq!(
        step(Stage::Primary, Event::RectangleComplete { now: 1_000 }),
        (Stage::Confirmation { deadline: 11_000 }, Action::AwaitConfirmation { deadline: 11_000 })
    );
}

#[test]
fn confirmation_before_the_deadline_starts_the_copy() {
    let stage = Stage::Confirmation { deadline: 11_000 };
    assert_eq!(step(stage, Event::Confirmed { now: 10_999 }), (Stage::Copying, Action::Copy));
}

#[test]
fn confirmation_at_the_deadline_is_too_late() {
    let stage = Stage::Confirmation { deadline: 11_000 };
    assert_eq!(
        step(stage, Event::Confirmed { now: 11_000 }),
        (Stage::Primary, Action::Restart { kind: ErrorKind::GestureTimeout, notify: true })
    );
}

#[test]
fn timeout_fires_once() {
    let stage = Stage::Confirmation { deadline: 11_000 };
    assert_eq!(step(stage, Event::Tick { now: 10_999 }), (stage, Action::Wait));
    let (after, action) = step(stage, Event::Tick { now: 11_000 });
    assert_eq!(after, Stage::Primary);
    assert_eq!(action, Action::Restart { kind: ErrorKind::GestureTimeout, notify: true });
    assert_eq!(step(after, Event::Tick { now: 11_001 }), (Stage::Primary, Action::Wait));
    assert_eq!(step(after, Event::Tick { now: 50_000 }), (Stage::Primary, Action::Wait));
}

#[test]
fn stale_confirmation_after_timeout_is_ignored() {
    let (after, _) = step(Stage::Confirmation { deadline: 11_000 }, Event::Tick { now: 12_000 });
    assert_eq!(step(after, Event::Confirmed { now: 12_001 }), (Stage::Primary, Action::Wait));
    assert_eq!(step(after, Event::Mismatch), (Stage::Primary, Action::Wait));
}

#[test]
fn mismatch_restarts_silently() {
    assert_eq!(
        step(Stage::Confirmation { deadline: 11_000 }, Event::Mismatch),
        (Stage::Primary, Action::Restart { kind: ErrorKind::GestureMismatch, notify: false })
    );
}

#[test]
fn second_rectangle_during_confirmation_is_ignored() {
    let stage = Stage::Confirmation { deadline: 11_000 };
    assert_eq!(step(stage, Event::RectangleComplete { now: 5_000 }), (stage, Action::Wait));
}

#[test]
fn disconnection_restarts_the_cycle() {
    for stage in [Stage::Primary, Stage::Confirmation { deadline: 11_000 }] {
        assert_eq!(
            step(stage, Event::Disconnected),
            (Stage::Primary, Action::Restart { kind: ErrorKind::Channel, notify: false })
        );
    }
    assert_eq!(step(Stage::Copying, Event::Disconnected), (Stage::Copying, Action::Wait));
}

#[test]
fn every_failure_restarts_at_the_primary_stage() {
    for stage in [Stage::Primary, Stage::Confirmation { deadline: 11_000 }, Stage::Copying] {
        for kind in KINDS {
            assert_eq!(
                step(stage, Event::Failed { kind }),
                (Stage::Primary, Action::Restart { kind, notify: notifies(kind) })
            );
        }
    }
}

#[test]
fn only_mismatch_and_channel_are_not_shown() {
    for kind in KINDS {
        let silent = kind == ErrorKind::GestureMismatch || kind == ErrorKind::Channel;
        assert_eq!(notifies(kind), !silent);
    }
}

#[test]
fn copy_ends_the_cycle() {
    assert_eq!(step(Stage::Copying, Event::Copied), (Stage::Finished, Action::Finish));
    assert_eq!(step(Stage::Copying, Event::Tick { now: 99_999 }), (Stage::Copying, Action::Wait));
}

#[test]
fn finished_cycle_does_nothing() {
    let events = [
        Event::RectangleComplete { now: 1 },
        Event::Confirmed { now: 1 },
        Event::Mismatch,
        Event::Tick { now: 1 },
        Event::Disconnected,
        Event::Failed { kind: ErrorKind::IoFailure },
        Event::Copied,
    ];
    for event in events {
        assert_eq!(step(Stage::Finished, event), (Stage::Finished, Action::Wait));
    }
}

#[test]
fn whole_cycle_runs_through() {
    let (stage, action) = step(Stage::Primary, Event::RectangleComplete { now: 0 });
    assert_eq!(action, Action::AwaitConfirmation { deadline: 10_000 });
    let (stage, action) = step(stage, Event::Tick { now: 4_000 });
    assert_eq!(action, Action::Wait);
    let (stage, action) = step(stage, Event::Confirmed { now: 4_500 });
    assert_eq!(action, Action::Copy);
    let (stage, action) = step(stage, Event::Copied);
    assert_eq!((stage, action), (Stage::Finished, Action::Finish));
}

#[test]
fn refused_copy_ends_the_cycle_with_its_kind() {
    assert_eq!(kind_of(CopyError::SourceNotFound), ErrorKind::SourceNotFound);
    assert_eq!(kind_of(CopyError::DestinationUnavailable), ErrorKind::DestinationUnavailable);
    assert_eq!(
        kind_of(CopyError::InsufficientSpace { required: 15, available: 14 }),
        ErrorKind::InsufficientSpace
    );
}
