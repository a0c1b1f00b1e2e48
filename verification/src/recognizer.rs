//! The recognizers that turn pointer samples into gestures: the primary one,
//! which follows a rectangle drawn along the screen edges segment by segment,
//! and the confirmation one, which waits for a single straight stroke.
use vstd::prelude::*;
use crate::stroke::{
    classify, horizontal_check, horizontal_check2, is_clockwise, is_correct, next_side,
    vertical_check, on_edge, spec_classify, spec_horizontal_check2, spec_is_clockwise,
    spec_is_correct, spec_next_side, Axis,
};

verus! {

/// One press-to-release movement of the pointer, with the axis it was
/// classified by when the button was released.
#[derive(Clone, Copy, Debug, PartialEq, Eq)]
pub struct Stroke {
    pub start: (i32, i32),
    pub end: (i32, i32),
    pub axis: Axis,
}

/// What a pointer sample means for the rectangle gesture.
#[derive(Clone, Copy, Debug, PartialEq, Eq, Structural)]
pub enum GestureResult {
    /// Nothing to report yet: no stroke ended, or one was accepted as a
    /// segment and the rectangle is still open.
    Pending,
    /// The fourth segment was accepted.
    RectangleComplete,
    /// A stroke ended and was rejected.
    Invalid,
}

/// What a pointer sample means for the confirmation gesture.
#[derive(Clone, Copy, Debug, PartialEq, Eq, Structural)]
pub enum Confirmation {
    /// No stroke ended.
    Pending,
    /// A confirmation stroke ended.
    Confirmed,
    /// A stroke ended that is no confirmation stroke.
    Mismatch,
}

/// Where a primary recognizer stands.
#[derive(Clone, Copy, Debug, PartialEq, Eq, Structural)]
pub enum Phase {
    /// No stroke is being drawn, no segment is accepted and no rectangle has
    /// been completed.
    Idle,
    /// The button is down and a stroke is being drawn.
    Drawing,
    /// The button is up and the attempt holds this many segments, one to
    /// three.
    SequenceBuilding { segments: usize },
    /// The button is up, a rectangle has been completed and no segment has
    /// been accepted since.
    Armed,
}

/// The rectangle being drawn: its accepted segments in order, and the
/// orientation that the first of them fixed.
pub struct Attempt {
    pub segments: Seq<Stroke>,
    pub clockwise: bool,
}

/// The state of a primary recognizer.
pub struct RecognizerView {
    pub width: u64,
    pub height: u64,
    /// The button is down and a stroke is being drawn.
    pub drawing: bool,
    /// Where the stroke being drawn began.
    pub start: (i32, i32),
    pub attempt: Attempt,
    /// A rectangle has been completed.
    pub armed: bool,
}

/// The state of a confirmation recognizer.
pub struct ConfirmationView {
    pub width: u64,
    pub height: u64,
    pub drawing: bool,
    pub start: (i32, i32),
}

/// The stroke is straight along one axis and ends on a screen edge that runs
/// along that axis.
pub open spec fn touches_edge(start: (i32, i32), end: (i32, i32), width: u64, height: u64) -> bool {
    match spec_classify(start, end, width, height) {
        Axis::Horizontal => on_edge(end.1 as int, height as int),
        Axis::Vertical => on_edge(end.0 as int, width as int),
        Axis::Invalid => false,
    }
}

/// The orientation that the stroke fixes when it is the first segment.
pub open spec fn first_orientation(
    start: (i32, i32),
    end: (i32, i32),
    width: u64,
    height: u64,
) -> bool {
    match spec_classify(start, end, width, height) {
        Axis::Horizontal => spec_is_clockwise(start, end, Axis::Horizontal, height),
        Axis::Vertical => spec_is_clockwise(start, end, Axis::Vertical, width),
        Axis::Invalid => false,
    }
}

/// The stroke runs along the other axis than `previous` and towards the
/// corner that follows the end of `previous` in the given orientation.
pub open spec fn continues(
    previous: Stroke,
    clockwise: bool,
    start: (i32, i32),
    end: (i32, i32),
    width: u64,
    height: u64,
) -> bool {
    let axis = spec_classify(start, end, width, height);
    axis != previous.axis && spec_is_correct(
        start,
        end,
        axis,
        spec_next_side(previous.end, clockwise),
    )
}

/// The stroke is accepted as the next segment of the attempt.
pub open spec fn accepts(
    attempt: Attempt,
    start: (i32, i32),
    end: (i32, i32),
    width: u64,
    height: u64,
) -> bool {
    touches_edge(start, end, width, height) && (attempt.segments.len() == 0 || continues(
        attempt.segments.last(),
        attempt.clockwise,
        start,
        end,
        width,
        height,
    ))
}

/// The attempt after a stroke from `start` to `end` has ended, and what the
/// stroke meant.
///
/// A rejected stroke leaves an empty attempt as it is and empties any other.
/// An accepted one is appended; the first fixes the orientation, the fourth
/// completes the rectangle and empties the attempt.
pub open spec fn release(
    attempt: Attempt,
    start: (i32, i32),
    end: (i32, i32),
    width: u64,
    height: u64,
) -> (Attempt, GestureResult) {
    let stroke = Stroke { start, end, axis: spec_classify(start, end, width, height) };
    if !accepts(attempt, start, end, width, height) {
        (Attempt { segments: Seq::empty(), clockwise: attempt.clockwise }, GestureResult::Invalid)
    } else if attempt.segments.len() == 0 {
        (
            Attempt {
                segments: seq![stroke],
                clockwise: first_orientation(start, end, width, height),
            },
            GestureResult::Pending,
        )
    } else if attempt.segments.len() >= 3 {
        (
            Attempt { segments: Seq::empty(), clockwise: attempt.clockwise },
            GestureResult::RectangleComplete,
        )
    } else {
        (
            Attempt { segments: attempt.segments.push(stroke), clockwise: attempt.clockwise },
            GestureResult::Pending,
        )
    }
}

/// What holds of every attempt that a recognizer builds on a screen of the
/// given size: at most three segments, each classified by its axis and ending
/// on a screen edge, the first fixing the orientation, every later one running
/// along the other axis than the one before it and towards the corner that
/// the orientation asks for.
pub open spec fn well_formed(attempt: Attempt, width: u64, height: u64) -> bool {
    &&& attempt.segments.len() <= 3
    &&& forall|i: int|
        0 <= i < attempt.segments.len() ==> {
            let s = #[trigger] attempt.segments[i];
            &&& s.axis == spec_classify(s.start, s.end, width, height)
            &&& touches_edge(s.start, s.end, width, height)
        }
    &&& attempt.segments.len() > 0 ==> attempt.clockwise == first_orientation(
        attempt.segments[0].start,
        attempt.segments[0].end,
        width,
        height,
    )
    &&& forall|i: int|
        1 <= i < attempt.segments.len() ==> {
            let s = #[trigger] attempt.segments[i];
            continues(attempt.segments[i - 1], attempt.clockwise, s.start, s.end, width, height)
        }
}

/// The recognizer's state after one pointer sample, and what the sample meant.
///
/// A press while no stroke is being drawn begins one at the pointer's place;
/// the first sample without the button ends it there.
pub open spec fn sample(state: RecognizerView, coordinates: (i32, i32), pressed: bool) -> (
    RecognizerView,
    GestureResult,
) {
    if pressed {
        if state.drawing {
            (state, GestureResult::Pending)
        } else {
            (RecognizerView { drawing: true, start: coordinates, ..state }, GestureResult::Pending)
        }
    } else if state.drawing {
        let (attempt, result) = release(
            state.attempt,
            state.start,
            coordinates,
            state.width,
            state.height,
        );
        (
            RecognizerView {
                drawing: false,
                attempt,
                armed: state.armed || result == GestureResult::RectangleComplete,
                ..state
            },
            result,
        )
    } else {
        (state, GestureResult::Pending)
    }
}

/// Where a recognizer in the given state stands.
pub open spec fn spec_phase(state: RecognizerView) -> Phase {
    if state.drawing {
        Phase::Drawing
    } else if state.attempt.segments.len() > 0 {
        Phase::SequenceBuilding { segments: state.attempt.segments.len() as usize }
    } else if state.armed {
        Phase::Armed
    } else {
        Phase::Idle
    }
}

/// The confirmation recognizer's state after one pointer sample, and what the
/// sample meant.
pub open spec fn confirm(state: ConfirmationView, coordinates: (i32, i32), pressed: bool) -> (
    ConfirmationView,
    Confirmation,
) {
    if pressed {
        if state.drawing {
            (state, Confirmation::Pending)
        } else {
            (ConfirmationView { drawing: true, start: coordinates, ..state }, Confirmation::Pending)
        }
    } else if state.drawing {
        (
            ConfirmationView { drawing: false, ..state },
            if spec_horizontal_check2(state.start, coordinates, state.width, state.height) {
                Confirmation::Confirmed
            } else {
                Confirmation::Mismatch
            },
        )
    } else {
        (state, Confirmation::Pending)
    }
}

/// Whatever stroke ends, a well-formed attempt stays well formed.
pub proof fn lemma_release_keeps_well_formed(
    attempt: Attempt,
    start: (i32, i32),
    end: (i32, i32),
    width: u64,
    height: u64,
)
    requires
        well_formed(attempt, width, height),
    ensures
        well_formed(release(attempt, start, end, width, height).0, width, height),
{
}

/// Four strokes, each straight and ending on a screen edge, each along the
/// other axis than the one before it, and each after the first running towards
/// the corner that the orientation fixed by the first asks for, complete the
/// rectangle: the first three are accepted as segments, the fourth reports
/// `RectangleComplete` and leaves the attempt empty.
pub proof fn lemma_four_matching_strokes_complete(
    clockwise: bool,
    first: (i32, i32),
    first_end: (i32, i32),
    second: (i32, i32),
    second_end: (i32, i32),
    third: (i32, i32),
    third_end: (i32, i32),
    fourth: (i32, i32),
    fourth_end: (i32, i32),
    width: u64,
    height: u64,
)
    requires
        touches_edge(first, first_end, width, height),
        touches_edge(second, second_end, width, height),
        touches_edge(third, third_end, width, height),
        touches_edge(fourth, fourth_end, width, height),
        spec_classify(second, second_end, width, height) != spec_classify(
            first,
            first_end,
            width,
            height,
        ),
        spec_classify(third, third_end, width, height) != spec_classify(
            second,
            second_end,
            width,
            height,
        ),
        spec_classify(fourth, fourth_end, width, height) != spec_classify(
            third,
            third_end,
            width,
            height,
        ),
        spec_is_correct(
            second,
            second_end,
            spec_classify(second, second_end, width, height),
            spec_next_side(first_end, first_orientation(first, first_end, width, height)),
        ),
        spec_is_correct(
            third,
            third_end,
            spec_classify(third, third_end, width, height),
            spec_next_side(second_end, first_orientation(first, first_end, width, height)),
        ),
        spec_is_correct(
            fourth,
            fourth_end,
            spec_classify(fourth, fourth_end, width, height),
            spec_next_side(third_end, first_orientation(first, first_end, width, height)),
        ),
    ensures
        ({
            let empty = Attempt { segments: Seq::empty(), clockwise };
            let one = release(empty, first, first_end, width, height);
            let two = release(one.0, second, second_end, width, height);
            let three = release(two.0, third, third_end, width, height);
            let four = release(three.0, fourth, fourth_end, width, height);
            &&& one.1 == GestureResult::Pending && one.0.segments.len() == 1
            &&& two.1 == GestureResult::Pending && two.0.segments.len() == 2
            &&& three.1 == GestureResult::Pending && three.0.segments.len() == 3
            &&& four.1 == GestureResult::RectangleComplete && four.0.segments.len() == 0
            &&& two.0.clockwise == one.0.clockwise
            &&& three.0.clockwise == one.0.clockwise
            &&& four.0.clockwise == one.0.clockwise
        }),
{
}

/// A stroke that does not run towards the corner that an attempt in progress
/// asks for empties the attempt and is reported as invalid.
pub proof fn lemma_corner_mismatch_empties(
    attempt: Attempt,
    start: (i32, i32),
    end: (i32, i32),
    width: u64,
    height: u64,
)
    requires
        attempt.segments.len() > 0,
        !spec_is_correct(
            start,
            end,
            spec_classify(start, end, width, height),
            spec_next_side(attempt.segments.last().end, attempt.clockwise),
        ),
    ensures
        release(attempt, start, end, width, height).0.segments.len() == 0,
        release(attempt, start, end, width, height).1 == GestureResult::Invalid,
{
}

/// A rectangle is reported complete only by a stroke that is accepted as the
/// fourth segment: the well-formed attempt before it holds exactly three.
pub proof fn lemma_complete_only_at_four(
    attempt: Attempt,
    start: (i32, i32),
    end: (i32, i32),
    width: u64,
    height: u64,
)
    requires
        well_formed(attempt, width, height),
        release(attempt, start, end, width, height).1 == GestureResult::RectangleComplete,
    ensures
        attempt.segments.len() == 3,
        accepts(attempt, start, end, width, height),
{
}

/// No stroke changes the orientation of an attempt in progress.
pub proof fn lemma_orientation_is_fixed(
    attempt: Attempt,
    start: (i32, i32),
    end: (i32, i32),
    width: u64,
    height: u64,
)
    requires
        attempt.segments.len() > 0,
    ensures
        release(attempt, start, end, width, height).0.clockwise == attempt.clockwise,
{
}

/// A stroke along the same axis as the last segment empties the attempt and is
/// reported as invalid.
pub proof fn lemma_repeated_axis_empties(
    attempt: Attempt,
    start: (i32, i32),
    end: (i32, i32),
    width: u64,
    height: u64,
)
    requires
        attempt.segments.len() > 0,
        spec_classify(start, end, width, height) == attempt.segments.last().axis,
    ensures
        release(attempt, start, end, width, height).0.segments.len() == 0,
        release(attempt, start, end, width, height).1 == GestureResult::Invalid,
{
}

/// The segments with one more at their end.
fn extended(segments: &Vec<Stroke>, stroke: Stroke) -> (longer: Vec<Stroke>)
    ensures
        longer@ == segments@.push(stroke),
{
    let mut longer: Vec<Stroke> = Vec::new();
    let mut i: usize = 0;
    while i < segments.len()
        invariant
            i <= segments.len(),
            longer@ == segments@.take(i as int),
        decreases segments.len() - i,
    {
        longer.push(segments[i]);
        i += 1;
    }
    longer.push(stroke);
    longer
}

/// Follows a rectangle drawn along the edges of a screen, one stroke at a
/// time.
pub struct Recognizer {
    width: u64,
    height: u64,
    drawing: bool,
    start: (i32, i32),
    segments: Vec<Stroke>,
    clockwise: bool,
    armed: bool,
}

impl View for Recognizer {
    type V = RecognizerView;

    closed spec fn view(&self) -> RecognizerView {
        RecognizerView {
            width: self.width,
            height: self.height,
            drawing: self.drawing,
            start: self.start,
            attempt: Attempt { segments: self.segments@, clockwise: self.clockwise },
            armed: self.armed,
        }
    }
}

impl Recognizer {
    #[verifier::type_invariant]
    spec fn attempt_is_well_formed(&self) -> bool {
        well_formed(self@.attempt, self.width, self.height)
    }

    /// A recognizer for a screen of the given size, with nothing drawn yet.
    pub fn new(width: u64, height: u64) -> (recognizer: Recognizer)
        ensures
            recognizer@.width == width,
            recognizer@.height == height,
            !recognizer@.drawing,
            !recognizer@.armed,
            recognizer@.attempt.segments == Seq::<Stroke>::empty(),
            well_formed(recognizer@.attempt, width, height),
    {
        Recognizer {
            width,
            height,
            drawing: false,
            start: (0, 0),
            segments: Vec::new(),
            clockwise: false,
            armed: false,
        }
    }

    /// Takes the stroke from `start` to `end` as ended: appends it to the
    /// attempt if it is accepted, empties the attempt if it is not.
    pub fn on_release(&mut self, start: (i32, i32), end: (i32, i32)) -> (result: GestureResult)
        ensures
            final(self)@.attempt == release(
                old(self)@.attempt,
                start,
                end,
                old(self)@.width,
                old(self)@.height,
            ).0,
            result == release(
                old(self)@.attempt,
                start,
                end,
                old(self)@.width,
                old(self)@.height,
            ).1,
            final(self)@.width == old(self)@.width,
            final(self)@.height == old(self)@.height,
            final(self)@.drawing == old(self)@.drawing,
            final(self)@.start == old(self)@.start,
            final(self)@.armed == (old(self)@.armed || result == GestureResult::RectangleComplete),
            well_formed(final(self)@.attempt, final(self)@.width, final(self)@.height),
    {
        proof {
            use_type_invariant(&*self);
            lemma_release_keeps_well_formed(
                self@.attempt,
                start,
                end,
                self.width,
                self.height,
            );
        }
        let axis = classify(start, end, self.width, self.height);
        let valid = match axis {
            Axis::Horizontal => horizontal_check(start, end, self.width, self.height),
            Axis::Vertical => vertical_check(start, end, self.height, self.width),
            Axis::Invalid => false,
        };
        let count: usize = self.segments.len();
        if !valid {
            self.segments = Vec::new();
            return GestureResult::Invalid;
        }
        let stroke = Stroke { start, end, axis };
        if count == 0 {
            self.clockwise = match axis {
                Axis::Horizontal => is_clockwise(start, end, axis, self.height),
                _ => is_clockwise(start, end, axis, self.width),
            };
            self.segments = extended(&Vec::new(), stroke);
            return GestureResult::Pending;
        }
        let previous = self.segments[count - 1];
        if axis == previous.axis || !is_correct(
            start,
            end,
            axis,
            next_side(previous.end, self.clockwise),
        ) {
            self.segments = Vec::new();
            return GestureResult::Invalid;
        }
        if count >= 3 {
            self.segments = Vec::new();
            self.armed = true;
            return GestureResult::RectangleComplete;
        }
        self.segments = extended(&self.segments, stroke);
        GestureResult::Pending
    }

    /// Where the recognizer stands.
    pub fn phase(&self) -> (phase: Phase)
        ensures
            phase == spec_phase(self@),
    {
        if self.drawing {
            Phase::Drawing
        } else if self.segments.len() > 0 {
            Phase::SequenceBuilding { segments: self.segments.len() }
        } else if self.armed {
            Phase::Armed
        } else {
            Phase::Idle
        }
    }

    /// The number of segments accepted so far: at most three.
    pub fn segment_count(&self) -> (count: usize)
        ensures
            count == self@.attempt.segments.len(),
            count <= 3,
            well_formed(self@.attempt, self@.width, self@.height),
    {
        proof {
            use_type_invariant(self);
        }
        self.segments.len()
    }

    /// The orientation of the attempt, `None` while it has no segment.
    pub fn orientation(&self) -> (clockwise: Option<bool>)
        ensures
            clockwise == if self@.attempt.segments.len() == 0 {
                None
            } else {
                Some(self@.attempt.clockwise)
            },
    {
        if self.segments.len() == 0 {
            None
        } else {
            Some(self.clockwise)
        }
    }

    /// Whether a stroke is being drawn.
    pub fn is_drawing(&self) -> (drawing: bool)
        ensures
            drawing == self@.drawing,
    {
        self.drawing
    }

    /// Whether a rectangle has been completed.
    pub fn is_armed(&self) -> (armed: bool)
        ensures
            armed == self@.armed,
    {
        self.armed
    }
}

/// Feeds one pointer sample to the primary recognizer: where the pointer is
/// and whether its button is down.
pub fn first_command(state: &mut Recognizer, coordinates: (i32, i32), pressed: bool) -> (result:
    GestureResult)
    ensures
        final(state)@ == sample(old(state)@, coordinates, pressed).0,
        result == sample(old(state)@, coordinates, pressed).1,
        well_formed(final(state)@.attempt, final(state)@.width, final(state)@.height),
{
    proof {
        use_type_invariant(&*state);
    }
    if pressed {
        if !state.drawing {
            state.drawing = true;
            state.start = coordinates;
        }
        GestureResult::Pending
    } else if state.drawing {
        state.drawing = false;
        let start = state.start;
        state.on_release(start, coordinates)
    } else {
        GestureResult::Pending
    }
}

/// Waits for one straight stroke across the screen, along its top or its
/// bottom edge.
pub struct ConfirmationRecognizer {
    width: u64,
    height: u64,
    drawing: bool,
    start: (i32, i32),
}

impl View for ConfirmationRecognizer {
    type V = ConfirmationView;

    closed spec fn view(&self) -> ConfirmationView {
        ConfirmationView {
            width: self.width,
            height: self.height,
            drawing: self.drawing,
            start: self.start,
        }
    }
}

impl ConfirmationRecognizer {
    /// A confirmation recognizer for a screen of the given size, with nothing
    /// drawn yet.
    pub fn new(width: u64, height: u64) -> (recognizer: ConfirmationRecognizer)
        ensures
            recognizer@ == (ConfirmationView { width, height, drawing: false, start: (0, 0) }),
    {
        ConfirmationRecognizer { width, height, drawing: false, start: (0, 0) }
    }

    /// Whether a stroke is being drawn.
    pub fn is_drawing(&self) -> (drawing: bool)
        ensures
            drawing == self@.drawing,
    {
        self.drawing
    }
}

/// Feeds one pointer sample to the confirmation recognizer.
pub fn second_command(
    state: &mut ConfirmationRecognizer,
    coordinates: (i32, i32),
    pressed: bool,
) -> (result: Confirmation)
    ensures
        final(state)@ == confirm(old(state)@, coordinates, pressed).0,
        result == confirm(old(state)@, coordinates, pressed).1,
{
    if pressed {
        if !state.drawing {
            state.drawing = true;
            state.start = coordinates;
        }
        Confirmation::Pending
    } else if state.drawing {
        state.drawing = false;
        if horizontal_check2(state.start, coordinates, state.width, state.height) {
            Confirmation::Confirmed
        } else {
            Confirmation::Mismatch
        }
    } else {
        Confirmation::Pending
    }
}

} // verus!
