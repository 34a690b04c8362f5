//! The detect-or-track state machine.
//!
//! A tracker is either searching for a face or tracking the points it found
//! on one. It does none of the image work itself. For every frame it is told
//! what happened, one [`Event`] at a time, and answers each event with the
//! [`Action`] to take next: locate the faces in the frame, select features
//! on a face, estimate the motion of the tracked points, or report what the
//! frame gave. Whoever drives the tracker takes the action and comes back
//! with the event that tells how it went.
//!
//! The type `F` is that of a grayscale frame. The tracker keeps the frame
//! on which its points were last seen and never looks into it.

use crate::geometry::{
    find_face_rectangle, find_largest_face, spec_face_rectangle, spec_largest_face, Point, Region,
};
use crate::motion::{spec_track_points, track_points};
use crate::scalar::Scalar;
use vstd::prelude::*;

verus! {

/// Motion is estimated only for more points than this. With this many or
/// fewer the points no longer say where the face is, and it is searched for
/// anew.
pub const REACQUIRE_THRESHOLD: usize = 6;

/// What a tracker is doing between two frames.
#[derive(Clone, Copy, Debug, PartialEq, Eq, Structural)]
pub enum Mode {
    /// No face is known: the next frame is searched for one.
    Search,
    /// Points on a face are known.
    Track,
}

/// How far the work on the frame in flight has come.
#[derive(Clone, Copy, Debug, PartialEq, Eq, Structural)]
pub enum Stage {
    /// No frame is in flight.
    Idle,
    /// The faces in the frame are being located.
    Locating,
    /// Features are being selected on this face.
    Selecting(Region),
    /// The motion of the tracked points is being estimated.
    Estimating,
}

/// Why an event ended the work on a frame.
#[derive(Clone, Copy, Debug, PartialEq, Eq, Structural)]
pub enum TrackError {
    /// The event does not answer the action that was asked for.
    UnexpectedEvent,
    /// The motion estimate does not have one moved point, one status flag
    /// and one error for each tracked point.
    MisalignedEstimate,
    /// The detector, the feature selector or the motion estimator failed.
    CollaboratorFailed,
}

/// What a tracker holds between two frames.
#[derive(Debug)]
pub enum Tracking<F> {
    /// Nothing: no face is known.
    Search,
    /// The points that are tracked and the frame on which they were seen.
    Track { points: Vec<Point>, previous: F },
}

/// What the work on one frame gave.
#[derive(Debug)]
pub struct TrackResult {
    /// The points that are tracked after the frame.
    pub points: Vec<Point>,
    /// The face that was found, or the region around the points that were
    /// followed.
    pub region: Option<Region>,
    /// What the tracker does after the frame.
    pub mode: Mode,
}

/// What happened to the frame in flight.
#[derive(Debug)]
pub enum Event<F> {
    /// A new frame is there.
    FrameArrived,
    /// The face detector found these faces in the frame.
    FacesLocated(Vec<Region>),
    /// The feature selector found these points on the face it was given, in
    /// this frame.
    FeaturesSelected { frame: F, points: Vec<Point> },
    /// The motion estimator followed the tracked points from the previous
    /// frame into this one.
    MotionEstimated { frame: F, moved: Vec<Point>, status: Vec<u8>, errors: Vec<Scalar> },
    /// The action that was asked for could not be taken.
    CollaboratorFailed,
}

/// What is to be done next for the frame in flight.
#[derive(Debug)]
pub enum Action {
    /// Locate the faces in the frame and come back with
    /// [`Event::FacesLocated`].
    LocateFaces,
    /// Select features on this face and come back with
    /// [`Event::FeaturesSelected`].
    SelectFeatures(Region),
    /// Estimate the motion of the tracked points from the previous frame to
    /// this one and come back with [`Event::MotionEstimated`].
    EstimateMotion,
    /// The frame is done, with this result.
    Report(TrackResult),
}

/// The mathematical value of a [`Tracking`].
pub enum TrackingView<F> {
    Search,
    Track { points: Seq<Point>, previous: F },
}

/// The mathematical value of a [`TrackResult`].
pub struct ResultView {
    pub points: Seq<Point>,
    pub region: Option<Region>,
    pub mode: Mode,
}

/// The mathematical value of an [`Event`].
pub enum EventView<F> {
    FrameArrived,
    FacesLocated(Seq<Region>),
    FeaturesSelected { frame: F, points: Seq<Point> },
    MotionEstimated { frame: F, moved: Seq<Point>, status: Seq<u8>, errors: Seq<Scalar> },
    CollaboratorFailed,
}

/// The mathematical value of an [`Action`].
pub enum ActionView {
    LocateFaces,
    SelectFeatures(Region),
    EstimateMotion,
    Report(ResultView),
}

/// The mathematical value of a [`FaceTracker`].
pub struct TrackerView<F> {
    pub tracking: TrackingView<F>,
    pub stage: Stage,
}

impl<F> View for Tracking<F> {
    type V = TrackingView<F>;

    open spec fn view(&self) -> TrackingView<F> {
        match *self {
            Tracking::Search => TrackingView::Search,
            Tracking::Track { points, previous } => TrackingView::Track {
                points: points@,
                previous,
            },
        }
    }
}

impl View for TrackResult {
    type V = ResultView;

    open spec fn view(&self) -> ResultView {
        ResultView { points: self.points@, region: self.region, mode: self.mode }
    }
}

impl<F> View for Event<F> {
    type V = EventView<F>;

    open spec fn view(&self) -> EventView<F> {
        match *self {
            Event::FrameArrived => EventView::FrameArrived,
            Event::FacesLocated(faces) => EventView::FacesLocated(faces@),
            Event::FeaturesSelected { frame, points } => EventView::FeaturesSelected {
                frame,
                points: points@,
            },
            Event::MotionEstimated { frame, moved, status, errors } => EventView::MotionEstimated {
                frame,
                moved: moved@,
                status: status@,
                errors: errors@,
            },
            Event::CollaboratorFailed => EventView::CollaboratorFailed,
        }
    }
}

impl View for Action {
    type V = ActionView;

    open spec fn view(&self) -> ActionView {
        match *self {
            Action::LocateFaces => ActionView::LocateFaces,
            Action::SelectFeatures(face) => ActionView::SelectFeatures(face),
            Action::EstimateMotion => ActionView::EstimateMotion,
            Action::Report(result) => ActionView::Report(result@),
        }
    }
}

/// The mathematical value of what [`FaceTracker::process_frame`] returns.
pub open spec fn outcome_view(outcome: Result<Action, TrackError>) -> Result<
    ActionView,
    TrackError,
> {
    match outcome {
        Ok(action) => Ok(action@),
        Err(error) => Err(error),
    }
}

impl<F> TrackingView<F> {
    /// The points that are tracked: none while searching.
    pub open spec fn points(self) -> Seq<Point> {
        match self {
            TrackingView::Search => Seq::empty(),
            TrackingView::Track { points, .. } => points,
        }
    }

    /// The frame on which the points were last seen: none while searching.
    pub open spec fn previous(self) -> Option<F> {
        match self {
            TrackingView::Search => None,
            TrackingView::Track { previous, .. } => Some(previous),
        }
    }

    /// Searching or tracking.
    pub open spec fn mode(self) -> Mode {
        match self {
            TrackingView::Search => Mode::Search,
            TrackingView::Track { .. } => Mode::Track,
        }
    }

    /// The next frame is worked on by motion estimation, not by a search:
    /// the tracker is tracking more than [`REACQUIRE_THRESHOLD`] points.
    pub open spec fn follows(self) -> bool {
        self.mode() == Mode::Track && self.points().len() > REACQUIRE_THRESHOLD
    }
}

impl ResultView {
    /// The result of a frame in which no face was found.
    pub open spec fn nothing() -> ResultView {
        ResultView { points: Seq::empty(), region: None, mode: Mode::Search }
    }
}

impl<F> TrackerView<F> {
    /// The tracker at startup: searching, with no frame in flight.
    pub open spec fn initial() -> TrackerView<F> {
        TrackerView { tracking: TrackingView::Search, stage: Stage::Idle }
    }

    /// The work on the frame in flight ends with `error`. What the tracker
    /// held before the frame is kept.
    pub open spec fn abandon(self, error: TrackError) -> (TrackerView<F>, Result<
        ActionView,
        TrackError,
    >) {
        (TrackerView { tracking: self.tracking, stage: Stage::Idle }, Err(error))
    }

    /// The work on the frame in flight goes on at `stage` with `action`.
    pub open spec fn proceed(self, stage: Stage, action: ActionView) -> (TrackerView<F>, Result<
        ActionView,
        TrackError,
    >) {
        (TrackerView { tracking: self.tracking, stage }, Ok(action))
    }

    /// The work on the frame in flight is done: the tracker holds `tracking`
    /// and reports `result`.
    pub open spec fn finish(tracking: TrackingView<F>, result: ResultView) -> (
        TrackerView<F>,
        Result<ActionView, TrackError>,
    ) {
        (TrackerView { tracking, stage: Stage::Idle }, Ok(ActionView::Report(result)))
    }

    /// A motion estimate is aligned with the tracked points: it has one
    /// moved point, one status flag and one error for each of them.
    pub open spec fn aligned(self, moved: Seq<Point>, status: Seq<u8>, errors: Seq<Scalar>) -> bool {
        &&& moved.len() == self.tracking.points().len()
        &&& status.len() == moved.len()
        &&& errors.len() == moved.len()
    }

    /// A new frame: motion is estimated where the tracker follows enough
    /// points, and faces are located otherwise.
    pub open spec fn on_frame(self) -> (TrackerView<F>, Result<ActionView, TrackError>) {
        if self.stage != Stage::Idle {
            self.abandon(TrackError::UnexpectedEvent)
        } else if self.tracking.follows() {
            self.proceed(Stage::Estimating, ActionView::EstimateMotion)
        } else {
            self.proceed(Stage::Locating, ActionView::LocateFaces)
        }
    }

    /// The faces of the frame: features are selected on the largest. Where
    /// there is no face the tracker forgets what it held and searches on.
    pub open spec fn on_faces(self, faces: Seq<Region>) -> (TrackerView<F>, Result<
        ActionView,
        TrackError,
    >) {
        if self.stage != Stage::Locating {
            self.abandon(TrackError::UnexpectedEvent)
        } else {
            match spec_largest_face(faces) {
                Some(face) => self.proceed(Stage::Selecting(face), ActionView::SelectFeatures(face)),
                None => Self::finish(TrackingView::Search, ResultView::nothing()),
            }
        }
    }

    /// The features that were selected on the face: they are tracked from
    /// now on, however few they are, and the face is the region reported.
    pub open spec fn on_features(self, frame: F, points: Seq<Point>) -> (TrackerView<F>, Result<
        ActionView,
        TrackError,
    >) {
        match self.stage {
            Stage::Selecting(face) => Self::finish(
                TrackingView::Track { points, previous: frame },
                ResultView { points, region: Some(face), mode: Mode::Track },
            ),
            _ => self.abandon(TrackError::UnexpectedEvent),
        }
    }

    /// The motion estimate for the tracked points: those that pass the
    /// quality filter are tracked from now on, and the region around them is
    /// reported. The tracker stays in track mode even if few or none pass.
    pub open spec fn on_motion(
        self,
        frame: F,
        moved: Seq<Point>,
        status: Seq<u8>,
        errors: Seq<Scalar>,
    ) -> (TrackerView<F>, Result<ActionView, TrackError>) {
        if self.stage != Stage::Estimating {
            self.abandon(TrackError::UnexpectedEvent)
        } else if !self.aligned(moved, status, errors) {
            self.abandon(TrackError::MisalignedEstimate)
        } else {
            let kept = spec_track_points(moved, status, errors);
            Self::finish(
                TrackingView::Track { points: kept, previous: frame },
                ResultView { points: kept, region: spec_face_rectangle(kept), mode: Mode::Track },
            )
        }
    }

    /// The tracker after `event`, and its answer to it.
    pub open spec fn step(self, event: EventView<F>) -> (TrackerView<F>, Result<
        ActionView,
        TrackError,
    >) {
        match event {
            EventView::FrameArrived => self.on_frame(),
            EventView::FacesLocated(faces) => self.on_faces(faces),
            EventView::FeaturesSelected { frame, points } => self.on_features(frame, points),
            EventView::MotionEstimated { frame, moved, status, errors } => self.on_motion(
                frame,
                moved,
                status,
                errors,
            ),
            EventView::CollaboratorFailed => self.abandon(TrackError::CollaboratorFailed),
        }
    }
}

/// The tracker: what it holds between frames, and how far the frame in
/// flight has come.
#[derive(Debug)]
pub struct FaceTracker<F> {
    tracking: Tracking<F>,
    stage: Stage,
}

impl<F> View for FaceTracker<F> {
    type V = TrackerView<F>;

    closed spec fn view(&self) -> TrackerView<F> {
        TrackerView { tracking: self.tracking@, stage: self.stage }
    }
}

/// A copy of the points.
fn copy_points(points: &Vec<Point>) -> (copy: Vec<Point>)
    ensures
        copy@ == points@,
{
    let mut copy: Vec<Point> = Vec::new();
    let mut i: usize = 0;
    while i < points.len()
        invariant
            0 <= i <= points.len(),
            copy@ == points@.take(i as int),
        decreases points.len() - i,
    {
        copy.push(points[i]);
        proof {
            assert(points@.take(i as int).push(points@[i as int]) =~= points@.take(i + 1));
        }
        i += 1;
    }
    proof {
        assert(points@.take(i as int) =~= points@);
    }
    copy
}

impl<F> FaceTracker<F> {
    /// A tracker at startup: it searches, and no frame is in flight.
    pub fn new() -> (tracker: FaceTracker<F>)
        ensures
            tracker@ == TrackerView::<F>::initial(),
    {
        FaceTracker { tracking: Tracking::Search, stage: Stage::Idle }
    }

    /// What the tracker holds between frames.
    pub fn tracking(&self) -> (tracking: &Tracking<F>)
        ensures
            tracking@ == self@.tracking,
    {
        &self.tracking
    }

    /// How far the frame in flight has come.
    pub fn stage(&self) -> (stage: Stage)
        ensures
            stage == self@.stage,
    {
        self.stage
    }

    /// Searching or tracking.
    pub fn mode(&self) -> (mode: Mode)
        ensures
            mode == self@.tracking.mode(),
    {
        match &self.tracking {
            Tracking::Search => Mode::Search,
            Tracking::Track { .. } => Mode::Track,
        }
    }

    /// How many points are tracked.
    pub fn point_count(&self) -> (count: usize)
        ensures
            count == self@.tracking.points().len(),
    {
        match &self.tracking {
            Tracking::Search => 0,
            Tracking::Track { points, .. } => points.len(),
        }
    }

    /// Whether the next frame is worked on by motion estimation: the tracker
    /// is tracking more than [`REACQUIRE_THRESHOLD`] points.
    pub fn follows(&self) -> (follows: bool)
        ensures
            follows == self@.tracking.follows(),
    {
        match &self.tracking {
            Tracking::Search => false,
            Tracking::Track { points, .. } => points.len() > REACQUIRE_THRESHOLD,
        }
    }

    /// Takes the next event of the frame in flight and answers with the
    /// action to take next, or with the result of the frame.
    ///
    /// A frame starts with [`Event::FrameArrived`] and ends with
    /// [`Action::Report`]. Each event in between answers the action that was
    /// asked for last. An event that does not, a motion estimate that is not
    /// aligned with the tracked points, and [`Event::CollaboratorFailed`]
    /// end the frame with an error: the tracker then holds what it held
    /// before the frame, with no frame in flight.
    pub fn process_frame(&mut self, event: Event<F>) -> (outcome: Result<Action, TrackError>)
        ensures
            (final(self)@, outcome_view(outcome)) == old(self)@.step(event@),
    {
        match event {
            Event::FrameArrived => {
                match self.stage {
                    Stage::Idle => {
                        if self.follows() {
                            self.stage = Stage::Estimating;
                            Ok(Action::EstimateMotion)
                        } else {
                            self.stage = Stage::Locating;
                            Ok(Action::LocateFaces)
                        }
                    },
                    _ => {
                        self.stage = Stage::Idle;
                        Err(TrackError::UnexpectedEvent)
                    },
                }
            },
            Event::FacesLocated(faces) => {
                match self.stage {
                    Stage::Locating => {
                        match find_largest_face(&faces) {
                            Some(face) => {
                                self.stage = Stage::Selecting(face);
                                Ok(Action::SelectFeatures(face))
                            },
                            None => {
                                self.tracking = Tracking::Search;
                                self.stage = Stage::Idle;
                                Ok(
                                    Action::Report(
                                        TrackResult {
                                            points: Vec::new(),
                                            region: None,
                                            mode: Mode::Search,
                                        },
                                    ),
                                )
                            },
                        }
                    },
                    _ => {
                        self.stage = Stage::Idle;
                        Err(TrackError::UnexpectedEvent)
                    },
                }
            },
            Event::FeaturesSelected { frame, points } => {
                match self.stage {
                    Stage::Selecting(face) => {
                        let report = TrackResult {
                            points: copy_points(&points),
                            region: Some(face),
                            mode: Mode::Track,
                        };
                        self.tracking = Tracking::Track { points, previous: frame };
                        self.stage = Stage::Idle;
                        Ok(Action::Report(report))
                    },
                    _ => {
                        self.stage = Stage::Idle;
                        Err(TrackError::UnexpectedEvent)
                    },
                }
            },
            Event::MotionEstimated { frame, moved, status, errors } => {
                match self.stage {
                    Stage::Estimating => {
                        let count = self.point_count();
                        if moved.len() != count || status.len() != count || errors.len() != count {
                            self.stage = Stage::Idle;
                            return Err(TrackError::MisalignedEstimate);
                        }
                        let kept = track_points(&moved, &status, &errors);
                        let report = TrackResult {
                            points: copy_points(&kept),
                            region: find_face_rectangle(&kept),
                            mode: Mode::Track,
                        };
                        self.tracking = Tracking::Track { points: kept, previous: frame };
                        self.stage = Stage::Idle;
                        Ok(Action::Report(report))
                    },
                    _ => {
                        self.stage = Stage::Idle;
                        Err(TrackError::UnexpectedEvent)
                    },
                }
            },
            Event::CollaboratorFailed => {
                self.stage = Stage::Idle;
                Err(TrackError::CollaboratorFailed)
            },
        }
    }
}

} // verus!
