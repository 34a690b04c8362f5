//! What holds of every tracker, whatever frames it is given.
//!
//! Each statement here is about [`TrackerView::step`], the mathematical
//! value of [`crate::tracker::FaceTracker::process_frame`], and so holds of
//! every call of that function.

use crate::geometry::{lemma_largest_face_exists, Point, Region};
use crate::motion::lemma_track_points_len;
use crate::scalar::Scalar;
use crate::tracker::{
    ActionView, EventView, Mode, ResultView, Stage, TrackError, TrackerView, TrackingView,
    REACQUIRE_THRESHOLD,
};
use vstd::prelude::*;

verus! {

/// The stage of a tracker fits what it holds: motion is being estimated
/// only for a tracker that follows enough points, and a face is being
/// searched only for one that does not.
pub open spec fn consistent<F>(tracker: TrackerView<F>) -> bool {
    match tracker.stage {
        Stage::Idle => true,
        Stage::Estimating => tracker.tracking.follows(),
        Stage::Locating => !tracker.tracking.follows(),
        Stage::Selecting(_) => !tracker.tracking.follows(),
    }
}

/// The tracker after a whole frame in which no face is located.
pub open spec fn after_frame_without_face<F>(tracker: TrackerView<F>) -> TrackerView<F> {
    tracker.step(EventView::FrameArrived).0.step(EventView::FacesLocated(Seq::empty())).0
}

/// The tracker after `n` frames in a row in which no face is located.
pub open spec fn after_frames_without_face<F>(tracker: TrackerView<F>, n: nat) -> TrackerView<F>
    decreases n,
{
    if n == 0 {
        tracker
    } else {
        after_frame_without_face(after_frames_without_face(tracker, (n - 1) as nat))
    }
}

/// A tracker at startup is consistent, and every event keeps it so.
pub proof fn lemma_consistency_is_kept<F>(tracker: TrackerView<F>, event: EventView<F>)
    ensures
        consistent(TrackerView::<F>::initial()),
        consistent(tracker) ==> consistent(tracker.step(event).0),
{
}

/// An event that ends the frame, with an error or with a report, leaves no
/// frame in flight; an error leaves what the tracker held untouched, and so
/// does every action that is not a report.
pub proof fn lemma_frames_end_idle<F>(tracker: TrackerView<F>, event: EventView<F>)
    ensures
        tracker.step(event).1 is Err ==> tracker.step(event).0 == (TrackerView {
            tracking: tracker.tracking,
            stage: Stage::Idle,
        }),
        tracker.step(event).1 matches Ok(ActionView::Report(_)) ==> tracker.step(event).0.stage
            == Stage::Idle,
        tracker.step(event).1 matches Ok(action) && !(action is Report) ==> tracker.step(
            event,
        ).0.tracking == tracker.tracking,
{
}

/// Whenever a tracker is left in search mode it holds no points and no
/// previous frame.
pub proof fn lemma_search_holds_nothing<F>(tracker: TrackerView<F>, event: EventView<F>)
    ensures
        tracker.step(event).0.tracking.mode() == Mode::Search ==> {
            &&& tracker.step(event).0.tracking.points().len() == 0
            &&& tracker.step(event).0.tracking.previous() is None
        },
{
}

/// A search that locates no face leaves the tracker as it is at startup,
/// whatever it held: in search mode, with no points and no previous frame.
/// The frame is reported without points and without region.
pub proof fn lemma_no_face_clears<F>(tracker: TrackerView<F>, faces: Seq<Region>)
    requires
        tracker.stage == Stage::Locating,
        faces.len() == 0,
    ensures
        tracker.step(EventView::FacesLocated(faces)) == (
            TrackerView::<F>::initial(),
            Ok::<ActionView, TrackError>(ActionView::Report(ResultView::nothing())),
        ),
        tracker.step(EventView::FacesLocated(faces)).0.tracking.mode() == Mode::Search,
        tracker.step(EventView::FacesLocated(faces)).0.tracking.points().len() == 0,
        tracker.step(EventView::FacesLocated(faces)).0.tracking.previous() is None,
{
}

/// A search that locates a face and selects features on it leaves the
/// tracker in track mode with those features and the frame of the search,
/// and reports the largest face as the region.
pub proof fn lemma_face_is_acquired<F>(
    tracker: TrackerView<F>,
    faces: Seq<Region>,
    frame: F,
    points: Seq<Point>,
)
    requires
        tracker.stage == Stage::Locating,
        faces.len() > 0,
    ensures
        ({
            let (selecting, first) = tracker.step(EventView::FacesLocated(faces));
            let (after, second) = selecting.step(EventView::FeaturesSelected { frame, points });
            &&& first matches Ok(ActionView::SelectFeatures(face))
            &&& faces.contains(face)
            &&& after == (TrackerView {
                tracking: TrackingView::Track { points, previous: frame },
                stage: Stage::Idle,
            })
            &&& second == Ok::<ActionView, TrackError>(
                ActionView::Report(ResultView { points, region: Some(face), mode: Mode::Track }),
            )
        }),
{
    lemma_largest_face_exists(faces);
}

/// A motion estimate is accepted only if it has one moved point for each
/// point that was tracked, and the filter then leaves no more points than
/// were tracked. The points that are left are those reported, the frame of
/// the estimate is the one kept, and the tracker stays in track mode.
pub proof fn lemma_estimate_is_aligned<F>(
    tracker: TrackerView<F>,
    frame: F,
    moved: Seq<Point>,
    status: Seq<u8>,
    errors: Seq<Scalar>,
)
    ensures
        ({
            let before = tracker.tracking.points();
            let (after, outcome) = tracker.step(
                EventView::MotionEstimated { frame, moved, status, errors },
            );
            outcome is Ok ==> {
                &&& moved.len() == before.len()
                &&& after.tracking.points().len() <= before.len()
                &&& after.tracking.mode() == Mode::Track
                &&& after.tracking.previous() == Some(frame)
                &&& outcome matches Ok(ActionView::Report(result))
                &&& result.points == after.tracking.points()
                &&& result.mode == Mode::Track
            }
        }),
{
    lemma_track_points_len(moved, status, errors);
}

/// Re-acquisition: a tracker with no frame in flight that holds
/// [`REACQUIRE_THRESHOLD`] points or fewer, one fewer in particular, answers
/// a new frame with a search for faces, and refuses a motion estimate for
/// that frame. With more points it answers with motion estimation.
pub proof fn lemma_few_points_force_search<F>(
    tracker: TrackerView<F>,
    frame: F,
    moved: Seq<Point>,
    status: Seq<u8>,
    errors: Seq<Scalar>,
)
    requires
        tracker.stage == Stage::Idle,
    ensures
        tracker.tracking.points().len() <= REACQUIRE_THRESHOLD ==> {
            &&& tracker.step(EventView::FrameArrived).1 == Ok::<ActionView, TrackError>(
                ActionView::LocateFaces,
            )
            &&& tracker.step(EventView::FrameArrived).0.step(
                EventView::MotionEstimated { frame, moved, status, errors },
            ).1 == Err::<ActionView, TrackError>(TrackError::UnexpectedEvent)
        },
        tracker.tracking.points().len() > REACQUIRE_THRESHOLD ==> tracker.step(
            EventView::FrameArrived,
        ).1 == Ok::<ActionView, TrackError>(ActionView::EstimateMotion),
{
}

/// Frames without a face change nothing in a searching tracker: after any
/// number of them it is as it was at startup. A tracker that held few
/// points is in that state after the first of them.
pub proof fn lemma_search_without_face_is_idempotent<F>(tracker: TrackerView<F>, n: nat)
    requires
        tracker.stage == Stage::Idle,
        !tracker.tracking.follows(),
    ensures
        after_frames_without_face(TrackerView::<F>::initial(), n) == TrackerView::<F>::initial(),
        n > 0 ==> after_frames_without_face(tracker, n) == TrackerView::<F>::initial(),
        after_frame_without_face(after_frame_without_face(tracker)) == after_frame_without_face(
            tracker,
        ),
    decreases n,
{
    if n > 0 {
        lemma_search_without_face_is_idempotent(tracker, (n - 1) as nat);
    }
}

} // verus!
