use face_tracker::geometry::{Point, Region};
use face_tracker::scalar::Scalar;
use face_tracker::tracker::{
    Action, Event, FaceTracker, Mode, Stage, TrackError, TrackResult, Tracking,
    REACQUIRE_THRESHOLD,
};

fn scalar(value: f32) -> Scalar {
    Scalar::from_bits(value.to_bits())
}

fn point(x: f32, y: f32) -> Point {
    Point { x: scalar(x), y: scalar(y) }
}

fn region(x: i32, y: i32, width: i32, height: i32) -> Region {
    Region { x, y, width, height }
}

/// `count` points inside the face (10, 10, 50, 50).
fn features(count: usize) -> Vec<Point> {
    (0..count).map(|i| point(12.5 + 5.0 * i as f32, 14.25 + 4.0 * i as f32)).collect()
}

fn shifted(points: &[Point], by: f32) -> Vec<Point> {
    points
        .iter()
        .map(|p| point(f32::from_bits(p.x.bits) + by, f32::from_bits(p.y.bits) + by))
        .collect()
}

fn report(outcome: Result<Action, TrackError>) -> TrackResult {
    match outcome {
        Ok(Action::Report(result)) => result,
        other => panic!("no report: {:?}", other),
    }
}

fn held<F>(tracker: &FaceTracker<F>) -> Vec<Point> {
    match tracker.tracking() {
        Tracking::Search => vec![],
        Tracking::Track { points, .. } => points.clone(),
    }
}

fn previous(tracker: &FaceTracker<u32>) -> Option<u32> {
    match tracker.tracking() {
        Tracking::Search => None,
        Tracking::Track { previous, .. } => Some(*previous),
    }
}

/// A tracker that has found `points` on the face (10, 10, 50, 50) in frame 1.
fn tracking(points: Vec<Point>) -> FaceTracker<u32> {
    let mut tracker = FaceTracker::new();
    assert!(matches!(tracker.process_frame(Event::FrameArrived), Ok(Action::LocateFaces)));
    let faces = vec![region(10, 10, 50, 50)];
    assert!(matches!(
        tracker.process_frame(Event::FacesLocated(faces)),
        Ok(Action::SelectFeatures(_))
    ));
    report(tracker.process_frame(Event::FeaturesSelected { frame: 1, points }));
    tracker
}

fn estimate(frame: u32, moved: Vec<Point>, status: Vec<u8>, errors: Vec<f32>) -> Event<u32> {
    Event::MotionEstimated {
        frame,
        moved,
        status,
        errors: errors.into_iter().map(scalar).collect(),
    }
}

#[test]
fn the_threshold_is_six() {
    assert_eq!(REACQUIRE_THRESHOLD, 6);
}

#[test]
fn a_new_tracker_searches() {
    let tracker: FaceTracker<u32> = FaceTracker::new();
    assert_eq!(tracker.mode(), Mode::Search);
    assert_eq!(tracker.stage(), Stage::Idle);
    assert_eq!(tracker.point_count(), 0);
    assert!(!tracker.follows());
    assert!(matches!(tracker.tracking(), Tracking::Search));
}

#[test]
fn the_first_frame_is_searched_for_faces() {
    let mut tracker: FaceTracker<u32> = FaceTracker::new();
    assert!(matches!(tracker.process_frame(Event::FrameArrived), Ok(Action::LocateFaces)));
    assert_eq!(tracker.stage(), Stage::Locating);
    assert_eq!(tracker.mode(), Mode::Search);
}

#[test]
fn a_face_with_eight_features_is_acquired() {
    let mut tracker: FaceTracker<u32> = FaceTracker::new();
    assert!(matches!(tracker.process_frame(Event::FrameArrived), Ok(Action::LocateFaces)));
    let face = region(10, 10, 50, 50);
    match tracker.process_frame(Event::FacesLocated(vec![face])) {
        Ok(Action::SelectFeatures(selected)) => assert_eq!(selected, face),
        other => panic!("no selection: {:?}", other),
    }
    assert_eq!(tracker.stage(), Stage::Selecting(face));
    let points = features(8);
    let result =
        report(tracker.process_frame(Event::FeaturesSelected { frame: 1, points: points.clone() }));
    assert_eq!(result.mode, Mode::Track);
    assert_eq!(result.region, Some(face));
    assert_eq!(result.points.len(), 8);
    assert_eq!(result.points, points);
    assert_eq!(tracker.mode(), Mode::Track);
    assert_eq!(tracker.stage(), Stage::Idle);
    assert_eq!(tracker.point_count(), 8);
    assert_eq!(held(&tracker), points);
    assert_eq!(previous(&tracker), Some(1));
    assert!(tracker.follows());
}

#[test]
fn features_are_selected_on_the_largest_face() {
    let mut tracker: FaceTracker<u32> = FaceTracker::new();
    tracker.process_frame(Event::FrameArrived).unwrap();
    let faces = vec![region(0, 0, 30, 30), region(10, 10, 50, 50), region(200, 5, 40, 40)];
    match tracker.process_frame(Event::FacesLocated(faces)) {
        Ok(Action::SelectFeatures(selected)) => assert_eq!(selected, region(10, 10, 50, 50)),
        other => panic!("no selection: {:?}", other),
    }
    let result =
        report(tracker.process_frame(Event::FeaturesSelected { frame: 1, points: features(8) }));
    assert_eq!(result.region, Some(region(10, 10, 50, 50)));
}

#[test]
fn five_of_eight_points_survive_the_estimate() {
    let points = features(8);
    let mut tracker = tracking(points.clone());
    assert!(matches!(tracker.process_frame(Event::FrameArrived), Ok(Action::EstimateMotion)));
    assert_eq!(tracker.stage(), Stage::Estimating);
    let moved = shifted(&points, 1.5);
    let status = vec![1, 1, 1, 1, 1, 0, 0, 0];
    let errors = vec![0.5, 1.0, 2.0, 3.0, 4.5, 30.0, 30.0, 30.0];
    let result = report(tracker.process_frame(estimate(2, moved.clone(), status, errors)));
    assert_eq!(result.points.len(), 5);
    assert_eq!(result.points, moved[..5].to_vec());
    assert_eq!(result.mode, Mode::Track);
    // Around (14, 15.75) .. (34, 31.75).
    assert_eq!(result.region, Some(region(14, 15, 21, 17)));
    assert_eq!(tracker.mode(), Mode::Track);
    assert_eq!(tracker.stage(), Stage::Idle);
    assert_eq!(held(&tracker), moved[..5].to_vec());
    assert_eq!(previous(&tracker), Some(2));
}

#[test]
fn with_five_points_the_face_is_searched_anew() {
    let mut tracker = tracking(features(5));
    assert_eq!(tracker.mode(), Mode::Track);
    assert_eq!(tracker.point_count(), REACQUIRE_THRESHOLD - 1);
    assert!(!tracker.follows());
    assert!(matches!(tracker.process_frame(Event::FrameArrived), Ok(Action::LocateFaces)));
}

#[test]
fn with_six_points_the_face_is_searched_anew() {
    let mut tracker = tracking(features(6));
    assert!(!tracker.follows());
    assert!(matches!(tracker.process_frame(Event::FrameArrived), Ok(Action::LocateFaces)));
}

#[test]
fn with_seven_points_the_motion_is_estimated() {
    let mut tracker = tracking(features(7));
    assert!(tracker.follows());
    assert!(matches!(tracker.process_frame(Event::FrameArrived), Ok(Action::EstimateMotion)));
}

#[test]
fn after_losing_points_the_face_is_searched_anew() {
    // Frame 2 leaves five of eight points.
    let points = features(8);
    let mut tracker = tracking(points.clone());
    tracker.process_frame(Event::FrameArrived).unwrap();
    let status = vec![1, 1, 1, 1, 1, 0, 0, 0];
    report(tracker.process_frame(estimate(2, shifted(&points, 1.0), status, vec![1.0; 8])));
    assert_eq!(tracker.point_count(), 5);
    assert_eq!(tracker.mode(), Mode::Track);
    // Frame 3 is searched, and a motion estimate is refused for it.
    assert!(matches!(tracker.process_frame(Event::FrameArrived), Ok(Action::LocateFaces)));
    let refused = tracker.process_frame(estimate(3, features(5), vec![1; 5], vec![1.0; 5]));
    assert!(matches!(refused, Err(TrackError::UnexpectedEvent)));
    assert_eq!(tracker.point_count(), 5);
    assert_eq!(previous(&tracker), Some(2));
}

#[test]
fn an_estimate_that_finds_nothing_leaves_no_points() {
    let points = features(7);
    let mut tracker = tracking(points.clone());
    assert!(matches!(tracker.process_frame(Event::FrameArrived), Ok(Action::EstimateMotion)));
    let result =
        report(tracker.process_frame(estimate(3, shifted(&points, 2.0), vec![0; 7], vec![0.5; 7])));
    assert_eq!(result.points, vec![]);
    assert_eq!(result.region, None);
    assert_eq!(result.mode, Mode::Track);
    assert_eq!(tracker.mode(), Mode::Track);
    assert_eq!(tracker.point_count(), 0);
    assert_eq!(previous(&tracker), Some(3));
    // Frame 4 has no points to go on: the face is searched anew.
    assert!(matches!(tracker.process_frame(Event::FrameArrived), Ok(Action::LocateFaces)));
    let result = report(tracker.process_frame(Event::FacesLocated(vec![])));
    assert_eq!(result.mode, Mode::Search);
    assert_eq!(tracker.mode(), Mode::Search);
}

#[test]
fn a_search_without_face_clears_the_tracker() {
    let mut tracker = tracking(features(4));
    assert_eq!(tracker.mode(), Mode::Track);
    assert_eq!(previous(&tracker), Some(1));
    assert!(matches!(tracker.process_frame(Event::FrameArrived), Ok(Action::LocateFaces)));
    let result = report(tracker.process_frame(Event::FacesLocated(vec![])));
    assert_eq!(result.points, vec![]);
    assert_eq!(result.region, None);
    assert_eq!(result.mode, Mode::Search);
    assert_eq!(tracker.mode(), Mode::Search);
    assert_eq!(tracker.stage(), Stage::Idle);
    assert_eq!(tracker.point_count(), 0);
    assert_eq!(held(&tracker), vec![]);
    assert_eq!(previous(&tracker), None);
    assert!(matches!(tracker.tracking(), Tracking::Search));
}

#[test]
fn frames_without_face_change_nothing() {
    let mut tracker: FaceTracker<u32> = FaceTracker::new();
    for _ in 0..5 {
        assert!(matches!(tracker.process_frame(Event::FrameArrived), Ok(Action::LocateFaces)));
        let result = report(tracker.process_frame(Event::FacesLocated(vec![])));
        assert_eq!(result.points, vec![]);
        assert_eq!(result.region, None);
        assert_eq!(result.mode, Mode::Search);
        assert_eq!(tracker.mode(), Mode::Search);
        assert_eq!(tracker.stage(), Stage::Idle);
        assert_eq!(tracker.point_count(), 0);
        assert!(matches!(tracker.tracking(), Tracking::Search));
    }
}

#[test]
fn a_face_without_features_is_tracked_with_no_points() {
    let mut tracker = tracking(vec![]);
    assert_eq!(tracker.mode(), Mode::Track);
    assert_eq!(tracker.point_count(), 0);
    assert_eq!(previous(&tracker), Some(1));
    assert!(matches!(tracker.process_frame(Event::FrameArrived), Ok(Action::LocateFaces)));
}

#[test]
fn a_face_found_again_replaces_what_was_held() {
    let mut tracker = tracking(features(3));
    tracker.process_frame(Event::FrameArrived).unwrap();
    let face = region(100, 80, 64, 64);
    tracker.process_frame(Event::FacesLocated(vec![face])).unwrap();
    let points = vec![point(110.0, 90.0), point(120.5, 100.5)];
    let result =
        report(tracker.process_frame(Event::FeaturesSelected { frame: 9, points: points.clone() }));
    assert_eq!(result.region, Some(face));
    assert_eq!(result.points, points);
    assert_eq!(held(&tracker), points);
    assert_eq!(previous(&tracker), Some(9));
}

#[test]
fn an_estimate_with_too_few_or_too_many_points_is_refused() {
    let points = features(8);
    for count in [0usize, 7, 9] {
        let mut tracker = tracking(points.clone());
        tracker.process_frame(Event::FrameArrived).unwrap();
        let refused = tracker.process_frame(estimate(
            2,
            features(count),
            vec![1; count],
            vec![1.0; count],
        ));
        assert!(matches!(refused, Err(TrackError::MisalignedEstimate)));
        assert_eq!(tracker.stage(), Stage::Idle);
        assert_eq!(held(&tracker), points);
        assert_eq!(previous(&tracker), Some(1));
    }
}

#[test]
fn an_estimate_with_too_few_flags_or_errors_is_refused() {
    let points = features(8);
    let mut tracker = tracking(points.clone());
    tracker.process_frame(Event::FrameArrived).unwrap();
    let refused = tracker.process_frame(estimate(2, features(8), vec![1; 7], vec![1.0; 8]));
    assert!(matches!(refused, Err(TrackError::MisalignedEstimate)));
    assert_eq!(held(&tracker), points);
    tracker.process_frame(Event::FrameArrived).unwrap();
    let refused = tracker.process_frame(estimate(2, features(8), vec![1; 8], vec![1.0; 9]));
    assert!(matches!(refused, Err(TrackError::MisalignedEstimate)));
    assert_eq!(held(&tracker), points);
    assert_eq!(previous(&tracker), Some(1));
}

#[test]
fn a_failed_collaborator_ends_the_frame_and_changes_nothing() {
    let points = features(8);
    let mut tracker = tracking(points.clone());
    assert!(matches!(tracker.process_frame(Event::FrameArrived), Ok(Action::EstimateMotion)));
    assert!(matches!(
        tracker.process_frame(Event::CollaboratorFailed),
        Err(TrackError::CollaboratorFailed)
    ));
    assert_eq!(tracker.stage(), Stage::Idle);
    assert_eq!(tracker.mode(), Mode::Track);
    assert_eq!(held(&tracker), points);
    assert_eq!(previous(&tracker), Some(1));
    // The next frame is worked on as if the failed one had not been.
    assert!(matches!(tracker.process_frame(Event::FrameArrived), Ok(Action::EstimateMotion)));
}

#[test]
fn a_failed_search_keeps_what_was_held() {
    let points = features(4);
    let mut tracker = tracking(points.clone());
    tracker.process_frame(Event::FrameArrived).unwrap();
    tracker.process_frame(Event::FacesLocated(vec![region(1, 2, 30, 30)])).unwrap();
    assert!(matches!(
        tracker.process_frame(Event::CollaboratorFailed),
        Err(TrackError::CollaboratorFailed)
    ));
    assert_eq!(tracker.stage(), Stage::Idle);
    assert_eq!(held(&tracker), points);
    assert_eq!(previous(&tracker), Some(1));
}

#[test]
fn an_event_out_of_turn_ends_the_frame() {
    let mut tracker: FaceTracker<u32> = FaceTracker::new();
    // Nothing was asked for yet.
    assert!(matches!(
        tracker.process_frame(Event::FacesLocated(vec![region(0, 0, 40, 40)])),
        Err(TrackError::UnexpectedEvent)
    ));
    assert!(matches!(
        tracker.process_frame(Event::FeaturesSelected { frame: 1, points: features(8) }),
        Err(TrackError::UnexpectedEvent)
    ));
    assert!(matches!(
        tracker.process_frame(estimate(1, vec![], vec![], vec![])),
        Err(TrackError::UnexpectedEvent)
    ));
    assert_eq!(tracker.mode(), Mode::Search);
    // Faces were asked for, features come.
    tracker.process_frame(Event::FrameArrived).unwrap();
    assert!(matches!(
        tracker.process_frame(Event::FeaturesSelected { frame: 1, points: features(8) }),
        Err(TrackError::UnexpectedEvent)
    ));
    assert_eq!(tracker.stage(), Stage::Idle);
    assert_eq!(tracker.mode(), Mode::Search);
    // A second frame arrives while the first is in flight.
    tracker.process_frame(Event::FrameArrived).unwrap();
    assert!(matches!(
        tracker.process_frame(Event::FrameArrived),
        Err(TrackError::UnexpectedEvent)
    ));
    assert_eq!(tracker.stage(), Stage::Idle);
    assert!(matches!(tracker.process_frame(Event::FrameArrived), Ok(Action::LocateFaces)));
}

#[test]
fn faces_are_refused_while_motion_is_estimated() {
    let points = features(8);
    let mut tracker = tracking(points.clone());
    assert!(matches!(tracker.process_frame(Event::FrameArrived), Ok(Action::EstimateMotion)));
    assert!(matches!(
        tracker.process_frame(Event::FacesLocated(vec![])),
        Err(TrackError::UnexpectedEvent)
    ));
    assert_eq!(tracker.mode(), Mode::Track);
    assert_eq!(held(&tracker), points);
}

#[test]
fn the_region_around_followed_points_is_reported() {
    let points = vec![
        point(20.0, 20.0),
        point(30.0, 20.0),
        point(40.0, 20.0),
        point(20.0, 30.0),
        point(30.0, 30.0),
        point(40.0, 30.0),
        point(20.0, 40.0),
        point(30.0, 40.0),
        point(40.0, 40.0),
    ];
    let mut tracker = tracking(points.clone());
    tracker.process_frame(Event::FrameArrived).unwrap();
    let moved = shifted(&points, 0.75);
    let result =
        report(tracker.process_frame(estimate(2, moved.clone(), vec![1; 9], vec![0.25; 9])));
    assert_eq!(result.points, moved);
    assert_eq!(result.region, Some(region(20, 20, 21, 21)));
    // The next frame follows the moved points.
    assert!(matches!(tracker.process_frame(Event::FrameArrived), Ok(Action::EstimateMotion)));
    let again = shifted(&moved, -3.0);
    let mut status = vec![1; 9];
    status[0] = 0;
    let result =
        report(tracker.process_frame(estimate(3, again.clone(), status, vec![0.25; 9])));
    assert_eq!(result.points, again[1..].to_vec());
    assert_eq!(result.region, Some(region(17, 17, 21, 21)));
    assert_eq!(previous(&tracker), Some(3));
}

#[test]
fn frames_of_any_type_are_carried() {
    let mut tracker: FaceTracker<Vec<u8>> = FaceTracker::new();
    tracker.process_frame(Event::FrameArrived).unwrap();
    tracker.process_frame(Event::FacesLocated(vec![region(0, 0, 40, 40)])).unwrap();
    let frame = vec![7u8, 8, 9];
    tracker
        .process_frame(Event::FeaturesSelected { frame: frame.clone(), points: features(8) })
        .unwrap();
    match tracker.tracking() {
        Tracking::Track { previous, .. } => assert_eq!(*previous, frame),
        Tracking::Search => panic!("nothing is tracked"),
    }
}
