use blitz_integration::change_detection::EcsChangeDetector;

#[test]
fn test_change_detection() {
    // A fresh world is at change tick 1; the component and resource are not
    // registered with it yet.
    let mut detector = EcsChangeDetector::new();
    detector.track_component(None);
    detector.track_resource(None);
    assert!(!detector.check_changes(1));
}

#[test]
fn later_tick_is_a_change() {
    let mut detector = EcsChangeDetector::default();
    assert!(!detector.check_changes(5));
    assert!(!detector.check_changes(5));
    assert!(detector.check_changes(6));
    assert!(!detector.check_changes(6));
    detector.reset(9);
    assert!(!detector.check_changes(9));
    assert!(detector.check_changes(3));
}

#[test]
fn tracking_known_ids() {
    let mut detector = EcsChangeDetector::new();
    detector.track_component(Some(3));
    detector.track_resource(Some(4));
    assert!(!detector.check_changes(2));
}
