use rustchess::store::EngineSide;
use rustchess::types::Color;

#[test]
fn engine_side_coverage() {
    assert!(EngineSide::White.covers(Color::White));
    assert!(!EngineSide::White.covers(Color::Black));
    assert!(EngineSide::Black.covers(Color::Black));
    assert!(!EngineSide::Black.covers(Color::White));
    assert!(EngineSide::Both.covers(Color::White));
    assert!(EngineSide::Both.covers(Color::Black));
}
