use pastiche::common::{Color, Turn};
use pastiche::handoff::HandoffSlot;
use pastiche::plane::Plane;

fn canvas_of(v: u8) -> Plane<Color> {
    Plane::filled(3, 2, Color::new(v, v, v, 255)).unwrap()
}

#[test]
fn slot_starts_with_display_turn_and_initial_canvas() {
    let mut h = HandoffSlot::new(canvas_of(0));
    assert_eq!(h.turn(), Turn::WantDisplay);
    // The producer may not publish before the consumer took the initial canvas.
    assert!(!h.publish(1, &canvas_of(1)));
    let s = h.consume().unwrap();
    assert_eq!(s.frame, 0);
    assert_eq!(s.canvas.get(0, 0), Color::new(0, 0, 0, 255));
    assert_eq!(h.turn(), Turn::WantData);
    assert!(h.consume().is_none());
}

#[test]
fn fast_producer_frames_are_dropped_not_queued() {
    let mut h = HandoffSlot::new(canvas_of(0));
    let mut seen = vec![];
    seen.push(h.consume().unwrap().frame);
    // The producer runs three frames for each pick-up by the consumer.
    for frame in 1..=9u64 {
        let _ = h.publish(frame, &canvas_of(frame as u8));
        if frame % 3 == 0 {
            if let Some(s) = h.consume() {
                assert_eq!(s.canvas.get(2, 1), Color::new(s.frame as u8, s.frame as u8, s.frame as u8, 255));
                seen.push(s.frame);
            }
        }
    }
    assert_eq!(seen, vec![0, 1, 4, 7]);
}

#[test]
fn delivered_snapshot_is_one_whole_frame() {
    let mut h = HandoffSlot::new(canvas_of(0));
    h.consume();
    assert!(h.publish(5, &canvas_of(5)));
    assert!(!h.publish(6, &canvas_of(6)));
    let s = h.consume().unwrap();
    assert_eq!(s.frame, 5);
    assert!(s.canvas.cells().iter().all(|c| *c == Color::new(5, 5, 5, 255)));
    assert_eq!(h.latest().get(1, 1), Color::new(5, 5, 5, 255));
}

#[test]
fn consumer_copy_is_independent_of_later_publishes() {
    let mut h = HandoffSlot::new(canvas_of(0));
    let first = h.consume().unwrap();
    assert!(h.publish(1, &canvas_of(1)));
    assert_eq!(first.canvas.get(0, 0), Color::new(0, 0, 0, 255));
    assert_eq!(h.latest().get(0, 0), Color::new(1, 1, 1, 255));
}

#[test]
fn slot_survives_restart_with_repeated_frame_numbers() {
    let mut h = HandoffSlot::new(canvas_of(0));
    h.consume();
    assert!(h.publish(1, &canvas_of(10)));
    // A restarted run numbers its frames from 1 again.
    let s = h.consume().unwrap();
    assert!(h.publish(1, &canvas_of(20)));
    let t = h.consume().unwrap();
    assert_eq!((s.frame, t.frame), (1, 1));
    assert!(s.canvas.cells().iter().all(|c| *c == Color::new(10, 10, 10, 255)));
    assert!(t.canvas.cells().iter().all(|c| *c == Color::new(20, 20, 20, 255)));
}
