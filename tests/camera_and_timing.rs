use pastiche::camera::{cam_loop_continues, convert, CamSend};
use pastiche::common::{Color, Cursor};
use pastiche::tracer::{duration_millis, millis_from_parts, TimeTracer};
use std::time::Duration;

#[test]
fn convert_makes_rgb_frame_opaque() {
    let rgb = vec![10u8, 20, 30, 40, 50, 60];
    let p = convert(2, 1, rgb).unwrap();
    assert_eq!(p.width(), 2);
    assert_eq!(p.get(0, 0), Color::new(10, 20, 30, 255));
    assert_eq!(p.get(1, 0), Color::new(40, 50, 60, 255));
}

#[test]
fn convert_rejects_short_buffer_and_ignores_extra_bytes() {
    assert!(convert(2, 1, vec![1u8; 5]).is_none());
    let p = convert(1, 1, vec![7u8, 8, 9, 99]).unwrap();
    assert_eq!(p.cells(), &vec![Color::new(7, 8, 9, 255)]);
}

#[test]
fn camera_loop_stops_only_on_disconnect() {
    assert!(cam_loop_continues(CamSend::Sent));
    assert!(cam_loop_continues(CamSend::Full));
    assert!(!cam_loop_continues(CamSend::Disconnected));
}

#[test]
fn millis_of_parts() {
    assert_eq!(millis_from_parts(0, 0), 0);
    assert_eq!(millis_from_parts(2, 345_678_901), 2345);
    assert_eq!(millis_from_parts(0, 999_999_999), 999);
    assert_eq!(millis_from_parts(u64::MAX, 0), i64::MAX);
}

#[test]
fn duration_millis_of_durations() {
    assert_eq!(duration_millis(&Duration::from_millis(1500)), 1500);
    assert_eq!(duration_millis(&Duration::new(3, 7_000_000)), 3007);
    assert_eq!(duration_millis(&Duration::from_micros(999)), 0);
}

#[test]
fn tracer_reports_closed_stages() {
    let mut t = TimeTracer::new("frame");
    let closed = t.stage("cam");
    assert_eq!(closed.label, "frame");
    assert_eq!(closed.stage, "init");
    let closed = t.stage("kernel");
    assert_eq!(closed.stage, "cam");
    let report = t.finish();
    assert_eq!(report.label, "frame");
    let last = report.last_stage.unwrap();
    assert_eq!(last.stage, "kernel");
    assert!(report.total >= last.elapsed);
}

#[test]
fn tracer_without_stages_reports_total_only() {
    let report = TimeTracer::new("setup").finish();
    assert_eq!(report.label, "setup");
    assert!(report.last_stage.is_none());
}

#[test]
fn cursor_default_is_disabled_at_origin() {
    let c = Cursor::default();
    assert_eq!(c, Cursor { enabled: false, x: 0, y: 0, pressed: false });
}
