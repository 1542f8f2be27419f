use pastiche::common::{Color, Cursor};
use pastiche::engine::{
    CameraPoll, EngineConfig, FailReason, GrowthEngine, InitError, KernelOutput, RunState,
    ScriptedPoint, StopPoll,
};
use pastiche::plane::Plane;
use pastiche::random::{stream_value, RAND_PM_M};
use pastiche::supervisor::{RunExit, Supervisor};

fn red() -> Color {
    Color::new(255, 0, 0, 255)
}

fn blue() -> Color {
    Color::new(0, 0, 255, 255)
}

/// A 4x4 configuration with one seed at (2, 2) and no overlays.
fn quiet_config() -> EngineConfig {
    let mut c = EngineConfig::standard(4, 4);
    c.seeds = vec![(2, 2)];
    c.drop_every = 0;
    c.camera_every = 0;
    c
}

/// A subject that is blue everywhere but red at (2, 2).
fn subject_4x4() -> Plane<Color> {
    let mut cells = vec![blue(); 16];
    cells[2 * 4 + 2] = red();
    Plane::new(4, 4, cells).unwrap()
}

/// The kernel stub that returns its inputs unchanged.
fn identity_output(e: &GrowthEngine) -> KernelOutput {
    KernelOutput { canvas: e.canvas().cells().clone(), mask: e.mask().cells().clone() }
}

fn run_identity_frame(e: &mut GrowthEngine, cursor: Cursor, drop_at: (u32, u32)) -> RunState {
    assert_eq!(e.begin_frame(StopPoll::Idle, CameraPoll::Skipped, cursor), RunState::Running);
    let inputs = e.kernel_inputs(vec![0u32; 16], 5).unwrap();
    assert_eq!(inputs.rand.len(), 16);
    let out = identity_output(e);
    e.finish_frame(Some(out), drop_at)
}

#[test]
fn identity_frame_keeps_single_seed() {
    let mut e = GrowthEngine::start(quiet_config(), None, subject_4x4()).unwrap();
    let st = run_identity_frame(&mut e, Cursor::default(), (0, 0));
    assert_eq!(st, RunState::Running);
    assert_eq!(e.canvas().get(2, 2), red());
    assert!(e.mask().get(2, 2) != 0);
    for y in 0..4u32 {
        for x in 0..4u32 {
            if (x, y) != (2, 2) {
                assert_eq!(e.canvas().get(x, y), Color::white());
                assert_eq!(e.mask().get(x, y), 0);
            }
        }
    }
    assert_eq!(e.frame(), 1);
}

#[test]
fn cursor_paints_its_pixel() {
    let mut c = quiet_config();
    c.cursor_paint = true;
    let mut e = GrowthEngine::start(c, None, subject_4x4()).unwrap();
    let cursor = Cursor { enabled: true, pressed: true, x: 1, y: 1 };
    let st = run_identity_frame(&mut e, cursor, (0, 0));
    assert_eq!(st, RunState::Running);
    assert_eq!(e.canvas().get(1, 1), e.config().press_color);
    assert!(e.mask().get(1, 1) != 0);
}

#[test]
fn hovering_cursor_paints_hover_color() {
    let mut c = quiet_config();
    c.cursor_paint = true;
    c.hover_color = blue();
    let mut e = GrowthEngine::start(c, None, subject_4x4()).unwrap();
    let cursor = Cursor { enabled: true, pressed: false, x: 0, y: 3 };
    run_identity_frame(&mut e, cursor, (0, 0));
    assert_eq!(e.canvas().get(0, 3), blue());
    assert_eq!(e.mask().get(0, 3), 1);
}

#[test]
fn disabled_or_outside_cursor_paints_nothing() {
    let mut c = quiet_config();
    c.cursor_paint = true;
    let mut e = GrowthEngine::start(c, None, subject_4x4()).unwrap();
    run_identity_frame(&mut e, Cursor { enabled: false, pressed: true, x: 1, y: 1 }, (0, 0));
    assert_eq!(e.mask().get(1, 1), 0);
    run_identity_frame(&mut e, Cursor { enabled: true, pressed: true, x: 9, y: 1 }, (0, 0));
    assert_eq!(e.mask().cells().iter().filter(|v| **v != 0).count(), 1);
}

#[test]
fn stop_request_ends_run_and_releases_buffers() {
    let mut e = GrowthEngine::start(quiet_config(), None, subject_4x4()).unwrap();
    run_identity_frame(&mut e, Cursor::default(), (0, 0));
    let st = e.begin_frame(StopPoll::Requested, CameraPoll::Skipped, Cursor::default());
    assert_eq!(st, RunState::Stopped);
    assert_eq!(e.state(), RunState::Stopped);
    assert_eq!(e.canvas().cells().len(), 0);
    assert_eq!(e.mask().cells().len(), 0);
    assert_eq!(e.subject().cells().len(), 0);
    assert_eq!(RunExit::from_state(e.state()), Some(RunExit::Stopped));
    // A finished run ignores further frames.
    assert_eq!(e.finish_frame(None, (0, 0)), RunState::Stopped);
    assert!(e.kernel_inputs(vec![0u32; 16], 0).is_none());
}

#[test]
fn closed_stop_channel_ends_run() {
    let mut e = GrowthEngine::start(quiet_config(), None, subject_4x4()).unwrap();
    let st = e.begin_frame(StopPoll::Disconnected, CameraPoll::Disconnected, Cursor::default());
    assert_eq!(st, RunState::Stopped);
}

#[test]
fn camera_disconnect_fails_run_and_gets_one_restart() {
    let mut e = GrowthEngine::start(quiet_config(), None, subject_4x4()).unwrap();
    let st = e.begin_frame(StopPoll::Idle, CameraPoll::Disconnected, Cursor::default());
    assert_eq!(st, RunState::Failed(FailReason::CameraDisconnected));
    assert_eq!(e.canvas().cells().len(), 0);
    let exit = RunExit::from_state(st).unwrap();
    assert!(exit.is_failure());
    let mut sup = Supervisor::standard();
    let restart = sup.on_run_exit(exit);
    assert_eq!(sup.restarts(), 1);
    assert_eq!(restart.after_ms, 50);
    assert_eq!(restart.exit, RunExit::Failed(FailReason::CameraDisconnected));
}

#[test]
fn supervisor_restarts_after_every_exit() {
    let mut sup = Supervisor::new(7);
    for (n, exit) in [RunExit::Stopped, RunExit::Aborted, RunExit::Failed(FailReason::KernelFailed)]
        .iter()
        .enumerate()
    {
        let r = sup.on_run_exit(*exit);
        assert_eq!(r.after_ms, 7);
        assert_eq!(sup.restarts(), n as u64 + 1);
    }
    assert!(!RunExit::Stopped.is_failure());
    assert!(RunExit::Aborted.is_failure());
    assert_eq!(RunExit::from_state(RunState::Running), None);
}

#[test]
fn camera_frame_replaces_subject_wholesale() {
    let mut e = GrowthEngine::start(quiet_config(), None, subject_4x4()).unwrap();
    let fresh = Plane::filled(4, 4, Color::new(1, 2, 3, 255)).unwrap();
    let st = e.begin_frame(StopPoll::Idle, CameraPoll::Frame(fresh), Cursor::default());
    assert_eq!(st, RunState::Running);
    assert!(e.subject().cells().iter().all(|c| *c == Color::new(1, 2, 3, 255)));
    let st = e.begin_frame(StopPoll::Idle, CameraPoll::Empty, Cursor::default());
    assert_eq!(st, RunState::Running);
    assert_eq!(e.subject().get(0, 0), Color::new(1, 2, 3, 255));
}

#[test]
fn camera_frame_of_other_size_fails_run() {
    let mut e = GrowthEngine::start(quiet_config(), None, subject_4x4()).unwrap();
    let odd = Plane::filled(3, 4, red()).unwrap();
    let st = e.begin_frame(StopPoll::Idle, CameraPoll::Frame(odd), Cursor::default());
    assert_eq!(st, RunState::Failed(FailReason::SubjectMismatch));
}

#[test]
fn kernel_failure_fails_run() {
    let mut e = GrowthEngine::start(quiet_config(), None, subject_4x4()).unwrap();
    e.begin_frame(StopPoll::Idle, CameraPoll::Skipped, Cursor::default());
    assert_eq!(e.finish_frame(None, (0, 0)), RunState::Failed(FailReason::KernelFailed));
    assert_eq!(e.mask().cells().len(), 0);
}

#[test]
fn kernel_output_lowering_mask_is_rejected() {
    let mut e = GrowthEngine::start(quiet_config(), None, subject_4x4()).unwrap();
    e.begin_frame(StopPoll::Idle, CameraPoll::Skipped, Cursor::default());
    let mut out = identity_output(&e);
    out.mask[2 * 4 + 2] = 0;
    assert_eq!(
        e.finish_frame(Some(out), (0, 0)),
        RunState::Failed(FailReason::KernelOutputRejected)
    );
}

#[test]
fn kernel_output_of_wrong_size_is_rejected() {
    let mut e = GrowthEngine::start(quiet_config(), None, subject_4x4()).unwrap();
    e.begin_frame(StopPoll::Idle, CameraPoll::Skipped, Cursor::default());
    let mut out = identity_output(&e);
    out.canvas.pop();
    assert_eq!(
        e.finish_frame(Some(out), (0, 0)),
        RunState::Failed(FailReason::KernelOutputRejected)
    );
}

#[test]
fn kernel_growth_is_adopted_and_mask_never_drops() {
    let mut e = GrowthEngine::start(quiet_config(), None, subject_4x4()).unwrap();
    let mut previous = e.mask().cells().clone();
    for step in 0..5usize {
        e.begin_frame(StopPoll::Idle, CameraPoll::Skipped, Cursor::default());
        let mut out = identity_output(&e);
        // The kernel fills one more pixel per frame with the subject's color.
        out.mask[step] = 3;
        out.canvas[step] = red();
        assert_eq!(e.finish_frame(Some(out), (0, 0)), RunState::Running);
        let now = e.mask().cells().clone();
        for i in 0..16 {
            assert!(now[i] >= previous[i]);
        }
        assert_eq!(e.canvas().cells()[step], red());
        previous = now;
    }
    assert_eq!(e.frame(), 5);
}

#[test]
fn filled_pixels_never_show_background() {
    let mut c = quiet_config();
    c.drop_every = 1;
    let mut e = GrowthEngine::start(c, None, subject_4x4()).unwrap();
    for frame in 0..6u32 {
        run_identity_frame(&mut e, Cursor::default(), (frame % 4, frame / 4));
        let bg = e.config().background;
        for i in 0..16 {
            if e.mask().cells()[i] != 0 {
                assert!(e.canvas().cells()[i] != bg);
            }
        }
    }
}

#[test]
fn random_drop_stamps_next_unused_generation() {
    let mut c = quiet_config();
    c.seeds = vec![(2, 2), (0, 0)];
    c.drop_every = 2;
    let mut e = GrowthEngine::start(c, None, subject_4x4()).unwrap();
    assert_eq!(e.mask().get(2, 2), 1);
    assert_eq!(e.mask().get(0, 0), 2);
    // Frame 0 is on the cadence: the drop gets generation 3 and the subject's color.
    run_identity_frame(&mut e, Cursor::default(), (3, 1));
    assert_eq!(e.mask().get(3, 1), 3);
    assert_eq!(e.canvas().get(3, 1), blue());
    assert_eq!(e.last_drop(), 3);
    // Frame 1 is off the cadence.
    run_identity_frame(&mut e, Cursor::default(), (3, 2));
    assert_eq!(e.mask().get(3, 2), 0);
    // Frame 2: one above the largest generation present.
    run_identity_frame(&mut e, Cursor::default(), (3, 2));
    assert_eq!(e.mask().get(3, 2), 4);
    assert_eq!(e.last_drop(), 4);
}

#[test]
fn random_drops_stop_when_generations_run_out() {
    let mut c = quiet_config();
    c.drop_every = 1;
    let mut e = GrowthEngine::start(c, None, subject_4x4()).unwrap();
    e.begin_frame(StopPoll::Idle, CameraPoll::Skipped, Cursor::default());
    let mut out = identity_output(&e);
    out.mask[0] = 255;
    out.canvas[0] = red();
    e.finish_frame(Some(out), (1, 0));
    assert_eq!(e.mask().get(1, 0), 0);
    assert_eq!(e.last_drop(), 0);
}

#[test]
fn scripted_points_are_placed_on_their_frame() {
    let mut c = quiet_config();
    c.script = vec![
        ScriptedPoint { frame: 1, x: 0, y: 1, color: red() },
        ScriptedPoint { frame: 0, x: 3, y: 3, color: blue() },
        ScriptedPoint { frame: 0, x: 7, y: 3, color: blue() },
    ];
    let mut e = GrowthEngine::start(c, None, subject_4x4()).unwrap();
    run_identity_frame(&mut e, Cursor::default(), (0, 0));
    assert_eq!(e.canvas().get(3, 3), blue());
    assert_eq!(e.mask().get(3, 3), 1);
    assert_eq!(e.mask().get(0, 1), 0);
    run_identity_frame(&mut e, Cursor::default(), (0, 0));
    assert_eq!(e.canvas().get(0, 1), red());
    assert_eq!(e.mask().get(0, 1), 1);
}

#[test]
fn start_seeds_from_published_canvas() {
    let published = Plane::filled(4, 4, Color::new(9, 9, 9, 255)).unwrap();
    let e = GrowthEngine::start(quiet_config(), Some(&published), subject_4x4()).unwrap();
    assert_eq!(e.canvas().get(0, 0), Color::new(9, 9, 9, 255));
    assert_eq!(e.canvas().get(2, 2), red());
    assert_eq!(e.mask().get(2, 2), 1);
    assert_eq!(e.mask().get(0, 0), 0);
    // A published canvas of another size is not used.
    let small = Plane::filled(2, 2, Color::new(9, 9, 9, 255)).unwrap();
    let e = GrowthEngine::start(quiet_config(), Some(&small), subject_4x4()).unwrap();
    assert_eq!(e.canvas().get(0, 0), Color::white());
}

#[test]
fn start_reports_each_init_error() {
    let mut c = quiet_config();
    c.width = 0;
    assert_eq!(GrowthEngine::start(c, None, subject_4x4()).err(), Some(InitError::BadDimensions));
    let wrong = Plane::filled(4, 3, red()).unwrap();
    assert_eq!(
        GrowthEngine::start(quiet_config(), None, wrong).err(),
        Some(InitError::SubjectMismatch)
    );
    let mut c = quiet_config();
    c.seeds = vec![];
    assert_eq!(GrowthEngine::start(c, None, subject_4x4()).err(), Some(InitError::NoSeeds));
    let mut c = quiet_config();
    c.seeds = vec![(1, 1); 256];
    assert_eq!(GrowthEngine::start(c, None, subject_4x4()).err(), Some(InitError::TooManySeeds));
    let mut c = quiet_config();
    c.seeds = vec![(1, 1), (4, 0)];
    assert_eq!(GrowthEngine::start(c, None, subject_4x4()).err(), Some(InitError::SeedOutOfBounds));
}

#[test]
fn kernel_inputs_carry_cursor_time_and_stream() {
    let mut e = GrowthEngine::start(quiet_config(), None, subject_4x4()).unwrap();
    let cursor = Cursor { enabled: true, pressed: false, x: 3, y: 2 };
    e.begin_frame(StopPoll::Idle, CameraPoll::Skipped, cursor);
    let k = e.kernel_inputs((0..16).collect(), 1234).unwrap();
    assert_eq!(k.rand, (0..16).collect::<Vec<u32>>());
    assert_eq!(k.time_ms, 1234);
    assert_eq!(k.cursor_enabled, 1);
    assert_eq!(k.cursor_pressed, 0);
    assert_eq!(k.cursor_xy, (3, 2));
    let k = e.kernel_inputs(vec![0; 16], 0x1_0000_0005).unwrap();
    assert_eq!(k.time_ms, 5);
    assert_eq!(e.kernel_inputs(vec![0; 16], -3).unwrap().time_ms, 0);
    assert!(e.kernel_inputs(vec![0; 15], 0).is_none());
}

#[test]
fn engine_random_draws_fit_the_canvas() {
    let e = GrowthEngine::start(quiet_config(), None, subject_4x4()).unwrap();
    for _ in 0..50 {
        let (x, y) = e.drop_position();
        assert!(x < 4 && y < 4);
    }
    let s = e.random_stream();
    assert_eq!(s.len(), 16);
    assert!(s.iter().all(|v| *v < RAND_PM_M));
}

#[test]
fn camera_cadence_follows_frames() {
    let mut c = quiet_config();
    c.camera_every = 2;
    let mut e = GrowthEngine::start(c, None, subject_4x4()).unwrap();
    assert!(e.camera_due());
    run_identity_frame(&mut e, Cursor::default(), (0, 0));
    assert!(!e.camera_due());
    run_identity_frame(&mut e, Cursor::default(), (0, 0));
    assert!(e.camera_due());
    let never = GrowthEngine::start(quiet_config(), None, subject_4x4()).unwrap();
    assert!(!never.camera_due());
}

#[test]
fn standard_config_values() {
    let c = EngineConfig::standard(1000, 1000);
    assert_eq!(c.seeds, vec![(500, 500), (580, 500)]);
    assert_eq!(c.drop_every, 100);
    assert_eq!(c.camera_every, 10);
    assert_eq!(c.background, Color::white());
    assert!(!c.cursor_paint);
    let small = EngineConfig::standard(4, 4);
    assert_eq!(small.seeds, vec![(2, 2)]);
}

#[test]
fn stream_value_reduces_draws() {
    assert_eq!(stream_value(5), 5);
    assert_eq!(stream_value(RAND_PM_M), 0);
    assert_eq!(stream_value(u32::MAX), u32::MAX - 2 * RAND_PM_M);
    assert_eq!(stream_value(u32::MAX), 1);
}
