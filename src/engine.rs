//! The growth engine: one run of the frame loop as a state machine.
//!
//! A run starts (`GrowthEngine::start`), then each frame is driven by the
//! caller in a fixed order: `begin_frame` (stop check, cursor snapshot,
//! camera check), `kernel_inputs`, the kernel invocation (the caller's),
//! `finish_frame` (adoption of the kernel's buffers, overlays), and the
//! publication of `canvas()` at the handoff slot.
//!
//! The mask holds generations: 0 for an empty pixel, and a value that never
//! goes down once a pixel is filled. Seeds get generations 1, 2, ... in
//! order; each random drop gets the next unused generation, one above every
//! value present; scripted points and cursor paint mark their pixel filled
//! with at least 1.

use vstd::prelude::*;
use crate::common::{Color, Cursor};
use crate::plane::{cell_at, lemma_cell_in_plane, Plane, PlaneView};
use crate::random::{random_position, random_stream, RAND_PM_M};

verus! {

/// Largest mask value; generations of random drops never exceed it.
pub const MASK_MAX: u8 = 255;

/// Why a run ended in `Failed`.
#[derive(Clone, Copy, Debug, PartialEq, Eq, Structural)]
pub enum FailReason {
    /// The camera channel closed for good.
    CameraDisconnected,
    /// A camera frame did not have the canvas dimensions.
    SubjectMismatch,
    /// The accelerator reported an error for this frame.
    KernelFailed,
    /// The kernel returned buffers of the wrong size, or lowered a mask value.
    KernelOutputRejected,
}

/// Where a run stands.
#[derive(Clone, Copy, Debug, PartialEq, Eq, Structural)]
pub enum RunState {
    Running,
    Stopped,
    Failed(FailReason),
}

/// Why a run could not start.
#[derive(Clone, Copy, Debug, PartialEq, Eq, Structural)]
pub enum InitError {
    /// A dimension is zero, or the pixel count does not fit in memory indices.
    BadDimensions,
    /// The subject does not have the canvas dimensions.
    SubjectMismatch,
    /// No seed pixel was configured: the kernel would see an empty frontier.
    NoSeeds,
    /// More seed pixels than distinct mask generations.
    TooManySeeds,
    /// A seed pixel lies outside the canvas.
    SeedOutOfBounds,
}

/// What the non-blocking check of the stop channel found.
#[derive(Clone, Copy, Debug, PartialEq, Eq, Structural)]
pub enum StopPoll {
    Idle,
    Requested,
    Disconnected,
}

/// What the check of the camera channel found this frame.
pub enum CameraPoll {
    /// The camera was not due this frame.
    Skipped,
    Empty,
    Frame(Plane<Color>),
    Disconnected,
}

/// A point of the scripted placement pattern: on frame `frame`, paint (x, y).
#[derive(Clone, Copy, Debug, PartialEq, Eq, Structural)]
pub struct ScriptedPoint {
    pub frame: u64,
    pub x: u32,
    pub y: u32,
    pub color: Color,
}

/// The settings of one engine run, chosen at its start.
#[derive(Clone, Debug)]
pub struct EngineConfig {
    pub width: u32,
    pub height: u32,
    /// The uniform color of a canvas that has nothing published to start from.
    pub background: Color,
    /// Pixels seeded at start with the subject's color, in order, with mask
    /// generations 1, 2, ...
    pub seeds: Vec<(u32, u32)>,
    /// Scripted placements (overlay a).
    pub script: Vec<ScriptedPoint>,
    /// Random drops every this many frames (overlay b); 0 disables them.
    pub drop_every: u64,
    /// The camera is polled every this many frames; 0 never polls it.
    pub camera_every: u64,
    /// Whether the cursor paints its pixel after each frame (overlay c).
    pub cursor_paint: bool,
    /// Paint of a pressed cursor.
    pub press_color: Color,
    /// Paint of an enabled cursor that is not pressed.
    pub hover_color: Color,
}

/// Offset to the right of the canvas center of the second standard seed.
pub const SEED_OFFSET: u32 = 80;

/// Standard cadence of random drops, in frames.
pub const DROP_EVERY: u64 = 100;

/// Standard cadence of camera polls, in frames.
pub const CAMERA_EVERY: u64 = 10;

impl EngineConfig {
    /// The standard settings for a width-by-height canvas: white background;
    /// a seed at the center and, when it fits, one `SEED_OFFSET` pixels to its
    /// right; no script; a random drop every `DROP_EVERY` frames; the camera
    /// polled every `CAMERA_EVERY` frames; no cursor paint (white when
    /// pressed, black otherwise, if it is turned on).
    pub fn standard(width: u32, height: u32) -> (c: EngineConfig)
        ensures
            c.width == width,
            c.height == height,
            c.background == (Color { r: 255, g: 255, b: 255, a: 255 }),
            c.seeds@ == if width / 2 + SEED_OFFSET < width {
                seq![(width / 2, height / 2), ((width / 2 + SEED_OFFSET) as u32, height / 2)]
            } else {
                seq![(width / 2, height / 2)]
            },
            c.script@.len() == 0,
            c.drop_every == DROP_EVERY,
            c.camera_every == CAMERA_EVERY,
            !c.cursor_paint,
            c.press_color == (Color { r: 255, g: 255, b: 255, a: 255 }),
            c.hover_color == (Color { r: 0, g: 0, b: 0, a: 255 }),
    {
        let cx = width / 2;
        let cy = height / 2;
        let mut seeds: Vec<(u32, u32)> = Vec::new();
        seeds.push((cx, cy));
        if (cx as u64 + SEED_OFFSET as u64) < width as u64 {
            seeds.push((cx + SEED_OFFSET, cy));
        }
        EngineConfig {
            width,
            height,
            background: Color::white(),
            seeds,
            script: Vec::new(),
            drop_every: DROP_EVERY,
            camera_every: CAMERA_EVERY,
            cursor_paint: false,
            press_color: Color::white(),
            hover_color: Color::black(),
        }
    }
}

/// The output buffers of one kernel invocation, in row-major order.
pub struct KernelOutput {
    pub canvas: Vec<Color>,
    pub mask: Vec<u8>,
}

/// The scalar and buffer arguments bound to the kernel for one frame, besides
/// the canvas, mask and subject images.
pub struct KernelInputs {
    pub rand: Vec<u32>,
    pub time_ms: u32,
    pub cursor_enabled: u32,
    pub cursor_pressed: u32,
    pub cursor_xy: (u32, u32),
}

/// The engine as the contracts see it.
pub struct EngineModel {
    pub config: EngineConfig,
    pub canvas: Seq<Color>,
    pub mask: Seq<u8>,
    pub subject: Seq<Color>,
    /// The cursor snapshot taken for the frame in flight.
    pub cursor: Cursor,
    /// Frames completed in this run.
    pub frame: nat,
    /// Mask generation of the latest random drop; 0 before the first.
    pub last_drop: nat,
    pub state: RunState,
}

impl EngineModel {
    pub open spec fn width(self) -> nat {
        self.config.width as nat
    }

    pub open spec fn height(self) -> nat {
        self.config.height as nat
    }

    pub open spec fn pixel_count(self) -> nat {
        self.width() * self.height()
    }

    pub open spec fn in_bounds(self, x: int, y: int) -> bool {
        0 <= x < self.width() && 0 <= y < self.height()
    }

    pub open spec fn index(self, x: int, y: int) -> int {
        cell_at(self.width(), x, y)
    }

    /// A running engine holds three full buffers; a finished one holds none.
    pub open spec fn wf(self) -> bool {
        &&& self.width() > 0
        &&& self.height() > 0
        &&& self.pixel_count() <= usize::MAX
        &&& self.last_drop <= MASK_MAX
        &&& self.frame <= u64::MAX
        &&& if self.state is Running {
            &&& self.canvas.len() == self.pixel_count()
            &&& self.mask.len() == self.pixel_count()
            &&& self.subject.len() == self.pixel_count()
        } else {
            &&& self.canvas.len() == 0
            &&& self.mask.len() == 0
            &&& self.subject.len() == 0
        }
    }
}

pub open spec fn max_u8(a: u8, b: u8) -> u8 {
    if a >= b {
        a
    } else {
        b
    }
}

/// Largest value of a mask; 0 for an empty one.
pub open spec fn mask_max(s: Seq<u8>) -> nat
    decreases s.len(),
{
    if s.len() == 0 {
        0
    } else {
        let m = mask_max(s.drop_last());
        if s.last() as nat > m {
            s.last() as nat
        } else {
            m
        }
    }
}

/// Ends the run in `st`; the buffers are dropped.
pub open spec fn released(m: EngineModel, st: RunState) -> EngineModel {
    EngineModel { canvas: Seq::empty(), mask: Seq::empty(), subject: Seq::empty(), state: st, ..m }
}

/// Paints (x, y) with `color` and raises its mask value to at least `value`:
/// canvas and mask change together, and no mask value goes down.
pub open spec fn place(m: EngineModel, x: int, y: int, color: Color, value: u8) -> EngineModel {
    let i = m.index(x, y);
    EngineModel {
        canvas: m.canvas.update(i, color),
        mask: m.mask.update(i, max_u8(m.mask[i], value)),
        ..m
    }
}

/// The engine after the first `k` seeds of its configuration were placed.
pub open spec fn seeded(m: EngineModel, k: nat) -> EngineModel
    decreases k,
{
    if k == 0 {
        m
    } else {
        let prev = seeded(m, (k - 1) as nat);
        let (x, y) = m.config.seeds[k - 1];
        place(prev, x as int, y as int, m.subject[m.index(x as int, y as int)], k as u8)
    }
}

/// The canvas a run starts from: the published one when it has the configured
/// dimensions, else the background.
pub open spec fn initial_canvas(config: EngineConfig, published: Option<PlaneView<Color>>) -> Seq<
    Color,
> {
    match published {
        Some(p) => if p.width == config.width && p.height == config.height {
            p.cells
        } else {
            Seq::new((config.width * config.height) as nat, |i: int| config.background)
        },
        None => Seq::new((config.width * config.height) as nat, |i: int| config.background),
    }
}

pub open spec fn seed_in_bounds(config: EngineConfig, seed: (u32, u32)) -> bool {
    seed.0 < config.width && seed.1 < config.height
}

/// Why a run with this configuration and subject cannot start, if it cannot.
pub open spec fn start_error(config: EngineConfig, subject: PlaneView<Color>) -> Option<InitError> {
    if config.width == 0 || config.height == 0 || config.width * config.height > usize::MAX {
        Some(InitError::BadDimensions)
    } else if subject.width != config.width || subject.height != config.height {
        Some(InitError::SubjectMismatch)
    } else if config.seeds.len() == 0 {
        Some(InitError::NoSeeds)
    } else if config.seeds.len() > MASK_MAX {
        Some(InitError::TooManySeeds)
    } else if exists|k: int|
        0 <= k < config.seeds.len() && !seed_in_bounds(config, #[trigger] config.seeds@[k]) {
        Some(InitError::SeedOutOfBounds)
    } else {
        None
    }
}

/// The engine right after a successful start: seeds placed, nothing run yet.
pub open spec fn initial_model(
    config: EngineConfig,
    published: Option<PlaneView<Color>>,
    subject: PlaneView<Color>,
) -> EngineModel {
    let n = (config.width * config.height) as nat;
    let blank = EngineModel {
        config,
        canvas: initial_canvas(config, published),
        mask: Seq::new(n, |i: int| 0u8),
        subject: subject.cells,
        cursor: Cursor { enabled: false, x: 0, y: 0, pressed: false },
        frame: 0,
        last_drop: 0,
        state: RunState::Running,
    };
    seeded(blank, config.seeds.len() as nat)
}

} // verus!

verus! {

pub open spec fn published_view(published: Option<&Plane<Color>>) -> Option<PlaneView<Color>> {
    match published {
        Some(p) => Some(p@),
        None => None,
    }
}

/// One run of the growth simulation: the canvas, its mask of filled pixels,
/// the subject sampled for colors, and where the run stands.
pub struct GrowthEngine {
    config: EngineConfig,
    canvas: Plane<Color>,
    mask: Plane<u8>,
    subject: Plane<Color>,
    cursor: Cursor,
    frame: u64,
    last_drop: u8,
    state: RunState,
}

impl View for GrowthEngine {
    type V = EngineModel;

    closed spec fn view(&self) -> EngineModel {
        EngineModel {
            config: self.config,
            canvas: self.canvas@.cells,
            mask: self.mask@.cells,
            subject: self.subject@.cells,
            cursor: self.cursor,
            frame: self.frame as nat,
            last_drop: self.last_drop as nat,
            state: self.state,
        }
    }
}

impl GrowthEngine {
    /// The engine's model is well formed and, while running, its three planes
    /// have the configured dimensions.
    pub closed spec fn wf(&self) -> bool {
        &&& self@.wf()
        &&& self.canvas@.wf()
        &&& self.mask@.wf()
        &&& self.subject@.wf()
        &&& self.state is Running ==> {
            &&& self.canvas@.width == self.config.width
            &&& self.canvas@.height == self.config.height
            &&& self.mask@.width == self.config.width
            &&& self.mask@.height == self.config.height
            &&& self.subject@.width == self.config.width
            &&& self.subject@.height == self.config.height
        }
    }

    /// Initializing: builds the canvas from the published one (or the
    /// background), an all-zero mask, and places the seeds with the subject's
    /// colors, so that the first frame never sees an empty frontier.
    pub fn start(config: EngineConfig, published: Option<&Plane<Color>>, subject: Plane<Color>) -> (r:
        Result<GrowthEngine, InitError>)
        ensures
            match start_error(config, subject@) {
                Some(e) => r == Err::<GrowthEngine, InitError>(e),
                None => r matches Ok(g) && g.wf() && g@.wf() && g@ == initial_model(
                    config,
                    published_view(published),
                    subject@,
                ),
            },
    {
        if config.width == 0 || config.height == 0 {
            return Err(InitError::BadDimensions);
        }
        let blank = match Plane::filled(config.width, config.height, config.background) {
            Some(p) => p,
            None => {
                return Err(InitError::BadDimensions);
            },
        };
        if subject.width() != config.width || subject.height() != config.height {
            return Err(InitError::SubjectMismatch);
        }
        let nseeds = config.seeds.len();
        if nseeds == 0 {
            return Err(InitError::NoSeeds);
        }
        if nseeds > MASK_MAX as usize {
            return Err(InitError::TooManySeeds);
        }
        let mut k: usize = 0;
        while k < nseeds
            invariant
                k <= nseeds,
                nseeds == config.seeds@.len(),
                0 < nseeds <= MASK_MAX,
                config.width > 0,
                config.height > 0,
                config.width * config.height <= usize::MAX,
                subject@.width == config.width,
                subject@.height == config.height,
                forall|j: int| 0 <= j < k ==> seed_in_bounds(config, #[trigger] config.seeds@[j]),
            decreases nseeds - k,
        {
            let (x, y) = config.seeds[k];
            if !(x < config.width && y < config.height) {
                assert(!seed_in_bounds(config, config.seeds@[k as int]));


                return Err(InitError::SeedOutOfBounds);
            }
            k = k + 1;
        }
        let canvas = match published {
            Some(p) => {
                if p.width() == config.width && p.height() == config.height {
                    p.duplicate()
                } else {
                    blank
                }
            },
            None => blank,
        };
        let mask = match Plane::filled(config.width, config.height, 0u8) {
            Some(p) => p,
            None => {
                return Err(InitError::BadDimensions);
            },
        };
        let n = subject.cell_count();
        // Reading the cell count brings the plane's invariant into the proof.
        canvas.cell_count();
        let mut engine = GrowthEngine {
            config,
            canvas,
            mask,
            subject,
            cursor: Cursor { enabled: false, x: 0, y: 0, pressed: false },
            frame: 0,
            last_drop: 0,
            state: RunState::Running,
        };
        let ghost start = engine@;
        let mut k: usize = 0;
        while k < nseeds
            invariant
                k <= nseeds,
                nseeds == engine.config.seeds@.len(),
                engine.config == config,
                engine.wf(),
                engine@.state is Running,
                engine@ == seeded(start, k as nat),
                start.config == config,
                start.subject == engine@.subject,
                nseeds <= MASK_MAX,
                forall|j: int| 0 <= j < nseeds ==> seed_in_bounds(config, #[trigger] config.seeds@[j]),
            decreases nseeds - k,
        {
            let (x, y) = engine.config.seeds[k];
            assert(seed_in_bounds(config, config.seeds@[k as int]));
            let c = engine.subject.get(x, y);
            engine.place_pixel(x, y, c, (k + 1) as u8);
            k = k + 1;
        }
        Ok(engine)
    }

    /// Paints (x, y) and raises its mask value to at least `value`, together.
    fn place_pixel(&mut self, x: u32, y: u32, color: Color, value: u8)
        requires
            old(self).wf(),
            old(self)@.state is Running,
            old(self)@.in_bounds(x as int, y as int),
        ensures
            final(self).wf(),
            final(self)@ == place(old(self)@, x as int, y as int, color, value),
    {
        proof {
            lemma_cell_in_plane(self@.width(), self@.height(), x as int, y as int);
        }
        let cur = self.mask.get(x, y);
        let v = if cur >= value {
            cur
        } else {
            value
        };
        self.canvas.set(x, y, color);
        self.mask.set(x, y, v);
    }
}

} // verus!

verus! {

/// Whether a cadence of `every` frames falls on `frame`; a cadence of 0 never does.
pub open spec fn due(frame: nat, every: u64) -> bool {
    every > 0 && frame % (every as nat) == 0
}

/// Steps 1 and 2 of a frame: the stop check, the cursor snapshot, and the
/// camera check.
pub open spec fn begin_frame_model(
    m: EngineModel,
    stop: StopPoll,
    camera: CameraPoll,
    cursor: Cursor,
) -> EngineModel {
    if !(m.state is Running) {
        m
    } else if !(stop is Idle) {
        released(m, RunState::Stopped)
    } else {
        let m1 = EngineModel { cursor, ..m };
        match camera {
            CameraPoll::Disconnected => released(
                m1,
                RunState::Failed(FailReason::CameraDisconnected),
            ),
            CameraPoll::Frame(p) => if p@.width == m.width() && p@.height == m.height() {
                EngineModel { subject: p@.cells, ..m1 }
            } else {
                released(m1, RunState::Failed(FailReason::SubjectMismatch))
            },
            _ => m1,
        }
    }
}

/// The engine after the scripted points among the first `k` that fall on
/// this frame and inside the canvas were placed, with mask value 1.
pub open spec fn scripted(m: EngineModel, k: nat) -> EngineModel
    decreases k,
{
    if k == 0 {
        m
    } else {
        let prev = scripted(m, (k - 1) as nat);
        let p = m.config.script[k - 1];
        if p.frame == m.frame && m.in_bounds(p.x as int, p.y as int) {
            place(prev, p.x as int, p.y as int, p.color, 1)
        } else {
            prev
        }
    }
}

/// The next unused mask generation: one above every mask value and every
/// earlier drop.
pub open spec fn next_generation(m: EngineModel) -> nat {
    (if m.last_drop > mask_max(m.mask) {
        m.last_drop
    } else {
        mask_max(m.mask)
    }) + 1
}

/// Whether the random drop of this frame happens at `at`.
pub open spec fn drop_happens(m: EngineModel, at: (u32, u32)) -> bool {
    &&& due(m.frame, m.config.drop_every)
    &&& m.in_bounds(at.0 as int, at.1 as int)
    &&& next_generation(m) <= MASK_MAX
}

/// Overlay b: on its cadence, stamps `at` with the subject's color there and
/// the next unused generation. Once the generations run out, no drop happens.
pub open spec fn dropped(m: EngineModel, at: (u32, u32)) -> EngineModel {
    if drop_happens(m, at) {
        let g = next_generation(m);
        let x = at.0 as int;
        let y = at.1 as int;
        EngineModel { last_drop: g, ..place(m, x, y, m.subject[m.index(x, y)], g as u8) }
    } else {
        m
    }
}

/// The paint of the frame's cursor snapshot.
pub open spec fn cursor_color(m: EngineModel) -> Color {
    if m.cursor.pressed {
        m.config.press_color
    } else {
        m.config.hover_color
    }
}

/// Overlay c: an enabled cursor inside the canvas paints its pixel.
pub open spec fn cursor_painted(m: EngineModel) -> EngineModel {
    let c = m.cursor;
    if m.config.cursor_paint && c.enabled && m.in_bounds(c.x as int, c.y as int) {
        place(m, c.x as int, c.y as int, cursor_color(m), 1)
    } else {
        m
    }
}

/// The kernel's buffers have the canvas size and lower no mask value.
pub open spec fn output_acceptable(m: EngineModel, canvas: Seq<Color>, mask: Seq<u8>) -> bool {
    &&& canvas.len() == m.pixel_count()
    &&& mask.len() == m.pixel_count()
    &&& forall|i: int| 0 <= i < mask.len() ==> m.mask[i] <= #[trigger] mask[i]
}

/// The engine with the kernel's buffers adopted.
pub open spec fn adopted(m: EngineModel, canvas: Seq<Color>, mask: Seq<u8>) -> EngineModel {
    EngineModel { canvas, mask, ..m }
}

/// The overlays of step 7, in their fixed order.
pub open spec fn overlaid(m: EngineModel, at: (u32, u32)) -> EngineModel {
    cursor_painted(dropped(scripted(m, m.config.script.len() as nat), at))
}

/// Steps 6 and 7 of a frame: adopt the kernel's output, apply the overlays,
/// count the frame.
pub open spec fn finish_frame_model(m: EngineModel, out: Option<KernelOutput>, at: (u32, u32)) -> EngineModel {
    if !(m.state is Running) {
        m
    } else {
        match out {
            None => released(m, RunState::Failed(FailReason::KernelFailed)),
            Some(o) => if !output_acceptable(m, o.canvas@, o.mask@) {
                released(m, RunState::Failed(FailReason::KernelOutputRejected))
            } else {
                let m2 = overlaid(adopted(m, o.canvas@, o.mask@), at);
                EngineModel {
                    frame: if m.frame < u64::MAX {
                        m.frame + 1
                    } else {
                        m.frame
                    },
                    ..m2
                }
            },
        }
    }
}

/// The kernel's time argument: milliseconds on a 32-bit clock that wraps.
pub open spec fn clock_ms(elapsed_ms: i64) -> u32 {
    if elapsed_ms <= 0 {
        0
    } else {
        (elapsed_ms % 0x1_0000_0000) as u32
    }
}

pub open spec fn flag(b: bool) -> u32 {
    if b {
        1
    } else {
        0
    }
}

proof fn lemma_mask_max_step(s: Seq<u8>, i: int)
    requires
        0 <= i < s.len(),
    ensures
        mask_max(s.subrange(0, i + 1)) == if s[i] as nat > mask_max(s.subrange(0, i)) {
            s[i] as nat
        } else {
            mask_max(s.subrange(0, i))
        },
{
    assert(s.subrange(0, i + 1).drop_last() == s.subrange(0, i));
}

impl GrowthEngine {
    /// Ends the run in `st` and drops the buffers.
    fn release(&mut self, st: RunState)
        requires
            old(self).wf(),
            !(st is Running),
        ensures
            final(self).wf(),
            final(self)@ == released(old(self)@, st),
    {
        self.canvas = Plane::empty();
        self.mask = Plane::empty();
        self.subject = Plane::empty();
        self.state = st;
        assert(self@.canvas == Seq::<Color>::empty());
        assert(self@.mask == Seq::<u8>::empty());
        assert(self@.subject == Seq::<Color>::empty());
    }

    /// The model of a well-formed engine is well formed, so the laws over
    /// `EngineModel` apply to it.
    pub proof fn lemma_model_wf(&self)
        requires
            self.wf(),
        ensures
            self@.wf(),
    {
    }

    /// Whether the camera is to be polled this frame.
    pub fn camera_due(&self) -> (r: bool)
        ensures
            r == due(self@.frame, self@.config.camera_every),
    {
        self.config.camera_every > 0 && self.frame % self.config.camera_every == 0
    }

    /// Steps 1 and 2: a stop request (or a closed stop channel) ends the run
    /// in `Stopped`; else the cursor snapshot is taken, and a camera frame
    /// replaces the subject wholesale, while a closed camera channel ends the
    /// run in `Failed`.
    pub fn begin_frame(&mut self, stop: StopPoll, camera: CameraPoll, cursor: Cursor) -> (st: RunState)
        requires
            old(self).wf(),
        ensures
            final(self).wf(),
            final(self)@.wf(),
            final(self)@ == begin_frame_model(old(self)@, stop, camera, cursor),
            st == final(self)@.state,
    {
        if !(self.state == RunState::Running) {
            return self.state;
        }
        match stop {
            StopPoll::Idle => {},
            _ => {
                self.release(RunState::Stopped);
                return self.state;
            },
        }
        self.cursor = cursor;
        match camera {
            CameraPoll::Disconnected => {
                self.release(RunState::Failed(FailReason::CameraDisconnected));
            },
            CameraPoll::Frame(p) => {
                if p.width() == self.config.width && p.height() == self.config.height {
                    p.cell_count();
                    self.subject = p;
                } else {
                    self.release(RunState::Failed(FailReason::SubjectMismatch));
                }
            },
            _ => {},
        }
        self.state
    }

    /// Step 4: the kernel's arguments besides the images, when the run is on
    /// and the random stream has one value per pixel.
    pub fn kernel_inputs(&self, rand: Vec<u32>, elapsed_ms: i64) -> (r: Option<KernelInputs>)
        requires
            self.wf(),
        ensures
            r is Some <==> self@.state is Running && rand@.len() == self@.pixel_count(),
            r matches Some(k) ==> {
                &&& k.rand@ == rand@
                &&& k.time_ms == clock_ms(elapsed_ms)
                &&& k.cursor_enabled == flag(self@.cursor.enabled)
                &&& k.cursor_pressed == flag(self@.cursor.pressed)
                &&& k.cursor_xy == (self@.cursor.x, self@.cursor.y)
            },
    {
        if !(self.state == RunState::Running) {
            return None;
        }
        let n = self.mask.cell_count();
        if rand.len() != n {
            return None;
        }
        let time_ms: u32 = if elapsed_ms <= 0 {
            0
        } else {
            (elapsed_ms as u64 % 0x1_0000_0000u64) as u32
        };
        let c = self.cursor;
        Some(
            KernelInputs {
                rand,
                time_ms,
                cursor_enabled: if c.enabled {
                    1
                } else {
                    0
                },
                cursor_pressed: if c.pressed {
                    1
                } else {
                    0
                },
                cursor_xy: (c.x, c.y),
            },
        )
    }

    /// Steps 6 and 7: adopts the kernel's buffers when they have the canvas
    /// size and lower no mask value (else the run fails), then applies the
    /// overlays in order (scripted points, random drop at `drop_at`, cursor
    /// paint) and counts the frame. `None` stands for a failed invocation.
    pub fn finish_frame(&mut self, out: Option<KernelOutput>, drop_at: (u32, u32)) -> (st: RunState)
        requires
            old(self).wf(),
        ensures
            final(self).wf(),
            final(self)@.wf(),
            final(self)@ == finish_frame_model(old(self)@, out, drop_at),
            st == final(self)@.state,
    {
        if !(self.state == RunState::Running) {
            return self.state;
        }
        let o = match out {
            None => {
                self.release(RunState::Failed(FailReason::KernelFailed));
                return self.state;
            },
            Some(o) => o,
        };
        let ghost m0 = self@;
        let n = self.mask.cell_count();
        if o.canvas.len() != n || o.mask.len() != n {
            self.release(RunState::Failed(FailReason::KernelOutputRejected));
            return self.state;
        }
        let mut ok = true;
        let mut i: usize = 0;
        while i < n
            invariant
                i <= n,
                n == m0.mask.len(),
                n == o.mask@.len(),
                self@ == m0,
                ok ==> forall|j: int| 0 <= j < i ==> m0.mask[j] <= #[trigger] o.mask@[j],
                !ok ==> exists|j: int| 0 <= j < n && m0.mask[j] > #[trigger] o.mask@[j],
            decreases n - i,
        {
            if o.mask[i] < self.mask.cell(i) {
                ok = false;
            }
            i = i + 1;
        }
        if !ok {
            self.release(RunState::Failed(FailReason::KernelOutputRejected));
            return self.state;
        }
        let w = self.config.width;
        let h = self.config.height;
        let KernelOutput { canvas: out_canvas, mask: out_mask } = o;
        let cp = match Plane::new(w, h, out_canvas) {
            Some(p) => p,
            None => {
                self.release(RunState::Failed(FailReason::KernelOutputRejected));
                return self.state;
            },
        };
        let mp = match Plane::new(w, h, out_mask) {
            Some(p) => p,
            None => {
                self.release(RunState::Failed(FailReason::KernelOutputRejected));
                return self.state;
            },
        };
        self.canvas = cp;
        self.mask = mp;
        let ghost m1 = self@;
        let ns = self.config.script.len();
        let mut k: usize = 0;
        while k < ns
            invariant
                k <= ns,
                ns == m1.config.script@.len(),
                w == m1.config.width,
                h == m1.config.height,
                self.wf(),
                self@.state is Running,
                self@ == scripted(m1, k as nat),
                self@.config == m1.config,
                self@.frame == m1.frame,
                self@.subject == m1.subject,
                self@.cursor == m1.cursor,
                self@.last_drop == m1.last_drop,
            decreases ns - k,
        {
            let p = self.config.script[k];
            if p.frame == self.frame && p.x < w && p.y < h {
                self.place_pixel(p.x, p.y, p.color, 1);
            }
            k = k + 1;
        }
        let (dx, dy) = drop_at;
        if self.config.drop_every > 0 && self.frame % self.config.drop_every == 0 && dx < w && dy
            < h {
            let peak = self.mask_peak();
            let base = if self.last_drop > peak {
                self.last_drop
            } else {
                peak
            };
            if base < MASK_MAX {
                let g = base + 1;
                let c = self.subject.get(dx, dy);
                self.place_pixel(dx, dy, c, g);
                self.last_drop = g;
            }
        }
        let c = self.cursor;
        if self.config.cursor_paint && c.enabled && c.x < w && c.y < h {
            let color = if c.pressed {
                self.config.press_color
            } else {
                self.config.hover_color
            };
            self.place_pixel(c.x, c.y, color, 1);
        }
        if self.frame < u64::MAX {
            self.frame = self.frame + 1;
        }
        self.state
    }

    /// A uniformly drawn pixel of the canvas, for the random drop.
    pub fn drop_position(&self) -> (p: (u32, u32))
        requires
            self.wf(),
        ensures
            self@.in_bounds(p.0 as int, p.1 as int),
    {
        random_position(self.config.width, self.config.height)
    }

    /// A fresh random stream sized to the canvas.
    pub fn random_stream(&self) -> (r: Vec<u32>)
        requires
            self.wf(),
        ensures
            r@.len() == self@.pixel_count(),
            forall|i: int| 0 <= i < r@.len() ==> #[trigger] r@[i] < RAND_PM_M,
    {
        assert(self.config.width * self.config.height <= u32::MAX as int * u32::MAX as int)
            by (nonlinear_arith)
            requires
                self.config.width <= u32::MAX,
                self.config.height <= u32::MAX,
        ;
        let n = (self.config.width as u64 * self.config.height as u64) as usize;
        random_stream(n)
    }

    pub fn config(&self) -> (c: &EngineConfig)
        ensures
            *c == self@.config,
    {
        &self.config
    }

    pub fn canvas(&self) -> (c: &Plane<Color>)
        requires
            self.wf(),
        ensures
            c@.cells == self@.canvas,
            self@.state is Running ==> c@.width == self@.width() && c@.height == self@.height(),
    {
        &self.canvas
    }

    pub fn mask(&self) -> (m: &Plane<u8>)
        requires
            self.wf(),
        ensures
            m@.cells == self@.mask,
            self@.state is Running ==> m@.width == self@.width() && m@.height == self@.height(),
    {
        &self.mask
    }

    pub fn subject(&self) -> (s: &Plane<Color>)
        requires
            self.wf(),
        ensures
            s@.cells == self@.subject,
            self@.state is Running ==> s@.width == self@.width() && s@.height == self@.height(),
    {
        &self.subject
    }

    /// The cursor snapshot of the frame in flight.
    pub fn cursor(&self) -> (c: Cursor)
        ensures
            c == self@.cursor,
    {
        self.cursor
    }

    /// Frames completed in this run.
    pub fn frame(&self) -> (f: u64)
        ensures
            f == self@.frame,
    {
        self.frame
    }

    /// Mask generation of the latest random drop; 0 before the first.
    pub fn last_drop(&self) -> (g: u8)
        ensures
            g == self@.last_drop,
    {
        self.last_drop
    }

    pub fn state(&self) -> (st: RunState)
        ensures
            st == self@.state,
    {
        self.state
    }

    /// The largest mask value.
    fn mask_peak(&self) -> (r: u8)
        requires
            self.wf(),
        ensures
            r == mask_max(self@.mask),
    {
        let n = self.mask.cell_count();
        let mut peak: u8 = 0;
        let mut i: usize = 0;
        while i < n
            invariant
                i <= n,
                n == self@.mask.len(),
                peak == mask_max(self@.mask.subrange(0, i as int)),
            decreases n - i,
        {
            proof {
                lemma_mask_max_step(self@.mask, i as int);
            }
            let v = self.mask.cell(i);
            if v > peak {
                peak = v;
            }
            i = i + 1;
        }
        assert(self@.mask.subrange(0, n as int) == self@.mask);
        peak
    }
}

} // verus!

verus! {

/// Every filled pixel shows a color other than the background.
pub open spec fn filled_pixels_colored(m: EngineModel) -> bool {
    forall|i: int|
        0 <= i < m.mask.len() && #[trigger] m.mask[i] != 0 ==> m.canvas[i] != m.config.background
}

/// No pixel of `cells` has the background color.
pub open spec fn avoids(cells: Seq<Color>, background: Color) -> bool {
    forall|i: int| 0 <= i < cells.len() ==> #[trigger] cells[i] != background
}

/// The buffers hold a full canvas and mask.
pub open spec fn full(m: EngineModel) -> bool {
    &&& m.canvas.len() == m.pixel_count()
    &&& m.mask.len() == m.pixel_count()
    &&& m.subject.len() == m.pixel_count()
}

/// What the overlays never touch.
pub open spec fn same_frame_state(a: EngineModel, b: EngineModel) -> bool {
    &&& a.config == b.config
    &&& a.subject == b.subject
    &&& a.cursor == b.cursor
    &&& a.frame == b.frame
    &&& a.state == b.state
}

/// `b`'s mask is `a`'s with no value lowered.
pub open spec fn mask_grows(a: EngineModel, b: EngineModel) -> bool {
    &&& b.mask.len() == a.mask.len()
    &&& forall|i: int| 0 <= i < a.mask.len() ==> a.mask[i] <= #[trigger] b.mask[i]
}

/// Every pixel whose color differs between `a` and `b` is filled in `b`:
/// color writes came with mask writes.
pub open spec fn writes_marked(a: EngineModel, b: EngineModel) -> bool {
    forall|i: int| 0 <= i < a.canvas.len() && #[trigger] b.canvas[i] != a.canvas[i] ==> b.mask[i] != 0
}

proof fn lemma_place(m: EngineModel, x: int, y: int, c: Color, v: u8)
    requires
        full(m),
        m.in_bounds(x, y),
    ensures
        full(place(m, x, y, c, v)),
        same_frame_state(m, place(m, x, y, c, v)),
        place(m, x, y, c, v).last_drop == m.last_drop,
        mask_grows(m, place(m, x, y, c, v)),
        filled_pixels_colored(m) && c != m.config.background ==> filled_pixels_colored(
            place(m, x, y, c, v),
        ),
        v > 0 ==> writes_marked(m, place(m, x, y, c, v)),
{
    lemma_cell_in_plane(m.width(), m.height(), x, y);
}

proof fn lemma_scripted(m: EngineModel, k: nat)
    requires
        full(m),
        k <= m.config.script.len(),
    ensures
        full(scripted(m, k)),
        same_frame_state(m, scripted(m, k)),
        scripted(m, k).last_drop == m.last_drop,
        mask_grows(m, scripted(m, k)),
        filled_pixels_colored(m) && (forall|j: int|
            0 <= j < m.config.script.len() ==> (#[trigger] m.config.script[j]).color
                != m.config.background) ==> filled_pixels_colored(scripted(m, k)),
        writes_marked(m, scripted(m, k)),
    decreases k,
{
    if k > 0 {
        let prev = scripted(m, (k - 1) as nat);
        lemma_scripted(m, (k - 1) as nat);
        let p = m.config.script[k - 1];
        if p.frame == m.frame && m.in_bounds(p.x as int, p.y as int) {
            lemma_place(prev, p.x as int, p.y as int, p.color, 1);
            lemma_writes_marked_chain(m, prev, scripted(m, k));
        }
    }
}

proof fn lemma_writes_marked_chain(a: EngineModel, b: EngineModel, c: EngineModel)
    requires
        full(a),
        full(b),
        b.canvas.len() == a.canvas.len(),
        writes_marked(a, b),
        writes_marked(b, c),
        mask_grows(b, c),
    ensures
        writes_marked(a, c),
{
    assert forall|i: int| 0 <= i < a.canvas.len() && #[trigger] c.canvas[i] != a.canvas[i] implies c.mask[i]
        != 0 by {
        if b.canvas[i] != a.canvas[i] {
            assert(b.mask[i] != 0);
            assert(b.mask[i] <= c.mask[i]);
        }
    }
}

proof fn lemma_overlaid(m: EngineModel, at: (u32, u32))
    requires
        full(m),
        m.last_drop <= MASK_MAX,
    ensures
        full(overlaid(m, at)),
        same_frame_state(m, overlaid(m, at)),
        overlaid(m, at).last_drop <= MASK_MAX,
        mask_grows(m, overlaid(m, at)),
        filled_pixels_colored(m) && avoids(m.subject, m.config.background) && m.config.press_color
            != m.config.background && m.config.hover_color != m.config.background && (forall|j: int|
            0 <= j < m.config.script.len() ==> (#[trigger] m.config.script[j]).color
                != m.config.background) ==> filled_pixels_colored(overlaid(m, at)),
        writes_marked(m, overlaid(m, at)),
{
    let s = scripted(m, m.config.script.len() as nat);
    lemma_scripted(m, m.config.script.len() as nat);
    let d = dropped(s, at);
    if drop_happens(s, at) {
        let x = at.0 as int;
        let y = at.1 as int;
        lemma_cell_in_plane(s.width(), s.height(), x, y);
        lemma_place(s, x, y, s.subject[s.index(x, y)], next_generation(s) as u8);
        lemma_writes_marked_chain(m, s, d);
    }
    let c = d.cursor;
    if d.config.cursor_paint && c.enabled && d.in_bounds(c.x as int, c.y as int) {
        lemma_place(d, c.x as int, c.y as int, cursor_color(d), 1);
        lemma_writes_marked_chain(m, d, overlaid(m, at));
    }
}

/// Random drops use strictly increasing generations over a run: a frame never
/// lowers the latest drop's generation, and a frame with a drop raises it.
pub proof fn lemma_drop_generations_increase(m: EngineModel, out: Option<KernelOutput>, at: (u32, u32))
    requires
        m.wf(),
        m.state is Running,
    ensures
        ({
            let done = finish_frame_model(m, out, at);
            &&& done.last_drop >= m.last_drop
            &&& (out matches Some(o) && output_acceptable(m, o.canvas@, o.mask@) && drop_happens(
                scripted(adopted(m, o.canvas@, o.mask@), m.config.script.len() as nat),
                at,
            )) ==> done.last_drop > m.last_drop
        }),
{
    if let Some(o) = out {
        if output_acceptable(m, o.canvas@, o.mask@) {
            let a = adopted(m, o.canvas@, o.mask@);
            let s = scripted(a, a.config.script.len() as nat);
            lemma_scripted(a, a.config.script.len() as nat);
            let d = dropped(s, at);
            if drop_happens(s, at) {
                let x = at.0 as int;
                let y = at.1 as int;
                lemma_cell_in_plane(s.width(), s.height(), x, y);
                lemma_place(s, x, y, s.subject[s.index(x, y)], next_generation(s) as u8);
            }
            let c = d.cursor;
            if d.config.cursor_paint && c.enabled && d.in_bounds(c.x as int, c.y as int) {
                lemma_place(d, c.x as int, c.y as int, cursor_color(d), 1);
            }
        }
    }
}

/// Within a run, no frame lowers a mask value: a filled pixel stays filled,
/// and its generation never goes down.
pub proof fn lemma_frame_never_unfills(
    m: EngineModel,
    stop: StopPoll,
    camera: CameraPoll,
    cursor: Cursor,
    out: Option<KernelOutput>,
    at: (u32, u32),
)
    requires
        m.wf(),
        m.state is Running,
        camera matches CameraPoll::Frame(p) ==> p@.wf(),
    ensures
        ({
            let begun = begin_frame_model(m, stop, camera, cursor);
            let done = finish_frame_model(begun, out, at);
            done.state is Running ==> mask_grows(m, done)
        }),
{
    let begun = begin_frame_model(m, stop, camera, cursor);
    if begun.state is Running {
        if let Some(o) = out {
            if output_acceptable(begun, o.canvas@, o.mask@) {
                let a = adopted(begun, o.canvas@, o.mask@);
                lemma_overlaid(a, at);
            }
        }
    }
}

/// Every filled pixel shows the color last written to it: a frame changes a
/// pixel's color away from the kernel's output only where an overlay also
/// marks it filled. That color is never the background as long as nothing a
/// frame writes is: the kernel marks no background pixel filled, and the
/// subject, the scripted points and the cursor paints avoid the background.
pub proof fn lemma_filled_pixels_keep_color(
    m: EngineModel,
    stop: StopPoll,
    camera: CameraPoll,
    cursor: Cursor,
    out: Option<KernelOutput>,
    at: (u32, u32),
)
    requires
        m.wf(),
        m.state is Running,
        filled_pixels_colored(m),
        avoids(m.subject, m.config.background),
        camera matches CameraPoll::Frame(p) ==> p@.wf() && avoids(p@.cells, m.config.background),
        out matches Some(o) ==> forall|i: int|
            0 <= i < o.mask@.len() && i < o.canvas@.len() && #[trigger] o.mask@[i] != 0
                ==> o.canvas@[i] != m.config.background,
        forall|j: int|
            0 <= j < m.config.script.len() ==> (#[trigger] m.config.script[j]).color
                != m.config.background,
        m.config.press_color != m.config.background,
        m.config.hover_color != m.config.background,
    ensures
        ({
            let begun = begin_frame_model(m, stop, camera, cursor);
            let done = finish_frame_model(begun, out, at);
            &&& done.state is Running ==> filled_pixels_colored(done)
            &&& done.state is Running ==> (out matches Some(o) ==> forall|i: int|
                0 <= i < done.canvas.len() && #[trigger] done.canvas[i] != o.canvas@[i]
                    ==> done.mask[i] != 0)
        }),
{
    let begun = begin_frame_model(m, stop, camera, cursor);
    if begun.state is Running {
        if let Some(o) = out {
            if output_acceptable(begun, o.canvas@, o.mask@) {
                let a = adopted(begun, o.canvas@, o.mask@);
                lemma_overlaid(a, at);
            }
        }
    }
}

} // verus!

verus! {

/// With cursor paint on, an enabled cursor inside the canvas leaves its pixel,
/// after a frame that keeps the run going, painted with the cursor's color
/// (the press color when pressed, else the hover color) and filled. The
/// cursor is the last overlay, so no earlier write can cover it.
pub proof fn lemma_cursor_paints_its_pixel(
    m: EngineModel,
    stop: StopPoll,
    camera: CameraPoll,
    cursor: Cursor,
    out: Option<KernelOutput>,
    at: (u32, u32),
)
    requires
        m.wf(),
        m.state is Running,
        camera matches CameraPoll::Frame(p) ==> p@.wf(),
        m.config.cursor_paint,
        cursor.enabled,
        m.in_bounds(cursor.x as int, cursor.y as int),
    ensures
        ({
            let begun = begin_frame_model(m, stop, camera, cursor);
            let done = finish_frame_model(begun, out, at);
            let i = m.index(cursor.x as int, cursor.y as int);
            done.state is Running ==> {
                &&& done.canvas[i] == if cursor.pressed {
                    m.config.press_color
                } else {
                    m.config.hover_color
                }
                &&& done.mask[i] != 0
            }
        }),
{
    let begun = begin_frame_model(m, stop, camera, cursor);
    let done = finish_frame_model(begun, out, at);
    if done.state is Running {
        let o = out->0;
        let a = adopted(begun, o.canvas@, o.mask@);
        let s = scripted(a, a.config.script.len() as nat);
        lemma_scripted(a, a.config.script.len() as nat);
        let d = dropped(s, at);
        if drop_happens(s, at) {
            let x = at.0 as int;
            let y = at.1 as int;
            lemma_cell_in_plane(s.width(), s.height(), x, y);
            lemma_place(s, x, y, s.subject[s.index(x, y)], next_generation(s) as u8);
        }
        assert(d.cursor == cursor);
        lemma_cell_in_plane(d.width(), d.height(), cursor.x as int, cursor.y as int);
        lemma_place(d, cursor.x as int, cursor.y as int, cursor_color(d), 1);
    }
}

} // verus!
