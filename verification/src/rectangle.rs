//! The shape, the uniform payload that carries it to the shading stage, and
//! the renderer that keeps the device's copy of the payload up to date and
//! lays out each frame.

use crate::binary32::Binary32;
use crate::binary32::ONE_BITS;
use crate::binary32::ZERO_BITS;
use crate::device::is_projection;
use crate::device::Device;
use crate::linear::Matrix4;
use crate::linear::Vector2;
use crate::linear::Vector4;
use crate::pipeline::closing;
use crate::pipeline::closing_commands;
use crate::pipeline::Command;
use crate::pipeline::Resources;
use crate::surface::SurfaceConfig;
use crate::wire::big_endian;
use crate::wire::in_memory;
use crate::wire::little_endian;
use crate::wire::native_bytes;
use vstd::prelude::*;

verus! {

/// `wgpu::SurfaceError`, the backend's account of why no image could be
/// acquired. It is handed back to the caller, unread.
#[verifier::external_type_specification]
#[verifier::external_body]
pub struct ExSurfaceError(wgpu::SurfaceError);

/// `x` is finite and lies between the finite numbers `low` and `high`.
pub open spec fn in_range(low: Binary32, x: Binary32, high: Binary32) -> bool {
    &&& low.is_finite() && x.is_finite() && high.is_finite()
    &&& low.value() <= x.value() <= high.value()
}

/// Each of the four channels is a finite number between `0` and `1`.
pub open spec fn is_color(c: Vector4) -> bool {
    &&& in_range(Binary32::zero(), c.x, Binary32::one())
    &&& in_range(Binary32::zero(), c.y, Binary32::one())
    &&& in_range(Binary32::zero(), c.z, Binary32::one())
    &&& in_range(Binary32::zero(), c.w, Binary32::one())
}

/// Tells whether `c` is a colour.
fn channels_in_unit_range(c: &Vector4) -> (ok: bool)
    ensures
        ok == is_color(*c),
{
    let zero = Binary32::from_bits(ZERO_BITS);
    let one = Binary32::from_bits(ONE_BITS);
    zero.le(c.x) && c.x.le(one) && zero.le(c.y) && c.y.le(one) && zero.le(c.z) && c.z.le(one)
        && zero.le(c.w) && c.w.le(one)
}

/// One rounded rectangle, in pixels, with a colour gradient from its inside
/// to its edge.
#[derive(Clone, Copy, Debug, PartialEq, Eq)]
pub struct Rectangle {
    /// The centre.
    pub position: Vector2,
    /// Half the width and half the height.
    pub half_dimensions: Vector2,
    /// One radius a corner.
    pub corner_radii: Vector4,
    /// The colour at the edge, as red, green, blue, alpha.
    pub outer_color: Vector4,
    /// The colour inside.
    pub inner_color: Vector4,
    /// A time or animation parameter, for the shading stage alone.
    pub phase: Binary32,
    /// Fills the record up to the alignment that the shading stage wants.
    pub _padding: [u32; 3],
}

impl Rectangle {
    /// The twenty words of the record in memory order.
    pub open spec fn words(self) -> Seq<u32> {
        self.position.words() + self.half_dimensions.words() + self.corner_radii.words()
            + self.outer_color.words() + self.inner_color.words() + seq![self.phase.bits]
            + self._padding@
    }

    /// The shape keeps to the ranges it is meant for: half dimensions that
    /// are not negative, no corner radius beyond either of them, and colour
    /// channels between `0` and `1`, all of them finite numbers.
    pub open spec fn valid(self) -> bool {
        &&& in_range(Binary32::zero(), self.half_dimensions.x, self.half_dimensions.x)
        &&& in_range(Binary32::zero(), self.half_dimensions.y, self.half_dimensions.y)
        &&& self.corner_radii.x.is_finite() && self.corner_radii.y.is_finite()
        &&& self.corner_radii.z.is_finite() && self.corner_radii.w.is_finite()
        &&& self.corner_radii.x.value() <= self.half_dimensions.x.value()
        &&& self.corner_radii.x.value() <= self.half_dimensions.y.value()
        &&& self.corner_radii.y.value() <= self.half_dimensions.x.value()
        &&& self.corner_radii.y.value() <= self.half_dimensions.y.value()
        &&& self.corner_radii.z.value() <= self.half_dimensions.x.value()
        &&& self.corner_radii.z.value() <= self.half_dimensions.y.value()
        &&& self.corner_radii.w.value() <= self.half_dimensions.x.value()
        &&& self.corner_radii.w.value() <= self.half_dimensions.y.value()
        &&& is_color(self.outer_color)
        &&& is_color(self.inner_color)
    }

    /// Tells whether the shape is `valid`. The renderer takes any shape;
    /// what the shading stage makes of one outside these ranges is its own
    /// affair.
    pub fn is_valid(&self) -> (ok: bool)
        ensures
            ok == self.valid(),
    {
        let zero = Binary32::from_bits(ZERO_BITS);
        let hx = self.half_dimensions.x;
        let hy = self.half_dimensions.y;
        zero.le(hx) && zero.le(hy) && self.corner_radii.x.le(hx) && self.corner_radii.x.le(hy)
            && self.corner_radii.y.le(hx) && self.corner_radii.y.le(hy) && self.corner_radii.z.le(
            hx,
        ) && self.corner_radii.z.le(hy) && self.corner_radii.w.le(hx) && self.corner_radii.w.le(hy)
            && channels_in_unit_range(&self.outer_color) && channels_in_unit_range(
            &self.inner_color,
        )
    }

    /// The same shape at another phase.
    pub open spec fn at_phase(self, phase: Binary32) -> Rectangle {
        Rectangle { phase, ..self }
    }

    /// Appends the record to `out`.
    pub fn write_words(&self, out: &mut Vec<u32>)
        ensures
            final(out)@ == old(out)@ + self.words(),
    {
        self.position.write_words(out);
        self.half_dimensions.write_words(out);
        self.corner_radii.write_words(out);
        self.outer_color.write_words(out);
        self.inner_color.write_words(out);
        out.push(self.phase.bits);
        out.push(self._padding[0]);
        out.push(self._padding[1]);
        out.push(self._padding[2]);
        assert(final(out)@ =~= old(out)@ + self.words());
    }
}

/// The uniform payload: the projection matrix, then the shape record, with
/// nothing in between.
#[derive(Clone, Copy, Debug, PartialEq, Eq)]
pub struct Globals {
    pub view_projection: Matrix4,
    pub rectangle: Rectangle,
}

impl Globals {
    /// The thirty-six words of the payload in memory order.
    pub open spec fn words(self) -> Seq<u32> {
        self.view_projection.words() + self.rectangle.words()
    }

    /// The payload as words.
    pub fn to_words(&self) -> (words: Vec<u32>)
        ensures
            words@ == self.words(),
            words@.len() == 36,
    {
        let mut words: Vec<u32> = Vec::new();
        self.view_projection.write_words(&mut words);
        self.rectangle.write_words(&mut words);
        assert(words@ =~= self.words());
        words
    }

    /// The payload as the bytes to copy into the uniform buffer: its words
    /// as this machine holds them in memory.
    pub fn to_bytes(&self) -> (bytes: Vec<u8>)
        ensures
            in_memory(bytes@, self.words()),
            bytes@.len() == 144,
    {
        let words = self.to_words();
        native_bytes(&words)
    }
}

/// What the renderer knows: the surface configuration in force, the payload
/// in memory, whether it has changed since it was last handed out for
/// upload, and the payload that the device holds.
pub struct RendererState {
    pub config: SurfaceConfig,
    pub globals: Globals,
    pub dirty: bool,
    pub resident: Globals,
}

impl RendererState {
    /// The surface can be drawn to, the payload's matrix is the projection
    /// for its size, and a clean renderer's payload is the device's.
    pub open spec fn wf(self) -> bool {
        &&& self.config.drawable()
        &&& is_projection(self.globals.view_projection, self.config.width, self.config.height)
        &&& !self.dirty ==> self.resident == self.globals
    }

    /// The state of a new renderer.
    pub open spec fn fresh(config: SurfaceConfig, globals: Globals) -> RendererState {
        RendererState { config, globals, dirty: false, resident: globals }
    }

    /// The state after the shape's phase was set.
    pub open spec fn with_phase(self, phase: Binary32) -> RendererState {
        RendererState {
            globals: Globals { rectangle: self.globals.rectangle.at_phase(phase), ..self.globals },
            dirty: true,
            ..self
        }
    }

    /// `next` is a state after the surface took the size `width` by
    /// `height`.
    pub open spec fn resizes_to(self, width: u32, height: u32, next: RendererState) -> bool {
        &&& next.config == self.config.resized(width, height)
        &&& is_projection(next.globals.view_projection, width, height)
        &&& next.globals.rectangle == self.globals.rectangle
        &&& next.dirty
        &&& next.resident == self.resident
    }

    /// The state after a frame was begun: clean, and a changed payload has
    /// gone to the device.
    pub open spec fn rendered(self) -> RendererState {
        if self.dirty {
            RendererState { dirty: false, resident: self.globals, ..self }
        } else {
            self
        }
    }

    /// `next` is a state that `event` can lead to.
    pub open spec fn steps_to(self, event: Event, next: RendererState) -> bool {
        match event {
            Event::SetPhase(phase) => next == self.with_phase(phase),
            Event::Resize(width, height) => width != 0 && height != 0 && self.resizes_to(
                width,
                height,
                next,
            ),
            Event::Render => next == self.rendered(),
        }
    }

    /// What a frame begins with: the upload of the whole payload at the
    /// start of the buffer if the payload has changed, a new command
    /// sequence, and the acquisition of an image.
    pub open spec fn opening_commands(self) -> Seq<Command> {
        if self.dirty {
            seq![
                Command::WriteBuffer { offset: 0, payload: self.globals },
                Command::BeginCommands,
                Command::AcquireImage,
            ]
        } else {
            seq![Command::BeginCommands, Command::AcquireImage]
        }
    }
}

/// What a renderer is asked to do.
pub enum Event {
    /// Set the shape's phase.
    SetPhase(Binary32),
    /// Follow the surface to a new size.
    Resize(u32, u32),
    /// Begin a frame.
    Render,
}

impl Event {
    /// The event changes the payload.
    pub open spec fn mutates(self) -> bool {
        !(self is Render)
    }
}

/// `states` are the states that a renderer goes through as `events` reach
/// it one after the other, the first state being the one before them all.
pub open spec fn is_run(states: Seq<RendererState>, events: Seq<Event>) -> bool {
    &&& states.len() == events.len() + 1
    &&& forall|i: int|
        0 <= i < events.len() ==> #[trigger] states[i].steps_to(events[i], states[i + 1])
}

/// The payload was changed, and no frame was begun since.
pub open spec fn changed_since_render(events: Seq<Event>) -> bool {
    exists|i: int|
        0 <= i < events.len() && #[trigger] events[i].mutates() && forall|j: int|
            i < j < events.len() ==> !(#[trigger] events[j] is Render)
}

/// Every step keeps a renderer well-formed: the surface stays drawable, the
/// payload's matrix stays the projection for the surface's size, and the
/// device's copy of the payload is never behind a clean renderer.
pub proof fn lemma_step_keeps_wf(state: RendererState, event: Event, next: RendererState)
    requires
        state.wf(),
        state.steps_to(event, next),
    ensures
        next.wf(),
{
}

/// However setters, resizes and frames follow one another, the renderer
/// is dirty in the end exactly when its payload was changed after the last
/// frame was begun, or when it began dirty and no frame was begun at all.
/// A new renderer begins clean.
pub proof fn lemma_dirty_iff_changed(states: Seq<RendererState>, events: Seq<Event>)
    requires
        is_run(states, events),
    ensures
        states.last().dirty <==> changed_since_render(events) || (states[0].dirty && forall|
            j: int,
        |
            0 <= j < events.len() ==> !(#[trigger] events[j] is Render)),
{
    let n = events.len() as int;
    if n > 0 {
        let last = n - 1;
        assert(states[last].steps_to(events[last], states[last + 1]));
        if events[n - 1] is Render {
            assert forall|i: int| 0 <= i < n && #[trigger] events[i].mutates() implies !(forall|
                j: int,
            |
                i < j < n ==> !(#[trigger] events[j] is Render)) by {
                assert(events[n - 1] is Render);
            }
        } else {
            assert(events[n - 1].mutates());
        }
    }
}

/// A frame begun on a changed payload opens with the upload of that very
/// payload, whole and from the start of the buffer, and leaves the device
/// with it.
pub proof fn lemma_upload_is_payload(state: RendererState)
    requires
        state.dirty,
    ensures
        state.opening_commands()[0] == (Command::WriteBuffer { offset: 0, payload: state.globals }),
        state.rendered().resident == state.globals,
        !state.rendered().dirty,
{
}

/// The payload is the matrix followed by the shape record, word for word,
/// and its bytes in memory are four to a word in that same order.
pub proof fn lemma_payload_layout(globals: Globals, bytes: Seq<u8>)
    requires
        in_memory(bytes, globals.words()),
    ensures
        globals.words().len() == 36,
        globals.words().subrange(0, 16) == globals.view_projection.words(),
        globals.words().subrange(16, 36) == globals.rectangle.words(),
        bytes.len() == 144,
        forall|i: int|
            0 <= i < 36 ==> bytes.subrange(4 * i, 4 * i + 4) == little_endian(
                seq![#[trigger] globals.words()[i]],
            ) || bytes.subrange(4 * i, 4 * i + 4) == big_endian(seq![globals.words()[i]]),
{
    let words = globals.words();
    assert(words.subrange(0, 16) =~= globals.view_projection.words());
    assert(words.subrange(16, 36) =~= globals.rectangle.words());
    assert forall|i: int| 0 <= i < 36 implies bytes.subrange(4 * i, 4 * i + 4) == little_endian(
        seq![#[trigger] words[i]],
    ) || bytes.subrange(4 * i, 4 * i + 4) == big_endian(seq![words[i]]) by {
        if bytes == little_endian(words) {
            assert(bytes.subrange(4 * i, 4 * i + 4) =~= little_endian(seq![words[i]]));
        } else {
            assert(bytes.subrange(4 * i, 4 * i + 4) =~= big_endian(seq![words[i]]));
        }
    }
}

/// After a resize the configuration in force has the new size, and the
/// frame begun next uploads the projection for that size before anything
/// is drawn, under that same configuration.
pub proof fn lemma_resize_then_render(
    state: RendererState,
    width: u32,
    height: u32,
    resized: RendererState,
)
    requires
        state.wf(),
        width != 0,
        height != 0,
        state.resizes_to(width, height, resized),
    ensures
        resized.wf(),
        resized.config.width == width,
        resized.config.height == height,
        resized.opening_commands()[0] == (Command::WriteBuffer {
            offset: 0,
            payload: resized.globals,
        }),
        is_projection(resized.globals.view_projection, width, height),
        resized.rendered().config == resized.config,
        resized.rendered().resident == resized.globals,
        !resized.rendered().dirty,
{
}

/// A frame that was begun and awaits its image.
#[derive(Debug)]
pub struct Frame {
    commands: Vec<Command>,
}

impl View for Frame {
    type V = Seq<Command>;

    closed spec fn view(&self) -> Seq<Command> {
        self.commands@
    }
}

impl Frame {
    /// What to carry out before the image is known, in order.
    pub fn commands(&self) -> (commands: &Vec<Command>)
        ensures
            commands@ == self@,
    {
        &self.commands
    }

    /// Ends the frame on the outcome of the acquisition. With an image, the
    /// frame goes on to draw on it and present it; without, the frame is
    /// over, and the error is handed on as it came.
    pub fn complete<T>(self, acquired: Result<T, wgpu::SurfaceError>) -> (r: Result<
        (T, Vec<Command>),
        wgpu::SurfaceError,
    >)
        ensures
            match acquired {
                Ok(image) => r matches Ok((target, commands)) && target == image && commands@
                    == closing_commands(),
                Err(error) => r == Err::<(T, Vec<Command>), wgpu::SurfaceError>(error),
            },
    {
        match acquired {
            Ok(image) => Ok((image, closing())),
            Err(error) => Err(error),
        }
    }
}

/// Draws one rectangle. It owns the device context, keeps the payload, and
/// remembers whether the device's copy has fallen behind.
pub struct RectangleRenderer {
    device: Device,
    globals: Globals,
    dirty: bool,
    resident: Ghost<Globals>,
}

impl View for RectangleRenderer {
    type V = RendererState;

    closed spec fn view(&self) -> RendererState {
        RendererState {
            config: self.device@,
            globals: self.globals,
            dirty: self.dirty,
            resident: self.resident@,
        }
    }
}

impl RectangleRenderer {
    /// Takes over the device context and a first shape. The payload is the
    /// current projection with the shape; the resources to create hold it
    /// from the start, so the renderer begins clean.
    pub fn new(device: Device, rectangle: Rectangle) -> (r: (RectangleRenderer, Resources))
        ensures
            r.0@ == RendererState::fresh(device@, r.0@.globals),
            r.0@.globals.rectangle == rectangle,
            r.0@.wf(),
            r.1 == Resources::of(r.0@.globals, device@.format),
    {
        let globals = Globals { view_projection: device.view_projection(), rectangle };
        let resources = Resources::new(globals, device.surface_config().format);
        (RectangleRenderer { device, globals, dirty: false, resident: Ghost(globals) }, resources)
    }

    /// Whether the payload has changed since it was last handed out for
    /// upload.
    pub fn is_dirty(&self) -> (dirty: bool)
        ensures
            dirty == self@.dirty,
    {
        self.dirty
    }

    /// The payload in memory.
    pub fn globals(&self) -> (globals: Globals)
        ensures
            globals == self@.globals,
    {
        self.globals
    }

    /// Sets the shape's phase. The device's copy is now behind.
    pub fn set_phase(&mut self, phase: Binary32)
        ensures
            final(self)@ == old(self)@.with_phase(phase),
            old(self)@.wf() ==> final(self)@.wf(),
    {
        self.globals.rectangle.phase = phase;
        self.dirty = true;
    }

    /// Takes a new surface size: the configuration and the projection
    /// follow it, and the device's copy of the payload is now behind.
    /// Returns the configuration to apply to the surface. No frame is
    /// drawn: that is for the caller to ask.
    pub fn resize(&mut self, width: u32, height: u32) -> (config: SurfaceConfig)
        requires
            width != 0,
            height != 0,
        ensures
            old(self)@.resizes_to(width, height, final(self)@),
            config == final(self)@.config,
            old(self)@.wf() ==> final(self)@.wf(),
    {
        let config = self.device.resize(width, height);
        self.globals.view_projection = self.device.view_projection();
        self.dirty = true;
        config
    }

    /// The configuration in force, to be applied to the surface again, as
    /// after the surface was lost or went out of date.
    pub fn configure_surface(&self) -> (config: SurfaceConfig)
        ensures
            config == self@.config,
    {
        self.device.surface_config()
    }

    /// The copy of the whole payload to the start of the uniform buffer.
    fn write_globals(&self) -> (command: Command)
        ensures
            command == (Command::WriteBuffer { offset: 0, payload: self@.globals }),
    {
        Command::WriteBuffer { offset: 0, payload: self.globals }
    }

    /// Begins a frame. If the payload has changed, the frame opens with its
    /// upload, and the renderer is clean again, whatever becomes of the
    /// frame.
    pub fn render(&mut self) -> (frame: Frame)
        ensures
            final(self)@ == old(self)@.rendered(),
            frame@ == old(self)@.opening_commands(),
            old(self)@.wf() ==> final(self)@.wf(),
    {
        let mut commands: Vec<Command> = Vec::new();
        if self.dirty {
            commands.push(self.write_globals());
            self.resident = Ghost(self.globals);
            self.dirty = false;
        }
        commands.push(Command::BeginCommands);
        commands.push(Command::AcquireImage);
        assert(commands@ =~= old(self)@.opening_commands());
        Frame { commands }
    }
}

} // verus!
