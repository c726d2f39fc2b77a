//! What the renderer asks the graphics backend to create, and the commands
//! it has it run: plain descriptions, for a driver to carry out.

use crate::binary32::Binary32;
use crate::binary32::ONE_BITS;
use crate::rectangle::Globals;
use vstd::prelude::*;

verus! {

/// Size in bytes of the uniform payload: sixteen matrix entries and twenty
/// words of shape record.
pub const GLOBALS_SIZE: u64 = 144;

/// The binding slot of the uniform payload, in the layout and in each draw.
pub const GLOBALS_BINDING: u32 = 0;

/// Vertices of the quad: two triangles, made up by the vertex stage from
/// the vertex index alone.
pub const QUAD_VERTICES: u32 = 6;

/// Name of the vertex stage in the shading program.
pub const VERTEX_ENTRY: &'static str = "vertex_main";

/// Name of the fragment stage in the shading program.
pub const FRAGMENT_ENTRY: &'static str = "fragment_main";

/// What a buffer may be used for.
#[derive(Clone, Copy, Debug, PartialEq, Eq, Structural)]
pub struct BufferUsages {
    pub map_read: bool,
    pub map_write: bool,
    pub copy_src: bool,
    pub copy_dst: bool,
    pub index: bool,
    pub vertex: bool,
    pub uniform: bool,
    pub storage: bool,
    pub indirect: bool,
    pub query_resolve: bool,
}

/// The shading stages that see a binding.
#[derive(Clone, Copy, Debug, PartialEq, Eq, Structural)]
pub struct ShaderStages {
    pub vertex: bool,
    pub fragment: bool,
    pub compute: bool,
}

/// The colour channels that a draw writes.
#[derive(Clone, Copy, Debug, PartialEq, Eq, Structural)]
pub struct ColorWrites {
    pub red: bool,
    pub green: bool,
    pub blue: bool,
    pub alpha: bool,
}

/// How a buffer is bound.
#[derive(Clone, Copy, Debug, PartialEq, Eq, Structural)]
pub enum BufferBindingType {
    Uniform,
    Storage { read_only: bool },
}

/// How a fragment's colour meets the colour already in the target.
#[derive(Clone, Copy, Debug, PartialEq, Eq, Structural)]
pub enum BlendState {
    /// The fragment replaces what was there.
    Replace,
    /// The fragment is laid over what was there, weighted by its alpha.
    AlphaBlending,
    /// As `AlphaBlending`, for colours already multiplied by their alpha.
    PremultipliedAlphaBlending,
}

/// How vertices are assembled into primitives.
#[derive(Clone, Copy, Debug, PartialEq, Eq, Structural)]
pub enum PrimitiveTopology {
    PointList,
    LineList,
    LineStrip,
    TriangleList,
    TriangleStrip,
}

/// How a polygon is rasterized.
#[derive(Clone, Copy, Debug, PartialEq, Eq, Structural)]
pub enum PolygonMode {
    Fill,
    Line,
    Point,
}

/// A colour, one number a channel.
#[derive(Clone, Copy, Debug, PartialEq, Eq, Structural)]
pub struct Color {
    pub r: Binary32,
    pub g: Binary32,
    pub b: Binary32,
    pub a: Binary32,
}

impl Color {
    /// Opaque white.
    pub open spec fn white() -> Color {
        Color {
            r: Binary32::one(),
            g: Binary32::one(),
            b: Binary32::one(),
            a: Binary32::one(),
        }
    }
}

/// The uniform buffer: as large as the payload, and filled with it from the
/// start.
#[derive(Clone, Copy, Debug, PartialEq, Eq)]
pub struct BufferDescriptor {
    pub size: u64,
    pub usage: BufferUsages,
    pub contents: Globals,
}

/// One entry of the binding layout.
#[derive(Clone, Copy, Debug, PartialEq, Eq, Structural)]
pub struct BindGroupLayoutEntry {
    pub binding: u32,
    pub visibility: ShaderStages,
    pub ty: BufferBindingType,
    pub has_dynamic_offset: bool,
}

/// One entry of the binding instance: the whole uniform buffer, at a slot.
#[derive(Clone, Copy, Debug, PartialEq, Eq, Structural)]
pub struct BindGroupEntry {
    pub binding: u32,
}

/// The colour target of the fragment stage.
#[derive(Clone, Copy, Debug, PartialEq, Eq)]
pub struct ColorTargetState {
    pub format: wgpu::TextureFormat,
    pub blend: BlendState,
    pub write_mask: ColorWrites,
}

/// The rendering pipeline.
#[derive(Clone, Copy, Debug, PartialEq, Eq)]
pub struct PipelineDescriptor {
    pub vertex_entry: &'static str,
    pub fragment_entry: &'static str,
    /// Number of vertex buffers that the vertex stage reads.
    pub vertex_buffers: u32,
    pub topology: PrimitiveTopology,
    pub polygon_mode: PolygonMode,
    /// Whether fragments are tested against a depth or stencil buffer.
    pub depth_stencil: bool,
    /// Samples a pixel.
    pub sample_count: u32,
    pub target: ColorTargetState,
}

/// All that is created once, when the renderer is.
#[derive(Clone, Copy, Debug, PartialEq, Eq)]
pub struct Resources {
    pub buffer: BufferDescriptor,
    pub layout: BindGroupLayoutEntry,
    pub binding: BindGroupEntry,
    pub pipeline: PipelineDescriptor,
}

impl Resources {
    /// The resources of a renderer whose first payload is `globals`, on a
    /// surface of pixel format `format`:
    /// - a uniform buffer of the payload's size that queue copies can
    ///   write, holding `globals`;
    /// - a layout of one uniform buffer at slot `GLOBALS_BINDING`, seen by
    ///   the vertex and the fragment stage, and the whole buffer bound
    ///   there;
    /// - a pipeline without vertex buffers, depth or stencil test or
    ///   multisampling, that fills triangles and lays each fragment over
    ///   the target by its alpha, writing all four channels.
    pub open spec fn of(globals: Globals, format: wgpu::TextureFormat) -> Resources {
        Resources {
            buffer: BufferDescriptor {
                size: GLOBALS_SIZE,
                usage: BufferUsages {
                    map_read: false,
                    map_write: false,
                    copy_src: false,
                    copy_dst: true,
                    index: false,
                    vertex: false,
                    uniform: true,
                    storage: false,
                    indirect: false,
                    query_resolve: false,
                },
                contents: globals,
            },
            layout: BindGroupLayoutEntry {
                binding: GLOBALS_BINDING,
                visibility: ShaderStages { vertex: true, fragment: true, compute: false },
                ty: BufferBindingType::Uniform,
                has_dynamic_offset: false,
            },
            binding: BindGroupEntry { binding: GLOBALS_BINDING },
            pipeline: PipelineDescriptor {
                vertex_entry: VERTEX_ENTRY,
                fragment_entry: FRAGMENT_ENTRY,
                vertex_buffers: 0,
                topology: PrimitiveTopology::TriangleList,
                polygon_mode: PolygonMode::Fill,
                depth_stencil: false,
                sample_count: 1,
                target: ColorTargetState {
                    format,
                    blend: BlendState::AlphaBlending,
                    write_mask: ColorWrites { red: true, green: true, blue: true, alpha: true },
                },
            },
        }
    }

    /// Builds `of(globals, format)`.
    pub fn new(globals: Globals, format: wgpu::TextureFormat) -> (resources: Resources)
        ensures
            resources == Self::of(globals, format),
    {
        Resources {
            buffer: BufferDescriptor {
                size: GLOBALS_SIZE,
                usage: BufferUsages {
                    map_read: false,
                    map_write: false,
                    copy_src: false,
                    copy_dst: true,
                    index: false,
                    vertex: false,
                    uniform: true,
                    storage: false,
                    indirect: false,
                    query_resolve: false,
                },
                contents: globals,
            },
            layout: BindGroupLayoutEntry {
                binding: GLOBALS_BINDING,
                visibility: ShaderStages { vertex: true, fragment: true, compute: false },
                ty: BufferBindingType::Uniform,
                has_dynamic_offset: false,
            },
            binding: BindGroupEntry { binding: GLOBALS_BINDING },
            pipeline: PipelineDescriptor {
                vertex_entry: VERTEX_ENTRY,
                fragment_entry: FRAGMENT_ENTRY,
                vertex_buffers: 0,
                topology: PrimitiveTopology::TriangleList,
                polygon_mode: PolygonMode::Fill,
                depth_stencil: false,
                sample_count: 1,
                target: ColorTargetState {
                    format,
                    blend: BlendState::AlphaBlending,
                    write_mask: ColorWrites { red: true, green: true, blue: true, alpha: true },
                },
            },
        }
    }
}

/// One thing for the driver to do. A frame is a list of them, carried out
/// in order.
#[derive(Clone, Copy, Debug, PartialEq, Eq)]
pub enum Command {
    /// Copy the payload, as it lies in memory, into the uniform buffer.
    WriteBuffer { offset: u64, payload: Globals },
    /// Begin a new command sequence.
    BeginCommands,
    /// Acquire the next presentable image from the surface.
    AcquireImage,
    /// Create a view of the whole acquired image.
    CreateView,
    /// Begin a render pass on that view, cleared to `clear` and stored.
    BeginPass { clear: Color },
    /// Bind the pipeline.
    SetPipeline,
    /// Bind the uniform payload at a slot.
    SetBindGroup { index: u32 },
    /// Draw `vertices` vertices from `first_vertex` on, `instances` times.
    Draw { first_vertex: u32, vertices: u32, first_instance: u32, instances: u32 },
    /// End the render pass.
    EndPass,
    /// Finish the command sequence and submit it to the queue.
    Submit,
    /// Present the acquired image.
    Present,
}

/// What follows the acquisition of an image: a view of it, one pass that
/// clears it to white and draws the quad once, submission, presentation.
pub open spec fn closing_commands() -> Seq<Command> {
    seq![
        Command::CreateView,
        Command::BeginPass { clear: Color::white() },
        Command::SetPipeline,
        Command::SetBindGroup { index: GLOBALS_BINDING },
        Command::Draw { first_vertex: 0, vertices: QUAD_VERTICES, first_instance: 0, instances: 1 },
        Command::EndPass,
        Command::Submit,
        Command::Present,
    ]
}

/// A frame holds exactly one draw, of six vertices and one instance,
/// inside a pass that began by clearing its target to white.
pub proof fn lemma_one_draw()
    ensures
        closing_commands()[1] == (Command::BeginPass { clear: Color::white() }),
        closing_commands()[4] == (Command::Draw {
            first_vertex: 0,
            vertices: 6,
            first_instance: 0,
            instances: 1,
        }),
        closing_commands()[5] == Command::EndPass,
        forall|i: int|
            0 <= i < closing_commands().len() && i != 4 ==> !(closing_commands()[i] is Draw),
        forall|i: int|
            0 <= i < closing_commands().len() && i != 1 ==> !(closing_commands()[i] is BeginPass),
{
}

/// Builds `closing_commands()`.
pub fn closing() -> (commands: Vec<Command>)
    ensures
        commands@ == closing_commands(),
{
    let one = Binary32::from_bits(ONE_BITS);
    let mut commands: Vec<Command> = Vec::new();
    commands.push(Command::CreateView);
    commands.push(Command::BeginPass { clear: Color { r: one, g: one, b: one, a: one } });
    commands.push(Command::SetPipeline);
    commands.push(Command::SetBindGroup { index: GLOBALS_BINDING });
    commands.push(
        Command::Draw { first_vertex: 0, vertices: QUAD_VERTICES, first_instance: 0, instances: 1 },
    );
    commands.push(Command::EndPass);
    commands.push(Command::Submit);
    commands.push(Command::Present);
    assert(commands@ =~= closing_commands());
    commands
}

} // verus!
