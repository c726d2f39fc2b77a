use sdf::binary32::Binary32;
use sdf::device::Negotiation;
use sdf::linear::Vector2;
use sdf::linear::Vector4;
use sdf::pipeline::BindGroupEntry;
use sdf::pipeline::BindGroupLayoutEntry;
use sdf::pipeline::BlendState;
use sdf::pipeline::BufferBindingType;
use sdf::pipeline::BufferUsages;
use sdf::pipeline::Color;
use sdf::pipeline::ColorTargetState;
use sdf::pipeline::ColorWrites;
use sdf::pipeline::Command;
use sdf::pipeline::PolygonMode;
use sdf::pipeline::PrimitiveTopology;
use sdf::pipeline::ShaderStages;
use sdf::pipeline::closing;
use sdf::pipeline::GLOBALS_SIZE;
use sdf::rectangle::Globals;
use sdf::rectangle::Rectangle;
use sdf::rectangle::RectangleRenderer;
use sdf::Device;
use wgpu::SurfaceError;
use wgpu::TextureFormat;

fn number(x: f32) -> Binary32 {
    Binary32::from_bits(x.to_bits())
}

fn vector2(x: f32, y: f32) -> Vector2 {
    Vector2::new(number(x), number(y))
}

fn vector4(x: f32, y: f32, z: f32, w: f32) -> Vector4 {
    Vector4::new(number(x), number(y), number(z), number(w))
}

fn shape() -> Rectangle {
    Rectangle {
        position: vector2(320.0, 240.0),
        half_dimensions: vector2(160.0, 120.0),
        corner_radii: vector4(0.0, 0.0, 0.0, 0.0),
        outer_color: vector4(0.8, 0.4, 0.2, 1.0),
        inner_color: vector4(0.2, 0.4, 0.8, 1.0),
        phase: number(0.0),
        _padding: [0; 3],
    }
}

fn device(width: u32, height: u32) -> Device {
    let formats = vec![TextureFormat::Bgra8Unorm, TextureFormat::Bgra8UnormSrgb];
    match Device::new(width, height, Negotiation::Granted(formats)) {
        Ok(device) => device,
        Err(error) => panic!("no device: {:?}", error),
    }
}

fn renderer(width: u32, height: u32) -> RectangleRenderer {
    RectangleRenderer::new(device(width, height), shape()).0
}

fn white() -> Color {
    Color { r: number(1.0), g: number(1.0), b: number(1.0), a: number(1.0) }
}

fn pass() -> Vec<Command> {
    vec![
        Command::CreateView,
        Command::BeginPass { clear: white() },
        Command::SetPipeline,
        Command::SetBindGroup { index: 0 },
        Command::Draw { first_vertex: 0, vertices: 6, first_instance: 0, instances: 1 },
        Command::EndPass,
        Command::Submit,
        Command::Present,
    ]
}

#[test]
fn a_new_renderer_is_clean_and_holds_projection_and_shape() {
    let context = device(640, 480);
    let projection = context.view_projection();
    let r = renderer(640, 480);
    assert!(!r.is_dirty());
    assert_eq!(r.globals(), Globals { view_projection: projection, rectangle: shape() });
}

#[test]
fn new_describes_the_resources_to_create() {
    let (r, resources) = RectangleRenderer::new(device(640, 480), shape());
    assert_eq!(resources.buffer.size, 144);
    assert_eq!(GLOBALS_SIZE, 144);
    assert_eq!(resources.buffer.size as usize, resources.buffer.contents.to_bytes().len());
    assert_eq!(resources.buffer.contents, r.globals());
    assert_eq!(
        resources.buffer.usage,
        BufferUsages {
            map_read: false,
            map_write: false,
            copy_src: false,
            copy_dst: true,
            index: false,
            vertex: false,
            uniform: true,
            storage: false,
            indirect: false,
            query_resolve: false,
        }
    );
    assert_eq!(
        resources.layout,
        BindGroupLayoutEntry {
            binding: 0,
            visibility: ShaderStages { vertex: true, fragment: true, compute: false },
            ty: BufferBindingType::Uniform,
            has_dynamic_offset: false,
        }
    );
    assert_eq!(resources.binding, BindGroupEntry { binding: 0 });
    assert_eq!(resources.pipeline.vertex_entry, "vertex_main");
    assert_eq!(resources.pipeline.fragment_entry, "fragment_main");
    assert_eq!(resources.pipeline.vertex_buffers, 0);
    assert_eq!(resources.pipeline.topology, PrimitiveTopology::TriangleList);
    assert_eq!(resources.pipeline.polygon_mode, PolygonMode::Fill);
    assert!(!resources.pipeline.depth_stencil);
    assert_eq!(resources.pipeline.sample_count, 1);
    assert_eq!(
        resources.pipeline.target,
        ColorTargetState {
            format: TextureFormat::Bgra8UnormSrgb,
            blend: BlendState::AlphaBlending,
            write_mask: ColorWrites { red: true, green: true, blue: true, alpha: true },
        }
    );
}

#[test]
fn first_render_draws_six_vertices_once_on_white() {
    let mut r = renderer(640, 480);
    let frame = r.render();
    assert_eq!(frame.commands(), &vec![Command::BeginCommands, Command::AcquireImage]);
    let outcome = frame.complete(Ok(()));
    let commands = match outcome {
        Ok(((), commands)) => commands,
        Err(error) => panic!("no frame: {:?}", error),
    };
    assert_eq!(commands, pass());
    let draws: Vec<&Command> =
        commands.iter().filter(|c| matches!(c, Command::Draw { .. })).collect();
    assert_eq!(
        draws,
        vec![&Command::Draw { first_vertex: 0, vertices: 6, first_instance: 0, instances: 1 }]
    );
    let clear = commands.iter().position(|c| matches!(c, Command::BeginPass { .. }));
    let draw = commands.iter().position(|c| matches!(c, Command::Draw { .. }));
    assert!(clear < draw);
    assert_eq!(commands[1], Command::BeginPass { clear: white() });
    assert!(!r.is_dirty());
}

#[test]
fn closing_is_the_same_for_every_frame() {
    assert_eq!(closing(), pass());
}

#[test]
fn the_acquired_image_comes_back_with_the_pass() {
    let mut r = renderer(640, 480);
    let outcome = r.render().complete(Ok("image"));
    assert_eq!(outcome, Ok(("image", pass())));
}

#[test]
fn set_phase_makes_the_renderer_dirty_and_render_cleans_it() {
    let mut r = renderer(640, 480);
    assert!(!r.is_dirty());
    r.set_phase(number(0.5));
    assert!(r.is_dirty());
    assert_eq!(r.globals().rectangle, Rectangle { phase: number(0.5), ..shape() });
    let frame = r.render();
    assert!(!r.is_dirty());
    assert_eq!(
        frame.commands(),
        &vec![
            Command::WriteBuffer { offset: 0, payload: r.globals() },
            Command::BeginCommands,
            Command::AcquireImage,
        ]
    );
    let again = r.render();
    assert_eq!(again.commands(), &vec![Command::BeginCommands, Command::AcquireImage]);
    assert!(!r.is_dirty());
}

#[test]
fn dirty_follows_setters_and_renders_in_any_order() {
    let mut r = renderer(640, 480);
    let script = [
        "render", "phase", "phase", "render", "render", "resize", "phase", "render", "phase",
        "resize", "render", "resize",
    ];
    let mut changed = false;
    for (step, what) in script.iter().enumerate() {
        match *what {
            "phase" => {
                r.set_phase(number(step as f32));
                changed = true;
            }
            "resize" => {
                r.resize(100 + step as u32, 50 + step as u32);
                changed = true;
            }
            _ => {
                let uploads = r
                    .render()
                    .commands()
                    .iter()
                    .filter(|c| matches!(c, Command::WriteBuffer { .. }))
                    .count();
                assert_eq!(uploads, if changed { 1 } else { 0 });
                changed = false;
            }
        }
        assert_eq!(r.is_dirty(), changed, "after step {}", step);
    }
}

#[test]
fn only_the_last_change_is_uploaded() {
    let mut r = renderer(640, 480);
    r.set_phase(number(1.0));
    r.set_phase(number(2.0));
    r.set_phase(number(3.0));
    let frame = r.render();
    let expected = Globals {
        view_projection: device(640, 480).view_projection(),
        rectangle: Rectangle { phase: number(3.0), ..shape() },
    };
    assert_eq!(frame.commands()[0], Command::WriteBuffer { offset: 0, payload: expected });
}

#[test]
fn resize_then_render_uses_the_new_size() {
    let mut r = renderer(640, 480);
    let applied = r.resize(800, 600);
    assert_eq!(applied.width, 800);
    assert_eq!(applied.height, 600);
    assert_eq!(applied.format, TextureFormat::Bgra8UnormSrgb);
    assert_eq!(r.configure_surface(), applied);
    assert!(r.is_dirty());
    let frame = r.render();
    let expected = Globals {
        view_projection: device(800, 600).view_projection(),
        rectangle: shape(),
    };
    assert_eq!(
        frame.commands(),
        &vec![
            Command::WriteBuffer { offset: 0, payload: expected },
            Command::BeginCommands,
            Command::AcquireImage,
        ]
    );
    assert_eq!(r.configure_surface().width, 800);
    assert_eq!(r.configure_surface().height, 600);
    assert_eq!(frame.complete(Ok(())), Ok(((), pass())));
    assert!(!r.is_dirty());
}

#[test]
fn configure_surface_repeats_the_configuration_in_force() {
    let r = renderer(640, 480);
    let context = device(640, 480);
    assert_eq!(r.configure_surface(), context.surface_config());
    assert_eq!(r.configure_surface(), r.configure_surface());
    assert!(!r.is_dirty());
}

#[test]
fn a_lost_surface_is_reported_as_it_came() {
    let mut r = renderer(640, 480);
    let before = r.is_dirty();
    let frame = r.render();
    let outcome = frame.complete::<()>(Err(SurfaceError::Lost));
    assert_eq!(outcome, Err(SurfaceError::Lost));
    assert_eq!(r.is_dirty(), before);
    assert_eq!(r.globals(), renderer(640, 480).globals());
}

#[test]
fn every_acquisition_error_is_reported_as_it_came() {
    let errors = [
        SurfaceError::Timeout,
        SurfaceError::Outdated,
        SurfaceError::Lost,
        SurfaceError::OutOfMemory,
    ];
    for error in errors {
        let mut r = renderer(640, 480);
        let outcome = r.render().complete::<u8>(Err(error.clone()));
        assert_eq!(outcome, Err(error));
    }
}

#[test]
fn a_failed_frame_has_uploaded_and_leaves_the_renderer_clean() {
    let mut r = renderer(640, 480);
    r.set_phase(number(0.25));
    let frame = r.render();
    assert_eq!(frame.commands()[0], Command::WriteBuffer { offset: 0, payload: r.globals() });
    assert_eq!(frame.complete::<()>(Err(SurfaceError::Timeout)), Err(SurfaceError::Timeout));
    assert!(!r.is_dirty());
    assert_eq!(r.render().commands(), &vec![Command::BeginCommands, Command::AcquireImage]);
}

#[test]
fn the_payload_is_matrix_then_shape_word_for_word() {
    let r = renderer(640, 480);
    let words = r.globals().to_words();
    let f = |x: f32| x.to_bits();
    let expected: Vec<u32> = vec![
        // projection, column after column
        f(1.0 / 320.0), 0, 0, 0,
        0, f(-1.0 / 240.0), 0, 0,
        f(-1.0), f(1.0), f(1.0), 0,
        0, 0, 0, f(1.0),
        // position, half dimensions
        f(320.0), f(240.0), f(160.0), f(120.0),
        // corner radii
        0, 0, 0, 0,
        // outer colour, inner colour
        f(0.8), f(0.4), f(0.2), f(1.0),
        f(0.2), f(0.4), f(0.8), f(1.0),
        // phase, padding
        0, 0, 0, 0,
    ];
    assert_eq!(words, expected);
    assert_eq!(words.len(), 36);
}

#[test]
fn the_bytes_are_the_words_as_the_machine_holds_them() {
    let mut r = renderer(640, 480);
    r.set_phase(number(-2.5));
    let globals = r.globals();
    let bytes = globals.to_bytes();
    assert_eq!(bytes.len(), 144);
    let mut expected: Vec<u8> = Vec::new();
    for word in globals.to_words() {
        expected.extend_from_slice(&word.to_ne_bytes());
    }
    assert_eq!(bytes, expected);
    // The phase is the 33rd word.
    assert_eq!(&bytes[128..132], &(-2.5f32).to_ne_bytes());
    // The first entry of the matrix is the horizontal scale.
    assert_eq!(&bytes[0..4], &(1.0f32 / 320.0).to_ne_bytes());
}

#[test]
fn padding_is_uploaded_as_given() {
    let rectangle = Rectangle { _padding: [0x0102_0304, 5, 0xffff_ffff], ..shape() };
    let (r, _) = RectangleRenderer::new(device(640, 480), rectangle);
    let words = r.globals().to_words();
    assert_eq!(&words[33..36], &[0x0102_0304, 5, 0xffff_ffff]);
}

#[test]
fn the_example_shape_is_valid() {
    assert!(shape().is_valid());
    let rounded = Rectangle { corner_radii: vector4(120.0, 0.0, 60.0, 1.0), ..shape() };
    assert!(rounded.is_valid());
    let flat = Rectangle { half_dimensions: vector2(160.0, -0.0), ..shape() };
    assert!(flat.is_valid());
}

#[test]
fn a_shape_with_a_negative_half_dimension_is_not_valid() {
    assert!(!Rectangle { half_dimensions: vector2(-160.0, 120.0), ..shape() }.is_valid());
    assert!(!Rectangle { half_dimensions: vector2(160.0, -1.0e-30), ..shape() }.is_valid());
}

#[test]
fn a_shape_with_a_radius_beyond_a_half_dimension_is_not_valid() {
    assert!(!Rectangle { corner_radii: vector4(0.0, 0.0, 0.0, 120.5), ..shape() }.is_valid());
    assert!(!Rectangle { corner_radii: vector4(160.0, 0.0, 0.0, 0.0), ..shape() }.is_valid());
    assert!(Rectangle { corner_radii: vector4(120.0, 120.0, 120.0, 120.0), ..shape() }.is_valid());
}

#[test]
fn a_shape_with_a_channel_outside_the_unit_range_is_not_valid() {
    assert!(!Rectangle { outer_color: vector4(0.8, 0.4, 0.2, 1.5), ..shape() }.is_valid());
    assert!(!Rectangle { inner_color: vector4(-0.1, 0.4, 0.8, 1.0), ..shape() }.is_valid());
    assert!(Rectangle { inner_color: vector4(0.0, 1.0, 0.0, 1.0), ..shape() }.is_valid());
}

#[test]
fn a_shape_with_a_number_that_is_none_is_not_valid() {
    assert!(!Rectangle { half_dimensions: vector2(f32::NAN, 120.0), ..shape() }.is_valid());
    assert!(!Rectangle { half_dimensions: vector2(f32::INFINITY, 120.0), ..shape() }.is_valid());
    assert!(!Rectangle { corner_radii: vector4(f32::NAN, 0.0, 0.0, 0.0), ..shape() }.is_valid());
    assert!(!Rectangle { outer_color: vector4(0.8, f32::NAN, 0.2, 1.0), ..shape() }.is_valid());
    // Position and phase are free.
    assert!(Rectangle { position: vector2(f32::NAN, -1.0), phase: number(f32::INFINITY), ..shape() }.is_valid());
}

#[test]
fn the_renderer_takes_a_shape_that_is_not_valid() {
    let odd = Rectangle { corner_radii: vector4(500.0, 0.0, 0.0, 0.0), ..shape() };
    assert!(!odd.is_valid());
    let (r, resources) = RectangleRenderer::new(device(640, 480), odd);
    assert_eq!(r.globals().rectangle, odd);
    assert_eq!(resources.buffer.contents.rectangle, odd);
}
