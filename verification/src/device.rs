//! The device context: what was negotiated with the graphics backend, the
//! surface configuration that is in force, and the projection it implies.

use crate::binary32::lemma_constants;
use crate::binary32::lemma_negation;
use crate::binary32::lemma_normal_magnitude;
use crate::binary32::lemma_rounding_error;
use crate::binary32::lemma_rounds_unique;
use crate::binary32::Binary32;
use crate::binary32::MINUS_ONE_BITS;
use crate::binary32::ONE_BITS;
use crate::binary32::ZERO_BITS;
use crate::linear::Matrix4;
use crate::linear::Vector4;
use crate::surface::choose_format;
use crate::surface::preferred;
use crate::surface::srgb_flags;
use crate::surface::SurfaceConfig;
use vstd::prelude::*;

verus! {

/// `wgpu::RequestDeviceError`, the backend's account of why it refused a
/// device. It is carried from the negotiation into the error, unread.
#[verifier::external_type_specification]
#[verifier::external_body]
pub struct ExRequestDeviceError(wgpu::RequestDeviceError);

/// Which capability limits to ask a device for.
#[derive(Clone, Copy, Debug, PartialEq, Eq, Structural)]
pub enum LimitsProfile {
    /// The backend's defaults.
    Default,
    /// The reduced set that a WebGL2 context can meet.
    DownlevelWebGl2,
}

/// What to ask an adapter for.
#[derive(Clone, Copy, Debug, PartialEq, Eq, Structural)]
pub struct DeviceRequest {
    pub limits: LimitsProfile,
}

/// How the negotiation with the graphics backend ended.
#[derive(Debug)]
pub enum Negotiation {
    /// No adapter can present to the surface.
    NoAdapter,
    /// An adapter was found, and refused the device.
    Refused(wgpu::RequestDeviceError),
    /// Device and queue were granted, and the surface offers these pixel
    /// formats, in this order.
    Granted(Vec<wgpu::TextureFormat>),
}

/// Why no device context could be made.
#[derive(Debug)]
pub enum DeviceError {
    /// No adapter can present to the surface.
    NoCompatibleAdapter,
    /// The backend refused the device; its diagnostic is inside.
    RequestDeviceError(wgpu::RequestDeviceError),
}

/// The horizontal position, in normalized device coordinates, of a pixel
/// abscissa on a surface `width` pixels wide: the left edge is `-1`, the
/// right edge `+1`.
pub open spec fn ndc_x(width: u32, px: real) -> real {
    2real / (width as real) * px - 1real
}

/// The vertical position, in normalized device coordinates, of a pixel
/// ordinate on a surface `height` pixels high: the top edge is `+1`, the
/// bottom edge `-1`.
pub open spec fn ndc_y(height: u32, py: real) -> real {
    -2real / (height as real) * py + 1real
}

/// Whatever the size of the surface, its top-left pixel corner lies at
/// `(-1, +1)` and its bottom-right one at `(+1, -1)`.
pub proof fn lemma_corners(width: u32, height: u32)
    requires
        width > 0,
        height > 0,
    ensures
        ndc_x(width, 0real) == -1real,
        ndc_y(height, 0real) == 1real,
        ndc_x(width, width as real) == 1real,
        ndc_y(height, height as real) == -1real,
{
    let w = width as real;
    let h = height as real;
    assert(2real / w * 0real == 0real && 2real / w * w == 2real) by (nonlinear_arith)
        requires
            w > 0real,
    ;
    assert(-2real / h * 0real == 0real && -2real / h * h == -2real) by (nonlinear_arith)
        requires
            h > 0real,
    ;
}

/// `m` is the binary32 encoding of the map from pixels to normalized device
/// coordinates for a surface of `width` by `height` pixels: each scale is
/// the quotient of `2` (or `-2`) by the converted pixel count, both steps
/// rounded to nearest; the offsets `-1` and `+1` sit in the third column,
/// which a point `(px, py, 1, 0)` picks up.
pub open spec fn is_projection(m: Matrix4, width: u32, height: u32) -> bool {
    &&& exists|w: Binary32|
        #![trigger w.rounds(width as real)]
        w.rounds(width as real) && m.x.x.rounds(2real / w.value())
    &&& exists|h: Binary32|
        #![trigger h.rounds(height as real)]
        h.rounds(height as real) && m.y.y.rounds(-2real / h.value())
    &&& m.x.y.bits == ZERO_BITS && m.x.z.bits == ZERO_BITS && m.x.w.bits == ZERO_BITS
    &&& m.y.x.bits == ZERO_BITS && m.y.z.bits == ZERO_BITS && m.y.w.bits == ZERO_BITS
    &&& m.z.x.bits == MINUS_ONE_BITS && m.z.y.bits == ONE_BITS
    &&& m.z.z.bits == ONE_BITS && m.z.w.bits == ZERO_BITS
    &&& m.w.x.bits == ZERO_BITS && m.w.y.bits == ZERO_BITS
    &&& m.w.z.bits == ZERO_BITS && m.w.w.bits == ONE_BITS
}

/// A surface size has one encoded projection.
pub proof fn lemma_projection_unique(a: Matrix4, b: Matrix4, width: u32, height: u32)
    requires
        is_projection(a, width, height),
        is_projection(b, width, height),
    ensures
        a == b,
{
    let wa = choose|w: Binary32|
        #![trigger w.rounds(width as real)]
        w.rounds(width as real) && a.x.x.rounds(2real / w.value());
    let wb = choose|w: Binary32|
        #![trigger w.rounds(width as real)]
        w.rounds(width as real) && b.x.x.rounds(2real / w.value());
    lemma_rounds_unique(wa, wb, width as real);
    lemma_rounds_unique(a.x.x, b.x.x, 2real / wa.value());
    let ha = choose|h: Binary32|
        #![trigger h.rounds(height as real)]
        h.rounds(height as real) && a.y.y.rounds(-2real / h.value());
    let hb = choose|h: Binary32|
        #![trigger h.rounds(height as real)]
        h.rounds(height as real) && b.y.y.rounds(-2real / h.value());
    lemma_rounds_unique(ha, hb, height as real);
    lemma_rounds_unique(a.y.y, b.y.y, -2real / ha.value());
}

/// The encoded projection sends the pixel origin to `(-1, +1)` exactly.
pub proof fn lemma_projection_origin(m: Matrix4, width: u32, height: u32)
    requires
        is_projection(m, width, height),
    ensures
        m.image_x(0real, 0real) == -1real,
        m.image_y(0real, 0real) == 1real,
{
    lemma_constants();
    assert(m.z.x == Binary32::minus_one());
    assert(m.z.y == Binary32::one());
    let a = m.x.x.value();
    let b = m.y.x.value();
    let c = m.x.y.value();
    let d = m.y.y.value();
    assert(a * 0real == 0real && b * 0real == 0real && c * 0real == 0real && d * 0real == 0real)
        by (nonlinear_arith);
}

/// How far the image of the surface's far corner may lie from `(+1, -1)`
/// under the encoded projection, in either coordinate: `2^-21`.
pub open spec fn corner_tolerance() -> real {
    1real / 0x20_0000 as real
}

/// The product of a pixel count and its encoded scale, both rounded to
/// nearest, misses `2` by less than the tolerance.
proof fn lemma_scale_times_count(count: real, rounded: real, scale: real)
    requires
        count > 0real,
        rounded > 0real,
        scale > 0real,
        0x100_0000 as real * (count - rounded) <= rounded,
        0x100_0000 as real * (rounded - count) <= rounded,
        0x100_0000 as real * (2real / rounded - scale) <= scale,
        0x100_0000 as real * (scale - 2real / rounded) <= scale,
    ensures
        scale * count - 2real <= corner_tolerance(),
        2real - scale * count <= corner_tolerance(),
{
    let a = scale * rounded;
    let t = 0x100_0000 as real;
    assert(t * (2real - a) <= a && t * (a - 2real) <= a) by (nonlinear_arith)
        requires
            a == scale * rounded,
            rounded > 0real,
            t > 0real,
            t * (2real / rounded - scale) <= scale,
            t * (scale - 2real / rounded) <= scale,
    ;
    assert(t * (scale * count - a) <= a && t * (a - scale * count) <= a) by (nonlinear_arith)
        requires
            a == scale * rounded,
            scale > 0real,
            t > 0real,
            t * (count - rounded) <= rounded,
            t * (rounded - count) <= rounded,
    ;
    assert(a <= 3real);
}

/// The encoded projection sends the far corner of the surface, the pixel
/// point `(width, height)`, to within the tolerance of `(+1, -1)`.
pub proof fn lemma_projection_far_corner(m: Matrix4, width: u32, height: u32)
    requires
        width > 0,
        height > 0,
        is_projection(m, width, height),
    ensures
        m.image_x(width as real, height as real) - 1real <= corner_tolerance(),
        1real - m.image_x(width as real, height as real) <= corner_tolerance(),
        m.image_y(width as real, height as real) + 1real <= corner_tolerance(),
        -1real - m.image_y(width as real, height as real) <= corner_tolerance(),
{
    lemma_constants();
    assert(m.z.x == Binary32::minus_one());
    assert(m.z.y == Binary32::one());
    assert(m.x.y == Binary32::zero());
    assert(m.y.x == Binary32::zero());
    let px = width as real;
    let py = height as real;
    assert(0real * px == 0real && 0real * py == 0real) by (nonlinear_arith);

    let w = choose|w: Binary32|
        #![trigger w.rounds(width as real)]
        w.rounds(width as real) && m.x.x.rounds(2real / w.value());
    lemma_rounding_error(w, px);
    let wv = w.magnitude();
    assert(2real / wv > 0real) by (nonlinear_arith)
        requires
            wv > 0real,
    ;
    lemma_rounding_error(m.x.x, 2real / wv);
    lemma_scale_times_count(px, wv, m.x.x.magnitude());

    let h = choose|h: Binary32|
        #![trigger h.rounds(height as real)]
        h.rounds(height as real) && m.y.y.rounds(-2real / h.value());
    lemma_rounding_error(h, py);
    let hv = h.magnitude();
    assert(-2real / hv < 0real && -(-2real / hv) == 2real / hv) by (nonlinear_arith)
        requires
            hv > 0real,
    ;
    lemma_rounding_error(m.y.y, 2real / hv);
    lemma_scale_times_count(py, hv, m.y.y.magnitude());
    let sy = m.y.y.magnitude();
    assert((-sy) * py == -(sy * py)) by (nonlinear_arith);
}

/// The device context, reduced to what the rendering protocol reads: the
/// surface configuration in force. The handles of device, queue and surface
/// stay with whoever talks to the backend.
#[derive(Debug)]
pub struct Device {
    surface_config: SurfaceConfig,
}

impl View for Device {
    type V = SurfaceConfig;

    closed spec fn view(&self) -> SurfaceConfig {
        self.surface_config
    }
}

impl Device {
    /// Width and height are non-zero at all times.
    #[verifier::type_invariant]
    spec fn drawable(self) -> bool {
        self.surface_config.drawable()
    }

    /// Whether a surface of this size can be given a device context.
    pub fn accepts(width: u32, height: u32) -> (ok: bool)
        ensures
            ok == (width != 0 && height != 0),
    {
        width != 0 && height != 0
    }

    /// What to ask the adapter for: the reduced limits where the
    /// environment is constrained, as in a browser, else the defaults.
    pub fn request(constrained: bool) -> (request: DeviceRequest)
        ensures
            request.limits == if constrained {
                LimitsProfile::DownlevelWebGl2
            } else {
                LimitsProfile::Default
            },
    {
        if constrained {
            DeviceRequest { limits: LimitsProfile::DownlevelWebGl2 }
        } else {
            DeviceRequest { limits: LimitsProfile::Default }
        }
    }

    /// Makes the device context from the outcome of the negotiation, or
    /// says why there is none. The context's configuration is the one to
    /// apply to the surface.
    pub fn new(width: u32, height: u32, negotiation: Negotiation) -> (r: Result<Device, DeviceError>)
        requires
            width != 0,
            height != 0,
            negotiation matches Negotiation::Granted(formats) ==> formats@.len() > 0,
        ensures
            match negotiation {
                Negotiation::NoAdapter => r == Err::<Device, DeviceError>(
                    DeviceError::NoCompatibleAdapter,
                ),
                Negotiation::Refused(error) => r == Err::<Device, DeviceError>(
                    DeviceError::RequestDeviceError(error),
                ),
                Negotiation::Granted(formats) => r matches Ok(device) && device@
                    == SurfaceConfig::presentable(
                    formats@[preferred(srgb_flags(formats@))],
                    width,
                    height,
                ),
            },
    {
        match negotiation {
            Negotiation::NoAdapter => Err(DeviceError::NoCompatibleAdapter),
            Negotiation::Refused(error) => Err(DeviceError::RequestDeviceError(error)),
            Negotiation::Granted(formats) => {
                let format = choose_format(&formats);
                Ok(Device { surface_config: SurfaceConfig::new(format, width, height) })
            },
        }
    }

    /// The surface configuration in force.
    pub fn surface_config(&self) -> (config: SurfaceConfig)
        ensures
            config == self@,
            config.drawable(),
    {
        proof {
            use_type_invariant(self);
        }
        self.surface_config
    }

    /// The matrix that takes pixel coordinates (origin top-left, `y` down)
    /// to normalized device coordinates (origin at the centre, `y` up),
    /// computed afresh from the configured size.
    pub fn view_projection(&self) -> (m: Matrix4)
        ensures
            self@.drawable(),
            is_projection(m, self@.width, self@.height),
    {
        proof {
            use_type_invariant(self);
        }
        let w = Binary32::from_u32(self.surface_config.width);
        let h = Binary32::from_u32(self.surface_config.height);
        let x_scalar = w.reciprocal_of_half();
        let y_half = h.reciprocal_of_half();
        let y_scalar = y_half.negated();
        let zero = Binary32::from_bits(ZERO_BITS);
        let one = Binary32::from_bits(ONE_BITS);
        let minus_one = Binary32::from_bits(MINUS_ONE_BITS);
        proof {
            lemma_negation(y_half);
            lemma_normal_magnitude(h);
            let hv = h.value();
            assert(-2real / hv == -(2real / hv)) by (nonlinear_arith)
                requires
                    hv > 0real,
            ;
        }
        Matrix4 {
            x: Vector4 { x: x_scalar, y: zero, z: zero, w: zero },
            y: Vector4 { x: zero, y: y_scalar, z: zero, w: zero },
            z: Vector4 { x: minus_one, y: one, z: one, w: zero },
            w: Vector4 { x: zero, y: zero, z: zero, w: one },
        }
    }

    /// Takes a new surface size, and returns the configuration to apply to
    /// the surface, without which its images are no longer valid.
    pub fn resize(&mut self, width: u32, height: u32) -> (config: SurfaceConfig)
        requires
            width != 0,
            height != 0,
        ensures
            final(self)@ == old(self)@.resized(width, height),
            config == final(self)@,
    {
        proof {
            use_type_invariant(&*self);
        }
        self.surface_config.width = width;
        self.surface_config.height = height;
        self.surface_config
    }
}

} // verus!
