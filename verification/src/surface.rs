//! The configuration of a presentable surface, and the choice of its pixel
//! format.

use vstd::prelude::*;

verus! {

/// `wgpu::TextureFormat`, a pixel format as the backend names it. Formats
/// are handed on as they were offered; all that is ever asked of one is
/// whether it is sRGB-encoded.
#[verifier::external_type_specification]
#[verifier::external_body]
pub struct ExTextureFormat(wgpu::TextureFormat);

/// Whether a pixel format stores its colour channels sRGB-encoded, as
/// `wgpu::TextureFormat::is_srgb` tells.
pub uninterp spec fn srgb_encoded(format: wgpu::TextureFormat) -> bool;

/// Calls `wgpu::TextureFormat::is_srgb`, which compares the format with
/// itself stripped of its `Srgb` suffix: a function of the format alone.
#[verifier::external_body]
fn is_srgb(format: &wgpu::TextureFormat) -> (srgb: bool)
    ensures
        srgb == srgb_encoded(*format),
{
    format.is_srgb()
}

/// How presentation is paced against the display's refresh.
#[derive(Clone, Copy, Debug, PartialEq, Eq, Structural)]
pub enum PresentMode {
    AutoVsync,
    AutoNoVsync,
    Fifo,
    FifoRelaxed,
    Immediate,
    Mailbox,
}

/// How the surface's alpha channel is composited with what lies behind it.
#[derive(Clone, Copy, Debug, PartialEq, Eq, Structural)]
pub enum CompositeAlphaMode {
    Auto,
    Opaque,
    PreMultiplied,
    PostMultiplied,
    Inherit,
}

/// What the surface's images may be used for.
#[derive(Clone, Copy, Debug, PartialEq, Eq, Structural)]
pub struct TextureUsages {
    pub copy_src: bool,
    pub copy_dst: bool,
    pub texture_binding: bool,
    pub storage_binding: bool,
    pub render_attachment: bool,
}

/// Frames that may be queued ahead of the display: small, to bound the lag
/// between input and picture.
pub const FRAME_LATENCY: u32 = 3;

/// The configuration of a presentable surface. No further view formats are
/// ever asked for.
#[derive(Clone, Copy, Debug, PartialEq, Eq)]
pub struct SurfaceConfig {
    pub usage: TextureUsages,
    pub format: wgpu::TextureFormat,
    pub width: u32,
    pub height: u32,
    pub present_mode: PresentMode,
    pub desired_maximum_frame_latency: u32,
    pub alpha_mode: CompositeAlphaMode,
}

impl SurfaceConfig {
    /// The one configuration this library gives a surface of a format and a
    /// size: render target only, locked to vertical sync, opaque, with at
    /// most `FRAME_LATENCY` frames in flight.
    pub open spec fn presentable(format: wgpu::TextureFormat, width: u32, height: u32) -> SurfaceConfig {
        SurfaceConfig {
            usage: TextureUsages {
                copy_src: false,
                copy_dst: false,
                texture_binding: false,
                storage_binding: false,
                render_attachment: true,
            },
            format,
            width,
            height,
            present_mode: PresentMode::AutoVsync,
            desired_maximum_frame_latency: FRAME_LATENCY,
            alpha_mode: CompositeAlphaMode::Opaque,
        }
    }

    /// A surface cannot be configured to an empty size.
    pub open spec fn drawable(self) -> bool {
        self.width != 0 && self.height != 0
    }

    /// The same configuration at another size.
    pub open spec fn resized(self, width: u32, height: u32) -> SurfaceConfig {
        SurfaceConfig { width, height, ..self }
    }

    /// Builds `presentable(format, width, height)`.
    pub fn new(format: wgpu::TextureFormat, width: u32, height: u32) -> (config: SurfaceConfig)
        ensures
            config == Self::presentable(format, width, height),
    {
        SurfaceConfig {
            usage: TextureUsages {
                copy_src: false,
                copy_dst: false,
                texture_binding: false,
                storage_binding: false,
                render_attachment: true,
            },
            format,
            width,
            height,
            present_mode: PresentMode::AutoVsync,
            desired_maximum_frame_latency: FRAME_LATENCY,
            alpha_mode: CompositeAlphaMode::Opaque,
        }
    }
}

/// `i` is the place of the preferred entry in a list of offers flagged by
/// whether each is sRGB-encoded: the first flagged one, or the first of all
/// where none is flagged.
pub open spec fn is_preferred(flags: Seq<bool>, i: int) -> bool {
    &&& 0 <= i < flags.len()
    &&& forall|j: int| 0 <= j < i ==> !flags[j]
    &&& flags[i] || (i == 0 && forall|j: int| 0 <= j < flags.len() ==> !flags[j])
}

/// The place of the preferred entry of a non-empty list.
pub open spec fn preferred(flags: Seq<bool>) -> int {
    choose|i: int| is_preferred(flags, i)
}

/// A non-empty list has exactly one preferred entry.
pub proof fn lemma_preferred_unique(flags: Seq<bool>, i: int)
    requires
        is_preferred(flags, i),
    ensures
        preferred(flags) == i,
{
    let k = preferred(flags);
    assert(is_preferred(flags, k));
    if k < i {
        assert(!flags[k]);
    } else if i < k {
        assert(!flags[i]);
    }
}

/// The sRGB flags of a list of formats, in order.
pub open spec fn srgb_flags(formats: Seq<wgpu::TextureFormat>) -> Seq<bool> {
    Seq::new(formats.len(), |k: int| srgb_encoded(formats[k]))
}

/// Picks among offers flagged as sRGB-encoded or not: the first flagged
/// one, else the first.
pub fn preferred_index(flags: &Vec<bool>) -> (i: usize)
    requires
        flags@.len() > 0,
    ensures
        is_preferred(flags@, i as int),
        i as int == preferred(flags@),
{
    let mut i: usize = 0;
    while i < flags.len()
        invariant
            i <= flags@.len(),
            forall|j: int| 0 <= j < i ==> !flags@[j],
        decreases flags@.len() - i,
    {
        if flags[i] {
            proof {
                lemma_preferred_unique(flags@, i as int);
            }
            return i;
        }
        i = i + 1;
    }
    proof {
        lemma_preferred_unique(flags@, 0);
    }
    0
}

/// Picks the surface format among those offered: the first sRGB-encoded
/// one, else the first.
pub fn choose_format(formats: &Vec<wgpu::TextureFormat>) -> (chosen: wgpu::TextureFormat)
    requires
        formats@.len() > 0,
    ensures
        chosen == formats@[preferred(srgb_flags(formats@))],
{
    let mut flags: Vec<bool> = Vec::new();
    let mut k: usize = 0;
    while k < formats.len()
        invariant
            k <= formats@.len(),
            flags@.len() == k,
            forall|j: int| 0 <= j < k ==> flags@[j] == srgb_encoded(formats@[j]),
        decreases formats@.len() - k,
    {
        let srgb = is_srgb(&formats[k]);
        flags.push(srgb);
        k = k + 1;
    }
    assert(flags@ =~= srgb_flags(formats@));
    let i = preferred_index(&flags);
    formats[i]
}

} // verus!
