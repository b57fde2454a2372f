//! Texture and render target descriptions.

use vstd::prelude::*;

verus! {

/// What a sampler reads outside the `[0, 1]` range of texture coordinates.
#[derive(Clone, Copy, Debug, PartialEq, Eq, Structural)]
pub enum WrapMode {
    Repeat,
    ClampToEdge,
    ClampToBorder,
    MirroredRepeat,
}

/// One axis of a texture: its extent in texels and its wrap mode.
#[derive(Clone, Copy, Debug, PartialEq, Eq, Structural)]
pub struct PixelChannel {
    pub size: usize,
    pub wrap: WrapMode,
}

impl PixelChannel {
    /// An axis of `size` texels that repeats.
    pub fn default(size: usize) -> (r: Self)
        ensures
            r == (PixelChannel { size, wrap: WrapMode::Repeat }),
    {
        Self { size: size, wrap: WrapMode::Repeat }
    }

    pub fn resize(self, size: usize) -> (r: Self)
        ensures
            r == (PixelChannel { size, ..self }),
    {
        let mut s = self;
        s.size = size;
        s
    }

    pub fn with_wrap(self, wrap: WrapMode) -> (r: Self)
        ensures
            r == (PixelChannel { wrap, ..self }),
    {
        let mut s = self;
        s.wrap = wrap;
        s
    }
}

/// The shape of a texture: a 2D texture with its horizontal and vertical axes.
#[derive(Clone, Copy, Debug, PartialEq, Eq, Structural)]
pub enum SamplerType {
    Sampler2D(PixelChannel, PixelChannel),
}

/// Texture filtering.
#[derive(Clone, Copy, Debug, PartialEq, Eq, Structural)]
pub enum Filter {
    Nearest,
    Linear,
    NearestMipmapNearest,
    NearestMipmapLinear,
    LinearMipmapNearest,
    LinearMipmapLinear,
}

/// The filters used when a texture is shrunk and when it is magnified.
#[derive(Clone, Copy, Debug, PartialEq, Eq, Structural)]
pub struct MinMagFilter {
    pub min_filter: Filter,
    pub mag_filter: Filter,
}

impl MinMagFilter {
    /// Nearest-texel filtering both ways.
    pub fn default() -> (r: Self)
        ensures
            r == (MinMagFilter { min_filter: Filter::Nearest, mag_filter: Filter::Nearest }),
    {
        Self { min_filter: Filter::Nearest, mag_filter: Filter::Nearest }
    }

    pub fn with_min_filter(self, filter: Filter) -> (r: Self)
        ensures
            r == (MinMagFilter { min_filter: filter, ..self }),
    {
        let mut s = self;
        s.min_filter = filter;
        s
    }

    pub fn with_mag_filter(self, filter: Filter) -> (r: Self)
        ensures
            r == (MinMagFilter { mag_filter: filter, ..self }),
    {
        let mut s = self;
        s.mag_filter = filter;
        s
    }
}

/// The format of the texels of a surface: integer, float or depth formats,
/// and normalized byte formats that carry their filtering.
#[derive(Clone, Copy, Debug, PartialEq, Eq, Structural)]
pub enum PixelFormat {
    RGB8U,
    RGBA8U,
    R8U,
    RGB32U,
    RGBA32U,
    R32U,
    RGB32F,
    RGBA32F,
    R32F,
    D16,
    D32,
    D24S8,
    D32S8,
    RGB8(MinMagFilter),
    RGBA8(MinMagFilter),
    R8(MinMagFilter),
}

/// Whether a surface is read back as unsigned integers or as floats.
#[derive(Clone, Copy, Debug, PartialEq, Eq, Structural)]
pub enum OrigSurfaceType {
    UInt,
    Float,
}

/// Whether a surface holds colors or depth.
#[derive(Clone, Copy, Debug, PartialEq, Eq, Structural)]
pub enum OrigSurfaceClass {
    Color,
    Depth,
}

/// The unsigned integer formats.
pub open spec fn is_uint_format(pf: PixelFormat) -> bool {
    pf is RGB8U || pf is RGBA8U || pf is R8U || pf is RGB32U || pf is RGBA32U || pf is R32U
}

/// The depth formats.
pub open spec fn is_depth_format(pf: PixelFormat) -> bool {
    pf is D16 || pf is D32 || pf is D24S8 || pf is D32S8
}

impl PixelFormat {
    /// Unsigned integer formats are read as integers, every other format as floats.
    pub fn to_orig_surface_type(&self) -> (r: OrigSurfaceType)
        ensures
            r == (if is_uint_format(*self) { OrigSurfaceType::UInt } else { OrigSurfaceType::Float }),
    {
        match self {
            PixelFormat::RGB8U => OrigSurfaceType::UInt,
            PixelFormat::RGBA8U => OrigSurfaceType::UInt,
            PixelFormat::R8U => OrigSurfaceType::UInt,
            PixelFormat::RGB32U => OrigSurfaceType::UInt,
            PixelFormat::RGBA32U => OrigSurfaceType::UInt,
            PixelFormat::R32U => OrigSurfaceType::UInt,
            PixelFormat::RGB32F => OrigSurfaceType::Float,
            PixelFormat::RGBA32F => OrigSurfaceType::Float,
            PixelFormat::R32F => OrigSurfaceType::Float,
            PixelFormat::D16 => OrigSurfaceType::Float,
            PixelFormat::D32 => OrigSurfaceType::Float,
            PixelFormat::D24S8 => OrigSurfaceType::Float,
            PixelFormat::D32S8 => OrigSurfaceType::Float,
            PixelFormat::RGB8(_) => OrigSurfaceType::Float,
            PixelFormat::RGBA8(_) => OrigSurfaceType::Float,
            PixelFormat::R8(_) => OrigSurfaceType::Float,
        }
    }

    /// Depth formats hold depth, every other format colors.
    pub fn surface_class(&self) -> (r: OrigSurfaceClass)
        ensures
            r == (if is_depth_format(*self) { OrigSurfaceClass::Depth } else { OrigSurfaceClass::Color }),
    {
        match self {
            PixelFormat::D16 | PixelFormat::D32 | PixelFormat::D24S8 | PixelFormat::D32S8 => OrigSurfaceClass::Depth,
            _ => OrigSurfaceClass::Color,
        }
    }
}

/// A texture's shape, mip levels and texel format.
#[derive(Clone, Copy, Debug, PartialEq, Eq, Structural)]
pub struct SamplerDesc {
    pub image_type: SamplerType,
    pub mip_maps: usize,
    pub pixel_format: PixelFormat,
}

pub open spec fn sampler_width(d: SamplerDesc) -> usize {
    match d.image_type {
        SamplerType::Sampler2D(w, _) => w.size,
    }
}

pub open spec fn sampler_height(d: SamplerDesc) -> usize {
    match d.image_type {
        SamplerType::Sampler2D(_, h) => h.size,
    }
}

impl SamplerDesc {
    /// A `width` by `height` RGBA byte texture that repeats, without mip levels.
    pub fn default(width: usize, height: usize) -> (r: Self)
        ensures
            r == (SamplerDesc {
                image_type: SamplerType::Sampler2D(
                    PixelChannel { size: width, wrap: WrapMode::Repeat },
                    PixelChannel { size: height, wrap: WrapMode::Repeat },
                ),
                mip_maps: 0,
                pixel_format: PixelFormat::RGBA8U,
            }),
    {
        Self {
            image_type: SamplerType::Sampler2D(PixelChannel::default(width), PixelChannel::default(height)),
            mip_maps: 0,
            pixel_format: PixelFormat::RGBA8U,
        }
    }

    /// The same texture wrapping as `wrap` along both axes.
    pub fn with_wrap_mode(self, wrap: WrapMode) -> (r: Self)
        ensures
            r == (SamplerDesc {
                image_type: SamplerType::Sampler2D(
                    PixelChannel { size: sampler_width(self), wrap },
                    PixelChannel { size: sampler_height(self), wrap },
                ),
                ..self
            }),
    {
        let mut s = self;
        let image_type = match s.image_type {
            SamplerType::Sampler2D(w, h) => {
                let mut w = w;
                let mut h = h;
                w.wrap = wrap;
                h.wrap = wrap;
                SamplerType::Sampler2D(w, h)
            },
        };
        s.image_type = image_type;
        s
    }

    pub fn with_pixel_format(self, pf: PixelFormat) -> (r: Self)
        ensures
            r == (SamplerDesc { pixel_format: pf, ..self }),
    {
        let mut s = self;
        s.pixel_format = pf;
        s
    }

    pub fn with_mip_maps(self, levels: usize) -> (r: Self)
        ensures
            r == (SamplerDesc { mip_maps: levels, ..self }),
    {
        let mut s = self;
        s.mip_maps = levels;
        s
    }

    pub fn width(&self) -> (r: usize)
        ensures
            r == sampler_width(*self),
    {
        match self.image_type {
            SamplerType::Sampler2D(PixelChannel { size, wrap: _ }, _) => size,
        }
    }

    pub fn height(&self) -> (r: usize)
        ensures
            r == sampler_height(*self),
    {
        match self.image_type {
            SamplerType::Sampler2D(_, PixelChannel { size, wrap: _ }) => size,
        }
    }
}

/// A texture: its description and the texels to fill it with, if any.
pub struct TextureDesc {
    pub sampler_desc: SamplerDesc,
    pub payload: Option<Vec<u8>>,
}

/// A render target: its description and sample count.
#[derive(Clone, Copy)]
pub struct RenderTargetDesc {
    pub sampler_desc: SamplerDesc,
    pub sample_count: usize,
}

/// Setting the wrap mode, the texel format or the mip levels keeps the extent of the texture.
pub proof fn lemma_builders_keep_extent(d: SamplerDesc, wrap: WrapMode, pf: PixelFormat, levels: usize)
    ensures
        ({
            let w = SamplerDesc {
                image_type: SamplerType::Sampler2D(
                    PixelChannel { size: sampler_width(d), wrap },
                    PixelChannel { size: sampler_height(d), wrap },
                ),
                ..d
            };
            &&& sampler_width(w) == sampler_width(d) && sampler_height(w) == sampler_height(d)
            &&& sampler_width(SamplerDesc { pixel_format: pf, ..d }) == sampler_width(d)
            &&& sampler_height(SamplerDesc { pixel_format: pf, ..d }) == sampler_height(d)
            &&& sampler_width(SamplerDesc { mip_maps: levels, ..d }) == sampler_width(d)
            &&& sampler_height(SamplerDesc { mip_maps: levels, ..d }) == sampler_height(d)
        }),
{
}

} // verus!
