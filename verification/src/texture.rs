use vstd::prelude::*;

use crate::handle::{spec_access_type_gl, AccessType, GLHandle};
use crate::material::GlCommand;
use vstd::arithmetic::power2::{lemma2_to64, lemma_pow2_adds, lemma_pow2_pos, pow2};

verus! {

/// The image formats a texture can hold.
#[derive(Clone, Copy, Debug, PartialEq, Eq, Structural)]
pub enum ImageFormat {
    Rgba8Unorm,
    Rgba8SRgb,
    Rgb8Unorm,
    Rgb8SRgb,
    Rgba16Float,
    Depth32Float,
}

/// A format resolved to the device's enumerants: the pixel format, the
/// internal storage format and the component type.
#[derive(Clone, Copy, Debug, PartialEq, Eq, Structural)]
pub struct ImageFormatGL {
    pub format: u32,
    pub internal_format: u32,
    pub component_type: u32,
}

/// The device enumerants of each format, as the graphics API defines
/// them: RGBA 0x1908, RGB 0x1907, DEPTH_COMPONENT 0x1902; RGBA8 0x8058,
/// SRGB8_ALPHA8 0x8C43, RGB8 0x8051, SRGB8 0x8C41, RGBA16F 0x881A,
/// DEPTH_COMPONENT32F 0x8CAC; UNSIGNED_BYTE 0x1401, FLOAT 0x1406.
/// Float-typed formats take FLOAT-typed pixel uploads.
pub open spec fn spec_image_format_gl(f: ImageFormat) -> ImageFormatGL {
    match f {
        ImageFormat::Rgba8Unorm => ImageFormatGL {
            format: 0x1908,
            internal_format: 0x8058,
            component_type: 0x1401,
        },
        ImageFormat::Rgba8SRgb => ImageFormatGL {
            format: 0x1908,
            internal_format: 0x8C43,
            component_type: 0x1401,
        },
        ImageFormat::Rgb8Unorm => ImageFormatGL {
            format: 0x1907,
            internal_format: 0x8051,
            component_type: 0x1401,
        },
        ImageFormat::Rgb8SRgb => ImageFormatGL {
            format: 0x1907,
            internal_format: 0x8C41,
            component_type: 0x1401,
        },
        ImageFormat::Rgba16Float => ImageFormatGL {
            format: 0x1908,
            internal_format: 0x881A,
            component_type: 0x1406,
        },
        ImageFormat::Depth32Float => ImageFormatGL {
            format: 0x1902,
            internal_format: 0x8CAC,
            component_type: 0x1406,
        },
    }
}

impl ImageFormat {
    /// The device enumerants of this format.
    pub fn to_gl(&self) -> (r: ImageFormatGL)
        ensures
            r == spec_image_format_gl(*self),
    {
        match self {
            ImageFormat::Rgba8Unorm => ImageFormatGL {
                format: 0x1908,
                internal_format: 0x8058,
                component_type: 0x1401,
            },
            ImageFormat::Rgba8SRgb => ImageFormatGL {
                format: 0x1908,
                internal_format: 0x8C43,
                component_type: 0x1401,
            },
            ImageFormat::Rgb8Unorm => ImageFormatGL {
                format: 0x1907,
                internal_format: 0x8051,
                component_type: 0x1401,
            },
            ImageFormat::Rgb8SRgb => ImageFormatGL {
                format: 0x1907,
                internal_format: 0x8C41,
                component_type: 0x1401,
            },
            ImageFormat::Rgba16Float => ImageFormatGL {
                format: 0x1908,
                internal_format: 0x881A,
                component_type: 0x1406,
            },
            ImageFormat::Depth32Float => ImageFormatGL {
                format: 0x1902,
                internal_format: 0x8CAC,
                component_type: 0x1406,
            },
        }
    }
}

/// A decoded image: its dimensions, format, and pixel bytes, four
/// channels per pixel.  Reading and decoding the file is device-shell
/// work; this type only carries the result with its size discipline.
pub struct TextureData {
    pub width: u32,
    pub height: u32,
    pub format: ImageFormat,
    pub data: Vec<u8>,
}

impl TextureData {
    /// The pixel bytes cover the dimensions exactly: four bytes per
    /// pixel.
    pub open spec fn wf(self) -> bool {
        self.data@.len() == self.width * self.height * 4
    }

    /// Wrap decoded pixels, checking the size discipline.
    pub fn new(width: u32, height: u32, format: ImageFormat, data: Vec<u8>) -> (r: Option<
        TextureData,
    >)
        ensures
            r is Some <==> data@.len() == width * height * 4,
            r is Some ==> {
                let t = r->0;
                &&& t.width == width
                &&& t.height == height
                &&& t.format == format
                &&& t.data@ == data@
                &&& t.wf()
            },
    {
        proof {
            assert((width as int) * (height as int) * 4 <= 0xFFFF_FFFFu64 * 0xFFFF_FFFFu64 * 4)
                by (nonlinear_arith)
                requires
                    width <= 0xFFFF_FFFFu32,
                    height <= 0xFFFF_FFFFu32,
            ;
        }
        let expected: u128 = (width as u128) * (height as u128) * 4;
        if (data.len() as u128) == expected {
            Some(TextureData { width, height, format, data })
        } else {
            None
        }
    }
}

/// A device texture: its handle, dimensions and format.  Uploading the
/// pixels and creating the storage are device-shell work.
pub struct Texture {
    pub handle: GLHandle,
    pub width: u32,
    pub height: u32,
    pub format: ImageFormat,
}

impl Texture {
    /// A texture record over an existing device handle.
    pub fn new_from_format(handle: GLHandle, width: u32, height: u32, format: ImageFormat) -> (r:
        Texture)
        ensures
            r.handle == handle,
            r.width == width,
            r.height == height,
            r.format == format,
    {
        Texture { handle, width, height, format }
    }

    pub fn size(&self) -> (r: (u32, u32))
        ensures
            r.0 == self.width,
            r.1 == self.height,
    {
        (self.width, self.height)
    }

    /// The command that binds the texture to a texture unit.
    pub fn bind(&self, index: u32) -> (r: GlCommand)
        ensures
            r == GlCommand::BindTextureUnit(index, self.handle.spec_get()),
    {
        GlCommand::BindTextureUnit(index, self.handle.get())
    }

    /// The command that binds the texture as an image with the given
    /// access kind, in its own internal format.
    pub fn bind_as_image(&self, index: u32, access: AccessType) -> (r: GlCommand)
        ensures
            r == GlCommand::BindImageTexture(
                index,
                self.handle.spec_get(),
                spec_access_type_gl(access),
                spec_image_format_gl(self.format).internal_format,
            ),
    {
        GlCommand::BindImageTexture(
            index,
            self.handle.get(),
            access.to_gl(),
            self.format.to_gl().internal_format,
        )
    }

    /// How many mip levels a texture of the given size needs: one base level
    /// plus one level per halving of the larger side, so that
    /// `2^(r-1) <= max(width, height) < 2^r`.
    pub fn mip_levels(width: u32, height: u32) -> (r: u32)
        requires
            width >= 1,
            height >= 1,
        ensures
            1 <= r <= 32,
            pow2((r - 1) as nat) <= (if width >= height {
                width
            } else {
                height
            }),
            (if width >= height {
                width
            } else {
                height
            }) < pow2(r as nat),
    {
        let side: u32 = if width >= height {
            width
        } else {
            height
        };
        let mut levels: u32 = 1;
        let mut s: u32 = side;
        proof {
            lemma2_to64();
            assert(pow2(0) == 1);
            assert(side as int / 1int == side as int);
        }
        while s >= 2
            invariant
                1 <= levels <= 32,
                1 <= s,
                s == side as int / pow2((levels - 1) as nat) as int,
                pow2((levels - 1) as nat) <= side,
            decreases s,
        {
            proof {
                let k: nat = (levels - 1) as nat;
                let p: int = pow2(k) as int;
                lemma_pow2_pos(k);
                vstd::arithmetic::div_mod::lemma_fundamental_div_mod(side as int, p);
                vstd::arithmetic::mul::lemma_mul_inequality(2, s as int, p);
                assert(side as int >= 2 * p);
                lemma_pow2_adds(k, 1);
                lemma2_to64();
                assert(pow2((k + 1) as nat) == pow2(k) * 2);
                if levels >= 32 {
                    lemma_pow2_adds(31, (k - 31) as nat);
                    lemma_pow2_pos((k - 31) as nat);
                    vstd::arithmetic::mul::lemma_mul_inequality(
                        1,
                        pow2((k - 31) as nat) as int,
                        pow2(31) as int,
                    );
                    assert(false);
                }
                vstd::arithmetic::div_mod::lemma_div_denominator(side as int, p, 2);
            }
            s = s / 2;
            levels = levels + 1;
        }
        proof {
            lemma_pow2_pos((levels - 1) as nat);
            vstd::arithmetic::div_mod::lemma_fundamental_div_mod(
                side as int,
                pow2((levels - 1) as nat) as int,
            );
            lemma_pow2_adds((levels - 1) as nat, 1);
            lemma2_to64();
            assert(pow2(levels as nat) == pow2((levels - 1) as nat) * 2);
        }
        levels
    }
}

} // verus!
