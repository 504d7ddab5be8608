//! The texture presenter: turns a decoded image and the screen size into an
//! upload plan and the aspect-ratio uniforms read by the render step.
//!
//! The GPU itself lives outside this crate; the presenter computes exactly
//! what must be submitted — the texture extent, the 4-bytes-per-pixel row
//! stride, the pixel buffer, and the integer numerators and denominators of
//! both aspect ratios — and tracks what is currently presented.

use vstd::prelude::*;
use vstd::string::{StrSliceExecFns, StringExecFns};
use crate::errors::ViewerError;
use crate::paths::{file_name_of, file_name_str};

verus! {

/// The widest image a plan can carry: four bytes per pixel must fit the
/// row-stride field.
pub const MAX_TEXTURE_WIDTH: u32 = 1073741823;

/// Screen dimensions in pixels.
#[derive(Clone, Copy, Debug, PartialEq, Eq, Structural)]
pub struct ScreenSize {
    pub width: u32,
    pub height: u32,
}

/// A decoded image: 8-bit RGBA pixels, row-major, four bytes per pixel.
pub struct DecodedImage {
    pub width: u32,
    pub height: u32,
    pub pixels: Vec<u8>,
}

impl DecodedImage {
    /// The buffer holds exactly width * height four-byte pixels.
    pub open spec fn wf(&self) -> bool {
        self.pixels@.len() == 4 * (self.width as int) * (self.height as int)
    }
}

/// What an RGBA decode of a byte sequence yields: pixel dimensions and the
/// pixel bytes, or nothing when the bytes are no image.
pub uninterp spec fn rgba_decoding(bytes: Seq<u8>) -> Option<(u32, u32, Seq<u8>)>;

/// Relies on image::load_from_memory and DynamicImage::to_rgba8: the decode
/// depends on the bytes alone, and the RGBA buffer holds exactly
/// width * height four-byte pixels.
#[verifier::external_body]
fn decode_rgba(bytes: &Vec<u8>) -> (r: Result<DecodedImage, ViewerError>)
    ensures
        match r {
            Ok(d) => {
                &&& rgba_decoding(bytes@) == Some((d.width, d.height, d.pixels@))
                &&& d.wf()
            },
            Err(e) => {
                &&& e == ViewerError::DecodeFailure
                &&& rgba_decoding(bytes@) is None
            },
        },
{
    match image::load_from_memory(bytes.as_slice()) {
        Ok(img) => {
            let rgba = img.to_rgba8();
            let (width, height) = rgba.dimensions();
            Ok(DecodedImage { width, height, pixels: rgba.into_raw() })
        }
        Err(_) => Err(ViewerError::DecodeFailure),
    }
}

/// The layout of one texture upload: tightly packed rows of 4-byte pixels.
#[derive(Clone, Copy, Debug, PartialEq, Eq, Structural)]
pub struct UploadPlan {
    pub width: u32,
    pub height: u32,
    pub bytes_per_row: u32,
    pub rows_per_image: u32,
}

/// The exact integer inputs of the two aspect ratios read by the render
/// step; the quotients themselves are taken at the GPU edge.
#[derive(Clone, Copy, Debug, PartialEq, Eq, Structural)]
pub struct AspectUniforms {
    pub screen_width: u32,
    pub screen_height: u32,
    pub image_width: u32,
    pub image_height: u32,
}

/// What a selection change reports back: the display title and the decoded
/// pixel dimensions.
pub struct SelectionResult {
    pub title: String,
    pub width: u32,
    pub height: u32,
}

/// Everything the shell needs to put one image on screen.
pub struct PresentOutput {
    pub selection: SelectionResult,
    pub plan: UploadPlan,
    pub pixels: Vec<u8>,
}

/// Tracks the current screen size, the presented image (if any) and the
/// uniform values the render step reads.
pub struct TexturePresenter {
    screen: ScreenSize,
    image: Option<(u32, u32)>,
    uniforms: AspectUniforms,
}

impl TexturePresenter {
    /// The screen size last told to the presenter.
    pub closed spec fn screen(&self) -> ScreenSize {
        self.screen
    }

    /// The dimensions of the presented image, if one is presented.
    pub closed spec fn image_size(&self) -> Option<(u32, u32)> {
        self.image
    }

    /// The uniform values the render step currently reads.
    pub closed spec fn uniforms(&self) -> AspectUniforms {
        self.uniforms
    }

    /// Dimensions are positive, and while an image is presented the
    /// uniforms reflect exactly the screen and that image.
    pub open spec fn wf(&self) -> bool {
        &&& self.screen().width > 0
        &&& self.screen().height > 0
        &&& self.uniforms().screen_width > 0
        &&& self.uniforms().screen_height > 0
        &&& self.uniforms().image_width > 0
        &&& self.uniforms().image_height > 0
        &&& match self.image_size() {
            Some(dims) => {
                &&& dims.0 > 0
                &&& dims.1 > 0
                &&& self.uniforms().image_width == dims.0
                &&& self.uniforms().image_height == dims.1
                &&& self.uniforms().screen_width == self.screen().width
                &&& self.uniforms().screen_height == self.screen().height
            },
            None => true,
        }
    }

    /// A presenter with nothing presented: the image aspect defaults to
    /// square until an image arrives.
    pub fn new(screen: ScreenSize) -> (r: Self)
        requires
            screen.width > 0,
            screen.height > 0,
        ensures
            r.wf(),
            r.screen() == screen,
            r.image_size() is None,
            r.uniforms() == (AspectUniforms {
                screen_width: screen.width,
                screen_height: screen.height,
                image_width: 1,
                image_height: 1,
            }),
    {
        TexturePresenter {
            screen,
            image: None,
            uniforms: AspectUniforms {
                screen_width: screen.width,
                screen_height: screen.height,
                image_width: 1,
                image_height: 1,
            },
        }
    }

    /// Whether an image is currently presented.
    pub fn has_image(&self) -> (r: bool)
        ensures
            r == (self.image_size() is Some),
    {
        self.image.is_some()
    }

    /// The presented image's dimensions, if any.
    pub fn image_dimensions(&self) -> (r: Option<(u32, u32)>)
        ensures
            r == self.image_size(),
    {
        self.image
    }

    /// The uniform values to write to the render step's uniform storage.
    pub fn current_uniforms(&self) -> (r: AspectUniforms)
        ensures
            r == self.uniforms(),
    {
        self.uniforms
    }

    /// The current screen size.
    pub fn screen_size(&self) -> (r: ScreenSize)
        ensures
            r == self.screen(),
    {
        self.screen
    }

    /// Presents a decoded image: records its dimensions, recomputes both
    /// aspect terms from the current screen and the image, and lays out the
    /// texture upload.
    pub fn present(&mut self, image: &DecodedImage) -> (r: UploadPlan)
        requires
            old(self).wf(),
            image.wf(),
            0 < image.width <= MAX_TEXTURE_WIDTH,
            image.height > 0,
        ensures
            final(self).wf(),
            final(self).screen() == old(self).screen(),
            final(self).image_size() == Some((image.width, image.height)),
            final(self).uniforms() == (AspectUniforms {
                screen_width: old(self).screen().width,
                screen_height: old(self).screen().height,
                image_width: image.width,
                image_height: image.height,
            }),
            r == (UploadPlan {
                width: image.width,
                height: image.height,
                bytes_per_row: (4 * image.width) as u32,
                rows_per_image: image.height,
            }),
            r.bytes_per_row == 4 * image.width,
    {
        self.image = Some((image.width, image.height));
        self.uniforms = AspectUniforms {
            screen_width: self.screen.width,
            screen_height: self.screen.height,
            image_width: image.width,
            image_height: image.height,
        };
        UploadPlan {
            width: image.width,
            height: image.height,
            bytes_per_row: 4 * image.width,
            rows_per_image: image.height,
        }
    }

    /// Notes a new screen size. While an image is presented, the screen
    /// terms of the uniforms follow it; with nothing presented the uniform
    /// values stay as they were.
    pub fn on_screen_resize(&mut self, new_size: ScreenSize)
        requires
            old(self).wf(),
            new_size.width > 0,
            new_size.height > 0,
        ensures
            final(self).wf(),
            final(self).screen() == new_size,
            final(self).image_size() == old(self).image_size(),
            final(self).uniforms() == if old(self).image_size() is Some {
                AspectUniforms {
                    screen_width: new_size.width,
                    screen_height: new_size.height,
                    image_width: old(self).uniforms().image_width,
                    image_height: old(self).uniforms().image_height,
                }
            } else {
                old(self).uniforms()
            },
    {
        self.screen = new_size;
        if self.image.is_some() {
            self.uniforms = AspectUniforms {
                screen_width: new_size.width,
                screen_height: new_size.height,
                image_width: self.uniforms.image_width,
                image_height: self.uniforms.image_height,
            };
        }
    }

    /// Drops the presented image, as after deleting the last catalog entry;
    /// the uniform values are left as they were.
    pub fn clear(&mut self)
        requires
            old(self).wf(),
        ensures
            final(self).wf(),
            final(self).screen() == old(self).screen(),
            final(self).image_size() is None,
            final(self).uniforms() == old(self).uniforms(),
    {
        self.image = None;
    }
}

/// The window title for a path: a fixed prefix and the file name.
pub fn display_title(path: &String) -> (r: String)
    ensures
        r@ == "EleViewr - "@ + file_name_of(path@),
{
    let name = file_name_str(path.as_str());
    let mut title = String::from_str("EleViewr - ");
    title.append(name);
    title
}

/// Decodes image bytes and presents them: on success the presenter shows
/// exactly the decoded image, and the output carries the display title, the
/// dimensions, the upload plan and the pixel buffer for the shell to
/// submit. On failure the presenter is left exactly as it was.
pub fn show_image(presenter: &mut TexturePresenter, path: &String, bytes: &Vec<u8>) -> (r: Result<
    PresentOutput,
    ViewerError,
>)
    requires
        old(presenter).wf(),
    ensures
        final(presenter).wf(),
        r is Ok <==> match rgba_decoding(bytes@) {
            Some(t) => 0 < t.0 <= MAX_TEXTURE_WIDTH && t.1 > 0,
            None => false,
        },
        match r {
            Ok(out) => {
                &&& rgba_decoding(bytes@) == Some((out.plan.width, out.plan.height, out.pixels@))
                &&& out.selection.width == out.plan.width
                &&& out.selection.height == out.plan.height
                &&& out.selection.title@ == "EleViewr - "@ + file_name_of(path@)
                &&& out.plan.bytes_per_row == 4 * out.plan.width
                &&& out.plan.rows_per_image == out.plan.height
                &&& out.pixels@.len() == 4 * (out.plan.width as int) * (out.plan.height as int)
                &&& final(presenter).screen() == old(presenter).screen()
                &&& final(presenter).image_size() == Some((out.plan.width, out.plan.height))
                &&& final(presenter).uniforms() == (AspectUniforms {
                    screen_width: old(presenter).screen().width,
                    screen_height: old(presenter).screen().height,
                    image_width: out.plan.width,
                    image_height: out.plan.height,
                })
            },
            Err(e) => {
                &&& e == ViewerError::DecodeFailure
                &&& *final(presenter) == *old(presenter)
            },
        },
{
    let decoded = match decode_rgba(bytes) {
        Ok(d) => d,
        Err(e) => {
            return Err(e);
        }
    };
    if decoded.width == 0 || decoded.height == 0 || decoded.width > MAX_TEXTURE_WIDTH {
        return Err(ViewerError::DecodeFailure);
    }
    let title = display_title(path);
    let plan = presenter.present(&decoded);
    Ok(PresentOutput {
        selection: SelectionResult { title, width: decoded.width, height: decoded.height },
        plan,
        pixels: decoded.pixels,
    })
}

} // verus!
