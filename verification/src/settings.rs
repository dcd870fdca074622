//! Settings that the renderer reads, and the shapes that come built in.

use vstd::prelude::*;
use vstd::string::*;

verus! {

/// The colour themes of the editor.
#[derive(Clone, Copy, Debug, PartialEq, Eq, Structural)]
pub enum Theme {
    Dark,
    Light,
    Latte,
    Frappe,
    Macchiato,
    Mocha,
    Oled,
}

/// How the rendered image is sampled when it is shown at another size.
#[derive(Clone, Copy, Debug, PartialEq, Eq, Structural)]
pub enum SamplingType {
    Biliniur,
    Linear,
}

/// The size of the rendered image and how it is shown.
#[derive(Clone, Copy, Debug)]
pub struct ImageSizeSettings {
    pub maintain_aspect_ratio: bool,
    pub selected_aspect: (i32, i32),
    pub aspect_scale: i32,
    pub width: u32,
    pub height: u32,
    pub sampling_type: SamplingType,
}

impl Default for ImageSizeSettings {
    /// Full HD at 16 to 9, sampled bilinearly.
    fn default() -> (s: ImageSizeSettings)
        ensures
            s == (ImageSizeSettings {
                maintain_aspect_ratio: true,
                selected_aspect: (16i32, 9i32),
                aspect_scale: 1920,
                width: 1920,
                height: 1080,
                sampling_type: SamplingType::Biliniur,
            }),
    {
        ImageSizeSettings {
            maintain_aspect_ratio: true,
            selected_aspect: (16, 9),
            aspect_scale: 1920,
            width: 1920,
            height: 1080,
            sampling_type: SamplingType::Biliniur,
        }
    }
}

/// The number that the display shader knows a way of sampling by.
pub open spec fn sampling_code(sampling_type: SamplingType) -> u32 {
    match sampling_type {
        SamplingType::Biliniur => 1,
        SamplingType::Linear => 0,
    }
}

/// What the display shader is told.
#[derive(Clone, Copy, Debug)]
pub struct DisplaySettings {
    pub sampling_type: u32,
}

impl DisplaySettings {
    /// The display settings that go with the image settings.
    pub fn from_settings(iss: &ImageSizeSettings) -> (r: Self)
        ensures
            r.sampling_type == sampling_code(iss.sampling_type),
    {
        let sampling_type: u32 = match iss.sampling_type {
            SamplingType::Biliniur => 1,
            SamplingType::Linear => 0,
        };
        Self { sampling_type }
    }
}

/// A distance function under a name. The code is the body of a function that
/// is given the position `p`, the settings `data` and the material `in_mat`.
#[derive(Debug)]
pub struct ShapeEntry {
    pub name: String,
    pub shader_code: String,
}

/// The body of the built-in sphere: the distance to a ball whose radius is
/// the first setting.
pub open spec fn sphere_code() -> Seq<char> {
    "\n               return ShapeHit(length(p) - data.x, in_mat);\n            "@
}

impl ShapeEntry {
    /// The shapes that come built in: the sphere, and nothing else.
    pub fn hardcoded() -> (r: Vec<ShapeEntry>)
        ensures
            r@.len() == 1,
            r@[0].name@ == "sphere"@,
            r@[0].shader_code@ == sphere_code(),
    {
        let mut shapes: Vec<ShapeEntry> = Vec::new();
        shapes.push(
            ShapeEntry {
                name: String::from_str("sphere"),
                shader_code: String::from_str(
                    "\n               return ShapeHit(length(p) - data.x, in_mat);\n            ",
                ),
            },
        );
        shapes
    }
}

} // verus!
