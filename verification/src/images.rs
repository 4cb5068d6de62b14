//! Image data of BSP files: lightmap atlas slots and embedded (palette-indexed) textures become
//! RGBA8 textures.
use vstd::prelude::*;

verus! {

/// The pixels of an RGB image as RGBA bytes, each pixel fully opaque.
pub fn rgba_from_rgb(pixels: &Vec<[u8; 3]>) -> (r: Vec<u8>)
    ensures
        r@.len() == 4 * pixels@.len(),
        forall|i: int, c: int| 0 <= i < pixels@.len() && 0 <= c < 3 ==> r@[4 * i + c] == #[trigger] pixels@[i][c],
        forall|i: int| 0 <= i < pixels@.len() ==> #[trigger] r@[4 * i + 3] == 255,
{
    let mut out: Vec<u8> = Vec::new();
    let mut i: usize = 0;
    while i < pixels.len()
        invariant
            i <= pixels@.len(),
            out@.len() == 4 * i,
            forall|j: int, c: int| 0 <= j < i && 0 <= c < 3 ==> out@[4 * j + c] == #[trigger] pixels@[j][c],
            forall|j: int| 0 <= j < i ==> #[trigger] out@[4 * j + 3] == 255,
        decreases pixels@.len() - i,
    {
        let p = pixels[i];
        out.push(p[0]);
        out.push(p[1]);
        out.push(p[2]);
        out.push(255);
        i = i + 1;
    }
    out
}

/// Whether an embedded texture is a cutout texture: its name begins with `{` (an empty name
/// does not).
pub fn is_cutout_texture(name: &str) -> (r: bool)
    ensures
        r == (name@.len() > 0 && name@[0] == '{'),
{
    name.unicode_len() > 0 && name.get_char(0) == '{'
}

/// The texel of palette index `pixel`: transparent black for index 255 of a cutout texture,
/// else the palette's color, fully opaque.
pub open spec fn indexed_texel(pixel: u8, palette: [[u8; 3]; 256], cutout: bool) -> [u8; 4] {
    if cutout && pixel == 255 {
        [0u8, 0, 0, 0]
    } else {
        [palette[pixel as int][0], palette[pixel as int][1], palette[pixel as int][2], 255u8]
    }
}

/// The RGBA bytes of a palette-indexed image; with `cutout`, index 255 is transparent.
pub fn rgba_from_indexed(pixels: &Vec<u8>, palette: &[[u8; 3]; 256], cutout: bool) -> (r: Vec<u8>)
    ensures
        r@.len() == 4 * pixels@.len(),
        forall|i: int, c: int| 0 <= i < pixels@.len() && 0 <= c < 4 ==> r@[4 * i + c] == #[trigger] indexed_texel(pixels@[i], *palette, cutout)[c],
{
    let mut out: Vec<u8> = Vec::new();
    let mut i: usize = 0;
    while i < pixels.len()
        invariant
            i <= pixels@.len(),
            out@.len() == 4 * i,
            forall|j: int, c: int| 0 <= j < i && 0 <= c < 4 ==> out@[4 * j + c] == #[trigger] indexed_texel(pixels@[j], *palette, cutout)[c],
        decreases pixels@.len() - i,
    {
        let p = pixels[i];
        if cutout && p == 255 {
            out.push(0);
            out.push(0);
            out.push(0);
            out.push(0);
        } else {
            let rgb = palette[p as usize];
            out.push(rgb[0]);
            out.push(rgb[1]);
            out.push(rgb[2]);
            out.push(255);
        }
        i = i + 1;
    }
    out
}

} // verus!
