//! From the pixels of an icon to a PNG file.

use vstd::prelude::*;

verus! {

/// The PNG file that holds `pixels`, RGBA with 8 bits a channel, as an image of
/// this width and height.
pub uninterp spec fn rgba_png(width: u32, height: u32, pixels: Seq<u8>) -> Seq<u8>;

/// The eight bytes that every PNG file starts with.
pub open spec fn png_signature() -> Seq<u8> {
    seq![0x89, 0x50, 0x4E, 0x47, 0x0D, 0x0A, 0x1A, 0x0A]
}

/// True when an RGBA image of this width and height is not empty and `len`
/// bytes are enough for it.
pub open spec fn image_fits(width: u32, height: u32, len: int) -> bool {
    width > 0 && height > 0 && 4 * width * height <= len
}

/// A file with the PNG signature starts with 0x89, `PNG`, a carriage return and a
/// newline, 0x1A and a newline; and a file that starts so has it.
pub proof fn law_signature_leads(file: Seq<u8>)
    ensures
        png_signature().is_prefix_of(file) <==> file.len() >= 8 && file.take(8) == seq![
            0x89u8,
            0x50,
            0x4E,
            0x47,
            0x0D,
            0x0A,
            0x1A,
            0x0A,
        ],
{
    if png_signature().is_prefix_of(file) {
        assert(file.take(8) =~= png_signature());
    }
}

/// `image`'s `ImageBuffer::write_to` with `ImageFormat::Png`, on the `RgbaImage`
/// that `ImageBuffer::from_raw` makes of the arguments. There is no such image
/// where `pixels` is too short for it, and an empty one is no PNG; any other is
/// written. What is written depends on the arguments alone and starts with the
/// PNG signature.
#[verifier::external_body]
fn write_png(width: u32, height: u32, pixels: Vec<u8>) -> (png: Option<Vec<u8>>)
    ensures
        png is Some <==> image_fits(width, height, pixels@.len() as int),
        png matches Some(bytes) ==> bytes@ == rgba_png(width, height, pixels@),
        png matches Some(bytes) ==> png_signature().is_prefix_of(bytes@),
{
    let image = image::RgbaImage::from_raw(width, height, pixels)?;
    let mut file = std::io::Cursor::new(Vec::new());
    image.write_to(&mut file, image::ImageFormat::Png).ok()?;
    Some(file.into_inner())
}

/// The bytes of a PNG file.
#[derive(Debug)]
pub struct Png {
    bytes: Vec<u8>,
}

impl View for Png {
    type V = Seq<u8>;

    closed spec fn view(&self) -> Seq<u8> {
        self.bytes@
    }
}

impl Png {
    #[verifier::type_invariant]
    spec fn signed(self) -> bool {
        png_signature().is_prefix_of(self.bytes@)
    }

    /// The bytes of the file, which start with the PNG signature.
    pub fn as_slice(&self) -> (bytes: &[u8])
        ensures
            bytes@ == self@,
            png_signature().is_prefix_of(bytes@),
            bytes@.len() >= 8,
            bytes@.take(8) == seq![0x89u8, 0x50, 0x4E, 0x47, 0x0D, 0x0A, 0x1A, 0x0A],
    {
        proof {
            use_type_invariant(self);
            law_signature_leads(self@);
        }
        self.bytes.as_slice()
    }

    /// A copy of the bytes of the file.
    pub fn to_bytes(&self) -> (bytes: Vec<u8>)
        ensures
            bytes@ == self@,
            png_signature().is_prefix_of(bytes@),
            bytes@.len() >= 8,
            bytes@.take(8) == seq![0x89u8, 0x50, 0x4E, 0x47, 0x0D, 0x0A, 0x1A, 0x0A],
    {
        proof {
            use_type_invariant(self);
            law_signature_leads(self@);
        }
        let bytes = self.bytes.clone();
        assert(bytes@ =~= self.bytes@);
        bytes
    }
}

/// `pixels` with the first and third byte of each group of four exchanged.
/// Bytes after the last whole group stay.
pub open spec fn red_blue_swapped(pixels: Seq<u8>) -> Seq<u8> {
    Seq::new(
        pixels.len(),
        |i: int|
            if i - i % 4 + 4 > pixels.len() {
                pixels[i]
            } else if i % 4 == 0 {
                pixels[i + 2]
            } else if i % 4 == 2 {
                pixels[i - 2]
            } else {
                pixels[i]
            },
    )
}

/// Turns BGRA pixels into RGBA pixels, or back, in place.
pub fn swap_red_blue(pixels: &mut Vec<u8>)
    ensures
        final(pixels)@ == red_blue_swapped(old(pixels)@),
        final(pixels)@.len() == old(pixels)@.len(),
        forall|i: int|
            #![trigger final(pixels)@[i]]
            0 <= i < old(pixels)@.len() ==> final(pixels)@[i] == old(pixels)@[if i / 4 * 4 + 4
                > old(pixels)@.len() {
                i
            } else if i % 4 == 0 {
                i + 2
            } else if i % 4 == 2 {
                i - 2
            } else {
                i
            }],
{
    let len = pixels.len();
    let groups = len / 4;
    for group in 0..groups
        invariant
            groups == len / 4,
            len == old(pixels)@.len(),
            len == pixels@.len(),
            forall|i: int|
                #![trigger pixels@[i]]
                0 <= i < 4 * group ==> pixels@[i] == red_blue_swapped(old(pixels)@)[i],
            forall|i: int|
                #![trigger pixels@[i]]
                4 * group <= i < pixels@.len() ==> pixels@[i] == old(pixels)@[i],
    {
        let blue = pixels[4 * group];
        let red = pixels[4 * group + 2];
        pixels.set(4 * group, red);
        pixels.set(4 * group + 2, blue);
    }
    assert(pixels@ =~= red_blue_swapped(old(pixels)@));
}

/// In every pixel, whatever it holds, the first byte becomes the third and the
/// third the first; the second, and the fourth, which is alpha, stay.
pub proof fn law_each_pixel_is_swapped(pixels: Seq<u8>, g: int)
    requires
        0 <= g,
        4 * g + 3 < pixels.len(),
    ensures
        red_blue_swapped(pixels)[4 * g] == pixels[4 * g + 2],
        red_blue_swapped(pixels)[4 * g + 1] == pixels[4 * g + 1],
        red_blue_swapped(pixels)[4 * g + 2] == pixels[4 * g],
        red_blue_swapped(pixels)[4 * g + 3] == pixels[4 * g + 3],
{
}

/// The exchange keeps the length, and the bytes behind the last whole pixel.
pub proof fn law_swap_keeps_the_rest(pixels: Seq<u8>, i: int)
    requires
        pixels.len() / 4 * 4 <= i < pixels.len(),
    ensures
        red_blue_swapped(pixels).len() == pixels.len(),
        red_blue_swapped(pixels)[i] == pixels[i],
{
}

/// Exchanging the channels twice restores the pixels.
pub proof fn law_swap_twice_restores(pixels: Seq<u8>)
    ensures
        red_blue_swapped(red_blue_swapped(pixels)) == pixels,
{
    assert(red_blue_swapped(red_blue_swapped(pixels)) =~= pixels);
}

/// The PNG file of an image whose pixels come as BGRA, if there is one.
pub open spec fn bgra_png(width: u32, height: u32, pixels: Seq<u8>) -> Option<Seq<u8>> {
    if image_fits(width, height, pixels.len() as int) {
        Some(rgba_png(width, height, red_blue_swapped(pixels)))
    } else {
        None
    }
}

/// What a `Png` holds, if there is one.
pub open spec fn png_bytes(png: Option<Png>) -> Option<Seq<u8>> {
    match png {
        Some(file) => Some(file@),
        None => None,
    }
}

/// There is a PNG file exactly when the image is not empty and every pixel is
/// there. It is the file of the same image with each pixel's red and blue in
/// their RGBA places: `rgba` is any such pixels.
pub proof fn law_png_shows_the_colors(width: u32, height: u32, pixels: Seq<u8>, rgba: Seq<u8>)
    requires
        rgba.len() == pixels.len(),
        forall|i: int|
            #![trigger rgba[i]]
            0 <= i < pixels.len() ==> rgba[i] == pixels[if i / 4 * 4 + 4 > pixels.len() {
                i
            } else if i % 4 == 0 {
                i + 2
            } else if i % 4 == 2 {
                i - 2
            } else {
                i
            }],
    ensures
        bgra_png(width, height, pixels) == (if width > 0 && height > 0 && 4 * width * height
            <= pixels.len() {
            Some(rgba_png(width, height, rgba))
        } else {
            None
        }),
{
    assert(red_blue_swapped(pixels) =~= rgba);
}

/// The bytes of a `Png` that is there are its contents.
pub proof fn law_png_bytes(png: Option<Png>)
    ensures
        png_bytes(png) is Some <==> png is Some,
        png matches Some(file) ==> png_bytes(png) == Some(file@),
{
}

/// Encodes BGRA `pixels` as a PNG file of this width and height. There is none
/// for an empty image, nor for one that `pixels` is too short for.
pub fn encode_bgra(width: u32, height: u32, pixels: Vec<u8>) -> (png: Option<Png>)
    ensures
        png_bytes(png) == bgra_png(width, height, pixels@),
        png is Some <==> width > 0 && height > 0 && 4 * width * height <= pixels@.len(),
{
    let mut rgba = pixels;
    swap_red_blue(&mut rgba);
    match write_png(width, height, rgba) {
        Some(bytes) => Some(Png { bytes }),
        None => None,
    }
}

} // verus!
