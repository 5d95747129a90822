//! The conversion of an icon handle to a PNG file.
//!
//! The calls into GDI are made elsewhere. A [`Conversion`] says which call is
//! due; the method `answer` of what it holds takes what the call returned and
//! gives the next state, until the conversion is `Finished`.

use vstd::prelude::*;
use crate::png::{encode_bgra, Png};

verus! {

/// A handle of the Windows API, by its numeric value.
#[derive(Clone, Copy, Debug, PartialEq, Eq, Structural)]
pub struct Handle {
    pub raw: isize,
}

impl Handle {
    /// The two values that stand for no object.
    pub open spec fn spec_is_invalid(self) -> bool {
        self.raw == 0 || self.raw == -1
    }

    /// True of the two values that stand for no object.
    #[verifier::when_used_as_spec(spec_is_invalid)]
    pub fn is_invalid(self) -> (invalid: bool)
        ensures
            invalid == self.spec_is_invalid(),
            invalid <==> self.raw == 0 || self.raw == -1,
    {
        self.raw == 0 || self.raw == -1
    }
}

/// A handle stands for an object unless its value is 0 or -1, however large it
/// is.
pub proof fn law_invalid_handles(handle: Handle)
    ensures
        handle.is_invalid() <==> handle.raw == 0 || handle.raw == -1,
{
}

/// The two bitmaps that `GetIconInfo` hands over to the caller.
#[derive(Clone, Copy, Debug, PartialEq, Eq, Structural)]
pub struct IconBitmaps {
    pub color: Handle,
    pub mask: Handle,
}

/// What `GetObjectW` tells of a bitmap: how many bytes it copied, and the
/// dimensions in them.
#[derive(Clone, Copy, Debug, PartialEq, Eq, Structural)]
pub struct BitmapObject {
    pub copied: i32,
    pub width: i32,
    pub height: i32,
}

/// The part of a `BITMAPINFOHEADER` that is not zero or its own size.
#[derive(Clone, Copy, Debug, PartialEq, Eq, Structural)]
pub struct DibHeader {
    pub width: i32,
    /// Negative, so that the rows come from the top down.
    pub height: i32,
    pub planes: u16,
    pub bit_count: u16,
    pub compression: u32,
}

/// What `GetDIBits` is asked for: all rows of a bitmap, and the length of the
/// buffer that takes them.
#[derive(Clone, Copy, Debug, PartialEq, Eq, Structural)]
pub struct DibRequest {
    pub width: u32,
    pub height: u32,
    pub len: usize,
    pub header: DibHeader,
}

/// Uncompressed pixels, `BI_RGB`.
pub const BI_RGB: u32 = 0;

/// The request for the pixels of a bitmap, as four bytes each from the top row
/// down. There is none where the bitmap could not be read, is empty or has a
/// negative dimension, or where the length of the buffer is no `usize`.
pub open spec fn spec_dib_request(object: BitmapObject) -> Option<DibRequest> {
    if object.copied != 0 && object.width > 0 && object.height > 0 && 4 * object.width
        * object.height <= usize::MAX {
        Some(
            DibRequest {
                width: object.width as u32,
                height: object.height as u32,
                len: (4 * object.width * object.height) as usize,
                header: DibHeader {
                    width: object.width,
                    height: (-object.height) as i32,
                    planes: 1,
                    bit_count: 32,
                    compression: BI_RGB,
                },
            },
        )
    } else {
        None
    }
}

/// Pixels are asked for exactly where the bitmap was read, is not empty and has a
/// buffer length that fits.
pub proof fn law_when_pixels_are_asked_for(object: BitmapObject)
    ensures
        spec_dib_request(object) is Some <==> object.copied != 0 && object.width > 0
            && object.height > 0 && 4 * object.width * object.height <= usize::MAX,
{
}

/// Every request is for the whole bitmap, uncompressed with 32 bits a pixel in one
/// plane, into four bytes for each pixel. Its height is negative in the header,
/// so the first row of the buffer is the top row of the icon.
pub proof fn law_request_is_top_down(object: BitmapObject)
    requires
        spec_dib_request(object) is Some,
    ensures
        spec_dib_request(object)->0.width == object.width,
        spec_dib_request(object)->0.height == object.height,
        spec_dib_request(object)->0.len == 4 * object.width * object.height,
        spec_dib_request(object)->0.header.width == object.width,
        spec_dib_request(object)->0.header.height < 0,
        spec_dib_request(object)->0.header.height == -object.height,
        spec_dib_request(object)->0.header.planes == 1,
        spec_dib_request(object)->0.header.bit_count == 32,
        spec_dib_request(object)->0.header.compression == 0,
{
}

/// Plans how the pixels of a bitmap are read. `GetDIBits` writes four bytes for
/// each pixel, so the length of the buffer is computed without wrapping.
pub fn dib_request(object: BitmapObject) -> (request: Option<DibRequest>)
    ensures
        request == spec_dib_request(object),
        request is Some <==> object.copied != 0 && object.width > 0 && object.height > 0 && 4
            * object.width * object.height <= usize::MAX,
        request matches Some(plan) ==> {
            &&& plan.width == object.width
            &&& plan.height == object.height
            &&& plan.len == 4 * object.width * object.height
            &&& plan.header.width == object.width
            &&& plan.header.height == -object.height
            &&& plan.header.planes == 1
            &&& plan.header.bit_count == 32
            &&& plan.header.compression == 0
        },
{
    if object.copied == 0 || object.width < 0 || object.height < 0 {
        return None;
    }
    let width = object.width as usize;
    let height = object.height as usize;
    let pixels = match width.checked_mul(height) {
        Some(pixels) => pixels,
        None => {
            assert(4 * (width * height) == 4 * object.width * object.height) by (nonlinear_arith)
                requires
                    width == object.width,
                    height == object.height,
            ;
            return None;
        },
    };
    assert(4 * pixels == 4 * object.width * object.height) by (nonlinear_arith)
        requires
            width == object.width,
            height == object.height,
            pixels == width * height,
    ;
    let len = match pixels.checked_mul(4) {
        Some(len) => len,
        None => return None,
    };
    if len == 0 {
        assert(object.width <= 0 || object.height <= 0) by (nonlinear_arith)
            requires
                4 * object.width * object.height == 0,
        ;
        return None;
    }
    assert(object.width > 0 && object.height > 0) by (nonlinear_arith)
        requires
            object.width >= 0,
            object.height >= 0,
            4 * object.width * object.height > 0,
    ;
    Some(
        DibRequest {
            width: object.width as u32,
            height: object.height as u32,
            len,
            header: DibHeader {
                width: object.width,
                height: -object.height,
                planes: 1,
                bit_count: 32,
                compression: BI_RGB,
            },
        },
    )
}

/// Pixels as GDI wrote them, with the size of their image.
#[derive(Debug)]
pub struct RawImage {
    pub width: u32,
    pub height: u32,
    pub bgra: Vec<u8>,
}

/// How far the conversion of an icon has come, and what is due next.
#[derive(Debug)]
pub enum Conversion {
    /// `GetIconInfo` on the icon.
    Info(InfoQuery),
    /// `GetObjectW` on the color bitmap.
    Size(SizeQuery),
    /// `GetDIBits` on the color bitmap, with a device context of the screen that
    /// is taken before and released after.
    Pixels(PixelQuery),
    /// `DeleteObject` on the bitmaps.
    Cleanup(BitmapCleanup),
    /// Nothing more: the icon as a PNG file, if every step succeeded.
    Finished(Option<Png>),
}

/// `GetIconInfo` is due on this icon.
#[derive(Debug)]
pub struct InfoQuery {
    pub icon: Handle,
}

/// `GetObjectW` is due on the color bitmap.
#[derive(Debug)]
pub struct SizeQuery {
    pub bitmaps: IconBitmaps,
}

/// `GetDIBits` is due on the color bitmap.
#[derive(Debug)]
pub struct PixelQuery {
    pub bitmaps: IconBitmaps,
    pub request: DibRequest,
}

/// The bitmaps are due to be deleted; then the image, if it was read, becomes a
/// PNG file.
#[derive(Debug)]
pub struct BitmapCleanup {
    pub bitmaps: IconBitmaps,
    pub image: Option<RawImage>,
}

/// Starts the conversion of an icon to a PNG file. The icon stays with its
/// owner: the conversion never destroys it.
pub fn hicon_to_png(icon: Handle) -> (conversion: Conversion)
    ensures
        conversion == Conversion::Info(InfoQuery { icon }),
{
    Conversion::Info(InfoQuery { icon })
}

impl InfoQuery {
    /// The state after `GetIconInfo`.
    pub open spec fn next(self, info: Option<IconBitmaps>) -> Conversion {
        match info {
            Some(bitmaps) => Conversion::Size(SizeQuery { bitmaps }),
            None => Conversion::Finished(None),
        }
    }

    /// Takes the bitmaps that `GetIconInfo` handed over, or `None` where it
    /// failed.
    pub fn answer(self, info: Option<IconBitmaps>) -> (conversion: Conversion)
        ensures
            conversion == self.next(info),
            info is None ==> conversion matches Conversion::Finished(None),
            info matches Some(bitmaps) ==> (conversion matches Conversion::Size(query)
                && query.bitmaps == bitmaps),
    {
        match info {
            Some(bitmaps) => Conversion::Size(SizeQuery { bitmaps }),
            None => Conversion::Finished(None),
        }
    }
}

impl SizeQuery {
    /// The state after `GetObjectW`.
    pub open spec fn next(self, object: BitmapObject) -> Conversion {
        match spec_dib_request(object) {
            Some(request) => Conversion::Pixels(PixelQuery { bitmaps: self.bitmaps, request }),
            None => Conversion::Cleanup(BitmapCleanup { bitmaps: self.bitmaps, image: None }),
        }
    }

    /// Takes what `GetObjectW` told of the color bitmap.
    pub fn answer(self, object: BitmapObject) -> (conversion: Conversion)
        ensures
            conversion == self.next(object),
            match conversion {
                Conversion::Pixels(query) => query.bitmaps == self.bitmaps && Some(query.request)
                    == spec_dib_request(object) && query.request.header.height == -object.height,
                Conversion::Cleanup(cleanup) => cleanup.bitmaps == self.bitmaps
                    && cleanup.image is None,
                _ => false,
            },
            conversion is Pixels <==> object.copied != 0 && object.width > 0 && object.height > 0
                && 4 * object.width * object.height <= usize::MAX,
    {
        match dib_request(object) {
            Some(request) => Conversion::Pixels(PixelQuery { bitmaps: self.bitmaps, request }),
            None => Conversion::Cleanup(BitmapCleanup { bitmaps: self.bitmaps, image: None }),
        }
    }
}

impl PixelQuery {
    /// The state after `GetDIBits`.
    pub open spec fn next(self, rows: i32, pixels: Vec<u8>) -> Conversion {
        Conversion::Cleanup(
            BitmapCleanup {
                bitmaps: self.bitmaps,
                image: if rows == 0 {
                    None
                } else {
                    Some(
                        RawImage {
                            width: self.request.width,
                            height: self.request.height,
                            bgra: pixels,
                        },
                    )
                },
            },
        )
    }

    /// Takes the number of rows that `GetDIBits` copied, and the buffer, of the
    /// requested length and zero at first, that it wrote them to.
    pub fn answer(self, rows: i32, pixels: Vec<u8>) -> (conversion: Conversion)
        ensures
            conversion == self.next(rows, pixels),
            conversion matches Conversion::Cleanup(cleanup) && cleanup.bitmaps == self.bitmaps && (
            cleanup.image is None <==> rows == 0) && (cleanup.image matches Some(raw) ==> raw.width
                == self.request.width && raw.height == self.request.height && raw.bgra == pixels),
    {
        let image = if rows == 0 {
            None
        } else {
            Some(
                RawImage {
                    width: self.request.width,
                    height: self.request.height,
                    bgra: pixels,
                },
            )
        };
        Conversion::Cleanup(BitmapCleanup { bitmaps: self.bitmaps, image })
    }
}

/// The bitmaps among the two that are objects, the color bitmap first.
pub open spec fn valid_bitmaps(bitmaps: IconBitmaps) -> Seq<Handle> {
    (if bitmaps.color.is_invalid() {
        seq![]
    } else {
        seq![bitmaps.color]
    }) + (if bitmaps.mask.is_invalid() {
        seq![]
    } else {
        seq![bitmaps.mask]
    })
}

/// Each of the two bitmaps is deleted once, the color bitmap first, unless its
/// handle is 0 or -1, and nothing else is.
pub proof fn law_which_bitmaps_are_deleted(bitmaps: IconBitmaps)
    ensures
        valid_bitmaps(bitmaps) == (if bitmaps.color.raw == 0 || bitmaps.color.raw == -1 {
            Seq::<Handle>::empty()
        } else {
            seq![bitmaps.color]
        }) + (if bitmaps.mask.raw == 0 || bitmaps.mask.raw == -1 {
            Seq::<Handle>::empty()
        } else {
            seq![bitmaps.mask]
        }),
        forall|object: Handle| #[trigger]
            valid_bitmaps(bitmaps).contains(object) <==> (object == bitmaps.color || object
                == bitmaps.mask) && object.raw != 0 && object.raw != -1,
{
    let all = valid_bitmaps(bitmaps);
    assert forall|object: Handle|
        (object == bitmaps.color || object == bitmaps.mask) && object.raw != 0 && object.raw
            != -1 implies #[trigger] all.contains(object) by {
        if object == bitmaps.color {
            assert(all[0] == object);
        } else {
            assert(all.last() == object);
        }
    }
}

/// The PNG file of the pixels that were read, if any were.
pub open spec fn image_png(image: Option<RawImage>) -> Option<Seq<u8>> {
    match image {
        Some(raw) => crate::png::bgra_png(raw.width, raw.height, raw.bgra@),
        None => None,
    }
}

/// Pixels that were read make a PNG file exactly when their image is not empty and
/// they are all there. It holds them with red and blue in their RGBA places,
/// `rgba`. No pixels make none.
pub proof fn law_image_of_pixels(raw: RawImage, rgba: Seq<u8>)
    requires
        rgba.len() == raw.bgra@.len(),
        forall|i: int|
            #![trigger rgba[i]]
            0 <= i < rgba.len() ==> rgba[i] == raw.bgra@[if i / 4 * 4 + 4 > rgba.len() {
                i
            } else if i % 4 == 0 {
                i + 2
            } else if i % 4 == 2 {
                i - 2
            } else {
                i
            }],
    ensures
        image_png(None) is None,
        image_png(Some(raw)) == (if raw.width > 0 && raw.height > 0 && 4 * raw.width * raw.height
            <= raw.bgra@.len() {
            Some(crate::png::rgba_png(raw.width, raw.height, rgba))
        } else {
            None
        }),
{
    crate::png::law_png_shows_the_colors(raw.width, raw.height, raw.bgra@, rgba);
}

impl BitmapCleanup {
    /// The objects to delete, in this order.
    pub fn objects(&self) -> (objects: Vec<Handle>)
        ensures
            objects@ == valid_bitmaps(self.bitmaps),
            forall|object: Handle| #[trigger]
                objects@.contains(object) <==> (object == self.bitmaps.color || object
                    == self.bitmaps.mask) && object.raw != 0 && object.raw != -1,
    {
        let mut objects: Vec<Handle> = Vec::new();
        if !self.bitmaps.color.is_invalid() {
            objects.push(self.bitmaps.color);
        }
        if !self.bitmaps.mask.is_invalid() {
            objects.push(self.bitmaps.mask);
        }
        assert(objects@ =~= valid_bitmaps(self.bitmaps));
        proof {
            law_which_bitmaps_are_deleted(self.bitmaps);
        }
        objects
    }

    /// Goes on once the objects are deleted.
    pub fn answer(self) -> (conversion: Conversion)
        ensures
            conversion matches Conversion::Finished(png) && crate::png::png_bytes(png)
                == image_png(self.image),
            self.image is None ==> conversion matches Conversion::Finished(None),
            self.image matches Some(raw) ==> (conversion->Finished_0 is Some <==> raw.width > 0
                && raw.height > 0 && 4 * raw.width * raw.height <= raw.bgra@.len()),
    {
        match self.image {
            Some(raw) => Conversion::Finished(encode_bgra(raw.width, raw.height, raw.bgra)),
            None => Conversion::Finished(None),
        }
    }
}

// ---------------------------------------------------------------------------
// Laws
// ---------------------------------------------------------------------------

/// What the calls of one conversion return, whether or not they are made.
pub struct GdiReplies {
    pub info: Option<IconBitmaps>,
    pub object: BitmapObject,
    pub rows: i32,
    pub pixels: Vec<u8>,
}

impl Conversion {
    /// How many calls are due at most.
    pub open spec fn steps_left(self) -> nat {
        match self {
            Conversion::Info(_) => 4,
            Conversion::Size(_) => 3,
            Conversion::Pixels(_) => 2,
            Conversion::Cleanup(_) => 1,
            Conversion::Finished(_) => 0,
        }
    }

    /// The PNG file that the conversion ends with, if the calls return `replies`.
    pub open spec fn result(self, replies: GdiReplies) -> Option<Seq<u8>>
        decreases self.steps_left(),
    {
        match self {
            Conversion::Info(query) => query.next(replies.info).result(replies),
            Conversion::Size(query) => query.next(replies.object).result(replies),
            Conversion::Pixels(query) => query.next(replies.rows, replies.pixels).result(replies),
            Conversion::Cleanup(cleanup) => image_png(cleanup.image),
            Conversion::Finished(png) => crate::png::png_bytes(png),
        }
    }

    /// The objects that are deleted on the way to the end, in order, if the calls
    /// return `replies`.
    pub open spec fn deleted(self, replies: GdiReplies) -> Seq<Handle>
        decreases self.steps_left(),
    {
        match self {
            Conversion::Info(query) => query.next(replies.info).deleted(replies),
            Conversion::Size(query) => query.next(replies.object).deleted(replies),
            Conversion::Pixels(query) => query.next(replies.rows, replies.pixels).deleted(replies),
            Conversion::Cleanup(cleanup) => valid_bitmaps(cleanup.bitmaps),
            Conversion::Finished(_) => seq![],
        }
    }
}

/// The conversion of an icon, run to its end, gives a PNG file of the pixels
/// that were read, exactly when the icon has bitmaps, the color bitmap's size
/// is one that a buffer can be made for, some row was copied and the buffer is
/// long enough. It gives nothing otherwise.
pub proof fn law_conversion_result(icon: Handle, replies: GdiReplies)
    ensures
        Conversion::Info(InfoQuery { icon }).result(replies) == (
        match spec_dib_request(replies.object) {
            Some(request) => if replies.info is Some && replies.rows != 0 {
                crate::png::bgra_png(request.width, request.height, replies.pixels@)
            } else {
                None
            },
            None => None,
        }),
{
    reveal_with_fuel(Conversion::result, 5);
}

/// From the answers to the file: the conversion, run to its end, gives the PNG
/// file of the bitmap's size and of the pixels with red and blue in their RGBA
/// places, `rgba`, exactly when the icon has bitmaps, the color bitmap was read
/// and is not empty, the length of its buffer fits, some row was copied and every
/// pixel is there.
pub proof fn law_converted_icon(icon: Handle, replies: GdiReplies, rgba: Seq<u8>)
    requires
        rgba.len() == replies.pixels@.len(),
        forall|i: int|
            #![trigger rgba[i]]
            0 <= i < rgba.len() ==> rgba[i] == replies.pixels@[if i / 4 * 4 + 4 > rgba.len() {
                i
            } else if i % 4 == 0 {
                i + 2
            } else if i % 4 == 2 {
                i - 2
            } else {
                i
            }],
    ensures
        Conversion::Info(InfoQuery { icon }).result(replies) == (if replies.info is Some
            && replies.object.copied != 0 && replies.object.width > 0 && replies.object.height > 0
            && 4 * replies.object.width * replies.object.height <= usize::MAX && replies.rows != 0
            && 4 * replies.object.width * replies.object.height <= replies.pixels@.len() {
            Some(
                crate::png::rgba_png(
                    replies.object.width as u32,
                    replies.object.height as u32,
                    rgba,
                ),
            )
        } else {
            None
        }),
{
    law_conversion_result(icon, replies);
    let width = replies.object.width as u32;
    let height = replies.object.height as u32;
    crate::png::law_png_shows_the_colors(width, height, replies.pixels@, rgba);
    if replies.object.width > 0 && replies.object.height > 0 {
        assert(4 * width * height == 4 * replies.object.width * replies.object.height)
            by (nonlinear_arith)
            requires
                width == replies.object.width,
                height == replies.object.height,
        ;
    }
}

/// A buffer of the requested length is always long enough: with it, the
/// conversion fails only where a call did.
pub proof fn law_requested_buffer_suffices(icon: Handle, replies: GdiReplies)
    requires
        spec_dib_request(replies.object) matches Some(request) && replies.pixels@.len()
            == request.len,
    ensures
        Conversion::Info(InfoQuery { icon }).result(replies) is Some <==> (replies.info is Some
            && replies.rows != 0),
{
    law_conversion_result(icon, replies);
    let request = spec_dib_request(replies.object)->0;
    assert(4 * request.width * request.height == request.len) by (nonlinear_arith)
        requires
            request.width == replies.object.width,
            request.height == replies.object.height,
            request.len == 4 * replies.object.width * replies.object.height,
    ;
}

/// Each bitmap that the icon handed over is deleted once, wherever the
/// conversion fails, and nothing else is deleted.
pub proof fn law_bitmaps_deleted_once(icon: Handle, replies: GdiReplies)
    ensures
        Conversion::Info(InfoQuery { icon }).deleted(replies) == (match replies.info {
            Some(bitmaps) => valid_bitmaps(bitmaps),
            None => seq![],
        }),
        Conversion::Info(InfoQuery { icon }).deleted(replies) == (match replies.info {
            Some(bitmaps) => (if bitmaps.color.raw == 0 || bitmaps.color.raw == -1 {
                Seq::<Handle>::empty()
            } else {
                seq![bitmaps.color]
            }) + (if bitmaps.mask.raw == 0 || bitmaps.mask.raw == -1 {
                Seq::<Handle>::empty()
            } else {
                seq![bitmaps.mask]
            }),
            None => seq![],
        }),
{
    reveal_with_fuel(Conversion::deleted, 5);
}

} // verus!
