//! The extraction of an icon through the Windows shell.
//!
//! As with [`crate::hicon`], the calls are made elsewhere: an [`Extraction`]
//! says which one is due, and `answer` takes what it returned.

use vstd::prelude::*;
use crate::hicon::{hicon_to_png, Conversion, Handle};
use crate::png::Png;
use crate::text::{null_terminated, to_ascii_units};

verus! {

/// Hand over the icon, `SHGFI_ICON`.
pub const SHGFI_ICON: u32 = 0x100;

/// The large icon, `SHGFI_LARGEICON`.
pub const SHGFI_LARGEICON: u32 = 0;

/// Go by the file attributes that are passed and not by the file itself,
/// `SHGFI_USEFILEATTRIBUTES`.
pub const SHGFI_USEFILEATTRIBUTES: u32 = 0x10;

/// A file without special attributes, `FILE_ATTRIBUTE_NORMAL`.
pub const FILE_ATTRIBUTE_NORMAL: u32 = 0x80;

/// The flags that ask for a target's own icon.
pub const TARGET_FLAGS: u32 = SHGFI_ICON | SHGFI_LARGEICON;

/// The flags that ask for the icon of a file type.
pub const FILE_TYPE_FLAGS: u32 = SHGFI_ICON | SHGFI_LARGEICON | SHGFI_USEFILEATTRIBUTES;

/// How far an extraction has come, and what is due next.
#[derive(Debug)]
pub enum Extraction {
    /// `SHGetFileInfoW`.
    Lookup(ShellQuery),
    /// The conversion of the icon to a PNG file.
    Convert(ConvertIcon),
    /// `DestroyIcon` on the icon.
    Destroy(DestroyIcon),
    /// Nothing more: the icon as a PNG file, if every step succeeded.
    Finished(Option<Png>),
}

/// `SHGetFileInfoW` is due, with this path, these file attributes and these
/// flags.
#[derive(Debug)]
pub struct ShellQuery {
    pub path: Vec<u16>,
    pub attributes: u32,
    pub flags: u32,
}

/// The icon is due to be converted.
#[derive(Debug)]
pub struct ConvertIcon {
    pub icon: Handle,
}

/// The icon is due to be destroyed.
#[derive(Debug)]
pub struct DestroyIcon {
    pub icon: Handle,
    pub png: Option<Png>,
}

/// The query for the large icon of the file at `target`.
pub open spec fn is_target_query(extraction: Extraction, target: Seq<u16>) -> bool {
    extraction matches Extraction::Lookup(query) && query.path@ == target.push(0)
        && query.attributes == 0 && query.flags == TARGET_FLAGS
}

/// The query for the large icon of the file type `.exe`.
pub open spec fn is_generic_query(extraction: Extraction) -> bool {
    extraction matches Extraction::Lookup(query) && query.path@ == crate::text::ascii_units(
        "application.exe"@,
    ).push(0) && query.attributes == FILE_ATTRIBUTE_NORMAL && query.flags == FILE_TYPE_FLAGS
}

/// The shell is asked for the whole path of the target, unit by unit with a NUL
/// behind it, and for its large icon.
pub proof fn law_target_query(extraction: Extraction, target: Seq<u16>)
    ensures
        is_target_query(extraction, target) <==> (extraction matches Extraction::Lookup(query)
            && query.path@.len() == target.len() + 1 && (forall|i: int|
            0 <= i < target.len() ==> #[trigger] query.path@[i] == target[i])
            && query.path@[target.len() as int] == 0 && query.attributes == 0 && query.flags
            == 0x100),
{
    assert(0x100u32 | 0u32 == 0x100u32) by (bit_vector);
    if extraction is Lookup {
        let path = extraction->Lookup_0.path@;
        if path.len() == target.len() + 1 && (forall|i: int|
            0 <= i < target.len() ==> #[trigger] path[i] == target[i])
            && path[target.len() as int] == 0 {
            assert(path =~= target.push(0));
        }
    }
}

/// For the generic icon the shell is asked for the large icon of the file type of
/// `application.exe`, by attributes alone.
pub proof fn law_generic_query(extraction: Extraction)
    ensures
        is_generic_query(extraction) <==> (extraction matches Extraction::Lookup(query)
            && query.path@ =~= seq![
            'a' as u16, 'p' as u16, 'p' as u16, 'l' as u16, 'i' as u16, 'c' as u16, 'a' as u16,
            't' as u16, 'i' as u16, 'o' as u16, 'n' as u16, '.' as u16, 'e' as u16, 'x' as u16,
            'e' as u16, 0u16,
        ] && query.attributes == 0x80 && query.flags == 0x110),
{
    assert(0x100u32 | 0u32 | 0x10u32 == 0x110u32) by (bit_vector);
    reveal_strlit("application.exe");
    assert(crate::text::ascii_units("application.exe"@).push(0) =~= seq![
        'a' as u16, 'p' as u16, 'p' as u16, 'l' as u16, 'i' as u16, 'c' as u16, 'a' as u16,
        't' as u16, 'i' as u16, 'o' as u16, 'n' as u16, '.' as u16, 'e' as u16, 'x' as u16,
        'e' as u16, 0u16,
    ]);
}

/// Starts the extraction of the large icon of `target`, a path in UTF-16.
pub fn extract_icon_png(target: &[u16]) -> (extraction: Extraction)
    ensures
        is_target_query(extraction, target@),
        extraction matches Extraction::Lookup(query) && query.path@.len() == target@.len() + 1 && (
        forall|i: int| 0 <= i < target@.len() ==> #[trigger] query.path@[i] == target@[i])
            && query.path@[target@.len() as int] == 0 && query.attributes == 0 && query.flags
            == 0x100,
{
    assert(0x100u32 | 0u32 == 0x100u32) by (bit_vector);
    Extraction::Lookup(
        ShellQuery { path: null_terminated(target), attributes: 0, flags: TARGET_FLAGS },
    )
}

/// Starts the extraction of the icon that Windows gives programs without one.
///
/// The shell goes by the file type of the path alone, so the file need not
/// exist.
pub fn extract_generic_app_icon_png() -> (extraction: Extraction)
    ensures
        is_generic_query(extraction),
        extraction matches Extraction::Lookup(query) && query.path@ == seq![
            'a' as u16, 'p' as u16, 'p' as u16, 'l' as u16, 'i' as u16, 'c' as u16, 'a' as u16,
            't' as u16, 'i' as u16, 'o' as u16, 'n' as u16, '.' as u16, 'e' as u16, 'x' as u16,
            'e' as u16, 0u16,
        ] && query.attributes == 0x80 && query.flags == 0x110,
{
    proof {
        reveal_strlit("application.exe");
    }
    let units = to_ascii_units("application.exe");
    let extraction = Extraction::Lookup(
        ShellQuery {
            path: null_terminated(units.as_slice()),
            attributes: FILE_ATTRIBUTE_NORMAL,
            flags: FILE_TYPE_FLAGS,
        },
    );
    proof {
        law_generic_query(extraction);
    }
    extraction
}

impl ShellQuery {
    /// The state after `SHGetFileInfoW`.
    pub open spec fn next(self, result: usize, icon: Handle) -> Extraction {
        if result == 0 || icon.is_invalid() {
            Extraction::Finished(None)
        } else {
            Extraction::Convert(ConvertIcon { icon })
        }
    }

    /// Takes what `SHGetFileInfoW` returned, and the icon it filled in.
    pub fn answer(self, result: usize, icon: Handle) -> (extraction: Extraction)
        ensures
            extraction == self.next(result, icon),
            result != 0 && icon.raw != 0 && icon.raw != -1 ==> (
            extraction matches Extraction::Convert(convert) && convert.icon == icon),
            result == 0 || icon.raw == 0 || icon.raw == -1
                ==> extraction matches Extraction::Finished(None),
    {
        if result == 0 || icon.is_invalid() {
            Extraction::Finished(None)
        } else {
            Extraction::Convert(ConvertIcon { icon })
        }
    }
}

impl ConvertIcon {
    /// The conversion that is due, at its start.
    pub fn conversion(&self) -> (conversion: Conversion)
        ensures
            conversion == Conversion::Info(crate::hicon::InfoQuery { icon: self.icon }),
    {
        hicon_to_png(self.icon)
    }

    /// The state after the conversion.
    pub open spec fn next(self, png: Option<Png>) -> Extraction {
        Extraction::Destroy(DestroyIcon { icon: self.icon, png })
    }

    /// Takes what the conversion finished with.
    pub fn answer(self, png: Option<Png>) -> (extraction: Extraction)
        ensures
            extraction == self.next(png),
            extraction matches Extraction::Destroy(destroy) && destroy.icon == self.icon
                && destroy.png == png,
    {
        Extraction::Destroy(DestroyIcon { icon: self.icon, png })
    }
}

impl DestroyIcon {
    /// The state after `DestroyIcon`.
    pub open spec fn next(self) -> Extraction {
        Extraction::Finished(self.png)
    }

    /// Goes on once the icon is destroyed.
    pub fn answer(self) -> (extraction: Extraction)
        ensures
            extraction == self.next(),
            extraction matches Extraction::Finished(png) && png == self.png,
    {
        Extraction::Finished(self.png)
    }
}

// ---------------------------------------------------------------------------
// Laws
// ---------------------------------------------------------------------------

/// What the calls of one extraction return, whether or not they are made.
pub struct ShellReplies {
    pub result: usize,
    pub icon: Handle,
    pub png: Option<Png>,
}

impl Extraction {
    /// How many calls are due at most.
    pub open spec fn steps_left(self) -> nat {
        match self {
            Extraction::Lookup(_) => 3,
            Extraction::Convert(_) => 2,
            Extraction::Destroy(_) => 1,
            Extraction::Finished(_) => 0,
        }
    }

    /// What the extraction ends with, if the calls return `replies`.
    pub open spec fn result(self, replies: ShellReplies) -> Option<Png>
        decreases self.steps_left(),
    {
        match self {
            Extraction::Lookup(query) => query.next(replies.result, replies.icon).result(replies),
            Extraction::Convert(convert) => convert.next(replies.png).result(replies),
            Extraction::Destroy(destroy) => destroy.next().result(replies),
            Extraction::Finished(png) => png,
        }
    }

    /// The icons that are destroyed on the way to the end, in order, if the calls
    /// return `replies`.
    pub open spec fn destroyed(self, replies: ShellReplies) -> Seq<Handle>
        decreases self.steps_left(),
    {
        match self {
            Extraction::Lookup(query) => query.next(replies.result, replies.icon).destroyed(
                replies,
            ),
            Extraction::Convert(convert) => convert.next(replies.png).destroyed(replies),
            Extraction::Destroy(destroy) => seq![destroy.icon] + destroy.next().destroyed(replies),
            Extraction::Finished(_) => seq![],
        }
    }
}

/// An extraction, run to its end, gives what the conversion of the shell's icon
/// gave, and nothing where the shell has no icon.
pub proof fn law_extraction_result(query: ShellQuery, replies: ShellReplies)
    ensures
        Extraction::Lookup(query).result(replies) == (if replies.result != 0 && replies.icon.raw
            != 0 && replies.icon.raw != -1 {
            replies.png
        } else {
            None
        }),
{
    reveal_with_fuel(Extraction::result, 4);
}

/// An icon that the shell handed over, whatever its handle is but 0 and -1, is the
/// icon that is converted and then destroyed; what the conversion gave is kept.
pub proof fn law_shell_icon_is_converted(
    query: ShellQuery,
    result: usize,
    icon: Handle,
    png: Option<Png>,
)
    ensures
        query.next(result, icon) is Convert <==> result != 0 && icon.raw != 0 && icon.raw != -1,
        query.next(result, icon) matches Extraction::Convert(convert) ==> convert.icon == icon && (
        convert.next(png) matches Extraction::Destroy(destroy) && destroy.icon == icon && (
        destroy.next() matches Extraction::Finished(kept) && kept == png)),
        !(query.next(result, icon) is Convert) ==> query.next(result, icon)
            == Extraction::Finished(None),
{
}

/// An icon that the shell handed over is destroyed once, whether or not its
/// conversion succeeded; without one, nothing is destroyed.
pub proof fn law_icon_destroyed_once(query: ShellQuery, replies: ShellReplies)
    ensures
        Extraction::Lookup(query).destroyed(replies) == (if replies.result != 0
            && replies.icon.raw != 0 && replies.icon.raw != -1 {
            seq![replies.icon]
        } else {
            seq![]
        }),
{
    reveal_with_fuel(Extraction::destroyed, 4);
    assert(seq![replies.icon] + Seq::<Handle>::empty() =~= seq![replies.icon]);
}

/// From the shell's answer to the file, in terms of what was answered alone: the
/// PNG file has the bitmap's size and the pixels with red and blue in their RGBA
/// places, `rgba`.
pub proof fn law_extracted_icon(
    query: ShellQuery,
    replies: ShellReplies,
    gdi: crate::hicon::GdiReplies,
    rgba: Seq<u8>,
)
    requires
        crate::png::png_bytes(replies.png) == Conversion::Info(
            crate::hicon::InfoQuery { icon: replies.icon },
        ).result(gdi),
        rgba.len() == gdi.pixels@.len(),
        forall|i: int|
            #![trigger rgba[i]]
            0 <= i < rgba.len() ==> rgba[i] == gdi.pixels@[if i / 4 * 4 + 4 > rgba.len() {
                i
            } else if i % 4 == 0 {
                i + 2
            } else if i % 4 == 2 {
                i - 2
            } else {
                i
            }],
    ensures
        crate::png::png_bytes(Extraction::Lookup(query).result(replies)) == (if replies.result != 0
            && replies.icon.raw != 0 && replies.icon.raw != -1 && gdi.info is Some
            && gdi.object.copied != 0 && gdi.object.width > 0 && gdi.object.height > 0 && 4
            * gdi.object.width * gdi.object.height <= usize::MAX && gdi.rows != 0 && 4
            * gdi.object.width * gdi.object.height <= gdi.pixels@.len() {
            Some(
                crate::png::rgba_png(gdi.object.width as u32, gdi.object.height as u32, rgba),
            )
        } else {
            None
        }),
{
    law_extraction_result(query, replies);
    crate::hicon::law_converted_icon(replies.icon, gdi, rgba);
}

/// From the shell's answer to the file: an extraction gives the PNG file of the
/// icon's pixels exactly when the shell has an icon and its conversion has a
/// PNG file to give.
pub proof fn law_extracted_png(
    query: ShellQuery,
    replies: ShellReplies,
    gdi: crate::hicon::GdiReplies,
)
    requires
        crate::png::png_bytes(replies.png) == Conversion::Info(
            crate::hicon::InfoQuery { icon: replies.icon },
        ).result(gdi),
    ensures
        crate::png::png_bytes(Extraction::Lookup(query).result(replies)) == (
        match crate::hicon::spec_dib_request(gdi.object) {
            Some(request) => if replies.result != 0 && replies.icon.raw != 0 && replies.icon.raw
                != -1 && gdi.info is Some && gdi.rows != 0 {
                crate::png::bgra_png(request.width, request.height, gdi.pixels@)
            } else {
                None
            },
            None => None,
        }),
{
    law_extraction_result(query, replies);
    crate::hicon::law_conversion_result(replies.icon, gdi);
}

} // verus!
