//! Finding the icon of a target.
//!
//! The icon is cached as a PNG file, keyed by the text of the target's path
//! alone. A cached icon is returned as it is; otherwise the icon is extracted
//! and stored. Where that fails (a broken program, no icon in it, an odd path,
//! no permission), the icon that Windows gives programs without one takes its
//! place, which is cached once for all targets.
//!
//! What touches the system is done elsewhere: an [`IconLookup`] says what is
//! due, and `answer` takes how it went.

use vstd::prelude::*;
use crate::atomic_write::{write_atomically, AtomicWrite};
use crate::cache::{fallback_file, icon_cache_path, CacheFile};
use crate::extract::{extract_generic_app_icon_png, extract_icon_png, Extraction};
use crate::png::Png;

verus! {

/// Whose icon is looked for.
#[derive(Debug)]
pub enum IconSource {
    /// That of the file at this path, in UTF-16.
    Target(Vec<u16>),
    /// That of programs without an icon.
    Generic,
}

/// How far a lookup has come, and what is due next.
#[derive(Debug)]
pub enum IconLookup {
    /// Find the user's local data directory.
    Locate(LocateDirectory),
    /// Create the cache directory below it, with its parents, if it is not there.
    Create(CreateDirectory),
    /// Look whether the cache file exists.
    Look(LookForFile),
    /// Extract the icon.
    Extract(ExtractIcon),
    /// Write the icon to the cache file.
    Store(StoreIcon),
    /// Nothing more: the cache file that holds the icon, if there is one.
    Finished(Option<CacheFile>),
}

/// The local data directory is due to be found.
#[derive(Debug)]
pub struct LocateDirectory {
    pub source: IconSource,
    pub file: CacheFile,
}

/// The cache directory is due to be created.
#[derive(Debug)]
pub struct CreateDirectory {
    pub source: IconSource,
    pub file: CacheFile,
}

/// The cache file is due to be looked for.
#[derive(Debug)]
pub struct LookForFile {
    pub source: IconSource,
    pub file: CacheFile,
}

/// The icon is due to be extracted.
#[derive(Debug)]
pub struct ExtractIcon {
    pub source: IconSource,
    pub file: CacheFile,
}

/// The icon is due to be written to the cache file.
#[derive(Debug)]
pub struct StoreIcon {
    pub source: IconSource,
    pub file: CacheFile,
    pub png: Png,
}

// ---------------------------------------------------------------------------
// The model
// ---------------------------------------------------------------------------

/// Whose icon is looked for.
pub enum Source {
    Target(Seq<u16>),
    Generic,
}

/// What a lookup has come to.
pub enum LookupState {
    Locate { source: Source, name: Seq<char> },
    Create { source: Source, name: Seq<char> },
    Look { source: Source, name: Seq<char> },
    Extract { source: Source, name: Seq<char> },
    Store { source: Source, name: Seq<char>, png: Seq<u8> },
    Finished { found: Option<Seq<char>> },
}

impl View for IconSource {
    type V = Source;

    open spec fn view(&self) -> Source {
        match self {
            IconSource::Target(target) => Source::Target(target@),
            IconSource::Generic => Source::Generic,
        }
    }
}

impl View for IconLookup {
    type V = LookupState;

    open spec fn view(&self) -> LookupState {
        match self {
            IconLookup::Locate(due) => due@,
            IconLookup::Create(due) => due@,
            IconLookup::Look(due) => due@,
            IconLookup::Extract(due) => due@,
            IconLookup::Store(due) => due@,
            IconLookup::Finished(file) => LookupState::Finished {
                found: match file {
                    Some(found) => Some(found@),
                    None => None,
                },
            },
        }
    }
}

impl View for LocateDirectory {
    type V = LookupState;

    open spec fn view(&self) -> LookupState {
        LookupState::Locate { source: self.source@, name: self.file@ }
    }
}

impl View for CreateDirectory {
    type V = LookupState;

    open spec fn view(&self) -> LookupState {
        LookupState::Create { source: self.source@, name: self.file@ }
    }
}

impl View for LookForFile {
    type V = LookupState;

    open spec fn view(&self) -> LookupState {
        LookupState::Look { source: self.source@, name: self.file@ }
    }
}

impl View for ExtractIcon {
    type V = LookupState;

    open spec fn view(&self) -> LookupState {
        LookupState::Extract { source: self.source@, name: self.file@ }
    }
}

impl View for StoreIcon {
    type V = LookupState;

    open spec fn view(&self) -> LookupState {
        LookupState::Store { source: self.source@, name: self.file@, png: self.png@ }
    }
}

/// The start of the lookup for `target`.
pub open spec fn target_start(target: Seq<u16>) -> LookupState {
    LookupState::Locate {
        source: Source::Target(target),
        name: crate::cache::cache_name(target),
    }
}

/// The start of the lookup for the icon of programs without one.
pub open spec fn fallback_start() -> LookupState {
    LookupState::Locate { source: Source::Generic, name: crate::cache::fallback_name() }
}

/// Where a lookup goes when the icon cannot be had: to the fallback icon, and
/// nowhere if that was it.
pub open spec fn after_failure(source: Source) -> LookupState {
    match source {
        Source::Target(_) => fallback_start(),
        Source::Generic => LookupState::Finished { found: None },
    }
}

/// The state after the local data directory was found, or was not. Without it
/// there is no icon, since the fallback icon is kept below it too.
pub open spec fn after_locate(source: Source, name: Seq<char>, located: bool) -> LookupState {
    if located {
        LookupState::Create { source, name }
    } else {
        LookupState::Finished { found: None }
    }
}

/// The state after the cache directory was created, or was not. The lookup for
/// the fallback icon goes on either way.
pub open spec fn after_create(source: Source, name: Seq<char>, created: bool) -> LookupState {
    if created || source is Generic {
        LookupState::Look { source, name }
    } else {
        after_failure(source)
    }
}

/// The state after the cache file was looked for.
pub open spec fn after_look(source: Source, name: Seq<char>, exists: bool) -> LookupState {
    if exists {
        LookupState::Finished { found: Some(name) }
    } else {
        LookupState::Extract { source, name }
    }
}

/// The state after the icon was extracted, or was not.
pub open spec fn after_extract(
    source: Source,
    name: Seq<char>,
    png: Option<Seq<u8>>,
) -> LookupState {
    match png {
        Some(bytes) => LookupState::Store { source, name, png: bytes },
        None => after_failure(source),
    }
}

/// The state after the cache file was written, or was not.
pub open spec fn after_store(source: Source, name: Seq<char>, stored: bool) -> LookupState {
    if stored {
        LookupState::Finished { found: Some(name) }
    } else {
        after_failure(source)
    }
}

// ---------------------------------------------------------------------------
// The lookup
// ---------------------------------------------------------------------------

/// Starts the lookup of the icon of `target`, a path in UTF-16.
///
/// The lookup ends with a cache file that was there or is freshly written, of
/// the target's own icon or else of the fallback icon. It ends without one only
/// if even the fallback icon cannot be produced.
pub fn icon_for(target: &[u16]) -> (lookup: IconLookup)
    ensures
        lookup@ == target_start(target@),
        lookup matches IconLookup::Locate(due) && (due.source matches IconSource::Target(units)
            && units@ == target@) && due.file.name@ == crate::text::hex(
            crate::cache::sha256(
                vstd::utf8::encode_utf8(crate::text::lossy_text(target@)),
            ),
        ) + ".png"@,
{
    let file = icon_cache_path(target);
    let mut units: Vec<u16> = Vec::new();
    units.extend_from_slice(target);
    assert(units@ =~= target@);
    IconLookup::Locate(LocateDirectory { source: IconSource::Target(units), file })
}

/// Starts the lookup of the icon of programs without one.
pub fn fallback_icon_path() -> (lookup: IconLookup)
    ensures
        lookup@ == fallback_start(),
        lookup matches IconLookup::Locate(due) && due.source is Generic && due.file.name@
            == "__fallback__.png"@,
{
    IconLookup::Locate(
        LocateDirectory { source: IconSource::Generic, file: fallback_file() },
    )
}

fn give_up(source: IconSource) -> (lookup: IconLookup)
    ensures
        lookup@ == after_failure(source@),
        source is Target ==> (lookup matches IconLookup::Locate(due)
            && due.source is Generic && due.file.name@ == "__fallback__.png"@),
        source is Generic ==> lookup matches IconLookup::Finished(None),
{
    match source {
        IconSource::Target(_) => fallback_icon_path(),
        IconSource::Generic => IconLookup::Finished(None),
    }
}

impl LocateDirectory {
    /// Takes whether the user has a local data directory.
    pub fn answer(self, located: bool) -> (lookup: IconLookup)
        ensures
            lookup@ == after_locate(self.source@, self.file@, located),
            located ==> (lookup matches IconLookup::Create(due) && due.source == self.source
                && due.file == self.file),
            !located ==> lookup matches IconLookup::Finished(None),
    {
        if located {
            IconLookup::Create(CreateDirectory { source: self.source, file: self.file })
        } else {
            IconLookup::Finished(None)
        }
    }
}

impl CreateDirectory {
    /// Takes whether the cache directory is there now.
    pub fn answer(self, created: bool) -> (lookup: IconLookup)
        ensures
            lookup@ == after_create(self.source@, self.file@, created),
            created || self.source is Generic ==> (lookup matches IconLookup::Look(due)
                && due.source == self.source && due.file == self.file),
            !created && self.source is Target ==> (lookup matches IconLookup::Locate(due)
                && due.source is Generic && due.file.name@ == "__fallback__.png"@),
    {
        let required = match &self.source {
            IconSource::Target(_) => true,
            IconSource::Generic => false,
        };
        if required && !created {
            give_up(self.source)
        } else {
            IconLookup::Look(LookForFile { source: self.source, file: self.file })
        }
    }
}

impl LookForFile {
    /// Takes whether the cache file exists. A cached icon is not extracted again.
    pub fn answer(self, exists: bool) -> (lookup: IconLookup)
        ensures
            lookup@ == after_look(self.source@, self.file@, exists),
            exists ==> lookup == IconLookup::Finished(Some(self.file)),
            !exists ==> (lookup matches IconLookup::Extract(due) && due.source == self.source
                && due.file == self.file),
    {
        if exists {
            IconLookup::Finished(Some(self.file))
        } else {
            IconLookup::Extract(ExtractIcon { source: self.source, file: self.file })
        }
    }
}

impl ExtractIcon {
    /// The extraction that is due, at its start.
    pub fn extraction(&self) -> (extraction: Extraction)
        ensures
            match self.source@ {
                Source::Target(target) => crate::extract::is_target_query(extraction, target),
                Source::Generic => crate::extract::is_generic_query(extraction),
            },
            self.source matches IconSource::Target(target) ==> (
            extraction matches Extraction::Lookup(query) && query.path@.len() == target@.len() + 1
                && (forall|i: int|
                0 <= i < target@.len() ==> #[trigger] query.path@[i] == target@[i])
                && query.path@[target@.len() as int] == 0 && query.attributes == 0 && query.flags
                == 0x100),
            self.source is Generic ==> (extraction matches Extraction::Lookup(query)
                && query.path@ == seq![
                    'a' as u16, 'p' as u16, 'p' as u16, 'l' as u16, 'i' as u16, 'c' as u16, 'a' as u16,
                    't' as u16, 'i' as u16, 'o' as u16, 'n' as u16, '.' as u16, 'e' as u16, 'x' as u16,
                    'e' as u16, 0u16,
                ] && query.attributes == 0x80 && query.flags == 0x110),
    {
        match &self.source {
            IconSource::Target(target) => extract_icon_png(target.as_slice()),
            IconSource::Generic => extract_generic_app_icon_png(),
        }
    }

    /// Takes what the extraction finished with.
    pub fn answer(self, png: Option<Png>) -> (lookup: IconLookup)
        ensures
            lookup@ == after_extract(self.source@, self.file@, crate::png::png_bytes(png)),
            png matches Some(icon) ==> (lookup matches IconLookup::Store(due) && due.source
                == self.source && due.file == self.file && due.png == icon),
            png is None && self.source is Target ==> (lookup matches IconLookup::Locate(due)
                && due.source is Generic && due.file.name@ == "__fallback__.png"@),
            png is None && self.source is Generic ==> lookup matches IconLookup::Finished(None),
    {
        match png {
            Some(png) => IconLookup::Store(
                StoreIcon { source: self.source, file: self.file, png },
            ),
            None => give_up(self.source),
        }
    }
}

impl StoreIcon {
    /// The write that is due, at its start, as process `pid` makes it its `seq`th.
    /// What it writes starts with the PNG signature.
    pub fn write<E>(&self, pid: u32, seq: u64) -> (write: AtomicWrite<E>)
        ensures
            write matches AtomicWrite::Write(first) && first.path@ == self.file@ && first.bytes@
                == self.png@ && first.temp@ == crate::cache::temp_name(self.file@, pid, seq)
                && crate::png::png_signature().is_prefix_of(first.bytes@) && first.path.name@
                == self.file.name@ && first.temp.name@ == self.file.name@ + "."@
                + crate::text::decimal(pid as nat) + "."@ + crate::text::decimal(seq as nat)
                + ".tmp"@,
    {
        write_atomically(self.file.duplicate(), self.png.to_bytes(), pid, seq)
    }

    /// Takes whether the cache file is in place.
    pub fn answer(self, stored: bool) -> (lookup: IconLookup)
        ensures
            lookup@ == after_store(self.source@, self.file@, stored),
            stored ==> lookup == IconLookup::Finished(Some(self.file)),
            !stored && self.source is Target ==> (lookup matches IconLookup::Locate(due)
                && due.source is Generic && due.file.name@ == "__fallback__.png"@),
            !stored && self.source is Generic ==> lookup matches IconLookup::Finished(None),
    {
        if stored {
            IconLookup::Finished(Some(self.file))
        } else {
            give_up(self.source)
        }
    }
}

// ---------------------------------------------------------------------------
// Laws
// ---------------------------------------------------------------------------

/// How the system answers the lookup of one icon, whether or not it is asked.
pub struct CacheReplies {
    pub located: bool,
    pub created: bool,
    pub exists: bool,
    pub png: Option<Seq<u8>>,
    pub stored: bool,
}

/// How the system answers a lookup: first for the target's own icon, then for
/// the fallback icon.
pub struct LookupReplies {
    pub own: CacheReplies,
    pub fallback: CacheReplies,
}

impl LookupReplies {
    /// The answers to a lookup for `source`.
    pub open spec fn of(self, source: Source) -> CacheReplies {
        match source {
            Source::Target(_) => self.own,
            Source::Generic => self.fallback,
        }
    }
}

impl LookupState {
    /// The state after the next answer.
    pub open spec fn next(self, replies: LookupReplies) -> LookupState {
        match self {
            LookupState::Locate { source, name } => after_locate(
                source,
                name,
                replies.of(source).located,
            ),
            LookupState::Create { source, name } => after_create(
                source,
                name,
                replies.of(source).created,
            ),
            LookupState::Look { source, name } => after_look(
                source,
                name,
                replies.of(source).exists,
            ),
            LookupState::Extract { source, name } => after_extract(
                source,
                name,
                replies.of(source).png,
            ),
            LookupState::Store { source, name, png } => after_store(
                source,
                name,
                replies.of(source).stored,
            ),
            LookupState::Finished { .. } => self,
        }
    }

    /// How many answers are due at most.
    pub open spec fn steps_left(self) -> nat {
        let rest: nat = match self {
            LookupState::Locate { source, .. } | LookupState::Create { source, .. }
            | LookupState::Look { source, .. } | LookupState::Extract { source, .. }
            | LookupState::Store { source, .. } => if source is Generic { 0 } else { 5 },
            LookupState::Finished { .. } => 0,
        };
        rest + match self {
            LookupState::Locate { .. } => 5,
            LookupState::Create { .. } => 4,
            LookupState::Look { .. } => 3,
            LookupState::Extract { .. } => 2,
            LookupState::Store { .. } => 1nat,
            LookupState::Finished { .. } => 0,
        }
    }

    /// The name of the cache file that the lookup ends with, if it ends with one.
    pub open spec fn result(self, replies: LookupReplies) -> Option<Seq<char>>
        decreases self.steps_left(),
    {
        match self {
            LookupState::Finished { found } => found,
            _ => self.next(replies).result(replies),
        }
    }

    /// Whose icons are extracted on the way to the end, in order.
    pub open spec fn extracted(self, replies: LookupReplies) -> Seq<Source>
        decreases self.steps_left(),
    {
        match self {
            LookupState::Finished { .. } => seq![],
            LookupState::Extract { source, .. } => seq![source] + self.next(replies).extracted(
                replies,
            ),
            _ => self.next(replies).extracted(replies),
        }
    }

    /// What is written on the way to the end, in order: the names of the cache
    /// files with their contents.
    pub open spec fn stored(self, replies: LookupReplies) -> Seq<(Seq<char>, Seq<u8>)>
        decreases self.steps_left(),
    {
        match self {
            LookupState::Finished { .. } => seq![],
            LookupState::Store { name, png, .. } => seq![(name, png)] + self.next(replies).stored(
                replies,
            ),
            _ => self.next(replies).stored(replies),
        }
    }
}

/// An icon can be had from the cache, or can be extracted and stored.
pub open spec fn obtainable(replies: CacheReplies) -> bool {
    replies.exists || replies.png is Some && replies.stored
}

/// The lookup of the fallback icon ends with its file exactly when there is a
/// local data directory and the icon is cached, or can be extracted and stored.
pub proof fn law_fallback_result(replies: LookupReplies)
    ensures
        fallback_start().result(replies) == (if replies.fallback.located && obtainable(
            replies.fallback,
        ) {
            Some(crate::cache::fallback_name())
        } else {
            None
        }),
{
    reveal_with_fuel(LookupState::result, 6);
}

/// The lookup of a target's icon ends with the target's own file when that can
/// be had, and with what the lookup of the fallback icon ends with otherwise.
/// Without a local data directory it ends with nothing.
pub proof fn law_icon_for_result(target: Seq<u16>, replies: LookupReplies)
    ensures
        target_start(target).result(replies) == (if !replies.own.located {
            None
        } else if replies.own.created && obtainable(replies.own) {
            Some(crate::cache::cache_name(target))
        } else {
            fallback_start().result(replies)
        }),
{
    reveal_with_fuel(LookupState::result, 6);
}

/// Which file a lookup ends with, in terms of how the system answered alone: the
/// target's own, else `__fallback__.png`, else none.
pub proof fn law_which_file_is_found(target: Seq<u16>, replies: LookupReplies)
    ensures
        target_start(target).result(replies) == (if !replies.own.located {
            None
        } else if replies.own.created && (replies.own.exists || replies.own.png is Some
            && replies.own.stored) {
            Some(
                crate::text::hex(
                    crate::cache::sha256(
                        vstd::utf8::encode_utf8(crate::text::lossy_text(target)),
                    ),
                ) + ".png"@,
            )
        } else if replies.fallback.located && (replies.fallback.exists
            || replies.fallback.png is Some && replies.fallback.stored) {
            Some("__fallback__.png"@)
        } else {
            None
        }),
        fallback_start().result(replies) == (if replies.fallback.located && (
        replies.fallback.exists || replies.fallback.png is Some && replies.fallback.stored) {
            Some("__fallback__.png"@)
        } else {
            None
        }),
{
    law_icon_for_result(target, replies);
    law_fallback_result(replies);
}

/// What a lookup starts with: the target itself, unit by unit, and its own file;
/// and for the fallback icon its file, whoever asks for it.
pub proof fn law_what_a_lookup_starts_with(target: Seq<u16>)
    ensures
        target_start(target) matches LookupState::Locate { source, name } && source
            == Source::Target(target) && name == crate::text::hex(
            crate::cache::sha256(vstd::utf8::encode_utf8(crate::text::lossy_text(target))),
        ) + ".png"@,
        fallback_start() matches LookupState::Locate { source, name } && source == Source::Generic
            && name == "__fallback__.png"@,
{
}

/// Without a local data directory nothing is extracted and nothing is written.
/// Without the cache directory the target's icon is neither extracted nor written,
/// and the lookup does what that of the fallback icon does.
pub proof fn law_no_directory_no_own_icon(target: Seq<u16>, replies: LookupReplies)
    ensures
        !replies.own.located ==> target_start(target).extracted(replies) == Seq::<Source>::empty()
            && target_start(target).stored(replies) == Seq::<(Seq<char>, Seq<u8>)>::empty(),
        replies.own.located && !replies.own.created ==> target_start(target).extracted(replies)
            == fallback_start().extracted(replies) && target_start(target).stored(replies)
            == fallback_start().stored(replies),
        !replies.fallback.located ==> fallback_start().extracted(replies)
            == Seq::<Source>::empty() && fallback_start().stored(replies) == Seq::<
            (Seq<char>, Seq<u8>),
        >::empty(),
{
    reveal_with_fuel(LookupState::extracted, 4);
    reveal_with_fuel(LookupState::stored, 4);
}

/// The lookup of a target's icon ends with nothing only if even the fallback
/// icon cannot be produced: there is no local data directory to keep it in, or
/// it is not cached and cannot be extracted or cannot be stored.
pub proof fn law_none_only_without_fallback(target: Seq<u16>, replies: LookupReplies)
    requires
        target_start(target).result(replies) is None,
    ensures
        !replies.own.located || !replies.fallback.located || !obtainable(replies.fallback),
{
    law_icon_for_result(target, replies);
    law_fallback_result(replies);
}

/// A target without an icon of its own still has the fallback icon, wherever
/// that one is cached or can be produced.
pub proof fn law_iconless_target_falls_back(target: Seq<u16>, replies: LookupReplies)
    requires
        replies.own.located,
        !replies.own.exists,
        replies.own.png is None,
        replies.fallback.located,
        obtainable(replies.fallback),
    ensures
        target_start(target).result(replies) == Some(crate::cache::fallback_name()),
{
    law_icon_for_result(target, replies);
    law_fallback_result(replies);
}

/// A cached icon is returned without any extraction and without any write.
pub proof fn law_cached_icon_is_not_extracted(target: Seq<u16>, replies: LookupReplies)
    requires
        replies.own.located,
        replies.own.created,
        replies.own.exists,
    ensures
        target_start(target).result(replies) == Some(crate::cache::cache_name(target)),
        target_start(target).extracted(replies) == Seq::<Source>::empty(),
        target_start(target).stored(replies) == Seq::<(Seq<char>, Seq<u8>)>::empty(),
{
    law_icon_for_result(target, replies);
    reveal_with_fuel(LookupState::extracted, 6);
    reveal_with_fuel(LookupState::stored, 6);
}

/// A cached fallback icon is returned without any extraction and without any
/// write.
pub proof fn law_cached_fallback_is_not_extracted(replies: LookupReplies)
    requires
        replies.fallback.located,
        replies.fallback.exists,
    ensures
        fallback_start().result(replies) == Some(crate::cache::fallback_name()),
        fallback_start().extracted(replies) == Seq::<Source>::empty(),
        fallback_start().stored(replies) == Seq::<(Seq<char>, Seq<u8>)>::empty(),
{
    law_fallback_result(replies);
    reveal_with_fuel(LookupState::extracted, 6);
    reveal_with_fuel(LookupState::stored, 6);
}

/// A fallback icon that is missing is extracted again, once, and stored under
/// its name.
pub proof fn law_missing_fallback_is_regenerated(replies: LookupReplies)
    requires
        replies.fallback.located,
        !replies.fallback.exists,
    ensures
        fallback_start().extracted(replies) == seq![Source::Generic],
        fallback_start().stored(replies) == (match replies.fallback.png {
            Some(png) => seq![(crate::cache::fallback_name(), png)],
            None => seq![],
        }),
{
    reveal_with_fuel(LookupState::extracted, 6);
    reveal_with_fuel(LookupState::stored, 6);
    assert(fallback_start().extracted(replies) =~= seq![Source::Generic]);
}

/// An icon that is not cached is extracted once and, if that succeeds, stored
/// under its name; the fallback icon is touched only after a failure.
pub proof fn law_missing_icon_is_extracted(target: Seq<u16>, replies: LookupReplies)
    requires
        replies.own.located,
        replies.own.created,
        !replies.own.exists,
    ensures
        target_start(target).extracted(replies) == seq![Source::Target(target)] + (
        if replies.own.png is Some && replies.own.stored {
            seq![]
        } else {
            fallback_start().extracted(replies)
        }),
        target_start(target).stored(replies) == (match replies.own.png {
            Some(png) => seq![(crate::cache::cache_name(target), png)] + (if replies.own.stored {
                seq![]
            } else {
                fallback_start().stored(replies)
            }),
            None => fallback_start().stored(replies),
        }),
{
    reveal_with_fuel(LookupState::extracted, 6);
    reveal_with_fuel(LookupState::stored, 6);
}

/// Every answer brings a lookup nearer to its end.
pub proof fn law_lookup_ends(state: LookupState, replies: LookupReplies)
    requires
        !(state is Finished),
    ensures
        state.next(replies).steps_left() < state.steps_left() <= 10,
{
}

/// What a lookup writes under the target's name is the target's own icon, and
/// what it writes under the fallback's name is the fallback icon; it writes no
/// other file.
pub proof fn law_stored_under_its_own_name(target: Seq<u16>, replies: LookupReplies, i: int)
    requires
        0 <= i < target_start(target).stored(replies).len(),
    ensures
        ({
            let (name, png) = target_start(target).stored(replies)[i];
            ||| name == crate::cache::cache_name(target) && replies.own.png == Some(png)
            ||| name == crate::cache::fallback_name() && replies.fallback.png == Some(png)
        }),
{
    reveal_with_fuel(LookupState::stored, 11);
}

/// A lookup ends with a file only if that file was there, or was written on the
/// way.
pub proof fn law_returned_file_is_in_place(target: Seq<u16>, replies: LookupReplies)
    requires
        target_start(target).result(replies) is Some,
    ensures
        ({
            let name = target_start(target).result(replies)->0;
            ||| name == crate::cache::cache_name(target) && obtainable(replies.own)
            ||| name == crate::cache::fallback_name() && obtainable(replies.fallback)
        }),
{
    law_icon_for_result(target, replies);
    law_fallback_result(replies);
}

} // verus!
