use pikr::atomic_write::{write_atomically, AtomicWrite};
use pikr::cache::{
    cache_directory_components, digest_file, fallback_file, icon_cache_path, temp_file, CacheFile,
};
use pikr::extract::{extract_generic_app_icon_png, extract_icon_png, Extraction};
use pikr::hicon::{dib_request, hicon_to_png, BitmapObject, Conversion, Handle, IconBitmaps};
use pikr::icons::{fallback_icon_path, icon_for, IconLookup};
use pikr::png::{encode_bgra, swap_red_blue, Png};
use pikr::text::{null_terminated, push_decimal, to_hex, to_lossy_text};
use std::collections::HashMap;

const PNG_MAGIC: &[u8] = b"\x89PNG\r\n\x1a\n";

fn wide(text: &str) -> Vec<u16> {
    text.encode_utf16().collect()
}

fn file(name: &str) -> CacheFile {
    CacheFile { name: name.to_string() }
}

/// A system in memory: its cache directory, and a shell that knows some icons.
struct System {
    has_data_dir: bool,
    can_create_dir: bool,
    can_write: Box<dyn Fn(&str) -> bool>,
    files: HashMap<String, Vec<u8>>,
    icons: Vec<Vec<u16>>,
    has_generic_icon: bool,
    seq: u64,
    lookups: usize,
    live_objects: Vec<isize>,
}

impl System {
    fn new(icons: &[&str]) -> System {
        System {
            has_data_dir: true,
            can_create_dir: true,
            can_write: Box::new(|_| true),
            files: HashMap::new(),
            icons: icons.iter().map(|path| null_terminated(&wide(path))).collect(),
            has_generic_icon: true,
            seq: 0,
            lookups: 0,
            live_objects: Vec::new(),
        }
    }

    fn take(&mut self, object: isize) {
        let at = self.live_objects.iter().position(|live| *live == object);
        self.live_objects.remove(at.expect("an object that is alive"));
    }

    fn convert(&mut self, mut conversion: Conversion) -> Option<Png> {
        loop {
            conversion = match conversion {
                Conversion::Info(query) => {
                    assert!(self.live_objects.contains(&query.icon.raw));
                    self.live_objects.extend([20, 30]);
                    let bitmaps = IconBitmaps { color: Handle { raw: 20 }, mask: Handle { raw: 30 } };
                    query.answer(Some(bitmaps))
                }
                Conversion::Size(query) => {
                    assert_eq!(query.bitmaps.color.raw, 20);
                    query.answer(BitmapObject { copied: 32, width: 2, height: 1 })
                }
                Conversion::Pixels(query) => {
                    assert_eq!(query.request.len, 8);
                    query.answer(1, vec![1, 2, 3, 4, 5, 6, 7, 8])
                }
                Conversion::Cleanup(cleanup) => {
                    for object in cleanup.objects() {
                        self.take(object.raw);
                    }
                    cleanup.answer()
                }
                Conversion::Finished(png) => return png,
            }
        }
    }

    fn extract(&mut self, mut extraction: Extraction) -> Option<Png> {
        self.lookups += 1;
        loop {
            extraction = match extraction {
                Extraction::Lookup(query) => {
                    let found = if query.flags & 0x10 != 0 {
                        self.has_generic_icon
                    } else {
                        self.icons.contains(&query.path)
                    };
                    if found {
                        self.live_objects.push(10);
                        query.answer(1, Handle { raw: 10 })
                    } else {
                        query.answer(0, Handle { raw: 0 })
                    }
                }
                Extraction::Convert(convert) => {
                    let png = self.convert(convert.conversion());
                    convert.answer(png)
                }
                Extraction::Destroy(destroy) => {
                    self.take(destroy.icon.raw);
                    destroy.answer()
                }
                Extraction::Finished(png) => return png,
            }
        }
    }

    fn write(&mut self, mut write: AtomicWrite<String>) -> Result<(), String> {
        loop {
            write = match write {
                AtomicWrite::Write(step) => {
                    if !(self.can_write)(&step.path.name) {
                        step.answer(Err("no space".to_string()))
                    } else {
                        self.files.insert(step.temp.name.clone(), step.bytes.clone());
                        step.answer(Ok(()))
                    }
                }
                AtomicWrite::Rename(step) => {
                    let bytes = self.files.remove(&step.temp.name).unwrap();
                    self.files.insert(step.path.name.clone(), bytes);
                    step.answer(Ok(()))
                }
                AtomicWrite::Remove(step) => {
                    self.files.remove(&step.temp.name);
                    step.answer()
                }
                AtomicWrite::Check(step) => {
                    let exists = self.files.contains_key(&step.path.name);
                    step.answer(exists)
                }
                AtomicWrite::Finished(result) => return result,
            }
        }
    }

    fn run(&mut self, mut lookup: IconLookup) -> Option<CacheFile> {
        loop {
            lookup = match lookup {
                IconLookup::Locate(due) => due.answer(self.has_data_dir),
                IconLookup::Create(due) => due.answer(self.can_create_dir),
                IconLookup::Look(due) => {
                    let exists = self.files.contains_key(&due.file.name);
                    due.answer(exists)
                }
                IconLookup::Extract(due) => {
                    let png = self.extract(due.extraction());
                    due.answer(png)
                }
                IconLookup::Store(due) => {
                    self.seq += 1;
                    let stored = self.write(due.write(7, self.seq)).is_ok();
                    due.answer(stored)
                }
                IconLookup::Finished(found) => return found,
            }
        }
    }
}

const NOTEPAD: &str = r"C:\Windows\System32\notepad.exe";

// --- Cache names ------------------------------------------------------------

#[test]
fn icon_cache_path_is_stable() {
    let target = wide(r"C:\Windows\System32\notepad.exe");
    let p1 = icon_cache_path(&target);
    let p2 = icon_cache_path(&target);
    assert_eq!(
        p1, p2,
        "cache path must be deterministic for the same input"
    );
}

#[test]
fn icon_cache_path_differs_for_different_targets() {
    let a = icon_cache_path(&wide(r"C:\Windows\System32\notepad.exe"));
    let b = icon_cache_path(&wide(r"C:\Windows\System32\calc.exe"));
    assert_ne!(a, b, "different targets must hash to different cache paths");
}

#[test]
fn cache_file_is_named_by_the_digest_of_the_target() {
    let name = |target: &[u16]| icon_cache_path(target).name;
    assert_eq!(
        name(&wide(NOTEPAD)),
        "cd7066f4b24dccec89137dc00ddd78f6a39fc3d63c1039ecb53356537d5ed6d3.png"
    );
    assert_eq!(
        name(&[]),
        "e3b0c44298fc1c149afbf4c8996fb92427ae41e4649b934ca495991b7852b855.png"
    );
    assert_eq!(
        name(&wide("C:\\\u{1F600}.exe")),
        "cd42c7eb8351bedcef3936abc918bce8418f75e1e8ffe2c4e8fffaf2c3b719f1.png"
    );
    // An unpaired surrogate reads as U+FFFD.
    let mut odd = wide("C:\\");
    odd.push(0xD83D);
    odd.extend(wide(".exe"));
    assert_eq!(
        name(&odd),
        "df9a630659f4e26f4ee09cf971cae8c600c51602387ffb46667556ca255af357.png"
    );
    assert_eq!(digest_file(&[0x00, 0x1f, 0xa0, 0xff]).name, "001fa0ff.png");
}

#[test]
fn cache_files_live_below_the_local_data_directory() {
    assert_eq!(cache_directory_components(), ["pikr", "icon-cache"]);
    assert_eq!(fallback_file().components(), ["pikr", "icon-cache", "__fallback__.png"]);
}

#[test]
fn temporary_names_tell_writes_apart() {
    let name = |name: &str, pid, seq| temp_file(&file(name), pid, seq).name;
    assert_eq!(name("a.png", 42, 0), "a.png.42.0.tmp");
    assert_eq!(
        name("a.png", u32::MAX, u64::MAX),
        "a.png.4294967295.18446744073709551615.tmp"
    );
    assert_ne!(name("a.png", 1, 11), name("a.png", 11, 1));
    assert_ne!(name("a.png", 1, 2), name("a.png.1", 1, 2));
}

#[test]
fn text_forms() {
    assert_eq!(to_hex(&[]), "");
    assert_eq!(to_hex(&[9, 10, 255]), "090aff");
    let mut text = String::from("n=");
    push_decimal(&mut text, 1090);
    assert_eq!(text, "n=1090");
    assert_eq!(to_lossy_text(&[0x61, 0xD83D, 0xDE00, 0xDE00, 0xD83D]), "a\u{1F600}\u{FFFD}\u{FFFD}");
    assert_eq!(to_lossy_text(&[0xD83D, 0xD83D, 0xDE00]), "\u{FFFD}\u{1F600}");
    assert_eq!(null_terminated(&wide("ab")), [0x61, 0x62, 0]);
}

// --- Pixels -----------------------------------------------------------------

#[test]
fn channels_are_swapped_and_swapped_back() {
    let mut pixels = vec![1, 2, 3, 4, 5, 6, 7, 8, 9, 10, 11];
    swap_red_blue(&mut pixels);
    assert_eq!(pixels, [3, 2, 1, 4, 7, 6, 5, 8, 9, 10, 11]);
    swap_red_blue(&mut pixels);
    assert_eq!(pixels, [1, 2, 3, 4, 5, 6, 7, 8, 9, 10, 11]);
}

#[test]
fn bgra_pixels_become_a_png_that_shows_them() {
    let png = encode_bgra(2, 1, vec![1, 2, 3, 4, 5, 6, 7, 8]).unwrap();
    assert_eq!(&png.as_slice()[..8], PNG_MAGIC);
    let image = image::load_from_memory(png.as_slice()).unwrap().to_rgba8();
    assert_eq!(image.dimensions(), (2, 1));
    assert_eq!(image.into_raw(), [3, 2, 1, 4, 7, 6, 5, 8]);
}

#[test]
fn longer_buffer_than_the_image_is_cut() {
    let png = encode_bgra(1, 1, vec![1, 2, 3, 4, 5, 6, 7, 8]).unwrap();
    let image = image::load_from_memory(png.as_slice()).unwrap().to_rgba8();
    assert_eq!(image.into_raw(), [3, 2, 1, 4]);
}

#[test]
fn empty_or_short_images_have_no_png() {
    assert!(encode_bgra(0, 1, vec![]).is_none());
    assert!(encode_bgra(1, 0, vec![0; 4]).is_none());
    assert!(encode_bgra(2, 2, vec![0; 15]).is_none());
    assert!(encode_bgra(u32::MAX, u32::MAX, vec![0; 16]).is_none());
    assert!(encode_bgra(2, 2, vec![0; 16]).is_some());
}

#[test]
fn pixel_requests_fit_the_bitmap() {
    let request = |copied, width, height| dib_request(BitmapObject { copied, width, height });
    let plan = request(32, 48, 32).unwrap();
    assert_eq!((plan.width, plan.height, plan.len), (48, 32, 6144));
    assert_eq!((plan.header.width, plan.header.height), (48, -32));
    assert_eq!((plan.header.planes, plan.header.bit_count, plan.header.compression), (1, 32, 0));
    assert!(request(0, 48, 32).is_none());
    assert!(request(32, -1, 32).is_none());
    assert!(request(32, 48, i32::MIN).is_none());
    assert!(request(32, 0, 32).is_none());
    assert!(request(32, 48, 0).is_none());
    let largest = request(32, i32::MAX, i32::MAX);
    assert_eq!(largest.is_some(), usize::BITS == 64);
}

#[test]
fn handles_zero_and_minus_one_are_invalid() {
    assert!(Handle { raw: 0 }.is_invalid());
    assert!(Handle { raw: -1 }.is_invalid());
    assert!(!Handle { raw: 1 }.is_invalid());
}

// --- Conversion and extraction ----------------------------------------------

fn after_info(color: isize, mask: isize) -> Conversion {
    match hicon_to_png(Handle { raw: 5 }) {
        Conversion::Info(query) => query.answer(Some(IconBitmaps {
            color: Handle { raw: color },
            mask: Handle { raw: mask },
        })),
        other => panic!("unexpected {other:?}"),
    }
}

fn after_size(color: isize, mask: isize, object: BitmapObject) -> Conversion {
    match after_info(color, mask) {
        Conversion::Size(query) => query.answer(object),
        other => panic!("unexpected {other:?}"),
    }
}

#[test]
fn icon_without_bitmaps_has_no_png() {
    match hicon_to_png(Handle { raw: 5 }) {
        Conversion::Info(query) => {
            assert_eq!(query.icon.raw, 5);
            assert!(matches!(query.answer(None), Conversion::Finished(None)));
        }
        other => panic!("unexpected {other:?}"),
    }
}

#[test]
fn bitmaps_are_deleted_where_the_size_is_unknown() {
    let unknown = BitmapObject { copied: 0, width: 1, height: 1 };
    for (color, mask, deleted) in [(20, 30, vec![20, 30]), (0, 30, vec![30]), (20, -1, vec![20]), (0, 0, vec![])] {
        match after_size(color, mask, unknown) {
            Conversion::Cleanup(cleanup) => {
                let objects: Vec<isize> = cleanup.objects().iter().map(|o| o.raw).collect();
                assert_eq!(objects, deleted);
                assert!(matches!(cleanup.answer(), Conversion::Finished(None)));
            }
            other => panic!("unexpected {other:?}"),
        }
    }
}

#[test]
fn bitmaps_are_deleted_where_no_row_was_copied() {
    match after_size(20, 30, BitmapObject { copied: 32, width: 1, height: 1 }) {
        Conversion::Pixels(query) => match query.answer(0, vec![1, 2, 3, 4]) {
            Conversion::Cleanup(cleanup) => {
                assert_eq!(cleanup.objects().len(), 2);
                assert!(matches!(cleanup.answer(), Conversion::Finished(None)));
            }
            other => panic!("unexpected {other:?}"),
        },
        other => panic!("unexpected {other:?}"),
    }
}

#[test]
fn copied_rows_become_the_png() {
    match after_size(20, 30, BitmapObject { copied: 32, width: 1, height: 1 }) {
        Conversion::Pixels(query) => match query.answer(1, vec![1, 2, 3, 4]) {
            Conversion::Cleanup(cleanup) => match cleanup.answer() {
                Conversion::Finished(Some(png)) => {
                    let image = image::load_from_memory(png.as_slice()).unwrap().to_rgba8();
                    assert_eq!(image.into_raw(), [3, 2, 1, 4]);
                    assert_eq!(png.to_bytes(), png.as_slice());
                }
                other => panic!("unexpected {other:?}"),
            },
            other => panic!("unexpected {other:?}"),
        },
        other => panic!("unexpected {other:?}"),
    }
}

#[test]
fn shell_is_asked_for_the_large_icon() {
    match extract_icon_png(&wide("a.exe")) {
        Extraction::Lookup(query) => {
            assert_eq!(query.path, null_terminated(&wide("a.exe")));
            assert_eq!((query.attributes, query.flags), (0, 0x100));
        }
        other => panic!("unexpected {other:?}"),
    }
    match extract_generic_app_icon_png() {
        Extraction::Lookup(query) => {
            assert_eq!(query.path, null_terminated(&wide("application.exe")));
            assert_eq!((query.attributes, query.flags), (0x80, 0x110));
        }
        other => panic!("unexpected {other:?}"),
    }
}

#[test]
fn lookup_without_an_icon_ends_at_once() {
    for (result, icon) in [(0, 10), (1, 0), (1, -1)] {
        match extract_icon_png(&wide("a.exe")) {
            Extraction::Lookup(query) => assert!(matches!(
                query.answer(result, Handle { raw: icon }),
                Extraction::Finished(None)
            )),
            other => panic!("unexpected {other:?}"),
        }
    }
}

#[test]
fn icon_is_destroyed_after_a_failed_conversion() {
    match extract_icon_png(&wide("a.exe")) {
        Extraction::Lookup(query) => match query.answer(1, Handle { raw: 10 }) {
            Extraction::Convert(convert) => match convert.answer(None) {
                Extraction::Destroy(destroy) => {
                    assert_eq!(destroy.icon.raw, 10);
                    assert!(matches!(destroy.answer(), Extraction::Finished(None)));
                }
                other => panic!("unexpected {other:?}"),
            },
            other => panic!("unexpected {other:?}"),
        },
        other => panic!("unexpected {other:?}"),
    }
}

// --- Atomic writes ----------------------------------------------------------

fn begin(name: &str, bytes: Vec<u8>, seq: u64) -> AtomicWrite<&'static str> {
    write_atomically(file(name), bytes, 9, seq)
}

fn write_with(
    written: Result<(), &'static str>,
    renamed: Result<(), &'static str>,
    exists: bool,
) -> (Result<(), &'static str>, Vec<String>) {
    let mut removed = Vec::new();
    let mut write = begin("icon.png", vec![1], 3);
    loop {
        write = match write {
            AtomicWrite::Write(step) => {
                assert_eq!(step.temp.name, "icon.png.9.3.tmp");
                assert_eq!(step.bytes, [1]);
                step.answer(written)
            }
            AtomicWrite::Rename(step) => {
                assert_eq!(step.temp.name, "icon.png.9.3.tmp");
                assert_eq!(step.path.name, "icon.png");
                step.answer(renamed)
            }
            AtomicWrite::Remove(step) => {
                removed.push(step.temp.name.clone());
                step.answer()
            }
            AtomicWrite::Check(step) => {
                assert_eq!(step.path.name, "icon.png");
                step.answer(exists)
            }
            AtomicWrite::Finished(result) => return (result, removed),
        }
    }
}

#[test]
fn write_ends_with_the_error_that_came_first() {
    let temp = || vec!["icon.png.9.3.tmp".to_string()];
    assert_eq!(write_with(Ok(()), Ok(()), false), (Ok(()), vec![]));
    assert_eq!(write_with(Err("full"), Ok(()), true), (Err("full"), vec![]));
    assert_eq!(write_with(Ok(()), Err("open"), false), (Err("open"), temp()));
    assert_eq!(write_with(Ok(()), Err("open"), true), (Ok(()), temp()));
}

/// Writers of one cache file that take turns in the middle of their writes never
/// expose a part of a file.
#[test]
fn write_atomically_never_exposes_partial_file() {
    const LEN: usize = 256 * 1024;
    let mut files: HashMap<String, Vec<u8>> = HashMap::new();
    files.insert("icon.png".to_string(), vec![0u8; LEN]);
    let mut seq = 0;
    for _ in 0..25 {
        let mut writers: Vec<Option<AtomicWrite<&'static str>>> = Vec::new();
        for w in 0..4u8 {
            seq += 1;
            writers.push(Some(begin("icon.png", vec![w; LEN], seq)));
        }
        let mut half_written = [false; 4];
        while writers.iter().any(|w| !matches!(w, Some(AtomicWrite::Finished(_)))) {
            for (i, slot) in writers.iter_mut().enumerate() {
                *slot = Some(match slot.take().unwrap() {
                    AtomicWrite::Write(step) if !half_written[i] => {
                        half_written[i] = true;
                        files.insert(step.temp.name.clone(), step.bytes[..LEN / 2].to_vec());
                        AtomicWrite::Write(step)
                    }
                    AtomicWrite::Write(step) => {
                        files.insert(step.temp.name.clone(), step.bytes.clone());
                        step.answer(Ok(()))
                    }
                    AtomicWrite::Rename(step) => {
                        let bytes = files.remove(&step.temp.name).unwrap();
                        files.insert(step.path.name.clone(), bytes);
                        step.answer(Ok(()))
                    }
                    other => other,
                });
                let bytes = &files["icon.png"];
                assert_eq!(bytes.len(), LEN, "reader saw a partial file");
                assert!(bytes.iter().all(|b| *b == bytes[0]));
            }
        }
        assert_eq!(files.len(), 1);
    }
}

// --- Lookups ----------------------------------------------------------------

#[test]
fn icon_for_notepad_produces_png() {
    let mut system = System::new(&[NOTEPAD]);
    let notepad = wide(r"C:\Windows\System32\notepad.exe");
    let path = system.run(icon_for(&notepad)).expect("icon_for notepad.exe must succeed");
    assert!(system.files.contains_key(&path.name), "cached PNG must exist on disk");
    let bytes = &system.files[&path.name];
    // PNG magic bytes: \x89PNG\r\n\x1a\n
    assert_eq!(
        &bytes[..8],
        b"\x89PNG\r\n\x1a\n",
        "file must start with PNG magic"
    );
    assert_eq!(path, icon_cache_path(&notepad));
    assert_eq!(system.lookups, 1);
    // Second call must hit the cache (same path returned).
    let path2 = system.run(icon_for(&notepad)).expect("second call must also succeed");
    assert_eq!(path, path2, "cache path must be stable across calls");
    assert_eq!(system.lookups, 1);
    assert!(system.live_objects.is_empty());
    assert_eq!(system.files.len(), 1);
}

#[test]
fn fallback_icon_path_returns_a_path() {
    let mut system = System::new(&[]);
    let path = system.run(fallback_icon_path()).unwrap();
    assert!(
        system.files.contains_key(&path.name),
        "fallback PNG must exist on disk after first call"
    );
    assert_eq!(
        &system.files[&path.name][..8],
        b"\x89PNG\r\n\x1a\n",
        "fallback file must start with PNG magic"
    );
    // Second call must hit the cache (file already present).
    let path2 = system.run(fallback_icon_path()).expect("second call must also return Some");
    assert_eq!(path, path2, "fallback path must be stable across calls");
    assert_eq!(system.lookups, 1);
}

#[test]
fn icon_for_unknown_path_falls_back() {
    let mut system = System::new(&[NOTEPAD]);
    let result = system.run(icon_for(&wide(r"C:\nonexistent\thing.bat")));
    assert!(
        result.is_some(),
        "icon_for an unknown/iconless path must return Some (fallback)"
    );
    assert_eq!(result, Some(fallback_file()));
    assert_eq!(system.lookups, 2);
    assert!(system.live_objects.is_empty());
    // The fallback icon is extracted once for all targets.
    assert_eq!(system.run(icon_for(&wide("b.exe"))), Some(fallback_file()));
    assert_eq!(system.lookups, 3);
}

#[test]
fn no_icon_without_a_local_data_directory() {
    let mut system = System::new(&[NOTEPAD]);
    system.has_data_dir = false;
    assert_eq!(system.run(icon_for(&wide(NOTEPAD))), None);
    assert_eq!(system.run(fallback_icon_path()), None);
    assert_eq!(system.lookups, 0);
}

#[test]
fn no_icon_where_even_the_fallback_cannot_be_produced() {
    let mut system = System::new(&[]);
    system.has_generic_icon = false;
    assert_eq!(system.run(icon_for(&wide(NOTEPAD))), None);
    let mut system = System::new(&[NOTEPAD]);
    system.can_write = Box::new(|_| false);
    assert_eq!(system.run(icon_for(&wide(NOTEPAD))), None);
    assert_eq!(system.lookups, 2);
    assert!(system.live_objects.is_empty());
}

#[test]
fn icon_that_cannot_be_stored_gives_way_to_the_fallback() {
    let mut system = System::new(&[NOTEPAD]);
    system.can_write = Box::new(|name| name == "__fallback__.png");
    assert_eq!(system.run(icon_for(&wide(NOTEPAD))), Some(fallback_file()));
}

#[test]
fn cached_fallback_serves_without_a_new_directory() {
    let mut system = System::new(&[NOTEPAD]);
    system.can_create_dir = false;
    system.files.insert("__fallback__.png".to_string(), vec![0]);
    assert_eq!(system.run(icon_for(&wide(NOTEPAD))), Some(fallback_file()));
    assert_eq!(system.lookups, 0);
}
