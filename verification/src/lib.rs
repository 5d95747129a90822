//! The parts of a launcher that decide: which entries a list on standard input
//! holds, and how the icon of a Windows target is found, converted and cached.
//!
//! Nothing here touches the system. Where a task needs it, a value says what is
//! due next, its method `answer` takes how that went, and the task goes on.
//!
//! - [`dmenu`]: the entries on standard input.
//! - [`icons`]: the lookup of a target's icon, in the cache or through the shell.
//! - [`extract`]: the extraction of an icon through the shell.
//! - [`hicon`]: the conversion of an icon handle to a PNG file.
//! - [`png`]: from pixels to a PNG file.
//! - [`atomic_write`]: writing a cache file so that no reader sees a part of it.
//! - [`cache`]: the names of the files in the cache.
//! - [`text`]: digits and UTF-16.

pub mod atomic_write;
pub mod cache;
pub mod dmenu;
pub mod extract;
pub mod hicon;
pub mod icons;
pub mod png;
pub mod text;
