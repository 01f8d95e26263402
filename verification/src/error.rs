use vstd::prelude::*;

verus! {

/// The kind of an I/O failure, as far as the library tells kinds apart.
#[derive(Debug, Clone, Copy, PartialEq, Eq)]
pub enum IoKind {
    /// A file that should be there is not.
    NotFound,
    /// The data read is not what it should be.
    InvalidData,
    /// Any other failure.
    Other,
}

/// What can go wrong while building an AppImage.
///
/// Paths and I/O failures are carried as plain text: a path by its string,
/// an I/O failure by its kind and message.
#[derive(Debug)]
pub enum Error {
    /// The AppDir at this path could not be listed.
    AppDirNotFound(String),
    /// The AppDir holds no top-level `.desktop` file.
    NoDesktopEntry,
    /// The AppDir holds no `.DirIcon`.
    NoDirIcon,
    /// The AppDir holds no `AppRun`.
    NoAppRun,
    /// Every attempt to download `url` failed; `reason` is the last failure.
    DownloadFailed { url: String, reason: String },
    /// The runtime carries no ELF section of this name.
    SectionNotFound(String),
    /// The runtime is not a valid ELF binary or has corrupt section headers.
    MalformedElf,
    /// `size` bytes do not fit in the section `name`, which holds `capacity` bytes.
    SectionOverflow { name: String, size: usize, capacity: usize },
    /// mkdwarfs failed.
    DwarfsFailed(String),
    /// mksquashfs failed.
    SquashfsFailed(String),
    /// Generating the zsync control file failed.
    ZsyncGenerate(String),
    /// Writing the zsync control file failed.
    ZsyncWrite(String),
    /// A configuration problem, described by the message.
    Config(String),
    /// An I/O failure of the given kind, described by its message.
    Io { kind: IoKind, message: String },
}

} // verus!
