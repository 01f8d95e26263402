# appimagetool

Builds DWARFS-based AppImages from an AppDir. The logic is written in Verus
and proved against its contracts; the program around it is plain Rust.

Layout:

- `src/` — the verified library.
  - `elf.rs`: ELF (32- and 64-bit, either byte order) section lookup,
    reading, bounded writing and in-place patching of section strings; a
    corrupt section table is reported, never indexed past. With the law that
    reading a section back after writing into it gives the value padded
    with zeros, for a section that lies inside the file and clear of what a
    lookup reads: the ELF header (52 bytes for 32-bit files, 64 for 64-bit
    ones), the leading fields of the section headers, and the name table.
  - `uruntime.rs`: configuring the runtime's `.upd_info` and `.envs` sections
    and its keep-mount marker; choosing where the runtime comes from (given,
    cached, downloaded).
  - `desktop.rs`: parsing `.desktop` entries, choosing the desktop file,
    checking the AppDir, the application name (`APPNAME` over `Name`),
    adding `X-AppImage-*` metadata, output names.
  - `config.rs`: turning command-line values and an environment snapshot into
    a build configuration; version strings.
  - `dwarfs.rs`: choosing where `mkdwarfs` comes from (given, `PATH`,
    cached, downloaded), its download URL and argument lists.
  - `appimage.rs`: the build plan, nightly marking, appinfo text.
  - `util.rs`: file-name sanitising, ELF magic check, download retry steps
    and the check of a downloaded binary.
  - `text.rs`: string helpers with exact specifications.
- `tests/` — tests run against the compiled library.
- `app/` — the command-line program: argument parsing, file and network I/O,
  running `mkdwarfs` and `zsyncmake`.
