use vstd::prelude::*;

use crate::error::Error;
use crate::text::{
    after_last, after_last_index, chars_of, chars_start_with, join, path_join, join_path,
    seq_join, spec_lines, spec_words, split_lines, split_whitespace, starts_with, string_of,
    texts, trim_char, trim_char_bounds, trim_whitespace, trim_whitespace_bounds,
};
use crate::util::{sanitize_filename, spec_sanitize_filename};

verus! {

/// Parsed metadata from a .desktop file.
pub struct DesktopEntry {
    pub path: String,
    pub name: String,
    /// The value of the `Exec` key.
    pub exec_cmd: String,
    pub icon_name: Option<String>,
}

// ---------------------------------------------------------------------------
// Keys of a desktop entry
// ---------------------------------------------------------------------------

/// The value that a `key=` line carries after the prefix: its first
/// whitespace-separated word (all of it when it holds none), without the
/// double quotes at either end.
pub open spec fn key_value(rest: Seq<char>) -> Seq<char> {
    let words = spec_words(rest);
    let word = if words.len() > 0 {
        words[0]
    } else {
        rest
    };
    trim_char(word, '"')
}

/// The whole value that a `key=` line carries after the prefix: the rest of
/// the line without whitespace at either end, then without the double
/// quotes at either end. The `Name` key is read this way, since the
/// application's name may hold spaces.
pub open spec fn whole_key_value(rest: Seq<char>) -> Seq<char> {
    trim_char(trim_whitespace(rest), '"')
}

/// The value of the first line, from line `i` on, that starts with `prefix`:
/// its whole value when `whole`, else its first word.
pub open spec fn parse_key_from(lines: Seq<Seq<char>>, prefix: Seq<char>, i: int, whole: bool) -> Option<Seq<char>>
    decreases lines.len() - i,
{
    if i < 0 || i >= lines.len() {
        None
    } else if starts_with(lines[i], prefix) {
        let rest = lines[i].skip(prefix.len() as int);
        Some(if whole { whole_key_value(rest) } else { key_value(rest) })
    } else {
        parse_key_from(lines, prefix, i + 1, whole)
    }
}

/// The value of `key` in the desktop file `content`: the first word of the
/// first line that starts with `key=`.
pub open spec fn spec_parse_key(content: Seq<char>, key: Seq<char>) -> Option<Seq<char>> {
    parse_key_from(spec_lines(content), key + "="@, 0, false)
}

/// The application name in the desktop file `content`: the whole value of
/// the first line that starts with `Name=`.
pub open spec fn spec_parse_name(content: Seq<char>) -> Option<Seq<char>> {
    parse_key_from(spec_lines(content), "Name"@ + "="@, 0, true)
}

/// The first word carried by the rest of a `key=` line.
fn value_of(rest: &str) -> (res: String)
    ensures
        res@ == key_value(rest@),
{
    let words = split_whitespace(rest);
    let word = if words.len() > 0 {
        chars_of(words[0].as_str())
    } else {
        chars_of(rest)
    };
    proof {
        if words.len() > 0 {
            assert(texts(words@)[0] == words@[0]@);
        }
    }
    let (a, b) = trim_char_bounds(word.as_slice(), '"');
    string_of(&word.as_slice()[a..b])
}

/// The whole value carried by the rest of a `key=` line.
fn whole_value_of(rest: &str) -> (res: String)
    ensures
        res@ == whole_key_value(rest@),
{
    let cs = chars_of(rest);
    let (a, b) = trim_whitespace_bounds(cs.as_slice());
    let t = &cs.as_slice()[a..b];
    assert(t@ == trim_whitespace(rest@));
    let (c, d) = trim_char_bounds(t, '"');
    string_of(&t[c..d])
}

/// The value of `key` in `content`, read whole when `whole`, else its first word.
fn find_key(content: &str, key: &str, whole: bool) -> (res: Option<String>)
    ensures
        match res {
            Some(v) => parse_key_from(spec_lines(content@), key@ + "="@, 0, whole) == Some(v@),
            None => parse_key_from(spec_lines(content@), key@ + "="@, 0, whole) is None,
        },
{
    let mut prefix = key.to_owned();
    prefix.append("=");
    let prefix_chars = chars_of(prefix.as_str());
    let lines = split_lines(content);
    let n = lines.len();
    let ghost ls = texts(lines@);
    for i in 0..n
        invariant
            n == lines@.len(),
            ls == texts(lines@),
            ls == spec_lines(content@),
            prefix_chars@ == key@ + "="@,
            parse_key_from(ls, key@ + "="@, 0, whole) == parse_key_from(ls, prefix_chars@, i as int, whole),
    {
        let line = chars_of(lines[i].as_str());
        assert(line@ == ls[i as int]);
        if chars_start_with(line.as_slice(), prefix_chars.as_slice()) {
            let rest = string_of(&line.as_slice()[prefix_chars.len()..line.len()]);
            assert(rest@ =~= ls[i as int].skip(prefix_chars@.len() as int));
            return Some(if whole { whole_value_of(rest.as_str()) } else { value_of(rest.as_str()) });
        }
    }
    None
}

/// Parse a key from a .desktop file (simple line-based parser): the first
/// word of the first `key=` line's value, without surrounding double quotes.
pub fn parse_key(content: &str, key: &str) -> (res: Option<String>)
    ensures
        match res {
            Some(v) => spec_parse_key(content@, key@) == Some(v@),
            None => spec_parse_key(content@, key@) is None,
        },
{
    find_key(content, key, false)
}

/// The application name of a .desktop file: the whole value of the first
/// `Name=` line, trimmed and without surrounding double quotes.
pub fn parse_name(content: &str) -> (res: Option<String>)
    ensures
        match res {
            Some(v) => spec_parse_name(content@) == Some(v@),
            None => spec_parse_name(content@) is None,
        },
{
    find_key(content, "Name", true)
}

impl DesktopEntry {
    /// The entry of the desktop file at `path` whose text is `content`: its
    /// whole `Name` and the first word of its `Exec` (each empty when
    /// missing), and the first word of its `Icon`.
    pub fn from_content(path: String, content: &str) -> (res: DesktopEntry)
        ensures
            res.path == path,
            res.name@ == match spec_parse_name(content@) {
                Some(v) => v,
                None => Seq::empty(),
            },
            res.exec_cmd@ == match spec_parse_key(content@, "Exec"@) {
                Some(v) => v,
                None => Seq::empty(),
            },
            match res.icon_name {
                Some(icon) => spec_parse_key(content@, "Icon"@) == Some(icon@),
                None => spec_parse_key(content@, "Icon"@) is None,
            },
    {
        let name = match parse_name(content) {
            Some(v) => v,
            None => String::new(),
        };
        let exec_cmd = match parse_key(content, "Exec") {
            Some(v) => v,
            None => String::new(),
        };
        let icon_name = parse_key(content, "Icon");
        DesktopEntry { path, name, exec_cmd, icon_name }
    }
}

// ---------------------------------------------------------------------------
// Finding the desktop file
// ---------------------------------------------------------------------------

/// `name` is the name of a `.desktop` file: its extension, the part after
/// its last dot, is `desktop`, and the part before that dot is not empty.
pub open spec fn is_desktop_file_name(name: Seq<char>) -> bool {
    name.len() > 8 && name.skip(name.len() - 8) == ".desktop"@
}

/// The index of the first `.desktop` file name in `names`, from `i` on.
pub open spec fn next_desktop_file(names: Seq<Seq<char>>, i: int) -> Option<int>
    decreases names.len() - i,
{
    if i < 0 || i >= names.len() {
        None
    } else if is_desktop_file_name(names[i]) {
        Some(i)
    } else {
        next_desktop_file(names, i + 1)
    }
}

/// The message reported when an AppDir holds more than one desktop file.
pub open spec fn multiple_desktop_files_message() -> Seq<char> {
    "multiple .desktop files found in AppDir, expected exactly one"@
}

/// A name is a desktop file name exactly when it is a non-empty stem (which
/// may hold dots of its own, as in `org.example.App`) followed by
/// `.desktop`: the part after its last dot is `desktop`.
pub proof fn lemma_desktop_file_names(name: Seq<char>)
    ensures
        is_desktop_file_name(name) <==> exists|stem: Seq<char>|
            stem.len() > 0 && name == #[trigger] (stem + ".desktop"@),
{
    reveal_strlit(".desktop");
    if is_desktop_file_name(name) {
        let stem = name.take(name.len() - 8);
        assert(name =~= stem + ".desktop"@);
    }
    if exists|stem: Seq<char>| stem.len() > 0 && name == #[trigger] (stem + ".desktop"@) {
        let stem = choose|stem: Seq<char>| stem.len() > 0 && name == #[trigger] (stem + ".desktop"@);
        assert(name.skip(name.len() - 8) =~= ".desktop"@);
    }
}

/// Every non-empty stem followed by `.desktop` names a desktop file.
pub proof fn lemma_stem_and_extension_is_desktop_file(stem: Seq<char>)
    requires
        stem.len() > 0,
    ensures
        is_desktop_file_name(stem + ".desktop"@),
{
    lemma_desktop_file_names(stem + ".desktop"@);
}

/// Whether `name` is the name of a `.desktop` file.
pub fn has_desktop_extension(name: &str) -> (res: bool)
    ensures
        res == is_desktop_file_name(name@),
{
    let cs = chars_of(name);
    let ext = chars_of(".desktop");
    if cs.len() <= 8 {
        return false;
    }
    proof {
        reveal_strlit(".desktop");
    }
    let tail = &cs.as_slice()[cs.len() - 8..cs.len()];
    let res = chars_start_with(tail, ext.as_slice());
    assert(tail@.take(8) =~= tail@);
    assert(tail@ =~= cs@.skip(cs@.len() - 8));
    res
}

/// The path of the single top-level `.desktop` file of the AppDir
/// `appdir`, whose entries are named `entries`.
pub fn select_desktop_file(appdir: &str, entries: &[String]) -> (res: Result<String, Error>)
    ensures
        match next_desktop_file(texts(entries@), 0) {
            None => res matches Err(Error::NoDesktopEntry),
            Some(k) => match next_desktop_file(texts(entries@), k + 1) {
                Some(_) => res matches Err(Error::Config(m)) && m@ == multiple_desktop_files_message(),
                None => res matches Ok(p) && p@ == path_join(appdir@, texts(entries@)[k]),
            },
        },
{
    let n = entries.len();
    let ghost names = texts(entries@);
    let mut found: Option<usize> = None;
    for i in 0..n
        invariant
            n == entries@.len(),
            names == texts(entries@),
            match found {
                None => next_desktop_file(names, 0) == next_desktop_file(names, i as int),
                Some(k) => k < i && next_desktop_file(names, 0) == Some(k as int) && next_desktop_file(
                    names,
                    k + 1,
                ) == next_desktop_file(names, i as int),
            },
    {
        assert(names[i as int] == entries@[i as int]@);
        if has_desktop_extension(entries[i].as_str()) {
            if found.is_some() {
                return Err(
                    Error::Config(
                        "multiple .desktop files found in AppDir, expected exactly one".to_owned(),
                    ),
                );
            }
            found = Some(i);
        }
    }
    match found {
        Some(k) => {
            assert(names[k as int] == entries@[k as int]@);
            Ok(join_path(appdir, entries[k].as_str()))
        },
        None => Err(Error::NoDesktopEntry),
    }
}

// ---------------------------------------------------------------------------
// Metadata lines
// ---------------------------------------------------------------------------

/// `line` sets one of the keys that the AppImage metadata consists of.
pub open spec fn is_metadata_line(line: Seq<char>) -> bool {
    ||| starts_with(line, "X-AppImage-Name="@)
    ||| starts_with(line, "X-AppImage-Version="@)
    ||| starts_with(line, "X-AppImage-Arch="@)
}

/// The lines of `content` that do not set AppImage metadata.
pub open spec fn kept_lines(content: Seq<char>) -> Seq<Seq<char>> {
    spec_lines(content).filter(|l: Seq<char>| !is_metadata_line(l))
}

/// The metadata lines, each ending with a line feed.
pub open spec fn metadata_lines(app_name: Seq<char>, version: Seq<char>, arch: Seq<char>) -> Seq<char> {
    "X-AppImage-Name="@ + app_name + "\n"@ + "X-AppImage-Version="@ + version + "\n"@
        + "X-AppImage-Arch="@ + arch + "\n"@
}

/// `content` with its metadata lines replaced: the other lines joined by
/// line feeds, a line feed unless that text already ends with one, and the
/// three metadata lines.
pub open spec fn spec_add_appimage_metadata(
    content: Seq<char>,
    app_name: Seq<char>,
    version: Seq<char>,
    arch: Seq<char>,
) -> Seq<char> {
    let kept = seq_join(kept_lines(content), "\n"@);
    let sep = if kept.len() > 0 && kept.last() == '\n' {
        Seq::empty()
    } else {
        seq!['\n']
    };
    kept + sep + metadata_lines(app_name, version, arch)
}

/// Adding metadata drops every line that set AppImage metadata before: no
/// line kept from the old text sets any of the three keys.
pub proof fn lemma_old_metadata_removed(content: Seq<char>)
    ensures
        forall|i: int|
            0 <= i < kept_lines(content).len() ==> !is_metadata_line(#[trigger] kept_lines(content)[i]),
{
    assert forall|i: int| 0 <= i < kept_lines(content).len() implies !is_metadata_line(
        #[trigger] kept_lines(content)[i],
    ) by {
        spec_lines(content).lemma_filter_pred(|l: Seq<char>| !is_metadata_line(l), i);
    }
}

/// Adding metadata keeps every other line of the old text.
pub proof fn lemma_other_lines_kept(content: Seq<char>, i: int)
    requires
        0 <= i < spec_lines(content).len(),
        !is_metadata_line(spec_lines(content)[i]),
    ensures
        kept_lines(content).contains(spec_lines(content)[i]),
{
    spec_lines(content).lemma_filter_contains(|l: Seq<char>| !is_metadata_line(l), i);
}

/// Adding metadata removes exactly the lines that start with
/// `X-AppImage-Name=`, `X-AppImage-Version=` or `X-AppImage-Arch=`: every
/// other line of the old text is kept, in order, and the three fresh lines
/// follow.
pub proof fn lemma_metadata_replaces_exactly_its_keys(
    content: Seq<char>,
    app_name: Seq<char>,
    version: Seq<char>,
    arch: Seq<char>,
)
    ensures
        ({
            let keep = |l: Seq<char>|
                !(l.len() >= "X-AppImage-Name="@.len() && l.take("X-AppImage-Name="@.len() as int)
                    == "X-AppImage-Name="@) && !(l.len() >= "X-AppImage-Version="@.len() && l.take(
                    "X-AppImage-Version="@.len() as int,
                ) == "X-AppImage-Version="@) && !(l.len() >= "X-AppImage-Arch="@.len() && l.take(
                    "X-AppImage-Arch="@.len() as int,
                ) == "X-AppImage-Arch="@);
            let text = seq_join(spec_lines(content).filter(keep), "\n"@);
            let sep = if text.len() > 0 && text.last() == '\n' {
                Seq::empty()
            } else {
                seq!['\n']
            };
            spec_add_appimage_metadata(content, app_name, version, arch) == text + sep
                + "X-AppImage-Name="@ + app_name + "\n"@ + "X-AppImage-Version="@ + version + "\n"@
                + "X-AppImage-Arch="@ + arch + "\n"@
        }),
{
    let keep = |l: Seq<char>|
        !(l.len() >= "X-AppImage-Name="@.len() && l.take("X-AppImage-Name="@.len() as int)
            == "X-AppImage-Name="@) && !(l.len() >= "X-AppImage-Version="@.len() && l.take(
            "X-AppImage-Version="@.len() as int,
        ) == "X-AppImage-Version="@) && !(l.len() >= "X-AppImage-Arch="@.len() && l.take(
            "X-AppImage-Arch="@.len() as int,
        ) == "X-AppImage-Arch="@);
    assert(keep =~= (|l: Seq<char>| !is_metadata_line(l)));
    assert(kept_lines(content) == spec_lines(content).filter(keep));
}

fn is_metadata_line_exec(line: &str) -> (res: bool)
    ensures
        res == is_metadata_line(line@),
{
    let cs = chars_of(line);
    let a = chars_of("X-AppImage-Name=");
    let b = chars_of("X-AppImage-Version=");
    let c = chars_of("X-AppImage-Arch=");
    chars_start_with(cs.as_slice(), a.as_slice()) || chars_start_with(cs.as_slice(), b.as_slice())
        || chars_start_with(cs.as_slice(), c.as_slice())
}

impl DesktopEntry {
    /// The text of the desktop file `content` with X-AppImage-* entries
    /// added: existing `X-AppImage-Name=`, `X-AppImage-Version=` and
    /// `X-AppImage-Arch=` lines are removed and fresh ones appended.
    pub fn add_appimage_metadata(content: &str, app_name: &str, version: &str, arch: &str) -> (res: String)
        ensures
            res@ == spec_add_appimage_metadata(content@, app_name@, version@, arch@),
    {
        let lines = split_lines(content);
        let n = lines.len();
        let ghost ls = texts(lines@);
        let mut kept: Vec<String> = Vec::new();
        for i in 0..n
            invariant
                n == lines@.len(),
                ls == texts(lines@),
                ls == spec_lines(content@),
                texts(kept@) == ls.take(i as int).filter(|l: Seq<char>| !is_metadata_line(l)),
        {
            reveal_with_fuel(Seq::filter, 1);
            assert(ls.take(i + 1).drop_last() =~= ls.take(i as int));
            assert(ls[i as int] == lines@[i as int]@);
            if !is_metadata_line_exec(lines[i].as_str()) {
                let ghost before = texts(kept@);
                kept.push(lines[i].clone());
                assert(texts(kept@) =~= before.push(ls[i as int]));
            }
        }
        assert(ls.take(n as int) =~= ls);
        let mut out = join(kept.as_slice(), "\n");
        let out_chars = chars_of(out.as_str());
        if !(out_chars.len() > 0 && out_chars[out_chars.len() - 1] == '\n') {
            out.push('\n');
        }
        out.append("X-AppImage-Name=");
        out.append(app_name);
        out.append("\n");
        out.append("X-AppImage-Version=");
        out.append(version);
        out.append("\n");
        out.append("X-AppImage-Arch=");
        out.append(arch);
        out.append("\n");
        out
    }

    /// Get the main binary name from the Exec key: the first word of the
    /// command, without surrounding double quotes and without its directory.
    pub fn main_binary(&self) -> (res: Option<String>)
        ensures
            match res {
                Some(b) => spec_main_binary(self.exec_cmd@) == Some(b@),
                None => spec_main_binary(self.exec_cmd@) is None,
            },
    {
        let words = split_whitespace(self.exec_cmd.as_str());
        if words.len() == 0 {
            return None;
        }
        let word = chars_of(words[0].as_str());
        assert(texts(words@)[0] == words@[0]@);
        let (a, b) = trim_char_bounds(word.as_slice(), '"');
        let name = &word.as_slice()[a..b];
        let k = after_last_index(name, '/');
        Some(string_of(&name[k..name.len()]))
    }

    /// Verify .DirIcon exists in the AppDir, given whether it does.
    pub fn check_dir_icon(dir_icon_exists: bool) -> (res: Result<(), Error>)
        ensures
            dir_icon_exists ==> res is Ok,
            !dir_icon_exists ==> res matches Err(Error::NoDirIcon),
    {
        if dir_icon_exists {
            Ok(())
        } else {
            Err(Error::NoDirIcon)
        }
    }

    /// Verify AppRun exists in the AppDir, given whether it does.
    pub fn check_apprun(apprun_exists: bool) -> (res: Result<(), Error>)
        ensures
            apprun_exists ==> res is Ok,
            !apprun_exists ==> res matches Err(Error::NoAppRun),
    {
        if apprun_exists {
            Ok(())
        } else {
            Err(Error::NoAppRun)
        }
    }
}

/// Check that an AppDir is complete before anything is written, given
/// whether its `AppRun` and its `.DirIcon` exist: `AppRun` is checked first.
pub fn validate_appdir(apprun_exists: bool, dir_icon_exists: bool) -> (res: Result<(), Error>)
    ensures
        res is Ok <==> apprun_exists && dir_icon_exists,
        !apprun_exists ==> res matches Err(Error::NoAppRun),
        apprun_exists && !dir_icon_exists ==> res matches Err(Error::NoDirIcon),
{
    DesktopEntry::check_apprun(apprun_exists)?;
    DesktopEntry::check_dir_icon(dir_icon_exists)
}

/// The application name used for the output: `override_name` (the value of
/// `APPNAME`) when it is set and not empty, else the desktop entry's name.
pub fn choose_app_name(override_name: Option<&str>, desktop_name: &str) -> (res: String)
    ensures
        res@ == match override_name {
            Some(a) => if a@.len() > 0 {
                a@
            } else {
                desktop_name@
            },
            None => desktop_name@,
        },
{
    match override_name {
        Some(a) => {
            if a.unicode_len() > 0 {
                a.to_owned()
            } else {
                desktop_name.to_owned()
            }
        },
        None => desktop_name.to_owned(),
    }
}

/// The main binary named by the command `exec`: its first word, without
/// double quotes at either end, and without anything up to its last `/`.
pub open spec fn spec_main_binary(exec: Seq<char>) -> Option<Seq<char>> {
    let words = spec_words(exec);
    if words.len() == 0 {
        None
    } else {
        Some(after_last(trim_char(words[0], '"'), '/'))
    }
}

proof fn lemma_after_last_free_of(s: Seq<char>, c: char)
    ensures
        forall|k: int| 0 <= k < after_last(s, c).len() ==> #[trigger] after_last(s, c)[k] != c,
    decreases s.len(),
{
    if s.len() > 0 && s.last() != c {
        lemma_after_last_free_of(s.drop_last(), c);
        let t = after_last(s.drop_last(), c);
        assert(after_last(s, c) == t.push(s.last()));
        assert forall|k: int| 0 <= k < t.push(s.last()).len() implies #[trigger] t.push(s.last())[k] != c by {
            if k < t.len() {
                assert(t.push(s.last())[k] == t[k]);
            }
        }
    }
}

/// The main binary is a bare file name: it holds no `/`, so any directory
/// in front of the command has been dropped.
pub proof fn lemma_main_binary_has_no_directory(exec: Seq<char>)
    ensures
        spec_main_binary(exec) matches Some(b) ==> forall|k: int| 0 <= k < b.len() ==> #[trigger] b[k] != '/',
{
    let words = spec_words(exec);
    if words.len() > 0 {
        let b = after_last(trim_char(words[0], '"'), '/');
        lemma_after_last_free_of(trim_char(words[0], '"'), '/');
        assert(spec_main_binary(exec) == Some(b));
        assert forall|k: int| 0 <= k < b.len() implies #[trigger] b[k] != '/' by {}
    }
}

// ---------------------------------------------------------------------------
// The output file name
// ---------------------------------------------------------------------------

/// `<AppName>-<Version>-anylinux-<Arch>.AppImage`, with the name and the
/// version sanitized; without `-<Version>` when there is none or it is empty.
pub open spec fn spec_output_name(app_name: Seq<char>, version: Option<Seq<char>>, arch: Seq<char>) -> Seq<char> {
    match version {
        Some(v) if v.len() > 0 => spec_sanitize_filename(app_name) + "-"@ + spec_sanitize_filename(v)
            + "-anylinux-"@ + arch + ".AppImage"@,
        _ => spec_sanitize_filename(app_name) + "-anylinux-"@ + arch + ".AppImage"@,
    }
}

/// Compute the output filename.
pub fn compute_output_name(app_name: &str, version: Option<&str>, arch: &str) -> (res: String)
    ensures
        res@ == spec_output_name(
            app_name@,
            match version {
                Some(v) => Some(v@),
                None => None,
            },
            arch@,
        ),
{
    let mut out = sanitize_filename(app_name);
    match version {
        Some(v) if !v.is_empty() => {
            let sv = sanitize_filename(v);
            out.append("-");
            out.append(sv.as_str());
        },
        _ => {},
    }
    out.append("-anylinux-");
    out.append(arch);
    out.append(".AppImage");
    out
}

} // verus!
