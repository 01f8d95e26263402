use vstd::prelude::*;
use vstd::utf8::encode_utf8;

use crate::elf::{
    locate_section, patch_section_string, section_in_data, section_table_corrupt,
    spec_patch_position, spec_patch_section, spec_write_section, write_error, write_section,
    write_succeeds, SectionLookup,
};
use crate::error::Error;
use crate::dwarfs::{expand_arch, spec_expand_arch};
use crate::text::{join, join_path, path_join, seq_join, texts};

verus! {

// ---------------------------------------------------------------------------
// Keeping the mount point
// ---------------------------------------------------------------------------

/// Existing marker values that the runtime may carry, in the order they are tried.
pub open spec fn mount_patch_patterns() -> Seq<Seq<char>> {
    seq!["URUNTIME_MOUNT=3"@, "URUNTIME_MOUNT=2"@, "URUNTIME_MOUNT=1"@, "URUNTIME_MOUNT=0"@]
}

/// The marker value that keeps the mount point.
pub open spec fn keep_mount_marker() -> Seq<char> {
    "URUNTIME_MOUNT=0"@
}

/// The message reported when no marker can be found.
pub open spec fn keep_mount_error_message() -> Seq<char> {
    "could not patch URUNTIME_MOUNT: marker not found in .upd_info or .envs\n  hint: this runtime build may not support URUNTIME_PRELOAD; try a newer uruntime release"@
}

fn mount_patch_pattern(i: usize) -> (p: &'static str)
    requires
        i < 4,
    ensures
        p@ == mount_patch_patterns()[i as int],
{
    if i == 0 {
        "URUNTIME_MOUNT=3"
    } else if i == 1 {
        "URUNTIME_MOUNT=2"
    } else if i == 2 {
        "URUNTIME_MOUNT=1"
    } else {
        "URUNTIME_MOUNT=0"
    }
}

/// The index of the first marker value, from `i` on, that occurs in the
/// section `sec` of `d`.
pub open spec fn marker_in_section(d: Seq<u8>, sec: Seq<char>, i: int) -> Option<int>
    decreases 4 - i,
{
    if i < 0 || i >= 4 {
        None
    } else if spec_patch_position(d, sec, mount_patch_patterns()[i]) is Some {
        Some(i)
    } else {
        marker_in_section(d, sec, i + 1)
    }
}

/// The first marker that can be rewritten: the section (`.upd_info` before
/// `.envs`) and the marker value found in it. The search stops at the first
/// section whose table entry is corrupt.
pub open spec fn keep_mount_target(d: Seq<u8>) -> Option<(Seq<char>, Seq<char>)> {
    if section_table_corrupt(d, ".upd_info"@) {
        None
    } else if section_in_data(d, ".upd_info"@) && marker_in_section(d, ".upd_info"@, 0) is Some {
        Some((".upd_info"@, mount_patch_patterns()[marker_in_section(d, ".upd_info"@, 0)->0]))
    } else if section_table_corrupt(d, ".envs"@) {
        None
    } else if section_in_data(d, ".envs"@) && marker_in_section(d, ".envs"@, 0) is Some {
        Some((".envs"@, mount_patch_patterns()[marker_in_section(d, ".envs"@, 0)->0]))
    } else {
        None
    }
}

/// The search for a marker in `d` reaches a section whose table entry is
/// corrupt before it finds a marker.
pub open spec fn keep_mount_malformed(d: Seq<u8>) -> bool {
    ||| section_table_corrupt(d, ".upd_info"@)
    ||| (!(section_in_data(d, ".upd_info"@) && marker_in_section(d, ".upd_info"@, 0) is Some)
        && section_table_corrupt(d, ".envs"@))
}

/// The data after the first marker has been rewritten to keep the mount point.
pub open spec fn spec_patch_keep_mount(d: Seq<u8>) -> Seq<u8> {
    match keep_mount_target(d) {
        Some((sec, pat)) => spec_patch_section(d, sec, pat, keep_mount_marker()),
        None => d,
    }
}

/// `e` is the error that rewriting the marker of `d` reports.
pub open spec fn keep_mount_error(e: Error, d: Seq<u8>) -> bool {
    if keep_mount_malformed(d) {
        e matches Error::MalformedElf
    } else {
        e matches Error::Config(m) && m@ == keep_mount_error_message()
    }
}

/// Rewrite the first marker value found in `section`, which lies inside `data`.
fn patch_marker_in(data: &mut [u8], section: &str) -> (patched: bool)
    requires
        section_in_data(old(data)@, section@),
    ensures
        patched == (marker_in_section(old(data)@, section@, 0) is Some),
        final(data)@ == match marker_in_section(old(data)@, section@, 0) {
            Some(k) => spec_patch_section(
                old(data)@,
                section@,
                mount_patch_patterns()[k],
                keep_mount_marker(),
            ),
            None => old(data)@,
        },
{
    reveal(spec_patch_section);
    let ghost d0 = data@;
    for i in 0..4
        invariant
            data@ == d0,
            d0 == old(data)@,
            section_in_data(d0, section@),
            marker_in_section(d0, section@, 0) == marker_in_section(d0, section@, i as int),
    {
        reveal(spec_patch_section);
        let pattern = mount_patch_pattern(i);
        let r = patch_section_string(data, section, pattern, "URUNTIME_MOUNT=0");
        assert(marker_in_section(d0, section@, i as int) == if spec_patch_position(d0, section@, pattern@) is Some {
            Some(i as int)
        } else {
            marker_in_section(d0, section@, i + 1)
        });
        match r {
            Ok(true) => {
                return true;
            },
            _ => {},
        }
    }
    false
}

/// Look for a marker in `section` and rewrite it: `Ok(true)` when one was
/// rewritten, `Ok(false)` when the section is missing or holds none, and
/// `MalformedElf` when the section table is corrupt for it.
fn patch_marker_in_section(data: &mut [u8], section: &str) -> (res: Result<bool, Error>)
    ensures
        section_table_corrupt(old(data)@, section@) ==> ((res matches Err(e) && e matches Error::MalformedElf)
            && final(data)@ == old(data)@),
        !section_table_corrupt(old(data)@, section@) ==> (res matches Ok(patched) && patched == (
        section_in_data(old(data)@, section@) && marker_in_section(old(data)@, section@, 0) is Some)
            && final(data)@ == if patched {
            spec_patch_section(
                old(data)@,
                section@,
                mount_patch_patterns()[marker_in_section(old(data)@, section@, 0)->0],
                keep_mount_marker(),
            )
        } else {
            old(data)@
        }),
{
    match locate_section(data, section) {
        SectionLookup::Found { offset, size, .. } => {
            if offset > data.len() || size > data.len() - offset {
                return Err(Error::MalformedElf);
            }
            Ok(patch_marker_in(data, section))
        },
        SectionLookup::OutOfRange => Err(Error::MalformedElf),
        _ => Ok(false),
    }
}

/// Rewrite any `URUNTIME_MOUNT=<n>` marker found in the runtime's config
/// sections to `URUNTIME_MOUNT=0` (keep-mount). Returns an error if no
/// marker is found in any known section, and `MalformedElf` if the section
/// table is corrupt for a section that the search reaches.
pub fn patch_keep_mount(data: &mut [u8]) -> (res: Result<(), Error>)
    ensures
        final(data)@ == spec_patch_keep_mount(old(data)@),
        res is Ok <==> keep_mount_target(old(data)@) is Some,
        res matches Err(e) ==> keep_mount_error(e, old(data)@),
{
    if patch_marker_in_section(data, ".upd_info")? {
        return Ok(());
    }
    if patch_marker_in_section(data, ".envs")? {
        return Ok(());
    }
    Err(
        Error::Config(
            "could not patch URUNTIME_MOUNT: marker not found in .upd_info or .envs\n  hint: this runtime build may not support URUNTIME_PRELOAD; try a newer uruntime release".to_owned(),
        ),
    )
}

// ---------------------------------------------------------------------------
// Configuring the runtime
// ---------------------------------------------------------------------------

/// The value written into `.envs`: the variables, one per line.
pub open spec fn env_section_value(env_vars: Seq<Seq<char>>) -> Seq<char> {
    seq_join(env_vars, "\n"@)
}

/// Writing the update information succeeds (or there is none to write).
pub open spec fn update_info_ok(d: Seq<u8>, update_info: Option<Seq<char>>) -> bool {
    match update_info {
        Some(u) => write_succeeds(d, ".upd_info"@, encode_utf8(u)),
        None => true,
    }
}

/// The data after the update information has been written into `.upd_info`.
pub open spec fn after_update_info(d: Seq<u8>, update_info: Option<Seq<char>>) -> Seq<u8> {
    match update_info {
        Some(u) => spec_write_section(d, ".upd_info"@, encode_utf8(u)),
        None => d,
    }
}

/// Writing the environment variables succeeds (or there are none to write).
pub open spec fn env_vars_ok(d: Seq<u8>, env_vars: Seq<Seq<char>>) -> bool {
    env_vars.len() == 0 || write_succeeds(d, ".envs"@, encode_utf8(env_section_value(env_vars)))
}

/// The data after the environment variables have been written into `.envs`.
pub open spec fn after_env_vars(d: Seq<u8>, env_vars: Seq<Seq<char>>) -> Seq<u8> {
    if env_vars.len() == 0 {
        d
    } else {
        spec_write_section(d, ".envs"@, encode_utf8(env_section_value(env_vars)))
    }
}

/// Configuring the runtime `d` succeeds.
pub open spec fn configure_succeeds(
    d: Seq<u8>,
    update_info: Option<Seq<char>>,
    env_vars: Seq<Seq<char>>,
    keep_mount: bool,
) -> bool {
    let d1 = after_update_info(d, update_info);
    let d2 = after_env_vars(d1, env_vars);
    &&& update_info_ok(d, update_info)
    &&& env_vars_ok(d1, env_vars)
    &&& (keep_mount ==> keep_mount_target(d2) is Some)
}

/// The runtime after configuring: each step that is reached and succeeds
/// changes the data, a failing step leaves it as it is and ends the run.
pub open spec fn spec_configure_runtime(
    d: Seq<u8>,
    update_info: Option<Seq<char>>,
    env_vars: Seq<Seq<char>>,
    keep_mount: bool,
) -> Seq<u8> {
    let d1 = after_update_info(d, update_info);
    let d2 = after_env_vars(d1, env_vars);
    if !update_info_ok(d, update_info) {
        d
    } else if !env_vars_ok(d1, env_vars) {
        d1
    } else if keep_mount {
        spec_patch_keep_mount(d2)
    } else {
        d2
    }
}

/// `e` is the error that configuring the runtime `d` reports.
pub open spec fn configure_error(
    e: Error,
    d: Seq<u8>,
    update_info: Option<Seq<char>>,
    env_vars: Seq<Seq<char>>,
) -> bool {
    let d1 = after_update_info(d, update_info);
    let d2 = after_env_vars(d1, env_vars);
    if !update_info_ok(d, update_info) {
        write_error(e, d, ".upd_info"@, encode_utf8(update_info->0))
    } else if !env_vars_ok(d1, env_vars) {
        write_error(e, d1, ".envs"@, encode_utf8(env_section_value(env_vars)))
    } else {
        keep_mount_error(e, d2)
    }
}

/// Configure the runtime: write ELF sections for update info and env vars,
/// and optionally patch it to keep its mount point.
pub fn configure_runtime(
    data: &mut [u8],
    update_info: Option<&str>,
    env_vars: &[String],
    keep_mount: bool,
) -> (res: Result<(), Error>)
    ensures
        ({
            let upd = match update_info {
                Some(u) => Some(u@),
                None => None,
            };
            &&& final(data)@ == spec_configure_runtime(old(data)@, upd, texts(env_vars@), keep_mount)
            &&& res is Ok <==> configure_succeeds(old(data)@, upd, texts(env_vars@), keep_mount)
            &&& res matches Err(e) ==> configure_error(e, old(data)@, upd, texts(env_vars@))
        }),
{
    if let Some(upinfo) = update_info {
        write_section(data, ".upd_info", upinfo.as_bytes())?;
    }
    if env_vars.len() > 0 {
        let env_data = join(env_vars, "\n");
        write_section(data, ".envs", env_data.as_str().as_bytes())?;
    }
    if keep_mount {
        patch_keep_mount(data)?;
    }
    Ok(())
}


// ---------------------------------------------------------------------------
// Where the runtime comes from
// ---------------------------------------------------------------------------

/// The default location of the runtime, with `{arch}` standing for the architecture.
pub open spec fn default_runtime_url_template() -> Seq<char> {
    "https://github.com/VHSgunzo/uruntime/releases/latest/download/uruntime-appimage-dwarfs-lite-{arch}"@
}

/// The location to download the runtime from: the given URL (or the
/// default one) with each `{arch}` replaced by the architecture.
pub fn runtime_url(url: Option<&str>, arch: &str) -> (res: String)
    ensures
        res@ == spec_expand_arch(
            match url {
                Some(t) => Some(t@),
                None => None,
            },
            default_runtime_url_template(),
            arch@,
        ),
{
    expand_arch(
        url,
        "https://github.com/VHSgunzo/uruntime/releases/latest/download/uruntime-appimage-dwarfs-lite-{arch}",
        arch,
    )
}

/// Where the downloaded runtime is cached (`uruntime-<arch>` in `tmpdir`)
/// and where the working copy that gets configured is put
/// (`uruntime-<arch>.work` in `tmpdir`).
pub fn runtime_cache_paths(tmpdir: &str, arch: &str) -> (res: (String, String))
    ensures
        res.0@ == path_join(tmpdir@, "uruntime-"@ + arch@),
        res.1@ == path_join(tmpdir@, "uruntime-"@ + arch@ + ".work"@),
{
    let mut cached_name = "uruntime-".to_owned();
    cached_name.append(arch);
    let cached = join_path(tmpdir, cached_name.as_str());
    let mut work_name = cached_name.clone();
    work_name.append(".work");
    let work = join_path(tmpdir, work_name.as_str());
    (cached, work)
}

/// Where the runtime to configure comes from.
#[derive(Debug)]
pub enum RuntimeSource {
    /// The runtime given by the user, used as it is.
    Given(String),
    /// The runtime cached at `cached`: copy it to `work` and use the copy.
    Cached { cached: String, work: String },
    /// Download the runtime from `url` to `cached`, check it, then copy it
    /// to `work` and use the copy.
    Download { url: String, cached: String, work: String },
}

/// Choose where the runtime comes from: the path the user gave (`runtime`)
/// when that file exists (`given_exists`); otherwise the runtime cached in
/// `tmpdir` for `arch` when it is there and is an ELF binary
/// (`cache_is_elf`); otherwise a download from `url` (or the
/// default location) into that cache.
pub fn choose_runtime_source(
    runtime: Option<&str>,
    given_exists: bool,
    cache_is_elf: bool,
    tmpdir: &str,
    arch: &str,
    url: Option<&str>,
) -> (res: RuntimeSource)
    ensures
        ({
            let cached = path_join(tmpdir@, "uruntime-"@ + arch@);
            let work = path_join(tmpdir@, "uruntime-"@ + arch@ + ".work"@);
            if runtime is Some && given_exists {
                res matches RuntimeSource::Given(p) && p@ == runtime->0@
            } else if cache_is_elf {
                res matches RuntimeSource::Cached { cached: c, work: w } && c@ == cached && w@ == work
            } else {
                res matches RuntimeSource::Download { url: u, cached: c, work: w } && c@ == cached
                    && w@ == work && u@ == spec_expand_arch(
                    match url {
                        Some(t) => Some(t@),
                        None => None,
                    },
                    default_runtime_url_template(),
                    arch@,
                )
            }
        }),
{
    if let Some(p) = runtime {
        if given_exists {
            return RuntimeSource::Given(p.to_owned());
        }
    }
    let (cached, work) = runtime_cache_paths(tmpdir, arch);
    if cache_is_elf {
        RuntimeSource::Cached { cached, work }
    } else {
        RuntimeSource::Download { url: runtime_url(url, arch), cached, work }
    }
}

} // verus!
