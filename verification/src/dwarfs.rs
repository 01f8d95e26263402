use vstd::prelude::*;

use crate::error::{Error, IoKind};
use crate::text::{
    chars_of, chars_start_with, join_path, path_join, replace_all, replace_str, spec_split,
    spec_words, split_char, split_whitespace, starts_with, texts,
};

verus! {

// ---------------------------------------------------------------------------
// Download locations
// ---------------------------------------------------------------------------

/// The default location of mkdwarfs, with `{arch}` standing for the architecture.
pub open spec fn default_dwarfs_url_template() -> Seq<char> {
    "https://github.com/mhx/dwarfs/releases/download/v0.15.1/dwarfs-universal-0.15.1-Linux-{arch}"@
}

/// `template` (or `default` when there is none) with each `{arch}` replaced
/// by `arch`.
pub open spec fn spec_expand_arch(template: Option<Seq<char>>, default: Seq<char>, arch: Seq<char>) -> Seq<char> {
    replace_all(
        match template {
            Some(t) => t,
            None => default,
        },
        "{arch}"@,
        arch,
    )
}

/// `template` (or `default`) with each `{arch}` replaced by `arch`.
pub fn expand_arch(template: Option<&str>, default: &str, arch: &str) -> (res: String)
    ensures
        res@ == spec_expand_arch(
            match template {
                Some(t) => Some(t@),
                None => None,
            },
            default@,
            arch@,
        ),
{
    let t = match template {
        Some(t) => t,
        None => default,
    };
    proof {
        reveal_strlit("{arch}");
    }
    replace_str(t, "{arch}", arch)
}

/// The location to download mkdwarfs from.
pub fn mkdwarfs_url(dwarfs_url: Option<&str>, arch: &str) -> (res: String)
    ensures
        res@ == spec_expand_arch(
            match dwarfs_url {
                Some(t) => Some(t@),
                None => None,
            },
            default_dwarfs_url_template(),
            arch@,
        ),
{
    expand_arch(
        dwarfs_url,
        "https://github.com/mhx/dwarfs/releases/download/v0.15.1/dwarfs-universal-0.15.1-Linux-{arch}",
        arch,
    )
}

/// The paths at which `which` looks for `name`: `name` joined to each entry
/// of `path_var` (the value of `PATH`), in order.
pub open spec fn spec_path_candidates(path_var: Seq<char>, name: Seq<char>) -> Seq<Seq<char>> {
    spec_split(path_var, ':').map_values(|dir: Seq<char>| path_join(dir, name))
}

/// The paths at which `which` looks for `name`, given the value of `PATH`.
pub fn path_candidates(path_var: &str, name: &str) -> (res: Vec<String>)
    ensures
        texts(res@) == spec_path_candidates(path_var@, name@),
{
    let dirs = split_char(path_var, ':');
    let n = dirs.len();
    let ghost ds = texts(dirs@);
    let mut res: Vec<String> = Vec::new();
    for i in 0..n
        invariant
            n == dirs@.len(),
            ds == texts(dirs@),
            ds == spec_split(path_var@, ':'),
            texts(res@) == ds.take(i as int).map_values(|dir: Seq<char>| path_join(dir, name@)),
    {
        assert(ds[i as int] == dirs@[i as int]@);
        let p = join_path(dirs[i].as_str(), name);
        let ghost before = texts(res@);
        res.push(p);
        assert(texts(res@) =~= before.push(p@));
        assert(ds.take(i + 1).map_values(|dir: Seq<char>| path_join(dir, name@)) =~= ds.take(
            i as int,
        ).map_values(|dir: Seq<char>| path_join(dir, name@)).push(path_join(ds[i as int], name@)));
    }
    assert(ds.take(n as int) =~= ds);
    res
}

/// The index of the first candidate, from `i` on, that exists: `exists[k]`
/// tells whether candidate `k` does (a missing flag counts as not existing).
pub open spec fn first_existing_from(exists: Seq<bool>, n: int, i: int) -> Option<int>
    decreases n - i,
{
    if i < 0 || i >= n {
        None
    } else if i < exists.len() && exists[i] {
        Some(i)
    } else {
        first_existing_from(exists, n, i + 1)
    }
}

/// The first of `candidates` that exists, given whether each does.
pub fn first_existing(candidates: Vec<String>, exists: &[bool]) -> (res: Option<String>)
    ensures
        match first_existing_from(exists@, candidates@.len() as int, 0) {
            Some(k) => res matches Some(c) && c@ == candidates@[k]@,
            None => res is None,
        },
{
    let n = candidates.len();
    let mut i: usize = 0;
    while i < n
        invariant
            n == candidates@.len(),
            i <= n,
            first_existing_from(exists@, n as int, 0) == first_existing_from(exists@, n as int, i as int),
        decreases n - i,
    {
        if i < exists.len() && exists[i] {
            return Some(candidates[i].clone());
        }
        i = i + 1;
    }
    None
}

/// Where mkdwarfs comes from.
#[derive(Debug)]
pub enum MkdwarfsSource {
    /// The mkdwarfs given by the user.
    Given(String),
    /// The mkdwarfs found on `PATH`.
    OnPath(String),
    /// The mkdwarfs cached in the temporary directory.
    Cached(String),
    /// Download mkdwarfs from `url` to `cached`, check it, and use it.
    Download { url: String, cached: String },
}

/// The message reported when the mkdwarfs the user gave is missing.
pub open spec fn mkdwarfs_missing_message(path: Seq<char>) -> Seq<char> {
    "mkdwarfs not found at "@ + path
}

/// Choose where mkdwarfs comes from: the path the user gave (`mkdwarfs`),
/// which must exist (`given_exists`); else the one found on `PATH`
/// (`path_hit`); else the one cached in `tmpdir` (`cached_exists`); else a
/// download from `dwarfs_url` (or the default location) into that cache.
pub fn choose_mkdwarfs_source(
    mkdwarfs: Option<&str>,
    given_exists: bool,
    path_hit: Option<String>,
    cached_exists: bool,
    tmpdir: &str,
    arch: &str,
    dwarfs_url: Option<&str>,
) -> (res: Result<MkdwarfsSource, Error>)
    ensures
        ({
            let cached = path_join(tmpdir@, "mkdwarfs"@);
            match mkdwarfs {
                Some(p) => if given_exists {
                    res matches Ok(MkdwarfsSource::Given(g)) && g@ == p@
                } else {
                    res matches Err(Error::Io { kind: IoKind::NotFound, message: m }) && m@
                        == mkdwarfs_missing_message(p@)
                },
                None => match path_hit {
                    Some(h) => res matches Ok(MkdwarfsSource::OnPath(o)) && o@ == h@,
                    None => if cached_exists {
                        res matches Ok(MkdwarfsSource::Cached(c)) && c@ == cached
                    } else {
                        res matches Ok(MkdwarfsSource::Download { url: u, cached: c }) && c@ == cached
                            && u@ == spec_expand_arch(
                            match dwarfs_url {
                                Some(t) => Some(t@),
                                None => None,
                            },
                            default_dwarfs_url_template(),
                            arch@,
                        )
                    },
                },
            }
        }),
{
    if let Some(p) = mkdwarfs {
        if given_exists {
            return Ok(MkdwarfsSource::Given(p.to_owned()));
        }
        let mut message = "mkdwarfs not found at ".to_owned();
        message.append(p);
        return Err(Error::Io { kind: IoKind::NotFound, message });
    }
    if let Some(h) = path_hit {
        return Ok(MkdwarfsSource::OnPath(h));
    }
    let cached = join_path(tmpdir, "mkdwarfs");
    if cached_exists {
        Ok(MkdwarfsSource::Cached(cached))
    } else {
        Ok(MkdwarfsSource::Download { url: mkdwarfs_url(dwarfs_url, arch), cached })
    }
}

/// `name` is the name of a FUSE mount point that a profiling run leaves behind.
pub open spec fn is_fuse_mount_name(name: Seq<char>) -> bool {
    starts_with(name, ".mount_"@)
}

/// Whether `name` is the name of a FUSE mount point left behind.
pub fn is_fuse_mount(name: &str) -> (res: bool)
    ensures
        res == is_fuse_mount_name(name@),
{
    let cs = chars_of(name);
    let p = chars_of(".mount_");
    chars_start_with(cs.as_slice(), p.as_slice())
}

// ---------------------------------------------------------------------------
// mkdwarfs command lines
// ---------------------------------------------------------------------------

/// The arguments that every mkdwarfs run starts with.
pub open spec fn common_args(runtime: Seq<char>, appdir: Seq<char>) -> Seq<Seq<char>> {
    seq![
        "--force"@,
        "--order=path"@,
        "--set-owner"@,
        "0"@,
        "--set-group"@,
        "0"@,
        "--no-history"@,
        "--no-create-timestamp"@,
        "--header"@,
        runtime,
        "--input"@,
        appdir,
    ]
}

/// The arguments that select the hotness profile, when one is used.
pub open spec fn profile_args(profile: Option<Seq<char>>) -> Seq<Seq<char>> {
    match profile {
        Some(p) => seq!["--categorize=hotness"@, "--hotness-list="@ + p],
        None => Seq::empty(),
    }
}

/// The arguments for the compression options: the first word goes to `-C`,
/// the others are passed as they are.
pub open spec fn compression_args(compression: Seq<char>) -> Seq<Seq<char>> {
    let words = spec_words(compression);
    if words.len() == 0 {
        Seq::empty()
    } else {
        seq!["-C"@, words[0]] + words.skip(1)
    }
}

/// The arguments of the mkdwarfs run that builds the AppImage.
pub open spec fn spec_build_appimage_args(
    appdir: Seq<char>,
    runtime: Seq<char>,
    output: Seq<char>,
    compression: Seq<char>,
    profile: Option<Seq<char>>,
) -> Seq<Seq<char>> {
    common_args(runtime, appdir) + profile_args(profile) + compression_args(compression) + seq![
        "--output"@,
        output,
    ]
}

fn push_common_args(args: &mut Vec<String>, runtime: &str, appdir: &str)
    ensures
        texts(final(args)@) == texts(old(args)@) + common_args(runtime@, appdir@),
{
    let ghost before = texts(args@);
    args.push("--force".to_owned());
    args.push("--order=path".to_owned());
    args.push("--set-owner".to_owned());
    args.push("0".to_owned());
    args.push("--set-group".to_owned());
    args.push("0".to_owned());
    args.push("--no-history".to_owned());
    args.push("--no-create-timestamp".to_owned());
    args.push("--header".to_owned());
    args.push(runtime.to_owned());
    args.push("--input".to_owned());
    args.push(appdir.to_owned());
    assert(texts(args@) =~= before + common_args(runtime@, appdir@));
}

/// The arguments of the mkdwarfs run that builds the DWARFS AppImage. The
/// runtime is embedded via `--header`; `profile` is the hotness profile to
/// use, when there is one.
pub fn build_appimage_args(
    appdir: &str,
    runtime: &str,
    output: &str,
    compression: &str,
    profile: Option<&str>,
) -> (res: Vec<String>)
    ensures
        texts(res@) == spec_build_appimage_args(
            appdir@,
            runtime@,
            output@,
            compression@,
            match profile {
                Some(p) => Some(p@),
                None => None,
            },
        ),
{
    let mut args: Vec<String> = Vec::new();
    push_common_args(&mut args, runtime, appdir);
    let ghost after_common = texts(args@);
    if let Some(p) = profile {
        args.push("--categorize=hotness".to_owned());
        let mut h = "--hotness-list=".to_owned();
        h.append(p);
        args.push(h);
    }
    let ghost after_profile = texts(args@);
    assert(after_profile =~= after_common + profile_args(
        match profile {
            Some(p) => Some(p@),
            None => None,
        },
    ));
    let words = split_whitespace(compression);
    let n = words.len();
    let ghost ws = texts(words@);
    if n > 0 {
        args.push("-C".to_owned());
        args.push(words[0].clone());
        assert(ws[0] == words@[0]@);
        for i in 1..n
            invariant
                n == words@.len(),
                ws == texts(words@),
                n > 0,
                texts(args@) == after_profile + seq!["-C"@, ws[0]] + ws.subrange(1, i as int),
        {
            assert(ws[i as int] == words@[i as int]@);
            let ghost before = texts(args@);
            args.push(words[i].clone());
            assert(texts(args@) =~= before.push(ws[i as int]));
            assert(ws.subrange(1, i + 1) =~= ws.subrange(1, i as int).push(ws[i as int]));
        }
        assert(ws.subrange(1, n as int) =~= ws.skip(1));
    } else {
        assert(texts(args@) =~= after_profile + Seq::<Seq<char>>::empty());
    }
    let ghost after_comp = texts(args@);
    args.push("--output".to_owned());
    args.push(output.to_owned());
    assert(texts(args@) =~= after_comp + seq!["--output"@, output@]);
    args
}

/// The arguments of the mkdwarfs run that builds the image for profiling.
pub open spec fn spec_profile_image_args(appdir: Seq<char>, runtime: Seq<char>, output: Seq<char>) -> Seq<Seq<char>> {
    common_args(runtime, appdir) + seq!["-C"@, "zstd:level=5"@, "-S19"@, "--output"@, output]
}

/// The arguments of the mkdwarfs run that builds a temporary AppImage for
/// DWARFS profiling with basic compression.
pub fn profile_image_args(appdir: &str, runtime: &str, output: &str) -> (res: Vec<String>)
    ensures
        texts(res@) == spec_profile_image_args(appdir@, runtime@, output@),
{
    let mut args: Vec<String> = Vec::new();
    push_common_args(&mut args, runtime, appdir);
    let ghost before = texts(args@);
    args.push("-C".to_owned());
    args.push("zstd:level=5".to_owned());
    args.push("-S19".to_owned());
    args.push("--output".to_owned());
    args.push(output.to_owned());
    assert(texts(args@) =~= before + seq!["-C"@, "zstd:level=5"@, "-S19"@, "--output"@, output@]);
    args
}

} // verus!
