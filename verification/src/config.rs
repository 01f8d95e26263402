use vstd::prelude::*;

use crate::error::Error;
use crate::text::{
    chars_of, find_char, find_char_index, lemma_find_char_from, join_path, path_join, spec_lines, spec_split,
    split_char, split_lines, str_eq, string_of, texts, trim_whitespace, trim_whitespace_bounds,
};

verus! {

// ---------------------------------------------------------------------------
// Values of environment variables
// ---------------------------------------------------------------------------

/// `value`, once trimmed, is one of the spellings of "yes" that the tool accepts.
pub open spec fn is_truthy(value: Seq<char>) -> bool {
    let t = trim_whitespace(value);
    ||| t == "1"@
    ||| t == "true"@
    ||| t == "TRUE"@
    ||| t == "True"@
    ||| t == "yes"@
    ||| t == "YES"@
    ||| t == "Yes"@
    ||| t == "on"@
    ||| t == "ON"@
    ||| t == "On"@
}

/// Whether an environment variable with this value (`None` when unset)
/// switches an option on.
pub fn env_truthy(value: Option<&str>) -> (res: bool)
    ensures
        res == match value {
            Some(v) => is_truthy(v@),
            None => false,
        },
{
    let v = match value {
        Some(v) => v,
        None => return false,
    };
    let cs = chars_of(v);
    let (a, b) = trim_whitespace_bounds(cs.as_slice());
    let t = string_of(&cs.as_slice()[a..b]);
    let t = t.as_str();
    str_eq(t, "1") || str_eq(t, "true") || str_eq(t, "TRUE") || str_eq(t, "True") || str_eq(t, "yes")
        || str_eq(t, "YES") || str_eq(t, "Yes") || str_eq(t, "on") || str_eq(t, "ON") || str_eq(
        t,
        "On",
    )
}

// ---------------------------------------------------------------------------
// Version
// ---------------------------------------------------------------------------

/// `version` without everything up to and including its first colon.
pub open spec fn spec_strip_epoch(version: Seq<char>) -> Seq<char> {
    match find_char(version, ':') {
        Some(i) => version.skip(i + 1),
        None => version,
    }
}

/// Strip the epoch prefix from a version string: remove everything up to
/// and including the first colon. `"1:2.0.1"` → `"2.0.1"`.
pub fn strip_epoch(version: &str) -> (res: String)
    ensures
        res@ == spec_strip_epoch(version@),
{
    let cs = chars_of(version);
    proof {
        lemma_find_char_from(cs@, ':', 0);
        assert(cs@.len() == cs.len());
    }
    match find_char_index(cs.as_slice(), ':') {
        Some(i) => string_of(&cs.as_slice()[i + 1..cs.len()]),
        None => string_of(cs.as_slice()),
    }
}

/// Stripping the epoch leaves a suffix of the version, and leaves a
/// version without a colon as it is. When the version holds a colon, what
/// is dropped ends with its first colon: the character just before the
/// result is a colon and no colon comes earlier.
pub proof fn lemma_strip_epoch_suffix(version: Seq<char>)
    ensures
        spec_strip_epoch(version).len() <= version.len(),
        spec_strip_epoch(version) == version.skip(version.len() - spec_strip_epoch(version).len()),
        (forall|k: int| 0 <= k < version.len() ==> version[k] != ':') ==> spec_strip_epoch(version)
            == version,
        (exists|k: int| 0 <= k < version.len() && version[k] == ':') ==> ({
            let cut = version.len() - spec_strip_epoch(version).len();
            &&& cut >= 1
            &&& version[cut - 1] == ':'
            &&& forall|j: int| 0 <= j < cut - 1 ==> version[j] != ':'
        }),
{
    lemma_find_char_from(version, ':', 0);
    assert(version.skip(0) =~= version);
}

/// The version: `VERSION` when set, else the trimmed text of `~/version`
/// when it could be read; with its epoch stripped.
pub open spec fn spec_resolve_version(version_env: Option<Seq<char>>, version_file: Option<Seq<char>>) -> Option<Seq<char>> {
    match version_env {
        Some(v) => Some(spec_strip_epoch(v)),
        None => match version_file {
            Some(f) => Some(spec_strip_epoch(trim_whitespace(f))),
            None => None,
        },
    }
}

/// Resolve the project version from the value of `VERSION` (`None` when
/// unset), falling back to the text of `~/version` (`None` when it is
/// missing or unreadable). Strips an optional `epoch:` prefix.
pub fn resolve_version(version_env: Option<&str>, version_file: Option<&str>) -> (res: Option<String>)
    ensures
        match res {
            Some(v) => spec_resolve_version(opt_view(version_env), opt_view(version_file)) == Some(v@),
            None => spec_resolve_version(opt_view(version_env), opt_view(version_file)) is None,
        },
{
    match version_env {
        Some(v) => Some(strip_epoch(v)),
        None => match version_file {
            Some(f) => {
                let cs = chars_of(f);
                let (a, b) = trim_whitespace_bounds(cs.as_slice());
                let t = string_of(&cs.as_slice()[a..b]);
                Some(strip_epoch(t.as_str()))
            },
            None => None,
        },
    }
}

/// The home directory: `HOME`, else `USERPROFILE`, else `~`.
pub fn dirs_home(home: Option<&str>, userprofile: Option<&str>) -> (res: String)
    ensures
        res@ == match home {
            Some(h) => h@,
            None => match userprofile {
                Some(u) => u@,
                None => "~"@,
            },
        },
{
    match home {
        Some(h) => h.to_owned(),
        None => match userprofile {
            Some(u) => u.to_owned(),
            None => "~".to_owned(),
        },
    }
}

/// The view of an optional string.
pub open spec fn opt_view(s: Option<&str>) -> Option<Seq<char>> {
    match s {
        Some(v) => Some(v@),
        None => None,
    }
}

/// The view of an optional owned string.
pub open spec fn opt_string_view(s: Option<String>) -> Option<Seq<char>> {
    match s {
        Some(v) => Some(v@),
        None => None,
    }
}

// ---------------------------------------------------------------------------
// Configuration
// ---------------------------------------------------------------------------

/// The settled configuration of a build. Paths are held as strings.
pub struct Config {
    pub appdir: String,
    pub output_dir: String,
    pub output_name: Option<String>,
    pub arch: String,
    pub runtime: Option<String>,
    pub runtime_url: Option<String>,
    pub dwarfs_comp: String,
    pub update_info: Option<String>,
    pub env_vars: Vec<String>,
    pub dwarfs_profile: Option<String>,
    pub optimize_launch: bool,
    pub version: Option<String>,
    pub mkdwarfs: Option<String>,
    pub dwarfs_url: Option<String>,
    pub tmpdir: String,
    pub keep_mount: bool,
    pub devel_release: bool,
    /// The application name set by `APPNAME`, which overrides the desktop
    /// entry's `Name`.
    pub app_name: Option<String>,
}

/// Inputs gathered from the CLI (or set explicitly by library callers).
/// `Default` produces `None`/`false` for every field, so callers can use
/// `..Default::default()` to fill in whatever they don't care about; the
/// final `Config` still applies every env-var fallback (see `Environment`)
/// and the defaults.
#[derive(Debug, Clone)]
pub struct CliArgs {
    pub appdir: Option<String>,
    pub output: Option<String>,
    pub output_name: Option<String>,
    pub arch: Option<String>,
    pub runtime: Option<String>,
    pub runtime_url: Option<String>,
    pub update_info: Option<String>,
    pub dwarfs_comp: Option<String>,
    pub optimize_launch: bool,
    pub dwarfs_profile: Option<String>,
    pub mkdwarfs: Option<String>,
    pub dwarfs_url: Option<String>,
    pub tmpdir: Option<String>,
}

impl Default for CliArgs {
    fn default() -> (res: CliArgs)
        ensures
            res.appdir is None,
            res.output is None,
            res.output_name is None,
            res.arch is None,
            res.runtime is None,
            res.runtime_url is None,
            res.update_info is None,
            res.dwarfs_comp is None,
            !res.optimize_launch,
            res.dwarfs_profile is None,
            res.mkdwarfs is None,
            res.dwarfs_url is None,
            res.tmpdir is None,
    {
        CliArgs {
            appdir: None,
            output: None,
            output_name: None,
            arch: None,
            runtime: None,
            runtime_url: None,
            update_info: None,
            dwarfs_comp: None,
            optimize_launch: false,
            dwarfs_profile: None,
            mkdwarfs: None,
            dwarfs_url: None,
            tmpdir: None,
        }
    }
}

/// What the environment holds for the configuration: each variable's value
/// (`None` when unset or not Unicode), the host architecture, and the text
/// of `~/version` (`None` when it is missing or unreadable).
///
/// Every option of `CliArgs` has a variable here that it falls back to:
/// `APPDIR`, `OUTPATH`, `OUTNAME`, `ARCH`, `RUNTIME`, `URUNTIME_LINK`,
/// `UPINFO`, `DWARFS_COMP`, `OPTIMIZE_LAUNCH`, `DWARFSPROF`, `DWARFS_CMD`,
/// `DWARFS_LINK` and `TMPDIR`. `APPNAME` overrides the application name.
pub struct Environment {
    pub host_arch: String,
    pub appdir: Option<String>,
    pub outpath: Option<String>,
    pub outname: Option<String>,
    pub arch: Option<String>,
    pub runtime: Option<String>,
    pub uruntime_link: Option<String>,
    pub upinfo: Option<String>,
    pub dwarfs_comp: Option<String>,
    pub github_repository: Option<String>,
    pub add_perma_env_vars: Option<String>,
    pub dwarfsprof: Option<String>,
    pub dwarfs_cmd: Option<String>,
    pub optimize_launch: Option<String>,
    pub uruntime_preload: Option<String>,
    pub devel_release: Option<String>,
    pub dwarfs_link: Option<String>,
    pub tmpdir: Option<String>,
    pub appname: Option<String>,
    pub version: Option<String>,
    pub version_file: Option<String>,
}

/// The update information derived from `GITHUB_REPOSITORY`: for an
/// `owner/repo` value, the gh-releases-zsync string for that repository and
/// `arch`; any other value is taken as it is.
pub open spec fn github_update_info(repo: Seq<char>, arch: Seq<char>) -> Seq<char> {
    let parts = spec_split(repo, '/');
    if parts.len() == 2 {
        "gh-releases-zsync|"@ + parts[0] + "|"@ + parts[1] + "|latest|*"@ + arch + ".AppImage.zsync"@
    } else {
        repo
    }
}

/// The update information derived from `GITHUB_REPOSITORY`.
pub fn github_update_info_exec(repo: &str, arch: &str) -> (res: String)
    ensures
        res@ == github_update_info(repo@, arch@),
{
    let parts = split_char(repo, '/');
    if parts.len() == 2 {
        assert(texts(parts@)[0] == parts@[0]@);
        assert(texts(parts@)[1] == parts@[1]@);
        let mut s = "gh-releases-zsync|".to_owned();
        s.append(parts[0].as_str());
        s.append("|");
        s.append(parts[1].as_str());
        s.append("|latest|*");
        s.append(arch);
        s.append(".AppImage.zsync");
        s
    } else {
        repo.to_owned()
    }
}

/// The environment variables to embed: the lines of the value.
pub fn env_vars_from(value: &str) -> (res: Vec<String>)
    ensures
        texts(res@) == spec_lines(value@),
{
    split_lines(value)
}

/// The first of two optional values that is present.
pub open spec fn or_else<T>(a: Option<T>, b: Option<T>) -> Option<T> {
    match a {
        Some(x) => Some(x),
        None => b,
    }
}

/// The option given on the command line, else the one from the environment.
fn or_env(arg: Option<String>, env: &Option<String>) -> (res: Option<String>)
    ensures
        opt_string_view(res) == or_else(opt_string_view(arg), opt_string_view(*env)),
{
    match arg {
        Some(a) => Some(a),
        None => match env {
            Some(v) => Some(v.clone()),
            None => None,
        },
    }
}

impl Config {
    /// Settle the configuration: each option from the CLI arguments first,
    /// then from its environment variable, then its default.
    pub fn from_cli_args(args: CliArgs, env: &Environment) -> (res: Result<Config, Error>)
        ensures
            res matches Ok(c) && ({
                let arch = match or_else(opt_string_view(args.arch), opt_string_view(env.arch)) {
                    Some(a) => a,
                    None => env.host_arch@,
                };
                let appdir = match or_else(opt_string_view(args.appdir), opt_string_view(env.appdir)) {
                    Some(a) => a,
                    None => "./AppDir"@,
                };
                let optimize = args.optimize_launch || (env.optimize_launch matches Some(v)
                    && is_truthy(v@));
                &&& c.arch@ == arch
                &&& c.appdir@ == appdir
                &&& c.tmpdir@ == match or_else(opt_string_view(args.tmpdir), opt_string_view(env.tmpdir)) {
                    Some(t) => t,
                    None => "/tmp"@,
                }
                &&& c.output_dir@ == match or_else(opt_string_view(args.output), opt_string_view(env.outpath)) {
                    Some(o) => o,
                    None => "."@,
                }
                &&& opt_string_view(c.output_name) == or_else(
                    opt_string_view(args.output_name),
                    opt_string_view(env.outname),
                )
                &&& opt_string_view(c.runtime) == or_else(
                    opt_string_view(args.runtime),
                    opt_string_view(env.runtime),
                )
                &&& opt_string_view(c.runtime_url) == or_else(
                    opt_string_view(args.runtime_url),
                    opt_string_view(env.uruntime_link),
                )
                &&& opt_string_view(c.mkdwarfs) == or_else(
                    opt_string_view(args.mkdwarfs),
                    opt_string_view(env.dwarfs_cmd),
                )
                &&& c.optimize_launch == optimize
                &&& c.keep_mount == (env.uruntime_preload matches Some(v) && is_truthy(v@))
                &&& c.devel_release == (env.devel_release matches Some(v) && is_truthy(v@))
                &&& opt_string_view(c.update_info) == or_else(
                    or_else(opt_string_view(args.update_info), opt_string_view(env.upinfo)),
                    match env.github_repository {
                        Some(r) => Some(github_update_info(r@, arch)),
                        None => None,
                    },
                )
                &&& texts(c.env_vars@) == match env.add_perma_env_vars {
                    Some(v) => spec_lines(v@),
                    None => Seq::empty(),
                }
                &&& opt_string_view(c.dwarfs_profile) == or_else(
                    or_else(opt_string_view(args.dwarfs_profile), opt_string_view(env.dwarfsprof)),
                    if optimize {
                        Some(path_join(appdir, ".dwarfsprofile"@))
                    } else {
                        None
                    },
                )
                &&& c.dwarfs_comp@ == match or_else(opt_string_view(args.dwarfs_comp), opt_string_view(env.dwarfs_comp)) {
                    Some(d) => d,
                    None => "zstd:level=22 -S26 -B6"@,
                }
                &&& opt_string_view(c.version) == spec_resolve_version(
                    opt_string_view(env.version),
                    opt_string_view(env.version_file),
                )
                &&& opt_string_view(c.dwarfs_url) == or_else(
                    opt_string_view(args.dwarfs_url),
                    opt_string_view(env.dwarfs_link),
                )
                &&& opt_string_view(c.app_name) == opt_string_view(env.appname)
            }),
    {
        let arch = match or_env(args.arch, &env.arch) {
            Some(a) => a,
            None => env.host_arch.clone(),
        };
        let appdir = match or_env(args.appdir, &env.appdir) {
            Some(a) => a,
            None => "./AppDir".to_owned(),
        };
        let tmpdir = match or_env(args.tmpdir, &env.tmpdir) {
            Some(t) => t,
            None => "/tmp".to_owned(),
        };
        let optimize_launch = args.optimize_launch || env_truthy(
            match &env.optimize_launch {
                Some(v) => Some(v.as_str()),
                None => None,
            },
        );
        let keep_mount = env_truthy(
            match &env.uruntime_preload {
                Some(v) => Some(v.as_str()),
                None => None,
            },
        );
        let devel_release = env_truthy(
            match &env.devel_release {
                Some(v) => Some(v.as_str()),
                None => None,
            },
        );
        let update_info = match or_env(args.update_info, &env.upinfo) {
            Some(u) => Some(u),
            None => match &env.github_repository {
                Some(repo) => Some(github_update_info_exec(repo.as_str(), arch.as_str())),
                None => None,
            },
        };
        let env_vars = match &env.add_perma_env_vars {
            Some(v) => env_vars_from(v.as_str()),
            None => Vec::new(),
        };
        let dwarfs_profile = match or_env(args.dwarfs_profile, &env.dwarfsprof) {
            Some(p) => Some(p),
            None => if optimize_launch {
                Some(join_path(appdir.as_str(), ".dwarfsprofile"))
            } else {
                None
            },
        };
        let dwarfs_comp = match or_env(args.dwarfs_comp, &env.dwarfs_comp) {
            Some(d) => d,
            None => "zstd:level=22 -S26 -B6".to_owned(),
        };
        let version = resolve_version(
            match &env.version {
                Some(v) => Some(v.as_str()),
                None => None,
            },
            match &env.version_file {
                Some(v) => Some(v.as_str()),
                None => None,
            },
        );
        let output_dir = match or_env(args.output, &env.outpath) {
            Some(o) => o,
            None => ".".to_owned(),
        };
        let output_name = or_env(args.output_name, &env.outname);
        let runtime = or_env(args.runtime, &env.runtime);
        let runtime_url = or_env(args.runtime_url, &env.uruntime_link);
        let mkdwarfs = or_env(args.mkdwarfs, &env.dwarfs_cmd);
        let dwarfs_url = or_env(args.dwarfs_url, &env.dwarfs_link);
        let app_name = or_env(None, &env.appname);
        Ok(
            Config {
                appdir,
                output_dir,
                output_name,
                arch,
                runtime,
                runtime_url,
                dwarfs_comp,
                update_info,
                env_vars,
                dwarfs_profile,
                optimize_launch,
                version,
                mkdwarfs,
                dwarfs_url,
                tmpdir,
                keep_mount,
                devel_release,
                app_name,
            },
        )
    }
}

} // verus!
