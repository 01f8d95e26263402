use vstd::prelude::*;

use crate::config::{opt_string_view, Config};
use crate::desktop::{compute_output_name, metadata_lines, spec_output_name};
use crate::text::{
    chars_of, chars_contain, chars_start_with, contains_seq, join, lemma_join_contains, join_path, path_join, seq_join,
    spec_lines, split_lines, starts_with, texts,
};

verus! {

// ---------------------------------------------------------------------------
// Development releases
// ---------------------------------------------------------------------------

/// A line of the desktop file as a nightly build shows it: a `Name=` line
/// gets ` Nightly` appended.
pub open spec fn nightly_line(line: Seq<char>) -> Seq<char> {
    if starts_with(line, "Name="@) {
        line + " Nightly"@
    } else {
        line
    }
}

/// The desktop file of a development release: unchanged when it already
/// mentions `Nightly`, else its lines rejoined with ` Nightly` appended to
/// each `Name=` line.
pub open spec fn spec_mark_nightly(content: Seq<char>) -> Seq<char> {
    if contains_seq(content, "Nightly"@) {
        content
    } else {
        seq_join(spec_lines(content).map_values(|l: Seq<char>| nightly_line(l)), "\n"@)
    }
}

/// Marking a desktop file that names its application (has a `Name=` line)
/// twice gives the same text as marking it once.
pub proof fn lemma_mark_nightly_once(content: Seq<char>, i: int)
    requires
        0 <= i < spec_lines(content).len(),
        starts_with(spec_lines(content)[i], "Name="@),
    ensures
        spec_mark_nightly(spec_mark_nightly(content)) == spec_mark_nightly(content),
{
    if !contains_seq(content, "Nightly"@) {
        let marked = spec_lines(content).map_values(|l: Seq<char>| nightly_line(l));
        let line = spec_lines(content)[i];
        assert(marked[i] == line + " Nightly"@);
        reveal_strlit(" Nightly");
        reveal_strlit("Nightly");
        let k = line.len() + 1int;
        assert(marked[i].subrange(k, k + "Nightly"@.len()) =~= "Nightly"@);
        assert(contains_seq(marked[i], "Nightly"@));
        lemma_join_contains(marked, "\n"@, "Nightly"@, i);
    }
}

/// Marking a development release changes only the lines that start with
/// `Name=`, each of which gets ` Nightly` appended; every other line stays
/// as it is, at its place. A text that already holds `Nightly` anywhere is
/// left as it is.
pub proof fn lemma_mark_nightly_touches_name_lines(content: Seq<char>)
    ensures
        ({
            let lines = spec_lines(content);
            let already = exists|i: int|
                0 <= i && i + "Nightly"@.len() <= content.len() && #[trigger] content.subrange(
                    i,
                    i + "Nightly"@.len(),
                ) == "Nightly"@;
            let marked = Seq::new(
                lines.len(),
                |i: int|
                    if lines[i].len() >= "Name="@.len() && lines[i].take("Name="@.len() as int)
                        == "Name="@ {
                        lines[i] + " Nightly"@
                    } else {
                        lines[i]
                    },
            );
            spec_mark_nightly(content) == if already {
                content
            } else {
                seq_join(marked, "\n"@)
            }
        }),
{
    let lines = spec_lines(content);
    let marked = Seq::new(
        lines.len(),
        |i: int|
            if lines[i].len() >= "Name="@.len() && lines[i].take("Name="@.len() as int) == "Name="@ {
                lines[i] + " Nightly"@
            } else {
                lines[i]
            },
    );
    assert(lines.map_values(|l: Seq<char>| nightly_line(l)) =~= marked);
}

/// Patch the desktop file of a development release.
pub fn mark_nightly(content: &str) -> (res: String)
    ensures
        res@ == spec_mark_nightly(content@),
{
    let cs = chars_of(content);
    let nightly = chars_of("Nightly");
    if chars_contain(cs.as_slice(), nightly.as_slice()) {
        return content.to_owned();
    }
    let name_prefix = chars_of("Name=");
    let lines = split_lines(content);
    let n = lines.len();
    let ghost ls = texts(lines@);
    let mut patched: Vec<String> = Vec::new();
    for i in 0..n
        invariant
            n == lines@.len(),
            ls == texts(lines@),
            ls == spec_lines(content@),
            name_prefix@ == "Name="@,
            texts(patched@) == ls.take(i as int).map_values(|l: Seq<char>| nightly_line(l)),
    {
        assert(ls[i as int] == lines@[i as int]@);
        let line = chars_of(lines[i].as_str());
        let mut out = lines[i].clone();
        if chars_start_with(line.as_slice(), name_prefix.as_slice()) {
            out.append(" Nightly");
        }
        let ghost before = texts(patched@);
        patched.push(out);
        assert(texts(patched@) =~= before.push(nightly_line(ls[i as int])));
        assert(ls.take(i + 1).map_values(|l: Seq<char>| nightly_line(l)) =~= ls.take(i as int).map_values(
            |l: Seq<char>| nightly_line(l),
        ).push(nightly_line(ls[i as int])));
    }
    assert(ls.take(n as int) =~= ls);
    join(patched.as_slice(), "\n")
}

// ---------------------------------------------------------------------------
// The build plan
// ---------------------------------------------------------------------------

/// What the build does, settled before any work starts.
pub struct BuildPlan {
    /// The application's name, from the desktop entry.
    pub app_name: String,
    /// The version written into the metadata (`UNKNOWN` when none is set).
    pub version: String,
    /// The file name of the AppImage.
    pub output_name: String,
    /// The path of the AppImage.
    pub output_path: String,
    /// Where the temporary image for profiling goes, when launch
    /// optimization is on.
    pub analyze_image: Option<String>,
    /// The DWARFS profile the final build uses: the one profiling writes
    /// when launch optimization is on, else the configured one.
    pub profile: Option<String>,
    /// Whether a `.zsync` file is generated (update information is set).
    pub generate_zsync: bool,
}

/// The version written into the metadata.
pub open spec fn build_version(config: Config) -> Seq<char> {
    match config.version {
        Some(v) => v@,
        None => "UNKNOWN"@,
    }
}

/// Settle what building from `config` does for the application `app_name`.
pub fn plan_build(config: &Config, app_name: &str) -> (res: BuildPlan)
    ensures
        res.app_name@ == app_name@,
        res.version@ == build_version(*config),
        res.output_name@ == match config.output_name {
            Some(n) => n@,
            None => spec_output_name(app_name@, Some(build_version(*config)), config.arch@),
        },
        res.output_path@ == path_join(config.output_dir@, res.output_name@),
        opt_string_view(res.analyze_image) == if config.optimize_launch {
            Some(path_join(config.tmpdir@, ".analyze"@))
        } else {
            None
        },
        opt_string_view(res.profile) == if config.optimize_launch {
            Some(
                match config.dwarfs_profile {
                    Some(p) => p@,
                    None => path_join(config.appdir@, ".dwarfsprofile"@),
                },
            )
        } else {
            opt_string_view(config.dwarfs_profile)
        },
        res.generate_zsync == config.update_info is Some,
{
    let version = match &config.version {
        Some(v) => v.clone(),
        None => "UNKNOWN".to_owned(),
    };
    let output_name = match &config.output_name {
        Some(n) => n.clone(),
        None => compute_output_name(app_name, Some(version.as_str()), config.arch.as_str()),
    };
    let output_path = join_path(config.output_dir.as_str(), output_name.as_str());
    let (analyze_image, profile) = if config.optimize_launch {
        let analyze = join_path(config.tmpdir.as_str(), ".analyze");
        let profile = match &config.dwarfs_profile {
            Some(p) => p.clone(),
            None => join_path(config.appdir.as_str(), ".dwarfsprofile"),
        };
        (Some(analyze), Some(profile))
    } else {
        (
            None,
            match &config.dwarfs_profile {
                Some(p) => Some(p.clone()),
                None => None,
            },
        )
    };
    BuildPlan {
        app_name: app_name.to_owned(),
        version,
        output_name,
        output_path,
        analyze_image,
        profile,
        generate_zsync: config.update_info.is_some(),
    }
}

/// The text of the `appinfo` file written next to the AppImage.
pub fn appinfo_content(name: &str, version: &str, arch: &str) -> (res: String)
    ensures
        res@ == metadata_lines(name@, version@, arch@),
{
    let mut out = "X-AppImage-Name=".to_owned();
    out.append(name);
    out.append("\n");
    out.append("X-AppImage-Version=");
    out.append(version);
    out.append("\n");
    out.append("X-AppImage-Arch=");
    out.append(arch);
    out.append("\n");
    out
}

/// The name of the `.zsync` file for the AppImage `filename`.
pub fn zsync_file_name(filename: &str) -> (res: String)
    ensures
        res@ == filename@ + ".zsync"@,
{
    let mut out = filename.to_owned();
    out.append(".zsync");
    out
}

} // verus!
