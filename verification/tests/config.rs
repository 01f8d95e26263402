use appimagetool::config::{
    dirs_home, env_truthy, env_vars_from, github_update_info_exec, resolve_version, strip_epoch,
    CliArgs, Config, Environment,
};

fn empty_env() -> Environment {
    Environment {
        host_arch: "x86_64".to_string(),
        appdir: None,
        outpath: None,
        outname: None,
        arch: None,
        runtime: None,
        uruntime_link: None,
        upinfo: None,
        dwarfs_comp: None,
        github_repository: None,
        add_perma_env_vars: None,
        dwarfsprof: None,
        dwarfs_cmd: None,
        optimize_launch: None,
        uruntime_preload: None,
        devel_release: None,
        dwarfs_link: None,
        tmpdir: None,
        appname: None,
        version: None,
        version_file: None,
    }
}

#[test]
fn test_strip_epoch() {
    assert_eq!(strip_epoch("1:2.0.1"), "2.0.1");
    assert_eq!(strip_epoch("2.0.1"), "2.0.1");
    assert_eq!(strip_epoch("1:"), "");
    assert_eq!(strip_epoch(""), "");
    assert_eq!(strip_epoch("0:1.0.0-alpha"), "1.0.0-alpha");
}

fn args_with_appdir() -> CliArgs {
    CliArgs {
        appdir: Some("/tmp/AppDir".to_string()),
        ..Default::default()
    }
}

#[test]
fn test_config_custom_compression() {
    let config = Config::from_cli_args(
        CliArgs {
            dwarfs_comp: Some("zstd:level=1".to_string()),
            ..args_with_appdir()
        },
        &empty_env(),
    )
    .unwrap();
    assert_eq!(config.dwarfs_comp, "zstd:level=1");
}

#[test]
fn test_config_update_info_passthrough() {
    let config = Config::from_cli_args(
        CliArgs {
            update_info: Some("gh-releases-zsync|org|repo|latest|*.AppImage.zsync".to_string()),
            ..args_with_appdir()
        },
        &empty_env(),
    )
    .unwrap();
    assert_eq!(
        config.update_info.as_deref(),
        Some("gh-releases-zsync|org|repo|latest|*.AppImage.zsync")
    );
}

#[test]
fn test_config_output_name_override() {
    let config = Config::from_cli_args(
        CliArgs {
            output_name: Some("custom.AppImage".to_string()),
            ..args_with_appdir()
        },
        &empty_env(),
    )
    .unwrap();
    assert_eq!(config.output_name.as_deref(), Some("custom.AppImage"));
}

#[test]
fn test_config_runtime_path() {
    let config = Config::from_cli_args(
        CliArgs {
            runtime: Some("/opt/uruntime".to_string()),
            ..args_with_appdir()
        },
        &empty_env(),
    )
    .unwrap();
    assert_eq!(config.runtime.as_deref(), Some("/opt/uruntime"));
}

#[test]
fn test_config_env_vars_from_string() {
    let vars: Vec<String> = env_vars_from("FOO=bar\nBAZ=qux");
    assert_eq!(vars, vec!["FOO=bar", "BAZ=qux"]);
}

#[test]
fn test_dirs_home_returns_something() {
    let home = dirs_home(None, None);
    assert!(!home.is_empty());
    assert_eq!(dirs_home(Some("/home/u"), Some("C:\\Users\\u")), "/home/u");
    assert_eq!(dirs_home(None, Some("C:\\Users\\u")), "C:\\Users\\u");
    assert_eq!(home, "~");
}

#[test]
fn config_defaults() {
    let config = Config::from_cli_args(CliArgs::default(), &empty_env()).unwrap();
    assert_eq!(config.appdir, "./AppDir");
    assert_eq!(config.output_dir, ".");
    assert_eq!(config.tmpdir, "/tmp");
    assert_eq!(config.arch, "x86_64");
    assert_eq!(config.dwarfs_comp, "zstd:level=22 -S26 -B6");
    assert_eq!(config.update_info, None);
    assert!(config.env_vars.is_empty());
    assert_eq!(config.dwarfs_profile, None);
    assert!(!config.optimize_launch && !config.keep_mount && !config.devel_release);
    assert_eq!(config.version, None);
}

#[test]
fn config_from_environment() {
    let mut env = empty_env();
    env.github_repository = Some("owner/repo".to_string());
    env.optimize_launch = Some(" yes ".to_string());
    env.uruntime_preload = Some("1".to_string());
    env.devel_release = Some("nope".to_string());
    env.add_perma_env_vars = Some("A=1\r\nB=2\n".to_string());
    env.dwarfs_link = Some("https://example.org/mkdwarfs".to_string());
    env.version = Some("2:3.4".to_string());
    env.version_file = Some("9.9".to_string());
    let config = Config::from_cli_args(
        CliArgs { arch: Some("aarch64".to_string()), ..args_with_appdir() },
        &env,
    )
    .unwrap();
    assert_eq!(
        config.update_info.as_deref(),
        Some("gh-releases-zsync|owner|repo|latest|*aarch64.AppImage.zsync")
    );
    assert!(config.optimize_launch);
    assert!(config.keep_mount);
    assert!(!config.devel_release);
    assert_eq!(config.env_vars, vec!["A=1", "B=2"]);
    assert_eq!(config.dwarfs_profile.as_deref(), Some("/tmp/AppDir/.dwarfsprofile"));
    assert_eq!(config.dwarfs_url.as_deref(), Some("https://example.org/mkdwarfs"));
    assert_eq!(config.version.as_deref(), Some("3.4"));
}

#[test]
fn cli_arguments_win_over_environment() {
    let mut env = empty_env();
    env.upinfo = Some("from-env".to_string());
    env.github_repository = Some("o/r".to_string());
    env.dwarfsprof = Some("/env/profile".to_string());
    env.dwarfs_link = Some("env-url".to_string());
    let config = Config::from_cli_args(
        CliArgs {
            update_info: Some("from-cli".to_string()),
            dwarfs_profile: Some("/cli/profile".to_string()),
            dwarfs_url: Some("cli-url".to_string()),
            ..args_with_appdir()
        },
        &env,
    )
    .unwrap();
    assert_eq!(config.update_info.as_deref(), Some("from-cli"));
    assert_eq!(config.dwarfs_profile.as_deref(), Some("/cli/profile"));
    assert_eq!(config.dwarfs_url.as_deref(), Some("cli-url"));
    let config = Config::from_cli_args(args_with_appdir(), &env).unwrap();
    assert_eq!(config.update_info.as_deref(), Some("from-env"));
    assert_eq!(config.dwarfs_profile.as_deref(), Some("/env/profile"));
}

#[test]
fn truthy_values() {
    for v in ["1", "true", "TRUE", "True", "yes", "YES", "Yes", "on", "ON", "On", "  on\t"] {
        assert!(env_truthy(Some(v)), "{v}");
    }
    for v in ["", "0", "false", "tRue", "y", "onn"] {
        assert!(!env_truthy(Some(v)), "{v}");
    }
    assert!(!env_truthy(None));
}

#[test]
fn update_info_from_repository() {
    assert_eq!(
        github_update_info_exec("a/b", "x86_64"),
        "gh-releases-zsync|a|b|latest|*x86_64.AppImage.zsync"
    );
    assert_eq!(github_update_info_exec("a/b/c", "x86_64"), "a/b/c");
    assert_eq!(github_update_info_exec("plain", "x86_64"), "plain");
    assert_eq!(
        github_update_info_exec("/b", "arm"),
        "gh-releases-zsync||b|latest|*arm.AppImage.zsync"
    );
}

#[test]
fn version_resolution() {
    assert_eq!(resolve_version(Some("1:2"), Some("3")).as_deref(), Some("2"));
    assert_eq!(resolve_version(Some(" 1.0 "), None).as_deref(), Some(" 1.0 "));
    assert_eq!(resolve_version(None, Some("  4:5.6\n")).as_deref(), Some("5.6"));
    assert_eq!(resolve_version(None, None), None);
}

#[test]
fn config_options_fall_back_to_env_vars() {
    let mut env = empty_env();
    env.outpath = Some("/dist".to_string());
    env.dwarfs_comp = Some("zstd:level=1".to_string());
    env.outname = Some("x.AppImage".to_string());
    env.arch = Some("aarch64".to_string());
    env.runtime = Some("/opt/uruntime".to_string());
    env.uruntime_link = Some("https://example.com/rt".to_string());
    env.dwarfs_cmd = Some("/usr/bin/mkdwarfs".to_string());
    env.tmpdir = Some("/var/tmp".to_string());
    env.appdir = Some("/env/AppDir".to_string());
    let c = Config::from_cli_args(CliArgs::default(), &env).unwrap();
    assert_eq!(c.output_dir, "/dist");
    assert_eq!(c.dwarfs_comp, "zstd:level=1");
    assert_eq!(c.output_name.as_deref(), Some("x.AppImage"));
    assert_eq!(c.arch, "aarch64");
    assert_eq!(c.runtime.as_deref(), Some("/opt/uruntime"));
    assert_eq!(c.runtime_url.as_deref(), Some("https://example.com/rt"));
    assert_eq!(c.mkdwarfs.as_deref(), Some("/usr/bin/mkdwarfs"));
    assert_eq!(c.tmpdir, "/var/tmp");
    assert_eq!(c.appdir, "/env/AppDir");

    // The command line wins over the environment.
    let c = Config::from_cli_args(
        CliArgs {
            output: Some("out".to_string()),
            dwarfs_comp: Some("lzma".to_string()),
            ..args_with_appdir()
        },
        &env,
    )
    .unwrap();
    assert_eq!(c.output_dir, "out");
    assert_eq!(c.dwarfs_comp, "lzma");
    assert_eq!(c.appdir, "/tmp/AppDir");
}
