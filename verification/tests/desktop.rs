use appimagetool::appimage::{appinfo_content, mark_nightly, plan_build, zsync_file_name};
use appimagetool::config::{CliArgs, Config, Environment};
use appimagetool::desktop::{
    choose_app_name, compute_output_name, has_desktop_extension, parse_key, parse_name,
    select_desktop_file, validate_appdir, DesktopEntry,
};
use appimagetool::error::Error;

const SAMPLE: &str = "[Desktop Entry]\nType=Application\nName=My App\nExec=\"/usr/bin/my-app\" %U\nIcon=myapp\n";

#[test]
fn keys_are_parsed() {
    assert_eq!(parse_key(SAMPLE, "Name").as_deref(), Some("My"));
    assert_eq!(parse_key(SAMPLE, "Exec").as_deref(), Some("/usr/bin/my-app"));
    assert_eq!(parse_key("K=a b", "K").as_deref(), Some("a"));
    assert_eq!(
        parse_key("Name=Foo\nExec=\"/usr/bin/foo\" %U\nExec=bar", "Exec").as_deref(),
        Some("/usr/bin/foo")
    );
    assert_eq!(parse_key("X-Name=Foo", "Name"), None);
    assert_eq!(parse_key(SAMPLE, "Icon").as_deref(), Some("myapp"));
    assert_eq!(parse_key(SAMPLE, "Comment"), None);
    assert_eq!(parse_key("Name=\nName=second", "Name").as_deref(), Some(""));
    assert_eq!(parse_key("Name=   \n", "Name").as_deref(), Some("   "));
    assert_eq!(parse_key("Name=\"Quoted\"\r\n", "Name").as_deref(), Some("Quoted"));
    assert_eq!(parse_key("NameX=1\nName=2", "Name").as_deref(), Some("2"));
}

#[test]
fn names_are_read_whole() {
    assert_eq!(parse_name(SAMPLE).as_deref(), Some("My App"));
    assert_eq!(parse_name("Name=  \"Two Words\"  \n").as_deref(), Some("Two Words"));
    assert_eq!(parse_name("Name=   \n").as_deref(), Some(""));
    assert_eq!(parse_name("NameX=1\nName=a b\nName=c").as_deref(), Some("a b"));
    assert_eq!(parse_name("Exec=x"), None);
}

#[test]
fn entry_from_content() {
    let entry = DesktopEntry::from_content("/a/app.desktop".to_string(), SAMPLE);
    assert_eq!(entry.path, "/a/app.desktop");
    assert_eq!(entry.name, "My App");
    assert_eq!(entry.exec_cmd, "/usr/bin/my-app");
    assert_eq!(entry.icon_name.as_deref(), Some("myapp"));
    assert_eq!(entry.main_binary().as_deref(), Some("my-app"));
    let bare = DesktopEntry::from_content("x".to_string(), "[Desktop Entry]\n");
    assert_eq!(bare.name, "");
    assert_eq!(bare.exec_cmd, "");
    assert_eq!(bare.icon_name, None);
    assert_eq!(bare.main_binary(), None);
}

#[test]
fn main_binary_variants() {
    let mk = |exec: &str| DesktopEntry {
        path: String::new(),
        name: String::new(),
        exec_cmd: exec.to_string(),
        icon_name: None,
    };
    assert_eq!(mk("app --flag").main_binary().as_deref(), Some("app"));
    assert_eq!(mk("  /opt/x/bin/tool  ").main_binary().as_deref(), Some("tool"));
    assert_eq!(mk("\"dir/with\"").main_binary().as_deref(), Some("with"));
    assert_eq!(mk("trailing/").main_binary().as_deref(), Some(""));
    assert_eq!(mk("   ").main_binary(), None);
}

#[test]
fn appdir_checks() {
    assert!(DesktopEntry::check_dir_icon(true).is_ok());
    assert!(matches!(DesktopEntry::check_dir_icon(false), Err(Error::NoDirIcon)));
    assert!(DesktopEntry::check_apprun(true).is_ok());
    assert!(matches!(DesktopEntry::check_apprun(false), Err(Error::NoAppRun)));
}

#[test]
fn desktop_file_selection() {
    let names = |v: &[&str]| v.iter().map(|s| s.to_string()).collect::<Vec<_>>();
    assert_eq!(
        select_desktop_file("AppDir", &names(&["AppRun", "app.desktop", ".DirIcon"])).unwrap(),
        "AppDir/app.desktop"
    );
    assert_eq!(select_desktop_file("AppDir/", &names(&["a.desktop"])).unwrap(), "AppDir/a.desktop");
    assert!(matches!(
        select_desktop_file("AppDir", &names(&["AppRun", ".desktop", "x.desktop.bak"])),
        Err(Error::NoDesktopEntry)
    ));
    match select_desktop_file("AppDir", &names(&["a.desktop", "b", "c.desktop"])) {
        Err(Error::Config(msg)) => {
            assert_eq!(msg, "multiple .desktop files found in AppDir, expected exactly one")
        }
        other => panic!("unexpected {:?}", other.map(|_| ())),
    }
    assert!(has_desktop_extension("..desktop"));
    assert!(!has_desktop_extension(".desktop"));
    assert!(!has_desktop_extension("desktop"));
}

#[test]
fn metadata_is_replaced() {
    let content = "[Desktop Entry]\nName=A\nX-AppImage-Version=0.1\nExec=a\n";
    let out = DesktopEntry::add_appimage_metadata(content, "A", "1.0", "x86_64");
    assert_eq!(
        out,
        "[Desktop Entry]\nName=A\nExec=a\nX-AppImage-Name=A\nX-AppImage-Version=1.0\nX-AppImage-Arch=x86_64\n"
    );
    let again = DesktopEntry::add_appimage_metadata(&out, "A", "1.0", "x86_64");
    assert_eq!(again, out);
    let trailing_blank = DesktopEntry::add_appimage_metadata("a\n\n", "N", "V", "R");
    assert_eq!(trailing_blank, "a\nX-AppImage-Name=N\nX-AppImage-Version=V\nX-AppImage-Arch=R\n");
    let empty = DesktopEntry::add_appimage_metadata("", "N", "V", "R");
    assert_eq!(empty, "\nX-AppImage-Name=N\nX-AppImage-Version=V\nX-AppImage-Arch=R\n");
}

#[test]
fn output_names() {
    assert_eq!(
        compute_output_name("My App", Some("1.0"), "x86_64"),
        "My_App-1.0-anylinux-x86_64.AppImage"
    );
    assert_eq!(
        compute_output_name("App", Some("1.0 beta/2"), "aarch64"),
        "App-1.0_beta_2-anylinux-aarch64.AppImage"
    );
    assert_eq!(compute_output_name("App", Some(""), "x86_64"), "App-anylinux-x86_64.AppImage");
    assert_eq!(compute_output_name("App", None, "x86_64"), "App-anylinux-x86_64.AppImage");
}

#[test]
fn nightly_marking() {
    assert_eq!(
        mark_nightly("[Desktop Entry]\nName=App\nExec=app\n"),
        "[Desktop Entry]\nName=App Nightly\nExec=app"
    );
    assert_eq!(mark_nightly("Name=App Nightly\n"), "Name=App Nightly\n");
    let once = mark_nightly("Name=X\r\nComment=y");
    assert_eq!(once, "Name=X Nightly\nComment=y");
    assert_eq!(mark_nightly(&once), once);
}

#[test]
fn appinfo_and_zsync_names() {
    assert_eq!(
        appinfo_content("A", "1", "x86_64"),
        "X-AppImage-Name=A\nX-AppImage-Version=1\nX-AppImage-Arch=x86_64\n"
    );
    assert_eq!(zsync_file_name("A.AppImage"), "A.AppImage.zsync");
}

fn env() -> Environment {
    Environment {
        host_arch: "x86_64".to_string(),
        appdir: None,
        outpath: None,
        outname: None,
        arch: None,
        runtime: None,
        uruntime_link: None,
        upinfo: None,
        dwarfs_comp: None,
        github_repository: None,
        add_perma_env_vars: None,
        dwarfsprof: None,
        dwarfs_cmd: None,
        optimize_launch: None,
        uruntime_preload: None,
        devel_release: None,
        dwarfs_link: None,
        tmpdir: None,
        appname: None,
        version: None,
        version_file: None,
    }
}

#[test]
fn build_plans() {
    let config = Config::from_cli_args(
        CliArgs { output: Some("dist".to_string()), ..Default::default() },
        &env(),
    )
    .unwrap();
    let plan = plan_build(&config, "My App");
    assert_eq!(plan.version, "UNKNOWN");
    assert_eq!(plan.output_name, "My_App-UNKNOWN-anylinux-x86_64.AppImage");
    assert_eq!(plan.output_path, "dist/My_App-UNKNOWN-anylinux-x86_64.AppImage");
    assert_eq!(plan.analyze_image, None);
    assert_eq!(plan.profile, None);
    assert!(!plan.generate_zsync);

    let mut e = env();
    e.version = Some("1:2.0".to_string());
    e.optimize_launch = Some("1".to_string());
    e.upinfo = Some("zsync|x".to_string());
    let config = Config::from_cli_args(
        CliArgs { output_name: Some("out.AppImage".to_string()), ..Default::default() },
        &e,
    )
    .unwrap();
    let plan = plan_build(&config, "App");
    assert_eq!(plan.version, "2.0");
    assert_eq!(plan.output_name, "out.AppImage");
    assert_eq!(plan.output_path, "./out.AppImage");
    assert_eq!(plan.analyze_image.as_deref(), Some("/tmp/.analyze"));
    assert_eq!(plan.profile.as_deref(), Some("./AppDir/.dwarfsprofile"));
    assert!(plan.generate_zsync);
}

#[test]
fn appdir_validation_order() {
    assert!(validate_appdir(true, true).is_ok());
    assert!(matches!(validate_appdir(false, false), Err(Error::NoAppRun)));
    assert!(matches!(validate_appdir(false, true), Err(Error::NoAppRun)));
    assert!(matches!(validate_appdir(true, false), Err(Error::NoDirIcon)));
}

#[test]
fn appname_overrides_desktop_name() {
    assert_eq!(choose_app_name(Some("Other"), "My App"), "Other");
    assert_eq!(choose_app_name(Some(""), "My App"), "My App");
    assert_eq!(choose_app_name(None, "My App"), "My App");
    let mut e = env();
    e.appname = Some("Override".to_string());
    let config = Config::from_cli_args(CliArgs::default(), &e).unwrap();
    assert_eq!(config.app_name.as_deref(), Some("Override"));
    let name = choose_app_name(config.app_name.as_deref(), "My App");
    let plan = plan_build(&config, &name);
    assert_eq!(plan.output_name, "Override-UNKNOWN-anylinux-x86_64.AppImage");
}
