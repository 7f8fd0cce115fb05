use launcher_profiles::config::{AppConfig, AppEntry, LoadError, OptEntry, Ron};
use launcher_profiles::loader::{
    build_app_config, content_entries, listing_entries, plan_scans, static_entries, ScanInput,
};
use launcher_profiles::pattern::ProfileRegex;
use launcher_profiles::search::{search, App};

fn ron(shorthand: &str, pattern: &str, file: Option<&str>) -> Ron {
    Ron {
        shorthand: shorthand.to_string(),
        cmd: "firefox".to_string(),
        args: "-P".to_string(),
        profile_dirs: vec!["/home/u/.mozilla".to_string()],
        profile_filename: file.map(|f| f.to_string()),
        profile_regex: ProfileRegex::new(pattern).unwrap(),
        opt_entries: None,
        icon: Some("firefox".to_string()),
    }
}

fn entry(name: &str, cmd: &str) -> AppEntry {
    AppEntry { name: name.to_string(), desc: String::new(), cmd: cmd.to_string() }
}

fn app(name: &str, shorthand: &str, entries: Vec<AppEntry>) -> AppConfig {
    AppConfig { name: name.to_string(), conf: ron(shorthand, "(x)", None), entries }
}

fn catalogue() -> Vec<AppConfig> {
    vec![
        app("firefox", "ff", vec![entry("Work", "firefox -P 'work'"), entry("Home", "firefox -P 'home'")]),
        app("code", "vs", vec![entry("Alpha Project", "code /p/alpha")]),
    ]
}

#[test]
fn directory_scan_titles_matched_stems() {
    let r = ron("ff", r"^(.*)\.bar$", None);
    let names = vec!["foo.bar".to_string(), "notes.txt".to_string(), "baz.bar".to_string()];
    let v = listing_entries(&r, "/p", &names).unwrap();
    assert_eq!(v.len(), 2);
    assert_eq!(v[0].name, "Foo");
    assert_eq!(v[1].name, "Baz");
    assert_eq!(v[0].cmd, "firefox -P /p/foo.bar");
    assert_eq!(v[1].cmd, "firefox -P /p/baz.bar");
    assert_eq!(v[0].desc, "");
}

#[test]
fn content_scan_quotes_raw_name() {
    let r = ron("ff", r"profile: (\w+)", Some("profiles.ini"));
    let v = content_entries(&r, "profile: alpha\nprofile: beta\n").unwrap();
    assert_eq!(v.len(), 2);
    assert_eq!(v[0].name, "Alpha");
    assert_eq!(v[1].name, "Beta");
    assert_eq!(v[0].cmd, "firefox -P 'alpha'");
    assert_eq!(v[1].cmd, "firefox -P 'beta'");
}

#[test]
fn content_scan_title_cases_multiword_name() {
    let r = ron("ff", r"name=(.+)", Some("profiles.ini"));
    let v = content_entries(&r, "name=dev_box\n").unwrap();
    assert_eq!(v[0].name, "Dev Box");
    assert_eq!(v[0].cmd, "firefox -P 'dev_box'");
}

#[test]
fn content_scan_missing_group_fails() {
    let r = ron("ff", r"profile: (\w+)|other", Some("profiles.ini"));
    let res = content_entries(&r, "profile: alpha\nother\n");
    assert!(matches!(res, Err(LoadError::MissingCaptureGroup)));
}

#[test]
fn missing_group_fails_whole_build() {
    let r = ron("ff", r"profile: (\w+)|other", Some("profiles.ini"));
    let scans = vec![
        ScanInput::Listing { dir: "/p".to_string(), names: vec!["profile: x".to_string()] },
        ScanInput::Contents { text: "other".to_string() },
    ];
    let res = build_app_config("firefox".to_string(), r, &scans);
    assert!(matches!(res, Err(LoadError::MissingCaptureGroup)));
}

#[test]
fn listing_missing_group_fails() {
    let r = ron("ff", r"(a)|b", None);
    let res = listing_entries(&r, "/p", &vec!["b".to_string()]);
    assert!(matches!(res, Err(LoadError::MissingCaptureGroup)));
}

#[test]
fn invalid_pattern_is_rejected() {
    assert!(ProfileRegex::new("(unclosed").is_none());
    assert_eq!(ProfileRegex::new("a(b)").unwrap().as_str(), "a(b)");
}

#[test]
fn static_entries_defaults() {
    let mut r = ron("ff", "(x)", None);
    r.opt_entries = Some(vec![
        OptEntry { name: "private window".to_string(), desc: None, cmd: None, args: Some("--private-window".to_string()) },
        OptEntry { name: "settings".to_string(), desc: Some("prefs".to_string()), cmd: Some("gnome-control-center".to_string()), args: None },
    ]);
    let v = static_entries(&r);
    assert_eq!(v.len(), 2);
    assert_eq!(v[0].name, "Private Window");
    assert_eq!(v[0].desc, "optional");
    assert_eq!(v[0].cmd, "firefox --private-window");
    assert_eq!(v[1].desc, "prefs");
    assert_eq!(v[1].cmd, "gnome-control-center");
}

#[test]
fn build_puts_scanned_before_declared() {
    let mut r = ron("ff", r"^(.*)\.bar$", None);
    r.opt_entries = Some(vec![OptEntry { name: "extra".to_string(), desc: None, cmd: None, args: None }]);
    let scans = vec![ScanInput::Listing { dir: "/p".to_string(), names: vec!["one.bar".to_string()] }];
    let a = build_app_config("code".to_string(), r, &scans).unwrap();
    assert_eq!(a.name, "code");
    let names: Vec<&str> = a.entries.iter().map(|e| e.name.as_str()).collect();
    assert_eq!(names, vec!["One", "Extra"]);
    assert_eq!(a.entries[1].cmd, "firefox");
}

#[test]
fn rebuild_gives_same_entries() {
    let scans = vec![ScanInput::Listing { dir: "/p".to_string(), names: vec!["a.bar".to_string(), "b.bar".to_string()] }];
    let a = build_app_config("x".to_string(), ron("ff", r"^(.*)\.bar$", None), &scans).unwrap();
    let b = build_app_config("x".to_string(), ron("ff", r"^(.*)\.bar$", None), &scans).unwrap();
    let va: Vec<(String, String)> = a.entries.iter().map(|e| (e.name.clone(), e.cmd.clone())).collect();
    let vb: Vec<(String, String)> = b.entries.iter().map(|e| (e.name.clone(), e.cmd.clone())).collect();
    assert_eq!(va, vb);
}

#[test]
fn plan_resolves_home_and_profile_file() {
    let mut r = ron("ff", "(x)", Some("profiles.ini"));
    r.profile_dirs = vec!["~/.mozilla/firefox".to_string(), "/etc/ff/".to_string()];
    let t = plan_scans(&r, Some("/home/u".to_string())).unwrap();
    assert_eq!(t.len(), 2);
    assert_eq!(t[0].dir, "/home/u/.mozilla/firefox");
    assert_eq!(t[0].file.as_deref(), Some("/home/u/.mozilla/firefox/profiles.ini"));
    assert_eq!(t[1].dir, "/etc/ff/");
    assert_eq!(t[1].file.as_deref(), Some("/etc/ff/profiles.ini"));
}

#[test]
fn plan_without_home_fails_for_home_relative_dir() {
    let mut r = ron("ff", "(x)", None);
    r.profile_dirs = vec!["~/code".to_string()];
    assert!(matches!(plan_scans(&r, None), Err(LoadError::NoHome)));
    r.profile_dirs = vec!["/srv/code".to_string()];
    let t = plan_scans(&r, None).unwrap();
    assert_eq!(t[0].dir, "/srv/code");
    assert!(t[0].file.is_none());
}

#[test]
fn search_single_profile_match() {
    let reply = search(&catalogue(), "FF wor");
    assert_eq!(reply.results.len(), 1);
    assert_eq!(reply.results[0].id, 0);
    assert_eq!(reply.results[0].name, "Work");
    assert_eq!(reply.results[0].description, "open Work in new window");
    assert_eq!(reply.results[0].launch, "firefox -P 'work'");
    assert_eq!(reply.results[0].icon.as_deref(), Some("firefox"));
    assert!(reply.error.is_none());
}

#[test]
fn search_shorthand_only_lists_all_profiles() {
    let reply = search(&catalogue(), "ff");
    let names: Vec<&str> = reply.results.iter().map(|r| r.name.as_str()).collect();
    assert_eq!(names, vec!["Work", "Home"]);
}

#[test]
fn search_fragment_after_whitespace_run() {
    let reply = search(&catalogue(), "vs \t  PROJ");
    assert_eq!(reply.results.len(), 1);
    assert_eq!(reply.results[0].launch, "code /p/alpha");
}

#[test]
fn search_unknown_profile_fallback() {
    let reply = search(&catalogue(), "ff zzz");
    assert_eq!(reply.results.len(), 3);
    assert_eq!(reply.results[0].name, "Unknown profile - try one of the following");
    assert_eq!(reply.results[0].launch, "");
    assert_eq!(reply.results[1].name, "Work");
    assert_eq!(reply.results[1].description, "Open Work profile in new window");
    assert_eq!(reply.results[2].name, "Home");
    assert_eq!(reply.results[2].id, 2);
}

#[test]
fn search_unknown_shorthand_fallback() {
    let reply = search(&catalogue(), "xx work");
    assert_eq!(reply.results.len(), 3);
    assert_eq!(reply.results[0].name, "Unknown shorthand - try one of the following");
    assert_eq!(reply.results[1].name, "ff");
    assert_eq!(reply.results[1].description, "Try the shorthand for firefox!");
    assert_eq!(reply.results[1].launch, "ff");
    assert_eq!(reply.results[2].name, "vs");
    assert!(reply.error.is_none());
}

#[test]
fn search_empty_catalogue_reports_error() {
    let reply = search(&Vec::new(), "ff work");
    assert_eq!(reply.results.len(), 1);
    assert_eq!(reply.error.as_deref(), Some("no profiles"));
}

#[test]
fn search_uses_entry_description_when_set() {
    let mut cat = catalogue();
    cat[0].entries[0].desc = "optional".to_string();
    let reply = search(&cat, "ff work");
    assert_eq!(reply.results[0].description, "optional");
}

#[test]
fn activate_resolves_last_answer() {
    let mut a = App::new();
    a.reload(catalogue());
    a.search("ff h");
    assert_eq!(a.activate(0).as_deref(), Some("firefox -P 'home'"));
    assert!(a.activate(1).is_none());
    assert!(a.activate(u32::MAX).is_none());
}

#[test]
fn activate_before_any_search_is_noop() {
    let a = App::new();
    assert!(a.activate(0).is_none());
}

use launcher_profiles::loader::{entries_from_contents, entries_from_listing};
use launcher_profiles::pattern::Capture;

fn capture(whole: &str, group: Option<&str>) -> Capture {
    Capture { whole: whole.to_string(), group: group.map(|g| g.to_string()) }
}

#[test]
fn static_launch_line_is_trimmed() {
    let mut r = ron("ff", "(x)", None);
    r.opt_entries = Some(vec![
        OptEntry { name: "a".to_string(), desc: None, cmd: Some("c".to_string()), args: Some("x ".to_string()) },
        OptEntry { name: "b".to_string(), desc: None, cmd: Some(" c ".to_string()), args: None },
        OptEntry { name: "c".to_string(), desc: None, cmd: None, args: Some(String::new()) },
        OptEntry { name: "d".to_string(), desc: None, cmd: Some(String::new()), args: Some("\t".to_string()) },
    ]);
    let v = static_entries(&r);
    assert_eq!(v[0].cmd, "c x");
    assert_eq!(v[1].cmd, "c");
    assert_eq!(v[2].cmd, "firefox");
    assert_eq!(v[3].cmd, "");
}

#[test]
fn search_splits_at_unicode_whitespace() {
    let reply = search(&catalogue(), "ff\u{a0}\u{b}wor");
    assert_eq!(reply.results.len(), 1);
    assert_eq!(reply.results[0].name, "Work");
    let reply = search(&catalogue(), "ff\u{c}hom");
    assert_eq!(reply.results[0].name, "Home");
}

#[test]
fn absolute_profile_file_stands_alone() {
    let mut r = ron("ff", "(x)", Some("/etc/profiles.ini"));
    r.profile_dirs = vec!["/home/u/.mozilla".to_string()];
    let t = plan_scans(&r, None).unwrap();
    assert_eq!(t[0].file.as_deref(), Some("/etc/profiles.ini"));
}

#[test]
fn entries_from_given_content_matches() {
    let r = ron("ff", "(x)", Some("p.txt"));
    let caps = vec![capture("profile: alpha", Some("alpha")), capture("profile: beta", Some("beta"))];
    let v = entries_from_contents(&r, &caps).unwrap();
    assert_eq!(v.len(), 2);
    assert_eq!(v[0].name, "Alpha");
    assert_eq!(v[1].name, "Beta");
    assert_eq!(v[1].cmd, "firefox -P 'beta'");
    let bad = vec![capture("profile: alpha", Some("alpha")), capture("other", None)];
    assert!(matches!(entries_from_contents(&r, &bad), Err(LoadError::MissingCaptureGroup)));
}

#[test]
fn entries_from_given_listing_matches() {
    let r = ron("ff", "(x)", None);
    let caps = vec![
        vec![capture("foo.bar", Some("foo"))],
        vec![],
        vec![capture("baz.bar", Some("baz")), capture("ignored", Some("ignored"))],
    ];
    let v = entries_from_listing(&r, "/d", &caps).unwrap();
    let names: Vec<&str> = v.iter().map(|e| e.name.as_str()).collect();
    assert_eq!(names, vec!["Foo", "Baz"]);
    assert_eq!(v[1].cmd, "firefox -P /d/baz.bar");
    let bad = vec![vec![capture("x", None)]];
    assert!(matches!(entries_from_listing(&r, "/d", &bad), Err(LoadError::MissingCaptureGroup)));
}
