use m365_copilot_proxy::browser_install::{
    action_for, after_npx, archive_entries, chosen_revision, download_failed, download_message,
    download_start, download_step, enclosed_name, existing_playwright_chromium,
    extract_chromium_zip, fetch_chromium_revision, install_chromium_browser, installed_binary,
    native_playwright_chromium_install, DownloadFailure, DownloadNext, DownloadOutcome,
    ExtractAction, InstallNext,
};
use m365_copilot_proxy::browsers::{
    browser_available, chromium_install_paths, chromium_path_names, discover_chromium_browser,
    edge_available, edge_executable_path, edge_executable_path_for, launch_debug_browser,
    launch_debug_browser_on_port, launch_debug_edge, launch_debug_edge_on_port,
    list_detected_browsers, macos_app_binary_path, mdfind_queries, playwright_cache_dir,
    playwright_chromium_layout, playwright_chromium_relative_paths, playwright_dirs,
    resolve_browser_executable, system_browser_label, Machine,
};
use m365_copilot_proxy::config::AppConfig;
use m365_copilot_proxy::json::parse_json;
use m365_copilot_proxy::platform::{
    file_name, file_stem, is_bare_name, join_path, path_components, same_path, Arch, Os, Platform,
};
use std::io::Write;

fn machine(os: Os) -> Machine {
    Machine {
        platform: Platform { os, arch: Arch::X86_64 },
        home: Some("/home/u".to_string()),
        existing: Vec::new(),
        commands: Vec::new(),
        playwright_cache: Some("/cache/ms-playwright".to_string()),
        playwright_entries: Vec::new(),
        apps: Vec::new(),
    }
}

fn strings(list: &[&str]) -> Vec<String> {
    list.iter().map(|s| s.to_string()).collect()
}

#[test]
fn paths_are_joined_as_std_joins_them() {
    for (base, part) in [("/a", "b"), ("/a/", "b"), ("", "b"), (".", "x/y"), ("a b", "c")] {
        let wanted = std::path::Path::new(base).join(part);
        assert_eq!(join_path(Os::Linux, base, part), wanted.to_str().unwrap());
    }
    assert_eq!(join_path(Os::Windows, "C:\\a", "b"), "C:\\a\\b");
    assert_eq!(join_path(Os::Windows, "C:/", "b"), "C:/b");
    assert_eq!(join_path(Os::Windows, "C:", "b"), "C:b");
}

#[test]
fn path_names_are_what_std_says() {
    for path in ["/usr/bin/chrome", "a/b/", "a/./b/.", "..", "/", "", "./x", "x", "a//b", "a/.."] {
        let p = std::path::Path::new(path);
        let name = p.file_name().map(|s| s.to_str().unwrap().to_string());
        assert_eq!(file_name(Os::Linux, path), name, "{path}");
        let count = p.components().count() - usize::from(p.has_root());
        assert_eq!(path_components(Os::Linux, path).len(), count, "{path}");
        let bare = !(p.is_absolute() || p.components().count() > 1);
        assert_eq!(is_bare_name(Os::Linux, path), bare, "{path}");
        for other in ["/usr//bin/chrome", "a/b", "x", "", "/"] {
            assert_eq!(same_path(Os::Linux, path, other), p == std::path::Path::new(other));
        }
    }
    for name in ["Google Chrome.app", "noext", ".hidden", "a.b.c", "x.", "."] {
        let wanted = match std::path::Path::new(name).file_stem() {
            Some(stem) => stem.to_str().unwrap().to_string(),
            None => name.to_string(),
        };
        assert_eq!(file_stem(name), wanted, "{name}");
    }
    assert_eq!(file_name(Os::Windows, "C:\\x\\y.exe").as_deref(), Some("y.exe"));
    assert!(!is_bare_name(Os::Windows, "C:x"));
    assert!(is_bare_name(Os::Windows, "msedge"));
}

#[test]
fn windows_paths_have_prefixes() {
    let name = |path| file_name(Os::Windows, path);
    assert_eq!(name("C:foo").as_deref(), Some("foo"));
    assert_eq!(name("C:\\x/y.exe").as_deref(), Some("y.exe"));
    assert_eq!(name("\\\\server\\share\\f").as_deref(), Some("f"));
    assert_eq!(name("\\\\server\\share"), None);
    assert_eq!(name("\\\\?\\C:\\a/b").as_deref(), Some("a/b"));
    assert_eq!(name("C:"), None);
    let same = |a, b| same_path(Os::Windows, a, b);
    assert!(same("c:\\x", "C:/x"));
    assert!(same("\\\\?\\c:\\x", "\\\\?\\C:\\x"));
    assert!(same("//server/share", "\\\\server\\share\\"));
    assert!(!same("C:x", "C:\\x"));
    assert!(!same("C:\\x", "D:\\x"));
    assert!(!same("C:\\X", "C:\\x"));
    assert!(!same("\\\\server\\share\\x", "\\server\\share\\x"));
    assert!(!same("\\\\?\\C:\\x", "C:\\x"));
    assert!(same("\\\\.\\COM1", "//./COM1"));
    assert!(is_bare_name(Os::Windows, "C:"));
    assert!(is_bare_name(Os::Windows, "\\"));
    for path in ["C:x", "\\x", "\\\\server\\share", "C:\\", "a\\b"] {
        assert!(!is_bare_name(Os::Windows, path), "{path}");
    }
    assert!(is_bare_name(Os::Linux, "C:x"));
    let below = |base: &str, part: &str| join_path(Os::Windows, base, part);
    assert_eq!(below("\\\\?\\C:\\d", "a/b"), "\\\\?\\C:\\d\\a\\b");
    assert_eq!(below("\\\\?\\C:\\d", "./a/../b/."), "\\\\?\\C:\\d\\b");
    assert_eq!(below("\\\\?\\C:\\d", "a/.."), "\\\\?\\C:\\d");
    assert_eq!(below("\\\\?\\C:\\", "a"), "\\\\?\\C:\\a");
    assert_eq!(below("\\\\?\\C:", "a"), "\\\\?\\C:\\a");
    assert_eq!(below("\\\\?\\C:\\d/", "a"), "\\\\?\\C:\\d/\\a");
    assert_eq!(below("\\\\?\\C:\\d\\..", ".."), "\\\\?\\C:\\d\\..");
    assert_eq!(below("\\\\?\\C:\\d", ""), "\\\\?\\C:\\d\\");
}

#[test]
fn browsers_come_in_order_and_once() {
    let mut m = machine(Os::Linux);
    m.existing = strings(&[
        "/snap/bin/chromium",
        "/usr/bin/microsoft-edge",
        "/cache/ms-playwright/chromium-1000/chrome-linux/chrome",
        "/cache/ms-playwright/chromium-900/chrome-linux/chrome",
    ]);
    m.commands = strings(&["chromium"]);
    m.playwright_entries =
        strings(&["chromium-900", "firefox-1", "chromium_headless_shell-1000", "chromium-1000"]);
    m.apps = strings(&["/Applications/Chromium.app"]);
    let found: Vec<(String, String)> =
        list_detected_browsers(&m).into_iter().map(|b| (b.label, b.path)).collect();
    let wanted: Vec<(String, String)> = [
        ("microsoft-edge", "/usr/bin/microsoft-edge"),
        ("chromium", "/snap/bin/chromium"),
        ("chromium (PATH)", "chromium"),
        ("Playwright chromium-1000", "/cache/ms-playwright/chromium-1000/chrome-linux/chrome"),
        ("Playwright chromium-900", "/cache/ms-playwright/chromium-900/chrome-linux/chrome"),
    ]
    .iter()
    .map(|(a, b)| (a.to_string(), b.to_string()))
    .collect();
    assert_eq!(found, wanted);
}

#[test]
fn spotlight_adds_what_is_not_listed() {
    let mut m = machine(Os::Macos);
    let brave = "/Applications/Brave Browser.app/Contents/MacOS/Brave Browser";
    let other = "/Volumes/X/Google Chrome.app/Contents/MacOS/Google Chrome";
    m.existing = strings(&[brave, other]);
    m.apps = strings(&["/Applications//Brave Browser.app", "  ", " /Volumes/X/Google Chrome.app "]);
    m.existing.push("/Applications//Brave Browser.app/Contents/MacOS/Brave Browser".to_string());
    let found: Vec<(String, String)> =
        list_detected_browsers(&m).into_iter().map(|b| (b.label, b.path)).collect();
    assert_eq!(
        found,
        vec![
            ("Brave".to_string(), brave.to_string()),
            ("Google Chrome".to_string(), other.to_string()),
        ]
    );
    assert_eq!(
        mdfind_queries()[0],
        "kMDItemCFBundleIdentifier == 'com.microsoft.edgemac'"
    );
    assert_eq!(mdfind_queries().len(), 4);
    assert_eq!(
        macos_app_binary_path("/Applications/Chromium.app"),
        "/Applications/Chromium.app/Contents/MacOS/Chromium"
    );
}

#[test]
fn labels() {
    assert_eq!(system_browser_label(Os::Linux, "/x/ms-playwright/y/chrome"), "chrome (Playwright)");
    assert_eq!(system_browser_label(Os::Macos, "/A/Chromium"), "Chromium (system)");
    assert_eq!(
        system_browser_label(Os::Macos, "/A/Google Chrome for Testing"),
        "Google Chrome for Testing (system)"
    );
    assert_eq!(system_browser_label(Os::Linux, "/"), "Chromium (system)");
    assert_eq!(system_browser_label(Os::Linux, "/usr/bin/vivaldi"), "vivaldi");
}

#[test]
fn builds_are_ordered_from_the_latest() {
    let names = strings(&["chromium-9", "chromium-x", "chromium-100", "chromium-tip", "other"]);
    assert_eq!(
        playwright_dirs(&names),
        strings(&["chromium-100", "chromium-9", "chromium-x", "chromium-tip"])
    );
}

#[test]
fn places_by_platform() {
    assert_eq!(chromium_install_paths(&machine(Os::Windows)).len(), 6);
    assert_eq!(chromium_install_paths(&machine(Os::Linux)).len(), 8);
    let mac = chromium_install_paths(&machine(Os::Macos));
    assert_eq!(mac.len(), 8);
    assert_eq!(mac[7], "/home/u/Applications/Chromium.app/Contents/MacOS/Chromium");
    assert!(chromium_install_paths(&machine(Os::Other)).is_empty());
    assert_eq!(chromium_path_names(Os::Windows), strings(&["msedge", "chrome", "brave"]));
    assert_eq!(chromium_path_names(Os::Other), strings(&["msedge", "chrome", "chromium"]));
    assert!(chromium_path_names(Os::Macos).is_empty());
    assert_eq!(discover_chromium_browser(&machine(Os::Linux)), "google-chrome");
    assert_eq!(edge_executable_path(&machine(Os::Other)), "msedge");
    assert_eq!(
        discover_chromium_browser(&machine(Os::Windows)),
        "C:\\Program Files (x86)\\Microsoft\\Edge\\Application\\msedge.exe"
    );
    assert_eq!(
        discover_chromium_browser(&machine(Os::Macos)),
        "/Applications/Microsoft Edge.app/Contents/MacOS/Microsoft Edge"
    );
    let unsupported = Platform { os: Os::Other, arch: Arch::Other };
    assert_eq!(
        playwright_chromium_layout(unsupported).err().as_deref(),
        Some("unsupported platform for Playwright Chromium")
    );
    assert!(playwright_chromium_relative_paths(unsupported).is_empty());
    assert_eq!(
        playwright_chromium_relative_paths(machine(Os::Linux).platform),
        strings(&["chrome-linux/chrome"])
    );
}

#[test]
fn cache_directories() {
    let dir = |os, var, cache| playwright_cache_dir(os, var, cache);
    assert_eq!(dir(Os::Linux, Some("/x"), Some("/c")).as_deref(), Some("/x/ms-playwright"));
    assert_eq!(dir(Os::Linux, None, Some("/c")).as_deref(), Some("/c/ms-playwright"));
    assert_eq!(dir(Os::Macos, Some("/x"), Some("/c")).as_deref(), Some("/c/ms-playwright"));
    assert_eq!(dir(Os::Windows, Some("L"), Some("/c")).as_deref(), Some("L\\ms-playwright"));
    assert_eq!(dir(Os::Windows, None, Some("/c")), None);
    assert_eq!(dir(Os::Other, Some("/x"), Some("/c")), None);
}

#[test]
fn availability() {
    let mut m = machine(Os::Linux);
    let mut c = AppConfig::default();
    assert!(!edge_available(&m));
    m.commands.push("google-chrome".to_string());
    assert!(edge_available(&m));
    assert!(browser_available(&m, &c));
    c.edge.executable = Some("google-chrome".to_string());
    assert_eq!(edge_executable_path_for(&m, &c), "google-chrome");
    let resolved = resolve_browser_executable(&m, Some("/missing"));
    assert_eq!(resolved, "google-chrome");
    assert_eq!(resolve_browser_executable(&m, Some(&resolved)), resolved);
}

#[test]
fn a_browser_is_launched_without_a_window_once_authenticated() {
    let mut m = machine(Os::Linux);
    m.existing.push("/usr/bin/chromium".to_string());
    let mut c = AppConfig::default();
    let launch = launch_debug_browser(&m, &c, true);
    assert_eq!(launch.program, "/usr/bin/chromium");
    assert_eq!(launch.profile_dir, "/home/u/.m365-copilot-proxy/edge-profile");
    assert_eq!(
        launch.args,
        strings(&[
            "--remote-debugging-port=9222",
            "--user-data-dir=/home/u/.m365-copilot-proxy/edge-profile",
            "--no-first-run",
            "--headless=new",
            "https://m365.cloud.microsoft/chat",
        ])
    );
    assert!(!launch_debug_edge(&m, &c, false).args.contains(&"--headless=new".to_string()));
    c.edge.headless_when_authenticated = false;
    assert_eq!(launch_debug_browser(&m, &c, true).args.len(), 4);
    let launch = launch_debug_browser_on_port(&m, 1, Some("/p".to_string()), Some("/missing"));
    assert_eq!(launch.program, "/usr/bin/chromium");
    assert_eq!(launch.args[0], "--remote-debugging-port=1");
    assert_eq!(launch.args[1], "--user-data-dir=/p");
    assert_eq!(
        launch_debug_edge_on_port(&m, 1, None).profile_dir,
        "/home/u/.m365-copilot-proxy/edge-profile"
    );
}

#[test]
fn places_to_look_cover_all_groups() {
    let mut m = machine(Os::Macos);
    m.playwright_entries = strings(&["chromium-1", "chromium-2"]);
    m.apps = strings(&["/A/B.app"]);
    let places = m.places_to_look();
    assert_eq!(places.len(), 8 + 2 * 3 + 1);
    assert!(places[8].starts_with("/cache/ms-playwright/chromium-2/chrome-mac/"));
    assert_eq!(places[14], "/A/B.app/Contents/MacOS/B");
}

#[test]
fn an_installation_in_steps() {
    let mut m = machine(Os::Linux);
    let step = install_chromium_browser(&m, false);
    assert_eq!(
        step.messages,
        strings(&[
            "Installing Chromium for token capture...",
            "npx not found; using built-in downloader",
            "Downloading Chromium from Playwright CDN (this may take a few minutes)...",
        ])
    );
    assert!(matches!(step.next, InstallNext::Download));
    let step = install_chromium_browser(&m, true);
    assert_eq!(step.messages[1], "Trying: npx playwright install chromium");
    assert!(matches!(step.next, InstallNext::RunNpx));
    assert!(matches!(after_npx(&m, true).next, InstallNext::Download));
    let binary = "/cache/ms-playwright/chromium-7/chrome-linux/chrome";
    m.playwright_entries = strings(&["chromium-7"]);
    m.existing = strings(&["/usr/bin/chromium", binary]);
    assert_eq!(existing_playwright_chromium(&m).as_deref(), Some(binary));
    let step = after_npx(&m, true);
    assert_eq!(step.messages, vec![format!("Installed at {binary}")]);
    assert!(matches!(after_npx(&m, false).next, InstallNext::Download));
    let step = install_chromium_browser(&m, true);
    assert_eq!(step.messages, vec![format!("Chromium already installed at {binary}")]);
    assert!(matches!(step.next, InstallNext::Installed(p) if p == binary));
}

#[test]
fn the_revision_is_found_or_replaced() {
    let list = |s: &str| fetch_chromium_revision(&parse_json(s).unwrap());
    assert_eq!(
        list(r#"{"browsers":[{"name":"firefox","revision":1},{"name":"chromium","revision":1234}]}"#)
            .unwrap(),
        "1234"
    );
    for s in [
        "{}",
        r#"{"browsers":[]}"#,
        r#"{"browsers":[{"name":"chromium","revision":"1"},{"name":"chromium","revision":2}]}"#,
    ] {
        assert_eq!(
            list(s).err().as_deref(),
            Some("chromium revision not found in browsers.json")
        );
    }
    assert_eq!(chosen_revision(Some("5".to_string())), ("5".to_string(), None));
    assert_eq!(
        chosen_revision(None),
        (
            "1229".to_string(),
            Some("Could not fetch latest revision; using Chromium 1229".to_string())
        )
    );
}

#[test]
fn the_place_of_a_download() {
    let mut m = machine(Os::Linux);
    let place = native_playwright_chromium_install(&m, "77").ok().unwrap();
    assert_eq!(place.install_dir, "/cache/ms-playwright/chromium-77");
    assert_eq!(
        place.urls,
        strings(&[
            "https://cdn.playwright.dev/dbazure/download/playwright/builds/chromium/77/chromium-linux.zip",
            "https://cdn.playwright.dev/builds/chromium/77/chromium-linux.zip",
            "https://playwright.azureedge.net/builds/chromium/77/chromium-linux.zip",
        ])
    );
    m.playwright_cache = None;
    assert_eq!(
        native_playwright_chromium_install(&m, "77").err().as_deref(),
        Some("could not resolve browser cache directory")
    );
    assert_eq!(
        native_playwright_chromium_install(&machine(Os::Other), "77").err().as_deref(),
        Some("unsupported platform for Playwright Chromium")
    );
    assert_eq!(download_message("u"), "Downloading from u");
    assert_eq!(
        download_failed(Some(&DownloadFailure::Status("404 Not Found".to_string()))),
        "Chromium download failed: HTTP 404 Not Found"
    );
    assert_eq!(
        download_failed(Some(&DownloadFailure::Request("refused".to_string()))),
        "Chromium download failed: refused"
    );
    assert_eq!(download_failed(None), "Chromium download failed: ");
    assert_eq!(
        installed_binary(&m, "/d").err().as_deref(),
        Some("download finished but browser binary not found under /d")
    );
}

#[test]
fn names_that_lead_out_are_skipped() {
    for (name, inside) in [
        ("a/b", true),
        ("a/../b", true),
        ("./a", true),
        ("a/..", true),
        ("../a", false),
        ("a/../../b", false),
        ("/etc/passwd", false),
        ("a\0b", false),
        ("", true),
    ] {
        assert_eq!(enclosed_name(Os::Linux, name), inside, "{name:?}");
    }
    assert!(enclosed_name(Os::Linux, "C:\\x"));
    assert!(!enclosed_name(Os::Windows, "C:\\x"));
    assert!(!enclosed_name(Os::Windows, "..\\x"));
    let skip = action_for(Os::Linux, "/d", "../x", None, Ok(vec![1]));
    assert!(matches!(skip, Ok(ExtractAction::Skip)));
    let dir = action_for(Os::Linux, "/d", "x/", None, Err("unread".to_string()));
    assert!(matches!(dir, Ok(ExtractAction::MakeDir(p)) if p == "/d/x/"));
    let bad = action_for(Os::Linux, "/d", "x", None, Err("unread".to_string()));
    assert!(matches!(bad, Err(e) if e == "unread"));
}

#[test]
fn entries_are_put_below_the_directory() {
    for (os, dest, name, wanted) in [
        (Os::Linux, "/d/e", "a/../b/c", vec!["d", "e", "a", "..", "b", "c"]),
        (Os::Linux, "", "./a", vec![".", "a"]),
        (Os::Windows, "C:\\d", "a/./b", vec!["d", "a", "b"]),
        (Os::Windows, "C:", "a", vec!["a"]),
        (Os::Windows, "\\\\server\\share", "a\\b", vec!["a", "b"]),
        (Os::Windows, "\\\\?\\C:\\d", "a/../b", vec!["d", "b"]),
    ] {
        match action_for(os, dest, name, Some(0o644), Ok(vec![1])) {
            Ok(ExtractAction::WriteFile { path, contents, mode }) => {
                assert_eq!(path_components(os, &path), wanted, "{path}");
                assert_eq!((contents, mode), (vec![1], Some(0o644)));
            }
            _ => panic!("{name} is not written"),
        }
    }
}

#[test]
fn places_are_asked_in_order() {
    let failed = |e: &str| DownloadOutcome::Failed(DownloadFailure::Request(e.to_string()));
    let refused = || DownloadOutcome::Failed(DownloadFailure::Status("404 Not Found".to_string()));
    assert!(matches!(download_start(2), DownloadNext::Ask(0)));
    assert!(
        matches!(download_start(0), DownloadNext::Stop(m) if m == "Chromium download failed: ")
    );
    assert!(matches!(download_step(2, 0, failed("x")), DownloadNext::Ask(1)));
    assert!(matches!(
        download_step(2, 0, DownloadOutcome::Body(vec![7])),
        DownloadNext::Archive(bytes) if bytes == [7]
    ));
    assert!(matches!(
        download_step(2, 1, refused()),
        DownloadNext::Stop(m) if m == "Chromium download failed: HTTP 404 Not Found"
    ));
    assert!(matches!(
        download_step(2, 0, DownloadOutcome::Broken("cut off".to_string())),
        DownloadNext::Stop(m) if m == "cut off"
    ));
}

#[test]
fn archives_are_read() {
    let mut data = Vec::new();
    {
        let mut zip = zip::write::ZipWriter::new(std::io::Cursor::new(&mut data));
        let options = zip::write::SimpleFileOptions::default()
            .compression_method(zip::CompressionMethod::Deflated)
            .unix_permissions(0o755);
        zip.start_file("bin/x", options).unwrap();
        zip.write_all(&[7u8; 1000]).unwrap();
        zip.start_file("../out", options).unwrap();
        zip.write_all(b"no").unwrap();
        let _ = zip.finish();
    }
    assert_eq!(archive_entries(&data).unwrap(), 2);
    match extract_chromium_zip(Os::Linux, "/d", &data, 0).unwrap() {
        ExtractAction::WriteFile { path, contents, mode } => {
            assert_eq!(path, "/d/bin/x");
            assert_eq!(contents, vec![7u8; 1000]);
            assert_eq!(mode.unwrap() & 0o777, 0o755);
        }
        _ => panic!("expected a file"),
    }
    assert!(matches!(
        extract_chromium_zip(Os::Linux, "/d", &data, 1),
        Ok(ExtractAction::Skip)
    ));
    assert!(extract_chromium_zip(Os::Linux, "/d", &data, 2).is_err());
    assert!(archive_entries(b"no archive").is_err());
}
