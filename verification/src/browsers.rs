//! Chromium browsers: where they are installed, which of them a machine has, and how one is
//! started for token capture.
use vstd::prelude::*;
use vstd::string::*;

use crate::config::{self, default_profile_dir, AppConfig};
use crate::platform::{
    self, file_name, file_stem, is_bare_name, join_path, same_path, Arch, Os, Platform,
};
use crate::text::{
    self, contains_text, parse_unsigned, same_text, starts_with, trim_text, unsigned_text,
};

verus! {

// ---------------------------------------------------------------------------------------------
// Lists of texts
// ---------------------------------------------------------------------------------------------

/// The empty list.
fn no_texts() -> (texts: Vec<String>)
    ensures
        text::views(texts@) == Seq::<Seq<char>>::empty(),
{
    let texts: Vec<String> = Vec::new();
    assert(text::views(texts@) =~= Seq::<Seq<char>>::empty());
    texts
}

/// Appends a text to a list.
fn push_text(texts: &mut Vec<String>, s: &str)
    ensures
        text::views(final(texts)@) == text::views(old(texts)@).push(s@),
{
    let ghost before = text::views(texts@);
    texts.push(s.to_owned());
    assert(text::views(texts@) =~= before.push(s@));
}

/// Whether a list holds a text.
fn holds(texts: &[String], s: &str) -> (b: bool)
    ensures
        b == text::views(texts@).contains(s@),
{
    for i in 0..texts.len()
        invariant
            forall|j: int| 0 <= j < i ==> text::views(texts@)[j] != s@,
    {
        assert(text::views(texts@)[i as int] == texts@[i as int]@);
        if same_text(texts[i].as_str(), s) {
            assert(text::views(texts@).contains(s@));
            return true;
        }
    }
    assert(text::views(texts@).len() == texts@.len());
    false
}

// ---------------------------------------------------------------------------------------------
// Machines
// ---------------------------------------------------------------------------------------------

/// What is known of a machine.
pub struct Machine {
    pub platform: Platform,
    pub home: Option<String>,
    /// The paths that exist, of those that were looked for.
    pub existing: Vec<String>,
    /// The commands that are found, of those that were looked for.
    pub commands: Vec<String>,
    /// Where Playwright keeps its browsers.
    pub playwright_cache: Option<String>,
    /// The names of what lies there.
    pub playwright_entries: Vec<String>,
    /// The applications that Spotlight finds for the browsers' identifiers.
    pub apps: Vec<String>,
}

/// What is known of a machine.
pub struct MachineView {
    pub platform: Platform,
    pub home: Option<Seq<char>>,
    pub existing: Seq<Seq<char>>,
    pub commands: Seq<Seq<char>>,
    pub playwright_cache: Option<Seq<char>>,
    pub playwright_entries: Seq<Seq<char>>,
    pub apps: Seq<Seq<char>>,
}

impl View for Machine {
    type V = MachineView;

    open spec fn view(&self) -> MachineView {
        MachineView {
            platform: self.platform,
            home: text::string_view(self.home),
            existing: text::views(self.existing@),
            commands: text::views(self.commands@),
            playwright_cache: text::string_view(self.playwright_cache),
            playwright_entries: text::views(self.playwright_entries@),
            apps: text::views(self.apps@),
        }
    }
}

/// A browser that was found.
#[derive(Debug, Clone)]
pub struct DetectedBrowser {
    pub label: String,
    pub path: String,
}

/// A browser that was found.
pub struct BrowserView {
    pub label: Seq<char>,
    pub path: Seq<char>,
}

impl View for DetectedBrowser {
    type V = BrowserView;

    open spec fn view(&self) -> BrowserView {
        BrowserView { label: self.label@, path: self.path@ }
    }
}

/// The browsers of a list.
pub open spec fn browser_views(browsers: Seq<DetectedBrowser>) -> Seq<BrowserView> {
    Seq::new(browsers.len(), |i: int| browsers[i]@)
}

/// A Chromium build of Playwright: the archive that it is downloaded as, and where the browser
/// may lie within.
#[derive(Debug, Clone)]
pub struct PlaywrightChromiumLayout {
    pub download_archive: String,
    pub binary_relative_paths: Vec<String>,
}

impl View for PlaywrightChromiumLayout {
    type V = LayoutView;

    open spec fn view(&self) -> LayoutView {
        LayoutView {
            download_archive: self.download_archive@,
            binary_relative_paths: text::views(self.binary_relative_paths@),
        }
    }
}

// ---------------------------------------------------------------------------------------------
// Where browsers may be
// ---------------------------------------------------------------------------------------------

/// The places below a directory of applications where browsers are installed.
pub open spec fn app_binaries() -> Seq<Seq<char>> {
    Seq::<Seq<char>>::empty()
        .push("Microsoft Edge.app/Contents/MacOS/Microsoft Edge"@)
        .push("Google Chrome.app/Contents/MacOS/Google Chrome"@)
        .push("Brave Browser.app/Contents/MacOS/Brave Browser"@)
        .push("Chromium.app/Contents/MacOS/Chromium"@)
}

/// Where browsers are installed.
pub open spec fn install_paths(m: MachineView) -> Seq<Seq<char>> {
    match m.platform.os {
        Os::Windows => Seq::<Seq<char>>::empty()
            .push("C:\\Program Files (x86)\\Microsoft\\Edge\\Application\\msedge.exe"@)
            .push("C:\\Program Files\\Microsoft\\Edge\\Application\\msedge.exe"@)
            .push("C:\\Program Files\\Google\\Chrome\\Application\\chrome.exe"@)
            .push("C:\\Program Files (x86)\\Google\\Chrome\\Application\\chrome.exe"@)
            .push("C:\\Program Files\\BraveSoftware\\Brave-Browser\\Application\\brave.exe"@)
            .push("C:\\Program Files (x86)\\BraveSoftware\\Brave-Browser\\Application\\brave.exe"@),
        Os::Macos => Seq::<Seq<char>>::empty()
            .push("/Applications/Microsoft Edge.app/Contents/MacOS/Microsoft Edge"@)
            .push("/Applications/Google Chrome.app/Contents/MacOS/Google Chrome"@)
            .push("/Applications/Brave Browser.app/Contents/MacOS/Brave Browser"@)
            .push("/Applications/Chromium.app/Contents/MacOS/Chromium"@)
            + home_binaries(m.home),
        Os::Linux => Seq::<Seq<char>>::empty()
            .push("/usr/bin/microsoft-edge"@)
            .push("/usr/bin/microsoft-edge-stable"@)
            .push("/usr/bin/google-chrome"@)
            .push("/usr/bin/google-chrome-stable"@)
            .push("/usr/bin/chromium"@)
            .push("/usr/bin/chromium-browser"@)
            .push("/usr/bin/brave-browser"@)
            .push("/snap/bin/chromium"@),
        Os::Other => Seq::empty(),
    }
}

/// Where browsers are installed for the user alone.
pub open spec fn home_binaries(home: Option<Seq<char>>) -> Seq<Seq<char>> {
    match home {
        Some(home) => {
            let apps = platform::joined_path(Os::Macos, home, "Applications"@);
            Seq::new(
                app_binaries().len(),
                |i: int| platform::joined_path(Os::Macos, apps, app_binaries()[i]),
            )
        },
        None => Seq::empty(),
    }
}

/// The commands by which browsers are started.
pub open spec fn path_names(os: Os) -> Seq<Seq<char>> {
    match os {
        Os::Windows => Seq::<Seq<char>>::empty()
            .push("msedge"@)
            .push("chrome"@)
            .push("brave"@),
        Os::Linux => Seq::<Seq<char>>::empty()
            .push("microsoft-edge"@)
            .push("microsoft-edge-stable"@)
            .push("google-chrome"@)
            .push("google-chrome-stable"@)
            .push("chromium"@)
            .push("chromium-browser"@)
            .push("brave-browser"@),
        Os::Macos => Seq::empty(),
        Os::Other => Seq::<Seq<char>>::empty()
            .push("msedge"@)
            .push("chrome"@)
            .push("chromium"@),
    }
}

/// What is started where no browser was found.
pub open spec fn default_path(os: Os) -> Seq<char> {
    match os {
        Os::Windows => "C:\\Program Files (x86)\\Microsoft\\Edge\\Application\\msedge.exe"@,
        Os::Macos => "/Applications/Microsoft Edge.app/Contents/MacOS/Microsoft Edge"@,
        Os::Linux => "google-chrome"@,
        Os::Other => "msedge"@,
    }
}

/// A Chromium build of Playwright: the archive that it is downloaded as, and where the browser
/// may lie within.
pub struct LayoutView {
    pub download_archive: Seq<char>,
    pub binary_relative_paths: Seq<Seq<char>>,
}

/// The Chromium build of Playwright for a platform.
pub open spec fn layout_for(p: Platform) -> Option<LayoutView> {
    match (p.os, p.arch) {
        (Os::Macos, Arch::Aarch64) => Some(
            LayoutView {
                download_archive: "chromium-mac-arm64"@,
                binary_relative_paths: Seq::<Seq<char>>::empty()
                    .push("chrome-mac-arm64/Google Chrome for Testing.app/Contents/MacOS/Google Chrome for Testing"@)
                    .push("chrome-mac-arm64/Chromium.app/Contents/MacOS/Chromium"@)
                    .push("chrome-mac/Google Chrome for Testing.app/Contents/MacOS/Google Chrome for Testing"@)
                    .push("chrome-mac/Chromium.app/Contents/MacOS/Chromium"@),
            },
        ),
        (Os::Macos, Arch::X86_64) => Some(
            LayoutView {
                download_archive: "chromium-mac"@,
                binary_relative_paths: Seq::<Seq<char>>::empty()
                    .push("chrome-mac/Google Chrome for Testing.app/Contents/MacOS/Google Chrome for Testing"@)
                    .push("chrome-mac/Chromium.app/Contents/MacOS/Chromium"@)
                    .push("chrome-mac-arm64/Google Chrome for Testing.app/Contents/MacOS/Google Chrome for Testing"@),
            },
        ),
        (Os::Linux, _) => Some(
            LayoutView {
                download_archive: "chromium-linux"@,
                binary_relative_paths: Seq::<Seq<char>>::empty()
                    .push("chrome-linux/chrome"@),
            },
        ),
        (Os::Windows, _) => Some(
            LayoutView {
                download_archive: "chromium-win64"@,
                binary_relative_paths: Seq::<Seq<char>>::empty()
                    .push("chrome-win/chrome.exe"@),
            },
        ),
        _ => None,
    }
}

/// Where Playwright keeps its browsers: below the user's cache directory, which a variable may
/// place elsewhere.
pub open spec fn cache_dir_of(
    os: Os,
    variable: Option<Seq<char>>,
    cache_dir: Option<Seq<char>>,
) -> Option<Seq<char>> {
    let base = match os {
        Os::Macos => cache_dir,
        Os::Linux => if variable is Some {
            variable
        } else {
            cache_dir
        },
        Os::Windows => variable,
        Os::Other => None,
    };
    match base {
        Some(dir) => Some(platform::joined_path(os, dir, "ms-playwright"@)),
        None => None,
    }
}

/// The number of a Playwright build, by the name of its directory.
pub open spec fn revision(name: Seq<char>) -> int {
    if text::begins_with(name, "chromium-"@) {
        match text::within(
            text::unsigned_value(name.skip("chromium-"@.len() as int)),
            0,
            u64::MAX as int,
        ) {
            Some(n) => n,
            None => 0,
        }
    } else {
        0
    }
}

/// The name is that of a directory with a Chromium build.
pub open spec fn chromium_dir(name: Seq<char>) -> bool {
    text::begins_with(name, "chromium-"@) && !text::occurs_in(name, "headless_shell"@)
}

/// The place of a build among others that are ordered from the latest to the oldest: behind
/// those that are not older.
pub open spec fn place_of(sorted: Seq<Seq<char>>, name: Seq<char>) -> int
    decreases sorted.len(),
{
    if sorted.len() == 0 || revision(sorted.last()) >= revision(name) {
        sorted.len() as int
    } else {
        place_of(sorted.drop_last(), name)
    }
}

/// The directories with Chromium builds, from the latest build to the oldest; those of one number
/// stay in order.
pub open spec fn latest_first(names: Seq<Seq<char>>) -> Seq<Seq<char>>
    decreases names.len(),
{
    if names.len() == 0 {
        Seq::empty()
    } else {
        let before = latest_first(names.drop_last());
        if chromium_dir(names.last()) {
            before.insert(place_of(before, names.last()), names.last())
        } else {
            before
        }
    }
}

/// The path exists.
pub open spec fn is_there(m: MachineView, path: Seq<char>) -> bool {
    m.existing.contains(path)
}

/// The path leads to a command: a mere name is looked up among the commands, any other path must
/// exist.
pub open spec fn command(m: MachineView, path: Seq<char>) -> bool {
    if platform::bare_name(m.platform.os, path) {
        m.commands.contains(path)
    } else {
        is_there(m, path)
    }
}

/// The path can be started.
pub open spec fn usable(m: MachineView, path: Seq<char>) -> bool {
    is_there(m, path) || command(m, path)
}

/// The first of the paths that exists below a directory.
pub open spec fn first_below(m: MachineView, dir: Seq<char>, paths: Seq<Seq<char>>) -> Option<
    Seq<char>,
>
    decreases paths.len(),
{
    if paths.len() == 0 {
        None
    } else {
        let candidate = platform::joined_path(m.platform.os, dir, paths[0]);
        if is_there(m, candidate) {
            Some(candidate)
        } else {
            first_below(m, dir, paths.skip(1))
        }
    }
}

/// The browser of a Playwright build.
pub open spec fn playwright_binary(m: MachineView, dir: Seq<char>) -> Option<Seq<char>> {
    match layout_for(m.platform) {
        Some(layout) => first_below(m, dir, layout.binary_relative_paths),
        None => None,
    }
}

/// How a browser is called, by its path.
pub open spec fn label_of(os: Os, path: Seq<char>) -> Seq<char> {
    let file = match platform::name_of(os, path) {
        Some(name) => name,
        None => "Chromium"@,
    };
    if text::occurs_in(path, "ms-playwright"@) {
        file + " (Playwright)"@
    } else if file == "Brave Browser"@ {
        "Brave"@
    } else if file == "Chromium"@ || file == "Google Chrome for Testing"@ {
        file + " (system)"@
    } else {
        file
    }
}

/// The program within an application's bundle.
pub open spec fn bundle_binary(app: Seq<char>) -> Seq<char> {
    let name = match platform::name_of(Os::Macos, app) {
        Some(name) => platform::stem(name),
        None => "App"@,
    };
    platform::joined_path(Os::Macos, app, "Contents/MacOS/"@ + name)
}

/// The browsers among installed ones.
pub open spec fn present(m: MachineView, paths: Seq<Seq<char>>) -> Seq<BrowserView>
    decreases paths.len(),
{
    if paths.len() == 0 {
        Seq::empty()
    } else {
        let before = present(m, paths.drop_last());
        if is_there(m, paths.last()) {
            before.push(
                BrowserView { label: label_of(m.platform.os, paths.last()), path: paths.last() },
            )
        } else {
            before
        }
    }
}

/// The browsers among commands.
pub open spec fn on_path(m: MachineView, names: Seq<Seq<char>>) -> Seq<BrowserView>
    decreases names.len(),
{
    if names.len() == 0 {
        Seq::empty()
    } else {
        let before = on_path(m, names.drop_last());
        if command(m, names.last()) {
            before.push(BrowserView { label: names.last() + " (PATH)"@, path: names.last() })
        } else {
            before
        }
    }
}

/// The browsers among directories of Playwright.
pub open spec fn in_dirs(m: MachineView, cache: Seq<char>, dirs: Seq<Seq<char>>) -> Seq<BrowserView>
    decreases dirs.len(),
{
    if dirs.len() == 0 {
        Seq::empty()
    } else {
        let before = in_dirs(m, cache, dirs.drop_last());
        let dir = platform::joined_path(m.platform.os, cache, dirs.last());
        match playwright_binary(m, dir) {
            Some(path) => before.push(BrowserView { label: "Playwright "@ + dirs.last(), path }),
            None => before,
        }
    }
}

/// The browsers of Playwright, the latest first.
pub open spec fn playwright_browsers(m: MachineView) -> Seq<BrowserView> {
    match m.playwright_cache {
        Some(cache) => in_dirs(m, cache, latest_first(m.playwright_entries)),
        None => Seq::empty(),
    }
}

/// The programs within the bundles that a list of lines names.
pub open spec fn bundle_binaries(apps: Seq<Seq<char>>) -> Seq<Seq<char>>
    decreases apps.len(),
{
    if apps.len() == 0 {
        Seq::empty()
    } else {
        let before = bundle_binaries(apps.drop_last());
        let app = text::trimmed(apps.last());
        if app.len() == 0 {
            before
        } else {
            before.push(bundle_binary(app))
        }
    }
}

/// The browsers that Spotlight finds.
pub open spec fn spotlight_browsers(m: MachineView) -> Seq<BrowserView> {
    if m.platform.os is Macos {
        present(m, bundle_binaries(m.apps))
    } else {
        Seq::empty()
    }
}

/// `found` leads to a browser of the list.
pub open spec fn listed(os: Os, browsers: Seq<BrowserView>, path: Seq<char>) -> bool {
    exists|i: int| 0 <= i < browsers.len() && platform::same_place(
        os,
        (#[trigger] browsers[i]).path,
        path,
    )
}

/// The browsers without those whose path was listed before.
pub open spec fn unique(os: Os, browsers: Seq<BrowserView>) -> Seq<BrowserView>
    decreases browsers.len(),
{
    if browsers.len() == 0 {
        Seq::empty()
    } else {
        let before = unique(os, browsers.drop_last());
        if listed(os, before, browsers.last().path) {
            before
        } else {
            before.push(browsers.last())
        }
    }
}

/// All that was found, in order.
pub open spec fn all_found(m: MachineView) -> Seq<BrowserView> {
    present(m, install_paths(m)) + on_path(m, path_names(m.platform.os)) + playwright_browsers(m)
        + spotlight_browsers(m)
}

/// The browsers of a machine.
pub open spec fn detected(m: MachineView) -> Seq<BrowserView> {
    unique(m.platform.os, all_found(m))
}

/// The browser that is taken where none is configured.
pub open spec fn first_detected(m: MachineView) -> Option<Seq<char>> {
    if detected(m).len() > 0 {
        Some(detected(m)[0].path)
    } else {
        None
    }
}

/// The browser that is started: the configured one, if it can be started; else the first that was
/// found; else the configured one all the same, or the default.
pub open spec fn resolved(m: MachineView, configured: Option<Seq<char>>) -> Seq<char> {
    match (configured, first_detected(m)) {
        (Some(path), None) => path,
        (Some(path), Some(found)) => if usable(m, path) {
            path
        } else {
            found
        },
        (None, Some(found)) => found,
        (None, None) => default_path(m.platform.os),
    }
}

// ---------------------------------------------------------------------------------------------
// Carrying it out
// ---------------------------------------------------------------------------------------------

/// Where browsers are installed below a directory of applications.
fn app_binary_list() -> (paths: Vec<String>)
    ensures
        text::views(paths@) == app_binaries(),
{
    let mut paths = no_texts();
    push_text(&mut paths, "Microsoft Edge.app/Contents/MacOS/Microsoft Edge");
    push_text(&mut paths, "Google Chrome.app/Contents/MacOS/Google Chrome");
    push_text(&mut paths, "Brave Browser.app/Contents/MacOS/Brave Browser");
    push_text(&mut paths, "Chromium.app/Contents/MacOS/Chromium");
    paths
}

/// Where browsers are installed.
pub fn chromium_install_paths(machine: &Machine) -> (paths: Vec<String>)
    ensures
        text::views(paths@) == install_paths(machine@),
{
    let mut paths = no_texts();
    match machine.platform.os {
        Os::Windows => {
            push_text(&mut paths, "C:\\Program Files (x86)\\Microsoft\\Edge\\Application\\msedge.exe");
            push_text(&mut paths, "C:\\Program Files\\Microsoft\\Edge\\Application\\msedge.exe");
            push_text(&mut paths, "C:\\Program Files\\Google\\Chrome\\Application\\chrome.exe");
            push_text(&mut paths, "C:\\Program Files (x86)\\Google\\Chrome\\Application\\chrome.exe");
            push_text(&mut paths, "C:\\Program Files\\BraveSoftware\\Brave-Browser\\Application\\brave.exe");
            push_text(&mut paths, "C:\\Program Files (x86)\\BraveSoftware\\Brave-Browser\\Application\\brave.exe");
        },
        Os::Macos => {
            push_text(&mut paths, "/Applications/Microsoft Edge.app/Contents/MacOS/Microsoft Edge");
            push_text(&mut paths, "/Applications/Google Chrome.app/Contents/MacOS/Google Chrome");
            push_text(&mut paths, "/Applications/Brave Browser.app/Contents/MacOS/Brave Browser");
            push_text(&mut paths, "/Applications/Chromium.app/Contents/MacOS/Chromium");
            if let Some(home) = &machine.home {
                let apps = join_path(Os::Macos, home.as_str(), "Applications");
                let below = app_binary_list();
                let ghost system = text::views(paths@);
                let ghost all = home_binaries(Some(home@));
                assert(system + all.take(0) =~= system);
                for i in 0..below.len()
                    invariant
                        text::views(below@) == app_binaries(),
                        apps@ == platform::joined_path(Os::Macos, home@, "Applications"@),
                        all == home_binaries(Some(home@)),
                        text::views(paths@) == system + all.take(i as int),
                {
                    assert(text::views(below@)[i as int] == below@[i as int]@);
                    assert(text::views(below@).len() == below@.len());
                    push_text(
                        &mut paths,
                        join_path(Os::Macos, apps.as_str(), below[i].as_str()).as_str(),
                    );
                    assert(text::views(paths@) =~= system + all.take(i + 1));
                }
                assert(text::views(below@).len() == below@.len());
                assert(all.take(all.len() as int) =~= all);
            } else {
                assert(text::views(paths@) =~= text::views(paths@) + home_binaries(None));
            }
        },
        Os::Linux => {
            push_text(&mut paths, "/usr/bin/microsoft-edge");
            push_text(&mut paths, "/usr/bin/microsoft-edge-stable");
            push_text(&mut paths, "/usr/bin/google-chrome");
            push_text(&mut paths, "/usr/bin/google-chrome-stable");
            push_text(&mut paths, "/usr/bin/chromium");
            push_text(&mut paths, "/usr/bin/chromium-browser");
            push_text(&mut paths, "/usr/bin/brave-browser");
            push_text(&mut paths, "/snap/bin/chromium");
        },
        Os::Other => {},
    }
    paths
}

/// The commands by which browsers are started.
pub fn chromium_path_names(os: Os) -> (names: Vec<String>)
    ensures
        text::views(names@) == path_names(os),
{
    let mut names = no_texts();
    match os {
        Os::Windows => {
            push_text(&mut names, "msedge");
            push_text(&mut names, "chrome");
            push_text(&mut names, "brave");
        },
        Os::Linux => {
            push_text(&mut names, "microsoft-edge");
            push_text(&mut names, "microsoft-edge-stable");
            push_text(&mut names, "google-chrome");
            push_text(&mut names, "google-chrome-stable");
            push_text(&mut names, "chromium");
            push_text(&mut names, "chromium-browser");
            push_text(&mut names, "brave-browser");
        },
        Os::Macos => {},
        Os::Other => {
            push_text(&mut names, "msedge");
            push_text(&mut names, "chrome");
            push_text(&mut names, "chromium");
        },
    }
    names
}

/// What is started where no browser was found.
pub fn default_chromium_path(os: Os) -> (path: String)
    ensures
        path@ == default_path(os),
{
    match os {
        Os::Windows => "C:\\Program Files (x86)\\Microsoft\\Edge\\Application\\msedge.exe".to_owned(),
        Os::Macos => "/Applications/Microsoft Edge.app/Contents/MacOS/Microsoft Edge".to_owned(),
        Os::Linux => "google-chrome".to_owned(),
        Os::Other => "msedge".to_owned(),
    }
}

/// The Chromium build of Playwright for a platform. The archive that is downloaded and the
/// directory within it have different names.
pub fn playwright_chromium_layout(platform: Platform) -> (layout: Result<
    PlaywrightChromiumLayout,
    String,
>)
    ensures
        match layout {
            Ok(layout) => layout_for(platform) == Some(layout@),
            Err(e) => layout_for(platform) is None && e@
                == "unsupported platform for Playwright Chromium"@,
        },
{
    let mut paths = no_texts();
    match (platform.os, platform.arch) {
        (Os::Macos, Arch::Aarch64) => {
            push_text(&mut paths, "chrome-mac-arm64/Google Chrome for Testing.app/Contents/MacOS/Google Chrome for Testing");
            push_text(&mut paths, "chrome-mac-arm64/Chromium.app/Contents/MacOS/Chromium");
            push_text(&mut paths, "chrome-mac/Google Chrome for Testing.app/Contents/MacOS/Google Chrome for Testing");
            push_text(&mut paths, "chrome-mac/Chromium.app/Contents/MacOS/Chromium");
            Ok(
                PlaywrightChromiumLayout {
                    download_archive: "chromium-mac-arm64".to_owned(),
                    binary_relative_paths: paths,
                },
            )
        },
        (Os::Macos, Arch::X86_64) => {
            push_text(&mut paths, "chrome-mac/Google Chrome for Testing.app/Contents/MacOS/Google Chrome for Testing");
            push_text(&mut paths, "chrome-mac/Chromium.app/Contents/MacOS/Chromium");
            push_text(&mut paths, "chrome-mac-arm64/Google Chrome for Testing.app/Contents/MacOS/Google Chrome for Testing");
            Ok(
                PlaywrightChromiumLayout {
                    download_archive: "chromium-mac".to_owned(),
                    binary_relative_paths: paths,
                },
            )
        },
        (Os::Linux, _) => {
            push_text(&mut paths, "chrome-linux/chrome");
            Ok(
                PlaywrightChromiumLayout {
                    download_archive: "chromium-linux".to_owned(),
                    binary_relative_paths: paths,
                },
            )
        },
        (Os::Windows, _) => {
            push_text(&mut paths, "chrome-win/chrome.exe");
            Ok(
                PlaywrightChromiumLayout {
                    download_archive: "chromium-win64".to_owned(),
                    binary_relative_paths: paths,
                },
            )
        },
        _ => Err("unsupported platform for Playwright Chromium".to_owned()),
    }
}

/// Where the browser may lie within a Playwright build.
pub fn playwright_chromium_relative_paths(platform: Platform) -> (paths: Vec<String>)
    ensures
        text::views(paths@) == match layout_for(platform) {
            Some(layout) => layout.binary_relative_paths,
            None => Seq::empty(),
        },
{
    match playwright_chromium_layout(platform) {
        Ok(layout) => layout.binary_relative_paths,
        Err(_) => no_texts(),
    }
}

/// Where Playwright keeps its browsers, by the variable that may place it (`XDG_CACHE_HOME` on
/// Linux, `LOCALAPPDATA` on Windows) and the user's cache directory.
pub fn playwright_cache_dir(os: Os, variable: Option<&str>, cache_dir: Option<&str>) -> (dir: Option<
    String,
>)
    ensures
        text::string_view(dir) == cache_dir_of(
            os,
            text::text_view(variable),
            text::text_view(cache_dir),
        ),
{
    let base = match os {
        Os::Macos => cache_dir,
        Os::Linux => if variable.is_some() {
            variable
        } else {
            cache_dir
        },
        Os::Windows => variable,
        Os::Other => None,
    };
    match base {
        Some(dir) => Some(join_path(os, dir, "ms-playwright")),
        None => None,
    }
}

/// The number of a Playwright build, by the name of its directory.
fn playwright_revision(name: &str) -> (n: u64)
    ensures
        n == revision(name@),
{
    if !starts_with(name, "chromium-") {
        return 0;
    }
    let from = "chromium-".unicode_len();
    let to = name.unicode_len();
    let digits = text::part_of(name, from, to);
    assert(digits@ =~= name@.skip("chromium-"@.len() as int));
    match parse_unsigned(digits.as_str(), u64::MAX) {
        Some(n) => n,
        None => 0,
    }
}

/// The directories with Chromium builds, from the latest build to the oldest.
pub fn playwright_dirs(names: &[String]) -> (dirs: Vec<String>)
    ensures
        text::views(dirs@) == latest_first(text::views(names@)),
{
    let ghost all = text::views(names@);
    let mut dirs = no_texts();
    assert(all.take(0) =~= Seq::empty());
    for i in 0..names.len()
        invariant
            all == text::views(names@),
            text::views(dirs@) == latest_first(all.take(i as int)),
    {
        let ghost before = text::views(dirs@);
        proof {
            assert(all.take(i + 1).drop_last() =~= all.take(i as int));
            assert(all.take(i + 1).last() == names@[i as int]@);
        }
        let name = names[i].as_str();
        if starts_with(name, "chromium-") && !contains_text(name, "headless_shell") {
            let number = playwright_revision(name);
            let mut at: usize = dirs.len();
            assert(before.take(at as int) =~= before);
            assert(before.len() == dirs@.len());
            while at > 0 && playwright_revision(dirs[at - 1].as_str()) < number
                invariant
                    at <= dirs@.len(),
                    before == text::views(dirs@),
                    number == revision(name@),
                    place_of(before, name@) == place_of(before.take(at as int), name@),
                decreases at,
            {
                assert(before.take(at as int).last() == dirs@[at - 1]@);
                assert(before.take(at as int).drop_last() =~= before.take(at - 1));
                at = at - 1;
            }
            proof {
                if at > 0 {
                    assert(before.take(at as int).last() == dirs@[at - 1]@);
                }
            }
            dirs.insert(at, name.to_owned());
            assert(text::views(dirs@) =~= before.insert(at as int, name@));
        }
    }
    assert(all.take(all.len() as int) =~= all);
    assert(all.len() == names@.len());
    dirs
}

/// How a browser is called, by its path.
pub fn system_browser_label(os: Os, path: &str) -> (label: String)
    ensures
        label@ == label_of(os, path@),
{
    let file = match file_name(os, path) {
        Some(name) => name,
        None => "Chromium".to_owned(),
    };
    let mut label = file.clone();
    if contains_text(path, "ms-playwright") {
        label.append(" (Playwright)");
        return label;
    }
    if same_text(file.as_str(), "Brave Browser") {
        return "Brave".to_owned();
    }
    if same_text(file.as_str(), "Chromium") || same_text(
        file.as_str(),
        "Google Chrome for Testing",
    ) {
        label.append(" (system)");
    }
    label
}

/// The program within an application's bundle.
pub fn macos_app_binary_path(app_path: &str) -> (path: String)
    ensures
        path@ == bundle_binary(app_path@),
{
    let name = match file_name(Os::Macos, app_path) {
        Some(name) => file_stem(name.as_str()),
        None => "App".to_owned(),
    };
    let mut inner = "Contents/MacOS/".to_owned();
    inner.append(name.as_str());
    join_path(Os::Macos, app_path, inner.as_str())
}

/// The programs within the bundles that a list of lines names.
fn app_binary_paths(apps: &[String]) -> (paths: Vec<String>)
    ensures
        text::views(paths@) == bundle_binaries(text::views(apps@)),
{
    let ghost all = text::views(apps@);
    let mut paths = no_texts();
    assert(all.take(0) =~= Seq::empty());
    for i in 0..apps.len()
        invariant
            all == text::views(apps@),
            text::views(paths@) == bundle_binaries(all.take(i as int)),
    {
        proof {
            assert(all.take(i + 1).drop_last() =~= all.take(i as int));
            assert(all.take(i + 1).last() == apps@[i as int]@);
        }
        let app = trim_text(apps[i].as_str());
        if app.as_str().unicode_len() > 0 {
            push_text(&mut paths, macos_app_binary_path(app.as_str()).as_str());
        }
    }
    assert(all.take(all.len() as int) =~= all);
    assert(all.len() == apps@.len());
    paths
}

impl Machine {
    /// Whether the path exists.
    pub fn has_path(&self, path: &str) -> (b: bool)
        ensures
            b == is_there(self@, path@),
    {
        holds(self.existing.as_slice(), path)
    }

    /// Whether the path leads to a command.
    pub fn command_exists(&self, path: &str) -> (b: bool)
        ensures
            b == command(self@, path@),
    {
        if is_bare_name(self.platform.os, path) {
            holds(self.commands.as_slice(), path)
        } else {
            self.has_path(path)
        }
    }

    /// Whether the path can be started.
    pub fn browser_path_usable(&self, path: &str) -> (b: bool)
        ensures
            b == usable(self@, path@),
    {
        self.has_path(path) || self.command_exists(path)
    }

    /// The browsers among installed ones.
    fn present_browsers(&self, paths: &[String]) -> (browsers: Vec<DetectedBrowser>)
        ensures
            browser_views(browsers@) == present(self@, text::views(paths@)),
    {
        let ghost all = text::views(paths@);
        let mut browsers: Vec<DetectedBrowser> = Vec::new();
        assert(all.take(0) =~= Seq::empty());
        assert(browser_views(browsers@) =~= Seq::empty());
        for i in 0..paths.len()
            invariant
                all == text::views(paths@),
                browser_views(browsers@) == present(self@, all.take(i as int)),
        {
            let ghost before = browser_views(browsers@);
            proof {
                assert(all.take(i + 1).drop_last() =~= all.take(i as int));
                assert(all.take(i + 1).last() == paths@[i as int]@);
            }
            let path = paths[i].as_str();
            if self.has_path(path) {
                let browser = DetectedBrowser {
                    label: system_browser_label(self.platform.os, path),
                    path: path.to_owned(),
                };
                browsers.push(browser);
                assert(browser_views(browsers@) =~= before.push(browser@));
            }
        }
        assert(all.take(all.len() as int) =~= all);
        assert(all.len() == paths@.len());
        browsers
    }

    /// The browsers among commands.
    fn path_browsers(&self) -> (browsers: Vec<DetectedBrowser>)
        ensures
            browser_views(browsers@) == on_path(self@, path_names(self.platform.os)),
    {
        let names = chromium_path_names(self.platform.os);
        let ghost all = text::views(names@);
        let mut browsers: Vec<DetectedBrowser> = Vec::new();
        assert(all.take(0) =~= Seq::empty());
        assert(browser_views(browsers@) =~= Seq::empty());
        for i in 0..names.len()
            invariant
                all == text::views(names@),
                browser_views(browsers@) == on_path(self@, all.take(i as int)),
        {
            let ghost before = browser_views(browsers@);
            proof {
                assert(all.take(i + 1).drop_last() =~= all.take(i as int));
                assert(all.take(i + 1).last() == names@[i as int]@);
            }
            let name = names[i].as_str();
            if self.command_exists(name) {
                let mut label = name.to_owned();
                label.append(" (PATH)");
                let browser = DetectedBrowser { label, path: name.to_owned() };
                browsers.push(browser);
                assert(browser_views(browsers@) =~= before.push(browser@));
            }
        }
        assert(all.take(all.len() as int) =~= all);
        assert(all.len() == names@.len());
        browsers
    }

    /// The browsers of Playwright, the latest first.
    pub fn discover_playwright_chromium_binaries(&self) -> (browsers: Vec<DetectedBrowser>)
        ensures
            browser_views(browsers@) == playwright_browsers(self@),
    {
        let mut browsers: Vec<DetectedBrowser> = Vec::new();
        assert(browser_views(browsers@) =~= Seq::empty());
        if let Some(cache) = &self.playwright_cache {
            let dirs = playwright_dirs(self.playwright_entries.as_slice());
            let ghost all = text::views(dirs@);
            assert(all.take(0) =~= Seq::empty());
            for i in 0..dirs.len()
                invariant
                    all == text::views(dirs@),
                    browser_views(browsers@) == in_dirs(self@, cache@, all.take(i as int)),
            {
                let ghost before = browser_views(browsers@);
                proof {
                    assert(all.take(i + 1).drop_last() =~= all.take(i as int));
                    assert(all.take(i + 1).last() == dirs@[i as int]@);
                }
                let dir = join_path(self.platform.os, cache.as_str(), dirs[i].as_str());
                if let Some(path) = playwright_chromium_binary_in_dir(self, dir.as_str()) {
                    let mut label = "Playwright ".to_owned();
                    label.append(dirs[i].as_str());
                    let browser = DetectedBrowser { label, path };
                    browsers.push(browser);
                    assert(browser_views(browsers@) =~= before.push(browser@));
                }
            }
            assert(all.take(all.len() as int) =~= all);
            assert(all.len() == dirs@.len());
        }
        browsers
    }

    /// The browsers that Spotlight finds.
    fn discover_chromium_via_mdfind_all(&self) -> (browsers: Vec<DetectedBrowser>)
        ensures
            browser_views(browsers@) == spotlight_browsers(self@),
    {
        if matches!(self.platform.os, Os::Macos) {
            self.present_browsers(app_binary_paths(self.apps.as_slice()).as_slice())
        } else {
            let browsers: Vec<DetectedBrowser> = Vec::new();
            assert(browser_views(browsers@) =~= Seq::empty());
            browsers
        }
    }
}

/// The browser of the Playwright build in a directory.
pub fn playwright_chromium_binary_in_dir(machine: &Machine, dir: &str) -> (path: Option<String>)
    ensures
        text::string_view(path) == playwright_binary(machine@, dir@),
{
    let layout = match playwright_chromium_layout(machine.platform) {
        Ok(layout) => layout,
        Err(_) => return None,
    };
    let paths = layout.binary_relative_paths;
    let ghost all = text::views(paths@);
    assert(all.skip(0) =~= all);
    for i in 0..paths.len()
        invariant
            all == text::views(paths@),
            layout_for(machine.platform) matches Some(l) && l.binary_relative_paths == all,
            first_below(machine@, dir@, all) == first_below(machine@, dir@, all.skip(i as int)),
    {
        proof {
            assert(all.skip(i as int)[0] == paths@[i as int]@);
            assert(all.skip(i as int).skip(1) =~= all.skip(i + 1));
        }
        let candidate = join_path(machine.platform.os, dir, paths[i].as_str());
        if machine.has_path(candidate.as_str()) {
            return Some(candidate);
        }
    }
    assert(all.len() == paths@.len());
    None
}

/// Appends the browsers whose path is not listed.
fn add_unlisted(os: Os, browsers: &mut Vec<DetectedBrowser>, more: Vec<DetectedBrowser>, Ghost(
    before,
): Ghost<Seq<BrowserView>>)
    requires
        browser_views(old(browsers)@) == unique(os, before),
    ensures
        browser_views(final(browsers)@) == unique(os, before + browser_views(more@)),
{
    let ghost all = browser_views(more@);
    assert(before + all.take(0) =~= before);
    for browser in it: more
        invariant
            it.seq() == more@,
            all == browser_views(more@),
            browser_views(browsers@) == unique(os, before + all.take(it.index() as int)),
    {
        let ghost i = it.index() as int;
        let ghost kept = browser_views(browsers@);
        proof {
            assert((before + all.take(i + 1)).drop_last() =~= before + all.take(i));
            assert((before + all.take(i + 1)).last() == browser@);
        }
        if !is_listed(os, browsers.as_slice(), browser.path.as_str()) {
            browsers.push(browser);
            assert(browser_views(browsers@) =~= kept.push(browser@));
        }
    }
    assert(all.take(all.len() as int) =~= all);
}

/// Whether a path leads to a browser of the list.
fn is_listed(os: Os, browsers: &[DetectedBrowser], path: &str) -> (b: bool)
    ensures
        b == listed(os, browser_views(browsers@), path@),
{
    for i in 0..browsers.len()
        invariant
            forall|j: int|
                0 <= j < i ==> !platform::same_place(
                    os,
                    (#[trigger] browser_views(browsers@)[j]).path,
                    path@,
                ),
    {
        assert(browser_views(browsers@)[i as int] == browsers@[i as int]@);
        if same_path(os, browsers[i].path.as_str(), path) {
            return true;
        }
    }
    assert(browser_views(browsers@).len() == browsers@.len());
    false
}

/// The Chromium browsers of a machine: installed ones, commands, those of Playwright and those
/// that Spotlight finds, each path once.
pub fn list_detected_browsers(machine: &Machine) -> (browsers: Vec<DetectedBrowser>)
    ensures
        browser_views(browsers@) == detected(machine@),
{
    let os = machine.platform.os;
    let mut browsers: Vec<DetectedBrowser> = Vec::new();
    assert(browser_views(browsers@) =~= Seq::empty());
    let installed = machine.present_browsers(chromium_install_paths(machine).as_slice());
    let ghost a = browser_views(installed@);
    let on_path_list = machine.path_browsers();
    let ghost b = browser_views(on_path_list@);
    let playwright = machine.discover_playwright_chromium_binaries();
    let ghost c = browser_views(playwright@);
    let spotlight = machine.discover_chromium_via_mdfind_all();
    assert(Seq::<BrowserView>::empty() + a =~= a);
    add_unlisted(os, &mut browsers, installed, Ghost(Seq::empty()));
    add_unlisted(os, &mut browsers, on_path_list, Ghost(a));
    add_unlisted(os, &mut browsers, playwright, Ghost(a + b));
    add_unlisted(os, &mut browsers, spotlight, Ghost(a + b + c));
    browsers
}

/// The first browser that was found.
pub fn discover_chromium_browser_if_present(machine: &Machine) -> (path: Option<String>)
    ensures
        text::string_view(path) == first_detected(machine@),
{
    let browsers = list_detected_browsers(machine);
    assert(browser_views(browsers@).len() == browsers@.len());
    if browsers.len() > 0 {
        assert(browser_views(browsers@)[0] == browsers@[0]@);
        Some(browsers[0].path.clone())
    } else {
        None
    }
}

/// The first browser that was found, or the default.
pub fn discover_chromium_browser(machine: &Machine) -> (path: String)
    ensures
        path@ == resolved(machine@, None),
{
    match discover_chromium_browser_if_present(machine) {
        Some(path) => path,
        None => default_chromium_path(machine.platform.os),
    }
}

/// The browser that is started: the configured one, if it can be started; else the first that was
/// found; else the configured one all the same, or the default.
pub fn resolve_browser_executable(machine: &Machine, configured: Option<&str>) -> (path: String)
    ensures
        path@ == resolved(machine@, text::text_view(configured)),
{
    match configured {
        Some(path) => if machine.browser_path_usable(path) {
            path.to_owned()
        } else {
            match discover_chromium_browser_if_present(machine) {
                Some(found) => found,
                None => path.to_owned(),
            }
        },
        None => discover_chromium_browser(machine),
    }
}

/// The browser that is started by the settings.
pub fn browser_executable(machine: &Machine, config: &AppConfig) -> (path: String)
    ensures
        path@ == resolved(machine@, config@.edge.executable),
{
    match &config.edge.executable {
        Some(path) => resolve_browser_executable(machine, Some(path.as_str())),
        None => resolve_browser_executable(machine, None),
    }
}

/// The browser that is started where none is configured.
pub fn edge_executable_path(machine: &Machine) -> (path: String)
    ensures
        path@ == resolved(machine@, None),
{
    discover_chromium_browser(machine)
}

/// The browser that is started by the settings.
pub fn edge_executable_path_for(machine: &Machine, config: &AppConfig) -> (path: String)
    ensures
        path@ == resolved(machine@, config@.edge.executable),
{
    browser_executable(machine, config)
}

/// Whether a browser can be started where none is configured.
pub fn edge_available(machine: &Machine) -> (b: bool)
    ensures
        b == usable(machine@, resolved(machine@, None)),
{
    machine.browser_path_usable(resolve_browser_executable(machine, None).as_str())
}

/// Whether the browser of the settings, or one in its place, can be started.
pub fn browser_available(machine: &Machine, config: &AppConfig) -> (b: bool)
    ensures
        b == usable(machine@, resolved(machine@, config@.edge.executable)),
{
    machine.browser_path_usable(browser_executable(machine, config).as_str())
}

// ---------------------------------------------------------------------------------------------
// Starting a browser
// ---------------------------------------------------------------------------------------------

/// The page that a browser is started with.
pub const CHAT_PAGE: &'static str = "https://m365.cloud.microsoft/chat";

/// How a browser is started: its program, its profile, which is made if need be, and what it is
/// told.
pub struct BrowserLaunch {
    pub program: String,
    pub profile_dir: String,
    pub args: Vec<String>,
}

/// How a browser is started.
pub struct LaunchView {
    pub program: Seq<char>,
    pub profile_dir: Seq<char>,
    pub args: Seq<Seq<char>>,
}

impl View for BrowserLaunch {
    type V = LaunchView;

    open spec fn view(&self) -> LaunchView {
        LaunchView {
            program: self.program@,
            profile_dir: self.profile_dir@,
            args: text::views(self.args@),
        }
    }
}

/// What a browser is told: where to open its debugging port, which profile to use, to skip its
/// welcome, to show no window where it runs in the background, and the page to open.
pub open spec fn launch_args(cdp_port: u16, profile_dir: Seq<char>, headless: bool) -> Seq<
    Seq<char>,
> {
    let first = Seq::<Seq<char>>::empty()
        .push("--remote-debugging-port="@ + text::decimal(cdp_port as int))
        .push("--user-data-dir="@ + profile_dir)
        .push("--no-first-run"@);
    let second = if headless {
        first.push("--headless=new"@)
    } else {
        first
    };
    second.push(CHAT_PAGE@)
}

/// How a browser is started with a profile.
pub open spec fn launch_of(
    program: Seq<char>,
    cdp_port: u16,
    profile_dir: Seq<char>,
    headless: bool,
) -> LaunchView {
    LaunchView { program, profile_dir, args: launch_args(cdp_port, profile_dir, headless) }
}

/// How the browser of the settings is started: without a window once a token is there, where the
/// settings say so.
pub open spec fn config_launch(
    m: MachineView,
    c: config::ConfigView,
    authenticated: bool,
) -> LaunchView {
    launch_of(
        resolved(m, c.edge.executable),
        c.edge.cdp_port,
        config::profile_of(c, m.home, m.platform.os),
        c.edge.headless_when_authenticated && authenticated,
    )
}

/// How a browser is started with a profile.
fn debug_browser(program: String, cdp_port: u16, profile_dir: String, headless: bool) -> (launch:
    BrowserLaunch)
    ensures
        launch@ == launch_of(program@, cdp_port, profile_dir@, headless),
{
    let mut port_arg = "--remote-debugging-port=".to_owned();
    port_arg.append(unsigned_text(cdp_port as u64).as_str());
    let mut dir_arg = "--user-data-dir=".to_owned();
    dir_arg.append(profile_dir.as_str());
    let mut args = no_texts();
    push_text(&mut args, port_arg.as_str());
    push_text(&mut args, dir_arg.as_str());
    push_text(&mut args, "--no-first-run");
    if headless {
        push_text(&mut args, "--headless=new");
    }
    push_text(&mut args, CHAT_PAGE);
    BrowserLaunch { program, profile_dir, args }
}

/// The user's home directory as a text.
fn home_of(machine: &Machine) -> (home: Option<&str>)
    ensures
        text::text_view(home) == machine@.home,
{
    match &machine.home {
        Some(home) => Some(home.as_str()),
        None => None,
    }
}

/// How the browser of the settings is started; `authenticated` says whether a valid token is
/// there.
pub fn launch_debug_browser(machine: &Machine, config: &AppConfig, authenticated: bool) -> (launch:
    BrowserLaunch)
    ensures
        launch@ == config_launch(machine@, config@, authenticated),
{
    let program = browser_executable(machine, config);
    let profile_dir = config.edge_profile_dir(home_of(machine), machine.platform.os);
    let headless = config.edge.headless_when_authenticated && authenticated;
    debug_browser(program, config.edge.cdp_port, profile_dir, headless)
}

/// How the browser of the settings is started; `authenticated` says whether a valid token is
/// there.
pub fn launch_debug_edge(machine: &Machine, config: &AppConfig, authenticated: bool) -> (launch:
    BrowserLaunch)
    ensures
        launch@ == config_launch(machine@, config@, authenticated),
{
    launch_debug_browser(machine, config, authenticated)
}

/// How a browser is started, with a window, on the given port.
pub fn launch_debug_browser_on_port(
    machine: &Machine,
    cdp_port: u16,
    profile_dir: Option<String>,
    executable: Option<&str>,
) -> (launch: BrowserLaunch)
    ensures
        launch@ == launch_of(
            resolved(machine@, text::text_view(executable)),
            cdp_port,
            match text::string_view(profile_dir) {
                Some(dir) => dir,
                None => config::profile_below(machine@.home, machine@.platform.os),
            },
            false,
        ),
{
    let dir = match profile_dir {
        Some(dir) => dir,
        None => default_profile_dir(home_of(machine), machine.platform.os),
    };
    let program = resolve_browser_executable(machine, executable);
    debug_browser(program, cdp_port, dir, false)
}

/// How a browser that was found is started, with a window, on the given port.
pub fn launch_debug_edge_on_port(machine: &Machine, cdp_port: u16, profile_dir: Option<String>) -> (
launch: BrowserLaunch)
    ensures
        launch@ == launch_of(
            resolved(machine@, None),
            cdp_port,
            match text::string_view(profile_dir) {
                Some(dir) => dir,
                None => config::profile_below(machine@.home, machine@.platform.os),
            },
            false,
        ),
{
    launch_debug_browser_on_port(machine, cdp_port, profile_dir, None)
}

// ---------------------------------------------------------------------------------------------
// Looking at a machine
// ---------------------------------------------------------------------------------------------

/// The identifiers of the browsers' bundles.
pub open spec fn bundle_ids() -> Seq<Seq<char>> {
    Seq::<Seq<char>>::empty()
        .push("com.microsoft.edgemac"@)
        .push("com.google.Chrome"@)
        .push("com.brave.Browser"@)
        .push("org.chromium.Chromium"@)
}

/// What Spotlight is asked for a bundle.
pub open spec fn bundle_query(id: Seq<char>) -> Seq<char> {
    "kMDItemCFBundleIdentifier == '"@ + id + "'"@
}

/// What Spotlight is asked on macOS, one query for each browser.
pub fn mdfind_queries() -> (queries: Vec<String>)
    ensures
        text::views(queries@) == Seq::new(
            bundle_ids().len(),
            |i: int| bundle_query(bundle_ids()[i]),
        ),
{
    let mut ids = no_texts();
    push_text(&mut ids, "com.microsoft.edgemac");
    push_text(&mut ids, "com.google.Chrome");
    push_text(&mut ids, "com.brave.Browser");
    push_text(&mut ids, "org.chromium.Chromium");
    let ghost all = Seq::new(bundle_ids().len(), |i: int| bundle_query(bundle_ids()[i]));
    let mut queries = no_texts();
    assert(all.take(0) =~= Seq::empty());
    for i in 0..ids.len()
        invariant
            text::views(ids@) == bundle_ids(),
            all == Seq::new(bundle_ids().len(), |i: int| bundle_query(bundle_ids()[i])),
            text::views(queries@) == all.take(i as int),
    {
        assert(text::views(ids@)[i as int] == ids@[i as int]@);
        assert(text::views(ids@).len() == ids@.len());
        let mut query = "kMDItemCFBundleIdentifier == '".to_owned();
        query.append(ids[i].as_str());
        query.append("'");
        push_text(&mut queries, query.as_str());
        assert(all.take(i + 1) =~= all.take(i as int).push(query@));
    }
    assert(text::views(ids@).len() == ids@.len());
    assert(all.take(all.len() as int) =~= all);
    queries
}

/// Where the browsers of Playwright may lie.
pub open spec fn playwright_places(m: MachineView) -> Seq<Seq<char>> {
    match (m.playwright_cache, layout_for(m.platform)) {
        (Some(cache), Some(layout)) => places_in(
            m.platform.os,
            cache,
            latest_first(m.playwright_entries),
            layout.binary_relative_paths,
        ),
        _ => Seq::empty(),
    }
}

/// The places of each path below each directory.
pub open spec fn places_in(
    os: Os,
    cache: Seq<char>,
    dirs: Seq<Seq<char>>,
    paths: Seq<Seq<char>>,
) -> Seq<Seq<char>>
    decreases dirs.len(),
{
    if dirs.len() == 0 {
        Seq::empty()
    } else {
        let dir = platform::joined_path(os, cache, dirs.last());
        places_in(os, cache, dirs.drop_last(), paths) + Seq::new(
            paths.len(),
            |i: int| platform::joined_path(os, dir, paths[i]),
        )
    }
}

impl Machine {
    /// The paths to look for on this machine: `existing` is to hold those of them that exist.
    pub fn places_to_look(&self) -> (places: Vec<String>)
        ensures
            text::views(places@) == install_paths(self@) + playwright_places(self@)
                + bundle_binaries(self@.apps),
    {
        let os = self.platform.os;
        let mut places = chromium_install_paths(self);
        let ghost installed = install_paths(self@);
        if let (Some(cache), Ok(layout)) = (
            &self.playwright_cache,
            playwright_chromium_layout(self.platform),
        ) {
            let dirs = playwright_dirs(self.playwright_entries.as_slice());
            let paths = layout.binary_relative_paths;
            let ghost all = text::views(dirs@);
            let ghost below = text::views(paths@);
            assert(all.take(0) =~= Seq::empty());
            assert(installed + Seq::<Seq<char>>::empty() =~= installed);
            for i in 0..dirs.len()
                invariant
                    all == text::views(dirs@),
                    below == text::views(paths@),
                    text::views(places@) == installed + places_in(
                        os,
                        cache@,
                        all.take(i as int),
                        below,
                    ),
            {
                let ghost before = text::views(places@);
                proof {
                    assert(all.take(i + 1).drop_last() =~= all.take(i as int));
                    assert(all.take(i + 1).last() == dirs@[i as int]@);
                }
                let dir = join_path(os, cache.as_str(), dirs[i].as_str());
                let ghost here = Seq::new(
                    below.len(),
                    |k: int| platform::joined_path(os, dir@, below[k]),
                );
                assert(before + here.take(0) =~= before);
                for j in 0..paths.len()
                    invariant
                        below == text::views(paths@),
                        here == Seq::new(
                            below.len(),
                            |k: int| platform::joined_path(os, dir@, below[k]),
                        ),
                        text::views(places@) == before + here.take(j as int),
                {
                    assert(below[j as int] == paths@[j as int]@);
                    assert(below.len() == paths@.len());
                    push_text(
                        &mut places,
                        join_path(os, dir.as_str(), paths[j].as_str()).as_str(),
                    );
                    assert(text::views(places@) =~= before + here.take(j + 1));
                }
                assert(below.len() == paths@.len());
                assert(here.take(here.len() as int) =~= here);
                assert(text::views(places@) =~= installed + places_in(
                    os,
                    cache@,
                    all.take(i + 1),
                    below,
                ));
            }
            assert(all.take(all.len() as int) =~= all);
            assert(all.len() == dirs@.len());
        } else {
            assert(installed + Seq::<Seq<char>>::empty() =~= installed);
        }
        let ghost before = text::views(places@);
        let binaries = app_binary_paths(self.apps.as_slice());
        let ghost more = text::views(binaries@);
        assert(before + more.take(0) =~= before);
        for i in 0..binaries.len()
            invariant
                more == text::views(binaries@),
                text::views(places@) == before + more.take(i as int),
        {
            assert(more[i as int] == binaries@[i as int]@);
            assert(more.len() == binaries@.len());
            push_text(&mut places, binaries[i].as_str());
            assert(text::views(places@) =~= before + more.take(i + 1));
        }
        assert(more.len() == binaries@.len());
        assert(more.take(more.len() as int) =~= more);
        places
    }
}

// ---------------------------------------------------------------------------------------------
// Laws
// ---------------------------------------------------------------------------------------------

/// A configured browser that can be started is the one that is started.
pub proof fn law_configured_browser_is_used(m: MachineView, path: Seq<char>)
    requires
        usable(m, path),
    ensures
        resolved(m, Some(path)) == path,
{
}

/// All browsers of a list can be started.
pub open spec fn all_usable(m: MachineView, browsers: Seq<BrowserView>) -> bool {
    forall|i: int| 0 <= i < browsers.len() ==> usable(m, (#[trigger] browsers[i]).path)
}

proof fn lemma_present_usable(m: MachineView, paths: Seq<Seq<char>>)
    ensures
        all_usable(m, present(m, paths)),
    decreases paths.len(),
{
    if paths.len() > 0 {
        lemma_present_usable(m, paths.drop_last());
    }
}

proof fn lemma_on_path_usable(m: MachineView, names: Seq<Seq<char>>)
    ensures
        all_usable(m, on_path(m, names)),
    decreases names.len(),
{
    if names.len() > 0 {
        lemma_on_path_usable(m, names.drop_last());
    }
}

proof fn lemma_first_below_exists(m: MachineView, dir: Seq<char>, paths: Seq<Seq<char>>)
    ensures
        first_below(m, dir, paths) matches Some(path) ==> is_there(m, path),
    decreases paths.len(),
{
    if paths.len() > 0 {
        lemma_first_below_exists(m, dir, paths.skip(1));
    }
}

proof fn lemma_in_dirs_usable(m: MachineView, cache: Seq<char>, dirs: Seq<Seq<char>>)
    ensures
        all_usable(m, in_dirs(m, cache, dirs)),
    decreases dirs.len(),
{
    if dirs.len() > 0 {
        lemma_in_dirs_usable(m, cache, dirs.drop_last());
        if let Some(layout) = layout_for(m.platform) {
            lemma_first_below_exists(
                m,
                platform::joined_path(m.platform.os, cache, dirs.last()),
                layout.binary_relative_paths,
            );
        }
    }
}

proof fn lemma_unique_usable(m: MachineView, browsers: Seq<BrowserView>)
    requires
        all_usable(m, browsers),
    ensures
        all_usable(m, unique(m.platform.os, browsers)),
    decreases browsers.len(),
{
    if browsers.len() > 0 {
        let front = browsers.drop_last();
        assert forall|i: int| 0 <= i < front.len() implies usable(m, (#[trigger] front[i]).path) by {
            assert(front[i] == browsers[i]);
        }
        lemma_unique_usable(m, front);
        assert(usable(m, browsers[browsers.len() - 1].path));
    }
}

/// Every browser that is found can be started.
pub proof fn law_detected_browsers_are_usable(m: MachineView)
    ensures
        all_usable(m, detected(m)),
{
    let a = present(m, install_paths(m));
    let b = on_path(m, path_names(m.platform.os));
    let c = playwright_browsers(m);
    let d = spotlight_browsers(m);
    lemma_present_usable(m, install_paths(m));
    lemma_on_path_usable(m, path_names(m.platform.os));
    if let Some(cache) = m.playwright_cache {
        lemma_in_dirs_usable(m, cache, latest_first(m.playwright_entries));
    }
    lemma_present_usable(m, bundle_binaries(m.apps));
    let all = all_found(m);
    assert forall|i: int| 0 <= i < all.len() implies usable(m, (#[trigger] all[i]).path) by {
        if i < a.len() {
            assert(all[i] == a[i]);
        } else if i < a.len() + b.len() {
            assert(all[i] == b[i - a.len()]);
        } else if i < a.len() + b.len() + c.len() {
            assert(all[i] == c[i - a.len() - b.len()]);
        } else {
            assert(all[i] == d[i - a.len() - b.len() - c.len()]);
        }
    }
    lemma_unique_usable(m, all);
}

/// Resolving what was resolved changes nothing.
pub proof fn law_resolution_settles(m: MachineView, configured: Option<Seq<char>>)
    ensures
        resolved(m, Some(resolved(m, configured))) == resolved(m, configured),
{
    law_detected_browsers_are_usable(m);
}

/// Whether a configured browser that does not exist can be replaced is whether any was found.
pub proof fn law_missing_browser_is_replaced(m: MachineView, path: Seq<char>)
    requires
        !usable(m, path),
    ensures
        usable(m, resolved(m, Some(path))) == (first_detected(m) is Some),
{
    law_detected_browsers_are_usable(m);
}

/// No path is listed twice.
pub open spec fn distinct_paths(os: Os, browsers: Seq<BrowserView>) -> bool {
    forall|i: int, j: int|
        0 <= i < j < browsers.len() ==> !platform::same_place(
            os,
            (#[trigger] browsers[i]).path,
            (#[trigger] browsers[j]).path,
        )
}

proof fn lemma_unique(os: Os, browsers: Seq<BrowserView>)
    ensures
        distinct_paths(os, unique(os, browsers)),
        forall|i: int|
            0 <= i < browsers.len() ==> listed(os, unique(os, browsers), (
            #[trigger] browsers[i]).path),
    decreases browsers.len(),
{
    if browsers.len() > 0 {
        let front = browsers.drop_last();
        let before = unique(os, front);
        let all = unique(os, browsers);
        lemma_unique(os, front);
        assert forall|i: int| 0 <= i < browsers.len() implies listed(os, all, (
        #[trigger] browsers[i]).path) by {
            if i < front.len() {
                assert(front[i] == browsers[i]);
                let k = choose|k: int|
                    0 <= k < before.len() && platform::same_place(
                        os,
                        (#[trigger] before[k]).path,
                        browsers[i].path,
                    );
                assert(all[k] == before[k]);
            } else if !listed(os, before, browsers.last().path) {
                assert(all[before.len() as int] == browsers.last());
            }
        }
    }
}

/// Each path is listed once, and everything that was found is listed.
pub proof fn law_each_browser_is_listed_once(m: MachineView)
    ensures
        distinct_paths(m.platform.os, detected(m)),
        forall|i: int|
            0 <= i < all_found(m).len() ==> listed(m.platform.os, detected(m), (
            #[trigger] all_found(m)[i]).path),
{
    lemma_unique(m.platform.os, all_found(m));
}

/// The builds of a list come from the latest to the oldest.
pub open spec fn falling(names: Seq<Seq<char>>) -> bool {
    forall|i: int, j: int|
        0 <= i < j < names.len() ==> revision(#[trigger] names[i]) >= revision(#[trigger] names[j])
}

proof fn lemma_place_of(sorted: Seq<Seq<char>>, name: Seq<char>)
    requires
        falling(sorted),
    ensures
        0 <= place_of(sorted, name) <= sorted.len(),
        forall|i: int|
            0 <= i < place_of(sorted, name) ==> revision(#[trigger] sorted[i]) >= revision(name),
        forall|i: int|
            place_of(sorted, name) <= i < sorted.len() ==> revision(#[trigger] sorted[i])
                < revision(name),
    decreases sorted.len(),
{
    if sorted.len() > 0 {
        let front = sorted.drop_last();
        assert forall|i: int, j: int| 0 <= i < j < front.len() implies revision(
            #[trigger] front[i],
        ) >= revision(#[trigger] front[j]) by {
            assert(front[i] == sorted[i] && front[j] == sorted[j]);
        }
        lemma_place_of(front, name);
        assert forall|i: int| 0 <= i < sorted.len() - 1 implies front[i] == #[trigger] sorted[i] by {
        }
    }
}

/// The directories of Playwright come from the latest build to the oldest, and they are those of
/// the names that are Chromium builds.
pub proof fn law_builds_come_latest_first(names: Seq<Seq<char>>)
    ensures
        falling(latest_first(names)),
        latest_first(names).to_multiset() == names.filter(
            |name: Seq<char>| chromium_dir(name),
        ).to_multiset(),
    decreases names.len(),
{
    broadcast use vstd::seq_lib::group_to_multiset_ensures;

    let chosen = |name: Seq<char>| chromium_dir(name);
    reveal(Seq::filter);
    if names.len() > 0 {
        let before = latest_first(names.drop_last());
        let name = names.last();
        law_builds_come_latest_first(names.drop_last());
        lemma_place_of(before, name);
        if chromium_dir(name) {
            let at = place_of(before, name);
            let after = before.insert(at, name);
            assert forall|i: int, j: int| 0 <= i < j < after.len() implies revision(
                #[trigger] after[i],
            ) >= revision(#[trigger] after[j]) by {
                let x = if i < at {
                    i
                } else {
                    i - 1
                };
                let y = if j < at {
                    j
                } else {
                    j - 1
                };
                if i != at {
                    assert(after[i] == before[x]);
                }
                if j != at {
                    assert(after[j] == before[y]);
                }
            }
            vstd::seq_lib::to_multiset_insert(before, at, name);
        }
    }
}

/// The first browser that was found is the first of the list.
proof fn lemma_unique_first(os: Os, browsers: Seq<BrowserView>)
    requires
        browsers.len() > 0,
    ensures
        unique(os, browsers).len() > 0,
        unique(os, browsers)[0] == browsers[0],
    decreases browsers.len(),
{
    if browsers.len() > 1 {
        lemma_unique_first(os, browsers.drop_last());
    } else {
        assert(browsers.drop_last() =~= Seq::empty());
        reveal_with_fuel(unique, 2);
    }
}

/// The browsers among installed ones are those whose paths exist, in order, each with its label.
pub proof fn law_present_browsers_are_those_that_exist(
    m: MachineView,
    paths: Seq<Seq<char>>,
    path: Seq<char>,
)
    ensures
        present(m, Seq::empty()) == Seq::<BrowserView>::empty(),
        m.existing.contains(path) ==> present(m, paths.push(path)) == present(m, paths).push(
            BrowserView { label: label_of(m.platform.os, path), path },
        ),
        !m.existing.contains(path) ==> present(m, paths.push(path)) == present(m, paths),
        command(m, path) ==> on_path(m, paths.push(path)) == on_path(m, paths).push(
            BrowserView { label: path + " (PATH)"@, path },
        ),
        !command(m, path) ==> on_path(m, paths.push(path)) == on_path(m, paths),
        on_path(m, Seq::empty()) == Seq::<BrowserView>::empty(),
{
    assert(paths.push(path).drop_last() =~= paths);
}

proof fn lemma_first_present(m: MachineView, paths: Seq<Seq<char>>, at: int)
    requires
        0 <= at < paths.len(),
        m.existing.contains(paths[at]),
        forall|i: int| 0 <= i < at ==> !m.existing.contains(#[trigger] paths[i]),
    ensures
        present(m, paths).len() > 0,
        present(m, paths)[0].path == paths[at],
    decreases paths.len(),
{
    let rest = paths.drop_last();
    if at < paths.len() - 1 {
        assert forall|i: int| 0 <= i < at implies !m.existing.contains(#[trigger] rest[i]) by {
            assert(rest[i] == paths[i]);
        }
        lemma_first_present(m, rest, at);
    } else {
        assert forall|i: int| 0 <= i < rest.len() implies !m.existing.contains(
            #[trigger] rest[i],
        ) by {
            assert(rest[i] == paths[i]);
        }
        lemma_none_present(m, rest);
    }
}

proof fn lemma_none_present(m: MachineView, paths: Seq<Seq<char>>)
    requires
        forall|i: int| 0 <= i < paths.len() ==> !m.existing.contains(#[trigger] paths[i]),
    ensures
        present(m, paths) == Seq::<BrowserView>::empty(),
    decreases paths.len(),
{
    if paths.len() > 0 {
        let rest = paths.drop_last();
        assert(!m.existing.contains(paths[paths.len() - 1]));
        assert forall|i: int| 0 <= i < rest.len() implies !m.existing.contains(
            #[trigger] rest[i],
        ) by {
            assert(rest[i] == paths[i]);
        }
        lemma_none_present(m, rest);
    }
}

proof fn lemma_first_on_path(m: MachineView, names: Seq<Seq<char>>, at: int)
    requires
        0 <= at <= names.len(),
        at < names.len() ==> command(m, names[at]),
        forall|i: int| 0 <= i < at ==> !command(m, #[trigger] names[i]),
    ensures
        at < names.len() ==> on_path(m, names).len() > 0 && on_path(m, names)[0].path == names[at],
        at == names.len() ==> on_path(m, names) == Seq::<BrowserView>::empty(),
    decreases names.len(),
{
    if names.len() > 0 {
        let rest = names.drop_last();
        if at == names.len() {
            assert(!command(m, names[names.len() - 1]));
        }
        let to = if at < names.len() {
            at
        } else {
            at - 1
        };
        assert forall|i: int| 0 <= i < to implies !command(m, #[trigger] rest[i]) by {
            assert(rest[i] == names[i]);
        }
        lemma_first_on_path(m, rest, to);
    }
}

/// Of the browsers that may be taken, an installed one comes first, in the order of the places
/// where browsers are installed; where none is installed, the first command that is found does.
pub proof fn law_installed_browser_comes_first(m: MachineView, at: int)
    ensures
        0 <= at < install_paths(m).len() && m.existing.contains(install_paths(m)[at]) && (forall|
            i: int,
        |
            0 <= i < at ==> !m.existing.contains(#[trigger] install_paths(m)[i]))
            ==> first_detected(m) == Some(install_paths(m)[at]),
        (forall|i: int|
            0 <= i < install_paths(m).len() ==> !m.existing.contains(
                #[trigger] install_paths(m)[i],
            )) && 0 <= at < path_names(m.platform.os).len() && command(
            m,
            path_names(m.platform.os)[at],
        ) && (forall|i: int|
            0 <= i < at ==> !command(m, #[trigger] path_names(m.platform.os)[i]))
            ==> first_detected(m) == Some(path_names(m.platform.os)[at]),
{
    let paths = install_paths(m);
    let names = path_names(m.platform.os);
    let all = all_found(m);
    if 0 <= at < paths.len() && m.existing.contains(paths[at]) && (forall|i: int|
        0 <= i < at ==> !m.existing.contains(#[trigger] paths[i])) {
        lemma_first_present(m, paths, at);
        assert(all[0] == present(m, paths)[0]);
        lemma_unique_first(m.platform.os, all);
    }
    if (forall|i: int| 0 <= i < paths.len() ==> !m.existing.contains(#[trigger] paths[i])) && 0
        <= at < names.len() && command(m, names[at]) && (forall|i: int|
        0 <= i < at ==> !command(m, #[trigger] names[i])) {
        lemma_none_present(m, paths);
        lemma_first_on_path(m, names, at);
        assert(all[0] == on_path(m, names)[0]);
        lemma_unique_first(m.platform.os, all);
    }
}

/// A build of Playwright is listed under the name of its directory with the first of its places
/// that exists; one whose browser is not there is not listed.
pub proof fn law_builds_are_listed_with_their_browser(
    m: MachineView,
    cache: Seq<char>,
    dirs: Seq<Seq<char>>,
    dir: Seq<char>,
)
    ensures
        in_dirs(m, cache, Seq::empty()) == Seq::<BrowserView>::empty(),
        in_dirs(m, cache, dirs.push(dir)) == match playwright_binary(
            m,
            platform::joined_path(m.platform.os, cache, dir),
        ) {
            Some(path) => in_dirs(m, cache, dirs).push(
                BrowserView { label: "Playwright "@ + dir, path },
            ),
            None => in_dirs(m, cache, dirs),
        },
        m.playwright_cache == Some(cache) ==> playwright_browsers(m) == in_dirs(
            m,
            cache,
            latest_first(m.playwright_entries),
        ),
        m.playwright_cache is None ==> playwright_browsers(m) == Seq::<BrowserView>::empty(),
{
    assert(dirs.push(dir).drop_last() =~= dirs);
}

/// Below a directory the first of the places that exists is taken.
pub proof fn law_first_place_below_is_taken(
    m: MachineView,
    dir: Seq<char>,
    paths: Seq<Seq<char>>,
    at: int,
)
    requires
        0 <= at <= paths.len(),
        forall|i: int|
            0 <= i < at ==> !m.existing.contains(
                platform::joined_path(m.platform.os, dir, #[trigger] paths[i]),
            ),
        at < paths.len() ==> m.existing.contains(
            platform::joined_path(m.platform.os, dir, paths[at]),
        ),
    ensures
        first_below(m, dir, paths) == if at < paths.len() {
            Some(platform::joined_path(m.platform.os, dir, paths[at]))
        } else {
            None
        },
    decreases at,
{
    if at > 0 {
        assert(!m.existing.contains(platform::joined_path(m.platform.os, dir, paths[0])));
        let rest = paths.skip(1);
        assert forall|i: int| 0 <= i < at - 1 implies !m.existing.contains(
            platform::joined_path(m.platform.os, dir, #[trigger] rest[i]),
        ) by {
            assert(rest[i] == paths[i + 1]);
        }
        law_first_place_below_is_taken(m, dir, rest, at - 1);
    }
}

/// The number of a build is what its directory's name spells behind `chromium-`; a name that
/// spells none has the number zero. Directories of the shell without a window are not taken.
pub proof fn law_build_number_is_in_the_name(n: int, name: Seq<char>)
    requires
        0 <= n <= u64::MAX,
    ensures
        revision("chromium-"@ + text::decimal(n)) == n,
        !text::begins_with(name, "chromium-"@) ==> revision(name) == 0 && !chromium_dir(name),
        text::occurs_in(name, "headless_shell"@) ==> !chromium_dir(name),
        text::begins_with(name, "chromium-"@) && !text::occurs_in(name, "headless_shell"@)
            ==> chromium_dir(name),
{
    let start = "chromium-"@;
    let whole = start + text::decimal(n);
    text::law_decimal_spells_the_number(n);
    assert(whole.take(start.len() as int) =~= start);
    assert(whole.skip(start.len() as int) =~= text::decimal(n));
}

/// The browser that is started is the configured one where it can be; else the first that was
/// found; where none was, the configured one all the same, and without one the platform's.
pub proof fn law_browser_that_is_started(m: MachineView, path: Seq<char>, found: Seq<char>)
    ensures
        usable(m, path) ==> resolved(m, Some(path)) == path,
        !usable(m, path) && first_detected(m) == Some(found) ==> resolved(m, Some(path)) == found,
        first_detected(m) is None ==> resolved(m, Some(path)) == path,
        first_detected(m) == Some(found) ==> resolved(m, None) == found,
        first_detected(m) is None ==> resolved(m, None) == default_path(m.platform.os),
        usable(m, path) <==> m.existing.contains(path) || (platform::bare_name(
            m.platform.os,
            path,
        ) && m.commands.contains(path)),
{
}

/// A browser is told its debugging port, its profile and the chat page, and to show no window
/// exactly where it is to run in the background.
pub proof fn law_browser_is_told_port_profile_and_page(
    cdp_port: u16,
    profile_dir: Seq<char>,
    headless: bool,
)
    ensures
        ({
            let args = launch_args(cdp_port, profile_dir, headless);
            &&& args.contains("--remote-debugging-port="@ + text::decimal(cdp_port as int))
            &&& args.contains("--user-data-dir="@ + profile_dir)
            &&& args.contains("--no-first-run"@)
            &&& args.last() == "https://m365.cloud.microsoft/chat"@
            &&& headless ==> args.contains("--headless=new"@)
            &&& args.len() == if headless {
                5int
            } else {
                4int
            }
            &&& !headless ==> launch_args(cdp_port, profile_dir, true).drop_last().drop_last()
                == args.drop_last()
        }),
{
    let args = launch_args(cdp_port, profile_dir, headless);
    assert(args[0] == "--remote-debugging-port="@ + text::decimal(cdp_port as int));
    assert(args[1] == "--user-data-dir="@ + profile_dir);
    assert(args[2] == "--no-first-run"@);
    if headless {
        assert(args[3] == "--headless=new"@);
    } else {
        let other = launch_args(cdp_port, profile_dir, true);
        assert(other.drop_last().drop_last() =~= args.drop_last());
    }
}

/// The browser of the settings is started on the set port with the set profile, in the background
/// exactly where a token is there and the settings say so.
pub proof fn law_browser_is_started_by_the_settings(
    m: MachineView,
    c: config::ConfigView,
    authenticated: bool,
)
    ensures
        config_launch(m, c, authenticated).program == resolved(m, c.edge.executable),
        config_launch(m, c, authenticated).profile_dir == config::profile_of(
            c,
            m.home,
            m.platform.os,
        ),
        config_launch(m, c, authenticated).args == launch_args(
            c.edge.cdp_port,
            config::profile_of(c, m.home, m.platform.os),
            c.edge.headless_when_authenticated && authenticated,
        ),
{
}

/// The cache of Playwright lies below the directory that the platform keeps for that: a variable's
/// on Windows, the user's on macOS, and on Linux the variable's where it is set.
pub proof fn law_cache_lies_below_its_directory(
    variable: Option<Seq<char>>,
    cache_dir: Option<Seq<char>>,
    dir: Seq<char>,
)
    ensures
        cache_dir == Some(dir) ==> cache_dir_of(Os::Macos, variable, cache_dir) == Some(
            platform::joined_path(Os::Macos, dir, "ms-playwright"@),
        ),
        variable == Some(dir) ==> cache_dir_of(Os::Linux, variable, cache_dir) == Some(
            platform::joined_path(Os::Linux, dir, "ms-playwright"@),
        ),
        variable is None && cache_dir == Some(dir) ==> cache_dir_of(Os::Linux, variable, cache_dir)
            == Some(platform::joined_path(Os::Linux, dir, "ms-playwright"@)),
        variable == Some(dir) ==> cache_dir_of(Os::Windows, variable, cache_dir) == Some(
            platform::joined_path(Os::Windows, dir, "ms-playwright"@),
        ),
        variable is None ==> cache_dir_of(Os::Windows, variable, cache_dir) is None,
        cache_dir is None ==> cache_dir_of(Os::Macos, variable, cache_dir) is None,
        cache_dir_of(Os::Other, variable, cache_dir) is None,
{
}

/// A browser is labelled by the name of its file; one of Playwright's is marked as such, and those
/// of Chromium that are not are marked as the system's.
pub proof fn law_browsers_are_labelled_by_their_file(os: Os, path: Seq<char>, file: Seq<char>)
    requires
        platform::name_of(os, path) == Some(file),
    ensures
        text::occurs_in(path, "ms-playwright"@) ==> label_of(os, path) == file
            + " (Playwright)"@,
        !text::occurs_in(path, "ms-playwright"@) ==> {
            &&& file == "Brave Browser"@ ==> label_of(os, path) == "Brave"@
            &&& file == "Chromium"@ ==> label_of(os, path) == "Chromium (system)"@
            &&& file == "Google Chrome for Testing"@ ==> label_of(os, path)
                == "Google Chrome for Testing (system)"@
            &&& file != "Brave Browser"@ && file != "Chromium"@ && file
                != "Google Chrome for Testing"@ ==> label_of(os, path) == file
        },
{
    reveal_strlit("Brave Browser");
    reveal_strlit("Chromium");
    reveal_strlit("Google Chrome for Testing");
    reveal_strlit(" (system)");
    reveal_strlit("Chromium (system)");
    reveal_strlit("Google Chrome for Testing (system)");
    assert("Brave Browser"@.len() == 13 && "Chromium"@.len() == 8);
    assert("Google Chrome for Testing"@.len() == 25);
    assert("Chromium"@ + " (system)"@ =~= "Chromium (system)"@);
    assert("Google Chrome for Testing"@ + " (system)"@ =~= "Google Chrome for Testing (system)"@);
}

/// Each application that was found stands for the binary inside it, in order; blank lines stand for
/// none, and white space around a path is no part of it.
pub proof fn law_found_applications_stand_for_their_binaries(
    apps: Seq<Seq<char>>,
    app: Seq<char>,
    name: Seq<char>,
)
    requires
        platform::name_of(Os::Macos, text::trimmed(app)) == Some(name),
    ensures
        bundle_binaries(Seq::empty()) == Seq::<Seq<char>>::empty(),
        text::trimmed(app).len() == 0 ==> bundle_binaries(apps.push(app)) == bundle_binaries(apps),
        text::trimmed(app).len() > 0 ==> bundle_binaries(apps.push(app)) == bundle_binaries(
            apps,
        ).push(
            platform::joined_path(
                Os::Macos,
                text::trimmed(app),
                "Contents/MacOS/"@ + platform::stem(name),
            ),
        ),
{
    assert(apps.push(app).drop_last() =~= apps);
}

/// Browsers are looked for by the identifier of their application.
pub proof fn law_applications_are_asked_for_by_identifier(id: Seq<char>)
    ensures
        text::begins_with(bundle_query(id), "kMDItemCFBundleIdentifier == '"@),
        text::finishes_with(bundle_query(id), "'"@),
        bundle_query(id).subrange(
            "kMDItemCFBundleIdentifier == '"@.len() as int,
            "kMDItemCFBundleIdentifier == '"@.len() as int + id.len(),
        ) == id,
        bundle_ids().len() == 4,
        bundle_ids()[0] == "com.microsoft.edgemac"@,
        bundle_ids()[1] == "com.google.Chrome"@,
        bundle_ids()[2] == "com.brave.Browser"@,
        bundle_ids()[3] == "org.chromium.Chromium"@,
{
    let start = "kMDItemCFBundleIdentifier == '"@;
    let query = bundle_query(id);
    assert(query.take(start.len() as int) =~= start);
    assert(query.skip(query.len() - "'"@.len()) =~= "'"@);
    assert(query.subrange(start.len() as int, start.len() as int + id.len()) =~= id);
}

/// Edge is looked for before all other browsers, in its usual place and by its usual command. On
/// macOS no command is looked for, and the user's own applications come behind everybody's.
pub proof fn law_edge_is_looked_for_first(m: MachineView, home: Seq<char>)
    ensures
        m.platform.os is Windows ==> install_paths(m)[0]
            == "C:\\Program Files (x86)\\Microsoft\\Edge\\Application\\msedge.exe"@
            && install_paths(m).len() == 6,
        m.platform.os is Macos ==> install_paths(m)[0]
            == "/Applications/Microsoft Edge.app/Contents/MacOS/Microsoft Edge"@,
        m.platform.os is Macos && m.home is None ==> install_paths(m).len() == 4,
        m.platform.os is Macos && m.home == Some(home) ==> install_paths(m).len() == 8
            && install_paths(m)[4] == platform::joined_path(
            Os::Macos,
            platform::joined_path(Os::Macos, home, "Applications"@),
            "Microsoft Edge.app/Contents/MacOS/Microsoft Edge"@,
        ),
        m.platform.os is Linux ==> install_paths(m)[0] == "/usr/bin/microsoft-edge"@
            && install_paths(m).len() == 8,
        m.platform.os is Other ==> install_paths(m).len() == 0,
        path_names(Os::Windows)[0] == "msedge"@,
        path_names(Os::Linux)[0] == "microsoft-edge"@,
        path_names(Os::Other)[0] == "msedge"@,
        path_names(Os::Macos).len() == 0,
        default_path(Os::Windows)
            == "C:\\Program Files (x86)\\Microsoft\\Edge\\Application\\msedge.exe"@,
        default_path(Os::Macos)
            == "/Applications/Microsoft Edge.app/Contents/MacOS/Microsoft Edge"@,
        default_path(Os::Linux) == "google-chrome"@,
        default_path(Os::Other) == "msedge"@,
{
}

/// The builds that may be downloaded: one for Linux and one for Windows on every processor, one for
/// each of two processors on macOS, and none elsewhere.
pub proof fn law_builds_are_for_their_platform(p: Platform)
    ensures
        p.os is Linux ==> (layout_for(p) matches Some(layout) && layout.download_archive
            == "chromium-linux"@ && layout.binary_relative_paths == seq!["chrome-linux/chrome"@]),
        p.os is Windows ==> (layout_for(p) matches Some(layout) && layout.download_archive
            == "chromium-win64"@ && layout.binary_relative_paths == seq!["chrome-win/chrome.exe"@]),
        p.os is Macos && p.arch is Aarch64 ==> (layout_for(p) matches Some(layout)
            && layout.download_archive == "chromium-mac-arm64"@
            && layout.binary_relative_paths.len() == 4 && layout.binary_relative_paths[1]
            == "chrome-mac-arm64/Chromium.app/Contents/MacOS/Chromium"@),
        p.os is Macos && p.arch is X86_64 ==> (layout_for(p) matches Some(layout)
            && layout.download_archive == "chromium-mac"@ && layout.binary_relative_paths.len()
            == 3 && layout.binary_relative_paths[1]
            == "chrome-mac/Chromium.app/Contents/MacOS/Chromium"@),
        p.os is Other ==> layout_for(p) is None,
{
}

/// A build's browser is looked for at each of the build's places below each directory, directory by
/// directory.
pub proof fn law_each_directory_has_each_place(
    os: Os,
    cache: Seq<char>,
    dirs: Seq<Seq<char>>,
    dir: Seq<char>,
    paths: Seq<Seq<char>>,
    i: int,
)
    ensures
        places_in(os, cache, Seq::empty(), paths).len() == 0,
        places_in(os, cache, dirs.push(dir), paths).len() == places_in(
            os,
            cache,
            dirs,
            paths,
        ).len() + paths.len(),
        places_in(os, cache, dirs.push(dir), paths).take(
            places_in(os, cache, dirs, paths).len() as int,
        ) == places_in(os, cache, dirs, paths),
        0 <= i < paths.len() ==> places_in(os, cache, dirs.push(dir), paths)[places_in(
            os,
            cache,
            dirs,
            paths,
        ).len() + i] == platform::joined_path(
            os,
            platform::joined_path(os, cache, dir),
            paths[i],
        ),
{
    assert(dirs.push(dir).drop_last() =~= dirs);
    let before = places_in(os, cache, dirs, paths);
    assert(places_in(os, cache, dirs.push(dir), paths).take(before.len() as int) =~= before);
}

} // verus!
