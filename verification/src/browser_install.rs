//! Installing a Chromium build: what is said and done in turn, where it is downloaded from, and
//! what is taken out of the archive.
use vstd::prelude::*;
use vstd::string::*;

use crate::browsers::{
    self, list_detected_browsers, playwright_chromium_binary_in_dir, playwright_chromium_layout,
    Machine,
};
use crate::json::{self, Json, JsonTree};
use crate::platform::{self, has_prefix, has_root, join_path, path_components, Os};
use crate::text::{self, chars_of, contains_text, ends_with, same_text, unsigned_text};

verus! {

/// Where the number of the latest build is found.
pub const BROWSERS_JSON_URL: &'static str = "https://raw.githubusercontent.com/microsoft/playwright/main/packages/playwright-core/browsers.json";

/// The build that is taken where the latest one is not known.
pub const FALLBACK_CHROMIUM_REVISION: &'static str = "1229";

// ---------------------------------------------------------------------------------------------
// What is done in turn
// ---------------------------------------------------------------------------------------------

/// What comes next.
pub enum InstallNext {
    /// The browser is there.
    Installed(String),
    /// Have Playwright's own installer run.
    RunNpx,
    /// Download the build.
    Download,
}

/// What is said, and what comes next.
pub struct InstallStep {
    pub messages: Vec<String>,
    pub next: InstallNext,
}

/// The first browser of a list that Playwright installed.
pub open spec fn first_playwright(found: Seq<browsers::BrowserView>) -> Option<Seq<char>>
    decreases found.len(),
{
    if found.len() == 0 {
        None
    } else if text::occurs_in(found[0].path, "ms-playwright"@) {
        Some(found[0].path)
    } else {
        first_playwright(found.skip(1))
    }
}

/// The browser of the machine that Playwright installed.
pub open spec fn playwright_chromium(m: browsers::MachineView) -> Option<Seq<char>> {
    first_playwright(browsers::detected(m))
}

/// What is said before a download.
pub open spec fn download_notice() -> Seq<char> {
    "Downloading Chromium from Playwright CDN (this may take a few minutes)..."@
}

/// The first step is as it should be: a build that is there is used; else Playwright's installer
/// runs, where there is one; else the build is downloaded.
pub open spec fn first_step(m: browsers::MachineView, npx: bool, step: InstallStep) -> bool {
    match playwright_chromium(m) {
        Some(path) => {
            &&& text::views(step.messages@) == seq!["Chromium already installed at "@ + path]
            &&& step.next matches InstallNext::Installed(found) && found@ == path
        },
        None => if npx {
            &&& text::views(step.messages@) == seq![
                "Installing Chromium for token capture..."@,
                "Trying: npx playwright install chromium"@,
            ]
            &&& step.next is RunNpx
        } else {
            &&& text::views(step.messages@) == seq![
                "Installing Chromium for token capture..."@,
                "npx not found; using built-in downloader"@,
                download_notice(),
            ]
            &&& step.next is Download
        },
    }
}

/// The step after Playwright's installer is as it should be: where it succeeded and the build is
/// there, the build is used; else it is downloaded.
pub open spec fn npx_step(m: browsers::MachineView, success: bool, step: InstallStep) -> bool {
    match playwright_chromium(m) {
        Some(path) if success => {
            &&& text::views(step.messages@) == seq!["Installed at "@ + path]
            &&& step.next matches InstallNext::Installed(found) && found@ == path
        },
        _ => {
            &&& text::views(step.messages@) == seq![download_notice()]
            &&& step.next is Download
        },
    }
}

/// The browser of the machine that Playwright installed.
pub fn existing_playwright_chromium(machine: &Machine) -> (path: Option<String>)
    ensures
        text::string_view(path) == playwright_chromium(machine@),
{
    let found = list_detected_browsers(machine);
    let ghost all = browsers::browser_views(found@);
    assert(all.skip(0) =~= all);
    for i in 0..found.len()
        invariant
            all == browsers::browser_views(found@),
            all == browsers::detected(machine@),
            first_playwright(all) == first_playwright(all.skip(i as int)),
    {
        proof {
            assert(all.skip(i as int)[0] == found@[i as int]@);
            assert(all.skip(i as int).skip(1) =~= all.skip(i + 1));
        }
        if contains_text(found[i].path.as_str(), "ms-playwright") {
            return Some(found[i].path.clone());
        }
    }
    assert(all.len() == found@.len());
    None
}

/// The first step of an installation; `npx` says whether Playwright's installer can be run.
pub fn install_chromium_browser(machine: &Machine, npx: bool) -> (step: InstallStep)
    ensures
        first_step(machine@, npx, step),
{
    let mut messages: Vec<String> = Vec::new();
    match existing_playwright_chromium(machine) {
        Some(path) => {
            let mut message = "Chromium already installed at ".to_owned();
            message.append(path.as_str());
            messages.push(message);
            assert(text::views(messages@) =~= seq![message@]);
            InstallStep { messages, next: InstallNext::Installed(path) }
        },
        None => {
            messages.push("Installing Chromium for token capture...".to_owned());
            if npx {
                messages.push("Trying: npx playwright install chromium".to_owned());
                assert(text::views(messages@) =~= seq![
                    "Installing Chromium for token capture..."@,
                    "Trying: npx playwright install chromium"@,
                ]);
                InstallStep { messages, next: InstallNext::RunNpx }
            } else {
                messages.push("npx not found; using built-in downloader".to_owned());
                messages.push(
                    "Downloading Chromium from Playwright CDN (this may take a few minutes)...".to_owned(),
                );
                assert(text::views(messages@) =~= seq![
                    "Installing Chromium for token capture..."@,
                    "npx not found; using built-in downloader"@,
                    download_notice(),
                ]);
                InstallStep { messages, next: InstallNext::Download }
            }
        },
    }
}

/// The step after Playwright's installer ran; the machine is looked at anew.
pub fn after_npx(machine: &Machine, success: bool) -> (step: InstallStep)
    ensures
        npx_step(machine@, success, step),
{
    let mut messages: Vec<String> = Vec::new();
    if success {
        if let Some(path) = existing_playwright_chromium(machine) {
            let mut message = "Installed at ".to_owned();
            message.append(path.as_str());
            messages.push(message);
            assert(text::views(messages@) =~= seq![message@]);
            return InstallStep { messages, next: InstallNext::Installed(path) };
        }
    }
    messages.push(
        "Downloading Chromium from Playwright CDN (this may take a few minutes)...".to_owned(),
    );
    assert(text::views(messages@) =~= seq![download_notice()]);
    InstallStep { messages, next: InstallNext::Download }
}

// ---------------------------------------------------------------------------------------------
// Which build
// ---------------------------------------------------------------------------------------------

/// The entry of Chromium among browsers.
pub open spec fn chromium_entry(entries: Seq<JsonTree>) -> Option<JsonTree>
    decreases entries.len(),
{
    if entries.len() == 0 {
        None
    } else if entries[0].text_member("name"@) == Some("chromium"@) {
        Some(entries[0])
    } else {
        chromium_entry(entries.skip(1))
    }
}

/// The number of Chromium's build in the list of browsers.
pub open spec fn listed_revision(list: JsonTree) -> Option<u64> {
    match list.member("browsers"@) {
        Some(JsonTree::Array(entries)) => match chromium_entry(entries) {
            Some(entry) => match entry.member("revision"@) {
                Some(revision) => revision.as_unsigned(),
                None => None,
            },
            None => None,
        },
        _ => None,
    }
}

/// The entry of Chromium among browsers.
fn find_chromium(entries: &Vec<Json>) -> (entry: Option<&Json>)
    ensures
        match entry {
            Some(found) => chromium_entry(json::trees(entries@)) == Some(found.tree()),
            None => chromium_entry(json::trees(entries@)) is None,
        },
{
    let ghost all = json::trees(entries@);
    assert(all.skip(0) =~= all);
    for i in 0..entries.len()
        invariant
            all == json::trees(entries@),
            chromium_entry(all) == chromium_entry(all.skip(i as int)),
    {
        proof {
            assert(all.skip(i as int)[0] == entries@[i as int].tree());
            assert(all.skip(i as int).skip(1) =~= all.skip(i + 1));
        }
        let here = match entries[i].get_str("name") {
            Some(name) => same_text(name, "chromium"),
            None => false,
        };
        if here {
            return Some(&entries[i]);
        }
    }
    assert(all.len() == entries@.len());
    None
}

/// The number of Chromium's build, by the list of browsers.
pub fn fetch_chromium_revision(list: &Json) -> (revision: Result<String, String>)
    ensures
        match revision {
            Ok(number) => listed_revision(list.tree()) matches Some(n) && number@ == text::decimal(
                n as int,
            ),
            Err(e) => listed_revision(list.tree()) is None && e@
                == "chromium revision not found in browsers.json"@,
        },
{
    let entries = match list.get("browsers") {
        Some(browsers) => browsers.as_array(),
        None => None,
    };
    let entry = match entries {
        Some(entries) => find_chromium(entries),
        None => None,
    };
    let revision = match entry {
        Some(entry) => match entry.get("revision") {
            Some(revision) => revision.as_u64(),
            None => None,
        },
        None => None,
    };
    match revision {
        Some(number) => Ok(unsigned_text(number)),
        None => Err("chromium revision not found in browsers.json".to_owned()),
    }
}

/// The build to take, and what is said where the latest one is not known.
pub fn chosen_revision(fetched: Option<String>) -> (chosen: (String, Option<String>))
    ensures
        match fetched {
            Some(revision) => chosen.0@ == revision@ && chosen.1 is None,
            None => chosen.0@ == FALLBACK_CHROMIUM_REVISION@ && (chosen.1 matches Some(notice)
                && notice@ == "Could not fetch latest revision; using Chromium "@
                + FALLBACK_CHROMIUM_REVISION@),
        },
{
    match fetched {
        Some(revision) => (revision, None),
        None => {
            let mut notice = "Could not fetch latest revision; using Chromium ".to_owned();
            notice.append(FALLBACK_CHROMIUM_REVISION);
            (FALLBACK_CHROMIUM_REVISION.to_owned(), Some(notice))
        },
    }
}

/// Where a build is downloaded from, one place after the other.
pub open spec fn download_places(revision: Seq<char>, archive: Seq<char>) -> Seq<Seq<char>> {
    let end = revision + "/"@ + archive + ".zip"@;
    seq![
        "https://cdn.playwright.dev/dbazure/download/playwright/builds/chromium/"@ + end,
        "https://cdn.playwright.dev/builds/chromium/"@ + end,
        "https://playwright.azureedge.net/builds/chromium/"@ + end,
    ]
}

/// Where a build is installed, and where it is downloaded from.
pub struct InstallPlace {
    pub cache: String,
    pub install_dir: String,
    pub urls: Vec<String>,
}

/// The directory of a build.
pub open spec fn build_dir(os: Os, cache: Seq<char>, revision: Seq<char>) -> Seq<char> {
    platform::joined_path(os, cache, "chromium-"@ + revision)
}

/// Where a build is downloaded from, one place after the other.
fn download_urls(revision: &str, archive: &str) -> (urls: Vec<String>)
    ensures
        text::views(urls@) == download_places(revision@, archive@),
{
    let mut end = revision.to_owned();
    end.append("/");
    end.append(archive);
    end.append(".zip");
    let mut first =
        "https://cdn.playwright.dev/dbazure/download/playwright/builds/chromium/".to_owned();
    first.append(end.as_str());
    let mut second = "https://cdn.playwright.dev/builds/chromium/".to_owned();
    second.append(end.as_str());
    let mut third = "https://playwright.azureedge.net/builds/chromium/".to_owned();
    third.append(end.as_str());
    let mut urls: Vec<String> = Vec::new();
    urls.push(first);
    urls.push(second);
    urls.push(third);
    assert(text::views(urls@) =~= download_places(revision@, archive@));
    urls
}

/// Where a build is installed, and where it is downloaded from; a platform without builds and a
/// machine without a cache directory have no such place.
pub fn native_playwright_chromium_install(machine: &Machine, revision: &str) -> (place: Result<
    InstallPlace,
    String,
>)
    ensures
        match place {
            Ok(place) => {
                &&& browsers::layout_for(machine.platform) matches Some(layout)
                    && text::views(place.urls@) == download_places(
                    revision@,
                    layout.download_archive,
                )
                &&& machine@.playwright_cache == Some(place.cache@)
                &&& place.install_dir@ == build_dir(
                    machine.platform.os,
                    place.cache@,
                    revision@,
                )
            },
            Err(e) => if browsers::layout_for(machine.platform) is None {
                e@ == "unsupported platform for Playwright Chromium"@
            } else {
                machine@.playwright_cache is None && e@
                    == "could not resolve browser cache directory"@
            },
        },
{
    let layout = match playwright_chromium_layout(machine.platform) {
        Ok(layout) => layout,
        Err(e) => return Err(e),
    };
    match &machine.playwright_cache {
        Some(cache) => {
            let mut name = "chromium-".to_owned();
            name.append(revision);
            let install_dir = join_path(machine.platform.os, cache.as_str(), name.as_str());
            let urls = download_urls(revision, layout.download_archive.as_str());
            Ok(InstallPlace { cache: cache.clone(), install_dir, urls })
        },
        None => Err("could not resolve browser cache directory".to_owned()),
    }
}

/// What is said before a place is tried.
pub fn download_message(url: &str) -> (message: String)
    ensures
        message@ == "Downloading from "@ + url@,
{
    let mut message = "Downloading from ".to_owned();
    message.append(url);
    message
}

/// Why a place did not give the archive.
pub enum DownloadFailure {
    /// An answer with an error's status, as it is written.
    Status(String),
    /// No answer.
    Request(String),
}

/// What is said once no place gave the archive: why the last one did not.
pub fn download_failed(last: Option<&DownloadFailure>) -> (message: String)
    ensures
        message@ == "Chromium download failed: "@ + match last {
            Some(DownloadFailure::Status(status)) => "HTTP "@ + status@,
            Some(DownloadFailure::Request(e)) => e@,
            None => Seq::empty(),
        },
{
    let mut reason = String::new();
    match last {
        Some(DownloadFailure::Status(status)) => {
            reason = "HTTP ".to_owned();
            reason.append(status.as_str());
        },
        Some(DownloadFailure::Request(e)) => {
            reason = e.clone();
        },
        None => {},
    }
    let mut message = "Chromium download failed: ".to_owned();
    message.append(reason.as_str());
    message
}

/// What asking a place for the archive came to.
pub enum DownloadOutcome {
    /// The archive.
    Body(Vec<u8>),
    /// A good answer whose body could not be read, and why.
    Broken(String),
    Failed(DownloadFailure),
}

/// What asking a place for the archive came to: the failure as it is told.
pub enum OutcomeView {
    Body(Seq<u8>),
    Broken(Seq<char>),
    Failed(Seq<char>),
}

/// Why a place did not give the archive, as it is told.
pub open spec fn failure_text(failure: DownloadFailure) -> Seq<char> {
    match failure {
        DownloadFailure::Status(status) => "HTTP "@ + status@,
        DownloadFailure::Request(e) => e@,
    }
}

impl View for DownloadOutcome {
    type V = OutcomeView;

    open spec fn view(&self) -> OutcomeView {
        match self {
            DownloadOutcome::Body(bytes) => OutcomeView::Body(bytes@),
            DownloadOutcome::Broken(e) => OutcomeView::Broken(e@),
            DownloadOutcome::Failed(failure) => OutcomeView::Failed(failure_text(*failure)),
        }
    }
}

/// What the download does next.
pub enum DownloadNext {
    /// Ask the place of that index.
    Ask(usize),
    /// The archive is there.
    Archive(Vec<u8>),
    /// The download is over, and why.
    Stop(String),
}

/// What the download does next.
pub enum NextView {
    Ask(int),
    Archive(Seq<u8>),
    Stop(Seq<char>),
}

impl View for DownloadNext {
    type V = NextView;

    open spec fn view(&self) -> NextView {
        match self {
            DownloadNext::Ask(at) => NextView::Ask(*at as int),
            DownloadNext::Archive(bytes) => NextView::Archive(bytes@),
            DownloadNext::Stop(message) => NextView::Stop(message@),
        }
    }
}

/// The first step of a download from so many places.
pub open spec fn first_ask(places: int) -> NextView {
    if places > 0 {
        NextView::Ask(0)
    } else {
        NextView::Stop("Chromium download failed: "@)
    }
}

/// What follows the answer of the place of an index: its archive is taken; a place that failed is
/// followed by the next one, and the last one by its failure.
pub open spec fn after_asking(places: int, at: int, outcome: OutcomeView) -> NextView {
    match outcome {
        OutcomeView::Body(bytes) => NextView::Archive(bytes),
        OutcomeView::Broken(e) => NextView::Stop(e),
        OutcomeView::Failed(reason) => if at + 1 < places {
            NextView::Ask(at + 1)
        } else {
            NextView::Stop("Chromium download failed: "@ + reason)
        },
    }
}

/// The first step of a download from so many places.
pub fn download_start(places: usize) -> (next: DownloadNext)
    ensures
        next@ == first_ask(places as int),
{
    if places > 0 {
        DownloadNext::Ask(0)
    } else {
        let message = download_failed(None);
        assert(message@ =~= "Chromium download failed: "@);
        DownloadNext::Stop(message)
    }
}

/// What follows the answer of the place of index `at`.
pub fn download_step(places: usize, at: usize, outcome: DownloadOutcome) -> (next: DownloadNext)
    ensures
        next@ == after_asking(places as int, at as int, outcome@),
{
    match outcome {
        DownloadOutcome::Body(bytes) => DownloadNext::Archive(bytes),
        DownloadOutcome::Broken(e) => DownloadNext::Stop(e),
        DownloadOutcome::Failed(failure) => if places > 0 && at < places - 1 {
            DownloadNext::Ask(at + 1)
        } else {
            DownloadNext::Stop(download_failed(Some(&failure)))
        },
    }
}

/// What a download comes to that asks from the place of index `at` on, where each place would
/// answer as `outcomes` says.
pub open spec fn downloaded(outcomes: Seq<OutcomeView>, at: int) -> Result<Seq<u8>, Seq<char>>
    decreases outcomes.len() - at,
{
    if at < 0 || at >= outcomes.len() {
        Err("Chromium download failed: "@)
    } else {
        match after_asking(outcomes.len() as int, at, outcomes[at]) {
            NextView::Archive(bytes) => Ok(bytes),
            NextView::Stop(message) => Err(message),
            NextView::Ask(_) => downloaded(outcomes, at + 1),
        }
    }
}

/// The browser in the directory of a build once its archive was taken apart.
pub fn installed_binary(machine: &Machine, install_dir: &str) -> (path: Result<String, String>)
    ensures
        match path {
            Ok(path) => browsers::playwright_binary(machine@, install_dir@) == Some(path@),
            Err(e) => browsers::playwright_binary(machine@, install_dir@) is None && e@
                == "download finished but browser binary not found under "@ + install_dir@,
        },
{
    match playwright_chromium_binary_in_dir(machine, install_dir) {
        Some(path) => Ok(path),
        None => {
            let mut message = "download finished but browser binary not found under ".to_owned();
            message.append(install_dir);
            Err(message)
        },
    }
}

// ---------------------------------------------------------------------------------------------
// The archive
// ---------------------------------------------------------------------------------------------

/// How many entries the crate `zip` finds in an archive, or its error.
pub uninterp spec fn archive_size(data: Seq<u8>) -> Result<usize, Seq<char>>;

/// The name and the Unix mode that the crate `zip` reads for an entry of an archive, or its
/// error.
pub uninterp spec fn archive_header(data: Seq<u8>, at: int) -> Result<
    (Seq<char>, Option<u32>),
    Seq<char>,
>;

/// The contents that the crate `zip` reads for an entry of an archive, or its error.
pub uninterp spec fn archive_contents(data: Seq<u8>, at: int) -> Result<Seq<u8>, Seq<char>>;

/// `ZipArchive::new` and `ZipArchive::len` of the crate `zip`: the number of entries and the
/// error depend on the bytes alone and are named `archive_size`.
#[verifier::external_body]
fn zip_size(data: &[u8]) -> (size: Result<usize, String>)
    ensures
        match size {
            Ok(n) => archive_size(data@) == Ok::<usize, Seq<char>>(n),
            Err(e) => archive_size(data@) == Err::<usize, Seq<char>>(e@),
        },
{
    let archive = zip::ZipArchive::new(std::io::Cursor::new(data)).map_err(|e| e.to_string())?;
    Ok(archive.len())
}

/// `ZipArchive::by_index`, `ZipFile::name` and `ZipFile::unix_mode` of the crate `zip`: name,
/// mode and error depend on the bytes and the index alone and are named `archive_header`.
#[verifier::external_body]
fn zip_header(data: &[u8], at: usize) -> (header: Result<(String, Option<u32>), String>)
    ensures
        match header {
            Ok(h) => archive_header(data@, at as int) == Ok::<(Seq<char>, Option<u32>), Seq<char>>(
                (h.0@, h.1),
            ),
            Err(e) => archive_header(data@, at as int) == Err::<
                (Seq<char>, Option<u32>),
                Seq<char>,
            >(e@),
        },
{
    let reader = std::io::Cursor::new(data);
    let mut archive = zip::ZipArchive::new(reader).map_err(|e| e.to_string())?;
    let file = archive.by_index(at).map_err(|e| e.to_string())?;
    Ok((file.name().to_string(), file.unix_mode()))
}

/// `std::io::copy` from a `ZipFile` of the crate `zip` into a vector: the contents of the entry
/// and the error depend on the bytes and the index alone and are named `archive_contents`.
#[verifier::external_body]
fn zip_contents(data: &[u8], at: usize) -> (contents: Result<Vec<u8>, String>)
    ensures
        match contents {
            Ok(bytes) => archive_contents(data@, at as int) == Ok::<Seq<u8>, Seq<char>>(bytes@),
            Err(e) => archive_contents(data@, at as int) == Err::<Seq<u8>, Seq<char>>(e@),
        },
{
    let reader = std::io::Cursor::new(data);
    let mut archive = zip::ZipArchive::new(reader).map_err(|e| e.to_string())?;
    let mut file = archive.by_index(at).map_err(|e| e.to_string())?;
    let mut bytes = Vec::new();
    std::io::copy(&mut file, &mut bytes).map_err(|e| e.to_string())?;
    Ok(bytes)
}

/// How far below its beginning a path leads, where it never leads above it.
pub open spec fn depth(parts: Seq<Seq<char>>) -> Option<int>
    decreases parts.len(),
{
    if parts.len() == 0 {
        Some(0)
    } else {
        match depth(parts.drop_last()) {
            None => None,
            Some(d) => if parts.last() == "."@ {
                Some(d)
            } else if parts.last() != ".."@ {
                Some(d + 1)
            } else if d > 0 {
                Some(d - 1)
            } else {
                None
            },
        }
    }
}

/// An entry's name stays below the directory that it is put in: it has no root, no prefix and no
/// null character, and never leads above its beginning.
pub open spec fn enclosed(os: Os, name: Seq<char>) -> bool {
    &&& !name.contains('\0')
    &&& !platform::rooted(os, name)
    &&& platform::prefix_len(os, name) == 0
    &&& depth(platform::components(os, name)) is Some
}

/// What is taken out of the archive for an entry.
pub enum ExtractAction {
    /// Nothing: the entry would not stay below.
    Skip,
    MakeDir(String),
    /// The directories above the file are made if need be.
    WriteFile { path: String, contents: Vec<u8>, mode: Option<u32> },
}

/// What is taken out of the archive for an entry.
pub enum ActionView {
    Skip,
    MakeDir(Seq<char>),
    WriteFile { path: Seq<char>, contents: Seq<u8>, mode: Option<u32> },
}

impl View for ExtractAction {
    type V = ActionView;

    open spec fn view(&self) -> ActionView {
        match self {
            ExtractAction::Skip => ActionView::Skip,
            ExtractAction::MakeDir(path) => ActionView::MakeDir(path@),
            ExtractAction::WriteFile { path, contents, mode } => ActionView::WriteFile {
                path: path@,
                contents: contents@,
                mode: *mode,
            },
        }
    }
}

/// What is taken out for an entry with the given header and contents.
pub open spec fn entry_action(
    os: Os,
    dest: Seq<char>,
    name: Seq<char>,
    mode: Option<u32>,
    contents: Result<Seq<u8>, Seq<char>>,
) -> Result<ActionView, Seq<char>> {
    if !enclosed(os, name) {
        Ok(ActionView::Skip)
    } else if text::finishes_with(name, "/"@) {
        Ok(ActionView::MakeDir(platform::joined_path(os, dest, name)))
    } else {
        match contents {
            Ok(contents) => Ok(
                ActionView::WriteFile {
                    path: platform::joined_path(os, dest, name),
                    contents,
                    mode,
                },
            ),
            Err(e) => Err(e),
        }
    }
}

/// What is taken out of the archive for an entry, or the error.
pub open spec fn extracted(
    os: Os,
    dest: Seq<char>,
    data: Seq<u8>,
    at: int,
) -> Result<ActionView, Seq<char>> {
    match archive_header(data, at) {
        Ok(header) => entry_action(
            os,
            dest,
            header.0,
            header.1,
            archive_contents(data, at),
        ),
        Err(e) => Err(e),
    }
}

/// `action` is what is wanted, or the error.
pub open spec fn extracts(
    action: Result<ExtractAction, String>,
    wanted: Result<ActionView, Seq<char>>,
) -> bool {
    match action {
        Ok(action) => wanted == Ok::<ActionView, Seq<char>>(action@),
        Err(e) => wanted == Err::<ActionView, Seq<char>>(e@),
    }
}

/// Whether an entry's name stays below the directory that it is put in.
pub fn enclosed_name(os: Os, name: &str) -> (b: bool)
    ensures
        b == enclosed(os, name@),
{
    let chars = chars_of(name);
    for i in 0..chars.len()
        invariant
            chars@ == name@,
            forall|j: int| 0 <= j < i ==> name@[j] != '\0',
    {
        if chars[i] == '\0' {
            assert(name@.contains('\0'));
            return false;
        }
    }
    if has_root(os, name) || has_prefix(os, name) {
        return false;
    }
    let parts = path_components(os, name);
    let ghost all = text::views(parts@);
    let mut below: usize = 0;
    assert(all.take(0) =~= Seq::empty());
    for i in 0..parts.len()
        invariant
            all == text::views(parts@),
            all == platform::components(os, name@),
            below <= i,
            depth(all.take(i as int)) == Some(below as int),
    {
        proof {
            assert(all.take(i + 1).drop_last() =~= all.take(i as int));
            assert(all.take(i + 1).last() == parts@[i as int]@);
        }
        let part = parts[i].as_str();
        if !same_text(part, ".") {
            if !same_text(part, "..") {
                below = below + 1;
            } else if below > 0 {
                below = below - 1;
            } else {
                proof {
                    lemma_depth_stays_none(all, i + 1);
                }
                return false;
            }
        }
    }
    assert(all.take(all.len() as int) =~= all);
    assert(all.len() == parts@.len());
    true
}

/// A path that leads above its beginning somewhere does so as a whole.
proof fn lemma_depth_stays_none(parts: Seq<Seq<char>>, at: int)
    requires
        0 <= at <= parts.len(),
        depth(parts.take(at)) is None,
    ensures
        depth(parts) is None,
    decreases parts.len(),
{
    if at < parts.len() {
        assert(parts.drop_last().take(at) =~= parts.take(at));
        lemma_depth_stays_none(parts.drop_last(), at);
    } else {
        assert(parts.take(at) =~= parts);
    }
}

/// What is taken out for an entry with the given header and contents.
pub fn action_for(
    os: Os,
    dest: &str,
    name: &str,
    mode: Option<u32>,
    contents: Result<Vec<u8>, String>,
) -> (action: Result<ExtractAction, String>)
    ensures
        extracts(
            action,
            entry_action(
                os,
                dest@,
                name@,
                mode,
                match contents {
                    Ok(bytes) => Ok(bytes@),
                    Err(e) => Err(e@),
                },
            ),
        ),
{
    if !enclosed_name(os, name) {
        return Ok(ExtractAction::Skip);
    }
    let path = join_path(os, dest, name);
    if ends_with(name, "/") {
        return Ok(ExtractAction::MakeDir(path));
    }
    match contents {
        Ok(contents) => Ok(ExtractAction::WriteFile { path, contents, mode }),
        Err(e) => Err(e),
    }
}

/// How many entries an archive has.
pub fn archive_entries(data: &[u8]) -> (size: Result<usize, String>)
    ensures
        match size {
            Ok(n) => archive_size(data@) == Ok::<usize, Seq<char>>(n),
            Err(e) => archive_size(data@) == Err::<usize, Seq<char>>(e@),
        },
{
    zip_size(data)
}

/// What is taken out of the archive for an entry, to be put below `dest`.
pub fn extract_chromium_zip(os: Os, dest: &str, data: &[u8], at: usize) -> (action: Result<
    ExtractAction,
    String,
>)
    ensures
        extracts(action, extracted(os, dest@, data@, at as int)),
{
    let (name, mode) = match zip_header(data, at) {
        Ok(header) => header,
        Err(e) => return Err(e),
    };
    action_for(os, dest, name.as_str(), mode, zip_contents(data, at))
}

// ---------------------------------------------------------------------------------------------
// Laws
// ---------------------------------------------------------------------------------------------

/// The places are asked in order, and the first one that gives the archive is used: none behind
/// it matters.
pub proof fn law_first_place_that_answers_is_used(
    outcomes: Seq<OutcomeView>,
    from: int,
    at: int,
    archive: Seq<u8>,
)
    requires
        0 <= from <= at < outcomes.len(),
        forall|i: int| from <= i < at ==> (#[trigger] outcomes[i]) is Failed,
        outcomes[at] == OutcomeView::Body(archive),
    ensures
        downloaded(outcomes, from) == Ok::<Seq<u8>, Seq<char>>(archive),
    decreases at - from,
{
    if from < at {
        assert(outcomes[from] is Failed);
        law_first_place_that_answers_is_used(outcomes, from + 1, at, archive);
    }
}

/// Where every place fails, the failure of the last one is told.
pub proof fn law_last_failure_is_told(outcomes: Seq<OutcomeView>, from: int)
    requires
        0 <= from < outcomes.len(),
        forall|i: int| from <= i < outcomes.len() ==> (#[trigger] outcomes[i]) is Failed,
    ensures
        downloaded(outcomes, from) == Err::<Seq<u8>, Seq<char>>(
            "Chromium download failed: "@ + outcomes.last()->Failed_0,
        ),
    decreases outcomes.len() - from,
{
    assert(outcomes[from] is Failed);
    if from + 1 < outcomes.len() {
        law_last_failure_is_told(outcomes, from + 1);
    }
}

/// Where an entry is put: a directory that is made, or a file that is written.
pub open spec fn put_at(action: ActionView) -> Option<Seq<char>> {
    match action {
        ActionView::Skip => None,
        ActionView::MakeDir(path) => Some(path),
        ActionView::WriteFile { path, .. } => Some(path),
    }
}

/// `path` lies below `dest`: its components are those of `dest` and then others that nowhere lead
/// above their beginning.
pub open spec fn lies_below(os: Os, path: Seq<char>, dest: Seq<char>) -> bool {
    let inner = platform::components(os, path);
    let outer = platform::components(os, dest);
    &&& platform::verbatim(os, path) == platform::verbatim(os, dest)
    &&& platform::prefix_of(os, path) == platform::prefix_of(os, dest)
    &&& outer.len() <= inner.len()
    &&& inner.take(outer.len() as int) == outer
    &&& forall|to: int|
        outer.len() <= to <= inner.len() ==> depth(
            #[trigger] inner.subrange(outer.len() as int, to),
        ) is Some
}

/// An entry that leads above the directory is put nowhere, and any other below it. The directory
/// has to name a whole Windows prefix: below `\\server`, which names no share, the first
/// component of an entry would be taken for one.
pub proof fn law_entries_stay_below(
    os: Os,
    dest: Seq<char>,
    name: Seq<char>,
    mode: Option<u32>,
    contents: Result<Seq<u8>, Seq<char>>,
)
    ensures
        !enclosed(os, name) ==> entry_action(os, dest, name, mode, contents) == Ok::<
            ActionView,
            Seq<char>,
        >(ActionView::Skip),
        entry_action(os, dest, name, mode, contents) matches Ok(action) ==> put_at(
            action,
        ) matches Some(path) ==> platform::prefix_len(os, path) == platform::prefix_len(os, dest)
            ==> lies_below(os, path, dest),
{
    let path = platform::joined_path(os, dest, name);
    if enclosed(os, name) && platform::prefix_len(os, path) == platform::prefix_len(os, dest) {
        platform::lemma_joined_components(os, dest, name);
        let inner = platform::components(os, path);
        let outer = platform::components(os, dest);
        lemma_steps_below(os, dest, name);
        let steps = inner.skip(outer.len() as int);
        assert forall|to: int| outer.len() <= to <= inner.len() implies depth(
            #[trigger] inner.subrange(outer.len() as int, to),
        ) is Some by {
            assert(inner.subrange(outer.len() as int, to) =~= steps.take(to - outer.len()));
            if depth(steps.take(to - outer.len())) is None {
                lemma_depth_stays_none(steps, to - outer.len());
            }
        }
    }
}

/// What a name that stays below a directory leads to has the components of the directory, and
/// others that stay below.
proof fn lemma_steps_below(os: Os, dest: Seq<char>, name: Seq<char>)
    requires
        enclosed(os, name),
    ensures
        ({
            let inner = platform::components_below(os, dest, name);
            let outer = platform::components(os, dest);
            &&& outer.len() <= inner.len()
            &&& inner.take(outer.len() as int) == outer
            &&& depth(inner.skip(outer.len() as int)) is Some
        }),
{
    let inner = platform::components_below(os, dest, name);
    let outer = platform::components(os, dest);
    let parts = platform::components(os, name);
    let pieces = text::pieces(platform::plain_rest(os, name), platform::path_separator(os));
    if platform::verbatim(os, dest) {
        lemma_walked_depth(outer, parts);
    } else if dest.len() == 0 || (os is Windows && dest.len() == 2 && platform::drive_at(dest, 0)) {
        platform::lemma_bare_start(os, dest);
        assert(inner.skip(0) =~= inner);
        assert(inner.take(0) =~= outer);
    } else {
        lemma_steps_depth(pieces);
        platform::lemma_not_verbatim(os, name);
        assert(inner.take(outer.len() as int) =~= outer);
        assert(inner.skip(outer.len() as int) =~= platform::counted_later(pieces));
    }
}

/// Below a verbatim path, components that stay below lead to names alone.
proof fn lemma_walked_depth(from: Seq<Seq<char>>, parts: Seq<Seq<char>>)
    requires
        depth(parts) is Some,
    ensures
        ({
            let led = platform::walked(from, parts);
            &&& led.len() == from.len() + depth(parts)->0
            &&& led.len() >= from.len()
            &&& led.take(from.len() as int) == from
            &&& depth(led.skip(from.len() as int)) == depth(parts)
            &&& forall|i: int|
                from.len() <= i < led.len() ==> #[trigger] led[i] != "."@ && led[i] != ".."@
        }),
    decreases parts.len(),
{
    let n = from.len() as int;
    let led = platform::walked(from, parts);
    if parts.len() == 0 {
        assert(led.take(n) =~= from);
        assert(led.skip(n) =~= Seq::empty());
    } else {
        let before = platform::walked(from, parts.drop_last());
        lemma_walked_depth(from, parts.drop_last());
        if parts.last() == "."@ {
        } else if parts.last() != ".."@ {
            assert(led.take(n) =~= before.take(n));
            assert(led.skip(n) =~= before.skip(n).push(parts.last()));
            lemma_depth_push(before.skip(n), parts.last());
        } else {
            reveal_strlit(".");
            reveal_strlit("..");
            assert("."@.len() != ".."@.len());
            assert(before[before.len() - 1] == before.last());
            assert(led.take(n) =~= before.take(n));
            assert(led.skip(n).push(before.last()) =~= before.skip(n));
            lemma_depth_push(led.skip(n), before.last());
        }
    }
}

/// Components that do not count change no depth.
proof fn lemma_steps_depth(pieces: Seq<Seq<char>>)
    ensures
        depth(platform::counted_later(pieces)) == depth(platform::counted(pieces, false)),
    decreases pieces.len(),
{
    if pieces.len() > 0 {
        let rest = pieces.drop_last();
        lemma_steps_depth(rest);
        lemma_depth_push(platform::counted(rest, false), pieces.last());
        lemma_depth_push(platform::counted_later(rest), pieces.last());
    }
}

/// The depth behind one component more.
proof fn lemma_depth_push(parts: Seq<Seq<char>>, part: Seq<char>)
    ensures
        depth(parts.push(part)) == match depth(parts) {
            None => None,
            Some(d) => if part == "."@ {
                Some(d)
            } else if part != ".."@ {
                Some(d + 1)
            } else if d > 0 {
                Some(d - 1)
            } else {
                None
            },
        },
{
    assert(parts.push(part).drop_last() =~= parts);
}

/// What an archive holds at a place where the browser of a build is looked for is put where it is
/// found.
pub proof fn law_extracted_browser_is_found(
    m: browsers::MachineView,
    dest: Seq<char>,
    layout: browsers::LayoutView,
    at: int,
    mode: Option<u32>,
    contents: Seq<u8>,
    path: Seq<char>,
)
    requires
        browsers::layout_for(m.platform) == Some(layout),
        0 <= at < layout.binary_relative_paths.len(),
        entry_action(
            m.platform.os,
            dest,
            layout.binary_relative_paths[at],
            mode,
            Ok(contents),
        ) == Ok::<ActionView, Seq<char>>(ActionView::WriteFile { path, contents, mode }),
        m.existing.contains(path),
    ensures
        browsers::playwright_binary(m, dest) is Some,
{
    lemma_found_below(m, dest, layout.binary_relative_paths, at);
}

/// A path that exists below a directory, or one before it, is found.
proof fn lemma_found_below(
    m: browsers::MachineView,
    dir: Seq<char>,
    paths: Seq<Seq<char>>,
    at: int,
)
    requires
        0 <= at < paths.len(),
        m.existing.contains(platform::joined_path(m.platform.os, dir, paths[at])),
    ensures
        browsers::first_below(m, dir, paths) is Some,
    decreases paths.len(),
{
    if at > 0 {
        assert(paths.skip(1)[at - 1] == paths[at]);
        lemma_found_below(m, dir, paths.skip(1), at - 1);
    }
}

/// The build that is used is the first browser of the list that lies in Playwright's cache.
pub proof fn law_first_build_of_playwright_is_used(found: Seq<browsers::BrowserView>, at: int)
    requires
        0 <= at <= found.len(),
        forall|i: int|
            0 <= i < at ==> !text::occurs_in((#[trigger] found[i]).path, "ms-playwright"@),
        at < found.len() ==> text::occurs_in(found[at].path, "ms-playwright"@),
    ensures
        first_playwright(found) == if at < found.len() {
            Some(found[at].path)
        } else {
            None
        },
    decreases at,
{
    if at > 0 {
        assert(!text::occurs_in(found[0].path, "ms-playwright"@));
        let rest = found.skip(1);
        assert forall|i: int| 0 <= i < at - 1 implies !text::occurs_in(
            (#[trigger] rest[i]).path,
            "ms-playwright"@,
        ) by {
            assert(rest[i] == found[i + 1]);
        }
        law_first_build_of_playwright_is_used(rest, at - 1);
    }
}

/// The build to download is the one that the list of browsers names for Chromium: the number in
/// the first entry of that name.
pub proof fn law_listed_build_is_chromiums(list: JsonTree, entries: Seq<JsonTree>, at: int)
    requires
        list.at("browsers"@) == JsonTree::Array(entries),
        0 <= at <= entries.len(),
        forall|i: int|
            0 <= i < at ==> (#[trigger] entries[i]).text_member("name"@) != Some("chromium"@),
        at < entries.len() ==> entries[at].text_member("name"@) == Some("chromium"@),
    ensures
        listed_revision(list) == if at < entries.len() {
            entries[at].at("revision"@).as_unsigned()
        } else {
            None
        },
{
    lemma_chromium_entry(entries, at);
}

proof fn lemma_chromium_entry(entries: Seq<JsonTree>, at: int)
    requires
        0 <= at <= entries.len(),
        forall|i: int|
            0 <= i < at ==> (#[trigger] entries[i]).text_member("name"@) != Some("chromium"@),
        at < entries.len() ==> entries[at].text_member("name"@) == Some("chromium"@),
    ensures
        chromium_entry(entries) == if at < entries.len() {
            Some(entries[at])
        } else {
            None
        },
    decreases at,
{
    if at > 0 {
        assert(entries[0].text_member("name"@) != Some("chromium"@));
        let rest = entries.skip(1);
        assert forall|i: int| 0 <= i < at - 1 implies (#[trigger] rest[i]).text_member("name"@)
            != Some("chromium"@) by {
            assert(rest[i] == entries[i + 1]);
        }
        lemma_chromium_entry(rest, at - 1);
    }
}

/// Each place of a build is asked for that build's archive, over HTTPS.
pub proof fn law_places_hold_the_build(revision: Seq<char>, archive: Seq<char>, at: int)
    requires
        0 <= at < download_places(revision, archive).len(),
    ensures
        download_places(revision, archive).len() == 3,
        text::begins_with(download_places(revision, archive)[at], "https://"@),
        text::finishes_with(
            download_places(revision, archive)[at],
            "/builds/chromium/"@ + revision + "/"@ + archive + ".zip"@,
        ),
{
    let end = revision + "/"@ + archive + ".zip"@;
    let tail = "/builds/chromium/"@ + revision + "/"@ + archive + ".zip"@;
    let place = download_places(revision, archive)[at];
    reveal_strlit("https://cdn.playwright.dev/dbazure/download/playwright/builds/chromium/");
    reveal_strlit("https://cdn.playwright.dev/builds/chromium/");
    reveal_strlit("https://playwright.azureedge.net/builds/chromium/");
    reveal_strlit("https://");
    reveal_strlit("/builds/chromium/");
    assert(tail =~= "/builds/chromium/"@ + end);
    let head = if at == 0 {
        "https://cdn.playwright.dev/dbazure/download/playwright/builds/chromium/"@
    } else if at == 1 {
        "https://cdn.playwright.dev/builds/chromium/"@
    } else {
        "https://playwright.azureedge.net/builds/chromium/"@
    };
    assert(place == head + end);
    let n = head.len() - "/builds/chromium/"@.len();
    assert(head.skip(n) =~= "/builds/chromium/"@);
    assert(head.take(8) =~= "https://"@);
    assert(place.take(8) =~= "https://"@);
    assert(place.skip(n) =~= tail);
}

/// An entry that stays below is put at its place below the directory: a directory where its name
/// ends in a slash, and else a file with the entry's contents and mode. An entry whose contents
/// cannot be read is an error.
pub proof fn law_entries_are_put_as_they_are(
    os: Os,
    dest: Seq<char>,
    name: Seq<char>,
    mode: Option<u32>,
    bytes: Seq<u8>,
    error: Seq<char>,
)
    requires
        enclosed(os, name),
    ensures
        name.len() > 0 && name.last() == '/' ==> entry_action(os, dest, name, mode, Ok(bytes))
            == Ok::<ActionView, Seq<char>>(
            ActionView::MakeDir(platform::joined_path(os, dest, name)),
        ),
        name.len() == 0 || name.last() != '/' ==> entry_action(os, dest, name, mode, Ok(bytes))
            == Ok::<ActionView, Seq<char>>(
            ActionView::WriteFile {
                path: platform::joined_path(os, dest, name),
                contents: bytes,
                mode,
            },
        ),
        name.len() == 0 || name.last() != '/' ==> entry_action(os, dest, name, mode, Err(error))
            == Err::<ActionView, Seq<char>>(error),
{
    reveal_strlit("/");
    if name.len() > 0 {
        assert(name.skip(name.len() - 1) =~= seq![name.last()]);
        assert("/"@ =~= seq!['/']);
        if name.last() != '/' {
            assert(seq![name.last()][0] != seq!['/'][0]);
        }
    }
}

/// A name leads above its beginning exactly where some part of it has more steps up than down; a
/// name of plain parts never does.
pub proof fn law_depth_counts_steps(parts: Seq<Seq<char>>, part: Seq<char>)
    ensures
        depth(Seq::empty()) == Some(0int),
        depth(parts) matches Some(d) ==> d >= 0,
        depth(parts) is None ==> depth(parts.push(part)) is None,
        depth(parts) matches Some(d) ==> part != "."@ && part != ".."@ ==> depth(parts.push(part))
            == Some(d + 1),
        depth(parts) matches Some(d) ==> d > 0 ==> depth(parts.push(".."@)) == Some(d - 1),
        depth(parts) == Some(0int) ==> depth(parts.push(".."@)) is None,
        depth(parts.push("."@)) == depth(parts),
{
    lemma_depth_push(parts, part);
    lemma_depth_push(parts, ".."@);
    lemma_depth_push(parts, "."@);
    reveal_strlit(".");
    reveal_strlit("..");
    assert("."@.len() != ".."@.len());
    lemma_depth_not_negative(parts);
}

proof fn lemma_depth_not_negative(parts: Seq<Seq<char>>)
    ensures
        depth(parts) matches Some(d) ==> d >= 0,
    decreases parts.len(),
{
    if parts.len() > 0 {
        lemma_depth_not_negative(parts.drop_last());
    }
}

/// The installation stops where a build is there already; else Playwright's own installer is tried
/// where it can be run, and the build is downloaded where it cannot be or did not help.
pub proof fn law_installation_goes_step_by_step(
    m: browsers::MachineView,
    path: Seq<char>,
    success: bool,
    npx: bool,
    step: InstallStep,
)
    ensures
        first_playwright(browsers::detected(m)) == Some(path) && first_step(m, npx, step) ==> (
        step.next matches InstallNext::Installed(found) && found@ == path),
        first_playwright(browsers::detected(m)) is None && first_step(m, true, step)
            ==> step.next is RunNpx,
        first_playwright(browsers::detected(m)) is None && first_step(m, false, step)
            ==> step.next is Download,
        first_playwright(browsers::detected(m)) == Some(path) && npx_step(m, true, step) ==> (
        step.next matches InstallNext::Installed(found) && found@ == path),
        first_playwright(browsers::detected(m)) is None && npx_step(m, success, step)
            ==> step.next is Download,
        npx_step(m, false, step) ==> step.next is Download,
{
}

/// A build is put below the cache, into a directory named after its number, where it is looked for
/// as that build.
pub proof fn law_builds_are_put_under_their_number(os: Os, cache: Seq<char>, n: int)
    requires
        0 <= n <= u64::MAX,
    ensures
        build_dir(os, cache, text::decimal(n)) == platform::joined_path(
            os,
            cache,
            "chromium-"@ + text::decimal(n),
        ),
        browsers::revision("chromium-"@ + text::decimal(n)) == n,
{
    browsers::law_build_number_is_in_the_name(n, Seq::empty());
}

/// The places are asked from the first on; where there is none, nothing is downloaded.
pub proof fn law_first_place_is_asked_first(places: int)
    ensures
        places > 0 ==> first_ask(places) == NextView::Ask(0),
        places <= 0 ==> first_ask(places) == NextView::Stop("Chromium download failed: "@),
{
}

/// What is taken out for an entry goes by the name, the mode and the contents that the archive has
/// for it; an archive that has none for it is an error.
pub proof fn law_entries_come_out_of_the_archive(
    os: Os,
    dest: Seq<char>,
    data: Seq<u8>,
    at: int,
    name: Seq<char>,
    mode: Option<u32>,
    bytes: Seq<u8>,
    error: Seq<char>,
)
    ensures
        archive_header(data, at) == Err::<(Seq<char>, Option<u32>), Seq<char>>(error) ==> extracted(
            os,
            dest,
            data,
            at,
        ) == Err::<ActionView, Seq<char>>(error),
        archive_header(data, at) == Ok::<(Seq<char>, Option<u32>), Seq<char>>((name, mode))
            && archive_contents(data, at) == Ok::<Seq<u8>, Seq<char>>(bytes) && enclosed(os, name)
            && name.len() > 0 && name.last() != '/' ==> extracted(os, dest, data, at) == Ok::<
            ActionView,
            Seq<char>,
        >(
            ActionView::WriteFile {
                path: platform::joined_path(os, dest, name),
                contents: bytes,
                mode,
            },
        ),
{
    if enclosed(os, name) {
        law_entries_are_put_as_they_are(os, dest, name, mode, bytes, error);
    }
}

} // verus!
