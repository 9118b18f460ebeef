//! The icon in the system tray: whether there is one, what its menu does, and how it looks.
use vstd::prelude::*;
use vstd::string::*;

use crate::config::AppConfig;
use crate::platform::Os;
use crate::text::same_text;
use crate::tui::UiAction;

verus! {

/// Whether the tray works: on macOS menus must be made on the main thread, which the tray does
/// not have.
pub fn tray_supported(os: Os) -> (b: bool)
    ensures
        b == !(os is Macos),
{
    !matches!(os, Os::Macos)
}

/// What becomes of the tray.
#[derive(Debug, Clone, Copy, PartialEq, Eq, Structural)]
pub enum TrayPlan {
    /// It is switched off.
    Off,
    /// It does not work on this machine.
    Unsupported,
    Show,
}

/// What becomes of the tray.
pub fn spawn_tray(config: &AppConfig, os: Os) -> (plan: TrayPlan)
    ensures
        plan == if !config.ui.tray {
            TrayPlan::Off
        } else if os is Macos {
            TrayPlan::Unsupported
        } else {
            TrayPlan::Show
        },
{
    if !config.ui.tray {
        TrayPlan::Off
    } else if !tray_supported(os) {
        TrayPlan::Unsupported
    } else {
        TrayPlan::Show
    }
}

/// The page that the menu opens.
pub fn health_url(listen_addr: &str) -> (url: String)
    ensures
        url@ == "http://"@ + listen_addr@ + "/healthz"@,
{
    let mut url = "http://".to_owned();
    url.append(listen_addr);
    url.append("/healthz");
    url
}

/// What an entry of the menu does.
#[derive(Debug, Clone, Copy, PartialEq, Eq, Structural)]
pub enum MenuAction {
    /// Ask the service; the tray closes with a request to quit.
    Ask(UiAction),
    /// Open the health page.
    OpenHealth,
    Nothing,
}

/// What the entry of the given name does.
pub open spec fn entry_action(id: Seq<char>) -> MenuAction {
    if id == "quit"@ {
        MenuAction::Ask(UiAction::Quit)
    } else if id == "refresh"@ {
        MenuAction::Ask(UiAction::RefreshToken)
    } else if id == "edge"@ {
        MenuAction::Ask(UiAction::LaunchEdge)
    } else if id == "open"@ {
        MenuAction::OpenHealth
    } else {
        MenuAction::Nothing
    }
}

/// What the entry of the given name does.
pub fn menu_action(id: &str) -> (action: MenuAction)
    ensures
        action == entry_action(id@),
{
    if same_text(id, "quit") {
        MenuAction::Ask(UiAction::Quit)
    } else if same_text(id, "refresh") {
        MenuAction::Ask(UiAction::RefreshToken)
    } else if same_text(id, "edge") {
        MenuAction::Ask(UiAction::LaunchEdge)
    } else if same_text(id, "open") {
        MenuAction::OpenHealth
    } else {
        MenuAction::Nothing
    }
}

/// How wide and how high the icon is.
pub const ICON_SIZE: u32 = 22;

/// A pixel of the icon, as red, green, blue and opacity: a dark frame round a light square.
pub open spec fn pixel(x: int, y: int) -> Seq<u8> {
    if x == 0 || y == 0 || x == ICON_SIZE - 1 || y == ICON_SIZE - 1 {
        seq![30u8, 96u8, 168u8, 255u8]
    } else {
        seq![70u8, 140u8, 220u8, 255u8]
    }
}

/// The first `count` pixels of the icon, row by row.
pub open spec fn pixels(count: int) -> Seq<u8>
    decreases count,
{
    if count <= 0 {
        Seq::empty()
    } else {
        pixels(count - 1) + pixel((count - 1) % 22, (count - 1) / 22)
    }
}

/// The pixels of the icon, row by row, four bytes each.
pub fn build_icon() -> (rgba: Vec<u8>)
    ensures
        rgba@ == pixels(ICON_SIZE * ICON_SIZE),
        rgba@.len() == 4 * ICON_SIZE * ICON_SIZE,
{
    let mut rgba: Vec<u8> = Vec::new();
    let mut at: u32 = 0;
    while at < 484
        invariant
            at <= 484,
            rgba@ == pixels(at as int),
            rgba@.len() == 4 * at,
        decreases 484 - at,
    {
        let ghost before = rgba@;
        let x: u32 = at % 22;
        let y: u32 = at / 22;
        if x == 0 || y == 0 || x == 21 || y == 21 {
            rgba.push(30);
            rgba.push(96);
            rgba.push(168);
            rgba.push(255);
        } else {
            rgba.push(70);
            rgba.push(140);
            rgba.push(220);
            rgba.push(255);
        }
        assert(rgba@ =~= before + pixel(at as int % 22, at as int / 22));
        at = at + 1;
    }
    rgba
}

/// The icon is square, has four bytes for each pixel, and is dark at its border and light within;
/// it is nowhere transparent.
pub proof fn law_icon_is_a_framed_square(x: int, y: int)
    requires
        0 <= x < 22,
        0 <= y < 22,
    ensures
        pixels(484).len() == 4 * 22 * 22,
        pixels(484).subrange(4 * (22 * y + x), 4 * (22 * y + x) + 4) == if x == 0 || y == 0
            || x == 21 || y == 21 {
            seq![30u8, 96u8, 168u8, 255u8]
        } else {
            seq![70u8, 140u8, 220u8, 255u8]
        },
{
    let at = 22 * y + x;
    lemma_pixel_at(484, at);
    assert(at % 22 == x && at / 22 == y);
}

proof fn lemma_pixel_at(count: int, at: int)
    requires
        0 <= at < count,
    ensures
        pixels(count).len() == 4 * count,
        pixels(count).subrange(4 * at, 4 * at + 4) == pixel(at % 22, at / 22),
    decreases count,
{
    lemma_pixel_count(count - 1);
    lemma_pixel_count(count);
    let before = pixels(count - 1);
    if at == count - 1 {
        assert(pixels(count).subrange(4 * at, 4 * at + 4) =~= pixel(at % 22, at / 22));
    } else {
        lemma_pixel_at(count - 1, at);
        assert(pixels(count).subrange(4 * at, 4 * at + 4) =~= before.subrange(4 * at, 4 * at + 4));
    }
}

proof fn lemma_pixel_count(count: int)
    requires
        count >= 0,
    ensures
        pixels(count).len() == 4 * count,
    decreases count,
{
    if count > 0 {
        lemma_pixel_count(count - 1);
    }
}

/// Each entry of the menu does what it is called after; a name that is no entry's does nothing.
pub proof fn law_entries_do_what_they_are_called(id: Seq<char>)
    ensures
        entry_action(id) == MenuAction::Ask(UiAction::Quit) <==> id == "quit"@,
        entry_action(id) == MenuAction::Ask(UiAction::RefreshToken) <==> id == "refresh"@,
        entry_action(id) == MenuAction::Ask(UiAction::LaunchEdge) <==> id == "edge"@,
        entry_action(id) == MenuAction::OpenHealth <==> id == "open"@,
{
    reveal_strlit("quit");
    reveal_strlit("refresh");
    reveal_strlit("edge");
    reveal_strlit("open");
    assert("quit"@[0] == 'q' && "edge"@[0] == 'e' && "open"@[0] == 'o');
    assert("refresh"@.len() == 7 && "quit"@.len() == 4 && "edge"@.len() == 4 && "open"@.len() == 4);
}

} // verus!
